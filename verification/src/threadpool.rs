use vstd::prelude::*;
use std::collections::VecDeque;
use crate::job::{Job, JobView, MultiThreadMessage, Signal};
use crate::worker::Worker;

verus! {

/// What one turn of a pool did.
#[derive(Debug)]
pub enum Turn<'a> {
    /// The worker with this number received a job, which is now to be executed.
    Run(usize, Job<'a>),
    /// The worker with this number received the order to stop, and stopped.
    Stop(usize),
    /// No message waits, or no worker is left to receive one.
    Idle,
}

/// A fixed set of workers behind one queue of messages, oldest first.
///
/// The pool keeps the messages in order and knows of each worker whether it still
/// runs. It starts no thread: whoever holds the pool gives the workers their turns
/// with [`ThreadPool::deliver`] and executes the jobs they receive. A program that
/// lets workers run side by side gives each a thread and a [`Worker`] of its own,
/// and has [`Worker::receive`] decide there as it decides here.
#[derive(Debug)]
pub struct ThreadPool<'a> {
    workers: Vec<Worker>,
    queue: VecDeque<MultiThreadMessage<'a>>,
    open: bool,
}

/// What a [`ThreadPool`] stands for.
pub struct PoolView {
    /// For each worker, by its number, whether it still takes messages.
    pub running: Seq<bool>,
    /// The messages that wait, oldest first.
    pub queue: Seq<Signal>,
    /// Whether jobs are still accepted.
    pub open: bool,
}

/// The lowest position of `running` that holds `true`.
pub open spec fn first_running(running: Seq<bool>) -> Option<int> {
    if exists|w: int| 0 <= w < running.len() && running[w] {
        Some(choose|w: int| lowest_running(running, w))
    } else {
        None
    }
}

/// Whether `w` is the lowest position of `running` that holds `true`.
pub open spec fn lowest_running(running: Seq<bool>, w: int) -> bool {
    &&& 0 <= w < running.len()
    &&& running[w]
    &&& forall|v: int| 0 <= v < w ==> !running[v]
}

/// How many positions of `running` hold `true`.
pub open spec fn count_running(running: Seq<bool>) -> nat
    decreases running.len(),
{
    if running.len() == 0 {
        0
    } else {
        count_running(running.drop_last()) + if running.last() {
            1nat
        } else {
            0nat
        }
    }
}

/// Where every worker runs, as many run as there are.
pub proof fn lemma_count_all(running: Seq<bool>)
    requires
        forall|w: int| 0 <= w < running.len() ==> running[w],
    ensures
        count_running(running) == running.len(),
    decreases running.len(),
{
    if running.len() > 0 {
        lemma_count_all(running.drop_last());
    }
}

/// No worker runs exactly where the number of those that run is 0.
pub proof fn lemma_count_none(running: Seq<bool>)
    ensures
        count_running(running) == 0 <==> forall|w: int| 0 <= w < running.len() ==> !running[w],
    decreases running.len(),
{
    if running.len() > 0 {
        lemma_count_none(running.drop_last());
        if count_running(running) == 0 {
            assert forall|w: int| 0 <= w < running.len() implies !running[w] by {
                if w < running.len() - 1 {
                    assert(running.drop_last()[w] == running[w]);
                }
            }
        } else if running.last() {
        } else {
            let w = choose|w: int| 0 <= w < running.len() - 1 && running.drop_last()[w];
            assert(running[w]);
        }
    }
}

/// A worker that stops is one fewer that runs.
pub proof fn lemma_count_stop(running: Seq<bool>, w: int)
    requires
        0 <= w < running.len(),
        running[w],
    ensures
        count_running(running.update(w, false)) + 1 == count_running(running),
    decreases running.len(),
{
    let after = running.update(w, false);
    if w == running.len() - 1 {
        assert(after.drop_last() =~= running.drop_last());
    } else {
        assert(after.drop_last() =~= running.drop_last().update(w, false));
        lemma_count_stop(running.drop_last(), w);
    }
}

impl PoolView {
    /// How many orders to stop wait: none while the pool accepts jobs, and afterwards
    /// one for each worker that still runs.
    pub open spec fn orders(self) -> nat {
        if self.open {
            0
        } else {
            count_running(self.running)
        }
    }

    /// The jobs that wait, oldest first: all that stands in the queue before the
    /// orders to stop.
    pub open spec fn jobs(self) -> Seq<JobView> {
        Seq::new((self.queue.len() - self.orders()) as nat, |k: int| self.queue[k]->NewJob_0)
    }

    /// A pool has a worker. While it accepts jobs every worker runs and nothing but
    /// jobs waits in the queue. Once it accepts none, the queue holds the jobs that
    /// still wait and behind them one order to stop for each worker that still
    /// runs, no more and no fewer; so when the last worker has stopped, nothing
    /// waits.
    pub open spec fn well_formed(self) -> bool {
        &&& self.running.len() > 0
        &&& self.open ==> forall|w: int| 0 <= w < self.running.len() ==> self.running[w]
        &&& self.orders() <= self.queue.len()
        &&& forall|k: int| 0 <= k < self.queue.len() - self.orders() ==> self.queue[k] is NewJob
        &&& forall|k: int|
            self.queue.len() - self.orders() <= k < self.queue.len() ==> self.queue[k] is Terminate
        &&& !self.open && self.orders() == 0 ==> self.queue.len() == 0
    }
}

impl<'a> View for ThreadPool<'a> {
    type V = PoolView;

    closed spec fn view(&self) -> PoolView {
        PoolView {
            running: Seq::new(self.workers@.len(), |w: int| self.workers@[w].running),
            queue: self.queue.deep_view(),
            open: self.open,
        }
    }
}

impl<'a> ThreadPool<'a> {
    /// Whether every worker is known by its place among the workers.
    pub closed spec fn numbered(&self) -> bool {
        forall|w: int| 0 <= w < self.workers@.len() ==> (#[trigger] self.workers@[w]).id == w
    }

    /// What holds of every pool between two calls.
    pub open spec fn well_formed(&self) -> bool {
        self@.well_formed() && self.numbered()
    }

    /// A pool of `size` workers, all waiting, with nothing queued.
    pub fn new(size: usize) -> (pool: ThreadPool<'a>)
        requires
            size > 0,
        ensures
            pool.well_formed(),
            pool@.open,
            pool@.queue == Seq::<Signal>::empty(),
            pool@.running == Seq::new(size as nat, |w: int| true),
    {
        let mut workers: Vec<Worker> = Vec::new();
        let mut id: usize = 0;
        while id < size
            invariant
                id <= size,
                workers@.len() == id,
                forall|w: int| 0 <= w < id ==> (#[trigger] workers@[w]).id == w && workers@[w].running,
            decreases size - id,
        {
            workers.push(Worker::new(id));
            id += 1;
        }
        let pool = ThreadPool { workers, queue: VecDeque::new(), open: true };
        pool
    }

    /// Submits a job: it is queued behind all that waits.
    pub fn execute(&mut self, job: Job<'a>)
        requires
            old(self).well_formed(),
            old(self)@.open,
        ensures
            final(self).well_formed(),
            final(self)@ == (PoolView { queue: old(self)@.queue.push(Signal::NewJob(job@)), ..old(self)@ }),
    {
        let message = MultiThreadMessage::NewJob(job);
        self.queue.push_back(message);
        assert(self@.queue =~= old(self)@.queue.push(Signal::NewJob(job@)));
    }

    /// Submits jobs, each queued behind the one before it.
    pub fn execute_all(&mut self, jobs: Vec<Job<'a>>)
        requires
            old(self).well_formed(),
            old(self)@.open,
        ensures
            final(self).well_formed(),
            final(self)@ == (PoolView {
                queue: old(self)@.queue + jobs.deep_view().map_values(
                    |job: JobView| Signal::NewJob(job),
                ),
                ..old(self)@
            }),
    {
        let ghost all = jobs.deep_view().map_values(|job: JobView| Signal::NewJob(job));
        for job in it: jobs
            invariant
                self.well_formed(),
                self@.open,
                self@.running == old(self)@.running,
                all.len() == it.seq().len(),
                forall|k: int| 0 <= k < all.len() ==> all[k] == Signal::NewJob(it.seq()[k]@),
                self@.queue == old(self)@.queue + all.take(it.index() as int),
        {
            self.execute(job);
        }
        assert(all.take(all.len() as int) =~= all);
    }

    /// The number of messages that wait.
    pub fn queued(&self) -> (count: usize)
        ensures
            count == self@.queue.len(),
    {
        self.queue.len()
    }

    /// The number of the lowest worker that still runs.
    fn next_worker(&self) -> (found: Option<usize>)
        ensures
            match found {
                Some(w) => lowest_running(self@.running, w as int),
                None => forall|w: int| 0 <= w < self@.running.len() ==> !self@.running[w],
            },
    {
        let mut w: usize = 0;
        while w < self.workers.len()
            invariant
                w <= self.workers.len(),
                forall|v: int| 0 <= v < w ==> !self@.running[v],
            decreases self.workers.len() - w,
        {
            if self.workers[w].running {
                return Some(w);
            }
            w += 1;
        }
        None
    }

    /// One turn: the lowest worker that still runs receives the oldest message. A job
    /// is handed out to be executed; the order to stop stops that worker. Nothing
    /// happens where no message waits or no worker is left.
    pub fn deliver(&mut self) -> (turn: Turn<'a>)
        requires
            old(self).well_formed(),
        ensures
            final(self).well_formed(),
            final(self)@.open == old(self)@.open,
            final(self)@.running.len() == old(self)@.running.len(),
            match turn {
                Turn::Idle => {
                    &&& final(self)@ == old(self)@
                    &&& old(self)@.queue.len() == 0 || first_running(old(self)@.running) is None
                },
                Turn::Run(w, job) => {
                    &&& old(self)@.queue.len() > 0
                    &&& old(self)@.queue[0] == Signal::NewJob(job@)
                    &&& lowest_running(old(self)@.running, w as int)
                    &&& final(self)@.queue == old(self)@.queue.drop_first()
                    &&& final(self)@.running == old(self)@.running
                },
                Turn::Stop(w) => {
                    &&& old(self)@.queue.len() > 0
                    &&& old(self)@.queue[0] is Terminate
                    &&& lowest_running(old(self)@.running, w as int)
                    &&& final(self)@.queue == old(self)@.queue.drop_first()
                    &&& final(self)@.running == old(self)@.running.update(w as int, false)
                },
            },
    {
        let w = match self.next_worker() {
            Some(w) => w,
            None => {
                return Turn::Idle;
            },
        };
        let message = match self.queue.pop_front() {
            Some(message) => message,
            None => {
                return Turn::Idle;
            },
        };
        assert(self.queue.deep_view() =~= old(self).queue.deep_view().drop_first());
        proof {
            lemma_count_stop(old(self)@.running, w as int);
        }
        match self.workers[w].receive(message) {
            Some(job) => {
                assert(self@.running =~= old(self)@.running);
                Turn::Run(w, job)
            },
            None => {
                assert(self@.running =~= old(self)@.running.update(w as int, false));
                Turn::Stop(w)
            },
        }
    }

    /// Begins the end of the pool: no job is accepted any more, and one order to stop
    /// is queued for each worker, behind all that waits. The jobs that wait are still
    /// handed out, oldest first, before any worker receives its order.
    pub fn shutdown(&mut self)
        requires
            old(self).well_formed(),
            old(self)@.open,
        ensures
            final(self).well_formed(),
            !final(self)@.open,
            final(self)@.running == old(self)@.running,
            final(self)@.queue == old(self)@.queue + Seq::new(
                old(self)@.running.len(),
                |k: int| Signal::Terminate,
            ),
            final(self)@.jobs() == old(self)@.jobs(),
    {
        let count = self.workers.len();
        self.open = false;
        let mut sent: usize = 0;
        assert(self@.queue =~= old(self)@.queue + Seq::new(0, |k: int| Signal::Terminate));
        while sent < count
            invariant
                sent <= count,
                count == self.workers.len(),
                !self.open,
                self.workers == old(self).workers,
                self@.queue == old(self)@.queue + Seq::new(sent as nat, |k: int| Signal::Terminate),
            decreases count - sent,
        {
            let ghost waiting = self@.queue;
            self.queue.push_back(MultiThreadMessage::Terminate);
            sent += 1;
            assert(self@.queue =~= waiting.push(Signal::Terminate));
            assert(self@.queue =~= old(self)@.queue + Seq::new(
                sent as nat,
                |k: int| Signal::Terminate,
            ));
        }
        proof {
            assert(self@.running =~= old(self)@.running);
            lemma_count_all(self@.running);
            assert(self@.jobs() =~= old(self)@.jobs());
        }
    }

    /// Waits for the end of a pool that accepts no job any more: the workers receive
    /// what waits, message by message, until each has had its order to stop. The
    /// jobs they received on the way are returned, each once and oldest first, to be
    /// executed. Afterwards nothing waits and no worker runs.
    pub fn join(&mut self) -> (jobs: Vec<Job<'a>>)
        requires
            old(self).well_formed(),
            !old(self)@.open,
        ensures
            final(self).well_formed(),
            !final(self)@.open,
            final(self)@.queue.len() == 0,
            final(self)@.running == Seq::new(old(self)@.running.len(), |w: int| false),
            jobs.deep_view() == old(self)@.jobs(),
    {
        let mut jobs: Vec<Job<'a>> = Vec::new();
        assert(jobs.deep_view() + self@.jobs() =~= old(self)@.jobs());
        while self.queue.len() > 0
            invariant
                self.well_formed(),
                !self@.open,
                self@.running.len() == old(self)@.running.len(),
                jobs.deep_view() + self@.jobs() == old(self)@.jobs(),
            decreases self@.queue.len(),
        {
            let ghost before = self@;
            let ghost taken = jobs.deep_view();
            proof {
                lemma_count_none(before.running);
            }
            match self.deliver() {
                Turn::Run(_, job) => {
                    jobs.push(job);
                    proof {
                        assert(before.jobs() =~= seq![job@] + self@.jobs());
                        assert(jobs.deep_view() =~= taken.push(job@));
                        assert(jobs.deep_view() + self@.jobs() =~= taken + before.jobs());
                    }
                },
                Turn::Stop(w) => {
                    proof {
                        lemma_count_stop(before.running, w as int);
                        assert(self@.jobs() =~= before.jobs());
                    }
                },
                // Something waits, so a worker still runs to receive it.
                Turn::Idle => {},
            }
        }
        proof {
            lemma_count_none(self@.running);
            assert(self@.running =~= Seq::new(old(self)@.running.len(), |w: int| false));
            assert(self@.jobs() =~= Seq::<JobView>::empty());
        }
        jobs
    }

    /// Ends the pool in one go: [`ThreadPool::shutdown`], then [`ThreadPool::join`].
    /// Every job that waited is returned, each once and oldest first; no worker runs
    /// afterwards and nothing waits.
    pub fn close(&mut self) -> (jobs: Vec<Job<'a>>)
        requires
            old(self).well_formed(),
            old(self)@.open,
        ensures
            final(self).well_formed(),
            !final(self)@.open,
            final(self)@.queue.len() == 0,
            final(self)@.running == Seq::new(old(self)@.running.len(), |w: int| false),
            jobs.deep_view() == old(self)@.jobs(),
    {
        self.shutdown();
        self.join()
    }
}

} // verus!
