use vstd::prelude::*;
use vstd::multiset::Multiset;
use vstd::seq_lib::lemma_multiset_commutative;
use vstd::string::StringExecFns;
use crate::job::{Job, JobView, Signal};
use crate::line::{Line, LineView};
use crate::predicate::{SearchError, Test, TestView};
use crate::searcher::{lemma_lines_of_concat, lines_of, push_line, Decision, Finding, Searcher};
use crate::text::join_path;
use crate::threadpool::{ThreadPool, Turn};
use crate::tree::{Entry, Listing, Node};

verus! {

impl Searcher {
    /// What the walk that a job stands for writes.
    pub open spec fn walk_job(self, job: JobView) -> Seq<Finding> {
        self.walk(job.directory, job.path, job.test, job.prefix, job.depth)
    }

    /// The job that stands for the walk into `entry`, a directory found in the
    /// directory of `job`.
    pub open spec fn job_for(self, job: JobView, entry: Entry, has_next: bool) -> JobView {
        JobView {
            directory: entry.node->Directory_0,
            path: join_path(job.path, entry.name@),
            test: job.test,
            prefix: self.child_prefix(job.prefix, has_next),
            depth: job.depth + 1,
        }
    }

    /// What the entries of the directory of `job` from position `from` on give by
    /// themselves, nothing of what lies below them.
    pub open spec fn shallow_entries(self, job: JobView, entries: Vec<Entry>, from: int) -> Seq<
        Finding,
    >
        decreases entries.len() - from,
    {
        if 0 <= from < entries.len() {
            (if self.enters(entries[from], job.test, job.depth) {
                Seq::empty()
            } else {
                self.visit(
                    entries[from],
                    from + 1 < entries.len(),
                    job.path,
                    job.test,
                    job.prefix,
                    job.depth,
                )
            }) + self.shallow_entries(job, entries, from + 1)
        } else {
            Seq::empty()
        }
    }

    /// The jobs for the directories among the entries from position `from` on that the
    /// walk goes into, in the order of the listing.
    pub open spec fn deferred_entries(self, job: JobView, entries: Vec<Entry>, from: int) -> Seq<
        JobView,
    >
        decreases entries.len() - from,
    {
        if 0 <= from < entries.len() {
            (if self.enters(entries[from], job.test, job.depth) {
                seq![self.job_for(job, entries[from], from + 1 < entries.len())]
            } else {
                Seq::empty()
            }) + self.deferred_entries(job, entries, from + 1)
        } else {
            Seq::empty()
        }
    }

    /// What executing `job` alone writes: what its directory gives by itself.
    pub open spec fn shallow(self, job: JobView) -> Seq<Finding> {
        match job.directory {
            Listing::Entries(entries) => self.shallow_entries(job, entries, 0),
            _ => self.walk_job(job),
        }
    }

    /// The jobs that executing `job` leaves to be done: one for each directory that
    /// the walk goes into.
    pub open spec fn deferred(self, job: JobView) -> Seq<JobView> {
        match job.directory {
            Listing::Entries(entries) => self.deferred_entries(job, entries, 0),
            _ => Seq::empty(),
        }
    }

    /// The lines that the walks of `jobs` write, taken together, in no order.
    pub open spec fn owed(self, jobs: Seq<JobView>) -> Multiset<LineView>
        decreases jobs.len(),
    {
        if jobs.len() == 0 {
            Multiset::empty()
        } else {
            self.owed(jobs.drop_last()).add(lines_of(self.walk_job(jobs.last())).to_multiset())
        }
    }
}

/// The jobs that wait in a queue which holds nothing but jobs.
pub open spec fn waiting(queue: Seq<Signal>) -> Seq<JobView> {
    Seq::new(queue.len(), |k: int| queue[k]->NewJob_0)
}

/// What executing a job gave: the lines of its directory, and the jobs for the
/// directories below it.
#[derive(Debug)]
pub struct JobOutcome<'a> {
    pub lines: Vec<Line>,
    pub jobs: Vec<Job<'a>>,
}

/// The lines owed by two runs of jobs are those owed by the one and those owed by
/// the other.
pub proof fn lemma_owed_concat(searcher: Searcher, first: Seq<JobView>, second: Seq<JobView>)
    ensures
        searcher.owed(first + second) == searcher.owed(first).add(searcher.owed(second)),
    decreases second.len(),
{
    if second.len() > 0 {
        assert((first + second).drop_last() =~= first + second.drop_last());
        lemma_owed_concat(searcher, first, second.drop_last());
    }
}

/// The lines owed by one job alone are those its walk writes.
pub proof fn lemma_owed_single(searcher: Searcher, job: JobView)
    ensures
        searcher.owed(seq![job]) == lines_of(searcher.walk_job(job)).to_multiset(),
{
    reveal_with_fuel(Searcher::owed, 2);
}

/// [`lemma_split`], for the entries of a listing from position `from` on.
proof fn lemma_split_entries(searcher: Searcher, job: JobView, entries: Vec<Entry>, from: int)
    ensures
        lines_of(
            searcher.walk_entries(entries, from, job.path, job.test, job.prefix, job.depth),
        ).to_multiset() == lines_of(searcher.shallow_entries(job, entries, from)).to_multiset().add(
            searcher.owed(searcher.deferred_entries(job, entries, from)),
        ),
    decreases entries.len() - from,
{
    if 0 <= from < entries.len() {
        let entry = entries[from];
        let has_next = from + 1 < entries.len();
        let here = searcher.visit(entry, has_next, job.path, job.test, job.prefix, job.depth);
        let rest = searcher.walk_entries(
            entries,
            from + 1,
            job.path,
            job.test,
            job.prefix,
            job.depth,
        );
        let rest_shallow = searcher.shallow_entries(job, entries, from + 1);
        let rest_deferred = searcher.deferred_entries(job, entries, from + 1);
        lemma_split_entries(searcher, job, entries, from + 1);
        lemma_lines_of_concat(here, rest);
        lemma_multiset_commutative(lines_of(here), lines_of(rest));
        if searcher.enters(entry, job.test, job.depth) {
            let below = searcher.job_for(job, entry, has_next);
            lemma_owed_concat(searcher, seq![below], rest_deferred);
            lemma_owed_single(searcher, below);
        } else {
            lemma_lines_of_concat(here, rest_shallow);
            lemma_multiset_commutative(lines_of(here), lines_of(rest_shallow));
        }
    }
}

/// Nothing is lost by deferring: what the walk of a job writes is what the job gives
/// by itself together with what the walks of the jobs it defers write.
pub proof fn lemma_split(searcher: Searcher, job: JobView)
    ensures
        lines_of(searcher.walk_job(job)).to_multiset() == lines_of(
            searcher.shallow(job),
        ).to_multiset().add(searcher.owed(searcher.deferred(job))),
{
    match job.directory {
        Listing::Entries(entries) => {
            lemma_split_entries(searcher, job, entries, 0);
        },
        _ => {},
    }
}

impl Searcher {
    /// Executes one job: looks at the entries of its directory and goes into none. For
    /// each directory that the walk goes into, a job is returned in place of the walk.
    ///
    /// The job is refused exactly when the regular expression of its test does not
    /// compile.
    pub fn run_job<'a>(&self, job: &Job<'a>) -> (outcome: Result<JobOutcome<'a>, SearchError>)
        ensures
            outcome is Ok <==> job@.test.well_formed(),
            outcome matches Ok(done) ==> {
                &&& done.lines.deep_view() == lines_of(self.shallow(job@))
                &&& done.jobs.deep_view() == self.deferred(job@)
            },
            outcome is Err ==> outcome == Err::<JobOutcome<'a>, SearchError>(
                SearchError::InvalidPattern,
            ),
    {
        match job.test.validate() {
            Err(error) => Err(error),
            Ok(_) => {
                let mut lines: Vec<Line> = Vec::new();
                let mut jobs: Vec<Job<'a>> = Vec::new();
                let path = job.directory_path.as_str();
                let prefix = job.preceding_str.as_str();
                let depth = job.current_depth;
                match job.directory {
                    Listing::Entries(entries) => {
                        let mut at: usize = 0;
                        while at < entries.len()
                            invariant
                                job@.test.well_formed(),
                                *job.directory == Listing::Entries(*entries),
                                path@ == job@.path,
                                prefix@ == job@.prefix,
                                depth == job@.depth,
                                at <= entries.len(),
                                lines.deep_view() + lines_of(
                                    self.shallow_entries(job@, *entries, at as int),
                                ) == lines_of(self.shallow_entries(job@, *entries, 0)),
                                jobs.deep_view() + self.deferred_entries(job@, *entries, at as int)
                                    == self.deferred_entries(job@, *entries, 0),
                            decreases entries.len() - at,
                        {
                            let has_next = at + 1 < entries.len();
                            let entry = &entries[at];
                            let ghost here = self.visit(
                                *entry,
                                has_next,
                                path@,
                                job@.test,
                                prefix@,
                                depth as nat,
                            );
                            let ghost rest = self.shallow_entries(job@, *entries, at + 1);
                            match self.judge(entry, has_next, path, &job.test, prefix, depth) {
                                Decision::Write(line) => {
                                    push_line(&mut lines, line);
                                    proof {
                                        lemma_lines_of_concat(here, rest);
                                    }
                                },
                                Decision::Enter(full) => {
                                    if let Node::Directory(inside) = &entry.node {
                                        let below = Job {
                                            directory: inside,
                                            directory_path: full,
                                            test: job.test.clone(),
                                            preceding_str: self.prefix_for_child(prefix, has_next),
                                            current_depth: depth + 1,
                                        };
                                        jobs.push(below);
                                    }
                                },
                                Decision::Pass => {},
                            }
                            at += 1;
                        }
                    },
                    _ => {
                        self.walk_into(job.directory, path, &job.test, prefix, depth, &mut lines);
                    },
                }
                Ok(JobOutcome { lines, jobs })
            },
        }
    }
}

/// The number of listings in and below `listing`, itself included.
pub open spec fn weight(listing: Listing) -> nat
    decreases listing, 0nat,
{
    match listing {
        Listing::Entries(entries) => 1 + weight_entries(entries, 0),
        _ => 1,
    }
}

/// The number of listings below the entries from position `from` on.
pub open spec fn weight_entries(entries: Vec<Entry>, from: int) -> nat
    decreases entries, entries.len() - from,
{
    if 0 <= from < entries.len() {
        (match entries[from].node {
            Node::Directory(inside) => weight(inside),
            _ => 0,
        }) + weight_entries(entries, from + 1)
    } else {
        0
    }
}

/// The number of listings that the walks of `jobs` have before them.
pub open spec fn load(jobs: Seq<JobView>) -> nat
    decreases jobs.len(),
{
    if jobs.len() == 0 {
        0
    } else {
        load(jobs.drop_last()) + weight(jobs.last().directory)
    }
}

/// What two runs of jobs have before them is the sum of what each has.
proof fn lemma_load_concat(first: Seq<JobView>, second: Seq<JobView>)
    ensures
        load(first + second) == load(first) + load(second),
    decreases second.len(),
{
    if second.len() > 0 {
        assert((first + second).drop_last() =~= first + second.drop_last());
        lemma_load_concat(first, second.drop_last());
    }
}

/// One job alone has before it what lies in and below its directory.
proof fn lemma_load_single(job: JobView)
    ensures
        load(seq![job]) == weight(job.directory),
{
    reveal_with_fuel(load, 2);
}

/// [`lemma_deferred`], for the entries of a listing from position `from` on.
proof fn lemma_deferred_entries(searcher: Searcher, job: JobView, entries: Vec<Entry>, from: int)
    ensures
        load(searcher.deferred_entries(job, entries, from)) <= weight_entries(entries, from),
        forall|k: int|
            0 <= k < searcher.deferred_entries(job, entries, from).len() ==> (
            #[trigger] searcher.deferred_entries(job, entries, from)[k]).test == job.test,
    decreases entries.len() - from,
{
    if 0 <= from < entries.len() {
        let rest = searcher.deferred_entries(job, entries, from + 1);
        lemma_deferred_entries(searcher, job, entries, from + 1);
        if searcher.enters(entries[from], job.test, job.depth) {
            let below = searcher.job_for(job, entries[from], from + 1 < entries.len());
            lemma_load_concat(seq![below], rest);
            lemma_load_single(below);
        }
    }
}

/// The jobs that a job defers have less before them than the job itself, and they
/// carry its test.
pub proof fn lemma_deferred(searcher: Searcher, job: JobView)
    ensures
        load(searcher.deferred(job)) < weight(job.directory),
        forall|k: int|
            0 <= k < searcher.deferred(job).len() ==> (#[trigger] searcher.deferred(job)[k]).test
                == job.test,
{
    match job.directory {
        Listing::Entries(entries) => {
            lemma_deferred_entries(searcher, job, entries, 0);
        },
        _ => {},
    }
}

/// Whether every message of `queue` is a job that carries `test`.
pub open spec fn all_jobs_for(queue: Seq<Signal>, test: TestView) -> bool {
    forall|k: int|
        0 <= k < queue.len() ==> (#[trigger] queue[k]) is NewJob && queue[k]->NewJob_0.test == test
}

impl Searcher {
    /// Searches the directory whose listing is `directory` and everything below it by
    /// way of a pool: the directory is submitted as a job, and each job that a worker
    /// receives is executed and the jobs it defers are submitted in turn, until
    /// nothing waits. The pool is left as it was found.
    ///
    /// The lines returned are those of [`Searcher::search_directory_path`] from depth
    /// 0, each as often as there; their order is that in which the jobs were
    /// executed, not that of the listings.
    ///
    /// The search is refused, before anything is submitted, exactly when the regular
    /// expression of `test` does not compile.
    pub fn search_with_pool<'a>(
        &self,
        pool: &mut ThreadPool<'a>,
        directory: &'a Listing,
        directory_path: &str,
        test: &Test,
    ) -> (outcome: Result<Vec<Line>, SearchError>)
        requires
            old(pool).well_formed(),
            old(pool)@.open,
            old(pool)@.queue.len() == 0,
        ensures
            final(pool).well_formed(),
            final(pool)@ == old(pool)@,
            outcome is Ok <==> test@.well_formed(),
            outcome matches Ok(lines) ==> lines.deep_view().to_multiset() == lines_of(
                self.walk(*directory, directory_path@, test@, Seq::empty(), 0),
            ).to_multiset(),
            outcome is Err ==> outcome == Err::<Vec<Line>, SearchError>(SearchError::InvalidPattern),
    {
        match test.validate() {
            Err(error) => {
                return Err(error);
            },
            Ok(_) => {},
        }
        let root = Job {
            directory,
            directory_path: String::from_str(directory_path),
            test: test.clone(),
            preceding_str: String::new(),
            current_depth: 0,
        };
        let ghost first = root@;
        let ghost target = lines_of(self.walk_job(first)).to_multiset();
        let mut lines: Vec<Line> = Vec::new();
        pool.execute(root);
        proof {
            assert(waiting(pool@.queue) =~= seq![first]);
            lemma_owed_single(*self, first);
            assert(lines.deep_view() =~= Seq::<LineView>::empty());
            lemma_nothing_written();
        }
        while pool.queued() > 0
            invariant
                pool.well_formed(),
                pool@.open,
                pool@.running == old(pool)@.running,
                test@.well_formed(),
                all_jobs_for(pool@.queue, test@),
                lines.deep_view().to_multiset().add(self.owed(waiting(pool@.queue))) == target,
            decreases load(waiting(pool@.queue)),
        {
            let ghost queue = pool@.queue;
            let ghost written = lines.deep_view();
            assert(pool@.running[0]);
            match pool.deliver() {
                Turn::Run(_, job) => {
                    let ghost taken = job@;
                    let ghost left = queue.drop_first();
                    match self.run_job(&job) {
                        Ok(mut done) => {
                            let ghost given = done.lines.deep_view();
                            let ghost below = done.jobs.deep_view();
                            lines.append(&mut done.lines);
                            pool.execute_all(done.jobs);
                            proof {
                                let added = below.map_values(|job: JobView| Signal::NewJob(job));
                                assert(lines.deep_view() =~= written + given);
                                lemma_multiset_commutative(written, given);
                                assert(waiting(queue) =~= seq![taken] + waiting(left));
                                assert(waiting(left + added) =~= waiting(left) + below);
                                lemma_owed_concat(*self, seq![taken], waiting(left));
                                lemma_owed_single(*self, taken);
                                lemma_owed_concat(*self, waiting(left), below);
                                lemma_split(*self, taken);
                                lemma_load_concat(seq![taken], waiting(left));
                                lemma_load_single(taken);
                                lemma_load_concat(waiting(left), below);
                                lemma_deferred(*self, taken);
                            }
                        },
                        // A job in the queue carries the test that was validated above.
                        Err(_) => {},
                    }
                },
                // While the pool is open, nothing but jobs waits and every worker runs.
                Turn::Stop(_) => {},
                Turn::Idle => {},
            }
        }
        proof {
            assert(pool@.queue =~= old(pool)@.queue);
        }
        Ok(lines)
    }
}

/// No lines, taken together, are no lines.
proof fn lemma_nothing_written()
    ensures
        Seq::<LineView>::empty().to_multiset() == Multiset::<LineView>::empty(),
{
    let none = Seq::<LineView>::empty();
    none.to_multiset_ensures();
    assert(none.to_multiset() =~= Multiset::<LineView>::empty());
}

} // verus!
