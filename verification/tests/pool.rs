use rfind::config::{Params, SymLinkSetting};
use rfind::job::{Job, MultiThreadMessage};
use rfind::line::{FileDescriptor, Line, Message};
use rfind::predicate::{SearchError, Test};
use rfind::searcher::Searcher;
use rfind::threadpool::{ThreadPool, Turn};
use rfind::tree::{Entry, Listing, Node};
use rfind::worker::Worker;

fn file(name: &str) -> Entry {
    Entry { name: name.to_string(), node: Node::File }
}

fn dir(name: &str, entries: Vec<Entry>) -> Entry {
    Entry { name: name.to_string(), node: Node::Directory(Listing::Entries(entries)) }
}

fn searcher(max_depth: Option<u32>) -> Searcher {
    let params =
        Params { symlink_setting: SymLinkSetting::Never, debug_opts: None, optimisation_level: None };
    Searcher::new(params, max_depth, None, "/tmp".to_string())
}

fn out(text: &str) -> Line {
    Line::new_with_fd(Message::Standard(text.to_string()), FileDescriptor::StdOut)
}

fn err(text: &str) -> Line {
    Line::new_with_fd(Message::Standard(text.to_string()), FileDescriptor::StdErr)
}

fn job<'a>(directory: &'a Listing, path: &str, name: &str, depth: u32) -> Job<'a> {
    Job {
        directory,
        directory_path: path.to_string(),
        test: Test::Name(name.to_string()),
        preceding_str: String::new(),
        current_depth: depth,
    }
}

fn texts(lines: &[Line]) -> Vec<String> {
    let mut texts: Vec<String> =
        lines.iter().map(|line| line.message.get_contained_message().clone()).collect();
    texts.sort();
    texts
}

fn wide_tree() -> Listing {
    Listing::Entries(vec![
        dir("a", vec![file("t"), dir("aa", vec![file("t")])]),
        file("t"),
        Entry { name: "locked".to_string(), node: Node::Directory(Listing::PermissionDenied) },
        dir("b", vec![dir("bb", vec![dir("bbb", vec![file("t")])])]),
    ])
}

#[test]
fn a_worker_runs_jobs_until_told_to_stop() {
    let empty = Listing::Entries(vec![]);
    let mut worker = Worker::new(3);
    assert_eq!(worker.id, 3);
    assert!(worker.running);
    let taken = worker.receive(MultiThreadMessage::NewJob(job(&empty, "p", "n", 1)));
    assert_eq!(taken.unwrap().directory_path, "p");
    assert!(worker.running);
    assert!(worker.receive(MultiThreadMessage::Terminate).is_none());
    assert!(!worker.running);
    assert!(worker.receive(MultiThreadMessage::NewJob(job(&empty, "q", "n", 1))).is_none());
    assert!(!worker.running);
    assert_eq!(worker.id, 3);
}

#[test]
fn a_pool_hands_out_jobs_oldest_first() {
    let empty = Listing::Entries(vec![]);
    let mut pool = ThreadPool::new(2);
    assert_eq!(pool.queued(), 0);
    assert!(matches!(pool.deliver(), Turn::Idle));
    pool.execute(job(&empty, "first", "n", 0));
    pool.execute_all(vec![job(&empty, "second", "n", 0), job(&empty, "third", "n", 0)]);
    assert_eq!(pool.queued(), 3);
    for expected in ["first", "second", "third"] {
        match pool.deliver() {
            Turn::Run(worker, job) => {
                assert_eq!(worker, 0);
                assert_eq!(job.directory_path, expected);
            },
            other => panic!("{:?}", other),
        }
    }
    assert_eq!(pool.queued(), 0);
    assert!(matches!(pool.deliver(), Turn::Idle));
}

#[test]
fn shutting_down_queues_one_order_to_stop_for_each_worker() {
    let mut pool: ThreadPool = ThreadPool::new(3);
    pool.shutdown();
    assert_eq!(pool.queued(), 3);
    let shown = format!("{:?}", pool);
    assert_eq!(shown.matches("Terminate").count(), 3);
    assert_eq!(shown.matches("running: true").count(), 3);
    for worker in 0..3 {
        match pool.deliver() {
            Turn::Stop(stopped) => assert_eq!(stopped, worker),
            other => panic!("{:?}", other),
        }
    }
    assert_eq!(pool.queued(), 0);
    assert!(matches!(pool.deliver(), Turn::Idle));
    let shown = format!("{:?}", pool);
    assert_eq!(shown.matches("running: false").count(), 3);
    assert_eq!(shown.matches("running: true").count(), 0);
}

#[test]
fn jobs_that_wait_at_shutdown_are_handed_out_before_any_worker_stops() {
    let empty = Listing::Entries(vec![]);
    let mut pool = ThreadPool::new(2);
    pool.execute(job(&empty, "first", "n", 0));
    pool.execute(job(&empty, "second", "n", 0));
    pool.shutdown();
    assert_eq!(pool.queued(), 4);
    match pool.deliver() {
        Turn::Run(_, job) => assert_eq!(job.directory_path, "first"),
        other => panic!("{:?}", other),
    }
    match pool.deliver() {
        Turn::Run(_, job) => assert_eq!(job.directory_path, "second"),
        other => panic!("{:?}", other),
    }
    assert!(matches!(pool.deliver(), Turn::Stop(0)));
    assert!(matches!(pool.deliver(), Turn::Stop(1)));
    assert!(matches!(pool.deliver(), Turn::Idle));
    assert_eq!(pool.queued(), 0);
}

#[test]
fn joining_hands_out_what_waits_and_leaves_no_worker_running() {
    let empty = Listing::Entries(vec![]);
    let mut pool = ThreadPool::new(2);
    pool.execute(job(&empty, "first", "n", 0));
    pool.execute(job(&empty, "second", "n", 0));
    pool.execute(job(&empty, "third", "n", 0));
    match pool.deliver() {
        Turn::Run(_, job) => assert_eq!(job.directory_path, "first"),
        other => panic!("{:?}", other),
    }
    pool.shutdown();
    let left: Vec<String> = pool.join().into_iter().map(|job| job.directory_path).collect();
    assert_eq!(left, vec!["second".to_string(), "third".to_string()]);
    assert_eq!(pool.queued(), 0);
    let shown = format!("{:?}", pool);
    assert_eq!(shown.matches("running: false").count(), 2);
    assert_eq!(shown.matches("running: true").count(), 0);
    assert!(pool.join().is_empty());
    let mut idle: ThreadPool = ThreadPool::new(4);
    idle.shutdown();
    assert!(idle.join().is_empty());
    assert_eq!(idle.queued(), 0);
}

#[test]
fn closing_a_pool_shuts_it_down_and_waits_for_its_end() {
    let empty = Listing::Entries(vec![]);
    let mut pool = ThreadPool::new(3);
    pool.execute_all(vec![job(&empty, "first", "n", 0), job(&empty, "second", "n", 0)]);
    let left: Vec<String> = pool.close().into_iter().map(|job| job.directory_path).collect();
    assert_eq!(left, vec!["first".to_string(), "second".to_string()]);
    assert_eq!(pool.queued(), 0);
    let shown = format!("{:?}", pool);
    assert_eq!(shown.matches("running: false").count(), 3);
    assert_eq!(shown.matches("running: true").count(), 0);
    assert!(matches!(pool.deliver(), Turn::Idle));
}

#[test]
fn a_job_gives_the_lines_of_its_directory_and_jobs_for_those_below() {
    let tree = wide_tree();
    let done = searcher(None).run_job(&job(&tree, "/r", "t", 0)).unwrap();
    assert_eq!(
        done.lines,
        vec![out("/r/t")]
    );
    let below: Vec<(String, u32)> =
        done.jobs.iter().map(|job| (job.directory_path.clone(), job.current_depth)).collect();
    assert_eq!(
        below,
        vec![("/r/a".to_string(), 1), ("/r/locked".to_string(), 1), ("/r/b".to_string(), 1)]
    );
    let locked = searcher(None).run_job(&done.jobs[1]).unwrap();
    assert_eq!(locked.lines, vec![err("rfind: Permission denied for directory name /r/locked")]);
    assert!(locked.jobs.is_empty());
    let bounded = searcher(Some(0)).run_job(&job(&tree, "/r", "t", 0)).unwrap();
    assert_eq!(bounded.lines, vec![out("/r/t")]);
    assert!(bounded.jobs.is_empty());
}

#[test]
fn a_pooled_search_writes_what_a_walk_writes() {
    let tree = wide_tree();
    for bound in [None, Some(0), Some(1), Some(2), Some(3)] {
        let searcher = searcher(bound);
        let test = Test::Name("t".to_string());
        let walked = searcher.search_directory_path(&tree, "/r", &test, None, None).unwrap();
        let mut pool = ThreadPool::new(4);
        let pooled = searcher.search_with_pool(&mut pool, &tree, "/r", &test).unwrap();
        assert_eq!(texts(&pooled), texts(&walked));
        assert_eq!(pooled.len(), walked.len());
        assert_eq!(pool.queued(), 0);
        pool.shutdown();
        assert!(pool.join().is_empty());
    }
}

#[test]
fn a_pooled_search_goes_level_by_level() {
    let tree = wide_tree();
    let mut pool = ThreadPool::new(1);
    let pooled =
        searcher(None).search_with_pool(&mut pool, &tree, "/r", &Test::Name("t".to_string())).unwrap();
    assert_eq!(
        pooled,
        vec![
            out("/r/t"),
            out("/r/a/t"),
            err("rfind: Permission denied for directory name /r/locked"),
            out("/r/a/aa/t"),
            out("/r/b/bb/bbb/t"),
        ]
    );
}

#[test]
fn a_pooled_search_refuses_an_invalid_pattern() {
    let tree = wide_tree();
    let mut pool = ThreadPool::new(1);
    let outcome =
        searcher(None).search_with_pool(&mut pool, &tree, "/r", &Test::Regex("(".to_string()));
    assert_eq!(outcome, Err(SearchError::InvalidPattern));
    assert_eq!(pool.queued(), 0);
    let outcome = searcher(None).run_job(&Job {
        directory: &tree,
        directory_path: "/r".to_string(),
        test: Test::Regex("[".to_string()),
        preceding_str: String::new(),
        current_depth: 0,
    });
    assert!(matches!(outcome, Err(SearchError::InvalidPattern)));
}
