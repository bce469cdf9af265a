use vstd::prelude::*;
use crate::predicate::{Test, TestView};
use crate::tree::Listing;

verus! {

/// A deferred walk of one directory: all that the walk needs to be taken up by
/// whoever receives the job.
#[derive(Debug)]
pub struct Job<'a> {
    /// What listing the directory gave.
    pub directory: &'a Listing,
    pub directory_path: String,
    pub test: Test,
    /// What stands before the tree lines of this directory.
    pub preceding_str: String,
    /// The number of steps down from the starting path.
    pub current_depth: u32,
}

/// What a [`Job`] stands for.
pub struct JobView {
    pub directory: Listing,
    pub path: Seq<char>,
    pub test: TestView,
    pub prefix: Seq<char>,
    pub depth: nat,
}

impl<'a> View for Job<'a> {
    type V = JobView;

    open spec fn view(&self) -> JobView {
        JobView {
            directory: *self.directory,
            path: self.directory_path@,
            test: self.test@,
            prefix: self.preceding_str@,
            depth: self.current_depth as nat,
        }
    }
}

impl<'a> DeepView for Job<'a> {
    type V = JobView;

    open spec fn deep_view(&self) -> JobView {
        self@
    }
}

/// What travels on the queue between the dispatcher and its workers.
#[derive(Debug)]
pub enum MultiThreadMessage<'a> {
    /// A job for whichever worker receives it.
    NewJob(Job<'a>),
    /// The order to stop, for the one worker that receives it.
    Terminate,
}

/// What a [`MultiThreadMessage`] stands for.
pub enum Signal {
    NewJob(JobView),
    Terminate,
}

impl<'a> View for MultiThreadMessage<'a> {
    type V = Signal;

    open spec fn view(&self) -> Signal {
        match *self {
            MultiThreadMessage::NewJob(job) => Signal::NewJob(job@),
            MultiThreadMessage::Terminate => Signal::Terminate,
        }
    }
}

impl<'a> DeepView for MultiThreadMessage<'a> {
    type V = Signal;

    open spec fn deep_view(&self) -> Signal {
        self@
    }
}

} // verus!
