//! A `find`-style search of a directory tree, with its rules proved.
//!
//! The library never touches the file system. A program lists the directories and
//! hands the listings over as a [`tree::Listing`]; the library decides what of it is
//! reported. [`searcher::Searcher`] walks a tree for one test, within depth bounds
//! and under a policy for symbolic links. [`expression::eval`] evaluates a boolean
//! expression whose tests are such walks. [`threadpool::ThreadPool`] and
//! [`dispatch`] take the same walk apart into jobs, one per directory, and show
//! that nothing is lost on the way. What holds of every walk is stated and proved
//! in [`guarantees`], what holds of the connectives of expressions in
//! [`connectives`].

pub mod config;
pub mod connectives;
pub mod dispatch;
pub mod expression;
pub mod guarantees;
pub mod job;
pub mod line;
pub mod logger;
pub mod pattern;
pub mod predicate;
pub mod searcher;
pub mod text;
pub mod threadpool;
pub mod tree;
pub mod worker;
