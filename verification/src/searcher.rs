use vstd::prelude::*;
use vstd::string::*;
use crate::config::Params;
use crate::line::{FileDescriptor, Line, LineView, Message, MessageView};
use crate::predicate::{SearchError, Test, TestView};
use crate::text::{glue, join, join_path};
use crate::tree::{Entry, LinkTarget, Listing, Node};

verus! {

/// What made the walk write a line.
#[derive(PartialEq, Eq, Structural)]
pub enum Origin {
    /// An entry passed the test.
    Match,
    /// A link was followed; the line names its target.
    LinkTarget,
    /// A link was followed and points to nothing.
    BrokenLink,
    /// A directory could not be listed.
    Unreadable,
}

/// A line of the walk, with where it comes from: the depth of the directory whose
/// listing (or failure to list) produced it, and what produced it.
pub struct Finding {
    pub line: LineView,
    pub depth: nat,
    pub origin: Origin,
}

/// What the walk does with one entry of a directory.
pub enum Verdict {
    /// It writes one line.
    Write(Finding),
    /// It goes down into the entry, a directory.
    Enter,
    /// It writes nothing and passes on.
    Pass,
}

/// The lines of `findings`, in order.
pub open spec fn lines_of(findings: Seq<Finding>) -> Seq<LineView> {
    findings.map_values(|f: Finding| f.line)
}

/// The line written for a directory that may not be read.
pub open spec fn permission_denied_text(path: Seq<char>) -> Seq<char> {
    "rfind: Permission denied for directory name "@ + path
}

/// The line written for a directory that could not be read for another reason.
pub open spec fn read_failure_text(path: Seq<char>) -> Seq<char> {
    "rfind: An error occurred when attempting to read the "@ + path + " directory"@
}

/// The line written for a link that points to nothing.
pub open spec fn broken_link_text(shown: Seq<char>, path: Seq<char>) -> Seq<char> {
    shown + "Broken symlink: "@ + path
}

/// The settings of one search. Nothing in it changes while the search runs.
#[derive(Debug)]
pub struct Searcher {
    /// The depth above which matches are not reported.
    pub min_depth: Option<u32>,
    /// The depth at which the walk stops going down.
    pub max_depth: Option<u32>,
    pub params: Params,
    pub starting_path: String,
}

impl Searcher {
    /// Whether a match in a directory at `depth` is reported.
    pub open spec fn reports_at(self, depth: nat) -> bool {
        match self.min_depth {
            Some(least) => depth >= least,
            None => true,
        }
    }

    /// Whether the walk goes down into a directory found in a directory at `depth`.
    /// Depth is counted in 32 bits, so a walk without a bound stops at the last
    /// depth that can be counted.
    pub open spec fn descends_at(self, depth: nat) -> bool {
        depth < u32::MAX && match self.max_depth {
            Some(most) => depth < most,
            None => true,
        }
    }

    /// What stands before a line written for an entry, given what stands before the
    /// lines of its directory and whether another entry follows it.
    pub open spec fn entry_prefix(self, prefix: Seq<char>, has_next: bool) -> Seq<char> {
        if self.params.tree_mode() {
            prefix + (if has_next {
                "├── "@
            } else {
                "└── "@
            })
        } else {
            prefix
        }
    }

    /// What stands before the lines of a directory found as an entry.
    pub open spec fn child_prefix(self, prefix: Seq<char>, has_next: bool) -> Seq<char> {
        self.entry_prefix(prefix, has_next) + (if has_next {
            "| "@
        } else {
            "  "@
        })
    }

    /// Whether `entry` passes `test`, as these settings have it tested.
    pub open spec fn passes(self, entry: Entry, test: TestView) -> bool {
        test.matches(entry.name@, entry.node.kind(), self.params.symlink_setting)
    }

    /// What the walk does with one entry of the directory at `path`, given whether
    /// the entry passed the test.
    ///
    /// A link, where links are followed, is not tested: its target is written, or
    /// that it is broken. For any other entry: one that passed, in a directory deep
    /// enough to report, is written and not gone into. One that is not written and
    /// is a directory is gone into, if the depth bound allows.
    pub open spec fn verdict(
        self,
        entry: Entry,
        has_next: bool,
        path: Seq<char>,
        passed: bool,
        prefix: Seq<char>,
        depth: nat,
    ) -> Verdict {
        let shown = self.entry_prefix(prefix, has_next);
        let full = join_path(path, entry.name@);
        if self.params.symlink_setting.follows() && entry.node is Symlink {
            match entry.node->Symlink_0 {
                LinkTarget::Resolved(target) => Verdict::Write(
                    Finding { line: LineView::out(shown + target@), depth, origin: Origin::LinkTarget },
                ),
                LinkTarget::Broken => Verdict::Write(
                    Finding {
                        line: LineView::err(broken_link_text(shown, full)),
                        depth,
                        origin: Origin::BrokenLink,
                    },
                ),
            }
        } else if passed && self.reports_at(depth) {
            Verdict::Write(Finding { line: LineView::out(full), depth, origin: Origin::Match })
        } else if entry.node is Directory && self.descends_at(depth) {
            Verdict::Enter
        } else {
            Verdict::Pass
        }
    }

    /// Whether the walk goes down into `entry`, found in a directory at `depth`: it is
    /// a directory, it is not written as a match, and the depth bound allows.
    pub open spec fn enters(self, entry: Entry, test: TestView, depth: nat) -> bool {
        &&& entry.node is Directory
        &&& !(self.passes(entry, test) && self.reports_at(depth))
        &&& self.descends_at(depth)
    }

    /// What the walk writes for one directory and all below it. `listing` is what
    /// listing the directory at `path` gave, `depth` the number of steps down from
    /// the starting path.
    pub open spec fn walk(
        self,
        listing: Listing,
        path: Seq<char>,
        test: TestView,
        prefix: Seq<char>,
        depth: nat,
    ) -> Seq<Finding>
        decreases listing, 0nat,
    {
        match listing {
            Listing::PermissionDenied => seq![
                Finding {
                    line: LineView::err(permission_denied_text(path)),
                    depth,
                    origin: Origin::Unreadable,
                },
            ],
            Listing::Failed => seq![
                Finding {
                    line: LineView::err(read_failure_text(path)),
                    depth,
                    origin: Origin::Unreadable,
                },
            ],
            Listing::Entries(entries) => self.walk_entries(entries, 0, path, test, prefix, depth),
        }
    }

    /// What the walk writes for the entries from position `from` on, in the order of
    /// the listing.
    pub open spec fn walk_entries(
        self,
        entries: Vec<Entry>,
        from: int,
        path: Seq<char>,
        test: TestView,
        prefix: Seq<char>,
        depth: nat,
    ) -> Seq<Finding>
        decreases entries, entries.len() - from,
    {
        if 0 <= from < entries.len() {
            self.visit(entries[from], from + 1 < entries.len(), path, test, prefix, depth)
                + self.walk_entries(entries, from + 1, path, test, prefix, depth)
        } else {
            Seq::empty()
        }
    }

    /// What the walk writes for one entry of the directory at `path`: the line of its
    /// verdict, or, where the verdict is to go into it, what the walk of the
    /// directory writes.
    pub open spec fn visit(
        self,
        entry: Entry,
        has_next: bool,
        path: Seq<char>,
        test: TestView,
        prefix: Seq<char>,
        depth: nat,
    ) -> Seq<Finding>
        decreases entry, 0nat,
    {
        match self.verdict(entry, has_next, path, self.passes(entry, test), prefix, depth) {
            Verdict::Write(finding) => seq![finding],
            Verdict::Enter => if entry.node is Directory {
                self.walk(
                    entry.node->Directory_0,
                    join_path(path, entry.name@),
                    test,
                    self.child_prefix(prefix, has_next),
                    depth + 1,
                )
            } else {
                Seq::empty()
            },
            Verdict::Pass => Seq::empty(),
        }
    }
}

/// The lines of a longer run are those of its parts, one after the other.
pub proof fn lemma_lines_of_concat(first: Seq<Finding>, second: Seq<Finding>)
    ensures
        lines_of(first + second) == lines_of(first) + lines_of(second),
{
    assert(lines_of(first + second) =~= lines_of(first) + lines_of(second));
}

/// What is done with one entry of a directory.
#[derive(Debug)]
pub enum Decision {
    /// This line is written.
    Write(Line),
    /// The entry is a directory, with this path, and the walk goes down into it.
    Enter(String),
    /// Nothing is written and the walk passes on.
    Pass,
}

/// A line of plain text for `stream`.
fn plain_line(text: String, stream: FileDescriptor) -> (line: Line)
    ensures
        line@ == (LineView {
            message: MessageView::Standard(text@),
            file_descriptor: Some(stream),
        }),
{
    Line::new_with_fd(Message::Standard(text), stream)
}

/// Adds one line at the end of `lines`.
pub(crate) fn push_line(lines: &mut Vec<Line>, line: Line)
    ensures
        final(lines).deep_view() == old(lines).deep_view().push(line@),
{
    lines.push(line);
}

impl Searcher {
    /// The settings of a search from `starting_path`.
    pub fn new(
        params: Params,
        max_depth: Option<u32>,
        min_depth: Option<u32>,
        starting_path: String,
    ) -> (searcher: Searcher)
        ensures
            searcher.params == params,
            searcher.max_depth == max_depth,
            searcher.min_depth == min_depth,
            searcher.starting_path == starting_path,
    {
        Searcher { min_depth, max_depth, params, starting_path }
    }

    /// Computes [`Searcher::reports_at`].
    pub fn may_report(&self, depth: u32) -> (reports: bool)
        ensures
            reports == self.reports_at(depth as nat),
    {
        match self.min_depth {
            Some(least) => depth >= least,
            None => true,
        }
    }

    /// Computes [`Searcher::descends_at`].
    pub fn may_descend(&self, depth: u32) -> (descends: bool)
        ensures
            descends == self.descends_at(depth as nat),
    {
        depth < u32::MAX && match self.max_depth {
            Some(most) => depth < most,
            None => true,
        }
    }

    /// Computes [`Searcher::entry_prefix`].
    fn prefix_for_entry(&self, prefix: &str, has_next: bool) -> (shown: String)
        ensures
            shown@ == self.entry_prefix(prefix@, has_next),
    {
        if self.params.is_tree_mode() {
            if has_next {
                glue(prefix, "├── ")
            } else {
                glue(prefix, "└── ")
            }
        } else {
            String::from_str(prefix)
        }
    }

    /// Computes [`Searcher::child_prefix`].
    pub(crate) fn prefix_for_child(&self, prefix: &str, has_next: bool) -> (deeper: String)
        ensures
            deeper@ == self.child_prefix(prefix@, has_next),
    {
        let mut deeper = self.prefix_for_entry(prefix, has_next);
        if has_next {
            deeper.append("| ");
        } else {
            deeper.append("  ");
        }
        deeper
    }

    /// Decides what is done with one entry of the directory at `path`, without going
    /// into it, given whether the entry passed the test: see [`Searcher::verdict`].
    pub fn decide(
        &self,
        entry: &Entry,
        has_next: bool,
        path: &str,
        passed: bool,
        prefix: &str,
        depth: u32,
    ) -> (decision: Decision)
        ensures
            match decision {
                Decision::Write(line) => self.verdict(
                    *entry,
                    has_next,
                    path@,
                    passed,
                    prefix@,
                    depth as nat,
                ) matches Verdict::Write(finding) && finding.line == line@,
                Decision::Enter(full) => self.verdict(
                    *entry,
                    has_next,
                    path@,
                    passed,
                    prefix@,
                    depth as nat,
                ) is Enter && full@ == join_path(path@, entry.name@),
                Decision::Pass => self.verdict(*entry, has_next, path@, passed, prefix@, depth as nat)
                    is Pass,
            },
    {
        let full = join(path, entry.name.as_str());
        if self.params.symlink_setting.is_follow() {
            if let Node::Symlink(link) = &entry.node {
                let shown = self.prefix_for_entry(prefix, has_next);
                match link {
                    LinkTarget::Resolved(target) => {
                        let text = glue(shown.as_str(), target.as_str());
                        return Decision::Write(plain_line(text, FileDescriptor::StdOut));
                    },
                    LinkTarget::Broken => {
                        let mut text = glue(shown.as_str(), "Broken symlink: ");
                        text.append(full.as_str());
                        return Decision::Write(plain_line(text, FileDescriptor::StdErr));
                    },
                }
            }
        }
        if passed && self.may_report(depth) {
            return Decision::Write(plain_line(full, FileDescriptor::StdOut));
        }
        if let Node::Directory(_) = &entry.node {
            if self.may_descend(depth) {
                return Decision::Enter(full);
            }
        }
        Decision::Pass
    }

    /// Tests one entry, unless it is a link that is followed, and decides what is done
    /// with it.
    pub(crate) fn judge(
        &self,
        entry: &Entry,
        has_next: bool,
        path: &str,
        test: &Test,
        prefix: &str,
        depth: u32,
    ) -> (decision: Decision)
        requires
            test@.well_formed(),
        ensures
            match decision {
                Decision::Write(line) => lines_of(
                    self.visit(*entry, has_next, path@, test@, prefix@, depth as nat),
                ) == seq![line@],
                Decision::Enter(full) => self.enters(*entry, test@, depth as nat) && full@
                    == join_path(path@, entry.name@),
                Decision::Pass => self.visit(*entry, has_next, path@, test@, prefix@, depth as nat)
                    == Seq::<Finding>::empty(),
            },
            decision is Enter <==> self.enters(*entry, test@, depth as nat),
    {
        let policy = self.params.symlink_setting;
        let followed = policy.is_follow() && match &entry.node {
            Node::Symlink(_) => true,
            _ => false,
        };
        let passed = if followed {
            false
        } else {
            match test.evaluate(entry.name.as_str(), entry.node.file_kind(), policy) {
                Ok(passed) => passed,
                Err(_) => false,
            }
        };
        self.decide(entry, has_next, path, passed, prefix, depth)
    }

    /// Walks one directory and all below it, adding to `lines` what
    /// [`Searcher::walk`] says.
    pub(crate) fn walk_into(
        &self,
        listing: &Listing,
        path: &str,
        test: &Test,
        prefix: &str,
        depth: u32,
        lines: &mut Vec<Line>,
    )
        requires
            test@.well_formed(),
        ensures
            final(lines).deep_view() == old(lines).deep_view() + lines_of(
                self.walk(*listing, path@, test@, prefix@, depth as nat),
            ),
        decreases listing, 0nat,
    {
        let ghost said = self.walk(*listing, path@, test@, prefix@, depth as nat);
        match listing {
            Listing::PermissionDenied => {
                let text = glue("rfind: Permission denied for directory name ", path);
                push_line(lines, plain_line(text, FileDescriptor::StdErr));
            },
            Listing::Failed => {
                let mut text = glue("rfind: An error occurred when attempting to read the ", path);
                text.append(" directory");
                push_line(lines, plain_line(text, FileDescriptor::StdErr));
            },
            Listing::Entries(entries) => {
                let ghost mut walked: Seq<Finding> = Seq::empty();
                let mut at: usize = 0;
                while at < entries.len()
                    invariant
                        test@.well_formed(),
                        *listing == Listing::Entries(*entries),
                        at <= entries.len(),
                        walked + self.walk_entries(
                            *entries,
                            at as int,
                            path@,
                            test@,
                            prefix@,
                            depth as nat,
                        ) == said,
                        lines.deep_view() == old(lines).deep_view() + lines_of(walked),
                    decreases entries.len() - at,
                {
                    let has_next = at + 1 < entries.len();
                    let ghost step = self.visit(
                        entries[at as int],
                        has_next,
                        path@,
                        test@,
                        prefix@,
                        depth as nat,
                    );
                    proof {
                        vstd::std_specs::vec::axiom_vec_index_decreases(*entries, at as int);
                        assert(decreases_to!(*listing => listing->Entries_0));
                    }
                    self.visit_entry(&entries[at], has_next, path, test, prefix, depth, lines);
                    proof {
                        lemma_lines_of_concat(walked, step);
                        walked = walked + step;
                    }
                    at += 1;
                }
            },
        }
    }

    /// Looks at one entry, adding to `lines` what [`Searcher::visit`] says.
    fn visit_entry(
        &self,
        entry: &Entry,
        has_next: bool,
        path: &str,
        test: &Test,
        prefix: &str,
        depth: u32,
        lines: &mut Vec<Line>,
    )
        requires
            test@.well_formed(),
        ensures
            final(lines).deep_view() == old(lines).deep_view() + lines_of(
                self.visit(*entry, has_next, path@, test@, prefix@, depth as nat),
            ),
        decreases entry, 0nat,
    {
        match self.judge(entry, has_next, path, test, prefix, depth) {
            Decision::Write(line) => {
                push_line(lines, line);
            },
            Decision::Enter(full) => {
                if let Node::Directory(inside) = &entry.node {
                    let deeper = self.prefix_for_child(prefix, has_next);
                    self.walk_into(inside, full.as_str(), test, deeper.as_str(), depth + 1, lines);
                }
            },
            Decision::Pass => {},
        }
    }

    /// Walks the directory whose listing is `directory` and everything below it, and
    /// returns the lines of the walk in the order of the listings: those of an entry
    /// before those of the entries after it, those of a directory's entries where
    /// the directory stands. `preceding_str` is what stands before tree lines of
    /// this directory (nothing, if absent) and `current_depth` the depth of this
    /// directory (0, if absent).
    ///
    /// The search is refused, before any entry is looked at, exactly when the
    /// regular expression of `test` does not compile.
    pub fn search_directory_path(
        &self,
        directory: &Listing,
        directory_path: &str,
        test: &Test,
        preceding_str: Option<String>,
        current_depth: Option<u32>,
    ) -> (outcome: Result<Vec<Line>, SearchError>)
        ensures
            outcome is Ok <==> test@.well_formed(),
            outcome matches Ok(lines) ==> lines.deep_view() == lines_of(
                self.walk(
                    *directory,
                    directory_path@,
                    test@,
                    match preceding_str {
                        Some(prefix) => prefix@,
                        None => Seq::empty(),
                    },
                    match current_depth {
                        Some(depth) => depth as nat,
                        None => 0,
                    },
                ),
            ),
            outcome is Err ==> outcome == Err::<Vec<Line>, SearchError>(SearchError::InvalidPattern),
    {
        match test.validate() {
            Err(error) => Err(error),
            Ok(_) => {
                let prefix = match preceding_str {
                    Some(prefix) => prefix,
                    None => String::new(),
                };
                let depth = match current_depth {
                    Some(depth) => depth,
                    None => 0,
                };
                let mut lines: Vec<Line> = Vec::new();
                self.walk_into(directory, directory_path, test, prefix.as_str(), depth, &mut lines);
                Ok(lines)
            },
        }
    }
}

} // verus!
