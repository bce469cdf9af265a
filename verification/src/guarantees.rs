use vstd::prelude::*;
use crate::expression::{any_reported, classify, group_end, leaf, run, Token};
use crate::predicate::{mask_matches, type_char_holds, TestView};
use crate::searcher::{broken_link_text, permission_denied_text, Finding, Origin, Searcher};
use crate::line::{FileDescriptor, LineView};
use crate::text::{join_path, occurs_at, occurs_in};
use crate::tree::{Entry, FileKind, LinkTarget, Listing, Node};

verus! {

/// Whether a finding lies where the settings of `searcher` allow one, for a walk that
/// began at depth `start`: no higher than the walk began, no deeper than the depth
/// bound (or than the walk began, where that is deeper still), and, for a match, no
/// higher than the least depth that is reported.
pub open spec fn within_bounds(searcher: Searcher, start: nat, finding: Finding) -> bool {
    &&& start <= finding.depth
    &&& searcher.max_depth matches Some(most) ==> finding.depth <= most || finding.depth == start
    &&& searcher.min_depth matches Some(least) ==> finding.origin == Origin::Match
        ==> finding.depth >= least
}

/// Whether every finding of a walk that began at depth `start` is within bounds of a
/// walk that began at depth `outer`, no deeper than `start`.
spec fn all_within(searcher: Searcher, outer: nat, found: Seq<Finding>) -> bool {
    forall|k: int| 0 <= k < found.len() ==> within_bounds(searcher, outer, #[trigger] found[k])
}

/// Every finding of the walk of a directory at `depth` is within bounds of a walk
/// that began at `outer`.
proof fn lemma_walk_bounds(
    searcher: Searcher,
    listing: Listing,
    path: Seq<char>,
    test: TestView,
    prefix: Seq<char>,
    depth: nat,
    outer: nat,
)
    requires
        outer <= depth,
        outer < depth ==> (searcher.max_depth matches Some(most) ==> depth <= most),
    ensures
        all_within(searcher, outer, searcher.walk(listing, path, test, prefix, depth)),
    decreases listing, 0nat,
{
    match listing {
        Listing::Entries(entries) => {
            lemma_walk_entries_bounds(searcher, entries, 0, path, test, prefix, depth, outer);
        },
        _ => {},
    }
}

/// [`lemma_walk_bounds`], for the entries of a listing from position `from` on.
proof fn lemma_walk_entries_bounds(
    searcher: Searcher,
    entries: Vec<Entry>,
    from: int,
    path: Seq<char>,
    test: TestView,
    prefix: Seq<char>,
    depth: nat,
    outer: nat,
)
    requires
        outer <= depth,
        outer < depth ==> (searcher.max_depth matches Some(most) ==> depth <= most),
    ensures
        all_within(searcher, outer, searcher.walk_entries(entries, from, path, test, prefix, depth)),
    decreases entries, entries.len() - from,
{
    if 0 <= from < entries.len() {
        lemma_visit_bounds(
            searcher,
            entries[from],
            from + 1 < entries.len(),
            path,
            test,
            prefix,
            depth,
            outer,
        );
        lemma_walk_entries_bounds(searcher, entries, from + 1, path, test, prefix, depth, outer);
    }
}

/// [`lemma_walk_bounds`], for one entry.
proof fn lemma_visit_bounds(
    searcher: Searcher,
    entry: Entry,
    has_next: bool,
    path: Seq<char>,
    test: TestView,
    prefix: Seq<char>,
    depth: nat,
    outer: nat,
)
    requires
        outer <= depth,
        outer < depth ==> (searcher.max_depth matches Some(most) ==> depth <= most),
    ensures
        all_within(searcher, outer, searcher.visit(entry, has_next, path, test, prefix, depth)),
    decreases entry, 0nat,
{
    let policy = searcher.params.symlink_setting;
    if policy.follows() && entry.node is Symlink {
    } else if test.matches(entry.name@, entry.node.kind(), policy) && searcher.reports_at(depth) {
    } else if searcher.enters(entry, test, depth) {
        lemma_walk_bounds(
            searcher,
            entry.node->Directory_0,
            join_path(path, entry.name@),
            test,
            searcher.child_prefix(prefix, has_next),
            depth + 1,
            outer,
        );
    }
}

/// With a depth bound, nothing deeper than the bound is reported: every line of a
/// search from the starting path comes from a directory at a depth no greater
/// than the bound.
pub proof fn lemma_nothing_reported_below_max_depth(
    searcher: Searcher,
    directory: Listing,
    path: Seq<char>,
    test: TestView,
    prefix: Seq<char>,
    most: u32,
)
    requires
        searcher.max_depth == Some(most),
    ensures
        forall|k: int|
            0 <= k < searcher.walk(directory, path, test, prefix, 0).len() ==> (
            #[trigger] searcher.walk(directory, path, test, prefix, 0)[k]).depth <= most,
{
    lemma_walk_bounds(searcher, directory, path, test, prefix, 0, 0);
    let found = searcher.walk(directory, path, test, prefix, 0);
    assert forall|k: int| 0 <= k < found.len() implies (#[trigger] found[k]).depth <= most by {
        assert(within_bounds(searcher, 0, found[k]));
    }
}

/// With a least depth, no entry above it is reported as a match, from whatever
/// depth the walk is taken up: every match line comes from a directory at that
/// depth or deeper.
pub proof fn lemma_no_match_reported_above_min_depth(
    searcher: Searcher,
    directory: Listing,
    path: Seq<char>,
    test: TestView,
    prefix: Seq<char>,
    depth: nat,
    least: u32,
)
    requires
        searcher.min_depth == Some(least),
    ensures
        forall|k: int|
            0 <= k < searcher.walk(directory, path, test, prefix, depth).len() && (
            #[trigger] searcher.walk(directory, path, test, prefix, depth)[k]).origin
                == Origin::Match ==> searcher.walk(directory, path, test, prefix, depth)[k].depth
                >= least,
{
    lemma_walk_bounds(searcher, directory, path, test, prefix, depth, depth);
    let found = searcher.walk(directory, path, test, prefix, depth);
    assert forall|k: int| 0 <= k < found.len() && (#[trigger] found[k]).origin
        == Origin::Match implies found[k].depth >= least by {
        assert(within_bounds(searcher, depth, found[k]));
    }
}

/// Whether a finding is one that a walk can make without following a link.
pub open spec fn made_without_following(finding: Finding) -> bool {
    finding.origin == Origin::Match || finding.origin == Origin::Unreadable
}

/// Whether every finding of `found` was made without following a link.
spec fn none_followed(found: Seq<Finding>) -> bool {
    forall|k: int| 0 <= k < found.len() ==> made_without_following(#[trigger] found[k])
}

/// Where links are not followed, the walk of a directory follows none.
proof fn lemma_walk_follows_nothing(
    searcher: Searcher,
    listing: Listing,
    path: Seq<char>,
    test: TestView,
    prefix: Seq<char>,
    depth: nat,
)
    requires
        !searcher.params.symlink_setting.follows(),
    ensures
        none_followed(searcher.walk(listing, path, test, prefix, depth)),
    decreases listing, 0nat,
{
    match listing {
        Listing::Entries(entries) => {
            lemma_walk_entries_follows_nothing(searcher, entries, 0, path, test, prefix, depth);
        },
        _ => {},
    }
}

/// [`lemma_walk_follows_nothing`], for the entries of a listing from position
/// `from` on.
proof fn lemma_walk_entries_follows_nothing(
    searcher: Searcher,
    entries: Vec<Entry>,
    from: int,
    path: Seq<char>,
    test: TestView,
    prefix: Seq<char>,
    depth: nat,
)
    requires
        !searcher.params.symlink_setting.follows(),
    ensures
        none_followed(searcher.walk_entries(entries, from, path, test, prefix, depth)),
    decreases entries, entries.len() - from,
{
    if 0 <= from < entries.len() {
        lemma_visit_follows_nothing(
            searcher,
            entries[from],
            from + 1 < entries.len(),
            path,
            test,
            prefix,
            depth,
        );
        lemma_walk_entries_follows_nothing(searcher, entries, from + 1, path, test, prefix, depth);
    }
}

/// [`lemma_walk_follows_nothing`], for one entry.
proof fn lemma_visit_follows_nothing(
    searcher: Searcher,
    entry: Entry,
    has_next: bool,
    path: Seq<char>,
    test: TestView,
    prefix: Seq<char>,
    depth: nat,
)
    requires
        !searcher.params.symlink_setting.follows(),
    ensures
        none_followed(searcher.visit(entry, has_next, path, test, prefix, depth)),
    decreases entry, 0nat,
{
    let policy = searcher.params.symlink_setting;
    if test.matches(entry.name@, entry.node.kind(), policy) && searcher.reports_at(depth) {
    } else if searcher.enters(entry, test, depth) {
        lemma_walk_follows_nothing(
            searcher,
            entry.node->Directory_0,
            join_path(path, entry.name@),
            test,
            searcher.child_prefix(prefix, has_next),
            depth + 1,
        );
    }
}

/// Where links are not followed, a link is an entry like any other: it is tested by
/// its own name and as a link, the one line it can give is its own path, and what
/// it points to plays no part.
pub proof fn lemma_link_reported_as_itself(
    searcher: Searcher,
    entry: Entry,
    has_next: bool,
    path: Seq<char>,
    test: TestView,
    prefix: Seq<char>,
    depth: nat,
)
    requires
        !searcher.params.symlink_setting.follows(),
        entry.node is Symlink,
    ensures
        searcher.visit(entry, has_next, path, test, prefix, depth) == if test.matches(
            entry.name@,
            FileKind::Symlink,
            searcher.params.symlink_setting,
        ) && searcher.reports_at(depth) {
            seq![
                Finding {
                    line: LineView::out(join_path(path, entry.name@)),
                    depth,
                    origin: Origin::Match,
                },
            ]
        } else {
            Seq::<Finding>::empty()
        },
{
}

/// Where links are not followed, no line of a walk names the target of a link or
/// says that a link is broken.
pub proof fn lemma_no_link_followed(
    searcher: Searcher,
    directory: Listing,
    path: Seq<char>,
    test: TestView,
    prefix: Seq<char>,
    depth: nat,
)
    requires
        !searcher.params.symlink_setting.follows(),
    ensures
        forall|k: int|
            0 <= k < searcher.walk(directory, path, test, prefix, depth).len()
                ==> made_without_following(
                #[trigger] searcher.walk(directory, path, test, prefix, depth)[k],
            ),
{
    lemma_walk_follows_nothing(searcher, directory, path, test, prefix, depth);
    let found = searcher.walk(directory, path, test, prefix, depth);
    assert forall|k: int| 0 <= k < found.len() implies made_without_following(
        #[trigger] found[k],
    ) by {
        assert(none_followed(found));
    }
}

/// A type mask asks for every type it names at once: an entry whose type is not the
/// one that some character of the mask names does not pass. So a link does not
/// pass a mask that names the type of what it points to.
pub proof fn lemma_mask_needs_every_type(
    mask: Seq<char>,
    at: int,
    kind: FileKind,
    policy: crate::config::SymLinkSetting,
)
    requires
        0 <= at < mask.len(),
        FileKind::named_by(mask[at]) is Some,
        FileKind::named_by(mask[at]) != Some(kind),
    ensures
        !mask_matches(mask, kind, policy),
{
    assert(!type_char_holds(mask[at], kind, policy));
}

/// Where links are followed, a link that resolves gives exactly one line, on
/// standard output: what stands before the lines of its directory, then the
/// target. The link itself is not tested.
pub proof fn lemma_followed_link_gives_target(
    searcher: Searcher,
    entry: Entry,
    has_next: bool,
    path: Seq<char>,
    test: TestView,
    prefix: Seq<char>,
    depth: nat,
)
    requires
        searcher.params.symlink_setting.follows(),
        entry.node matches Node::Symlink(link) && link is Resolved,
    ensures
        searcher.visit(entry, has_next, path, test, prefix, depth) == seq![
            Finding {
                line: LineView::out(
                    searcher.entry_prefix(prefix, has_next) + entry.node->Symlink_0->Resolved_0@,
                ),
                depth,
                origin: Origin::LinkTarget,
            },
        ],
{
}

/// Where links are followed, a link that points to nothing gives exactly one line,
/// on standard error, which holds the words "Broken symlink" and the path of the
/// link.
pub proof fn lemma_broken_link_gives_one_error(
    searcher: Searcher,
    entry: Entry,
    has_next: bool,
    path: Seq<char>,
    test: TestView,
    prefix: Seq<char>,
    depth: nat,
)
    requires
        searcher.params.symlink_setting.follows(),
        entry.node == Node::Symlink(LinkTarget::Broken),
    ensures
        searcher.visit(entry, has_next, path, test, prefix, depth).len() == 1,
        searcher.visit(entry, has_next, path, test, prefix, depth)[0].origin == Origin::BrokenLink,
        searcher.visit(entry, has_next, path, test, prefix, depth)[0].line.goes_to(
            FileDescriptor::StdErr,
        ),
        occurs_in(
            searcher.visit(entry, has_next, path, test, prefix, depth)[0].line.message.text(),
            "Broken symlink"@,
        ),
        occurs_in(
            searcher.visit(entry, has_next, path, test, prefix, depth)[0].line.message.text(),
            join_path(path, entry.name@),
        ),
{
    let shown = searcher.entry_prefix(prefix, has_next);
    let full = join_path(path, entry.name@);
    let text = broken_link_text(shown, full);
    assert(searcher.visit(entry, has_next, path, test, prefix, depth)[0].line.message.text() == text);
    reveal_strlit("Broken symlink: ");
    reveal_strlit("Broken symlink");
    let words = "Broken symlink"@;
    assert(text.subrange(shown.len() as int, (shown.len() + words.len()) as int) =~= words);
    assert(occurs_at(text, words, shown.len() as int));
    let skip = shown.len() + "Broken symlink: "@.len();
    assert(text.subrange(skip as int, (skip + full.len()) as int) =~= full);
    assert(occurs_at(text, full, skip as int));
}

/// A directory that may not be read gives exactly one line, on standard error, which
/// holds the path of the directory; nothing below it is looked at.
pub proof fn lemma_unreadable_directory_gives_one_error(
    searcher: Searcher,
    path: Seq<char>,
    test: TestView,
    prefix: Seq<char>,
    depth: nat,
)
    ensures
        searcher.walk(Listing::PermissionDenied, path, test, prefix, depth).len() == 1,
        searcher.walk(Listing::PermissionDenied, path, test, prefix, depth)[0].origin
            == Origin::Unreadable,
        searcher.walk(Listing::PermissionDenied, path, test, prefix, depth)[0].line.goes_to(
            FileDescriptor::StdErr,
        ),
        occurs_in(
            searcher.walk(Listing::PermissionDenied, path, test, prefix, depth)[0].line.message.text(),
            path,
        ),
{
    let text = permission_denied_text(path);
    let skip = "rfind: Permission denied for directory name "@.len();
    assert(text.subrange(skip as int, (skip + path.len()) as int) =~= path);
    assert(occurs_at(text, path, skip as int));
}

/// An entry that the walk goes into and that may not be read gives exactly that one
/// line, which names the entry by its path. (A directory whose own name passes
/// the test, deep enough to report, is written as a match and not gone into:
/// whether it can be read then plays no part.)
pub proof fn lemma_unreadable_entry_gives_one_error(
    searcher: Searcher,
    entry: Entry,
    has_next: bool,
    path: Seq<char>,
    test: TestView,
    prefix: Seq<char>,
    depth: nat,
)
    requires
        entry.node == Node::Directory(Listing::PermissionDenied),
        searcher.enters(entry, test, depth),
    ensures
        searcher.visit(entry, has_next, path, test, prefix, depth) == seq![
            Finding {
                line: LineView::err(permission_denied_text(join_path(path, entry.name@))),
                depth: depth + 1,
                origin: Origin::Unreadable,
            },
        ],
{
}

impl Searcher {
    /// What the walk writes for the entries before position `upto`.
    pub open spec fn walked_before(
        self,
        entries: Vec<Entry>,
        upto: int,
        path: Seq<char>,
        test: TestView,
        prefix: Seq<char>,
        depth: nat,
    ) -> Seq<Finding>
        decreases upto,
    {
        if 0 < upto <= entries.len() {
            self.walked_before(entries, upto - 1, path, test, prefix, depth) + self.visit(
                entries[upto - 1],
                upto < entries.len(),
                path,
                test,
                prefix,
                depth,
            )
        } else {
            Seq::empty()
        }
    }
}

/// A walk goes on after every entry, whatever the entry gave: what is written for a
/// directory is what was written before an entry, then what the entry gives (be
/// it a line on standard error), then what the entries after it give.
pub proof fn lemma_walk_goes_on(
    searcher: Searcher,
    entries: Vec<Entry>,
    at: int,
    path: Seq<char>,
    test: TestView,
    prefix: Seq<char>,
    depth: nat,
)
    requires
        0 <= at < entries.len(),
    ensures
        searcher.walk(Listing::Entries(entries), path, test, prefix, depth)
            == searcher.walked_before(entries, at, path, test, prefix, depth) + searcher.visit(
            entries[at],
            at + 1 < entries.len(),
            path,
            test,
            prefix,
            depth,
        ) + searcher.walk_entries(entries, at + 1, path, test, prefix, depth),
    decreases at,
{
    let before = searcher.walked_before(entries, at, path, test, prefix, depth);
    let here = searcher.visit(entries[at], at + 1 < entries.len(), path, test, prefix, depth);
    let after = searcher.walk_entries(entries, at + 1, path, test, prefix, depth);
    if at > 0 {
        lemma_walk_goes_on(searcher, entries, at - 1, path, test, prefix, depth);
        let earlier = searcher.walked_before(entries, at - 1, path, test, prefix, depth);
        let previous = searcher.visit(entries[at - 1], at < entries.len(), path, test, prefix, depth);
        assert(earlier + previous + (here + after) =~= (earlier + previous) + here + after);
    } else {
        assert(before + here + after =~= here + after);
    }
}

impl Searcher {
    /// How many levels below a directory at `depth` the walk can reach.
    pub open spec fn levels_below(self, depth: nat) -> nat {
        let bound: nat = match self.max_depth {
            Some(most) => most as nat,
            None => u32::MAX as nat,
        };
        if depth < bound {
            (bound - depth) as nat
        } else {
            0
        }
    }
}

/// Whether two links point to the same.
pub open spec fn same_link(one: LinkTarget, other: LinkTarget) -> bool {
    match (one, other) {
        (LinkTarget::Resolved(target), LinkTarget::Resolved(same)) => target@ == same@,
        (LinkTarget::Broken, LinkTarget::Broken) => true,
        _ => false,
    }
}

/// Whether two listings are alike down to `levels` levels below them: alike in
/// themselves, entry by entry, and in the listings of their directories down to
/// one level less. What lies deeper may differ in any way, and so may what links
/// point to, unless `links` says that this counts.
pub open spec fn alike(one: Listing, other: Listing, levels: nat, links: bool) -> bool
    decreases one, 0nat,
{
    match one {
        Listing::Entries(entries) => other is Entries && entries.len()
            == other->Entries_0.len() && entries_alike(
            entries,
            other->Entries_0,
            0,
            levels,
            links,
        ),
        Listing::PermissionDenied => other is PermissionDenied,
        Listing::Failed => other is Failed,
    }
}

/// Whether the entries of two listings of one length are alike from position `from`
/// on.
pub open spec fn entries_alike(
    one: Vec<Entry>,
    other: Vec<Entry>,
    from: int,
    levels: nat,
    links: bool,
) -> bool
    decreases one, one.len() - from,
{
    if 0 <= from < one.len() {
        entry_alike(one[from], other[from], levels, links) && entries_alike(
            one,
            other,
            from + 1,
            levels,
            links,
        )
    } else {
        true
    }
}

/// Whether two entries are alike: in name and type; for links and where `links`
/// holds, in what they point to; for directories and where `levels` is not 0, in
/// their listings.
pub open spec fn entry_alike(one: Entry, other: Entry, levels: nat, links: bool) -> bool
    decreases one, 0nat,
{
    &&& one.name@ == other.name@
    &&& one.node.kind() == other.node.kind()
    &&& match one.node {
        Node::Directory(inside) => other.node is Directory && (levels > 0 ==> alike(
            inside,
            other.node->Directory_0,
            (levels - 1) as nat,
            links,
        )),
        Node::Symlink(link) => other.node is Symlink && (links ==> same_link(
            link,
            other.node->Symlink_0,
        )),
        _ => true,
    }
}

/// Listings that are alike as far down as the walk reaches give the same walk.
proof fn lemma_alike_walks(
    searcher: Searcher,
    one: Listing,
    other: Listing,
    path: Seq<char>,
    test: TestView,
    prefix: Seq<char>,
    depth: nat,
)
    requires
        alike(
            one,
            other,
            searcher.levels_below(depth),
            searcher.params.symlink_setting.follows(),
        ),
    ensures
        searcher.walk(one, path, test, prefix, depth) == searcher.walk(
            other,
            path,
            test,
            prefix,
            depth,
        ),
    decreases one, 0nat,
{
    match one {
        Listing::Entries(entries) => {
            lemma_alike_entries_walk(
                searcher,
                entries,
                other->Entries_0,
                0,
                path,
                test,
                prefix,
                depth,
            );
        },
        _ => {},
    }
}

/// [`lemma_alike_walks`], for the entries of two listings from position `from` on.
proof fn lemma_alike_entries_walk(
    searcher: Searcher,
    one: Vec<Entry>,
    other: Vec<Entry>,
    from: int,
    path: Seq<char>,
    test: TestView,
    prefix: Seq<char>,
    depth: nat,
)
    requires
        one.len() == other.len(),
        entries_alike(
            one,
            other,
            from,
            searcher.levels_below(depth),
            searcher.params.symlink_setting.follows(),
        ),
    ensures
        searcher.walk_entries(one, from, path, test, prefix, depth) == searcher.walk_entries(
            other,
            from,
            path,
            test,
            prefix,
            depth,
        ),
    decreases one, one.len() - from,
{
    if 0 <= from < one.len() {
        lemma_alike_entry_visit(
            searcher,
            one[from],
            other[from],
            from + 1 < one.len(),
            path,
            test,
            prefix,
            depth,
        );
        lemma_alike_entries_walk(searcher, one, other, from + 1, path, test, prefix, depth);
    }
}

/// [`lemma_alike_walks`], for one entry of each.
proof fn lemma_alike_entry_visit(
    searcher: Searcher,
    one: Entry,
    other: Entry,
    has_next: bool,
    path: Seq<char>,
    test: TestView,
    prefix: Seq<char>,
    depth: nat,
)
    requires
        entry_alike(
            one,
            other,
            searcher.levels_below(depth),
            searcher.params.symlink_setting.follows(),
        ),
    ensures
        searcher.visit(one, has_next, path, test, prefix, depth) == searcher.visit(
            other,
            has_next,
            path,
            test,
            prefix,
            depth,
        ),
    decreases one, 0nat,
{
    if searcher.enters(one, test, depth) {
        lemma_alike_walks(
            searcher,
            one.node->Directory_0,
            other.node->Directory_0,
            join_path(path, one.name@),
            test,
            searcher.child_prefix(prefix, has_next),
            depth + 1,
        );
    }
}

/// A search sees nothing of what lies deeper than its depth bound, and, unless links
/// are followed, nothing of what a link points to: two trees that are alike down
/// to the bound give the same lines, whatever they hold further down, and where
/// links are not followed, wherever their links point. (Without a bound, the last
/// depth that can be counted is the bound.)
pub proof fn lemma_walk_sees_no_further(
    searcher: Searcher,
    one: Listing,
    other: Listing,
    path: Seq<char>,
    test: TestView,
    prefix: Seq<char>,
    depth: nat,
)
    requires
        alike(
            one,
            other,
            searcher.levels_below(depth),
            searcher.params.symlink_setting.follows(),
        ),
    ensures
        searcher.walk(one, path, test, prefix, depth) == searcher.walk(
            other,
            path,
            test,
            prefix,
            depth,
        ),
{
    lemma_alike_walks(searcher, one, other, path, test, prefix, depth);
}

/// What holds of one walk holds of the evaluation of an expression: on two trees
/// that are alike as far as a search from the starting path reaches, an expression
/// has the same value and its walks write the same lines.
pub proof fn lemma_evaluation_sees_no_further(
    searcher: Searcher,
    one: Listing,
    other: Listing,
    tokens: Seq<Seq<char>>,
    carried: bool,
)
    requires
        alike(one, other, searcher.levels_below(0), searcher.params.symlink_setting.follows()),
    ensures
        run(searcher, one, tokens, carried) == run(searcher, other, tokens, carried),
    decreases tokens.len(),
{
    if tokens.len() > 0 {
        let start = searcher.starting_path@;
        match classify(tokens[0]) {
            Token::Open => {
                if let Some(end) = group_end(tokens) {
                    let inner = run(searcher, one, tokens.subrange(1, end), false);
                    lemma_evaluation_sees_no_further(
                        searcher,
                        one,
                        other,
                        tokens.subrange(1, end),
                        false,
                    );
                    lemma_evaluation_sees_no_further(
                        searcher,
                        one,
                        other,
                        tokens.skip(end + 1),
                        inner.value,
                    );
                }
            },
            Token::Close => {},
            Token::True => {
                lemma_evaluation_sees_no_further(searcher, one, other, tokens.skip(1), true);
            },
            Token::Or | Token::And | Token::Not | Token::False => {
                lemma_evaluation_sees_no_further(searcher, one, other, tokens.skip(1), false);
            },
            Token::Name => {
                if tokens.len() > 1 {
                    let test = TestView::Name(tokens[1]);
                    lemma_walk_sees_no_further(
                        searcher,
                        one,
                        other,
                        start,
                        test,
                        Seq::empty(),
                        0,
                    );
                    lemma_evaluation_sees_no_further(
                        searcher,
                        one,
                        other,
                        tokens.skip(1),
                        any_reported(leaf(searcher, one, test)),
                    );
                }
            },
            Token::Type => {
                if tokens.len() > 1 {
                    let test = TestView::Types(tokens[1]);
                    lemma_walk_sees_no_further(
                        searcher,
                        one,
                        other,
                        start,
                        test,
                        Seq::empty(),
                        0,
                    );
                    lemma_evaluation_sees_no_further(
                        searcher,
                        one,
                        other,
                        tokens.skip(1),
                        any_reported(leaf(searcher, one, test)),
                    );
                }
            },
            Token::Other => {
                lemma_evaluation_sees_no_further(searcher, one, other, tokens.skip(1), carried);
            },
        }
    }
}

} // verus!
