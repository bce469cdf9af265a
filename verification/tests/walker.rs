use rfind::config::{Params, SymLinkSetting};
use rfind::line::{FileDescriptor, Line, Message};
use rfind::predicate::{SearchError, Test};
use rfind::searcher::{Decision, Searcher};
use rfind::tree::{Entry, LinkTarget, Listing, Node};

fn file(name: &str) -> Entry {
    Entry { name: name.to_string(), node: Node::File }
}

fn dir(name: &str, entries: Vec<Entry>) -> Entry {
    Entry { name: name.to_string(), node: Node::Directory(Listing::Entries(entries)) }
}

fn link(name: &str, target: LinkTarget) -> Entry {
    Entry { name: name.to_string(), node: Node::Symlink(target) }
}

fn searcher(policy: SymLinkSetting, max_depth: Option<u32>, min_depth: Option<u32>) -> Searcher {
    let params = Params { symlink_setting: policy, debug_opts: None, optimisation_level: None };
    Searcher::new(params, max_depth, min_depth, "/tmp".to_string())
}

fn out(text: &str) -> Line {
    Line::new_with_fd(Message::Standard(text.to_string()), FileDescriptor::StdOut)
}

fn err(text: &str) -> Line {
    Line::new_with_fd(Message::Standard(text.to_string()), FileDescriptor::StdErr)
}

fn by_name(name: &str) -> Test {
    Test::Name(name.to_string())
}

#[test]
fn finds_a_file_three_directories_down() {
    let root = Listing::Entries(vec![dir(
        "a",
        vec![dir("b", vec![dir("c", vec![file("target.txt")])])],
    )]);
    let found = searcher(SymLinkSetting::Never, None, None)
        .search_directory_path(&root, "/tmp/root", &by_name("target.txt"), None, None)
        .unwrap();
    assert_eq!(found, vec![out("/tmp/root/a/b/c/target.txt")]);
    for bound in 0..2 {
        let found = searcher(SymLinkSetting::Never, Some(bound), None)
            .search_directory_path(&root, "/tmp/root", &by_name("target.txt"), None, None)
            .unwrap();
        assert_eq!(found, Vec::<Line>::new());
    }
    let found = searcher(SymLinkSetting::Never, Some(3), None)
        .search_directory_path(&root, "/tmp/root", &by_name("target.txt"), None, None)
        .unwrap();
    assert_eq!(found, vec![out("/tmp/root/a/b/c/target.txt")]);
}

#[test]
fn an_unreadable_directory_gives_one_error_and_the_walk_goes_on() {
    let root = Listing::Entries(vec![
        dir("first", vec![file("wanted")]),
        Entry { name: "locked".to_string(), node: Node::Directory(Listing::PermissionDenied) },
        dir("last", vec![file("wanted")]),
    ]);
    let found = searcher(SymLinkSetting::Never, None, None)
        .search_directory_path(&root, "top", &by_name("wanted"), None, None)
        .unwrap();
    assert_eq!(
        found,
        vec![
            out("top/first/wanted"),
            err("rfind: Permission denied for directory name top/locked"),
            out("top/last/wanted"),
        ]
    );
}

#[test]
fn a_broken_link_is_reported_once_when_links_are_followed() {
    let root = Listing::Entries(vec![
        link("dangling", LinkTarget::Broken),
        link("good", LinkTarget::Resolved("/data/file.txt".to_string())),
        file("file.txt"),
    ]);
    let found = searcher(SymLinkSetting::Follow, None, None)
        .search_directory_path(&root, "/links", &by_name("file.txt"), None, None)
        .unwrap();
    assert_eq!(
        found,
        vec![err("Broken symlink: /links/dangling"), out("/data/file.txt"), out("/links/file.txt")]
    );
}

#[test]
fn an_invalid_pattern_is_refused_before_the_walk() {
    let root = Listing::Entries(vec![]);
    let outcome = searcher(SymLinkSetting::Never, None, None).search_directory_path(
        &root,
        ".",
        &Test::Regex("foo(bar".to_string()),
        None,
        None,
    );
    assert_eq!(outcome, Err(SearchError::InvalidPattern));
}

#[test]
fn a_pattern_is_matched_against_the_base_name() {
    let root = Listing::Entries(vec![file("notes.txt"), file("notes.md"), dir("txt", vec![])]);
    let found = searcher(SymLinkSetting::Never, None, None)
        .search_directory_path(&root, "d", &Test::Regex(r"\.txt$".to_string()), None, None)
        .unwrap();
    assert_eq!(found, vec![out("d/notes.txt")]);
}

fn tree_mode(policy: SymLinkSetting) -> Searcher {
    let params = Params {
        symlink_setting: policy,
        debug_opts: Some(rfind::config::DebugOpts::Tree),
        optimisation_level: None,
    };
    Searcher::new(params, None, None, "/tmp".to_string())
}

#[test]
fn a_match_above_the_least_depth_is_not_reported_but_its_directory_is_walked() {
    let root = Listing::Entries(vec![
        file("wanted"),
        dir("wanted", vec![file("wanted"), dir("deeper", vec![file("wanted")])]),
    ]);
    let shallow = searcher(SymLinkSetting::Never, None, Some(1))
        .search_directory_path(&root, "r", &by_name("wanted"), None, None)
        .unwrap();
    // Depth 0 is passed over; the directory of the same name is gone into instead.
    assert_eq!(shallow, vec![out("r/wanted/wanted"), out("r/wanted/deeper/wanted")]);
    let deep = searcher(SymLinkSetting::Never, None, Some(2))
        .search_directory_path(&root, "r", &by_name("wanted"), None, None)
        .unwrap();
    assert_eq!(deep, vec![out("r/wanted/deeper/wanted")]);
    let all = searcher(SymLinkSetting::Never, None, Some(0))
        .search_directory_path(&root, "r", &by_name("wanted"), None, None)
        .unwrap();
    assert_eq!(all, vec![out("r/wanted"), out("r/wanted")]);
}

#[test]
fn a_directory_that_matches_is_not_gone_into() {
    let root = Listing::Entries(vec![dir("x", vec![file("x")])]);
    let found = searcher(SymLinkSetting::Never, None, None)
        .search_directory_path(&root, "r", &by_name("x"), None, None)
        .unwrap();
    assert_eq!(found, vec![out("r/x")]);
}

#[test]
fn the_depth_of_the_call_counts_against_the_bounds() {
    let root = Listing::Entries(vec![file("f"), dir("d", vec![file("f")])]);
    let bounded = searcher(SymLinkSetting::Never, Some(3), Some(3));
    let at_two = bounded.search_directory_path(&root, "r", &by_name("f"), None, Some(2)).unwrap();
    assert_eq!(at_two, vec![out("r/d/f")]);
    let at_three = bounded.search_directory_path(&root, "r", &by_name("f"), None, Some(3)).unwrap();
    assert_eq!(at_three, vec![out("r/f")]);
    let at_four = bounded.search_directory_path(&root, "r", &by_name("f"), None, Some(4)).unwrap();
    assert_eq!(at_four, vec![out("r/f")]);
}

#[test]
fn the_walk_stops_at_the_last_depth_that_can_be_counted() {
    let root = Listing::Entries(vec![dir("d", vec![file("f")])]);
    let found = searcher(SymLinkSetting::Never, None, None)
        .search_directory_path(&root, "r", &by_name("f"), None, Some(u32::MAX))
        .unwrap();
    assert_eq!(found, Vec::<Line>::new());
    let found = searcher(SymLinkSetting::Never, None, None)
        .search_directory_path(&root, "r", &by_name("f"), None, Some(u32::MAX - 1))
        .unwrap();
    assert_eq!(found, vec![out("r/d/f")]);
}

#[test]
fn a_directory_that_cannot_be_read_for_another_reason_gives_the_general_error() {
    let root = Listing::Entries(vec![Entry {
        name: "odd".to_string(),
        node: Node::Directory(Listing::Failed),
    }]);
    let found = searcher(SymLinkSetting::Never, None, None)
        .search_directory_path(&root, "/r", &by_name("x"), None, None)
        .unwrap();
    assert_eq!(
        found,
        vec![err("rfind: An error occurred when attempting to read the /r/odd directory")]
    );
    let found = searcher(SymLinkSetting::Never, None, None)
        .search_directory_path(&Listing::PermissionDenied, "/r", &by_name("x"), None, None)
        .unwrap();
    assert_eq!(found, vec![err("rfind: Permission denied for directory name /r")]);
}

#[test]
fn links_are_entries_like_others_unless_followed() {
    let root = Listing::Entries(vec![
        link("l", LinkTarget::Resolved("/elsewhere/file".to_string())),
        link("dangling", LinkTarget::Broken),
    ]);
    for policy in [SymLinkSetting::Never, SymLinkSetting::OnlyCommandLineArgs] {
        let by_type = searcher(policy, None, None)
            .search_directory_path(&root, "r", &Test::Types("l".to_string()), None, None)
            .unwrap();
        assert_eq!(by_type, vec![out("r/l"), out("r/dangling")]);
        let as_file = searcher(policy, None, None)
            .search_directory_path(&root, "r", &Test::Types("f".to_string()), None, None)
            .unwrap();
        assert_eq!(as_file, Vec::<Line>::new());
        let named = searcher(policy, None, None)
            .search_directory_path(&root, "r", &by_name("file"), None, None)
            .unwrap();
        assert_eq!(named, Vec::<Line>::new());
    }
    let followed = searcher(SymLinkSetting::Follow, None, None)
        .search_directory_path(&root, "r", &Test::Types("l".to_string()), None, None)
        .unwrap();
    assert_eq!(followed, vec![out("/elsewhere/file"), err("Broken symlink: r/dangling")]);
}

#[test]
fn a_followed_link_is_reported_whatever_the_least_depth() {
    let root = Listing::Entries(vec![link("l", LinkTarget::Resolved("/t".to_string()))]);
    let found = searcher(SymLinkSetting::Follow, None, Some(5))
        .search_directory_path(&root, "r", &by_name("nothing"), None, None)
        .unwrap();
    assert_eq!(found, vec![out("/t")]);
}

#[test]
fn tree_mode_marks_lines_of_links_with_their_place() {
    let root = Listing::Entries(vec![
        link("first", LinkTarget::Resolved("/a".to_string())),
        dir(
            "middle",
            vec![link("inner", LinkTarget::Broken), link("last", LinkTarget::Resolved("/b".to_string()))],
        ),
        dir("end", vec![link("only", LinkTarget::Resolved("/c".to_string()))]),
    ]);
    let found = tree_mode(SymLinkSetting::Follow)
        .search_directory_path(&root, "r", &by_name("x"), Some("> ".to_string()), None)
        .unwrap();
    assert_eq!(
        found,
        vec![
            out("> ├── /a"),
            err("> ├── | ├── Broken symlink: r/middle/inner"),
            out("> ├── | └── /b"),
            out("> └──   └── /c"),
        ]
    );
    let plain = searcher(SymLinkSetting::Follow, None, None)
        .search_directory_path(&root, "r", &by_name("x"), Some("> ".to_string()), None)
        .unwrap();
    assert_eq!(
        plain,
        vec![out("> /a"), err("> | Broken symlink: r/middle/inner"), out("> | /b"), out(">   /c")]
    );
}

#[test]
fn bounds_can_be_asked_for() {
    let bounded = searcher(SymLinkSetting::Never, Some(2), Some(1));
    assert_eq!(bounded.may_report(0), false);
    assert_eq!(bounded.may_report(1), true);
    assert_eq!(bounded.may_descend(1), true);
    assert_eq!(bounded.may_descend(2), false);
    let free = searcher(SymLinkSetting::Never, None, None);
    assert_eq!(free.may_report(0), true);
    assert_eq!(free.may_descend(u32::MAX - 1), true);
    assert_eq!(free.may_descend(u32::MAX), false);
}

#[test]
fn each_entry_gets_its_verdict() {
    let plain = searcher(SymLinkSetting::Never, Some(1), Some(1));
    let a_file = file("f");
    let a_dir = dir("d", vec![]);
    let a_link = link("l", LinkTarget::Resolved("/t".to_string()));
    let gone = link("g", LinkTarget::Broken);
    // Above the least depth nothing is written; a directory is gone into.
    assert!(matches!(plain.decide(&a_file, true, "p", true, "", 0), Decision::Pass));
    match plain.decide(&a_dir, true, "p", true, "", 0) {
        Decision::Enter(path) => assert_eq!(path, "p/d"),
        other => panic!("{:?}", other),
    }
    // At the least depth what passed is written, and a directory that passed is not
    // gone into.
    match plain.decide(&a_dir, false, "p", true, "", 1) {
        Decision::Write(line) => assert_eq!(line, out("p/d")),
        other => panic!("{:?}", other),
    }
    // At the depth bound no directory is gone into.
    assert!(matches!(plain.decide(&a_dir, false, "p", false, "", 1), Decision::Pass));
    assert!(matches!(plain.decide(&a_file, false, "p", false, "", 1), Decision::Pass));
    // A link is an entry like any other unless links are followed.
    match plain.decide(&a_link, false, "p", true, "", 1) {
        Decision::Write(line) => assert_eq!(line, out("p/l")),
        other => panic!("{:?}", other),
    }
    assert!(matches!(plain.decide(&gone, false, "p", false, "", 1), Decision::Pass));
    let following = searcher(SymLinkSetting::Follow, Some(1), Some(1));
    for passed in [false, true] {
        match following.decide(&a_link, false, "p", passed, "> ", 0) {
            Decision::Write(line) => assert_eq!(line, out("> /t")),
            other => panic!("{:?}", other),
        }
        match following.decide(&gone, false, "p", passed, "> ", 0) {
            Decision::Write(line) => assert_eq!(line, err("> Broken symlink: p/g")),
            other => panic!("{:?}", other),
        }
    }
}
