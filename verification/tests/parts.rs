use rfind::config::{ConfigError, DebugOpts, Params, SymLinkSetting};
use rfind::line::{FileDescriptor, Line, Message};
use rfind::logger::{Logger, TestLogger};
use rfind::predicate::{check_mask, SearchError, Test};
use rfind::text::{chars_of, contains, equal, glue, join};
use rfind::tree::{FileKind, LinkTarget, Listing, Node};

#[test]
fn paths_are_joined_with_one_separator() {
    assert_eq!(join("/tmp", "file"), "/tmp/file");
    assert_eq!(join("/tmp/", "file"), "/tmp/file");
    assert_eq!(join("", "file"), "file");
    assert_eq!(join("/", "file"), "/file");
    assert_eq!(join(".", "file"), "./file");
    assert_eq!(join("/tmp", "/etc/passwd"), "/etc/passwd");
    assert_eq!(join("/tmp", ""), "/tmp/");
    assert_eq!(join("日本", "語"), "日本/語");
}

#[test]
fn text_is_compared_and_searched_by_characters() {
    assert_eq!(chars_of("añb"), vec!['a', 'ñ', 'b']);
    assert_eq!(glue("ab", "cd"), "abcd");
    assert!(equal("same", "same"));
    assert!(!equal("same", "sane"));
    assert!(!equal("same", "sam"));
    assert!(equal("", ""));
    assert!(contains("haystack", "hay"));
    assert!(contains("haystack", "stack"));
    assert!(contains("haystack", "yst"));
    assert!(contains("haystack", ""));
    assert!(contains("", ""));
    assert!(contains("haystack", "haystack"));
    assert!(!contains("haystack", "haystacks"));
    assert!(!contains("haystack", "needle"));
    assert!(!contains("", "x"));
    assert!(contains("aab", "ab"));
}

#[test]
fn each_stream_has_its_number() {
    assert_eq!(FileDescriptor::StdIn.number(), 0);
    assert_eq!(FileDescriptor::StdOut.number(), 1);
    assert_eq!(FileDescriptor::StdErr.number(), 2);
}

#[test]
fn lines_are_made_for_a_stream() {
    let line = Line::new(Message::Standard("text".to_string()));
    assert_eq!(line.file_descriptor, Some(FileDescriptor::StdOut));
    assert_eq!(line.message, Message::Standard("text".to_string()));
    let line = Line::new_with_fd(Message::Tree("rows".to_string()), FileDescriptor::StdErr);
    assert_eq!(line.file_descriptor, Some(FileDescriptor::StdErr));
    assert_eq!(line.message.get_contained_message(), "rows");
    assert_eq!(Message::Standard("plain".to_string()).get_contained_message(), "plain");
    assert_eq!(line.clone(), line);
}

#[test]
fn settings_answer_for_themselves() {
    assert!(SymLinkSetting::Follow.is_follow());
    assert!(!SymLinkSetting::Never.is_follow());
    assert!(!SymLinkSetting::OnlyCommandLineArgs.is_follow());
    let mut params =
        Params { symlink_setting: SymLinkSetting::Never, debug_opts: None, optimisation_level: Some(2) };
    assert!(!params.is_tree_mode());
    params.debug_opts = Some(DebugOpts::Exec);
    assert!(!params.is_tree_mode());
    params.debug_opts = Some(DebugOpts::Tree);
    assert!(params.is_tree_mode());
}

#[test]
fn the_switch_for_never_wins_over_follow_which_wins_over_command_line_only() {
    assert_eq!(SymLinkSetting::from_flags(false, false, false), SymLinkSetting::Never);
    assert_eq!(SymLinkSetting::from_flags(false, false, true), SymLinkSetting::OnlyCommandLineArgs);
    assert_eq!(SymLinkSetting::from_flags(false, true, false), SymLinkSetting::Follow);
    assert_eq!(SymLinkSetting::from_flags(false, true, true), SymLinkSetting::Follow);
    assert_eq!(SymLinkSetting::from_flags(true, false, false), SymLinkSetting::Never);
    assert_eq!(SymLinkSetting::from_flags(true, false, true), SymLinkSetting::Never);
    assert_eq!(SymLinkSetting::from_flags(true, true, false), SymLinkSetting::Never);
    assert_eq!(SymLinkSetting::from_flags(true, true, true), SymLinkSetting::Never);
}

#[test]
fn diagnostics_are_known_by_name() {
    assert_eq!(DebugOpts::parse("exec"), Ok(DebugOpts::Exec));
    assert_eq!(DebugOpts::parse("opt"), Ok(DebugOpts::Opt));
    assert_eq!(DebugOpts::parse("rates"), Ok(DebugOpts::Rates));
    assert_eq!(DebugOpts::parse("search"), Ok(DebugOpts::Search));
    assert_eq!(DebugOpts::parse("stat"), Ok(DebugOpts::Stat));
    assert_eq!(DebugOpts::parse("tree"), Ok(DebugOpts::Tree));
    assert_eq!(DebugOpts::parse("all"), Ok(DebugOpts::All));
    assert_eq!(DebugOpts::parse("help"), Ok(DebugOpts::Help));
    assert_eq!(DebugOpts::parse("Exec"), Err(ConfigError::UnknownDebugOption));
    assert_eq!(DebugOpts::parse(""), Err(ConfigError::UnknownDebugOption));
    assert_eq!(DebugOpts::parse("trees"), Err(ConfigError::UnknownDebugOption));
}

#[test]
fn an_optimisation_level_is_at_most_three() {
    for level in 0..=3 {
        let params = Params::new(SymLinkSetting::Follow, Some(DebugOpts::Stat), Some(level)).unwrap();
        assert_eq!(params.optimisation_level, Some(level));
        assert_eq!(params.symlink_setting, SymLinkSetting::Follow);
        assert_eq!(params.debug_opts, Some(DebugOpts::Stat));
    }
    let params = Params::new(SymLinkSetting::Never, None, None).unwrap();
    assert_eq!(params.optimisation_level, None);
    assert_eq!(params.debug_opts, None);
    for level in [4, 5, 255] {
        let refused = Params::new(SymLinkSetting::Never, None, Some(level));
        assert_eq!(refused.unwrap_err(), ConfigError::InvalidOptimisationLevel);
    }
}

#[test]
fn each_type_character_names_one_type() {
    assert_eq!(FileKind::from_type_char('b'), Some(FileKind::BlockDevice));
    assert_eq!(FileKind::from_type_char('c'), Some(FileKind::CharDevice));
    assert_eq!(FileKind::from_type_char('d'), Some(FileKind::Directory));
    assert_eq!(FileKind::from_type_char('f'), Some(FileKind::File));
    assert_eq!(FileKind::from_type_char('p'), Some(FileKind::Fifo));
    assert_eq!(FileKind::from_type_char('l'), Some(FileKind::Symlink));
    assert_eq!(FileKind::from_type_char('s'), Some(FileKind::Socket));
    assert_eq!(FileKind::from_type_char('x'), None);
    assert_eq!(Node::File.file_kind(), FileKind::File);
    assert_eq!(Node::Directory(Listing::Failed).file_kind(), FileKind::Directory);
    assert_eq!(Node::Symlink(LinkTarget::Broken).file_kind(), FileKind::Symlink);
    assert_eq!(Node::Unknown.file_kind(), FileKind::Unknown);
    assert_eq!(Node::Socket.file_kind(), FileKind::Socket);
    assert_eq!(Node::Fifo.file_kind(), FileKind::Fifo);
    assert_eq!(Node::BlockDevice.file_kind(), FileKind::BlockDevice);
    assert_eq!(Node::CharDevice.file_kind(), FileKind::CharDevice);
}

#[test]
fn a_type_mask_asks_for_every_type_it_names() {
    let never = SymLinkSetting::Never;
    assert!(check_mask("f", FileKind::File, never));
    assert!(check_mask("ff", FileKind::File, never));
    assert!(!check_mask("d", FileKind::File, never));
    assert!(!check_mask("bcf", FileKind::File, never));
    assert!(!check_mask("fd", FileKind::Directory, never));
    assert!(check_mask("", FileKind::Socket, never));
    assert!(check_mask("xyz", FileKind::Fifo, never));
    assert!(check_mask("xpz", FileKind::Fifo, never));
    assert!(!check_mask("xpz", FileKind::File, never));
    assert!(check_mask("l", FileKind::Symlink, never));
    assert!(check_mask("l", FileKind::Symlink, SymLinkSetting::OnlyCommandLineArgs));
    assert!(!check_mask("l", FileKind::Symlink, SymLinkSetting::Follow));
    assert!(!check_mask("l", FileKind::File, never));
    assert!(check_mask("f", FileKind::File, SymLinkSetting::Follow));
}

#[test]
fn tests_are_evaluated_on_name_and_type() {
    let never = SymLinkSetting::Never;
    let name = Test::Name("a.txt".to_string());
    assert_eq!(name.validate(), Ok(()));
    assert_eq!(name.evaluate("a.txt", FileKind::Directory, never), Ok(true));
    assert_eq!(name.evaluate("a.tx", FileKind::File, never), Ok(false));
    assert_eq!(name.evaluate("xa.txt", FileKind::File, never), Ok(false));
    let types = Test::Types("d".to_string());
    assert_eq!(types.validate(), Ok(()));
    assert_eq!(types.evaluate("a.txt", FileKind::Directory, never), Ok(true));
    assert_eq!(types.evaluate("a.txt", FileKind::File, never), Ok(false));
    let pattern = Test::Regex("^a.*t$".to_string());
    assert_eq!(pattern.validate(), Ok(()));
    assert_eq!(pattern.evaluate("a.txt", FileKind::File, never), Ok(true));
    assert_eq!(pattern.evaluate("b.txt", FileKind::File, never), Ok(false));
    assert_eq!(Test::Regex("x".to_string()).evaluate("a.txt", FileKind::File, never), Ok(true));
    let broken = Test::Regex("a(".to_string());
    assert_eq!(broken.validate(), Err(SearchError::InvalidPattern));
    assert_eq!(broken.evaluate("a(", FileKind::File, never), Err(SearchError::InvalidPattern));
    assert_eq!(format!("{:?}", broken.clone()), format!("{:?}", broken));
}

#[test]
fn every_error_of_the_pattern_compiler_is_an_invalid_pattern() {
    let refused = regex::Regex::new("a(").map(|compiled| compiled.as_str().len());
    assert_eq!(SearchError::from_regex(refused), Err(SearchError::InvalidPattern));
    let too_big = regex::Regex::new(r"\w{1000}{1000}").map(|compiled| compiled.as_str().len());
    assert_eq!(SearchError::from_regex(too_big), Err(SearchError::InvalidPattern));
    let fine = regex::Regex::new("a+").map(|compiled| compiled.as_str().len());
    assert_eq!(SearchError::from_regex(fine), Ok(2));
}

fn sample() -> TestLogger {
    let mut logger = TestLogger::new();
    logger.log(Line::new(Message::Standard("/tmp/a".to_string())));
    logger.log(Line::new_with_fd(Message::Standard("oops".to_string()), FileDescriptor::StdErr));
    logger.log(Line::new(Message::Tree("└── b".to_string())));
    logger.log(Line { message: Message::Standard("nowhere".to_string()), file_descriptor: None });
    logger.log(Line::new(Message::Standard("/tmp/c".to_string())));
    logger
}

#[test]
fn a_test_logger_keeps_its_lines_in_order() {
    let empty = TestLogger::new();
    assert!(empty.get_logs().is_empty());
    let logger = sample();
    let all: Vec<&str> =
        logger.get_logs().iter().map(|line| line.message.get_contained_message().as_str()).collect();
    assert_eq!(all, vec!["/tmp/a", "oops", "└── b", "nowhere", "/tmp/c"]);
}

#[test]
fn a_test_logger_sorts_its_lines_by_stream() {
    let logger = sample();
    let stdout: Vec<&str> = logger
        .get_logs_by_file_descriptor(FileDescriptor::StdOut)
        .iter()
        .map(|line| line.message.get_contained_message().as_str())
        .collect();
    assert_eq!(stdout, vec!["/tmp/a", "└── b", "/tmp/c"]);
    let stderr = logger.get_logs_by_file_descriptor(FileDescriptor::StdErr);
    assert_eq!(stderr.len(), 1);
    assert_eq!(stderr[0].message, Message::Standard("oops".to_string()));
    assert!(logger.get_logs_by_file_descriptor(FileDescriptor::StdIn).is_empty());
}

#[test]
fn a_test_logger_finds_text_in_lines() {
    let logger = sample();
    let find = |wanted: &str| {
        TestLogger::get_lines_from_logs_where_logs_contains_provided_value(
            logger.get_logs(),
            wanted.to_string(),
        )
    };
    assert!(find("tmp/c"));
    assert!(find("oops"));
    assert!(find("── b"));
    assert!(!find("/tmp/d"));
    assert!(!TestLogger::get_lines_from_logs_where_logs_contains_provided_value(
        logger.get_logs_by_file_descriptor(FileDescriptor::StdOut),
        "oops".to_string(),
    ));
    assert!(!TestLogger::get_lines_from_logs_where_logs_contains_provided_value(
        Vec::new(),
        "".to_string(),
    ));
}

#[test]
fn a_test_logger_prints_its_plain_lines() {
    assert_eq!(
        sample().print(),
        vec!["print: /tmp/a", "print: oops", "print: nowhere", "print: /tmp/c"]
    );
    assert!(TestLogger::new().print().is_empty());
}
