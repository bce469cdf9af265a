use vstd::prelude::*;
use crate::line::{FileDescriptor, Line};
use crate::predicate::{Test, TestView};
use crate::searcher::{lemma_lines_of_concat, lines_of, Finding, Searcher};
use crate::text::equal;
use crate::tree::Listing;

verus! {

/// Why an expression cannot be evaluated.
#[derive(Clone, Copy, Debug, PartialEq, Eq, Structural)]
pub enum ExprError {
    /// A `)` stands where no group is open.
    UnexpectedClose,
    /// A `(` has no `)` that closes it.
    UnclosedGroup,
    /// `--and`, `--or`, `--not`, `--name` or `--type` is the last token.
    MissingOperand,
}

/// What a token of an expression is.
#[derive(Clone, Copy, Debug, PartialEq, Eq, Structural)]
pub enum Token {
    Open,
    Close,
    True,
    False,
    And,
    Or,
    Not,
    Name,
    Type,
    /// Any other string. Where it is not the operand of a test, it is passed over.
    Other,
}

/// What the string `token` is, as a token.
pub open spec fn classify(token: Seq<char>) -> Token {
    if token == "("@ {
        Token::Open
    } else if token == ")"@ {
        Token::Close
    } else if token == "--true"@ {
        Token::True
    } else if token == "--false"@ {
        Token::False
    } else if token == "--and"@ {
        Token::And
    } else if token == "--or"@ {
        Token::Or
    } else if token == "--not"@ {
        Token::Not
    } else if token == "--name"@ {
        Token::Name
    } else if token == "--type"@ {
        Token::Type
    } else {
        Token::Other
    }
}

/// Computes [`classify`].
pub fn token_of(token: &str) -> (kind: Token)
    ensures
        kind == classify(token@),
{
    if equal(token, "(") {
        Token::Open
    } else if equal(token, ")") {
        Token::Close
    } else if equal(token, "--true") {
        Token::True
    } else if equal(token, "--false") {
        Token::False
    } else if equal(token, "--and") {
        Token::And
    } else if equal(token, "--or") {
        Token::Or
    } else if equal(token, "--not") {
        Token::Not
    } else if equal(token, "--name") {
        Token::Name
    } else if equal(token, "--type") {
        Token::Type
    } else {
        Token::Other
    }
}

/// Where the `)` stands that closes the innermost of `open` open groups, for a scan
/// that has reached position `from`. Every token counts, the operand of a test too.
pub open spec fn closing(tokens: Seq<Seq<char>>, from: int, open: nat) -> Option<int>
    decreases tokens.len() - from,
{
    if from < 0 || from >= tokens.len() {
        None
    } else {
        match classify(tokens[from]) {
            Token::Open => closing(tokens, from + 1, open + 1),
            Token::Close => if open <= 1 {
                Some(from)
            } else {
                closing(tokens, from + 1, (open - 1) as nat)
            },
            _ => closing(tokens, from + 1, open),
        }
    }
}

/// For tokens that begin with `(`: where the `)` stands that closes it.
pub open spec fn group_end(tokens: Seq<Seq<char>>) -> Option<int> {
    match closing(tokens, 1, 1) {
        Some(end) => if 1 <= end < tokens.len() {
            Some(end)
        } else {
            None
        },
        None => None,
    }
}

/// The first thing wrong with an expression, in the order of its tokens; `None` where
/// the expression can be evaluated. Every token is looked at: one that the
/// evaluation would pass over, and one that stands as the operand of a test.
pub open spec fn syntax_error(tokens: Seq<Seq<char>>) -> Option<ExprError>
    decreases tokens.len(),
{
    if tokens.len() == 0 {
        None
    } else {
        match classify(tokens[0]) {
            Token::Close => Some(ExprError::UnexpectedClose),
            Token::Open => match group_end(tokens) {
                None => Some(ExprError::UnclosedGroup),
                Some(end) => match syntax_error(tokens.subrange(1, end)) {
                    Some(error) => Some(error),
                    None => syntax_error(tokens.skip(end + 1)),
                },
            },
            Token::And | Token::Or | Token::Not | Token::Name | Token::Type => if tokens.len()
                == 1 {
                Some(ExprError::MissingOperand)
            } else {
                syntax_error(tokens.skip(1))
            },
            _ => syntax_error(tokens.skip(1)),
        }
    }
}

/// What evaluating an expression gives: its truth value, and what the walks made on
/// the way wrote.
pub struct Outcome {
    pub value: bool,
    pub findings: Seq<Finding>,
}

/// Whether a walk reported anything on standard output.
pub open spec fn any_reported(findings: Seq<Finding>) -> bool {
    exists|k: int|
        0 <= k < findings.len() && (#[trigger] findings[k]).line.goes_to(FileDescriptor::StdOut)
}

/// The walk that a test of an expression stands for: from the starting path of
/// `searcher`, whose listing is `root`.
pub open spec fn leaf(searcher: Searcher, root: Listing, test: TestView) -> Seq<Finding> {
    searcher.walk(root, searcher.starting_path@, test, Seq::empty(), 0)
}

/// What evaluating `tokens` gives, for a scan that carries the value `carried` into
/// them.
///
/// `--true` and `--false` set the carried value. A test walks the tree for the token
/// that follows it and carries on, at that token, with whether anything was
/// reported: the operand is read as a token in its turn. A group is evaluated on
/// its own and its value carried on. `--and` and `--or` stop the scan with the carried value where that
/// already decides, and else give the value of all that follows; `--not` gives the
/// opposite of the value of all that follows. What is carried at the end is the
/// value.
pub open spec fn run(
    searcher: Searcher,
    root: Listing,
    tokens: Seq<Seq<char>>,
    carried: bool,
) -> Outcome
    decreases tokens.len(),
{
    let stop = Outcome { value: carried, findings: Seq::empty() };
    if tokens.len() == 0 {
        stop
    } else {
        match classify(tokens[0]) {
            Token::Open => match group_end(tokens) {
                None => stop,
                Some(end) => {
                    let inner = run(searcher, root, tokens.subrange(1, end), false);
                    let rest = run(searcher, root, tokens.skip(end + 1), inner.value);
                    Outcome { value: rest.value, findings: inner.findings + rest.findings }
                },
            },
            Token::Close => stop,
            Token::True => run(searcher, root, tokens.skip(1), true),
            Token::False => run(searcher, root, tokens.skip(1), false),
            Token::Or => if carried {
                stop
            } else {
                run(searcher, root, tokens.skip(1), false)
            },
            Token::And => if !carried {
                stop
            } else {
                run(searcher, root, tokens.skip(1), false)
            },
            Token::Not => {
                let rest = run(searcher, root, tokens.skip(1), false);
                Outcome { value: !rest.value, findings: rest.findings }
            },
            Token::Name => if tokens.len() == 1 {
                stop
            } else {
                let found = leaf(searcher, root, TestView::Name(tokens[1]));
                let rest = run(searcher, root, tokens.skip(1), any_reported(found));
                Outcome { value: rest.value, findings: found + rest.findings }
            },
            Token::Type => if tokens.len() == 1 {
                stop
            } else {
                let found = leaf(searcher, root, TestView::Types(tokens[1]));
                let rest = run(searcher, root, tokens.skip(1), any_reported(found));
                Outcome { value: rest.value, findings: found + rest.findings }
            },
            Token::Other => run(searcher, root, tokens.skip(1), carried),
        }
    }
}

/// The value of an expression and the lines its walks wrote, in the order written.
#[derive(Debug)]
pub struct Evaluation {
    pub result: bool,
    pub lines: Vec<Line>,
}

/// The tokens of `tokens` from position `lo` up to, not including, position `hi`.
pub open spec fn window(tokens: Vec<String>, lo: int, hi: int) -> Seq<Seq<char>> {
    tokens.deep_view().subrange(lo, hi)
}

/// Whether a line of `lines` goes to standard output.
fn any_on_stdout(lines: &Vec<Line>) -> (any: bool)
    ensures
        any == exists|k: int|
            0 <= k < lines.len() && (#[trigger] lines.deep_view()[k]).goes_to(FileDescriptor::StdOut),
{
    let mut at: usize = 0;
    while at < lines.len()
        invariant
            at <= lines.len(),
            forall|k: int|
                0 <= k < at ==> !(#[trigger] lines.deep_view()[k]).goes_to(FileDescriptor::StdOut),
        decreases lines.len() - at,
    {
        let on_stdout = match lines[at].file_descriptor {
            Some(FileDescriptor::StdOut) => true,
            _ => false,
        };
        if on_stdout {
            assert(lines.deep_view()[at as int].goes_to(FileDescriptor::StdOut));
            return true;
        }
        at += 1;
    }
    false
}

/// For a window that begins with `(`: finds the `)` that closes it.
fn find_closing(tokens: &Vec<String>, lo: usize, hi: usize) -> (end: Option<usize>)
    requires
        lo < hi <= tokens.len(),
    ensures
        match end {
            Some(end) => lo < end < hi && group_end(window(*tokens, lo as int, hi as int)) == Some(
                end - lo,
            ),
            None => group_end(window(*tokens, lo as int, hi as int)) is None,
        },
{
    let ghost part = window(*tokens, lo as int, hi as int);
    let mut at: usize = lo + 1;
    let mut open: usize = 1;
    while at < hi
        invariant
            lo < at <= hi <= tokens.len(),
            1 <= open <= at - lo,
            part == window(*tokens, lo as int, hi as int),
            closing(part, 1, 1) == closing(part, at - lo, open as nat),
        decreases hi - at,
    {
        match token_of(tokens[at].as_str()) {
            Token::Open => {
                open += 1;
                at += 1;
            },
            Token::Close => {
                if open <= 1 {
                    return Some(at);
                }
                open -= 1;
                at += 1;
            },
            _ => {
                at += 1;
            },
        }
    }
    None
}

/// Looks for the first thing wrong with the tokens of a window.
fn check(tokens: &Vec<String>, lo: usize, hi: usize) -> (outcome: Result<(), ExprError>)
    requires
        lo <= hi <= tokens.len(),
    ensures
        match outcome {
            Ok(_) => syntax_error(window(*tokens, lo as int, hi as int)) is None,
            Err(error) => syntax_error(window(*tokens, lo as int, hi as int)) == Some(error),
        },
    decreases hi - lo,
{
    if lo >= hi {
        return Ok(());
    }
    let ghost part = window(*tokens, lo as int, hi as int);
    assert(part.skip(1) =~= window(*tokens, lo + 1, hi as int));
    match token_of(tokens[lo].as_str()) {
        Token::Close => Err(ExprError::UnexpectedClose),
        Token::Open => match find_closing(tokens, lo, hi) {
            None => Err(ExprError::UnclosedGroup),
            Some(end) => {
                assert(part.subrange(1, end - lo) =~= window(*tokens, lo + 1, end as int));
                assert(part.skip(end - lo + 1) =~= window(*tokens, end + 1, hi as int));
                match check(tokens, lo + 1, end) {
                    Err(error) => Err(error),
                    Ok(_) => check(tokens, end + 1, hi),
                }
            },
        },
        Token::And | Token::Or | Token::Not | Token::Name | Token::Type => {
            if hi - lo == 1 {
                Err(ExprError::MissingOperand)
            } else {
                check(tokens, lo + 1, hi)
            }
        },
        _ => check(tokens, lo + 1, hi),
    }
}

/// Makes the walk that a test stands for, adds its lines to `lines`, and says whether
/// anything was reported.
fn run_leaf(searcher: &Searcher, root: &Listing, test: &Test, lines: &mut Vec<Line>) -> (reported:
    bool)
    requires
        test@ is Name || test@ is Types,
    ensures
        reported == any_reported(leaf(*searcher, *root, test@)),
        final(lines).deep_view() == old(lines).deep_view() + lines_of(
            leaf(*searcher, *root, test@),
        ),
{
    let ghost found = leaf(*searcher, *root, test@);
    match searcher.search_directory_path(root, searcher.starting_path.as_str(), test, None, None) {
        Ok(mut written) => {
            let reported = any_on_stdout(&written);
            proof {
                assert(written.deep_view() == lines_of(found));
                if any_reported(found) {
                    let k = choose|k: int|
                        0 <= k < found.len() && (#[trigger] found[k]).line.goes_to(
                            FileDescriptor::StdOut,
                        );
                    assert(written.deep_view()[k].goes_to(FileDescriptor::StdOut));
                }
            }
            lines.append(&mut written);
            reported
        },
        Err(_) => false,
    }
}

/// Evaluates the tokens of a window, adding to `lines` what the walks write.
fn run_window(
    tokens: &Vec<String>,
    lo: usize,
    hi: usize,
    carried: bool,
    searcher: &Searcher,
    root: &Listing,
    lines: &mut Vec<Line>,
) -> (value: bool)
    requires
        lo <= hi <= tokens.len(),
        syntax_error(window(*tokens, lo as int, hi as int)) is None,
    ensures
        value == run(*searcher, *root, window(*tokens, lo as int, hi as int), carried).value,
        final(lines).deep_view() == old(lines).deep_view() + lines_of(
            run(*searcher, *root, window(*tokens, lo as int, hi as int), carried).findings,
        ),
    decreases hi - lo,
{
    let ghost part = window(*tokens, lo as int, hi as int);
    if lo >= hi {
        return carried;
    }
    assert(part.skip(1) =~= window(*tokens, lo + 1, hi as int));
    match token_of(tokens[lo].as_str()) {
        Token::Open => match find_closing(tokens, lo, hi) {
            Some(end) => {
                assert(part.subrange(1, end - lo) =~= window(*tokens, lo + 1, end as int));
                assert(part.skip(end - lo + 1) =~= window(*tokens, end + 1, hi as int));
                let inner = run_window(tokens, lo + 1, end, false, searcher, root, lines);
                let value = run_window(tokens, end + 1, hi, inner, searcher, root, lines);
                proof {
                    let first = run(*searcher, *root, window(*tokens, lo + 1, end as int), false);
                    let second = run(*searcher, *root, window(*tokens, end + 1, hi as int), inner);
                    lemma_lines_of_concat(first.findings, second.findings);
                }
                value
            },
            None => carried,
        },
        Token::Close => carried,
        Token::True => run_window(tokens, lo + 1, hi, true, searcher, root, lines),
        Token::False => run_window(tokens, lo + 1, hi, false, searcher, root, lines),
        Token::Or => {
            if carried {
                true
            } else {
                run_window(tokens, lo + 1, hi, false, searcher, root, lines)
            }
        },
        Token::And => {
            if !carried {
                false
            } else {
                run_window(tokens, lo + 1, hi, false, searcher, root, lines)
            }
        },
        Token::Not => {
            let rest = run_window(tokens, lo + 1, hi, false, searcher, root, lines);
            !rest
        },
        Token::Name => {
            assert(part[1] == tokens[lo + 1]@);
            let test = Test::Name(tokens[lo + 1].clone());
            let reported = run_leaf(searcher, root, &test, lines);
            let value = run_window(tokens, lo + 1, hi, reported, searcher, root, lines);
            proof {
                let found = leaf(*searcher, *root, test@);
                let rest = run(*searcher, *root, window(*tokens, lo + 1, hi as int), reported);
                lemma_lines_of_concat(found, rest.findings);
            }
            value
        },
        Token::Type => {
            assert(part[1] == tokens[lo + 1]@);
            let test = Test::Types(tokens[lo + 1].clone());
            let reported = run_leaf(searcher, root, &test, lines);
            let value = run_window(tokens, lo + 1, hi, reported, searcher, root, lines);
            proof {
                let found = leaf(*searcher, *root, test@);
                let rest = run(*searcher, *root, window(*tokens, lo + 1, hi as int), reported);
                lemma_lines_of_concat(found, rest.findings);
            }
            value
        },
        Token::Other => run_window(tokens, lo + 1, hi, carried, searcher, root, lines),
    }
}

/// Looks for the first thing wrong with an expression, without evaluating anything:
/// see [`syntax_error`]. No tree is needed for it.
pub fn validate(tokens: &Vec<String>) -> (outcome: Result<(), ExprError>)
    ensures
        match outcome {
            Ok(_) => syntax_error(tokens.deep_view()) is None,
            Err(error) => syntax_error(tokens.deep_view()) == Some(error),
        },
{
    assert(window(*tokens, 0, tokens.len() as int) =~= tokens.deep_view());
    check(tokens, 0, tokens.len())
}

/// Evaluates an expression against the tree whose top listing is `root`, the listing
/// of the starting path of `searcher`.
///
/// The whole expression is checked before any walk is made: the result is an error
/// exactly when [`syntax_error`] finds one, and it is that one. Otherwise the result
/// holds the value of the expression and the lines that its walks wrote, walk after
/// walk, as [`run`] gives them.
pub fn eval(tokens: Vec<String>, searcher: &Searcher, root: &Listing) -> (outcome: Result<
    Evaluation,
    ExprError,
>)
    ensures
        match outcome {
            Err(error) => syntax_error(tokens.deep_view()) == Some(error),
            Ok(evaluation) => {
                &&& syntax_error(tokens.deep_view()) is None
                &&& evaluation.result == run(*searcher, *root, tokens.deep_view(), false).value
                &&& evaluation.lines.deep_view() == lines_of(
                    run(*searcher, *root, tokens.deep_view(), false).findings,
                )
            },
        },
{
    let hi = tokens.len();
    assert(window(tokens, 0, hi as int) =~= tokens.deep_view());
    match validate(&tokens) {
        Err(error) => Err(error),
        Ok(_) => {
            let mut lines: Vec<Line> = Vec::new();
            let result = run_window(&tokens, 0, hi, false, searcher, root, &mut lines);
            Ok(Evaluation { result, lines })
        },
    }
}

} // verus!
