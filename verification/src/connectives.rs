use vstd::prelude::*;
use crate::expression::{classify, closing, group_end, run, syntax_error, Token};
use crate::searcher::{Finding, Searcher};
use crate::tree::Listing;

verus! {

/// The token that stands for the truth value `value`.
pub open spec fn literal(value: bool) -> Seq<char> {
    if value {
        "--true"@
    } else {
        "--false"@
    }
}

/// Each word of the expression language is the token it is written as.
pub proof fn lemma_words()
    ensures
        classify("("@) == Token::Open,
        classify(")"@) == Token::Close,
        classify("--true"@) == Token::True,
        classify("--false"@) == Token::False,
        classify("--and"@) == Token::And,
        classify("--or"@) == Token::Or,
        classify("--not"@) == Token::Not,
        classify("--name"@) == Token::Name,
        classify("--type"@) == Token::Type,
        forall|value: bool|
            classify(#[trigger] literal(value)) == if value {
                Token::True
            } else {
                Token::False
            },
{
    reveal_strlit("(");
    reveal_strlit(")");
    reveal_strlit("--true");
    reveal_strlit("--false");
    reveal_strlit("--and");
    reveal_strlit("--or");
    reveal_strlit("--not");
    reveal_strlit("--name");
    reveal_strlit("--type");
    assert("("@.len() == 1 && ")"@.len() == 1);
    assert("--true"@.len() == 6 && "--false"@.len() == 7);
    assert("--and"@.len() == 5 && "--or"@.len() == 4 && "--not"@.len() == 5);
    assert("--name"@.len() == 6 && "--type"@.len() == 6);
    assert("("@[0] != ")"@[0]);
    assert("--and"@[2] != "--not"@[2]);
    assert("--true"@[2] != "--name"@[2]);
    assert("--true"@[3] != "--type"@[3]);
    assert("--name"@[2] != "--type"@[2]);
}

/// A truth value alone evaluates to itself, and no walk is made.
pub proof fn lemma_literal(searcher: Searcher, root: Listing, value: bool, carried: bool)
    ensures
        syntax_error(seq![literal(value)]) is None,
        run(searcher, root, seq![literal(value)], carried).value == value,
        run(searcher, root, seq![literal(value)], carried).findings == Seq::<Finding>::empty(),
{
    lemma_words();
    let tokens = seq![literal(value)];
    assert(tokens.skip(1).len() == 0);
    reveal_with_fuel(run, 2);
    reveal_with_fuel(syntax_error, 2);
}

/// `--not` gives the opposite of what follows it, whatever was carried into it, and
/// writes what the walks of what follows write.
pub proof fn lemma_not(searcher: Searcher, root: Listing, rest: Seq<Seq<char>>, carried: bool)
    requires
        rest.len() > 0,
    ensures
        syntax_error(seq!["--not"@] + rest) == syntax_error(rest),
        run(searcher, root, seq!["--not"@] + rest, carried).value == !run(
            searcher,
            root,
            rest,
            false,
        ).value,
        run(searcher, root, seq!["--not"@] + rest, carried).findings == run(
            searcher,
            root,
            rest,
            false,
        ).findings,
{
    lemma_words();
    let tokens = seq!["--not"@] + rest;
    assert(tokens.skip(1) =~= rest);
}

/// A truth value, `--and`, and more: false if the value is false, and then nothing
/// that follows is evaluated and no walk is made; else what follows gives.
pub proof fn lemma_and(
    searcher: Searcher,
    root: Listing,
    left: bool,
    rest: Seq<Seq<char>>,
    carried: bool,
)
    requires
        rest.len() > 0,
    ensures
        syntax_error(seq![literal(left), "--and"@] + rest) == syntax_error(rest),
        run(searcher, root, seq![literal(left), "--and"@] + rest, carried).value == (left && run(
            searcher,
            root,
            rest,
            false,
        ).value),
        run(searcher, root, seq![literal(left), "--and"@] + rest, carried).findings == if left {
            run(searcher, root, rest, false).findings
        } else {
            Seq::<Finding>::empty()
        },
{
    lemma_words();
    let tokens = seq![literal(left), "--and"@] + rest;
    assert(tokens.skip(1) =~= seq!["--and"@] + rest);
    assert(tokens.skip(1).skip(1) =~= rest);
    reveal_with_fuel(run, 2);
    reveal_with_fuel(syntax_error, 2);
}

/// A truth value, `--or`, and more: true if the value is true, and then nothing that
/// follows is evaluated and no walk is made; else what follows gives.
pub proof fn lemma_or(
    searcher: Searcher,
    root: Listing,
    left: bool,
    rest: Seq<Seq<char>>,
    carried: bool,
)
    requires
        rest.len() > 0,
    ensures
        syntax_error(seq![literal(left), "--or"@] + rest) == syntax_error(rest),
        run(searcher, root, seq![literal(left), "--or"@] + rest, carried).value == (left || run(
            searcher,
            root,
            rest,
            false,
        ).value),
        run(searcher, root, seq![literal(left), "--or"@] + rest, carried).findings == if left {
            Seq::<Finding>::empty()
        } else {
            run(searcher, root, rest, false).findings
        },
{
    lemma_words();
    let tokens = seq![literal(left), "--or"@] + rest;
    assert(tokens.skip(1) =~= seq!["--or"@] + rest);
    assert(tokens.skip(1).skip(1) =~= rest);
    reveal_with_fuel(run, 2);
    reveal_with_fuel(syntax_error, 2);
}

/// Over truth values `--and` is conjunction.
pub proof fn lemma_and_truth_table(searcher: Searcher, root: Listing, left: bool, right: bool)
    ensures
        syntax_error(seq![literal(left), "--and"@, literal(right)]) is None,
        run(searcher, root, seq![literal(left), "--and"@, literal(right)], false).value == (left
            && right),
{
    lemma_and(searcher, root, left, seq![literal(right)], false);
    lemma_literal(searcher, root, right, false);
    assert(seq![literal(left), "--and"@, literal(right)] =~= seq![literal(left), "--and"@]
        + seq![literal(right)]);
}

/// Over truth values `--or` is disjunction.
pub proof fn lemma_or_truth_table(searcher: Searcher, root: Listing, left: bool, right: bool)
    ensures
        syntax_error(seq![literal(left), "--or"@, literal(right)]) is None,
        run(searcher, root, seq![literal(left), "--or"@, literal(right)], false).value == (left
            || right),
{
    lemma_or(searcher, root, left, seq![literal(right)], false);
    lemma_literal(searcher, root, right, false);
    assert(seq![literal(left), "--or"@, literal(right)] =~= seq![literal(left), "--or"@]
        + seq![literal(right)]);
}

/// Over a truth value `--not` is negation.
pub proof fn lemma_not_truth_table(searcher: Searcher, root: Listing, operand: bool)
    ensures
        syntax_error(seq!["--not"@, literal(operand)]) is None,
        run(searcher, root, seq!["--not"@, literal(operand)], false).value == !operand,
{
    lemma_not(searcher, root, seq![literal(operand)], false);
    lemma_literal(searcher, root, operand, false);
    assert(seq!["--not"@, literal(operand)] =~= seq!["--not"@] + seq![literal(operand)]);
}

/// Whether a token is a word that needs something after it.
pub open spec fn needs_operand(token: Token) -> bool {
    token == Token::And || token == Token::Or || token == Token::Not || token == Token::Name
        || token == Token::Type
}

/// How many groups stand open after the first `upto` tokens: the `(` among them less
/// the `)`.
pub open spec fn open_groups(tokens: Seq<Seq<char>>, upto: int) -> int
    decreases upto,
{
    if upto <= 0 || upto > tokens.len() {
        0
    } else {
        open_groups(tokens, upto - 1) + match classify(tokens[upto - 1]) {
            Token::Open => 1int,
            Token::Close => -1int,
            _ => 0int,
        }
    }
}

/// Where a scan finds the `)` that closes a group, that token is a `)`, the groups
/// opened since the scan began are closed there, and none of them was closed
/// before.
proof fn lemma_closing(tokens: Seq<Seq<char>>, from: int, open: nat)
    requires
        0 <= from,
        open >= 1,
        closing(tokens, from, open) is Some,
    ensures
        from <= closing(tokens, from, open)->Some_0 < tokens.len(),
        classify(tokens[closing(tokens, from, open)->Some_0]) == Token::Close,
        open_groups(tokens, closing(tokens, from, open)->Some_0 + 1) - open_groups(tokens, from)
            + open == 0,
        forall|at: int|
            from <= at <= closing(tokens, from, open)->Some_0 ==> open_groups(tokens, at)
                - open_groups(tokens, from) + open >= 1,
    decreases tokens.len() - from,
{
    let end = closing(tokens, from, open)->Some_0;
    match classify(tokens[from]) {
        Token::Open => {
            lemma_closing(tokens, from + 1, open + 1);
        },
        Token::Close => {
            if open > 1 {
                lemma_closing(tokens, from + 1, (open - 1) as nat);
            }
        },
        _ => {
            lemma_closing(tokens, from + 1, open);
        },
    }
}

/// Counting open groups in what follows a position is counting from that position.
proof fn lemma_open_groups_skip(tokens: Seq<Seq<char>>, cut: int, upto: int)
    requires
        0 <= cut <= tokens.len(),
        0 <= upto <= tokens.len() - cut,
    ensures
        open_groups(tokens.skip(cut), upto) == open_groups(tokens, cut + upto) - open_groups(
            tokens,
            cut,
        ),
    decreases upto,
{
    if upto > 0 {
        lemma_open_groups_skip(tokens, cut, upto - 1);
        assert(tokens.skip(cut)[upto - 1] == tokens[cut + upto - 1]);
    }
}

/// An expression whose last token needs an operand is refused.
pub proof fn lemma_last_word_needs_operand(tokens: Seq<Seq<char>>)
    requires
        tokens.len() > 0,
        needs_operand(classify(tokens.last())),
    ensures
        syntax_error(tokens) is Some,
    decreases tokens.len(),
{
    match classify(tokens[0]) {
        Token::Close => {},
        Token::Open => {
            if let Some(end) = group_end(tokens) {
                lemma_closing(tokens, 1, 1);
                let rest = tokens.skip(end + 1);
                if syntax_error(tokens.subrange(1, end)) is None {
                    assert(rest.len() > 0);
                    assert(rest.last() == tokens.last());
                    lemma_last_word_needs_operand(rest);
                }
            }
        },
        _ => {
            if tokens.len() > 1 {
                assert(tokens.skip(1).last() == tokens.last());
                lemma_last_word_needs_operand(tokens.skip(1));
            }
        },
    }
}

/// An expression with a `(` after which no `)` stands is refused.
pub proof fn lemma_unclosed_group(tokens: Seq<Seq<char>>, at: int)
    requires
        0 <= at < tokens.len(),
        classify(tokens[at]) == Token::Open,
        forall|later: int| at < later < tokens.len() ==> classify(tokens[later]) != Token::Close,
    ensures
        syntax_error(tokens) is Some,
    decreases tokens.len(),
{
    match classify(tokens[0]) {
        Token::Close => {},
        Token::Open => {
            if let Some(end) = group_end(tokens) {
                lemma_closing(tokens, 1, 1);
                let rest = tokens.skip(end + 1);
                if syntax_error(tokens.subrange(1, end)) is None {
                    assert(at > end);
                    assert(rest[at - end - 1] == tokens[at]);
                    assert forall|later: int| at - end - 1 < later < rest.len() implies classify(
                        rest[later],
                    ) != Token::Close by {
                        assert(rest[later] == tokens[later + end + 1]);
                    }
                    lemma_unclosed_group(rest, at - end - 1);
                }
            }
        },
        _ => {
            if tokens.len() > 1 {
                let rest = tokens.skip(1);
                assert(rest[at - 1] == tokens[at]);
                assert forall|later: int| at - 1 < later < rest.len() implies classify(
                    rest[later],
                ) != Token::Close by {
                    assert(rest[later] == tokens[later + 1]);
                }
                lemma_unclosed_group(rest, at - 1);
            }
        },
    }
}

/// An expression with a `)` where no group stands open is refused.
pub proof fn lemma_stray_close(tokens: Seq<Seq<char>>, at: int)
    requires
        0 <= at < tokens.len(),
        classify(tokens[at]) == Token::Close,
        open_groups(tokens, at) <= 0,
    ensures
        syntax_error(tokens) is Some,
    decreases tokens.len(),
{
    match classify(tokens[0]) {
        Token::Close => {},
        Token::Open => {
            if let Some(end) = group_end(tokens) {
                lemma_closing(tokens, 1, 1);
                assert(open_groups(tokens, 1) == 1) by {
                    reveal_with_fuel(open_groups, 2);
                }
                let rest = tokens.skip(end + 1);
                if syntax_error(tokens.subrange(1, end)) is None {
                    assert(at > end);
                    lemma_open_groups_skip(tokens, end + 1, at - end - 1);
                    assert(rest[at - end - 1] == tokens[at]);
                    lemma_stray_close(rest, at - end - 1);
                }
            }
        },
        _ => {
            if tokens.len() > 1 {
                let rest = tokens.skip(1);
                assert(open_groups(tokens, 1) == 0) by {
                    reveal_with_fuel(open_groups, 2);
                }
                assert(at >= 1);
                lemma_open_groups_skip(tokens, 1, at - 1);
                assert(rest[at - 1] == tokens[at]);
                lemma_stray_close(rest, at - 1);
            }
        },
    }
}

} // verus!
