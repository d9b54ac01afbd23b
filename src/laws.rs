use vstd::prelude::*;

use crate::grammar::{
    block_end, in_class, is_word_start, lemma_step_advances, lex, lex_spans, line_at,
    newline_count, next_is, number_kind, run_end, scan, span_tokens, step, word_kind, Class, Step,
};
use crate::text::{alphabetic, numeric};
use crate::lexer::outcome_view;
use crate::token::{LexError, Token, TokenType, TokenView};

verus! {

/// Tokenizing keeps no state between calls: two results that `tokenize` may return
/// for the same input are the same.
pub proof fn lemma_tokenize_deterministic(
    input: Seq<char>,
    first: Result<Vec<Token>, LexError>,
    second: Result<Vec<Token>, LexError>,
)
    requires
        outcome_view(first) == lex(input),
        outcome_view(second) == lex(input),
    ensures
        outcome_view(first) == outcome_view(second),
{
}

/// Operators are read with maximal munch: `->`, `==`, `<=` and `>=` are single
/// tokens, and a `-`, `=`, `<` or `>` that does not start one of them is a token
/// of its own.
pub proof fn lemma_maximal_munch(code: Seq<char>, i: int)
    requires
        0 <= i < code.len(),
    ensures
        code[i] == '-' ==> step(code, i) == if next_is(code, i, '>') {
            Step::Emit { kind: TokenType::Arrow, value: seq![], next: i + 2 }
        } else {
            Step::Emit { kind: TokenType::Minus, value: seq![], next: i + 1 }
        },
        code[i] == '=' ==> step(code, i) == if next_is(code, i, '=') {
            Step::Emit { kind: TokenType::EqualsEquals, value: seq![], next: i + 2 }
        } else {
            Step::Emit { kind: TokenType::Equals, value: seq![], next: i + 1 }
        },
        code[i] == '<' ==> step(code, i) == if next_is(code, i, '=') {
            Step::Emit { kind: TokenType::LessEqual, value: seq![], next: i + 2 }
        } else {
            Step::Emit { kind: TokenType::Less, value: seq![], next: i + 1 }
        },
        code[i] == '>' ==> step(code, i) == if next_is(code, i, '=') {
            Step::Emit { kind: TokenType::GreaterEqual, value: seq![], next: i + 2 }
        } else {
            Step::Emit { kind: TokenType::Greater, value: seq![], next: i + 1 }
        },
{
}

/// Whether each located token of `spans` starts inside `code`, after the one
/// before it, on the line one more than the line feeds before its start.
pub open spec fn well_located(code: Seq<char>, spans: Seq<(int, TokenView)>) -> bool {
    &&& forall|k: int|
        0 <= k < spans.len() ==> 0 <= (#[trigger] spans[k]).0 < code.len() && spans[k].1.line
            == newline_count(code.take(spans[k].0)) + 1
    &&& forall|k: int| 0 < k < spans.len() ==> (#[trigger] spans[k - 1]).0 < spans[k].0
}

proof fn lemma_scan_well_located(code: Seq<char>, i: int, acc: Seq<(int, TokenView)>)
    requires
        0 <= i,
        well_located(code, acc),
        acc.len() > 0 ==> acc.last().0 < i,
        scan(code, i, acc) is Ok,
    ensures
        well_located(code, scan(code, i, acc)->Ok_0),
    decreases code.len() - i,
{
    if i < code.len() {
        lemma_step_advances(code, i);
        match step(code, i) {
            Step::Skip { next } => {
                lemma_scan_well_located(code, next, acc);
            },
            Step::Emit { kind, value, next } => {
                let t = TokenView { value, kind, line: newline_count(code.take(i)) + 1 };
                let acc2 = acc.push((i, t));
                assert forall|k: int| 0 < k < acc2.len() implies (#[trigger] acc2[k - 1]).0
                    < acc2[k].0 by {
                    if k < acc.len() {
                        assert(acc[k - 1] == acc2[k - 1]);
                    }
                }
                lemma_scan_well_located(code, next, acc2);
            },
            Step::Fail { .. } => {},
        }
    }
}

/// Line tracking: a token that `n` line feeds precede starts on line `n + 1`.
/// The tokens of `lex` are those of `lex_spans`, which locates each of them.
pub proof fn lemma_line_tracking(code: Seq<char>)
    requires
        lex(code) is Ok,
    ensures
        lex(code)->Ok_0 == span_tokens(lex_spans(code)->Ok_0),
        well_located(code, lex_spans(code)->Ok_0),
{
    lemma_scan_well_located(code, 0, seq![]);
}

/// An ASCII white-space character: space, tab, line feed, vertical tab, form feed or
/// carriage return.
pub open spec fn is_blank(c: char) -> bool {
    c == ' ' || '\t' <= c <= '\r'
}

/// A word: a letter or underscore, then letters, digits and underscores.
pub open spec fn is_word(p: Seq<char>) -> bool {
    &&& p.len() >= 1
    &&& is_word_start(p[0])
    &&& forall|k: int| 1 <= k < p.len() ==> in_class(#[trigger] p[k], Class::Word)
}

/// A number: a number character that is not also a letter, then digits and dots.
pub open spec fn is_number(p: Seq<char>) -> bool {
    &&& p.len() >= 1
    &&& numeric(p[0]) && !alphabetic(p[0])
    &&& forall|k: int| 1 <= k < p.len() ==> in_class(#[trigger] p[k], Class::Number)
}

/// A string literal: a double quote, characters other than a double quote, and a
/// closing double quote.
pub open spec fn is_string(p: Seq<char>) -> bool {
    &&& p.len() >= 2
    &&& p[0] == '"' && p[p.len() - 1] == '"'
    &&& forall|k: int| 1 <= k < p.len() - 1 ==> #[trigger] p[k] != '"'
}

/// A line comment with the line feed that ends it.
pub open spec fn is_line_comment(p: Seq<char>) -> bool {
    &&& p.len() >= 3
    &&& p[0] == '/' && p[1] == '/' && p[p.len() - 1] == '\n'
    &&& forall|k: int| 2 <= k < p.len() - 1 ==> #[trigger] p[k] != '\n'
}

/// A block comment: `/*`, a body in which `*/` does not occur, and `*/`.
pub open spec fn is_block_comment(p: Seq<char>) -> bool {
    &&& p.len() >= 4
    &&& p[0] == '/' && p[1] == '*' && p[p.len() - 2] == '*' && p[p.len() - 1] == '/'
    &&& forall|k: int| 2 <= k < p.len() - 2 ==> !(#[trigger] p[k] == '*' && p[k + 1] == '/')
}

/// A character that is an operator or a punctuation mark on its own.
pub open spec fn is_single_operator(c: char) -> bool {
    c == '(' || c == ')' || c == '[' || c == ']' || c == '{' || c == '}' || c == ';' || c == '+'
        || c == '*' || c == ':' || c == '!' || c == '-' || c == '/' || c == '=' || c == '<' || c
        == '>'
}

/// A pair of characters that is a two-character operator.
pub open spec fn is_double_operator(a: char, b: char) -> bool {
    (a == '-' && b == '>') || (a == '=' && b == '=') || (a == '<' && b == '=') || (a == '>' && b
        == '=') || (a == '#' && b == '!') || (a == '&' && b == '&') || (a == '|' && b == '|')
}

/// An operator or a punctuation mark.
pub open spec fn is_operator(p: Seq<char>) -> bool {
    (p.len() == 1 && is_single_operator(p[0])) || (p.len() == 2 && is_double_operator(p[0], p[1]))
}

/// A construct that the scanner recognizes: white space, a word, a number, a string
/// literal, a comment, or an operator.
pub open spec fn is_construct(p: Seq<char>) -> bool {
    (p.len() == 1 && is_blank(p[0])) || is_word(p) || is_number(p) || is_string(p)
        || is_line_comment(p) || is_block_comment(p) || is_operator(p)
}

/// The text made of each piece followed by its separator.
pub open spec fn layout(pieces: Seq<Seq<char>>, seps: Seq<char>) -> Seq<char>
    decreases pieces.len(),
{
    if pieces.len() == 0 || seps.len() == 0 {
        seq![]
    } else {
        pieces[0] + seq![seps[0]] + layout(pieces.drop_first(), seps.drop_first())
    }
}

proof fn lemma_run_end_at(code: Seq<char>, j: int, m: int, class: Class)
    requires
        0 <= j <= m <= code.len(),
        forall|k: int| j <= k < m ==> in_class(#[trigger] code[k], class),
        m == code.len() || !in_class(code[m], class),
    ensures
        run_end(code, j, class) == m,
    decreases m - j,
{
    if j < m {
        lemma_run_end_at(code, j + 1, m, class);
    }
}

proof fn lemma_block_end_at(code: Seq<char>, j: int, m: int)
    requires
        0 <= j <= m,
        m + 1 < code.len(),
        code[m] == '*' && code[m + 1] == '/',
        forall|k: int| j <= k < m ==> !(#[trigger] code[k] == '*' && code[k + 1] == '/'),
    ensures
        block_end(code, j) == m,
    decreases m - j,
{
    if j < m {
        lemma_block_end_at(code, j + 1, m);
    }
}

/// A construct followed by white space is scanned whole, and the scan goes on right
/// after it.
proof fn lemma_construct_scan(
    code: Seq<char>,
    i: int,
    p: Seq<char>,
    acc: Seq<(int, TokenView)>,
) -> (acc2: Seq<(int, TokenView)>)
    requires
        0 <= i,
        i + p.len() < code.len(),
        forall|k: int| 0 <= k < p.len() ==> code[i + k] == #[trigger] p[k],
        is_blank(code[i + p.len()]),
        is_construct(p),
    ensures
        scan(code, i, acc) == scan(code, i + p.len(), acc2),
{
    let n = p.len() as int;
    let line = line_at(code, i);
    assert(code[i] == p[0]);
    lemma_step_advances(code, i);
    if n == 1 && is_blank(p[0]) {
        assert(step(code, i) == Step::Skip { next: i + 1 });
        acc
    } else if is_word(p) {
        assert forall|k: int| i + 1 <= k < i + n implies in_class(
            #[trigger] code[k],
            Class::Word,
        ) by {
            assert(code[i + (k - i)] == p[k - i]);
        }
        lemma_run_end_at(code, i + 1, i + n, Class::Word);
        let w = code.subrange(i, i + n);
        assert(step(code, i) == Step::Emit { kind: word_kind(w), value: w, next: i + n });
        acc.push((i, TokenView { value: w, kind: word_kind(w), line }))
    } else if is_number(p) {
        assert forall|k: int| i + 1 <= k < i + n implies in_class(
            #[trigger] code[k],
            Class::Number,
        ) by {
            assert(code[i + (k - i)] == p[k - i]);
        }
        lemma_run_end_at(code, i + 1, i + n, Class::Number);
        let w = code.subrange(i, i + n);
        assert(step(code, i) == Step::Emit { kind: number_kind(w), value: w, next: i + n });
        acc.push((i, TokenView { value: w, kind: number_kind(w), line }))
    } else if is_string(p) {
        assert forall|k: int| i + 1 <= k < i + n - 1 implies in_class(
            #[trigger] code[k],
            Class::InString,
        ) by {
            assert(code[i + (k - i)] == p[k - i]);
        }
        assert(code[i + (n - 1)] == p[n - 1]);
        lemma_run_end_at(code, i + 1, i + n - 1, Class::InString);
        let body = code.subrange(i + 1, i + n - 1);
        assert(step(code, i) == Step::Emit {
            kind: TokenType::StringLiteral,
            value: body,
            next: i + n,
        });
        acc.push((i, TokenView { value: body, kind: TokenType::StringLiteral, line }))
    } else if is_line_comment(p) {
        assert(code[i + 1] == p[1]);
        assert forall|k: int| i + 2 <= k < i + n - 1 implies in_class(
            #[trigger] code[k],
            Class::InLineComment,
        ) by {
            assert(code[i + (k - i)] == p[k - i]);
        }
        assert(code[i + (n - 1)] == p[n - 1]);
        lemma_run_end_at(code, i + 2, i + n - 1, Class::InLineComment);
        assert(step(code, i) == Step::Skip { next: i + n - 1 });
        lemma_step_advances(code, i + n - 1);
        assert(step(code, i + n - 1) == Step::Skip { next: i + n });
        assert(scan(code, i + n - 1, acc) == scan(code, i + n, acc));
        acc
    } else if is_block_comment(p) {
        assert(code[i + 1] == p[1]);
        assert(code[i + (n - 2)] == p[n - 2]);
        assert(code[i + (n - 1)] == p[n - 1]);
        assert forall|k: int| i + 2 <= k < i + n - 2 implies !(#[trigger] code[k] == '*'
            && code[k + 1] == '/') by {
            assert(code[i + (k - i)] == p[k - i]);
            assert(code[i + (k - i + 1)] == p[k - i + 1]);
        }
        lemma_block_end_at(code, i + 2, i + n - 2);
        assert(step(code, i) == Step::Skip { next: i + n });
        acc
    } else {
        if n == 2 {
            assert(code[i + 1] == p[1]);
        }
        assert(step(code, i) is Emit);
        acc.push((i, TokenView { value: seq![], kind: step(code, i)->Emit_kind, line }))
    }
}

proof fn lemma_layout_scans(
    code: Seq<char>,
    i: int,
    pieces: Seq<Seq<char>>,
    seps: Seq<char>,
    acc: Seq<(int, TokenView)>,
)
    requires
        0 <= i <= code.len(),
        code.subrange(i, code.len() as int) == layout(pieces, seps),
        pieces.len() == seps.len(),
        forall|k: int| 0 <= k < pieces.len() ==> is_construct(#[trigger] pieces[k]),
        forall|k: int| 0 <= k < seps.len() ==> is_blank(#[trigger] seps[k]),
    ensures
        scan(code, i, acc) is Ok,
    decreases pieces.len(),
{
    if pieces.len() == 0 {
        assert(code.subrange(i, code.len() as int).len() == 0);
    } else {
        let p = pieces[0];
        let rest = layout(pieces.drop_first(), seps.drop_first());
        let tail = code.subrange(i, code.len() as int);
        assert(tail == p + seq![seps[0]] + rest);
        let n = p.len() as int;
        assert(tail.len() == n + 1 + rest.len());
        assert forall|k: int| 0 <= k < n implies code[i + k] == #[trigger] p[k] by {
            assert(tail[k] == p[k]);
        }
        assert(tail[n] == seps[0]);
        assert(is_construct(pieces[0]));
        assert(is_blank(seps[0]));
        let acc2 = lemma_construct_scan(code, i, p, acc);
        lemma_step_advances(code, i + n);
        assert(step(code, i + n) == Step::Skip { next: i + n + 1 });
        assert forall|k: int| 0 <= k < rest.len() implies code.subrange(
            i + n + 1,
            code.len() as int,
        )[k] == #[trigger] rest[k] by {
            assert(tail[n + 1 + k] == rest[k]);
        }
        assert(code.subrange(i + n + 1, code.len() as int) =~= rest);
        assert forall|k: int| 0 <= k < pieces.len() - 1 implies is_construct(
            #[trigger] pieces.drop_first()[k],
        ) by {
            assert(is_construct(pieces[k + 1]));
        }
        assert forall|k: int| 0 <= k < seps.len() - 1 implies is_blank(
            #[trigger] seps.drop_first()[k],
        ) by {
            assert(is_blank(seps[k + 1]));
        }
        lemma_layout_scans(code, i + n + 1, pieces.drop_first(), seps.drop_first(), acc2);
    }
}

/// Text made only of recognized constructs and white space, each construct followed
/// by a white-space character, always tokenizes.
pub proof fn lemma_constructs_tokenize(pieces: Seq<Seq<char>>, seps: Seq<char>)
    requires
        pieces.len() == seps.len(),
        forall|k: int| 0 <= k < pieces.len() ==> is_construct(#[trigger] pieces[k]),
        forall|k: int| 0 <= k < seps.len() ==> is_blank(#[trigger] seps[k]),
    ensures
        lex(layout(pieces, seps)) is Ok,
{
    let code = layout(pieces, seps);
    assert(code.subrange(0, code.len() as int) =~= code);
    lemma_layout_scans(code, 0, pieces, seps, seq![]);
}

} // verus!
