use vstd::prelude::*;

use crate::text::{alphabetic, numeric, whitespace};
use crate::token::{LexError, TokenType, TokenView};

verus! {

/// A character that starts a word: a letter or an underscore.
pub open spec fn is_word_start(c: char) -> bool {
    alphabetic(c) || c == '_'
}

/// The classes of characters that a sub-scan runs over.
#[derive(Clone, Copy)]
pub enum Class {
    /// Letters, digits and underscores: the rest of a word.
    Word,
    /// Digits and dots: the rest of a number.
    Number,
    /// Anything but a double quote: the body of a string literal.
    InString,
    /// Anything but a line feed: the body of a line comment.
    InLineComment,
}

/// Whether `c` belongs to `class`.
pub open spec fn in_class(c: char, class: Class) -> bool {
    match class {
        Class::Word => alphabetic(c) || numeric(c) || c == '_',
        Class::Number => numeric(c) || c == '.',
        Class::InString => c != '"',
        Class::InLineComment => c != '\n',
    }
}

/// The first index at or after `j` whose character is not in `class`, or the end of
/// `code` when there is none.
pub open spec fn run_end(code: Seq<char>, j: int, class: Class) -> int
    decreases code.len() - j,
{
    if 0 <= j < code.len() && in_class(code[j], class) {
        run_end(code, j + 1, class)
    } else {
        j
    }
}

/// The first index `k` at or after `j` where `*/` starts, or the end of `code` when
/// there is none.
pub open spec fn block_end(code: Seq<char>, j: int) -> int
    decreases code.len() - j,
{
    if j + 1 >= code.len() {
        code.len() as int
    } else if code[j] == '*' && code[j + 1] == '/' {
        j
    } else {
        block_end(code, j + 1)
    }
}

/// The keyword kind that the lexeme `w` spells, if it is a reserved word.
pub open spec fn keyword_of(w: Seq<char>) -> Option<TokenType> {
    if w == "true"@ {
        Some(TokenType::True)
    } else if w == "false"@ {
        Some(TokenType::False)
    } else if w == "return"@ {
        Some(TokenType::Return)
    } else if w == "public"@ {
        Some(TokenType::Public)
    } else if w == "private"@ {
        Some(TokenType::Private)
    } else if w == "module"@ {
        Some(TokenType::Module)
    } else if w == "fn"@ {
        Some(TokenType::Fn)
    } else if w == "let"@ {
        Some(TokenType::Let)
    } else if w == "if"@ {
        Some(TokenType::If)
    } else if w == "else"@ {
        Some(TokenType::Else)
    } else if w == "while"@ {
        Some(TokenType::While)
    } else if w == "for"@ {
        Some(TokenType::For)
    } else if w == "loop"@ {
        Some(TokenType::Loop)
    } else if w == "struct"@ {
        Some(TokenType::Struct)
    } else if w == "implement"@ {
        Some(TokenType::Implement)
    } else if w == "enum"@ {
        Some(TokenType::Enum)
    } else if w == "unsafe"@ {
        Some(TokenType::Unsafe)
    } else if w == "asm"@ {
        Some(TokenType::ASM)
    } else if w == "trait"@ {
        Some(TokenType::Trait)
    } else if w == "switch"@ {
        Some(TokenType::Switch)
    } else if w == "async"@ {
        Some(TokenType::Async)
    } else if w == "break"@ {
        Some(TokenType::Break)
    } else if w == "continue"@ {
        Some(TokenType::Continue)
    } else {
        None
    }
}

/// The kind of a completed word: its keyword kind, or `Identifier`.
pub open spec fn word_kind(w: Seq<char>) -> TokenType {
    match keyword_of(w) {
        Some(k) => k,
        None => TokenType::Identifier,
    }
}

/// The kind of a completed number: `FloatLiteral` when it holds a dot.
pub open spec fn number_kind(w: Seq<char>) -> TokenType {
    if w.contains('.') {
        TokenType::FloatLiteral
    } else {
        TokenType::IntegerLiteral
    }
}

/// Whether the character after position `i` is `c`.
pub open spec fn next_is(code: Seq<char>, i: int, c: char) -> bool {
    i + 1 < code.len() && code[i + 1] == c
}

/// The operator or punctuation kind at position `i`, with the number of characters
/// it takes: a two-character operator is preferred to its one-character prefix.
/// `None` where no operator starts there.
pub open spec fn operator(code: Seq<char>, i: int) -> Option<(TokenType, int)> {
    let c = code[i];
    if c == '(' {
        Some((TokenType::OpenParen, 1))
    } else if c == ')' {
        Some((TokenType::CloseParen, 1))
    } else if c == '[' {
        Some((TokenType::OpenBracket, 1))
    } else if c == ']' {
        Some((TokenType::CloseBracket, 1))
    } else if c == '{' {
        Some((TokenType::OpenCurly, 1))
    } else if c == '}' {
        Some((TokenType::CloseCurly, 1))
    } else if c == ';' {
        Some((TokenType::Semicolon, 1))
    } else if c == '+' {
        Some((TokenType::Plus, 1))
    } else if c == '*' {
        Some((TokenType::Star, 1))
    } else if c == ':' {
        Some((TokenType::Colon, 1))
    } else if c == '!' {
        Some((TokenType::Bang, 1))
    } else if c == '/' {
        Some((TokenType::Divide, 1))
    } else if c == '-' {
        if next_is(code, i, '>') {
            Some((TokenType::Arrow, 2))
        } else {
            Some((TokenType::Minus, 1))
        }
    } else if c == '=' {
        if next_is(code, i, '=') {
            Some((TokenType::EqualsEquals, 2))
        } else {
            Some((TokenType::Equals, 1))
        }
    } else if c == '<' {
        if next_is(code, i, '=') {
            Some((TokenType::LessEqual, 2))
        } else {
            Some((TokenType::Less, 1))
        }
    } else if c == '>' {
        if next_is(code, i, '=') {
            Some((TokenType::GreaterEqual, 2))
        } else {
            Some((TokenType::Greater, 1))
        }
    } else if c == '#' && next_is(code, i, '!') {
        Some((TokenType::ShBang, 2))
    } else if c == '&' && next_is(code, i, '&') {
        Some((TokenType::And, 2))
    } else if c == '|' && next_is(code, i, '|') {
        Some((TokenType::Or, 2))
    } else {
        None
    }
}

/// What the scanner does at one position.
pub enum Step {
    /// Skip whitespace or a comment and go on at `next`.
    Skip { next: int },
    /// Emit a token and go on at `next`.
    Emit { kind: TokenType, value: Seq<char>, next: int },
    /// Stop with an error.
    Fail { error: LexError },
}

/// The step the scanner takes at position `i` of `code`, for `0 <= i < code.len()`.
pub open spec fn step(code: Seq<char>, i: int) -> Step {
    let c = code[i];
    if is_word_start(c) {
        let e = run_end(code, i + 1, Class::Word);
        let w = code.subrange(i, e);
        Step::Emit { kind: word_kind(w), value: w, next: e }
    } else if numeric(c) {
        let e = run_end(code, i + 1, Class::Number);
        let w = code.subrange(i, e);
        Step::Emit { kind: number_kind(w), value: w, next: e }
    } else if c == '"' {
        let e = run_end(code, i + 1, Class::InString);
        if e < code.len() {
            let body = code.subrange(i + 1, e);
            Step::Emit { kind: TokenType::StringLiteral, value: body, next: e + 1 }
        } else {
            Step::Fail { error: LexError::UnexpectedEof }
        }
    } else if c == '\n' || whitespace(c) {
        Step::Skip { next: i + 1 }
    } else if c == '/' && next_is(code, i, '/') {
        Step::Skip { next: run_end(code, i + 2, Class::InLineComment) }
    } else if c == '/' && next_is(code, i, '*') {
        let k = block_end(code, i + 2);
        if k < code.len() {
            Step::Skip { next: k + 2 }
        } else {
            Step::Fail { error: LexError::UnexpectedEof }
        }
    } else {
        match operator(code, i) {
            Some((kind, width)) => Step::Emit { kind, value: seq![], next: i + width },
            None => Step::Fail { error: LexError::UnknownSymbol },
        }
    }
}

/// The number of line feeds in `s`.
pub open spec fn newline_count(s: Seq<char>) -> nat
    decreases s.len(),
{
    if s.len() == 0 {
        0
    } else {
        newline_count(s.drop_last()) + if s.last() == '\n' {
            1nat
        } else {
            0nat
        }
    }
}

/// The line on which position `i` of `code` lies: one more than the line feeds before it.
pub open spec fn line_at(code: Seq<char>, i: int) -> nat {
    newline_count(code.take(i)) + 1
}

/// A run ends within the input, and holds only characters of its class.
pub proof fn lemma_run_end_bounds(code: Seq<char>, j: int, class: Class)
    requires
        0 <= j <= code.len(),
    ensures
        j <= run_end(code, j, class) <= code.len(),
        forall|k: int| j <= k < run_end(code, j, class) ==> in_class(#[trigger] code[k], class),
        run_end(code, j, class) < code.len() ==> !in_class(code[run_end(code, j, class)], class),
    decreases code.len() - j,
{
    if j < code.len() && in_class(code[j], class) {
        lemma_run_end_bounds(code, j + 1, class);
    }
}

/// The end of a block comment is found within the input, at a `*/`.
pub proof fn lemma_block_end_bounds(code: Seq<char>, j: int)
    requires
        0 <= j <= code.len(),
    ensures
        j <= block_end(code, j) <= code.len(),
        block_end(code, j) < code.len() ==> block_end(code, j) + 1 < code.len()
            && code[block_end(code, j)] == '*' && code[block_end(code, j) + 1] == '/',
    decreases code.len() - j,
{
    if j + 1 < code.len() && !(code[j] == '*' && code[j + 1] == '/') {
        lemma_block_end_bounds(code, j + 1);
    }
}

/// Every step that does not fail moves forward and stays within the input.
pub proof fn lemma_step_advances(code: Seq<char>, i: int)
    requires
        0 <= i < code.len(),
    ensures
        step(code, i) is Skip ==> i < step(code, i)->Skip_next <= code.len(),
        step(code, i) is Emit ==> i < step(code, i)->Emit_next <= code.len(),
{
    lemma_run_end_bounds(code, i + 1, Class::Word);
    lemma_run_end_bounds(code, i + 1, Class::Number);
    lemma_run_end_bounds(code, i + 1, Class::InString);
    if next_is(code, i, '/') {
        lemma_run_end_bounds(code, i + 2, Class::InLineComment);
    }
    if next_is(code, i, '*') {
        lemma_block_end_bounds(code, i + 2);
    }
}

/// The tokens found from position `i` on, each with the position it starts at,
/// appended to `acc`; or the first error.
pub open spec fn scan(code: Seq<char>, i: int, acc: Seq<(int, TokenView)>) -> Result<
    Seq<(int, TokenView)>,
    LexError,
>
    decreases code.len() - i,
{
    if i < 0 || i >= code.len() {
        Ok(acc)
    } else {
        proof {
            lemma_step_advances(code, i);
        }
        match step(code, i) {
            Step::Skip { next } => scan(code, next, acc),
            Step::Emit { kind, value, next } => scan(
                code,
                next,
                acc.push((i, TokenView { value, kind, line: line_at(code, i) })),
            ),
            Step::Fail { error } => Err(error),
        }
    }
}

/// The tokens of `code` with their start positions, or the first error.
pub open spec fn lex_spans(code: Seq<char>) -> Result<Seq<(int, TokenView)>, LexError> {
    scan(code, 0, seq![])
}

/// The tokens of a sequence of located tokens.
pub open spec fn span_tokens(spans: Seq<(int, TokenView)>) -> Seq<TokenView> {
    spans.map_values(|p: (int, TokenView)| p.1)
}

/// The tokens of `code`, or the first error.
pub open spec fn lex(code: Seq<char>) -> Result<Seq<TokenView>, LexError> {
    match lex_spans(code) {
        Ok(spans) => Ok(span_tokens(spans)),
        Err(e) => Err(e),
    }
}

} // verus!
