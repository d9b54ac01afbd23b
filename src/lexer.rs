use vstd::prelude::*;
use vstd::string::*;

use crate::grammar::{
    block_end, in_class, keyword_of, lemma_run_end_bounds, lemma_step_advances, lex, lex_spans,
    newline_count, operator, run_end, scan, span_tokens, step, Class, Step,
};
use crate::text::{
    chars_of, is_alphabetic, is_alphanumeric, is_numeric, is_whitespace, string_from_chars,
};
use crate::token::{LexError, Token, TokenType, TokenView};

verus! {

/// The views of a sequence of tokens.
pub open spec fn tokens_view(ts: Seq<Token>) -> Seq<TokenView> {
    ts.map_values(|t: Token| t@)
}

/// What a result of `tokenize` stands for.
pub open spec fn outcome_view(r: Result<Vec<Token>, LexError>) -> Result<
    Seq<TokenView>,
    LexError,
> {
    match r {
        Ok(tokens) => Ok(tokens_view(tokens@)),
        Err(e) => Err(e),
    }
}

/// Whether `c` belongs to `class`.
fn char_in_class(c: char, class: Class) -> (r: bool)
    ensures
        r == in_class(c, class),
{
    match class {
        Class::Word => is_alphanumeric(c) || c == '_',
        Class::Number => is_numeric(c) || c == '.',
        Class::InString => c != '"',
        Class::InLineComment => c != '\n',
    }
}

/// The end of the run of `class` characters that starts at `j`.
fn run_end_at(code: &Vec<char>, j: usize, class: Class) -> (r: usize)
    requires
        j <= code.len(),
    ensures
        r == run_end(code@, j as int, class),
{
    let mut k: usize = j;
    while k < code.len() && char_in_class(code[k], class)
        invariant
            j <= k <= code.len(),
            run_end(code@, k as int, class) == run_end(code@, j as int, class),
        decreases code.len() - k,
    {
        k = k + 1;
    }
    k
}

/// The position of the first `*/` at or after `j`, or the end of `code`.
fn block_end_at(code: &Vec<char>, j: usize) -> (r: usize)
    requires
        j <= code.len(),
    ensures
        r == block_end(code@, j as int),
{
    let mut k: usize = j;
    while k < code.len() && k + 1 < code.len() && !(code[k] == '*' && code[k + 1] == '/')
        invariant
            j <= k <= code.len(),
            block_end(code@, k as int) == block_end(code@, j as int),
        decreases code.len() - k,
    {
        k = k + 1;
    }
    if k < code.len() && k + 1 < code.len() {
        k
    } else {
        code.len()
    }
}

/// The characters of `code` from `from` up to `to`.
fn chars_between(code: &Vec<char>, from: usize, to: usize) -> (r: Vec<char>)
    requires
        from <= to <= code.len(),
    ensures
        r@ == code@.subrange(from as int, to as int),
{
    let mut out: Vec<char> = Vec::new();
    let mut k: usize = from;
    while k < to
        invariant
            from <= k <= to <= code.len(),
            out@ == code@.subrange(from as int, k as int),
        decreases to - k,
    {
        out.push(code[k]);
        k = k + 1;
        assert(out@ =~= code@.subrange(from as int, k as int));
    }
    out
}

/// Whether `word` spells exactly `s`.
fn same_chars(word: &Vec<char>, s: &str) -> (r: bool)
    ensures
        r == (word@ == s@),
{
    let n = s.unicode_len();
    if word.len() != n {
        return false;
    }
    let mut k: usize = 0;
    while k < n
        invariant
            n == word.len() == s@.len(),
            k <= n,
            word@.take(k as int) == s@.take(k as int),
        decreases n - k,
    {
        if word[k] != s.get_char(k) {
            assert(word@[k as int] != s@[k as int]);
            return false;
        }
        k = k + 1;
        assert(word@.take(k as int) =~= s@.take(k as int));
    }
    assert(word@ =~= s@.take(n as int));
    assert(s@ =~= s@.take(n as int));
    true
}

/// The keyword kind that `word` spells, if it is a reserved word.
fn keyword_kind(word: &Vec<char>) -> (r: Option<TokenType>)
    ensures
        r == keyword_of(word@),
{
    if same_chars(word, "true") {
        Some(TokenType::True)
    } else if same_chars(word, "false") {
        Some(TokenType::False)
    } else if same_chars(word, "return") {
        Some(TokenType::Return)
    } else if same_chars(word, "public") {
        Some(TokenType::Public)
    } else if same_chars(word, "private") {
        Some(TokenType::Private)
    } else if same_chars(word, "module") {
        Some(TokenType::Module)
    } else if same_chars(word, "fn") {
        Some(TokenType::Fn)
    } else if same_chars(word, "let") {
        Some(TokenType::Let)
    } else if same_chars(word, "if") {
        Some(TokenType::If)
    } else if same_chars(word, "else") {
        Some(TokenType::Else)
    } else if same_chars(word, "while") {
        Some(TokenType::While)
    } else if same_chars(word, "for") {
        Some(TokenType::For)
    } else if same_chars(word, "loop") {
        Some(TokenType::Loop)
    } else if same_chars(word, "struct") {
        Some(TokenType::Struct)
    } else if same_chars(word, "implement") {
        Some(TokenType::Implement)
    } else if same_chars(word, "enum") {
        Some(TokenType::Enum)
    } else if same_chars(word, "unsafe") {
        Some(TokenType::Unsafe)
    } else if same_chars(word, "asm") {
        Some(TokenType::ASM)
    } else if same_chars(word, "trait") {
        Some(TokenType::Trait)
    } else if same_chars(word, "switch") {
        Some(TokenType::Switch)
    } else if same_chars(word, "async") {
        Some(TokenType::Async)
    } else if same_chars(word, "break") {
        Some(TokenType::Break)
    } else if same_chars(word, "continue") {
        Some(TokenType::Continue)
    } else {
        None
    }
}

/// Whether `word` holds a dot.
fn has_dot(word: &Vec<char>) -> (r: bool)
    ensures
        r == word@.contains('.'),
{
    let mut k: usize = 0;
    while k < word.len()
        invariant
            k <= word.len(),
            forall|m: int| 0 <= m < k ==> word@[m] != '.',
        decreases word.len() - k,
    {
        if word[k] == '.' {
            return true;
        }
        k = k + 1;
    }
    false
}

/// Whether the character after position `i` is `c`.
fn next_char_is(code: &Vec<char>, i: usize, c: char) -> (r: bool)
    requires
        i < code.len(),
    ensures
        r == crate::grammar::next_is(code@, i as int, c),
{
    i + 1 < code.len() && code[i + 1] == c
}

/// The operator or punctuation kind at position `i`, with its width.
fn operator_at(code: &Vec<char>, i: usize) -> (r: Option<(TokenType, usize)>)
    requires
        i < code.len(),
    ensures
        match r {
            Some((kind, width)) => operator(code@, i as int) == Some((kind, width as int)),
            None => operator(code@, i as int) is None,
        },
{
    let c = code[i];
    match c {
        '(' => Some((TokenType::OpenParen, 1)),
        ')' => Some((TokenType::CloseParen, 1)),
        '[' => Some((TokenType::OpenBracket, 1)),
        ']' => Some((TokenType::CloseBracket, 1)),
        '{' => Some((TokenType::OpenCurly, 1)),
        '}' => Some((TokenType::CloseCurly, 1)),
        ';' => Some((TokenType::Semicolon, 1)),
        '+' => Some((TokenType::Plus, 1)),
        '*' => Some((TokenType::Star, 1)),
        ':' => Some((TokenType::Colon, 1)),
        '!' => Some((TokenType::Bang, 1)),
        '/' => Some((TokenType::Divide, 1)),
        '-' => if next_char_is(code, i, '>') {
            Some((TokenType::Arrow, 2))
        } else {
            Some((TokenType::Minus, 1))
        },
        '=' => if next_char_is(code, i, '=') {
            Some((TokenType::EqualsEquals, 2))
        } else {
            Some((TokenType::Equals, 1))
        },
        '<' => if next_char_is(code, i, '=') {
            Some((TokenType::LessEqual, 2))
        } else {
            Some((TokenType::Less, 1))
        },
        '>' => if next_char_is(code, i, '=') {
            Some((TokenType::GreaterEqual, 2))
        } else {
            Some((TokenType::Greater, 1))
        },
        '#' => if next_char_is(code, i, '!') {
            Some((TokenType::ShBang, 2))
        } else {
            None
        },
        '&' => if next_char_is(code, i, '&') {
            Some((TokenType::And, 2))
        } else {
            None
        },
        '|' => if next_char_is(code, i, '|') {
            Some((TokenType::Or, 2))
        } else {
            None
        },
        _ => None,
    }
}

/// What the scanner does at one position, as computed.
enum Lexed {
    Skip(usize),
    Emit(TokenType, Vec<char>, usize),
    Fail(LexError),
}

impl Lexed {
    /// Whether this outcome is the step `s`.
    spec fn agrees(self, s: Step) -> bool {
        match (self, s) {
            (Lexed::Skip(n), Step::Skip { next }) => n == next,
            (Lexed::Emit(k, v, n), Step::Emit { kind, value, next }) => k == kind && v@ == value
                && n == next,
            (Lexed::Fail(e), Step::Fail { error }) => e == error,
            _ => false,
        }
    }
}

/// The step the scanner takes at position `i`.
fn step_at(code: &Vec<char>, i: usize) -> (r: Lexed)
    requires
        i < code.len(),
    ensures
        r.agrees(step(code@, i as int)),
{
    proof {
        lemma_step_advances(code@, i as int);
    }
    let c = code[i];
    if is_alphabetic(c) || c == '_' {
        let e = run_end_at(code, i + 1, Class::Word);
        let word = chars_between(code, i, e);
        let kind = match keyword_kind(&word) {
            Some(k) => k,
            None => TokenType::Identifier,
        };
        Lexed::Emit(kind, word, e)
    } else if is_numeric(c) {
        let e = run_end_at(code, i + 1, Class::Number);
        let word = chars_between(code, i, e);
        let kind = if has_dot(&word) {
            TokenType::FloatLiteral
        } else {
            TokenType::IntegerLiteral
        };
        Lexed::Emit(kind, word, e)
    } else if c == '"' {
        let e = run_end_at(code, i + 1, Class::InString);
        proof {
            lemma_run_end_bounds(code@, i + 1, Class::InString);
        }
        if e < code.len() {
            Lexed::Emit(TokenType::StringLiteral, chars_between(code, i + 1, e), e + 1)
        } else {
            Lexed::Fail(LexError::UnexpectedEof)
        }
    } else if c == '\n' || is_whitespace(c) {
        Lexed::Skip(i + 1)
    } else if c == '/' && next_char_is(code, i, '/') {
        Lexed::Skip(run_end_at(code, i + 2, Class::InLineComment))
    } else if c == '/' && next_char_is(code, i, '*') {
        let k = block_end_at(code, i + 2);
        if k < code.len() {
            Lexed::Skip(k + 2)
        } else {
            Lexed::Fail(LexError::UnexpectedEof)
        }
    } else {
        match operator_at(code, i) {
            Some((kind, width)) => Lexed::Emit(kind, Vec::new(), i + width),
            None => Lexed::Fail(LexError::UnknownSymbol),
        }
    }
}

proof fn lemma_newline_count_step(code: Seq<char>, j: int)
    requires
        0 <= j < code.len(),
    ensures
        newline_count(code.take(j + 1)) == newline_count(code.take(j)) + if code[j] == '\n' {
            1nat
        } else {
            0nat
        },
{
    assert(code.take(j + 1).drop_last() =~= code.take(j));
}

/// The line feeds before `to`, given `n`, the line feeds before `from`.
fn count_newlines(code: &Vec<char>, from: usize, to: usize, n: usize) -> (r: usize)
    requires
        from <= to <= code.len(),
        n == newline_count(code@.take(from as int)),
        n <= from,
    ensures
        r == newline_count(code@.take(to as int)),
        r <= to,
{
    let mut k: usize = from;
    let mut count: usize = n;
    while k < to
        invariant
            from <= k <= to <= code.len(),
            count == newline_count(code@.take(k as int)),
            count <= k,
        decreases to - k,
    {
        proof {
            lemma_newline_count_step(code@, k as int);
        }
        if code[k] == '\n' {
            count = count + 1;
        }
        k = k + 1;
    }
    count
}

/// Splits `input` into tokens, in source order, each with the line it starts on;
/// or returns the first error, with no tokens.
pub fn tokenize(input: &str) -> (r: Result<Vec<Token>, LexError>)
    ensures
        outcome_view(r) == lex(input@),
{
    let code = chars_of(input);
    let mut tokens: Vec<Token> = Vec::new();
    let mut i: usize = 0;
    let mut newlines: usize = 0;
    let ghost mut spans: Seq<(int, TokenView)> = seq![];
    assert(code@.take(0) =~= Seq::<char>::empty());
    assert(tokens_view(tokens@) =~= span_tokens(spans));
    while i < code.len()
        invariant
            code@ == input@,
            i <= code.len(),
            newlines <= i,
            newlines == newline_count(code@.take(i as int)),
            scan(code@, i as int, spans) == lex_spans(code@),
            tokens_view(tokens@) == span_tokens(spans),
        decreases code.len() - i,
    {
        proof {
            lemma_step_advances(code@, i as int);
        }
        match step_at(&code, i) {
            Lexed::Skip(next) => {
                newlines = count_newlines(&code, i, next, newlines);
                i = next;
            },
            Lexed::Emit(kind, value, next) => {
                let token = Token::new(string_from_chars(&value), kind, newlines + 1);
                let ghost seen = tokens@;
                let ghost t = token@;
                proof {
                    let prev = spans;
                    spans = spans.push((i as int, t));
                    assert(span_tokens(spans) =~= span_tokens(prev).push(t));
                }
                tokens.push(token);
                assert(tokens_view(tokens@) =~= tokens_view(seen).push(t));
                newlines = count_newlines(&code, i, next, newlines);
                i = next;
            },
            Lexed::Fail(e) => {
                return Err(e);
            },
        }
    }
    Ok(tokens)
}

} // verus!
