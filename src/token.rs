use vstd::prelude::*;
use vstd::string::*;

use crate::text::string_from_chars;

verus! {

/// Why a tokenization failed. The scan stops at the first error.
#[derive(Debug, Clone, Copy, PartialEq, Eq, Structural)]
pub enum LexError {
    /// A character, or a pair of characters, that starts no token.
    UnknownSymbol,
    /// A block comment or a string literal that is still open at the end of the input.
    UnexpectedEof,
    /// The default value; no tokenization produces it.
    Unknown,
}

impl Default for LexError {
    fn default() -> (r: LexError)
        ensures
            r == LexError::Unknown,
    {
        LexError::Unknown
    }
}

impl LexError {
    /// The text of the error message.
    pub open spec fn message(self) -> Seq<char> {
        match self {
            LexError::UnknownSymbol => "Unknown symbol encountered"@,
            LexError::UnexpectedEof => "Unexpected End-of-File"@,
            LexError::Unknown => "Unknown Error"@,
        }
    }

    /// A human-readable message for the error.
    pub fn to_string(self) -> (r: String)
        ensures
            r@ == self.message(),
    {
        match self {
            LexError::UnknownSymbol => String::from_str("Unknown symbol encountered"),
            LexError::UnexpectedEof => String::from_str("Unexpected End-of-File"),
            LexError::Unknown => String::from_str("Unknown Error"),
        }
    }
}

/// The kind of a token. Kinds are ordered by their declaration order.
#[derive(Debug, Clone, Copy, PartialEq, Eq, Structural, PartialOrd, Ord)]
pub enum TokenType {
    // Literals
    IntegerLiteral,
    FloatLiteral,
    StringLiteral,
    CharLiteral,
    Identifier,
    // Keywords
    True,
    False,
    Return,
    Public,
    Private,
    Module,
    Fn,
    Let,
    If,
    Else,
    While,
    For,
    Loop,
    Struct,
    Implement,
    Enum,
    Unsafe,
    ASM,
    Trait,
    Switch,
    Async,
    Break,
    Continue,
    // Punctuation
    OpenParen,
    CloseParen,
    OpenBracket,
    CloseBracket,
    OpenCurly,
    CloseCurly,
    Semicolon,
    Comma,
    Dot,
    // Operators
    Plus,
    Minus,
    Star,
    Divide,
    Equals,
    EqualsEquals,
    PlusEquals,
    MinusEquals,
    TimesEquals,
    DivideEquals,
    Greater,
    Less,
    GreaterEqual,
    LessEqual,
    Arrow,
    Colon,
    Bang,
    ShBang,
    And,
    GetRef,
    Or,
    // Sentinels: `Unassigned` is the default, `Unknown` is reserved
    Unassigned,
    Unknown,
}

impl Default for TokenType {
    fn default() -> (r: TokenType)
        ensures
            r == TokenType::Unassigned,
    {
        TokenType::Unassigned
    }
}

impl TokenType {
    /// The name of the kind, as written in its declaration.
    pub open spec fn spec_name(self) -> Seq<char> {
        match self {
            TokenType::IntegerLiteral => "IntegerLiteral"@,
            TokenType::FloatLiteral => "FloatLiteral"@,
            TokenType::StringLiteral => "StringLiteral"@,
            TokenType::CharLiteral => "CharLiteral"@,
            TokenType::Identifier => "Identifier"@,
            TokenType::True => "True"@,
            TokenType::False => "False"@,
            TokenType::Return => "Return"@,
            TokenType::Public => "Public"@,
            TokenType::Private => "Private"@,
            TokenType::Module => "Module"@,
            TokenType::Fn => "Fn"@,
            TokenType::Let => "Let"@,
            TokenType::If => "If"@,
            TokenType::Else => "Else"@,
            TokenType::While => "While"@,
            TokenType::For => "For"@,
            TokenType::Loop => "Loop"@,
            TokenType::Struct => "Struct"@,
            TokenType::Implement => "Implement"@,
            TokenType::Enum => "Enum"@,
            TokenType::Unsafe => "Unsafe"@,
            TokenType::ASM => "ASM"@,
            TokenType::Trait => "Trait"@,
            TokenType::Switch => "Switch"@,
            TokenType::Async => "Async"@,
            TokenType::Break => "Break"@,
            TokenType::Continue => "Continue"@,
            TokenType::OpenParen => "OpenParen"@,
            TokenType::CloseParen => "CloseParen"@,
            TokenType::OpenBracket => "OpenBracket"@,
            TokenType::CloseBracket => "CloseBracket"@,
            TokenType::OpenCurly => "OpenCurly"@,
            TokenType::CloseCurly => "CloseCurly"@,
            TokenType::Semicolon => "Semicolon"@,
            TokenType::Comma => "Comma"@,
            TokenType::Dot => "Dot"@,
            TokenType::Plus => "Plus"@,
            TokenType::Minus => "Minus"@,
            TokenType::Star => "Star"@,
            TokenType::Divide => "Divide"@,
            TokenType::Equals => "Equals"@,
            TokenType::EqualsEquals => "EqualsEquals"@,
            TokenType::PlusEquals => "PlusEquals"@,
            TokenType::MinusEquals => "MinusEquals"@,
            TokenType::TimesEquals => "TimesEquals"@,
            TokenType::DivideEquals => "DivideEquals"@,
            TokenType::Greater => "Greater"@,
            TokenType::Less => "Less"@,
            TokenType::GreaterEqual => "GreaterEqual"@,
            TokenType::LessEqual => "LessEqual"@,
            TokenType::Arrow => "Arrow"@,
            TokenType::Colon => "Colon"@,
            TokenType::Bang => "Bang"@,
            TokenType::ShBang => "ShBang"@,
            TokenType::And => "And"@,
            TokenType::GetRef => "GetRef"@,
            TokenType::Or => "Or"@,
            TokenType::Unassigned => "Unassigned"@,
            TokenType::Unknown => "Unknown"@,
        }
    }

    /// The name of the kind, as written in its declaration.
    pub fn name(self) -> (r: &'static str)
        ensures
            r@ == self.spec_name(),
    {
        match self {
            TokenType::IntegerLiteral => "IntegerLiteral",
            TokenType::FloatLiteral => "FloatLiteral",
            TokenType::StringLiteral => "StringLiteral",
            TokenType::CharLiteral => "CharLiteral",
            TokenType::Identifier => "Identifier",
            TokenType::True => "True",
            TokenType::False => "False",
            TokenType::Return => "Return",
            TokenType::Public => "Public",
            TokenType::Private => "Private",
            TokenType::Module => "Module",
            TokenType::Fn => "Fn",
            TokenType::Let => "Let",
            TokenType::If => "If",
            TokenType::Else => "Else",
            TokenType::While => "While",
            TokenType::For => "For",
            TokenType::Loop => "Loop",
            TokenType::Struct => "Struct",
            TokenType::Implement => "Implement",
            TokenType::Enum => "Enum",
            TokenType::Unsafe => "Unsafe",
            TokenType::ASM => "ASM",
            TokenType::Trait => "Trait",
            TokenType::Switch => "Switch",
            TokenType::Async => "Async",
            TokenType::Break => "Break",
            TokenType::Continue => "Continue",
            TokenType::OpenParen => "OpenParen",
            TokenType::CloseParen => "CloseParen",
            TokenType::OpenBracket => "OpenBracket",
            TokenType::CloseBracket => "CloseBracket",
            TokenType::OpenCurly => "OpenCurly",
            TokenType::CloseCurly => "CloseCurly",
            TokenType::Semicolon => "Semicolon",
            TokenType::Comma => "Comma",
            TokenType::Dot => "Dot",
            TokenType::Plus => "Plus",
            TokenType::Minus => "Minus",
            TokenType::Star => "Star",
            TokenType::Divide => "Divide",
            TokenType::Equals => "Equals",
            TokenType::EqualsEquals => "EqualsEquals",
            TokenType::PlusEquals => "PlusEquals",
            TokenType::MinusEquals => "MinusEquals",
            TokenType::TimesEquals => "TimesEquals",
            TokenType::DivideEquals => "DivideEquals",
            TokenType::Greater => "Greater",
            TokenType::Less => "Less",
            TokenType::GreaterEqual => "GreaterEqual",
            TokenType::LessEqual => "LessEqual",
            TokenType::Arrow => "Arrow",
            TokenType::Colon => "Colon",
            TokenType::Bang => "Bang",
            TokenType::ShBang => "ShBang",
            TokenType::And => "And",
            TokenType::GetRef => "GetRef",
            TokenType::Or => "Or",
            TokenType::Unassigned => "Unassigned",
            TokenType::Unknown => "Unknown",
        }
    }
}

/// What a token stands for: its lexeme, its kind and the line it starts on.
pub struct TokenView {
    pub value: Seq<char>,
    pub kind: TokenType,
    pub line: nat,
}

/// One lexical unit of the source text.
#[derive(Debug, Clone, PartialEq, Eq, PartialOrd, Ord)]
pub struct Token {
    /// The captured lexeme; empty for punctuation and operators.
    pub value: String,
    /// The kind of the token.
    pub ttype: TokenType,
    /// The 1-based line on which the token begins.
    pub line: usize,
}

impl View for Token {
    type V = TokenView;

    open spec fn view(&self) -> TokenView {
        TokenView { value: self.value@, kind: self.ttype, line: self.line as nat }
    }
}

/// The decimal digit for `d`, for `d < 10`.
pub open spec fn digit_char(d: nat) -> char {
    seq!['0', '1', '2', '3', '4', '5', '6', '7', '8', '9'][d as int]
}

/// The decimal rendering of `n`, without leading zeros.
pub open spec fn decimal(n: nat) -> Seq<char>
    decreases n,
{
    if n < 10 {
        seq![digit_char(n)]
    } else {
        decimal(n / 10).push(digit_char(n % 10))
    }
}

/// The characters of the decimal rendering of `n`.
pub fn decimal_chars(n: usize) -> (r: Vec<char>)
    ensures
        r@ == decimal(n as nat),
    decreases n,
{
    let digits: [char; 10] = ['0', '1', '2', '3', '4', '5', '6', '7', '8', '9'];
    if n < 10 {
        let mut v: Vec<char> = Vec::new();
        v.push(digits[n]);
        v
    } else {
        let mut v = decimal_chars(n / 10);
        v.push(digits[n % 10]);
        v
    }
}

impl Token {
    /// A token of kind `ttype` with lexeme `value`, starting on line `line`.
    pub fn new(value: String, ttype: TokenType, line: usize) -> (r: Token)
        ensures
            r@ == (TokenView { value: value@, kind: ttype, line: line as nat }),
    {
        Token { value, ttype, line }
    }

    /// The rendering of a token for diagnostics.
    pub open spec fn rendering(self) -> Seq<char> {
        "Token at line "@ + decimal(self.line as nat) + ": Type "@ + self.ttype.spec_name()
            + " with value "@ + self.value@
    }

    /// The token rendered for diagnostics, as
    /// `Token at line <line>: Type <kind> with value <value>`.
    pub fn to_string(&self) -> (r: String)
        ensures
            r@ == self.rendering(),
    {
        let mut s = String::from_str("Token at line ");
        let digits = string_from_chars(&decimal_chars(self.line));
        s.append(digits.as_str());
        s.append(": Type ");
        s.append(self.ttype.name());
        s.append(" with value ");
        s.append(self.value.as_str());
        s
    }
}

} // verus!
