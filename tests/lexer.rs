use xenon_lexer::{tokenize, LexError, Token, TokenType};

fn tok(value: &str, ttype: TokenType, line: usize) -> Token {
    Token { value: value.to_string(), ttype, line }
}

fn kinds(input: &str) -> Vec<TokenType> {
    tokenize(input).unwrap().iter().map(|t| t.ttype).collect()
}

#[test]
fn xenon_code() {
    let tokens = tokenize(
        "void main() {
                        let i = 0;
                        // i am a comment
                        /* I am a multi-line comment*/
                        return 0;
                    }",
    );

    match tokens.clone() {
        Ok(t) => assert!(t.len() == 14),
        Err(e) => panic!("{}", e.to_string()),
    }
    let boxed_arr: Box<[Token]> = tokens.clone().unwrap().try_into().unwrap();
    assert!(boxed_arr[0] == Token { value: "void".to_string(), ttype: TokenType::Identifier, line: 1 });
    assert!(boxed_arr[1] == Token { value: "main".to_string(), ttype: TokenType::Identifier, line: 1 });
    assert!(boxed_arr[2] == Token { value: "".to_string(), ttype: TokenType::OpenParen, line: 1 });
    assert!(boxed_arr[3] == Token { value: "".to_string(), ttype: TokenType::CloseParen, line: 1 });
    assert!(boxed_arr[4] == Token { value: "".to_string(), ttype: TokenType::OpenCurly, line: 1 });
    assert!(boxed_arr[5] == Token { value: "let".to_string(), ttype: TokenType::Let, line: 2 });
    assert!(boxed_arr[6] == Token { value: "i".to_string(), ttype: TokenType::Identifier, line: 2 });
    assert!(boxed_arr[7] == Token { value: "".to_string(), ttype: TokenType::Equals, line: 2 });
    assert!(boxed_arr[8] == Token { value: "0".to_string(), ttype: TokenType::IntegerLiteral, line: 2 });
    assert!(boxed_arr[9] == Token { value: "".to_string(), ttype: TokenType::Semicolon, line: 2 });
    assert!(boxed_arr[10] == Token { value: "return".to_string(), ttype: TokenType::Return, line: 5 });
    assert!(boxed_arr[11] == Token { value: "0".to_string(), ttype: TokenType::IntegerLiteral, line: 5 });
    assert!(boxed_arr[12] == Token { value: "".to_string(), ttype: TokenType::Semicolon, line: 5 });
    assert!(boxed_arr[13] == Token { value: "".to_string(), ttype: TokenType::CloseCurly, line: 6 });
}

#[test]
fn unknown_symbol() {
    let tokens = tokenize("^");

    assert!(tokens.is_err());
}

#[test]
fn void_main_yields_nine_tokens() {
    let tokens = tokenize("void main() { return 0; }").unwrap();
    assert_eq!(
        tokens,
        vec![
            tok("void", TokenType::Identifier, 1),
            tok("main", TokenType::Identifier, 1),
            tok("", TokenType::OpenParen, 1),
            tok("", TokenType::CloseParen, 1),
            tok("", TokenType::OpenCurly, 1),
            tok("return", TokenType::Return, 1),
            tok("0", TokenType::IntegerLiteral, 1),
            tok("", TokenType::Semicolon, 1),
            tok("", TokenType::CloseCurly, 1),
        ]
    );
}

#[test]
fn keyword_matches_whole_lexeme_only() {
    assert_eq!(tokenize("return").unwrap(), vec![tok("return", TokenType::Return, 1)]);
    assert_eq!(tokenize("returning").unwrap(), vec![tok("returning", TokenType::Identifier, 1)]);
    assert_eq!(tokenize("Return").unwrap(), vec![tok("Return", TokenType::Identifier, 1)]);
}

#[test]
fn every_reserved_word_is_a_keyword() {
    let words = [
        ("true", TokenType::True),
        ("false", TokenType::False),
        ("return", TokenType::Return),
        ("public", TokenType::Public),
        ("private", TokenType::Private),
        ("module", TokenType::Module),
        ("fn", TokenType::Fn),
        ("let", TokenType::Let),
        ("if", TokenType::If),
        ("else", TokenType::Else),
        ("while", TokenType::While),
        ("for", TokenType::For),
        ("loop", TokenType::Loop),
        ("struct", TokenType::Struct),
        ("implement", TokenType::Implement),
        ("enum", TokenType::Enum),
        ("unsafe", TokenType::Unsafe),
        ("asm", TokenType::ASM),
        ("trait", TokenType::Trait),
        ("switch", TokenType::Switch),
        ("async", TokenType::Async),
        ("break", TokenType::Break),
        ("continue", TokenType::Continue),
    ];
    for (word, kind) in words {
        assert_eq!(tokenize(word).unwrap(), vec![tok(word, kind, 1)]);
    }
}

#[test]
fn identifiers_take_underscores_digits_and_letters() {
    assert_eq!(tokenize("_a1_b2").unwrap(), vec![tok("_a1_b2", TokenType::Identifier, 1)]);
    assert_eq!(tokenize("héllo").unwrap(), vec![tok("héllo", TokenType::Identifier, 1)]);
    assert_eq!(tokenize("日本").unwrap(), vec![tok("日本", TokenType::Identifier, 1)]);
}

#[test]
fn numbers_beyond_ascii() {
    assert_eq!(tokenize("٣٤").unwrap(), vec![tok("٣٤", TokenType::IntegerLiteral, 1)]);
    // A letter-number such as U+216B starts a word, so the dot after it starts nothing.
    assert_eq!(tokenize("\u{216b}").unwrap(), vec![tok("\u{216b}", TokenType::Identifier, 1)]);
    assert_eq!(tokenize("\u{216b}.5"), Err(LexError::UnknownSymbol));
}

#[test]
fn operators_use_maximal_munch() {
    assert_eq!(tokenize("==").unwrap(), vec![tok("", TokenType::EqualsEquals, 1)]);
    assert_eq!(tokenize("->").unwrap(), vec![tok("", TokenType::Arrow, 1)]);
    assert_eq!(kinds("- x"), vec![TokenType::Minus, TokenType::Identifier]);
    assert_eq!(kinds("-"), vec![TokenType::Minus]);
    assert_eq!(kinds("= ="), vec![TokenType::Equals, TokenType::Equals]);
    assert_eq!(kinds("<= < >= >"), vec![
        TokenType::LessEqual,
        TokenType::Less,
        TokenType::GreaterEqual,
        TokenType::Greater,
    ]);
    assert_eq!(kinds("==="), vec![TokenType::EqualsEquals, TokenType::Equals]);
}

#[test]
fn single_character_symbols() {
    assert_eq!(kinds("()[]{};+*:!/"), vec![
        TokenType::OpenParen,
        TokenType::CloseParen,
        TokenType::OpenBracket,
        TokenType::CloseBracket,
        TokenType::OpenCurly,
        TokenType::CloseCurly,
        TokenType::Semicolon,
        TokenType::Plus,
        TokenType::Star,
        TokenType::Colon,
        TokenType::Bang,
        TokenType::Divide,
    ]);
}

#[test]
fn doubled_operators() {
    assert_eq!(kinds("&& || #!"), vec![TokenType::And, TokenType::Or, TokenType::ShBang]);
}

#[test]
fn comments_are_elided() {
    assert_eq!(tokenize("// comment\nx").unwrap(), vec![tok("x", TokenType::Identifier, 2)]);
    assert_eq!(tokenize("/* comment */x").unwrap(), vec![tok("x", TokenType::Identifier, 1)]);
    assert_eq!(tokenize("// only a comment").unwrap(), vec![]);
    assert_eq!(tokenize("/**/").unwrap(), vec![]);
}

#[test]
fn unterminated_block_comment_fails() {
    assert_eq!(tokenize("/* unterminated"), Err(LexError::UnexpectedEof));
    assert_eq!(tokenize("/* almost *"), Err(LexError::UnexpectedEof));
}

#[test]
fn unterminated_string_fails() {
    assert_eq!(tokenize("\"abc"), Err(LexError::UnexpectedEof));
    assert_eq!(tokenize("x \""), Err(LexError::UnexpectedEof));
}

#[test]
fn string_literal_keeps_its_body() {
    assert_eq!(tokenize("\"a b\\n\"").unwrap(), vec![tok("a b\\n", TokenType::StringLiteral, 1)]);
    assert_eq!(tokenize("\"\"").unwrap(), vec![tok("", TokenType::StringLiteral, 1)]);
}

#[test]
fn line_is_one_more_than_newlines_before() {
    assert_eq!(tokenize("\n\n\nx").unwrap(), vec![tok("x", TokenType::Identifier, 4)]);
    assert_eq!(tokenize("a\nb\n\nc").unwrap(), vec![
        tok("a", TokenType::Identifier, 1),
        tok("b", TokenType::Identifier, 2),
        tok("c", TokenType::Identifier, 4),
    ]);
    assert_eq!(tokenize("/*\n\n*/x").unwrap(), vec![tok("x", TokenType::Identifier, 3)]);
    assert_eq!(tokenize("\"a\nb\" x").unwrap(), vec![
        tok("a\nb", TokenType::StringLiteral, 1),
        tok("x", TokenType::Identifier, 2),
    ]);
}

#[test]
fn literals_are_classified() {
    assert_eq!(tokenize("42").unwrap(), vec![tok("42", TokenType::IntegerLiteral, 1)]);
    assert_eq!(tokenize("3.14").unwrap(), vec![tok("3.14", TokenType::FloatLiteral, 1)]);
    assert_eq!(tokenize("1.2.3").unwrap(), vec![tok("1.2.3", TokenType::FloatLiteral, 1)]);
    assert_eq!(kinds("12ab"), vec![TokenType::IntegerLiteral, TokenType::Identifier]);
}

#[test]
fn unknown_symbols_fail() {
    assert_eq!(tokenize("^"), Err(LexError::UnknownSymbol));
    assert_eq!(tokenize("&"), Err(LexError::UnknownSymbol));
    assert_eq!(tokenize("|"), Err(LexError::UnknownSymbol));
    assert_eq!(tokenize("#"), Err(LexError::UnknownSymbol));
    assert_eq!(tokenize("a, b"), Err(LexError::UnknownSymbol));
    assert_eq!(tokenize(".5"), Err(LexError::UnknownSymbol));
    assert_eq!(tokenize("x & y"), Err(LexError::UnknownSymbol));
}

#[test]
fn first_error_wins() {
    assert_eq!(tokenize("^ /* open"), Err(LexError::UnknownSymbol));
    assert_eq!(tokenize("\"open ^"), Err(LexError::UnexpectedEof));
}

#[test]
fn empty_and_blank_inputs() {
    assert_eq!(tokenize("").unwrap(), vec![]);
    assert_eq!(tokenize(" \t\r\n\u{0b}\u{0c}").unwrap(), vec![]);
    assert_eq!(tokenize("\u{a0}x\u{2003}").unwrap(), vec![tok("x", TokenType::Identifier, 1)]);
}

#[test]
fn recognized_constructs_never_fail() {
    let input = "fn f ( ) -> x == 1.5 \"s\" // c\n /* b */ && || #! { } [ ] ; : ! + * / = < > <= >= - _x \n";
    let tokens = tokenize(input).unwrap();
    assert_eq!(tokens.len(), 29);
}

#[test]
fn tokenizing_twice_gives_the_same_tokens() {
    let input = "let x = 42;\n// note\nreturn x;";
    assert_eq!(tokenize(input), tokenize(input));
    assert_eq!(tokenize("#"), tokenize("#"));
}

#[test]
fn lex_error_messages() {
    assert_eq!(LexError::UnknownSymbol.to_string(), "Unknown symbol encountered");
    assert_eq!(LexError::UnexpectedEof.to_string(), "Unexpected End-of-File");
    assert_eq!(LexError::Unknown.to_string(), "Unknown Error");
    assert_eq!(LexError::default(), LexError::Unknown);
}

#[test]
fn token_rendering() {
    let t = tokenize("\n\n\n\n\n\n\n\n\n\n\nabc").unwrap();
    assert_eq!(t[0].to_string(), "Token at line 12: Type Identifier with value abc");
    let t = Token::new(String::new(), TokenType::ShBang, 7);
    assert_eq!(t.to_string(), "Token at line 7: Type ShBang with value ");
    let t = Token::new("x".to_string(), TokenType::ASM, 1090);
    assert_eq!(t.to_string(), "Token at line 1090: Type ASM with value x");
}

#[test]
fn token_new_sets_fields() {
    let t = Token::new("abc".to_string(), TokenType::Identifier, 3);
    assert_eq!(t, tok("abc", TokenType::Identifier, 3));
}

#[test]
fn kinds_are_ordered_by_declaration() {
    assert!(TokenType::IntegerLiteral < TokenType::Identifier);
    assert!(TokenType::Identifier < TokenType::True);
    assert!(TokenType::Or < TokenType::Unknown);
    assert_eq!(TokenType::default(), TokenType::Unassigned);
    assert_eq!(TokenType::GreaterEqual.name(), "GreaterEqual");
}
