use scanner::tokenizer::Keyword;
use scanner::tokenizer::Token;
use scanner::tokenizer::TokenizeError;
use scanner::tokenizer::tokenize;

#[test]
fn tokenizer_test_0() {
    let tokens = tokenize(
        r###"
        + - * = ident identifier lol <<<< () {{{{
        "###,
    )
    .unwrap();
    let expected_tokens = vec![
        Token::Plus,
        Token::Minus,
        Token::Star,
        Token::Equal,
        Token::Identifier("ident".into()),
        Token::Identifier("identifier".into()),
        Token::Identifier("lol".into()),
        Token::Lt,
        Token::Lt,
        Token::Lt,
        Token::Lt,
        Token::Lparen,
        Token::Rparen,
        Token::Lbrace,
        Token::Lbrace,
        Token::Lbrace,
        Token::Lbrace,
        Token::EOF,
    ];
    assert_eq!(tokens, expected_tokens);
}

#[test]
fn empty_input_gives_only_eof() {
    assert_eq!(tokenize("").unwrap(), vec![Token::EOF]);
}

#[test]
fn whitespace_only_gives_only_eof() {
    assert_eq!(tokenize(" \t\n\r \n").unwrap(), vec![Token::EOF]);
}

#[test]
fn longest_match_lt_equal() {
    assert_eq!(tokenize("<=").unwrap(), vec![Token::LtEqual, Token::EOF]);
}

#[test]
fn longest_match_thin_arrow() {
    assert_eq!(tokenize("->").unwrap(), vec![Token::ThinArrow, Token::EOF]);
}

#[test]
fn longest_match_equal_equal() {
    assert_eq!(tokenize("==").unwrap(), vec![Token::EqualEqual, Token::EOF]);
}

#[test]
fn longest_match_colon_colon() {
    assert_eq!(tokenize("::").unwrap(), vec![Token::ColonColon, Token::EOF]);
}

#[test]
fn keyword_is_not_identifier() {
    assert_eq!(
        tokenize("let").unwrap(),
        vec![Token::Keyword(Keyword::Let), Token::EOF]
    );
}

#[test]
fn keyword_match_is_exact_not_prefix() {
    assert_eq!(
        tokenize("lets").unwrap(),
        vec![Token::Identifier("lets".into()), Token::EOF]
    );
}

#[test]
fn all_keywords_are_recognized() {
    let tokens = tokenize(
        "let fn if else then import pub module struct enum return require external in",
    )
    .unwrap();
    let expected = vec![
        Token::Keyword(Keyword::Let),
        Token::Keyword(Keyword::Fn),
        Token::Keyword(Keyword::If),
        Token::Keyword(Keyword::Else),
        Token::Keyword(Keyword::Then),
        Token::Keyword(Keyword::Import),
        Token::Keyword(Keyword::Pub),
        Token::Keyword(Keyword::Module),
        Token::Keyword(Keyword::Struct),
        Token::Keyword(Keyword::Enum),
        Token::Keyword(Keyword::Return),
        Token::Keyword(Keyword::Require),
        Token::Keyword(Keyword::External),
        Token::Keyword(Keyword::In),
        Token::EOF,
    ];
    assert_eq!(tokens, expected);
}

#[test]
fn adjacent_single_char_tokens_each_emitted() {
    assert_eq!(
        tokenize("<<<<").unwrap(),
        vec![Token::Lt, Token::Lt, Token::Lt, Token::Lt, Token::EOF]
    );
}

#[test]
fn two_char_operators() {
    let tokens = tokenize("++ += ** -- -= => != >=").unwrap();
    let expected = vec![
        Token::PlusPlus,
        Token::PlusEqual,
        Token::StarStar,
        Token::MinusMinus,
        Token::MinusEqual,
        Token::FatArrow,
        Token::BangEqual,
        Token::GtEqual,
        Token::EOF,
    ];
    assert_eq!(tokens, expected);
}

#[test]
fn single_char_operators_and_punctuation() {
    let tokens = tokenize("+ - * / : = ! > < ( ) [ ] { } ,").unwrap();
    let expected = vec![
        Token::Plus,
        Token::Minus,
        Token::Star,
        Token::Slash,
        Token::Colon,
        Token::Equal,
        Token::Bang,
        Token::Gt,
        Token::Lt,
        Token::Lparen,
        Token::Rparen,
        Token::Lbracket,
        Token::Rbracket,
        Token::Lbrace,
        Token::Rbrace,
        Token::Comma,
        Token::EOF,
    ];
    assert_eq!(tokens, expected);
}

#[test]
fn star_star_consumes_both_characters() {
    // A scan of "***" must see one two-character operator, then one star:
    // the cursor moves past both characters of the matched pair.
    assert_eq!(
        tokenize("***").unwrap(),
        vec![Token::StarStar, Token::Star, Token::EOF]
    );
}

#[test]
fn bang_alone_is_bang() {
    assert_eq!(tokenize("!a").unwrap(), vec![
        Token::Bang,
        Token::Identifier("a".into()),
        Token::EOF,
    ]);
}

#[test]
fn identifier_may_hold_digits_and_underscores() {
    assert_eq!(
        tokenize("_a1b2 x9").unwrap(),
        vec![
            Token::Identifier("_a1b2".into()),
            Token::Identifier("x9".into()),
            Token::EOF,
        ]
    );
}

#[test]
fn unrecognized_character_fails_with_char_and_offset() {
    assert_eq!(
        tokenize("@"),
        Err(TokenizeError { character: '@', offset: 0 })
    );
}

#[test]
fn unrecognized_character_offset_counts_from_start() {
    assert_eq!(
        tokenize("a &b"),
        Err(TokenizeError { character: '&', offset: 2 })
    );
}

#[test]
fn dot_is_not_scanned() {
    assert_eq!(
        tokenize("a.b"),
        Err(TokenizeError { character: '.', offset: 1 })
    );
}

#[test]
fn scan_is_repeatable() {
    let text = "let x = foo(y) -> z <= 3_a";
    assert_eq!(tokenize(text), tokenize(text));
}

#[test]
fn eof_is_last_and_unique() {
    let tokens = tokenize("a + b").unwrap();
    assert_eq!(tokens.last(), Some(&Token::EOF));
    assert_eq!(
        tokens.iter().filter(|t| **t == Token::EOF).count(),
        1
    );
}
