use forgec0::{lex, tokenize, Lexer, Token};

#[test]
fn test_full_capability_declaration() {
    let input = "fn process(data: Text) -> Int !{net, io, tokens ≤ 100}";
    let tokens = tokenize(input);

    let expected = vec![
        Token::Fn,
        Token::Ident("process".to_string()),
        Token::LParen,
        Token::Ident("data".to_string()),
        Token::Colon,
        Token::Ident("Text".to_string()),
        Token::RParen,
        Token::Arrow,
        Token::Ident("Int".to_string()),
        Token::Bang,
        Token::LBrace,
        Token::Ident("net".to_string()),
        Token::Comma,
        Token::Ident("io".to_string()),
        Token::Comma,
        Token::Ident("tokens".to_string()),
        Token::LessThanEqual,
        Token::Number(100),
        Token::RBrace,
        Token::Eof,
    ];

    assert_eq!(tokens, expected);
}

#[test]
fn test_module_with_capability() {
    let input = "module data.pipeline !{energy ≤ 10}";
    let tokens = tokenize(input);

    assert_eq!(tokens[0], Token::Module);
    assert_eq!(tokens[1], Token::Ident("data".to_string()));
    assert_eq!(tokens[2], Token::Unknown('.'));
    assert_eq!(tokens[3], Token::Ident("pipeline".to_string()));
    assert_eq!(tokens[4], Token::Bang);
    assert_eq!(tokens[5], Token::LBrace);
    assert_eq!(tokens[6], Token::Ident("energy".to_string()));
    assert_eq!(tokens[7], Token::LessThanEqual);
    assert_eq!(tokens[8], Token::Number(10));
    assert_eq!(tokens[9], Token::RBrace);
}

#[test]
fn test_intent_blocks() {
    let input = "⟦ sort_by relevance group ≤ 16 ⟧";
    let tokens = tokenize(input);

    assert_eq!(tokens[0], Token::IntentOpen);
    assert_eq!(tokens[1], Token::Ident("sort_by".to_string()));
    assert_eq!(tokens[2], Token::Ident("relevance".to_string()));
    assert_eq!(tokens[3], Token::Ident("group".to_string()));
    assert_eq!(tokens[4], Token::LessThanEqual);
    assert_eq!(tokens[5], Token::Number(16));
    assert_eq!(tokens[6], Token::IntentClose);
}

#[test]
fn test_multiple_resource_constraints() {
    let input = "!{tokens ≤ 8, latency ≤ 200, energy ≤ 5}";
    let tokens = tokenize(input);

    assert_eq!(tokens[0], Token::Bang);
    assert_eq!(tokens[1], Token::LBrace);

    assert_eq!(tokens[2], Token::Ident("tokens".to_string()));
    assert_eq!(tokens[3], Token::LessThanEqual);
    assert_eq!(tokens[4], Token::Number(8));
    assert_eq!(tokens[5], Token::Comma);

    assert_eq!(tokens[6], Token::Ident("latency".to_string()));
    assert_eq!(tokens[7], Token::LessThanEqual);
    assert_eq!(tokens[8], Token::Number(200));
    assert_eq!(tokens[9], Token::Comma);

    assert_eq!(tokens[10], Token::Ident("energy".to_string()));
    assert_eq!(tokens[11], Token::LessThanEqual);
    assert_eq!(tokens[12], Token::Number(5));

    assert_eq!(tokens[13], Token::RBrace);
}

#[test]
fn test_basic_tokens() {
    let tokens = tokenize("fn foo()");
    assert_eq!(tokens[0], Token::Fn);
    assert_eq!(tokens[1], Token::Ident("foo".to_string()));
    assert_eq!(tokens[2], Token::LParen);
    assert_eq!(tokens[3], Token::RParen);
}

#[test]
fn test_capability_tokens() {
    let tokens = tokenize("!{net, io}");
    assert_eq!(tokens[0], Token::Bang);
    assert_eq!(tokens[1], Token::LBrace);
    assert_eq!(tokens[2], Token::Ident("net".to_string()));
    assert_eq!(tokens[3], Token::Comma);
    assert_eq!(tokens[4], Token::Ident("io".to_string()));
    assert_eq!(tokens[5], Token::RBrace);
}

#[test]
fn test_resource_constraint() {
    let tokens = tokenize("tokens ≤ 100");
    assert_eq!(tokens[0], Token::Ident("tokens".to_string()));
    assert_eq!(tokens[1], Token::LessThanEqual);
    assert_eq!(tokens[2], Token::Number(100));
}

#[test]
fn simple_lex() {
    let toks = lex("hello world");
    assert_eq!(toks, vec!["hello", "world"]);
}

#[test]
fn lex_splits_on_any_whitespace() {
    let toks = lex("  a\tbc\n\u{2003}d  ");
    assert_eq!(toks, vec!["a", "bc", "d"]);
    assert!(lex("").is_empty());
    assert!(lex(" \n ").is_empty());
}

#[test]
fn token_round_trip_of_a_declaration() {
    let tokens = tokenize("fn foo() -> Int !{pure}");
    let expected = vec![
        Token::Fn,
        Token::Ident("foo".to_string()),
        Token::LParen,
        Token::RParen,
        Token::Arrow,
        Token::Ident("Int".to_string()),
        Token::Bang,
        Token::LBrace,
        Token::Ident("pure".to_string()),
        Token::RBrace,
        Token::Eof,
    ];
    assert_eq!(tokens, expected);
}

#[test]
fn keywords_and_identifiers() {
    let tokens = tokenize("let use module fnx _a");
    assert_eq!(
        tokens,
        vec![
            Token::Let,
            Token::Use,
            Token::Module,
            Token::Ident("fnx".to_string()),
            Token::Unknown('_'),
            Token::Ident("a".to_string()),
            Token::Eof,
        ]
    );
}

#[test]
fn lone_minus_is_unknown() {
    let tokens = tokenize("- ->-");
    assert_eq!(
        tokens,
        vec![Token::Unknown('-'), Token::Arrow, Token::Unknown('-'), Token::Eof]
    );
}

#[test]
fn numerals_that_do_not_parse_become_zero() {
    let tokens = tokenize("007 99999999999999999999 9223372036854775807 \u{0663}");
    assert_eq!(tokens[0], Token::Number(7));
    assert_eq!(tokens[1], Token::Number(0));
    assert_eq!(tokens[2], Token::Number(9223372036854775807));
    assert_eq!(tokens[3], Token::Number(0));
    assert_eq!(tokens[4], Token::Eof);
}

#[test]
fn empty_input_is_one_eof() {
    assert_eq!(tokenize(""), vec![Token::Eof]);
    assert_eq!(tokenize(" \n\t "), vec![Token::Eof]);
}

#[test]
fn eof_repeats() {
    let mut lexer = Lexer::new("x");
    assert_eq!(lexer.next_token(), Token::Ident("x".to_string()));
    assert_eq!(lexer.next_token(), Token::Eof);
    assert_eq!(lexer.next_token(), Token::Eof);
}

#[test]
fn identifiers_take_unicode_letters_and_digits() {
    let tokens = tokenize("größe2 x#");
    assert_eq!(tokens[0], Token::Ident("größe2".to_string()));
    assert_eq!(tokens[1], Token::Ident("x".to_string()));
    assert_eq!(tokens[2], Token::Unknown('#'));
}
