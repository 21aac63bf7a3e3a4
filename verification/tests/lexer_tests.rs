use monkey_lang::lexer::Lexer;
use monkey_lang::token::{Token, TokenType};

#[test]
fn test_next_token() {
    let input = r#"let five = 5;
let ten = 10;

let add = fn(x, y) {
    x + y;
};

let result = add(five, ten);
!-/*5;
5 < 10 > 5;

if (5 < 10) {
    return true;
} else {
    return false;
}

10 == 10;
10 != 9;
"#;

    let tests: Vec<Token> = vec![
        Token::new_from_str(TokenType::Let, "let"),
        Token::new_from_str(TokenType::Ident, "five"),
        Token::new_from_str(TokenType::Assign, "="),
        Token::new_from_str(TokenType::Int, "5"),
        Token::new_from_str(TokenType::Semicolon, ";"),
        Token::new_from_str(TokenType::Let, "let"),
        Token::new_from_str(TokenType::Ident, "ten"),
        Token::new_from_str(TokenType::Assign, "="),
        Token::new_from_str(TokenType::Int, "10"),
        Token::new_from_str(TokenType::Semicolon, ";"),
        Token::new_from_str(TokenType::Let, "let"),
        Token::new_from_str(TokenType::Ident, "add"),
        Token::new_from_str(TokenType::Assign, "="),
        Token::new_from_str(TokenType::Function, "fn"),
        Token::new_from_str(TokenType::LParen, "("),
        Token::new_from_str(TokenType::Ident, "x"),
        Token::new_from_str(TokenType::Comma, ","),
        Token::new_from_str(TokenType::Ident, "y"),
        Token::new_from_str(TokenType::RParen, ")"),
        Token::new_from_str(TokenType::LBrace, "{"),
        Token::new_from_str(TokenType::Ident, "x"),
        Token::new_from_str(TokenType::Plus, "+"),
        Token::new_from_str(TokenType::Ident, "y"),
        Token::new_from_str(TokenType::Semicolon, ";"),
        Token::new_from_str(TokenType::RBrace, "}"),
        Token::new_from_str(TokenType::Semicolon, ";"),
        Token::new_from_str(TokenType::Let, "let"),
        Token::new_from_str(TokenType::Ident, "result"),
        Token::new_from_str(TokenType::Assign, "="),
        Token::new_from_str(TokenType::Ident, "add"),
        Token::new_from_str(TokenType::LParen, "("),
        Token::new_from_str(TokenType::Ident, "five"),
        Token::new_from_str(TokenType::Comma, ","),
        Token::new_from_str(TokenType::Ident, "ten"),
        Token::new_from_str(TokenType::RParen, ")"),
        Token::new_from_str(TokenType::Semicolon, ";"),
        Token::new_from_str(TokenType::Bang, "!"),
        Token::new_from_str(TokenType::Minus, "-"),
        Token::new_from_str(TokenType::Slash, "/"),
        Token::new_from_str(TokenType::Asterisk, "*"),
        Token::new_from_str(TokenType::Int, "5"),
        Token::new_from_str(TokenType::Semicolon, ";"),
        Token::new_from_str(TokenType::Int, "5"),
        Token::new_from_str(TokenType::Lt, "<"),
        Token::new_from_str(TokenType::Int, "10"),
        Token::new_from_str(TokenType::Gt, ">"),
        Token::new_from_str(TokenType::Int, "5"),
        Token::new_from_str(TokenType::Semicolon, ";"),
        Token::new_from_str(TokenType::If, "if"),
        Token::new_from_str(TokenType::LParen, "("),
        Token::new_from_str(TokenType::Int, "5"),
        Token::new_from_str(TokenType::Lt, "<"),
        Token::new_from_str(TokenType::Int, "10"),
        Token::new_from_str(TokenType::RParen, ")"),
        Token::new_from_str(TokenType::LBrace, "{"),
        Token::new_from_str(TokenType::Return, "return"),
        Token::new_from_str(TokenType::True, "true"),
        Token::new_from_str(TokenType::Semicolon, ";"),
        Token::new_from_str(TokenType::RBrace, "}"),
        Token::new_from_str(TokenType::Else, "else"),
        Token::new_from_str(TokenType::LBrace, "{"),
        Token::new_from_str(TokenType::Return, "return"),
        Token::new_from_str(TokenType::False, "false"),
        Token::new_from_str(TokenType::Semicolon, ";"),
        Token::new_from_str(TokenType::RBrace, "}"),
        Token::new_from_str(TokenType::Int, "10"),
        Token::new_from_str(TokenType::Eq, "=="),
        Token::new_from_str(TokenType::Int, "10"),
        Token::new_from_str(TokenType::Semicolon, ";"),
        Token::new_from_str(TokenType::Int, "10"),
        Token::new_from_str(TokenType::NotEq, "!="),
        Token::new_from_str(TokenType::Int, "9"),
        Token::new_from_str(TokenType::Semicolon, ";"),
        Token::new_from_str(TokenType::Eof, ""),
    ];

    let mut l = Lexer::new(input.to_string());

    for expected_token in tests {
        let tok: Token = l.next_token();

        assert_eq!(
            expected_token.token_type, tok.token_type,
            "token_type wrong, expected {:?}, got {:?}",
            expected_token.token_type, tok.token_type
        );
        assert_eq!(
            expected_token.literal, tok.literal,
            "literal wrong, expected {:?}, got {:?}",
            expected_token.token_type, tok.token_type
        );
    }
}

#[test]
fn test_single_char_tokens() {
    let cases: Vec<(&str, TokenType)> = vec![
        ("=", TokenType::Assign),
        ("!", TokenType::Bang),
        (";", TokenType::Semicolon),
        ("(", TokenType::LParen),
        (")", TokenType::RParen),
        (",", TokenType::Comma),
        ("+", TokenType::Plus),
        ("{", TokenType::LBrace),
        ("}", TokenType::RBrace),
        ("-", TokenType::Minus),
        ("/", TokenType::Slash),
        ("*", TokenType::Asterisk),
        ("<", TokenType::Lt),
        (">", TokenType::Gt),
    ];
    for (text, kind) in cases {
        let mut l = Lexer::new(text.to_string());
        let tok = l.next_token();
        assert_eq!(tok.token_type, kind, "kind wrong for {:?}", text);
        assert_eq!(tok.literal, text, "literal wrong for {:?}", text);
        assert_eq!(l.next_token().token_type, TokenType::Eof);
    }
}

#[test]
fn test_two_char_operators() {
    let mut l = Lexer::new("== != = !".to_string());
    let t1 = l.next_token();
    assert_eq!(t1.token_type, TokenType::Eq);
    assert_eq!(t1.literal, "==");
    let t2 = l.next_token();
    assert_eq!(t2.token_type, TokenType::NotEq);
    assert_eq!(t2.literal, "!=");
    let t3 = l.next_token();
    assert_eq!(t3.token_type, TokenType::Assign);
    assert_eq!(t3.literal, "=");
    let t4 = l.next_token();
    assert_eq!(t4.token_type, TokenType::Bang);
    assert_eq!(t4.literal, "!");
    assert_eq!(l.next_token().token_type, TokenType::Eof);
}

#[test]
fn test_eof_idempotent() {
    let mut l = Lexer::new("x".to_string());
    let first = l.next_token();
    assert_eq!(first.token_type, TokenType::Ident);
    for _ in 0..5 {
        let tok = l.next_token();
        assert_eq!(tok.token_type, TokenType::Eof);
        assert_eq!(tok.literal, "");
    }
}

#[test]
fn test_eof_on_empty_and_whitespace_input() {
    let mut l = Lexer::new(String::new());
    let tok = l.next_token();
    assert_eq!(tok.token_type, TokenType::Eof);
    assert_eq!(tok.literal, "");

    let mut l2 = Lexer::new(" \t\r\n ".to_string());
    let tok2 = l2.next_token();
    assert_eq!(tok2.token_type, TokenType::Eof);
    assert_eq!(tok2.literal, "");
}

#[test]
fn test_illegal_token() {
    let mut l = Lexer::new("@".to_string());
    let tok = l.next_token();
    assert_eq!(tok.token_type, TokenType::Illegal);
    assert_eq!(tok.literal, "@");
}

#[test]
fn test_identifier_with_underscore() {
    // Digits continue an identifier once it has begun; they cannot begin one.
    let mut l = Lexer::new("foo_bar2".to_string());
    let tok = l.next_token();
    assert_eq!(tok.token_type, TokenType::Ident);
    assert_eq!(tok.literal, "foo_bar2");
    assert_eq!(l.next_token().token_type, TokenType::Eof);

    let mut l2 = Lexer::new("2foo".to_string());
    let t1 = l2.next_token();
    assert_eq!(t1.token_type, TokenType::Int);
    assert_eq!(t1.literal, "2");
    let t2 = l2.next_token();
    assert_eq!(t2.token_type, TokenType::Ident);
    assert_eq!(t2.literal, "foo");
}

#[test]
fn test_lexing_scenario_let_five() {
    let mut l = Lexer::new("let five = 5;".to_string());
    let expected: Vec<(TokenType, &str)> = vec![
        (TokenType::Let, "let"),
        (TokenType::Ident, "five"),
        (TokenType::Assign, "="),
        (TokenType::Int, "5"),
        (TokenType::Semicolon, ";"),
        (TokenType::Eof, ""),
    ];
    for (kind, lit) in expected {
        let tok = l.next_token();
        assert_eq!(tok.token_type, kind);
        assert_eq!(tok.literal, lit);
    }
}

#[test]
fn test_lookup_ident() {
    assert_eq!(Token::lookup_ident("fn"), TokenType::Function);
    assert_eq!(Token::lookup_ident("let"), TokenType::Let);
    assert_eq!(Token::lookup_ident("true"), TokenType::True);
    assert_eq!(Token::lookup_ident("false"), TokenType::False);
    assert_eq!(Token::lookup_ident("if"), TokenType::If);
    assert_eq!(Token::lookup_ident("else"), TokenType::Else);
    assert_eq!(Token::lookup_ident("return"), TokenType::Return);
    assert_eq!(Token::lookup_ident("foobar"), TokenType::Ident);
    assert_eq!(Token::lookup_ident("lets"), TokenType::Ident);
    assert_eq!(Token::lookup_ident(""), TokenType::Ident);
}

#[test]
fn test_new_from_byte() {
    let tok = Token::new_from_byte(TokenType::Assign, b'=');
    assert_eq!(tok.token_type, TokenType::Assign);
    assert_eq!(tok.literal, "=");
}
