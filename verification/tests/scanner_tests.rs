use rlox::scanner::{LexicalError, Scanner};
use rlox::token::{Coordinate, Literal, Token, TokenType};

fn make_token(
    token_type: TokenType,
    lexeme: &str,
    literal: Literal,
    index: usize,
    line: usize,
    column: usize,
) -> Token {
    Token::new(
        token_type,
        Some(lexeme.to_string()),
        literal,
        Coordinate::new(index, line, column),
    )
}

#[test]
fn test_empty_input() {
    let scanner = Scanner::new("");
    let tokens = scanner.scan_tokens().unwrap();
    assert_eq!(tokens, vec![make_token(TokenType::Eof, "", Literal::Nil, 0, 1, 1)]);
}

#[test]
fn test_whitespace_only() {
    let scanner = Scanner::new("   \t\n  ");
    let tokens = scanner.scan_tokens().unwrap();
    assert_eq!(tokens, vec![make_token(TokenType::Eof, "", Literal::Nil, 0, 1, 1)]);
}

#[test]
fn test_single_character_tokens() {
    let input = "(){},.-+;*!";
    let scanner = Scanner::new(input);
    let tokens = scanner.scan_tokens().unwrap();

    let expected_tokens = vec![
        make_token(TokenType::LeftParen, "(", Literal::Nil, 0, 1, 1),
        make_token(TokenType::RightParen, ")", Literal::Nil, 1, 1, 2),
        make_token(TokenType::LeftBrace, "{", Literal::Nil, 2, 1, 3),
        make_token(TokenType::RightBrace, "}", Literal::Nil, 3, 1, 4),
        make_token(TokenType::Comma, ",", Literal::Nil, 4, 1, 5),
        make_token(TokenType::Dot, ".", Literal::Nil, 5, 1, 6),
        make_token(TokenType::Minus, "-", Literal::Nil, 6, 1, 7),
        make_token(TokenType::Plus, "+", Literal::Nil, 7, 1, 8),
        make_token(TokenType::Semicolon, ";", Literal::Nil, 8, 1, 9),
        make_token(TokenType::Star, "*", Literal::Nil, 9, 1, 10),
        make_token(TokenType::Bang, "!", Literal::Nil, 10, 1, 11),
        make_token(TokenType::Eof, "", Literal::Nil, 10, 1, 11),
    ];

    assert_eq!(tokens, expected_tokens);
}

#[test]
fn test_multi_character_tokens() {
    let input = "!= == <= >= //";
    let scanner = Scanner::new(input);
    let tokens = scanner.scan_tokens().unwrap();

    let expected_tokens = vec![
        make_token(TokenType::BangEqual, "!=", Literal::Nil, 0, 1, 1),
        make_token(TokenType::EqualEqual, "==", Literal::Nil, 3, 1, 4),
        make_token(TokenType::LessEqual, "<=", Literal::Nil, 6, 1, 7),
        make_token(TokenType::GreaterEqual, ">=", Literal::Nil, 9, 1, 10),
        make_token(TokenType::Eof, "", Literal::Nil, 9, 1, 10),
    ];

    assert_eq!(tokens, expected_tokens);
}

#[test]
fn test_number_parsing() {
    let inputs = vec![
        ("123", 0, 1, 1),
        ("123.456", 0, 1, 1),
        (".789", 0, 1, 1),
        ("0.001", 0, 1, 1),
        ("42.", 0, 1, 1), // Invalid number: ends with dot
    ];

    for (input, index, line, column) in inputs {
        let scanner = Scanner::new(input);
        let result = scanner.scan_tokens();

        if input.ends_with('.') {
            // Expect an error
            assert!(result.is_err());
            assert_eq!(
                result.unwrap_err(),
                LexicalError::InvalidNumber(Coordinate::new(index, line, column))
            );
        } else {
            let tokens = result.unwrap();
            assert_eq!(tokens.len(), 2);
            assert!(input.parse::<f64>().is_ok());
            let expected_literal = Literal::Number(input.to_string());
            let expected_token = make_token(
                TokenType::Number,
                input,
                expected_literal,
                index,
                line,
                column,
            );
            assert_eq!(tokens[0], expected_token);
        }
    }
}

#[test]
fn test_identifier_and_keyword_parsing() {
    let input = "and class else false for fun if nil or print return super this true var while identifier _identifier ident123";
    let scanner = Scanner::new(input);
    let tokens = scanner.scan_tokens().unwrap();

    let expected_token_types = vec![
        TokenType::And,
        TokenType::Class,
        TokenType::Else,
        TokenType::False,
        TokenType::For,
        TokenType::Fun,
        TokenType::If,
        TokenType::Nil,
        TokenType::Or,
        TokenType::Print,
        TokenType::Return,
        TokenType::Super,
        TokenType::This,
        TokenType::True,
        TokenType::Var,
        TokenType::While,
        TokenType::Identifier,
        TokenType::Identifier,
        TokenType::Identifier,
        TokenType::Eof,
    ];

    assert_eq!(tokens.len(), expected_token_types.len());

    for (token, expected_type) in tokens.iter().zip(expected_token_types.iter()) {
        assert_eq!(token.token_type, *expected_type);
    }
}

#[test]
fn test_comment_handling() {
    let input = "var x = 42; // This is a comment\nvar y = x;";
    let scanner = Scanner::new(input);
    let tokens = scanner.scan_tokens().unwrap();

    let expected_token_types = vec![
        TokenType::Var,
        TokenType::Identifier,
        TokenType::Equal,
        TokenType::Number,
        TokenType::Semicolon,
        TokenType::Var,
        TokenType::Identifier,
        TokenType::Equal,
        TokenType::Identifier,
        TokenType::Semicolon,
        TokenType::Eof,
    ];

    assert_eq!(tokens.len(), expected_token_types.len());

    for (token, expected_type) in tokens.iter().zip(expected_token_types.iter()) {
        assert_eq!(token.token_type, *expected_type);
    }
}

#[test]
fn test_error_handling_invalid_character() {
    let input = "@";
    let scanner = Scanner::new(input);
    let result = scanner.scan_tokens();
    assert!(result.is_err());

    let expected_error = LexicalError::InvalidCharacter('@', Coordinate::default());
    assert_eq!(result.unwrap_err(), expected_error);
}

#[test]
fn test_error_handling_unterminated_string() {
    let input = "\"This string never ends...";
    let scanner = Scanner::new(input);
    let result = scanner.scan_tokens();
    assert!(result.is_err());

    let expected_error = LexicalError::UnterminatedString(Coordinate::default());
    assert_eq!(result.unwrap_err(), expected_error);
}

#[test]
fn test_error_handling_invalid_number() {
    let input = "123abc";
    let scanner = Scanner::new(input);
    let result = scanner.scan_tokens();
    assert!(result.is_ok());

    let tokens = result.unwrap();
    // Should parse '123' as a number and 'abc' as an identifier
    assert_eq!(tokens.len(), 3);
    assert_eq!(tokens[0].token_type, TokenType::Number);
    assert_eq!(tokens[1].token_type, TokenType::Identifier);
}

#[test]
fn test_complex_input() {
    let input = r#"
        // Sample code
        class Point {
            var x;
            var y;

            fun init(x, y) {
                this.x = x;
                this.y = y;
            }

            fun distance(other) {
                return sqrt((this.x - other.x) * (this.x - other.x) +
                            (this.y - other.y) * (this.y - other.y));
            }
        }
        "#;

    let scanner = Scanner::new(input);
    let result = scanner.scan_tokens();
    assert!(result.is_ok());

    let tokens = result.unwrap();

    // Only the token types are compared
    let token_types: Vec<TokenType> = tokens.iter().map(|t| t.token_type.clone()).collect();

    let expected_token_types = vec![
        TokenType::Class,
        TokenType::Identifier,
        TokenType::LeftBrace,
        TokenType::Var,
        TokenType::Identifier,
        TokenType::Semicolon,
        TokenType::Var,
        TokenType::Identifier,
        TokenType::Semicolon,
        TokenType::Fun,
        TokenType::Identifier,
        TokenType::LeftParen,
        TokenType::Identifier,
        TokenType::Comma,
        TokenType::Identifier,
        TokenType::RightParen,
        TokenType::LeftBrace,
        TokenType::This,
        TokenType::Dot,
        TokenType::Identifier,
        TokenType::Equal,
        TokenType::Identifier,
        TokenType::Semicolon,
        TokenType::This,
        TokenType::Dot,
        TokenType::Identifier,
        TokenType::Equal,
        TokenType::Identifier,
        TokenType::Semicolon,
        TokenType::RightBrace,
        TokenType::Fun,
        TokenType::Identifier,
        TokenType::LeftParen,
        TokenType::Identifier,
        TokenType::RightParen,
        TokenType::LeftBrace,
        TokenType::Return,
        TokenType::Identifier, // sqrt
        TokenType::LeftParen,
        TokenType::LeftParen,
        TokenType::This,
        TokenType::Dot,
        TokenType::Identifier,
        TokenType::Minus,
        TokenType::Identifier,
        TokenType::Dot,
        TokenType::Identifier,
        TokenType::RightParen,
        TokenType::Star,
        TokenType::LeftParen,
        TokenType::This,
        TokenType::Dot,
        TokenType::Identifier,
        TokenType::Minus,
        TokenType::Identifier,
        TokenType::Dot,
        TokenType::Identifier,
        TokenType::RightParen,
        TokenType::Plus,
        TokenType::LeftParen,
        TokenType::This,
        TokenType::Dot,
        TokenType::Identifier,
        TokenType::Minus,
        TokenType::Identifier,
        TokenType::Dot,
        TokenType::Identifier,
        TokenType::RightParen,
        TokenType::Star,
        TokenType::LeftParen,
        TokenType::This,
        TokenType::Dot,
        TokenType::Identifier,
        TokenType::Minus,
        TokenType::Identifier,
        TokenType::Dot,
        TokenType::Identifier,
        TokenType::RightParen,
        TokenType::RightParen,
        TokenType::Semicolon,
        TokenType::RightBrace,
        TokenType::RightBrace,
        TokenType::Eof,
    ];

    assert_eq!(token_types, expected_token_types);
}
