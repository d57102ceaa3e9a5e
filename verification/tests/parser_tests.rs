use rlox::ast::{Expr, Stmt};
use rlox::parser::Parser;
use rlox::scanner::Scanner;
use rlox::token::{Coordinate, Literal, Token, TokenType};

fn expression_stmt(expr: Expr) -> Stmt {
    Stmt::Expression { expression: expr }
}

fn binary(left: Expr, operator: Token, right: Expr) -> Expr {
    Expr::Binary {
        left: Box::new(left),
        operator,
        right: Box::new(right),
    }
}

fn unary(operator: Token, right: Expr) -> Expr {
    Expr::Unary {
        operator,
        right: Box::new(right),
    }
}

fn literal(value: Token) -> Expr {
    Expr::Literal { value }
}

fn grouping(expression: Expr) -> Expr {
    Expr::Grouping {
        expression: Box::new(expression),
    }
}

fn number(v: f64, i: usize, r: usize, c: usize) -> Token {
    Token::new(
        TokenType::Number,
        Some(v.to_string()),
        Literal::Number(v.to_string()),
        coordinate(i, r, c),
    )
}

fn string(v: String, i: usize, r: usize, c: usize) -> Token {
    Token::new(
        TokenType::String,
        Some(format!("\"{}\"", v)),
        Literal::String(v),
        coordinate(i, r, c),
    )
}

fn operator(t: TokenType, i: usize, r: usize, c: usize) -> Token {
    let op = match t {
        TokenType::Plus => "+",
        TokenType::Minus => "-",
        TokenType::Star => "*",
        TokenType::Slash => "/",
        TokenType::Bang => "!",
        TokenType::Equal => "=",
        TokenType::EqualEqual => "==",
        TokenType::BangEqual => "!=",
        TokenType::Greater => ">",
        TokenType::GreaterEqual => ">=",
        TokenType::Less => "<",
        TokenType::LessEqual => "<=",
        _ => panic!("Invalid operator"),
    };

    Token::new(t, Some(op.to_string()), Literal::Nil, coordinate(i, r, c))
}

fn coordinate(i: usize, r: usize, c: usize) -> Coordinate {
    Coordinate::new(i, r, c)
}

#[test]
fn parser_test_basic_integration() {
    let input = "1 + 2 * 3;";
    let tokens = Scanner::new(&input).scan_tokens().unwrap();
    let tree = Parser::new(tokens).parse().unwrap();

    let expected = vec![expression_stmt(binary(
        literal(number(1.0, 0, 1, 1)),
        operator(TokenType::Plus, 2, 1, 3),
        binary(
            literal(number(2.0, 4, 1, 5)),
            operator(TokenType::Star, 6, 1, 7),
            literal(number(3.0, 8, 1, 9)),
        ),
    ))];

    assert_eq!(tree, expected);
}

#[test]
fn parser_test_unary_operator() {
    let input = "-1;";
    let tokens = Scanner::new(&input).scan_tokens().unwrap();
    let tree = Parser::new(tokens).parse().unwrap();

    let expected = vec![expression_stmt(unary(
        operator(TokenType::Minus, 0, 1, 1),
        literal(number(1.0, 1, 1, 2)),
    ))];

    assert_eq!(tree, expected);
}

#[test]
fn parser_test_grouping() {
    let input = "(1 + 2) * 3;";
    let tokens = Scanner::new(&input).scan_tokens().unwrap();
    let tree = Parser::new(tokens).parse().unwrap();

    let expected = vec![expression_stmt(binary(
        grouping(binary(
            literal(number(1.0, 1, 1, 2)),
            operator(TokenType::Plus, 3, 1, 4),
            literal(number(2.0, 5, 1, 6)),
        )),
        operator(TokenType::Star, 8, 1, 9),
        literal(number(3.0, 10, 1, 11)),
    ))];

    assert_eq!(tree, expected);
}

#[test]
fn parser_test_invalid_expression() {
    let input = "1 +;";
    let tokens = Scanner::new(&input).scan_tokens().unwrap();
    let tree = Parser::new(tokens).parse();
    assert!(tree.is_err());

    if let Err(err) = tree {
        println!("{:?}", err);
    }
}

#[test]
fn parser_test_concate_strings() {
    let input = "\"hello\" + \"world\";";
    let tokens = Scanner::new(&input).scan_tokens().unwrap();
    let tree = Parser::new(tokens).parse().unwrap();

    let expected = vec![expression_stmt(binary(
        literal(string("hello".to_string(), 0, 1, 1)),
        operator(TokenType::Plus, 8, 1, 9),
        literal(string("world".to_string(), 10, 1, 11)),
    ))];

    assert_eq!(tree, expected);
}

#[test]
fn parser_multi_line() {
    let input = "1 + \n2;";
    let tokens = Scanner::new(input).scan_tokens().unwrap();
    let tree = Parser::new(tokens).parse().unwrap();

    let expected = vec![expression_stmt(binary(
        literal(number(1.0, 0, 1, 1)),
        operator(TokenType::Plus, 2, 1, 3),
        literal(number(2.0, 5, 2, 1)),
    ))];

    assert_eq!(tree, expected)
}
