use rlox::cli::{Cli, CliArgs, CliError};
use rlox::environment::Environment;
use rlox::errors::ParseError;
use rlox::lexis::LexicalError;
use rlox::native::{Callable, Clock, LoxFunction};
use rlox::parser::{desugar_for_loop, literal_true, while_loop_with_increment, Parser, TokenStream};
use rlox::primitive::{LoxObject, Number};
use rlox::scanner::{CharWithCoordinate, Scanner};
use rlox::ast::{Expr, Stmt};
use rlox::text::{push_decimal, push_str};
use rlox::token::{Coordinate, Literal, Token, TokenType};
use rlox::warnings::{oversized_calls, ARGUMENT_LIMIT};

fn text(v: Option<LoxObject>) -> Option<String> {
    match v {
        Some(LoxObject::String(s)) => Some(s),
        Some(other) => panic!("unexpected {:?}", other),
        None => None,
    }
}

fn string(s: &str) -> LoxObject {
    LoxObject::String(s.to_string())
}

#[test]
fn define_then_get() {
    let mut env = Environment::new();
    let globals = env.new_rc(None);
    env.define(globals, "k".to_string(), string("v"));
    assert_eq!(text(env.get(globals, "k")), Some("v".to_string()));
    env.define(globals, "k".to_string(), string("w"));
    assert_eq!(text(env.get(globals, "k")), Some("w".to_string()));
    assert!(env.get(globals, "other").is_none());
    assert_eq!(env.len(), 1);
}

#[test]
fn get_walks_parent_links() {
    let mut env = Environment::new();
    let outer = env.new_rc(None);
    let inner = env.new_rc(Some(outer));
    let innermost = env.new_rc(Some(inner));
    env.define(outer, "a".to_string(), string("outer"));
    env.define(inner, "b".to_string(), string("inner"));
    assert_eq!(text(env.get(innermost, "a")), Some("outer".to_string()));
    assert_eq!(text(env.get(innermost, "b")), Some("inner".to_string()));
    assert!(env.get(outer, "b").is_none());
    env.define(inner, "a".to_string(), string("shadow"));
    assert_eq!(text(env.get(innermost, "a")), Some("shadow".to_string()));
    assert_eq!(text(env.get(outer, "a")), Some("outer".to_string()));
}

#[test]
fn assign_updates_nearest_binding() {
    let mut env = Environment::new();
    let outer = env.new_rc(None);
    let inner = env.new_rc(Some(outer));
    env.define(outer, "a".to_string(), string("old"));
    assert_eq!(env.assign(inner, "a".to_string(), string("new")), Ok(()));
    assert_eq!(text(env.get(outer, "a")), Some("new".to_string()));
    assert_eq!(text(env.get(inner, "a")), Some("new".to_string()));
    env.define(inner, "a".to_string(), string("mine"));
    assert_eq!(env.assign(inner, "a".to_string(), string("changed")), Ok(()));
    assert_eq!(text(env.get(inner, "a")), Some("changed".to_string()));
    assert_eq!(text(env.get(outer, "a")), Some("new".to_string()));
}

#[test]
fn assign_to_undefined_name_is_an_error() {
    let mut env = Environment::new();
    let outer = env.new_rc(None);
    let inner = env.new_rc(Some(outer));
    assert_eq!(env.assign(inner, "missing".to_string(), string("v")), Err(()));
    assert!(env.get(inner, "missing").is_none());
    assert!(env.get(outer, "missing").is_none());
    env.define(inner, "only_inner".to_string(), string("v"));
    assert_eq!(env.assign(outer, "only_inner".to_string(), string("w")), Err(()));
    assert_eq!(text(env.get(inner, "only_inner")), Some("v".to_string()));
}

#[test]
fn a_parent_that_names_no_scope_is_no_parent() {
    let mut env = Environment::new();
    assert_eq!(env.len(), 0);
    let orphan = env.new_rc(Some(7));
    assert_eq!(orphan, 0);
    env.define(orphan, "a".to_string(), string("v"));
    assert_eq!(text(env.get(orphan, "a")), Some("v".to_string()));
    let own = env.new_rc(Some(1));
    assert_eq!(own, 1);
    assert!(env.get(own, "a").is_none());
}

#[test]
fn a_definition_is_read_whatever_was_bound_before() {
    let mut env = Environment::new();
    let outer = env.new_rc(None);
    let inner = env.new_rc(Some(outer));
    env.define(outer, "k".to_string(), string("outer"));
    env.define(inner, "k".to_string(), string("first"));
    env.define(inner, "other".to_string(), string("o"));
    env.define(inner, "k".to_string(), string("second"));
    assert_eq!(text(env.get(inner, "k")), Some("second".to_string()));
    assert_eq!(text(env.get(inner, "other")), Some("o".to_string()));
    assert_eq!(text(env.get(outer, "k")), Some("outer".to_string()));
}

#[test]
fn values_clone_and_show() {
    let exit = LoxObject::Exit(Box::new(string("inside")));
    assert!(matches!(exit.clone(), LoxObject::Exit(inner) if matches!(*inner, LoxObject::String(ref s) if s == "inside")));
    assert_eq!(exit.text(), Ok("inside".to_string()));
    assert_eq!(LoxObject::Nil.text(), Ok("nil".to_string()));
    assert_eq!(LoxObject::Boolean(true).text(), Ok("true".to_string()));
    assert_eq!(LoxObject::Boolean(false).text(), Ok("false".to_string()));
    assert_eq!(LoxObject::Function(3).text(), Ok("[__object__]".to_string()));
    let n = Number { bits: 2.5f64.to_bits() };
    assert_eq!(LoxObject::Number(n).text(), Err(n));
}

#[test]
fn callables_have_an_arity() {
    let params = vec![
        Token::new(TokenType::Identifier, Some("a".to_string()), Literal::Nil, Coordinate::new(0, 1, 1)),
        Token::new(TokenType::Identifier, Some("b".to_string()), Literal::Nil, Coordinate::new(2, 1, 3)),
    ];
    let body: Vec<Stmt> = Vec::new();
    let f = LoxFunction::new(None, &params, &body, 1);
    assert_eq!(f.arity(), 2);
    assert_eq!(f.closure, 1);
    assert_eq!(Callable::Function(f).arity(), 2);
    assert_eq!(Clock.arity(), 0);
    assert_eq!(Callable::Clock(Clock).arity(), 0);
}

#[test]
fn decimal_text() {
    let mut out = String::from("n=");
    push_decimal(&mut out, 0);
    push_str(&mut out, ",");
    push_decimal(&mut out, 7);
    push_str(&mut out, ",");
    push_decimal(&mut out, 10);
    push_str(&mut out, ",");
    push_decimal(&mut out, 1234567890);
    assert_eq!(out, "n=0,7,10,1234567890");
    let mut max = String::new();
    push_decimal(&mut max, usize::MAX);
    assert_eq!(max, usize::MAX.to_string());
}

#[test]
fn coordinates() {
    let c = Coordinate::new(6, 1, 7);
    assert_eq!((c.index, c.line, c.column), (6, 1, 7));
    assert!(!c.is_synthetic());
    assert!(Coordinate::synthetic().is_synthetic());
    assert_eq!(Coordinate::synthetic(), Coordinate::synthetic());
    assert_ne!(Coordinate::synthetic(), Coordinate::new(0, 0, 0));
    assert_eq!(Coordinate::default(), Coordinate::new(0, 1, 1));
    assert_eq!(c.describe(), "@(1:7)");
    assert_eq!(Coordinate::new(120, 34, 105).describe(), "@(34:105)");
}

#[test]
fn tokens() {
    let t = Token::synthetic(TokenType::Plus, Literal::Nil);
    assert_eq!(t.lexeme, None);
    assert!(t.coordinate.is_synthetic());
    assert_eq!(t.lexeme_or_empty(), "");
    assert_eq!(t.with_lexeme(|s| s.len()), 0);
    let named = Token::new(TokenType::Identifier, Some("abc".to_string()), Literal::Nil, Coordinate::default());
    assert_eq!(named.with_lexeme(|s| s.to_uppercase()), "ABC");
    assert_eq!(named.lexeme_or_empty(), "abc");
    assert_eq!(named.clone(), named);
    assert_eq!(TokenType::LeftParen.name(), "LeftParen");
    assert_eq!(TokenType::Eof.name(), "Eof");
    assert_eq!(Literal::Boolean(true).describe(), "true");
    assert_eq!(Literal::Nil.describe(), "nil");
    assert_eq!(Literal::String("s".to_string()).describe(), "s");
}

#[test]
fn characters_with_coordinates() {
    let mut chars = CharWithCoordinate::new("a\nb");
    assert_eq!(chars.peek(), Some(('a', Coordinate::new(0, 1, 1))));
    assert_eq!(chars.next(), Some(('a', Coordinate::new(0, 1, 1))));
    assert_eq!(chars.next(), Some(('\n', Coordinate::new(1, 1, 2))));
    assert_eq!(chars.next(), Some(('b', Coordinate::new(2, 2, 1))));
    assert_eq!(chars.next(), None);
    assert_eq!(chars.peek(), None);
    assert_eq!(chars.slice(0, 3), "a\nb");
}

#[test]
fn scanner_primitives() {
    let mut s = Scanner::new("1a // c\n=");
    assert!(!s.is_at_end());
    assert!(s.next_is_digit());
    assert!(s.next_is_alphanumeric());
    assert_eq!(s.peek(), Some(('1', Coordinate::new(0, 1, 1))));
    assert!(!s.match_char('2'));
    assert!(s.match_char('1'));
    assert!(!s.next_is_digit());
    assert!(s.next_is_alphanumeric());
    assert_eq!(s.take(), Ok(('a', Coordinate::new(1, 1, 2))));
    s.skip_comment();
    let token = s.scan_token().unwrap().unwrap();
    assert_eq!(token.token_type, TokenType::Equal);
    assert_eq!(token.coordinate, Coordinate::new(8, 2, 1));
    assert!(s.is_at_end());
    assert_eq!(s.take(), Err(LexicalError::UnexpectedEndOfFile));
    assert_eq!(s.scan_token(), Ok(None));
}

#[test]
fn scanner_strings_and_numbers() {
    let tokens = Scanner::new("\"two\nlines\" 1.5 .25 1.2.3 x_1").scan_tokens().unwrap();
    assert_eq!(tokens[0].literal, Literal::String("two\nlines".to_string()));
    assert_eq!(tokens[0].lexeme, Some("\"two\nlines\"".to_string()));
    assert_eq!(tokens[1].literal, Literal::Number("1.5".to_string()));
    assert_eq!(tokens[1].coordinate, Coordinate::new(12, 2, 8));
    assert_eq!(tokens[2].literal, Literal::Number(".25".to_string()));
    assert_eq!(tokens[3].literal, Literal::Number("1.2".to_string()));
    assert_eq!(tokens[4].literal, Literal::Number(".3".to_string()));
    assert_eq!(tokens[5].token_type, TokenType::Identifier);
    assert_eq!(tokens[5].lexeme, Some("x_1".to_string()));
    assert_eq!(tokens[6].token_type, TokenType::Eof);
    assert_eq!(tokens.len(), 7);
    let truth = Scanner::new("true false").scan_tokens().unwrap();
    assert_eq!(truth[0].literal, Literal::Boolean(true));
    assert_eq!(truth[1].literal, Literal::Boolean(false));
}

#[test]
fn scanner_errors() {
    assert_eq!(
        Scanner::new("var x = 1;\n  #").scan_tokens(),
        Err(LexicalError::InvalidCharacter('#', Coordinate::new(13, 2, 3)))
    );
    assert_eq!(
        Scanner::new("x = 42.;").scan_tokens(),
        Err(LexicalError::InvalidNumber(Coordinate::new(4, 1, 5)))
    );
    assert_eq!(
        Scanner::new(".5.5").scan_tokens(),
        Err(LexicalError::InvalidNumber(Coordinate::new(0, 1, 1)))
    );
    assert_eq!(
        Scanner::new("a \"open").scan_tokens(),
        Err(LexicalError::UnterminatedString(Coordinate::new(2, 1, 3)))
    );
    assert_eq!(
        Scanner::new("é").scan_tokens(),
        Err(LexicalError::InvalidCharacter('é', Coordinate::new(0, 1, 1)))
    );
}

#[test]
fn scanner_operators() {
    let types: Vec<TokenType> = Scanner::new("+= -= *= /= + - * / = == ! != < <= > >= // done")
        .scan_tokens()
        .unwrap()
        .iter()
        .map(|t| t.token_type)
        .collect();
    assert_eq!(
        types,
        vec![
            TokenType::PlusEqual,
            TokenType::MinusEqual,
            TokenType::StarEqual,
            TokenType::SlashEqual,
            TokenType::Plus,
            TokenType::Minus,
            TokenType::Star,
            TokenType::Slash,
            TokenType::Equal,
            TokenType::EqualEqual,
            TokenType::Bang,
            TokenType::BangEqual,
            TokenType::Less,
            TokenType::LessEqual,
            TokenType::Greater,
            TokenType::GreaterEqual,
            TokenType::Eof,
        ]
    );
}

#[test]
fn lexemes_cover_the_source() {
    let source = "var answer = 42; // the answer\nprint \"it is \" + answer;\n";
    let chars: Vec<char> = source.chars().collect();
    let tokens = Scanner::new(source).scan_tokens().unwrap();
    let mut position = 0;
    let last = tokens.len() - 1;
    for token in &tokens[..last] {
        let lexeme: Vec<char> = token.lexeme.as_ref().unwrap().chars().collect();
        let start = token.coordinate.index;
        assert!(start >= position);
        assert_eq!(&chars[start..start + lexeme.len()], &lexeme[..]);
        position = start + lexeme.len();
        assert!(position <= chars.len());
    }
    assert_eq!(tokens[last].token_type, TokenType::Eof);
    assert_eq!(tokens[last].coordinate, tokens[last - 1].coordinate);
    let lines: Vec<usize> = tokens.iter().map(|t| t.coordinate.line).collect();
    assert!(lines.windows(2).all(|w| w[0] <= w[1]));
}

fn parse(source: &str) -> Result<Vec<Stmt>, Vec<ParseError>> {
    Parser::new(Scanner::new(source).scan_tokens().unwrap()).parse()
}

#[test]
fn parse_errors_describe_themselves() {
    let errors = parse("var 1;").unwrap_err();
    assert_eq!(errors.len(), 1);
    assert_eq!(
        errors[0],
        ParseError::TokenAssertionFailure {
            msg: "var statment missing identifier",
            expected: TokenType::Identifier,
            found: TokenType::Number,
            coordinate: Coordinate::new(4, 1, 5),
        }
    );
    assert_eq!(
        errors[0].describe(),
        "ParseError: Expected token of type \"Identifier\" but got token \"Number\", var statment missing identifier @(1:5)"
    );
    let errors = parse("1 +;").unwrap_err();
    assert_eq!(
        errors[0].describe(),
        "ParseError: Unexpected token ;, parsing \"primary\" @(1:4)"
    );
    let errors = parse("1 = 2;").unwrap_err();
    assert_eq!(errors[0].describe(), "Invalid assignment target: = @(1:3)");
    assert_eq!(
        ParseError::UnexpectedEndOfFile { after_token: "x".to_string() }.describe(),
        "ParseError: Unexpected end of file x"
    );
    assert_eq!(
        ParseError::LikelyLogicalError.describe(),
        "ParseError: Likely logical error with your parser..."
    );
}

#[test]
fn parse_errors_are_accumulated() {
    let errors = parse("var 1; print 2; var ; print ;").unwrap_err();
    assert_eq!(errors.len(), 3);
    assert!(matches!(errors[0], ParseError::TokenAssertionFailure { .. }));
    assert!(matches!(errors[1], ParseError::TokenAssertionFailure { .. }));
    assert!(matches!(errors[2], ParseError::UnexpectedToken { .. }));
}

#[test]
fn synchronize_stops_before_a_keyword() {
    let errors = parse("1 + print 2; var").unwrap_err();
    assert_eq!(errors.len(), 2);
    assert!(matches!(&errors[0], ParseError::UnexpectedToken { token_lexeme, .. } if token_lexeme == "print"));
    assert!(matches!(errors[1], ParseError::TokenAssertionFailure { found: TokenType::Eof, .. }));
    let errors = parse(") ( var x = 1;").unwrap_err();
    assert_eq!(errors.len(), 1);
}

#[test]
fn break_outside_a_loop_is_an_error() {
    let errors = parse("break;").unwrap_err();
    assert!(matches!(&errors[0], ParseError::UnexpectedToken { msg, .. } if *msg == "\"break\" can only occur inside a loop"));
    assert!(parse("while (true) break;").is_ok());
    assert!(parse("for (;;) { break; }").is_ok());
    assert!(parse("while (true) {} break;").is_err());
}

#[test]
fn break_is_legal_at_any_depth_of_loops() {
    assert!(parse("while (true) { while (true) { break; } }").is_ok());
    assert!(parse("while (true) { while (true) { } break; }").is_ok());
    assert!(parse("for (;;) { for (;;) { while (true) { if (true) break; } break; } break; }").is_ok());
    assert!(parse("while (true) { for (;;) break; } break;").is_err());
    let mut parser = Parser::new(
        Scanner::new("while (true) { while (true) { break; } } break;").scan_tokens().unwrap(),
    );
    assert!(matches!(parser.statement(), Ok(Stmt::While { .. })));
    assert!(matches!(parser.statement(), Err(ParseError::UnexpectedToken { .. })));
}

#[test]
fn an_empty_source_is_an_empty_program() {
    assert_eq!(parse(""), Ok(Vec::new()));
    assert_eq!(parse("  // nothing\n"), Ok(Vec::new()));
    let tokens = Scanner::new("// nothing").scan_tokens().unwrap();
    assert_eq!(tokens.len(), 1);
    assert_eq!(tokens[0].token_type, TokenType::Eof);
    assert_eq!(tokens[0].coordinate, Coordinate::new(0, 1, 1));
}

#[test]
fn tokens_without_eof_end_in_an_error() {
    let tokens = vec![Token::new(
        TokenType::Number,
        Some("1".to_string()),
        Literal::Number("1".to_string()),
        Coordinate::default(),
    )];
    let errors = Parser::new(tokens).parse().unwrap_err();
    assert_eq!(errors, vec![ParseError::UnexpectedEndOfFile { after_token: "1".to_string() }]);
    assert_eq!(Parser::new(Vec::new()).parse(), Ok(Vec::new()));
}

#[test]
fn for_is_rewritten_with_while() {
    let tree = parse("for (var i = 0; i < 1; i = 2) print i;").unwrap();
    let Stmt::Block { statements } = &tree[0] else { panic!("no block") };
    assert_eq!(statements.len(), 2);
    assert!(matches!(statements[0], Stmt::Var { .. }));
    let Stmt::While { body, .. } = &statements[1] else { panic!("no loop") };
    let Stmt::Block { statements: inner } = &**body else { panic!("no body") };
    assert!(matches!(inner[0], Stmt::Print { .. }));
    assert!(matches!(inner[1], Stmt::Expression { .. }));
    assert_eq!(inner.len(), 2);
    let tree = parse("for (;;) { print 1; }").unwrap();
    let Stmt::Block { statements } = &tree[0] else { panic!("no block") };
    assert_eq!(statements.len(), 1);
    let Stmt::While { condition, body } = &statements[0] else { panic!("no loop") };
    assert_eq!(*condition, literal_true());
    let Stmt::Block { statements: inner } = &**body else { panic!("no body") };
    assert_eq!(inner.len(), 1);
}

#[test]
fn loops_are_built_from_parts() {
    let print = || Stmt::Print { expression: literal_true() };
    let step = || Stmt::Expression { expression: literal_true() };
    let plain = while_loop_with_increment(literal_true(), print(), Some(step()));
    assert_eq!(
        plain,
        Stmt::While {
            condition: literal_true(),
            body: Box::new(Stmt::Block { statements: vec![print(), step()] }),
        }
    );
    let block = while_loop_with_increment(
        literal_true(),
        Stmt::Block { statements: vec![print(), print()] },
        Some(step()),
    );
    assert_eq!(
        block,
        Stmt::While {
            condition: literal_true(),
            body: Box::new(Stmt::Block { statements: vec![print(), print(), step()] }),
        }
    );
    let bare = desugar_for_loop(None, None, None, print());
    assert_eq!(
        bare,
        Stmt::Block {
            statements: vec![Stmt::While {
                condition: literal_true(),
                body: Box::new(Stmt::Block { statements: vec![print()] }),
            }],
        }
    );
    let full = desugar_for_loop(Some(step()), Some(literal_true()), Some(step()), print());
    let Stmt::Block { statements } = full else { panic!("no block") };
    assert_eq!(statements.len(), 2);
    assert_eq!(statements[0], step());
}

#[test]
fn compound_assignment_is_rewritten() {
    let tree = parse("x += 1;").unwrap();
    let Stmt::Expression { expression: Expr::Assign { name, value } } = &tree[0] else {
        panic!("no assignment")
    };
    assert_eq!(name.lexeme, Some("x".to_string()));
    let Expr::Binary { left, operator, right } = &**value else { panic!("no sum") };
    assert!(matches!(&**left, Expr::Variable { name } if name.lexeme == Some("x".to_string())));
    assert_eq!(*operator, Token::synthetic(TokenType::Plus, Literal::Nil));
    assert!(matches!(&**right, Expr::Literal { .. }));
}

#[test]
fn functions_are_declarations_or_expressions() {
    let tree = parse("fun named(a, b) { return a; } var f = fun () {};").unwrap();
    assert!(matches!(&tree[0], Stmt::Function { name, params, body } if name.lexeme == Some("named".to_string()) && params.len() == 2 && body.len() == 1));
    assert!(matches!(&tree[1], Stmt::Var { initializer: Some(Expr::Function { params, body }), .. } if params.is_empty() && body.is_empty()));
    assert!(parse("fun () {};").is_err());
}

#[test]
fn calls_and_logic_parse() {
    let tree = parse("f(1, 2)(3); a or b and c;").unwrap();
    let Stmt::Expression { expression: Expr::Call { callee, args, .. } } = &tree[0] else {
        panic!("no call")
    };
    assert_eq!(args.len(), 1);
    assert!(matches!(&**callee, Expr::Call { args, .. } if args.len() == 2));
    let Stmt::Expression { expression: Expr::Logical { operator, right, .. } } = &tree[1] else {
        panic!("no logic")
    };
    assert_eq!(operator.token_type, TokenType::Or);
    assert!(matches!(&**right, Expr::Logical { operator, .. } if operator.token_type == TokenType::And));
}

#[test]
fn token_stream() {
    let tokens = Scanner::new("a b").scan_tokens().unwrap();
    let mut stream = TokenStream::new(tokens);
    assert!(stream.previous().is_none());
    assert_eq!(stream.peek().unwrap().lexeme, Some("a".to_string()));
    assert!(stream.take_if(|t| t.token_type == TokenType::Number).is_none());
    assert_eq!(stream.take_if(|t| t.token_type == TokenType::Identifier).unwrap().lexeme, Some("a".to_string()));
    assert_eq!(stream.previous().unwrap().lexeme, Some("a".to_string()));
    assert_eq!(stream.next().unwrap().lexeme, Some("b".to_string()));
    assert_eq!(stream.next().unwrap().token_type, TokenType::Eof);
    assert!(stream.next().is_none());
    assert!(stream.peek().is_none());
}

#[test]
fn parser_rules_are_public() {
    let mut parser = Parser::new(Scanner::new("var x = 1; print x; fun f() {} x;").scan_tokens().unwrap());
    assert!(matches!(parser.declaration(), Ok(Stmt::Var { .. })));
    assert!(matches!(parser.statement(), Ok(Stmt::Print { .. })));
    assert!(matches!(parser.declaration(), Ok(Stmt::Function { .. })));
    assert!(matches!(parser.statement(), Ok(Stmt::Expression { .. })));
    let mut parser = Parser::new(Scanner::new("x = 1; f() {}").scan_tokens().unwrap());
    assert!(matches!(parser.var_declaration(), Ok(Stmt::Var { initializer: Some(_), .. })));
    assert!(matches!(parser.function_declaration(), Ok(Stmt::Function { .. })));
}

#[test]
fn command_line() {
    assert!(matches!(CliArgs::new(Vec::new()), Err(CliError::NoArguments)));
    assert!(matches!(
        CliArgs::new(vec!["a".to_string(), "b".to_string()]),
        Err(CliError::InvalidArgumentsLength)
    ));
    let args = CliArgs::new(vec!["file.lox".to_string()]).unwrap();
    assert_eq!(args.source, "file.lox");
    let cli = Cli::new(args, Ok("print 1;".to_string())).unwrap();
    assert_eq!(cli.source, "print 1;");
    assert_eq!(cli.args.source, "file.lox");
    let args = CliArgs::new(vec!["gone.lox".to_string()]).unwrap();
    assert!(matches!(
        Cli::new(args, Err("not found".to_string())),
        Err(CliError::FileReadError { path, error }) if path == "gone.lox" && error == "not found"
    ));
}

fn call_with(arguments: usize) -> String {
    let list: Vec<String> = (0..arguments).map(|i| i.to_string()).collect();
    format!("f({});", list.join(","))
}

#[test]
fn calls_with_too_many_arguments_are_warned_of() {
    assert_eq!(ARGUMENT_LIMIT, 255);
    let fine = parse(&call_with(254)).unwrap();
    assert!(oversized_calls(&fine).is_empty());
    let source = call_with(255);
    let large = parse(&source).unwrap();
    let close = source.len() - 2;
    assert_eq!(oversized_calls(&large), vec![Coordinate::new(close, 1, close + 1)]);
    let nested = format!("fun g() {{ if (true) {{ print {} }} }} var x = {}", call_with(300), call_with(256));
    assert_eq!(oversized_calls(&parse(&nested).unwrap()).len(), 2);
    assert!(oversized_calls(&parse("f(1, 2); g(f(3));").unwrap()).is_empty());
}

#[test]
fn scopes_can_be_copied() {
    let mut env = Environment::new();
    let outer = env.new_rc(None);
    let inner = env.new_rc(Some(outer));
    env.define(outer, "a".to_string(), string("outer"));
    env.define(inner, "b".to_string(), string("inner"));
    let copy = env.deep_clone(inner);
    assert_eq!(copy, 2);
    assert_eq!(text(env.get(copy, "b")), Some("inner".to_string()));
    assert_eq!(text(env.get(copy, "a")), Some("outer".to_string()));
    env.define(inner, "c".to_string(), string("later"));
    assert!(env.get(copy, "c").is_none());
    env.define(copy, "b".to_string(), string("changed"));
    assert_eq!(text(env.get(inner, "b")), Some("inner".to_string()));
    let orphan = env.deep_clone(17);
    assert!(env.get(orphan, "a").is_none());
    assert!(env.get(orphan, "b").is_none());
}

#[test]
fn literals_become_values() {
    assert!(matches!(LoxObject::from_literal(&Literal::Nil), Ok(LoxObject::Nil)));
    assert!(matches!(LoxObject::from_literal(&Literal::Boolean(true)), Ok(LoxObject::Boolean(true))));
    assert!(matches!(LoxObject::from_literal(&Literal::String("s".to_string())), Ok(LoxObject::String(s)) if s == "s"));
    assert!(matches!(LoxObject::from_literal(&Literal::Number("1.5".to_string())), Err(text) if text == "1.5"));
}

#[test]
fn index_counts_bytes_and_column_counts_characters() {
    let source = "\"é\" x // ü\n  y";
    let tokens = Scanner::new(source).scan_tokens().unwrap();
    assert_eq!(tokens.len(), 4);
    assert_eq!(tokens[0].coordinate, Coordinate::new(0, 1, 1));
    assert_eq!(tokens[0].literal, Literal::String("é".to_string()));
    assert_eq!(tokens[1].coordinate, Coordinate::new(5, 1, 5));
    assert_eq!(tokens[2].coordinate, Coordinate::new(15, 2, 3));
    for (token, (index, _)) in tokens[..3].iter().zip(
        source.char_indices().filter(|(i, _)| [0, 5, 15].contains(i)),
    ) {
        assert_eq!(token.coordinate.index, index);
        let lexeme = token.lexeme.as_ref().unwrap();
        assert_eq!(&source[index..index + lexeme.len()], lexeme);
    }
    assert_eq!(tokens[3].coordinate, tokens[2].coordinate);
    let mut chars = CharWithCoordinate::new("𝄞a");
    assert_eq!(chars.next(), Some(('𝄞', Coordinate::new(0, 1, 1))));
    assert_eq!(chars.next(), Some(('a', Coordinate::new(4, 1, 2))));
}
