use rlox::ast::{Expr, Stmt};
use rlox::errors::RuntimeError;
use rlox::interpreter::{Interpreter, LoxVisitor};
use rlox::machine::{Action, Event};
use rlox::parser::Parser;
use rlox::primitive::{LoxObject, Number};
use rlox::scanner::Scanner;
use rlox::token::{Coordinate, Literal, Token, TokenType};

fn number(value: f64) -> Number {
    Number { bits: value.to_bits() }
}

fn float(n: Number) -> f64 {
    f64::from_bits(n.bits)
}

fn answer(action: Action, printed: &mut Vec<String>) -> Result<Event, Option<RuntimeError>> {
    match action {
        Action::Continue => Ok(Event::Nothing),
        Action::Finished => Err(None),
        Action::Failed(e) => Err(Some(e)),
        Action::Stopped => panic!("the evaluator was driven after it had failed"),
        Action::ParseNumber(text) => Ok(Event::Number(number(text.parse::<f64>().unwrap()))),
        Action::Arithmetic { operator, left, right } => {
            let (a, b) = (float(left), float(right));
            Ok(Event::Number(number(match operator {
                TokenType::Plus => a + b,
                TokenType::Minus => a - b,
                TokenType::Star => a * b,
                TokenType::Slash => a / b,
                _ => panic!("no arithmetic operator"),
            })))
        }
        Action::Compare { operator, left, right } => {
            let (a, b) = (float(left), float(right));
            Ok(Event::Boolean(match operator {
                TokenType::Greater => a > b,
                TokenType::GreaterEqual => a >= b,
                TokenType::Less => a < b,
                TokenType::LessEqual => a <= b,
                TokenType::EqualEqual => a == b,
                TokenType::BangEqual => a != b,
                _ => panic!("no comparison operator"),
            }))
        }
        Action::Negate(n) => Ok(Event::Number(number(-float(n)))),
        Action::Format(n) => Ok(Event::Text(format!("{}", float(n)))),
        Action::Print(line) => {
            printed.push(line);
            Ok(Event::Nothing)
        }
        Action::Clock => Ok(Event::Number(number(1234.5))),
    }
}

fn drive(statements: &Vec<Stmt>) -> (Vec<String>, Option<RuntimeError>) {
    let mut printed = Vec::new();
    let mut interpreter = Interpreter::new();
    interpreter.interpret(statements);
    let mut event = Event::Nothing;
    loop {
        let action = interpreter.step(event);
        match answer(action, &mut printed) {
            Ok(next) => event = next,
            Err(end) => return (printed, end),
        }
    }
}

fn parse(source: &str) -> Vec<Stmt> {
    let tokens = Scanner::new(source).scan_tokens().unwrap();
    Parser::new(tokens).parse().unwrap()
}

fn run(source: &str) -> (Vec<String>, Option<RuntimeError>) {
    drive(&parse(source))
}

fn output(source: &str) -> Vec<String> {
    let (printed, error) = run(source);
    assert_eq!(error, None);
    printed
}

fn failure(source: &str) -> (Vec<String>, RuntimeError) {
    let (printed, error) = run(source);
    (printed, error.expect("the program should fail"))
}

#[test]
fn arithmetic_and_precedence() {
    assert_eq!(output("print 1 + 2 * 3;"), vec!["7"]);
}

#[test]
fn string_concatenation_with_number() {
    assert_eq!(output("print \"hi \" + 42;"), vec!["hi 42"]);
    assert_eq!(output("print 42 + \" hi\";"), vec!["42 hi"]);
    assert_eq!(output("print \"a\" + \"b\";"), vec!["ab"]);
    assert_eq!(output("print \"a\" + nil;"), vec!["anil"]);
    assert_eq!(output("print true + \"a\";"), vec!["truea"]);
}

#[test]
fn closure_reads_through_its_captured_scope() {
    // The function captures the scope of the block, which it shares with
    // the block: a variable that the block defines later is seen by the
    // next call.
    let source = "var a = \"global\";\n{ fun showA() { print a; }\n  showA();\n  var a = \"block\";\n  showA(); }";
    assert_eq!(output(source), vec!["global", "block"]);
}

#[test]
fn fibonacci_by_iteration_and_return() {
    let source = "fun f(n){ if(n<=1) return n; var a=0; var b=1; while(n>1){ var c=a+b; a=b; b=c; n=n-1; } return b; } print f(10);";
    assert_eq!(output(source), vec!["55"]);
}

#[test]
fn break_exits_a_loop() {
    assert_eq!(
        output("var i=0; while(true){ if(i==3) break; i = i+1; } print i;"),
        vec!["3"]
    );
}

#[test]
fn undefined_variable_reports_coordinate() {
    let (printed, error) = failure("print x;");
    assert!(printed.is_empty());
    let line = error.describe();
    assert!(line.contains("Undefined variable \"x\""));
    assert!(line.contains("@(1:7)"));
    assert_eq!(line, "RuntimeError: Undefined variable \"x\" @(1:7)");
}

#[test]
fn closure_sees_current_value() {
    assert_eq!(
        output("var a = 1; fun f() { return a; } a = 2; print f();"),
        vec!["2"]
    );
    assert_eq!(
        output("fun counter() { var n = 0; fun next() { n = n + 1; return n; } return next; } var c = counter(); c(); c(); print c();"),
        vec!["3"]
    );
}

#[test]
fn closure_outlives_its_block() {
    assert_eq!(
        output("var f; { var hidden = \"kept\"; fun show() { print hidden; } f = show; } f();"),
        vec!["kept"]
    );
}

#[test]
fn short_circuit_skips_the_right_operand() {
    assert_eq!(output("var x=0; false and (x=1); print x==0;"), vec!["true"]);
    assert_eq!(output("var x=0; true or (x=1); print x==0;"), vec!["true"]);
    assert_eq!(output("var x=0; nil and (x=1); print x;"), vec!["0"]);
    assert_eq!(output("var x=0; true and (x=1); print x;"), vec!["1"]);
    assert_eq!(output("var x=0; false or (x=1); print x;"), vec!["1"]);
    assert_eq!(output("print 1 or 2;"), vec!["1"]);
    assert_eq!(output("print nil or 2;"), vec!["2"]);
    assert_eq!(output("print 1 and 2;"), vec!["2"]);
    assert_eq!(output("print false and 2;"), vec!["false"]);
}

#[test]
fn truthiness_of_values() {
    assert!(LoxObject::Number(number(0.0)).is_truthy());
    assert!(LoxObject::Number(number(-0.0)).is_truthy());
    assert!(LoxObject::String(String::new()).is_truthy());
    assert!(LoxObject::Boolean(true).is_truthy());
    assert!(LoxObject::Function(0).is_truthy());
    assert!(!LoxObject::Boolean(false).is_truthy());
    assert!(!LoxObject::Nil.is_truthy());
    assert_eq!(
        output("if (0) print \"zero\"; if (\"\") print \"empty\"; if (nil) print \"nil\"; else print \"not nil\"; if (false) print \"false\";"),
        vec!["zero", "empty", "not nil"]
    );
    assert_eq!(output("print !0; print !nil; print !\"\"; print !false;"),
        vec!["false", "true", "false", "true"]);
}

#[test]
fn literal_truthiness() {
    assert!(Literal::Number("0".to_string()).is_truthy());
    assert!(Literal::String(String::new()).is_truthy());
    assert!(Literal::Boolean(true).is_truthy());
    assert!(!Literal::Boolean(false).is_truthy());
    assert!(!Literal::Nil.is_truthy());
    assert_eq!(Literal::Number("1.5".to_string()).to_number(), Ok("1.5".to_string()));
    assert_eq!(Literal::Nil.to_number(), Err("Cannot convert to number"));
}

#[test]
fn arithmetic_operators() {
    assert_eq!(output("print 7 - 2; print 3 * 4; print 9 / 2; print -3; print (1 + 2) * 3;"),
        vec!["5", "12", "4.5", "-3", "9"]);
    assert_eq!(output("print .5 + .25;"), vec!["0.75"]);
}

#[test]
fn comparison_and_equality() {
    assert_eq!(output("print 1 < 2; print 2 <= 2; print 1 > 2; print 1 >= 2;"),
        vec!["true", "true", "false", "false"]);
    assert_eq!(output("print 1 == 1; print 1 != 1; print 1 == 2; print 1 != 2;"),
        vec!["true", "false", "false", "true"]);
    assert_eq!(output("print \"a\" == \"a\"; print \"a\" == \"b\"; print \"a\" != \"b\";"),
        vec!["true", "false", "true"]);
    assert_eq!(output("print nil == nil; print nil == false; print 1 == \"1\"; print true == true; print true != false;"),
        vec!["true", "false", "false", "true", "true"]);
    assert_eq!(output("fun f() {} print f == f;"), vec!["false"]);
}

#[test]
fn variables_and_scopes() {
    assert_eq!(output("var a; print a;"), vec!["nil"]);
    assert_eq!(output("var a = 1; var a = 2; print a;"), vec!["2"]);
    assert_eq!(output("var a = 1; { var a = 2; print a; } print a;"), vec!["2", "1"]);
    assert_eq!(output("var a = 1; { a = 2; } print a;"), vec!["2"]);
    assert_eq!(output("var a = 1; print a = 5;"), vec!["5"]);
}

#[test]
fn compound_assignment() {
    assert_eq!(output("var x = 1; x += 2; print x; x -= 1; print x; x *= 10; print x; x /= 4; print x;"),
        vec!["3", "2", "20", "5"]);
}

#[test]
fn for_loops() {
    assert_eq!(output("for (var i = 0; i < 3; i = i + 1) print i;"), vec!["0", "1", "2"]);
    assert_eq!(output("var i = 0; for (; i < 2; i += 1) { print i; } print i;"),
        vec!["0", "1", "2"]);
    assert_eq!(output("for (var i = 0;; i = i + 1) { if (i == 2) break; print i; }"),
        vec!["0", "1"]);
}

#[test]
fn functions_and_returns() {
    assert_eq!(output("fun add(a, b) { return a + b; } print add(1, 2);"), vec!["3"]);
    assert_eq!(output("fun nothing() {} print nothing();"), vec!["nil"]);
    assert_eq!(output("fun early() { return; print 1; } print early();"), vec!["nil"]);
    assert_eq!(output("fun f() {} print f;"), vec!["[__object__]"]);
    assert_eq!(output("var twice = fun (x) { return x * 2; }; print twice(4);"), vec!["8"]);
    assert_eq!(output("print fun (x) { return x + 1; }(1);"), vec!["2"]);
    assert_eq!(output("fun f(a) { print a; } f(1, 2);"), vec!["1"]);
    assert_eq!(output("fun fact(n) { if (n <= 1) return 1; return n * fact(n - 1); } print fact(5);"),
        vec!["120"]);
}

#[test]
fn missing_arguments_read_as_nil() {
    assert_eq!(output("fun f(a, b) { print a; print b; } f(1);"), vec!["1", "nil"]);
    assert_eq!(output("var b = \"outer\"; fun f(a, b) { b = a; print b; } f(1); print b;"),
        vec!["1", "outer"]);
    assert_eq!(output("fun f(a) { print a; } f();"), vec!["nil"]);
}

#[test]
fn a_failed_program_leaves_the_evaluator_where_it_started() {
    let failing = parse("var kept = 1; { { fun f() { { missing; } } f(); } }");
    let next = parse("print kept;");
    let mut interpreter = Interpreter::new();
    let home = interpreter.current_environment();
    interpreter.interpret(&failing);
    let mut printed = Vec::new();
    let mut event = Event::Nothing;
    let error = loop {
        match answer(interpreter.step(event), &mut printed) {
            Ok(e) => event = e,
            Err(end) => break end,
        }
    };
    assert!(matches!(error, Some(RuntimeError::UndefinedVariable(_))));
    assert_eq!(interpreter.current_environment(), home);
    interpreter.interpret(&next);
    let mut event = Event::Nothing;
    let end = loop {
        match answer(interpreter.step(event), &mut printed) {
            Ok(e) => event = e,
            Err(end) => break end,
        }
    };
    assert_eq!(end, None);
    assert_eq!(printed, vec!["1"]);
    assert_eq!(interpreter.current_environment(), home);
    assert!(interpreter.is_finished());
}

#[test]
fn arguments_are_evaluated_left_to_right_after_the_callee() {
    let source = "fun show(x) { print x; return x; } fun pick() { print \"callee\"; return fun (a, b) { print a + b; }; } pick()(show(1), show(2));";
    assert_eq!(output(source), vec!["callee", "1", "2", "3"]);
}

#[test]
fn return_travels_through_loops_and_blocks() {
    assert_eq!(
        output("fun find() { var i = 0; while (true) { { if (i == 4) return i; } i = i + 1; } } print find();"),
        vec!["4"]
    );
}

#[test]
fn break_leaves_only_the_loop() {
    assert_eq!(
        output("fun f() { while (true) { break; } return \"after\"; } print f();"),
        vec!["after"]
    );
}

#[test]
fn clock_is_a_native_function() {
    assert_eq!(output("print clock();"), vec!["1234.5"]);
    assert_eq!(output("print clock;"), vec!["[__object__]"]);
    assert_eq!(output("var start = clock(); print clock() - start;"), vec!["0"]);
}

#[test]
fn clock_failure_is_a_native_error() {
    let statements = parse("print 1; clock();");
    let mut interpreter = Interpreter::new();
    interpreter.interpret(&statements);
    let mut printed = Vec::new();
    let mut event = Event::Nothing;
    let error = loop {
        match interpreter.step(event) {
            Action::Clock => event = Event::Failure("the clock is broken".to_string()),
            other => match answer(other, &mut printed) {
                Ok(next) => event = next,
                Err(end) => break end,
            },
        }
    };
    assert_eq!(printed, vec!["1"]);
    assert_eq!(error, Some(RuntimeError::Native("the clock is broken".to_string())));
    assert!(matches!(interpreter.step(Event::Nothing), Action::Stopped));
}

#[test]
fn invalid_math_operation() {
    let (printed, error) = failure("print \"before\"; print 1 - \"a\";");
    assert_eq!(printed, vec!["before"]);
    assert_eq!(
        error.describe(),
        "RuntimeError: Invalid math operation \"1 - a\" @(1:25)"
    );
    let (_, error) = failure("print nil * 2;");
    assert_eq!(
        error.describe(),
        "RuntimeError: Invalid math operation \"nil * 2\" @(1:11)"
    );
    let (_, error) = failure("print true + nil;");
    assert!(matches!(error, RuntimeError::InvalidMathOp(_, _, _)));
    let (_, error) = failure("print true / false;");
    assert!(matches!(error, RuntimeError::InvalidMathOp(_, _, _)));
}

#[test]
fn invalid_comparison_operation() {
    let (_, error) = failure("print 1 < \"a\";");
    assert_eq!(
        error.describe(),
        "RuntimeError: Invalid comparison operation \"1 < a\" @(1:9)"
    );
    let (_, error) = failure("print \"a\" >= \"b\";");
    assert!(matches!(error, RuntimeError::InvalidComparisonOp(_, _, _)));
}

#[test]
fn invalid_unary_operation() {
    let (_, error) = failure("print -\"a\";");
    assert_eq!(
        error.describe(),
        "RuntimeError: Invalid unary operation \"- a\" @(1:7)"
    );
}

#[test]
fn invalid_logical_operation() {
    let operator = Token::new(
        TokenType::Plus,
        Some("+".to_string()),
        Literal::Nil,
        Coordinate::new(2, 1, 3),
    );
    let truth = |value: bool| Expr::Literal {
        value: Token::new(
            if value { TokenType::True } else { TokenType::False },
            Some(value.to_string()),
            Literal::Boolean(value),
            Coordinate::new(0, 1, 1),
        ),
    };
    let statements = vec![Stmt::Expression {
        expression: Expr::Logical {
            left: Box::new(truth(true)),
            operator,
            right: Box::new(truth(false)),
        },
    }];
    let (_, error) = drive(&statements);
    let error = error.unwrap();
    assert!(matches!(error, RuntimeError::InvalidLogicalOp(_)));
    assert_eq!(
        error.describe(),
        "RuntimeError: Invalid logical operation \"+\" @(1:3)"
    );
}

#[test]
fn assignment_to_undefined_variable() {
    let (_, error) = failure("x = 1;");
    assert_eq!(error.describe(), "RuntimeError: Undefined variable \"x\" @(1:1)");
}

#[test]
fn calling_what_is_no_function() {
    let (_, error) = failure("\"abc\"();");
    assert_eq!(
        error.describe(),
        "RuntimeError: Invalid call expression trying to call literal value -> abc @(1:7)"
    );
    let (_, error) = failure("var n = 12; n(1, 2);");
    assert_eq!(
        error.describe(),
        "RuntimeError: Invalid call expression trying to call literal value -> 12 @(1:19)"
    );
    let (_, error) = failure("nil();");
    assert!(matches!(error, RuntimeError::Uncallable(_, _)));
}

#[test]
fn errors_keep_earlier_output_and_stop_the_program() {
    let (printed, error) = failure("print 1; print 2; print missing; print 3;");
    assert_eq!(printed, vec!["1", "2"]);
    assert!(matches!(error, RuntimeError::UndefinedVariable(_)));
}

#[test]
fn native_error_describes_itself() {
    assert_eq!(RuntimeError::Native("broken".to_string()).describe(), "RuntimeError: broken");
}

#[test]
fn a_wrong_answer_from_the_host_is_an_error() {
    let statements = parse("print 1;");
    let mut interpreter = Interpreter::new();
    interpreter.interpret(&statements);
    let mut event = Event::Nothing;
    let error = loop {
        match interpreter.step(event) {
            Action::Continue => event = Event::Nothing,
            Action::ParseNumber(_) => event = Event::Boolean(true),
            Action::Failed(e) => break e,
            other => panic!("unexpected {:?}", other),
        }
    };
    assert!(matches!(error, RuntimeError::Native(_)));
}

#[test]
fn run_stops_at_the_limit_and_at_requests() {
    let statements = parse("var i = 0; while (true) { i = i; }");
    let mut interpreter = Interpreter::new();
    interpreter.interpret(&statements);
    let mut event = Event::Nothing;
    let mut continued = 0;
    for _ in 0..50 {
        match interpreter.run(event, 7) {
            Action::Continue => {
                continued += 1;
                event = Event::Nothing;
            }
            Action::ParseNumber(text) => {
                assert_eq!(text, "0");
                event = Event::Number(number(0.0));
            }
            other => panic!("unexpected {:?}", other),
        }
    }
    assert!(continued > 0);
    assert!(matches!(interpreter.run(Event::Nothing, 0), Action::Continue));
    assert!(!interpreter.is_finished());
}

#[test]
fn two_runs_are_the_same() {
    let source = "var a = 1; fun f(x) { return x * 2 + a; } print f(3) + \"!\"; print clock() > 0; print missing;";
    let first = run(source);
    let second = run(source);
    assert_eq!(first, second);
    assert_eq!(first.0, vec!["7!", "true"]);
}

#[test]
fn evaluator_reads_variables_for_its_host() {
    let statements = parse("var a = \"text\"; var f = clock;");
    let mut interpreter = Interpreter::new();
    assert!(interpreter.is_finished());
    interpreter.interpret(&statements);
    assert!(!interpreter.is_finished());
    while !matches!(interpreter.run(Event::Nothing, 1000), Action::Finished) {}
    assert!(interpreter.is_finished());
    assert!(matches!(interpreter.get("a"), Some(LoxObject::String(s)) if s == "text"));
    assert!(matches!(interpreter.get("f"), Some(LoxObject::Function(0))));
    assert!(matches!(interpreter.get("clock"), Some(LoxObject::Function(0))));
    assert!(interpreter.get("b").is_none());
    assert_eq!(interpreter.current_environment(), 1);
    let inner = interpreter.create_new_environment();
    interpreter.set_env(inner);
    assert_eq!(interpreter.current_environment(), inner);
    assert!(matches!(interpreter.get("a"), Some(LoxObject::String(_))));
}

#[test]
fn a_failed_block_leaves_the_evaluator_where_the_block_was_entered() {
    let statements = parse("print 1; { print missing; }");
    let mut interpreter = Interpreter::new();
    let entered_from = interpreter.create_new_environment();
    interpreter.set_env(entered_from);
    let inside = interpreter.create_new_environment();
    let mut printed = Vec::new();
    let mut event = match answer(interpreter.execute_block(inside, &statements), &mut printed) {
        Ok(e) => e,
        Err(_) => panic!("the block has not run yet"),
    };
    let error = loop {
        match interpreter.step(event) {
            Action::Failed(e) => break e,
            other => match answer(other, &mut printed) {
                Ok(e) => event = e,
                Err(_) => panic!("the block should fail"),
            },
        }
    };
    assert_eq!(printed, vec!["1"]);
    assert!(matches!(error, RuntimeError::UndefinedVariable(_)));
    assert_eq!(interpreter.current_environment(), entered_from);
    assert_ne!(entered_from, 1);
}

#[test]
fn the_visitor_is_the_evaluator() {
    let statements = parse("print 1;");
    let mut visitor = LoxVisitor::new();
    visitor.interpret(&statements);
    assert!(matches!(visitor.run(Event::Nothing, 100), Action::ParseNumber(_)));
}

#[test]
fn top_level_exit_is_ignored() {
    assert_eq!(output("print 1; return 5; print 2;"), vec!["1", "2"]);
}
