use lox::error_hadling::runtime_error;
use lox::interpreter::{Action, Error, Interpreter, Request};
use lox::parser::Parser;
use lox::scanner::Scanner;
use lox::semantics::{ErrorKind, Event};
use lox::stmt::Stmt;
use lox::token::Token;
use lox::token_type::TokenType;
use lox::value::Value;

/// What running a program produced.
struct Outcome {
    printed: Vec<String>,
    results: Vec<Value>,
    failures: Vec<Error>,
    finished: bool,
}

fn compute(request: &Request) -> u64 {
    match request {
        Request::Parse(text) => text.parse::<f64>().unwrap().to_bits(),
        Request::Add(a, b) => (f64::from_bits(*a) + f64::from_bits(*b)).to_bits(),
        Request::Subtract(a, b) => (f64::from_bits(*a) - f64::from_bits(*b)).to_bits(),
        Request::Multiply(a, b) => (f64::from_bits(*a) * f64::from_bits(*b)).to_bits(),
        Request::Divide(a, b) => (f64::from_bits(*a) / f64::from_bits(*b)).to_bits(),
    }
}

fn render(value: &Value) -> String {
    match Interpreter::stringify(value) {
        Some(text) => text,
        None => match value {
            Value::Number(bits) => format!("{}", f64::from_bits(*bits)),
            _ => unreachable!(),
        },
    }
}

fn parse(source: &str) -> Vec<Stmt> {
    let mut scanner = Scanner::new(source.to_string());
    let tokens = scanner.scan_tokens().to_vec();
    assert!(scanner.get_errors().is_empty(), "{:?}", scanner.get_errors());
    let mut parser = Parser::new(tokens);
    let statements = parser.parser();
    assert!(parser.get_errors().is_empty(), "{:?}", parser.get_errors());
    statements
}

fn drive(interpreter: &mut Interpreter, limit: usize) -> Outcome {
    let mut outcome = Outcome { printed: vec![], results: vec![], failures: vec![], finished: false };
    let mut event = Event::Resume;
    for _ in 0..limit {
        match interpreter.step(event) {
            Action::Continue => event = Event::Resume,
            Action::Finished => {
                outcome.finished = true;
                break;
            }
            Action::Print(value) => {
                outcome.printed.push(render(&value));
                event = Event::Resume;
            }
            Action::Result(value) => {
                outcome.results.push(value);
                event = Event::Resume;
            }
            Action::Report(error) => {
                outcome.failures.push(error);
                event = Event::Resume;
            }
            Action::Compute(request) => event = Event::Number(compute(&request)),
        }
    }
    outcome
}

fn run(source: &str) -> Outcome {
    let mut interpreter = Interpreter::new();
    interpreter.interpret(parse(source));
    drive(&mut interpreter, 100_000)
}

fn printed(source: &str) -> Vec<String> {
    let outcome = run(source);
    assert!(outcome.finished);
    assert!(outcome.failures.is_empty(), "{:?}", outcome.failures);
    outcome.printed
}

/// Evaluates one expression by itself, after the declarations in `setup`.
fn evaluate_after(setup: &str, expression: &str) -> Result<Value, Error> {
    let mut interpreter = Interpreter::new();
    interpreter.interpret(parse(setup));
    let prepared = drive(&mut interpreter, 100_000);
    assert!(prepared.finished);
    assert!(prepared.failures.is_empty());
    let mut statements = parse(&format!("{};", expression));
    assert_eq!(statements.len(), 1);
    let e = match statements.remove(0) {
        Stmt::Expr(e) => e,
        other => panic!("not an expression: {:?}", other),
    };
    interpreter.get_expression_value(e);
    let mut outcome = drive(&mut interpreter, 100_000);
    assert!(outcome.finished);
    assert!(outcome.printed.is_empty());
    assert_eq!(outcome.results.len() + outcome.failures.len(), 1);
    match outcome.results.pop() {
        Some(v) => Ok(v),
        None => Err(outcome.failures.pop().unwrap()),
    }
}

fn evaluate(expression: &str) -> Result<Value, Error> {
    evaluate_after("", expression)
}

fn number(expression: &str) -> f64 {
    match evaluate(expression) {
        Ok(Value::Number(bits)) => f64::from_bits(bits),
        other => panic!("not a number: {:?}", other),
    }
}

fn boolean(expression: &str) -> bool {
    match evaluate(expression) {
        Ok(Value::Boolean(b)) => b,
        other => panic!("not a boolean: {:?}", other),
    }
}

fn text(expression: &str) -> String {
    match evaluate(expression) {
        Ok(Value::String(s)) => s,
        other => panic!("not a string: {:?}", other),
    }
}

fn failure(expression: &str) -> Error {
    match evaluate(expression) {
        Err(e) => e,
        Ok(v) => panic!("no failure: {:?}", v),
    }
}

fn lines(items: &[&str]) -> Vec<String> {
    items.iter().map(|s| s.to_string()).collect()
}

#[test]
fn precedence_decides_the_value() {
    assert_eq!(number("1 + 2 * 3"), 7.0);
    assert_eq!(printed("print 1 + 2 * 3;"), lines(&["7"]));
}

#[test]
fn grouping_overrides_precedence() {
    assert_eq!(number("(1 + 2) * 3"), 9.0);
}

#[test]
fn block_shadowing_restores_outer_binding() {
    assert_eq!(printed("var a = 1; { var a = 2; print a; } print a;"), lines(&["2", "1"]));
}

#[test]
fn uninitialized_variable_is_nil() {
    assert_eq!(printed("var a; print a;"), lines(&["nil"]));
}

#[test]
fn undefined_variable_is_reported_and_later_statements_run() {
    let outcome = run("print a; print 2;");
    assert!(outcome.finished);
    assert_eq!(outcome.printed, lines(&["2"]));
    assert_eq!(outcome.failures.len(), 1);
    assert_eq!(outcome.failures[0].kind, ErrorKind::UndefinedVariable);
    assert_eq!(outcome.failures[0].token.get_lexeme(), "a");
    assert_eq!(outcome.failures[0].token.get_line(), 1);
    assert_eq!(outcome.failures[0].message, "[ERROR] a is not defined!");
}

#[test]
fn adding_a_number_and_a_string_is_a_type_error() {
    let e = failure("1 + \"a\"");
    assert_eq!(e.kind, ErrorKind::TypeError);
    assert_eq!(e.token.get_token_type(), TokenType::Plus);
    assert_eq!(e.token.get_lexeme(), "+");
    assert_eq!(e.message, "[ERROR] Operands of '+' must be two numbers or two strings.");
    let outcome = run("1 + \"a\";");
    assert!(outcome.finished);
    assert_eq!(outcome.failures.len(), 1);
    assert_eq!(outcome.failures[0].kind, ErrorKind::TypeError);
    assert_eq!(outcome.failures[0].token.get_lexeme(), "+");
}

#[test]
fn adding_two_strings_joins_them() {
    assert_eq!(text("\"a\" + \"b\""), "ab");
    assert_eq!(text("\"\" + \"\""), "");
    assert_eq!(text("\"a\" + \"b\" + \"c\""), "abc");
}

#[test]
fn logical_operators_return_an_operand() {
    assert_eq!(number("false or 1"), 1.0);
    assert_eq!(boolean("1 and false"), false);
    assert_eq!(number("1 or 2"), 1.0);
    assert_eq!(number("1 and 2"), 2.0);
    assert!(matches!(evaluate("nil and 1"), Ok(Value::Nil)));
    assert!(matches!(evaluate("nil or false"), Ok(Value::Boolean(false))));
    assert_eq!(text("nil or \"x\""), "x");
    assert_eq!(number("0 or 5"), 0.0);
    assert_eq!(text("\"\" or 5"), "");
}

#[test]
fn logical_operators_short_circuit() {
    assert_eq!(boolean("true or missing"), true);
    assert_eq!(boolean("false and missing"), false);
    assert_eq!(failure("false or missing").kind, ErrorKind::UndefinedVariable);
    assert_eq!(failure("true and missing").kind, ErrorKind::UndefinedVariable);
    assert_eq!(
        printed("var a = 1; false and (a = 2); print a; true or (a = 3); print a;"),
        lines(&["1", "1"])
    );
}

#[test]
fn while_loop_counts_to_three() {
    let outcome = run("var x = 0; while (x < 3) { print x; x = x + 1; }");
    assert_eq!(outcome.printed, lines(&["0", "1", "2"]));
    assert!(outcome.failures.is_empty());
    assert!(outcome.finished);
}

#[test]
fn an_endless_loop_never_finishes() {
    let mut interpreter = Interpreter::new();
    interpreter.interpret(parse("while (true) {} print 1;"));
    let outcome = drive(&mut interpreter, 10_000);
    assert!(!outcome.finished);
    assert!(outcome.printed.is_empty());
    assert!(outcome.failures.is_empty());
}

#[test]
fn arithmetic_on_numbers() {
    assert_eq!(number("7 - 2"), 5.0);
    assert_eq!(number("7 * 2"), 14.0);
    assert_eq!(number("7 / 2"), 3.5);
    assert_eq!(number("0.1 + 0.2"), 0.1 + 0.2);
    assert_eq!(number("1 - 2 - 3"), -4.0);
    assert_eq!(number("2 * 3 + 4 * 5"), 26.0);
    assert_eq!(number("-3"), -3.0);
    assert_eq!(number("--3"), 3.0);
    assert_eq!(number("-(1 + 2)"), -3.0);
    assert_eq!(printed("print 10 / 4; print 3 * 0.5;"), lines(&["2.5", "1.5"]));
}

#[test]
fn division_follows_the_doubles() {
    assert_eq!(number("1 / 0"), f64::INFINITY);
    assert_eq!(number("-1 / 0"), f64::NEG_INFINITY);
    assert!(number("0 / 0").is_nan());
    assert_eq!(printed("print 1 / 0; print 0 / 0; print 1 / 3;"), lines(&[
        "inf",
        "NaN",
        "0.3333333333333333"
    ]));
    assert_eq!(boolean("0 / 0 == 0 / 0"), false);
    assert_eq!(boolean("0 / 0 != 0 / 0"), true);
    assert_eq!(boolean("0 / 0 < 1"), false);
    assert_eq!(boolean("0 == -0"), true);
}

#[test]
fn comparisons_on_numbers() {
    assert_eq!(boolean("1 < 2"), true);
    assert_eq!(boolean("2 < 1"), false);
    assert_eq!(boolean("2 <= 2"), true);
    assert_eq!(boolean("3 <= 2"), false);
    assert_eq!(boolean("3 > 2"), true);
    assert_eq!(boolean("2 > 2"), false);
    assert_eq!(boolean("2 >= 2"), true);
    assert_eq!(boolean("1 >= 2"), false);
    assert_eq!(boolean("-1 < 0"), true);
    assert_eq!(boolean("-2 < -1"), true);
    assert_eq!(boolean("0.1 + 0.2 > 0.3"), true);
}

#[test]
fn equality_on_values() {
    assert_eq!(boolean("1 == 1"), true);
    assert_eq!(boolean("1 == 2"), false);
    assert_eq!(boolean("1 != 2"), true);
    assert_eq!(boolean("true == true"), true);
    assert_eq!(boolean("true != false"), true);
    assert_eq!(boolean("nil == nil"), true);
    assert_eq!(boolean("nil != nil"), false);
    assert_eq!(boolean("nil == 1"), false);
    assert_eq!(boolean("nil != \"a\""), true);
    assert_eq!(boolean("false == nil"), false);
}

#[test]
fn equality_across_categories_is_a_type_error() {
    for source in ["true == 1", "1 == true", "1 != \"a\"", "\"a\" == false", "\"a\" == \"a\""] {
        let e = failure(source);
        assert_eq!(e.kind, ErrorKind::TypeError, "{}", source);
        assert!(
            e.token.get_token_type() == TokenType::EqualEqual
                || e.token.get_token_type() == TokenType::BangEqual
        );
    }
    assert_eq!(failure("true == 1").message, "[ERROR] Operands of '==' cannot be compared.");
    assert_eq!(failure("1 != true").message, "[ERROR] Operands of '!=' cannot be compared.");
}

#[test]
fn operators_reject_operands_of_the_wrong_category() {
    let cases = [
        ("1 - \"a\"", "-", "[ERROR] Operands of '-' must be numbers."),
        ("\"a\" * 2", "*", "[ERROR] Operands of '*' must be numbers."),
        ("nil / 2", "/", "[ERROR] Operands of '/' must be numbers."),
        ("true + 1", "+", "[ERROR] Operands of '+' must be two numbers or two strings."),
        ("\"a\" + nil", "+", "[ERROR] Operands of '+' must be two numbers or two strings."),
        ("1 < \"a\"", "<", "[ERROR] Operands of '<' must be numbers."),
        ("\"a\" <= \"b\"", "<=", "[ERROR] Operands of '<=' must be numbers."),
        ("nil > 1", ">", "[ERROR] Operands of '>' must be numbers."),
        ("true >= false", ">=", "[ERROR] Operands of '>=' must be numbers."),
        ("-\"a\"", "-", "[ERROR] Operand of '-' must be a number."),
        ("-nil", "-", "[ERROR] Operand of '-' must be a number."),
        ("-true", "-", "[ERROR] Operand of '-' must be a number."),
    ];
    for (source, operator, message) in cases {
        let e = failure(source);
        assert_eq!(e.kind, ErrorKind::TypeError, "{}", source);
        assert_eq!(e.token.get_lexeme(), operator, "{}", source);
        assert_eq!(e.message, message, "{}", source);
    }
}

#[test]
fn bang_negates_truthiness() {
    assert_eq!(boolean("!true"), false);
    assert_eq!(boolean("!false"), true);
    assert_eq!(boolean("!nil"), true);
    assert_eq!(boolean("!0"), false);
    assert_eq!(boolean("!\"\""), false);
    assert_eq!(boolean("!!nil"), false);
}

#[test]
fn literals_evaluate_to_their_values() {
    assert_eq!(number("12.5"), 12.5);
    assert_eq!(text("\"hello\""), "hello");
    assert_eq!(boolean("true"), true);
    assert_eq!(boolean("false"), false);
    assert!(matches!(evaluate("nil"), Ok(Value::Nil)));
    assert_eq!(number("9007199254740993"), 9007199254740992.0);
}

#[test]
fn print_renders_each_kind_of_value() {
    assert_eq!(
        printed("print 1; print 2.50; print -0.5; print \"a b\"; print true; print false; print nil; print 100000000000000000000;"),
        lines(&["1", "2.5", "-0.5", "a b", "true", "false", "nil", "100000000000000000000"])
    );
}

#[test]
fn assignment_needs_a_bound_name() {
    let e = failure("a = 1");
    assert_eq!(e.kind, ErrorKind::UndefinedVariable);
    assert_eq!(e.token.get_lexeme(), "a");
    let outcome = run("a = 1; var a = 2; a = 3; print a;");
    assert_eq!(outcome.failures.len(), 1);
    assert_eq!(outcome.printed, lines(&["3"]));
}

#[test]
fn assignment_does_not_evaluate_the_right_side_for_an_unbound_name() {
    let e = failure("a = 1 + \"x\"");
    assert_eq!(e.kind, ErrorKind::UndefinedVariable);
}

#[test]
fn assignment_stores_the_value_and_yields_the_right_side_again() {
    assert_eq!(printed("var a = 1; print a = 5; print a;"), lines(&["5", "5"]));
    assert_eq!(printed("var a = 1; print a = a + 1; print a;"), lines(&["3", "2"]));
    assert_eq!(
        printed("var a = 1; var b = 2; a = b = 7; print a; print b;"),
        lines(&["7", "7"])
    );
    match evaluate_after("var x = 10;", "x = x * 2") {
        Ok(Value::Number(bits)) => assert_eq!(f64::from_bits(bits), 40.0),
        other => panic!("not a number: {:?}", other),
    }
}

#[test]
fn assignment_reaches_outer_scopes() {
    assert_eq!(
        printed("var a = 1; { a = 2; { a = a + 1; } } print a;"),
        lines(&["3"])
    );
    assert_eq!(
        printed("var a = 1; { var a = 5; a = 6; print a; } print a;"),
        lines(&["6", "1"])
    );
}

#[test]
fn redeclaring_in_the_same_scope_rebinds() {
    assert_eq!(printed("var a = 1; var a = 2; print a;"), lines(&["2"]));
    assert_eq!(printed("var a = 1; var a; print a;"), lines(&["nil"]));
}

#[test]
fn names_declared_in_a_block_end_with_it() {
    let outcome = run("{ var a = 1; print a; } print a; print 2;");
    assert_eq!(outcome.printed, lines(&["1", "2"]));
    assert_eq!(outcome.failures.len(), 1);
    assert_eq!(outcome.failures[0].kind, ErrorKind::UndefinedVariable);
}

#[test]
fn nested_blocks_see_all_enclosing_scopes() {
    assert_eq!(
        printed("var a = 1; { var b = 2; { var c = 3; print a + b + c; } }"),
        lines(&["6"])
    );
}

#[test]
fn if_picks_a_branch_by_truthiness() {
    assert_eq!(printed("if (true) print 1; else print 2;"), lines(&["1"]));
    assert_eq!(printed("if (false) print 1; else print 2;"), lines(&["2"]));
    assert_eq!(printed("if (nil) print 1; else print 2;"), lines(&["2"]));
    assert_eq!(printed("if (0) print 1; else print 2;"), lines(&["1"]));
    assert_eq!(printed("if (\"\") print 1;"), lines(&["1"]));
    assert_eq!(printed("if (false) print 1; print 3;"), lines(&["3"]));
    assert_eq!(printed("if (1 < 2) { print 1; print 2; }"), lines(&["1", "2"]));
}

#[test]
fn a_failing_condition_abandons_the_statement() {
    let outcome = run("if (missing) print 1; else print 2; print 3;");
    assert_eq!(outcome.printed, lines(&["3"]));
    assert_eq!(outcome.failures.len(), 1);
    let outcome = run("while (1 < nil) print 1; print 3;");
    assert_eq!(outcome.printed, lines(&["3"]));
    assert_eq!(outcome.failures.len(), 1);
    assert_eq!(outcome.failures[0].token.get_lexeme(), "<");
}

#[test]
fn a_failing_statement_in_a_block_does_not_stop_the_block() {
    let outcome = run("{ print 1; print nope; print 2; } print 3;");
    assert!(outcome.finished);
    assert_eq!(outcome.printed, lines(&["1", "2", "3"]));
    assert_eq!(outcome.failures.len(), 1);
    assert_eq!(outcome.failures[0].token.get_lexeme(), "nope");
}

#[test]
fn a_failing_statement_keeps_what_it_did_before_failing() {
    let outcome = run("var a = 1; var b = (a = 2) + nil; print a; print b;");
    assert_eq!(outcome.printed, lines(&["2"]));
    assert_eq!(outcome.failures.len(), 2);
    assert_eq!(outcome.failures[0].kind, ErrorKind::TypeError);
    assert_eq!(outcome.failures[0].token.get_lexeme(), "+");
    assert_eq!(outcome.failures[1].kind, ErrorKind::UndefinedVariable);
    assert_eq!(outcome.failures[1].token.get_lexeme(), "b");
}

#[test]
fn a_failure_in_a_loop_body_does_not_stop_the_loop() {
    let outcome = run("var i = 0; while (i < 2) { print nope; i = i + 1; } print i;");
    assert!(outcome.finished);
    assert_eq!(outcome.printed, lines(&["2"]));
    assert_eq!(outcome.failures.len(), 2);
}

#[test]
fn the_scope_is_restored_after_a_failure_in_a_block() {
    let outcome = run("var a = 1; { var a = 2; print a + nil; } print a;");
    assert_eq!(outcome.printed, lines(&["1"]));
    assert_eq!(outcome.failures.len(), 1);
}

#[test]
fn failures_carry_the_line_of_their_token() {
    let outcome = run("print 1;\nprint 2 +\n nil;\nprint\n\n x;");
    assert_eq!(outcome.printed, lines(&["1"]));
    assert_eq!(outcome.failures.len(), 2);
    assert_eq!(outcome.failures[0].token.get_line(), 2);
    assert_eq!(outcome.failures[1].token.get_line(), 6);
    let first = &outcome.failures[0];
    assert_eq!(
        runtime_error(first.token.clone(), first.message.clone()),
        "[ERROR] Operands of '+' must be two numbers or two strings. \n[line 2]"
    );
}

#[test]
fn loops_see_the_changes_their_body_makes() {
    assert_eq!(
        printed("var n = 3; var f = 1; while (n > 0) { f = f * n; n = n - 1; } print f;"),
        lines(&["6"])
    );
    assert_eq!(printed("var n = 0; while (n < 3) n = n + 1; print n;"), lines(&["3"]));
    assert_eq!(printed("while (false) print 1; print 2;"), lines(&["2"]));
}

#[test]
fn a_loop_body_that_is_a_block_gets_a_new_scope_each_time() {
    assert_eq!(
        printed("var i = 0; while (i < 2) { var i2 = i * 2; print i2; i = i + 1; }"),
        lines(&["0", "2"])
    );
}

#[test]
fn the_interpreter_keeps_its_bindings_between_programs() {
    let mut interpreter = Interpreter::new();
    interpreter.interpret(parse("var a = 1;"));
    assert!(drive(&mut interpreter, 1000).finished);
    interpreter.interpret(parse("print a + 1;"));
    let outcome = drive(&mut interpreter, 1000);
    assert!(outcome.finished);
    assert_eq!(outcome.printed, lines(&["2"]));
}

#[test]
fn a_new_interpreter_has_nothing_to_do() {
    let mut interpreter = Interpreter::new();
    assert!(matches!(interpreter.step(Event::Resume), Action::Finished));
    assert!(matches!(interpreter.step(Event::Number(7)), Action::Finished));
    interpreter.interpret(Vec::new());
    assert!(matches!(interpreter.step(Event::Resume), Action::Finished));
}

#[test]
fn a_request_waits_for_its_answer() {
    let mut interpreter = Interpreter::new();
    interpreter.interpret(parse("print 2;"));
    assert!(matches!(interpreter.step(Event::Resume), Action::Continue));
    match interpreter.step(Event::Resume) {
        Action::Compute(Request::Parse(numeral)) => assert_eq!(numeral, "2"),
        other => panic!("no request: {:?}", other),
    }
    match interpreter.step(Event::Resume) {
        Action::Compute(Request::Parse(numeral)) => assert_eq!(numeral, "2"),
        other => panic!("no request: {:?}", other),
    }
    assert!(matches!(interpreter.step(Event::Number(2.0f64.to_bits())), Action::Continue));
    match interpreter.step(Event::Resume) {
        Action::Print(Value::Number(bits)) => assert_eq!(f64::from_bits(bits), 2.0),
        other => panic!("no print: {:?}", other),
    }
    assert!(matches!(interpreter.step(Event::Resume), Action::Finished));
}

#[test]
fn arithmetic_is_asked_of_the_driver_with_both_operands() {
    let mut interpreter = Interpreter::new();
    interpreter.interpret(parse("8 / 2; 8 - 2; 8 * 2; 8 + 2;"));
    let mut asked = Vec::new();
    let mut event = Event::Resume;
    loop {
        match interpreter.step(event) {
            Action::Finished => break,
            Action::Compute(request) => {
                event = Event::Number(compute(&request));
                match request {
                    Request::Parse(_) => {}
                    other => asked.push(other),
                }
            }
            _ => event = Event::Resume,
        }
    }
    let (eight, two) = (8.0f64.to_bits(), 2.0f64.to_bits());
    assert_eq!(asked.len(), 4);
    assert!(matches!(asked[0], Request::Divide(a, b) if a == eight && b == two));
    assert!(matches!(asked[1], Request::Subtract(a, b) if a == eight && b == two));
    assert!(matches!(asked[2], Request::Multiply(a, b) if a == eight && b == two));
    assert!(matches!(asked[3], Request::Add(a, b) if a == eight && b == two));
}

#[test]
fn malformed_nodes_are_reported() {
    let plus = Token::new(TokenType::Plus, "+".to_string(), None, 1);
    let one = || {
        lox::expr::Expr::Literal(lox::expr::Literal::new(Token::new(
            TokenType::True,
            "true".to_string(),
            None,
            1,
        )))
    };
    let mut interpreter = Interpreter::new();
    interpreter.get_expression_value(lox::expr::Expr::Literal(lox::expr::Literal::new(plus.clone())));
    let outcome = drive(&mut interpreter, 100);
    assert_eq!(outcome.failures.len(), 1);
    assert_eq!(outcome.failures[0].kind, ErrorKind::MalformedExpression);
    assert_eq!(outcome.failures[0].message, "[ERROR] '+' is not a literal.");
    interpreter.get_expression_value(lox::expr::Expr::Unary(lox::expr::Unary::new(
        plus.clone(),
        Box::new(one()),
    )));
    let outcome = drive(&mut interpreter, 100);
    assert_eq!(outcome.failures.len(), 1);
    assert_eq!(outcome.failures[0].kind, ErrorKind::MalformedExpression);
    assert_eq!(outcome.failures[0].message, "[ERROR] '+' is not an operator here.");
    interpreter.get_expression_value(lox::expr::Expr::Logical(lox::expr::Logical::new(
        Box::new(one()),
        plus.clone(),
        Box::new(one()),
    )));
    let outcome = drive(&mut interpreter, 100);
    assert_eq!(outcome.failures.len(), 1);
    assert_eq!(outcome.failures[0].kind, ErrorKind::MalformedExpression);
    let number_without_payload = Token::new(TokenType::Number, "1".to_string(), None, 1);
    interpreter.get_expression_value(lox::expr::Expr::Binary(lox::expr::Binary::new(
        Box::new(one()),
        Token::new(TokenType::Semicolon, ";".to_string(), None, 3),
        Box::new(lox::expr::Expr::Literal(lox::expr::Literal::new(number_without_payload))),
    )));
    let outcome = drive(&mut interpreter, 100);
    assert!(outcome.finished);
    assert_eq!(outcome.failures.len(), 1);
    assert_eq!(outcome.failures[0].message, "[ERROR] '1' is not a literal.");
    assert!(outcome.results.is_empty());
}
