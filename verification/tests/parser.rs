use lox::ast_printer::AstPrinter;
use lox::expr::Expr;
use lox::parser::Parser;
use lox::scanner::Scanner;
use lox::stmt::Stmt;
use lox::token::Token;
use lox::token_type::TokenType;

fn parse(source: &str) -> (Vec<Stmt>, Vec<String>) {
    let mut scanner = Scanner::new(source.to_string());
    let tokens = scanner.scan_tokens().to_vec();
    assert!(scanner.get_errors().is_empty());
    let mut parser = Parser::new(tokens);
    let statements = parser.parser();
    let errors = parser.get_errors().clone();
    (statements, errors)
}

fn expression(source: &str) -> Expr {
    let (mut statements, errors) = parse(source);
    assert!(errors.is_empty(), "{:?}", errors);
    assert_eq!(statements.len(), 1);
    match statements.remove(0) {
        Stmt::Expr(e) => e,
        other => panic!("not an expression statement: {:?}", other),
    }
}

fn shown(source: &str) -> String {
    AstPrinter::new().print(expression(source))
}

fn literal_lexeme(e: &Expr) -> String {
    match e {
        Expr::Literal(node) => node.value.get_lexeme(),
        other => panic!("not a literal: {:?}", other),
    }
}

#[test]
fn multiplication_binds_tighter_than_addition() {
    let e = expression("1 + 2 * 3;");
    match e {
        Expr::Binary(sum) => {
            assert_eq!(sum.operator.get_token_type(), TokenType::Plus);
            assert_eq!(literal_lexeme(&sum.left), "1");
            match *sum.right {
                Expr::Binary(product) => {
                    assert_eq!(product.operator.get_token_type(), TokenType::Star);
                    assert_eq!(literal_lexeme(&product.left), "2");
                    assert_eq!(literal_lexeme(&product.right), "3");
                }
                other => panic!("not a binary node: {:?}", other),
            }
        }
        other => panic!("not a binary node: {:?}", other),
    }
}

#[test]
fn grouping_overrides_precedence_in_the_tree() {
    assert_eq!(shown("(1 + 2) * 3;"), "(* (group (+ 1 2)) 3)");
    assert_eq!(shown("1 + 2 * 3;"), "(+ 1 (* 2 3))");
}

#[test]
fn binary_operators_associate_to_the_left() {
    assert_eq!(shown("1 - 2 - 3;"), "(- (- 1 2) 3)");
    assert_eq!(shown("8 / 4 / 2;"), "(/ (/ 8 4) 2)");
    assert_eq!(shown("1 < 2 == 3 > 4;"), "(== (< 1 2) (> 3 4))");
    assert_eq!(shown("1 + 2 < 3 * 4;"), "(< (+ 1 2) (* 3 4))");
    assert_eq!(shown("a != b >= c;"), "(!= a (>= b c))");
    assert_eq!(shown("a <= b;"), "(<= a b)");
}

#[test]
fn unary_operators_nest_to_the_right() {
    assert_eq!(shown("-1;"), "(- 1)");
    assert_eq!(shown("!!true;"), "(! (! true))");
    assert_eq!(shown("-a * -b;"), "(* (- a) (- b))");
    assert_eq!(shown("-(1 + 2);"), "(- (group (+ 1 2)))");
}

#[test]
fn literals_and_variables_are_primaries() {
    assert_eq!(shown("nil;"), "nil");
    assert_eq!(shown("true;"), "true");
    assert_eq!(shown("false;"), "false");
    assert_eq!(shown("\"text\";"), "\"text\"");
    assert_eq!(shown("12.5;"), "12.5");
    assert_eq!(shown("name;"), "name");
}

#[test]
fn logical_operators_build_logical_nodes() {
    match expression("a or b and c;") {
        Expr::Logical(or) => {
            assert_eq!(or.operator.get_token_type(), TokenType::Or);
            assert!(matches!(*or.left, Expr::Variable(_)));
            match *or.right {
                Expr::Logical(and) => {
                    assert_eq!(and.operator.get_token_type(), TokenType::And);
                }
                other => panic!("not a logical node: {:?}", other),
            }
        }
        other => panic!("not a logical node: {:?}", other),
    }
    match expression("a or b or c;") {
        Expr::Logical(outer) => {
            assert!(matches!(*outer.left, Expr::Logical(_)));
            assert!(matches!(*outer.right, Expr::Variable(_)));
        }
        other => panic!("not a logical node: {:?}", other),
    }
    match expression("a == b and c;") {
        Expr::Logical(and) => assert!(matches!(*and.left, Expr::Binary(_))),
        other => panic!("not a logical node: {:?}", other),
    }
}

#[test]
fn assignment_is_right_associative() {
    assert_eq!(shown("a = b = 1;"), "((assign)= a ((assign)= b 1))");
    assert_eq!(shown("a = 1 + 2;"), "((assign)= a (+ 1 2))");
}

#[test]
fn invalid_assignment_target_is_reported_and_parsing_goes_on() {
    let (statements, errors) = parse("1 + 2 = 3; print 4;");
    assert_eq!(errors, vec!["[line 1] Error at '=': Invalid assignment target.".to_string()]);
    assert_eq!(statements.len(), 2);
    match &statements[0] {
        Stmt::Expr(e) => assert_eq!(AstPrinter::new().print(e.clone()), "(+ 1 2)"),
        other => panic!("not an expression statement: {:?}", other),
    }
    assert!(matches!(statements[1], Stmt::Print(_)));
}

#[test]
fn variable_declarations() {
    let (statements, errors) = parse("var a; var b = 1 + 2;");
    assert!(errors.is_empty());
    assert_eq!(statements.len(), 2);
    match &statements[0] {
        Stmt::Var(name, None) => assert_eq!(name.get_lexeme(), "a"),
        other => panic!("not a declaration without initializer: {:?}", other),
    }
    match &statements[1] {
        Stmt::Var(name, Some(e)) => {
            assert_eq!(name.get_lexeme(), "b");
            assert_eq!(AstPrinter::new().print(e.clone()), "(+ 1 2)");
        }
        other => panic!("not a declaration with initializer: {:?}", other),
    }
}

#[test]
fn if_with_and_without_else() {
    let (statements, errors) = parse("if (a) print 1; if (b) print 2; else print 3;");
    assert!(errors.is_empty());
    assert_eq!(statements.len(), 2);
    assert!(matches!(&statements[0], Stmt::If(_, _, None)));
    match &statements[1] {
        Stmt::If(_, then_branch, Some(else_branch)) => {
            assert!(matches!(**then_branch, Stmt::Print(_)));
            assert!(matches!(**else_branch, Stmt::Print(_)));
        }
        other => panic!("not an if with else: {:?}", other),
    }
}

#[test]
fn else_belongs_to_the_nearest_if() {
    let (statements, errors) = parse("if (a) if (b) print 1; else print 2;");
    assert!(errors.is_empty());
    assert_eq!(statements.len(), 1);
    match &statements[0] {
        Stmt::If(_, inner, None) => assert!(matches!(**inner, Stmt::If(_, _, Some(_)))),
        other => panic!("not an if without else: {:?}", other),
    }
}

#[test]
fn while_and_blocks() {
    let (statements, errors) = parse("while (x < 3) { print x; x = x + 1; } {}");
    assert!(errors.is_empty());
    assert_eq!(statements.len(), 2);
    match &statements[0] {
        Stmt::While(_, body) => match &**body {
            Stmt::Block(inner) => {
                assert_eq!(inner.len(), 2);
                assert!(matches!(inner[0], Stmt::Print(_)));
                assert!(matches!(inner[1], Stmt::Expr(Expr::Assign(_))));
            }
            other => panic!("not a block: {:?}", other),
        },
        other => panic!("not a while: {:?}", other),
    }
    match &statements[1] {
        Stmt::Block(inner) => assert!(inner.is_empty()),
        other => panic!("not a block: {:?}", other),
    }
}

#[test]
fn empty_token_sequence_gives_no_statements() {
    let (statements, errors) = parse("");
    assert!(statements.is_empty());
    assert!(errors.is_empty());
}

#[test]
fn missing_semicolon_is_reported_at_the_next_token() {
    let (statements, errors) = parse("print 1\nprint 2; print 3;");
    assert_eq!(errors, vec!["[line 2] Error at 'print': Expect ';' after value.".to_string()]);
    assert_eq!(statements.len(), 1);
    match &statements[0] {
        Stmt::Print(e) => assert_eq!(AstPrinter::new().print(e.clone()), "3"),
        other => panic!("not a print: {:?}", other),
    }
}

#[test]
fn missing_semicolon_at_the_end_is_reported_at_end() {
    let (statements, errors) = parse("1 + 2");
    assert_eq!(errors, vec!["[line 1] Error at end: Expect ';' after expression.".to_string()]);
    assert!(statements.is_empty());
}

#[test]
fn one_error_does_not_hide_the_next() {
    let (statements, errors) = parse("var = 1;\nprint 2;\nprint );\nprint 3;");
    assert_eq!(
        errors,
        vec![
            "[line 1] Error at '=': Expect variable name.".to_string(),
            "[line 3] Error at ')': Expect expression.".to_string()
        ]
    );
    assert_eq!(statements.len(), 2);
    assert!(matches!(statements[0], Stmt::Print(_)));
    assert!(matches!(statements[1], Stmt::Print(_)));
}

#[test]
fn recovery_stops_before_a_statement_keyword() {
    let (statements, errors) = parse("1 + + 2 var a = 3;");
    assert_eq!(errors, vec!["[line 1] Error at '+': Expect expression.".to_string()]);
    assert_eq!(statements.len(), 1);
    assert!(matches!(statements[0], Stmt::Var(_, Some(_))));
}

#[test]
fn errors_inside_a_block_are_contained() {
    let (statements, errors) = parse("{ print 1; print ; print 2; } print 3;");
    assert_eq!(errors, vec!["[line 1] Error at ';': Expect expression.".to_string()]);
    assert_eq!(statements.len(), 2);
    match &statements[0] {
        Stmt::Block(inner) => assert_eq!(inner.len(), 2),
        other => panic!("not a block: {:?}", other),
    }
    assert!(matches!(statements[1], Stmt::Print(_)));
}

#[test]
fn unclosed_block_and_parentheses_are_reported() {
    let (statements, errors) = parse("{ print 1;");
    assert_eq!(errors, vec!["[line 1] Error at end: Expect '}' after block.".to_string()]);
    assert!(statements.is_empty());
    let (statements, errors) = parse("(1 + 2;");
    assert_eq!(errors, vec!["[line 1] Error at ';': Expect ')' after expression.".to_string()]);
    assert!(statements.is_empty());
}

#[test]
fn conditions_need_parentheses() {
    let (_, errors) = parse("if a print 1;");
    assert_eq!(errors, vec!["[line 1] Error at 'a': Expect '(' after 'if'.".to_string()]);
    let (_, errors) = parse("if (a print 1;");
    assert_eq!(errors, vec!["[line 1] Error at 'print': Expect ')' after if condition.".to_string()]);
    let (_, errors) = parse("while a print 1;");
    assert_eq!(errors, vec!["[line 1] Error at 'a': Expect '(' after 'while'.".to_string()]);
    let (_, errors) = parse("while (a print 1;");
    assert_eq!(
        errors,
        vec!["[line 1] Error at 'print': Expect ')' after while condition.".to_string()]
    );
    let (_, errors) = parse("var a = 1");
    assert_eq!(
        errors,
        vec!["[line 1] Error at end: Expect ';' after variable declaration.".to_string()]
    );
}

#[test]
fn unterminated_string_leaves_earlier_statements_parsable() {
    let mut scanner = Scanner::new("print 1; var a = 2; print \"open".to_string());
    let tokens = scanner.scan_tokens().to_vec();
    assert_eq!(scanner.get_errors().len(), 1);
    assert_eq!(scanner.get_errors()[0], "[line 1] Error: Unterminated string.");
    let mut parser = Parser::new(tokens);
    let statements = parser.parser();
    assert_eq!(statements.len(), 2);
    assert!(matches!(statements[0], Stmt::Print(_)));
    assert!(matches!(statements[1], Stmt::Var(_, Some(_))));
    assert_eq!(
        parser.get_errors().clone(),
        vec!["[line 1] Error at end: Expect ';' after value.".to_string()]
    );
}

#[test]
fn parsing_stops_at_the_first_end_marker() {
    let tokens = vec![
        Token::new(TokenType::Print, "print".to_string(), None, 1),
        Token::new(TokenType::Nil, "nil".to_string(), None, 1),
        Token::new(TokenType::Semicolon, ";".to_string(), None, 1),
        Token::new(TokenType::Eof, "".to_string(), None, 1),
        Token::new(TokenType::Print, "print".to_string(), None, 2),
        Token::new(TokenType::Eof, "".to_string(), None, 2),
    ];
    let mut parser = Parser::new(tokens);
    let statements = parser.parser();
    assert_eq!(statements.len(), 1);
    assert!(parser.get_errors().is_empty());
}

#[test]
fn printer_shows_each_kind_of_node() {
    let printer = AstPrinter::new();
    match expression("-1 * (2 + x);") {
        Expr::Binary(node) => {
            assert_eq!(printer.print_binary_expr(node), "(* (- 1) (group (+ 2 x)))");
        }
        other => panic!("not a binary node: {:?}", other),
    }
    match expression("(nil);") {
        Expr::Grouping(node) => assert_eq!(printer.print_grouping_expr(node), "(group nil)"),
        other => panic!("not a grouping: {:?}", other),
    }
    match expression("!ok;") {
        Expr::Unary(node) => assert_eq!(printer.print_unary_expr(node), "(! ok)"),
        other => panic!("not a unary node: {:?}", other),
    }
    match expression("x = 2;") {
        Expr::Assign(node) => assert_eq!(printer.print_assign_expr(node), "((assign)= x 2)"),
        other => panic!("not an assignment: {:?}", other),
    }
    match expression("x;") {
        Expr::Variable(node) => assert_eq!(printer.print_variable_expr(node), "x"),
        other => panic!("not a variable: {:?}", other),
    }
    match expression("nil;") {
        Expr::Literal(node) => assert_eq!(printer.print_literal_expr(node), "nil"),
        other => panic!("not a literal: {:?}", other),
    }
    match expression("\"s\";") {
        Expr::Literal(node) => assert_eq!(printer.print_literal_expr(node), "\"s\""),
        other => panic!("not a literal: {:?}", other),
    }
    assert_eq!(printer.print(expression("a or b;")), "[ERROR]");
}

#[test]
fn nodes_hand_out_copies_of_their_parts() {
    match expression("1 + 2;") {
        Expr::Binary(mut node) => {
            assert_eq!(literal_lexeme(&node.get_left()), "1");
            assert_eq!(literal_lexeme(&node.get_right()), "2");
            assert_eq!(node.get_operator().get_lexeme(), "+");
            let left = node.get_left();
            let right = node.get_right();
            node.set_left(right);
            node.set_right(left);
            assert_eq!(AstPrinter::new().print_binary_expr(node), "(+ 2 1)");
        }
        other => panic!("not a binary node: {:?}", other),
    }
    match expression("a and b;") {
        Expr::Logical(mut node) => {
            assert_eq!(node.get_operator().get_token_type(), TokenType::And);
            let left = node.get_left();
            node.set_right(left);
            let right = node.get_right();
            node.set_left(right);
            assert!(matches!(*node.get_left(), Expr::Variable(_)));
        }
        other => panic!("not a logical node: {:?}", other),
    }
    match expression("-(3);") {
        Expr::Unary(mut node) => {
            assert_eq!(node.get_operator().get_lexeme(), "-");
            match *node.get_expression() {
                Expr::Grouping(mut group) => {
                    let inner = group.get_expression();
                    assert_eq!(literal_lexeme(&inner), "3");
                    group.set_expression(inner.clone());
                    node.set_expression(inner);
                }
                other => panic!("not a grouping: {:?}", other),
            }
            assert_eq!(AstPrinter::new().print_unary_expr(node), "(- 3)");
        }
        other => panic!("not a unary node: {:?}", other),
    }
    match expression("x = y;") {
        Expr::Assign(node) => {
            assert_eq!(node.get_value().get_lexeme(), "x");
            match *node.get_expression() {
                Expr::Variable(v) => assert_eq!(v.get_value().get_lexeme(), "y"),
                other => panic!("not a variable: {:?}", other),
            }
        }
        other => panic!("not an assignment: {:?}", other),
    }
    match expression("7;") {
        Expr::Literal(node) => assert_eq!(node.get_value().get_lexeme(), "7"),
        other => panic!("not a literal: {:?}", other),
    }
}

#[test]
fn cloning_a_statement_copies_the_whole_tree() {
    let (statements, _) = parse("while (a) { if (b) print 1; else { var c = 2; } }");
    let copy = statements[0].clone();
    assert_eq!(format!("{:?}", copy), format!("{:?}", statements[0]));
}
