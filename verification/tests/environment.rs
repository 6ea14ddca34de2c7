use lox::environment::Environment;
use lox::token::Token;
use lox::token_type::TokenType;
use lox::value::Value;

fn name(text: &str) -> Token {
    Token::new(TokenType::Identifier, text.to_string(), None, 1)
}

fn number(value: f64) -> Value {
    Value::Number(value.to_bits())
}

fn as_number(value: Value) -> f64 {
    match value {
        Value::Number(bits) => f64::from_bits(bits),
        other => panic!("not a number: {:?}", other),
    }
}

#[test]
fn a_defined_name_can_be_read() {
    let mut env = Environment::new();
    env.define("a".to_string(), number(1.0));
    assert_eq!(as_number(env.get(name("a")).unwrap()), 1.0);
}

#[test]
fn an_unknown_name_fails_on_read_and_on_assignment() {
    let mut env = Environment::new();
    assert_eq!(env.get(name("a")).unwrap_err(), "[ERROR] a is not defined!");
    assert_eq!(
        env.assign("a".to_string(), number(1.0)).unwrap_err(),
        "[ERROR] a is not defined!"
    );
    assert!(env.get(name("a")).is_err());
}

#[test]
fn defining_twice_rebinds() {
    let mut env = Environment::new();
    env.define("a".to_string(), number(1.0));
    env.define("a".to_string(), Value::Boolean(true));
    assert!(matches!(env.get(name("a")).unwrap(), Value::Boolean(true)));
}

#[test]
fn inner_scope_shadows_and_outer_binding_survives() {
    let mut outer = Environment::new();
    outer.define("a".to_string(), number(1.0));
    outer.define("b".to_string(), number(10.0));
    let mut inner = Environment::new_with_enclosing(Some(Box::new(outer)));
    inner.define("a".to_string(), number(2.0));
    assert_eq!(as_number(inner.get(name("a")).unwrap()), 2.0);
    assert_eq!(as_number(inner.get(name("b")).unwrap()), 10.0);
    let outer_again = inner.get_enclosing().unwrap();
    assert_eq!(as_number(outer_again.get(name("a")).unwrap()), 1.0);
}

#[test]
fn assignment_changes_the_innermost_frame_that_holds_the_name() {
    let mut outer = Environment::new();
    outer.define("a".to_string(), number(1.0));
    outer.define("b".to_string(), number(10.0));
    let mut inner = Environment::new_with_enclosing(Some(Box::new(outer)));
    inner.define("a".to_string(), number(2.0));
    inner.assign("a".to_string(), number(3.0)).unwrap();
    inner.assign("b".to_string(), number(30.0)).unwrap();
    assert_eq!(as_number(inner.get(name("a")).unwrap()), 3.0);
    assert_eq!(as_number(inner.get(name("b")).unwrap()), 30.0);
    let outer_again = inner.get_enclosing().unwrap();
    assert_eq!(as_number(outer_again.get(name("a")).unwrap()), 1.0);
    assert_eq!(as_number(outer_again.get(name("b")).unwrap()), 30.0);
}

#[test]
fn assignment_never_creates_a_binding() {
    let outer = Environment::new();
    let mut inner = Environment::new_with_enclosing(Some(Box::new(outer)));
    assert!(inner.assign("x".to_string(), Value::Nil).is_err());
    assert!(inner.get(name("x")).is_err());
    assert!(inner.get_enclosing().unwrap().get(name("x")).is_err());
}

#[test]
fn the_enclosing_scope_can_be_replaced() {
    let mut first = Environment::new();
    first.define("a".to_string(), number(1.0));
    let mut second = Environment::new();
    second.define("a".to_string(), number(2.0));
    let mut env = Environment::new_with_enclosing(Some(Box::new(first)));
    assert_eq!(as_number(env.get(name("a")).unwrap()), 1.0);
    env.set_enclosing_environment(Some(Box::new(second)));
    assert_eq!(as_number(env.get(name("a")).unwrap()), 2.0);
    env.set_enclosing_environment(None);
    assert!(env.get(name("a")).is_err());
    assert!(env.get_enclosing().is_none());
    assert!(Environment::new().get_enclosing().is_none());
}

#[test]
fn names_are_compared_as_whole_texts() {
    let mut env = Environment::new();
    env.define("ab".to_string(), Value::String("x".to_string()));
    assert!(env.get(name("a")).is_err());
    assert!(env.get(name("abc")).is_err());
    assert!(matches!(env.get(name("ab")).unwrap(), Value::String(s) if s == "x"));
}
