use lox::interpreter::Interpreter;
use lox::value::{less_or_equal, less_than, nan, negate, rank, same_number, Value};

fn samples() -> Vec<f64> {
    vec![
        0.0,
        -0.0,
        1.0,
        -1.0,
        0.5,
        -0.5,
        2.0,
        3.0,
        1e300,
        -1e300,
        f64::MIN_POSITIVE,
        -f64::MIN_POSITIVE,
        5e-324,
        -5e-324,
        f64::MAX,
        f64::MIN,
        f64::INFINITY,
        f64::NEG_INFINITY,
        f64::NAN,
        -f64::NAN,
        f64::from_bits(0x7ff0_0000_0000_0001),
        f64::from_bits(0xfff8_0000_0000_0000),
        0.1 + 0.2,
        0.3,
        123456.789,
    ]
}

#[test]
fn comparisons_agree_with_the_doubles() {
    for a in samples() {
        for b in samples() {
            let (x, y) = (a.to_bits(), b.to_bits());
            assert_eq!(less_than(x, y), a < b, "{} < {}", a, b);
            assert_eq!(less_or_equal(x, y), a <= b, "{} <= {}", a, b);
            assert_eq!(same_number(x, y), a == b, "{} == {}", a, b);
        }
    }
}

#[test]
fn negation_agrees_with_the_doubles() {
    for a in samples() {
        assert_eq!(negate(a.to_bits()), (-a).to_bits(), "-{}", a);
    }
    assert_eq!(negate(3.0f64.to_bits()), (-3.0f64).to_bits());
    assert_eq!(negate(0.0f64.to_bits()), (-0.0f64).to_bits());
}

#[test]
fn nan_is_recognised() {
    for a in samples() {
        assert_eq!(nan(a.to_bits()), a.is_nan(), "{}", a);
    }
}

#[test]
fn rank_orders_like_the_values() {
    assert_eq!(rank(0.0f64.to_bits()), 0);
    assert_eq!(rank((-0.0f64).to_bits()), 0);
    assert_eq!(rank(1.0f64.to_bits()), 0x3ff0_0000_0000_0000);
    assert_eq!(rank((-1.0f64).to_bits()), -0x3ff0_0000_0000_0000);
    assert!(rank(1.0f64.to_bits()) < rank(2.0f64.to_bits()));
    assert!(rank((-2.0f64).to_bits()) < rank((-1.0f64).to_bits()));
}

#[test]
fn only_nil_and_false_are_falsy() {
    assert!(!Interpreter::is_truthy(&Value::Nil));
    assert!(!Interpreter::is_truthy(&Value::Boolean(false)));
    assert!(Interpreter::is_truthy(&Value::Boolean(true)));
    assert!(Interpreter::is_truthy(&Value::Number(0.0f64.to_bits())));
    assert!(Interpreter::is_truthy(&Value::Number(f64::NAN.to_bits())));
    assert!(Interpreter::is_truthy(&Value::String(String::new())));
    assert!(Interpreter::is_truthy(&Value::String("false".to_string())));
}

#[test]
fn equality_is_defined_within_nil_booleans_and_numbers() {
    let one = Value::Number(1.0f64.to_bits());
    let two = Value::Number(2.0f64.to_bits());
    let text = Value::String("a".to_string());
    assert_eq!(Interpreter::is_equal(&Value::Nil, &Value::Nil), Some(true));
    assert_eq!(Interpreter::is_equal(&Value::Nil, &one), Some(false));
    assert_eq!(Interpreter::is_equal(&text, &Value::Nil), Some(false));
    assert_eq!(Interpreter::is_equal(&Value::Boolean(true), &Value::Nil), Some(false));
    assert_eq!(Interpreter::is_equal(&Value::Boolean(true), &Value::Boolean(true)), Some(true));
    assert_eq!(Interpreter::is_equal(&Value::Boolean(true), &Value::Boolean(false)), Some(false));
    assert_eq!(Interpreter::is_equal(&one, &one), Some(true));
    assert_eq!(Interpreter::is_equal(&one, &two), Some(false));
    assert_eq!(
        Interpreter::is_equal(
            &Value::Number(0.0f64.to_bits()),
            &Value::Number((-0.0f64).to_bits())
        ),
        Some(true)
    );
    assert_eq!(
        Interpreter::is_equal(
            &Value::Number(f64::NAN.to_bits()),
            &Value::Number(f64::NAN.to_bits())
        ),
        Some(false)
    );
    assert_eq!(Interpreter::is_equal(&Value::Boolean(true), &one), None);
    assert_eq!(Interpreter::is_equal(&one, &Value::Boolean(false)), None);
    assert_eq!(Interpreter::is_equal(&one, &text), None);
    assert_eq!(Interpreter::is_equal(&text, &Value::Boolean(true)), None);
    assert_eq!(Interpreter::is_equal(&text, &text), None);
}

#[test]
fn values_other_than_numbers_have_a_fixed_text() {
    assert_eq!(Interpreter::stringify(&Value::Nil), Some("nil".to_string()));
    assert_eq!(Interpreter::stringify(&Value::Boolean(true)), Some("true".to_string()));
    assert_eq!(Interpreter::stringify(&Value::Boolean(false)), Some("false".to_string()));
    assert_eq!(Interpreter::stringify(&Value::String("a b".to_string())), Some("a b".to_string()));
    assert_eq!(Interpreter::stringify(&Value::Number(1.0f64.to_bits())), None);
}

#[test]
fn cloning_a_value_keeps_it() {
    let text = Value::String("abc".to_string());
    assert!(matches!(text.clone(), Value::String(s) if s == "abc"));
    assert!(matches!(Value::Number(7).clone(), Value::Number(7)));
    assert!(matches!(Value::Boolean(true).clone(), Value::Boolean(true)));
    assert!(matches!(Value::Nil.clone(), Value::Nil));
}
