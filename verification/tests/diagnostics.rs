use lox::error_hadling::{error, parser_error, report, runtime_error};
use lox::text::{characters, digit_char, push_integer, push_natural, text_of};
use lox::token::Token;
use lox::token_type::TokenType;

#[test]
fn lexical_errors_have_no_context() {
    assert_eq!(error(3, "Unterminated string."), "[line 3] Error: Unterminated string.");
    assert_eq!(error(0, ""), "[line 0] Error: ");
}

#[test]
fn reports_carry_line_context_and_message() {
    assert_eq!(report(12, " at end", "Expect expression."), "[line 12] Error at end: Expect expression.");
    assert_eq!(report(-5, "", "m"), "[line -5] Error: m");
    assert_eq!(report(i32::MAX, "", "m"), "[line 2147483647] Error: m");
    assert_eq!(report(i32::MIN, "", "m"), "[line -2147483648] Error: m");
}

#[test]
fn syntax_errors_name_the_lexeme_or_the_end() {
    let at_token = Token::new(TokenType::Plus, "+".to_string(), None, 4);
    assert_eq!(
        parser_error(at_token, "Expect expression.".to_string()),
        "[line 4] Error at '+': Expect expression."
    );
    let at_end = Token::new(TokenType::Eof, "".to_string(), None, 9);
    assert_eq!(
        parser_error(at_end, "Expect ';' after value.".to_string()),
        "[line 9] Error at end: Expect ';' after value."
    );
}

#[test]
fn runtime_errors_put_the_line_on_a_second_line() {
    let token = Token::new(TokenType::Minus, "-".to_string(), None, 7);
    assert_eq!(runtime_error(token, "bad".to_string()), "bad \n[line 7]");
}

#[test]
fn decimal_numerals() {
    let mut out = String::from("n=");
    push_natural(&mut out, 0);
    out.push(',');
    push_natural(&mut out, 9);
    out.push(',');
    push_natural(&mut out, 10);
    out.push(',');
    push_natural(&mut out, 1234567890);
    out.push(',');
    push_natural(&mut out, u64::MAX);
    assert_eq!(out, "n=0,9,10,1234567890,18446744073709551615");
    let mut out = String::new();
    push_integer(&mut out, -40);
    push_integer(&mut out, 2);
    assert_eq!(out, "-402");
    for d in 0..10u8 {
        assert_eq!(digit_char(d), char::from_digit(d as u32, 10).unwrap());
    }
}

#[test]
fn texts_and_their_characters() {
    let chars = characters("héllo");
    assert_eq!(chars, vec!['h', 'é', 'l', 'l', 'o']);
    assert_eq!(text_of(&chars, 1, 4), "éll");
    assert_eq!(text_of(&chars, 2, 2), "");
    assert_eq!(text_of(&chars, 0, 5), "héllo");
    assert!(characters("").is_empty());
}
