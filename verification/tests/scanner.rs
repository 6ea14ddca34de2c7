use lox::scanner::Scanner;
use lox::token::{LiteralPossibleValues, Token};
use lox::token_type::TokenType;

fn scan(source: &str) -> (Vec<Token>, Vec<String>) {
    let mut scanner = Scanner::new(source.to_string());
    let tokens = scanner.scan_tokens().to_vec();
    let errors = scanner.get_errors().clone();
    (tokens, errors)
}

fn kinds(tokens: &[Token]) -> Vec<TokenType> {
    tokens.iter().map(|t| t.get_token_type()).collect()
}

fn lexemes(tokens: &[Token]) -> Vec<String> {
    tokens.iter().map(|t| t.get_lexeme()).collect()
}

fn number_payload(token: &Token) -> String {
    match token.get_literal() {
        Some(LiteralPossibleValues::NumberValue(text)) => text,
        other => panic!("no number payload: {:?}", other),
    }
}

fn string_payload(token: &Token) -> String {
    match token.get_literal() {
        Some(LiteralPossibleValues::StringValue(text)) => text,
        other => panic!("no string payload: {:?}", other),
    }
}

#[test]
fn empty_source_gives_only_the_end_marker() {
    let (tokens, errors) = scan("");
    assert_eq!(kinds(&tokens), vec![TokenType::Eof]);
    assert_eq!(tokens[0].get_lexeme(), "");
    assert_eq!(tokens[0].get_line(), 1);
    assert!(tokens[0].get_literal().is_none());
    assert!(errors.is_empty());
}

#[test]
fn punctuation_and_operators() {
    let (tokens, errors) = scan("(){},.-+;/ *! != = == > >= < <=");
    assert_eq!(
        kinds(&tokens),
        vec![
            TokenType::LeftParen,
            TokenType::RightParen,
            TokenType::LeftBrace,
            TokenType::RightBrace,
            TokenType::Comma,
            TokenType::Dot,
            TokenType::Minus,
            TokenType::Plus,
            TokenType::Semicolon,
            TokenType::Slash,
            TokenType::Star,
            TokenType::Bang,
            TokenType::BangEqual,
            TokenType::Equal,
            TokenType::EqualEqual,
            TokenType::Greater,
            TokenType::GreaterEqual,
            TokenType::Less,
            TokenType::LessEqual,
            TokenType::Eof,
        ]
    );
    assert_eq!(
        lexemes(&tokens),
        vec![
            "(", ")", "{", "}", ",", ".", "-", "+", ";", "/", "*", "!", "!=", "=", "==", ">", ">=",
            "<", "<=", ""
        ]
    );
    assert!(errors.is_empty());
}

#[test]
fn two_character_operators_need_the_equal_sign_next() {
    let (tokens, _) = scan("! = <=>");
    assert_eq!(
        kinds(&tokens),
        vec![
            TokenType::Bang,
            TokenType::Equal,
            TokenType::LessEqual,
            TokenType::Greater,
            TokenType::Eof
        ]
    );
}

#[test]
fn every_keyword_is_recognised() {
    let (tokens, errors) = scan(
        "and class else false for fun if nil or print return super this true var while",
    );
    assert_eq!(
        kinds(&tokens),
        vec![
            TokenType::And,
            TokenType::Class,
            TokenType::Else,
            TokenType::False,
            TokenType::For,
            TokenType::Fun,
            TokenType::If,
            TokenType::Nil,
            TokenType::Or,
            TokenType::Print,
            TokenType::Return,
            TokenType::Super,
            TokenType::This,
            TokenType::True,
            TokenType::Var,
            TokenType::While,
            TokenType::Eof,
        ]
    );
    assert!(errors.is_empty());
}

#[test]
fn identifiers_may_hold_letters_digits_and_underscores() {
    let (tokens, errors) = scan("_a1 variable andy Or x_9_");
    assert_eq!(
        kinds(&tokens),
        vec![
            TokenType::Identifier,
            TokenType::Identifier,
            TokenType::Identifier,
            TokenType::Identifier,
            TokenType::Identifier,
            TokenType::Eof
        ]
    );
    assert_eq!(lexemes(&tokens), vec!["_a1", "variable", "andy", "Or", "x_9_", ""]);
    assert!(tokens[0].get_literal().is_none());
    assert!(errors.is_empty());
}

#[test]
fn numbers_with_and_without_fraction() {
    let (tokens, errors) = scan("12 3.5 007 1.");
    assert_eq!(
        kinds(&tokens),
        vec![
            TokenType::Number,
            TokenType::Number,
            TokenType::Number,
            TokenType::Number,
            TokenType::Dot,
            TokenType::Eof
        ]
    );
    assert_eq!(lexemes(&tokens), vec!["12", "3.5", "007", "1", ".", ""]);
    assert_eq!(number_payload(&tokens[0]), "12");
    assert_eq!(number_payload(&tokens[1]), "3.5");
    assert_eq!(number_payload(&tokens[2]), "007");
    assert_eq!(number_payload(&tokens[3]), "1");
    assert!(errors.is_empty());
}

#[test]
fn a_leading_dot_is_not_part_of_a_number() {
    let (tokens, _) = scan(".5 1.2.3");
    assert_eq!(
        kinds(&tokens),
        vec![
            TokenType::Dot,
            TokenType::Number,
            TokenType::Number,
            TokenType::Dot,
            TokenType::Number,
            TokenType::Eof
        ]
    );
    assert_eq!(lexemes(&tokens), vec![".", "5", "1.2", ".", "3", ""]);
}

#[test]
fn numeric_literals_round_trip_through_their_lexeme() {
    let numerals = [
        "0", "1", "7", "42", "3.14", "0.1", "0.5", "123456789", "1.7976931348623157",
        "9007199254740993", "0.30000000000000004", "100.001", "00012.50",
    ];
    for numeral in numerals {
        let (tokens, errors) = scan(numeral);
        assert!(errors.is_empty());
        assert_eq!(kinds(&tokens), vec![TokenType::Number, TokenType::Eof]);
        let from_payload: f64 = number_payload(&tokens[0]).parse().unwrap();
        let from_lexeme: f64 = tokens[0].get_lexeme().parse().unwrap();
        let written: f64 = numeral.parse().unwrap();
        assert_eq!(from_payload.to_bits(), from_lexeme.to_bits());
        assert_eq!(from_payload.to_bits(), written.to_bits());
    }
}

#[test]
fn strings_carry_their_text_without_the_quotes() {
    let (tokens, errors) = scan("\"hello world\" \"\"");
    assert_eq!(kinds(&tokens), vec![TokenType::String, TokenType::String, TokenType::Eof]);
    assert_eq!(tokens[0].get_lexeme(), "\"hello world\"");
    assert_eq!(string_payload(&tokens[0]), "hello world");
    assert_eq!(tokens[1].get_lexeme(), "\"\"");
    assert_eq!(string_payload(&tokens[1]), "");
    assert!(errors.is_empty());
}

#[test]
fn strings_may_span_lines() {
    let (tokens, errors) = scan("\"a\nb\nc\" x");
    assert_eq!(kinds(&tokens), vec![TokenType::String, TokenType::Identifier, TokenType::Eof]);
    assert_eq!(string_payload(&tokens[0]), "a\nb\nc");
    assert_eq!(tokens[0].get_line(), 3);
    assert_eq!(tokens[1].get_line(), 3);
    assert!(errors.is_empty());
}

#[test]
fn unterminated_string_is_reported_and_earlier_tokens_stay() {
    let (tokens, errors) = scan("var a = 1;\nprint \"oops;\nprint a;");
    assert_eq!(errors, vec!["[line 3] Error: Unterminated string.".to_string()]);
    assert_eq!(
        kinds(&tokens),
        vec![
            TokenType::Var,
            TokenType::Identifier,
            TokenType::Equal,
            TokenType::Number,
            TokenType::Semicolon,
            TokenType::Print,
            TokenType::String,
            TokenType::Eof
        ]
    );
    assert_eq!(string_payload(&tokens[6]), "oops;\nprint a;");
    assert_eq!(tokens[6].get_lexeme(), "\"oops;\nprint a;");
    assert_eq!(tokens[7].get_line(), 3);
}

#[test]
fn line_comments_run_to_the_end_of_the_line() {
    let (tokens, errors) = scan("a // b c d\ne // last");
    assert_eq!(kinds(&tokens), vec![TokenType::Identifier, TokenType::Identifier, TokenType::Eof]);
    assert_eq!(lexemes(&tokens), vec!["a", "e", ""]);
    assert_eq!(tokens[0].get_line(), 1);
    assert_eq!(tokens[1].get_line(), 2);
    assert!(errors.is_empty());
}

#[test]
fn block_comments_end_at_the_first_closing_pair() {
    let (tokens, errors) = scan("a /* b /* c */ d */ e");
    assert_eq!(lexemes(&tokens), vec!["a", "d", "*", "/", "e", ""]);
    assert!(errors.is_empty());
}

#[test]
fn block_comments_count_their_lines() {
    let (tokens, errors) = scan("a /* one\ntwo\nthree */ b");
    assert_eq!(lexemes(&tokens), vec!["a", "b", ""]);
    assert_eq!(tokens[0].get_line(), 1);
    assert_eq!(tokens[1].get_line(), 3);
    assert!(errors.is_empty());
}

#[test]
fn unterminated_block_comment_runs_to_the_end() {
    let (tokens, errors) = scan("a /* b c *");
    assert_eq!(lexemes(&tokens), vec!["a", ""]);
    assert!(errors.is_empty());
    let (tokens, _) = scan("a /*");
    assert_eq!(lexemes(&tokens), vec!["a", ""]);
    let (tokens, _) = scan("a /*/ b");
    assert_eq!(lexemes(&tokens), vec!["a", ""]);
}

#[test]
fn whitespace_is_dropped_and_newlines_count() {
    let (tokens, errors) = scan(" \t\r a \n\n b\n");
    assert_eq!(lexemes(&tokens), vec!["a", "b", ""]);
    assert_eq!(tokens[0].get_line(), 1);
    assert_eq!(tokens[1].get_line(), 3);
    assert_eq!(tokens[2].get_line(), 4);
    assert!(errors.is_empty());
}

#[test]
fn unexpected_characters_are_reported_and_skipped() {
    let (tokens, errors) = scan("a @ b\n# c");
    assert_eq!(lexemes(&tokens), vec!["a", "b", "c", ""]);
    assert_eq!(
        errors,
        vec![
            "[line 1] Error: Unexpected character: @".to_string(),
            "[line 2] Error: Unexpected character: #".to_string()
        ]
    );
}

#[test]
fn characters_outside_ascii_are_handled_one_by_one() {
    let (tokens, errors) = scan("\"héllo → wörld\" é x");
    assert_eq!(kinds(&tokens), vec![TokenType::String, TokenType::Identifier, TokenType::Eof]);
    assert_eq!(string_payload(&tokens[0]), "héllo → wörld");
    assert_eq!(errors, vec!["[line 1] Error: Unexpected character: é".to_string()]);
}

#[test]
fn scanning_twice_adds_a_second_end_marker() {
    let mut scanner = Scanner::new("a".to_string());
    let first = scanner.scan_tokens().len();
    assert_eq!(first, 2);
    let second = kinds(scanner.scan_tokens());
    assert_eq!(second, vec![TokenType::Identifier, TokenType::Eof, TokenType::Eof]);
}

#[test]
fn a_statement_scans_to_the_expected_tokens() {
    let (tokens, errors) = scan("var x = 0; while (x < 3) { print x; x = x + 1; }");
    assert_eq!(
        lexemes(&tokens),
        vec![
            "var", "x", "=", "0", ";", "while", "(", "x", "<", "3", ")", "{", "print", "x", ";",
            "x", "=", "x", "+", "1", ";", "}", ""
        ]
    );
    assert!(errors.is_empty());
    assert_eq!(tokens.last().unwrap().get_token_type(), TokenType::Eof);
}

#[test]
fn token_text_shows_kind_lexeme_and_payload() {
    let (tokens, _) = scan("x 1.5 \"hi\"");
    assert_eq!(tokens[0].to_string(), "Identifier x None");
    assert_eq!(tokens[1].to_string(), "Number 1.5 Some(NumberValue(1.5))");
    assert_eq!(tokens[2].to_string(), "String \"hi\" Some(StringValue(\"hi\"))");
    assert_eq!(tokens[3].to_string(), "Eof  None");
    let made = Token::new(
        TokenType::String,
        "\"a\"".to_string(),
        Some(LiteralPossibleValues::StringValue("a".to_string())),
        7,
    );
    assert_eq!(made.get_token_type(), TokenType::String);
    assert_eq!(made.get_lexeme(), "\"a\"");
    assert_eq!(made.get_line(), 7);
    assert_eq!(made.to_string(), "String \"a\" Some(StringValue(\"a\"))");
}
