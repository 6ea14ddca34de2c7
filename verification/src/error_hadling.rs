use vstd::prelude::*;
use vstd::string::*;
use crate::text::{integer_text, push_integer};
use crate::token::{Token, TokenModel};
use crate::token_type::TokenType;

verus! {

/// The line that reports a lexical or syntax error:
/// `[line N] Error<where>: <message>`.
pub open spec fn report_text(line: int, where_err: Seq<char>, message: Seq<char>) -> Seq<char> {
    "[line "@ + integer_text(line) + "] Error"@ + where_err + ": "@ + message
}

/// Where a syntax error is: at the end of the input, or at a lexeme.
pub open spec fn location_text(token: TokenModel) -> Seq<char> {
    if token.kind == TokenType::Eof {
        " at end"@
    } else {
        " at '"@ + token.lexeme + "'"@
    }
}

/// The line that reports a syntax error found at `token`.
pub open spec fn parser_error_text(token: TokenModel, message: Seq<char>) -> Seq<char> {
    report_text(token.line, location_text(token), message)
}

/// The two lines that report a runtime error raised at `token`:
/// the message, then `[line N]`.
pub open spec fn runtime_error_text(token: TokenModel, message: Seq<char>) -> Seq<char> {
    message + " \n[line "@ + integer_text(token.line) + "]"@
}

/// The report of a lexical error on a line.
pub fn error(line: i32, message: &str) -> (r: String)
    ensures
        r@ == report_text(line as int, Seq::empty(), message@),
{
    proof {
        reveal_strlit("");
        assert(""@ =~= Seq::<char>::empty());
    }
    report(line, "", message)
}

/// The report of an error on a line, at a place given in words.
pub fn report(line: i32, where_err: &str, message: &str) -> (r: String)
    ensures
        r@ == report_text(line as int, where_err@, message@),
{
    let mut out = String::from_str("[line ");
    push_integer(&mut out, line);
    out.append("] Error");
    out.append(where_err);
    out.append(": ");
    out.append(message);
    out
}

/// The report of a syntax error found at `token`.
pub fn parser_error(token: Token, message: String) -> (r: String)
    ensures
        r@ == parser_error_text(token@, message@),
{
    if token.get_token_type() == TokenType::Eof {
        report(token.get_line(), " at end", message.as_str())
    } else {
        let mut place = String::from_str(" at '");
        place.append(token.get_lexeme().as_str());
        place.append("'");
        report(token.get_line(), place.as_str(), message.as_str())
    }
}

/// The report of a runtime error raised at `token`.
pub fn runtime_error(token: Token, message: String) -> (r: String)
    ensures
        r@ == runtime_error_text(token@, message@),
{
    let mut out = message;
    out.append(" \n[line ");
    push_integer(&mut out, token.get_line());
    out.append("]");
    out
}

} // verus!
