use vstd::prelude::*;
use vstd::string::*;
use crate::token_type::{kind_name, TokenType};

verus! {

/// The payload carried by a literal token.
#[derive(Debug)]
pub enum LiteralPossibleValues {
    /// The characters between the quotes of a string literal.
    StringValue(String),
    /// The numeral of a number literal, as written in the source.
    NumberValue(String),
}

/// Mathematical model of a literal payload.
pub enum LiteralModel {
    Text(Seq<char>),
    Number(Seq<char>),
}

impl View for LiteralPossibleValues {
    type V = LiteralModel;

    open spec fn view(&self) -> LiteralModel {
        match self {
            LiteralPossibleValues::StringValue(s) => LiteralModel::Text(s@),
            LiteralPossibleValues::NumberValue(s) => LiteralModel::Number(s@),
        }
    }
}

impl Clone for LiteralPossibleValues {
    fn clone(&self) -> (r: Self)
        ensures
            r == *self,
    {
        match self {
            LiteralPossibleValues::StringValue(s) => LiteralPossibleValues::StringValue(s.clone()),
            LiteralPossibleValues::NumberValue(s) => LiteralPossibleValues::NumberValue(s.clone()),
        }
    }
}

/// The text that shows a literal payload: `None`, `Some(StringValue("..."))`
/// with the text as it is, or `Some(NumberValue(...))` with the numeral.
pub open spec fn literal_text(literal: Option<LiteralModel>) -> Seq<char> {
    match literal {
        None => "None"@,
        Some(LiteralModel::Text(s)) => "Some(StringValue(\""@ + s + "\"))"@,
        Some(LiteralModel::Number(s)) => "Some(NumberValue("@ + s + "))"@,
    }
}

/// The text that shows a token: its kind, its lexeme and its payload, with
/// single spaces between them.
pub open spec fn token_text(token: TokenModel) -> Seq<char> {
    kind_name(token.kind) + " "@ + token.lexeme + " "@ + literal_text(token.literal)
}

/// Mathematical model of a token.
pub struct TokenModel {
    pub kind: TokenType,
    pub lexeme: Seq<char>,
    pub literal: Option<LiteralModel>,
    pub line: int,
}

/// A classified lexical unit with its source text and line number.
#[derive(Debug)]
pub struct Token {
    token_type: TokenType,
    lexeme: String,
    line: i32,
    literal: Option<LiteralPossibleValues>,
}

impl View for Token {
    type V = TokenModel;

    closed spec fn view(&self) -> TokenModel {
        TokenModel {
            kind: self.token_type,
            lexeme: self.lexeme@,
            literal: match self.literal {
                Some(l) => Some(l@),
                None => None,
            },
            line: self.line as int,
        }
    }
}

impl Clone for Token {
    fn clone(&self) -> (r: Self)
        ensures
            r == *self,
    {
        Token {
            token_type: self.token_type,
            lexeme: self.lexeme.clone(),
            line: self.line,
            literal: match &self.literal {
                Some(l) => Some(l.clone()),
                None => None,
            },
        }
    }
}

impl Token {
    pub fn new(
        token_type: TokenType,
        lexeme: String,
        literal: Option<LiteralPossibleValues>,
        line: i32,
    ) -> (r: Self)
        ensures
            r@ == (TokenModel {
                kind: token_type,
                lexeme: lexeme@,
                literal: match literal {
                    Some(l) => Some(l@),
                    None => None,
                },
                line: line as int,
            }),
    {
        Token { token_type, lexeme, literal, line }
    }

    /// The token as text, for diagnostics.
    pub fn to_string(&self) -> (r: String)
        ensures
            r@ == token_text(self@),
    {
        let mut out = String::from_str(self.token_type.name());
        out.append(" ");
        out.append(self.lexeme.as_str());
        out.append(" ");
        match &self.literal {
            None => {
                out.append("None");
            },
            Some(LiteralPossibleValues::StringValue(s)) => {
                out.append("Some(StringValue(\"");
                out.append(s.as_str());
                out.append("\"))");
            },
            Some(LiteralPossibleValues::NumberValue(s)) => {
                out.append("Some(NumberValue(");
                out.append(s.as_str());
                out.append("))");
            },
        }
        proof {
            assert(out@ =~= token_text(self@));
        }
        out
    }

    pub fn get_token_type(&self) -> (r: TokenType)
        ensures
            r == self@.kind,
    {
        self.token_type
    }

    pub fn get_lexeme(&self) -> (r: String)
        ensures
            r@ == self@.lexeme,
    {
        self.lexeme.clone()
    }

    pub fn get_literal(&self) -> (r: Option<LiteralPossibleValues>)
        ensures
            match r {
                Some(l) => self@.literal == Some(l@),
                None => self@.literal is None,
            },
    {
        match &self.literal {
            Some(l) => Some(l.clone()),
            None => None,
        }
    }

    pub fn get_line(&self) -> (r: i32)
        ensures
            r == self@.line,
    {
        self.line
    }
}

} // verus!
