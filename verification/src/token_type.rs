use vstd::prelude::*;

verus! {

/// The closed set of token kinds the scanner can produce.
#[derive(Clone, Copy, PartialEq, Eq, Structural, Debug)]
pub enum TokenType {
    // Single characters
    LeftParen,
    RightParen,
    LeftBrace,
    RightBrace,
    Comma,
    Dot,
    Minus,
    Plus,
    Semicolon,
    Slash,
    Star,
    // One or two characters
    Bang,
    BangEqual,
    Equal,
    EqualEqual,
    Greater,
    GreaterEqual,
    Less,
    LessEqual,
    // Literals
    Identifier,
    String,
    Number,
    // Keywords
    Var,
    And,
    Or,
    If,
    Else,
    For,
    While,
    True,
    False,
    Nil,
    Class,
    Super,
    This,
    Fun,
    Return,
    Print,
    Eof,
}

/// The name of a token kind, as its variant is written.
pub open spec fn kind_name(kind: TokenType) -> Seq<char> {
    match kind {
        TokenType::LeftParen => "LeftParen"@,
        TokenType::RightParen => "RightParen"@,
        TokenType::LeftBrace => "LeftBrace"@,
        TokenType::RightBrace => "RightBrace"@,
        TokenType::Comma => "Comma"@,
        TokenType::Dot => "Dot"@,
        TokenType::Minus => "Minus"@,
        TokenType::Plus => "Plus"@,
        TokenType::Semicolon => "Semicolon"@,
        TokenType::Slash => "Slash"@,
        TokenType::Star => "Star"@,
        TokenType::Bang => "Bang"@,
        TokenType::BangEqual => "BangEqual"@,
        TokenType::Equal => "Equal"@,
        TokenType::EqualEqual => "EqualEqual"@,
        TokenType::Greater => "Greater"@,
        TokenType::GreaterEqual => "GreaterEqual"@,
        TokenType::Less => "Less"@,
        TokenType::LessEqual => "LessEqual"@,
        TokenType::Identifier => "Identifier"@,
        TokenType::String => "String"@,
        TokenType::Number => "Number"@,
        TokenType::Var => "Var"@,
        TokenType::And => "And"@,
        TokenType::Or => "Or"@,
        TokenType::If => "If"@,
        TokenType::Else => "Else"@,
        TokenType::For => "For"@,
        TokenType::While => "While"@,
        TokenType::True => "True"@,
        TokenType::False => "False"@,
        TokenType::Nil => "Nil"@,
        TokenType::Class => "Class"@,
        TokenType::Super => "Super"@,
        TokenType::This => "This"@,
        TokenType::Fun => "Fun"@,
        TokenType::Return => "Return"@,
        TokenType::Print => "Print"@,
        TokenType::Eof => "Eof"@,
    }
}

impl TokenType {
    /// The name of the kind, as its variant is written.
    pub fn name(&self) -> (r: &'static str)
        ensures
            r@ == kind_name(*self),
    {
        match self {
            TokenType::LeftParen => "LeftParen",
            TokenType::RightParen => "RightParen",
            TokenType::LeftBrace => "LeftBrace",
            TokenType::RightBrace => "RightBrace",
            TokenType::Comma => "Comma",
            TokenType::Dot => "Dot",
            TokenType::Minus => "Minus",
            TokenType::Plus => "Plus",
            TokenType::Semicolon => "Semicolon",
            TokenType::Slash => "Slash",
            TokenType::Star => "Star",
            TokenType::Bang => "Bang",
            TokenType::BangEqual => "BangEqual",
            TokenType::Equal => "Equal",
            TokenType::EqualEqual => "EqualEqual",
            TokenType::Greater => "Greater",
            TokenType::GreaterEqual => "GreaterEqual",
            TokenType::Less => "Less",
            TokenType::LessEqual => "LessEqual",
            TokenType::Identifier => "Identifier",
            TokenType::String => "String",
            TokenType::Number => "Number",
            TokenType::Var => "Var",
            TokenType::And => "And",
            TokenType::Or => "Or",
            TokenType::If => "If",
            TokenType::Else => "Else",
            TokenType::For => "For",
            TokenType::While => "While",
            TokenType::True => "True",
            TokenType::False => "False",
            TokenType::Nil => "Nil",
            TokenType::Class => "Class",
            TokenType::Super => "Super",
            TokenType::This => "This",
            TokenType::Fun => "Fun",
            TokenType::Return => "Return",
            TokenType::Print => "Print",
            TokenType::Eof => "Eof",
        }
    }
}

} // verus!
