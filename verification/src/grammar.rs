use vstd::prelude::*;
use crate::error_hadling::parser_error_text;
use crate::expr::ExprModel;
use crate::stmt::StmtModel;
use crate::token::TokenModel;
use crate::token_type::TokenType;

verus! {

/// What parsing one construct comes to.
pub struct Parsed<T> {
    /// The construct; `None` where parsing failed.
    pub value: Option<T>,
    /// The number of tokens consumed, also where parsing failed.
    pub used: nat,
    /// The reports made on the way, in order.
    pub errors: Seq<Seq<char>>,
}

/// What parsing one declaration comes to, after recovery.
pub struct Declared {
    /// The statement; `None` where the declaration was in error.
    pub statement: Option<StmtModel>,
    /// The number of tokens consumed, recovery included.
    pub used: nat,
    /// The reports made on the way, in order.
    pub errors: Seq<Seq<char>>,
}

/// What parsing a whole token sequence comes to.
pub struct Program {
    pub statements: Seq<StmtModel>,
    pub errors: Seq<Seq<char>>,
    pub used: nat,
}

/// A token sequence that the parser accepts ends with the end marker.
pub open spec fn well_terminated(tokens: Seq<TokenModel>) -> bool {
    tokens.len() > 0 && tokens.last().kind == TokenType::Eof
}

/// The number of tokens from `pos` on.
pub open spec fn remaining(tokens: Seq<TokenModel>, pos: int) -> nat {
    if pos < tokens.len() {
        (tokens.len() - pos) as nat
    } else {
        0
    }
}

/// Whether the token at `pos` is the end marker.
pub open spec fn at_end(tokens: Seq<TokenModel>, pos: int) -> bool {
    !(0 <= pos < tokens.len()) || tokens[pos].kind == TokenType::Eof
}

/// Whether the token at `pos` is of the kind. The end marker never is.
pub open spec fn check(tokens: Seq<TokenModel>, pos: int, kind: TokenType) -> bool {
    !at_end(tokens, pos) && tokens[pos].kind == kind
}

/// `p`, after `used` tokens and `errors` that came before it.
pub open spec fn after<T>(used: nat, errors: Seq<Seq<char>>, p: Parsed<T>) -> Parsed<T> {
    Parsed { value: p.value, used: used + p.used, errors: errors + p.errors }
}

/// A failure after `used` tokens and `errors`.
pub open spec fn failed<T>(used: nat, errors: Seq<Seq<char>>) -> Parsed<T> {
    Parsed { value: None, used, errors }
}

/// The token at `pos` where it is of the kind; else a failure that reports
/// `message` at that token and consumes nothing.
pub open spec fn consume(
    tokens: Seq<TokenModel>,
    pos: int,
    kind: TokenType,
    message: Seq<char>,
) -> Parsed<TokenModel> {
    if check(tokens, pos, kind) {
        Parsed { value: Some(tokens[pos]), used: 1, errors: Seq::empty() }
    } else {
        failed(0, seq![parser_error_text(tokens[pos], message)])
    }
}

/// The binary operators by precedence level, lowest first:
/// `or`; `and`; `!= ==`; `> >= < <=`; `- +`; `/ *`.
pub open spec fn level_operator(level: int, kind: TokenType) -> bool {
    if level == 0 {
        kind == TokenType::Or
    } else if level == 1 {
        kind == TokenType::And
    } else if level == 2 {
        kind == TokenType::BangEqual || kind == TokenType::EqualEqual
    } else if level == 3 {
        kind == TokenType::Greater || kind == TokenType::GreaterEqual || kind == TokenType::Less
            || kind == TokenType::LessEqual
    } else if level == 4 {
        kind == TokenType::Plus || kind == TokenType::Minus
    } else if level == 5 {
        kind == TokenType::Slash || kind == TokenType::Star
    } else {
        false
    }
}

/// The node for `left operator right` at a level: logical for `or` and
/// `and`, binary for the others.
pub open spec fn join(level: int, left: ExprModel, operator: TokenModel, right: ExprModel) -> ExprModel {
    if level <= 1 {
        ExprModel::Logical(Box::new(left), operator, Box::new(right))
    } else {
        ExprModel::Binary(Box::new(left), operator, Box::new(right))
    }
}

/// Whether a token of the kind is a literal.
pub open spec fn literal_kind(kind: TokenType) -> bool {
    kind == TokenType::False || kind == TokenType::True || kind == TokenType::Nil || kind
        == TokenType::String || kind == TokenType::Number
}

/// Whether a token of the kind starts a statement, so that recovery stops
/// before it.
pub open spec fn starts_statement(kind: TokenType) -> bool {
    kind == TokenType::Class || kind == TokenType::Fun || kind == TokenType::Var || kind
        == TokenType::For || kind == TokenType::If || kind == TokenType::While || kind
        == TokenType::Print || kind == TokenType::Return
}

/// `primary → NUMBER | STRING | "true" | "false" | "nil"
///          | "(" expression ")" | IDENTIFIER`
pub open spec fn primary(tokens: Seq<TokenModel>, pos: int) -> Parsed<ExprModel>
    decreases remaining(tokens, pos), 1int,
{
    if at_end(tokens, pos) {
        failed(0, seq![parser_error_text(tokens[pos], "Expect expression."@)])
    } else if literal_kind(tokens[pos].kind) {
        Parsed { value: Some(ExprModel::Literal(tokens[pos])), used: 1, errors: Seq::empty() }
    } else if tokens[pos].kind == TokenType::LeftParen {
        let inner = assignment(tokens, pos + 1);
        match inner.value {
            Some(e) => {
                let close = consume(
                    tokens,
                    pos + 1 + inner.used,
                    TokenType::RightParen,
                    "Expect ')' after expression."@,
                );
                match close.value {
                    Some(_) => Parsed {
                        value: Some(ExprModel::Grouping(Box::new(e))),
                        used: 1 + inner.used + 1,
                        errors: inner.errors,
                    },
                    None => failed(1 + inner.used, inner.errors + close.errors),
                }
            },
            None => failed(1 + inner.used, inner.errors),
        }
    } else if tokens[pos].kind == TokenType::Identifier {
        Parsed { value: Some(ExprModel::Variable(tokens[pos])), used: 1, errors: Seq::empty() }
    } else {
        failed(0, seq![parser_error_text(tokens[pos], "Expect expression."@)])
    }
}

/// `unary → ("!"|"-") unary | primary`
pub open spec fn unary(tokens: Seq<TokenModel>, pos: int) -> Parsed<ExprModel>
    decreases remaining(tokens, pos), 2int,
{
    if check(tokens, pos, TokenType::Bang) || check(tokens, pos, TokenType::Minus) {
        let right = unary(tokens, pos + 1);
        match right.value {
            Some(r) => Parsed {
                value: Some(ExprModel::Unary(tokens[pos], Box::new(r))),
                used: 1 + right.used,
                errors: right.errors,
            },
            None => failed(1 + right.used, right.errors),
        }
    } else {
        primary(tokens, pos)
    }
}

/// A measure that falls from each binary level to the next one up.
pub open spec fn level_rank(level: int) -> int {
    if 0 <= level <= 5 {
        2 * (6 - level)
    } else {
        2
    }
}

/// The operand of a binary level: the next level up, `unary` above the
/// highest.
pub open spec fn operand(tokens: Seq<TokenModel>, pos: int, level: int) -> Parsed<ExprModel>
    decreases remaining(tokens, pos), level_rank(level) + 1,
{
    if 0 <= level < 5 {
        binary(tokens, pos, level + 1)
    } else {
        unary(tokens, pos)
    }
}

/// One binary level: an operand, then for as long as an operator of the
/// level follows, that operator and another operand, joined to the left.
pub open spec fn binary(tokens: Seq<TokenModel>, pos: int, level: int) -> Parsed<ExprModel>
    decreases remaining(tokens, pos), level_rank(level) + 2,
{
    if 0 <= level <= 5 {
        let first = operand(tokens, pos, level);
        match first.value {
            Some(left) => after(
                first.used,
                first.errors,
                binary_rest(tokens, pos + first.used, level, left),
            ),
            None => first,
        }
    } else {
        unary(tokens, pos)
    }
}

/// The rest of a binary level, with `left` parsed so far.
pub open spec fn binary_rest(
    tokens: Seq<TokenModel>,
    pos: int,
    level: int,
    left: ExprModel,
) -> Parsed<ExprModel>
    decreases remaining(tokens, pos), 0int,
{
    if !at_end(tokens, pos) && level_operator(level, tokens[pos].kind) {
        let right = operand(tokens, pos + 1, level);
        match right.value {
            Some(r) => after(
                1 + right.used,
                right.errors,
                binary_rest(
                    tokens,
                    pos + 1 + right.used,
                    level,
                    join(level, left, tokens[pos], r),
                ),
            ),
            None => failed(1 + right.used, right.errors),
        }
    } else {
        Parsed { value: Some(left), used: 0, errors: Seq::empty() }
    }
}

/// `assignment → (IDENTIFIER "=" assignment) | logic_or`
///
/// The left side is parsed as an expression. Where `=` follows, the right
/// side is parsed too; a left side that is no variable is reported, and is
/// then the result by itself.
pub open spec fn assignment(tokens: Seq<TokenModel>, pos: int) -> Parsed<ExprModel>
    decreases remaining(tokens, pos), 15int,
{
    let left = binary(tokens, pos, 0);
    match left.value {
        Some(target) => if check(tokens, pos + left.used, TokenType::Equal) {
            let equals = tokens[pos + left.used];
            let value = assignment(tokens, pos + left.used + 1);
            match value.value {
                Some(v) => match target {
                    ExprModel::Variable(name) => Parsed {
                        value: Some(ExprModel::Assign(name, Box::new(v))),
                        used: left.used + 1 + value.used,
                        errors: left.errors + value.errors,
                    },
                    _ => Parsed {
                        value: Some(target),
                        used: left.used + 1 + value.used,
                        errors: left.errors + value.errors + seq![
                            parser_error_text(equals, "Invalid assignment target."@),
                        ],
                    },
                },
                None => failed(left.used + 1 + value.used, left.errors + value.errors),
            }
        } else {
            left
        },
        None => left,
    }
}

/// `expression → assignment`
#[verifier::opaque]
pub open spec fn expression(tokens: Seq<TokenModel>, pos: int) -> Parsed<ExprModel> {
    assignment(tokens, pos)
}

/// An expression and the `;` after it; `message` reports a missing `;`.
#[verifier::opaque]
pub open spec fn terminated(tokens: Seq<TokenModel>, pos: int, message: Seq<char>) -> Parsed<
    ExprModel,
>
    decreases remaining(tokens, pos), 17int,
{
    let value = expression(tokens, pos);
    match value.value {
        Some(e) => {
            let semicolon = consume(tokens, pos + value.used, TokenType::Semicolon, message);
            match semicolon.value {
                Some(_) => Parsed { value: Some(e), used: value.used + 1, errors: value.errors },
                None => failed(value.used, value.errors + semicolon.errors),
            }
        },
        None => failed(value.used, value.errors),
    }
}

/// `exprStmt → expression ";"`
pub open spec fn expression_statement(tokens: Seq<TokenModel>, pos: int) -> Parsed<StmtModel>
    decreases remaining(tokens, pos), 18int,
{
    let e = terminated(tokens, pos, "Expect ';' after expression."@);
    Parsed {
        value: match e.value {
            Some(x) => Some(StmtModel::Expr(x)),
            None => None,
        },
        used: e.used,
        errors: e.errors,
    }
}

/// `printStmt → "print" expression ";"`, after the `print`.
pub open spec fn print_statement(tokens: Seq<TokenModel>, pos: int) -> Parsed<StmtModel>
    decreases remaining(tokens, pos), 18int,
{
    let e = terminated(tokens, pos, "Expect ';' after value."@);
    Parsed {
        value: match e.value {
            Some(x) => Some(StmtModel::Print(x)),
            None => None,
        },
        used: e.used,
        errors: e.errors,
    }
}

/// `varDecl → "var" IDENTIFIER ("=" expression)? ";"`, after the `var`.
#[verifier::opaque]
pub open spec fn var_declaration(tokens: Seq<TokenModel>, pos: int) -> Parsed<StmtModel>
    decreases remaining(tokens, pos), 18int,
{
    let name = consume(tokens, pos, TokenType::Identifier, "Expect variable name."@);
    match name.value {
        Some(n) => if check(tokens, pos + 1, TokenType::Equal) {
            let initializer = expression(tokens, pos + 2);
            match initializer.value {
                Some(e) => {
                    let semicolon = consume(
                        tokens,
                        pos + 2 + initializer.used,
                        TokenType::Semicolon,
                        "Expect ';' after variable declaration."@,
                    );
                    match semicolon.value {
                        Some(_) => Parsed {
                            value: Some(StmtModel::Var(n, Some(e))),
                            used: 2 + initializer.used + 1,
                            errors: initializer.errors,
                        },
                        None => failed(
                            2 + initializer.used,
                            initializer.errors + semicolon.errors,
                        ),
                    }
                },
                None => failed(2 + initializer.used, initializer.errors),
            }
        } else {
            let semicolon = consume(
                tokens,
                pos + 1,
                TokenType::Semicolon,
                "Expect ';' after variable declaration."@,
            );
            match semicolon.value {
                Some(_) => Parsed {
                    value: Some(StmtModel::Var(n, None)),
                    used: 2,
                    errors: Seq::empty(),
                },
                None => failed(1, semicolon.errors),
            }
        },
        None => failed(0, name.errors),
    }
}

/// A condition in parentheses: `"(" expression ")"`. `opening` and
/// `closing` report a missing parenthesis.
#[verifier::opaque]
pub open spec fn condition(
    tokens: Seq<TokenModel>,
    pos: int,
    opening: Seq<char>,
    closing: Seq<char>,
) -> Parsed<ExprModel>
    decreases remaining(tokens, pos), 17int,
{
    let open = consume(tokens, pos, TokenType::LeftParen, opening);
    match open.value {
        Some(_) => {
            let inner = expression(tokens, pos + 1);
            match inner.value {
                Some(e) => {
                    let close = consume(
                        tokens,
                        pos + 1 + inner.used,
                        TokenType::RightParen,
                        closing,
                    );
                    match close.value {
                        Some(_) => Parsed {
                            value: Some(e),
                            used: 1 + inner.used + 1,
                            errors: inner.errors,
                        },
                        None => failed(1 + inner.used, inner.errors + close.errors),
                    }
                },
                None => failed(1 + inner.used, inner.errors),
            }
        },
        None => failed(0, open.errors),
    }
}

/// `ifStmt → "if" "(" expression ")" statement ("else" statement)?`,
/// after the `if`.
pub open spec fn if_statement(tokens: Seq<TokenModel>, pos: int) -> Parsed<StmtModel>
    decreases remaining(tokens, pos), 18int,
{
    let test = condition(
        tokens,
        pos,
        "Expect '(' after 'if'."@,
        "Expect ')' after if condition."@,
    );
    match test.value {
        Some(c) => {
            proof {
                reveal(condition);
            }
            let then_branch = statement(tokens, pos + test.used);
            match then_branch.value {
                Some(t) => {
                    let used = test.used + then_branch.used;
                    let errors = test.errors + then_branch.errors;
                    if check(tokens, pos + used, TokenType::Else) {
                        let else_branch = statement(tokens, pos + used + 1);
                        match else_branch.value {
                            Some(e) => Parsed {
                                value: Some(StmtModel::If(c, Box::new(t), Some(Box::new(e)))),
                                used: used + 1 + else_branch.used,
                                errors: errors + else_branch.errors,
                            },
                            None => failed(
                                used + 1 + else_branch.used,
                                errors + else_branch.errors,
                            ),
                        }
                    } else {
                        Parsed { value: Some(StmtModel::If(c, Box::new(t), None)), used, errors }
                    }
                },
                None => failed(
                    test.used + then_branch.used,
                    test.errors + then_branch.errors,
                ),
            }
        },
        None => failed(test.used, test.errors),
    }
}

/// `whileStmt → "while" "(" expression ")" statement`, after the `while`.
pub open spec fn while_statement(tokens: Seq<TokenModel>, pos: int) -> Parsed<StmtModel>
    decreases remaining(tokens, pos), 18int,
{
    let test = condition(
        tokens,
        pos,
        "Expect '(' after 'while'."@,
        "Expect ')' after while condition."@,
    );
    match test.value {
        Some(c) => {
            proof {
                reveal(condition);
            }
            let body = statement(tokens, pos + test.used);
            match body.value {
                Some(b) => Parsed {
                    value: Some(StmtModel::While(c, Box::new(b))),
                    used: test.used + body.used,
                    errors: test.errors + body.errors,
                },
                None => failed(test.used + body.used, test.errors + body.errors),
            }
        },
        None => failed(test.used, test.errors),
    }
}

/// `block → "{" declaration* "}"`, after the `{` and the declarations in
/// `done`.
pub open spec fn block(tokens: Seq<TokenModel>, pos: int, done: Seq<StmtModel>) -> Parsed<
    Seq<StmtModel>,
>
    decreases remaining(tokens, pos), 22int,
{
    if !check(tokens, pos, TokenType::RightBrace) && !at_end(tokens, pos) {
        let first = declaration(tokens, pos);
        if first.used > 0 {
            after(
                first.used,
                first.errors,
                block(
                    tokens,
                    pos + first.used,
                    match first.statement {
                        Some(s) => done.push(s),
                        None => done,
                    },
                ),
            )
        } else {
            failed(0, first.errors)
        }
    } else {
        let close = consume(tokens, pos, TokenType::RightBrace, "Expect '}' after block."@);
        match close.value {
            Some(_) => Parsed { value: Some(done), used: 1, errors: Seq::empty() },
            None => failed(0, close.errors),
        }
    }
}

/// `statement → ifStmt | whileStmt | printStmt | block | exprStmt`
pub open spec fn statement(tokens: Seq<TokenModel>, pos: int) -> Parsed<StmtModel>
    decreases remaining(tokens, pos), 19int,
{
    if check(tokens, pos, TokenType::If) {
        after(1, Seq::empty(), if_statement(tokens, pos + 1))
    } else if check(tokens, pos, TokenType::While) {
        after(1, Seq::empty(), while_statement(tokens, pos + 1))
    } else if check(tokens, pos, TokenType::Print) {
        after(1, Seq::empty(), print_statement(tokens, pos + 1))
    } else if check(tokens, pos, TokenType::LeftBrace) {
        let body = block(tokens, pos + 1, Seq::empty());
        Parsed {
            value: match body.value {
                Some(statements) => Some(StmtModel::Block(statements)),
                None => None,
            },
            used: 1 + body.used,
            errors: body.errors,
        }
    } else {
        expression_statement(tokens, pos)
    }
}

/// `declaration → varDecl | statement`, without recovery.
pub open spec fn declaration_aux(tokens: Seq<TokenModel>, pos: int) -> Parsed<StmtModel>
    decreases remaining(tokens, pos), 20int,
{
    if check(tokens, pos, TokenType::Var) {
        after(1, Seq::empty(), var_declaration(tokens, pos + 1))
    } else {
        statement(tokens, pos)
    }
}

/// The number of tokens that recovery skips from `pos` on, after its first
/// step: up to the token after a `;`, or up to a token that starts a
/// statement, or up to the end.
#[verifier::opaque]
pub open spec fn skipped(tokens: Seq<TokenModel>, pos: int) -> nat
    decreases remaining(tokens, pos),
{
    if at_end(tokens, pos) {
        0
    } else if pos > 0 && tokens[pos - 1].kind == TokenType::Semicolon {
        0
    } else if starts_statement(tokens[pos].kind) {
        0
    } else {
        1 + skipped(tokens, pos + 1)
    }
}

/// The number of tokens that recovery skips from `pos` on: one, unless at
/// the end, and then those that `skipped` counts.
#[verifier::opaque]
pub open spec fn synchronize(tokens: Seq<TokenModel>, pos: int) -> nat {
    if at_end(tokens, pos) {
        0
    } else {
        1 + skipped(tokens, pos + 1)
    }
}

/// One declaration with recovery: where it fails, the tokens up to the next
/// likely statement boundary are skipped, and there is no statement.
pub open spec fn declaration(tokens: Seq<TokenModel>, pos: int) -> Declared
    decreases remaining(tokens, pos), 21int,
{
    let inner = declaration_aux(tokens, pos);
    match inner.value {
        Some(s) => Declared { statement: Some(s), used: inner.used, errors: inner.errors },
        None => Declared {
            statement: None,
            used: inner.used + synchronize(tokens, pos + inner.used),
            errors: inner.errors,
        },
    }
}

/// `program → declaration* EOF`, after the declarations in `done`.
#[verifier::opaque]
pub open spec fn program(tokens: Seq<TokenModel>, pos: int, done: Seq<StmtModel>) -> Program
    decreases remaining(tokens, pos), 23int,
{
    if !at_end(tokens, pos) {
        let first = declaration(tokens, pos);
        if first.used > 0 {
            let rest = program(
                tokens,
                pos + first.used,
                match first.statement {
                    Some(s) => done.push(s),
                    None => done,
                },
            );
            Program {
                statements: rest.statements,
                errors: first.errors + rest.errors,
                used: first.used + rest.used,
            }
        } else {
            Program { statements: done, errors: first.errors, used: 0 }
        }
    } else {
        Program { statements: done, errors: Seq::empty(), used: 0 }
    }
}

/// The statements of a token sequence, and the reports of what could not be
/// parsed.
pub open spec fn parse(tokens: Seq<TokenModel>) -> Program {
    program(tokens, 0, Seq::empty())
}

/// A unary expression that could be parsed has consumed at least one token.
pub proof fn lemma_unary_consumes(tokens: Seq<TokenModel>, pos: int)
    ensures
        unary(tokens, pos).value is Some ==> unary(tokens, pos).used > 0,
{
    if check(tokens, pos, TokenType::Bang) || check(tokens, pos, TokenType::Minus) {
    } else {
        assert(unary(tokens, pos) == primary(tokens, pos));
    }
}

/// A binary level that succeeds has consumed at least one token.
pub proof fn lemma_binary_consumes(tokens: Seq<TokenModel>, pos: int, level: int)
    ensures
        binary(tokens, pos, level).value is Some ==> binary(tokens, pos, level).used > 0,
        operand(tokens, pos, level).value is Some ==> operand(tokens, pos, level).used > 0,
    decreases level_rank(level),
{
    lemma_unary_consumes(tokens, pos);
    if 0 <= level < 5 {
        lemma_binary_consumes(tokens, pos, level + 1);
        assert(operand(tokens, pos, level) == binary(tokens, pos, level + 1));
    } else {
        assert(operand(tokens, pos, level) == unary(tokens, pos));
    }
    if 0 <= level <= 5 {
        let first = operand(tokens, pos, level);
        if first.value is Some {
            assert(binary(tokens, pos, level) == after(
                first.used,
                first.errors,
                binary_rest(tokens, pos + first.used, level, first.value->0),
            ));
        }
    }
}

/// An expression that could be parsed has consumed at least one token.
pub proof fn lemma_expression_consumes(tokens: Seq<TokenModel>, pos: int)
    ensures
        expression(tokens, pos).value is Some ==> expression(tokens, pos).used > 0,
{
    reveal(expression);
    lemma_binary_consumes(tokens, pos, 0);
}

/// A statement that could be parsed has consumed at least one token.
pub proof fn lemma_statement_consumes(tokens: Seq<TokenModel>, pos: int)
    ensures
        statement(tokens, pos).value is Some ==> statement(tokens, pos).used > 0,
{
    reveal(terminated);
    lemma_expression_consumes(tokens, pos);
}

/// Every declaration consumes at least one token, unless it starts at the end
/// marker: parsing always moves on, also where it fails.
pub proof fn lemma_declaration_advances(tokens: Seq<TokenModel>, pos: int)
    requires
        !at_end(tokens, pos),
    ensures
        declaration(tokens, pos).used > 0,
{
    reveal(synchronize);
    lemma_statement_consumes(tokens, pos);
}

} // verus!
