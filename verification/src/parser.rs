use vstd::prelude::*;
use vstd::string::*;
use crate::error_hadling::{parser_error, parser_error_text};
use crate::expr::{Assign, Binary, Expr, ExprModel, Grouping, Literal, Logical, Unary, Variable};
use crate::grammar::{
    assignment, at_end, binary, binary_rest, block, check, condition, consume, declaration,
    declaration_aux, expression, expression_statement, if_statement, join, level_operator,
    operand, primary, print_statement, program, skipped, statement, synchronize, terminated,
    unary, var_declaration, well_terminated, while_statement, Parsed,
};
use crate::scanner::{texts, token_models};
use crate::stmt::{models, Stmt, StmtModel};
use crate::token::{Token, TokenModel};
use crate::token_type::TokenType;

verus! {

/// The model of an expression that may be missing.
pub open spec fn expr_model(e: Option<Expr>) -> Option<ExprModel> {
    match e {
        Some(x) => Some(x@),
        None => None,
    }
}

/// The model of a statement that may be missing.
pub open spec fn stmt_model(s: Option<Stmt>) -> Option<StmtModel> {
    match s {
        Some(x) => Some(x@),
        None => None,
    }
}

/// The models of statements that may be missing.
pub open spec fn stmts_model(s: Option<Vec<Stmt>>) -> Option<Seq<StmtModel>> {
    match s {
        Some(x) => Some(models(x@)),
        None => None,
    }
}

/// The model of a token that may be missing.
pub open spec fn token_model(t: Option<Token>) -> Option<TokenModel> {
    match t {
        Some(x) => Some(x@),
        None => None,
    }
}

/// A recursive-descent parser over a token sequence.
pub struct Parser {
    tokens: Vec<Token>,
    current: usize,
    errors: Vec<String>,
}

impl Parser {
    /// The token sequence ends with the end marker, and the position is
    /// inside it.
    pub closed spec fn wf(&self) -> bool {
        &&& well_terminated(token_models(self.tokens@))
        &&& self.current < self.tokens@.len()
    }

    /// The tokens to parse.
    pub closed spec fn input(&self) -> Seq<TokenModel> {
        token_models(self.tokens@)
    }

    /// The index of the next token.
    pub closed spec fn position(&self) -> int {
        self.current as int
    }

    /// The error reports made so far.
    pub closed spec fn reported(&self) -> Seq<Seq<char>> {
        texts(self.errors@)
    }

    /// Whether this state is `before` after consuming `used` tokens and
    /// reporting `errors`.
    spec fn moved(&self, before: Parser, used: nat, errors: Seq<Seq<char>>) -> bool {
        &&& self.wf()
        &&& self.tokens == before.tokens
        &&& self.current == before.current + used
        &&& texts(self.errors@) == texts(before.errors@) + errors
    }

    /// Whether this state and `value` are what parsing made of `before`
    /// according to `p`. A success has consumed something.
    spec fn parsed<T>(&self, before: Parser, value: Option<T>, p: Parsed<T>) -> bool {
        &&& self.moved(before, p.used, p.errors)
        &&& value == p.value
        &&& value is Some ==> p.used > 0
    }

    /// The number of tokens not yet consumed.
    spec fn left(&self) -> int {
        self.tokens@.len() - self.current
    }

    /// A parser at the start of `tokens`.
    pub fn new(tokens: Vec<Token>) -> (r: Self)
        requires
            well_terminated(token_models(tokens@)),
        ensures
            r.wf(),
            r.input() == token_models(tokens@),
            r.position() == 0,
            r.reported() == Seq::<Seq<char>>::empty(),
    {
        let current: usize = 0;
        let r = Parser { tokens, current, errors: Vec::new() };
        assert(texts(r.errors@) =~= Seq::<Seq<char>>::empty());
        r
    }

    /// The error reports made so far, oldest first.
    pub fn get_errors(&self) -> (r: &Vec<String>)
        ensures
            texts(r@) == self.reported(),
    {
        &self.errors
    }

    /// Parses declarations up to the end marker. A declaration that cannot
    /// be parsed is reported and skipped; the others are returned in order.
    pub fn parser(&mut self) -> (r: Vec<Stmt>)
        requires
            old(self).wf(),
        ensures
            final(self).wf(),
            final(self).input() == old(self).input(),
            models(r@) == program(old(self).input(), old(self).position(), Seq::empty()).statements,
            final(self).reported() == old(self).reported() + program(
                old(self).input(),
                old(self).position(),
                Seq::empty(),
            ).errors,
            final(self).position() == old(self).position() + program(
                old(self).input(),
                old(self).position(),
                Seq::empty(),
            ).used,
            at_end(final(self).input(), final(self).position()),
    {
        proof {
            reveal(program);
        }
        let mut statements: Vec<Stmt> = Vec::new();
        let ghost whole = program(
            token_models(self.tokens@),
            self.current as int,
            Seq::<StmtModel>::empty(),
        );
        let ghost start = self.current as int;
        let ghost errors_before = texts(self.errors@);
        assert(models(statements@) =~= Seq::<StmtModel>::empty());
        assert(errors_before + whole.errors =~= texts(self.errors@) + whole.errors);
        while !self.is_at_end()
            invariant
                self.wf(),
                self.tokens == old(self).tokens,
                start <= self.current,
                whole.statements == program(
                    token_models(self.tokens@),
                    self.current as int,
                    models(statements@),
                ).statements,
                errors_before + whole.errors == texts(self.errors@) + program(
                    token_models(self.tokens@),
                    self.current as int,
                    models(statements@),
                ).errors,
                start + whole.used == self.current + program(
                    token_models(self.tokens@),
                    self.current as int,
                    models(statements@),
                ).used,
            decreases self.left(),
        {
            proof {
                reveal(program);
            }
            let ghost here = *self;
            let ghost done = models(statements@);
            let stmt = self.declaration();
            match stmt {
                Some(val) => {
                    statements.push(val);
                    assert(models(statements@) =~= done.push(val@));
                },
                None => {},
            }
            proof {
                let first = declaration(token_models(here.tokens@), here.current as int);
                let rest = program(
                    token_models(self.tokens@),
                    self.current as int,
                    models(statements@),
                );
                assert(texts(self.errors@) + rest.errors =~= texts(here.errors@) + (first.errors
                    + rest.errors));
            }
        }
        proof {
            reveal(program);
            assert(errors_before + whole.errors =~= texts(self.errors@));
        }
        statements
    }

    /// One declaration with recovery.
    fn declaration(&mut self) -> (r: Option<Stmt>)
        requires
            old(self).wf(),
            !at_end(token_models(old(self).tokens@), old(self).current as int),
        ensures
            final(self).moved(
                *old(self),
                declaration(token_models(old(self).tokens@), old(self).current as int).used,
                declaration(token_models(old(self).tokens@), old(self).current as int).errors,
            ),
            stmt_model(r) == declaration(
                token_models(old(self).tokens@),
                old(self).current as int,
            ).statement,
            final(self).current > old(self).current,
        decreases old(self).left(), 31int,
    {
        proof {
            reveal(synchronize);
        }
        let result = self.declaration_aux();
        match result {
            Some(value) => Some(value),
            None => {
                let ghost failed_at = *self;
                self.syncronize();
                proof {
                    assert(texts(self.errors@) =~= texts(failed_at.errors@));
                }
                None
            },
        }
    }

    /// `declaration → varDecl | statement`
    fn declaration_aux(&mut self) -> (r: Option<Stmt>)
        requires
            old(self).wf(),
        ensures
            final(self).parsed(
                *old(self),
                stmt_model(r),
                declaration_aux(token_models(old(self).tokens@), old(self).current as int),
            ),
        decreases old(self).left(), 30int,
    {
        if self.match_signal(TokenType::Var) {
            let ghost here = *self;
            let r = self.var_declaration();
            proof {
                let p = var_declaration(token_models(here.tokens@), here.current as int);
                assert(texts(self.errors@) =~= texts(old(self).errors@) + (Seq::<
                    Seq<char>,
                >::empty() + p.errors));
            }
            return r;
        }
        self.statement()
    }

    /// `varDecl → "var" IDENTIFIER ("=" expression)? ";"`, after the `var`.
    fn var_declaration(&mut self) -> (r: Option<Stmt>)
        requires
            old(self).wf(),
        ensures
            final(self).parsed(
                *old(self),
                stmt_model(r),
                var_declaration(token_models(old(self).tokens@), old(self).current as int),
            ),
    {
        proof {
            reveal(var_declaration);
        }
        let name = self.consume(TokenType::Identifier, "Expect variable name.")?;
        let mut initializer: Option<Expr> = None;
        let ghost mut inner = Seq::<Seq<char>>::empty();
        if self.match_signal(TokenType::Equal) {
            let ghost here = *self;
            let aux = self.expression()?;
            proof {
                inner = expression(token_models(here.tokens@), here.current as int).errors;
            }
            initializer = Some(aux);
        }
        let ghost here = *self;
        let closing = self.consume(TokenType::Semicolon, "Expect ';' after variable declaration.");
        proof {
            let semicolon = consume(
                token_models(here.tokens@),
                here.current as int,
                TokenType::Semicolon,
                "Expect ';' after variable declaration."@,
            );
            assert(texts(self.errors@) =~= texts(old(self).errors@) + (inner + semicolon.errors));
            assert(inner + Seq::<Seq<char>>::empty() =~= inner);
        }
        let _ = closing?;
        Some(Stmt::Var(name, initializer))
    }

    /// `statement → ifStmt | whileStmt | printStmt | block | exprStmt`
    fn statement(&mut self) -> (r: Option<Stmt>)
        requires
            old(self).wf(),
        ensures
            final(self).parsed(
                *old(self),
                stmt_model(r),
                statement(token_models(old(self).tokens@), old(self).current as int),
            ),
        decreases old(self).left(), 29int,
    {
        if self.match_signal(TokenType::If) {
            let ghost here = *self;
            let r = self.if_statement();
            proof {
                let p = if_statement(token_models(here.tokens@), here.current as int);
                assert(texts(self.errors@) =~= texts(old(self).errors@) + (Seq::<
                    Seq<char>,
                >::empty() + p.errors));
            }
            return r;
        }
        if self.match_signal(TokenType::While) {
            let ghost here = *self;
            let r = self.while_statement();
            proof {
                let p = while_statement(token_models(here.tokens@), here.current as int);
                assert(texts(self.errors@) =~= texts(old(self).errors@) + (Seq::<
                    Seq<char>,
                >::empty() + p.errors));
            }
            return r;
        }
        if self.match_signal(TokenType::Print) {
            let ghost here = *self;
            let r = self.print_statement();
            proof {
                let p = print_statement(token_models(here.tokens@), here.current as int);
                assert(texts(self.errors@) =~= texts(old(self).errors@) + (Seq::<
                    Seq<char>,
                >::empty() + p.errors));
            }
            return r;
        }
        if self.match_signal(TokenType::LeftBrace) {
            let statements = self.block()?;
            let r = Stmt::Block(statements);
            assert(r@ == StmtModel::Block(models(statements@))) by {
                assert(r@->Block_0 =~= models(statements@));
            }
            return Some(r);
        }
        self.expression_statement()
    }

    /// `ifStmt → "if" "(" expression ")" statement ("else" statement)?`,
    /// after the `if`.
    fn if_statement(&mut self) -> (r: Option<Stmt>)
        requires
            old(self).wf(),
        ensures
            final(self).parsed(
                *old(self),
                stmt_model(r),
                if_statement(token_models(old(self).tokens@), old(self).current as int),
            ),
        decreases old(self).left(), 28int,
    {
        let ghost tokens = token_models(self.tokens@);
        let ghost start = self.current as int;
        let ghost test = condition(
            tokens,
            start,
            "Expect '(' after 'if'."@,
            "Expect ')' after if condition."@,
        );
        let condition = self.condition("Expect '(' after 'if'.", "Expect ')' after if condition.")?;
        let ghost then_model = statement(tokens, self.current as int);
        let then_statement = match self.statement() {
            Some(s) => s,
            None => {
                proof {
                    assert(texts(self.errors@) =~= texts(old(self).errors@) + (test.errors
                        + then_model.errors));
                }
                return None;
            },
        };
        let mut else_branch: Option<Box<Stmt>> = None;
        let ghost mut else_errors = Seq::<Seq<char>>::empty();
        if self.match_signal(TokenType::Else) {
            let ghost else_model = statement(tokens, self.current as int);
            proof {
                else_errors = else_model.errors;
            }
            let result_value = self.statement();
            proof {
                assert(texts(self.errors@) =~= texts(old(self).errors@) + (test.errors
                    + then_model.errors + else_model.errors));
            }
            match result_value {
                Some(value) => {
                    else_branch = Some(Box::new(value));
                },
                None => {
                    return None;
                },
            }
        }
        proof {
            assert(texts(self.errors@) =~= texts(old(self).errors@) + (test.errors
                + then_model.errors + else_errors));
            assert(test.errors + then_model.errors + Seq::<Seq<char>>::empty() =~= test.errors
                + then_model.errors);
        }
        Some(Stmt::If(condition, Box::new(then_statement), else_branch))
    }

    /// `whileStmt → "while" "(" expression ")" statement`, after the
    /// `while`.
    fn while_statement(&mut self) -> (r: Option<Stmt>)
        requires
            old(self).wf(),
        ensures
            final(self).parsed(
                *old(self),
                stmt_model(r),
                while_statement(token_models(old(self).tokens@), old(self).current as int),
            ),
        decreases old(self).left(), 28int,
    {
        let ghost tokens = token_models(self.tokens@);
        let ghost start = self.current as int;
        let ghost test = condition(
            tokens,
            start,
            "Expect '(' after 'while'."@,
            "Expect ')' after while condition."@,
        );
        let condition = self.condition(
            "Expect '(' after 'while'.",
            "Expect ')' after while condition.",
        )?;
        let ghost body_model = statement(tokens, self.current as int);
        let body = self.statement();
        proof {
            assert(texts(self.errors@) =~= texts(old(self).errors@) + (test.errors
                + body_model.errors));
        }
        let while_statement = body?;
        Some(Stmt::While(condition, Box::new(while_statement)))
    }

    /// A condition in parentheses.
    fn condition(&mut self, opening: &str, closing: &str) -> (r: Option<Expr>)
        requires
            old(self).wf(),
        ensures
            final(self).parsed(
                *old(self),
                expr_model(r),
                condition(
                    token_models(old(self).tokens@),
                    old(self).current as int,
                    opening@,
                    closing@,
                ),
            ),
            r is Some ==> final(self).current >= old(self).current + 2,
    {
        proof {
            reveal(condition);
        }
        let ghost tokens = token_models(self.tokens@);
        let _ = self.consume(TokenType::LeftParen, opening)?;
        let ghost inner = expression(tokens, self.current as int);
        let value = self.expression()?;
        let ghost close = consume(tokens, self.current as int, TokenType::RightParen, closing@);
        let closed = self.consume(TokenType::RightParen, closing);
        proof {
            assert(texts(self.errors@) =~= texts(old(self).errors@) + (inner.errors
                + close.errors));
            assert(inner.errors + Seq::<Seq<char>>::empty() =~= inner.errors);
        }
        let _ = closed?;
        Some(value)
    }

    /// `printStmt → "print" expression ";"`, after the `print`.
    fn print_statement(&mut self) -> (r: Option<Stmt>)
        requires
            old(self).wf(),
        ensures
            final(self).parsed(
                *old(self),
                stmt_model(r),
                print_statement(token_models(old(self).tokens@), old(self).current as int),
            ),
    {
        let value = self.terminated("Expect ';' after value.")?;
        Some(Stmt::Print(value))
    }

    /// `exprStmt → expression ";"`
    fn expression_statement(&mut self) -> (r: Option<Stmt>)
        requires
            old(self).wf(),
        ensures
            final(self).parsed(
                *old(self),
                stmt_model(r),
                expression_statement(token_models(old(self).tokens@), old(self).current as int),
            ),
    {
        let value = self.terminated("Expect ';' after expression.")?;
        Some(Stmt::Expr(value))
    }

    /// An expression and the `;` after it.
    fn terminated(&mut self, message: &str) -> (r: Option<Expr>)
        requires
            old(self).wf(),
        ensures
            final(self).parsed(
                *old(self),
                expr_model(r),
                terminated(token_models(old(self).tokens@), old(self).current as int, message@),
            ),
    {
        proof {
            reveal(terminated);
        }
        let ghost tokens = token_models(self.tokens@);
        let ghost inner = expression(tokens, self.current as int);
        let value = self.expression()?;
        let ghost semicolon = consume(
            tokens,
            self.current as int,
            TokenType::Semicolon,
            message@,
        );
        let closed = self.consume(TokenType::Semicolon, message);
        proof {
            assert(texts(self.errors@) =~= texts(old(self).errors@) + (inner.errors
                + semicolon.errors));
            assert(inner.errors + Seq::<Seq<char>>::empty() =~= inner.errors);
        }
        let _ = closed?;
        Some(value)
    }

    /// `block → "{" declaration* "}"`, after the `{`.
    fn block(&mut self) -> (r: Option<Vec<Stmt>>)
        requires
            old(self).wf(),
        ensures
            final(self).parsed(
                *old(self),
                stmts_model(r),
                block(token_models(old(self).tokens@), old(self).current as int, Seq::empty()),
            ),
        decreases old(self).left(), 32int,
    {
        let mut statements: Vec<Stmt> = Vec::new();
        let ghost tokens = token_models(self.tokens@);
        let ghost start = self.current as int;
        let ghost whole = block(tokens, start, Seq::<StmtModel>::empty());
        let ghost errors_before = texts(self.errors@);
        assert(models(statements@) =~= Seq::<StmtModel>::empty());
        assert(errors_before + whole.errors =~= texts(self.errors@) + whole.errors);
        while !self.check(TokenType::RightBrace) && !self.is_at_end()
            invariant
                self.wf(),
                self.tokens == old(self).tokens,
                tokens == token_models(self.tokens@),
                start <= self.current,
                self.left() <= old(self).left(),
                whole.value == block(tokens, self.current as int, models(statements@)).value,
                errors_before + whole.errors == texts(self.errors@) + block(
                    tokens,
                    self.current as int,
                    models(statements@),
                ).errors,
                start + whole.used == self.current + block(
                    tokens,
                    self.current as int,
                    models(statements@),
                ).used,
            decreases self.left(),
        {
            let ghost here = *self;
            let ghost done = models(statements@);
            match self.declaration() {
                Some(val) => {
                    statements.push(val);
                    assert(models(statements@) =~= done.push(val@));
                },
                None => {},
            }
            proof {
                let first = declaration(tokens, here.current as int);
                let rest = block(tokens, self.current as int, models(statements@));
                assert(texts(self.errors@) + rest.errors =~= texts(here.errors@) + (first.errors
                    + rest.errors));
            }
        }
        let ghost here = *self;
        let closed = self.consume(TokenType::RightBrace, "Expect '}' after block.");
        proof {
            let close = consume(
                tokens,
                here.current as int,
                TokenType::RightBrace,
                "Expect '}' after block."@,
            );
            assert(texts(self.errors@) =~= errors_before + whole.errors);
        }
        let _ = closed?;
        Some(statements)
    }

    /// `expression → assignment`
    fn expression(&mut self) -> (r: Option<Expr>)
        requires
            old(self).wf(),
        ensures
            final(self).parsed(
                *old(self),
                expr_model(r),
                expression(token_models(old(self).tokens@), old(self).current as int),
            ),
        decreases old(self).left(), 22int,
    {
        proof {
            reveal(expression);
        }
        self.assignment()
    }

    /// `assignment → (IDENTIFIER "=" assignment) | logic_or`
    fn assignment(&mut self) -> (r: Option<Expr>)
        requires
            old(self).wf(),
        ensures
            final(self).parsed(
                *old(self),
                expr_model(r),
                assignment(token_models(old(self).tokens@), old(self).current as int),
            ),
        decreases old(self).left(), 21int,
    {
        let ghost tokens = token_models(self.tokens@);
        let ghost left = binary(tokens, self.current as int, 0);
        let expression = self.or()?;
        if self.match_signal(TokenType::Equal) {
            let equals = self.previous();
            let ghost right = assignment(tokens, self.current as int);
            let assigned = self.assignment();
            proof {
                assert(texts(self.errors@) =~= texts(old(self).errors@) + (left.errors
                    + right.errors));
            }
            let value = assigned?;
            match expression {
                Expr::Variable(name) => {
                    return Some(Expr::Assign(Assign::new(name.get_value(), Box::new(value))));
                },
                other => {
                    self.error(equals, "Invalid assignment target.");
                    proof {
                        assert(texts(self.errors@) =~= texts(old(self).errors@) + (left.errors
                            + right.errors + seq![
                            parser_error_text(equals@, "Invalid assignment target."@),
                        ]));
                    }
                    return Some(other);
                },
            }
        }
        Some(expression)
    }

    /// `logic_or → logic_and ("or" logic_and)*`
    fn or(&mut self) -> (r: Option<Expr>)
        requires
            old(self).wf(),
        ensures
            final(self).parsed(
                *old(self),
                expr_model(r),
                binary(token_models(old(self).tokens@), old(self).current as int, 0),
            ),
        decreases old(self).left(), 20int,
    {
        self.binary(0)
    }

    /// `logic_and → equality ("and" equality)*`
    fn and(&mut self) -> (r: Option<Expr>)
        requires
            old(self).wf(),
        ensures
            final(self).parsed(
                *old(self),
                expr_model(r),
                binary(token_models(old(self).tokens@), old(self).current as int, 1),
            ),
        decreases old(self).left(), 17int,
    {
        self.binary(1)
    }

    /// `equality → comparison (("!="|"==") comparison)*`
    fn equality(&mut self) -> (r: Option<Expr>)
        requires
            old(self).wf(),
        ensures
            final(self).parsed(
                *old(self),
                expr_model(r),
                binary(token_models(old(self).tokens@), old(self).current as int, 2),
            ),
        decreases old(self).left(), 14int,
    {
        self.binary(2)
    }

    /// `comparison → term ((">"|">="|"<"|"<=") term)*`
    fn comparison(&mut self) -> (r: Option<Expr>)
        requires
            old(self).wf(),
        ensures
            final(self).parsed(
                *old(self),
                expr_model(r),
                binary(token_models(old(self).tokens@), old(self).current as int, 3),
            ),
        decreases old(self).left(), 11int,
    {
        self.binary(3)
    }

    /// `term → factor (("-"|"+") factor)*`
    fn term(&mut self) -> (r: Option<Expr>)
        requires
            old(self).wf(),
        ensures
            final(self).parsed(
                *old(self),
                expr_model(r),
                binary(token_models(old(self).tokens@), old(self).current as int, 4),
            ),
        decreases old(self).left(), 8int,
    {
        self.binary(4)
    }

    /// `factor → unary (("/"|"*") unary)*`
    fn factor(&mut self) -> (r: Option<Expr>)
        requires
            old(self).wf(),
        ensures
            final(self).parsed(
                *old(self),
                expr_model(r),
                binary(token_models(old(self).tokens@), old(self).current as int, 5),
            ),
        decreases old(self).left(), 5int,
    {
        self.binary(5)
    }

    /// The operand of a binary level: the next level up.
    fn operand(&mut self, level: u8) -> (r: Option<Expr>)
        requires
            old(self).wf(),
            level <= 5,
        ensures
            final(self).parsed(
                *old(self),
                expr_model(r),
                operand(token_models(old(self).tokens@), old(self).current as int, level as int),
            ),
        decreases old(self).left(), 3 * (6 - level),
    {
        if level == 0 {
            self.and()
        } else if level == 1 {
            self.equality()
        } else if level == 2 {
            self.comparison()
        } else if level == 3 {
            self.term()
        } else if level == 4 {
            self.factor()
        } else {
            self.unary()
        }
    }

    /// One binary level: operands joined to the left by the operators of
    /// the level.
    fn binary(&mut self, level: u8) -> (r: Option<Expr>)
        requires
            old(self).wf(),
            level <= 5,
        ensures
            final(self).parsed(
                *old(self),
                expr_model(r),
                binary(token_models(old(self).tokens@), old(self).current as int, level as int),
            ),
        decreases old(self).left(), 3 * (6 - level) + 1,
    {
        let ghost tokens = token_models(self.tokens@);
        let ghost start = self.current as int;
        let ghost whole = binary(tokens, start, level as int);
        let ghost errors_before = texts(self.errors@);
        let mut expr = self.operand(level)?;
        proof {
            let first = operand(tokens, start, level as int);
            let rest = binary_rest(tokens, self.current as int, level as int, expr@);
            assert(errors_before + whole.errors =~= texts(self.errors@) + rest.errors);
        }
        loop
            invariant_except_break
                whole.value == binary_rest(
                    tokens,
                    self.current as int,
                    level as int,
                    expr@,
                ).value,
                errors_before + whole.errors == texts(self.errors@) + binary_rest(
                    tokens,
                    self.current as int,
                    level as int,
                    expr@,
                ).errors,
                start + whole.used == self.current + binary_rest(
                    tokens,
                    self.current as int,
                    level as int,
                    expr@,
                ).used,
            invariant
                self.wf(),
                level <= 5,
                self.tokens == old(self).tokens,
                tokens == token_models(self.tokens@),
                start == old(self).current,
                errors_before == texts(old(self).errors@),
                whole == binary(tokens, start, level as int),
                start < self.current,
                self.left() < old(self).left(),
            ensures
                whole.value == Some(expr@),
                start + whole.used == self.current,
                errors_before + whole.errors == texts(self.errors@),
            decreases self.left(),
        {
            if !self.match_operator(level) {
                proof {
                    assert(errors_before + whole.errors =~= texts(self.errors@));
                }
                break ;
            }
            let operator = self.previous();
            let ghost here = *self;
            let ghost left = expr@;
            let side = self.operand(level);
            let right = match side {
                Some(e) => e,
                None => {
                    proof {
                        let p = operand(tokens, here.current as int, level as int);
                        assert(errors_before + whole.errors =~= texts(self.errors@));
                        assert(texts(self.errors@) =~= errors_before + whole.errors);
                    }
                    return None;
                },
            };
            if level <= 1 {
                expr = Expr::Logical(Logical::new(Box::new(expr), operator, Box::new(right)));
            } else {
                expr = Expr::Binary(Binary::new(Box::new(expr), operator, Box::new(right)));
            }
            proof {
                let p = operand(tokens, here.current as int, level as int);
                let rest = binary_rest(tokens, self.current as int, level as int, expr@);
                assert(expr@ == join(level as int, left, operator@, right@));
                assert(texts(self.errors@) + rest.errors =~= texts(here.errors@) + (p.errors
                    + rest.errors));
            }
        }
        proof {
            assert(texts(self.errors@) =~= texts(old(self).errors@) + whole.errors);
        }
        Some(expr)
    }

    /// `unary → ("!"|"-") unary | primary`
    fn unary(&mut self) -> (r: Option<Expr>)
        requires
            old(self).wf(),
        ensures
            final(self).parsed(
                *old(self),
                expr_model(r),
                unary(token_models(old(self).tokens@), old(self).current as int),
            ),
        decreases old(self).left(), 2int,
    {
        if self.match_signal(TokenType::Bang) || self.match_signal(TokenType::Minus) {
            let operator = self.previous();
            let ghost here = *self;
            let right = self.unary();
            proof {
                let p = unary(token_models(here.tokens@), here.current as int);
                assert(texts(self.errors@) =~= texts(old(self).errors@) + p.errors);
            }
            let right = right?;
            let right_pointer = Box::new(right);
            return Some(Expr::Unary(Unary::new(operator, right_pointer)));
        }
        self.primary()
    }

    /// `primary → NUMBER | STRING | "true" | "false" | "nil"
    ///          | "(" expression ")" | IDENTIFIER`
    fn primary(&mut self) -> (r: Option<Expr>)
        requires
            old(self).wf(),
        ensures
            final(self).parsed(
                *old(self),
                expr_model(r),
                primary(token_models(old(self).tokens@), old(self).current as int),
            ),
        decreases old(self).left(), 1int,
    {
        proof {
            reveal(expression);
        }
        let ghost tokens = token_models(self.tokens@);
        if self.match_signal(TokenType::False) || self.match_signal(TokenType::True)
            || self.match_signal(TokenType::Nil) || self.match_signal(TokenType::String)
            || self.match_signal(TokenType::Number) {
            proof {
                assert(texts(self.errors@) =~= texts(old(self).errors@) + Seq::<
                    Seq<char>,
                >::empty());
            }
            return Some(Expr::Literal(Literal::new(self.previous())));
        }
        if self.match_signal(TokenType::LeftParen) {
            let ghost inner = expression(tokens, self.current as int);
            let value = self.expression();
            proof {
                assert(texts(self.errors@) =~= texts(old(self).errors@) + inner.errors);
            }
            let expression = value?;
            let ghost close = consume(
                tokens,
                self.current as int,
                TokenType::RightParen,
                "Expect ')' after expression."@,
            );
            let closed = self.consume(TokenType::RightParen, "Expect ')' after expression.");
            proof {
                assert(texts(self.errors@) =~= texts(old(self).errors@) + (inner.errors
                    + close.errors));
                assert(inner.errors + Seq::<Seq<char>>::empty() =~= inner.errors);
            }
            let _ = closed?;
            let expression = Box::new(expression);
            return Some(Expr::Grouping(Grouping::new(expression)));
        }
        if self.match_signal(TokenType::Identifier) {
            proof {
                assert(texts(self.errors@) =~= texts(old(self).errors@) + Seq::<
                    Seq<char>,
                >::empty());
            }
            return Some(Expr::Variable(Variable::new(self.previous())));
        }
        let token = self.peek();
        self.error(token, "Expect expression.");
        None
    }

    /// Steps over the next token where it is of the kind.
    fn match_signal(&mut self, kind: TokenType) -> (r: bool)
        requires
            old(self).wf(),
        ensures
            r == check(token_models(old(self).tokens@), old(self).current as int, kind),
            final(self).wf(),
            final(self).tokens == old(self).tokens,
            final(self).errors == old(self).errors,
            final(self).current == if r {
                old(self).current + 1
            } else {
                old(self).current as int
            },
    {
        if self.check(kind) {
            self.advance();
            return true;
        }
        false
    }

    /// Steps over the next token where it is an operator of the level.
    fn match_operator(&mut self, level: u8) -> (r: bool)
        requires
            old(self).wf(),
        ensures
            r == (!at_end(token_models(old(self).tokens@), old(self).current as int)
                && level_operator(
                level as int,
                token_models(old(self).tokens@)[old(self).current as int].kind,
            )),
            final(self).wf(),
            final(self).tokens == old(self).tokens,
            final(self).errors == old(self).errors,
            final(self).current == if r {
                old(self).current + 1
            } else {
                old(self).current as int
            },
    {
        if self.is_at_end() {
            return false;
        }
        let kind = self.tokens[self.current].get_token_type();
        let found = if level == 0 {
            kind == TokenType::Or
        } else if level == 1 {
            kind == TokenType::And
        } else if level == 2 {
            kind == TokenType::BangEqual || kind == TokenType::EqualEqual
        } else if level == 3 {
            kind == TokenType::Greater || kind == TokenType::GreaterEqual || kind
                == TokenType::Less || kind == TokenType::LessEqual
        } else if level == 4 {
            kind == TokenType::Plus || kind == TokenType::Minus
        } else if level == 5 {
            kind == TokenType::Slash || kind == TokenType::Star
        } else {
            false
        };
        if found {
            self.advance();
        }
        found
    }

    /// Steps over the next token where it is of the kind; else reports
    /// `message` at the next token.
    fn consume(&mut self, kind: TokenType, message: &str) -> (r: Option<Token>)
        requires
            old(self).wf(),
        ensures
            final(self).parsed(
                *old(self),
                token_model(r),
                consume(token_models(old(self).tokens@), old(self).current as int, kind, message@),
            ),
    {
        if self.check(kind) {
            let token = self.advance();
            proof {
                assert(texts(self.errors@) =~= texts(old(self).errors@) + Seq::<
                    Seq<char>,
                >::empty());
            }
            return Some(token);
        }
        let token = self.peek();
        self.error(token, message);
        None
    }

    /// Whether the next token is of the kind. The end marker never is.
    fn check(&self, kind: TokenType) -> (r: bool)
        requires
            self.wf(),
        ensures
            r == check(token_models(self.tokens@), self.current as int, kind),
    {
        if self.is_at_end() {
            false
        } else {
            self.tokens[self.current].get_token_type() == kind
        }
    }

    /// Steps over the next token, which is not the end marker.
    fn advance(&mut self) -> (r: Token)
        requires
            old(self).wf(),
            !at_end(token_models(old(self).tokens@), old(self).current as int),
        ensures
            final(self).wf(),
            final(self).tokens == old(self).tokens,
            final(self).errors == old(self).errors,
            final(self).current == old(self).current + 1,
            r@ == token_models(old(self).tokens@)[old(self).current as int],
    {
        proof {
            assert(token_models(self.tokens@).last() == self.tokens@[self.tokens.len() - 1]@);
        }
        self.current += 1;
        self.previous()
    }

    /// Whether the next token is the end marker.
    fn is_at_end(&self) -> (r: bool)
        requires
            self.wf(),
        ensures
            r == at_end(token_models(self.tokens@), self.current as int),
    {
        self.tokens[self.current].get_token_type() == TokenType::Eof
    }

    /// The next token.
    fn peek(&self) -> (r: Token)
        requires
            self.wf(),
        ensures
            r@ == token_models(self.tokens@)[self.current as int],
    {
        self.tokens[self.current].clone()
    }

    /// The token before the next one.
    fn previous(&self) -> (r: Token)
        requires
            0 < self.current <= self.tokens@.len(),
        ensures
            r@ == token_models(self.tokens@)[self.current - 1],
    {
        self.tokens[self.current - 1].clone()
    }

    /// Reports a syntax error at the token.
    fn error(&mut self, token: Token, message: &str)
        ensures
            final(self).tokens == old(self).tokens,
            final(self).current == old(self).current,
            texts(final(self).errors@) == texts(old(self).errors@) + seq![
                parser_error_text(token@, message@),
            ],
    {
        let text = parser_error(token, String::from_str(message));
        self.errors.push(text);
        assert(texts(self.errors@) =~= texts(old(self).errors@) + seq![text@]);
    }

    /// Recovery: skips tokens up to the next likely statement boundary.
    fn syncronize(&mut self)
        requires
            old(self).wf(),
        ensures
            final(self).wf(),
            final(self).tokens == old(self).tokens,
            final(self).errors == old(self).errors,
            final(self).current == old(self).current + synchronize(
                token_models(old(self).tokens@),
                old(self).current as int,
            ),
    {
        proof {
            reveal(synchronize);
            reveal(skipped);
        }
        if self.is_at_end() {
            return ;
        }
        self.advance();
        let ghost tokens = token_models(self.tokens@);
        while !self.is_at_end()
            invariant
                self.wf(),
                self.tokens == old(self).tokens,
                self.errors == old(self).errors,
                tokens == token_models(self.tokens@),
                !at_end(tokens, old(self).current as int),
                self.current > old(self).current,
                self.current + skipped(tokens, self.current as int) == old(self).current + 1
                    + skipped(tokens, old(self).current + 1),
            decreases self.left(),
        {
            proof {
                reveal(synchronize);
                reveal(skipped);
            }
            if self.tokens[self.current - 1].get_token_type() == TokenType::Semicolon {
                return ;
            }
            let kind = self.tokens[self.current].get_token_type();
            if kind == TokenType::Class || kind == TokenType::Fun || kind == TokenType::Var || kind
                == TokenType::For || kind == TokenType::If || kind == TokenType::While || kind
                == TokenType::Print || kind == TokenType::Return {
                return ;
            }
            self.advance();
        }
    }
}

} // verus!
