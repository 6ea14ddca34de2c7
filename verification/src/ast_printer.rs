use vstd::prelude::*;
use vstd::string::*;
use crate::expr::{Assign, Binary, Expr, ExprModel, Grouping, Literal, Unary, Variable};
use crate::token::TokenModel;
use crate::token_type::TokenType;

verus! {

/// The text of a literal: `nil`, or the lexeme.
pub open spec fn literal_rendering(token: TokenModel) -> Seq<char> {
    if token.kind == TokenType::Nil {
        "nil"@
    } else {
        token.lexeme
    }
}

/// The name under which an assignment is shown.
pub open spec fn assign_name(name: TokenModel) -> Seq<char> {
    "(assign)= "@ + name.lexeme
}

/// An expression in prefix form: `(name operand ...)`. Literals and
/// variables stand for themselves. A logical expression is not shown.
pub open spec fn rendering(e: ExprModel) -> Seq<char>
    decreases e,
{
    match e {
        ExprModel::Literal(token) => literal_rendering(token),
        ExprModel::Variable(name) => name.lexeme,
        ExprModel::Grouping(inner) => "("@ + "group"@ + " "@ + rendering(*inner) + ")"@,
        ExprModel::Unary(operator, operand) => "("@ + operator.lexeme + " "@ + rendering(*operand)
            + ")"@,
        ExprModel::Binary(left, operator, right) => "("@ + operator.lexeme + " "@ + rendering(
            *left,
        ) + " "@ + rendering(*right) + ")"@,
        ExprModel::Assign(name, value) => "("@ + assign_name(name) + " "@ + rendering(*value)
            + ")"@,
        ExprModel::Logical(_, _, _) => "[ERROR]"@,
    }
}

/// Shows expression trees as text, for debugging.
pub struct AstPrinter;

impl AstPrinter {
    pub fn new() -> (r: Self) {
        AstPrinter
    }

    /// The text of an expression.
    pub fn print(&self, expr: Expr) -> (r: String)
        ensures
            r@ == rendering(expr@),
    {
        self.get_new_print(&expr)
    }

    /// `(operator left right)`
    pub fn print_binary_expr(&self, expr: Binary) -> (r: String)
        ensures
            r@ == rendering(Expr::Binary(expr)@),
    {
        self.get_new_print(&Expr::Binary(expr))
    }

    /// `(group expression)`
    pub fn print_grouping_expr(&self, expr: Grouping) -> (r: String)
        ensures
            r@ == rendering(Expr::Grouping(expr)@),
    {
        self.get_new_print(&Expr::Grouping(expr))
    }

    /// `nil`, or the lexeme of the literal.
    pub fn print_literal_expr(&self, expr: Literal) -> (r: String)
        ensures
            r@ == literal_rendering(expr.value@),
    {
        match expr.value.get_token_type() {
            TokenType::Nil => String::from_str("nil"),
            _ => expr.value.get_lexeme(),
        }
    }

    /// `(operator operand)`
    pub fn print_unary_expr(&self, expr: Unary) -> (r: String)
        ensures
            r@ == rendering(Expr::Unary(expr)@),
    {
        self.get_new_print(&Expr::Unary(expr))
    }

    /// `((assign)= name value)`
    pub fn print_assign_expr(&self, expr: Assign) -> (r: String)
        ensures
            r@ == rendering(Expr::Assign(expr)@),
    {
        self.get_new_print(&Expr::Assign(expr))
    }

    /// The name of the variable.
    pub fn print_variable_expr(&self, expr: Variable) -> (r: String)
        ensures
            r@ == expr.value@.lexeme,
    {
        expr.value.get_lexeme()
    }

    /// The text of an expression.
    fn get_new_print(&self, expr: &Expr) -> (r: String)
        ensures
            r@ == rendering(expr@),
        decreases expr,
    {
        match expr {
            Expr::Literal(node) => {
                match node.value.get_token_type() {
                    TokenType::Nil => String::from_str("nil"),
                    _ => node.value.get_lexeme(),
                }
            },
            Expr::Variable(node) => node.value.get_lexeme(),
            Expr::Grouping(node) => {
                let mut builder = self.parenthesize("group");
                builder.append(" ");
                builder.append(self.get_new_print(&*node.expression).as_str());
                builder.append(")");
                builder
            },
            Expr::Unary(node) => {
                let mut builder = self.parenthesize(node.operator.get_lexeme().as_str());
                builder.append(" ");
                builder.append(self.get_new_print(&*node.expression).as_str());
                builder.append(")");
                builder
            },
            Expr::Binary(node) => {
                let mut builder = self.parenthesize(node.operator.get_lexeme().as_str());
                builder.append(" ");
                builder.append(self.get_new_print(&*node.left).as_str());
                builder.append(" ");
                builder.append(self.get_new_print(&*node.right).as_str());
                builder.append(")");
                builder
            },
            Expr::Assign(node) => {
                let mut name = String::from_str("(assign)= ");
                name.append(node.value.get_lexeme().as_str());
                let mut builder = self.parenthesize(name.as_str());
                builder.append(" ");
                builder.append(self.get_new_print(&*node.expression).as_str());
                builder.append(")");
                builder
            },
            Expr::Logical(_) => String::from_str("[ERROR]"),
        }
    }

    /// The opening of a group: `(` and the name.
    fn parenthesize(&self, name: &str) -> (r: String)
        ensures
            r@ == "("@ + name@,
    {
        let mut builder = String::new();
        builder.append("(");
        builder.append(name);
        builder
    }
}

} // verus!
