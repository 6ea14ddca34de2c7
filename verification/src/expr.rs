use vstd::prelude::*;
use crate::token::{Token, TokenModel};

verus! {

/// An expression node. Every node owns its children.
#[derive(Debug)]
pub enum Expr {
    Literal(Literal),
    Grouping(Grouping),
    Logical(Logical),
    Unary(Unary),
    Binary(Binary),
    Variable(Variable),
    Assign(Assign),
}

/// Mathematical model of an expression tree.
pub enum ExprModel {
    Literal(TokenModel),
    Grouping(Box<ExprModel>),
    Logical(Box<ExprModel>, TokenModel, Box<ExprModel>),
    Unary(TokenModel, Box<ExprModel>),
    Binary(Box<ExprModel>, TokenModel, Box<ExprModel>),
    Variable(TokenModel),
    Assign(TokenModel, Box<ExprModel>),
}

impl Expr {
    /// The tree this expression denotes.
    pub open spec fn model(&self) -> ExprModel
        decreases self,
    {
        match self {
            Expr::Literal(n) => ExprModel::Literal(n.value@),
            Expr::Grouping(n) => ExprModel::Grouping(Box::new((*n.expression).model())),
            Expr::Logical(n) => ExprModel::Logical(
                Box::new((*n.left).model()),
                n.operator@,
                Box::new((*n.right).model()),
            ),
            Expr::Unary(n) => ExprModel::Unary(n.operator@, Box::new((*n.expression).model())),
            Expr::Binary(n) => ExprModel::Binary(
                Box::new((*n.left).model()),
                n.operator@,
                Box::new((*n.right).model()),
            ),
            Expr::Variable(n) => ExprModel::Variable(n.value@),
            Expr::Assign(n) => ExprModel::Assign(n.value@, Box::new((*n.expression).model())),
        }
    }
}

impl View for Expr {
    type V = ExprModel;

    open spec fn view(&self) -> ExprModel {
        self.model()
    }
}

impl Clone for Expr {
    /// Deep copy of the whole subtree.
    fn clone(&self) -> (r: Self)
        ensures
            r == *self,
        decreases self,
    {
        match self {
            Expr::Literal(n) => Expr::Literal(Literal { value: n.value.clone() }),
            Expr::Grouping(n) => Expr::Grouping(
                Grouping { expression: Box::new((&*n.expression).clone()) },
            ),
            Expr::Logical(n) => Expr::Logical(
                Logical {
                    left: Box::new((&*n.left).clone()),
                    operator: n.operator.clone(),
                    right: Box::new((&*n.right).clone()),
                },
            ),
            Expr::Unary(n) => Expr::Unary(
                Unary { operator: n.operator.clone(), expression: Box::new((&*n.expression).clone()) },
            ),
            Expr::Binary(n) => Expr::Binary(
                Binary {
                    left: Box::new((&*n.left).clone()),
                    operator: n.operator.clone(),
                    right: Box::new((&*n.right).clone()),
                },
            ),
            Expr::Variable(n) => Expr::Variable(Variable { value: n.value.clone() }),
            Expr::Assign(n) => Expr::Assign(
                Assign { value: n.value.clone(), expression: Box::new((&*n.expression).clone()) },
            ),
        }
    }
}

/// A binary operation: `left operator right`.
#[derive(Debug)]
pub struct Binary {
    pub left: Box<Expr>,
    pub operator: Token,
    pub right: Box<Expr>,
}

impl Binary {
    pub fn new(left: Box<Expr>, operator: Token, right: Box<Expr>) -> (r: Self)
        ensures
            r.left == left,
            r.operator == operator,
            r.right == right,
    {
        Binary { left, operator, right }
    }

    pub fn get_left(&self) -> (r: Box<Expr>)
        ensures
            r == self.left,
    {
        Box::new((&*self.left).clone())
    }

    pub fn get_operator(&self) -> (r: Token)
        ensures
            r == self.operator,
    {
        self.operator.clone()
    }

    pub fn get_right(&self) -> (r: Box<Expr>)
        ensures
            r == self.right,
    {
        Box::new((&*self.right).clone())
    }

    pub fn set_left(&mut self, left: Box<Expr>)
        ensures
            final(self).left == left,
            final(self).operator == old(self).operator,
            final(self).right == old(self).right,
    {
        self.left = left;
    }

    pub fn set_right(&mut self, right: Box<Expr>)
        ensures
            final(self).right == right,
            final(self).operator == old(self).operator,
            final(self).left == old(self).left,
    {
        self.right = right;
    }
}

/// A short-circuiting operation: `left and right`, `left or right`.
#[derive(Debug)]
pub struct Logical {
    pub left: Box<Expr>,
    pub operator: Token,
    pub right: Box<Expr>,
}

impl Logical {
    pub fn new(left: Box<Expr>, operator: Token, right: Box<Expr>) -> (r: Self)
        ensures
            r.left == left,
            r.operator == operator,
            r.right == right,
    {
        Logical { left, operator, right }
    }

    pub fn get_left(&self) -> (r: Box<Expr>)
        ensures
            r == self.left,
    {
        Box::new((&*self.left).clone())
    }

    pub fn get_operator(&self) -> (r: Token)
        ensures
            r == self.operator,
    {
        self.operator.clone()
    }

    pub fn get_right(&self) -> (r: Box<Expr>)
        ensures
            r == self.right,
    {
        Box::new((&*self.right).clone())
    }

    pub fn set_left(&mut self, left: Box<Expr>)
        ensures
            final(self).left == left,
            final(self).operator == old(self).operator,
            final(self).right == old(self).right,
    {
        self.left = left;
    }

    pub fn set_right(&mut self, right: Box<Expr>)
        ensures
            final(self).right == right,
            final(self).operator == old(self).operator,
            final(self).left == old(self).left,
    {
        self.right = right;
    }
}

/// A prefix operation: `operator expression`.
#[derive(Debug)]
pub struct Unary {
    pub operator: Token,
    pub expression: Box<Expr>,
}

impl Unary {
    pub fn new(operator: Token, expression: Box<Expr>) -> (r: Self)
        ensures
            r.operator == operator,
            r.expression == expression,
    {
        Unary { operator, expression }
    }

    pub fn get_operator(&self) -> (r: Token)
        ensures
            r == self.operator,
    {
        self.operator.clone()
    }

    pub fn get_expression(&self) -> (r: Box<Expr>)
        ensures
            r == self.expression,
    {
        Box::new((&*self.expression).clone())
    }

    pub fn set_expression(&mut self, expression: Box<Expr>)
        ensures
            final(self).expression == expression,
            final(self).operator == old(self).operator,
    {
        self.expression = expression;
    }
}

/// A parenthesised expression.
#[derive(Debug)]
pub struct Grouping {
    pub expression: Box<Expr>,
}

impl Grouping {
    pub fn new(expression: Box<Expr>) -> (r: Self)
        ensures
            r.expression == expression,
    {
        Grouping { expression }
    }

    pub fn get_expression(&self) -> (r: Box<Expr>)
        ensures
            r == self.expression,
    {
        Box::new((&*self.expression).clone())
    }

    pub fn set_expression(&mut self, expression: Box<Expr>)
        ensures
            final(self).expression == expression,
    {
        self.expression = expression;
    }
}

/// A literal: a number, a string, `true`, `false` or `nil`.
#[derive(Debug)]
pub struct Literal {
    pub value: Token,
}

impl Literal {
    pub fn new(value: Token) -> (r: Self)
        ensures
            r.value == value,
    {
        Literal { value }
    }

    pub fn get_value(&self) -> (r: Token)
        ensures
            r == self.value,
    {
        self.value.clone()
    }
}

/// A reference to a variable by name.
#[derive(Debug)]
pub struct Variable {
    pub value: Token,
}

impl Variable {
    pub fn new(value: Token) -> (r: Self)
        ensures
            r.value == value,
    {
        Variable { value }
    }

    pub fn get_value(&self) -> (r: Token)
        ensures
            r == self.value,
    {
        self.value.clone()
    }
}

/// An assignment of `expression` to the variable named by `value`.
#[derive(Debug)]
pub struct Assign {
    pub value: Token,
    pub expression: Box<Expr>,
}

impl Assign {
    pub fn new(value: Token, expression: Box<Expr>) -> (r: Self)
        ensures
            r.value == value,
            r.expression == expression,
    {
        Assign { value, expression }
    }

    pub fn get_value(&self) -> (r: Token)
        ensures
            r == self.value,
    {
        self.value.clone()
    }

    pub fn get_expression(&self) -> (r: Box<Expr>)
        ensures
            r == self.expression,
    {
        Box::new((&*self.expression).clone())
    }
}

} // verus!
