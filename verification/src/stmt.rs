use vstd::prelude::*;
use crate::expr::{Expr, ExprModel};
use crate::token::{Token, TokenModel};

verus! {

/// A statement node.
#[derive(Debug)]
pub enum Stmt {
    Expr(Expr),
    If(Expr, Box<Stmt>, Option<Box<Stmt>>),
    Block(Vec<Stmt>),
    Print(Expr),
    Var(Token, Option<Expr>),
    While(Expr, Box<Stmt>),
}

/// Mathematical model of a statement tree.
pub enum StmtModel {
    Expr(ExprModel),
    If(ExprModel, Box<StmtModel>, Option<Box<StmtModel>>),
    Block(Seq<StmtModel>),
    Print(ExprModel),
    Var(TokenModel, Option<ExprModel>),
    While(ExprModel, Box<StmtModel>),
}

impl Stmt {
    /// The tree this statement denotes.
    pub open spec fn model(&self) -> StmtModel
        decreases self,
    {
        match self {
            Stmt::Expr(e) => StmtModel::Expr(e@),
            Stmt::If(c, t, e) => StmtModel::If(
                c@,
                Box::new((**t).model()),
                match e {
                    Some(s) => Some(Box::new((**s).model())),
                    None => None,
                },
            ),
            Stmt::Block(v) => StmtModel::Block(
                Seq::new(
                    v@.len(),
                    |i: int|
                        if 0 <= i < v@.len() {
                            v@[i].model()
                        } else {
                            StmtModel::Block(Seq::empty())
                        },
                ),
            ),
            Stmt::Print(e) => StmtModel::Print(e@),
            Stmt::Var(n, i) => StmtModel::Var(
                n@,
                match i {
                    Some(e) => Some(e@),
                    None => None,
                },
            ),
            Stmt::While(c, b) => StmtModel::While(c@, Box::new((**b).model())),
        }
    }
}

impl View for Stmt {
    type V = StmtModel;

    open spec fn view(&self) -> StmtModel {
        self.model()
    }
}

/// The models of a sequence of statements, in order.
pub open spec fn models(v: Seq<Stmt>) -> Seq<StmtModel> {
    Seq::new(v.len(), |i: int| v[i]@)
}

impl Clone for Stmt {
    /// Deep copy of the whole subtree.
    fn clone(&self) -> (r: Self)
        ensures
            r@ == self@,
        decreases self,
    {
        match self {
            Stmt::Expr(e) => Stmt::Expr(e.clone()),
            Stmt::If(c, t, e) => Stmt::If(
                c.clone(),
                Box::new((&**t).clone()),
                match e {
                    Some(s) => Some(Box::new((&**s).clone())),
                    None => None,
                },
            ),
            Stmt::Block(v) => {
                let mut out: Vec<Stmt> = Vec::new();
                let mut i: usize = 0;
                while i < v.len()
                    invariant
                        decreases_to!(self => v),
                        i <= v.len(),
                        out@.len() == i,
                        forall|j: int| 0 <= j < i ==> out@[j]@ == v@[j]@,
                    decreases v.len() - i,
                {
                    out.push(v[i].clone());
                    i += 1;
                }
                let r = Stmt::Block(out);
                assert(r@ == self@) by {
                    assert(r@->Block_0 =~= self@->Block_0);
                }
                r
            },
            Stmt::Print(e) => Stmt::Print(e.clone()),
            Stmt::Var(n, i) => Stmt::Var(
                n.clone(),
                match i {
                    Some(e) => Some(e.clone()),
                    None => None,
                },
            ),
            Stmt::While(c, b) => Stmt::While(c.clone(), Box::new((&**b).clone())),
        }
    }
}

} // verus!
