//! Abstract syntax of a program: expressions, bindings and whole programs,
//! together with their mathematical counterparts used in contracts.
use vstd::prelude::*;

verus! {

/// An expression tree. The tree is immutable once constructed; each node
/// exclusively owns its children.
#[derive(Debug)]
pub enum Expr {
    Number(i32),
    Ident(String),
    Negate(Box<Expr>),
    Add(Box<Expr>, Box<Expr>),
    Subtract(Box<Expr>, Box<Expr>),
    Multiply(Box<Expr>, Box<Expr>),
    Divide(Box<Expr>, Box<Expr>),
}

/// The mathematical counterpart of `Expr`: identifiers are character
/// sequences, so contracts can speak of them directly.
pub enum ExprModel {
    Number(i32),
    Ident(Seq<char>),
    Negate(Box<ExprModel>),
    Add(Box<ExprModel>, Box<ExprModel>),
    Subtract(Box<ExprModel>, Box<ExprModel>),
    Multiply(Box<ExprModel>, Box<ExprModel>),
    Divide(Box<ExprModel>, Box<ExprModel>),
}

impl View for Expr {
    type V = ExprModel;

    open spec fn view(&self) -> ExprModel
        decreases self,
    {
        match self {
            Expr::Number(n) => ExprModel::Number(*n),
            Expr::Ident(s) => ExprModel::Ident(s@),
            Expr::Negate(a) => ExprModel::Negate(Box::new((**a)@)),
            Expr::Add(a, b) => ExprModel::Add(Box::new((**a)@), Box::new((**b)@)),
            Expr::Subtract(a, b) => ExprModel::Subtract(Box::new((**a)@), Box::new((**b)@)),
            Expr::Multiply(a, b) => ExprModel::Multiply(Box::new((**a)@), Box::new((**b)@)),
            Expr::Divide(a, b) => ExprModel::Divide(Box::new((**a)@), Box::new((**b)@)),
        }
    }
}

/// Builds an identical copy of an expression tree.
pub fn clone_expr(e: &Expr) -> (r: Expr)
    ensures
        r@ == e@,
    decreases e,
{
    match e {
        Expr::Number(n) => Expr::Number(*n),
        Expr::Ident(s) => Expr::Ident(s.clone()),
        Expr::Negate(a) => Expr::Negate(Box::new(clone_expr(a))),
        Expr::Add(a, b) => Expr::Add(Box::new(clone_expr(a)), Box::new(clone_expr(b))),
        Expr::Subtract(a, b) => Expr::Subtract(Box::new(clone_expr(a)), Box::new(clone_expr(b))),
        Expr::Multiply(a, b) => Expr::Multiply(Box::new(clone_expr(a)), Box::new(clone_expr(b))),
        Expr::Divide(a, b) => Expr::Divide(Box::new(clone_expr(a)), Box::new(clone_expr(b))),
    }
}

/// A variable binding `name = value`.
#[derive(Debug)]
pub struct Var {
    pub name: String,
    pub value: Expr,
}

/// A utility invocation `ident param`, evaluated for its side effect.
#[derive(Debug)]
pub struct UtilityUse {
    pub ident: String,
    pub param: Expr,
}

/// A declaration appearing before the final expression of a program.
#[derive(Debug)]
pub enum Init {
    Var(Var),
    UtilityUse(UtilityUse),
}

/// The mathematical counterpart of `Init`.
pub enum InitModel {
    Var(Seq<char>, ExprModel),
    UtilityUse(Seq<char>, ExprModel),
}

impl View for Init {
    type V = InitModel;

    open spec fn view(&self) -> InitModel {
        match self {
            Init::Var(v) => InitModel::Var(v.name@, v.value@),
            Init::UtilityUse(u) => InitModel::UtilityUse(u.ident@, u.param@),
        }
    }
}

/// A whole program: an ordered sequence of declarations followed by exactly
/// one terminating expression.
#[derive(Debug)]
pub struct Math {
    pub init: Vec<Init>,
    pub end_expression: Expr,
}

/// The mathematical counterpart of `Math`.
pub struct MathModel {
    pub init: Seq<InitModel>,
    pub end_expression: ExprModel,
}

impl View for Math {
    type V = MathModel;

    open spec fn view(&self) -> MathModel {
        MathModel { init: self.init@.map_values(|x: Init| x@), end_expression: self.end_expression@ }
    }
}

} // verus!
