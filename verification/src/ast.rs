//! The expression tree: an immutable, shared, algebraic representation of
//! the language's terms and type annotations, together with its
//! mathematical model [`ExprV`].

use std::rc::Rc;
use vstd::prelude::*;

verus! {

/// A variable name. Equality is exact string match; no scoping object is
/// attached to the identifier itself.
#[derive(Debug, PartialEq)]
pub struct Ident {
    pub name: String,
}

impl View for Ident {
    type V = Seq<char>;

    open spec fn view(&self) -> Seq<char> {
        self.name@
    }
}

impl Clone for Ident {
    fn clone(&self) -> (r: Self)
        ensures
            r@ == self@,
    {
        Ident { name: self.name.clone() }
    }
}

impl From<&str> for Ident {
    fn from(name: &str) -> (r: Self)
        ensures
            r@ == name@,
    {
        Ident { name: name.to_owned() }
    }
}

impl vstd::std_specs::convert::FromSpecImpl<&str> for Ident {
    open spec fn obeys_from_spec() -> bool {
        false
    }

    open spec fn from_spec(name: &str) -> Ident {
        arbitrary()
    }
}

/// A term of the language. Nodes are never mutated after construction:
/// every transformation builds new nodes or reuses whole subtrees by
/// sharing the reference-counted children.
#[derive(Debug, Clone, PartialEq)]
pub enum Expr {
    /// A use of a name.
    Var(Ident),
    /// An abstraction. `param_type` is itself an expression that is
    /// expected to denote a type; it is not validated at construction
    /// time, and a `Func` whose annotation does not denote a type is
    /// inert with respect to beta reduction.
    Func { param: Ident, param_type: Rc<Expr>, body: Rc<Expr> },
    /// Application of the first expression to the second.
    App(Rc<Expr>, Rc<Expr>),
    /// The single base-type literal.
    AnyType,
    /// The function-type constructor.
    FuncType(Rc<Expr>, Rc<Expr>),
}

/// The mathematical model of an [`Expr`]: the same tree with every name
/// abstracted to its character sequence.
#[verifier::ext_equal]
pub enum ExprV {
    Var(Seq<char>),
    Func { param: Seq<char>, param_type: Box<ExprV>, body: Box<ExprV> },
    App(Box<ExprV>, Box<ExprV>),
    AnyType,
    FuncType(Box<ExprV>, Box<ExprV>),
}

/// The model of a term: the tree itself, with each `Ident` replaced by
/// its character sequence.
pub open spec fn expr_view(e: Expr) -> ExprV
    decreases e,
{
    match e {
        Expr::Var(id) => ExprV::Var(id@),
        Expr::Func { param, param_type, body } => ExprV::Func {
            param: param@,
            param_type: Box::new(expr_view(*param_type)),
            body: Box::new(expr_view(*body)),
        },
        Expr::App(f, a) => ExprV::App(Box::new(expr_view(*f)), Box::new(expr_view(*a))),
        Expr::AnyType => ExprV::AnyType,
        Expr::FuncType(l, r) => ExprV::FuncType(
            Box::new(expr_view(*l)),
            Box::new(expr_view(*r)),
        ),
    }
}

impl View for Expr {
    type V = ExprV;

    open spec fn view(&self) -> ExprV {
        expr_view(*self)
    }
}

impl DeepView for Expr {
    type V = ExprV;

    open spec fn deep_view(&self) -> ExprV {
        expr_view(*self)
    }
}

} // verus!
