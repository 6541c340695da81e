//! The structural type-derivation pass: a `Type` is derived from an
//! expression's shape and annotations alone, with no unification or
//! inference. The system has exactly one base type (`Any`) and one type
//! constructor (function types), and its subtype check is a stub that
//! always holds.

use std::rc::Rc;
use vstd::prelude::*;

use crate::ast::{Expr, ExprV, Ident};
use crate::reduce::{
    lemma_normal_form_unique, normal_form_of, normalizes_to, normalizing, rc_dup, reduce_or_ret,
};

verus! {

/// A derived type: either the single base type or a function type. It is
/// separate from the source tree, and built fresh on every derivation.
#[derive(Debug, Clone, PartialEq)]
pub enum Type {
    Any,
    Func(Rc<Type>, Rc<Type>),
}

/// The mathematical model of a [`Type`].
#[verifier::ext_equal]
pub enum TypeV {
    Any,
    Func(Box<TypeV>, Box<TypeV>),
}

/// The model of a derived type: the same tree, with the sharing forgotten.
pub open spec fn type_view(t: Type) -> TypeV
    decreases t,
{
    match t {
        Type::Any => TypeV::Any,
        Type::Func(l, r) => TypeV::Func(Box::new(type_view(*l)), Box::new(type_view(*r))),
    }
}

impl View for Type {
    type V = TypeV;

    open spec fn view(&self) -> TypeV {
        type_view(*self)
    }
}

impl DeepView for Type {
    type V = TypeV;

    open spec fn deep_view(&self) -> TypeV {
        type_view(*self)
    }
}

/// The syntactic reading of an expression as a type: only the base-type
/// literal and the function-type constructor (over two such readings)
/// denote types. Variables, abstractions and applications do not,
/// regardless of what they might reduce to.
pub open spec fn spec_from_expr(e: ExprV) -> Option<TypeV>
    decreases e,
{
    match e {
        ExprV::AnyType => Some(TypeV::Any),
        ExprV::FuncType(left, right) => match (spec_from_expr(*left), spec_from_expr(*right)) {
            (Some(l), Some(r)) => Some(TypeV::Func(Box::new(l), Box::new(r))),
            _ => None,
        },
        _ => None,
    }
}

/// The subtype relation of the system: a stub that always holds. This is
/// deliberate; the pass performs no subtyping algebra.
pub open spec fn spec_is_subtype_of(t: TypeV, other: TypeV) -> bool {
    true
}

impl Type {
    /// Read an expression syntactically as a type: `AnyType` denotes
    /// `Any`, and `FuncType(l, r)` denotes a function type when both
    /// sides denote types themselves. Everything else is `None`.
    pub fn from_expr(expr: &Expr) -> (r: Option<Self>)
        ensures
            r.deep_view() == spec_from_expr(expr@),
        decreases expr,
    {
        match expr {
            Expr::AnyType => Some(Type::Any),
            Expr::FuncType(left, right) => {
                match (Type::from_expr(&**left), Type::from_expr(&**right)) {
                    (Some(l), Some(r)) => Some(Type::Func(Rc::new(l), Rc::new(r))),
                    _ => None,
                }
            },
            _ => None,
        }
    }

    /// Whether `self` is a subtype of `other`: always true, by design.
    pub fn is_subtype_of(&self, other: &Type) -> (r: bool)
        ensures
            r == spec_is_subtype_of(self@, other@),
    {
        match (self, other) {
            _ => true,
        }
    }
}

/// An immutable, persistent mapping from variable names to derived
/// types. `insert` returns a new mapping and leaves the old one
/// untouched, so sibling branches of a derivation never observe each
/// other's bindings. Backed by `rpds::HashTrieMap`, a persistent hash
/// array mapped trie with structural sharing.
#[verifier::external_body]
pub struct VariableTypes {
    map: rpds::HashTrieMap<String, Rc<Type>>,
}

/// What a [`VariableTypes`] holds: the finite map from each bound name
/// to the model of the type bound to it.
pub uninterp spec fn env_entries(env: VariableTypes) -> Map<Seq<char>, TypeV>;

impl VariableTypes {
    /// Relies on `rpds::HashTrieMap::new`: the new map is empty.
    #[verifier::external_body]
    pub fn new() -> (r: VariableTypes)
        ensures
            env_entries(r) == (Map::<Seq<char>, TypeV>::empty()),
    {
        VariableTypes { map: rpds::HashTrieMap::new() }
    }

    /// Relies on `rpds::HashTrieMap::insert`: the returned map binds
    /// `name` to `value` (shadowing any earlier binding) and every other
    /// name as before, while `self` is unaffected.
    #[verifier::external_body]
    pub fn insert(&self, name: &Ident, value: Rc<Type>) -> (r: VariableTypes)
        ensures
            env_entries(r) == env_entries(*self).insert(name@, value@),
    {
        VariableTypes { map: self.map.insert(name.name.clone(), value) }
    }

    /// Relies on `rpds::HashTrieMap::get`: the result is the value the
    /// map holds for `name`, and `None` exactly when `name` is unbound.
    #[verifier::external_body]
    pub fn get(&self, name: &str) -> (r: Option<Rc<Type>>)
        ensures
            match r {
                Some(t) => env_entries(*self).contains_key(name@) && t@ == env_entries(
                    *self,
                )[name@],
                None => !env_entries(*self).contains_key(name@),
            },
    {
        self.map.get(name).cloned()
    }
}

/// The type derivation, modelled. A variable gets the type the
/// environment binds it to; an abstraction first rewrites its annotation
/// to normal form and reads it as a type, then types its body under the
/// extended environment; an application requires a function type on the
/// left and an argument subtype of its input (trivially so, by the stub);
/// type expressions themselves are typed `Any`. The value of this model
/// on an abstraction whose annotation never reaches a normal form is left
/// unspecified: there the derivation itself never returns.
pub open spec fn spec_of_expr(e: ExprV, env: Map<Seq<char>, TypeV>) -> Option<TypeV>
    decreases e,
{
    match e {
        ExprV::Var(name) => if env.contains_key(name) {
            Some(env[name])
        } else {
            None
        },
        ExprV::Func { param, param_type, body } => if normalizing(*param_type) {
            match spec_from_expr(normal_form_of(*param_type)) {
                Some(pt) => match spec_of_expr(*body, env.insert(param, pt)) {
                    Some(bt) => Some(TypeV::Func(Box::new(pt), Box::new(bt))),
                    None => None,
                },
                None => None,
            }
        } else {
            arbitrary()
        },
        ExprV::App(left, right) => match (spec_of_expr(*left, env), spec_of_expr(*right, env)) {
            (Some(lt), Some(rt)) => match lt {
                TypeV::Func(input, output) => if spec_is_subtype_of(rt, *input) {
                    Some(*output)
                } else {
                    None
                },
                _ => None,
            },
            _ => None,
        },
        ExprV::AnyType => Some(TypeV::Any),
        ExprV::FuncType(_, _) => Some(TypeV::Any),
    }
}

/// The inputs on which the type derivation terminates: every
/// parameter-type annotation that the derivation actually rewrites is a
/// normalizing term. On any other input the derivation would run the
/// reduction engine without end, so no result is owed there.
pub open spec fn spec_of_expr_terminates(e: ExprV, env: Map<Seq<char>, TypeV>) -> bool
    decreases e,
{
    match e {
        ExprV::Var(_) => true,
        ExprV::Func { param, param_type, body } => normalizing(*param_type) && (match spec_from_expr(
            normal_form_of(*param_type),
        ) {
            Some(pt) => spec_of_expr_terminates(*body, env.insert(param, pt)),
            None => true,
        }),
        ExprV::App(left, right) => spec_of_expr_terminates(*left, env) && (spec_of_expr(
            *left,
            env,
        ) is Some ==> spec_of_expr_terminates(*right, env)),
        ExprV::AnyType => true,
        ExprV::FuncType(_, _) => true,
    }
}

impl Type {
    /// Derive a type for `expr` under the environment `con`, bottom-up.
    /// `None` means the expression does not type-check; no further
    /// diagnostic is produced.
    pub fn of_expr(expr: &Expr, con: &VariableTypes) -> (r: Option<Rc<Self>>)
        requires
            spec_of_expr_terminates(expr@, env_entries(*con)),
        ensures
            r.deep_view() == spec_of_expr(expr@, env_entries(*con)),
        decreases expr,
    {
        proof {
            reveal_with_fuel(crate::ast::expr_view, 2);
            reveal_with_fuel(type_view, 2);
        }
        match expr {
            Expr::Var(var) => con.get(var.name.as_str()),
            Expr::Func { param, param_type: param_type_expr, body } => {
                let reduced_param_type = reduce_or_ret(rc_dup(param_type_expr));
                proof {
                    let pt_v = (**param_type_expr)@;
                    assert(normalizes_to(pt_v, normal_form_of(pt_v)));
                    lemma_normal_form_unique(pt_v, normal_form_of(pt_v), reduced_param_type@);
                }
                let param_type = match Type::from_expr(&*reduced_param_type) {
                    Some(t) => Rc::new(t),
                    None => {
                        return None;
                    },
                };
                let body_context = con.insert(param, rc_dup(&param_type));
                let body_type = match Type::of_expr(&**body, &body_context) {
                    Some(t) => t,
                    None => {
                        return None;
                    },
                };
                Some(Rc::new(Type::Func(param_type, body_type)))
            },
            Expr::App(left, right) => {
                let left_type = match Type::of_expr(&**left, con) {
                    Some(t) => t,
                    None => {
                        return None;
                    },
                };
                let right_type = match Type::of_expr(&**right, con) {
                    Some(t) => t,
                    None => {
                        return None;
                    },
                };
                match &*left_type {
                    Type::Func(input_type, output_type) => {
                        if (&*right_type).is_subtype_of(&**input_type) {
                            Some(rc_dup(output_type))
                        } else {
                            None
                        }
                    },
                    _ => None,
                }
            },
            Expr::AnyType => Some(Rc::new(Type::Any)),
            Expr::FuncType(_, _) => Some(Rc::new(Type::Any)),
        }
    }
}

} // verus!
