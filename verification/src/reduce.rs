//! Walking the expression tree and reducing it toward beta-normal form.
//!
//! A single rewrite step is given by [`reduce1`]; [`reduce`] repeats
//! single steps to a fixpoint. The beta step replaces a function body's
//! bound variable by the argument through [`substitute`], and is gated on
//! the function's parameter-type annotation denoting a well-formed type.

use std::rc::Rc;
use vstd::prelude::*;

use crate::ast::{Expr, ExprV};
use crate::types::{spec_from_expr, Type};

verus! {

/// Relies on std's `str` equality: two string slices compare equal
/// exactly when their character sequences are equal.
#[verifier::external_body]
pub(crate) fn str_eq(a: &str, b: &str) -> (r: bool)
    ensures
        r == (a@ == b@),
{
    a == b
}

/// Relies on std's `Rc::clone`: the clone is a new handle to the same
/// allocation, so it carries the very same value.
#[verifier::external_body]
pub(crate) fn rc_dup<T>(v: &Rc<T>) -> (r: Rc<T>)
    ensures
        r == *v,
{
    v.clone()
}

/// Substitution, modelled: replace every free occurrence of `name` in `e`
/// by `value`. A binder of the same name shadows the substitution target
/// for its whole subtree (annotation included); no alpha-renaming is
/// performed, so a free variable of `value` can be captured by a distinct
/// deeper binder. That shadow-and-stop behaviour is deliberate.
pub open spec fn spec_substitute(e: ExprV, name: Seq<char>, value: ExprV) -> ExprV
    decreases e,
{
    match e {
        ExprV::Var(n) => if n == name {
            value
        } else {
            e
        },
        ExprV::Func { param, param_type, body } => if param == name {
            e
        } else {
            ExprV::Func {
                param,
                param_type: Box::new(spec_substitute(*param_type, name, value)),
                body: Box::new(spec_substitute(*body, name, value)),
            }
        },
        ExprV::App(f, a) => ExprV::App(
            Box::new(spec_substitute(*f, name, value)),
            Box::new(spec_substitute(*a, name, value)),
        ),
        ExprV::AnyType => e,
        ExprV::FuncType(l, r) => ExprV::FuncType(
            Box::new(spec_substitute(*l, name, value)),
            Box::new(spec_substitute(*r, name, value)),
        ),
    }
}

/// One rewrite step, modelled. `None` means no step applies anywhere in
/// the tree. An application whose function position is literally an
/// abstraction with a well-formed parameter-type annotation is rewritten
/// by the beta step; the argument is neither reduced first nor re-reduced
/// after the substitution. Otherwise both sides of an application (and of
/// a function-type node) take a step where they can, while an abstraction
/// steps its annotation first and its body only after the annotation is
/// normal.
pub open spec fn spec_step(e: ExprV) -> Option<ExprV>
    decreases e,
{
    match e {
        ExprV::Var(_) => None,
        ExprV::AnyType => None,
        ExprV::Func { param, param_type, body } => match spec_step(*param_type) {
            Some(pt) => Some(ExprV::Func { param, param_type: Box::new(pt), body }),
            None => match spec_step(*body) {
                Some(b) => Some(ExprV::Func { param, param_type, body: Box::new(b) }),
                None => None,
            },
        },
        ExprV::App(func, arg) => match *func {
            ExprV::Func { param, param_type, body } if spec_from_expr(*param_type) is Some => Some(
                spec_substitute(*body, param, *arg),
            ),
            _ => {
                let f = spec_step(*func);
                let a = spec_step(*arg);
                if f is None && a is None {
                    None
                } else {
                    Some(ExprV::App(
                        Box::new(if f is Some { f->Some_0 } else { *func }),
                        Box::new(if a is Some { a->Some_0 } else { *arg }),
                    ))
                }
            },
        },
        ExprV::FuncType(left, right) => {
            let l = spec_step(*left);
            let r = spec_step(*right);
            if l is None && r is None {
                None
            } else {
                Some(ExprV::FuncType(
                    Box::new(if l is Some { l->Some_0 } else { *left }),
                    Box::new(if r is Some { r->Some_0 } else { *right }),
                ))
            }
        },
    }
}

/// `e` rewrites to `r` in exactly `n` single steps.
pub open spec fn reduces_in(e: ExprV, r: ExprV, n: nat) -> bool
    decreases n,
{
    if n == 0 {
        e == r
    } else {
        spec_step(e) matches Some(e2) && reduces_in(e2, r, (n - 1) as nat)
    }
}

/// `r` is the normal form of `e`: some number of single steps leads from
/// `e` to `r`, and no step applies to `r`.
pub open spec fn normalizes_to(e: ExprV, r: ExprV) -> bool {
    exists|n: nat| reduces_in(e, r, n) && spec_step(r) is None
}

/// The rewriting of `e` reaches a normal form at all. Not every term
/// does: the engine has no step counter, and on a divergent term the
/// fixpoint loop never returns.
pub open spec fn normalizing(e: ExprV) -> bool {
    exists|r: ExprV| normalizes_to(e, r)
}

/// The normal form that the rewriting of `e` reaches; meaningful only
/// when `e` is normalizing, and then unique.
pub open spec fn normal_form_of(e: ExprV) -> ExprV {
    choose|r: ExprV| normalizes_to(e, r)
}

/// A single step taken from a term in normal form finds nothing to do,
/// so the step count of a rewriting chain that ends in a normal form
/// falls by exactly one at each step.
proof fn lemma_chain_advances(e: ExprV, e2: ExprV, r: ExprV, n: nat)
    requires
        reduces_in(e, r, n),
        spec_step(r) is None,
        spec_step(e) == Some(e2),
    ensures
        n >= 1,
        reduces_in(e2, r, (n - 1) as nat),
{
    if n == 0 {
        assert(e == r);
    }
}

/// Two rewriting chains from the same term that both end in a normal
/// form end in the same normal form: each single step is a function of
/// the term alone.
proof fn lemma_chain_unique(e: ExprV, a: ExprV, b: ExprV, n: nat, m: nat)
    requires
        reduces_in(e, a, n),
        spec_step(a) is None,
        reduces_in(e, b, m),
        spec_step(b) is None,
    ensures
        a == b,
    decreases n,
{
    if n == 0 {
        if m != 0 {
            assert(spec_step(e) is Some);
        }
    } else {
        if m == 0 {
            assert(spec_step(e) is Some);
        } else {
            lemma_chain_unique(spec_step(e)->Some_0, a, b, (n - 1) as nat, (m - 1) as nat);
        }
    }
}

/// A term to which no step applies is its own normal form.
pub proof fn lemma_normal_is_normalizing(e: ExprV)
    requires
        spec_step(e) is None,
    ensures
        normalizes_to(e, e),
{
    assert(reduces_in(e, e, 0));
}

/// A term has at most one normal form: rewriting is deterministic.
pub proof fn lemma_normal_form_unique(e: ExprV, a: ExprV, b: ExprV)
    requires
        normalizes_to(e, a),
        normalizes_to(e, b),
    ensures
        a == b,
{
    let n = choose|n: nat| reduces_in(e, a, n) && spec_step(a) is None;
    let m = choose|m: nat| reduces_in(e, b, m) && spec_step(b) is None;
    lemma_chain_unique(e, a, b, n, m);
}

/// Replace every free occurrence of the variable `name` in `expr` by
/// `value`, respecting shadowing: a binder named `name` stops the
/// substitution for its whole subtree. Unchanged subtrees are reused by
/// sharing, and the replacement is the caller's `value` itself.
pub fn substitute(expr: Rc<Expr>, name: &str, value: Rc<Expr>) -> (r: Rc<Expr>)
    ensures
        r@ == spec_substitute(expr@, name@, value@),
    decreases expr,
{
    match &*expr {
        Expr::Var(ident) => {
            if str_eq(ident.name.as_str(), name) {
                value
            } else {
                expr
            }
        },
        Expr::AnyType => expr,
        Expr::Func { param, param_type, body } => {
            if str_eq(param.name.as_str(), name) {
                expr
            } else {
                let new_body = substitute(rc_dup(body), name, rc_dup(&value));
                let new_param = param.clone();
                let new_param_type = substitute(rc_dup(param_type), name, value);
                Rc::new(Expr::Func { param: new_param, param_type: new_param_type, body: new_body })
            }
        },
        Expr::App(left, right) => {
            let new_left = substitute(rc_dup(left), name, rc_dup(&value));
            let new_right = substitute(rc_dup(right), name, value);
            Rc::new(Expr::App(new_left, new_right))
        },
        Expr::FuncType(left, right) => {
            let new_left = substitute(rc_dup(left), name, rc_dup(&value));
            let new_right = substitute(rc_dup(right), name, value);
            Rc::new(Expr::FuncType(new_left, new_right))
        },
    }
}

/// Take one rewrite step, or return `None` when `expr` is already in
/// normal form. This is the single-step rule that [`reduce`] repeats.
fn reduce1(expr: &Expr) -> (r: Option<Rc<Expr>>)
    ensures
        r.deep_view() == spec_step(expr@),
    decreases expr,
{
    proof {
        reveal_with_fuel(crate::ast::expr_view, 2);
        reveal_with_fuel(spec_step, 2);
    }
    match expr {
        Expr::Var(_) => None,
        Expr::AnyType => None,
        Expr::Func { param, param_type, body } => {
            match reduce1(&**param_type) {
                Some(new_param_type) => Some(
                    Rc::new(
                        Expr::Func {
                            param: param.clone(),
                            param_type: new_param_type,
                            body: rc_dup(body),
                        },
                    ),
                ),
                None => match reduce1(&**body) {
                    Some(new_body) => Some(
                        Rc::new(
                            Expr::Func {
                                param: param.clone(),
                                param_type: rc_dup(param_type),
                                body: new_body,
                            },
                        ),
                    ),
                    None => None,
                },
            }
        },
        Expr::App(func, arg) => {
            let is_redex = match &**func {
                Expr::Func { param_type, .. } => Type::from_expr(&**param_type).is_some(),
                _ => false,
            };
            if is_redex {
                match &**func {
                    Expr::Func { param, param_type: _, body } => Some(
                        substitute(rc_dup(body), param.name.as_str(), rc_dup(arg)),
                    ),
                    // a redex has an abstraction in function position
                    _ => None,
                }
            } else {
                let new_func = reduce1(&**func);
                let new_arg = reduce1(&**arg);
                if new_func.is_none() && new_arg.is_none() {
                    None
                } else {
                    let func_side = match new_func {
                        Some(f) => f,
                        None => rc_dup(func),
                    };
                    let arg_side = match new_arg {
                        Some(a) => a,
                        None => rc_dup(arg),
                    };
                    Some(Rc::new(Expr::App(func_side, arg_side)))
                }
            }
        },
        Expr::FuncType(left, right) => {
            let new_left = reduce1(&**left);
            let new_right = reduce1(&**right);
            if new_left.is_none() && new_right.is_none() {
                None
            } else {
                let left_side = match new_left {
                    Some(l) => l,
                    None => rc_dup(left),
                };
                let right_side = match new_right {
                    Some(r2) => r2,
                    None => rc_dup(right),
                };
                Some(Rc::new(Expr::FuncType(left_side, right_side)))
            }
        },
    }
}

/// Reduce an expression as far as it goes.
///
/// Returns `None` when `expr` is already in normal form (no rewrite step
/// applies anywhere); otherwise repeats single steps to a fixpoint and
/// returns the normal form reached. The engine has no step counter, so a
/// term whose rewriting never reaches a normal form is outside this
/// contract: on such a term the fixpoint loop would never return.
pub fn reduce(expr: &Expr) -> (r: Option<Rc<Expr>>)
    requires
        normalizing(expr@),
    ensures
        r is None <==> spec_step(expr@) is None,
        r matches Some(out) ==> normalizes_to(expr@, out@),
{
    let ghost target = choose|t: ExprV| normalizes_to(expr@, t);
    let ghost steps = choose|n: nat| reduces_in(expr@, target, n) && spec_step(target) is None;
    let first = match reduce1(expr) {
        None => {
            return None;
        },
        Some(f) => f,
    };
    proof {
        lemma_chain_advances(expr@, first@, target, steps);
    }
    let mut cur = first;
    let ghost mut left: nat = (steps - 1) as nat;
    loop
        invariant
            reduces_in(cur@, target, left),
            spec_step(target) is None,
            normalizes_to(expr@, target),
            spec_step(expr@) is Some,
        decreases left,
    {
        match reduce1(&cur) {
            None => {
                proof {
                    if left != 0 {
                        assert(spec_step(cur@) is Some);
                    }
                    assert(cur@ == target);
                }
                return Some(cur);
            },
            Some(next) => {
                proof {
                    lemma_chain_advances(cur@, next@, target, left);
                    left = (left - 1) as nat;
                }
                cur = next;
            },
        }
    }
}

/// Reduce an expression, or hand it back unchanged when it is already in
/// normal form. Either way the result is the normal form of the input.
pub fn reduce_or_ret(expr: Rc<Expr>) -> (r: Rc<Expr>)
    requires
        normalizing(expr@),
    ensures
        normalizes_to(expr@, r@),
        spec_step(expr@) is None ==> r@ == expr@,
{
    match reduce(&expr) {
        Some(reduced) => reduced,
        None => {
            proof {
                lemma_normal_is_normalizing(expr@);
            }
            expr
        },
    }
}

/// Reduce an expression or return it as is; when a step was taken, set
/// the flag (an already-set flag stays set).
pub fn reduce_with_flag(expr: Rc<Expr>, reduced_flag: &mut bool) -> (r: Rc<Expr>)
    requires
        normalizing(expr@),
    ensures
        *final(reduced_flag) == (*old(reduced_flag) || spec_step(expr@) is Some),
        normalizes_to(expr@, r@),
        spec_step(expr@) is None ==> r@ == expr@,
{
    let reduced = reduce(&expr);
    *reduced_flag = *reduced_flag || reduced.is_some();
    match reduced {
        Some(new_expr) => new_expr,
        None => {
            proof {
                lemma_normal_is_normalizing(expr@);
            }
            expr
        },
    }
}

/// Idempotence of reduction: whenever `reduce` rewrites `e` to a normal
/// form `r`, reducing `r` finds no step to take — there is no endless
/// sequence of "successful" reductions once a term has been normalized.
pub proof fn lemma_reduce_idempotent(e: ExprV, r: ExprV)
    requires
        normalizes_to(e, r),
    ensures
        spec_step(r) is None,
{
    let n = choose|n: nat| reduces_in(e, r, n) && spec_step(r) is None;
}

/// Substitution identity: substituting `v` for `x` in the bare variable
/// `x` yields `v` itself, for any `v`.
pub proof fn lemma_substitute_identity(x: Seq<char>, v: ExprV)
    ensures
        spec_substitute(ExprV::Var(x), x, v) == v,
{
}

/// Shadowing: substituting for `x` inside an abstraction that itself
/// binds `x` leaves the abstraction unchanged, whatever its annotation,
/// its body and the value: the binder shadows the substitution target.
pub proof fn lemma_substitute_shadowing(x: Seq<char>, pt: ExprV, b: ExprV, v: ExprV)
    ensures
        spec_substitute(
            (ExprV::Func { param: x, param_type: Box::new(pt), body: Box::new(b) }),
            x,
            v,
        ) == (ExprV::Func { param: x, param_type: Box::new(pt), body: Box::new(b) }),
{
}

/// An application whose function position is an abstraction annotated
/// with a bare variable (which does not denote a type).
pub open spec fn is_var_gated_app(e: ExprV) -> bool {
    e matches ExprV::App(f, _) && *f matches ExprV::Func { param_type, .. } && *param_type
        matches ExprV::Var(_)
}

/// One step never beta-reduces an application gated by a bare-variable
/// annotation: the step, if any, only rewrites the two sides, and the
/// function position keeps its shape.
proof fn lemma_gate_step(e: ExprV, e2: ExprV)
    requires
        is_var_gated_app(e),
        spec_step(e) == Some(e2),
    ensures
        is_var_gated_app(e2),
{
    match e {
        ExprV::App(f, a) => match *f {
            ExprV::Func { param, param_type, body } => {
                assert(spec_from_expr(*param_type) is None);
                assert(spec_step(*param_type) is None);
                match spec_step(*body) {
                    Some(b2) => {
                        assert(spec_step(*f) == Some(
                            ExprV::Func { param, param_type, body: Box::new(b2) },
                        ));
                    },
                    None => {
                        assert(spec_step(*f) is None);
                    },
                }
            },
            _ => {},
        },
        _ => {},
    }
}

/// However many steps the engine takes from an application gated by a
/// bare-variable annotation, the term stays such an application.
proof fn lemma_gated_chain(e: ExprV, r: ExprV, n: nat)
    requires
        is_var_gated_app(e),
        reduces_in(e, r, n),
    ensures
        is_var_gated_app(r),
    decreases n,
{
    if n != 0 {
        let e2 = spec_step(e)->Some_0;
        lemma_gate_step(e, e2);
        lemma_gated_chain(e2, r, (n - 1) as nat);
    }
}

/// An applied abstraction annotated with a bare variable stays stuck as
/// an application: the annotation denotes no type, so the beta step is
/// barred, every step rewrites the two sides only, and whatever `reduce`
/// returns for such a term keeps that shape — it is not the body with
/// the argument substituted in.
pub proof fn lemma_reduce_gated_app(e: ExprV, r: ExprV)
    requires
        is_var_gated_app(e),
        normalizes_to(e, r),
    ensures
        is_var_gated_app(r),
{
    let n = choose|n: nat| reduces_in(e, r, n) && spec_step(r) is None;
    lemma_gated_chain(e, r, n);
}

} // verus!
