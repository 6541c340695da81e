use std::rc::Rc;

use expr_script::ast::{Expr, Ident};
use expr_script::reduce::{reduce, reduce_or_ret, reduce_with_flag, substitute};

#[test]
fn cannot_reduce_any_type() {
    assert_eq!(reduce(&Expr::AnyType), None);
}

#[test]
fn cannot_reduce_var() {
    assert_eq!(reduce(&Expr::Var("x".into())), None);
}

#[test]
fn cannot_reduce_func_type() {
    assert_eq!(
        reduce(&Expr::FuncType(Expr::AnyType.into(), Expr::AnyType.into())),
        None
    );
}

#[test]
fn reduce_application() {
    // (x: any -> x) x ===> x
    assert_eq!(
        reduce(&Expr::App(
            Expr::Func {
                param: "x".into(),
                param_type: Expr::AnyType.into(),
                body: Expr::Var("x".into()).into(),
            }
            .into(),
            Expr::Var("x".into()).into(),
        )),
        Some(Expr::Var("x".into()).into())
    );
}

#[test]
fn reduce_nested_application() {
    // (x: any -> (y: any -> x)) a b ===> a
    assert_eq!(
        reduce(&Expr::App(
            Expr::App(
                Expr::Func {
                    param: "x".into(),
                    param_type: Expr::AnyType.into(),
                    body: Expr::Func {
                        param: "y".into(),
                        param_type: Expr::AnyType.into(),
                        body: Expr::Var("x".into()).into(),
                    }
                    .into(),
                }
                .into(),
                Expr::Var("a".into()).into(),
            )
            .into(),
            Expr::Var("b".into()).into(),
        )),
        Some(Expr::Var("a".into()).into())
    );
}

#[test]
fn reduce_partial_application() {
    // (x: any -> y: any -> x) a ===> (y: any -> a)
    assert_eq!(
        reduce(&Expr::App(
            Expr::Func {
                param: "x".into(),
                param_type: Expr::AnyType.into(),
                body: Expr::Func {
                    param: "y".into(),
                    param_type: Expr::AnyType.into(),
                    body: Expr::Var("x".into()).into(),
                }
                .into(),
            }
            .into(),
            Expr::Var("a".into()).into(),
        )),
        Some(
            Expr::Func {
                param: "y".into(),
                param_type: Expr::AnyType.into(),
                body: Expr::Var("a".into()).into(),
            }
            .into()
        )
    );
}

#[test]
fn reduce_nested_application_in_type() {
    // (x: ((t: any -> any) a) -> x) b ===> b
    assert_eq!(
        reduce(&Expr::App(
            Expr::Func {
                param: "x".into(),
                param_type: Expr::App(
                    Expr::Func {
                        param: "t".into(),
                        param_type: Expr::AnyType.into(),
                        body: Expr::AnyType.into(),
                    }
                    .into(),
                    Expr::Var("a".into()).into(),
                )
                .into(),
                body: Expr::Var("x".into()).into(),
            }
            .into(),
            Expr::Var("b".into()).into(),
        )),
        Some(Expr::Var("b".into()).into())
    );
}

#[test]
fn reduce_steps_inside_a_function_type() {
    // ((x: any -> x) any) -> any ===> any -> any
    assert_eq!(
        reduce(&Expr::FuncType(
            Expr::App(
                Expr::Func {
                    param: "x".into(),
                    param_type: Expr::AnyType.into(),
                    body: Expr::Var("x".into()).into(),
                }
                .into(),
                Expr::AnyType.into(),
            )
            .into(),
            Expr::AnyType.into(),
        )),
        Some(Expr::FuncType(Expr::AnyType.into(), Expr::AnyType.into()).into())
    );
}

#[test]
fn reduce_steps_inside_a_body() {
    // y: any -> ((x: any -> x) a) ===> y: any -> a
    assert_eq!(
        reduce(&Expr::Func {
            param: "y".into(),
            param_type: Expr::AnyType.into(),
            body: Expr::App(
                Expr::Func {
                    param: "x".into(),
                    param_type: Expr::AnyType.into(),
                    body: Expr::Var("x".into()).into(),
                }
                .into(),
                Expr::Var("a".into()).into(),
            )
            .into(),
        }),
        Some(
            Expr::Func {
                param: "y".into(),
                param_type: Expr::AnyType.into(),
                body: Expr::Var("a".into()).into(),
            }
            .into()
        )
    );
}

#[test]
fn beta_step_substitutes_the_argument() {
    // (x: any -> x) a ===> a
    assert_eq!(
        reduce(&Expr::App(
            Expr::Func {
                param: "x".into(),
                param_type: Expr::AnyType.into(),
                body: Expr::Var("x".into()).into(),
            }
            .into(),
            Expr::Var("a".into()).into(),
        )),
        Some(Expr::Var("a".into()).into())
    );
}

#[test]
fn gated_application_is_not_beta_reduced() {
    // (x: t -> x) a is stuck: the bare variable `t` denotes no type, so
    // the application must never substitute `a` for `x`.
    assert_eq!(
        reduce(&Expr::App(
            Expr::Func {
                param: "x".into(),
                param_type: Expr::Var("t".into()).into(),
                body: Expr::Var("x".into()).into(),
            }
            .into(),
            Expr::Var("a".into()).into(),
        )),
        None
    );
}

#[test]
fn gated_application_still_reduces_its_sides() {
    // (x: t -> x) ((y: any -> y) a) ===> (x: t -> x) a, and no further:
    // the argument is rewritten, but the gated function never fires
    let gated: Rc<Expr> = Expr::Func {
        param: "x".into(),
        param_type: Expr::Var("t".into()).into(),
        body: Expr::Var("x".into()).into(),
    }
    .into();
    assert_eq!(
        reduce(&Expr::App(
            gated.clone(),
            Expr::App(
                Expr::Func {
                    param: "y".into(),
                    param_type: Expr::AnyType.into(),
                    body: Expr::Var("y".into()).into(),
                }
                .into(),
                Expr::Var("a".into()).into(),
            )
            .into(),
        )),
        Some(Expr::App(gated, Expr::Var("a".into()).into()).into())
    );
}

#[test]
fn substitute_replaces_the_variable_itself() {
    // substitute(Var(x), x, v) = v, here with an abstraction as v
    let v: Rc<Expr> = Expr::Func {
        param: "y".into(),
        param_type: Expr::AnyType.into(),
        body: Expr::Var("y".into()).into(),
    }
    .into();
    assert_eq!(
        substitute(Expr::Var("x".into()).into(), "x", v.clone()),
        v
    );
}

#[test]
fn substitute_leaves_other_variables() {
    assert_eq!(
        substitute(
            Expr::Var("y".into()).into(),
            "x",
            Expr::AnyType.into()
        ),
        Expr::Var("y".into()).into()
    );
}

#[test]
fn substitute_respects_shadowing() {
    // a binder for the substituted name stops the substitution entirely
    let shadowing: Rc<Expr> = Expr::Func {
        param: "x".into(),
        param_type: Expr::Var("x".into()).into(),
        body: Expr::App(
            Expr::Var("x".into()).into(),
            Expr::Var("x".into()).into(),
        )
        .into(),
    }
    .into();
    assert_eq!(
        substitute(shadowing.clone(), "x", Expr::AnyType.into()),
        shadowing
    );
}

#[test]
fn substitute_recurses_structurally() {
    // x y with x replaced by `any` becomes (any) y
    assert_eq!(
        substitute(
            Expr::App(
                Expr::Var("x".into()).into(),
                Expr::Var("y".into()).into(),
            )
            .into(),
            "x",
            Expr::AnyType.into()
        ),
        Expr::App(Expr::AnyType.into(), Expr::Var("y".into()).into()).into()
    );
}

#[test]
fn reduce_or_ret_returns_a_normal_form_unchanged() {
    let e: Rc<Expr> = Expr::Var("x".into()).into();
    assert_eq!(reduce_or_ret(e.clone()), e);
}

#[test]
fn reduce_or_ret_reduces_where_it_can() {
    let e: Rc<Expr> = Expr::App(
        Expr::Func {
            param: "x".into(),
            param_type: Expr::AnyType.into(),
            body: Expr::Var("x".into()).into(),
        }
        .into(),
        Expr::Var("a".into()).into(),
    )
    .into();
    assert_eq!(reduce_or_ret(e), Expr::Var("a".into()).into());
}

#[test]
fn reduce_with_flag_sets_the_flag_on_a_step() {
    let mut flag = false;
    let e: Rc<Expr> = Expr::App(
        Expr::Func {
            param: "x".into(),
            param_type: Expr::AnyType.into(),
            body: Expr::Var("x".into()).into(),
        }
        .into(),
        Expr::Var("a".into()).into(),
    )
    .into();
    assert_eq!(reduce_with_flag(e, &mut flag), Expr::Var("a".into()).into());
    assert!(flag);
}

#[test]
fn reduce_with_flag_leaves_the_flag_on_a_normal_form() {
    let mut flag = false;
    let e: Rc<Expr> = Expr::Var("x".into()).into();
    assert_eq!(reduce_with_flag(e.clone(), &mut flag), e);
    assert!(!flag);
}

#[test]
fn reduce_with_flag_keeps_a_set_flag() {
    let mut flag = true;
    let e: Rc<Expr> = Expr::Var("x".into()).into();
    assert_eq!(reduce_with_flag(e.clone(), &mut flag), e);
    assert!(flag);
}

#[test]
fn reducing_a_reduced_expression_again_yields_none() {
    // once reduce has normalized a term, a second reduce finds no step
    let e = Expr::App(
        Expr::App(
            Expr::Func {
                param: "x".into(),
                param_type: Expr::AnyType.into(),
                body: Expr::Func {
                    param: "y".into(),
                    param_type: Expr::AnyType.into(),
                    body: Expr::App(
                        Expr::Var("x".into()).into(),
                        Expr::Var("y".into()).into(),
                    )
                    .into(),
                }
                .into(),
            }
            .into(),
            Expr::Var("a".into()).into(),
        )
        .into(),
        Expr::Var("b".into()).into(),
    );
    let reduced = reduce(&e).expect("the term has a redex");
    assert_eq!(reduce(&reduced), None);
}

#[test]
fn ident_from_str_keeps_the_name() {
    assert_eq!(Ident::from("whats_up").name, "whats_up");
}
