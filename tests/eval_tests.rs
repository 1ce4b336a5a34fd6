use linz::ast::{
    AppExpr, DefExpr, EnvExpr, Expr, FnExpr, FreeExpr, IfExpr, LetExpr, PrimType, QValExpr, Qual,
    SplitExpr, TypeExpr, ValExpr,
};
use linz::eval::{eval, EvalError, ReturnVal, ValEnv};
use linz::scope::ScopeStack;
use linz::typing::{typecheck, TypeEnv, TypeError};

fn boolean(qual: Qual, v: bool) -> Expr {
    Expr::QVal(QValExpr { qual, val: ValExpr::Bool(v) })
}

fn pair(qual: Qual, a: Expr, b: Expr) -> Expr {
    Expr::QVal(QValExpr { qual, val: ValExpr::Pair(Box::new(a), Box::new(b)) })
}

fn fun(qual: Qual, var: &str, ty: TypeExpr, body: Expr) -> Expr {
    Expr::QVal(QValExpr { qual, val: ValExpr::Fun(FnExpr { var: var.to_string(), ty, expr: Box::new(body) }) })
}

fn var(n: &str) -> Expr {
    Expr::Var(n.to_string())
}

fn let_in(n: &str, e1: Expr, e2: Expr) -> Expr {
    Expr::Let(LetExpr { var: n.to_string(), expr1: Box::new(e1), expr2: Box::new(e2) })
}

fn if_else(c: Expr, t: Expr, e: Expr) -> Expr {
    Expr::If(IfExpr { cond_expr: Box::new(c), then_expr: Box::new(t), else_expr: Box::new(e) })
}

fn split(e: Expr, l: &str, r: &str, body: Expr) -> Expr {
    Expr::Split(SplitExpr { expr: Box::new(e), left: l.to_string(), right: r.to_string(), body: Box::new(body) })
}

fn app(f: Expr, a: Expr) -> Expr {
    Expr::App(AppExpr { expr1: Box::new(f), expr2: Box::new(a) })
}

fn free(n: &str, body: Expr) -> Expr {
    Expr::Free(FreeExpr { var: n.to_string(), expr: Box::new(body) })
}

fn def(n: &str, e: Expr) -> Expr {
    Expr::Def(DefExpr { var: n.to_string(), expr: Box::new(e) })
}

fn bool_ty(qual: Qual) -> TypeExpr {
    TypeExpr { qual, prim: PrimType::Bool }
}

fn pair_ty(qual: Qual, a: TypeExpr, b: TypeExpr) -> TypeExpr {
    TypeExpr { qual, prim: PrimType::Pair(Box::new(a), Box::new(b)) }
}

fn fun_ty(qual: Qual, var: &str, ty: TypeExpr, body: Expr) -> TypeExpr {
    TypeExpr { qual, prim: PrimType::Fun(Box::new(FnExpr { var: var.to_string(), ty, expr: Box::new(body) })) }
}

/// let x : un bool = un true; if x { un false } else { un true }
fn literal_and_branch() -> Expr {
    let_in("x", boolean(Qual::Un, true), if_else(var("x"), boolean(Qual::Un, false), boolean(Qual::Un, true)))
}

/// let z = lin fn x : lin (lin bool * lin bool) { split x as a, b { if a { b } else { b } } };
/// (z lin <lin true, lin false>)
fn linear_application() -> Expr {
    let param = pair_ty(Qual::Lin, bool_ty(Qual::Lin), bool_ty(Qual::Lin));
    let body = split(var("x"), "a", "b", if_else(var("a"), var("b"), var("b")));
    let_in(
        "z",
        fun(Qual::Lin, "x", param, body),
        app(var("z"), pair(Qual::Lin, boolean(Qual::Lin, true), boolean(Qual::Lin, false))),
    )
}

fn check(e: &Expr) -> Result<TypeExpr, TypeError> {
    typecheck(e, &mut TypeEnv::new(), 0)
}

fn run(e: &Expr) -> Result<ReturnVal, EvalError> {
    eval(e, &mut TypeEnv::new(), &mut ValEnv::new(), 0)
}

#[test]
fn test_eval_var() {
    let expr = boolean(Qual::Un, true);
    let result = match eval(&expr, &mut TypeEnv::new(), &mut ValEnv::new(), 0) {
        Ok(ReturnVal::Bool(v)) => v,
        _ => panic!("error happend in eval_var test"),
    };
    assert_eq!(true, result);
}

#[test]
fn test_eval_if() {
    let expr = literal_and_branch();
    let result = match eval(&expr, &mut TypeEnv::new(), &mut ValEnv::new(), 0) {
        Ok(ReturnVal::Bool(v)) => v,
        _ => panic!("error happend in eval_if test"),
    };
    assert_eq!(false, result);
}

#[test]
fn test_eval_app() {
    let expr = linear_application();
    let result = match eval(&expr, &mut TypeEnv::new(), &mut ValEnv::new(), 0) {
        Ok(ReturnVal::Bool(v)) => v,
        _ => panic!("error happend in eval_app test"),
    };
    assert_eq!(false, result);
}

#[test]
fn literal_and_branch_types_and_evaluates() {
    let e = literal_and_branch();
    let mut tenv = TypeEnv::new();
    assert_eq!(typecheck(&e, &mut tenv, 0), Ok(bool_ty(Qual::Un)));
    assert_eq!(eval(&e, &tenv, &mut ValEnv::new(), 0), Ok(ReturnVal::Bool(false)));
}

#[test]
fn linear_application_types_and_evaluates() {
    let e = linear_application();
    let mut tenv = TypeEnv::new();
    assert_eq!(typecheck(&e, &mut tenv, 0), Ok(bool_ty(Qual::Lin)));
    assert_eq!(eval(&e, &tenv, &mut ValEnv::new(), 0), Ok(ReturnVal::Bool(false)));
}

#[test]
fn function_literal_type() {
    let f = fun(Qual::Lin, "x", bool_ty(Qual::Lin), var("x"));
    assert_eq!(check(&f), Ok(fun_ty(Qual::Lin, "x", bool_ty(Qual::Lin), var("x"))));
}

#[test]
fn linear_reuse_is_rejected() {
    let e = let_in("x", boolean(Qual::Lin, true), pair(Qual::Lin, var("x"), var("x")));
    assert_eq!(check(&e), Err(TypeError::AlreadyConsumed("x".to_string())));
}

#[test]
fn unused_linear_is_rejected() {
    let e = let_in("x", boolean(Qual::Lin, true), boolean(Qual::Un, true));
    assert_eq!(check(&e), Err(TypeError::LinearNotConsumed));
}

#[test]
fn unused_linear_parameter_is_rejected() {
    let f = fun(Qual::Un, "x", bool_ty(Qual::Lin), boolean(Qual::Un, true));
    assert!(check(&f).is_ok());
    assert_eq!(check(&app(f, boolean(Qual::Lin, true))), Err(TypeError::LinearNotConsumed));
}

#[test]
fn function_body_is_checked_where_it_is_applied() {
    // let y = un true; let f = un fn u : un bool { y }; free y; (f un true)
    let f = fun(Qual::Un, "u", bool_ty(Qual::Un), var("y"));
    let e = let_in("y", boolean(Qual::Un, true), let_in("f", f, free("y", app(var("f"), boolean(Qual::Un, true)))));
    assert_eq!(check(&e), Err(TypeError::AlreadyConsumed("y".to_string())));
}

#[test]
fn rebinding_before_application_is_seen() {
    // let b = un true; let f = un fn u : un bool { if b { un true } else { un false } };
    // let b = un <un true, un true>; (f un true)
    let body = if_else(var("b"), boolean(Qual::Un, true), boolean(Qual::Un, false));
    let f = fun(Qual::Un, "u", bool_ty(Qual::Un), body);
    let e = let_in(
        "b",
        boolean(Qual::Un, true),
        let_in("f", f, let_in("b", pair(Qual::Un, boolean(Qual::Un, true), boolean(Qual::Un, true)), app(var("f"), boolean(Qual::Un, true)))),
    );
    assert_eq!(check(&e), Err(TypeError::CondNotBool));
}

#[test]
fn linear_function_is_applied_once() {
    let f = fun(Qual::Lin, "u", bool_ty(Qual::Un), var("u"));
    let e = let_in("g", f, pair(Qual::Un, app(var("g"), boolean(Qual::Un, true)), app(var("g"), boolean(Qual::Un, true))));
    assert_eq!(check(&e), Err(TypeError::AlreadyConsumed("g".to_string())));
}

#[test]
fn argument_must_match_parameter() {
    let id = fun(Qual::Un, "u", bool_ty(Qual::Un), var("u"));
    let g = fun(Qual::Un, "h", bool_ty(Qual::Un), boolean(Qual::Un, true));
    assert_eq!(check(&app(g, id)), Err(TypeError::ArgumentMismatch));
}

#[test]
fn unused_linear_split_component_is_rejected() {
    let e = split(pair(Qual::Un, boolean(Qual::Lin, true), boolean(Qual::Un, false)), "a", "b", var("b"));
    assert_eq!(check(&e), Err(TypeError::LinearNotConsumed));
}

#[test]
fn explicit_free_satisfies_linear() {
    let e = let_in("x", boolean(Qual::Lin, true), free("x", boolean(Qual::Un, true)));
    assert_eq!(check(&e), Ok(bool_ty(Qual::Un)));
    assert_eq!(run(&e), Ok(ReturnVal::Bool(true)));
}

#[test]
fn free_of_unbound_name() {
    let e = free("x", boolean(Qual::Un, true));
    assert_eq!(check(&e), Err(TypeError::NoVariableToFree("x".to_string())));
    assert_eq!(run(&e), Err(EvalError::NoVariableToFree("x".to_string())));
}

#[test]
fn freed_name_cannot_be_read() {
    let e = let_in("x", boolean(Qual::Un, true), free("x", var("x")));
    assert_eq!(run(&e), Err(EvalError::VariableNotFound("x".to_string())));
    assert_eq!(check(&e), Err(TypeError::AlreadyConsumed("x".to_string())));
}

#[test]
fn freeing_inner_binding_does_not_expose_outer() {
    let e = let_in("x", boolean(Qual::Un, true), let_in("x", boolean(Qual::Un, false), free("x", var("x"))));
    assert_eq!(check(&e), Err(TypeError::AlreadyConsumed("x".to_string())));
    assert_eq!(run(&e), Err(EvalError::VariableNotFound("x".to_string())));
}

#[test]
fn affine_unused_is_accepted() {
    let e = let_in("x", boolean(Qual::Aff, true), boolean(Qual::Un, true));
    assert_eq!(check(&e), Ok(bool_ty(Qual::Un)));
}

#[test]
fn affine_read_once_is_accepted() {
    let e = let_in("x", boolean(Qual::Aff, true), var("x"));
    assert_eq!(check(&e), Ok(bool_ty(Qual::Aff)));
}

#[test]
fn affine_read_twice_is_rejected() {
    let e = let_in("x", boolean(Qual::Aff, true), pair(Qual::Aff, var("x"), var("x")));
    assert_eq!(check(&e), Err(TypeError::AlreadyConsumed("x".to_string())));
}

#[test]
fn unrestricted_read_twice_is_accepted() {
    let e = let_in("x", boolean(Qual::Un, true), pair(Qual::Un, var("x"), var("x")));
    assert_eq!(check(&e), Ok(pair_ty(Qual::Un, bool_ty(Qual::Un), bool_ty(Qual::Un))));
    assert_eq!(run(&e), Ok(ReturnVal::Pair(true, true)));
}

#[test]
fn inner_binding_shadows_outer() {
    // let x = un true; let y = (let x = un false; x); <y, x>
    let e = let_in(
        "x",
        boolean(Qual::Un, true),
        let_in("y", let_in("x", boolean(Qual::Un, false), var("x")), pair(Qual::Un, var("y"), var("x"))),
    );
    assert_eq!(check(&e), Ok(pair_ty(Qual::Un, bool_ty(Qual::Un), bool_ty(Qual::Un))));
    assert_eq!(run(&e), Ok(ReturnVal::Pair(false, true)));
}

#[test]
fn consumed_binding_does_not_expose_outer() {
    // let x = un true; let x = lin false; <x, x>
    let e = let_in("x", boolean(Qual::Un, true), let_in("x", boolean(Qual::Lin, false), pair(Qual::Lin, var("x"), var("x"))));
    assert_eq!(check(&e), Err(TypeError::AlreadyConsumed("x".to_string())));
}

#[test]
fn evaluator_consumes_linear_names() {
    let e = let_in("x", boolean(Qual::Lin, true), pair(Qual::Lin, var("x"), var("x")));
    let mut tenv = TypeEnv::new();
    tenv.push(0);
    tenv.push(1);
    assert_eq!(typecheck(&def("x", boolean(Qual::Lin, true)), &mut tenv, 1), Ok(bool_ty(Qual::Lin)));
    assert_eq!(eval(&e, &tenv, &mut ValEnv::new(), 0), Err(EvalError::VariableNotFound("x".to_string())));
}

#[test]
fn accepted_program_never_misses_a_variable() {
    let programs = vec![
        literal_and_branch(),
        linear_application(),
        let_in("x", boolean(Qual::Lin, true), free("x", boolean(Qual::Un, true))),
        let_in("x", boolean(Qual::Aff, false), var("x")),
    ];
    for p in programs.iter() {
        let mut tenv = TypeEnv::new();
        assert!(typecheck(p, &mut tenv, 0).is_ok());
        let r = eval(p, &tenv, &mut ValEnv::new(), 0);
        assert!(r.is_ok());
    }
}

#[test]
fn def_binds_into_the_current_scope() {
    let mut tenv = TypeEnv::new();
    let mut venv = ValEnv::new();
    tenv.push(0);
    venv.push(0);
    let d = def("g", boolean(Qual::Un, false));
    assert_eq!(typecheck(&d, &mut tenv, 0), Ok(bool_ty(Qual::Un)));
    assert_eq!(eval(&d, &tenv, &mut venv, 0), Ok(ReturnVal::Bool(false)));
    assert_eq!(typecheck(&var("g"), &mut tenv, 0), Ok(bool_ty(Qual::Un)));
    assert_eq!(eval(&var("g"), &tenv, &mut venv, 0), Ok(ReturnVal::Bool(false)));
}

#[test]
fn def_without_scope_binds_nothing() {
    let mut venv = ValEnv::new();
    let tenv = TypeEnv::new();
    assert_eq!(eval(&def("g", boolean(Qual::Un, true)), &tenv, &mut venv, 0), Ok(ReturnVal::Bool(true)));
    assert_eq!(eval(&var("g"), &tenv, &mut venv, 0), Err(EvalError::VariableNotFound("g".to_string())));
}

#[test]
fn functions_resolve_free_names_at_call_time() {
    // let f = un fn u : un bool { y }; let y = un false; (f un true)
    let f = fun(Qual::Un, "u", bool_ty(Qual::Un), var("y"));
    let e = let_in("f", f, let_in("y", boolean(Qual::Un, false), app(var("f"), boolean(Qual::Un, true))));
    assert_eq!(check(&e), Ok(bool_ty(Qual::Un)));
    assert_eq!(run(&e), Ok(ReturnVal::Bool(false)));
}

#[test]
fn function_literal_applied_directly() {
    let f = fun(Qual::Un, "u", bool_ty(Qual::Un), if_else(var("u"), boolean(Qual::Un, false), boolean(Qual::Un, true)));
    let e = app(f, boolean(Qual::Un, true));
    assert_eq!(check(&e), Ok(bool_ty(Qual::Un)));
    assert_eq!(run(&e), Ok(ReturnVal::Bool(false)));
}

#[test]
fn function_value_evaluates_to_itself() {
    let f = fun(Qual::Un, "u", bool_ty(Qual::Un), var("u"));
    match run(&f) {
        Ok(ReturnVal::Fun(fx)) => assert_eq!(fx.var, "u".to_string()),
        other => panic!("unexpected {:?}", other),
    }
}

#[test]
fn applying_a_non_function() {
    let e = app(boolean(Qual::Un, true), boolean(Qual::Un, true));
    assert_eq!(check(&e), Err(TypeError::NotAFunction));
    assert_eq!(run(&e), Err(EvalError::NotAFunction));
    let e2 = let_in("b", boolean(Qual::Un, true), app(var("b"), boolean(Qual::Un, true)));
    assert_eq!(run(&e2), Err(EvalError::NotAFunction));
}

#[test]
fn argument_type_mismatch() {
    let f = fun(Qual::Un, "u", bool_ty(Qual::Un), var("u"));
    let e = app(f, boolean(Qual::Lin, true));
    assert_eq!(check(&e), Err(TypeError::ArgumentMismatch));
}

#[test]
fn pair_of_non_booleans() {
    let f = fun(Qual::Un, "u", bool_ty(Qual::Un), var("u"));
    let e = pair(Qual::Un, f, boolean(Qual::Un, true));
    assert_eq!(check(&e), Err(TypeError::PairNotBool));
    assert_eq!(run(&e), Err(EvalError::PairNotBool));
}

#[test]
fn condition_must_be_boolean() {
    let e = if_else(pair(Qual::Un, boolean(Qual::Un, true), boolean(Qual::Un, true)), boolean(Qual::Un, true), boolean(Qual::Un, true));
    assert_eq!(check(&e), Err(TypeError::CondNotBool));
}

#[test]
fn branches_must_agree_on_type() {
    let e = if_else(boolean(Qual::Un, true), boolean(Qual::Un, true), boolean(Qual::Lin, true));
    assert_eq!(check(&e), Err(TypeError::BranchMismatch));
}

#[test]
fn branches_must_agree_on_consumption() {
    let e = let_in("x", boolean(Qual::Lin, true), if_else(boolean(Qual::Un, true), var("x"), boolean(Qual::Lin, true)));
    assert_eq!(check(&e), Err(TypeError::BranchConsumption));
}

#[test]
fn split_needs_a_pair() {
    let e = split(boolean(Qual::Un, true), "a", "b", var("a"));
    assert_eq!(check(&e), Err(TypeError::NotAPair));
}

#[test]
fn split_binds_both_components() {
    let e = split(pair(Qual::Un, boolean(Qual::Un, true), boolean(Qual::Un, false)), "a", "b", pair(Qual::Un, var("b"), var("a")));
    assert_eq!(check(&e), Ok(pair_ty(Qual::Un, bool_ty(Qual::Un), bool_ty(Qual::Un))));
    assert_eq!(run(&e), Ok(ReturnVal::Pair(false, true)));
}

#[test]
fn unbound_variable() {
    assert_eq!(check(&var("q")), Err(TypeError::VariableNotFound("q".to_string())));
    assert_eq!(run(&var("q")), Err(EvalError::VariableNotFound("q".to_string())));
}

#[test]
fn scope_depth_overflow_is_reported() {
    let e = let_in("x", boolean(Qual::Un, true), var("x"));
    assert_eq!(typecheck(&e, &mut TypeEnv::new(), usize::MAX), Err(TypeError::ScopeTooDeep));
    assert_eq!(eval(&e, &TypeEnv::new(), &mut ValEnv::new(), usize::MAX), Err(EvalError::ScopeTooDeep));
}

#[test]
fn env_is_transparent() {
    let e = Expr::Env(EnvExpr { expr: Box::new(literal_and_branch()) });
    assert_eq!(check(&e), Ok(bool_ty(Qual::Un)));
    assert_eq!(run(&e), Ok(ReturnVal::Bool(false)));
}

#[test]
fn scopes_are_closed_after_evaluation() {
    let mut venv = ValEnv::new();
    let tenv = TypeEnv::new();
    assert_eq!(eval(&linear_application(), &tenv, &mut venv, 0), Ok(ReturnVal::Bool(false)));
    assert_eq!(eval(&var("z"), &tenv, &mut venv, 0), Err(EvalError::VariableNotFound("z".to_string())));
}

#[test]
fn scope_stack_lookup_and_shadowing() {
    let mut s: ScopeStack<u8> = ScopeStack::new();
    s.insert("k".to_string(), 9);
    assert!(s.lookup(&"k".to_string()).is_none());
    s.push(0);
    s.insert("k".to_string(), 1);
    s.push(2);
    s.insert("k".to_string(), 2);
    assert_eq!(s.lookup(&"k".to_string()), Some((2, &Some(2))));
    assert!(s.tombstone(&"k".to_string()));
    assert_eq!(s.lookup(&"k".to_string()), Some((2, &None)));
    assert!(s.pop(2).is_some());
    assert_eq!(s.lookup(&"k".to_string()), Some((0, &Some(1))));
    assert!(s.pop(2).is_none());
}

#[test]
fn scope_stack_push_keeps_depth_order() {
    let mut s: ScopeStack<u8> = ScopeStack::new();
    s.push(3);
    s.push(1);
    s.insert("k".to_string(), 7);
    assert_eq!(s.lookup(&"k".to_string()), Some((3, &Some(7))));
    s.insert("k".to_string(), 8);
    assert_eq!(s.lookup(&"k".to_string()), Some((3, &Some(8))));
    assert_eq!(s.remove(&"k".to_string()), Some((3, Some(8))));
    assert!(s.lookup(&"k".to_string()).is_none());
    assert!(!s.tombstone(&"k".to_string()));
}

#[test]
fn branches_must_agree_on_function_bindings() {
    // let y = un true; let g = un fn u : un bool { un true };
    // let r = if un false { un true } else { let z = def g = un fn u : un bool { free y; un true }; un true };
    // un true
    let g0 = fun(Qual::Un, "u", bool_ty(Qual::Un), boolean(Qual::Un, true));
    let g1 = fun(Qual::Un, "u", bool_ty(Qual::Un), free("y", boolean(Qual::Un, true)));
    let branch = if_else(boolean(Qual::Un, false), boolean(Qual::Un, true), let_in("z", def("g", g1), boolean(Qual::Un, true)));
    let e = let_in("y", boolean(Qual::Un, true), let_in("g", g0, let_in("r", branch, boolean(Qual::Un, true))));
    assert_eq!(check(&e), Err(TypeError::BranchConsumption));
}

#[test]
fn same_function_in_both_branches_is_accepted() {
    let g0 = fun(Qual::Un, "u", bool_ty(Qual::Un), var("u"));
    let e = let_in("g", g0, if_else(boolean(Qual::Un, true), app(var("g"), boolean(Qual::Un, true)), boolean(Qual::Un, false)));
    assert_eq!(check(&e), Ok(bool_ty(Qual::Un)));
    assert_eq!(run(&e), Ok(ReturnVal::Bool(true)));
}
