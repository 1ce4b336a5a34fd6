//! The evaluator. Function values carry their own syntax tree, and free names
//! in a function body are resolved when the function is applied (dynamic
//! scoping).
use vstd::prelude::*;
use crate::ast::{
    copy_fn, AppExpr, DefExpr, Expr, FnExpr, FreeExpr, IfExpr, LetExpr, QValExpr, SplitExpr,
    ValExpr,
};
use crate::scope::{
    insert_model, lookup_model, pop_model, push_model, sorted, tombstone_model,
    FrameModel, ScopeStack, StackModel,
};
use crate::exits::lemma_eval_closes_scopes;
use crate::laws::{fits, same_depths};
use crate::typing::{consumes_spec, TypeEnv};

verus! {

/// A runtime value.
#[derive(Debug, PartialEq, Eq)]
pub enum ReturnVal {
    Bool(bool),
    Pair(bool, bool),
    Fun(FnExpr),
}

/// Why an evaluation failed.
#[derive(Debug, PartialEq, Eq)]
pub enum EvalError {
    /// The name is unbound, or its binding was consumed or freed.
    VariableNotFound(String),
    /// The callee of an application is not a function.
    NotAFunction,
    /// A pair component did not evaluate to a boolean.
    PairNotBool,
    /// `free` of a name that is bound nowhere.
    NoVariableToFree(String),
    /// Scopes are nested deeper than a depth counter can count.
    ScopeTooDeep,
}

/// A copy of a value, equal to it.
pub fn copy_val(v: &ReturnVal) -> (r: ReturnVal)
    ensures
        r == *v,
{
    match v {
        ReturnVal::Bool(b) => ReturnVal::Bool(*b),
        ReturnVal::Pair(a, b) => ReturnVal::Pair(*a, *b),
        ReturnVal::Fun(f) => ReturnVal::Fun(copy_fn(f)),
    }
}

/// The value environment: each live name's value, in nested scopes.
#[derive(Debug)]
pub struct ValEnv {
    env: ScopeStack<ReturnVal>,
}

impl ValEnv {
    /// The bindings, frame by frame.
    pub closed spec fn model(&self) -> StackModel<ReturnVal> {
        self.env.model()
    }

    /// The frames are in depth order, so the last frame is the deepest.
    pub open spec fn wf(&self) -> bool {
        sorted(self.model())
    }

    pub fn new() -> (r: ValEnv)
        ensures
            r.model() == Seq::<(usize, FrameModel<ReturnVal>)>::empty(),
            r.wf(),
    {
        ValEnv { env: ScopeStack::new() }
    }

    /// Opens an empty scope at `depth`.
    pub fn push(&mut self, depth: usize)
        ensures
            final(self).model() == push_model(old(self).model(), depth),
            old(self).wf() ==> final(self).wf(),
    {
        self.env.push(depth);
    }

    /// Closes the scope at `depth`.
    pub fn pop(&mut self, depth: usize)
        ensures
            final(self).model() == pop_model(old(self).model(), depth),
            old(self).wf() ==> final(self).wf(),
    {
        let _ = self.env.pop(depth);
    }

    /// Binds `key` to `value` in the deepest scope.
    pub fn insert(&mut self, key: String, value: ReturnVal)
        ensures
            final(self).model() == insert_model(old(self).model(), key@, value),
            old(self).wf() ==> final(self).wf(),
    {
        self.env.insert(key, value);
    }

    /// The nearest binding of `key`; `Some(None)` where it was consumed.
    pub fn get(&self, key: &String) -> (r: Option<&Option<ReturnVal>>)
        ensures
            match lookup_model(self.model(), key@) {
                Some(p) => r matches Some(x) && *x == p.1,
                None => r is None,
            },
    {
        match self.env.lookup(key) {
            Some((_, v)) => Some(v),
            None => None,
        }
    }

    /// Tombstones the nearest binding of `key`; returns whether there was one.
    pub fn consume(&mut self, key: &String) -> (r: bool)
        ensures
            r == (lookup_model(old(self).model(), key@) is Some),
            final(self).model() == tombstone_model(old(self).model(), key@),
            old(self).wf() ==> final(self).wf(),
    {
        self.env.tombstone(key)
    }
}

/// The function that the callee `e` names: a function literal, or a name
/// bound to a function value.
pub open spec fn callee_fn(e: Expr, vs: StackModel<ReturnVal>) -> Option<FnExpr> {
    match e {
        Expr::QVal(q) => match q.val {
            ValExpr::Fun(f) => Some(f),
            _ => None,
        },
        Expr::Var(n) => match lookup_model(vs, n@) {
            Some((_, Some(ReturnVal::Fun(f)))) => Some(f),
            _ => None,
        },
        _ => None,
    }
}

/// The evaluation of `e` under types `ts` and values `vs` at scope depth
/// `d`: its value (or error) and the values afterwards. `None` where the run
/// aborts: an `if` whose condition is not a boolean, or a `split` of a value
/// that is not a pair.
pub open spec fn eval_spec(e: Expr, ts: StackModel<crate::ast::TypeExpr>, vs: StackModel<ReturnVal>, d: usize) -> Option<
    (Result<ReturnVal, EvalError>, StackModel<ReturnVal>),
>
    decreases usize::MAX - d, e,
{
    match e {
        Expr::QVal(q) => match q.val {
            ValExpr::Bool(b) => Some((Ok(ReturnVal::Bool(b)), vs)),
            ValExpr::Pair(a, b) => match eval_spec(*a, ts, vs, d) {
                None => None,
                Some((Err(x), vs1)) => Some((Err(x), vs1)),
                Some((Ok(va), vs1)) => match eval_spec(*b, ts, vs1, d) {
                    None => None,
                    Some((Err(x), vs2)) => Some((Err(x), vs2)),
                    Some((Ok(vb), vs2)) => match (va, vb) {
                        (ReturnVal::Bool(x), ReturnVal::Bool(y)) => Some((Ok(ReturnVal::Pair(x, y)), vs2)),
                        _ => Some((Err(EvalError::PairNotBool), vs2)),
                    },
                },
            },
            ValExpr::Fun(f) => Some((Ok(ReturnVal::Fun(f)), vs)),
        },
        Expr::Var(x) => match lookup_model(vs, x@) {
            Some((_, Some(v))) => Some((
                Ok(v),
                if consumes_spec(ts, x@) {
                    tombstone_model(vs, x@)
                } else {
                    vs
                },
            )),
            _ => Some((Err(EvalError::VariableNotFound(x)), vs)),
        },
        Expr::App(a) => match eval_spec(*a.expr2, ts, vs, d) {
            None => None,
            Some((Err(x), vs1)) => Some((Err(x), vs1)),
            Some((Ok(arg), vs1)) => match callee_fn(*a.expr1, vs1) {
                None => Some((Err(EvalError::NotAFunction), vs1)),
                Some(f) => if d == usize::MAX {
                    Some((Err(EvalError::ScopeTooDeep), vs1))
                } else {
                    let d1 = (d + 1) as usize;
                    match eval_spec(*f.expr, ts, insert_model(push_model(vs1, d1), f.var@, arg), d1) {
                        None => None,
                        Some((r, vs2)) => Some((r, pop_model(vs2, d1))),
                    }
                },
            },
        },
        Expr::If(i) => match eval_spec(*i.cond_expr, ts, vs, d) {
            Some((Ok(ReturnVal::Bool(c)), vs1)) => if c {
                eval_spec(*i.then_expr, ts, vs1, d)
            } else {
                eval_spec(*i.else_expr, ts, vs1, d)
            },
            Some((Err(x), vs1)) => Some((Err(x), vs1)),
            _ => None,
        },
        Expr::Split(sp) => match eval_spec(*sp.expr, ts, vs, d) {
            None => None,
            Some((Err(x), vs1)) => Some((Err(x), vs1)),
            Some((Ok(v), vs1)) => if d == usize::MAX {
                Some((Err(EvalError::ScopeTooDeep), vs1))
            } else {
                match v {
                    ReturnVal::Pair(l, r) => {
                        let d1 = (d + 1) as usize;
                        let vs2 = insert_model(
                            insert_model(push_model(vs1, d1), sp.left@, ReturnVal::Bool(l)),
                            sp.right@,
                            ReturnVal::Bool(r),
                        );
                        match eval_spec(*sp.body, ts, vs2, d1) {
                            None => None,
                            Some((rb, vs3)) => Some((rb, pop_model(vs3, d1))),
                        }
                    },
                    _ => None,
                }
            },
        },
        Expr::Let(l) => match eval_spec(*l.expr1, ts, vs, d) {
            None => None,
            Some((Err(x), vs1)) => Some((Err(x), vs1)),
            Some((Ok(v), vs1)) => if d == usize::MAX {
                Some((Err(EvalError::ScopeTooDeep), vs1))
            } else {
                let d1 = (d + 1) as usize;
                match eval_spec(*l.expr2, ts, insert_model(push_model(vs1, d1), l.var@, v), d1) {
                    None => None,
                    Some((rb, vs2)) => Some((rb, pop_model(vs2, d1))),
                }
            },
        },
        Expr::Def(df) => match eval_spec(*df.expr, ts, vs, d) {
            None => None,
            Some((Err(x), vs1)) => Some((Err(x), vs1)),
            Some((Ok(v), vs1)) => Some((Ok(v), insert_model(vs1, df.var@, v))),
        },
        Expr::Free(fr) => if lookup_model(vs, fr.var@) is Some {
            eval_spec(*fr.expr, ts, tombstone_model(vs, fr.var@), d)
        } else {
            Some((Err(EvalError::NoVariableToFree(fr.var)), vs))
        },
        Expr::Env(v) => eval_spec(*v.expr, ts, vs, d),
    }
}

/// Evaluates `expr` under `type_env` and `val_env` at scope depth `depth`.
/// Reading a name whose type binding is linear or affine (or consumed)
/// tombstones its value binding. Every scope opened is closed again, on
/// success and on error alike.
pub fn eval(expr: &Expr, type_env: &TypeEnv, val_env: &mut ValEnv, depth: usize) -> (r: Result<ReturnVal, EvalError>)
    requires
        eval_spec(*expr, type_env.model(), old(val_env).model(), depth) is Some,
    ensures
        Some((r, final(val_env).model())) == eval_spec(*expr, type_env.model(), old(val_env).model(), depth),
        fits(old(val_env).model(), depth) ==> same_depths(old(val_env).model(), final(val_env).model()),
    decreases usize::MAX - depth, expr,
{
    proof {
        if fits(old(val_env).model(), depth) {
            lemma_eval_closes_scopes(*expr, type_env.model(), old(val_env).model(), depth);
        }
    }
    match expr {
        Expr::App(e) => eval_app(e, type_env, val_env, depth),
        Expr::QVal(e) => eval_qval(e, type_env, val_env, depth),
        Expr::Free(e) => eval_free(e, type_env, val_env, depth),
        Expr::If(e) => eval_if(e, type_env, val_env, depth),
        Expr::Split(e) => eval_split(e, type_env, val_env, depth),
        Expr::Var(e) => eval_var(e, type_env, val_env),
        Expr::Let(e) => eval_let(e, type_env, val_env, depth),
        Expr::Def(e) => eval_def(e, type_env, val_env, depth),
        Expr::Env(e) => eval(&*e.expr, type_env, val_env, depth),
    }
}

/// The function that the callee `e` names, copied out of the tree or the
/// environment.
fn callee(e: &Expr, val_env: &ValEnv) -> (r: Option<FnExpr>)
    ensures
        r == callee_fn(*e, val_env.model()),
{
    match e {
        Expr::QVal(q) => match &q.val {
            ValExpr::Fun(f) => Some(copy_fn(f)),
            _ => None,
        },
        Expr::Var(n) => match val_env.get(n) {
            Some(Some(ReturnVal::Fun(f))) => Some(copy_fn(f)),
            _ => None,
        },
        _ => None,
    }
}

fn eval_app(expr: &AppExpr, type_env: &TypeEnv, val_env: &mut ValEnv, depth: usize) -> (r: Result<ReturnVal, EvalError>)
    requires
        eval_spec(Expr::App(*expr), type_env.model(), old(val_env).model(), depth) is Some,
    ensures
        Some((r, final(val_env).model())) == eval_spec(Expr::App(*expr), type_env.model(), old(val_env).model(), depth),
    decreases usize::MAX - depth, expr,
{
    let arg = eval(&*expr.expr2, type_env, val_env, depth)?;
    let f = match callee(&*expr.expr1, val_env) {
        Some(f) => f,
        None => return Err(EvalError::NotAFunction),
    };
    if depth == usize::MAX {
        return Err(EvalError::ScopeTooDeep);
    }
    let d1 = depth + 1;
    val_env.push(d1);
    val_env.insert(f.var, arg);
    let ret = eval(&*f.expr, type_env, val_env, d1);
    val_env.pop(d1);
    ret
}

fn eval_qval(expr: &QValExpr, type_env: &TypeEnv, val_env: &mut ValEnv, depth: usize) -> (r: Result<ReturnVal, EvalError>)
    requires
        eval_spec(Expr::QVal(*expr), type_env.model(), old(val_env).model(), depth) is Some,
    ensures
        Some((r, final(val_env).model())) == eval_spec(Expr::QVal(*expr), type_env.model(), old(val_env).model(), depth),
    decreases usize::MAX - depth, expr,
{
    match &expr.val {
        ValExpr::Bool(v) => Ok(ReturnVal::Bool(*v)),
        ValExpr::Pair(e1, e2) => {
            let v1 = eval(&**e1, type_env, val_env, depth)?;
            let v2 = eval(&**e2, type_env, val_env, depth)?;
            match (v1, v2) {
                (ReturnVal::Bool(v1), ReturnVal::Bool(v2)) => Ok(ReturnVal::Pair(v1, v2)),
                _ => Err(EvalError::PairNotBool),
            }
        },
        ValExpr::Fun(f) => Ok(ReturnVal::Fun(copy_fn(f))),
    }
}

fn eval_free(expr: &FreeExpr, type_env: &TypeEnv, val_env: &mut ValEnv, depth: usize) -> (r: Result<ReturnVal, EvalError>)
    requires
        eval_spec(Expr::Free(*expr), type_env.model(), old(val_env).model(), depth) is Some,
    ensures
        Some((r, final(val_env).model())) == eval_spec(Expr::Free(*expr), type_env.model(), old(val_env).model(), depth),
    decreases usize::MAX - depth, expr,
{
    if val_env.consume(&expr.var) {
        eval(&*expr.expr, type_env, val_env, depth)
    } else {
        Err(EvalError::NoVariableToFree(expr.var.clone()))
    }
}

fn eval_if(expr: &IfExpr, type_env: &TypeEnv, val_env: &mut ValEnv, depth: usize) -> (r: Result<ReturnVal, EvalError>)
    requires
        eval_spec(Expr::If(*expr), type_env.model(), old(val_env).model(), depth) is Some,
    ensures
        Some((r, final(val_env).model())) == eval_spec(Expr::If(*expr), type_env.model(), old(val_env).model(), depth),
    decreases usize::MAX - depth, expr,
{
    let c = match eval(&*expr.cond_expr, type_env, val_env, depth)? {
        ReturnVal::Bool(v) => v,
        _ => {
            assert(false);
            return Err(EvalError::PairNotBool);
        },
    };
    if c {
        eval(&*expr.then_expr, type_env, val_env, depth)
    } else {
        eval(&*expr.else_expr, type_env, val_env, depth)
    }
}

fn eval_split(expr: &SplitExpr, type_env: &TypeEnv, val_env: &mut ValEnv, depth: usize) -> (r: Result<ReturnVal, EvalError>)
    requires
        eval_spec(Expr::Split(*expr), type_env.model(), old(val_env).model(), depth) is Some,
    ensures
        Some((r, final(val_env).model())) == eval_spec(Expr::Split(*expr), type_env.model(), old(val_env).model(), depth),
    decreases usize::MAX - depth, expr,
{
    let e = eval(&*expr.expr, type_env, val_env, depth)?;
    if depth == usize::MAX {
        return Err(EvalError::ScopeTooDeep);
    }
    let d1 = depth + 1;
    match e {
        ReturnVal::Pair(v1, v2) => {
            val_env.push(d1);
            val_env.insert(expr.left.clone(), ReturnVal::Bool(v1));
            val_env.insert(expr.right.clone(), ReturnVal::Bool(v2));
        },
        _ => {
            assert(false);
            return Err(EvalError::PairNotBool);
        },
    }
    let ret = eval(&*expr.body, type_env, val_env, d1);
    val_env.pop(d1);
    ret
}

fn eval_var(expr: &String, type_env: &TypeEnv, val_env: &mut ValEnv) -> (r: Result<ReturnVal, EvalError>)
    ensures
        Some((r, final(val_env).model())) == eval_spec(Expr::Var(*expr), type_env.model(), old(val_env).model(), 0),
{
    let v = match val_env.get(expr) {
        Some(Some(v)) => copy_val(v),
        _ => return Err(EvalError::VariableNotFound(expr.clone())),
    };
    if type_env.consumes(expr) {
        val_env.consume(expr);
    }
    Ok(v)
}

fn eval_let(expr: &LetExpr, type_env: &TypeEnv, val_env: &mut ValEnv, depth: usize) -> (r: Result<ReturnVal, EvalError>)
    requires
        eval_spec(Expr::Let(*expr), type_env.model(), old(val_env).model(), depth) is Some,
    ensures
        Some((r, final(val_env).model())) == eval_spec(Expr::Let(*expr), type_env.model(), old(val_env).model(), depth),
    decreases usize::MAX - depth, expr,
{
    let v1 = eval(&*expr.expr1, type_env, val_env, depth)?;
    if depth == usize::MAX {
        return Err(EvalError::ScopeTooDeep);
    }
    let d1 = depth + 1;
    val_env.push(d1);
    val_env.insert(expr.var.clone(), v1);
    let v2 = eval(&*expr.expr2, type_env, val_env, d1);
    val_env.pop(d1);
    v2
}

fn eval_def(expr: &DefExpr, type_env: &TypeEnv, val_env: &mut ValEnv, depth: usize) -> (r: Result<ReturnVal, EvalError>)
    requires
        eval_spec(Expr::Def(*expr), type_env.model(), old(val_env).model(), depth) is Some,
    ensures
        Some((r, final(val_env).model())) == eval_spec(Expr::Def(*expr), type_env.model(), old(val_env).model(), depth),
    decreases usize::MAX - depth, expr,
{
    let v1 = eval(&*expr.expr, type_env, val_env, depth)?;
    val_env.insert(expr.var.clone(), copy_val(&v1));
    Ok(v1)
}

} // verus!
