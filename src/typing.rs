//! The substructural type checker.
use vstd::prelude::*;
use crate::ast::{
    copy_fn, copy_type, type_same, same_type, AppExpr, DefExpr, Expr, FreeExpr, IfExpr, LetExpr, PrimType,
    Qual, QValExpr, SplitExpr, TypeExpr, ValExpr,
};
use crate::laws::{fits, lemma_typecheck_keeps, same_depths};
use crate::scope::{
    stacks_agree,
    frame_view, insert_model, lookup_model, pop_model, pop_result, push_model,
    sorted, tombstone_model, FrameModel, ScopeStack, StackModel,
};

verus! {

/// Why an expression was rejected.
#[derive(Debug, PartialEq, Eq)]
pub enum TypeError {
    /// The name is bound nowhere.
    VariableNotFound(String),
    /// The name's linear or affine binding was already used.
    AlreadyConsumed(String),
    /// `free` of a name with no live binding.
    NoVariableToFree(String),
    /// The callee of an application is not a function.
    NotAFunction,
    /// The argument's type differs from the parameter's.
    ArgumentMismatch,
    /// A pair component is not a boolean.
    PairNotBool,
    /// The condition of `if` is not a boolean.
    CondNotBool,
    /// The two branches of `if` have different types.
    BranchMismatch,
    /// The two branches of `if` leave the bindings in different states.
    BranchConsumption,
    /// The scrutinee of `split` is not a pair.
    NotAPair,
    /// A linear binding was still live when its scope closed.
    LinearNotConsumed,
    /// Scopes are nested deeper than a depth counter can count.
    ScopeTooDeep,
}

/// The type environment: each live name's type, in nested scopes.
#[derive(Debug)]
pub struct TypeEnv {
    vars: ScopeStack<TypeExpr>,
}

impl TypeEnv {
    /// The bindings, frame by frame.
    pub closed spec fn model(&self) -> StackModel<TypeExpr> {
        self.vars.model()
    }

    /// The frames are in depth order, so the last frame is the deepest.
    pub open spec fn wf(&self) -> bool {
        sorted(self.model())
    }

    pub fn new() -> (r: TypeEnv)
        ensures
            r.model() == Seq::<(usize, FrameModel<TypeExpr>)>::empty(),
            r.wf(),
    {
        TypeEnv { vars: ScopeStack::new() }
    }

    /// Opens an empty scope at `depth`.
    pub fn push(&mut self, depth: usize)
        ensures
            final(self).model() == push_model(old(self).model(), depth),
            old(self).wf() ==> final(self).wf(),
    {
        self.vars.push(depth);
    }

    /// Whether reading `name` consumes it: its nearest binding is linear or
    /// affine, or has been consumed already.
    pub fn consumes(&self, name: &String) -> (r: bool)
        ensures
            r == consumes_spec(self.model(), name@),
    {
        match self.vars.lookup(name) {
            Some((_, Some(t))) => t.qual != Qual::Un,
            Some((_, None)) => true,
            None => false,
        }
    }
}

/// Whether reading `k` consumes it under the bindings `s`.
pub open spec fn consumes_spec(s: StackModel<TypeExpr>, k: Seq<char>) -> bool {
    match lookup_model(s, k) {
        Some((_, Some(t))) => t.qual != Qual::Un,
        Some((_, None)) => true,
        None => false,
    }
}

/// A slot holds a linear type that has not been consumed.
pub open spec fn live_lin_slot(x: Option<TypeExpr>) -> bool {
    x matches Some(t) && t.qual == Qual::Lin
}

/// A frame still holds a live linear binding.
pub open spec fn has_live_lin(f: FrameModel<TypeExpr>) -> bool {
    exists|j: int| 0 <= j < f.len() && live_lin_slot(#[trigger] f[j].1)
}

/// Closing the scope at depth `d` after its body gave `r`: the frame goes,
/// and a linear binding left live in it is an error.
pub open spec fn close_spec(r: Result<TypeExpr, TypeError>, s: StackModel<TypeExpr>, d: usize) -> (
    Result<TypeExpr, TypeError>,
    StackModel<TypeExpr>,
) {
    let s2 = pop_model(s, d);
    match r {
        Err(e) => (Err(e), s2),
        Ok(t) => match pop_result(s, d) {
            Some(f) => if has_live_lin(f) {
                (Err(TypeError::LinearNotConsumed), s2)
            } else {
                (Ok(t), s2)
            },
            None => (Ok(t), s2),
        },
    }
}

/// The type judgment: the type of `e` (or why it is rejected) under the
/// bindings `s` at scope depth `d`, and the bindings afterwards. A function
/// literal is not looked into: its body is checked at each application, one
/// scope deeper, with the parameter bound, under the bindings live there.
pub open spec fn typecheck_spec(e: Expr, s: StackModel<TypeExpr>, d: usize) -> (
    Result<TypeExpr, TypeError>,
    StackModel<TypeExpr>,
)
    decreases usize::MAX - d, e,
{
    match e {
        Expr::QVal(q) => match q.val {
            ValExpr::Bool(_) => (Ok(TypeExpr { qual: q.qual, prim: PrimType::Bool }), s),
            ValExpr::Pair(a, b) => {
                let (ra, s1) = typecheck_spec(*a, s, d);
                match ra {
                    Err(x) => (Err(x), s1),
                    Ok(ta) => {
                        let (rb, s2) = typecheck_spec(*b, s1, d);
                        match rb {
                            Err(x) => (Err(x), s2),
                            Ok(tb) => if ta.prim is Bool && tb.prim is Bool {
                                (Ok(TypeExpr { qual: q.qual, prim: PrimType::Pair(Box::new(ta), Box::new(tb)) }), s2)
                            } else {
                                (Err(TypeError::PairNotBool), s2)
                            },
                        }
                    },
                }
            },
            ValExpr::Fun(f) => (Ok(TypeExpr { qual: q.qual, prim: PrimType::Fun(Box::new(f)) }), s),
        },
        Expr::Var(x) => match lookup_model(s, x@) {
            None => (Err(TypeError::VariableNotFound(x)), s),
            Some((_, None)) => (Err(TypeError::AlreadyConsumed(x)), s),
            Some((_, Some(t))) => if t.qual == Qual::Un {
                (Ok(t), s)
            } else {
                (Ok(t), tombstone_model(s, x@))
            },
        },
        Expr::App(a) => {
            let (rg, s1) = typecheck_spec(*a.expr2, s, d);
            match rg {
                Err(x) => (Err(x), s1),
                Ok(tg) => {
                    let (rf, s2) = typecheck_spec(*a.expr1, s1, d);
                    match rf {
                        Err(x) => (Err(x), s2),
                        Ok(tf) => match tf.prim {
                            PrimType::Fun(f) => if !type_same(tg, f.ty) {
                                (Err(TypeError::ArgumentMismatch), s2)
                            } else if d == usize::MAX {
                                (Err(TypeError::ScopeTooDeep), s2)
                            } else {
                                let d1 = (d + 1) as usize;
                                let s3 = insert_model(push_model(s2, d1), f.var@, f.ty);
                                let (rb, s4) = typecheck_spec(*f.expr, s3, d1);
                                close_spec(rb, s4, d1)
                            },
                            _ => (Err(TypeError::NotAFunction), s2),
                        },
                    }
                },
            }
        },
        Expr::If(i) => {
            let (rc, s1) = typecheck_spec(*i.cond_expr, s, d);
            match rc {
                Err(x) => (Err(x), s1),
                Ok(tc) => if !(tc.prim is Bool) {
                    (Err(TypeError::CondNotBool), s1)
                } else {
                    let (rt, s2) = typecheck_spec(*i.then_expr, s1, d);
                    match rt {
                        Err(x) => (Err(x), s2),
                        Ok(tt) => {
                            let (re, s3) = typecheck_spec(*i.else_expr, s1, d);
                            match re {
                                Err(x) => (Err(x), s2),
                                Ok(te) => if !type_same(tt, te) {
                                    (Err(TypeError::BranchMismatch), s2)
                                } else if !stacks_agree(s2, s3) {
                                    (Err(TypeError::BranchConsumption), s2)
                                } else {
                                    (Ok(tt), s2)
                                },
                            }
                        },
                    }
                },
            }
        },
        Expr::Split(sp) => {
            let (rp, s1) = typecheck_spec(*sp.expr, s, d);
            match rp {
                Err(x) => (Err(x), s1),
                Ok(tp) => match tp.prim {
                    PrimType::Pair(l, r) => if d == usize::MAX {
                        (Err(TypeError::ScopeTooDeep), s1)
                    } else {
                        let d1 = (d + 1) as usize;
                        let s2 = insert_model(insert_model(push_model(s1, d1), sp.left@, *l), sp.right@, *r);
                        let (rb, s3) = typecheck_spec(*sp.body, s2, d1);
                        close_spec(rb, s3, d1)
                    },
                    _ => (Err(TypeError::NotAPair), s1),
                },
            }
        },
        Expr::Let(l) => {
            let (r1, s1) = typecheck_spec(*l.expr1, s, d);
            match r1 {
                Err(x) => (Err(x), s1),
                Ok(t1) => if d == usize::MAX {
                    (Err(TypeError::ScopeTooDeep), s1)
                } else {
                    let d1 = (d + 1) as usize;
                    let s2 = insert_model(push_model(s1, d1), l.var@, t1);
                    let (rb, s3) = typecheck_spec(*l.expr2, s2, d1);
                    close_spec(rb, s3, d1)
                },
            }
        },
        Expr::Def(df) => {
            let (r1, s1) = typecheck_spec(*df.expr, s, d);
            match r1 {
                Err(x) => (Err(x), s1),
                Ok(t1) => (Ok(t1), insert_model(s1, df.var@, t1)),
            }
        },
        Expr::Free(fr) => match lookup_model(s, fr.var@) {
            Some((_, Some(_))) => typecheck_spec(*fr.expr, tombstone_model(s, fr.var@), d),
            _ => (Err(TypeError::NoVariableToFree(fr.var)), s),
        },
        Expr::Env(v) => typecheck_spec(*v.expr, s, d),
    }
}

fn live_lin(f: &Vec<(String, Option<TypeExpr>)>) -> (r: bool)
    ensures
        r == has_live_lin(frame_view(*f)),
{
    let ghost fv = frame_view(*f);
    let mut i: usize = 0;
    while i < f.len()
        invariant
            i <= f.len(),
            fv == frame_view(*f),
            forall|x: int| 0 <= x < i ==> !live_lin_slot(#[trigger] fv[x].1),
        decreases f.len() - i,
    {
        match &f[i].1 {
            Some(t) => {
                if t.qual == Qual::Lin {
                    assert(live_lin_slot(fv[i as int].1));
                    return true;
                }
            },
            None => {},
        }
        i += 1;
    }
    false
}

fn close_scope(env: &mut TypeEnv, r: Result<TypeExpr, TypeError>, d: usize) -> (out: Result<TypeExpr, TypeError>)
    ensures
        (out, final(env).model()) == close_spec(r, old(env).model(), d),
{
    let f = env.vars.pop(d);
    match r {
        Err(e) => Err(e),
        Ok(t) => match f {
            Some(fr) => if live_lin(&fr) {
                Err(TypeError::LinearNotConsumed)
            } else {
                Ok(t)
            },
            None => Ok(t),
        },
    }
}

/// Type-checks `expr` under `env` at scope depth `depth`, recording in `env`
/// which linear and affine bindings it consumes.
pub fn typecheck(expr: &Expr, env: &mut TypeEnv, depth: usize) -> (r: Result<TypeExpr, TypeError>)
    ensures
        (r, final(env).model()) == typecheck_spec(*expr, old(env).model(), depth),
        fits(old(env).model(), depth) ==> same_depths(old(env).model(), final(env).model()),
    decreases usize::MAX - depth, expr,
{
    proof {
        if fits(old(env).model(), depth) {
            lemma_typecheck_keeps(*expr, old(env).model(), depth, Seq::empty(), depth);
        }
    }
    match expr {
        Expr::QVal(q) => typecheck_qval(q, env, depth),
        Expr::Var(x) => typecheck_var(x, env),
        Expr::App(a) => typecheck_app(a, env, depth),
        Expr::If(i) => typecheck_if(i, env, depth),
        Expr::Split(sp) => typecheck_split(sp, env, depth),
        Expr::Let(l) => typecheck_let(l, env, depth),
        Expr::Def(df) => typecheck_def(df, env, depth),
        Expr::Free(fr) => typecheck_free(fr, env, depth),
        Expr::Env(v) => typecheck(&*v.expr, env, depth),
    }
}

fn typecheck_qval(q: &QValExpr, env: &mut TypeEnv, depth: usize) -> (r: Result<TypeExpr, TypeError>)
    ensures
        (r, final(env).model()) == typecheck_spec(Expr::QVal(*q), old(env).model(), depth),
    decreases usize::MAX - depth, q,
{
    match &q.val {
        ValExpr::Bool(_) => Ok(TypeExpr { qual: q.qual, prim: PrimType::Bool }),
        ValExpr::Pair(a, b) => {
            let ta = typecheck(&**a, env, depth)?;
            let tb = typecheck(&**b, env, depth)?;
            match (&ta.prim, &tb.prim) {
                (PrimType::Bool, PrimType::Bool) => Ok(TypeExpr { qual: q.qual, prim: PrimType::Pair(Box::new(ta), Box::new(tb)) }),
                _ => Err(TypeError::PairNotBool),
            }
        },
        ValExpr::Fun(f) => Ok(TypeExpr { qual: q.qual, prim: PrimType::Fun(Box::new(copy_fn(f))) }),
    }
}

fn typecheck_var(x: &String, env: &mut TypeEnv) -> (r: Result<TypeExpr, TypeError>)
    ensures
        (r, final(env).model()) == typecheck_spec(Expr::Var(*x), old(env).model(), 0),
{
    let t = match env.vars.lookup(x) {
        None => return Err(TypeError::VariableNotFound(x.clone())),
        Some((_, None)) => return Err(TypeError::AlreadyConsumed(x.clone())),
        Some((_, Some(t))) => copy_type(t),
    };
    if t.qual != Qual::Un {
        env.vars.tombstone(x);
    }
    Ok(t)
}

fn typecheck_app(a: &AppExpr, env: &mut TypeEnv, depth: usize) -> (r: Result<TypeExpr, TypeError>)
    ensures
        (r, final(env).model()) == typecheck_spec(Expr::App(*a), old(env).model(), depth),
    decreases usize::MAX - depth, a,
{
    let tg = typecheck(&*a.expr2, env, depth)?;
    let tf = typecheck(&*a.expr1, env, depth)?;
    match tf.prim {
        PrimType::Fun(f) => {
            if !same_type(&tg, &f.ty) {
                return Err(TypeError::ArgumentMismatch);
            }
            if depth == usize::MAX {
                return Err(TypeError::ScopeTooDeep);
            }
            let d1 = depth + 1;
            env.vars.push(d1);
            env.vars.insert(f.var.clone(), copy_type(&f.ty));
            let rb = typecheck(&*f.expr, env, d1);
            close_scope(env, rb, d1)
        },
        _ => Err(TypeError::NotAFunction),
    }
}

fn typecheck_if(i: &IfExpr, env: &mut TypeEnv, depth: usize) -> (r: Result<TypeExpr, TypeError>)
    ensures
        (r, final(env).model()) == typecheck_spec(Expr::If(*i), old(env).model(), depth),
    decreases usize::MAX - depth, i,
{
    let tc = typecheck(&*i.cond_expr, env, depth)?;
    match tc.prim {
        PrimType::Bool => {},
        _ => return Err(TypeError::CondNotBool),
    }
    let mut other = TypeEnv { vars: env.vars.duplicate() };
    let tt = typecheck(&*i.then_expr, env, depth)?;
    let te = match typecheck(&*i.else_expr, &mut other, depth) {
        Ok(t) => t,
        Err(x) => return Err(x),
    };
    if !same_type(&tt, &te) {
        Err(TypeError::BranchMismatch)
    } else if !env.vars.same_as(&other.vars) {
        Err(TypeError::BranchConsumption)
    } else {
        Ok(tt)
    }
}

fn typecheck_split(sp: &SplitExpr, env: &mut TypeEnv, depth: usize) -> (r: Result<TypeExpr, TypeError>)
    ensures
        (r, final(env).model()) == typecheck_spec(Expr::Split(*sp), old(env).model(), depth),
    decreases usize::MAX - depth, sp,
{
    let tp = typecheck(&*sp.expr, env, depth)?;
    match tp.prim {
        PrimType::Pair(l, r) => {
            if depth == usize::MAX {
                return Err(TypeError::ScopeTooDeep);
            }
            let d1 = depth + 1;
            env.vars.push(d1);
            env.vars.insert(sp.left.clone(), *l);
            env.vars.insert(sp.right.clone(), *r);
            let rb = typecheck(&*sp.body, env, d1);
            close_scope(env, rb, d1)
        },
        _ => Err(TypeError::NotAPair),
    }
}

fn typecheck_let(l: &LetExpr, env: &mut TypeEnv, depth: usize) -> (r: Result<TypeExpr, TypeError>)
    ensures
        (r, final(env).model()) == typecheck_spec(Expr::Let(*l), old(env).model(), depth),
    decreases usize::MAX - depth, l,
{
    let t1 = typecheck(&*l.expr1, env, depth)?;
    if depth == usize::MAX {
        return Err(TypeError::ScopeTooDeep);
    }
    let d1 = depth + 1;
    env.vars.push(d1);
    env.vars.insert(l.var.clone(), t1);
    let rb = typecheck(&*l.expr2, env, d1);
    close_scope(env, rb, d1)
}

fn typecheck_def(df: &DefExpr, env: &mut TypeEnv, depth: usize) -> (r: Result<TypeExpr, TypeError>)
    ensures
        (r, final(env).model()) == typecheck_spec(Expr::Def(*df), old(env).model(), depth),
    decreases usize::MAX - depth, df,
{
    let t1 = typecheck(&*df.expr, env, depth)?;
    env.vars.insert(df.var.clone(), copy_type(&t1));
    Ok(t1)
}

fn typecheck_free(fr: &FreeExpr, env: &mut TypeEnv, depth: usize) -> (r: Result<TypeExpr, TypeError>)
    ensures
        (r, final(env).model()) == typecheck_spec(Expr::Free(*fr), old(env).model(), depth),
    decreases usize::MAX - depth, fr,
{
    let live = match env.vars.lookup(&fr.var) {
        Some((_, Some(_))) => true,
        _ => false,
    };
    if !live {
        return Err(TypeError::NoVariableToFree(fr.var.clone()));
    }
    env.vars.tombstone(&fr.var);
    typecheck(&*fr.expr, env, depth)
}

} // verus!
