//! Exit safety of the evaluator: every scope it opens is closed again, on
//! every path that returns.
use vstd::prelude::*;
use crate::ast::{Expr, TypeExpr, ValExpr};
use crate::eval::{callee_fn, eval_spec, ReturnVal};
use crate::laws::{fits, same_depths};
use crate::scope::{
    frame_put, insert_model, lemma_find_frame_bounds, lemma_pop_last, lemma_push_appends,
    tombstone_model, push_model, FrameModel, StackModel,
};

verus! {

proof fn lemma_same_depths_fits(s: StackModel<ReturnVal>, t: StackModel<ReturnVal>, d: usize)
    requires
        fits(s, d),
        same_depths(s, t),
    ensures
        fits(t, d),
{
    assert forall|i: int, j: int| 0 <= i < j < t.len() implies t[i].0 < t[j].0 by {
        assert(t[i].0 == s[i].0);
        assert(t[j].0 == s[j].0);
    }
    assert forall|i: int| 0 <= i < t.len() implies #[trigger] t[i].0 <= d by {
        assert(t[i].0 == s[i].0);
    }
}

proof fn lemma_same_depths_trans(s: StackModel<ReturnVal>, t: StackModel<ReturnVal>, u: StackModel<ReturnVal>)
    requires
        same_depths(s, t),
        same_depths(t, u),
    ensures
        same_depths(s, u),
{
    assert forall|i: int| 0 <= i < s.len() implies #[trigger] u[i].0 == s[i].0 by {
        assert(t[i].0 == s[i].0);
    }
}

proof fn lemma_slot_ops_depths(s: StackModel<ReturnVal>, k: Seq<char>, v: ReturnVal)
    ensures
        same_depths(s, insert_model(s, k, v)),
        same_depths(s, tombstone_model(s, k)),
{
    lemma_find_frame_bounds(s, k);
}

/// A scope one deeper than `d`, opened on `s` with the frame `fr`, around a
/// body that keeps the depths: closing it gives back the depths of `s`.
proof fn lemma_scope_closes(s: StackModel<ReturnVal>, fr: FrameModel<ReturnVal>, s3: StackModel<ReturnVal>, d: usize)
    requires
        fits(s, d),
        d < usize::MAX,
        same_depths(s.push(((d + 1) as usize, fr)), s3),
    ensures
        crate::scope::pop_model(s3, (d + 1) as usize) == s3.drop_last(),
        same_depths(s, s3.drop_last()),
{
    let d1 = (d + 1) as usize;
    let s1 = s.push((d1, fr));
    assert(s3.last().0 == s1.last().0);
    lemma_pop_last(s3, d1);
    assert forall|i: int| 0 <= i < s.len() implies #[trigger] s3.drop_last()[i].0 == s[i].0 by {
        assert(s1[i] == s[i]);
        assert(s3[i].0 == s1[i].0);
    }
}

proof fn lemma_open_fits(s: StackModel<ReturnVal>, fr: FrameModel<ReturnVal>, d: usize)
    requires
        fits(s, d),
        d < usize::MAX,
    ensures
        fits(s.push(((d + 1) as usize, fr)), (d + 1) as usize),
{
    let s1 = s.push(((d + 1) as usize, fr));
    assert forall|i: int, j: int| 0 <= i < j < s1.len() implies s1[i].0 < s1[j].0 by {
        if j == s.len() {} else {}
    }
}

proof fn lemma_push_insert(s: StackModel<ReturnVal>, d: usize, k: Seq<char>, v: ReturnVal)
    requires
        fits(s, d),
        d < usize::MAX,
    ensures
        insert_model(push_model(s, (d + 1) as usize), k, v)
            == s.push(((d + 1) as usize, frame_put(Seq::<(Seq<char>, Option<ReturnVal>)>::empty(), k, Some(v)))),
{
    lemma_push_appends(s, (d + 1) as usize);
    assert(insert_model(push_model(s, (d + 1) as usize), k, v)
        =~= s.push(((d + 1) as usize, frame_put(Seq::<(Seq<char>, Option<ReturnVal>)>::empty(), k, Some(v)))));
}

/// What is claimed of evaluating `e` from `vs` at depth `d`.
spec fn closes_post(e: Expr, ts: StackModel<TypeExpr>, vs: StackModel<ReturnVal>, d: usize) -> bool {
    eval_spec(e, ts, vs, d) matches Some((_, vs2)) ==> same_depths(vs, vs2)
}

proof fn lemma_closes_sub(e: Expr, ts: StackModel<TypeExpr>, vs: StackModel<ReturnVal>, d: usize)
    requires
        fits(vs, d),
        closes_post(e, ts, vs, d),
    ensures
        eval_spec(e, ts, vs, d) matches Some((_, vs2)) ==> fits(vs2, d),
{
    match eval_spec(e, ts, vs, d) {
        Some((_, vs2)) => lemma_same_depths_fits(vs, vs2, d),
        None => {},
    }
}

proof fn lemma_closes_qval(e: Expr, ts: StackModel<TypeExpr>, vs: StackModel<ReturnVal>, d: usize)
    requires
        fits(vs, d),
        e is QVal,
    ensures
        closes_post(e, ts, vs, d),
    decreases usize::MAX - d, e, 0nat,
{
    match e {
        Expr::QVal(q) => match q.val {
            ValExpr::Pair(a, b) => {
                lemma_eval_closes_scopes(*a, ts, vs, d);
                lemma_closes_sub(*a, ts, vs, d);
                match eval_spec(*a, ts, vs, d) {
                    Some((Ok(_), vs1)) => {
                        lemma_eval_closes_scopes(*b, ts, vs1, d);
                        match eval_spec(*b, ts, vs1, d) {
                            Some((_, vs2)) => lemma_same_depths_trans(vs, vs1, vs2),
                            None => {},
                        }
                    },
                    _ => {},
                }
            },
            _ => {},
        },
        _ => {},
    }
}

proof fn lemma_closes_app(e: Expr, ts: StackModel<TypeExpr>, vs: StackModel<ReturnVal>, d: usize)
    requires
        fits(vs, d),
        e is App,
    ensures
        closes_post(e, ts, vs, d),
    decreases usize::MAX - d, e, 0nat,
{
    match e {
        Expr::App(a) => {
            lemma_eval_closes_scopes(*a.expr2, ts, vs, d);
            lemma_closes_sub(*a.expr2, ts, vs, d);
            match eval_spec(*a.expr2, ts, vs, d) {
                Some((Ok(arg), vs1)) => match callee_fn(*a.expr1, vs1) {
                    Some(f) => if d < usize::MAX {
                        let d1 = (d + 1) as usize;
                        lemma_push_insert(vs1, d, f.var@, arg);
                        let fr = frame_put(Seq::<(Seq<char>, Option<ReturnVal>)>::empty(), f.var@, Some(arg));
                        lemma_open_fits(vs1, fr, d);
                        let vs2 = vs1.push((d1, fr));
                        lemma_eval_closes_scopes(*f.expr, ts, vs2, d1);
                        match eval_spec(*f.expr, ts, vs2, d1) {
                            Some((_, vs3)) => {
                                lemma_scope_closes(vs1, fr, vs3, d);
                                lemma_same_depths_trans(vs, vs1, vs3.drop_last());
                            },
                            None => {},
                        }
                    },
                    None => {},
                },
                _ => {},
            }
        },
        _ => {},
    }
}

proof fn lemma_closes_if(e: Expr, ts: StackModel<TypeExpr>, vs: StackModel<ReturnVal>, d: usize)
    requires
        fits(vs, d),
        e is If,
    ensures
        closes_post(e, ts, vs, d),
    decreases usize::MAX - d, e, 0nat,
{
    match e {
        Expr::If(i) => {
            lemma_eval_closes_scopes(*i.cond_expr, ts, vs, d);
            lemma_closes_sub(*i.cond_expr, ts, vs, d);
            match eval_spec(*i.cond_expr, ts, vs, d) {
                Some((Ok(ReturnVal::Bool(c)), vs1)) => {
                    let br = if c { *i.then_expr } else { *i.else_expr };
                    lemma_eval_closes_scopes(br, ts, vs1, d);
                    match eval_spec(br, ts, vs1, d) {
                        Some((_, vs2)) => lemma_same_depths_trans(vs, vs1, vs2),
                        None => {},
                    }
                },
                _ => {},
            }
        },
        _ => {},
    }
}

proof fn lemma_closes_split(e: Expr, ts: StackModel<TypeExpr>, vs: StackModel<ReturnVal>, d: usize)
    requires
        fits(vs, d),
        e is Split,
    ensures
        closes_post(e, ts, vs, d),
    decreases usize::MAX - d, e, 0nat,
{
    match e {
        Expr::Split(sp) => {
            lemma_eval_closes_scopes(*sp.expr, ts, vs, d);
            lemma_closes_sub(*sp.expr, ts, vs, d);
            match eval_spec(*sp.expr, ts, vs, d) {
                Some((Ok(ReturnVal::Pair(l, r)), vs1)) => if d < usize::MAX {
                    let d1 = (d + 1) as usize;
                    lemma_push_insert(vs1, d, sp.left@, ReturnVal::Bool(l));
                    let f1 = frame_put(Seq::<(Seq<char>, Option<ReturnVal>)>::empty(), sp.left@, Some(ReturnVal::Bool(l)));
                    let fr = frame_put(f1, sp.right@, Some(ReturnVal::Bool(r)));
                    assert(insert_model(vs1.push((d1, f1)), sp.right@, ReturnVal::Bool(r)) =~= vs1.push((d1, fr)));
                    lemma_open_fits(vs1, fr, d);
                    let vs2 = vs1.push((d1, fr));
                    lemma_eval_closes_scopes(*sp.body, ts, vs2, d1);
                    match eval_spec(*sp.body, ts, vs2, d1) {
                        Some((_, vs3)) => {
                            lemma_scope_closes(vs1, fr, vs3, d);
                            lemma_same_depths_trans(vs, vs1, vs3.drop_last());
                        },
                        None => {},
                    }
                },
                _ => {},
            }
        },
        _ => {},
    }
}

proof fn lemma_closes_let(e: Expr, ts: StackModel<TypeExpr>, vs: StackModel<ReturnVal>, d: usize)
    requires
        fits(vs, d),
        e is Let,
    ensures
        closes_post(e, ts, vs, d),
    decreases usize::MAX - d, e, 0nat,
{
    match e {
        Expr::Let(l) => {
            lemma_eval_closes_scopes(*l.expr1, ts, vs, d);
            lemma_closes_sub(*l.expr1, ts, vs, d);
            match eval_spec(*l.expr1, ts, vs, d) {
                Some((Ok(v), vs1)) => if d < usize::MAX {
                    let d1 = (d + 1) as usize;
                    lemma_push_insert(vs1, d, l.var@, v);
                    let fr = frame_put(Seq::<(Seq<char>, Option<ReturnVal>)>::empty(), l.var@, Some(v));
                    lemma_open_fits(vs1, fr, d);
                    let vs2 = vs1.push((d1, fr));
                    lemma_eval_closes_scopes(*l.expr2, ts, vs2, d1);
                    match eval_spec(*l.expr2, ts, vs2, d1) {
                        Some((_, vs3)) => {
                            lemma_scope_closes(vs1, fr, vs3, d);
                            lemma_same_depths_trans(vs, vs1, vs3.drop_last());
                        },
                        None => {},
                    }
                },
                _ => {},
            }
        },
        _ => {},
    }
}

proof fn lemma_closes_def(e: Expr, ts: StackModel<TypeExpr>, vs: StackModel<ReturnVal>, d: usize)
    requires
        fits(vs, d),
        e is Def,
    ensures
        closes_post(e, ts, vs, d),
    decreases usize::MAX - d, e, 0nat,
{
    match e {
        Expr::Def(df) => {
            lemma_eval_closes_scopes(*df.expr, ts, vs, d);
            match eval_spec(*df.expr, ts, vs, d) {
                Some((Ok(v), vs1)) => {
                    lemma_slot_ops_depths(vs1, df.var@, v);
                    lemma_same_depths_trans(vs, vs1, insert_model(vs1, df.var@, v));
                },
                _ => {},
            }
        },
        _ => {},
    }
}

proof fn lemma_closes_free(e: Expr, ts: StackModel<TypeExpr>, vs: StackModel<ReturnVal>, d: usize)
    requires
        fits(vs, d),
        e is Free,
    ensures
        closes_post(e, ts, vs, d),
    decreases usize::MAX - d, e, 0nat,
{
    match e {
        Expr::Free(fr) => {
            lemma_slot_ops_depths(vs, fr.var@, ReturnVal::Bool(true));
            let vs1 = tombstone_model(vs, fr.var@);
            lemma_same_depths_fits(vs, vs1, d);
            lemma_eval_closes_scopes(*fr.expr, ts, vs1, d);
            match eval_spec(*fr.expr, ts, vs1, d) {
                Some((_, vs2)) => lemma_same_depths_trans(vs, vs1, vs2),
                None => {},
            }
        },
        _ => {},
    }
}

/// Exit safety: evaluating at depth `d` on frames no deeper than `d`, in
/// depth order, closes every scope it opens, on success and on error alike,
/// so the frames afterwards stand at the same depths as before.
pub proof fn lemma_eval_closes_scopes(e: Expr, ts: StackModel<TypeExpr>, vs: StackModel<ReturnVal>, d: usize)
    requires
        fits(vs, d),
    ensures
        eval_spec(e, ts, vs, d) matches Some((_, vs2)) ==> same_depths(vs, vs2),
    decreases usize::MAX - d, e, 1nat,
{
    match e {
        Expr::QVal(_) => lemma_closes_qval(e, ts, vs, d),
        Expr::Var(x) => lemma_slot_ops_depths(vs, x@, ReturnVal::Bool(true)),
        Expr::App(_) => lemma_closes_app(e, ts, vs, d),
        Expr::If(_) => lemma_closes_if(e, ts, vs, d),
        Expr::Split(_) => lemma_closes_split(e, ts, vs, d),
        Expr::Let(_) => lemma_closes_let(e, ts, vs, d),
        Expr::Def(_) => lemma_closes_def(e, ts, vs, d),
        Expr::Free(_) => lemma_closes_free(e, ts, vs, d),
        Expr::Env(v) => lemma_eval_closes_scopes(*v.expr, ts, vs, d),
    }
}

} // verus!
