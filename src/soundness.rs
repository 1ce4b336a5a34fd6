//! Soundness of the checker for expressions without functions: the
//! evaluator never finds a variable consumed or missing in an accepted one.
use vstd::prelude::*;
use crate::ast::{type_same, Expr, PrimType, TypeExpr, ValExpr};
use crate::eval::{eval_spec, EvalError, ReturnVal};
use crate::laws::{fits, lemma_typecheck_keeps};
use crate::scope::{
    entry_agrees, frame_agrees, stacks_agree, find_entry, find_frame, frame_at, frame_put, insert_model, lookup_model, pop_model,
    push_model, slot_for, tombstone_model, FrameModel, StackModel,
};
use crate::typing::{consumes_spec, typecheck_spec};

verus! {

/// `e` holds no function literal and no application.
pub open spec fn first_order(e: Expr) -> bool
    decreases e,
{
    match e {
        Expr::QVal(q) => match q.val {
            ValExpr::Bool(_) => true,
            ValExpr::Pair(a, b) => first_order(*a) && first_order(*b),
            ValExpr::Fun(_) => false,
        },
        Expr::Var(_) => true,
        Expr::App(_) => false,
        Expr::If(i) => first_order(*i.cond_expr) && first_order(*i.then_expr) && first_order(*i.else_expr),
        Expr::Split(sp) => first_order(*sp.expr) && first_order(*sp.body),
        Expr::Let(l) => first_order(*l.expr1) && first_order(*l.expr2),
        Expr::Def(df) => first_order(*df.expr),
        Expr::Free(fr) => first_order(*fr.expr),
        Expr::Env(v) => first_order(*v.expr),
    }
}

/// A value has the shape a type describes.
pub open spec fn has_type(v: ReturnVal, t: TypeExpr) -> bool {
    match (v, t.prim) {
        (ReturnVal::Bool(_), PrimType::Bool) => true,
        (ReturnVal::Pair(_, _), PrimType::Pair(a, b)) => a.prim is Bool && b.prim is Bool,
        (ReturnVal::Fun(_), PrimType::Fun(_)) => true,
        _ => false,
    }
}

/// A live type slot has a live value of that type beside it.
pub open spec fn slot_tracks(t: Option<TypeExpr>, v: Option<ReturnVal>) -> bool {
    match t {
        Some(ty) => v matches Some(x) && has_type(x, ty),
        None => true,
    }
}

/// A value frame has the entries of a type frame, by name and in order, and
/// each live type slot has a live value of its type.
pub open spec fn tracks_frame(tf: FrameModel<TypeExpr>, vf: FrameModel<ReturnVal>) -> bool {
    &&& tf.len() == vf.len()
    &&& forall|j: int| 0 <= j < tf.len() ==> #[trigger] tf[j].0 == vf[j].0
    &&& forall|j: int| 0 <= j < tf.len() ==> slot_tracks(#[trigger] tf[j].1, vf[j].1)
}

/// The value stack follows the type stack frame by frame.
pub open spec fn tracks(ts: StackModel<TypeExpr>, vs: StackModel<ReturnVal>) -> bool {
    &&& ts.len() == vs.len()
    &&& forall|i: int| 0 <= i < ts.len() ==> #[trigger] ts[i].0 == vs[i].0
    &&& forall|i: int| 0 <= i < ts.len() ==> tracks_frame(#[trigger] ts[i].1, vs[i].1)
}

proof fn lemma_find_entry_same(tf: FrameModel<TypeExpr>, vf: FrameModel<ReturnVal>, k: Seq<char>)
    requires
        tracks_frame(tf, vf),
    ensures
        find_entry(tf, k) == find_entry(vf, k),
    decreases tf.len(),
{
    if tf.len() > 0 {
        let n = tf.len() - 1;
        assert(tf[n].0 == vf[n].0);
        let tf2 = tf.drop_last();
        let vf2 = vf.drop_last();
        assert forall|j: int| 0 <= j < tf2.len() implies #[trigger] tf2[j].0 == vf2[j].0 by {
            assert(tf[j].0 == vf[j].0);
        }
        assert forall|j: int| 0 <= j < tf2.len() implies slot_tracks(#[trigger] tf2[j].1, vf2[j].1) by {
            assert(slot_tracks(tf[j].1, vf[j].1));
        }
        lemma_find_entry_same(tf2, vf2, k);
    }
}

proof fn lemma_drop_last_tracks(ts: StackModel<TypeExpr>, vs: StackModel<ReturnVal>)
    requires
        tracks(ts, vs),
        ts.len() > 0,
    ensures
        tracks(ts.drop_last(), vs.drop_last()),
{
    let t2 = ts.drop_last();
    let v2 = vs.drop_last();
    assert forall|i: int| 0 <= i < t2.len() implies #[trigger] t2[i].0 == v2[i].0 by {
        assert(ts[i].0 == vs[i].0);
    }
    assert forall|i: int| 0 <= i < t2.len() implies tracks_frame(#[trigger] t2[i].1, v2[i].1) by {
        assert(tracks_frame(ts[i].1, vs[i].1));
    }
}

proof fn lemma_find_frame_same(ts: StackModel<TypeExpr>, vs: StackModel<ReturnVal>, k: Seq<char>)
    requires
        tracks(ts, vs),
    ensures
        find_frame(ts, k) == find_frame(vs, k),
    decreases ts.len(),
{
    if ts.len() > 0 {
        let n = ts.len() - 1;
        assert(tracks_frame(ts[n].1, vs[n].1));
        lemma_find_entry_same(ts[n].1, vs[n].1, k);
        lemma_drop_last_tracks(ts, vs);
        lemma_find_frame_same(ts.drop_last(), vs.drop_last(), k);
    }
}

proof fn lemma_depth_search_same(ts: StackModel<TypeExpr>, vs: StackModel<ReturnVal>, d: usize)
    requires
        tracks(ts, vs),
    ensures
        frame_at(ts, d) == frame_at(vs, d),
        slot_for(ts, d) == slot_for(vs, d),
    decreases ts.len(),
{
    if ts.len() > 0 {
        let n = ts.len() - 1;
        assert(ts[n].0 == vs[n].0);
        lemma_drop_last_tracks(ts, vs);
        lemma_depth_search_same(ts.drop_last(), vs.drop_last(), d);
    }
}

proof fn lemma_frame_put_tracks(tf: FrameModel<TypeExpr>, vf: FrameModel<ReturnVal>, k: Seq<char>, t: Option<TypeExpr>, v: Option<ReturnVal>)
    requires
        tracks_frame(tf, vf),
        slot_tracks(t, v),
    ensures
        tracks_frame(frame_put(tf, k, t), frame_put(vf, k, v)),
{
    lemma_find_entry_same(tf, vf, k);
    let tg = frame_put(tf, k, t);
    let vg = frame_put(vf, k, v);
    match find_entry(tf, k) {
        Some(j) => {
            crate::scope::lemma_find_entry_bounds(tf, k);
            assert forall|j2: int| 0 <= j2 < tg.len() implies #[trigger] tg[j2].0 == vg[j2].0 by {
                if j2 != j { assert(tf[j2].0 == vf[j2].0); }
            }
            assert forall|j2: int| 0 <= j2 < tg.len() implies slot_tracks(#[trigger] tg[j2].1, vg[j2].1) by {
                if j2 != j { assert(slot_tracks(tf[j2].1, vf[j2].1)); }
            }
        },
        None => {
            assert forall|j2: int| 0 <= j2 < tg.len() implies #[trigger] tg[j2].0 == vg[j2].0 by {
                if j2 < tf.len() { assert(tf[j2].0 == vf[j2].0); }
            }
            assert forall|j2: int| 0 <= j2 < tg.len() implies slot_tracks(#[trigger] tg[j2].1, vg[j2].1) by {
                if j2 < tf.len() { assert(slot_tracks(tf[j2].1, vf[j2].1)); }
            }
        },
    }
}

/// Consuming a type slot alone keeps the tracking.
proof fn lemma_type_tombstone_tracks(tf: FrameModel<TypeExpr>, vf: FrameModel<ReturnVal>, k: Seq<char>)
    requires
        tracks_frame(tf, vf),
        find_entry(tf, k) is Some,
    ensures
        tracks_frame(frame_put(tf, k, None), vf),
{
    crate::scope::lemma_find_entry_bounds(tf, k);
    let j = find_entry(tf, k)->Some_0;
    let tg = frame_put(tf, k, None);
    assert forall|j2: int| 0 <= j2 < tg.len() implies #[trigger] tg[j2].0 == vf[j2].0 by {
        assert(tf[j2].0 == vf[j2].0);
    }
    assert forall|j2: int| 0 <= j2 < tg.len() implies slot_tracks(#[trigger] tg[j2].1, vf[j2].1) by {
        if j2 != j { assert(slot_tracks(tf[j2].1, vf[j2].1)); }
    }
}

proof fn lemma_update_tracks(ts: StackModel<TypeExpr>, vs: StackModel<ReturnVal>, i: int, tfr: (usize, FrameModel<TypeExpr>), vfr: (usize, FrameModel<ReturnVal>))
    requires
        tracks(ts, vs),
        0 <= i < ts.len(),
        tfr.0 == vfr.0,
        tracks_frame(tfr.1, vfr.1),
    ensures
        tracks(ts.update(i, tfr), vs.update(i, vfr)),
{
    let t2 = ts.update(i, tfr);
    let v2 = vs.update(i, vfr);
    assert forall|i2: int| 0 <= i2 < t2.len() implies #[trigger] t2[i2].0 == v2[i2].0 by {
        if i2 != i { assert(ts[i2].0 == vs[i2].0); }
    }
    assert forall|i2: int| 0 <= i2 < t2.len() implies tracks_frame(#[trigger] t2[i2].1, v2[i2].1) by {
        if i2 != i { assert(tracks_frame(ts[i2].1, vs[i2].1)); }
    }
}

proof fn lemma_ops_track(ts: StackModel<TypeExpr>, vs: StackModel<ReturnVal>, k: Seq<char>, t: TypeExpr, v: ReturnVal, d: usize)
    requires
        tracks(ts, vs),
    ensures
        tracks(push_model(ts, d), push_model(vs, d)),
        tracks(pop_model(ts, d), pop_model(vs, d)),
        has_type(v, t) ==> tracks(insert_model(ts, k, t), insert_model(vs, k, v)),
        tracks(tombstone_model(ts, k), tombstone_model(vs, k)),
        tracks(tombstone_model(ts, k), vs),
        lookup_model(ts, k) is Some ==> lookup_model(vs, k) is Some
            && slot_tracks(lookup_model(ts, k)->Some_0.1, lookup_model(vs, k)->Some_0.1),
{
    lemma_depth_search_same(ts, vs, d);
    lemma_find_frame_same(ts, vs, k);
    let i = slot_for(ts, d);
    crate::scope::lemma_slot_for_bounds(ts, d);
    let e0t = Seq::<(Seq<char>, Option<TypeExpr>)>::empty();
    let e0v = Seq::<(Seq<char>, Option<ReturnVal>)>::empty();
    assert(tracks_frame(e0t, e0v));
    if i < ts.len() && ts[i].0 == d {
        lemma_update_tracks(ts, vs, i, (d, e0t), (d, e0v));
    } else {
        let t2 = ts.insert(i, (d, e0t));
        let v2 = vs.insert(i, (d, e0v));
        assert forall|i2: int| 0 <= i2 < t2.len() implies #[trigger] t2[i2].0 == v2[i2].0 by {
            if i2 < i { assert(ts[i2].0 == vs[i2].0); } else if i2 > i { assert(ts[i2 - 1].0 == vs[i2 - 1].0); }
        }
        assert forall|i2: int| 0 <= i2 < t2.len() implies tracks_frame(#[trigger] t2[i2].1, v2[i2].1) by {
            if i2 < i { assert(tracks_frame(ts[i2].1, vs[i2].1)); } else if i2 > i { assert(tracks_frame(ts[i2 - 1].1, vs[i2 - 1].1)); }
        }
    }
    match frame_at(ts, d) {
        Some(i) => {
            crate::scope::lemma_frame_at_bounds(ts, d);
            let t2 = ts.remove(i);
            let v2 = vs.remove(i);
            assert forall|i2: int| 0 <= i2 < t2.len() implies #[trigger] t2[i2].0 == v2[i2].0 by {
                if i2 < i { assert(ts[i2].0 == vs[i2].0); } else { assert(ts[i2 + 1].0 == vs[i2 + 1].0); }
            }
            assert forall|i2: int| 0 <= i2 < t2.len() implies tracks_frame(#[trigger] t2[i2].1, v2[i2].1) by {
                if i2 < i { assert(tracks_frame(ts[i2].1, vs[i2].1)); } else { assert(tracks_frame(ts[i2 + 1].1, vs[i2 + 1].1)); }
            }
        },
        None => {},
    }
    if ts.len() > 0 && has_type(v, t) {
        let n = ts.len() - 1;
        assert(tracks_frame(ts[n].1, vs[n].1));
        lemma_frame_put_tracks(ts[n].1, vs[n].1, k, Some(t), Some(v));
        lemma_update_tracks(ts, vs, n, (ts[n].0, frame_put(ts[n].1, k, Some(t))), (vs[n].0, frame_put(vs[n].1, k, Some(v))));
    }
    match find_frame(ts, k) {
        Some(i) => {
            crate::scope::lemma_find_frame_bounds(ts, k);
            assert(tracks_frame(ts[i].1, vs[i].1));
            lemma_find_entry_same(ts[i].1, vs[i].1, k);
            lemma_frame_put_tracks(ts[i].1, vs[i].1, k, None, None);
            lemma_update_tracks(ts, vs, i, (ts[i].0, frame_put(ts[i].1, k, None)), (vs[i].0, frame_put(vs[i].1, k, None)));
            lemma_type_tombstone_tracks(ts[i].1, vs[i].1, k);
            lemma_update_tracks(ts, vs, i, (ts[i].0, frame_put(ts[i].1, k, None)), vs[i]);
            assert(vs.update(i, vs[i]) =~= vs);
            crate::scope::lemma_find_entry_bounds(ts[i].1, k);
            let j = find_entry(ts[i].1, k)->Some_0;
            assert(slot_tracks(ts[i].1[j].1, vs[i].1[j].1));
        },
        None => {},
    }
}

proof fn lemma_has_type_same(v: ReturnVal, a: TypeExpr, b: TypeExpr)
    requires
        type_same(a, b),
        has_type(v, b),
    ensures
        has_type(v, a),
{
    match (a.prim, b.prim) {
        (PrimType::Pair(a1, a2), PrimType::Pair(b1, b2)) => {
            assert(type_same(*a1, *b1) && type_same(*a2, *b2));
        },
        _ => {},
    }
}

/// Where the branches of an `if` agree, a value stack that follows one
/// follows the other.
proof fn lemma_agree_tracks(s2: StackModel<TypeExpr>, s3: StackModel<TypeExpr>, vs: StackModel<ReturnVal>)
    requires
        stacks_agree(s2, s3),
        tracks(s3, vs),
    ensures
        tracks(s2, vs),
{
    assert forall|i: int| 0 <= i < s2.len() implies #[trigger] s2[i].0 == vs[i].0 by {
        assert(frame_agrees(s2, s3, i));
    }
    assert forall|i: int| 0 <= i < s2.len() implies tracks_frame(#[trigger] s2[i].1, vs[i].1) by {
        assert(frame_agrees(s2, s3, i));
        assert(tracks_frame(s3[i].1, vs[i].1));
        let f = s2[i].1;
        let g = s3[i].1;
        let v = vs[i].1;
        assert forall|j: int| 0 <= j < f.len() implies #[trigger] f[j].0 == v[j].0 by {
            assert(entry_agrees(f, g, j));
            assert(g[j].0 == v[j].0);
        }
        assert forall|j: int| 0 <= j < f.len() implies slot_tracks(#[trigger] f[j].1, v[j].1) by {
            assert(entry_agrees(f, g, j));
            assert(slot_tracks(g[j].1, v[j].1));
            match (f[j].1, g[j].1) {
                (Some(x), Some(y)) => lemma_has_type_same(v[j].1->Some_0, x, y),
                _ => {},
            }
        }
    }
}

/// The type environment that consumes nothing.
pub open spec fn no_types() -> StackModel<TypeExpr> {
    Seq::empty()
}

/// What is claimed of `e` checked under `ts` and evaluated under `vs`.
spec fn sim_post(e: Expr, ts: StackModel<TypeExpr>, vs: StackModel<ReturnVal>, d: usize) -> bool {
    typecheck_spec(e, ts, d).0 is Ok ==> runs_as(eval_spec(e, no_types(), vs, d), typecheck_spec(e, ts, d))
}

/// An evaluation that succeeds with a value of the checked type, leaving
/// values that follow the checked bindings.
pub open spec fn runs_as(
    r: Option<(Result<ReturnVal, EvalError>, StackModel<ReturnVal>)>,
    c: (Result<TypeExpr, crate::typing::TypeError>, StackModel<TypeExpr>),
) -> bool {
    &&& r matches Some((Ok(v), vs2))
    &&& has_type(r->Some_0.0->Ok_0, c.0->Ok_0)
    &&& tracks(c.1, r->Some_0.1)
}

proof fn lemma_nothing_consumed(k: Seq<char>)
    ensures
        !consumes_spec(no_types(), k),
{
    assert(find_frame(no_types(), k) is None);
}

proof fn lemma_sim_qval(e: Expr, ts: StackModel<TypeExpr>, vs: StackModel<ReturnVal>, d: usize)
    requires
        first_order(e),
        tracks(ts, vs),
        e is QVal,
    ensures
        sim_post(e, ts, vs, d),
    decreases e, 0nat,
{
    match e {
        Expr::QVal(q) => match q.val {
            ValExpr::Pair(a, b) => {
                lemma_sim(*a, ts, vs, d);
                let s1 = typecheck_spec(*a, ts, d).1;
                match eval_spec(*a, no_types(), vs, d) {
                    Some((Ok(_), vs1)) => {
                        if typecheck_spec(e, ts, d).0 is Ok {
                            lemma_sim(*b, s1, vs1, d);
                        }
                    },
                    _ => {},
                }
            },
            _ => {},
        },
        _ => {},
    }
}

proof fn lemma_sim_var(e: Expr, ts: StackModel<TypeExpr>, vs: StackModel<ReturnVal>, d: usize)
    requires
        tracks(ts, vs),
        e is Var,
    ensures
        sim_post(e, ts, vs, d),
{
    match e {
        Expr::Var(x) => {
            lemma_ops_track(ts, vs, x@, TypeExpr { qual: crate::ast::Qual::Un, prim: PrimType::Bool }, ReturnVal::Bool(true), d);
            lemma_nothing_consumed(x@);
        },
        _ => {},
    }
}

proof fn lemma_sim_if(e: Expr, ts: StackModel<TypeExpr>, vs: StackModel<ReturnVal>, d: usize)
    requires
        first_order(e),
        tracks(ts, vs),
        e is If,
    ensures
        sim_post(e, ts, vs, d),
    decreases e, 0nat,
{
    match e {
        Expr::If(i) => {
            lemma_sim(*i.cond_expr, ts, vs, d);
            let s1 = typecheck_spec(*i.cond_expr, ts, d).1;
            match eval_spec(*i.cond_expr, no_types(), vs, d) {
                Some((Ok(ReturnVal::Bool(_)), vs1)) => {
                    if typecheck_spec(e, ts, d).0 is Ok {
                        lemma_sim(*i.then_expr, s1, vs1, d);
                        lemma_sim(*i.else_expr, s1, vs1, d);
                        let s2 = typecheck_spec(*i.then_expr, s1, d).1;
                        let s3 = typecheck_spec(*i.else_expr, s1, d).1;
                        match eval_spec(*i.else_expr, no_types(), vs1, d) {
                            Some((Ok(_), vs2)) => lemma_agree_tracks(s2, s3, vs2),
                            _ => {},
                        }
                    }
                },
                _ => {},
            }
        },
        _ => {},
    }
}

proof fn lemma_sim_split(e: Expr, ts: StackModel<TypeExpr>, vs: StackModel<ReturnVal>, d: usize)
    requires
        first_order(e),
        tracks(ts, vs),
        e is Split,
    ensures
        sim_post(e, ts, vs, d),
    decreases e, 0nat,
{
    match e {
        Expr::Split(sp) => {
            lemma_sim(*sp.expr, ts, vs, d);
            let (rp, s1) = typecheck_spec(*sp.expr, ts, d);
            match eval_spec(*sp.expr, no_types(), vs, d) {
                Some((Ok(ReturnVal::Pair(a, b)), vs1)) => {
                    if typecheck_spec(e, ts, d).0 is Ok && d < usize::MAX {
                        let d1 = (d + 1) as usize;
                        let tp = rp->Ok_0;
                        let l = *tp.prim->Pair_0;
                        let r = *tp.prim->Pair_1;
                        lemma_ops_track(s1, vs1, sp.left@, l, ReturnVal::Bool(a), d1);
                        let t1 = push_model(s1, d1);
                        let v1 = push_model(vs1, d1);
                        lemma_ops_track(t1, v1, sp.left@, l, ReturnVal::Bool(a), d1);
                        let t2 = insert_model(t1, sp.left@, l);
                        let v2 = insert_model(v1, sp.left@, ReturnVal::Bool(a));
                        lemma_ops_track(t2, v2, sp.right@, r, ReturnVal::Bool(b), d1);
                        let t3 = insert_model(t2, sp.right@, r);
                        let v3 = insert_model(v2, sp.right@, ReturnVal::Bool(b));
                        lemma_sim(*sp.body, t3, v3, d1);
                        match eval_spec(*sp.body, no_types(), v3, d1) {
                            Some((Ok(_), v4)) => {
                                let t4 = typecheck_spec(*sp.body, t3, d1).1;
                                lemma_ops_track(t4, v4, sp.left@, l, ReturnVal::Bool(a), d1);
                            },
                            _ => {},
                        }
                    }
                },
                _ => {},
            }
        },
        _ => {},
    }
}

proof fn lemma_sim_let(e: Expr, ts: StackModel<TypeExpr>, vs: StackModel<ReturnVal>, d: usize)
    requires
        first_order(e),
        tracks(ts, vs),
        e is Let,
    ensures
        sim_post(e, ts, vs, d),
    decreases e, 0nat,
{
    match e {
        Expr::Let(l) => {
            lemma_sim(*l.expr1, ts, vs, d);
            let (r1, s1) = typecheck_spec(*l.expr1, ts, d);
            match eval_spec(*l.expr1, no_types(), vs, d) {
                Some((Ok(v), vs1)) => {
                    if typecheck_spec(e, ts, d).0 is Ok && d < usize::MAX {
                        let d1 = (d + 1) as usize;
                        let t = r1->Ok_0;
                        lemma_ops_track(s1, vs1, l.var@, t, v, d1);
                        let t1 = push_model(s1, d1);
                        let v1 = push_model(vs1, d1);
                        lemma_ops_track(t1, v1, l.var@, t, v, d1);
                        let t2 = insert_model(t1, l.var@, t);
                        let v2 = insert_model(v1, l.var@, v);
                        lemma_sim(*l.expr2, t2, v2, d1);
                        match eval_spec(*l.expr2, no_types(), v2, d1) {
                            Some((Ok(_), v3)) => {
                                let t3 = typecheck_spec(*l.expr2, t2, d1).1;
                                lemma_ops_track(t3, v3, l.var@, t, v, d1);
                            },
                            _ => {},
                        }
                    }
                },
                _ => {},
            }
        },
        _ => {},
    }
}

proof fn lemma_sim_def(e: Expr, ts: StackModel<TypeExpr>, vs: StackModel<ReturnVal>, d: usize)
    requires
        first_order(e),
        tracks(ts, vs),
        e is Def,
    ensures
        sim_post(e, ts, vs, d),
    decreases e, 0nat,
{
    match e {
        Expr::Def(df) => {
            lemma_sim(*df.expr, ts, vs, d);
            let (r1, s1) = typecheck_spec(*df.expr, ts, d);
            match eval_spec(*df.expr, no_types(), vs, d) {
                Some((Ok(v), vs1)) => {
                    if r1 is Ok {
                        lemma_ops_track(s1, vs1, df.var@, r1->Ok_0, v, d);
                    }
                },
                _ => {},
            }
        },
        _ => {},
    }
}

proof fn lemma_sim_free(e: Expr, ts: StackModel<TypeExpr>, vs: StackModel<ReturnVal>, d: usize)
    requires
        first_order(e),
        tracks(ts, vs),
        e is Free,
    ensures
        sim_post(e, ts, vs, d),
    decreases e, 0nat,
{
    match e {
        Expr::Free(fr) => {
            lemma_ops_track(ts, vs, fr.var@, TypeExpr { qual: crate::ast::Qual::Un, prim: PrimType::Bool }, ReturnVal::Bool(true), d);
            lemma_sim(*fr.expr, tombstone_model(ts, fr.var@), tombstone_model(vs, fr.var@), d);
        },
        _ => {},
    }
}

proof fn lemma_sim(e: Expr, ts: StackModel<TypeExpr>, vs: StackModel<ReturnVal>, d: usize)
    requires
        first_order(e),
        tracks(ts, vs),
    ensures
        sim_post(e, ts, vs, d),
    decreases e, 1nat,
{
    match e {
        Expr::QVal(_) => lemma_sim_qval(e, ts, vs, d),
        Expr::Var(_) => lemma_sim_var(e, ts, vs, d),
        Expr::If(_) => lemma_sim_if(e, ts, vs, d),
        Expr::Split(_) => lemma_sim_split(e, ts, vs, d),
        Expr::Let(_) => lemma_sim_let(e, ts, vs, d),
        Expr::Def(_) => lemma_sim_def(e, ts, vs, d),
        Expr::Free(_) => lemma_sim_free(e, ts, vs, d),
        Expr::Env(v) => lemma_sim(*v.expr, ts, vs, d),
        Expr::App(_) => {},
    }
}

/// Soundness for expressions without functions: when the checker accepts
/// `e` from an empty type environment, evaluating `e` from an empty value
/// environment, with the type environment the checker left behind, neither
/// aborts nor fails (so no variable is ever found missing or consumed), and
/// its value has the shape of the checked type.
pub proof fn lemma_first_order_sound(e: Expr, d: usize)
    requires
        first_order(e),
        typecheck_spec(e, Seq::empty(), d).0 is Ok,
    ensures
        eval_spec(e, typecheck_spec(e, Seq::empty(), d).1, Seq::empty(), d) matches Some((Ok(v), _))
            && has_type(v, typecheck_spec(e, Seq::empty(), d).0->Ok_0),
{
    let e0 = Seq::<(usize, FrameModel<TypeExpr>)>::empty();
    assert(fits(e0, d));
    lemma_typecheck_keeps(e, e0, d, Seq::empty(), d);
    assert(typecheck_spec(e, e0, d).1 =~= no_types());
    assert(tracks(e0, Seq::<(usize, FrameModel<ReturnVal>)>::empty()));
    lemma_sim(e, e0, Seq::empty(), d);
}

} // verus!
