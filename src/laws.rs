//! Laws of the type checker: what it guarantees about linear and affine
//! bindings, proved from its judgment.
use vstd::prelude::*;
use crate::ast::{Expr, LetExpr, PrimType, QValExpr, Qual, TypeExpr, ValExpr};
use crate::scope::{
    find_entry, frame_put, insert_model, lemma_frame_put_slot, lemma_find_frame_spec,
    lemma_pop_last, lemma_push_appends, pop_model, pop_result, push_model, slot_in, sorted,
    tombstone_model, FrameModel, StackModel, find_frame, lookup_model, lemma_find_entry_spec,
};
use crate::typing::{close_spec, has_live_lin, live_lin_slot, typecheck_spec, TypeError};

verus! {

/// `x` occurs free in `e`: read, freed or defined outside every binder of `x`.
pub open spec fn free_in(x: Seq<char>, e: Expr) -> bool
    decreases e,
{
    match e {
        Expr::QVal(q) => match q.val {
            ValExpr::Bool(_) => false,
            ValExpr::Pair(a, b) => free_in(x, *a) || free_in(x, *b),
            ValExpr::Fun(f) => f.var@ != x && free_in(x, *f.expr),
        },
        Expr::Var(y) => y@ == x,
        Expr::App(a) => free_in(x, *a.expr1) || free_in(x, *a.expr2),
        Expr::If(i) => free_in(x, *i.cond_expr) || free_in(x, *i.then_expr) || free_in(x, *i.else_expr),
        Expr::Split(sp) => free_in(x, *sp.expr) || (sp.left@ != x && sp.right@ != x && free_in(x, *sp.body)),
        Expr::Let(l) => free_in(x, *l.expr1) || (l.var@ != x && free_in(x, *l.expr2)),
        Expr::Def(df) => df.var@ == x || free_in(x, *df.expr),
        Expr::Free(fr) => fr.var@ == x || free_in(x, *fr.expr),
        Expr::Env(v) => free_in(x, *v.expr),
    }
}

/// `e` applies no function. A function called at run time may read any name
/// live where it is called, so only expressions without applications are
/// known to leave a name alone when it does not occur in them.
pub open spec fn no_app(e: Expr) -> bool
    decreases e,
{
    match e {
        Expr::QVal(q) => match q.val {
            ValExpr::Bool(_) => true,
            ValExpr::Pair(a, b) => no_app(*a) && no_app(*b),
            ValExpr::Fun(_) => true,
        },
        Expr::Var(_) => true,
        Expr::App(_) => false,
        Expr::If(i) => no_app(*i.cond_expr) && no_app(*i.then_expr) && no_app(*i.else_expr),
        Expr::Split(sp) => no_app(*sp.expr) && no_app(*sp.body),
        Expr::Let(l) => no_app(*l.expr1) && no_app(*l.expr2),
        Expr::Def(df) => no_app(*df.expr),
        Expr::Free(fr) => no_app(*fr.expr),
        Expr::Env(v) => no_app(*v.expr),
    }
}

/// The frames are in depth order and none is deeper than `d`: the shape of
/// the type environment while an expression at depth `d` is checked.
pub open spec fn fits<T>(s: StackModel<T>, d: usize) -> bool {
    sorted(s) && forall|i: int| 0 <= i < s.len() ==> #[trigger] s[i].0 <= d
}

/// Some frame deeper than `d0` holds an entry for `x`.
pub open spec fn shadowed(s: StackModel<TypeExpr>, x: Seq<char>, d0: usize) -> bool {
    exists|i: int| 0 <= i < s.len() && s[i].0 > d0 && #[trigger] find_entry(s[i].1, x) is Some
}

/// Two stacks have the same frames at the same depths.
pub open spec fn same_depths<T>(s: StackModel<T>, t: StackModel<T>) -> bool {
    s.len() == t.len() && forall|i: int| 0 <= i < s.len() ==> #[trigger] t[i].0 == s[i].0
}

/// From `s` to `t`, frames up to depth `d0` hold the same for `x`, and no
/// frame loses its entry for `x`.
pub open spec fn keeps_x(s: StackModel<TypeExpr>, t: StackModel<TypeExpr>, x: Seq<char>, d0: usize) -> bool {
    &&& forall|i: int| 0 <= i < s.len() && s[i].0 <= d0 ==> #[trigger] slot_in(t[i].1, x) == slot_in(s[i].1, x)
    &&& forall|i: int| 0 <= i < s.len() && slot_in(s[i].1, x) is Some ==> #[trigger] slot_in(t[i].1, x) is Some
}

proof fn lemma_slot_some(f: FrameModel<TypeExpr>, x: Seq<char>)
    ensures
        (slot_in(f, x) is Some) == (find_entry(f, x) is Some),
{
}

proof fn lemma_tombstone_keeps(s: StackModel<TypeExpr>, d: usize, y: Seq<char>, x: Seq<char>, d0: usize)
    requires
        fits(s, d),
    ensures
        same_depths(s, tombstone_model(s, y)),
        (y != x || shadowed(s, x, d0)) ==> keeps_x(s, tombstone_model(s, y), x, d0),
{
    let t = tombstone_model(s, y);
    lemma_find_frame_spec(s, y);
    match find_frame(s, y) {
        Some(i) => {
            lemma_frame_put_slot(s[i].1, y, None, x);
            if y != x || shadowed(s, x, d0) {
                if y == x {
                    let k = choose|k: int| 0 <= k < s.len() && s[k].0 > d0 && #[trigger] find_entry(s[k].1, x) is Some;
                    assert(k <= i);
                    assert(s[i].0 >= s[k].0);
                }
                assert forall|i2: int| 0 <= i2 < s.len() && slot_in(s[i2].1, x) is Some implies #[trigger] slot_in(t[i2].1, x) is Some by {
                    if i2 == i {} else { assert(t[i2] == s[i2]); }
                }
                assert forall|i2: int| 0 <= i2 < s.len() && s[i2].0 <= d0 implies #[trigger] slot_in(t[i2].1, x) == slot_in(s[i2].1, x) by {
                    if i2 == i {} else { assert(t[i2] == s[i2]); }
                }
            }
        },
        None => {},
    }
}

proof fn lemma_insert_keeps(s: StackModel<TypeExpr>, d: usize, y: Seq<char>, v: TypeExpr, x: Seq<char>, d0: usize)
    requires
        fits(s, d),
    ensures
        same_depths(s, insert_model(s, y, v)),
        (y != x || shadowed(s, x, d0)) ==> keeps_x(s, insert_model(s, y, v), x, d0),
{
    let t = insert_model(s, y, v);
    if s.len() > 0 {
        let n = s.len() - 1;
        lemma_frame_put_slot(s[n].1, y, Some(v), x);
        if y != x || shadowed(s, x, d0) {
            if y == x {
                let k = choose|k: int| 0 <= k < s.len() && s[k].0 > d0 && #[trigger] find_entry(s[k].1, x) is Some;
                assert(s[n].0 >= s[k].0);
            }
            assert forall|i2: int| 0 <= i2 < s.len() && slot_in(s[i2].1, x) is Some implies #[trigger] slot_in(t[i2].1, x) is Some by {
                if i2 == n {} else { assert(t[i2] == s[i2]); }
            }
            assert forall|i2: int| 0 <= i2 < s.len() && s[i2].0 <= d0 implies #[trigger] slot_in(t[i2].1, x) == slot_in(s[i2].1, x) by {
                if i2 == n {} else { assert(t[i2] == s[i2]); }
            }
        }
    }
}

proof fn lemma_keeps_trans(s: StackModel<TypeExpr>, t: StackModel<TypeExpr>, u: StackModel<TypeExpr>, x: Seq<char>, d0: usize)
    requires
        same_depths(s, t),
        keeps_x(s, t, x, d0),
        keeps_x(t, u, x, d0),
    ensures
        keeps_x(s, u, x, d0),
{
    assert forall|i: int| 0 <= i < s.len() && s[i].0 <= d0 implies #[trigger] slot_in(u[i].1, x) == slot_in(s[i].1, x) by {
        assert(t[i].0 == s[i].0);
    }
    assert forall|i: int| 0 <= i < s.len() && slot_in(s[i].1, x) is Some implies #[trigger] slot_in(u[i].1, x) is Some by {
        assert(slot_in(t[i].1, x) is Some);
    }
}

proof fn lemma_shadowed_stays(s: StackModel<TypeExpr>, t: StackModel<TypeExpr>, x: Seq<char>, d0: usize)
    requires
        same_depths(s, t),
        keeps_x(s, t, x, d0),
        shadowed(s, x, d0),
    ensures
        shadowed(t, x, d0),
{
    let k = choose|k: int| 0 <= k < s.len() && s[k].0 > d0 && #[trigger] find_entry(s[k].1, x) is Some;
    lemma_slot_some(s[k].1, x);
    assert(slot_in(t[k].1, x) is Some);
    lemma_slot_some(t[k].1, x);
    assert(t[k].0 > d0);
}

proof fn lemma_fits_same(s: StackModel<TypeExpr>, t: StackModel<TypeExpr>, d: usize)
    requires
        fits(s, d),
        same_depths(s, t),
    ensures
        fits(t, d),
{
    assert forall|i: int, j: int| 0 <= i < j < t.len() implies t[i].0 < t[j].0 by {
        assert(t[i].0 == s[i].0);
        assert(t[j].0 == s[j].0);
    }
    assert forall|i: int| 0 <= i < t.len() implies #[trigger] t[i].0 <= d by {
        assert(t[i].0 == s[i].0);
    }
}

/// Opening a scope one deeper than `d` binding `y`: the stack gains one
/// frame at the end.
proof fn lemma_open_scope(s: StackModel<TypeExpr>, d: usize, y: Seq<char>, v: TypeExpr)
    requires
        fits(s, d),
        d < usize::MAX,
    ensures
        insert_model(push_model(s, (d + 1) as usize), y, v)
            == s.push(((d + 1) as usize, frame_put(Seq::<(Seq<char>, Option<TypeExpr>)>::empty(), y, Some(v)))),
        fits(insert_model(push_model(s, (d + 1) as usize), y, v), (d + 1) as usize),
{
    let d1 = (d + 1) as usize;
    lemma_push_appends(s, d1);
    let t = insert_model(push_model(s, d1), y, v);
    assert(t =~= s.push((d1, frame_put(Seq::<(Seq<char>, Option<TypeExpr>)>::empty(), y, Some(v)))));
    assert forall|i: int, j: int| 0 <= i < j < t.len() implies t[i].0 < t[j].0 by {
        if j == s.len() {} else {}
    }
}

/// Closing that scope after its body: the frame goes, and what the outer
/// frames hold carries over.
proof fn lemma_close_scope(s: StackModel<TypeExpr>, s1: StackModel<TypeExpr>, s3: StackModel<TypeExpr>, d: usize, x: Seq<char>, d0: usize)
    requires
        fits(s, d),
        d < usize::MAX,
        s1.len() == s.len() + 1,
        forall|i: int| 0 <= i < s.len() ==> #[trigger] s1[i] == s[i],
        s1.last().0 == (d + 1) as usize,
        same_depths(s1, s3),
    ensures
        pop_model(s3, (d + 1) as usize) == s3.drop_last(),
        pop_result(s3, (d + 1) as usize) == Some(s3.last().1),
        same_depths(s, s3.drop_last()),
        keeps_x(s1, s3, x, d0) ==> keeps_x(s, s3.drop_last(), x, d0),
{
    lemma_pop_last(s3, (d + 1) as usize);
    let t = s3.drop_last();
    assert forall|i: int| 0 <= i < s.len() implies #[trigger] t[i].0 == s[i].0 by {
        assert(s1[i] == s[i]);
    }
    if keeps_x(s1, s3, x, d0) {
        assert forall|i: int| 0 <= i < s.len() && s[i].0 <= d0 implies #[trigger] slot_in(t[i].1, x) == slot_in(s[i].1, x) by {
            assert(s1[i] == s[i]);
        }
        assert forall|i: int| 0 <= i < s.len() && slot_in(s[i].1, x) is Some implies #[trigger] slot_in(t[i].1, x) is Some by {
            assert(s1[i] == s[i]);
        }
    }
}

proof fn lemma_step(s: StackModel<TypeExpr>, t: StackModel<TypeExpr>, u: StackModel<TypeExpr>, x: Seq<char>, d0: usize)
    requires
        same_depths(s, t),
        same_depths(t, u),
    ensures
        same_depths(s, u),
        keeps_x(s, t, x, d0) && keeps_x(t, u, x, d0) ==> keeps_x(s, u, x, d0),
{
    assert forall|i: int| 0 <= i < s.len() implies #[trigger] u[i].0 == s[i].0 by {
        assert(t[i].0 == s[i].0);
    }
    if keeps_x(s, t, x, d0) && keeps_x(t, u, x, d0) {
        lemma_keeps_trans(s, t, u, x, d0);
    }
}

proof fn lemma_insert_last(t: StackModel<TypeExpr>, fr: (usize, FrameModel<TypeExpr>), y: Seq<char>, v: TypeExpr)
    ensures
        insert_model(t.push(fr), y, v) == t.push((fr.0, frame_put(fr.1, y, Some(v)))),
{
    assert(insert_model(t.push(fr), y, v) =~= t.push((fr.0, frame_put(fr.1, y, Some(v)))));
}

/// A body checked in a new scope one deeper than `d`, whose frame `fr` was
/// pushed on `s`: what the stack looks like once the scope is closed.
proof fn lemma_scoped_body(body: Expr, s: StackModel<TypeExpr>, fr: FrameModel<TypeExpr>, d: usize, x: Seq<char>, d0: usize)
    requires
        fits(s, d),
        d < usize::MAX,
    ensures
        ({
            let d1 = (d + 1) as usize;
            let s3 = typecheck_spec(body, s.push((d1, fr)), d1).1;
            &&& pop_model(s3, d1) == s3.drop_last()
            &&& pop_result(s3, d1) == Some(s3.last().1)
            &&& same_depths(s, s3.drop_last())
            &&& d0 <= d && no_app(body) && (slot_in(fr, x) is Some || !free_in(x, body) || shadowed(s, x, d0)) ==> keeps_x(s, s3.drop_last(), x, d0)
        }),
    decreases usize::MAX - d - 1, body, 2nat,
{
    let d1 = (d + 1) as usize;
    let s1 = s.push((d1, fr));
    assert forall|i: int, j: int| 0 <= i < j < s1.len() implies s1[i].0 < s1[j].0 by {
        if j == s.len() {} else {}
    }
    assert(fits(s1, d1));
    assert forall|i: int| 0 <= i < s.len() implies #[trigger] s1[i] == s[i] by {}
    if d0 > d {
    } else if slot_in(fr, x) is Some {
        lemma_slot_some(fr, x);
        assert(s1[s.len() as int].0 > d0);
        assert(shadowed(s1, x, d0));
    } else if shadowed(s, x, d0) {
        let k = choose|k: int| 0 <= k < s.len() && s[k].0 > d0 && #[trigger] find_entry(s[k].1, x) is Some;
        assert(s1[k] == s[k]);
        assert(shadowed(s1, x, d0));
    }
    lemma_typecheck_keeps(body, s1, d1, x, d1);
    lemma_typecheck_keeps(body, s1, d1, x, d0);
    let s3 = typecheck_spec(body, s1, d1).1;
    lemma_close_scope(s, s1, s3, d, x, d0);
}

spec fn keeps_post(e: Expr, s: StackModel<TypeExpr>, d: usize, x: Seq<char>, d0: usize) -> bool {
    &&& same_depths(s, typecheck_spec(e, s, d).1)
    &&& d0 <= d && no_app(e) && (!free_in(x, e) || shadowed(s, x, d0)) ==> keeps_x(s, typecheck_spec(e, s, d).1, x, d0)
}

proof fn lemma_keeps_qval(e: Expr, s: StackModel<TypeExpr>, d: usize, x: Seq<char>, d0: usize)
    requires
        fits(s, d),
        e is QVal,
    ensures
        keeps_post(e, s, d, x, d0),
    decreases usize::MAX - d, e, 0nat,
{
    let m = d0 <= d && no_app(e) && (!free_in(x, e) || shadowed(s, x, d0));
    match e {
        Expr::QVal(q) => match q.val {
            ValExpr::Bool(_) => {},
            ValExpr::Pair(a, b) => {
                lemma_typecheck_keeps(*a, s, d, x, d0);
                let s1 = typecheck_spec(*a, s, d).1;
                lemma_fits_same(s, s1, d);
                if m && shadowed(s, x, d0) {
                    lemma_shadowed_stays(s, s1, x, d0);
                }
                lemma_typecheck_keeps(*b, s1, d, x, d0);
                let s2 = typecheck_spec(*b, s1, d).1;
                lemma_step(s, s1, s2, x, d0);
            },
            ValExpr::Fun(_) => {},
        },
        _ => {},
    }
}

proof fn lemma_keeps_var(e: Expr, s: StackModel<TypeExpr>, d: usize, x: Seq<char>, d0: usize)
    requires
        fits(s, d),
        e is Var,
    ensures
        keeps_post(e, s, d, x, d0),
    decreases usize::MAX - d, e, 0nat,
{
    let m = d0 <= d && no_app(e) && (!free_in(x, e) || shadowed(s, x, d0));
    match e {
        Expr::Var(y) => {
            lemma_tombstone_keeps(s, d, y@, x, d0);
        },
        _ => {},
    }
}

proof fn lemma_keeps_app(e: Expr, s: StackModel<TypeExpr>, d: usize, x: Seq<char>, d0: usize)
    requires
        fits(s, d),
        e is App,
    ensures
        keeps_post(e, s, d, x, d0),
    decreases usize::MAX - d, e, 0nat,
{
    match e {
        Expr::App(a) => {
            lemma_typecheck_keeps(*a.expr2, s, d, x, d0);
            let s1 = typecheck_spec(*a.expr2, s, d).1;
            lemma_fits_same(s, s1, d);
            lemma_typecheck_keeps(*a.expr1, s1, d, x, d0);
            let (rf, s2) = typecheck_spec(*a.expr1, s1, d);
            lemma_step(s, s1, s2, x, d0);
            lemma_fits_same(s, s2, d);
            match rf {
                Ok(tf) => match tf.prim {
                    PrimType::Fun(f) => if d < usize::MAX {
                        let d1 = (d + 1) as usize;
                        lemma_open_scope(s2, d, f.var@, f.ty);
                        let fr = frame_put(Seq::<(Seq<char>, Option<TypeExpr>)>::empty(), f.var@, Some(f.ty));
                        lemma_scoped_body(*f.expr, s2, fr, d, x, d0);
                        let s4 = pop_model(typecheck_spec(*f.expr, s2.push((d1, fr)), d1).1, d1);
                        lemma_step(s, s2, s4, x, d0);
                    },
                    _ => {},
                },
                Err(_) => {},
            }
        },
        _ => {},
    }
}

proof fn lemma_keeps_if(e: Expr, s: StackModel<TypeExpr>, d: usize, x: Seq<char>, d0: usize)
    requires
        fits(s, d),
        e is If,
    ensures
        keeps_post(e, s, d, x, d0),
    decreases usize::MAX - d, e, 0nat,
{
    let m = d0 <= d && no_app(e) && (!free_in(x, e) || shadowed(s, x, d0));
    match e {
        Expr::If(i) => {
            lemma_typecheck_keeps(*i.cond_expr, s, d, x, d0);
            let s1 = typecheck_spec(*i.cond_expr, s, d).1;
            lemma_fits_same(s, s1, d);
            if m && shadowed(s, x, d0) {
                lemma_shadowed_stays(s, s1, x, d0);
            }
            lemma_typecheck_keeps(*i.then_expr, s1, d, x, d0);
            let s2 = typecheck_spec(*i.then_expr, s1, d).1;
            lemma_step(s, s1, s2, x, d0);
        },
        _ => {},
    }
}

proof fn lemma_keeps_split(e: Expr, s: StackModel<TypeExpr>, d: usize, x: Seq<char>, d0: usize)
    requires
        fits(s, d),
        e is Split,
    ensures
        keeps_post(e, s, d, x, d0),
    decreases usize::MAX - d, e, 0nat,
{
    let m = d0 <= d && no_app(e) && (!free_in(x, e) || shadowed(s, x, d0));
    match e {
        Expr::Split(sp) => {
            lemma_typecheck_keeps(*sp.expr, s, d, x, d0);
            let s1 = typecheck_spec(*sp.expr, s, d).1;
            lemma_fits_same(s, s1, d);
            if m && shadowed(s, x, d0) {
                lemma_shadowed_stays(s, s1, x, d0);
            }
            match typecheck_spec(*sp.expr, s, d).0 {
                Ok(tp) => match tp.prim {
                    PrimType::Pair(l, r) => if d < usize::MAX {
                        let d1 = (d + 1) as usize;
                        let e0 = Seq::<(Seq<char>, Option<TypeExpr>)>::empty();
                        lemma_open_scope(s1, d, sp.left@, *l);
                        let f1 = frame_put(e0, sp.left@, Some(*l));
                        lemma_insert_last(s1, (d1, f1), sp.right@, *r);
                        let fr = frame_put(f1, sp.right@, Some(*r));
                        lemma_frame_put_slot(e0, sp.left@, Some(*l), x);
                        lemma_frame_put_slot(f1, sp.right@, Some(*r), x);
                        lemma_scoped_body(*sp.body, s1, fr, d, x, d0);
                        let s4 = pop_model(typecheck_spec(*sp.body, s1.push((d1, fr)), d1).1, d1);
                        lemma_step(s, s1, s4, x, d0);
                    },
                    _ => {},
                },
                Err(_) => {},
            }
        },
        _ => {},
    }
}

proof fn lemma_keeps_let(e: Expr, s: StackModel<TypeExpr>, d: usize, x: Seq<char>, d0: usize)
    requires
        fits(s, d),
        e is Let,
    ensures
        keeps_post(e, s, d, x, d0),
    decreases usize::MAX - d, e, 0nat,
{
    let m = d0 <= d && no_app(e) && (!free_in(x, e) || shadowed(s, x, d0));
    match e {
        Expr::Let(l) => {
            lemma_typecheck_keeps(*l.expr1, s, d, x, d0);
            let s1 = typecheck_spec(*l.expr1, s, d).1;
            lemma_fits_same(s, s1, d);
            if m && shadowed(s, x, d0) {
                lemma_shadowed_stays(s, s1, x, d0);
            }
            match typecheck_spec(*l.expr1, s, d).0 {
                Ok(t1) => if d < usize::MAX {
                    let d1 = (d + 1) as usize;
                    let e0 = Seq::<(Seq<char>, Option<TypeExpr>)>::empty();
                    lemma_open_scope(s1, d, l.var@, t1);
                    let fr = frame_put(e0, l.var@, Some(t1));
                    lemma_frame_put_slot(e0, l.var@, Some(t1), x);
                    lemma_scoped_body(*l.expr2, s1, fr, d, x, d0);
                    let s4 = pop_model(typecheck_spec(*l.expr2, s1.push((d1, fr)), d1).1, d1);
                    lemma_step(s, s1, s4, x, d0);
                },
                Err(_) => {},
            }
        },
        _ => {},
    }
}

proof fn lemma_keeps_def(e: Expr, s: StackModel<TypeExpr>, d: usize, x: Seq<char>, d0: usize)
    requires
        fits(s, d),
        e is Def,
    ensures
        keeps_post(e, s, d, x, d0),
    decreases usize::MAX - d, e, 0nat,
{
    let m = d0 <= d && no_app(e) && (!free_in(x, e) || shadowed(s, x, d0));
    match e {
        Expr::Def(df) => {
            lemma_typecheck_keeps(*df.expr, s, d, x, d0);
            let s1 = typecheck_spec(*df.expr, s, d).1;
            lemma_fits_same(s, s1, d);
            if m && shadowed(s, x, d0) {
                lemma_shadowed_stays(s, s1, x, d0);
            }
            match typecheck_spec(*df.expr, s, d).0 {
                Ok(t1) => {
                    lemma_insert_keeps(s1, d, df.var@, t1, x, d0);
                    lemma_step(s, s1, insert_model(s1, df.var@, t1), x, d0);
                },
                Err(_) => {},
            }
        },
        _ => {},
    }
}

proof fn lemma_keeps_free(e: Expr, s: StackModel<TypeExpr>, d: usize, x: Seq<char>, d0: usize)
    requires
        fits(s, d),
        e is Free,
    ensures
        keeps_post(e, s, d, x, d0),
    decreases usize::MAX - d, e, 0nat,
{
    let m = d0 <= d && no_app(e) && (!free_in(x, e) || shadowed(s, x, d0));
    match e {
        Expr::Free(fr) => {
            lemma_tombstone_keeps(s, d, fr.var@, x, d0);
            let s1 = tombstone_model(s, fr.var@);
            lemma_fits_same(s, s1, d);
            if m && shadowed(s, x, d0) {
                lemma_shadowed_stays(s, s1, x, d0);
            }
            lemma_typecheck_keeps(*fr.expr, s1, d, x, d0);
            lemma_step(s, s1, typecheck_spec(*fr.expr, s1, d).1, x, d0);
        },
        _ => {},
    }
}

proof fn lemma_keeps_env(e: Expr, s: StackModel<TypeExpr>, d: usize, x: Seq<char>, d0: usize)
    requires
        fits(s, d),
        e is Env,
    ensures
        keeps_post(e, s, d, x, d0),
    decreases usize::MAX - d, e, 0nat,
{
    let m = d0 <= d && no_app(e) && (!free_in(x, e) || shadowed(s, x, d0));
    match e {
        Expr::Env(v) => {
            lemma_typecheck_keeps(*v.expr, s, d, x, d0);
        },
        _ => {},
    }
}

/// Checking an expression changes no frame's depth; and where `x` is not free
/// in it, or some frame deeper than `d0` binds `x`, the frames up to depth
/// `d0` hold the same for `x` afterwards.
pub proof fn lemma_typecheck_keeps(e: Expr, s: StackModel<TypeExpr>, d: usize, x: Seq<char>, d0: usize)
    requires
        fits(s, d),
    ensures
        same_depths(s, typecheck_spec(e, s, d).1),
        d0 <= d && no_app(e) && (!free_in(x, e) || shadowed(s, x, d0)) ==> keeps_x(s, typecheck_spec(e, s, d).1, x, d0),
    decreases usize::MAX - d, e, 1nat,
{
    match e {
        Expr::QVal(_) => lemma_keeps_qval(e, s, d, x, d0),
        Expr::Var(_) => lemma_keeps_var(e, s, d, x, d0),
        Expr::App(_) => lemma_keeps_app(e, s, d, x, d0),
        Expr::If(_) => lemma_keeps_if(e, s, d, x, d0),
        Expr::Split(_) => lemma_keeps_split(e, s, d, x, d0),
        Expr::Let(_) => lemma_keeps_let(e, s, d, x, d0),
        Expr::Def(_) => lemma_keeps_def(e, s, d, x, d0),
        Expr::Free(_) => lemma_keeps_free(e, s, d, x, d0),
        Expr::Env(_) => lemma_keeps_env(e, s, d, x, d0),
    }
}

/// A result that is a type with qualifier `q`.
pub open spec fn typed_with(r: Result<TypeExpr, TypeError>, q: Qual) -> bool {
    r matches Ok(t) && t.qual == q
}

proof fn lemma_live_slot(f: FrameModel<TypeExpr>, x: Seq<char>, t: TypeExpr)
    requires
        slot_in(f, x) == Some(Some(t)),
        t.qual == Qual::Lin,
    ensures
        has_live_lin(f),
{
    lemma_find_entry_spec(f, x);
    let j = find_entry(f, x)->Some_0;
    assert(live_lin_slot(f[j].1));
}

/// A scope one deeper than `d` whose frame `fr` binds `x` linearly, around a
/// body in which `x` is not free: closing it always fails.
proof fn lemma_unused_in_scope(body: Expr, s: StackModel<TypeExpr>, fr: FrameModel<TypeExpr>, d: usize, x: Seq<char>, t: TypeExpr)
    requires
        fits(s, d),
        d < usize::MAX,
        slot_in(fr, x) == Some(Some(t)),
        t.qual == Qual::Lin,
        !free_in(x, body),
        no_app(body),
    ensures
        ({
            let d1 = (d + 1) as usize;
            let (rb, s3) = typecheck_spec(body, s.push((d1, fr)), d1);
            close_spec(rb, s3, d1).0 is Err
        }),
{
    let d1 = (d + 1) as usize;
    let s2 = s.push((d1, fr));
    assert forall|i: int, j: int| 0 <= i < j < s2.len() implies s2[i].0 < s2[j].0 by {
        if j == s.len() {} else {}
    }
    lemma_typecheck_keeps(body, s2, d1, x, d1);
    let (rb, s3) = typecheck_spec(body, s2, d1);
    let n = s.len() as int;
    assert(s2[n].0 <= d1);
    assert(slot_in(s3[n].1, x) == slot_in(s2[n].1, x));
    lemma_pop_last(s3, d1);
    if rb is Ok {
        lemma_live_slot(s3.last().1, x, t);
    }
}

proof fn lemma_bound_alone(x: Seq<char>, t: TypeExpr)
    ensures
        slot_in(frame_put(Seq::<(Seq<char>, Option<TypeExpr>)>::empty(), x, Some(t)), x) == Some(Some(t)),
{
    lemma_frame_put_slot(Seq::<(Seq<char>, Option<TypeExpr>)>::empty(), x, Some(t), x);
}

/// Linear completeness for `let`: when the bound expression has a linear
/// type and the body never reads, frees or redefines the name and applies
/// no function, the checker rejects the expression.
pub proof fn lemma_unused_linear_let_rejected(l: LetExpr, s: StackModel<TypeExpr>, d: usize)
    requires
        fits(s, d),
        typed_with(typecheck_spec(*l.expr1, s, d).0, Qual::Lin),
        !free_in(l.var@, *l.expr2),
        no_app(*l.expr2),
    ensures
        typecheck_spec(Expr::Let(l), s, d).0 is Err,
{
    lemma_typecheck_keeps(*l.expr1, s, d, l.var@, d);
    let (r1, s1) = typecheck_spec(*l.expr1, s, d);
    lemma_fits_same(s, s1, d);
    if d < usize::MAX {
        let t1 = r1->Ok_0;
        lemma_open_scope(s1, d, l.var@, t1);
        lemma_bound_alone(l.var@, t1);
        lemma_unused_in_scope(*l.expr2, s1, frame_put(Seq::<(Seq<char>, Option<TypeExpr>)>::empty(), l.var@, Some(t1)), d, l.var@, t1);
    }
}

/// Linear completeness for functions: applying a function literal whose
/// parameter is linear, and whose body never reads, frees or redefines the
/// parameter and applies no function, is rejected.
pub proof fn lemma_unused_linear_parameter_rejected(q: QValExpr, arg: Expr, s: StackModel<TypeExpr>, d: usize)
    requires
        fits(s, d),
        q.val is Fun,
        q.val->Fun_0.ty.qual == Qual::Lin,
        !free_in(q.val->Fun_0.var@, *q.val->Fun_0.expr),
        no_app(*q.val->Fun_0.expr),
    ensures
        typecheck_spec(
            Expr::App(crate::ast::AppExpr { expr1: Box::new(Expr::QVal(q)), expr2: Box::new(arg) }),
            s,
            d,
        ).0 is Err,
{
    let f = q.val->Fun_0;
    lemma_typecheck_keeps(arg, s, d, f.var@, d);
    let s1 = typecheck_spec(arg, s, d).1;
    lemma_fits_same(s, s1, d);
    assert(typecheck_spec(Expr::QVal(q), s1, d)
        == (Ok::<TypeExpr, TypeError>(TypeExpr { qual: q.qual, prim: PrimType::Fun(Box::new(f)) }), s1));
    if d < usize::MAX {
        let d1 = (d + 1) as usize;
        lemma_open_scope(s1, d, f.var@, f.ty);
        lemma_bound_alone(f.var@, f.ty);
        let fr = frame_put(Seq::<(Seq<char>, Option<TypeExpr>)>::empty(), f.var@, Some(f.ty));
        lemma_unused_in_scope(*f.expr, s1, fr, d, f.var@, f.ty);
        assert(insert_model(push_model(s1, d1), f.var@, f.ty) == s1.push((d1, fr)));
    }
}

/// Linear completeness for `split`: a component of linear type whose name
/// the body never reads, frees or redefines makes the checker reject the
/// expression (the two names being distinct, and the body applying no
/// function).
pub proof fn lemma_unused_linear_split_rejected(sp: crate::ast::SplitExpr, s: StackModel<TypeExpr>, d: usize, left_side: bool)
    requires
        fits(s, d),
        sp.left@ != sp.right@,
        typecheck_spec(*sp.expr, s, d).0 matches Ok(tp) && tp.prim matches PrimType::Pair(l, r)
            && (if left_side { l.qual == Qual::Lin } else { r.qual == Qual::Lin }),
        !free_in(if left_side { sp.left@ } else { sp.right@ }, *sp.body),
        no_app(*sp.body),
    ensures
        typecheck_spec(Expr::Split(sp), s, d).0 is Err,
{
    let x = if left_side { sp.left@ } else { sp.right@ };
    lemma_typecheck_keeps(*sp.expr, s, d, x, d);
    let (rp, s1) = typecheck_spec(*sp.expr, s, d);
    lemma_fits_same(s, s1, d);
    if d < usize::MAX {
        let d1 = (d + 1) as usize;
        let tp = rp->Ok_0;
        let l = *tp.prim->Pair_0;
        let r = *tp.prim->Pair_1;
        let e0 = Seq::<(Seq<char>, Option<TypeExpr>)>::empty();
        lemma_open_scope(s1, d, sp.left@, l);
        let f1 = frame_put(e0, sp.left@, Some(l));
        lemma_insert_last(s1, (d1, f1), sp.right@, r);
        let fr = frame_put(f1, sp.right@, Some(r));
        lemma_frame_put_slot(e0, sp.left@, Some(l), x);
        lemma_frame_put_slot(f1, sp.right@, Some(r), x);
        lemma_unused_in_scope(*sp.body, s1, fr, d, x, if left_side { l } else { r });
    }
}

/// A frame that holds one entry, for `x`, has a live linear binding exactly
/// when that entry is one.
proof fn lemma_single_entry(f: FrameModel<TypeExpr>, x: Seq<char>, o: Option<TypeExpr>)
    requires
        f.len() == 1,
        slot_in(f, x) == Some(o),
    ensures
        has_live_lin(f) == live_lin_slot(o),
{
    lemma_find_entry_spec(f, x);
    if has_live_lin(f) {
        let j = choose|j: int| 0 <= j < f.len() && live_lin_slot(#[trigger] f[j].1);
        assert(j == 0);
    }
    if live_lin_slot(o) {
        assert(live_lin_slot(f[0].1));
    }
}

/// Explicit free: in `let x = e1; free x; e2` with `x` not free in `e2` and
/// no application in `e2`, the
/// scope of `x` closes with `x` consumed, so `x` is never what the
/// scope-closing check objects to, though it was never read: where nothing
/// else was defined into that scope, the `let` gives exactly what its body
/// gives.
pub proof fn lemma_free_discharges(l: LetExpr, s: StackModel<TypeExpr>, d: usize)
    requires
        fits(s, d),
        d < usize::MAX,
        typecheck_spec(*l.expr1, s, d).0 is Ok,
        *l.expr2 matches Expr::Free(fr) && fr.var@ == l.var@ && !free_in(l.var@, *fr.expr) && no_app(*fr.expr),
    ensures
        ({
            let d1 = (d + 1) as usize;
            let (r1, s1) = typecheck_spec(*l.expr1, s, d);
            let s2 = insert_model(push_model(s1, d1), l.var@, r1->Ok_0);
            let (rb, s3) = typecheck_spec(*l.expr2, s2, d1);
            &&& typecheck_spec(Expr::Let(l), s, d) == close_spec(rb, s3, d1)
            &&& pop_result(s3, d1) matches Some(f) && slot_in(f, l.var@) == Some(None::<TypeExpr>)
            &&& pop_result(s3, d1)->Some_0.len() == 1 ==> typecheck_spec(Expr::Let(l), s, d).0 == rb
        }),
{
    let x = l.var@;
    let d1 = (d + 1) as usize;
    lemma_typecheck_keeps(*l.expr1, s, d, x, d);
    let (r1, s1) = typecheck_spec(*l.expr1, s, d);
    lemma_fits_same(s, s1, d);
    let t1 = r1->Ok_0;
    lemma_open_scope(s1, d, x, t1);
    let e0 = Seq::<(Seq<char>, Option<TypeExpr>)>::empty();
    let fr0 = frame_put(e0, x, Some(t1));
    lemma_bound_alone(x, t1);
    let s2 = s1.push((d1, fr0));
    let fe = (*l.expr2)->Free_0;
    let n = s1.len() as int;
    lemma_find_frame_spec(s2, x);
    lemma_slot_some(fr0, x);
    assert(find_frame(s2, x) == Some(n));
    assert(lookup_model(s2, x) is Some);
    let s2t = tombstone_model(s2, x);
    lemma_frame_put_slot(fr0, x, None, x);
    assert(s2t == s1.push((d1, frame_put(fr0, x, None))));
    assert forall|i: int, j: int| 0 <= i < j < s2t.len() implies s2t[i].0 < s2t[j].0 by {
        if j == n {} else {}
    }
    lemma_typecheck_keeps(*fe.expr, s2t, d1, x, d1);
    let s3 = typecheck_spec(*fe.expr, s2t, d1).1;
    assert(s2t[n].0 <= d1);
    assert(slot_in(s3[n].1, x) == slot_in(s2t[n].1, x));
    lemma_pop_last(s3, d1);
    if s3.last().1.len() == 1 {
        lemma_single_entry(s3.last().1, x, None::<TypeExpr>);
    }
}

/// Affine permissiveness, never read: in `let x = e1; e2` where `e1` has an
/// affine type, `x` is not free in `e2` and `e2` applies no function, the
/// scope of `x` closes with `x`
/// still live, and a live affine slot is not what the scope-closing check
/// objects to: where nothing else was defined into that scope, the `let`
/// gives exactly what its body gives.
pub proof fn lemma_unused_affine_allowed(l: LetExpr, s: StackModel<TypeExpr>, d: usize)
    requires
        fits(s, d),
        d < usize::MAX,
        typed_with(typecheck_spec(*l.expr1, s, d).0, Qual::Aff),
        !free_in(l.var@, *l.expr2),
        no_app(*l.expr2),
    ensures
        ({
            let d1 = (d + 1) as usize;
            let (r1, s1) = typecheck_spec(*l.expr1, s, d);
            let s2 = insert_model(push_model(s1, d1), l.var@, r1->Ok_0);
            let (rb, s3) = typecheck_spec(*l.expr2, s2, d1);
            &&& typecheck_spec(Expr::Let(l), s, d) == close_spec(rb, s3, d1)
            &&& pop_result(s3, d1) matches Some(f) && slot_in(f, l.var@) == Some(Some(r1->Ok_0))
            &&& !live_lin_slot(Some(r1->Ok_0))
            &&& pop_result(s3, d1)->Some_0.len() == 1 ==> typecheck_spec(Expr::Let(l), s, d).0 == rb
        }),
{
    let x = l.var@;
    let d1 = (d + 1) as usize;
    lemma_typecheck_keeps(*l.expr1, s, d, x, d);
    let (r1, s1) = typecheck_spec(*l.expr1, s, d);
    lemma_fits_same(s, s1, d);
    let t1 = r1->Ok_0;
    lemma_open_scope(s1, d, x, t1);
    lemma_bound_alone(x, t1);
    let fr0 = frame_put(Seq::<(Seq<char>, Option<TypeExpr>)>::empty(), x, Some(t1));
    let s2 = s1.push((d1, fr0));
    let n = s1.len() as int;
    assert forall|i: int, j: int| 0 <= i < j < s2.len() implies s2[i].0 < s2[j].0 by {
        if j == n {} else {}
    }
    lemma_typecheck_keeps(*l.expr2, s2, d1, x, d1);
    let s3 = typecheck_spec(*l.expr2, s2, d1).1;
    assert(s2[n].0 <= d1);
    assert(slot_in(s3[n].1, x) == slot_in(s2[n].1, x));
    lemma_pop_last(s3, d1);
    if s3.last().1.len() == 1 {
        lemma_single_entry(s3.last().1, x, Some(t1));
    }
}

/// The stack just inside `let x = e1`, where `e1` gave `t1`: the frame of the
/// `let` holds `x` alone, and reading `x` finds it there.
proof fn lemma_let_frame(s1: StackModel<TypeExpr>, d: usize, x: Seq<char>, t1: TypeExpr)
    requires
        fits(s1, d),
        d < usize::MAX,
    ensures
        ({
            let d1 = (d + 1) as usize;
            let s2 = insert_model(push_model(s1, d1), x, t1);
            let s2t = tombstone_model(s2, x);
            &&& s2 == s1.push((d1, seq![(x, Some(t1))]))
            &&& lookup_model(s2, x) == Some((d1, Some(t1)))
            &&& s2t == s1.push((d1, seq![(x, None::<TypeExpr>)]))
            &&& lookup_model(s2t, x) == Some((d1, None::<TypeExpr>))
        }),
{
    let d1 = (d + 1) as usize;
    lemma_open_scope(s1, d, x, t1);
    let e0 = Seq::<(Seq<char>, Option<TypeExpr>)>::empty();
    let fr0 = frame_put(e0, x, Some(t1));
    assert(fr0 =~= seq![(x, Some(t1))]);
    let s2 = s1.push((d1, fr0));
    let n = s1.len() as int;
    assert(find_entry(fr0, x) == Some(0int));
    assert(find_frame(s2, x) == Some(n));
    let fr1 = seq![(x, None::<TypeExpr>)];
    assert(frame_put(fr0, x, None) =~= fr1);
    let s2t = tombstone_model(s2, x);
    assert(s2t =~= s1.push((d1, fr1)));
    assert(find_entry(fr1, x) == Some(0int));
    assert(find_frame(s2t, x) == Some(n));
}

/// Affine permissiveness, read once: `let x = e1; x` with `e1` of an affine
/// type is accepted, with the type of `e1`.
pub proof fn lemma_affine_read_once(l: LetExpr, s: StackModel<TypeExpr>, d: usize)
    requires
        fits(s, d),
        d < usize::MAX,
        typed_with(typecheck_spec(*l.expr1, s, d).0, Qual::Aff),
        *l.expr2 == Expr::Var(l.var),
    ensures
        typecheck_spec(Expr::Let(l), s, d).0 == typecheck_spec(*l.expr1, s, d).0,
{
    let x = l.var@;
    let d1 = (d + 1) as usize;
    lemma_typecheck_keeps(*l.expr1, s, d, x, d);
    let (r1, s1) = typecheck_spec(*l.expr1, s, d);
    lemma_fits_same(s, s1, d);
    let t1 = r1->Ok_0;
    lemma_let_frame(s1, d, x, t1);
    let s2 = insert_model(push_model(s1, d1), x, t1);
    let s2t = s1.push((d1, seq![(x, None::<TypeExpr>)]));
    assert(t1.qual != Qual::Un);
    assert(typecheck_spec(*l.expr2, s2, d1) == (Ok::<TypeExpr, TypeError>(t1), tombstone_model(s2, x)));
    lemma_pop_last(s2t, d1);
    let f = seq![(x, None::<TypeExpr>)];
    assert(!has_live_lin(f)) by {
        assert forall|j: int| 0 <= j < f.len() implies !live_lin_slot(#[trigger] f[j].1) by {}
    }
    assert(close_spec(Ok(t1), s2t, d1).0 == Ok::<TypeExpr, TypeError>(t1));
}

/// Reading twice: `let x = e1; <x, x>` with `e1` of a linear or affine type
/// is rejected because the second read finds `x` consumed.
pub proof fn lemma_read_twice_rejected(l: LetExpr, q: Qual, s: StackModel<TypeExpr>, d: usize)
    requires
        fits(s, d),
        d < usize::MAX,
        typecheck_spec(*l.expr1, s, d).0 matches Ok(t) && t.qual != Qual::Un,
        *l.expr2 == Expr::QVal(QValExpr {
            qual: q,
            val: ValExpr::Pair(Box::new(Expr::Var(l.var)), Box::new(Expr::Var(l.var))),
        }),
    ensures
        typecheck_spec(Expr::Let(l), s, d).0 == Err::<TypeExpr, TypeError>(TypeError::AlreadyConsumed(l.var)),
{
    let x = l.var@;
    let d1 = (d + 1) as usize;
    lemma_typecheck_keeps(*l.expr1, s, d, x, d);
    let (r1, s1) = typecheck_spec(*l.expr1, s, d);
    lemma_fits_same(s, s1, d);
    let t1 = r1->Ok_0;
    lemma_let_frame(s1, d, x, t1);
    let s2 = insert_model(push_model(s1, d1), x, t1);
    let s2t = tombstone_model(s2, x);
    let a = Expr::Var(l.var);
    assert(typecheck_spec(a, s2, d1) == (Ok::<TypeExpr, TypeError>(t1), s2t));
    assert(typecheck_spec(a, s2t, d1) == (Err::<TypeExpr, TypeError>(TypeError::AlreadyConsumed(l.var)), s2t));
    let (rb, s3) = typecheck_spec(*l.expr2, s2, d1);
    assert(rb == Err::<TypeExpr, TypeError>(TypeError::AlreadyConsumed(l.var)));
}

} // verus!
