//! A nested-scope store: frames tagged with a depth, each mapping names to a
//! slot that is either filled or tombstoned.
use vstd::prelude::*;
use crate::ast::{copy_type, type_same, same_type, TypeExpr};

verus! {

/// The mathematical model of one frame: its entries, oldest first.
pub type FrameModel<T> = Seq<(Seq<char>, Option<T>)>;

/// The mathematical model of a stack: its frames with their depths, in order.
pub type StackModel<T> = Seq<(usize, FrameModel<T>)>;

/// Index of the entry named `k` in a frame, searching from the newest entry.
pub open spec fn find_entry<T>(f: FrameModel<T>, k: Seq<char>) -> Option<int>
    decreases f.len(),
{
    if f.len() == 0 {
        None
    } else if f.last().0 == k {
        Some(f.len() - 1)
    } else {
        find_entry(f.drop_last(), k)
    }
}

/// Index of the last frame (the deepest) that holds an entry named `k`.
pub open spec fn find_frame<T>(s: StackModel<T>, k: Seq<char>) -> Option<int>
    decreases s.len(),
{
    if s.len() == 0 {
        None
    } else if find_entry(s.last().1, k) is Some {
        Some(s.len() - 1)
    } else {
        find_frame(s.drop_last(), k)
    }
}

/// Index of the frame at depth `d`, searching from the last frame.
pub open spec fn frame_at<T>(s: StackModel<T>, d: usize) -> Option<int>
    decreases s.len(),
{
    if s.len() == 0 {
        None
    } else if s.last().0 == d {
        Some(s.len() - 1)
    } else {
        frame_at(s.drop_last(), d)
    }
}

/// Number of frames, counted from the end, whose depth is at least `d`; the
/// position at which a frame of depth `d` goes is `s.len()` minus that.
pub open spec fn slot_for<T>(s: StackModel<T>, d: usize) -> int
    decreases s.len(),
{
    if s.len() == 0 || s.last().0 < d {
        s.len() as int
    } else {
        slot_for(s.drop_last(), d)
    }
}

/// Depths strictly increase from the first frame to the last.
pub open spec fn sorted<T>(s: StackModel<T>) -> bool {
    forall|i: int, j: int| 0 <= i < j < s.len() ==> s[i].0 < s[j].0
}

/// The stack after an empty frame is created at depth `d` (replacing a frame
/// already at that depth).
pub open spec fn push_model<T>(s: StackModel<T>, d: usize) -> StackModel<T> {
    let i = slot_for(s, d);
    if i < s.len() && s[i].0 == d {
        s.update(i, (d, Seq::empty()))
    } else {
        s.insert(i, (d, Seq::empty()))
    }
}

/// The frame removed by popping depth `d`, if there is one.
pub open spec fn pop_result<T>(s: StackModel<T>, d: usize) -> Option<FrameModel<T>> {
    match frame_at(s, d) {
        Some(i) => Some(s[i].1),
        None => None,
    }
}

/// The stack after the frame at depth `d` is removed.
pub open spec fn pop_model<T>(s: StackModel<T>, d: usize) -> StackModel<T> {
    match frame_at(s, d) {
        Some(i) => s.remove(i),
        None => s,
    }
}

/// A frame where the slot named `k` holds `x`: the existing entry is
/// overwritten, or a new one is added.
pub open spec fn frame_put<T>(f: FrameModel<T>, k: Seq<char>, x: Option<T>) -> FrameModel<T> {
    match find_entry(f, k) {
        Some(j) => f.update(j, (k, x)),
        None => f.push((k, x)),
    }
}

/// The stack after `k` is bound to `v` in the deepest frame; with no frame,
/// nothing changes.
pub open spec fn insert_model<T>(s: StackModel<T>, k: Seq<char>, v: T) -> StackModel<T> {
    if s.len() == 0 {
        s
    } else {
        s.update(s.len() - 1, (s.last().0, frame_put(s.last().1, k, Some(v))))
    }
}

/// The nearest binding of `k`: its depth and its slot.
pub open spec fn lookup_model<T>(s: StackModel<T>, k: Seq<char>) -> Option<(usize, Option<T>)> {
    match find_frame(s, k) {
        Some(i) => Some((s[i].0, s[i].1[find_entry(s[i].1, k)->Some_0].1)),
        None => None,
    }
}

/// The stack after the nearest binding of `k` is tombstoned.
pub open spec fn tombstone_model<T>(s: StackModel<T>, k: Seq<char>) -> StackModel<T> {
    match find_frame(s, k) {
        Some(i) => s.update(i, (s[i].0, frame_put(s[i].1, k, None))),
        None => s,
    }
}

/// The stack after the nearest binding of `k` is detached from its frame.
pub open spec fn remove_model<T>(s: StackModel<T>, k: Seq<char>) -> StackModel<T> {
    match find_frame(s, k) {
        Some(i) => s.update(i, (s[i].0, s[i].1.remove(find_entry(s[i].1, k)->Some_0))),
        None => s,
    }
}

pub proof fn lemma_find_entry_bounds<T>(f: FrameModel<T>, k: Seq<char>)
    ensures
        find_entry(f, k) matches Some(j) ==> 0 <= j < f.len() && f[j].0 == k,
    decreases f.len(),
{
    if f.len() > 0 {
        lemma_find_entry_bounds(f.drop_last(), k);
    }
}

pub proof fn lemma_find_frame_bounds<T>(s: StackModel<T>, k: Seq<char>)
    ensures
        find_frame(s, k) matches Some(i) ==> 0 <= i < s.len() && find_entry(s[i].1, k) is Some,
    decreases s.len(),
{
    if s.len() > 0 {
        lemma_find_frame_bounds(s.drop_last(), k);
    }
}

pub proof fn lemma_frame_at_bounds<T>(s: StackModel<T>, d: usize)
    ensures
        frame_at(s, d) matches Some(i) ==> 0 <= i < s.len() && s[i].0 == d,
    decreases s.len(),
{
    if s.len() > 0 {
        lemma_frame_at_bounds(s.drop_last(), d);
    }
}

pub proof fn lemma_slot_for_bounds<T>(s: StackModel<T>, d: usize)
    ensures
        0 <= slot_for(s, d) <= s.len(),
    decreases s.len(),
{
    if s.len() > 0 {
        lemma_slot_for_bounds(s.drop_last(), d);
    }
}

/// What the frame holds for `k`: `None` when it has no entry for `k`.
pub open spec fn slot_in<T>(f: FrameModel<T>, k: Seq<char>) -> Option<Option<T>> {
    match find_entry(f, k) {
        Some(j) => Some(f[j].1),
        None => None,
    }
}

/// `find_entry` finds the newest entry with the name, and only that.
pub proof fn lemma_find_entry_spec<T>(f: FrameModel<T>, k: Seq<char>)
    ensures
        find_entry(f, k) matches Some(j) ==> 0 <= j < f.len() && f[j].0 == k
            && forall|j2: int| j < j2 < f.len() ==> f[j2].0 != k,
        find_entry(f, k) is None ==> forall|j2: int| 0 <= j2 < f.len() ==> f[j2].0 != k,
    decreases f.len(),
{
    if f.len() > 0 {
        lemma_find_entry_spec(f.drop_last(), k);
        assert forall|j2: int| 0 <= j2 < f.len() - 1 implies f.drop_last()[j2] == f[j2] by {}
    }
}

/// The entry that `find_entry` gives is determined by the names alone.
pub proof fn lemma_find_entry_unique<T>(f: FrameModel<T>, k: Seq<char>, j: int)
    requires
        0 <= j < f.len(),
        f[j].0 == k,
        forall|j2: int| j < j2 < f.len() ==> f[j2].0 != k,
    ensures
        find_entry(f, k) == Some(j),
{
    lemma_find_entry_spec(f, k);
}

/// Putting a slot for `y` leaves what the frame holds for any other name.
pub proof fn lemma_frame_put_slot<T>(f: FrameModel<T>, y: Seq<char>, o: Option<T>, x: Seq<char>)
    ensures
        slot_in(frame_put(f, y, o), x) == if y == x { Some(o) } else { slot_in(f, x) },
{
    let g = frame_put(f, y, o);
    lemma_find_entry_spec(f, y);
    lemma_find_entry_spec(f, x);
    lemma_find_entry_spec(g, x);
    if y == x {
        match find_entry(f, y) {
            Some(j) => lemma_find_entry_unique(g, x, j),
            None => lemma_find_entry_unique(g, x, f.len() as int),
        }
    } else {
        match find_entry(f, x) {
            Some(j) => lemma_find_entry_unique(g, x, j),
            None => {
                assert forall|j2: int| 0 <= j2 < g.len() implies g[j2].0 != x by {
                    if j2 < f.len() {
                        match find_entry(f, y) {
                            Some(jy) => { if j2 == jy {} else { assert(g[j2] == f[j2]); } },
                            None => { assert(g[j2] == f[j2]); },
                        }
                    }
                }
                lemma_find_entry_spec(g, x);
                if find_entry(g, x) is Some {
                    let j = find_entry(g, x)->Some_0;
                    assert(g[j].0 == x);
                }
            },
        }
    }
}

/// `find_frame` finds the last frame holding the name, and only that.
pub proof fn lemma_find_frame_spec<T>(s: StackModel<T>, k: Seq<char>)
    ensures
        find_frame(s, k) matches Some(i) ==> 0 <= i < s.len() && find_entry(s[i].1, k) is Some
            && forall|i2: int| i < i2 < s.len() ==> find_entry(#[trigger] s[i2].1, k) is None,
        find_frame(s, k) is None ==> forall|i2: int| 0 <= i2 < s.len() ==> find_entry(#[trigger] s[i2].1, k) is None,
    decreases s.len(),
{
    if s.len() > 0 {
        lemma_find_frame_spec(s.drop_last(), k);
        assert forall|i2: int| 0 <= i2 < s.len() - 1 implies s.drop_last()[i2] == s[i2] by {}
    }
}

/// With every depth below `d`, pushing `d` appends a frame.
pub proof fn lemma_push_appends<T>(s: StackModel<T>, d: usize)
    requires
        forall|i: int| 0 <= i < s.len() ==> s[i].0 < d,
    ensures
        push_model(s, d) == s.push((d, Seq::<(Seq<char>, Option<T>)>::empty())),
{
    assert(slot_for(s, d) == s.len());
    assert(s.insert(s.len() as int, (d, Seq::<(Seq<char>, Option<T>)>::empty())) =~= s.push((d, Seq::empty())));
}

/// Popping the depth of the last frame, which no other frame has, drops it.
pub proof fn lemma_pop_last<T>(s: StackModel<T>, d: usize)
    requires
        s.len() > 0,
        s.last().0 == d,
    ensures
        pop_model(s, d) == s.drop_last(),
        pop_result(s, d) == Some(s.last().1),
{
    assert(frame_at(s, d) == Some(s.len() - 1));
    assert(s.remove(s.len() - 1) =~= s.drop_last());
}

/// In a sorted stack, `slot_for` splits the frames shallower than `d` from
/// the others.
pub proof fn lemma_slot_for_sorted<T>(s: StackModel<T>, d: usize)
    requires
        sorted(s),
    ensures
        forall|k: int| 0 <= k < slot_for(s, d) ==> s[k].0 < d,
        forall|k: int| slot_for(s, d) <= k < s.len() ==> s[k].0 >= d,
    decreases s.len(),
{
    if s.len() > 0 && s.last().0 >= d {
        assert(sorted(s.drop_last()));
        lemma_slot_for_sorted(s.drop_last(), d);
        lemma_slot_for_bounds(s.drop_last(), d);
        assert forall|k: int| 0 <= k < slot_for(s, d) implies s[k].0 < d by {
            assert(s.drop_last()[k] == s[k]);
        }
        assert forall|k: int| slot_for(s, d) <= k < s.len() implies s[k].0 >= d by {
            if k < s.len() - 1 {
                assert(s.drop_last()[k] == s[k]);
            }
        }
    } else if s.len() > 0 {
        assert forall|k: int| 0 <= k < slot_for(s, d) implies s[k].0 < d by {
            if k < s.len() - 1 {
                assert(s[k].0 < s.last().0);
            }
        }
    }
}

/// Every operation keeps the frames in depth order.
pub proof fn lemma_ops_sorted<T>(s: StackModel<T>, d: usize, k: Seq<char>)
    requires
        sorted(s),
    ensures
        sorted(push_model(s, d)),
        sorted(pop_model(s, d)),
        forall|v: T| sorted(#[trigger] insert_model(s, k, v)),
        sorted(tombstone_model(s, k)),
        sorted(remove_model(s, k)),
{
    lemma_slot_for_sorted(s, d);
    lemma_slot_for_bounds(s, d);
    let i = slot_for(s, d);
    if !(i < s.len() && s[i].0 == d) {
        let t = s.insert(i, (d, Seq::empty()));
        assert forall|a: int, b: int| 0 <= a < b < t.len() implies t[a].0 < t[b].0 by {
            if b < i {
            } else if b == i {
            } else if a < i {
                assert(s[b - 1].0 >= d);
            } else if a == i {
                assert(s[i].0 >= d);
                assert(s[i].0 != d);
                if b - 1 > i {
                    assert(s[i].0 < s[b - 1].0);
                }
            } else {
                assert(s[a - 1].0 < s[b - 1].0);
            }
        }
    }
    match frame_at(s, d) {
        Some(j) => {
            lemma_frame_at_bounds(s, d);
            let t = s.remove(j);
            assert forall|a: int, b: int| 0 <= a < b < t.len() implies t[a].0 < t[b].0 by {
                if a < j && b >= j {
                    assert(s[a].0 < s[b + 1].0);
                } else if a >= j {
                    assert(s[a + 1].0 < s[b + 1].0);
                }
            }
        },
        None => {},
    }
    lemma_find_frame_bounds(s, k);
}

/// Shadowing: a binding made in a new scope deeper than every other hides
/// each outer binding of the same name, and once that scope is closed the
/// stack is as it was, so the outer binding is seen again.
pub proof fn lemma_shadowing<T>(s: StackModel<T>, d: usize, k: Seq<char>, v: T)
    requires
        forall|i: int| 0 <= i < s.len() ==> s[i].0 < d,
    ensures
        lookup_model(insert_model(push_model(s, d), k, v), k) == Some((d, Some(v))),
        pop_model(insert_model(push_model(s, d), k, v), d) == s,
        lookup_model(pop_model(insert_model(push_model(s, d), k, v), d), k) == lookup_model(s, k),
{
    lemma_push_appends(s, d);
    let s1 = push_model(s, d);
    let s2 = insert_model(s1, k, v);
    let f = seq![(k, Some(v))];
    assert(frame_put(Seq::<(Seq<char>, Option<T>)>::empty(), k, Some(v)) =~= f);
    assert(s2 =~= s.push((d, f)));
    assert(find_entry(f, k) == Some(0int));
    assert(find_frame(s2, k) == Some(s.len() as int));
    lemma_pop_last(s2, d);
    assert(s2.drop_last() =~= s);
}

/// The model of a frame held as a vector of named slots.
pub open spec fn frame_view<T>(f: Vec<(String, Option<T>)>) -> FrameModel<T> {
    f@.map_values(|e: (String, Option<T>)| (e.0@, e.1))
}

/// A stack of scopes indexed by depth.
#[derive(Debug)]
pub struct ScopeStack<T> {
    frames: Vec<(usize, Vec<(String, Option<T>)>)>,
}

impl<T> ScopeStack<T> {
    /// The frames, in order, each with its depth and its named slots.
    pub closed spec fn model(&self) -> StackModel<T> {
        self.frames@.map_values(|f: (usize, Vec<(String, Option<T>)>)| (f.0, frame_view(f.1)))
    }

    /// The frames are in depth order, so the last frame is the deepest.
    pub open spec fn wf(&self) -> bool {
        sorted(self.model())
    }

    pub fn new() -> (r: ScopeStack<T>)
        ensures
            r.model() == Seq::<(usize, FrameModel<T>)>::empty(),
            r.wf(),
    {
        let r = ScopeStack { frames: Vec::new() };
        assert(r.model() =~= Seq::<(usize, FrameModel<T>)>::empty());
        r
    }

    /// Position of the nearest binding of `k`: frame index, entry index.
    fn locate(&self, k: &String) -> (r: Option<(usize, usize)>)
        ensures
            r matches Some(p) ==> p.0 < self.frames@.len() && p.1 < self.frames@[p.0 as int].1@.len()
                && find_frame(self.model(), k@) == Some(p.0 as int)
                && find_entry(self.model()[p.0 as int].1, k@) == Some(p.1 as int),
            r is None ==> find_frame(self.model(), k@) is None,
    {
        let ghost m = self.model();
        let mut i: usize = self.frames.len();
        assert(m.take(i as int) =~= m);
        while i > 0
            invariant
                i <= self.frames.len(),
                m == self.model(),
                find_frame(m.take(i as int), k@) == find_frame(m, k@),
            decreases i,
        {
            assert(m.take(i as int).drop_last() =~= m.take(i - 1));
            match find_in_frame(&self.frames[i - 1].1, k) {
                Some(j) => {
                    assert(m[i - 1].1 == frame_view(self.frames@[i - 1].1));
                    return Some((i - 1, j));
                },
                None => {},
            }
            i = i - 1;
        }
        None
    }

    /// Creates an empty frame at depth `d`, in depth order; a frame already at
    /// that depth is replaced.
    pub fn push(&mut self, d: usize)
        ensures
            final(self).model() == push_model(old(self).model(), d),
            old(self).wf() ==> final(self).wf(),
    {
        proof { if old(self).wf() { lemma_ops_sorted(old(self).model(), d, Seq::empty()); } }
        let ghost m = self.model();
        let mut i: usize = self.frames.len();
        assert(m.take(i as int) =~= m);
        while i > 0 && self.frames[i - 1].0 >= d
            invariant
                i <= self.frames.len(),
                m == self.model(),
                slot_for(m.take(i as int), d) == slot_for(m, d),
            decreases i,
        {
            assert(m.take(i as int).drop_last() =~= m.take(i - 1));
            i = i - 1;
        }
        assert(slot_for(m.take(i as int), d) == i);
        let fresh: Vec<(String, Option<T>)> = Vec::new();
        assert(frame_view(fresh) =~= Seq::<(Seq<char>, Option<T>)>::empty());
        if i < self.frames.len() && self.frames[i].0 == d {
            self.frames[i] = (d, fresh);
            assert(self.model() =~= m.update(i as int, (d, Seq::empty())));
        } else {
            self.frames.insert(i, (d, fresh));
            assert(self.model() =~= m.insert(i as int, (d, Seq::empty())));
        }
    }

    /// Removes the frame at depth `d` and returns it, if there is one.
    pub fn pop(&mut self, d: usize) -> (r: Option<Vec<(String, Option<T>)>>)
        ensures
            final(self).model() == pop_model(old(self).model(), d),
            match pop_result(old(self).model(), d) {
                Some(f) => r matches Some(v) && frame_view(v) == f,
                None => r is None,
            },
            old(self).wf() ==> final(self).wf(),
    {
        proof { if old(self).wf() { lemma_ops_sorted(old(self).model(), d, Seq::empty()); } }
        let ghost m = self.model();
        let found = find_depth(&self.frames, d, Ghost(m));
        match found {
            Some(i) => {
                let f = self.frames.remove(i);
                assert(self.model() =~= m.remove(i as int));
                Some(f.1)
            },
            None => None,
        }
    }

    /// Binds `k` to `v` in the deepest frame; without a frame, does nothing.
    pub fn insert(&mut self, k: String, v: T)
        ensures
            final(self).model() == insert_model(old(self).model(), k@, v),
            old(self).wf() ==> final(self).wf(),
    {
        proof { if old(self).wf() { lemma_ops_sorted(old(self).model(), 0, k@); } }
        let ghost m = self.model();
        let n = self.frames.len();
        if n == 0 {
            return;
        }
        let found = find_in_frame(&self.frames[n - 1].1, &k);
        assert(m[n - 1] == (self.frames@[n - 1].0, frame_view(self.frames@[n - 1].1)));
        let ghost kv = k@;
        match found {
            Some(j) => {
                self.frames[n - 1].1[j] = (k, Some(v));
                assert(frame_view(self.frames@[n - 1].1) =~= frame_put(m[n - 1].1, kv, Some(v)));
            },
            None => {
                self.frames[n - 1].1.push((k, Some(v)));
                assert(frame_view(self.frames@[n - 1].1) =~= frame_put(m[n - 1].1, kv, Some(v)));
            },
        }
        assert(self.model() =~= insert_model(m, kv, v));
    }

    /// Tombstones the nearest binding of `k`; returns whether there was one.
    pub fn tombstone(&mut self, k: &String) -> (r: bool)
        ensures
            r == (find_frame(old(self).model(), k@) is Some),
            final(self).model() == tombstone_model(old(self).model(), k@),
            old(self).wf() ==> final(self).wf(),
    {
        proof { if old(self).wf() { lemma_ops_sorted(old(self).model(), 0, k@); } }
        let ghost m = self.model();
        match self.locate(k) {
            Some(p) => {
                let i = p.0;
                let j = p.1;
                assert(m[i as int] == (self.frames@[i as int].0, frame_view(self.frames@[i as int].1)));
                proof { lemma_find_entry_bounds(m[i as int].1, k@); }
                self.frames[i].1[j].1 = None;
                assert(frame_view(self.frames@[i as int].1) =~= frame_put(m[i as int].1, k@, None));
                assert(self.model() =~= tombstone_model(m, k@));
                true
            },
            None => false,
        }
    }

    /// Detaches the nearest binding of `k` from its frame and returns its depth
    /// and slot.
    pub fn remove(&mut self, k: &String) -> (r: Option<(usize, Option<T>)>)
        ensures
            r == lookup_model(old(self).model(), k@),
            final(self).model() == remove_model(old(self).model(), k@),
            old(self).wf() ==> final(self).wf(),
    {
        proof { if old(self).wf() { lemma_ops_sorted(old(self).model(), 0, k@); } }
        let ghost m = self.model();
        match self.locate(k) {
            Some(p) => {
                let i = p.0;
                let j = p.1;
                assert(m[i as int] == (self.frames@[i as int].0, frame_view(self.frames@[i as int].1)));
                let e = self.frames[i].1.remove(j);
                assert(frame_view(self.frames@[i as int].1) =~= m[i as int].1.remove(j as int));
                assert(self.model() =~= remove_model(m, k@));
                Some((self.frames[i].0, e.1))
            },
            None => None,
        }
    }

    /// The nearest binding of `k`, tombstoned or not, with its depth.
    pub fn lookup(&self, k: &String) -> (r: Option<(usize, &Option<T>)>)
        ensures
            match lookup_model(self.model(), k@) {
                Some(p) => r matches Some(q) && q.0 == p.0 && *q.1 == p.1,
                None => r is None,
            },
    {
        let loc = self.locate(k);
        match loc {
            Some(p) => {
                let i = p.0;
                let j = p.1;
                proof {
                    let m = self.model();
                    assert(m[i as int] == (self.frames@[i as int].0, frame_view(self.frames@[i as int].1)));
                    assert(m[i as int].1[j as int] == (self.frames@[i as int].1@[j as int].0@, self.frames@[i as int].1@[j as int].1));
                }
                Some((self.frames[i].0, &self.frames[i].1[j].1))
            },
            None => None,
        }
    }
}

/// Position of the newest entry named `k` in a frame.
fn find_in_frame<T>(f: &Vec<(String, Option<T>)>, k: &String) -> (r: Option<usize>)
    ensures
        r matches Some(j) ==> j < f@.len() && find_entry(frame_view(*f), k@) == Some(j as int),
        r is None ==> find_entry(frame_view(*f), k@) is None,
{
    let ghost fv = frame_view(*f);
    let mut i: usize = f.len();
    assert(fv.take(i as int) =~= fv);
    while i > 0
        invariant
            i <= f.len(),
            fv == frame_view(*f),
            find_entry(fv.take(i as int), k@) == find_entry(fv, k@),
        decreases i,
    {
        assert(fv.take(i as int).drop_last() =~= fv.take(i - 1));
        if f[i - 1].0 == *k {
            return Some(i - 1);
        }
        i = i - 1;
    }
    None
}

/// Position of the frame at depth `d`.
fn find_depth<T>(frames: &Vec<(usize, Vec<(String, Option<T>)>)>, d: usize, Ghost(m): Ghost<StackModel<T>>) -> (r: Option<usize>)
    requires
        m.len() == frames@.len(),
        forall|x: int| 0 <= x < m.len() ==> m[x].0 == frames@[x].0,
    ensures
        r matches Some(j) ==> j < m.len() && frame_at(m, d) == Some(j as int),
        r is None ==> frame_at(m, d) is None,
{
    let mut i: usize = frames.len();
    assert(m.take(i as int) =~= m);
    while i > 0
        invariant
            i <= frames.len(),
            m.len() == frames@.len(),
            forall|x: int| 0 <= x < m.len() ==> m[x].0 == frames@[x].0,
            frame_at(m.take(i as int), d) == frame_at(m, d),
        decreases i,
    {
        assert(m.take(i as int).drop_last() =~= m.take(i - 1));
        if frames[i - 1].0 == d {
            return Some(i - 1);
        }
        i = i - 1;
    }
    None
}

fn copy_slot(s: &Option<TypeExpr>) -> (r: Option<TypeExpr>)
    ensures
        r == *s,
{
    match s {
        Some(t) => Some(copy_type(t)),
        None => None,
    }
}

fn same_slot(a: &Option<TypeExpr>, b: &Option<TypeExpr>) -> (r: bool)
    ensures
        r == slots_agree(*a, *b),
{
    match (a, b) {
        (Some(x), Some(y)) => same_type(x, y),
        (None, None) => true,
        _ => false,
    }
}

fn copy_frame(f: &Vec<(String, Option<TypeExpr>)>) -> (r: Vec<(String, Option<TypeExpr>)>)
    ensures
        r@ == f@,
{
    let mut r: Vec<(String, Option<TypeExpr>)> = Vec::new();
    let mut i: usize = 0;
    while i < f.len()
        invariant
            i <= f.len(),
            r@ == f@.take(i as int),
        decreases f.len() - i,
    {
        r.push((f[i].0.clone(), copy_slot(&f[i].1)));
        assert(f@.take(i + 1) =~= f@.take(i as int).push(f@[i as int]));
        i += 1;
    }
    assert(f@.take(i as int) =~= f@);
    r
}

/// Two type slots agree where the branches of an `if` meet: both consumed,
/// or both live with the same type.
pub open spec fn slots_agree(a: Option<TypeExpr>, b: Option<TypeExpr>) -> bool {
    match (a, b) {
        (None, None) => true,
        (Some(x), Some(y)) => type_same(x, y),
        _ => false,
    }
}

/// The `j`-th entries of two frames have the same name and agreeing slots.
pub open spec fn entry_agrees(f: FrameModel<TypeExpr>, g: FrameModel<TypeExpr>, j: int) -> bool {
    f[j].0 == g[j].0 && slots_agree(f[j].1, g[j].1)
}

/// Two frames hold the same names in the same order, with agreeing slots.
pub open spec fn frames_agree(f: FrameModel<TypeExpr>, g: FrameModel<TypeExpr>) -> bool {
    f.len() == g.len() && forall|j: int| 0 <= j < f.len() ==> #[trigger] entry_agrees(f, g, j)
}

/// The `i`-th frames of two stacks have the same depth and agree.
pub open spec fn frame_agrees(s: StackModel<TypeExpr>, t: StackModel<TypeExpr>, i: int) -> bool {
    s[i].0 == t[i].0 && frames_agree(s[i].1, t[i].1)
}

/// Two stacks have the same frames at the same depths, with agreeing slots.
pub open spec fn stacks_agree(s: StackModel<TypeExpr>, t: StackModel<TypeExpr>) -> bool {
    s.len() == t.len() && forall|i: int| 0 <= i < s.len() ==> #[trigger] frame_agrees(s, t, i)
}

fn same_frame(a: &Vec<(String, Option<TypeExpr>)>, b: &Vec<(String, Option<TypeExpr>)>) -> (r: bool)
    ensures
        r == frames_agree(frame_view(*a), frame_view(*b)),
{
    let ghost fa = frame_view(*a);
    let ghost fb = frame_view(*b);
    if a.len() != b.len() {
        return false;
    }
    let mut i: usize = 0;
    while i < a.len()
        invariant
            i <= a.len(),
            a@.len() == b@.len(),
            fa == frame_view(*a),
            fb == frame_view(*b),
            forall|x: int| 0 <= x < i ==> #[trigger] entry_agrees(fa, fb, x),
        decreases a.len() - i,
    {
        let same_name = a[i].0 == b[i].0;
        let same = same_slot(&a[i].1, &b[i].1);
        assert(fa[i as int].0 == a@[i as int].0@ && fb[i as int].0 == b@[i as int].0@);
        assert(fa[i as int].1 == a@[i as int].1 && fb[i as int].1 == b@[i as int].1);
        if !same_name || !same {
            assert(!entry_agrees(fa, fb, i as int));
            return false;
        }
        assert(entry_agrees(fa, fb, i as int));
        i += 1;
    }
    true
}

impl ScopeStack<TypeExpr> {
    /// A second stack with the same frames and bindings.
    pub fn duplicate(&self) -> (r: Self)
        ensures
            r.model() == self.model(),
    {
        let mut frames: Vec<(usize, Vec<(String, Option<TypeExpr>)>)> = Vec::new();
        let mut i: usize = 0;
        while i < self.frames.len()
            invariant
                i <= self.frames.len(),
                frames@.len() == i,
                forall|x: int| 0 <= x < i ==> frames@[x].0 == self.frames@[x].0
                    && frame_view(frames@[x].1) == frame_view(self.frames@[x].1),
            decreases self.frames.len() - i,
        {
            let f = copy_frame(&self.frames[i].1);
            assert(frame_view(f) =~= frame_view(self.frames@[i as int].1));
            frames.push((self.frames[i].0, f));
            i += 1;
        }
        let r = ScopeStack { frames };
        assert(r.model() =~= self.model());
        r
    }

    /// Whether two stacks agree: same frames and names, agreeing slots.
    pub fn same_as(&self, o: &Self) -> (r: bool)
        ensures
            r == stacks_agree(self.model(), o.model()),
    {
        if self.frames.len() != o.frames.len() {
            return false;
        }
        let ghost m = self.model();
        let ghost n = o.model();
        let mut i: usize = 0;
        while i < self.frames.len()
            invariant
                i <= self.frames.len(),
                self.frames@.len() == o.frames@.len(),
                m == self.model(),
                n == o.model(),
                forall|x: int| 0 <= x < i ==> #[trigger] frame_agrees(m, n, x),
            decreases self.frames.len() - i,
        {
            let same_depth = self.frames[i].0 == o.frames[i].0;
            let same = same_frame(&self.frames[i].1, &o.frames[i].1);
            assert(m[i as int] == (self.frames@[i as int].0, frame_view(self.frames@[i as int].1)));
            assert(n[i as int] == (o.frames@[i as int].0, frame_view(o.frames@[i as int].1)));
            if !same_depth || !same {
                assert(!frame_agrees(m, n, i as int));
                return false;
            }
            assert(frame_agrees(m, n, i as int));
            i += 1;
        }
        true
    }
}

} // verus!
