//! Bookkeeping for a future collector of bindings that only unreachable
//! closures still refer to. It only records closures; nothing is collected.
use vstd::prelude::*;
use crate::ast::FnExpr;

verus! {

/// A recorded closure and whether a marking pass has reached it.
#[derive(Debug)]
pub struct Object {
    pub closure: FnExpr,
    pub is_marked: bool,
}

/// The closures recorded so far, oldest first.
#[derive(Debug)]
pub struct GC {
    pub closures: Vec<Object>,
}

impl GC {
    /// The recorded closures with their marks.
    pub open spec fn view(&self) -> Seq<(FnExpr, bool)> {
        self.closures@.map_values(|o: Object| (o.closure, o.is_marked))
    }

    pub fn new() -> (r: GC)
        ensures
            r@ == Seq::<(FnExpr, bool)>::empty(),
    {
        let r = GC { closures: Vec::new() };
        assert(r@ =~= Seq::<(FnExpr, bool)>::empty());
        r
    }

    /// Records the closure `c`, unmarked.
    pub fn insert(&mut self, c: FnExpr)
        ensures
            final(self)@ == old(self)@.push((c, false)),
    {
        self.closures.push(Object { closure: c, is_marked: false });
        assert(self@ =~= old(self)@.push((c, false)));
    }
}

} // verus!
