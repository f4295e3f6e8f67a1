use vstd::prelude::*;

verus! {

/// Lets a value be looked at in the middle of a chain of calls.
pub trait DebugTap<F: Fn(&Self)>: Sized {
    /// Calls `fun` on the value and hands the value back.
    fn debug_tap(self, fun: F) -> (r: Self)
        requires
            fun.requires((&self,)),
        ensures
            r == self,
    ;
}

impl<T, F: Fn(&T)> DebugTap<F> for T {
    fn debug_tap(self, fun: F) -> (r: T) {
        fun(&self);
        self
    }
}

} // verus!
