//! A named computation: `measure_fn` runs a closure and hands its result on.

use vstd::prelude::*;

verus! {

/// Runs `f` and returns its result; `ctx` names the computation. The time it
/// takes is not recorded.
pub fn measure_fn<R>(ctx: &str, f: impl FnOnce() -> R) -> (r: R)
    requires
        f.requires(()),
    ensures
        f.ensures((), r),
{
    f()
}

} // verus!
