//! What the renderer needs to know of a window.

use vstd::prelude::*;

verus! {

pub trait Window: Send + Sync + 'static {
    /// The size of the window's drawing area in physical pixels.
    fn physical_size(&self) -> (u32, u32);
}

} // verus!
