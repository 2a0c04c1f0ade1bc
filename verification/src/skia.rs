//! Conversion to the graphics backend and its path support.

use vstd::prelude::*;

verus! {

/// Conversion of a drawing value into the graphics backend's type `ST`.
pub trait ToSkia<ST> {
    fn to_skia(&self) -> ST;
}

/// Path hit testing with the graphics backend.
#[derive(Copy, Clone, Debug)]
pub struct PathSupport;

impl Default for PathSupport {
    fn default() -> (support: Self) {
        PathSupport
    }
}

} // verus!
