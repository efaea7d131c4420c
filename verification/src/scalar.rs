//! Opaque real-valued scalars.
//!
//! Verus has no model of IEEE floating point, so the simulator carries
//! every real-valued quantity as the raw bit pattern of an IEEE-754
//! double. The verified code treats these bits as opaque tokens: it
//! stores them, copies them and compares them, but never does arithmetic
//! on them. The embedding layer converts to and from native doubles at
//! the boundary.

use vstd::prelude::*;

verus! {

/// The bit pattern of an IEEE-754 double, carried opaquely.
#[derive(Clone, Copy, PartialEq, Eq, Structural, Debug)]
pub struct Scalar {
    pub bits: u64,
}

} // verus!
