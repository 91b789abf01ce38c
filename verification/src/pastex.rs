//! The expression types under their other established names.

use vstd::prelude::*;

use crate::expression::{IMEx, IMExVal, QuantifiedIMExVal};

verus! {

/// An atom value, a source reference or a nested group; see [`IMExVal`].
pub type PastexVal = IMExVal;

/// A quantified atom; see [`QuantifiedIMExVal`].
pub type QuantifiedPastexVal = QuantifiedIMExVal;

/// A parsed merge expression; see [`IMEx`].
pub type Pastex = IMEx;

} // verus!
