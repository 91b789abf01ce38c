//! The repeat-count control under its other established name.

use vstd::prelude::*;

use crate::quantifier::Quantifier;

verus! {

/// A repeat count, finite or unbounded; see [`Quantifier`].
pub type Repeater = Quantifier;

} // verus!
