//! The strict merge under its other established name.

use vstd::prelude::*;

use crate::paste_iter::PasteIter;

verus! {

/// A strict merge of several sources under an IMEx; see [`PasteIter`].
pub type Zipper<T> = PasteIter<T>;

} // verus!
