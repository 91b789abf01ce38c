//! Merge several input sequences into one, under the control of a small
//! pattern language (an "IMEx": an Iterator-Merging-Expression).
//!
//! A pattern is built from single digits (which source to pull from next),
//! parentheses (grouping), `*` (repeat the preceding digit or group until a
//! pass over it yields nothing) and `{n}` (repeat it at most `n` times).
//! Parsing a pattern gives an [`expression::IMEx`]; evaluating it against a
//! list of sources pulls items one at a time, strictly left to right.

pub mod eval;
pub mod expression;
pub mod iter;
pub mod merges;
pub mod parser;
pub mod paste_iter;
pub mod pastes;
pub mod pastex;
pub mod pattern;
pub mod printer;
pub mod quantifier;
pub mod repeater;
pub mod semantics;
pub mod sources;
pub mod zipper;
pub mod zprex;

pub use eval::{AtomEval, MergeError};
pub use expression::{IMEx, IMExVal, QuantifiedIMExVal};
pub use iter::{IMExIter, IMExIterCounter, IMExIterator};
pub use merges::IMExMerges;
pub use parser::{SyntaxError, SyntaxErrorKind};
pub use paste_iter::PasteIter;
pub use pastes::Pastes;
pub use quantifier::Quantifier;
pub use sources::Sources;
