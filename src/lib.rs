//! Bounded rendering of untrusted documents: the density at which pages are
//! rasterized, the page and byte budgets of the output, the preamble put
//! before the source, and diagnostics as text.
use vstd::prelude::*;

pub mod diagnostic;
pub mod encode;
pub mod output;
pub mod preamble;
pub mod resolution;

verus! {

} // verus!
