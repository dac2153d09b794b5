//! Communication Device Class functional descriptors
use vstd::prelude::*;

pub mod header;
pub mod union;

verus! {
} // verus!
