//! USB 2.0 descriptors
//!
//! # References
//!
//! - Universal Serial Bus Specification Revision 2.0
//! - Universal Serial Bus Class Definitions for Communications Devices Revision 1.2
use vstd::prelude::*;

pub mod cdc;
pub mod config;
pub mod device;
pub mod ep;
pub mod iface;

verus! {
} // verus!
