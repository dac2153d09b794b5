//! Communication Device Class functional descriptors
use vstd::prelude::*;

pub mod acm;
pub mod call;

verus! {

/// `bDescriptorType` of the class-specific interface descriptors
pub const CS_INTERFACE: u8 = 0x24;

/// Subtype of the Header functional descriptor
pub const SUBTYPE_HEADER: u8 = 0x00;
/// Subtype of the Call Management functional descriptor
pub const SUBTYPE_CALL: u8 = 0x01;
/// Subtype of the Abstract Control Management functional descriptor
pub const SUBTYPE_ACM: u8 = 0x02;
/// Subtype of the Union functional descriptor
pub const SUBTYPE_UNION: u8 = 0x06;

} // verus!
