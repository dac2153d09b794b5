//! Call Management functional descriptor
use vstd::prelude::*;

use crate::usbd::cdc::{CS_INTERFACE, SUBTYPE_CALL};

verus! {

/// Call Management functional descriptor
#[allow(non_snake_case)]
#[derive(Clone, Copy)]
pub struct Desc {
    /// Capabilities
    pub bmCapabilities: Capabilities,
    /// Interface of the Data Class interface
    pub bDataInterface: u8,
}

/// Capabilities
#[derive(Clone, Copy)]
pub struct Capabilities {
    /// Device handles call management itself
    pub call_management: bool,
    /// Device can send/receive call management information over a Data Class interface
    pub data_class: bool,
}

impl Capabilities {
    /// The capabilities as a bit field: bit 0 for `call_management`, bit 1 for `data_class`.
    pub open spec fn byte_spec(&self) -> u8 {
        (if self.call_management { 1u8 } else { 0u8 }) | (if self.data_class { 2u8 } else { 0u8 })
    }

    /// The capabilities as a bit field.
    pub fn byte(&self) -> (r: u8)
        ensures
            r == self.byte_spec(),
    {
        (if self.call_management { 1u8 } else { 0u8 }) | (if self.data_class { 2u8 } else { 0u8 })
    }
}

impl Desc {
    /// Size of this descriptor on the wire
    pub const SIZE: u8 = 5;

    /// Returns the wire representation of this descriptor
    pub fn bytes(&self) -> (r: [u8; 5])
        ensures
            r@ == seq![5u8, CS_INTERFACE, SUBTYPE_CALL, self.bmCapabilities.byte_spec(), self.bDataInterface],
    {
        let r = [Self::SIZE, CS_INTERFACE, SUBTYPE_CALL, self.bmCapabilities.byte(), self.bDataInterface];
        assert(r@ =~= seq![5u8, CS_INTERFACE, SUBTYPE_CALL, self.bmCapabilities.byte_spec(), self.bDataInterface]);
        r
    }
}

} // verus!
