//! Abstract Control Management functional descriptor
use vstd::prelude::*;

use crate::usbd::cdc::{CS_INTERFACE, SUBTYPE_ACM};

verus! {

/// Abstract Control Management functional descriptor
#[allow(non_snake_case)]
#[derive(Clone, Copy)]
pub struct Desc {
    /// Capabilities
    pub bmCapabilities: Capabilities,
}

/// Capabilities
#[derive(Clone, Copy)]
pub struct Capabilities {
    /// Device supports `{Set,Clear,Get}_Comm_Feature`
    pub comm_features: bool,
    /// Device supports `{Set,Get}_Line_Coding`, `Set_Control_Line_State` and `Serial_State`
    pub line_serial: bool,
    /// Device supports `Send_Break`
    pub send_break: bool,
    /// Device supports `Network_Connection`
    pub network_connection: bool,
}

impl Capabilities {
    /// The capabilities as a bit field: bit 0 for `comm_features` up to bit 3 for
    /// `network_connection`.
    pub open spec fn byte_spec(&self) -> u8 {
        (if self.comm_features { 1u8 } else { 0u8 }) | (if self.line_serial { 2u8 } else { 0u8 }) | (
        if self.send_break { 4u8 } else { 0u8 }) | (if self.network_connection { 8u8 } else { 0u8 })
    }

    /// The capabilities as a bit field.
    pub fn byte(&self) -> (r: u8)
        ensures
            r == self.byte_spec(),
    {
        (if self.comm_features { 1u8 } else { 0u8 }) | (if self.line_serial { 2u8 } else { 0u8 }) | (
        if self.send_break { 4u8 } else { 0u8 }) | (if self.network_connection { 8u8 } else { 0u8 })
    }
}

impl Desc {
    /// Size of this descriptor on the wire
    pub const SIZE: u8 = 4;

    /// Returns the wire representation of this device endpoint
    pub fn bytes(&self) -> (r: [u8; 4])
        ensures
            r@ == seq![4u8, CS_INTERFACE, SUBTYPE_ACM, self.bmCapabilities.byte_spec()],
    {
        let r = [Self::SIZE, CS_INTERFACE, SUBTYPE_ACM, self.bmCapabilities.byte()];
        assert(r@ =~= seq![4u8, CS_INTERFACE, SUBTYPE_ACM, self.bmCapabilities.byte_spec()]);
        r
    }
}

} // verus!
