//! Union Interface functional descriptor
use vstd::prelude::*;

use crate::usbd::cdc::{CS_INTERFACE, SUBTYPE_UNION};

verus! {

/// Union Interface functional descriptor
#[allow(non_snake_case)]
#[derive(Clone, Copy)]
pub struct Desc {
    /// Controlling interface
    pub bControlInterface: u8,
    /// Subordinate interface
    pub bSubordinateInterface0: u8,
}

impl Desc {
    /// Size of this descriptor on the wire
    pub const SIZE: u8 = 5;

    /// Returns the wire representation of this descriptor
    pub fn bytes(&self) -> (r: [u8; 5])
        ensures
            r@ == seq![5u8, CS_INTERFACE, SUBTYPE_UNION, self.bControlInterface, self.bSubordinateInterface0],
    {
        let r = [Self::SIZE, CS_INTERFACE, SUBTYPE_UNION, self.bControlInterface, self.bSubordinateInterface0];
        assert(r@ =~= seq![5u8, CS_INTERFACE, SUBTYPE_UNION, self.bControlInterface, self.bSubordinateInterface0]);
        r
    }
}

} // verus!
