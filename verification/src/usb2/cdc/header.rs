//! Header functional descriptor
use vstd::prelude::*;

use crate::usbd::cdc::{CS_INTERFACE, SUBTYPE_HEADER};

verus! {

/// Header functional descriptor
#[allow(non_snake_case)]
pub struct Desc {
    /// Communications Devices Specification release number
    pub bcdCDC: bcdCDC,
}

/// Communications Devices specification release number
#[allow(non_camel_case_types)]
#[derive(Clone, Copy, PartialEq, Eq, Debug, Structural)]
pub enum bcdCDC {
    /// 1.10
    V11,
}

impl bcdCDC {
    /// The binary-coded release number.
    pub open spec fn word_spec(self) -> u16 {
        match self {
            bcdCDC::V11 => 0x0110,
        }
    }

    /// The binary-coded release number.
    pub fn word(self) -> (r: u16)
        ensures
            r == self.word_spec(),
    {
        match self {
            bcdCDC::V11 => 0x0110,
        }
    }
}

impl Desc {
    /// The size of this descriptor on the wire
    pub const SIZE: u8 = 5;

    /// Returns the wire representation of this descriptor
    pub fn bytes(&self) -> (r: [u8; 5])
        ensures
            r@ == seq![5u8, CS_INTERFACE, SUBTYPE_HEADER, (self.bcdCDC.word_spec() & 0xff) as u8, (self.bcdCDC.word_spec() >> 8) as u8],
    {
        let w = self.bcdCDC.word();
        let r = [Self::SIZE, CS_INTERFACE, SUBTYPE_HEADER, (w & 0xff) as u8, (w >> 8) as u8];
        assert(r@ =~= seq![5u8, CS_INTERFACE, SUBTYPE_HEADER, (self.bcdCDC.word_spec() & 0xff) as u8, (self.bcdCDC.word_spec() >> 8) as u8]);
        r
    }
}

} // verus!
