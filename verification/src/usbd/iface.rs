//! Interface descriptors
use vstd::prelude::*;

use crate::usbd::DescriptorType;

verus! {

/// Interface class
#[derive(Clone, Copy, PartialEq, Eq, Debug, Structural)]
pub enum Class {
    /// Communications and CDC Control
    Communications {
        /// Subclass
        subclass: CommunicationsSubclass,
    },
    /// CDC-Data
    CdcData,
}

impl Class {
    /// The class code.
    pub open spec fn byte_spec(&self) -> u8 {
        match self {
            Class::Communications { .. } => 0x02,
            Class::CdcData => 0x0A,
        }
    }

    /// The subclass code.
    pub open spec fn subclass_byte_spec(&self) -> u8 {
        match self {
            Class::Communications { subclass } => subclass.byte_spec(),
            Class::CdcData => 0,
        }
    }

    /// The class code.
    pub fn byte(&self) -> (r: u8)
        ensures
            r == self.byte_spec(),
    {
        match self {
            Class::Communications { .. } => 0x02,
            Class::CdcData => 0x0A,
        }
    }

    /// The subclass code.
    pub fn subclass_byte(&self) -> (r: u8)
        ensures
            r == self.subclass_byte_spec(),
    {
        match self {
            Class::Communications { subclass } => subclass.byte(),
            Class::CdcData => 0,
        }
    }
}

/// Communications subclass
#[derive(Clone, Copy, PartialEq, Eq, Debug, Structural)]
pub enum CommunicationsSubclass {
    /// Abstract Control Model
    Acm,
}

impl CommunicationsSubclass {
    /// The subclass code.
    pub open spec fn byte_spec(self) -> u8 {
        match self {
            CommunicationsSubclass::Acm => 0x02,
        }
    }

    /// The subclass code.
    pub fn byte(self) -> (r: u8)
        ensures
            r == self.byte_spec(),
    {
        match self {
            CommunicationsSubclass::Acm => 0x02,
        }
    }
}

/// Interface Descriptor
#[allow(non_snake_case)]
#[derive(Clone, Copy)]
pub struct Desc {
    /// Interface number
    pub bInterfaceNumber: u8,
    /// Alternative setting
    pub bAlternativeSetting: u8,
    /// Number of endpoints
    pub bNumEndpoints: u8,
    /// Interface class
    pub bInterfaceClass: Class,
    /// Interface protocol
    pub bInterfaceProtocol: u8,
    /// Interface string descriptor index
    pub iInterface: u8,
}

impl Desc {
    /// The size of this descriptor in bytes
    pub const SIZE: u8 = 9;

    /// Returns the byte representation of this descriptor
    pub fn bytes(&self) -> (r: [u8; 9])
        ensures
            r@ == seq![
                9u8,
                DescriptorType::INTERFACE.byte_spec(),
                self.bInterfaceNumber,
                self.bAlternativeSetting,
                self.bNumEndpoints,
                self.bInterfaceClass.byte_spec(),
                self.bInterfaceClass.subclass_byte_spec(),
                self.bInterfaceProtocol,
                self.iInterface,
            ],
    {
        let r = [
            Self::SIZE,
            DescriptorType::INTERFACE.byte(),
            self.bInterfaceNumber,
            self.bAlternativeSetting,
            self.bNumEndpoints,
            self.bInterfaceClass.byte(),
            self.bInterfaceClass.subclass_byte(),
            self.bInterfaceProtocol,
            self.iInterface,
        ];
        assert(r@ =~= seq![
            9u8,
            DescriptorType::INTERFACE.byte_spec(),
            self.bInterfaceNumber,
            self.bAlternativeSetting,
            self.bNumEndpoints,
            self.bInterfaceClass.byte_spec(),
            self.bInterfaceClass.subclass_byte_spec(),
            self.bInterfaceProtocol,
            self.iInterface,
        ]);
        r
    }
}

} // verus!
