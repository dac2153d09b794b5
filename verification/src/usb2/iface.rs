//! Interface descriptors
use vstd::prelude::*;

use crate::usbd::DescriptorType;

verus! {

/// Interface Descriptor
#[allow(non_snake_case)]
#[derive(Clone, Copy)]
pub struct Desc {
    /// Interface number
    pub bInterfaceNumber: u8,
    /// Alternative setting
    pub bAlternativeSetting: u8,
    /// Number of endpoints
    pub bNumEndpoints: u8,
    /// Interface class
    pub bInterfaceClass: u8,
    /// Interface subclass
    pub bInterfaceSubClass: u8,
    /// Interface protocol
    pub bInterfaceProtocol: u8,
    /// Interface string descriptor index
    pub iInterface: u8,
}

impl Desc {
    /// The size of this descriptor in bytes
    pub const SIZE: u8 = 9;

    /// Returns the byte representation of this descriptor
    pub fn bytes(&self) -> (r: [u8; 9])
        ensures
            r@ == seq![
                9u8,
                DescriptorType::INTERFACE.byte_spec(),
                self.bInterfaceNumber,
                self.bAlternativeSetting,
                self.bNumEndpoints,
                self.bInterfaceClass,
                self.bInterfaceSubClass,
                self.bInterfaceProtocol,
                self.iInterface,
            ],
    {
        let r = [
            Self::SIZE,
            DescriptorType::INTERFACE.byte(),
            self.bInterfaceNumber,
            self.bAlternativeSetting,
            self.bNumEndpoints,
            self.bInterfaceClass,
            self.bInterfaceSubClass,
            self.bInterfaceProtocol,
            self.iInterface,
        ];
        assert(r@ =~= seq![
            9u8,
            DescriptorType::INTERFACE.byte_spec(),
            self.bInterfaceNumber,
            self.bAlternativeSetting,
            self.bNumEndpoints,
            self.bInterfaceClass,
            self.bInterfaceSubClass,
            self.bInterfaceProtocol,
            self.iInterface,
        ]);
        r
    }
}

} // verus!
