//! Configuration descriptor
use vstd::prelude::*;

use crate::usbd::DescriptorType;

verus! {

/// Configuration Descriptor
#[allow(non_snake_case)]
#[derive(Clone, Copy)]
pub struct Desc {
    /// The total length of this configuration descriptor plus the descriptors below it
    pub wTotalLength: u16,
    /// Number of interfaces associated to this configuration
    pub bNumInterfaces: u8,
    /// Configuration value
    pub bConfigurationValue: u8,
    /// Configuration string index
    pub iConfiguration: u8,
    /// Attributes
    pub bmAttributes: bmAttributes,
    /// Maximum power (1 ULP = 2 mA)
    pub bMaxPower: u8,
}

/// Attributes
#[allow(non_camel_case_types)]
#[derive(Clone, Copy)]
pub struct bmAttributes {
    /// Self-powered?
    pub self_powered: bool,
    /// Remote wakeup
    pub remote_wakeup: bool,
}

impl bmAttributes {
    /// The attributes byte: bit 7 always set, bit 6 for self-powered, bit 5 for remote wakeup.
    pub open spec fn byte_spec(&self) -> u8 {
        0x80u8 | (if self.self_powered { 0x40u8 } else { 0u8 }) | (if self.remote_wakeup { 0x20u8 } else { 0u8 })
    }

    /// The attributes byte.
    pub fn byte(&self) -> (r: u8)
        ensures
            r == self.byte_spec(),
    {
        0x80u8 | (if self.self_powered { 0x40u8 } else { 0u8 }) | (if self.remote_wakeup { 0x20u8 } else { 0u8 })
    }
}

impl Desc {
    /// The size of this descriptor on the wire
    pub const SIZE: u8 = 9;

    /// Returns the wire representation of this descriptor
    pub fn bytes(&self) -> (r: [u8; 9])
        ensures
            r@ == seq![
                9u8,
                DescriptorType::CONFIGURATION.byte_spec(),
                (self.wTotalLength & 0xff) as u8,
                (self.wTotalLength >> 8) as u8,
                self.bNumInterfaces,
                self.bConfigurationValue,
                self.iConfiguration,
                self.bmAttributes.byte_spec(),
                self.bMaxPower,
            ],
    {
        let r = [
            Self::SIZE,
            DescriptorType::CONFIGURATION.byte(),
            (self.wTotalLength & 0xff) as u8,
            (self.wTotalLength >> 8) as u8,
            self.bNumInterfaces,
            self.bConfigurationValue,
            self.iConfiguration,
            self.bmAttributes.byte(),
            self.bMaxPower,
        ];
        assert(r@ =~= seq![
            9u8,
            DescriptorType::CONFIGURATION.byte_spec(),
            (self.wTotalLength & 0xff) as u8,
            (self.wTotalLength >> 8) as u8,
            self.bNumInterfaces,
            self.bConfigurationValue,
            self.iConfiguration,
            self.bmAttributes.byte_spec(),
            self.bMaxPower,
        ]);
        r
    }
}

} // verus!
