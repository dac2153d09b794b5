//! Device descriptor
use vstd::prelude::*;

use crate::usbd::DescriptorType;

verus! {

/// Standard Device Descriptor
#[allow(non_snake_case)]
#[derive(Clone, Copy)]
pub struct Desc {
    /// USB specification release version
    pub bcdUSB: bcdUSB,
    /// Device class
    pub bDeviceClass: u8,
    /// Device subclass
    pub bDeviceSubClass: u8,
    /// Device protocol
    pub bDeviceProtocol: u8,
    /// Maximum packet size
    pub bMaxPacketSize0: bMaxPacketSize0,
    /// Vendor ID
    pub idVendor: u16,
    /// Product ID
    pub idProduct: u16,
    /// Device release number
    pub bcdDevice: u16,
    /// Manufacturer string index
    pub iManufacturer: u8,
    /// Product string index
    pub iProduct: u8,
    /// Serial number string index
    pub iSerialNumber: u8,
    /// Number of configurations
    pub bNumConfigurations: u8,
}

/// USB specification release version
#[allow(non_camel_case_types)]
#[derive(Clone, Copy, PartialEq, Eq, Debug, Structural)]
pub enum bcdUSB {
    /// 2.0
    V20,
}

impl bcdUSB {
    /// The binary-coded version number.
    pub open spec fn word_spec(self) -> u16 {
        match self {
            bcdUSB::V20 => 0x0200,
        }
    }

    /// The binary-coded version number.
    pub fn word(self) -> (r: u16)
        ensures
            r == self.word_spec(),
    {
        match self {
            bcdUSB::V20 => 0x0200,
        }
    }
}

/// Maximum packet size
#[allow(non_camel_case_types)]
#[derive(Clone, Copy, PartialEq, Eq, Debug, Structural)]
pub enum bMaxPacketSize0 {
    /// 8 bytes
    B8,
    /// 16 bytes
    B16,
    /// 32 bytes
    B32,
    /// 64 bytes
    B64,
}

impl bMaxPacketSize0 {
    /// The size in bytes.
    pub open spec fn byte_spec(self) -> u8 {
        match self {
            bMaxPacketSize0::B8 => 8,
            bMaxPacketSize0::B16 => 16,
            bMaxPacketSize0::B32 => 32,
            bMaxPacketSize0::B64 => 64,
        }
    }

    /// The size in bytes.
    pub fn byte(self) -> (r: u8)
        ensures
            r == self.byte_spec(),
    {
        match self {
            bMaxPacketSize0::B8 => 8,
            bMaxPacketSize0::B16 => 16,
            bMaxPacketSize0::B32 => 32,
            bMaxPacketSize0::B64 => 64,
        }
    }
}

impl Desc {
    /// The size of this descriptor on the wire
    pub const SIZE: u8 = 18;

    /// Returns the wire representation of this descriptor
    pub fn bytes(&self) -> (r: [u8; 18])
        ensures
            r@ == seq![
                18u8,
                DescriptorType::DEVICE.byte_spec(),
                (self.bcdUSB.word_spec() & 0xff) as u8,
                (self.bcdUSB.word_spec() >> 8) as u8,
                self.bDeviceClass,
                self.bDeviceSubClass,
                self.bDeviceProtocol,
                self.bMaxPacketSize0.byte_spec(),
                (self.idVendor & 0xff) as u8,
                (self.idVendor >> 8) as u8,
                (self.idProduct & 0xff) as u8,
                (self.idProduct >> 8) as u8,
                (self.bcdDevice & 0xff) as u8,
                (self.bcdDevice >> 8) as u8,
                self.iManufacturer,
                self.iProduct,
                self.iSerialNumber,
                self.bNumConfigurations,
            ],
    {
        let bcd = self.bcdUSB.word();
        let r = [
            Self::SIZE,
            DescriptorType::DEVICE.byte(),
            (bcd & 0xff) as u8,
            (bcd >> 8) as u8,
            self.bDeviceClass,
            self.bDeviceSubClass,
            self.bDeviceProtocol,
            self.bMaxPacketSize0.byte(),
            (self.idVendor & 0xff) as u8,
            (self.idVendor >> 8) as u8,
            (self.idProduct & 0xff) as u8,
            (self.idProduct >> 8) as u8,
            (self.bcdDevice & 0xff) as u8,
            (self.bcdDevice >> 8) as u8,
            self.iManufacturer,
            self.iProduct,
            self.iSerialNumber,
            self.bNumConfigurations,
        ];
        assert(r@ =~= seq![
            18u8,
            DescriptorType::DEVICE.byte_spec(),
            (self.bcdUSB.word_spec() & 0xff) as u8,
            (self.bcdUSB.word_spec() >> 8) as u8,
            self.bDeviceClass,
            self.bDeviceSubClass,
            self.bDeviceProtocol,
            self.bMaxPacketSize0.byte_spec(),
            (self.idVendor & 0xff) as u8,
            (self.idVendor >> 8) as u8,
            (self.idProduct & 0xff) as u8,
            (self.idProduct >> 8) as u8,
            (self.bcdDevice & 0xff) as u8,
            (self.bcdDevice >> 8) as u8,
            self.iManufacturer,
            self.iProduct,
            self.iSerialNumber,
            self.bNumConfigurations,
        ]);
        r
    }
}

} // verus!
