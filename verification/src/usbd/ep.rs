//! Endpoints
use vstd::prelude::*;

use crate::usbd::{DescriptorType, Direction};

verus! {

/// Endpoint Descriptor
#[allow(non_snake_case)]
#[derive(Clone, Copy)]
pub struct Desc {
    /// Endpoint address
    pub bEndpointAddress: Address,
    /// Attributes
    pub bmAttributes: bmAttributes,
    /// Maximum packet size
    pub wMaxPacketSize: wMaxPacketSize,
    /// Polling interval
    pub bInterval: u8,
}

impl Desc {
    /// The size of this descriptor on the wire
    pub const SIZE: u8 = 7;

    /// Returns the wire representation of this descriptor
    pub fn bytes(&self) -> (r: [u8; 7])
        ensures
            r@ == seq![
                7u8,
                DescriptorType::ENDPOINT.byte_spec(),
                self.bEndpointAddress.byte_spec(),
                self.bmAttributes.byte_spec(),
                (self.wMaxPacketSize.word_spec() & 0xff) as u8,
                (self.wMaxPacketSize.word_spec() >> 8) as u8,
                self.bInterval,
            ],
    {
        let word = self.wMaxPacketSize.word();
        let r = [
            Self::SIZE,
            DescriptorType::ENDPOINT.byte(),
            self.bEndpointAddress.byte(),
            self.bmAttributes.byte(),
            (word & 0xff) as u8,
            (word >> 8) as u8,
            self.bInterval,
        ];
        assert(r@ =~= seq![
            7u8,
            DescriptorType::ENDPOINT.byte_spec(),
            self.bEndpointAddress.byte_spec(),
            self.bmAttributes.byte_spec(),
            (self.wMaxPacketSize.word_spec() & 0xff) as u8,
            (self.wMaxPacketSize.word_spec() >> 8) as u8,
            self.bInterval,
        ]);
        r
    }
}

/// Endpoint address
#[derive(Clone, Copy)]
pub struct Address {
    /// Endpoint number
    pub number: u8,
    /// Endpoint direction
    pub direction: Direction,
}

impl Address {
    /// The address byte: the endpoint number in bits 0..4 and the direction in bit 7.
    pub open spec fn byte_spec(&self) -> u8 {
        (self.number & 0b1111) | (self.direction.bit_spec() << 7u8)
    }

    /// The address byte.
    pub fn byte(&self) -> (r: u8)
        ensures
            r == self.byte_spec(),
    {
        (self.number & 0b1111) | (self.direction.bit() << 7u8)
    }
}

/// Endpoint attributes
#[allow(non_camel_case_types)]
#[derive(Clone, Copy)]
pub enum bmAttributes {
    /// Bulk endpoint
    Bulk,
    /// Control endpoint
    Control,
    /// Interrupt endpoint
    Interrupt,
    /// Isochronous endpoint
    Isochronous {
        /// Synchronization type
        synchronization_type: SynchronizationType,
        /// Usage type
        usage_type: UsageType,
    },
}

impl bmAttributes {
    /// The attributes byte: the transfer type in bits 0..2 and, for isochronous endpoints, the
    /// synchronization type in bits 2..4 and the usage type in bits 4..6.
    pub open spec fn byte_spec(&self) -> u8 {
        match self {
            bmAttributes::Bulk => 0b10,
            bmAttributes::Control => 0b00,
            bmAttributes::Interrupt => 0b11,
            bmAttributes::Isochronous { synchronization_type, usage_type } => 0b01u8 | (
            synchronization_type.bits_spec() << 2u8) | (usage_type.bits_spec() << 4u8),
        }
    }

    /// The attributes byte.
    pub fn byte(&self) -> (r: u8)
        ensures
            r == self.byte_spec(),
    {
        match self {
            bmAttributes::Bulk => 0b10,
            bmAttributes::Control => 0b00,
            bmAttributes::Interrupt => 0b11,
            bmAttributes::Isochronous { synchronization_type, usage_type } => 0b01u8 | (
            synchronization_type.bits() << 2u8) | (usage_type.bits() << 4u8),
        }
    }
}

/// Endpoint transfer type
#[derive(Clone, Copy, PartialEq, Eq, Debug, Structural)]
pub enum TransferType {
    /// Control endpoint
    Control,
    /// Isochronous endpoint
    Isochronous,
    /// Bulk endpoint
    Bulk,
    /// Interrupt endpoint
    Interrupt,
}

impl TransferType {
    /// The two bits that stand for the transfer type.
    pub open spec fn bits_spec(self) -> u8 {
        match self {
            TransferType::Control => 0b00,
            TransferType::Isochronous => 0b01,
            TransferType::Bulk => 0b10,
            TransferType::Interrupt => 0b11,
        }
    }

    /// The two bits that stand for the transfer type.
    pub fn bits(self) -> (r: u8)
        ensures
            r == self.bits_spec(),
    {
        match self {
            TransferType::Control => 0b00,
            TransferType::Isochronous => 0b01,
            TransferType::Bulk => 0b10,
            TransferType::Interrupt => 0b11,
        }
    }
}

/// Synchronization type
#[derive(Clone, Copy, PartialEq, Eq, Debug, Structural)]
pub enum SynchronizationType {
    /// No synchronization
    NoSynchronization,
    /// Asynchronous
    Asynchronous,
    /// Adaptive
    Adaptive,
    /// Synchronous
    Synchronous,
}

impl SynchronizationType {
    /// The two bits that stand for the synchronization type.
    pub open spec fn bits_spec(self) -> u8 {
        match self {
            SynchronizationType::NoSynchronization => 0b00,
            SynchronizationType::Asynchronous => 0b01,
            SynchronizationType::Adaptive => 0b10,
            SynchronizationType::Synchronous => 0b11,
        }
    }

    /// The two bits that stand for the synchronization type.
    pub fn bits(self) -> (r: u8)
        ensures
            r == self.bits_spec(),
    {
        match self {
            SynchronizationType::NoSynchronization => 0b00,
            SynchronizationType::Asynchronous => 0b01,
            SynchronizationType::Adaptive => 0b10,
            SynchronizationType::Synchronous => 0b11,
        }
    }
}

/// Usage type
#[derive(Clone, Copy, PartialEq, Eq, Debug, Structural)]
pub enum UsageType {
    /// Data endpoint
    DataEndpoint,
    /// Feedback endpoint
    FeedbackEndpoint,
    /// Implicit feedback data endpoint
    ImplicitFeedbackDataEndpoint,
}

impl UsageType {
    /// The two bits that stand for the usage type.
    pub open spec fn bits_spec(self) -> u8 {
        match self {
            UsageType::DataEndpoint => 0b00,
            UsageType::FeedbackEndpoint => 0b01,
            UsageType::ImplicitFeedbackDataEndpoint => 0b10,
        }
    }

    /// The two bits that stand for the usage type.
    pub fn bits(self) -> (r: u8)
        ensures
            r == self.bits_spec(),
    {
        match self {
            UsageType::DataEndpoint => 0b00,
            UsageType::FeedbackEndpoint => 0b01,
            UsageType::ImplicitFeedbackDataEndpoint => 0b10,
        }
    }
}

/// Maximum packet size
#[allow(non_camel_case_types)]
#[derive(Clone, Copy)]
pub enum wMaxPacketSize {
    /// Bulk or control endpoint
    BulkControl {
        /// Must be less than `1 << 11`
        size: u16,
    },
    /// Isochronous or interrupt endpoint
    IsochronousInterrupt {
        /// Must be less than `1 << 11`
        size: u16,
        /// Must be less than `4`
        transactions_per_microframe: u8,
    },
}

impl wMaxPacketSize {
    /// The field: the size in bits 0..11 and the transactions per microframe in bits 11..13.
    pub open spec fn word_spec(&self) -> u16 {
        match self {
            wMaxPacketSize::BulkControl { size } => *size & 0x7ff,
            wMaxPacketSize::IsochronousInterrupt { size, transactions_per_microframe } => (*size & 0x7ff) | ((
            (*transactions_per_microframe & 0b11) as u16) << 11u16),
        }
    }

    /// The field.
    pub fn word(&self) -> (r: u16)
        ensures
            r == self.word_spec(),
    {
        match self {
            wMaxPacketSize::BulkControl { size } => *size & 0x7ff,
            wMaxPacketSize::IsochronousInterrupt { size, transactions_per_microframe } => (*size & 0x7ff) | ((
            (*transactions_per_microframe & 0b11) as u16) << 11u16),
        }
    }
}

} // verus!
