//! USB device types
//!
//! # References
//!
//! - Universal Serial Bus Specification Revision 2.0
use vstd::prelude::*;

pub mod cdc;
pub mod config;
pub mod device;
pub mod ep;
pub mod iface;

verus! {

/// USB direction (from the point of view of the host)
#[derive(Clone, Copy, PartialEq, Eq, Debug, Structural)]
pub enum Direction {
    /// Host-to-Device
    OUT,
    /// Device-to-Host
    IN,
}

impl Direction {
    /// The bit that stands for the direction on the wire.
    pub open spec fn bit_spec(self) -> u8 {
        match self {
            Direction::OUT => 0,
            Direction::IN => 1,
        }
    }

    /// The bit that stands for the direction on the wire.
    pub fn bit(self) -> (r: u8)
        ensures
            r == self.bit_spec(),
    {
        match self {
            Direction::OUT => 0,
            Direction::IN => 1,
        }
    }
}

/// USB device state
#[derive(Clone, Copy, PartialEq, Eq, Debug, Structural)]
pub enum State {
    /// Default state
    Default,
    /// Addressed state
    Address,
    /// Configured state
    Configured {
        /// Configuration value
        configuration: u8,
    },
}

/// Standard Request Code
// see table 9-4 Standard Request Codes
#[allow(non_camel_case_types)]
#[derive(Clone, Copy, PartialEq, Eq, Debug, Structural)]
pub enum bRequest {
    /// Get status
    GET_STATUS,
    /// Clear feature
    CLEAR_FEATURE,
    /// Set feature
    SET_FEATURE,
    /// Set address
    SET_ADDRESS,
    /// Get descriptor
    GET_DESCRIPTOR,
    /// Set descriptor
    SET_DESCRIPTOR,
    /// Get configuration
    GET_CONFIGURATION,
    /// Set configuration
    SET_CONFIGURATION,
    /// Get interface
    GET_INTERFACE,
    /// Set interface
    SET_INTERFACE,
    /// Synch frame
    SYNCH_FRAME,
    /// Reserved request code
    Reserved,
    /// Non-standard request code
    NonStandard(u8),
}

/// The request that a request code stands for.
pub open spec fn b_request_of(byte: u8) -> bRequest {
    if byte == 0 {
        bRequest::GET_STATUS
    } else if byte == 1 {
        bRequest::CLEAR_FEATURE
    } else if byte == 2 {
        bRequest::Reserved
    } else if byte == 3 {
        bRequest::SET_FEATURE
    } else if byte == 4 {
        bRequest::Reserved
    } else if byte == 5 {
        bRequest::SET_ADDRESS
    } else if byte == 6 {
        bRequest::GET_DESCRIPTOR
    } else if byte == 7 {
        bRequest::SET_DESCRIPTOR
    } else if byte == 8 {
        bRequest::GET_CONFIGURATION
    } else if byte == 9 {
        bRequest::SET_CONFIGURATION
    } else if byte == 10 {
        bRequest::GET_INTERFACE
    } else if byte == 11 {
        bRequest::SET_INTERFACE
    } else if byte == 12 {
        bRequest::SYNCH_FRAME
    } else {
        bRequest::NonStandard(byte)
    }
}

impl From<u8> for bRequest {
    fn from(byte: u8) -> (r: Self)
        ensures
            r == b_request_of(byte),
    {
        match byte {
            0 => bRequest::GET_STATUS,
            1 => bRequest::CLEAR_FEATURE,
            2 => bRequest::Reserved,
            3 => bRequest::SET_FEATURE,
            4 => bRequest::Reserved,
            5 => bRequest::SET_ADDRESS,
            6 => bRequest::GET_DESCRIPTOR,
            7 => bRequest::SET_DESCRIPTOR,
            8 => bRequest::GET_CONFIGURATION,
            9 => bRequest::SET_CONFIGURATION,
            10 => bRequest::GET_INTERFACE,
            11 => bRequest::SET_INTERFACE,
            12 => bRequest::SYNCH_FRAME,
            byte => bRequest::NonStandard(byte),
        }
    }
}

impl vstd::std_specs::convert::FromSpecImpl<u8> for bRequest {
    open spec fn obeys_from_spec() -> bool {
        true
    }

    open spec fn from_spec(byte: u8) -> bRequest {
        b_request_of(byte)
    }
}

/// Descriptor type
#[allow(non_camel_case_types)]
#[derive(Clone, Copy, PartialEq, Eq, Debug, Structural)]
pub enum DescriptorType {
    /// Device descriptor
    DEVICE,
    /// Configuration descriptor
    CONFIGURATION,
    /// String descriptor
    STRING,
    /// Interface descriptor
    INTERFACE,
    /// Endpoint descriptor
    ENDPOINT,
    /// Device qualifier descriptor
    DEVICE_QUALIFIER,
    /// Other speed configuration descriptor
    OTHER_SPEED_CONFIGURATION,
    /// Interface power descriptor
    INTERFACE_POWER,
}

impl DescriptorType {
    /// The byte that stands for the descriptor type on the wire.
    pub open spec fn byte_spec(self) -> u8 {
        match self {
            DescriptorType::DEVICE => 1,
            DescriptorType::CONFIGURATION => 2,
            DescriptorType::STRING => 3,
            DescriptorType::INTERFACE => 4,
            DescriptorType::ENDPOINT => 5,
            DescriptorType::DEVICE_QUALIFIER => 6,
            DescriptorType::OTHER_SPEED_CONFIGURATION => 7,
            DescriptorType::INTERFACE_POWER => 8,
        }
    }

    /// The byte that stands for the descriptor type on the wire.
    pub fn byte(self) -> (r: u8)
        ensures
            r == self.byte_spec(),
    {
        match self {
            DescriptorType::DEVICE => 1,
            DescriptorType::CONFIGURATION => 2,
            DescriptorType::STRING => 3,
            DescriptorType::INTERFACE => 4,
            DescriptorType::ENDPOINT => 5,
            DescriptorType::DEVICE_QUALIFIER => 6,
            DescriptorType::OTHER_SPEED_CONFIGURATION => 7,
            DescriptorType::INTERFACE_POWER => 8,
        }
    }

    /// The descriptor type that a byte stands for; `Err` for bytes that stand for none.
    pub fn try_from(byte: u8) -> (r: Result<Self, ()>)
        ensures
            r == (match descriptor_type_of(byte) {
                Some(t) => Ok::<DescriptorType, ()>(t),
                None => Err(()),
            }),
    {
        match byte {
            1 => Ok(DescriptorType::DEVICE),
            2 => Ok(DescriptorType::CONFIGURATION),
            3 => Ok(DescriptorType::STRING),
            4 => Ok(DescriptorType::INTERFACE),
            5 => Ok(DescriptorType::ENDPOINT),
            6 => Ok(DescriptorType::DEVICE_QUALIFIER),
            7 => Ok(DescriptorType::OTHER_SPEED_CONFIGURATION),
            8 => Ok(DescriptorType::INTERFACE_POWER),
            _ => Err(()),
        }
    }
}

/// The descriptor type that a byte stands for, if any.
pub open spec fn descriptor_type_of(byte: u8) -> Option<DescriptorType> {
    if byte == 1 {
        Some(DescriptorType::DEVICE)
    } else if byte == 2 {
        Some(DescriptorType::CONFIGURATION)
    } else if byte == 3 {
        Some(DescriptorType::STRING)
    } else if byte == 4 {
        Some(DescriptorType::INTERFACE)
    } else if byte == 5 {
        Some(DescriptorType::ENDPOINT)
    } else if byte == 6 {
        Some(DescriptorType::DEVICE_QUALIFIER)
    } else if byte == 7 {
        Some(DescriptorType::OTHER_SPEED_CONFIGURATION)
    } else if byte == 8 {
        Some(DescriptorType::INTERFACE_POWER)
    } else {
        None
    }
}

/// Decoding the byte of a descriptor type gives the type back, and every byte that decodes is
/// the byte of the type it decodes to.
pub proof fn descriptor_type_roundtrip(t: DescriptorType, byte: u8)
    ensures
        descriptor_type_of(t.byte_spec()) == Some(t),
        descriptor_type_of(byte) matches Some(u) ==> u.byte_spec() == byte,
        descriptor_type_of(byte) is Some <==> 1 <= byte <= 8,
{
}

} // verus!
