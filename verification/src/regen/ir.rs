//! Intermediate representation of a device's registers
use vstd::prelude::*;

verus! {

/// A device: its peripherals.
pub struct Device {
    /// Documentation added to the generated crate
    pub extra_docs: Option<String>,
    /// Name of the device
    pub name: String,
    /// Peripherals of the device
    pub peripherals: Vec<Peripheral>,
}

/// Where the instances of a peripheral live.
pub enum Instances {
    /// A single instance
    Single {
        /// Base address of the instance
        base_address: u64,
    },
    /// Several instances
    Many {
        /// The instances
        instances: Vec<Instance>,
    },
}

/// One of several instances of a peripheral.
pub struct Instance {
    /// Suffix of the instance's name
    pub suffix: String,
    /// Base address of the instance
    pub base_address: u64,
}

/// A peripheral: a block of registers.
pub struct Peripheral {
    /// Description of the peripheral
    pub description: Option<String>,
    /// Where its instances live
    pub instances: Instances,
    /// Name of the peripheral
    pub name: String,
    /// Registers of the peripheral
    pub registers: Vec<Register>,
}

/// A register.
pub struct Register {
    /// What the register allows
    pub access: Access,
    /// Description of the register
    pub description: Option<String>,
    /// Name of the register
    pub name: String,
    /// Offset from the peripheral's base address
    pub offset: u64,
    /// Bitfields that can be read
    pub r_fields: Vec<Bitfield>,
    /// Bitfields that can be written
    pub w_fields: Vec<Bitfield>,
    /// Width of the register
    pub width: Width,
}

/// Register width
#[derive(Clone, Copy, PartialEq, Eq, Debug, Structural)]
pub enum Width {
    /// 8 bits
    U8,
    /// 16 bits
    U16,
    /// 32 bits
    U32,
    /// 64 bits
    U64,
}

impl Width {
    /// Width in bits.
    pub open spec fn bits_spec(self) -> u8 {
        match self {
            Width::U8 => 8,
            Width::U16 => 16,
            Width::U32 => 32,
            Width::U64 => 64,
        }
    }

    /// Width in bits.
    pub fn bits(self) -> (r: u8)
        ensures
            r == self.bits_spec(),
    {
        match self {
            Width::U8 => 8,
            Width::U16 => 16,
            Width::U32 => 32,
            Width::U64 => 64,
        }
    }
}

/// Register access
#[derive(Clone, Copy, PartialEq, Eq, Debug, Structural)]
pub enum Access {
    /// Read-only
    ReadOnly,
    /// Write-only
    WriteOnly {
        /// Whether writes are `unsafe`
        unsafe_write: bool,
    },
    /// Read-write
    ReadWrite {
        /// Whether writes are `unsafe`
        unsafe_write: bool,
    },
}

impl Access {
    /// Whether the register can be read.
    pub open spec fn can_read_spec(self) -> bool {
        self is ReadOnly || self is ReadWrite
    }

    /// Whether the register can be written.
    pub open spec fn can_write_spec(self) -> bool {
        self is WriteOnly || self is ReadWrite
    }

    /// Whether writes are `unsafe`.
    pub open spec fn write_is_unsafe_spec(self) -> bool {
        match self {
            Access::WriteOnly { unsafe_write } | Access::ReadWrite { unsafe_write } => unsafe_write,
            Access::ReadOnly => false,
        }
    }

    /// Whether the register can be read.
    pub fn can_read(self) -> (r: bool)
        ensures
            r == self.can_read_spec(),
    {
        match self {
            Access::ReadOnly | Access::ReadWrite { .. } => true,
            Access::WriteOnly { .. } => false,
        }
    }

    /// Whether the register can be written.
    pub fn can_write(self) -> (r: bool)
        ensures
            r == self.can_write_spec(),
    {
        match self {
            Access::WriteOnly { .. } | Access::ReadWrite { .. } => true,
            Access::ReadOnly => false,
        }
    }

    /// Whether writes are `unsafe`.
    pub fn write_is_unsafe(&self) -> (r: bool)
        ensures
            r == self.write_is_unsafe_spec(),
    {
        match self {
            Access::WriteOnly { unsafe_write } | Access::ReadWrite { unsafe_write } => *unsafe_write,
            _ => false,
        }
    }

    /// Makes writes `unsafe`; the register must be writable.
    pub fn make_write_unsafe(&mut self)
        requires
            old(self).can_write_spec(),
        ensures
            final(self).can_write_spec(),
            final(self).write_is_unsafe_spec(),
            final(self).can_read_spec() == old(self).can_read_spec(),
    {
        match self {
            Access::WriteOnly { unsafe_write } => {
                *self = Access::WriteOnly { unsafe_write: true };
            },
            Access::ReadWrite { unsafe_write } => {
                *self = Access::ReadWrite { unsafe_write: true };
            },
            Access::ReadOnly => {},
        }
    }
}

/// A bitfield of a register.
pub struct Bitfield {
    /// Description of the bitfield
    pub description: Option<String>,
    /// Name of the bitfield
    pub name: String,
    /// In bits; must be less than the register width
    pub offset: u8,
    /// In bits; must be greater than `0` and less than the register width
    pub width: u8,
}

impl Clone for Bitfield {
    fn clone(&self) -> (r: Self)
        ensures
            r.description == self.description,
            r.name == self.name,
            r.offset == self.offset,
            r.width == self.width,
    {
        let description = match &self.description {
            Some(d) => Some(d.clone()),
            None => None,
        };
        Bitfield { description, name: self.name.clone(), offset: self.offset, width: self.width }
    }
}

/// Two bitfields are the same: same name, description, offset and width.
pub open spec fn same_field(a: Bitfield, b: Bitfield) -> bool {
    &&& a.name@ == b.name@
    &&& a.offset == b.offset
    &&& a.width == b.width
    &&& match (a.description, b.description) {
        (Some(x), Some(y)) => x@ == y@,
        (None, None) => true,
        _ => false,
    }
}

impl Bitfield {
    /// The mask of the bitfield, as the low `width` bits set.
    pub open spec fn mask_spec(&self) -> u64 {
        ((1u64 << self.width) - 1) as u64
    }

    /// The mask of the bitfield.
    pub fn mask(&self) -> (r: u64)
        requires
            self.width < 64,
        ensures
            r == self.mask_spec(),
    {
        let w = self.width;
        assert((1u64 << w) >= 1) by (bit_vector)
            requires
                w < 64,
        ;
        (1u64 << w) - 1
    }

    /// Whether two bitfields are the same.
    pub fn same(&self, other: &Bitfield) -> (r: bool)
        ensures
            r == same_field(*self, *other),
    {
        let descriptions = match (&self.description, &other.description) {
            (Some(x), Some(y)) => *x == *y,
            (None, None) => true,
            _ => false,
        };
        self.name == other.name && self.offset == other.offset && self.width == other.width && descriptions
    }
}

} // verus!
