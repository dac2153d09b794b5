//! CPUID Base register
use vstd::prelude::*;

verus! {

/// Singleton handle to the register
pub struct Register {
    not_send_or_sync: (),
}

impl Register {
    pub(crate) fn new() -> Self {
        Self { not_send_or_sync: () }
    }

    /// Returns the address of this register
    pub fn address() -> (r: usize)
        ensures
            r == super::BASE_ADDRESS + 0x0,
    {
        super::BASE_ADDRESS + 0x0
    }
}

/// View into the readable bitfields
#[derive(Clone, Copy)]
pub struct R {
    inner: u32,
}

impl View for R {
    type V = u32;

    closed spec fn view(&self) -> u32 {
        self.inner
    }
}

impl From<u32> for R {
    fn from(bits: u32) -> (r: R)
        ensures
            r@ == bits,
    {
        R { inner: bits }
    }
}

impl vstd::std_specs::convert::FromSpecImpl<u32> for R {
    open spec fn obeys_from_spec() -> bool {
        true
    }

    closed spec fn from_spec(bits: u32) -> R {
        R { inner: bits }
    }
}

impl From<R> for u32 {
    fn from(r: R) -> (bits: u32)
        ensures
            bits == r@,
    {
        r.inner
    }
}

impl vstd::std_specs::convert::FromSpecImpl<R> for u32 {
    open spec fn obeys_from_spec() -> bool {
        true
    }

    open spec fn from_spec(r: R) -> u32 {
        r@
    }
}

impl R {
    /// (Bits 0..=4)
    #[allow(non_snake_case)]
    pub fn REVISION(self) -> (r: u8)
        ensures
            r == ((self@ >> 0u8) as u8) & 0x0fu8,
    {
        ((self.inner >> 0u8) as u8) & 0x0fu8
    }

    /// (Bits 4..=16)
    #[allow(non_snake_case)]
    pub fn PARTNO(self) -> (r: u16)
        ensures
            r == ((self@ >> 4u8) as u16) & 0x0fffu16,
    {
        ((self.inner >> 4u8) as u16) & 0x0fffu16
    }

    /// (Bits 16..=20)
    #[allow(non_snake_case)]
    pub fn ARCHITECTURE(self) -> (r: u8)
        ensures
            r == ((self@ >> 16u8) as u8) & 0x0fu8,
    {
        ((self.inner >> 16u8) as u8) & 0x0fu8
    }

    /// (Bits 20..=24)
    #[allow(non_snake_case)]
    pub fn VARIANT(self) -> (r: u8)
        ensures
            r == ((self@ >> 20u8) as u8) & 0x0fu8,
    {
        ((self.inner >> 20u8) as u8) & 0x0fu8
    }

    /// (Bits 24..=32)
    #[allow(non_snake_case)]
    pub fn IMPLEMENTER(self) -> (r: u8)
        ensures
            r == ((self@ >> 24u8) as u8) & 0xffu8,
    {
        ((self.inner >> 24u8) as u8) & 0xffu8
    }

    /// Returns the non-reserved part of the register
    pub fn bits(self) -> (r: u32)
        ensures
            r == self@,
    {
        self.inner
    }
}

} // verus!
