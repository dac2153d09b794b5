//! Debug Core Register Selector Register
use vstd::prelude::*;

verus! {

/// Singleton handle to the register
pub struct Register {
    not_send_or_sync: (),
}

impl Register {
    pub(crate) fn new() -> Self {
        Self { not_send_or_sync: () }
    }

    /// Returns the address of this register
    pub fn address() -> (r: usize)
        ensures
            r == super::BASE_ADDRESS + 0x4,
    {
        super::BASE_ADDRESS + 0x4
    }
}

/// View into the writable bitfields
#[derive(Clone, Copy)]
pub struct W {
    inner: u32,
}

impl View for W {
    type V = u32;

    closed spec fn view(&self) -> u32 {
        self.inner
    }
}

impl From<W> for u32 {
    fn from(w: W) -> (bits: u32)
        ensures
            bits == w@,
    {
        w.inner
    }
}

impl vstd::std_specs::convert::FromSpecImpl<W> for u32 {
    open spec fn obeys_from_spec() -> bool {
        true
    }

    open spec fn from_spec(w: W) -> u32 {
        w@
    }
}

impl W {
    /// Writable view with all bitfields set to zero
    pub fn zero() -> (r: W)
        ensures
            r@ == 0,
    {
        W { inner: 0 }
    }

    /// (Bits 0..=7)
    #[allow(non_snake_case)]
    pub fn REGSEL(&mut self, val: u8) -> (r: &mut Self)
        ensures
            r@ == (old(self)@ & !((0x7fu8 as u32) << 0u8)) | (((val & 0x7fu8) as u32) << 0u8),
            *final(self) == *final(r),
    {
        self.inner = self.inner & !((0x7fu8 as u32) << 0u8);
        self.inner = self.inner | (((val & 0x7fu8) as u32) << 0u8);
        self
    }

    /// (Bit 16)
    #[allow(non_snake_case)]
    pub fn REGWnR(&mut self, val: u8) -> (r: &mut Self)
        ensures
            r@ == (old(self)@ & !((0x01u8 as u32) << 16u8)) | (((val & 0x01u8) as u32) << 16u8),
            *final(self) == *final(r),
    {
        self.inner = self.inner & !((0x01u8 as u32) << 16u8);
        self.inner = self.inner | (((val & 0x01u8) as u32) << 16u8);
        self
    }

}

} // verus!
