//! Vector Table Offset Register
use vstd::prelude::*;

verus! {

/// Singleton handle to the register
pub struct Register {
    not_send_or_sync: (),
}

impl Register {
    pub(crate) fn new() -> Self {
        Self { not_send_or_sync: () }
    }

    /// Returns the address of this register
    pub fn address() -> (r: usize)
        ensures
            r == super::BASE_ADDRESS + 0x8,
    {
        super::BASE_ADDRESS + 0x8
    }
}

/// View into the readable bitfields
#[derive(Clone, Copy)]
pub struct R {
    inner: u32,
}

impl View for R {
    type V = u32;

    closed spec fn view(&self) -> u32 {
        self.inner
    }
}

impl From<u32> for R {
    fn from(bits: u32) -> (r: R)
        ensures
            r@ == bits,
    {
        R { inner: bits }
    }
}

impl vstd::std_specs::convert::FromSpecImpl<u32> for R {
    open spec fn obeys_from_spec() -> bool {
        true
    }

    closed spec fn from_spec(bits: u32) -> R {
        R { inner: bits }
    }
}

impl From<R> for u32 {
    fn from(r: R) -> (bits: u32)
        ensures
            bits == r@,
    {
        r.inner
    }
}

impl vstd::std_specs::convert::FromSpecImpl<R> for u32 {
    open spec fn obeys_from_spec() -> bool {
        true
    }

    open spec fn from_spec(r: R) -> u32 {
        r@
    }
}

impl R {
    /// (Bits 7..=32)
    #[allow(non_snake_case)]
    pub fn TBLOFF(self) -> (r: u32)
        ensures
            r == ((self@ >> 7u8) as u32) & 0x01ff_ffffu32,
    {
        ((self.inner >> 7u8) as u32) & 0x01ff_ffffu32
    }

    /// Returns the non-reserved part of the register
    pub fn bits(self) -> (r: u32)
        ensures
            r == self@,
    {
        self.inner
    }
}

/// View into the writable bitfields
#[derive(Clone, Copy)]
pub struct W {
    inner: u32,
}

impl View for W {
    type V = u32;

    closed spec fn view(&self) -> u32 {
        self.inner
    }
}

impl From<W> for u32 {
    fn from(w: W) -> (bits: u32)
        ensures
            bits == w@,
    {
        w.inner
    }
}

impl vstd::std_specs::convert::FromSpecImpl<W> for u32 {
    open spec fn obeys_from_spec() -> bool {
        true
    }

    open spec fn from_spec(w: W) -> u32 {
        w@
    }
}

impl W {
    /// Writable view with all bitfields set to zero
    pub fn zero() -> (r: W)
        ensures
            r@ == 0,
    {
        W { inner: 0 }
    }

    /// (Bits 7..=32)
    #[allow(non_snake_case)]
    pub fn TBLOFF(&mut self, val: u32) -> (r: &mut Self)
        ensures
            r@ == (old(self)@ & !((0x01ff_ffffu32 as u32) << 7u8)) | (((val & 0x01ff_ffffu32) as u32) << 7u8),
            *final(self) == *final(r),
    {
        self.inner = self.inner & !((0x01ff_ffffu32 as u32) << 7u8);
        self.inner = self.inner | (((val & 0x01ff_ffffu32) as u32) << 7u8);
        self
    }

}

impl From<R> for W {
    fn from(r: R) -> (w: W)
        ensures
            w@ == r@,
    {
        W { inner: r.inner }
    }
}

impl vstd::std_specs::convert::FromSpecImpl<R> for W {
    open spec fn obeys_from_spec() -> bool {
        true
    }

    closed spec fn from_spec(r: R) -> W {
        W { inner: r.inner }
    }
}

impl W {
    /// Copies the contents of `R`, unchanged
    pub fn copy(&mut self, r: R) -> (w: &mut Self)
        ensures
            w@ == r@,
            *final(self) == *final(w),
    {
        *self = W::from(r);
        self
    }
}

/// Each field that is both readable and writable reads back what was written into it:
/// the value written, cut to the width of the field.
pub proof fn lemma_write_read(x: u32, v32: u32)
    by (bit_vector)
    ensures
        ((((x & !((0x01ff_ffffu32 as u32) << 7u8)) | (((v32 & 0x01ff_ffffu32) as u32) << 7u8)) >> 7u8) as u32) & 0x01ff_ffffu32 == v32 & 0x01ff_ffffu32,
{
}

} // verus!
