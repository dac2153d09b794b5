//! Debug Halting Control and Status Register
use vstd::prelude::*;

verus! {

/// Singleton handle to the register
pub struct Register {
    not_send_or_sync: (),
}

impl Register {
    pub(crate) fn new() -> Self {
        Self { not_send_or_sync: () }
    }

    /// Returns the address of this register
    pub fn address() -> (r: usize)
        ensures
            r == super::BASE_ADDRESS + 0x0,
    {
        super::BASE_ADDRESS + 0x0
    }
}

/// View into the readable bitfields
#[derive(Clone, Copy)]
pub struct R {
    inner: u32,
}

impl View for R {
    type V = u32;

    closed spec fn view(&self) -> u32 {
        self.inner
    }
}

impl From<u32> for R {
    fn from(bits: u32) -> (r: R)
        ensures
            r@ == bits,
    {
        R { inner: bits }
    }
}

impl vstd::std_specs::convert::FromSpecImpl<u32> for R {
    open spec fn obeys_from_spec() -> bool {
        true
    }

    closed spec fn from_spec(bits: u32) -> R {
        R { inner: bits }
    }
}

impl From<R> for u32 {
    fn from(r: R) -> (bits: u32)
        ensures
            bits == r@,
    {
        r.inner
    }
}

impl vstd::std_specs::convert::FromSpecImpl<R> for u32 {
    open spec fn obeys_from_spec() -> bool {
        true
    }

    open spec fn from_spec(r: R) -> u32 {
        r@
    }
}

impl R {
    /// (Bit 0)
    #[allow(non_snake_case)]
    pub fn C_DEBUGEN(self) -> (r: u8)
        ensures
            r == ((self@ >> 0u8) as u8) & 0x01u8,
    {
        ((self.inner >> 0u8) as u8) & 0x01u8
    }

    /// (Bit 1)
    #[allow(non_snake_case)]
    pub fn C_HALT(self) -> (r: u8)
        ensures
            r == ((self@ >> 1u8) as u8) & 0x01u8,
    {
        ((self.inner >> 1u8) as u8) & 0x01u8
    }

    /// (Bit 2)
    #[allow(non_snake_case)]
    pub fn C_STEP(self) -> (r: u8)
        ensures
            r == ((self@ >> 2u8) as u8) & 0x01u8,
    {
        ((self.inner >> 2u8) as u8) & 0x01u8
    }

    /// (Bit 3)
    #[allow(non_snake_case)]
    pub fn C_MASKINTS(self) -> (r: u8)
        ensures
            r == ((self@ >> 3u8) as u8) & 0x01u8,
    {
        ((self.inner >> 3u8) as u8) & 0x01u8
    }

    /// (Bit 5)
    #[allow(non_snake_case)]
    pub fn C_SNAPSTALL(self) -> (r: u8)
        ensures
            r == ((self@ >> 5u8) as u8) & 0x01u8,
    {
        ((self.inner >> 5u8) as u8) & 0x01u8
    }

    /// (Bit 16)
    #[allow(non_snake_case)]
    pub fn S_REGRDY(self) -> (r: u8)
        ensures
            r == ((self@ >> 16u8) as u8) & 0x01u8,
    {
        ((self.inner >> 16u8) as u8) & 0x01u8
    }

    /// (Bit 17)
    #[allow(non_snake_case)]
    pub fn S_HALT(self) -> (r: u8)
        ensures
            r == ((self@ >> 17u8) as u8) & 0x01u8,
    {
        ((self.inner >> 17u8) as u8) & 0x01u8
    }

    /// (Bit 18)
    #[allow(non_snake_case)]
    pub fn S_SLEEP(self) -> (r: u8)
        ensures
            r == ((self@ >> 18u8) as u8) & 0x01u8,
    {
        ((self.inner >> 18u8) as u8) & 0x01u8
    }

    /// (Bit 19)
    #[allow(non_snake_case)]
    pub fn S_LOCKUP(self) -> (r: u8)
        ensures
            r == ((self@ >> 19u8) as u8) & 0x01u8,
    {
        ((self.inner >> 19u8) as u8) & 0x01u8
    }

    /// (Bit 24)
    #[allow(non_snake_case)]
    pub fn S_RETIRE_ST(self) -> (r: u8)
        ensures
            r == ((self@ >> 24u8) as u8) & 0x01u8,
    {
        ((self.inner >> 24u8) as u8) & 0x01u8
    }

    /// (Bit 25)
    #[allow(non_snake_case)]
    pub fn S_RESET_ST(self) -> (r: u8)
        ensures
            r == ((self@ >> 25u8) as u8) & 0x01u8,
    {
        ((self.inner >> 25u8) as u8) & 0x01u8
    }

    /// Returns the non-reserved part of the register
    pub fn bits(self) -> (r: u32)
        ensures
            r == self@,
    {
        self.inner
    }
}

/// View into the writable bitfields
#[derive(Clone, Copy)]
pub struct W {
    inner: u32,
}

impl View for W {
    type V = u32;

    closed spec fn view(&self) -> u32 {
        self.inner
    }
}

impl From<W> for u32 {
    fn from(w: W) -> (bits: u32)
        ensures
            bits == w@,
    {
        w.inner
    }
}

impl vstd::std_specs::convert::FromSpecImpl<W> for u32 {
    open spec fn obeys_from_spec() -> bool {
        true
    }

    open spec fn from_spec(w: W) -> u32 {
        w@
    }
}

impl W {
    /// Writable view with all bitfields set to zero
    pub fn zero() -> (r: W)
        ensures
            r@ == 0,
    {
        W { inner: 0 }
    }

    /// (Bit 0)
    #[allow(non_snake_case)]
    pub fn C_DEBUGEN(&mut self, val: u8) -> (r: &mut Self)
        ensures
            r@ == (old(self)@ & !((0x01u8 as u32) << 0u8)) | (((val & 0x01u8) as u32) << 0u8),
            *final(self) == *final(r),
    {
        self.inner = self.inner & !((0x01u8 as u32) << 0u8);
        self.inner = self.inner | (((val & 0x01u8) as u32) << 0u8);
        self
    }

    /// (Bit 1)
    #[allow(non_snake_case)]
    pub fn C_HALT(&mut self, val: u8) -> (r: &mut Self)
        ensures
            r@ == (old(self)@ & !((0x01u8 as u32) << 1u8)) | (((val & 0x01u8) as u32) << 1u8),
            *final(self) == *final(r),
    {
        self.inner = self.inner & !((0x01u8 as u32) << 1u8);
        self.inner = self.inner | (((val & 0x01u8) as u32) << 1u8);
        self
    }

    /// (Bit 2)
    #[allow(non_snake_case)]
    pub fn C_STEP(&mut self, val: u8) -> (r: &mut Self)
        ensures
            r@ == (old(self)@ & !((0x01u8 as u32) << 2u8)) | (((val & 0x01u8) as u32) << 2u8),
            *final(self) == *final(r),
    {
        self.inner = self.inner & !((0x01u8 as u32) << 2u8);
        self.inner = self.inner | (((val & 0x01u8) as u32) << 2u8);
        self
    }

    /// (Bit 3)
    #[allow(non_snake_case)]
    pub fn C_MASKINTS(&mut self, val: u8) -> (r: &mut Self)
        ensures
            r@ == (old(self)@ & !((0x01u8 as u32) << 3u8)) | (((val & 0x01u8) as u32) << 3u8),
            *final(self) == *final(r),
    {
        self.inner = self.inner & !((0x01u8 as u32) << 3u8);
        self.inner = self.inner | (((val & 0x01u8) as u32) << 3u8);
        self
    }

    /// (Bit 5)
    #[allow(non_snake_case)]
    pub fn C_SNAPSTALL(&mut self, val: u8) -> (r: &mut Self)
        ensures
            r@ == (old(self)@ & !((0x01u8 as u32) << 5u8)) | (((val & 0x01u8) as u32) << 5u8),
            *final(self) == *final(r),
    {
        self.inner = self.inner & !((0x01u8 as u32) << 5u8);
        self.inner = self.inner | (((val & 0x01u8) as u32) << 5u8);
        self
    }

    /// (Bits 16..=32)
    #[allow(non_snake_case)]
    pub fn DBGKEY(&mut self, val: u16) -> (r: &mut Self)
        ensures
            r@ == (old(self)@ & !((0xffffu16 as u32) << 16u8)) | (((val & 0xffffu16) as u32) << 16u8),
            *final(self) == *final(r),
    {
        self.inner = self.inner & !((0xffffu16 as u32) << 16u8);
        self.inner = self.inner | (((val & 0xffffu16) as u32) << 16u8);
        self
    }

}

impl From<R> for W {
    fn from(r: R) -> (w: W)
        ensures
            w@ == r@ & !(0x030f_0000u32),
    {
        W { inner: r.inner & !(0x030f_0000u32) }
    }
}

impl vstd::std_specs::convert::FromSpecImpl<R> for W {
    open spec fn obeys_from_spec() -> bool {
        true
    }

    closed spec fn from_spec(r: R) -> W {
        W { inner: r.inner & !(0x030f_0000u32) }
    }
}

impl W {
    /// Copies the contents of `R`, with the bits that are not writable cleared
    pub fn copy(&mut self, r: R) -> (w: &mut Self)
        ensures
            w@ == r@ & !(0x030f_0000u32),
            *final(self) == *final(w),
    {
        *self = W::from(r);
        self
    }
}

/// Each field that is both readable and writable reads back what was written into it:
/// the value written, cut to the width of the field.
pub proof fn lemma_write_read(x: u32, v8: u8)
    by (bit_vector)
    ensures
        ((((x & !((0x01u8 as u32) << 0u8)) | (((v8 & 0x01u8) as u32) << 0u8)) >> 0u8) as u8) & 0x01u8 == v8 & 0x01u8,
        ((((x & !((0x01u8 as u32) << 1u8)) | (((v8 & 0x01u8) as u32) << 1u8)) >> 1u8) as u8) & 0x01u8 == v8 & 0x01u8,
        ((((x & !((0x01u8 as u32) << 2u8)) | (((v8 & 0x01u8) as u32) << 2u8)) >> 2u8) as u8) & 0x01u8 == v8 & 0x01u8,
        ((((x & !((0x01u8 as u32) << 3u8)) | (((v8 & 0x01u8) as u32) << 3u8)) >> 3u8) as u8) & 0x01u8 == v8 & 0x01u8,
        ((((x & !((0x01u8 as u32) << 5u8)) | (((v8 & 0x01u8) as u32) << 5u8)) >> 5u8) as u8) & 0x01u8 == v8 & 0x01u8,
{
}

} // verus!
