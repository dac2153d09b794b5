//! Application Interrupt and Reset Control Register
use vstd::prelude::*;

verus! {

/// Singleton handle to the register
pub struct Register {
    not_send_or_sync: (),
}

impl Register {
    pub(crate) fn new() -> Self {
        Self { not_send_or_sync: () }
    }

    /// Returns the address of this register
    pub fn address() -> (r: usize)
        ensures
            r == super::BASE_ADDRESS + 0xc,
    {
        super::BASE_ADDRESS + 0xc
    }
}

/// View into the readable bitfields
#[derive(Clone, Copy)]
pub struct R {
    inner: u32,
}

impl View for R {
    type V = u32;

    closed spec fn view(&self) -> u32 {
        self.inner
    }
}

impl From<u32> for R {
    fn from(bits: u32) -> (r: R)
        ensures
            r@ == bits,
    {
        R { inner: bits }
    }
}

impl vstd::std_specs::convert::FromSpecImpl<u32> for R {
    open spec fn obeys_from_spec() -> bool {
        true
    }

    closed spec fn from_spec(bits: u32) -> R {
        R { inner: bits }
    }
}

impl From<R> for u32 {
    fn from(r: R) -> (bits: u32)
        ensures
            bits == r@,
    {
        r.inner
    }
}

impl vstd::std_specs::convert::FromSpecImpl<R> for u32 {
    open spec fn obeys_from_spec() -> bool {
        true
    }

    open spec fn from_spec(r: R) -> u32 {
        r@
    }
}

impl R {
    /// (Bit 2)
    #[allow(non_snake_case)]
    pub fn SYSRESETREQ(self) -> (r: u8)
        ensures
            r == ((self@ >> 2u8) as u8) & 0x01u8,
    {
        ((self.inner >> 2u8) as u8) & 0x01u8
    }

    /// (Bits 8..=11)
    #[allow(non_snake_case)]
    pub fn PRIGROUP(self) -> (r: u8)
        ensures
            r == ((self@ >> 8u8) as u8) & 0x07u8,
    {
        ((self.inner >> 8u8) as u8) & 0x07u8
    }

    /// (Bit 15)
    #[allow(non_snake_case)]
    pub fn ENDIANNESS(self) -> (r: u8)
        ensures
            r == ((self@ >> 15u8) as u8) & 0x01u8,
    {
        ((self.inner >> 15u8) as u8) & 0x01u8
    }

    /// (Bits 16..=32)
    #[allow(non_snake_case)]
    pub fn VECTKEYSTAT(self) -> (r: u16)
        ensures
            r == ((self@ >> 16u8) as u16) & 0xffffu16,
    {
        ((self.inner >> 16u8) as u16) & 0xffffu16
    }

    /// Returns the non-reserved part of the register
    pub fn bits(self) -> (r: u32)
        ensures
            r == self@,
    {
        self.inner
    }
}

/// View into the writable bitfields
#[derive(Clone, Copy)]
pub struct W {
    inner: u32,
}

impl View for W {
    type V = u32;

    closed spec fn view(&self) -> u32 {
        self.inner
    }
}

impl From<W> for u32 {
    fn from(w: W) -> (bits: u32)
        ensures
            bits == w@,
    {
        w.inner
    }
}

impl vstd::std_specs::convert::FromSpecImpl<W> for u32 {
    open spec fn obeys_from_spec() -> bool {
        true
    }

    open spec fn from_spec(w: W) -> u32 {
        w@
    }
}

impl W {
    /// Writable view with all bitfields set to zero
    pub fn zero() -> (r: W)
        ensures
            r@ == 0,
    {
        W { inner: 0 }
    }

    /// (Bit 2)
    #[allow(non_snake_case)]
    pub fn SYSRESETREQ(&mut self, val: u8) -> (r: &mut Self)
        ensures
            r@ == (old(self)@ & !((0x01u8 as u32) << 2u8)) | (((val & 0x01u8) as u32) << 2u8),
            *final(self) == *final(r),
    {
        self.inner = self.inner & !((0x01u8 as u32) << 2u8);
        self.inner = self.inner | (((val & 0x01u8) as u32) << 2u8);
        self
    }

    /// (Bits 8..=11)
    #[allow(non_snake_case)]
    pub fn PRIGROUP(&mut self, val: u8) -> (r: &mut Self)
        ensures
            r@ == (old(self)@ & !((0x07u8 as u32) << 8u8)) | (((val & 0x07u8) as u32) << 8u8),
            *final(self) == *final(r),
    {
        self.inner = self.inner & !((0x07u8 as u32) << 8u8);
        self.inner = self.inner | (((val & 0x07u8) as u32) << 8u8);
        self
    }

    /// (Bit 0)
    #[allow(non_snake_case)]
    pub fn VECTRESET(&mut self, val: u8) -> (r: &mut Self)
        ensures
            r@ == (old(self)@ & !((0x01u8 as u32) << 0u8)) | (((val & 0x01u8) as u32) << 0u8),
            *final(self) == *final(r),
    {
        self.inner = self.inner & !((0x01u8 as u32) << 0u8);
        self.inner = self.inner | (((val & 0x01u8) as u32) << 0u8);
        self
    }

    /// (Bit 1)
    #[allow(non_snake_case)]
    pub fn VECTCLRACTIVE(&mut self, val: u8) -> (r: &mut Self)
        ensures
            r@ == (old(self)@ & !((0x01u8 as u32) << 1u8)) | (((val & 0x01u8) as u32) << 1u8),
            *final(self) == *final(r),
    {
        self.inner = self.inner & !((0x01u8 as u32) << 1u8);
        self.inner = self.inner | (((val & 0x01u8) as u32) << 1u8);
        self
    }

    /// (Bits 16..=32)
    #[allow(non_snake_case)]
    pub fn VECTKEY(&mut self, val: u16) -> (r: &mut Self)
        ensures
            r@ == (old(self)@ & !((0xffffu16 as u32) << 16u8)) | (((val & 0xffffu16) as u32) << 16u8),
            *final(self) == *final(r),
    {
        self.inner = self.inner & !((0xffffu16 as u32) << 16u8);
        self.inner = self.inner | (((val & 0xffffu16) as u32) << 16u8);
        self
    }

}

impl From<R> for W {
    fn from(r: R) -> (w: W)
        ensures
            w@ == r@ & !(0xffff_8000u32),
    {
        W { inner: r.inner & !(0xffff_8000u32) }
    }
}

impl vstd::std_specs::convert::FromSpecImpl<R> for W {
    open spec fn obeys_from_spec() -> bool {
        true
    }

    closed spec fn from_spec(r: R) -> W {
        W { inner: r.inner & !(0xffff_8000u32) }
    }
}

impl W {
    /// Copies the contents of `R`, with the bits that are not writable cleared
    pub fn copy(&mut self, r: R) -> (w: &mut Self)
        ensures
            w@ == r@ & !(0xffff_8000u32),
            *final(self) == *final(w),
    {
        *self = W::from(r);
        self
    }
}

/// Each field that is both readable and writable reads back what was written into it:
/// the value written, cut to the width of the field.
pub proof fn lemma_write_read(x: u32, v8: u8)
    by (bit_vector)
    ensures
        ((((x & !((0x01u8 as u32) << 2u8)) | (((v8 & 0x01u8) as u32) << 2u8)) >> 2u8) as u8) & 0x01u8 == v8 & 0x01u8,
        ((((x & !((0x07u8 as u32) << 8u8)) | (((v8 & 0x07u8) as u32) << 8u8)) >> 8u8) as u8) & 0x07u8 == v8 & 0x07u8,
{
}

} // verus!
