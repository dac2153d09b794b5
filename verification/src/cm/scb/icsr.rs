//! Interrupt Control and State Register
use vstd::prelude::*;

verus! {

/// Singleton handle to the register
pub struct Register {
    not_send_or_sync: (),
}

impl Register {
    pub(crate) fn new() -> Self {
        Self { not_send_or_sync: () }
    }

    /// Returns the address of this register
    pub fn address() -> (r: usize)
        ensures
            r == super::BASE_ADDRESS + 0x4,
    {
        super::BASE_ADDRESS + 0x4
    }
}

/// View into the readable bitfields
#[derive(Clone, Copy)]
pub struct R {
    inner: u32,
}

impl View for R {
    type V = u32;

    closed spec fn view(&self) -> u32 {
        self.inner
    }
}

impl From<u32> for R {
    fn from(bits: u32) -> (r: R)
        ensures
            r@ == bits,
    {
        R { inner: bits }
    }
}

impl vstd::std_specs::convert::FromSpecImpl<u32> for R {
    open spec fn obeys_from_spec() -> bool {
        true
    }

    closed spec fn from_spec(bits: u32) -> R {
        R { inner: bits }
    }
}

impl From<R> for u32 {
    fn from(r: R) -> (bits: u32)
        ensures
            bits == r@,
    {
        r.inner
    }
}

impl vstd::std_specs::convert::FromSpecImpl<R> for u32 {
    open spec fn obeys_from_spec() -> bool {
        true
    }

    open spec fn from_spec(r: R) -> u32 {
        r@
    }
}

impl R {
    /// (Bit 26)
    #[allow(non_snake_case)]
    pub fn PENDSTSET(self) -> (r: u8)
        ensures
            r == ((self@ >> 26u8) as u8) & 0x01u8,
    {
        ((self.inner >> 26u8) as u8) & 0x01u8
    }

    /// (Bit 28)
    #[allow(non_snake_case)]
    pub fn PENDSVSET(self) -> (r: u8)
        ensures
            r == ((self@ >> 28u8) as u8) & 0x01u8,
    {
        ((self.inner >> 28u8) as u8) & 0x01u8
    }

    /// (Bit 31)
    #[allow(non_snake_case)]
    pub fn NMIPENDSET(self) -> (r: u8)
        ensures
            r == ((self@ >> 31u8) as u8) & 0x01u8,
    {
        ((self.inner >> 31u8) as u8) & 0x01u8
    }

    /// (Bits 0..=9) The vector table index of the exception currently being executed.\n0: Thread mode\n!0: Exception context
    #[allow(non_snake_case)]
    pub fn VECTACTIVE(self) -> (r: u16)
        ensures
            r == ((self@ >> 0u8) as u16) & 0x01ffu16,
    {
        ((self.inner >> 0u8) as u16) & 0x01ffu16
    }

    /// (Bit 11)
    #[allow(non_snake_case)]
    pub fn RETTOBASE(self) -> (r: u8)
        ensures
            r == ((self@ >> 11u8) as u8) & 0x01u8,
    {
        ((self.inner >> 11u8) as u8) & 0x01u8
    }

    /// (Bits 12..=21)
    #[allow(non_snake_case)]
    pub fn VECTPENDING(self) -> (r: u16)
        ensures
            r == ((self@ >> 12u8) as u16) & 0x01ffu16,
    {
        ((self.inner >> 12u8) as u16) & 0x01ffu16
    }

    /// (Bit 22)
    #[allow(non_snake_case)]
    pub fn ISRPENDING(self) -> (r: u8)
        ensures
            r == ((self@ >> 22u8) as u8) & 0x01u8,
    {
        ((self.inner >> 22u8) as u8) & 0x01u8
    }

    /// (Bit 23)
    #[allow(non_snake_case)]
    pub fn ISRPREEMPT(self) -> (r: u8)
        ensures
            r == ((self@ >> 23u8) as u8) & 0x01u8,
    {
        ((self.inner >> 23u8) as u8) & 0x01u8
    }

    /// Returns the non-reserved part of the register
    pub fn bits(self) -> (r: u32)
        ensures
            r == self@,
    {
        self.inner
    }
}

/// View into the writable bitfields
#[derive(Clone, Copy)]
pub struct W {
    inner: u32,
}

impl View for W {
    type V = u32;

    closed spec fn view(&self) -> u32 {
        self.inner
    }
}

impl From<W> for u32 {
    fn from(w: W) -> (bits: u32)
        ensures
            bits == w@,
    {
        w.inner
    }
}

impl vstd::std_specs::convert::FromSpecImpl<W> for u32 {
    open spec fn obeys_from_spec() -> bool {
        true
    }

    open spec fn from_spec(w: W) -> u32 {
        w@
    }
}

impl W {
    /// Writable view with all bitfields set to zero
    pub fn zero() -> (r: W)
        ensures
            r@ == 0,
    {
        W { inner: 0 }
    }

    /// (Bit 26)
    #[allow(non_snake_case)]
    pub fn PENDSTSET(&mut self, val: u8) -> (r: &mut Self)
        ensures
            r@ == (old(self)@ & !((0x01u8 as u32) << 26u8)) | (((val & 0x01u8) as u32) << 26u8),
            *final(self) == *final(r),
    {
        self.inner = self.inner & !((0x01u8 as u32) << 26u8);
        self.inner = self.inner | (((val & 0x01u8) as u32) << 26u8);
        self
    }

    /// (Bit 28)
    #[allow(non_snake_case)]
    pub fn PENDSVSET(&mut self, val: u8) -> (r: &mut Self)
        ensures
            r@ == (old(self)@ & !((0x01u8 as u32) << 28u8)) | (((val & 0x01u8) as u32) << 28u8),
            *final(self) == *final(r),
    {
        self.inner = self.inner & !((0x01u8 as u32) << 28u8);
        self.inner = self.inner | (((val & 0x01u8) as u32) << 28u8);
        self
    }

    /// (Bit 31)
    #[allow(non_snake_case)]
    pub fn NMIPENDSET(&mut self, val: u8) -> (r: &mut Self)
        ensures
            r@ == (old(self)@ & !((0x01u8 as u32) << 31u8)) | (((val & 0x01u8) as u32) << 31u8),
            *final(self) == *final(r),
    {
        self.inner = self.inner & !((0x01u8 as u32) << 31u8);
        self.inner = self.inner | (((val & 0x01u8) as u32) << 31u8);
        self
    }

    /// (Bit 25)
    #[allow(non_snake_case)]
    pub fn PENDSTCLR(&mut self, val: u8) -> (r: &mut Self)
        ensures
            r@ == (old(self)@ & !((0x01u8 as u32) << 25u8)) | (((val & 0x01u8) as u32) << 25u8),
            *final(self) == *final(r),
    {
        self.inner = self.inner & !((0x01u8 as u32) << 25u8);
        self.inner = self.inner | (((val & 0x01u8) as u32) << 25u8);
        self
    }

    /// (Bit 27)
    #[allow(non_snake_case)]
    pub fn PENDSVCLR(&mut self, val: u8) -> (r: &mut Self)
        ensures
            r@ == (old(self)@ & !((0x01u8 as u32) << 27u8)) | (((val & 0x01u8) as u32) << 27u8),
            *final(self) == *final(r),
    {
        self.inner = self.inner & !((0x01u8 as u32) << 27u8);
        self.inner = self.inner | (((val & 0x01u8) as u32) << 27u8);
        self
    }

}

impl From<R> for W {
    fn from(r: R) -> (w: W)
        ensures
            w@ == r@ & !(0x00df_f9ffu32),
    {
        W { inner: r.inner & !(0x00df_f9ffu32) }
    }
}

impl vstd::std_specs::convert::FromSpecImpl<R> for W {
    open spec fn obeys_from_spec() -> bool {
        true
    }

    closed spec fn from_spec(r: R) -> W {
        W { inner: r.inner & !(0x00df_f9ffu32) }
    }
}

impl W {
    /// Copies the contents of `R`, with the bits that are not writable cleared
    pub fn copy(&mut self, r: R) -> (w: &mut Self)
        ensures
            w@ == r@ & !(0x00df_f9ffu32),
            *final(self) == *final(w),
    {
        *self = W::from(r);
        self
    }
}

/// Each field that is both readable and writable reads back what was written into it:
/// the value written, cut to the width of the field.
pub proof fn lemma_write_read(x: u32, v8: u8)
    by (bit_vector)
    ensures
        ((((x & !((0x01u8 as u32) << 26u8)) | (((v8 & 0x01u8) as u32) << 26u8)) >> 26u8) as u8) & 0x01u8 == v8 & 0x01u8,
        ((((x & !((0x01u8 as u32) << 28u8)) | (((v8 & 0x01u8) as u32) << 28u8)) >> 28u8) as u8) & 0x01u8 == v8 & 0x01u8,
        ((((x & !((0x01u8 as u32) << 31u8)) | (((v8 & 0x01u8) as u32) << 31u8)) >> 31u8) as u8) & 0x01u8 == v8 & 0x01u8,
{
}

} // verus!
