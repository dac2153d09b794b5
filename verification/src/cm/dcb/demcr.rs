//! Debug Exception and Monitor Control Register
use vstd::prelude::*;

verus! {

/// Singleton handle to the register
pub struct Register {
    not_send_or_sync: (),
}

impl Register {
    pub(crate) fn new() -> Self {
        Self { not_send_or_sync: () }
    }

    /// Returns the address of this register
    pub fn address() -> (r: usize)
        ensures
            r == super::BASE_ADDRESS + 0xc,
    {
        super::BASE_ADDRESS + 0xc
    }
}

/// View into the readable bitfields
#[derive(Clone, Copy)]
pub struct R {
    inner: u32,
}

impl View for R {
    type V = u32;

    closed spec fn view(&self) -> u32 {
        self.inner
    }
}

impl From<u32> for R {
    fn from(bits: u32) -> (r: R)
        ensures
            r@ == bits,
    {
        R { inner: bits }
    }
}

impl vstd::std_specs::convert::FromSpecImpl<u32> for R {
    open spec fn obeys_from_spec() -> bool {
        true
    }

    closed spec fn from_spec(bits: u32) -> R {
        R { inner: bits }
    }
}

impl From<R> for u32 {
    fn from(r: R) -> (bits: u32)
        ensures
            bits == r@,
    {
        r.inner
    }
}

impl vstd::std_specs::convert::FromSpecImpl<R> for u32 {
    open spec fn obeys_from_spec() -> bool {
        true
    }

    open spec fn from_spec(r: R) -> u32 {
        r@
    }
}

impl R {
    /// (Bit 0)
    #[allow(non_snake_case)]
    pub fn VC_CORERESET(self) -> (r: u8)
        ensures
            r == ((self@ >> 0u8) as u8) & 0x01u8,
    {
        ((self.inner >> 0u8) as u8) & 0x01u8
    }

    /// (Bit 4)
    #[allow(non_snake_case)]
    pub fn VC_MMERR(self) -> (r: u8)
        ensures
            r == ((self@ >> 4u8) as u8) & 0x01u8,
    {
        ((self.inner >> 4u8) as u8) & 0x01u8
    }

    /// (Bit 5)
    #[allow(non_snake_case)]
    pub fn VC_NOCPERR(self) -> (r: u8)
        ensures
            r == ((self@ >> 5u8) as u8) & 0x01u8,
    {
        ((self.inner >> 5u8) as u8) & 0x01u8
    }

    /// (Bit 6)
    #[allow(non_snake_case)]
    pub fn VC_CHKERR(self) -> (r: u8)
        ensures
            r == ((self@ >> 6u8) as u8) & 0x01u8,
    {
        ((self.inner >> 6u8) as u8) & 0x01u8
    }

    /// (Bit 7)
    #[allow(non_snake_case)]
    pub fn VC_STATERR(self) -> (r: u8)
        ensures
            r == ((self@ >> 7u8) as u8) & 0x01u8,
    {
        ((self.inner >> 7u8) as u8) & 0x01u8
    }

    /// (Bit 8)
    #[allow(non_snake_case)]
    pub fn VC_BUSERR(self) -> (r: u8)
        ensures
            r == ((self@ >> 8u8) as u8) & 0x01u8,
    {
        ((self.inner >> 8u8) as u8) & 0x01u8
    }

    /// (Bit 9)
    #[allow(non_snake_case)]
    pub fn VC_INTERR(self) -> (r: u8)
        ensures
            r == ((self@ >> 9u8) as u8) & 0x01u8,
    {
        ((self.inner >> 9u8) as u8) & 0x01u8
    }

    /// (Bit 10)
    #[allow(non_snake_case)]
    pub fn VC_HARDERR(self) -> (r: u8)
        ensures
            r == ((self@ >> 10u8) as u8) & 0x01u8,
    {
        ((self.inner >> 10u8) as u8) & 0x01u8
    }

    /// (Bit 16)
    #[allow(non_snake_case)]
    pub fn MON_EN(self) -> (r: u8)
        ensures
            r == ((self@ >> 16u8) as u8) & 0x01u8,
    {
        ((self.inner >> 16u8) as u8) & 0x01u8
    }

    /// (Bit 17)
    #[allow(non_snake_case)]
    pub fn MON_PEND(self) -> (r: u8)
        ensures
            r == ((self@ >> 17u8) as u8) & 0x01u8,
    {
        ((self.inner >> 17u8) as u8) & 0x01u8
    }

    /// (Bit 18)
    #[allow(non_snake_case)]
    pub fn MON_STEP(self) -> (r: u8)
        ensures
            r == ((self@ >> 18u8) as u8) & 0x01u8,
    {
        ((self.inner >> 18u8) as u8) & 0x01u8
    }

    /// (Bit 19)
    #[allow(non_snake_case)]
    pub fn MON_REQ(self) -> (r: u8)
        ensures
            r == ((self@ >> 19u8) as u8) & 0x01u8,
    {
        ((self.inner >> 19u8) as u8) & 0x01u8
    }

    /// (Bit 24) Enables the DWT and ITM:\n0: DWT and ITM are disabled.\n1: DWT and ITM are enabled.
    #[allow(non_snake_case)]
    pub fn TRCENA(self) -> (r: u8)
        ensures
            r == ((self@ >> 24u8) as u8) & 0x01u8,
    {
        ((self.inner >> 24u8) as u8) & 0x01u8
    }

    /// Returns the non-reserved part of the register
    pub fn bits(self) -> (r: u32)
        ensures
            r == self@,
    {
        self.inner
    }
}

/// View into the writable bitfields
#[derive(Clone, Copy)]
pub struct W {
    inner: u32,
}

impl View for W {
    type V = u32;

    closed spec fn view(&self) -> u32 {
        self.inner
    }
}

impl From<W> for u32 {
    fn from(w: W) -> (bits: u32)
        ensures
            bits == w@,
    {
        w.inner
    }
}

impl vstd::std_specs::convert::FromSpecImpl<W> for u32 {
    open spec fn obeys_from_spec() -> bool {
        true
    }

    open spec fn from_spec(w: W) -> u32 {
        w@
    }
}

impl W {
    /// Writable view with all bitfields set to zero
    pub fn zero() -> (r: W)
        ensures
            r@ == 0,
    {
        W { inner: 0 }
    }

    /// (Bit 0)
    #[allow(non_snake_case)]
    pub fn VC_CORERESET(&mut self, val: u8) -> (r: &mut Self)
        ensures
            r@ == (old(self)@ & !((0x01u8 as u32) << 0u8)) | (((val & 0x01u8) as u32) << 0u8),
            *final(self) == *final(r),
    {
        self.inner = self.inner & !((0x01u8 as u32) << 0u8);
        self.inner = self.inner | (((val & 0x01u8) as u32) << 0u8);
        self
    }

    /// (Bit 4)
    #[allow(non_snake_case)]
    pub fn VC_MMERR(&mut self, val: u8) -> (r: &mut Self)
        ensures
            r@ == (old(self)@ & !((0x01u8 as u32) << 4u8)) | (((val & 0x01u8) as u32) << 4u8),
            *final(self) == *final(r),
    {
        self.inner = self.inner & !((0x01u8 as u32) << 4u8);
        self.inner = self.inner | (((val & 0x01u8) as u32) << 4u8);
        self
    }

    /// (Bit 5)
    #[allow(non_snake_case)]
    pub fn VC_NOCPERR(&mut self, val: u8) -> (r: &mut Self)
        ensures
            r@ == (old(self)@ & !((0x01u8 as u32) << 5u8)) | (((val & 0x01u8) as u32) << 5u8),
            *final(self) == *final(r),
    {
        self.inner = self.inner & !((0x01u8 as u32) << 5u8);
        self.inner = self.inner | (((val & 0x01u8) as u32) << 5u8);
        self
    }

    /// (Bit 6)
    #[allow(non_snake_case)]
    pub fn VC_CHKERR(&mut self, val: u8) -> (r: &mut Self)
        ensures
            r@ == (old(self)@ & !((0x01u8 as u32) << 6u8)) | (((val & 0x01u8) as u32) << 6u8),
            *final(self) == *final(r),
    {
        self.inner = self.inner & !((0x01u8 as u32) << 6u8);
        self.inner = self.inner | (((val & 0x01u8) as u32) << 6u8);
        self
    }

    /// (Bit 7)
    #[allow(non_snake_case)]
    pub fn VC_STATERR(&mut self, val: u8) -> (r: &mut Self)
        ensures
            r@ == (old(self)@ & !((0x01u8 as u32) << 7u8)) | (((val & 0x01u8) as u32) << 7u8),
            *final(self) == *final(r),
    {
        self.inner = self.inner & !((0x01u8 as u32) << 7u8);
        self.inner = self.inner | (((val & 0x01u8) as u32) << 7u8);
        self
    }

    /// (Bit 8)
    #[allow(non_snake_case)]
    pub fn VC_BUSERR(&mut self, val: u8) -> (r: &mut Self)
        ensures
            r@ == (old(self)@ & !((0x01u8 as u32) << 8u8)) | (((val & 0x01u8) as u32) << 8u8),
            *final(self) == *final(r),
    {
        self.inner = self.inner & !((0x01u8 as u32) << 8u8);
        self.inner = self.inner | (((val & 0x01u8) as u32) << 8u8);
        self
    }

    /// (Bit 9)
    #[allow(non_snake_case)]
    pub fn VC_INTERR(&mut self, val: u8) -> (r: &mut Self)
        ensures
            r@ == (old(self)@ & !((0x01u8 as u32) << 9u8)) | (((val & 0x01u8) as u32) << 9u8),
            *final(self) == *final(r),
    {
        self.inner = self.inner & !((0x01u8 as u32) << 9u8);
        self.inner = self.inner | (((val & 0x01u8) as u32) << 9u8);
        self
    }

    /// (Bit 10)
    #[allow(non_snake_case)]
    pub fn VC_HARDERR(&mut self, val: u8) -> (r: &mut Self)
        ensures
            r@ == (old(self)@ & !((0x01u8 as u32) << 10u8)) | (((val & 0x01u8) as u32) << 10u8),
            *final(self) == *final(r),
    {
        self.inner = self.inner & !((0x01u8 as u32) << 10u8);
        self.inner = self.inner | (((val & 0x01u8) as u32) << 10u8);
        self
    }

    /// (Bit 16)
    #[allow(non_snake_case)]
    pub fn MON_EN(&mut self, val: u8) -> (r: &mut Self)
        ensures
            r@ == (old(self)@ & !((0x01u8 as u32) << 16u8)) | (((val & 0x01u8) as u32) << 16u8),
            *final(self) == *final(r),
    {
        self.inner = self.inner & !((0x01u8 as u32) << 16u8);
        self.inner = self.inner | (((val & 0x01u8) as u32) << 16u8);
        self
    }

    /// (Bit 17)
    #[allow(non_snake_case)]
    pub fn MON_PEND(&mut self, val: u8) -> (r: &mut Self)
        ensures
            r@ == (old(self)@ & !((0x01u8 as u32) << 17u8)) | (((val & 0x01u8) as u32) << 17u8),
            *final(self) == *final(r),
    {
        self.inner = self.inner & !((0x01u8 as u32) << 17u8);
        self.inner = self.inner | (((val & 0x01u8) as u32) << 17u8);
        self
    }

    /// (Bit 18)
    #[allow(non_snake_case)]
    pub fn MON_STEP(&mut self, val: u8) -> (r: &mut Self)
        ensures
            r@ == (old(self)@ & !((0x01u8 as u32) << 18u8)) | (((val & 0x01u8) as u32) << 18u8),
            *final(self) == *final(r),
    {
        self.inner = self.inner & !((0x01u8 as u32) << 18u8);
        self.inner = self.inner | (((val & 0x01u8) as u32) << 18u8);
        self
    }

    /// (Bit 19)
    #[allow(non_snake_case)]
    pub fn MON_REQ(&mut self, val: u8) -> (r: &mut Self)
        ensures
            r@ == (old(self)@ & !((0x01u8 as u32) << 19u8)) | (((val & 0x01u8) as u32) << 19u8),
            *final(self) == *final(r),
    {
        self.inner = self.inner & !((0x01u8 as u32) << 19u8);
        self.inner = self.inner | (((val & 0x01u8) as u32) << 19u8);
        self
    }

    /// (Bit 24) Enables the DWT and ITM:\n0: DWT and ITM are disabled.\n1: DWT and ITM are enabled.
    #[allow(non_snake_case)]
    pub fn TRCENA(&mut self, val: u8) -> (r: &mut Self)
        ensures
            r@ == (old(self)@ & !((0x01u8 as u32) << 24u8)) | (((val & 0x01u8) as u32) << 24u8),
            *final(self) == *final(r),
    {
        self.inner = self.inner & !((0x01u8 as u32) << 24u8);
        self.inner = self.inner | (((val & 0x01u8) as u32) << 24u8);
        self
    }

}

impl From<R> for W {
    fn from(r: R) -> (w: W)
        ensures
            w@ == r@,
    {
        W { inner: r.inner }
    }
}

impl vstd::std_specs::convert::FromSpecImpl<R> for W {
    open spec fn obeys_from_spec() -> bool {
        true
    }

    closed spec fn from_spec(r: R) -> W {
        W { inner: r.inner }
    }
}

impl W {
    /// Copies the contents of `R`, unchanged
    pub fn copy(&mut self, r: R) -> (w: &mut Self)
        ensures
            w@ == r@,
            *final(self) == *final(w),
    {
        *self = W::from(r);
        self
    }
}

/// Each field that is both readable and writable reads back what was written into it:
/// the value written, cut to the width of the field.
pub proof fn lemma_write_read(x: u32, v8: u8)
    by (bit_vector)
    ensures
        ((((x & !((0x01u8 as u32) << 0u8)) | (((v8 & 0x01u8) as u32) << 0u8)) >> 0u8) as u8) & 0x01u8 == v8 & 0x01u8,
        ((((x & !((0x01u8 as u32) << 4u8)) | (((v8 & 0x01u8) as u32) << 4u8)) >> 4u8) as u8) & 0x01u8 == v8 & 0x01u8,
        ((((x & !((0x01u8 as u32) << 5u8)) | (((v8 & 0x01u8) as u32) << 5u8)) >> 5u8) as u8) & 0x01u8 == v8 & 0x01u8,
        ((((x & !((0x01u8 as u32) << 6u8)) | (((v8 & 0x01u8) as u32) << 6u8)) >> 6u8) as u8) & 0x01u8 == v8 & 0x01u8,
        ((((x & !((0x01u8 as u32) << 7u8)) | (((v8 & 0x01u8) as u32) << 7u8)) >> 7u8) as u8) & 0x01u8 == v8 & 0x01u8,
        ((((x & !((0x01u8 as u32) << 8u8)) | (((v8 & 0x01u8) as u32) << 8u8)) >> 8u8) as u8) & 0x01u8 == v8 & 0x01u8,
        ((((x & !((0x01u8 as u32) << 9u8)) | (((v8 & 0x01u8) as u32) << 9u8)) >> 9u8) as u8) & 0x01u8 == v8 & 0x01u8,
        ((((x & !((0x01u8 as u32) << 10u8)) | (((v8 & 0x01u8) as u32) << 10u8)) >> 10u8) as u8) & 0x01u8 == v8 & 0x01u8,
        ((((x & !((0x01u8 as u32) << 16u8)) | (((v8 & 0x01u8) as u32) << 16u8)) >> 16u8) as u8) & 0x01u8 == v8 & 0x01u8,
        ((((x & !((0x01u8 as u32) << 17u8)) | (((v8 & 0x01u8) as u32) << 17u8)) >> 17u8) as u8) & 0x01u8 == v8 & 0x01u8,
        ((((x & !((0x01u8 as u32) << 18u8)) | (((v8 & 0x01u8) as u32) << 18u8)) >> 18u8) as u8) & 0x01u8 == v8 & 0x01u8,
        ((((x & !((0x01u8 as u32) << 19u8)) | (((v8 & 0x01u8) as u32) << 19u8)) >> 19u8) as u8) & 0x01u8 == v8 & 0x01u8,
        ((((x & !((0x01u8 as u32) << 24u8)) | (((v8 & 0x01u8) as u32) << 24u8)) >> 24u8) as u8) & 0x01u8 == v8 & 0x01u8,
{
}

} // verus!
