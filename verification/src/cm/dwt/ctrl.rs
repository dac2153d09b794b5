//! Control register
use vstd::prelude::*;

verus! {

/// Singleton handle to the register
pub struct Register {
    not_send_or_sync: (),
}

impl Register {
    pub(crate) fn new() -> Self {
        Self { not_send_or_sync: () }
    }

    /// Returns the address of this register
    pub fn address() -> (r: usize)
        ensures
            r == super::BASE_ADDRESS + 0x0,
    {
        super::BASE_ADDRESS + 0x0
    }
}

/// View into the readable bitfields
#[derive(Clone, Copy)]
pub struct R {
    inner: u32,
}

impl View for R {
    type V = u32;

    closed spec fn view(&self) -> u32 {
        self.inner
    }
}

impl From<u32> for R {
    fn from(bits: u32) -> (r: R)
        ensures
            r@ == bits,
    {
        R { inner: bits }
    }
}

impl vstd::std_specs::convert::FromSpecImpl<u32> for R {
    open spec fn obeys_from_spec() -> bool {
        true
    }

    closed spec fn from_spec(bits: u32) -> R {
        R { inner: bits }
    }
}

impl From<R> for u32 {
    fn from(r: R) -> (bits: u32)
        ensures
            bits == r@,
    {
        r.inner
    }
}

impl vstd::std_specs::convert::FromSpecImpl<R> for u32 {
    open spec fn obeys_from_spec() -> bool {
        true
    }

    open spec fn from_spec(r: R) -> u32 {
        r@
    }
}

impl R {
    /// (Bit 0) Enables the cycle counter.\n0: Counter disabled.\n1: Counter enabled.
    #[allow(non_snake_case)]
    pub fn CYCCNTENA(self) -> (r: u8)
        ensures
            r == ((self@ >> 0u8) as u8) & 0x01u8,
    {
        ((self.inner >> 0u8) as u8) & 0x01u8
    }

    /// (Bit 1)
    #[allow(non_snake_case)]
    pub fn POSTPRESET(self) -> (r: u8)
        ensures
            r == ((self@ >> 1u8) as u8) & 0x01u8,
    {
        ((self.inner >> 1u8) as u8) & 0x01u8
    }

    /// (Bits 5..=9)
    #[allow(non_snake_case)]
    pub fn POSTINIT(self) -> (r: u8)
        ensures
            r == ((self@ >> 5u8) as u8) & 0x0fu8,
    {
        ((self.inner >> 5u8) as u8) & 0x0fu8
    }

    /// (Bit 9)
    #[allow(non_snake_case)]
    pub fn CYCTAP(self) -> (r: u8)
        ensures
            r == ((self@ >> 9u8) as u8) & 0x01u8,
    {
        ((self.inner >> 9u8) as u8) & 0x01u8
    }

    /// (Bits 10..=12)
    #[allow(non_snake_case)]
    pub fn SYNCTAP(self) -> (r: u8)
        ensures
            r == ((self@ >> 10u8) as u8) & 0x03u8,
    {
        ((self.inner >> 10u8) as u8) & 0x03u8
    }

    /// (Bit 12)
    #[allow(non_snake_case)]
    pub fn PCSAMPLENA(self) -> (r: u8)
        ensures
            r == ((self@ >> 12u8) as u8) & 0x01u8,
    {
        ((self.inner >> 12u8) as u8) & 0x01u8
    }

    /// (Bit 16)
    #[allow(non_snake_case)]
    pub fn EXCTRCENA(self) -> (r: u8)
        ensures
            r == ((self@ >> 16u8) as u8) & 0x01u8,
    {
        ((self.inner >> 16u8) as u8) & 0x01u8
    }

    /// (Bit 17)
    #[allow(non_snake_case)]
    pub fn CPIEVTENA(self) -> (r: u8)
        ensures
            r == ((self@ >> 17u8) as u8) & 0x01u8,
    {
        ((self.inner >> 17u8) as u8) & 0x01u8
    }

    /// (Bit 18)
    #[allow(non_snake_case)]
    pub fn EXCEVTENA(self) -> (r: u8)
        ensures
            r == ((self@ >> 18u8) as u8) & 0x01u8,
    {
        ((self.inner >> 18u8) as u8) & 0x01u8
    }

    /// (Bit 19)
    #[allow(non_snake_case)]
    pub fn SLEEPEVTENA(self) -> (r: u8)
        ensures
            r == ((self@ >> 19u8) as u8) & 0x01u8,
    {
        ((self.inner >> 19u8) as u8) & 0x01u8
    }

    /// (Bit 20)
    #[allow(non_snake_case)]
    pub fn LSUEVTENA(self) -> (r: u8)
        ensures
            r == ((self@ >> 20u8) as u8) & 0x01u8,
    {
        ((self.inner >> 20u8) as u8) & 0x01u8
    }

    /// (Bit 21)
    #[allow(non_snake_case)]
    pub fn FOLDEVTENA(self) -> (r: u8)
        ensures
            r == ((self@ >> 21u8) as u8) & 0x01u8,
    {
        ((self.inner >> 21u8) as u8) & 0x01u8
    }

    /// (Bit 22)
    #[allow(non_snake_case)]
    pub fn CYCEVTENA(self) -> (r: u8)
        ensures
            r == ((self@ >> 22u8) as u8) & 0x01u8,
    {
        ((self.inner >> 22u8) as u8) & 0x01u8
    }

    /// (Bit 24)
    #[allow(non_snake_case)]
    pub fn NOPRFCNT(self) -> (r: u8)
        ensures
            r == ((self@ >> 24u8) as u8) & 0x01u8,
    {
        ((self.inner >> 24u8) as u8) & 0x01u8
    }

    /// (Bit 25)
    #[allow(non_snake_case)]
    pub fn NOCYCCNT(self) -> (r: u8)
        ensures
            r == ((self@ >> 25u8) as u8) & 0x01u8,
    {
        ((self.inner >> 25u8) as u8) & 0x01u8
    }

    /// (Bit 26)
    #[allow(non_snake_case)]
    pub fn NOEXTTRIG(self) -> (r: u8)
        ensures
            r == ((self@ >> 26u8) as u8) & 0x01u8,
    {
        ((self.inner >> 26u8) as u8) & 0x01u8
    }

    /// (Bit 27)
    #[allow(non_snake_case)]
    pub fn NOTRCPKT(self) -> (r: u8)
        ensures
            r == ((self@ >> 27u8) as u8) & 0x01u8,
    {
        ((self.inner >> 27u8) as u8) & 0x01u8
    }

    /// (Bits 28..=32)
    #[allow(non_snake_case)]
    pub fn NUMCOMP(self) -> (r: u8)
        ensures
            r == ((self@ >> 28u8) as u8) & 0x0fu8,
    {
        ((self.inner >> 28u8) as u8) & 0x0fu8
    }

    /// Returns the non-reserved part of the register
    pub fn bits(self) -> (r: u32)
        ensures
            r == self@,
    {
        self.inner
    }
}

/// View into the writable bitfields
#[derive(Clone, Copy)]
pub struct W {
    inner: u32,
}

impl View for W {
    type V = u32;

    closed spec fn view(&self) -> u32 {
        self.inner
    }
}

impl From<W> for u32 {
    fn from(w: W) -> (bits: u32)
        ensures
            bits == w@,
    {
        w.inner
    }
}

impl vstd::std_specs::convert::FromSpecImpl<W> for u32 {
    open spec fn obeys_from_spec() -> bool {
        true
    }

    open spec fn from_spec(w: W) -> u32 {
        w@
    }
}

impl W {
    /// Writable view with all bitfields set to zero
    pub fn zero() -> (r: W)
        ensures
            r@ == 0,
    {
        W { inner: 0 }
    }

    /// (Bit 0) Enables the cycle counter.\n0: Counter disabled.\n1: Counter enabled.
    #[allow(non_snake_case)]
    pub fn CYCCNTENA(&mut self, val: u8) -> (r: &mut Self)
        ensures
            r@ == (old(self)@ & !((0x01u8 as u32) << 0u8)) | (((val & 0x01u8) as u32) << 0u8),
            *final(self) == *final(r),
    {
        self.inner = self.inner & !((0x01u8 as u32) << 0u8);
        self.inner = self.inner | (((val & 0x01u8) as u32) << 0u8);
        self
    }

    /// (Bit 1)
    #[allow(non_snake_case)]
    pub fn POSTPRESET(&mut self, val: u8) -> (r: &mut Self)
        ensures
            r@ == (old(self)@ & !((0x01u8 as u32) << 1u8)) | (((val & 0x01u8) as u32) << 1u8),
            *final(self) == *final(r),
    {
        self.inner = self.inner & !((0x01u8 as u32) << 1u8);
        self.inner = self.inner | (((val & 0x01u8) as u32) << 1u8);
        self
    }

    /// (Bits 5..=9)
    #[allow(non_snake_case)]
    pub fn POSTINIT(&mut self, val: u8) -> (r: &mut Self)
        ensures
            r@ == (old(self)@ & !((0x0fu8 as u32) << 5u8)) | (((val & 0x0fu8) as u32) << 5u8),
            *final(self) == *final(r),
    {
        self.inner = self.inner & !((0x0fu8 as u32) << 5u8);
        self.inner = self.inner | (((val & 0x0fu8) as u32) << 5u8);
        self
    }

    /// (Bit 9)
    #[allow(non_snake_case)]
    pub fn CYCTAP(&mut self, val: u8) -> (r: &mut Self)
        ensures
            r@ == (old(self)@ & !((0x01u8 as u32) << 9u8)) | (((val & 0x01u8) as u32) << 9u8),
            *final(self) == *final(r),
    {
        self.inner = self.inner & !((0x01u8 as u32) << 9u8);
        self.inner = self.inner | (((val & 0x01u8) as u32) << 9u8);
        self
    }

    /// (Bits 10..=12)
    #[allow(non_snake_case)]
    pub fn SYNCTAP(&mut self, val: u8) -> (r: &mut Self)
        ensures
            r@ == (old(self)@ & !((0x03u8 as u32) << 10u8)) | (((val & 0x03u8) as u32) << 10u8),
            *final(self) == *final(r),
    {
        self.inner = self.inner & !((0x03u8 as u32) << 10u8);
        self.inner = self.inner | (((val & 0x03u8) as u32) << 10u8);
        self
    }

    /// (Bit 12)
    #[allow(non_snake_case)]
    pub fn PCSAMPLENA(&mut self, val: u8) -> (r: &mut Self)
        ensures
            r@ == (old(self)@ & !((0x01u8 as u32) << 12u8)) | (((val & 0x01u8) as u32) << 12u8),
            *final(self) == *final(r),
    {
        self.inner = self.inner & !((0x01u8 as u32) << 12u8);
        self.inner = self.inner | (((val & 0x01u8) as u32) << 12u8);
        self
    }

    /// (Bit 16)
    #[allow(non_snake_case)]
    pub fn EXCTRCENA(&mut self, val: u8) -> (r: &mut Self)
        ensures
            r@ == (old(self)@ & !((0x01u8 as u32) << 16u8)) | (((val & 0x01u8) as u32) << 16u8),
            *final(self) == *final(r),
    {
        self.inner = self.inner & !((0x01u8 as u32) << 16u8);
        self.inner = self.inner | (((val & 0x01u8) as u32) << 16u8);
        self
    }

    /// (Bit 17)
    #[allow(non_snake_case)]
    pub fn CPIEVTENA(&mut self, val: u8) -> (r: &mut Self)
        ensures
            r@ == (old(self)@ & !((0x01u8 as u32) << 17u8)) | (((val & 0x01u8) as u32) << 17u8),
            *final(self) == *final(r),
    {
        self.inner = self.inner & !((0x01u8 as u32) << 17u8);
        self.inner = self.inner | (((val & 0x01u8) as u32) << 17u8);
        self
    }

    /// (Bit 18)
    #[allow(non_snake_case)]
    pub fn EXCEVTENA(&mut self, val: u8) -> (r: &mut Self)
        ensures
            r@ == (old(self)@ & !((0x01u8 as u32) << 18u8)) | (((val & 0x01u8) as u32) << 18u8),
            *final(self) == *final(r),
    {
        self.inner = self.inner & !((0x01u8 as u32) << 18u8);
        self.inner = self.inner | (((val & 0x01u8) as u32) << 18u8);
        self
    }

    /// (Bit 19)
    #[allow(non_snake_case)]
    pub fn SLEEPEVTENA(&mut self, val: u8) -> (r: &mut Self)
        ensures
            r@ == (old(self)@ & !((0x01u8 as u32) << 19u8)) | (((val & 0x01u8) as u32) << 19u8),
            *final(self) == *final(r),
    {
        self.inner = self.inner & !((0x01u8 as u32) << 19u8);
        self.inner = self.inner | (((val & 0x01u8) as u32) << 19u8);
        self
    }

    /// (Bit 20)
    #[allow(non_snake_case)]
    pub fn LSUEVTENA(&mut self, val: u8) -> (r: &mut Self)
        ensures
            r@ == (old(self)@ & !((0x01u8 as u32) << 20u8)) | (((val & 0x01u8) as u32) << 20u8),
            *final(self) == *final(r),
    {
        self.inner = self.inner & !((0x01u8 as u32) << 20u8);
        self.inner = self.inner | (((val & 0x01u8) as u32) << 20u8);
        self
    }

    /// (Bit 21)
    #[allow(non_snake_case)]
    pub fn FOLDEVTENA(&mut self, val: u8) -> (r: &mut Self)
        ensures
            r@ == (old(self)@ & !((0x01u8 as u32) << 21u8)) | (((val & 0x01u8) as u32) << 21u8),
            *final(self) == *final(r),
    {
        self.inner = self.inner & !((0x01u8 as u32) << 21u8);
        self.inner = self.inner | (((val & 0x01u8) as u32) << 21u8);
        self
    }

    /// (Bit 22)
    #[allow(non_snake_case)]
    pub fn CYCEVTENA(&mut self, val: u8) -> (r: &mut Self)
        ensures
            r@ == (old(self)@ & !((0x01u8 as u32) << 22u8)) | (((val & 0x01u8) as u32) << 22u8),
            *final(self) == *final(r),
    {
        self.inner = self.inner & !((0x01u8 as u32) << 22u8);
        self.inner = self.inner | (((val & 0x01u8) as u32) << 22u8);
        self
    }

}

impl From<R> for W {
    fn from(r: R) -> (w: W)
        ensures
            w@ == r@ & !(0xff00_0000u32),
    {
        W { inner: r.inner & !(0xff00_0000u32) }
    }
}

impl vstd::std_specs::convert::FromSpecImpl<R> for W {
    open spec fn obeys_from_spec() -> bool {
        true
    }

    closed spec fn from_spec(r: R) -> W {
        W { inner: r.inner & !(0xff00_0000u32) }
    }
}

impl W {
    /// Copies the contents of `R`, with the bits that are not writable cleared
    pub fn copy(&mut self, r: R) -> (w: &mut Self)
        ensures
            w@ == r@ & !(0xff00_0000u32),
            *final(self) == *final(w),
    {
        *self = W::from(r);
        self
    }
}

/// Each field that is both readable and writable reads back what was written into it:
/// the value written, cut to the width of the field.
pub proof fn lemma_write_read(x: u32, v8: u8)
    by (bit_vector)
    ensures
        ((((x & !((0x01u8 as u32) << 0u8)) | (((v8 & 0x01u8) as u32) << 0u8)) >> 0u8) as u8) & 0x01u8 == v8 & 0x01u8,
        ((((x & !((0x01u8 as u32) << 1u8)) | (((v8 & 0x01u8) as u32) << 1u8)) >> 1u8) as u8) & 0x01u8 == v8 & 0x01u8,
        ((((x & !((0x0fu8 as u32) << 5u8)) | (((v8 & 0x0fu8) as u32) << 5u8)) >> 5u8) as u8) & 0x0fu8 == v8 & 0x0fu8,
        ((((x & !((0x01u8 as u32) << 9u8)) | (((v8 & 0x01u8) as u32) << 9u8)) >> 9u8) as u8) & 0x01u8 == v8 & 0x01u8,
        ((((x & !((0x03u8 as u32) << 10u8)) | (((v8 & 0x03u8) as u32) << 10u8)) >> 10u8) as u8) & 0x03u8 == v8 & 0x03u8,
        ((((x & !((0x01u8 as u32) << 12u8)) | (((v8 & 0x01u8) as u32) << 12u8)) >> 12u8) as u8) & 0x01u8 == v8 & 0x01u8,
        ((((x & !((0x01u8 as u32) << 16u8)) | (((v8 & 0x01u8) as u32) << 16u8)) >> 16u8) as u8) & 0x01u8 == v8 & 0x01u8,
        ((((x & !((0x01u8 as u32) << 17u8)) | (((v8 & 0x01u8) as u32) << 17u8)) >> 17u8) as u8) & 0x01u8 == v8 & 0x01u8,
        ((((x & !((0x01u8 as u32) << 18u8)) | (((v8 & 0x01u8) as u32) << 18u8)) >> 18u8) as u8) & 0x01u8 == v8 & 0x01u8,
        ((((x & !((0x01u8 as u32) << 19u8)) | (((v8 & 0x01u8) as u32) << 19u8)) >> 19u8) as u8) & 0x01u8 == v8 & 0x01u8,
        ((((x & !((0x01u8 as u32) << 20u8)) | (((v8 & 0x01u8) as u32) << 20u8)) >> 20u8) as u8) & 0x01u8 == v8 & 0x01u8,
        ((((x & !((0x01u8 as u32) << 21u8)) | (((v8 & 0x01u8) as u32) << 21u8)) >> 21u8) as u8) & 0x01u8 == v8 & 0x01u8,
        ((((x & !((0x01u8 as u32) << 22u8)) | (((v8 & 0x01u8) as u32) << 22u8)) >> 22u8) as u8) & 0x01u8 == v8 & 0x01u8,
{
}

} // verus!
