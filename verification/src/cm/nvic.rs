//! Nested Vector Interrupt Controller
use vstd::prelude::*;

pub mod iser0;
pub mod iser1;
pub mod icer0;
pub mod icer1;
pub mod ispr0;
pub mod ispr1;

verus! {

/// Interrupt Set-Enable Register 0
#[allow(non_camel_case_types)]
pub type ISER0 = iser0::Register;

/// Interrupt Set-Enable Register 1
#[allow(non_camel_case_types)]
pub type ISER1 = iser1::Register;

/// Interrupt Clear-Enable Register 0
#[allow(non_camel_case_types)]
pub type ICER0 = icer0::Register;

/// Interrupt Clear-Enable Register 1
#[allow(non_camel_case_types)]
pub type ICER1 = icer1::Register;

/// Interrupt Set-Pending Register 0
#[allow(non_camel_case_types)]
pub type ISPR0 = ispr0::Register;

/// Interrupt Set-Pending Register 1
#[allow(non_camel_case_types)]
pub type ISPR1 = ispr1::Register;

/// Base address of the peripheral
pub const BASE_ADDRESS: usize = 0xe000_e100;

/// Whether the registers of the peripheral were handed out, or sealed.
pub struct Claim {
    taken: bool,
}

impl Claim {
    /// The registers were handed out, or sealed.
    pub closed spec fn is_taken(&self) -> bool {
        self.taken
    }

    /// Nothing handed out yet.
    pub fn new() -> (r: Self)
        ensures
            !r.is_taken(),
    {
        Claim { taken: false }
    }
}

/// Singleton handle to the NVIC registers
#[allow(non_snake_case)]
pub struct Registers {
    /// Interrupt Set-Enable Register 0
    pub ISER0: ISER0,
    /// Interrupt Set-Enable Register 1
    pub ISER1: ISER1,
    /// Interrupt Clear-Enable Register 0
    pub ICER0: ICER0,
    /// Interrupt Clear-Enable Register 1
    pub ICER1: ICER1,
    /// Interrupt Set-Pending Register 0
    pub ISPR0: ISPR0,
    /// Interrupt Set-Pending Register 1
    pub ISPR1: ISPR1,
}

impl Registers {
    fn new() -> Self {
        Self {
            ISER0: ISER0::new(),
            ISER1: ISER1::new(),
            ICER0: ICER0::new(),
            ICER1: ICER1::new(),
            ISPR0: ISPR0::new(),
            ISPR1: ISPR1::new(),
        }
    }

    /// Seals the peripheral making it impossible to `take` it
    pub fn seal(claim: &mut Claim)
        ensures
            final(claim).is_taken(),
    {
        claim.taken = true;
    }

    /// Takes ownership of the peripheral
    ///
    /// This constructor returns the `Some` variant only once
    pub fn take(claim: &mut Claim) -> (r: Option<Self>)
        ensures
            r is Some <==> !old(claim).is_taken(),
            final(claim).is_taken(),
    {
        if claim.taken {
            None
        } else {
            claim.taken = true;
            Some(Self::new())
        }
    }
}

} // verus!
