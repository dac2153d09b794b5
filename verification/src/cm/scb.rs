//! System Control Block
use vstd::prelude::*;

pub mod cpuid;
pub mod icsr;
pub mod vtor;
pub mod aircr;

verus! {

/// CPUID Base register
#[allow(non_camel_case_types)]
pub type CPUID = cpuid::Register;

/// Interrupt Control and State Register
#[allow(non_camel_case_types)]
pub type ICSR = icsr::Register;

/// Vector Table Offset Register
#[allow(non_camel_case_types)]
pub type VTOR = vtor::Register;

/// Application Interrupt and Reset Control Register
#[allow(non_camel_case_types)]
pub type AIRCR = aircr::Register;

/// Base address of the peripheral
pub const BASE_ADDRESS: usize = 0xe000_ed00;

/// Whether the registers of the peripheral were handed out, or sealed.
pub struct Claim {
    taken: bool,
}

impl Claim {
    /// The registers were handed out, or sealed.
    pub closed spec fn is_taken(&self) -> bool {
        self.taken
    }

    /// Nothing handed out yet.
    pub fn new() -> (r: Self)
        ensures
            !r.is_taken(),
    {
        Claim { taken: false }
    }
}

/// Singleton handle to the SCB registers
#[allow(non_snake_case)]
pub struct Registers {
    /// CPUID Base register
    pub CPUID: CPUID,
    /// Interrupt Control and State Register
    pub ICSR: ICSR,
    /// Vector Table Offset Register
    pub VTOR: VTOR,
    /// Application Interrupt and Reset Control Register
    pub AIRCR: AIRCR,
}

impl Registers {
    fn new() -> Self {
        Self {
            CPUID: CPUID::new(),
            ICSR: ICSR::new(),
            VTOR: VTOR::new(),
            AIRCR: AIRCR::new(),
        }
    }

    /// Seals the peripheral making it impossible to `take` it
    pub fn seal(claim: &mut Claim)
        ensures
            final(claim).is_taken(),
    {
        claim.taken = true;
    }

    /// Takes ownership of the peripheral
    ///
    /// This constructor returns the `Some` variant only once
    pub fn take(claim: &mut Claim) -> (r: Option<Self>)
        ensures
            r is Some <==> !old(claim).is_taken(),
            final(claim).is_taken(),
    {
        if claim.taken {
            None
        } else {
            claim.taken = true;
            Some(Self::new())
        }
    }
}

} // verus!
