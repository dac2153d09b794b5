//! Debug Control Block
use vstd::prelude::*;

pub mod dhcsr;
pub mod dcrsr;
pub mod dcrdr;
pub mod demcr;

verus! {

/// Debug Halting Control and Status Register
#[allow(non_camel_case_types)]
pub type DHCSR = dhcsr::Register;

/// Debug Core Register Selector Register
#[allow(non_camel_case_types)]
pub type DCRSR = dcrsr::Register;

/// Debug Core Register Data Register
#[allow(non_camel_case_types)]
pub type DCRDR = dcrdr::Register;

/// Debug Exception and Monitor Control Register
#[allow(non_camel_case_types)]
pub type DEMCR = demcr::Register;

/// Base address of the peripheral
pub const BASE_ADDRESS: usize = 0xe000_edf0;

/// Whether the registers of the peripheral were handed out, or sealed.
pub struct Claim {
    taken: bool,
}

impl Claim {
    /// The registers were handed out, or sealed.
    pub closed spec fn is_taken(&self) -> bool {
        self.taken
    }

    /// Nothing handed out yet.
    pub fn new() -> (r: Self)
        ensures
            !r.is_taken(),
    {
        Claim { taken: false }
    }
}

/// Singleton handle to the DCB registers
#[allow(non_snake_case)]
pub struct Registers {
    /// Debug Halting Control and Status Register
    pub DHCSR: DHCSR,
    /// Debug Core Register Selector Register
    pub DCRSR: DCRSR,
    /// Debug Core Register Data Register
    pub DCRDR: DCRDR,
    /// Debug Exception and Monitor Control Register
    pub DEMCR: DEMCR,
}

impl Registers {
    fn new() -> Self {
        Self {
            DHCSR: DHCSR::new(),
            DCRSR: DCRSR::new(),
            DCRDR: DCRDR::new(),
            DEMCR: DEMCR::new(),
        }
    }

    /// Seals the peripheral making it impossible to `take` it
    pub fn seal(claim: &mut Claim)
        ensures
            final(claim).is_taken(),
    {
        claim.taken = true;
    }

    /// Takes ownership of the peripheral
    ///
    /// This constructor returns the `Some` variant only once
    pub fn take(claim: &mut Claim) -> (r: Option<Self>)
        ensures
            r is Some <==> !old(claim).is_taken(),
            final(claim).is_taken(),
    {
        if claim.taken {
            None
        } else {
            claim.taken = true;
            Some(Self::new())
        }
    }
}

} // verus!
