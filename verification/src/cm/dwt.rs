//! Data Watchpoint and Trace
use vstd::prelude::*;

pub mod ctrl;
pub mod cyccnt;

verus! {

/// Control register
#[allow(non_camel_case_types)]
pub type CTRL = ctrl::Register;

/// Cycle Count register
#[allow(non_camel_case_types)]
pub type CYCCNT = cyccnt::Register;

/// Base address of the peripheral
pub const BASE_ADDRESS: usize = 0xe000_1000;

/// Whether the registers of the peripheral were handed out, or sealed.
pub struct Claim {
    taken: bool,
}

impl Claim {
    /// The registers were handed out, or sealed.
    pub closed spec fn is_taken(&self) -> bool {
        self.taken
    }

    /// Nothing handed out yet.
    pub fn new() -> (r: Self)
        ensures
            !r.is_taken(),
    {
        Claim { taken: false }
    }
}

/// Singleton handle to the DWT registers
#[allow(non_snake_case)]
pub struct Registers {
    /// Control register
    pub CTRL: CTRL,
    /// Cycle Count register
    pub CYCCNT: CYCCNT,
}

impl Registers {
    fn new() -> Self {
        Self {
            CTRL: CTRL::new(),
            CYCCNT: CYCCNT::new(),
        }
    }

    /// Seals the peripheral making it impossible to `take` it
    pub fn seal(claim: &mut Claim)
        ensures
            final(claim).is_taken(),
    {
        claim.taken = true;
    }

    /// Takes ownership of the peripheral
    ///
    /// This constructor returns the `Some` variant only once
    pub fn take(claim: &mut Claim) -> (r: Option<Self>)
        ensures
            r is Some <==> !old(claim).is_taken(),
            final(claim).is_taken(),
    {
        if claim.taken {
            None
        } else {
            claim.taken = true;
            Some(Self::new())
        }
    }
}

} // verus!
