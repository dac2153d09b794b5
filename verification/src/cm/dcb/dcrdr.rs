//! Debug Core Register Data Register
use vstd::prelude::*;

verus! {

/// Singleton handle to the register
pub struct Register {
    not_send_or_sync: (),
}

impl Register {
    pub(crate) fn new() -> Self {
        Self { not_send_or_sync: () }
    }

    /// Returns the address of this register
    pub fn address() -> (r: usize)
        ensures
            r == super::BASE_ADDRESS + 0x8,
    {
        super::BASE_ADDRESS + 0x8
    }
}

} // verus!
