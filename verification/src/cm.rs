//! Cortex-M register API
//!
//! # References
//! - ARMv7-M Architecture Reference Manual (ARM DDI 0403E.b)
use vstd::prelude::*;

pub mod dcb;
pub mod dwt;
pub mod nvic;
pub mod scb;

verus! {

/// An instance of a peripheral
pub trait Peripheral {
    /// The base address of the peripheral instance
    fn base_address() -> usize;
}

/// Debug Control Block
#[allow(non_camel_case_types)]
pub type DCB = dcb::Registers;

/// Data Watchpoint and Trace
#[allow(non_camel_case_types)]
pub type DWT = dwt::Registers;

/// Nested Vector Interrupt Controller
#[allow(non_camel_case_types)]
pub type NVIC = nvic::Registers;

/// System Control Block
#[allow(non_camel_case_types)]
pub type SCB = scb::Registers;

} // verus!
