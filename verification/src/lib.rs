use vstd::prelude::*;

pub mod binfmt;
pub mod binfmt_parser;
pub mod cm;
pub mod cmsis_dap;
pub mod dll;
pub mod mutex;
pub mod regen;
pub mod regen_ufmt;
pub mod semidap;
pub mod spsc;
pub mod task;
pub mod tasks;
pub mod text;
pub mod usb2;
pub mod usbd;

verus! {
} // verus!
