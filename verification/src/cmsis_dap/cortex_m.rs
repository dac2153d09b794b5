//! Cortex-M specific operations: the register values that halting, resuming, resetting and core
//! register accesses write, and the checks on what the target answers.
use vstd::prelude::*;

use crate::cm::dcb::{dcrsr, demcr, dhcsr};
use crate::cm::scb::aircr;
use crate::cmsis_dap::{Dap, DapError, DapView};

verus! {

/// Cortex-M register that the DAP can read
#[derive(Clone, Copy, Debug, PartialEq, Eq, Structural)]
pub enum Register {
    /// R0
    R0,
    /// R1
    R1,
    /// R2
    R2,
    /// R3
    R3,
    /// R4
    R4,
    /// R5
    R5,
    /// R6
    R6,
    /// R7
    R7,
    /// R8
    R8,
    /// R9
    R9,
    /// R10
    R10,
    /// R11
    R11,
    /// R12
    R12,
    /// Stack Pointer
    SP,
    /// Link register
    LR,
    /// Program Counter (AKA Debug Return Address)
    PC,
    /// Program Status Register
    XPSR,
    /// CONTROL - FAULTMASK - BASEPRI - PRIMASK
    CFBP,
}

/// The `REGSEL` value that selects a core register in DCRSR.
pub open spec fn regsel_spec(reg: Register) -> u8 {
    match reg {
        Register::R0 => 0b00000,
        Register::R1 => 0b00001,
        Register::R2 => 0b00010,
        Register::R3 => 0b00011,
        Register::R4 => 0b00100,
        Register::R5 => 0b00101,
        Register::R6 => 0b00110,
        Register::R7 => 0b00111,
        Register::R8 => 0b01000,
        Register::R9 => 0b01001,
        Register::R10 => 0b01010,
        Register::R11 => 0b01011,
        Register::R12 => 0b01100,
        Register::SP => 0b01101,
        Register::LR => 0b01110,
        Register::PC => 0b01111,
        Register::XPSR => 0b10000,
        Register::CFBP => 0b10100,
    }
}

impl Register {
    /// The `REGSEL` value that selects this register in DCRSR.
    pub fn regsel(self) -> (r: u8)
        ensures
            r == regsel_spec(self),
    {
        match self {
            Register::R0 => 0b00000,
            Register::R1 => 0b00001,
            Register::R2 => 0b00010,
            Register::R3 => 0b00011,
            Register::R4 => 0b00100,
            Register::R5 => 0b00101,
            Register::R6 => 0b00110,
            Register::R7 => 0b00111,
            Register::R8 => 0b01000,
            Register::R9 => 0b01001,
            Register::R10 => 0b01010,
            Register::R11 => 0b01011,
            Register::R12 => 0b01100,
            Register::SP => 0b01101,
            Register::LR => 0b01110,
            Register::PC => 0b01111,
            Register::XPSR => 0b10000,
            Register::CFBP => 0b10100,
        }
    }
}

/// DCRSR selects one core register per `REGSEL` value: distinct registers get distinct selectors,
/// each selector fits the 7-bit field, and each is the register's ARMv7-M DCRSR encoding (R0 to
/// R12, SP, LR and PC as 0 to 15, xPSR as 16, CONTROL/FAULTMASK/BASEPRI/PRIMASK as 20).
pub proof fn regsel_selects_one_register(a: Register, b: Register)
    ensures
        (regsel_spec(a) == regsel_spec(b)) == (a == b),
        regsel_spec(a) < 0x80,
        regsel_spec(Register::R0) == 0 && regsel_spec(Register::R1) == 1 && regsel_spec(Register::R2) == 2
            && regsel_spec(Register::R3) == 3 && regsel_spec(Register::R4) == 4 && regsel_spec(Register::R5) == 5
            && regsel_spec(Register::R6) == 6 && regsel_spec(Register::R7) == 7 && regsel_spec(Register::R8) == 8
            && regsel_spec(Register::R9) == 9 && regsel_spec(Register::R10) == 10 && regsel_spec(Register::R11) == 11
            && regsel_spec(Register::R12) == 12,
        regsel_spec(Register::SP) == 13 && regsel_spec(Register::LR) == 14 && regsel_spec(Register::PC) == 15,
        regsel_spec(Register::XPSR) == 16 && regsel_spec(Register::CFBP) == 20,
{
}

/// The DCRSR value of a core register transfer reads back as that register's selector in its
/// `REGSEL` field and as the direction in its `REGWnR` bit.
pub proof fn dcrsr_request_selects(reg: Register, write: bool)
    ensures
        field_u8(with_u8(with_u8(0, 0x01, 16, if write { 1u8 } else { 0u8 }), 0x7f, 0, regsel_spec(reg)), 0x7f, 0) == regsel_spec(reg),
        field_u8(with_u8(with_u8(0, 0x01, 16, if write { 1u8 } else { 0u8 }), 0x7f, 0, regsel_spec(reg)), 0x01, 16) == (if write { 1u8 } else { 0u8 }),
{
    let v = regsel_spec(reg);
    let w: u8 = if write { 1u8 } else { 0u8 };
    assert(v < 0x80);
    assert(w <= 1);
    assert(((((0u32 & !((0x01u8 as u32) << 16u8)) | (((w & 0x01u8) as u32) << 16u8)) & !((0x7fu8 as u32) << 0u8)
        | (((v & 0x7fu8) as u32) << 0u8)) >> 0u8) as u8 & 0x7fu8 == v) by (bit_vector)
        requires
            v < 0x80,
    ;
    assert(((((0u32 & !((0x01u8 as u32) << 16u8)) | (((w & 0x01u8) as u32) << 16u8)) & !((0x7fu8 as u32) << 0u8)
        | (((v & 0x7fu8) as u32) << 0u8)) >> 16u8) as u8 & 0x01u8 == w) by (bit_vector)
        requires
            v < 0x80,
            w <= 1,
    ;
}

/// Debug Key
pub const DBGKEY: u16 = 0xA05F;

/// Vector Key
pub const VECTKEY: u16 = 0x05fa;

/// `x` with the field of `mask` at `off` set to `v`, as the register API's writers set it.
pub open spec fn with_u8(x: u32, mask: u8, off: u8, v: u8) -> u32 {
    (x & !((mask as u32) << off)) | (((v & mask) as u32) << off)
}

/// `x` with the 16-bit field of `mask` at `off` set to `v`, as the register API's writers set it.
pub open spec fn with_u16(x: u32, mask: u16, off: u8, v: u16) -> u32 {
    (x & !((mask as u32) << off)) | (((v & mask) as u32) << off)
}

/// The field of `mask` at `off` of `x`, as the register API's readers read it.
pub open spec fn field_u8(x: u32, mask: u8, off: u8) -> u8 {
    ((x >> off) as u8) & mask
}

/// The DHCSR value that keeps the writable bits of `dhcsr`, with the debug key, `C_HALT` set to
/// `halt` and halting debug on.
pub open spec fn dhcsr_request(dhcsr: u32, halt: u8) -> u32 {
    with_u8(with_u8(with_u16(dhcsr & !(0x030f_0000u32), 0xffff, 16, DBGKEY), 0x01, 1, halt), 0x01, 0, 1)
}

/// The DHCSR value that keeps the writable bits of `dhcsr`, with the debug key and halting debug on.
pub open spec fn debugen_request(dhcsr: u32) -> u32 {
    with_u8(with_u16(dhcsr & !(0x030f_0000u32), 0xffff, 16, DBGKEY), 0x01, 0, 1)
}

/// What halting the target writes into DHCSR, given what it read there: nothing when `C_HALT` is
/// already set.
pub fn halt_request(dhcsr: u32) -> (r: Option<u32>)
    ensures
        r == (if field_u8(dhcsr, 0x01, 1) == 0 { Some(dhcsr_request(dhcsr, 1)) } else { None::<u32> }),
{
    let r = dhcsr::R::from(dhcsr);
    if r.C_HALT() == 0 {
        let mut w = dhcsr::W::from(r);
        w.DBGKEY(DBGKEY).C_HALT(1).C_DEBUGEN(1);
        Some(u32::from(w))
    } else {
        None
    }
}

/// Checks the DHCSR read after the halt request: `C_HALT` must be set.
pub fn halt_check(dhcsr: u32) -> (r: Result<(), DapError>)
    ensures
        r == (if field_u8(dhcsr, 0x01, 1) == 0 { Err(DapError::HaltFailed(dhcsr)) } else { Ok::<(), DapError>(()) }),
{
    if dhcsr::R::from(dhcsr).C_HALT() == 0 {
        Err(DapError::HaltFailed(dhcsr))
    } else {
        Ok(())
    }
}

/// What resuming the target writes into DHCSR, given what it read there.
pub fn resume_request(dhcsr: u32) -> (r: u32)
    ensures
        r == dhcsr_request(dhcsr, 0),
{
    let mut w = dhcsr::W::from(dhcsr::R::from(dhcsr));
    w.DBGKEY(DBGKEY).C_HALT(0).C_DEBUGEN(1);
    u32::from(w)
}

/// Checks the DHCSR read after the resume request: `C_HALT` must be clear.
pub fn resume_check(dhcsr: u32) -> (r: Result<(), DapError>)
    ensures
        r == (if field_u8(dhcsr, 0x01, 1) != 0 { Err(DapError::ResumeFailed(dhcsr)) } else { Ok::<(), DapError>(()) }),
{
    if dhcsr::R::from(dhcsr).C_HALT() != 0 {
        Err(DapError::ResumeFailed(dhcsr))
    } else {
        Ok(())
    }
}

/// Whether DHCSR says the core is halted (`S_HALT`).
pub fn is_halted(dhcsr: u32) -> (r: bool)
    ensures
        r == (field_u8(dhcsr, 0x01, 17) != 0),
{
    dhcsr::R::from(dhcsr).S_HALT() != 0
}

/// Whether DHCSR says the core register transfer is done (`S_REGRDY`).
pub fn register_ready(dhcsr: u32) -> (r: bool)
    ensures
        r == (field_u8(dhcsr, 0x01, 16) != 0),
{
    dhcsr::R::from(dhcsr).S_REGRDY() != 0
}

/// What enabling halting debug writes into DHCSR, given what it read there: nothing when
/// `C_DEBUGEN` is already set.
pub fn debugen_request_value(dhcsr: u32) -> (r: Option<u32>)
    ensures
        r == (if field_u8(dhcsr, 0x01, 0) == 0 { Some(debugen_request(dhcsr)) } else { None::<u32> }),
{
    let r = dhcsr::R::from(dhcsr);
    if r.C_DEBUGEN() == 0 {
        let mut w = dhcsr::W::from(r);
        w.DBGKEY(DBGKEY).C_DEBUGEN(1);
        Some(u32::from(w))
    } else {
        None
    }
}

/// Checks the DHCSR read after enabling halting debug: `C_DEBUGEN` must be set.
pub fn debugen_check(dhcsr: u32) -> (r: Result<(), DapError>)
    ensures
        r == (if field_u8(dhcsr, 0x01, 0) == 0 { Err(DapError::DebugenFailed(dhcsr)) } else { Ok::<(), DapError>(()) }),
{
    if dhcsr::R::from(dhcsr).C_DEBUGEN() == 0 {
        Err(DapError::DebugenFailed(dhcsr))
    } else {
        Ok(())
    }
}

/// The DCRSR value that asks for a transfer of core register `reg`: `write` from DCRDR into the
/// register, or else from the register into DCRDR.
pub fn dcrsr_request(reg: Register, write: bool) -> (r: u32)
    ensures
        r == with_u8(with_u8(0, 0x01, 16, if write { 1u8 } else { 0u8 }), 0x7f, 0, regsel_spec(reg)),
{
    let mut w = dcrsr::W::zero();
    w.REGWnR(if write { 1 } else { 0 }).REGSEL(reg.regsel());
    u32::from(w)
}

/// The DEMCR value that a reset writes, given what it read there: `VC_CORERESET` set when the
/// core is to halt out of reset.
pub fn demcr_request(demcr: u32, halt: bool) -> (r: u32)
    ensures
        r == with_u8(demcr, 0x01, 0, if halt { 1u8 } else { 0u8 }),
{
    let mut w = demcr::W::from(demcr::R::from(demcr));
    w.VC_CORERESET(if halt { 1 } else { 0 });
    u32::from(w)
}

/// The AIRCR value that requests a system reset, given what it read there.
pub fn aircr_request(aircr: u32) -> (r: u32)
    ensures
        r == with_u8(with_u16(aircr & !(0xffff_8000u32), 0xffff, 16, VECTKEY), 0x01, 2, 1),
{
    let mut w = aircr::W::from(aircr::R::from(aircr));
    w.VECTKEY(VECTKEY).SYSRESETREQ(1);
    u32::from(w)
}

/// Address of DHCSR.
pub fn dhcsr_address() -> (r: u32)
    ensures
        r == 0xe000_edf0,
{
    crate::cm::dcb::dhcsr::Register::address() as u32
}

/// Address of DCRSR.
pub fn dcrsr_address() -> (r: u32)
    ensures
        r == 0xe000_edf4,
{
    crate::cm::dcb::dcrsr::Register::address() as u32
}

/// Address of DCRDR.
pub fn dcrdr_address() -> (r: u32)
    ensures
        r == 0xe000_edf8,
{
    crate::cm::dcb::dcrdr::Register::address() as u32
}

/// Address of DEMCR.
pub fn demcr_address() -> (r: u32)
    ensures
        r == 0xe000_edfc,
{
    crate::cm::dcb::demcr::Register::address() as u32
}

/// Address of AIRCR.
pub fn aircr_address() -> (r: u32)
    ensures
        r == 0xe000_ed0c,
{
    crate::cm::scb::aircr::Register::address() as u32
}

impl Dap {
    /// Forgets what a system reset invalidates (the selected AP bank, the banked data mode, the
    /// transfer address) and records that halting debug is on.
    pub fn after_reset(&mut self)
        requires
            old(self).wf(),
        ensures
            final(self).wf(),
            final(self)@ == (DapView { ap_bank: None, banked_data_mode: false, tar: None, debugen: Some(true), ..old(self)@ }),
    {
        self.set_ap_bank(None);
        self.set_banked_data_mode(false);
        self.set_tar(None);
        self.set_debugen_state(Some(true));
    }

    /// Whether checking that the core is halted needs a read of DHCSR: only once halting debug
    /// is known to be on; otherwise the core is not halted.
    pub fn is_halted_needs_read(&self) -> (r: bool)
        ensures
            r == (self@.debugen == Some(true)),
    {
        match self.debugen() {
            Some(b) => b,
            None => false,
        }
    }
}

} // verus!
