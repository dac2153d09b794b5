//! The Cortex-M operations of the debugger (halt, resume, core register accesses, reset, enabling
//! halting debug) as machines that, given what the last access gave, decide the next access to
//! the target's memory. The caller performs each access through the debug unit and steps the
//! machine with its result.
use vstd::prelude::*;

use crate::cmsis_dap::adiv5;
use crate::cmsis_dap::cortex_m::{
    aircr_address, aircr_request, dcrdr_address, dcrsr_address, dcrsr_request, debugen_check,
    debugen_request, debugen_request_value, demcr_address, demcr_request, dhcsr_address,
    dhcsr_request, field_u8, halt_check, halt_request, is_halted, register_ready, resume_check,
    resume_request, with_u16, with_u8, Register, DBGKEY, VECTKEY,
};
use crate::cmsis_dap::{Dap, DapError, DapView};

verus! {

/// A Cortex-M operation.
#[derive(Clone, Copy, Debug, PartialEq, Eq, Structural)]
pub enum CoreOp {
    /// Enable halting debug
    SetDebugen,
    /// Halt the core
    Halt,
    /// Resume the core, if halted
    Resume,
    /// Read a core register
    ReadRegister(Register),
    /// Write a core register; the core must be halted
    WriteRegister(Register, u32),
    /// Request a system reset, halting the core out of reset if set
    Reset(bool),
}

/// Where an operation stands.
#[derive(Clone, Copy, Debug, PartialEq, Eq, Structural)]
pub enum Phase {
    /// DHCSR read, to enable halting debug
    DebugenRead,
    /// DHCSR written, to enable halting debug
    DebugenWritten,
    /// DHCSR read back after enabling halting debug
    DebugenVerify,
    /// DHCSR read, to halt
    HaltRead,
    /// DHCSR written, to halt
    HaltWritten,
    /// DHCSR read back after halting
    HaltVerify,
    /// DHCSR read, to tell whether the core is halted
    ResumeCheck,
    /// DHCSR read, to resume
    ResumeRead,
    /// DHCSR written, to resume
    ResumeWritten,
    /// DHCSR read back after resuming
    ResumeVerify,
    /// DCRSR written, to read a core register
    ReadRequested,
    /// DHCSR read, waiting for the register transfer
    ReadPoll,
    /// Waited, before reading DHCSR again
    ReadSlept,
    /// DCRDR read
    ReadData,
    /// DHCSR read, to tell whether the core is halted before a write
    WriteCheck,
    /// DCRDR written
    WriteData,
    /// DCRSR written, to write a core register
    WriteRequested,
    /// DHCSR read, waiting for the register transfer
    WritePoll,
    /// Waited, before reading DHCSR again
    WriteSlept,
    /// DEMCR read
    ResetDemcr,
    /// DEMCR written
    ResetDemcrWritten,
    /// AIRCR read
    ResetAircr,
    /// AIRCR written: the reset is under way
    ResetAircrWritten,
    /// DP_STAT read, waiting for debug power-up
    ResetDebugPower,
    /// Waited, before reading DP_STAT again
    ResetDebugSlept,
    /// DP_STAT read, waiting for system power-up
    ResetSystemPower,
    /// Waited, before reading DP_STAT again
    ResetSystemSlept,
    /// The operation is over
    Done,
}

/// What the caller does next.
#[derive(Clone, Copy, Debug)]
pub enum CoreAction {
    /// Read the word at this address; step with the word read
    ReadWord(u32),
    /// Write this word (second) at this address (first); step with 0
    WriteWord(u32, u32),
    /// Read DP_STAT; step with its value
    ReadStat,
    /// Wait briefly; step with 0
    Sleep,
    /// The operation is over: the register read (0 for the others), or why it failed
    Finished(Result<u32, DapError>),
}

/// An operation under way.
pub struct CoreMachine {
    /// The operation
    pub op: CoreOp,
    /// Where it stands
    pub phase: Phase,
}

/// Where an operation starts once halting debug is known to be on (`debugen`: what is known of
/// halting debug), and the first access.
pub open spec fn main_start(op: CoreOp, debugen: Option<bool>) -> (Phase, CoreAction) {
    match op {
        CoreOp::SetDebugen => (Phase::Done, CoreAction::Finished(Ok(0))),
        CoreOp::Halt => (Phase::HaltRead, CoreAction::ReadWord(0xe000_edf0)),
        CoreOp::Resume => if debugen == Some(true) {
            (Phase::ResumeCheck, CoreAction::ReadWord(0xe000_edf0))
        } else {
            (Phase::Done, CoreAction::Finished(Ok(0)))
        },
        CoreOp::ReadRegister(reg) => (Phase::ReadRequested, CoreAction::WriteWord(0xe000_edf4, dcrsr_request_spec(reg, false))),
        CoreOp::WriteRegister(_, _) => if debugen == Some(true) {
            (Phase::WriteCheck, CoreAction::ReadWord(0xe000_edf0))
        } else {
            (Phase::Done, CoreAction::Finished(Err(DapError::NotHalted)))
        },
        CoreOp::Reset(_) => (Phase::ResetDemcr, CoreAction::ReadWord(0xe000_edfc)),
    }
}

/// The DCRSR value that asks for a transfer of core register `reg`.
pub open spec fn dcrsr_request_spec(reg: Register, write: bool) -> u32 {
    with_u8(with_u8(0, 0x01, 16, if write { 1u8 } else { 0u8 }), 0x7f, 0, crate::cmsis_dap::cortex_m::regsel_spec(reg))
}

/// Whether an operation first makes sure that halting debug is on.
pub open spec fn needs_debugen(op: CoreOp) -> bool {
    op is SetDebugen || op is Halt || op is Reset
}

/// Where an operation starts, and the first access: halting debug is enabled first where the
/// operation needs it and it is not known to be on.
pub open spec fn start_spec(op: CoreOp, debugen: Option<bool>) -> (Phase, CoreAction) {
    if needs_debugen(op) && debugen != Some(true) {
        (Phase::DebugenRead, CoreAction::ReadWord(0xe000_edf0))
    } else {
        main_start(op, debugen)
    }
}

/// The DP_STAT power-up acknowledge bits.
pub open spec fn debug_powered(stat: u32) -> bool {
    stat & adiv5::DP_STAT_CDBGPWRUPACK != 0
}

/// The DP_STAT system power-up acknowledge bit.
pub open spec fn system_powered(stat: u32) -> bool {
    stat & adiv5::DP_STAT_CSYSPWRUPACK != 0
}

/// The next phase and access of an operation at `phase`, given what the last access gave.
pub open spec fn step_spec(op: CoreOp, phase: Phase, event: u32) -> (Phase, CoreAction) {
    match phase {
        Phase::DebugenRead => if field_u8(event, 0x01, 0) == 0 {
            (Phase::DebugenWritten, CoreAction::WriteWord(0xe000_edf0, debugen_request(event)))
        } else {
            main_start(op, Some(true))
        },
        Phase::DebugenWritten => (Phase::DebugenVerify, CoreAction::ReadWord(0xe000_edf0)),
        Phase::DebugenVerify => if field_u8(event, 0x01, 0) == 0 {
            (Phase::Done, CoreAction::Finished(Err(DapError::DebugenFailed(event))))
        } else {
            main_start(op, Some(true))
        },
        Phase::HaltRead => if field_u8(event, 0x01, 1) == 0 {
            (Phase::HaltWritten, CoreAction::WriteWord(0xe000_edf0, dhcsr_request(event, 1)))
        } else {
            (Phase::Done, CoreAction::Finished(Ok(0)))
        },
        Phase::HaltWritten => (Phase::HaltVerify, CoreAction::ReadWord(0xe000_edf0)),
        Phase::HaltVerify => (Phase::Done, CoreAction::Finished(if field_u8(event, 0x01, 1) == 0 {
            Err(DapError::HaltFailed(event))
        } else {
            Ok(0)
        })),
        Phase::ResumeCheck => if field_u8(event, 0x01, 17) == 0 {
            (Phase::Done, CoreAction::Finished(Ok(0)))
        } else {
            (Phase::ResumeRead, CoreAction::ReadWord(0xe000_edf0))
        },
        Phase::ResumeRead => (Phase::ResumeWritten, CoreAction::WriteWord(0xe000_edf0, dhcsr_request(event, 0))),
        Phase::ResumeWritten => (Phase::ResumeVerify, CoreAction::ReadWord(0xe000_edf0)),
        Phase::ResumeVerify => (Phase::Done, CoreAction::Finished(if field_u8(event, 0x01, 1) != 0 {
            Err(DapError::ResumeFailed(event))
        } else {
            Ok(0)
        })),
        Phase::ReadRequested | Phase::ReadSlept => (Phase::ReadPoll, CoreAction::ReadWord(0xe000_edf0)),
        Phase::ReadPoll => if field_u8(event, 0x01, 16) != 0 {
            (Phase::ReadData, CoreAction::ReadWord(0xe000_edf8))
        } else {
            (Phase::ReadSlept, CoreAction::Sleep)
        },
        Phase::ReadData => (Phase::Done, CoreAction::Finished(Ok(event))),
        Phase::WriteCheck => match op {
            CoreOp::WriteRegister(_, val) => if field_u8(event, 0x01, 17) == 0 {
                (Phase::Done, CoreAction::Finished(Err(DapError::NotHalted)))
            } else {
                (Phase::WriteData, CoreAction::WriteWord(0xe000_edf8, val))
            },
            _ => (Phase::Done, CoreAction::Finished(Err(DapError::NotHalted))),
        },
        Phase::WriteData => match op {
            CoreOp::WriteRegister(reg, _) => (Phase::WriteRequested, CoreAction::WriteWord(0xe000_edf4, dcrsr_request_spec(reg, true))),
            _ => (Phase::Done, CoreAction::Finished(Err(DapError::NotHalted))),
        },
        Phase::WriteRequested | Phase::WriteSlept => (Phase::WritePoll, CoreAction::ReadWord(0xe000_edf0)),
        Phase::WritePoll => if field_u8(event, 0x01, 16) != 0 {
            (Phase::Done, CoreAction::Finished(Ok(0)))
        } else {
            (Phase::WriteSlept, CoreAction::Sleep)
        },
        Phase::ResetDemcr => match op {
            CoreOp::Reset(halt) => (Phase::ResetDemcrWritten, CoreAction::WriteWord(0xe000_edfc,
                with_u8(event, 0x01, 0, if halt { 1u8 } else { 0u8 }))),
            _ => (Phase::Done, CoreAction::Finished(Ok(0))),
        },
        Phase::ResetDemcrWritten => (Phase::ResetAircr, CoreAction::ReadWord(0xe000_ed0c)),
        Phase::ResetAircr => (Phase::ResetAircrWritten, CoreAction::WriteWord(0xe000_ed0c,
            with_u8(with_u16(event & !(0xffff_8000u32), 0xffff, 16, VECTKEY), 0x01, 2, 1))),
        Phase::ResetAircrWritten | Phase::ResetDebugSlept => (Phase::ResetDebugPower, CoreAction::ReadStat),
        Phase::ResetDebugPower => if !debug_powered(event) {
            (Phase::ResetDebugSlept, CoreAction::Sleep)
        } else if !system_powered(event) {
            (Phase::ResetSystemSlept, CoreAction::Sleep)
        } else {
            (Phase::Done, CoreAction::Finished(Ok(0)))
        },
        Phase::ResetSystemSlept => (Phase::ResetSystemPower, CoreAction::ReadStat),
        Phase::ResetSystemPower => if !system_powered(event) {
            (Phase::ResetSystemSlept, CoreAction::Sleep)
        } else {
            (Phase::Done, CoreAction::Finished(Ok(0)))
        },
        Phase::Done => (Phase::Done, CoreAction::Finished(Ok(0))),
    }
}

/// What a step does to the debug unit's record of the target: halting debug is known to be on
/// once enabled, and a reset forgets the AP and transfer address state.
pub open spec fn dap_after(d: DapView, phase: Phase, event: u32, next: Phase) -> DapView {
    if phase is ResetAircrWritten {
        DapView { ap_bank: None, banked_data_mode: false, tar: None, debugen: Some(true), ..d }
    } else if (phase is DebugenRead && field_u8(event, 0x01, 0) != 0) || (phase is DebugenVerify && field_u8(event, 0x01, 0) != 0) {
        DapView { debugen: Some(true), ..d }
    } else {
        d
    }
}

fn main_start_exec(op: CoreOp, dap: &Dap) -> (r: (Phase, CoreAction))
    ensures
        r == main_start(op, dap@.debugen),
{
    match op {
        CoreOp::SetDebugen => (Phase::Done, CoreAction::Finished(Ok(0))),
        CoreOp::Halt => (Phase::HaltRead, CoreAction::ReadWord(dhcsr_address())),
        CoreOp::Resume => if dap.is_halted_needs_read() {
            (Phase::ResumeCheck, CoreAction::ReadWord(dhcsr_address()))
        } else {
            (Phase::Done, CoreAction::Finished(Ok(0)))
        },
        CoreOp::ReadRegister(reg) => (Phase::ReadRequested, CoreAction::WriteWord(dcrsr_address(), dcrsr_request(reg, false))),
        CoreOp::WriteRegister(_, _) => if dap.is_halted_needs_read() {
            (Phase::WriteCheck, CoreAction::ReadWord(dhcsr_address()))
        } else {
            (Phase::Done, CoreAction::Finished(Err(DapError::NotHalted)))
        },
        CoreOp::Reset(_) => (Phase::ResetDemcr, CoreAction::ReadWord(demcr_address())),
    }
}

impl CoreMachine {
    /// Starts an operation; gives the machine and the first access.
    pub fn start(op: CoreOp, dap: &Dap) -> (r: (CoreMachine, CoreAction))
        ensures
            r.0.op == op,
            (r.0.phase, r.1) == start_spec(op, dap@.debugen),
    {
        let needs = match op {
            CoreOp::SetDebugen | CoreOp::Halt | CoreOp::Reset(_) => true,
            _ => false,
        };
        if needs && dap.debugen() != Some(true) {
            (CoreMachine { op, phase: Phase::DebugenRead }, CoreAction::ReadWord(dhcsr_address()))
        } else {
            let (phase, action) = main_start_exec(op, dap);
            (CoreMachine { op, phase }, action)
        }
    }

    /// Steps the operation with what the last access gave (the word read, DP_STAT, or 0 after a
    /// write or a wait); gives the next access.
    pub fn step(&mut self, dap: &mut Dap, event: u32) -> (r: CoreAction)
        requires
            old(dap).wf(),
        ensures
            final(dap).wf(),
            final(self).op == old(self).op,
            (final(self).phase, r) == step_spec(old(self).op, old(self).phase, event),
            final(dap)@ == dap_after(old(dap)@, old(self).phase, event, final(self).phase),
    {
        let op = self.op;
        let (phase, action) = match self.phase {
            Phase::DebugenRead => match debugen_request_value(event) {
                Some(w) => (Phase::DebugenWritten, CoreAction::WriteWord(dhcsr_address(), w)),
                None => {
                    dap.set_debugen_state(Some(true));
                    main_start_exec(op, dap)
                },
            },
            Phase::DebugenWritten => (Phase::DebugenVerify, CoreAction::ReadWord(dhcsr_address())),
            Phase::DebugenVerify => match debugen_check(event) {
                Err(e) => (Phase::Done, CoreAction::Finished(Err(e))),
                Ok(()) => {
                    dap.set_debugen_state(Some(true));
                    main_start_exec(op, dap)
                },
            },
            Phase::HaltRead => match halt_request(event) {
                Some(w) => (Phase::HaltWritten, CoreAction::WriteWord(dhcsr_address(), w)),
                None => (Phase::Done, CoreAction::Finished(Ok(0))),
            },
            Phase::HaltWritten => (Phase::HaltVerify, CoreAction::ReadWord(dhcsr_address())),
            Phase::HaltVerify => (Phase::Done, CoreAction::Finished(match halt_check(event) {
                Ok(()) => Ok(0),
                Err(e) => Err(e),
            })),
            Phase::ResumeCheck => if !is_halted(event) {
                (Phase::Done, CoreAction::Finished(Ok(0)))
            } else {
                (Phase::ResumeRead, CoreAction::ReadWord(dhcsr_address()))
            },
            Phase::ResumeRead => (Phase::ResumeWritten, CoreAction::WriteWord(dhcsr_address(), resume_request(event))),
            Phase::ResumeWritten => (Phase::ResumeVerify, CoreAction::ReadWord(dhcsr_address())),
            Phase::ResumeVerify => (Phase::Done, CoreAction::Finished(match resume_check(event) {
                Ok(()) => Ok(0),
                Err(e) => Err(e),
            })),
            Phase::ReadRequested | Phase::ReadSlept => (Phase::ReadPoll, CoreAction::ReadWord(dhcsr_address())),
            Phase::ReadPoll => if register_ready(event) {
                (Phase::ReadData, CoreAction::ReadWord(dcrdr_address()))
            } else {
                (Phase::ReadSlept, CoreAction::Sleep)
            },
            Phase::ReadData => (Phase::Done, CoreAction::Finished(Ok(event))),
            Phase::WriteCheck => match op {
                CoreOp::WriteRegister(_, val) => if !is_halted(event) {
                    (Phase::Done, CoreAction::Finished(Err(DapError::NotHalted)))
                } else {
                    (Phase::WriteData, CoreAction::WriteWord(dcrdr_address(), val))
                },
                _ => (Phase::Done, CoreAction::Finished(Err(DapError::NotHalted))),
            },
            Phase::WriteData => match op {
                CoreOp::WriteRegister(reg, _) => (Phase::WriteRequested, CoreAction::WriteWord(dcrsr_address(), dcrsr_request(reg, true))),
                _ => (Phase::Done, CoreAction::Finished(Err(DapError::NotHalted))),
            },
            Phase::WriteRequested | Phase::WriteSlept => (Phase::WritePoll, CoreAction::ReadWord(dhcsr_address())),
            Phase::WritePoll => if register_ready(event) {
                (Phase::Done, CoreAction::Finished(Ok(0)))
            } else {
                (Phase::WriteSlept, CoreAction::Sleep)
            },
            Phase::ResetDemcr => match op {
                CoreOp::Reset(halt) => (Phase::ResetDemcrWritten, CoreAction::WriteWord(demcr_address(), demcr_request(event, halt))),
                _ => (Phase::Done, CoreAction::Finished(Ok(0))),
            },
            Phase::ResetDemcrWritten => (Phase::ResetAircr, CoreAction::ReadWord(aircr_address())),
            Phase::ResetAircr => (Phase::ResetAircrWritten, CoreAction::WriteWord(aircr_address(), aircr_request(event))),
            Phase::ResetAircrWritten | Phase::ResetDebugSlept => {
                if self.phase == Phase::ResetAircrWritten {
                    dap.after_reset();
                }
                (Phase::ResetDebugPower, CoreAction::ReadStat)
            },
            Phase::ResetDebugPower => if event & adiv5::DP_STAT_CDBGPWRUPACK == 0 {
                (Phase::ResetDebugSlept, CoreAction::Sleep)
            } else if event & adiv5::DP_STAT_CSYSPWRUPACK == 0 {
                (Phase::ResetSystemSlept, CoreAction::Sleep)
            } else {
                (Phase::Done, CoreAction::Finished(Ok(0)))
            },
            Phase::ResetSystemSlept => (Phase::ResetSystemPower, CoreAction::ReadStat),
            Phase::ResetSystemPower => if event & adiv5::DP_STAT_CSYSPWRUPACK == 0 {
                (Phase::ResetSystemSlept, CoreAction::Sleep)
            } else {
                (Phase::Done, CoreAction::Finished(Ok(0)))
            },
            Phase::Done => (Phase::Done, CoreAction::Finished(Ok(0))),
        };
        self.phase = phase;
        action
    }
}

proof fn lemma_keys(x: u32)
    ensures
        dhcsr_request(x, 0) >> 16u32 == 0xa05f,
        dhcsr_request(x, 1) >> 16u32 == 0xa05f,
        debugen_request(x) >> 16u32 == 0xa05f,
        with_u8(with_u16(x & !(0xffff_8000u32), 0xffff, 16, VECTKEY), 0x01, 2, 1) >> 16u32 == 0x05fa,
{
    let a = x & !(0x030f_0000u32);
    let b = x & !(0xffff_8000u32);
    assert(((((((a & !((0xffffu16 as u32) << 16u8)) | (((0xa05fu16 & 0xffffu16) as u32) << 16u8)) & !((0x01u8 as u32) << 1u8))
        | (((0u8 & 0x01u8) as u32) << 1u8)) & !((0x01u8 as u32) << 0u8)) | (((1u8 & 0x01u8) as u32) << 0u8)) >> 16u32 == 0xa05f)
        by (bit_vector);
    assert(((((((a & !((0xffffu16 as u32) << 16u8)) | (((0xa05fu16 & 0xffffu16) as u32) << 16u8)) & !((0x01u8 as u32) << 1u8))
        | (((1u8 & 0x01u8) as u32) << 1u8)) & !((0x01u8 as u32) << 0u8)) | (((1u8 & 0x01u8) as u32) << 0u8)) >> 16u32 == 0xa05f)
        by (bit_vector);
    assert(((((a & !((0xffffu16 as u32) << 16u8)) | (((0xa05fu16 & 0xffffu16) as u32) << 16u8)) & !((0x01u8 as u32) << 0u8))
        | (((1u8 & 0x01u8) as u32) << 0u8)) >> 16u32 == 0xa05f) by (bit_vector);
    assert(((((b & !((0xffffu16 as u32) << 16u8)) | (((0x05fau16 & 0xffffu16) as u32) << 16u8)) & !((0x01u8 as u32) << 2u8))
        | (((1u8 & 0x01u8) as u32) << 2u8)) >> 16u32 == 0x05fa) by (bit_vector);
}

/// Every write to DHCSR carries the debug key, and every write to AIRCR the vector key, in
/// their upper half: the core ignores writes without them.
pub proof fn writes_carry_keys(op: CoreOp, phase: Phase, event: u32)
    ensures
        step_spec(op, phase, event).1 matches CoreAction::WriteWord(a, v) ==> (a == 0xe000_edf0 ==> v >> 16u32 == DBGKEY),
        step_spec(op, phase, event).1 matches CoreAction::WriteWord(a, v) ==> (a == 0xe000_ed0c ==> v >> 16u32 == VECTKEY),
        !(start_spec(op, None).1 is WriteWord && start_spec(op, None).1->WriteWord_0 == 0xe000_edf0),
{
    lemma_keys(event);
}

/// A core register is written (through DCRDR) only right after DHCSR showed the core halted,
/// and DCRDR is read only right after DHCSR showed the register transfer done.
pub proof fn core_register_protocol(op: CoreOp, phase: Phase, event: u32, debugen: Option<bool>)
    ensures
        step_spec(op, phase, event).1 matches CoreAction::WriteWord(a, _)
            ==> (a == 0xe000_edf8 ==> phase == Phase::WriteCheck && field_u8(event, 0x01, 17) != 0),
        step_spec(op, phase, event).1 matches CoreAction::ReadWord(a)
            ==> (a == 0xe000_edf8 ==> phase == Phase::ReadPoll && field_u8(event, 0x01, 16) != 0),
        !(start_spec(op, debugen).1 matches CoreAction::WriteWord(a, _) && a == 0xe000_edf8),
        !(start_spec(op, debugen).1 matches CoreAction::ReadWord(a) && a == 0xe000_edf8),
{
}

/// Writing a core register is refused unless halting debug is known to be on (else the core
/// cannot be halted), and an operation that is over stays over.
pub proof fn refusals_and_end(reg: Register, val: u32, op: CoreOp, event: u32)
    ensures
        start_spec(CoreOp::WriteRegister(reg, val), None).1 matches CoreAction::Finished(Err(e)) && e == DapError::NotHalted,
        start_spec(CoreOp::WriteRegister(reg, val), Some(false)).1 matches CoreAction::Finished(Err(e)) && e == DapError::NotHalted,
        step_spec(op, Phase::Done, event).0 == Phase::Done,
        step_spec(op, Phase::Done, event).1 is Finished,
{
}

} // verus!
