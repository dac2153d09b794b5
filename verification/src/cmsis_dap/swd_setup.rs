//! Putting a target in SWD mode and powering up its debug domain: the commands the debugger sends
//! the debug unit one after the other, and what it decides on each answer. The caller writes
//! each report, reads back the answer and steps the machine with it.
use vstd::prelude::*;

use crate::cmsis_dap::adiv5::{self, Register};
use crate::cmsis_dap::dap::{
    capabilities_response, check_dpidr, check_response, check_swd, connect_response,
    debug_power_up_check, debug_power_up_request, jtag_to_swd_swj_sequence, swj_count,
    system_power_up_check, system_power_up_request, transfer_command, transfer_report, words_of,
    Request, Transfer, CAPABILITIES_SWD, DAP_CONNECT, DAP_CONNECT_SWD, DAP_INFO,
    DAP_INFO_CAPABILITIES, DAP_SWJ_CLOCK, DAP_SWJ_SEQUENCE, DAP_TRANSFER, DAP_TRANSFER_CONFIGURE,
    DEFAULT_SWD_FREQUENCY, DEFAULT_WAIT_RETRY, LEN_BYTE, TRANSFER_ACK_OK,
};
use crate::cmsis_dap::hid::{le16, le32, push_le16, push_le32};
use crate::cmsis_dap::{DapError, REPORT_ID};

verus! {

/// Where the setup stands: the command whose answer is awaited.
#[derive(Clone, Copy, Debug, PartialEq, Eq, Structural)]
pub enum SetupPhase {
    /// `DAP_Info Capabilities`
    Capabilities,
    /// `DAP_Connect`
    Connect,
    /// `DAP_SWJ_Clock`
    Clock,
    /// `DAP_TransferConfigure`
    Configure,
    /// `DAP_SWJ_Sequence`, JTAG to SWD
    Sequence,
    /// `DAP_Transfer` reading DPIDR
    Dpidr,
    /// `DAP_Transfer` reading DP_STAT
    Stat,
    /// `DAP_Transfer` requesting debug power-up and reading DP_STAT
    DebugPower,
    /// `DAP_Transfer` requesting system power-up and reading DP_STAT
    SystemPower,
    /// The setup is over
    Done,
}

/// What the caller does next.
pub enum SetupAction {
    /// Write this report to the debug unit, read back `expected_len` bytes and step with them
    Exchange(Vec<u8>),
    /// The setup is over: the Debug Port version, or why it failed
    Finished(Result<u32, DapError>),
}

/// What the caller does next, as plain values.
pub enum SetupActionV {
    /// Write this report
    Exchange(Seq<u8>),
    /// The setup is over
    Finished(Result<u32, DapError>),
}

/// The mathematical form of an action.
pub open spec fn action_view(a: SetupAction) -> SetupActionV {
    match a {
        SetupAction::Exchange(r) => SetupActionV::Exchange(r@),
        SetupAction::Finished(x) => SetupActionV::Finished(x),
    }
}

/// The setup under way: where it stands and the Debug Port version, once read.
pub struct SwdSetup {
    /// Where it stands
    pub phase: SetupPhase,
    /// The Debug Port version
    pub version: u32,
}

/// Length of the answer to the command of `phase`.
pub open spec fn answer_len(phase: SetupPhase) -> nat {
    match phase {
        SetupPhase::Capabilities => 3,
        SetupPhase::Dpidr | SetupPhase::Stat | SetupPhase::DebugPower | SetupPhase::SystemPower => 7,
        SetupPhase::Done => 0,
        _ => 2,
    }
}

/// The report that reads DP register `reg`.
pub open spec fn read_report(reg: Register) -> Seq<u8> {
    seq![REPORT_ID] + transfer_report(seq![(reg, Request::Read)])
}

/// The report that writes `ctrl` to DP_CTRL and reads DP_STAT.
pub open spec fn power_report(ctrl: u32) -> Seq<u8> {
    seq![REPORT_ID] + transfer_report(seq![(Register::DP_CTRL, Request::Write(ctrl)), (Register::DP_STAT, Request::Read)])
}

/// Whether the answer to a `DAP_Transfer` of `total` requests reports them all done.
pub open spec fn transfer_ok(resp: Seq<u8>, total: u8) -> bool {
    resp[0] == DAP_TRANSFER && resp[1] == total && resp[2] == TRANSFER_ACK_OK
}

/// The word that a `DAP_Transfer` with one read gave.
pub open spec fn word_read(resp: Seq<u8>) -> u32 {
    words_of(resp.skip(3))[0]
}

/// After DP_STAT read `stat`: the system power-up request, if needed, or the end.
pub open spec fn after_debug_power(stat: u32, version: u32) -> (SetupPhase, SetupActionV) {
    if stat & adiv5::DP_STAT_CSYSPWRUPACK == 0 {
        (SetupPhase::SystemPower, SetupActionV::Exchange(power_report(
            (stat & adiv5::DP_CTRL_CDBGPWRUPREQ) | adiv5::DP_CTRL_CSYSPWRUPREQ)))
    } else {
        (SetupPhase::Done, SetupActionV::Finished(Ok(version)))
    }
}

/// The next phase and action of the setup, given the answer `resp` to the command of `phase`;
/// the version is that of the Debug Port once read.
pub open spec fn setup_step(phase: SetupPhase, version: u32, resp: Seq<u8>) -> (SetupPhase, u32, SetupActionV) {
    match phase {
        SetupPhase::Capabilities => if !(resp[0] == DAP_INFO && resp[1] == LEN_BYTE) {
            (SetupPhase::Done, version, SetupActionV::Finished(Err(DapError::Failed(DAP_INFO))))
        } else if resp[2] & CAPABILITIES_SWD == 0 {
            (SetupPhase::Done, version, SetupActionV::Finished(Err(DapError::NoSwd)))
        } else {
            (SetupPhase::Connect, version, SetupActionV::Exchange(seq![REPORT_ID, DAP_CONNECT, DAP_CONNECT_SWD]))
        },
        SetupPhase::Connect => if !(resp[0] == DAP_CONNECT && resp[1] == DAP_CONNECT_SWD) {
            (SetupPhase::Done, version, SetupActionV::Finished(Err(DapError::Failed(DAP_CONNECT))))
        } else {
            (SetupPhase::Clock, version, SetupActionV::Exchange(seq![REPORT_ID, DAP_SWJ_CLOCK] + le32(DEFAULT_SWD_FREQUENCY)))
        },
        SetupPhase::Clock => if !(resp[0] == DAP_SWJ_CLOCK && resp[1] == 0) {
            (SetupPhase::Done, version, SetupActionV::Finished(Err(DapError::Failed(DAP_SWJ_CLOCK))))
        } else {
            (SetupPhase::Configure, version, SetupActionV::Exchange(
                seq![REPORT_ID, DAP_TRANSFER_CONFIGURE, 0u8] + le16(DEFAULT_WAIT_RETRY) + le16(0)))
        },
        SetupPhase::Configure => if !(resp[0] == DAP_TRANSFER_CONFIGURE && resp[1] == 0) {
            (SetupPhase::Done, version, SetupActionV::Finished(Err(DapError::Failed(DAP_TRANSFER_CONFIGURE))))
        } else {
            (SetupPhase::Sequence, version, SetupActionV::Exchange(seq![REPORT_ID, DAP_SWJ_SEQUENCE, swj_count(17)]
                + seq![0xffu8, 0xff, 0xff, 0xff, 0xff, 0xff, 0xff, 0x9e, 0xe7, 0xff, 0xff, 0xff, 0xff, 0xff, 0xff, 0xff, 0x00]))
        },
        SetupPhase::Sequence => if !(resp[0] == DAP_SWJ_SEQUENCE && resp[1] == 0) {
            (SetupPhase::Done, version, SetupActionV::Finished(Err(DapError::Failed(DAP_SWJ_SEQUENCE))))
        } else {
            (SetupPhase::Dpidr, version, SetupActionV::Exchange(read_report(Register::DP_DPIDR)))
        },
        SetupPhase::Dpidr => if !transfer_ok(resp, 1) {
            (SetupPhase::Done, version, SetupActionV::Finished(Err(DapError::Failed(DAP_TRANSFER))))
        } else {
            let dpidr = word_read(resp);
            if dpidr & 0xfff != (adiv5::DP_DPIDR_RESERVED | adiv5::DP_DPIDR_MANUFACTURER_ARM) {
                (SetupPhase::Done, version, SetupActionV::Finished(Err(DapError::NotArm(dpidr))))
            } else if !((dpidr >> 12) & 0x7 == 2 || (dpidr >> 12) & 0x7 == 1) {
                (SetupPhase::Done, version, SetupActionV::Finished(Err(DapError::UnsupportedDebugPort(dpidr))))
            } else {
                (SetupPhase::Stat, (dpidr >> 12) & 0x7, SetupActionV::Exchange(read_report(Register::DP_STAT)))
            }
        },
        SetupPhase::Stat => if !transfer_ok(resp, 1) {
            (SetupPhase::Done, version, SetupActionV::Finished(Err(DapError::Failed(DAP_TRANSFER))))
        } else {
            let stat = word_read(resp);
            if stat & adiv5::DP_STAT_CDBGPWRUPACK == 0 {
                (SetupPhase::DebugPower, version, SetupActionV::Exchange(power_report(
                    (stat & adiv5::DP_CTRL_CSYSPWRUPREQ) | adiv5::DP_CTRL_CDBGPWRUPREQ)))
            } else {
                let (p, a) = after_debug_power(stat, version);
                (p, version, a)
            }
        },
        SetupPhase::DebugPower => if !transfer_ok(resp, 2) {
            (SetupPhase::Done, version, SetupActionV::Finished(Err(DapError::Failed(DAP_TRANSFER))))
        } else {
            let stat = word_read(resp);
            if stat & adiv5::DP_STAT_CDBGPWRUPACK == 0 {
                (SetupPhase::Done, version, SetupActionV::Finished(Err(DapError::DebugPowerUp)))
            } else {
                let (p, a) = after_debug_power(stat, version);
                (p, version, a)
            }
        },
        SetupPhase::SystemPower => if !transfer_ok(resp, 2) {
            (SetupPhase::Done, version, SetupActionV::Finished(Err(DapError::Failed(DAP_TRANSFER))))
        } else if word_read(resp) & adiv5::DP_STAT_CSYSPWRUPACK == 0 {
            (SetupPhase::Done, version, SetupActionV::Finished(Err(DapError::SystemPowerUp)))
        } else {
            (SetupPhase::Done, version, SetupActionV::Finished(Ok(version)))
        },
        SetupPhase::Done => (SetupPhase::Done, version, SetupActionV::Finished(Ok(version))),
    }
}

fn with_report_id(bytes: Vec<u8>) -> (r: Vec<u8>)
    ensures
        r@ == seq![REPORT_ID] + bytes@,
{
    let mut r = vec![REPORT_ID];
    let mut i: usize = 0;
    while i < bytes.len()
        invariant
            i <= bytes@.len(),
            r@ == seq![REPORT_ID] + bytes@.take(i as int),
        decreases bytes.len() - i,
    {
        r.push(bytes[i]);
        i = i + 1;
        assert(r@ =~= seq![REPORT_ID] + bytes@.take(i as int));
    }
    assert(bytes@.take(i as int) =~= bytes@);
    r
}

fn read_report_exec(reg: Register) -> (r: Vec<u8>)
    ensures
        r@ == read_report(reg),
{
    let list = [(reg, Request::Read)];
    assert(list@ =~= seq![(reg, Request::Read)]);
    with_report_id(transfer_command(&list))
}

fn power_report_exec(ctrl: u32) -> (r: Vec<u8>)
    ensures
        r@ == power_report(ctrl),
{
    let list = [(Register::DP_CTRL, Request::Write(ctrl)), (Register::DP_STAT, Request::Read)];
    assert(list@ =~= seq![(Register::DP_CTRL, Request::Write(ctrl)), (Register::DP_STAT, Request::Read)]);
    with_report_id(transfer_command(&list))
}

fn after_debug_power_exec(stat: u32, version: u32) -> (r: (SetupPhase, SetupAction))
    ensures
        (r.0, action_view(r.1)) == after_debug_power(stat, version),
{
    match system_power_up_request(stat) {
        Some(ctrl) => (SetupPhase::SystemPower, SetupAction::Exchange(power_report_exec(ctrl))),
        None => (SetupPhase::Done, SetupAction::Finished(Ok(version))),
    }
}

/// The word that a `DAP_Transfer` of `total` requests, one of them a read, gave, or why it failed.
fn transfer_word(resp: &[u8], total: u8) -> (r: Result<u32, DapError>)
    requires
        resp@.len() == 7,
    ensures
        match r {
            Ok(w) => transfer_ok(resp@, total) && w == word_read(resp@),
            Err(e) => !transfer_ok(resp@, total) && e == DapError::Failed(DAP_TRANSFER),
        },
{
    let t = Transfer { report: Vec::new(), total_requests: total, read_requests: 1 };
    match t.response(resp) {
        Ok(words) => {
            assert(words@.len() == 1);
            Ok(words[0])
        },
        Err(e) => Err(e),
    }
}

impl SwdSetup {
    /// Starts the setup: its first report asks for the debug unit's capabilities.
    pub fn start() -> (r: (SwdSetup, SetupAction))
        ensures
            r.0.phase == SetupPhase::Capabilities,
            action_view(r.1) == SetupActionV::Exchange(seq![REPORT_ID, DAP_INFO, DAP_INFO_CAPABILITIES]),
    {
        let report = vec![REPORT_ID, DAP_INFO, DAP_INFO_CAPABILITIES];
        assert(report@ =~= seq![REPORT_ID, DAP_INFO, DAP_INFO_CAPABILITIES]);
        (SwdSetup { phase: SetupPhase::Capabilities, version: 0 }, SetupAction::Exchange(report))
    }

    /// Length of the answer to read back for the last report.
    pub fn expected_len(&self) -> (r: u16)
        ensures
            r == answer_len(self.phase),
    {
        match self.phase {
            SetupPhase::Capabilities => 3,
            SetupPhase::Dpidr | SetupPhase::Stat | SetupPhase::DebugPower | SetupPhase::SystemPower => 7,
            SetupPhase::Done => 0,
            _ => 2,
        }
    }

    /// Steps the setup with the answer to the last report.
    pub fn step(&mut self, resp: &[u8]) -> (r: SetupAction)
        requires
            resp@.len() == answer_len(old(self).phase),
        ensures
            (final(self).phase, final(self).version, action_view(r)) == setup_step(old(self).phase, old(self).version, resp@),
    {
        let version = self.version;
        let (phase, version, action) = match self.phase {
            SetupPhase::Capabilities => match capabilities_response(resp) {
                Err(e) => (SetupPhase::Done, version, SetupAction::Finished(Err(e))),
                Ok(caps) => match check_swd(caps) {
                    Err(e) => (SetupPhase::Done, version, SetupAction::Finished(Err(e))),
                    Ok(()) => {
                        let report = vec![REPORT_ID, DAP_CONNECT, DAP_CONNECT_SWD];
                        assert(report@ =~= seq![REPORT_ID, DAP_CONNECT, DAP_CONNECT_SWD]);
                        (SetupPhase::Connect, version, SetupAction::Exchange(report))
                    },
                },
            },
            SetupPhase::Connect => match connect_response(resp) {
                Err(e) => (SetupPhase::Done, version, SetupAction::Finished(Err(e))),
                Ok(()) => {
                    let mut report = vec![REPORT_ID, DAP_SWJ_CLOCK];
                    push_le32(&mut report, DEFAULT_SWD_FREQUENCY);
                    (SetupPhase::Clock, version, SetupAction::Exchange(report))
                },
            },
            SetupPhase::Clock => match check_response(DAP_SWJ_CLOCK, resp) {
                Err(e) => (SetupPhase::Done, version, SetupAction::Finished(Err(e))),
                Ok(()) => {
                    let mut report = vec![REPORT_ID, DAP_TRANSFER_CONFIGURE, 0u8];
                    push_le16(&mut report, DEFAULT_WAIT_RETRY);
                    push_le16(&mut report, 0);
                    (SetupPhase::Configure, version, SetupAction::Exchange(report))
                },
            },
            SetupPhase::Configure => match check_response(DAP_TRANSFER_CONFIGURE, resp) {
                Err(e) => (SetupPhase::Done, version, SetupAction::Finished(Err(e))),
                Ok(()) => {
                    let seq = jtag_to_swd_swj_sequence();
                    let mut report = vec![REPORT_ID, DAP_SWJ_SEQUENCE, (seq.len() * 8) as u8];
                    assert(report@ =~= seq![REPORT_ID, DAP_SWJ_SEQUENCE, swj_count(17)]);
                    let ghost head = report@;
                    let mut i: usize = 0;
                    while i < seq.len()
                        invariant
                            i <= seq@.len(),
                            report@ == head + seq@.take(i as int),
                        decreases seq.len() - i,
                    {
                        report.push(seq[i]);
                        i = i + 1;
                        assert(report@ =~= head + seq@.take(i as int));
                    }
                    assert(seq@.take(i as int) =~= seq@);
                    (SetupPhase::Sequence, version, SetupAction::Exchange(report))
                },
            },
            SetupPhase::Sequence => match check_response(DAP_SWJ_SEQUENCE, resp) {
                Err(e) => (SetupPhase::Done, version, SetupAction::Finished(Err(e))),
                Ok(()) => (SetupPhase::Dpidr, version, SetupAction::Exchange(read_report_exec(Register::DP_DPIDR))),
            },
            SetupPhase::Dpidr => match transfer_word(resp, 1) {
                Err(e) => (SetupPhase::Done, version, SetupAction::Finished(Err(e))),
                Ok(dpidr) => match check_dpidr(dpidr) {
                    Err(e) => (SetupPhase::Done, version, SetupAction::Finished(Err(e))),
                    Ok(v) => (SetupPhase::Stat, v, SetupAction::Exchange(read_report_exec(Register::DP_STAT))),
                },
            },
            SetupPhase::Stat => match transfer_word(resp, 1) {
                Err(e) => (SetupPhase::Done, version, SetupAction::Finished(Err(e))),
                Ok(stat) => match debug_power_up_request(stat) {
                    Some(ctrl) => (SetupPhase::DebugPower, version, SetupAction::Exchange(power_report_exec(ctrl))),
                    None => {
                        let (p, a) = after_debug_power_exec(stat, version);
                        (p, version, a)
                    },
                },
            },
            SetupPhase::DebugPower => match transfer_word(resp, 2) {
                Err(e) => (SetupPhase::Done, version, SetupAction::Finished(Err(e))),
                Ok(stat) => match debug_power_up_check(stat) {
                    Err(e) => (SetupPhase::Done, version, SetupAction::Finished(Err(e))),
                    Ok(()) => {
                        let (p, a) = after_debug_power_exec(stat, version);
                        (p, version, a)
                    },
                },
            },
            SetupPhase::SystemPower => match transfer_word(resp, 2) {
                Err(e) => (SetupPhase::Done, version, SetupAction::Finished(Err(e))),
                Ok(stat) => match system_power_up_check(stat) {
                    Err(e) => (SetupPhase::Done, version, SetupAction::Finished(Err(e))),
                    Ok(()) => (SetupPhase::Done, version, SetupAction::Finished(Ok(version))),
                },
            },
            SetupPhase::Done => (SetupPhase::Done, version, SetupAction::Finished(Ok(version))),
        };
        self.phase = phase;
        self.version = version;
        action
    }
}

/// The setup ends in success only once the debug unit speaks SWD, the target's DPIDR names an
/// ARM Debug Port of version 1 or 2, and DP_STAT acknowledges system power-up (debug power-up
/// being checked before): the success of the last step rests on the last answer.
pub proof fn setup_success(phase: SetupPhase, version: u32, resp: Seq<u8>)
    requires
        resp.len() == answer_len(phase),
        phase != SetupPhase::Done,
    ensures
        setup_step(phase, version, resp).2 matches SetupActionV::Finished(Ok(_)) ==> {
            ||| (phase == SetupPhase::Stat || phase == SetupPhase::DebugPower) && transfer_ok(resp, if phase == SetupPhase::Stat { 1u8 } else { 2u8 })
                && word_read(resp) & adiv5::DP_STAT_CDBGPWRUPACK != 0 && word_read(resp) & adiv5::DP_STAT_CSYSPWRUPACK != 0
            ||| phase == SetupPhase::SystemPower && transfer_ok(resp, 2) && word_read(resp) & adiv5::DP_STAT_CSYSPWRUPACK != 0
        },
{
}

} // verus!
