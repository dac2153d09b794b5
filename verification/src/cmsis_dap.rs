//! API to access a DAP device using the HID interface: the reports that go to the debug unit, the
//! parsing of what comes back, and the decisions that the debugging operations make in between.
//!
//! # References
//!
//! - 'ADIv5': ARM Debug Interface Architecture Specification ADIv5.0 to ADIv5.2 (ARM IHI 0031C)
//! - 'ARMV7-M ARM': ARMv7-M Architecture Reference Manual (ARM DDI 0403E.d)
//! - 'Cortex-M4 TRM': Cortex-M4 Technical Reference Manual (ARM DDI 0439B)
//! - CMSIS-DAP 2.0
pub mod util;
pub mod adiv5;
pub mod dap;
pub mod hid;
pub mod sealed;
pub mod ahb_ap;
pub mod cortex_m;
pub mod core_ops;
pub mod swd_setup;

use vstd::prelude::*;
use crate::cmsis_dap::adiv5::{ApBank, Register};
use crate::cmsis_dap::adiv5::{ap_bank_spec, select};
use crate::cmsis_dap::dap::{
    bank_after, bank_after_all, queue_after, requests_fit, block_read_command, block_write_command, item_len, items, lemma_words_le_len,
    num_reads, push_len, pushed_requests, swj_count, transfer_report, words_le, Mode, Request,
    Transfer, DAP_CONNECT, DAP_CONNECT_SWD, DAP_INFO, DAP_INFO_CAPABILITIES, DAP_INFO_PACKET_SIZE,
    DAP_SWJ_CLOCK, DAP_SWJ_SEQUENCE, DAP_TRANSFER, DAP_TRANSFER_BLOCK, DAP_TRANSFER_CONFIGURE,
    TRANSFER_DAP_INDEX, TRANSFER_RNW_READ, TRANSFER_RNW_WRITE,
};
use crate::cmsis_dap::hid::{le16, le32};

verus! {

/// What a debug unit handle holds, as plain values.
pub struct DapView {
    /// The bytes of the report being built, after its report ID.
    pub report: Seq<u8>,
    /// Room for the report, its report ID included.
    pub capacity: nat,
    /// Largest packet that the debug unit takes.
    pub packet_size: u16,
    /// The transfer requests queued for the next `DAP_Transfer`, oldest first.
    pub queue: Seq<(Register, Request)>,
    /// The AP bank that `DP_SELECT` was last set to, if known.
    pub ap_bank: Option<ApBank>,
    /// Whether the AHB-AP is set up for single-word accesses through the banked data registers.
    pub banked_data_mode: bool,
    /// The value of the AHB-AP's transfer address register, if known.
    pub tar: Option<u32>,
    /// Whether halting debug is known to be on.
    pub debugen: Option<bool>,
}

/// A CMSIS-DAP Debug Unit
pub struct Dap {
    buffer: Vec<u8>,
    // property of the target
    packet_size: u16,
    // transfer buffer
    total_requests: u8,
    read_requests: u8,
    cursor: u16,
    ap_bank: Option<ApBank>,
    banked_data_mode: bool,
    // AHB-AP specific
    tar: Option<u32>,
    // Cortex-M specific
    debugen: Option<bool>,
    queue: Ghost<Seq<(Register, Request)>>,
}

/// Why an exchange with the debug unit failed.
#[derive(Clone, Copy, Debug, PartialEq, Eq, Structural)]
pub enum DapError {
    /// The debug unit gave an unexpected answer to this command.
    Failed(u8),
    /// The debug unit does not support SWD.
    NoSwd,
    /// The target doesn't appear to be an ARM device; the DPIDR it gave.
    NotArm(u32),
    /// Only DPv1 and DPv2 are supported; the DPIDR the target gave.
    UnsupportedDebugPort(u32),
    /// The debug power-up request failed.
    DebugPowerUp,
    /// The system power-up request failed.
    SystemPowerUp,
    /// The target did not halt; its DHCSR.
    HaltFailed(u32),
    /// The target did not resume; its DHCSR.
    ResumeFailed(u32),
    /// Halting debug mode could not be enabled; the DHCSR.
    DebugenFailed(u32),
    /// The core must be halted before writing to a core register.
    NotHalted,
    /// The debug unit does not support atomic commands.
    NoAtomicCommands,
}

/// The ID of the HID reports that carry DAP commands.
pub const REPORT_ID: u8 = 0;

impl View for Dap {
    type V = DapView;

    closed spec fn view(&self) -> DapView {
        DapView {
            report: self.buffer@.subrange(1, self.cursor as int),
            capacity: self.buffer@.len(),
            packet_size: self.packet_size,
            queue: self.queue@,
            ap_bank: self.ap_bank,
            banked_data_mode: self.banked_data_mode,
            tar: self.tar,
            debugen: self.debugen,
        }
    }
}

impl Dap {
    /// The report buffer is in order: its first byte is the report ID and the cursor lies inside it.
    pub closed spec fn hid_wf(&self) -> bool {
        &&& 1 <= self.cursor <= self.buffer@.len()
        &&& self.buffer@.len() <= u16::MAX
        &&& self.buffer@[0] == REPORT_ID
    }

    /// The report buffer is in order, and while requests are queued the report is the
    /// `DAP_Transfer` command that carries them.
    pub closed spec fn wf(&self) -> bool {
        &&& self.hid_wf()
        &&& self.total_requests == self.queue@.len()
        &&& self.read_requests == num_reads(self.queue@)
        &&& self.total_requests > 0 ==> self@.report == transfer_report(self.queue@)
    }
}

impl Dap {
    /// The number of queued requests and of queued read requests.
    pub closed spec fn counts(&self) -> (u8, u8) {
        (self.total_requests, self.read_requests)
    }

    /// Pushes a byte into the HID buffer
    pub(crate) fn hid_push_u8(&mut self, b: u8)
        requires
            old(self).hid_wf(),
            old(self)@.report.len() + 2 <= old(self)@.capacity,
        ensures
            final(self).hid_wf(),
            final(self)@ == (DapView { report: old(self)@.report.push(b), ..old(self)@ }),
            final(self).counts() == old(self).counts(),
    {
        let cursor = self.cursor;
        self.buffer.set(cursor as usize, b);
        self.cursor = cursor + 1;
        assert(self@.report =~= old(self)@.report.push(b));
    }

    /// Pushes the bytes of a half-word into the HID buffer
    pub(crate) fn hid_push_u16(&mut self, x: u16)
        requires
            old(self).hid_wf(),
            old(self)@.report.len() + 3 <= old(self)@.capacity,
        ensures
            final(self).hid_wf(),
            final(self)@ == (DapView { report: old(self)@.report + le16(x), ..old(self)@ }),
            final(self).counts() == old(self).counts(),
    {
        self.hid_push_u8((x & 0xff) as u8);
        self.hid_push_u8(((x >> 8) & 0xff) as u8);
        assert(self@.report =~= old(self)@.report + le16(x));
    }

    /// Pushes the bytes of a word into the HID buffer
    pub(crate) fn hid_push_u32(&mut self, x: u32)
        requires
            old(self).hid_wf(),
            old(self)@.report.len() + 5 <= old(self)@.capacity,
        ensures
            final(self).hid_wf(),
            final(self)@ == (DapView { report: old(self)@.report + le32(x), ..old(self)@ }),
            final(self).counts() == old(self).counts(),
    {
        self.hid_push_u8((x & 0xff) as u8);
        self.hid_push_u8(((x >> 8) & 0xff) as u8);
        self.hid_push_u8(((x >> 16) & 0xff) as u8);
        self.hid_push_u8(((x >> 24) & 0xff) as u8);
        assert(self@.report =~= old(self)@.report + le32(x));
    }

    /// Pushes the data into the HID buffer
    pub(crate) fn hid_push_bytes(&mut self, data: &[u8])
        requires
            old(self).hid_wf(),
            old(self)@.report.len() + 1 + data@.len() <= old(self)@.capacity,
        ensures
            final(self).hid_wf(),
            final(self)@ == (DapView { report: old(self)@.report + data@, ..old(self)@ }),
            final(self).counts() == old(self).counts(),
    {
        let mut i: usize = 0;
        while i < data.len()
            invariant
                i <= data@.len(),
                self.hid_wf(),
                old(self)@.report.len() + 1 + data@.len() <= old(self)@.capacity,
                self@ == (DapView { report: old(self)@.report + data@.take(i as int), ..old(self)@ }),
                self.counts() == old(self).counts(),
            decreases data.len() - i,
        {
            self.hid_push_u8(data[i]);
            assert(data@.take(i + 1) =~= data@.take(i as int).push(data@[i as int]));
            i = i + 1;
        }
        assert(data@.take(i as int) =~= data@);
    }

    /// Rewrites a byte in the HID buffer; `i` counts from the report ID.
    pub(crate) fn hid_rewrite(&mut self, i: u16, val: u8)
        requires
            old(self).hid_wf(),
            1 <= i <= old(self)@.report.len(),
        ensures
            final(self).hid_wf(),
            final(self)@ == (DapView { report: old(self)@.report.update(i - 1, val), ..old(self)@ }),
            final(self).counts() == old(self).counts(),
    {
        self.buffer.set(i as usize, val);
        assert(self@.report =~= old(self)@.report.update(i - 1, val));
    }

    /// Takes the report out of the HID buffer, to be written to the HID device: the report ID
    /// and the bytes pushed since the last flush.
    pub fn hid_flush(&mut self) -> (r: Vec<u8>)
        requires
            old(self).hid_wf(),
        ensures
            final(self).hid_wf(),
            r@ == seq![REPORT_ID] + old(self)@.report,
            final(self)@ == (DapView { report: Seq::<u8>::empty(), ..old(self)@ }),
            final(self).counts() == old(self).counts(),
    {
        let mut r: Vec<u8> = Vec::new();
        let mut i: usize = 0;
        while i < self.cursor as usize
            invariant
                self == old(self),
                self.hid_wf(),
                i <= self.cursor,
                r@ == self.buffer@.take(i as int),
            decreases self.cursor - i,
        {
            r.push(self.buffer[i]);
            assert(self.buffer@.take(i + 1) =~= self.buffer@.take(i as int).push(self.buffer@[i as int]));
            i = i + 1;
        }
        assert(r@ =~= seq![REPORT_ID] + old(self)@.report);
        self.cursor = 1;
        assert(self@.report =~= Seq::<u8>::empty());
        r
    }

    /// Whether a read of `len` bytes from the HID device may follow now: the HID buffer must have
    /// been flushed and `len` must not exceed the packet size supported by the target.
    pub fn hid_read_allowed(&self, len: u16) -> (r: bool)
        requires
            self.hid_wf(),
        ensures
            r == (self@.report.len() == 0 && len <= self@.packet_size),
    {
        self.cursor == 1 && len <= self.packet_size
    }
}

impl Dap {
    /// Queues one request, with no change of AP bank.
    fn push_transfer_item(&mut self, reg: Register, req: Request)
        requires
            old(self).wf(),
            old(self)@.queue.len() < 255,
            old(self)@.queue.len() == 0 ==> old(self)@.report.len() == 0,
            old(self)@.report.len() + 1 + (if old(self)@.queue.len() == 0 { 3nat } else { 0nat })
                + item_len(req) <= old(self)@.capacity,
        ensures
            final(self).wf(),
            final(self)@ == (DapView {
                report: transfer_report(old(self)@.queue.push((reg, req))),
                queue: old(self)@.queue.push((reg, req)),
                ..old(self)@
            }),
    {
        let ghost q = self.queue@;
        proof {
            crate::cmsis_dap::dap::lemma_num_reads_le(q);
        }
        let count = self.total_requests + 1;
        if self.total_requests == 0 {
            self.hid_push_u8(DAP_TRANSFER);
            self.hid_push_u8(TRANSFER_DAP_INDEX);
            self.hid_push_u8(count);
            assert(self@.report =~= seq![DAP_TRANSFER, TRANSFER_DAP_INDEX, count]);
        } else {
            self.hid_rewrite(3, count);
            assert(self@.report =~= seq![DAP_TRANSFER, TRANSFER_DAP_INDEX, count] + items(q));
        }
        self.total_requests = count;
        match req {
            Request::Write(val) => {
                self.hid_push_u8(reg.request() | TRANSFER_RNW_WRITE);
                self.hid_push_u32(val);
            },
            Request::Read => {
                self.hid_push_u8(reg.request() | TRANSFER_RNW_READ);
                self.read_requests = self.read_requests + 1;
            },
        }
        self.queue = Ghost(q.push((reg, req)));
        proof {
            assert(q.push((reg, req)).drop_last() =~= q);
            assert(items(q.push((reg, req))) == items(q) + crate::cmsis_dap::dap::item_bytes(reg, req));
            assert(self@.report =~= transfer_report(q.push((reg, req))));
        }
    }

    /// Pushes a DAP transfer request into the internal buffer, after a write of `DP_SELECT` when
    /// the register lives in an AP bank other than the one last selected.
    pub fn push_dap_transfer_request(&mut self, reg: Register, req: Request)
        requires
            old(self).wf(),
            old(self)@.queue.len() + pushed_requests(old(self)@.ap_bank, reg, req).len() <= 255,
            old(self)@.queue.len() == 0 ==> old(self)@.report.len() == 0,
            old(self)@.report.len() + 1 + push_len(old(self)@, reg, req) <= old(self)@.capacity,
        ensures
            final(self).wf(),
            final(self)@ == (DapView {
                report: transfer_report(old(self)@.queue + pushed_requests(old(self)@.ap_bank, reg, req)),
                queue: old(self)@.queue + pushed_requests(old(self)@.ap_bank, reg, req),
                ap_bank: bank_after(old(self)@.ap_bank, reg),
                ..old(self)@
            }),
    {
        let ghost q = self.queue@;
        if let Some(bank) = reg.ap_bank() {
            if self.ap_bank.is_none() || self.ap_bank != Some(bank) {
                let sel = select(bank);
                proof {
                    crate::cmsis_dap::dap::lemma_items_push(q, Register::DP_SELECT, Request::Write(sel));
                }
                self.push_transfer_item(Register::DP_SELECT, Request::Write(sel));
                self.ap_bank = Some(bank);
            }
        }
        self.push_transfer_item(reg, req);
        proof {
            let p = pushed_requests(old(self)@.ap_bank, reg, req);
            if p.len() == 2 {
                assert(q.push(p[0]).push(p[1]) =~= q + p);
            } else {
                assert(q.push(p[0]) =~= q + p);
            }
        }
    }

    /// Pushes each of the transfer requests of `list` in turn.
    pub fn push_dap_transfer_requests(&mut self, list: &[(Register, Request)])
        requires
            old(self).wf(),
            list@.len() > 0,
            requests_fit(old(self)@, list@),
        ensures
            final(self).wf(),
            final(self)@ == (DapView {
                report: transfer_report(old(self)@.queue + queue_after(old(self)@.ap_bank, list@)),
                queue: old(self)@.queue + queue_after(old(self)@.ap_bank, list@),
                ap_bank: bank_after_all(old(self)@.ap_bank, list@),
                ..old(self)@
            }),
    {
        let ghost target = old(self)@.queue + queue_after(old(self)@.ap_bank, list@);
        let ghost last_bank = bank_after_all(old(self)@.ap_bank, list@);
        let mut i: usize = 0;
        assert(list@.skip(0) =~= list@);
        assert(self@.queue + queue_after(self@.ap_bank, list@.skip(0)) =~= target);
        while i < list.len()
            invariant
                self.wf(),
                i <= list@.len(),
                i > 0 ==> self@.queue.len() > 0,
                i == 0 ==> self@ == old(self)@,
                old(self)@.queue.len() == 0 ==> old(self)@.report.len() == 0,
                self@.queue + queue_after(self@.ap_bank, list@.skip(i as int)) == target,
                bank_after_all(self@.ap_bank, list@.skip(i as int)) == last_bank,
                target.len() <= 255,
                transfer_report(target).len() + 1 <= self@.capacity,
                self@.queue.len() > 0 ==> self@.report == transfer_report(self@.queue),
                self@ == (DapView { report: self@.report, queue: self@.queue, ap_bank: self@.ap_bank, ..old(self)@ }),
            decreases list.len() - i,
        {
            let (reg, req) = list[i];
            let ghost q = self@.queue;
            let ghost rest = list@.skip(i as int);
            let ghost p = pushed_requests(self@.ap_bank, reg, req);
            let ghost more = queue_after(bank_after(self@.ap_bank, reg), rest.skip(1));
            proof {
                assert(rest[0] == (reg, req));
                assert(rest.skip(1) =~= list@.skip(i + 1));
                assert(target =~= (q + p) + more);
                crate::cmsis_dap::dap::lemma_items_append(q + p, more);
                crate::cmsis_dap::dap::lemma_items_append(q, p);
                crate::cmsis_dap::dap::lemma_pushed_len(self@.ap_bank, reg, req);
            }
            self.push_dap_transfer_request(reg, req);
            i = i + 1;
        }
        assert(list@.skip(i as int) =~= Seq::<(Register, Request)>::empty());
        assert(self@.queue =~= target);
    }

    /// Takes the queued `DAP_Transfer` command out of the HID buffer, to be written to the debug
    /// unit; `Transfer::response` then checks the answer.
    pub fn execute_dap_transfer(&mut self) -> (r: Transfer)
        requires
            old(self).wf(),
            old(self)@.queue.len() != 0,
        ensures
            final(self).wf(),
            r.report@ == seq![crate::cmsis_dap::REPORT_ID] + transfer_report(old(self)@.queue),
            r.total_requests == old(self)@.queue.len(),
            r.read_requests == num_reads(old(self)@.queue),
            final(self)@ == (DapView { report: Seq::<u8>::empty(), queue: Seq::<(Register, Request)>::empty(), ..old(self)@ }),
    {
        let report = self.hid_flush();
        let total_requests = self.total_requests;
        let read_requests = self.read_requests;
        self.total_requests = 0;
        self.read_requests = 0;
        self.queue = Ghost(Seq::empty());
        Transfer { report, total_requests, read_requests }
    }
}


impl Dap {
    /// A handle for a debug unit that was just opened: an empty report and the conservative
    /// packet size of 4 bytes, until the unit tells its own.
    pub fn new() -> (r: Self)
        ensures
            r.wf(),
            r@ == (DapView {
                report: Seq::<u8>::empty(),
                capacity: 5,
                packet_size: 4,
                queue: Seq::<(Register, Request)>::empty(),
                ap_bank: None,
                banked_data_mode: false,
                tar: None,
                debugen: None,
            }),
    {
        let buffer = vec![REPORT_ID, REPORT_ID, REPORT_ID, REPORT_ID, REPORT_ID];
        let r = Self {
            buffer,
            ap_bank: None,
            banked_data_mode: false,
            cursor: 1,
            debugen: None,
            read_requests: 0,
            tar: None,
            total_requests: 0,
            packet_size: 4,
            queue: Ghost(Seq::empty()),
        };
        assert(r@.report =~= Seq::<u8>::empty());
        r
    }

    /// Grows the HID buffer to the packet size that the debug unit supports.
    pub fn set_packet_size(&mut self, packet_size: u16)
        requires
            old(self).wf(),
            old(self)@.report.len() == 0,
            old(self)@.queue.len() == 0,
            packet_size >= 1,
        ensures
            final(self).wf(),
            final(self)@ == (DapView { capacity: packet_size as nat, packet_size, ..old(self)@ }),
    {
        self.packet_size = packet_size;
        let mut buffer: Vec<u8> = Vec::new();
        let mut i: u16 = 0;
        while i < packet_size
            invariant
                i <= packet_size,
                buffer@.len() == i,
                forall|j: int| 0 <= j < i ==> buffer@[j] == 0,
            decreases packet_size - i,
        {
            buffer.push(0);
            i = i + 1;
        }
        self.buffer = buffer;
        assert(self@.report =~= Seq::<u8>::empty());
        assert(self@.report == old(self)@.report);
    }

    /// Pushes a command made of `bytes` while no transfer request is queued.
    pub(crate) fn push_command(&mut self, bytes: &[u8])
        requires
            old(self).wf(),
            old(self)@.queue.len() == 0,
            old(self)@.report.len() + 1 + bytes@.len() <= old(self)@.capacity,
        ensures
            final(self).wf(),
            final(self)@ == (DapView { report: old(self)@.report + bytes@, ..old(self)@ }),
    {
        self.hid_push_bytes(bytes);
    }

    /// Pushes the `DAP_Info Capabilities` command; `capabilities_response` reads its answer.
    pub fn capabilities(&mut self)
        requires
            old(self).wf(),
            old(self)@.queue.len() == 0,
            old(self)@.report.len() + 3 <= old(self)@.capacity,
        ensures
            final(self).wf(),
            final(self)@ == (DapView { report: old(self)@.report + seq![DAP_INFO, DAP_INFO_CAPABILITIES], ..old(self)@ }),
    {
        let cmd = [DAP_INFO, DAP_INFO_CAPABILITIES];
        self.push_command(&cmd);
        assert(cmd@ =~= seq![DAP_INFO, DAP_INFO_CAPABILITIES]);
    }

    /// Pushes the `DAP_Info PacketSize` command; `packet_size_response` reads its answer.
    pub fn packet_size(&mut self)
        requires
            old(self).wf(),
            old(self)@.queue.len() == 0,
            old(self)@.report.len() + 3 <= old(self)@.capacity,
        ensures
            final(self).wf(),
            final(self)@ == (DapView { report: old(self)@.report + seq![DAP_INFO, DAP_INFO_PACKET_SIZE], ..old(self)@ }),
    {
        let cmd = [DAP_INFO, DAP_INFO_PACKET_SIZE];
        self.push_command(&cmd);
        assert(cmd@ =~= seq![DAP_INFO, DAP_INFO_PACKET_SIZE]);
    }

    /// Pushes the `DAP_Connect` command for `mode`; `connect_response` reads its answer.
    pub fn connect(&mut self, mode: Mode)
        requires
            old(self).wf(),
            old(self)@.queue.len() == 0,
            old(self)@.report.len() + 3 <= old(self)@.capacity,
        ensures
            final(self).wf(),
            final(self)@ == (DapView { report: old(self)@.report + seq![DAP_CONNECT, DAP_CONNECT_SWD], ..old(self)@ }),
    {
        let cmd = [DAP_CONNECT, DAP_CONNECT_SWD];
        self.push_command(&cmd);
        assert(cmd@ =~= seq![DAP_CONNECT, DAP_CONNECT_SWD]);
    }

    /// Pushes the `DAP_SWJ_Clock` command that sets the clock `frequency` for the JTAG and SWD
    /// communication mode; `check_response` reads its answer.
    pub fn swj_clock(&mut self, frequency: u32)
        requires
            old(self).wf(),
            old(self)@.queue.len() == 0,
            old(self)@.report.len() + 6 <= old(self)@.capacity,
        ensures
            final(self).wf(),
            final(self)@ == (DapView { report: old(self)@.report + seq![DAP_SWJ_CLOCK] + le32(frequency), ..old(self)@ }),
    {
        self.hid_push_u8(DAP_SWJ_CLOCK);
        self.hid_push_u32(frequency);
        assert(self@.report =~= old(self)@.report + seq![DAP_SWJ_CLOCK] + le32(frequency));
    }

    /// Pushes the `DAP_SWJ_Sequence` command that bit-bangs `data` on SWDIO/TMS; a sequence of
    /// 256 bits is sent with a count of 0. `check_response` reads its answer.
    pub fn swj_sequence(&mut self, data: &[u8])
        requires
            old(self).wf(),
            old(self)@.queue.len() == 0,
            data@.len() <= 32,
            old(self)@.report.len() + 3 + data@.len() <= old(self)@.capacity,
        ensures
            final(self).wf(),
            final(self)@ == (DapView {
                report: old(self)@.report + seq![DAP_SWJ_SEQUENCE, swj_count(data@.len())] + data@,
                ..old(self)@
            }),
    {
        let bits = data.len() * 8;
        let count: u8 = if bits == 256 { 0 } else { bits as u8 };
        self.hid_push_u8(DAP_SWJ_SEQUENCE);
        assert(count == swj_count(data@.len()));
        self.hid_push_u8(count);
        self.hid_push_bytes(data);
        assert(self@.report =~= old(self)@.report + seq![DAP_SWJ_SEQUENCE, swj_count(data@.len())] + data@);
    }

    /// Pushes the `DAP_TransferConfigure` command; `check_response` reads its answer.
    pub fn transfer_configure(&mut self, idle_cycles: u8, wait_retry: u16, match_retry: u16)
        requires
            old(self).wf(),
            old(self)@.queue.len() == 0,
            old(self)@.report.len() + 7 <= old(self)@.capacity,
        ensures
            final(self).wf(),
            final(self)@ == (DapView {
                report: old(self)@.report + seq![DAP_TRANSFER_CONFIGURE, idle_cycles] + le16(wait_retry) + le16(match_retry),
                ..old(self)@
            }),
    {
        self.hid_push_u8(DAP_TRANSFER_CONFIGURE);
        self.hid_push_u8(idle_cycles);
        self.hid_push_u16(wait_retry);
        self.hid_push_u16(match_retry);
        assert(self@.report =~= old(self)@.report + seq![DAP_TRANSFER_CONFIGURE, idle_cycles] + le16(wait_retry) + le16(match_retry));
    }

    /// Pushes the `DAP_TransferBlock` command that reads `count` words from `reg`;
    /// `transfer_block_read_response` checks the answer.
    pub fn transfer_block_read(&mut self, reg: Register, count: u16)
        requires
            old(self).wf(),
            old(self)@.queue.len() == 0,
            old(self)@.report.len() + 6 <= old(self)@.capacity,
        ensures
            final(self).wf(),
            final(self)@ == (DapView {
                report: old(self)@.report + block_read_command(reg, count),
                ..old(self)@
            }),
    {
        self.hid_push_u8(DAP_TRANSFER_BLOCK);
        self.hid_push_u8(TRANSFER_DAP_INDEX);
        self.hid_push_u16(count);
        self.hid_push_u8(reg.request() | TRANSFER_RNW_READ);
        assert(self@.report =~= old(self)@.report + block_read_command(reg, count));
    }

    /// Pushes the `DAP_TransferBlock` command that writes the words of `data` into `reg`;
    /// `transfer_block_write_response` checks the answer.
    pub fn transfer_block_write(&mut self, reg: Register, data: &[u32])
        requires
            old(self).wf(),
            old(self)@.queue.len() == 0,
            data@.len() < u16::MAX,
            old(self)@.report.len() + 6 + 4 * data@.len() <= old(self)@.capacity,
        ensures
            final(self).wf(),
            final(self)@ == (DapView {
                report: old(self)@.report + block_write_command(reg, data@),
                ..old(self)@
            }),
    {
        let count = data.len() as u16;
        self.hid_push_u8(DAP_TRANSFER_BLOCK);
        self.hid_push_u8(TRANSFER_DAP_INDEX);
        self.hid_push_u16(count);
        self.hid_push_u8(reg.request() | TRANSFER_RNW_WRITE);
        let ghost head = self@.report;
        let mut i: usize = 0;
        while i < data.len()
            invariant
                i <= data@.len(),
                data@.len() < u16::MAX,
                self.wf(),
                self@.queue.len() == 0,
                old(self)@.report.len() + 6 + 4 * data@.len() <= self@.capacity,
                head.len() == old(self)@.report.len() + 5,
                self@ == (DapView { report: head + words_le(data@.take(i as int)), ..old(self)@ }),
            decreases data.len() - i,
        {
            proof {
                lemma_words_le_len(data@.take(i as int));
            }
            self.hid_push_u32(data[i]);
            proof {
                assert(data@.take(i + 1).drop_last() =~= data@.take(i as int));
                assert(self@.report =~= head + words_le(data@.take(i + 1)));
            }
            i = i + 1;
        }
        assert(data@.take(i as int) =~= data@);
        assert(self@.report =~= old(self)@.report + block_write_command(reg, data@));
    }
}

impl Dap {
    /// Records whether the AHB-AP is set up for single-word accesses through the banked data
    /// registers.
    pub fn set_banked_data_mode(&mut self, mode: bool)
        requires
            old(self).wf(),
        ensures
            final(self).wf(),
            final(self)@ == (DapView { banked_data_mode: mode, ..old(self)@ }),
    {
        self.banked_data_mode = mode;
    }

    /// Records the value of the AHB-AP's transfer address register, if known.
    pub fn set_tar(&mut self, tar: Option<u32>)
        requires
            old(self).wf(),
        ensures
            final(self).wf(),
            final(self)@ == (DapView { tar, ..old(self)@ }),
    {
        self.tar = tar;
    }

    /// Records the AP bank that `DP_SELECT` is set to, if known.
    pub fn set_ap_bank(&mut self, bank: Option<ApBank>)
        requires
            old(self).wf(),
        ensures
            final(self).wf(),
            final(self)@ == (DapView { ap_bank: bank, ..old(self)@ }),
    {
        self.ap_bank = bank;
    }

    /// Records whether halting debug is known to be on.
    pub fn set_debugen_state(&mut self, debugen: Option<bool>)
        requires
            old(self).wf(),
        ensures
            final(self).wf(),
            final(self)@ == (DapView { debugen, ..old(self)@ }),
    {
        self.debugen = debugen;
    }

    /// The AP bank that `DP_SELECT` was last set to, if known.
    pub fn ap_bank(&self) -> (r: Option<ApBank>)
        ensures
            r == self@.ap_bank,
    {
        self.ap_bank
    }

    /// Whether the AHB-AP is set up for single-word accesses through the banked data registers.
    pub fn banked_data_mode(&self) -> (r: bool)
        ensures
            r == self@.banked_data_mode,
    {
        self.banked_data_mode
    }

    /// The value of the AHB-AP's transfer address register, if known.
    pub fn tar(&self) -> (r: Option<u32>)
        ensures
            r == self@.tar,
    {
        self.tar
    }

    /// Whether halting debug is known to be on.
    pub fn debugen(&self) -> (r: Option<bool>)
        ensures
            r == self@.debugen,
    {
        self.debugen
    }

    /// Largest packet that the debug unit takes.
    pub fn packet_size_value(&self) -> (r: u16)
        ensures
            r == self@.packet_size,
    {
        self.packet_size
    }

    /// Number of transfer requests queued.
    pub fn queued(&self) -> (r: u8)
        requires
            self.wf(),
        ensures
            r == self@.queue.len(),
    {
        self.total_requests
    }

    /// Bytes of the report being built, after its report ID.
    pub fn report_len(&self) -> (r: u16)
        requires
            self.wf(),
        ensures
            r == self@.report.len(),
    {
        self.cursor - 1
    }
}
} // verus!
