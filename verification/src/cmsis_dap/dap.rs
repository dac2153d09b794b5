//! CMSIS-DAP operations: the commands that go to the debug unit and the checks on its responses.
use vstd::prelude::*;

use crate::cmsis_dap::adiv5::{self, ap_bank_spec, select_value, ApBank, Register};
use crate::cmsis_dap::hid::{le16, le32, u16_of, u32_of, u16_from_le, u32_from_le};
use crate::cmsis_dap::{DapError, DapView};

verus! {

/// `DAP_Info`
pub const DAP_INFO: u8 = 0x00;
/// `DAP_Connect`
pub const DAP_CONNECT: u8 = 0x02;
/// `DAP_TransferConfigure`
pub const DAP_TRANSFER_CONFIGURE: u8 = 0x04;
/// `DAP_Transfer`
pub const DAP_TRANSFER: u8 = 0x05;
/// `DAP_TransferBlock`
pub const DAP_TRANSFER_BLOCK: u8 = 0x06;
/// `DAP_SWJ_Clock`
pub const DAP_SWJ_CLOCK: u8 = 0x11;
/// `DAP_SWJ_Sequence`
pub const DAP_SWJ_SEQUENCE: u8 = 0x12;
/// `DAP_ExecuteCommands`
pub const DAP_EXECUTE_COMMANDS: u8 = 0x7f;

/// Length of a one-byte `DAP_Info` answer
pub const LEN_BYTE: u8 = 1;
/// Length of a two-byte `DAP_Info` answer
pub const LEN_SHORT: u8 = 2;

/// `DAP_Info` ID of the capabilities
pub const DAP_INFO_CAPABILITIES: u8 = 0xf0;
/// `DAP_Info` ID of the packet size
pub const DAP_INFO_PACKET_SIZE: u8 = 0xff;
/// Capability bit: SWD is supported
pub const CAPABILITIES_SWD: u8 = 1;
/// Capability bit: atomic commands are supported
pub const CAPABILITIES_ATOMIC_COMMANDS: u8 = 0x10;

/// `DAP_Connect` in SWD mode
pub const DAP_CONNECT_SWD: u8 = 1;

/// Transfer request bit: write
pub const TRANSFER_RNW_WRITE: u8 = 0;
/// Transfer request bit: read
pub const TRANSFER_RNW_READ: u8 = 2;
/// Transfer acknowledge: OK
pub const TRANSFER_ACK_OK: u8 = 1;
/// DAP index; always 0 for SWD interfaces
pub const TRANSFER_DAP_INDEX: u8 = 0;

/// Response status: OK
pub const DAP_OK: u8 = 0;

/// DAP communication modes
pub enum Mode {
    /// Serial-Wire-Debug
    SWD,
}

/// Requested access
#[derive(Clone, Copy, Debug, PartialEq, Eq, Structural)]
pub enum Request {
    /// Read access
    Read,
    /// Write access
    Write(u32),
}

/// The request byte of a register: its address bits and whether it is an AP register.
pub open spec fn request_spec(reg: Register) -> u8 {
    match reg {
        Register::DP_DPIDR => 0x0,
        Register::DP_CTRL => 0x4,
        Register::DP_STAT => 0x4,
        Register::DP_SELECT => 0x8,
        Register::DP_RDBUFF => 0xc,
        Register::AHB_AP_CSW => 0x1,
        Register::AHB_AP_TAR => 0x5,
        Register::AHB_AP_DRW => 0xd,
        Register::AHB_AP_BD0 => 0x1,
        Register::AHB_AP_BD1 => 0x5,
        Register::AHB_AP_BD2 => 0x9,
        Register::AHB_AP_BD3 => 0xd,
    }
}

impl Register {
    /// The request byte of this register, without the read/write bit
    pub fn request(self) -> (r: u8)
        ensures
            r == request_spec(self),
    {
        // bit 0 tells an AP register (1) from a DP one (0); bits 2 and 3 are the address
        match self {
            Register::DP_DPIDR => 0x0,
            Register::DP_CTRL => 0x4,
            Register::DP_STAT => 0x4,
            Register::DP_SELECT => 0x8,
            Register::DP_RDBUFF => 0xc,
            Register::AHB_AP_CSW => 0x1,
            Register::AHB_AP_TAR => 0x5,
            Register::AHB_AP_DRW => 0xd,
            Register::AHB_AP_BD0 => 0x1,
            Register::AHB_AP_BD1 => 0x5,
            Register::AHB_AP_BD2 => 0x9,
            Register::AHB_AP_BD3 => 0xd,
        }
    }
}

/// The bytes that one transfer request adds to a `DAP_Transfer` command.
pub open spec fn item_bytes(reg: Register, req: Request) -> Seq<u8> {
    match req {
        Request::Read => seq![request_spec(reg) | TRANSFER_RNW_READ],
        Request::Write(val) => seq![request_spec(reg) | TRANSFER_RNW_WRITE] + le32(val),
    }
}

/// The bytes of the transfer requests of `q`, in order.
pub open spec fn items(q: Seq<(Register, Request)>) -> Seq<u8>
    decreases q.len(),
{
    if q.len() == 0 {
        Seq::empty()
    } else {
        items(q.drop_last()) + item_bytes(q.last().0, q.last().1)
    }
}

/// The number of read requests in `q`.
pub open spec fn num_reads(q: Seq<(Register, Request)>) -> nat
    decreases q.len(),
{
    if q.len() == 0 {
        0
    } else {
        num_reads(q.drop_last()) + (if q.last().1 is Read { 1nat } else { 0nat })
    }
}

/// Queuing one more request appends its bytes.
pub proof fn lemma_items_push(q: Seq<(Register, Request)>, reg: Register, req: Request)
    ensures
        items(q.push((reg, req))) == items(q) + item_bytes(reg, req),
        item_bytes(reg, req).len() == item_len(req),
{
    assert(q.push((reg, req)).drop_last() =~= q);
}

/// A queue holds no more read requests than requests.
pub proof fn lemma_num_reads_le(q: Seq<(Register, Request)>)
    ensures
        num_reads(q) <= q.len(),
    decreases q.len(),
{
    if q.len() > 0 {
        lemma_num_reads_le(q.drop_last());
    }
}

/// The `DAP_Transfer` command that carries the requests of `q`, after the report ID.
pub open spec fn transfer_report(q: Seq<(Register, Request)>) -> Seq<u8> {
    seq![DAP_TRANSFER, TRANSFER_DAP_INDEX, q.len() as u8] + items(q)
}

/// The requests that `push_dap_transfer_request` queues, given the AP bank last selected: a
/// write of `DP_SELECT` first when the register lives in another AP bank.
pub open spec fn pushed_requests(bank: Option<ApBank>, reg: Register, req: Request) -> Seq<(Register, Request)> {
    if ap_bank_spec(reg) is Some && bank != ap_bank_spec(reg) {
        seq![(Register::DP_SELECT, Request::Write(select_value(ap_bank_spec(reg)->0))), (reg, req)]
    } else {
        seq![(reg, req)]
    }
}

/// The AP bank selected after `push_dap_transfer_request`.
pub open spec fn bank_after(bank: Option<ApBank>, reg: Register) -> Option<ApBank> {
    if ap_bank_spec(reg) is Some {
        ap_bank_spec(reg)
    } else {
        bank
    }
}

/// The requests that pushing each of `list` in turn queues, starting with `bank` selected.
pub open spec fn queue_after(bank: Option<ApBank>, list: Seq<(Register, Request)>) -> Seq<(Register, Request)>
    decreases list.len(),
{
    if list.len() == 0 {
        Seq::empty()
    } else {
        pushed_requests(bank, list[0].0, list[0].1) + queue_after(bank_after(bank, list[0].0), list.skip(1))
    }
}

/// Whether pushing each of `list` in turn keeps the `DAP_Transfer` command within 255 requests
/// and within the report buffer.
pub open spec fn requests_fit(v: DapView, list: Seq<(Register, Request)>) -> bool {
    let q = v.queue + queue_after(v.ap_bank, list);
    &&& v.queue.len() == 0 ==> v.report.len() == 0
    &&& q.len() <= 255
    &&& transfer_report(q).len() + 1 <= v.capacity
}

/// The AP bank selected after pushing each of `list` in turn, starting with `bank` selected.
pub open spec fn bank_after_all(bank: Option<ApBank>, list: Seq<(Register, Request)>) -> Option<ApBank>
    decreases list.len(),
{
    if list.len() == 0 {
        bank
    } else {
        bank_after_all(bank_after(bank, list[0].0), list.skip(1))
    }
}

/// The bytes of two queues one after the other are those of each, one after the other.
pub proof fn lemma_items_append(a: Seq<(Register, Request)>, b: Seq<(Register, Request)>)
    ensures
        items(a + b) == items(a) + items(b),
    decreases b.len(),
{
    if b.len() == 0 {
        assert(a + b =~= a);
        assert(items(b) =~= Seq::<u8>::empty());
        assert(items(a) + items(b) =~= items(a));
    } else {
        lemma_items_append(a, b.drop_last());
        assert((a + b).drop_last() =~= a + b.drop_last());
        assert((a + b).last() == b.last());
    }
}

/// Bytes that the requests of one push take.
pub proof fn lemma_pushed_len(bank: Option<ApBank>, reg: Register, req: Request)
    ensures
        items(pushed_requests(bank, reg, req)).len() == (if pushed_requests(bank, reg, req).len() == 2 { 5nat } else { 0nat })
            + item_len(req),
{
    let p = pushed_requests(bank, reg, req);
    if p.len() == 2 {
        lemma_items_push(seq![p[0]], reg, req);
        lemma_items_push(Seq::empty(), p[0].0, p[0].1);
        assert(Seq::<(Register, Request)>::empty().push(p[0]) =~= seq![p[0]]);
        assert(seq![p[0]].push((reg, req)) =~= p);
    } else {
        lemma_items_push(Seq::empty(), reg, req);
        assert(Seq::<(Register, Request)>::empty().push((reg, req)) =~= p);
    }
}

/// Bytes of `item_bytes`.
pub open spec fn item_len(req: Request) -> nat {
    match req {
        Request::Read => 1,
        Request::Write(_) => 5,
    }
}

/// Bytes that `push_dap_transfer_request` adds to the report.
pub open spec fn push_len(v: DapView, reg: Register, req: Request) -> nat {
    let q = pushed_requests(v.ap_bank, reg, req);
    (if v.queue.len() == 0 { 3nat } else { 0nat }) + (if q.len() == 2 { 5nat } else { 0nat }) + item_len(req)
}

/// The words of a response, four little-endian bytes each; a tail of fewer than four bytes is
/// left out.
pub open spec fn words_of(s: Seq<u8>) -> Seq<u32> {
    Seq::new(s.len() / 4, |i: int| u32_of(s[4 * i], s[4 * i + 1], s[4 * i + 2], s[4 * i + 3]))
}

/// The words of `bytes`, four little-endian bytes each.
pub fn words_from_le(bytes: &[u8]) -> (r: Vec<u32>)
    ensures
        r@ == words_of(bytes@),
{
    let mut r: Vec<u32> = Vec::new();
    let mut j: usize = 0;
    while bytes.len() - j >= 4
        invariant
            j <= bytes@.len(),
            j % 4 == 0,
            r@ =~= words_of(bytes@).take((j / 4) as int),
            j / 4 <= bytes@.len() / 4,
        decreases bytes.len() - j,
    {
        let w = u32_from_le(bytes[j], bytes[j + 1], bytes[j + 2], bytes[j + 3]);
        r.push(w);
        proof {
            assert(4 * (j / 4) == j);
        }
        j = j + 4;
    }
    assert(j / 4 == bytes@.len() / 4);
    r
}

/// A `DAP_Transfer` command on its way: the report to write to the debug unit and what its
/// answer must show.
pub struct Transfer {
    /// The report to write, report ID first.
    pub report: Vec<u8>,
    /// Number of requests in the command.
    pub total_requests: u8,
    /// Number of read requests in the command.
    pub read_requests: u8,
}

/// Response Header Size of `DAP_Transfer`
pub const TRANSFER_RHS: u16 = 3;

impl Transfer {
    /// Length of the answer to read back: its header and a word per read request.
    pub fn response_len(&self) -> (r: u16)
        ensures
            r == 3 + 4 * self.read_requests,
    {
        TRANSFER_RHS + 4 * (self.read_requests as u16)
    }

    /// Checks the answer to the command and gives the words read, in the order of the read
    /// requests.
    pub fn response(&self, resp: &[u8]) -> (r: Result<Vec<u32>, DapError>)
        requires
            resp@.len() == 3 + 4 * self.read_requests,
        ensures
            (resp@[0] == DAP_TRANSFER && resp@[1] == self.total_requests && resp@[2] == TRANSFER_ACK_OK)
                ==> (r matches Ok(words) && words@ == words_of(resp@.skip(3))),
            !(resp@[0] == DAP_TRANSFER && resp@[1] == self.total_requests && resp@[2] == TRANSFER_ACK_OK)
                ==> r == Err::<Vec<u32>, DapError>(DapError::Failed(DAP_TRANSFER)),
    {
        if resp[0] != DAP_TRANSFER || resp[1] != self.total_requests || resp[2] != TRANSFER_ACK_OK {
            return Err(DapError::Failed(DAP_TRANSFER));
        }
        let tail = slice_from(resp, 3);
        Ok(words_from_le(tail))
    }
}

/// The bytes of `s` from `start` on.
pub fn slice_from(s: &[u8], start: usize) -> (r: &[u8])
    requires
        start <= s@.len(),
    ensures
        r@ == s@.skip(start as int),
{
    let (_, tail) = s.split_at(start);
    tail
}



/// The count byte of a `DAP_SWJ_Sequence` of `n` bytes: its number of bits, where 256 is 0.
pub open spec fn swj_count(n: nat) -> u8 {
    if n * 8 == 256 { 0 } else { (n * 8) as u8 }
}

/// The `DAP_TransferBlock` command that reads `count` words from `reg`.
pub open spec fn block_read_command(reg: Register, count: u16) -> Seq<u8> {
    seq![DAP_TRANSFER_BLOCK, TRANSFER_DAP_INDEX] + le16(count) + seq![request_spec(reg) | TRANSFER_RNW_READ]
}

/// The little-endian bytes of the words of `w`, in order.
pub open spec fn words_le(w: Seq<u32>) -> Seq<u8>
    decreases w.len(),
{
    if w.len() == 0 {
        Seq::empty()
    } else {
        words_le(w.drop_last()) + le32(w.last())
    }
}

/// Four bytes per word.
pub proof fn lemma_words_le_len(w: Seq<u32>)
    ensures
        words_le(w).len() == 4 * w.len(),
    decreases w.len(),
{
    if w.len() > 0 {
        lemma_words_le_len(w.drop_last());
    }
}

/// The `DAP_TransferBlock` command that writes the words of `data` into `reg`.
pub open spec fn block_write_command(reg: Register, data: Seq<u32>) -> Seq<u8> {
    seq![DAP_TRANSFER_BLOCK, TRANSFER_DAP_INDEX] + le16(data.len() as u16) + seq![request_spec(reg) | TRANSFER_RNW_WRITE]
        + words_le(data)
}

/// Checks the answer to `DAP_Info Capabilities` and gives the capabilities byte.
pub fn capabilities_response(resp: &[u8]) -> (r: Result<u8, DapError>)
    requires
        resp@.len() == 3,
    ensures
        r == (if resp@[0] == DAP_INFO && resp@[1] == LEN_BYTE {
            Ok::<u8, DapError>(resp@[2])
        } else {
            Err(DapError::Failed(DAP_INFO))
        }),
{
    if resp[0] != DAP_INFO || resp[1] != LEN_BYTE {
        return Err(DapError::Failed(DAP_INFO));
    }
    Ok(resp[2])
}

/// Checks the answer to `DAP_Info PacketSize` and gives the packet size.
pub fn packet_size_response(resp: &[u8]) -> (r: Result<u16, DapError>)
    requires
        resp@.len() == 4,
    ensures
        r == (if resp@[0] == DAP_INFO && resp@[1] == LEN_SHORT {
            Ok::<u16, DapError>(u16_of(resp@[2], resp@[3]))
        } else {
            Err(DapError::Failed(DAP_INFO))
        }),
{
    if resp[0] != DAP_INFO || resp[1] != LEN_SHORT {
        return Err(DapError::Failed(DAP_INFO));
    }
    Ok(u16_from_le(resp[2], resp[3]))
}

/// Checks the answer to `DAP_Connect` in SWD mode.
pub fn connect_response(resp: &[u8]) -> (r: Result<(), DapError>)
    requires
        resp@.len() == 2,
    ensures
        r == (if resp@[0] == DAP_CONNECT && resp@[1] == DAP_CONNECT_SWD {
            Ok::<(), DapError>(())
        } else {
            Err(DapError::Failed(DAP_CONNECT))
        }),
{
    if resp[0] != DAP_CONNECT || resp[1] != DAP_CONNECT_SWD {
        return Err(DapError::Failed(DAP_CONNECT));
    }
    Ok(())
}

/// Checks the two-byte status answer to command `cmd`.
pub fn check_response(cmd: u8, resp: &[u8]) -> (r: Result<(), DapError>)
    requires
        resp@.len() == 2,
    ensures
        r == (if resp@[0] == cmd && resp@[1] == DAP_OK {
            Ok::<(), DapError>(())
        } else {
            Err(DapError::Failed(cmd))
        }),
{
    if resp[0] == cmd && resp[1] == DAP_OK {
        Ok(())
    } else {
        Err(DapError::Failed(cmd))
    }
}

/// Response Header Size of `DAP_TransferBlock`
pub const TRANSFER_BLOCK_RHS: u16 = 4;

/// Whether the header of a `DAP_TransferBlock` answer reports `count` words transferred.
pub open spec fn block_header_ok(resp: Seq<u8>, count: u16) -> bool {
    &&& resp[0] == DAP_TRANSFER_BLOCK
    &&& resp.subrange(1, 3) == le16(count)
    &&& resp[3] == TRANSFER_ACK_OK
}

/// Checks the header of a `DAP_TransferBlock` answer.
fn block_header(resp: &[u8], count: u16) -> (r: bool)
    requires
        resp@.len() >= 4,
    ensures
        r == block_header_ok(resp@, count),
{
    let r = resp[0] == DAP_TRANSFER_BLOCK && resp[1] == (count & 0xff) as u8 && resp[2] == ((count >> 8) & 0xff) as u8
        && resp[3] == TRANSFER_ACK_OK;
    assert(r == block_header_ok(resp@, count)) by {
        if resp@[1] == (count & 0xff) as u8 && resp@[2] == ((count >> 8) & 0xff) as u8 {
            assert(resp@.subrange(1, 3) =~= le16(count));
        }
        if resp@.subrange(1, 3) == le16(count) {
            assert(resp@[1] == resp@.subrange(1, 3)[0]);
            assert(resp@[2] == resp@.subrange(1, 3)[1]);
        }
    }
    r
}

/// Length of the answer to a `DAP_TransferBlock` read of `count` words.
pub fn transfer_block_read_len(count: u16) -> (r: u16)
    requires
        4 + 4 * count <= u16::MAX,
    ensures
        r == 4 + 4 * count,
{
    TRANSFER_BLOCK_RHS + count * 4
}

/// Checks the answer to a `DAP_TransferBlock` read of `count` words and gives the bytes read.
pub fn transfer_block_read_response(resp: &[u8], count: u16) -> (r: Result<&[u8], DapError>)
    requires
        resp@.len() == 4 + 4 * count,
    ensures
        block_header_ok(resp@, count) ==> (r matches Ok(data) && data@ == resp@.skip(4)),
        !block_header_ok(resp@, count) ==> r == Err::<&[u8], DapError>(DapError::Failed(DAP_TRANSFER_BLOCK)),
{
    if !block_header(resp, count) {
        return Err(DapError::Failed(DAP_TRANSFER_BLOCK));
    }
    Ok(slice_from(resp, 4))
}

/// Checks the answer to a `DAP_TransferBlock` write of `count` words.
pub fn transfer_block_write_response(resp: &[u8], count: u16) -> (r: Result<(), DapError>)
    requires
        resp@.len() == 4,
    ensures
        r == (if block_header_ok(resp@, count) {
            Ok::<(), DapError>(())
        } else {
            Err(DapError::Failed(DAP_TRANSFER_BLOCK))
        }),
{
    if !block_header(resp, count) {
        return Err(DapError::Failed(DAP_TRANSFER_BLOCK));
    }
    Ok(())
}

/// The `DAP_Transfer` command that carries the requests of `list`, built apart from any queue.
pub fn transfer_command(list: &[(Register, Request)]) -> (r: Vec<u8>)
    requires
        list@.len() <= 255,
    ensures
        r@ == transfer_report(list@),
{
    let mut r: Vec<u8> = Vec::new();
    r.push(DAP_TRANSFER);
    r.push(TRANSFER_DAP_INDEX);
    r.push(list.len() as u8);
    let mut i: usize = 0;
    while i < list.len()
        invariant
            i <= list@.len(),
            list@.len() <= 255,
            r@ == seq![DAP_TRANSFER, TRANSFER_DAP_INDEX, list@.len() as u8] + items(list@.take(i as int)),
        decreases list.len() - i,
    {
        let (reg, req) = list[i];
        proof {
            lemma_items_push(list@.take(i as int), reg, req);
            assert(list@.take(i + 1) =~= list@.take(i as int).push((reg, req)));
        }
        match req {
            Request::Write(val) => {
                r.push(reg.request() | TRANSFER_RNW_WRITE);
                r.push((val & 0xff) as u8);
                r.push(((val >> 8) & 0xff) as u8);
                r.push(((val >> 16) & 0xff) as u8);
                r.push(((val >> 24) & 0xff) as u8);
            },
            Request::Read => {
                r.push(reg.request() | TRANSFER_RNW_READ);
            },
        }
        proof {
            assert(r@ =~= seq![DAP_TRANSFER, TRANSFER_DAP_INDEX, list@.len() as u8] + items(list@.take(i + 1)));
        }
        i = i + 1;
    }
    assert(list@.take(i as int) =~= list@);
    r
}

/// SWD clock frequency set up by the default SWD configuration, in Hz
pub const DEFAULT_SWD_FREQUENCY: u32 = 4_000_000;

/// Retries on WAIT responses set up by the default SWD configuration
pub const DEFAULT_WAIT_RETRY: u16 = 1;

/// SWJ sequence to switch from JTAG mode to SWD mode: at least 50 cycles of SWDIO/TMS high, the
/// 16-bit JTAG-to-SWD select sequence, at least 50 cycles of SWDIO/TMS high again and at least 2
/// idle cycles (section 4.4.3 of ADIv5).
pub fn jtag_to_swd_swj_sequence() -> (r: Vec<u8>)
    ensures
        r@ == seq![0xffu8, 0xff, 0xff, 0xff, 0xff, 0xff, 0xff, 0x9e, 0xe7, 0xff, 0xff, 0xff, 0xff, 0xff, 0xff, 0xff, 0x00],
{
    vec![0xff, 0xff, 0xff, 0xff, 0xff, 0xff, 0xff, 0x9e, 0xe7, 0xff, 0xff, 0xff, 0xff, 0xff, 0xff, 0xff, 0x00]
}

/// Checks that the debug unit supports SWD, from its capabilities byte.
pub fn check_swd(capabilities: u8) -> (r: Result<(), DapError>)
    ensures
        r == (if capabilities & CAPABILITIES_SWD == 0 { Err(DapError::NoSwd) } else { Ok::<(), DapError>(()) }),
{
    if capabilities & CAPABILITIES_SWD == 0 {
        Err(DapError::NoSwd)
    } else {
        Ok(())
    }
}

/// Checks that DPIDR names an ARM Debug Port of version 1 or 2, and gives the version.
pub fn check_dpidr(dpidr: u32) -> (r: Result<u32, DapError>)
    ensures
        r == (if dpidr & 0xfff != (adiv5::DP_DPIDR_RESERVED | adiv5::DP_DPIDR_MANUFACTURER_ARM) {
            Err(DapError::NotArm(dpidr))
        } else if (dpidr >> 12) & 0x7 == 2 || (dpidr >> 12) & 0x7 == 1 {
            Ok::<u32, DapError>((dpidr >> 12) & 0x7)
        } else {
            Err(DapError::UnsupportedDebugPort(dpidr))
        }),
{
    // the low 12 bits: the reserved bit and the JEDEC manufacturer ID
    if (dpidr & 0xfff) != (adiv5::DP_DPIDR_RESERVED | adiv5::DP_DPIDR_MANUFACTURER_ARM) {
        return Err(DapError::NotArm(dpidr));
    }
    // bits 12..15: the version
    let version = (dpidr >> 12) & 0x7;
    if version == 2 || version == 1 {
        Ok(version)
    } else {
        Err(DapError::UnsupportedDebugPort(dpidr))
    }
}

/// The DP_CTRL value that requests debug power-up, given DP_STAT: nothing when debug power-up is
/// already acknowledged. A pending system power-up request is kept.
pub fn debug_power_up_request(stat: u32) -> (r: Option<u32>)
    ensures
        r == (if stat & adiv5::DP_STAT_CDBGPWRUPACK == 0 {
            Some((stat & adiv5::DP_CTRL_CSYSPWRUPREQ) | adiv5::DP_CTRL_CDBGPWRUPREQ)
        } else {
            None::<u32>
        }),
{
    if stat & adiv5::DP_STAT_CDBGPWRUPACK == 0 {
        Some((stat & adiv5::DP_CTRL_CSYSPWRUPREQ) | adiv5::DP_CTRL_CDBGPWRUPREQ)
    } else {
        None
    }
}

/// Checks DP_STAT after the debug power-up request.
pub fn debug_power_up_check(stat: u32) -> (r: Result<(), DapError>)
    ensures
        r == (if stat & adiv5::DP_STAT_CDBGPWRUPACK == 0 { Err(DapError::DebugPowerUp) } else { Ok::<(), DapError>(()) }),
{
    if stat & adiv5::DP_STAT_CDBGPWRUPACK == 0 {
        Err(DapError::DebugPowerUp)
    } else {
        Ok(())
    }
}

/// The DP_CTRL value that requests system power-up, given DP_STAT: nothing when system power-up
/// is already acknowledged. A pending debug power-up request is kept.
pub fn system_power_up_request(stat: u32) -> (r: Option<u32>)
    ensures
        r == (if stat & adiv5::DP_STAT_CSYSPWRUPACK == 0 {
            Some((stat & adiv5::DP_CTRL_CDBGPWRUPREQ) | adiv5::DP_CTRL_CSYSPWRUPREQ)
        } else {
            None::<u32>
        }),
{
    if stat & adiv5::DP_STAT_CSYSPWRUPACK == 0 {
        Some((stat & adiv5::DP_CTRL_CDBGPWRUPREQ) | adiv5::DP_CTRL_CSYSPWRUPREQ)
    } else {
        None
    }
}

/// Checks DP_STAT after the system power-up request.
pub fn system_power_up_check(stat: u32) -> (r: Result<(), DapError>)
    ensures
        r == (if stat & adiv5::DP_STAT_CSYSPWRUPACK == 0 { Err(DapError::SystemPowerUp) } else { Ok::<(), DapError>(()) }),
{
    if stat & adiv5::DP_STAT_CSYSPWRUPACK == 0 {
        Err(DapError::SystemPowerUp)
    } else {
        Ok(())
    }
}

/// The `DAP_TransferBlock` write counts, at most `max` words each, that carry `total` words.
pub open spec fn write_counts(total: nat, max: nat) -> Seq<usize>
    decreases total,
{
    if total == 0 || max == 0 {
        Seq::empty()
    } else {
        let c: nat = if total < max { total } else { max };
        seq![c as usize] + write_counts((total - c) as nat, max)
    }
}

/// Plans the `DAP_TransferBlock` writes that carry `total` words with this packet size.
pub fn block_write_counts(packet_size: u16, total: usize) -> (r: Vec<usize>)
    requires
        packet_size >= 9,
    ensures
        r@ == write_counts(total as nat, (((packet_size - 5) - (packet_size - 5) % 4) / 4) as nat),
{
    let max = (crate::cmsis_dap::util::round_down(packet_size - 5, 4) / 4) as usize;
    let ghost target = write_counts(total as nat, max as nat);
    let mut r: Vec<usize> = Vec::new();
    let mut total_count = total;
    while total_count != 0
        invariant
            max > 0,
            r@ + write_counts(total_count as nat, max as nat) == target,
        decreases total_count,
    {
        let count = if total_count < max { total_count } else { max };
        proof {
            assert(r@.push(count) + write_counts((total_count - count) as nat, max as nat) =~= r@ + write_counts(total_count as nat, max as nat));
        }
        r.push(count);
        total_count = total_count - count;
    }
    r
}
} // verus!
