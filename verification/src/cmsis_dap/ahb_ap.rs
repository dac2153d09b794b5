//! AHB-AP (Access Port) memory accesses: the requests they queue and how they split a transfer.
use vstd::prelude::*;

use crate::cmsis_dap::adiv5::{banked_data_spec, select_value, ApBank, Register};
use crate::cmsis_dap::dap::{
    bank_after_all, block_read_command, queue_after, requests_fit, transfer_command,
    CAPABILITIES_ATOMIC_COMMANDS, DAP_EXECUTE_COMMANDS, DAP_TRANSFER, DAP_TRANSFER_BLOCK,
    TRANSFER_ACK_OK, TRANSFER_DAP_INDEX, TRANSFER_RNW_READ, transfer_report, words_from_le, words_of, Request,
};
use crate::cmsis_dap::hid::{le16, u16_of, u16_from_le};
use crate::cmsis_dap::sealed::{rotate_left, Data};
use crate::cmsis_dap::{Dap, DapError, DapView};

verus! {

/// CSW bits that must keep their value: MasterType, HPROT1, a reserved bit and DbgStatus
pub const CSW_MUST_PRESERVE: u32 = 0x2300_0040;
/// CSW: packed address increment
pub const CSW_ADDRINC_PACKED: u32 = 0x20;
/// The transfer address auto-increments within blocks of this many bytes
pub const CSW_ADDRINC_BOUNDARY: u32 = 0x400;

/// The bytes of one decoded chunk: a rotated 4-byte chunk cut to its first `len` bytes.
pub open spec fn chunk_u8(c: Seq<u8>, offset: u32, len: nat) -> Seq<u8> {
    rotate_left(c, offset as int).take(len as int)
}

/// Bytes read by byte accesses.
pub open spec fn decode_u8(bytes: Seq<u8>, offset: u32, count: u16) -> Seq<u8>
    decreases bytes.len(),
{
    if bytes.len() < 4 {
        Seq::empty()
    } else {
        let len: u16 = if count < 4 { count } else { 4 };
        chunk_u8(bytes.take(4), offset, len as nat) + decode_u8(bytes.skip(4), offset, (count - len) as u16)
    }
}

/// The half-words of `s`, two little-endian bytes each.
pub open spec fn halfwords(s: Seq<u8>) -> Seq<u16> {
    Seq::new(s.len() / 2, |i: int| u16_of(s[2 * i], s[2 * i + 1]))
}

/// Half-words read by half-word accesses.
pub open spec fn decode_u16(bytes: Seq<u8>, offset: u32, count: u16) -> Seq<u16>
    decreases bytes.len(),
{
    if bytes.len() < 4 {
        Seq::empty()
    } else {
        let len: int = if 2 * count < 4 { 2 * count } else { 4 };
        halfwords(rotate_left(bytes.take(4), offset as int).take(len)) + decode_u16(
            bytes.skip(4),
            offset,
            (count - len / 2) as u16,
        )
    }
}

proof fn lemma_halfwords_append(a: Seq<u8>, b: Seq<u8>)
    requires
        a.len() % 2 == 0,
    ensures
        halfwords(a + b) == halfwords(a) + halfwords(b),
{
    assert((a.len() + b.len()) / 2 == a.len() / 2 + b.len() / 2);
    assert forall|i: int| 0 <= i < halfwords(a + b).len() implies #[trigger] halfwords(a + b)[i] == (halfwords(a) + halfwords(b))[i] by {
        if i < a.len() / 2 {
        } else {
            let k = i - a.len() / 2;
            assert(2 * i == a.len() + 2 * k);
        }
    }
    assert(halfwords(a + b) =~= halfwords(a) + halfwords(b));
}

proof fn lemma_decode_u16_u8(bytes: Seq<u8>, offset: u32, count: u16)
    requires
        2 * count <= u16::MAX,
        offset <= 4,
    ensures
        decode_u16(bytes, offset, count) == halfwords(decode_u8(bytes, offset, (2 * count) as u16)),
    decreases bytes.len(),
{
    if bytes.len() >= 4 {
        let c8 = (2 * count) as u16;
        let len: int = if 2 * count < 4 { 2 * count } else { 4 };
        let chunk = rotate_left(bytes.take(4), offset as int).take(len);
        assert(rotate_left(bytes.take(4), offset as int).len() == 4);
        assert(chunk.len() == len);
        assert(chunk_u8(bytes.take(4), offset, len as nat) == chunk);
        lemma_decode_u16_u8(bytes.skip(4), offset, (count - len / 2) as u16);
        assert((2 * ((count - len / 2) as u16)) as u16 == (c8 - len) as u16);
        lemma_halfwords_append(chunk, decode_u8(bytes.skip(4), offset, (c8 - len) as u16));
    } else {
        assert(halfwords(Seq::<u8>::empty()) =~= Seq::<u16>::empty());
    }
}

proof fn lemma_u16_of_arith(b0: u8, b1: u8)
    ensures
        u16_of(b0, b1) as int == b0 as int + 256 * (b1 as int),
{
    assert((b0 as u16) | ((b1 as u16) << 8) == (b0 as u16) + 256 * (b1 as u16)) by (bit_vector);
}

/// A half-word read gives the target's half-words in little-endian order: the `i`th half-word is
/// `b[2i] + 256 * b[2i + 1]`, where `b` are the bytes that a byte read of the same words, from the
/// same offset, gives for twice as many items.
pub proof fn halfword_reads_are_little_endian(bytes: Seq<u8>, offset: u32, count: u16)
    requires
        2 * count <= u16::MAX,
        offset <= 4,
    ensures
        decode_u16(bytes, offset, count).len() == decode_u8(bytes, offset, (2 * count) as u16).len() / 2,
        forall|i: int| 0 <= i < decode_u16(bytes, offset, count).len() ==> {
            let b = decode_u8(bytes, offset, (2 * count) as u16);
            #[trigger] decode_u16(bytes, offset, count)[i] as int == b[2 * i] as int + 256 * (b[2 * i + 1] as int)
        },
{
    lemma_decode_u16_u8(bytes, offset, count);
    let b = decode_u8(bytes, offset, (2 * count) as u16);
    assert forall|i: int| 0 <= i < decode_u16(bytes, offset, count).len() implies #[trigger] decode_u16(bytes, offset, count)[i] as int
        == b[2 * i] as int + 256 * (b[2 * i + 1] as int) by {
        lemma_u16_of_arith(b[2 * i], b[2 * i + 1]);
    }
}

proof fn lemma_rotate_index(c: Seq<u8>, offset: int, k: int)
    requires
        c.len() == 4,
        0 <= offset <= 4,
        0 <= k < 4,
    ensures
        rotate_left(c, offset)[k] == c[(k + offset) % 4],
        rotate_left(c, offset).len() == 4,
{
}

impl Data for u8 {
    open spec fn bytes_spec() -> u16 {
        1
    }

    open spec fn csw_size_spec() -> u32 {
        0b00
    }

    open spec fn decode(bytes: Seq<u8>, offset: u32, count: u16) -> Seq<u8> {
        decode_u8(bytes, offset, count)
    }

    open spec fn push_ok(bytes: Seq<u8>, offset: u32, count: u16) -> bool {
        bytes.len() % 4 == 0 && offset <= 4
    }

    fn bytes() -> (r: u16) {
        1
    }

    fn csw_size() -> (r: u32) {
        0b00
    }

    open spec fn acronym_spec() -> Seq<char> {
        seq!['B']
    }

    fn acronym() -> (r: &'static str) {
        proof {
            reveal_strlit("B");
        }
        "B"
    }

    fn push(memory: &mut Vec<u8>, bytes: &[u8], offset: u32, count: u16) {
        let ghost target = old(memory)@ + decode_u8(bytes@, offset, count);
        let mut count = count;
        let mut j: usize = 0;
        let n = bytes.len();
        assert(bytes@.skip(0) =~= bytes@);
        while n - j >= 4
            invariant
                n == bytes@.len(),
                j <= bytes@.len(),
                j % 4 == 0,
                bytes@.len() % 4 == 0,
                offset <= 4,
                memory@ + decode_u8(bytes@.skip(j as int), offset, count) == target,
            decreases n - j,
        {
            let ghost rest = bytes@.skip(j as int);
            let ghost start = memory@;
            let len: u16 = if count < 4 { count } else { 4 };
            let mut k: u16 = 0;
            while k < len
                invariant
                    k <= len <= 4,
                    j + 4 <= bytes@.len(),
                    n == bytes@.len(),
                    offset <= 4,
                    rest == bytes@.skip(j as int),
                    memory@ == start + chunk_u8(rest.take(4), offset, k as nat),
                decreases len - k,
            {
                let idx = j + ((offset as usize + k as usize) % 4);
                proof {
                    lemma_rotate_index(rest.take(4), offset as int, k as int);
                    assert(bytes@[idx as int] == rest.take(4)[(k + offset) % 4]);
                    assert(chunk_u8(rest.take(4), offset, (k + 1) as nat) =~= chunk_u8(rest.take(4), offset, k as nat).push(bytes@[idx as int]));
                }
                memory.push(bytes[idx]);
                k = k + 1;
            }
            proof {
                assert(rest.skip(4) =~= bytes@.skip(j + 4));
                assert(memory@ + decode_u8(bytes@.skip(j + 4), offset, (count - len) as u16) =~= start + decode_u8(rest, offset, count));
            }
            count = count - len;
            j = j + 4;
        }
        assert(bytes@.skip(j as int).len() < 4);
        assert(memory@ =~= target);
    }
}

impl Data for u16 {
    open spec fn bytes_spec() -> u16 {
        2
    }

    open spec fn csw_size_spec() -> u32 {
        0b01
    }

    open spec fn decode(bytes: Seq<u8>, offset: u32, count: u16) -> Seq<u16> {
        decode_u16(bytes, offset, count)
    }

    open spec fn push_ok(bytes: Seq<u8>, offset: u32, count: u16) -> bool {
        &&& bytes.len() % 4 == 0
        &&& offset <= 4
        &&& bytes.len() > 0 ==> 2 * count <= u16::MAX
    }

    fn bytes() -> (r: u16) {
        2
    }

    fn csw_size() -> (r: u32) {
        0b01
    }

    open spec fn acronym_spec() -> Seq<char> {
        seq!['H']
    }

    fn acronym() -> (r: &'static str) {
        proof {
            reveal_strlit("H");
        }
        "H"
    }

    fn push(memory: &mut Vec<u16>, bytes: &[u8], offset: u32, count: u16) {
        let ghost target = old(memory)@ + decode_u16(bytes@, offset, count);
        let mut count = count;
        let mut j: usize = 0;
        let n = bytes.len();
        assert(bytes@.skip(0) =~= bytes@);
        while n - j >= 4
            invariant
                n == bytes@.len(),
                j <= bytes@.len(),
                j % 4 == 0,
                bytes@.len() % 4 == 0,
                offset <= 4,
                j < bytes@.len() ==> 2 * count <= u16::MAX,
                memory@ + decode_u16(bytes@.skip(j as int), offset, count) == target,
            decreases n - j,
        {
            let ghost rest = bytes@.skip(j as int);
            let ghost start = memory@;
            let ghost rot = rotate_left(rest.take(4), offset as int);
            let len: u16 = if count * 2 < 4 { count * 2 } else { 4 };
            let mut k: u16 = 0;
            proof {
                lemma_rotate_index(rest.take(4), offset as int, 0);
            }
            while k + 2 <= len
                invariant
                    k <= len <= 4,
                    k % 2 == 0,
                    len % 2 == 0,
                    j + 4 <= bytes@.len(),
                    n == bytes@.len(),
                    offset <= 4,
                    rest == bytes@.skip(j as int),
                    rot == rotate_left(rest.take(4), offset as int),
                    rot.len() == 4,
                    memory@ == start + halfwords(rot.take(k as int)),
                decreases len - k,
            {
                let i0 = j + ((offset as usize + k as usize) % 4);
                let i1 = j + ((offset as usize + k as usize + 1) % 4);
                proof {
                    lemma_rotate_index(rest.take(4), offset as int, k as int);
                    lemma_rotate_index(rest.take(4), offset as int, k + 1);
                    assert(bytes@[i0 as int] == rot[k as int]);
                    assert(bytes@[i1 as int] == rot[k + 1]);
                }
                let h = u16_from_le(bytes[i0], bytes[i1]);
                proof {
                    assert(halfwords(rot.take(k + 2)) =~= halfwords(rot.take(k as int)).push(h));
                }
                memory.push(h);
                k = k + 2;
            }
            proof {
                assert(k == len);
                assert(rest.skip(4) =~= bytes@.skip(j + 4));
                assert(memory@ + decode_u16(bytes@.skip(j + 4), offset, (count - len / 2) as u16) =~= start + decode_u16(rest, offset, count));
            }
            count = count - len / 2;
            j = j + 4;
        }
        assert(bytes@.skip(j as int).len() < 4);
        assert(memory@ =~= target);
    }
}

impl Data for u32 {
    open spec fn bytes_spec() -> u16 {
        4
    }

    open spec fn csw_size_spec() -> u32 {
        0b10
    }

    open spec fn decode(bytes: Seq<u8>, offset: u32, count: u16) -> Seq<u32> {
        words_of(bytes)
    }

    open spec fn push_ok(bytes: Seq<u8>, offset: u32, count: u16) -> bool {
        bytes.len() % 4 == 0 && offset == 0
    }

    fn bytes() -> (r: u16) {
        4
    }

    fn csw_size() -> (r: u32) {
        0b10
    }

    open spec fn acronym_spec() -> Seq<char> {
        seq!['W']
    }

    fn acronym() -> (r: &'static str) {
        proof {
            reveal_strlit("W");
        }
        "W"
    }

    fn push(memory: &mut Vec<u32>, bytes: &[u8], offset: u32, count: u16) {
        let mut words = words_from_le(bytes);
        memory.append(&mut words);
    }
}


/// The requests that a single-word access queues: the CSW setup unless the AHB-AP is already in
/// banked data mode, the transfer address unless it already points at the word's 16-byte block,
/// then the access itself through a banked data register.
pub open spec fn word_requests(v: DapView, addr: u32, req: Request) -> Seq<(Register, Request)> {
    (if v.banked_data_mode {
        Seq::empty()
    } else {
        seq![(Register::AHB_AP_CSW, Request::Write(CSW_MUST_PRESERVE | 0b10))]
    }) + (if v.tar == Some(addr & 0xffff_fff0) {
        Seq::empty()
    } else {
        seq![(Register::AHB_AP_TAR, Request::Write(addr & 0xffff_fff0))]
    }) + seq![(banked_data_spec(addr), req)]
}

/// Whether the requests of a single-word access fit in the `DAP_Transfer` command being built.
pub open spec fn word_access_fits(v: DapView, addr: u32, req: Request) -> bool {
    requests_fit(v, word_requests(v, addr, req))
}

impl Dap {
    /// Queues a single-word access to the target's memory through the AHB-AP (Access Port) and
    /// takes the `DAP_Transfer` command out, to be written to the debug unit.
    fn word_access(&mut self, addr: u32, req: Request) -> (r: crate::cmsis_dap::dap::Transfer)
        requires
            old(self).wf(),
            addr % 4 == 0,
            word_access_fits(old(self)@, addr, req),
        ensures
            final(self).wf(),
            r.report@ == seq![crate::cmsis_dap::REPORT_ID] + transfer_report(
                old(self)@.queue + queue_after(old(self)@.ap_bank, word_requests(old(self)@, addr, req)),
            ),
            r.total_requests == old(self)@.queue.len() + queue_after(old(self)@.ap_bank, word_requests(old(self)@, addr, req)).len(),
            r.read_requests == crate::cmsis_dap::dap::num_reads(
                old(self)@.queue + queue_after(old(self)@.ap_bank, word_requests(old(self)@, addr, req)),
            ),
            final(self)@ == (DapView {
                report: Seq::<u8>::empty(),
                queue: Seq::<(Register, Request)>::empty(),
                ap_bank: bank_after_all(old(self)@.ap_bank, word_requests(old(self)@, addr, req)),
                banked_data_mode: true,
                tar: Some(addr & 0xffff_fff0),
                ..old(self)@
            }),
    {
        let ghost v = self@;
        let mut list: Vec<(Register, Request)> = Vec::new();
        if !self.banked_data_mode() {
            list.push((Register::AHB_AP_CSW, Request::Write(CSW_MUST_PRESERVE | <u32 as Data>::csw_size())));
        }
        let desired_tar = addr & !0xf;
        assert(desired_tar == addr & 0xffff_fff0) by (bit_vector)
            requires
                desired_tar == addr & !0xfu32,
        ;
        let update = match self.tar() {
            Some(tar) => tar != desired_tar,
            None => true,
        };
        if update {
            list.push((Register::AHB_AP_TAR, Request::Write(desired_tar)));
        }
        list.push((Register::banked_data(addr), req));
        assert(list@ =~= word_requests(v, addr, req));
        self.push_dap_transfer_requests(list.as_slice());
        self.set_banked_data_mode(true);
        self.set_tar(Some(desired_tar));
        self.execute_dap_transfer()
    }

    /// Queues the read of the word at `addr` from the target's memory, using the AHB-AP (Access
    /// Port), and takes the `DAP_Transfer` command out, to be written to the debug unit; the word
    /// is the first one that `Transfer::response` gives when nothing else was queued.
    pub fn memory_read_word(&mut self, addr: u32) -> (r: crate::cmsis_dap::dap::Transfer)
        requires
            old(self).wf(),
            addr % 4 == 0,
            word_access_fits(old(self)@, addr, Request::Read),
        ensures
            final(self).wf(),
            r.report@ == seq![crate::cmsis_dap::REPORT_ID] + transfer_report(
                old(self)@.queue + queue_after(old(self)@.ap_bank, word_requests(old(self)@, addr, Request::Read)),
            ),
            r.total_requests == old(self)@.queue.len() + queue_after(old(self)@.ap_bank, word_requests(old(self)@, addr, Request::Read)).len(),
            r.read_requests == crate::cmsis_dap::dap::num_reads(
                old(self)@.queue + queue_after(old(self)@.ap_bank, word_requests(old(self)@, addr, Request::Read)),
            ),
            final(self)@ == (DapView {
                report: Seq::<u8>::empty(),
                queue: Seq::<(Register, Request)>::empty(),
                ap_bank: bank_after_all(old(self)@.ap_bank, word_requests(old(self)@, addr, Request::Read)),
                banked_data_mode: true,
                tar: Some(addr & 0xffff_fff0),
                ..old(self)@
            }),
    {
        self.word_access(addr, Request::Read)
    }

    /// Queues the write of `val` into the word at `addr` of the target's memory, using the AHB-AP
    /// (Access Port), and takes the `DAP_Transfer` command out, to be written to the debug unit.
    pub fn memory_write_word(&mut self, addr: u32, val: u32) -> (r: crate::cmsis_dap::dap::Transfer)
        requires
            old(self).wf(),
            addr % 4 == 0,
            word_access_fits(old(self)@, addr, Request::Write(val)),
        ensures
            final(self).wf(),
            r.report@ == seq![crate::cmsis_dap::REPORT_ID] + transfer_report(
                old(self)@.queue + queue_after(old(self)@.ap_bank, word_requests(old(self)@, addr, Request::Write(val))),
            ),
            r.total_requests == old(self)@.queue.len() + queue_after(old(self)@.ap_bank, word_requests(old(self)@, addr, Request::Write(val))).len(),
            r.read_requests == crate::cmsis_dap::dap::num_reads(
                old(self)@.queue + queue_after(old(self)@.ap_bank, word_requests(old(self)@, addr, Request::Write(val))),
            ),
            final(self)@ == (DapView {
                report: Seq::<u8>::empty(),
                queue: Seq::<(Register, Request)>::empty(),
                ap_bank: bank_after_all(old(self)@.ap_bank, word_requests(old(self)@, addr, Request::Write(val))),
                banked_data_mode: true,
                tar: Some(addr & 0xffff_fff0),
                ..old(self)@
            }),
    {
        self.word_access(addr, Request::Write(val))
    }
}

/// The pieces, as (address, bytes), that an access of `total` bytes at `addr` is cut into so that
/// none crosses a boundary of the transfer address auto-increment; `offset` is where `addr` lies
/// in its block.
pub open spec fn segments(addr: nat, total: nat, offset: nat) -> Seq<(u32, u32)>
    decreases total,
{
    if total == 0 || offset >= 0x400 {
        Seq::empty()
    } else {
        let b: nat = if total < 0x400 - offset { total } else { (0x400 - offset) as nat };
        seq![(addr as u32, b as u32)] + segments(addr + b, (total - b) as nat, 0)
    }
}

/// Cuts an access of `total` bytes at `addr` into pieces that do not cross a boundary of the
/// transfer address auto-increment.
pub fn boundary_segments(addr: u32, total: u32) -> (r: Vec<(u32, u32)>)
    requires
        addr % 0x400 + total <= u32::MAX,
        addr % 0x400 + total <= 0x400 || addr + total <= u32::MAX,
    ensures
        r@ == segments(addr as nat, total as nat, (addr % 0x400) as nat),
{
    let mut r: Vec<(u32, u32)> = Vec::new();
    if total == 0 {
        return r;
    }
    let offset = addr % CSW_ADDRINC_BOUNDARY;
    if offset + total > CSW_ADDRINC_BOUNDARY {
        // AHB_AP_TAR will need to be updated mid-way to avoid auto-increment wrap-around
        let ghost target = segments(addr as nat, total as nat, offset as nat);
        let mut addr = addr;
        let mut total_bytes = total;
        let mut offset = offset;
        while total_bytes != 0
            invariant
                offset < 0x400,
                addr + total_bytes <= u32::MAX,
                r@ + segments(addr as nat, total_bytes as nat, offset as nat) == target,
            decreases total_bytes,
        {
            let bytes = if total_bytes < CSW_ADDRINC_BOUNDARY - offset { total_bytes } else { CSW_ADDRINC_BOUNDARY - offset };
            proof {
                assert(r@.push((addr, bytes)) + segments((addr + bytes) as nat, (total_bytes - bytes) as nat, 0) =~= r@ + segments(addr as nat, total_bytes as nat, offset as nat));
            }
            r.push((addr, bytes));
            offset = 0;
            addr = addr + bytes;
            total_bytes = total_bytes - bytes;
        }
        assert(r@ =~= target);
    } else {
        r.push((addr, total));
        assert(segments((addr + total) as nat, 0, 0) =~= Seq::<(u32, u32)>::empty());
        assert(r@ =~= segments(addr as nat, total as nat, offset as nat));
    }
    r
}

/// `x` rounded up to a multiple of 4.
pub open spec fn round_up4(x: int) -> int {
    if x % 4 == 0 { x } else { x - x % 4 + 4 }
}

/// One `DAP_TransferBlock` read of a block access: where it starts, the items it carries and the
/// words it reads.
#[derive(Clone, Copy, Debug, PartialEq, Eq, Structural)]
pub struct BlockRead {
    /// Address of the first item.
    pub addr: u32,
    /// Items carried.
    pub count: u16,
    /// Words read.
    pub words: u16,
}

/// The `DAP_TransferBlock` reads that carry `total` items of `elem` bytes from `addr` on, at most
/// `max` items each.
pub open spec fn block_reads(addr: nat, total: nat, max: nat, elem: nat) -> Seq<BlockRead>
    decreases total,
{
    if total == 0 || max == 0 {
        Seq::empty()
    } else {
        let c: nat = if total < max { total } else { max };
        let payload = round_up4((c * elem) as int);
        seq![BlockRead { addr: addr as u32, count: c as u16, words: (payload / 4) as u16 }]
            + block_reads((addr + payload) as nat, (total - c) as nat, max, elem)
    }
}

/// The address that the block reads of `block_reads` end at.
pub open spec fn block_reads_end(addr: nat, total: nat, max: nat, elem: nat) -> nat
    decreases total,
{
    if total == 0 || max == 0 {
        addr
    } else {
        let c: nat = if total < max { total } else { max };
        block_reads_end((addr + round_up4((c * elem) as int)) as nat, (total - c) as nat, max, elem)
    }
}

/// Most items of `elem` bytes that one `DAP_TransferBlock` read carries with this packet size.
pub open spec fn max_block_items(packet_size: u16, elem: u16) -> nat {
    (((packet_size - 5) - (packet_size - 5) % 4) / (elem as int)) as nat
}

/// Plans the `DAP_TransferBlock` reads of `total_count` items of `elem` bytes at `addr`, which
/// lie in one block of the transfer address auto-increment; gives the reads and the address they
/// end at.
pub fn block_read_plan(packet_size: u16, addr: u32, total_count: u32, elem: u16) -> (r: (Vec<BlockRead>, u32))
    requires
        elem == 1 || elem == 2 || elem == 4,
        packet_size >= 5,
        max_block_items(packet_size, elem) > 0,
        block_reads_end(addr as nat, total_count as nat, max_block_items(packet_size, elem), elem as nat) <= u32::MAX,
    ensures
        r.0@ == block_reads(addr as nat, total_count as nat, max_block_items(packet_size, elem), elem as nat),
        r.1 == block_reads_end(addr as nat, total_count as nat, max_block_items(packet_size, elem), elem as nat),
{
    let max_count_per_transfer = crate::cmsis_dap::util::round_down(packet_size - 5, 4) / elem;
    let ghost max = max_block_items(packet_size, elem);
    assert(max_count_per_transfer == max);
    proof {
        let a = (packet_size - 5) - (packet_size - 5) % 4;
        assert(a >= 0);
        vstd::arithmetic::div_mod::lemma_fundamental_div_mod(a, elem as int);
        vstd::arithmetic::div_mod::lemma_mod_pos_bound(a, elem as int);
        assert((a / (elem as int)) * elem <= a) by (nonlinear_arith)
            requires
                a == (elem as int) * (a / (elem as int)) + a % (elem as int),
                a % (elem as int) >= 0,
        ;
    }
    let ghost target = block_reads(addr as nat, total_count as nat, max, elem as nat);
    let ghost end = block_reads_end(addr as nat, total_count as nat, max, elem as nat);
    let mut r: Vec<BlockRead> = Vec::new();
    let mut total_count = total_count;
    let mut addr = addr;
    while total_count != 0
        invariant
            max == max_count_per_transfer,
            max > 0,
            elem == 1 || elem == 2 || elem == 4,
            max * elem <= packet_size - 5,
            r@ + block_reads(addr as nat, total_count as nat, max, elem as nat) == target,
            block_reads_end(addr as nat, total_count as nat, max, elem as nat) == end,
            end <= u32::MAX,
        decreases total_count,
    {
        let count: u16 = if total_count < max_count_per_transfer as u32 { total_count as u16 } else { max_count_per_transfer };
        proof {
            assert(count * elem <= max * elem) by (nonlinear_arith)
                requires
                    count <= max,
            ;
            lemma_block_end_ge(addr as nat, total_count as nat, max, elem as nat);
        }
        let payload_bytes = crate::cmsis_dap::util::round_up(count * elem, 4);
        let b = BlockRead { addr, count, words: payload_bytes / 4 };
        proof {
            assert(r@.push(b) + block_reads((addr + payload_bytes) as nat, (total_count - count) as nat, max, elem as nat)
                =~= r@ + block_reads(addr as nat, total_count as nat, max, elem as nat));
        }
        r.push(b);
        total_count = total_count - count as u32;
        addr = addr + payload_bytes as u32;
    }
    (r, addr)
}

/// The end of a run of block reads is not below any address it passes.
proof fn lemma_block_end_ge(addr: nat, total: nat, max: nat, elem: nat)
    requires
        max > 0,
    ensures
        addr <= block_reads_end(addr, total, max, elem),
        total > 0 ==> ({
            let c: nat = if total < max { total } else { max };
            addr + round_up4((c * elem) as int) <= block_reads_end(addr, total, max, elem)
        }),
    decreases total,
{
    if total > 0 {
        let c: nat = if total < max { total } else { max };
        assert(c * elem >= 0) by (nonlinear_arith);
        let next = (addr + round_up4((c * elem) as int)) as nat;
        lemma_block_end_ge(next, (total - c) as nat, max, elem);
    }
}

/// The value that the transfer address register holds after a block access that ended at `addr`:
/// at a boundary of the auto-increment it wraps around to the start of the block.
pub open spec fn tar_after_spec(addr: u32) -> u32 {
    if addr % 0x400 == 0 { (addr - 0x400) as u32 } else { addr }
}

/// The value that the transfer address register holds after a block access that ended at `addr`.
pub fn tar_after(addr: u32) -> (r: u32)
    requires
        addr % 0x400 == 0 ==> addr >= 0x400,
    ensures
        r == tar_after_spec(addr),
{
    if addr % CSW_ADDRINC_BOUNDARY == 0 {
        addr - CSW_ADDRINC_BOUNDARY
    } else {
        addr
    }
}

impl Dap {
    /// Leaves the banked data mode and queues the CSW setup for a block access of items of
    /// `T::bytes()` bytes (`T::csw_size()`), with packed address increment.
    pub fn block_access_start(&mut self, csw_size: u32)
        requires
            old(self).wf(),
            requests_fit(old(self)@, seq![(Register::AHB_AP_CSW, Request::Write(CSW_MUST_PRESERVE | CSW_ADDRINC_PACKED | csw_size))]),
        ensures
            final(self).wf(),
            final(self)@ == (DapView {
                report: transfer_report(old(self)@.queue + queue_after(old(self)@.ap_bank, seq![(Register::AHB_AP_CSW, Request::Write(CSW_MUST_PRESERVE | CSW_ADDRINC_PACKED | csw_size))])),
                queue: old(self)@.queue + queue_after(old(self)@.ap_bank, seq![(Register::AHB_AP_CSW, Request::Write(CSW_MUST_PRESERVE | CSW_ADDRINC_PACKED | csw_size))]),
                ap_bank: bank_after_all(old(self)@.ap_bank, seq![(Register::AHB_AP_CSW, Request::Write(CSW_MUST_PRESERVE | CSW_ADDRINC_PACKED | csw_size))]),
                banked_data_mode: false,
                ..old(self)@
            }),
    {
        let ghost v = self@;
        self.set_banked_data_mode(false);
        let list = [(Register::AHB_AP_CSW, Request::Write(CSW_MUST_PRESERVE | CSW_ADDRINC_PACKED | csw_size))];
        assert(list@ =~= seq![(Register::AHB_AP_CSW, Request::Write(CSW_MUST_PRESERVE | CSW_ADDRINC_PACKED | csw_size))]);
        self.push_dap_transfer_requests(&list);
    }

    /// Points the transfer address register at `addr`, unless it is known to point there
    /// already, and takes the `DAP_Transfer` command out, to be written to the debug unit; gives
    /// `None`, and changes nothing, when the register points there and no request is queued, so
    /// that there is nothing to send.
    pub fn block_segment_start(&mut self, addr: u32) -> (r: Option<crate::cmsis_dap::dap::Transfer>)
        requires
            old(self).wf(),
            old(self)@.tar != Some(addr) ==> requests_fit(old(self)@, seq![(Register::AHB_AP_TAR, Request::Write(addr))]),
        ensures
            final(self).wf(),
            r is None <==> (old(self)@.tar == Some(addr) && old(self)@.queue.len() == 0),
            r is None ==> final(self)@ == old(self)@,
            r matches Some(t) ==> ({
                &&& t.report@ == seq![crate::cmsis_dap::REPORT_ID] + transfer_report(
                    old(self)@.queue + (if old(self)@.tar == Some(addr) { Seq::empty() } else {
                        queue_after(old(self)@.ap_bank, seq![(Register::AHB_AP_TAR, Request::Write(addr))])
                    }),
                )
                &&& final(self)@.report.len() == 0
                &&& final(self)@.queue.len() == 0
                &&& final(self)@.tar == Some(addr)
                &&& final(self)@.capacity == old(self)@.capacity
                &&& final(self)@.packet_size == old(self)@.packet_size
                &&& final(self)@.banked_data_mode == old(self)@.banked_data_mode
                &&& final(self)@.debugen == old(self)@.debugen
            }),
    {
        let ghost v = self@;
        let update = match self.tar() {
            Some(tar) => tar != addr,
            None => true,
        };
        if !update && self.queued() == 0 {
            return None;
        }
        if update {
            let list = [(Register::AHB_AP_TAR, Request::Write(addr))];
            assert(list@ =~= seq![(Register::AHB_AP_TAR, Request::Write(addr))]);
            self.push_dap_transfer_requests(&list);
            self.set_tar(Some(addr));
        } else {
            assert(v.queue + Seq::<(Register, Request)>::empty() =~= v.queue);
        }
        Some(self.execute_dap_transfer())
    }
}


/// Packet size that `read_hw_and_circbuf` plans for, not counting the report ID.
pub const HW_CIRCBUF_PACKET_SIZE: u16 = 63;

/// The transfer requests of the first command of `read_hw_and_circbuf`: select AP bank 0 if
/// needed, read the half-word at `hwp` with word accesses, then point the transfer address at
/// `start` for packed byte accesses.
pub open spec fn hw_requests(bank_change: bool, hwp: u32, start: u32) -> Seq<(Register, Request)> {
    (if bank_change {
        seq![(Register::DP_SELECT, Request::Write(select_value(ApBank::AHB_AP(0))))]
    } else {
        Seq::empty()
    }) + seq![
        (Register::AHB_AP_CSW, Request::Write(CSW_MUST_PRESERVE | 0b10)),
        (Register::AHB_AP_TAR, Request::Write(hwp)),
        (Register::AHB_AP_DRW, Request::Read),
        (Register::AHB_AP_CSW, Request::Write(CSW_MUST_PRESERVE | CSW_ADDRINC_PACKED | 0b00)),
        (Register::AHB_AP_TAR, Request::Write(start)),
    ]
}

/// Bytes read in the first block: from `cursor` to the end of the buffer, at most 48.
pub open spec fn first_len_spec(cursor: u16, len: u16) -> int {
    if cursor + 48 >= len { len - cursor } else { 48 }
}

/// Words read in the first block.
pub open spec fn first_count_spec(cursor: u16, len: u16) -> int {
    round_up4(first_len_spec(cursor, len)) / 4
}

/// Length of the answer to the first two commands.
pub open spec fn first_resp_len(cursor: u16, len: u16) -> int {
    2 + 3 + 4 + 4 + 4 * first_count_spec(cursor, len)
}

/// Whether the packet has room for a second read, from the start of the buffer.
pub open spec fn has_second_spec(cursor: u16, len: u16) -> bool {
    first_resp_len(cursor, len) + 3 + 4 + 4 <= HW_CIRCBUF_PACKET_SIZE
}

/// Bytes read in the second block: what fits in the rest of the packet, in whole words.
pub open spec fn second_len_spec(cursor: u16, len: u16) -> int {
    let x = HW_CIRCBUF_PACKET_SIZE - (first_resp_len(cursor, len) + 3 + 4);
    x - x % 4
}

/// The `DAP_ExecuteCommands` command that `read_hw_and_circbuf` sends.
pub open spec fn hw_circbuf_command(bank_change: bool, hwp: u32, bufp: u32, cursor: u16, len: u16) -> Seq<u8> {
    let second = has_second_spec(cursor, len);
    seq![DAP_EXECUTE_COMMANDS, if second { 4u8 } else { 2u8 }]
        + transfer_report(hw_requests(bank_change, hwp, (bufp + cursor) as u32))
        + block_read_command(Register::AHB_AP_DRW, first_count_spec(cursor, len) as u16)
        + (if second {
            transfer_report(seq![(Register::AHB_AP_TAR, Request::Write(bufp))])
                + block_read_command(Register::AHB_AP_DRW, (second_len_spec(cursor, len) / 4) as u16)
        } else {
            Seq::empty()
        })
}

/// Length of the answer to the command of `read_hw_and_circbuf`.
pub open spec fn hw_circbuf_resp_len(cursor: u16, len: u16) -> int {
    first_resp_len(cursor, len) + (if has_second_spec(cursor, len) {
        3 + 4 + second_len_spec(cursor, len)
    } else {
        0
    })
}

/// The bytes of the 4-byte chunks of `s`, each rotated left by `k`; a tail of fewer than four
/// bytes is left out.
pub open spec fn rotated_chunks(s: Seq<u8>, k: int) -> Seq<u8>
    decreases s.len(),
{
    if s.len() < 4 {
        Seq::empty()
    } else {
        rotate_left(s.take(4), k) + rotated_chunks(s.skip(4), k)
    }
}

/// Appends the bytes of the 4-byte chunks of `src`, each rotated left by `k`.
fn push_rotated_chunks(out: &mut Vec<u8>, src: &[u8], k: usize)
    requires
        k < 4,
    ensures
        final(out)@ == old(out)@ + rotated_chunks(src@, k as int),
{
    let ghost target = old(out)@ + rotated_chunks(src@, k as int);
    let n = src.len();
    let mut j: usize = 0;
    assert(src@.skip(0) =~= src@);
    while n - j >= 4
        invariant
            n == src@.len(),
            j <= n,
            k < 4,
            out@ + rotated_chunks(src@.skip(j as int), k as int) == target,
        decreases n - j,
    {
        let ghost rest = src@.skip(j as int);
        let ghost start = out@;
        let mut i: usize = 0;
        while i < 4
            invariant
                i <= 4,
                k < 4,
                j + 4 <= n,
                n == src@.len(),
                rest == src@.skip(j as int),
                out@ == start + rotate_left(rest.take(4), k as int).take(i as int),
            decreases 4 - i,
        {
            proof {
                lemma_rotate_index(rest.take(4), k as int, i as int);
                assert(rotate_left(rest.take(4), k as int).take(i + 1) =~= rotate_left(rest.take(4), k as int).take(i as int).push(src@[j + (k + i) % 4]));
            }
            out.push(src[j + (k + i) % 4]);
            i = i + 1;
        }
        proof {
            assert(rotate_left(rest.take(4), k as int).take(4) =~= rotate_left(rest.take(4), k as int));
            assert(rest.skip(4) =~= src@.skip(j + 4));
            assert(out@ + rotated_chunks(src@.skip(j + 4), k as int) =~= start + rotated_chunks(rest, k as int));
        }
        j = j + 4;
    }
    assert(out@ =~= target);
}

/// The combined command of `read_hw_and_circbuf`, on its way: the report to write to the debug
/// unit and what its answer must show.
pub struct HwCircbuf {
    /// The report to write, report ID first.
    pub report: Vec<u8>,
    /// Length of the answer to read back.
    pub resp_len: u16,
    /// Number of commands.
    pub ncmds: u8,
    /// Number of requests in the first command.
    pub requests: u8,
    /// Device-side address of the half-word.
    pub hwp: u32,
    /// Device-side address of the circular buffer.
    pub bufp: u32,
    /// Device-side address of the first byte read from the buffer.
    pub start: u32,
    /// Bytes read from `start`.
    pub first_len: u16,
    /// Bytes read from the start of the buffer, if any.
    pub second_len: Option<u16>,
}

impl HwCircbuf {
    /// The plan is consistent: the answer's length is that of its parts.
    pub open spec fn plan_ok(&self) -> bool {
        &&& self.first_len <= 48
        &&& self.ncmds == (if self.second_len is Some { 4u8 } else { 2u8 })
        &&& self.resp_len == 13 + round_up4(self.first_len as int) + (match self.second_len {
            Some(l) => 7 + l,
            None => 0,
        })
        &&& self.second_len matches Some(l) ==> l % 4 == 0
    }

    /// Index in the answer where the answer to the second read starts.
    pub open spec fn second_start(&self) -> int {
        13 + round_up4(self.first_len as int)
    }

    /// The answers to the first two commands are as expected.
    pub open spec fn first_ok(&self, resp: Seq<u8>) -> bool {
        &&& resp[0] == DAP_EXECUTE_COMMANDS
        &&& resp[1] == self.ncmds
        &&& resp[2] == DAP_TRANSFER
        &&& resp[3] == self.requests
        &&& resp[4] == TRANSFER_ACK_OK
        &&& resp[9] == DAP_TRANSFER_BLOCK
        &&& resp.subrange(10, 12) == le16((round_up4(self.first_len as int) / 4) as u16)
        &&& resp[12] == TRANSFER_ACK_OK
    }

    /// The answers to the last two commands are as expected.
    pub open spec fn second_ok(&self, resp: Seq<u8>, l: u16) -> bool {
        let s = self.second_start();
        &&& resp[s] == DAP_TRANSFER
        &&& resp[s + 1] == 1
        &&& resp[s + 2] == TRANSFER_ACK_OK
        &&& resp[s + 3] == DAP_TRANSFER_BLOCK
        &&& resp.subrange(s + 4, s + 6) == le16(l / 4)
        &&& resp[s + 6] == TRANSFER_ACK_OK
    }

    /// The half-word read: the low or high half of the word read, depending on `hwp`.
    pub open spec fn half_word(&self, resp: Seq<u8>) -> u16 {
        if self.hwp % 4 == 0 { u16_of(resp[5], resp[6]) } else { u16_of(resp[7], resp[8]) }
    }

    /// The bytes read from the buffer, in buffer order.
    pub open spec fn buffer_bytes(&self, resp: Seq<u8>) -> Seq<u8> {
        let s = self.second_start();
        rotated_chunks(resp.subrange(13, s), (self.start % 4) as int).take(self.first_len as int) + (
        match self.second_len {
            Some(l) => rotated_chunks(resp.skip(s + 7), (self.bufp % 4) as int),
            None => Seq::empty(),
        })
    }

    /// Checks the answer and gives the half-word and the bytes read from the buffer.
    pub fn response(&self, resp: &[u8]) -> (r: Result<(u16, Vec<u8>), DapError>)
        requires
            self.plan_ok(),
            resp@.len() == self.resp_len,
        ensures
            (self.first_ok(resp@) && (self.second_len matches Some(l) ==> self.second_ok(resp@, l)))
                ==> (r matches Ok((hw, bytes)) && hw == self.half_word(resp@) && bytes@ == self.buffer_bytes(resp@)),
            !(self.first_ok(resp@) && (self.second_len matches Some(l) ==> self.second_ok(resp@, l)))
                ==> r == Err::<(u16, Vec<u8>), DapError>(DapError::Failed(DAP_EXECUTE_COMMANDS)),
    {
        let rfl = crate::cmsis_dap::util::round_up(self.first_len, 4);
        let count = rfl / 4;
        let head_ok = resp[0] == DAP_EXECUTE_COMMANDS && resp[1] == self.ncmds && resp[2] == DAP_TRANSFER
            && resp[3] == self.requests && resp[4] == TRANSFER_ACK_OK && resp[9] == DAP_TRANSFER_BLOCK
            && resp[10] == (count & 0xff) as u8 && resp[11] == ((count >> 8) & 0xff) as u8
            && resp[12] == TRANSFER_ACK_OK;
        proof {
            if resp@[10] == (count & 0xff) as u8 && resp@[11] == ((count >> 8) & 0xff) as u8 {
                assert(resp@.subrange(10, 12) =~= le16(count));
            }
            if resp@.subrange(10, 12) == le16(count) {
                assert(resp@[10] == resp@.subrange(10, 12)[0]);
                assert(resp@[11] == resp@.subrange(10, 12)[1]);
            }
            assert(head_ok == self.first_ok(resp@));
        }
        if !head_ok {
            return Err(DapError::Failed(DAP_EXECUTE_COMMANDS));
        }
        let hw = if self.hwp % 4 == 0 {
            u16_from_le(resp[5], resp[6])
        } else {
            u16_from_le(resp[7], resp[8])
        };
        let mut bytes: Vec<u8> = Vec::new();
        let s = 13 + rfl as usize;
        let (front, tail) = resp.split_at(s);
        let (_, first) = front.split_at(13);
        proof {
            assert(first@ =~= resp@.subrange(13, self.second_start()));
            crate::cmsis_dap::util::lemma_round_up(self.first_len, 4);
            lemma_rotated_chunks_len(first@, (self.start % 4) as int);
            assert(first@.len() == rfl - 0);
            assert(4 * (first@.len() / 4) == first@.len());
        }
        push_rotated_chunks(&mut bytes, first, (self.start % 4) as usize);
        bytes.truncate(self.first_len as usize);
        assert(bytes@ =~= rotated_chunks(resp@.subrange(13, self.second_start()), (self.start % 4) as int).take(self.first_len as int));
        if let Some(l) = self.second_len {
            let w = l / 4;
            let ok = tail[0] == DAP_TRANSFER && tail[1] == 1 && tail[2] == TRANSFER_ACK_OK && tail[3] == DAP_TRANSFER_BLOCK
                && tail[4] == (w & 0xff) as u8 && tail[5] == ((w >> 8) & 0xff) as u8 && tail[6] == TRANSFER_ACK_OK;
            proof {
                let ss = self.second_start();
                assert(tail@ == resp@.skip(ss));
                if resp@[ss + 4] == (w & 0xff) as u8 && resp@[ss + 5] == ((w >> 8) & 0xff) as u8 {
                    assert(resp@.subrange(ss + 4, ss + 6) =~= le16(w));
                }
                if resp@.subrange(ss + 4, ss + 6) == le16(w) {
                    assert(resp@[ss + 4] == resp@.subrange(ss + 4, ss + 6)[0]);
                    assert(resp@[ss + 5] == resp@.subrange(ss + 4, ss + 6)[1]);
                }
                assert(ok == self.second_ok(resp@, l));
            }
            if !ok {
                return Err(DapError::Failed(DAP_EXECUTE_COMMANDS));
            }
            let (_, rest) = tail.split_at(7);
            push_rotated_chunks(&mut bytes, rest, (self.bufp % 4) as usize);
            proof {
                assert(rest@ =~= resp@.skip(self.second_start() + 7));
            }
        } else {
            assert(bytes@ =~= self.buffer_bytes(resp@));
        }
        Ok((hw, bytes))
    }
}

proof fn lemma_rotated_chunks_len(s: Seq<u8>, k: int)
    requires
        0 <= k <= 4,
    ensures
        rotated_chunks(s, k).len() == 4 * (s.len() / 4),
    decreases s.len(),
{
    if s.len() >= 4 {
        lemma_rotated_chunks_len(s.skip(4), k);
    }
}

/// Whether the debug unit supports atomic commands, from its capabilities byte.
pub fn supports_atomic_commands(capabilities: u8) -> (r: bool)
    ensures
        r == (capabilities & CAPABILITIES_ATOMIC_COMMANDS != 0),
{
    capabilities & CAPABILITIES_ATOMIC_COMMANDS != 0
}

impl Dap {
    /// Builds the single `DAP_ExecuteCommands` transaction that reads the half-word at `hwp` and
    /// bytes of the circular buffer of `len` bytes at `bufp`, from index `cursor` on: up to the
    /// end of the buffer in a first block read and, where the packet has room, from the start of
    /// the buffer in a second one. Takes the report out, to be written to the debug unit;
    /// `HwCircbuf::response` checks the answer. A debug unit whose `capabilities` lack atomic
    /// commands cannot run the transaction: that is refused with `NoAtomicCommands`, and
    /// nothing changes.
    pub fn read_hw_and_circbuf(&mut self, capabilities: u8, hwp: u32, bufp: u32, cursor: u16, len: u16) -> (r: Result<HwCircbuf, DapError>)
        requires
            old(self).wf(),
            hwp % 2 == 0,
            old(self)@.report.len() == 0,
            cursor + 48 <= u16::MAX,
            cursor + 48 >= len ==> cursor <= len,
            bufp + cursor <= u32::MAX,
            1 + hw_circbuf_command(
                old(self)@.ap_bank != Some(ApBank::AHB_AP(0)),
                hwp,
                bufp,
                cursor,
                len,
            ).len() <= old(self)@.capacity,
        ensures
            final(self).wf(),
            r is Err <==> capabilities & CAPABILITIES_ATOMIC_COMMANDS == 0,
            r is Err ==> r == Err::<HwCircbuf, DapError>(DapError::NoAtomicCommands) && *final(self) == *old(self),
            r matches Ok(h) ==> ({
                &&& h.plan_ok()
                &&& h.report@ == seq![crate::cmsis_dap::REPORT_ID] + hw_circbuf_command(
                    old(self)@.ap_bank != Some(ApBank::AHB_AP(0)),
                    hwp,
                    bufp,
                    cursor,
                    len,
                )
                &&& h.resp_len == hw_circbuf_resp_len(cursor, len)
                &&& h.hwp == hwp
                &&& h.bufp == bufp
                &&& h.start == bufp + cursor
                &&& h.first_len == first_len_spec(cursor, len)
                &&& h.second_len == (if has_second_spec(cursor, len) { Some(second_len_spec(cursor, len) as u16) } else { None })
                &&& h.requests == hw_requests(old(self)@.ap_bank != Some(ApBank::AHB_AP(0)), hwp, (bufp + cursor) as u32).len()
                &&& final(self)@ == (DapView {
                    report: Seq::<u8>::empty(),
                    ap_bank: Some(ApBank::AHB_AP(0)),
                    banked_data_mode: false,
                    tar: None,
                    ..old(self)@
                })
            }),
    {
        if !supports_atomic_commands(capabilities) {
            return Err(DapError::NoAtomicCommands);
        }
        let ghost v = self@;
        self.set_banked_data_mode(false);
        self.set_tar(None);
        let bank = ApBank::AHB_AP(0);
        let needs_bank_change = match self.ap_bank() {
            Some(b) => b != bank,
            None => true,
        };
        self.set_ap_bank(Some(bank));
        let start = bufp + cursor as u32;
        let mut list: Vec<(Register, Request)> = Vec::new();
        if needs_bank_change {
            list.push((Register::DP_SELECT, Request::Write(crate::cmsis_dap::adiv5::select(bank))));
        }
        list.push((Register::AHB_AP_CSW, Request::Write(CSW_MUST_PRESERVE | <u32 as Data>::csw_size())));
        list.push((Register::AHB_AP_TAR, Request::Write(hwp)));
        list.push((Register::AHB_AP_DRW, Request::Read));
        list.push((Register::AHB_AP_CSW, Request::Write(CSW_MUST_PRESERVE | CSW_ADDRINC_PACKED | <u8 as Data>::csw_size())));
        list.push((Register::AHB_AP_TAR, Request::Write(start)));
        assert(list@ =~= hw_requests(needs_bank_change, hwp, start));
        let requests = list.len() as u8;
        let mut resp_len: u16 = 2 + 3 + 4;
        let mut first_len: u16 = 48;
        if cursor + first_len >= len {
            // split transfer
            first_len = len - cursor;
        }
        let count = crate::cmsis_dap::util::round_up(first_len, 4) / 4;
        resp_len = resp_len + 4 + 4 * count;
        let second = resp_len + 3 + 4 + 4 <= HW_CIRCBUF_PACKET_SIZE;
        let ncmds: u8 = if second { 4 } else { 2 };
        let mut cmd: Vec<u8> = Vec::new();
        cmd.push(DAP_EXECUTE_COMMANDS);
        cmd.push(ncmds);
        let mut t = transfer_command(list.as_slice());
        cmd.append(&mut t);
        let mut b = block_read(Register::AHB_AP_DRW, count);
        cmd.append(&mut b);
        let second_len = if second {
            let l = crate::cmsis_dap::util::round_down(HW_CIRCBUF_PACKET_SIZE - (resp_len + 3 + 4), 4);
            let tar_list = [(Register::AHB_AP_TAR, Request::Write(bufp))];
            let mut t2 = transfer_command(&tar_list);
            assert(tar_list@ =~= seq![(Register::AHB_AP_TAR, Request::Write(bufp))]);
            cmd.append(&mut t2);
            let mut b2 = block_read(Register::AHB_AP_DRW, l / 4);
            cmd.append(&mut b2);
            resp_len = resp_len + 3 + 4 + 4 * (l / 4);
            Some(l)
        } else {
            None
        };
        assert(cmd@ =~= hw_circbuf_command(needs_bank_change, hwp, bufp, cursor, len));
        self.push_command(cmd.as_slice());
        let report = self.hid_flush();
        Ok(HwCircbuf {
            report,
            resp_len,
            ncmds,
            requests,
            hwp,
            bufp,
            start,
            first_len,
            second_len,
        })
    }
}

/// The `DAP_TransferBlock` command that reads `count` words from `reg`, as bytes.
fn block_read(reg: Register, count: u16) -> (r: Vec<u8>)
    ensures
        r@ == block_read_command(reg, count),
{
    let r = vec![
        DAP_TRANSFER_BLOCK,
        TRANSFER_DAP_INDEX,
        (count & 0xff) as u8,
        ((count >> 8) & 0xff) as u8,
        reg.request() | TRANSFER_RNW_READ,
    ];
    assert(r@ =~= block_read_command(reg, count));
    r
}
} // verus!
