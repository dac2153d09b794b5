//! Semihosting debugger: what it decides about the ELF image it loads, the log buffers it
//! drains, the system calls the target makes, the exceptions it reports, the stack it unwinds and
//! the commands it takes at its prompt.
use vstd::prelude::*;
use vstd::string::StringSliceAdditionalSpecFns;

pub mod image;
pub mod macros;
pub mod unwind;

use crate::binfmt_parser::Message;
use crate::cm::scb::cpuid;
use crate::text::{chars_of, parse_radix_chars, parse_unsigned_radix, string_of};

verus! {

/// Part number
#[derive(Clone, Copy, PartialEq, Eq, Debug, Structural)]
pub enum Part {
    /// ARM Cortex-M0
    CortexM0,
    /// ARM Cortex-M0+
    CortexM0Plus,
    /// ARM Cortex-M3
    CortexM3,
    /// ARM Cortex-M4
    CortexM4,
    /// ARM Cortex-M7
    CortexM7,
    /// ARM Cortex-M23
    CortexM23,
    /// ARM Cortex-M33
    CortexM33,
    /// Unknown part
    Unknown,
}

/// JEDEC code of ARM as CPUID implementer
pub const ARM: u8 = 0x41;
/// CPUID architecture: ARMv6-M
pub const ARMV6M: u8 = 0xc;
/// CPUID architecture: ARMv7-M
pub const ARMV7M: u8 = 0xf;

/// The part that a CPUID value names: the implementer must be ARM; the architecture and part
/// number then tell the core.
pub open spec fn part_of(bits: u32) -> Part {
    let implementer = ((bits >> 24u8) as u8) & 0xffu8;
    let arch = ((bits >> 16u8) as u8) & 0x0fu8;
    let partno = ((bits >> 4u8) as u16) & 0x0fffu16;
    if implementer != ARM {
        Part::Unknown
    } else if arch == ARMV6M {
        if partno == 0xc20 {
            Part::CortexM0
        } else if partno == 0xc60 {
            Part::CortexM0Plus
        } else if partno == 0xd20 {
            Part::CortexM23
        } else {
            Part::Unknown
        }
    } else if arch == ARMV7M {
        if partno == 0xc23 {
            Part::CortexM3
        } else if partno == 0xc24 {
            Part::CortexM4
        } else if partno == 0xc27 {
            Part::CortexM7
        } else if partno == 0xd21 {
            Part::CortexM33
        } else {
            Part::Unknown
        }
    } else {
        Part::Unknown
    }
}

impl From<u32> for Part {
    fn from(bits: u32) -> (r: Part)
        ensures
            r == part_of(bits),
    {
        let r = cpuid::R::from(bits);
        if r.IMPLEMENTER() != ARM {
            return Part::Unknown;
        }
        let arch = r.ARCHITECTURE();
        let partno = r.PARTNO();
        if arch == ARMV6M {
            if partno == 0xc20 {
                Part::CortexM0
            } else if partno == 0xc60 {
                Part::CortexM0Plus
            } else if partno == 0xd20 {
                Part::CortexM23
            } else {
                Part::Unknown
            }
        } else if arch == ARMV7M {
            if partno == 0xc23 {
                Part::CortexM3
            } else if partno == 0xc24 {
                Part::CortexM4
            } else if partno == 0xc27 {
                Part::CortexM7
            } else if partno == 0xd21 {
                Part::CortexM33
            } else {
                Part::Unknown
            }
        } else {
            Part::Unknown
        }
    }
}

impl vstd::std_specs::convert::FromSpecImpl<u32> for Part {
    open spec fn obeys_from_spec() -> bool {
        true
    }

    open spec fn from_spec(bits: u32) -> Part {
        part_of(bits)
    }
}

impl Part {
    /// The name of the part, as shown to the user.
    pub fn name(&self) -> (r: &'static str)
        ensures
            r@ == match *self {
                Part::CortexM0 => "ARM Cortex-M0"@,
                Part::CortexM0Plus => "ARM Cortex-M0+"@,
                Part::CortexM3 => "ARM Cortex-M3"@,
                Part::CortexM4 => "ARM Cortex-M4"@,
                Part::CortexM7 => "ARM Cortex-M7"@,
                Part::CortexM23 => "ARM Cortex-M23"@,
                Part::CortexM33 => "ARM Cortex-M33"@,
                Part::Unknown => "unknown part"@,
            },
    {
        match *self {
            Part::CortexM0 => "ARM Cortex-M0",
            Part::CortexM0Plus => "ARM Cortex-M0+",
            Part::CortexM3 => "ARM Cortex-M3",
            Part::CortexM4 => "ARM Cortex-M4",
            Part::CortexM7 => "ARM Cortex-M7",
            Part::CortexM23 => "ARM Cortex-M23",
            Part::CortexM33 => "ARM Cortex-M33",
            Part::Unknown => "unknown part",
        }
    }
}

/// A vendor or product ID that is not four hexadecimal digits.
#[derive(Clone, Copy, PartialEq, Eq, Debug, Structural)]
pub struct ParseHexError;

/// Parses a vendor or product ID written in hexadecimal (`u16::from_str_radix(s, 16)`).
pub fn parse_hex(s: &str) -> (r: Result<u16, ParseHexError>)
    ensures
        match parse_unsigned_radix(s@, 16, 0xffff) {
            Some(v) => r == Ok::<u16, ParseHexError>(v as u16),
            None => r is Err,
        },
{
    let c = chars_of(s);
    assert(c@.subrange(0, c@.len() as int) =~= s@);
    match parse_radix_chars(&c, 0, c.len(), 16, 0xffff) {
        Some(v) => Ok(v as u16),
        None => Err(ParseHexError),
    }
}

/// Why an allocatable section of the ELF image cannot be loaded.
#[derive(Clone, Copy, PartialEq, Eq, Debug, Structural)]
pub enum SectionError {
    /// The section is outside the 32-bit address space.
    OutsideAddressSpace,
    /// The section is not 4-byte aligned; its start and size.
    Misaligned(u64, u64),
}

/// Whether an allocatable section of `size` bytes at `address` can be loaded: its 32-bit address,
/// or why not.
pub open spec fn section_check(address: u64, size: u64) -> Result<u32, SectionError> {
    if address > 0xffff_ffff || address + size > 0xffff_ffff {
        Err(SectionError::OutsideAddressSpace)
    } else if address % 4 != 0 || size % 4 != 0 {
        Err(SectionError::Misaligned(address, size))
    } else {
        Ok(address as u32)
    }
}

/// Checks that an allocatable section of `size` bytes at `address` can be loaded, and gives its
/// 32-bit address.
pub fn check_section(address: u64, size: u64) -> (r: Result<u32, SectionError>)
    requires
        address <= 0xffff_ffff ==> address + size <= u64::MAX,
    ensures
        r == section_check(address, size),
{
    let max = 0xffff_ffffu64;
    if address > max || address + size > max {
        return Err(SectionError::OutsideAddressSpace);
    }
    let align = 4u64;
    if address % align != 0 || size % align != 0 {
        return Err(SectionError::Misaligned(address, size));
    }
    Ok(address as u32)
}

/// Where the vector table is and the initial stack pointer and program counter it holds.
#[derive(Clone, Copy, PartialEq, Eq, Debug, Structural)]
pub struct Vectors {
    /// Address of the vector table
    pub vtor: u32,
    /// Initial stack pointer
    pub sp: u32,
    /// Reset handler
    pub pc: u32,
}

/// The vectors of the `.vectors` section at `address`: the stack pointer in its first word and
/// the reset handler in its second.
pub fn vectors(address: u32, bytes: &[u8]) -> (r: Vectors)
    requires
        bytes@.len() >= 8,
    ensures
        r.vtor == address,
        r.sp == crate::cmsis_dap::hid::u32_of(bytes@[0], bytes@[1], bytes@[2], bytes@[3]),
        r.pc == crate::cmsis_dap::hid::u32_of(bytes@[4], bytes@[5], bytes@[6], bytes@[7]),
{
    let sp = crate::cmsis_dap::hid::u32_from_le(bytes[0], bytes[1], bytes[2], bytes[3]);
    let pc = crate::cmsis_dap::hid::u32_from_le(bytes[4], bytes[5], bytes[6], bytes[7]);
    Vectors { vtor: address, pc, sp }
}

/// What `rustc_demangle::demangle(name).to_string()` gives for `name`.
pub uninterp spec fn demangled(name: Seq<char>) -> Seq<char>;

/// The demangled form of a symbol name (`rustc_demangle::demangle`, shown with `to_string`).
#[verifier::external_body]
fn demangle_name(name: &str) -> (r: String)
    ensures
        r@ == demangled(name@),
{
    rustc_demangle::demangle(name).to_string()
}

/// Length of the hash that symbol names end with, as in `::hd881d91ced85c2b0`.
pub const HASH_LEN: usize = 19;

/// `name` without the `::h` hash at its end, if it has one: the hash is the last `HASH_LEN`
/// bytes of the name's UTF-8 encoding, and it starts with `::h`.
pub open spec fn strip_hash_spec(name: Seq<char>) -> Seq<char> {
    let b = vstd::utf8::encode_utf8(name);
    if b.len() >= HASH_LEN && b.subrange(b.len() - HASH_LEN, b.len() - HASH_LEN + 3) == seq![0x3au8, 0x3au8, 0x68u8] {
        vstd::utf8::decode_utf8(b.take(b.len() - HASH_LEN))
    } else {
        name
    }
}

/// Removes the hash at the end of a demangled symbol name, if any.
pub fn strip_hash(name: &str) -> (r: String)
    ensures
        r@ == strip_hash_spec(name@),
{
    let bytes = name.as_bytes();
    let n = bytes.len();
    let ghost b = name.spec_bytes();
    proof {
        vstd::utf8::encode_utf8_valid_utf8(name@);
    }
    assert(n == b.len());
    if n >= HASH_LEN {
        let pos = n - HASH_LEN;
        if bytes[pos] == 0x3a && bytes[pos + 1] == 0x3a && bytes[pos + 2] == 0x68 {
            proof {
                vstd::utf8::is_char_boundary_iff_not_is_continuation_byte(b, pos as int);
                assert(b.subrange(pos as int, pos + 3) =~= seq![0x3au8, 0x3au8, 0x68u8]);
            }
            let (head, _tail) = name.split_at(pos);
            proof {
                vstd::utf8::encode_utf8_decode_utf8(head@);
                assert(head.spec_bytes() =~= b.take(pos as int));
            }
            return head.to_owned();
        }
        proof {
            if b.subrange(pos as int, pos + 3) == seq![0x3au8, 0x3au8, 0x68u8] {
                assert(b[pos as int] == b.subrange(pos as int, pos + 3)[0]);
                assert(b[pos + 1] == b.subrange(pos as int, pos + 3)[1]);
                assert(b[pos + 2] == b.subrange(pos as int, pos + 3)[2]);
            }
            assert(strip_hash_spec(name@) == name@);
        }
    }
    assert(strip_hash_spec(name@) == name@);
    name.to_owned()
}

/// The name under which a function symbol is shown: demangled, without its hash.
pub fn function_name(symbol: &str) -> (r: String)
    ensures
        r@ == strip_hash_spec(demangled(symbol@)),
{
    let d = demangle_name(symbol);
    strip_hash(d.as_str())
}

/// The range of addresses of a function symbol of `size` bytes at `value`, the Thumb bit
/// cleared.
pub fn function_range(value: u64, size: u64) -> (r: (u64, u64))
    requires
        (value & !1u64) + size <= u64::MAX,
    ensures
        r == ((value & !1u64), ((value & !1u64) + size) as u64),
{
    let start = value & !1u64;
    (start, start + size)
}

/// Number of write cursors that the `SEMIDAP_CURSOR` symbol of `size` bytes holds: two bytes each.
pub fn cursor_count(size: u64) -> (r: u64)
    ensures
        r == size / 2,
{
    size / 2
}

/// What the `SEMIDAP_BUFFER` symbol describes.
#[derive(Clone, Copy, PartialEq, Eq, Debug, Structural)]
pub enum BufferSymbol {
    /// The buffer, at this address with this length.
    Buffer(u32, u32),
    /// The buffer lies outside the 32-bit address space; it is ignored.
    OutOfRange,
    /// The buffer's length is not a power of two.
    Malformed,
}

/// Whether `n` is a power of two.
pub open spec fn is_power_of_two(n: u64) -> bool {
    exists|k: nat| k < 64 && n == vstd::arithmetic::power2::pow2(k)
}

fn power_of_two(n: u64) -> (r: bool)
    ensures
        r == is_power_of_two(n),
{
    let mut k: u32 = 0;
    let mut p: u64 = 1;
    proof {
        vstd::arithmetic::power2::lemma2_to64();
    }
    while k < 64
        invariant
            k <= 64,
            k < 64 ==> p == vstd::arithmetic::power2::pow2(k as nat),
            forall|j: nat| j < k ==> n != #[trigger] vstd::arithmetic::power2::pow2(j),
        decreases 64 - k,
    {
        if p == n {
            return true;
        }
        proof {
            vstd::arithmetic::power2::lemma_pow2_unfold((k + 1) as nat);
            vstd::arithmetic::power2::lemma2_to64();
            vstd::arithmetic::power2::lemma2_to64_rest();
        }
        if k < 63 {
            p = p * 2;
        }
        k = k + 1;
    }
    false
}

/// What the `SEMIDAP_BUFFER` symbol of `size` bytes at `value` describes.
pub open spec fn buffer_symbol_spec(value: u64, size: u64) -> BufferSymbol {
    if !is_power_of_two(size) {
        BufferSymbol::Malformed
    } else if value <= 0xffff_ffff && size <= 0xffff_ffff {
        BufferSymbol::Buffer(value as u32, size as u32)
    } else {
        BufferSymbol::OutOfRange
    }
}

/// What the `SEMIDAP_BUFFER` symbol of `size` bytes at `value` describes.
pub fn buffer_symbol(value: u64, size: u64) -> (r: BufferSymbol)
    ensures
        r == buffer_symbol_spec(value, size),
{
    if power_of_two(size) {
        if value <= 0xffff_ffff && size <= 0xffff_ffff {
            BufferSymbol::Buffer(value as u32, size as u32)
        } else {
            BufferSymbol::OutOfRange
        }
    } else {
        BufferSymbol::Malformed
    }
}


/// The log buffer of each channel: the buffer of `cap` bytes at `bufferp` split evenly among `n`
/// channels; gives the address and capacity of channel `i`.
pub fn channel_buffer(bufferp: u32, cap: u32, n: u32, i: u32) -> (r: (u32, u32))
    requires
        0 < n,
        i < n,
        bufferp + (cap / n) * i <= u32::MAX,
    ensures
        r == ((bufferp + (cap / n) * i) as u32, cap / n),
{
    let c = cap / n;
    proof {
        assert((cap / n) * i <= cap) by (nonlinear_arith)
            requires
                0 < n,
                i < n,
        ;
    }
    (bufferp + c * i, c)
}

/// The reads that drain a channel.
#[derive(Clone, Copy, PartialEq, Eq, Debug, Structural)]
pub enum DrainRead {
    /// One read: address and length.
    Single(u32, u32),
    /// The readable part wraps around the end of the buffer: two reads, each an address and a
    /// length.
    Split(u32, u32, u32, u32),
}

/// How a channel is drained: the reads, the new read cursor and the bytes taken.
#[derive(Clone, Copy, PartialEq, Eq, Debug, Structural)]
pub struct DrainStep {
    /// The reads of the device memory
    pub read: DrainRead,
    /// The new value of the read cursor
    pub next_read: u16,
    /// Bytes taken
    pub available: u32,
}

/// The device wrote more than the buffer holds since the last drain.
#[derive(Clone, Copy, PartialEq, Eq, Debug, Structural)]
pub struct Overrun;

/// The bytes available in a channel: how far the write cursor is ahead of the read cursor, as
/// 32-bit numbers, wrapping.
pub open spec fn available_spec(write: u16, read: u16) -> u32 {
    if write >= read { (write - read) as u32 } else { (write as int - read as int + 0x1_0000_0000) as u32 }
}

/// How a channel whose write cursor is at `write` and whose read cursor is at `read` is drained
/// from its buffer of `cap` bytes at `bufferp`. The bytes available are `write - read`, wrapping;
/// more than `cap` means that the buffer was overrun. When they wrap around the end of the
/// buffer, they are read in two parts: `cursor + available - cap` bytes from the cursor, then the
/// rest from the start of the buffer.
pub open spec fn drain_step_spec(write: u16, read: u16, cap: u32, bufferp: u32) -> Result<DrainStep, Overrun> {
    let available = available_spec(write, read);
    let cursor = (read as u32) % cap;
    if available > cap {
        Err(Overrun)
    } else {
        Ok(DrainStep {
            available,
            next_read: ((read as int + available) % 0x1_0000) as u16,
            read: if cursor + available > cap {
                DrainRead::Split(
                    (bufferp + cursor) as u32,
                    (cursor + available - cap) as u32,
                    bufferp,
                    (available - (cursor + available - cap)) as u32,
                )
            } else {
                DrainRead::Single((bufferp + cursor) as u32, available)
            },
        })
    }
}

/// How a channel whose write cursor is at `write` and whose read cursor is at `read` is drained
/// from its buffer of `cap` bytes at `bufferp`.
pub fn drain_step(write: u16, read: u16, cap: u32, bufferp: u32) -> (r: Result<DrainStep, Overrun>)
    requires
        cap > 0,
        bufferp + (read as u32) % cap <= u32::MAX,
        available_spec(write, read) <= cap ==> (read as u32) % cap + available_spec(write, read) <= u32::MAX,
    ensures
        r == drain_step_spec(write, read, cap, bufferp),
{
    let w = write as u32;
    let rd = read as u32;
    let available = w.wrapping_sub(rd);
    if available > cap {
        return Err(Overrun);
    }
    let cursor = rd % cap;
    let step_read = if cursor + available > cap {
        let pivot = cursor + available - cap;
        DrainRead::Split(bufferp + cursor, pivot, bufferp, available - pivot)
    } else {
        DrainRead::Single(bufferp + cursor, available)
    };
    let next_read = rd.wrapping_add(available) as u16;
    let sum = rd.wrapping_add(available);
    assert(next_read == sum as u16);
    assert(sum as u16 == ((rd as int + available as int) % 0x1_0000) as u16) by (bit_vector)
        requires
            sum == (if rd + available > u32::MAX { (rd + available - 0x1_0000_0000) as u32 } else { (rd + available) as u32 }),
    ;
    Ok(DrainStep { read: step_read, next_read, available })
}

/// The channels that `drain_step` takes: a buffer that is not empty, where the cursor and the
/// bytes available lie in the 32-bit address space.
pub open spec fn drain_step_fits(write: u16, read: u16, cap: u32, bufferp: u32) -> bool {
    &&& cap > 0
    &&& bufferp + (read as u32) % cap <= u32::MAX
    &&& available_spec(write, read) <= cap ==> (read as u32) % cap + available_spec(write, read) <= u32::MAX
}

/// Whether `drain_step` takes this channel.
pub fn drain_step_accepts(write: u16, read: u16, cap: u32, bufferp: u32) -> (r: bool)
    ensures
        r == drain_step_fits(write, read, cap, bufferp),
{
    if cap == 0 {
        return false;
    }
    let cursor = (read as u32) % cap;
    if cursor > u32::MAX - bufferp {
        return false;
    }
    let available = (write as u32).wrapping_sub(read as u32);
    assert(available == available_spec(write, read));
    !(available <= cap && cursor > u32::MAX - available)
}

/// A drain catches up with the writer: unless the buffer was overrun, the new read cursor is the
/// write cursor, the bytes taken are those between the two cursors, and the reads take them all.
pub proof fn drain_catches_up(write: u16, read: u16, cap: u32, bufferp: u32)
    requires
        cap > 0,
    ensures
        drain_step_spec(write, read, cap, bufferp) matches Ok(step) ==> {
            &&& step.next_read == write
            &&& write >= read ==> step.available == write - read
            &&& match step.read {
                DrainRead::Single(_, n) => n == step.available,
                DrainRead::Split(_, n1, _, n2) => n1 + n2 == step.available,
            }
        },
{
    let available = available_spec(write, read);
    if available <= cap {
        if write >= read {
            assert((read as int + available) % 0x1_0000 == write as int);
        } else {
            assert(read as int + available == write as int + 0x1_0000_0000);
            assert((write as int + 0x1_0000_0000) % 0x1_0000 == write as int);
        }
    }
}

/// When the target halts for a system call. The halt is acted upon only once it has been seen
/// on two polls, so that the log buffers are drained once more after the target stopped writing
/// them.
pub struct HaltWatch {
    seen: bool,
}

impl HaltWatch {
    /// Whether a halt has been seen on an earlier poll.
    pub closed spec fn halt_seen(&self) -> bool {
        self.seen
    }

    /// No halt seen yet.
    pub fn new() -> (r: Self)
        ensures
            !r.halt_seen(),
    {
        HaltWatch { seen: false }
    }

    /// Takes what a poll saw of the target; gives whether to handle its system call now: when
    /// it is halted and a halt was seen on an earlier poll.
    pub fn poll(&mut self, halted: bool) -> (r: bool)
        ensures
            r == (halted && old(self).halt_seen()),
            final(self).halt_seen() == (old(self).halt_seen() || halted),
    {
        if halted {
            if self.seen {
                return true;
            }
            self.seen = true;
        }
        false
    }
}

/// The system call that the target asks for with its `BKPT` instruction.
#[derive(Clone, Copy, PartialEq, Eq, Debug, Structural)]
pub enum Syscall {
    /// `BKPT 0xAB`: exit with the code in R0
    Exit,
    /// `BKPT 0xFF`: report the exception being handled
    Exception,
    /// `BKPT 0xAA`: abort, with a backtrace
    Abort,
    /// Any other instruction
    Unknown(u16),
}

/// `BKPT 0xAA`
pub const SYS_ABORT: u16 = 0xbeaa;
/// `BKPT 0xFF`
pub const SYS_EXCEPTION: u16 = 0xbeff;
/// `BKPT 0xAB`
pub const SYS_EXIT: u16 = 0xbeab;

/// The system call that the halted target asks for, from the instruction at its program counter.
pub fn syscall(insn: u16) -> (r: Syscall)
    ensures
        r == (if insn == SYS_EXIT {
            Syscall::Exit
        } else if insn == SYS_EXCEPTION {
            Syscall::Exception
        } else if insn == SYS_ABORT {
            Syscall::Abort
        } else {
            Syscall::Unknown(insn)
        }),
{
    if insn == SYS_EXIT {
        Syscall::Exit
    } else if insn == SYS_EXCEPTION {
        Syscall::Exception
    } else if insn == SYS_ABORT {
        Syscall::Abort
    } else {
        Syscall::Unknown(insn)
    }
}

/// Exit status after an abort
pub const ABORT_STATUS: i32 = 134;

/// The exit status that `SYS_EXIT` asks for: R0, as a signed number.
pub fn exit_status(r0: u32) -> (r: i32)
    ensures
        r == r0 as i32,
{
    r0 as i32
}

/// The registers that the core pushes onto the stack on exception entry.
#[derive(Clone, Copy, PartialEq, Eq, Debug, Structural)]
pub struct Stacked {
    /// R0
    pub r0: u32,
    /// R1
    pub r1: u32,
    /// R2
    pub r2: u32,
    /// R3
    pub r3: u32,
    /// R12
    pub r12: u32,
    /// LR
    pub lr: u32,
    /// PC
    pub pc: u32,
    /// xPSR
    pub xpsr: u32,
}

/// Size of the stacked registers, in bytes
pub const STACKED_SIZE: u32 = 32;

impl Stacked {
    /// The stacked registers, from the eight words at the stack pointer.
    pub fn from_words(words: &[u32]) -> (r: Stacked)
        requires
            words@.len() >= 8,
        ensures
            r == (Stacked {
                r0: words@[0],
                r1: words@[1],
                r2: words@[2],
                r3: words@[3],
                r12: words@[4],
                lr: words@[5],
                pc: words@[6],
                xpsr: words@[7],
            }),
    {
        Stacked {
            r0: words[0],
            r1: words[1],
            r2: words[2],
            r3: words[3],
            r12: words[4],
            lr: words[5],
            pc: words[6],
            xpsr: words[7],
        }
    }

    /// Whether the stacked registers disagree with the core's: the stack overflowed and the
    /// registers were pushed to invalid memory.
    pub fn overflowed(&self, r0: u32, r1: u32, r2: u32, r3: u32, r12: u32) -> (r: bool)
        ensures
            r == (self.r0 != r0 || self.r1 != r1 || self.r2 != r2 || self.r3 != r3 || self.r12 != r12),
    {
        self.r0 != r0 || self.r1 != r1 || self.r2 != r2 || self.r3 != r3 || self.r12 != r12
    }
}

/// The exception being handled, from ICSR: its VECTACTIVE field, the low byte.
pub fn vectactive(icsr: u32) -> (r: u8)
    ensures
        r == icsr as u8,
{
    icsr as u8
}

/// Address of ICSR
pub const SCB_ICSR: u32 = 0xE000_ED04;

/// The name of the exception with number `vectactive`.
pub open spec fn exception_name_spec(vectactive: u8) -> Seq<char> {
    if vectactive == 2 {
        "NMI"@
    } else if vectactive == 3 {
        "HardFault"@
    } else if vectactive == 4 {
        "MemManage"@
    } else if vectactive == 5 {
        "BusFault"@
    } else if vectactive == 6 {
        "UsageFault"@
    } else if vectactive == 11 {
        "SVCall"@
    } else if vectactive == 12 {
        "DebugMonitor"@
    } else if vectactive == 14 {
        "PendSV"@
    } else if vectactive == 15 {
        "SysTick"@
    } else if vectactive > 16 {
        "IRQ"@ + crate::text::radix_digits((vectactive - 16) as nat, 10)
    } else {
        "??? (ICSR.VECTACTIVE = "@ + crate::text::radix_digits(vectactive as nat, 10) + ")"@
    }
}

/// Each system exception has its ARMv7-M name, and no other exception number gets that name:
/// 2 NMI, 3 HardFault, 4 MemManage, 5 BusFault, 6 UsageFault, 11 SVCall, 12 DebugMonitor,
/// 14 PendSV, 15 SysTick.
pub proof fn exception_names(v: u8)
    ensures
        (exception_name_spec(v) == "NMI"@) == (v == 2),
        (exception_name_spec(v) == "HardFault"@) == (v == 3),
        (exception_name_spec(v) == "MemManage"@) == (v == 4),
        (exception_name_spec(v) == "BusFault"@) == (v == 5),
        (exception_name_spec(v) == "UsageFault"@) == (v == 6),
        (exception_name_spec(v) == "SVCall"@) == (v == 11),
        (exception_name_spec(v) == "DebugMonitor"@) == (v == 12),
        (exception_name_spec(v) == "PendSV"@) == (v == 14),
        (exception_name_spec(v) == "SysTick"@) == (v == 15),
{
    reveal_strlit("NMI");
    reveal_strlit("HardFault");
    reveal_strlit("MemManage");
    reveal_strlit("BusFault");
    reveal_strlit("UsageFault");
    reveal_strlit("SVCall");
    reveal_strlit("DebugMonitor");
    reveal_strlit("PendSV");
    reveal_strlit("SysTick");
    reveal_strlit("IRQ");
    reveal_strlit("??? (ICSR.VECTACTIVE = ");
    assert("NMI"@.len() != "HardFault"@.len());
    assert("NMI"@.len() != "MemManage"@.len());
    assert("NMI"@.len() != "BusFault"@.len());
    assert("NMI"@.len() != "UsageFault"@.len());
    assert("NMI"@.len() != "SVCall"@.len());
    assert("NMI"@.len() != "DebugMonitor"@.len());
    assert("NMI"@.len() != "PendSV"@.len());
    assert("NMI"@.len() != "SysTick"@.len());
    assert("HardFault"@[0] != "MemManage"@[0]);
    assert("HardFault"@.len() != "BusFault"@.len());
    assert("HardFault"@.len() != "UsageFault"@.len());
    assert("HardFault"@.len() != "SVCall"@.len());
    assert("HardFault"@.len() != "DebugMonitor"@.len());
    assert("HardFault"@.len() != "PendSV"@.len());
    assert("HardFault"@.len() != "SysTick"@.len());
    assert("MemManage"@.len() != "BusFault"@.len());
    assert("MemManage"@.len() != "UsageFault"@.len());
    assert("MemManage"@.len() != "SVCall"@.len());
    assert("MemManage"@.len() != "DebugMonitor"@.len());
    assert("MemManage"@.len() != "PendSV"@.len());
    assert("MemManage"@.len() != "SysTick"@.len());
    assert("BusFault"@.len() != "UsageFault"@.len());
    assert("BusFault"@.len() != "SVCall"@.len());
    assert("BusFault"@.len() != "DebugMonitor"@.len());
    assert("BusFault"@.len() != "PendSV"@.len());
    assert("BusFault"@.len() != "SysTick"@.len());
    assert("UsageFault"@.len() != "SVCall"@.len());
    assert("UsageFault"@.len() != "DebugMonitor"@.len());
    assert("UsageFault"@.len() != "PendSV"@.len());
    assert("UsageFault"@.len() != "SysTick"@.len());
    assert("SVCall"@.len() != "DebugMonitor"@.len());
    assert("SVCall"@[0] != "PendSV"@[0]);
    assert("SVCall"@.len() != "SysTick"@.len());
    assert("DebugMonitor"@.len() != "PendSV"@.len());
    assert("DebugMonitor"@.len() != "SysTick"@.len());
    assert("PendSV"@.len() != "SysTick"@.len());
    let n = exception_name_spec(v);
    if v > 16 {
        assert(n[0] == 'I');
        assert(n[0] != "NMI"@[0]);
        assert(n[0] != "HardFault"@[0]);
        assert(n[0] != "MemManage"@[0]);
        assert(n[0] != "BusFault"@[0]);
        assert(n[0] != "UsageFault"@[0]);
        assert(n[0] != "SVCall"@[0]);
        assert(n[0] != "DebugMonitor"@[0]);
        assert(n[0] != "PendSV"@[0]);
        assert(n[0] != "SysTick"@[0]);
    } else if !(v == 2 || v == 3 || v == 4 || v == 5 || v == 6 || v == 11 || v == 12 || v == 14 || v == 15) {
        assert(n[0] == '?');
        assert(n[0] != "NMI"@[0]);
        assert(n[0] != "HardFault"@[0]);
        assert(n[0] != "MemManage"@[0]);
        assert(n[0] != "BusFault"@[0]);
        assert(n[0] != "UsageFault"@[0]);
        assert(n[0] != "SVCall"@[0]);
        assert(n[0] != "DebugMonitor"@[0]);
        assert(n[0] != "PendSV"@[0]);
        assert(n[0] != "SysTick"@[0]);
    }
}

/// The name of the exception with number `vectactive`.
pub fn exception_name(vectactive: u8) -> (r: String)
    ensures
        r@ == exception_name_spec(vectactive),
{
    if vectactive == 2 {
        "NMI".to_owned()
    } else if vectactive == 3 {
        "HardFault".to_owned()
    } else if vectactive == 4 {
        "MemManage".to_owned()
    } else if vectactive == 5 {
        "BusFault".to_owned()
    } else if vectactive == 6 {
        "UsageFault".to_owned()
    } else if vectactive == 11 {
        "SVCall".to_owned()
    } else if vectactive == 12 {
        "DebugMonitor".to_owned()
    } else if vectactive == 14 {
        "PendSV".to_owned()
    } else if vectactive == 15 {
        "SysTick".to_owned()
    } else if vectactive > 16 {
        let mut v = chars_of("IRQ");
        crate::text::append_chars(&mut v, &crate::text::radix_chars((vectactive - 16) as u64, 10));
        string_of(&v)
    } else {
        let mut v = chars_of("??? (ICSR.VECTACTIVE = ");
        crate::text::append_chars(&mut v, &crate::text::radix_chars(vectactive as u64, 10));
        crate::text::append_chars(&mut v, &chars_of(")"));
        string_of(&v)
    }
}

/// The fields of the CONTROL, FAULTMASK, BASEPRI and PRIMASK register, in this order.
pub fn special_registers(cfbp: u32) -> (r: (u32, u32, u32, u32))
    ensures
        r == (cfbp >> 24u32, (cfbp >> 16u32) & 0xff, (cfbp >> 8u32) & 0xff, cfbp & 0xff),
{
    (cfbp >> 24u32, (cfbp >> 16u32) & 0xff, (cfbp >> 8u32) & 0xff, cfbp & 0xff)
}

/// The registers reported for an exception: R0 to R12 as the core holds them, SP as it was
/// before the exception entry and, unless the stack overflowed, PC, LR and xPSR as stacked.
pub fn exception_registers(core: &[u32], sp: u32, stacked: Stacked, overflowed: bool) -> (r: Vec<(crate::cmsis_dap::cortex_m::Register, u32)>)
    requires
        core@.len() == 13,
        sp + STACKED_SIZE <= u32::MAX,
    ensures
        r@.len() == (if overflowed { 14int } else { 17int }),
        forall|i: int| 0 <= i < 13 ==> #[trigger] r@[i].1 == core@[i],
        r@[13] == (crate::cmsis_dap::cortex_m::Register::SP, (sp + STACKED_SIZE) as u32),
        !overflowed ==> r@[14] == (crate::cmsis_dap::cortex_m::Register::PC, stacked.pc)
            && r@[15] == (crate::cmsis_dap::cortex_m::Register::LR, stacked.lr)
            && r@[16] == (crate::cmsis_dap::cortex_m::Register::XPSR, stacked.xpsr),
        r@.take(13).map_values(|p: (crate::cmsis_dap::cortex_m::Register, u32)| p.0) == seq![
            crate::cmsis_dap::cortex_m::Register::R0,
            crate::cmsis_dap::cortex_m::Register::R1,
            crate::cmsis_dap::cortex_m::Register::R2,
            crate::cmsis_dap::cortex_m::Register::R3,
            crate::cmsis_dap::cortex_m::Register::R4,
            crate::cmsis_dap::cortex_m::Register::R5,
            crate::cmsis_dap::cortex_m::Register::R6,
            crate::cmsis_dap::cortex_m::Register::R7,
            crate::cmsis_dap::cortex_m::Register::R8,
            crate::cmsis_dap::cortex_m::Register::R9,
            crate::cmsis_dap::cortex_m::Register::R10,
            crate::cmsis_dap::cortex_m::Register::R11,
            crate::cmsis_dap::cortex_m::Register::R12,
        ],
{
    let regs = [
        crate::cmsis_dap::cortex_m::Register::R0,
        crate::cmsis_dap::cortex_m::Register::R1,
        crate::cmsis_dap::cortex_m::Register::R2,
        crate::cmsis_dap::cortex_m::Register::R3,
        crate::cmsis_dap::cortex_m::Register::R4,
        crate::cmsis_dap::cortex_m::Register::R5,
        crate::cmsis_dap::cortex_m::Register::R6,
        crate::cmsis_dap::cortex_m::Register::R7,
        crate::cmsis_dap::cortex_m::Register::R8,
        crate::cmsis_dap::cortex_m::Register::R9,
        crate::cmsis_dap::cortex_m::Register::R10,
        crate::cmsis_dap::cortex_m::Register::R11,
        crate::cmsis_dap::cortex_m::Register::R12,
    ];
    let mut r: Vec<(crate::cmsis_dap::cortex_m::Register, u32)> = Vec::new();
    let mut i: usize = 0;
    while i < 13
        invariant
            i <= 13,
            core@.len() == 13,
            r@.len() == i,
            forall|k: int| 0 <= k < i ==> #[trigger] r@[k] == (regs@[k], core@[k]),
        decreases 13 - i,
    {
        r.push((regs[i], core[i]));
        i = i + 1;
    }
    r.push((crate::cmsis_dap::cortex_m::Register::SP, sp + STACKED_SIZE));
    if !overflowed {
        r.push((crate::cmsis_dap::cortex_m::Register::PC, stacked.pc));
        r.push((crate::cmsis_dap::cortex_m::Register::LR, stacked.lr));
        r.push((crate::cmsis_dap::cortex_m::Register::XPSR, stacked.xpsr));
    }
    assert(r@.take(13).map_values(|p: (crate::cmsis_dap::cortex_m::Register, u32)| p.0) =~= regs@);
    r
}

/// The reset value of the Link Register; this marks the end of the stack
pub const LR_END: u32 = 0xFFFF_FFFF;

/// The core register that a DWARF register number stands for, among those that the unwinder
/// meets: R4 to R11, SP and LR.
pub open spec fn dwarf_register_spec(reg: u16) -> crate::cmsis_dap::cortex_m::Register {
    if reg == 13 {
        crate::cmsis_dap::cortex_m::Register::SP
    } else if reg == 14 {
        crate::cmsis_dap::cortex_m::Register::LR
    } else if reg == 11 {
        crate::cmsis_dap::cortex_m::Register::R11
    } else if reg == 10 {
        crate::cmsis_dap::cortex_m::Register::R10
    } else if reg == 9 {
        crate::cmsis_dap::cortex_m::Register::R9
    } else if reg == 8 {
        crate::cmsis_dap::cortex_m::Register::R8
    } else if reg == 7 {
        crate::cmsis_dap::cortex_m::Register::R7
    } else if reg == 6 {
        crate::cmsis_dap::cortex_m::Register::R6
    } else if reg == 5 {
        crate::cmsis_dap::cortex_m::Register::R5
    } else {
        crate::cmsis_dap::cortex_m::Register::R4
    }
}

/// The DWARF numbers of the ARM core registers that the unwinder reads are their DCRSR
/// selectors: the register that a DWARF number stands for is the one DCRSR selects with that
/// number.
pub proof fn dwarf_numbers_are_selectors(n: u16)
    requires
        4 <= n <= 11 || n == 13 || n == 14,
    ensures
        crate::cmsis_dap::cortex_m::regsel_spec(dwarf_register_spec(n)) == n,
{
}

/// The core register that a DWARF register number stands for.
pub fn gimli2cortex(reg: u16) -> (r: crate::cmsis_dap::cortex_m::Register)
    requires
        4 <= reg <= 11 || reg == 13 || reg == 14,
    ensures
        r == dwarf_register_spec(reg),
{
    if reg == 13 {
        crate::cmsis_dap::cortex_m::Register::SP
    } else if reg == 14 {
        crate::cmsis_dap::cortex_m::Register::LR
    } else if reg == 11 {
        crate::cmsis_dap::cortex_m::Register::R11
    } else if reg == 10 {
        crate::cmsis_dap::cortex_m::Register::R10
    } else if reg == 9 {
        crate::cmsis_dap::cortex_m::Register::R9
    } else if reg == 8 {
        crate::cmsis_dap::cortex_m::Register::R8
    } else if reg == 7 {
        crate::cmsis_dap::cortex_m::Register::R7
    } else if reg == 6 {
        crate::cmsis_dap::cortex_m::Register::R6
    } else if reg == 5 {
        crate::cmsis_dap::cortex_m::Register::R5
    } else {
        crate::cmsis_dap::cortex_m::Register::R4
    }
}

/// A 32-bit address `offset` bytes from `base`, as the unwinder computes the CFA and the places
/// where registers were saved: the sum truncated to 32 bits.
pub fn offset_address(base: u32, offset: i64) -> (r: u32)
    requires
        base + offset <= i64::MAX,
    ensures
        r == (base + offset) as u32,
{
    (base as i64 + offset) as u32
}

/// The register values known while unwinding, read from the core only when first needed.
pub struct RegisterCache {
    entries: Vec<(crate::cmsis_dap::cortex_m::Register, u32)>,
}

impl RegisterCache {
    /// The value known for `reg`, if any.
    pub closed spec fn value_of(&self, reg: crate::cmsis_dap::cortex_m::Register) -> Option<u32> {
        if exists|i: int| 0 <= i < self.entries@.len() && #[trigger] self.entries@[i].0 == reg {
            Some(self.entries@[choose|i: int| 0 <= i < self.entries@.len() && #[trigger] self.entries@[i].0 == reg].1)
        } else {
            None
        }
    }

    /// The register values known, as a map.
    pub open spec fn known(&self) -> Map<crate::cmsis_dap::cortex_m::Register, u32> {
        Map::new(|r: crate::cmsis_dap::cortex_m::Register| self.value_of(r) is Some, |r: crate::cmsis_dap::cortex_m::Register| self.value_of(r)->0)
    }

    /// Each register is known at most once.
    pub closed spec fn wf(&self) -> bool {
        forall|i: int, j: int| 0 <= i < j < self.entries@.len() ==> #[trigger] self.entries@[i].0 != #[trigger] self.entries@[j].0
    }

    /// What is known at the start of unwinding: LR and SP.
    pub fn new(lr: u32, sp: u32) -> (r: Self)
        ensures
            r.wf(),
            r.value_of(crate::cmsis_dap::cortex_m::Register::LR) == Some(lr),
            r.value_of(crate::cmsis_dap::cortex_m::Register::SP) == Some(sp),
            forall|x: crate::cmsis_dap::cortex_m::Register| x != crate::cmsis_dap::cortex_m::Register::LR
                && x != crate::cmsis_dap::cortex_m::Register::SP ==> #[trigger] r.value_of(x) is None,
    {
        let mut entries: Vec<(crate::cmsis_dap::cortex_m::Register, u32)> = Vec::new();
        entries.push((crate::cmsis_dap::cortex_m::Register::LR, lr));
        entries.push((crate::cmsis_dap::cortex_m::Register::SP, sp));
        let r = RegisterCache { entries };
        assert(r.entries@[0].0 == crate::cmsis_dap::cortex_m::Register::LR);
        assert(r.entries@[1].0 == crate::cmsis_dap::cortex_m::Register::SP);
        r
    }

    /// The value known for `reg`, if any.
    pub fn lookup(&self, reg: crate::cmsis_dap::cortex_m::Register) -> (r: Option<u32>)
        requires
            self.wf(),
        ensures
            r == self.value_of(reg),
    {
        let mut i: usize = 0;
        while i < self.entries.len()
            invariant
                i <= self.entries@.len(),
                self.wf(),
                forall|k: int| 0 <= k < i ==> #[trigger] self.entries@[k].0 != reg,
            decreases self.entries.len() - i,
        {
            if self.entries[i].0 == reg {
                proof {
                    let k = choose|k: int| 0 <= k < self.entries@.len() && #[trigger] self.entries@[k].0 == reg;
                    if k != i {
                        if k < i {
                            assert(self.entries@[k].0 != self.entries@[i as int].0);
                        } else {
                            assert(self.entries@[i as int].0 != self.entries@[k].0);
                        }
                    }
                }
                return Some(self.entries[i].1);
            }
            i = i + 1;
        }
        None
    }

    /// Records the value of `reg`.
    pub fn insert(&mut self, reg: crate::cmsis_dap::cortex_m::Register, val: u32)
        requires
            old(self).wf(),
        ensures
            final(self).wf(),
            final(self).value_of(reg) == Some(val),
            forall|x: crate::cmsis_dap::cortex_m::Register| x != reg ==> #[trigger] final(self).value_of(x) == old(self).value_of(x),
    {
        let mut i: usize = 0;
        while i < self.entries.len()
            invariant
                i <= self.entries@.len(),
                self.wf(),
                *self == *old(self),
                forall|k: int| 0 <= k < i ==> #[trigger] self.entries@[k].0 != reg,
            decreases self.entries.len() - i,
        {
            if self.entries[i].0 == reg {
                let ghost before = self.entries@;
                self.entries.set(i, (reg, val));
                proof {
                    assert(self.entries@[i as int].0 == reg);
                    assert forall|x: crate::cmsis_dap::cortex_m::Register| x != reg implies #[trigger] self.value_of(x) == old(self).value_of(x) by {
                        if exists|k: int| 0 <= k < before.len() && #[trigger] before[k].0 == x {
                            let k = choose|k: int| 0 <= k < before.len() && #[trigger] before[k].0 == x;
                            assert(self.entries@[k].0 == x);
                        }
                        if exists|k: int| 0 <= k < self.entries@.len() && #[trigger] self.entries@[k].0 == x {
                            let k = choose|k: int| 0 <= k < self.entries@.len() && #[trigger] self.entries@[k].0 == x;
                            assert(before[k].0 == x);
                        }
                    }
                }
                return;
            }
            i = i + 1;
        }
        let ghost before = self.entries@;
        self.entries.push((reg, val));
        proof {
            let n = before.len() as int;
            assert(self.entries@[n].0 == reg);
            assert forall|x: crate::cmsis_dap::cortex_m::Register| x != reg implies #[trigger] self.value_of(x) == old(self).value_of(x) by {
                if exists|k: int| 0 <= k < before.len() && #[trigger] before[k].0 == x {
                    let k = choose|k: int| 0 <= k < before.len() && #[trigger] before[k].0 == x;
                    assert(self.entries@[k].0 == x);
                }
                if exists|k: int| 0 <= k < self.entries@.len() && #[trigger] self.entries@[k].0 == x {
                    let k = choose|k: int| 0 <= k < self.entries@.len() && #[trigger] self.entries@[k].0 == x;
                    assert(k < n);
                    assert(before[k].0 == x);
                }
            }
        }
    }
}

impl RegisterCache {
    /// Records the canonical frame address as the new SP; tells whether it differs from the SP
    /// known before, that is, whether the frame's rule changed the CFA.
    pub fn update_sp(&mut self, cfa: u32) -> (changed: bool)
        requires
            old(self).wf(),
        ensures
            final(self).wf(),
            changed == (old(self).value_of(crate::cmsis_dap::cortex_m::Register::SP) != Some(cfa)),
            final(self).value_of(crate::cmsis_dap::cortex_m::Register::SP) == Some(cfa),
            forall|x: crate::cmsis_dap::cortex_m::Register| x != crate::cmsis_dap::cortex_m::Register::SP
                ==> #[trigger] final(self).value_of(x) == old(self).value_of(x),
    {
        let changed = match self.lookup(crate::cmsis_dap::cortex_m::Register::SP) {
            Some(sp) => sp != cfa,
            None => true,
        };
        self.insert(crate::cmsis_dap::cortex_m::Register::SP, cfa);
        changed
    }
}

/// Where a half-word at the 2-byte aligned `addr` is read from with 32-bit reads: the word at
/// `addr` rounded down to 4 bytes, and whether the half-word is its upper half.
pub fn half_word_location(addr: u32) -> (r: (u32, bool))
    requires
        addr % 2 == 0,
    ensures
        r == (if addr % 4 == 0 { (addr, false) } else { ((addr - 2) as u32, true) }),
{
    if addr % 4 == 0 {
        (addr, false)
    } else {
        (addr - 2, true)
    }
}

/// The half-word of a little-endian `word`: its upper or its lower half.
pub fn half_word(word: u32, upper: bool) -> (r: u16)
    ensures
        r == (if upper { (word >> 16u32) as u16 } else { word as u16 }),
{
    if upper {
        (word >> 16u32) as u16
    } else {
        word as u16
    }
}

/// What the unwinder does after a frame.
#[derive(Clone, Copy, PartialEq, Eq, Debug, Structural)]
pub enum FrameStep {
    /// LR holds its reset value: the stack ends here.
    End,
    /// The CFA did not change and LR equals PC: the stack appears to be corrupted.
    Corrupted,
    /// LR holds an `EXC_RETURN` value: the next frame is on the exception stack frame.
    ExceptionEntry,
    /// The next frame's PC: LR without its Thumb bit.
    Next(u32),
    /// LR lacks the Thumb bit.
    NoThumbBit(u32),
}

/// What the unwinder does after a frame, given LR and PC after the frame's unwinding rules and
/// whether they changed the CFA.
pub open spec fn frame_step_spec(lr: u32, pc: u32, cfa_changed: bool) -> FrameStep {
    if lr == LR_END {
        FrameStep::End
    } else if !cfa_changed && lr == pc {
        FrameStep::Corrupted
    } else if lr > 0xffff_fff0 {
        FrameStep::ExceptionEntry
    } else if lr & 1 == 0 {
        FrameStep::NoThumbBit(lr)
    } else {
        FrameStep::Next(lr & !1u32)
    }
}

/// What the unwinder does after a frame, given LR and PC after the frame's unwinding rules and
/// whether they changed the CFA.
pub fn frame_step(lr: u32, pc: u32, cfa_changed: bool) -> (r: FrameStep)
    ensures
        r == frame_step_spec(lr, pc, cfa_changed),
{
    if lr == LR_END {
        FrameStep::End
    } else if !cfa_changed && lr == pc {
        FrameStep::Corrupted
    } else if lr > 0xffff_fff0 {
        FrameStep::ExceptionEntry
    } else if lr & 1 == 0 {
        FrameStep::NoThumbBit(lr)
    } else {
        FrameStep::Next(lr & !1u32)
    }
}

/// The ranges of `ranges` are sorted and do not overlap.
pub open spec fn sorted_disjoint(ranges: Seq<(u64, u64)>) -> bool {
    &&& forall|i: int| 0 <= i < ranges.len() ==> #[trigger] ranges[i].0 <= ranges[i].1
    &&& forall|i: int, j: int| 0 <= i < j < ranges.len() ==> #[trigger] ranges[i].1 <= #[trigger] ranges[j].0
}

/// Finds, by binary search, a range of `ranges` (start inclusive, end exclusive) that holds `pc`.
pub fn find_range(ranges: &[(u64, u64)], pc: u64) -> (r: Option<usize>)
    ensures
        r matches Some(i) ==> i < ranges@.len() && ranges@[i as int].0 <= pc < ranges@[i as int].1,
        sorted_disjoint(ranges@) && r is None ==> forall|i: int| 0 <= i < ranges@.len() ==> !(#[trigger] ranges@[i].0 <= pc && pc < ranges@[i].1),
{
    let mut lo: usize = 0;
    let mut hi: usize = ranges.len();
    while lo < hi
        invariant
            lo <= hi <= ranges@.len(),
            sorted_disjoint(ranges@) ==> forall|i: int| 0 <= i < ranges@.len() && (i < lo || i >= hi) ==> !(#[trigger] ranges@[i].0 <= pc && pc < ranges@[i].1),
        decreases hi - lo,
    {
        let mid = lo + (hi - lo) / 2;
        let (start, end) = ranges[mid];
        if start <= pc && pc < end {
            return Some(mid);
        } else if pc < start {
            proof {
                if sorted_disjoint(ranges@) {
                    assert forall|i: int| 0 <= i < ranges@.len() && mid < i implies !(#[trigger] ranges@[i].0 <= pc && pc < ranges@[i].1) by {
                        assert(ranges@[mid as int].1 <= ranges@[i].0);
                        assert(ranges@[mid as int].0 <= ranges@[mid as int].1 || ranges@[mid as int].0 > ranges@[mid as int].1);
                    }
                }
            }
            hi = mid;
        } else {
            proof {
                if sorted_disjoint(ranges@) {
                    assert forall|i: int| 0 <= i < ranges@.len() && i < mid implies !(#[trigger] ranges@[i].0 <= pc && pc < ranges@[i].1) by {
                        assert(ranges@[i].1 <= ranges@[mid as int].0);
                    }
                }
            }
            lo = mid + 1;
        }
    }
    None
}

/// The part of `s` before its first `#`, if any.
pub open spec fn before_hash(s: Seq<char>) -> Seq<char> {
    match crate::text::find_in(s, 0, s.len() as int, '#') {
        Some(k) => s.take(k),
        None => s,
    }
}

/// The command in a prompt line: trimmed, then cut before its first `#`.
pub open spec fn command_text(line: Seq<char>) -> Seq<char> {
    before_hash(crate::text::trim(line))
}

/// The first three parts of `s` split at single spaces, the last part holding the rest
/// (`str::splitn(3, ' ')`).
pub open spec fn split3(s: Seq<char>) -> (Seq<char>, Option<Seq<char>>, Option<Seq<char>>) {
    match crate::text::find_in(s, 0, s.len() as int, ' ') {
        None => (s, None, None),
        Some(a) => {
            let rest = s.skip(a + 1);
            match crate::text::find_in(rest, 0, rest.len() as int, ' ') {
                None => (s.take(a), Some(rest), None),
                Some(b) => (s.take(a), Some(rest.take(b)), Some(rest.skip(b + 1))),
            }
        },
    }
}

/// Whether a character is kept in an address: all but underscores.
pub open spec fn kept_in_address() -> spec_fn(char) -> bool {
    |c: char| c != '_'
}

/// `s` without its underscores.
pub open spec fn without_underscores(s: Seq<char>) -> Seq<char> {
    s.filter(kept_in_address())
}

/// The address of a `show` command: hexadecimal after `0x`, underscores allowed, or decimal.
pub open spec fn address_spec(s: Seq<char>) -> Option<u32> {
    if s.len() >= 2 && s[0] == '0' && s[1] == 'x' {
        match parse_unsigned_radix(without_underscores(s.skip(2)), 16, 0xffff_ffff) {
            Some(v) => Some(v as u32),
            None => None,
        }
    } else {
        match crate::text::parse_unsigned(s, 0xffff_ffff) {
            Some(v) => Some(v as u32),
            None => None,
        }
    }
}

/// What `str::parse::<i32>` gives: an optional sign, then at least one decimal digit and
/// nothing else, within the range of `i32`.
pub open spec fn parse_i32_spec(s: Seq<char>) -> Option<i32> {
    if s.len() > 0 && s[0] == '-' {
        let d = s.skip(1);
        if d.len() == 0 || !crate::text::all_dec_digits(d) || crate::text::dec_value(d) > 0x8000_0000 {
            None
        } else {
            Some((0 - crate::text::dec_value(d)) as i32)
        }
    } else {
        match crate::text::parse_unsigned(s, 0x7fff_ffff) {
            Some(v) => Some(v as i32),
            None => None,
        }
    }
}

/// The range of words of a `show` command, relative to its address: `n` words from the address
/// (or, for negative `n`, from `n` words before it up to the word at it), or from `-m` words
/// before the address up to `n` words after it.
pub open spec fn range_spec(p2: Option<Seq<char>>, p3: Option<Seq<char>>) -> Option<WordRange> {
    match (p2, p3) {
        (Some(n), None) => match parse_i32_spec(n) {
            Some(v) => if v < 0 { Some(WordRange { start: v, end: 1i64 }) } else { Some(WordRange { start: 0i32, end: v as i64 }) },
            None => None,
        },
        (Some(m), Some(n)) => if m.len() > 0 && m[0] == '-' && !(n.len() > 0 && n[0] == '-') {
            match (parse_i32_spec(m), parse_i32_spec(n)) {
                (Some(a), Some(b)) => Some(WordRange { start: a, end: (b + 1) as i64 }),
                _ => None,
            }
        } else {
            None
        },
        _ => None,
    }
}

/// A range of words relative to an address: from `start` words after it up to, not including,
/// `end` words after it.
#[derive(Clone, Copy, PartialEq, Eq, Debug, Structural)]
pub struct WordRange {
    /// First word
    pub start: i32,
    /// Word after the last one
    pub end: i64,
}

/// A command typed at the prompt.
#[derive(Clone, Copy, PartialEq, Eq, Debug, Structural)]
pub enum Command {
    /// Nothing but, maybe, a comment
    Empty,
    /// `help`
    Help,
    /// `quit`
    Quit,
    /// `show`, with its address and its range of words, where they parse
    Show(Option<u32>, Option<WordRange>),
    /// Anything else
    Unknown,
}

/// The command that a prompt line holds.
pub open spec fn command_spec(line: Seq<char>) -> Command {
    let l = command_text(line);
    if l.len() == 0 {
        Command::Empty
    } else if l == "help"@ {
        Command::Help
    } else if l == "quit"@ {
        Command::Quit
    } else if l.len() >= 5 && l.take(5) == "show "@ {
        let parts = split3(crate::text::trim(l.skip(5)));
        Command::Show(address_spec(parts.0), range_spec(parts.1, parts.2))
    } else {
        Command::Unknown
    }
}

fn sub_chars(s: &Vec<char>, start: usize, end: usize) -> (r: Vec<char>)
    requires
        start <= end <= s@.len(),
    ensures
        r@ == s@.subrange(start as int, end as int),
{
    let mut r: Vec<char> = Vec::new();
    let mut k = start;
    while k < end
        invariant
            start <= k <= end <= s@.len(),
            r@ == s@.subrange(start as int, k as int),
        decreases end - k,
    {
        r.push(s[k]);
        k = k + 1;
        assert(r@ =~= s@.subrange(start as int, k as int));
    }
    r
}

fn eq_str(s: &Vec<char>, t: &str) -> (r: bool)
    ensures
        r == (s@ == t@),
{
    let c = chars_of(t);
    if s.len() != c.len() {
        return false;
    }
    let mut i: usize = 0;
    while i < s.len()
        invariant
            i <= s@.len(),
            s@.len() == c@.len(),
            c@ == t@,
            forall|k: int| 0 <= k < i ==> s@[k] == c@[k],
        decreases s.len() - i,
    {
        if s[i] != c[i] {
            proof {
                if s@ == t@ {
                    assert(s@[i as int] == c@[i as int]);
                }
            }
            return false;
        }
        i = i + 1;
    }
    assert(s@ =~= c@);
    true
}

fn split3_chars(s: &Vec<char>) -> (r: (Vec<char>, Option<Vec<char>>, Option<Vec<char>>))
    ensures
        ({
            let p = split3(s@);
            &&& r.0@ == p.0
            &&& match (r.1, p.1) {
                (Some(x), Some(y)) => x@ == y,
                (None, None) => true,
                _ => false,
            }
            &&& match (r.2, p.2) {
                (Some(x), Some(y)) => x@ == y,
                (None, None) => true,
                _ => false,
            }
        }),
{
    let n = s.len();
    match crate::text::find_char(s, 0, n, ' ') {
        None => {
            let all = sub_chars(s, 0, n);
            assert(all@ =~= s@);
            (all, None, None)
        },
        Some(a) => {
            let head = sub_chars(s, 0, a);
            let rest = sub_chars(s, a + 1, n);
            assert(rest@ =~= s@.skip(a + 1));
            assert(head@ =~= s@.take(a as int));
            let m = rest.len();
            match crate::text::find_char(&rest, 0, m, ' ') {
                None => (head, Some(rest), None),
                Some(b) => {
                    let second = sub_chars(&rest, 0, b);
                    let third = sub_chars(&rest, b + 1, m);
                    assert(second@ =~= rest@.take(b as int));
                    assert(third@ =~= rest@.skip(b + 1));
                    (head, Some(second), Some(third))
                },
            }
        },
    }
}

fn remove_underscores(s: &Vec<char>, start: usize) -> (r: Vec<char>)
    requires
        start <= s@.len(),
    ensures
        r@ == without_underscores(s@.skip(start as int)),
{
    let mut r: Vec<char> = Vec::new();
    let mut k = start;
    let ghost t = s@.skip(start as int);
    proof {
        reveal(Seq::filter);
        assert(t.take(0).filter(kept_in_address()) =~= Seq::<char>::empty());
    }
    while k < s.len()
        invariant
            start <= k <= s@.len(),
            t == s@.skip(start as int),
            r@ == t.take(k - start).filter(kept_in_address()),
        decreases s.len() - k,
    {
        let c = s[k];
        proof {
            let u = t.take(k - start + 1);
            assert(u.drop_last() =~= t.take(k - start));
            assert(u.last() == c);
            reveal(Seq::filter);
            assert(u.filter(kept_in_address()) == (if c != '_' { t.take(k - start).filter(kept_in_address()).push(c) } else { t.take(k - start).filter(kept_in_address()) }));
        }
        if c != '_' {
            r.push(c);
        }
        k = k + 1;
    }
    assert(t.take(k - start) =~= t);
    r
}

fn parse_address(s: &Vec<char>) -> (r: Option<u32>)
    ensures
        r == address_spec(s@),
{
    if s.len() >= 2 && s[0] == '0' && s[1] == 'x' {
        let d = remove_underscores(s, 2);
        assert(d@.subrange(0, d@.len() as int) =~= d@);
        match parse_radix_chars(&d, 0, d.len(), 16, 0xffff_ffff) {
            Some(v) => Some(v as u32),
            None => None,
        }
    } else {
        assert(s@.subrange(0, s@.len() as int) =~= s@);
        match crate::text::parse_unsigned_chars(s, 0, s.len(), 0xffff_ffff) {
            Some(v) => Some(v as u32),
            None => None,
        }
    }
}

fn parse_i32(s: &Vec<char>) -> (r: Option<i32>)
    ensures
        r == parse_i32_spec(s@),
{
    if s.len() > 0 && s[0] == '-' {
        let n = s.len();
        if n == 1 {
            return None;
        }
        let d = sub_chars(s, 1, n);
        assert(d@ =~= s@.skip(1));
        if d[0] == '+' {
            proof {
                assert(!crate::text::is_dec_digit(d@[0]));
            }
            return None;
        }
        assert(d@.subrange(0, d@.len() as int) =~= d@);
        assert(crate::text::unsigned_digits(d@) == d@);
        match crate::text::parse_unsigned_chars(&d, 0, d.len(), 0x8000_0000) {
            Some(v) => Some((0i64 - v as i64) as i32),
            None => None,
        }
    } else {
        assert(s@.subrange(0, s@.len() as int) =~= s@);
        match crate::text::parse_unsigned_chars(s, 0, s.len(), 0x7fff_ffff) {
            Some(v) => Some(v as i32),
            None => None,
        }
    }
}

fn parse_range(p2: &Option<Vec<char>>, p3: &Option<Vec<char>>) -> (r: Option<WordRange>)
    ensures
        r == range_spec(
            match p2 {
                Some(x) => Some(x@),
                None => None,
            },
            match p3 {
                Some(x) => Some(x@),
                None => None,
            },
        ),
{
    match (p2, p3) {
        (Some(n), None) => match parse_i32(n) {
            Some(v) => if v < 0 { Some(WordRange { start: v, end: 1i64 }) } else { Some(WordRange { start: 0i32, end: v as i64 }) },
            None => None,
        },
        (Some(m), Some(n)) => {
            if m.len() > 0 && m[0] == '-' && !(n.len() > 0 && n[0] == '-') {
                match (parse_i32(m), parse_i32(n)) {
                    (Some(a), Some(b)) => Some(WordRange { start: a, end: b as i64 + 1 }),
                    _ => None,
                }
            } else {
                None
            }
        },
        _ => None,
    }
}

/// Parses a line typed at the prompt.
pub fn parse_command(line: &str) -> (r: Command)
    ensures
        r == command_spec(line@),
        r matches Command::Show(_, Some(w)) ==> w.start <= w.end,
{
    let chars = chars_of(line);
    let t = crate::text::trim_chars(&chars);
    let n = t.len();
    let l = match crate::text::find_char(&t, 0, n, '#') {
        Some(k) => sub_chars(&t, 0, k),
        None => t,
    };
    assert(l@ =~= command_text(line@));
    if l.len() == 0 {
        Command::Empty
    } else if eq_str(&l, "help") {
        Command::Help
    } else if eq_str(&l, "quit") {
        Command::Quit
    } else if l.len() >= 5 && eq_str(&sub_chars(&l, 0, 5), "show ") {
        assert(l@.subrange(0, 5) =~= l@.take(5));
        let rest = sub_chars(&l, 5, l.len());
        assert(rest@ =~= l@.skip(5));
        let rest = crate::text::trim_chars(&rest);
        let (p1, p2, p3) = split3_chars(&rest);
        let addr = parse_address(&p1);
        let range = parse_range(&p2, &p3);
        assert(range matches Some(w) ==> w.start <= w.end);
        Command::Show(addr, range)
    } else {
        proof {
            if l@.len() >= 5 {
                assert(l@.subrange(0, 5) =~= l@.take(5));
            }
        }
        Command::Unknown
    }
}

/// What a well-formed `show` command does.
#[derive(Clone, Copy, PartialEq, Eq, Debug, Structural)]
pub enum ShowPlan {
    /// The address is not 4-byte aligned.
    Misaligned,
    /// The range holds no word: nothing to show.
    Nothing,
    /// Read `n` words from `start`; the words shown end before `end`.
    Read {
        /// Address of the first word
        start: u32,
        /// Address after the last word
        end: u32,
        /// Number of words
        n: u32,
    },
}

/// The `show` commands whose arithmetic, done on 32-bit signed numbers, does not overflow.
pub open spec fn show_fits(addr: u32, range: WordRange) -> bool {
    let a = addr as i32;
    &&& range.start <= range.end
    &&& addr % 4 == 0 ==> {
        &&& range.end <= i32::MAX
        &&& range.end - range.start <= i32::MAX
        &&& range.end != range.start ==> {
            &&& i32::MIN <= 4 * range.start <= i32::MAX
            &&& i32::MIN <= 4 * range.end <= i32::MAX
            &&& i32::MIN <= a + 4 * range.start <= i32::MAX
            &&& i32::MIN <= a + 4 * range.end <= i32::MAX
        }
    }
}

/// What a well-formed `show` command does.
pub fn show_plan(addr: u32, range: WordRange) -> (r: ShowPlan)
    requires
        show_fits(addr, range),
    ensures
        r == (if addr % 4 != 0 {
            ShowPlan::Misaligned
        } else if range.end == range.start {
            ShowPlan::Nothing
        } else {
            ShowPlan::Read {
                start: ((addr as i32) + 4 * range.start) as u32,
                end: ((addr as i32) + 4 * range.end) as u32,
                n: (range.end - range.start) as u32,
            }
        }),
{
    if addr % 4 != 0 {
        return ShowPlan::Misaligned;
    }
    let end = range.end as i32;
    let n = (end - range.start) as u32;
    if n == 0 {
        return ShowPlan::Nothing;
    }
    let a = addr as i32;
    let start_addr = (a + 4 * range.start) as u32;
    let end_addr = (a + 4 * end) as u32;
    ShowPlan::Read { start: start_addr, end: end_addr, n }
}

/// One column of a row of the memory dump.
#[derive(Clone, Copy, PartialEq, Eq, Debug, Structural)]
pub enum Slot {
    /// The word with this index among those read, highlighted when it is at the address asked.
    Word(usize, bool),
    /// A word outside the range.
    Blank,
}

/// The column of the memory dump at address `c`.
pub open spec fn slot_spec(addr: u32, start: u32, end: u32, c: int) -> Slot {
    if start <= c < end {
        Slot::Word(((c - start) / 4) as usize, c == addr)
    } else {
        Slot::Blank
    }
}

/// A row of the memory dump: its address and its four columns.
pub struct Row {
    /// Address of the row
    pub address: u32,
    /// The four columns
    pub slots: Vec<Slot>,
}

/// Address of the first row of the dump of `[start, end)`: `start` rounded down to 16 bytes.
pub open spec fn first_row(start: u32) -> int {
    start - start % 16
}

/// Number of rows of the dump of `[start, end)`.
pub open spec fn row_count(start: u32, end: u32) -> int {
    if first_row(start) < end {
        (end - first_row(start) + 15) / 16
    } else {
        0
    }
}

/// The rows of the dump of the words in `[start, end)`, four to a row, rows aligned to 16
/// bytes; the word at `addr` is highlighted.
pub fn show_rows(addr: u32, start: u32, end: u32) -> (r: Vec<Row>)
    requires
        end <= 0xffff_fff0,
        start % 4 == 0,
    ensures
        r@.len() == row_count(start, end),
        forall|k: int| 0 <= k < r@.len() ==> {
            &&& (#[trigger] r@[k]).address == first_row(start) + 16 * k
            &&& r@[k].slots@.len() == 4
            &&& forall|j: int| 0 <= j < 4 ==> r@[k].slots@[j] == slot_spec(addr, start, end, first_row(start) + 16 * k + 4 * j)
        },
{
    let mut rows: Vec<Row> = Vec::new();
    let mut cursor = start & !0xf;
    assert(cursor == first_row(start)) by (bit_vector)
        requires
            cursor == start & !0xfu32,
    ;
    let ghost base = first_row(start);
    while cursor < end
        invariant
            end <= 0xffff_fff0,
            start % 4 == 0,
            base == first_row(start),
            base % 16 == 0,
            cursor == base + 16 * rows@.len(),
            rows@.len() > 0 ==> base + 16 * (rows@.len() - 1) < end,
            forall|k: int| 0 <= k < rows@.len() ==> {
                &&& (#[trigger] rows@[k]).address == base + 16 * k
                &&& rows@[k].slots@.len() == 4
                &&& forall|j: int| 0 <= j < 4 ==> rows@[k].slots@[j] == slot_spec(addr, start, end, base + 16 * k + 4 * j)
            },
        decreases end + 16 - cursor,
    {
        let row_address = cursor;
        let mut slots: Vec<Slot> = Vec::new();
        let mut j: u32 = 0;
        while j < 4
            invariant
                j <= 4,
                cursor == row_address + 4 * j,
                row_address < end <= 0xffff_fff0,
                start % 4 == 0,
                slots@.len() == j,
                forall|m: int| 0 <= m < j ==> slots@[m] == slot_spec(addr, start, end, row_address + 4 * m),
            decreases 4 - j,
        {
            if cursor >= start && cursor < end {
                slots.push(Slot::Word(((cursor - start) / 4) as usize, cursor == addr));
            } else {
                slots.push(Slot::Blank);
            }
            cursor = cursor + 4;
            j = j + 1;
        }
        rows.push(Row { address: row_address, slots });
    }
    proof {
        let n = rows@.len() as int;
        if base < end {
            assert(n > 0);
            assert(base + 16 * (n - 1) < end <= base + 16 * n);
            assert((end - base + 15) / 16 == n) by (nonlinear_arith)
                requires
                    base + 16 * (n - 1) < end,
                    end <= base + 16 * n,
            ;
        }
    }
    rows
}
/// `r` holds the messages of `ms`, each once (`r[k]` is `ms[idx[k]]`), ordered by timestamp,
/// those with equal timestamps in their order in `ms`.
pub open spec fn orders_messages(ms: Seq<(usize, Message)>, r: Seq<(usize, Message)>, idx: Seq<int>) -> bool {
    &&& idx.len() == ms.len()
    &&& r.len() == ms.len()
    &&& forall|k: int| 0 <= k < r.len() ==> 0 <= #[trigger] idx[k] < ms.len() && r[k] == ms[idx[k]]
    &&& forall|k: int, l: int| 0 <= k < l < r.len() ==> #[trigger] idx[k] != #[trigger] idx[l]
    &&& forall|k: int, l: int| 0 <= k < l < r.len() ==> (#[trigger] r[k]).1.timestamp < (#[trigger] r[l]).1.timestamp
        || (r[k].1.timestamp == r[l].1.timestamp && idx[k] < idx[l])
}

/// Orders the messages of the channels (each with the number of its channel) by their
/// timestamps; those with equal timestamps keep their order.
pub fn order_messages(ms: Vec<(usize, Message)>) -> (r: Vec<(usize, Message)>)
    ensures
        exists|idx: Seq<int>| orders_messages(ms@, r@, idx),
{
    let ghost orig = ms@;
    assert(orig.len() == ms.len());
    let mut rest = ms;
    let mut out: Vec<(usize, Message)> = Vec::new();
    let ghost mut idx: Seq<int> = Seq::empty();
    let mut i: usize = 0;
    assert(orig.skip(0) =~= orig);
    while rest.len() > 0
        invariant
            i <= orig.len(),
            orig.len() <= usize::MAX,
            rest@ == orig.skip(i as int),
            orders_messages(orig.take(i as int), out@, idx),
        decreases rest.len(),
    {
        let x = rest.remove(0);
        assert(rest@ =~= orig.skip(i + 1));
        let t = x.1.timestamp;
        let mut pos: usize = 0;
        while pos < out.len() && out[pos].1.timestamp <= t
            invariant
                pos <= out@.len(),
                forall|j: int| 0 <= j < pos ==> (#[trigger] out@[j]).1.timestamp <= t,
            decreases out.len() - pos,
        {
            pos = pos + 1;
        }
        let ghost o = out@;
        let ghost oi = idx;
        let ghost p = pos as int;
        out.insert(pos, x);
        proof {
            let ii = i as int;
            idx = oi.insert(p, ii);
            let pre = orig.take(ii);
            let pre1 = orig.take(ii + 1);
            assert(orig[ii] == x);
            assert forall|k: int| 0 <= k < out@.len() implies 0 <= #[trigger] idx[k] < pre1.len() && out@[k] == pre1[idx[k]] by {
                if k < p {
                    assert(out@[k] == o[k]);
                    assert(idx[k] == oi[k]);
                } else if k == p {
                } else {
                    assert(out@[k] == o[k - 1]);
                    assert(idx[k] == oi[k - 1]);
                }
            }
            assert forall|k: int, l: int| 0 <= k < l < out@.len() implies #[trigger] idx[k] != #[trigger] idx[l] by {
                if k < p && l < p {
                } else if k < p && l == p {
                    assert(idx[k] == oi[k]);
                } else if k < p {
                    assert(idx[k] == oi[k]);
                    assert(idx[l] == oi[l - 1]);
                } else if k == p {
                    assert(idx[l] == oi[l - 1]);
                } else {
                    assert(idx[k] == oi[k - 1]);
                    assert(idx[l] == oi[l - 1]);
                }
            }
            assert forall|k: int, l: int| 0 <= k < l < out@.len() implies (#[trigger] out@[k]).1.timestamp < (#[trigger] out@[l]).1.timestamp
                || (out@[k].1.timestamp == out@[l].1.timestamp && idx[k] < idx[l]) by {
                if l < p {
                    assert(out@[k] == o[k] && out@[l] == o[l]);
                    assert(idx[k] == oi[k] && idx[l] == oi[l]);
                } else if l == p {
                    assert(out@[k] == o[k]);
                    assert(idx[k] == oi[k]);
                } else if k < p {
                    assert(out@[k] == o[k] && out@[l] == o[l - 1]);
                    assert(idx[k] == oi[k] && idx[l] == oi[l - 1]);
                    assert(o[p].1.timestamp > t);
                    if p < l - 1 {
                        assert(o[p].1.timestamp < o[l - 1].1.timestamp || o[p].1.timestamp == o[l - 1].1.timestamp);
                    }
                } else if k == p {
                    assert(out@[l] == o[l - 1]);
                    assert(o[p].1.timestamp > t);
                    if p < l - 1 {
                        assert(o[p].1.timestamp < o[l - 1].1.timestamp || o[p].1.timestamp == o[l - 1].1.timestamp);
                    }
                } else {
                    assert(out@[k] == o[k - 1] && out@[l] == o[l - 1]);
                    assert(idx[k] == oi[k - 1] && idx[l] == oi[l - 1]);
                }
            }
            assert(orders_messages(pre1, out@, idx));
        }
        i = i + 1;
    }
    assert(orig.take(i as int) =~= orig);
    out
}

} // verus!
