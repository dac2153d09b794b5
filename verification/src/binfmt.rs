//! Binary, compressed encoding of log messages and of the values they carry.
use vstd::prelude::*;

pub mod macros;

verus! {

/// Kind of the item that follows in a `binfmt` stream.
#[derive(Clone, Copy, PartialEq, Eq, Debug)]
pub enum Tag {
    Error,
    Warn,
    Info,
    Debug,
    Trace,
    Footprint,
    Unsigned,
    Signed,
    F32,
    Pointer,
    Register,
    Bytes,
    CLikeEnum,
}

/// The byte that stands for each tag on the wire.
pub open spec fn tag_byte(t: Tag) -> u8 {
    match t {
        Tag::Error => 0,
        Tag::Warn => 1,
        Tag::Info => 2,
        Tag::Debug => 3,
        Tag::Trace => 4,
        Tag::Footprint => 5,
        Tag::Unsigned => 6,
        Tag::Signed => 7,
        Tag::F32 => 8,
        Tag::Pointer => 9,
        Tag::Register => 10,
        Tag::Bytes => 11,
        Tag::CLikeEnum => 12,
    }
}

/// The tag that a byte stands for, if any.
pub open spec fn tag_of(byte: u8) -> Option<Tag> {
    if byte == 0 {
        Some(Tag::Error)
    } else if byte == 1 {
        Some(Tag::Warn)
    } else if byte == 2 {
        Some(Tag::Info)
    } else if byte == 3 {
        Some(Tag::Debug)
    } else if byte == 4 {
        Some(Tag::Trace)
    } else if byte == 5 {
        Some(Tag::Footprint)
    } else if byte == 6 {
        Some(Tag::Unsigned)
    } else if byte == 7 {
        Some(Tag::Signed)
    } else if byte == 8 {
        Some(Tag::F32)
    } else if byte == 9 {
        Some(Tag::Pointer)
    } else if byte == 10 {
        Some(Tag::Register)
    } else if byte == 11 {
        Some(Tag::Bytes)
    } else if byte == 12 {
        Some(Tag::CLikeEnum)
    } else {
        None
    }
}

impl Tag {
    /// Decodes a tag byte; `None` for bytes that stand for no tag.
    pub fn from(byte: u8) -> (r: Option<Tag>)
        ensures
            r == tag_of(byte),
    {
        match byte {
            0 => Some(Tag::Error),
            1 => Some(Tag::Warn),
            2 => Some(Tag::Info),
            3 => Some(Tag::Debug),
            4 => Some(Tag::Trace),
            5 => Some(Tag::Footprint),
            6 => Some(Tag::Unsigned),
            7 => Some(Tag::Signed),
            8 => Some(Tag::F32),
            9 => Some(Tag::Pointer),
            10 => Some(Tag::Register),
            11 => Some(Tag::Bytes),
            12 => Some(Tag::CLikeEnum),
            _ => None,
        }
    }

    /// The byte that stands for this tag on the wire.
    pub fn byte(&self) -> (r: u8)
        ensures
            r == tag_byte(*self),
    {
        match self {
            Tag::Error => 0,
            Tag::Warn => 1,
            Tag::Info => 2,
            Tag::Debug => 3,
            Tag::Trace => 4,
            Tag::Footprint => 5,
            Tag::Unsigned => 6,
            Tag::Signed => 7,
            Tag::F32 => 8,
            Tag::Pointer => 9,
            Tag::Register => 10,
            Tag::Bytes => 11,
            Tag::CLikeEnum => 12,
        }
    }
}

/// Log level of a message; its byte is that of the tag of the same name.
#[derive(Clone, Copy, PartialEq, Eq, Debug)]
pub enum Level {
    Error,
    Warn,
    Info,
    Debug,
    Trace,
}

/// The byte that stands for each level on the wire.
pub open spec fn level_byte(l: Level) -> u8 {
    match l {
        Level::Error => 0,
        Level::Warn => 1,
        Level::Info => 2,
        Level::Debug => 3,
        Level::Trace => 4,
    }
}

impl Level {
    /// The byte that stands for this level on the wire.
    pub fn byte(&self) -> (r: u8)
        ensures
            r == level_byte(*self),
    {
        match self {
            Level::Error => 0,
            Level::Warn => 1,
            Level::Info => 2,
            Level::Debug => 3,
            Level::Trace => 4,
        }
    }
}

/// The zigzag code of a signed number: non-negative `x` maps to `2x`, negative `x` to `-2x - 1`.
pub open spec fn zigzag_spec(x: int) -> int {
    if x >= 0 {
        2 * x
    } else {
        -2 * x - 1
    }
}

/// Maps a signed integer onto an unsigned one so that small magnitudes get small codes.
pub fn zigzag(x: i32) -> (r: u32)
    ensures
        r == zigzag_spec(x as int),
{
    let r = ((x as u32) << 1u32) ^ ((x >> 31u32) as u32);
    assert(r == (if x >= 0 { 2 * x } else { -2 * x - 1 })) by (bit_vector)
        requires
            r == ((x as u32) << 1u32) ^ ((x >> 31u32) as u32),
    ;
    r
}

/// Marks a LEB128 byte that is followed by another.
pub const CONTINUE: u8 = 0x80;

/// The unsigned LEB128 encoding of `w`: seven bits per byte, least significant group first,
/// every byte but the last with its top bit set.
pub open spec fn leb128_encoding(w: nat) -> Seq<u8>
    decreases w,
{
    if w < 128 {
        seq![w as u8]
    } else {
        seq![(w % 128 + 128) as u8] + leb128_encoding(w / 128)
    }
}

/// The bytes that stand for the symbol address `sym`: one byte below 127, two otherwise.
pub open spec fn sym_encoding(sym: u16) -> Seq<u8> {
    if sym < 127 {
        seq![sym as u8]
    } else {
        seq![(sym % 128 + 128) as u8, ((sym / 128) % 256) as u8]
    }
}

/// A sink of `binfmt` bytes.
#[allow(non_camel_case_types)]
pub trait binWrite: Sized {
    /// Everything written so far.
    spec fn written(&self) -> Seq<u8>;

    /// Appends one byte.
    fn write_byte(&mut self, byte: u8)
        ensures
            final(self).written() == old(self).written().push(byte),
    ;

    /// Appends the given bytes.
    fn write(&mut self, bytes: &[u8])
        ensures
            final(self).written() == old(self).written() + bytes@,
    ;

    /// Appends the LEB128 encoding of `word`.
    fn leb128_write(&mut self, word_in: u32)
        ensures
            final(self).written() == old(self).written() + leb128_encoding(word_in as nat),
    {
        let mut word = word_in;
        let ghost start = self.written();
        let ghost orig = word;
        let ghost mut done: Seq<u8> = Seq::empty();
        assert(done + leb128_encoding(word as nat) =~= leb128_encoding(orig as nat));
        loop
            invariant
                self.written() == start + done,
                done + leb128_encoding(word as nat) == leb128_encoding(orig as nat),
                start == old(self).written(),
                orig == word_in,
            decreases word,
        {
            let ghost w = word;
            let mut byte = (word & 0x7f) as u8;
            assert((w & 0x7f) as u8 == w % 128 && w >> 7 == w / 128) by (bit_vector);
            word = word >> 7;
            if word != 0 {
                assert(byte < 128 ==> byte | 0x80 == byte + 128) by (bit_vector);
                byte = byte | CONTINUE;
            }
            self.write_byte(byte);
            if word == 0 {
                assert(leb128_encoding(w as nat) == seq![byte]);
                assert(self.written() =~= start + leb128_encoding(orig as nat));
                return;
            }
            assert(leb128_encoding(w as nat) == seq![byte] + leb128_encoding(word as nat));
            assert((done.push(byte) + leb128_encoding(word as nat)) =~= done + leb128_encoding(w as nat));
            proof {
                done = done.push(byte);
            }
            assert(self.written() =~= start + done);
        }
    }

    /// Appends the encoding of the symbol address `sym`.
    fn write_sym(&mut self, sym: u16)
        ensures
            final(self).written() == old(self).written() + sym_encoding(sym),
    {
        let ghost start = self.written();
        if sym < 127 {
            self.write_byte(sym as u8);
            assert(self.written() =~= start + sym_encoding(sym));
        } else {
            let b0 = (sym as u8) | CONTINUE;
            let b1 = (sym >> 7u16) as u8;
            assert(b0 == (sym % 128 + 128) as u8 && b1 == ((sym / 128) % 256) as u8) by (bit_vector)
                requires
                    b0 == (sym as u8) | 0x80u8,
                    b1 == (sym >> 7u16) as u8,
            ;
            self.write_byte(b0);
            self.write_byte(b1);
            assert(self.written() =~= start + sym_encoding(sym));
        }
    }
}

impl binWrite for Vec<u8> {
    open spec fn written(&self) -> Seq<u8> {
        self@
    }

    fn write_byte(&mut self, byte: u8) {
        self.push(byte);
    }

    fn write(&mut self, bytes: &[u8]) {
        let ghost start = self@;
        let mut i: usize = 0;
        while i < bytes.len()
            invariant
                i <= bytes.len(),
                self@ == start + bytes@.take(i as int),
            decreases bytes.len() - i,
        {
            self.push(bytes[i]);
            i = i + 1;
            assert(self@ =~= start + bytes@.take(i as int));
        }
        assert(bytes@.take(i as int) =~= bytes@);
    }
}

/// What a value writes when it is logged: its tag, then its payload.
#[allow(non_camel_case_types)]
pub trait binDebug {
    /// The bytes that `fmt` writes for this value.
    spec fn encoding(&self) -> Seq<u8>;

    /// Writes the encoding of this value.
    fn fmt<W: binWrite>(&self, f: &mut W)
        ensures
            final(f).written() == old(f).written() + self.encoding(),
    ;
}

/// The encoding of an unsigned value.
pub open spec fn unsigned_encoding(x: nat) -> Seq<u8> {
    seq![6u8] + leb128_encoding(x)
}

/// The encoding of a signed value.
pub open spec fn signed_encoding(x: int) -> Seq<u8> {
    seq![7u8] + leb128_encoding(zigzag_spec(x) as nat)
}

impl binDebug for u32 {
    open spec fn encoding(&self) -> Seq<u8> {
        unsigned_encoding(*self as nat)
    }

    fn fmt<W: binWrite>(&self, f: &mut W) {
        let ghost start = f.written();
        f.write_byte(Tag::Unsigned.byte());
        f.leb128_write(*self);
        assert(f.written() =~= start + self.encoding());
    }
}

impl binDebug for u16 {
    open spec fn encoding(&self) -> Seq<u8> {
        unsigned_encoding(*self as nat)
    }

    fn fmt<W: binWrite>(&self, f: &mut W) {
        (*self as u32).fmt(f)
    }
}

impl binDebug for u8 {
    open spec fn encoding(&self) -> Seq<u8> {
        unsigned_encoding(*self as nat)
    }

    fn fmt<W: binWrite>(&self, f: &mut W) {
        (*self as u32).fmt(f)
    }
}

impl binDebug for i32 {
    open spec fn encoding(&self) -> Seq<u8> {
        signed_encoding(*self as int)
    }

    fn fmt<W: binWrite>(&self, f: &mut W) {
        let ghost start = f.written();
        f.write_byte(Tag::Signed.byte());
        f.leb128_write(zigzag(*self));
        assert(f.written() =~= start + self.encoding());
    }
}

impl binDebug for i16 {
    open spec fn encoding(&self) -> Seq<u8> {
        signed_encoding(*self as int)
    }

    fn fmt<W: binWrite>(&self, f: &mut W) {
        (*self as i32).fmt(f)
    }
}

impl binDebug for i8 {
    open spec fn encoding(&self) -> Seq<u8> {
        signed_encoding(*self as int)
    }

    fn fmt<W: binWrite>(&self, f: &mut W) {
        (*self as i32).fmt(f)
    }
}

} // verus!
