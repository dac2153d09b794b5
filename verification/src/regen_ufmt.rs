//! The adapters that the generated register API shows bitfields with: binary for fields of up to
//! three bits, hexadecimal with as many digits as the field needs above that. Each shows the
//! lowest digits of its value, zero-padded to its width.
use vstd::prelude::*;

use crate::text::{append_chars, fixed_chars, fixed_digits, string_of};

verus! {

/// `0b` followed by the lowest `width` binary digits of `x`.
pub open spec fn bin_text(x: nat, width: nat) -> Seq<char> {
    seq!['0', 'b'] + fixed_digits(x, 2, width)
}

/// `0x` followed by the lowest `width` hexadecimal digits of `x`.
pub open spec fn hex_text(x: nat, width: nat) -> Seq<char> {
    seq!['0', 'x'] + fixed_digits(x, 16, width)
}

/// `0x`, the lowest `high` hexadecimal digits of the upper half of `x`, `_`, then the four
/// digits of its lower half.
pub open spec fn split_hex_text(x: u32, high: nat) -> Seq<char> {
    seq!['0', 'x'] + fixed_digits((x >> 16u32) as u16 as nat, 16, high) + seq!['_']
        + fixed_digits(x as u16 as nat, 16, 4)
}

fn prefixed(a: char, b: char, digits: Vec<char>) -> (r: String)
    ensures
        r@ == seq![a, b] + digits@,
{
    let mut v = vec![a, b];
    append_chars(&mut v, &digits);
    assert(v@ =~= seq![a, b] + digits@);
    string_of(&v)
}

fn split_hex(x: u32, high: usize) -> (r: String)
    ensures
        r@ == split_hex_text(x, high as nat),
{
    let mut v = vec!['0', 'x'];
    append_chars(&mut v, &fixed_chars((x >> 16u32) as u16 as u64, 16, high));
    v.push('_');
    append_chars(&mut v, &fixed_chars(x as u16 as u64, 16, 4));
    assert(v@ =~= split_hex_text(x, high as nat));
    string_of(&v)
}

/// A one-bit field
pub struct Bin1(pub u8);

impl Bin1 {
    /// `0` for zero, `1` otherwise.
    pub fn to_string(&self) -> (r: String)
        ensures
            r@ == (if self.0 == 0 { seq!['0'] } else { seq!['1'] }),
    {
        let v = if self.0 == 0 { vec!['0'] } else { vec!['1'] };
        assert(v@ =~= (if self.0 == 0 { seq!['0'] } else { seq!['1'] }));
        string_of(&v)
    }
}

/// A two-bit field
pub struct Bin2(pub u8);

impl Bin2 {
    /// `0b` and two binary digits.
    pub fn to_string(&self) -> (r: String)
        ensures
            r@ == bin_text(self.0 as nat, 2),
    {
        prefixed('0', 'b', fixed_chars(self.0 as u64, 2, 2))
    }
}

/// A three-bit field
pub struct Bin3(pub u8);

impl Bin3 {
    /// `0b` and three binary digits.
    pub fn to_string(&self) -> (r: String)
        ensures
            r@ == bin_text(self.0 as nat, 3),
    {
        prefixed('0', 'b', fixed_chars(self.0 as u64, 2, 3))
    }
}

/// A field of up to four bits
pub struct Hex1(pub u8);

impl Hex1 {
    /// `0x` and one hexadecimal digit.
    pub fn to_string(&self) -> (r: String)
        ensures
            r@ == hex_text(self.0 as nat, 1),
    {
        prefixed('0', 'x', fixed_chars(self.0 as u64, 16, 1))
    }
}

/// A field of up to eight bits
pub struct Hex2(pub u8);

impl Hex2 {
    /// `0x` and two hexadecimal digits.
    pub fn to_string(&self) -> (r: String)
        ensures
            r@ == hex_text(self.0 as nat, 2),
    {
        prefixed('0', 'x', fixed_chars(self.0 as u64, 16, 2))
    }
}

/// A field of up to twelve bits
pub struct Hex3(pub u16);

impl Hex3 {
    /// `0x` and three hexadecimal digits.
    pub fn to_string(&self) -> (r: String)
        ensures
            r@ == hex_text(self.0 as nat, 3),
    {
        prefixed('0', 'x', fixed_chars(self.0 as u64, 16, 3))
    }
}

/// A field of up to sixteen bits
pub struct Hex4(pub u16);

impl Hex4 {
    /// `0x` and four hexadecimal digits.
    pub fn to_string(&self) -> (r: String)
        ensures
            r@ == hex_text(self.0 as nat, 4),
    {
        prefixed('0', 'x', fixed_chars(self.0 as u64, 16, 4))
    }
}

/// A field of up to 24 bits
pub struct Hex6(pub u32);

impl Hex6 {
    /// `0x`, two digits, `_`, four digits.
    pub fn to_string(&self) -> (r: String)
        ensures
            r@ == split_hex_text(self.0, 2),
    {
        split_hex(self.0, 2)
    }
}

/// A field of up to 28 bits
pub struct Hex7(pub u32);

impl Hex7 {
    /// `0x`, three digits, `_`, four digits.
    pub fn to_string(&self) -> (r: String)
        ensures
            r@ == split_hex_text(self.0, 3),
    {
        split_hex(self.0, 3)
    }
}

/// A field of up to 32 bits
pub struct Hex8(pub u32);

impl Hex8 {
    /// `0x`, four digits, `_`, four digits.
    pub fn to_string(&self) -> (r: String)
        ensures
            r@ == split_hex_text(self.0, 4),
    {
        split_hex(self.0, 4)
    }
}

} // verus!
