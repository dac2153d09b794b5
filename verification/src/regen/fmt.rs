//! Hexadecimal rendering of register offsets and masks.
use vstd::prelude::*;

use crate::text::{append_chars, pad_left, pad_left_chars, radix_chars, radix_digits, string_of};

verus! {

/// A number to be shown in hexadecimal.
pub struct Hex<T>(pub T);

/// `0x` followed by the hexadecimal digits of `x`, zero-padded to `width` digits.
pub open spec fn hex_padded(x: nat, width: nat) -> Seq<char> {
    seq!['0', 'x'] + pad_left(radix_digits(x, 16), width, '0')
}

/// The text of a byte: `0x` and two digits.
pub open spec fn hex_u8_text(x: u8) -> Seq<char> {
    hex_padded(x as nat, 2)
}

/// The text of a number up to 32 bits: as a byte up to `0xff`, as four digits up to `0xffff`,
/// and above that as two groups of four digits separated by `_`.
pub open spec fn hex_u64_text(x: u64) -> Seq<char> {
    if x <= 0xff {
        hex_u8_text(x as u8)
    } else if x <= 0xffff {
        hex_padded(x as nat, 4)
    } else {
        hex_padded((x >> 16) as nat, 4) + seq!['_'] + pad_left(radix_digits((x as u16) as nat, 16), 4, '0')
    }
}

fn hex_chars(x: u64, width: usize) -> (r: Vec<char>)
    ensures
        r@ == hex_padded(x as nat, width as nat),
{
    let mut r: Vec<char> = Vec::new();
    r.push('0');
    r.push('x');
    let d = radix_chars(x, 16);
    let p = pad_left_chars(&d, width, '0');
    append_chars(&mut r, &p);
    assert(r@ =~= hex_padded(x as nat, width as nat));
    r
}

impl Hex<u8> {
    /// `0x` and the two hexadecimal digits of the byte.
    pub fn to_string(&self) -> (r: String)
        ensures
            r@ == hex_u8_text(self.0),
    {
        string_of(&hex_chars(self.0 as u64, 2))
    }
}

impl Hex<u64> {
    /// The number in hexadecimal, as `hex_u64_text` lays it out; numbers above 32 bits are not
    /// supported.
    pub fn to_string(&self) -> (r: String)
        requires
            self.0 <= 0xffff_ffff,
        ensures
            r@ == hex_u64_text(self.0),
    {
        let x = self.0;
        if x <= 0xff {
            Hex(x as u8).to_string()
        } else if x <= 0xffff {
            string_of(&hex_chars(x, 4))
        } else {
            let mut v = hex_chars(x >> 16, 4);
            v.push('_');
            let low = radix_chars((x as u16) as u64, 16);
            let p = pad_left_chars(&low, 4, '0');
            append_chars(&mut v, &p);
            assert(v@ =~= hex_u64_text(x));
            string_of(&v)
        }
    }
}

} // verus!
