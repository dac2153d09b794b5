//! Host-side decoding of `binfmt` streams and formatting of the decoded messages.
use vstd::prelude::*;
use vstd::arithmetic::power2::pow2;
use vstd::bits::low_bits_mask;
use std::collections::BTreeMap;

use crate::binfmt::{leb128_encoding, tag_of, zigzag_spec, Level, Tag, CONTINUE};
use crate::text::{
    append_chars, chars_of, find_char, find_in, pad_left, pad_left_chars, parse_unsigned,
    parse_unsigned_chars, radix_chars, radix_digits, signed_decimal, signed_decimal_chars, string_of,
};

verus! {

/// End of Stream: the bytes end before the item does.
#[derive(Debug, PartialEq, Eq)]
pub struct EoS;

/// Outcome of decoding a LEB128 number from the front of a byte sequence.
pub enum Leb {
    /// The value (wrapped to 32 bits) and the number of bytes it takes.
    Value(u32, nat),
    /// The bytes end before the number does.
    EoS,
    /// Five continuation bytes followed by more input: the decoder's shift would overflow.
    Malformed,
}

/// The value of the seven-bit groups of `s`, least significant first.
pub open spec fn leb_value(s: Seq<u8>) -> nat
    decreases s.len(),
{
    if s.len() == 0 {
        0
    } else {
        (s[0] % 128) as nat + 128 * leb_value(s.drop_first())
    }
}

/// Index of the first byte of `s` without the continuation bit.
pub open spec fn first_clear(s: Seq<u8>) -> Option<nat>
    decreases s.len(),
{
    if s.len() == 0 {
        None
    } else if s[0] < 128 {
        Some(0)
    } else {
        match first_clear(s.drop_first()) {
            Some(k) => Some(k + 1),
            None => None,
        }
    }
}

/// `128` to the power `n`.
pub open spec fn pow128(n: nat) -> nat
    decreases n,
{
    if n == 0 {
        1
    } else {
        128 * pow128((n - 1) as nat)
    }
}

/// What the LEB128 decoder makes of the front of `s`.
pub open spec fn leb_decode(s: Seq<u8>) -> Leb {
    if s.len() >= 6 && s[0] >= 128 && s[1] >= 128 && s[2] >= 128 && s[3] >= 128 && s[4] >= 128 {
        Leb::Malformed
    } else {
        match first_clear(s) {
            Some(k) => Leb::Value((leb_value(s.take(k as int + 1)) % 0x1_0000_0000) as u32, k + 1),
            None => Leb::EoS,
        }
    }
}

proof fn lemma_leb_value_step(s: Seq<u8>, i: nat)
    requires
        i < s.len(),
    ensures
        leb_value(s.take(i as int + 1)) == leb_value(s.take(i as int)) + (s[i as int] % 128) as nat * pow128(i),
    decreases i,
{
    let t1 = s.take(i as int + 1);
    if i == 0 {
        assert(t1.drop_first() =~= Seq::<u8>::empty());
        assert(leb_value(t1.drop_first()) == 0);
        assert(leb_value(t1) == (s[0] % 128) as nat);
        assert(s.take(0) =~= Seq::<u8>::empty());
        assert(leb_value(s.take(0)) == 0);
        assert(pow128(0) == 1);
    } else {
        let t0 = s.take(i as int);
        lemma_leb_value_step(s.drop_first(), (i - 1) as nat);
        assert(t1.drop_first() =~= s.drop_first().take(i as int));
        assert(t0.drop_first() =~= s.drop_first().take(i - 1));
        assert(s.drop_first()[i - 1] == s[i as int]);
        let a = leb_value(s.drop_first().take(i - 1));
        let d = (s[i as int] % 128) as nat;
        let p = pow128((i - 1) as nat);
        assert(leb_value(t1) == (s[0] % 128) as nat + 128 * (a + d * p));
        assert(leb_value(t0) == (s[0] % 128) as nat + 128 * a);
        assert(pow128(i) == 128 * p);
        assert(128 * (a + d * p) == 128 * a + d * (128 * p)) by (nonlinear_arith);
    }
}

proof fn lemma_pow128_small(k: nat)
    requires
        k <= 4,
    ensures
        pow128(k) <= 0x1000_0000,
{
    reveal_with_fuel(pow128, 5);
}

proof fn lemma_leb_value_bound(s: Seq<u8>)
    ensures
        leb_value(s) < pow128(s.len()),
    decreases s.len(),
{
    if s.len() > 0 {
        lemma_leb_value_bound(s.drop_first());
        let r = leb_value(s.drop_first());
        let p = pow128(s.drop_first().len());
        assert((s[0] % 128) as nat + 128 * r < 128 * p) by (nonlinear_arith)
            requires r < p, (s[0] % 128) < 128;
    }
}

proof fn lemma_first_clear(s: Seq<u8>, i: nat)
    requires
        i <= s.len(),
        forall|j: int| 0 <= j < i ==> s[j] >= 128,
    ensures
        i < s.len() && s[i as int] < 128 ==> first_clear(s) == Some(i),
        i == s.len() ==> first_clear(s) is None,
    decreases i,
{
    if i > 0 {
        lemma_first_clear(s.drop_first(), (i - 1) as nat);
    }
}

proof fn lemma_or_shift(val: u32, x: u32, i: u32)
    requires
        i <= 4,
        x < 128,
        val < pow128(i as nat),
    ensures
        val | (x << (7 * i)) == ((val + x * pow128(i as nat)) % 0x1_0000_0000) as u32,
{
    reveal_with_fuel(pow128, 5);
    if i == 0 {
        assert(val | (x << 0u32) == x) by (bit_vector) requires val < 1;
    } else if i == 1 {
        assert(val | (x << 7u32) == val + x * 128) by (bit_vector) requires val < 128, x < 128;
    } else if i == 2 {
        assert(val | (x << 14u32) == val + x * 0x4000) by (bit_vector) requires val < 0x4000, x < 128;
    } else if i == 3 {
        assert(val | (x << 21u32) == val + x * 0x20_0000) by (bit_vector) requires val < 0x20_0000, x < 128;
    } else {
        assert(val | (x << 28u32) == (val + x * 0x1000_0000) % 0x1_0000_0000) by (bit_vector)
            requires val < 0x1000_0000, x < 128;
    }
}

/// Decodes a LEB128-encoded `u32` from the front of `bytes`; also returns how many bytes it took.
pub fn leb128_decode_u32(bytes: &[u8]) -> (r: Result<(u32, usize), EoS>)
    requires
        !(leb_decode(bytes@) is Malformed),
    ensures
        match leb_decode(bytes@) {
            Leb::Value(v, n) => r == Ok::<(u32, usize), EoS>((v, n as usize)),
            _ => r is Err,
        },
{
    let mut val: u32 = 0;
    let mut i: usize = 0;
    while i < bytes.len()
        invariant
            i <= bytes.len(),
            i <= 5,
            !(leb_decode(bytes@) is Malformed),
            forall|j: int| 0 <= j < i ==> bytes@[j] >= 128,
            val as nat == leb_value(bytes@.take(i as int)) % 0x1_0000_0000,
            i <= 4 ==> val as nat == leb_value(bytes@.take(i as int)),
            i <= 4 ==> leb_value(bytes@.take(i as int)) < pow128(i as nat),
        decreases bytes.len() - i,
    {
        assert(i <= 4);
        let b = bytes[i];
        let x = (b & 0x7f) as u32;
        assert(x == b % 128) by (bit_vector) requires x == (b & 0x7f) as u32;
        proof {
            lemma_leb_value_step(bytes@, i as nat);
            lemma_or_shift(val, x, i as u32);
            lemma_leb_value_bound(bytes@.take(i as int + 1));
            lemma_pow128_small(i as nat);
            if i < 4 {
                lemma_pow128_small(i as nat + 1);
            }
        }
        val = val | (x << (7 * i as u32));
        if b & CONTINUE == 0 {
            assert(b < 128) by (bit_vector) requires b & 0x80 == 0;
            proof {
                lemma_first_clear(bytes@, i as nat);
            }
            return Ok((val, i + 1));
        }
        assert(b >= 128) by (bit_vector) requires b & 0x80 != 0;
        i = i + 1;
    }
    proof {
        lemma_first_clear(bytes@, i as nat);
    }
    Err(EoS)
}

/// Decodes a LEB128-encoded `u32` from the front of `bytes`, reporting input on which
/// `leb128_decode_u32` would not return.
pub fn decode_leb(bytes: &[u8]) -> (r: Decoded<u32>)
    ensures
        match leb_decode(bytes@) {
            Leb::Value(v, n) => r == Decoded::Done(v, n as usize),
            Leb::EoS => r is EoS,
            Leb::Malformed => r is Malformed,
        },
{
    if bytes.len() >= 6 && bytes[0] >= 128 && bytes[1] >= 128 && bytes[2] >= 128 && bytes[3] >= 128
        && bytes[4] >= 128 {
        return Decoded::Malformed;
    }
    match leb128_decode_u32(bytes) {
        Ok((v, n)) => Decoded::Done(v, n),
        Err(_) => Decoded::EoS,
    }
}

/// The signed number whose zigzag code is `x`.
pub open spec fn unzigzag_spec(x: nat) -> int {
    if x % 2 == 0 {
        (x / 2) as int
    } else {
        -((x / 2) as int) - 1
    }
}

/// Inverse of `zigzag`.
pub fn unzigzag(x: u32) -> (r: i32)
    ensures
        r == unzigzag_spec(x as nat),
{
    let r = ((0u32.wrapping_sub(x & 1)) ^ (x >> 1u32)) as i32;
    assert(r == (if x % 2 == 0 { (x / 2) as int } else { -((x / 2) as int) - 1 })) by (bit_vector)
        requires
            r == ((0u32.wrapping_sub(x & 1)) ^ (x >> 1u32)) as i32,
    ;
    r
}

proof fn lemma_encoding_shape(n: nat, rest: Seq<u8>)
    ensures
        leb128_encoding(n).len() >= 1,
        first_clear(leb128_encoding(n) + rest) == Some((leb128_encoding(n).len() - 1) as nat),
        leb_value(leb128_encoding(n)) == n,
        forall|j: int| 0 <= j < leb128_encoding(n).len() - 1 ==> #[trigger] leb128_encoding(n)[j] >= 128,
    decreases n,
{
    let e = leb128_encoding(n);
    if n < 128 {
        assert(e == seq![n as u8]);
        assert((e + rest)[0] == n as u8);
        assert(e.drop_first() =~= Seq::<u8>::empty());
        assert(leb_value(e.drop_first()) == 0);
        assert(leb_value(e) == (n as u8 % 128) as nat);
    } else {
        lemma_encoding_shape(n / 128, rest);
        let t = leb128_encoding(n / 128);
        assert(e == seq![(n % 128 + 128) as u8] + t);
        assert((e + rest).drop_first() =~= t + rest);
        assert(e.drop_first() =~= t);
        assert(((n % 128 + 128) as u8) % 128 == n % 128);
        assert(leb_value(e) == n % 128 + 128 * (n / 128));
        assert forall|j: int| 0 <= j < e.len() - 1 implies #[trigger] e[j] >= 128 by {
            if j > 0 {
                assert(e[j] == t[j - 1]);
            }
        }
    }
}

proof fn lemma_first_clear_some(s: Seq<u8>)
    ensures
        first_clear(s) matches Some(k) ==> k < s.len() && s[k as int] < 128,
    decreases s.len(),
{
    if s.len() > 0 && s[0] >= 128 {
        lemma_first_clear_some(s.drop_first());
    }
}

proof fn lemma_encoding_len(n: nat, k: nat)
    requires
        k >= 1,
        n < pow128(k),
    ensures
        leb128_encoding(n).len() <= k,
    decreases n,
{
    if n >= 128 {
        assert(k >= 2) by {
            if k == 1 {
                assert(pow128(1) == 128) by { reveal_with_fuel(pow128, 2); }
            }
        }
        assert(n / 128 < pow128((k - 1) as nat)) by (nonlinear_arith)
            requires n < pow128(k), pow128(k) == 128 * pow128((k - 1) as nat);
        lemma_encoding_len(n / 128, (k - 1) as nat);
    }
}

proof fn lemma_encoding_len_exact(n: nat)
    ensures
        leb128_encoding(n).len() >= 1,
        n < pow128(leb128_encoding(n).len()),
        leb128_encoding(n).len() > 1 ==> n >= pow128((leb128_encoding(n).len() - 1) as nat),
    decreases n,
{
    let l = leb128_encoding(n).len();
    if n < 128 {
        assert(pow128(1) == 128) by { reveal_with_fuel(pow128, 2); }
    } else {
        let m = n / 128;
        lemma_encoding_len_exact(m);
        let k = leb128_encoding(m).len();
        assert(l == k + 1);
        assert(pow128(l) == 128 * pow128(k));
        assert(n < pow128(l)) by (nonlinear_arith)
            requires m < pow128(k), m == n / 128, pow128(l) == 128 * pow128(k);
        if k > 1 {
            assert(pow128(k) == 128 * pow128((k - 1) as nat));
            assert(n >= pow128(k)) by (nonlinear_arith)
                requires m >= pow128((k - 1) as nat), m == n / 128, pow128(k) == 128 * pow128((k - 1) as nat);
        } else {
            assert(pow128(1) == 128) by { reveal_with_fuel(pow128, 2); }
        }
    }
}

/// `binWrite::leb128_write` writes a 32-bit number in as few bytes as hold it: one to five, the
/// fewest `k` with `w < 128^k` (at least one byte, also for zero), that is, one byte per seven
/// significant bits.
pub proof fn leb128_length(w: u32)
    ensures
        1 <= leb128_encoding(w as nat).len() <= 5,
        (w as nat) < pow128(leb128_encoding(w as nat).len()),
        leb128_encoding(w as nat).len() > 1 ==> (w as nat) >= pow128((leb128_encoding(w as nat).len() - 1) as nat),
{
    lemma_encoding_len_exact(w as nat);
    reveal_with_fuel(pow128, 6);
    lemma_encoding_len(w as nat, 5);
}

/// A 32-bit number written with `binWrite::leb128_write` decodes to itself with
/// `leb128_decode_u32`, whatever follows it, and the decoder takes exactly the bytes written.
pub proof fn leb128_roundtrip(w: u32, rest: Seq<u8>)
    ensures
        leb_decode(leb128_encoding(w as nat) + rest) == Leb::Value(w, leb128_encoding(w as nat).len()),
{
    let e = leb128_encoding(w as nat);
    let s = e + rest;
    lemma_encoding_shape(w as nat, rest);
    reveal_with_fuel(pow128, 6);
    lemma_encoding_len(w as nat, 5);
    assert(s.take(e.len() as int) =~= e);
    lemma_first_clear_some(s);
    if s.len() >= 6 && s[0] >= 128 && s[1] >= 128 && s[2] >= 128 && s[3] >= 128 && s[4] >= 128 {
        assert(s[e.len() - 1] < 128);
        assert(false);
    }
}

/// An unsigned value logged with `binDebug::fmt` is decoded by the host as that value, whatever
/// follows it, and the decoder takes exactly the bytes written.
pub proof fn unsigned_roundtrip(x: u32, rest: Seq<u8>, fp: Map<u64, String>)
    ensures
        spec_node(crate::binfmt::unsigned_encoding(x as nat) + rest, fp)
            == Parsed::Done(NodeV::U32(x), crate::binfmt::unsigned_encoding(x as nat).len()),
{
    let e = leb128_encoding(x as nat);
    let s = crate::binfmt::unsigned_encoding(x as nat) + rest;
    leb128_roundtrip(x, rest);
    assert(s.skip(1) =~= e + rest);
    assert(s[0] == 6u8);
}

/// A signed value logged with `binDebug::fmt` is decoded by the host as that value, whatever
/// follows it, and the decoder takes exactly the bytes written.
pub proof fn signed_roundtrip(x: i32, rest: Seq<u8>, fp: Map<u64, String>)
    ensures
        spec_node(crate::binfmt::signed_encoding(x as int) + rest, fp)
            == Parsed::Done(NodeV::I32(x), crate::binfmt::signed_encoding(x as int).len()),
{
    let z = crate::binfmt::zigzag_spec(x as int);
    let w = z as u32;
    assert(w as nat == z);
    let e = leb128_encoding(w as nat);
    let s = crate::binfmt::signed_encoding(x as int) + rest;
    leb128_roundtrip(w, rest);
    assert(s.skip(1) =~= e + rest);
    assert(s[0] == 7u8);
    zigzag_roundtrip(x);
}

/// A symbol address written with `binWrite::write_sym` is read back by the LEB128 decoder, which
/// the host uses for footprint keys, as long as it is below `2^14`: the second byte of larger
/// addresses carries a continuation bit.
pub proof fn sym_roundtrip(sym: u16, rest: Seq<u8>)
    requires
        sym < 0x4000,
    ensures
        leb_decode(crate::binfmt::sym_encoding(sym) + rest)
            == Leb::Value(sym as u32, crate::binfmt::sym_encoding(sym).len()),
{
    let e = crate::binfmt::sym_encoding(sym);
    let s = e + rest;
    if sym < 127 {
        assert(leb128_encoding(sym as nat) == seq![sym as u8]);
        assert(e =~= leb128_encoding(sym as nat));
        leb128_roundtrip(sym as u32, rest);
    } else {
        let b0 = (sym % 128 + 128) as u8;
        let b1 = ((sym / 128) % 256) as u8;
        assert(e == seq![b0, b1]);
        assert(s[0] == b0 && s[1] == b1);
        assert(b1 < 128);
        assert(s.drop_first()[0] == b1);
        assert(first_clear(s.drop_first()) == Some(0nat));
        assert(first_clear(s) == Some(1nat));
        let t = s.take(2);
        assert(t.drop_first().drop_first() =~= Seq::<u8>::empty());
        assert(leb_value(t.drop_first().drop_first()) == 0);
        assert(t.drop_first()[0] == b1);
        assert(leb_value(t.drop_first()) == (b1 % 128) as nat);
        assert(leb_value(t) == (b0 % 128) as nat + 128 * (b1 % 128) as nat);
        assert(leb_value(t) == sym);
    }
}

/// `unzigzag` undoes `zigzag` on every signed 32-bit number.
pub proof fn zigzag_roundtrip(x: i32)
    ensures
        unzigzag_spec(zigzag_spec(x as int) as nat) == x,
{
}

/// `zigzag` undoes `unzigzag` on every unsigned 32-bit number.
pub proof fn unzigzag_roundtrip(y: u32)
    ensures
        zigzag_spec(unzigzag_spec(y as nat)) == y,
{
}

/// Number of `{}` argument slots in a footprint; `{{` is an escaped brace.
pub open spec fn footprint_args(s: Seq<char>) -> nat
    decreases s.len(),
{
    if s.len() == 0 {
        0
    } else if s[0] == '{' && s.len() >= 2 && s[1] == '}' {
        1 + footprint_args(s.skip(2))
    } else if s[0] == '{' && s.len() >= 2 && s[1] == '{' {
        footprint_args(s.skip(2))
    } else {
        footprint_args(s.skip(1))
    }
}

fn count_footprint_arguments_chars(fp: &Vec<char>) -> (n: usize)
    ensures
        n == footprint_args(fp@),
{
    let mut i: usize = 0;
    let mut n: usize = 0;
    assert(fp@.skip(0) =~= fp@);
    while i < fp.len()
        invariant
            i <= fp.len(),
            n <= i,
            footprint_args(fp@) == n + footprint_args(fp@.skip(i as int)),
        decreases fp.len() - i,
    {
        let ghost rest = fp@.skip(i as int);
        if fp[i] == '{' && i + 1 < fp.len() && fp[i + 1] == '}' {
            assert(rest.skip(2) =~= fp@.skip(i + 2));
            n = n + 1;
            i = i + 2;
        } else if fp[i] == '{' && i + 1 < fp.len() && fp[i + 1] == '{' {
            assert(rest.skip(2) =~= fp@.skip(i + 2));
            i = i + 2;
        } else {
            assert(rest.skip(1) =~= fp@.skip(i + 1));
            i = i + 1;
        }
    }
    assert(fp@.skip(i as int) =~= Seq::<char>::empty());
    n
}

/// Counts the `{}` argument slots of a footprint.
pub fn count_footprint_arguments(footprint: &str) -> (n: usize)
    ensures
        n == footprint_args(footprint@),
{
    let fp = chars_of(footprint);
    count_footprint_arguments_chars(&fp)
}

/// The highest bit that the bitfield `s[a..b]` names: the number after the first `:`,
/// or the whole text when there is no `:`; `None` where that text is no `usize`.
pub open spec fn highest_bit(s: Seq<char>, a: int, b: int) -> Option<nat> {
    match find_in(s, a, b, ':') {
        Some(k) => parse_unsigned(s.subrange(k + 1, b), usize::MAX as nat),
        None => parse_unsigned(s.subrange(a, b), usize::MAX as nat),
    }
}

/// Bytes needed for a register whose highest bit is `h`; `None` above 32.
pub open spec fn width_for(h: nat) -> Option<nat> {
    if h <= 8 {
        Some(1)
    } else if h <= 16 {
        Some(2)
    } else if h <= 32 {
        Some(4)
    } else {
        None
    }
}

/// Width in bytes of the register that a footprint describes, read off its first bitfield
/// from index `i` on; `None` where the footprint is not well formed.
pub open spec fn register_width_from(s: Seq<char>, i: int) -> Option<nat>
    decreases s.len() - i,
{
    if i < 0 || i >= s.len() {
        None
    } else if s[i] == '{' {
        if i + 1 < s.len() && s[i + 1] == '{' {
            register_width_from(s, i + 2)
        } else {
            match find_in(s, i, s.len() as int, '}') {
                None => None,
                Some(j) => match highest_bit(s, i + 1, j) {
                    Some(h) => width_for(h),
                    None => None,
                },
            }
        }
    } else {
        register_width_from(s, i + 1)
    }
}

proof fn lemma_register_width_values(s: Seq<char>, i: int)
    ensures
        register_width_from(s, i) matches Some(w) ==> w == 1 || w == 2 || w == 4,
    decreases s.len() - i,
{
    if 0 <= i < s.len() {
        if s[i] == '{' {
            if i + 1 < s.len() && s[i + 1] == '{' {
                lemma_register_width_values(s, i + 2);
            }
        } else {
            lemma_register_width_values(s, i + 1);
        }
    }
}

proof fn lemma_find_in_bounds(s: Seq<char>, i: int, end: int, c: char)
    ensures
        find_in(s, i, end, c) matches Some(j) ==> i <= j < end && s[j] == c,
    decreases end - i,
{
    if i < end && s[i] != c {
        lemma_find_in_bounds(s, i + 1, end, c);
    }
}

fn register_width_checked(fp: &Vec<char>) -> (r: Option<usize>)
    ensures
        match r {
            Some(w) => register_width_from(fp@, 0) == Some(w as nat),
            None => register_width_from(fp@, 0) is None,
        },
{
    let mut i: usize = 0;
    while i < fp.len()
        invariant
            i <= fp.len(),
            register_width_from(fp@, 0) == register_width_from(fp@, i as int),
        decreases fp.len() - i,
    {
        if fp[i] == '{' {
            if i + 1 < fp.len() && fp[i + 1] == '{' {
                i = i + 2;
            } else {
                assert(register_width_from(fp@, i as int) == match find_in(fp@, i as int, fp@.len() as int, '}') {
                    None => None,
                    Some(j) => match highest_bit(fp@, i + 1, j) {
                        Some(h) => width_for(h),
                        None => None,
                    },
                });
                let j = match find_char(fp, i, fp.len(), '}') {
                    Some(j) => j,
                    None => return None,
                };
                proof {
                    lemma_find_in_bounds(fp@, i as int, fp.len() as int, '}');
                }
                let h = match find_char(fp, i + 1, j, ':') {
                    Some(k) => {
                        proof {
                            lemma_find_in_bounds(fp@, i + 1, j as int, ':');
                        }
                        parse_unsigned_chars(fp, k + 1, j, usize::MAX as u64)
                    },
                    None => parse_unsigned_chars(fp, i + 1, j, usize::MAX as u64),
                };
                return match h {
                    Some(h) => if h <= 8 {
                        Some(1)
                    } else if h <= 16 {
                        Some(2)
                    } else if h <= 32 {
                        Some(4)
                    } else {
                        None
                    },
                    None => None,
                };
            }
        } else {
            i = i + 1;
        }
    }
    None
}

/// Width in bytes of the register that a footprint describes.
pub fn get_register_width(footprint: &str) -> (w: usize)
    requires
        register_width_from(footprint@, 0) is Some,
    ensures
        w == register_width_from(footprint@, 0)->0,
{
    let fp = chars_of(footprint);
    match register_width_checked(&fp) {
        Some(w) => w,
        None => {
            assert(false);
            0
        },
    }
}

/// `p` followed by what `o` holds; `None` stays `None`.
pub open spec fn prepend(p: Seq<char>, o: Option<Seq<char>>) -> Option<Seq<char>> {
    match o {
        Some(r) => Some(p + r),
        None => None,
    }
}

/// The footprint from index `i` on with its `{}` slots filled by `args` from `k` on;
/// `None` where a brace is unmatched or arguments run out.
pub open spec fn dynfmt_from(s: Seq<char>, i: int, args: Seq<Seq<char>>, k: int) -> Option<Seq<char>>
    decreases s.len() - i,
{
    if i < 0 || i >= s.len() {
        Some(Seq::empty())
    } else if s[i] == '{' {
        if i + 1 < s.len() && s[i + 1] == '}' {
            if 0 <= k < args.len() {
                prepend(args[k], dynfmt_from(s, i + 2, args, k + 1))
            } else {
                None
            }
        } else if i + 1 < s.len() && s[i + 1] == '{' {
            prepend(seq!['{'], dynfmt_from(s, i + 2, args, k))
        } else {
            None
        }
    } else if s[i] == '}' {
        if i + 1 < s.len() && s[i + 1] == '}' {
            prepend(seq!['}'], dynfmt_from(s, i + 2, args, k))
        } else {
            None
        }
    } else {
        prepend(seq![s[i]], dynfmt_from(s, i + 1, args, k))
    }
}

/// The text of each string.
pub open spec fn texts(v: Seq<String>) -> Seq<Seq<char>> {
    v.map_values(|a: String| a@)
}

/// The text of each character vector.
pub open spec fn char_texts(v: Seq<Vec<char>>) -> Seq<Seq<char>> {
    v.map_values(|a: Vec<char>| a@)
}

fn dynfmt_chars(fp: &Vec<char>, args: &Vec<Vec<char>>) -> (r: Option<Vec<char>>)
    ensures
        match r {
            Some(t) => dynfmt_from(fp@, 0, char_texts(args@), 0) == Some(t@),
            None => dynfmt_from(fp@, 0, char_texts(args@), 0) is None,
        },
{
    let ghost a = char_texts(args@);
    let mut out: Vec<char> = Vec::new();
    let mut i: usize = 0;
    let mut k: usize = 0;
    while i < fp.len()
        invariant
            i <= fp.len(),
            a == char_texts(args@),
            dynfmt_from(fp@, 0, a, 0) == prepend(out@, dynfmt_from(fp@, i as int, a, k as int)),
        decreases fp.len() - i,
    {
        let ghost o = out@;
        let c = fp[i];
        if c == '{' {
            if i + 1 < fp.len() && fp[i + 1] == '}' {
                if k >= args.len() {
                    return None;
                }
                append_chars(&mut out, &args[k]);
                proof {
                    match dynfmt_from(fp@, i + 2, a, k + 1) {
                        Some(t) => { assert(o + (args@[k as int]@ + t) =~= out@ + t); },
                        None => {},
                    }
                }
                k = k + 1;
                i = i + 2;
            } else if i + 1 < fp.len() && fp[i + 1] == '{' {
                out.push('{');
                proof {
                    match dynfmt_from(fp@, i + 2, a, k as int) {
                        Some(t) => { assert(o + (seq!['{'] + t) =~= out@ + t); },
                        None => {},
                    }
                }
                i = i + 2;
            } else {
                return None;
            }
        } else if c == '}' {
            if i + 1 < fp.len() && fp[i + 1] == '}' {
                out.push('}');
                proof {
                    match dynfmt_from(fp@, i + 2, a, k as int) {
                        Some(t) => { assert(o + (seq!['}'] + t) =~= out@ + t); },
                        None => {},
                    }
                }
                i = i + 2;
            } else {
                return None;
            }
        } else {
            out.push(c);
            proof {
                match dynfmt_from(fp@, i + 1, a, k as int) {
                    Some(t) => { assert(o + (seq![c] + t) =~= out@ + t); },
                    None => {},
                }
            }
            i = i + 1;
        }
    }
    assert(out@ + Seq::<char>::empty() =~= out@);
    Some(out)
}

fn chars_of_all(args: &[String]) -> (r: Vec<Vec<char>>)
    ensures
        char_texts(r@) == texts(args@),
{
    let mut r: Vec<Vec<char>> = Vec::new();
    let mut i: usize = 0;
    while i < args.len()
        invariant
            i <= args.len(),
            char_texts(r@) == texts(args@.take(i as int)),
        decreases args.len() - i,
    {
        let ghost before = r@;
        let v = chars_of(args[i].as_str());
        r.push(v);
        assert(char_texts(r@) =~= char_texts(before).push(args@[i as int]@));
        assert(texts(args@.take(i + 1)) =~= texts(args@.take(i as int)).push(args@[i as int]@));
        i = i + 1;
    }
    assert(args@.take(i as int) =~= args@);
    r
}

/// Fills the `{}` slots of `footprint` with `args`, in order.
pub fn dynfmt(footprint: &str, args: &[String]) -> (r: String)
    requires
        dynfmt_from(footprint@, 0, texts(args@), 0) is Some,
    ensures
        r@ == dynfmt_from(footprint@, 0, texts(args@), 0)->0,
{
    let fp = chars_of(footprint);
    let a = chars_of_all(args);
    match dynfmt_chars(&fp, &a) {
        Some(t) => string_of(&t),
        None => {
            assert(false);
            String::new()
        },
    }
}

/// The value of the `w` bits of `val` that start at bit `st`.
pub open spec fn bit_field(val: u32, st: nat, w: nat) -> nat {
    (val as nat / pow2(st)) % pow2(w)
}

/// How a bitfield value is shown: `0b…` below 8 bits of width, `0x…` otherwise.
pub open spec fn field_digits(bits: nat, width: nat) -> Seq<char> {
    if width < 8 {
        seq!['0', 'b'] + radix_digits(bits, 2)
    } else {
        seq!['0', 'x'] + radix_digits(bits, 16)
    }
}

/// The text shown for the bitfield `s[a..b]` of a register holding `val`: a range `start:end`
/// or a single bit index; `None` where the bitfield is malformed or out of range.
pub open spec fn field_text(s: Seq<char>, a: int, b: int, val: u32) -> Option<Seq<char>> {
    match find_in(s, a, b, ':') {
        Some(k) => match parse_unsigned(s.subrange(a, k), 255) {
            Some(st) => match parse_unsigned(s.subrange(k + 1, b), 255) {
                Some(en) => if en < st {
                    None
                } else if en - st != 32 && (st >= 32 || en - st > 32) {
                    None
                } else if en - st == 32 {
                    Some(field_digits(val as nat, 32))
                } else {
                    Some(field_digits(bit_field(val, st, (en - st) as nat), (en - st) as nat))
                },
                None => None,
            },
            None => None,
        },
        None => match parse_unsigned(s.subrange(a, b), 255) {
            Some(i) => if i >= 32 {
                None
            } else if bit_field(val, i, 1) == 0 {
                Some(seq!['0'])
            } else {
                Some(seq!['1'])
            },
            None => None,
        },
    }
}

/// The footprint of a register from index `i` on with each bitfield replaced by its value in `val`;
/// `None` where the footprint is not well formed.
pub open spec fn dynfmt_register_from(s: Seq<char>, i: int, val: u32) -> Option<Seq<char>>
    decreases s.len() - i,
{
    if i < 0 || i >= s.len() {
        Some(Seq::empty())
    } else if s[i] == '{' {
        if i + 1 < s.len() && s[i + 1] == '{' {
            prepend(seq!['{'], dynfmt_register_from(s, i + 2, val))
        } else {
            match find_in(s, i, s.len() as int, '}') {
                None => None,
                Some(j) => if j <= i || j >= s.len() {
                    None
                } else {
                    match field_text(s, i + 1, j, val) {
                        Some(t) => prepend(t, dynfmt_register_from(s, j + 1, val)),
                        None => None,
                    }
                },
            }
        }
    } else if s[i] == '}' {
        if i + 1 < s.len() && s[i + 1] == '}' {
            prepend(seq!['}'], dynfmt_register_from(s, i + 2, val))
        } else {
            None
        }
    } else {
        prepend(seq![s[i]], dynfmt_register_from(s, i + 1, val))
    }
}

fn bit_field_exec(val: u32, st: u32, w: u32) -> (r: u32)
    requires
        st < 32,
        w < 32,
    ensures
        r as nat == bit_field(val, st as nat, w as nat),
{
    proof {
        vstd::bits::lemma_u32_shr_is_div(val, st);
        vstd::bits::lemma_u32_pow2_no_overflow(w as nat);
        vstd::bits::lemma_u32_shl_is_mul(1, w);
        vstd::bits::lemma_u32_low_bits_mask_is_mod(val >> st, w as nat);
    }
    let mask = (1u32 << w) - 1;
    assert(mask == low_bits_mask(w as nat) as u32);
    (val >> st) & mask
}

fn field_text_exec(fp: &Vec<char>, a: usize, b: usize, val: u32) -> (r: Option<Vec<char>>)
    requires
        a <= b <= fp.len(),
    ensures
        match r {
            Some(t) => field_text(fp@, a as int, b as int, val) == Some(t@),
            None => field_text(fp@, a as int, b as int, val) is None,
        },
{
    match find_char(fp, a, b, ':') {
        Some(k) => {
            proof {
                lemma_find_in_bounds(fp@, a as int, b as int, ':');
            }
            let st = match parse_unsigned_chars(fp, a, k, 255) {
                Some(v) => v,
                None => return None,
            };
            let en = match parse_unsigned_chars(fp, k + 1, b, 255) {
                Some(v) => v,
                None => return None,
            };
            if en < st {
                return None;
            }
            let w = en - st;
            if w != 32 && (st >= 32 || w > 32) {
                return None;
            }
            let bits = if w != 32 {
                bit_field_exec(val, st as u32, w as u32)
            } else {
                val
            };
            let digits = if w < 8 {
                radix_chars(bits as u64, 2)
            } else {
                radix_chars(bits as u64, 16)
            };
            let mut t: Vec<char> = Vec::new();
            t.push('0');
            t.push(if w < 8 { 'b' } else { 'x' });
            append_chars(&mut t, &digits);
            assert(t@ =~= field_digits(bits as nat, w as nat));
            Some(t)
        },
        None => {
            let i = match parse_unsigned_chars(fp, a, b, 255) {
                Some(v) => v,
                None => return None,
            };
            if i >= 32 {
                return None;
            }
            let bit = bit_field_exec(val, i as u32, 1);
            proof {
                vstd::arithmetic::power2::lemma2_to64();
            }
            let mut t: Vec<char> = Vec::new();
            t.push(if bit == 0 { '0' } else { '1' });
            Some(t)
        },
    }
}

fn dynfmt_register_chars(fp: &Vec<char>, val: u32) -> (r: Option<Vec<char>>)
    ensures
        match r {
            Some(t) => dynfmt_register_from(fp@, 0, val) == Some(t@),
            None => dynfmt_register_from(fp@, 0, val) is None,
        },
{
    let mut out: Vec<char> = Vec::new();
    let mut i: usize = 0;
    while i < fp.len()
        invariant
            i <= fp.len(),
            dynfmt_register_from(fp@, 0, val) == prepend(out@, dynfmt_register_from(fp@, i as int, val)),
        decreases fp.len() - i,
    {
        let ghost o = out@;
        let c = fp[i];
        if c == '{' {
            if i + 1 < fp.len() && fp[i + 1] == '{' {
                out.push('{');
                proof {
                    match dynfmt_register_from(fp@, i + 2, val) {
                        Some(t) => { assert(o + (seq!['{'] + t) =~= out@ + t); },
                        None => {},
                    }
                }
                i = i + 2;
            } else {
                let j = match find_char(fp, i, fp.len(), '}') {
                    Some(j) => j,
                    None => return None,
                };
                proof {
                    lemma_find_in_bounds(fp@, i as int, fp.len() as int, '}');
                }
                if j <= i || j >= fp.len() {
                    return None;
                }
                let t = match field_text_exec(fp, i + 1, j, val) {
                    Some(t) => t,
                    None => return None,
                };
                append_chars(&mut out, &t);
                proof {
                    match dynfmt_register_from(fp@, j + 1, val) {
                        Some(u) => { assert(o + (t@ + u) =~= out@ + u); },
                        None => {},
                    }
                }
                i = j + 1;
            }
        } else if c == '}' {
            if i + 1 < fp.len() && fp[i + 1] == '}' {
                out.push('}');
                proof {
                    match dynfmt_register_from(fp@, i + 2, val) {
                        Some(t) => { assert(o + (seq!['}'] + t) =~= out@ + t); },
                        None => {},
                    }
                }
                i = i + 2;
            } else {
                return None;
            }
        } else {
            out.push(c);
            proof {
                match dynfmt_register_from(fp@, i + 1, val) {
                    Some(t) => { assert(o + (seq![c] + t) =~= out@ + t); },
                    None => {},
                }
            }
            i = i + 1;
        }
    }
    assert(out@ + Seq::<char>::empty() =~= out@);
    Some(out)
}

/// Shows the bitfields of the register value `val` as the footprint lays them out.
pub fn dynfmt_register(footprint: &str, val: u32) -> (r: String)
    requires
        dynfmt_register_from(footprint@, 0, val) is Some,
    ensures
        r@ == dynfmt_register_from(footprint@, 0, val)->0,
{
    let fp = chars_of(footprint);
    match dynfmt_register_chars(&fp, val) {
        Some(t) => string_of(&t),
        None => {
            assert(false);
            String::new()
        },
    }
}

/// A decoded argument of a log message.
pub enum Node {
    Bytes(Vec<u8>),
    /// The comma-separated variant names of a C-like enum and the discriminant.
    CLikeEnum(String, u8),
    /// The bits of an `f32`.
    F32(u32),
    Footprint(String, Vec<Node>),
    I32(i32),
    Pointer(u32),
    Register(String, u32),
    U32(u32),
}

/// Mathematical form of a `Node`.
pub enum NodeV {
    Bytes(Seq<u8>),
    CLikeEnum(Seq<char>, u8),
    F32(u32),
    Footprint(Seq<char>, Seq<NodeV>),
    I32(i32),
    Pointer(u32),
    Register(Seq<char>, u32),
    U32(u32),
}

/// The mathematical form of a node.
pub open spec fn node_view(n: Node) -> NodeV
    decreases n,
{
    match n {
        Node::Bytes(b) => NodeV::Bytes(b@),
        Node::CLikeEnum(l, d) => NodeV::CLikeEnum(l@, d),
        Node::F32(b) => NodeV::F32(b),
        Node::Footprint(f, v) => NodeV::Footprint(
            f@,
            Seq::new(v@.len(), |i: int| if 0 <= i < v@.len() { node_view(v@[i]) } else { NodeV::U32(0) }),
        ),
        Node::I32(x) => NodeV::I32(x),
        Node::Pointer(x) => NodeV::Pointer(x),
        Node::Register(f, x) => NodeV::Register(f@, x),
        Node::U32(x) => NodeV::U32(x),
    }
}

impl View for Node {
    type V = NodeV;

    open spec fn view(&self) -> NodeV {
        node_view(*self)
    }
}

/// The mathematical form of each node.
pub open spec fn nodes_view(v: Seq<Node>) -> Seq<NodeV> {
    Seq::new(v.len(), |i: int| v[i]@)
}

/// Outcome of decoding an item from the front of a byte sequence.
pub enum Parsed<T> {
    /// The item and the number of bytes it takes.
    Done(T, nat),
    /// The bytes end before the item does.
    EoS,
    /// The bytes are no well-formed stream for these footprints.
    Malformed,
}

/// Little-endian `u16` at `s[i..i + 2]`.
pub open spec fn le16(s: Seq<u8>, i: int) -> u32 {
    (s[i] as nat + 256 * (s[i + 1] as nat)) as u32
}

/// Little-endian `u32` at `s[i..i + 4]`.
pub open spec fn le32(s: Seq<u8>, i: int) -> u32 {
    (s[i] as nat + 256 * (s[i + 1] as nat) + 65536 * (s[i + 2] as nat) + 16777216 * (s[i + 3] as nat)) as u32
}

/// The text of footprint `key`.
pub open spec fn footprint_text(fp: Map<u64, String>, key: u32) -> Seq<char> {
    fp[key as u64]@
}

/// `vs` followed by what `r` holds, after `j` bytes.
pub open spec fn extend(vs: Seq<NodeV>, j: nat, r: Parsed<Seq<NodeV>>) -> Parsed<Seq<NodeV>> {
    match r {
        Parsed::Done(ws, l) => Parsed::Done(vs + ws, j + l),
        Parsed::EoS => Parsed::EoS,
        Parsed::Malformed => Parsed::Malformed,
    }
}

/// Decodes one node from the front of `s`.
pub open spec fn spec_node(s: Seq<u8>, fp: Map<u64, String>) -> Parsed<NodeV>
    decreases s.len(), 0int, 0int,
{
    if s.len() == 0 {
        Parsed::EoS
    } else {
        match tag_of(s[0]) {
            None => Parsed::Malformed,
            Some(tag) => match leb_decode(s.skip(1)) {
                Leb::Malformed => if tag is Unsigned || tag is Signed || tag is Bytes || tag is CLikeEnum
                    || tag is Footprint || tag is Register {
                    Parsed::Malformed
                } else {
                    spec_fixed_node(s, tag)
                },
                Leb::EoS => if tag is Unsigned || tag is Signed || tag is Bytes || tag is CLikeEnum
                    || tag is Footprint || tag is Register {
                    Parsed::EoS
                } else {
                    spec_fixed_node(s, tag)
                },
                Leb::Value(v, i) => {
                    let c = 1 + i;
                    if c > s.len() {
                        Parsed::Malformed
                    } else {
                        match tag {
                            Tag::Unsigned => Parsed::Done(NodeV::U32(v), c),
                            Tag::Signed => Parsed::Done(NodeV::I32(unzigzag_spec(v as nat) as i32), c),
                            Tag::Bytes => if c + v > s.len() {
                                Parsed::EoS
                            } else {
                                Parsed::Done(NodeV::Bytes(s.subrange(c as int, c + v)), (c + v) as nat)
                            },
                            Tag::CLikeEnum => if !fp.contains_key(v as u64) {
                                Parsed::Malformed
                            } else if c >= s.len() {
                                Parsed::EoS
                            } else {
                                Parsed::Done(NodeV::CLikeEnum(footprint_text(fp, v), s[c as int]), c + 1)
                            },
                            Tag::Footprint => if !fp.contains_key(v as u64) {
                                Parsed::Malformed
                            } else {
                                let f = footprint_text(fp, v);
                                match spec_args(s.skip(c as int), fp, footprint_args(f)) {
                                    Parsed::Done(args, j) => Parsed::Done(NodeV::Footprint(f, args), c + j),
                                    Parsed::EoS => Parsed::EoS,
                                    Parsed::Malformed => Parsed::Malformed,
                                }
                            },
                            Tag::Register => if !fp.contains_key(v as u64) {
                                Parsed::Malformed
                            } else {
                                let f = footprint_text(fp, v);
                                match register_width_from(f, 0) {
                                    None => Parsed::Malformed,
                                    Some(w) => if c + w > s.len() {
                                        Parsed::EoS
                                    } else if w == 1 {
                                        Parsed::Done(NodeV::Register(f, s[c as int] as u32), c + w)
                                    } else if w == 2 {
                                        Parsed::Done(NodeV::Register(f, le16(s, c as int)), c + w)
                                    } else {
                                        Parsed::Done(NodeV::Register(f, le32(s, c as int)), c + w)
                                    },
                                }
                            },
                            _ => spec_fixed_node(s, tag),
                        }
                    }
                },
            },
        }
    }
}

/// Decodes a node of fixed size (or a level tag, which no node has) from the front of `s`.
pub open spec fn spec_fixed_node(s: Seq<u8>, tag: Tag) -> Parsed<NodeV> {
    match tag {
        Tag::F32 => if s.len() < 5 {
            Parsed::EoS
        } else {
            Parsed::Done(NodeV::F32(le32(s, 1)), 5)
        },
        Tag::Pointer => if s.len() < 5 {
            Parsed::EoS
        } else {
            Parsed::Done(NodeV::Pointer(le32(s, 1)), 5)
        },
        _ => Parsed::Malformed,
    }
}

/// Decodes `n` nodes, one after the other, from the front of `s`.
pub open spec fn spec_args(s: Seq<u8>, fp: Map<u64, String>, n: nat) -> Parsed<Seq<NodeV>>
    decreases s.len(), 1int, n,
{
    if n == 0 {
        Parsed::Done(Seq::empty(), 0)
    } else {
        match spec_node(s, fp) {
            Parsed::Done(v, i) => if i < 1 || i > s.len() {
                Parsed::Malformed
            } else {
                extend(seq![v], i, spec_args(s.skip(i as int), fp, (n - 1) as nat))
            },
            Parsed::EoS => Parsed::EoS,
            Parsed::Malformed => Parsed::Malformed,
        }
    }
}

/// What the decoder made of the front of a byte stream.
pub enum Decoded<T> {
    /// The item and the number of bytes it takes.
    Done(T, usize),
    /// The bytes end before the item does.
    EoS,
    /// The bytes are no well-formed stream for these footprints.
    Malformed,
}

/// Whether an executable outcome matches a specified one, item by item under `f`.
pub open spec fn decoded_matches<T, V>(r: Decoded<T>, p: Parsed<V>, f: spec_fn(T) -> V) -> bool {
    match p {
        Parsed::Done(v, n) => r matches Decoded::Done(t, m) && f(t) == v && m == n,
        Parsed::EoS => r is EoS,
        Parsed::Malformed => r is Malformed,
    }
}

proof fn lemma_leb_len(s: Seq<u8>)
    ensures
        leb_decode(s) matches Leb::Value(_, i) ==> 1 <= i <= s.len(),
{
    lemma_first_clear_some(s);
}

proof fn lemma_args_len(s: Seq<u8>, fp: Map<u64, String>, n: nat)
    ensures
        spec_args(s, fp, n) matches Parsed::Done(_, m) ==> m <= s.len(),
    decreases n,
{
    if n > 0 {
        if let Parsed::Done(v, i) = spec_node(s, fp) {
            if 1 <= i <= s.len() {
                lemma_args_len(s.skip(i as int), fp, (n - 1) as nat);
            }
        }
    }
}

proof fn lemma_node_len(s: Seq<u8>, fp: Map<u64, String>)
    ensures
        spec_node(s, fp) matches Parsed::Done(_, i) ==> 1 <= i <= s.len(),
{
    if s.len() > 0 {
        lemma_leb_len(s.skip(1));
        if let Leb::Value(v, i) = leb_decode(s.skip(1)) {
            let c = 1 + i;
            if c <= s.len() && fp.contains_key(v as u64) {
                lemma_args_len(s.skip(c as int), fp, footprint_args(footprint_text(fp, v)));
            }
        }
    }
}

fn le32_at(bytes: &[u8], i: usize) -> (r: u32)
    requires
        i + 4 <= bytes.len(),
    ensures
        r == le32(bytes@, i as int),
{
    bytes[i] as u32 + 256 * (bytes[i + 1] as u32) + 65536 * (bytes[i + 2] as u32) + 16777216 * (bytes[i + 3] as u32)
}

fn is_level_tag(tag: Tag) -> (b: bool)
    ensures
        b == (tag is Error || tag is Warn || tag is Info || tag is Debug || tag is Trace),
{
    match tag {
        Tag::Error | Tag::Warn | Tag::Info | Tag::Debug | Tag::Trace => true,
        _ => false,
    }
}

/// What holds when the decoder has read the tag and the LEB128 number after it.
pub open spec fn after_header(bytes: Seq<u8>, pos: int, tag: Tag, v: u32, i: nat) -> bool {
    &&& 0 <= pos < bytes.len()
    &&& tag_of(bytes[pos]) == Some(tag)
    &&& leb_decode(bytes.skip(pos + 1)) == Leb::Value(v, i)
    &&& 1 <= i
    &&& pos + 1 + i <= bytes.len()
}

fn decode_bytes_node(bytes: &[u8], pos: usize, v: u32, i: usize, Ghost(fp): Ghost<Map<u64, String>>) -> (r: Decoded<Node>)
    requires
        after_header(bytes@, pos as int, Tag::Bytes, v, i as nat),
    ensures
        decoded_matches(r, spec_node(bytes@.skip(pos as int), fp), |n: Node| n@),
{
    let ghost s = bytes@.skip(pos as int);
    assert(s.skip(1) =~= bytes@.skip(pos + 1));
    assert(bytes@.len() == bytes.len());
    let c = 1 + i;
    let at = pos + c;
    if v as usize > bytes.len() - at {
        return Decoded::EoS;
    }
    let len = v as usize;
    let mut data: Vec<u8> = Vec::new();
    let mut k: usize = 0;
    while k < len
        invariant
            k <= len,
            at + len <= bytes.len(),
            data@ == bytes@.subrange(at as int, at + k),
        decreases len - k,
    {
        data.push(bytes[at + k]);
        k = k + 1;
        assert(data@ =~= bytes@.subrange(at as int, at + k));
    }
    assert(s.subrange(c as int, c + v) =~= bytes@.subrange(at as int, at + len));
    Decoded::Done(Node::Bytes(data), c + len)
}

fn decode_enum_node(bytes: &[u8], pos: usize, fp: &BTreeMap<u64, String>, v: u32, i: usize) -> (r: Decoded<Node>)
    requires
        after_header(bytes@, pos as int, Tag::CLikeEnum, v, i as nat),
    ensures
        decoded_matches(r, spec_node(bytes@.skip(pos as int), fp@), |n: Node| n@),
{
    let ghost s = bytes@.skip(pos as int);
    assert(s.skip(1) =~= bytes@.skip(pos + 1));
    assert(bytes@.len() == bytes.len());
    let c = 1 + i;
    let at = pos + c;
    let text = match fp.get(&(v as u64)) {
        Some(t) => t.clone(),
        None => return Decoded::Malformed,
    };
    if at >= bytes.len() {
        return Decoded::EoS;
    }
    Decoded::Done(Node::CLikeEnum(text, bytes[at]), c + 1)
}

fn decode_footprint_node(bytes: &[u8], pos: usize, fp: &BTreeMap<u64, String>, v: u32, i: usize) -> (r: Decoded<Node>)
    requires
        after_header(bytes@, pos as int, Tag::Footprint, v, i as nat),
    ensures
        decoded_matches(r, spec_node(bytes@.skip(pos as int), fp@), |n: Node| n@),
    decreases bytes.len() - pos, 0int, 1int,
{
    let ghost s = bytes@.skip(pos as int);
    assert(s.skip(1) =~= bytes@.skip(pos + 1));
    assert(bytes@.len() == bytes.len());
    let c = 1 + i;
    let at = pos + c;
    let text = match fp.get(&(v as u64)) {
        Some(t) => t.clone(),
        None => return Decoded::Malformed,
    };
    let n = count_footprint_arguments(text.as_str());
    assert(bytes@.skip(at as int) =~= s.skip(c as int));
    match decode_args_at(bytes, at, fp, n) {
        Decoded::Done(args, j) => {
            proof {
                lemma_args_len(s.skip(c as int), fp@, n as nat);
            }
            let ghost ghost_args = args@;
            let node = Node::Footprint(text, args);
            proof {
                assert(node@ is Footprint);
                let w = node@->Footprint_1;
                assert(w.len() == ghost_args.len());
                assert forall|k: int| 0 <= k < w.len() implies w[k] == nodes_view(ghost_args)[k] by {
                    assert(w[k] == ghost_args[k]@);
                }
                assert(w =~= nodes_view(ghost_args));
            }
            Decoded::Done(node, c + j)
        },
        Decoded::EoS => Decoded::EoS,
        Decoded::Malformed => Decoded::Malformed,
    }
}

fn decode_register_node(bytes: &[u8], pos: usize, fp: &BTreeMap<u64, String>, v: u32, i: usize) -> (r: Decoded<Node>)
    requires
        after_header(bytes@, pos as int, Tag::Register, v, i as nat),
    ensures
        decoded_matches(r, spec_node(bytes@.skip(pos as int), fp@), |n: Node| n@),
{
    let ghost s = bytes@.skip(pos as int);
    assert(s.skip(1) =~= bytes@.skip(pos + 1));
    assert(bytes@.len() == bytes.len());
    let c = 1 + i;
    let at = pos + c;
    let text = match fp.get(&(v as u64)) {
        Some(t) => t.clone(),
        None => return Decoded::Malformed,
    };
    let chars = chars_of(text.as_str());
    let w = match register_width_checked(&chars) {
        Some(w) => w,
        None => return Decoded::Malformed,
    };
    proof {
        lemma_register_width_values(chars@, 0);
    }
    if w > bytes.len() - at {
        return Decoded::EoS;
    }
    let val = if w == 1 {
        bytes[at] as u32
    } else if w == 2 {
        bytes[at] as u32 + 256 * (bytes[at + 1] as u32)
    } else {
        le32_at(bytes, at)
    };
    assert(w == 4 ==> le32(s, c as int) == le32(bytes@, at as int));
    Decoded::Done(Node::Register(text, val), c + w)
}

fn decode_node_at(bytes: &[u8], pos: usize, fp: &BTreeMap<u64, String>) -> (r: Decoded<Node>)
    requires
        pos <= bytes.len(),
    ensures
        decoded_matches(r, spec_node(bytes@.skip(pos as int), fp@), |n: Node| n@),
    decreases bytes.len() - pos, 0int, 2int,
{
    let ghost s = bytes@.skip(pos as int);
    if pos >= bytes.len() {
        return Decoded::EoS;
    }
    assert(s[0] == bytes@[pos as int]);
    let tag = match Tag::from(bytes[pos]) {
        Some(t) => t,
        None => return Decoded::Malformed,
    };
    if is_level_tag(tag) {
        return Decoded::Malformed;
    }
    let rest = &bytes[pos + 1..bytes.len()];
    assert(rest@ =~= s.skip(1));
    proof {
        lemma_leb_len(s.skip(1));
    }
    match tag {
        Tag::F32 | Tag::Pointer => {
            if bytes.len() - pos < 5 {
                return Decoded::EoS;
            }
            let v = le32_at(bytes, pos + 1);
            assert(le32(s, 1) == le32(bytes@, pos + 1));
            return match tag {
                Tag::F32 => Decoded::Done(Node::F32(v), 5),
                _ => Decoded::Done(Node::Pointer(v), 5),
            };
        },
        _ => {},
    }
    let (v, i) = match decode_leb(rest) {
        Decoded::Done(v, i) => (v, i),
        Decoded::EoS => return Decoded::EoS,
        Decoded::Malformed => return Decoded::Malformed,
    };
    let c = 1 + i;
    match tag {
        Tag::Unsigned => Decoded::Done(Node::U32(v), c),
        Tag::Signed => Decoded::Done(Node::I32(unzigzag(v)), c),
        Tag::Bytes => decode_bytes_node(bytes, pos, v, i, Ghost(fp@)),
        Tag::CLikeEnum => decode_enum_node(bytes, pos, fp, v, i),
        Tag::Footprint => decode_footprint_node(bytes, pos, fp, v, i),
        _ => decode_register_node(bytes, pos, fp, v, i),
    }
}

fn decode_args_at(bytes: &[u8], pos: usize, fp: &BTreeMap<u64, String>, n: usize) -> (r: Decoded<Vec<Node>>)
    requires
        pos <= bytes.len(),
    ensures
        decoded_matches(r, spec_args(bytes@.skip(pos as int), fp@, n as nat), |v: Vec<Node>| nodes_view(v@)),
    decreases bytes.len() - pos, 1int, 0int,
{
    let mut out: Vec<Node> = Vec::new();
    let mut cur = pos;
    let mut k: usize = 0;
    assert(extend(nodes_view(out@), 0, spec_args(bytes@.skip(pos as int), fp@, n as nat)) =~= spec_args(bytes@.skip(pos as int), fp@, n as nat)) by {
        match spec_args(bytes@.skip(pos as int), fp@, n as nat) {
            Parsed::Done(ws, l) => { assert(nodes_view(out@) + ws =~= ws); },
            _ => {},
        }
    }
    while k < n
        invariant
            pos <= cur <= bytes.len(),
            k <= n,
            spec_args(bytes@.skip(pos as int), fp@, n as nat)
                == extend(nodes_view(out@), (cur - pos) as nat, spec_args(bytes@.skip(cur as int), fp@, (n - k) as nat)),
        decreases n - k,
    {
        let ghost sc = bytes@.skip(cur as int);
        proof {
            lemma_node_len(sc, fp@);
        }
        match decode_node_at(bytes, cur, fp) {
            Decoded::Done(node, i) => {
                let ghost old_out = nodes_view(out@);
                let ghost v = node@;
                assert(sc.skip(i as int) =~= bytes@.skip(cur + i));
                out.push(node);
                assert(nodes_view(out@) =~= old_out + seq![v]);
                proof {
                    match spec_args(bytes@.skip(cur + i), fp@, (n - k - 1) as nat) {
                        Parsed::Done(ws, l) => {
                            assert(old_out + (seq![v] + ws) =~= nodes_view(out@) + ws);
                        },
                        _ => {},
                    }
                }
                cur = cur + i;
                k = k + 1;
            },
            Decoded::EoS => return Decoded::EoS,
            Decoded::Malformed => return Decoded::Malformed,
        }
    }
    assert(nodes_view(out@) + Seq::<NodeV>::empty() =~= nodes_view(out@));
    Decoded::Done(out, cur - pos)
}

/// Decodes one node from the front of `bytes`; reports streams on which `parse_node` would not return.
pub fn decode_node(bytes: &[u8], footprints: &BTreeMap<u64, String>) -> (r: Decoded<Node>)
    ensures
        decoded_matches(r, spec_node(bytes@, footprints@), |n: Node| n@),
{
    assert(bytes@.skip(0) =~= bytes@);
    decode_node_at(bytes, 0, footprints)
}

/// Decodes one node from the front of a well-formed stream; also returns how many bytes it took.
pub fn parse_node(bytes: &[u8], footprints: &BTreeMap<u64, String>) -> (r: Result<(Node, usize), EoS>)
    requires
        !(spec_node(bytes@, footprints@) is Malformed),
    ensures
        match spec_node(bytes@, footprints@) {
            Parsed::Done(v, n) => r matches Ok((node, m)) && node@ == v && m == n,
            _ => r is Err,
        },
{
    match decode_node(bytes, footprints) {
        Decoded::Done(node, n) => Ok((node, n)),
        _ => Err(EoS),
    }
}

/// Log message
pub struct Message {
    pub level: Level,
    pub timestamp: u32,
    pub footprint: String,
    pub args: Vec<Node>,
}

/// The level that a tag stands for, if it is a level tag.
pub open spec fn level_of(t: Tag) -> Option<Level> {
    match t {
        Tag::Error => Some(Level::Error),
        Tag::Warn => Some(Level::Warn),
        Tag::Info => Some(Level::Info),
        Tag::Debug => Some(Level::Debug),
        Tag::Trace => Some(Level::Trace),
        _ => None,
    }
}

/// Mathematical form of a message: level, timestamp, footprint text and arguments.
pub type MessageV = (Level, u32, Seq<char>, Seq<NodeV>);

/// The mathematical form of a message.
pub open spec fn message_view(m: Message) -> MessageV {
    (m.level, m.timestamp, m.footprint@, nodes_view(m.args@))
}

/// Decodes one message from the front of `s`: level tag, LEB128 timestamp, LEB128 footprint key,
/// then as many nodes as the footprint has argument slots.
pub open spec fn spec_message(s: Seq<u8>, fp: Map<u64, String>) -> Parsed<MessageV> {
    if s.len() == 0 {
        Parsed::EoS
    } else {
        match tag_of(s[0]) {
            None => Parsed::Malformed,
            Some(t) => match level_of(t) {
                None => Parsed::Malformed,
                Some(level) => match leb_decode(s.skip(1)) {
                    Leb::Malformed => Parsed::Malformed,
                    Leb::EoS => Parsed::EoS,
                    Leb::Value(ts, i) => match leb_decode(s.skip(1 + i as int)) {
                        Leb::Malformed => Parsed::Malformed,
                        Leb::EoS => Parsed::EoS,
                        Leb::Value(key, j) => {
                            let c = 1 + i + j;
                            if !fp.contains_key(key as u64) {
                                Parsed::Malformed
                            } else {
                                let f = footprint_text(fp, key);
                                match spec_args(s.skip(c as int), fp, footprint_args(f)) {
                                    Parsed::Done(args, k) => Parsed::Done((level, ts, f, args), (c + k) as nat),
                                    Parsed::EoS => Parsed::EoS,
                                    Parsed::Malformed => Parsed::Malformed,
                                }
                            }
                        },
                    },
                },
            },
        }
    }
}

/// A message's level is the level its leading byte was written for: the byte that the target
/// writes for level `l` (`Level::byte`) is read back as a level tag that stands for `l`, and
/// every message decoded from a stream that starts with that byte has level `l`.
pub proof fn message_level_roundtrip(l: Level, s: Seq<u8>, fp: Map<u64, String>)
    ensures
        tag_of(crate::binfmt::level_byte(l)) matches Some(t) && level_of(t) == Some(l),
        s.len() > 0 && s[0] == crate::binfmt::level_byte(l) ==> (spec_message(s, fp) matches Parsed::Done(m, _) ==> m.0 == l),
{
}

fn level_from_tag(t: Tag) -> (r: Option<Level>)
    ensures
        r == level_of(t),
{
    match t {
        Tag::Error => Some(Level::Error),
        Tag::Warn => Some(Level::Warn),
        Tag::Info => Some(Level::Info),
        Tag::Debug => Some(Level::Debug),
        Tag::Trace => Some(Level::Trace),
        _ => None,
    }
}

/// Decodes one message from the front of `bytes`; reports streams on which `parse_message`
/// would not return.
pub fn decode_message(bytes: &[u8], footprints: &BTreeMap<u64, String>) -> (r: Decoded<Message>)
    ensures
        decoded_matches(r, spec_message(bytes@, footprints@), |m: Message| message_view(m)),
{
    let ghost s = bytes@;
    if bytes.len() == 0 {
        return Decoded::EoS;
    }
    let level = match Tag::from(bytes[0]) {
        Some(t) => match level_from_tag(t) {
            Some(l) => l,
            None => return Decoded::Malformed,
        },
        None => return Decoded::Malformed,
    };
    let rest = &bytes[1..bytes.len()];
    assert(rest@ =~= s.skip(1));
    proof {
        lemma_leb_len(s.skip(1));
    }
    let (timestamp, i) = match decode_leb(rest) {
        Decoded::Done(v, i) => (v, i),
        Decoded::EoS => return Decoded::EoS,
        Decoded::Malformed => return Decoded::Malformed,
    };
    let rest = &bytes[1 + i..bytes.len()];
    assert(rest@ =~= s.skip(1 + i));
    proof {
        lemma_leb_len(s.skip(1 + i));
    }
    let (key, j) = match decode_leb(rest) {
        Decoded::Done(v, j) => (v, j),
        Decoded::EoS => return Decoded::EoS,
        Decoded::Malformed => return Decoded::Malformed,
    };
    let c = 1 + i + j;
    let footprint = match footprints.get(&(key as u64)) {
        Some(t) => t.clone(),
        None => return Decoded::Malformed,
    };
    let n = count_footprint_arguments(footprint.as_str());
    match decode_args_at(bytes, c, footprints, n) {
        Decoded::Done(args, k) => {
            proof {
                lemma_args_len(s.skip(c as int), footprints@, n as nat);
            }
            Decoded::Done(Message { level, timestamp, footprint, args }, c + k)
        },
        Decoded::EoS => Decoded::EoS,
        Decoded::Malformed => Decoded::Malformed,
    }
}

/// Decodes one message from the front of a well-formed stream; also returns how many bytes it took.
pub fn parse_message(bytes: &[u8], footprints: &BTreeMap<u64, String>) -> (r: Result<(Message, usize), EoS>)
    requires
        !(spec_message(bytes@, footprints@) is Malformed),
    ensures
        match spec_message(bytes@, footprints@) {
            Parsed::Done(v, n) => r matches Ok((m, k)) && message_view(m) == v && k == n,
            _ => r is Err,
        },
{
    match decode_message(bytes, footprints) {
        Decoded::Done(m, n) => Ok((m, n)),
        _ => Err(EoS),
    }
}

proof fn lemma_message_len(s: Seq<u8>, fp: Map<u64, String>)
    ensures
        spec_message(s, fp) matches Parsed::Done(_, n) ==> 1 <= n <= s.len(),
{
    if s.len() > 0 {
        lemma_leb_len(s.skip(1));
        if let Leb::Value(_, i) = leb_decode(s.skip(1)) {
            lemma_leb_len(s.skip(1 + i as int));
            if let Leb::Value(key, j) = leb_decode(s.skip(1 + i as int)) {
                let c = 1 + i + j;
                if fp.contains_key(key as u64) {
                    lemma_args_len(s.skip(c as int), fp, footprint_args(footprint_text(fp, key)));
                }
            }
        }
    }
}

/// The messages at the front of a stream, in order, and the bytes they take: up to the end of
/// the stream or to a message that it does not hold whole; `None` where a malformed message comes
/// first.
pub open spec fn messages_of(s: Seq<u8>, fp: Map<u64, String>) -> Option<(Seq<MessageV>, nat)>
    decreases s.len(),
{
    match spec_message(s, fp) {
        Parsed::Done(m, n) => if 1 <= n <= s.len() {
            match messages_of(s.skip(n as int), fp) {
                Some((ms, k)) => Some((seq![m] + ms, n + k)),
                None => None,
            }
        } else {
            None
        },
        Parsed::EoS => Some((Seq::empty(), 0)),
        Parsed::Malformed => None,
    }
}

/// Decodes the messages at the front of a stream and gives them with the number of bytes they
/// take; `None` where a malformed message comes first.
pub fn decode_messages(bytes: &[u8], footprints: &BTreeMap<u64, String>) -> (r: Option<(Vec<Message>, usize)>)
    ensures
        match messages_of(bytes@, footprints@) {
            Some((ms, k)) => r matches Some((v, c)) && v@.map_values(|m: Message| message_view(m)) == ms && c == k,
            None => r is None,
        },
{
    let mut out: Vec<Message> = Vec::new();
    let mut pos: usize = 0;
    assert(bytes@.skip(0) =~= bytes@);
    assert(out@.map_values(|m: Message| message_view(m)) =~= Seq::<MessageV>::empty());
    loop
        invariant
            pos <= bytes@.len(),
            match messages_of(bytes@.skip(pos as int), footprints@) {
                Some((ms, k)) => messages_of(bytes@, footprints@)
                    == Some((out@.map_values(|m: Message| message_view(m)) + ms, (pos + k) as nat)),
                None => messages_of(bytes@, footprints@) is None,
            },
        decreases bytes.len() - pos,
    {
        let rest = slice_from_u8(bytes, pos);
        proof {
            lemma_message_len(rest@, footprints@);
        }
        match decode_message(rest, footprints) {
            Decoded::Done(m, n) => {
                let ghost before = out@.map_values(|m: Message| message_view(m));
                let ghost mv = message_view(m);
                assert(rest@.skip(n as int) =~= bytes@.skip(pos + n));
                out.push(m);
                proof {
                    assert(out@.map_values(|m: Message| message_view(m)) =~= before.push(mv));
                    match messages_of(bytes@.skip(pos + n), footprints@) {
                        Some((ms, k)) => {
                            assert(before + (seq![mv] + ms) =~= before.push(mv) + ms);
                        },
                        None => {},
                    }
                }
                pos = pos + n;
            },
            Decoded::EoS => {
                return Some((out, pos));
            },
            Decoded::Malformed => {
                return None;
            },
        }
    }
}

/// The bytes of `s` from `start` on.
fn slice_from_u8(s: &[u8], start: usize) -> (r: &[u8])
    requires
        start <= s@.len(),
    ensures
        r@ == s@.skip(start as int),
{
    let r = &s[start..s.len()];
    assert(r@ =~= s@.skip(start as int));
    r
}

/// `0x` and the two hex digits of a byte.
pub open spec fn byte_text(b: u8) -> Seq<char> {
    seq!['0', 'x'] + pad_left(radix_digits(b as nat, 16), 2, '0')
}

/// The bytes as `0x..` texts separated by `, `.
pub open spec fn bytes_items(bs: Seq<u8>) -> Seq<char>
    decreases bs.len(),
{
    if bs.len() == 0 {
        Seq::empty()
    } else if bs.len() == 1 {
        byte_text(bs[0])
    } else {
        bytes_items(bs.drop_last()) + seq![',', ' '] + byte_text(bs.last())
    }
}

/// A byte string as a bracketed list.
pub open spec fn bytes_text(bs: Seq<u8>) -> Seq<char> {
    seq!['['] + bytes_items(bs) + seq![']']
}

/// The `d`-th comma-separated piece of `s`; `None` where there are fewer pieces.
pub open spec fn nth_piece(s: Seq<char>, d: nat) -> Option<Seq<char>>
    decreases d,
{
    match find_in(s, 0, s.len() as int, ',') {
        None => if d == 0 {
            Some(s)
        } else {
            None
        },
        Some(k) => if d == 0 {
            Some(s.take(k))
        } else {
            nth_piece(s.skip(k + 1), (d - 1) as nat)
        },
    }
}

/// `0x` and eight hex digits.
pub open spec fn pointer_text(x: u32) -> Seq<char> {
    seq!['0', 'x'] + pad_left(radix_digits(x as nat, 16), 8, '0')
}

/// The bits of the `f32` values in a node, in order of appearance.
pub open spec fn floats_of(n: NodeV) -> Seq<u32>
    decreases n,
{
    match n {
        NodeV::F32(b) => seq![b],
        NodeV::Footprint(_, ns) => floats_of_all(ns),
        _ => Seq::empty(),
    }
}

/// The bits of the `f32` values in a sequence of nodes, in order of appearance.
pub open spec fn floats_of_all(ns: Seq<NodeV>) -> Seq<u32>
    decreases ns,
{
    if ns.len() == 0 {
        Seq::empty()
    } else {
        floats_of(ns[0]) + floats_of_all(ns.subrange(1, ns.len() as int))
    }
}

/// The text of a node, with `fl[p..]` the texts of its `f32` values in order;
/// `None` where a footprint, register layout or enum discriminant does not fit, or `fl` runs out.
pub open spec fn render(n: NodeV, fl: Seq<Seq<char>>, p: int) -> Option<Seq<char>>
    decreases n,
{
    match n {
        NodeV::Bytes(bs) => Some(bytes_text(bs)),
        NodeV::CLikeEnum(l, d) => nth_piece(l, d as nat),
        NodeV::F32(_) => if 0 <= p < fl.len() {
            Some(fl[p])
        } else {
            None
        },
        NodeV::Footprint(f, ns) => match render_all(ns, fl, p) {
            Some(args) => dynfmt_from(f, 0, args, 0),
            None => None,
        },
        NodeV::I32(x) => Some(signed_decimal(x as int)),
        NodeV::Pointer(x) => Some(pointer_text(x)),
        NodeV::Register(f, x) => dynfmt_register_from(f, 0, x),
        NodeV::U32(x) => Some(radix_digits(x as nat, 10)),
    }
}

/// The texts of a sequence of nodes, their `f32` texts taken from `fl[p..]` in order.
pub open spec fn render_all(ns: Seq<NodeV>, fl: Seq<Seq<char>>, p: int) -> Option<Seq<Seq<char>>>
    decreases ns,
{
    if ns.len() == 0 {
        Some(Seq::empty())
    } else {
        match render(ns[0], fl, p) {
            None => None,
            Some(a) => match render_all(ns.subrange(1, ns.len() as int), fl, p + floats_of(ns[0]).len()) {
                Some(r) => Some(seq![a] + r),
                None => None,
            },
        }
    }
}

fn byte_text_chars(b: u8) -> (r: Vec<char>)
    ensures
        r@ == byte_text(b),
{
    let mut r: Vec<char> = Vec::new();
    r.push('0');
    r.push('x');
    let d = pad_left_chars(&radix_chars(b as u64, 16), 2, '0');
    append_chars(&mut r, &d);
    assert(r@ =~= byte_text(b));
    r
}

fn bytes_text_chars(bs: &Vec<u8>) -> (r: Vec<char>)
    ensures
        r@ == bytes_text(bs@),
{
    let mut items: Vec<char> = Vec::new();
    let mut i: usize = 0;
    while i < bs.len()
        invariant
            i <= bs.len(),
            items@ == bytes_items(bs@.take(i as int)),
        decreases bs.len() - i,
    {
        let t = byte_text_chars(bs[i]);
        let ghost before = items@;
        if i > 0 {
            items.push(',');
            items.push(' ');
        }
        append_chars(&mut items, &t);
        assert(bs@.take(i + 1).drop_last() =~= bs@.take(i as int));
        proof {
            if i == 0 {
                assert(bs@.take(0) =~= Seq::<u8>::empty());
                assert(items@ =~= bytes_items(bs@.take(1)));
            } else {
                assert(items@ =~= before + seq![',', ' '] + t@);
            }
        }
        i = i + 1;
    }
    assert(bs@.take(i as int) =~= bs@);
    let mut r: Vec<char> = Vec::new();
    r.push('[');
    append_chars(&mut r, &items);
    r.push(']');
    assert(r@ =~= bytes_text(bs@));
    r
}

proof fn lemma_find_in_skip(s: Seq<char>, start: int, i: int, c: char)
    requires
        0 <= start <= i <= s.len(),
    ensures
        find_in(s.skip(start), i - start, s.len() - start, c) == match find_in(s, i, s.len() as int, c) {
            Some(j) => Some(j - start),
            None => None,
        },
    decreases s.len() - i,
{
    if i < s.len() {
        lemma_find_in_skip(s, start, i + 1, c);
    }
}

fn subrange_chars(s: &Vec<char>, a: usize, b: usize) -> (r: Vec<char>)
    requires
        a <= b <= s.len(),
    ensures
        r@ == s@.subrange(a as int, b as int),
{
    let mut r: Vec<char> = Vec::new();
    let mut i = a;
    while i < b
        invariant
            a <= i <= b <= s.len(),
            r@ == s@.subrange(a as int, i as int),
        decreases b - i,
    {
        r.push(s[i]);
        i = i + 1;
        assert(r@ =~= s@.subrange(a as int, i as int));
    }
    r
}

fn nth_piece_chars(s: &Vec<char>, d: u8) -> (r: Option<Vec<char>>)
    ensures
        match r {
            Some(t) => nth_piece(s@, d as nat) == Some(t@),
            None => nth_piece(s@, d as nat) is None,
        },
{
    let mut start: usize = 0;
    let mut k: u8 = d;
    assert(s@.skip(0) =~= s@);
    loop
        invariant
            start <= s.len(),
            nth_piece(s@, d as nat) == nth_piece(s@.skip(start as int), k as nat),
        decreases k,
    {
        let ghost t = s@.skip(start as int);
        proof {
            lemma_find_in_skip(s@, start as int, start as int, ',');
        }
        match find_char(s, start, s.len(), ',') {
            None => {
                if k == 0 {
                    let r = subrange_chars(s, start, s.len());
                    assert(r@ =~= t);
                    return Some(r);
                }
                return None;
            },
            Some(j) => {
                proof {
                    lemma_find_in_bounds(s@, start as int, s.len() as int, ',');
                }
                if k == 0 {
                    let r = subrange_chars(s, start, j);
                    assert(r@ =~= t.take(j - start));
                    return Some(r);
                }
                assert(t.skip(j - start + 1) =~= s@.skip(j + 1));
                start = j + 1;
                k = k - 1;
            },
        }
    }
}

fn pointer_text_chars(x: u32) -> (r: Vec<char>)
    ensures
        r@ == pointer_text(x),
{
    let mut r: Vec<char> = Vec::new();
    r.push('0');
    r.push('x');
    let d = pad_left_chars(&radix_chars(x as u64, 16), 8, '0');
    append_chars(&mut r, &d);
    assert(r@ =~= pointer_text(x));
    r
}

/// `done` followed by what `r` holds.
pub open spec fn combine(done: Seq<Seq<char>>, r: Option<Seq<Seq<char>>>) -> Option<Seq<Seq<char>>> {
    match r {
        Some(rest) => Some(done + rest),
        None => None,
    }
}

fn render_at(n: &Node, fl: &Vec<Vec<char>>, p: usize) -> (r: Option<(Vec<char>, usize)>)
    requires
        p <= fl.len(),
    ensures
        match r {
            Some((t, q)) => render(n@, char_texts(fl@), p as int) == Some(t@) && q == p + floats_of(n@).len()
                && q <= fl.len(),
            None => render(n@, char_texts(fl@), p as int) is None,
        },
    decreases n,
{
    let ghost F = char_texts(fl@);
    match n {
        Node::Bytes(bs) => Some((bytes_text_chars(bs), p)),
        Node::CLikeEnum(l, d) => {
            let lc = chars_of(l.as_str());
            match nth_piece_chars(&lc, *d) {
                Some(t) => Some((t, p)),
                None => None,
            }
        },
        Node::F32(_) => {
            if p < fl.len() {
                let mut t: Vec<char> = Vec::new();
                append_chars(&mut t, &fl[p]);
                Some((t, p + 1))
            } else {
                None
            }
        },
        Node::Footprint(f, v) => {
            let ghost ns = n@->Footprint_1;
            assert(n@ == NodeV::Footprint(f@, ns));
            assert(ns.len() == v@.len());
            let mut args: Vec<Vec<char>> = Vec::new();
            let mut q = p;
            let mut i: usize = 0;
            assert(ns.subrange(0, ns.len() as int) =~= ns);
            assert(combine(char_texts(args@), render_all(ns, F, p as int)) =~= render_all(ns, F, p as int)) by {
                match render_all(ns, F, p as int) {
                    Some(rest) => { assert(char_texts(args@) + rest =~= rest); },
                    None => {},
                }
            }
            while i < v.len()
                invariant
                    i <= v.len(),
                    p <= q <= fl.len(),
                    F == char_texts(fl@),
                    *n == Node::Footprint(*f, *v),
                    n@ == NodeV::Footprint(f@, ns),
                    ns == n@->Footprint_1,
                    ns.len() == v@.len(),
                    forall|k: int| 0 <= k < v@.len() ==> #[trigger] ns[k] == v@[k]@,
                    render_all(ns, F, p as int) == combine(char_texts(args@), render_all(ns.subrange(i as int, ns.len() as int), F, q as int)),
                    floats_of_all(ns).len() == (q - p) + floats_of_all(ns.subrange(i as int, ns.len() as int)).len(),
                decreases v.len() - i,
            {
                let ghost rest = ns.subrange(i as int, ns.len() as int);
                assert(rest[0] == v@[i as int]@);
                assert(rest.subrange(1, rest.len() as int) =~= ns.subrange(i + 1, ns.len() as int));
                proof {
                    assert(decreases_to!(*n => *v));
                    assert(decreases_to!(*v => v@));
                    assert(decreases_to!(v@ => v@[i as int]));
                }
                match render_at(&v[i], fl, q) {
                    Some((t, q2)) => {
                        let ghost before = char_texts(args@);
                        args.push(t);
                        assert(char_texts(args@) =~= before.push(t@));
                        proof {
                            match render_all(ns.subrange(i + 1, ns.len() as int), F, q2 as int) {
                                Some(more) => { assert(before + (seq![t@] + more) =~= char_texts(args@) + more); },
                                None => {},
                            }
                        }
                        q = q2;
                        i = i + 1;
                    },
                    None => return None,
                }
            }
            assert(ns.subrange(i as int, ns.len() as int) =~= Seq::<NodeV>::empty());
            assert(char_texts(args@) + Seq::<Seq<char>>::empty() =~= char_texts(args@));
            let fc = chars_of(f.as_str());
            match dynfmt_chars(&fc, &args) {
                Some(t) => Some((t, q)),
                None => None,
            }
        },
        Node::I32(x) => Some((signed_decimal_chars(*x as i64), p)),
        Node::Pointer(x) => Some((pointer_text_chars(*x), p)),
        Node::Register(f, x) => {
            let fc = chars_of(f.as_str());
            match dynfmt_register_chars(&fc, *x) {
                Some(t) => Some((t, p)),
                None => None,
            }
        },
        Node::U32(x) => Some((radix_chars(*x as u64, 10), p)),
    }
}

fn float_bits_into(n: &Node, out: &mut Vec<u32>)
    ensures
        final(out)@ == old(out)@ + floats_of(n@),
    decreases n,
{
    match n {
        Node::F32(b) => {
            out.push(*b);
        },
        Node::Footprint(f, v) => {
            let ghost ns = n@->Footprint_1;
            let ghost start = out@;
            assert(ns.subrange(0, ns.len() as int) =~= ns);
            assert(start + floats_of_all(ns) =~= out@ + floats_of_all(ns.subrange(0, ns.len() as int)));
            let mut i: usize = 0;
            while i < v.len()
                invariant
                    i <= v.len(),
                    *n == Node::Footprint(*f, *v),
                    ns == n@->Footprint_1,
                    ns.len() == v@.len(),
                    forall|k: int| 0 <= k < v@.len() ==> #[trigger] ns[k] == v@[k]@,
                    start + floats_of_all(ns) == out@ + floats_of_all(ns.subrange(i as int, ns.len() as int)),
                decreases v.len() - i,
            {
                let ghost rest = ns.subrange(i as int, ns.len() as int);
                let ghost before = out@;
                assert(rest[0] == v@[i as int]@);
                assert(rest.subrange(1, rest.len() as int) =~= ns.subrange(i + 1, ns.len() as int));
                proof {
                    assert(decreases_to!(*n => *v));
                    assert(decreases_to!(*v => v@));
                    assert(decreases_to!(v@ => v@[i as int]));
                }
                float_bits_into(&v[i], out);
                assert(before + floats_of_all(rest) =~= out@ + floats_of_all(ns.subrange(i + 1, ns.len() as int)));
                i = i + 1;
            }
            assert(ns.subrange(i as int, ns.len() as int) =~= Seq::<NodeV>::empty());
            assert(out@ + Seq::<u32>::empty() =~= out@);
        },
        _ => {
            assert(out@ + Seq::<u32>::empty() =~= out@);
        },
    }
}

impl Node {
    /// The bits of the `f32` values in this node, in the order `render` takes their texts.
    pub fn float_bits(&self) -> (r: Vec<u32>)
        ensures
            r@ == floats_of(self@),
    {
        let mut r: Vec<u32> = Vec::new();
        float_bits_into(self, &mut r);
        assert(r@ =~= floats_of(self@));
        r
    }

    /// The text of this node, with `floats` the texts of its `f32` values in order;
    /// `None` where the node does not fit its footprint or `floats` runs out.
    pub fn render(&self, floats: &Vec<String>) -> (r: Option<String>)
        ensures
            match r {
                Some(t) => render(self@, texts(floats@), 0) == Some(t@),
                None => render(self@, texts(floats@), 0) is None,
            },
    {
        let fl = chars_of_all(floats.as_slice());
        match render_at(self, &fl, 0) {
            Some((t, _)) => Some(string_of(&t)),
            None => None,
        }
    }
}

/// The text of a message's arguments filled into its footprint, with `fl` the texts of its
/// `f32` values in order.
pub open spec fn message_body(m: MessageV, fl: Seq<Seq<char>>) -> Option<Seq<char>> {
    match render_all(m.3, fl, 0) {
        Some(args) => dynfmt_from(m.2, 0, args, 0),
        None => None,
    }
}

/// A timestamp in microseconds as seconds with six decimals, right-aligned in ten columns.
pub open spec fn timestamp_text(ts: u32) -> Seq<char> {
    pad_left(
        radix_digits(ts as nat / 1_000_000, 10) + seq!['.'] + pad_left(radix_digits(ts as nat % 1_000_000, 10), 6, '0'),
        10,
        ' ',
    )
}

impl Message {
    /// The bits of the `f32` values among the arguments, in the order `body` takes their texts.
    pub fn float_bits(&self) -> (r: Vec<u32>)
        ensures
            r@ == floats_of_all(nodes_view(self.args@)),
    {
        let ghost ns = nodes_view(self.args@);
        let mut out: Vec<u32> = Vec::new();
        let mut i: usize = 0;
        assert(ns.subrange(0, ns.len() as int) =~= ns);
        assert(floats_of_all(ns) =~= out@ + floats_of_all(ns.subrange(0, ns.len() as int)));
        while i < self.args.len()
            invariant
                i <= self.args.len(),
                ns == nodes_view(self.args@),
                floats_of_all(ns) == out@ + floats_of_all(ns.subrange(i as int, ns.len() as int)),
            decreases self.args.len() - i,
        {
            let ghost rest = ns.subrange(i as int, ns.len() as int);
            let ghost before = out@;
            assert(rest.subrange(1, rest.len() as int) =~= ns.subrange(i + 1, ns.len() as int));
            float_bits_into(&self.args[i], &mut out);
            assert(before + floats_of_all(rest) =~= out@ + floats_of_all(ns.subrange(i + 1, ns.len() as int)));
            i = i + 1;
        }
        assert(ns.subrange(i as int, ns.len() as int) =~= Seq::<NodeV>::empty());
        assert(out@ + Seq::<u32>::empty() =~= out@);
        out
    }

    /// The message text: its footprint with the arguments filled in, `floats` being the texts of
    /// the `f32` values in order; `None` where an argument does not fit or `floats` runs out.
    pub fn body(&self, floats: &Vec<String>) -> (r: Option<String>)
        ensures
            match r {
                Some(t) => message_body(message_view(*self), texts(floats@)) == Some(t@),
                None => message_body(message_view(*self), texts(floats@)) is None,
            },
    {
        let fl = chars_of_all(floats.as_slice());
        let ghost F = char_texts(fl@);
        let ghost ns = nodes_view(self.args@);
        let mut args: Vec<Vec<char>> = Vec::new();
        let mut q: usize = 0;
        let mut i: usize = 0;
        assert(ns.subrange(0, ns.len() as int) =~= ns);
        assert(combine(char_texts(args@), render_all(ns, F, 0)) =~= render_all(ns, F, 0)) by {
            match render_all(ns, F, 0) {
                Some(rest) => { assert(char_texts(args@) + rest =~= rest); },
                None => {},
            }
        }
        while i < self.args.len()
            invariant
                i <= self.args.len(),
                q <= fl.len(),
                F == char_texts(fl@),
                F == texts(floats@),
                ns == nodes_view(self.args@),
                render_all(ns, F, 0) == combine(char_texts(args@), render_all(ns.subrange(i as int, ns.len() as int), F, q as int)),
            decreases self.args.len() - i,
        {
            let ghost rest = ns.subrange(i as int, ns.len() as int);
            assert(rest[0] == self.args@[i as int]@);
            assert(rest.subrange(1, rest.len() as int) =~= ns.subrange(i + 1, ns.len() as int));
            match render_at(&self.args[i], &fl, q) {
                Some((t, q2)) => {
                    let ghost before = char_texts(args@);
                    args.push(t);
                    assert(char_texts(args@) =~= before.push(t@));
                    proof {
                        match render_all(ns.subrange(i + 1, ns.len() as int), F, q2 as int) {
                            Some(more) => { assert(before + (seq![t@] + more) =~= char_texts(args@) + more); },
                            None => {},
                        }
                    }
                    q = q2;
                    i = i + 1;
                },
                None => return None,
            }
        }
        assert(ns.subrange(i as int, ns.len() as int) =~= Seq::<NodeV>::empty());
        assert(char_texts(args@) + Seq::<Seq<char>>::empty() =~= char_texts(args@));
        let fc = chars_of(self.footprint.as_str());
        match dynfmt_chars(&fc, &args) {
            Some(t) => Some(string_of(&t)),
            None => None,
        }
    }

    /// The timestamp (in microseconds) as seconds with six decimals, right-aligned in ten columns.
    pub fn timestamp_text(&self) -> (r: String)
        ensures
            r@ == timestamp_text(self.timestamp),
    {
        let secs = radix_chars((self.timestamp / 1_000_000) as u64, 10);
        let micros = pad_left_chars(&radix_chars((self.timestamp % 1_000_000) as u64, 10), 6, '0');
        let mut t = secs;
        t.push('.');
        append_chars(&mut t, &micros);
        let r = pad_left_chars(&t, 10, ' ');
        string_of(&r)
    }
}

} // verus!
