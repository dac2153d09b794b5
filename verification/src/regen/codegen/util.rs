//! Helpers of code generation: identifiers, integer types, literals, masks and field docs.
use vstd::prelude::*;

use crate::regen::fmt::{hex_u64_text, Hex};
use crate::regen::ir::{same_field, Bitfield, Register, Width};
use crate::text::{append_chars, chars_of, radix_chars, radix_digits, string_of};

verus! {

/// The identifier for `s`: `s` itself, or `in_` for the keyword `in`.
pub open spec fn ident_spec(s: Seq<char>) -> Seq<char> {
    if s == seq!['i', 'n'] {
        seq!['i', 'n', '_']
    } else {
        s
    }
}

/// The identifier for `s`: `s` itself, or `in_` for the keyword `in`.
pub fn ident(s: &str) -> (r: String)
    ensures
        r@ == ident_spec(s@),
{
    let c = chars_of(s);
    if c.len() == 2 && c[0] == 'i' && c[1] == 'n' {
        assert(c@ =~= seq!['i', 'n']);
        let v = vec!['i', 'n', '_'];
        assert(v@ =~= seq!['i', 'n', '_']);
        string_of(&v)
    } else {
        assert(c@ != seq!['i', 'n']) by {
            if c@ == seq!['i', 'n'] {
                assert(c@.len() == 2 && c@[0] == 'i' && c@[1] == 'n');
            }
        }
        string_of(&c)
    }
}

/// The narrowest unsigned integer type that holds `width` bits.
pub open spec fn bitwidth2ty_spec(width: u8) -> Width {
    if width <= 8 {
        Width::U8
    } else if width <= 16 {
        Width::U16
    } else if width <= 32 {
        Width::U32
    } else {
        Width::U64
    }
}

/// The narrowest unsigned integer type that holds `width` bits, up to 64.
pub fn bitwidth2ty(width: u8) -> (r: Width)
    requires
        width <= 64,
    ensures
        r == bitwidth2ty_spec(width),
{
    if width <= 8 {
        Width::U8
    } else if width <= 16 {
        Width::U16
    } else if width <= 32 {
        Width::U32
    } else {
        Width::U64
    }
}

/// `bitwidth2ty` gives the narrowest unsigned type that holds `width` bits: its bit count is at
/// least `width`, and unless it is `u8`, the type half as wide holds fewer than `width` bits.
pub proof fn bitwidth2ty_is_narrowest(width: u8)
    requires
        width <= 64,
    ensures
        width <= bitwidth2ty_spec(width).bits_spec(),
        bitwidth2ty_spec(width) != Width::U8 ==> bitwidth2ty_spec(width).bits_spec() / 2 < width,
{
}

/// The name of the unsigned integer type of a width.
pub open spec fn width2ty_spec(width: Width) -> Seq<char> {
    match width {
        Width::U8 => seq!['u', '8'],
        Width::U16 => seq!['u', '1', '6'],
        Width::U32 => seq!['u', '3', '2'],
        Width::U64 => seq!['u', '6', '4'],
    }
}

/// The name of the unsigned integer type of a width.
pub fn width2ty(width: Width) -> (r: String)
    ensures
        r@ == width2ty_spec(width),
{
    let v = match width {
        Width::U8 => vec!['u', '8'],
        Width::U16 => vec!['u', '1', '6'],
        Width::U32 => vec!['u', '3', '2'],
        Width::U64 => vec!['u', '6', '4'],
    };
    assert(v@ =~= width2ty_spec(width));
    string_of(&v)
}

/// A hexadecimal integer literal.
pub fn hex(val: u64) -> (r: String)
    requires
        val <= 0xffff_ffff,
    ensures
        r@ == hex_u64_text(val),
{
    Hex(val).to_string()
}

/// A decimal integer literal without suffix.
pub fn unsuffixed(val: u8) -> (r: String)
    ensures
        r@ == radix_digits(val as nat, 10),
{
    string_of(&radix_chars(val as u64, 10))
}

/// `fields` holds a bitfield that is the same as `f`.
pub open spec fn contains_field(fields: Seq<Bitfield>, f: Bitfield) -> bool {
    exists|j: int| 0 <= j < fields.len() && same_field(#[trigger] fields[j], f)
}

/// The bits of the first `i` readable bitfields of `reg` that cannot be written.
pub open spec fn r2wmask_upto(reg: Register, i: int) -> u64
    decreases i,
{
    if i <= 0 {
        0
    } else {
        let f = reg.r_fields@[i - 1];
        r2wmask_upto(reg, i - 1) | (if contains_field(reg.w_fields@, f) { 0u64 } else { f.mask_spec() << f.offset })
    }
}

/// The bits of the readable bitfields of a register that cannot be written: these are cleared
/// when a read value is turned into a value to write.
pub open spec fn r2wmask_spec(reg: Register) -> u64 {
    r2wmask_upto(reg, reg.r_fields@.len() as int)
}

fn contains(fields: &Vec<Bitfield>, f: &Bitfield) -> (r: bool)
    ensures
        r == contains_field(fields@, *f),
{
    let mut i: usize = 0;
    while i < fields.len()
        invariant
            i <= fields@.len(),
            forall|j: int| 0 <= j < i ==> !same_field(#[trigger] fields@[j], *f),
        decreases fields.len() - i,
    {
        if fields[i].same(f) {
            return true;
        }
        i = i + 1;
    }
    false
}

/// The bits of the readable bitfields of a register that cannot be written.
pub fn r2wmask(reg: &Register) -> (r: u64)
    requires
        forall|i: int| 0 <= i < reg.r_fields@.len() ==> #[trigger] reg.r_fields@[i].width < 64 && reg.r_fields@[i].offset < 64,
    ensures
        r == r2wmask_spec(*reg),
{
    let mut mask: u64 = 0;
    let mut i: usize = 0;
    while i < reg.r_fields.len()
        invariant
            i <= reg.r_fields@.len(),
            forall|k: int| 0 <= k < reg.r_fields@.len() ==> #[trigger] reg.r_fields@[k].width < 64 && reg.r_fields@[k].offset < 64,
            mask == r2wmask_upto(*reg, i as int),
        decreases reg.r_fields.len() - i,
    {
        let field = &reg.r_fields[i];
        if !contains(&reg.w_fields, field) {
            mask = mask | (field.mask() << field.offset);
        } else {
            assert(mask | 0u64 == mask) by (bit_vector);
        }
        i = i + 1;
    }
    mask
}

/// The documentation of a bitfield: its bit or bit range, then its description.
pub open spec fn field_docs_spec(field: Bitfield) -> Seq<char> {
    let head = if field.width == 1 {
        seq!['(', 'B', 'i', 't', ' '] + radix_digits(field.offset as nat, 10) + seq![')']
    } else {
        seq!['(', 'B', 'i', 't', 's', ' '] + radix_digits(field.offset as nat, 10) + seq!['.', '.', '=']
            + radix_digits((field.offset + field.width) as nat, 10) + seq![')']
    };
    match field.description {
        Some(d) => head + seq![' '] + d@,
        None => head,
    }
}

/// The documentation of a bitfield: its bit or bit range, then its description.
pub fn field_docs(field: &Bitfield) -> (r: String)
    requires
        field.width == 1 || field.offset + field.width <= u8::MAX,
    ensures
        r@ == field_docs_spec(*field),
{
    let mut doc: Vec<char> = Vec::new();
    if field.width == 1 {
        doc.push('(');
        doc.push('B');
        doc.push('i');
        doc.push('t');
        doc.push(' ');
        append_chars(&mut doc, &radix_chars(field.offset as u64, 10));
        doc.push(')');
    } else {
        doc.push('(');
        doc.push('B');
        doc.push('i');
        doc.push('t');
        doc.push('s');
        doc.push(' ');
        append_chars(&mut doc, &radix_chars(field.offset as u64, 10));
        doc.push('.');
        doc.push('.');
        doc.push('=');
        append_chars(&mut doc, &radix_chars((field.offset + field.width) as u64, 10));
        doc.push(')');
    }
    let ghost head = doc@;
    match &field.description {
        Some(desc) => {
            doc.push(' ');
            append_chars(&mut doc, &chars_of(desc.as_str()));
        },
        None => {},
    }
    assert(doc@ =~= field_docs_spec(*field));
    string_of(&doc)
}

} // verus!
