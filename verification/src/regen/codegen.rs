//! Code generation: what the generated register API of each register holds.
use vstd::prelude::*;

pub mod util;

use crate::regen::fmt::hex_u64_text;
use crate::regen::ir::{Bitfield, Instances, Peripheral, Register, Width};
use crate::regen::codegen::util::{
    bitwidth2ty, bitwidth2ty_spec, field_docs, field_docs_spec, hex, ident, ident_spec, r2wmask,
    r2wmask_spec, unsuffixed,
};
use crate::text::{append_chars, chars_of, radix_chars, radix_digits, string_of};

verus! {

/// What `heck`'s snake case conversion gives for `s`.
pub uninterp spec fn snake_case_of(s: Seq<char>) -> Seq<char>;

/// `s` in snake case (`heck::SnakeCase::to_snake_case`): the words of `s`, lower-cased and joined
/// by underscores.
#[verifier::external_body]
fn to_snake_case(s: &str) -> (r: String)
    ensures
        r@ == snake_case_of(s@),
{
    heck::SnakeCase::to_snake_case(s)
}

/// The name of the module of an item named `name`: snake case, keywords avoided.
pub fn mod_name(name: &str) -> (r: String)
    ensures
        r@ == ident_spec(snake_case_of(name@)),
{
    let s = to_snake_case(name);
    ident(s.as_str())
}

/// One accessor of a bitfield in the generated API.
pub struct FieldPlan {
    /// Name of the accessor: the bitfield's name
    pub name: String,
    /// Type of the field's value
    pub ty: Width,
    /// Offset literal
    pub offset: String,
    /// Mask literal
    pub mask: String,
    /// Documentation
    pub doc: String,
    /// Name of the `regen_ufmt` adapter that shows the value
    pub adapter: String,
}

/// What the generated API offers to read the register.
pub enum ReadPlan {
    /// The register cannot be read.
    NotReadable,
    /// The register is read as a whole number.
    Bits,
    /// The register is read through an `R` view with one accessor per bitfield.
    Fields {
        /// The accessors
        fields: Vec<FieldPlan>,
        /// Type of the non-reserved part
        bits_ty: Width,
        /// The `binfmt` footprint of the view
        footprint: String,
    },
}

/// What the generated API offers to write the register.
pub enum WritePlan {
    /// The register cannot be written.
    NotWritable,
    /// The register is written as a whole number.
    Bits,
    /// The register is written through a `W` view with one setter per bitfield.
    Fields {
        /// The setters
        fields: Vec<FieldPlan>,
    },
}

/// What the generated API offers to update the register.
pub enum RmwPlan {
    /// No read-modify-write.
    Unavailable,
    /// Read-modify-write of the whole number.
    Bits,
    /// Read-modify-write through the views; the readable bits that are not writable are cleared,
    /// as this mask literal gives them, if any.
    Fields {
        /// The mask literal, if any bit is to be cleared
        r2wmask: Option<String>,
    },
}

/// What the generated module of a register holds.
pub struct RegisterPlan {
    /// Name of the register type alias
    pub name: String,
    /// Name of the module
    pub mod_name: String,
    /// Type of the register
    pub ty: Width,
    /// Reading
    pub read: ReadPlan,
    /// Writing
    pub write: WritePlan,
    /// Whether writes are `unsafe`
    pub write_unsafe: bool,
    /// Read-modify-write
    pub rmw: RmwPlan,
    /// Offset literal from the peripheral's base address, if not zero
    pub address_offset: Option<String>,
    /// Whether the address is a `*mut` pointer (else `*const`)
    pub pointer_mut: bool,
    /// Documentation
    pub doc: String,
}

/// Name of the adapter that shows a field of `width` bits: binary up to 3 bits, else
/// hexadecimal with as many digits as needed.
pub open spec fn adapter_spec(width: u8) -> Seq<char> {
    if width < 4 {
        seq!['B', 'i', 'n'] + radix_digits(width as nat, 10)
    } else {
        seq!['H', 'e', 'x'] + radix_digits(((width - 1) / 4 + 1) as nat, 10)
    }
}

/// The accessor plan of a bitfield.
pub open spec fn field_plan_ok(p: FieldPlan, f: Bitfield) -> bool {
    &&& p.name@ == f.name@
    &&& p.ty == bitwidth2ty_spec(f.width)
    &&& p.offset@ == radix_digits(f.offset as nat, 10)
    &&& p.mask@ == hex_u64_text(f.mask_spec())
    &&& p.doc@ == field_docs_spec(f)
    &&& p.adapter@ == adapter_spec(f.width)
}

/// The accessor plans of the bitfields, in order.
pub open spec fn field_plans_ok(ps: Seq<FieldPlan>, fs: Seq<Bitfield>) -> bool {
    &&& ps.len() == fs.len()
    &&& forall|i: int| 0 <= i < fs.len() ==> field_plan_ok(#[trigger] ps[i], fs[i])
}

/// The bitfields can be planned: widths up to 32 bits, offsets and extents within a byte.
pub open spec fn fields_plannable(fs: Seq<Bitfield>) -> bool {
    forall|i: int| 0 <= i < fs.len() ==> 1 <= #[trigger] fs[i].width <= 32 && fs[i].offset + fs[i].width <= 64
}

fn adapter(width: u8) -> (r: String)
    ensures
        r@ == adapter_spec(width),
{
    let mut v: Vec<char> = Vec::new();
    if width < 4 {
        v.push('B');
        v.push('i');
        v.push('n');
        append_chars(&mut v, &radix_chars(width as u64, 10));
    } else {
        v.push('H');
        v.push('e');
        v.push('x');
        append_chars(&mut v, &radix_chars(((width - 1) / 4 + 1) as u64, 10));
    }
    assert(v@ =~= adapter_spec(width));
    string_of(&v)
}

fn field_plans(fields: &Vec<Bitfield>) -> (r: Vec<FieldPlan>)
    requires
        fields_plannable(fields@),
    ensures
        field_plans_ok(r@, fields@),
{
    let mut r: Vec<FieldPlan> = Vec::new();
    let mut i: usize = 0;
    while i < fields.len()
        invariant
            i <= fields@.len(),
            fields_plannable(fields@),
            r@.len() == i,
            forall|k: int| 0 <= k < i ==> field_plan_ok(#[trigger] r@[k], fields@[k]),
        decreases fields.len() - i,
    {
        let f = &fields[i];
        assert(1 <= f.width <= 32 && f.offset + f.width <= 64);
        let m = f.mask();
        let w = f.width;
        assert(m <= 0xffff_ffff) by (bit_vector)
            requires
                m == ((1u64 << w) - 1) as u64,
                1 <= w <= 32,
        ;
        let p = FieldPlan {
            name: f.name.clone(),
            ty: bitwidth2ty(f.width),
            offset: unsuffixed(f.offset),
            mask: hex(m),
            doc: field_docs(f),
            adapter: adapter(f.width),
        };
        r.push(p);
        i = i + 1;
    }
    r
}


/// The bit or bit range of a bitfield in a footprint: `offset`, or `offset:end`.
pub open spec fn footprint_range(f: Bitfield) -> Seq<char> {
    if f.width == 1 {
        radix_digits(f.offset as nat, 10)
    } else {
        radix_digits(f.offset as nat, 10) + seq![':'] + radix_digits((f.offset + f.width) as nat, 10)
    }
}

/// A bitfield in a footprint: `NAME: {range}`.
pub open spec fn footprint_item(f: Bitfield) -> Seq<char> {
    f.name@ + seq![':', ' ', '{'] + footprint_range(f) + seq!['}']
}

/// The bitfields of `fs` in a footprint, from the last to the first, separated by `, `.
pub open spec fn footprint_items(fs: Seq<Bitfield>) -> Seq<char>
    decreases fs.len(),
{
    if fs.len() == 0 {
        Seq::empty()
    } else if fs.len() == 1 {
        footprint_item(fs[0])
    } else {
        footprint_items(fs.skip(1)) + seq![',', ' '] + footprint_item(fs[0])
    }
}

/// The `binfmt` footprint of the readable view of a register: `NAME {{ FIELD: {range}, .. }}`,
/// the bitfields from the highest to the lowest declared.
pub open spec fn footprint_spec(reg: Register) -> Seq<char> {
    reg.name@ + seq![' ', '{', '{', ' '] + footprint_items(reg.r_fields@) + seq![' ', '}', '}']
}

fn push_str(v: &mut Vec<char>, s: &str)
    ensures
        final(v)@ == old(v)@ + s@,
{
    append_chars(v, &chars_of(s));
}

fn footprint_item_chars(v: &mut Vec<char>, f: &Bitfield)
    requires
        f.offset + f.width <= 255,
    ensures
        final(v)@ == old(v)@ + footprint_item(*f),
{
    let ghost start = v@;
    push_str(v, f.name.as_str());
    v.push(':');
    v.push(' ');
    v.push('{');
    append_chars(v, &radix_chars(f.offset as u64, 10));
    if f.width != 1 {
        v.push(':');
        append_chars(v, &radix_chars((f.offset + f.width) as u64, 10));
    }
    v.push('}');
    assert(v@ =~= start + footprint_item(*f));
}

/// The `binfmt` footprint of the readable view of a register.
pub fn footprint(reg: &Register) -> (r: String)
    requires
        fields_plannable(reg.r_fields@),
    ensures
        r@ == footprint_spec(*reg),
{
    let mut v: Vec<char> = Vec::new();
    push_str(&mut v, reg.name.as_str());
    v.push(' ');
    v.push('{');
    v.push('{');
    v.push(' ');
    let ghost head = v@;
    let ghost fs = reg.r_fields@;
    let n = reg.r_fields.len();
    let mut i: usize = n;
    assert(fs.subrange(n as int, n as int) =~= Seq::<Bitfield>::empty());
    while i > 0
        invariant
            i <= n,
            n == fs.len(),
            fs == reg.r_fields@,
            fields_plannable(fs),
            v@ == head + footprint_items(fs.subrange(i as int, n as int)),
        decreases i,
    {
        let ghost sub = fs.subrange(i - 1, n as int);
        proof {
            assert(sub.skip(1) =~= fs.subrange(i as int, n as int));
            assert(sub[0] == fs[i - 1]);
        }
        if i < n {
            v.push(',');
            v.push(' ');
        }
        let f = &reg.r_fields[i - 1];
        assert(f.offset + f.width <= 64);
        footprint_item_chars(&mut v, f);
        proof {
            if i < n {
                assert(v@ =~= head + footprint_items(sub));
            } else {
                assert(sub.len() == 1);
                assert(v@ =~= head + footprint_items(sub));
            }
        }
        i = i - 1;
    }
    v.push(' ');
    v.push('}');
    v.push('}');
    assert(fs.subrange(0, n as int) =~= fs);
    assert(v@ =~= footprint_spec(*reg));
    string_of(&v)
}

/// The highest bit, plus one, that the bitfields of `fs` reach.
pub open spec fn highest_bit(fs: Seq<Bitfield>) -> u8
    decreases fs.len(),
{
    if fs.len() == 0 {
        0
    } else {
        let h = highest_bit(fs.drop_last());
        let e = (fs.last().offset + fs.last().width) as u8;
        if e > h { e } else { h }
    }
}

fn highest(fs: &Vec<Bitfield>) -> (r: u8)
    requires
        fields_plannable(fs@),
    ensures
        r == highest_bit(fs@),
        r <= 64,
{
    let mut h: u8 = 0;
    let mut i: usize = 0;
    while i < fs.len()
        invariant
            i <= fs@.len(),
            fields_plannable(fs@),
            h == highest_bit(fs@.take(i as int)),
            h <= 64,
        decreases fs.len() - i,
    {
        proof {
            assert(fs@.take(i + 1).drop_last() =~= fs@.take(i as int));
            assert(fs@.take(i + 1).last() == fs@[i as int]);
        }
        let e = fs[i].offset + fs[i].width;
        if e > h {
            h = e;
        }
        i = i + 1;
    }
    assert(fs@.take(i as int) =~= fs@);
    h
}

/// The documentation of a register: its description, or its name followed by ` register`.
pub open spec fn register_doc_spec(reg: Register) -> Seq<char> {
    match reg.description {
        Some(d) => d@,
        None => reg.name@ + seq![' ', 'r', 'e', 'g', 'i', 's', 't', 'e', 'r'],
    }
}

fn register_doc(reg: &Register) -> (r: String)
    ensures
        r@ == register_doc_spec(*reg),
{
    match &reg.description {
        Some(d) => d.clone(),
        None => {
            let mut v = chars_of(reg.name.as_str());
            push_str(&mut v, " register");
            proof {
                reveal_strlit(" register");
            }
            assert(v@ =~= register_doc_spec(*reg));
            string_of(&v)
        },
    }
}

/// The registers that `register_plan` takes: bitfields that it can show, an offset and masks
/// that it can write out, and either both or neither of the views of a register that can be read
/// and written.
pub open spec fn plannable(reg: Register) -> bool {
    &&& fields_plannable(reg.r_fields@)
    &&& fields_plannable(reg.w_fields@)
    &&& reg.offset <= 0xffff_ffff
    &&& reg.access.can_read_spec() && reg.access.can_write_spec() ==> (reg.r_fields@.len() == 0) == (reg.w_fields@.len() == 0)
    &&& r2wmask_spec(reg) <= 0xffff_ffff
}

/// The reading plan of a register.
pub open spec fn read_plan_ok(p: ReadPlan, reg: Register) -> bool {
    if !reg.access.can_read_spec() {
        p is NotReadable
    } else if reg.r_fields@.len() == 0 {
        p is Bits
    } else {
        &&& p is Fields
        &&& field_plans_ok(p->Fields_fields@, reg.r_fields@)
        &&& p->bits_ty == bitwidth2ty_spec(highest_bit(reg.r_fields@))
        &&& p->footprint@ == footprint_spec(reg)
    }
}

/// The writing plan of a register.
pub open spec fn write_plan_ok(p: WritePlan, reg: Register) -> bool {
    if !reg.access.can_write_spec() {
        p is NotWritable
    } else if reg.w_fields@.len() == 0 {
        p is Bits
    } else {
        p is Fields && field_plans_ok(p->Fields_fields@, reg.w_fields@)
    }
}

/// The read-modify-write plan of a register.
pub open spec fn rmw_plan_ok(p: RmwPlan, reg: Register) -> bool {
    if !(reg.access.can_read_spec() && reg.access.can_write_spec()) {
        p is Unavailable
    } else if reg.r_fields@.len() == 0 {
        p is Bits
    } else {
        &&& p is Fields
        &&& if r2wmask_spec(reg) == 0 {
            p->r2wmask is None
        } else {
            (p->r2wmask matches Some(m) && m@ == hex_u64_text(r2wmask_spec(reg)))
        }
    }
}

/// What the generated module of a register holds.
pub open spec fn register_plan_ok(p: RegisterPlan, reg: Register) -> bool {
    &&& p.name@ == reg.name@
    &&& p.mod_name@ == ident_spec(snake_case_of(reg.name@))
    &&& p.ty == reg.width
    &&& read_plan_ok(p.read, reg)
    &&& write_plan_ok(p.write, reg)
    &&& p.write_unsafe == reg.access.write_is_unsafe_spec()
    &&& rmw_plan_ok(p.rmw, reg)
    &&& reg.offset == 0 ==> p.address_offset is None
    &&& reg.offset != 0 ==> (p.address_offset matches Some(o) && o@ == hex_u64_text(reg.offset))
    &&& p.pointer_mut == reg.access.can_write_spec()
    &&& p.doc@ == register_doc_spec(reg)
}

/// Decides what the generated module of a register holds: its views, their accessors, the
/// read-modify-write support, its address and its documentation.
pub fn register_plan(reg: &Register) -> (r: RegisterPlan)
    requires
        plannable(*reg),
    ensures
        register_plan_ok(r, *reg),
{
    let can_read = reg.access.can_read();
    let can_write = reg.access.can_write();
    let read = if !can_read {
        ReadPlan::NotReadable
    } else if reg.r_fields.len() == 0 {
        ReadPlan::Bits
    } else {
        ReadPlan::Fields {
            fields: field_plans(&reg.r_fields),
            bits_ty: bitwidth2ty(highest(&reg.r_fields)),
            footprint: footprint(reg),
        }
    };
    let write = if !can_write {
        WritePlan::NotWritable
    } else if reg.w_fields.len() == 0 {
        WritePlan::Bits
    } else {
        WritePlan::Fields { fields: field_plans(&reg.w_fields) }
    };
    let rmw = if !(can_read && can_write) {
        RmwPlan::Unavailable
    } else if reg.r_fields.len() == 0 {
        RmwPlan::Bits
    } else {
        proof {
            assert forall|i: int| 0 <= i < reg.r_fields@.len() implies #[trigger] reg.r_fields@[i].width < 64 && reg.r_fields@[i].offset < 64 by {
                assert(1 <= reg.r_fields@[i].width <= 32);
            }
        }
        let m = r2wmask(reg);
        RmwPlan::Fields { r2wmask: if m == 0 { None } else { Some(hex(m)) } }
    };
    let address_offset = if reg.offset == 0 { None } else { Some(hex(reg.offset)) };
    RegisterPlan {
        name: reg.name.clone(),
        mod_name: mod_name(reg.name.as_str()),
        ty: reg.width,
        read,
        write,
        write_unsafe: reg.access.write_is_unsafe(),
        rmw,
        address_offset,
        pointer_mut: can_write,
        doc: register_doc(reg),
    }
}

/// What the generated module of a peripheral holds.
pub struct PeripheralPlan {
    /// Name of the peripheral type alias
    pub name: String,
    /// Name of the module
    pub mod_name: String,
    /// Documentation: the description, or else the name
    pub doc: String,
    /// Base address literal
    pub base_address: String,
    /// The modules of the registers, in order
    pub registers: Vec<RegisterPlan>,
}

/// The peripherals that `peripheral_plan` takes: a single instance at an address that it can
/// write out, and registers that `register_plan` takes.
pub open spec fn peripheral_plannable(p: Peripheral) -> bool {
    &&& p.instances is Single
    &&& p.instances->base_address <= 0xffff_ffff
    &&& forall|i: int| 0 <= i < p.registers@.len() ==> plannable(#[trigger] p.registers@[i])
}

/// Decides what the generated module of a peripheral holds.
pub fn peripheral_plan(p: &Peripheral) -> (r: PeripheralPlan)
    requires
        peripheral_plannable(*p),
    ensures
        r.name@ == p.name@,
        r.mod_name@ == ident_spec(snake_case_of(p.name@)),
        r.doc@ == (match p.description {
            Some(d) => d@,
            None => p.name@,
        }),
        r.base_address@ == hex_u64_text(p.instances->base_address),
        r.registers@.len() == p.registers@.len(),
        forall|i: int| 0 <= i < p.registers@.len() ==> register_plan_ok(#[trigger] r.registers@[i], p.registers@[i]),
{
    let base_address = match &p.instances {
        Instances::Single { base_address } => hex(*base_address),
        Instances::Many { .. } => {
            assert(false);
            hex(0)
        },
    };
    let mut registers: Vec<RegisterPlan> = Vec::new();
    let mut i: usize = 0;
    while i < p.registers.len()
        invariant
            i <= p.registers@.len(),
            peripheral_plannable(*p),
            registers@.len() == i,
            forall|k: int| 0 <= k < i ==> register_plan_ok(#[trigger] registers@[k], p.registers@[k]),
        decreases p.registers.len() - i,
    {
        registers.push(register_plan(&p.registers[i]));
        i = i + 1;
    }
    let doc = match &p.description {
        Some(d) => d.clone(),
        None => p.name.clone(),
    };
    PeripheralPlan { name: p.name.clone(), mod_name: mod_name(p.name.as_str()), doc, base_address, registers }
}
} // verus!
