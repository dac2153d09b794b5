//! Checks on the intermediate representation: every item is named, every bitfield fits in its
//! register, and no two bitfields of a register overlap.
use vstd::prelude::*;

use crate::regen::ir::{Bitfield, Device, Instances, Peripheral, Register};

verus! {

/// What is wrong with a device description, with the names of the items that it was found in.
#[allow(inconsistent_fields)]
pub enum VerifyError {
    /// A peripheral has no name.
    UnnamedPeripheral,
    /// A peripheral said to have several instances has fewer than 2.
    TooFewInstances {
        /// The peripheral
        peripheral: String,
        /// Its number of instances
        n: usize,
    },
    /// A register has no name.
    UnnamedRegister {
        /// The peripheral
        peripheral: String,
        /// Offset of the register
        offset: u64,
    },
    /// A bitfield has no name.
    UnnamedBitfield {
        /// The peripheral
        peripheral: String,
        /// The register
        register: String,
        /// Offset of the bitfield
        offset: u8,
    },
    /// A bitfield has a width of 0 bits.
    ZeroWidth {
        /// The peripheral
        peripheral: String,
        /// The register
        register: String,
        /// The bitfield
        field: String,
    },
    /// A bitfield exceeds the register width.
    ExceedsWidth {
        /// The peripheral
        peripheral: String,
        /// The register
        register: String,
        /// The bitfield
        field: String,
        /// Offset of the bitfield
        offset: u8,
        /// Width of the bitfield
        width: u8,
        /// Width of the register
        reg_width: u8,
    },
    /// A bitfield overlaps with an earlier one.
    Overlap {
        /// The peripheral
        peripheral: String,
        /// The register
        register: String,
        /// The bitfield
        field: String,
    },
}

/// What is wrong with a device description, names as text.
pub enum ErrorView {
    /// A peripheral has no name.
    UnnamedPeripheral,
    /// A peripheral said to have several instances has fewer than 2.
    TooFewInstances(Seq<char>, nat),
    /// A register has no name.
    UnnamedRegister(Seq<char>, u64),
    /// A bitfield has no name.
    UnnamedBitfield(Seq<char>, Seq<char>, u8),
    /// A bitfield has a width of 0 bits.
    ZeroWidth(Seq<char>, Seq<char>, Seq<char>),
    /// A bitfield exceeds the register width.
    ExceedsWidth(Seq<char>, Seq<char>, Seq<char>, u8, u8, u8),
    /// A bitfield overlaps with an earlier one.
    Overlap(Seq<char>, Seq<char>, Seq<char>),
}

impl View for VerifyError {
    type V = ErrorView;

    open spec fn view(&self) -> ErrorView {
        match self {
            VerifyError::UnnamedPeripheral => ErrorView::UnnamedPeripheral,
            VerifyError::TooFewInstances { peripheral, n } => ErrorView::TooFewInstances(peripheral@, *n as nat),
            VerifyError::UnnamedRegister { peripheral, offset } => ErrorView::UnnamedRegister(peripheral@, *offset),
            VerifyError::UnnamedBitfield { peripheral, register, offset } => ErrorView::UnnamedBitfield(peripheral@, register@, *offset),
            VerifyError::ZeroWidth { peripheral, register, field } => ErrorView::ZeroWidth(peripheral@, register@, field@),
            VerifyError::ExceedsWidth { peripheral, register, field, offset, width, reg_width } => ErrorView::ExceedsWidth(
                peripheral@,
                register@,
                field@,
                *offset,
                *width,
                *reg_width,
            ),
            VerifyError::Overlap { peripheral, register, field } => ErrorView::Overlap(peripheral@, register@, field@),
        }
    }
}

/// What is wrong with a bitfield of register `reg` of peripheral `p`, if anything: its name, its
/// width, then its extent.
pub open spec fn field_error(p: Seq<char>, reg: Seq<char>, f: Bitfield, reg_width: u8) -> Option<ErrorView> {
    if f.name@.len() == 0 {
        Some(ErrorView::UnnamedBitfield(p, reg, f.offset))
    } else if f.width == 0 {
        Some(ErrorView::ZeroWidth(p, reg, f.name@))
    } else if f.width + f.offset > reg_width {
        Some(ErrorView::ExceedsWidth(p, reg, f.name@, f.offset, f.width, reg_width))
    } else {
        None
    }
}

/// The first error among the bitfields of `fields`, in order.
pub open spec fn first_field_error(p: Seq<char>, reg: Seq<char>, fields: Seq<Bitfield>, reg_width: u8) -> Option<ErrorView>
    decreases fields.len(),
{
    if fields.len() == 0 {
        None
    } else if field_error(p, reg, fields[0], reg_width) is Some {
        field_error(p, reg, fields[0], reg_width)
    } else {
        first_field_error(p, reg, fields.skip(1), reg_width)
    }
}

/// The bits of two bitfields overlap.
pub open spec fn overlap(a: Bitfield, b: Bitfield) -> bool {
    a.offset < b.offset + b.width && b.offset < a.offset + a.width
}

/// Bitfield `i` of `fields` overlaps with an earlier one.
pub open spec fn overlaps_earlier(fields: Seq<Bitfield>, i: int) -> bool {
    exists|j: int| 0 <= j < i && overlap(#[trigger] fields[j], fields[i])
}

/// The first bitfield of `fields` that overlaps with an earlier one, if any.
pub open spec fn first_overlap(fields: Seq<Bitfield>) -> Option<int> {
    if exists|i: int| 0 <= i < fields.len() && overlaps_earlier(fields, i) {
        Some(choose|i: int| 0 <= i < fields.len() && overlaps_earlier(fields, i)
            && forall|k: int| 0 <= k < i ==> !overlaps_earlier(fields, k))
    } else {
        None
    }
}

/// What is wrong with register `r` of peripheral `p`, if anything: its name, its bitfields
/// (those that can be read, then those that can be written), then overlaps among the readable
/// bitfields, then among the writable ones.
pub open spec fn register_error(p: Seq<char>, r: Register) -> Option<ErrorView> {
    let w = r.width.bits_spec();
    if r.name@.len() == 0 {
        Some(ErrorView::UnnamedRegister(p, r.offset))
    } else if first_field_error(p, r.name@, r.r_fields@ + r.w_fields@, w) is Some {
        first_field_error(p, r.name@, r.r_fields@ + r.w_fields@, w)
    } else if first_overlap(r.r_fields@) is Some {
        Some(ErrorView::Overlap(p, r.name@, r.r_fields@[first_overlap(r.r_fields@)->0].name@))
    } else if first_overlap(r.w_fields@) is Some {
        Some(ErrorView::Overlap(p, r.name@, r.w_fields@[first_overlap(r.w_fields@)->0].name@))
    } else {
        None
    }
}

/// The first error among the registers of `regs`, in order.
pub open spec fn first_register_error(p: Seq<char>, regs: Seq<Register>) -> Option<ErrorView>
    decreases regs.len(),
{
    if regs.len() == 0 {
        None
    } else if register_error(p, regs[0]) is Some {
        register_error(p, regs[0])
    } else {
        first_register_error(p, regs.skip(1))
    }
}

/// What is wrong with a peripheral, if anything: its name, its instances, then its registers.
pub open spec fn peripheral_error(p: Peripheral) -> Option<ErrorView> {
    if p.name@.len() == 0 {
        Some(ErrorView::UnnamedPeripheral)
    } else if p.instances is Many && p.instances->instances@.len() < 2 {
        Some(ErrorView::TooFewInstances(p.name@, p.instances->instances@.len()))
    } else {
        first_register_error(p.name@, p.registers@)
    }
}

/// The first error among the peripherals of `ps`, in order.
pub open spec fn first_peripheral_error(ps: Seq<Peripheral>) -> Option<ErrorView>
    decreases ps.len(),
{
    if ps.len() == 0 {
        None
    } else if peripheral_error(ps[0]) is Some {
        peripheral_error(ps[0])
    } else {
        first_peripheral_error(ps.skip(1))
    }
}

/// Every bitfield of `fields` is named, not empty and fits in `reg_width` bits.
pub open spec fn fields_fit(fields: Seq<Bitfield>, reg_width: u8) -> bool {
    forall|i: int| 0 <= i < fields.len() ==> {
        let f = #[trigger] fields[i];
        f.name@.len() != 0 && f.width != 0 && f.width + f.offset <= reg_width
    }
}

/// No two bitfields of `fields` share a bit.
pub open spec fn fields_disjoint(fields: Seq<Bitfield>) -> bool {
    forall|i: int, j: int| 0 <= j < i < fields.len() ==> !overlap(#[trigger] fields[j], #[trigger] fields[i])
}

/// A register passes the checks: it is named, its bitfields are named, not empty and fit in it,
/// and neither its readable nor its writable bitfields overlap.
pub open spec fn register_ok(r: Register) -> bool {
    &&& r.name@.len() != 0
    &&& fields_fit(r.r_fields@ + r.w_fields@, r.width.bits_spec())
    &&& fields_disjoint(r.r_fields@)
    &&& fields_disjoint(r.w_fields@)
}

/// A peripheral passes the checks: it is named, has at least 2 instances if it is said to have
/// several, and each of its registers passes.
pub open spec fn peripheral_ok(p: Peripheral) -> bool {
    &&& p.name@.len() != 0
    &&& (p.instances is Many ==> p.instances->instances@.len() >= 2)
    &&& forall|k: int| 0 <= k < p.registers@.len() ==> register_ok(#[trigger] p.registers@[k])
}

proof fn lemma_first_field_error_none(p: Seq<char>, reg: Seq<char>, fields: Seq<Bitfield>, w: u8)
    ensures
        first_field_error(p, reg, fields, w) is None <==> fields_fit(fields, w),
    decreases fields.len(),
{
    if fields.len() > 0 {
        lemma_first_field_error_none(p, reg, fields.skip(1), w);
        if fields_fit(fields, w) {
            assert forall|i: int| 0 <= i < fields.skip(1).len() implies {
                let f = #[trigger] fields.skip(1)[i];
                f.name@.len() != 0 && f.width != 0 && f.width + f.offset <= w
            } by {
                assert(fields.skip(1)[i] == fields[i + 1]);
            }
        }
        if first_field_error(p, reg, fields, w) is None {
            assert forall|i: int| 0 <= i < fields.len() implies {
                let f = #[trigger] fields[i];
                f.name@.len() != 0 && f.width != 0 && f.width + f.offset <= w
            } by {
                if i > 0 {
                    assert(fields.skip(1)[i - 1] == fields[i]);
                }
            }
        }
    }
}

proof fn lemma_first_register_error_none(p: Seq<char>, regs: Seq<Register>)
    requires
        forall|k: int| 0 <= k < regs.len() ==> (register_error(p, #[trigger] regs[k]) is None <==> register_ok(regs[k])),
    ensures
        first_register_error(p, regs) is None <==> forall|k: int| 0 <= k < regs.len() ==> register_ok(#[trigger] regs[k]),
    decreases regs.len(),
{
    if regs.len() > 0 {
        assert forall|k: int| 0 <= k < regs.skip(1).len() implies (register_error(p, #[trigger] regs.skip(1)[k]) is None
            <==> register_ok(regs.skip(1)[k])) by {
            assert(regs.skip(1)[k] == regs[k + 1]);
        }
        lemma_first_register_error_none(p, regs.skip(1));
        if forall|k: int| 0 <= k < regs.len() ==> register_ok(#[trigger] regs[k]) {
            assert forall|k: int| 0 <= k < regs.skip(1).len() implies register_ok(#[trigger] regs.skip(1)[k]) by {
                assert(regs.skip(1)[k] == regs[k + 1]);
            }
        }
        if first_register_error(p, regs) is None {
            assert forall|k: int| 0 <= k < regs.len() implies register_ok(#[trigger] regs[k]) by {
                if k > 0 {
                    assert(regs.skip(1)[k - 1] == regs[k]);
                }
            }
        }
    }
}

proof fn lemma_first_peripheral_error_none(ps: Seq<Peripheral>)
    requires
        forall|k: int| 0 <= k < ps.len() ==> (peripheral_error(#[trigger] ps[k]) is None <==> peripheral_ok(ps[k])),
    ensures
        first_peripheral_error(ps) is None <==> forall|k: int| 0 <= k < ps.len() ==> peripheral_ok(#[trigger] ps[k]),
    decreases ps.len(),
{
    if ps.len() > 0 {
        assert forall|k: int| 0 <= k < ps.skip(1).len() implies (peripheral_error(#[trigger] ps.skip(1)[k]) is None
            <==> peripheral_ok(ps.skip(1)[k])) by {
            assert(ps.skip(1)[k] == ps[k + 1]);
        }
        lemma_first_peripheral_error_none(ps.skip(1));
        if forall|k: int| 0 <= k < ps.len() ==> peripheral_ok(#[trigger] ps[k]) {
            assert forall|k: int| 0 <= k < ps.skip(1).len() implies peripheral_ok(#[trigger] ps.skip(1)[k]) by {
                assert(ps.skip(1)[k] == ps[k + 1]);
            }
        }
        if first_peripheral_error(ps) is None {
            assert forall|k: int| 0 <= k < ps.len() implies peripheral_ok(#[trigger] ps[k]) by {
                if k > 0 {
                    assert(ps.skip(1)[k - 1] == ps[k]);
                }
            }
        }
    }
}

proof fn lemma_register_ok(p: Seq<char>, r: Register)
    ensures
        register_error(p, r) is None <==> register_ok(r),
{
    lemma_first_field_error_none(p, r.name@, r.r_fields@ + r.w_fields@, r.width.bits_spec());
    assert(first_overlap(r.r_fields@) is None <==> fields_disjoint(r.r_fields@)) by {
        if fields_disjoint(r.r_fields@) {
            assert forall|i: int| 0 <= i < r.r_fields@.len() implies !overlaps_earlier(r.r_fields@, i) by {
                assert forall|j: int| 0 <= j < i implies !overlap(#[trigger] r.r_fields@[j], r.r_fields@[i]) by {
                }
            }
        }
        if first_overlap(r.r_fields@) is None {
            assert forall|i: int, j: int| 0 <= j < i < r.r_fields@.len() implies !overlap(#[trigger] r.r_fields@[j], #[trigger] r.r_fields@[i]) by {
                assert(!overlaps_earlier(r.r_fields@, i));
            }
        }
    }
    assert(first_overlap(r.w_fields@) is None <==> fields_disjoint(r.w_fields@)) by {
        if fields_disjoint(r.w_fields@) {
            assert forall|i: int| 0 <= i < r.w_fields@.len() implies !overlaps_earlier(r.w_fields@, i) by {
                assert forall|j: int| 0 <= j < i implies !overlap(#[trigger] r.w_fields@[j], r.w_fields@[i]) by {
                }
            }
        }
        if first_overlap(r.w_fields@) is None {
            assert forall|i: int, j: int| 0 <= j < i < r.w_fields@.len() implies !overlap(#[trigger] r.w_fields@[j], #[trigger] r.w_fields@[i]) by {
                assert(!overlaps_earlier(r.w_fields@, i));
            }
        }
    }
}

/// `Device::verify` accepts exactly the devices whose every peripheral is named and has at least
/// 2 instances if said to have several, whose every register is named, and whose every bitfield
/// is named, not empty and fits in its register, with no two readable or two writable bitfields
/// of a register sharing a bit.
pub proof fn verify_accepts_exactly(d: Device)
    ensures
        first_peripheral_error(d.peripherals@) is None
            <==> forall|k: int| 0 <= k < d.peripherals@.len() ==> peripheral_ok(#[trigger] d.peripherals@[k]),
{
    let ps = d.peripherals@;
    assert forall|k: int| 0 <= k < ps.len() implies (peripheral_error(#[trigger] ps[k]) is None <==> peripheral_ok(ps[k])) by {
        let p = ps[k];
        assert forall|i: int| 0 <= i < p.registers@.len() implies (register_error(p.name@, #[trigger] p.registers@[i]) is None
            <==> register_ok(p.registers@[i])) by {
            lemma_register_ok(p.name@, p.registers@[i]);
        }
        lemma_first_register_error_none(p.name@, p.registers@);
    }
    lemma_first_peripheral_error_none(ps);
}

/// The bitfields can be checked: none is 64 bits wide, whose mask would not fit in 64 bits, and
/// each one's offset and width add up within a byte.
pub open spec fn fields_computable(fields: Seq<Bitfield>) -> bool {
    forall|i: int| 0 <= i < fields.len() ==> #[trigger] fields[i].width != 64 && fields[i].width + fields[i].offset <= 255
}

/// Every bitfield of the device is small enough for its mask to be computed.
pub open spec fn device_computable(d: Device) -> bool {
    forall|i: int, k: int| 0 <= i < d.peripherals@.len() && 0 <= k < d.peripherals@[i].registers@.len() ==> {
        let r = #[trigger] d.peripherals@[i].registers@[k];
        fields_computable(r.r_fields@) && fields_computable(r.w_fields@)
    }
}

/// The bits of the bitfield at `offset`, `width` bits wide.
pub open spec fn field_mask(width: u8, offset: u8) -> u64 {
    (((1u64 << width) - 1) as u64) << offset
}

/// Two bitfield masks share a bit exactly when the bitfields overlap.
proof fn lemma_masks_overlap(w1: u8, o1: u8, w2: u8, o2: u8)
    by (bit_vector)
    requires
        1 <= w1 < 64,
        1 <= w2 < 64,
        w1 + o1 <= 64,
        w2 + o2 <= 64,
    ensures
        (((((1u64 << w1) - 1) as u64) << o1) & ((((1u64 << w2) - 1) as u64) << o2) != 0) == (o1 < o2 + w2 && o2 < o1 + w1),
{
}

/// A bit of `a | b` is in `m` exactly when it is in `a` or in `b`.
proof fn lemma_or_and(a: u64, b: u64, m: u64)
    by (bit_vector)
    ensures
        ((a | b) & m == 0) == (a & m == 0 && b & m == 0),
{
}

/// The union of the masks of the first `i` bitfields.
pub open spec fn used_mask(fields: Seq<Bitfield>, i: int) -> u64
    decreases i,
{
    if i <= 0 {
        0
    } else {
        used_mask(fields, i - 1) | field_mask(fields[i - 1].width, fields[i - 1].offset)
    }
}

proof fn lemma_used_mask(fields: Seq<Bitfield>, i: int, m: u64)
    requires
        0 <= i <= fields.len(),
    ensures
        (used_mask(fields, i) & m == 0) == (forall|j: int| 0 <= j < i ==> #[trigger] field_mask(fields[j].width, fields[j].offset) & m == 0),
    decreases i,
{
    if i > 0 {
        lemma_used_mask(fields, i - 1, m);
        lemma_or_and(used_mask(fields, i - 1), field_mask(fields[i - 1].width, fields[i - 1].offset), m);
        assert forall|j: int| 0 <= j < i && (forall|k: int| 0 <= k < i - 1 ==> #[trigger] field_mask(fields[k].width, fields[k].offset) & m == 0)
            && field_mask(fields[i - 1].width, fields[i - 1].offset) & m == 0 implies #[trigger] field_mask(fields[j].width, fields[j].offset) & m == 0 by {
            if j < i - 1 {
            }
        }
    } else {
        assert(0u64 & m == 0) by (bit_vector);
    }
}

/// Checks that no bitfield of `fields` overlaps with an earlier one; gives the index of the first
/// one that does.
fn check_for_overlap(fields: &Vec<Bitfield>) -> (r: Option<usize>)
    requires
        forall|i: int| 0 <= i < fields@.len() ==> 1 <= #[trigger] fields@[i].width < 64 && fields@[i].width + fields@[i].offset <= 64,
    ensures
        r == (match first_overlap(fields@) {
            Some(i) => Some(i as usize),
            None => None::<usize>,
        }),
        r matches Some(i) ==> i < fields@.len() && first_overlap(fields@) == Some(i as int),
{
    let mut used: u64 = 0;
    let mut i: usize = 0;
    while i < fields.len()
        invariant
            i <= fields@.len(),
            forall|k: int| 0 <= k < fields@.len() ==> 1 <= #[trigger] fields@[k].width < 64 && fields@[k].width + fields@[k].offset <= 64,
            used == used_mask(fields@, i as int),
            forall|k: int| 0 <= k < i ==> !overlaps_earlier(fields@, k),
        decreases fields.len() - i,
    {
        let field = &fields[i];
        let w = field.width;
        let o = field.offset;
        assert((1u64 << w) >= 1) by (bit_vector)
            requires
                w < 64,
        ;
        let mask: u64 = ((1u64 << w) - 1) << o;
        proof {
            assert(mask == field_mask(w, o));
            lemma_used_mask(fields@, i as int, mask);
            assert forall|j: int| 0 <= j < i implies (field_mask(fields@[j].width, fields@[j].offset) & mask != 0)
                == overlap(#[trigger] fields@[j], fields@[i as int]) by {
                lemma_masks_overlap(fields@[j].width, fields@[j].offset, w, o);
            }
        }
        if used & mask != 0 {
            proof {
                assert(overlaps_earlier(fields@, i as int));
                let c = choose|x: int| 0 <= x < fields@.len() && overlaps_earlier(fields@, x)
                    && forall|k: int| 0 <= k < x ==> !overlaps_earlier(fields@, k);
                assert(0 <= i < fields@.len() && overlaps_earlier(fields@, i as int)
                    && forall|k: int| 0 <= k < i ==> !overlaps_earlier(fields@, k));
                if c < i {
                } else if c > i {
                }
                assert(c == i);
            }
            return Some(i);
        }
        used = used | mask;
        i = i + 1;
    }
    proof {
        assert(!(exists|x: int| 0 <= x < fields@.len() && overlaps_earlier(fields@, x)));
    }
    None
}


/// Whether a string is empty.
fn is_empty(s: &String) -> (r: bool)
    ensures
        r == (s@.len() == 0),
{
    s.as_str().is_empty()
}

impl Bitfield {
    /// Checks the bitfield's name and width.
    fn verify(&self, peripheral: &String, register: &String) -> (r: Result<(), VerifyError>)
        ensures
            r matches Err(e) ==> field_error(peripheral@, register@, *self, 64) == Some(e@),
            r is Ok <==> (self.name@.len() != 0 && self.width != 0),
    {
        if is_empty(&self.name) {
            return Err(VerifyError::UnnamedBitfield { peripheral: peripheral.clone(), register: register.clone(), offset: self.offset });
        }
        if self.width == 0 {
            return Err(VerifyError::ZeroWidth { peripheral: peripheral.clone(), register: register.clone(), field: self.name.clone() });
        }
        Ok(())
    }
}

/// The first error of `a + b` is that of `a`, or else that of `b`.
proof fn lemma_first_field_error_append(p: Seq<char>, reg: Seq<char>, a: Seq<Bitfield>, b: Seq<Bitfield>, w: u8)
    ensures
        first_field_error(p, reg, a + b, w) == (if first_field_error(p, reg, a, w) is Some {
            first_field_error(p, reg, a, w)
        } else {
            first_field_error(p, reg, b, w)
        }),
    decreases a.len(),
{
    if a.len() == 0 {
        assert(a + b =~= b);
    } else {
        assert((a + b)[0] == a[0]);
        assert((a + b).skip(1) =~= a.skip(1) + b);
        lemma_first_field_error_append(p, reg, a.skip(1), b, w);
    }
}

/// When no bitfield has an error, each fits in the register.
proof fn lemma_no_field_error(p: Seq<char>, reg: Seq<char>, fields: Seq<Bitfield>, w: u8, k: int)
    requires
        first_field_error(p, reg, fields, w) is None,
        0 <= k < fields.len(),
    ensures
        field_error(p, reg, fields[k], w) is None,
    decreases fields.len(),
{
    if k > 0 {
        assert(fields.skip(1)[k - 1] == fields[k]);
        lemma_no_field_error(p, reg, fields.skip(1), w, k - 1);
    }
}

/// Checks the name, width and extent of each bitfield of `fields`, in order.
fn check_fields(fields: &Vec<Bitfield>, peripheral: &String, register: &String, reg_width: u8) -> (r: Result<(), VerifyError>)
    requires
        fields_computable(fields@),
        register@.len() != 0,
        reg_width <= 64,
    ensures
        r is Ok <==> first_field_error(peripheral@, register@, fields@, reg_width) is None,
        r matches Err(e) ==> first_field_error(peripheral@, register@, fields@, reg_width) == Some(e@),
{
    let ghost p = peripheral@;
    let ghost reg = register@;
    let mut i: usize = 0;
    assert(fields@.skip(0) =~= fields@);
    while i < fields.len()
        invariant
            i <= fields@.len(),
            p == peripheral@,
            reg == register@,
            fields_computable(fields@),
            first_field_error(p, reg, fields@, reg_width) == first_field_error(p, reg, fields@.skip(i as int), reg_width),
        decreases fields.len() - i,
    {
        let field = &fields[i];
        proof {
            assert(fields@.skip(i as int)[0] == fields@[i as int]);
            assert(fields@.skip(i as int).skip(1) =~= fields@.skip(i + 1));
        }
        match field.verify(peripheral, register) {
            Err(e) => {
                return Err(e);
            },
            Ok(()) => {},
        }
        if field.width + field.offset > reg_width {
            return Err(VerifyError::ExceedsWidth {
                peripheral: peripheral.clone(),
                register: register.clone(),
                field: field.name.clone(),
                offset: field.offset,
                width: field.width,
                reg_width,
            });
        }
        i = i + 1;
    }
    assert(fields@.skip(i as int).len() == 0);
    Ok(())
}

impl Register {
    /// Checks the register: its name, its bitfields and overlaps among them.
    fn verify(&self, peripheral: &String) -> (r: Result<(), VerifyError>)
        requires
            fields_computable(self.r_fields@),
            fields_computable(self.w_fields@),
        ensures
            r is Ok <==> register_error(peripheral@, *self) is None,
            r matches Err(e) ==> register_error(peripheral@, *self) == Some(e@),
    {
        if is_empty(&self.name) {
            return Err(VerifyError::UnnamedRegister { peripheral: peripheral.clone(), offset: self.offset });
        }
        let reg_width = self.width.bits();
        let ghost p = peripheral@;
        let ghost reg = self.name@;
        proof {
            lemma_first_field_error_append(p, reg, self.r_fields@, self.w_fields@, reg_width);
        }
        match check_fields(&self.r_fields, peripheral, &self.name, reg_width) {
            Err(e) => {
                return Err(e);
            },
            Ok(()) => {},
        }
        match check_fields(&self.w_fields, peripheral, &self.name, reg_width) {
            Err(e) => {
                return Err(e);
            },
            Ok(()) => {},
        }
        proof {
            assert forall|k: int| 0 <= k < self.r_fields@.len() implies 1 <= #[trigger] self.r_fields@[k].width < 64
                && self.r_fields@[k].width + self.r_fields@[k].offset <= 64 by {
                lemma_no_field_error(p, reg, self.r_fields@, reg_width, k);
            }
            assert forall|k: int| 0 <= k < self.w_fields@.len() implies 1 <= #[trigger] self.w_fields@[k].width < 64
                && self.w_fields@[k].width + self.w_fields@[k].offset <= 64 by {
                lemma_no_field_error(p, reg, self.w_fields@, reg_width, k);
            }
        }
        overlap_error(peripheral, &self.name, &self.r_fields, &self.w_fields)
    }
}

/// Checks for overlaps among the readable bitfields, then among the writable ones.
#[verifier::rlimit(40)]
fn overlap_error(peripheral: &String, register: &String, r_fields: &Vec<Bitfield>, w_fields: &Vec<Bitfield>) -> (r: Result<(), VerifyError>)
    requires
        forall|k: int| 0 <= k < r_fields@.len() ==> 1 <= #[trigger] r_fields@[k].width < 64 && r_fields@[k].width + r_fields@[k].offset <= 64,
        forall|k: int| 0 <= k < w_fields@.len() ==> 1 <= #[trigger] w_fields@[k].width < 64 && w_fields@[k].width + w_fields@[k].offset <= 64,
    ensures
        r is Ok <==> first_overlap(r_fields@) is None && first_overlap(w_fields@) is None,
        r matches Err(e) ==> e@ == (if first_overlap(r_fields@) is Some {
            ErrorView::Overlap(peripheral@, register@, r_fields@[first_overlap(r_fields@)->0].name@)
        } else {
            ErrorView::Overlap(peripheral@, register@, w_fields@[first_overlap(w_fields@)->0].name@)
        }),
{
    if let Some(k) = check_for_overlap(r_fields) {
        return Err(VerifyError::Overlap { peripheral: peripheral.clone(), register: register.clone(), field: r_fields[k].name.clone() });
    }
    if let Some(k) = check_for_overlap(w_fields) {
        return Err(VerifyError::Overlap { peripheral: peripheral.clone(), register: register.clone(), field: w_fields[k].name.clone() });
    }
    Ok(())
}

impl Peripheral {
    /// Checks the peripheral: its name, its instances and its registers.
    fn verify(&self) -> (r: Result<(), VerifyError>)
        requires
            forall|k: int| 0 <= k < self.registers@.len() ==> {
                let reg = #[trigger] self.registers@[k];
                fields_computable(reg.r_fields@) && fields_computable(reg.w_fields@)
            },
        ensures
            r is Ok <==> peripheral_error(*self) is None,
            r matches Err(e) ==> peripheral_error(*self) == Some(e@),
    {
        if is_empty(&self.name) {
            return Err(VerifyError::UnnamedPeripheral);
        }
        match &self.instances {
            Instances::Many { instances } => {
                let n = instances.len();
                if n < 2 {
                    return Err(VerifyError::TooFewInstances { peripheral: self.name.clone(), n });
                }
            },
            Instances::Single { .. } => {},
        }
        let ghost regs = self.registers@;
        assert(peripheral_error(*self) == first_register_error(self.name@, regs));
        let mut i: usize = 0;
        assert(regs.skip(0) =~= regs);
        while i < self.registers.len()
            invariant
                i <= regs.len(),
                regs == self.registers@,
                peripheral_error(*self) == first_register_error(self.name@, regs),
                forall|k: int| 0 <= k < regs.len() ==> {
                    let reg = #[trigger] regs[k];
                    fields_computable(reg.r_fields@) && fields_computable(reg.w_fields@)
                },
                first_register_error(self.name@, regs) == first_register_error(self.name@, regs.skip(i as int)),
            decreases regs.len() - i,
        {
            proof {
                assert(regs.skip(i as int)[0] == regs[i as int]);
                assert(regs.skip(i as int).skip(1) =~= regs.skip(i + 1));
            }
            match self.registers[i].verify(&self.name) {
                Err(e) => {
                    assert(first_register_error(self.name@, regs.skip(i as int)) == register_error(self.name@, regs[i as int]));
                    return Err(e);
                },
                Ok(()) => {},
            }
            i = i + 1;
        }
        assert(regs.skip(i as int).len() == 0);
        Ok(())
    }
}

impl Device {
    /// Checks every peripheral of the device, in order, and reports the first thing wrong.
    pub fn verify(&self) -> (r: Result<(), VerifyError>)
        requires
            device_computable(*self),
        ensures
            r is Ok <==> first_peripheral_error(self.peripherals@) is None,
            r matches Err(e) ==> first_peripheral_error(self.peripherals@) == Some(e@),
    {
        let ghost ps = self.peripherals@;
        let mut i: usize = 0;
        assert(ps.skip(0) =~= ps);
        while i < self.peripherals.len()
            invariant
                i <= ps.len(),
                ps == self.peripherals@,
                device_computable(*self),
                first_peripheral_error(ps) == first_peripheral_error(ps.skip(i as int)),
            decreases ps.len() - i,
        {
            proof {
                assert(ps.skip(i as int)[0] == ps[i as int]);
                assert(ps.skip(i as int).skip(1) =~= ps.skip(i + 1));
                assert forall|k: int| 0 <= k < ps[i as int].registers@.len() implies {
                    let reg = #[trigger] ps[i as int].registers@[k];
                    fields_computable(reg.r_fields@) && fields_computable(reg.w_fields@)
                } by {
                    assert(self.peripherals@[i as int].registers@[k] == ps[i as int].registers@[k]);
                }
            }
            match self.peripherals[i].verify() {
                Err(e) => {
                    assert(first_peripheral_error(ps.skip(i as int)) == peripheral_error(ps[i as int]));
                    return Err(e);
                },
                Ok(()) => {},
            }
            i = i + 1;
        }
        assert(ps.skip(i as int).len() == 0);
        Ok(())
    }
}
} // verus!
