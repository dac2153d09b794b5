//! Translation of an SVD device description into the intermediate representation. The SVD side
//! is held in the types of this module, which carry what the translation reads of the parsed
//! file.
use vstd::prelude::*;

use crate::regen::ir::{Access, Bitfield, Device, Instances, Peripheral, Register, Width};
use crate::text::{append_chars, chars_of, string_of};

verus! {

/// Access of a register or a field, as an SVD file gives it
#[derive(Clone, Copy, PartialEq, Eq, Debug, Structural)]
pub enum SvdAccess {
    /// `read-only`
    ReadOnly,
    /// `write-only`
    WriteOnly,
    /// `read-write`
    ReadWrite,
    /// `writeOnce`
    WriteOnce,
    /// `read-writeOnce`
    ReadWriteOnce,
}

/// Properties that registers inherit from their peripheral, cluster or device
#[derive(Clone, Copy, PartialEq, Eq, Debug, Structural)]
pub struct SvdRegisterProperties {
    /// Register width in bits
    pub size: Option<u32>,
    /// Access
    pub access: Option<SvdAccess>,
}

/// Bits of a field
#[derive(Clone, Copy, PartialEq, Eq, Debug, Structural)]
pub struct SvdBitRange {
    /// Lowest bit
    pub offset: u32,
    /// Number of bits
    pub width: u32,
}

/// A field of a register
pub struct SvdFieldInfo {
    /// Name
    pub name: String,
    /// Description
    pub description: Option<String>,
    /// Bits
    pub bit_range: SvdBitRange,
    /// Access, if the field gives one
    pub access: Option<SvdAccess>,
}

/// A field, or an array of fields
pub enum SvdField {
    /// One field
    Single(SvdFieldInfo),
    /// An array of fields
    Array(SvdFieldInfo),
}

/// A register
pub struct SvdRegisterInfo {
    /// Name; in an array, `[%s]` stands for the index
    pub name: String,
    /// Description
    pub description: Option<String>,
    /// Offset from the base address of its peripheral or cluster
    pub address_offset: u32,
    /// Width in bits, if the register gives one
    pub size: Option<u32>,
    /// Access, if the register gives one
    pub access: Option<SvdAccess>,
    /// Fields
    pub fields: Option<Vec<SvdField>>,
}

/// How an array of registers or clusters repeats
#[derive(Clone, Copy, PartialEq, Eq, Debug, Structural)]
pub struct SvdDim {
    /// Number of elements
    pub dim: u32,
    /// Address distance between elements
    pub dim_increment: u32,
    /// Whether the elements are named by an index list
    pub has_dim_index: bool,
}

/// A register, or an array of registers
pub enum SvdRegister {
    /// One register
    Single(SvdRegisterInfo),
    /// An array of registers
    Array(SvdRegisterInfo, SvdDim),
}

/// A member of a cluster: a register, or a nested cluster
pub enum SvdChild {
    /// A register, or an array of registers
    Register(SvdRegister),
    /// A nested cluster, which the translation does not take
    Cluster,
}

/// A cluster of registers
pub struct SvdClusterInfo {
    /// Name; in an array, `[%s]` stands for the index
    pub name: String,
    /// Offset from the base address of its peripheral
    pub address_offset: u32,
    /// Properties its registers inherit
    pub default_register_properties: SvdRegisterProperties,
    /// Members
    pub children: Vec<SvdChild>,
}

/// A cluster, or an array of clusters
pub enum SvdCluster {
    /// One cluster
    Single(SvdClusterInfo),
    /// An array of clusters
    Array(SvdClusterInfo, SvdDim),
}

/// A member of a peripheral: a register or a cluster
pub enum SvdRegisterCluster {
    /// A register, or an array of registers
    Register(SvdRegister),
    /// A cluster, or an array of clusters
    Cluster(SvdCluster),
}

/// A peripheral
pub struct SvdPeripheral {
    /// Name
    pub name: String,
    /// Description
    pub description: Option<String>,
    /// Base address
    pub base_address: u32,
    /// Whether the peripheral is derived from another one
    pub derived_from: bool,
    /// Members, if it lists any
    pub registers: Option<Vec<SvdRegisterCluster>>,
}

/// A device
pub struct SvdDevice {
    /// Name
    pub name: String,
    /// Properties its registers inherit
    pub default_register_properties: SvdRegisterProperties,
    /// Peripherals
    pub peripherals: Vec<SvdPeripheral>,
}

/// The `description` of an IR item matches that of the SVD item.
pub open spec fn same_description(a: Option<String>, b: Option<String>) -> bool {
    match (a, b) {
        (Some(x), Some(y)) => x@ == y@,
        (None, None) => true,
        _ => false,
    }
}

/// The access modes the translation supports.
pub open spec fn supported_access(a: SvdAccess) -> bool {
    a is ReadOnly || a is WriteOnly || a is ReadWrite
}

/// The IR access of a supported SVD access: writes are safe.
pub open spec fn access_spec(a: SvdAccess) -> Access {
    match a {
        SvdAccess::ReadOnly => Access::ReadOnly,
        SvdAccess::WriteOnly => Access::WriteOnly { unsafe_write: false },
        _ => Access::ReadWrite { unsafe_write: false },
    }
}

/// Translates a supported access.
pub fn access(a: SvdAccess) -> (r: Access)
    requires
        supported_access(a),
    ensures
        r == access_spec(a),
{
    match a {
        SvdAccess::ReadOnly => Access::ReadOnly,
        SvdAccess::WriteOnly => Access::WriteOnly { unsafe_write: false },
        _ => Access::ReadWrite { unsafe_write: false },
    }
}

/// The register widths the translation supports.
pub open spec fn supported_size(size: u32) -> bool {
    size == 8 || size == 16 || size == 32 || size == 64
}

/// The IR width of a register of `size` bits.
pub open spec fn size_spec(size: u32) -> Width {
    if size == 8 {
        Width::U8
    } else if size == 16 {
        Width::U16
    } else if size == 32 {
        Width::U32
    } else {
        Width::U64
    }
}

/// Translates a supported register size.
pub fn register_size(size: u32) -> (r: Width)
    requires
        supported_size(size),
    ensures
        r == size_spec(size),
{
    if size == 8 {
        Width::U8
    } else if size == 16 {
        Width::U16
    } else if size == 32 {
        Width::U32
    } else {
        Width::U64
    }
}

/// The offset and width of a bit range, as bytes.
pub fn bit_range(br: SvdBitRange) -> (r: (u8, u8))
    requires
        br.offset < 256,
        br.width < 256,
    ensures
        r == (br.offset as u8, br.width as u8),
{
    (br.offset as u8, br.width as u8)
}

/// The access that a field has: its own, or else that of its register.
pub open spec fn field_access(f: SvdFieldInfo, reg_access: Option<SvdAccess>) -> Option<SvdAccess> {
    match f.access {
        Some(a) => Some(a),
        None => reg_access,
    }
}

/// A single field with a supported access and a bit range that fits in bytes.
pub open spec fn field_translatable(f: SvdField, reg_access: Option<SvdAccess>) -> bool {
    match f {
        SvdField::Single(fi) => {
            &&& field_access(fi, reg_access) matches Some(a) && supported_access(a)
            &&& fi.bit_range.offset < 256
            &&& fi.bit_range.width < 256
        },
        SvdField::Array(_) => false,
    }
}

/// The fields of a register that the translation takes: single fields with a supported access
/// and a bit range that fits in bytes.
pub open spec fn fields_translatable(fs: Seq<SvdField>, reg_access: Option<SvdAccess>) -> bool {
    forall|i: int| 0 <= i < fs.len() ==> field_translatable(#[trigger] fs[i], reg_access)
}

/// The field information of a single field.
pub open spec fn field_info(f: SvdField) -> SvdFieldInfo {
    match f {
        SvdField::Single(fi) => fi,
        SvdField::Array(fi) => fi,
    }
}

/// The fields of `fs` that can be read (`read` set) or written, in order.
pub open spec fn fields_with(fs: Seq<SvdField>, reg_access: Option<SvdAccess>, read: bool) -> Seq<SvdFieldInfo>
    decreases fs.len(),
{
    if fs.len() == 0 {
        Seq::empty()
    } else {
        let fi = field_info(fs.last());
        let a = field_access(fi, reg_access);
        let keep = if read {
            a == Some(SvdAccess::ReadOnly) || a == Some(SvdAccess::ReadWrite)
        } else {
            a == Some(SvdAccess::WriteOnly) || a == Some(SvdAccess::ReadWrite)
        };
        fields_with(fs.drop_last(), reg_access, read) + (if keep { seq![fi] } else { Seq::empty() })
    }
}

/// The IR bitfield of an SVD field.
pub open spec fn bitfield_of(b: Bitfield, fi: SvdFieldInfo) -> bool {
    &&& b.name@ == fi.name@
    &&& same_description(b.description, fi.description)
    &&& b.offset == fi.bit_range.offset
    &&& b.width == fi.bit_range.width
}

/// The IR bitfields of the SVD fields, in order.
pub open spec fn bitfields_of(bs: Seq<Bitfield>, fis: Seq<SvdFieldInfo>) -> bool {
    &&& bs.len() == fis.len()
    &&& forall|i: int| 0 <= i < fis.len() ==> bitfield_of(#[trigger] bs[i], fis[i])
}

fn copy_description(d: &Option<String>) -> (r: Option<String>)
    ensures
        same_description(r, *d),
{
    match d {
        Some(s) => Some(s.clone()),
        None => None,
    }
}

/// Splits the fields of a register into those that can be read and those that can be written;
/// a read-write field is in both.
pub fn fields(fs: &Vec<SvdField>, reg_access: Option<SvdAccess>) -> (r: (Vec<Bitfield>, Vec<Bitfield>))
    requires
        fields_translatable(fs@, reg_access),
    ensures
        bitfields_of(r.0@, fields_with(fs@, reg_access, true)),
        bitfields_of(r.1@, fields_with(fs@, reg_access, false)),
{
    let mut r_fields: Vec<Bitfield> = Vec::new();
    let mut w_fields: Vec<Bitfield> = Vec::new();
    let mut i: usize = 0;
    while i < fs.len()
        invariant
            i <= fs@.len(),
            fields_translatable(fs@, reg_access),
            bitfields_of(r_fields@, fields_with(fs@.take(i as int), reg_access, true)),
            bitfields_of(w_fields@, fields_with(fs@.take(i as int), reg_access, false)),
        decreases fs.len() - i,
    {
        assert(fs@.take(i + 1).drop_last() =~= fs@.take(i as int));
        assert(fs@.take(i + 1).last() == fs@[i as int]);
        let ghost before_r = fields_with(fs@.take(i as int), reg_access, true);
        let ghost before_w = fields_with(fs@.take(i as int), reg_access, false);
        match &fs[i] {
            SvdField::Single(fi) => {
                let (offset, width) = bit_range(fi.bit_range);
                let a = match fi.access {
                    Some(a) => a,
                    None => match reg_access {
                        Some(a) => a,
                        None => {
                            assert(false);
                            SvdAccess::ReadOnly
                        },
                    },
                };
                let bf = Bitfield { description: copy_description(&fi.description), name: fi.name.clone(), offset, width };
                match a {
                    SvdAccess::ReadOnly => {
                        r_fields.push(bf);
                        assert(fields_with(fs@.take(i + 1), reg_access, true) =~= before_r.push(*fi));
                        assert(fields_with(fs@.take(i + 1), reg_access, false) =~= before_w);
                    },
                    SvdAccess::WriteOnly => {
                        w_fields.push(bf);
                        assert(fields_with(fs@.take(i + 1), reg_access, true) =~= before_r);
                        assert(fields_with(fs@.take(i + 1), reg_access, false) =~= before_w.push(*fi));
                    },
                    SvdAccess::ReadWrite => {
                        r_fields.push(bf.clone());
                        w_fields.push(bf);
                        assert(fields_with(fs@.take(i + 1), reg_access, true) =~= before_r.push(*fi));
                        assert(fields_with(fs@.take(i + 1), reg_access, false) =~= before_w.push(*fi));
                    },
                    _ => {
                        assert(false);
                    },
                }
            },
            SvdField::Array(_) => {
                assert(false);
            },
        }
        i = i + 1;
    }
    assert(fs@.take(i as int) =~= fs@);
    (r_fields, w_fields)
}

/// The access a register has: its own, or else that of the first of `defaults` that gives one.
pub open spec fn inherited_access(own: Option<SvdAccess>, defaults: Seq<SvdRegisterProperties>) -> Option<SvdAccess>
    decreases defaults.len(),
{
    match own {
        Some(a) => Some(a),
        None => if defaults.len() == 0 {
            None
        } else {
            inherited_access(defaults[0].access, defaults.skip(1))
        },
    }
}

/// The width a register has: its own, or else that of the first of `defaults` that gives one.
pub open spec fn inherited_size(own: Option<u32>, defaults: Seq<SvdRegisterProperties>) -> Option<u32>
    decreases defaults.len(),
{
    match own {
        Some(s) => Some(s),
        None => if defaults.len() == 0 {
            None
        } else {
            inherited_size(defaults[0].size, defaults.skip(1))
        },
    }
}

fn first_access(own: Option<SvdAccess>, defaults: &[SvdRegisterProperties]) -> (r: Option<SvdAccess>)
    ensures
        r == inherited_access(own, defaults@),
{
    if own.is_some() {
        return own;
    }
    let mut i: usize = 0;
    assert(defaults@.skip(0) =~= defaults@);
    while i < defaults.len()
        invariant
            i <= defaults@.len(),
            own is None,
            inherited_access(own, defaults@) == inherited_access(None, defaults@.skip(i as int)),
        decreases defaults.len() - i,
    {
        assert(defaults@.skip(i as int).skip(1) =~= defaults@.skip(i + 1));
        let ghost rest = defaults@.skip(i as int);
        assert(rest[0] == defaults@[i as int]);
        assert(inherited_access(None, rest) == inherited_access(rest[0].access, rest.skip(1)));
        if defaults[i].access.is_some() {
            assert(inherited_access(rest[0].access, rest.skip(1)) == rest[0].access);
            return defaults[i].access;
        }
        i = i + 1;
    }
    None
}

fn first_size(own: Option<u32>, defaults: &[SvdRegisterProperties]) -> (r: Option<u32>)
    ensures
        r == inherited_size(own, defaults@),
{
    if own.is_some() {
        return own;
    }
    let mut i: usize = 0;
    assert(defaults@.skip(0) =~= defaults@);
    while i < defaults.len()
        invariant
            i <= defaults@.len(),
            own is None,
            inherited_size(own, defaults@) == inherited_size(None, defaults@.skip(i as int)),
        decreases defaults.len() - i,
    {
        assert(defaults@.skip(i as int).skip(1) =~= defaults@.skip(i + 1));
        let ghost rest = defaults@.skip(i as int);
        assert(rest[0] == defaults@[i as int]);
        assert(inherited_size(None, rest) == inherited_size(rest[0].size, rest.skip(1)));
        if defaults[i].size.is_some() {
            assert(inherited_size(rest[0].size, rest.skip(1)) == rest[0].size);
            return defaults[i].size;
        }
        i = i + 1;
    }
    None
}

/// The registers the translation takes: with a supported access and width, of their own or
/// inherited, and fields it takes.
pub open spec fn register_translatable(r: SvdRegisterInfo, defaults: Seq<SvdRegisterProperties>) -> bool {
    &&& inherited_access(r.access, defaults) matches Some(a) && supported_access(a)
    &&& inherited_size(r.size, defaults) matches Some(s) && supported_size(s)
    &&& r.fields matches Some(fs) ==> fields_translatable(fs@, r.access)
}

/// The IR register of the SVD register `r`, named `name` at `offset`.
pub open spec fn register_of(out: Register, r: SvdRegisterInfo, name: Seq<char>, offset: nat, defaults: Seq<SvdRegisterProperties>) -> bool {
    &&& out.name@ == name
    &&& out.offset == offset
    &&& same_description(out.description, r.description)
    &&& out.access == access_spec(inherited_access(r.access, defaults)->0)
    &&& out.width == size_spec(inherited_size(r.size, defaults)->0)
    &&& match r.fields {
        Some(fs) => bitfields_of(out.r_fields@, fields_with(fs@, r.access, true))
            && bitfields_of(out.w_fields@, fields_with(fs@, r.access, false)),
        None => out.r_fields@.len() == 0 && out.w_fields@.len() == 0,
    }
}

/// The name of a register in a cluster: the cluster's name, `_`, the register's name.
pub open spec fn in_cluster(cluster: Seq<char>, name: Seq<char>) -> Seq<char> {
    cluster + seq!['_'] + name
}

/// Translates the register `r` under the name `name` at `offset`, with `cluster` the name of the
/// cluster that holds it, if any.
fn register_at(r: &SvdRegisterInfo, name: &Vec<char>, offset: u32, cluster: Option<&Vec<char>>, defaults: &[SvdRegisterProperties]) -> (out: Register)
    requires
        register_translatable(*r, defaults@),
    ensures
        register_of(out, *r, match cluster {
            Some(c) => in_cluster(c@, name@),
            None => name@,
        }, offset as nat, defaults@),
{
    let (r_fields, w_fields) = match &r.fields {
        Some(fs) => fields(fs, r.access),
        None => (Vec::new(), Vec::new()),
    };
    let full = match cluster {
        Some(c) => {
            let mut v = c.clone();
            v.push('_');
            append_chars(&mut v, name);
            assert(v@ =~= in_cluster(c@, name@));
            v
        },
        None => name.clone(),
    };
    let a = match first_access(r.access, defaults) {
        Some(a) => a,
        None => {
            assert(false);
            SvdAccess::ReadOnly
        },
    };
    let size = match first_size(r.size, defaults) {
        Some(s) => s,
        None => {
            assert(false);
            32
        },
    };
    Register {
        access: access(a),
        description: copy_description(&r.description),
        name: string_of(&full),
        offset: offset as u64,
        r_fields,
        w_fields,
        width: register_size(size),
    }
}

/// Translates a register, named after its cluster if it is in one, at its offset within the
/// peripheral.
pub fn register(r: &SvdRegisterInfo, cluster: Option<&SvdClusterInfo>, defaults: &[SvdRegisterProperties]) -> (out: Register)
    requires
        register_translatable(*r, defaults@),
        cluster matches Some(c) ==> c.address_offset + r.address_offset <= u32::MAX,
    ensures
        match cluster {
            Some(c) => register_of(out, *r, in_cluster(c.name@, r.name@), (c.address_offset + r.address_offset) as nat, defaults@),
            None => register_of(out, *r, r.name@, r.address_offset as nat, defaults@),
        },
{
    let name = chars_of(r.name.as_str());
    match cluster {
        Some(c) => {
            let cname = chars_of(c.name.as_str());
            register_at(r, &name, c.address_offset + r.address_offset, Some(&cname), defaults)
        },
        None => register_at(r, &name, r.address_offset, None, defaults),
    }
}

/// `s` with every `pat` replaced by `rep`, from left to right (`str::replace`, for a pattern that
/// is not empty).
pub open spec fn replace_all(s: Seq<char>, pat: Seq<char>, rep: Seq<char>) -> Seq<char>
    decreases s.len(),
{
    if s.len() == 0 {
        Seq::empty()
    } else if pat.len() > 0 && pat.len() <= s.len() && s.take(pat.len() as int) == pat {
        rep + replace_all(s.skip(pat.len() as int), pat, rep)
    } else {
        seq![s[0]] + replace_all(s.skip(1), pat, rep)
    }
}

/// The placeholder that stands for the index in the name of an array element.
pub open spec fn index_placeholder() -> Seq<char> {
    seq!['[', '%', 's', ']']
}

/// The name of element `k` of an array whose names follow `template`.
pub open spec fn element_name(template: Seq<char>, k: nat) -> Seq<char> {
    replace_all(template, index_placeholder(), crate::text::radix_digits(k, 10))
}

fn replace_chars(s: &Vec<char>, pat: &Vec<char>, rep: &Vec<char>) -> (r: Vec<char>)
    requires
        pat@.len() > 0,
    ensures
        r@ == replace_all(s@, pat@, rep@),
{
    let mut out: Vec<char> = Vec::new();
    let mut i: usize = 0;
    let n = s.len();
    assert(s@.skip(0) =~= s@);
    while i < n
        invariant
            n == s@.len(),
            i <= n,
            pat@.len() > 0,
            replace_all(s@, pat@, rep@) == out@ + replace_all(s@.skip(i as int), pat@, rep@),
        decreases n - i,
    {
        let ghost rest = s@.skip(i as int);
        let mut matches = pat.len() <= n - i;
        let mut k: usize = 0;
        while matches && k < pat.len()
            invariant
                n == s@.len(),
                i < n,
                k <= pat@.len(),
                matches ==> pat@.len() <= n - i,
                matches ==> forall|j: int| 0 <= j < k ==> s@[i + j] == pat@[j],
                !matches ==> !(pat@.len() <= rest.len() && rest.take(pat@.len() as int) == pat@),
                rest == s@.skip(i as int),
            decreases pat.len() - k,
        {
            if s[i + k] != pat[k] {
                assert(rest.take(pat@.len() as int)[k as int] != pat@[k as int]);
                matches = false;
            }
            k = k + 1;
        }
        if matches {
            assert(rest.take(pat@.len() as int) =~= pat@);
            assert(rest.skip(pat@.len() as int) =~= s@.skip(i + pat@.len()));
            assert(out@ + (rep@ + replace_all(rest.skip(pat@.len() as int), pat@, rep@))
                =~= (out@ + rep@) + replace_all(s@.skip(i + pat@.len()), pat@, rep@));
            append_chars(&mut out, rep);
            i = i + pat.len();
        } else {
            assert(rest.skip(1) =~= s@.skip(i + 1));
            assert(out@ + (seq![rest[0]] + replace_all(rest.skip(1), pat@, rep@))
                =~= out@.push(s@[i as int]) + replace_all(s@.skip(i + 1), pat@, rep@));
            out.push(s[i]);
            i = i + 1;
        }
    }
    assert(s@.skip(i as int) =~= Seq::<char>::empty());
    assert(out@ + Seq::<char>::empty() =~= out@);
    out
}

fn element_name_chars(template: &Vec<char>, k: u32) -> (r: Vec<char>)
    ensures
        r@ == element_name(template@, k as nat),
{
    let pat = vec!['[', '%', 's', ']'];
    assert(pat@ =~= index_placeholder());
    let digits = crate::text::radix_chars(k as u64, 10);
    replace_chars(template, &pat, &digits)
}

/// A register the translation makes: its name, its offset within the peripheral, the SVD
/// register it comes from and the properties it inherits.
pub struct RegisterSource {
    /// Name
    pub name: Seq<char>,
    /// Offset within the peripheral
    pub offset: nat,
    /// The SVD register
    pub info: SvdRegisterInfo,
    /// Inherited properties, nearest first
    pub defaults: Seq<SvdRegisterProperties>,
}

/// The register information of a register or of an array of registers.
pub open spec fn register_info(r: SvdRegister) -> SvdRegisterInfo {
    match r {
        SvdRegister::Single(ri) => ri,
        SvdRegister::Array(ri, _) => ri,
    }
}

/// The registers that `r` stands for, in a cluster named `cluster` at `base` (or directly in
/// the peripheral, at 0): one, or one per element of an array.
pub open spec fn register_sources(r: SvdRegister, cluster: Option<Seq<char>>, base: nat, defaults: Seq<SvdRegisterProperties>) -> Seq<RegisterSource> {
    let named = |n: Seq<char>| match cluster {
        Some(c) => in_cluster(c, n),
        None => n,
    };
    match r {
        SvdRegister::Single(ri) => seq![RegisterSource { name: named(ri.name@), offset: (base + ri.address_offset) as nat, info: ri, defaults }],
        SvdRegister::Array(ri, dim) => Seq::new(dim.dim as nat, |k: int| RegisterSource {
            name: named(element_name(ri.name@, k as nat)),
            offset: (base + ri.address_offset + k * dim.dim_increment) as nat,
            info: ri,
            defaults,
        }),
    }
}

/// The registers translated are those of the sources, in order.
pub open spec fn registers_match(out: Seq<Register>, srcs: Seq<RegisterSource>) -> bool {
    &&& out.len() == srcs.len()
    &&& forall|i: int| 0 <= i < srcs.len() ==> register_of(#[trigger] out[i], srcs[i].info, srcs[i].name, srcs[i].offset, srcs[i].defaults)
}

/// The sources the translation takes: registers it takes, at offsets that fit in 32 bits.
pub open spec fn sources_translatable(srcs: Seq<RegisterSource>) -> bool {
    forall|i: int| 0 <= i < srcs.len() ==> register_translatable((#[trigger] srcs[i]).info, srcs[i].defaults)
        && srcs[i].offset <= u32::MAX
}

/// An array the translation takes: named by index, with the index placeholder in its name.
pub open spec fn array_supported(name: Seq<char>, dim: SvdDim) -> bool {
    &&& !dim.has_dim_index
    &&& exists|k: int| 0 <= k && k + 4 <= name.len() && #[trigger] name.subrange(k, k + 4) == index_placeholder()
}

/// A register or register array the translation takes.
pub open spec fn register_supported(r: SvdRegister) -> bool {
    r matches SvdRegister::Array(ri, dim) ==> array_supported(ri.name@, dim)
}

proof fn lemma_registers_append(out: Seq<Register>, srcs: Seq<RegisterSource>, more: Seq<Register>, msrcs: Seq<RegisterSource>)
    requires
        registers_match(out, srcs),
        registers_match(more, msrcs),
    ensures
        registers_match(out + more, srcs + msrcs),
{
    assert forall|i: int| 0 <= i < (srcs + msrcs).len() implies register_of(#[trigger] (out + more)[i], (srcs + msrcs)[i].info, (srcs + msrcs)[i].name, (srcs + msrcs)[i].offset, (srcs + msrcs)[i].defaults) by {
        if i < srcs.len() {
            assert((out + more)[i] == out[i]);
        } else {
            assert((out + more)[i] == more[i - srcs.len()]);
            assert((srcs + msrcs)[i] == msrcs[i - srcs.len()]);
        }
    }
}

/// Translates a register, or each element of a register array, into `ir_regs`, in a cluster
/// named `cluster` at `base` (or directly in the peripheral, at 0).
fn register_(r: &SvdRegister, cluster: Option<&Vec<char>>, base: u32, defaults: &[SvdRegisterProperties], ir_regs: &mut Vec<Register>)
    requires
        register_supported(*r),
        sources_translatable(register_sources(*r, match cluster { Some(c) => Some(c@), None => None }, base as nat, defaults@)),
        cluster is None ==> base == 0,
    ensures
        final(ir_regs)@ == old(ir_regs)@ + final(ir_regs)@.skip(old(ir_regs)@.len() as int),
        registers_match(final(ir_regs)@.skip(old(ir_regs)@.len() as int), register_sources(*r, match cluster { Some(c) => Some(c@), None => None }, base as nat, defaults@)),
{
    let ghost c = match cluster { Some(c) => Some(c@), None => None };
    let ghost srcs = register_sources(*r, c, base as nat, defaults@);
    let ghost start = ir_regs@;
    match r {
        SvdRegister::Single(ri) => {
            assert(srcs[0].offset <= u32::MAX);
            let name = chars_of(ri.name.as_str());
            let reg = register_at(ri, &name, base + ri.address_offset, cluster, defaults);
            ir_regs.push(reg);
            assert(ir_regs@.skip(start.len() as int) =~= seq![reg]);
        },
        SvdRegister::Array(ri, dim) => {
            let template = chars_of(ri.name.as_str());
            let mut k: u32 = 0;
            assert(ir_regs@.skip(start.len() as int) =~= Seq::<Register>::empty());
            while k < dim.dim
                invariant
                    k <= dim.dim,
                    *r == SvdRegister::Array(*ri, *dim),
                    template@ == ri.name@,
                    srcs == register_sources(*r, c, base as nat, defaults@),
                    c == (match cluster { Some(cc) => Some(cc@), None => None::<Seq<char>> }),
                    sources_translatable(srcs),
                    srcs.len() == dim.dim,
                    ir_regs@.len() == start.len() + k,
                    ir_regs@ == start + ir_regs@.skip(start.len() as int),
                    registers_match(ir_regs@.skip(start.len() as int), srcs.take(k as int)),
                decreases dim.dim - k,
            {
                let ghost src = srcs[k as int];
                assert(src.offset <= u32::MAX);
                assert(src.offset == base + ri.address_offset + k * dim.dim_increment);
                assert(k * dim.dim_increment <= src.offset) by (nonlinear_arith)
                    requires src.offset == base + ri.address_offset + k * dim.dim_increment, base >= 0, ri.address_offset >= 0;
                let name = element_name_chars(&template, k);
                let offset = base + ri.address_offset + k * dim.dim_increment;
                let reg = register_at(ri, &name, offset, cluster, defaults);
                let ghost before = ir_regs@;
                ir_regs.push(reg);
                proof {
                    assert(ir_regs@.skip(start.len() as int) =~= before.skip(start.len() as int).push(reg));
                    assert(srcs.take(k + 1) =~= srcs.take(k as int).push(src));
                    lemma_registers_append(before.skip(start.len() as int), srcs.take(k as int), seq![reg], seq![src]);
                    assert(before.skip(start.len() as int) + seq![reg] =~= before.skip(start.len() as int).push(reg));
                    assert(srcs.take(k as int) + seq![src] =~= srcs.take(k as int).push(src));
                    assert(ir_regs@ =~= start + ir_regs@.skip(start.len() as int));
                }
                k = k + 1;
            }
            assert(srcs.take(k as int) =~= srcs);
        },
    }
}

/// The registers of the members of a cluster named `cname` at `base`; register arrays are
/// expanded.
pub open spec fn cluster_children_sources(children: Seq<SvdChild>, cname: Seq<char>, base: nat, defaults: Seq<SvdRegisterProperties>) -> Seq<RegisterSource>
    decreases children.len(),
{
    if children.len() == 0 {
        Seq::empty()
    } else {
        cluster_children_sources(children.drop_last(), cname, base, defaults) + match children.last() {
            SvdChild::Register(r) => register_sources(r, Some(cname), base, defaults),
            SvdChild::Cluster => Seq::empty(),
        }
    }
}

/// The registers of the members of an element of a cluster array, named `cname` at `base`: each
/// member is taken as one register, with its name as written.
pub open spec fn array_children_sources(children: Seq<SvdChild>, cname: Seq<char>, base: nat, defaults: Seq<SvdRegisterProperties>) -> Seq<RegisterSource>
    decreases children.len(),
{
    if children.len() == 0 {
        Seq::empty()
    } else {
        array_children_sources(children.drop_last(), cname, base, defaults) + match children.last() {
            SvdChild::Register(r) => seq![RegisterSource {
                name: in_cluster(cname, register_info(r).name@),
                offset: (base + register_info(r).address_offset) as nat,
                info: register_info(r),
                defaults,
            }],
            SvdChild::Cluster => Seq::empty(),
        }
    }
}

/// The registers of the first `k` elements of a cluster array.
pub open spec fn cluster_array_sources(ci: SvdClusterInfo, dim: SvdDim, defaults: Seq<SvdRegisterProperties>, k: nat) -> Seq<RegisterSource>
    decreases k,
{
    if k == 0 {
        Seq::empty()
    } else {
        let j = (k - 1) as nat;
        cluster_array_sources(ci, dim, defaults, j)
            + array_children_sources(ci.children@, element_name(ci.name@, j), (ci.address_offset + j * dim.dim_increment) as nat, defaults)
    }
}

/// The registers of a member of a peripheral whose device gives the properties `d`.
pub open spec fn item_sources(item: SvdRegisterCluster, d: SvdRegisterProperties) -> Seq<RegisterSource> {
    match item {
        SvdRegisterCluster::Register(r) => register_sources(r, None, 0, seq![d]),
        SvdRegisterCluster::Cluster(SvdCluster::Single(info)) => cluster_children_sources(
            info.children@, info.name@, info.address_offset as nat, seq![info.default_register_properties, d]),
        SvdRegisterCluster::Cluster(SvdCluster::Array(ci, dim)) => cluster_array_sources(
            ci, dim, seq![ci.default_register_properties, d], dim.dim as nat),
    }
}

/// The registers of the members of a peripheral, in order.
pub open spec fn peripheral_sources(regs: Seq<SvdRegisterCluster>, d: SvdRegisterProperties) -> Seq<RegisterSource>
    decreases regs.len(),
{
    if regs.len() == 0 {
        Seq::empty()
    } else {
        peripheral_sources(regs.drop_last(), d) + item_sources(regs.last(), d)
    }
}

/// A member of a peripheral that the translation takes: no nested clusters, arrays named by
/// index, element offsets that fit in 32 bits.
pub open spec fn item_supported(item: SvdRegisterCluster) -> bool {
    match item {
        SvdRegisterCluster::Register(r) => register_supported(r),
        SvdRegisterCluster::Cluster(SvdCluster::Single(info)) => forall|j: int| 0 <= j < info.children@.len()
            ==> (#[trigger] info.children@[j] matches SvdChild::Register(r) && register_supported(r)),
        SvdRegisterCluster::Cluster(SvdCluster::Array(ci, dim)) => {
            &&& array_supported(ci.name@, dim)
            &&& dim.dim > 0 ==> ci.address_offset + (dim.dim - 1) * dim.dim_increment <= u32::MAX
            &&& forall|j: int| 0 <= j < ci.children@.len() ==> (#[trigger] ci.children@[j] is Register)
        },
    }
}

proof fn lemma_appended(start: Seq<Register>, a: Seq<Register>, b: Seq<Register>)
    ensures
        (start + a + b).skip(start.len() as int) == a + b,
        (start + a).skip(start.len() as int) == a,
{
    assert((start + a + b).skip(start.len() as int) =~= a + b);
    assert((start + a).skip(start.len() as int) =~= a);
}

fn cluster_children(children: &Vec<SvdChild>, cname: &Vec<char>, base: u32, defaults: &[SvdRegisterProperties], ir_regs: &mut Vec<Register>)
    requires
        forall|j: int| 0 <= j < children@.len() ==> (#[trigger] children@[j] matches SvdChild::Register(r) && register_supported(r)),
        sources_translatable(cluster_children_sources(children@, cname@, base as nat, defaults@)),
    ensures
        final(ir_regs)@ == old(ir_regs)@ + final(ir_regs)@.skip(old(ir_regs)@.len() as int),
        registers_match(final(ir_regs)@.skip(old(ir_regs)@.len() as int), cluster_children_sources(children@, cname@, base as nat, defaults@)),
{
    let ghost start = ir_regs@;
    let ghost all = cluster_children_sources(children@, cname@, base as nat, defaults@);
    let mut i: usize = 0;
    assert(children@.take(0) =~= Seq::<SvdChild>::empty());
    assert(ir_regs@.skip(start.len() as int) =~= Seq::<Register>::empty());
    while i < children.len()
        invariant
            i <= children@.len(),
            forall|j: int| 0 <= j < children@.len() ==> (#[trigger] children@[j] matches SvdChild::Register(r) && register_supported(r)),
            all == cluster_children_sources(children@, cname@, base as nat, defaults@),
            sources_translatable(all),
            ir_regs@ == start + ir_regs@.skip(start.len() as int),
            registers_match(ir_regs@.skip(start.len() as int), cluster_children_sources(children@.take(i as int), cname@, base as nat, defaults@)),
        decreases children.len() - i,
    {
        proof {
            lemma_children_prefix(children@, cname@, base as nat, defaults@, i as int);
        }
        let ghost before = ir_regs@;
        let ghost done = cluster_children_sources(children@.take(i as int), cname@, base as nat, defaults@);
        assert(children@.take(i + 1).drop_last() =~= children@.take(i as int));
        assert(children@.take(i + 1).last() == children@[i as int]);
        match &children[i] {
            SvdChild::Register(r) => {
                let ghost more = register_sources(*r, Some(cname@), base as nat, defaults@);
                assert(sources_translatable(more)) by {
                    assert forall|k: int| 0 <= k < more.len() implies register_translatable((#[trigger] more[k]).info, more[k].defaults)
                        && more[k].offset <= u32::MAX by {
                        assert(all == cluster_children_sources(children@.take(i + 1), cname@, base as nat, defaults@)
                            + all.skip(cluster_children_sources(children@.take(i + 1), cname@, base as nat, defaults@).len() as int));
                        assert(cluster_children_sources(children@.take(i + 1), cname@, base as nat, defaults@) == done + more);
                        assert(all[done.len() + k] == more[k]);
                    }
                }
                register_(r, Some(cname), base, defaults, ir_regs);
                proof {
                    let a = before.skip(start.len() as int);
                    let b = ir_regs@.skip(before.len() as int);
                    lemma_appended(start, a, b);
                    assert(before == start + a);
                    assert(ir_regs@ =~= start + a + b);
                    lemma_registers_append(a, done, b, more);
                }
            },
            SvdChild::Cluster => {
                assert(false);
            },
        }
        i = i + 1;
    }
    assert(children@.take(i as int) =~= children@);
}

proof fn lemma_children_prefix(children: Seq<SvdChild>, cname: Seq<char>, base: nat, defaults: Seq<SvdRegisterProperties>, i: int)
    requires
        0 <= i < children.len(),
    ensures
        cluster_children_sources(children, cname, base, defaults)
            == cluster_children_sources(children.take(i + 1), cname, base, defaults)
            + cluster_children_sources(children, cname, base, defaults).skip(cluster_children_sources(children.take(i + 1), cname, base, defaults).len() as int),
    decreases children.len(),
{
    let all = cluster_children_sources(children, cname, base, defaults);
    let pre = cluster_children_sources(children.take(i + 1), cname, base, defaults);
    if i + 1 == children.len() {
        assert(children.take(i + 1) =~= children);
        assert(all.skip(pre.len() as int) =~= Seq::<RegisterSource>::empty());
        assert(all =~= pre + all.skip(pre.len() as int));
    } else {
        lemma_children_prefix(children.drop_last(), cname, base, defaults, i);
        assert(children.drop_last().take(i + 1) =~= children.take(i + 1));
        let mid = cluster_children_sources(children.drop_last(), cname, base, defaults);
        assert(mid == pre + mid.skip(pre.len() as int));
        assert(all == mid + match children.last() {
            SvdChild::Register(r) => register_sources(r, Some(cname), base, defaults),
            SvdChild::Cluster => Seq::empty(),
        });
        assert(all =~= pre + all.skip(pre.len() as int));
    }
}

proof fn lemma_array_children_prefix(children: Seq<SvdChild>, cname: Seq<char>, base: nat, defaults: Seq<SvdRegisterProperties>, i: int)
    requires
        0 <= i < children.len(),
    ensures
        array_children_sources(children, cname, base, defaults)
            == array_children_sources(children.take(i + 1), cname, base, defaults)
            + array_children_sources(children, cname, base, defaults).skip(array_children_sources(children.take(i + 1), cname, base, defaults).len() as int),
    decreases children.len(),
{
    let all = array_children_sources(children, cname, base, defaults);
    let pre = array_children_sources(children.take(i + 1), cname, base, defaults);
    if i + 1 == children.len() {
        assert(children.take(i + 1) =~= children);
        assert(all =~= pre + all.skip(pre.len() as int));
    } else {
        lemma_array_children_prefix(children.drop_last(), cname, base, defaults, i);
        assert(children.drop_last().take(i + 1) =~= children.take(i + 1));
        let mid = array_children_sources(children.drop_last(), cname, base, defaults);
        assert(mid == pre + mid.skip(pre.len() as int));
        assert(all =~= pre + all.skip(pre.len() as int));
    }
}

fn array_children(children: &Vec<SvdChild>, cname: &Vec<char>, base: u32, defaults: &[SvdRegisterProperties], ir_regs: &mut Vec<Register>)
    requires
        forall|j: int| 0 <= j < children@.len() ==> (#[trigger] children@[j] is Register),
        sources_translatable(array_children_sources(children@, cname@, base as nat, defaults@)),
    ensures
        final(ir_regs)@ == old(ir_regs)@ + final(ir_regs)@.skip(old(ir_regs)@.len() as int),
        registers_match(final(ir_regs)@.skip(old(ir_regs)@.len() as int), array_children_sources(children@, cname@, base as nat, defaults@)),
{
    let ghost start = ir_regs@;
    let ghost all = array_children_sources(children@, cname@, base as nat, defaults@);
    let mut i: usize = 0;
    assert(children@.take(0) =~= Seq::<SvdChild>::empty());
    assert(ir_regs@.skip(start.len() as int) =~= Seq::<Register>::empty());
    while i < children.len()
        invariant
            i <= children@.len(),
            forall|j: int| 0 <= j < children@.len() ==> (#[trigger] children@[j] is Register),
            all == array_children_sources(children@, cname@, base as nat, defaults@),
            sources_translatable(all),
            ir_regs@ == start + ir_regs@.skip(start.len() as int),
            registers_match(ir_regs@.skip(start.len() as int), array_children_sources(children@.take(i as int), cname@, base as nat, defaults@)),
        decreases children.len() - i,
    {
        proof {
            lemma_array_children_prefix(children@, cname@, base as nat, defaults@, i as int);
        }
        let ghost before = ir_regs@;
        let ghost done = array_children_sources(children@.take(i as int), cname@, base as nat, defaults@);
        assert(children@.take(i + 1).drop_last() =~= children@.take(i as int));
        assert(children@.take(i + 1).last() == children@[i as int]);
        match &children[i] {
            SvdChild::Register(r) => {
                let ri = match r {
                    SvdRegister::Single(ri) => ri,
                    SvdRegister::Array(ri, _) => ri,
                };
                let ghost src = RegisterSource {
                    name: in_cluster(cname@, ri.name@),
                    offset: (base + ri.address_offset) as nat,
                    info: *ri,
                    defaults: defaults@,
                };
                assert(array_children_sources(children@.take(i + 1), cname@, base as nat, defaults@) == done + seq![src]);
                assert(all[done.len() as int] == src);
                let name = chars_of(ri.name.as_str());
                let reg = register_at(ri, &name, base + ri.address_offset, Some(cname), defaults);
                ir_regs.push(reg);
                proof {
                    let a = before.skip(start.len() as int);
                    lemma_appended(start, a, seq![reg]);
                    assert(before == start + a);
                    assert(ir_regs@ =~= start + a + seq![reg]);
                    lemma_registers_append(a, done, seq![reg], seq![src]);
                }
            },
            SvdChild::Cluster => {
                assert(false);
            },
        }
        i = i + 1;
    }
    assert(children@.take(i as int) =~= children@);
}

proof fn lemma_cluster_array_prefix(ci: SvdClusterInfo, dim: SvdDim, defaults: Seq<SvdRegisterProperties>, k: nat, n: nat)
    requires
        k <= n,
    ensures
        cluster_array_sources(ci, dim, defaults, n)
            == cluster_array_sources(ci, dim, defaults, k)
            + cluster_array_sources(ci, dim, defaults, n).skip(cluster_array_sources(ci, dim, defaults, k).len() as int),
    decreases n - k,
{
    let all = cluster_array_sources(ci, dim, defaults, n);
    let pre = cluster_array_sources(ci, dim, defaults, k);
    if k == n {
        assert(all =~= pre + all.skip(pre.len() as int));
    } else {
        lemma_cluster_array_prefix(ci, dim, defaults, k, (n - 1) as nat);
        let mid = cluster_array_sources(ci, dim, defaults, (n - 1) as nat);
        assert(mid == pre + mid.skip(pre.len() as int));
        assert(all =~= pre + all.skip(pre.len() as int));
    }
}

fn cluster_array(ci: &SvdClusterInfo, dim: SvdDim, defaults: &[SvdRegisterProperties], ir_regs: &mut Vec<Register>)
    requires
        dim.dim > 0 ==> ci.address_offset + (dim.dim - 1) * dim.dim_increment <= u32::MAX,
        forall|j: int| 0 <= j < ci.children@.len() ==> (#[trigger] ci.children@[j] is Register),
        sources_translatable(cluster_array_sources(*ci, dim, defaults@, dim.dim as nat)),
    ensures
        final(ir_regs)@ == old(ir_regs)@ + final(ir_regs)@.skip(old(ir_regs)@.len() as int),
        registers_match(final(ir_regs)@.skip(old(ir_regs)@.len() as int), cluster_array_sources(*ci, dim, defaults@, dim.dim as nat)),
{
    let ghost start = ir_regs@;
    let ghost all = cluster_array_sources(*ci, dim, defaults@, dim.dim as nat);
    let template = chars_of(ci.name.as_str());
    let mut k: u32 = 0;
    assert(ir_regs@.skip(start.len() as int) =~= Seq::<Register>::empty());
    while k < dim.dim
        invariant
            k <= dim.dim,
            template@ == ci.name@,
            dim.dim > 0 ==> ci.address_offset + (dim.dim - 1) * dim.dim_increment <= u32::MAX,
            forall|j: int| 0 <= j < ci.children@.len() ==> (#[trigger] ci.children@[j] is Register),
            all == cluster_array_sources(*ci, dim, defaults@, dim.dim as nat),
            sources_translatable(all),
            ir_regs@ == start + ir_regs@.skip(start.len() as int),
            registers_match(ir_regs@.skip(start.len() as int), cluster_array_sources(*ci, dim, defaults@, k as nat)),
        decreases dim.dim - k,
    {
        let ghost before = ir_regs@;
        let ghost done = cluster_array_sources(*ci, dim, defaults@, k as nat);
        assert(k * dim.dim_increment <= (dim.dim - 1) * dim.dim_increment) by (nonlinear_arith)
            requires k < dim.dim;
        let cname = element_name_chars(&template, k);
        let base = ci.address_offset + k * dim.dim_increment;
        let ghost more = array_children_sources(ci.children@, cname@, base as nat, defaults@);
        proof {
            lemma_cluster_array_prefix(*ci, dim, defaults@, (k + 1) as nat, dim.dim as nat);
            assert(cluster_array_sources(*ci, dim, defaults@, (k + 1) as nat) == done + more);
            assert forall|j: int| 0 <= j < more.len() implies register_translatable((#[trigger] more[j]).info, more[j].defaults)
                && more[j].offset <= u32::MAX by {
                assert(all[done.len() + j] == more[j]);
            }
        }
        array_children(&ci.children, &cname, base, defaults, ir_regs);
        proof {
            let a = before.skip(start.len() as int);
            let b = ir_regs@.skip(before.len() as int);
            lemma_appended(start, a, b);
            assert(before == start + a);
            assert(ir_regs@ =~= start + a + b);
            lemma_registers_append(a, done, b, more);
        }
        k = k + 1;
    }
}

proof fn lemma_peripheral_prefix(regs: Seq<SvdRegisterCluster>, d: SvdRegisterProperties, i: int)
    requires
        0 <= i < regs.len(),
    ensures
        peripheral_sources(regs, d) == peripheral_sources(regs.take(i + 1), d)
            + peripheral_sources(regs, d).skip(peripheral_sources(regs.take(i + 1), d).len() as int),
    decreases regs.len(),
{
    let all = peripheral_sources(regs, d);
    let pre = peripheral_sources(regs.take(i + 1), d);
    if i + 1 == regs.len() {
        assert(regs.take(i + 1) =~= regs);
        assert(all =~= pre + all.skip(pre.len() as int));
    } else {
        lemma_peripheral_prefix(regs.drop_last(), d, i);
        assert(regs.drop_last().take(i + 1) =~= regs.take(i + 1));
        let mid = peripheral_sources(regs.drop_last(), d);
        assert(mid == pre + mid.skip(pre.len() as int));
        assert(all =~= pre + all.skip(pre.len() as int));
    }
}

/// The peripherals the translation takes: not derived from another, with members it takes.
pub open spec fn peripheral_translatable(p: SvdPeripheral, regs: Seq<SvdRegisterCluster>, d: SvdRegisterProperties) -> bool {
    &&& !p.derived_from
    &&& forall|j: int| 0 <= j < regs.len() ==> item_supported(#[trigger] regs[j])
    &&& sources_translatable(peripheral_sources(regs, d))
}

/// The IR peripheral of an SVD peripheral with members `regs`.
pub open spec fn peripheral_of(out: Peripheral, p: SvdPeripheral, regs: Seq<SvdRegisterCluster>, d: SvdRegisterProperties) -> bool {
    &&& out.name@ == p.name@
    &&& same_description(out.description, p.description)
    &&& out.instances == (Instances::Single { base_address: p.base_address as u64 })
    &&& registers_match(out.registers@, peripheral_sources(regs, d))
}

/// Translates a peripheral whose members are `regs`; registers inherit `defaults`, those of the
/// device, unless their cluster gives its own.
pub fn peripheral(p: &SvdPeripheral, regs: &Vec<SvdRegisterCluster>, defaults: &SvdRegisterProperties) -> (out: Peripheral)
    requires
        peripheral_translatable(*p, regs@, *defaults),
    ensures
        peripheral_of(out, *p, regs@, *defaults),
{
    let ghost all = peripheral_sources(regs@, *defaults);
    let mut ir_regs: Vec<Register> = Vec::new();
    let mut i: usize = 0;
    assert(regs@.take(0) =~= Seq::<SvdRegisterCluster>::empty());
    while i < regs.len()
        invariant
            i <= regs@.len(),
            forall|j: int| 0 <= j < regs@.len() ==> item_supported(#[trigger] regs@[j]),
            all == peripheral_sources(regs@, *defaults),
            sources_translatable(all),
            registers_match(ir_regs@, peripheral_sources(regs@.take(i as int), *defaults)),
        decreases regs.len() - i,
    {
        proof {
            lemma_peripheral_prefix(regs@, *defaults, i as int);
        }
        let ghost before = ir_regs@;
        let ghost done = peripheral_sources(regs@.take(i as int), *defaults);
        let ghost more = item_sources(regs@[i as int], *defaults);
        assert(regs@.take(i + 1).drop_last() =~= regs@.take(i as int));
        assert(regs@.take(i + 1).last() == regs@[i as int]);
        assert(peripheral_sources(regs@.take(i + 1), *defaults) == done + more);
        assert forall|j: int| 0 <= j < more.len() implies register_translatable((#[trigger] more[j]).info, more[j].defaults)
            && more[j].offset <= u32::MAX by {
            assert(all[done.len() + j] == more[j]);
        }
        assert(item_supported(regs@[i as int]));
        match &regs[i] {
            SvdRegisterCluster::Register(r) => {
                let d = [*defaults];
                assert(d@ =~= seq![*defaults]);
                register_(r, None, 0, &d, &mut ir_regs);
            },
            SvdRegisterCluster::Cluster(SvdCluster::Single(info)) => {
                let d = [info.default_register_properties, *defaults];
                assert(d@ =~= seq![info.default_register_properties, *defaults]);
                let cname = chars_of(info.name.as_str());
                cluster_children(&info.children, &cname, info.address_offset, &d, &mut ir_regs);
            },
            SvdRegisterCluster::Cluster(SvdCluster::Array(ci, dim)) => {
                let d = [ci.default_register_properties, *defaults];
                assert(d@ =~= seq![ci.default_register_properties, *defaults]);
                cluster_array(ci, *dim, &d, &mut ir_regs);
            },
        }
        proof {
            let b = ir_regs@.skip(before.len() as int);
            assert(ir_regs@ == before + b);
            lemma_registers_append(before, done, b, more);
        }
        i = i + 1;
    }
    assert(regs@.take(i as int) =~= regs@);
    Peripheral {
        description: copy_description(&p.description),
        instances: Instances::Single { base_address: p.base_address as u64 },
        name: p.name.clone(),
        registers: ir_regs,
    }
}

fn same_text(a: &str, b: &str) -> (r: bool)
    ensures
        r == (a@ == b@),
{
    let x = chars_of(a);
    let y = chars_of(b);
    if x.len() != y.len() {
        return false;
    }
    let mut i: usize = 0;
    while i < x.len()
        invariant
            i <= x@.len(),
            x@.len() == y@.len(),
            x@ == a@,
            y@ == b@,
            forall|k: int| 0 <= k < i ==> x@[k] == y@[k],
        decreases x.len() - i,
    {
        if x[i] != y[i] {
            assert(a@[i as int] != b@[i as int]);
            return false;
        }
        i = i + 1;
    }
    assert(x@ =~= y@);
    true
}

/// Whether the peripheral is listed in the whitelist and lists members.
pub open spec fn selected(p: SvdPeripheral, whitelist: Seq<&str>) -> bool {
    &&& p.registers is Some
    &&& exists|j: int| 0 <= j < whitelist.len() && (#[trigger] whitelist[j])@ == p.name@
}

/// The peripherals of `ps` that the translation selects, in order.
pub open spec fn selected_peripherals(ps: Seq<SvdPeripheral>, whitelist: Seq<&str>) -> Seq<SvdPeripheral>
    decreases ps.len(),
{
    if ps.len() == 0 {
        Seq::empty()
    } else {
        selected_peripherals(ps.drop_last(), whitelist) + (if selected(ps.last(), whitelist) { seq![ps.last()] } else { Seq::empty() })
    }
}

/// The devices the translation takes: each selected peripheral is one it takes.
pub open spec fn device_translatable(d: SvdDevice, whitelist: Seq<&str>) -> bool {
    forall|j: int| 0 <= j < d.peripherals@.len() && selected(#[trigger] d.peripherals@[j], whitelist)
        ==> peripheral_translatable(d.peripherals@[j], d.peripherals@[j].registers->0@, d.default_register_properties)
}

/// Translates the peripherals of the device that the whitelist names and that list registers.
pub fn device(d: &SvdDevice, whitelist: &[&str]) -> (out: Device)
    requires
        device_translatable(*d, whitelist@),
    ensures
        out.extra_docs is None,
        out.name@ == d.name@,
        out.peripherals@.len() == selected_peripherals(d.peripherals@, whitelist@).len(),
        forall|i: int| 0 <= i < out.peripherals@.len() ==> peripheral_of(#[trigger] out.peripherals@[i],
            selected_peripherals(d.peripherals@, whitelist@)[i],
            selected_peripherals(d.peripherals@, whitelist@)[i].registers->0@,
            d.default_register_properties),
{
    let mut peripherals: Vec<Peripheral> = Vec::new();
    let mut i: usize = 0;
    assert(d.peripherals@.take(0) =~= Seq::<SvdPeripheral>::empty());
    while i < d.peripherals.len()
        invariant
            i <= d.peripherals@.len(),
            device_translatable(*d, whitelist@),
            peripherals@.len() == selected_peripherals(d.peripherals@.take(i as int), whitelist@).len(),
            forall|k: int| 0 <= k < peripherals@.len() ==> peripheral_of(#[trigger] peripherals@[k],
                selected_peripherals(d.peripherals@.take(i as int), whitelist@)[k],
                selected_peripherals(d.peripherals@.take(i as int), whitelist@)[k].registers->0@,
                d.default_register_properties),
        decreases d.peripherals.len() - i,
    {
        let p = &d.peripherals[i];
        let ghost sel = selected_peripherals(d.peripherals@.take(i as int), whitelist@);
        assert(d.peripherals@.take(i + 1).drop_last() =~= d.peripherals@.take(i as int));
        assert(d.peripherals@.take(i + 1).last() == d.peripherals@[i as int]);
        let mut listed = false;
        let mut j: usize = 0;
        while j < whitelist.len()
            invariant
                j <= whitelist@.len(),
                listed == exists|k: int| 0 <= k < j && (#[trigger] whitelist@[k])@ == p.name@,
            decreases whitelist.len() - j,
        {
            if same_text(whitelist[j], p.name.as_str()) {
                assert(whitelist@[j as int]@ == p.name@);
                listed = true;
            }
            j = j + 1;
        }
        match &p.registers {
            Some(regs) => {
                if listed {
                    assert(selected(*p, whitelist@));
                    let out = peripheral(p, regs, &d.default_register_properties);
                    peripherals.push(out);
                    assert(selected_peripherals(d.peripherals@.take(i + 1), whitelist@) =~= sel.push(*p));
                } else {
                    assert(!selected(*p, whitelist@));
                    assert(selected_peripherals(d.peripherals@.take(i + 1), whitelist@) =~= sel);
                }
            },
            None => {
                assert(selected_peripherals(d.peripherals@.take(i + 1), whitelist@) =~= sel);
            },
        }
        i = i + 1;
    }
    assert(d.peripherals@.take(i as int) =~= d.peripherals@);
    Device { extra_docs: None, name: d.name.clone(), peripherals }
}

} // verus!
