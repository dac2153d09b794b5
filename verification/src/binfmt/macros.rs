//! What the `binfmt` macros decide at compile time: how many arguments a footprint takes, which
//! footprints `binwrite!` accepts, and how `#[derive(binDebug)]` encodes a type.
use vstd::prelude::*;

use crate::binfmt::Tag;
use crate::text::{append_chars, chars_of, radix_chars, radix_digits, string_of};

verus! {

/// Why a footprint is not well formed.
#[derive(Clone, Copy, PartialEq, Eq, Debug, Structural)]
pub enum FootprintError {
    /// A `{` that neither opens an argument `{}` nor is escaped as `{{`
    UnmatchedOpen,
    /// A `}` that neither closes an argument nor is escaped as `}}`
    UnmatchedClose,
}

/// The number of `{}` arguments of a footprint, where `{{` and `}}` are escaped braces; the
/// first brace that is neither is an error.
pub open spec fn count_args_spec(s: Seq<char>) -> Result<nat, FootprintError>
    decreases s.len(),
{
    if s.len() == 0 {
        Ok(0)
    } else if s[0] == '{' {
        if s.len() >= 2 && s[1] == '}' {
            match count_args_spec(s.skip(2)) {
                Ok(n) => Ok(n + 1),
                Err(e) => Err(e),
            }
        } else if s.len() >= 2 && s[1] == '{' {
            count_args_spec(s.skip(2))
        } else {
            Err(FootprintError::UnmatchedOpen)
        }
    } else if s[0] == '}' {
        if s.len() >= 2 && s[1] == '}' {
            count_args_spec(s.skip(2))
        } else {
            Err(FootprintError::UnmatchedClose)
        }
    } else {
        count_args_spec(s.skip(1))
    }
}

proof fn lemma_count_args_bound(s: Seq<char>)
    ensures
        count_args_spec(s) matches Ok(n) ==> n <= s.len(),
    decreases s.len(),
{
    if s.len() > 0 {
        if s.len() >= 2 && (s[0] == '{' || s[0] == '}') {
            lemma_count_args_bound(s.skip(2));
        } else if s[0] != '{' && s[0] != '}' {
            lemma_count_args_bound(s.skip(1));
        }
    }
}

fn count_args_chars(s: &Vec<char>) -> (r: Result<usize, FootprintError>)
    ensures
        count_args_spec(s@) matches Ok(n) ==> n <= s@.len(),
        match count_args_spec(s@) {
            Ok(n) => r == Ok::<usize, FootprintError>(n as usize),
            Err(e) => r == Err::<usize, FootprintError>(e),
        },
{
    proof {
        lemma_count_args_bound(s@);
    }
    let mut i: usize = 0;
    let mut n: usize = 0;
    assert(s@.skip(0) =~= s@);
    while i < s.len()
        invariant
            i <= s.len(),
            n <= i,
            count_args_spec(s@) == (match count_args_spec(s@.skip(i as int)) {
                Ok(m) => Ok::<nat, FootprintError>((n + m) as nat),
                Err(e) => Err::<nat, FootprintError>(e),
            }),
        decreases s.len() - i,
    {
        let ghost rest = s@.skip(i as int);
        let c = s[i];
        if c == '{' {
            if i + 1 < s.len() && s[i + 1] == '}' {
                assert(rest.skip(2) =~= s@.skip(i + 2));
                n = n + 1;
                i = i + 2;
            } else if i + 1 < s.len() && s[i + 1] == '{' {
                assert(rest.skip(2) =~= s@.skip(i + 2));
                i = i + 2;
            } else {
                return Err(FootprintError::UnmatchedOpen);
            }
        } else if c == '}' {
            if i + 1 < s.len() && s[i + 1] == '}' {
                assert(rest.skip(2) =~= s@.skip(i + 2));
                i = i + 2;
            } else {
                return Err(FootprintError::UnmatchedClose);
            }
        } else {
            assert(rest.skip(1) =~= s@.skip(i + 1));
            i = i + 1;
        }
    }
    assert(s@.skip(i as int) =~= Seq::<char>::empty());
    Ok(n)
}

/// Counts the `{}` arguments of a footprint, rejecting unescaped braces.
pub fn count_args(footprint: &str) -> (r: Result<usize, FootprintError>)
    ensures
        match count_args_spec(footprint@) {
            Ok(n) => r == Ok::<usize, FootprintError>(n as usize),
            Err(e) => r == Err::<usize, FootprintError>(e),
        },
{
    let c = chars_of(footprint);
    count_args_chars(&c)
}

/// On every footprint that the macros accept, they count as many arguments as the host finds
/// argument slots when it decodes the message: each argument written is read back.
pub proof fn count_args_agrees_with_host(s: Seq<char>)
    ensures
        count_args_spec(s) matches Ok(n) ==> n == crate::binfmt_parser::footprint_args(s),
    decreases s.len(),
{
    if s.len() > 0 {
        if s[0] == '{' {
            if s.len() >= 2 && (s[1] == '}' || s[1] == '{') {
                count_args_agrees_with_host(s.skip(2));
            }
        } else if s[0] == '}' {
            if s.len() >= 2 && s[1] == '}' {
                count_args_agrees_with_host(s.skip(2));
                assert(s.skip(1).skip(1) =~= s.skip(2));
                assert(s.skip(1)[0] == '}');
                assert(crate::binfmt_parser::footprint_args(s.skip(1))
                    == crate::binfmt_parser::footprint_args(s.skip(1).skip(1)));
            }
        } else {
            count_args_agrees_with_host(s.skip(1));
        }
    }
}

/// Why `binwrite!` refuses a footprint.
#[derive(Clone, Copy, PartialEq, Eq, Debug, Structural)]
pub enum WriteError {
    /// The footprint holds `@`, which the symbol names reserve.
    ContainsAt,
    /// The footprint is not well formed.
    Footprint(FootprintError),
    /// The number of arguments supplied is not the number of arguments of the footprint.
    ArgCount {
        /// Arguments supplied
        supplied: usize,
        /// Arguments of the footprint
        expected: usize,
    },
}

/// The footprint that a write stores: with a newline at its end for the `println` forms.
pub open spec fn stored_footprint(footprint: Seq<char>, newline: bool) -> Seq<char> {
    if newline {
        footprint.push('\n')
    } else {
        footprint
    }
}

/// Whether `binwrite!` accepts a footprint and `nargs` arguments.
pub open spec fn write_check(footprint: Seq<char>, newline: bool, nargs: usize) -> Result<(), WriteError> {
    if footprint.contains('@') {
        Err(WriteError::ContainsAt)
    } else {
        match count_args_spec(stored_footprint(footprint, newline)) {
            Err(e) => Err(WriteError::Footprint(e)),
            Ok(n) => if n != nargs {
                Err(WriteError::ArgCount { supplied: nargs, expected: n as usize })
            } else {
                Ok(())
            },
        }
    }
}

fn contains_char(s: &Vec<char>, c: char) -> (r: bool)
    ensures
        r == s@.contains(c),
{
    let mut i: usize = 0;
    while i < s.len()
        invariant
            i <= s.len(),
            forall|j: int| 0 <= j < i ==> s@[j] != c,
        decreases s.len() - i,
    {
        if s[i] == c {
            assert(s@[i as int] == c);
            return true;
        }
        i = i + 1;
    }
    false
}

/// Checks the footprint of a `binwrite!` (or, with `newline`, of a `binwriteln!`) that supplies
/// `nargs` arguments, and gives the footprint that the write stores.
pub fn check_write(footprint: &str, newline: bool, nargs: usize) -> (r: Result<String, WriteError>)
    ensures
        match r {
            Ok(f) => write_check(footprint@, newline, nargs) is Ok && f@ == stored_footprint(footprint@, newline),
            Err(e) => write_check(footprint@, newline, nargs) == Err::<(), WriteError>(e),
        },
{
    let mut f = chars_of(footprint);
    if contains_char(&f, '@') {
        return Err(WriteError::ContainsAt);
    }
    if newline {
        f.push('\n');
    }
    assert(f@ == stored_footprint(footprint@, newline));
    match count_args_chars(&f) {
        Err(e) => Err(WriteError::Footprint(e)),
        Ok(n) => if n != nargs {
            Err(WriteError::ArgCount { supplied: nargs, expected: n })
        } else {
            Ok(string_of(&f))
        },
    }
}

/// The name of the linker section that holds the symbol of a footprint: `.binfmt.` and the
/// footprint.
pub fn section_name(footprint: &str) -> (r: String)
    ensures
        r@ == ".binfmt."@ + footprint@,
{
    let mut v = chars_of(".binfmt.");
    append_chars(&mut v, &chars_of(footprint));
    string_of(&v)
}

/// `parts` joined by `sep`.
pub open spec fn join(parts: Seq<Seq<char>>, sep: Seq<char>) -> Seq<char>
    decreases parts.len(),
{
    if parts.len() == 0 {
        Seq::empty()
    } else if parts.len() == 1 {
        parts[0]
    } else {
        parts[0] + sep + join(parts.skip(1), sep)
    }
}

proof fn lemma_join_push(parts: Seq<Seq<char>>, sep: Seq<char>, p: Seq<char>)
    ensures
        join(parts.push(p), sep) == (if parts.len() == 0 { p } else { join(parts, sep) + sep + p }),
    decreases parts.len(),
{
    let q = parts.push(p);
    assert(q[q.len() - 1] == p);
    if parts.len() >= 2 {
        lemma_join_push(parts.skip(1), sep, p);
        assert(q.skip(1) =~= parts.skip(1).push(p));
        assert(q[0] == parts[0]);
        assert(parts[0] + sep + (join(parts.skip(1), sep) + sep + p) =~= parts[0] + sep + join(parts.skip(1), sep) + sep + p);
    } else if parts.len() == 1 {
        assert(q.skip(1) =~= seq![p]);
        assert(q[0] == parts[0]);
        assert(join(seq![p], sep) == p);
    } else {
        assert(q =~= seq![p]);
    }
}

fn join_chars(parts: &Vec<Vec<char>>, sep: &Vec<char>) -> (r: Vec<char>)
    ensures
        r@ == join(Seq::new(parts@.len(), |i: int| parts@[i]@), sep@),
{
    let ghost ps = Seq::new(parts@.len(), |i: int| parts@[i]@);
    let mut r: Vec<char> = Vec::new();
    let mut i: usize = 0;
    assert(ps.take(0) =~= Seq::<Seq<char>>::empty());
    while i < parts.len()
        invariant
            i <= parts@.len(),
            ps == Seq::new(parts@.len(), |i: int| parts@[i]@),
            r@ == join(ps.take(i as int), sep@),
        decreases parts.len() - i,
    {
        proof {
            lemma_join_push(ps.take(i as int), sep@, ps[i as int]);
            assert(ps.take(i as int).push(ps[i as int]) =~= ps.take(i + 1));
        }
        if i > 0 {
            append_chars(&mut r, sep);
        }
        append_chars(&mut r, &parts[i]);
        i = i + 1;
    }
    assert(ps.take(i as int) =~= ps);
    r
}

/// A named field of a struct, as the derive sees it: its name and whether its type is `bool`.
pub struct NamedField {
    /// Name of the field
    pub name: String,
    /// Whether the field is a `bool`
    pub is_bool: bool,
}

/// A variant of an enum, as the derive sees it: its name and whether it has no fields.
pub struct Variant {
    /// Name of the variant
    pub name: String,
    /// Whether the variant is a unit variant
    pub is_unit: bool,
}

/// The fields of a struct.
pub enum Fields {
    /// `struct S { a: A, .. }`
    Named(Vec<NamedField>),
    /// `struct S(A, ..)`, with its number of fields
    Unnamed(usize),
    /// `struct S;`
    Unit,
}

/// The shape of the type that `binDebug` is derived for.
pub enum Data {
    /// An enum, with its variants
    Enum(Vec<Variant>),
    /// A union
    Union,
    /// A struct, with its fields
    Struct(Fields),
}

/// What the derived `fmt` writes after the tag and the footprint's symbol.
#[derive(Clone, Copy, PartialEq, Eq, Debug, Structural)]
pub enum Payload {
    /// The index of the variant, in one byte
    Discriminant,
    /// The `bool` fields as bits, the first field in bit 0, in this many little-endian bytes
    Bits(u8),
    /// Each of this many fields, formatted in order
    Fields(usize),
}

/// How the derived `binDebug` encodes values of the type.
pub struct DerivePlan {
    /// The tag written first
    pub tag: Tag,
    /// The footprint whose symbol is written next
    pub footprint: String,
    /// What follows
    pub payload: Payload,
}

/// `binDebug` cannot be derived for this type: a union, or an enum with a variant that has
/// fields or with 256 variants or more.
#[derive(Clone, Copy, PartialEq, Eq, Debug, Structural)]
pub struct NotSupported;

/// The names of the variants.
pub open spec fn variant_names(vs: Seq<Variant>) -> Seq<Seq<char>> {
    Seq::new(vs.len(), |i: int| vs[i].name@)
}

/// `name: {i}` for the `i`-th `bool` field.
pub open spec fn bool_item(name: Seq<char>, i: nat) -> Seq<char> {
    name + seq![':', ' ', '{'] + radix_digits(i, 10) + seq!['}']
}

/// The footprint items of `bool` fields: each field's name and bit.
pub open spec fn bool_items(fs: Seq<NamedField>) -> Seq<Seq<char>> {
    Seq::new(fs.len(), |i: int| bool_item(fs[i].name@, i as nat))
}

/// The footprint items of other fields: each field's name and an argument.
pub open spec fn field_items(fs: Seq<NamedField>) -> Seq<Seq<char>> {
    Seq::new(fs.len(), |i: int| fs[i].name@ + seq![':', ' ', '{', '}'])
}

/// `ident {{ items }}`.
pub open spec fn braced(ident: Seq<char>, items: Seq<Seq<char>>) -> Seq<char> {
    ident + seq![' ', '{', '{', ' '] + join(items, seq![',', ' ']) + seq![' ', '}', '}']
}

/// What the derive makes of a type named `ident`: its tag, its footprint and its payload.
pub open spec fn derive_spec(ident: Seq<char>, data: Data) -> Result<(Tag, Seq<char>, Payload), NotSupported> {
    match data {
        Data::Enum(vs) => if (forall|i: int| 0 <= i < vs@.len() ==> (#[trigger] vs@[i]).is_unit) && vs@.len() < 256 {
            Ok((Tag::CLikeEnum, join(variant_names(vs@), seq![',']), Payload::Discriminant))
        } else {
            Err(NotSupported)
        },
        Data::Union => Err(NotSupported),
        Data::Struct(Fields::Named(fs)) => if forall|i: int| 0 <= i < fs@.len() ==> (#[trigger] fs@[i]).is_bool {
            Ok((Tag::Register, braced(ident, bool_items(fs@)), Payload::Bits(if fs@.len() <= 8 { 1u8 } else { 2u8 })))
        } else {
            Ok((Tag::Footprint, braced(ident, field_items(fs@)), Payload::Fields(fs@.len() as usize)))
        },
        Data::Struct(Fields::Unnamed(n)) => Ok((
            Tag::Footprint,
            ident + seq!['('] + join(Seq::new(n as nat, |i: int| seq!['{', '}']), seq![',', ' ']) + seq![')'],
            Payload::Fields(n),
        )),
        Data::Struct(Fields::Unit) => Ok((Tag::Footprint, ident, Payload::Fields(0))),
    }
}

/// The types the derive takes: a struct of more than 16 `bool` fields has no encoding.
pub open spec fn derivable(data: Data) -> bool {
    match data {
        Data::Struct(Fields::Named(fs)) => (forall|i: int| 0 <= i < fs@.len() ==> (#[trigger] fs@[i]).is_bool)
            ==> fs@.len() <= 16,
        _ => true,
    }
}

fn str_chars(s: &String) -> (r: Vec<char>)
    ensures
        r@ == s@,
{
    chars_of(s.as_str())
}

fn braced_chars(ident: &str, items: &Vec<Vec<char>>) -> (r: Vec<char>)
    ensures
        r@ == braced(ident@, Seq::new(items@.len(), |i: int| items@[i]@)),
{
    let mut v = chars_of(ident);
    v.push(' ');
    v.push('{');
    v.push('{');
    v.push(' ');
    let sep = vec![',', ' '];
    append_chars(&mut v, &join_chars(items, &sep));
    v.push(' ');
    v.push('}');
    v.push('}');
    assert(v@ =~= braced(ident@, Seq::new(items@.len(), |i: int| items@[i]@)));
    v
}

/// Decides how `#[derive(binDebug)]` encodes the type named `ident`.
pub fn derive_plan(ident: &str, data: &Data) -> (r: Result<DerivePlan, NotSupported>)
    requires
        derivable(*data),
    ensures
        match r {
            Ok(p) => derive_spec(ident@, *data) matches Ok((tag, footprint, payload))
                && p.tag == tag && p.footprint@ == footprint && p.payload == payload,
            Err(e) => derive_spec(ident@, *data) == Err::<(Tag, Seq<char>, Payload), NotSupported>(e),
        },
{
    match data {
        Data::Enum(vs) => {
            if vs.len() >= 256 {
                return Err(NotSupported);
            }
            let mut names: Vec<Vec<char>> = Vec::new();
            let mut i: usize = 0;
            while i < vs.len()
                invariant
                    *data == Data::Enum(*vs),
                    vs@.len() < 256,
                    i <= vs@.len(),
                    names@.len() == i,
                    forall|k: int| 0 <= k < i ==> (#[trigger] vs@[k]).is_unit,
                    forall|k: int| 0 <= k < i ==> #[trigger] names@[k]@ == vs@[k].name@,
                decreases vs.len() - i,
            {
                if !vs[i].is_unit {
                    assert(!vs@[i as int].is_unit);
                    assert(!(forall|j: int| 0 <= j < vs@.len() ==> (#[trigger] vs@[j]).is_unit));
                    assert(derive_spec(ident@, *data) == Err::<(Tag, Seq<char>, Payload), NotSupported>(NotSupported));
                    return Err(NotSupported);
                }
                names.push(str_chars(&vs[i].name));
                i = i + 1;
            }
            let sep = vec![','];
            assert(sep@ =~= seq![',']);
            let footprint = join_chars(&names, &sep);
            assert(Seq::new(names@.len(), |i: int| names@[i]@) =~= variant_names(vs@));
            assert(derive_spec(ident@, *data) == Ok::<(Tag, Seq<char>, Payload), NotSupported>((Tag::CLikeEnum, footprint@, Payload::Discriminant)));
            Ok(DerivePlan { tag: Tag::CLikeEnum, footprint: string_of(&footprint), payload: Payload::Discriminant })
        },
        Data::Union => Err(NotSupported),
        Data::Struct(Fields::Named(fs)) => {
            let mut all_bool = true;
            let mut k: usize = 0;
            while k < fs.len()
                invariant
                    *data == Data::Struct(Fields::Named(*fs)),
                    k <= fs@.len(),
                    all_bool == (forall|j: int| 0 <= j < k ==> (#[trigger] fs@[j]).is_bool),
                decreases fs.len() - k,
            {
                if !fs[k].is_bool {
                    all_bool = false;
                }
                k = k + 1;
            }
            let mut items: Vec<Vec<char>> = Vec::new();
            let mut i: usize = 0;
            while i < fs.len()
                invariant
                    *data == Data::Struct(Fields::Named(*fs)),
                    all_bool == (forall|j: int| 0 <= j < fs@.len() ==> (#[trigger] fs@[j]).is_bool),
                    i <= fs@.len(),
                    items@.len() == i,
                    all_bool ==> forall|j: int| 0 <= j < i ==> #[trigger] items@[j]@ == bool_items(fs@)[j],
                    !all_bool ==> forall|j: int| 0 <= j < i ==> #[trigger] items@[j]@ == field_items(fs@)[j],
                decreases fs.len() - i,
            {
                let mut item = str_chars(&fs[i].name);
                item.push(':');
                item.push(' ');
                item.push('{');
                if all_bool {
                    append_chars(&mut item, &radix_chars(i as u64, 10));
                }
                item.push('}');
                proof {
                    if all_bool {
                        assert(item@ =~= bool_items(fs@)[i as int]);
                    } else {
                        assert(item@ =~= field_items(fs@)[i as int]);
                    }
                }
                items.push(item);
                i = i + 1;
            }
            let footprint = braced_chars(ident, &items);
            if all_bool {
                assert(Seq::new(items@.len(), |i: int| items@[i]@) =~= bool_items(fs@));
                let bytes: u8 = if fs.len() <= 8 { 1 } else { 2 };
                assert(derive_spec(ident@, *data) == Ok::<(Tag, Seq<char>, Payload), NotSupported>((Tag::Register, footprint@, Payload::Bits(bytes))));
                Ok(DerivePlan { tag: Tag::Register, footprint: string_of(&footprint), payload: Payload::Bits(bytes) })
            } else {
                assert(Seq::new(items@.len(), |i: int| items@[i]@) =~= field_items(fs@));
                assert(derive_spec(ident@, *data) == Ok::<(Tag, Seq<char>, Payload), NotSupported>((Tag::Footprint, footprint@, Payload::Fields(fs.len()))));
                Ok(DerivePlan { tag: Tag::Footprint, footprint: string_of(&footprint), payload: Payload::Fields(fs.len()) })
            }
        },
        Data::Struct(Fields::Unnamed(n)) => {
            let mut items: Vec<Vec<char>> = Vec::new();
            let mut i: usize = 0;
            while i < *n
                invariant
                    *data == Data::Struct(Fields::Unnamed(*n)),
                    i <= *n,
                    items@.len() == i,
                    forall|j: int| 0 <= j < i ==> #[trigger] items@[j]@ == seq!['{', '}'],
                decreases *n - i,
            {
                items.push(vec!['{', '}']);
                i = i + 1;
            }
            let sep = vec![',', ' '];
            assert(sep@ =~= seq![',', ' ']);
            let mut v = chars_of(ident);
            v.push('(');
            append_chars(&mut v, &join_chars(&items, &sep));
            v.push(')');
            assert(Seq::new(items@.len(), |i: int| items@[i]@) =~= Seq::new(*n as nat, |i: int| seq!['{', '}']));
            Ok(DerivePlan { tag: Tag::Footprint, footprint: string_of(&v), payload: Payload::Fields(*n) })
        },
        Data::Struct(Fields::Unit) => {
            Ok(DerivePlan { tag: Tag::Footprint, footprint: ident.to_owned(), payload: Payload::Fields(0) })
        },
    }
}

proof fn lemma_find_skip(s: Seq<char>, i: int, j: int, end: int, c: char)
    requires
        i <= j <= end,
        forall|k: int| i <= k < j ==> s[k] != c,
    ensures
        crate::text::find_in(s, i, end, c) == crate::text::find_in(s, j, end, c),
    decreases j - i,
{
    if i < j {
        lemma_find_skip(s, i + 1, j, end, c);
    }
}

/// The `d`-th variant name is what the host shows for a C-like enum whose footprint the derive
/// wrote and whose discriminant byte is `d`: variant names hold no comma.
pub proof fn enum_variant_roundtrip(names: Seq<Seq<char>>, d: nat)
    requires
        d < names.len(),
        forall|i: int| 0 <= i < names.len() ==> !(#[trigger] names[i]).contains(','),
    ensures
        crate::binfmt_parser::nth_piece(join(names, seq![',']), d) == Some(names[d as int]),
    decreases names.len(),
{
    let s = join(names, seq![',']);
    let n0 = names[0];
    assert forall|k: int| 0 <= k < n0.len() implies n0[k] != ',' by {
        if n0[k] == ',' {
            assert(n0.contains(','));
        }
    }
    if names.len() == 1 {
        lemma_find_skip(s, 0, s.len() as int, s.len() as int, ',');
    } else {
        let rest = join(names.skip(1), seq![',']);
        assert(s == n0 + seq![','] + rest);
        lemma_find_skip(s, 0, n0.len() as int, s.len() as int, ',');
        assert(s[n0.len() as int] == ',');
        assert(s.take(n0.len() as int) =~= n0);
        assert(s.skip(n0.len() as int + 1) =~= rest);
        if d > 0 {
            assert forall|i: int| 0 <= i < names.skip(1).len() implies !(#[trigger] names.skip(1)[i]).contains(',') by {
                assert(names.skip(1)[i] == names[i + 1]);
            }
            enum_variant_roundtrip(names.skip(1), (d - 1) as nat);
        }
    }
}

proof fn lemma_args_plain_prefix(p: Seq<char>, b: Seq<char>)
    requires
        !p.contains('{'),
    ensures
        crate::binfmt_parser::footprint_args(p + b) == crate::binfmt_parser::footprint_args(b),
    decreases p.len(),
{
    if p.len() > 0 {
        assert(p[0] != '{') by {
            if p[0] == '{' {
                assert(p.contains('{'));
            }
        }
        assert((p + b).skip(1) =~= p.skip(1) + b);
        assert(!p.skip(1).contains('{')) by {
            if p.skip(1).contains('{') {
                let k = choose|k: int| 0 <= k < p.skip(1).len() && p.skip(1)[k] == '{';
                assert(p[k + 1] == '{');
            }
        }
        lemma_args_plain_prefix(p.skip(1), b);
    }
}

proof fn lemma_args_items(fs: Seq<NamedField>, t: Seq<char>)
    requires
        forall|i: int| 0 <= i < fs.len() ==> !(#[trigger] fs[i]).name@.contains('{'),
    ensures
        crate::binfmt_parser::footprint_args(join(field_items(fs), seq![',', ' ']) + t)
            == fs.len() + crate::binfmt_parser::footprint_args(t),
    decreases fs.len(),
{
    let items = field_items(fs);
    if fs.len() == 0 {
        assert(join(items, seq![',', ' ']) + t =~= t);
    } else {
        let name = fs[0].name@;
        assert(!name.contains('{'));
        let rest = if fs.len() == 1 { t } else { seq![',', ' '] + join(items.skip(1), seq![',', ' ']) + t };
        assert(join(items, seq![',', ' ']) + t =~= (name + seq![':', ' ']) + (seq!['{', '}'] + rest));
        assert(!(name + seq![':', ' ']).contains('{')) by {
            if (name + seq![':', ' ']).contains('{') {
                let k = choose|k: int| 0 <= k < (name + seq![':', ' ']).len() && (name + seq![':', ' '])[k] == '{';
                if k < name.len() {
                    assert(name[k] == '{');
                    assert(name.contains('{'));
                }
            }
        }
        lemma_args_plain_prefix(name + seq![':', ' '], seq!['{', '}'] + rest);
        assert((seq!['{', '}'] + rest).skip(2) =~= rest);
        if fs.len() > 1 {
            assert(!seq![',', ' '].contains('{')) by {
                if seq![',', ' '].contains('{') {
                    let k = choose|k: int| 0 <= k < 2 && seq![',', ' '][k] == '{';
                }
            }
            lemma_args_plain_prefix(seq![',', ' '], join(items.skip(1), seq![',', ' ']) + t);
            assert(seq![',', ' '] + join(items.skip(1), seq![',', ' ']) + t =~= seq![',', ' '] + (join(items.skip(1), seq![',', ' ']) + t));
            assert(field_items(fs.skip(1)) =~= items.skip(1));
            assert forall|i: int| 0 <= i < fs.skip(1).len() implies !(#[trigger] fs.skip(1)[i]).name@.contains('{') by {
                assert(fs.skip(1)[i] == fs[i + 1]);
            }
            lemma_args_items(fs.skip(1), t);
        }
    }
}

/// A struct with named fields that are not all `bool` writes one value per field, and the
/// footprint the derive gives it has exactly as many argument slots for the host to decode:
/// names hold no braces.
pub proof fn struct_footprint_arguments(ident: Seq<char>, fs: Seq<NamedField>)
    requires
        !ident.contains('{'),
        forall|i: int| 0 <= i < fs.len() ==> !(#[trigger] fs[i]).name@.contains('{'),
    ensures
        crate::binfmt_parser::footprint_args(braced(ident, field_items(fs))) == fs.len(),
{
    let tail = seq![' ', '}', '}'];
    let body = join(field_items(fs), seq![',', ' ']) + tail;
    let head = ident + seq![' '];
    assert(braced(ident, field_items(fs)) =~= head + (seq!['{', '{'] + (seq![' '] + body)));
    assert(!head.contains('{')) by {
        if head.contains('{') {
            let k = choose|k: int| 0 <= k < head.len() && head[k] == '{';
            if k < ident.len() {
                assert(ident[k] == '{');
                assert(ident.contains('{'));
            }
        }
    }
    lemma_args_plain_prefix(head, seq!['{', '{'] + (seq![' '] + body));
    assert((seq!['{', '{'] + (seq![' '] + body)).skip(2) =~= seq![' '] + body);
    assert(!seq![' '].contains('{')) by {
        if seq![' '].contains('{') {
            let k = choose|k: int| 0 <= k < 1 && seq![' '][k] == '{';
        }
    }
    lemma_args_plain_prefix(seq![' '], body);
    lemma_args_items(fs, tail);
    assert(!tail.contains('{')) by {
        if tail.contains('{') {
            let k = choose|k: int| 0 <= k < 3 && tail[k] == '{';
        }
    }
    lemma_args_plain_prefix(tail, Seq::empty());
    assert(tail + Seq::<char>::empty() =~= tail);
    assert(crate::binfmt_parser::footprint_args(Seq::<char>::empty()) == 0);
}

proof fn lemma_width_skip(s: Seq<char>, i: int, j: int)
    requires
        0 <= i <= j <= s.len(),
        forall|k: int| i <= k < j ==> s[k] != '{',
    ensures
        crate::binfmt_parser::register_width_from(s, i) == crate::binfmt_parser::register_width_from(s, j),
    decreases j - i,
{
    if i < j {
        lemma_width_skip(s, i + 1, j);
    }
}

/// A struct of up to eight `bool` fields is written as one byte of bits, and the host reads one
/// byte for the register that its derived footprint describes: names hold no braces.
pub proof fn bool_struct_width(ident: Seq<char>, fs: Seq<NamedField>)
    requires
        1 <= fs.len() <= 8,
        !ident.contains('{'),
        forall|i: int| 0 <= i < fs.len() ==> !(#[trigger] fs[i]).name@.contains('{'),
    ensures
        crate::binfmt_parser::register_width_from(braced(ident, bool_items(fs)), 0) == Some(1nat),
{
    let items = bool_items(fs);
    let name = fs[0].name@;
    assert(!name.contains('{'));
    let rest = if fs.len() == 1 { seq![' ', '}', '}'] } else {
        seq![',', ' '] + join(items.skip(1), seq![',', ' ']) + seq![' ', '}', '}']
    };
    let zero = radix_digits(0, 10);
    assert(zero == seq![crate::text::digit_char(0)]);
    assert(crate::text::digit_char(0) == '0');
    assert(items[0] == name + seq![':', ' ', '{'] + zero + seq!['}']);
    let s = braced(ident, items);
    let p = ident.len() as int + 1;
    let q = p + 3 + name.len() + 2;
    assert(s =~= ident + seq![' ', '{', '{', ' '] + name + seq![':', ' ', '{', '0', '}'] + rest);
    assert forall|k: int| 0 <= k < p implies s[k] != '{' by {
        if k < ident.len() {
            assert(s[k] == ident[k]);
            if ident[k] == '{' {
                assert(ident.contains('{'));
            }
        }
    }
    lemma_width_skip(s, 0, p);
    assert(s[p] == '{' && s[p + 1] == '{');
    assert forall|k: int| p + 2 <= k < q implies s[k] != '{' by {
        if p + 3 <= k < p + 3 + name.len() {
            assert(s[k] == name[k - p - 3]);
            if name[k - p - 3] == '{' {
                assert(name.contains('{'));
            }
        }
    }
    lemma_width_skip(s, p + 2, q);
    assert(s[q] == '{' && s[q + 1] == '0' && s[q + 2] == '}');
    assert(s.len() > q + 2);
    assert(crate::text::find_in(s, q + 2, s.len() as int, '}') == Some(q + 2));
    assert(crate::text::find_in(s, q + 1, s.len() as int, '}') == Some(q + 2));
    assert(crate::text::find_in(s, q, s.len() as int, '}') == Some(q + 2));
    assert(crate::text::find_in(s, q + 2, q + 2, ':') is None);
    assert(crate::text::find_in(s, q + 1, q + 2, ':') is None);
    let d = s.subrange(q + 1, q + 2);
    assert(d =~= seq!['0']);
    assert(crate::text::unsigned_digits(d) == d);
    assert(crate::text::all_dec_digits(d));
    assert(d.drop_last() =~= Seq::<char>::empty());
    assert(crate::text::dec_value(d.drop_last()) == 0);
    assert(d.last() == '0');
    assert(('0' as int) == 48);
    assert(crate::text::dec_value(d) == 0);
}

} // verus!
