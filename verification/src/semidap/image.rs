//! The ELF image that the debugger runs: which sections it loads, where the vector table is, and
//! what it takes from the symbol table (the log footprints, the function names, the semidap
//! cursors and buffer) and from the unwind tables.
use vstd::prelude::*;

use crate::cmsis_dap::hid::u32_of;
use std::collections::BTreeMap;

use crate::semidap::{
    buffer_symbol, buffer_symbol_spec, check_section, cursor_count, demangled, function_name,
    function_range, section_check, strip_hash_spec, vectors, BufferSymbol, SectionError, Vectors,
};

verus! {

/// `SHF_ALLOC`: the section occupies memory on the target
pub const SHF_ALLOC: u64 = 0x2;

/// A symbol of the ELF image, as the file gives it.
pub struct ElfSymbol {
    /// Its name, where the file gives one
    pub name: Option<String>,
    /// Index of the section it belongs to
    pub shndx: u16,
    /// Its value: an address
    pub value: u64,
    /// Its size
    pub size: u64,
}

/// A section of the ELF image, as the file gives it.
pub struct ElfSection {
    /// Its name, or why it cannot be read
    pub name: Result<String, String>,
    /// Its flags
    pub flags: u64,
    /// Whether it is of type `NOBITS` (occupies no room in the file)
    pub no_bits: bool,
    /// Its address on the target
    pub address: u64,
    /// Its size
    pub size: u64,
    /// Its bytes in the file
    pub data: Vec<u8>,
    /// The entries of the 32-bit symbol table that it holds, if it holds one
    pub symbols: Vec<ElfSymbol>,
}

/// Why the image cannot be run.
#[derive(Clone, Copy, PartialEq, Eq, Debug, Structural)]
pub enum ImageError {
    /// The name of the section with this index, to be loaded, cannot be read.
    Name(usize),
    /// The section with this index, to be loaded, cannot be.
    Section(usize, SectionError),
    /// There is no `.vectors` section.
    NoVectors,
}

/// Whether `name` reads `s`.
pub open spec fn named(name: Result<String, String>, s: Seq<char>) -> bool {
    name matches Ok(n) && n@ == s
}

/// The section occupies memory on the target and is not empty.
pub open spec fn allocated(s: ElfSection) -> bool {
    s.flags & SHF_ALLOC != 0 && s.size != 0
}

/// The section is loaded into the target: it occupies memory and room in the file.
pub open spec fn loaded(s: ElfSection) -> bool {
    allocated(s) && !s.no_bits
}

/// What keeps the section at `i` from being loaded, if anything.
pub open spec fn problem_at(secs: Seq<ElfSection>, i: int) -> Option<ImageError> {
    if !loaded(secs[i]) {
        None
    } else {
        match secs[i].name {
            Err(_) => Some(ImageError::Name(i as usize)),
            Ok(_) => match section_check(secs[i].address, secs[i].size) {
                Err(e) => Some(ImageError::Section(i as usize, e)),
                Ok(_) => None,
            },
        }
    }
}

/// No section before `i` keeps the image from being loaded.
pub open spec fn reached(secs: Seq<ElfSection>, i: int) -> bool {
    forall|j: int| 0 <= j < i ==> #[trigger] problem_at(secs, j) is None
}

/// The sections that are loaded, in order: their index and 32-bit address.
pub open spec fn load_list(secs: Seq<ElfSection>) -> Seq<(usize, u32)>
    decreases secs.len(),
{
    if secs.len() == 0 {
        Seq::empty()
    } else {
        let i = secs.len() - 1;
        let prev = load_list(secs.drop_last());
        if loaded(secs[i]) {
            prev.push((i as usize, secs[i].address as u32))
        } else {
            prev
        }
    }
}

/// The index of the last loaded section named `.vectors`.
pub open spec fn vectors_index(secs: Seq<ElfSection>) -> Option<int>
    decreases secs.len(),
{
    if secs.len() == 0 {
        None
    } else {
        let i = secs.len() - 1;
        if loaded(secs[i]) && named(secs[i].name, ".vectors"@) {
            Some(i)
        } else {
            vectors_index(secs.drop_last())
        }
    }
}

/// The vector table that a `.vectors` section holds: the initial stack pointer in its first
/// word and the reset handler in its second.
pub open spec fn vectors_of(s: ElfSection) -> Vectors {
    Vectors {
        vtor: s.address as u32,
        sp: u32_of(s.data@[0], s.data@[1], s.data@[2], s.data@[3]),
        pc: u32_of(s.data@[4], s.data@[5], s.data@[6], s.data@[7]),
    }
}

/// Whether `n` is the string of `lit`.
fn is_named(name: &Result<String, String>, lit: &str) -> (r: bool)
    ensures
        r == named(*name, lit@),
{
    match name {
        Ok(n) => {
            let l = lit.to_owned();
            *n == l
        },
        Err(_) => false,
    }
}

proof fn lemma_take_last<A>(s: Seq<A>, i: int)
    requires
        0 <= i < s.len(),
    ensures
        s.take(i + 1).drop_last() == s.take(i),
        s.take(i + 1)[i] == s[i],
        s.take(i + 1).len() == i + 1,
{
    assert(s.take(i + 1).drop_last() =~= s.take(i));
}

/// The sections to load, in order, and the index of the vector table's section; or the first
/// thing that keeps the image from being loaded.
fn load_sections(secs: &[ElfSection]) -> (r: Result<(Vec<(usize, u32)>, Option<usize>), ImageError>)
    requires
        ends_fit(secs@),
    ensures
        match r {
            Ok((load, v)) => reached(secs@, secs@.len() as int) && load@ == load_list(secs@)
                && v == (match vectors_index(secs@) { Some(k) => Some(k as usize), None => None::<usize> }),
            Err(e) => exists|i: int| 0 <= i < secs@.len() && reached(secs@, i) && problem_at(secs@, i) == Some(e),
        },
{
    let mut load: Vec<(usize, u32)> = Vec::new();
    let mut vidx: Option<usize> = None;
    let mut i: usize = 0;
    while i < secs.len()
        invariant
            i <= secs@.len(),
            reached(secs@, i as int),
            load@ == load_list(secs@.take(i as int)),
            vidx == (match vectors_index(secs@.take(i as int)) { Some(k) => Some(k as usize), None => None::<usize> }),
            ends_fit(secs@),
        decreases secs.len() - i,
    {
        let s = &secs[i];
        proof {
            lemma_take_last(secs@, i as int);
        }
        if s.flags & SHF_ALLOC != 0 && s.size != 0 && !s.no_bits {
            if s.name.is_err() {
                return Err(ImageError::Name(i));
            }
            let address = match check_section(s.address, s.size) {
                Ok(a) => a,
                Err(e) => return Err(ImageError::Section(i, e)),
            };
            load.push((i, address));
            if is_named(&s.name, ".vectors") {
                vidx = Some(i);
            }
        }
        assert(problem_at(secs@, i as int) is None);
        i = i + 1;
    }
    assert(secs@.take(i as int) =~= secs@);
    Ok((load, vidx))
}

/// The index of the first section named `name`.
pub open spec fn first_named(secs: Seq<ElfSection>, name: Seq<char>) -> Option<int> {
    if exists|i: int| 0 <= i < secs.len() && named(#[trigger] secs[i].name, name) {
        Some(choose|i: int| 0 <= i < secs.len() && named(#[trigger] secs[i].name, name)
            && forall|j: int| 0 <= j < i ==> !named(#[trigger] secs[j].name, name))
    } else {
        None
    }
}

/// The section holds the symbol table: it is named `.symtab` and takes no memory on the target.
pub open spec fn symtab(s: ElfSection) -> bool {
    !allocated(s) && named(s.name, ".symtab"@)
}

/// The entries of the symbol tables, in order.
pub open spec fn symtab_symbols(secs: Seq<ElfSection>) -> Seq<ElfSymbol>
    decreases secs.len(),
{
    if secs.len() == 0 {
        Seq::empty()
    } else {
        let prev = symtab_symbols(secs.drop_last());
        if symtab(secs.last()) {
            prev + secs.last().symbols@
        } else {
            prev
        }
    }
}

/// The index of the last section that holds the unwind tables: named `.debug_frame`, taking no
/// memory on the target.
pub open spec fn debug_frame_index(secs: Seq<ElfSection>) -> Option<int>
    decreases secs.len(),
{
    if secs.len() == 0 {
        None
    } else if !allocated(secs.last()) && named(secs.last().name, ".debug_frame"@) {
        Some(secs.len() - 1)
    } else {
        debug_frame_index(secs.drop_last())
    }
}

/// The symbol names a log footprint: it belongs to the `.binfmt` section.
pub open spec fn is_footprint(s: ElfSymbol, binfmt: Option<int>) -> bool {
    s.name is Some && binfmt == Some(s.shndx as int)
}

/// The symbol names a function: it belongs to the `.text` section and is not empty.
pub open spec fn is_function(s: ElfSymbol, binfmt: Option<int>, text: Option<int>) -> bool {
    s.name is Some && !is_footprint(s, binfmt) && text == Some(s.shndx as int) && s.size != 0
}

/// The log footprints, by address: for each address, the name of the last symbol there.
pub open spec fn footprints_of(syms: Seq<ElfSymbol>, binfmt: Option<int>) -> Map<u64, String>
    decreases syms.len(),
{
    if syms.len() == 0 {
        Map::empty()
    } else {
        let prev = footprints_of(syms.drop_last(), binfmt);
        if is_footprint(syms.last(), binfmt) {
            prev.insert(syms.last().value, syms.last().name->0)
        } else {
            prev
        }
    }
}

/// The address range and shown name of a function symbol.
pub open spec fn function_entry(s: ElfSymbol) -> ((u64, u64), Seq<char>) {
    (((s.value & !1u64), ((s.value & !1u64) + s.size) as u64), strip_hash_spec(demangled(s.name->0@)))
}

/// The functions, in the order of the symbols.
pub open spec fn functions_of(syms: Seq<ElfSymbol>, binfmt: Option<int>, text: Option<int>) -> Seq<((u64, u64), Seq<char>)>
    decreases syms.len(),
{
    if syms.len() == 0 {
        Seq::empty()
    } else {
        let prev = functions_of(syms.drop_last(), binfmt, text);
        if is_function(syms.last(), binfmt, text) {
            prev.push(function_entry(syms.last()))
        } else {
            prev
        }
    }
}

/// The symbol has this name.
pub open spec fn sym_named(s: ElfSymbol, name: Seq<char>) -> bool {
    s.name matches Some(n) && n@ == name
}

/// The cursors of the semidap channels: the address and number of cursors that the last
/// `SEMIDAP_CURSOR` symbol in the 32-bit address space gives.
pub open spec fn cursor_of(syms: Seq<ElfSymbol>) -> Option<(u32, u64)>
    decreases syms.len(),
{
    if syms.len() == 0 {
        None
    } else if sym_named(syms.last(), "SEMIDAP_CURSOR"@) && syms.last().value <= 0xffff_ffff {
        Some((syms.last().value as u32, syms.last().size / 2))
    } else {
        cursor_of(syms.drop_last())
    }
}

/// The buffer of the semidap channels: the one that the last well-formed `SEMIDAP_BUFFER` symbol
/// in the 32-bit address space gives.
pub open spec fn buffer_of(syms: Seq<ElfSymbol>) -> Option<(u32, u32)>
    decreases syms.len(),
{
    if syms.len() == 0 {
        None
    } else if sym_named(syms.last(), "SEMIDAP_BUFFER"@) && buffer_symbol_spec(syms.last().value, syms.last().size) is Buffer {
        match buffer_symbol_spec(syms.last().value, syms.last().size) {
            BufferSymbol::Buffer(a, l) => Some((a, l)),
            _ => None,
        }
    } else {
        buffer_of(syms.drop_last())
    }
}

/// The sizes of the malformed `SEMIDAP_BUFFER` symbols, in order.
pub open spec fn malformed_of(syms: Seq<ElfSymbol>) -> Seq<u64>
    decreases syms.len(),
{
    if syms.len() == 0 {
        Seq::empty()
    } else if sym_named(syms.last(), "SEMIDAP_BUFFER"@) && buffer_symbol_spec(syms.last().value, syms.last().size) is Malformed {
        malformed_of(syms.drop_last()).push(syms.last().size)
    } else {
        malformed_of(syms.drop_last())
    }
}

/// The functions, sorted by the start of their range.
pub open spec fn sorted_by_start(s: Seq<((u64, u64), String)>) -> bool {
    forall|i: int, j: int| 0 <= i < j < s.len() ==> (#[trigger] s[i]).0.0 <= (#[trigger] s[j]).0.0
}

/// The functions, their names as text.
pub open spec fn entries_view(s: Seq<((u64, u64), String)>) -> Seq<((u64, u64), Seq<char>)> {
    s.map_values(|e: ((u64, u64), String)| (e.0, e.1@))
}

/// What the symbol tables give.
pub struct SymbolInfo {
    /// The log footprints, by address
    pub footprints: BTreeMap<u64, String>,
    /// The functions, sorted by the start of their address range
    pub functions: Vec<((u64, u64), String)>,
    /// The address of the semidap cursors and their number
    pub cursor: Option<(u32, u64)>,
    /// The address and length of the semidap buffer
    pub buffer: Option<(u32, u32)>,
    /// The sizes of the malformed `SEMIDAP_BUFFER` symbols
    pub malformed_buffers: Vec<u64>,
}

/// What the symbol tables give, once the symbols `syms` are taken.
pub open spec fn info_of(info: SymbolInfo, syms: Seq<ElfSymbol>, binfmt: Option<int>, text: Option<int>) -> bool {
    &&& info.footprints@ == footprints_of(syms, binfmt)
    &&& sorted_by_start(info.functions@)
    &&& entries_view(info.functions@).to_multiset() == functions_of(syms, binfmt, text).to_multiset()
    &&& info.cursor == cursor_of(syms)
    &&& info.buffer == buffer_of(syms)
    &&& info.malformed_buffers@ == malformed_of(syms)
}

/// The index as an integer.
pub open spec fn opt_int(o: Option<usize>) -> Option<int> {
    match o {
        Some(i) => Some(i as int),
        None => None,
    }
}

/// Whether the symbol has the name `lit`.
fn has_name(name: &Option<String>, lit: &str) -> (r: bool)
    ensures
        r == (*name matches Some(n) && n@ == lit@),
{
    match name {
        Some(n) => {
            let l = lit.to_owned();
            *n == l
        },
        None => false,
    }
}

/// Inserts a function into the list sorted by the start of the ranges.
fn insert_sorted(v: &mut Vec<((u64, u64), String)>, e: ((u64, u64), String))
    requires
        sorted_by_start(old(v)@),
    ensures
        sorted_by_start(final(v)@),
        entries_view(final(v)@).to_multiset() == entries_view(old(v)@).to_multiset().insert((e.0, e.1@)),
{
    let start = (e.0).0;
    let mut pos: usize = 0;
    while pos < v.len() && (v[pos].0).0 <= start
        invariant
            pos <= v@.len(),
            v@ == old(v)@,
            forall|j: int| 0 <= j < pos ==> (#[trigger] v@[j]).0.0 <= start,
        decreases v.len() - pos,
    {
        pos = pos + 1;
    }
    let ghost o = v@;
    let ghost ev = (e.0, e.1@);
    v.insert(pos, e);
    proof {
        assert forall|i: int, j: int| 0 <= i < j < v@.len() implies (#[trigger] v@[i]).0.0 <= (#[trigger] v@[j]).0.0 by {
            if j < pos {
            } else if j == pos {
                assert(v@[i] == o[i]);
            } else if i < pos {
                assert(v@[j] == o[j - 1]);
                assert(o[i].0.0 <= start);
                assert(o[pos as int].0.0 > start);
                assert(pos <= j - 1);
                if pos < j - 1 {
                    assert(o[pos as int].0.0 <= o[j - 1].0.0);
                }
            } else if i == pos {
                assert(v@[j] == o[j - 1]);
                assert(o[pos as int].0.0 > start);
                if pos < j - 1 {
                    assert(o[pos as int].0.0 <= o[j - 1].0.0);
                }
            } else {
                assert(v@[i] == o[i - 1]);
                assert(v@[j] == o[j - 1]);
            }
        }
        assert(entries_view(v@) =~= entries_view(o).insert(pos as int, ev));
        vstd::seq_lib::to_multiset_insert(entries_view(o), pos as int, ev);
    }
}

/// Takes one symbol into what the symbol tables give.
fn take_symbol(info: &mut SymbolInfo, s: &ElfSymbol, binfmt: Option<usize>, text: Option<usize>, Ghost(done): Ghost<Seq<ElfSymbol>>)
    requires
        info_of(*old(info), done, opt_int(binfmt), opt_int(text)),
        is_function(*s, opt_int(binfmt), opt_int(text)) ==> (s.value & !1u64) + s.size <= u64::MAX,
    ensures
        info_of(*final(info), done.push(*s), opt_int(binfmt), opt_int(text)),
{
    let ghost b = opt_int(binfmt);
    let ghost t = opt_int(text);
    let ghost all = done.push(*s);
    proof {
        reveal_strlit("SEMIDAP_CURSOR");
        reveal_strlit("SEMIDAP_BUFFER");
        assert("SEMIDAP_CURSOR"@[8] != "SEMIDAP_BUFFER"@[8]);
    }
    assert(all.drop_last() =~= done);
    assert(all.last() == *s);
    if let Some(n) = &s.name {
        let in_binfmt = match binfmt {
            Some(k) => s.shndx as usize == k,
            None => false,
        };
        let in_text = match text {
            Some(k) => s.shndx as usize == k,
            None => false,
        };
        if in_binfmt {
            info.footprints.insert(s.value, n.clone());
        } else if in_text && s.size != 0 {
            let range = function_range(s.value, s.size);
            let name = function_name(n.as_str());
            proof {
                assert(function_entry(*s) == (range, name@));
            }
            insert_sorted(&mut info.functions, (range, name));
        }
    }
    if has_name(&s.name, "SEMIDAP_CURSOR") {
        if s.value <= 0xffff_ffff {
            info.cursor = Some((s.value as u32, cursor_count(s.size)));
        }
    } else if has_name(&s.name, "SEMIDAP_BUFFER") {
        match buffer_symbol(s.value, s.size) {
            BufferSymbol::Buffer(a, l) => info.buffer = Some((a, l)),
            BufferSymbol::Malformed => info.malformed_buffers.push(s.size),
            BufferSymbol::OutOfRange => {},
        }
    }
    proof {
        assert(functions_of(all, b, t) == (if is_function(*s, b, t) {
            functions_of(done, b, t).push(function_entry(*s))
        } else {
            functions_of(done, b, t)
        }));
        if is_function(*s, b, t) {
            vstd::seq_lib::to_multiset_build(functions_of(done, b, t), function_entry(*s));
        }
    }
}

/// The index of the first section named `lit`.
fn find_first(secs: &[ElfSection], lit: &str) -> (r: Option<usize>)
    ensures
        opt_int(r) == first_named(secs@, lit@),
{
    let mut i: usize = 0;
    while i < secs.len()
        invariant
            i <= secs@.len(),
            forall|j: int| 0 <= j < i ==> !named(#[trigger] secs@[j].name, lit@),
        decreases secs.len() - i,
    {
        if is_named(&secs[i].name, lit) {
            proof {
                let ii = i as int;
                assert(0 <= ii < secs@.len() && named(secs@[ii].name, lit@));
                let c = choose|x: int| 0 <= x < secs@.len() && named(#[trigger] secs@[x].name, lit@)
                    && forall|j: int| 0 <= j < x ==> !named(#[trigger] secs@[j].name, lit@);
                assert(0 <= c < secs@.len() && named(secs@[c].name, lit@) && forall|j: int| 0 <= j < c ==> !named(#[trigger] secs@[j].name, lit@));
                if c < ii {
                    assert(!named(secs@[c].name, lit@));
                } else if c > ii {
                    assert(!named(secs@[ii].name, lit@));
                }
            }
            return Some(i);
        }
        i = i + 1;
    }
    None
}

/// The index of the last section that holds the unwind tables.
fn find_debug_frame(secs: &[ElfSection]) -> (r: Option<usize>)
    ensures
        opt_int(r) == debug_frame_index(secs@),
{
    let mut found: Option<usize> = None;
    let mut i: usize = 0;
    while i < secs.len()
        invariant
            i <= secs@.len(),
            opt_int(found) == debug_frame_index(secs@.take(i as int)),
        decreases secs.len() - i,
    {
        proof {
            lemma_take_last(secs@, i as int);
        }
        let s = &secs[i];
        if !(s.flags & SHF_ALLOC != 0 && s.size != 0) && is_named(&s.name, ".debug_frame") {
            found = Some(i);
        }
        i = i + 1;
    }
    assert(secs@.take(i as int) =~= secs@);
    found
}

/// The functions whose range would not fit in 64 bits, which the symbol tables must not hold.
pub open spec fn functions_fit(secs: Seq<ElfSection>, binfmt: Option<int>, text: Option<int>) -> bool {
    forall|i: int, k: int| 0 <= i < secs.len() && symtab(secs[i]) && 0 <= k < secs[i].symbols@.len()
        && is_function(#[trigger] secs[i].symbols@[k], binfmt, text)
        ==> (secs[i].symbols@[k].value & !1u64) + secs[i].symbols@[k].size <= u64::MAX
}

/// Reads the symbol tables.
fn symbol_info(secs: &[ElfSection], binfmt: Option<usize>, text: Option<usize>) -> (r: SymbolInfo)
    requires
        functions_fit(secs@, opt_int(binfmt), opt_int(text)),
    ensures
        info_of(r, symtab_symbols(secs@), opt_int(binfmt), opt_int(text)),
{
    let ghost b = opt_int(binfmt);
    let ghost t = opt_int(text);
    let mut info = SymbolInfo {
        footprints: BTreeMap::new(),
        functions: Vec::new(),
        cursor: None,
        buffer: None,
        malformed_buffers: Vec::new(),
    };
    proof {
        assert(entries_view(info.functions@) =~= Seq::<((u64, u64), Seq<char>)>::empty());
        assert(symtab_symbols(secs@.take(0)) =~= Seq::<ElfSymbol>::empty());
    }
    let mut i: usize = 0;
    while i < secs.len()
        invariant
            i <= secs@.len(),
            info_of(info, symtab_symbols(secs@.take(i as int)), b, t),
            functions_fit(secs@, b, t),
            b == opt_int(binfmt),
            t == opt_int(text),
        decreases secs.len() - i,
    {
        proof {
            lemma_take_last(secs@, i as int);
        }
        let s = &secs[i];
        let ghost prefix = symtab_symbols(secs@.take(i as int));
        if !(s.flags & SHF_ALLOC != 0 && s.size != 0) && is_named(&s.name, ".symtab") {
            let mut k: usize = 0;
            assert(prefix + s.symbols@.take(0) =~= prefix);
            while k < s.symbols.len()
                invariant
                    i < secs@.len(),
                    s == &secs@[i as int],
                    symtab(*s),
                    k <= s.symbols@.len(),
                    info_of(info, prefix + s.symbols@.take(k as int), b, t),
                    functions_fit(secs@, b, t),
                    b == opt_int(binfmt),
                    t == opt_int(text),
                decreases s.symbols.len() - k,
            {
                let ghost done = prefix + s.symbols@.take(k as int);
                proof {
                    assert(is_function(s.symbols@[k as int], b, t) ==> (s.symbols@[k as int].value & !1u64) + s.symbols@[k as int].size <= u64::MAX);
                }
                take_symbol(&mut info, &s.symbols[k], binfmt, text, Ghost(done));
                assert(done.push(s.symbols@[k as int]) =~= prefix + s.symbols@.take(k + 1));
                k = k + 1;
            }
            assert(s.symbols@.take(k as int) =~= s.symbols@);
            assert(symtab_symbols(secs@.take(i + 1)) == prefix + s.symbols@);
        } else {
            assert(symtab_symbols(secs@.take(i + 1)) == prefix);
        }
        i = i + 1;
    }
    assert(secs@.take(i as int) =~= secs@);
    info
}

/// What the debugger takes from the ELF image.
pub struct Image {
    /// The sections to load: their index and 32-bit address, in order
    pub load: Vec<(usize, u32)>,
    /// The vector table
    pub vectors: Vectors,
    /// What the symbol tables give
    pub symbols: SymbolInfo,
    /// The index of the section that holds the unwind tables, if any
    pub debug_frame: Option<usize>,
}

proof fn lemma_vectors_index(secs: Seq<ElfSection>)
    ensures
        vectors_index(secs) matches Some(k) ==> 0 <= k < secs.len() && loaded(secs[k]) && named(secs[k].name, ".vectors"@),
    decreases secs.len(),
{
    if secs.len() > 0 {
        lemma_vectors_index(secs.drop_last());
    }
}

/// The sections whose end would not fit in 64 bits, which no loaded section reached must be.
pub open spec fn ends_fit(secs: Seq<ElfSection>) -> bool {
    forall|i: int| 0 <= i < secs.len() && loaded(secs[i]) && secs[i].name is Ok && reached(secs, i)
        ==> (secs[i].address <= 0xffff_ffff ==> secs[i].address + secs[i].size <= u64::MAX)
}

/// The `.vectors` section reached holds the two words of the vector table.
pub open spec fn vectors_fit(secs: Seq<ElfSection>) -> bool {
    forall|i: int| 0 <= i < secs.len() && loaded(secs[i]) && named(secs[i].name, ".vectors"@)
        && reached(secs, i + 1) ==> secs[i].data@.len() >= 8
}

/// The images that `image` takes: the sum of the address and the size of a section, or of a
/// function, fits in 64 bits, and the `.vectors` section holds two words, where they are reached.
pub open spec fn image_fits_spec(secs: Seq<ElfSection>) -> bool {
    &&& ends_fit(secs)
    &&& vectors_fit(secs)
    &&& reached(secs, secs.len() as int) ==> functions_fit(secs, first_named(secs, ".binfmt"@), first_named(secs, ".text"@))
}

/// Whether `image` takes these sections.
pub fn image_fits(secs: &[ElfSection]) -> (r: bool)
    ensures
        r == image_fits_spec(secs@),
{
    let mut i: usize = 0;
    while i < secs.len()
        invariant
            i <= secs@.len(),
            reached(secs@, i as int),
            forall|j: int| 0 <= j < i && loaded(secs@[j]) && secs@[j].name is Ok
                ==> (secs@[j].address <= 0xffff_ffff ==> secs@[j].address + secs@[j].size <= u64::MAX),
            forall|j: int| 0 <= j < i && loaded(secs@[j]) && named(secs@[j].name, ".vectors"@) ==> secs@[j].data@.len() >= 8,
        decreases secs.len() - i,
    {
        let s = &secs[i];
        if s.flags & SHF_ALLOC != 0 && s.size != 0 && !s.no_bits {
            if s.name.is_err() {
                assert(problem_at(secs@, i as int) is Some);
                assert forall|j: int| 0 <= j < secs@.len() && reached(secs@, j) implies j <= i by {
                    if j > i {
                        assert(problem_at(secs@, i as int) is None);
                    }
                }
                return true;
            }
            if s.address <= 0xffff_ffff && s.address > u64::MAX - s.size {
                return false;
            }
            if s.address > 0xffff_ffff || s.address + s.size > 0xffff_ffff || s.address % 4 != 0 || s.size % 4 != 0 {
                assert(problem_at(secs@, i as int) is Some);
                assert forall|j: int| 0 <= j < secs@.len() && reached(secs@, j) implies j <= i by {
                    if j > i {
                        assert(problem_at(secs@, i as int) is None);
                    }
                }
                return true;
            }
            if is_named(&s.name, ".vectors") && s.data.len() < 8 {
                assert(problem_at(secs@, i as int) is None);
                assert(reached(secs@, i + 1));
                return false;
            }
        }
        assert(problem_at(secs@, i as int) is None);
        i = i + 1;
    }
    let binfmt = find_first(secs, ".binfmt");
    let text = find_first(secs, ".text");
    let ghost b = opt_int(binfmt);
    let ghost t = opt_int(text);
    let mut i: usize = 0;
    while i < secs.len()
        invariant
            i <= secs@.len(),
            reached(secs@, secs@.len() as int),
            b == opt_int(binfmt),
            t == opt_int(text),
            b == first_named(secs@, ".binfmt"@),
            t == first_named(secs@, ".text"@),
            forall|x: int, k: int| 0 <= x < i && symtab(secs@[x]) && 0 <= k < secs@[x].symbols@.len()
                && is_function(#[trigger] secs@[x].symbols@[k], b, t)
                ==> (secs@[x].symbols@[k].value & !1u64) + secs@[x].symbols@[k].size <= u64::MAX,
        decreases secs.len() - i,
    {
        let s = &secs[i];
        if !(s.flags & SHF_ALLOC != 0 && s.size != 0) && is_named(&s.name, ".symtab") {
            let mut k: usize = 0;
            while k < s.symbols.len()
                invariant
                    i < secs@.len(),
                    s == &secs@[i as int],
                    symtab(*s),
                    k <= s.symbols@.len(),
                    reached(secs@, secs@.len() as int),
                    b == opt_int(binfmt),
                    t == opt_int(text),
                    b == first_named(secs@, ".binfmt"@),
                    t == first_named(secs@, ".text"@),
                    forall|x: int, k: int| 0 <= x < i && symtab(secs@[x]) && 0 <= k < secs@[x].symbols@.len()
                        && is_function(#[trigger] secs@[x].symbols@[k], b, t)
                        ==> (secs@[x].symbols@[k].value & !1u64) + secs@[x].symbols@[k].size <= u64::MAX,
                    forall|y: int| 0 <= y < k && is_function(#[trigger] s.symbols@[y], b, t)
                        ==> (s.symbols@[y].value & !1u64) + s.symbols@[y].size <= u64::MAX,
                decreases s.symbols.len() - k,
            {
                let e = &s.symbols[k];
                let in_binfmt = match binfmt {
                    Some(x) => e.shndx as usize == x,
                    None => false,
                };
                let in_text = match text {
                    Some(x) => e.shndx as usize == x,
                    None => false,
                };
                if e.name.is_some() && !in_binfmt && in_text && e.size != 0 && (e.value & !1u64) > u64::MAX - e.size {
                    proof {
                        assert(is_function(secs@[i as int].symbols@[k as int], b, t));
                        assert(!functions_fit(secs@, b, t));
                    }
                    return false;
                }
                k = k + 1;
            }
        }
        i = i + 1;
    }
    assert(functions_fit(secs@, b, t));
    true
}

/// What the debugger takes from the sections of the ELF image, in order: the sections to load
/// (allocatable, not empty, not `NOBITS`; each must have a name and lie, 4-byte aligned, in the
/// 32-bit address space), the vector table (from the last `.vectors` section loaded), the log
/// footprints (symbols of the `.binfmt` section), the functions (non-empty symbols of the `.text`
/// section, sorted by address), the semidap cursors and buffer, and the unwind tables
/// (`.debug_frame`). The first section that cannot be loaded is reported; the image must have a
/// vector table.
pub fn image(secs: &[ElfSection]) -> (r: Result<Image, ImageError>)
    requires
        image_fits_spec(secs@),
    ensures
        match r {
            Ok(img) => {
                &&& reached(secs@, secs@.len() as int)
                &&& img.load@ == load_list(secs@)
                &&& vectors_index(secs@) matches Some(k) && img.vectors == vectors_of(secs@[k])
                &&& info_of(img.symbols, symtab_symbols(secs@), first_named(secs@, ".binfmt"@), first_named(secs@, ".text"@))
                &&& opt_int(img.debug_frame) == debug_frame_index(secs@)
            },
            Err(ImageError::NoVectors) => reached(secs@, secs@.len() as int) && vectors_index(secs@) is None,
            Err(e) => exists|i: int| 0 <= i < secs@.len() && reached(secs@, i) && problem_at(secs@, i) == Some(e),
        },
{
    let binfmt = find_first(secs, ".binfmt");
    let text = find_first(secs, ".text");
    let (load, vidx) = match load_sections(secs) {
        Ok(x) => x,
        Err(e) => return Err(e),
    };
    let v = match vidx {
        Some(v) => v,
        None => return Err(ImageError::NoVectors),
    };
    proof {
        lemma_vectors_index(secs@);
        assert(problem_at(secs@, v as int) is None);
        assert(reached(secs@, v + 1));
    }
    let s = &secs[v];
    let vectors = vectors(s.address as u32, s.data.as_slice());
    let symbols = symbol_info(secs, binfmt, text);
    let debug_frame = find_debug_frame(secs);
    Ok(Image { load, vectors, symbols, debug_frame })
}

} // verus!
