//! What the logging macros of the target decide at compile time: how a format string splits
//! into literal text and arguments, and what the expanded code writes.
use vstd::prelude::*;

use crate::binfmt::Level;
use crate::text::{chars_of, find_in, string_of};

verus! {

/// Why a format string is refused.
#[derive(Clone, Copy, PartialEq, Eq, Debug, Structural)]
pub enum FormatError {
    /// A `{` that starts none of `{{`, `{}`, `{:?}` and `{:#?}`
    InvalidFormat,
    /// A `}` that is not escaped as `}}`
    UnmatchedRightBrace,
}

/// A piece of a format string.
#[derive(PartialEq, Eq, Debug)]
pub enum Piece {
    /// `{:?}`, or `{:#?}` when `pretty`
    Debug {
        /// Whether the argument is pretty-printed
        pretty: bool,
    },
    /// `{}`
    Display,
    /// Literal text, unescaped
    Str(String),
}

/// A piece of a format string, its text as characters.
pub enum PieceV {
    /// `{:?}`, or `{:#?}` when `pretty`
    Debug {
        /// Whether the argument is pretty-printed
        pretty: bool,
    },
    /// `{}`
    Display,
    /// Literal text, unescaped
    Str(Seq<char>),
}

/// The mathematical form of a piece.
pub open spec fn piece_view(p: Piece) -> PieceV {
    match p {
        Piece::Debug { pretty } => PieceV::Debug { pretty },
        Piece::Display => PieceV::Display,
        Piece::Str(s) => PieceV::Str(s@),
    }
}

/// The mathematical form of each piece.
pub open spec fn pieces_view(ps: Seq<Piece>) -> Seq<PieceV> {
    Seq::new(ps.len(), |i: int| piece_view(ps[i]))
}

/// Literal text with each `}}` turned into `}`; `None` where a `}` is not doubled.
pub open spec fn unescape_spec(s: Seq<char>) -> Option<Seq<char>>
    decreases s.len(),
{
    if s.len() == 0 {
        Some(Seq::empty())
    } else if s[0] == '}' {
        if s.len() >= 2 && s[1] == '}' {
            match unescape_spec(s.skip(2)) {
                Some(r) => Some(seq!['}'] + r),
                None => None,
            }
        } else {
            None
        }
    } else {
        match unescape_spec(s.skip(1)) {
            Some(r) => Some(seq![s[0]] + r),
            None => None,
        }
    }
}

/// A character found in `s[i..end]` lies in that range.
pub proof fn lemma_find_in_range(s: Seq<char>, i: int, end: int, c: char)
    ensures
        find_in(s, i, end, c) matches Some(j) ==> i <= j < end,
    decreases end - i,
{
    if i < end && s[i] != c {
        lemma_find_in_range(s, i + 1, end, c);
    }
}

/// Whether `s` starts with `p`.
pub open spec fn starts_with(s: Seq<char>, p: Seq<char>) -> bool {
    p.len() <= s.len() && s.take(p.len() as int) == p
}

/// `ps` followed by what `r` holds.
pub open spec fn prepend_pieces(ps: Seq<PieceV>, r: Result<Seq<PieceV>, FormatError>) -> Result<Seq<PieceV>, FormatError> {
    match r {
        Ok(qs) => Ok(ps + qs),
        Err(e) => Err(e),
    }
}

/// The text piece that ends at an argument: the pending text `buf`, then `head` unescaped;
/// nothing when both are empty.
pub open spec fn flush(buf: Seq<char>, head: Seq<char>) -> Result<Seq<PieceV>, FormatError> {
    if buf.len() == 0 && head.len() == 0 {
        Ok(Seq::empty())
    } else {
        match unescape_spec(head) {
            Some(u) => Ok(seq![PieceV::Str(buf + u)]),
            None => Err(FormatError::UnmatchedRightBrace),
        }
    }
}

/// The pieces of the format string `lit`, with `buf` the text pending before it: text runs up to
/// each argument (`{}`, `{:?}`, `{:#?}`), with `{{` standing for `{` and `}}` for `}`.
pub open spec fn parsel_from(lit: Seq<char>, buf: Seq<char>) -> Result<Seq<PieceV>, FormatError>
    decreases lit.len(),
{
    match find_in(lit, 0, lit.len() as int, '{') {
        None => if buf.len() == 0 && lit.len() == 0 {
            Ok(Seq::empty())
        } else {
            match unescape_spec(lit) {
                Some(u) => Ok(seq![PieceV::Str(buf + u)]),
                None => Err(FormatError::UnmatchedRightBrace),
            }
        },
        Some(k) => {
            let head = lit.take(k);
            let tail = lit.skip(k + 1);
            proof {
                lemma_find_in_range(lit, 0, lit.len() as int, '{');
            }
            if starts_with(tail, seq![':', '?', '}']) || starts_with(tail, seq![':', '#', '?', '}'])
                || starts_with(tail, seq!['}']) {
                let (piece, n) = if starts_with(tail, seq![':', '?', '}']) {
                    (PieceV::Debug { pretty: false }, 3int)
                } else if starts_with(tail, seq![':', '#', '?', '}']) {
                    (PieceV::Debug { pretty: true }, 4int)
                } else {
                    (PieceV::Display, 1int)
                };
                match flush(buf, head) {
                    Err(e) => Err(e),
                    Ok(f) => prepend_pieces(f.push(piece), parsel_from(tail.skip(n), Seq::empty())),
                }
            } else if starts_with(tail, seq!['{']) {
                match unescape_spec(head) {
                    Some(u) => parsel_from(tail.skip(1), buf + u + seq!['{']),
                    None => Err(FormatError::UnmatchedRightBrace),
                }
            } else {
                Err(FormatError::InvalidFormat)
            }
        },
    }
}

fn unescape_chars(s: &Vec<char>, start: usize, end: usize) -> (r: Option<Vec<char>>)
    requires
        start <= end <= s@.len(),
    ensures
        match r {
            Some(v) => unescape_spec(s@.subrange(start as int, end as int)) == Some(v@),
            None => unescape_spec(s@.subrange(start as int, end as int)) is None,
        },
{
    let ghost whole = s@.subrange(start as int, end as int);
    let mut out: Vec<char> = Vec::new();
    let mut j = start;
    assert(s@.subrange(j as int, end as int) =~= whole);
    while j < end
        invariant
            start <= j <= end <= s@.len(),
            whole == s@.subrange(start as int, end as int),
            unescape_spec(whole) == (match unescape_spec(s@.subrange(j as int, end as int)) {
                Some(t) => Some(out@ + t),
                None => None::<Seq<char>>,
            }),
        decreases end - j,
    {
        let ghost rest = s@.subrange(j as int, end as int);
        if s[j] == '}' {
            if j + 1 < end && s[j + 1] == '}' {
                assert(rest.skip(2) =~= s@.subrange(j + 2, end as int));
                proof {
                    match unescape_spec(rest.skip(2)) {
                        Some(t) => { assert(out@ + (seq!['}'] + t) =~= out@.push('}') + t); },
                        None => {},
                    }
                }
                out.push('}');
                j = j + 2;
            } else {
                return None;
            }
        } else {
            assert(rest.skip(1) =~= s@.subrange(j + 1, end as int));
            proof {
                match unescape_spec(rest.skip(1)) {
                    Some(t) => { assert(out@ + (seq![rest[0]] + t) =~= out@.push(rest[0]) + t); },
                    None => {},
                }
            }
            out.push(s[j]);
            j = j + 1;
        }
    }
    assert(s@.subrange(j as int, end as int) =~= Seq::<char>::empty());
    assert(out@ + Seq::<char>::empty() =~= out@);
    Some(out)
}

/// Turns each `}}` of literal text into `}`; a `}` that is not doubled is an error.
pub fn unescape(literal: &str) -> (r: Result<String, FormatError>)
    ensures
        match r {
            Ok(t) => unescape_spec(literal@) == Some(t@),
            Err(e) => unescape_spec(literal@) is None && e == FormatError::UnmatchedRightBrace,
        },
{
    let c = chars_of(literal);
    assert(c@.subrange(0, c@.len() as int) =~= c@);
    match unescape_chars(&c, 0, c.len()) {
        Some(v) => Ok(string_of(&v)),
        None => Err(FormatError::UnmatchedRightBrace),
    }
}

fn sub_chars(s: &Vec<char>, start: usize, end: usize) -> (r: Vec<char>)
    requires
        start <= end <= s@.len(),
    ensures
        r@ == s@.subrange(start as int, end as int),
{
    let mut r: Vec<char> = Vec::new();
    let mut k = start;
    while k < end
        invariant
            start <= k <= end <= s@.len(),
            r@ == s@.subrange(start as int, k as int),
        decreases end - k,
    {
        r.push(s[k]);
        k = k + 1;
    }
    r
}

fn has_prefix(s: &Vec<char>, from: usize, p: &Vec<char>) -> (r: bool)
    requires
        from <= s@.len(),
    ensures
        r == starts_with(s@.skip(from as int), p@),
{
    let n = s.len();
    if p.len() > n - from {
        return false;
    }
    let mut k: usize = 0;
    while k < p.len()
        invariant
            n == s@.len(),
            from <= s@.len(),
            p@.len() <= s@.len() - from,
            k <= p@.len(),
            forall|j: int| 0 <= j < k ==> s@[from + j] == p@[j],
        decreases p.len() - k,
    {
        assert(from + k < s@.len());
        if s[from + k] != p[k] {
            assert(s@.skip(from as int).take(p@.len() as int)[k as int] != p@[k as int]);
            return false;
        }
        k = k + 1;
    }
    assert(s@.skip(from as int).take(p@.len() as int) =~= p@);
    true
}

#[verifier::rlimit(80)]
/// Splits a format string into its pieces: text runs, with `{{` standing for `{` and `}}` for
/// `}`, and the arguments `{}`, `{:?}` and `{:#?}`.
pub fn parsel(literal: &str) -> (r: Result<Vec<Piece>, FormatError>)
    ensures
        match r {
            Ok(ps) => parsel_from(literal@, Seq::empty()) == Ok::<Seq<PieceV>, FormatError>(pieces_view(ps@)),
            Err(e) => parsel_from(literal@, Seq::empty()) == Err::<Seq<PieceV>, FormatError>(e),
        },
{
    let mut cur = chars_of(literal);
    let mut buf: Vec<char> = Vec::new();
    let mut pieces: Vec<Piece> = Vec::new();
    let debug = vec![':', '?', '}'];
    let pretty = vec![':', '#', '?', '}'];
    let display = vec!['}'];
    let open = vec!['{'];
    assert(debug@ =~= seq![':', '?', '}']);
    assert(pretty@ =~= seq![':', '#', '?', '}']);
    assert(display@ =~= seq!['}']);
    assert(open@ =~= seq!['{']);
    assert(pieces_view(pieces@) + Seq::<PieceV>::empty() =~= Seq::<PieceV>::empty());
    assert(parsel_from(literal@, Seq::empty()) == prepend_pieces(pieces_view(pieces@), parsel_from(cur@, buf@))) by {
        match parsel_from(literal@, Seq::empty()) {
            Ok(qs) => { assert(pieces_view(pieces@) + qs =~= qs); },
            Err(e) => {},
        }
    }
    loop
        invariant
            debug@ == seq![':', '?', '}'],
            pretty@ == seq![':', '#', '?', '}'],
            display@ == seq!['}'],
            open@ == seq!['{'],
            parsel_from(literal@, Seq::empty()) == prepend_pieces(pieces_view(pieces@), parsel_from(cur@, buf@)),
        decreases cur@.len(),
    {
        let n = cur.len();
        match crate::text::find_char(&cur, 0, n, '{') {
            None => {
                if buf.len() == 0 && n == 0 {
                    assert(pieces_view(pieces@) + Seq::<PieceV>::empty() =~= pieces_view(pieces@));
                    return Ok(pieces);
                }
                assert(cur@.subrange(0, n as int) =~= cur@);
                match unescape_chars(&cur, 0, n) {
                    Some(u) => {
                        let ghost before = pieces@;
                        append_to(&mut buf, &u);
                        pieces.push(Piece::Str(string_of(&buf)));
                        assert(pieces_view(pieces@) =~= pieces_view(before) + seq![PieceV::Str(buf@)]);
                        return Ok(pieces);
                    },
                    None => return Err(FormatError::UnmatchedRightBrace),
                }
            },
            Some(k) => {
                let ghost lit = cur@;
                let ghost head = lit.take(k as int);
                let ghost tail = lit.skip(k + 1);
                assert(cur@.subrange(0, k as int) =~= head);
                assert(cur@.skip(k + 1) =~= tail);
                let is_debug = has_prefix(&cur, k + 1, &debug);
                let is_pretty = has_prefix(&cur, k + 1, &pretty);
                let is_display = has_prefix(&cur, k + 1, &display);
                if is_debug || is_pretty || is_display {
                    let (piece, len): (Piece, usize) = if is_debug {
                        (Piece::Debug { pretty: false }, 3)
                    } else if is_pretty {
                        (Piece::Debug { pretty: true }, 4)
                    } else {
                        (Piece::Display, 1)
                    };
                    let ghost before = pieces@;
                    let ghost b0 = buf@;
                    if !(buf.len() == 0 && k == 0) {
                        match unescape_chars(&cur, 0, k) {
                            Some(u) => {
                                append_to(&mut buf, &u);
                                pieces.push(Piece::Str(string_of(&buf)));
                            },
                            None => return Err(FormatError::UnmatchedRightBrace),
                        }
                    }
                    let ghost flushed = pieces@;
                    pieces.push(piece);
                    let next = sub_chars(&cur, k + 1 + len, n);
                    proof {
                        assert(tail.skip(len as int) =~= next@);
                        let f = flush(b0, head);
                        assert(0 <= k < lit.len());
                        assert(f is Ok);
                        assert(parsel_from(lit, b0) == prepend_pieces(f->Ok_0.push(piece_view(piece)), parsel_from(next@, Seq::empty())));
                        assert(pieces_view(pieces@) =~= pieces_view(before) + (match f { Ok(fp) => fp, Err(_) => Seq::empty() }).push(piece_view(piece)));
                        match parsel_from(next@, Seq::empty()) {
                            Ok(qs) => {
                                assert(pieces_view(before) + ((match f { Ok(fp) => fp, Err(_) => Seq::empty() }).push(piece_view(piece)) + qs)
                                    =~= pieces_view(pieces@) + qs);
                            },
                            Err(e) => {},
                        }
                    }
                    buf = Vec::new();
                    cur = next;
                } else if has_prefix(&cur, k + 1, &open) {
                    let ghost b0 = buf@;
                    match unescape_chars(&cur, 0, k) {
                        Some(u) => {
                            append_to(&mut buf, &u);
                            buf.push('{');
                            let next = sub_chars(&cur, k + 2, n);
                            assert(tail.skip(1) =~= next@);
                            assert(0 <= k < lit.len());
                            assert(buf@ =~= b0 + u@ + seq!['{']);
                            assert(parsel_from(lit, b0) == parsel_from(next@, buf@));
                            cur = next;
                        },
                        None => return Err(FormatError::UnmatchedRightBrace),
                    }
                } else {
                    return Err(FormatError::InvalidFormat);
                }
            },
        }
    }
}

fn append_to(v: &mut Vec<char>, w: &Vec<char>)
    ensures
        final(v)@ == old(v)@ + w@,
{
    crate::text::append_chars(v, w);
}

/// Text of at least this many bytes is interned as a symbol instead of written out.
pub const THRESHOLD: usize = 4;

impl Level {
    /// Whether messages of this level are compiled in only with debug assertions.
    pub fn needs_debug_assertions(&self) -> (r: bool)
        ensures
            r == (*self is Debug || *self is Trace),
    {
        match self {
            Level::Debug | Level::Trace => true,
            _ => false,
        }
    }
}

/// Number of bytes of the UTF-8 encoding of `c`.
pub open spec fn utf8_char_len(c: char) -> nat {
    if (c as u32) < 0x80 {
        1
    } else if (c as u32) < 0x800 {
        2
    } else if (c as u32) < 0x1_0000 {
        3
    } else {
        4
    }
}

/// Number of bytes of the UTF-8 encoding of `s`.
pub open spec fn utf8_len(s: Seq<char>) -> nat
    decreases s.len(),
{
    if s.len() == 0 {
        0
    } else {
        utf8_len(s.drop_last()) + utf8_char_len(s.last())
    }
}

fn utf8_len_of(s: &Vec<char>) -> (r: usize)
    ensures
        r == (if utf8_len(s@) < THRESHOLD { utf8_len(s@) } else { THRESHOLD as nat }),
{
    let mut n: usize = 0;
    let mut i: usize = 0;
    while i < s.len() && n < THRESHOLD
        invariant
            i <= s@.len(),
            n == utf8_len(s@.take(i as int)),
            n <= THRESHOLD + 4,
        decreases s.len() - i,
    {
        assert(s@.take(i + 1).drop_last() =~= s@.take(i as int));
        let c = s[i] as u32;
        n = n + if c < 0x80 { 1 } else if c < 0x800 { 2 } else if c < 0x1_0000 { 3 } else { 4 };
        i = i + 1;
    }
    proof {
        lemma_utf8_len_grows(s@, i as int);
    }
    if n < THRESHOLD {
        assert(i == s@.len());
        assert(s@.take(i as int) =~= s@);
        n
    } else {
        THRESHOLD
    }
}

proof fn lemma_utf8_len_grows(s: Seq<char>, i: int)
    requires
        0 <= i <= s.len(),
    ensures
        utf8_len(s.take(i)) <= utf8_len(s),
    decreases s.len() - i,
{
    if i < s.len() {
        lemma_utf8_len_grows(s, i + 1);
        assert(s.take(i + 1).drop_last() =~= s.take(i));
    } else {
        assert(s.take(i) =~= s);
    }
}

/// One step of the code that a logging macro expands to.
#[derive(PartialEq, Eq, Debug)]
pub enum Action {
    /// Write the timestamp
    Timestamp,
    /// Write the symbol of the level, whose address is the level's number
    Level(u8),
    /// Format the next argument with `Debug`, pretty-printed or not
    Debug(bool),
    /// Format the next argument with `Display`
    Display,
    /// Write the symbol of this interned text
    Symbol(String),
    /// Write this text
    Str(String),
}

/// A step of the expanded code, its text as characters.
pub enum ActionV {
    /// Write the timestamp
    Timestamp,
    /// Write the symbol of the level
    Level(u8),
    /// Format the next argument with `Debug`
    Debug(bool),
    /// Format the next argument with `Display`
    Display,
    /// Write the symbol of this interned text
    Symbol(Seq<char>),
    /// Write this text
    Str(Seq<char>),
}

/// The mathematical form of an action.
pub open spec fn action_view(a: Action) -> ActionV {
    match a {
        Action::Timestamp => ActionV::Timestamp,
        Action::Level(l) => ActionV::Level(l),
        Action::Debug(p) => ActionV::Debug(p),
        Action::Display => ActionV::Display,
        Action::Symbol(s) => ActionV::Symbol(s@),
        Action::Str(s) => ActionV::Str(s@),
    }
}

/// What the expanded code does for a piece: text of `THRESHOLD` bytes or more is interned.
pub open spec fn piece_action(p: PieceV) -> ActionV {
    match p {
        PieceV::Debug { pretty } => ActionV::Debug(pretty),
        PieceV::Display => ActionV::Display,
        PieceV::Str(s) => if utf8_len(s) >= THRESHOLD {
            ActionV::Symbol(s)
        } else {
            ActionV::Str(s)
        },
    }
}

/// What the code that a logging macro expands to does.
pub struct LogPlan {
    /// Whether the code runs only with debug assertions
    pub debug_only: bool,
    /// The steps, in order, between taking the output and flushing it
    pub actions: Vec<Action>,
}

/// The steps of a message at `level` (none for `print`) whose format string splits into
/// `pieces`: the timestamp and the level first, for a log message.
pub open spec fn log_actions(level: Option<Level>, pieces: Seq<PieceV>) -> Seq<ActionV> {
    let head: Seq<ActionV> = match level {
        Some(l) => seq![ActionV::Timestamp, ActionV::Level(crate::binfmt::level_byte(l))],
        None => Seq::empty(),
    };
    head + Seq::new(pieces.len(), |i: int| piece_action(pieces[i]))
}

/// Plans the code of a logging macro: `level` is that of `error!` to `trace!`, `None` for
/// `print!`; `newline` is set for all but `print!`.
pub fn log_plan(level: Option<Level>, literal: &str, newline: bool) -> (r: Result<LogPlan, FormatError>)
    ensures
        ({
            let lit = if newline { literal@.push('\n') } else { literal@ };
            match r {
                Ok(p) => parsel_from(lit, Seq::empty()) matches Ok(ps)
                    && Seq::new(p.actions@.len(), |i: int| action_view(p.actions@[i])) == log_actions(level, ps)
                    && p.debug_only == (level matches Some(l) && (l is Debug || l is Trace)),
                Err(e) => parsel_from(lit, Seq::empty()) == Err::<Seq<PieceV>, FormatError>(e),
            }
        }),
{
    let mut lit = chars_of(literal);
    if newline {
        lit.push('\n');
    }
    let text = string_of(&lit);
    let pieces = match parsel(text.as_str()) {
        Ok(ps) => ps,
        Err(e) => return Err(e),
    };
    let mut actions: Vec<Action> = Vec::new();
    match level {
        Some(l) => {
            actions.push(Action::Timestamp);
            actions.push(Action::Level(l.byte()));
        },
        None => {},
    }
    let ghost head: Seq<ActionV> = match level {
        Some(l) => seq![ActionV::Timestamp, ActionV::Level(crate::binfmt::level_byte(l))],
        None => Seq::empty(),
    };
    assert(Seq::new(actions@.len(), |i: int| action_view(actions@[i])) =~= head);
    let mut i: usize = 0;
    while i < pieces.len()
        invariant
            i <= pieces@.len(),
            actions@.len() == head.len() + i,
            head == (match level {
                Some(l) => seq![ActionV::Timestamp, ActionV::Level(crate::binfmt::level_byte(l))],
                None => Seq::<ActionV>::empty(),
            }),
            forall|j: int| 0 <= j < head.len() ==> #[trigger] action_view(actions@[j]) == head[j],
            forall|j: int| 0 <= j < i ==> action_view(#[trigger] actions@[head.len() + j]) == piece_action(piece_view(pieces@[j])),
        decreases pieces.len() - i,
    {
        let a = match &pieces[i] {
            Piece::Debug { pretty } => Action::Debug(*pretty),
            Piece::Display => Action::Display,
            Piece::Str(s) => {
                let c = chars_of(s.as_str());
                if utf8_len_of(&c) >= THRESHOLD {
                    Action::Symbol(string_of(&c))
                } else {
                    Action::Str(string_of(&c))
                }
            },
        };
        actions.push(a);
        i = i + 1;
    }
    let debug_only = match level {
        Some(l) => l.needs_debug_assertions(),
        None => false,
    };
    let r = LogPlan { debug_only, actions };
    let ghost pv = pieces_view(pieces@);
    let ghost got = Seq::new(r.actions@.len(), |i: int| action_view(r.actions@[i]));
    let ghost want = log_actions(level, pv);
    assert(got.len() == want.len());
    assert forall|j: int| 0 <= j < got.len() implies got[j] == want[j] by {
        if j < head.len() {
            assert(action_view(r.actions@[j]) == head[j]);
        } else {
            let m = j - head.len();
            assert(action_view(r.actions@[head.len() + m]) == piece_action(piece_view(pieces@[m])));
            assert(pv[m] == piece_view(pieces@[m]));
        }
    }
    assert(Seq::new(r.actions@.len(), |i: int| action_view(r.actions@[i])) =~= log_actions(level, pieces_view(pieces@)));
    Ok(r)
}

} // verus!
