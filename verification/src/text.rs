//! Rendering of integers as text and small helpers on character sequences.
use vstd::prelude::*;

verus! {

/// The character of digit `d` (`0`-`9`, then lower-case `a`-`f`).
pub open spec fn digit_char(d: nat) -> char {
    if d < 10 {
        (48 + d) as char
    } else {
        (97 + d - 10) as char
    }
}

/// The digits of `n` in base `radix`, most significant first, without leading zeros
/// (`0` is written as a single `0`).
pub open spec fn radix_digits(n: nat, radix: nat) -> Seq<char>
    decreases n,
{
    if radix < 2 {
        Seq::empty()
    } else if n < radix {
        seq![digit_char(n)]
    } else {
        proof {
            vstd::arithmetic::div_mod::lemma_div_decreases(n as int, radix as int);
        }
        radix_digits(n / radix, radix).push(digit_char(n % radix))
    }
}

/// `s` preceded by as many copies of `c` as make it at least `width` characters long.
pub open spec fn pad_left(s: Seq<char>, width: nat, c: char) -> Seq<char> {
    if s.len() < width {
        Seq::new((width - s.len()) as nat, |i: int| c) + s
    } else {
        s
    }
}

/// `s` preceded by `prefix`.
pub open spec fn prefixed(prefix: Seq<char>, s: Seq<char>) -> Seq<char> {
    prefix + s
}

/// Decimal text of a signed number.
pub open spec fn signed_decimal(x: int) -> Seq<char> {
    if x < 0 {
        seq!['-'] + radix_digits((-x) as nat, 10)
    } else {
        radix_digits(x as nat, 10)
    }
}

fn digit(d: u64) -> (c: char)
    requires
        d < 16,
    ensures
        c == digit_char(d as nat),
{
    if d < 10 {
        ((48 + d) as u8) as char
    } else {
        ((97 + d - 10) as u8) as char
    }
}

proof fn lemma_div_step(n: nat, r: nat)
    requires
        r >= 2,
    ensures
        n < r ==> n % r == n && n / r == 0,
        n >= r ==> n / r > 0,
        n % r < r,
{
    if n < r {
        vstd::arithmetic::div_mod::lemma_small_mod(n, r);
        vstd::arithmetic::div_mod::lemma_basic_div(n as int, r as int);
    } else {
        vstd::arithmetic::div_mod::lemma_div_non_zero(n as int, r as int);
    }
    vstd::arithmetic::div_mod::lemma_mod_bound(n as int, r as int);
}

/// The digits of `n` in base `radix` (2 to 16).
pub fn radix_chars(n: u64, radix: u64) -> (r: Vec<char>)
    requires
        2 <= radix <= 16,
    ensures
        r@ == radix_digits(n as nat, radix as nat),
{
    let mut v: Vec<char> = Vec::new();
    let mut m = n;
    proof {
        lemma_div_step(n as nat, radix as nat);
    }
    v.insert(0, digit(m % radix));
    m = m / radix;
    assert(v@ =~= seq![digit_char((n % radix) as nat)]);
    assert(m > 0 ==> radix_digits(n as nat, radix as nat) =~= radix_digits(m as nat, radix as nat) + v@);
    while m > 0
        invariant
            2 <= radix <= 16,
            m > 0 ==> radix_digits(n as nat, radix as nat) == radix_digits(m as nat, radix as nat) + v@,
            m == 0 ==> radix_digits(n as nat, radix as nat) == v@,
        decreases m,
    {
        let ghost old_v = v@;
        let ghost old_m = m;
        proof {
            lemma_div_step(m as nat, radix as nat);
        }
        v.insert(0, digit(m % radix));
        m = m / radix;
        proof {
            assert(v@ =~= seq![digit_char((old_m % radix) as nat)] + old_v);
            if m > 0 {
                assert(radix_digits(m as nat, radix as nat) + v@ =~= radix_digits(m as nat, radix as nat).push(digit_char((old_m % radix) as nat)) + old_v);
            } else {
                assert(seq![digit_char(old_m as nat)] + old_v =~= v@);
            }
        }
    }
    v
}


/// The lowest `width` digits of `n` in base `radix`, most significant first, zero-padded.
pub open spec fn fixed_digits(n: nat, radix: nat, width: nat) -> Seq<char>
    decreases width,
{
    if width == 0 || radix == 0 {
        Seq::empty()
    } else {
        fixed_digits(n / radix, radix, (width - 1) as nat).push(digit_char(n % radix))
    }
}

/// The lowest `width` digits of `n` in base `radix` (2 to 16), zero-padded.
pub fn fixed_chars(n: u64, radix: u64, width: usize) -> (r: Vec<char>)
    requires
        2 <= radix <= 16,
    ensures
        r@ == fixed_digits(n as nat, radix as nat, width as nat),
    decreases width,
{
    if width == 0 {
        Vec::new()
    } else {
        let mut r = fixed_chars(n / radix, radix, width - 1);
        r.push(digit(n % radix));
        r
    }
}

/// Whether `c` is an ASCII decimal digit.
pub open spec fn is_dec_digit(c: char) -> bool {
    '0' <= c && c <= '9'
}

/// The value of the decimal digits `d`, most significant first.
pub open spec fn dec_value(d: Seq<char>) -> nat
    decreases d.len(),
{
    if d.len() == 0 {
        0
    } else {
        dec_value(d.drop_last()) * 10 + ((d.last() as int - 48) as nat)
    }
}

/// The digits of an unsigned number as written: without a leading `+`.
pub open spec fn unsigned_digits(s: Seq<char>) -> Seq<char> {
    if s.len() > 0 && s[0] == '+' {
        s.drop_first()
    } else {
        s
    }
}

/// Whether every character of `d` is a decimal digit.
pub open spec fn all_dec_digits(d: Seq<char>) -> bool {
    forall|i: int| 0 <= i < d.len() ==> is_dec_digit(#[trigger] d[i])
}

/// What `str::parse` gives for an unsigned integer type whose largest value is `max`:
/// an optional `+`, then at least one decimal digit and nothing else, of value at most `max`.
pub open spec fn parse_unsigned(s: Seq<char>, max: nat) -> Option<nat> {
    let d = unsigned_digits(s);
    if d.len() == 0 || !all_dec_digits(d) || dec_value(d) > max {
        None
    } else {
        Some(dec_value(d))
    }
}

proof fn lemma_dec_value_grows(d: Seq<char>, i: int)
    requires
        0 <= i <= d.len(),
        forall|j: int| 0 <= j < d.len() ==> is_dec_digit(#[trigger] d[j]),
    ensures
        dec_value(d.take(i)) <= dec_value(d),
    decreases d.len(),
{
    if i < d.len() {
        assert(d.drop_last().take(i) =~= d.take(i));
        lemma_dec_value_grows(d.drop_last(), i);
    } else {
        assert(d.take(i) =~= d);
    }
}

/// Parses `s[start..end]` as `str::parse` does for an unsigned type whose largest value is `max`.
pub fn parse_unsigned_chars(s: &Vec<char>, start: usize, end: usize, max: u64) -> (r: Option<u64>)
    requires
        start <= end <= s.len(),
    ensures
        match r {
            Some(v) => parse_unsigned(s@.subrange(start as int, end as int), max as nat) == Some(v as nat),
            None => parse_unsigned(s@.subrange(start as int, end as int), max as nat) is None,
        },
{
    let ghost whole = s@.subrange(start as int, end as int);
    let mut i = start;
    if i < end && s[i] == '+' {
        i = i + 1;
    }
    let ghost d = s@.subrange(i as int, end as int);
    assert(d =~= unsigned_digits(whole));
    if i == end {
        return None;
    }
    let first = i;
    let mut acc: u64 = 0;
    while i < end
        invariant
            start <= first <= i <= end <= s.len(),
            d == s@.subrange(first as int, end as int),
            whole == s@.subrange(start as int, end as int),
            d == unsigned_digits(whole),
            d.len() > 0,
            forall|j: int| first <= j < i ==> is_dec_digit(#[trigger] s@[j]),
            acc as nat == dec_value(s@.subrange(first as int, i as int)),
            acc <= max,
        decreases end - i,
    {
        let c = s[i];
        if !('0' <= c && c <= '9') {
            proof {
                let k = i - first;
                assert(d[k] == c);
                assert(0 <= k < d.len() && !is_dec_digit(d[k]));
                assert(!all_dec_digits(d));
            }
            return None;
        }
        let dv = (c as u32 - 48) as u64;
        let ghost prefix = s@.subrange(first as int, i as int + 1);
        assert(prefix.drop_last() =~= s@.subrange(first as int, i as int));
        if dv > max || acc > (max - dv) / 10 {
            proof {
                assert(acc as nat * 10 + dv > max) by (nonlinear_arith)
                    requires dv > max || acc > (max - dv) / 10, dv <= 9;
                if all_dec_digits(d) {
                    assert(prefix =~= d.take(i - first + 1));
                    lemma_dec_value_grows(d, i - first + 1);
                }
            }
            return None;
        }
        acc = acc * 10 + dv;
        i = i + 1;
    }
    assert(s@.subrange(first as int, i as int) =~= d);
    Some(acc)
}

/// First index in `[i, end)` at which `s` holds `c`.
pub open spec fn find_in(s: Seq<char>, i: int, end: int, c: char) -> Option<int>
    decreases end - i,
{
    if i >= end {
        None
    } else if s[i] == c {
        Some(i)
    } else {
        find_in(s, i + 1, end, c)
    }
}

/// Finds the first `c` in `s[start..end]`.
pub fn find_char(s: &Vec<char>, start: usize, end: usize, c: char) -> (r: Option<usize>)
    requires
        start <= end <= s.len(),
    ensures
        match r {
            Some(j) => find_in(s@, start as int, end as int, c) == Some(j as int),
            None => find_in(s@, start as int, end as int, c) is None,
        },
        r matches Some(j) ==> start <= j < end && s@[j as int] == c,
        r is None ==> forall|j: int| start <= j < end ==> s@[j] != c,
{
    let mut i = start;
    while i < end
        invariant
            start <= i <= end <= s.len(),
            find_in(s@, start as int, end as int, c) == find_in(s@, i as int, end as int, c),
            forall|j: int| start <= j < i ==> s@[j] != c,
        decreases end - i,
    {
        if s[i] == c {
            return Some(i);
        }
        i = i + 1;
    }
    None
}

/// The characters of a string slice.
pub fn chars_of(s: &str) -> (r: Vec<char>)
    ensures
        r@ == s@,
{
    let mut r: Vec<char> = Vec::new();
    for c in it: s.chars()
        invariant
            r@ == it.seq().take(it.index() as int),
            it.seq() == s@,
    {
        r.push(c);
    }
    r
}

#[verifier::external_body]
fn push_char(s: &mut String, c: char)
    ensures
        final(s)@ == old(s)@.push(c),
{
    s.push(c)
}

/// A string holding the given characters.
pub fn string_of(v: &Vec<char>) -> (r: String)
    ensures
        r@ == v@,
{
    let mut r = String::new();
    let mut i: usize = 0;
    while i < v.len()
        invariant
            i <= v.len(),
            r@ == v@.take(i as int),
        decreases v.len() - i,
    {
        push_char(&mut r, v[i]);
        i = i + 1;
        assert(r@ =~= v@.take(i as int));
    }
    assert(v@.take(i as int) =~= v@);
    r
}

/// Appends `w` to `v`.
pub fn append_chars(v: &mut Vec<char>, w: &Vec<char>)
    ensures
        final(v)@ == old(v)@ + w@,
{
    let mut i: usize = 0;
    let ghost start = v@;
    while i < w.len()
        invariant
            i <= w.len(),
            v@ == start + w@.take(i as int),
        decreases w.len() - i,
    {
        v.push(w[i]);
        i = i + 1;
        assert(v@ =~= start + w@.take(i as int));
    }
    assert(w@.take(i as int) =~= w@);
}

/// `s` preceded by as many copies of `c` as make it at least `width` characters long.
pub fn pad_left_chars(s: &Vec<char>, width: usize, c: char) -> (r: Vec<char>)
    ensures
        r@ == pad_left(s@, width as nat, c),
{
    let mut r: Vec<char> = Vec::new();
    if s.len() < width {
        let n = width - s.len();
        let mut i: usize = 0;
        while i < n
            invariant
                i <= n,
                r@ == Seq::new(i as nat, |k: int| c),
            decreases n - i,
        {
            r.push(c);
            i = i + 1;
            assert(r@ =~= Seq::new(i as nat, |k: int| c));
        }
    }
    append_chars(&mut r, s);
    assert(r@ =~= pad_left(s@, width as nat, c));
    r
}

/// Decimal text of a signed number.
pub fn signed_decimal_chars(x: i64) -> (r: Vec<char>)
    requires
        x > i64::MIN,
    ensures
        r@ == signed_decimal(x as int),
{
    if x < 0 {
        let mut r: Vec<char> = Vec::new();
        r.push('-');
        let d = radix_chars((-x) as u64, 10);
        append_chars(&mut r, &d);
        r
    } else {
        radix_chars(x as u64, 10)
    }
}


/// The value of digit `c` in base `radix` (up to 16, either case), if it is one.
pub open spec fn digit_value(c: char, radix: nat) -> Option<nat> {
    let v: int = if '0' <= c && c <= '9' {
        c as int - 48
    } else if 'a' <= c && c <= 'f' {
        c as int - 97 + 10
    } else if 'A' <= c && c <= 'F' {
        c as int - 65 + 10
    } else {
        16
    };
    if v < radix { Some(v as nat) } else { None }
}

/// The value of the digits `d` in base `radix`, most significant first, if all are digits.
pub open spec fn radix_value(d: Seq<char>, radix: nat) -> Option<nat>
    decreases d.len(),
{
    if d.len() == 0 {
        Some(0)
    } else {
        match (radix_value(d.drop_last(), radix), digit_value(d.last(), radix)) {
            (Some(h), Some(l)) => Some(h * radix + l),
            _ => None,
        }
    }
}

/// What `from_str_radix` gives for an unsigned integer type whose largest value is `max`: an
/// optional `+`, then at least one digit of base `radix` and nothing else, of value at most `max`.
pub open spec fn parse_unsigned_radix(s: Seq<char>, radix: nat, max: nat) -> Option<nat> {
    let d = unsigned_digits(s);
    if d.len() == 0 {
        None
    } else {
        match radix_value(d, radix) {
            Some(v) => if v <= max { Some(v) } else { None },
            None => None,
        }
    }
}

proof fn lemma_radix_value_grows(d: Seq<char>, i: int, radix: nat)
    requires
        0 <= i <= d.len(),
        radix >= 2,
        radix_value(d, radix) is Some,
    ensures
        radix_value(d.take(i), radix) is Some,
        radix_value(d.take(i), radix)->0 <= radix_value(d, radix)->0,
    decreases d.len(),
{
    if i < d.len() {
        assert(d.drop_last().take(i) =~= d.take(i));
        lemma_radix_value_grows(d.drop_last(), i, radix);
        let h = radix_value(d.drop_last(), radix)->0;
        assert(h <= h * radix) by (nonlinear_arith)
            requires
                radix >= 2,
        ;
    } else {
        assert(d.take(i) =~= d);
    }
}

fn digit_of(c: char, radix: u64) -> (r: Option<u64>)
    requires
        2 <= radix <= 16,
    ensures
        match digit_value(c, radix as nat) {
            Some(v) => r == Some(v as u64),
            None => r is None,
        },
{
    let v: u64 = if '0' <= c && c <= '9' {
        (c as u32 - 48) as u64
    } else if 'a' <= c && c <= 'f' {
        (c as u32 - 97 + 10) as u64
    } else if 'A' <= c && c <= 'F' {
        (c as u32 - 65 + 10) as u64
    } else {
        16
    };
    if v < radix { Some(v) } else { None }
}

/// Parses `s[start..end]` as `from_str_radix` does for an unsigned type whose largest value is
/// `max`.
pub fn parse_radix_chars(s: &Vec<char>, start: usize, end: usize, radix: u64, max: u64) -> (r: Option<u64>)
    requires
        start <= end <= s.len(),
        2 <= radix <= 16,
    ensures
        match r {
            Some(v) => parse_unsigned_radix(s@.subrange(start as int, end as int), radix as nat, max as nat) == Some(v as nat),
            None => parse_unsigned_radix(s@.subrange(start as int, end as int), radix as nat, max as nat) is None,
        },
{
    let ghost whole = s@.subrange(start as int, end as int);
    let mut i = start;
    if i < end && s[i] == '+' {
        i = i + 1;
    }
    let ghost d = s@.subrange(i as int, end as int);
    assert(d =~= unsigned_digits(whole));
    if i == end {
        return None;
    }
    let first = i;
    let mut acc: u64 = 0;
    assert(s@.subrange(first as int, first as int) =~= Seq::<char>::empty());
    while i < end
        invariant
            start <= first <= i <= end <= s.len(),
            2 <= radix <= 16,
            d == s@.subrange(first as int, end as int),
            whole == s@.subrange(start as int, end as int),
            d == unsigned_digits(whole),
            d.len() > 0,
            radix_value(s@.subrange(first as int, i as int), radix as nat) == Some(acc as nat),
            acc <= max,
        decreases end - i,
    {
        let c = s[i];
        let ghost prefix = s@.subrange(first as int, i as int + 1);
        assert(prefix.drop_last() =~= s@.subrange(first as int, i as int));
        assert(prefix.last() == c);
        match digit_of(c, radix) {
            None => {
                proof {
                    if radix_value(d, radix as nat) is Some {
                        assert(prefix =~= d.take(i - first + 1));
                        lemma_radix_value_grows(d, i - first + 1, radix as nat);
                    }
                }
                return None;
            },
            Some(dv) => {
                if dv > max || acc > (max - dv) / radix {
                    proof {
                        assert(acc as nat * radix + dv > max) by (nonlinear_arith)
                            requires
                                dv > max || acc > ((max - dv) as int) / (radix as int),
                                radix >= 2,
                        ;
                        if radix_value(d, radix as nat) is Some {
                            assert(prefix =~= d.take(i - first + 1));
                            lemma_radix_value_grows(d, i - first + 1, radix as nat);
                        }
                    }
                    return None;
                }
                proof {
                    assert(acc * radix + dv <= max) by (nonlinear_arith)
                        requires
                            acc <= ((max - dv) as int) / (radix as int),
                            dv <= max,
                            radix >= 2,
                    ;
                }
                acc = acc * radix + dv;
                i = i + 1;
            },
        }
    }
    assert(s@.subrange(first as int, i as int) =~= d);
    Some(acc)
}

/// Whether `c` is white space (`char::is_whitespace`: the Unicode `White_Space` property).
pub open spec fn is_ws(c: char) -> bool {
    ||| c == ' '
    ||| ('\t' <= c && c <= '\r')
    ||| c == '\u{85}'
    ||| c == '\u{a0}'
    ||| c == '\u{1680}'
    ||| ('\u{2000}' <= c && c <= '\u{200a}')
    ||| c == '\u{2028}'
    ||| c == '\u{2029}'
    ||| c == '\u{202f}'
    ||| c == '\u{205f}'
    ||| c == '\u{3000}'
}

/// Whether `c` is white space.
pub fn is_whitespace(c: char) -> (r: bool)
    ensures
        r == is_ws(c),
{
    c == ' ' || ('\t' <= c && c <= '\r') || c == '\u{85}' || c == '\u{a0}' || c == '\u{1680}' || ('\u{2000}' <= c
        && c <= '\u{200a}') || c == '\u{2028}' || c == '\u{2029}' || c == '\u{202f}' || c == '\u{205f}' || c == '\u{3000}'
}

/// `s` without its leading white space.
pub open spec fn trim_start(s: Seq<char>) -> Seq<char>
    decreases s.len(),
{
    if s.len() > 0 && is_ws(s[0]) {
        trim_start(s.skip(1))
    } else {
        s
    }
}

/// `s` without its trailing white space.
pub open spec fn trim_end(s: Seq<char>) -> Seq<char>
    decreases s.len(),
{
    if s.len() > 0 && is_ws(s.last()) {
        trim_end(s.drop_last())
    } else {
        s
    }
}

/// `s` without its leading and trailing white space (`str::trim`).
pub open spec fn trim(s: Seq<char>) -> Seq<char> {
    trim_end(trim_start(s))
}

/// `s` without its leading and trailing white space.
pub fn trim_chars(s: &Vec<char>) -> (r: Vec<char>)
    ensures
        r@ == trim(s@),
{
    let n = s.len();
    let mut i: usize = 0;
    assert(s@.skip(0) =~= s@);
    while i < n && is_whitespace(s[i])
        invariant
            i <= n,
            n == s@.len(),
            trim_start(s@) == trim_start(s@.skip(i as int)),
        decreases n - i,
    {
        assert(s@.skip(i as int)[0] == s@[i as int]);
        assert(s@.skip(i as int).skip(1) =~= s@.skip(i + 1));
        i = i + 1;
    }
    let ghost t = s@.skip(i as int);
    assert(trim_start(t) == t);
    let mut j: usize = n;
    assert(t.take((j - i) as int) =~= t);
    while j > i && is_whitespace(s[j - 1])
        invariant
            i <= j <= n,
            n == s@.len(),
            t == s@.skip(i as int),
            trim_end(t) == trim_end(s@.subrange(i as int, j as int)),
        decreases j,
    {
        assert(s@.subrange(i as int, j as int).last() == s@[j - 1]);
        assert(s@.subrange(i as int, j as int).drop_last() =~= s@.subrange(i as int, j - 1));
        j = j - 1;
    }
    if i == 0 && j == n {
        assert(s@.subrange(0, n as int) =~= s@);
    }
    let mut r: Vec<char> = Vec::new();
    let mut k: usize = i;
    while k < j
        invariant
            i <= k <= j <= n,
            n == s@.len(),
            r@ == s@.subrange(i as int, k as int),
        decreases j - k,
    {
        r.push(s[k]);
        k = k + 1;
        assert(r@ =~= s@.subrange(i as int, k as int));
    }
    assert(t =~= s@.subrange(i as int, n as int));
    r
}
} // verus!
