//! Rounding to multiples.
use vstd::prelude::*;

verus! {

/// `x` rounded down to a multiple of `n`.
pub fn round_down(x: u16, n: u16) -> (r: u16)
    requires
        n != 0,
    ensures
        r == x - x % n,
{
    let rem = x % n;
    proof {
        vstd::arithmetic::div_mod::lemma_mod_decreases(x as nat, n as nat);
    }
    if rem != 0 {
        x - rem
    } else {
        x
    }
}

/// `x` rounded up to a multiple of `n`.
pub fn round_up(x: u16, n: u16) -> (r: u16)
    requires
        n != 0,
        x % n == 0 || x - x % n + n <= u16::MAX,
    ensures
        r == (if x % n == 0 { x as int } else { x - x % n + n }),
{
    let rem = x % n;
    proof {
        vstd::arithmetic::div_mod::lemma_mod_decreases(x as nat, n as nat);
    }
    if rem != 0 {
        n + (x - rem)
    } else {
        x
    }
}

/// `round_down` gives the largest multiple of `n` that is not above `x`.
pub proof fn lemma_round_down(x: u16, n: u16)
    requires
        n != 0,
    ensures
        (x - x % n) % (n as int) == 0,
        x - x % n <= x,
        x < x - x % n + n,
{
    let q = x as int / n as int;
    vstd::arithmetic::div_mod::lemma_fundamental_div_mod(x as int, n as int);
    vstd::arithmetic::div_mod::lemma_mod_multiples_basic(q, n as int);
    vstd::arithmetic::mul::lemma_mul_is_commutative(q, n as int);
    assert(x - x % n == q * n);
}

/// `round_up` gives the smallest multiple of `n` that is not below `x`.
pub proof fn lemma_round_up(x: u16, n: u16)
    requires
        n != 0,
    ensures
        ({
            let r = if x % n == 0 { x as int } else { x - x % n + n };
            &&& r % (n as int) == 0
            &&& x <= r
            &&& r < x + n
        }),
{
    lemma_round_down(x, n);
    if x % n != 0 {
        vstd::arithmetic::div_mod::lemma_mod_add_multiples_vanish((x - x % n) as int, n as int);
    }
}

} // verus!
