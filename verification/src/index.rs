use vstd::prelude::*;
use vstd::arithmetic::div_mod::{lemma_fundamental_div_mod, lemma_fundamental_div_mod_converse};

verus! {

/// The index reached from `index` after moving `delta` steps through a ring
/// of `len` entries: `(index + delta)` reduced modulo `len` into `0..len`.
pub open spec fn spec_wrap_index(index: int, len: int, delta: int) -> int {
    (index + delta) % len
}

/// Relates the remainder of a negative number to the remainder of its
/// magnitude.
proof fn lemma_mod_of_negative(s: int, m: int)
    requires
        m > 0,
        s < 0,
    ensures
        (-s) % m == 0 ==> s % m == 0,
        (-s) % m != 0 ==> s % m == m - (-s) % m,
{
    let t = -s;
    lemma_fundamental_div_mod(t, m);
    let q = t / m;
    let rr = t % m;
    if rr == 0 {
        assert(s == (-q) * m + 0) by (nonlinear_arith)
            requires t == m * q + rr, rr == 0, s == -t;
        lemma_fundamental_div_mod_converse(s, m, -q, 0);
    } else {
        assert(s == (-q - 1) * m + (m - rr)) by (nonlinear_arith)
            requires t == m * q + rr, s == -t;
        lemma_fundamental_div_mod_converse(s, m, -q - 1, m - rr);
    }
}

/// Moves `delta` steps (negative steps go backwards) from `index` through a
/// ring of `len` entries.
pub fn advance_index(index: usize, len: usize, delta: isize) -> (r: usize)
    requires
        len > 0,
        len <= isize::MAX,
        index <= isize::MAX,
        isize::MIN <= index + delta <= isize::MAX,
    ensures
        r < len,
        r == spec_wrap_index(index as int, len as int, delta as int),
{
    let sum: isize = index as isize + delta;
    let m: isize = len as isize;
    let rem: isize = sum % m;
    let r: isize = if rem < 0 { rem + m } else { rem };
    proof {
        if sum < 0 {
            assert(rem == -((-(sum as int)) % (m as int)));
            lemma_mod_of_negative(sum as int, m as int);
        } else {
            assert(rem == sum % m);
        }
    }
    r as usize
}

/// Moving `delta` steps and then `-delta` steps returns to the start.
pub proof fn lemma_wrap_back_returns(index: int, len: int, delta: int)
    requires
        0 <= index < len,
    ensures
        spec_wrap_index(spec_wrap_index(index, len, delta), len, -delta) == index,
{
    let a = index + delta;
    lemma_fundamental_div_mod(a, len);
    let q = a / len;
    let r = a % len;
    vstd::arithmetic::div_mod::lemma_mod_bound(a, len);
    assert(r + (-delta) == (-q) * len + index) by (nonlinear_arith)
        requires
            a == len * q + r,
            a == index + delta,
    ;
    lemma_fundamental_div_mod_converse(r + (-delta), len, -q, index);
}

/// Moving `a` steps and then `b` steps lands where `a + b` steps do, so the
/// steps that the keyboard hook adds up into one pending delta select the
/// same entry as taken one by one.
pub proof fn lemma_steps_compose(index: int, len: int, a: int, b: int)
    requires
        len > 0,
    ensures
        spec_wrap_index(spec_wrap_index(index, len, a), len, b) == spec_wrap_index(index, len, a + b),
{
    vstd::arithmetic::div_mod::lemma_add_mod_noop_right(b, index + a, len);
    assert(b + (index + a) == index + (a + b));
    assert((index + a) % len + b == b + (index + a) % len);
}

} // verus!
