//! Cyclic index sequences.
//!
//! Both allocators emit identities by starting at a random point of a cyclic
//! index space and advancing by one with wraparound.  The facts proved here
//! are what makes those sequences collision-free: stepping matches the modular
//! form, and fewer than `m` consecutive elements of a cycle of length `m` are
//! pairwise distinct.

use vstd::prelude::*;

verus! {

use vstd::arithmetic::div_mod::{
    lemma_fundamental_div_mod,
    lemma_fundamental_div_mod_converse,
    lemma_mod_bound,
};
use vstd::arithmetic::mul::lemma_mul_inequality;

/// The i-th element of the cycle `s0, s0 + 1, ...` over `[0, m)`.
pub open spec fn nth_wrap(s0: nat, m: nat, i: nat) -> nat
    recommends
        m > 0,
{
    (((s0 + i) as int) % (m as int)) as nat
}

/// Every cycle element lies in `[0, m)`.
pub proof fn lemma_nth_wrap_bound(s0: nat, m: nat, i: nat)
    requires
        m > 0,
    ensures
        nth_wrap(s0, m, i) < m,
{
    lemma_mod_bound((s0 + i) as int, m as int);
}

/// Advancing the cycle by one step is the successor modulo `m`:
/// the next element is one more, or zero after the last index.
pub proof fn lemma_nth_wrap_step(s0: nat, m: nat, i: nat)
    requires
        m > 0,
    ensures
        nth_wrap(s0, m, i) + 1 < m ==> nth_wrap(s0, m, i + 1) == nth_wrap(s0, m, i) + 1,
        nth_wrap(s0, m, i) + 1 == m ==> nth_wrap(s0, m, i + 1) == 0,
        nth_wrap(s0, m, i) < m,
{
    let x: int = (s0 + i) as int;
    let mi: int = m as int;
    lemma_mod_bound(x, mi);
    lemma_fundamental_div_mod(x, mi);
    let q = x / mi;
    let r = x % mi;
    if r + 1 < mi {
        lemma_fundamental_div_mod_converse(x + 1, mi, q, r + 1);
    } else {
        assert(x + 1 == (q + 1) * mi + 0) by (nonlinear_arith)
            requires
                x == mi * q + r,
                r + 1 == mi,
        ;
        lemma_fundamental_div_mod_converse(x + 1, mi, q + 1, 0);
    }
}

/// The first element of the cycle is the starting point itself.
pub proof fn lemma_nth_wrap_first(s0: nat, m: nat)
    requires
        m > 0,
        s0 < m,
    ensures
        nth_wrap(s0, m, 0) == s0,
{
    lemma_fundamental_div_mod_converse(s0 as int, m as int, 0, s0 as int);
}

/// Fewer than `m` consecutive elements of the cycle are pairwise distinct.
pub proof fn lemma_nth_wrap_distinct(s0: nat, m: nat, i: nat, j: nat)
    requires
        m > 0,
        i < j,
        j - i < m,
    ensures
        nth_wrap(s0, m, i) != nth_wrap(s0, m, j),
{
    let x: int = (s0 + i) as int;
    let y: int = (s0 + j) as int;
    let mi: int = m as int;
    lemma_fundamental_div_mod(x, mi);
    lemma_fundamental_div_mod(y, mi);
    lemma_mod_bound(x, mi);
    lemma_mod_bound(y, mi);
    let qx = x / mi;
    let qy = y / mi;
    if x % mi == y % mi {
        assert(y - x == (qy - qx) * mi) by (nonlinear_arith)
            requires
                x == mi * qx + x % mi,
                y == mi * qy + y % mi,
                x % mi == y % mi,
        ;
        if qy - qx >= 1 {
            lemma_mul_inequality(1, qy - qx, mi);
            assert(y - x >= mi);
        } else {
            lemma_mul_inequality(qy - qx, 0, mi);
            assert(y - x <= 0);
        }
        assert(false);
    }
}

} // verus!
