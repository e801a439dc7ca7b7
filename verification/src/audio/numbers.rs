//! Facts about whole numbers.
use vstd::arithmetic::div_mod::{
    lemma_fundamental_div_mod, lemma_fundamental_div_mod_converse, lemma_mod_bound,
};
use vstd::prelude::*;

verus! {

/// The next number's remainder is one more, or 0 where that reaches the divisor.
pub proof fn mod_step(n: int, d: int)
    requires
        0 <= n,
        0 < d,
    ensures
        (n + 1) % d == if n % d + 1 == d {
            0
        } else {
            n % d + 1
        },
{
    lemma_fundamental_div_mod(n, d);
    lemma_mod_bound(n, d);
    let q = n / d;
    if n % d + 1 == d {
        assert((q + 1) * d == d * q + d) by (nonlinear_arith);
        lemma_fundamental_div_mod_converse(n + 1, d, q + 1, 0);
    } else {
        assert(q * d == d * q) by (nonlinear_arith);
        lemma_fundamental_div_mod_converse(n + 1, d, q, n % d + 1);
    }
}

} // verus!
