//! Arithmetic of the quotient `(Z/MZ)^* / {±1}` on numbers held by
//! `Natural`, shared by every RSA modulus. Every result passes through
//! `canonicalize`, so no element ever holds a non-canonical value.
use crate::group::{
    canonical, exp_value, is_canonical, lemma_canonical_same_coset, inverse_value, lemma_canonical_of_residue, lemma_coset_identity,
    lemma_inverse_value_of, op_value,
};
use crate::natural::{is_invertible, Natural, SignedInt};
use vstd::arithmetic::div_mod::*;
use vstd::arithmetic::power::*;
use vstd::prelude::*;

verus! {

/// The representative of the residue `r`: `r` itself up to `m / 2`, else `m - r`.
pub(crate) fn canonicalize(m: &Natural, r: Natural) -> (c: Natural)
    requires
        m@ > 1,
        r@ < m@,
    ensures
        c@ == canonical(m@ as int, r@ as int),
        is_canonical(m@ as int, c@ as int),
{
    proof {
        lemma_small_mod(r@, m@);
        lemma_canonical_same_coset(m@ as int, r@ as int);
    }
    let half = m.half();
    match r.compare(&half) {
        std::cmp::Ordering::Greater => m.minus(&r),
        _ => r,
    }
}

/// The element named by the integer `t`.
pub(crate) fn from_signed(m: &Natural, t: &SignedInt) -> (c: Natural)
    requires
        m@ > 1,
    ensures
        c@ == canonical(m@ as int, t@),
        is_canonical(m@ as int, c@ as int),
{
    let a = t.magnitude();
    let r = a.rem_by(m);
    proof {
        lemma_mod_bound(a@ as int, m@ as int);
        lemma_canonical_of_residue(m@ as int, a@ as int);
        lemma_coset_identity(m@ as int, t@);
    }
    canonicalize(m, r)
}

/// `a * b`, reduced and canonicalized.
pub(crate) fn compose(m: &Natural, a: &Natural, b: &Natural) -> (c: Natural)
    requires
        m@ > 1,
    ensures
        c@ == op_value(m@ as int, a@ as int, b@ as int),
        is_canonical(m@ as int, c@ as int),
{
    let p = a.times(b);
    let r = p.rem_by(m);
    proof {
        lemma_mod_bound(p@ as int, m@ as int);
        lemma_canonical_of_residue(m@ as int, p@ as int);
    }
    canonicalize(m, r)
}

/// `x^n`, by GMP's modular power, canonicalized.
pub(crate) fn power(m: &Natural, x: &Natural, n: &Natural) -> (c: Natural)
    requires
        m@ > 1,
    ensures
        c@ == exp_value(m@ as int, x@ as int, n@),
        is_canonical(m@ as int, c@ as int),
{
    match x.pow_mod(n, m) {
        Some(p) => {
            proof {
                lemma_mod_bound(pow(x@ as int, n@), m@ as int);
                lemma_canonical_of_residue(m@ as int, pow(x@ as int, n@));
            }
            canonicalize(m, p)
        },
        None => {
            proof {
                assert(false);
            }
            Natural::from_u64(0)
        },
    }
}

/// The inverse of `x`, canonicalized; `None` where `x` is not invertible.
pub(crate) fn inverse(m: &Natural, x: &Natural) -> (c: Option<Natural>)
    requires
        m@ > 1,
    ensures
        c is None <==> !is_invertible(x@ as int, m@ as int),
        c matches Some(e) ==> e@ == inverse_value(m@ as int, x@ as int) && is_canonical(
            m@ as int,
            e@ as int,
        ),
{
    match x.invert_mod(m) {
        Some(y) => {
            let r = y.rem_by(m);
            proof {
                lemma_mod_bound(y@ as int, m@ as int);
                lemma_canonical_of_residue(m@ as int, y@ as int);
                lemma_inverse_value_of(m@ as int, x@ as int, y@ as int);
            }
            Some(canonicalize(m, r))
        },
        None => None,
    }
}

} // verus!
