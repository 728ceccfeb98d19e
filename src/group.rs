//! The generic layer: what any group of unknown order offers, and the
//! arithmetic of the quotient `(Z/MZ)^* / {±1}` on which the RSA groups rest.
use crate::natural::{is_invertible, Natural, SignedInt};
use vstd::arithmetic::div_mod::*;
use vstd::arithmetic::power::*;
use vstd::prelude::*;

verus! {

/// What an optional value shows of itself.
pub open spec fn opt_view<T: View>(o: Option<T>) -> Option<T::V> {
    match o {
        Some(t) => Some(t@),
        None => None,
    }
}

/// Selection of an element in the generating set.
pub trait Generator: Sized {
    fn generator() -> Self;
}

/// Efficient exponentiation in a group.
pub trait Pow: View + Sized {
    /// `x` composed with itself `n` times (the identity for `n == 0`).
    spec fn spec_pow(x: Self::V, n: nat) -> Self::V;

    fn pow(&self, exp: &Natural) -> (r: Self)
        ensures
            r@ == Self::spec_pow(self@, exp@),
    ;
}

/// Efficient computation of group inverses.
pub trait Inverse: Pow {
    /// `x^(-n)`, or `None` where `x^n` has no inverse.
    spec fn spec_efficient_inverse(x: Self::V, n: nat) -> Option<Self::V>;

    fn efficient_inverse(&self, exp: &Natural) -> (r: Option<Self>)
        ensures
            opt_view(r) == Self::spec_efficient_inverse(self@, exp@),
    ;

    /// `self^exp` for a signed exponent: zero and above through `pow`, below
    /// zero through `efficient_inverse` of the magnitude.
    fn pow_signed(&self, exp: &SignedInt) -> (r: Option<Self>)
        ensures
            exp@ >= 0 ==> opt_view(r) == Some(Self::spec_pow(self@, exp@ as nat)),
            exp@ < 0 ==> opt_view(r) == Self::spec_efficient_inverse(self@, (-exp@) as nat),
    {
        if exp.is_negative() {
            self.efficient_inverse(&exp.magnitude())
        } else {
            Some(self.pow(&exp.magnitude()))
        }
    }
}

/// The representative of `t`'s coset `{t, -t}` modulo `m`: the residue if it
/// is at most `m / 2`, else its negation.
pub open spec fn canonical(m: int, t: int) -> int {
    let r = t % m;
    if r > m / 2 {
        m - r
    } else {
        r
    }
}

/// `v` is the representative of its own coset.
pub open spec fn is_canonical(m: int, v: int) -> bool {
    0 <= v <= m / 2
}

/// `u` and `v` are equal or opposite modulo `m`.
pub open spec fn same_coset(m: int, u: int, v: int) -> bool {
    (u - v) % m == 0 || (u + v) % m == 0
}

pub open spec fn id_value(m: int) -> int {
    canonical(m, 1)
}

pub open spec fn op_value(m: int, a: int, b: int) -> int {
    canonical(m, a * b)
}

pub open spec fn exp_value(m: int, x: int, n: nat) -> int {
    canonical(m, pow(x, n))
}

/// The coset of the inverse of `x` (meaningful where `x` is invertible).
pub open spec fn inverse_value(m: int, x: int) -> int {
    canonical(m, choose|y: int| #[trigger] ((x * y) % m) == 1)
}

/// `x^(-n)`: the inverse of the element `x^n`, where it is invertible.
pub open spec fn inverse_power(m: int, x: int, n: nat) -> Option<int> {
    if is_invertible(exp_value(m, x, n), m) {
        Some(inverse_value(m, exp_value(m, x, n)))
    } else {
        None
    }
}

/// `x^n` for a signed `n`, or `None` where `n < 0` and `x^(-n)` is not invertible.
pub open spec fn signed_power(m: int, x: int, n: int) -> Option<int> {
    if n >= 0 {
        Some(exp_value(m, x, n as nat))
    } else {
        inverse_power(m, x, (-n) as nat)
    }
}

/// `op(op(...op(x, x)...), x)` with `n` copies of `x`, for `n >= 1`.
pub open spec fn op_fold(m: int, x: int, n: nat) -> int
    decreases n,
{
    if n <= 1 {
        x
    } else {
        op_value(m, op_fold(m, x, (n - 1) as nat), x)
    }
}

/// A residue that is zero and lies in `[0, 2m)` is `0` or `m`.
proof fn lemma_zero_residue_below_twice(m: int, x: int)
    requires
        m > 0,
        0 <= x < 2 * m,
        x % m == 0,
    ensures
        x == 0 || x == m,
{
    if x >= m {
        lemma_mod_self_0(m);
        lemma_mod_equivalence(x, m, m);
        lemma_small_mod((x - m) as nat, m as nat);
    } else {
        lemma_small_mod(x as nat, m as nat);
    }
}

/// Members of one coset have one representative.
pub proof fn lemma_same_coset_canonical(m: int, u: int, v: int)
    requires
        m > 0,
        same_coset(m, u, v),
    ensures
        canonical(m, u) == canonical(m, v),
{
    let ru = u % m;
    let rv = v % m;
    lemma_mod_bound(u, m);
    lemma_mod_bound(v, m);
    if (u - v) % m == 0 {
        lemma_mod_equivalence(u, v, m);
    } else {
        lemma_add_mod_noop(u, v, m);
        lemma_zero_residue_below_twice(m, ru + rv);
    }
}

/// A value and its representative share a coset.
pub proof fn lemma_canonical_same_coset(m: int, t: int)
    requires
        m > 0,
    ensures
        same_coset(m, canonical(m, t), t),
        is_canonical(m, canonical(m, t)),
{
    let r = t % m;
    lemma_mod_bound(t, m);
    lemma_mod_twice(t, m);
    if r > m / 2 {
        lemma_mod_self_0(m);
        lemma_add_mod_noop(t, m, m);
        lemma_mod_equivalence(t + m, r, m);
        assert((m - r) + t == (t + m) - r);
    } else {
        lemma_mod_equivalence(r, t, m);
    }
}

/// Cosets are kept by multiplication.
pub proof fn lemma_same_coset_mul(m: int, u: int, v: int, w: int)
    requires
        m > 0,
        same_coset(m, u, v),
    ensures
        same_coset(m, u * w, v * w),
{
    lemma_small_mod(0, m as nat);
    assert(0 * w == 0);
    if (u - v) % m == 0 {
        lemma_mul_mod_noop_left(u - v, w, m);
        assert(u * w - v * w == (u - v) * w) by (nonlinear_arith);
    } else {
        lemma_mul_mod_noop_left(u + v, w, m);
        assert(u * w + v * w == (u + v) * w) by (nonlinear_arith);
    }
}

/// A representative stands for itself.
pub proof fn lemma_canonical_fixed(m: int, v: int)
    requires
        m > 1,
        is_canonical(m, v),
    ensures
        canonical(m, v) == v,
{
    lemma_small_mod(v as nat, m as nat);
}

/// The identity is the coset of `1`, which is `1` itself.
pub proof fn lemma_id_value(m: int)
    requires
        m > 1,
    ensures
        id_value(m) == 1,
{
    lemma_canonical_fixed(m, 1);
}

/// Canonicalizing twice is canonicalizing once.
pub proof fn lemma_canonical_idempotent(m: int, t: int)
    requires
        m > 0,
    ensures
        canonical(m, canonical(m, t)) == canonical(m, t),
{
    lemma_canonical_same_coset(m, t);
    lemma_same_coset_canonical(m, canonical(m, t), t);
}

/// An integer, its negation and its complement to the modulus name one element.
pub proof fn lemma_coset_identity(m: int, t: int)
    requires
        m > 0,
    ensures
        canonical(m, t) == canonical(m, m - t),
        canonical(m, t) == canonical(m, -t),
{
    lemma_mod_self_0(m);
    lemma_small_mod(0, m as nat);
    assert(t + (m - t) == m);
    assert(t + (-t) == 0);
    lemma_same_coset_canonical(m, t, m - t);
    lemma_same_coset_canonical(m, t, -t);
}

/// The identity is neutral on the right.
pub proof fn lemma_op_identity(m: int, a: int)
    requires
        m > 1,
        is_canonical(m, a),
    ensures
        op_value(m, a, id_value(m)) == a,
{
    lemma_id_value(m);
    assert(a * 1 == a);
    lemma_canonical_fixed(m, a);
}

/// Composition is commutative.
pub proof fn lemma_op_commutative(m: int, a: int, b: int)
    requires
        m > 1,
    ensures
        op_value(m, a, b) == op_value(m, b, a),
{
    assert(a * b == b * a) by (nonlinear_arith);
}

/// Composition is associative.
pub proof fn lemma_op_associative(m: int, a: int, b: int, c: int)
    requires
        m > 1,
    ensures
        op_value(m, op_value(m, a, b), c) == op_value(m, a, op_value(m, b, c)),
{
    lemma_canonical_same_coset(m, a * b);
    lemma_same_coset_mul(m, canonical(m, a * b), a * b, c);
    lemma_same_coset_canonical(m, canonical(m, a * b) * c, (a * b) * c);
    lemma_canonical_same_coset(m, b * c);
    lemma_same_coset_mul(m, canonical(m, b * c), b * c, a);
    lemma_same_coset_canonical(m, canonical(m, b * c) * a, (b * c) * a);
    assert(canonical(m, b * c) * a == a * canonical(m, b * c)) by (nonlinear_arith);
    assert((a * b) * c == (b * c) * a) by (nonlinear_arith);
}

/// An element composed with its inverse is the identity.
pub proof fn lemma_op_inverse(m: int, a: int)
    requires
        m > 1,
        is_invertible(a, m),
    ensures
        op_value(m, a, inverse_value(m, a)) == id_value(m),
{
    let y = choose|y: int| #[trigger] ((a * y) % m) == 1;
    lemma_canonical_same_coset(m, y);
    lemma_same_coset_mul(m, canonical(m, y), y, a);
    assert(canonical(m, y) * a == a * canonical(m, y)) by (nonlinear_arith);
    assert(y * a == a * y) by (nonlinear_arith);
    lemma_same_coset_canonical(m, a * canonical(m, y), a * y);
    lemma_mod_twice(a * y, m);
    lemma_mod_equivalence(a * y, 1, m);
    assert(same_coset(m, a * y, 1));
    lemma_same_coset_canonical(m, a * y, 1);
}

/// Any inverse of `x` names the same element.
pub proof fn lemma_inverse_value_of(m: int, x: int, y: int)
    requires
        m > 1,
        (x * y) % m == 1,
    ensures
        is_invertible(x, m),
        inverse_value(m, x) == canonical(m, y),
{
    assert(is_invertible(x, m));
    let z = choose|z: int| #[trigger] ((x * z) % m) == 1;
    lemma_mul_mod_noop_right(y, x * z, m);
    lemma_mul_mod_noop_right(z, x * y, m);
    assert(y * (x * z) == z * (x * y)) by (nonlinear_arith);
    assert(y * 1 == y);
    assert(z * 1 == z);
    lemma_mod_equivalence(y, z, m);
    lemma_same_coset_canonical(m, y, z);
}

/// Reducing modulo `m` first does not change the representative.
pub proof fn lemma_canonical_of_residue(m: int, t: int)
    requires
        m > 0,
    ensures
        canonical(m, t % m) == canonical(m, t),
{
    lemma_mod_twice(t, m);
}

/// Composing `n >= 1` copies of `x` is raising `x` to `n`.
pub proof fn lemma_exp_is_fold(m: int, x: int, n: nat)
    requires
        m > 1,
        is_canonical(m, x),
        n >= 1,
    ensures
        exp_value(m, x, n) == op_fold(m, x, n),
    decreases n,
{
    if n == 1 {
        lemma_pow1(x);
        lemma_canonical_fixed(m, x);
    } else {
        lemma_exp_is_fold(m, x, (n - 1) as nat);
        let p = pow(x, (n - 1) as nat);
        lemma_canonical_same_coset(m, p);
        lemma_same_coset_mul(m, canonical(m, p), p, x);
        lemma_same_coset_canonical(m, canonical(m, p) * x, p * x);
        reveal(pow);
        assert(pow(x, n) == x * p);
        assert(p * x == x * p) by (nonlinear_arith);
    }
}

/// Powers of inverse residues are inverse residues.
proof fn lemma_pow_product_unit(m: int, x: int, y: int, n: nat)
    requires
        m > 1,
        (x * y) % m == 1,
    ensures
        (pow(x, n) * pow(y, n)) % m == 1,
    decreases n,
{
    reveal(pow);
    lemma_small_mod(1, m as nat);
    if n > 0 {
        let p = pow(x, (n - 1) as nat);
        let q = pow(y, (n - 1) as nat);
        lemma_pow_product_unit(m, x, y, (n - 1) as nat);
        assert(pow(x, n) * pow(y, n) == (x * y) * (p * q)) by (nonlinear_arith)
            requires
                pow(x, n) == x * p,
                pow(y, n) == y * q,
        ;
        lemma_mul_mod_noop(x * y, p * q, m);
    }
}

/// Every power of a unit is a unit.
pub proof fn lemma_unit_power(m: int, x: int, n: nat)
    requires
        m > 1,
        is_invertible(x, m),
    ensures
        is_invertible(exp_value(m, x, n), m),
{
    let y = choose|y: int| #[trigger] ((x * y) % m) == 1;
    let p = pow(x, n);
    let q = pow(y, n);
    let c = canonical(m, p);
    lemma_pow_product_unit(m, x, y, n);
    lemma_canonical_same_coset(m, p);
    if (c - p) % m == 0 {
        lemma_mod_equivalence(c, p, m);
        lemma_mul_mod_noop_left(c, q, m);
        lemma_mul_mod_noop_left(p, q, m);
        assert((c * q) % m == 1);
    } else {
        assert(c - (-p) == c + p);
        lemma_mod_equivalence(c, -p, m);
        lemma_mul_mod_noop_left(c, -q, m);
        lemma_mul_mod_noop_left(-p, -q, m);
        assert((-p) * (-q) == p * q) by (nonlinear_arith);
        assert((c * (-q)) % m == 1);
    }
}

/// For a unit `x` and any integer `n`, `x^n` and `x^(-n)` are both defined
/// and compose to the identity.
pub proof fn lemma_signed_power_round_trip(m: int, x: int, n: int)
    requires
        m > 1,
        is_invertible(x, m),
    ensures
        signed_power(m, x, n) is Some,
        signed_power(m, x, -n) is Some,
        op_value(m, signed_power(m, x, n)->0, signed_power(m, x, -n)->0) == id_value(m),
{
    if n == 0 {
        lemma_pow0(x);
        lemma_id_value(m);
        lemma_canonical_fixed(m, 1);
        assert(1int * 1int == 1int);
    } else if n > 0 {
        lemma_unit_power(m, x, n as nat);
        lemma_op_inverse(m, exp_value(m, x, n as nat));
    } else {
        lemma_unit_power(m, x, (-n) as nat);
        let e = exp_value(m, x, (-n) as nat);
        lemma_op_inverse(m, e);
        lemma_op_commutative(m, e, inverse_value(m, e));
    }
}

} // verus!
