//! RSA (100) group: the 330-bit RSA-100 challenge number as modulus, whose
//! factorization is public but which stands for a modulus of unknown order.
use crate::group::{
    canonical, exp_value, id_value, inverse_power, inverse_value, is_canonical, opt_view,
    op_value, Inverse, Pow,
};
use crate::natural::{is_invertible, limb_base, limbs_value, Natural, SignedInt};
use crate::rsa::{compose, from_signed, inverse, power};
use vstd::prelude::*;

verus! {

/// The RSA-100 modulus (from the RSA Factoring Challenge),
/// 15226050279225333605356183781326374297180681149613
/// 80688657908494580122963258952897654000350692006139,
/// in base `2^64`.
pub open spec fn rsa100_modulus() -> int {
    let b = limb_base() as int;
    2052041569734646011 + b * (17754467163182992247 + b * (9602689216784711165 + b * (
    13002664262672054187 + b * (15391883492080695077 + b * 712))))
}

/// RSA-100 group implementation.
///
/// It treats `x` and `-x` as the same element, as sound
/// proofs-of-exponentiation require (BBF, page 9). The type only names the
/// group; its one variant is never needed as a value.
#[derive(Clone, Copy, Debug, PartialEq, Eq, Hash)]
pub enum Rsa100 {
    Group,
}

/// An RSA-100 group element: the canonical representative, at most half
/// the modulus, of its coset `{x, -x}`.
#[derive(Debug)]
pub struct Rsa100Elem {
    v: Natural,
}

impl View for Rsa100Elem {
    type V = int;

    closed spec fn view(&self) -> int {
        self.v@ as int
    }
}

impl Rsa100Elem {
    #[verifier::type_invariant]
    spec fn well_formed(self) -> bool {
        is_canonical(rsa100_modulus(), self.v@ as int)
    }

    /// The representative that the element holds.
    pub fn value(&self) -> (r: Natural)
        ensures
            r@ == self@,
    {
        self.v.clone()
    }
}

impl Rsa100 {
    /// The modulus, written as its six 64-bit limbs, least significant first.
    pub fn rep() -> (r: Natural)
        ensures
            r@ == rsa100_modulus(),
    {
        let limbs: Vec<u64> = vec![
            2052041569734646011u64,
            17754467163182992247u64,
            9602689216784711165u64,
            13002664262672054187u64,
            15391883492080695077u64,
            712u64,
        ];
        proof {
            reveal_with_fuel(limbs_value, 7);
        }
        Natural::from_limbs(limbs)
    }

    /// The identity: the element of `1`.
    pub fn id() -> (r: Rsa100Elem)
        ensures
            r@ == id_value(rsa100_modulus()),
    {
        Self::elem(1)
    }

    /// Group composition: the product of the representatives modulo the modulus.
    pub fn op(a: &Rsa100Elem, b: &Rsa100Elem) -> (r: Rsa100Elem)
        ensures
            r@ == op_value(rsa100_modulus(), a@, b@),
    {
        let m = Self::rep();
        Rsa100Elem { v: compose(&m, &a.v, &b.v) }
    }

    /// `x^n` for a non-negative exponent, through GMP's modular power.
    ///
    /// Not constant-time: a side-channel resistant power is about 40% slower,
    /// and that cost was not taken.
    pub fn exp(x: &Rsa100Elem, n: &Natural) -> (r: Rsa100Elem)
        ensures
            r@ == exp_value(rsa100_modulus(), x@, n@),
    {
        let m = Self::rep();
        Rsa100Elem { v: power(&m, &x.v, n) }
    }

    /// The inverse of `x`; `None` where `x` is not a unit modulo the modulus.
    pub fn inv(x: &Rsa100Elem) -> (r: Option<Rsa100Elem>)
        ensures
            r is None <==> !is_invertible(x@, rsa100_modulus()),
            r matches Some(e) ==> e@ == inverse_value(rsa100_modulus(), x@),
    {
        let m = Self::rep();
        match inverse(&m, &x.v) {
            Some(v) => Some(Rsa100Elem { v }),
            None => None,
        }
    }

    /// The element of the integer `t`.
    pub fn elem(t: i64) -> (r: Rsa100Elem)
        ensures
            r@ == canonical(rsa100_modulus(), t as int),
    {
        Self::elem_from(&SignedInt::from_i64(t))
    }

    /// The element of the integer `t`: `t` reduced modulo the modulus, then its coset's
    /// representative.
    pub fn elem_from(t: &SignedInt) -> (r: Rsa100Elem)
        ensures
            r@ == canonical(rsa100_modulus(), t@),
    {
        let m = Self::rep();
        Rsa100Elem { v: from_signed(&m, t) }
    }

    /// The fixed element of unknown order: the element of `2`.
    pub fn unknown_order_elem() -> (r: Rsa100Elem)
        ensures
            r@ == canonical(rsa100_modulus(), 2),
    {
        Self::elem(2)
    }
}

impl Pow for Rsa100Elem {
    open spec fn spec_pow(x: int, n: nat) -> int {
        exp_value(rsa100_modulus(), x, n)
    }

    fn pow(&self, exp: &Natural) -> (r: Rsa100Elem) {
        Rsa100::exp(self, exp)
    }
}

impl Inverse for Rsa100Elem {
    open spec fn spec_efficient_inverse(x: int, n: nat) -> Option<int> {
        inverse_power(rsa100_modulus(), x, n)
    }

    fn efficient_inverse(&self, exp: &Natural) -> (r: Option<Rsa100Elem>) {
        Rsa100::inv(&Rsa100::exp(self, exp))
    }
}

impl Clone for Rsa100Elem {
    fn clone(&self) -> (r: Rsa100Elem)
        ensures
            r@ == self@,
    {
        proof {
            use_type_invariant(self);
        }
        Rsa100Elem { v: self.v.clone() }
    }
}

impl PartialEq for Rsa100Elem {
    fn eq(&self, other: &Rsa100Elem) -> (r: bool) {
        self.v == other.v
    }
}

impl vstd::std_specs::cmp::PartialEqSpecImpl for Rsa100Elem {
    open spec fn obeys_eq_spec() -> bool {
        true
    }

    open spec fn eq_spec(&self, other: &Rsa100Elem) -> bool {
        self@ == other@
    }
}

impl Eq for Rsa100Elem {
}

} // verus!
