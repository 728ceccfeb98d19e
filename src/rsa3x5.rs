//! RSA (3x5) group: the modulus 15, small enough to check the group law,
//! wraparound and cosets by hand.
use crate::group::{
    canonical, exp_value, id_value, inverse_power, inverse_value, is_canonical, opt_view,
    op_value, Inverse, Pow,
};
use crate::natural::{is_invertible, Natural, SignedInt};
use crate::rsa::{compose, from_signed, inverse, power};
use vstd::prelude::*;

verus! {

/// The RSA-3x5 modulus.
pub open spec fn rsa3x5_modulus() -> int {
    15
}

/// RSA-3x5 group implementation.
///
/// It treats `x` and `-x` as the same element, as sound
/// proofs-of-exponentiation require (BBF, page 9). The type only names the
/// group; its one variant is never needed as a value.
#[derive(Clone, Copy, Debug, PartialEq, Eq, Hash)]
pub enum Rsa3x5 {
    Group,
}

/// An RSA-3x5 group element: the canonical representative, in `[0, 15 / 2]`,
/// of its coset `{x, -x}` modulo 15.
#[derive(Debug)]
pub struct Rsa3x5Elem {
    v: Natural,
}

impl View for Rsa3x5Elem {
    type V = int;

    closed spec fn view(&self) -> int {
        self.v@ as int
    }
}

impl Rsa3x5Elem {
    #[verifier::type_invariant]
    spec fn well_formed(self) -> bool {
        is_canonical(rsa3x5_modulus(), self.v@ as int)
    }

    /// The representative that the element holds.
    pub fn value(&self) -> (r: Natural)
        ensures
            r@ == self@,
    {
        self.v.clone()
    }
}

impl Rsa3x5 {
    /// The modulus.
    pub fn rep() -> (r: Natural)
        ensures
            r@ == rsa3x5_modulus(),
    {
        Natural::from_u64(15)
    }

    /// The identity: the element of `1`.
    pub fn id() -> (r: Rsa3x5Elem)
        ensures
            r@ == id_value(rsa3x5_modulus()),
    {
        Self::elem(1)
    }

    /// Group composition: the product of the representatives modulo 15.
    pub fn op(a: &Rsa3x5Elem, b: &Rsa3x5Elem) -> (r: Rsa3x5Elem)
        ensures
            r@ == op_value(rsa3x5_modulus(), a@, b@),
    {
        let m = Self::rep();
        Rsa3x5Elem { v: compose(&m, &a.v, &b.v) }
    }

    /// `x^n` for a non-negative exponent, through GMP's modular power.
    ///
    /// Not constant-time: a side-channel resistant power is about 40% slower,
    /// and that cost was not taken.
    pub fn exp(x: &Rsa3x5Elem, n: &Natural) -> (r: Rsa3x5Elem)
        ensures
            r@ == exp_value(rsa3x5_modulus(), x@, n@),
    {
        let m = Self::rep();
        Rsa3x5Elem { v: power(&m, &x.v, n) }
    }

    /// The inverse of `x`; `None` where `x` is not a unit modulo 15.
    pub fn inv(x: &Rsa3x5Elem) -> (r: Option<Rsa3x5Elem>)
        ensures
            r is None <==> !is_invertible(x@, rsa3x5_modulus()),
            r matches Some(e) ==> e@ == inverse_value(rsa3x5_modulus(), x@),
    {
        let m = Self::rep();
        match inverse(&m, &x.v) {
            Some(v) => Some(Rsa3x5Elem { v }),
            None => None,
        }
    }

    /// The element of the integer `t`.
    pub fn elem(t: i64) -> (r: Rsa3x5Elem)
        ensures
            r@ == canonical(rsa3x5_modulus(), t as int),
    {
        Self::elem_from(&SignedInt::from_i64(t))
    }

    /// The element of the integer `t`: `t` reduced modulo 15, then its coset's
    /// representative.
    pub fn elem_from(t: &SignedInt) -> (r: Rsa3x5Elem)
        ensures
            r@ == canonical(rsa3x5_modulus(), t@),
    {
        let m = Self::rep();
        Rsa3x5Elem { v: from_signed(&m, t) }
    }

    /// The fixed element of unknown order: the element of `2`.
    pub fn unknown_order_elem() -> (r: Rsa3x5Elem)
        ensures
            r@ == canonical(rsa3x5_modulus(), 2),
    {
        Self::elem(2)
    }
}

impl Pow for Rsa3x5Elem {
    open spec fn spec_pow(x: int, n: nat) -> int {
        exp_value(rsa3x5_modulus(), x, n)
    }

    fn pow(&self, exp: &Natural) -> (r: Rsa3x5Elem) {
        Rsa3x5::exp(self, exp)
    }
}

impl Inverse for Rsa3x5Elem {
    open spec fn spec_efficient_inverse(x: int, n: nat) -> Option<int> {
        inverse_power(rsa3x5_modulus(), x, n)
    }

    fn efficient_inverse(&self, exp: &Natural) -> (r: Option<Rsa3x5Elem>) {
        Rsa3x5::inv(&Rsa3x5::exp(self, exp))
    }
}

impl Clone for Rsa3x5Elem {
    fn clone(&self) -> (r: Rsa3x5Elem)
        ensures
            r@ == self@,
    {
        proof {
            use_type_invariant(self);
        }
        Rsa3x5Elem { v: self.v.clone() }
    }
}

impl PartialEq for Rsa3x5Elem {
    fn eq(&self, other: &Rsa3x5Elem) -> (r: bool) {
        self.v == other.v
    }
}

impl vstd::std_specs::cmp::PartialEqSpecImpl for Rsa3x5Elem {
    open spec fn obeys_eq_spec() -> bool {
        true
    }

    open spec fn eq_spec(&self, other: &Rsa3x5Elem) -> bool {
        self@ == other@
    }
}

impl Eq for Rsa3x5Elem {
}

} // verus!
