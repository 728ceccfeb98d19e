//! Arbitrary-precision integers held as little-endian 64-bit limbs.
//! The arithmetic itself is done by `rug`; this module only converts.
use rug::integer::Order;
use vstd::arithmetic::power::pow;
use vstd::prelude::*;

verus! {

/// `2^64`, the weight of one limb.
pub open spec fn limb_base() -> nat {
    0x1_0000_0000_0000_0000nat
}

/// The value of a little-endian sequence of limbs.
pub open spec fn limbs_value(s: Seq<u64>) -> nat
    decreases s.len(),
{
    if s.len() == 0 {
        0
    } else {
        s[0] as nat + limb_base() * limbs_value(s.drop_first())
    }
}

/// A non-negative integer of any size.
///
/// Limbs are least significant first; trailing zero limbs are allowed, so two
/// values are compared by what they denote, never by their limbs.
#[derive(Debug)]
pub struct Natural {
    limbs: Vec<u64>,
}

impl View for Natural {
    type V = nat;

    closed spec fn view(&self) -> nat {
        limbs_value(self.limbs@)
    }
}

/// A signed integer of any size: a sign and a magnitude.
#[derive(Debug)]
pub struct SignedInt {
    negative: bool,
    magnitude: Natural,
}

impl View for SignedInt {
    type V = int;

    closed spec fn view(&self) -> int {
        if self.negative {
            -(self.magnitude@ as int)
        } else {
            self.magnitude@ as int
        }
    }
}

impl Natural {
    /// The number whose limbs, least significant first, are `limbs`.
    pub fn from_limbs(limbs: Vec<u64>) -> (r: Natural)
        ensures
            r@ == limbs_value(limbs@),
    {
        Natural { limbs }
    }

    /// The limbs of `self`, least significant first.
    pub fn limbs(&self) -> (r: Vec<u64>)
        ensures
            limbs_value(r@) == self@,
    {
        self.limbs.clone()
    }

    pub fn from_u64(x: u64) -> (r: Natural)
        ensures
            r@ == x as nat,
    {
        let r = Natural { limbs: vec![x] };
        proof {
            reveal_with_fuel(limbs_value, 2);
            assert(r.limbs@.drop_first().len() == 0);
        }
        r
    }

    /// Relies on rug's `&Integer * &Integer`: the exact product.
    #[verifier::external_body]
    pub(crate) fn times(&self, other: &Natural) -> (r: Natural)
        ensures
            r@ == self@ * other@,
    {
        let a = rug::Integer::from_digits(&self.limbs, Order::Lsf);
        let b = rug::Integer::from_digits(&other.limbs, Order::Lsf);
        let p = rug::Integer::from(&a * &b);
        Natural { limbs: p.to_digits::<u64>(Order::Lsf) }
    }

    /// Relies on rug's `&Integer % &Integer`: on non-negative operands, the
    /// remainder of the division. It panics on a zero divisor.
    #[verifier::external_body]
    pub(crate) fn rem_by(&self, m: &Natural) -> (r: Natural)
        requires
            m@ > 0,
        ensures
            r@ == self@ % m@,
    {
        let a = rug::Integer::from_digits(&self.limbs, Order::Lsf);
        let b = rug::Integer::from_digits(&m.limbs, Order::Lsf);
        let q = rug::Integer::from(&a % &b);
        Natural { limbs: q.to_digits::<u64>(Order::Lsf) }
    }

    /// Relies on rug's `&Integer - &Integer`: the exact difference, which is
    /// non-negative here.
    #[verifier::external_body]
    pub(crate) fn minus(&self, other: &Natural) -> (r: Natural)
        requires
            self@ >= other@,
        ensures
            r@ == self@ - other@,
    {
        let a = rug::Integer::from_digits(&self.limbs, Order::Lsf);
        let b = rug::Integer::from_digits(&other.limbs, Order::Lsf);
        let d = rug::Integer::from(&a - &b);
        Natural { limbs: d.to_digits::<u64>(Order::Lsf) }
    }

    /// Relies on rug's `Integer / u32`: division truncating toward zero,
    /// which on a non-negative value is the floor.
    #[verifier::external_body]
    pub(crate) fn half(&self) -> (r: Natural)
        ensures
            r@ == self@ / 2,
    {
        let a = rug::Integer::from_digits(&self.limbs, Order::Lsf);
        let h = a / 2u32;
        Natural { limbs: h.to_digits::<u64>(Order::Lsf) }
    }

    /// Relies on rug's `Ord for Integer`: the numeric order.
    #[verifier::external_body]
    pub(crate) fn compare(&self, other: &Natural) -> (r: std::cmp::Ordering)
        ensures
            (r == std::cmp::Ordering::Less) == (self@ < other@),
            (r == std::cmp::Ordering::Equal) == (self@ == other@),
            (r == std::cmp::Ordering::Greater) == (self@ > other@),
    {
        let a = rug::Integer::from_digits(&self.limbs, Order::Lsf);
        let b = rug::Integer::from_digits(&other.limbs, Order::Lsf);
        a.cmp(&b)
    }

    /// Relies on rug's `Integer::pow_mod_ref`: with a non-negative exponent
    /// and a non-zero modulus it answers, with `self^exp mod m` (GMP's
    /// `mpz_powm`, whose result lies in `[0, m)`).
    #[verifier::external_body]
    pub(crate) fn pow_mod(&self, exp: &Natural, m: &Natural) -> (r: Option<Natural>)
        requires
            m@ > 0,
        ensures
            r is Some,
            r matches Some(p) ==> p@ == pow(self@ as int, exp@) % (m@ as int),
    {
        let a = rug::Integer::from_digits(&self.limbs, Order::Lsf);
        let e = rug::Integer::from_digits(&exp.limbs, Order::Lsf);
        let n = rug::Integer::from_digits(&m.limbs, Order::Lsf);
        match a.pow_mod_ref(&e, &n) {
            Some(p) => Some(Natural { limbs: rug::Integer::from(p).to_digits::<u64>(Order::Lsf) }),
            None => None,
        }
    }

    /// Relies on rug's `Integer::invert_ref`: an inverse modulo `m` is
    /// returned exactly when one exists (GMP's `mpz_invert`, whose result
    /// lies in `[0, m)`).
    #[verifier::external_body]
    pub(crate) fn invert_mod(&self, m: &Natural) -> (r: Option<Natural>)
        requires
            m@ > 1,
        ensures
            r is None <==> !is_invertible(self@ as int, m@ as int),
            r matches Some(y) ==> ((self@ as int) * (y@ as int)) % (m@ as int) == 1,
    {
        let a = rug::Integer::from_digits(&self.limbs, Order::Lsf);
        let n = rug::Integer::from_digits(&m.limbs, Order::Lsf);
        match a.invert_ref(&n) {
            Some(y) => Some(Natural { limbs: rug::Integer::from(y).to_digits::<u64>(Order::Lsf) }),
            None => None,
        }
    }

    /// Whether `self` is zero.
    pub fn is_zero(&self) -> (r: bool)
        ensures
            r == (self@ == 0),
    {
        let zero = Natural::from_u64(0);
        match self.compare(&zero) {
            std::cmp::Ordering::Equal => true,
            _ => false,
        }
    }
}

/// `x` has an inverse modulo `m`.
pub open spec fn is_invertible(x: int, m: int) -> bool {
    exists|y: int| #[trigger] ((x * y) % m) == 1
}

impl Clone for Natural {
    fn clone(&self) -> (r: Natural)
        ensures
            r@ == self@,
    {
        Natural { limbs: self.limbs.clone() }
    }
}

impl PartialEq for Natural {
    fn eq(&self, other: &Natural) -> (r: bool) {
        match self.compare(other) {
            std::cmp::Ordering::Equal => true,
            _ => false,
        }
    }
}

impl vstd::std_specs::cmp::PartialEqSpecImpl for Natural {
    open spec fn obeys_eq_spec() -> bool {
        true
    }

    open spec fn eq_spec(&self, other: &Natural) -> bool {
        self@ == other@
    }
}

impl Eq for Natural {
}

impl SignedInt {
    /// The integer with the given sign and magnitude; a negative zero is zero.
    pub fn new(negative: bool, magnitude: Natural) -> (r: SignedInt)
        ensures
            r@ == (if negative { -(magnitude@ as int) } else { magnitude@ as int }),
    {
        SignedInt { negative, magnitude }
    }

    pub fn from_natural(n: Natural) -> (r: SignedInt)
        ensures
            r@ == n@ as int,
    {
        SignedInt { negative: false, magnitude: n }
    }

    pub fn from_i64(x: i64) -> (r: SignedInt)
        ensures
            r@ == x as int,
    {
        if x < 0 {
            let m: u64 = (-(x as i128)) as u64;
            SignedInt { negative: true, magnitude: Natural::from_u64(m) }
        } else {
            SignedInt { negative: false, magnitude: Natural::from_u64(x as u64) }
        }
    }

    /// Whether `self` is below zero (a negative zero is not).
    pub fn is_negative(&self) -> (r: bool)
        ensures
            r == (self@ < 0),
    {
        self.negative && !self.magnitude.is_zero()
    }

    /// `|self|`.
    pub fn magnitude(&self) -> (r: Natural)
        ensures
            r@ as int == if self@ < 0 { -self@ } else { self@ },
    {
        self.magnitude.clone()
    }
}

impl Clone for SignedInt {
    fn clone(&self) -> (r: SignedInt)
        ensures
            r@ == self@,
    {
        SignedInt { negative: self.negative, magnitude: self.magnitude.clone() }
    }
}

} // verus!
