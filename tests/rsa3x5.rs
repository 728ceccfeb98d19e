use hidden_order::group::{Inverse, Pow};
use hidden_order::natural::{Natural, SignedInt};
use hidden_order::rsa3x5::{Rsa3x5, Rsa3x5Elem};
use rug::integer::Order;
use rug::Integer;

fn num(x: u64) -> Natural {
    Natural::from_u64(x)
}

fn to_rug(n: &Natural) -> Integer {
    Integer::from_digits(&n.limbs(), Order::Lsf)
}

fn from_rug(i: &Integer) -> SignedInt {
    let mag = Natural::from_limbs(i.to_digits::<u64>(Order::Lsf));
    SignedInt::new(*i < 0, mag)
}

fn modulus() -> Integer {
    to_rug(&Rsa3x5::rep())
}

#[test]
fn test_rsa3x5_init() {
    let x = Rsa3x5::rep();
    println!("Rsa3x5::rep() - {:?}", x);
}

#[test]
fn test_rsa3x5_op() {
    let a = Rsa3x5::op(&Rsa3x5::elem(2), &Rsa3x5::elem(3));
    println!("Rsa3x5:  2*3= {:?}", a);
    assert_eq!(a, Rsa3x5::elem(6));

    let b = Rsa3x5::op(&Rsa3x5::elem(-2), &Rsa3x5::elem(-3));
    println!("Rsa3x5: -2*(-3)= {:?}", b);
    assert_eq!(b, Rsa3x5::elem(6));

    let c = Rsa3x5::op(&Rsa3x5::elem(-2), &Rsa3x5::elem(3));
    println!("Rsa3x5: -2*3={:?}", c);
    assert_eq!(c, Rsa3x5::elem(-6));

    let d = Rsa3x5::op(&Rsa3x5::elem(4), &Rsa3x5::elem(7));
    println!("Rsa3x5:  4*7= {:?}", d);
    assert_eq!(d, Rsa3x5::elem(13));
}

/// `-x` and `x` are the same element.
#[test]
fn test_rsa3x5_cosets() {
    let m_minus_3 = from_rug(&(modulus() - 3));
    assert_eq!(Rsa3x5::elem(3), Rsa3x5::elem_from(&m_minus_3));
    println!(
        "Rsa3x5::elem(3): {:?} \nRsa3x5::elem(M - 3): {:?}\nRsa3x5::elem(-3): {:?}",
        Rsa3x5::elem(3),
        Rsa3x5::elem_from(&m_minus_3),
        Rsa3x5::elem(-3),
    );
}

#[test]
fn test_rsa3x5_exp() {
    let a = Rsa3x5::exp(&Rsa3x5::elem(2), &num(3));
    assert!(a == Rsa3x5::elem(8));
    let b = Rsa3x5::exp(&Rsa3x5::elem(2), &num(4096));
    assert_eq!(b, Rsa3x5::elem(1));
    let c = Rsa3x5::exp(&Rsa3x5::elem(2), &Rsa3x5::rep());
    println!("{:?}", c);
    let two_m = Natural::from_limbs((modulus() * 2u32).to_digits::<u64>(Order::Lsf));
    let d = Rsa3x5::exp(&Rsa3x5::elem(2), &two_m);
    println!("{:?}", d);
}

#[test]
fn test_rsa3x5_inv() {
    let x = Rsa3x5::elem(2);
    let inv = Rsa3x5::inv(&x).unwrap();
    println!("{:?}", inv.clone());
    assert_eq!(Rsa3x5::op(&x, &inv), Rsa3x5::id());
}

fn value_of(e: &Rsa3x5Elem) -> Integer {
    to_rug(&e.value())
}

#[test]
fn rsa3x5_elements_hold_canonical_values() {
    for t in -40i64..40 {
        let v = value_of(&Rsa3x5::elem(t));
        let r = t.rem_euclid(15);
        let expected = if r > 7 { 15 - r } else { r };
        assert_eq!(v, Integer::from(expected), "t = {}", t);
    }
    assert_eq!(value_of(&Rsa3x5::elem(13)), Integer::from(2));
    assert_eq!(value_of(&Rsa3x5::elem(-6)), Integer::from(6));
    let r = (i64::MIN as i128).rem_euclid(15);
    let expected = if r > 7 { 15 - r } else { r };
    assert_eq!(value_of(&Rsa3x5::elem(i64::MIN)), Integer::from(expected));
}

#[test]
fn rsa3x5_canonicalization_is_idempotent() {
    for t in -40i64..40 {
        let once = Rsa3x5::elem(t);
        let twice = Rsa3x5::elem_from(&SignedInt::from_natural(once.value()));
        assert_eq!(once, twice);
    }
}

#[test]
fn rsa3x5_coset_identity() {
    for t in -40i64..40 {
        assert_eq!(Rsa3x5::elem(t), Rsa3x5::elem(15 - t));
        assert_eq!(Rsa3x5::elem(t), Rsa3x5::elem(-t));
    }
}

#[test]
fn rsa3x5_group_axioms() {
    let units = [1i64, 2, 4, 7];
    for &a in &units {
        let a = Rsa3x5::elem(a);
        assert_eq!(Rsa3x5::op(&a, &Rsa3x5::id()), a);
        let ai = Rsa3x5::inv(&a).unwrap();
        assert_eq!(Rsa3x5::op(&a, &ai), Rsa3x5::id());
        for &b in &units {
            let b = Rsa3x5::elem(b);
            assert_eq!(Rsa3x5::op(&a, &b), Rsa3x5::op(&b, &a));
            for &c in &units {
                let c = Rsa3x5::elem(c);
                assert_eq!(
                    Rsa3x5::op(&Rsa3x5::op(&a, &b), &c),
                    Rsa3x5::op(&a, &Rsa3x5::op(&b, &c))
                );
            }
        }
    }
    assert_eq!(value_of(&Rsa3x5::id()), Integer::from(1));
    assert_eq!(value_of(&Rsa3x5::inv(&Rsa3x5::elem(2)).unwrap()), Integer::from(7));
}

#[test]
fn rsa3x5_inverse_of_non_unit_is_none() {
    assert!(Rsa3x5::inv(&Rsa3x5::elem(3)).is_none());
    assert!(Rsa3x5::inv(&Rsa3x5::elem(5)).is_none());
    assert!(Rsa3x5::inv(&Rsa3x5::elem(0)).is_none());
}

#[test]
fn rsa3x5_exp_matches_repeated_op() {
    for x in 0i64..8 {
        let x = Rsa3x5::elem(x);
        let mut acc = x.clone();
        for n in 1u64..=12 {
            assert_eq!(Rsa3x5::exp(&x, &num(n)), acc, "n = {}", n);
            acc = Rsa3x5::op(&acc, &x);
        }
        assert_eq!(Rsa3x5::exp(&x, &num(0)), Rsa3x5::id());
    }
    assert_eq!(value_of(&Rsa3x5::exp(&Rsa3x5::elem(2), &num(3))), Integer::from(7));
}

#[test]
fn rsa3x5_pow_signed_round_trip() {
    let x = Rsa3x5::elem(2);
    for n in -10i64..=10 {
        let p = x.pow_signed(&SignedInt::from_i64(n)).unwrap();
        let q = x.pow_signed(&SignedInt::from_i64(-n)).unwrap();
        assert_eq!(Rsa3x5::op(&p, &q), Rsa3x5::id(), "n = {}", n);
    }
}

#[test]
fn rsa3x5_pow_signed_branches() {
    let x = Rsa3x5::elem(2);
    assert_eq!(x.pow_signed(&SignedInt::from_i64(0)).unwrap(), Rsa3x5::id());
    let negative_zero = SignedInt::new(true, num(0));
    assert_eq!(x.pow_signed(&negative_zero).unwrap(), Rsa3x5::id());
    assert_eq!(x.pow_signed(&SignedInt::from_i64(3)).unwrap(), x.pow(&num(3)));
    let minus_three = x.pow_signed(&SignedInt::from_i64(-3)).unwrap();
    assert_eq!(minus_three, x.efficient_inverse(&num(3)).unwrap());
    // 2^3 = 8, whose inverse modulo 15 is 2: the element of 2.
    assert_eq!(value_of(&minus_three), Integer::from(2));
    assert!(Rsa3x5::elem(3).pow_signed(&SignedInt::from_i64(-1)).is_none());
    assert_eq!(Rsa3x5::elem(3).pow_signed(&SignedInt::from_i64(1)).unwrap(), Rsa3x5::elem(3));
}

#[test]
fn rsa3x5_unknown_order_elem_is_two() {
    assert_eq!(Rsa3x5::unknown_order_elem(), Rsa3x5::elem(2));
    assert_eq!(value_of(&Rsa3x5::unknown_order_elem()), Integer::from(2));
}

#[test]
fn rsa3x5_modulus_is_fifteen() {
    assert_eq!(modulus(), Integer::from(15));
}
