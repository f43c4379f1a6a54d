use gldemo::frac::Frac;

fn val_eq(a: &Frac, num: i128, den: i128) -> bool {
    a.num * den == num * a.den
}

#[test]
fn new_normalizes_sign() {
    let f = Frac::new(1, -2);
    assert_eq!(f.num, -1);
    assert_eq!(f.den, 2);
    let g = Frac::new(-3, -4);
    assert_eq!(g.num, 3);
    assert_eq!(g.den, 4);
}

#[test]
fn from_int_is_exact() {
    let f = Frac::from_int(7);
    assert_eq!(f.num, 7);
    assert_eq!(f.den, 1);
}

#[test]
fn add_exact() {
    let f = Frac::new(1, 2).add(Frac::new(1, 3));
    assert_eq!((f.num, f.den), (5, 6));
}

#[test]
fn sub_exact() {
    let f = Frac::new(1, 2).sub(Frac::new(1, 3));
    assert_eq!((f.num, f.den), (1, 6));
}

#[test]
fn mul_exact() {
    let f = Frac::new(2, 3).mul(Frac::new(3, 4));
    assert_eq!((f.num, f.den), (6, 12));
    assert!(val_eq(&f, 1, 2));
}

#[test]
fn div_normalizes_sign() {
    let f = Frac::new(1, 2).div(Frac::new(-2, 3));
    assert_eq!((f.num, f.den), (-3, 4));
}

#[test]
fn neg_flips_numerator() {
    let f = Frac::new(5, 8).neg();
    assert_eq!((f.num, f.den), (-5, 8));
}
