use gldemo::frac::Frac;
use gldemo::matrix::{resize_bounds, projection_for_size, Mat4};

/// Value equality of an entry against `num / den`.
fn entry_is(m: &Mat4, k: usize, num: i128, den: i128) -> bool {
    let e = &m.e[k];
    e.num * den == num * e.den
}

fn approx(m: &Mat4, k: usize) -> f64 {
    (m.e[k].num as f64) / (m.e[k].den as f64)
}

#[test]
fn identity_entries() {
    let m = Mat4::identity();
    assert_eq!(m.e.len(), 16);
    for k in 0..16 {
        if k % 5 == 0 {
            assert!(entry_is(&m, k, 1, 1));
        } else {
            assert!(entry_is(&m, k, 0, 1));
        }
    }
}

#[test]
fn rotation_places_cos_and_sin() {
    // cos = 3/5, sin = 4/5: column-major [c,s,0,0][-s,c,0,0][0,0,1,0][0,0,0,1]
    let c = Frac::new(3, 5);
    let s = Frac::new(4, 5);
    let m = Mat4::rotation_z(c, s);
    assert!(entry_is(&m, 0, 3, 5));
    assert!(entry_is(&m, 1, 4, 5));
    assert!(entry_is(&m, 4, -4, 5));
    assert!(entry_is(&m, 5, 3, 5));
    assert!(entry_is(&m, 10, 1, 1));
    assert!(entry_is(&m, 15, 1, 1));
    for k in [2usize, 3, 6, 7, 8, 9, 11, 12, 13, 14] {
        assert!(entry_is(&m, k, 0, 1));
    }
}

#[test]
fn rotation_zero_is_identity() {
    let m = Mat4::rotation_z(Frac::from_int(1), Frac::from_int(0));
    for k in 0..16 {
        if k % 5 == 0 {
            assert!(entry_is(&m, k, 1, 1));
        } else {
            assert!(entry_is(&m, k, 0, 1));
        }
    }
}

#[test]
fn rotation_periodicity() {
    // rotation by a and by a + 2*pi agree within floating-point tolerance
    let a = 0.7f32;
    let b = a + 2.0 * std::f32::consts::PI;
    let scale = 1 << 24;
    let to_frac = |x: f32| Frac::new((x * scale as f32) as i128, scale as i128);
    let m1 = Mat4::rotation_z(to_frac(a.cos()), to_frac(a.sin()));
    let m2 = Mat4::rotation_z(to_frac(b.cos()), to_frac(b.sin()));
    for k in 0..16 {
        assert!((approx(&m1, k) - approx(&m2, k)).abs() < 1e-5);
    }
}

#[test]
fn unit_orthographic_is_identity_except_depth() {
    let one = Frac::from_int(1);
    let neg = Frac::from_int(-1);
    let m = Mat4::orthographic(neg, one, neg, one, neg, one);
    for k in 0..16 {
        if k == 10 {
            // the standard formula mirrors the near-to-far axis: -2/(1 - -1) = -1
            assert!(entry_is(&m, k, -1, 1));
        } else if k % 5 == 0 {
            assert!(entry_is(&m, k, 1, 1));
        } else {
            assert!(entry_is(&m, k, 0, 1));
        }
    }
}

#[test]
fn unit_orthographic_fixes_unit_point() {
    // transforming (1, 0, 0, 1) by the unit-volume projection gives it back
    let one = Frac::from_int(1);
    let neg = Frac::from_int(-1);
    let m = Mat4::orthographic(neg, one, neg, one, neg, one);
    let v = [1.0f64, 0.0, 0.0, 1.0];
    let expect = [1.0f64, 0.0, 0.0, 1.0];
    for row in 0..4 {
        let mut acc = 0.0f64;
        for col in 0..4 {
            acc += approx(&m, col * 4 + row) * v[col];
        }
        assert!((acc - expect[row]).abs() < 1e-12);
    }
}

#[test]
fn resize_landscape() {
    // w=800, h=600: left=-4/3, right=4/3, bottom=-1, top=1
    let b = resize_bounds(800, 600);
    assert_eq!(b.left.num * 3, -4 * b.left.den);
    assert_eq!(b.right.num * 3, 4 * b.right.den);
    assert_eq!(b.bottom.num, -b.bottom.den);
    assert_eq!(b.top.num, b.top.den);
    assert_eq!(b.near.num, -b.near.den);
    assert_eq!(b.far.num, b.far.den);
}

#[test]
fn resize_portrait() {
    // w=600, h=800: left=-1, right=1, bottom=-4/3, top=4/3
    let b = resize_bounds(600, 800);
    assert_eq!(b.left.num, -b.left.den);
    assert_eq!(b.right.num, b.right.den);
    assert_eq!(b.bottom.num * 3, -4 * b.bottom.den);
    assert_eq!(b.top.num * 3, 4 * b.top.den);
}

#[test]
fn resize_keeps_unit_square_visible() {
    for (w, h) in [(800u32, 600u32), (600, 800), (1, 1), (1920, 1080), (333, 777)] {
        let b = resize_bounds(w, h);
        // left <= -1, right >= 1, bottom <= -1, top >= 1 (cross-multiplied)
        assert!(b.left.num <= -b.left.den);
        assert!(b.right.num >= b.right.den);
        assert!(b.bottom.num <= -b.bottom.den);
        assert!(b.top.num >= b.top.den);
    }
}

#[test]
fn projection_matches_resize_bounds() {
    let b = resize_bounds(800, 600);
    let m1 = Mat4::orthographic(b.left, b.right, b.bottom, b.top, b.near, b.far);
    let m2 = projection_for_size(800, 600);
    for k in 0..16 {
        assert_eq!(m1.e[k].num, m2.e[k].num);
        assert_eq!(m1.e[k].den, m2.e[k].den);
    }
    // spot-check the scale: 2/(right-left) = 2/(8/3) = 3/4
    assert!(entry_is(&m2, 0, 3, 4));
    assert!(entry_is(&m2, 5, 1, 1));
    assert!(entry_is(&m2, 10, -1, 1));
    assert!(entry_is(&m2, 15, 1, 1));
}
