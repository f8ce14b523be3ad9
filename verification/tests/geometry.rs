//! Behavioral tests of the spinning-triangle geometry, run against the
//! compiled library.  Fixed-point scale: one million stands for 1.0.

use spintri::fixed::ONE;
use spintri::spin::spin_microturns;
use spintri::triangle::Triangle;
use spintri::vec3::{mix_by_angle, Rotor, Vec3};

/// The demo triangle: tip (0.5, 0, 0), base midpoint (0, 0, -0.5),
/// base radius 0.5, basis (0, -1, 0) and (-0.707, 0, 0.707).
fn demo_triangle() -> Triangle {
    Triangle::new(
        Vec3::new(ONE / 2, 0, 0),
        Vec3::new(0, 0, -(ONE / 2)),
        ONE / 2,
        Vec3::new(0, -ONE, 0),
        Vec3::new(-707_000, 0, 707_000),
    )
}

/// A triangle whose basis is exactly orthonormal on the fixed-point
/// grid, so every derived quantity is exact.
fn axis_triangle() -> Triangle {
    Triangle::new(
        Vec3::new(0, 0, ONE / 2),
        Vec3::new(0, 0, -(ONE / 2)),
        ONE / 2,
        Vec3::new(ONE, 0, 0),
        Vec3::new(0, ONE, 0),
    )
}

/// A rotor exactly on the fixed-point unit circle: 0.6^2 + 0.8^2 == 1.
fn exact_rotor() -> Rotor {
    Rotor::new(600_000, 800_000)
}

fn diff(a: &Vec3, b: &Vec3) -> Vec3 {
    a.subtract(b)
}

fn dot_i128(a: &Vec3, b: &Vec3) -> i128 {
    a.x as i128 * b.x as i128 + a.y as i128 * b.y as i128 + a.z as i128 * b.z as i128
}

#[test]
fn mix_at_angle_zero_returns_first_axis() {
    let i = Vec3::new(0, -ONE, 0);
    let j = Vec3::new(-707_000, 0, 707_000);
    assert_eq!(mix_by_angle(&i, &j, Rotor::identity()), i);
}

#[test]
fn mix_at_quarter_turn_returns_second_axis() {
    let i = Vec3::new(0, -ONE, 0);
    let j = Vec3::new(-707_000, 0, 707_000);
    assert_eq!(mix_by_angle(&i, &j, Rotor::new(0, ONE)), j);
}

#[test]
fn mix_of_unit_axes_stays_on_unit_circle() {
    let i = Vec3::new(ONE, 0, 0);
    let j = Vec3::new(0, ONE, 0);
    for degrees in [10.0f64, 30.0, 45.0, 100.0, 200.0, 333.0] {
        let radians = degrees.to_radians();
        let c = (radians.cos() * ONE as f64).round() as i64;
        let s = (radians.sin() * ONE as f64).round() as i64;
        let m = mix_by_angle(&i, &j, Rotor::new(c, s));
        let len = m.length();
        assert!(
            (len - ONE).abs() <= 100,
            "angle {degrees}: length {len} strays from {ONE}"
        );
    }
}

#[test]
fn mix_of_exact_rotor_is_exact() {
    let i = Vec3::new(ONE, 0, 0);
    let j = Vec3::new(0, ONE, 0);
    let m = mix_by_angle(&i, &j, exact_rotor());
    assert_eq!(m, Vec3::new(600_000, 800_000, 0));
    assert_eq!(m.length(), ONE);
}

#[test]
fn corners_first_element_is_tip_for_any_spin() {
    let mut t = demo_triangle();
    let tip = t.tip;
    for rot in [
        Rotor::identity(),
        Rotor::new(0, ONE),
        exact_rotor(),
        Rotor::new(-600_000, 800_000),
        Rotor::new(-ONE, 0),
    ] {
        t.set_spin(rot);
        assert_eq!(t.corners()[0], tip);
    }
}

#[test]
fn base_corners_keep_their_distance_exactly_on_exact_axes() {
    let mut t = axis_triangle();
    t.set_spin(exact_rotor());
    let c = t.corners();
    assert_eq!(diff(&c[1], &t.base_midpt).length(), t.base_radius);
    assert_eq!(diff(&c[2], &t.base_midpt).length(), t.base_radius);
}

#[test]
fn base_corners_keep_their_distance_within_tolerance() {
    let mut t = demo_triangle();
    for rot in [Rotor::identity(), exact_rotor(), Rotor::new(-800_000, -600_000)] {
        t.set_spin(rot);
        let c = t.corners();
        let d1 = diff(&c[1], &t.base_midpt).length();
        let d2 = diff(&c[2], &t.base_midpt).length();
        assert!((d1 - t.base_radius).abs() <= 200, "corner1 distance {d1}");
        assert!((d2 - t.base_radius).abs() <= 200, "corner2 distance {d2}");
    }
}

#[test]
fn backface_swaps_the_two_base_corners() {
    let mut t = demo_triangle();
    t.set_spin(exact_rotor());
    let front = t.corners();
    let back = t.backface_corners();
    assert_eq!(back[0], front[0]);
    assert_eq!(back[1], front[2]);
    assert_eq!(back[2], front[1]);
}

#[test]
fn normal_is_unit_and_orthogonal_to_base_exactly_on_exact_axes() {
    let mut t = axis_triangle();
    t.set_spin(exact_rotor());
    let n = t.normal();
    assert_eq!(n, Vec3::new(-800_000, 600_000, 0));
    assert_eq!(n.length(), ONE);
    let c = t.corners();
    let base_dir = diff(&c[1], &c[2]);
    assert_eq!(dot_i128(&n, &base_dir), 0);
}

#[test]
fn normal_is_near_unit_and_near_orthogonal_to_base() {
    let mut t = demo_triangle();
    for rot in [Rotor::identity(), exact_rotor(), Rotor::new(0, -ONE)] {
        t.set_spin(rot);
        let n = t.normal();
        assert!((n.length() - ONE).abs() <= 400, "normal length {}", n.length());
        let c = t.corners();
        let base_dir = diff(&c[1], &c[2]);
        // The demo basis carries 0.707 for sqrt(2)/2, so orthogonality
        // holds to about one part in a thousand of the magnitudes.
        assert!(dot_i128(&n, &base_dir).abs() < 1_000_000_000);
    }
}

#[test]
fn normalize_of_zero_vector_fails() {
    assert!(Vec3::new(0, 0, 0).normalize().is_none());
}

#[test]
fn normalize_of_nonzero_vector_is_unit() {
    let v = Vec3::new(300_000, 400_000, 0);
    let u = v.normalize().expect("nonzero vector");
    assert_eq!(u, Vec3::new(600_000, 800_000, 0));
    assert_eq!(u.length(), ONE);
}

#[test]
fn length_of_three_four_five_vector_is_exact() {
    assert_eq!(Vec3::new(300_000, 400_000, 0).length(), 500_000);
    assert_eq!(Vec3::new(0, 0, 0).length(), 0);
    assert_eq!(Vec3::new(0, -ONE, 0).length(), ONE);
}

#[test]
fn demo_corners_at_spin_zero() {
    let t = demo_triangle();
    let c = t.corners();
    assert_eq!(c[0], Vec3::new(500_000, 0, 0));
    assert_eq!(c[1], Vec3::new(0, -500_000, -500_000));
    assert_eq!(c[2], Vec3::new(0, 500_000, -500_000));
}

#[test]
fn demo_corner_at_quarter_spin_lands_on_second_axis() {
    let mut t = demo_triangle();
    t.set_spin(Rotor::new(0, ONE));
    let c = t.corners();
    // base_midpt + base_radius * base_unit_j, computed independently.
    let expected = t.base_midpt.add(&t.base_unit_j.scale(t.base_radius));
    assert_eq!(c[1], expected);
    assert_eq!(c[1], Vec3::new(-353_500, 0, -146_500));
}

#[test]
fn four_seconds_at_an_eighth_revolution_is_half_a_turn() {
    // 4.0 s at 1/8 rev/s: 0.5 turns, i.e. pi radians.
    assert_eq!(spin_microturns(4_000_000, 1, 8), 500_000);
}

#[test]
fn spin_angle_scales_with_time_and_rate() {
    assert_eq!(spin_microturns(0, 1, 8), 0);
    assert_eq!(spin_microturns(8_000_000, 1, 8), 1_000_000);
    assert_eq!(spin_microturns(1_000_000, 1, 4), 250_000);
    assert_eq!(spin_microturns(3_000_000, 1, 8), 375_000);
}

#[test]
fn quarter_turn_advances_the_rotor() {
    let r = Rotor::new(600_000, -800_000).quarter_turn();
    assert_eq!(r, Rotor::new(800_000, 600_000));
}

#[test]
fn length_and_normalize_at_the_largest_coordinate() {
    // MAX_COORD is one billion: a thousand world units.
    let v = Vec3::new(1_000_000_000, 0, 0);
    assert_eq!(v.length(), 1_000_000_000);
    assert_eq!(v.normalize(), Some(Vec3::new(ONE, 0, 0)));
    let w = Vec3::new(1_000_000_000, -1_000_000_000, 1_000_000_000);
    // sqrt(3) times a billion, rounded down.
    assert_eq!(w.length(), 1_732_050_807);
}

#[test]
fn set_spin_leaves_the_shape_untouched() {
    let mut t = demo_triangle();
    let (tip, bm, r, ui, uj) =
        (t.tip, t.base_midpt, t.base_radius, t.base_unit_i, t.base_unit_j);
    t.set_spin(exact_rotor());
    assert_eq!(t.tip, tip);
    assert_eq!(t.base_midpt, bm);
    assert_eq!(t.base_radius, r);
    assert_eq!(t.base_unit_i, ui);
    assert_eq!(t.base_unit_j, uj);
    assert_eq!(t.spin, exact_rotor());
}

#[test]
fn vertices_emit_both_faces_with_opposed_normals() {
    let mut t = demo_triangle();
    t.set_spin(exact_rotor());
    let verts = t.vertices();
    assert_eq!(verts.len(), 6);
    let front = t.corners();
    let back = t.backface_corners();
    let n = t.normal();
    let neg_n = n.negate();
    for k in 0..3 {
        assert_eq!(verts[k].position, front[k]);
        assert_eq!(verts[k].normal, n);
        assert_eq!(verts[3 + k].position, back[k]);
        assert_eq!(verts[3 + k].normal, neg_n);
    }
}
