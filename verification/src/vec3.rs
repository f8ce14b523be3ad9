//! Vectors in 3-space over fixed-point scalars.
//!
//! The mathematical model of a vector is `GVec3`, a triple of unbounded
//! integers; the executable `Vec3` holds the same triple as `i64` values.
//! Exact operations (negate, add, subtract) are stated componentwise;
//! operations that rescale (`scale`, `mix_by_angle`, `normalize`) are
//! stated through `tdiv`, the exact description of their rounding.

use vstd::prelude::*;
use crate::fixed::{
    ONE, MAX_COORD, tdiv, lemma_tdiv_bound, lemma_tdiv_exact, lemma_tdiv_zero, lemma_mul_bound,
    mul_div, sqrt_floor, isqrt,
};

verus! {

/// Mathematical model of a vector: a triple of unbounded integers,
/// read at the fixed-point scale (`ONE` stands for 1.0).
pub ghost struct GVec3 {
    pub x: int,
    pub y: int,
    pub z: int,
}

/// A vector whose components all lie within `b` in magnitude.
pub open spec fn bounded(v: GVec3, b: int) -> bool {
    &&& -b <= v.x <= b
    &&& -b <= v.y <= b
    &&& -b <= v.z <= b
}

/// Componentwise sum.
pub open spec fn add_v(a: GVec3, b: GVec3) -> GVec3 {
    GVec3 { x: a.x + b.x, y: a.y + b.y, z: a.z + b.z }
}

/// Componentwise difference.
pub open spec fn sub_v(a: GVec3, b: GVec3) -> GVec3 {
    GVec3 { x: a.x - b.x, y: a.y - b.y, z: a.z - b.z }
}

/// Componentwise negation.
pub open spec fn neg_v(a: GVec3) -> GVec3 {
    GVec3 { x: -a.x, y: -a.y, z: -a.z }
}

/// Exact scaling by an integer factor, with no rescale.
pub open spec fn scale_v(a: GVec3, k: int) -> GVec3 {
    GVec3 { x: a.x * k, y: a.y * k, z: a.z * k }
}

/// Fixed-point scaling: each component is multiplied by the scalar `k`
/// and rescaled by `ONE`, rounding toward zero.
pub open spec fn scale_fp_v(a: GVec3, k: int) -> GVec3 {
    GVec3 {
        x: tdiv(a.x * k, ONE as int),
        y: tdiv(a.y * k, ONE as int),
        z: tdiv(a.z * k, ONE as int),
    }
}

/// Dot product.
pub open spec fn dot(a: GVec3, b: GVec3) -> int {
    a.x * b.x + a.y * b.y + a.z * b.z
}

/// Squared length.
pub open spec fn norm_sq(a: GVec3) -> int {
    dot(a, a)
}

/// The exact (un-rounded) point at angle (`c`, `s`) on the ellipse with
/// semi-axes `i` and `j`: `c*i + s*j`.
pub open spec fn mix_v(i: GVec3, j: GVec3, c: int, s: int) -> GVec3 {
    add_v(scale_v(i, c), scale_v(j, s))
}

/// The rounded point the executable `mix_by_angle` computes: each
/// semi-axis is fixed-point scaled, then the two are summed.
pub open spec fn mix_fp_v(i: GVec3, j: GVec3, c: int, s: int) -> GVec3 {
    add_v(scale_fp_v(i, c), scale_fp_v(j, s))
}

/// An immutable point or direction in 3-space, fixed-point.
#[derive(Clone, Copy, Debug, PartialEq, Eq, Structural)]
pub struct Vec3 {
    pub x: i64,
    pub y: i64,
    pub z: i64,
}

impl View for Vec3 {
    type V = GVec3;

    open spec fn view(&self) -> GVec3 {
        GVec3 { x: self.x as int, y: self.y as int, z: self.z as int }
    }
}

impl Vec3 {
    /// Construct from raw fixed-point components.
    pub fn new(x: i64, y: i64, z: i64) -> (r: Vec3)
        ensures
            r@ == (GVec3 { x: x as int, y: y as int, z: z as int }),
    {
        Vec3 { x, y, z }
    }

    /// Whether the components are small enough for the geometry to stay
    /// inside machine arithmetic.
    pub open spec fn in_range(self) -> bool {
        bounded(self@, MAX_COORD as int)
    }

    /// Fixed-point scale: the vector times `k / ONE`, each component
    /// rounded toward zero.
    pub fn scale(&self, k: i64) -> (r: Vec3)
        requires
            -0x7fff_ffff_ffff_ffff <= self@.x * k <= 0x7fff_ffff_ffff_ffff,
            -0x7fff_ffff_ffff_ffff <= self@.y * k <= 0x7fff_ffff_ffff_ffff,
            -0x7fff_ffff_ffff_ffff <= self@.z * k <= 0x7fff_ffff_ffff_ffff,
        ensures
            r@ == scale_fp_v(self@, k as int),
    {
        Vec3 {
            x: mul_div(self.x, k, ONE as u64),
            y: mul_div(self.y, k, ONE as u64),
            z: mul_div(self.z, k, ONE as u64),
        }
    }

    /// The opposite vector; exact.
    pub fn negate(&self) -> (r: Vec3)
        requires
            self@.x > i64::MIN,
            self@.y > i64::MIN,
            self@.z > i64::MIN,
        ensures
            r@ == neg_v(self@),
    {
        Vec3 { x: -self.x, y: -self.y, z: -self.z }
    }

    /// Componentwise sum; exact.
    pub fn add(&self, other: &Vec3) -> (r: Vec3)
        requires
            i64::MIN <= self@.x + other@.x <= i64::MAX,
            i64::MIN <= self@.y + other@.y <= i64::MAX,
            i64::MIN <= self@.z + other@.z <= i64::MAX,
        ensures
            r@ == add_v(self@, other@),
    {
        Vec3 { x: self.x + other.x, y: self.y + other.y, z: self.z + other.z }
    }

    /// Componentwise difference; exact.
    pub fn subtract(&self, other: &Vec3) -> (r: Vec3)
        requires
            i64::MIN <= self@.x - other@.x <= i64::MAX,
            i64::MIN <= self@.y - other@.y <= i64::MAX,
            i64::MIN <= self@.z - other@.z <= i64::MAX,
        ensures
            r@ == sub_v(self@, other@),
    {
        Vec3 { x: self.x - other.x, y: self.y - other.y, z: self.z - other.z }
    }

    /// The length of the vector, rounded down to the fixed-point grid:
    /// the integer square root of the exact squared length.
    pub fn length(&self) -> (r: i64)
        requires
            self.in_range(),
        ensures
            r == fp_length(self@),
            0 <= r <= 2 * MAX_COORD,
            r * r <= norm_sq(self@) < (r + 1) * (r + 1),
    {
        proof {
            lemma_mul_bound(self@.x, self@.x, MAX_COORD as int, MAX_COORD as int);
            lemma_mul_bound(self@.y, self@.y, MAX_COORD as int, MAX_COORD as int);
            lemma_mul_bound(self@.z, self@.z, MAX_COORD as int, MAX_COORD as int);
            lemma_norm_sq_nonneg(self@);
        }
        let xx: i64 = self.x * self.x;
        let yy: i64 = self.y * self.y;
        let zz: i64 = self.z * self.z;
        let nsq: i64 = xx + yy + zz;
        let root: u64 = isqrt(nsq as u64);
        proof {
            assert(root <= 2 * MAX_COORD) by (nonlinear_arith)
                requires
                    root * root <= nsq <= 3 * (MAX_COORD as int) * (MAX_COORD as int),
                    root >= 0,
                    MAX_COORD == 1_000_000_000,
            ;
        }
        root as i64
    }

    /// The unit vector along `self`, or `None` exactly on the zero
    /// vector: a degenerate direction has no unit vector, and the model
    /// refuses it rather than divide by zero.
    pub fn normalize(&self) -> (r: Option<Vec3>)
        requires
            self.in_range(),
        ensures
            r is None <==> self@ == (GVec3 { x: 0, y: 0, z: 0 }),
            r matches Some(u) ==> {
                &&& norm_sq(self@) > 0
                &&& u@ == normalize_v(self@)
                &&& bounded(u@, ONE as int)
            },
    {
        proof {
            lemma_norm_sq_nonneg(self@);
        }
        let len: i64 = self.length();
        if len == 0 {
            proof {
                assert((len + 1) * (len + 1) == 1) by (nonlinear_arith)
                    requires
                        len == 0i64,
                ;
                assert(norm_sq(self@) < 1);
            }
            None
        } else {
            proof {
                lemma_component_within_length(self@, len as int);
                lemma_mul_bound(self@.x, ONE as int, len as int, ONE as int);
                lemma_mul_bound(self@.y, ONE as int, len as int, ONE as int);
                lemma_mul_bound(self@.z, ONE as int, len as int, ONE as int);
                lemma_tdiv_bound(self@.x * ONE, len as int, ONE as int);
                lemma_tdiv_bound(self@.y * ONE, len as int, ONE as int);
                lemma_tdiv_bound(self@.z * ONE, len as int, ONE as int);
            }
            Some(Vec3 {
                x: mul_div(self.x, ONE, len as u64),
                y: mul_div(self.y, ONE, len as u64),
                z: mul_div(self.z, ONE, len as u64),
            })
        }
    }
}

/// No component of a vector outruns its length: if `len` squared brackets
/// the squared length from below, each component's magnitude is at most
/// `len`.
proof fn lemma_component_within_length(v: GVec3, len: int)
    requires
        len >= 0,
        norm_sq(v) < (len + 1) * (len + 1),
    ensures
        -len <= v.x <= len,
        -len <= v.y <= len,
        -len <= v.z <= len,
{
    assert(-len <= v.x <= len && -len <= v.y <= len && -len <= v.z <= len)
        by (nonlinear_arith)
        requires
            len >= 0,
            v.x * v.x + v.y * v.y + v.z * v.z < (len + 1) * (len + 1),
    ;
}

/// Squared lengths are never negative, and are zero only on the zero
/// vector.
pub proof fn lemma_norm_sq_nonneg(v: GVec3)
    ensures
        norm_sq(v) >= 0,
        norm_sq(v) == 0 <==> v == (GVec3 { x: 0, y: 0, z: 0 }),
{
    assert(v.x * v.x >= 0 && v.y * v.y >= 0 && v.z * v.z >= 0) by (nonlinear_arith);
    assert(v.x != 0 ==> v.x * v.x > 0) by (nonlinear_arith);
    assert(v.y != 0 ==> v.y * v.y > 0) by (nonlinear_arith);
    assert(v.z != 0 ==> v.z * v.z > 0) by (nonlinear_arith);
}

/// The fixed-point length of a vector: the integer square root of its
/// squared length.  Because components carry the scale `ONE`, the result
/// carries it too.
pub open spec fn fp_length(v: GVec3) -> int {
    sqrt_floor(norm_sq(v) as nat) as int
}

/// The fixed-point unit vector along `v`: each component is `v`'s,
/// multiplied by `ONE` and divided by the length, rounding toward zero.
pub open spec fn normalize_v(v: GVec3) -> GVec3 {
    GVec3 {
        x: tdiv(v.x * ONE, fp_length(v)),
        y: tdiv(v.y * ONE, fp_length(v)),
        z: tdiv(v.z * ONE, fp_length(v)),
    }
}

/// An angle, carried as its fixed-point cosine/sine pair.  `ONE` stands
/// for 1.0, so the identity rotation is `(ONE, 0)` and a quarter turn is
/// `(0, ONE)`.  A well-formed rotor keeps both values within `ONE`.
#[derive(Clone, Copy, Debug, PartialEq, Eq, Structural)]
pub struct Rotor {
    /// Scaled cosine of the angle.
    pub c: i64,
    /// Scaled sine of the angle.
    pub s: i64,
}

impl Rotor {
    /// Both trigonometric values lie in `[-ONE, ONE]`.
    pub open spec fn wf(self) -> bool {
        &&& -ONE <= self.c <= ONE
        &&& -ONE <= self.s <= ONE
    }

    /// Build a rotor from scaled cosine and sine values.
    pub fn new(c: i64, s: i64) -> (r: Rotor)
        requires
            -ONE <= c <= ONE,
            -ONE <= s <= ONE,
        ensures
            r == (Rotor { c, s }),
            r.wf(),
    {
        Rotor { c, s }
    }

    /// The angle zero: cosine 1, sine 0.
    pub fn identity() -> (r: Rotor)
        ensures
            r == (Rotor { c: ONE, s: 0i64 }),
            r.wf(),
    {
        Rotor { c: ONE, s: 0 }
    }

    /// The angle a quarter turn ahead: `cos(a + 90°) == -sin(a)` and
    /// `sin(a + 90°) == cos(a)`; exact.
    pub fn quarter_turn(&self) -> (r: Rotor)
        requires
            self.wf(),
        ensures
            r.c == -self.s,
            r.s == self.c,
            r.wf(),
    {
        Rotor { c: -self.s, s: self.c }
    }
}

/// The point `rot` radians around the origin-centered ellipse whose major
/// axis (center to the zero-angle point) is `i` and whose minor axis
/// (center to the quarter-turn point) is `j`.
///
/// At the exact rotor for angle zero the result is `i` itself, and at the
/// exact quarter turn it is `j` itself: the fixed-point rounding vanishes
/// there.
pub fn mix_by_angle(i: &Vec3, j: &Vec3, rot: Rotor) -> (r: Vec3)
    requires
        i.in_range(),
        j.in_range(),
        rot.wf(),
    ensures
        r@ == mix_fp_v(i@, j@, rot.c as int, rot.s as int),
        bounded(r@, 2 * MAX_COORD),
        rot.c == ONE && rot.s == 0 ==> r@ == i@,
        rot.c == 0 && rot.s == ONE ==> r@ == j@,
{
    proof {
        lemma_mul_bound(i@.x, rot.c as int, MAX_COORD as int, ONE as int);
        lemma_mul_bound(i@.y, rot.c as int, MAX_COORD as int, ONE as int);
        lemma_mul_bound(i@.z, rot.c as int, MAX_COORD as int, ONE as int);
        lemma_mul_bound(j@.x, rot.s as int, MAX_COORD as int, ONE as int);
        lemma_mul_bound(j@.y, rot.s as int, MAX_COORD as int, ONE as int);
        lemma_mul_bound(j@.z, rot.s as int, MAX_COORD as int, ONE as int);
    }
    let a = i.scale(rot.c);
    let b = j.scale(rot.s);
    proof {
        lemma_tdiv_bound(i@.x * rot.c, ONE as int, MAX_COORD as int);
        lemma_tdiv_bound(i@.y * rot.c, ONE as int, MAX_COORD as int);
        lemma_tdiv_bound(i@.z * rot.c, ONE as int, MAX_COORD as int);
        lemma_tdiv_bound(j@.x * rot.s, ONE as int, MAX_COORD as int);
        lemma_tdiv_bound(j@.y * rot.s, ONE as int, MAX_COORD as int);
        lemma_tdiv_bound(j@.z * rot.s, ONE as int, MAX_COORD as int);
    }
    proof {
        if rot.c == ONE && rot.s == 0 {
            lemma_scale_fp_identity(i@);
            lemma_scale_fp_zero(j@);
        }
        if rot.c == 0 && rot.s == ONE {
            lemma_scale_fp_zero(i@);
            lemma_scale_fp_identity(j@);
        }
    }
    a.add(&b)
}

/// A dot product is symmetric.
pub proof fn lemma_dot_symmetric(a: GVec3, b: GVec3)
    ensures
        dot(a, b) == dot(b, a),
{
    assert(a.x * b.x == b.x * a.x) by (nonlinear_arith);
    assert(a.y * b.y == b.y * a.y) by (nonlinear_arith);
    assert(a.z * b.z == b.z * a.z) by (nonlinear_arith);
}

/// A dot product distributes over a sum on the left.
pub proof fn lemma_dot_add_left(a: GVec3, b: GVec3, w: GVec3)
    ensures
        dot(add_v(a, b), w) == dot(a, w) + dot(b, w),
{
    assert((a.x + b.x) * w.x == a.x * w.x + b.x * w.x) by (nonlinear_arith);
    assert((a.y + b.y) * w.y == a.y * w.y + b.y * w.y) by (nonlinear_arith);
    assert((a.z + b.z) * w.z == a.z * w.z + b.z * w.z) by (nonlinear_arith);
}

/// Exact scaling factors out of a dot product on the left:
/// `(k * a) . b == k * (a . b)`.
pub proof fn lemma_scale_dot(a: GVec3, b: GVec3, k: int)
    ensures
        dot(scale_v(a, k), b) == k * dot(a, b),
{
    assert((a.x * k) * b.x == k * (a.x * b.x)) by (nonlinear_arith);
    assert((a.y * k) * b.y == k * (a.y * b.y)) by (nonlinear_arith);
    assert((a.z * k) * b.z == k * (a.z * b.z)) by (nonlinear_arith);
    assert(k * (a.x * b.x) + k * (a.y * b.y) + k * (a.z * b.z)
        == k * (a.x * b.x + a.y * b.y + a.z * b.z)) by (nonlinear_arith);
}

/// Exact scaling factors out of a dot product on the right.
pub proof fn lemma_dot_scale_right(a: GVec3, b: GVec3, k: int)
    ensures
        dot(a, scale_v(b, k)) == k * dot(a, b),
{
    lemma_dot_symmetric(a, scale_v(b, k));
    lemma_scale_dot(b, a, k);
    lemma_dot_symmetric(b, a);
}

/// Exact scaling squares the factor into the squared length:
/// `|k * v|^2 == k^2 * |v|^2`.
pub proof fn lemma_scale_norm_sq(v: GVec3, k: int)
    ensures
        norm_sq(scale_v(v, k)) == k * k * norm_sq(v),
{
    lemma_scale_dot(v, scale_v(v, k), k);
    lemma_dot_scale_right(v, v, k);
    assert(k * (k * dot(v, v)) == (k * k) * dot(v, v)) by (nonlinear_arith);
}

/// The ellipse-mix of an orthogonal pair of equally long axes traces a
/// circle: for `i` orthogonal to `j` with equal squared lengths,
/// `|c*i + s*j|^2 == (c^2 + s^2) * |i|^2` exactly.  With `(c, s)` on the
/// unit circle and `i`, `j` unit axes, the mix is again a unit vector.
pub proof fn lemma_mix_on_circle(i: GVec3, j: GVec3, c: int, s: int)
    requires
        dot(i, j) == 0,
        norm_sq(i) == norm_sq(j),
    ensures
        norm_sq(mix_v(i, j, c, s)) == (c * c + s * s) * norm_sq(i),
{
    let p = scale_v(i, c);
    let q = scale_v(j, s);
    let m = mix_v(i, j, c, s);
    assert(m == add_v(p, q));
    lemma_dot_add_left(p, q, m);
    lemma_dot_symmetric(p, m);
    lemma_dot_symmetric(q, m);
    lemma_dot_add_left(p, q, p);
    lemma_dot_add_left(p, q, q);
    lemma_dot_symmetric(p, q);
    lemma_scale_norm_sq(i, c);
    lemma_scale_norm_sq(j, s);
    lemma_scale_dot(i, q, c);
    lemma_dot_scale_right(i, j, s);
    assert(dot(p, q) == c * (s * dot(i, j)));
    assert(c * (s * 0int) == 0) by (nonlinear_arith);
    assert(dot(p, q) == 0);
    assert(dot(q, p) == 0);
    assert(dot(p, p) == c * c * norm_sq(i));
    assert(dot(q, q) == s * s * norm_sq(i));
    assert(dot(m, m) == dot(p, m) + dot(q, m));
    assert(dot(p, m) == dot(p, p) + dot(q, p));
    assert(dot(q, m) == dot(p, q) + dot(q, q));
    assert(dot(m, m) == c * c * norm_sq(i) + s * s * norm_sq(i));
    assert(c * c * norm_sq(i) + s * s * norm_sq(i) == (c * c + s * s) * norm_sq(i))
        by (nonlinear_arith);
}

/// Advancing the mix angle by a quarter turn gives a vector orthogonal to
/// the original mix: for `i` orthogonal to `j` with equal squared
/// lengths, `(c*i + s*j) . (-s*i + c*j) == 0` exactly.
pub proof fn lemma_mix_quarter_turn_orthogonal(i: GVec3, j: GVec3, c: int, s: int)
    requires
        dot(i, j) == 0,
        norm_sq(i) == norm_sq(j),
    ensures
        dot(mix_v(i, j, c, s), mix_v(i, j, -s, c)) == 0,
{
    let p = scale_v(i, c);
    let q = scale_v(j, s);
    let u = scale_v(i, -s);
    let w = scale_v(j, c);
    let m = mix_v(i, j, c, s);
    let n = mix_v(i, j, -s, c);
    assert(m == add_v(p, q) && n == add_v(u, w));
    lemma_dot_add_left(p, q, n);
    lemma_dot_symmetric(p, n);
    lemma_dot_symmetric(q, n);
    lemma_dot_add_left(u, w, p);
    lemma_dot_add_left(u, w, q);
    lemma_dot_symmetric(u, p);
    lemma_dot_symmetric(w, p);
    lemma_dot_symmetric(u, q);
    lemma_dot_symmetric(w, q);
    lemma_scale_dot(i, u, c);
    lemma_dot_scale_right(i, i, -s);
    lemma_scale_dot(i, w, c);
    lemma_dot_scale_right(i, j, c);
    lemma_scale_dot(j, u, s);
    lemma_dot_scale_right(j, i, -s);
    lemma_scale_dot(j, w, s);
    lemma_dot_scale_right(j, j, c);
    lemma_dot_symmetric(j, i);
    assert(dot(p, u) == c * (-s * norm_sq(i)));
    assert(dot(p, w) == c * (c * dot(i, j)));
    assert(dot(q, u) == s * (-s * dot(j, i)));
    assert(dot(q, w) == s * (c * norm_sq(j)));
    assert(c * (c * 0int) == 0) by (nonlinear_arith);
    assert(dot(p, w) == 0);
    assert(s * (-s * 0int) == 0) by (nonlinear_arith);
    assert(dot(q, u) == 0);
    assert(dot(m, n) == dot(p, n) + dot(q, n));
    assert(dot(p, n) == dot(u, p) + dot(w, p));
    assert(dot(q, n) == dot(u, q) + dot(w, q));
    assert(dot(m, n) == c * (-s * norm_sq(i)) + s * (c * norm_sq(j)));
    assert(c * (-s * norm_sq(i)) + s * (c * norm_sq(i)) == 0) by (nonlinear_arith);
}

/// Fixed-point scaling by `ONE` is the identity: the rescale divides the
/// product `x * ONE` back out exactly.
pub proof fn lemma_scale_fp_identity(v: GVec3)
    ensures
        scale_fp_v(v, ONE as int) == v,
{
    lemma_tdiv_exact(v.x, ONE as int);
    lemma_tdiv_exact(v.y, ONE as int);
    lemma_tdiv_exact(v.z, ONE as int);
}

/// Fixed-point scaling by zero gives the zero vector.
pub proof fn lemma_scale_fp_zero(v: GVec3)
    ensures
        scale_fp_v(v, 0) == (GVec3 { x: 0, y: 0, z: 0 }),
{
    lemma_tdiv_zero(ONE as int);
}

} // verus!
