//! The spinning isosceles triangle.
//!
//! A `Triangle` holds fixed shape parameters — tip, base midpoint, base
//! radius and an orthonormal basis of the plane of rotation — plus the
//! current spin angle as a `Rotor`.  From these it derives its three
//! corner positions, the same corners with reversed winding for the back
//! face, the front-face normal, and the per-vertex records a renderer
//! consumes.  Everything is a pure function of the shape and the spin.

use vstd::prelude::*;
use crate::fixed::{ONE, MAX_COORD, lemma_mul_bound, lemma_tdiv_bound};
use crate::vec3::{
    Vec3, GVec3, Rotor, bounded, add_v, sub_v, neg_v, scale_v, scale_fp_v, mix_fp_v, mix_v, dot,
    norm_sq, mix_by_angle, lemma_mix_on_circle, lemma_mix_quarter_turn_orthogonal,
    lemma_scale_norm_sq, lemma_scale_dot,
};

verus! {

/// An isosceles triangle spinning about its axis of symmetry in 3-space,
/// with a distinguished front face.  Corners are listed clockwise as seen
/// from the front.
pub struct Triangle {
    /// The corner lying on the axis of rotation.
    pub tip: Vec3,
    /// Midpoint of the base, the side opposite the tip.
    pub base_midpt: Vec3,
    /// Distance from the base midpoint to each of the two base corners.
    pub base_radius: i64,
    /// Unit vector from the base midpoint toward the base corner that is
    /// clockwise of the tip, in the unrotated state.
    pub base_unit_i: Vec3,
    /// Unit normal to the triangle in the unrotated state, orthogonal to
    /// `base_unit_i`; together they span the plane of rotation.
    pub base_unit_j: Vec3,
    /// Current rotation about the tip-to-base-midpoint axis.
    pub spin: Rotor,
}

impl Triangle {
    /// The shape parameters fit the machine arithmetic: coordinates
    /// within `MAX_COORD`, a positive radius no larger than that, and a
    /// well-formed spin rotor.  (That the basis is orthonormal is the
    /// caller's charge, as is any exact-arithmetic law that assumes it.)
    pub open spec fn wf(self) -> bool {
        &&& self.tip.in_range()
        &&& self.base_midpt.in_range()
        &&& 0 < self.base_radius <= MAX_COORD
        &&& self.base_unit_i.in_range()
        &&& self.base_unit_j.in_range()
        &&& self.spin.wf()
    }

    /// The rounded unit vector from the base midpoint toward the first
    /// base corner, at the current spin.
    pub open spec fn spin_dir_spec(self) -> GVec3 {
        mix_fp_v(self.base_unit_i@, self.base_unit_j@, self.spin.c as int, self.spin.s as int)
    }

    /// The rounded offset from the base midpoint to the first base
    /// corner: the spin direction scaled by the base radius.
    pub open spec fn offset_spec(self) -> GVec3 {
        scale_fp_v(self.spin_dir_spec(), self.base_radius as int)
    }

    /// First base corner: base midpoint plus the offset.
    pub open spec fn corner1_spec(self) -> GVec3 {
        add_v(self.base_midpt@, self.offset_spec())
    }

    /// Second base corner: base midpoint minus the offset.
    pub open spec fn corner2_spec(self) -> GVec3 {
        sub_v(self.base_midpt@, self.offset_spec())
    }

    /// The front-face normal: the mix a quarter turn ahead of the spin,
    /// so it co-rotates with the triangle exactly in phase.
    pub open spec fn normal_spec(self) -> GVec3 {
        mix_fp_v(self.base_unit_i@, self.base_unit_j@, -(self.spin.s as int), self.spin.c as int)
    }

    /// Build a triangle from its shape parameters, initially unrotated.
    pub fn new(tip: Vec3, base_midpt: Vec3, base_radius: i64, base_unit_i: Vec3, base_unit_j: Vec3)
        -> (r: Triangle)
        requires
            tip.in_range(),
            base_midpt.in_range(),
            0 < base_radius <= MAX_COORD,
            base_unit_i.in_range(),
            base_unit_j.in_range(),
        ensures
            r.tip == tip,
            r.base_midpt == base_midpt,
            r.base_radius == base_radius,
            r.base_unit_i == base_unit_i,
            r.base_unit_j == base_unit_j,
            r.spin == (Rotor { c: ONE, s: 0i64 }),
            r.wf(),
    {
        Triangle {
            tip,
            base_midpt,
            base_radius,
            base_unit_i,
            base_unit_j,
            spin: Rotor::identity(),
        }
    }

    /// Overwrite the spin angle, leaving the shape untouched; the driver
    /// does this once per frame before querying the geometry.
    pub fn set_spin(&mut self, rot: Rotor)
        requires
            old(self).wf(),
            rot.wf(),
        ensures
            final(self).spin == rot,
            final(self).tip == old(self).tip,
            final(self).base_midpt == old(self).base_midpt,
            final(self).base_radius == old(self).base_radius,
            final(self).base_unit_i == old(self).base_unit_i,
            final(self).base_unit_j == old(self).base_unit_j,
            final(self).wf(),
    {
        self.spin = rot;
    }

    /// The positions of the triangle's three corners at the current
    /// spin: the tip itself, then the two base corners, in clockwise
    /// order as seen from the front.  The tip is always returned
    /// unchanged as the first element, whatever the spin.
    pub fn corners(&self) -> (r: [Vec3; 3])
        requires
            self.wf(),
        ensures
            r[0] == self.tip,
            r[1]@ == self.corner1_spec(),
            r[2]@ == self.corner2_spec(),
            bounded(r[1]@, MAX_COORD + 2 * (MAX_COORD as int) * (MAX_COORD as int) / (ONE as int)),
            bounded(r[2]@, MAX_COORD + 2 * (MAX_COORD as int) * (MAX_COORD as int) / (ONE as int)),
    {
        let unit_towards_corner = mix_by_angle(&self.base_unit_i, &self.base_unit_j, self.spin);
        proof {
            lemma_mul_bound(
                unit_towards_corner@.x,
                self.base_radius as int,
                2 * MAX_COORD as int,
                MAX_COORD as int,
            );
            lemma_mul_bound(
                unit_towards_corner@.y,
                self.base_radius as int,
                2 * MAX_COORD as int,
                MAX_COORD as int,
            );
            lemma_mul_bound(
                unit_towards_corner@.z,
                self.base_radius as int,
                2 * MAX_COORD as int,
                MAX_COORD as int,
            );
            lemma_tdiv_bound(
                unit_towards_corner@.x * self.base_radius,
                ONE as int,
                2 * (MAX_COORD as int) * (MAX_COORD as int) / (ONE as int),
            );
            lemma_tdiv_bound(
                unit_towards_corner@.y * self.base_radius,
                ONE as int,
                2 * (MAX_COORD as int) * (MAX_COORD as int) / (ONE as int),
            );
            lemma_tdiv_bound(
                unit_towards_corner@.z * self.base_radius,
                ONE as int,
                2 * (MAX_COORD as int) * (MAX_COORD as int) / (ONE as int),
            );
        }
        let base_midpt_to_corner = unit_towards_corner.scale(self.base_radius);
        let corner1 = self.base_midpt.add(&base_midpt_to_corner);
        let corner2 = self.base_midpt.subtract(&base_midpt_to_corner);
        [self.tip, corner1, corner2]
    }

    /// The same three corners with the base pair swapped: counter-
    /// clockwise winding as seen from the front, clockwise from behind,
    /// so the triangle can be drawn as two oppositely wound faces.
    pub fn backface_corners(&self) -> (r: [Vec3; 3])
        requires
            self.wf(),
        ensures
            r[0] == self.tip,
            r[1]@ == self.corner2_spec(),
            r[2]@ == self.corner1_spec(),
    {
        let front = self.corners();
        [front[0], front[2], front[1]]
    }

    /// A vector normal to the triangle's front surface at the current
    /// spin: the corner-direction mix advanced by a quarter turn.
    pub fn normal(&self) -> (r: Vec3)
        requires
            self.wf(),
        ensures
            r@ == self.normal_spec(),
            bounded(r@, 2 * MAX_COORD),
    {
        mix_by_angle(&self.base_unit_i, &self.base_unit_j, self.spin.quarter_turn())
    }

    /// The six vertex records of one frame: the three front-face corners
    /// tagged with the front normal, then the three back-face corners
    /// tagged with the negated normal, ready for a triangle-list draw
    /// call with no index buffer.
    pub fn vertices(&self) -> (r: Vec<Vertex>)
        requires
            self.wf(),
        ensures
            r@.len() == 6,
            r@[0].position == self.tip,
            r@[1].position@ == self.corner1_spec(),
            r@[2].position@ == self.corner2_spec(),
            r@[0].normal@ == self.normal_spec(),
            r@[1].normal@ == self.normal_spec(),
            r@[2].normal@ == self.normal_spec(),
            r@[3].position == self.tip,
            r@[4].position@ == self.corner2_spec(),
            r@[5].position@ == self.corner1_spec(),
            r@[3].normal@ == neg_v(self.normal_spec()),
            r@[4].normal@ == neg_v(self.normal_spec()),
            r@[5].normal@ == neg_v(self.normal_spec()),
    {
        let front = self.corners();
        let back = self.backface_corners();
        let n = self.normal();
        let back_n = n.negate();
        let mut out: Vec<Vertex> = Vec::new();
        out.push(Vertex { position: front[0], normal: n });
        out.push(Vertex { position: front[1], normal: n });
        out.push(Vertex { position: front[2], normal: n });
        out.push(Vertex { position: back[0], normal: back_n });
        out.push(Vertex { position: back[1], normal: back_n });
        out.push(Vertex { position: back[2], normal: back_n });
        out
    }
}

/// One per-vertex record of the renderer's attribute layout: a position
/// and the normal of the face it belongs to.
#[derive(Clone, Copy, Debug, PartialEq, Eq, Structural)]
pub struct Vertex {
    /// Corner position.
    pub position: Vec3,
    /// Outward normal of the face this vertex belongs to.
    pub normal: Vec3,
}

/// The base corners keep their distance: at the exact level, the offset
/// from the base midpoint to a corner — the mix of an orthonormal pair
/// scaled by the radius — has squared length
/// `radius^2 * (c^2 + s^2) * |i|^2`.  With `(c, s)` on the scaled unit
/// circle this is the squared radius at the fixed-point scale, whatever
/// the spin.
pub proof fn lemma_corner_offset_length(i: GVec3, j: GVec3, c: int, s: int, radius: int)
    requires
        dot(i, j) == 0,
        norm_sq(i) == norm_sq(j),
    ensures
        norm_sq(scale_v(mix_v(i, j, c, s), radius))
            == radius * radius * ((c * c + s * s) * norm_sq(i)),
{
    lemma_mix_on_circle(i, j, c, s);
    lemma_scale_norm_sq(mix_v(i, j, c, s), radius);
}

/// The normal stays normal: at the exact level, the quarter-turn mix is
/// orthogonal to the base direction (the difference of the two base
/// corners, a multiple of the corner-direction mix), and its squared
/// length is `(c^2 + s^2) * |i|^2` — a unit vector whenever the rotor
/// and the basis are unit.
pub proof fn lemma_normal_orthogonal_to_base(i: GVec3, j: GVec3, c: int, s: int, k: int)
    requires
        dot(i, j) == 0,
        norm_sq(i) == norm_sq(j),
    ensures
        dot(scale_v(mix_v(i, j, c, s), k), mix_v(i, j, -s, c)) == 0,
        norm_sq(mix_v(i, j, -s, c)) == (c * c + s * s) * norm_sq(i),
{
    lemma_mix_quarter_turn_orthogonal(i, j, c, s);
    lemma_scale_dot(mix_v(i, j, c, s), mix_v(i, j, -s, c), k);
    assert(k * 0int == 0) by (nonlinear_arith);
    lemma_mix_on_circle(i, j, -s, c);
    assert((-s) * (-s) == s * s) by (nonlinear_arith);
}

} // verus!
