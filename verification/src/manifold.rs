//! Contacts: finding where two bodies touch, and the impulses and the
//! position correction that resolve the contact.
use crate::body::{ring_next, Circle, Object, Polygon, RigidBody};
use crate::math::{
    added, at_least, difference, exceeds, greater, is_difference, is_greater, is_lesser,
    is_magnitude, is_product, is_root, is_scalar, is_sum, lawful, lesser, magnitude, multiplied,
    negated, precedes, product, quotient, said_at_least, scalar, signs_commute, square_root,
    strictly_ordered, sum, Constants, Rotation, Vector2d,
};
use num_traits::Float;
use vstd::prelude::*;
use vstd::std_specs::cmp::{PartialEqSpec, PartialOrdIs};
use vstd::std_specs::ops::{AddSpec, DivSpec, MulSpec, NegSpec, SubSpec};

verus! {

/// An edge in world space, with its normal.
#[derive(Clone, Copy)]
pub struct Face<T> {
    pub v1: Vector2d<T>,
    pub v2: Vector2d<T>,
    pub normal: Vector2d<T>,
}

/// One contact between two bodies A and B: the unit normal from A to B, the
/// penetration depth, up to two contact points in world space, and the
/// material coefficients mixed from the two bodies.
pub struct Manifold<T> {
    pub penetration: T,
    pub normal: Vector2d<T>,
    pub contacts: Vec<Vector2d<T>>,
    pub mixed_restitution: T,
    pub mixed_dynamic_friction: T,
    pub mixed_static_friction: T,
}

/// The geometry of a contact.
pub struct Touch<T> {
    pub penetration: T,
    pub normal: Vector2d<T>,
    pub contacts: Seq<Vector2d<T>>,
}

impl<T: Float> Manifold<T> {
    /// The manifold `r`, if any, has the geometry `t`, if any.
    pub open spec fn touches(r: Option<Manifold<T>>, t: Option<Touch<T>>) -> bool {
        match (r, t) {
            (None, None) => true,
            (Some(m), Some(t)) => {
                &&& m.penetration == t.penetration
                &&& m.normal == t.normal
                &&& m.contacts@ =~= t.contacts
            },
            _ => false,
        }
    }

    /// The geometry `t` with its normal reversed.
    pub open spec fn mirrored(t: Option<Touch<T>>) -> Option<Touch<T>> {
        match t {
            None => None,
            Some(t) => Some(Touch { normal: t.normal.opposite(), ..t }),
        }
    }

    /// The coefficients of `self` are mixed from those of `a` and `b`: the
    /// restitution is what the scalar type gave as the lesser of the two,
    /// each friction coefficient what it gave as the square root of the
    /// product of the two.
    pub open spec fn mixed(&self, a: Object<T>, b: Object<T>) -> bool {
        &&& is_lesser(a.restitution, b.restitution, self.mixed_restitution)
        &&& lawful::<T>() ==> is_root(
            a.dynamic_friction.mul_spec(b.dynamic_friction),
            self.mixed_dynamic_friction,
        )
        &&& lawful::<T>() ==> is_root(
            a.static_friction.mul_spec(b.static_friction),
            self.mixed_static_friction,
        )
    }

    /// The manifold `r`, if any, has its coefficients mixed from `a` and
    /// `b`.
    pub open spec fn blends(r: Option<Manifold<T>>, a: Object<T>, b: Object<T>) -> bool {
        match r {
            None => true,
            Some(m) => m.mixed(a, b),
        }
    }

    /// The manifold of the given geometry between `a` and `b`.
    fn assemble(
        a: &Object<T>,
        b: &Object<T>,
        penetration: T,
        normal: Vector2d<T>,
        contacts: Vec<Vector2d<T>>,
    ) -> (m: Manifold<T>)
        ensures
            m.penetration == penetration,
            m.normal == normal,
            m.contacts == contacts,
            m.mixed(*a, *b),
    {
        Manifold {
            penetration,
            normal,
            contacts,
            mixed_restitution: lesser(a.restitution, b.restitution),
            mixed_dynamic_friction: square_root(product(a.dynamic_friction, b.dynamic_friction)),
            mixed_static_friction: square_root(product(a.static_friction, b.static_friction)),
        }
    }

    /// The manifold with one contact point.
    fn single(
        a: &Object<T>,
        b: &Object<T>,
        penetration: T,
        normal: Vector2d<T>,
        contact: Vector2d<T>,
    ) -> (m: Manifold<T>)
        ensures
            m.penetration == penetration,
            m.normal == normal,
            m.contacts@ == seq![contact],
            m.mixed(*a, *b),
    {
        let mut contacts: Vec<Vector2d<T>> = Vec::new();
        contacts.push(contact);
        Self::assemble(a, b, penetration, normal, contacts)
    }

    /// The centres are at least the sum of the radii apart:
    /// `|pb - pa|^2 >= (ra + rb)^2`.
    pub open spec fn circles_apart(a: Circle<T>, b: Circle<T>) -> bool {
        let between = b.object.position.minus(a.object.position);
        let reach = a.radius.add_spec(b.radius);
        between.len_square_spec().is_ge(&reach.mul_spec(reach))
    }

    /// The contact of two circles whose centres are `distance` apart. None
    /// where they are apart. Where the centres coincide the normal is
    /// `(1, 0)`, the penetration the radius of A and the contact point the
    /// centre of A. Otherwise the normal is the separation divided by the
    /// distance, the penetration `ra + rb - distance`, and the contact
    /// point `pa + normal * ra`.
    pub open spec fn circle_touch(
        a: Circle<T>,
        b: Circle<T>,
        k: Constants<T>,
        distance: T,
    ) -> Option<Touch<T>> {
        let between = b.object.position.minus(a.object.position);
        let reach = a.radius.add_spec(b.radius);
        if Self::circles_apart(a, b) {
            None
        } else if distance.eq_spec(&k.nothing) {
            Some(
                Touch {
                    penetration: a.radius,
                    normal: Vector2d { x: k.unit, y: k.nothing },
                    contacts: seq![a.object.position],
                },
            )
        } else {
            let normal = between.shrunk(distance);
            Some(
                Touch {
                    penetration: reach.sub_spec(distance),
                    normal,
                    contacts: seq![normal.scaled(a.radius).plus(a.object.position)],
                },
            )
        }
    }

    /// Two circles taken in the other order are apart or not as before; and
    /// where they touch and their centres are `distance` apart, not zero,
    /// they touch to the same depth with the opposite normal. (The contact
    /// point lies on the first circle, so it moves with the order; and about
    /// one centre the normal is `(1, 0)` in either order.)
    pub proof fn lemma_circles_mirror(a: Circle<T>, b: Circle<T>, k: Constants<T>, distance: T)
        requires
            signs_commute::<T>(),
            !distance.eq_spec(&k.nothing),
        ensures
            Self::circles_apart(b, a) == Self::circles_apart(a, b),
            Self::circle_touch(b, a, k, distance) is Some <==> Self::circle_touch(
                a,
                b,
                k,
                distance,
            ) is Some,
            Self::circle_touch(a, b, k, distance) is Some ==> {
                let one = Self::circle_touch(a, b, k, distance).unwrap();
                let other = Self::circle_touch(b, a, k, distance).unwrap();
                &&& other.normal == one.normal.opposite()
                &&& other.penetration == one.penetration
            },
    {
        let there = b.object.position.minus(a.object.position);
        let back = a.object.position.minus(b.object.position);
        assert(back == there.opposite());
        assert(back.len_square_spec() == there.len_square_spec());
        assert(b.radius.add_spec(a.radius) == a.radius.add_spec(b.radius));
        assert(back.shrunk(distance) == there.shrunk(distance).opposite());
    }

    /// `r` is the contact of the circles `a` and `b` for the constants `k`
    /// and the distance `distance`, which is what the scalar type gave as
    /// the length of the separation of the centres where the circles are not
    /// apart.
    pub open spec fn circle_case(
        a: Circle<T>,
        b: Circle<T>,
        k: Constants<T>,
        distance: T,
        r: Option<Manifold<T>>,
    ) -> bool {
        &&& k.genuine()
        &&& !Self::circles_apart(a, b) ==> is_root(
            b.object.position.minus(a.object.position).len_square_spec(),
            distance,
        )
        &&& Self::touches(r, Self::circle_touch(a, b, k, distance))
    }

    /// `r` is what the contact detection of two circles may return.
    pub open spec fn circle_outcome(a: Circle<T>, b: Circle<T>, r: Option<Manifold<T>>) -> bool {
        &&& Self::blends(r, a.object, b.object)
        &&& lawful::<T>() ==> exists|k: Constants<T>, distance: T| #[trigger]
            Self::circle_case(a, b, k, distance, r)
    }

    /// The test of two circles, step by step: the offset of the centres is
    /// `gap` and its squared length `square`, the sum of the radii `reach`
    /// and its square `bound`, each as the scalar type gave it; and `said`
    /// is what it said of `square >= bound`.
    pub open spec fn apart_trace(
        a: Circle<T>,
        b: Circle<T>,
        gap: Vector2d<T>,
        square: T,
        reach: T,
        bound: T,
        said: bool,
    ) -> bool {
        &&& is_difference(b.object.position.x, a.object.position.x, gap.x)
        &&& is_difference(b.object.position.y, a.object.position.y, gap.y)
        &&& gap.squares_to(square)
        &&& is_sum(a.radius, b.radius, reach)
        &&& is_product(reach, reach, bound)
        &&& said_at_least(square, bound, said)
    }

    /// `said` is what the test of two circles may say: true where the
    /// squared distance of the centres is at least the squared sum of the
    /// radii.
    pub open spec fn apart_said(a: Circle<T>, b: Circle<T>, said: bool) -> bool {
        exists|gap: Vector2d<T>, square: T, reach: T, bound: T| #[trigger]
            Self::apart_trace(a, b, gap, square, reach, bound, said)
    }

    /// The contact between two circles, if they overlap: none exactly where
    /// the squared distance of the centres is found to be at least the
    /// squared sum of the radii.
    pub fn circle_to_circle(a: &Circle<T>, b: &Circle<T>) -> (r: Option<Manifold<T>>)
        ensures
            Self::circle_outcome(*a, *b, r),
            exists|said: bool|
                #[trigger] Self::apart_said(*a, *b, said) && (r is None <==> said),
            lawful::<T>() ==> (r is None <==> Self::circles_apart(*a, *b)),
            r is Some ==> r->0.contacts@.len() == 1,
    {
        let k = Constants::<T>::new();
        let between = b.object.position.less(&a.object.position);
        let reach = added(a.radius, b.radius);
        let square = between.len_square();
        let bound = multiplied(reach, reach);
        let said = at_least(square, bound);
        assert(Self::apart_trace(*a, *b, between, square, reach, bound, said));
        assert(Self::apart_said(*a, *b, said));
        if said {
            assert(lawful::<T>() ==> Self::circle_case(*a, *b, k, k.nothing, None));
            return None;
        }
        let distance = between.len();
        let r = if distance == k.nothing {
            Some(
                Self::single(
                    &a.object,
                    &b.object,
                    a.radius,
                    Vector2d::new(k.unit, k.nothing),
                    a.object.position,
                ),
            )
        } else {
            let normal = between.over(distance);
            Some(
                Self::single(
                    &a.object,
                    &b.object,
                    difference(reach, distance),
                    normal,
                    normal.times(a.radius).add_to(&a.object.position),
                ),
            )
        };
        assert(lawful::<T>() ==> Self::circle_case(*a, *b, k, distance, r));
        r
    }

    /// The part of `face` on the inner side of the line `normal . p = c`.
    /// An end is kept where its signed distance `normal . v - c` is not
    /// positive; where the two distances have opposite signs the face is cut
    /// at the line, at `v1 + (v2 - v1) * (d1 / (d1 - d2))`. None unless exactly
    /// two points result.
    pub open spec fn clipped(normal: Vector2d<T>, c: T, face: Face<T>, nothing: T) -> Option<
        Face<T>,
    > {
        let d1 = normal.dot(face.v1).sub_spec(c);
        let d2 = normal.dot(face.v2).sub_spec(c);
        let keep1 = d1.is_le(&nothing);
        let keep2 = d2.is_le(&nothing);
        let crossing = d1.mul_spec(d2).is_lt(&nothing);
        let cut = face.v1.plus(face.v2.minus(face.v1).scaled(d1.div_spec(d1.sub_spec(d2))));
        let blank = Vector2d { x: nothing, y: nothing };
        if keep1 && keep2 && !crossing {
            Some(Face { v1: face.v1, v2: face.v2, normal: blank })
        } else if keep1 && !keep2 && crossing {
            Some(Face { v1: face.v1, v2: cut, normal: blank })
        } else if !keep1 && keep2 && crossing {
            Some(Face { v1: face.v2, v2: cut, normal: blank })
        } else {
            None
        }
    }

    /// Clips `face` against the line `normal . p = c`, with `nothing` as
    /// zero.
    pub fn clip(normal: Vector2d<T>, c: T, face: Face<T>, nothing: T) -> (r: Option<Face<T>>)
        ensures
            lawful::<T>() ==> r == Self::clipped(normal, c, face, nothing),
    {
        let mut out: Vec<Vector2d<T>> = Vec::new();
        let d1 = difference(normal.dot_with(&face.v1), c);
        let d2 = difference(normal.dot_with(&face.v2), c);
        if d1 <= nothing {
            out.push(face.v1);
        }
        if d2 <= nothing {
            out.push(face.v2);
        }
        if product(d1, d2) < nothing {
            out.push(
                face.v1.add_to(&face.v2.less(&face.v1).times(quotient(d1, difference(d1, d2)))),
            );
        }
        if out.len() != 2 {
            None
        } else {
            Some(Face { v1: out[0], v2: out[1], normal: Vector2d::new(nothing, nothing) })
        }
    }

    /// The shift that pushes the two bodies apart: `normal * percent *
    /// (depth / (inverse inertia of A + inverse inertia of B))`, where `depth`
    /// stands for the penetration beyond the slop, or zero.
    pub open spec fn correction(
        &self,
        a: Object<T>,
        b: Object<T>,
        k: Constants<T>,
        depth: T,
    ) -> Vector2d<T> {
        self.normal.scaled(k.percent).scaled(
            depth.div_spec(a.inverse_inertia.add_spec(b.inverse_inertia)),
        )
    }

    /// The two bodies after the shift `by`: A moved back by `by` times its
    /// inverse mass, B moved on by `by` times its own.
    pub open spec fn parted(a: Object<T>, b: Object<T>, by: Vector2d<T>) -> (Object<T>, Object<T>) {
        (
            Object { position: a.position.minus(by.scaled(a.inverse_mass)), ..a },
            Object { position: b.position.plus(by.scaled(b.inverse_mass)), ..b },
        )
    }

    /// `after` is the pair `a`, `b` after the position correction, for the
    /// constants `k` and the depth `depth`: what the scalar type gave as the
    /// greater of `penetration - slop` and zero.
    pub open spec fn corrected(
        &self,
        a: Object<T>,
        b: Object<T>,
        k: Constants<T>,
        depth: T,
        after: (Object<T>, Object<T>),
    ) -> bool {
        &&& k.genuine()
        &&& is_greater(self.penetration.sub_spec(k.slop), k.nothing, depth)
        &&& after == Self::parted(a, b, self.correction(a, b, k, depth))
    }

    /// Moves the two bodies apart along the normal by a share of the
    /// penetration that exceeds the slop.
    pub fn position_correction(&self, object_a: &mut Object<T>, object_b: &mut Object<T>)
        ensures
            lawful::<T>() ==> exists|k: Constants<T>, depth: T| #[trigger]
                self.corrected(
                    *old(object_a),
                    *old(object_b),
                    k,
                    depth,
                    (*final(object_a), *final(object_b)),
                ),
            *final(object_a) == (Object { position: final(object_a).position, ..*old(object_a) }),
            *final(object_b) == (Object { position: final(object_b).position, ..*old(object_b) }),
    {
        let k = Constants::<T>::new();
        let depth = greater(difference(self.penetration, k.slop), k.nothing);
        let by = self.normal.times(k.percent).times(
            quotient(depth, sum(object_a.inverse_inertia, object_b.inverse_inertia)),
        );
        object_a.position = object_a.position.less(&by.times(object_a.inverse_mass));
        object_b.position = object_b.position.add_to(&by.times(object_b.inverse_mass));
        assert(lawful::<T>() ==> self.corrected(
            *old(object_a),
            *old(object_b),
            k,
            depth,
            (*object_a, *object_b),
        ));
    }
}

/// What the contact of a circle and a polygon takes from the scalar type
/// beyond arithmetic: the rotation into the polygon's frame and the one out
/// of it, the distance from the circle's centre to the nearest corner, and
/// the length by which the normal at a corner is divided.
pub struct Sighting<T> {
    pub back: Rotation<T>,
    pub forth: Rotation<T>,
    pub reach: T,
    pub length: T,
}

/// Where the centre of a circle lies by a polygon: beyond one of its faces
/// by more than the radius, or by no polygon at all; inside it; nearest to
/// one of its corners; or nearest to the inside of a face.
pub enum Region<T> {
    Apart,
    Inside { face: int },
    Corner { corner: Vector2d<T>, penetration: T },
    Along { face: int, penetration: T },
}

impl<T: Float> Manifold<T> {
    /// The face of `b` from which `center` (in the polygon's frame) is
    /// farthest out among the first `n`, with that signed distance
    /// `normal . (center - vertex)`; a later face replaces an earlier one
    /// where its distance is strictly greater. None as soon as one distance
    /// exceeds `radius`. With no face seen: face 0 at `floor`.
    pub open spec fn face_scan(
        b: Polygon<T>,
        center: Vector2d<T>,
        radius: T,
        floor: T,
        n: int,
    ) -> Option<(T, int)>
        decreases n,
    {
        if n <= 0 {
            Some((floor, 0))
        } else {
            match Self::face_scan(b, center, radius, floor, n - 1) {
                None => None,
                Some((separation, face)) => {
                    let s = b.normals@[n - 1].dot(center.minus(b.vertices@[n - 1]));
                    if s.is_gt(&radius) {
                        None
                    } else if s.is_gt(&separation) {
                        Some((s, n - 1))
                    } else {
                        Some((separation, face))
                    }
                },
            }
        }
    }

    /// Where the scan of the first `n` faces finds no separating face, no
    /// face among them is farther from the centre than the radius, nor
    /// farther than the face it returns.
    pub proof fn lemma_face_scan_is_farthest(
        b: Polygon<T>,
        center: Vector2d<T>,
        radius: T,
        floor: T,
        n: int,
    )
        requires
            strictly_ordered::<T>(),
            0 <= n <= b.vertices@.len(),
            Self::face_scan(b, center, radius, floor, n) is Some,
        ensures
            forall|i: int|
                0 <= i < n ==> {
                    let s = (#[trigger] b.normals@[i]).dot(center.minus(b.vertices@[i]));
                    &&& !exceeds(s, radius)
                    &&& !exceeds(s, Self::face_scan(b, center, radius, floor, n).unwrap().0)
                },
        decreases n,
    {
        if n > 0 {
            Self::lemma_face_scan_is_farthest(b, center, radius, floor, n - 1);
            let before = Self::face_scan(b, center, radius, floor, n - 1).unwrap();
            let after = Self::face_scan(b, center, radius, floor, n).unwrap();
            let last = b.normals@[n - 1].dot(center.minus(b.vertices@[n - 1]));
            assert forall|i: int| 0 <= i < n implies {
                let s = (#[trigger] b.normals@[i]).dot(center.minus(b.vertices@[i]));
                &&& !exceeds(s, radius)
                &&& !exceeds(s, after.0)
            } by {
                let s = b.normals@[i].dot(center.minus(b.vertices@[i]));
                if exceeds(last, before.0) {
                    if i < n - 1 && exceeds(s, last) {
                        assert(exceeds(s, before.0));
                    }
                }
            }
        }
    }

    /// The result `r` of a face scan stands for the scan's result `s`.
    pub open spec fn scanned(r: Option<(T, usize)>, s: Option<(T, int)>) -> bool {
        match (r, s) {
            (None, None) => true,
            (Some(found), Some(expected)) => found.0 == expected.0 && found.1 == expected.1,
            _ => false,
        }
    }

    /// Scans the faces of `b` for the one nearest to `center`.
    fn nearest_face(b: &Polygon<T>, center: Vector2d<T>, radius: T, floor: T) -> (r: Option<
        (T, usize),
    >)
        requires
            b.wf(),
        ensures
            lawful::<T>() ==> Self::scanned(
                r,
                Self::face_scan(*b, center, radius, floor, b.vertices@.len() as int),
            ),
            r is Some && b.vertices@.len() > 0 ==> r.unwrap().1 < b.vertices@.len(),
    {
        let mut separation = floor;
        let mut face: usize = 0;
        let count = b.vertices.len();
        let mut i: usize = 0;
        while i < count
            invariant
                b.wf(),
                count == b.vertices@.len(),
                i <= count,
                face == 0 || face < i,
                lawful::<T>() ==> Self::face_scan(*b, center, radius, floor, i as int) == Some(
                    (separation, face as int),
                ),
            decreases count - i,
        {
            let s = b.normals[i].dot_with(&center.less(&b.vertices[i]));
            if s > radius {
                proof {
                    if lawful::<T>() {
                        Self::lemma_face_scan_stays_none(
                            *b,
                            center,
                            radius,
                            floor,
                            i + 1,
                            count as int,
                        );
                    }
                }
                return None;
            }
            if s > separation {
                separation = s;
                face = i;
            }
            i += 1;
        }
        Some((separation, face))
    }

    /// Once a face separates, the scan finds no contact however far it goes.
    proof fn lemma_face_scan_stays_none(
        b: Polygon<T>,
        center: Vector2d<T>,
        radius: T,
        floor: T,
        m: int,
        n: int,
    )
        requires
            m <= n,
            Self::face_scan(b, center, radius, floor, m) is None,
        ensures
            Self::face_scan(b, center, radius, floor, n) is None,
        decreases n - m,
    {
        if m < n {
            Self::lemma_face_scan_stays_none(b, center, radius, floor, m, n - 1);
        }
    }

    /// The centre of the circle `a` in the frame of the polygon `b`.
    pub open spec fn center_in(a: Circle<T>, b: Polygon<T>, u: Sighting<T>) -> Vector2d<T> {
        a.object.position.minus(b.object.position).turned(u.back.cos, u.back.sin)
    }

    /// Where the centre of the circle `a` lies by the polygon `b`. The faces
    /// are scanned; a face farther from the centre than the radius means
    /// that the two are apart. Where the greatest distance is below the
    /// margin the centre is inside. Otherwise the centre is nearest to one
    /// end of the face or to its inside, by the sign of its projections on
    /// the edge, and the penetration is `radius - distance`.
    pub open spec fn region(
        a: Circle<T>,
        b: Polygon<T>,
        k: Constants<T>,
        u: Sighting<T>,
    ) -> Region<T> {
        let n = b.vertices@.len() as int;
        let center = Self::center_in(a, b, u);
        if n == 0 {
            Region::Apart
        } else {
            match Self::face_scan(b, center, a.radius, k.floor, n) {
                None => Region::Apart,
                Some((separation, face)) => {
                    if separation.is_lt(&k.margin) {
                        Region::Inside { face }
                    } else {
                        let v1 = b.vertices@[face];
                        let v2 = b.vertices@[ring_next(face, n)];
                        let dot1 = center.minus(v1).dot(v2.minus(v1));
                        let dot2 = center.minus(v2).dot(v1.minus(v2));
                        let penetration = a.radius.sub_spec(separation);
                        if dot1.is_le(&k.nothing) {
                            Region::Corner { corner: v1, penetration }
                        } else if dot2.is_le(&k.nothing) {
                            Region::Corner { corner: v2, penetration }
                        } else {
                            Region::Along { face, penetration }
                        }
                    }
                },
            }
        }
    }

    /// The contact at the corner `v` of `b`: none where the centre is
    /// farther from it than the radius; else the normal points from the
    /// centre to the corner, and the contact point is the corner.
    pub open spec fn corner_touch(
        a: Circle<T>,
        b: Polygon<T>,
        center: Vector2d<T>,
        v: Vector2d<T>,
        penetration: T,
        u: Sighting<T>,
    ) -> Option<Touch<T>> {
        if u.reach.is_gt(&a.radius) {
            None
        } else {
            Some(
                Touch {
                    penetration,
                    normal: v.minus(center).turned(u.forth.cos, u.forth.sin).shrunk(u.length),
                    contacts: seq![v.turned(u.forth.cos, u.forth.sin).plus(b.object.position)],
                },
            )
        }
    }

    /// At the corner `v`, `u.reach` is what the scalar type gave as the
    /// distance from the centre to the corner; and where that is within the
    /// radius, `u.length` is what it gave as the length of the offset from
    /// the centre to the corner, turned out of the polygon's frame.
    pub open spec fn corner_vouched(
        a: Circle<T>,
        center: Vector2d<T>,
        v: Vector2d<T>,
        u: Sighting<T>,
    ) -> bool {
        &&& is_root(center.minus(v).len_square_spec(), u.reach)
        &&& !u.reach.is_gt(&a.radius) ==> is_root(
            v.minus(center).turned(u.forth.cos, u.forth.sin).len_square_spec(),
            u.length,
        )
    }

    /// The contact of the circle `a` with the polygon `b`. Inside the
    /// polygon the normal is the reversed face normal and the penetration
    /// the radius; along a face the normal is the reversed face normal; in
    /// both the contact point is the point of the circle farthest along the
    /// normal.
    pub open spec fn circle_polygon_touch(
        a: Circle<T>,
        b: Polygon<T>,
        k: Constants<T>,
        u: Sighting<T>,
    ) -> Option<Touch<T>> {
        match Self::region(a, b, k, u) {
            Region::Apart => None,
            Region::Inside { face } => {
                let normal = b.normals@[face].opposite().turned(u.forth.cos, u.forth.sin);
                Some(
                    Touch {
                        penetration: a.radius,
                        normal,
                        contacts: seq![normal.scaled(a.radius).plus(a.object.position)],
                    },
                )
            },
            Region::Corner { corner, penetration } => Self::corner_touch(
                a,
                b,
                Self::center_in(a, b, u),
                corner,
                penetration,
                u,
            ),
            Region::Along { face, penetration } => {
                let normal = b.normals@[face].turned(u.forth.cos, u.forth.sin).opposite();
                Some(
                    Touch {
                        penetration,
                        normal,
                        contacts: seq![normal.scaled(a.radius).plus(a.object.position)],
                    },
                )
            },
        }
    }

    /// The scalars of `u` are what the scalar type gave: the rotations for
    /// the polygon's orientation and its opposite, and at a corner the two
    /// lengths.
    pub open spec fn circle_polygon_vouched(
        a: Circle<T>,
        b: Polygon<T>,
        k: Constants<T>,
        u: Sighting<T>,
    ) -> bool {
        &&& k.genuine()
        &&& u.back.is_of(b.object.orient.neg_spec())
        &&& u.forth.is_of(b.object.orient)
        &&& match Self::region(a, b, k, u) {
            Region::Corner { corner, penetration } => Self::corner_vouched(
                a,
                Self::center_in(a, b, u),
                corner,
                u,
            ),
            _ => true,
        }
    }

    /// `r` is what the contact detection of a circle and a polygon may
    /// return.
    pub open spec fn circle_polygon_outcome(
        a: Circle<T>,
        b: Polygon<T>,
        r: Option<Manifold<T>>,
    ) -> bool {
        &&& Self::blends(r, a.object, b.object)
        &&& lawful::<T>() ==> exists|k: Constants<T>, u: Sighting<T>|
            Self::circle_polygon_vouched(a, b, k, u) && #[trigger] Self::touches(
                r,
                Self::circle_polygon_touch(a, b, k, u),
            )
    }

    /// The contact at a corner of the polygon.
    fn corner(
        a: &Circle<T>,
        b: &Polygon<T>,
        center: Vector2d<T>,
        v: Vector2d<T>,
        penetration: T,
        back: Rotation<T>,
        forth: Rotation<T>,
    ) -> (r: Option<Manifold<T>>)
        ensures
            Self::blends(r, a.object, b.object),
            lawful::<T>() ==> exists|reach: T, length: T|
                Self::corner_vouched(*a, center, v, Sighting { back, forth, reach, length })
                    && #[trigger] Self::touches(
                    r,
                    Self::corner_touch(
                        *a,
                        *b,
                        center,
                        v,
                        penetration,
                        Sighting { back, forth, reach, length },
                    ),
                ),
            r is Some ==> r->0.contacts@.len() == 1,
    {
        let reach = center.less(&v).len();
        if reach > a.radius {
            proof {
                let u = Sighting { back, forth, reach, length: reach };
                assert(lawful::<T>() ==> Self::corner_vouched(*a, center, v, u) && Self::touches(
                    None,
                    Self::corner_touch(*a, *b, center, v, penetration, u),
                ));
            }
            return None;
        }
        let outward = v.less(&center).rotated(&forth);
        let length = outward.len();
        let normal = outward.over(length);
        let contact = v.rotated(&forth).add_to(&b.object.position);
        let r = Some(Self::single(&a.object, &b.object, penetration, normal, contact));
        proof {
            let u = Sighting { back, forth, reach, length };
            assert(lawful::<T>() ==> Self::corner_vouched(*a, center, v, u) && Self::touches(
                r,
                Self::corner_touch(*a, *b, center, v, penetration, u),
            ));
        }
        r
    }

    /// The contact between a circle and a polygon, if they overlap. A
    /// polygon without vertices touches nothing.
    pub fn circle_to_polygon(a: &Circle<T>, b: &Polygon<T>) -> (r: Option<Manifold<T>>)
        requires
            b.wf(),
        ensures
            Self::circle_polygon_outcome(*a, *b, r),
            r is Some ==> r->0.contacts@.len() == 1,
    {
        let k = Constants::<T>::new();
        let back = Rotation::back(b.object.orient);
        let forth = Rotation::of(b.object.orient);
        let ghost plain = Sighting { back, forth, reach: k.nothing, length: k.nothing };
        let count = b.vertices.len();
        if count == 0 {
            assert(lawful::<T>() ==> Self::circle_polygon_vouched(*a, *b, k, plain)
                && Self::touches(None, Self::circle_polygon_touch(*a, *b, k, plain)));
            return None;
        }
        let center = a.object.position.less(&b.object.position).rotated(&back);
        let (separation, face) = match Self::nearest_face(b, center, a.radius, k.floor) {
            None => {
                assert(lawful::<T>() ==> Self::circle_polygon_vouched(*a, *b, k, plain)
                    && Self::touches(None, Self::circle_polygon_touch(*a, *b, k, plain)));
                return None;
            },
            Some(found) => found,
        };
        if separation < k.margin {
            let normal = b.normals[face].reversed().rotated(&forth);
            let contact = normal.times(a.radius).add_to(&a.object.position);
            let r = Some(Self::single(&a.object, &b.object, a.radius, normal, contact));
            assert(lawful::<T>() ==> Self::circle_polygon_vouched(*a, *b, k, plain)
                && Self::touches(r, Self::circle_polygon_touch(*a, *b, k, plain)));
            return r;
        }
        let v1 = b.vertices[face];
        let i2 = if face + 1 < count {
            face + 1
        } else {
            0
        };
        let v2 = b.vertices[i2];
        let dot1 = center.less(&v1).dot_with(&v2.less(&v1));
        let dot2 = center.less(&v2).dot_with(&v1.less(&v2));
        let penetration = difference(a.radius, separation);
        if dot1 <= k.nothing {
            let r = Self::corner(a, b, center, v1, penetration, back, forth);
            proof {
                if lawful::<T>() {
                    let (reach, length) = choose|reach: T, length: T|
                        Self::corner_vouched(
                            *a,
                            center,
                            v1,
                            Sighting { back, forth, reach, length },
                        ) && #[trigger] Self::touches(
                            r,
                            Self::corner_touch(
                                *a,
                                *b,
                                center,
                                v1,
                                penetration,
                                Sighting { back, forth, reach, length },
                            ),
                        );
                    let u = Sighting { back, forth, reach, length };
                    assert(Self::region(*a, *b, k, u) == (Region::Corner {
                        corner: v1,
                        penetration,
                    }));
                    assert(Self::circle_polygon_vouched(*a, *b, k, u) && Self::touches(
                        r,
                        Self::circle_polygon_touch(*a, *b, k, u),
                    ));
                }
            }
            r
        } else if dot2 <= k.nothing {
            let r = Self::corner(a, b, center, v2, penetration, back, forth);
            proof {
                if lawful::<T>() {
                    let (reach, length) = choose|reach: T, length: T|
                        Self::corner_vouched(
                            *a,
                            center,
                            v2,
                            Sighting { back, forth, reach, length },
                        ) && #[trigger] Self::touches(
                            r,
                            Self::corner_touch(
                                *a,
                                *b,
                                center,
                                v2,
                                penetration,
                                Sighting { back, forth, reach, length },
                            ),
                        );
                    let u = Sighting { back, forth, reach, length };
                    assert(Self::region(*a, *b, k, u) == (Region::Corner {
                        corner: v2,
                        penetration,
                    }));
                    assert(Self::circle_polygon_vouched(*a, *b, k, u) && Self::touches(
                        r,
                        Self::circle_polygon_touch(*a, *b, k, u),
                    ));
                }
            }
            r
        } else {
            let normal = b.normals[face].rotated(&forth).reversed();
            let contact = normal.times(a.radius).add_to(&a.object.position);
            let r = Some(Self::single(&a.object, &b.object, penetration, normal, contact));
            assert(lawful::<T>() ==> Self::circle_polygon_vouched(*a, *b, k, plain)
                && Self::touches(r, Self::circle_polygon_touch(*a, *b, k, plain)));
            r
        }
    }

    /// `r` is what the contact detection of a polygon and a circle may
    /// return: a contact of the circle with the polygon, its normal
    /// reversed.
    pub open spec fn polygon_circle_outcome(
        a: Polygon<T>,
        b: Circle<T>,
        r: Option<Manifold<T>>,
    ) -> bool {
        &&& Self::blends(r, b.object, a.object)
        &&& lawful::<T>() ==> exists|k: Constants<T>, u: Sighting<T>|
            Self::circle_polygon_vouched(b, a, k, u) && #[trigger] Self::touches(
                r,
                Self::mirrored(Self::circle_polygon_touch(b, a, k, u)),
            )
    }

    /// The contact between a polygon and a circle: that of the circle with
    /// the polygon, with the normal reversed so that it points from the
    /// polygon to the circle.
    pub fn polygon_to_circle(a: &Polygon<T>, b: &Circle<T>) -> (r: Option<Manifold<T>>)
        requires
            a.wf(),
        ensures
            Self::polygon_circle_outcome(*a, *b, r),
            r is Some ==> r->0.contacts@.len() == 1,
    {
        match Self::circle_to_polygon(b, a) {
            None => {
                proof {
                    if lawful::<T>() {
                        let (k, u) = choose|k: Constants<T>, u: Sighting<T>|
                            Self::circle_polygon_vouched(*b, *a, k, u) && #[trigger] Self::touches(
                                None,
                                Self::circle_polygon_touch(*b, *a, k, u),
                            );
                        assert(Self::touches(
                            None,
                            Self::mirrored(Self::circle_polygon_touch(*b, *a, k, u)),
                        ));
                    }
                }
                None
            },
            Some(m) => {
                let ghost found = Some(m);
                let normal = m.normal.reversed();
                let r = Some(
                    Manifold {
                        penetration: m.penetration,
                        normal,
                        contacts: m.contacts,
                        mixed_restitution: m.mixed_restitution,
                        mixed_dynamic_friction: m.mixed_dynamic_friction,
                        mixed_static_friction: m.mixed_static_friction,
                    },
                );
                proof {
                    if lawful::<T>() {
                        let (k, u) = choose|k: Constants<T>, u: Sighting<T>|
                            Self::circle_polygon_vouched(*b, *a, k, u) && #[trigger] Self::touches(
                                found,
                                Self::circle_polygon_touch(*b, *a, k, u),
                            );
                        assert(Self::touches(
                            r,
                            Self::mirrored(Self::circle_polygon_touch(*b, *a, k, u)),
                        ));
                    }
                }
                r
            },
        }
    }
}

/// What the contact of two polygons takes from the scalar type beyond
/// arithmetic: for each polygon the rotation out of its frame (`rot`) and
/// the one into it (`back`), the length by which the reference edge is
/// divided, and the number of contact points as a scalar.
pub struct Bearing<T> {
    pub rot_a: Rotation<T>,
    pub back_a: Rotation<T>,
    pub rot_b: Rotation<T>,
    pub back_b: Rotation<T>,
    pub length: T,
    pub count: T,
}

/// Which of two polygons gives the reference face of their contact, and
/// which of its faces that is; or that they are apart.
pub enum Reference {
    Apart,
    First { face: int },
    Second { face: int },
}

impl<T: Float> Manifold<T> {
    /// The separation of `b` from face `i` of `a`: the face normal, taken
    /// into the frame of `b`, dotted with the offset from the face's vertex
    /// to the support point of `b` against the normal.
    pub open spec fn face_separation(
        a: Polygon<T>,
        b: Polygon<T>,
        rot_a: Rotation<T>,
        back_b: Rotation<T>,
        k: Constants<T>,
        i: int,
    ) -> T {
        let normal = a.normals@[i].turned(rot_a.cos, rot_a.sin).turned(back_b.cos, back_b.sin);
        let support = Polygon::support_scan(
            b.vertices@,
            normal.opposite(),
            Vector2d { x: k.nothing, y: k.nothing },
            k.floor,
            b.vertices@.len() as int,
        ).0;
        let v = a.vertices@[i].turned(rot_a.cos, rot_a.sin).plus(a.object.position).minus(
            b.object.position,
        ).turned(back_b.cos, back_b.sin);
        normal.dot(support.minus(v))
    }

    /// The greatest separation among the first `n` faces of `a`, with its
    /// face; a later face replaces an earlier one where its separation is
    /// strictly greater. With no face seen: face 0 at the floor.
    pub open spec fn axis_scan(
        a: Polygon<T>,
        b: Polygon<T>,
        rot_a: Rotation<T>,
        back_b: Rotation<T>,
        k: Constants<T>,
        n: int,
    ) -> (T, int)
        decreases n,
    {
        if n <= 0 {
            (k.floor, 0)
        } else {
            let before = Self::axis_scan(a, b, rot_a, back_b, k, n - 1);
            let d = Self::face_separation(a, b, rot_a, back_b, k, n - 1);
            if d.is_gt(&before.0) {
                (d, n - 1)
            } else {
                before
            }
        }
    }

    /// No face among the first `n` has a greater separation than the one the
    /// axis scan returns.
    pub proof fn lemma_axis_scan_is_greatest(
        a: Polygon<T>,
        b: Polygon<T>,
        rot_a: Rotation<T>,
        back_b: Rotation<T>,
        k: Constants<T>,
        n: int,
    )
        requires
            strictly_ordered::<T>(),
            0 <= n,
        ensures
            forall|i: int|
                0 <= i < n ==> !exceeds(
                    #[trigger] Self::face_separation(a, b, rot_a, back_b, k, i),
                    Self::axis_scan(a, b, rot_a, back_b, k, n).0,
                ),
            0 <= Self::axis_scan(a, b, rot_a, back_b, k, n).1,
            n > 0 ==> Self::axis_scan(a, b, rot_a, back_b, k, n).1 < n,
        decreases n,
    {
        if n > 0 {
            Self::lemma_axis_scan_is_greatest(a, b, rot_a, back_b, k, n - 1);
            let before = Self::axis_scan(a, b, rot_a, back_b, k, n - 1);
            let after = Self::axis_scan(a, b, rot_a, back_b, k, n);
            let last = Self::face_separation(a, b, rot_a, back_b, k, n - 1);
            assert forall|i: int| 0 <= i < n implies !exceeds(
                #[trigger] Self::face_separation(a, b, rot_a, back_b, k, i),
                after.0,
            ) by {
                let d = Self::face_separation(a, b, rot_a, back_b, k, i);
                if exceeds(last, before.0) {
                    if i < n - 1 && exceeds(d, last) {
                        assert(exceeds(d, before.0));
                    }
                }
            }
        }
    }

    /// The face of `a` from which `b` is least deep, and that separation.
    pub fn find_axis_least_penetration(
        a: &Polygon<T>,
        b: &Polygon<T>,
        rot_a: Rotation<T>,
        back_b: Rotation<T>,
        k: Constants<T>,
    ) -> (r: (usize, T))
        requires
            a.wf(),
        ensures
            lawful::<T>() ==> (r.1, r.0 as int) == Self::axis_scan(
                *a,
                *b,
                rot_a,
                back_b,
                k,
                a.vertices@.len() as int,
            ),
            a.vertices@.len() > 0 ==> r.0 < a.vertices@.len(),
    {
        let mut best_distance = k.floor;
        let mut face_index: usize = 0;
        let origin = Vector2d::new(k.nothing, k.nothing);
        let count = a.vertices.len();
        let mut i: usize = 0;
        while i < count
            invariant
                a.wf(),
                count == a.vertices@.len(),
                i <= count,
                face_index == 0 || face_index < i,
                origin == (Vector2d { x: k.nothing, y: k.nothing }),
                lawful::<T>() ==> (best_distance, face_index as int) == Self::axis_scan(
                    *a,
                    *b,
                    rot_a,
                    back_b,
                    k,
                    i as int,
                ),
            decreases count - i,
        {
            let n = a.normals[i].rotated(&rot_a).rotated(&back_b);
            let s = b.support_from(n.reversed(), origin, k.floor).0;
            let v = a.vertices[i].rotated(&rot_a).add_to(&a.object.position).less(
                &b.object.position,
            ).rotated(&back_b);
            let d = n.dot_with(&s.less(&v));
            assert(lawful::<T>() ==> d == Self::face_separation(
                *a,
                *b,
                rot_a,
                back_b,
                k,
                i as int,
            ));
            if d > best_distance {
                best_distance = d;
                face_index = i;
            }
            i += 1;
        }
        (face_index, best_distance)
    }

    /// The least dot product of `toward` with the first `n` normals of
    /// `incident`, with its face; a later face replaces an earlier one where
    /// its dot product is strictly less. With no face seen: face 0 at the
    /// ceiling.
    pub open spec fn incident_scan(
        incident: Polygon<T>,
        toward: Vector2d<T>,
        ceiling: T,
        n: int,
    ) -> (T, int)
        decreases n,
    {
        if n <= 0 {
            (ceiling, 0)
        } else {
            let before = Self::incident_scan(incident, toward, ceiling, n - 1);
            let dot = toward.dot(incident.normals@[n - 1]);
            if dot.is_lt(&before.0) {
                (dot, n - 1)
            } else {
                before
            }
        }
    }

    /// No normal among the first `n` has a lesser dot product with `toward`
    /// than the one the incident scan returns.
    pub proof fn lemma_incident_scan_is_least(
        incident: Polygon<T>,
        toward: Vector2d<T>,
        ceiling: T,
        n: int,
    )
        requires
            strictly_ordered::<T>(),
            0 <= n <= incident.normals@.len(),
        ensures
            forall|i: int|
                0 <= i < n ==> !precedes(
                    toward.dot(#[trigger] incident.normals@[i]),
                    Self::incident_scan(incident, toward, ceiling, n).0,
                ),
        decreases n,
    {
        if n > 0 {
            Self::lemma_incident_scan_is_least(incident, toward, ceiling, n - 1);
            let before = Self::incident_scan(incident, toward, ceiling, n - 1);
            let after = Self::incident_scan(incident, toward, ceiling, n);
            let last = toward.dot(incident.normals@[n - 1]);
            assert forall|i: int| 0 <= i < n implies !precedes(
                toward.dot(#[trigger] incident.normals@[i]),
                after.0,
            ) by {
                let d = toward.dot(incident.normals@[i]);
                if precedes(last, before.0) {
                    if i < n - 1 && precedes(d, last) {
                        assert(precedes(d, before.0));
                    }
                }
            }
        }
    }

    /// The face of `incident` whose normal is most opposed to `toward` (a
    /// direction in the incident polygon's frame), in world space.
    pub open spec fn incident_face(
        incident: Polygon<T>,
        toward: Vector2d<T>,
        rot_inc: Rotation<T>,
        k: Constants<T>,
    ) -> Face<T> {
        let n = incident.vertices@.len() as int;
        let i = Self::incident_scan(incident, toward, k.ceiling, n).1;
        Face {
            v1: incident.vertices@[i].turned(rot_inc.cos, rot_inc.sin).plus(
                incident.object.position,
            ),
            v2: incident.vertices@[ring_next(i, n)].turned(
                rot_inc.cos,
                rot_inc.sin,
            ).plus(incident.object.position),
            normal: incident.normals@[i].turned(rot_inc.cos, rot_inc.sin),
        }
    }

    /// The face of `incident` that faces the reference face: the one whose
    /// normal is most opposed to `toward`, the reference normal in the
    /// incident polygon's frame.
    pub fn find_incident_face(
        incident: &Polygon<T>,
        toward: Vector2d<T>,
        rot_inc: Rotation<T>,
        k: Constants<T>,
    ) -> (r: Face<T>)
        requires
            incident.wf(),
            incident.vertices@.len() > 0,
        ensures
            lawful::<T>() ==> r == Self::incident_face(*incident, toward, rot_inc, k),
    {
        let mut inc_face_index: usize = 0;
        let mut min_dot = k.ceiling;
        let count = incident.normals.len();
        let mut i: usize = 0;
        while i < count
            invariant
                incident.wf(),
                count == incident.vertices@.len(),
                i <= count,
                inc_face_index == 0 || inc_face_index < i,
                lawful::<T>() ==> (min_dot, inc_face_index as int) == Self::incident_scan(
                    *incident,
                    toward,
                    k.ceiling,
                    i as int,
                ),
            decreases count - i,
        {
            let dot = toward.dot_with(&incident.normals[i]);
            if dot < min_dot {
                min_dot = dot;
                inc_face_index = i;
            }
            i += 1;
        }
        let v1 = incident.vertices[inc_face_index].rotated(&rot_inc).add_to(
            &incident.object.position,
        );
        let inc_face_index2 = if inc_face_index + 1 < count {
            inc_face_index + 1
        } else {
            0
        };
        let v2 = incident.vertices[inc_face_index2].rotated(&rot_inc).add_to(
            &incident.object.position,
        );
        Face { v1, v2, normal: incident.normals[inc_face_index].rotated(&rot_inc) }
    }

    /// The reference face in world space: its two ends.
    pub open spec fn reference_edge(
        reference: Polygon<T>,
        face: int,
        rot_ref: Rotation<T>,
    ) -> (Vector2d<T>, Vector2d<T>) {
        let n = reference.vertices@.len() as int;
        (
            reference.vertices@[face].turned(rot_ref.cos, rot_ref.sin).plus(
                reference.object.position,
            ),
            reference.vertices@[ring_next(face, n)].turned(rot_ref.cos, rot_ref.sin).plus(
                reference.object.position,
            ),
        )
    }

    /// The contact on face `face` of the polygon `reference`. The incident
    /// face is clipped to the two ends of the reference face; fewer than two
    /// points after either clip means no contact. The contact points are the
    /// clipped points behind the reference face, and there is no contact
    /// where neither is. The penetration is the sum of their depths divided
    /// by `count`, the normal the reference face's, reversed where `flip`
    /// says that the reference is body B.
    pub open spec fn reference_touch(
        reference: Polygon<T>,
        incident: Polygon<T>,
        face: int,
        rot_ref: Rotation<T>,
        back_inc: Rotation<T>,
        rot_inc: Rotation<T>,
        flip: bool,
        k: Constants<T>,
        length: T,
        count: T,
    ) -> Option<Touch<T>> {
        let toward = reference.normals@[face].turned(rot_ref.cos, rot_ref.sin).turned(
            back_inc.cos,
            back_inc.sin,
        );
        let inc_face = Self::incident_face(incident, toward, rot_inc, k);
        let (v1, v2) = Self::reference_edge(reference, face, rot_ref);
        let side = v2.minus(v1).shrunk(length);
        let front = side.perp();
        let ref_c = front.dot(v1);
        match Self::clipped(side.opposite(), side.opposite().dot(v1), inc_face, k.nothing) {
            None => None,
            Some(once) => match Self::clipped(side, side.dot(v2), once, k.nothing) {
                None => None,
                Some(twice) => {
                    let s1 = front.dot(twice.v1).sub_spec(ref_c);
                    let s2 = front.dot(twice.v2).sub_spec(ref_c);
                    let behind1 = s1.is_le(&k.nothing);
                    let behind2 = s2.is_le(&k.nothing);
                    let depth1 = if behind1 {
                        s1.neg_spec()
                    } else {
                        k.nothing
                    };
                    let depth2 = if behind2 {
                        depth1.add_spec(s2.neg_spec())
                    } else {
                        depth1
                    };
                    if !behind1 && !behind2 {
                        None
                    } else {
                        Some(
                            Touch {
                                penetration: depth2.div_spec(count),
                                normal: if flip {
                                    front.opposite()
                                } else {
                                    front
                                },
                                contacts: (if behind1 {
                                    seq![twice.v1]
                                } else {
                                    Seq::empty()
                                }) + (if behind2 {
                                    seq![twice.v2]
                                } else {
                                    Seq::empty()
                                }),
                            },
                        )
                    }
                },
            },
        }
    }

    /// `length` is what the scalar type gave as the length of the reference
    /// edge; and where there is a contact, `count` is what it gave for the
    /// number of contact points.
    pub open spec fn reference_vouched(
        reference: Polygon<T>,
        incident: Polygon<T>,
        face: int,
        rot_ref: Rotation<T>,
        back_inc: Rotation<T>,
        rot_inc: Rotation<T>,
        flip: bool,
        k: Constants<T>,
        length: T,
        count: T,
    ) -> bool {
        let (v1, v2) = Self::reference_edge(reference, face, rot_ref);
        &&& is_root(v2.minus(v1).len_square_spec(), length)
        &&& match Self::reference_touch(
            reference,
            incident,
            face,
            rot_ref,
            back_inc,
            rot_inc,
            flip,
            k,
            length,
            count,
        ) {
            None => true,
            Some(t) => is_scalar(t.contacts.len() as i64, count),
        }
    }

    /// Which polygon gives the reference face. The polygons are apart where
    /// either has no vertex, or where the least penetration seen from either
    /// is not negative. Else it is the polygon seen from which the other is
    /// less deep, `a` on a tie.
    pub open spec fn reference(
        a: Polygon<T>,
        b: Polygon<T>,
        k: Constants<T>,
        u: Bearing<T>,
    ) -> Reference {
        let na = a.vertices@.len() as int;
        let nb = b.vertices@.len() as int;
        if na == 0 || nb == 0 {
            Reference::Apart
        } else {
            let from_a = Self::axis_scan(a, b, u.rot_a, u.back_b, k, na);
            if from_a.0.is_ge(&k.nothing) {
                Reference::Apart
            } else {
                let from_b = Self::axis_scan(b, a, u.rot_b, u.back_a, k, nb);
                if from_b.0.is_ge(&k.nothing) {
                    Reference::Apart
                } else if from_a.0.is_ge(&from_b.0) {
                    Reference::First { face: from_a.1 }
                } else {
                    Reference::Second { face: from_b.1 }
                }
            }
        }
    }

    /// The contact of the polygons `a` and `b`, by separating axes and
    /// clipping.
    pub open spec fn polygon_touch(
        a: Polygon<T>,
        b: Polygon<T>,
        k: Constants<T>,
        u: Bearing<T>,
    ) -> Option<Touch<T>> {
        match Self::reference(a, b, k, u) {
            Reference::Apart => None,
            Reference::First { face } => Self::reference_touch(
                a,
                b,
                face,
                u.rot_a,
                u.back_b,
                u.rot_b,
                false,
                k,
                u.length,
                u.count,
            ),
            Reference::Second { face } => Self::reference_touch(
                b,
                a,
                face,
                u.rot_b,
                u.back_a,
                u.rot_a,
                true,
                k,
                u.length,
                u.count,
            ),
        }
    }

    /// The scalars of `u` are what the scalar type gave: the rotations for
    /// the two orientations and their opposites, and, where a reference face
    /// is found, the length of its edge and the number of contact points.
    pub open spec fn polygon_vouched(
        a: Polygon<T>,
        b: Polygon<T>,
        k: Constants<T>,
        u: Bearing<T>,
    ) -> bool {
        &&& k.genuine()
        &&& u.rot_a.is_of(a.object.orient)
        &&& u.back_a.is_of(a.object.orient.neg_spec())
        &&& u.rot_b.is_of(b.object.orient)
        &&& u.back_b.is_of(b.object.orient.neg_spec())
        &&& match Self::reference(a, b, k, u) {
            Reference::Apart => true,
            Reference::First { face } => Self::reference_vouched(
                a,
                b,
                face,
                u.rot_a,
                u.back_b,
                u.rot_b,
                false,
                k,
                u.length,
                u.count,
            ),
            Reference::Second { face } => Self::reference_vouched(
                b,
                a,
                face,
                u.rot_b,
                u.back_a,
                u.rot_a,
                true,
                k,
                u.length,
                u.count,
            ),
        }
    }

    /// The scalars of `u` with the two polygons in the other order.
    pub open spec fn swapped(u: Bearing<T>) -> Bearing<T> {
        Bearing {
            rot_a: u.rot_b,
            back_a: u.back_b,
            rot_b: u.rot_a,
            back_b: u.back_a,
            length: u.length,
            count: u.count,
        }
    }

    /// Of the least penetrations seen from `a` and from `b`, exactly one is
    /// at least the other.
    pub open spec fn untied(a: Polygon<T>, b: Polygon<T>, k: Constants<T>, u: Bearing<T>) -> bool {
        let from_a = Self::axis_scan(a, b, u.rot_a, u.back_b, k, a.vertices@.len() as int);
        let from_b = Self::axis_scan(b, a, u.rot_b, u.back_a, k, b.vertices@.len() as int);
        from_a.0.is_ge(&from_b.0) != from_b.0.is_ge(&from_a.0)
    }

    /// Two polygons taken in the other order touch in the same points, to
    /// the same depth, with the opposite normal: of the two contacts one is
    /// the other with its normal reversed. This holds wherever the least
    /// penetrations do not tie; on a tie each order takes its own first
    /// polygon for the reference.
    pub proof fn lemma_polygons_mirror(a: Polygon<T>, b: Polygon<T>, k: Constants<T>, u: Bearing<T>)
        requires
            Self::untied(a, b, k, u),
        ensures
            Self::polygon_vouched(b, a, k, Self::swapped(u)) == Self::polygon_vouched(a, b, k, u),
            Self::polygon_touch(b, a, k, Self::swapped(u)) == Self::mirrored(
                Self::polygon_touch(a, b, k, u),
            ) || Self::polygon_touch(a, b, k, u) == Self::mirrored(
                Self::polygon_touch(b, a, k, Self::swapped(u)),
            ),
    {
        let w = Self::swapped(u);
        let from_a = Self::axis_scan(a, b, u.rot_a, u.back_b, k, a.vertices@.len() as int);
        let from_b = Self::axis_scan(b, a, u.rot_b, u.back_a, k, b.vertices@.len() as int);
        match Self::reference(a, b, k, u) {
            Reference::Apart => {
                assert(Self::reference(b, a, k, w) == Reference::Apart);
            },
            Reference::First { face } => {
                assert(Self::reference(b, a, k, w) == (Reference::Second { face }));
                let one = Self::reference_touch(
                    a,
                    b,
                    face,
                    u.rot_a,
                    u.back_b,
                    u.rot_b,
                    false,
                    k,
                    u.length,
                    u.count,
                );
                let other = Self::reference_touch(
                    a,
                    b,
                    face,
                    u.rot_a,
                    u.back_b,
                    u.rot_b,
                    true,
                    k,
                    u.length,
                    u.count,
                );
                assert(other == Self::mirrored(one));
            },
            Reference::Second { face } => {
                assert(Self::reference(b, a, k, w) == (Reference::First { face }));
                let one = Self::reference_touch(
                    b,
                    a,
                    face,
                    u.rot_b,
                    u.back_a,
                    u.rot_a,
                    false,
                    k,
                    u.length,
                    u.count,
                );
                let other = Self::reference_touch(
                    b,
                    a,
                    face,
                    u.rot_b,
                    u.back_a,
                    u.rot_a,
                    true,
                    k,
                    u.length,
                    u.count,
                );
                assert(other == Self::mirrored(one));
            },
        }
    }

    /// `r` is what the contact detection of two polygons may return.
    pub open spec fn polygon_outcome(a: Polygon<T>, b: Polygon<T>, r: Option<Manifold<T>>) -> bool {
        &&& Self::blends(r, a.object, b.object)
        &&& lawful::<T>() ==> exists|k: Constants<T>, u: Bearing<T>|
            Self::polygon_vouched(a, b, k, u) && #[trigger] Self::touches(
                r,
                Self::polygon_touch(a, b, k, u),
            )
    }

    /// The contact on face `face` of `reference`, for the bodies `a` and `b`
    /// in their order.
    fn reference_contact(
        reference: &Polygon<T>,
        incident: &Polygon<T>,
        a: &Object<T>,
        b: &Object<T>,
        face: usize,
        rot_ref: Rotation<T>,
        back_inc: Rotation<T>,
        rot_inc: Rotation<T>,
        flip: bool,
        k: Constants<T>,
    ) -> (r: Option<Manifold<T>>)
        requires
            reference.wf(),
            incident.wf(),
            face < reference.vertices@.len(),
            incident.vertices@.len() > 0,
        ensures
            Self::blends(r, *a, *b),
            lawful::<T>() ==> exists|length: T, count: T|
                Self::reference_vouched(
                    *reference,
                    *incident,
                    face as int,
                    rot_ref,
                    back_inc,
                    rot_inc,
                    flip,
                    k,
                    length,
                    count,
                ) && #[trigger] Self::touches(
                    r,
                    Self::reference_touch(
                        *reference,
                        *incident,
                        face as int,
                        rot_ref,
                        back_inc,
                        rot_inc,
                        flip,
                        k,
                        length,
                        count,
                    ),
                ),
            r is Some ==> 1 <= r->0.contacts@.len() <= 2,
    {
        let toward = reference.normals[face].rotated(&rot_ref).rotated(&back_inc);
        let inc_face = Self::find_incident_face(incident, toward, rot_inc, k);
        let ring = reference.vertices.len();
        let face2 = if face + 1 < ring {
            face + 1
        } else {
            0
        };
        let v1 = reference.vertices[face].rotated(&rot_ref).add_to(&reference.object.position);
        let v2 = reference.vertices[face2].rotated(&rot_ref).add_to(&reference.object.position);
        let edge = v2.less(&v1);
        let length = edge.len();
        let side = edge.over(length);
        let front = side.quarter_turn();
        let ref_c = front.dot_with(&v1);
        let neg_side = side.reversed().dot_with(&v1);
        let pos_side = side.dot_with(&v2);
        let once = match Self::clip(side.reversed(), neg_side, inc_face, k.nothing) {
            None => {
                assert(lawful::<T>() ==> Self::reference_vouched(
                    *reference,
                    *incident,
                    face as int,
                    rot_ref,
                    back_inc,
                    rot_inc,
                    flip,
                    k,
                    length,
                    k.nothing,
                ) && Self::touches(
                    None,
                    Self::reference_touch(
                        *reference,
                        *incident,
                        face as int,
                        rot_ref,
                        back_inc,
                        rot_inc,
                        flip,
                        k,
                        length,
                        k.nothing,
                    ),
                ));
                return None;
            },
            Some(f) => f,
        };
        let twice = match Self::clip(side, pos_side, once, k.nothing) {
            None => {
                assert(lawful::<T>() ==> Self::reference_vouched(
                    *reference,
                    *incident,
                    face as int,
                    rot_ref,
                    back_inc,
                    rot_inc,
                    flip,
                    k,
                    length,
                    k.nothing,
                ) && Self::touches(
                    None,
                    Self::reference_touch(
                        *reference,
                        *incident,
                        face as int,
                        rot_ref,
                        back_inc,
                        rot_inc,
                        flip,
                        k,
                        length,
                        k.nothing,
                    ),
                ));
                return None;
            },
            Some(f) => f,
        };
        let normal = if flip {
            front.reversed()
        } else {
            front
        };
        let mut contacts: Vec<Vector2d<T>> = Vec::new();
        let mut penetration = k.nothing;
        let s1 = difference(front.dot_with(&twice.v1), ref_c);
        if s1 <= k.nothing {
            contacts.push(twice.v1);
            penetration = negated(s1);
        }
        let s2 = difference(front.dot_with(&twice.v2), ref_c);
        if s2 <= k.nothing {
            contacts.push(twice.v2);
            penetration = sum(penetration, negated(s2));
        }
        if contacts.len() == 0 {
            assert(lawful::<T>() ==> Self::reference_vouched(
                *reference,
                *incident,
                face as int,
                rot_ref,
                back_inc,
                rot_inc,
                flip,
                k,
                length,
                k.nothing,
            ) && Self::touches(
                None,
                Self::reference_touch(
                    *reference,
                    *incident,
                    face as int,
                    rot_ref,
                    back_inc,
                    rot_inc,
                    flip,
                    k,
                    length,
                    k.nothing,
                ),
            ));
            return None;
        }
        let count: T = scalar(contacts.len() as i64);
        penetration = quotient(penetration, count);
        let r = Some(Self::assemble(a, b, penetration, normal, contacts));
        assert(lawful::<T>() ==> Self::reference_vouched(
            *reference,
            *incident,
            face as int,
            rot_ref,
            back_inc,
            rot_inc,
            flip,
            k,
            length,
            count,
        ) && Self::touches(
            r,
            Self::reference_touch(
                *reference,
                *incident,
                face as int,
                rot_ref,
                back_inc,
                rot_inc,
                flip,
                k,
                length,
                count,
            ),
        ));
        r
    }

    /// The contact between two polygons, if they overlap.
    pub fn polygon_to_polygon(a: &Polygon<T>, b: &Polygon<T>) -> (r: Option<Manifold<T>>)
        requires
            a.wf(),
            b.wf(),
        ensures
            Self::polygon_outcome(*a, *b, r),
            r is Some ==> 1 <= r->0.contacts@.len() <= 2,
    {
        let k = Constants::<T>::new();
        let rot_a = Rotation::of(a.object.orient);
        let back_a = Rotation::back(a.object.orient);
        let rot_b = Rotation::of(b.object.orient);
        let back_b = Rotation::back(b.object.orient);
        let ghost plain = Bearing {
            rot_a,
            back_a,
            rot_b,
            back_b,
            length: k.nothing,
            count: k.nothing,
        };
        if a.vertices.len() == 0 || b.vertices.len() == 0 {
            assert(lawful::<T>() ==> Self::polygon_vouched(*a, *b, k, plain) && Self::touches(
                None,
                Self::polygon_touch(*a, *b, k, plain),
            ));
            return None;
        }
        let (face_a, penetration_a) = Self::find_axis_least_penetration(a, b, rot_a, back_b, k);
        if penetration_a >= k.nothing {
            assert(lawful::<T>() ==> Self::polygon_vouched(*a, *b, k, plain) && Self::touches(
                None,
                Self::polygon_touch(*a, *b, k, plain),
            ));
            return None;
        }
        let (face_b, penetration_b) = Self::find_axis_least_penetration(b, a, rot_b, back_a, k);
        if penetration_b >= k.nothing {
            assert(lawful::<T>() ==> Self::polygon_vouched(*a, *b, k, plain) && Self::touches(
                None,
                Self::polygon_touch(*a, *b, k, plain),
            ));
            return None;
        }
        if penetration_a >= penetration_b {
            let r = Self::reference_contact(
                a,
                b,
                &a.object,
                &b.object,
                face_a,
                rot_a,
                back_b,
                rot_b,
                false,
                k,
            );
            proof {
                if lawful::<T>() {
                    let (length, count) = choose|length: T, count: T|
                        Self::reference_vouched(
                            *a,
                            *b,
                            face_a as int,
                            rot_a,
                            back_b,
                            rot_b,
                            false,
                            k,
                            length,
                            count,
                        ) && #[trigger] Self::touches(
                            r,
                            Self::reference_touch(
                                *a,
                                *b,
                                face_a as int,
                                rot_a,
                                back_b,
                                rot_b,
                                false,
                                k,
                                length,
                                count,
                            ),
                        );
                    let u = Bearing { rot_a, back_a, rot_b, back_b, length, count };
                    assert(Self::reference(*a, *b, k, u) == (Reference::First {
                        face: face_a as int,
                    }));
                    assert(Self::polygon_vouched(*a, *b, k, u) && Self::touches(
                        r,
                        Self::polygon_touch(*a, *b, k, u),
                    ));
                }
            }
            r
        } else {
            let r = Self::reference_contact(
                b,
                a,
                &a.object,
                &b.object,
                face_b,
                rot_b,
                back_a,
                rot_a,
                true,
                k,
            );
            proof {
                if lawful::<T>() {
                    let (length, count) = choose|length: T, count: T|
                        Self::reference_vouched(
                            *b,
                            *a,
                            face_b as int,
                            rot_b,
                            back_a,
                            rot_a,
                            true,
                            k,
                            length,
                            count,
                        ) && #[trigger] Self::touches(
                            r,
                            Self::reference_touch(
                                *b,
                                *a,
                                face_b as int,
                                rot_b,
                                back_a,
                                rot_a,
                                true,
                                k,
                                length,
                                count,
                            ),
                        );
                    let u = Bearing { rot_a, back_a, rot_b, back_b, length, count };
                    assert(Self::reference(*a, *b, k, u) == (Reference::Second {
                        face: face_b as int,
                    }));
                    assert(Self::polygon_vouched(*a, *b, k, u) && Self::touches(
                        r,
                        Self::polygon_touch(*a, *b, k, u),
                    ));
                }
            }
            r
        }
    }

    /// `r` is what the contact detection of `a` and `b` may return, by
    /// their shapes.
    pub open spec fn outcome(a: RigidBody<T>, b: RigidBody<T>, r: Option<Manifold<T>>) -> bool {
        match (a, b) {
            (RigidBody::Circle(ca), RigidBody::Circle(cb)) => Self::circle_outcome(ca, cb, r),
            (RigidBody::Circle(ca), RigidBody::Polygon(pb)) => Self::circle_polygon_outcome(
                ca,
                pb,
                r,
            ),
            (RigidBody::Polygon(pa), RigidBody::Circle(cb)) => Self::polygon_circle_outcome(
                pa,
                cb,
                r,
            ),
            (RigidBody::Polygon(pa), RigidBody::Polygon(pb)) => Self::polygon_outcome(pa, pb, r),
        }
    }

    /// The contact between two bodies, if they overlap: a manifold whose
    /// normal points from `a` to `b`.
    pub fn solve_collision(a: &RigidBody<T>, b: &RigidBody<T>) -> (r: Option<Manifold<T>>)
        requires
            a.wf(),
            b.wf(),
        ensures
            Self::outcome(*a, *b, r),
            r is Some ==> 1 <= r->0.contacts@.len() <= 2,
    {
        match a {
            RigidBody::Circle(circle_a) => match b {
                RigidBody::Circle(circle_b) => Self::circle_to_circle(circle_a, circle_b),
                RigidBody::Polygon(polygon_b) => Self::circle_to_polygon(circle_a, polygon_b),
            },
            RigidBody::Polygon(polygon_a) => match b {
                RigidBody::Circle(circle_b) => Self::polygon_to_circle(polygon_a, circle_b),
                RigidBody::Polygon(polygon_b) => Self::polygon_to_polygon(polygon_a, polygon_b),
            },
        }
    }
}

/// What the resolution of one contact point takes from the scalar type
/// beyond arithmetic: the length of the tangential velocity, and the
/// absolute value of the tangential impulse.
pub struct Grip<T> {
    pub tangent_length: T,
    pub slide: T,
}

impl<T: Float> Manifold<T> {
    /// The velocity that the turn rate `w` gives a point at the offset `r`
    /// from the centre: `(-w * r.y, w * r.x)`.
    pub open spec fn spin(w: T, r: Vector2d<T>) -> Vector2d<T> {
        Vector2d { x: w.neg_spec().mul_spec(r.y), y: w.mul_spec(r.x) }
    }

    /// The velocity of B relative to A at the point `contact`.
    pub open spec fn approach(a: Object<T>, b: Object<T>, contact: Vector2d<T>) -> Vector2d<T> {
        b.velocity.plus(Self::spin(b.angular_velocity, contact.minus(b.position))).minus(
            a.velocity,
        ).minus(Self::spin(a.angular_velocity, contact.minus(a.position)))
    }

    /// The inverse of the mass that the two bodies oppose to an impulse
    /// along the normal at `contact`: `1/mA + 1/mB + (rA x n)^2 / IA +
    /// (rB x n)^2 / IB`.
    pub open spec fn effective(&self, a: Object<T>, b: Object<T>, contact: Vector2d<T>) -> T {
        let ra_n = contact.minus(a.position).cross(self.normal);
        let rb_n = contact.minus(b.position).cross(self.normal);
        a.inverse_mass.add_spec(b.inverse_mass).add_spec(
            ra_n.mul_spec(ra_n).mul_spec(a.inverse_inertia),
        ).add_spec(rb_n.mul_spec(rb_n).mul_spec(b.inverse_inertia))
    }

    /// The size of the normal impulse at `contact`:
    /// `-(1 + restitution) * v_n / m / count`.
    pub open spec fn normal_impulse(
        &self,
        a: Object<T>,
        b: Object<T>,
        contact: Vector2d<T>,
        k: Constants<T>,
        count: T,
    ) -> T {
        k.unit.add_spec(self.mixed_restitution).neg_spec().mul_spec(
            Self::approach(a, b, contact).dot(self.normal),
        ).div_spec(self.effective(a, b, contact)).div_spec(count)
    }

    /// The part of the relative velocity at `contact` that lies across the
    /// normal.
    pub open spec fn slip(&self, a: Object<T>, b: Object<T>, contact: Vector2d<T>) -> Vector2d<T> {
        let v_ab = Self::approach(a, b, contact);
        v_ab.minus(self.normal.scaled(v_ab.dot(self.normal)))
    }

    /// The size of the tangential impulse at `contact`:
    /// `-v_ab . t / m / count`, `t` being the slip divided by its length.
    pub open spec fn rub(
        &self,
        a: Object<T>,
        b: Object<T>,
        contact: Vector2d<T>,
        count: T,
        tangent_length: T,
    ) -> T {
        Self::approach(a, b, contact).opposite().dot(
            self.slip(a, b, contact).shrunk(tangent_length),
        ).div_spec(self.effective(a, b, contact)).div_spec(count)
    }

    /// The two bodies with their velocities set to zero.
    pub open spec fn halted(a: Object<T>, b: Object<T>, k: Constants<T>) -> (Object<T>, Object<T>) {
        let still = Vector2d { x: k.nothing, y: k.nothing };
        (Object { velocity: still, ..a }, Object { velocity: still, ..b })
    }

    /// The two bodies after the contact point `contact` has been resolved.
    /// Nothing changes where the bodies separate along the normal. Else the
    /// normal impulse is applied to both, opposite ways. Then friction,
    /// unless the tangential speed is below the margin: the tangential
    /// impulse itself where its absolute value is below the normal impulse
    /// times the static friction, else the normal impulse times the dynamic
    /// friction, against the slip.
    pub open spec fn resolved(
        &self,
        a: Object<T>,
        b: Object<T>,
        contact: Vector2d<T>,
        k: Constants<T>,
        count: T,
        g: Grip<T>,
    ) -> (Object<T>, Object<T>) {
        let r_a = contact.minus(a.position);
        let r_b = contact.minus(b.position);
        if Self::approach(a, b, contact).dot(self.normal).is_gt(&k.nothing) {
            (a, b)
        } else {
            let j = self.normal_impulse(a, b, contact, k, count);
            let impulse = self.normal.scaled(j);
            let a1 = a.pushed(impulse.opposite(), r_a);
            let b1 = b.pushed(impulse, r_b);
            if g.tangent_length.is_lt(&k.margin) {
                (a1, b1)
            } else {
                let tangent = self.slip(a, b, contact).shrunk(g.tangent_length);
                let rub = if g.slide.is_lt(&j.mul_spec(self.mixed_static_friction)) {
                    tangent.scaled(self.rub(a, b, contact, count, g.tangent_length))
                } else {
                    tangent.scaled(j.neg_spec()).scaled(self.mixed_dynamic_friction)
                };
                (a1.pushed(rub.opposite(), r_a), b1.pushed(rub, r_b))
            }
        }
    }

    /// The scalars of `g` are what the scalar type gave at `contact`, as far
    /// as the resolution reads them: the length of the slip, unless the
    /// bodies separate; and the absolute value of the tangential impulse,
    /// unless that length is below the margin.
    pub open spec fn gripped(
        &self,
        a: Object<T>,
        b: Object<T>,
        contact: Vector2d<T>,
        k: Constants<T>,
        count: T,
        g: Grip<T>,
    ) -> bool {
        !Self::approach(a, b, contact).dot(self.normal).is_gt(&k.nothing) ==> {
            &&& is_root(self.slip(a, b, contact).len_square_spec(), g.tangent_length)
            &&& !g.tangent_length.is_lt(&k.margin) ==> is_magnitude(
                self.rub(a, b, contact, count, g.tangent_length),
                g.slide,
            )
        }
    }

    /// The two bodies after the first `n` contact points have been resolved
    /// in turn.
    pub open spec fn resolved_all(
        &self,
        a: Object<T>,
        b: Object<T>,
        k: Constants<T>,
        count: T,
        grips: Seq<Grip<T>>,
        n: int,
    ) -> (Object<T>, Object<T>)
        decreases n,
    {
        if n <= 0 {
            (a, b)
        } else {
            let before = self.resolved_all(a, b, k, count, grips, n - 1);
            self.resolved(before.0, before.1, self.contacts@[n - 1], k, count, grips[n - 1])
        }
    }

    /// Each of the first `n` grips holds what the scalar type gave when its
    /// contact point was resolved.
    pub open spec fn gripped_all(
        &self,
        a: Object<T>,
        b: Object<T>,
        k: Constants<T>,
        count: T,
        grips: Seq<Grip<T>>,
        n: int,
    ) -> bool
        decreases n,
    {
        if n <= 0 {
            true
        } else {
            let before = self.resolved_all(a, b, k, count, grips, n - 1);
            &&& self.gripped_all(a, b, k, count, grips, n - 1)
            &&& self.gripped(before.0, before.1, self.contacts@[n - 1], k, count, grips[n - 1])
        }
    }

    /// The two bodies as the solver takes them up: halted where their
    /// inverse masses sum to less than the margin.
    pub open spec fn taken_up(a: Object<T>, b: Object<T>, k: Constants<T>) -> (
        Object<T>,
        Object<T>,
    ) {
        if a.inverse_mass.add_spec(b.inverse_mass).is_lt(&k.margin) {
            Self::halted(a, b, k)
        } else {
            (a, b)
        }
    }

    /// `after` is the pair `a`, `b` after one pass of the solver: taken up,
    /// then every contact point resolved in turn; for constants that the
    /// scalar type gave, `count` being what it gave for the number of
    /// contact points.
    pub open spec fn impulse_outcome(
        &self,
        a: Object<T>,
        b: Object<T>,
        k: Constants<T>,
        count: T,
        grips: Seq<Grip<T>>,
        after: (Object<T>, Object<T>),
    ) -> bool {
        let n = self.contacts@.len() as int;
        let start = Self::taken_up(a, b, k);
        &&& k.genuine()
        &&& is_scalar(self.contacts@.len() as i64, count)
        &&& grips.len() == n
        &&& self.gripped_all(start.0, start.1, k, count, grips, n)
        &&& after == self.resolved_all(start.0, start.1, k, count, grips, n)
    }

    /// The first `n` contact points read only the first `n` grips.
    proof fn lemma_resolved_all_prefix(
        &self,
        a: Object<T>,
        b: Object<T>,
        k: Constants<T>,
        count: T,
        g1: Seq<Grip<T>>,
        g2: Seq<Grip<T>>,
        n: int,
    )
        requires
            forall|j: int| 0 <= j < n ==> g1[j] == g2[j],
        ensures
            self.resolved_all(a, b, k, count, g1, n) == self.resolved_all(a, b, k, count, g2, n),
            self.gripped_all(a, b, k, count, g1, n) == self.gripped_all(a, b, k, count, g2, n),
        decreases n,
    {
        if n > 0 {
            self.lemma_resolved_all_prefix(a, b, k, count, g1, g2, n - 1);
        }
    }

    /// The velocity that the turn rate `w` gives a point at the offset `r`.
    fn spin_at(w: T, r: &Vector2d<T>) -> (v: Vector2d<T>)
        ensures
            lawful::<T>() ==> v == Self::spin(w, *r),
    {
        Vector2d::new(product(negated(w), r.y), product(w, r.x))
    }

    /// Resolves one contact point.
    fn resolve(
        &self,
        object_a: &mut Object<T>,
        object_b: &mut Object<T>,
        contact: Vector2d<T>,
        k: Constants<T>,
        count: T,
    )
        ensures
            lawful::<T>() ==> exists|g: Grip<T>|
                self.gripped(*old(object_a), *old(object_b), contact, k, count, g) && (
                *final(object_a),
                *final(object_b),
            ) == #[trigger] self.resolved(*old(object_a), *old(object_b), contact, k, count, g),
            *final(object_a) == (Object {
                velocity: final(object_a).velocity,
                angular_velocity: final(object_a).angular_velocity,
                ..*old(object_a)
            }),
            *final(object_b) == (Object {
                velocity: final(object_b).velocity,
                angular_velocity: final(object_b).angular_velocity,
                ..*old(object_b)
            }),
    {
        let ghost idle = Grip { tangent_length: k.nothing, slide: k.nothing };
        let r_a = contact.less(&object_a.position);
        let r_b = contact.less(&object_b.position);
        let v_ab = object_b.velocity.add_to(&Self::spin_at(object_b.angular_velocity, &r_b)).less(
            &object_a.velocity,
        ).less(&Self::spin_at(object_a.angular_velocity, &r_a));
        let along = v_ab.dot_with(&self.normal);
        if along > k.nothing {
            assert(lawful::<T>() ==> self.gripped(
                *old(object_a),
                *old(object_b),
                contact,
                k,
                count,
                idle,
            ) && (*object_a, *object_b) == self.resolved(
                *old(object_a),
                *old(object_b),
                contact,
                k,
                count,
                idle,
            ));
            return ;
        }
        let ra_n = r_a.cross_with(&self.normal);
        let rb_n = r_b.cross_with(&self.normal);
        let m = sum(
            sum(
                sum(object_a.inverse_mass, object_b.inverse_mass),
                product(product(ra_n, ra_n), object_a.inverse_inertia),
            ),
            product(product(rb_n, rb_n), object_b.inverse_inertia),
        );
        let j = quotient(
            quotient(product(negated(sum(k.unit, self.mixed_restitution)), along), m),
            count,
        );
        let impulse = self.normal.times(j);
        object_a.apply_impulse(impulse.reversed(), r_a);
        object_b.apply_impulse(impulse, r_b);

        let t = v_ab.less(&self.normal.times(along));
        let tangent_length = t.len();
        if tangent_length < k.margin {
            proof {
                let g = Grip { tangent_length, slide: k.nothing };
                assert(lawful::<T>() ==> self.gripped(
                    *old(object_a),
                    *old(object_b),
                    contact,
                    k,
                    count,
                    g,
                ) && (*object_a, *object_b) == self.resolved(
                    *old(object_a),
                    *old(object_b),
                    contact,
                    k,
                    count,
                    g,
                ));
            }
            return ;
        }
        let tangent = t.over(tangent_length);
        let jt = quotient(quotient(v_ab.reversed().dot_with(&tangent), m), count);
        let slide = magnitude(jt);
        let ghost g = Grip { tangent_length, slide };
        let rub = if slide < product(j, self.mixed_static_friction) {
            tangent.times(jt)
        } else {
            tangent.times(negated(j)).times(self.mixed_dynamic_friction)
        };
        object_a.apply_impulse(rub.reversed(), r_a);
        object_b.apply_impulse(rub, r_b);
        assert(lawful::<T>() ==> self.gripped(*old(object_a), *old(object_b), contact, k, count, g)
            && (*object_a, *object_b) == self.resolved(
            *old(object_a),
            *old(object_b),
            contact,
            k,
            count,
            g,
        ));
    }

    /// One pass of the impulse solver over the contact points of this
    /// manifold, on the states of its two bodies.
    pub fn apply_impulse(&self, object_a: &mut Object<T>, object_b: &mut Object<T>)
        ensures
            lawful::<T>() ==> exists|k: Constants<T>, count: T, grips: Seq<Grip<T>>| #[trigger]
                self.impulse_outcome(
                    *old(object_a),
                    *old(object_b),
                    k,
                    count,
                    grips,
                    (*final(object_a), *final(object_b)),
                ),
            *final(object_a) == (Object {
                velocity: final(object_a).velocity,
                angular_velocity: final(object_a).angular_velocity,
                ..*old(object_a)
            }),
            *final(object_b) == (Object {
                velocity: final(object_b).velocity,
                angular_velocity: final(object_b).angular_velocity,
                ..*old(object_b)
            }),
    {
        let k = Constants::<T>::new();
        if sum(object_a.inverse_mass, object_b.inverse_mass) < k.margin {
            object_a.velocity.set(k.nothing, k.nothing);
            object_b.velocity.set(k.nothing, k.nothing);
        }
        let ghost start = (*object_a, *object_b);
        let n = self.contacts.len();
        let count: T = scalar(n as i64);
        let ghost mut grips: Seq<Grip<T>> = Seq::empty();
        let mut i: usize = 0;
        while i < n
            invariant
                n == self.contacts@.len(),
                i <= n,
                grips.len() == i,
                lawful::<T>() ==> self.gripped_all(start.0, start.1, k, count, grips, i as int),
                lawful::<T>() ==> (*object_a, *object_b) == self.resolved_all(
                    start.0,
                    start.1,
                    k,
                    count,
                    grips,
                    i as int,
                ),
                *object_a == (Object {
                    velocity: object_a.velocity,
                    angular_velocity: object_a.angular_velocity,
                    ..*old(object_a)
                }),
                *object_b == (Object {
                    velocity: object_b.velocity,
                    angular_velocity: object_b.angular_velocity,
                    ..*old(object_b)
                }),
            decreases n - i,
        {
            let ghost before = (*object_a, *object_b);
            self.resolve(object_a, object_b, self.contacts[i], k, count);
            proof {
                if lawful::<T>() {
                    let g = choose|g: Grip<T>|
                        self.gripped(before.0, before.1, self.contacts@[i as int], k, count, g)
                            && (*object_a, *object_b) == #[trigger] self.resolved(
                            before.0,
                            before.1,
                            self.contacts@[i as int],
                            k,
                            count,
                            g,
                        );
                    let longer = grips.push(g);
                    self.lemma_resolved_all_prefix(
                        start.0,
                        start.1,
                        k,
                        count,
                        grips,
                        longer,
                        i as int,
                    );
                    grips = longer;
                } else {
                    grips = grips.push(Grip { tangent_length: k.nothing, slide: k.nothing });
                }
            }
            i += 1;
        }
        assert(lawful::<T>() ==> self.impulse_outcome(
            *old(object_a),
            *old(object_b),
            k,
            count,
            grips,
            (*object_a, *object_b),
        ));
    }
}

} // verus!
