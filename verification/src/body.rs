//! Bodies: the state that moves, and the two shapes that carry it.
use crate::math::{
    alike, difference, equal, equals_agree, exceeds, infinity, is_infinity, is_magnitude,
    is_neg_infinity, is_one, is_pi, is_ratio, is_scalar, is_zero, lawful, magnitude,
    neg_infinity, one, one_zero, pi, product, quotient, ratio, scalar, strictly_ordered, sum,
    zero, Vector2d,
};
use crate::random::Rng;
use num_traits::{Float, FloatConst};
use vstd::prelude::*;
use vstd::std_specs::cmp::{PartialEqSpec, PartialOrdIs};
use vstd::std_specs::ops::{AddSpec, DivSpec, MulSpec, SubSpec};

verus! {

/// The colour a body is drawn in.
#[derive(Clone, Copy)]
pub struct Color {
    pub r: u8,
    pub g: u8,
    pub b: u8,
}

impl Color {
    /// Each channel is a number drawn from `0 ..= 200`.
    pub open spec fn drawn(self) -> bool {
        &&& self.r <= 200 && Rng::drawn_in(0, 200, self.r as int)
        &&& self.g <= 200 && Rng::drawn_in(0, 200, self.g as int)
        &&& self.b <= 200 && Rng::drawn_in(0, 200, self.b as int)
    }

    /// A colour with each channel drawn from `0 ..= 200`; `None` where a
    /// draw fails.
    pub fn random(rng: &mut Rng) -> (c: Option<Color>)
        ensures
            c is Some ==> c->0.drawn(),
    {
        let r = match rng.gen_range(0, 200) {
            Some(n) => n,
            None => {
                return None;
            },
        };
        let g = match rng.gen_range(0, 200) {
            Some(n) => n,
            None => {
                return None;
            },
        };
        let b = match rng.gen_range(0, 200) {
            Some(n) => n,
            None => {
                return None;
            },
        };
        Some(Color { r: r as u8, g: g as u8, b: b as u8 })
    }
}

/// The kinematic and dynamic state of one body.
#[derive(Clone, Copy)]
pub struct Object<T> {
    pub position: Vector2d<T>,
    pub velocity: Vector2d<T>,
    pub force: Vector2d<T>,
    pub density: T,
    pub inertia: T,
    pub inverse_inertia: T,
    pub mass: T,
    pub inverse_mass: T,
    pub angular_velocity: T,
    pub torque: T,
    pub orient: T,
    pub static_friction: T,
    pub dynamic_friction: T,
    pub restitution: T,
    pub color: Color,
}

impl<T: Float> Object<T> {
    /// The state after an impulse at the offset `contact_vector` from the
    /// centre: the velocity gains `impulse * inverse_mass`, the angular
    /// velocity `(contact_vector x impulse) * inverse_inertia`.
    pub open spec fn pushed(self, impulse: Vector2d<T>, contact_vector: Vector2d<T>) -> Self {
        Object {
            velocity: self.velocity.plus(impulse.scaled(self.inverse_mass)),
            angular_velocity: self.angular_velocity.add_spec(
                contact_vector.cross(impulse).mul_spec(self.inverse_inertia),
            ),
            ..self
        }
    }

    /// The state after the forces have acted for `dt`: the velocity gains
    /// `(force * inverse_mass + gravity) * dt`, the angular velocity
    /// `torque * inverse_inertia * dt`.
    pub open spec fn accelerated(self, dt: T, gravity: Vector2d<T>) -> Self {
        Object {
            velocity: self.velocity.plus(
                self.force.scaled(self.inverse_mass).plus(gravity).scaled(dt),
            ),
            angular_velocity: self.angular_velocity.add_spec(
                self.torque.mul_spec(self.inverse_inertia).mul_spec(dt),
            ),
            ..self
        }
    }

    /// The state after moving for `dt`: the position gains `velocity * dt`,
    /// the orientation `angular_velocity * dt`.
    pub open spec fn moved(self, dt: T) -> Self {
        Object {
            position: self.position.plus(self.velocity.scaled(dt)),
            orient: self.orient.add_spec(self.angular_velocity.mul_spec(dt)),
            ..self
        }
    }

    /// `after` differs from this state in position, velocity, orientation
    /// and angular velocity at most: mass, material and accumulated forces
    /// are the same.
    pub open spec fn same_but_motion(self, after: Self) -> bool {
        after == (Object {
            position: after.position,
            velocity: after.velocity,
            orient: after.orient,
            angular_velocity: after.angular_velocity,
            ..self
        })
    }

    /// The body counts as immovable where `nothing` is taken for zero: its
    /// inverse mass compares equal to it.
    pub open spec fn still(self, nothing: T) -> bool {
        self.inverse_mass.eq_spec(&nothing)
    }

    /// The state after one step of force integration: as it was for an
    /// immovable body, accelerated for any other.
    pub open spec fn sped(self, dt: T, gravity: Vector2d<T>, nothing: T) -> Self {
        if self.still(nothing) {
            self
        } else {
            self.accelerated(dt, gravity)
        }
    }

    /// The state after one step of velocity integration: as it was for an
    /// immovable body, moved for any other.
    pub open spec fn carried(self, dt: T, nothing: T) -> Self {
        if self.still(nothing) {
            self
        } else {
            self.moved(dt)
        }
    }

    /// The state with the mass properties of an immovable body: `unbounded`
    /// for mass and inertia, `nothing` for their inverses.
    pub open spec fn anchored(self, unbounded: T, nothing: T) -> Self {
        Object {
            inertia: unbounded,
            inverse_inertia: nothing,
            mass: unbounded,
            inverse_mass: nothing,
            ..self
        }
    }

    /// The state with the given mass and inertia, and `unit` divided by each
    /// as their inverses.
    pub open spec fn weighing(self, mass: T, inertia: T, unit: T) -> Self {
        Object {
            mass,
            inverse_mass: unit.div_spec(mass),
            inertia,
            inverse_inertia: unit.div_spec(inertia),
            ..self
        }
    }

    /// A body placed at `(x, y)`: the scalar type's zero for velocity, force,
    /// torque and turn, and a colour with each channel drawn from
    /// `0 ..= 200`.
    pub open spec fn placed(self, x: T, y: T) -> bool {
        &&& self.position.x == x
        &&& self.position.y == y
        &&& is_zero(self.velocity.x)
        &&& self.velocity.x == self.velocity.y
        &&& self.force == self.velocity
        &&& self.angular_velocity == self.velocity.x
        &&& self.torque == self.velocity.x
        &&& self.orient == self.velocity.x
        &&& self.color.drawn()
    }

    /// A body placed at `(x, y)` with the scalar type's one for its density,
    /// its mass, its inertia and their inverses, and with 5/10, 3/10 and 2/10
    /// for static friction, dynamic friction and restitution.
    pub open spec fn at_rest(self, x: T, y: T) -> bool {
        &&& self.placed(x, y)
        &&& is_one(self.density)
        &&& self.inertia == self.density
        &&& self.inverse_inertia == self.density
        &&& self.mass == self.density
        &&& self.inverse_mass == self.density
        &&& is_ratio(5, 10, self.static_friction)
        &&& is_ratio(3, 10, self.dynamic_friction)
        &&& is_ratio(2, 10, self.restitution)
    }

    /// `after` is this state made immovable: what the scalar type gave as
    /// its infinity for mass and inertia, as its zero for their inverses.
    pub open spec fn anchoring(self, after: Self) -> bool {
        exists|unbounded: T, nothing: T| #[trigger]
            is_infinity(unbounded) && #[trigger] is_zero(nothing) && after == self.anchored(
                unbounded,
                nothing,
            )
    }

    /// `after` is this state after one step of force integration, for what
    /// the scalar type gave as its zero.
    pub open spec fn forced(self, after: Self, dt: T, gravity: Vector2d<T>) -> bool {
        exists|nothing: T| #[trigger]
            is_zero(nothing) && (lawful::<T>() ==> after == self.sped(dt, gravity, nothing))
    }

    /// `after` is this state after one step of velocity integration, for
    /// what the scalar type gave as its zero.
    pub open spec fn drifted(self, after: Self, dt: T) -> bool {
        exists|nothing: T| #[trigger]
            is_zero(nothing) && (lawful::<T>() ==> after == self.carried(dt, nothing))
    }

    /// A body at rest at `(x, y)`, of density, mass and inertia one, with
    /// friction coefficients 0.5 (static) and 0.3 (dynamic), restitution 0.2
    /// and the colour `color`.
    fn colored(x: T, y: T, color: Color) -> (r: Self)
        requires
            color.drawn(),
        ensures
            r.at_rest(x, y),
            r.color == color,
    {
        let nothing: T = zero();
        let unit: T = one();
        let still = Vector2d::new(nothing, nothing);
        Self {
            position: Vector2d::new(x, y),
            velocity: still,
            force: still,
            density: unit,
            inertia: unit,
            inverse_inertia: unit,
            mass: unit,
            inverse_mass: unit,
            angular_velocity: nothing,
            torque: nothing,
            orient: nothing,
            static_friction: ratio(5, 10),
            dynamic_friction: ratio(3, 10),
            restitution: ratio(2, 10),
            color,
        }
    }

    /// A body at rest at `(x, y)`, of density, mass and inertia one, with
    /// friction coefficients 0.5 (static) and 0.3 (dynamic), restitution 0.2
    /// and a random colour. `None` where the system's random source fails.
    pub fn new(x: T, y: T) -> (r: Option<Self>)
        ensures
            r is Some ==> r->0.at_rest(x, y),
    {
        let mut rng = match Rng::new() {
            Some(rng) => rng,
            None => {
                return None;
            },
        };
        match Color::random(&mut rng) {
            Some(color) => Some(Self::colored(x, y, color)),
            None => None,
        }
    }

    pub fn apply_impulse(&mut self, impulse: Vector2d<T>, contact_vector: Vector2d<T>)
        ensures
            lawful::<T>() ==> *final(self) == old(self).pushed(impulse, contact_vector),
            *final(self) == (Object {
                velocity: final(self).velocity,
                angular_velocity: final(self).angular_velocity,
                ..*old(self)
            }),
    {
        let gain = impulse.times(self.inverse_mass);
        self.velocity = self.velocity.add_to(&gain);
        let spin = product(contact_vector.cross_with(&impulse), self.inverse_inertia);
        self.angular_velocity = sum(self.angular_velocity, spin);
    }

    /// Makes the body immovable: mass and inertia become the scalar type's
    /// infinity, their inverses its zero. Nothing undoes this.
    pub fn set_static(&mut self)
        ensures
            old(self).anchoring(*final(self)),
            is_zero(final(self).inverse_mass),
            is_zero(final(self).inverse_inertia),
            is_infinity(final(self).mass),
            is_infinity(final(self).inertia),
    {
        let unbounded: T = infinity();
        let nothing: T = zero();
        self.inertia = unbounded;
        self.inverse_inertia = nothing;
        self.mass = unbounded;
        self.inverse_mass = nothing;
        assert(*self == old(self).anchored(unbounded, nothing));
    }

    /// Whether the body is immovable: its inverse mass compares equal to the
    /// scalar type's zero. It does where it is that zero.
    pub fn is_static(&self) -> (r: bool)
        ensures
            exists|nothing: T| #[trigger]
                is_zero(nothing) && (lawful::<T>() ==> r == self.still(nothing)),
            is_zero(self.inverse_mass) ==> r,
    {
        let nothing: T = zero();
        let r = self.rests(nothing);
        assert(is_zero(nothing) && (lawful::<T>() ==> r == self.still(nothing)));
        r
    }

    /// Whether the inverse mass compares equal to `nothing`. It does where
    /// both are what the scalar type gave as its zero.
    pub fn rests(&self, nothing: T) -> (r: bool)
        ensures
            lawful::<T>() ==> r == self.still(nothing),
            is_zero(self.inverse_mass) && is_zero(nothing) ==> r,
    {
        equal(self.inverse_mass, nothing)
    }

    /// Lets the accumulated force and torque, and `gravity`, act on the
    /// velocities for `dt`, whatever the mass.
    pub fn accelerate(&mut self, dt: T, gravity: Vector2d<T>)
        ensures
            lawful::<T>() ==> *final(self) == old(self).accelerated(dt, gravity),
            *final(self) == (Object {
                velocity: final(self).velocity,
                angular_velocity: final(self).angular_velocity,
                ..*old(self)
            }),
    {
        let pull = self.force.times(self.inverse_mass).add_to(&gravity).times(dt);
        self.velocity = self.velocity.add_to(&pull);
        let spin = product(product(self.torque, self.inverse_inertia), dt);
        self.angular_velocity = sum(self.angular_velocity, spin);
    }

    /// Lets the velocities act on position and orientation for `dt`, whatever
    /// the mass.
    pub fn advance(&mut self, dt: T)
        ensures
            lawful::<T>() ==> *final(self) == old(self).moved(dt),
            *final(self) == (Object {
                position: final(self).position,
                orient: final(self).orient,
                ..*old(self)
            }),
    {
        let step = self.velocity.times(dt);
        self.position = self.position.add_to(&step);
        self.orient = sum(self.orient, product(self.angular_velocity, dt));
    }

    /// One step of force integration. An immovable body is left as it is;
    /// any other is accelerated.
    pub fn integrate_forces(&mut self, dt: T, gravity: Vector2d<T>)
        ensures
            old(self).forced(*final(self), dt, gravity),
            is_zero(old(self).inverse_mass) ==> *final(self) == *old(self),
            *final(self) == (Object {
                velocity: final(self).velocity,
                angular_velocity: final(self).angular_velocity,
                ..*old(self)
            }),
    {
        let nothing: T = zero();
        if !self.rests(nothing) {
            self.accelerate(dt, gravity);
        }
        assert(is_zero(nothing) && (lawful::<T>() ==> *self == old(self).sped(
            dt,
            gravity,
            nothing,
        )));
    }

    /// One step of velocity integration. An immovable body is left as it
    /// is; any other is moved.
    pub fn integrate_velocity(&mut self, dt: T)
        ensures
            old(self).drifted(*final(self), dt),
            is_zero(old(self).inverse_mass) ==> *final(self) == *old(self),
            *final(self) == (Object {
                position: final(self).position,
                orient: final(self).orient,
                ..*old(self)
            }),
    {
        let nothing: T = zero();
        if !self.rests(nothing) {
            self.advance(dt);
        }
        assert(is_zero(nothing) && (lawful::<T>() ==> *self == old(self).carried(dt, nothing)));
    }

    /// A body that has been made immovable has the scalar type's zero for
    /// its inverse mass and its inverse inertia, and neither integration
    /// step changes it, whatever its forces, the gravity and the tick.
    pub proof fn lemma_static_stays(
        before: Self,
        fixed: Self,
        after: Self,
        dt: T,
        gravity: Vector2d<T>,
    )
        requires
            lawful::<T>(),
            one_zero::<T>(),
            before.anchoring(fixed),
            fixed.forced(after, dt, gravity) || fixed.drifted(after, dt),
        ensures
            is_zero(fixed.inverse_mass),
            is_zero(fixed.inverse_inertia),
            after == fixed,
    {
        let (unbounded, nothing) = choose|unbounded: T, nothing: T| #[trigger]
            is_infinity(unbounded) && #[trigger] is_zero(nothing) && fixed == before.anchored(
                unbounded,
                nothing,
            );
        if fixed.forced(after, dt, gravity) {
            let other = choose|other: T| #[trigger]
                is_zero(other) && (lawful::<T>() ==> after == fixed.sped(dt, gravity, other));
            assert(alike(nothing, other));
        } else {
            let other = choose|other: T| #[trigger]
                is_zero(other) && (lawful::<T>() ==> after == fixed.carried(dt, other));
            assert(alike(nothing, other));
        }
    }

    /// Forgets the accumulated force and torque.
    pub fn clear_forces(&mut self)
        ensures
            is_zero(final(self).force.x),
            final(self).force.y == final(self).force.x,
            final(self).torque == final(self).force.x,
            *final(self) == (Object {
                force: final(self).force,
                torque: final(self).torque,
                ..*old(self)
            }),
    {
        let nothing: T = zero();
        self.force.set(nothing, nothing);
        self.torque = nothing;
    }
}

/// A disc.
pub struct Circle<T> {
    pub radius: T,
    pub object: Object<T>,
}

impl<T: Float + FloatConst> Circle<T> {
    /// The mass of a disc: `pi * radius * radius * density`.
    pub open spec fn disc_mass(radius: T, density: T, pi: T) -> T {
        pi.mul_spec(radius).mul_spec(radius).mul_spec(density)
    }

    /// The rotational inertia of a disc: `mass * radius * radius / two`.
    pub open spec fn disc_inertia(mass: T, radius: T, two: T) -> T {
        mass.mul_spec(radius).mul_spec(radius).div_spec(two)
    }

    /// `after` is `before` with the mass properties of a disc of the given
    /// radius, for what the scalar type gave as pi, as one and for two.
    pub open spec fn weighed(
        before: Object<T>,
        after: Object<T>,
        radius: T,
        pi: T,
        unit: T,
        two: T,
    ) -> bool {
        &&& is_pi(pi)
        &&& is_one(unit)
        &&& is_scalar(2, two)
        &&& lawful::<T>() ==> after == before.weighing(
            Self::disc_mass(radius, before.density, pi),
            Self::disc_inertia(Self::disc_mass(radius, before.density, pi), radius, two),
            unit,
        )
    }

    /// `c` is a disc of radius `r` placed at `(x, y)`, with the mass and
    /// inertia that its area and unit density give it.
    pub open spec fn made(x: T, y: T, r: T, c: Circle<T>) -> bool {
        &&& c.radius == r
        &&& c.object.placed(x, y)
        &&& exists|before: Object<T>, pi: T, unit: T, two: T|
            before.at_rest(x, y) && #[trigger] Self::weighed(before, c.object, r, pi, unit, two)
    }

    /// A disc of radius `r` at rest at `(x, y)`, with the mass and inertia
    /// that its area and unit density give it. `None` where the system's
    /// random source fails, from which the colour is drawn.
    pub fn new(x: T, y: T, r: T) -> (c: Option<Circle<T>>)
        ensures
            c is Some ==> Self::made(x, y, r, c->0),
    {
        let object = match Object::new(x, y) {
            Some(object) => object,
            None => {
                return None;
            },
        };
        let mut c = Circle { radius: r, object };
        c.initialize();
        Some(c)
    }

    /// Sets mass, inertia and their inverses from the radius and the density.
    fn initialize(&mut self)
        ensures
            final(self).radius == old(self).radius,
            final(self).object == (Object {
                mass: final(self).object.mass,
                inverse_mass: final(self).object.inverse_mass,
                inertia: final(self).object.inertia,
                inverse_inertia: final(self).object.inverse_inertia,
                ..old(self).object
            }),
            exists|pi: T, unit: T, two: T| #[trigger]
                Self::weighed(
                    old(self).object,
                    final(self).object,
                    old(self).radius,
                    pi,
                    unit,
                    two,
                ),
    {
        let round: T = pi();
        let unit: T = one();
        let two: T = scalar(2);
        let mass = product(product(product(round, self.radius), self.radius), self.object.density);
        self.object.mass = mass;
        self.object.inverse_mass = quotient(unit, mass);
        let inertia = quotient(product(product(mass, self.radius), self.radius), two);
        self.object.inertia = inertia;
        self.object.inverse_inertia = quotient(unit, inertia);
        assert(Self::weighed(old(self).object, self.object, old(self).radius, round, unit, two));
    }

    /// Makes the disc immovable.
    pub fn set_static(&mut self)
        ensures
            final(self).radius == old(self).radius,
            old(self).object.anchoring(final(self).object),
            is_zero(final(self).object.inverse_mass),
            is_zero(final(self).object.inverse_inertia),
    {
        self.object.set_static();
    }
}

/// A convex polygon: a ring of vertices about the centre of mass, and one
/// outward unit normal for each edge, that of edge `i` leading from vertex
/// `i` to the next one round the ring.
pub struct Polygon<T> {
    pub radius: T,
    pub vertices: Vec<Vector2d<T>>,
    pub normals: Vec<Vector2d<T>>,
    pub object: Object<T>,
}

/// `v` is one of the points of `cloud`.
pub open spec fn member<T>(cloud: Seq<Vector2d<T>>, v: Vector2d<T>) -> bool {
    exists|j: int| 0 <= j < cloud.len() && cloud[j] == v
}

impl<T: Float> Polygon<T> {
    /// Every edge has its normal.
    pub open spec fn wf(&self) -> bool {
        self.normals@.len() == self.vertices@.len()
    }

    /// Whether every edge has its normal.
    pub fn is_well_formed(&self) -> (r: bool)
        ensures
            r == self.wf(),
    {
        self.normals.len() == self.vertices.len()
    }

    /// The best vertex among the first `n`, with its projection on
    /// `direction`: a vertex replaces the best so far where its projection is
    /// strictly greater. With no vertex seen it is `origin`, at `floor`.
    pub open spec fn support_scan(
        vertices: Seq<Vector2d<T>>,
        direction: Vector2d<T>,
        origin: Vector2d<T>,
        floor: T,
        n: int,
    ) -> (Vector2d<T>, T)
        decreases n,
    {
        if n <= 0 {
            (origin, floor)
        } else {
            let before = Self::support_scan(vertices, direction, origin, floor, n - 1);
            let projection = vertices[n - 1].dot(direction);
            if projection.is_gt(&before.1) {
                (vertices[n - 1], projection)
            } else {
                before
            }
        }
    }

    /// The vertex farthest along `direction` among those whose projection
    /// exceeds `floor`, with that projection; `origin` at `floor` if there is
    /// none. Of several equally far the first in the ring is taken.
    pub fn support_from(&self, direction: Vector2d<T>, origin: Vector2d<T>, floor: T) -> (r: (
        Vector2d<T>,
        T,
    ))
        ensures
            lawful::<T>() ==> r == Self::support_scan(
                self.vertices@,
                direction,
                origin,
                floor,
                self.vertices@.len() as int,
            ),
            r.0 == origin || member(self.vertices@, r.0),
    {
        let mut best_projection = floor;
        let mut best_vertex = origin;
        let n = self.vertices.len();
        let mut i: usize = 0;
        while i < n
            invariant
                n == self.vertices@.len(),
                i <= n,
                lawful::<T>() ==> (best_vertex, best_projection) == Self::support_scan(
                    self.vertices@,
                    direction,
                    origin,
                    floor,
                    i as int,
                ),
                best_vertex == origin || member(self.vertices@, best_vertex),
            decreases n - i,
        {
            let v = self.vertices[i];
            let projection = v.dot_with(&direction);
            if projection > best_projection {
                best_vertex = v;
                best_projection = projection;
            }
            i += 1;
        }
        (best_vertex, best_projection)
    }

    /// No vertex among the first `n` projects farther along `direction` than
    /// the support scan's result; and that result is either a vertex with
    /// its own projection, or the origin at the floor.
    pub proof fn lemma_support_is_farthest(
        vertices: Seq<Vector2d<T>>,
        direction: Vector2d<T>,
        origin: Vector2d<T>,
        floor: T,
        n: int,
    )
        requires
            strictly_ordered::<T>(),
            0 <= n <= vertices.len(),
        ensures
            forall|i: int|
                0 <= i < n ==> !exceeds(
                    (#[trigger] vertices[i]).dot(direction),
                    Self::support_scan(vertices, direction, origin, floor, n).1,
                ),
            Self::support_scan(vertices, direction, origin, floor, n) == (origin, floor) || exists|
                j: int,
            |
                0 <= j < n && Self::support_scan(vertices, direction, origin, floor, n) == (
                    #[trigger] vertices[j],
                    vertices[j].dot(direction),
                ),
        decreases n,
    {
        if n > 0 {
            Self::lemma_support_is_farthest(vertices, direction, origin, floor, n - 1);
            let before = Self::support_scan(vertices, direction, origin, floor, n - 1);
            let after = Self::support_scan(vertices, direction, origin, floor, n);
            let last = vertices[n - 1].dot(direction);
            assert forall|i: int| 0 <= i < n implies !exceeds(
                (#[trigger] vertices[i]).dot(direction),
                after.1,
            ) by {
                let p = vertices[i].dot(direction);
                if exceeds(last, before.1) {
                    if i < n - 1 && exceeds(p, last) {
                        assert(exceeds(p, before.1));
                    }
                }
            }
            if exceeds(last, before.1) {
                assert(after == (vertices[n - 1], vertices[n - 1].dot(direction)));
            } else if before != (origin, floor) {
                let j = choose|j: int|
                    0 <= j < n - 1 && before == (
                        #[trigger] vertices[j],
                        vertices[j].dot(direction),
                    );
                assert(after == (vertices[j], vertices[j].dot(direction)));
            }
        }
    }

    /// `r` is the support scan's vertex, the scan starting from the zero
    /// vector at negative infinity, as the scalar type gave them.
    pub open spec fn is_support(
        &self,
        direction: Vector2d<T>,
        origin: Vector2d<T>,
        floor: T,
        r: Vector2d<T>,
    ) -> bool {
        &&& is_zero(origin.x)
        &&& origin.y == origin.x
        &&& is_neg_infinity(floor)
        &&& lawful::<T>() ==> r == Self::support_scan(
            self.vertices@,
            direction,
            origin,
            floor,
            self.vertices@.len() as int,
        ).0
    }

    /// The vertex with the greatest dot product with `direction`; of several
    /// the first. The scan starts from the zero vector at negative infinity.
    pub fn get_support(&self, direction: Vector2d<T>) -> (r: Vector2d<T>)
        ensures
            exists|origin: Vector2d<T>, floor: T| #[trigger]
                self.is_support(direction, origin, floor, r),
            (is_zero(r.x) && r.y == r.x) || member(self.vertices@, r),
    {
        let floor: T = neg_infinity();
        let origin: Vector2d<T> = Vector2d::zero();
        let r = self.support_from(direction, origin, floor);
        assert(self.is_support(direction, origin, floor, r.0));
        r.0
    }

    /// The rightmost of the first `n` points of `cloud`, the lowest of
    /// several; the first point where `n` is zero.
    pub open spec fn rightmost(cloud: Seq<Vector2d<T>>, n: int) -> Vector2d<T>
        decreases n,
    {
        if n <= 0 {
            cloud[0]
        } else {
            let best = Self::rightmost(cloud, n - 1);
            let v = cloud[n - 1];
            if v.x.is_gt(&best.x) {
                v
            } else if v.x.eq_spec(&best.x) && v.y.is_lt(&best.y) {
                v
            } else {
                best
            }
        }
    }

    /// No point among the first `n` lies farther right than the one that
    /// `rightmost` returns, which is one of them (or the first point).
    pub proof fn lemma_rightmost_is_extreme(cloud: Seq<Vector2d<T>>, n: int)
        requires
            strictly_ordered::<T>(),
            equals_agree::<T>(),
            0 <= n <= cloud.len(),
        ensures
            forall|j: int|
                0 <= j < n ==> !exceeds((#[trigger] cloud[j]).x, Self::rightmost(cloud, n).x),
            n > 0 ==> exists|j: int| 0 <= j < n && #[trigger] cloud[j] == Self::rightmost(cloud, n),
        decreases n,
    {
        if n > 0 {
            Self::lemma_rightmost_is_extreme(cloud, n - 1);
            let before = Self::rightmost(cloud, n - 1);
            let after = Self::rightmost(cloud, n);
            let v = cloud[n - 1];
            assert forall|j: int| 0 <= j < n implies !exceeds((#[trigger] cloud[j]).x, after.x) by {
                if j < n - 1 && exceeds(cloud[j].x, after.x) {
                    if exceeds(v.x, before.x) {
                        assert(exceeds(cloud[j].x, before.x));
                    } else if alike(v.x, before.x) && after == v {
                        assert(exceeds(cloud[j].x, before.x));
                    }
                }
            }
            if after == v {
                assert(cloud[n - 1] == after);
            } else if n > 1 {
                let j = choose|j: int| 0 <= j < n - 1 && #[trigger] cloud[j] == before;
                assert(cloud[j] == after);
            } else {
                assert(cloud[0] == after);
            }
        }
    }

    /// One step of the wrap about the hull vertex `index`: the candidate for
    /// the next hull vertex after `v` has been looked at. `v` displaces the
    /// candidate where it lies clockwise of the edge to the candidate, or on
    /// its line and farther from `index`. A candidate equal to `index`
    /// gives way to any point.
    pub open spec fn wrap_step(
        index: Vector2d<T>,
        next: Vector2d<T>,
        v: Vector2d<T>,
        nothing: T,
    ) -> Vector2d<T> {
        let candidate = if next.same(index) {
            v
        } else {
            next
        };
        let e1 = candidate.minus(index);
        let e2 = v.minus(index);
        let c = e1.cross(e2);
        if c.is_lt(&nothing) {
            v
        } else if c.eq_spec(&nothing) && e2.len_square_spec().is_gt(&e1.len_square_spec()) {
            v
        } else {
            candidate
        }
    }

    /// The candidate after the first `n` points of `cloud`.
    pub open spec fn wrap_scan(
        cloud: Seq<Vector2d<T>>,
        index: Vector2d<T>,
        next: Vector2d<T>,
        nothing: T,
        n: int,
    ) -> Vector2d<T>
        decreases n,
    {
        if n <= 0 {
            next
        } else {
            Self::wrap_step(
                index,
                Self::wrap_scan(cloud, index, next, nothing, n - 1),
                cloud[n - 1],
                nothing,
            )
        }
    }

    /// The hull vertices that follow `index`, up to the return to `start` or
    /// to `fuel` vertices.
    pub open spec fn hull_tail(
        cloud: Seq<Vector2d<T>>,
        start: Vector2d<T>,
        index: Vector2d<T>,
        next: Vector2d<T>,
        nothing: T,
        fuel: nat,
    ) -> Seq<Vector2d<T>>
        decreases fuel,
    {
        if fuel == 0 {
            Seq::empty()
        } else {
            let found = Self::wrap_scan(cloud, index, next, nothing, cloud.len() as int);
            if found.same(start) {
                Seq::empty()
            } else {
                seq![found] + Self::hull_tail(
                    cloud,
                    start,
                    found,
                    found,
                    nothing,
                    (fuel - 1) as nat,
                )
            }
        }
    }

    /// The convex hull of `cloud` by gift wrapping, for the scalar `nothing`
    /// as zero: from the rightmost point (the lowest of several) each next
    /// vertex is the point that keeps all others to one side, until the
    /// wrap returns to the start. It never has more vertices than the cloud
    /// has points.
    pub open spec fn hull(cloud: Seq<Vector2d<T>>, nothing: T) -> Seq<Vector2d<T>> {
        let start = Self::rightmost(cloud, cloud.len() as int);
        seq![start] + Self::hull_tail(
            cloud,
            start,
            start,
            cloud[0],
            nothing,
            (cloud.len() - 1) as nat,
        )
    }

    /// `ring` is the convex hull of `cloud`, for what the scalar type gave as
    /// its zero.
    pub open spec fn is_hull(cloud: Seq<Vector2d<T>>, ring: Seq<Vector2d<T>>) -> bool {
        exists|nothing: T| #[trigger]
            is_zero(nothing) && (lawful::<T>() ==> ring == Self::hull(cloud, nothing))
    }

    /// The rightmost point of `cloud`, the lowest of several.
    pub fn rightmost_point(cloud: &Vec<Vector2d<T>>) -> (r: Vector2d<T>)
        requires
            cloud@.len() >= 1,
        ensures
            lawful::<T>() ==> r == Self::rightmost(cloud@, cloud@.len() as int),
            member(cloud@, r),
    {
        let mut best = cloud[0];
        let n = cloud.len();
        let mut i: usize = 0;
        while i < n
            invariant
                n == cloud@.len(),
                i <= n,
                lawful::<T>() ==> best == Self::rightmost(cloud@, i as int),
                member(cloud@, best),
            decreases n - i,
        {
            let v = cloud[i];
            if v.x > best.x {
                best = v;
            } else if v.x == best.x {
                if v.y < best.y {
                    best = v;
                }
            }
            i += 1;
        }
        best
    }

    /// The next hull vertex after `index`: the candidate left when every
    /// point of `cloud` has been looked at, starting from `next`.
    pub fn wrap(
        cloud: &Vec<Vector2d<T>>,
        index: Vector2d<T>,
        next: Vector2d<T>,
        nothing: T,
    ) -> (r: Vector2d<T>)
        ensures
            lawful::<T>() ==> r == Self::wrap_scan(
                cloud@,
                index,
                next,
                nothing,
                cloud@.len() as int,
            ),
            r == next || member(cloud@, r),
    {
        let mut candidate = next;
        let n = cloud.len();
        let mut i: usize = 0;
        while i < n
            invariant
                n == cloud@.len(),
                i <= n,
                lawful::<T>() ==> candidate == Self::wrap_scan(
                    cloud@,
                    index,
                    next,
                    nothing,
                    i as int,
                ),
                candidate == next || member(cloud@, candidate),
            decreases n - i,
        {
            let v = cloud[i];
            if candidate.equals(&index) {
                candidate = v;
            }
            let e1 = candidate.less(&index);
            let e2 = v.less(&index);
            let c = e1.cross_with(&e2);
            if c < nothing {
                candidate = v;
            } else if c == nothing && e2.len_square() > e1.len_square() {
                candidate = v;
            }
            i += 1;
        }
        candidate
    }

    /// The convex hull of a cloud of points, counter-clockwise from its
    /// rightmost point.
    pub fn convex_hull(cloud: &Vec<Vector2d<T>>) -> (r: Vec<Vector2d<T>>)
        requires
            cloud@.len() >= 1,
        ensures
            1 <= r@.len() <= cloud@.len(),
            forall|k: int| 0 <= k < r@.len() ==> member(cloud@, #[trigger] r@[k]),
            Self::is_hull(cloud@, r@),
    {
        let nothing: T = zero();
        let start = Self::rightmost_point(cloud);
        let n = cloud.len();
        let mut result: Vec<Vector2d<T>> = Vec::new();
        result.push(start);
        let mut next = cloud[0];
        let mut index = start;
        let mut closed = false;
        while !closed && result.len() < n
            invariant
                n == cloud@.len(),
                1 <= result@.len() <= n,
                member(cloud@, next),
                forall|k: int| 0 <= k < result@.len() ==> member(cloud@, #[trigger] result@[k]),
                lawful::<T>() ==> start == Self::rightmost(cloud@, n as int),
                lawful::<T>() ==> Self::hull(cloud@, nothing) == result@ + (if closed {
                    Seq::empty()
                } else {
                    Self::hull_tail(
                        cloud@,
                        start,
                        index,
                        next,
                        nothing,
                        (n - result@.len()) as nat,
                    )
                }),
            decreases (if closed { 0 } else { 1 + n - result@.len() }),
        {
            let found = Self::wrap(cloud, index, next, nothing);
            if found.equals(&start) {
                closed = true;
            } else {
                let ghost before = result@;
                result.push(found);
                proof {
                    if lawful::<T>() {
                        let fuel = (n - before.len()) as nat;
                        let rest = Self::hull_tail(
                            cloud@,
                            start,
                            found,
                            found,
                            nothing,
                            (fuel - 1) as nat,
                        );
                        assert(Self::hull_tail(cloud@, start, index, next, nothing, fuel)
                            == seq![found] + rest);
                        assert(before + (seq![found] + rest) =~= result@ + rest);
                    }
                }
                index = found;
                next = found;
            }
        }
        proof {
            if lawful::<T>() {
                assert(result@ + Seq::<Vector2d<T>>::empty() =~= result@);
            }
            assert(is_zero(nothing) && (lawful::<T>() ==> result@ == Self::hull(cloud@, nothing)));
        }
        result
    }
}

/// The running sums of the integration of a polygon's mass properties.
pub struct MassSums<T> {
    pub area: T,
    pub centroid: Vector2d<T>,
    pub inertia: T,
}

/// The scalar constants of that integration: zero, a half, a third, six and
/// one.
pub struct MassUnits<T> {
    pub nothing: T,
    pub half: T,
    pub third: T,
    pub six: T,
    pub unit: T,
}

impl<T: Float> MassUnits<T> {
    /// Every constant is what the scalar type gave for it: zero and one as
    /// such, the half as 5/10, the third as 1/3 and six for 6.
    pub open spec fn genuine(self) -> bool {
        &&& is_zero(self.nothing)
        &&& is_ratio(5, 10, self.half)
        &&& is_ratio(1, 3, self.third)
        &&& is_scalar(6, self.six)
        &&& is_one(self.unit)
    }
}

/// The index that follows `i` round a ring of `n`.
pub open spec fn ring_next(i: int, n: int) -> int {
    if i + 1 < n {
        i + 1
    } else {
        0
    }
}

impl<T: Float> Polygon<T> {
    /// `normal` is the outward normal of the edge from `v1` to `v2`: the
    /// edge turned a quarter clockwise, divided by its length.
    pub open spec fn is_normal(v1: Vector2d<T>, v2: Vector2d<T>, normal: Vector2d<T>) -> bool {
        v2.minus(v1).perp().unit_of(normal)
    }

    /// The sums over the first `n` edges. Each edge spans a triangle with the
    /// origin; `magnitudes[i]` stands for the absolute value of the cross
    /// product of its two vertices. The triangle adds half of that to the
    /// area, a third of the sum of its vertices, weighted by its area, to the
    /// centroid, and `area * density * (|a|^2 + |b|^2 + a . b) / 6` to the
    /// inertia, `a` and `b` being the edge's two vertices.
    pub open spec fn mass_sums(
        vertices: Seq<Vector2d<T>>,
        density: T,
        magnitudes: Seq<T>,
        k: MassUnits<T>,
        n: int,
    ) -> MassSums<T>
        decreases n,
    {
        if n <= 0 {
            MassSums {
                area: k.nothing,
                centroid: Vector2d { x: k.nothing, y: k.nothing },
                inertia: k.nothing,
            }
        } else {
            let before = Self::mass_sums(vertices, density, magnitudes, k, n - 1);
            let first = vertices[n - 1];
            let second = vertices[ring_next(n - 1, vertices.len() as int)];
            let triangle = k.half.mul_spec(magnitudes[n - 1]);
            MassSums {
                area: before.area.add_spec(triangle),
                centroid: before.centroid.plus(
                    first.plus(second).scaled(k.third.mul_spec(triangle)),
                ),
                inertia: before.inertia.add_spec(
                    triangle.mul_spec(density).mul_spec(
                        first.len_square_spec().add_spec(second.len_square_spec()).add_spec(
                            first.dot(second),
                        ),
                    ).div_spec(k.six),
                ),
            }
        }
    }

    /// The centroid of the ring `vertices`: the weighted sum divided by the
    /// area.
    pub open spec fn centroid(
        vertices: Seq<Vector2d<T>>,
        density: T,
        magnitudes: Seq<T>,
        k: MassUnits<T>,
    ) -> Vector2d<T> {
        let sums = Self::mass_sums(vertices, density, magnitudes, k, vertices.len() as int);
        sums.centroid.shrunk(sums.area)
    }

    /// What initialising the ring `ring` on the body `before` leaves: the
    /// vertices moved so that the centroid is the origin, mass
    /// `area * density`, the inertia re-based to the centroid
    /// (`inertia - mass * |centroid|^2`), and the normal of every edge.
    /// `magnitudes[i]` is what the scalar type gave as the absolute value of
    /// the cross product of the two vertices of edge `i`.
    pub open spec fn shaped(
        ring: Seq<Vector2d<T>>,
        before: Object<T>,
        magnitudes: Seq<T>,
        k: MassUnits<T>,
        vertices: Seq<Vector2d<T>>,
        normals: Seq<Vector2d<T>>,
        object: Object<T>,
    ) -> bool {
        let n = ring.len() as int;
        let sums = Self::mass_sums(ring, before.density, magnitudes, k, n);
        let centre = Self::centroid(ring, before.density, magnitudes, k);
        let mass = sums.area.mul_spec(before.density);
        &&& k.genuine()
        &&& magnitudes.len() == n
        &&& forall|i: int|
            0 <= i < n ==> is_magnitude(
                ring[i].cross(ring[ring_next(i, n)]),
                #[trigger] magnitudes[i],
            )
        &&& vertices.len() == n
        &&& normals.len() == n
        &&& forall|i: int| 0 <= i < n ==> #[trigger] vertices[i] == ring[i].minus(centre)
        &&& forall|i: int|
            0 <= i < n ==> Self::is_normal(ring[i], ring[ring_next(i, n)], #[trigger] normals[i])
        &&& object == before.weighing(
            mass,
            sums.inertia.sub_spec(mass.mul_spec(centre.len_square_spec())),
            k.unit,
        )
    }

    /// The sums over the first `n` edges read only the first `n` magnitudes.
    proof fn lemma_mass_sums_prefix(
        vertices: Seq<Vector2d<T>>,
        density: T,
        m1: Seq<T>,
        m2: Seq<T>,
        k: MassUnits<T>,
        n: int,
    )
        requires
            forall|j: int| 0 <= j < n ==> m1[j] == m2[j],
        ensures
            Self::mass_sums(vertices, density, m1, k, n) == Self::mass_sums(
                vertices,
                density,
                m2,
                k,
                n,
            ),
        decreases n,
    {
        if n > 0 {
            Self::lemma_mass_sums_prefix(vertices, density, m1, m2, k, n - 1);
        }
    }

    /// The outward normal of every edge of `ring`.
    fn edge_normals(ring: &Vec<Vector2d<T>>) -> (normals: Vec<Vector2d<T>>)
        ensures
            normals@.len() == ring@.len(),
            lawful::<T>() ==> forall|i: int|
                0 <= i < ring@.len() ==> Self::is_normal(
                    ring@[i],
                    ring@[ring_next(i, ring@.len() as int)],
                    #[trigger] normals@[i],
                ),
    {
        let n = ring.len();
        let mut normals: Vec<Vector2d<T>> = Vec::new();
        let mut i1: usize = 0;
        while i1 < n
            invariant
                n == ring@.len(),
                i1 <= n,
                normals@.len() == i1,
                lawful::<T>() ==> forall|i: int|
                    0 <= i < i1 ==> Self::is_normal(
                        ring@[i],
                        ring@[ring_next(i, n as int)],
                        #[trigger] normals@[i],
                    ),
            decreases n - i1,
        {
            let i2 = if i1 + 1 < n {
                i1 + 1
            } else {
                0
            };
            let face = ring[i2].less(&ring[i1]);
            let normal = face.quarter_turn().normalize();
            normals.push(normal);
            i1 += 1;
        }
        normals
    }

    /// Computes the face normals, then area, centroid and inertia; moves the
    /// vertices so that the centroid is the origin, and sets the mass
    /// properties.
    fn initialize(&mut self)
        ensures
            final(self).radius == old(self).radius,
            final(self).wf(),
            final(self).vertices@.len() == old(self).vertices@.len(),
            final(self).object == (Object {
                mass: final(self).object.mass,
                inverse_mass: final(self).object.inverse_mass,
                inertia: final(self).object.inertia,
                inverse_inertia: final(self).object.inverse_inertia,
                ..old(self).object
            }),
            lawful::<T>() ==> exists|magnitudes: Seq<T>, k: MassUnits<T>| #[trigger]
                Self::shaped(
                    old(self).vertices@,
                    old(self).object,
                    magnitudes,
                    k,
                    final(self).vertices@,
                    final(self).normals@,
                    final(self).object,
                ),
    {
        let ghost ring = self.vertices@;
        let n = self.vertices.len();
        let normals = Self::edge_normals(&self.vertices);

        let k = MassUnits::<T> {
            nothing: zero(),
            half: ratio(5, 10),
            third: ratio(1, 3),
            six: scalar(6),
            unit: one(),
        };
        assert(k.genuine());
        let density = self.object.density;
        let mut centroid = Vector2d::new(k.nothing, k.nothing);
        let mut area = k.nothing;
        let mut inertia = k.nothing;
        let ghost mut magnitudes: Seq<T> = Seq::empty();
        let mut i1: usize = 0;
        while i1 < n
            invariant
                n == ring.len(),
                ring == self.vertices@,
                i1 <= n,
                magnitudes.len() == i1,
                lawful::<T>() ==> forall|i: int|
                    0 <= i < i1 ==> is_magnitude(
                        ring[i].cross(ring[ring_next(i, n as int)]),
                        #[trigger] magnitudes[i],
                    ),
                lawful::<T>() ==> (MassSums { area, centroid, inertia }) == Self::mass_sums(
                    ring,
                    density,
                    magnitudes,
                    k,
                    i1 as int,
                ),
            decreases n - i1,
        {
            let first = self.vertices[i1];
            let i2 = if i1 + 1 < n {
                i1 + 1
            } else {
                0
            };
            let second = self.vertices[i2];
            let size = magnitude(first.cross_with(&second));
            let triangle = product(k.half, size);
            proof {
                let longer = magnitudes.push(size);
                Self::lemma_mass_sums_prefix(ring, density, magnitudes, longer, k, i1 as int);
                magnitudes = longer;
            }
            area = sum(area, triangle);
            centroid = centroid.add_to(&first.add_to(&second).times(product(k.third, triangle)));
            inertia = sum(
                inertia,
                quotient(
                    product(
                        product(triangle, density),
                        sum(sum(first.len_square(), second.len_square()), first.dot_with(&second)),
                    ),
                    k.six,
                ),
            );
            i1 += 1;
        }
        centroid = centroid.over(area);

        let mut moved: Vec<Vector2d<T>> = Vec::new();
        let mut i: usize = 0;
        while i < n
            invariant
                n == ring.len(),
                ring == self.vertices@,
                i <= n,
                moved@.len() == i,
                lawful::<T>() ==> forall|j: int|
                    0 <= j < i ==> #[trigger] moved@[j] == ring[j].minus(centroid),
            decreases n - i,
        {
            moved.push(self.vertices[i].less(&centroid));
            i += 1;
        }
        self.vertices = moved;
        self.normals = normals;

        let mass = product(area, density);
        self.object.mass = mass;
        self.object.inverse_mass = quotient(k.unit, mass);
        let rebased = difference(inertia, product(mass, centroid.len_square()));
        self.object.inertia = rebased;
        self.object.inverse_inertia = quotient(k.unit, rebased);
        assert(lawful::<T>() ==> Self::shaped(
            ring,
            old(self).object,
            magnitudes,
            k,
            self.vertices@,
            self.normals@,
            self.object,
        ));
    }

    /// Makes the polygon immovable.
    pub fn set_static(&mut self)
        ensures
            final(self).radius == old(self).radius,
            final(self).vertices == old(self).vertices,
            final(self).normals == old(self).normals,
            old(self).object.anchoring(final(self).object),
            is_zero(final(self).object.inverse_mass),
            is_zero(final(self).object.inverse_inertia),
    {
        self.object.set_static();
    }

    /// Replaces the ring by `vertices`, taken as they are (a convex ring is
    /// expected), and initialises normals, centroid and mass from it.
    pub fn set_vertices(&mut self, vertices: &Vec<Vector2d<T>>)
        ensures
            final(self).radius == old(self).radius,
            final(self).wf(),
            final(self).vertices@.len() == vertices@.len(),
            final(self).object == (Object {
                mass: final(self).object.mass,
                inverse_mass: final(self).object.inverse_mass,
                inertia: final(self).object.inertia,
                inverse_inertia: final(self).object.inverse_inertia,
                ..old(self).object
            }),
            lawful::<T>() ==> exists|magnitudes: Seq<T>, k: MassUnits<T>| #[trigger]
                Self::shaped(
                    vertices@,
                    old(self).object,
                    magnitudes,
                    k,
                    final(self).vertices@,
                    final(self).normals@,
                    final(self).object,
                ),
    {
        let n = vertices.len();
        let mut copy: Vec<Vector2d<T>> = Vec::new();
        let mut i: usize = 0;
        while i < n
            invariant
                n == vertices@.len(),
                i <= n,
                copy@ == vertices@.take(i as int),
            decreases n - i,
        {
            copy.push(vertices[i]);
            assert(vertices@.take(i as int).push(vertices@[i as int]) =~= vertices@.take(
                i as int + 1,
            ));
            i += 1;
        }
        assert(vertices@.take(n as int) =~= vertices@);
        self.vertices = copy;
        self.initialize();
    }

    /// `p` is the polygon raised on the hull `ring` of `cloud` about
    /// `(x, y)`, with `r` times `scale` as its bounding radius.
    pub open spec fn raised(
        cloud: Seq<Vector2d<T>>,
        ring: Seq<Vector2d<T>>,
        x: T,
        y: T,
        r: T,
        scale: T,
        before: Object<T>,
        magnitudes: Seq<T>,
        k: MassUnits<T>,
        p: Polygon<T>,
    ) -> bool {
        &&& Self::is_hull(cloud, ring)
        &&& forall|i: int| 0 <= i < ring.len() ==> member(cloud, #[trigger] ring[i])
        &&& is_ratio(15, 10, scale)
        &&& before.at_rest(x, y)
        &&& lawful::<T>() ==> p.radius == r.mul_spec(scale)
        &&& lawful::<T>() ==> Self::shaped(
            ring,
            before,
            magnitudes,
            k,
            p.vertices@,
            p.normals@,
            p.object,
        )
    }

    /// `p` is a polygon built about `(x, y)` on the convex hull of `cloud`,
    /// with one and a half times `r` as its bounding radius.
    pub open spec fn built(cloud: Seq<Vector2d<T>>, x: T, y: T, r: T, p: Polygon<T>) -> bool {
        &&& p.wf()
        &&& 1 <= p.vertices@.len() <= cloud.len()
        &&& p.object.placed(x, y)
        &&& exists|
            ring: Seq<Vector2d<T>>,
            scale: T,
            before: Object<T>,
            magnitudes: Seq<T>,
            k: MassUnits<T>,
        | #[trigger]
            Self::raised(cloud, ring, x, y, r, scale, before, magnitudes, k, p)
    }

    /// The polygon about `(x, y)` on the convex hull of `cloud`. `None`
    /// where the system's random source fails, from which the colour is
    /// drawn.
    pub fn from_cloud(x: T, y: T, r: T, cloud: &Vec<Vector2d<T>>) -> (p: Option<Polygon<T>>)
        requires
            cloud@.len() >= 1,
        ensures
            p is Some ==> p->0.wf() && Self::built(cloud@, x, y, r, p->0),
    {
        let before = match Object::new(x, y) {
            Some(object) => object,
            None => {
                return None;
            },
        };
        Some(Self::raise(x, y, r, cloud, before))
    }

    /// The polygon about `(x, y)` on the convex hull of `cloud`, with the
    /// state `before`.
    fn raise(x: T, y: T, r: T, cloud: &Vec<Vector2d<T>>, before: Object<T>) -> (p: Polygon<T>)
        requires
            cloud@.len() >= 1,
            before.at_rest(x, y),
        ensures
            p.wf(),
            Self::built(cloud@, x, y, r, p),
    {
        let ring = Self::convex_hull(cloud);
        let ghost hull = ring@;
        let scale: T = ratio(15, 10);
        let mut polygon = Polygon {
            radius: product(r, scale),
            vertices: ring,
            normals: Vec::new(),
            object: before,
        };
        polygon.initialize();
        proof {
            if lawful::<T>() {
                let (magnitudes, k) = choose|magnitudes: Seq<T>, k: MassUnits<T>| #[trigger]
                    Self::shaped(
                        hull,
                        before,
                        magnitudes,
                        k,
                        polygon.vertices@,
                        polygon.normals@,
                        polygon.object,
                    );
                assert(Self::raised(
                    cloud@,
                    hull,
                    x,
                    y,
                    r,
                    scale,
                    before,
                    magnitudes,
                    k,
                    polygon,
                ));
            } else {
                let k = MassUnits::<T> {
                    nothing: r,
                    half: r,
                    third: r,
                    six: r,
                    unit: r,
                };
                assert(Self::raised(
                    cloud@,
                    hull,
                    x,
                    y,
                    r,
                    scale,
                    before,
                    Seq::empty(),
                    k,
                    polygon,
                ));
            }
        }
        polygon
    }

    /// `x` is the coordinate that the draw `n` gives in a square of
    /// half-width `r`: what the scalar type gave for `n`, divided by what it
    /// gave for 10000, times `r`.
    pub open spec fn sample(n: i64, r: T, x: T) -> bool {
        exists|drawn: T, grid: T| #[trigger]
            is_scalar(n, drawn) && #[trigger] is_scalar(10000, grid) && (lawful::<T>() ==> x
                == drawn.div_spec(grid).mul_spec(r))
    }

    /// `a` and `b` are two draws: numbers drawn from `0 ..= 20000`, less
    /// 10000.
    pub open spec fn draws(a: i64, b: i64) -> bool {
        &&& -10000 <= a <= 10000 && Rng::drawn_in(0, 20000, a + 10000)
        &&& -10000 <= b <= 10000 && Rng::drawn_in(0, 20000, b + 10000)
    }

    /// The coordinates of `v` are what two draws give.
    pub open spec fn sampled_point(v: Vector2d<T>, r: T) -> bool {
        exists|a: i64, b: i64| #[trigger]
            Self::draws(a, b) && Self::sample(a, r, v.x) && Self::sample(b, r, v.y)
    }

    /// Every point of `cloud` has for each coordinate one of the 20001
    /// values that the draws `-10000 ..= 10000` give.
    pub open spec fn sampled(cloud: Seq<Vector2d<T>>, r: T) -> bool {
        forall|i: int| 0 <= i < cloud.len() ==> Self::sampled_point(#[trigger] cloud[i], r)
    }

    /// `p` is a polygon built about `(x, y)` on the hull of a cloud of
    /// sampled points, their number drawn from `3 ..= 64`.
    pub open spec fn made(x: T, y: T, r: T, p: Polygon<T>) -> bool {
        exists|cloud: Seq<Vector2d<T>>|
            3 <= cloud.len() <= 64 && Rng::drawn_in(3, 64, cloud.len() as int) && Self::sampled(
                cloud,
                r,
            ) && #[trigger] Self::built(cloud, x, y, r, p)
    }

    /// A random convex polygon about `(x, y)`: the hull of 3 to 64 points
    /// drawn from the square of half-width `r` about the origin, each
    /// coordinate one of 20001 evenly spaced values. `None` where the
    /// system's random source fails.
    pub fn new(x: T, y: T, r: T) -> (p: Option<Polygon<T>>)
        ensures
            p is Some ==> p->0.wf() && Self::made(x, y, r, p->0),
    {
        let mut rng = match Rng::new() {
            Some(rng) => rng,
            None => {
                return None;
            },
        };
        let count = match rng.gen_range(3, 64) {
            Some(n) => n,
            None => {
                return None;
            },
        };
        let grid: T = scalar(10000);
        let mut cloud: Vec<Vector2d<T>> = Vec::new();
        let mut i: i32 = 0;
        while i < count
            invariant
                3 <= count <= 64,
                Rng::drawn_in(3, 64, count as int),
                0 <= i <= count,
                cloud@.len() == i,
                is_scalar(10000, grid),
                Self::sampled(cloud@, r),
            decreases count - i,
        {
            let a = match rng.gen_range(0, 20000) {
                Some(n) => n - 10000,
                None => {
                    return None;
                },
            };
            let b = match rng.gen_range(0, 20000) {
                Some(n) => n - 10000,
                None => {
                    return None;
                },
            };
            let drawn_x: T = scalar(a as i64);
            let drawn_y: T = scalar(b as i64);
            let px = product(quotient(drawn_x, grid), r);
            let py = product(quotient(drawn_y, grid), r);
            let ghost before = cloud@;
            cloud.push(Vector2d::new(px, py));
            proof {
                assert(is_scalar(a as i64, drawn_x) && is_scalar(10000, grid));
                assert(Self::sample(a as i64, r, px));
                assert(is_scalar(b as i64, drawn_y) && is_scalar(10000, grid));
                assert(Self::sample(b as i64, r, py));
                assert(Self::draws(a as i64, b as i64));
                assert forall|j: int| 0 <= j < cloud@.len() implies Self::sampled_point(
                    #[trigger] cloud@[j],
                    r,
                ) by {
                    if j < before.len() {
                        assert(cloud@[j] == before[j]);
                    }
                }
            }
            i += 1;
        }
        Self::from_cloud(x, y, r, &cloud)
    }
}

/// A body of either shape.
pub enum RigidBody<T> {
    Circle(Circle<T>),
    Polygon(Polygon<T>),
}

impl<T: Float> RigidBody<T> {
    /// A polygon has a normal for every edge.
    pub open spec fn wf(&self) -> bool {
        match self {
            RigidBody::Circle(_) => true,
            RigidBody::Polygon(p) => p.wf(),
        }
    }

    /// The body's state.
    pub open spec fn state(&self) -> Object<T> {
        match self {
            RigidBody::Circle(c) => c.object,
            RigidBody::Polygon(p) => p.object,
        }
    }

    /// The bounding radius.
    pub open spec fn reach(&self) -> T {
        match self {
            RigidBody::Circle(c) => c.radius,
            RigidBody::Polygon(p) => p.radius,
        }
    }

    /// The same shape with the state `o`.
    pub open spec fn with_state(self, o: Object<T>) -> Self {
        match self {
            RigidBody::Circle(c) => RigidBody::Circle(Circle { object: o, ..c }),
            RigidBody::Polygon(p) => RigidBody::Polygon(Polygon { object: o, ..p }),
        }
    }

    /// Whether a polygon has a normal for every edge.
    pub fn is_well_formed(&self) -> (r: bool)
        ensures
            r == self.wf(),
    {
        match self {
            RigidBody::Circle(_) => true,
            RigidBody::Polygon(p) => p.is_well_formed(),
        }
    }

    pub fn radius(&self) -> (r: T)
        ensures
            r == self.reach(),
    {
        match self {
            RigidBody::Circle(c) => c.radius,
            RigidBody::Polygon(p) => p.radius,
        }
    }

    pub fn object(&self) -> (o: Object<T>)
        ensures
            o == self.state(),
    {
        match self {
            RigidBody::Circle(c) => c.object,
            RigidBody::Polygon(p) => p.object,
        }
    }

    /// Replaces the body's state and leaves its shape.
    pub fn set_object(&mut self, o: Object<T>)
        ensures
            *final(self) == old(self).with_state(o),
    {
        match self {
            RigidBody::Circle(c) => {
                c.object = o;
            },
            RigidBody::Polygon(p) => {
                p.object = o;
            },
        }
    }

    pub fn integrate_forces(&mut self, dt: T, gravity: Vector2d<T>)
        ensures
            *final(self) == old(self).with_state(final(self).state()),
            old(self).state().forced(final(self).state(), dt, gravity),
            is_zero(old(self).state().inverse_mass) ==> *final(self) == *old(self),
    {
        let mut o = self.object();
        o.integrate_forces(dt, gravity);
        self.set_object(o);
    }

    pub fn integrate_velocity(&mut self, dt: T)
        ensures
            *final(self) == old(self).with_state(final(self).state()),
            old(self).state().drifted(final(self).state(), dt),
            is_zero(old(self).state().inverse_mass) ==> *final(self) == *old(self),
    {
        let mut o = self.object();
        o.integrate_velocity(dt);
        self.set_object(o);
    }

    pub fn clear_forces(&mut self)
        ensures
            *final(self) == old(self).with_state(final(self).state()),
            final(self).state() == (Object {
                force: final(self).state().force,
                torque: final(self).state().torque,
                ..old(self).state()
            }),
            is_zero(final(self).state().force.x),
            final(self).state().force.y == final(self).state().force.x,
            final(self).state().torque == final(self).state().force.x,
    {
        let mut o = self.object();
        o.clear_forces();
        self.set_object(o);
    }
}

} // verus!
