//! The scene: the bodies, and the step that moves them.
use crate::body::{Circle, MassUnits, Object, Polygon, RigidBody};
use crate::manifold::{Grip, Manifold};
use crate::math::{
    above, is_difference, is_product, is_ratio, is_scalar, is_zero, lawful, multiplied,
    quotient, ratio, said_above, scalar, sum, Constants, Vector2d,
};
use crate::random::Rng;
use num_traits::{Float, FloatConst};
use vstd::prelude::*;
use vstd::std_specs::cmp::PartialOrdIs;
use vstd::std_specs::ops::{AddSpec, DivSpec, MulSpec};

verus! {

/// The drawing surface as the simulation needs it: the size of the world it
/// shows, and how many pixels one unit of the world takes each way.
pub struct Canvas<T> {
    pub scaled_width: T,
    pub scaled_height: T,
    pub width: T,
    pub height: T,
}

impl<T: Float> Canvas<T> {
    /// The canvas has the scales that a surface of `pixel_width` by
    /// `pixel_height` pixels gives: what the scalar type gave for each,
    /// divided by the world's extent.
    pub open spec fn scaled(self, pixel_width: u32, pixel_height: u32) -> bool {
        exists|w: T, h: T| #[trigger]
            is_scalar(pixel_width as i64, w) && #[trigger] is_scalar(pixel_height as i64, h) && (
            lawful::<T>() ==> self.scaled_width == w.div_spec(self.width) && self.scaled_height
                == h.div_spec(self.height))
    }

    /// A surface of `pixel_width` by `pixel_height` pixels that shows a world
    /// of `width` by `height`.
    pub fn new(pixel_width: u32, pixel_height: u32, width: T, height: T) -> (c: Self)
        ensures
            c.width == width,
            c.height == height,
            c.scaled(pixel_width, pixel_height),
    {
        let w: T = scalar(pixel_width as i64);
        let h: T = scalar(pixel_height as i64);
        let c = Canvas {
            scaled_width: quotient(w, width),
            scaled_height: quotient(h, height),
            width,
            height,
        };
        assert(is_scalar(pixel_width as i64, w) && is_scalar(pixel_height as i64, h));
        c
    }

    /// Takes the surface's new size in pixels, and sets the scales by it.
    pub fn resize(&mut self, pixel_height: u32, pixel_width: u32)
        ensures
            final(self).width == old(self).width,
            final(self).height == old(self).height,
            final(self).scaled(pixel_width, pixel_height),
    {
        let w: T = scalar(pixel_width as i64);
        let h: T = scalar(pixel_height as i64);
        self.scaled_width = quotient(w, self.width);
        self.scaled_height = quotient(h, self.height);
        assert(is_scalar(pixel_width as i64, w) && is_scalar(pixel_height as i64, h));
    }
}

/// Two places in the list of bodies, the first before the second.
#[derive(Clone, Copy)]
pub struct Pair {
    pub a: usize,
    pub b: usize,
}

/// The pair `(i, j)` is among `pairs`.
pub open spec fn listed(pairs: Seq<Pair>, i: int, j: int) -> bool {
    exists|p: int| 0 <= p < pairs.len() && #[trigger] pairs[p].a == i && pairs[p].b == j
}

/// `(i, j)` comes before `(m, n)` in the order in which pairs are tried.
pub open spec fn earlier(i: int, j: int, m: int, n: int) -> bool {
    i < m || (i == m && j < n)
}

pub struct Scene<T> {
    pub canvas: Canvas<T>,
    pub m_dt: T,
    pub m_iterations: u32,
    pub gravity: Vector2d<T>,
    pub bodies: Vec<RigidBody<T>>,
    pub contacts: Vec<Manifold<T>>,
    pub pairs: Vec<Pair>,
    pub rng: Rng,
}

impl<T: Float> Scene<T> {
    /// Every body is well formed, and every contact is between two bodies
    /// of the list.
    pub open spec fn wf(&self) -> bool {
        &&& forall|i: int| 0 <= i < self.bodies@.len() ==> (#[trigger] self.bodies@[i]).wf()
        &&& self.pairs@.len() == self.contacts@.len()
        &&& forall|p: int|
            0 <= p < self.pairs@.len() ==> (#[trigger] self.pairs@[p]).a < self.pairs@[p].b
                < self.bodies@.len()
    }

    /// `after` holds the bodies of `before` with the same shapes, in the
    /// same order; of their states only position, velocity, orientation and
    /// angular velocity may differ.
    pub open spec fn same_shapes(before: Seq<RigidBody<T>>, after: Seq<RigidBody<T>>) -> bool {
        &&& after.len() == before.len()
        &&& forall|i: int|
            0 <= i < before.len() ==> {
                &&& #[trigger] after[i] == before[i].with_state(after[i].state())
                &&& before[i].state().same_but_motion(after[i].state())
            }
    }

    /// Every body of `before` whose inverse mass is what the scalar type
    /// gave as its zero is the same in `after`.
    pub open spec fn fixed_stay(before: Seq<RigidBody<T>>, after: Seq<RigidBody<T>>) -> bool {
        &&& after.len() == before.len()
        &&& forall|i: int|
            0 <= i < before.len() && is_zero(before[i].state().inverse_mass) ==> #[trigger] after[i]
                == before[i]
    }

    /// The cheap test that lets a pair go untested: the squared distance of
    /// the centres exceeds the product of the two bounding radii, each times
    /// `scale`.
    pub open spec fn far(scale: T, a: RigidBody<T>, b: RigidBody<T>) -> bool {
        let r1 = a.reach().mul_spec(scale);
        let r2 = b.reach().mul_spec(scale);
        a.state().position.minus(b.state().position).len_square_spec().is_gt(&r1.mul_spec(r2))
    }

    /// The pair is tested for contact: it is not far apart, and not both of
    /// its bodies are immovable.
    pub open spec fn met(
        bodies: Seq<RigidBody<T>>,
        scale: T,
        k: Constants<T>,
        i: int,
        j: int,
    ) -> bool {
        &&& !Self::far(scale, bodies[i], bodies[j])
        &&& !(bodies[i].state().still(k.nothing) && bodies[j].state().still(k.nothing))
    }

    /// The contact `m` of the bodies at `i` and `j` can stand at one place
    /// in the list of contacts.
    pub open spec fn found(
        bodies: Seq<RigidBody<T>>,
        scale: T,
        k: Constants<T>,
        pair: Pair,
        m: Manifold<T>,
    ) -> bool {
        &&& pair.a < pair.b < bodies.len()
        &&& 1 <= m.contacts@.len() <= 2
        &&& Manifold::outcome(bodies[pair.a as int], bodies[pair.b as int], Some(m))
        &&& Self::far_said(scale, bodies[pair.a as int], bodies[pair.b as int], false)
        &&& lawful::<T>() ==> Self::met(bodies, scale, k, pair.a as int, pair.b as int)
    }

    /// What the detection phase leaves: for every pair of bodies that is
    /// neither far apart nor immovable in both, in the order `(0, 1)`,
    /// `(0, 2)`, ..., `(1, 2)`, ..., the contact that the detection may
    /// return for it, if it returns one.
    pub open spec fn detected(
        bodies: Seq<RigidBody<T>>,
        scale: T,
        k: Constants<T>,
        pairs: Seq<Pair>,
        contacts: Seq<Manifold<T>>,
    ) -> bool {
        &&& pairs.len() == contacts.len()
        &&& forall|p: int|
            0 <= p < pairs.len() ==> Self::found(bodies, scale, k, #[trigger] pairs[p], contacts[p])
        &&& forall|p: int, q: int|
            0 <= p < q < pairs.len() ==> earlier(
                (#[trigger] pairs[p]).a as int,
                pairs[p].b as int,
                (#[trigger] pairs[q]).a as int,
                pairs[q].b as int,
            )
        &&& lawful::<T>() ==> forall|i: int, j: int|
            0 <= i < j < bodies.len() ==> #[trigger] listed(pairs, i, j) || !Self::met(
                bodies,
                scale,
                k,
                i,
                j,
            ) || Manifold::outcome(bodies[i], bodies[j], None)
    }

    /// Every body of `after` is that of `before` after the force phase.
    pub open spec fn forces_phase(
        before: Seq<RigidBody<T>>,
        after: Seq<RigidBody<T>>,
        dt: T,
        gravity: Vector2d<T>,
        k: Constants<T>,
    ) -> bool {
        &&& after.len() == before.len()
        &&& forall|i: int|
            0 <= i < before.len() ==> #[trigger] after[i] == before[i].with_state(
                before[i].state().sped(dt, gravity, k.nothing),
            )
    }

    /// Every body of `after` is that of `before` after the velocity phase.
    pub open spec fn velocity_phase(
        before: Seq<RigidBody<T>>,
        after: Seq<RigidBody<T>>,
        dt: T,
        k: Constants<T>,
    ) -> bool {
        &&& after.len() == before.len()
        &&& forall|i: int|
            0 <= i < before.len() ==> #[trigger] after[i] == before[i].with_state(
                before[i].state().carried(dt, k.nothing),
            )
    }

    /// `after` is `before` with the states of the bodies at `pair` replaced.
    pub open spec fn touched(
        before: Seq<RigidBody<T>>,
        after: Seq<RigidBody<T>>,
        pair: Pair,
    ) -> bool {
        after == before.update(
            pair.a as int,
            before[pair.a as int].with_state(after[pair.a as int].state()),
        ).update(pair.b as int, before[pair.b as int].with_state(after[pair.b as int].state()))
    }

    /// `after` is `before` after one pass of the impulse solver on the
    /// contact `m` of the bodies at `pair`.
    pub open spec fn pushed(
        before: Seq<RigidBody<T>>,
        after: Seq<RigidBody<T>>,
        m: Manifold<T>,
        pair: Pair,
    ) -> bool {
        &&& Self::touched(before, after, pair)
        &&& lawful::<T>() ==> exists|k: Constants<T>, count: T, grips: Seq<Grip<T>>| #[trigger]
            m.impulse_outcome(
                before[pair.a as int].state(),
                before[pair.b as int].state(),
                k,
                count,
                grips,
                (after[pair.a as int].state(), after[pair.b as int].state()),
            )
    }

    /// `after` is `start` after the solver has gone over the first `n`
    /// contacts, in their order.
    pub open spec fn swept(
        start: Seq<RigidBody<T>>,
        after: Seq<RigidBody<T>>,
        contacts: Seq<Manifold<T>>,
        pairs: Seq<Pair>,
        n: int,
    ) -> bool
        decreases n,
    {
        if n <= 0 {
            after == start
        } else {
            exists|mid: Seq<RigidBody<T>>|
                Self::swept(start, mid, contacts, pairs, n - 1) && #[trigger] Self::pushed(
                    mid,
                    after,
                    contacts[n - 1],
                    pairs[n - 1],
                )
        }
    }

    /// `after` is `start` after `rounds` sweeps of the solver over all the
    /// contacts.
    pub open spec fn solved(
        start: Seq<RigidBody<T>>,
        after: Seq<RigidBody<T>>,
        contacts: Seq<Manifold<T>>,
        pairs: Seq<Pair>,
        rounds: int,
    ) -> bool
        decreases rounds,
    {
        if rounds <= 0 {
            after == start
        } else {
            exists|mid: Seq<RigidBody<T>>|
                Self::solved(start, mid, contacts, pairs, rounds - 1) && #[trigger] Self::swept(
                    mid,
                    after,
                    contacts,
                    pairs,
                    contacts.len() as int,
                )
        }
    }

    /// `after` is `before` after the position correction for the contact
    /// `m` of the bodies at `pair`.
    pub open spec fn eased(
        before: Seq<RigidBody<T>>,
        after: Seq<RigidBody<T>>,
        m: Manifold<T>,
        pair: Pair,
    ) -> bool {
        &&& Self::touched(before, after, pair)
        &&& lawful::<T>() ==> exists|k: Constants<T>, depth: T| #[trigger]
            m.corrected(
                before[pair.a as int].state(),
                before[pair.b as int].state(),
                k,
                depth,
                (after[pair.a as int].state(), after[pair.b as int].state()),
            )
    }

    /// `after` is `start` after the positions have been corrected for the
    /// first `n` contacts, in their order.
    pub open spec fn relaxed(
        start: Seq<RigidBody<T>>,
        after: Seq<RigidBody<T>>,
        contacts: Seq<Manifold<T>>,
        pairs: Seq<Pair>,
        n: int,
    ) -> bool
        decreases n,
    {
        if n <= 0 {
            after == start
        } else {
            exists|mid: Seq<RigidBody<T>>|
                Self::relaxed(start, mid, contacts, pairs, n - 1) && #[trigger] Self::eased(
                    mid,
                    after,
                    contacts[n - 1],
                    pairs[n - 1],
                )
        }
    }

    /// `after` is `before` after one step of `dt`, for constants `k` that the
    /// scalar type gave; `sped`, `solved` and `carried` are the bodies
    /// between the phases.
    pub open spec fn stepped(
        before: Scene<T>,
        after: Scene<T>,
        dt: T,
        k: Constants<T>,
        sped: Seq<RigidBody<T>>,
        solved: Seq<RigidBody<T>>,
        carried: Seq<RigidBody<T>>,
    ) -> bool {
        &&& k.genuine()
        &&& Self::detected(
            before.bodies@,
            before.canvas.scaled_width,
            k,
            after.pairs@,
            after.contacts@,
        )
        &&& lawful::<T>() ==> Self::forces_phase(before.bodies@, sped, dt, before.gravity, k)
        &&& Self::solved(sped, solved, after.contacts@, after.pairs@, before.m_iterations as int)
        &&& lawful::<T>() ==> Self::velocity_phase(solved, carried, dt, k)
        &&& Self::relaxed(
            carried,
            after.bodies@,
            after.contacts@,
            after.pairs@,
            after.contacts@.len() as int,
        )
    }
}

impl<T: Float> Scene<T> {
    /// The detection has dealt with every pair that comes before `(i, j)`.
    pub open spec fn covered(
        bodies: Seq<RigidBody<T>>,
        scale: T,
        k: Constants<T>,
        pairs: Seq<Pair>,
        contacts: Seq<Manifold<T>>,
        i: int,
        j: int,
    ) -> bool {
        &&& pairs.len() == contacts.len()
        &&& forall|p: int|
            0 <= p < pairs.len() ==> Self::found(bodies, scale, k, #[trigger] pairs[p], contacts[p])
        &&& forall|p: int, q: int|
            0 <= p < q < pairs.len() ==> earlier(
                (#[trigger] pairs[p]).a as int,
                pairs[p].b as int,
                (#[trigger] pairs[q]).a as int,
                pairs[q].b as int,
            )
        &&& forall|p: int|
            0 <= p < pairs.len() ==> earlier(
                (#[trigger] pairs[p]).a as int,
                pairs[p].b as int,
                i,
                j,
            )
        &&& lawful::<T>() ==> forall|m: int, n: int|
            0 <= m < n < bodies.len() && earlier(m, n, i, j) ==> #[trigger] listed(pairs, m, n)
                || !Self::met(bodies, scale, k, m, n) || Manifold::outcome(
                bodies[m],
                bodies[n],
                None,
            )
    }

    /// The cheap test on `a` and `b`, step by step: the two bounding radii
    /// times `scale` are `r1` and `r2`, their product is `bound`, the offset
    /// of the centres is `gap` and its squared length `square`, each as the
    /// scalar type gave it; and `r` is what it said of `square > bound`.
    pub open spec fn far_trace(
        scale: T,
        a: RigidBody<T>,
        b: RigidBody<T>,
        r1: T,
        r2: T,
        bound: T,
        gap: Vector2d<T>,
        square: T,
        r: bool,
    ) -> bool {
        &&& is_product(a.reach(), scale, r1)
        &&& is_product(b.reach(), scale, r2)
        &&& is_product(r1, r2, bound)
        &&& is_difference(a.state().position.x, b.state().position.x, gap.x)
        &&& is_difference(a.state().position.y, b.state().position.y, gap.y)
        &&& gap.squares_to(square)
        &&& said_above(square, bound, r)
    }

    /// `r` is what the cheap test may say of `a` and `b`: true where they
    /// are too far apart to be tested for contact.
    pub open spec fn far_said(scale: T, a: RigidBody<T>, b: RigidBody<T>, r: bool) -> bool {
        exists|r1: T, r2: T, bound: T, gap: Vector2d<T>, square: T| #[trigger]
            Self::far_trace(scale, a, b, r1, r2, bound, gap, square, r)
    }

    /// Of every pair of bodies the cheap test can only say that they are
    /// too far apart to be tested for contact.
    pub open spec fn all_far(bodies: Seq<RigidBody<T>>, scale: T) -> bool {
        forall|i: int, j: int, r: bool|
            0 <= i < j < bodies.len() && #[trigger] Self::far_said(scale, bodies[i], bodies[j], r)
                ==> r
    }

    /// Whether the two bodies are too far apart to be tested for contact.
    pub fn separated(a: &RigidBody<T>, b: &RigidBody<T>, scale: T) -> (r: bool)
        ensures
            Self::far_said(scale, *a, *b, r),
            lawful::<T>() ==> r == Self::far(scale, *a, *b),
    {
        let r1 = multiplied(a.radius(), scale);
        let r2 = multiplied(b.radius(), scale);
        let bound = multiplied(r1, r2);
        let gap = a.object().position.less(&b.object().position);
        let square = gap.len_square();
        let r = above(square, bound);
        assert(Self::far_trace(scale, *a, *b, r1, r2, bound, gap, square, r));
        r
    }

    /// Where the cheap test can only say of every pair of bodies that they
    /// are far apart, the detection lists no contact.
    pub proof fn lemma_far_apart_no_contact(
        bodies: Seq<RigidBody<T>>,
        scale: T,
        k: Constants<T>,
        pairs: Seq<Pair>,
        contacts: Seq<Manifold<T>>,
    )
        requires
            Self::detected(bodies, scale, k, pairs, contacts),
            Self::all_far(bodies, scale),
        ensures
            pairs.len() == 0,
            contacts.len() == 0,
    {
        if pairs.len() > 0 {
            let pair = pairs[0];
            assert(Self::found(bodies, scale, k, pair, contacts[0]));
            assert(Self::far_said(scale, bodies[pair.a as int], bodies[pair.b as int], false));
        }
    }

    /// Finds the contacts of this step: every pair of bodies is tried once,
    /// in the order of the list.
    fn detect(&mut self, k: Constants<T>)
        requires
            forall|i: int|
                0 <= i < old(self).bodies@.len() ==> (#[trigger] old(self).bodies@[i]).wf(),
        ensures
            final(self).bodies == old(self).bodies,
            final(self).canvas == old(self).canvas,
            final(self).m_dt == old(self).m_dt,
            final(self).m_iterations == old(self).m_iterations,
            final(self).gravity == old(self).gravity,
            final(self).wf(),
            Self::detected(
                final(self).bodies@,
                final(self).canvas.scaled_width,
                k,
                final(self).pairs@,
                final(self).contacts@,
            ),
    {
        let mut contacts: Vec<Manifold<T>> = Vec::new();
        let mut pairs: Vec<Pair> = Vec::new();
        let n = self.bodies.len();
        let scale = self.canvas.scaled_width;
        let mut i: usize = 0;
        while i < n
            invariant
                *self == *old(self),
                n == self.bodies@.len(),
                i <= n,
                scale == self.canvas.scaled_width,
                forall|m: int| 0 <= m < self.bodies@.len() ==> (#[trigger] self.bodies@[m]).wf(),
                Self::covered(self.bodies@, scale, k, pairs@, contacts@, i as int, i + 1),
            decreases n - i,
        {
            let mut j: usize = i + 1;
            while j < n
                invariant
                    *self == *old(self),
                    n == self.bodies@.len(),
                    i < n,
                    i + 1 <= j <= n,
                    scale == self.canvas.scaled_width,
                    forall|m: int|
                        0 <= m < self.bodies@.len() ==> (#[trigger] self.bodies@[m]).wf(),
                    Self::covered(self.bodies@, scale, k, pairs@, contacts@, i as int, j as int),
                decreases n - j,
            {
                let ghost before_pairs = pairs@;
                let ghost before_contacts = contacts@;
                let body_a = &self.bodies[i];
                let body_b = &self.bodies[j];
                let mut hit = false;
                if !Self::separated(body_a, body_b, scale) {
                    if !(body_a.object().rests(k.nothing) && body_b.object().rests(k.nothing)) {
                        match Manifold::solve_collision(body_a, body_b) {
                            Some(m) => {
                                contacts.push(m);
                                pairs.push(Pair { a: i, b: j });
                                hit = true;
                            },
                            None => {},
                        }
                    }
                }
                proof {
                    let bodies = self.bodies@;
                    if hit {
                        let last = before_pairs.len() as int;
                        assert(pairs@[last] == (Pair { a: i, b: j }));
                        assert forall|p: int| 0 <= p < pairs@.len() implies Self::found(
                            bodies,
                            scale,
                            k,
                            #[trigger] pairs@[p],
                            contacts@[p],
                        ) by {
                            if p < last {
                                assert(pairs@[p] == before_pairs[p]);
                                assert(contacts@[p] == before_contacts[p]);
                            }
                        }
                        assert forall|p: int, q: int| 0 <= p < q < pairs@.len() implies earlier(
                            (#[trigger] pairs@[p]).a as int,
                            pairs@[p].b as int,
                            (#[trigger] pairs@[q]).a as int,
                            pairs@[q].b as int,
                        ) by {
                            assert(pairs@[p] == before_pairs[p]);
                            if q < last {
                                assert(pairs@[q] == before_pairs[q]);
                            }
                        }
                        assert forall|p: int| 0 <= p < pairs@.len() implies earlier(
                            (#[trigger] pairs@[p]).a as int,
                            pairs@[p].b as int,
                            i as int,
                            j + 1,
                        ) by {
                            if p < last {
                                assert(pairs@[p] == before_pairs[p]);
                            }
                        }
                    }
                    if lawful::<T>() {
                        assert forall|m: int, n: int|
                            0 <= m < n < bodies.len() && earlier(m, n, i as int, j + 1) implies
                            #[trigger] listed(pairs@, m, n) || !Self::met(bodies, scale, k, m, n)
                                || Manifold::outcome(bodies[m], bodies[n], None) by {
                            if earlier(m, n, i as int, j as int) {
                                if listed(before_pairs, m, n) {
                                    let p = choose|p: int|
                                        0 <= p < before_pairs.len() && #[trigger] before_pairs[p].a
                                            == m && before_pairs[p].b == n;
                                    assert(pairs@[p] == before_pairs[p]);
                                }
                            } else {
                                assert(m == i && n == j);
                                if hit {
                                    let last = before_pairs.len() as int;
                                    assert(pairs@[last].a == m && pairs@[last].b == n);
                                }
                            }
                        }
                    }
                }
                j += 1;
            }
            i += 1;
        }
        self.contacts = contacts;
        self.pairs = pairs;
    }

    /// The force phase: every body that is not immovable is accelerated.
    fn integrate_forces(&mut self, dt: T, k: Constants<T>)
        requires
            is_zero(k.nothing),
        ensures
            Self::fixed_stay(old(self).bodies@, final(self).bodies@),
            final(self).canvas == old(self).canvas,
            final(self).m_dt == old(self).m_dt,
            final(self).m_iterations == old(self).m_iterations,
            final(self).gravity == old(self).gravity,
            final(self).contacts == old(self).contacts,
            final(self).pairs == old(self).pairs,
            Self::same_shapes(old(self).bodies@, final(self).bodies@),
            lawful::<T>() ==> Self::forces_phase(
                old(self).bodies@,
                final(self).bodies@,
                dt,
                old(self).gravity,
                k,
            ),
    {
        let n = self.bodies.len();
        let mut i: usize = 0;
        while i < n
            invariant
                self.canvas == old(self).canvas,
                self.m_dt == old(self).m_dt,
                self.m_iterations == old(self).m_iterations,
                self.gravity == old(self).gravity,
                self.contacts == old(self).contacts,
                self.pairs == old(self).pairs,
                n == self.bodies@.len(),
                n == old(self).bodies@.len(),
                i <= n,
                forall|m: int| i <= m < n ==> #[trigger] self.bodies@[m] == old(self).bodies@[m],
                is_zero(k.nothing),
                forall|m: int|
                    0 <= m < i && is_zero(old(self).bodies@[m].state().inverse_mass)
                        ==> #[trigger] self.bodies@[m] == old(self).bodies@[m],
                forall|m: int|
                    0 <= m < i ==> {
                        &&& #[trigger] self.bodies@[m] == old(self).bodies@[m].with_state(
                            self.bodies@[m].state(),
                        )
                        &&& old(self).bodies@[m].state().same_but_motion(self.bodies@[m].state())
                    },
                lawful::<T>() ==> forall|m: int|
                    0 <= m < i ==> #[trigger] self.bodies@[m] == old(self).bodies@[m].with_state(
                        old(self).bodies@[m].state().sped(dt, self.gravity, k.nothing),
                    ),
            decreases n - i,
        {
            let ghost before = self.bodies@[i as int];
            let mut o = self.bodies[i].object();
            if !o.rests(k.nothing) {
                o.accelerate(dt, self.gravity);
            }
            self.bodies[i].set_object(o);
            assert(before.with_state(before.state()) == before);
            i += 1;
        }
    }

    /// The velocity phase: every body that is not immovable is moved.
    fn integrate_velocity(&mut self, dt: T, k: Constants<T>)
        requires
            is_zero(k.nothing),
        ensures
            Self::fixed_stay(old(self).bodies@, final(self).bodies@),
            final(self).canvas == old(self).canvas,
            final(self).m_dt == old(self).m_dt,
            final(self).m_iterations == old(self).m_iterations,
            final(self).gravity == old(self).gravity,
            final(self).contacts == old(self).contacts,
            final(self).pairs == old(self).pairs,
            Self::same_shapes(old(self).bodies@, final(self).bodies@),
            lawful::<T>() ==> Self::velocity_phase(old(self).bodies@, final(self).bodies@, dt, k),
    {
        let n = self.bodies.len();
        let mut i: usize = 0;
        while i < n
            invariant
                self.canvas == old(self).canvas,
                self.m_dt == old(self).m_dt,
                self.m_iterations == old(self).m_iterations,
                self.gravity == old(self).gravity,
                self.contacts == old(self).contacts,
                self.pairs == old(self).pairs,
                n == self.bodies@.len(),
                n == old(self).bodies@.len(),
                i <= n,
                forall|m: int| i <= m < n ==> #[trigger] self.bodies@[m] == old(self).bodies@[m],
                is_zero(k.nothing),
                forall|m: int|
                    0 <= m < i && is_zero(old(self).bodies@[m].state().inverse_mass)
                        ==> #[trigger] self.bodies@[m] == old(self).bodies@[m],
                forall|m: int|
                    0 <= m < i ==> {
                        &&& #[trigger] self.bodies@[m] == old(self).bodies@[m].with_state(
                            self.bodies@[m].state(),
                        )
                        &&& old(self).bodies@[m].state().same_but_motion(self.bodies@[m].state())
                    },
                lawful::<T>() ==> forall|m: int|
                    0 <= m < i ==> #[trigger] self.bodies@[m] == old(self).bodies@[m].with_state(
                        old(self).bodies@[m].state().carried(dt, k.nothing),
                    ),
            decreases n - i,
        {
            let ghost before = self.bodies@[i as int];
            let mut o = self.bodies[i].object();
            if !o.rests(k.nothing) {
                o.advance(dt);
            }
            self.bodies[i].set_object(o);
            assert(before.with_state(before.state()) == before);
            i += 1;
        }
    }
}

impl<T: Float> Scene<T> {
    /// Everything but the bodies' states is as in `before`.
    pub open spec fn same_setting(&self, before: &Scene<T>) -> bool {
        &&& self.canvas == before.canvas
        &&& self.m_dt == before.m_dt
        &&& self.m_iterations == before.m_iterations
        &&& self.gravity == before.gravity
        &&& self.contacts == before.contacts
        &&& self.pairs == before.pairs
        &&& Self::same_shapes(before.bodies@, self.bodies@)
    }

    /// One sweep of the impulse solver over all the contacts.
    fn sweep(&mut self)
        requires
            old(self).wf(),
        ensures
            final(self).wf(),
            final(self).same_setting(old(self)),
            Self::swept(
                old(self).bodies@,
                final(self).bodies@,
                final(self).contacts@,
                final(self).pairs@,
                final(self).contacts@.len() as int,
            ),
    {
        let count = self.contacts.len();
        let mut p: usize = 0;
        while p < count
            invariant
                self.wf(),
                self.same_setting(old(self)),
                count == self.contacts@.len(),
                p <= count,
                Self::swept(
                    old(self).bodies@,
                    self.bodies@,
                    self.contacts@,
                    self.pairs@,
                    p as int,
                ),
            decreases count - p,
        {
            let ghost mid = self.bodies@;
            let pair = self.pairs[p];
            let mut object_a = self.bodies[pair.a].object();
            let mut object_b = self.bodies[pair.b].object();
            self.contacts[p].apply_impulse(&mut object_a, &mut object_b);
            self.bodies[pair.a].set_object(object_a);
            self.bodies[pair.b].set_object(object_b);
            proof {
                assert(self.bodies@ =~= mid.update(
                    pair.a as int,
                    mid[pair.a as int].with_state(object_a),
                ).update(pair.b as int, mid[pair.b as int].with_state(object_b)));
                assert(Self::pushed(
                    mid,
                    self.bodies@,
                    self.contacts@[p as int],
                    self.pairs@[p as int],
                ));
                assert(Self::pushed(
                    mid,
                    self.bodies@,
                    self.contacts@[p + 1 - 1],
                    self.pairs@[p + 1 - 1],
                ));
                assert(Self::swept(
                    old(self).bodies@,
                    self.bodies@,
                    self.contacts@,
                    self.pairs@,
                    p + 1,
                ));
                assert forall|i: int| 0 <= i < mid.len() implies {
                    &&& #[trigger] self.bodies@[i] == old(self).bodies@[i].with_state(
                        self.bodies@[i].state(),
                    )
                    &&& old(self).bodies@[i].state().same_but_motion(self.bodies@[i].state())
                } by {
                    assert(mid[i] == old(self).bodies@[i].with_state(mid[i].state()));
                    assert(old(self).bodies@[i].state().same_but_motion(mid[i].state()));
                }
            }
            p += 1;
        }
    }

    /// The position correction, once for every contact.
    fn correct(&mut self)
        requires
            old(self).wf(),
        ensures
            final(self).wf(),
            final(self).same_setting(old(self)),
            Self::relaxed(
                old(self).bodies@,
                final(self).bodies@,
                final(self).contacts@,
                final(self).pairs@,
                final(self).contacts@.len() as int,
            ),
    {
        let count = self.contacts.len();
        let mut p: usize = 0;
        while p < count
            invariant
                self.wf(),
                self.same_setting(old(self)),
                count == self.contacts@.len(),
                p <= count,
                Self::relaxed(
                    old(self).bodies@,
                    self.bodies@,
                    self.contacts@,
                    self.pairs@,
                    p as int,
                ),
            decreases count - p,
        {
            let ghost mid = self.bodies@;
            let pair = self.pairs[p];
            let mut object_a = self.bodies[pair.a].object();
            let mut object_b = self.bodies[pair.b].object();
            self.contacts[p].position_correction(&mut object_a, &mut object_b);
            self.bodies[pair.a].set_object(object_a);
            self.bodies[pair.b].set_object(object_b);
            proof {
                assert(self.bodies@ =~= mid.update(
                    pair.a as int,
                    mid[pair.a as int].with_state(object_a),
                ).update(pair.b as int, mid[pair.b as int].with_state(object_b)));
                assert(Self::eased(
                    mid,
                    self.bodies@,
                    self.contacts@[p as int],
                    self.pairs@[p as int],
                ));
                assert(Self::eased(
                    mid,
                    self.bodies@,
                    self.contacts@[p + 1 - 1],
                    self.pairs@[p + 1 - 1],
                ));
                assert(Self::relaxed(
                    old(self).bodies@,
                    self.bodies@,
                    self.contacts@,
                    self.pairs@,
                    p + 1,
                ));
                assert forall|i: int| 0 <= i < mid.len() implies {
                    &&& #[trigger] self.bodies@[i] == old(self).bodies@[i].with_state(
                        self.bodies@[i].state(),
                    )
                    &&& old(self).bodies@[i].state().same_but_motion(self.bodies@[i].state())
                } by {
                    assert(mid[i] == old(self).bodies@[i].with_state(mid[i].state()));
                    assert(old(self).bodies@[i].state().same_but_motion(mid[i].state()));
                }
            }
            p += 1;
        }
    }

    /// The solver phase: as many sweeps over the contacts as the scene has
    /// iterations.
    fn solve(&mut self)
        requires
            old(self).wf(),
        ensures
            final(self).wf(),
            final(self).same_setting(old(self)),
            Self::solved(
                old(self).bodies@,
                final(self).bodies@,
                final(self).contacts@,
                final(self).pairs@,
                final(self).m_iterations as int,
            ),
    {
        let rounds = self.m_iterations;
        let mut round: u32 = 0;
        while round < rounds
            invariant
                self.wf(),
                self.same_setting(old(self)),
                rounds == self.m_iterations,
                round <= rounds,
                Self::solved(
                    old(self).bodies@,
                    self.bodies@,
                    self.contacts@,
                    self.pairs@,
                    round as int,
                ),
            decreases rounds - round,
        {
            let ghost mid = self.bodies@;
            self.sweep();
            proof {
                assert(Self::swept(
                    mid,
                    self.bodies@,
                    self.contacts@,
                    self.pairs@,
                    self.contacts@.len() as int,
                ));
                assert forall|i: int| 0 <= i < mid.len() implies {
                    &&& #[trigger] self.bodies@[i] == old(self).bodies@[i].with_state(
                        self.bodies@[i].state(),
                    )
                    &&& old(self).bodies@[i].state().same_but_motion(self.bodies@[i].state())
                } by {
                    assert(mid[i] == old(self).bodies@[i].with_state(mid[i].state()));
                    assert(old(self).bodies@[i].state().same_but_motion(mid[i].state()));
                }
            }
            round += 1;
        }
    }

    /// Advances the simulation by one tick of the scene's own length. Where
    /// every pair of bodies is too far apart to be tested, it finds no
    /// contact; and where it finds none, every immovable body is left as it
    /// was.
    pub fn step(&mut self)
        requires
            forall|i: int|
                0 <= i < old(self).bodies@.len() ==> (#[trigger] old(self).bodies@[i]).wf(),
        ensures
            final(self).wf(),
            final(self).canvas == old(self).canvas,
            final(self).m_dt == old(self).m_dt,
            final(self).m_iterations == old(self).m_iterations,
            final(self).gravity == old(self).gravity,
            Self::same_shapes(old(self).bodies@, final(self).bodies@),
            final(self).contacts@.len() == 0 ==> Self::fixed_stay(
                old(self).bodies@,
                final(self).bodies@,
            ),
            Self::all_far(old(self).bodies@, old(self).canvas.scaled_width)
                ==> final(self).contacts@.len() == 0,
            exists|
                k: Constants<T>,
                sped: Seq<RigidBody<T>>,
                solved: Seq<RigidBody<T>>,
                carried: Seq<RigidBody<T>>,
            | #[trigger]
                Self::stepped(*old(self), *final(self), old(self).m_dt, k, sped, solved, carried),
    {
        self.step_by(self.m_dt);
    }

    /// Advances the simulation by one tick of `dt`: finds the contacts of
    /// every pair of bodies; lets the forces act; runs the impulse solver
    /// over the contacts, once for each iteration; lets the velocities act;
    /// corrects the positions, once for each contact.
    pub fn step_by(&mut self, dt: T)
        requires
            forall|i: int|
                0 <= i < old(self).bodies@.len() ==> (#[trigger] old(self).bodies@[i]).wf(),
        ensures
            final(self).wf(),
            final(self).canvas == old(self).canvas,
            final(self).m_dt == old(self).m_dt,
            final(self).m_iterations == old(self).m_iterations,
            final(self).gravity == old(self).gravity,
            Self::same_shapes(old(self).bodies@, final(self).bodies@),
            final(self).contacts@.len() == 0 ==> Self::fixed_stay(
                old(self).bodies@,
                final(self).bodies@,
            ),
            Self::all_far(old(self).bodies@, old(self).canvas.scaled_width)
                ==> final(self).contacts@.len() == 0,
            exists|
                k: Constants<T>,
                sped: Seq<RigidBody<T>>,
                solved: Seq<RigidBody<T>>,
                carried: Seq<RigidBody<T>>,
            | #[trigger]
                Self::stepped(*old(self), *final(self), dt, k, sped, solved, carried),
    {
        let k = Constants::<T>::new();
        self.detect(k);
        let ghost found = self.bodies@;
        self.integrate_forces(dt, k);
        let ghost sped = self.bodies@;
        assert(self.wf()) by {
            assert forall|i: int| 0 <= i < sped.len() implies (#[trigger] sped[i]).wf() by {
                assert(found[i].wf());
            }
        }
        self.solve();
        let ghost solved = self.bodies@;
        self.integrate_velocity(dt, k);
        let ghost carried = self.bodies@;
        assert(self.wf()) by {
            assert forall|i: int| 0 <= i < carried.len() implies (#[trigger] carried[i]).wf() by {
                assert(solved[i].wf());
            }
        }
        self.correct();
        proof {
            assert forall|i: int| 0 <= i < found.len() implies {
                &&& #[trigger] self.bodies@[i] == found[i].with_state(self.bodies@[i].state())
                &&& found[i].state().same_but_motion(self.bodies@[i].state())
            } by {
                assert(sped[i] == found[i].with_state(sped[i].state()));
                assert(solved[i] == sped[i].with_state(solved[i].state()));
                assert(carried[i] == solved[i].with_state(carried[i].state()));
                assert(found[i].state().same_but_motion(sped[i].state()));
                assert(sped[i].state().same_but_motion(solved[i].state()));
                assert(solved[i].state().same_but_motion(carried[i].state()));
                assert(carried[i].state().same_but_motion(self.bodies@[i].state()));
            }
            assert(Self::stepped(*old(self), *self, dt, k, sped, solved, carried));
            if Self::all_far(old(self).bodies@, old(self).canvas.scaled_width) {
                Self::lemma_far_apart_no_contact(
                    old(self).bodies@,
                    old(self).canvas.scaled_width,
                    k,
                    self.pairs@,
                    self.contacts@,
                );
            }
            if self.contacts@.len() == 0 {
                Self::lemma_idle_solver(
                    sped,
                    solved,
                    self.contacts@,
                    self.pairs@,
                    self.m_iterations as int,
                );
                assert(self.bodies@ == carried);
                assert forall|i: int|
                    0 <= i < found.len() && is_zero(
                        found[i].state().inverse_mass,
                    ) implies #[trigger] self.bodies@[i] == found[i] by {
                    assert(sped[i] == found[i]);
                    assert(carried[i] == solved[i]);
                }
            }
        }
    }

    /// With no contact the solver leaves the bodies as they are.
    proof fn lemma_idle_solver(
        start: Seq<RigidBody<T>>,
        after: Seq<RigidBody<T>>,
        contacts: Seq<Manifold<T>>,
        pairs: Seq<Pair>,
        rounds: int,
    )
        requires
            contacts.len() == 0,
            Self::solved(start, after, contacts, pairs, rounds),
        ensures
            after == start,
        decreases rounds,
    {
        if rounds > 0 {
            let mid = choose|mid: Seq<RigidBody<T>>|
                Self::solved(start, mid, contacts, pairs, rounds - 1) && #[trigger] Self::swept(
                    mid,
                    after,
                    contacts,
                    pairs,
                    contacts.len() as int,
                );
            Self::lemma_idle_solver(start, mid, contacts, pairs, rounds - 1);
        }
    }

    /// Where every pair of bodies is far apart, a step finds no contact,
    /// and every body falls freely: an immovable body stays as it is, any
    /// other is accelerated by its forces and gravity for one tick and then
    /// moved by its new velocity for one tick.
    pub proof fn lemma_free_fall(
        before: Scene<T>,
        after: Scene<T>,
        dt: T,
        k: Constants<T>,
        sped: Seq<RigidBody<T>>,
        solved: Seq<RigidBody<T>>,
        carried: Seq<RigidBody<T>>,
    )
        requires
            lawful::<T>(),
            Self::stepped(before, after, dt, k, sped, solved, carried),
            forall|i: int, j: int|
                0 <= i < j < before.bodies@.len() ==> Self::far(
                    before.canvas.scaled_width,
                    #[trigger] before.bodies@[i],
                    #[trigger] before.bodies@[j],
                ),
        ensures
            after.contacts@.len() == 0,
            after.bodies@.len() == before.bodies@.len(),
            forall|i: int|
                0 <= i < before.bodies@.len() ==> #[trigger] after.bodies@[i]
                    == before.bodies@[i].with_state(
                    before.bodies@[i].state().sped(dt, before.gravity, k.nothing).carried(
                        dt,
                        k.nothing,
                    ),
                ),
    {
        if after.pairs@.len() > 0 {
            let pair = after.pairs@[0];
            assert(Self::found(
                before.bodies@,
                before.canvas.scaled_width,
                k,
                pair,
                after.contacts@[0],
            ));
            assert(Self::far(
                before.canvas.scaled_width,
                before.bodies@[pair.a as int],
                before.bodies@[pair.b as int],
            ));
        }
        Self::lemma_idle_solver(
            sped,
            solved,
            after.contacts@,
            after.pairs@,
            before.m_iterations as int,
        );
        assert(after.bodies@ == carried);
        assert forall|i: int| 0 <= i < before.bodies@.len() implies #[trigger] after.bodies@[i]
            == before.bodies@[i].with_state(
            before.bodies@[i].state().sped(dt, before.gravity, k.nothing).carried(dt, k.nothing),
        ) by {
            assert(sped[i] == before.bodies@[i].with_state(
                before.bodies@[i].state().sped(dt, before.gravity, k.nothing),
            ));
            assert(carried[i] == solved[i].with_state(solved[i].state().carried(dt, k.nothing)));
        }
    }

    /// Whether every body is well formed and every contact is between two
    /// bodies of the list.
    pub fn is_well_formed(&self) -> (r: bool)
        ensures
            r == self.wf(),
    {
        let n = self.bodies.len();
        let mut i: usize = 0;
        while i < n
            invariant
                n == self.bodies@.len(),
                i <= n,
                forall|m: int| 0 <= m < i ==> (#[trigger] self.bodies@[m]).wf(),
            decreases n - i,
        {
            if !self.bodies[i].is_well_formed() {
                return false;
            }
            i += 1;
        }
        if self.pairs.len() != self.contacts.len() {
            return false;
        }
        let count = self.pairs.len();
        let mut p: usize = 0;
        while p < count
            invariant
                n == self.bodies@.len(),
                count == self.pairs@.len(),
                p <= count,
                forall|q: int|
                    0 <= q < p ==> (#[trigger] self.pairs@[q]).a < self.pairs@[q].b < n,
            decreases count - p,
        {
            let pair = self.pairs[p];
            if !(pair.a < pair.b && pair.b < n) {
                return false;
            }
            p += 1;
        }
        true
    }

    /// Adds a body to the scene. It takes part from the next step on.
    pub fn add_body(&mut self, body: RigidBody<T>)
        requires
            old(self).wf(),
            body.wf(),
        ensures
            final(self).wf(),
            final(self).bodies@ == old(self).bodies@.push(body),
            final(self).canvas == old(self).canvas,
            final(self).m_dt == old(self).m_dt,
            final(self).m_iterations == old(self).m_iterations,
            final(self).gravity == old(self).gravity,
            final(self).contacts == old(self).contacts,
            final(self).pairs == old(self).pairs,
    {
        self.bodies.push(body);
    }

    /// Takes the drawing surface's new size: each side is cut to 800 pixels
    /// at most, and the scales follow. Returns the height and the width to
    /// give the surface.
    pub fn resize(&mut self, height: u32, width: u32) -> (r: (u32, u32))
        ensures
            r.0 == (if height < 800 { height } else { 800 }),
            r.1 == (if width < 800 { width } else { 800 }),
            final(self).canvas.width == old(self).canvas.width,
            final(self).canvas.height == old(self).canvas.height,
            final(self).canvas.scaled(r.1, r.0),
            final(self).bodies == old(self).bodies,
            final(self).m_dt == old(self).m_dt,
            final(self).m_iterations == old(self).m_iterations,
            final(self).gravity == old(self).gravity,
            final(self).contacts == old(self).contacts,
            final(self).pairs == old(self).pairs,
    {
        let h: u32 = if height < 800 {
            height
        } else {
            800
        };
        let w: u32 = if width < 800 {
            width
        } else {
            800
        };
        self.canvas.resize(h, w);
        (h, w)
    }
}

impl<T: Float + FloatConst> Scene<T> {
    /// `at` is the place in the world of the pixel `(x, y)` of the drawing
    /// surface: each coordinate divided by its scale.
    pub open spec fn aimed(canvas: Canvas<T>, x: T, y: T, at: Vector2d<T>) -> bool {
        lawful::<T>() ==> at == (Vector2d {
            x: x.div_spec(canvas.scaled_width),
            y: y.div_spec(canvas.scaled_height),
        })
    }

    /// `size` is `drawn / grid + base`, the three scalars being what the
    /// scalar type gave for the draw `draw`, a number drawn from
    /// `0 ..= 10000`, for `steps` and for `tenths / 10`.
    pub open spec fn drawn_size(
        draw: i64,
        steps: i64,
        tenths: i64,
        drawn: T,
        grid: T,
        base: T,
        size: T,
    ) -> bool {
        &&& 0 <= draw <= 10000
        &&& Rng::drawn_in(0, 10000, draw as int)
        &&& is_scalar(draw, drawn)
        &&& is_scalar(steps, grid)
        &&& is_ratio(tenths, 10, base)
        &&& lawful::<T>() ==> size == drawn.div_spec(grid).add_spec(base)
    }

    /// `size` is a random size: a draw from `0 ..= 10000` divided by `steps`,
    /// and `tenths / 10` more.
    pub open spec fn sized(steps: i64, tenths: i64, size: T) -> bool {
        exists|draw: i64, drawn: T, grid: T, base: T| #[trigger]
            Self::drawn_size(draw, steps, tenths, drawn, grid, base, size)
    }

    /// `c` is the immovable circle of the scene's start: a disc of radius 1
    /// made at (10, 10), then made immovable.
    pub open spec fn pinned_disc(c: Circle<T>) -> bool {
        exists|made: Circle<T>|
            is_scalar(1, made.radius) && is_scalar(10, made.object.position.x) && is_scalar(
                10,
                made.object.position.y,
            ) && #[trigger] Circle::made(
                made.object.position.x,
                made.object.position.y,
                made.radius,
                made,
            ) && c.radius == made.radius && made.object.anchoring(c.object)
    }

    /// `ring` is the ring of the slab of the scene's start: the corners
    /// `(-9, -0.5)`, `(9, -0.5)`, `(9, 0.5)` and `(-9, 0.5)`.
    pub open spec fn slab_ring(ring: Seq<Vector2d<T>>) -> bool {
        &&& ring.len() == 4
        &&& is_scalar((-9) as i64, ring[0].x) && is_ratio((-5) as i64, 10, ring[0].y)
        &&& is_scalar(9, ring[1].x) && is_ratio((-5) as i64, 10, ring[1].y)
        &&& is_scalar(9, ring[2].x) && is_ratio(5, 10, ring[2].y)
        &&& is_scalar((-9) as i64, ring[3].x) && is_ratio(5, 10, ring[3].y)
    }

    /// `p` is the immovable slab of the scene's start: a polygon made at
    /// (10, 17) with 18 for its size, given the slab's ring, then made
    /// immovable.
    pub open spec fn pinned_slab(p: Polygon<T>) -> bool {
        exists|made: Polygon<T>, ring: Seq<Vector2d<T>>, shaped: Object<T>|
            is_scalar(10, made.object.position.x) && is_scalar(17, made.object.position.y)
                && #[trigger] Self::slab_made(made, ring, shaped, p)
    }

    /// `made` is a polygon made with 18 for its size; `p` has its radius,
    /// the vertices and normals that initialising `ring` on it gives, and
    /// the state `shaped` that this leaves, made immovable.
    pub open spec fn slab_made(
        made: Polygon<T>,
        ring: Seq<Vector2d<T>>,
        shaped: Object<T>,
        p: Polygon<T>,
    ) -> bool {
        &&& exists|size: T|
            is_scalar(18, size) && #[trigger] Polygon::made(
                made.object.position.x,
                made.object.position.y,
                size,
                made,
            )
        &&& Self::slab_ring(ring)
        &&& p.radius == made.radius
        &&& p.wf()
        &&& lawful::<T>() ==> exists|magnitudes: Seq<T>, k: MassUnits<T>| #[trigger]
            Polygon::shaped(ring, made.object, magnitudes, k, p.vertices@, p.normals@, shaped)
        &&& shaped.anchoring(p.object)
    }

    /// `s` is the scene at its start on `canvas`: the immovable circle and
    /// the immovable slab, no contact, a tick of 1/60, ten solver iterations
    /// and a gravity of 9.8 along y.
    pub open spec fn started(s: Scene<T>, canvas: Canvas<T>) -> bool {
        &&& s.wf()
        &&& s.canvas == canvas
        &&& s.m_iterations == 10
        &&& s.contacts@.len() == 0
        &&& s.bodies@.len() == 2
        &&& s.bodies@[0] is Circle
        &&& s.bodies@[1] is Polygon
        &&& s.bodies@[1]->Polygon_0.vertices@.len() == 4
        &&& Self::pinned_disc(s.bodies@[0]->Circle_0)
        &&& Self::pinned_slab(s.bodies@[1]->Polygon_0)
        &&& is_ratio(1, 60, s.m_dt)
        &&& is_scalar(0, s.gravity.x)
        &&& is_ratio(98, 10, s.gravity.y)
    }

    /// The scene at its start: an immovable circle of radius 1 at (10, 10),
    /// an immovable slab 18 wide and 1 high about (10, 17), a tick of 1/60,
    /// ten solver iterations and a gravity of 9.8 along y. `None` where the
    /// system's random source fails, from which the colours, the slab's
    /// first ring and the scene's own generator come.
    pub fn new(canvas: Canvas<T>) -> (r: Option<Scene<T>>)
        ensures
            r is Some ==> Self::started(r->0, canvas),
    {
        let mut bodies: Vec<RigidBody<T>> = Vec::new();
        let mut fixed_circle = match Circle::new(scalar(10), scalar(10), scalar(1)) {
            Some(c) => c,
            None => {
                return None;
            },
        };
        let ghost made_circle = fixed_circle;
        fixed_circle.set_static();
        assert(Self::pinned_disc(fixed_circle)) by {
            assert(Circle::made(
                made_circle.object.position.x,
                made_circle.object.position.y,
                made_circle.radius,
                made_circle,
            ));
        }
        bodies.push(RigidBody::Circle(fixed_circle));

        let size: T = scalar(18);
        let mut fixed_rectangle = match Polygon::new(scalar(10), scalar(17), size) {
            Some(p) => p,
            None => {
                return None;
            },
        };
        let ghost made_slab = fixed_rectangle;
        let top_right = Vector2d::new(scalar(9), ratio(-5, 10));
        let top_left = Vector2d::new(scalar(-9), ratio(-5, 10));
        let bottom_left = Vector2d::new(scalar(-9), ratio(5, 10));
        let bottom_right = Vector2d::new(scalar(9), ratio(5, 10));
        let mut rectangle_vertices: Vec<Vector2d<T>> = Vec::new();
        rectangle_vertices.push(top_left);
        rectangle_vertices.push(top_right);
        rectangle_vertices.push(bottom_right);
        rectangle_vertices.push(bottom_left);
        fixed_rectangle.set_vertices(&rectangle_vertices);
        let ghost shaped = fixed_rectangle.object;
        fixed_rectangle.set_static();
        proof {
            assert(Polygon::made(
                made_slab.object.position.x,
                made_slab.object.position.y,
                size,
                made_slab,
            ));
            assert(Self::slab_ring(rectangle_vertices@));
            assert(Self::slab_made(made_slab, rectangle_vertices@, shaped, fixed_rectangle));
        }
        bodies.push(RigidBody::Polygon(fixed_rectangle));

        let rng = match Rng::new() {
            Some(rng) => rng,
            None => {
                return None;
            },
        };
        Some(
            Scene {
                canvas,
                m_dt: ratio(1, 60),
                m_iterations: 10,
                gravity: Vector2d::new(scalar(0), ratio(98, 10)),
                bodies,
                contacts: Vec::new(),
                pairs: Vec::new(),
                rng,
            },
        )
    }

    /// `c` is a circle of a random radius between 0.3 and 0.8 at the pixel
    /// `(x, y)` of the drawing surface.
    pub open spec fn circle_at(canvas: Canvas<T>, x: T, y: T, c: Circle<T>) -> bool {
        exists|at: Vector2d<T>, radius: T|
            Self::aimed(canvas, x, y, at) && Self::sized(20000, 3, radius)
                && #[trigger] Circle::made(at.x, at.y, radius, c)
    }

    /// `p` is a random polygon of a size between 0.5 and 1.5 at the pixel
    /// `(x, y)` of the drawing surface.
    pub open spec fn polygon_at(canvas: Canvas<T>, x: T, y: T, p: Polygon<T>) -> bool {
        exists|at: Vector2d<T>, size: T|
            Self::aimed(canvas, x, y, at) && Self::sized(10000, 5, size)
                && #[trigger] Polygon::made(at.x, at.y, size, p)
    }

    /// Adds a circle of a random radius between 0.3 and 0.8 where the
    /// pointer is: at the pixel `(x, y)` of the drawing surface. Says
    /// whether it did: where the system's random source fails, no body is
    /// added.
    pub fn add_circle(&mut self, x: T, y: T) -> (added: bool)
        requires
            old(self).wf(),
        ensures
            final(self).wf(),
            added ==> final(self).bodies@ == old(self).bodies@.push(final(self).bodies@.last())
                && final(self).bodies@.last() is Circle && Self::circle_at(
                old(self).canvas,
                x,
                y,
                final(self).bodies@.last()->Circle_0,
            ),
            !added ==> final(self).bodies@ == old(self).bodies@,
            final(self).canvas == old(self).canvas,
            final(self).m_dt == old(self).m_dt,
            final(self).m_iterations == old(self).m_iterations,
            final(self).gravity == old(self).gravity,
            final(self).contacts == old(self).contacts,
            final(self).pairs == old(self).pairs,
    {
        let draw = match self.rng.gen_range(0, 10000) {
            Some(n) => n,
            None => {
                return false;
            },
        };
        let drawn: T = scalar(draw as i64);
        let grid: T = scalar(20000);
        let base: T = ratio(3, 10);
        let radius = sum(quotient(drawn, grid), base);
        let at = Vector2d::new(
            quotient(x, self.canvas.scaled_width),
            quotient(y, self.canvas.scaled_height),
        );
        let c = match Circle::new(at.x, at.y, radius) {
            Some(c) => c,
            None => {
                return false;
            },
        };
        self.bodies.push(RigidBody::Circle(c));
        proof {
            assert(Self::drawn_size(draw as i64, 20000, 3, drawn, grid, base, radius));
            assert(Self::aimed(old(self).canvas, x, y, at) && Self::sized(20000, 3, radius)
                && Circle::made(at.x, at.y, radius, self.bodies@.last()->Circle_0));
        }
        true
    }

    /// Adds a random polygon of a size between 0.5 and 1.5 where the pointer
    /// is: at the pixel `(x, y)` of the drawing surface. Says whether it
    /// did: where the system's random source fails, no body is added.
    pub fn add_polygon(&mut self, x: T, y: T) -> (added: bool)
        requires
            old(self).wf(),
        ensures
            final(self).wf(),
            added ==> final(self).bodies@ == old(self).bodies@.push(final(self).bodies@.last())
                && final(self).bodies@.last() is Polygon && Self::polygon_at(
                old(self).canvas,
                x,
                y,
                final(self).bodies@.last()->Polygon_0,
            ),
            !added ==> final(self).bodies@ == old(self).bodies@,
            final(self).canvas == old(self).canvas,
            final(self).m_dt == old(self).m_dt,
            final(self).m_iterations == old(self).m_iterations,
            final(self).gravity == old(self).gravity,
            final(self).contacts == old(self).contacts,
            final(self).pairs == old(self).pairs,
    {
        let draw = match self.rng.gen_range(0, 10000) {
            Some(n) => n,
            None => {
                return false;
            },
        };
        let drawn: T = scalar(draw as i64);
        let grid: T = scalar(10000);
        let base: T = ratio(5, 10);
        let size = sum(quotient(drawn, grid), base);
        let at = Vector2d::new(
            quotient(x, self.canvas.scaled_width),
            quotient(y, self.canvas.scaled_height),
        );
        let p = match Polygon::new(at.x, at.y, size) {
            Some(p) => p,
            None => {
                return false;
            },
        };
        self.bodies.push(RigidBody::Polygon(p));
        proof {
            assert(Self::drawn_size(draw as i64, 10000, 5, drawn, grid, base, size));
            assert(Self::aimed(old(self).canvas, x, y, at) && Self::sized(10000, 5, size)
                && Polygon::made(at.x, at.y, size, self.bodies@.last()->Polygon_0));
        }
        true
    }
}

} // verus!
