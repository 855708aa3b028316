//! The circular rigid body: geometry, kinematics, derived mass, and the two
//! core physics operations — wall-reflecting velocity integration and the
//! mass-weighted elastic collision response.

use vstd::prelude::*;
use vstd::string::*;

use crate::arith::{div_trunc, isqrt, sqrt_floor, tdiv};
use crate::{
    DEFAULT_RADIUS, DENSITY_MILLI, MASS_LIMIT, PI_MILLI, POS_LIMIT, RADIUS_LIMIT, RADIUS_MIN,
    SCALE, SPEED_SCALE_LIMIT, VEL_LIMIT,
};

verus! {

/// A two-dimensional vector of tick coordinates.
#[derive(Clone, Copy, PartialEq, Eq, Structural, Debug)]
pub struct Vec2i {
    pub x: i64,
    pub y: i64,
}

impl Vec2i {
    pub fn new(x: i64, y: i64) -> (v: Vec2i)
        ensures
            v.x == x,
            v.y == y,
    {
        Vec2i { x, y }
    }
}

/// An RGBA color; display metadata with no effect on any physics computation.
#[derive(Clone, Copy, PartialEq, Eq, Structural, Debug)]
pub struct Rgba {
    pub r: u8,
    pub g: u8,
    pub b: u8,
    pub a: u8,
}

impl Rgba {
    pub fn white() -> (c: Rgba)
        ensures
            c == (Rgba { r: 255, g: 255, b: 255, a: 255 }),
    {
        Rgba { r: 255, g: 255, b: 255, a: 255 }
    }

    pub fn black() -> (c: Rgba)
        ensures
            c == (Rgba { r: 0, g: 0, b: 0, a: 255 }),
    {
        Rgba { r: 0, g: 0, b: 0, a: 255 }
    }

    pub fn red() -> (c: Rgba)
        ensures
            c == (Rgba { r: 255, g: 0, b: 0, a: 255 }),
    {
        Rgba { r: 255, g: 0, b: 0, a: 255 }
    }

    pub fn blue() -> (c: Rgba)
        ensures
            c == (Rgba { r: 0, g: 0, b: 255, a: 255 }),
    {
        Rgba { r: 0, g: 0, b: 255, a: 255 }
    }
}

/// The one modeled failure: an invariant violation — speed or position has
/// escaped physically sane bounds, or a value has left the fixed-point
/// representable range. Fatal: the host decides whether to halt or reset.
#[derive(Clone, Copy, PartialEq, Eq, Structural, Debug)]
pub enum PhysicsError {
    /// A velocity component exceeds the simulation area's extent.
    SpeedLimitExceeded,
    /// A position drifted more than two diameters outside the area.
    PositionOutOfArea,
    /// A computed value left the representable fixed-point range.
    NumericRange,
    /// Two colliding bodies have exactly coincident centers, so the line of
    /// impact is undefined.
    CoincidentCenters,
}

/// The mathematical model of a body: plain integers (ticks) plus the cosmetic
/// color and tag.
pub ghost struct BodyModel {
    pub px: int,
    pub py: int,
    pub vx: int,
    pub vy: int,
    pub radius: int,
    pub mass: int,
    pub color: Rgba,
    pub tag: Seq<char>,
}

/// Mass derived from a radius at uniform density: `density * pi * radius^2`,
/// evaluated in tick arithmetic.
pub open spec fn mass_model(r: int) -> int {
    ((r * r / (SCALE as int)) * (PI_MILLI as int) / (SCALE as int)) * (DENSITY_MILLI as int) / (
    SCALE as int)
}

/// Magnitude of an integer.
pub open spec fn iabs(x: int) -> int {
    if x >= 0 {
        x
    } else {
        -x
    }
}

/// A body whose fields are within the representable simulation domain and
/// whose mass is the one derived from its radius.
pub open spec fn valid_body(b: BodyModel) -> bool {
    &&& RADIUS_MIN <= b.radius <= RADIUS_LIMIT
    &&& b.mass == mass_model(b.radius)
    &&& 0 < b.mass <= MASS_LIMIT
    &&& iabs(b.px) <= POS_LIMIT
    &&& iabs(b.py) <= POS_LIMIT
    &&& iabs(b.vx) <= VEL_LIMIT
    &&& iabs(b.vy) <= VEL_LIMIT
}

/// Squared center distance of two bodies.
pub open spec fn dist_sq(a: BodyModel, b: BodyModel) -> int {
    (b.px - a.px) * (b.px - a.px) + (b.py - a.py) * (b.py - a.py)
}

/// Two bodies collide iff their center distance is strictly below the sum of
/// their radii (exact tangency does not count).
pub open spec fn spec_colliding(a: BodyModel, b: BodyModel) -> bool {
    dist_sq(a, b) < (a.radius + b.radius) * (a.radius + b.radius)
}

/// A point is touched iff its distance from the center is strictly below the
/// radius.
pub open spec fn spec_touching(b: BodyModel, x: int, y: int) -> bool {
    (x - b.px) * (x - b.px) + (y - b.py) * (y - b.py) < b.radius * b.radius
}

/// Clamps `v` into `[lo, hi]`, testing the lower bound first.
pub open spec fn spec_clamp(v: int, lo: int, hi: int) -> int {
    if v < lo {
        lo
    } else if v > hi {
        hi
    } else {
        v
    }
}

/// The body after one integration step, and the fatal diagnostic the step
/// raised, if any. The body is updated even when a diagnostic is raised.
pub ghost struct IntegrateOutcome {
    pub body: BodyModel,
    pub error: Option<PhysicsError>,
}

/// One integration step: advance the position by `velocity * dt *
/// speed_scale` (dt in milliseconds, so scaled down by `SCALE`), damp the
/// velocity by `friction / SCALE`, then reflect from the area's edges: on
/// each axis whose leading edge would cross a bound, negate that axis's
/// velocity and clamp the position into `[radius, bound - radius]`. Finally
/// the sanity conditions: a fatal diagnostic when a velocity component
/// exceeds the area's extent, or when the position sits more than two
/// diameters outside the area (the latter is provably never raised, since
/// reflection has just confined the position; it is kept because it is part
/// of the failure taxonomy).
pub open spec fn spec_integrate(
    b: BodyModel,
    sx: int,
    sy: int,
    dt: int,
    friction: int,
    speed_scale: int,
) -> IntegrateOutcome {
    let mpx = b.px + tdiv(b.vx * dt * speed_scale, SCALE as int);
    let mpy = b.py + tdiv(b.vy * dt * speed_scale, SCALE as int);
    let fvx = tdiv(b.vx * friction, SCALE as int);
    let fvy = tdiv(b.vy * friction, SCALE as int);
    let reflect_x = mpx > sx - b.radius || mpx < b.radius;
    let reflect_y = mpy > sy - b.radius || mpy < b.radius;
    let npx = if reflect_x {
        spec_clamp(mpx, b.radius, sx - b.radius)
    } else {
        mpx
    };
    let nvx = if reflect_x {
        -fvx
    } else {
        fvx
    };
    let npy = if reflect_y {
        spec_clamp(mpy, b.radius, sy - b.radius)
    } else {
        mpy
    };
    let nvy = if reflect_y {
        -fvy
    } else {
        fvy
    };
    let error = if iabs(nvx) > sx || iabs(nvy) > sy {
        Some(PhysicsError::SpeedLimitExceeded)
    } else if npx > sx + 2 * b.radius || npy > sy + 2 * b.radius || npx < -2 * b.radius || npy < -2
        * b.radius {
        Some(PhysicsError::PositionOutOfArea)
    } else {
        None
    };
    IntegrateOutcome { body: BodyModel { px: npx, py: npy, vx: nvx, vy: nvy, ..b }, error }
}

/// The two bodies after one collision resolution, and the fatal diagnostic
/// it raised, if any. When a diagnostic is raised both bodies are unchanged.
pub ghost struct CollideOutcome {
    pub a: BodyModel,
    pub b: BodyModel,
    pub error: Option<PhysicsError>,
}

/// One collision resolution between overlapping bodies, along the line of
/// impact `L = posB - posA` with `d = floor(|L|)` and `d2 = |L|^2`:
///
/// - positional correction: each body moves half the overlap `d - (radiusA +
///   radiusB)` along `L / d` (the symmetric split — masses play no role in
///   separation);
/// - velocity exchange: with `num = 2 * dot(velB - velA, L)` and `den =
///   (massA + massB) * d2`, body A gains `L * massB * num / den` and body B
///   gains `L * -massA * num / den` — the standard two-body elastic impulse
///   projected onto the line of centers.
///
/// Divisions truncate toward zero and are performed last, so each component
/// is the exactly rounded value of the real formula. Two fatal cases are
/// guarded rather than left to propagate: exactly coincident centers (the
/// normal is undefined), and a result outside the representable fixed-point
/// range.
pub open spec fn spec_collide(a: BodyModel, b: BodyModel) -> CollideOutcome {
    let lx = b.px - a.px;
    let ly = b.py - a.py;
    let d2 = lx * lx + ly * ly;
    if d2 == 0 {
        CollideOutcome { a, b, error: Some(PhysicsError::CoincidentCenters) }
    } else {
        let d = sqrt_floor(d2 as nat) as int;
        let s = a.radius + b.radius;
        let ov = d - s;
        let shx = tdiv(lx * ov, 2 * d);
        let shy = tdiv(ly * ov, 2 * d);
        let napx = a.px + shx;
        let napy = a.py + shy;
        let nbpx = b.px - shx;
        let nbpy = b.py - shy;
        let rvx = b.vx - a.vx;
        let rvy = b.vy - a.vy;
        let num = 2 * (rvx * lx + rvy * ly);
        let den = (a.mass + b.mass) * d2;
        let navx = a.vx + tdiv(lx * b.mass * num, den);
        let navy = a.vy + tdiv(ly * b.mass * num, den);
        let nbvx = b.vx + tdiv(lx * -a.mass * num, den);
        let nbvy = b.vy + tdiv(ly * -a.mass * num, den);
        if iabs(napx) <= POS_LIMIT && iabs(napy) <= POS_LIMIT && iabs(nbpx) <= POS_LIMIT && iabs(
            nbpy,
        ) <= POS_LIMIT && iabs(navx) <= VEL_LIMIT && iabs(navy) <= VEL_LIMIT && iabs(nbvx)
            <= VEL_LIMIT && iabs(nbvy) <= VEL_LIMIT {
            CollideOutcome {
                a: BodyModel { px: napx, py: napy, vx: navx, vy: navy, ..a },
                b: BodyModel { px: nbpx, py: nbpy, vx: nbvx, vy: nbvy, ..b },
                error: None,
            }
        } else {
            CollideOutcome { a, b, error: Some(PhysicsError::NumericRange) }
        }
    }
}

/// `mass_model` is positive and bounded over the admissible radius range.
pub proof fn lemma_mass_model_bounds(r: int)
    requires
        RADIUS_MIN <= r <= RADIUS_LIMIT,
    ensures
        0 < mass_model(r) <= MASS_LIMIT,
{
    assert(1000 <= r * r <= 4_000_000_000_000int) by (nonlinear_arith)
        requires
            32 <= r <= 2_000_000int,
    ;
    let t1 = r * r / 1000;
    vstd::arithmetic::div_mod::lemma_div_is_ordered(1000, r * r, 1000);
    vstd::arithmetic::div_mod::lemma_div_is_ordered(r * r, 4_000_000_000_000int, 1000);
    vstd::arithmetic::div_mod::lemma_div_multiples_vanish(1, 1000);
    vstd::arithmetic::div_mod::lemma_div_multiples_vanish(4_000_000_000, 1000);
    assert(1 <= t1 <= 4_000_000_000int);
    let t2 = t1 * 3142 / 1000;
    vstd::arithmetic::div_mod::lemma_div_is_ordered(3000, t1 * 3142, 1000);
    vstd::arithmetic::div_mod::lemma_div_is_ordered(t1 * 3142, 12_568_000_000_000int, 1000);
    vstd::arithmetic::div_mod::lemma_div_multiples_vanish(3, 1000);
    vstd::arithmetic::div_mod::lemma_div_multiples_vanish(12_568_000_000, 1000);
    assert(3 <= t2 <= 12_568_000_000int);
    vstd::arithmetic::div_mod::lemma_div_is_ordered(15000, t2 * 5514, 1000);
    vstd::arithmetic::div_mod::lemma_div_is_ordered(t2 * 5514, 69_299_952_000_000int, 1000);
    vstd::arithmetic::div_mod::lemma_div_multiples_vanish(15, 1000);
    vstd::arithmetic::div_mod::lemma_div_multiples_vanish(69_299_952_000, 1000);
}

/// Mass derivation in executable tick arithmetic.
pub fn mass_from_radius(radius: i64) -> (m: i64)
    requires
        RADIUS_MIN <= radius <= RADIUS_LIMIT,
    ensures
        m == mass_model(radius as int),
        0 < m <= MASS_LIMIT,
{
    proof {
        lemma_mass_model_bounds(radius as int);
        assert(1000 <= (radius as int) * (radius as int) <= 4_000_000_000_000int)
            by (nonlinear_arith)
            requires
                32 <= radius as int <= 2_000_000int,
        ;
        vstd::arithmetic::div_mod::lemma_div_is_ordered(
            1000,
            (radius as int) * (radius as int),
            1000,
        );
        vstd::arithmetic::div_mod::lemma_div_is_ordered(
            (radius as int) * (radius as int),
            4_000_000_000_000int,
            1000,
        );
        vstd::arithmetic::div_mod::lemma_div_multiples_vanish(1, 1000);
        vstd::arithmetic::div_mod::lemma_div_multiples_vanish(4_000_000_000, 1000);
    }
    let r: u128 = radius as u128;
    let t1: u128 = (r * r) / 1000;
    proof {
        vstd::arithmetic::div_mod::lemma_div_is_ordered(3000, t1 as int * 3142, 1000);
        vstd::arithmetic::div_mod::lemma_div_is_ordered(
            t1 as int * 3142,
            12_568_000_000_000int,
            1000,
        );
        vstd::arithmetic::div_mod::lemma_div_multiples_vanish(3, 1000);
        vstd::arithmetic::div_mod::lemma_div_multiples_vanish(12_568_000_000, 1000);
    }
    let t2: u128 = (t1 * 3142) / 1000;
    let t3: u128 = (t2 * 5514) / 1000;
    t3 as i64
}

/// A circular rigid body. `radius` is fixed at creation; `mass` is derived
/// once from the radius and never recomputed; `color` and `tag` are display
/// metadata that no physics computation reads.
pub struct Circle {
    position: Vec2i,
    velocity: Vec2i,
    radius: i64,
    mass: i64,
    pub color: Rgba,
    pub tag: String,
}

impl View for Circle {
    type V = BodyModel;

    closed spec fn view(&self) -> BodyModel {
        BodyModel {
            px: self.position.x as int,
            py: self.position.y as int,
            vx: self.velocity.x as int,
            vy: self.velocity.y as int,
            radius: self.radius as int,
            mass: self.mass as int,
            color: self.color,
            tag: self.tag@,
        }
    }
}

impl Circle {
    /// A body with the default radius, derived mass, white color and a
    /// placeholder tag.
    pub fn new(position: Vec2i, velocity: Vec2i) -> (c: Circle)
        requires
            iabs(position.x as int) <= POS_LIMIT,
            iabs(position.y as int) <= POS_LIMIT,
            iabs(velocity.x as int) <= VEL_LIMIT,
            iabs(velocity.y as int) <= VEL_LIMIT,
        ensures
            c@.px == position.x,
            c@.py == position.y,
            c@.vx == velocity.x,
            c@.vy == velocity.y,
            c@.radius == DEFAULT_RADIUS,
            c@.mass == mass_model(DEFAULT_RADIUS as int),
            c@.color == (Rgba { r: 255, g: 255, b: 255, a: 255 }),
            c@.tag == "not set"@,
            valid_body(c@),
    {
        let mass = mass_from_radius(DEFAULT_RADIUS);
        Circle {
            position,
            velocity,
            radius: DEFAULT_RADIUS,
            mass,
            color: Rgba::white(),
            tag: String::from_str("not set"),
        }
    }

    /// A body from caller-supplied data; the mass is derived from the given
    /// radius. The radius must lie in the representable range — unchecked
    /// here, as in the unchecked-construction policy of the design.
    pub fn from_data(position: Vec2i, velocity: Vec2i, radius: i64, color: Rgba, tag: String) -> (c:
        Circle)
        requires
            iabs(position.x as int) <= POS_LIMIT,
            iabs(position.y as int) <= POS_LIMIT,
            iabs(velocity.x as int) <= VEL_LIMIT,
            iabs(velocity.y as int) <= VEL_LIMIT,
            RADIUS_MIN <= radius <= RADIUS_LIMIT,
        ensures
            c@.px == position.x,
            c@.py == position.y,
            c@.vx == velocity.x,
            c@.vy == velocity.y,
            c@.radius == radius,
            c@.mass == mass_model(radius as int),
            c@.color == color,
            c@.tag == tag@,
            valid_body(c@),
    {
        let mass = mass_from_radius(radius);
        Circle { position, velocity, radius, mass, color, tag }
    }

    /// Repaints the body; colors have no physical effect.
    pub fn set_color(&mut self, color: Rgba)
        ensures
            final(self)@ == (BodyModel { color, ..old(self)@ }),
    {
        self.color = color;
    }

    /// An exact copy of the body (the tag string is cloned).
    pub fn duplicate(&self) -> (c: Circle)
        ensures
            c@ == self@,
    {
        Circle {
            position: self.position,
            velocity: self.velocity,
            radius: self.radius,
            mass: self.mass,
            color: self.color,
            tag: self.tag.clone(),
        }
    }

    pub fn position(&self) -> (p: Vec2i)
        ensures
            p.x == self@.px,
            p.y == self@.py,
    {
        self.position
    }

    pub fn velocity(&self) -> (v: Vec2i)
        ensures
            v.x == self@.vx,
            v.y == self@.vy,
    {
        self.velocity
    }

    pub fn radius(&self) -> (r: i64)
        ensures
            r == self@.radius,
    {
        self.radius
    }

    pub fn mass(&self) -> (m: i64)
        ensures
            m == self@.mass,
    {
        self.mass
    }

    /// True iff the center distance is strictly below the sum of the radii.
    pub fn is_colliding_with(&self, other: &Circle) -> (r: bool)
        requires
            valid_body(self@),
            valid_body(other@),
        ensures
            r == spec_colliding(self@, other@),
    {
        let lx: i128 = other.position.x as i128 - self.position.x as i128;
        let ly: i128 = other.position.y as i128 - self.position.y as i128;
        let s: i128 = self.radius as i128 + other.radius as i128;
        proof {
            crate::arith::lemma_mul_le(lx as int, lx as int, 200_000_000, 200_000_000);
            crate::arith::lemma_mul_le(ly as int, ly as int, 200_000_000, 200_000_000);
            crate::arith::lemma_mul_le(s as int, s as int, 4_000_000, 4_000_000);
        }
        lx * lx + ly * ly < s * s
    }

    /// True iff the point lies strictly inside the disc.
    pub fn is_touching_point(&self, point: Vec2i) -> (r: bool)
        requires
            valid_body(self@),
            iabs(point.x as int) <= POS_LIMIT,
            iabs(point.y as int) <= POS_LIMIT,
        ensures
            r == spec_touching(self@, point.x as int, point.y as int),
    {
        let dx: i128 = point.x as i128 - self.position.x as i128;
        let dy: i128 = point.y as i128 - self.position.y as i128;
        proof {
            crate::arith::lemma_mul_le(dx as int, dx as int, 200_000_000, 200_000_000);
            crate::arith::lemma_mul_le(dy as int, dy as int, 200_000_000, 200_000_000);
            crate::arith::lemma_mul_le(
                self.radius as int,
                self.radius as int,
                2_000_000,
                2_000_000,
            );
        }
        dx * dx + dy * dy < (self.radius as i128) * (self.radius as i128)
    }

    /// Adds an impulse to the velocity, unconditionally. The caller keeps the
    /// sum inside the representable velocity range.
    pub fn apply_force(&mut self, force: Vec2i)
        requires
            valid_body(old(self)@),
            iabs(old(self)@.vx + force.x) <= VEL_LIMIT,
            iabs(old(self)@.vy + force.y) <= VEL_LIMIT,
        ensures
            final(self)@ == (BodyModel {
                vx: old(self)@.vx + force.x,
                vy: old(self)@.vy + force.y,
                ..old(self)@
            }),
            valid_body(final(self)@),
    {
        self.velocity.x = self.velocity.x + force.x;
        self.velocity.y = self.velocity.y + force.y;
    }

    /// One integration step against the simulation area `screen_size`, with
    /// elapsed time `dt` in milliseconds and the configured friction (per
    /// `SCALE`) and speed scale. The body is moved, damped and reflected even
    /// when a fatal diagnostic is returned.
    pub fn move_with_velocity(
        &mut self,
        screen_size: Vec2i,
        dt: i64,
        friction: i64,
        speed_scale: i64,
    ) -> (r: Result<(), PhysicsError>)
        requires
            valid_body(old(self)@),
            0 <= dt,
            0 <= friction < SCALE,
            0 <= speed_scale <= SPEED_SCALE_LIMIT,
            0 < screen_size.x <= POS_LIMIT,
            0 < screen_size.y <= POS_LIMIT,
            2 * old(self)@.radius <= screen_size.x,
            2 * old(self)@.radius <= screen_size.y,
        ensures
            ({
                let o = spec_integrate(
                    old(self)@,
                    screen_size.x as int,
                    screen_size.y as int,
                    dt as int,
                    friction as int,
                    speed_scale as int,
                );
                &&& final(self)@ == o.body
                &&& (match r {
                    Ok(()) => o.error is None,
                    Err(e) => o.error == Some(e),
                })
            }),
            valid_body(final(self)@),
            final(self)@.radius <= final(self)@.px <= screen_size.x - final(self)@.radius,
            final(self)@.radius <= final(self)@.py <= screen_size.y - final(self)@.radius,
    {
        let sx: i64 = screen_size.x;
        let sy: i64 = screen_size.y;
        proof {
            crate::arith::lemma_mul_le(
                self.velocity.x as int,
                dt as int,
                VEL_LIMIT as int,
                i64::MAX as int,
            );
            crate::arith::lemma_mul_le(
                self.velocity.x as int * dt as int,
                speed_scale as int,
                VEL_LIMIT as int * i64::MAX as int,
                SPEED_SCALE_LIMIT as int,
            );
            crate::arith::lemma_mul_le(
                self.velocity.y as int,
                dt as int,
                VEL_LIMIT as int,
                i64::MAX as int,
            );
            crate::arith::lemma_mul_le(
                self.velocity.y as int * dt as int,
                speed_scale as int,
                VEL_LIMIT as int * i64::MAX as int,
                SPEED_SCALE_LIMIT as int,
            );
        }
        let shift_x: i128 = div_trunc(
            self.velocity.x as i128 * dt as i128 * speed_scale as i128,
            SCALE as i128,
        );
        let shift_y: i128 = div_trunc(
            self.velocity.y as i128 * dt as i128 * speed_scale as i128,
            SCALE as i128,
        );
        proof {
            crate::arith::lemma_tdiv_bound(
                self.velocity.x as int * dt as int * speed_scale as int,
                SCALE as int,
            );
            crate::arith::lemma_tdiv_bound(
                self.velocity.y as int * dt as int * speed_scale as int,
                SCALE as int,
            );
        }
        let mpx: i128 = self.position.x as i128 + shift_x;
        let mpy: i128 = self.position.y as i128 + shift_y;
        proof {
            crate::arith::lemma_mul_le(
                self.velocity.x as int,
                friction as int,
                iabs(self.velocity.x as int),
                SCALE as int,
            );
            crate::arith::lemma_mul_le(
                self.velocity.y as int,
                friction as int,
                iabs(self.velocity.y as int),
                SCALE as int,
            );
            crate::arith::lemma_tdiv_abs_le(
                self.velocity.x as int * friction as int,
                SCALE as int,
                iabs(self.velocity.x as int),
            );
            crate::arith::lemma_tdiv_abs_le(
                self.velocity.y as int * friction as int,
                SCALE as int,
                iabs(self.velocity.y as int),
            );
        }
        let fvx: i64 = div_trunc(self.velocity.x as i128 * friction as i128, SCALE as i128) as i64;
        let fvy: i64 = div_trunc(self.velocity.y as i128 * friction as i128, SCALE as i128) as i64;
        let rlo_x: i128 = self.radius as i128;
        let rhi_x: i128 = sx as i128 - self.radius as i128;
        let reflect_x: bool = mpx > rhi_x || mpx < rlo_x;
        let npx: i64 = if reflect_x {
            if mpx < rlo_x {
                self.radius
            } else if mpx > rhi_x {
                sx - self.radius
            } else {
                mpx as i64
            }
        } else {
            mpx as i64
        };
        let nvx: i64 = if reflect_x {
            -fvx
        } else {
            fvx
        };
        let rlo_y: i128 = self.radius as i128;
        let rhi_y: i128 = sy as i128 - self.radius as i128;
        let reflect_y: bool = mpy > rhi_y || mpy < rlo_y;
        let npy: i64 = if reflect_y {
            if mpy < rlo_y {
                self.radius
            } else if mpy > rhi_y {
                sy - self.radius
            } else {
                mpy as i64
            }
        } else {
            mpy as i64
        };
        let nvy: i64 = if reflect_y {
            -fvy
        } else {
            fvy
        };
        self.position.x = npx;
        self.position.y = npy;
        self.velocity.x = nvx;
        self.velocity.y = nvy;
        if nvx > sx || nvx < -sx || nvy > sy || nvy < -sy {
            return Err(PhysicsError::SpeedLimitExceeded);
        }
        let two_r: i64 = 2 * self.radius;
        if npx > sx + two_r || npy > sy + two_r || npx < -two_r || npy < -two_r {
            return Err(PhysicsError::PositionOutOfArea);
        }
        Ok(())
    }

    /// Resolves one detected overlap between `self` and `other`: symmetric
    /// positional de-penetration along the line of centers, then the
    /// mass-weighted elastic velocity exchange. Mutates both bodies; on a
    /// fatal diagnostic both are left unchanged.
    pub fn collide_with(&mut self, other: &mut Circle) -> (r: Result<(), PhysicsError>)
        requires
            valid_body(old(self)@),
            valid_body(old(other)@),
        ensures
            ({
                let o = spec_collide(old(self)@, old(other)@);
                &&& final(self)@ == o.a
                &&& final(other)@ == o.b
                &&& (match r {
                    Ok(()) => o.error is None,
                    Err(e) => o.error == Some(e),
                })
            }),
            valid_body(final(self)@),
            valid_body(final(other)@),
    {
        let lx: i128 = other.position.x as i128 - self.position.x as i128;
        let ly: i128 = other.position.y as i128 - self.position.y as i128;
        proof {
            crate::arith::lemma_mul_le(lx as int, lx as int, 200_000_000, 200_000_000);
            crate::arith::lemma_mul_le(ly as int, ly as int, 200_000_000, 200_000_000);
            crate::arith::lemma_square_nonneg(lx as int);
            crate::arith::lemma_square_nonneg(ly as int);
        }
        let d2: i128 = lx * lx + ly * ly;
        if d2 == 0 {
            return Err(PhysicsError::CoincidentCenters);
        }
        let d: u64 = isqrt(d2 as u64);
        proof {
            assert(d >= 1) by (nonlinear_arith)
                requires
                    (d2 as int) < (d as int + 1) * (d as int + 1),
                    d2 as int >= 1,
                    d as int >= 0,
            ;
            assert(d as int <= 300_000_000int) by (nonlinear_arith)
                requires
                    (d as int) * (d as int) <= 80_000_000_000_000_000int,
                    d as int >= 0,
            ;
        }
        let s: i128 = self.radius as i128 + other.radius as i128;
        let ov: i128 = d as i128 - s;
        proof {
            crate::arith::lemma_mul_le(lx as int, ov as int, 200_000_000, 304_000_000);
            crate::arith::lemma_mul_le(ly as int, ov as int, 200_000_000, 304_000_000);
            crate::arith::lemma_tdiv_bound(lx as int * ov as int, 2 * d as int);
            crate::arith::lemma_tdiv_bound(ly as int * ov as int, 2 * d as int);
        }
        let shx: i128 = div_trunc(lx * ov, 2 * d as i128);
        let shy: i128 = div_trunc(ly * ov, 2 * d as i128);
        let napx: i128 = self.position.x as i128 + shx;
        let napy: i128 = self.position.y as i128 + shy;
        let nbpx: i128 = other.position.x as i128 - shx;
        let nbpy: i128 = other.position.y as i128 - shy;
        let rvx: i128 = other.velocity.x as i128 - self.velocity.x as i128;
        let rvy: i128 = other.velocity.y as i128 - self.velocity.y as i128;
        proof {
            crate::arith::lemma_mul_le(rvx as int, lx as int, 2_000_000_000, 200_000_000);
            crate::arith::lemma_mul_le(rvy as int, ly as int, 2_000_000_000, 200_000_000);
        }
        let num: i128 = 2 * (rvx * lx + rvy * ly);
        let msum: i128 = self.mass as i128 + other.mass as i128;
        proof {
            crate::arith::lemma_mul_le(
                msum as int,
                d2 as int,
                140_000_000_000,
                80_000_000_000_000_000,
            );
            vstd::arithmetic::mul::lemma_mul_strictly_positive(msum as int, d2 as int);
        }
        let den: i128 = msum * d2;
        proof {
            crate::arith::lemma_mul_le(lx as int, other@.mass, 200_000_000, MASS_LIMIT as int);
            crate::arith::lemma_mul_le(ly as int, other@.mass, 200_000_000, MASS_LIMIT as int);
            crate::arith::lemma_mul_le(lx as int, -self@.mass, 200_000_000, MASS_LIMIT as int);
            crate::arith::lemma_mul_le(ly as int, -self@.mass, 200_000_000, MASS_LIMIT as int);
            crate::arith::lemma_mul_le(
                lx as int * other@.mass,
                num as int,
                13_859_990_400_000_000_000,
                1_600_000_000_000_000_000,
            );
            crate::arith::lemma_mul_le(
                ly as int * other@.mass,
                num as int,
                13_859_990_400_000_000_000,
                1_600_000_000_000_000_000,
            );
            crate::arith::lemma_mul_le(
                lx as int * -self@.mass,
                num as int,
                13_859_990_400_000_000_000,
                1_600_000_000_000_000_000,
            );
            crate::arith::lemma_mul_le(
                ly as int * -self@.mass,
                num as int,
                13_859_990_400_000_000_000,
                1_600_000_000_000_000_000,
            );
            crate::arith::lemma_tdiv_bound(lx as int * other@.mass * num as int, den as int);
            crate::arith::lemma_tdiv_bound(ly as int * other@.mass * num as int, den as int);
            crate::arith::lemma_tdiv_bound(lx as int * -self@.mass * num as int, den as int);
            crate::arith::lemma_tdiv_bound(ly as int * -self@.mass * num as int, den as int);
        }
        let navx: i128 = self.velocity.x as i128 + div_trunc(lx * other.mass as i128 * num, den);
        let navy: i128 = self.velocity.y as i128 + div_trunc(ly * other.mass as i128 * num, den);
        let nbvx: i128 = other.velocity.x as i128 + div_trunc(
            lx * -(self.mass as i128) * num,
            den,
        );
        let nbvy: i128 = other.velocity.y as i128 + div_trunc(
            ly * -(self.mass as i128) * num,
            den,
        );
        let pl: i128 = POS_LIMIT as i128;
        let vl: i128 = VEL_LIMIT as i128;
        if -pl <= napx && napx <= pl && -pl <= napy && napy <= pl && -pl <= nbpx && nbpx <= pl
            && -pl <= nbpy && nbpy <= pl && -vl <= navx && navx <= vl && -vl <= navy && navy <= vl
            && -vl <= nbvx && nbvx <= vl && -vl <= nbvy && nbvy <= vl {
            self.position.x = napx as i64;
            self.position.y = napy as i64;
            self.velocity.x = navx as i64;
            self.velocity.y = navy as i64;
            other.position.x = nbpx as i64;
            other.position.y = nbpy as i64;
            other.velocity.x = nbvx as i64;
            other.velocity.y = nbvy as i64;
            Ok(())
        } else {
            Err(PhysicsError::NumericRange)
        }
    }
}

} // verus!
