//! The engine's laws: properties of the collision response and of the
//! integration step, proved once over the models that the executable
//! functions are specified against.

use vstd::prelude::*;

use crate::arith::{lemma_tdiv_identity, sqrt_floor, tdiv};
use crate::body::{
    dist_sq, iabs, spec_collide, spec_colliding, spec_integrate, valid_body, BodyModel,
    PhysicsError,
};

verus! {

/// Collision detection is symmetric: whether two bodies overlap does not
/// depend on the order they are asked in.
pub proof fn lemma_collision_symmetry(a: BodyModel, b: BodyModel)
    ensures
        spec_colliding(a, b) == spec_colliding(b, a),
{
    assert((b.px - a.px) * (b.px - a.px) == (a.px - b.px) * (a.px - b.px)) by (nonlinear_arith);
    assert((b.py - a.py) * (b.py - a.py) == (a.py - b.py) * (a.py - b.py)) by (nonlinear_arith);
}

/// Momentum conservation: a successful collision resolution changes the total
/// momentum of the pair, on each axis, by strictly less than `massA + massB`
/// raw ticks — the two truncating divisions each round a velocity component
/// by less than one tick, and the exact (unrounded) exchange conserves
/// momentum identically.
pub proof fn lemma_momentum_conservation(a: BodyModel, b: BodyModel)
    requires
        valid_body(a),
        valid_body(b),
        spec_collide(a, b).error is None,
    ensures
        ({
            let o = spec_collide(a, b);
            &&& iabs(o.a.mass * o.a.vx + o.b.mass * o.b.vx - (a.mass * a.vx + b.mass * b.vx))
                < a.mass + b.mass
            &&& iabs(o.a.mass * o.a.vy + o.b.mass * o.b.vy - (a.mass * a.vy + b.mass * b.vy))
                < a.mass + b.mass
        }),
{
    let lx = b.px - a.px;
    let ly = b.py - a.py;
    let d2 = lx * lx + ly * ly;
    let rvx = b.vx - a.vx;
    let rvy = b.vy - a.vy;
    let num = 2 * (rvx * lx + rvy * ly);
    let den = (a.mass + b.mass) * d2;
    crate::arith::lemma_square_nonneg(lx);
    crate::arith::lemma_square_nonneg(ly);
    assert(d2 != 0);
    vstd::arithmetic::mul::lemma_mul_strictly_positive(a.mass + b.mass, d2);
    lemma_momentum_axis(a.mass, b.mass, lx, num, den, a.vx, b.vx);
    lemma_momentum_axis(a.mass, b.mass, ly, num, den, a.vy, b.vy);
}

/// One axis of the momentum argument: the two velocity increments are the
/// truncations of `l * mB * num / den` and `l * -mA * num / den`, whose exact
/// values cancel weighted by the masses.
proof fn lemma_momentum_axis(ma: int, mb: int, l: int, num: int, den: int, va: int, vb: int)
    requires
        ma > 0,
        mb > 0,
        den > 0,
    ensures
        iabs(ma * (va + tdiv(l * mb * num, den)) + mb * (vb + tdiv(l * -ma * num, den)) - (ma * va
            + mb * vb)) < ma + mb,
{
    let u = l * mb * num;
    let w = l * -ma * num;
    let qa = tdiv(u, den);
    let qb = tdiv(w, den);
    lemma_tdiv_identity(u, den);
    lemma_tdiv_identity(w, den);
    let ra = u - den * qa;
    let rb = w - den * qb;
    let s = ma * qa + mb * qb;
    assert(ma * u + mb * w == 0) by (nonlinear_arith)
        requires
            u == (l * mb) * num,
            w == (l * -ma) * num,
    ;
    assert(den * s == -(ma * ra) - (mb * rb)) by (nonlinear_arith)
        requires
            s == ma * qa + mb * qb,
            u == den * qa + ra,
            w == den * qb + rb,
            ma * u + mb * w == 0,
    ;
    assert(-((ma + mb) * den) < den * s < (ma + mb) * den) by (nonlinear_arith)
        requires
            den * s == -(ma * ra) - (mb * rb),
            -den < ra < den,
            -den < rb < den,
            ma > 0,
            mb > 0,
    ;
    assert(-(ma + mb) < s < ma + mb) by (nonlinear_arith)
        requires
            den > 0,
            -((ma + mb) * den) < den * s < (ma + mb) * den,
    ;
    assert(ma * (va + qa) + mb * (vb + qb) - (ma * va + mb * vb) == s) by (nonlinear_arith)
        requires
            s == ma * qa + mb * qb,
    ;
}

/// Non-penetration after resolution: a successful resolution moves the pair
/// toward tangency. With `L` the old line of centers, `L'` the new one, `d =
/// floor(|L|)` and `s = radiusA + radiusB`, each component satisfies `d * L'
/// == s * L + rho` with `|rho| < 2 * d`: the new center offset is the old one
/// rescaled from length about `d` to length about `s`, exact up to the
/// sub-tick truncation of the two positional corrections.
pub proof fn lemma_separation(a: BodyModel, b: BodyModel)
    requires
        valid_body(a),
        valid_body(b),
        spec_collide(a, b).error is None,
    ensures
        ({
            let o = spec_collide(a, b);
            let lx = b.px - a.px;
            let ly = b.py - a.py;
            let d = sqrt_floor((lx * lx + ly * ly) as nat) as int;
            let s = a.radius + b.radius;
            &&& iabs(d * (o.b.px - o.a.px) - s * lx) < 2 * d
            &&& iabs(d * (o.b.py - o.a.py) - s * ly) < 2 * d
        }),
{
    let lx = b.px - a.px;
    let ly = b.py - a.py;
    let d2 = lx * lx + ly * ly;
    let d = sqrt_floor(d2 as nat) as int;
    let s = a.radius + b.radius;
    let ov = d - s;
    crate::arith::lemma_square_nonneg(lx);
    crate::arith::lemma_square_nonneg(ly);
    assert(d2 != 0);
    crate::arith::lemma_sqrt_floor_bounds(d2 as nat);
    assert(d >= 1) by (nonlinear_arith)
        requires
            d2 < (d + 1) * (d + 1),
            d2 >= 1,
            d >= 0,
    ;
    lemma_separation_axis(lx, ov, d, s);
    lemma_separation_axis(ly, ov, d, s);
}

/// One axis of the separation argument.
proof fn lemma_separation_axis(l: int, ov: int, d: int, s: int)
    requires
        d >= 1,
        s == d - ov,
    ensures
        iabs(d * ((l - tdiv(l * ov, 2 * d)) - tdiv(l * ov, 2 * d)) - s * l) < 2 * d,
{
    let sh = tdiv(l * ov, 2 * d);
    lemma_tdiv_identity(l * ov, 2 * d);
    let rho = l * ov - (2 * d) * sh;
    assert(d * ((l - sh) - sh) - s * l == rho) by (nonlinear_arith)
        requires
            l * ov == (2 * d) * sh + rho,
            s == d - ov,
    ;
}

/// Reflection confines: after one integration step the position lies inside
/// `[radius, bound - radius]` on both axes, whatever the starting position
/// and velocity — so repeated integration can never settle a body outside
/// that band.
pub proof fn lemma_reflection_confines(
    b: BodyModel,
    sx: int,
    sy: int,
    dt: int,
    friction: int,
    speed_scale: int,
)
    requires
        2 * b.radius <= sx,
        2 * b.radius <= sy,
    ensures
        ({
            let o = spec_integrate(b, sx, sy, dt, friction, speed_scale);
            &&& b.radius <= o.body.px <= sx - b.radius
            &&& b.radius <= o.body.py <= sy - b.radius
        }),
{
}

/// The position sanity check can never fire: reflection has just confined the
/// position to `[radius, bound - radius]`, strictly inside the band the check
/// tests, so the only diagnostic an integration step can raise is the speed
/// one. The check is nevertheless performed, as part of the failure taxonomy.
pub proof fn lemma_position_check_is_dead(
    b: BodyModel,
    sx: int,
    sy: int,
    dt: int,
    friction: int,
    speed_scale: int,
)
    requires
        0 < b.radius,
        2 * b.radius <= sx,
        2 * b.radius <= sy,
    ensures
        spec_integrate(b, sx, sy, dt, friction, speed_scale).error != Some(
            PhysicsError::PositionOutOfArea,
        ),
{
    lemma_reflection_confines(b, sx, sy, dt, friction, speed_scale);
}

/// Non-penetration after resolution, as a distance bound: with `s = radiusA +
/// radiusB` and `d = floor(|L|)` the old center distance, the squared center
/// distance after a successful resolution differs from `s * s` by at most
/// `(2*s*s*d + 8*s*d*d + 8*d*d) / (d*d)` — about `2*s*s/d + 8*s + 8`, the
/// residue of the sub-tick truncations — so the overlap of an isolated pair
/// shrinks to roughly zero.
pub proof fn lemma_separation_distance(a: BodyModel, b: BodyModel)
    requires
        valid_body(a),
        valid_body(b),
        spec_collide(a, b).error is None,
    ensures
        ({
            let o = spec_collide(a, b);
            let lx = b.px - a.px;
            let ly = b.py - a.py;
            let d = sqrt_floor((lx * lx + ly * ly) as nat) as int;
            let s = a.radius + b.radius;
            d * d * iabs(dist_sq(o.a, o.b) - s * s) <= 2 * s * s * d + 8 * s * (d * d) + 8 * (d
                * d)
        }),
{
    let o = spec_collide(a, b);
    let lx = b.px - a.px;
    let ly = b.py - a.py;
    let d2 = lx * lx + ly * ly;
    let d = sqrt_floor(d2 as nat) as int;
    let s = a.radius + b.radius;
    crate::arith::lemma_square_nonneg(lx);
    crate::arith::lemma_square_nonneg(ly);
    assert(d2 != 0);
    crate::arith::lemma_sqrt_floor_bounds(d2 as nat);
    assert(d >= 1) by (nonlinear_arith)
        requires
            d2 < (d + 1) * (d + 1),
            d2 >= 1,
            d >= 0,
    ;
    lemma_separation(a, b);
    let lxp = o.b.px - o.a.px;
    let lyp = o.b.py - o.a.py;
    let xx = d * lxp;
    let yy = d * lyp;
    let rx = xx - s * lx;
    let ry = yy - s * ly;
    assert(-2 * d < rx < 2 * d && -2 * d < ry < 2 * d);
    assert((d + 1) * (d + 1) == d * d + 2 * d + 1) by (nonlinear_arith);
    assert(d * d <= d2 <= d * d + 2 * d);
    assert(-d <= lx <= d) by (nonlinear_arith)
        requires
            lx * lx <= d2,
            d2 < (d + 1) * (d + 1),
            d >= 0,
    ;
    assert(-d <= ly <= d) by (nonlinear_arith)
        requires
            ly * ly <= d2,
            d2 < (d + 1) * (d + 1),
            d >= 0,
    ;
    let nd2 = lxp * lxp + lyp * lyp;
    assert(d * d * nd2 == xx * xx + yy * yy) by (nonlinear_arith)
        requires
            xx == d * lxp,
            yy == d * lyp,
            nd2 == lxp * lxp + lyp * lyp,
    ;
    let cross = 2 * s * (lx * rx + ly * ry);
    let rsq = rx * rx + ry * ry;
    assert(xx * xx == s * s * (lx * lx) + 2 * s * (lx * rx) + rx * rx) by (nonlinear_arith)
        requires
            xx == s * lx + rx,
    ;
    assert(yy * yy == s * s * (ly * ly) + 2 * s * (ly * ry) + ry * ry) by (nonlinear_arith)
        requires
            yy == s * ly + ry,
    ;
    assert(s * s * d2 == s * s * (lx * lx) + s * s * (ly * ly)) by (nonlinear_arith)
        requires
            d2 == lx * lx + ly * ly,
    ;
    assert(cross == 2 * s * (lx * rx) + 2 * s * (ly * ry)) by (nonlinear_arith)
        requires
            cross == 2 * s * (lx * rx + ly * ry),
    ;
    assert(xx * xx + yy * yy == s * s * d2 + cross + rsq);
    assert(-(8 * s * (d * d)) <= cross <= 8 * s * (d * d)) by (nonlinear_arith)
        requires
            cross == 2 * s * (lx * rx + ly * ry),
            -d <= lx <= d,
            -d <= ly <= d,
            -2 * d < rx < 2 * d,
            -2 * d < ry < 2 * d,
            s >= 0,
            d >= 1,
    ;
    assert(0 <= rsq <= 8 * (d * d)) by (nonlinear_arith)
        requires
            rsq == rx * rx + ry * ry,
            -2 * d < rx < 2 * d,
            -2 * d < ry < 2 * d,
            d >= 1,
    ;
    assert(s * s * d2 == s * s * (d * d) + s * s * (d2 - d * d)) by (nonlinear_arith);
    assert(0 <= s * s * (d2 - d * d) <= 2 * s * s * d) by (nonlinear_arith)
        requires
            0 <= d2 - d * d <= 2 * d,
            s >= 0,
    ;
    assert(d * d * (nd2 - s * s) == d * d * nd2 - d * d * (s * s)) by (nonlinear_arith);
    assert(d * d * nd2 - d * d * (s * s) == s * s * (d2 - d * d) + cross + rsq) by (nonlinear_arith)
        requires
            d * d * nd2 == s * s * d2 + cross + rsq,
            s * s * d2 == s * s * (d * d) + s * s * (d2 - d * d),
    ;
    assert(-(2 * s * s * d + 8 * s * (d * d) + 8 * (d * d)) <= d * d * (nd2 - s * s) <= 2 * s * s
        * d + 8 * s * (d * d) + 8 * (d * d));
    assert(d * d * iabs(nd2 - s * s) <= 2 * s * s * d + 8 * s * (d * d) + 8 * (d * d))
        by (nonlinear_arith)
        requires
            -(2 * s * s * d + 8 * s * (d * d) + 8 * (d * d)) <= d * d * (nd2 - s * s) <= 2 * s * s
                * d + 8 * s * (d * d) + 8 * (d * d),
            d >= 1,
            iabs(nd2 - s * s) == if nd2 - s * s >= 0 {
                nd2 - s * s
            } else {
                -(nd2 - s * s)
            },
    ;
}

} // verus!
