use physiks::body::{Circle, PhysicsError, Rgba, Vec2i};
use physiks::DEFAULT_RADIUS;

fn white() -> Rgba {
    Rgba { r: 255, g: 255, b: 255, a: 255 }
}

#[test]
fn mass_is_derived_from_radius() {
    let c = Circle::new(Vec2i::new(0, 0), Vec2i::new(0, 0));
    // density * pi * r^2 at radius 15 units, in tick arithmetic
    assert_eq!(c.mass(), 3_898_122);
    assert_eq!(c.radius(), DEFAULT_RADIUS);
    let d = Circle::from_data(
        Vec2i::new(0, 0),
        Vec2i::new(0, 0),
        20_000,
        white(),
        String::from("b"),
    );
    assert_eq!(d.mass(), 6_929_995);
}

#[test]
fn new_has_default_color_and_tag() {
    let c = Circle::new(Vec2i::new(1000, 2000), Vec2i::new(3, 4));
    assert_eq!(c.color, white());
    assert_eq!(c.tag, "not set");
    assert_eq!(c.position().x, 1000);
    assert_eq!(c.position().y, 2000);
    assert_eq!(c.velocity().x, 3);
    assert_eq!(c.velocity().y, 4);
}

#[test]
fn collision_detection_is_strict_and_symmetric() {
    let a = Circle::new(Vec2i::new(0, 0), Vec2i::new(0, 0));
    let b = Circle::new(Vec2i::new(29_999, 0), Vec2i::new(0, 0));
    // distance 29.999 < 15 + 15: colliding
    assert!(a.is_colliding_with(&b));
    assert!(b.is_colliding_with(&a));
    let t = Circle::new(Vec2i::new(30_000, 0), Vec2i::new(0, 0));
    // exact tangency does not count
    assert!(!a.is_colliding_with(&t));
    assert!(!t.is_colliding_with(&a));
    let far = Circle::new(Vec2i::new(40_000, 10_000), Vec2i::new(0, 0));
    assert_eq!(a.is_colliding_with(&far), far.is_colliding_with(&a));
}

#[test]
fn touching_point_is_strict() {
    let c = Circle::new(Vec2i::new(0, 0), Vec2i::new(0, 0));
    assert!(c.is_touching_point(Vec2i::new(14_999, 0)));
    assert!(!c.is_touching_point(Vec2i::new(15_000, 0)));
    assert!(c.is_touching_point(Vec2i::new(9000, 9000)));
}

#[test]
fn equal_mass_head_on_collision_swaps_velocities() {
    // Two equal bodies of radius 15 at (0,0) and (20,0), overlapping by 10;
    // the mover at 1 unit/s leftward. One resolution swaps the velocities and
    // pushes each body 5 units apart along x.
    let mut a = Circle::new(Vec2i::new(0, 0), Vec2i::new(0, 0));
    let mut b = Circle::new(Vec2i::new(20_000, 0), Vec2i::new(-1000, 0));
    assert!(a.is_colliding_with(&b));
    let r = a.collide_with(&mut b);
    assert!(r.is_ok());
    assert_eq!(a.position().x, -5000);
    assert_eq!(a.position().y, 0);
    assert_eq!(b.position().x, 25_000);
    assert_eq!(b.position().y, 0);
    assert_eq!(a.velocity().x, -1000);
    assert_eq!(a.velocity().y, 0);
    assert_eq!(b.velocity().x, 0);
    assert_eq!(b.velocity().y, 0);
    // separation ended exactly at tangency here: 25 - (-5) = 30 = r_a + r_b
    assert_eq!(b.position().x - a.position().x, 30_000);
}

#[test]
fn collision_conserves_momentum_within_tolerance() {
    // Unequal masses, oblique velocities.
    let mut a = Circle::from_data(
        Vec2i::new(0, 0),
        Vec2i::new(500, -200),
        15_000,
        white(),
        String::from("a"),
    );
    let mut b = Circle::from_data(
        Vec2i::new(30_000, 4000),
        Vec2i::new(-300, 150),
        20_000,
        white(),
        String::from("b"),
    );
    assert!(a.is_colliding_with(&b));
    let (ma, mb) = (a.mass() as i128, b.mass() as i128);
    let before_x = ma * a.velocity().x as i128 + mb * b.velocity().x as i128;
    let before_y = ma * a.velocity().y as i128 + mb * b.velocity().y as i128;
    a.collide_with(&mut b).unwrap();
    let after_x = ma * a.velocity().x as i128 + mb * b.velocity().x as i128;
    let after_y = ma * a.velocity().y as i128 + mb * b.velocity().y as i128;
    assert!((after_x - before_x).abs() < ma + mb);
    assert!((after_y - before_y).abs() < ma + mb);
}

#[test]
fn collision_separates_to_near_tangency() {
    let mut a = Circle::new(Vec2i::new(0, 0), Vec2i::new(0, 0));
    let mut b = Circle::new(Vec2i::new(18_000, 12_000), Vec2i::new(-100, -70));
    assert!(a.is_colliding_with(&b));
    a.collide_with(&mut b).unwrap();
    let dx = (b.position().x - a.position().x) as i128;
    let dy = (b.position().y - a.position().y) as i128;
    let dist_sq = dx * dx + dy * dy;
    let s = 30_000i128;
    // overlap magnitude shrinks to ~0: squared distance within a whisker of s^2
    let err = if dist_sq > s * s { dist_sq - s * s } else { s * s - dist_sq };
    assert!(err <= 4 * s + 8, "residual {err}");
}

#[test]
fn coincident_centers_are_a_fatal_diagnostic() {
    let mut a = Circle::new(Vec2i::new(5000, 5000), Vec2i::new(10, 0));
    let mut b = Circle::new(Vec2i::new(5000, 5000), Vec2i::new(-10, 0));
    assert!(a.is_colliding_with(&b));
    assert_eq!(a.collide_with(&mut b), Err(PhysicsError::CoincidentCenters));
    // both bodies untouched
    assert_eq!(a.position().x, 5000);
    assert_eq!(b.position().x, 5000);
    assert_eq!(a.velocity().x, 10);
    assert_eq!(b.velocity().x, -10);
}

#[test]
fn integrate_reflects_and_clamps_at_the_left_wall() {
    // A body at (5, 50) with radius 15 and velocity (-2, 0) in a 100x100
    // area: one integration reflects velocity.x and clamps position.x to 15.
    let mut c = Circle::new(Vec2i::new(5000, 50_000), Vec2i::new(-2000, 0));
    let r = c.move_with_velocity(Vec2i::new(100_000, 100_000), 0, 996, 100);
    assert!(r.is_ok());
    assert_eq!(c.position().x, 15_000);
    assert_eq!(c.position().y, 50_000);
    // the damped speed (2 * 0.996) reflected to positive
    assert_eq!(c.velocity().x, 1992);
    assert_eq!(c.velocity().y, 0);
}

#[test]
fn integrate_moves_and_damps() {
    let mut c = Circle::new(Vec2i::new(50_000, 50_000), Vec2i::new(1000, -500));
    let r = c.move_with_velocity(Vec2i::new(100_000, 100_000), 16, 996, 100);
    assert!(r.is_ok());
    // position += velocity * dt * speed_scale / SCALE
    assert_eq!(c.position().x, 51_600);
    assert_eq!(c.position().y, 49_200);
    assert_eq!(c.velocity().x, 996);
    assert_eq!(c.velocity().y, -498);
}

#[test]
fn integrate_zero_dt_is_a_motionless_damped_step() {
    let mut c = Circle::new(Vec2i::new(50_000, 50_000), Vec2i::new(1000, 0));
    c.move_with_velocity(Vec2i::new(100_000, 100_000), 0, 996, 100).unwrap();
    assert_eq!(c.position().x, 50_000);
    assert_eq!(c.velocity().x, 996);
}

#[test]
fn repeated_integration_never_settles_outside_the_walls() {
    // Driven straight into the right wall, then the bottom: the body always
    // ends each step inside [radius, bound - radius] on both axes.
    let mut c = Circle::new(Vec2i::new(80_000, 20_000), Vec2i::new(9000, 7000));
    for _ in 0..200 {
        c.move_with_velocity(Vec2i::new(100_000, 100_000), 16, 996, 100).unwrap();
        let p = c.position();
        assert!(15_000 <= p.x && p.x <= 85_000);
        assert!(15_000 <= p.y && p.y <= 85_000);
    }
}

#[test]
fn excessive_speed_is_a_fatal_diagnostic() {
    // Velocity beyond the area's extent trips the sanity check after the
    // move.
    let mut c = Circle::new(Vec2i::new(50_000, 50_000), Vec2i::new(200_000, 0));
    let r = c.move_with_velocity(Vec2i::new(100_000, 100_000), 0, 996, 100);
    assert_eq!(r, Err(PhysicsError::SpeedLimitExceeded));
}

#[test]
fn apply_force_adds_to_velocity() {
    let mut c = Circle::new(Vec2i::new(0, 0), Vec2i::new(100, -50));
    c.apply_force(Vec2i::new(25, 75));
    assert_eq!(c.velocity().x, 125);
    assert_eq!(c.velocity().y, 25);
}
