//! The simulation: the ordered collection of live bodies, the per-frame step
//! (pairwise collision resolution followed by integration), and the
//! idle/placing/dragging pointer-interaction state machine.

use vstd::prelude::*;
use vstd::string::*;

use crate::arith::{div_trunc, tdiv};
use crate::body::{
    iabs, mass_model, spec_collide, spec_colliding, spec_integrate, spec_touching, valid_body,
    BodyModel, Circle, PhysicsError, Rgba, Vec2i,
};
use crate::{
    BODY_CAP, DEFAULT_RADIUS, DRAG_SCALE_LIMIT, POS_LIMIT, SCALE, SPEED_SCALE_LIMIT, VEL_LIMIT,
};

verus! {

/// The tuning constants of the engine, fixed at construction so behavior is
/// testable under varied parameters. Reference values: friction 996 (0.996
/// per frame), speed scale 100 (the frame-time unit is 100 units per second),
/// drag scale 50 (screen distance to launch velocity), placement and dragging
/// both enabled.
#[derive(Clone, Copy, PartialEq, Eq, Structural, Debug)]
pub struct SimConfig {
    pub friction: i64,
    pub speed_scale: i64,
    pub drag_scale: i64,
    pub can_place: bool,
    pub can_drag: bool,
}

/// The model of a configuration: plain integers.
pub ghost struct ConfigModel {
    pub friction: int,
    pub speed_scale: int,
    pub drag_scale: int,
    pub can_place: bool,
    pub can_drag: bool,
}

impl View for SimConfig {
    type V = ConfigModel;

    open spec fn view(&self) -> ConfigModel {
        ConfigModel {
            friction: self.friction as int,
            speed_scale: self.speed_scale as int,
            drag_scale: self.drag_scale as int,
            can_place: self.can_place,
            can_drag: self.can_drag,
        }
    }
}

/// Friction strictly damps (it is less than one), the scales are bounded, and
/// the drag divisor is positive.
pub open spec fn valid_config(c: ConfigModel) -> bool {
    &&& 0 <= c.friction < SCALE
    &&& 0 <= c.speed_scale <= SPEED_SCALE_LIMIT
    &&& 1 <= c.drag_scale <= DRAG_SCALE_LIMIT
}

/// The reference configuration of the engine.
pub fn reference_config() -> (c: SimConfig)
    ensures
        c@ == (ConfigModel {
            friction: 996,
            speed_scale: 100,
            drag_scale: 50,
            can_place: true,
            can_drag: true,
        }),
        valid_config(c@),
{
    SimConfig { friction: 996, speed_scale: 100, drag_scale: 50, can_place: true, can_drag: true }
}

/// The interaction state machine: exactly one of idle, placing (a pending
/// origin has been pressed) or dragging (a body is selected by index).
#[derive(Clone, Copy, PartialEq, Eq, Structural, Debug)]
pub enum Mode {
    Idle,
    Placing { origin: Vec2i },
    Dragging { index: usize },
}

/// The model of a mode.
pub ghost enum ModeModel {
    Idle,
    Placing { ox: int, oy: int },
    Dragging { index: int },
}

/// The mode as a model.
pub open spec fn mode_view(m: Mode) -> ModeModel {
    match m {
        Mode::Idle => ModeModel::Idle,
        Mode::Placing { origin } => ModeModel::Placing {
            ox: origin.x as int,
            oy: origin.y as int,
        },
        Mode::Dragging { index } => ModeModel::Dragging { index: index as int },
    }
}

/// The initial arrangement of bodies.
#[derive(Clone, Copy, PartialEq, Eq, Structural, Debug)]
pub enum Layout {
    Empty,
    RandomScatter { count: usize },
    Pyramid { size: i8, apex: Vec2i },
}

/// The model of a simulation: the bodies in order, the interaction mode, the
/// area bounds and the configuration.
pub ghost struct SimModel {
    pub bodies: Seq<BodyModel>,
    pub mode: ModeModel,
    pub bounds_x: int,
    pub bounds_y: int,
    pub config: ConfigModel,
}

/// The simulation. Owns the ordered collection of live bodies; each frame
/// resolves every pairwise overlap in ascending index order and then
/// integrates every body; pointer presses create, select, or launch bodies.
pub struct MainState {
    circles: Vec<Circle>,
    mode: Mode,
    bounds: Vec2i,
    config: SimConfig,
}

impl View for MainState {
    type V = SimModel;

    closed spec fn view(&self) -> SimModel {
        SimModel {
            bodies: self.circles@.map(|i: int, c: Circle| c@),
            mode: mode_view(self.mode),
            bounds_x: self.bounds.x as int,
            bounds_y: self.bounds.y as int,
            config: self.config@,
        }
    }
}

/// Well-formedness of a simulation model: a valid configuration, bounds large
/// enough for a default-radius body and inside the representable range, every
/// body valid and fitting between the walls, and a pending placement origin
/// inside the representable range.
pub open spec fn wf_sim(m: SimModel) -> bool {
    &&& valid_config(m.config)
    &&& 2 * DEFAULT_RADIUS <= m.bounds_x <= POS_LIMIT
    &&& 2 * DEFAULT_RADIUS <= m.bounds_y <= POS_LIMIT
    &&& (forall|i: int|
        0 <= i < m.bodies.len() ==> {
            &&& valid_body(#[trigger] m.bodies[i])
            &&& 2 * m.bodies[i].radius <= m.bounds_x
            &&& 2 * m.bodies[i].radius <= m.bounds_y
        })
    &&& (m.mode matches ModeModel::Placing { ox, oy } ==> iabs(ox) <= POS_LIMIT && iabs(oy)
        <= POS_LIMIT)
}

/// The decimal digits of a natural number, most significant first.
pub open spec fn spec_dec_str(n: nat) -> Seq<char>
    decreases n,
{
    if n < 10 {
        seq![dec_digit(n)]
    } else {
        spec_dec_str(n / 10).push(dec_digit(n % 10))
    }
}

/// The character of one decimal digit.
pub open spec fn dec_digit(d: nat) -> char {
    if d == 0 {
        '0'
    } else if d == 1 {
        '1'
    } else if d == 2 {
        '2'
    } else if d == 3 {
        '3'
    } else if d == 4 {
        '4'
    } else if d == 5 {
        '5'
    } else if d == 6 {
        '6'
    } else if d == 7 {
        '7'
    } else if d == 8 {
        '8'
    } else {
        '9'
    }
}

/// One decimal digit as a string slice.
fn digit_str(d: u64) -> (r: &'static str)
    requires
        d < 10,
    ensures
        r@ == seq![dec_digit(d as nat)],
{
    let r: &'static str = if d == 0 {
        "0"
    } else if d == 1 {
        "1"
    } else if d == 2 {
        "2"
    } else if d == 3 {
        "3"
    } else if d == 4 {
        "4"
    } else if d == 5 {
        "5"
    } else if d == 6 {
        "6"
    } else if d == 7 {
        "7"
    } else if d == 8 {
        "8"
    } else {
        "9"
    };
    proof {
        reveal_strlit("0");
        reveal_strlit("1");
        reveal_strlit("2");
        reveal_strlit("3");
        reveal_strlit("4");
        reveal_strlit("5");
        reveal_strlit("6");
        reveal_strlit("7");
        reveal_strlit("8");
        reveal_strlit("9");
        assert(r@ =~= seq![dec_digit(d as nat)]);
    }
    r
}

/// A natural number as its decimal string.
fn u64_to_dec(n: u64) -> (s: String)
    ensures
        s@ == spec_dec_str(n as nat),
    decreases n,
{
    if n < 10 {
        String::from_str(digit_str(n))
    } else {
        proof {
            vstd::arithmetic::div_mod::lemma_div_decreases(n as int, 10);
            vstd::arithmetic::div_mod::lemma_div_pos_is_pos(n as int, 10);
        }
        let mut s = u64_to_dec(n / 10);
        s.append(digit_str(n % 10));
        proof {
            assert(s@ =~= spec_dec_str(n as nat));
        }
        s
    }
}

/// Relies on rand's `Rng::random_range` on an `i64` range: returns a sample
/// inside the (non-empty) half-open range.
#[verifier::external_body]
fn random_in_range(lo: i64, hi: i64) -> (r: i64)
    requires
        lo < hi,
    ensures
        lo <= r < hi,
{
    let mut rng = rand::rng();
    rand::Rng::random_range(&mut rng, lo..hi)
}

/// Relies on rand's `SliceRandom::shuffle`: permutes the vector in place, so
/// the multiset of elements (and hence the length, and membership) is kept.
#[verifier::external_body]
fn shuffle_colors(v: &mut Vec<Rgba>)
    ensures
        final(v)@.to_multiset() == old(v)@.to_multiset(),
        final(v)@.len() == old(v)@.len(),
        forall|i: int| 0 <= i < final(v)@.len() ==> old(v)@.contains(#[trigger] final(v)@[i]),
{
    let mut rng = rand::rng();
    rand::seq::SliceRandom::shuffle(v.as_mut_slice(), &mut rng);
}

/// The triangular number: how many bodies a pyramid of `r` rows holds.
pub open spec fn tri(r: int) -> int
    decreases r,
{
    if r <= 0 {
        0
    } else {
        tri(r - 1) + r
    }
}

/// The x coordinate of circle `k` (0-based) of row `r` (1-based) of a pyramid
/// whose apex column is `ax`: rows are centered, circles 35 units apart.
pub open spec fn pyramid_px(ax: int, r: int, k: int) -> int {
    ax + 17500 * (2 * k - r)
}

/// The y coordinate of row `r` of a pyramid of `size` rows around `ay`.
pub open spec fn pyramid_py(ay: int, size: int, r: int) -> int {
    ay - 17500 * size - 35000 * (r - 1)
}

/// True of a color that the pyramid palette holds: black, red or blue.
pub open spec fn palette_color(c: Rgba) -> bool {
    ||| c == (Rgba { r: 0, g: 0, b: 0, a: 255 })
    ||| c == (Rgba { r: 255, g: 0, b: 0, a: 255 })
    ||| c == (Rgba { r: 0, g: 0, b: 255, a: 255 })
}


/// What holds of every body a pyramid lays out: stationary, default radius
/// and derived mass, a palette color, the placeholder tag, and validity.
pub open spec fn pyramid_body(b: BodyModel) -> bool {
    &&& b.vx == 0
    &&& b.vy == 0
    &&& b.radius == DEFAULT_RADIUS
    &&& b.mass == mass_model(DEFAULT_RADIUS as int)
    &&& palette_color(b.color)
    &&& b.tag == "not set"@
    &&& valid_body(b)
}

/// The values of `tri` over the admissible pyramid sizes.
proof fn lemma_tri_small()
    ensures
        tri(0) == 0,
        tri(1) == 1,
        tri(2) == 3,
        tri(3) == 6,
        tri(4) == 10,
        tri(5) == 15,
{
    assert(tri(0) == 0);
    assert(tri(1) == 1);
    assert(tri(2) == 3);
    assert(tri(3) == 6);
    assert(tri(4) == 10);
    assert(tri(5) == 15);
}

/// Appends a pyramid of `size` rows of stationary default bodies around
/// `position`: row `r` holds `r` circles, rows narrow upward by one body, and
/// colors are drawn from a shuffled fixed palette of one black and seven
/// red/blue pairs, popped row by row.
fn build_pyramid(size: i8, circles: &mut Vec<Circle>, position: Vec2i)
    requires
        0 <= size <= 5,
        iabs(position.x as int) <= POS_LIMIT / 2,
        iabs(position.y as int) <= POS_LIMIT / 2,
    ensures
        final(circles)@.len() == old(circles)@.len() + tri(size as int),
        forall|n: int| 0 <= n < old(circles)@.len() ==> final(circles)@[n] == old(circles)@[n],
        forall|n: int|
            old(circles)@.len() <= n < final(circles)@.len() ==> pyramid_body(
                #[trigger] final(circles)@[n]@,
            ),
        forall|r: int, k: int|
            1 <= r <= size && 0 <= k < r ==> {
                let b = #[trigger] final(circles)@[old(circles)@.len() + tri(r - 1) + k]@;
                &&& b.px == pyramid_px(position.x as int, r, k)
                &&& b.py == pyramid_py(position.y as int, size as int, r)
            },
{
    let ghost base = circles@.len() as int;
    let mut needed: Vec<Rgba> = Vec::new();
    needed.push(Rgba::black());
    let mut t: usize = 0;
    while t < 7
        invariant
            t <= 7,
            needed@.len() == 1 + 2 * t,
            forall|i: int| 0 <= i < needed@.len() ==> palette_color(#[trigger] needed@[i]),
        decreases 7 - t,
    {
        needed.push(Rgba::red());
        needed.push(Rgba::blue());
        t = t + 1;
    }
    shuffle_colors(&mut needed);
    let size64: i64 = size as i64;
    let mut r: i64 = 1;
    while r <= size64
        invariant
            1 <= r <= size64 + 1,
            0 <= size64 <= 5,
            size64 == size as int,
            iabs(position.x as int) <= POS_LIMIT / 2,
            iabs(position.y as int) <= POS_LIMIT / 2,
            circles@.len() == base + tri(r - 1),
            0 <= base,
            needed@.len() == 15 - tri(r - 1),
            forall|i: int| 0 <= i < needed@.len() ==> palette_color(#[trigger] needed@[i]),
            forall|n: int| 0 <= n < base ==> circles@[n] == old(circles)@[n],
            forall|n: int| base <= n < circles@.len() ==> pyramid_body(#[trigger] circles@[n]@),
            forall|rr: int, kk: int|
                1 <= rr < r && 0 <= kk < rr ==> {
                    let b = #[trigger] circles@[base + tri(rr - 1) + kk]@;
                    &&& b.px == pyramid_px(position.x as int, rr, kk)
                    &&& b.py == pyramid_py(position.y as int, size as int, rr)
                },
        decreases size64 + 1 - r,
    {
        let mut k: i64 = 0;
        while k < r
            invariant
                1 <= r <= size64,
                0 <= k <= r,
                0 <= size64 <= 5,
                size64 == size as int,
                iabs(position.x as int) <= POS_LIMIT / 2,
                iabs(position.y as int) <= POS_LIMIT / 2,
                circles@.len() == base + tri(r - 1) + k,
                0 <= base,
                needed@.len() == 15 - tri(r - 1) - k,
                forall|i: int| 0 <= i < needed@.len() ==> palette_color(#[trigger] needed@[i]),
                forall|n: int| 0 <= n < base ==> circles@[n] == old(circles)@[n],
                forall|n: int| base <= n < circles@.len() ==> pyramid_body(#[trigger] circles@[n]@),
                forall|rr: int, kk: int|
                    1 <= rr < r && 0 <= kk < rr ==> {
                        let b = #[trigger] circles@[base + tri(rr - 1) + kk]@;
                        &&& b.px == pyramid_px(position.x as int, rr, kk)
                        &&& b.py == pyramid_py(position.y as int, size as int, rr)
                    },
                forall|kk: int|
                    0 <= kk < k ==> {
                        let b = #[trigger] circles@[base + tri(r - 1) + kk]@;
                        &&& b.px == pyramid_px(position.x as int, r as int, kk)
                        &&& b.py == pyramid_py(position.y as int, size as int, r as int)
                    },
            decreases r - k,
        {
            proof {
                lemma_tri_small();
            }
            let px: i64 = position.x + 17500 * (2 * k - r);
            let py: i64 = position.y - 17500 * size64 - 35000 * (r - 1);
            let mut circle = Circle::new(Vec2i::new(px, py), Vec2i::new(0, 0));
            let ghost prev_needed = needed@;
            let color = match needed.pop() {
                Some(c) => c,
                None => Rgba::white(),  // unreachable: the palette outlasts the pyramid
            };
            proof {
                assert(palette_color(color));
                assert forall|i: int| 0 <= i < needed@.len() implies palette_color(
                    #[trigger] needed@[i],
                ) by {
                    assert(needed@[i] == prev_needed[i]);
                }
            }
            circle.set_color(color);
            let ghost prev = circles@;
            circles.push(circle);
            proof {
                assert(circles@[prev.len() as int] == circle);
                assert(pyramid_body(circle@));
                assert forall|n: int| base <= n < circles@.len() implies pyramid_body(
                    #[trigger] circles@[n]@,
                ) by {
                    if n < prev.len() {
                        assert(circles@[n] == prev[n]);
                    }
                }
                assert forall|rr: int, kk: int| 1 <= rr < r && 0 <= kk < rr implies {
                    let b = #[trigger] circles@[base + tri(rr - 1) + kk]@;
                    &&& b.px == pyramid_px(position.x as int, rr, kk)
                    &&& b.py == pyramid_py(position.y as int, size as int, rr)
                } by {
                    lemma_tri_small();
                    assert(base + tri(rr - 1) + kk < prev.len());
                    assert(circles@[base + tri(rr - 1) + kk] == prev[base + tri(rr - 1) + kk]);
                }
                assert forall|kk: int| 0 <= kk < k + 1 implies {
                    let b = #[trigger] circles@[base + tri(r - 1) + kk]@;
                    &&& b.px == pyramid_px(position.x as int, r as int, kk)
                    &&& b.py == pyramid_py(position.y as int, size as int, r as int)
                } by {
                    if kk < k {
                        assert(circles@[base + tri(r - 1) + kk] == prev[base + tri(r - 1) + kk]);
                    } else {
                        assert(circles@[base + tri(r - 1) + kk] == circle);
                    }
                }
            }
            k = k + 1;
        }
        r = r + 1;
    }
}

/// What holds of every body a random scatter lays out: stationary, default
/// radius and mass, white, placed at least 20 units inside each wall.
pub open spec fn scatter_body(b: BodyModel, bx: int, by: int) -> bool {
    &&& 20_000 <= b.px <= bx - 20_000
    &&& 20_000 <= b.py <= by - 20_000
    &&& b.vx == 0
    &&& b.vy == 0
    &&& b.radius == DEFAULT_RADIUS
    &&& b.mass == mass_model(DEFAULT_RADIUS as int)
    &&& b.color == (Rgba { r: 255, g: 255, b: 255, a: 255 })
    &&& b.tag == "not set"@
    &&& valid_body(b)
}

/// What each layout asks of the bounds: a scatter needs room for its random
/// band, a pyramid an admissible size and an apex well inside the
/// representable range.
pub open spec fn layout_ok(layout: Layout, bx: int, by: int) -> bool {
    match layout {
        Layout::Empty => true,
        Layout::RandomScatter { count } => bx > 40_000 && by > 40_000,
        Layout::Pyramid { size, apex } => {
            &&& 0 <= size <= 5
            &&& iabs(apex.x as int) <= POS_LIMIT / 2
            &&& iabs(apex.y as int) <= POS_LIMIT / 2
        },
    }
}

impl MainState {
    /// A simulation over the given area with the given configuration and
    /// initial arrangement, starting idle.
    pub fn new(bounds: Vec2i, config: SimConfig, layout: Layout) -> (s: MainState)
        requires
            valid_config(config@),
            2 * DEFAULT_RADIUS <= bounds.x <= POS_LIMIT,
            2 * DEFAULT_RADIUS <= bounds.y <= POS_LIMIT,
            layout_ok(layout, bounds.x as int, bounds.y as int),
        ensures
            wf_sim(s@),
            s@.mode == ModeModel::Idle,
            s@.bounds_x == bounds.x,
            s@.bounds_y == bounds.y,
            s@.config == config@,
            match layout {
                Layout::Empty => s@.bodies.len() == 0,
                Layout::RandomScatter { count } => {
                    &&& s@.bodies.len() == count
                    &&& forall|i: int|
                        0 <= i < s@.bodies.len() ==> scatter_body(
                            #[trigger] s@.bodies[i],
                            bounds.x as int,
                            bounds.y as int,
                        )
                },
                Layout::Pyramid { size, apex } => {
                    &&& s@.bodies.len() == tri(size as int)
                    &&& (forall|n: int|
                        0 <= n < s@.bodies.len() ==> pyramid_body(#[trigger] s@.bodies[n]))
                    &&& (forall|r: int, k: int|
                        1 <= r <= size && 0 <= k < r ==> {
                            let b = #[trigger] s@.bodies[tri(r - 1) + k];
                            &&& b.px == pyramid_px(apex.x as int, r, k)
                            &&& b.py == pyramid_py(apex.y as int, size as int, r)
                        })
                },
            },
    {
        let mut circles: Vec<Circle> = Vec::new();
        match layout {
            Layout::Empty => {},
            Layout::RandomScatter { count } => {
                let mut c: usize = 0;
                while c < count
                    invariant
                        c <= count,
                        circles@.len() == c,
                        40_000 < bounds.x <= POS_LIMIT,
                        40_000 < bounds.y <= POS_LIMIT,
                        forall|i: int|
                            0 <= i < circles@.len() ==> scatter_body(
                                #[trigger] circles@[i]@,
                                bounds.x as int,
                                bounds.y as int,
                            ),
                    decreases count - c,
                {
                    let px: i64 = random_in_range(20_000, bounds.x - 20_000);
                    let py: i64 = random_in_range(20_000, bounds.y - 20_000);
                    let ghost prev = circles@;
                    circles.push(Circle::new(Vec2i::new(px, py), Vec2i::new(0, 0)));
                    proof {
                        assert forall|i: int| 0 <= i < circles@.len() implies scatter_body(
                            #[trigger] circles@[i]@,
                            bounds.x as int,
                            bounds.y as int,
                        ) by {
                            if i < prev.len() {
                                assert(circles@[i] == prev[i]);
                            }
                        }
                    }
                    c = c + 1;
                }
            },
            Layout::Pyramid { size, apex } => {
                build_pyramid(size, &mut circles, apex);
            },
        }
        let s = MainState { circles, mode: Mode::Idle, bounds, config };
        proof {
            assert forall|i: int| 0 <= i < s@.bodies.len() implies {
                &&& valid_body(#[trigger] s@.bodies[i])
                &&& 2 * s@.bodies[i].radius <= s@.bounds_x
                &&& 2 * s@.bodies[i].radius <= s@.bounds_y
            } by {
                assert(s@.bodies[i] == s.circles@[i]@);
            }
            match layout {
                Layout::Empty => {},
                Layout::RandomScatter { count } => {
                    assert forall|i: int| 0 <= i < s@.bodies.len() implies scatter_body(
                        #[trigger] s@.bodies[i],
                        bounds.x as int,
                        bounds.y as int,
                    ) by {
                        assert(s@.bodies[i] == s.circles@[i]@);
                    }
                },
                Layout::Pyramid { size, apex } => {
                    assert forall|n: int| 0 <= n < s@.bodies.len() implies pyramid_body(
                        #[trigger] s@.bodies[n],
                    ) by {
                        assert(s@.bodies[n] == s.circles@[n]@);
                        assert(pyramid_body(s.circles@[n]@));
                    }
                    assert forall|r: int, k: int| 1 <= r <= size && 0 <= k < r implies {
                        let b = #[trigger] s@.bodies[tri(r - 1) + k];
                        &&& b.px == pyramid_px(apex.x as int, r, k)
                        &&& b.py == pyramid_py(apex.y as int, size as int, r)
                    } by {
                        lemma_tri_small();
                        let bb = s.circles@[0 + tri(r - 1) + k]@;
                        assert(bb.px == pyramid_px(apex.x as int, r, k));
                        assert(bb.py == pyramid_py(apex.y as int, size as int, r));
                        assert(s@.bodies[tri(r - 1) + k] == s.circles@[tri(r - 1) + k]@);
                    }
                },
            }
        }
        s
    }

    /// How many bodies are live.
    pub fn body_count(&self) -> (n: usize)
        ensures
            n == self@.bodies.len(),
    {
        self.circles.len()
    }

    /// The body at an index, for rendering and inspection.
    pub fn body_at(&self, i: usize) -> (c: &Circle)
        requires
            i < self@.bodies.len(),
        ensures
            c@ == self@.bodies[i as int],
    {
        &self.circles[i]
    }

    /// The current interaction mode.
    pub fn mode(&self) -> (m: Mode)
        ensures
            mode_view(m) == self@.mode,
    {
        self.mode
    }

    /// The simulation area's extent.
    pub fn bounds(&self) -> (b: Vec2i)
        ensures
            b.x == self@.bounds_x,
            b.y == self@.bounds_y,
    {
        self.bounds
    }

    /// The configuration the simulation was built with.
    pub fn config(&self) -> (c: SimConfig)
        ensures
            c@ == self@.config,
    {
        self.config
    }
}

/// The bodies after part of a frame, and the fatal diagnostic that stopped
/// the frame, if one did.
pub ghost struct PassOutcome {
    pub bodies: Seq<BodyModel>,
    pub error: Option<PhysicsError>,
}

/// The collision pass from pair `(i, j)` on: every unordered pair in
/// ascending index order, resolving each detected overlap in place, so later
/// pairs see the already-updated state of earlier ones. A fatal diagnostic
/// stops the pass where it occurred (the offending pair is left unchanged).
pub open spec fn spec_collision_from(bs: Seq<BodyModel>, i: nat, j: nat) -> PassOutcome
    decreases bs.len() - i, bs.len() - j,
{
    if i >= bs.len() || j > bs.len() {
        PassOutcome { bodies: bs, error: None }
    } else if j == bs.len() {
        spec_collision_from(bs, i + 1, i + 2)
    } else {
        let a = bs[i as int];
        let c = bs[j as int];
        if spec_colliding(a, c) {
            let o = spec_collide(a, c);
            if o.error is Some {
                PassOutcome { bodies: bs, error: o.error }
            } else {
                spec_collision_from(bs.update(i as int, o.a).update(j as int, o.b), i, j + 1)
            }
        } else {
            spec_collision_from(bs, i, j + 1)
        }
    }
}

/// The integration pass from body `k` on: every body is integrated in order;
/// a fatal diagnostic stops the pass after the offending body was updated.
pub open spec fn spec_integrate_from(
    bs: Seq<BodyModel>,
    sx: int,
    sy: int,
    dt: int,
    friction: int,
    speed_scale: int,
    k: nat,
) -> PassOutcome
    decreases bs.len() - k,
{
    if k >= bs.len() {
        PassOutcome { bodies: bs, error: None }
    } else {
        let o = spec_integrate(bs[k as int], sx, sy, dt, friction, speed_scale);
        let nbs = bs.update(k as int, o.body);
        if o.error is Some {
            PassOutcome { bodies: nbs, error: o.error }
        } else {
            spec_integrate_from(nbs, sx, sy, dt, friction, speed_scale, k + 1)
        }
    }
}

/// One frame: the full collision pass, then (if no diagnostic stopped it) the
/// full integration pass.
pub open spec fn spec_step(bs: Seq<BodyModel>, sx: int, sy: int, dt: int, cfg: ConfigModel) -> PassOutcome {
    let p = spec_collision_from(bs, 0, 1);
    if p.error is Some {
        p
    } else {
        spec_integrate_from(p.bodies, sx, sy, dt, cfg.friction, cfg.speed_scale, 0)
    }
}

/// Deterministic frame order: the outcome of a frame is a function of the
/// body sequence, the bounds, the elapsed time and the configuration alone —
/// together with `step`'s postcondition (the new state equals `spec_step` of
/// the old), two runs from identical initial bodies under the same `dt`
/// sequence produce identical positions and velocities.
pub proof fn lemma_step_deterministic(
    bs1: Seq<BodyModel>,
    bs2: Seq<BodyModel>,
    sx: int,
    sy: int,
    dt: int,
    cfg: ConfigModel,
)
    requires
        bs1 == bs2,
    ensures
        spec_step(bs1, sx, sy, dt, cfg) == spec_step(bs2, sx, sy, dt, cfg),
{
}

impl MainState {
    /// One frame: resolve every pairwise overlap in ascending index order,
    /// then integrate every body. On a fatal diagnostic the frame stops where
    /// the diagnostic arose and the error is handed to the host; the bodies
    /// keep the updates made up to that point.
    pub fn step(&mut self, dt: i64) -> (r: Result<(), PhysicsError>)
        requires
            wf_sim(old(self)@),
            0 <= dt,
        ensures
            wf_sim(final(self)@),
            ({
                let p = spec_step(
                    old(self)@.bodies,
                    old(self)@.bounds_x,
                    old(self)@.bounds_y,
                    dt as int,
                    old(self)@.config,
                );
                &&& final(self)@.bodies == p.bodies
                &&& (match r {
                    Ok(()) => p.error is None,
                    Err(e) => p.error == Some(e),
                })
            }),
            final(self)@.mode == old(self)@.mode,
            final(self)@.bounds_x == old(self)@.bounds_x,
            final(self)@.bounds_y == old(self)@.bounds_y,
            final(self)@.config == old(self)@.config,
    {
        let ghost init = self@.bodies;
        let n = self.circles.len();
        let mut i: usize = 0;
        while i < n
            invariant
                wf_sim(old(self)@),
                n == self.circles@.len(),
                i <= n,
                self.mode == old(self).mode,
                self.bounds == old(self).bounds,
                self.config == old(self).config,
                init == old(self)@.bodies,
                forall|q: int|
                    0 <= q < self@.bodies.len() ==> {
                        &&& valid_body(#[trigger] self@.bodies[q])
                        &&& 2 * self@.bodies[q].radius <= self@.bounds_x
                        &&& 2 * self@.bodies[q].radius <= self@.bounds_y
                    },
                spec_collision_from(self@.bodies, i as nat, (i + 1) as nat)
                    == spec_collision_from(init, 0, 1),
            decreases n - i,
        {
            let mut j: usize = i + 1;
            while j < n
                invariant
                    wf_sim(old(self)@),
                    n == self.circles@.len(),
                    i < n,
                    i + 1 <= j <= n,
                    self.mode == old(self).mode,
                    self.bounds == old(self).bounds,
                    self.config == old(self).config,
                    init == old(self)@.bodies,
                    forall|q: int|
                        0 <= q < self@.bodies.len() ==> {
                            &&& valid_body(#[trigger] self@.bodies[q])
                            &&& 2 * self@.bodies[q].radius <= self@.bounds_x
                            &&& 2 * self@.bodies[q].radius <= self@.bounds_y
                        },
                    spec_collision_from(self@.bodies, i as nat, j as nat)
                        == spec_collision_from(init, 0, 1),
                decreases n - j,
            {
                proof {
                    assert(self@.bodies[i as int] == self.circles@[i as int]@);
                    assert(self@.bodies[j as int] == self.circles@[j as int]@);
                }
                let colliding = self.circles[i].is_colliding_with(&self.circles[j]);
                if colliding {
                    let ghost prev = self@.bodies;
                    let mut a = self.circles[i].duplicate();
                    let mut c = self.circles[j].duplicate();
                    let res = a.collide_with(&mut c);
                    self.circles.set(i, a);
                    self.circles.set(j, c);
                    proof {
                        assert(self@.bodies =~= prev.update(i as int, a@).update(j as int, c@));
                        let o = spec_collide(prev[i as int], prev[j as int]);
                        assert forall|q: int| 0 <= q < self@.bodies.len() implies {
                            &&& valid_body(#[trigger] self@.bodies[q])
                            &&& 2 * self@.bodies[q].radius <= self@.bounds_x
                            &&& 2 * self@.bodies[q].radius <= self@.bounds_y
                        } by {
                            if q != i && q != j {
                                assert(self@.bodies[q] == prev[q]);
                            }
                        }
                    }
                    match res {
                        Ok(()) => {},
                        Err(e) => {
                            proof {
                                assert(self@.bodies =~= prev);
                                assert(spec_collision_from(prev, i as nat, j as nat)
                                    == (PassOutcome { bodies: prev, error: Some(e) }));
                            }
                            return Err(e);
                        },
                    }
                }
                j = j + 1;
            }
            i = i + 1;
        }
        let ghost mid = self@.bodies;
        proof {
            assert(spec_collision_from(mid, n as nat, (n + 1) as nat) == (PassOutcome {
                bodies: mid,
                error: None,
            }));
        }
        let sx: i64 = self.bounds.x;
        let sy: i64 = self.bounds.y;
        let friction: i64 = self.config.friction;
        let speed_scale: i64 = self.config.speed_scale;
        let mut k: usize = 0;
        while k < n
            invariant
                wf_sim(old(self)@),
                0 <= dt,
                n == self.circles@.len(),
                k <= n,
                self.mode == old(self).mode,
                self.bounds == old(self).bounds,
                self.config == old(self).config,
                init == old(self)@.bodies,
                sx == self@.bounds_x,
                sy == self@.bounds_y,
                friction == self@.config.friction,
                speed_scale == self@.config.speed_scale,
                spec_collision_from(init, 0, 1) == (PassOutcome { bodies: mid, error: None }),
                forall|q: int|
                    0 <= q < self@.bodies.len() ==> {
                        &&& valid_body(#[trigger] self@.bodies[q])
                        &&& 2 * self@.bodies[q].radius <= self@.bounds_x
                        &&& 2 * self@.bodies[q].radius <= self@.bounds_y
                    },
                spec_integrate_from(
                    self@.bodies,
                    sx as int,
                    sy as int,
                    dt as int,
                    friction as int,
                    speed_scale as int,
                    k as nat,
                ) == spec_integrate_from(
                    mid,
                    sx as int,
                    sy as int,
                    dt as int,
                    friction as int,
                    speed_scale as int,
                    0,
                ),
            decreases n - k,
        {
            proof {
                assert(self@.bodies[k as int] == self.circles@[k as int]@);
            }
            let ghost prev = self@.bodies;
            let mut b = self.circles[k].duplicate();
            let res = b.move_with_velocity(self.bounds, dt, friction, speed_scale);
            self.circles.set(k, b);
            proof {
                assert(self@.bodies =~= prev.update(k as int, b@));
                assert forall|q: int| 0 <= q < self@.bodies.len() implies {
                    &&& valid_body(#[trigger] self@.bodies[q])
                    &&& 2 * self@.bodies[q].radius <= self@.bounds_x
                    &&& 2 * self@.bodies[q].radius <= self@.bounds_y
                } by {
                    if q != k {
                        assert(self@.bodies[q] == prev[q]);
                    }
                }
            }
            match res {
                Ok(()) => {},
                Err(e) => {
                    return Err(e);
                },
            }
            k = k + 1;
        }
        Ok(())
    }
}

/// The index of the first body that the point lies strictly inside, searched
/// from `k` on in collection order.
pub open spec fn spec_first_hit(bs: Seq<BodyModel>, x: int, y: int, k: nat) -> Option<int>
    decreases bs.len() - k,
{
    if k >= bs.len() {
        None
    } else if spec_touching(bs[k as int], x, y) {
        Some(k as int)
    } else {
        spec_first_hit(bs, x, y, k + 1)
    }
}

/// The bodies and mode after a pointer press, and the fatal diagnostic it
/// raised, if any.
pub ghost struct PressOutcome {
    pub bodies: Seq<BodyModel>,
    pub mode: ModeModel,
    pub error: Option<PhysicsError>,
}

/// One pointer press at `(x, y)`:
///
/// - placing: a new default-radius body is created at the remembered origin
///   with launch velocity `(press - origin) / drag_scale`, tagged with the
///   post-append collection size in decimal, and appended; back to idle. A
///   full collection (at `BODY_CAP`) raises the range diagnostic instead.
/// - dragging: the selected body receives the impulse `(press - center) /
///   drag_scale`; back to idle. An impulse that would leave the representable
///   velocity range raises the range diagnostic (and still returns to idle);
///   a stale selection index resolves to no body and falls back to idle.
/// - idle: the press is hit-tested against all bodies in order; the first hit
///   selects that body for dragging (if dragging is enabled), a miss
///   remembers the press as a pending placement origin (if placing is
///   enabled).
pub open spec fn spec_press(m: SimModel, x: int, y: int) -> PressOutcome {
    match m.mode {
        ModeModel::Placing { ox, oy } => {
            if m.bodies.len() >= BODY_CAP {
                PressOutcome {
                    bodies: m.bodies,
                    mode: ModeModel::Idle,
                    error: Some(PhysicsError::NumericRange),
                }
            } else {
                let nb = BodyModel {
                    px: ox,
                    py: oy,
                    vx: tdiv(x - ox, m.config.drag_scale),
                    vy: tdiv(y - oy, m.config.drag_scale),
                    radius: DEFAULT_RADIUS as int,
                    mass: mass_model(DEFAULT_RADIUS as int),
                    color: Rgba { r: 255, g: 255, b: 255, a: 255 },
                    tag: spec_dec_str((m.bodies.len() + 1) as nat),
                };
                PressOutcome { bodies: m.bodies.push(nb), mode: ModeModel::Idle, error: None }
            }
        },
        ModeModel::Dragging { index } => {
            if 0 <= index < m.bodies.len() {
                let b = m.bodies[index];
                let fx = tdiv(x - b.px, m.config.drag_scale);
                let fy = tdiv(y - b.py, m.config.drag_scale);
                if iabs(b.vx + fx) <= VEL_LIMIT && iabs(b.vy + fy) <= VEL_LIMIT {
                    PressOutcome {
                        bodies: m.bodies.update(
                            index,
                            BodyModel { vx: b.vx + fx, vy: b.vy + fy, ..b },
                        ),
                        mode: ModeModel::Idle,
                        error: None,
                    }
                } else {
                    PressOutcome {
                        bodies: m.bodies,
                        mode: ModeModel::Idle,
                        error: Some(PhysicsError::NumericRange),
                    }
                }
            } else {
                PressOutcome { bodies: m.bodies, mode: ModeModel::Idle, error: None }
            }
        },
        ModeModel::Idle => {
            match spec_first_hit(m.bodies, x, y, 0) {
                Some(i) => PressOutcome {
                    bodies: m.bodies,
                    mode: if m.config.can_drag {
                        ModeModel::Dragging { index: i }
                    } else {
                        ModeModel::Idle
                    },
                    error: None,
                },
                None => PressOutcome {
                    bodies: m.bodies,
                    mode: if m.config.can_place {
                        ModeModel::Placing { ox: x, oy: y }
                    } else {
                        ModeModel::Idle
                    },
                    error: None,
                },
            }
        },
    }
}

impl MainState {
    /// Delivers one pointer press at `(x, y)`; see `spec_press` for the three
    /// mode transitions.
    pub fn on_pointer_press(&mut self, x: i64, y: i64) -> (r: Result<(), PhysicsError>)
        requires
            wf_sim(old(self)@),
            iabs(x as int) <= POS_LIMIT,
            iabs(y as int) <= POS_LIMIT,
        ensures
            wf_sim(final(self)@),
            ({
                let o = spec_press(old(self)@, x as int, y as int);
                &&& final(self)@.bodies == o.bodies
                &&& final(self)@.mode == o.mode
                &&& (match r {
                    Ok(()) => o.error is None,
                    Err(e) => o.error == Some(e),
                })
            }),
            final(self)@.bounds_x == old(self)@.bounds_x,
            final(self)@.bounds_y == old(self)@.bounds_y,
            final(self)@.config == old(self)@.config,
    {
        let ds: i64 = self.config.drag_scale;
        match self.mode {
            Mode::Placing { origin } => {
                if self.circles.len() >= BODY_CAP {
                    self.mode = Mode::Idle;
                    return Err(PhysicsError::NumericRange);
                }
                proof {
                    crate::arith::lemma_tdiv_bound(x - origin.x as int, ds as int);
                    crate::arith::lemma_tdiv_bound(y - origin.y as int, ds as int);
                }
                let vx: i64 = div_trunc(x as i128 - origin.x as i128, ds as i128) as i64;
                let vy: i64 = div_trunc(y as i128 - origin.y as i128, ds as i128) as i64;
                let tag = u64_to_dec((self.circles.len() + 1) as u64);
                let circle = Circle::from_data(
                    origin,
                    Vec2i::new(vx, vy),
                    DEFAULT_RADIUS,
                    Rgba::white(),
                    tag,
                );
                let ghost prev = self@.bodies;
                self.circles.push(circle);
                self.mode = Mode::Idle;
                proof {
                    let o = spec_press(old(self)@, x as int, y as int);
                    assert(circle@ == (BodyModel {
                        px: origin.x as int,
                        py: origin.y as int,
                        vx: tdiv(x - origin.x as int, ds as int),
                        vy: tdiv(y - origin.y as int, ds as int),
                        radius: DEFAULT_RADIUS as int,
                        mass: mass_model(DEFAULT_RADIUS as int),
                        color: Rgba { r: 255, g: 255, b: 255, a: 255 },
                        tag: spec_dec_str((prev.len() + 1) as nat),
                    }));
                    assert(self@.bodies =~= prev.push(circle@));
                    assert(self@.bodies =~= o.bodies);
                    assert forall|q: int| 0 <= q < self@.bodies.len() implies {
                        &&& valid_body(#[trigger] self@.bodies[q])
                        &&& 2 * self@.bodies[q].radius <= self@.bounds_x
                        &&& 2 * self@.bodies[q].radius <= self@.bounds_y
                    } by {
                        if q < prev.len() {
                            assert(self@.bodies[q] == prev[q]);
                        }
                    }
                }
                Ok(())
            },
            Mode::Dragging { index } => {
                self.mode = Mode::Idle;
                if index < self.circles.len() {
                    proof {
                        assert(self@.bodies[index as int] == self.circles@[index as int]@);
                        crate::arith::lemma_tdiv_bound(
                            x - self.circles@[index as int]@.px,
                            ds as int,
                        );
                        crate::arith::lemma_tdiv_bound(
                            y - self.circles@[index as int]@.py,
                            ds as int,
                        );
                    }
                    let pos = self.circles[index].position();
                    let vel = self.circles[index].velocity();
                    let fx: i64 = div_trunc(x as i128 - pos.x as i128, ds as i128) as i64;
                    let fy: i64 = div_trunc(y as i128 - pos.y as i128, ds as i128) as i64;
                    let nvx: i128 = vel.x as i128 + fx as i128;
                    let nvy: i128 = vel.y as i128 + fy as i128;
                    let vl: i128 = VEL_LIMIT as i128;
                    if -vl <= nvx && nvx <= vl && -vl <= nvy && nvy <= vl {
                        let ghost prev = self@.bodies;
                        let mut b = self.circles[index].duplicate();
                        b.apply_force(Vec2i::new(fx, fy));
                        self.circles.set(index, b);
                        proof {
                            assert(self@.bodies =~= prev.update(index as int, b@));
                            assert forall|q: int| 0 <= q < self@.bodies.len() implies {
                                &&& valid_body(#[trigger] self@.bodies[q])
                                &&& 2 * self@.bodies[q].radius <= self@.bounds_x
                                &&& 2 * self@.bodies[q].radius <= self@.bounds_y
                            } by {
                                if q != index {
                                    assert(self@.bodies[q] == prev[q]);
                                }
                            }
                        }
                        Ok(())
                    } else {
                        Err(PhysicsError::NumericRange)
                    }
                } else {
                    Ok(())
                }
            },
            Mode::Idle => {
                let n = self.circles.len();
                let mut idx: usize = 0;
                let mut hit_found: bool = false;
                while idx < n && !hit_found
                    invariant
                        wf_sim(old(self)@),
                        self.mode == old(self).mode,
                        self.bounds == old(self).bounds,
                        self.config == old(self).config,
                        self.circles@ == old(self).circles@,
                        iabs(x as int) <= POS_LIMIT,
                        iabs(y as int) <= POS_LIMIT,
                        n == self.circles@.len(),
                        idx <= n,
                        !hit_found ==> spec_first_hit(self@.bodies, x as int, y as int, idx as nat)
                            == spec_first_hit(self@.bodies, x as int, y as int, 0),
                        hit_found ==> idx < n && spec_first_hit(self@.bodies, x as int, y as int, 0)
                            == Some(idx as int),
                    decreases n - idx, (if hit_found { 0int } else { 1int }),
                {
                    proof {
                        assert(self@.bodies[idx as int] == self.circles@[idx as int]@);
                    }
                    if self.circles[idx].is_touching_point(Vec2i::new(x, y)) {
                        hit_found = true;
                        proof {
                            assert(spec_touching(self@.bodies[idx as int], x as int, y as int));
                            assert(spec_first_hit(self@.bodies, x as int, y as int, idx as nat)
                                == Some(idx as int));
                        }
                    } else {
                        idx = idx + 1;
                    }
                }
                proof {
                    if !hit_found {
                        assert(spec_first_hit(self@.bodies, x as int, y as int, idx as nat)
                            is None);
                    }
                }
                if hit_found {
                    if self.config.can_drag {
                        self.mode = Mode::Dragging { index: idx };
                    } else {
                        self.mode = Mode::Idle;
                    }
                } else {
                    if self.config.can_place {
                        self.mode = Mode::Placing { origin: Vec2i::new(x, y) };
                    } else {
                        self.mode = Mode::Idle;
                    }
                }
                Ok(())
            },
        }
    }
}

} // verus!
