//! A point mass with a speed cap, a cycling hue and toroidal edge wrap.
use vstd::prelude::*;

use crate::geom::{Rect, Vec2};

verus! {

/// Number of update steps in one full turn of the hue wheel.
pub const HUE_STEPS: u32 = 200;

/// Largest top speed a particle may have (2^24 sub-units per step).
pub const SPEED_MAX: i64 = 0x100_0000;

/// Largest magnitude of an accumulated force component (2^28 sub-units).
pub const ACCEL_MAX: i64 = 0x1000_0000;

/// Largest magnitude of a position component (2^41 sub-units).
pub const POS_MAX: i64 = 0x200_0000_0000;

/// `r` is the least `r >= 0` with `r * r >= n`.
pub open spec fn is_ceil_sqrt(r: int, n: int) -> bool {
    r >= 0 && r * r >= n && (r == 0 || (r - 1) * (r - 1) < n)
}

/// The least `r >= 0` with `r * r >= n`: the square root of `n` rounded up.
pub open spec fn ceil_sqrt(n: int) -> int {
    choose|r: int| is_ceil_sqrt(r, n)
}

/// One component of a vector of length `len` rescaled to length `top`,
/// rounded toward zero.
pub open spec fn rescale(c: int, top: int, len: int) -> int {
    if c >= 0 {
        (c * top) / len
    } else {
        -(((-c) * top) / len)
    }
}

/// `v` unchanged when its length is at most `top`; otherwise `v` rescaled to
/// length `top` (rounded toward zero), its direction kept.
pub open spec fn clamp_length_max(v: Vec2, top: int) -> Vec2 {
    if v.norm_sq() <= top * top {
        v
    } else {
        let len = ceil_sqrt(v.norm_sq());
        Vec2 { x: rescale(v.x as int, top, len) as i64, y: rescale(v.y as int, top, len) as i64 }
    }
}

/// The hue after one step: one step on, back to zero at a full turn.
pub open spec fn next_hue(h: u32) -> u32 {
    if h + 1 >= HUE_STEPS {
        0
    } else {
        (h + 1) as u32
    }
}

/// The hue after `n` steps from `h`.
pub open spec fn hue_after(h: u32, n: nat) -> u32
    decreases n,
{
    if n == 0 {
        h
    } else {
        next_hue(hue_after(h, (n - 1) as nat))
    }
}

/// However many steps are taken, a hue within one turn stays within one
/// turn; a step from the last position of the turn goes back to zero.
pub proof fn lemma_hue_stays_in_turn(h: u32, n: nat)
    requires
        h < HUE_STEPS,
    ensures
        hue_after(h, n) < HUE_STEPS,
        next_hue((HUE_STEPS - 1) as u32) == 0,
    decreases n,
{
    if n > 0 {
        lemma_hue_stays_in_turn(h, (n - 1) as nat);
    }
}

/// A coordinate after wrapping into `[lo, hi]`: past one edge it moves to
/// the other.
pub open spec fn wrap_coord(c: i64, lo: i64, hi: i64) -> i64 {
    if c < lo {
        hi
    } else if c > hi {
        lo
    } else {
        c
    }
}

/// A previous coordinate after wrapping: snapped to the new coordinate on a
/// wrap, so that no trail crosses the viewport.
pub open spec fn wrap_prev(prev: i64, c: i64, lo: i64, hi: i64) -> i64 {
    if lo <= c <= hi {
        prev
    } else {
        wrap_coord(c, lo, hi)
    }
}

proof fn lemma_ceil_sqrt_unique(r: int, s: int, n: int)
    requires
        is_ceil_sqrt(r, n),
        is_ceil_sqrt(s, n),
    ensures
        r == s,
{
    if r < s {
        assert((s - 1) * (s - 1) >= r * r) by (nonlinear_arith)
            requires
                0 <= r <= s - 1,
        ;
    } else if s < r {
        assert((r - 1) * (r - 1) >= s * s) by (nonlinear_arith)
            requires
                0 <= s <= r - 1,
        ;
    }
}

proof fn lemma_ceil_sqrt_exists(n: nat)
    ensures
        is_ceil_sqrt(ceil_sqrt(n as int), n as int),
    decreases n,
{
    if n == 0 {
        assert(is_ceil_sqrt(0, 0));
    } else {
        lemma_ceil_sqrt_exists((n - 1) as nat);
        let r = ceil_sqrt(n - 1);
        if r * r >= n {
            assert(r != 0);
            assert(is_ceil_sqrt(r, n as int));
        } else {
            assert((r + 1) * (r + 1) == r * r + 2 * r + 1) by (nonlinear_arith);
            assert(is_ceil_sqrt(r + 1, n as int));
        }
    }
}

/// A vector capped by `clamp_length_max` is no longer than the cap.
pub proof fn lemma_clamp_within(v: Vec2, top: int)
    requires
        0 <= top <= i64::MAX,
    ensures
        clamp_length_max(v, top).norm_sq() <= top * top,
{
    if v.norm_sq() > top * top {
        assert(v.norm_sq() >= 0) by (nonlinear_arith);
        lemma_ceil_sqrt_exists(v.norm_sq() as nat);
        let len = ceil_sqrt(v.norm_sq());
        lemma_rescaled_within(v, top, len);
        let rx = rescale(v.x as int, top, len);
        let ry = rescale(v.y as int, top, len);
        lemma_component_within(rx, ry, top);
    }
}

/// The least `r` with `r * r >= n`, by bisection.
fn ceil_sqrt_exec(n: u64) -> (r: u64)
    requires
        n < 0x1000_0000_0000_0000,
    ensures
        r == ceil_sqrt(n as int),
        is_ceil_sqrt(r as int, n as int),
        r <= 0x4000_0000,
{
    if n == 0 {
        assert(is_ceil_sqrt(0, 0));
        proof {
            lemma_ceil_sqrt_unique(0, ceil_sqrt(0), 0);
        }
        return 0;
    }
    let mut lo: u64 = 0;
    let mut hi: u64 = 0x4000_0000;
    assert(hi * hi == 0x1000_0000_0000_0000);
    while hi - lo > 1
        invariant
            lo < hi <= 0x4000_0000,
            (lo as int) * (lo as int) < n,
            (hi as int) * (hi as int) >= n,
        decreases hi - lo,
    {
        let mid: u64 = lo + (hi - lo) / 2;
        assert(mid * mid <= 0x1000_0000_0000_0000) by (nonlinear_arith)
            requires
                mid <= 0x4000_0000,
        ;
        if mid * mid >= n {
            hi = mid;
        } else {
            lo = mid;
        }
    }
    assert(is_ceil_sqrt(hi as int, n as int));
    proof {
        lemma_ceil_sqrt_unique(hi as int, ceil_sqrt(n as int), n as int);
    }
    hi
}

/// A rescaled component times `len` is at most `c * top` in magnitude.
proof fn lemma_rescale_bound(c: int, top: int, len: int)
    requires
        top >= 0,
        len > 0,
    ensures
        rescale(c, top, len) * rescale(c, top, len) * len * len <= c * c * top * top,
{
    let a = if c >= 0 { c } else { -c };
    let q = (a * top) / len;
    assert(0 <= q) by (nonlinear_arith)
        requires
            a >= 0,
            top >= 0,
            len > 0,
            q == (a * top) / len,
    ;
    assert(q * len <= a * top) by (nonlinear_arith)
        requires
            len > 0,
            q == (a * top) / len,
    ;
    assert(q * q * len * len <= a * a * top * top) by (nonlinear_arith)
        requires
            0 <= q,
            q * len <= a * top,
            len > 0,
    ;
    let r = rescale(c, top, len);
    assert(r == q || r == -q);
    assert(r * r == q * q) by (nonlinear_arith)
        requires
            r == q || r == -q,
    ;
    assert(a * a == c * c) by (nonlinear_arith)
        requires
            a == c || a == -c,
    ;
    assert(q * q * len * len == rescale(c, top, len) * rescale(c, top, len) * len * len);
    assert(a * a * top * top == c * c * top * top) by (nonlinear_arith)
        requires
            a * a == c * c,
    ;
}

/// A vector longer than `top`, rescaled by its ceiling length, is no longer
/// than `top`.
proof fn lemma_rescaled_within(v: Vec2, top: int, len: int)
    requires
        top >= 0,
        v.norm_sq() > top * top,
        is_ceil_sqrt(len, v.norm_sq()),
    ensures
        len > 0,
        rescale(v.x as int, top, len) * rescale(v.x as int, top, len) + rescale(v.y as int, top, len)
            * rescale(v.y as int, top, len) <= top * top,
{
    let n = v.norm_sq();
    assert(top * top >= 0) by (nonlinear_arith);
    assert(len > 0) by (nonlinear_arith)
        requires
            len >= 0,
            len * len >= n,
            n > 0,
    ;
    let rx = rescale(v.x as int, top, len);
    let ry = rescale(v.y as int, top, len);
    lemma_rescale_bound(v.x as int, top, len);
    lemma_rescale_bound(v.y as int, top, len);
    assert((rx * rx + ry * ry) * (len * len) <= n * (top * top)) by (nonlinear_arith)
        requires
            rx * rx * len * len <= v.x * v.x * top * top,
            ry * ry * len * len <= v.y * v.y * top * top,
            n == v.x * v.x + v.y * v.y,
    ;
    assert(n * (top * top) <= (len * len) * (top * top)) by (nonlinear_arith)
        requires
            n <= len * len,
            top * top >= 0,
    ;
    assert(rx * rx + ry * ry <= top * top) by (nonlinear_arith)
        requires
            (rx * rx + ry * ry) * (len * len) <= (len * len) * (top * top),
            len > 0,
    ;
}

/// A component of a vector no longer than `t` is at most `t` in magnitude.
proof fn lemma_component_within(x: int, y: int, t: int)
    requires
        t >= 0,
        x * x + y * y <= t * t,
    ensures
        -t <= x <= t,
        -t <= y <= t,
{
    assert(y * y >= 0) by (nonlinear_arith);
    assert(x * x >= 0) by (nonlinear_arith);
    assert(-t <= x <= t) by (nonlinear_arith)
        requires
            t >= 0,
            x * x <= t * t,
    ;
    assert(-t <= y <= t) by (nonlinear_arith)
        requires
            t >= 0,
            y * y <= t * t,
    ;
}

/// `v` with its length capped at `top`; see `clamp_length_max`.
fn clamp_velocity(v: Vec2, top: i64) -> (r: Vec2)
    requires
        -0x2000_0000 < v.x < 0x2000_0000,
        -0x2000_0000 < v.y < 0x2000_0000,
        0 <= top <= SPEED_MAX,
    ensures
        r == clamp_length_max(v, top as int),
        r.norm_sq() <= top * top,
{
    assert(0 <= v.x * v.x < 0x400_0000_0000_0000) by (nonlinear_arith)
        requires
            -0x2000_0000 < v.x < 0x2000_0000,
    ;
    assert(0 <= v.y * v.y < 0x400_0000_0000_0000) by (nonlinear_arith)
        requires
            -0x2000_0000 < v.y < 0x2000_0000,
    ;
    let n: i64 = v.x * v.x + v.y * v.y;
    assert(0 <= top * top <= SPEED_MAX * SPEED_MAX) by (nonlinear_arith)
        requires
            0 <= top <= SPEED_MAX,
    ;
    if n <= top * top {
        return v;
    }
    let len = ceil_sqrt_exec(n as u64);
    proof {
        lemma_rescaled_within(v, top as int, len as int);
    }
    let ax: i64 = if v.x >= 0 { v.x } else { -v.x };
    let ay: i64 = if v.y >= 0 { v.y } else { -v.y };
    assert(ax * top <= 0x2000_0000 * SPEED_MAX) by (nonlinear_arith)
        requires
            0 <= ax < 0x2000_0000,
            0 <= top <= SPEED_MAX,
    ;
    assert(ay * top <= 0x2000_0000 * SPEED_MAX) by (nonlinear_arith)
        requires
            0 <= ay < 0x2000_0000,
            0 <= top <= SPEED_MAX,
    ;
    let qx: i64 = (ax * top) / (len as i64);
    let qy: i64 = (ay * top) / (len as i64);
    let rx: i64 = if v.x >= 0 { qx } else { -qx };
    let ry: i64 = if v.y >= 0 { qy } else { -qy };
    proof {
        let ex = rescale(v.x as int, top as int, len as int);
        let ey = rescale(v.y as int, top as int, len as int);
        assert(rx == ex);
        assert(ry == ey);
        lemma_component_within(ex, ey, top as int);
    }
    Vec2 { x: rx, y: ry }
}

/// The particle after one step per force in `forces`, each force applied
/// just before its step.
pub open spec fn driven(p: Particle, forces: Seq<Vec2>) -> Particle
    decreases forces.len(),
{
    if forces.len() == 0 {
        p
    } else {
        driven(p, forces.drop_last()).forced(forces.last()).stepped()
    }
}

/// After any positive number of steps, whatever forces were applied, a
/// particle is no faster than its top speed, which never changes.
pub proof fn lemma_speed_cap(p: Particle, forces: Seq<Vec2>)
    requires
        0 <= p.topspeed,
    ensures
        driven(p, forces).topspeed == p.topspeed,
        forces.len() > 0 ==> driven(p, forces).velocity.norm_sq() <= p.topspeed * p.topspeed,
    decreases forces.len(),
{
    if forces.len() > 0 {
        lemma_speed_cap(p, forces.drop_last());
        let q = driven(p, forces.drop_last()).forced(forces.last());
        lemma_clamp_within(q.velocity.plus(q.acceleration), q.topspeed as int);
    }
}

/// A particle just past the right edge of `b` wraps to its left edge, and
/// its trail restarts there on that axis; so does one at rest there that
/// takes a step first.
pub proof fn lemma_wrap_past_right(p: Particle, b: Rect, eps: int)
    requires
        b.wf(),
        eps > 0,
        p.position.x == b.right + eps,
    ensures
        p.wrapped(b).position.x == b.left,
        p.wrapped(b).prev_position.x == p.wrapped(b).position.x,
        p.velocity == Vec2::zero_spec() && p.acceleration == Vec2::zero_spec() && 0
            <= p.topspeed ==> p.stepped().wrapped(b).position.x == b.left
            && p.stepped().wrapped(b).prev_position.x == b.left,
{
    if p.velocity == Vec2::zero_spec() && p.acceleration == Vec2::zero_spec() && 0 <= p.topspeed {
        let z = Vec2::zero_spec();
        assert(p.topspeed * p.topspeed >= 0) by (nonlinear_arith);
        assert(p.velocity.plus(p.acceleration) == z);
        assert(z.norm_sq() == z.x * z.x + z.y * z.y);
        assert(clamp_length_max(z, p.topspeed as int) == z);
        assert(p.stepped().position == p.position);
    }
}

/// What the renderer draws for a particle: a segment from its previous to its
/// current position, coloured by its hue (in `HUE_STEPS`ths of a turn).
#[derive(Clone, Copy, Debug, PartialEq, Eq, Structural)]
pub struct Stroke {
    pub from: Vec2,
    pub to: Vec2,
    pub hue: u32,
}

/// A point mass steered by forces.
#[derive(Clone, Copy, Debug, PartialEq, Eq, Structural)]
pub struct Particle {
    pub position: Vec2,
    /// Where the particle was before its last step; the start of its trail.
    pub prev_position: Vec2,
    pub velocity: Vec2,
    /// Forces applied since the last step.
    pub acceleration: Vec2,
    /// The cap on the length of `velocity`.
    pub topspeed: i64,
    /// Position on the hue wheel, in `HUE_STEPS`ths of a turn.
    pub hue: u32,
}

impl Particle {
    /// Fields in range: speed within its cap, hue within one turn.
    pub open spec fn wf(self) -> bool {
        &&& 0 <= self.topspeed <= SPEED_MAX
        &&& self.velocity.norm_sq() <= self.topspeed * self.topspeed
        &&& -ACCEL_MAX <= self.acceleration.x <= ACCEL_MAX
        &&& -ACCEL_MAX <= self.acceleration.y <= ACCEL_MAX
        &&& self.hue < HUE_STEPS
        &&& -POS_MAX <= self.position.x <= POS_MAX
        &&& -POS_MAX <= self.position.y <= POS_MAX
        &&& -POS_MAX <= self.prev_position.x <= POS_MAX
        &&& -POS_MAX <= self.prev_position.y <= POS_MAX
    }

    /// Far enough inside the representable range for one more step.
    pub open spec fn can_move(self) -> bool {
        &&& -(POS_MAX - SPEED_MAX) <= self.position.x <= POS_MAX - SPEED_MAX
        &&& -(POS_MAX - SPEED_MAX) <= self.position.y <= POS_MAX - SPEED_MAX
    }

    /// A particle at rest at `position`.
    pub open spec fn at_rest(position: Vec2, topspeed: i64) -> Particle {
        Particle {
            position,
            prev_position: position,
            velocity: Vec2::zero_spec(),
            acceleration: Vec2::zero_spec(),
            topspeed,
            hue: 0,
        }
    }

    /// The particle after `f` is added to its accumulated force.
    pub open spec fn forced(self, f: Vec2) -> Particle {
        Particle { acceleration: self.acceleration.plus(f), ..self }
    }

    /// The particle after one integration step.
    pub open spec fn stepped(self) -> Particle {
        let v = clamp_length_max(self.velocity.plus(self.acceleration), self.topspeed as int);
        Particle {
            position: self.position.plus(v),
            prev_position: self.position,
            velocity: v,
            acceleration: Vec2::zero_spec(),
            topspeed: self.topspeed,
            hue: next_hue(self.hue),
        }
    }

    /// The particle after wrapping into `b`, each axis on its own.
    pub open spec fn wrapped(self, b: Rect) -> Particle {
        Particle {
            position: Vec2 {
                x: wrap_coord(self.position.x, b.left, b.right),
                y: wrap_coord(self.position.y, b.bottom, b.top),
            },
            prev_position: Vec2 {
                x: wrap_prev(self.prev_position.x, self.position.x, b.left, b.right),
                y: wrap_prev(self.prev_position.y, self.position.y, b.bottom, b.top),
            },
            ..self
        }
    }

    /// A particle at rest at `position`, its trail empty, hue at zero.
    pub fn new(position: Vec2, topspeed: i64) -> (r: Particle)
        requires
            -POS_MAX <= position.x <= POS_MAX,
            -POS_MAX <= position.y <= POS_MAX,
            0 <= topspeed <= SPEED_MAX,
        ensures
            r == Particle::at_rest(position, topspeed),
            r.position == position,
            r.prev_position == position,
            r.velocity == Vec2::zero_spec(),
            r.acceleration == Vec2::zero_spec(),
            r.topspeed == topspeed,
            r.hue == 0,
            r.wf(),
    {
        Particle {
            position,
            prev_position: position,
            velocity: Vec2::zero(),
            acceleration: Vec2::zero(),
            topspeed,
            hue: 0,
        }
    }

    /// Adds `force` to the force accumulated for the next step.
    pub fn apply_force(&mut self, force: Vec2)
        requires
            old(self).wf(),
            -ACCEL_MAX <= old(self).acceleration.x + force.x <= ACCEL_MAX,
            -ACCEL_MAX <= old(self).acceleration.y + force.y <= ACCEL_MAX,
        ensures
            *final(self) == old(self).forced(force),
            final(self).wf(),
    {
        self.acceleration = Vec2 {
            x: self.acceleration.x + force.x,
            y: self.acceleration.y + force.y,
        };
    }

    /// One step: remembers the position, advances the hue, adds the
    /// accumulated force to the velocity, caps its length at `topspeed`, moves
    /// by the velocity and clears the force.
    pub fn update(&mut self)
        requires
            old(self).wf(),
            old(self).can_move(),
        ensures
            *final(self) == old(self).stepped(),
            final(self).wf(),
            final(self).velocity.norm_sq() <= final(self).topspeed * final(self).topspeed,
    {
        proof {
            lemma_component_within(self.velocity.x as int, self.velocity.y as int, self.topspeed as int);
        }
        self.prev_position = self.position;
        self.hue = if self.hue + 1 >= HUE_STEPS {
            0
        } else {
            self.hue + 1
        };
        let sum = Vec2 {
            x: self.velocity.x + self.acceleration.x,
            y: self.velocity.y + self.acceleration.y,
        };
        let v = clamp_velocity(sum, self.topspeed);
        proof {
            lemma_component_within(v.x as int, v.y as int, self.topspeed as int);
        }
        self.velocity = v;
        self.position = Vec2 { x: self.position.x + v.x, y: self.position.y + v.y };
        self.acceleration = Vec2::zero();
    }

    /// Wraps the particle around the edges of `bounds`: past one edge it moves
    /// to the opposite one, and its trail restarts there.
    pub fn check_edges(&mut self, bounds: Rect)
        requires
            old(self).wf(),
            bounds.wf(),
        ensures
            *final(self) == old(self).wrapped(bounds),
            final(self).wf(),
            bounds.contains(final(self).position),
    {
        if self.position.x < bounds.left {
            self.position.x = bounds.right;
            self.prev_position.x = self.position.x;
        } else if self.position.x > bounds.right {
            self.position.x = bounds.left;
            self.prev_position.x = self.position.x;
        }
        if self.position.y < bounds.bottom {
            self.position.y = bounds.top;
            self.prev_position.y = self.position.y;
        } else if self.position.y > bounds.top {
            self.position.y = bounds.bottom;
            self.prev_position.y = self.position.y;
        }
    }

    /// The trail segment and hue to draw for this particle.
    pub fn draw(&self) -> (r: Stroke)
        ensures
            r.from == self.prev_position,
            r.to == self.position,
            r.hue == self.hue,
    {
        Stroke { from: self.prev_position, to: self.position, hue: self.hue }
    }
}

} // verus!
