//! The field model and the frame loop: three sources (a player, a sun, and a
//! planet orbiting the sun), mutation actions, the autonomous orbit step, and
//! the redraw of the frame buffer.
//!
//! Time deltas and move actions are fixed-point: `dt` is given in thousandths
//! of a time unit, and a `MoveBy` delta is scaled by `dt / DT_SCALE` with
//! truncation towards zero, the way a float product truncated to an integer
//! behaves.
//!
//! A whole action batch is validated up front: if any action names a source
//! id out of range, `update` reports `UpdateError::InvalidSourceId` and the
//! state is left entirely unchanged — no action is applied, the orbit does
//! not advance, and the buffer keeps its previous frame.

use vstd::prelude::*;

verus! {

use crate::field::{balls_wf, render, render_spec, Ball};
use crate::pixel::Pixel;
use crate::trig::{cos_steps, cos_steps_spec, sin_steps, sin_steps_spec, STEPS_PER_TURN};
use vstd::arithmetic::div_mod::{lemma_div_nonincreasing, lemma_div_pos_is_pos};

/// Frame buffer width in pixels.
pub const BUFFER_WIDTH: usize = 1280;

/// Frame buffer height in pixels.
pub const BUFFER_HEIGHT: usize = 720;

/// Fixed-point scale of time deltas: a `dt` of `DT_SCALE` is one time unit.
pub const DT_SCALE: i64 = 1000;

/// Index of the player source, the one clamped to the drawable area.
pub const PLAYER_ID: usize = 0;

/// Index of the sun source, the orbit center.
pub const SUN_ID: usize = 1;

/// Index of the planet source, the one moved by the autonomous orbit.
pub const PLANET_ID: usize = 2;

/// Orbit radius of the planet around the sun, in pixels.
pub const ORBIT_RADIUS: i64 = 225;

/// A mutation command for one source, addressed by its index.
#[derive(Clone, Copy, Debug)]
pub enum Action {
    /// Add the deltas, scaled by `dt / DT_SCALE` with truncation, to the
    /// source's position.
    MoveBy { id: usize, x: i32, y: i32 },
    /// Set the source's position outright.
    MoveTo { id: usize, x: i32, y: i32 },
}

/// The one failure the model reports: an action named a source id at or
/// beyond the source count.
#[derive(Clone, Copy, Debug, PartialEq, Eq, Structural)]
pub enum UpdateError {
    InvalidSourceId,
}

/// The source id an action addresses.
pub open spec fn action_id_spec(a: Action) -> int {
    match a {
        Action::MoveBy { id, .. } => id as int,
        Action::MoveTo { id, .. } => id as int,
    }
}

/// Every action in the batch addresses one of `n` sources.
pub open spec fn actions_valid_spec(actions: Seq<Action>, n: int) -> bool {
    forall|i: int| 0 <= i < actions.len() ==> #[trigger] action_id_spec(actions[i]) < n
}

/// Quotient truncated towards zero, the rounding a float-to-integer cast
/// applies.
pub open spec fn trunc_div_spec(a: int, d: int) -> int {
    if a >= 0 {
        a / d
    } else {
        -((-a) / d)
    }
}

/// Clamp `v` into `[lo, hi]`.
pub open spec fn clamp_spec(v: int, lo: int, hi: int) -> int {
    if v < lo {
        lo
    } else if v > hi {
        hi
    } else {
        v
    }
}

/// A `MoveBy` delta scaled by the time delta: `d * dt / DT_SCALE`, truncated
/// towards zero.
pub open spec fn scaled_delta_spec(d: int, dt: int) -> int {
    trunc_div_spec(d * dt, DT_SCALE as int)
}

/// Position reached by moving a source: the player is clamped to the drawable
/// area, every other source saturates at the `i32` range.
pub open spec fn move_clamp_spec(id: int, v: int, limit: int) -> int {
    if id == PLAYER_ID {
        clamp_spec(v, 0, limit)
    } else {
        clamp_spec(v, -0x8000_0000, 0x7fff_ffff)
    }
}

/// One action applied to the sources. The addressed source must be in range;
/// `update` validates the whole batch before applying any of it.
pub open spec fn apply_action_spec(balls: Seq<Ball>, a: Action, dt: int) -> Seq<Ball> {
    match a {
        Action::MoveBy { id, x, y } => {
            let b = balls[id as int];
            let nx = move_clamp_spec(
                id as int,
                b.x + scaled_delta_spec(x as int, dt),
                BUFFER_WIDTH as int,
            );
            let ny = move_clamp_spec(
                id as int,
                b.y + scaled_delta_spec(y as int, dt),
                BUFFER_HEIGHT as int,
            );
            balls.update(id as int, Ball { x: nx as i32, y: ny as i32, ..b })
        },
        Action::MoveTo { id, x, y } => {
            let b = balls[id as int];
            let nx = move_clamp_spec(id as int, x as int, BUFFER_WIDTH as int);
            let ny = move_clamp_spec(id as int, y as int, BUFFER_HEIGHT as int);
            balls.update(id as int, Ball { x: nx as i32, y: ny as i32, ..b })
        },
    }
}

/// A whole batch applied in sequence order.
pub open spec fn apply_actions_spec(balls: Seq<Ball>, actions: Seq<Action>, dt: int) -> Seq<Ball>
    decreases actions.len(),
{
    if actions.len() == 0 {
        balls
    } else {
        apply_action_spec(apply_actions_spec(balls, actions.drop_last(), dt), actions.last(), dt)
    }
}

/// The planet's x position on its orbit: the sun's x plus the scaled cosine
/// times the radius `r`, saturated at the `i32` range.
pub open spec fn orbit_x_spec(sun_x: int, r: int, step: int) -> int {
    clamp_spec(
        sun_x + trunc_div_spec(cos_steps_spec(step) * r, 1024),
        -0x8000_0000,
        0x7fff_ffff,
    )
}

/// The planet's y position on its orbit, from the scaled sine.
pub open spec fn orbit_y_spec(sun_y: int, r: int, step: int) -> int {
    clamp_spec(
        sun_y + trunc_div_spec(sin_steps_spec(step) * r, 1024),
        -0x8000_0000,
        0x7fff_ffff,
    )
}

/// The sources after the autonomous orbit step: the planet is put on its
/// orbit of radius `r` around the sun at angle `step`, everything else is
/// untouched.
pub open spec fn orbit_balls_spec(balls: Seq<Ball>, r: int, step: int) -> Seq<Ball> {
    let sun = balls[SUN_ID as int];
    let planet = balls[PLANET_ID as int];
    balls.update(
        PLANET_ID as int,
        Ball {
            x: orbit_x_spec(sun.x as int, r, step) as i32,
            y: orbit_y_spec(sun.y as int, r, step) as i32,
            ..planet
        },
    )
}

/// Quotient truncated towards zero.
fn trunc_div_i128(a: i128, d: u64) -> (q: i128)
    requires
        d >= 1,
        a > i128::MIN,
    ensures
        q == trunc_div_spec(a as int, d as int),
        a >= 0 ==> 0 <= q <= a,
        a < 0 ==> a <= q <= 0,
{
    if a >= 0 {
        let m: u128 = a as u128;
        proof {
            lemma_div_nonincreasing(m as int, d as int);
            lemma_div_pos_is_pos(m as int, d as int);
        }
        (m / (d as u128)) as i128
    } else {
        let m: u128 = (-a) as u128;
        proof {
            lemma_div_nonincreasing(m as int, d as int);
            lemma_div_pos_is_pos(m as int, d as int);
        }
        -((m / (d as u128)) as i128)
    }
}

/// Clamp into `[lo, hi]`.
fn clamp_i128(v: i128, lo: i128, hi: i128) -> (c: i128)
    requires
        lo <= hi,
    ensures
        c == clamp_spec(v as int, lo as int, hi as int),
        lo <= c <= hi,
{
    if v < lo {
        lo
    } else if v > hi {
        hi
    } else {
        v
    }
}

/// Apply one validated action to the sources.
fn apply_action(balls: &mut Vec<Ball>, a: &Action, dt: i64)
    requires
        old(balls)@.len() == 3,
        0 <= action_id_spec(*a) < 3,
    ensures
        final(balls)@ == apply_action_spec(old(balls)@, *a, dt as int),
        balls_wf(old(balls)@) ==> balls_wf(final(balls)@),
{
    match *a {
        Action::MoveBy { id, x, y } => {
            let b = balls[id];
            proof {
                assert(-0x8000_0000_0000_0000_0000_0000 <= (x as int) * (dt as int)
                    <= 0x8000_0000_0000_0000_0000_0000 && -0x8000_0000_0000_0000_0000_0000 <= (
                y as int) * (dt as int) <= 0x8000_0000_0000_0000_0000_0000) by (nonlinear_arith)
                    requires
                        -0x8000_0000 <= x <= 0x7fff_ffff && -0x8000_0000 <= y <= 0x7fff_ffff
                            && -0x8000_0000_0000_0000 <= dt <= 0x7fff_ffff_ffff_ffff,
                ;
            }
            let sx = trunc_div_i128((x as i128) * (dt as i128), 1000);
            let sy = trunc_div_i128((y as i128) * (dt as i128), 1000);
            let vx = b.x as i128 + sx;
            let vy = b.y as i128 + sy;
            let nb = if id == PLAYER_ID {
                Ball {
                    x: clamp_i128(vx, 0, BUFFER_WIDTH as i128) as i32,
                    y: clamp_i128(vy, 0, BUFFER_HEIGHT as i128) as i32,
                    r: b.r,
                    color: b.color,
                }
            } else {
                Ball {
                    x: clamp_i128(vx, -0x8000_0000, 0x7fff_ffff) as i32,
                    y: clamp_i128(vy, -0x8000_0000, 0x7fff_ffff) as i32,
                    r: b.r,
                    color: b.color,
                }
            };
            balls[id] = nb;
        },
        Action::MoveTo { id, x, y } => {
            let b = balls[id];
            let nb = if id == PLAYER_ID {
                Ball {
                    x: clamp_i128(x as i128, 0, BUFFER_WIDTH as i128) as i32,
                    y: clamp_i128(y as i128, 0, BUFFER_HEIGHT as i128) as i32,
                    r: b.r,
                    color: b.color,
                }
            } else {
                Ball { x, y, r: b.r, color: b.color }
            };
            balls[id] = nb;
        },
    }
    proof {
        if balls_wf(old(balls)@) {
            assert forall|k: int| 0 <= k < balls@.len() implies #[trigger] balls@[k].wf() by {
                assert(old(balls)@[k].wf());
                assert(balls@[k].r == old(balls)@[k].r);
            }
        }
    }
}

/// Background color of the scene.
pub open spec fn bg_color_spec() -> Pixel {
    Pixel { r: 0x11, g: 0x11, b: 0x1B }
}

/// Color of the player source.
pub open spec fn red_color_spec() -> Pixel {
    Pixel { r: 0xD2, g: 0x0F, b: 0x39 }
}

/// Color of the planet source.
pub open spec fn blue_color_spec() -> Pixel {
    Pixel { r: 0x1E, g: 0x66, b: 0xF5 }
}

/// Color of the sun source.
pub open spec fn yellow_color_spec() -> Pixel {
    Pixel { r: 0xDF, g: 0x8E, b: 0x1D }
}

/// Background color of the scene.
pub fn bg_color() -> (p: Pixel)
    ensures
        p == bg_color_spec(),
{
    proof {
        assert((0x11111Bu32 >> 16) & 0xFF == 0x11 && (0x11111Bu32 >> 8) & 0xFF == 0x11
            && 0x11111Bu32 & 0xFF == 0x1B) by (bit_vector);
    }
    Pixel::from_hex(0x11111B)
}

/// Color of the player source.
pub fn red_color() -> (p: Pixel)
    ensures
        p == red_color_spec(),
{
    proof {
        assert((0xD20F39u32 >> 16) & 0xFF == 0xD2 && (0xD20F39u32 >> 8) & 0xFF == 0x0F
            && 0xD20F39u32 & 0xFF == 0x39) by (bit_vector);
    }
    Pixel::from_hex(0xD20F39)
}

/// Color of the planet source.
pub fn blue_color() -> (p: Pixel)
    ensures
        p == blue_color_spec(),
{
    proof {
        assert((0x1E66F5u32 >> 16) & 0xFF == 0x1E && (0x1E66F5u32 >> 8) & 0xFF == 0x66
            && 0x1E66F5u32 & 0xFF == 0xF5) by (bit_vector);
    }
    Pixel::from_hex(0x1E66F5)
}

/// Color of the sun source.
pub fn yellow_color() -> (p: Pixel)
    ensures
        p == yellow_color_spec(),
{
    proof {
        assert((0xDF8E1Du32 >> 16) & 0xFF == 0xDF && (0xDF8E1Du32 >> 8) & 0xFF == 0x8E
            && 0xDF8E1Du32 & 0xFF == 0x1D) by (bit_vector);
    }
    Pixel::from_hex(0xDF8E1D)
}

/// The whole effect: the frame buffer, the three sources, and the orbit
/// state. The planet's position is never set by callers: whatever an action
/// batch did to it, the orbit step recomputes it from the sun, the radius and
/// the angle before the frame is drawn.
pub struct Metaballs {
    pub buf: Vec<Pixel>,
    pub balls: Vec<Ball>,
    pub planet_step: u32,
    pub orbit_r: i64,
}

impl Metaballs {
    /// Well-formedness: three positive-radius sources, a full-size buffer,
    /// and an orbit angle within one turn.
    pub open spec fn wf(self) -> bool {
        &&& self.balls@.len() == 3
        &&& balls_wf(self.balls@)
        &&& self.buf@.len() == BUFFER_WIDTH * BUFFER_HEIGHT
        &&& self.planet_step < STEPS_PER_TURN
        &&& self.orbit_r >= 0
    }

    /// Construct the canonical initial state: the player left of center, the
    /// sun at center, the planet on its orbit due right of the sun (angle
    /// zero), and the buffer filled with the background color.
    pub fn setup() -> (m: Metaballs)
        ensures
            m.wf(),
            m.balls@.len() == 3,
            m.balls@[PLAYER_ID as int] == (Ball { x: 240, y: 360, r: 5, color: red_color_spec() }),
            m.balls@[SUN_ID as int] == (Ball { x: 640, y: 360, r: 15, color: yellow_color_spec() }),
            m.balls@[PLANET_ID as int] == (Ball { x: 865, y: 360, r: 5, color: blue_color_spec() }),
            m.planet_step == 0,
            m.orbit_r == ORBIT_RADIUS,
            m.buf@.len() == BUFFER_WIDTH * BUFFER_HEIGHT,
            forall|i: int| 0 <= i < m.buf@.len() ==> #[trigger] m.buf@[i] == bg_color_spec(),
    {
        let bg = bg_color();
        let mut buf: Vec<Pixel> = Vec::new();
        let mut i: usize = 0;
        while i < BUFFER_WIDTH * BUFFER_HEIGHT
            invariant
                i <= BUFFER_WIDTH * BUFFER_HEIGHT,
                buf@.len() == i,
                bg == bg_color_spec(),
                forall|j: int| 0 <= j < i ==> #[trigger] buf@[j] == bg_color_spec(),
            decreases BUFFER_WIDTH * BUFFER_HEIGHT - i,
        {
            buf.push(bg);
            i = i + 1;
        }
        let mut balls: Vec<Ball> = Vec::new();
        balls.push(Ball { x: 640 - 400, y: 360, r: 5, color: red_color() });
        balls.push(Ball { x: 640, y: 360, r: 15, color: yellow_color() });
        balls.push(Ball { x: 640 + 225, y: 360, r: 5, color: blue_color() });
        Metaballs { buf, balls, planet_step: 0, orbit_r: ORBIT_RADIUS }
    }

    /// Decide well-formedness at run time, for callers outside the verified
    /// world that hold a `Metaballs` of unknown provenance.
    pub fn wf_check(&self) -> (ok: bool)
        ensures
            ok == self.wf(),
    {
        let ok = self.balls.len() == 3 && self.buf.len() == BUFFER_WIDTH * BUFFER_HEIGHT
            && self.planet_step < STEPS_PER_TURN && self.orbit_r >= 0 && self.balls[0].r >= 1
            && self.balls[1].r >= 1 && self.balls[2].r >= 1;
        proof {
            if ok {
                assert forall|i: int| 0 <= i < self.balls@.len() implies #[trigger] self.balls@[i].wf() by {
                    assert(i == 0 || i == 1 || i == 2);
                }
            }
            if self.wf() {
                assert(self.balls@[0].wf() && self.balls@[1].wf() && self.balls@[2].wf());
            }
        }
        ok
    }

    /// The frame buffer, row-major, `BUFFER_WIDTH * BUFFER_HEIGHT` pixels.
    pub fn buffer(&self) -> (buf: &Vec<Pixel>)
        ensures
            buf@ == self.buf@,
    {
        &self.buf
    }

    /// Current position of the player source.
    pub fn player_pos(&self) -> (p: (i32, i32))
        requires
            self.wf(),
        ensures
            p.0 == self.balls@[PLAYER_ID as int].x,
            p.1 == self.balls@[PLAYER_ID as int].y,
    {
        let b = self.balls[PLAYER_ID];
        (b.x, b.y)
    }

    /// Current position of any source, or `InvalidSourceId` for an index at
    /// or beyond the source count.
    pub fn source_pos(&self, id: usize) -> (res: Result<(i32, i32), UpdateError>)
        requires
            self.wf(),
        ensures
            id < 3 ==> res == Ok::<(i32, i32), UpdateError>(
                (self.balls@[id as int].x, self.balls@[id as int].y),
            ),
            id >= 3 ==> res == Err::<(i32, i32), UpdateError>(UpdateError::InvalidSourceId),
    {
        if id < 3 {
            let b = self.balls[id];
            Ok((b.x, b.y))
        } else {
            Err(UpdateError::InvalidSourceId)
        }
    }

    /// Apply an action batch to the sources. The batch is validated up
    /// front: on an out-of-range id nothing at all is applied and
    /// `InvalidSourceId` is reported; otherwise the actions are applied in
    /// sequence order. The orbit state and the buffer are untouched either
    /// way.
    pub fn apply_actions(&mut self, actions: &Vec<Action>, dt: i64) -> (res: Result<
        (),
        UpdateError,
    >)
        requires
            old(self).wf(),
        ensures
            final(self).wf(),
            final(self).planet_step == old(self).planet_step,
            final(self).orbit_r == old(self).orbit_r,
            final(self).buf@ == old(self).buf@,
            actions_valid_spec(actions@, 3) ==> res == Ok::<(), UpdateError>(())
                && final(self).balls@ == apply_actions_spec(old(self).balls@, actions@, dt as int),
            !actions_valid_spec(actions@, 3) ==> res == Err::<(), UpdateError>(
                UpdateError::InvalidSourceId,
            ) && final(self).balls@ == old(self).balls@,
    {
        let n = actions.len();
        let mut i: usize = 0;
        while i < n
            invariant
                i <= n,
                n == actions@.len(),
                self.wf(),
                self.balls@ == old(self).balls@,
                self.buf@ == old(self).buf@,
                self.planet_step == old(self).planet_step,
                self.orbit_r == old(self).orbit_r,
                forall|j: int| 0 <= j < i ==> #[trigger] action_id_spec(actions@[j]) < 3,
            decreases n - i,
        {
            let id = match actions[i] {
                Action::MoveBy { id, .. } => id,
                Action::MoveTo { id, .. } => id,
            };
            if id >= 3 {
                proof {
                    assert(action_id_spec(actions@[i as int]) >= 3);
                }
                return Err(UpdateError::InvalidSourceId);
            }
            i = i + 1;
        }
        let mut i: usize = 0;
        while i < n
            invariant
                i <= n,
                n == actions@.len(),
                actions_valid_spec(actions@, 3),
                self.balls@ == apply_actions_spec(old(self).balls@, actions@.take(i as int), dt as int),
                self.balls@.len() == 3,
                balls_wf(self.balls@),
                self.planet_step == old(self).planet_step,
                self.orbit_r == old(self).orbit_r,
                self.buf@ == old(self).buf@,
                self.planet_step < STEPS_PER_TURN,
                self.orbit_r >= 0,
                self.buf@.len() == BUFFER_WIDTH * BUFFER_HEIGHT,
            decreases n - i,
        {
            proof {
                assert(action_id_spec(actions@[i as int]) < 3);
                lemma_apply_take_step(old(self).balls@, actions@, i as int, dt as int);
            }
            let a = actions[i];
            apply_action(&mut self.balls, &a, dt);
            i = i + 1;
        }
        proof {
            assert(actions@.take(n as int) =~= actions@);
        }
        Ok(())
    }

    /// Advance the orbit by one angular step and put the planet on its new
    /// orbit position around the sun. The step is a fixed angle per call,
    /// deliberately independent of `dt`, matching the effect's original
    /// frame-rate-dependent motion.
    #[verifier::rlimit(50)]
    pub fn advance_orbit(&mut self)
        requires
            old(self).wf(),
        ensures
            final(self).wf(),
            final(self).planet_step as int == (old(self).planet_step as int + 1) % (
            STEPS_PER_TURN as int),
            final(self).balls@ == orbit_balls_spec(
                old(self).balls@,
                old(self).orbit_r as int,
                final(self).planet_step as int,
            ),
            final(self).orbit_r == old(self).orbit_r,
            final(self).buf@ == old(self).buf@,
    {
        self.planet_step = (self.planet_step + 1) % STEPS_PER_TURN;
        let sun = self.balls[SUN_ID];
        let planet = self.balls[PLANET_ID];
        let c = cos_steps(self.planet_step);
        let s = sin_steps(self.planet_step);
        proof {
            assert(-0x8_0000_0000_0000_0000_0000 <= (c as int) * (self.orbit_r as int)
                <= 0x8_0000_0000_0000_0000_0000 && -0x8_0000_0000_0000_0000_0000 <= (s as int) * (
            self.orbit_r as int) <= 0x8_0000_0000_0000_0000_0000) by (nonlinear_arith)
                requires
                    -1024 <= c <= 1024 && -1024 <= s <= 1024 && -0x8000_0000_0000_0000
                        <= self.orbit_r <= 0x7fff_ffff_ffff_ffff,
            ;
        }
        let ox = trunc_div_i128((c as i128) * (self.orbit_r as i128), 1024);
        let oy = trunc_div_i128((s as i128) * (self.orbit_r as i128), 1024);
        let nx = clamp_i128(sun.x as i128 + ox, -0x8000_0000, 0x7fff_ffff);
        let ny = clamp_i128(sun.y as i128 + oy, -0x8000_0000, 0x7fff_ffff);
        self.balls[PLANET_ID] = Ball {
            x: nx as i32,
            y: ny as i32,
            r: planet.r,
            color: planet.color,
        };
        proof {
            assert forall|k: int| 0 <= k < self.balls@.len() implies #[trigger] self.balls@[k].wf() by {
                assert(old(self).balls@[k].wf());
                assert(self.balls@[k].r == old(self).balls@[k].r);
            }
        }
    }

    /// Recompute the whole frame from the current sources.
    pub fn draw(&mut self)
        requires
            old(self).wf(),
        ensures
            final(self).wf(),
            final(self).balls@ == old(self).balls@,
            final(self).planet_step == old(self).planet_step,
            final(self).orbit_r == old(self).orbit_r,
            final(self).buf@ == render_spec(
                old(self).balls@,
                BUFFER_WIDTH as int,
                BUFFER_HEIGHT as int,
                bg_color_spec(),
            ),
    {
        let bg = bg_color();
        render(&self.balls, BUFFER_WIDTH, BUFFER_HEIGHT, bg, &mut self.buf);
    }

    /// One frame: apply the action batch, advance the orbit, redraw. On an
    /// out-of-range source id nothing happens at all — no action applies,
    /// the orbit stays, the buffer keeps the previous frame — and
    /// `InvalidSourceId` is reported.
    pub fn update(&mut self, actions: &Vec<Action>, dt: i64) -> (res: Result<(), UpdateError>)
        requires
            old(self).wf(),
        ensures
            final(self).wf(),
            !actions_valid_spec(actions@, 3) ==> res == Err::<(), UpdateError>(
                UpdateError::InvalidSourceId,
            ) && final(self).balls@ == old(self).balls@ && final(self).buf@ == old(self).buf@
                && final(self).planet_step == old(self).planet_step && final(self).orbit_r
                == old(self).orbit_r,
            actions_valid_spec(actions@, 3) ==> res == Ok::<(), UpdateError>(()) && (({
                let moved = apply_actions_spec(old(self).balls@, actions@, dt as int);
                let step = (old(self).planet_step as int + 1) % (STEPS_PER_TURN as int);
                &&& final(self).planet_step == step
                &&& final(self).orbit_r == old(self).orbit_r
                &&& final(self).balls@ == orbit_balls_spec(moved, old(self).orbit_r as int, step)
                &&& final(self).buf@ == render_spec(
                    final(self).balls@,
                    BUFFER_WIDTH as int,
                    BUFFER_HEIGHT as int,
                    bg_color_spec(),
                )
            })),
    {
        match self.apply_actions(actions, dt) {
            Err(e) => Err(e),
            Ok(()) => {
                self.advance_orbit();
                self.draw();
                Ok(())
            },
        }
    }
}

/// Extending an action batch by one applies that action after the rest.
pub proof fn lemma_apply_take_step(balls: Seq<Ball>, actions: Seq<Action>, i: int, dt: int)
    requires
        0 <= i < actions.len(),
    ensures
        apply_actions_spec(balls, actions.take(i + 1), dt) == apply_action_spec(
            apply_actions_spec(balls, actions.take(i), dt),
            actions[i],
            dt,
        ),
{
    let s = actions.take(i + 1);
    assert(s.drop_last() =~= actions.take(i));
    assert(s.last() == actions[i]);
}

} // verus!
