//! The library's laws: properties that relate several operations, stated
//! over the same spec functions the operations' own contracts use.

use vstd::prelude::*;

verus! {

use crate::engine::{
    action_id_spec,
    apply_action_spec,
    apply_actions_spec,
    clamp_spec,
    scaled_delta_spec,
    orbit_x_spec,
    orbit_y_spec,
    trunc_div_spec,
    Action,
    BUFFER_HEIGHT,
    BUFFER_WIDTH,
    PLAYER_ID,
};
use crate::trig::STEPS_PER_TURN;
use crate::field::{
    balls_wf,
    pixel_at_spec,
    render_spec,
    total_field_spec,
    weight_num_spec,
    Ball,
    FIELD_SCALE,
    THRESHOLD,
};
use crate::geom::{dist2_spec, isqrt_spec, lemma_isqrt_bounds, sq};
use crate::pixel::Pixel;
use vstd::arithmetic::div_mod::{
    lemma_div_is_ordered_by_denominator,
    lemma_div_pos_is_pos,
    lemma_fundamental_div_mod,
    lemma_fundamental_div_mod_converse_div,
    lemma_fundamental_div_mod_converse_mod,
    lemma_mod_pos_bound,
};

/// Setting a source's position and then reading it gives back exactly the
/// position that was set — clamped to the drawable area for the player
/// source, unchanged for any other.
pub proof fn lemma_move_to_then_read(balls: Seq<Ball>, id: usize, x: i32, y: i32, dt: int)
    requires
        (id as int) < balls.len(),
    ensures
        ({
            let b = apply_action_spec(balls, Action::MoveTo { id, x, y }, dt)[id as int];
            &&& id == PLAYER_ID ==> b.x == clamp_spec(x as int, 0, BUFFER_WIDTH as int) && b.y
                == clamp_spec(y as int, 0, BUFFER_HEIGHT as int)
            &&& id != PLAYER_ID ==> b.x == x && b.y == y
        }),
{
}

/// A quotient of an exact multiple, truncated towards zero, recovers the
/// multiple when scaled back up.
proof fn lemma_trunc_div_exact(a: int, d: int)
    requires
        d > 0,
        a % d == 0,
    ensures
        trunc_div_spec(a, d) * d == a,
{
    if a >= 0 {
        lemma_fundamental_div_mod(a, d);
    } else {
        lemma_fundamental_div_mod(a, d);
        let q = a / d;
        assert(a == q * d);
        assert(-a == (-q) * d + 0) by (nonlinear_arith)
            requires
                a == q * d,
        ;
        lemma_fundamental_div_mod_converse_mod(-a, d, -q, 0);
        lemma_fundamental_div_mod(-a, d);
        let p = (-a) / d;
        assert(-a == p * d);
        assert((-p) * d == a) by (nonlinear_arith)
            requires
                -a == p * d,
        ;
    }
}

/// Two `MoveBy` steps add up: as long as the scaled deltas are exact (no
/// truncation loss) and no position on the way is clamped, moving the player
/// by `d1` and then by `d2` ends where one move by `d1 + d2` ends.
pub proof fn lemma_move_by_additive(
    balls: Seq<Ball>,
    x1: i32,
    y1: i32,
    x2: i32,
    y2: i32,
    dt: int,
)
    requires
        (PLAYER_ID as int) < balls.len(),
        (x1 as int) * dt % 1000 == 0,
        (y1 as int) * dt % 1000 == 0,
        (x2 as int) * dt % 1000 == 0,
        (y2 as int) * dt % 1000 == 0,
        -0x8000_0000 <= x1 + x2 <= 0x7fff_ffff,
        -0x8000_0000 <= y1 + y2 <= 0x7fff_ffff,
        ({
            let b = balls[PLAYER_ID as int];
            let sx1 = scaled_delta_spec(x1 as int, dt);
            let sy1 = scaled_delta_spec(y1 as int, dt);
            let sx2 = scaled_delta_spec(x2 as int, dt);
            let sy2 = scaled_delta_spec(y2 as int, dt);
            &&& 0 <= b.x + sx1 <= BUFFER_WIDTH as int
            &&& 0 <= b.y + sy1 <= BUFFER_HEIGHT as int
            &&& 0 <= b.x + sx1 + sx2 <= BUFFER_WIDTH as int
            &&& 0 <= b.y + sy1 + sy2 <= BUFFER_HEIGHT as int
        }),
    ensures
        apply_action_spec(
            apply_action_spec(balls, Action::MoveBy { id: PLAYER_ID, x: x1, y: y1 }, dt),
            Action::MoveBy { id: PLAYER_ID, x: x2, y: y2 },
            dt,
        ) == apply_action_spec(
            balls,
            Action::MoveBy { id: PLAYER_ID, x: (x1 + x2) as i32, y: (y1 + y2) as i32 },
            dt,
        ),
{
    let b = balls[PLAYER_ID as int];
    let sx1 = scaled_delta_spec(x1 as int, dt);
    let sy1 = scaled_delta_spec(y1 as int, dt);
    let sx2 = scaled_delta_spec(x2 as int, dt);
    let sy2 = scaled_delta_spec(y2 as int, dt);
    lemma_scaled_delta_adds(x1 as int, x2 as int, dt);
    lemma_scaled_delta_adds(y1 as int, y2 as int, dt);
    let once = apply_action_spec(
        balls,
        Action::MoveBy { id: PLAYER_ID, x: (x1 + x2) as i32, y: (y1 + y2) as i32 },
        dt,
    );
    let twice = apply_action_spec(
        apply_action_spec(balls, Action::MoveBy { id: PLAYER_ID, x: x1, y: y1 }, dt),
        Action::MoveBy { id: PLAYER_ID, x: x2, y: y2 },
        dt,
    );
    assert(twice =~= once);
}

/// With exact scaled deltas, the scaled sum is the sum of the scaled parts.
proof fn lemma_scaled_delta_adds(a: int, b: int, dt: int)
    requires
        a * dt % 1000 == 0,
        b * dt % 1000 == 0,
    ensures
        scaled_delta_spec(a + b, dt) == scaled_delta_spec(a, dt) + scaled_delta_spec(b, dt),
        (a + b) * dt % 1000 == 0,
{
    lemma_trunc_div_exact(a * dt, 1000);
    lemma_trunc_div_exact(b * dt, 1000);
    let sa = trunc_div_spec(a * dt, 1000);
    let sb = trunc_div_spec(b * dt, 1000);
    assert((a + b) * dt == a * dt + b * dt) by (nonlinear_arith);
    assert((a + b) * dt == (sa + sb) * 1000) by (nonlinear_arith)
        requires
            sa * 1000 == a * dt && sb * 1000 == b * dt && (a + b) * dt == a * dt + b * dt,
    ;
    lemma_fundamental_div_mod_converse_mod((a + b) * dt, 1000, sa + sb, 0);
    lemma_trunc_div_exact((a + b) * dt, 1000);
    let s = trunc_div_spec((a + b) * dt, 1000);
    assert(s == sa + sb) by (nonlinear_arith)
        requires
            s * 1000 == (sa + sb) * 1000,
    ;
}

/// An empty action batch leaves the sources exactly as they were — so a
/// redraw after an empty batch reproduces the previous frame bit for bit.
pub proof fn lemma_empty_batch_redraw_unchanged(
    balls: Seq<Ball>,
    dt: int,
    w: int,
    h: int,
    bg: Pixel,
    buf: Seq<Pixel>,
)
    requires
        buf == render_spec(balls, w, h, bg),
    ensures
        apply_actions_spec(balls, Seq::<Action>::empty(), dt) == balls,
        render_spec(apply_actions_spec(balls, Seq::<Action>::empty(), dt), w, h, bg) == buf,
{
}

/// One far source's scaled contribution, multiplied by the source count,
/// stays under the threshold.
proof fn lemma_far_field_small(b: Ball, n: int, x: int, y: int)
    requires
        b.wf(),
        n >= 1,
        b.dist_to_spec(x, y) > 5 * n * (b.r as int),
    ensures
        n * b.field_spec(x, y) <= 199,
        b.field_spec(x, y) >= 0,
{
    let r = b.r as int;
    let d = b.dist_to_spec(x, y);
    let f = b.field_spec(x, y);
    lemma_fundamental_div_mod(r * 1000, d);
    lemma_mod_pos_bound(r * 1000, d);
    lemma_div_pos_is_pos(r * 1000, d);
    assert(f * d <= r * 1000) by (nonlinear_arith)
        requires
            r * 1000 == d * f + (r * 1000) % d && (r * 1000) % d >= 0,
    ;
    assert(n * f <= 199) by (nonlinear_arith)
        requires
            f >= 0 && r >= 1 && n >= 1 && d >= 5 * n * r + 1 && f * d <= r * 1000,
    ;
}

/// The summed field, multiplied by `n`, is bounded when every single
/// contribution times `n` is.
proof fn lemma_total_field_mul_bound(balls: Seq<Ball>, n: int, x: int, y: int)
    requires
        forall|i: int| 0 <= i < balls.len() ==> n * #[trigger] balls[i].field_spec(x, y) <= 199
            && balls[i].field_spec(x, y) >= 0,
    ensures
        n * total_field_spec(balls, x, y) <= 199 * balls.len(),
        total_field_spec(balls, x, y) >= 0,
    decreases balls.len(),
{
    if balls.len() > 0 {
        let s = balls.drop_last();
        assert(forall|i: int| 0 <= i < s.len() ==> n * #[trigger] s[i].field_spec(x, y) <= 199
            && s[i].field_spec(x, y) >= 0);
        lemma_total_field_mul_bound(s, n, x, y);
        let last = balls.last();
        assert(n * balls[balls.len() - 1].field_spec(x, y) <= 199);
        assert(n * total_field_spec(balls, x, y) == n * total_field_spec(s, x, y) + n
            * last.field_spec(x, y)) by (nonlinear_arith)
            requires
                total_field_spec(balls, x, y) == total_field_spec(s, x, y) + last.field_spec(x, y),
        ;
    }
}

/// A pixel far from every source shows the exact background color: when each
/// source is more than `source count * radius / threshold` pixels away, the
/// summed field stays under the threshold.
pub proof fn lemma_far_pixel_is_background(balls: Seq<Ball>, bg: Pixel, x: int, y: int)
    requires
        balls_wf(balls),
        forall|i: int| 0 <= i < balls.len() ==> #[trigger] balls[i].dist_to_spec(x, y) > 5
            * balls.len() * (balls[i].r as int),
    ensures
        pixel_at_spec(balls, bg, x, y) == bg,
        total_field_spec(balls, x, y) < THRESHOLD,
{
    let n = balls.len() as int;
    if n == 0 {
        assert(total_field_spec(balls, x, y) == 0);
    } else {
        assert forall|i: int| 0 <= i < balls.len() implies n * #[trigger] balls[i].field_spec(
            x,
            y,
        ) <= 199 && balls[i].field_spec(x, y) >= 0 by {
            assert(balls[i].wf());
            lemma_far_field_small(balls[i], n, x, y);
        }
        lemma_total_field_mul_bound(balls, n, x, y);
        let tot = total_field_spec(balls, x, y);
        assert(tot <= 199) by (nonlinear_arith)
            requires
                n >= 1 && n * tot <= 199 * n,
        ;
    }
}

/// Under the distance-complement law a nearer source always gets the
/// strictly greater blend weight.
pub proof fn lemma_nearer_source_weighs_more(balls: Seq<Ball>, i: int, j: int, x: int, y: int)
    requires
        balls.len() >= 3,
        0 <= i < balls.len(),
        0 <= j < balls.len(),
        balls[i].dist_to_spec(x, y) < balls[j].dist_to_spec(x, y),
    ensures
        weight_num_spec(balls, i, x, y) > weight_num_spec(balls, j, x, y),
{
}

/// At its own pixel a source dominates: its blend weight is strictly greater
/// than that of any source outside the minimum-distance neighborhood (squared
/// distance at least four, so its clamped distance exceeds one).
pub proof fn lemma_own_location_dominates(balls: Seq<Ball>, i: int, j: int, x: int, y: int)
    requires
        balls.len() >= 3,
        0 <= i < balls.len(),
        0 <= j < balls.len(),
        balls[i].x == x,
        balls[i].y == y,
        dist2_spec(balls[j].x as int, balls[j].y as int, x, y) >= 4,
    ensures
        weight_num_spec(balls, i, x, y) > weight_num_spec(balls, j, x, y),
{
    let bi = balls[i];
    let bj = balls[j];
    assert(sq(x - bi.x as int) == 0 && sq(y - bi.y as int) == 0) by (nonlinear_arith)
        requires
            bi.x == x && bi.y == y,
    ;
    assert(isqrt_spec(0) == 0);
    assert(bi.dist_to_spec(x, y) == 1);
    let m = dist2_spec(bj.x as int, bj.y as int, x, y) as nat;
    lemma_isqrt_bounds(m);
    let rt = isqrt_spec(m);
    if rt <= 1 {
        assert(sq(rt as int + 1) <= 4) by (nonlinear_arith)
            requires
                0 <= rt <= 1,
        ;
    }
    assert(bj.dist_to_spec(x, y) >= 2);
    lemma_nearer_source_weighs_more(balls, i, j, x, y);
}

/// Under the two-source ratio law a source also dominates at its own pixel:
/// with the other source outside the minimum-distance neighborhood and of no
/// larger radius, the source's own weight is strictly greater.
pub proof fn lemma_own_location_dominates_pair(balls: Seq<Ball>, i: int, j: int, x: int, y: int)
    requires
        balls.len() == 2,
        0 <= i < 2,
        0 <= j < 2,
        balls[i].wf(),
        balls[j].wf(),
        balls[i].x == x,
        balls[i].y == y,
        balls[j].r <= balls[i].r,
        dist2_spec(balls[j].x as int, balls[j].y as int, x, y) >= 4,
    ensures
        weight_num_spec(balls, i, x, y) > weight_num_spec(balls, j, x, y),
{
    let bi = balls[i];
    let bj = balls[j];
    let ri = bi.r as int;
    let rj = bj.r as int;
    assert(sq(x - bi.x as int) == 0 && sq(y - bi.y as int) == 0) by (nonlinear_arith)
        requires
            bi.x == x && bi.y == y,
    ;
    assert(isqrt_spec(0) == 0);
    assert(bi.dist_to_spec(x, y) == 1);
    let m = dist2_spec(bj.x as int, bj.y as int, x, y) as nat;
    lemma_isqrt_bounds(m);
    let rt = isqrt_spec(m);
    if rt <= 1 {
        assert(sq(rt as int + 1) <= 4) by (nonlinear_arith)
            requires
                0 <= rt <= 1,
        ;
    }
    let dj = bj.dist_to_spec(x, y);
    assert(dj >= 2);
    lemma_fundamental_div_mod(ri * 1000, 1);
    assert(bi.field_spec(x, y) == ri * 1000);
    lemma_div_is_ordered_by_denominator(rj * 1000, 2, dj);
    lemma_fundamental_div_mod_converse_div(rj * 1000, 2, rj * 500, 0);
    assert(rj * 1000 == (rj * 500) * 2 + 0) by (nonlinear_arith);
    assert(rj * 500 < ri * 1000) by (nonlinear_arith)
        requires
            1 <= rj <= ri,
    ;
}

/// The orbit angle iterated `n` single steps ahead.
pub open spec fn step_iter_spec(s: int, n: nat) -> int
    decreases n,
{
    if n == 0 {
        s
    } else {
        (step_iter_spec(s, (n - 1) as nat) + 1) % (STEPS_PER_TURN as int)
    }
}

/// Iterating single steps is addition modulo a full turn.
pub proof fn lemma_step_iter_adds(s: int, n: nat)
    requires
        0 <= s < STEPS_PER_TURN,
    ensures
        step_iter_spec(s, n) == (s + n) % (STEPS_PER_TURN as int),
    decreases n,
{
    let turn = STEPS_PER_TURN as int;
    if n == 0 {
        lemma_fundamental_div_mod_converse_mod(s, turn, 0, s);
    } else {
        lemma_step_iter_adds(s, (n - 1) as nat);
        let prev = (s + n - 1) % turn;
        lemma_fundamental_div_mod(s + n - 1, turn);
        lemma_mod_pos_bound(s + n - 1, turn);
        let k = (s + n - 1) / turn;
        if prev + 1 < turn {
            lemma_fundamental_div_mod_converse_mod(s + n, turn, k, prev + 1);
        } else {
            lemma_fundamental_div_mod_converse_mod(s + n, turn, k + 1, 0);
        }
        lemma_fundamental_div_mod_converse_mod(prev + 1, turn, if prev + 1 < turn {
            0
        } else {
            1
        }, (prev + 1) % turn);
    }
}

/// A full turn of single orbit steps returns the angle, and with it the
/// planet's orbit position, exactly to where it started.
pub proof fn lemma_orbit_full_turn(s: int, sun_x: int, sun_y: int, r: int)
    requires
        0 <= s < STEPS_PER_TURN,
    ensures
        step_iter_spec(s, STEPS_PER_TURN as nat) == s,
        orbit_x_spec(sun_x, r, step_iter_spec(s, STEPS_PER_TURN as nat)) == orbit_x_spec(
            sun_x,
            r,
            s,
        ),
        orbit_y_spec(sun_y, r, step_iter_spec(s, STEPS_PER_TURN as nat)) == orbit_y_spec(
            sun_y,
            r,
            s,
        ),
{
    let turn = STEPS_PER_TURN as int;
    lemma_step_iter_adds(s, STEPS_PER_TURN as nat);
    lemma_fundamental_div_mod_converse_mod(s + turn, turn, 1, s);
}

} // verus!
