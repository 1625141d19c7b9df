//! Fixed-point trigonometry for the orbit: cosine and sine of an angle given
//! as a whole number of steps of two degrees, scaled by `TRIG_SCALE`.
//!
//! A full circle is `STEPS_PER_TURN` steps, so the orbit's angular step of two
//! degrees per frame is exactly one step, and an angle is always one of a
//! finite set of values: the table below holds the first quadrant, the rest
//! follows by symmetry.

use vstd::prelude::*;

verus! {

/// Fixed-point scale of the cosine table: `TRIG_SCALE` stands for `1.0`.
pub const TRIG_SCALE: i64 = 1024;

/// Steps of two degrees in a full turn.
pub const STEPS_PER_TURN: u32 = 180;

/// `round(TRIG_SCALE * cos(k * 2 degrees))` for `k` in `[0, 45]`, the first
/// quadrant of the circle; `0` outside that range.
pub open spec fn quarter_cos_spec(k: int) -> int {
    if k == 0 {
        1024
    } else if k == 1 {
        1023
    } else if k == 2 {
        1022
    } else if k == 3 {
        1018
    } else if k == 4 {
        1014
    } else if k == 5 {
        1008
    } else if k == 6 {
        1002
    } else if k == 7 {
        994
    } else if k == 8 {
        984
    } else if k == 9 {
        974
    } else if k == 10 {
        962
    } else if k == 11 {
        949
    } else if k == 12 {
        935
    } else if k == 13 {
        920
    } else if k == 14 {
        904
    } else if k == 15 {
        887
    } else if k == 16 {
        868
    } else if k == 17 {
        849
    } else if k == 18 {
        828
    } else if k == 19 {
        807
    } else if k == 20 {
        784
    } else if k == 21 {
        761
    } else if k == 22 {
        737
    } else if k == 23 {
        711
    } else if k == 24 {
        685
    } else if k == 25 {
        658
    } else if k == 26 {
        630
    } else if k == 27 {
        602
    } else if k == 28 {
        573
    } else if k == 29 {
        543
    } else if k == 30 {
        512
    } else if k == 31 {
        481
    } else if k == 32 {
        449
    } else if k == 33 {
        416
    } else if k == 34 {
        384
    } else if k == 35 {
        350
    } else if k == 36 {
        316
    } else if k == 37 {
        282
    } else if k == 38 {
        248
    } else if k == 39 {
        213
    } else if k == 40 {
        178
    } else if k == 41 {
        143
    } else if k == 42 {
        107
    } else if k == 43 {
        71
    } else if k == 44 {
        36
    } else {
        0
    }
}

/// Scaled cosine of `s` steps of two degrees, for `s` in `[0, STEPS_PER_TURN)`,
/// by quadrant symmetry from the first-quadrant table.
pub open spec fn cos_steps_spec(s: int) -> int {
    if s <= 45 {
        quarter_cos_spec(s)
    } else if s <= 90 {
        -quarter_cos_spec(90 - s)
    } else if s <= 135 {
        -quarter_cos_spec(s - 90)
    } else {
        quarter_cos_spec(180 - s)
    }
}

/// Scaled sine of `s` steps of two degrees: the cosine a quarter turn behind.
pub open spec fn sin_steps_spec(s: int) -> int {
    cos_steps_spec((s + 135) % 180)
}

/// The scaled cosine never exceeds `TRIG_SCALE` in magnitude.
pub proof fn lemma_cos_bounded(s: int)
    ensures
        -1024 <= cos_steps_spec(s) <= 1024,
        -1024 <= quarter_cos_spec(s) <= 1024,
{
}

fn quarter_cos(k: u32) -> (c: i64)
    requires
        k <= 45,
    ensures
        c == quarter_cos_spec(k as int),
        0 <= c <= 1024,
{
    if k == 0 {
        1024
    } else if k == 1 {
        1023
    } else if k == 2 {
        1022
    } else if k == 3 {
        1018
    } else if k == 4 {
        1014
    } else if k == 5 {
        1008
    } else if k == 6 {
        1002
    } else if k == 7 {
        994
    } else if k == 8 {
        984
    } else if k == 9 {
        974
    } else if k == 10 {
        962
    } else if k == 11 {
        949
    } else if k == 12 {
        935
    } else if k == 13 {
        920
    } else if k == 14 {
        904
    } else if k == 15 {
        887
    } else if k == 16 {
        868
    } else if k == 17 {
        849
    } else if k == 18 {
        828
    } else if k == 19 {
        807
    } else if k == 20 {
        784
    } else if k == 21 {
        761
    } else if k == 22 {
        737
    } else if k == 23 {
        711
    } else if k == 24 {
        685
    } else if k == 25 {
        658
    } else if k == 26 {
        630
    } else if k == 27 {
        602
    } else if k == 28 {
        573
    } else if k == 29 {
        543
    } else if k == 30 {
        512
    } else if k == 31 {
        481
    } else if k == 32 {
        449
    } else if k == 33 {
        416
    } else if k == 34 {
        384
    } else if k == 35 {
        350
    } else if k == 36 {
        316
    } else if k == 37 {
        282
    } else if k == 38 {
        248
    } else if k == 39 {
        213
    } else if k == 40 {
        178
    } else if k == 41 {
        143
    } else if k == 42 {
        107
    } else if k == 43 {
        71
    } else if k == 44 {
        36
    } else {
        0
    }
}

/// Scaled cosine of `s` steps of two degrees.
pub fn cos_steps(s: u32) -> (c: i64)
    requires
        s < STEPS_PER_TURN,
    ensures
        c == cos_steps_spec(s as int),
        -1024 <= c <= 1024,
{
    if s <= 45 {
        quarter_cos(s)
    } else if s <= 90 {
        -quarter_cos(90 - s)
    } else if s <= 135 {
        -quarter_cos(s - 90)
    } else {
        quarter_cos(180 - s)
    }
}

/// Scaled sine of `s` steps of two degrees.
pub fn sin_steps(s: u32) -> (c: i64)
    requires
        s < STEPS_PER_TURN,
    ensures
        c == sin_steps_spec(s as int),
        -1024 <= c <= 1024,
{
    cos_steps((s + 135) % 180)
}

} // verus!
