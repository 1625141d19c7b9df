//! The scalar field and the renderer: per-pixel field evaluation,
//! thresholding, and color compositing over an arbitrary set of sources.
//!
//! Every pixel is handled independently. Each source contributes
//! `radius * FIELD_SCALE / distance` to the field at a pixel; where the total
//! stays under `THRESHOLD` the pixel shows the background color, elsewhere the
//! sources' colors are blended. Two weighting laws are used, chosen by the
//! number of sources:
//! - with at most two sources, a source's weight is its own field
//!   contribution over the total (so a lone source paints its exact color);
//! - with three or more, a source's weight is the complement of its distance
//!   over the summed distances, the raw law of the three-source renderer. The
//!   weights then sum to more than one, and channels that overshoot are
//!   saturated at 255.

use vstd::prelude::*;

verus! {

use crate::geom::{dist_spec, dst_from};
use crate::pixel::Pixel;
use vstd::arithmetic::div_mod::{
    lemma_div_nonincreasing,
    lemma_div_pos_is_pos,
    lemma_fundamental_div_mod_converse,
};

/// Fixed-point scale of field values: a field value of `FIELD_SCALE` stands
/// for `1.0`.
pub const FIELD_SCALE: u64 = 1000;

/// Visibility threshold, in scaled field units: `0.2 * FIELD_SCALE`.
pub const THRESHOLD: u64 = 200;

/// Headroom bound on the source count, far above the two or three sources the
/// effect uses, so that every per-pixel sum fits comfortably in its machine
/// integer.
pub const MAX_SOURCES: usize = 4096;

/// A field source: a point with a color and a positive radius, the radius
/// acting as field strength rather than as a drawn size.
#[derive(Clone, Copy, PartialEq, Eq, Structural, Debug)]
pub struct Ball {
    pub x: i32,
    pub y: i32,
    pub r: i32,
    pub color: Pixel,
}

impl Ball {
    /// A source is well-formed when its radius is positive.
    pub open spec fn wf(self) -> bool {
        self.r >= 1
    }

    /// Clamped integer distance from this source to the pixel `(x, y)`.
    pub open spec fn dist_to_spec(self, x: int, y: int) -> int {
        dist_spec(self.x as int, self.y as int, x, y)
    }

    /// Scaled field contribution of this source at the pixel `(x, y)`.
    pub open spec fn field_spec(self, x: int, y: int) -> int {
        (self.r as int) * (FIELD_SCALE as int) / self.dist_to_spec(x, y)
    }

    /// Distance from this source to the pixel `(x, y)`.
    pub fn dst_from(&self, x: i32, y: i32) -> (d: u64)
        ensures
            d == self.dist_to_spec(x as int, y as int),
            1 <= d < 0x2_0000_0000,
    {
        dst_from(self.x, self.y, x, y)
    }

    /// Scaled field contribution of this source at the pixel `(x, y)`.
    pub fn field_at(&self, x: i32, y: i32) -> (f: u64)
        requires
            self.wf(),
        ensures
            f == self.field_spec(x as int, y as int),
            0 <= f < 0x200_0000_0000,
    {
        let d = self.dst_from(x, y);
        let f = (self.r as u64 * FIELD_SCALE) / d;
        proof {
            lemma_div_nonincreasing((self.r as int) * (FIELD_SCALE as int), d as int);
            lemma_div_pos_is_pos((self.r as int) * (FIELD_SCALE as int), d as int);
        }
        f
    }
}

/// The summed field of all sources at the pixel `(x, y)`.
pub open spec fn total_field_spec(balls: Seq<Ball>, x: int, y: int) -> int
    decreases balls.len(),
{
    if balls.len() == 0 {
        0
    } else {
        total_field_spec(balls.drop_last(), x, y) + balls.last().field_spec(x, y)
    }
}

/// The summed distances of all sources to the pixel `(x, y)`.
pub open spec fn total_dist_spec(balls: Seq<Ball>, x: int, y: int) -> int
    decreases balls.len(),
{
    if balls.len() == 0 {
        0
    } else {
        total_dist_spec(balls.drop_last(), x, y) + balls.last().dist_to_spec(x, y)
    }
}

/// Summed distances are at least the source count: each distance is at least
/// one.
pub proof fn lemma_total_dist_ge_len(balls: Seq<Ball>, x: int, y: int)
    ensures
        total_dist_spec(balls, x, y) >= balls.len(),
    decreases balls.len(),
{
    if balls.len() > 0 {
        lemma_total_dist_ge_len(balls.drop_last(), x, y);
    }
}

/// Extending a prefix of the sources by one adds that source's contribution
/// to both running sums.
pub proof fn lemma_totals_take_step(balls: Seq<Ball>, i: int, x: int, y: int)
    requires
        0 <= i < balls.len(),
    ensures
        total_field_spec(balls.take(i + 1), x, y) == total_field_spec(balls.take(i), x, y)
            + balls[i].field_spec(x, y),
        total_dist_spec(balls.take(i + 1), x, y) == total_dist_spec(balls.take(i), x, y)
            + balls[i].dist_to_spec(x, y),
{
    let s = balls.take(i + 1);
    assert(s.len() == i + 1);
    assert(s.drop_last() =~= balls.take(i));
    assert(s.last() == balls[i]);
    assert(total_field_spec(s, x, y) == total_field_spec(s.drop_last(), x, y)
        + s.last().field_spec(x, y));
    assert(total_dist_spec(s, x, y) == total_dist_spec(s.drop_last(), x, y)
        + s.last().dist_to_spec(x, y));
}

/// No single distance exceeds the summed distances.
pub proof fn lemma_dist_le_total(balls: Seq<Ball>, i: int, x: int, y: int)
    requires
        0 <= i < balls.len(),
    ensures
        balls[i].dist_to_spec(x, y) <= total_dist_spec(balls, x, y),
    decreases balls.len(),
{
    lemma_total_dist_ge_len(balls.drop_last(), x, y);
    if i < balls.len() - 1 {
        lemma_dist_le_total(balls.drop_last(), i, x, y);
    }
}

/// The blend weight of source `i` at `(x, y)`, as the numerator over the
/// common denominator `weight_den_spec`.
pub open spec fn weight_num_spec(balls: Seq<Ball>, i: int, x: int, y: int) -> int {
    if balls.len() <= 2 {
        balls[i].field_spec(x, y)
    } else {
        total_dist_spec(balls, x, y) - balls[i].dist_to_spec(x, y)
    }
}

/// The common denominator of the blend weights at `(x, y)`.
pub open spec fn weight_den_spec(balls: Seq<Ball>, x: int, y: int) -> int {
    if balls.len() <= 2 {
        total_field_spec(balls, x, y)
    } else {
        total_dist_spec(balls, x, y)
    }
}

/// Channel `c` of a color: red for `0`, green for `1`, blue otherwise.
pub open spec fn channel_spec(p: Pixel, c: int) -> int {
    if c == 0 {
        p.r as int
    } else if c == 1 {
        p.g as int
    } else {
        p.b as int
    }
}

/// The weighted channel sum over the first `k` sources, still carrying the
/// common denominator.
pub open spec fn channel_sum_spec(balls: Seq<Ball>, k: int, x: int, y: int, c: int) -> int
    decreases k,
{
    if k <= 0 {
        0
    } else {
        channel_sum_spec(balls, k - 1, x, y, c) + weight_num_spec(balls, k - 1, x, y)
            * channel_spec(balls[k - 1].color, c)
    }
}

/// Channel `c` of the blended color: the weighted sum divided by the common
/// denominator, saturated into `[0, 255]`.
pub open spec fn blended_channel_spec(balls: Seq<Ball>, x: int, y: int, c: int) -> int {
    let q = channel_sum_spec(balls, balls.len() as int, x, y, c) / weight_den_spec(balls, x, y);
    if q < 0 {
        0
    } else if q > 255 {
        255
    } else {
        q
    }
}

/// The blended color at a visible pixel.
pub open spec fn blended_pixel_spec(balls: Seq<Ball>, x: int, y: int) -> Pixel {
    Pixel {
        r: blended_channel_spec(balls, x, y, 0) as u8,
        g: blended_channel_spec(balls, x, y, 1) as u8,
        b: blended_channel_spec(balls, x, y, 2) as u8,
    }
}

/// The color of the pixel `(x, y)`: the background where the total field
/// stays under the threshold, the blended color elsewhere.
pub open spec fn pixel_at_spec(balls: Seq<Ball>, bg: Pixel, x: int, y: int) -> Pixel {
    if total_field_spec(balls, x, y) >= THRESHOLD {
        blended_pixel_spec(balls, x, y)
    } else {
        bg
    }
}

/// The whole frame, row-major: entry `i` is the color of the pixel
/// `(i % w, i / w)`.
pub open spec fn render_spec(balls: Seq<Ball>, w: int, h: int, bg: Pixel) -> Seq<Pixel> {
    Seq::new((w * h) as nat, |i: int| pixel_at_spec(balls, bg, i % w, i / w))
}

/// All sources in a sequence are well-formed.
pub open spec fn balls_wf(balls: Seq<Ball>) -> bool {
    forall|i: int| 0 <= i < balls.len() ==> #[trigger] balls[i].wf()
}

/// Saturate a weighted-sum quotient into a channel.
fn saturate_channel(q: u128) -> (c: u8)
    ensures
        q <= 255 ==> c == q,
        q > 255 ==> c == 255,
{
    if q > 255 {
        255
    } else {
        q as u8
    }
}

/// The color of the pixel `(x, y)` under the current sources: evaluates the
/// field, thresholds it, and blends the sources' colors.
pub fn pixel_color(balls: &Vec<Ball>, bg: Pixel, x: i32, y: i32) -> (p: Pixel)
    requires
        balls_wf(balls@),
        balls@.len() <= MAX_SOURCES,
    ensures
        p == pixel_at_spec(balls@, bg, x as int, y as int),
{
    let n = balls.len();
    let mut tot_f: u64 = 0;
    let mut tot_d: u64 = 0;
    let mut i: usize = 0;
    while i < n
        invariant
            i <= n,
            n == balls@.len(),
            n <= MAX_SOURCES,
            balls_wf(balls@),
            tot_f == total_field_spec(balls@.take(i as int), x as int, y as int),
            tot_d == total_dist_spec(balls@.take(i as int), x as int, y as int),
            tot_f <= (i as int) * 0x200_0000_0000,
            tot_d <= (i as int) * 0x2_0000_0000,
        decreases n - i,
    {
        let b = balls[i];
        let d = b.dst_from(x, y);
        let f = b.field_at(x, y);
        proof {
            lemma_totals_take_step(balls@, i as int, x as int, y as int);
        }
        tot_f = tot_f + f;
        tot_d = tot_d + d;
        i = i + 1;
    }
    proof {
        assert(balls@.take(n as int) =~= balls@);
    }
    if tot_f < THRESHOLD {
        return bg;
    }
    let den: u64 = if n <= 2 {
        tot_f
    } else {
        tot_d
    };
    assert(den == weight_den_spec(balls@, x as int, y as int));
    let mut sr: u128 = 0;
    let mut sg: u128 = 0;
    let mut sb: u128 = 0;
    let mut i: usize = 0;
    while i < n
        invariant
            i <= n,
            n == balls@.len(),
            n <= MAX_SOURCES,
            balls_wf(balls@),
            tot_d == total_dist_spec(balls@, x as int, y as int),
            tot_d <= (n as int) * 0x2_0000_0000,
            sr == channel_sum_spec(balls@, i as int, x as int, y as int, 0),
            sg == channel_sum_spec(balls@, i as int, x as int, y as int, 1),
            sb == channel_sum_spec(balls@, i as int, x as int, y as int, 2),
            sr <= (i as int) * 0x4000_0000_0000_0000,
            sg <= (i as int) * 0x4000_0000_0000_0000,
            sb <= (i as int) * 0x4000_0000_0000_0000,
        decreases n - i,
    {
        let b = balls[i];
        let num: u64 = if n <= 2 {
            b.field_at(x, y)
        } else {
            proof {
                lemma_dist_le_total(balls@, i as int, x as int, y as int);
            }
            tot_d - b.dst_from(x, y)
        };
        proof {
            assert(num == weight_num_spec(balls@, i as int, x as int, y as int));
            assert(num <= 0x2000_0000_0000);
            assert((num as int) * (b.color.r as int) <= 0x4000_0000_0000_0000 && (num as int) * (
            b.color.g as int) <= 0x4000_0000_0000_0000 && (num as int) * (b.color.b as int)
                <= 0x4000_0000_0000_0000) by (nonlinear_arith)
                requires
                    0 <= num <= 0x2000_0000_0000 && b.color.r <= 255 && b.color.g <= 255
                        && b.color.b <= 255,
            ;
        }
        sr = sr + (num as u128) * (b.color.r as u128);
        sg = sg + (num as u128) * (b.color.g as u128);
        sb = sb + (num as u128) * (b.color.b as u128);
        i = i + 1;
    }
    proof {
        lemma_total_dist_ge_len(balls@, x as int, y as int);
        assert(den > 0);
    }
    let p = Pixel {
        r: saturate_channel(sr / (den as u128)),
        g: saturate_channel(sg / (den as u128)),
        b: saturate_channel(sb / (den as u128)),
    };
    proof {
        lemma_div_pos_is_pos(sr as int, den as int);
        lemma_div_pos_is_pos(sg as int, den as int);
        lemma_div_pos_is_pos(sb as int, den as int);
    }
    p
}

/// Recompute the whole frame in place: afterwards the buffer holds
/// `render_spec` of the given sources, row-major.
pub fn render(balls: &Vec<Ball>, width: usize, height: usize, bg: Pixel, buf: &mut Vec<Pixel>)
    requires
        balls_wf(balls@),
        balls@.len() <= MAX_SOURCES,
        old(buf)@.len() == width * height,
        width <= 0x7fff_ffff,
        height <= 0x7fff_ffff,
    ensures
        final(buf)@ == render_spec(balls@, width as int, height as int, bg),
{
    let ghost target = render_spec(balls@, width as int, height as int, bg);
    let total: usize = buf.len();
    let mut y: usize = 0;
    while y < height
        invariant
            y <= height,
            buf@.len() == width * height,
            total == width * height,
            target.len() == width * height,
            balls_wf(balls@),
            balls@.len() <= MAX_SOURCES,
            width <= 0x7fff_ffff,
            height <= 0x7fff_ffff,
            target == render_spec(balls@, width as int, height as int, bg),
            forall|j: int| 0 <= j < y * width ==> #[trigger] buf@[j] == target[j],
        decreases height - y,
    {
        let mut x: usize = 0;
        proof {
            assert((y as int) * (width as int) + width <= (width as int) * (height as int))
                by (nonlinear_arith)
                requires
                    y < height,
            ;
        }
        while x < width
            invariant
                x <= width,
                y < height,
                buf@.len() == width * height,
                total == width * height,
                target.len() == width * height,
                balls_wf(balls@),
                balls@.len() <= MAX_SOURCES,
                width <= 0x7fff_ffff,
                height <= 0x7fff_ffff,
                (y as int) * (width as int) + width <= width * height,
                target == render_spec(balls@, width as int, height as int, bg),
                forall|j: int| 0 <= j < y * width + x ==> #[trigger] buf@[j] == target[j],
            decreases width - x,
        {
            proof {
                lemma_fundamental_div_mod_converse(
                    (y as int) * (width as int) + x,
                    width as int,
                    y as int,
                    x as int,
                );
            }
            let idx: usize = y * width + x;
            let p = pixel_color(balls, bg, x as i32, y as i32);
            buf[idx] = p;
            x = x + 1;
        }
        y = y + 1;
        proof {
            assert((y as int) * (width as int) == ((y - 1) as int) * (width as int) + width)
                by (nonlinear_arith);
        }
    }
    proof {
        assert((y as int) * (width as int) == width * height) by (nonlinear_arith)
            requires
                y == height,
        ;
        assert(buf@ =~= target);
    }
}

} // verus!
