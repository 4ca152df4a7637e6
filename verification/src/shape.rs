//! The radial shapes the rasterizer draws directly: the glowing star, the
//! thin orbit rings, and the flattened ring around a ringed planet.
//!
//! Each shape answers, for a pixel, whether it covers the pixel and with
//! which packed colour. All geometry is exact integer arithmetic over the
//! squared distance to the shape's centre, so the sample function is both
//! executable and fully specified.

use vstd::prelude::*;
use crate::color::{blend_channel, blend_spec, blue_channel, blue_of, green_channel, green_of,
    lemma_blend_bounds, lemma_blend_monotone, lemma_pack_channels, pack_rgb, pack_spec,
    red_channel, red_of};

verus! {

/// Red channel of the star's core colour.
pub const STAR_CORE_R: u32 = 255;

/// Green channel of the star's core colour.
pub const STAR_CORE_G: u32 = 244;

/// Blue channel of the star's core colour.
pub const STAR_CORE_B: u32 = 200;

/// The star's core colour, packed: `(255, 244, 200)`.
pub const STAR_CORE_COLOR: u32 = 0xFFF4C8;

/// The dim colour of an orbit ring, packed: `(60, 60, 80)`.
pub const ORBIT_COLOR: u32 = 0x3C3C50;

/// The colour of a planet's ring, packed: `(180, 160, 120)`.
pub const RING_COLOR: u32 = 0xB4A078;

/// A shape that the rasterizer can draw by itself. Coordinates are pixel
/// units; a centre may lie outside the buffer.
#[derive(Clone, Copy)]
pub enum Shape {
    /// A filled disc of the core colour with a glow band out to twice the
    /// radius, blending toward the buffer's background.
    Star { cx: i64, cy: i64, radius: i64 },
    /// A thin ring outline: the pixels within one pixel of the circle.
    Orbit { cx: i64, cy: i64, radius: i64 },
    /// A flattened elliptic band around a planet, outside its disc.
    Ring { cx: i64, cy: i64, radius: i64 },
}

impl Shape {
    /// The x coordinate of the shape's centre.
    pub open spec fn cx(self) -> int {
        match self {
            Shape::Star { cx, .. } => cx as int,
            Shape::Orbit { cx, .. } => cx as int,
            Shape::Ring { cx, .. } => cx as int,
        }
    }

    /// The y coordinate of the shape's centre.
    pub open spec fn cy(self) -> int {
        match self {
            Shape::Star { cy, .. } => cy as int,
            Shape::Orbit { cy, .. } => cy as int,
            Shape::Ring { cy, .. } => cy as int,
        }
    }

    /// The shape's radius. Zero or negative means the shape draws nothing.
    pub open spec fn radius(self) -> int {
        match self {
            Shape::Star { radius, .. } => radius as int,
            Shape::Orbit { radius, .. } => radius as int,
            Shape::Ring { radius, .. } => radius as int,
        }
    }

    /// Machine bounds under which the sampler's `i64` arithmetic cannot
    /// overflow.
    pub open spec fn wf(self) -> bool {
        &&& -1000000 <= self.cx() <= 1000000
        &&& -1000000 <= self.cy() <= 1000000
        &&& self.radius() <= 1000000
    }

    /// Along either axis, pixels farther than this from the centre are
    /// never covered.
    pub open spec fn reach(self) -> int {
        3 * self.radius()
    }

    /// The centre's x coordinate, as executable code.
    pub fn cx_val(&self) -> (v: i64)
        ensures
            v as int == self.cx(),
    {
        match *self {
            Shape::Star { cx, .. } => cx,
            Shape::Orbit { cx, .. } => cx,
            Shape::Ring { cx, .. } => cx,
        }
    }

    /// The centre's y coordinate, as executable code.
    pub fn cy_val(&self) -> (v: i64)
        ensures
            v as int == self.cy(),
    {
        match *self {
            Shape::Star { cy, .. } => cy,
            Shape::Orbit { cy, .. } => cy,
            Shape::Ring { cy, .. } => cy,
        }
    }

    /// The radius, as executable code.
    pub fn radius_val(&self) -> (v: i64)
        ensures
            v as int == self.radius(),
    {
        match *self {
            Shape::Star { radius, .. } => radius,
            Shape::Orbit { radius, .. } => radius,
            Shape::Ring { radius, .. } => radius,
        }
    }
}

/// Squared Euclidean distance between the pixel `(x, y)` and the centre
/// `(cx, cy)`.
pub open spec fn dist2(cx: int, cy: int, x: int, y: int) -> int {
    (x - cx) * (x - cx) + (y - cy) * (y - cy)
}

/// Squared distance with the y axis weighted three to one after doubling,
/// which flattens a circle into the ellipse of a planet's ring.
pub open spec fn flat2(cx: int, cy: int, x: int, y: int) -> int {
    4 * ((x - cx) * (x - cx)) + 36 * ((y - cy) * (y - cy))
}

/// The colour of a glow pixel: each background channel moved toward the
/// star's core channel by the fraction `(4r^2 - d^2) / 3r^2`, which falls
/// from one at the disc's edge to zero at twice the radius. `r2` is the
/// squared radius.
pub open spec fn glow_color(bg: u32, d2: int, r2: int) -> u32 {
    pack_spec(
        blend_spec(red_of(bg) as int, STAR_CORE_R as int, 4 * r2 - d2, 3 * r2),
        blend_spec(green_of(bg) as int, STAR_CORE_G as int, 4 * r2 - d2, 3 * r2),
        blend_spec(blue_of(bg) as int, STAR_CORE_B as int, 4 * r2 - d2, 3 * r2),
    )
}

/// What a shape contributes at pixel `(x, y)`: the packed colour where the
/// shape covers the pixel, nothing elsewhere. `bg` is the buffer's
/// background, which only the star's glow reads.
pub open spec fn sample_spec(s: Shape, bg: u32, x: int, y: int) -> Option<u32> {
    let r = s.radius();
    let r2 = r * r;
    let d2 = dist2(s.cx(), s.cy(), x, y);
    if r <= 0 {
        None
    } else {
        match s {
            Shape::Star { .. } => if d2 <= r2 {
                Some(STAR_CORE_COLOR)
            } else if d2 <= 4 * r2 {
                Some(glow_color(bg, d2, r2))
            } else {
                None
            },
            Shape::Orbit { .. } => if (r - 1) * (r - 1) <= d2 && d2 <= (r + 1) * (r + 1) {
                Some(ORBIT_COLOR)
            } else {
                None
            },
            Shape::Ring { .. } => {
                let m = flat2(s.cx(), s.cy(), x, y);
                if 16 * r2 <= m && m <= 25 * r2 && d2 > r2 {
                    Some(RING_COLOR)
                } else {
                    None
                }
            },
        }
    }
}

/// A square of a value between `-b` and `b` lies between `0` and `b * b`.
proof fn lemma_sq_bound(v: int, b: int) by (nonlinear_arith)
    requires
        -b <= v <= b,
        0 <= b,
    ensures
        0 <= v * v <= b * b,
{
}

/// A value beyond `b` in absolute terms has a square beyond `b * b`.
proof fn lemma_sq_exceeds(v: int, b: int) by (nonlinear_arith)
    requires
        v > b >= 0 || -v > b >= 0,
    ensures
        v * v > b * b,
{
}

/// Facts tying the squared radius to the band thresholds of every shape.
proof fn lemma_radius_squares(r: int) by (nonlinear_arith)
    requires
        r >= 1,
    ensures
        r * r >= 1,
        (3 * r) * (3 * r) == 9 * (r * r),
        (r + 1) * (r + 1) <= 9 * (r * r),
        (r - 1) * (r - 1) <= r * r,
{
}

/// No shape covers a pixel farther than its reach from its centre along
/// either axis: a draw is local to a bounded square.
pub proof fn lemma_out_of_reach(s: Shape, bg: u32, x: int, y: int)
    requires
        x - s.cx() > s.reach() || s.cx() - x > s.reach() || y - s.cy() > s.reach()
            || s.cy() - y > s.reach(),
    ensures
        sample_spec(s, bg, x, y) is None,
{
    let r = s.radius();
    if r <= 0 {
    } else {
        lemma_radius_squares(r);
        lemma_sq_bound(x - s.cx(), if x - s.cx() >= 0 { x - s.cx() } else { s.cx() - x });
        lemma_sq_bound(y - s.cy(), if y - s.cy() >= 0 { y - s.cy() } else { s.cy() - y });
        if x - s.cx() > 3 * r || s.cx() - x > 3 * r {
            lemma_sq_exceeds(x - s.cx(), 3 * r);
        } else {
            lemma_sq_exceeds(y - s.cy(), 3 * r);
        }
    }
}

/// The glow fades monotonically with distance: over a background no
/// brighter than the core, a glow pixel farther from the star is, channel
/// by channel, no brighter than a nearer one. `r2` is the squared radius
/// and `d2a`, `d2b` squared distances inside the glow band.
pub proof fn lemma_glow_fades(bg: u32, d2a: int, d2b: int, r2: int)
    requires
        0 < r2,
        r2 <= d2a <= d2b <= 4 * r2,
        red_of(bg) <= STAR_CORE_R,
        green_of(bg) <= STAR_CORE_G,
        blue_of(bg) <= STAR_CORE_B,
    ensures
        red_of(glow_color(bg, d2b, r2)) <= red_of(glow_color(bg, d2a, r2)),
        green_of(glow_color(bg, d2b, r2)) <= green_of(glow_color(bg, d2a, r2)),
        blue_of(glow_color(bg, d2b, r2)) <= blue_of(glow_color(bg, d2a, r2)),
{
    let na = 4 * r2 - d2a;
    let nb = 4 * r2 - d2b;
    let den = 3 * r2;
    lemma_channel_of_glow(bg, d2a, r2);
    lemma_channel_of_glow(bg, d2b, r2);
    lemma_blend_monotone(red_of(bg) as int, STAR_CORE_R as int, nb, na, den);
    lemma_blend_monotone(green_of(bg) as int, STAR_CORE_G as int, nb, na, den);
    lemma_blend_monotone(blue_of(bg) as int, STAR_CORE_B as int, nb, na, den);
}

/// The channels of a packed glow pixel are exactly its three blends.
proof fn lemma_channel_of_glow(bg: u32, d2: int, r2: int)
    requires
        0 < r2,
        r2 <= d2 <= 4 * r2,
        red_of(bg) <= STAR_CORE_R,
        green_of(bg) <= STAR_CORE_G,
        blue_of(bg) <= STAR_CORE_B,
    ensures
        red_of(glow_color(bg, d2, r2)) == blend_spec(
            red_of(bg) as int,
            STAR_CORE_R as int,
            4 * r2 - d2,
            3 * r2,
        ),
        green_of(glow_color(bg, d2, r2)) == blend_spec(
            green_of(bg) as int,
            STAR_CORE_G as int,
            4 * r2 - d2,
            3 * r2,
        ),
        blue_of(glow_color(bg, d2, r2)) == blend_spec(
            blue_of(bg) as int,
            STAR_CORE_B as int,
            4 * r2 - d2,
            3 * r2,
        ),
{
    let num = 4 * r2 - d2;
    let den = 3 * r2;
    lemma_blend_bounds(red_of(bg) as int, STAR_CORE_R as int, num, den);
    lemma_blend_bounds(green_of(bg) as int, STAR_CORE_G as int, num, den);
    lemma_blend_bounds(blue_of(bg) as int, STAR_CORE_B as int, num, den);
    let br = blend_spec(red_of(bg) as int, STAR_CORE_R as int, num, den);
    let bgr = blend_spec(green_of(bg) as int, STAR_CORE_G as int, num, den);
    let bb = blend_spec(blue_of(bg) as int, STAR_CORE_B as int, num, den);
    assert((bg >> 16u32) & 0xFF < 256 && (bg >> 8u32) & 0xFF < 256 && bg & 0xFF < 256)
        by (bit_vector);
    lemma_pack_channels(br as u32, bgr as u32, bb as u32);
}

/// A star with a positive radius covers its own centre with the core
/// colour, whatever the background.
pub proof fn lemma_star_covers_centre(cx: i64, cy: i64, radius: i64, bg: u32)
    requires
        radius >= 1,
    ensures
        sample_spec((Shape::Star { cx, cy, radius }), bg, cx as int, cy as int) == Some(
            STAR_CORE_COLOR,
        ),
{
    lemma_radius_squares(radius as int);
    assert(dist2(cx as int, cy as int, cx as int, cy as int) == 0) by (nonlinear_arith);
}

/// Executable sampler: agrees exactly with `sample_spec`.
pub fn sample(s: &Shape, bg: u32, x: usize, y: usize) -> (c: Option<u32>)
    requires
        s.wf(),
        x <= 0xFFFF,
        y <= 0xFFFF,
    ensures
        c == sample_spec(*s, bg, x as int, y as int),
{
    match *s {
        Shape::Star { cx, cy, radius } => {
            if radius <= 0 {
                return None;
            }
            let dx: i64 = x as i64 - cx;
            let dy: i64 = y as i64 - cy;
            proof {
                lemma_sq_bound(dx as int, 0x200000);
                lemma_sq_bound(dy as int, 0x200000);
                lemma_sq_bound(radius as int, 1000000);
            }
            let d2: i64 = dx * dx + dy * dy;
            let r2: i64 = radius * radius;
            proof {
                assert(d2 as int == (x as int - cx as int) * (x as int - cx as int)
                    + (y as int - cy as int) * (y as int - cy as int)) by (nonlinear_arith)
                    requires
                        dx as int == x as int - cx as int,
                        dy as int == y as int - cy as int,
                        d2 as int == (dx as int) * (dx as int) + (dy as int) * (dy as int),
                ;
            }
            if d2 <= r2 {
                Some(STAR_CORE_COLOR)
            } else if d2 <= 4 * r2 {
                proof {
                    lemma_radius_squares(radius as int);
                }
                let num: u64 = (4 * r2 - d2) as u64;
                let den: u64 = (3 * r2) as u64;
                let cr = blend_channel(red_channel(bg), STAR_CORE_R, num, den);
                let cg = blend_channel(green_channel(bg), STAR_CORE_G, num, den);
                let cb = blend_channel(blue_channel(bg), STAR_CORE_B, num, den);
                Some(pack_rgb(cr, cg, cb))
            } else {
                None
            }
        },
        Shape::Orbit { cx, cy, radius } => {
            if radius <= 0 {
                return None;
            }
            let dx: i64 = x as i64 - cx;
            let dy: i64 = y as i64 - cy;
            proof {
                lemma_sq_bound(dx as int, 0x200000);
                lemma_sq_bound(dy as int, 0x200000);
                lemma_sq_bound(radius as int - 1, 1000000);
                lemma_sq_bound(radius as int + 1, 1000001);
            }
            let d2: i64 = dx * dx + dy * dy;
            let inner: i64 = (radius - 1) * (radius - 1);
            let outer: i64 = (radius + 1) * (radius + 1);
            proof {
                assert(d2 as int == (x as int - cx as int) * (x as int - cx as int)
                    + (y as int - cy as int) * (y as int - cy as int)) by (nonlinear_arith)
                    requires
                        dx as int == x as int - cx as int,
                        dy as int == y as int - cy as int,
                        d2 as int == (dx as int) * (dx as int) + (dy as int) * (dy as int),
                ;
            }
            if inner <= d2 && d2 <= outer {
                Some(ORBIT_COLOR)
            } else {
                None
            }
        },
        Shape::Ring { cx, cy, radius } => {
            if radius <= 0 {
                return None;
            }
            let dx: i64 = x as i64 - cx;
            let dy: i64 = y as i64 - cy;
            proof {
                lemma_sq_bound(dx as int, 0x200000);
                lemma_sq_bound(dy as int, 0x200000);
                lemma_sq_bound(radius as int, 1000000);
            }
            let d2: i64 = dx * dx + dy * dy;
            let r2: i64 = radius * radius;
            let m: i64 = 4 * (dx * dx) + 36 * (dy * dy);
            proof {
                assert(d2 as int == (x as int - cx as int) * (x as int - cx as int)
                    + (y as int - cy as int) * (y as int - cy as int)
                    && m as int == 4 * ((x as int - cx as int) * (x as int - cx as int))
                    + 36 * ((y as int - cy as int) * (y as int - cy as int))) by (nonlinear_arith)
                    requires
                        dx as int == x as int - cx as int,
                        dy as int == y as int - cy as int,
                        d2 as int == (dx as int) * (dx as int) + (dy as int) * (dy as int),
                        m as int == 4 * ((dx as int) * (dx as int)) + 36 * ((dy as int) * (dy as int)),
                ;
            }
            if 16 * r2 <= m && m <= 25 * r2 && d2 > r2 {
                Some(RING_COLOR)
            } else {
                None
            }
        },
    }
}

} // verus!
