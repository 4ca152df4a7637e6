//! The framebuffer: a flat row-major grid of packed colour words, created
//! at a fixed background colour and mutated in place by draw calls.
//!
//! Every draw has an exact contract: each pixel of the buffer ends up
//! either at the colour the shape's sample function gives it, or unchanged
//! where the shape covers nothing. Later draws overwrite earlier ones,
//! so draw order decides stacking.

use vstd::prelude::*;
use vstd::pervasive::VecAdditionalExecFns;
use vstd::arithmetic::mul::lemma_mul_upper_bound;
use crate::scene::{command_shape, command_wf, Command};
use crate::shape::{lemma_out_of_reach, sample, sample_spec, Shape};

verus! {

/// The pixel `(x, y)` of a row-major buffer of width `w`.
pub open spec fn pixel_at(p: Seq<u32>, w: int, x: int, y: int) -> u32 {
    p[y * w + x]
}

/// What a draw of shape `s` leaves at pixel `(x, y)`: the sampled colour
/// where the shape covers the pixel, the previous colour elsewhere.
pub open spec fn pixel_after(s: Shape, bg: u32, prev: u32, x: int, y: int) -> u32 {
    match sample_spec(s, bg, x, y) {
        Some(c) => c,
        None => prev,
    }
}

/// A coordinate restricted to `[0, limit]`.
pub open spec fn clamp_int(v: int, limit: int) -> int {
    if v < 0 {
        0
    } else if v > limit {
        limit
    } else {
        v
    }
}

/// Clamping is idempotent: a coordinate already cut down to the buffer is
/// left where it is.
pub proof fn lemma_clamp_idempotent(v: int, limit: int)
    requires
        0 <= limit,
    ensures
        clamp_int(clamp_int(v, limit), limit) == clamp_int(v, limit),
{
}

/// Executable coordinate clamp, used to cut a shape's bounding square down
/// to the buffer.
pub fn clamp_coord(v: i64, limit: usize) -> (r: usize)
    requires
        limit <= 0xFFFF,
    ensures
        r as int == clamp_int(v as int, limit as int),
        r <= limit,
{
    if v < 0 {
        0
    } else if v > limit as i64 {
        limit
    } else {
        v as usize
    }
}

/// Row-major indexing stays inside the buffer and fits the machine word.
proof fn lemma_index_bounds(w: int, h: int, x: int, y: int) by (nonlinear_arith)
    requires
        0 < w <= 0xFFFF,
        0 < h <= 0xFFFF,
        0 <= x < w,
        0 <= y < h,
    ensures
        0 <= y * w + x < w * h,
        w * h <= 0xFFFE0001,
{
}

/// Row-major indexing is one to one on in-range pixel coordinates.
proof fn lemma_index_injective(w: int, x1: int, y1: int, x2: int, y2: int) by (nonlinear_arith)
    requires
        0 < w,
        0 <= x1 < w,
        0 <= x2 < w,
        0 <= y1,
        0 <= y2,
        y1 * w + x1 == y2 * w + x2,
    ensures
        x1 == x2,
        y1 == y2,
{
}

/// A pixel buffer of `width * height` packed colour words, in row-major
/// order, together with the background colour it was created with.
pub struct Framebuffer {
    /// Width in pixels.
    pub width: usize,
    /// Height in pixels.
    pub height: usize,
    /// The colour every pixel starts at; the star's glow blends toward it.
    pub background: u32,
    /// The pixels, row by row.
    pub data: Vec<u32>,
}

impl View for Framebuffer {
    type V = Seq<u32>;

    open spec fn view(&self) -> Seq<u32> {
        self.data@
    }
}

impl Framebuffer {
    /// The buffer's shape is consistent and small enough that all index
    /// arithmetic fits the machine word.
    pub open spec fn wf(&self) -> bool {
        &&& self.data.len() == self.width * self.height
        &&& self.width <= 0xFFFF
        &&& self.height <= 0xFFFF
    }

    /// The draw of `s` is fully applied: relates every pixel of the new
    /// contents to the old.
    pub open spec fn drawn(self, prev: Framebuffer, s: Shape) -> bool {
        forall|x: int, y: int|
            0 <= x < prev.width && 0 <= y < prev.height ==> pixel_at(
                self@,
                prev.width as int,
                x,
                y,
            ) == pixel_after(
                s,
                prev.background,
                pixel_at(prev@, prev.width as int, x, y),
                x,
                y,
            )
    }

    /// Allocates a `width * height` buffer with every pixel at the
    /// background colour.
    pub fn new(width: usize, height: usize, background: u32) -> (fb: Framebuffer)
        requires
            width <= 0xFFFF,
            height <= 0xFFFF,
        ensures
            fb.wf(),
            fb.width == width,
            fb.height == height,
            fb.background == background,
            fb@.len() == width * height,
            forall|i: int| 0 <= i < fb@.len() ==> fb@[i] == background,
    {
        proof {
            lemma_mul_upper_bound(width as int, 0xFFFF, height as int, 0xFFFF);
        }
        let n: usize = width * height;
        let mut data: Vec<u32> = Vec::new();
        let mut i: usize = 0;
        while i < n
            invariant
                i <= n,
                data@.len() == i,
                forall|j: int| 0 <= j < i ==> data@[j] == background,
            decreases n - i,
        {
            data.push(background);
            i = i + 1;
        }
        Framebuffer { width, height, background, data }
    }

    /// Reads the pixel at `(x, y)`.
    pub fn get_pixel(&self, x: usize, y: usize) -> (c: u32)
        requires
            self.wf(),
            x < self.width,
            y < self.height,
        ensures
            c == pixel_at(self@, self.width as int, x as int, y as int),
    {
        proof {
            lemma_index_bounds(self.width as int, self.height as int, x as int, y as int);
        }
        let idx: usize = y * self.width + x;
        self.data[idx]
    }

    /// Writes the pixel at `(x, y)`; coordinates off the buffer change
    /// nothing, so a caller needs no bounds argument of its own.
    pub fn put_pixel(&mut self, x: usize, y: usize, color: u32)
        requires
            old(self).wf(),
        ensures
            final(self).wf(),
            final(self).width == old(self).width,
            final(self).height == old(self).height,
            final(self).background == old(self).background,
            x < old(self).width && y < old(self).height ==> final(self)@ == old(self)@.update(
                y * (old(self).width as int) + x,
                color,
            ),
            !(x < old(self).width && y < old(self).height) ==> final(self)@ == old(self)@,
    {
        if x < self.width && y < self.height {
            proof {
                lemma_index_bounds(self.width as int, self.height as int, x as int, y as int);
            }
            let idx: usize = y * self.width + x;
            self.data.set(idx, color);
        }
    }

    /// The buffer contents, read-only, for the display collaborator.
    pub fn as_slice(&self) -> (s: &[u32])
        ensures
            s@ == self@,
    {
        self.data.as_slice()
    }

    /// Draws a shape: every covered pixel takes the shape's sampled
    /// colour, every other pixel keeps its previous colour.
    #[verifier::loop_isolation(false)]
    pub fn draw_shape(&mut self, s: Shape)
        requires
            old(self).wf(),
            s.wf(),
        ensures
            final(self).wf(),
            final(self).width == old(self).width,
            final(self).height == old(self).height,
            final(self).background == old(self).background,
            final(self)@.len() == old(self)@.len(),
            final(self).drawn(*old(self), s),
    {
        let scx: i64 = s.cx_val();
        let scy: i64 = s.cy_val();
        let srad: i64 = s.radius_val();
        if srad <= 0 {
            return ;
        }
        let reach: i64 = 3 * srad;
        let x0: usize = clamp_coord(scx - reach, self.width);
        let x1: usize = clamp_coord(scx + reach + 1, self.width);
        let y0: usize = clamp_coord(scy - reach, self.height);
        let y1: usize = clamp_coord(scy + reach + 1, self.height);
        let mut y: usize = y0;
        while y < y1
            invariant
                y0 <= y <= y1,
                self.wf(),
                self.width == old(self).width,
                self.height == old(self).height,
                self.background == old(self).background,
                self@.len() == old(self)@.len(),
                forall|xi: int, yi: int|
                    0 <= xi < old(self).width && 0 <= yi < old(self).height ==> pixel_at(
                        self@,
                        old(self).width as int,
                        xi,
                        yi,
                    ) == (if y0 <= yi < y && x0 <= xi < x1 {
                        pixel_after(
                            s,
                            old(self).background,
                            pixel_at(old(self)@, old(self).width as int, xi, yi),
                            xi,
                            yi,
                        )
                    } else {
                        pixel_at(old(self)@, old(self).width as int, xi, yi)
                    }),
            decreases y1 - y,
        {
            let mut x: usize = x0;
            while x < x1
                invariant
                    x0 <= x <= x1,
                    y0 <= y < y1,
                    self.wf(),
                    self.width == old(self).width,
                    self.height == old(self).height,
                    self.background == old(self).background,
                    self@.len() == old(self)@.len(),
                    forall|xi: int, yi: int|
                        0 <= xi < old(self).width && 0 <= yi < old(self).height ==> pixel_at(
                            self@,
                            old(self).width as int,
                            xi,
                            yi,
                        ) == (if (y0 <= yi < y && x0 <= xi < x1) || (yi == y && x0 <= xi < x) {
                            pixel_after(
                                s,
                                old(self).background,
                                pixel_at(old(self)@, old(self).width as int, xi, yi),
                                xi,
                                yi,
                            )
                        } else {
                            pixel_at(old(self)@, old(self).width as int, xi, yi)
                        }),
                decreases x1 - x,
            {
                let c = sample(&s, self.background, x, y);
                match c {
                    Some(color) => {
                        proof {
                            lemma_index_bounds(
                                self.width as int,
                                self.height as int,
                                x as int,
                                y as int,
                            );
                        }
                        let idx: usize = y * self.width + x;
                        let ghost prev_view = self@;
                        self.data.set(idx, color);
                        proof {
                            assert(self@ == prev_view.update(
                                y * (old(self).width as int) + x,
                                color,
                            ));
                            assert forall|xi: int, yi: int|
                                0 <= xi < old(self).width && 0 <= yi < old(self).height implies
                                pixel_at(self@, old(self).width as int, xi, yi) == (if (y0 <= yi
                                    < y && x0 <= xi < x1) || (yi == y && x0 <= xi < x + 1) {
                                    pixel_after(
                                        s,
                                        old(self).background,
                                        pixel_at(old(self)@, old(self).width as int, xi, yi),
                                        xi,
                                        yi,
                                    )
                                } else {
                                    pixel_at(old(self)@, old(self).width as int, xi, yi)
                                }) by {
                                let w = old(self).width as int;
                                lemma_index_bounds(w, old(self).height as int, xi, yi);
                                assert(prev_view.len() == w * (old(self).height as int));
                                assert(pixel_at(prev_view, w, xi, yi) == prev_view[yi * w + xi]);
                                if yi == y as int && xi == x as int {
                                    assert(self@[yi * w + xi] == color);
                                    assert(sample_spec(s, old(self).background, xi, yi) == Some(
                                        color,
                                    ));
                                } else {
                                    if yi * w + xi == y as int * w + x as int {
                                        lemma_index_injective(w, xi, yi, x as int, y as int);
                                        assert(false);
                                    }
                                    assert(self@[yi * w + xi] == prev_view[yi * w + xi]);
                                }
                            }
                        }
                    },
                    None => {},
                }
                x = x + 1;
            }
            y = y + 1;
        }
        proof {
            assert forall|xi: int, yi: int|
                0 <= xi < old(self).width && 0 <= yi < old(self).height && !(y0 <= yi < y1 && x0
                    <= xi < x1) implies sample_spec(s, old(self).background, xi, yi) is None by {
                lemma_out_of_reach(s, old(self).background, xi, yi);
            }
        }
    }

    /// The last draw wins: after drawing `s1` and then `s2`, every pixel
    /// that `s2` covers shows `s2`'s colour, whatever `s1` left there.
    pub proof fn lemma_last_draw_wins(
        self,
        fb1: Framebuffer,
        fb0: Framebuffer,
        s1: Shape,
        s2: Shape,
        c: u32,
        x: int,
        y: int,
    )
        requires
            fb1.drawn(fb0, s1),
            self.drawn(fb1, s2),
            fb1.width == fb0.width,
            fb1.height == fb0.height,
            fb1.background == fb0.background,
            0 <= x < fb0.width,
            0 <= y < fb0.height,
            sample_spec(s2, fb0.background, x, y) == Some(c),
        ensures
            pixel_at(self@, fb0.width as int, x, y) == c,
    {
        assert(pixel_at(self@, fb1.width as int, x, y) == pixel_after(
            s2,
            fb1.background,
            pixel_at(fb1@, fb1.width as int, x, y),
            x,
            y,
        ));
    }

    /// A draw changes nothing beyond the reach of its shape: every pixel
    /// farther from the centre than the reach, along either axis, keeps
    /// its colour.
    pub proof fn lemma_draw_is_local(self, fb0: Framebuffer, s: Shape, x: int, y: int)
        requires
            self.drawn(fb0, s),
            0 <= x < fb0.width,
            0 <= y < fb0.height,
            x - s.cx() > s.reach() || s.cx() - x > s.reach() || y - s.cy() > s.reach() || s.cy()
                - y > s.reach(),
        ensures
            pixel_at(self@, fb0.width as int, x, y) == pixel_at(fb0@, fb0.width as int, x, y),
    {
        lemma_out_of_reach(s, fb0.background, x, y);
        assert(pixel_at(self@, fb0.width as int, x, y) == pixel_after(
            s,
            fb0.background,
            pixel_at(fb0@, fb0.width as int, x, y),
            x,
            y,
        ));
    }

    /// Carries out the part of a scene command that the rasterizer draws by
    /// itself: the star and the orbits, drawn exactly; a body command is
    /// left to the surface shader and the buffer is untouched. Returns
    /// whether the command was drawn here.
    pub fn draw_command(&mut self, cmd: &Command) -> (drew: bool)
        requires
            old(self).wf(),
            command_wf(*cmd),
        ensures
            final(self).wf(),
            final(self).width == old(self).width,
            final(self).height == old(self).height,
            final(self).background == old(self).background,
            final(self)@.len() == old(self)@.len(),
            command_shape(*cmd) matches Some(s) ==> drew && final(self).drawn(*old(self), s),
            command_shape(*cmd) is None ==> !drew && final(self)@ == old(self)@,
    {
        match *cmd {
            Command::Star { cx, cy, radius } => {
                self.draw_shape(Shape::Star { cx, cy, radius });
                true
            },
            Command::Orbit { cx, cy, radius } => {
                self.draw_shape(Shape::Orbit { cx, cy, radius });
                true
            },
            Command::Body { .. } => false,
        }
    }

    /// Draws the star: a disc of the core colour, with a glow band out to
    /// twice the radius that fades into the background.
    pub fn draw_star(&mut self, cx: i64, cy: i64, radius: i64)
        requires
            old(self).wf(),
            -1000000 <= cx <= 1000000,
            -1000000 <= cy <= 1000000,
            radius <= 1000000,
        ensures
            final(self).wf(),
            final(self).width == old(self).width,
            final(self).height == old(self).height,
            final(self).background == old(self).background,
            final(self)@.len() == old(self)@.len(),
            final(self).drawn(*old(self), (Shape::Star { cx, cy, radius })),
    {
        self.draw_shape(Shape::Star { cx, cy, radius });
    }

    /// Draws an orbit: a thin dim ring outline one pixel either side of
    /// the circle, leaving the interior alone.
    pub fn draw_orbit(&mut self, cx: i64, cy: i64, radius: i64)
        requires
            old(self).wf(),
            -1000000 <= cx <= 1000000,
            -1000000 <= cy <= 1000000,
            radius <= 1000000,
        ensures
            final(self).wf(),
            final(self).width == old(self).width,
            final(self).height == old(self).height,
            final(self).background == old(self).background,
            final(self)@.len() == old(self)@.len(),
            final(self).drawn(*old(self), (Shape::Orbit { cx, cy, radius })),
    {
        self.draw_shape(Shape::Orbit { cx, cy, radius });
    }

    /// Draws the flattened ring of a ringed planet: an elliptic band around
    /// the body, outside its disc, so the planet itself is untouched.
    pub fn draw_ring(&mut self, cx: i64, cy: i64, radius: i64)
        requires
            old(self).wf(),
            -1000000 <= cx <= 1000000,
            -1000000 <= cy <= 1000000,
            radius <= 1000000,
        ensures
            final(self).wf(),
            final(self).width == old(self).width,
            final(self).height == old(self).height,
            final(self).background == old(self).background,
            final(self)@.len() == old(self)@.len(),
            final(self).drawn(*old(self), (Shape::Ring { cx, cy, radius })),
    {
        self.draw_shape(Shape::Ring { cx, cy, radius });
    }
}

} // verus!
