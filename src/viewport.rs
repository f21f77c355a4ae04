use vstd::arithmetic::div_mod::lemma_fundamental_div_mod_converse;
use vstd::prelude::*;

use crate::diff::{
    blank, changed_indices, changes_upto, diff, fits, is_change, lemma_cell_of_index,
    lemma_change_listed, lemma_changed_indices, reported, screen_pos,
};
use crate::geometry::{ScreenPos, ScreenSize};
use crate::pixel::{Pixel, PixelBuffer};

verus! {

/// What a canvas holds, as mathematical values.
pub struct CanvasState {
    pub position: ScreenPos,
    pub size: ScreenSize,
    pub scale_factor: u32,
    /// The frame being drawn.
    pub current: Seq<Pixel>,
    /// The frame last presented.
    pub previous: Seq<Pixel>,
}

impl CanvasState {
    /// Both frames hold one pixel per cell, and every cell has a screen
    /// position.
    pub open spec fn wf(self) -> bool {
        &&& self.current.len() == self.size.area()
        &&& self.previous.len() == self.size.area()
        &&& fits(self.size, self.position)
    }
}

/// Whether the cell at index `i` of a canvas of the given width lies in the
/// `scale` by `scale` block whose top left cell is `pos`.
pub open spec fn in_block(width: u32, scale: u32, pos: ScreenPos, i: int) -> bool {
    &&& pos.x <= i % (width as int) < pos.x + scale
    &&& pos.y <= i / (width as int) < pos.y + scale
}

/// `frame` after `pixel` was drawn over the block at `pos`; the cells of the
/// block that fall outside the canvas are clipped.
pub open spec fn drawn(frame: Seq<Pixel>, width: u32, scale: u32, pixel: Pixel, pos: ScreenPos) -> Seq<
    Pixel,
> {
    Seq::new(frame.len(), |i: int| if in_block(width, scale, pos, i) { pixel } else { frame[i] })
}

/// `frame` after each `(pixel, pos)` of `pixels` was drawn, in order.
pub open spec fn drawn_all(
    frame: Seq<Pixel>,
    width: u32,
    scale: u32,
    pixels: Seq<(Pixel, ScreenPos)>,
) -> Seq<Pixel>
    decreases pixels.len(),
{
    if pixels.len() == 0 {
        frame
    } else {
        let last = pixels.last();
        drawn(drawn_all(frame, width, scale, pixels.drop_last()), width, scale, last.0, last.1)
    }
}

/// What a canvas of `size` at `origin` reports when both its frames were blank
/// and `pixel` was then drawn at `pos` with scale factor `scale`.
pub open spec fn report_of_one_draw(
    size: ScreenSize,
    origin: ScreenPos,
    scale: u32,
    pixel: Pixel,
    pos: ScreenPos,
) -> Seq<(Pixel, ScreenPos)> {
    diff(
        drawn(blank(size.area() as nat), size.width, scale, pixel, pos),
        blank(size.area() as nat),
        size.width,
        origin,
    )
}

/// One visible pixel drawn at scale `scale` on a canvas whose two frames are
/// blank is reported once at each cell of its block that lies on the canvas,
/// and nowhere else.
pub proof fn lemma_drawn_block_reported(
    size: ScreenSize,
    origin: ScreenPos,
    scale: u32,
    pixel: Pixel,
    pos: ScreenPos,
)
    requires
        pixel.a != 0,
    ensures
        forall|i: int|
            0 <= i < size.area() && #[trigger] in_block(size.width, scale, pos, i) ==> exists|m: int|
                0 <= m < report_of_one_draw(size, origin, scale, pixel, pos).len()
                    && #[trigger] report_of_one_draw(size, origin, scale, pixel, pos)[m] == (
                    pixel,
                    screen_pos(size.width, origin, i),
                ),
        forall|m: int|
            0 <= m < report_of_one_draw(size, origin, scale, pixel, pos).len() ==> (
            #[trigger] report_of_one_draw(size, origin, scale, pixel, pos)[m]).0 == pixel
                && exists|i: int|
                0 <= i < size.area() && #[trigger] in_block(size.width, scale, pos, i)
                    && report_of_one_draw(size, origin, scale, pixel, pos)[m].1 == screen_pos(
                    size.width,
                    origin,
                    i,
                ),
{
    let n = size.area();
    let prev = blank(n as nat);
    let cur = drawn(prev, size.width, scale, pixel, pos);
    let d = report_of_one_draw(size, origin, scale, pixel, pos);
    assert(d == diff(cur, prev, size.width, origin));
    let s = changed_indices(cur, prev, n);
    assert forall|i: int| 0 <= i < n && #[trigger] in_block(size.width, scale, pos, i) implies exists|
        m: int,
    | 0 <= m < d.len() && #[trigger] d[m] == (pixel, screen_pos(size.width, origin, i)) by {
        assert(is_change(cur[i], prev[i]));
        lemma_change_listed(cur, prev, n, i);
        let m = choose|m: int| 0 <= m < s.len() && #[trigger] s[m] == i;
        assert(d[m] == (pixel, screen_pos(size.width, origin, i)));
    }
    lemma_changed_indices(cur, prev, n);
    assert forall|m: int| 0 <= m < d.len() implies (#[trigger] d[m]).0 == pixel && exists|i: int|
        0 <= i < n && #[trigger] in_block(size.width, scale, pos, i) && d[m].1 == screen_pos(
            size.width,
            origin,
            i,
        ) by {
        let j = s[m];
        assert(is_change(cur[j], prev[j]));
        assert(in_block(size.width, scale, pos, j));
        assert(d[m] == (pixel, screen_pos(size.width, origin, j)));
    }
}

/// A drawable area on screen, double-buffered: pixels are drawn into the
/// current frame, and `pixels` reports what changed since the frame before.
pub struct Viewport {
    position: ScreenPos,
    size: ScreenSize,
    new_buf: PixelBuffer,
    old_buf: PixelBuffer,
    scale_factor: u32,
}

impl View for Viewport {
    type V = CanvasState;

    closed spec fn view(&self) -> CanvasState {
        CanvasState {
            position: self.position,
            size: self.size,
            scale_factor: self.scale_factor,
            current: self.new_buf@,
            previous: self.old_buf@,
        }
    }
}

impl Viewport {
    /// A canvas of `size` whose top left corner stands at `position` on
    /// screen, with both frames erased and a scale factor of 1.
    pub fn new(position: ScreenPos, size: ScreenSize) -> (r: Viewport)
        requires
            size.area() <= usize::MAX,
            fits(size, position),
        ensures
            r@ == (CanvasState {
                position,
                size,
                scale_factor: 1,
                current: blank(size.area() as nat),
                previous: blank(size.area() as nat),
            }),
            r@.wf(),
    {
        let cap = size.width as usize * size.height as usize;
        Viewport {
            position,
            size,
            new_buf: PixelBuffer::empty(cap),
            old_buf: PixelBuffer::empty(cap),
            scale_factor: 1,
        }
    }

    /// Gives the canvas a new size. Both frames are reallocated and erased:
    /// whatever was drawn is discarded.
    pub fn resize(&mut self, new_size: ScreenSize)
        requires
            new_size.area() <= usize::MAX,
            fits(new_size, old(self)@.position),
        ensures
            final(self)@ == (CanvasState {
                position: old(self)@.position,
                size: new_size,
                scale_factor: old(self)@.scale_factor,
                current: blank(new_size.area() as nat),
                previous: blank(new_size.area() as nat),
            }),
            final(self)@.wf(),
    {
        let cap = new_size.width as usize * new_size.height as usize;
        self.size = ScreenSize::new(new_size.width, new_size.height);
        self.new_buf = PixelBuffer::empty(cap);
        self.old_buf = PixelBuffer::empty(cap);
    }

    /// Sets the scale factor of the draws that follow.
    pub fn scale(&mut self, scale_factor: u32)
        ensures
            final(self)@ == (CanvasState { scale_factor, ..old(self)@ }),
    {
        self.scale_factor = scale_factor;
    }

    /// Where the canvas stands on screen.
    pub fn position(&self) -> (r: ScreenPos)
        ensures
            r == self@.position,
    {
        self.position
    }

    /// The size of the canvas.
    pub fn size(&self) -> (r: ScreenSize)
        ensures
            r == self@.size,
    {
        self.size
    }

    /// The scale factor of draws.
    pub fn scale_factor(&self) -> (r: u32)
        ensures
            r == self@.scale_factor,
    {
        self.scale_factor
    }

    /// The frame being drawn, for a sink that uploads it whole.
    pub fn buffer(&self) -> (r: &PixelBuffer)
        ensures
            r@ == self@.current,
    {
        &self.new_buf
    }

    /// Fills the whole current frame with `pixel`.
    pub fn fill(&mut self, pixel: Pixel)
        ensures
            final(self)@ == (CanvasState {
                current: Seq::new(old(self)@.current.len(), |i: int| pixel),
                ..old(self)@
            }),
    {
        self.new_buf.fill(pixel);
    }

    /// The screen position of the cell at `index`: its column and row,
    /// translated by the position of the canvas.
    fn screen_position(&self, index: usize) -> (r: ScreenPos)
        requires
            self@.wf(),
            index < self@.size.area(),
        ensures
            r == screen_pos(self@.size.width, self@.position, index as int),
    {
        proof {
            lemma_cell_of_index(self.size, index as int);
        }
        let w = self.size.width as usize;
        let x = (index % w) as u32 + self.position.x;
        let y = (index / w) as u32 + self.position.y;
        ScreenPos::new(x, y)
    }

    /// Reports the changes from the frame last presented to the frame just
    /// drawn, one `(pixel, position)` per changed cell in row-major order. A
    /// cell that was visible and is now erased is reported with the erased
    /// pixel. The frame just drawn then becomes the previous frame, and the
    /// current frame is erased for the next draws.
    pub fn pixels(&mut self) -> (r: Vec<(Pixel, ScreenPos)>)
        requires
            old(self)@.wf(),
        ensures
            r@ == diff(old(self)@.current, old(self)@.previous, old(self)@.size.width, old(self)@.position),
            final(self)@ == (CanvasState {
                current: blank(old(self)@.size.area() as nat),
                previous: old(self)@.current,
                ..old(self)@
            }),
            final(self)@.wf(),
    {
        let ghost cur = self@.current;
        let ghost prev = self@.previous;
        let ghost width = self@.size.width;
        let ghost origin = self@.position;
        let n = self.new_buf.len();
        let mut out: Vec<(Pixel, ScreenPos)> = Vec::new();
        let mut i: usize = 0;
        while i < n
            invariant
                i <= n,
                n == cur.len(),
                self@ == old(self)@,
                self@.wf(),
                cur == self@.current,
                prev == self@.previous,
                width == self@.size.width,
                origin == self@.position,
                out@ == changes_upto(cur, prev, width, origin, i as int),
            decreases n - i,
        {
            let drawn_now = self.new_buf.get(i);
            let before = self.old_buf.get(i);
            let ghost ci = changed_indices(cur, prev, i as int);
            if drawn_now == before {
            } else if drawn_now.a == 0 {
                if before.a > 0 {
                    out.push((Pixel::zero(), self.screen_position(i)));
                }
            } else {
                out.push((drawn_now, self.screen_position(i)));
            }
            proof {
                if is_change(cur[i as int], prev[i as int]) {
                    assert(changed_indices(cur, prev, i + 1) == ci.push(i as int));
                    assert(reported(cur[i as int]) == out@.last().0);
                } else {
                    assert(changed_indices(cur, prev, i + 1) == ci);
                }
                assert(out@ =~= changes_upto(cur, prev, width, origin, i + 1));
            }
            i += 1;
        }
        std::mem::swap(&mut self.new_buf, &mut self.old_buf);
        self.new_buf.zero();
        assert(self@.current =~= blank(old(self)@.size.area() as nat));
        out
    }

    /// Draws `pixel` over the `scale_factor` by `scale_factor` block of cells
    /// whose top left cell is `pos`. The position and the block are in the
    /// cells of the canvas, and each cell of the block outside the canvas is
    /// silently clipped.
    pub fn draw_pixel(&mut self, pixel: Pixel, pos: ScreenPos)
        requires
            old(self)@.wf(),
        ensures
            final(self)@ == (CanvasState {
                current: drawn(
                    old(self)@.current,
                    old(self)@.size.width,
                    old(self)@.scale_factor,
                    pixel,
                    pos,
                ),
                ..old(self)@
            }),
            final(self)@.wf(),
    {
        let ghost orig = self@.current;
        let w = self.size.width;
        let h = self.size.height;
        let n = self.new_buf.len();
        let s = self.scale_factor as u64;
        let x_end: u64 = if pos.x as u64 + s < w as u64 {
            pos.x as u64 + s
        } else {
            w as u64
        };
        let y_end: u64 = if pos.y as u64 + s < h as u64 {
            pos.y as u64 + s
        } else {
            h as u64
        };
        let mut y: u64 = pos.y as u64;
        while y < y_end
            invariant
                pos.y <= y,
                y <= y_end || y == pos.y,
                y_end <= h,
                x_end <= w,
                x_end <= pos.x + s,
                y_end <= pos.y + s,
                x_end == pos.x + s || x_end == w,
                y_end == pos.y + s || y_end == h,
                w == self@.size.width,
                h == self@.size.height,
                s == self@.scale_factor,
                n == orig.len(),
                self@.wf(),
                self@ == (CanvasState { current: self@.current, ..old(self)@ }),
                self@.current.len() == orig.len(),
                forall|i: int|
                    0 <= i < n ==> #[trigger] self@.current[i] == if pos.x <= i % (w as int) < x_end
                        && pos.y <= i / (w as int) < y {
                        pixel
                    } else {
                        orig[i]
                    },
            decreases y_end - y,
        {
            let mut x: u64 = pos.x as u64;
            while x < x_end
                invariant
                    pos.x <= x,
                    x <= x_end || x == pos.x,
                    pos.y <= y < y_end,
                    y_end <= h,
                    x_end <= w,
                    w == self@.size.width,
                    h == self@.size.height,
                    n == orig.len(),
                    self@.wf(),
                    self@ == (CanvasState { current: self@.current, ..old(self)@ }),
                    self@.current.len() == orig.len(),
                    forall|i: int|
                        0 <= i < n ==> #[trigger] self@.current[i] == if (pos.x <= i % (w as int)
                            < x_end && pos.y <= i / (w as int) < y) || (i / (w as int) == y
                            && pos.x <= i % (w as int) < x) {
                            pixel
                        } else {
                            orig[i]
                        },
                decreases x_end - x,
            {
                assert(y * w + x < w * h) by (nonlinear_arith)
                    requires
                        y < h,
                        x < w,
                ;
                let idx = (y * w as u64 + x) as usize;
                assert(idx == y * w + x);
                let ghost before = self@.current;
                self.new_buf.set_pixel(idx, pixel);
                proof {
                    lemma_fundamental_div_mod_converse(idx as int, w as int, y as int, x as int);
                    assert forall|i: int| 0 <= i < n implies #[trigger] self@.current[i] == if (pos.x
                        <= i % (w as int) < x_end && pos.y <= i / (w as int) < y) || (i / (w as int)
                        == y && pos.x <= i % (w as int) < x + 1) {
                        pixel
                    } else {
                        orig[i]
                    } by {
                        lemma_cell_of_index(self.size, i);
                        if i / (w as int) == y && i % (w as int) == x {
                            assert(w * y == y * w) by (nonlinear_arith);
                            assert(i == idx);
                        }
                        assert(before[i] == if (pos.x <= i % (w as int) < x_end && pos.y <= i / (
                        w as int) < y) || (i / (w as int) == y && pos.x <= i % (w as int) < x) {
                            pixel
                        } else {
                            orig[i]
                        });
                    }
                }
                x += 1;
            }
            y += 1;
        }
        proof {
            assert forall|i: int| 0 <= i < n implies #[trigger] self@.current[i] == drawn(
                orig,
                w,
                self@.scale_factor,
                pixel,
                pos,
            )[i] by {
                lemma_cell_of_index(self.size, i);
            }
            assert(self@.current =~= drawn(orig, w, self@.scale_factor, pixel, pos));
        }
    }

    /// Draws each `(pixel, pos)` of `pixels` in order; where two draws cover
    /// the same cell, the later one wins.
    pub fn draw_pixels(&mut self, pixels: Vec<(Pixel, ScreenPos)>)
        requires
            old(self)@.wf(),
        ensures
            final(self)@ == (CanvasState {
                current: drawn_all(
                    old(self)@.current,
                    old(self)@.size.width,
                    old(self)@.scale_factor,
                    pixels@,
                ),
                ..old(self)@
            }),
            final(self)@.wf(),
    {
        let mut i: usize = 0;
        while i < pixels.len()
            invariant
                i <= pixels@.len(),
                self@.wf(),
                self@ == (CanvasState {
                    current: drawn_all(
                        old(self)@.current,
                        old(self)@.size.width,
                        old(self)@.scale_factor,
                        pixels@.take(i as int),
                    ),
                    ..old(self)@
                }),
            decreases pixels@.len() - i,
        {
            let (pixel, pos) = pixels[i];
            assert(pixels@.take(i + 1).drop_last() =~= pixels@.take(i as int));
            self.draw_pixel(pixel, pos);
            i += 1;
        }
        assert(pixels@.take(pixels@.len() as int) =~= pixels@);
    }
}

} // verus!
