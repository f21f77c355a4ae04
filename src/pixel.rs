use vstd::prelude::*;

use crate::geometry::ScreenPos;

verus! {

/// A color of four 8-bit channels. A pixel whose alpha channel is 0 is the
/// erased sentinel: nothing is drawn there.
#[derive(Clone, Copy, Debug, PartialEq, Eq, Structural)]
pub struct Pixel {
    pub r: u8,
    pub g: u8,
    pub b: u8,
    pub a: u8,
}

/// The erased pixel: every channel 0.
pub open spec fn erased() -> Pixel {
    Pixel { r: 0, g: 0, b: 0, a: 0 }
}

/// Channel `k` of `p`, in the order r, g, b, a.
pub open spec fn channel(p: Pixel, k: int) -> u8 {
    if k == 0 {
        p.r
    } else if k == 1 {
        p.g
    } else if k == 2 {
        p.b
    } else {
        p.a
    }
}

/// The bytes of a run of pixels: four per pixel, in channel order.
pub open spec fn bytes_of(s: Seq<Pixel>) -> Seq<u8> {
    Seq::new(4 * s.len(), |j: int| channel(s[j / 4], j % 4))
}

/// `buf` after each `(pixel, pos)` of `changes`, in order, was written at the
/// row-major index `pos.x + pos.y * width`; an index past the end is skipped.
pub open spec fn written(buf: Seq<Pixel>, width: u32, changes: Seq<(Pixel, ScreenPos)>) -> Seq<Pixel>
    decreases changes.len(),
{
    if changes.len() == 0 {
        buf
    } else {
        let b = written(buf, width, changes.drop_last());
        let last = changes.last();
        let idx = last.1.x + last.1.y * width;
        if idx < b.len() {
            b.update(idx, last.0)
        } else {
            b
        }
    }
}

impl Pixel {
    /// The erased pixel.
    pub fn zero() -> (r: Pixel)
        ensures
            r == erased(),
    {
        Pixel { r: 0, g: 0, b: 0, a: 0 }
    }
}

/// An owned, contiguous run of pixels of fixed length.
pub struct PixelBuffer {
    inner: Vec<Pixel>,
}

impl View for PixelBuffer {
    type V = Seq<Pixel>;

    closed spec fn view(&self) -> Seq<Pixel> {
        self.inner@
    }
}

impl PixelBuffer {
    /// A buffer of `cap` erased pixels.
    pub fn empty(cap: usize) -> (r: PixelBuffer)
        ensures
            r@ == Seq::new(cap as nat, |i: int| erased()),
    {
        PixelBuffer::new(cap, Pixel::zero())
    }

    /// A buffer of `cap` copies of `pixel`.
    pub fn new(cap: usize, pixel: Pixel) -> (r: PixelBuffer)
        ensures
            r@ == Seq::new(cap as nat, |i: int| pixel),
    {
        let mut inner: Vec<Pixel> = Vec::with_capacity(cap);
        let mut i: usize = 0;
        while i < cap
            invariant
                i <= cap,
                inner@ == Seq::new(i as nat, |k: int| pixel),
            decreases cap - i,
        {
            inner.push(pixel);
            i += 1;
        }
        PixelBuffer { inner }
    }

    /// The number of pixels.
    pub fn len(&self) -> (r: usize)
        ensures
            r == self@.len(),
    {
        self.inner.len()
    }

    /// The pixel at `index`.
    pub fn get(&self, index: usize) -> (r: Pixel)
        requires
            index < self@.len(),
        ensures
            r == self@[index as int],
    {
        self.inner[index]
    }

    /// Writes `pixel` at `index`.
    pub fn set_pixel(&mut self, index: usize, pixel: Pixel)
        requires
            index < old(self)@.len(),
        ensures
            final(self)@ == old(self)@.update(index as int, pixel),
    {
        self.inner.set(index, pixel);
    }

    /// Sets every pixel to `pixel`.
    pub fn fill(&mut self, pixel: Pixel)
        ensures
            final(self)@ == Seq::new(old(self)@.len(), |i: int| pixel),
    {
        let n = self.inner.len();
        let mut i: usize = 0;
        while i < n
            invariant
                i <= n,
                n == self@.len(),
                self@.len() == old(self)@.len(),
                forall|k: int| 0 <= k < i ==> self@[k] == pixel,
            decreases n - i,
        {
            self.inner.set(i, pixel);
            i += 1;
        }
        assert(self@ =~= Seq::new(old(self)@.len(), |i: int| pixel));
    }

    /// Erases every pixel.
    pub fn zero(&mut self)
        ensures
            final(self)@ == Seq::new(old(self)@.len(), |i: int| erased()),
    {
        self.fill(Pixel::zero());
    }

    /// The pixels as bytes, four per pixel in channel order (r, g, b, a), for
    /// bulk transfer to a presentation sink.
    pub fn to_bytes(&self) -> (r: Vec<u8>)
        ensures
            r@ == bytes_of(self@),
    {
        let n = self.inner.len();
        let mut out: Vec<u8> = Vec::new();
        let mut i: usize = 0;
        while i < n
            invariant
                i <= n,
                n == self@.len(),
                out@.len() == 4 * i,
                forall|j: int| 0 <= j < 4 * i ==> out@[j] == channel(self@[j / 4], j % 4),
            decreases n - i,
        {
            let p = self.inner[i];
            out.push(p.r);
            out.push(p.g);
            out.push(p.b);
            out.push(p.a);
            assert forall|j: int| 4 * i <= j < 4 * i + 4 implies out@[j] == channel(
                self@[j / 4],
                j % 4,
            ) by {
                assert(j / 4 == i);
            }
            i += 1;
        }
        assert(out@ =~= bytes_of(self@));
        out
    }

    /// Writes each `(pixel, pos)` of `changes`, in order, at the row-major
    /// index `pos.x + pos.y * width`, skipping those whose index lies past the
    /// end of the buffer.
    pub fn write_changes(&mut self, width: u32, changes: &Vec<(Pixel, ScreenPos)>)
        ensures
            final(self)@ == written(old(self)@, width, changes@),
    {
        let mut i: usize = 0;
        while i < changes.len()
            invariant
                i <= changes@.len(),
                self@ == written(old(self)@, width, changes@.take(i as int)),
            decreases changes@.len() - i,
        {
            let (pix, pos) = changes[i];
            assert(changes@.take(i + 1).drop_last() =~= changes@.take(i as int));
            assert(pos.y as u64 * width as u64 <= 0xffff_fffe_0000_0001) by (nonlinear_arith)
                requires
                    pos.y <= 0xffff_ffff,
                    width <= 0xffff_ffff,
            ;
            let idx: u64 = pos.x as u64 + pos.y as u64 * width as u64;
            if idx < self.inner.len() as u64 {
                self.inner.set(idx as usize, pix);
            }
            i += 1;
        }
        assert(changes@.take(changes@.len() as int) =~= changes@);
    }
}

} // verus!
