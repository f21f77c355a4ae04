//! What a canvas reports when it compares the frame just drawn with the frame
//! presented before it, and the laws that the report obeys.
use vstd::arithmetic::div_mod::{
    lemma_div_is_ordered, lemma_fundamental_div_mod, lemma_mod_pos_bound,
};
use vstd::prelude::*;

use crate::geometry::{ScreenPos, ScreenSize};
use crate::pixel::{erased, Pixel};

verus! {

/// A frame of `n` erased pixels.
pub open spec fn blank(n: nat) -> Seq<Pixel> {
    Seq::new(n, |i: int| erased())
}

/// Whether a cell that held `prev` and now holds `cur` is reported: the two
/// differ, and at least one of them is visible (alpha not 0).
pub open spec fn is_change(cur: Pixel, prev: Pixel) -> bool {
    cur != prev && (cur.a != 0 || prev.a != 0)
}

/// The pixel reported for a changed cell that now holds `cur`: the erased
/// pixel where `cur` is invisible, `cur` itself otherwise.
pub open spec fn reported(cur: Pixel) -> Pixel {
    if cur.a == 0 {
        erased()
    } else {
        cur
    }
}

/// The screen position of the cell at row-major index `i` of a canvas of the
/// given width whose top left corner stands at `origin`.
pub open spec fn screen_pos(width: u32, origin: ScreenPos, i: int) -> ScreenPos {
    ScreenPos { x: (i % (width as int) + origin.x) as u32, y: (i / (width as int) + origin.y) as u32 }
}

/// Every cell of a canvas of `size` placed at `origin` has a position that fits
/// in screen coordinates.
pub open spec fn fits(size: ScreenSize, origin: ScreenPos) -> bool {
    origin.x + size.width <= 0x1_0000_0000 && origin.y + size.height <= 0x1_0000_0000
}

/// Whether `p` comes before `q` in row-major order: top to bottom, then left
/// to right.
pub open spec fn precedes(p: ScreenPos, q: ScreenPos) -> bool {
    p.y < q.y || (p.y == q.y && p.x < q.x)
}

/// The indices below `k` of the cells that changed from `prev` to `cur`, in
/// ascending order.
pub open spec fn changed_indices(cur: Seq<Pixel>, prev: Seq<Pixel>, k: int) -> Seq<int>
    decreases k,
{
    if k <= 0 {
        seq![]
    } else {
        let rest = changed_indices(cur, prev, k - 1);
        if is_change(cur[k - 1], prev[k - 1]) {
            rest.push(k - 1)
        } else {
            rest
        }
    }
}

/// The changes reported for the cells below index `k`.
pub open spec fn changes_upto(
    cur: Seq<Pixel>,
    prev: Seq<Pixel>,
    width: u32,
    origin: ScreenPos,
    k: int,
) -> Seq<(Pixel, ScreenPos)> {
    changed_indices(cur, prev, k).map_values(
        |i: int| (reported(cur[i]), screen_pos(width, origin, i)),
    )
}

/// The changes from frame `prev` to frame `cur` on a canvas of the given width
/// at `origin`: one `(pixel, position)` for each changed cell, in row-major
/// order.
pub open spec fn diff(cur: Seq<Pixel>, prev: Seq<Pixel>, width: u32, origin: ScreenPos) -> Seq<
    (Pixel, ScreenPos),
> {
    changes_upto(cur, prev, width, origin, cur.len() as int)
}

/// The indices below `k` that `changed_indices` lists are ascending, below `k`,
/// and each of a changed cell.
pub proof fn lemma_changed_indices(cur: Seq<Pixel>, prev: Seq<Pixel>, k: int)
    ensures
        forall|m: int|
            0 <= m < changed_indices(cur, prev, k).len() ==> 0 <= #[trigger] changed_indices(
                cur,
                prev,
                k,
            )[m] < k && is_change(
                cur[changed_indices(cur, prev, k)[m]],
                prev[changed_indices(cur, prev, k)[m]],
            ),
        forall|a: int, b: int|
            0 <= a < b < changed_indices(cur, prev, k).len() ==> #[trigger] changed_indices(
                cur,
                prev,
                k,
            )[a] < #[trigger] changed_indices(cur, prev, k)[b],
    decreases k,
{
    if k > 0 {
        lemma_changed_indices(cur, prev, k - 1);
        let rest = changed_indices(cur, prev, k - 1);
        let s = changed_indices(cur, prev, k);
        if is_change(cur[k - 1], prev[k - 1]) {
            assert(s == rest.push(k - 1));
            assert forall|m: int| 0 <= m < rest.len() implies s[m] == rest[m] by {}
            assert(s[rest.len() as int] == k - 1);
        }
    }
}

/// No index is listed where no cell below `k` changed.
proof fn lemma_no_changed_indices(cur: Seq<Pixel>, prev: Seq<Pixel>, k: int)
    requires
        forall|i: int| 0 <= i < k ==> !is_change(#[trigger] cur[i], prev[i]),
    ensures
        changed_indices(cur, prev, k) == Seq::<int>::empty(),
    decreases k,
{
    if k > 0 {
        lemma_no_changed_indices(cur, prev, k - 1);
    }
}

/// Every changed cell below `k` is listed by `changed_indices`.
pub(crate) proof fn lemma_change_listed(cur: Seq<Pixel>, prev: Seq<Pixel>, k: int, i: int)
    requires
        0 <= i < k,
        is_change(cur[i], prev[i]),
    ensures
        exists|m: int|
            0 <= m < changed_indices(cur, prev, k).len() && #[trigger] changed_indices(
                cur,
                prev,
                k,
            )[m] == i,
    decreases k,
{
    let rest = changed_indices(cur, prev, k - 1);
    let s = changed_indices(cur, prev, k);
    if i == k - 1 {
        assert(s == rest.push(k - 1));
        assert(s[rest.len() as int] == i);
    } else {
        lemma_change_listed(cur, prev, k - 1, i);
        let m = choose|m: int| 0 <= m < rest.len() && #[trigger] rest[m] == i;
        if is_change(cur[k - 1], prev[k - 1]) {
            assert(s == rest.push(k - 1));
            assert(s[m] == i);
        }
    }
}

/// The cell at index `i` of a canvas of `size` lies in column `i % width` and
/// row `i / width`, both inside the canvas.
pub(crate) proof fn lemma_cell_of_index(size: ScreenSize, i: int)
    requires
        0 <= i < size.area(),
    ensures
        size.width > 0,
        i == size.width * (i / (size.width as int)) + i % (size.width as int),
        0 <= i % (size.width as int) < size.width,
        0 <= i / (size.width as int) < size.height,
{
    let w = size.width as int;
    let h = size.height as int;
    if w == 0 {
        assert(w * h == 0) by (nonlinear_arith)
            requires
                w == 0,
        ;
    }
    lemma_fundamental_div_mod(i, w);
    lemma_mod_pos_bound(i, w);
    let q = i / w;
    assert(0 <= q) by {
        vstd::arithmetic::div_mod::lemma_div_pos_is_pos(i, w);
    }
    if q >= h {
        assert(w * q >= w * h) by (nonlinear_arith)
            requires
                q >= h,
                w > 0,
        ;
    }
}

/// Cells at increasing indices have positions in row-major order.
proof fn lemma_positions_ordered(size: ScreenSize, origin: ScreenPos, i: int, j: int)
    requires
        0 <= i < j < size.area(),
        fits(size, origin),
    ensures
        precedes(screen_pos(size.width, origin, i), screen_pos(size.width, origin, j)),
{
    let w = size.width as int;
    lemma_cell_of_index(size, i);
    lemma_cell_of_index(size, j);
    lemma_div_is_ordered(i, j, w);
}

/// Two frames that are alike report no change. A canvas that was just resized
/// holds two blank frames, so its next report is empty.
pub proof fn lemma_identical_frames_no_changes(frame: Seq<Pixel>, width: u32, origin: ScreenPos)
    ensures
        diff(frame, frame, width, origin) == Seq::<(Pixel, ScreenPos)>::empty(),
{
    lemma_no_changed_indices(frame, frame, frame.len() as int);
    assert(diff(frame, frame, width, origin) =~= Seq::<(Pixel, ScreenPos)>::empty());
}

/// A report taken right after another one, with nothing drawn in between, is
/// empty when nothing visible was drawn in the frame reported first: the
/// blank frame is then compared with a frame that holds no visible pixel.
pub proof fn lemma_blank_after_invisible_frame(frame: Seq<Pixel>, width: u32, origin: ScreenPos)
    requires
        forall|i: int| 0 <= i < frame.len() ==> (#[trigger] frame[i]).a == 0,
    ensures
        diff(blank(frame.len()), frame, width, origin) == Seq::<(Pixel, ScreenPos)>::empty(),
{
    let cur = blank(frame.len());
    assert forall|i: int| 0 <= i < cur.len() implies !is_change(#[trigger] cur[i], frame[i]) by {
        assert(frame[i].a == 0);
    }
    lemma_no_changed_indices(cur, frame, cur.len() as int);
    assert(diff(cur, frame, width, origin) =~= Seq::<(Pixel, ScreenPos)>::empty());
}

/// A cell that holds the same pixel in both frames is not reported: no change
/// carries its position.
pub proof fn lemma_equal_cell_not_reported(
    cur: Seq<Pixel>,
    prev: Seq<Pixel>,
    size: ScreenSize,
    origin: ScreenPos,
    i: int,
)
    requires
        cur.len() == size.area(),
        prev.len() == size.area(),
        fits(size, origin),
        0 <= i < cur.len(),
        cur[i] == prev[i],
    ensures
        forall|m: int|
            0 <= m < diff(cur, prev, size.width, origin).len() ==> (#[trigger] diff(
                cur,
                prev,
                size.width,
                origin,
            )[m]).1 != screen_pos(size.width, origin, i),
{
    let n = cur.len() as int;
    lemma_changed_indices(cur, prev, n);
    let s = changed_indices(cur, prev, n);
    assert forall|m: int| 0 <= m < diff(cur, prev, size.width, origin).len() implies (#[trigger] diff(
        cur,
        prev,
        size.width,
        origin,
    )[m]).1 != screen_pos(size.width, origin, i) by {
        let j = s[m];
        assert(is_change(cur[j], prev[j]));
        if j < i {
            lemma_positions_ordered(size, origin, j, i);
        } else {
            lemma_positions_ordered(size, origin, i, j);
        }
    }
}

/// Changes are reported in row-major order of their positions, whatever the
/// order in which the pixels were drawn.
pub proof fn lemma_changes_in_row_major_order(
    cur: Seq<Pixel>,
    prev: Seq<Pixel>,
    size: ScreenSize,
    origin: ScreenPos,
)
    requires
        cur.len() == size.area(),
        prev.len() == size.area(),
        fits(size, origin),
    ensures
        forall|a: int, b: int|
            0 <= a < b < diff(cur, prev, size.width, origin).len() ==> precedes(
                (#[trigger] diff(cur, prev, size.width, origin)[a]).1,
                (#[trigger] diff(cur, prev, size.width, origin)[b]).1,
            ),
{
    let n = cur.len() as int;
    lemma_changed_indices(cur, prev, n);
    let s = changed_indices(cur, prev, n);
    assert forall|a: int, b: int|
        0 <= a < b < diff(cur, prev, size.width, origin).len() implies precedes(
        (#[trigger] diff(cur, prev, size.width, origin)[a]).1,
        (#[trigger] diff(cur, prev, size.width, origin)[b]).1,
    ) by {
        assert(s[a] < s[b]);
        lemma_positions_ordered(size, origin, s[a], s[b]);
    }
}

} // verus!
