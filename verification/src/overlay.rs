//! Painting on decoded NV12 frames before they are shown: the luma-band
//! highlight inside the region of interest, the outline of detected
//! subtitle regions, and the grey (chroma-free) view.
//!
//! An NV12 frame has a luma plane of one byte per pixel, rows `y_stride`
//! bytes apart, and a chroma plane of one U,V byte pair per 2x2 block of
//! pixels, rows `uv_stride` bytes apart.

use vstd::prelude::*;
use vstd::arithmetic::div_mod::{lemma_fundamental_div_mod, lemma_fundamental_div_mod_converse};
use vstd::arithmetic::mul::lemma_mul_inequality;

verus! {

/// A pixel rectangle; `right` and `bottom` are exclusive.
#[derive(Clone, Copy, Debug, PartialEq, Eq, Structural)]
pub struct RoiBounds {
    pub left: usize,
    pub top: usize,
    pub right: usize,
    pub bottom: usize,
}

/// The Y, U and V values that highlighted or outlined pixels get.
#[derive(Clone, Copy, Debug, PartialEq, Eq, Structural)]
pub struct LumaTargets {
    pub y: u8,
    pub u: u8,
    pub v: u8,
}

/// Geometry of an NV12 frame.
#[derive(Clone, Copy, Debug, PartialEq, Eq, Structural)]
pub struct Nv12FrameInfo {
    pub width: u32,
    pub height: u32,
    pub y_stride: usize,
    pub uv_stride: usize,
}

impl Nv12FrameInfo {
    /// Number of 2x2 block columns (`width.div_ceil(2)`).
    pub open spec fn blocks_w(self) -> int {
        (self.width as int + 1) / 2
    }

    /// Number of 2x2 block rows (`height.div_ceil(2)`).
    pub open spec fn blocks_h(self) -> int {
        (self.height as int + 1) / 2
    }

    /// The NV12 layout: a luma row has room for `width` pixels, a chroma
    /// row for one U,V pair per block column, and every offset into either
    /// plane fits in `usize`.
    pub open spec fn laid_out(self) -> bool {
        &&& self.y_stride >= self.width
        &&& self.uv_stride >= 2 * self.blocks_w()
        &&& self.height * self.y_stride + self.width <= usize::MAX
        &&& self.blocks_h() * self.uv_stride <= usize::MAX
    }

    /// Offset of pixel (`x`, `y`) in the luma plane.
    pub open spec fn pixel_index(self, x: int, y: int) -> int {
        y * self.y_stride + x
    }

    /// Whether luma byte `i` is a pixel of the picture (not row padding).
    pub open spec fn is_pixel(self, i: int) -> bool {
        &&& self.y_stride > 0
        &&& 0 <= i
        &&& i % (self.y_stride as int) < self.width
        &&& i / (self.y_stride as int) < self.height
    }

    /// Column of luma byte `i`.
    pub open spec fn col(self, i: int) -> int {
        i % (self.y_stride as int)
    }

    /// Row of luma byte `i`.
    pub open spec fn row(self, i: int) -> int {
        i / (self.y_stride as int)
    }

    /// Offset of the U byte of block (`bx`, `by`) in the chroma plane; the
    /// V byte follows it.
    pub open spec fn uv_index(self, bx: int, by: int) -> int {
        by * self.uv_stride + 2 * bx
    }

    /// The block whose chroma pair chroma byte `j` belongs to.
    pub open spec fn chroma_block(self, j: int) -> (int, int) {
        ((j % (self.uv_stride as int)) / 2, j / (self.uv_stride as int))
    }
}

/// Whether the 2x2 block at (`x0`, `y0`) lies wholly inside both the frame
/// and the region.
pub open spec fn block_inside_roi_spec(roi: RoiBounds, x0: int, y0: int, width: int, height: int) -> bool {
    &&& x0 + 1 < width
    &&& y0 + 1 < height
    &&& x0 >= roi.left
    &&& x0 + 1 < roi.right
    &&& y0 >= roi.top
    &&& y0 + 1 < roi.bottom
}

/// Whether block (`bx`, `by`) of the frame lies inside the region.
pub open spec fn block_selected(info: Nv12FrameInfo, roi: RoiBounds, bx: int, by: int) -> bool {
    block_inside_roi_spec(roi, 2 * bx, 2 * by, info.width as int, info.height as int)
}

/// Which pixels of the selected blocks get painted.
#[derive(Clone, Copy, Debug, PartialEq, Eq, Structural)]
pub enum PaintRule {
    /// Pixels whose luma lies in `lo..=hi`; a block's chroma pair is
    /// painted when one of its pixels was.
    Band(u8, u8),
    /// Pixels inside the rectangle; a block's chroma pair is painted when
    /// the block overlaps it.
    Stripe(RoiBounds),
}

/// Whether pixel (`x`, `y`) exists in `y_plane` with a value in the band.
pub open spec fn in_band_at(
    info: Nv12FrameInfo,
    y_plane: Seq<u8>,
    lo: u8,
    hi: u8,
    x: int,
    y: int,
) -> bool {
    let i = info.pixel_index(x, y);
    &&& i < y_plane.len()
    &&& lo <= y_plane[i] <= hi
}

/// Whether block (`bx`, `by`) gets its chroma pair painted.
pub open spec fn block_marked(
    info: Nv12FrameInfo,
    roi: RoiBounds,
    rule: PaintRule,
    y_plane: Seq<u8>,
    bx: int,
    by: int,
) -> bool {
    &&& block_selected(info, roi, bx, by)
    &&& match rule {
        PaintRule::Band(lo, hi) => {
            ||| in_band_at(info, y_plane, lo, hi, 2 * bx, 2 * by)
            ||| in_band_at(info, y_plane, lo, hi, 2 * bx + 1, 2 * by)
            ||| in_band_at(info, y_plane, lo, hi, 2 * bx, 2 * by + 1)
            ||| in_band_at(info, y_plane, lo, hi, 2 * bx + 1, 2 * by + 1)
        },
        PaintRule::Stripe(s) => {
            &&& 2 * bx + 2 > s.left
            &&& 2 * bx < s.right
            &&& 2 * by + 2 > s.top
            &&& 2 * by < s.bottom
        },
    }
}

/// Whether luma byte `i` is a pixel of a selected block that `rule` paints.
pub open spec fn pixel_painted(
    info: Nv12FrameInfo,
    roi: RoiBounds,
    rule: PaintRule,
    y_plane: Seq<u8>,
    i: int,
) -> bool {
    &&& info.is_pixel(i)
    &&& block_selected(info, roi, info.col(i) / 2, info.row(i) / 2)
    &&& match rule {
        PaintRule::Band(lo, hi) => lo <= y_plane[i] <= hi,
        PaintRule::Stripe(s) => {
            &&& s.left <= info.col(i) < s.right
            &&& s.top <= info.row(i) < s.bottom
        },
    }
}

/// Whether chroma byte `j` belongs to a marked block whose pair fits in a
/// chroma plane of `uv_len` bytes.
pub open spec fn chroma_painted(
    info: Nv12FrameInfo,
    roi: RoiBounds,
    rule: PaintRule,
    y_plane: Seq<u8>,
    uv_len: int,
    j: int,
) -> bool {
    let b = info.chroma_block(j);
    &&& info.uv_stride > 0
    &&& 0 <= j
    &&& block_marked(info, roi, rule, y_plane, b.0, b.1)
    &&& info.uv_index(b.0, b.1) + 1 < uv_len
}

/// The painted value of chroma byte `j`: U on even offsets, V on odd.
pub open spec fn chroma_value(info: Nv12FrameInfo, targets: LumaTargets, j: int) -> u8 {
    if (j % (info.uv_stride as int)) % 2 == 0 {
        targets.u
    } else {
        targets.v
    }
}

/// Whether the 2x2 block at (`x0`, `y0`) lies wholly inside both the frame
/// and the region.
pub fn block_inside_roi(roi: RoiBounds, x0: usize, y0: usize, width: usize, height: usize) -> (res:
    bool)
    requires
        x0 < usize::MAX,
        y0 < usize::MAX,
    ensures
        res == block_inside_roi_spec(roi, x0 as int, y0 as int, width as int, height as int),
{
    if x0 + 1 >= width || y0 + 1 >= height {
        return false;
    }
    x0 >= roi.left && x0 + 1 < roi.right && y0 >= roi.top && y0 + 1 < roi.bottom
}

/// The larger of two offsets.
pub open spec fn max_usize(a: usize, b: usize) -> usize {
    if a >= b {
        a
    } else {
        b
    }
}

/// The smaller of two offsets.
pub open spec fn min_usize(a: usize, b: usize) -> usize {
    if a <= b {
        a
    } else {
        b
    }
}

/// The part of `bounds` inside `roi`, when it is not empty.
pub fn clamp_bounds_to_roi(bounds: RoiBounds, roi: RoiBounds) -> (res: Option<RoiBounds>)
    ensures
        res == clamped(bounds, roi),
{
    let left = if bounds.left >= roi.left {
        bounds.left
    } else {
        roi.left
    };
    let top = if bounds.top >= roi.top {
        bounds.top
    } else {
        roi.top
    };
    let right = if bounds.right <= roi.right {
        bounds.right
    } else {
        roi.right
    };
    let bottom = if bounds.bottom <= roi.bottom {
        bounds.bottom
    } else {
        roi.bottom
    };
    if right <= left || bottom <= top {
        return None;
    }
    Some(RoiBounds { left, top, right, bottom })
}

/// Pixel (`x`, `y`) of the picture is the luma byte at `pixel_index`, and
/// that byte's column and row are `x` and `y`.
proof fn lemma_pixel_index(info: Nv12FrameInfo, x: int, y: int)
    requires
        info.laid_out(),
        0 <= x < info.width,
        0 <= y < info.height,
    ensures
        info.is_pixel(info.pixel_index(x, y)),
        info.col(info.pixel_index(x, y)) == x,
        info.row(info.pixel_index(x, y)) == y,
        0 <= info.pixel_index(x, y) < info.height * info.y_stride + info.width,
{
    lemma_fundamental_div_mod_converse(info.pixel_index(x, y), info.y_stride as int, y, x);
    lemma_mul_inequality(y, info.height as int, info.y_stride as int);
    lemma_mul_inequality(0, y, info.y_stride as int);
}

/// A picture byte is the pixel its column and row name.
proof fn lemma_pixel_decompose(info: Nv12FrameInfo, i: int)
    requires
        info.is_pixel(i),
    ensures
        i == info.pixel_index(info.col(i), info.row(i)),
{
    let d = info.y_stride as int;
    lemma_fundamental_div_mod(i, d);
    assert(d * (i / d) == (i / d) * d) by (nonlinear_arith);
}

/// The chroma pair of a block inside the picture: its two bytes belong to
/// that block, U first, and both offsets fit.
proof fn lemma_chroma_index(info: Nv12FrameInfo, bx: int, by: int)
    requires
        info.laid_out(),
        0 <= bx,
        2 * bx + 1 < info.width,
        0 <= by < info.blocks_h(),
    ensures
        info.chroma_block(info.uv_index(bx, by)) == (bx, by),
        info.chroma_block(info.uv_index(bx, by) + 1) == (bx, by),
        (info.uv_index(bx, by) % (info.uv_stride as int)) % 2 == 0,
        ((info.uv_index(bx, by) + 1) % (info.uv_stride as int)) % 2 == 1,
        0 <= info.uv_index(bx, by),
        info.uv_index(bx, by) + 1 < info.blocks_h() * info.uv_stride,
{
    let d = info.uv_stride as int;
    lemma_fundamental_div_mod_converse(info.uv_index(bx, by), d, by, 2 * bx);
    lemma_fundamental_div_mod_converse(info.uv_index(bx, by) + 1, d, by, 2 * bx + 1);
    assert((by + 1) * d == by * d + d) by (nonlinear_arith);
    lemma_mul_inequality(by + 1, info.blocks_h(), d);
    lemma_mul_inequality(0, by, d);
}

/// A chroma byte is the U or V byte of the block it belongs to.
proof fn lemma_chroma_decompose(info: Nv12FrameInfo, j: int)
    requires
        info.uv_stride > 0,
        0 <= j,
    ensures
        j == info.uv_index(info.chroma_block(j).0, info.chroma_block(j).1) + (j % (
        info.uv_stride as int)) % 2,
{
    let d = info.uv_stride as int;
    lemma_fundamental_div_mod(j, d);
    assert(d * (j / d) == (j / d) * d) by (nonlinear_arith);
}


/// Whether `rule` paints a pixel at (`x`, `y`) whose luma is `value`.
fn paints(rule: PaintRule, value: u8, x: usize, y: usize) -> (res: bool)
    ensures
        res == (match rule {
            PaintRule::Band(lo, hi) => lo <= value <= hi,
            PaintRule::Stripe(s) => s.left <= x < s.right && s.top <= y < s.bottom,
        }),
{
    match rule {
        PaintRule::Band(lo, hi) => value >= lo && value <= hi,
        PaintRule::Stripe(s) => x >= s.left && x < s.right && y >= s.top && y < s.bottom,
    }
}

/// Paints block (`bx`, `by`) by `rule`: its painted pixels get the target
/// luma and, when the block is marked, its chroma pair gets the target
/// colour. Blocks outside the region are left alone.
fn paint_block(
    y_plane: &mut [u8],
    uv_plane: &mut [u8],
    info: Nv12FrameInfo,
    roi: RoiBounds,
    rule: PaintRule,
    targets: LumaTargets,
    bx: usize,
    by: usize,
)
    requires
        info.laid_out(),
        bx < info.blocks_w(),
        by < info.blocks_h(),
    ensures
        final(y_plane)@.len() == old(y_plane)@.len(),
        final(uv_plane)@.len() == old(uv_plane)@.len(),
        forall|i: int|
            0 <= i < old(y_plane)@.len() ==> #[trigger] final(y_plane)@[i] == (if info.is_pixel(i)
                && info.col(i) / 2 == bx && info.row(i) / 2 == by && pixel_painted(
                info,
                roi,
                rule,
                old(y_plane)@,
                i,
            ) {
                targets.y
            } else {
                old(y_plane)@[i]
            }),
        forall|j: int|
            0 <= j < old(uv_plane)@.len() ==> #[trigger] final(uv_plane)@[j] == (if info.uv_stride
                > 0 && info.chroma_block(j) == (bx as int, by as int) && chroma_painted(
                info,
                roi,
                rule,
                old(y_plane)@,
                old(uv_plane)@.len() as int,
                j,
            ) {
                chroma_value(info, targets, j)
            } else {
                old(uv_plane)@[j]
            }),
{
    let ghost y_old = y_plane@;
    let ghost uv_old = uv_plane@;
    let width = info.width as usize;
    let height = info.height as usize;
    let y0 = by * 2;
    let x0 = bx * 2;
    proof {
        let h = info.height as int;
        let d = info.y_stride as int;
        assert(h + 1 <= usize::MAX) by (nonlinear_arith)
            requires
                h * d + info.width <= usize::MAX,
                d >= info.width,
                info.width >= 1,
                h >= 0,
        ;
    }
    let overlaps = match rule {
        PaintRule::Band(_, _) => true,
        PaintRule::Stripe(s) => x0 + 2 > s.left && x0 < s.right && y0 + 2 > s.top && y0 < s.bottom,
    };
    if !overlaps || !block_inside_roi(roi, x0, y0, width, height) {
        return;
    }
    let y1 = y0 + 1;
    let x1 = x0 + 1;
    proof {
        lemma_pixel_index(info, x0 as int, y0 as int);
        lemma_pixel_index(info, x1 as int, y0 as int);
        lemma_pixel_index(info, x0 as int, y1 as int);
        lemma_pixel_index(info, x1 as int, y1 as int);
        lemma_chroma_index(info, bx as int, by as int);
        assert(y1 * info.y_stride == y0 * info.y_stride + info.y_stride) by (nonlinear_arith)
            requires
                y1 == y0 + 1,
        ;
    }
    let row0 = y0 * info.y_stride;
    let row1 = y1 * info.y_stride;
    let uv_row = by * info.uv_stride;
    let mut hit = false;
    let i00 = row0 + x0;
    if i00 < y_plane.len() && paints(rule, y_plane[i00], x0, y0) {
        y_plane[i00] = targets.y;
        hit = true;
    }
    let i10 = row0 + x1;
    if i10 < y_plane.len() && paints(rule, y_plane[i10], x1, y0) {
        y_plane[i10] = targets.y;
        hit = true;
    }
    let i01 = row1 + x0;
    if i01 < y_plane.len() && paints(rule, y_plane[i01], x0, y1) {
        y_plane[i01] = targets.y;
        hit = true;
    }
    let i11 = row1 + x1;
    if i11 < y_plane.len() && paints(rule, y_plane[i11], x1, y1) {
        y_plane[i11] = targets.y;
        hit = true;
    }
    let marked = match rule {
        PaintRule::Band(_, _) => hit,
        PaintRule::Stripe(_) => true,
    };
    assert(marked == block_marked(info, roi, rule, y_old, bx as int, by as int));
    if marked {
        let uv_index = uv_row + bx * 2;
        if uv_index + 1 < uv_plane.len() {
            uv_plane[uv_index] = targets.u;
            uv_plane[uv_index + 1] = targets.v;
        }
    }
    proof {
        assert forall|i: int| 0 <= i < y_old.len() implies #[trigger] y_plane@[i] == (if info.is_pixel(i)
            && info.col(i) / 2 == bx && info.row(i) / 2 == by && pixel_painted(
            info,
            roi,
            rule,
            y_old,
            i,
        ) {
            targets.y
        } else {
            y_old[i]
        }) by {
            if info.is_pixel(i) && info.col(i) / 2 == bx && info.row(i) / 2 == by {
                lemma_pixel_decompose(info, i);
            }
        }
        assert forall|j: int| 0 <= j < uv_old.len() implies #[trigger] uv_plane@[j] == (if info.uv_stride
            > 0 && info.chroma_block(j) == (bx as int, by as int) && chroma_painted(
            info,
            roi,
            rule,
            y_old,
            uv_old.len() as int,
            j,
        ) {
            chroma_value(info, targets, j)
        } else {
            uv_old[j]
        }) by {
            if info.chroma_block(j) == (bx as int, by as int) {
                lemma_chroma_decompose(info, j);
            }
        }
    }
}

/// Whether luma byte `i` belongs to a block before (`bx`, `by`) in row
/// order.
pub open spec fn luma_done(info: Nv12FrameInfo, i: int, bx: int, by: int) -> bool {
    info.row(i) / 2 < by || (info.row(i) / 2 == by && info.col(i) / 2 < bx)
}

/// Whether chroma byte `j` belongs to a block before (`bx`, `by`) in row
/// order.
pub open spec fn chroma_done(info: Nv12FrameInfo, j: int, bx: int, by: int) -> bool {
    info.chroma_block(j).1 < by || (info.chroma_block(j).1 == by && info.chroma_block(j).0 < bx)
}

/// The planes after the blocks before (`bx`, `by`) were painted.
pub open spec fn paint_progress(
    info: Nv12FrameInfo,
    roi: RoiBounds,
    rule: PaintRule,
    targets: LumaTargets,
    y_old: Seq<u8>,
    uv_old: Seq<u8>,
    y_now: Seq<u8>,
    uv_now: Seq<u8>,
    bx: int,
    by: int,
) -> bool {
    &&& y_now.len() == y_old.len()
    &&& uv_now.len() == uv_old.len()
    &&& forall|i: int|
        0 <= i < y_old.len() ==> #[trigger] y_now[i] == (if pixel_painted(info, roi, rule, y_old, i)
            && luma_done(info, i, bx, by) {
            targets.y
        } else {
            y_old[i]
        })
    &&& forall|j: int|
        0 <= j < uv_old.len() ==> #[trigger] uv_now[j] == (if chroma_painted(
            info,
            roi,
            rule,
            y_old,
            uv_old.len() as int,
            j,
        ) && chroma_done(info, j, bx, by) {
            chroma_value(info, targets, j)
        } else {
            uv_old[j]
        })
}

/// Painting block (`bx`, `by`) advances the progress by one block.
proof fn lemma_paint_step(
    info: Nv12FrameInfo,
    roi: RoiBounds,
    rule: PaintRule,
    targets: LumaTargets,
    y_old: Seq<u8>,
    uv_old: Seq<u8>,
    y_now: Seq<u8>,
    uv_now: Seq<u8>,
    y_next: Seq<u8>,
    uv_next: Seq<u8>,
    bx: int,
    by: int,
)
    requires
        info.laid_out(),
        0 <= bx < info.blocks_w(),
        0 <= by < info.blocks_h(),
        paint_progress(info, roi, rule, targets, y_old, uv_old, y_now, uv_now, bx, by),
        y_next.len() == y_now.len(),
        uv_next.len() == uv_now.len(),
        forall|i: int|
            0 <= i < y_now.len() ==> #[trigger] y_next[i] == (if info.is_pixel(i) && info.col(i) / 2
                == bx && info.row(i) / 2 == by && pixel_painted(info, roi, rule, y_now, i) {
                targets.y
            } else {
                y_now[i]
            }),
        forall|j: int|
            0 <= j < uv_now.len() ==> #[trigger] uv_next[j] == (if info.uv_stride > 0
                && info.chroma_block(j) == (bx, by) && chroma_painted(
                info,
                roi,
                rule,
                y_now,
                uv_now.len() as int,
                j,
            ) {
                chroma_value(info, targets, j)
            } else {
                uv_now[j]
            }),
    ensures
        paint_progress(info, roi, rule, targets, y_old, uv_old, y_next, uv_next, bx + 1, by),
{
    if block_selected(info, roi, bx, by) {
        lemma_pixel_index(info, 2 * bx, 2 * by);
        lemma_pixel_index(info, 2 * bx + 1, 2 * by);
        lemma_pixel_index(info, 2 * bx, 2 * by + 1);
        lemma_pixel_index(info, 2 * bx + 1, 2 * by + 1);
        assert(block_marked(info, roi, rule, y_now, bx, by) == block_marked(
            info,
            roi,
            rule,
            y_old,
            bx,
            by,
        ));
    }
    assert forall|i: int| 0 <= i < y_old.len() implies #[trigger] y_next[i] == (if pixel_painted(
        info,
        roi,
        rule,
        y_old,
        i,
    ) && luma_done(info, i, bx + 1, by) {
        targets.y
    } else {
        y_old[i]
    }) by {
        if info.is_pixel(i) && info.col(i) / 2 == bx && info.row(i) / 2 == by {
            assert(y_now[i] == y_old[i]);
        }
    }
    assert forall|j: int| 0 <= j < uv_old.len() implies #[trigger] uv_next[j] == (if chroma_painted(
        info,
        roi,
        rule,
        y_old,
        uv_old.len() as int,
        j,
    ) && chroma_done(info, j, bx + 1, by) {
        chroma_value(info, targets, j)
    } else {
        uv_old[j]
    }) by {
        if info.uv_stride > 0 && 0 <= j && info.chroma_block(j) == (bx, by) {
            assert(uv_now[j] == uv_old[j]);
        }
    }
}

/// Finishing a row of blocks is starting the next one.
proof fn lemma_row_complete(
    info: Nv12FrameInfo,
    roi: RoiBounds,
    rule: PaintRule,
    targets: LumaTargets,
    y_old: Seq<u8>,
    uv_old: Seq<u8>,
    y_now: Seq<u8>,
    uv_now: Seq<u8>,
    by: int,
)
    requires
        info.laid_out(),
        paint_progress(info, roi, rule, targets, y_old, uv_old, y_now, uv_now, info.blocks_w(), by),
    ensures
        paint_progress(info, roi, rule, targets, y_old, uv_old, y_now, uv_now, 0, by + 1),
{
    assert forall|i: int| 0 <= i < y_old.len() && pixel_painted(info, roi, rule, y_old, i) implies (
    luma_done(info, i, info.blocks_w(), by) <==> #[trigger] luma_done(info, i, 0, by + 1)) by {}
    assert forall|j: int|
        0 <= j < uv_old.len() && chroma_painted(
            info,
            roi,
            rule,
            y_old,
            uv_old.len() as int,
            j,
        ) implies (chroma_done(info, j, info.blocks_w(), by) <==> #[trigger] chroma_done(
        info,
        j,
        0,
        by + 1,
    )) by {}
}

/// Paints every block of the frame by `rule`, in row order.
fn paint_blocks(
    y_plane: &mut [u8],
    uv_plane: &mut [u8],
    info: Nv12FrameInfo,
    roi: RoiBounds,
    rule: PaintRule,
    targets: LumaTargets,
)
    requires
        info.laid_out(),
    ensures
        final(y_plane)@.len() == old(y_plane)@.len(),
        final(uv_plane)@.len() == old(uv_plane)@.len(),
        forall|i: int|
            0 <= i < old(y_plane)@.len() ==> #[trigger] final(y_plane)@[i] == (if pixel_painted(
                info,
                roi,
                rule,
                old(y_plane)@,
                i,
            ) {
                targets.y
            } else {
                old(y_plane)@[i]
            }),
        forall|j: int|
            0 <= j < old(uv_plane)@.len() ==> #[trigger] final(uv_plane)@[j] == (if chroma_painted(
                info,
                roi,
                rule,
                old(y_plane)@,
                old(uv_plane)@.len() as int,
                j,
            ) {
                chroma_value(info, targets, j)
            } else {
                old(uv_plane)@[j]
            }),
{
    let ghost y_old = y_plane@;
    let ghost uv_old = uv_plane@;
    let width = info.width as usize;
    let height = info.height as usize;
    let blocks_w = width / 2 + width % 2;
    let blocks_h = height / 2 + height % 2;
    let mut by: usize = 0;
    while by < blocks_h
        invariant
            info.laid_out(),
            blocks_w == info.blocks_w(),
            blocks_h == info.blocks_h(),
            0 <= by <= blocks_h,
            paint_progress(info, roi, rule, targets, y_old, uv_old, y_plane@, uv_plane@, 0, by as int),
        decreases blocks_h - by,
    {
        let mut bx: usize = 0;
        while bx < blocks_w
            invariant
                info.laid_out(),
                blocks_w == info.blocks_w(),
                blocks_h == info.blocks_h(),
                0 <= by < blocks_h,
                0 <= bx <= blocks_w,
                paint_progress(
                    info,
                    roi,
                    rule,
                    targets,
                    y_old,
                    uv_old,
                    y_plane@,
                    uv_plane@,
                    bx as int,
                    by as int,
                ),
            decreases blocks_w - bx,
        {
            let ghost y_now = y_plane@;
            let ghost uv_now = uv_plane@;
            paint_block(y_plane, uv_plane, info, roi, rule, targets, bx, by);
            proof {
                lemma_paint_step(
                    info,
                    roi,
                    rule,
                    targets,
                    y_old,
                    uv_old,
                    y_now,
                    uv_now,
                    y_plane@,
                    uv_plane@,
                    bx as int,
                    by as int,
                );
            }
            bx = bx + 1;
        }
        proof {
            lemma_row_complete(info, roi, rule, targets, y_old, uv_old, y_plane@, uv_plane@, by as int);
        }
        by = by + 1;
    }
    proof {
        assert forall|i: int| 0 <= i < y_old.len() && pixel_painted(info, roi, rule, y_old, i) implies #[trigger] luma_done(
            info,
            i,
            0,
            info.blocks_h(),
        ) by {}
        assert forall|j: int|
            0 <= j < uv_old.len() && chroma_painted(
                info,
                roi,
                rule,
                y_old,
                uv_old.len() as int,
                j,
            ) implies #[trigger] chroma_done(info, j, 0, info.blocks_h()) by {}
    }
}

/// Paints the luma-band highlight: inside the region, every pixel whose
/// luma lies in `target_min..=target_max` gets the highlight luma, and
/// every 2x2 block with such a pixel gets the highlight colour.
pub fn apply_luma_highlight(
    y_plane: &mut [u8],
    uv_plane: &mut [u8],
    info: Nv12FrameInfo,
    roi: RoiBounds,
    target_min: u8,
    target_max: u8,
    targets: LumaTargets,
)
    requires
        info.laid_out(),
    ensures
        final(y_plane)@.len() == old(y_plane)@.len(),
        final(uv_plane)@.len() == old(uv_plane)@.len(),
        forall|i: int|
            0 <= i < old(y_plane)@.len() ==> #[trigger] final(y_plane)@[i] == (if pixel_painted(
                info,
                roi,
                PaintRule::Band(target_min, target_max),
                old(y_plane)@,
                i,
            ) {
                targets.y
            } else {
                old(y_plane)@[i]
            }),
        forall|j: int|
            0 <= j < old(uv_plane)@.len() ==> #[trigger] final(uv_plane)@[j] == (if chroma_painted(
                info,
                roi,
                PaintRule::Band(target_min, target_max),
                old(y_plane)@,
                old(uv_plane)@.len() as int,
                j,
            ) {
                chroma_value(info, targets, j)
            } else {
                old(uv_plane)@[j]
            }),
{
    paint_blocks(y_plane, uv_plane, info, roi, PaintRule::Band(target_min, target_max), targets);
}

/// The four two-pixel stripes (top, bottom, left, right) that outline
/// `bounds` clipped to the frame; none when the clipped box is empty.
pub open spec fn outline_stripes(info: Nv12FrameInfo, bounds: RoiBounds) -> Seq<RoiBounds> {
    let left = min_usize(bounds.left, info.width as usize);
    let right = min_usize(bounds.right, info.width as usize);
    let top = min_usize(bounds.top, info.height as usize);
    let bottom = min_usize(bounds.bottom, info.height as usize);
    if right <= left || bottom <= top {
        Seq::empty()
    } else {
        let top_end = if top + 2 <= bottom {
            (top + 2) as usize
        } else {
            bottom
        };
        let bottom_start = if bottom >= top + 2 {
            (bottom - 2) as usize
        } else {
            top
        };
        let left_end = if left + 2 <= right {
            (left + 2) as usize
        } else {
            right
        };
        let right_start = if right >= left + 2 {
            (right - 2) as usize
        } else {
            left
        };
        seq![
            RoiBounds { left, top, right, bottom: top_end },
            RoiBounds { left, top: bottom_start, right, bottom },
            RoiBounds { left, top, right: left_end, bottom },
            RoiBounds { left: right_start, top, right, bottom },
        ]
    }
}

/// Whether some of the first `m` stripes paints luma byte `i`.
pub open spec fn outlined_pixel(
    info: Nv12FrameInfo,
    roi: RoiBounds,
    stripes: Seq<RoiBounds>,
    m: int,
    y_plane: Seq<u8>,
    i: int,
) -> bool {
    exists|k: int| 0 <= k < m && #[trigger] pixel_painted(info, roi, PaintRule::Stripe(stripes[k]), y_plane, i)
}

/// Whether some of the first `m` stripes paints chroma byte `j`.
pub open spec fn outlined_chroma(
    info: Nv12FrameInfo,
    roi: RoiBounds,
    stripes: Seq<RoiBounds>,
    m: int,
    y_plane: Seq<u8>,
    uv_len: int,
    j: int,
) -> bool {
    exists|k: int|
        0 <= k < m && #[trigger] chroma_painted(
            info,
            roi,
            PaintRule::Stripe(stripes[k]),
            y_plane,
            uv_len,
            j,
        )
}

/// The planes after the first `m` stripes were painted.
pub open spec fn outline_progress(
    info: Nv12FrameInfo,
    roi: RoiBounds,
    targets: LumaTargets,
    stripes: Seq<RoiBounds>,
    m: int,
    y_old: Seq<u8>,
    uv_old: Seq<u8>,
    y_now: Seq<u8>,
    uv_now: Seq<u8>,
) -> bool {
    &&& y_now.len() == y_old.len()
    &&& uv_now.len() == uv_old.len()
    &&& forall|i: int|
        0 <= i < y_old.len() ==> #[trigger] y_now[i] == (if outlined_pixel(info, roi, stripes, m, y_old, i) {
            targets.y
        } else {
            y_old[i]
        })
    &&& forall|j: int|
        0 <= j < uv_old.len() ==> #[trigger] uv_now[j] == (if outlined_chroma(
            info,
            roi,
            stripes,
            m,
            y_old,
            uv_old.len() as int,
            j,
        ) {
            chroma_value(info, targets, j)
        } else {
            uv_old[j]
        })
}

/// Painting stripe `m` extends the progress to `m + 1` stripes.
proof fn lemma_outline_step(
    info: Nv12FrameInfo,
    roi: RoiBounds,
    targets: LumaTargets,
    stripes: Seq<RoiBounds>,
    m: int,
    y_old: Seq<u8>,
    uv_old: Seq<u8>,
    y_now: Seq<u8>,
    uv_now: Seq<u8>,
    y_next: Seq<u8>,
    uv_next: Seq<u8>,
)
    requires
        0 <= m < stripes.len(),
        outline_progress(info, roi, targets, stripes, m, y_old, uv_old, y_now, uv_now),
        y_next.len() == y_now.len(),
        uv_next.len() == uv_now.len(),
        forall|i: int|
            0 <= i < y_now.len() ==> #[trigger] y_next[i] == (if pixel_painted(
                info,
                roi,
                PaintRule::Stripe(stripes[m]),
                y_now,
                i,
            ) {
                targets.y
            } else {
                y_now[i]
            }),
        forall|j: int|
            0 <= j < uv_now.len() ==> #[trigger] uv_next[j] == (if chroma_painted(
                info,
                roi,
                PaintRule::Stripe(stripes[m]),
                y_now,
                uv_now.len() as int,
                j,
            ) {
                chroma_value(info, targets, j)
            } else {
                uv_now[j]
            }),
    ensures
        outline_progress(info, roi, targets, stripes, m + 1, y_old, uv_old, y_next, uv_next),
{
    assert forall|i: int| 0 <= i < y_old.len() implies #[trigger] y_next[i] == (if outlined_pixel(
        info,
        roi,
        stripes,
        m + 1,
        y_old,
        i,
    ) {
        targets.y
    } else {
        y_old[i]
    }) by {
        assert(pixel_painted(info, roi, PaintRule::Stripe(stripes[m]), y_now, i) == pixel_painted(
            info,
            roi,
            PaintRule::Stripe(stripes[m]),
            y_old,
            i,
        ));
        if outlined_pixel(info, roi, stripes, m + 1, y_old, i) && !outlined_pixel(
            info,
            roi,
            stripes,
            m,
            y_old,
            i,
        ) {
            let k = choose|k: int|
                0 <= k < m + 1 && #[trigger] pixel_painted(
                    info,
                    roi,
                    PaintRule::Stripe(stripes[k]),
                    y_old,
                    i,
                );
            assert(k == m);
        }
        if pixel_painted(info, roi, PaintRule::Stripe(stripes[m]), y_old, i) {
            assert(outlined_pixel(info, roi, stripes, m + 1, y_old, i));
        }
        if outlined_pixel(info, roi, stripes, m, y_old, i) {
            let k = choose|k: int|
                0 <= k < m && #[trigger] pixel_painted(
                    info,
                    roi,
                    PaintRule::Stripe(stripes[k]),
                    y_old,
                    i,
                );
            assert(outlined_pixel(info, roi, stripes, m + 1, y_old, i));
        }
    }
    assert forall|j: int| 0 <= j < uv_old.len() implies #[trigger] uv_next[j] == (if outlined_chroma(
        info,
        roi,
        stripes,
        m + 1,
        y_old,
        uv_old.len() as int,
        j,
    ) {
        chroma_value(info, targets, j)
    } else {
        uv_old[j]
    }) by {
        let n = uv_old.len() as int;
        assert(chroma_painted(info, roi, PaintRule::Stripe(stripes[m]), y_now, n, j) == chroma_painted(
            info,
            roi,
            PaintRule::Stripe(stripes[m]),
            y_old,
            n,
            j,
        ));
        if outlined_chroma(info, roi, stripes, m + 1, y_old, n, j) && !outlined_chroma(
            info,
            roi,
            stripes,
            m,
            y_old,
            n,
            j,
        ) {
            let k = choose|k: int|
                0 <= k < m + 1 && #[trigger] chroma_painted(
                    info,
                    roi,
                    PaintRule::Stripe(stripes[k]),
                    y_old,
                    n,
                    j,
                );
            assert(k == m);
        }
        if chroma_painted(info, roi, PaintRule::Stripe(stripes[m]), y_old, n, j) {
            assert(outlined_chroma(info, roi, stripes, m + 1, y_old, n, j));
        }
        if outlined_chroma(info, roi, stripes, m, y_old, n, j) {
            let k = choose|k: int|
                0 <= k < m && #[trigger] chroma_painted(
                    info,
                    roi,
                    PaintRule::Stripe(stripes[k]),
                    y_old,
                    n,
                    j,
                );
            assert(outlined_chroma(info, roi, stripes, m + 1, y_old, n, j));
        }
    }
}

/// Outlines `bounds` (clipped to the frame) with two-pixel stripes, painting
/// only inside the region.
pub fn draw_nv12_rect_outline(
    y_plane: &mut [u8],
    uv_plane: &mut [u8],
    info: Nv12FrameInfo,
    bounds: RoiBounds,
    roi: RoiBounds,
    targets: LumaTargets,
)
    requires
        info.laid_out(),
    ensures
        ({
            let stripes = outline_stripes(info, bounds);
            outline_progress(
                info,
                roi,
                targets,
                stripes,
                stripes.len() as int,
                old(y_plane)@,
                old(uv_plane)@,
                final(y_plane)@,
                final(uv_plane)@,
            )
        }),
{
    let ghost y_old = y_plane@;
    let ghost uv_old = uv_plane@;
    let ghost stripes = outline_stripes(info, bounds);
    let width = info.width as usize;
    let height = info.height as usize;
    let thickness: usize = 2;
    let left = if bounds.left <= width {
        bounds.left
    } else {
        width
    };
    let right = if bounds.right <= width {
        bounds.right
    } else {
        width
    };
    let top = if bounds.top <= height {
        bounds.top
    } else {
        height
    };
    let bottom = if bounds.bottom <= height {
        bounds.bottom
    } else {
        height
    };
    if right <= left || bottom <= top {
        return;
    }
    proof {
        let h = info.height as int;
        let d = info.y_stride as int;
        let w = info.width as int;
        assert(h + 1 <= usize::MAX && w + 1 <= usize::MAX) by (nonlinear_arith)
            requires
                h * d + w <= usize::MAX,
                d >= w,
                w >= 1,
                h >= 1,
        ;
    }
    let top_end = if top + thickness <= bottom {
        top + thickness
    } else {
        bottom
    };
    let bottom_start = if bottom.saturating_sub(thickness) >= top {
        bottom.saturating_sub(thickness)
    } else {
        top
    };
    let left_end = if left + thickness <= right {
        left + thickness
    } else {
        right
    };
    let right_start = if right.saturating_sub(thickness) >= left {
        right.saturating_sub(thickness)
    } else {
        left
    };
    proof {
        assert(stripes.len() == 4);
        assert(stripes[0] == RoiBounds { left, top, right, bottom: top_end });
        assert(stripes[1] == RoiBounds { left, top: bottom_start, right, bottom });
        assert(stripes[2] == RoiBounds { left, top, right: left_end, bottom });
        assert(stripes[3] == RoiBounds { left: right_start, top, right, bottom });
        assert(!outlined_pixel(info, roi, stripes, 0, y_old, 0));
    }
    if top_end > top {
        let ghost y_now = y_plane@;
        let ghost uv_now = uv_plane@;
        paint_blocks(
            y_plane,
            uv_plane,
            info,
            roi,
            PaintRule::Stripe(RoiBounds { left, top, right, bottom: top_end }),
            targets,
        );
        proof {
            lemma_outline_step(info, roi, targets, stripes, 0, y_old, uv_old, y_now, uv_now, y_plane@, uv_plane@);
        }
    }
    if bottom > bottom_start {
        let ghost y_now = y_plane@;
        let ghost uv_now = uv_plane@;
        paint_blocks(
            y_plane,
            uv_plane,
            info,
            roi,
            PaintRule::Stripe(RoiBounds { left, top: bottom_start, right, bottom }),
            targets,
        );
        proof {
            lemma_outline_step(info, roi, targets, stripes, 1, y_old, uv_old, y_now, uv_now, y_plane@, uv_plane@);
        }
    }
    if left_end > left {
        let ghost y_now = y_plane@;
        let ghost uv_now = uv_plane@;
        paint_blocks(
            y_plane,
            uv_plane,
            info,
            roi,
            PaintRule::Stripe(RoiBounds { left, top, right: left_end, bottom }),
            targets,
        );
        proof {
            lemma_outline_step(info, roi, targets, stripes, 2, y_old, uv_old, y_now, uv_now, y_plane@, uv_plane@);
        }
    }
    if right > right_start {
        let ghost y_now = y_plane@;
        let ghost uv_now = uv_plane@;
        paint_blocks(
            y_plane,
            uv_plane,
            info,
            roi,
            PaintRule::Stripe(RoiBounds { left: right_start, top, right, bottom }),
            targets,
        );
        proof {
            lemma_outline_step(info, roi, targets, stripes, 3, y_old, uv_old, y_now, uv_now, y_plane@, uv_plane@);
        }
    }
}

/// Which overlays a frame gets.
#[derive(Clone, Copy, Debug, PartialEq, Eq, Structural)]
pub struct OverlayOptions {
    pub highlight: bool,
    pub validator: bool,
    pub grayscale: bool,
}

/// A chroma plane with every byte neutral (128): the grey view.
pub open spec fn neutral_chroma(uv: Seq<u8>) -> Seq<u8> {
    Seq::new(uv.len(), |j: int| 128u8)
}

/// The luma plane after painting by `rule`.
pub open spec fn painted_luma(
    info: Nv12FrameInfo,
    roi: RoiBounds,
    rule: PaintRule,
    targets: LumaTargets,
    y: Seq<u8>,
) -> Seq<u8> {
    Seq::new(
        y.len(),
        |i: int|
            if pixel_painted(info, roi, rule, y, i) {
                targets.y
            } else {
                y[i]
            },
    )
}

/// The chroma plane after painting by `rule` (judged on luma plane `y`).
pub open spec fn painted_chroma(
    info: Nv12FrameInfo,
    roi: RoiBounds,
    rule: PaintRule,
    targets: LumaTargets,
    y: Seq<u8>,
    uv: Seq<u8>,
) -> Seq<u8> {
    Seq::new(
        uv.len(),
        |j: int|
            if chroma_painted(info, roi, rule, y, uv.len() as int, j) {
                chroma_value(info, targets, j)
            } else {
                uv[j]
            },
    )
}

/// The luma plane after outlining `bounds`.
pub open spec fn outlined_luma(
    info: Nv12FrameInfo,
    roi: RoiBounds,
    bounds: RoiBounds,
    targets: LumaTargets,
    y: Seq<u8>,
) -> Seq<u8> {
    let stripes = outline_stripes(info, bounds);
    Seq::new(
        y.len(),
        |i: int|
            if outlined_pixel(info, roi, stripes, stripes.len() as int, y, i) {
                targets.y
            } else {
                y[i]
            },
    )
}

/// The chroma plane after outlining `bounds`.
pub open spec fn outlined_chroma_plane(
    info: Nv12FrameInfo,
    roi: RoiBounds,
    bounds: RoiBounds,
    targets: LumaTargets,
    y: Seq<u8>,
    uv: Seq<u8>,
) -> Seq<u8> {
    let stripes = outline_stripes(info, bounds);
    Seq::new(
        uv.len(),
        |j: int|
            if outlined_chroma(info, roi, stripes, stripes.len() as int, y, uv.len() as int, j) {
                chroma_value(info, targets, j)
            } else {
                uv[j]
            },
    )
}

/// The luma band around `target`: `delta` either way, saturating at 0 and
/// 255.
pub open spec fn band_of(target: u8, delta: u8) -> (u8, u8) {
    (
        if target >= delta {
            (target - delta) as u8
        } else {
            0u8
        },
        if target + delta <= 255 {
            (target + delta) as u8
        } else {
            255u8
        },
    )
}

/// The planes a frame shows: grey when asked; inside the region the luma
/// band highlighted when asked, then the detected box outlined when the
/// validator found one inside the region. A frame without area, or without
/// a region, gets at most the grey view.
pub open spec fn overlay_planes(
    info: Nv12FrameInfo,
    roi: Option<RoiBounds>,
    options: OverlayOptions,
    luma_target: u8,
    luma_delta: u8,
    targets: LumaTargets,
    detected: Option<RoiBounds>,
    y: Seq<u8>,
    uv: Seq<u8>,
) -> (Seq<u8>, Seq<u8>) {
    let uv1 = if options.grayscale {
        neutral_chroma(uv)
    } else {
        uv
    };
    if info.width == 0 || info.height == 0 {
        (y, uv)
    } else {
        match roi {
            None => (y, uv1),
            Some(r) => {
                let band = band_of(luma_target, luma_delta);
                let rule = PaintRule::Band(band.0, band.1);
                let y2 = if options.highlight {
                    painted_luma(info, r, rule, targets, y)
                } else {
                    y
                };
                let uv2 = if options.highlight {
                    painted_chroma(info, r, rule, targets, y, uv1)
                } else {
                    uv1
                };
                let outline = if options.validator {
                    match detected {
                        Some(d) => clamped(d, r),
                        None => None,
                    }
                } else {
                    None
                };
                match outline {
                    Some(b) => (
                        outlined_luma(info, r, b, targets, y2),
                        outlined_chroma_plane(info, r, b, targets, y2, uv2),
                    ),
                    None => (y2, uv2),
                }
            },
        }
    }
}

/// The part of `bounds` inside `roi`, when it is not empty.
pub open spec fn clamped(bounds: RoiBounds, roi: RoiBounds) -> Option<RoiBounds> {
    let left = max_usize(bounds.left, roi.left);
    let top = max_usize(bounds.top, roi.top);
    let right = min_usize(bounds.right, roi.right);
    let bottom = min_usize(bounds.bottom, roi.bottom);
    if right <= left || bottom <= top {
        None
    } else {
        Some(RoiBounds { left, top, right, bottom })
    }
}

/// Sets every chroma byte to neutral grey (128), leaving only luma.
pub fn fill_neutral_chroma(uv_plane: &mut [u8])
    ensures
        final(uv_plane)@ == neutral_chroma(old(uv_plane)@),
{
    let n = uv_plane.len();
    let mut j: usize = 0;
    while j < n
        invariant
            n == uv_plane@.len(),
            n == old(uv_plane)@.len(),
            0 <= j <= n,
            forall|k: int| 0 <= k < j ==> #[trigger] uv_plane@[k] == 128u8,
        decreases n - j,
    {
        uv_plane[j] = 128;
        j = j + 1;
    }
    assert(uv_plane@ =~= neutral_chroma(old(uv_plane)@));
}

/// The band of luma values the highlight paints.
pub fn luma_band(target: u8, delta: u8) -> (res: (u8, u8))
    ensures
        res == band_of(target, delta),
{
    (target.saturating_sub(delta), target.saturating_add(delta))
}

/// Paints one frame's overlays: the grey view, the luma-band highlight
/// inside the region, and the outline of the detected box. `roi` is the
/// region in pixels (none when it covers no pixel) and `detected` the box
/// the validator found, when it ran and found one.
pub fn apply_frame_overlay(
    y_plane: &mut [u8],
    uv_plane: &mut [u8],
    info: Nv12FrameInfo,
    roi: Option<RoiBounds>,
    options: OverlayOptions,
    luma_target: u8,
    luma_delta: u8,
    targets: LumaTargets,
    detected: Option<RoiBounds>,
)
    requires
        info.laid_out(),
    ensures
        (final(y_plane)@, final(uv_plane)@) == overlay_planes(
            info,
            roi,
            options,
            luma_target,
            luma_delta,
            targets,
            detected,
            old(y_plane)@,
            old(uv_plane)@,
        ),
{
    let ghost y_old = y_plane@;
    let ghost uv_old = uv_plane@;
    if info.width == 0 || info.height == 0 {
        return;
    }
    let roi_bounds = match roi {
        Some(r) => r,
        None => {
            if options.grayscale {
                fill_neutral_chroma(uv_plane);
            }
            return;
        },
    };
    let detection = if options.validator {
        detected
    } else {
        None
    };
    if options.grayscale {
        fill_neutral_chroma(uv_plane);
    }
    let ghost y1 = y_plane@;
    let ghost uv1 = uv_plane@;
    if options.highlight {
        let (target_min, target_max) = luma_band(luma_target, luma_delta);
        apply_luma_highlight(y_plane, uv_plane, info, roi_bounds, target_min, target_max, targets);
        proof {
            let rule = PaintRule::Band(target_min, target_max);
            assert(y_plane@ =~= painted_luma(info, roi_bounds, rule, targets, y1));
            assert(uv_plane@ =~= painted_chroma(info, roi_bounds, rule, targets, y1, uv1));
        }
    }
    let ghost y2 = y_plane@;
    let ghost uv2 = uv_plane@;
    match detection {
        Some(found) => {
            match clamp_bounds_to_roi(found, roi_bounds) {
                Some(bounds) => {
                    draw_nv12_rect_outline(y_plane, uv_plane, info, bounds, roi_bounds, targets);
                    proof {
                        assert(y_plane@ =~= outlined_luma(info, roi_bounds, bounds, targets, y2));
                        assert(uv_plane@ =~= outlined_chroma_plane(
                            info,
                            roi_bounds,
                            bounds,
                            targets,
                            y2,
                            uv2,
                        ));
                    }
                },
                None => {},
            }
        },
        None => {},
    }
}

/// Painting never reaches outside the region: every painted pixel lies in
/// it (and in the picture).
pub proof fn lemma_paint_stays_in_region(
    info: Nv12FrameInfo,
    roi: RoiBounds,
    rule: PaintRule,
    y_plane: Seq<u8>,
    i: int,
)
    requires
        pixel_painted(info, roi, rule, y_plane, i),
    ensures
        roi.left <= info.col(i) < roi.right,
        roi.top <= info.row(i) < roi.bottom,
        info.col(i) < info.width,
        info.row(i) < info.height,
{
}

/// An outline never reaches outside the box it outlines nor outside the
/// region.
pub proof fn lemma_outline_stays_in_box(
    info: Nv12FrameInfo,
    roi: RoiBounds,
    bounds: RoiBounds,
    y_plane: Seq<u8>,
    i: int,
)
    requires
        outlined_pixel(
            info,
            roi,
            outline_stripes(info, bounds),
            outline_stripes(info, bounds).len() as int,
            y_plane,
            i,
        ),
    ensures
        bounds.left <= info.col(i) < bounds.right,
        bounds.top <= info.row(i) < bounds.bottom,
        roi.left <= info.col(i) < roi.right,
        roi.top <= info.row(i) < roi.bottom,
{
    let stripes = outline_stripes(info, bounds);
    let k = choose|k: int|
        0 <= k < stripes.len() && #[trigger] pixel_painted(
            info,
            roi,
            PaintRule::Stripe(stripes[k]),
            y_plane,
            i,
        );
    lemma_paint_stays_in_region(info, roi, PaintRule::Stripe(stripes[k]), y_plane, i);
}

} // verus!
