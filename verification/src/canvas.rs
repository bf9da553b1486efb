//! The exposure canvas and the placement of an image on it.

use vstd::prelude::*;
use vstd::set_lib::*;

verus! {

/// Width of the exposure canvas in samples.
pub const RESOLUTION_X: usize = 3840;

/// Height of the exposure canvas in samples.
pub const RESOLUTION_Y: usize = 2400;

/// The canvas corner that an image is anchored at.
#[derive(Clone, Copy, Debug, PartialEq, Eq, Structural)]
pub enum Corner {
    NorthWest,
    NorthEast,
    SouthWest,
    SouthEast,
}

/// Number of samples of the canvas.
pub open spec fn canvas_len() -> int {
    RESOLUTION_X * RESOLUTION_Y
}

/// An image of `w` by `h` samples, moved inward from a corner by `px` columns
/// and `py` rows, lies within the canvas.
pub open spec fn fits(w: int, h: int, px: int, py: int) -> bool {
    &&& 0 <= w
    &&& 0 <= h
    &&& 0 <= px
    &&& 0 <= py
    &&& w + px <= RESOLUTION_X
    &&& h + py <= RESOLUTION_Y
}

/// Tells whether an image of the given size and padding lies within the
/// canvas.
pub fn fits_canvas(width: usize, height: usize, padding_x: usize, padding_y: usize) -> (ok: bool)
    ensures
        ok == fits(width as int, height as int, padding_x as int, padding_y as int),
{
    padding_x <= RESOLUTION_X && width <= RESOLUTION_X - padding_x && padding_y <= RESOLUTION_Y
        && height <= RESOLUTION_Y - padding_y
}

/// Canvas row that holds the first row of the image.
pub open spec fn origin_row(corner: Corner, h: int, py: int) -> int {
    match corner {
        Corner::NorthWest | Corner::NorthEast => py,
        Corner::SouthWest | Corner::SouthEast => RESOLUTION_Y - py - h,
    }
}

/// Canvas column that holds the first column of the image.
pub open spec fn origin_col(corner: Corner, w: int, px: int) -> int {
    match corner {
        Corner::NorthWest | Corner::SouthWest => px,
        Corner::NorthEast | Corner::SouthEast => RESOLUTION_X - px - w,
    }
}

/// Canvas index of the first sample of image row `i`.
pub open spec fn row_start(corner: Corner, w: int, h: int, px: int, py: int, i: int) -> int {
    let top = RESOLUTION_X * RESOLUTION_Y - py * RESOLUTION_X - h * RESOLUTION_X;
    match corner {
        Corner::NorthWest => py * RESOLUTION_X + i * RESOLUTION_X + px,
        Corner::NorthEast => py * RESOLUTION_X + (i + 1) * RESOLUTION_X - (px + w),
        Corner::SouthWest => top + i * RESOLUTION_X + px,
        Corner::SouthEast => top + (i + 1) * RESOLUTION_X - (px + w),
    }
}

/// The sample at canvas index `k` once the first `rows` rows of the image
/// have been copied: the image sample that lands there, or zero.
pub open spec fn sample_after(
    src: Seq<u8>,
    w: int,
    h: int,
    px: int,
    py: int,
    corner: Corner,
    rows: int,
    k: int,
) -> u8 {
    let i = k / (RESOLUTION_X as int) - origin_row(corner, h, py);
    let j = k % (RESOLUTION_X as int) - origin_col(corner, w, px);
    if 0 <= i < rows && 0 <= j < w {
        src[i * w + j]
    } else {
        0u8
    }
}

/// The canvas with the image `src` of `w` by `h` samples placed at `corner`,
/// `px` columns and `py` rows inward; every other sample is zero.
pub open spec fn placed(src: Seq<u8>, w: int, h: int, px: int, py: int, corner: Corner) -> Seq<u8> {
    Seq::new(canvas_len() as nat, |k: int| sample_after(src, w, h, px, py, corner, h, k))
}

/// The range of canvas indices that row `i` of the image is copied to: its
/// first index and the index after its last.
pub fn row_range(
    corner: Corner,
    orig_x: usize,
    orig_y: usize,
    padding_x: usize,
    padding_y: usize,
    i: usize,
) -> (range: (usize, usize))
    requires
        fits(orig_x as int, orig_y as int, padding_x as int, padding_y as int),
        i < orig_y,
    ensures
        range.0 == row_start(
            corner,
            orig_x as int,
            orig_y as int,
            padding_x as int,
            padding_y as int,
            i as int,
        ),
        range.0 == (origin_row(corner, orig_y as int, padding_y as int) + i) * RESOLUTION_X
            + origin_col(corner, orig_x as int, padding_x as int),
        range.1 == range.0 + orig_x,
        range.1 <= canvas_len(),
{
    match corner {
        Corner::NorthWest => {
            let start = padding_y * RESOLUTION_X + i * RESOLUTION_X + padding_x;
            (start, start + orig_x)
        },
        Corner::NorthEast => {
            let stop = padding_y * RESOLUTION_X + (i + 1) * RESOLUTION_X - padding_x;
            (stop - orig_x, stop)
        },
        Corner::SouthWest => {
            let offset_from_top = RESOLUTION_X * RESOLUTION_Y - padding_y * RESOLUTION_X - orig_y
                * RESOLUTION_X;
            let start = offset_from_top + i * RESOLUTION_X + padding_x;
            (start, start + orig_x)
        },
        Corner::SouthEast => {
            let offset_from_top = RESOLUTION_X * RESOLUTION_Y - padding_y * RESOLUTION_X - orig_y
                * RESOLUTION_X;
            let stop = offset_from_top + (i + 1) * RESOLUTION_X - padding_x;
            (stop - orig_x, stop)
        },
    }
}

/// Places a `orig_x` by `orig_y` image, given row by row in `bw_img`, on a
/// black canvas at `corner`, `padding_x` columns and `padding_y` rows inward.
/// Samples of `bw_img` beyond the image's last row are not used.
pub fn position_bw_image(
    bw_img: Vec<u8>,
    orig_x: usize,
    orig_y: usize,
    padding_x: usize,
    padding_y: usize,
    corner: Corner,
) -> (full_image: Vec<u8>)
    requires
        fits(orig_x as int, orig_y as int, padding_x as int, padding_y as int),
        bw_img.len() >= orig_x * orig_y,
    ensures
        full_image@ == placed(
            bw_img@,
            orig_x as int,
            orig_y as int,
            padding_x as int,
            padding_y as int,
            corner,
        ),
{
    let mut full_image = vec![0u8; RESOLUTION_X * RESOLUTION_Y];
    let mut taken: usize = 0;
    let mut i: usize = 0;
    while i < orig_y
        invariant
            fits(orig_x as int, orig_y as int, padding_x as int, padding_y as int),
            bw_img.len() >= orig_x * orig_y,
            i <= orig_y,
            taken == i * orig_x,
            full_image.len() == canvas_len(),
            forall|k: int|
                0 <= k < canvas_len() ==> #[trigger] full_image@[k] == sample_after(
                    bw_img@,
                    orig_x as int,
                    orig_y as int,
                    padding_x as int,
                    padding_y as int,
                    corner,
                    i as int,
                    k,
                ),
        decreases orig_y - i,
    {
        let (start, stop) = row_range(corner, orig_x, orig_y, padding_x, padding_y, i);
        proof {
            lemma_rows_within(i as int, orig_x as int, orig_y as int);
        }
        let mut j: usize = 0;
        while j < orig_x
            invariant
                fits(orig_x as int, orig_y as int, padding_x as int, padding_y as int),
                bw_img.len() >= orig_x * orig_y,
                i < orig_y,
                j <= orig_x,
                i * orig_x + orig_x <= orig_x * orig_y,
                taken == i * orig_x + j,
                full_image.len() == canvas_len(),
                start == (origin_row(corner, orig_y as int, padding_y as int) + i) * RESOLUTION_X
                    + origin_col(corner, orig_x as int, padding_x as int),
                stop == start + orig_x,
                stop <= canvas_len(),
                forall|k: int|
                    0 <= k < canvas_len() ==> #[trigger] full_image@[k] == (if start <= k < start
                        + j {
                        bw_img@[i * orig_x + (k - start)]
                    } else {
                        sample_after(
                            bw_img@,
                            orig_x as int,
                            orig_y as int,
                            padding_x as int,
                            padding_y as int,
                            corner,
                            i as int,
                            k,
                        )
                    }),
            decreases orig_x - j,
        {
            full_image.set(start + j, bw_img[taken]);
            taken = taken + 1;
            j = j + 1;
        }
        i = i + 1;
    }
    full_image
}

/// The rows before row `i + 1` take up no more samples than all `h` rows.
proof fn lemma_rows_within(i: int, w: int, h: int)
    requires
        0 <= i < h,
        0 <= w,
    ensures
        (i + 1) * w == i * w + w,
        (i + 1) * w <= w * h,
        0 <= i * w,
{
    assert((i + 1) * w == i * w + w) by (nonlinear_arith);
    assert((i + 1) * w <= w * h) by (nonlinear_arith)
        requires
            0 <= i < h,
            0 <= w,
    ;
    assert(0 <= i * w) by (nonlinear_arith)
        requires
            0 <= i,
            0 <= w,
    ;
}

/// Canvas index that receives the sample in column `j` of image row `i`.
pub open spec fn destination(
    corner: Corner,
    w: int,
    h: int,
    px: int,
    py: int,
    i: int,
    j: int,
) -> int {
    row_start(corner, w, h, px, py, i) + j
}

/// Canvas index `k` receives a sample of the image.
pub open spec fn covered(corner: Corner, w: int, h: int, px: int, py: int, k: int) -> bool {
    exists|i: int, j: int|
        0 <= i < h && 0 <= j < w && #[trigger] destination(corner, w, h, px, py, i, j) == k
}

/// The canvas indices that receive a sample of the image.
pub open spec fn footprint(corner: Corner, w: int, h: int, px: int, py: int) -> Set<int> {
    Set::new(|k: int| covered(corner, w, h, px, py, k))
}

/// The sample in column `j` of image row `i` lands inside the canvas, in
/// canvas row `origin_row + i` and canvas column `origin_col + j`.
pub proof fn lemma_destination_coordinates(
    corner: Corner,
    w: int,
    h: int,
    px: int,
    py: int,
    i: int,
    j: int,
)
    requires
        fits(w, h, px, py),
        0 <= i < h,
        0 <= j < w,
    ensures
        0 <= destination(corner, w, h, px, py, i, j) < canvas_len(),
        destination(corner, w, h, px, py, i, j) / (RESOLUTION_X as int) == origin_row(
            corner,
            h,
            py,
        ) + i,
        destination(corner, w, h, px, py, i, j) % (RESOLUTION_X as int) == origin_col(
            corner,
            w,
            px,
        ) + j,
{
}

/// A canvas index receives a sample of the image exactly when its row and
/// column lie in the rectangle that starts at the origin row and column.
pub proof fn lemma_covered_coordinates(corner: Corner, w: int, h: int, px: int, py: int, k: int)
    requires
        fits(w, h, px, py),
    ensures
        covered(corner, w, h, px, py, k) <==> {
            &&& 0 <= k / (RESOLUTION_X as int) - origin_row(corner, h, py) < h
            &&& 0 <= k % (RESOLUTION_X as int) - origin_col(corner, w, px) < w
        },
        covered(corner, w, h, px, py, k) ==> 0 <= k < canvas_len(),
{
    let i = k / (RESOLUTION_X as int) - origin_row(corner, h, py);
    let j = k % (RESOLUTION_X as int) - origin_col(corner, w, px);
    if covered(corner, w, h, px, py, k) {
        let (ci, cj) = choose|ci: int, cj: int|
            0 <= ci < h && 0 <= cj < w && #[trigger] destination(corner, w, h, px, py, ci, cj)
                == k;
        lemma_destination_coordinates(corner, w, h, px, py, ci, cj);
    }
    if 0 <= i < h && 0 <= j < w {
        lemma_destination_coordinates(corner, w, h, px, py, i, j);
        assert(destination(corner, w, h, px, py, i, j) == k);
    }
}

/// The canvas indices in `rows` canvas rows from row `top` on, and in `w`
/// columns from column `left` on.
spec fn block(top: int, left: int, w: int, rows: int) -> Set<int> {
    Set::new(
        |k: int|
            0 <= k / (RESOLUTION_X as int) - top < rows && 0 <= k % (RESOLUTION_X as int) - left
                < w,
    )
}

/// A block of `rows` rows and `w` columns holds `rows * w` indices.
proof fn lemma_block_len(top: int, left: int, w: int, rows: int)
    requires
        0 <= left,
        0 <= w,
        left + w <= RESOLUTION_X,
        0 <= rows,
    ensures
        block(top, left, w, rows).finite(),
        block(top, left, w, rows).len() == rows * w,
    decreases rows,
{
    if rows == 0 {
        assert(block(top, left, w, rows) =~= Set::empty());
        assert(rows * w == 0) by (nonlinear_arith)
            requires
                rows == 0,
        ;
    } else {
        let first = (top + rows - 1) * RESOLUTION_X + left;
        let row = set_int_range(first, first + w);
        let above = block(top, left, w, rows - 1);
        lemma_block_len(top, left, w, rows - 1);
        lemma_int_range(first, first + w);
        assert(block(top, left, w, rows) =~= above + row);
        assert(above.disjoint(row));
        lemma_set_disjoint_lens(above, row);
        assert(rows * w == (rows - 1) * w + w) by (nonlinear_arith);
    }
}

/// Where the image lands on the canvas: the canvas has its full size; each
/// sample of the image stands at the index that the formula of its corner
/// gives; distinct samples of the image stand at distinct indices, `w * h`
/// in all; and every index that receives no sample of the image holds zero.
pub proof fn lemma_placement_layout(
    src: Seq<u8>,
    w: int,
    h: int,
    px: int,
    py: int,
    corner: Corner,
)
    requires
        fits(w, h, px, py),
    ensures
        placed(src, w, h, px, py, corner).len() == canvas_len(),
        forall|i: int, j: int|
            0 <= i < h && 0 <= j < w ==> placed(src, w, h, px, py, corner)[#[trigger] destination(
                corner,
                w,
                h,
                px,
                py,
                i,
                j,
            )] == src[i * w + j],
        forall|i1: int, j1: int, i2: int, j2: int|
            0 <= i1 < h && 0 <= j1 < w && 0 <= i2 < h && 0 <= j2 < w && #[trigger] destination(
                corner,
                w,
                h,
                px,
                py,
                i1,
                j1,
            ) == #[trigger] destination(corner, w, h, px, py, i2, j2) ==> i1 == i2 && j1 == j2,
        footprint(corner, w, h, px, py).finite(),
        footprint(corner, w, h, px, py).len() == w * h,
        forall|k: int|
            0 <= k < canvas_len() && !covered(corner, w, h, px, py, k) ==> #[trigger] placed(
                src,
                w,
                h,
                px,
                py,
                corner,
            )[k] == 0,
{
    assert forall|i: int, j: int| 0 <= i < h && 0 <= j < w implies placed(
        src,
        w,
        h,
        px,
        py,
        corner,
    )[#[trigger] destination(corner, w, h, px, py, i, j)] == src[i * w + j] by {
        lemma_destination_coordinates(corner, w, h, px, py, i, j);
    }
    assert forall|i1: int, j1: int, i2: int, j2: int|
        0 <= i1 < h && 0 <= j1 < w && 0 <= i2 < h && 0 <= j2 < w && #[trigger] destination(
            corner,
            w,
            h,
            px,
            py,
            i1,
            j1,
        ) == #[trigger] destination(corner, w, h, px, py, i2, j2) implies i1 == i2 && j1
        == j2 by {
        lemma_destination_coordinates(corner, w, h, px, py, i1, j1);
        lemma_destination_coordinates(corner, w, h, px, py, i2, j2);
    }
    assert forall|k: int|
        0 <= k < canvas_len() && !covered(corner, w, h, px, py, k) implies #[trigger] placed(
        src,
        w,
        h,
        px,
        py,
        corner,
    )[k] == 0 by {
        lemma_covered_coordinates(corner, w, h, px, py, k);
    }
    let rectangle = block(origin_row(corner, h, py), origin_col(corner, w, px), w, h);
    assert forall|k: int| footprint(corner, w, h, px, py).contains(k) == rectangle.contains(
        k,
    ) by {
        lemma_covered_coordinates(corner, w, h, px, py, k);
    }
    assert(footprint(corner, w, h, px, py) =~= rectangle);
    lemma_block_len(origin_row(corner, h, py), origin_col(corner, w, px), w, h);
    assert(h * w == w * h) by (nonlinear_arith);
}

/// Placement reads the `w * h` samples of the image and nothing after them:
/// two sources that agree on those samples give the same canvas.
pub proof fn lemma_placement_reads_image_only(
    first: Seq<u8>,
    second: Seq<u8>,
    w: int,
    h: int,
    px: int,
    py: int,
    corner: Corner,
)
    requires
        fits(w, h, px, py),
        forall|n: int| 0 <= n < w * h ==> first[n] == second[n],
    ensures
        placed(first, w, h, px, py, corner) == placed(second, w, h, px, py, corner),
{
    assert forall|k: int| 0 <= k < canvas_len() implies sample_after(
        first,
        w,
        h,
        px,
        py,
        corner,
        h,
        k,
    ) == sample_after(second, w, h, px, py, corner, h, k) by {
        let i = k / (RESOLUTION_X as int) - origin_row(corner, h, py);
        let j = k % (RESOLUTION_X as int) - origin_col(corner, w, px);
        if 0 <= i < h && 0 <= j < w {
            lemma_rows_within(i, w, h);
        }
    }
    assert(placed(first, w, h, px, py, corner) =~= placed(second, w, h, px, py, corner));
}

/// Placement is a function of its inputs: two canvases made from the same
/// image, size, padding and corner are equal, sample for sample.
pub proof fn lemma_placement_deterministic(
    src: Seq<u8>,
    w: int,
    h: int,
    px: int,
    py: int,
    corner: Corner,
    first: Seq<u8>,
    second: Seq<u8>,
)
    requires
        first == placed(src, w, h, px, py, corner),
        second == placed(src, w, h, px, py, corner),
    ensures
        first == second,
        first.len() == second.len(),
        forall|k: int| 0 <= k < first.len() ==> first[k] == second[k],
{
}

} // verus!
