//! Cutting a source bitmap into the regions of a grid.

use vstd::prelude::*;
use crate::bitmap::{Bitmap, Pixels};
use crate::grid::{
    cell_rect, grid_fits, grid_of, height_before, is_cell, patch_index, patches_before,
    row_height, to_height, to_width, width_before, Patch,
};

verus! {

/// What the region in column `c` of row `r` holds of a source bitmap.
pub open spec fn crop_cell(grid: Seq<Seq<Patch>>, r: int, c: int, src: Pixels) -> Pixels {
    let rect = cell_rect(grid, r, c, src.width as int, src.height as int);
    src.crop(rect.x, rect.y, rect.w, rect.h)
}

/// The regions of row `r`, cut out of a source bitmap, from the left.
pub open spec fn sliced_row(grid: Seq<Seq<Patch>>, r: int, src: Pixels) -> Seq<Pixels> {
    Seq::new(grid[r].len(), |c: int| crop_cell(grid, r, c, src))
}

/// The regions of the first `r` rows, cut out of a source bitmap, row by row.
pub open spec fn sliced_before(grid: Seq<Seq<Patch>>, r: int, src: Pixels) -> Seq<Pixels>
    decreases r,
{
    if r <= 0 {
        Seq::empty()
    } else {
        sliced_before(grid, r - 1, src) + sliced_row(grid, r - 1, src)
    }
}

/// All regions of a grid, cut out of a source bitmap: row by row from the
/// top, and in each row from the left.
pub open spec fn sliced(grid: Seq<Seq<Patch>>, src: Pixels) -> Seq<Pixels> {
    sliced_before(grid, grid.len() as int, src)
}

/// What each bitmap of a sequence holds.
pub open spec fn pixels_of(bitmaps: Seq<Bitmap>) -> Seq<Pixels> {
    Seq::new(bitmaps.len(), |i: int| bitmaps[i]@)
}

/// The first `r` rows give as many patches as they have regions.
pub proof fn lemma_sliced_before_len(grid: Seq<Seq<Patch>>, r: int, src: Pixels)
    ensures
        sliced_before(grid, r, src).len() == patches_before(grid, r),
    decreases r,
{
    if r > 0 {
        lemma_sliced_before_len(grid, r - 1, src);
    }
}

/// The patch at a cell's place among the regions is what that cell holds of
/// the source.
pub proof fn lemma_sliced_index(grid: Seq<Seq<Patch>>, rows: int, r: int, c: int, src: Pixels)
    requires
        is_cell(grid, r, c),
        r < rows,
    ensures
        0 <= patch_index(grid, r, c) < sliced_before(grid, rows, src).len(),
        sliced_before(grid, rows, src)[patch_index(grid, r, c)] == crop_cell(grid, r, c, src),
    decreases rows,
{
    lemma_sliced_before_len(grid, rows, src);
    lemma_sliced_before_len(grid, rows - 1, src);
    crate::grid::lemma_patches_before_monotonic(grid, 0, r);
    crate::grid::lemma_patches_before_monotonic(grid, r + 1, rows);
    if r == rows - 1 {
        assert(sliced_row(grid, r, src)[c] == crop_cell(grid, r, c, src));
    } else {
        lemma_sliced_index(grid, rows - 1, r, c, src);
        crate::grid::lemma_patches_before_monotonic(grid, r + 1, rows - 1);
    }
}

/// Cuts a source bitmap into the regions of a grid. The cut starts at the
/// top left corner; after each region it moves right by the region's width,
/// and after each row it moves down by the height of the row's first region.
/// There is no result where a region leaves the source.
pub fn slice(patches: &Vec<Vec<Patch>>, texture: &Bitmap) -> (out: Option<Vec<Bitmap>>)
    ensures
        out is Some <==> grid_fits(
            grid_of(*patches),
            texture@.width as int,
            texture@.height as int,
        ),
        out matches Some(v) ==> pixels_of(v@) == sliced(grid_of(*patches), texture@),
{
    let total_width = texture.width();
    let total_height = texture.height();
    let ghost grid = grid_of(*patches);
    let ghost src = texture@;
    let ghost width = src.width as int;
    let ghost height = src.height as int;
    let mut out: Vec<Bitmap> = Vec::new();
    let mut accu_y: u32 = 0;
    let mut r: usize = 0;
    assert(pixels_of(out@) =~= sliced_before(grid, 0, src));
    while r < patches.len()
        invariant
            0 <= r <= patches.len(),
            grid == grid_of(*patches),
            src == texture@,
            width == src.width,
            height == src.height,
            total_width == width,
            total_height == height,
            accu_y == height_before(grid, r as int, height),
            accu_y <= height,
            forall|i: int, j: int|
                is_cell(grid, i, j) && i < r ==> (#[trigger] cell_rect(
                    grid,
                    i,
                    j,
                    width,
                    height,
                )).within(width, height),
            pixels_of(out@) == sliced_before(grid, r as int, src),
        decreases patches.len() - r,
    {
        let row = &patches[r];
        let mut accu_x: u32 = 0;
        let mut first_height: u32 = 0;
        let mut c: usize = 0;
        assert(pixels_of(out@) =~= sliced_before(grid, r as int, src) + sliced_row(
            grid,
            r as int,
            src,
        ).take(0));
        while c < row.len()
            invariant
                0 <= r < patches.len(),
                0 <= c <= row.len(),
                row@ == grid[r as int],
                grid == grid_of(*patches),
                src == texture@,
                width == src.width,
                height == src.height,
                total_width == width,
                total_height == height,
                accu_y == height_before(grid, r as int, height),
                accu_x == width_before(grid[r as int], c as int, width),
                accu_x <= width,
                first_height == (if c == 0 {
                    0
                } else {
                    row_height(grid[r as int], height)
                }),
                accu_y + first_height <= height,
                forall|i: int, j: int|
                    is_cell(grid, i, j) && (i < r || (i == r && j < c)) ==> (#[trigger] cell_rect(
                        grid,
                        i,
                        j,
                        width,
                        height,
                    )).within(width, height),
                pixels_of(out@) == sliced_before(grid, r as int, src) + sliced_row(
                    grid,
                    r as int,
                    src,
                ).take(c as int),
            decreases row.len() - c,
        {
            let cell = row[c];
            let w = to_width(cell.original_size, total_width);
            let h = to_height(cell.original_size, total_height);
            let ghost rect = cell_rect(grid, r as int, c as int, width, height);
            assert(is_cell(grid, r as int, c as int));
            assert(rect.x == accu_x && rect.y == accu_y && rect.w == w && rect.h == h);
            if w < 0 || h < 0 {
                assert(!rect.within(width, height));
                return None;
            }
            let piece = match texture.crop(accu_x, accu_y, w as u32, h as u32) {
                Some(piece) => piece,
                None => {
                    assert(!rect.within(width, height));
                    return None;
                },
            };
            proof {
                let done = sliced_row(grid, r as int, src);
                assert(done.take(c as int + 1) =~= done.take(c as int).push(
                    crop_cell(grid, r as int, c as int, src),
                ));
                assert(pixels_of(out@.push(piece)) =~= pixels_of(out@).push(piece@));
            }
            out.push(piece);
            if c == 0 {
                first_height = h as u32;
            }
            accu_x = accu_x + w as u32;
            c = c + 1;
        }
        proof {
            let done = sliced_row(grid, r as int, src);
            assert(done.take(c as int) =~= done);
        }
        accu_y = accu_y + first_height;
        r = r + 1;
    }
    Some(out)
}

} // verus!
