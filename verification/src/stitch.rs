//! Putting the patches of a nine-patch back where they were cut from.

use vstd::prelude::*;
use vstd::pervasive::unreached;
use crate::bitmap::{lemma_byte_of_pixel, lemma_crop_byte_at, Bitmap, Pixels};
use crate::grid::{
    cell_rect, comes_before, grid_of, height_before, is_cell, lemma_patch_index_bounds,
    patch_count, patch_index, patches_before, row_height, width_before, Patch,
};
use crate::ninepatch::{slicing_wf, NinePatch};
use crate::slicer::{crop_cell, lemma_sliced_before_len, lemma_sliced_index, pixels_of, sliced};

verus! {

/// A region that comes before `(r, c)` holds the pixel in column `x` of
/// scanline `y`.
pub open spec fn covered_before(
    grid: Seq<Seq<Patch>>,
    width: int,
    height: int,
    r: int,
    c: int,
    x: int,
    y: int,
) -> bool {
    exists|r2: int, c2: int|
        #[trigger] is_cell(grid, r2, c2) && comes_before(r2, c2, r, c) && cell_rect(
            grid,
            r2,
            c2,
            width,
            height,
        ).has_pixel(x, y)
}

/// A region of the grid holds the pixel in column `x` of scanline `y`.
pub open spec fn covered(grid: Seq<Seq<Patch>>, width: int, height: int, x: int, y: int) -> bool {
    covered_before(grid, width, height, grid.len() as int, 0, x, y)
}

/// The regions of the grid leave no pixel of the source out.
pub open spec fn covers(grid: Seq<Seq<Patch>>, width: int, height: int) -> bool {
    forall|x: int, y: int|
        0 <= x < width && 0 <= y < height ==> #[trigger] covered(grid, width, height, x, y)
}

/// The patches that come before `(r, c)`, put back where they were cut
/// from, on a bitmap of the size of the source whose bytes were all zero.
pub open spec fn stitched_before(grid: Seq<Seq<Patch>>, src: Pixels, r: int, c: int) -> Pixels {
    Pixels {
        width: src.width,
        height: src.height,
        bytes: Seq::new(
            src.bytes.len(),
            |i: int|
                if covered_before(
                    grid,
                    src.width as int,
                    src.height as int,
                    r,
                    c,
                    src.column_of(i),
                    src.scanline_of(i),
                ) {
                    src.bytes[i]
                } else {
                    0u8
                },
        ),
    }
}

/// All patches of a source, put back where they were cut from: a bitmap of
/// the size of the source that holds what the source holds wherever a
/// region of the grid lies, and zero elsewhere.
pub open spec fn stitched(grid: Seq<Seq<Patch>>, src: Pixels) -> Pixels {
    stitched_before(grid, src, grid.len() as int, 0)
}

/// Cutting a source and putting the patches back gives the source again,
/// pixel for pixel, as long as the regions of the grid leave no pixel out.
pub proof fn lemma_round_trip(grid: Seq<Seq<Patch>>, src: Pixels)
    requires
        src.wf(),
        covers(grid, src.width as int, src.height as int),
    ensures
        stitched(grid, src) == src,
{
    let width = src.width as int;
    let height = src.height as int;
    assert forall|i: int| 0 <= i < src.bytes.len() implies stitched(grid, src).bytes[i]
        == src.bytes[i] by {
        lemma_byte_of_pixel(src, i);
        assert(covered(grid, width, height, src.column_of(i), src.scanline_of(i)));
    }
    assert(stitched(grid, src).bytes =~= src.bytes);
}

/// What the regions before the first cell of a row hold is what those
/// before the end of the row above hold.
proof fn lemma_covered_before_next_row(
    grid: Seq<Seq<Patch>>,
    width: int,
    height: int,
    r: int,
    x: int,
    y: int,
)
    requires
        0 <= r < grid.len(),
    ensures
        covered_before(grid, width, height, r + 1, 0, x, y) <==> covered_before(
            grid,
            width,
            height,
            r,
            grid[r].len() as int,
            x,
            y,
        ),
{
    if covered_before(grid, width, height, r + 1, 0, x, y) {
        let (r2, c2) = choose|r2: int, c2: int|
            #[trigger] is_cell(grid, r2, c2) && comes_before(r2, c2, r + 1, 0) && cell_rect(
                grid,
                r2,
                c2,
                width,
                height,
            ).has_pixel(x, y);
        assert(is_cell(grid, r2, c2) && comes_before(r2, c2, r, grid[r].len() as int));
    }
    if covered_before(grid, width, height, r, grid[r].len() as int, x, y) {
        let (r2, c2) = choose|r2: int, c2: int|
            #[trigger] is_cell(grid, r2, c2) && comes_before(r2, c2, r, grid[r].len() as int)
                && cell_rect(grid, r2, c2, width, height).has_pixel(x, y);
        assert(is_cell(grid, r2, c2) && comes_before(r2, c2, r + 1, 0));
    }
}

/// What the regions before the cell after `(r, c)` hold is what those
/// before `(r, c)` hold, and what `(r, c)` holds.
proof fn lemma_covered_before_next_cell(
    grid: Seq<Seq<Patch>>,
    width: int,
    height: int,
    r: int,
    c: int,
    x: int,
    y: int,
)
    requires
        is_cell(grid, r, c),
    ensures
        covered_before(grid, width, height, r, c + 1, x, y) <==> covered_before(
            grid,
            width,
            height,
            r,
            c,
            x,
            y,
        ) || cell_rect(grid, r, c, width, height).has_pixel(x, y),
{
    if covered_before(grid, width, height, r, c + 1, x, y) {
        let (r2, c2) = choose|r2: int, c2: int|
            #[trigger] is_cell(grid, r2, c2) && comes_before(r2, c2, r, c + 1) && cell_rect(
                grid,
                r2,
                c2,
                width,
                height,
            ).has_pixel(x, y);
        if !(r2 == r && c2 == c) {
            assert(is_cell(grid, r2, c2) && comes_before(r2, c2, r, c));
        }
    }
    if covered_before(grid, width, height, r, c, x, y) {
        let (r2, c2) = choose|r2: int, c2: int|
            #[trigger] is_cell(grid, r2, c2) && comes_before(r2, c2, r, c) && cell_rect(
                grid,
                r2,
                c2,
                width,
                height,
            ).has_pixel(x, y);
        assert(is_cell(grid, r2, c2) && comes_before(r2, c2, r, c + 1));
    }
    if cell_rect(grid, r, c, width, height).has_pixel(x, y) {
        assert(is_cell(grid, r, c) && comes_before(r, c, r, c + 1));
    }
}

/// Painting the patch of `(r, c)` where it was cut from, over the patches
/// that come before it, gives the patches that come before the next cell.
proof fn lemma_paint_next(grid: Seq<Seq<Patch>>, src: Pixels, r: int, c: int)
    requires
        slicing_wf(grid, src),
        is_cell(grid, r, c),
    ensures
        ({
            let rect = cell_rect(grid, r, c, src.width as int, src.height as int);
            stitched_before(grid, src, r, c).painted(crop_cell(grid, r, c, src), rect.x, rect.y)
                == stitched_before(grid, src, r, c + 1)
        }),
{
    let width = src.width as int;
    let height = src.height as int;
    let rect = cell_rect(grid, r, c, width, height);
    let patch = crop_cell(grid, r, c, src);
    let canvas = stitched_before(grid, src, r, c);
    let painted = canvas.painted(patch, rect.x, rect.y);
    let wanted = stitched_before(grid, src, r, c + 1);
    assert(rect.within(width, height));
    assert forall|i: int| 0 <= i < src.bytes.len() implies painted.bytes[i] == wanted.bytes[i] by {
        lemma_byte_of_pixel(src, i);
        let x = src.column_of(i);
        let y = src.scanline_of(i);
        assert(canvas.column_of(i) == x && canvas.scanline_of(i) == y);
        lemma_covered_before_next_cell(grid, width, height, r, c, x, y);
        if rect.has_pixel(x, y) {
            lemma_crop_byte_at(src, rect.x, rect.y, rect.w, rect.h, x - rect.x, y - rect.y, i % 4);
        }
    }
    assert(painted.bytes =~= wanted.bytes);
}

impl<'a> NinePatch<'a> {
    /// Puts the patches back where they were cut from, on a bitmap of the
    /// size of the source whose bytes are zero wherever no patch lies.
    pub fn stitch(&self) -> (whole: Bitmap)
        ensures
            whole@ == stitched(self@.grid, self@.pixels),
    {
        let patches = self.patches();
        let textures = self.splitted_texture();
        let (total_width, total_height) = self.texture_size();
        let ghost grid = self@.grid;
        let ghost src = self@.pixels;
        let ghost width = src.width as int;
        let ghost height = src.height as int;
        proof {
            lemma_sliced_before_len(grid, grid.len() as int, src);
        }
        let count: usize = textures.len();
        assert(pixels_of(textures@).len() == count);
        let mut canvas = match Bitmap::blank(total_width, total_height) {
            Some(canvas) => canvas,
            None => unreached(),
        };
        assert(canvas@.bytes =~= stitched_before(grid, src, 0, 0).bytes);
        let mut accu_y: u32 = 0;
        let mut n: usize = 0;
        let mut r: usize = 0;
        while r < patches.len()
            invariant
                0 <= r <= patches.len(),
                grid == grid_of(*patches),
                slicing_wf(grid, src),
                width == src.width,
                height == src.height,
                pixels_of(textures@) == sliced(grid, src),
                patch_count(grid) == count,
                count == textures@.len(),
                n == patches_before(grid, r as int),
                accu_y == height_before(grid, r as int, height),
                accu_y <= height,
                canvas@ == stitched_before(grid, src, r as int, 0),
            decreases patches.len() - r,
        {
            let row = &patches[r];
            let mut accu_x: u32 = 0;
            let mut first_height: u32 = 0;
            let mut c: usize = 0;
            while c < row.len()
                invariant
                    0 <= r < patches.len(),
                    0 <= c <= row.len(),
                    row@ == grid[r as int],
                    grid == grid_of(*patches),
                    slicing_wf(grid, src),
                    width == src.width,
                    height == src.height,
                    pixels_of(textures@) == sliced(grid, src),
                    patch_count(grid) == count,
                    count == textures@.len(),
                    n == patch_index(grid, r as int, c as int),
                    accu_y == height_before(grid, r as int, height),
                    accu_x == width_before(grid[r as int], c as int, width),
                    first_height == (if c == 0 {
                        0
                    } else {
                        row_height(grid[r as int], height)
                    }),
                    accu_y + first_height <= height,
                    canvas@ == stitched_before(grid, src, r as int, c as int),
                decreases row.len() - c,
            {
                proof {
                    assert(is_cell(grid, r as int, c as int));
                    lemma_patch_index_bounds(grid, r as int, c as int);
                    lemma_sliced_index(grid, grid.len() as int, r as int, c as int, src);
                    assert(pixels_of(textures@)[n as int] == textures@[n as int]@);
                    assert(cell_rect(grid, r as int, c as int, width, height).within(width, height));
                    lemma_paint_next(grid, src, r as int, c as int);
                }
                let patch = &textures[n];
                canvas.paint(patch, accu_x, accu_y);
                if c == 0 {
                    first_height = patch.height();
                }
                accu_x = accu_x + patch.width();
                n = n + 1;
                c = c + 1;
            }
            proof {
                assert(canvas@.bytes =~= stitched_before(grid, src, r as int + 1, 0).bytes) by {
                    assert forall|i: int| 0 <= i < src.bytes.len() implies stitched_before(
                        grid,
                        src,
                        r as int,
                        c as int,
                    ).bytes[i] == stitched_before(grid, src, r as int + 1, 0).bytes[i] by {
                        lemma_covered_before_next_row(
                            grid,
                            width,
                            height,
                            r as int,
                            src.column_of(i),
                            src.scanline_of(i),
                        );
                    }
                }
            }
            accu_y = accu_y + first_height;
            r = r + 1;
        }
        canvas
    }
}

} // verus!
