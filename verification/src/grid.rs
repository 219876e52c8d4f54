//! The grid of regions that a nine-patch is cut along.

use vstd::prelude::*;

verus! {

/// Tag that names a content slot.
pub type ContentTag = u32;

/// Tag of the content slot of a grid that has a single one.
pub const DEFAULT_CONTENT: ContentTag = 0;

/// Size of a region in the source bitmap.
///
/// A positive component is a pixel count. A component that is zero or
/// negative stands for the whole extent of the source in that axis, less the
/// component's absolute value.
#[derive(Clone, Copy, Debug, PartialEq, Eq, Structural)]
pub struct RegionSize {
    pub width: i32,
    pub height: i32,
}

/// How a region is sized when it is laid out.
#[derive(Clone, Copy, Debug, PartialEq, Eq, Structural)]
pub enum SizeRule {
    /// A pixel count; `Fixed(0)` keeps the size the region has in the source.
    Fixed(u32),
    /// A share of the space that is left over, in percent.
    ProportionOfContainer(u32),
    /// An equal share of the space that is left over.
    GrowToFill,
}

/// Pixel extent of a region along one axis of a source that is `total` long.
pub open spec fn resolved_extent(component: int, total: int) -> int {
    if component > 0 {
        component
    } else {
        total + component
    }
}

impl RegionSize {
    pub fn new(width: i32, height: i32) -> (size: RegionSize)
        ensures
            size == (RegionSize { width, height }),
    {
        RegionSize { width, height }
    }

    /// Pixel width of the region in a source that is `total` pixels wide.
    pub open spec fn resolved_width(self, total: int) -> int {
        resolved_extent(self.width as int, total)
    }

    /// Pixel height of the region in a source that is `total` pixels high.
    pub open spec fn resolved_height(self, total: int) -> int {
        resolved_extent(self.height as int, total)
    }
}

/// Pixel width of a region in a source that is `total` pixels wide.
pub fn to_width(patch: RegionSize, total: u32) -> (width: i64)
    ensures
        width == patch.resolved_width(total as int),
{
    if patch.width > 0 {
        patch.width as i64
    } else {
        total as i64 + patch.width as i64
    }
}

/// Pixel height of a region in a source that is `total` pixels high.
pub fn to_height(patch: RegionSize, total: u32) -> (height: i64)
    ensures
        height == patch.resolved_height(total as int),
{
    if patch.height > 0 {
        patch.height as i64
    } else {
        total as i64 + patch.height as i64
    }
}

/// One region of the grid: its size in the source bitmap, how it is sized
/// when laid out, and the content slot it offers, if any.
#[derive(Clone, Copy, Debug, PartialEq, Eq, Structural)]
pub struct Patch {
    /// Size of the region in the source bitmap.
    pub original_size: RegionSize,
    /// Width of the region when laid out.
    pub target_width: SizeRule,
    /// Height of the region when laid out.
    pub target_height: SizeRule,
    /// Tag of the content slot that the region offers.
    pub content: Option<ContentTag>,
}

/// A rectangle of pixels: its left column, its top scanline, its width and
/// its height.
pub struct Rect {
    pub x: int,
    pub y: int,
    pub w: int,
    pub h: int,
}

impl Rect {
    /// The rectangle lies within a bitmap of `width` by `height` pixels.
    pub open spec fn within(self, width: int, height: int) -> bool {
        &&& 0 <= self.x
        &&& 0 <= self.y
        &&& 0 <= self.w
        &&& 0 <= self.h
        &&& self.x + self.w <= width
        &&& self.y + self.h <= height
    }

    /// The pixel in column `x` of scanline `y` lies in the rectangle.
    pub open spec fn has_pixel(self, x: int, y: int) -> bool {
        &&& self.x <= x < self.x + self.w
        &&& self.y <= y < self.y + self.h
    }
}

/// The rows of a grid as sequences.
pub open spec fn grid_of(patches: Vec<Vec<Patch>>) -> Seq<Seq<Patch>> {
    Seq::new(patches@.len(), |r: int| patches@[r]@)
}

/// `(r, c)` names a cell of the grid.
pub open spec fn is_cell(grid: Seq<Seq<Patch>>, r: int, c: int) -> bool {
    0 <= r < grid.len() && 0 <= c < grid[r].len()
}

/// `(r2, c2)` comes before `(r, c)` when the cells are counted row by row
/// from the top, and in each row from the left.
pub open spec fn comes_before(r2: int, c2: int, r: int, c: int) -> bool {
    r2 < r || (r2 == r && c2 < c)
}

/// Width that the first `c` regions of a row take together.
pub open spec fn width_before(row: Seq<Patch>, c: int, width: int) -> int
    decreases c,
{
    if c <= 0 {
        0
    } else {
        width_before(row, c - 1, width) + row[c - 1].original_size.resolved_width(width)
    }
}

/// Height of a row: that of its first region. A row without regions has no
/// height.
pub open spec fn row_height(row: Seq<Patch>, height: int) -> int {
    if row.len() == 0 {
        0
    } else {
        row[0].original_size.resolved_height(height)
    }
}

/// Height that the first `r` rows of a grid take together.
pub open spec fn height_before(grid: Seq<Seq<Patch>>, r: int, height: int) -> int
    decreases r,
{
    if r <= 0 {
        0
    } else {
        height_before(grid, r - 1, height) + row_height(grid[r - 1], height)
    }
}

/// Number of regions in the first `r` rows of a grid.
pub open spec fn patches_before(grid: Seq<Seq<Patch>>, r: int) -> int
    decreases r,
{
    if r <= 0 {
        0
    } else {
        patches_before(grid, r - 1) + grid[r - 1].len()
    }
}

/// Number of regions in a grid.
pub open spec fn patch_count(grid: Seq<Seq<Patch>>) -> int {
    patches_before(grid, grid.len() as int)
}

/// Place of the region in column `c` of row `r`, counting row by row from
/// the top and in each row from the left.
pub open spec fn patch_index(grid: Seq<Seq<Patch>>, r: int, c: int) -> int {
    patches_before(grid, r) + c
}

/// Pixels that the region in column `c` of row `r` covers in a source of
/// `width` by `height` pixels: it starts where the regions to its left end,
/// below the rows above it.
pub open spec fn cell_rect(grid: Seq<Seq<Patch>>, r: int, c: int, width: int, height: int) -> Rect {
    Rect {
        x: width_before(grid[r], c, width),
        y: height_before(grid, r, height),
        w: grid[r][c].original_size.resolved_width(width),
        h: grid[r][c].original_size.resolved_height(height),
    }
}

/// Every region of the grid lies within a source of `width` by `height`
/// pixels.
pub open spec fn grid_fits(grid: Seq<Seq<Patch>>, width: int, height: int) -> bool {
    forall|r: int, c: int|
        is_cell(grid, r, c) ==> (#[trigger] cell_rect(grid, r, c, width, height)).within(width, height)
}

/// Region in column `c` of row `r` of the grid that the four margins give.
/// The outer columns are as wide as the left and right margins and the outer
/// rows as high as the top and bottom margins, and they keep that size; the
/// middle column and the middle row take what the margins leave of the
/// source, and grow. The region in the middle offers the content slot.
pub open spec fn margin_cell(
    top: u32,
    bottom: u32,
    left: u32,
    right: u32,
    content: ContentTag,
    r: int,
    c: int,
) -> Patch {
    Patch {
        original_size: RegionSize {
            width: (if c == 0 {
                left as int
            } else if c == 1 {
                -left - right
            } else {
                right as int
            }) as i32,
            height: (if r == 0 {
                top as int
            } else if r == 1 {
                -top - bottom
            } else {
                bottom as int
            }) as i32,
        },
        target_width: if c == 1 {
            SizeRule::GrowToFill
        } else {
            SizeRule::Fixed(0)
        },
        target_height: if r == 1 {
            SizeRule::GrowToFill
        } else {
            SizeRule::Fixed(0)
        },
        content: if r == 1 && c == 1 {
            Some(content)
        } else {
            None
        },
    }
}

/// The grid of three rows of three regions that the four margins give.
pub open spec fn margin_grid(top: u32, bottom: u32, left: u32, right: u32, content: ContentTag) -> Seq<
    Seq<Patch>,
> {
    Seq::new(3, |r: int| Seq::new(3, |c: int| margin_cell(top, bottom, left, right, content, r, c)))
}

/// The number of regions grows with the number of rows.
pub proof fn lemma_patches_before_monotonic(grid: Seq<Seq<Patch>>, a: int, b: int)
    requires
        a <= b,
    ensures
        0 <= patches_before(grid, a) <= patches_before(grid, b),
    decreases b,
{
    if b <= 0 {
    } else if a == b {
        if a > 0 {
            lemma_patches_before_monotonic(grid, a - 1, a - 1);
        }
    } else {
        lemma_patches_before_monotonic(grid, a, b - 1);
    }
}

/// Each cell has a place of its own among the regions of the grid.
pub proof fn lemma_patch_index_bounds(grid: Seq<Seq<Patch>>, r: int, c: int)
    requires
        is_cell(grid, r, c),
    ensures
        patches_before(grid, r) <= patch_index(grid, r, c) < patches_before(grid, r + 1),
        0 <= patch_index(grid, r, c) < patch_count(grid),
{
    lemma_patches_before_monotonic(grid, 0, r);
    lemma_patches_before_monotonic(grid, r + 1, grid.len() as int);
}

} // verus!
