//! The layout of a nine-patch: a column of rows, each a row of cells, one
//! cell for each region of the grid.

use vstd::prelude::*;
use std::collections::HashMap;
use std::collections::HashSet;
use crate::content::{slot_map, NinePatchContent};
use crate::grid::{
    cell_rect, comes_before, is_cell, lemma_patch_index_bounds, patch_count, patch_index,
    patches_before, to_height, to_width, ContentTag, Patch, SizeRule,
};
use crate::handle::NodeId;
use crate::ninepatch::{slicing_wf, NinePatch, NinePatchView};
use crate::slicer::{lemma_sliced_before_len, pixels_of};

verus! {

broadcast use vstd::std_specs::hash::group_hash_axioms;

/// Grow weight of a cell or row that takes an equal share of the space that
/// is left over. Weights are counted in hundredths.
pub const FULL_WEIGHT: u32 = 100;

/// Size of a node along one axis.
#[derive(Clone, Copy, Debug, PartialEq, Eq, Structural)]
pub enum Extent {
    /// A pixel count.
    Px(u32),
    /// A share of the container, in percent.
    Percent(u32),
    /// Whatever the layout of the container gives the node.
    Auto,
}

/// Size that the caller asks of the whole nine-patch.
#[derive(Clone, Copy, Debug, PartialEq, Eq, Structural)]
pub struct OuterSize {
    pub width: Extent,
    pub height: Extent,
}

/// A leaf of the layout: the image of one patch.
#[derive(Clone, Copy, Debug, PartialEq, Eq, Structural)]
pub struct LayoutCell {
    /// Place of the patch among the sliced patches.
    pub texture: usize,
    pub width: Extent,
    pub height: Extent,
    /// Weight with which the cell grows and shrinks in its row, in
    /// hundredths.
    pub grow: u32,
    /// Mark of the content slot that the cell offers.
    pub content: Option<NinePatchContent>,
    /// Node of the caller's that is grafted under the cell.
    pub child: Option<NodeId>,
}

/// A row of cells. Its cells are laid out from the left.
#[derive(Clone, Debug, PartialEq, Eq)]
pub struct LayoutRow {
    pub width: Extent,
    pub height: Extent,
    /// Weight with which the row grows and shrinks in the column of rows,
    /// in hundredths.
    pub grow: u32,
    pub cells: Vec<LayoutCell>,
}

/// The layout of a nine-patch under a node of the host's scene: that node
/// becomes a column, and the rows are its children from the top.
#[derive(Clone, Debug, PartialEq, Eq)]
pub struct Layout {
    pub parent: NodeId,
    pub outer: OuterSize,
    pub rows: Vec<LayoutRow>,
}

/// What a row of the layout holds.
pub struct RowView {
    pub width: Extent,
    pub height: Extent,
    pub grow: u32,
    pub cells: Seq<LayoutCell>,
}

/// What a layout holds.
pub struct LayoutView {
    pub parent: NodeId,
    pub outer: OuterSize,
    pub rows: Seq<RowView>,
}

impl View for LayoutRow {
    type V = RowView;

    open spec fn view(&self) -> RowView {
        RowView { width: self.width, height: self.height, grow: self.grow, cells: self.cells@ }
    }
}

impl View for Layout {
    type V = LayoutView;

    open spec fn view(&self) -> LayoutView {
        LayoutView {
            parent: self.parent,
            outer: self.outer,
            rows: Seq::new(self.rows@.len(), |r: int| self.rows@[r]@),
        }
    }
}

impl SizeRule {
    /// Size along the axis in which siblings share the space: a fixed rule
    /// gives its pixel count, or the size in the source where that count is
    /// zero; a rule that grows leaves the size to the layout.
    pub open spec fn extent(self, source: u32) -> Extent {
        match self {
            SizeRule::Fixed(n) => if n == 0 {
                Extent::Px(source)
            } else {
                Extent::Px(n)
            },
            SizeRule::ProportionOfContainer(_) => Extent::Auto,
            SizeRule::GrowToFill => Extent::Auto,
        }
    }

    /// Grow weight, in hundredths: none for a fixed rule, the percentage
    /// for a proportion, and a full share for a rule that grows to fill.
    pub open spec fn weight(self) -> u32 {
        match self {
            SizeRule::Fixed(_) => 0,
            SizeRule::ProportionOfContainer(percent) => percent,
            SizeRule::GrowToFill => FULL_WEIGHT,
        }
    }

    /// Size and grow weight that the rule gives a region whose size in the
    /// source is `source` pixels.
    pub fn resolve(self, source: u32) -> (sized: (Extent, u32))
        ensures
            sized.0 == self.extent(source),
            sized.1 == self.weight(),
    {
        match self {
            SizeRule::Fixed(n) => if n == 0 {
                (Extent::Px(source), 0)
            } else {
                (Extent::Px(n), 0)
            },
            SizeRule::ProportionOfContainer(percent) => (Extent::Auto, percent),
            SizeRule::GrowToFill => (Extent::Auto, FULL_WEIGHT),
        }
    }
}

/// A cell before `(r, c)` offers the content slot `tag`.
pub open spec fn offered_before(grid: Seq<Seq<Patch>>, r: int, c: int, tag: ContentTag) -> bool {
    exists|r2: int, c2: int|
        #[trigger] is_cell(grid, r2, c2) && comes_before(r2, c2, r, c) && grid[r2][c2].content
            == Some(tag)
}

/// Node that is grafted under the cell in column `c` of row `r`: the one
/// that is ready for the slot that the cell offers. Where several cells
/// offer the same slot, the first of them gets the node and the others get
/// none.
pub open spec fn grafted(
    grid: Seq<Seq<Patch>>,
    r: int,
    c: int,
    contents: Option<Map<ContentTag, NodeId>>,
) -> Option<NodeId> {
    match (grid[r][c].content, contents) {
        (Some(tag), Some(ready)) => if ready.contains_key(tag) && !offered_before(grid, r, c, tag) {
            Some(ready[tag])
        } else {
            None
        },
        _ => None,
    }
}

impl NinePatchView {
    /// Width of the source.
    pub open spec fn width(self) -> int {
        self.pixels.width as int
    }

    /// Height of the source.
    pub open spec fn height(self) -> int {
        self.pixels.height as int
    }

    /// Cell of the layout for the region in column `c` of row `r`. Its width
    /// and grow weight follow the region's rule for the width, its height
    /// the region's own rule for the height.
    pub open spec fn cell_layout(
        self,
        r: int,
        c: int,
        parent: NodeId,
        contents: Option<Map<ContentTag, NodeId>>,
    ) -> LayoutCell {
        let region = self.grid[r][c];
        let rect = cell_rect(self.grid, r, c, self.width(), self.height());
        let child = grafted(self.grid, r, c, contents);
        LayoutCell {
            texture: patch_index(self.grid, r, c) as usize,
            width: region.target_width.extent(rect.w as u32),
            height: region.target_height.extent(rect.h as u32),
            grow: region.target_width.weight(),
            content: match region.content {
                Some(tag) => Some(NinePatchContent { content: tag, loaded: child is Some, parent }),
                None => None,
            },
            child,
        }
    }

    /// Row `r` of the layout. It spans the width of the container; its
    /// height and grow weight follow the rule for the height of its first
    /// region alone. A row without regions has no height and does not grow.
    pub open spec fn row_layout(
        self,
        r: int,
        parent: NodeId,
        contents: Option<Map<ContentTag, NodeId>>,
    ) -> RowView {
        let row = self.grid[r];
        let first = cell_rect(self.grid, r, 0, self.width(), self.height());
        RowView {
            width: Extent::Percent(100),
            height: if row.len() == 0 {
                Extent::Px(0)
            } else {
                row[0].target_height.extent(first.h as u32)
            },
            grow: if row.len() == 0 {
                0
            } else {
                row[0].target_height.weight()
            },
            cells: Seq::new(row.len(), |c: int| self.cell_layout(r, c, parent, contents)),
        }
    }

    /// The layout of the nine-patch under `parent`.
    pub open spec fn layout(
        self,
        parent: NodeId,
        outer: OuterSize,
        contents: Option<Map<ContentTag, NodeId>>,
    ) -> LayoutView {
        LayoutView {
            parent,
            outer,
            rows: Seq::new(self.grid.len(), |r: int| self.row_layout(r, parent, contents)),
        }
    }
}

impl Extent {
    /// Pixels that the size takes whatever the container leaves: its count
    /// for a size in pixels, none for a size that the layout settles.
    pub open spec fn fixed(self) -> int {
        match self {
            Extent::Px(n) => n as int,
            _ => 0,
        }
    }
}

/// Width that the first `n` of the cells take whatever the container
/// leaves.
pub open spec fn fixed_width(cells: Seq<LayoutCell>, n: int) -> int
    decreases n,
{
    if n <= 0 {
        0
    } else {
        fixed_width(cells, n - 1) + cells[n - 1].width.fixed()
    }
}

/// Height that the first `n` of the rows take whatever the container
/// leaves.
pub open spec fn fixed_height(rows: Seq<RowView>, n: int) -> int
    decreases n,
{
    if n <= 0 {
        0
    } else {
        fixed_height(rows, n - 1) + rows[n - 1].height.fixed()
    }
}

/// What is left of `container` pixels once `taken` of them are gone.
pub open spec fn left_over(container: int, taken: int) -> int {
    if taken >= container {
        0
    } else {
        container - taken
    }
}

impl RowView {
    /// Width that the cells which grow fill together in a container that
    /// is `container` pixels wide: what the cells of fixed width leave.
    pub open spec fn flexible_width(self, container: int) -> int {
        left_over(container, fixed_width(self.cells, self.cells.len() as int))
    }
}

impl LayoutView {
    /// Height that the rows which grow fill together in a container that
    /// is `container` pixels high: what the rows of fixed height leave.
    pub open spec fn flexible_height(self, container: int) -> int {
        left_over(container, fixed_height(self.rows, self.rows.len() as int))
    }
}

impl LayoutRow {
    /// Width that the cells which grow fill together in a container that
    /// is `container` pixels wide.
    pub fn flexible_width(&self, container: u32) -> (left: u32)
        ensures
            left == self@.flexible_width(container as int),
    {
        let mut left: u32 = container;
        let mut i: usize = 0;
        while i < self.cells.len()
            invariant
                0 <= i <= self.cells.len(),
                0 <= fixed_width(self.cells@, i as int),
                left == left_over(container as int, fixed_width(self.cells@, i as int)),
            decreases self.cells.len() - i,
        {
            if let Extent::Px(n) = self.cells[i].width {
                left = if n >= left {
                    0
                } else {
                    left - n
                };
            }
            i = i + 1;
        }
        left
    }
}

impl Layout {
    /// Height that the rows which grow fill together in a container that
    /// is `container` pixels high.
    pub fn flexible_height(&self, container: u32) -> (left: u32)
        ensures
            left == self@.flexible_height(container as int),
    {
        let mut left: u32 = container;
        let mut i: usize = 0;
        while i < self.rows.len()
            invariant
                0 <= i <= self.rows.len(),
                0 <= fixed_height(self@.rows, i as int),
                left == left_over(container as int, fixed_height(self@.rows, i as int)),
            decreases self.rows.len() - i,
        {
            assert(self@.rows[i as int] == self.rows@[i as int]@);
            if let Extent::Px(n) = self.rows[i].height {
                left = if n >= left {
                    0
                } else {
                    left - n
                };
            }
            i = i + 1;
        }
        left
    }
}

/// The slots offered before the first cell of a row are those offered
/// before the end of the row above.
proof fn lemma_offered_before_next_row(grid: Seq<Seq<Patch>>, r: int, tag: ContentTag)
    requires
        0 <= r < grid.len(),
    ensures
        offered_before(grid, r + 1, 0, tag) <==> offered_before(grid, r, grid[r].len() as int, tag),
{
    if offered_before(grid, r + 1, 0, tag) {
        let (r2, c2) = choose|r2: int, c2: int|
            #[trigger] is_cell(grid, r2, c2) && comes_before(r2, c2, r + 1, 0) && grid[r2][c2].content
                == Some(tag);
        assert(is_cell(grid, r2, c2) && comes_before(r2, c2, r, grid[r].len() as int));
    }
    if offered_before(grid, r, grid[r].len() as int, tag) {
        let (r2, c2) = choose|r2: int, c2: int|
            #[trigger] is_cell(grid, r2, c2) && comes_before(r2, c2, r, grid[r].len() as int)
                && grid[r2][c2].content == Some(tag);
        assert(is_cell(grid, r2, c2) && comes_before(r2, c2, r + 1, 0));
    }
}

/// The slots offered before the cell after `(r, c)` are those offered
/// before `(r, c)`, and the one that `(r, c)` offers.
proof fn lemma_offered_before_next_cell(grid: Seq<Seq<Patch>>, r: int, c: int, tag: ContentTag)
    requires
        is_cell(grid, r, c),
    ensures
        offered_before(grid, r, c + 1, tag) <==> offered_before(grid, r, c, tag) || grid[r][c].content
            == Some(tag),
{
    if offered_before(grid, r, c + 1, tag) {
        let (r2, c2) = choose|r2: int, c2: int|
            #[trigger] is_cell(grid, r2, c2) && comes_before(r2, c2, r, c + 1) && grid[r2][c2].content
                == Some(tag);
        if !(r2 == r && c2 == c) {
            assert(is_cell(grid, r2, c2) && comes_before(r2, c2, r, c));
        }
    }
    if offered_before(grid, r, c, tag) {
        let (r2, c2) = choose|r2: int, c2: int|
            #[trigger] is_cell(grid, r2, c2) && comes_before(r2, c2, r, c) && grid[r2][c2].content
                == Some(tag);
        assert(is_cell(grid, r2, c2) && comes_before(r2, c2, r, c + 1));
    }
    if grid[r][c].content == Some(tag) {
        assert(is_cell(grid, r, c) && comes_before(r, c, r, c + 1));
    }
}

impl<'a> NinePatch<'a> {
    /// Lays the nine-patch out under `parent`: one row for each row of the
    /// grid, one cell for each region, bound to the region's patch. A cell
    /// that offers a content slot is marked, and where a node is ready for
    /// the slot it is grafted under the cell.
    pub fn add_with_parent(
        &self,
        parent: NodeId,
        outer: OuterSize,
        contents: &Option<HashMap<ContentTag, NodeId>>,
    ) -> (layout: Layout)
        ensures
            layout@ == self@.layout(parent, outer, slot_map(contents)),
    {
        let patches = self.patches();
        let textures = self.splitted_texture();
        let (total_width, total_height) = self.texture_size();
        let ghost this = self@;
        let ghost grid = this.grid;
        let ghost ready = slot_map(contents);
        proof {
            lemma_sliced_before_len(grid, grid.len() as int, this.pixels);
        }
        let count: usize = textures.len();
        assert(pixels_of(textures@).len() == count);
        let mut rows: Vec<LayoutRow> = Vec::new();
        let mut seen: HashSet<ContentTag> = HashSet::new();
        let mut n: usize = 0;
        let mut r: usize = 0;
        while r < patches.len()
            invariant
                0 <= r <= patches.len(),
                this == self@,
                grid == this.grid,
                grid == crate::grid::grid_of(*patches),
                ready == slot_map(contents),
                slicing_wf(grid, this.pixels),
                total_width == this.width(),
                total_height == this.height(),
                patch_count(grid) == count,
                n == patches_before(grid, r as int),
                forall|tag: ContentTag| seen@.contains(tag) <==> offered_before(grid, r as int, 0, tag),
                rows@.len() == r,
                forall|i: int| 0 <= i < r ==> (#[trigger] rows@[i])@ == this.row_layout(i, parent, ready),
            decreases patches.len() - r,
        {
            let row = &patches[r];
            let mut height = Extent::Px(0);
            let mut row_grow: u32 = 0;
            let mut cells: Vec<LayoutCell> = Vec::new();
            let mut c: usize = 0;
            while c < row.len()
                invariant
                    0 <= r < patches.len(),
                    0 <= c <= row.len(),
                    row@ == grid[r as int],
                    this == self@,
                    grid == this.grid,
                    grid == crate::grid::grid_of(*patches),
                    ready == slot_map(contents),
                    slicing_wf(grid, this.pixels),
                    total_width == this.width(),
                    total_height == this.height(),
                    patch_count(grid) == count,
                    n == patch_index(grid, r as int, c as int),
                    forall|tag: ContentTag|
                        seen@.contains(tag) <==> offered_before(grid, r as int, c as int, tag),
                    c > 0 ==> height == this.row_layout(r as int, parent, ready).height,
                    c > 0 ==> row_grow == this.row_layout(r as int, parent, ready).grow,
                    c == 0 ==> height == Extent::Px(0) && row_grow == 0,
                    cells@.len() == c,
                    forall|j: int|
                        0 <= j < c ==> #[trigger] cells@[j] == this.cell_layout(
                            r as int,
                            j,
                            parent,
                            ready,
                        ),
                decreases row.len() - c,
            {
                let region = row[c];
                proof {
                    assert(is_cell(grid, r as int, c as int));
                    lemma_patch_index_bounds(grid, r as int, c as int);
                    assert(cell_rect(grid, r as int, c as int, this.width(), this.height()).within(
                        this.width(),
                        this.height(),
                    ));
                }
                let source_width = to_width(region.original_size, total_width) as u32;
                let source_height = to_height(region.original_size, total_height) as u32;
                let (width, grow) = region.target_width.resolve(source_width);
                let (cell_height, weight) = region.target_height.resolve(source_height);
                if c == 0 {
                    height = cell_height;
                    row_grow = weight;
                }
                let mut content: Option<NinePatchContent> = None;
                let mut child: Option<NodeId> = None;
                if let Some(tag) = region.content {
                    if !seen.contains(&tag) {
                        if let Some(nodes) = contents {
                            if let Some(node) = nodes.get(&tag) {
                                child = Some(*node);
                            }
                        }
                    }
                    seen.insert(tag);
                    content = Some(NinePatchContent { content: tag, loaded: child.is_some(), parent });
                }
                proof {
                    assert forall|tag: ContentTag|
                        seen@.contains(tag) <==> offered_before(grid, r as int, c as int + 1, tag) by {
                        lemma_offered_before_next_cell(grid, r as int, c as int, tag);
                    }
                }
                cells.push(LayoutCell { texture: n, width, height: cell_height, grow, content, child });
                n = n + 1;
                c = c + 1;
            }
            proof {
                assert forall|tag: ContentTag|
                    seen@.contains(tag) <==> offered_before(grid, r as int + 1, 0, tag) by {
                    lemma_offered_before_next_row(grid, r as int, tag);
                }
                assert(cells@ =~= this.row_layout(r as int, parent, ready).cells);
            }
            rows.push(LayoutRow { width: Extent::Percent(100), height, grow: row_grow, cells });
            r = r + 1;
        }
        let layout = Layout { parent, outer, rows };
        proof {
            assert(layout@.rows =~= this.layout(parent, outer, ready).rows);
        }
        layout
    }
}

} // verus!
