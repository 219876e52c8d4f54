//! What holds of slicing, of layout and of the ticks, whatever the grid and
//! the source.

use vstd::prelude::*;
use crate::bitmap::Pixels;
use crate::grid::{
    cell_rect, comes_before, grid_fits, height_before, is_cell, margin_cell, margin_grid,
    patch_index, patches_before, width_before, ContentTag, Rect,
};
use crate::handle::{HandleId, NodeId};
use crate::ninepatch::{BuilderView, NinePatchView, SliceError, Slicing};
use crate::plugin::{InstanceState, InstanceView, Step};
use crate::layout::OuterSize;
use crate::slicer::{crop_cell, lemma_sliced_before_len, lemma_sliced_index, sliced};
use crate::stitch::{covered, covers, lemma_round_trip, stitched};

verus! {

/// Width of column `c` of the grid that margins give, in a source `width`
/// pixels wide.
pub open spec fn margin_column_width(left: u32, right: u32, width: int, c: int) -> int {
    if c == 0 {
        left as int
    } else if c == 1 {
        width - left - right
    } else {
        right as int
    }
}

/// Left edge of column `c` of the grid that margins give, in a source
/// `width` pixels wide.
pub open spec fn margin_column_start(left: u32, right: u32, width: int, c: int) -> int {
    if c == 0 {
        0
    } else if c == 1 {
        left as int
    } else {
        width - right
    }
}

/// The patches of a grid made of margins: in a source of `width` by `height`
/// pixels that the margins fit into, each corner is as wide and as high as
/// its two margins, each edge has its margin on one axis and what the
/// margins leave of the source on the other, and the centre has what the
/// margins leave on both. The regions meet without a gap, so the grid fits
/// the source.
///
/// This holds for margins above zero: a margin of zero stands for the whole
/// extent of the source.
pub proof fn lemma_margin_patch_sizes(
    top: u32,
    bottom: u32,
    left: u32,
    right: u32,
    content: ContentTag,
    src: Pixels,
    r: int,
    c: int,
)
    requires
        0 < top,
        0 < bottom,
        0 < left,
        0 < right,
        top + bottom <= i32::MAX,
        left + right <= i32::MAX,
        top + bottom <= src.height,
        left + right <= src.width,
        0 <= r < 3,
        0 <= c < 3,
    ensures
        cell_rect(
            margin_grid(top, bottom, left, right, content),
            r,
            c,
            src.width as int,
            src.height as int,
        ) == (Rect {
            x: margin_column_start(left, right, src.width as int, c),
            y: margin_column_start(top, bottom, src.height as int, r),
            w: margin_column_width(left, right, src.width as int, c),
            h: margin_column_width(top, bottom, src.height as int, r),
        }),
        grid_fits(margin_grid(top, bottom, left, right, content), src.width as int, src.height as int),
        sliced(margin_grid(top, bottom, left, right, content), src).len() == 9,
        sliced(margin_grid(top, bottom, left, right, content), src)[3 * r + c].width
            == margin_column_width(left, right, src.width as int, c),
        sliced(margin_grid(top, bottom, left, right, content), src)[3 * r + c].height
            == margin_column_width(top, bottom, src.height as int, r),
{
    let grid = margin_grid(top, bottom, left, right, content);
    let width = src.width as int;
    let height = src.height as int;
    assert forall|i: int, j: int| 0 <= i < 3 && 0 <= j < 3 implies (#[trigger] cell_rect(
        grid,
        i,
        j,
        width,
        height,
    )) == (Rect {
        x: margin_column_start(left, right, width, j),
        y: margin_column_start(top, bottom, height, i),
        w: margin_column_width(left, right, width, j),
        h: margin_column_width(top, bottom, height, i),
    }) by {
        lemma_margin_offsets(top, bottom, left, right, content, width, height, i, j);
    }
    assert forall|i: int, j: int| is_cell(grid, i, j) implies (#[trigger] cell_rect(
        grid,
        i,
        j,
        width,
        height,
    )).within(width, height) by {
        assert(0 <= i < 3 && 0 <= j < 3);
    }
    assert(is_cell(grid, r, c));
    lemma_sliced_index(grid, 3, r, c, src);
    lemma_sliced_before_len(grid, 3, src);
    reveal_with_fuel(patches_before, 4);
    assert(patch_index(grid, r, c) == 3 * r + c);
    assert(sliced(grid, src)[3 * r + c] == crop_cell(grid, r, c, src));
}

/// A grid made of margins leaves no pixel of the source out, so cutting the
/// source along it and putting the patches back gives the source again.
pub proof fn lemma_margin_round_trip(
    top: u32,
    bottom: u32,
    left: u32,
    right: u32,
    content: ContentTag,
    src: Pixels,
)
    requires
        src.wf(),
        0 < top,
        0 < bottom,
        0 < left,
        0 < right,
        top + bottom <= i32::MAX,
        left + right <= i32::MAX,
        top + bottom <= src.height,
        left + right <= src.width,
    ensures
        covers(margin_grid(top, bottom, left, right, content), src.width as int, src.height as int),
        stitched(margin_grid(top, bottom, left, right, content), src) == src,
{
    let grid = margin_grid(top, bottom, left, right, content);
    let width = src.width as int;
    let height = src.height as int;
    assert forall|x: int, y: int| 0 <= x < width && 0 <= y < height implies #[trigger] covered(
        grid,
        width,
        height,
        x,
        y,
    ) by {
        let c: int = if x < left {
            0
        } else if x < width - right {
            1
        } else {
            2
        };
        let r: int = if y < top {
            0
        } else if y < height - bottom {
            1
        } else {
            2
        };
        lemma_margin_offsets(top, bottom, left, right, content, width, height, r, c);
        assert(is_cell(grid, r, c) && comes_before(r, c, 3, 0) && cell_rect(
            grid,
            r,
            c,
            width,
            height,
        ).has_pixel(x, y));
    }
    lemma_round_trip(grid, src);
}

/// Where the regions of a grid made of margins start.
proof fn lemma_margin_offsets(
    top: u32,
    bottom: u32,
    left: u32,
    right: u32,
    content: ContentTag,
    width: int,
    height: int,
    r: int,
    c: int,
)
    requires
        0 < top,
        0 < bottom,
        0 < left,
        0 < right,
        top + bottom <= i32::MAX,
        left + right <= i32::MAX,
        0 <= r < 3,
        0 <= c < 3,
    ensures
        cell_rect(margin_grid(top, bottom, left, right, content), r, c, width, height) == (Rect {
            x: margin_column_start(left, right, width, c),
            y: margin_column_start(top, bottom, height, r),
            w: margin_column_width(left, right, width, c),
            h: margin_column_width(top, bottom, height, r),
        }),
{
    let grid = margin_grid(top, bottom, left, right, content);
    reveal_with_fuel(width_before, 4);
    reveal_with_fuel(height_before, 4);
    assert(grid[0][0] == margin_cell(top, bottom, left, right, content, 0, 0));
    assert(grid[1][0] == margin_cell(top, bottom, left, right, content, 1, 0));
    assert(grid[2][0] == margin_cell(top, bottom, left, right, content, 2, 0));
    assert(grid[r][0] == margin_cell(top, bottom, left, right, content, r, 0));
    assert(grid[r][1] == margin_cell(top, bottom, left, right, content, r, 1));
    assert(grid[r][2] == margin_cell(top, bottom, left, right, content, r, 2));
    assert(grid[r][c] == margin_cell(top, bottom, left, right, content, r, c));
}

/// A source that was cut is not cut again: where applying a builder to a
/// source hands out a slicing, applying it once more under the same
/// identity hands out the same slicing and leaves the builder as it is,
/// whatever the source holds by then.
pub proof fn lemma_apply_twice(builder: BuilderView, id: HandleId, first: Pixels, second: Pixels)
    requires
        builder.apply_outcome(id, Some(first)) is Ok,
    ensures
        builder.apply_state(id, Some(first)).apply_outcome(id, Some(second)) == builder.apply_outcome(
            id,
            Some(first),
        ),
        builder.apply_state(id, Some(first)).apply_state(id, Some(second)) == builder.apply_state(
            id,
            Some(first),
        ),
{
}

/// Applying a builder to a source of another identity than the one it last
/// cut cuts the new source and forgets the patches of the old one.
pub proof fn lemma_apply_other_source(builder: BuilderView, id: HandleId, pixels: Pixels)
    requires
        !builder.cached_for(id),
        grid_fits(builder.grid, pixels.width as int, pixels.height as int),
    ensures
        builder.apply_outcome(id, Some(pixels)) == Ok::<Slicing, SliceError>(
            Slicing { source: id, pixels },
        ),
        builder.apply_state(id, Some(pixels)).cache == Some(Slicing { source: id, pixels }),
        builder.apply_state(id, Some(pixels)).grid == builder.grid,
{
}

/// Place of a state in the order in which a nine-patch passes through them.
pub open spec fn rank(state: InstanceState) -> int {
    match state {
        InstanceState::Unsliced => 0,
        InstanceState::Sliced => 1,
        InstanceState::Built => 2,
    }
}

/// A tick never takes a nine-patch back: as long as the nine-patch names
/// the same source, its state after a tick is the state before or a later
/// one. It is built after the tick exactly where the layout stood or was
/// made, and a layout that stands is left alone together with the builder.
pub proof fn lemma_tick_moves_forward(data: InstanceView, builder: BuilderView, source: Option<Pixels>)
    ensures
        rank(data.state(Some(builder))) <= rank(
            data.after_step(Some(builder), source).state(
                Some(data.builder_after_step(builder, source)),
            ),
        ),
        data.after_step(Some(builder), source).is_built() <==> data.step(Some(builder), source) is Inert
            || data.step(Some(builder), source) is Build,
        data.is_built() ==> data.after_step(Some(builder), source) == data && data.builder_after_step(
            builder,
            source,
        ) == builder,
        data.state(Some(builder)) == InstanceState::Sliced && source is Some ==> data.step(
            Some(builder),
            source,
        ) is Build,
{
}

/// A tick that makes no layout can be repeated without effect: the second
/// of two such ticks in a row changes neither the nine-patch nor the
/// builder.
pub proof fn lemma_idle_tick_repeats(data: InstanceView, builder: BuilderView, source: Option<Pixels>)
    requires
        !(data.step(Some(builder), source) is Build),
    ensures
        data.after_step(Some(builder), source).step(
            Some(data.builder_after_step(builder, source)),
            source,
        ) == data.step(Some(builder), source),
        data.after_step(Some(builder), source).after_step(
            Some(data.builder_after_step(builder, source)),
            source,
        ) == data.after_step(Some(builder), source),
        data.builder_after_step(builder, source) == builder,
{
}

/// A nine-patch that is given another source after it was built is unsliced
/// again: the tick that finds the new source cuts it, forgets the patches
/// of the old one, and makes the layout anew.
pub proof fn lemma_source_change_reslices(
    data: InstanceView,
    builder: BuilderView,
    texture: HandleId,
    pixels: Pixels,
)
    requires
        data.is_built(),
        builder.cached_for(data.texture),
        texture != data.texture,
        grid_fits(builder.grid, pixels.width as int, pixels.height as int),
    ensures
        ({
            let changed = InstanceView { texture, ..data };
            let after = changed.after_step(Some(builder), Some(pixels));
            let builder_after = changed.builder_after_step(builder, Some(pixels));
            &&& changed.state(Some(builder)) == InstanceState::Unsliced
            &&& changed.step(Some(builder), Some(pixels)) == Step::Build(
                Slicing { source: texture, pixels },
            )
            &&& builder_after == (BuilderView {
                grid: builder.grid,
                cache: Some(Slicing { source: texture, pixels }),
            })
            &&& after.state(Some(builder_after)) == InstanceState::Built
            &&& changed.step(Some(builder), None) == Step::Deferred
            &&& changed.after_step(Some(builder), None).state(Some(builder))
                == InstanceState::Unsliced
        }),
{
}

/// Each row is laid out by itself: how many cells a row of the layout has,
/// and how the row and its cells are sized, follows from the regions of
/// that row and the size of the source alone. Rows with other regions, or
/// with more or fewer of them, change nothing of it.
pub proof fn lemma_rows_lay_out_alone(
    a: NinePatchView,
    b: NinePatchView,
    r: int,
    s: int,
    parent: NodeId,
    outer: OuterSize,
    contents: Option<Map<ContentTag, NodeId>>,
    c: int,
)
    requires
        0 <= r < a.grid.len(),
        0 <= s < b.grid.len(),
        a.grid[r] == b.grid[s],
        a.pixels.width == b.pixels.width,
        a.pixels.height == b.pixels.height,
        0 <= c < a.grid[r].len(),
    ensures
        a.row_layout(r, parent, contents).cells.len() == a.grid[r].len(),
        b.row_layout(s, parent, contents).cells.len() == a.grid[r].len(),
        a.row_layout(r, parent, contents).width == b.row_layout(s, parent, contents).width,
        a.row_layout(r, parent, contents).height == b.row_layout(s, parent, contents).height,
        a.row_layout(r, parent, contents).grow == b.row_layout(s, parent, contents).grow,
        a.row_layout(r, parent, contents).cells[c].width == b.row_layout(
            s,
            parent,
            contents,
        ).cells[c].width,
        a.row_layout(r, parent, contents).cells[c].height == b.row_layout(
            s,
            parent,
            contents,
        ).cells[c].height,
        a.row_layout(r, parent, contents).cells[c].grow == b.row_layout(
            s,
            parent,
            contents,
        ).cells[c].grow,
        a.layout(parent, outer, contents).rows.len() == a.grid.len(),
        a.layout(parent, outer, contents).rows[r] == a.row_layout(r, parent, contents),
{
}

} // verus!
