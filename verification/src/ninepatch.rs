//! The nine-patch builder: a grid of regions, and the patches that were last
//! cut along it.

use vstd::prelude::*;
use vstd::pervasive::unreached;
use crate::bitmap::{Bitmap, Pixels};
use crate::grid::{
    grid_fits, grid_of, margin_cell, margin_grid, ContentTag, Patch, RegionSize, SizeRule,
    DEFAULT_CONTENT,
};
use crate::handle::HandleId;
use crate::slicer::{pixels_of, slice, sliced};

verus! {

/// Why a source bitmap could not be cut.
#[derive(Clone, Copy, Debug, PartialEq, Eq, Structural)]
pub enum SliceError {
    /// The source bitmap is not there yet. Trying again later may succeed.
    SourceUnavailable,
    /// A region of the grid leaves the source bitmap.
    MalformedGridGeometry,
}

/// A source bitmap that was cut: its identity and what it held.
pub struct Slicing {
    pub source: HandleId,
    pub pixels: Pixels,
}

/// What a builder holds: its grid and, once it has cut a source, that source.
pub struct BuilderView {
    pub grid: Seq<Seq<Patch>>,
    pub cache: Option<Slicing>,
}

impl BuilderView {
    /// The builder last cut the source that `id` names.
    pub open spec fn cached_for(self, id: HandleId) -> bool {
        self.cache matches Some(s) && s.source == id
    }

    /// What applying the builder to a source gives: the slicing whose patches
    /// it hands out, or the reason there is none. A source that the builder
    /// last cut is not cut again.
    pub open spec fn apply_outcome(self, id: HandleId, src: Option<Pixels>) -> Result<
        Slicing,
        SliceError,
    > {
        match src {
            None => Err(SliceError::SourceUnavailable),
            Some(pixels) => if self.cached_for(id) {
                Ok(self.cache->Some_0)
            } else if grid_fits(self.grid, pixels.width as int, pixels.height as int) {
                Ok(Slicing { source: id, pixels })
            } else {
                Err(SliceError::MalformedGridGeometry)
            },
        }
    }

    /// The builder after it was applied to a source: it remembers the
    /// slicing it handed out, and is unchanged where there was none.
    pub open spec fn apply_state(self, id: HandleId, src: Option<Pixels>) -> BuilderView {
        match self.apply_outcome(id, src) {
            Ok(slicing) => BuilderView { grid: self.grid, cache: Some(slicing) },
            Err(_) => self,
        }
    }
}

/// What a possibly absent bitmap holds.
pub open spec fn source_pixels(texture: Option<&Bitmap>) -> Option<Pixels> {
    match texture {
        Some(bitmap) => Some(bitmap@),
        None => None,
    }
}

struct SliceCache {
    source: HandleId,
    width: u32,
    height: u32,
    patches: Vec<Bitmap>,
    pixels: Ghost<Pixels>,
}

/// Holds the regions of a nine-patch, and the patches last cut along them.
pub struct NinePatchBuilder {
    patches: Vec<Vec<Patch>>,
    cache: Option<SliceCache>,
}

impl View for NinePatchBuilder {
    type V = BuilderView;

    closed spec fn view(&self) -> BuilderView {
        BuilderView {
            grid: grid_of(self.patches),
            cache: match self.cache {
                Some(c) => Some(Slicing { source: c.source, pixels: c.pixels@ }),
                None => None,
            },
        }
    }
}

/// A source that was cut along a grid: it is a bitmap that the machine can
/// hold, and every region of the grid lies within it.
pub open spec fn slicing_wf(grid: Seq<Seq<Patch>>, pixels: Pixels) -> bool {
    &&& pixels.wf()
    &&& pixels.bytes.len() <= usize::MAX
    &&& pixels.width <= u32::MAX
    &&& pixels.height <= u32::MAX
    &&& grid_fits(grid, pixels.width as int, pixels.height as int)
}

/// What a nine-patch holds: the grid, and the source that was cut along it.
pub struct NinePatchView {
    pub grid: Seq<Seq<Patch>>,
    pub pixels: Pixels,
}

/// A source bitmap cut along a grid, ready to be laid out.
pub struct NinePatch<'a> {
    patches: &'a Vec<Vec<Patch>>,
    texture_size: (u32, u32),
    splitted_texture: &'a Vec<Bitmap>,
    pixels: Ghost<Pixels>,
}

impl<'a> View for NinePatch<'a> {
    type V = NinePatchView;

    closed spec fn view(&self) -> NinePatchView {
        NinePatchView { grid: grid_of(*self.patches), pixels: self.pixels@ }
    }
}

impl<'a> NinePatch<'a> {
    #[verifier::type_invariant]
    spec fn well_formed(self) -> bool {
        &&& slicing_wf(grid_of(*self.patches), self.pixels@)
        &&& self.texture_size.0 == self.pixels@.width
        &&& self.texture_size.1 == self.pixels@.height
        &&& pixels_of(self.splitted_texture@) == sliced(grid_of(*self.patches), self.pixels@)
    }

    /// The regions that the source was cut along.
    pub fn patches(&self) -> (patches: &'a Vec<Vec<Patch>>)
        ensures
            grid_of(*patches) == self@.grid,
            slicing_wf(self@.grid, self@.pixels),
    {
        proof {
            use_type_invariant(self);
        }
        self.patches
    }

    /// Width and height of the source that was cut.
    pub fn texture_size(&self) -> (size: (u32, u32))
        ensures
            size.0 == self@.pixels.width,
            size.1 == self@.pixels.height,
    {
        proof {
            use_type_invariant(self);
        }
        self.texture_size
    }

    /// The patches, row by row from the top and in each row from the left.
    pub fn splitted_texture(&self) -> (textures: &'a Vec<Bitmap>)
        ensures
            pixels_of(textures@) == sliced(self@.grid, self@.pixels),
            slicing_wf(self@.grid, self@.pixels),
    {
        proof {
            use_type_invariant(self);
        }
        self.splitted_texture
    }
}

impl NinePatchBuilder {
    #[verifier::type_invariant]
    spec fn well_formed(self) -> bool {
        self.cache matches Some(c) ==> {
            &&& slicing_wf(grid_of(self.patches), c.pixels@)
            &&& c.width == c.pixels@.width
            &&& c.height == c.pixels@.height
            &&& pixels_of(c.patches@) == sliced(grid_of(self.patches), c.pixels@)
        }
    }

    /// A builder over the given rows of regions. It has cut nothing yet.
    pub fn from_patches(patches: Vec<Vec<Patch>>) -> (builder: Self)
        ensures
            builder@ == (BuilderView { grid: grid_of(patches), cache: None }),
    {
        NinePatchBuilder { patches, cache: None }
    }

    /// A builder over the grid of three rows of three regions that the four
    /// margins give. The region in the middle offers the content slot
    /// [`DEFAULT_CONTENT`].
    pub fn by_margins(top_margin: u32, bottom_margin: u32, left_margin: u32, right_margin: u32) -> (builder:
        Self)
        requires
            top_margin + bottom_margin <= i32::MAX,
            left_margin + right_margin <= i32::MAX,
        ensures
            builder@ == (BuilderView {
                grid: margin_grid(
                    top_margin,
                    bottom_margin,
                    left_margin,
                    right_margin,
                    DEFAULT_CONTENT,
                ),
                cache: None,
            }),
    {
        Self::by_margins_with_content(
            top_margin,
            bottom_margin,
            left_margin,
            right_margin,
            DEFAULT_CONTENT,
        )
    }

    /// A builder over the grid of three rows of three regions that the four
    /// margins give. The region in the middle offers the content slot
    /// `content`.
    pub fn by_margins_with_content(
        top_margin: u32,
        bottom_margin: u32,
        left_margin: u32,
        right_margin: u32,
        content: ContentTag,
    ) -> (builder: Self)
        requires
            top_margin + bottom_margin <= i32::MAX,
            left_margin + right_margin <= i32::MAX,
        ensures
            builder@ == (BuilderView {
                grid: margin_grid(top_margin, bottom_margin, left_margin, right_margin, content),
                cache: None,
            }),
    {
        let left: i32 = left_margin as i32;
        let right: i32 = right_margin as i32;
        let top: i32 = top_margin as i32;
        let bottom: i32 = bottom_margin as i32;
        let inner_width: i32 = -left - right;
        let inner_height: i32 = -top - bottom;
        let top_row = vec![
            Patch {
                original_size: RegionSize::new(left, top),
                target_width: SizeRule::Fixed(0),
                target_height: SizeRule::Fixed(0),
                content: None,
            },
            Patch {
                original_size: RegionSize::new(inner_width, top),
                target_width: SizeRule::GrowToFill,
                target_height: SizeRule::Fixed(0),
                content: None,
            },
            Patch {
                original_size: RegionSize::new(right, top),
                target_width: SizeRule::Fixed(0),
                target_height: SizeRule::Fixed(0),
                content: None,
            },
        ];
        let middle_row = vec![
            Patch {
                original_size: RegionSize::new(left, inner_height),
                target_width: SizeRule::Fixed(0),
                target_height: SizeRule::GrowToFill,
                content: None,
            },
            Patch {
                original_size: RegionSize::new(inner_width, inner_height),
                target_width: SizeRule::GrowToFill,
                target_height: SizeRule::GrowToFill,
                content: Some(content),
            },
            Patch {
                original_size: RegionSize::new(right, inner_height),
                target_width: SizeRule::Fixed(0),
                target_height: SizeRule::GrowToFill,
                content: None,
            },
        ];
        let bottom_row = vec![
            Patch {
                original_size: RegionSize::new(left, bottom),
                target_width: SizeRule::Fixed(0),
                target_height: SizeRule::Fixed(0),
                content: None,
            },
            Patch {
                original_size: RegionSize::new(inner_width, bottom),
                target_width: SizeRule::GrowToFill,
                target_height: SizeRule::Fixed(0),
                content: None,
            },
            Patch {
                original_size: RegionSize::new(right, bottom),
                target_width: SizeRule::Fixed(0),
                target_height: SizeRule::Fixed(0),
                content: None,
            },
        ];
        let patches = vec![top_row, middle_row, bottom_row];
        proof {
            let wanted = margin_grid(top_margin, bottom_margin, left_margin, right_margin, content);
            assert forall|r: int| 0 <= r < 3 implies #[trigger] grid_of(patches)[r] =~= wanted[r] by {
                assert forall|c: int| 0 <= c < 3 implies grid_of(patches)[r][c] == margin_cell(
                    top_margin,
                    bottom_margin,
                    left_margin,
                    right_margin,
                    content,
                    r,
                    c,
                ) by {}
            }
            assert(grid_of(patches) =~= wanted);
        }
        NinePatchBuilder { patches, cache: None }
    }

    /// The regions of the grid, row by row.
    pub fn patches(&self) -> (patches: &Vec<Vec<Patch>>)
        ensures
            grid_of(*patches) == self@.grid,
    {
        &self.patches
    }

    /// Whether the builder last cut the source that `texture_handle` names.
    pub fn is_cached_for(&self, texture_handle: &HandleId) -> (cached: bool)
        ensures
            cached == self@.cached_for(*texture_handle),
    {
        match &self.cache {
            Some(c) => c.source == *texture_handle,
            None => false,
        }
    }

    /// The patches that the builder last cut, if it has cut any.
    pub fn patch_textures(&self) -> (textures: Option<&Vec<Bitmap>>)
        ensures
            textures is Some <==> self@.cache is Some,
            textures matches Some(v) ==> {
                &&& slicing_wf(self@.grid, self@.cache->Some_0.pixels)
                &&& pixels_of(v@) == sliced(self@.grid, self@.cache->Some_0.pixels)
            },
    {
        proof {
            use_type_invariant(self);
        }
        match &self.cache {
            Some(c) => Some(&c.patches),
            None => None,
        }
    }

    /// Identity of the source that the builder last cut, if it has cut any.
    pub fn original_texture(&self) -> (source: Option<HandleId>)
        ensures
            source is Some <==> self@.cache is Some,
            source matches Some(id) ==> id == self@.cache->Some_0.source,
    {
        match &self.cache {
            Some(c) => Some(c.source),
            None => None,
        }
    }

    /// Cuts the source along the grid, unless the builder last cut a source
    /// of the same identity: then the patches of that cut are handed out
    /// again. A source that is not there, or that a region leaves, gives an
    /// error and leaves the builder as it was.
    pub fn apply<'a>(&'a mut self, texture_handle: &HandleId, texture: Option<&Bitmap>) -> (result:
        Result<NinePatch<'a>, SliceError>)
        ensures
            final(self)@ == old(self)@.apply_state(*texture_handle, source_pixels(texture)),
            match result {
                Ok(nine_patch) => old(self)@.apply_outcome(*texture_handle, source_pixels(texture))
                    matches Ok(slicing) && nine_patch@ == (NinePatchView {
                    grid: old(self)@.grid,
                    pixels: slicing.pixels,
                }),
                Err(e) => old(self)@.apply_outcome(*texture_handle, source_pixels(texture)) == Err::<
                    Slicing,
                    SliceError,
                >(e),
            },
    {
        proof {
            use_type_invariant(&*self);
        }
        let source = match texture {
            Some(source) => source,
            None => {
                return Err(SliceError::SourceUnavailable);
            },
        };
        let hit = match &self.cache {
            Some(c) => c.source == *texture_handle,
            None => false,
        };
        if !hit {
            match slice(&self.patches, source) {
                Some(patches) => {
                    self.cache = Some(
                        SliceCache {
                            source: *texture_handle,
                            width: source.width(),
                            height: source.height(),
                            patches,
                            pixels: Ghost(source@),
                        },
                    );
                },
                None => {
                    return Err(SliceError::MalformedGridGeometry);
                },
            }
        }
        match &self.cache {
            Some(c) => Ok(
                NinePatch {
                    patches: &self.patches,
                    texture_size: (c.width, c.height),
                    splitted_texture: &c.patches,
                    pixels: c.pixels,
                },
            ),
            None => unreached(),
        }
    }
}

} // verus!
