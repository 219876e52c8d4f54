//! The state of one nine-patch in the scene, and what each tick of the host
//! does to it.

use vstd::prelude::*;
use std::collections::HashMap;
use crate::bitmap::{Bitmap, Pixels};
use crate::content::slot_map;
use crate::grid::{ContentTag, DEFAULT_CONTENT};
use crate::handle::{HandleId, NodeId};
use crate::layout::{Layout, OuterSize};
use crate::ninepatch::{
    source_pixels, BuilderView, NinePatchBuilder, NinePatchView, SliceError, Slicing,
};

verus! {

broadcast use vstd::std_specs::hash::group_hash_axioms;

/// How far a nine-patch has come.
#[derive(Clone, Copy, Debug, PartialEq, Eq, Structural)]
pub enum InstanceState {
    /// The source has not been cut for it.
    Unsliced,
    /// The builder holds the patches of its source, and no layout has been
    /// made of them.
    Sliced,
    /// Its layout has been made.
    Built,
}

/// State of one nine-patch in the scene.
#[derive(Clone, Debug)]
pub struct NinePatchData {
    /// Identity of the source bitmap.
    pub texture: HandleId,
    /// Identity of the builder.
    pub nine_patch: HandleId,
    /// The nine-patch has been laid out.
    pub loaded: bool,
    /// Nodes that are ready for the content slots.
    pub content: Option<HashMap<ContentTag, NodeId>>,
    /// Identity of the source that the layout was made of.
    pub built_from: Option<HandleId>,
}

/// What the state of a nine-patch holds.
pub struct InstanceView {
    pub texture: HandleId,
    pub nine_patch: HandleId,
    pub loaded: bool,
    pub content: Option<Map<ContentTag, NodeId>>,
    pub built_from: Option<HandleId>,
}

/// What a tick decides for a nine-patch.
pub enum Step {
    /// The layout stands: there is nothing to do.
    Inert,
    /// The builder or the source is not there yet: the next tick tries
    /// again.
    Deferred,
    /// A region of the grid leaves the source: no layout can be made.
    Malformed,
    /// The layout is made of the patches of this slicing.
    Build(Slicing),
}

/// What a tick did for a nine-patch.
#[derive(Clone, Debug, PartialEq, Eq)]
pub enum Reconciliation {
    /// The layout stands: nothing was done.
    Inert,
    /// The builder or the source is not there yet: the next tick tries
    /// again.
    Deferred,
    /// A region of the grid leaves the source: no layout was made.
    Malformed,
    /// The layout was made, and is to be put into the scene.
    Built(Layout),
}

impl InstanceView {
    /// The layout stands, and was made of the source that the nine-patch
    /// names now.
    pub open spec fn is_built(self) -> bool {
        self.loaded && self.built_from == Some(self.texture)
    }

    /// How far the nine-patch has come, given the builder that it names, if
    /// the host holds it.
    pub open spec fn state(self, builder: Option<BuilderView>) -> InstanceState {
        if self.is_built() {
            InstanceState::Built
        } else if builder matches Some(b) && b.cached_for(self.texture) {
            InstanceState::Sliced
        } else {
            InstanceState::Unsliced
        }
    }

    /// What a tick decides, given the builder and the source as far as the
    /// host holds them.
    pub open spec fn step(self, builder: Option<BuilderView>, source: Option<Pixels>) -> Step {
        if self.is_built() {
            Step::Inert
        } else {
            match builder {
                None => Step::Deferred,
                Some(b) => match b.apply_outcome(self.texture, source) {
                    Ok(slicing) => Step::Build(slicing),
                    Err(SliceError::SourceUnavailable) => Step::Deferred,
                    Err(SliceError::MalformedGridGeometry) => Step::Malformed,
                },
            }
        }
    }

    /// The state after a tick: built of its source where a layout was made
    /// or stands, and not loaded otherwise.
    pub open spec fn after_step(self, builder: Option<BuilderView>, source: Option<Pixels>) -> InstanceView {
        let done = self.step(builder, source) is Inert || self.step(builder, source) is Build;
        InstanceView {
            texture: self.texture,
            nine_patch: self.nine_patch,
            loaded: done,
            content: self.content,
            built_from: if done {
                Some(self.texture)
            } else {
                None
            },
        }
    }

    /// The builder after a tick: applied to the source, unless the layout
    /// stood.
    pub open spec fn builder_after_step(self, builder: BuilderView, source: Option<Pixels>) -> BuilderView {
        if self.is_built() {
            builder
        } else {
            builder.apply_state(self.texture, source)
        }
    }
}

impl View for NinePatchData {
    type V = InstanceView;

    open spec fn view(&self) -> InstanceView {
        InstanceView {
            texture: self.texture,
            nine_patch: self.nine_patch,
            loaded: self.loaded,
            content: slot_map(&self.content),
            built_from: self.built_from,
        }
    }
}

/// What a possibly absent builder holds.
pub open spec fn builder_view(builder: Option<&NinePatchBuilder>) -> Option<BuilderView> {
    match builder {
        Some(b) => Some(b@),
        None => None,
    }
}

/// What a possibly absent builder holds before a tick changes it.
pub open spec fn old_builder_view(builder: Option<&mut NinePatchBuilder>) -> Option<BuilderView> {
    match builder {
        Some(b) => Some(b@),
        None => None,
    }
}

impl Default for NinePatchData {
    fn default() -> (data: NinePatchData)
        ensures
            data@ == (InstanceView {
                texture: HandleId::Uuid(0),
                nine_patch: HandleId::Uuid(0),
                loaded: false,
                content: None,
                built_from: None,
            }),
    {
        NinePatchData {
            texture: HandleId::default(),
            nine_patch: HandleId::default(),
            loaded: false,
            content: None,
            built_from: None,
        }
    }
}

impl NinePatchData {
    /// The state of a nine-patch that has a single content slot,
    /// [`DEFAULT_CONTENT`], with the node that is ready for it.
    pub fn with_single_content(texture: HandleId, nine_patch: HandleId, content: NodeId) -> (data:
        NinePatchData)
        ensures
            data@ == (InstanceView {
                texture,
                nine_patch,
                loaded: false,
                content: Some(Map::empty().insert(DEFAULT_CONTENT, content)),
                built_from: None,
            }),
    {
        let mut content_map: HashMap<ContentTag, NodeId> = HashMap::with_capacity(1);
        content_map.insert(DEFAULT_CONTENT, content);
        NinePatchData { texture, nine_patch, loaded: false, content: Some(content_map), built_from: None }
    }

    /// One tick for the nine-patch, with the builder that it names and its
    /// source bitmap as far as the host holds them. A layout that stands is
    /// left alone. Otherwise the builder is applied to the source and the
    /// layout is made of the patches, under `parent`; where the builder or
    /// the source is missing, or a region leaves the source, there is no
    /// layout and the nine-patch is not loaded.
    pub fn reconcile(
        &mut self,
        builder: Option<&mut NinePatchBuilder>,
        texture: Option<&Bitmap>,
        parent: NodeId,
        outer: OuterSize,
    ) -> (done: Reconciliation)
        ensures
            final(self)@ == old(self)@.after_step(old_builder_view(builder), source_pixels(texture)),
            builder matches Some(b) ==> final(b)@ == old(self)@.builder_after_step(
                b@,
                source_pixels(texture),
            ),
            match old(self)@.step(old_builder_view(builder), source_pixels(texture)) {
                Step::Inert => done is Inert,
                Step::Deferred => done is Deferred,
                Step::Malformed => done is Malformed,
                Step::Build(slicing) => {
                    &&& done matches Reconciliation::Built(layout)
                    &&& builder matches Some(b)
                    &&& layout@ == (NinePatchView { grid: b@.grid, pixels: slicing.pixels }).layout(
                        parent,
                        outer,
                        old(self)@.content,
                    )
                },
            },
    {
        if self.loaded && self.built_from == Some(self.texture) {
            return Reconciliation::Inert;
        }
        self.loaded = false;
        self.built_from = None;
        let builder = match builder {
            Some(builder) => builder,
            None => {
                return Reconciliation::Deferred;
            },
        };
        let layout = match builder.apply(&self.texture, texture) {
            Ok(nine_patch) => nine_patch.add_with_parent(parent, outer, &self.content),
            Err(SliceError::SourceUnavailable) => {
                return Reconciliation::Deferred;
            },
            Err(SliceError::MalformedGridGeometry) => {
                return Reconciliation::Malformed;
            },
        };
        self.loaded = true;
        self.built_from = Some(self.texture);
        Reconciliation::Built(layout)
    }

    /// How far the nine-patch has come, given the builder that it names, if
    /// the host holds it.
    pub fn state(&self, builder: Option<&NinePatchBuilder>) -> (state: InstanceState)
        ensures
            state == self@.state(builder_view(builder)),
    {
        if self.loaded && self.built_from == Some(self.texture) {
            return InstanceState::Built;
        }
        match builder {
            Some(b) => if b.is_cached_for(&self.texture) {
                InstanceState::Sliced
            } else {
                InstanceState::Unsliced
            },
            None => InstanceState::Unsliced,
        }
    }
}

} // verus!
