use std::collections::HashMap;

use bevy_ninepatch::bitmap::Bitmap;
use bevy_ninepatch::content::NinePatchContent;
use bevy_ninepatch::handle::HandleId;
use bevy_ninepatch::layout::{Extent, OuterSize};
use bevy_ninepatch::ninepatch::NinePatchBuilder;
use bevy_ninepatch::plugin::{InstanceState, NinePatchData, Reconciliation};

fn filled(width: u32, height: u32, byte: u8) -> Bitmap {
    Bitmap::new(width, height, vec![byte; (width * height * 4) as usize]).unwrap()
}

fn outer() -> OuterSize {
    OuterSize { width: Extent::Px(200), height: Extent::Px(200) }
}

fn instance(texture: HandleId) -> NinePatchData {
    NinePatchData { texture, nine_patch: HandleId::Index(100), ..Default::default() }
}

#[test]
fn default_instance_is_not_loaded() {
    let data = NinePatchData::default();
    assert_eq!(data.texture, HandleId::default());
    assert_eq!(data.texture, HandleId::Uuid(0));
    assert_eq!(data.nine_patch, HandleId::Uuid(0));
    assert!(!data.loaded);
    assert!(data.content.is_none());
    assert!(data.built_from.is_none());
    assert_eq!(data.state(None), InstanceState::Unsliced);
}

#[test]
fn single_content_is_ready_for_the_default_slot() {
    let data = NinePatchData::with_single_content(HandleId::Index(1), HandleId::Index(2), 42);
    assert_eq!(data.texture, HandleId::Index(1));
    assert_eq!(data.nine_patch, HandleId::Index(2));
    assert!(!data.loaded);
    assert!(data.built_from.is_none());
    let ready = data.content.unwrap();
    assert_eq!(ready.len(), 1);
    assert_eq!(ready.get(&0), Some(&42));
}

#[test]
fn a_tick_cuts_and_lays_out() {
    let source = filled(40, 40, 1);
    let mut builder = NinePatchBuilder::by_margins(10, 10, 10, 10);
    let mut data = NinePatchData::with_single_content(HandleId::Index(1), HandleId::Index(2), 42);
    assert_eq!(data.state(Some(&builder)), InstanceState::Unsliced);
    let done = data.reconcile(Some(&mut builder), Some(&source), 5, outer());
    let layout = match done {
        Reconciliation::Built(layout) => layout,
        other => panic!("no layout: {:?}", other),
    };
    assert_eq!(layout.parent, 5);
    assert_eq!(layout.rows.len(), 3);
    assert_eq!(layout.rows[1].cells[1].child, Some(42));
    assert_eq!(
        layout.rows[1].cells[1].content,
        Some(NinePatchContent { content: 0, loaded: true, parent: 5 })
    );
    assert!(data.loaded);
    assert_eq!(data.built_from, Some(HandleId::Index(1)));
    assert_eq!(data.state(Some(&builder)), InstanceState::Built);
    assert!(builder.is_cached_for(&HandleId::Index(1)));
}

#[test]
fn a_built_instance_is_left_alone() {
    let source = filled(40, 40, 1);
    let mut builder = NinePatchBuilder::by_margins(10, 10, 10, 10);
    let mut data = instance(HandleId::Index(1));
    data.reconcile(Some(&mut builder), Some(&source), 5, outer());
    let cut = builder.patch_textures().unwrap().clone();
    assert_eq!(data.reconcile(Some(&mut builder), Some(&source), 5, outer()), Reconciliation::Inert);
    assert_eq!(data.reconcile(Some(&mut builder), None, 5, outer()), Reconciliation::Inert);
    assert_eq!(data.reconcile(None, None, 5, outer()), Reconciliation::Inert);
    let other = filled(50, 50, 2);
    assert_eq!(data.reconcile(Some(&mut builder), Some(&other), 5, outer()), Reconciliation::Inert);
    assert!(data.loaded);
    assert_eq!(data.state(Some(&builder)), InstanceState::Built);
    assert_eq!(builder.patch_textures().unwrap(), &cut);
}

#[test]
fn a_missing_source_defers() {
    let mut builder = NinePatchBuilder::by_margins(10, 10, 10, 10);
    let mut data = instance(HandleId::Index(1));
    for _ in 0..3 {
        assert_eq!(data.reconcile(Some(&mut builder), None, 5, outer()), Reconciliation::Deferred);
        assert!(!data.loaded);
        assert!(data.built_from.is_none());
        assert_eq!(data.state(Some(&builder)), InstanceState::Unsliced);
        assert!(builder.patch_textures().is_none());
    }
    let source = filled(40, 40, 1);
    assert!(matches!(
        data.reconcile(Some(&mut builder), Some(&source), 5, outer()),
        Reconciliation::Built(_)
    ));
}

#[test]
fn a_missing_builder_defers() {
    let source = filled(40, 40, 1);
    let mut data = instance(HandleId::Index(1));
    assert_eq!(data.reconcile(None, Some(&source), 5, outer()), Reconciliation::Deferred);
    assert_eq!(data.reconcile(None, None, 5, outer()), Reconciliation::Deferred);
    assert!(!data.loaded);
    assert_eq!(data.state(None), InstanceState::Unsliced);
}

#[test]
fn a_grid_that_leaves_the_source_is_reported() {
    let source = filled(15, 40, 1);
    let mut builder = NinePatchBuilder::by_margins(10, 10, 10, 10);
    let mut data = instance(HandleId::Index(1));
    for _ in 0..2 {
        assert_eq!(
            data.reconcile(Some(&mut builder), Some(&source), 5, outer()),
            Reconciliation::Malformed
        );
        assert!(!data.loaded);
        assert_eq!(data.state(Some(&builder)), InstanceState::Unsliced);
        assert!(builder.patch_textures().is_none());
    }
}

#[test]
fn a_cut_source_is_sliced_for_every_instance() {
    let source = filled(40, 40, 1);
    let mut builder = NinePatchBuilder::by_margins(10, 10, 10, 10);
    let mut first = instance(HandleId::Index(1));
    let mut second = instance(HandleId::Index(1));
    first.reconcile(Some(&mut builder), Some(&source), 5, outer());
    assert_eq!(second.state(Some(&builder)), InstanceState::Sliced);
    assert_eq!(second.state(None), InstanceState::Unsliced);
    // Without the source the instance waits, and stays sliced.
    assert_eq!(second.reconcile(Some(&mut builder), None, 6, outer()), Reconciliation::Deferred);
    assert_eq!(second.state(Some(&builder)), InstanceState::Sliced);
    assert!(matches!(
        second.reconcile(Some(&mut builder), Some(&source), 6, outer()),
        Reconciliation::Built(_)
    ));
    assert_eq!(second.state(Some(&builder)), InstanceState::Built);
}

#[test]
fn another_source_is_cut_anew() {
    let old = filled(40, 40, 1);
    let new = filled(60, 50, 2);
    let mut builder = NinePatchBuilder::by_margins(10, 10, 10, 10);
    let mut data = instance(HandleId::Index(1));
    data.reconcile(Some(&mut builder), Some(&old), 5, outer());
    assert_eq!(data.state(Some(&builder)), InstanceState::Built);
    assert_eq!(builder.patch_textures().unwrap()[4], old.crop(10, 10, 20, 20).unwrap());

    data.texture = HandleId::Index(2);
    assert_eq!(data.state(Some(&builder)), InstanceState::Unsliced);
    // Until the new source is there, nothing is cut and nothing is loaded.
    assert_eq!(data.reconcile(Some(&mut builder), None, 5, outer()), Reconciliation::Deferred);
    assert!(!data.loaded);
    assert!(data.built_from.is_none());
    assert!(builder.is_cached_for(&HandleId::Index(1)));

    let done = data.reconcile(Some(&mut builder), Some(&new), 5, outer());
    assert!(matches!(done, Reconciliation::Built(_)));
    assert!(data.loaded);
    assert_eq!(data.built_from, Some(HandleId::Index(2)));
    assert_eq!(data.state(Some(&builder)), InstanceState::Built);
    assert!(builder.is_cached_for(&HandleId::Index(2)));
    assert!(!builder.is_cached_for(&HandleId::Index(1)));
    let cut = builder.patch_textures().unwrap();
    assert_eq!(cut[4], new.crop(10, 10, 40, 30).unwrap());
    assert_eq!(cut[4].data()[0], 2);
}

#[test]
fn a_tick_uses_the_nodes_of_the_instance() {
    let source = filled(40, 40, 1);
    let mut builder = NinePatchBuilder::by_margins_with_content(10, 10, 10, 10, 6);
    let mut ready = HashMap::new();
    ready.insert(6, 60);
    let mut data = instance(HandleId::Index(1));
    data.content = Some(ready);
    match data.reconcile(Some(&mut builder), Some(&source), 5, outer()) {
        Reconciliation::Built(layout) => {
            assert_eq!(layout.rows[1].cells[1].child, Some(60));
            assert_eq!(layout.outer, outer());
        }
        other => panic!("no layout: {:?}", other),
    }
}
