use std::collections::HashMap;

use bevy_ninepatch::bitmap::Bitmap;
use bevy_ninepatch::content::NinePatchContent;
use bevy_ninepatch::grid::{Patch, RegionSize, SizeRule};
use bevy_ninepatch::handle::HandleId;
use bevy_ninepatch::layout::{Extent, Layout, LayoutCell, LayoutRow, OuterSize};
use bevy_ninepatch::ninepatch::NinePatchBuilder;

fn grey(width: u32, height: u32) -> Bitmap {
    Bitmap::new(width, height, vec![128; (width * height * 4) as usize]).unwrap()
}

fn region(w: i32, h: i32, tw: SizeRule, th: SizeRule, content: Option<u32>) -> Patch {
    Patch { original_size: RegionSize::new(w, h), target_width: tw, target_height: th, content }
}

fn outer(width: u32, height: u32) -> OuterSize {
    OuterSize { width: Extent::Px(width), height: Extent::Px(height) }
}

fn lay_out(
    builder: &mut NinePatchBuilder,
    source: &Bitmap,
    parent: u64,
    size: OuterSize,
    contents: &Option<HashMap<u32, u64>>,
) -> Layout {
    builder.apply(&HandleId::Index(1), Some(source)).unwrap().add_with_parent(parent, size, contents)
}

fn leaf(texture: usize, width: Extent, height: Extent, grow: u32) -> LayoutCell {
    LayoutCell { texture, width, height, grow, content: None, child: None }
}

#[test]
fn rules_resolve_to_size_and_weight() {
    assert_eq!(SizeRule::Fixed(0).resolve(17), (Extent::Px(17), 0));
    assert_eq!(SizeRule::Fixed(0).resolve(0), (Extent::Px(0), 0));
    assert_eq!(SizeRule::Fixed(25).resolve(17), (Extent::Px(25), 0));
    assert_eq!(SizeRule::GrowToFill.resolve(17), (Extent::Auto, 100));
    assert_eq!(SizeRule::ProportionOfContainer(30).resolve(17), (Extent::Auto, 30));
    assert_eq!(SizeRule::ProportionOfContainer(0).resolve(17), (Extent::Auto, 0));
    assert_eq!(SizeRule::ProportionOfContainer(250).resolve(17), (Extent::Auto, 250));
}

#[test]
fn margins_of_ten_in_two_hundred() {
    let source = grey(40, 40);
    let mut builder = NinePatchBuilder::by_margins(10, 10, 10, 10);
    let layout = lay_out(&mut builder, &source, 5, outer(200, 200), &None);
    assert_eq!(layout.parent, 5);
    assert_eq!(layout.outer, outer(200, 200));
    assert_eq!(layout.rows.len(), 3);
    let px = Extent::Px(10);
    let auto = Extent::Auto;
    let full = Extent::Percent(100);
    let slot = NinePatchContent { content: 0, loaded: false, parent: 5 };
    assert_eq!(
        layout.rows[0],
        LayoutRow {
            width: full,
            height: px,
            grow: 0,
            cells: vec![leaf(0, px, px, 0), leaf(1, auto, px, 100), leaf(2, px, px, 0)],
        }
    );
    assert_eq!(
        layout.rows[1],
        LayoutRow {
            width: full,
            height: auto,
            grow: 100,
            cells: vec![
                leaf(3, px, auto, 0),
                LayoutCell {
                    texture: 4,
                    width: auto,
                    height: auto,
                    grow: 100,
                    content: Some(slot),
                    child: None,
                },
                leaf(5, px, auto, 0),
            ],
        }
    );
    assert_eq!(
        layout.rows[2],
        LayoutRow {
            width: full,
            height: px,
            grow: 0,
            cells: vec![leaf(6, px, px, 0), leaf(7, auto, px, 100), leaf(8, px, px, 0)],
        }
    );
    // What the corners leave of 200 pixels is what the cells that grow fill.
    assert_eq!(layout.rows[0].flexible_width(200), 180);
    assert_eq!(layout.rows[1].flexible_width(200), 180);
    assert_eq!(layout.rows[2].flexible_width(200), 180);
    assert_eq!(layout.flexible_height(200), 180);
}

#[test]
fn flexible_space_is_what_fixed_sizes_leave() {
    let row = LayoutRow {
        width: Extent::Percent(100),
        height: Extent::Auto,
        grow: 100,
        cells: vec![
            leaf(0, Extent::Px(30), Extent::Auto, 0),
            leaf(1, Extent::Auto, Extent::Auto, 30),
            leaf(2, Extent::Px(25), Extent::Auto, 0),
            leaf(3, Extent::Percent(50), Extent::Auto, 0),
        ],
    };
    assert_eq!(row.flexible_width(900), 845);
    assert_eq!(row.flexible_width(55), 0);
    assert_eq!(row.flexible_width(54), 0);
    assert_eq!(row.flexible_width(0), 0);
    let big = LayoutRow {
        width: Extent::Percent(100),
        height: Extent::Px(u32::MAX),
        grow: 0,
        cells: vec![
            leaf(0, Extent::Px(u32::MAX), Extent::Auto, 0),
            leaf(1, Extent::Px(u32::MAX), Extent::Auto, 0),
        ],
    };
    assert_eq!(big.flexible_width(u32::MAX), 0);
    let layout = Layout { parent: 0, outer: outer(10, 10), rows: vec![row, big.clone(), big] };
    assert_eq!(layout.flexible_height(u32::MAX), 0);
    let none = Layout { parent: 0, outer: outer(10, 10), rows: vec![] };
    assert_eq!(none.flexible_height(77), 77);
}

#[test]
fn sizes_follow_each_region() {
    let source = grey(100, 80);
    let rows = vec![
        vec![
            region(30, 35, SizeRule::Fixed(0), SizeRule::Fixed(0), None),
            region(15, 35, SizeRule::ProportionOfContainer(30), SizeRule::Fixed(0), None),
            region(40, 20, SizeRule::Fixed(64), SizeRule::Fixed(48), None),
            region(-85, 35, SizeRule::GrowToFill, SizeRule::ProportionOfContainer(70), None),
        ],
        vec![region(-20, -35, SizeRule::Fixed(0), SizeRule::ProportionOfContainer(100), None)],
    ];
    let mut builder = NinePatchBuilder::from_patches(rows);
    let layout = lay_out(&mut builder, &source, 1, outer(900, 600), &None);
    assert_eq!(
        layout.rows[0],
        LayoutRow {
            width: Extent::Percent(100),
            height: Extent::Px(35),
            grow: 0,
            cells: vec![
                leaf(0, Extent::Px(30), Extent::Px(35), 0),
                leaf(1, Extent::Auto, Extent::Px(35), 30),
                leaf(2, Extent::Px(64), Extent::Px(48), 0),
                leaf(3, Extent::Auto, Extent::Auto, 100),
            ],
        }
    );
    assert_eq!(
        layout.rows[1],
        LayoutRow {
            width: Extent::Percent(100),
            height: Extent::Auto,
            grow: 100,
            cells: vec![leaf(4, Extent::Px(80), Extent::Auto, 0)],
        }
    );
}

#[test]
fn a_row_takes_its_height_from_its_first_region_alone() {
    let source = grey(10, 10);
    let rows = vec![vec![
        region(5, 4, SizeRule::Fixed(0), SizeRule::Fixed(7), None),
        region(5, 10, SizeRule::Fixed(0), SizeRule::GrowToFill, None),
    ]];
    let mut builder = NinePatchBuilder::from_patches(rows);
    let layout = lay_out(&mut builder, &source, 1, outer(50, 50), &None);
    assert_eq!(layout.rows[0].height, Extent::Px(7));
    assert_eq!(layout.rows[0].grow, 0);
    assert_eq!(layout.rows[0].cells[1].height, Extent::Auto);
}

#[test]
fn ragged_rows_lay_out_alone() {
    let source = grey(12, 9);
    let middle = vec![
        region(4, 3, SizeRule::Fixed(0), SizeRule::Fixed(0), None),
        region(-4, 3, SizeRule::GrowToFill, SizeRule::Fixed(0), None),
    ];
    let wide = vec![
        vec![region(12, 3, SizeRule::Fixed(0), SizeRule::Fixed(0), None)],
        middle.clone(),
        vec![
            region(3, 3, SizeRule::Fixed(0), SizeRule::GrowToFill, None),
            region(3, 3, SizeRule::Fixed(0), SizeRule::GrowToFill, None),
            region(3, 3, SizeRule::Fixed(0), SizeRule::GrowToFill, None),
            region(3, 3, SizeRule::Fixed(0), SizeRule::GrowToFill, None),
        ],
    ];
    let narrow = vec![middle.clone(), vec![]];
    let first =
        lay_out(&mut NinePatchBuilder::from_patches(wide), &source, 1, outer(50, 50), &None);
    let second =
        lay_out(&mut NinePatchBuilder::from_patches(narrow), &source, 1, outer(50, 50), &None);
    assert_eq!(first.rows.iter().map(|r| r.cells.len()).collect::<Vec<_>>(), vec![1, 2, 4]);
    assert_eq!(second.rows.iter().map(|r| r.cells.len()).collect::<Vec<_>>(), vec![2, 0]);
    let sizing = |row: &LayoutRow| {
        (
            row.width,
            row.height,
            row.grow,
            row.cells.iter().map(|c| (c.width, c.height, c.grow)).collect::<Vec<_>>(),
        )
    };
    assert_eq!(sizing(&first.rows[1]), sizing(&second.rows[0]));
    assert_eq!(
        sizing(&first.rows[1]),
        (
            Extent::Percent(100),
            Extent::Px(3),
            0,
            vec![(Extent::Px(4), Extent::Px(3), 0), (Extent::Auto, Extent::Px(3), 100)]
        )
    );
    // Only the place of the patches moves with the rows above.
    assert_eq!(first.rows[1].cells[0].texture, 1);
    assert_eq!(second.rows[0].cells[0].texture, 0);
    assert_eq!(first.rows[2].cells[3].texture, 6);
}

#[test]
fn a_row_without_regions_has_no_height() {
    let source = grey(4, 4);
    let rows = vec![vec![], vec![region(4, 4, SizeRule::Fixed(0), SizeRule::Fixed(0), None)]];
    let layout =
        lay_out(&mut NinePatchBuilder::from_patches(rows), &source, 1, outer(50, 50), &None);
    assert_eq!(
        layout.rows[0],
        LayoutRow { width: Extent::Percent(100), height: Extent::Px(0), grow: 0, cells: vec![] }
    );
    assert_eq!(layout.rows[1].cells[0].texture, 0);
}

#[test]
fn a_ready_node_is_grafted_at_once() {
    let source = grey(40, 40);
    let mut builder = NinePatchBuilder::by_margins_with_content(10, 10, 10, 10, 7);
    let mut ready = HashMap::new();
    ready.insert(7, 99);
    ready.insert(8, 100);
    let layout = lay_out(&mut builder, &source, 5, outer(200, 200), &Some(ready));
    let centre = layout.rows[1].cells[1];
    assert_eq!(centre.content, Some(NinePatchContent { content: 7, loaded: true, parent: 5 }));
    assert_eq!(centre.child, Some(99));
    assert!(layout.rows[0].cells.iter().all(|c| c.content.is_none() && c.child.is_none()));
}

#[test]
fn a_slot_without_a_node_waits() {
    let source = grey(40, 40);
    let mut builder = NinePatchBuilder::by_margins_with_content(10, 10, 10, 10, 7);
    let mut ready = HashMap::new();
    ready.insert(8, 100);
    let layout = lay_out(&mut builder, &source, 5, outer(200, 200), &Some(ready));
    let centre = layout.rows[1].cells[1];
    assert_eq!(centre.content, Some(NinePatchContent { content: 7, loaded: false, parent: 5 }));
    assert_eq!(centre.child, None);
    let layout = lay_out(&mut builder, &source, 5, outer(200, 200), &Some(HashMap::new()));
    assert_eq!(layout.rows[1].cells[1].child, None);
}

#[test]
fn the_first_of_two_equal_slots_gets_the_node() {
    let source = grey(4, 2);
    let rows = vec![
        vec![
            region(1, 1, SizeRule::Fixed(0), SizeRule::Fixed(0), Some(3)),
            region(1, 1, SizeRule::Fixed(0), SizeRule::Fixed(0), Some(4)),
            region(1, 1, SizeRule::Fixed(0), SizeRule::Fixed(0), Some(3)),
        ],
        vec![
            region(1, 1, SizeRule::Fixed(0), SizeRule::Fixed(0), Some(4)),
            region(1, 1, SizeRule::Fixed(0), SizeRule::Fixed(0), Some(5)),
        ],
    ];
    let mut ready = HashMap::new();
    ready.insert(3, 30);
    ready.insert(4, 40);
    let layout = lay_out(
        &mut NinePatchBuilder::from_patches(rows),
        &source,
        9,
        outer(10, 10),
        &Some(ready),
    );
    let seen: Vec<(Option<NinePatchContent>, Option<u64>)> =
        layout.rows.iter().flat_map(|r| r.cells.iter().map(|c| (c.content, c.child))).collect();
    let mark = |content: u32, loaded: bool| Some(NinePatchContent { content, loaded, parent: 9 });
    assert_eq!(
        seen,
        vec![
            (mark(3, true), Some(30)),
            (mark(4, true), Some(40)),
            (mark(3, false), None),
            (mark(4, false), None),
            (mark(5, false), None),
        ]
    );
}
