use bevy_ninepatch::bitmap::Bitmap;

fn numbered(width: u32, height: u32) -> Bitmap {
    let len = (width * height * 4) as usize;
    let data: Vec<u8> = (0..len).map(|i| (i % 251) as u8).collect();
    Bitmap::new(width, height, data).unwrap()
}

#[test]
fn new_takes_four_bytes_per_pixel() {
    let bitmap = Bitmap::new(2, 3, vec![7; 24]).unwrap();
    assert_eq!(bitmap.width(), 2);
    assert_eq!(bitmap.height(), 3);
    assert_eq!(bitmap.byte_len(), 24);
    assert_eq!(bitmap.data(), &vec![7u8; 24]);
}

#[test]
fn new_refuses_other_lengths() {
    assert!(Bitmap::new(2, 3, vec![0; 23]).is_none());
    assert!(Bitmap::new(2, 3, vec![0; 25]).is_none());
    assert!(Bitmap::new(2, 3, vec![]).is_none());
    assert!(Bitmap::new(0, 3, vec![0; 4]).is_none());
    assert!(Bitmap::new(0, 3, vec![]).is_some());
    assert!(Bitmap::new(u32::MAX, u32::MAX, vec![0; 4]).is_none());
}

#[test]
fn crop_copies_the_rectangle() {
    // 4 x 3 pixels; byte i holds i.
    let source = numbered(4, 3);
    let patch = source.crop(1, 1, 2, 2).unwrap();
    assert_eq!(patch.width(), 2);
    assert_eq!(patch.height(), 2);
    // Scanline 1 starts at byte 16, column 1 at byte 20; scanline 2 at 32, column 1 at 36.
    assert_eq!(
        patch.data(),
        &vec![20u8, 21, 22, 23, 24, 25, 26, 27, 36, 37, 38, 39, 40, 41, 42, 43]
    );
}

#[test]
fn crop_of_everything_is_the_source() {
    let source = numbered(5, 4);
    assert_eq!(source.crop(0, 0, 5, 4).unwrap(), source);
}

#[test]
fn crop_of_nothing_is_empty() {
    let source = numbered(5, 4);
    let patch = source.crop(5, 4, 0, 0).unwrap();
    assert_eq!(patch.width(), 0);
    assert_eq!(patch.height(), 0);
    assert!(patch.data().is_empty());
    let line = source.crop(2, 1, 3, 0).unwrap();
    assert_eq!((line.width(), line.height()), (3, 0));
    assert!(line.data().is_empty());
}

#[test]
fn crop_refuses_what_leaves_the_source() {
    let source = numbered(5, 4);
    assert!(source.crop(3, 0, 3, 1).is_none());
    assert!(source.crop(0, 3, 1, 2).is_none());
    assert!(source.crop(6, 0, 0, 0).is_none());
    assert!(source.crop(u32::MAX, 0, 1, 1).is_none());
    assert!(source.crop(1, 1, u32::MAX, u32::MAX).is_none());
}

#[test]
fn blank_is_all_zero() {
    let bitmap = Bitmap::blank(3, 2).unwrap();
    assert_eq!((bitmap.width(), bitmap.height()), (3, 2));
    assert_eq!(bitmap.data(), &vec![0u8; 24]);
    assert!(Bitmap::blank(0, 0).unwrap().data().is_empty());
}

#[test]
fn paint_writes_the_patch_at_its_place() {
    let mut canvas = Bitmap::blank(3, 3).unwrap();
    let patch = Bitmap::new(2, 1, vec![1, 2, 3, 4, 5, 6, 7, 8]).unwrap();
    assert!(canvas.paint(&patch, 1, 2));
    let mut wanted = vec![0u8; 36];
    // Scanline 2 starts at byte 24, column 1 at byte 28.
    wanted[28..36].copy_from_slice(&[1, 2, 3, 4, 5, 6, 7, 8]);
    assert_eq!(canvas.data(), &wanted);
}

#[test]
fn paint_refuses_what_leaves_the_canvas() {
    let mut canvas = Bitmap::blank(3, 3).unwrap();
    let patch = Bitmap::new(2, 1, vec![9; 8]).unwrap();
    assert!(!canvas.paint(&patch, 2, 0));
    assert!(!canvas.paint(&patch, 0, 3));
    assert_eq!(canvas, Bitmap::blank(3, 3).unwrap());
}

#[test]
fn paint_puts_a_crop_back() {
    let source = numbered(6, 5);
    let patch = source.crop(2, 1, 3, 3).unwrap();
    let mut copy = source.clone();
    assert!(copy.paint(&patch, 2, 1));
    assert_eq!(copy, source);
}
