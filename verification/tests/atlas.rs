use tilemap_chunk::atlas::{AtlasLayout, LayoutError, LookupError, Rect};

fn rect(x: u32, y: u32, w: u32, h: u32) -> Rect {
    Rect { offset: (x, y), size: (w, h) }
}

#[test]
fn layout_keeps_rectangles_in_order() {
    let rects = vec![rect(0, 0, 8, 8), rect(8, 0, 8, 8), rect(16, 0, 8, 8)];
    let layout = AtlasLayout::new(rects.clone(), 24, 8).unwrap();
    assert_eq!(layout.len(), 3);
    assert!(!layout.is_empty());
    assert_eq!(layout.width(), 24);
    assert_eq!(layout.height(), 8);
    assert_eq!(layout.rect_for(0), Ok(rects[0]));
    assert_eq!(layout.rect_for(1), Ok(rects[1]));
    assert_eq!(layout.rect_for(2), Ok(rects[2]));
}

#[test]
fn lookup_past_the_last_tile_is_out_of_range() {
    let layout = AtlasLayout::new(vec![rect(0, 0, 8, 8)], 8, 8).unwrap();
    assert_eq!(layout.rect_for(1), Err(LookupError::OutOfRange));
    assert_eq!(layout.rect_for(u32::MAX), Err(LookupError::OutOfRange));
}

#[test]
fn empty_layout_has_no_tile() {
    let layout = AtlasLayout::new(Vec::new(), 0, 0).unwrap();
    assert!(layout.is_empty());
    assert_eq!(layout.len(), 0);
    assert_eq!(layout.rect_for(0), Err(LookupError::OutOfRange));
}

#[test]
fn rectangle_past_the_right_edge_is_refused() {
    let made = AtlasLayout::new(vec![rect(0, 0, 8, 8), rect(17, 0, 8, 8)], 24, 8);
    assert_eq!(made.err(), Some(LayoutError::RectOutOfBounds { index: 1 }));
}

#[test]
fn rectangle_past_the_bottom_edge_is_refused() {
    let made = AtlasLayout::new(vec![rect(0, 1, 8, 8)], 24, 8);
    assert_eq!(made.err(), Some(LayoutError::RectOutOfBounds { index: 0 }));
}

#[test]
fn first_offending_rectangle_is_named() {
    let rects = vec![rect(0, 0, 8, 8), rect(8, 0, 8, 8), rect(20, 0, 8, 8), rect(30, 30, 1, 1)];
    let made = AtlasLayout::new(rects, 24, 8);
    assert_eq!(made.err(), Some(LayoutError::RectOutOfBounds { index: 2 }));
}

#[test]
fn rectangle_that_touches_the_edges_is_accepted() {
    let layout = AtlasLayout::new(vec![rect(16, 0, 8, 8), rect(24, 8, 0, 0)], 24, 8).unwrap();
    assert_eq!(layout.len(), 2);
    assert_eq!(layout.rect_for(1), Ok(rect(24, 8, 0, 0)));
}

#[test]
fn rectangle_whose_far_edge_overflows_is_refused() {
    let made = AtlasLayout::new(vec![rect(u32::MAX, 0, 2, 1)], u32::MAX, 8);
    assert_eq!(made.err(), Some(LayoutError::RectOutOfBounds { index: 0 }));
    let made = AtlasLayout::new(vec![rect(2, 0, u32::MAX, 1)], u32::MAX, 8);
    assert_eq!(made.err(), Some(LayoutError::RectOutOfBounds { index: 0 }));
}

#[test]
fn fits_within_compares_far_edges() {
    assert!(rect(0, 0, 24, 8).fits_within(24, 8));
    assert!(!rect(1, 0, 24, 8).fits_within(24, 8));
    assert!(!rect(0, 0, 24, 9).fits_within(24, 8));
    assert!(rect(24, 8, 0, 0).fits_within(24, 8));
}
