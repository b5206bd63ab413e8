use tilemap_chunk::atlas::{AtlasLayout, Rect};
use tilemap_chunk::chunk::{TilemapChunk, WorldRect};
use tilemap_chunk::encoding::IndexWidth;
use tilemap_chunk::index_buffer::{DirtyRect, IndexError};

fn three_tiles() -> AtlasLayout {
    let rects = vec![
        Rect { offset: (0, 0), size: (8, 8) },
        Rect { offset: (8, 0), size: (8, 8) },
        Rect { offset: (16, 0), size: (8, 8) },
    ];
    AtlasLayout::new(rects, 24, 8).unwrap()
}

#[test]
fn fresh_chunk_is_empty_and_sized_to_its_grid() {
    let layout = three_tiles();
    let chunk = TilemapChunk::new((4, 2), (8, 16), &layout);
    assert_eq!(chunk.grid_dims(), (4, 2));
    assert_eq!(chunk.cell_size(), (8, 16));
    assert_eq!(chunk.origin(), (0, 0));
    assert_eq!(chunk.layout().len(), 3);
    assert_eq!(chunk.empty_id(), 0xFF);
    assert_eq!(chunk.dirty_region(), None);
    let grid = chunk.tile_indicies();
    assert_eq!(grid.width(), 4);
    assert_eq!(grid.height(), 2);
    assert_eq!(grid.tile_count(), 3);
    assert_eq!(grid.index_width(), IndexWidth::Bits8);
    for y in 0..2u32 {
        for x in 0..4u32 {
            assert_eq!(grid.get(x, y), Ok(0xFF));
        }
    }
}

#[test]
fn world_bounds_are_grid_times_cell_size() {
    let layout = three_tiles();
    let mut chunk = TilemapChunk::new((4, 2), (8, 16), &layout);
    assert_eq!(chunk.world_bounds(), WorldRect { origin: (0, 0), size: (32, 32) });
    chunk.place_at((-7, 12));
    assert_eq!(chunk.origin(), (-7, 12));
    assert_eq!(chunk.world_bounds(), WorldRect { origin: (-7, 12), size: (32, 32) });
}

#[test]
fn world_bounds_do_not_overflow() {
    let layout = three_tiles();
    let chunk = TilemapChunk::new((3, 0), (u32::MAX, u32::MAX), &layout);
    assert_eq!(chunk.world_bounds().size, (3 * (u32::MAX as u64), 0));
}

#[test]
fn paint_writes_like_the_grid() {
    let layout = three_tiles();
    let mut chunk = TilemapChunk::new((2, 2), (8, 8), &layout);
    assert_eq!(chunk.paint(1, 0, 2), Ok(()));
    assert_eq!(chunk.tile_indicies().get(1, 0), Ok(2));
    assert_eq!(chunk.dirty_region(), Some(DirtyRect { x: 1, y: 0, w: 1, h: 1 }));
    assert_eq!(chunk.paint(2, 0, 0), Err(IndexError::OutOfBounds));
    assert_eq!(chunk.paint(0, 2, 0), Err(IndexError::OutOfBounds));
    assert_eq!(chunk.paint(0, 0, 3), Err(IndexError::InvalidTile));
    assert_eq!(chunk.tile_indicies().get(0, 0), Ok(0xFF));
    assert_eq!(chunk.dirty_region(), Some(DirtyRect { x: 1, y: 0, w: 1, h: 1 }));
    assert_eq!(chunk.paint(1, 0, chunk.empty_id()), Ok(()));
    assert_eq!(chunk.tile_indicies().get(1, 0), Ok(0xFF));
    assert_eq!(chunk.grid_dims(), (2, 2));
    chunk.clear_dirty();
    assert_eq!(chunk.dirty_region(), None);
}

#[test]
fn chunk_of_a_large_layout_takes_wider_cells() {
    let rects = vec![Rect { offset: (0, 0), size: (1, 1) }; 300];
    let layout = AtlasLayout::new(rects, 1, 1).unwrap();
    let mut chunk = TilemapChunk::new((1, 1), (1, 1), &layout);
    assert_eq!(chunk.tile_indicies().index_width(), IndexWidth::Bits16);
    assert_eq!(chunk.empty_id(), 0xFFFF);
    assert_eq!(chunk.paint(0, 0, 299), Ok(()));
    assert_eq!(chunk.paint(0, 0, 300), Err(IndexError::InvalidTile));
}
