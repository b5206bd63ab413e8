use tilemap_chunk::encoding::{decode_cell, IndexWidth};
use tilemap_chunk::index_buffer::{ChunkIndexBuffer, DirtyRect, IndexError};

fn cells_of(grid: &ChunkIndexBuffer) -> Vec<u32> {
    let mut cells = Vec::new();
    for y in 0..grid.height() {
        for x in 0..grid.width() {
            cells.push(grid.get(x, y).unwrap());
        }
    }
    cells
}

#[test]
fn narrowest_width_is_chosen() {
    assert_eq!(IndexWidth::for_tile_count(0), IndexWidth::Bits8);
    assert_eq!(IndexWidth::for_tile_count(3), IndexWidth::Bits8);
    assert_eq!(IndexWidth::for_tile_count(255), IndexWidth::Bits8);
    assert_eq!(IndexWidth::for_tile_count(256), IndexWidth::Bits16);
    assert_eq!(IndexWidth::for_tile_count(65535), IndexWidth::Bits16);
    assert_eq!(IndexWidth::for_tile_count(65536), IndexWidth::Bits32);
    assert_eq!(IndexWidth::for_tile_count(u32::MAX), IndexWidth::Bits32);
}

#[test]
fn empty_identifier_is_the_largest_of_its_width() {
    assert_eq!(IndexWidth::Bits8.sentinel(), 0xFF);
    assert_eq!(IndexWidth::Bits16.sentinel(), 0xFFFF);
    assert_eq!(IndexWidth::Bits32.sentinel(), 0xFFFF_FFFF);
    assert_eq!(IndexWidth::Bits8.byte_len(), 1);
    assert_eq!(IndexWidth::Bits16.byte_len(), 2);
    assert_eq!(IndexWidth::Bits32.byte_len(), 4);
}

#[test]
fn fresh_grid_is_empty_everywhere() {
    for tile_count in [0u32, 3, 255, 256, 65535, 65536, u32::MAX] {
        let mut grid = ChunkIndexBuffer::new(5, 3, tile_count);
        let width = grid.index_width();
        assert_eq!(grid.width(), 5);
        assert_eq!(grid.height(), 3);
        assert_eq!(grid.tile_count(), tile_count);
        assert_eq!(grid.empty_id(), width.sentinel());
        assert_eq!(grid.dirty_region(), None);
        let bytes = grid.encode();
        assert_eq!(bytes.len(), 15 * width.byte_len());
        assert!(bytes.iter().all(|b| *b == 0xFF));
        for cell in 0..15usize {
            assert_eq!(decode_cell(&bytes, width, cell), Some(width.sentinel()));
        }
        for y in 0..3u32 {
            for x in 0..5u32 {
                assert_eq!(grid.get(x, y), Ok(width.sentinel()));
            }
        }
    }
}

#[test]
fn grid_without_cells_encodes_to_nothing() {
    let mut grid = ChunkIndexBuffer::new(0, 7, 3);
    assert_eq!(grid.encode(), Vec::<u8>::new());
    assert_eq!(grid.get(0, 0), Err(IndexError::OutOfBounds));
    assert_eq!(grid.set(0, 0, 0), Err(IndexError::OutOfBounds));
}

#[test]
fn written_cell_reads_back() {
    let mut grid = ChunkIndexBuffer::new(4, 3, 10);
    for y in 0..3u32 {
        for x in 0..4u32 {
            for id in [0u32, 9, 0xFF] {
                assert_eq!(grid.set(x, y, id), Ok(()));
                assert_eq!(grid.get(x, y), Ok(id));
            }
        }
    }
}

#[test]
fn write_leaves_other_cells_alone() {
    let mut grid = ChunkIndexBuffer::new(3, 2, 4);
    grid.set(1, 1, 2).unwrap();
    assert_eq!(cells_of(&grid), vec![0xFF, 0xFF, 0xFF, 0xFF, 2, 0xFF]);
    grid.set(2, 0, 3).unwrap();
    assert_eq!(cells_of(&grid), vec![0xFF, 0xFF, 3, 0xFF, 2, 0xFF]);
}

#[test]
fn write_outside_the_grid_is_refused_and_changes_nothing() {
    let mut grid = ChunkIndexBuffer::new(3, 2, 4);
    grid.set(1, 0, 1).unwrap();
    let before = cells_of(&grid);
    let dirty = grid.dirty_region();
    assert_eq!(grid.set(3, 0, 1), Err(IndexError::OutOfBounds));
    assert_eq!(grid.set(0, 2, 1), Err(IndexError::OutOfBounds));
    assert_eq!(grid.set(u32::MAX, u32::MAX, 1), Err(IndexError::OutOfBounds));
    assert_eq!(cells_of(&grid), before);
    assert_eq!(grid.dirty_region(), dirty);
}

#[test]
fn unknown_tile_is_refused_and_changes_nothing() {
    let mut grid = ChunkIndexBuffer::new(3, 2, 4);
    grid.set(1, 0, 1).unwrap();
    let before = cells_of(&grid);
    let dirty = grid.dirty_region();
    assert_eq!(grid.set(0, 0, 4), Err(IndexError::InvalidTile));
    assert_eq!(grid.set(0, 0, 0xFE), Err(IndexError::InvalidTile));
    assert_eq!(grid.set(0, 0, 0x100), Err(IndexError::InvalidTile));
    assert_eq!(cells_of(&grid), before);
    assert_eq!(grid.dirty_region(), dirty);
}

#[test]
fn position_is_checked_before_the_tile() {
    let mut grid = ChunkIndexBuffer::new(3, 2, 4);
    assert_eq!(grid.set(3, 0, 99), Err(IndexError::OutOfBounds));
}

#[test]
fn read_outside_the_grid_is_refused() {
    let grid = ChunkIndexBuffer::new(3, 2, 4);
    assert_eq!(grid.get(3, 0), Err(IndexError::OutOfBounds));
    assert_eq!(grid.get(0, 2), Err(IndexError::OutOfBounds));
    assert_eq!(grid.get(2, 1), Ok(0xFF));
}

#[test]
fn one_write_dirties_one_cell() {
    let mut grid = ChunkIndexBuffer::new(8, 8, 10);
    grid.set(2, 3, 5).unwrap();
    assert_eq!(grid.dirty_region(), Some(DirtyRect { x: 2, y: 3, w: 1, h: 1 }));
}

#[test]
fn two_writes_dirty_their_bounding_box() {
    let mut grid = ChunkIndexBuffer::new(8, 8, 10);
    grid.set(1, 1, 0).unwrap();
    grid.set(4, 4, 0).unwrap();
    assert_eq!(grid.dirty_region(), Some(DirtyRect { x: 1, y: 1, w: 4, h: 4 }));
}

#[test]
fn dirty_rectangle_grows_to_the_left_and_up() {
    let mut grid = ChunkIndexBuffer::new(8, 8, 10);
    grid.set(4, 5, 0).unwrap();
    grid.set(2, 6, 0).unwrap();
    assert_eq!(grid.dirty_region(), Some(DirtyRect { x: 2, y: 5, w: 3, h: 2 }));
    grid.set(7, 0, 0).unwrap();
    assert_eq!(grid.dirty_region(), Some(DirtyRect { x: 2, y: 0, w: 6, h: 7 }));
    grid.set(3, 3, 0).unwrap();
    assert_eq!(grid.dirty_region(), Some(DirtyRect { x: 2, y: 0, w: 6, h: 7 }));
}

#[test]
fn encoding_clears_the_dirty_rectangle() {
    let mut grid = ChunkIndexBuffer::new(2, 2, 3);
    grid.set(1, 0, 1).unwrap();
    assert!(grid.dirty_region().is_some());
    let bytes = grid.encode();
    assert_eq!(bytes, vec![0xFF, 1, 0xFF, 0xFF]);
    assert_eq!(grid.dirty_region(), None);
    assert_eq!(grid.get(1, 0), Ok(1));
    grid.set(0, 1, 2).unwrap();
    assert_eq!(grid.dirty_region(), Some(DirtyRect { x: 0, y: 1, w: 1, h: 1 }));
    grid.clear_dirty();
    assert_eq!(grid.dirty_region(), None);
    assert_eq!(grid.encode(), vec![0xFF, 1, 2, 0xFF]);
}

#[test]
fn bytes_run_row_by_row_from_the_top() {
    let mut grid = ChunkIndexBuffer::new(3, 2, 6);
    let mut id: u32 = 0;
    for y in 0..2u32 {
        for x in 0..3u32 {
            grid.set(x, y, id).unwrap();
            id += 1;
        }
    }
    assert_eq!(grid.encode(), vec![0, 1, 2, 3, 4, 5]);
}

#[test]
fn two_byte_cells_are_little_endian() {
    let mut grid = ChunkIndexBuffer::new(2, 1, 1000);
    assert_eq!(grid.index_width(), IndexWidth::Bits16);
    grid.set(0, 0, 0x0102).unwrap();
    let bytes = grid.encode();
    assert_eq!(bytes, vec![0x02, 0x01, 0xFF, 0xFF]);
    assert_eq!(decode_cell(&bytes, IndexWidth::Bits16, 0), Some(0x0102));
    assert_eq!(decode_cell(&bytes, IndexWidth::Bits16, 1), Some(0xFFFF));
    assert_eq!(decode_cell(&bytes, IndexWidth::Bits16, 2), None);
}

#[test]
fn four_byte_cells_are_little_endian() {
    let mut grid = ChunkIndexBuffer::new(1, 2, 0x0100_0000);
    assert_eq!(grid.index_width(), IndexWidth::Bits32);
    grid.set(0, 1, 0x00A1_B2C3).unwrap();
    let bytes = grid.encode();
    assert_eq!(bytes, vec![0xFF, 0xFF, 0xFF, 0xFF, 0xC3, 0xB2, 0xA1, 0x00]);
    assert_eq!(decode_cell(&bytes, IndexWidth::Bits32, 0), Some(0xFFFF_FFFF));
    assert_eq!(decode_cell(&bytes, IndexWidth::Bits32, 1), Some(0x00A1_B2C3));
    assert_eq!(decode_cell(&bytes, IndexWidth::Bits32, 2), None);
}

#[test]
fn decoding_stops_where_the_bytes_end() {
    let bytes = vec![1u8, 2, 3];
    assert_eq!(decode_cell(&bytes, IndexWidth::Bits8, 2), Some(3));
    assert_eq!(decode_cell(&bytes, IndexWidth::Bits8, 3), None);
    assert_eq!(decode_cell(&bytes, IndexWidth::Bits16, 0), Some(0x0201));
    assert_eq!(decode_cell(&bytes, IndexWidth::Bits16, 1), None);
    assert_eq!(decode_cell(&bytes, IndexWidth::Bits32, 0), None);
    assert_eq!(decode_cell(&bytes, IndexWidth::Bits8, usize::MAX), None);
}

#[test]
fn region_is_encoded_as_a_grid_of_its_own() {
    let mut grid = ChunkIndexBuffer::new(4, 3, 12);
    let mut id: u32 = 0;
    for y in 0..3u32 {
        for x in 0..4u32 {
            grid.set(x, y, id).unwrap();
            id += 1;
        }
    }
    let region = DirtyRect { x: 1, y: 1, w: 2, h: 2 };
    assert_eq!(grid.encode_region(region), Ok(vec![5, 6, 9, 10]));
    let whole = DirtyRect { x: 0, y: 0, w: 4, h: 3 };
    assert_eq!(grid.encode_region(whole), Ok((0u8..12).collect::<Vec<u8>>()));
    assert!(grid.dirty_region().is_some());
}

#[test]
fn region_past_the_grid_is_refused() {
    let grid = ChunkIndexBuffer::new(4, 3, 12);
    for region in [
        DirtyRect { x: 3, y: 0, w: 2, h: 1 },
        DirtyRect { x: 0, y: 2, w: 1, h: 2 },
        DirtyRect { x: 0, y: 0, w: 0, h: 1 },
        DirtyRect { x: 0, y: 0, w: 1, h: 0 },
        DirtyRect { x: u32::MAX, y: 0, w: 2, h: 1 },
    ] {
        assert_eq!(grid.encode_region(region), Err(IndexError::OutOfBounds));
    }
}

#[test]
fn chosen_width_must_hold_the_tiles() {
    assert!(ChunkIndexBuffer::with_index_width(2, 2, 256, IndexWidth::Bits8).is_none());
    assert!(ChunkIndexBuffer::with_index_width(2, 2, 65536, IndexWidth::Bits16).is_none());
    let mut wide = ChunkIndexBuffer::with_index_width(2, 1, 3, IndexWidth::Bits16).unwrap();
    assert_eq!(wide.index_width(), IndexWidth::Bits16);
    assert_eq!(wide.empty_id(), 0xFFFF);
    assert_eq!(wide.set(0, 0, 0xFF), Err(IndexError::InvalidTile));
    wide.set(1, 0, 2).unwrap();
    assert_eq!(wide.encode(), vec![0xFF, 0xFF, 2, 0]);
    let narrow = ChunkIndexBuffer::with_index_width(2, 1, 255, IndexWidth::Bits8).unwrap();
    assert_eq!(narrow.tile_count(), 255);
}
