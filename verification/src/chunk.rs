//! A chunk: a grid of cells drawn as one unit from a shared atlas.

use crate::atlas::AtlasLayout;
use crate::encoding::IndexWidth;
use crate::index_buffer::{ChunkIndexBuffer, DirtyRect, GridView, IndexError};
use vstd::prelude::*;

verus! {

/// The number of tiles that the cells of a chunk can refer to, given the
/// number of rectangles of its layout: identifiers are 32 bits wide, and the
/// largest is the empty one.
pub open spec fn addressable_tiles(layout_len: nat) -> u32 {
    if layout_len > u32::MAX {
        u32::MAX
    } else {
        layout_len as u32
    }
}

/// A rectangle in world units: the position of its top left corner, then
/// its width and height.
#[derive(Clone, Copy, Debug, PartialEq, Eq)]
pub struct WorldRect {
    pub origin: (i32, i32),
    pub size: (u64, u64),
}

/// What a `TilemapChunk` holds.
pub struct ChunkView {
    /// The layout of the atlas that the chunk draws from.
    pub layout: AtlasLayout,
    /// The grid of tile identifiers.
    pub grid: GridView,
    /// The width and height of one cell in world units.
    pub cell_size: (u32, u32),
    /// The world position of the top left corner of the chunk.
    pub origin: (i32, i32),
}

impl ChunkView {
    /// The layout and the grid are valid, and the grid's cells refer to the
    /// tiles of the layout.
    pub open spec fn valid(self) -> bool {
        &&& self.layout.wf()
        &&& self.grid.valid()
        &&& self.grid.tile_count == addressable_tiles(self.layout@.len())
        &&& self.grid.index_width == IndexWidth::smallest_for(self.grid.tile_count)
    }

    /// The rectangle of the world that the chunk covers.
    pub open spec fn world_bounds(self) -> WorldRect {
        WorldRect {
            origin: self.origin,
            size: (
                (self.grid.width * self.cell_size.0) as u64,
                (self.grid.height * self.cell_size.1) as u64,
            ),
        }
    }
}

/// A grid of cells of one size, each showing a tile of a shared atlas or
/// nothing. The grid's dimensions are fixed when the chunk is built.
#[derive(Debug)]
pub struct TilemapChunk<'a> {
    layout: &'a AtlasLayout,
    tile_indicies: ChunkIndexBuffer,
    cell_size: (u32, u32),
    origin: (i32, i32),
}

impl<'a> View for TilemapChunk<'a> {
    type V = ChunkView;

    closed spec fn view(&self) -> ChunkView {
        ChunkView {
            layout: *self.layout,
            grid: self.tile_indicies@,
            cell_size: self.cell_size,
            origin: self.origin,
        }
    }
}

impl<'a> TilemapChunk<'a> {
    /// The invariant of the chunk.
    pub open spec fn wf(&self) -> bool {
        self@.valid()
    }

    /// A chunk of `grid_dims` empty cells (columns, then rows), each of
    /// `cell_size` world units, that draws from `layout`. Its top left
    /// corner is at the world's origin.
    pub fn new(grid_dims: (u32, u32), cell_size: (u32, u32), layout: &'a AtlasLayout) -> (chunk: Self)
        requires
            layout.wf(),
            grid_dims.0 * grid_dims.1 * IndexWidth::smallest_for(
                addressable_tiles(layout@.len()),
            ).bytes() <= usize::MAX,
        ensures
            chunk.wf(),
            chunk@ == (ChunkView {
                layout: *layout,
                grid: GridView::blank(
                    grid_dims.0,
                    grid_dims.1,
                    addressable_tiles(layout@.len()),
                    IndexWidth::smallest_for(addressable_tiles(layout@.len())),
                ),
                cell_size,
                origin: (0i32, 0i32),
            }),
    {
        let len: usize = layout.len();
        let tile_count: u32 = if len > u32::MAX as usize {
            u32::MAX
        } else {
            len as u32
        };
        let tile_indicies = ChunkIndexBuffer::new(grid_dims.0, grid_dims.1, tile_count);
        TilemapChunk { layout, tile_indicies, cell_size, origin: (0, 0) }
    }

    /// The layout of the atlas that the chunk draws from.
    pub fn layout(&self) -> (layout: &'a AtlasLayout)
        ensures
            *layout == self@.layout,
    {
        self.layout
    }

    /// The grid of tile identifiers.
    pub fn tile_indicies(&self) -> (grid: &ChunkIndexBuffer)
        ensures
            grid@ == self@.grid,
    {
        &self.tile_indicies
    }

    /// The number of columns and of rows.
    pub fn grid_dims(&self) -> (dims: (u32, u32))
        ensures
            dims == (self@.grid.width, self@.grid.height),
    {
        (self.tile_indicies.width(), self.tile_indicies.height())
    }

    /// The width and height of one cell in world units.
    pub fn cell_size(&self) -> (size: (u32, u32))
        ensures
            size == self@.cell_size,
    {
        self.cell_size
    }

    /// The world position of the top left corner.
    pub fn origin(&self) -> (origin: (i32, i32))
        ensures
            origin == self@.origin,
    {
        self.origin
    }

    /// The identifier that marks a cell as empty.
    pub fn empty_id(&self) -> (id: u32)
        ensures
            id == self@.grid.empty_id(),
    {
        self.tile_indicies.empty_id()
    }

    /// Moves the chunk: its top left corner comes to lie at `origin`.
    pub fn place_at(&mut self, origin: (i32, i32))
        ensures
            final(self)@ == (ChunkView { origin, ..old(self)@ }),
    {
        self.origin = origin;
    }

    /// Writes `tile_id` to the cell in column `x` of row `y`, as
    /// `ChunkIndexBuffer::set` does, with the same refusals.
    pub fn paint(&mut self, x: u32, y: u32, tile_id: u32) -> (done: Result<(), IndexError>)
        requires
            old(self).wf(),
        ensures
            final(self).wf(),
            match done {
                Ok(_) => {
                    &&& x < old(self)@.grid.width
                    &&& y < old(self)@.grid.height
                    &&& old(self)@.grid.index_width.admits(old(self)@.grid.tile_count, tile_id)
                    &&& final(self)@ == (ChunkView {
                        grid: old(self)@.grid.painted(x, y, tile_id),
                        ..old(self)@
                    })
                },
                Err(IndexError::OutOfBounds) => {
                    &&& (x >= old(self)@.grid.width || y >= old(self)@.grid.height)
                    &&& final(self)@ == old(self)@
                },
                Err(IndexError::InvalidTile) => {
                    &&& x < old(self)@.grid.width
                    &&& y < old(self)@.grid.height
                    &&& !old(self)@.grid.index_width.admits(old(self)@.grid.tile_count, tile_id)
                    &&& final(self)@ == old(self)@
                },
            },
    {
        self.tile_indicies.set(x, y, tile_id)
    }

    /// The smallest rectangle that covers every cell painted since the
    /// chunk was last uploaded, or nothing where none was.
    pub fn dirty_region(&self) -> (dirty: Option<DirtyRect>)
        ensures
            dirty == self@.grid.dirty,
    {
        self.tile_indicies.dirty_region()
    }

    /// Forgets the dirty rectangle: the chunk counts as uploaded.
    pub fn clear_dirty(&mut self)
        ensures
            final(self)@ == (ChunkView { grid: old(self)@.grid.cleaned(), ..old(self)@ }),
    {
        self.tile_indicies.clear_dirty();
    }

    /// The rectangle of the world that the chunk covers: from its top left
    /// corner, the grid's dimensions times the size of a cell.
    pub fn world_bounds(&self) -> (bounds: WorldRect)
        ensures
            bounds == self@.world_bounds(),
            bounds.size.0 == self@.grid.width * self@.cell_size.0,
            bounds.size.1 == self@.grid.height * self@.cell_size.1,
    {
        let w: u64 = span(self.tile_indicies.width(), self.cell_size.0);
        let h: u64 = span(self.tile_indicies.height(), self.cell_size.1);
        WorldRect { origin: self.origin, size: (w, h) }
    }
}

/// The length of `cells` cells of `cell_size` world units each.
fn span(cells: u32, cell_size: u32) -> (len: u64)
    ensures
        len == cells * cell_size,
{
    proof {
        assert(cells * cell_size <= 0xFFFF_FFFF * 0xFFFF_FFFF) by (nonlinear_arith)
            requires
                0 <= cells <= 0xFFFF_FFFF,
                0 <= cell_size <= 0xFFFF_FFFF,
        ;
    }
    (cells as u64) * (cell_size as u64)
}

} // verus!
