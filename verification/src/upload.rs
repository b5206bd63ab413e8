//! The upload path: it brings the index texture of a chunk up to date with
//! the chunk's grid, moving only what was written since the last upload.

use crate::chunk::{ChunkView, TilemapChunk};
use crate::encoding::IndexWidth;
use crate::index_buffer::{lemma_touched_is_least, touched, DirtyRect, GridView};
use crate::texture::{IndexTexture, TexelView};
use vstd::prelude::*;

verus! {

/// How the cells reach the texture. Both ways leave the same bytes there.
#[derive(Clone, Copy, Debug, PartialEq, Eq, Structural)]
pub enum UploadStrategy {
    /// The cells are written straight into the texture.
    MapAndWrite,
    /// The cells are gathered in an intermediate buffer and copied from
    /// there.
    StagedCopy,
}

/// Why an upload was not made.
#[derive(Clone, Copy, Debug, PartialEq, Eq, Structural)]
pub enum UploadError {
    /// The texture has not the dimensions or the texel width of the
    /// chunk's grid.
    TargetMismatch,
}

/// The rectangle of `grid` that an upload moves: nothing where nothing is
/// dirty, the whole grid where the dirty rectangle covers half of it or
/// more, else the dirty rectangle.
pub open spec fn transfer_region(grid: GridView) -> Option<DirtyRect> {
    match grid.dirty {
        None => None,
        Some(r) => if 2 * r.area() >= grid.width * grid.height {
            Some(DirtyRect { x: 0, y: 0, w: grid.width, h: grid.height })
        } else {
            Some(r)
        },
    }
}

/// What an `UploadPath` holds.
pub struct UploadView {
    /// How the cells reach the texture.
    pub strategy: UploadStrategy,
    /// The texture that the shading stage reads.
    pub target: TexelView,
}

/// The owner of the index texture of one chunk.
#[derive(Debug)]
pub struct UploadPath {
    strategy: UploadStrategy,
    target: IndexTexture,
}

impl View for UploadPath {
    type V = UploadView;

    closed spec fn view(&self) -> UploadView {
        UploadView { strategy: self.strategy, target: self.target@ }
    }
}

impl UploadPath {
    /// The invariant of the path: its texture is well formed.
    pub closed spec fn wf(&self) -> bool {
        self.target.wf()
    }

    /// The texture of a well-formed path is valid.
    pub proof fn lemma_wf_valid(&self)
        requires
            self.wf(),
        ensures
            self@.target.valid(),
    {
        self.target.lemma_wf_valid();
    }

    /// An upload path that owns `target` and fills it by `strategy`.
    pub fn new(strategy: UploadStrategy, target: IndexTexture) -> (path: UploadPath)
        requires
            target.wf(),
        ensures
            path.wf(),
            path@ == (UploadView { strategy, target: target@ }),
    {
        UploadPath { strategy, target }
    }

    /// An upload path for `chunk`, with a texture of empty texels of the
    /// dimensions of the chunk's grid.
    pub fn for_chunk(strategy: UploadStrategy, chunk: &TilemapChunk) -> (path: UploadPath)
        requires
            chunk.wf(),
        ensures
            path.wf(),
            path@ == (UploadView {
                strategy,
                target: TexelView::blank(
                    chunk@.grid.width,
                    chunk@.grid.height,
                    chunk@.grid.index_width,
                ),
            }),
    {
        UploadPath { strategy, target: IndexTexture::matching(chunk.tile_indicies()) }
    }

    /// How the cells reach the texture.
    pub fn strategy(&self) -> (strategy: UploadStrategy)
        ensures
            strategy == self@.strategy,
    {
        self.strategy
    }

    /// The texture that the shading stage reads.
    pub fn target(&self) -> (target: &IndexTexture)
        requires
            self.wf(),
        ensures
            target.wf(),
            target@ == self@.target,
    {
        &self.target
    }

    /// Brings the texture up to date with the grid of `chunk`. Where
    /// nothing is dirty, nothing is moved. Else the cells inside
    /// `transfer_region` are written to the texture, by either strategy
    /// with the same outcome, and the chunk counts as uploaded. The
    /// rectangle that was moved is returned. A texture that does not fit
    /// the grid is refused, and then neither it nor the chunk changes.
    pub fn sync(&mut self, chunk: &mut TilemapChunk) -> (moved: Result<Option<DirtyRect>, UploadError>)
        requires
            old(self).wf(),
            old(chunk).wf(),
        ensures
            final(self).wf(),
            final(chunk).wf(),
            final(self)@.strategy == old(self)@.strategy,
            match moved {
                Ok(region) => {
                    &&& old(self)@.target.fits(old(chunk)@.grid)
                    &&& region == transfer_region(old(chunk)@.grid)
                    &&& final(self)@.target == match region {
                        None => old(self)@.target,
                        Some(r) => old(self)@.target.overlaid(old(chunk)@.grid, r),
                    }
                    &&& final(chunk)@ == (ChunkView {
                        grid: old(chunk)@.grid.cleaned(),
                        ..old(chunk)@
                    })
                    &&& old(self)@.target.in_sync_with(old(chunk)@.grid) ==> final(self)@.target.texels
                        == old(chunk)@.grid.cells
                },
                Err(UploadError::TargetMismatch) => {
                    &&& !old(self)@.target.fits(old(chunk)@.grid)
                    &&& final(self)@ == old(self)@
                    &&& final(chunk)@ == old(chunk)@
                },
            },
    {
        if !self.target.fits(chunk.tile_indicies()) {
            return Err(UploadError::TargetMismatch);
        }
        proof {
            self.target.lemma_wf_valid();
            if self@.target.in_sync_with(chunk@.grid) {
                lemma_sync_completes(self@.target, chunk@.grid);
            }
        }
        let dirty = match chunk.dirty_region() {
            None => {
                return Ok(None);
            },
            Some(r) => r,
        };
        let (width, height) = chunk.grid_dims();
        let region = if covers_half(dirty, width, height) {
            DirtyRect { x: 0, y: 0, w: width, h: height }
        } else {
            dirty
        };
        match self.strategy {
            UploadStrategy::MapAndWrite => {
                self.target.map_and_write(chunk.tile_indicies(), region);
            },
            UploadStrategy::StagedCopy => {
                self.target.staged_copy(chunk.tile_indicies(), region);
            },
        }
        chunk.clear_dirty();
        Ok(Some(region))
    }
}

/// Whether the rectangle `r` covers half of a grid of `width` by `height`
/// cells, or more.
fn covers_half(r: DirtyRect, width: u32, height: u32) -> (half: bool)
    requires
        r.inside(width, height),
    ensures
        half == (2 * r.area() >= width * height),
{
    proof {
        assert(r.w * r.h <= width * height <= 0xFFFF_FFFF * 0xFFFF_FFFF) by (nonlinear_arith)
            requires
                0 < r.w <= width <= 0xFFFF_FFFF,
                0 < r.h <= height <= 0xFFFF_FFFF,
        ;
    }
    let part: u64 = (r.w as u64) * (r.h as u64);
    let all: u64 = (width as u64) * (height as u64);
    part >= all - part
}

/// A texture that shows a grid but for its dirty rectangle shows all of it
/// once the rectangle that an upload moves is written.
pub proof fn lemma_sync_completes(target: TexelView, grid: GridView)
    requires
        target.valid(),
        grid.valid(),
        target.in_sync_with(grid),
    ensures
        match transfer_region(grid) {
            None => target.texels == grid.cells,
            Some(r) => r.inside(grid.width, grid.height) && target.overlaid(grid, r).texels
                == grid.cells,
        },
{
    let w = grid.width as int;
    match transfer_region(grid) {
        None => {
            assert(target.texels =~= grid.cells);
        },
        Some(r) => {
            let dirty = grid.dirty.unwrap();
            let after = target.overlaid(grid, r).texels;
            assert forall|c: int| 0 <= c < grid.cells.len() implies after[c] == grid.cells[c] by {
                if r != dirty {
                    assert(w > 0) by (nonlinear_arith)
                        requires
                            0 <= c < w * grid.height,
                    ;
                    vstd::arithmetic::div_mod::lemma_fundamental_div_mod(c, w);
                    vstd::arithmetic::div_mod::lemma_div_pos_is_pos(c, w);
                    assert(target.row_of(c) < grid.height) by (nonlinear_arith)
                        requires
                            c == w * target.row_of(c) + target.column_of(c),
                            0 <= target.column_of(c),
                            c < w * grid.height,
                            w > 0,
                    ;
                }
            }
            assert(after =~= grid.cells);
        },
    }
}

/// A texture of empty texels shows a grid of empty cells.
pub proof fn lemma_blank_in_sync(width: u32, height: u32, tile_count: u32, index_width: IndexWidth)
    ensures
        TexelView::blank(width, height, index_width).in_sync_with(
            GridView::blank(width, height, tile_count, index_width),
        ),
        TexelView::blank(width, height, index_width).texels == GridView::blank(
            width,
            height,
            tile_count,
            index_width,
        ).cells,
{
    assert(TexelView::blank(width, height, index_width).texels =~= GridView::blank(
        width,
        height,
        tile_count,
        index_width,
    ).cells);
}

/// A texture that shows a grid but for its dirty rectangle still does so
/// after a cell of the grid was written: the dirty rectangle has grown
/// over that cell.
pub proof fn lemma_painted_in_sync(target: TexelView, grid: GridView, x: u32, y: u32, id: u32)
    requires
        grid.valid(),
        target.valid(),
        target.in_sync_with(grid),
        x < grid.width,
        y < grid.height,
    ensures
        target.in_sync_with(grid.painted(x, y, id)),
{
    let after = grid.painted(x, y, id);
    grid.lemma_cell_in_range(x as int, y as int);
    lemma_touched_is_least(grid.dirty, x, y, DirtyRect { x, y, w: 1, h: 1 });
    assert forall|c: int|
        0 <= c < target.texels.len() && !(after.dirty matches Some(r) && r.covers(
            target.column_of(c),
            target.row_of(c),
        )) implies #[trigger] target.texels[c] == after.cells[c] by {
        let grown = touched(grid.dirty, x, y);
        if c == grid.cell_index(x as int, y as int) {
            assert(target.column_of(c) == x && target.row_of(c) == y);
            assert(grown.covers(x as int, y as int));
        }
        if let Some(r) = grid.dirty {
            assert(grown.includes(r));
            if r.covers(target.column_of(c), target.row_of(c)) {
                assert(grown.covers(target.column_of(c), target.row_of(c)));
            }
        }
    }
}

} // verus!
