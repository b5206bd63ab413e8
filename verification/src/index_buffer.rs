//! The grid of tile identifiers of one chunk: its cells, the rectangle of
//! cells written since the last upload, and its bytes.

use crate::encoding::{
    decoded_cell, decoded_cells, encoded_cells, lemma_decode_encoded, lemma_decoded_of_encoded,
    lemma_encoded_push, push_cell, IndexWidth,
};
use vstd::prelude::*;

verus! {

/// A rectangle of cells of the grid: the column and row of its first cell,
/// then its width and height in cells.
#[derive(Clone, Copy, Debug, PartialEq, Eq, Structural)]
pub struct DirtyRect {
    pub x: u32,
    pub y: u32,
    pub w: u32,
    pub h: u32,
}

impl DirtyRect {
    /// The cell in column `cx` of row `cy` is one of the rectangle's cells.
    pub open spec fn covers(self, cx: int, cy: int) -> bool {
        &&& self.x <= cx < self.x + self.w
        &&& self.y <= cy < self.y + self.h
    }

    /// The rectangle holds a cell and lies inside a grid of `width` by
    /// `height` cells.
    pub open spec fn inside(self, width: u32, height: u32) -> bool {
        &&& self.w > 0
        &&& self.h > 0
        &&& self.x + self.w <= width
        &&& self.y + self.h <= height
    }

    /// Every cell of `inner` is one of this rectangle's cells.
    pub open spec fn includes(self, inner: DirtyRect) -> bool {
        forall|cx: int, cy: int| #[trigger] inner.covers(cx, cy) ==> self.covers(cx, cy)
    }

    /// The number of cells.
    pub open spec fn area(self) -> nat {
        (self.w * self.h) as nat
    }

    /// The smallest rectangle that covers this one and the cell `(cx, cy)`.
    pub open spec fn stretched(self, cx: u32, cy: u32) -> DirtyRect {
        let left = if cx < self.x { cx } else { self.x };
        let top = if cy < self.y { cy } else { self.y };
        let right = if cx + 1 > self.x + self.w { cx + 1 } else { self.x + self.w };
        let bottom = if cy + 1 > self.y + self.h { cy + 1 } else { self.y + self.h };
        DirtyRect { x: left, y: top, w: (right - left) as u32, h: (bottom - top) as u32 }
    }
}

/// The dirty rectangle after the cell `(x, y)` was touched: the cell alone
/// where nothing was dirty, else the smallest rectangle that covers both.
pub open spec fn touched(dirty: Option<DirtyRect>, x: u32, y: u32) -> DirtyRect {
    match dirty {
        None => DirtyRect { x, y, w: 1, h: 1 },
        Some(r) => r.stretched(x, y),
    }
}

/// Why a cell could not be read or written.
#[derive(Clone, Copy, Debug, PartialEq, Eq, Structural)]
pub enum IndexError {
    /// The column or the row lies outside the grid.
    OutOfBounds,
    /// The identifier is neither the empty one nor that of a tile.
    InvalidTile,
}

/// What a `ChunkIndexBuffer` holds.
pub struct GridView {
    /// The number of columns.
    pub width: u32,
    /// The number of rows.
    pub height: u32,
    /// The number of tiles of the atlas layout that the cells refer to.
    pub tile_count: u32,
    /// The width of one encoded cell.
    pub index_width: IndexWidth,
    /// The identifiers, row by row from the top.
    pub cells: Seq<u32>,
    /// The smallest rectangle that covers every cell written since the grid
    /// was last encoded or uploaded.
    pub dirty: Option<DirtyRect>,
}

impl GridView {
    /// The position of the cell `(x, y)` among the cells.
    pub open spec fn cell_index(self, x: int, y: int) -> int {
        y * self.width + x
    }

    /// The identifier in column `x` of row `y`.
    pub open spec fn cell(self, x: int, y: int) -> u32 {
        self.cells[self.cell_index(x, y)]
    }

    /// The empty identifier of this grid.
    pub open spec fn empty_id(self) -> u32 {
        self.index_width.empty_id()
    }

    /// The grid has a cell for each position, each cell holds the empty
    /// identifier or that of a tile, the width tells them apart, and the
    /// dirty rectangle lies inside the grid.
    pub open spec fn valid(self) -> bool {
        &&& self.cells.len() == self.width * self.height
        &&& self.cells.len() * self.index_width.bytes() <= usize::MAX
        &&& self.index_width.holds(self.tile_count)
        &&& forall|i: int|
            0 <= i < self.cells.len() ==> self.index_width.admits(
                self.tile_count,
                #[trigger] self.cells[i],
            )
        &&& match self.dirty {
            None => true,
            Some(r) => r.inside(self.width, self.height),
        }
    }

    /// A grid of `width` by `height` empty cells with nothing dirty.
    pub open spec fn blank(width: u32, height: u32, tile_count: u32, index_width: IndexWidth) -> GridView {
        GridView {
            width,
            height,
            tile_count,
            index_width,
            cells: Seq::new((width * height) as nat, |i: int| index_width.empty_id()),
            dirty: None,
        }
    }

    /// This grid after `id` was written to the cell `(x, y)`.
    pub open spec fn painted(self, x: u32, y: u32, id: u32) -> GridView {
        GridView {
            cells: self.cells.update(self.cell_index(x as int, y as int), id),
            dirty: Some(touched(self.dirty, x, y)),
            ..self
        }
    }

    /// This grid with nothing dirty.
    pub open spec fn cleaned(self) -> GridView {
        GridView { dirty: None, ..self }
    }

    /// The bytes of the whole grid.
    pub open spec fn encoded(self) -> Seq<u8> {
        encoded_cells(self.cells, self.index_width)
    }

    /// The cells of the rectangle `r`, row by row from its top.
    pub open spec fn region_cells(self, r: DirtyRect) -> Seq<u32> {
        Seq::new(
            r.area(),
            |c: int| self.cell(r.x + c % (r.w as int), r.y + c / (r.w as int)),
        )
    }

    /// The bytes of the rectangle `r`: its rows from the top, each
    /// contiguous.
    pub open spec fn encoded_region(self, r: DirtyRect) -> Seq<u8> {
        encoded_cells(self.region_cells(r), self.index_width)
    }

    /// The position of a cell of a valid grid is below the number of cells,
    /// which fits the machine's word.
    pub proof fn lemma_cell_in_range(self, x: int, y: int)
        requires
            self.valid(),
            0 <= x < self.width,
            0 <= y < self.height,
        ensures
            0 <= y * self.width <= self.cell_index(x, y) < self.cells.len() <= usize::MAX,
            self.cell_index(x, y) / (self.width as int) == y,
            self.cell_index(x, y) % (self.width as int) == x,
    {
        lemma_cell_index_in_grid(self.width as int, self.height as int, x, y);
        assert(self.cells.len() <= self.cells.len() * self.index_width.bytes()) by (nonlinear_arith)
            requires
                self.index_width.bytes() >= 1,
        ;
    }
}

/// The positions of a grid's cells are below the number of its cells.
pub proof fn lemma_cell_index_in_grid(width: int, height: int, x: int, y: int)
    requires
        0 <= x < width,
        0 <= y < height,
    ensures
        0 <= y * width + x < width * height,
        0 <= y * width <= y * width + x,
        (y * width + x) / width == y,
        (y * width + x) % width == x,
{
    assert(y * width >= 0) by (nonlinear_arith)
        requires
            y >= 0,
            width > 0,
    ;
    assert(y * width + width <= height * width) by (nonlinear_arith)
        requires
            y + 1 <= height,
            width > 0,
    ;
    assert(height * width == width * height) by (nonlinear_arith);
    vstd::arithmetic::div_mod::lemma_fundamental_div_mod_converse(y * width + x, width, y, x);
}

/// A grid of tile identifiers, one for each cell of a chunk.
#[derive(Debug)]
pub struct ChunkIndexBuffer {
    width: u32,
    height: u32,
    tile_count: u32,
    index_width: IndexWidth,
    cells: Vec<u32>,
    dirty: Option<DirtyRect>,
}

impl View for ChunkIndexBuffer {
    type V = GridView;

    closed spec fn view(&self) -> GridView {
        GridView {
            width: self.width,
            height: self.height,
            tile_count: self.tile_count,
            index_width: self.index_width,
            cells: self.cells@,
            dirty: self.dirty,
        }
    }
}

impl ChunkIndexBuffer {
    /// The invariant of the grid.
    pub open spec fn wf(&self) -> bool {
        self@.valid()
    }

    /// A grid of `width` by `height` empty cells for a layout of
    /// `tile_count` tiles, with the narrowest cells that hold them.
    pub fn new(width: u32, height: u32, tile_count: u32) -> (grid: ChunkIndexBuffer)
        requires
            width * height * IndexWidth::smallest_for(tile_count).bytes() <= usize::MAX,
        ensures
            grid.wf(),
            grid@ == GridView::blank(width, height, tile_count, IndexWidth::smallest_for(tile_count)),
    {
        ChunkIndexBuffer::blank(width, height, tile_count, IndexWidth::for_tile_count(tile_count))
    }

    /// A grid of `width` by `height` empty cells of the width
    /// `index_width`, or nothing where that width cannot tell `tile_count`
    /// tiles and the empty identifier apart.
    pub fn with_index_width(
        width: u32,
        height: u32,
        tile_count: u32,
        index_width: IndexWidth,
    ) -> (made: Option<ChunkIndexBuffer>)
        requires
            width * height * index_width.bytes() <= usize::MAX,
        ensures
            made.is_some() == index_width.holds(tile_count),
            made matches Some(grid) ==> grid.wf() && grid@ == GridView::blank(
                width,
                height,
                tile_count,
                index_width,
            ),
    {
        if tile_count > index_width.sentinel() {
            return None;
        }
        Some(ChunkIndexBuffer::blank(width, height, tile_count, index_width))
    }

    /// A grid of `width` by `height` empty cells.
    fn blank(width: u32, height: u32, tile_count: u32, index_width: IndexWidth) -> (grid:
        ChunkIndexBuffer)
        requires
            index_width.holds(tile_count),
            width * height * index_width.bytes() <= usize::MAX,
        ensures
            grid.wf(),
            grid@ == GridView::blank(width, height, tile_count, index_width),
    {
        proof {
            assert(width * height <= width * height * index_width.bytes()) by (nonlinear_arith)
                requires
                    index_width.bytes() >= 1,
                    width * height >= 0,
            ;
        }
        let count: usize = (width as usize) * (height as usize);
        let cells: Vec<u32> = vec![index_width.sentinel(); count];
        let grid = ChunkIndexBuffer { width, height, tile_count, index_width, cells, dirty: None };
        proof {
            assert(grid@.cells =~= GridView::blank(width, height, tile_count, index_width).cells);
        }
        grid
    }

    /// The number of columns.
    pub fn width(&self) -> (w: u32)
        ensures
            w == self@.width,
    {
        self.width
    }

    /// The number of rows.
    pub fn height(&self) -> (h: u32)
        ensures
            h == self@.height,
    {
        self.height
    }

    /// The number of tiles that the cells may refer to.
    pub fn tile_count(&self) -> (n: u32)
        ensures
            n == self@.tile_count,
    {
        self.tile_count
    }

    /// The width of one encoded cell.
    pub fn index_width(&self) -> (w: IndexWidth)
        ensures
            w == self@.index_width,
    {
        self.index_width
    }

    /// The empty identifier of this grid.
    pub fn empty_id(&self) -> (id: u32)
        ensures
            id == self@.empty_id(),
    {
        self.index_width.sentinel()
    }

    /// The smallest rectangle that covers every cell written since the grid
    /// was last encoded or uploaded, or nothing where none was.
    pub fn dirty_region(&self) -> (dirty: Option<DirtyRect>)
        ensures
            dirty == self@.dirty,
    {
        self.dirty
    }

    /// Forgets the dirty rectangle: the grid counts as uploaded.
    pub fn clear_dirty(&mut self)
        ensures
            final(self)@ == old(self)@.cleaned(),
    {
        self.dirty = None;
    }

    /// The identifier in column `x` of row `y`.
    pub fn get(&self, x: u32, y: u32) -> (found: Result<u32, IndexError>)
        requires
            self.wf(),
        ensures
            x < self@.width && y < self@.height ==> found == Ok::<u32, IndexError>(
                self@.cell(x as int, y as int),
            ),
            x >= self@.width || y >= self@.height ==> found == Err::<u32, IndexError>(
                IndexError::OutOfBounds,
            ),
    {
        if x >= self.width || y >= self.height {
            return Err(IndexError::OutOfBounds);
        }
        proof {
            self@.lemma_cell_in_range(x as int, y as int);
        }
        let at: usize = (y as usize) * (self.width as usize) + (x as usize);
        Ok(self.cells[at])
    }

    /// Writes `tile_id` to the cell in column `x` of row `y` and stretches
    /// the dirty rectangle over it. A position outside the grid is refused
    /// first, then an identifier that is neither empty nor that of a tile;
    /// a refused call changes nothing.
    pub fn set(&mut self, x: u32, y: u32, tile_id: u32) -> (done: Result<(), IndexError>)
        requires
            old(self).wf(),
        ensures
            final(self).wf(),
            match done {
                Ok(_) => {
                    &&& x < old(self)@.width
                    &&& y < old(self)@.height
                    &&& old(self)@.index_width.admits(old(self)@.tile_count, tile_id)
                    &&& final(self)@ == old(self)@.painted(x, y, tile_id)
                },
                Err(IndexError::OutOfBounds) => {
                    &&& (x >= old(self)@.width || y >= old(self)@.height)
                    &&& final(self)@ == old(self)@
                },
                Err(IndexError::InvalidTile) => {
                    &&& x < old(self)@.width
                    &&& y < old(self)@.height
                    &&& !old(self)@.index_width.admits(old(self)@.tile_count, tile_id)
                    &&& final(self)@ == old(self)@
                },
            },
    {
        if x >= self.width || y >= self.height {
            return Err(IndexError::OutOfBounds);
        }
        if tile_id != self.index_width.sentinel() && tile_id >= self.tile_count {
            return Err(IndexError::InvalidTile);
        }
        proof {
            self@.lemma_cell_in_range(x as int, y as int);
        }
        let at: usize = (y as usize) * (self.width as usize) + (x as usize);
        self.cells[at] = tile_id;
        self.dirty = Some(touch(self.dirty, x, y));
        Ok(())
    }
}

impl ChunkIndexBuffer {
    /// The bytes of the whole grid: row by row from the top, the cells of a
    /// row contiguous, each cell least significant byte first. After it the
    /// grid counts as uploaded: nothing is dirty.
    pub fn encode(&mut self) -> (bytes: Vec<u8>)
        requires
            old(self).wf(),
        ensures
            final(self).wf(),
            final(self)@ == old(self)@.cleaned(),
            bytes@ == old(self)@.encoded(),
    {
        let mut bytes: Vec<u8> = Vec::new();
        let mut i: usize = 0;
        proof {
            lemma_encoded_push(Seq::<u32>::empty(), self.index_width, 0);
            assert(self.cells@.take(0) =~= Seq::<u32>::empty());
        }
        while i < self.cells.len()
            invariant
                i <= self.cells@.len(),
                bytes@ == encoded_cells(self.cells@.take(i as int), self.index_width),
            decreases self.cells@.len() - i,
        {
            push_cell(&mut bytes, self.index_width, self.cells[i]);
            proof {
                lemma_encoded_push(self.cells@.take(i as int), self.index_width, self.cells@[i as int]);
                assert(self.cells@.take(i + 1) =~= self.cells@.take(i as int).push(
                    self.cells@[i as int],
                ));
            }
            i += 1;
        }
        proof {
            assert(self.cells@.take(i as int) =~= self.cells@);
        }
        self.dirty = None;
        bytes
    }

    /// The bytes of the rectangle `r` of the grid, laid out as a grid of
    /// its own. A rectangle that holds no cell or reaches past the grid is
    /// refused.
    pub fn encode_region(&self, r: DirtyRect) -> (bytes: Result<Vec<u8>, IndexError>)
        requires
            self.wf(),
        ensures
            match bytes {
                Ok(b) => r.inside(self@.width, self@.height) && b@ == self@.encoded_region(r),
                Err(e) => !r.inside(self@.width, self@.height) && e == IndexError::OutOfBounds,
            },
    {
        if r.w == 0 || r.h == 0 || r.x > self.width || r.w > self.width - r.x || r.y > self.height
            || r.h > self.height - r.y {
            return Err(IndexError::OutOfBounds);
        }
        let ghost picked = self@.region_cells(r);
        let mut bytes: Vec<u8> = Vec::new();
        let mut row: u32 = 0;
        proof {
            lemma_encoded_push(Seq::<u32>::empty(), self.index_width, 0);
            assert(picked.take(0) =~= Seq::<u32>::empty());
        }
        while row < r.h
            invariant
                self.wf(),
                r.inside(self@.width, self@.height),
                picked == self@.region_cells(r),
                row <= r.h,
                bytes@ == encoded_cells(picked.take(row * r.w), self.index_width),
            decreases r.h - row,
        {
            let mut col: u32 = 0;
            while col < r.w
                invariant
                    self.wf(),
                    r.inside(self@.width, self@.height),
                    picked == self@.region_cells(r),
                    row < r.h,
                    col <= r.w,
                    bytes@ == encoded_cells(picked.take(row * r.w + col), self.index_width),
                decreases r.w - col,
            {
                proof {
                    self@.lemma_cell_in_range(r.x + col, r.y + row);
                    lemma_cell_index_in_grid(r.w as int, r.h as int, col as int, row as int);
                }
                let at: usize = ((r.y + row) as usize) * (self.width as usize) + ((r.x + col) as usize);
                push_cell(&mut bytes, self.index_width, self.cells[at]);
                proof {
                    let n = row * r.w + col;
                    lemma_encoded_push(picked.take(n), self.index_width, picked[n]);
                    assert(picked.take(n + 1) =~= picked.take(n).push(picked[n]));
                }
                col += 1;
            }
            proof {
                assert((row + 1) * r.w == row * r.w + r.w) by (nonlinear_arith);
            }
            row += 1;
        }
        proof {
            assert(r.h * r.w == r.w * r.h) by (nonlinear_arith);
            assert(picked.take(r.h * r.w) =~= picked);
        }
        Ok(bytes)
    }
}

/// Stretches a dirty rectangle over the cell `(x, y)`.
fn touch(dirty: Option<DirtyRect>, x: u32, y: u32) -> (grown: DirtyRect)
    requires
        x < u32::MAX,
        y < u32::MAX,
        dirty matches Some(r) ==> r.x + r.w <= u32::MAX && r.y + r.h <= u32::MAX,
    ensures
        grown == touched(dirty, x, y),
{
    match dirty {
        None => DirtyRect { x, y, w: 1, h: 1 },
        Some(r) => {
            let left: u32 = if x < r.x { x } else { r.x };
            let top: u32 = if y < r.y { y } else { r.y };
            let right: u32 = if x + 1 > r.x + r.w { x + 1 } else { r.x + r.w };
            let bottom: u32 = if y + 1 > r.y + r.h { y + 1 } else { r.y + r.h };
            DirtyRect { x: left, y: top, w: right - left, h: bottom - top }
        },
    }
}

/// Every cell of a fresh grid decodes from the grid's bytes as the empty
/// identifier.
pub proof fn lemma_blank_decodes_empty(
    width: u32,
    height: u32,
    tile_count: u32,
    index_width: IndexWidth,
    x: u32,
    y: u32,
)
    requires
        x < width,
        y < height,
    ensures
        ({
            let blank = GridView::blank(width, height, tile_count, index_width);
            decoded_cell(blank.encoded(), index_width, blank.cell_index(x as int, y as int))
                == index_width.empty_id()
        }),
{
    let blank = GridView::blank(width, height, tile_count, index_width);
    lemma_cell_index_in_grid(width as int, height as int, x as int, y as int);
    lemma_decode_encoded(blank.cells, index_width, blank.cell_index(x as int, y as int));
}

/// The bytes of a valid grid spell its cells: reading them back cell by
/// cell gives the grid.
pub proof fn lemma_encoded_reads_back(grid: GridView)
    requires
        grid.valid(),
    ensures
        decoded_cells(grid.encoded(), grid.index_width) == grid.cells,
{
    lemma_decoded_of_encoded(grid.cells, grid.index_width);
}

/// A cell that was written reads back as what was written, and every other
/// cell as before.
pub proof fn lemma_painted_reads_back(grid: GridView, x: u32, y: u32, id: u32, cx: u32, cy: u32)
    requires
        grid.valid(),
        x < grid.width,
        y < grid.height,
        cx < grid.width,
        cy < grid.height,
    ensures
        grid.painted(x, y, id).cell(x as int, y as int) == id,
        (cx != x || cy != y) ==> grid.painted(x, y, id).cell(cx as int, cy as int) == grid.cell(
            cx as int,
            cy as int,
        ),
{
    grid.lemma_cell_in_range(x as int, y as int);
    grid.lemma_cell_in_range(cx as int, cy as int);
}

/// The dirty rectangle after a write covers the written cell and all that
/// was dirty before, and every rectangle that does so includes it.
pub proof fn lemma_touched_is_least(dirty: Option<DirtyRect>, x: u32, y: u32, other: DirtyRect)
    requires
        x < u32::MAX,
        y < u32::MAX,
        dirty matches Some(r) ==> r.w > 0 && r.h > 0 && r.x + r.w <= u32::MAX && r.y + r.h
            <= u32::MAX,
    ensures
        touched(dirty, x, y).covers(x as int, y as int),
        dirty matches Some(r) ==> touched(dirty, x, y).includes(r),
        other.covers(x as int, y as int) && (dirty matches Some(r) ==> other.includes(r))
            ==> other.includes(touched(dirty, x, y)),
{
    match dirty {
        None => {},
        Some(r) => {
            if other.covers(x as int, y as int) && other.includes(r) {
                assert(r.covers(r.x as int, r.y as int));
                assert(r.covers(r.x + r.w - 1, r.y + r.h - 1));
            }
        },
    }
}

} // verus!
