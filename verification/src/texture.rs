//! The index texture: the resource that the shading stage reads, one texel
//! for each cell of a chunk.

use crate::encoding::{
    copy_cell, decode_cell, decoded_cell, decoded_cells, encoded_cells, lemma_byte_count,
    lemma_decode_encoded, lemma_decoded_of_blank, lemma_encoded_of_decoded, store_cell, IndexWidth,
};
use crate::index_buffer::{lemma_cell_index_in_grid, ChunkIndexBuffer, DirtyRect, GridView};
use vstd::prelude::*;

verus! {

/// What an `IndexTexture` holds.
pub struct TexelView {
    /// The number of texels of a row.
    pub width: u32,
    /// The number of rows.
    pub height: u32,
    /// The width of one texel.
    pub index_width: IndexWidth,
    /// The texels, row by row from the top.
    pub texels: Seq<u32>,
}

impl TexelView {
    /// The position of the texel `(x, y)` among the texels.
    pub open spec fn texel_index(self, x: int, y: int) -> int {
        y * self.width + x
    }

    /// The texel in column `x` of row `y`.
    pub open spec fn texel(self, x: int, y: int) -> u32 {
        self.texels[self.texel_index(x, y)]
    }

    /// The column of texel number `c`.
    pub open spec fn column_of(self, c: int) -> int {
        c % (self.width as int)
    }

    /// The row of texel number `c`.
    pub open spec fn row_of(self, c: int) -> int {
        c / (self.width as int)
    }

    /// There is a texel for each position, each texel fits the width, and
    /// the bytes fit the machine's word.
    pub open spec fn valid(self) -> bool {
        &&& self.texels.len() == self.width * self.height
        &&& self.texels.len() * self.index_width.bytes() <= usize::MAX
        &&& forall|c: int|
            0 <= c < self.texels.len() ==> #[trigger] self.texels[c] <= self.index_width.empty_id()
    }

    /// The bytes of the texture: row by row from the top, each texel least
    /// significant byte first.
    pub open spec fn bytes(self) -> Seq<u8> {
        encoded_cells(self.texels, self.index_width)
    }

    /// A texture of `width` by `height` empty texels.
    pub open spec fn blank(width: u32, height: u32, index_width: IndexWidth) -> TexelView {
        TexelView {
            width,
            height,
            index_width,
            texels: Seq::new((width * height) as nat, |c: int| index_width.empty_id()),
        }
    }

    /// The texture has the dimensions and the texel width of `grid`.
    pub open spec fn fits(self, grid: GridView) -> bool {
        &&& self.width == grid.width
        &&& self.height == grid.height
        &&& self.index_width == grid.index_width
    }

    /// This texture after the cells of `grid` inside the rectangle `r` were
    /// written to it: inside `r` a texel is the grid's cell, outside it is
    /// what it was.
    pub open spec fn overlaid(self, grid: GridView, r: DirtyRect) -> TexelView {
        TexelView {
            texels: Seq::new(
                self.texels.len(),
                |c: int|
                    if r.covers(self.column_of(c), self.row_of(c)) {
                        grid.cells[c]
                    } else {
                        self.texels[c]
                    },
            ),
            ..self
        }
    }

    /// The texture shows `grid` but for the cells inside the grid's dirty
    /// rectangle.
    pub open spec fn in_sync_with(self, grid: GridView) -> bool {
        &&& self.fits(grid)
        &&& forall|c: int|
            0 <= c < self.texels.len() && !(grid.dirty matches Some(r) && r.covers(
                self.column_of(c),
                self.row_of(c),
            )) ==> #[trigger] self.texels[c] == grid.cells[c]
    }
}

/// A single-channel unsigned-integer texture of tile identifiers.
#[derive(Debug)]
pub struct IndexTexture {
    width: u32,
    height: u32,
    index_width: IndexWidth,
    data: Vec<u8>,
}

impl View for IndexTexture {
    type V = TexelView;

    closed spec fn view(&self) -> TexelView {
        TexelView {
            width: self.width,
            height: self.height,
            index_width: self.index_width,
            texels: decoded_cells(self.data@, self.index_width),
        }
    }
}

impl IndexTexture {
    /// The invariant of the texture: it holds the bytes of whole texels,
    /// one for each position.
    pub closed spec fn wf(&self) -> bool {
        &&& self.data.len() == self.width * self.height * self.index_width.bytes()
        &&& self@.valid()
    }

    /// A well-formed texture holds a valid grid of texels.
    pub proof fn lemma_wf_valid(&self)
        requires
            self.wf(),
        ensures
            self@.valid(),
    {
    }

    /// A texture of `width` by `height` empty texels of `index_width`.
    pub fn new(width: u32, height: u32, index_width: IndexWidth) -> (texture: IndexTexture)
        requires
            width * height * index_width.bytes() <= usize::MAX,
        ensures
            texture.wf(),
            texture@ == TexelView::blank(width, height, index_width),
    {
        proof {
            assert(width * height <= width * height * index_width.bytes()) by (nonlinear_arith)
                requires
                    index_width.bytes() >= 1,
                    width * height >= 0,
            ;
            lemma_byte_count(width * height, index_width);
        }
        let count: usize = (width as usize) * (height as usize) * index_width.byte_len();
        let data: Vec<u8> = vec![0xFFu8; count];
        let texture = IndexTexture { width, height, index_width, data };
        proof {
            lemma_decoded_of_blank(texture.data@, index_width, (width * height) as nat);
        }
        texture
    }

    /// The number of texels of a row.
    pub fn width(&self) -> (w: u32)
        ensures
            w == self@.width,
    {
        self.width
    }

    /// The number of rows.
    pub fn height(&self) -> (h: u32)
        ensures
            h == self@.height,
    {
        self.height
    }

    /// The width of one texel.
    pub fn index_width(&self) -> (w: IndexWidth)
        ensures
            w == self@.index_width,
    {
        self.index_width
    }

    /// The bytes of the texture, as they are handed to the device.
    pub fn bytes(&self) -> (bytes: &Vec<u8>)
        requires
            self.wf(),
        ensures
            bytes@ == self@.bytes(),
    {
        proof {
            lemma_byte_count(self.width * self.height, self.index_width);
            lemma_encoded_of_decoded(self.data@, self.index_width);
        }
        &self.data
    }

    /// The texel in column `x` of row `y`, or nothing outside the texture.
    pub fn texel(&self, x: u32, y: u32) -> (id: Option<u32>)
        requires
            self.wf(),
        ensures
            x < self@.width && y < self@.height ==> id == Some(self@.texel(x as int, y as int)),
            x >= self@.width || y >= self@.height ==> id.is_none(),
    {
        if x >= self.width || y >= self.height {
            return None;
        }
        proof {
            lemma_cell_index_in_grid(self.width as int, self.height as int, x as int, y as int);
            lemma_byte_count(self.width * self.height, self.index_width);
            lemma_byte_count(y * self.width + x + 1, self.index_width);
            lemma_byte_count(self@.texels.len() as int, self.index_width);
        }
        let at: usize = (y as usize) * (self.width as usize) + (x as usize);
        decode_cell(&self.data, self.index_width, at)
    }
}

impl TexelView {
    /// This texture while the rectangle `r` of `grid` is being written to
    /// it row by row: the rows above `row` are written, and of row `row`
    /// the cells left of `col`. Rows and columns count from the corner of
    /// `r`.
    pub(crate) open spec fn overlaid_upto(self, grid: GridView, r: DirtyRect, row: int, col: int) -> TexelView {
        TexelView {
            texels: Seq::new(
                self.texels.len(),
                |c: int|
                    if r.covers(self.column_of(c), self.row_of(c)) && (self.row_of(c) < r.y + row
                        || (self.row_of(c) == r.y + row && self.column_of(c) < r.x + col)) {
                        grid.cells[c]
                    } else {
                        self.texels[c]
                    },
            ),
            ..self
        }
    }

    /// Nothing is written before the first cell, and all is once the last
    /// row is.
    pub(crate) proof fn lemma_overlaid_ends(self, grid: GridView, r: DirtyRect)
        ensures
            self.overlaid_upto(grid, r, 0, 0) == self,
            self.overlaid_upto(grid, r, r.h as int, 0) == self.overlaid(grid, r),
    {
        assert(self.overlaid_upto(grid, r, 0, 0).texels =~= self.texels);
        assert(self.overlaid_upto(grid, r, r.h as int, 0).texels =~= self.overlaid(grid, r).texels);
    }

    /// A row that is written to its end is a row above the next.
    pub(crate) proof fn lemma_overlaid_row_done(self, grid: GridView, r: DirtyRect, row: int)
        ensures
            self.overlaid_upto(grid, r, row, r.w as int) == self.overlaid_upto(grid, r, row + 1, 0),
    {
        assert(self.overlaid_upto(grid, r, row, r.w as int).texels =~= self.overlaid_upto(
            grid,
            r,
            row + 1,
            0,
        ).texels);
    }

    /// Writing the next cell of the rectangle moves the writing on by one
    /// cell.
    pub(crate) proof fn lemma_overlaid_step(self, grid: GridView, r: DirtyRect, row: int, col: int)
        requires
            self.valid(),
            self.fits(grid),
            r.inside(self.width, self.height),
            0 <= row < r.h,
            0 <= col < r.w,
        ensures
            ({
                let at = self.texel_index(r.x + col, r.y + row);
                &&& 0 <= at < self.texels.len()
                &&& self.overlaid_upto(grid, r, row, col).texels.update(at, grid.cells[at])
                    == self.overlaid_upto(grid, r, row, col + 1).texels
            }),
    {
        let at = self.texel_index(r.x + col, r.y + row);
        let w = self.width as int;
        lemma_cell_index_in_grid(w, self.height as int, r.x + col, r.y + row);
        let stepped = self.overlaid_upto(grid, r, row, col).texels.update(at, grid.cells[at]);
        let next = self.overlaid_upto(grid, r, row, col + 1).texels;
        assert forall|c: int| 0 <= c < self.texels.len() implies stepped[c] == next[c] by {
            vstd::arithmetic::div_mod::lemma_fundamental_div_mod(c, w);
            if c != at {
                if self.row_of(c) == r.y + row && self.column_of(c) == r.x + col {
                    assert(c == w * (r.y + row) + (r.x + col));
                    assert(w * (r.y + row) == (r.y + row) * w) by (nonlinear_arith);
                }
            }
        }
        assert(stepped =~= next);
    }
}

/// The cells of a rectangle of a grid, read back from their bytes.
proof fn lemma_staged_cell(grid: GridView, r: DirtyRect, row: int, col: int)
    requires
        grid.valid(),
        r.inside(grid.width, grid.height),
        0 <= row < r.h,
        0 <= col < r.w,
    ensures
        ({
            let n = row * r.w + col;
            &&& 0 <= row * r.w <= n < r.area() <= usize::MAX
            &&& (n + 1) * grid.index_width.bytes() <= grid.encoded_region(r).len()
            &&& decoded_cell(grid.encoded_region(r), grid.index_width, n) == grid.cell(
                r.x + col,
                r.y + row,
            )
        }),
{
    let n = row * r.w + col;
    lemma_cell_index_in_grid(r.w as int, r.h as int, col, row);
    grid.lemma_cell_in_range(r.x + col, r.y + row);
    assert(r.w * r.h <= grid.width * grid.height) by (nonlinear_arith)
        requires
            0 < r.w <= grid.width,
            0 < r.h <= grid.height,
    ;
    let cells = grid.region_cells(r);
    assert(cells[n] == grid.cell(r.x + col, r.y + row));
    lemma_decode_encoded(cells, grid.index_width, n);
    assert((n + 1) * grid.index_width.bytes() <= r.area() * grid.index_width.bytes())
        by (nonlinear_arith)
        requires
            n + 1 <= r.area(),
            grid.index_width.bytes() >= 1,
    ;
}

impl IndexTexture {
    /// A texture of empty texels with the dimensions and the texel width
    /// of `grid`.
    pub fn matching(grid: &ChunkIndexBuffer) -> (texture: IndexTexture)
        requires
            grid.wf(),
        ensures
            texture.wf(),
            texture@ == TexelView::blank(grid@.width, grid@.height, grid@.index_width),
            texture@.fits(grid@),
    {
        IndexTexture::new(grid.width(), grid.height(), grid.index_width())
    }

    /// Whether the texture has the dimensions and the texel width of
    /// `grid`.
    pub fn fits(&self, grid: &ChunkIndexBuffer) -> (fits: bool)
        ensures
            fits == self@.fits(grid@),
    {
        self.width == grid.width() && self.height == grid.height() && self.index_width
            == grid.index_width()
    }

    /// Writes the cells of `grid` inside `r` straight into the texture.
    pub(crate) fn map_and_write(&mut self, grid: &ChunkIndexBuffer, r: DirtyRect)
        requires
            old(self).wf(),
            grid.wf(),
            old(self)@.fits(grid@),
            r.inside(grid@.width, grid@.height),
        ensures
            final(self).wf(),
            final(self)@ == old(self)@.overlaid(grid@, r),
    {
        let ghost start = self@;
        proof {
            start.lemma_overlaid_ends(grid@, r);
        }
        let mut row: u32 = 0;
        while row < r.h
            invariant
                self.wf(),
                grid.wf(),
                start.valid(),
                start.fits(grid@),
                r.inside(grid@.width, grid@.height),
                row <= r.h,
                self@ == start.overlaid_upto(grid@, r, row as int, 0),
            decreases r.h - row,
        {
            let mut col: u32 = 0;
            while col < r.w
                invariant
                    self.wf(),
                    grid.wf(),
                    start.valid(),
                    start.fits(grid@),
                    r.inside(grid@.width, grid@.height),
                    row < r.h,
                    col <= r.w,
                    self@ == start.overlaid_upto(grid@, r, row as int, col as int),
                decreases r.w - col,
            {
                let x: u32 = r.x + col;
                let y: u32 = r.y + row;
                proof {
                    start.lemma_overlaid_step(grid@, r, row as int, col as int);
                    grid@.lemma_cell_in_range(x as int, y as int);
                    lemma_byte_count(y * self.width + x + 1, self.index_width);
                    lemma_byte_count(self.width * self.height, self.index_width);
                }
                let at: usize = (y as usize) * (self.width as usize) + (x as usize);
                match grid.get(x, y) {
                    Ok(id) => {
                        store_cell(&mut self.data, self.index_width, at, id);
                    },
                    Err(_) => {},
                }
                col += 1;
            }
            proof {
                start.lemma_overlaid_row_done(grid@, r, row as int);
            }
            row += 1;
        }
    }

    /// Gathers the bytes of the cells of `grid` inside `r` in a buffer of
    /// their own, then copies them from there into the texture.
    pub(crate) fn staged_copy(&mut self, grid: &ChunkIndexBuffer, r: DirtyRect)
        requires
            old(self).wf(),
            grid.wf(),
            old(self)@.fits(grid@),
            r.inside(grid@.width, grid@.height),
        ensures
            final(self).wf(),
            final(self)@ == old(self)@.overlaid(grid@, r),
    {
        let ghost start = self@;
        proof {
            start.lemma_overlaid_ends(grid@, r);
        }
        let staged: Vec<u8> = match grid.encode_region(r) {
            Ok(bytes) => bytes,
            Err(_) => Vec::new(),
        };
        let mut row: u32 = 0;
        while row < r.h
            invariant
                self.wf(),
                grid.wf(),
                start.valid(),
                start.fits(grid@),
                r.inside(grid@.width, grid@.height),
                staged@ == grid@.encoded_region(r),
                row <= r.h,
                self@ == start.overlaid_upto(grid@, r, row as int, 0),
            decreases r.h - row,
        {
            let mut col: u32 = 0;
            while col < r.w
                invariant
                    self.wf(),
                    grid.wf(),
                    start.valid(),
                    start.fits(grid@),
                    r.inside(grid@.width, grid@.height),
                    staged@ == grid@.encoded_region(r),
                    row < r.h,
                    col <= r.w,
                    self@ == start.overlaid_upto(grid@, r, row as int, col as int),
                decreases r.w - col,
            {
                let x: u32 = r.x + col;
                let y: u32 = r.y + row;
                proof {
                    start.lemma_overlaid_step(grid@, r, row as int, col as int);
                    lemma_staged_cell(grid@, r, row as int, col as int);
                    grid@.lemma_cell_in_range(x as int, y as int);
                    lemma_byte_count(y * self.width + x + 1, self.index_width);
                    lemma_byte_count(self.width * self.height, self.index_width);
                }
                let at: usize = (y as usize) * (self.width as usize) + (x as usize);
                let from: usize = (row as usize) * (r.w as usize) + (col as usize);
                copy_cell(&mut self.data, self.index_width, at, &staged, from);
                col += 1;
            }
            proof {
                start.lemma_overlaid_row_done(grid@, r, row as int);
            }
            row += 1;
        }
    }
}

} // verus!
