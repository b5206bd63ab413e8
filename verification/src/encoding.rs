//! The encoding of tile identifiers as the texels of a single-channel
//! unsigned-integer texture.
//!
//! A cell takes one, two or four bytes, least significant byte first. The
//! largest value of the chosen width is the empty identifier: a cell that
//! holds it draws nothing.

use vstd::prelude::*;

verus! {

/// How many bits one cell takes in the encoded grid.
#[derive(Clone, Copy, Debug, PartialEq, Eq, Structural)]
pub enum IndexWidth {
    Bits8,
    Bits16,
    Bits32,
}

impl IndexWidth {
    /// The number of bytes of one encoded cell.
    pub open spec fn bytes(self) -> nat {
        match self {
            IndexWidth::Bits8 => 1,
            IndexWidth::Bits16 => 2,
            IndexWidth::Bits32 => 4,
        }
    }

    /// The empty identifier: the largest value of this width.
    pub open spec fn empty_id(self) -> u32 {
        match self {
            IndexWidth::Bits8 => 0xFF,
            IndexWidth::Bits16 => 0xFFFF,
            IndexWidth::Bits32 => 0xFFFF_FFFF,
        }
    }

    /// This width tells `tile_count` identifiers and the empty one apart.
    pub open spec fn holds(self, tile_count: u32) -> bool {
        tile_count <= self.empty_id()
    }

    /// The narrowest width that holds `tile_count` identifiers.
    pub open spec fn smallest_for(tile_count: u32) -> IndexWidth {
        if tile_count <= 0xFF {
            IndexWidth::Bits8
        } else if tile_count <= 0xFFFF {
            IndexWidth::Bits16
        } else {
            IndexWidth::Bits32
        }
    }

    /// `id` is the empty identifier or one of `tile_count` tiles.
    pub open spec fn admits(self, tile_count: u32, id: u32) -> bool {
        id == self.empty_id() || id < tile_count
    }

    /// The number of bytes of one encoded cell.
    pub fn byte_len(self) -> (n: usize)
        ensures
            n == self.bytes(),
    {
        match self {
            IndexWidth::Bits8 => 1,
            IndexWidth::Bits16 => 2,
            IndexWidth::Bits32 => 4,
        }
    }

    /// The empty identifier of this width.
    pub fn sentinel(self) -> (id: u32)
        ensures
            id == self.empty_id(),
    {
        match self {
            IndexWidth::Bits8 => 0xFF,
            IndexWidth::Bits16 => 0xFFFF,
            IndexWidth::Bits32 => 0xFFFF_FFFF,
        }
    }

    /// The narrowest width that holds `tile_count` identifiers besides the
    /// empty one.
    pub fn for_tile_count(tile_count: u32) -> (chosen: IndexWidth)
        ensures
            chosen == IndexWidth::smallest_for(tile_count),
            chosen.holds(tile_count),
            forall|other: IndexWidth| other.holds(tile_count) ==> chosen.bytes() <= other.bytes(),
    {
        if tile_count <= 0xFF {
            IndexWidth::Bits8
        } else if tile_count <= 0xFFFF {
            IndexWidth::Bits16
        } else {
            IndexWidth::Bits32
        }
    }
}

/// Byte `i` of `v`, counted from the least significant.
pub open spec fn le_byte(v: u32, i: int) -> u8 {
    if i == 0 {
        (v % 256) as u8
    } else if i == 1 {
        (v / 256 % 256) as u8
    } else if i == 2 {
        (v / 65536 % 256) as u8
    } else {
        (v / 16777216 % 256) as u8
    }
}

/// The bytes of a row-major sequence of cells, each `index_width` wide.
pub open spec fn encoded_cells(cells: Seq<u32>, index_width: IndexWidth) -> Seq<u8> {
    Seq::new(
        cells.len() * index_width.bytes(),
        |k: int| le_byte(cells[k / index_width.bytes() as int], k % index_width.bytes() as int),
    )
}

/// The identifier that the bytes of cell number `cell` spell.
pub open spec fn decoded_cell(bytes: Seq<u8>, index_width: IndexWidth, cell: int) -> u32 {
    match index_width {
        IndexWidth::Bits8 => bytes[cell] as u32,
        IndexWidth::Bits16 => (bytes[2 * cell] + 256 * bytes[2 * cell + 1]) as u32,
        IndexWidth::Bits32 => (bytes[4 * cell] + 256 * bytes[4 * cell + 1] + 65536 * bytes[4
            * cell + 2] + 16777216 * bytes[4 * cell + 3]) as u32,
    }
}

/// The bytes of a value that fits a width spell that value.
pub proof fn lemma_bytes_spell(v: u32, index_width: IndexWidth)
    requires
        v <= index_width.empty_id(),
    ensures
        index_width == IndexWidth::Bits8 ==> le_byte(v, 0) == v,
        index_width == IndexWidth::Bits16 ==> le_byte(v, 0) + 256 * le_byte(v, 1) == v,
        index_width == IndexWidth::Bits32 ==> le_byte(v, 0) + 256 * le_byte(v, 1) + 65536 * le_byte(
            v,
            2,
        ) + 16777216 * le_byte(v, 3) == v,
{
}

/// Decoding an encoded grid gives back every cell that fits the width.
pub proof fn lemma_decode_encoded(cells: Seq<u32>, index_width: IndexWidth, cell: int)
    requires
        0 <= cell < cells.len(),
        cells[cell] <= index_width.empty_id(),
    ensures
        decoded_cell(encoded_cells(cells, index_width), index_width, cell) == cells[cell],
{
    let bytes = encoded_cells(cells, index_width);
    let v = cells[cell];
    lemma_bytes_spell(v, index_width);
    match index_width {
        IndexWidth::Bits8 => {
            assert(bytes[cell] == le_byte(v, 0));
        },
        IndexWidth::Bits16 => {
            assert(bytes[2 * cell] == le_byte(v, 0));
            assert(bytes[2 * cell + 1] == le_byte(v, 1));
        },
        IndexWidth::Bits32 => {
            assert(bytes[4 * cell] == le_byte(v, 0));
            assert(bytes[4 * cell + 1] == le_byte(v, 1));
            assert(bytes[4 * cell + 2] == le_byte(v, 2));
            assert(bytes[4 * cell + 3] == le_byte(v, 3));
        },
    }
}

/// The bytes of one cell that holds `v`.
pub open spec fn cell_bytes(v: u32, index_width: IndexWidth) -> Seq<u8> {
    Seq::new(index_width.bytes(), |i: int| le_byte(v, i))
}

/// The bytes of a sequence of cells are those of its cells one after another.
pub proof fn lemma_encoded_push(cells: Seq<u32>, index_width: IndexWidth, v: u32)
    ensures
        encoded_cells(cells.push(v), index_width) == encoded_cells(cells, index_width) + cell_bytes(
            v,
            index_width,
        ),
        encoded_cells(Seq::<u32>::empty(), index_width) == Seq::<u8>::empty(),
{
    let longer = encoded_cells(cells.push(v), index_width);
    let joined = encoded_cells(cells, index_width) + cell_bytes(v, index_width);
    match index_width {
        IndexWidth::Bits8 => {
            assert(longer =~= joined);
        },
        IndexWidth::Bits16 => {
            assert(longer =~= joined);
        },
        IndexWidth::Bits32 => {
            assert(longer =~= joined);
        },
    }
    assert(encoded_cells(Seq::<u32>::empty(), index_width) =~= Seq::<u8>::empty());
}

/// Appends the bytes of one cell that holds `v`.
pub(crate) fn push_cell(out: &mut Vec<u8>, index_width: IndexWidth, v: u32)
    ensures
        final(out)@ == old(out)@ + cell_bytes(v, index_width),
{
    out.push((v % 256) as u8);
    match index_width {
        IndexWidth::Bits8 => {},
        IndexWidth::Bits16 => {
            out.push((v / 256 % 256) as u8);
        },
        IndexWidth::Bits32 => {
            out.push((v / 256 % 256) as u8);
            out.push((v / 65536 % 256) as u8);
            out.push((v / 16777216 % 256) as u8);
        },
    }
    proof {
        assert(out@ =~= old(out)@ + cell_bytes(v, index_width));
    }
}

/// Reads cell number `cell` of an encoded grid, or nothing where the bytes
/// end before the cell does.
pub fn decode_cell(bytes: &Vec<u8>, index_width: IndexWidth, cell: usize) -> (id: Option<u32>)
    ensures
        (cell + 1) * index_width.bytes() <= bytes@.len() ==> id == Some(
            decoded_cell(bytes@, index_width, cell as int),
        ),
        (cell + 1) * index_width.bytes() > bytes@.len() ==> id.is_none(),
{
    let n: usize = index_width.byte_len();
    if cell >= bytes.len() / n {
        return None;
    }
    let at: usize = cell * n;
    match index_width {
        IndexWidth::Bits8 => Some(bytes[at] as u32),
        IndexWidth::Bits16 => Some(bytes[at] as u32 + 256 * (bytes[at + 1] as u32)),
        IndexWidth::Bits32 => Some(
            bytes[at] as u32 + 256 * (bytes[at + 1] as u32) + 65536 * (bytes[at + 2] as u32)
                + 16777216 * (bytes[at + 3] as u32),
        ),
    }
}

/// The identifiers that a sequence of bytes spells, cell after cell.
pub open spec fn decoded_cells(bytes: Seq<u8>, index_width: IndexWidth) -> Seq<u32> {
    Seq::new(
        (bytes.len() / index_width.bytes()) as nat,
        |c: int| decoded_cell(bytes, index_width, c),
    )
}

/// The number of bytes of `n` cells, spelled out for each width.
pub(crate) proof fn lemma_byte_count(n: int, index_width: IndexWidth)
    ensures
        index_width == IndexWidth::Bits8 ==> n * index_width.bytes() == n,
        index_width == IndexWidth::Bits16 ==> n * index_width.bytes() == 2 * n,
        index_width == IndexWidth::Bits32 ==> n * index_width.bytes() == 4 * n,
{
}

/// Decoding the bytes of cells that fit the width gives the cells back.
pub proof fn lemma_decoded_of_encoded(cells: Seq<u32>, index_width: IndexWidth)
    requires
        forall|i: int| 0 <= i < cells.len() ==> #[trigger] cells[i] <= index_width.empty_id(),
    ensures
        decoded_cells(encoded_cells(cells, index_width), index_width) == cells,
{
    let bytes = encoded_cells(cells, index_width);
    let back = decoded_cells(bytes, index_width);
    lemma_byte_count(cells.len() as int, index_width);
    assert(back.len() == cells.len());
    assert forall|c: int| 0 <= c < cells.len() implies back[c] == cells[c] by {
        lemma_decode_encoded(cells, index_width, c);
    }
    assert(back =~= cells);
}

/// What two bytes spell has those two bytes.
proof fn lemma_spelled_bytes_16(lo: u8, hi: u8)
    ensures
        lo + 256 * hi <= 0xFFFF,
        le_byte((lo + 256 * hi) as u32, 0) == lo,
        le_byte((lo + 256 * hi) as u32, 1) == hi,
{
}

/// What four bytes spell has those four bytes.
proof fn lemma_spelled_bytes_32(b0: u8, b1: u8, b2: u8, b3: u8)
    ensures
        b0 + 256 * b1 + 65536 * b2 + 16777216 * b3 <= 0xFFFF_FFFF,
        le_byte((b0 + 256 * b1 + 65536 * b2 + 16777216 * b3) as u32, 0) == b0,
        le_byte((b0 + 256 * b1 + 65536 * b2 + 16777216 * b3) as u32, 1) == b1,
        le_byte((b0 + 256 * b1 + 65536 * b2 + 16777216 * b3) as u32, 2) == b2,
        le_byte((b0 + 256 * b1 + 65536 * b2 + 16777216 * b3) as u32, 3) == b3,
{
}

/// Whole cells of bytes are the encoding of what they spell, and what they
/// spell fits the width.
pub proof fn lemma_encoded_of_decoded(bytes: Seq<u8>, index_width: IndexWidth)
    requires
        bytes.len() % index_width.bytes() == 0,
    ensures
        encoded_cells(decoded_cells(bytes, index_width), index_width) == bytes,
        forall|c: int|
            0 <= c < decoded_cells(bytes, index_width).len() ==> #[trigger] decoded_cells(
                bytes,
                index_width,
            )[c] <= index_width.empty_id(),
{
    let cells = decoded_cells(bytes, index_width);
    let back = encoded_cells(cells, index_width);
    lemma_byte_count(cells.len() as int, index_width);
    assert(back.len() == bytes.len());
    match index_width {
        IndexWidth::Bits8 => {
            assert(back =~= bytes);
        },
        IndexWidth::Bits16 => {
            assert forall|c: int| 0 <= c < cells.len() implies #[trigger] cells[c] <= 0xFFFF by {
                lemma_spelled_bytes_16(bytes[2 * c], bytes[2 * c + 1]);
            }
            assert forall|k: int| 0 <= k < bytes.len() implies back[k] == bytes[k] by {
                let c = k / 2;
                lemma_spelled_bytes_16(bytes[2 * c], bytes[2 * c + 1]);
                assert(cells[c] == (bytes[2 * c] + 256 * bytes[2 * c + 1]) as u32);
                assert(back[k] == le_byte(cells[c], k % 2));
            }
            assert(back =~= bytes);
        },
        IndexWidth::Bits32 => {
            assert forall|c: int| 0 <= c < cells.len() implies #[trigger] cells[c]
                <= 0xFFFF_FFFF by {
                lemma_spelled_bytes_32(
                    bytes[4 * c],
                    bytes[4 * c + 1],
                    bytes[4 * c + 2],
                    bytes[4 * c + 3],
                );
            }
            assert forall|k: int| 0 <= k < bytes.len() implies back[k] == bytes[k] by {
                let c = k / 4;
                lemma_spelled_bytes_32(
                    bytes[4 * c],
                    bytes[4 * c + 1],
                    bytes[4 * c + 2],
                    bytes[4 * c + 3],
                );
                assert(cells[c] == (bytes[4 * c] + 256 * bytes[4 * c + 1] + 65536 * bytes[4 * c
                    + 2] + 16777216 * bytes[4 * c + 3]) as u32);
                assert(back[k] == le_byte(cells[c], k % 4));
            }
            assert(back =~= bytes);
        },
    }
}

/// Bytes with every bit set spell empty identifiers.
pub proof fn lemma_decoded_of_blank(bytes: Seq<u8>, index_width: IndexWidth, n: nat)
    requires
        bytes.len() == n * index_width.bytes(),
        forall|k: int| 0 <= k < bytes.len() ==> #[trigger] bytes[k] == 0xFF,
    ensures
        decoded_cells(bytes, index_width) == Seq::new(n, |c: int| index_width.empty_id()),
{
    lemma_byte_count(n as int, index_width);
    let cells = decoded_cells(bytes, index_width);
    assert(cells.len() == n);
    assert forall|c: int| 0 <= c < n implies cells[c] == index_width.empty_id() by {
        match index_width {
            IndexWidth::Bits8 => {
                assert(bytes[c] == 0xFF);
            },
            IndexWidth::Bits16 => {
                assert(bytes[2 * c] == 0xFF);
                assert(bytes[2 * c + 1] == 0xFF);
            },
            IndexWidth::Bits32 => {
                assert(bytes[4 * c] == 0xFF);
                assert(bytes[4 * c + 1] == 0xFF);
                assert(bytes[4 * c + 2] == 0xFF);
                assert(bytes[4 * c + 3] == 0xFF);
            },
        }
    }
    assert(cells =~= Seq::new(n, |c: int| index_width.empty_id()));
}

/// Overwrites the bytes of cell number `cell` with those of `v`.
pub(crate) fn store_cell(data: &mut Vec<u8>, index_width: IndexWidth, cell: usize, v: u32)
    requires
        (cell + 1) * index_width.bytes() <= old(data).len(),
        v <= index_width.empty_id(),
    ensures
        final(data)@.len() == old(data)@.len(),
        decoded_cells(final(data)@, index_width) == decoded_cells(old(data)@, index_width).update(
            cell as int,
            v,
        ),
{
    let ghost before = data@;
    proof {
        lemma_bytes_spell(v, index_width);
        lemma_byte_count(cell + 1, index_width);
    }
    match index_width {
        IndexWidth::Bits8 => {
            data[cell] = (v % 256) as u8;
        },
        IndexWidth::Bits16 => {
            let at: usize = cell * 2;
            data[at] = (v % 256) as u8;
            data[at + 1] = (v / 256 % 256) as u8;
        },
        IndexWidth::Bits32 => {
            let at: usize = cell * 4;
            data[at] = (v % 256) as u8;
            data[at + 1] = (v / 256 % 256) as u8;
            data[at + 2] = (v / 65536 % 256) as u8;
            data[at + 3] = (v / 16777216 % 256) as u8;
        },
    }
    proof {
        assert(decoded_cells(data@, index_width) =~= decoded_cells(before, index_width).update(
            cell as int,
            v,
        ));
    }
}

/// Overwrites the bytes of cell number `cell` with the bytes of cell
/// number `from_cell` of `from`.
pub(crate) fn copy_cell(
    data: &mut Vec<u8>,
    index_width: IndexWidth,
    cell: usize,
    from: &Vec<u8>,
    from_cell: usize,
)
    requires
        (cell + 1) * index_width.bytes() <= old(data).len(),
        (from_cell + 1) * index_width.bytes() <= from.len(),
    ensures
        final(data)@.len() == old(data)@.len(),
        decoded_cells(final(data)@, index_width) == decoded_cells(old(data)@, index_width).update(
            cell as int,
            decoded_cell(from@, index_width, from_cell as int),
        ),
{
    let ghost before = data@;
    proof {
        lemma_byte_count(cell + 1, index_width);
        lemma_byte_count(from_cell + 1, index_width);
    }
    match index_width {
        IndexWidth::Bits8 => {
            data[cell] = from[from_cell];
        },
        IndexWidth::Bits16 => {
            let at: usize = cell * 2;
            let src: usize = from_cell * 2;
            data[at] = from[src];
            data[at + 1] = from[src + 1];
        },
        IndexWidth::Bits32 => {
            let at: usize = cell * 4;
            let src: usize = from_cell * 4;
            data[at] = from[src];
            data[at + 1] = from[src + 1];
            data[at + 2] = from[src + 2];
            data[at + 3] = from[src + 3];
        },
    }
    proof {
        assert(decoded_cells(data@, index_width) =~= decoded_cells(before, index_width).update(
            cell as int,
            decoded_cell(from@, index_width, from_cell as int),
        ));
    }
}

} // verus!
