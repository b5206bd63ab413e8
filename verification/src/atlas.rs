//! The atlas layout: a table from tile identifier to a rectangle of the
//! shared atlas image.

use vstd::prelude::*;

verus! {

/// A rectangle of the atlas image, in pixels.
#[derive(Clone, Copy, Debug, PartialEq, Eq)]
pub struct Rect {
    pub offset: (u32, u32),
    pub size: (u32, u32),
}

impl Rect {
    /// The rectangle lies fully inside an image of `width` by `height` pixels.
    pub open spec fn within(self, width: u32, height: u32) -> bool {
        &&& self.offset.0 + self.size.0 <= width
        &&& self.offset.1 + self.size.1 <= height
    }

    /// The pixel `(x, y)` is one of the rectangle's pixels.
    pub open spec fn contains(self, x: int, y: int) -> bool {
        &&& self.offset.0 <= x < self.offset.0 + self.size.0
        &&& self.offset.1 <= y < self.offset.1 + self.size.1
    }

    /// Whether the rectangle lies fully inside an image of `width` by
    /// `height` pixels.
    pub fn fits_within(&self, width: u32, height: u32) -> (fits: bool)
        ensures
            fits == self.within(width, height),
    {
        self.offset.0 <= width && self.size.0 <= width - self.offset.0
            && self.offset.1 <= height && self.size.1 <= height - self.offset.1
    }
}

/// Why a layout could not be built.
#[derive(Clone, Copy, Debug, PartialEq, Eq)]
pub enum LayoutError {
    /// The rectangle at `index` reaches past the atlas image.
    RectOutOfBounds { index: usize },
}

/// Why a tile identifier could not be resolved.
#[derive(Clone, Copy, Debug, PartialEq, Eq)]
pub enum LookupError {
    /// The identifier is not the position of a rectangle of the layout.
    OutOfRange,
}

/// The rectangles of one atlas image, indexed by tile identifier.
///
/// A layout never changes once built; a different packing is a new layout.
#[derive(Debug)]
pub struct AtlasLayout {
    rects: Vec<Rect>,
    width: u32,
    height: u32,
}

impl View for AtlasLayout {
    type V = Seq<Rect>;

    closed spec fn view(&self) -> Seq<Rect> {
        self.rects@
    }
}

impl AtlasLayout {
    /// The pixel dimensions of the atlas image, width first.
    pub closed spec fn image_size(&self) -> (u32, u32) {
        (self.width, self.height)
    }

    /// Every rectangle lies inside the atlas image.
    pub open spec fn wf(&self) -> bool {
        forall|i: int|
            0 <= i < self@.len() ==> (#[trigger] self@[i]).within(
                self.image_size().0,
                self.image_size().1,
            )
    }

    /// Builds the layout of an atlas image of `width` by `height` pixels.
    /// The position of a rectangle in `rects` is its tile identifier. Fails
    /// on the first rectangle that reaches past the image.
    pub fn new(rects: Vec<Rect>, width: u32, height: u32) -> (made: Result<AtlasLayout, LayoutError>)
        ensures
            match made {
                Ok(layout) => {
                    &&& layout.wf()
                    &&& layout@ == rects@
                    &&& layout.image_size() == (width, height)
                },
                Err(LayoutError::RectOutOfBounds { index }) => {
                    &&& index < rects@.len()
                    &&& !rects@[index as int].within(width, height)
                    &&& forall|j: int| 0 <= j < index ==> (#[trigger] rects@[j]).within(width, height)
                },
            },
    {
        let mut i: usize = 0;
        while i < rects.len()
            invariant
                i <= rects@.len(),
                forall|j: int| 0 <= j < i ==> (#[trigger] rects@[j]).within(width, height),
            decreases rects@.len() - i,
        {
            if !rects[i].fits_within(width, height) {
                return Err(LayoutError::RectOutOfBounds { index: i });
            }
            i += 1;
        }
        Ok(AtlasLayout { rects, width, height })
    }

    /// The number of tiles.
    pub fn len(&self) -> (n: usize)
        ensures
            n == self@.len(),
    {
        self.rects.len()
    }

    /// Whether the layout holds no tile.
    pub fn is_empty(&self) -> (empty: bool)
        ensures
            empty == (self@.len() == 0),
    {
        self.rects.len() == 0
    }

    /// The width of the atlas image in pixels.
    pub fn width(&self) -> (w: u32)
        ensures
            w == self.image_size().0,
    {
        self.width
    }

    /// The height of the atlas image in pixels.
    pub fn height(&self) -> (h: u32)
        ensures
            h == self.image_size().1,
    {
        self.height
    }

    /// The rectangle that `tile_id` selects.
    pub fn rect_for(&self, tile_id: u32) -> (found: Result<Rect, LookupError>)
        ensures
            tile_id < self@.len() ==> found == Ok::<Rect, LookupError>(self@[tile_id as int]),
            tile_id >= self@.len() ==> found == Err::<Rect, LookupError>(LookupError::OutOfRange),
    {
        if (tile_id as usize) < self.rects.len() {
            Ok(self.rects[tile_id as usize])
        } else {
            Err(LookupError::OutOfRange)
        }
    }
}

} // verus!
