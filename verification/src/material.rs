//! The material of a tile map: what is bound for the shading stage, and
//! what that stage makes of a fragment.
//!
//! Binding slots: the uniform block at 0, the atlas texture at 1, its
//! sampler at 2, the index texture at 3.

use crate::atlas::{AtlasLayout, Rect};
use crate::chunk::TilemapChunk;
use crate::shading::{
    lemma_along_in_range, lemma_scale_invariant, locate, locate_texel, Fraction,
};
use crate::texture::{IndexTexture, TexelView};
use vstd::prelude::*;

verus! {

/// The binding slot of the uniform block.
pub const UNIFORM_BINDING: u32 = 0;

/// The binding slot of the atlas texture.
pub const ATLAS_TEXTURE_BINDING: u32 = 1;

/// The binding slot of the sampler of the atlas texture.
pub const ATLAS_SAMPLER_BINDING: u32 = 2;

/// The binding slot of the index texture.
pub const INDEX_TEXTURE_BINDING: u32 = 3;

/// The identifier under which the host keeps the fragment shader of the
/// tile map material.
pub const TILEMAP_MATERIAL_SHADER_HANDLE: u128 = 3778691234201231346;

/// A handle to an image that the host keeps.
#[derive(Clone, Copy, Debug, PartialEq, Eq, Hash, Structural)]
pub struct ImageHandle {
    pub id: u128,
}

/// A handle to a shader that the host keeps.
#[derive(Clone, Copy, Debug, PartialEq, Eq, Hash, Structural)]
pub struct ShaderHandle {
    pub id: u128,
}

/// The material shared by the chunks that draw from one atlas image.
#[derive(Clone, Copy, Debug, PartialEq, Eq)]
pub struct TilemapMaterial {
    /// The atlas image, where one is set.
    pub texture: Option<ImageHandle>,
}

impl Default for TilemapMaterial {
    /// The material without an atlas image.
    fn default() -> (material: TilemapMaterial)
        ensures
            material == (TilemapMaterial { texture: None }),
    {
        TilemapMaterial { texture: None }
    }
}

impl From<ImageHandle> for TilemapMaterial {
    /// The material that draws from the atlas image `texture`.
    fn from(texture: ImageHandle) -> (material: TilemapMaterial) {
        TilemapMaterial { texture: Some(texture) }
    }
}

impl vstd::std_specs::convert::FromSpecImpl<ImageHandle> for TilemapMaterial {
    open spec fn obeys_from_spec() -> bool {
        true
    }

    open spec fn from_spec(texture: ImageHandle) -> TilemapMaterial {
        TilemapMaterial { texture: Some(texture) }
    }
}

impl TilemapMaterial {
    /// The fragment shader that draws this material.
    pub fn fragment_shader() -> (shader: ShaderHandle)
        ensures
            shader == (ShaderHandle { id: TILEMAP_MATERIAL_SHADER_HANDLE }),
    {
        ShaderHandle { id: TILEMAP_MATERIAL_SHADER_HANDLE }
    }
}

/// What the host has to register before a tile map can be drawn.
#[derive(Clone, Copy, Debug, PartialEq, Eq)]
pub struct MaterialSetup {
    /// The handle under which the fragment shader is kept.
    pub shader: ShaderHandle,
    /// The material kept as the default instance.
    pub default_material: TilemapMaterial,
}

/// The extension that makes the tile map material known to the host.
#[derive(Clone, Copy, Debug, Default)]
pub struct TilemapMaterialPlugin;

impl TilemapMaterialPlugin {
    /// What the host registers for this extension: the fragment shader
    /// under its handle, and the material without an atlas image as the
    /// default instance.
    pub fn build(&self) -> (setup: MaterialSetup)
        ensures
            setup == (MaterialSetup {
                shader: ShaderHandle { id: TILEMAP_MATERIAL_SHADER_HANDLE },
                default_material: TilemapMaterial { texture: None },
            }),
    {
        MaterialSetup {
            shader: TilemapMaterial::fragment_shader(),
            default_material: TilemapMaterial { texture: None },
        }
    }
}

/// The uniform block of one chunk.
#[derive(Clone, Copy, Debug, PartialEq, Eq)]
pub struct ChunkUniform {
    /// The width and height of the chunk in world units.
    pub chunk_size: (u64, u64),
    /// The number of columns and of rows of the chunk's grid.
    pub grid_dims: (u32, u32),
}

/// A position inside a chunk: along each axis a fraction of the chunk's
/// extent, from the left and from the top.
#[derive(Clone, Copy, Debug, PartialEq, Eq)]
pub struct Uv {
    pub u: Fraction,
    pub v: Fraction,
}

impl Uv {
    /// Neither denominator is zero.
    pub open spec fn valid(self) -> bool {
        self.u.valid() && self.v.valid()
    }
}

/// What the shading stage makes of a fragment.
#[derive(Clone, Copy, Debug, PartialEq, Eq)]
pub enum Fragment {
    /// The fragment is fully transparent: nothing is sampled.
    Discard,
    /// The fragment takes the colour of the texel `texel` of the atlas
    /// image, which belongs to the tile `tile_id`.
    Sample { tile_id: u32, texel: (u32, u32) },
}

/// The tile that is drawn for the identifier `id`: the identifier itself
/// where the layout has such a tile, else tile 0.
pub open spec fn drawn_tile(id: u32, layout: Seq<Rect>) -> u32 {
    if id < layout.len() {
        id
    } else {
        0
    }
}

/// What the shading stage makes of the position `uv` of a chunk whose grid
/// has `grid_dims` cells, given the index texture and the atlas layout.
///
/// The position falls in a cell. Where the cell is empty, the fragment is
/// discarded; so it is where there is no cell or no tile at all. Else the
/// cell's tile is drawn, tile 0 for an identifier that the layout lacks,
/// and the position inside the cell selects a texel of the tile's
/// rectangle.
pub open spec fn shaded(
    grid_dims: (u32, u32),
    indices: TexelView,
    layout: Seq<Rect>,
    uv: Uv,
) -> Fragment {
    if grid_dims.0 == 0 || grid_dims.1 == 0 || layout.len() == 0 {
        Fragment::Discard
    } else {
        let id = indices.texel(uv.u.cell_along(grid_dims.0), uv.v.cell_along(grid_dims.1));
        if id == indices.index_width.empty_id() {
            Fragment::Discard
        } else {
            let tile = drawn_tile(id, layout);
            let rect = layout[tile as int];
            Fragment::Sample {
                tile_id: tile,
                texel: (
                    (rect.offset.0 + uv.u.texel_along(grid_dims.0, rect.size.0)) as u32,
                    (rect.offset.1 + uv.v.texel_along(grid_dims.1, rect.size.1)) as u32,
                ),
            }
        }
    }
}

/// The position of the world point `world` inside a chunk at `origin` of
/// `chunk_size` world units.
pub open spec fn uv_at(origin: (i32, i32), chunk_size: (u64, u64), world: (i32, i32)) -> Uv {
    Uv {
        u: Fraction { num: (world.0 - origin.0) as i64, den: chunk_size.0 },
        v: Fraction { num: (world.1 - origin.1) as i64, den: chunk_size.1 },
    }
}

/// What is bound to draw one chunk, and where the chunk lies.
#[derive(Clone, Copy, Debug)]
pub struct DrawDescriptor<'a> {
    /// The uniform block, bound at slot 0.
    pub uniform: ChunkUniform,
    /// The atlas image, bound at slot 1 with its sampler at slot 2.
    pub atlas: ImageHandle,
    /// The layout of the atlas image.
    pub layout: &'a AtlasLayout,
    /// The index texture, bound at slot 3.
    pub indices: &'a IndexTexture,
    /// The world position of the top left corner of the chunk.
    pub origin: (i32, i32),
}

impl<'a> DrawDescriptor<'a> {
    /// The layout and the index texture are well formed, and the index
    /// texture has a texel for each cell that the uniform block counts.
    pub open spec fn wf(&self) -> bool {
        &&& self.layout.wf()
        &&& self.indices.wf()
        &&& self.uniform.grid_dims == (self.indices@.width, self.indices@.height)
    }

    /// What is bound to draw `chunk` with `material` from the index
    /// texture `indices`. Nothing where the material has no atlas image, or
    /// where the texture has not the dimensions and the texel width of the
    /// chunk's grid.
    pub fn bind(
        chunk: &TilemapChunk<'a>,
        material: &TilemapMaterial,
        indices: &'a IndexTexture,
    ) -> (bound: Option<DrawDescriptor<'a>>)
        requires
            chunk.wf(),
            indices.wf(),
        ensures
            bound.is_some() == (material.texture.is_some() && indices@.fits(chunk@.grid)),
            bound matches Some(d) ==> {
                &&& d.wf()
                &&& Some(d.atlas) == material.texture
                &&& *d.layout == chunk@.layout
                &&& *d.indices == *indices
                &&& d.origin == chunk@.origin
                &&& d.uniform.chunk_size == chunk@.world_bounds().size
                &&& d.uniform.grid_dims == (chunk@.grid.width, chunk@.grid.height)
            },
    {
        let atlas = match material.texture {
            Some(handle) => handle,
            None => {
                return None;
            },
        };
        if !indices.fits(chunk.tile_indicies()) {
            return None;
        }
        let bounds = chunk.world_bounds();
        Some(
            DrawDescriptor {
                uniform: ChunkUniform { chunk_size: bounds.size, grid_dims: chunk.grid_dims() },
                atlas,
                layout: chunk.layout(),
                indices,
                origin: chunk.origin(),
            },
        )
    }

    /// What the shading stage makes of the position `uv` of the chunk. A
    /// texel that is sampled lies inside the rectangle of its tile, unless
    /// that rectangle holds no texel.
    pub fn shade(&self, uv: Uv) -> (fragment: Fragment)
        requires
            self.wf(),
            uv.valid(),
        ensures
            fragment == shaded(self.uniform.grid_dims, self.indices@, self.layout@, uv),
            fragment matches Fragment::Sample { tile_id, texel } ==> {
                &&& tile_id < self.layout@.len()
                &&& texel.0 <= self.layout.image_size().0
                &&& texel.1 <= self.layout.image_size().1
                &&& self.layout@[tile_id as int].size.0 > 0 && self.layout@[tile_id as int].size.1
                    > 0 ==> self.layout@[tile_id as int].contains(texel.0 as int, texel.1 as int)
            },
    {
        let (columns, rows) = self.uniform.grid_dims;
        if columns == 0 || rows == 0 || self.layout.is_empty() {
            return Fragment::Discard;
        }
        let cx: u32 = locate(uv.u, columns);
        let cy: u32 = locate(uv.v, rows);
        let id: u32 = match self.indices.texel(cx, cy) {
            Some(id) => id,
            None => {
                return Fragment::Discard;
            },
        };
        if id == self.indices.index_width().sentinel() {
            return Fragment::Discard;
        }
        let rect = match self.layout.rect_for(id) {
            Ok(rect) => rect,
            Err(_) => match self.layout.rect_for(0) {
                Ok(rect) => rect,
                Err(_) => {
                    return Fragment::Discard;
                },
            },
        };
        let tile: u32 = if (id as usize) < self.layout.len() {
            id
        } else {
            0
        };
        let tx: u32 = locate_texel(uv.u, columns, rect.size.0);
        let ty: u32 = locate_texel(uv.v, rows, rect.size.1);
        proof {
            lemma_along_in_range(uv.u, columns, rect.size.0);
            lemma_along_in_range(uv.v, rows, rect.size.1);
            assert(self.layout@[tile as int].within(
                self.layout.image_size().0,
                self.layout.image_size().1,
            ));
        }
        Fragment::Sample { tile_id: tile, texel: (rect.offset.0 + tx, rect.offset.1 + ty) }
    }

    /// What the shading stage makes of the fragment at the world point
    /// `world`. A chunk without extent has no fragment: all is discarded.
    pub fn shade_at(&self, world: (i32, i32)) -> (fragment: Fragment)
        requires
            self.wf(),
        ensures
            self.uniform.chunk_size.0 == 0 || self.uniform.chunk_size.1 == 0 ==> fragment
                == Fragment::Discard,
            self.uniform.chunk_size.0 > 0 && self.uniform.chunk_size.1 > 0 ==> fragment == shaded(
                self.uniform.grid_dims,
                self.indices@,
                self.layout@,
                uv_at(self.origin, self.uniform.chunk_size, world),
            ),
    {
        if self.uniform.chunk_size.0 == 0 || self.uniform.chunk_size.1 == 0 {
            return Fragment::Discard;
        }
        let uv = Uv {
            u: Fraction { num: world.0 as i64 - self.origin.0 as i64, den: self.uniform.chunk_size.0 },
            v: Fraction { num: world.1 as i64 - self.origin.1 as i64, den: self.uniform.chunk_size.1 },
        };
        self.shade(uv)
    }
}

/// The position of a fragment inside a chunk does not change where the
/// chunk and the fragment are moved by the same distance.
pub proof fn lemma_shift_invariant(
    origin: (i32, i32),
    world: (i32, i32),
    moved_origin: (i32, i32),
    moved_world: (i32, i32),
    chunk_size: (u64, u64),
)
    requires
        moved_origin.0 - origin.0 == moved_world.0 - world.0,
        moved_origin.1 - origin.1 == moved_world.1 - world.1,
    ensures
        uv_at(moved_origin, chunk_size, moved_world) == uv_at(origin, chunk_size, world),
{
}

/// What the shading stage makes of a fragment does not change where the
/// chunk and the fragment's distance from its corner are scaled by the same
/// factor `k`: `scaled` is `uv` with each numerator and each denominator
/// multiplied by `k`.
pub proof fn lemma_scale_invariant_shading(
    grid_dims: (u32, u32),
    indices: TexelView,
    layout: Seq<Rect>,
    uv: Uv,
    scaled: Uv,
    k: int,
)
    requires
        uv.valid(),
        k > 0,
        scaled.u.num == k * uv.u.num,
        scaled.u.den == k * uv.u.den,
        scaled.v.num == k * uv.v.num,
        scaled.v.den == k * uv.v.den,
    ensures
        shaded(grid_dims, indices, layout, scaled) == shaded(grid_dims, indices, layout, uv),
{
    if grid_dims.0 != 0 && grid_dims.1 != 0 && layout.len() != 0 {
        lemma_scale_invariant(uv.u, scaled.u, k, grid_dims.0, 0);
        lemma_scale_invariant(uv.v, scaled.v, k, grid_dims.1, 0);
        let id = indices.texel(uv.u.cell_along(grid_dims.0), uv.v.cell_along(grid_dims.1));
        let rect = layout[drawn_tile(id, layout) as int];
        lemma_scale_invariant(uv.u, scaled.u, k, grid_dims.0, rect.size.0);
        lemma_scale_invariant(uv.v, scaled.v, k, grid_dims.1, rect.size.1);
    }
}

} // verus!
