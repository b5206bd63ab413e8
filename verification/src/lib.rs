//! Tile-indexed chunk rendering: a shared atlas layout, a per-chunk grid of
//! tile identifiers encoded as a single-channel integer texture, the upload of
//! that grid to the texture that the shading stage reads, and the
//! per-fragment lookup that resolves a position inside a chunk to a texel of
//! the atlas.
//!
//! A chunk is mutated, then synchronised, then drawn: `TilemapChunk::paint`,
//! `UploadPath::sync`, `DrawDescriptor::shade`.

pub mod atlas;
pub mod chunk;
pub mod encoding;
pub mod index_buffer;
pub mod material;
pub mod shading;
pub mod texture;
pub mod upload;
