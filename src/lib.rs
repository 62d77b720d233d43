//! Bookkeeping of a voxel terrain chunk renderer: the byte stride of the
//! per-chunk offset slots in a dynamically offset uniform buffer, the triangle
//! index list for quad geometry, and the sequence of per-chunk draw calls of
//! one frame.
pub mod indices;
pub mod layout;
pub mod stride;

pub use indices::compute_voxel_indices;
pub use layout::{
    grid_positions, ChunkLayout, ChunkMesh, ChunkPos, DrawCall, LayoutError,
    DYNAMIC_OFFSET_ALIGNMENT, OFFSET_PAYLOAD_BYTES, TEST_GRID_SIDE,
};
pub use stride::ceil_to_next_multiple;
