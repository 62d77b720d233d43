use vstd::prelude::*;

use crate::indices::{compute_voxel_indices, voxel_index_count, voxel_indices};
use crate::stride::{ceil_to_next_multiple, lemma_next_multiple_bounds, next_multiple};

verus! {

/// Size in bytes of one chunk's world offset: an `(x, z)` pair of 4-byte floats.
pub const OFFSET_PAYLOAD_BYTES: u32 = 8;

/// Alignment of dynamic uniform-buffer offsets required by the GPU API.
pub const DYNAMIC_OFFSET_ALIGNMENT: u32 = 0x100;

/// Side of the square test grid of chunks loaded at start-up.
pub const TEST_GRID_SIDE: u32 = 3;

/// Position of a chunk in chunk-grid space.
#[derive(Clone, Copy, Debug, PartialEq, Eq, Structural)]
pub struct ChunkPos {
    pub x: i32,
    pub z: i32,
}

/// A loaded chunk: its position and the number of vertices of its mesh.
#[derive(Clone, Copy, Debug, PartialEq, Eq, Structural)]
pub struct ChunkMesh {
    pub pos: ChunkPos,
    pub vertex_count: u32,
}

/// One step of a draw pass: write the chunk's offset into the slot that starts
/// at `dynamic_offset`, bind that slot, and draw the first `index_count`
/// indices of the shared index buffer.
#[derive(Clone, Copy, Debug, PartialEq, Eq, Structural)]
pub struct DrawCall {
    pub pos: ChunkPos,
    pub dynamic_offset: u32,
    pub index_count: u32,
}

/// Why a layout could not be built or a chunk could not be added.
#[derive(Clone, Copy, Debug, PartialEq, Eq, Structural)]
pub enum LayoutError {
    /// The dynamic-offset alignment is zero.
    ZeroAlignment,
    /// The offset buffer (stride times slot count) does not fit in `u32` bytes.
    OffsetBufferTooLarge,
    /// Every offset slot is already taken by a chunk.
    SlotsFull,
    /// The chunk's index count does not fit in `u32`.
    TooManyVertices,
}

/// Number of indices drawn for a chunk of `vertex_count` vertices.
pub open spec fn chunk_index_count(vertex_count: u32) -> nat {
    voxel_index_count(vertex_count as nat)
}

/// The largest vertex count among `meshes`, or zero when there are none.
pub open spec fn max_vertex_count(meshes: Seq<ChunkMesh>) -> nat
    decreases meshes.len(),
{
    if meshes.len() == 0 {
        0
    } else {
        let rest = max_vertex_count(meshes.drop_last());
        let last = meshes.last().vertex_count as nat;
        if last > rest {
            last
        } else {
            rest
        }
    }
}

/// Every vertex count is at most the largest, and the largest is one of them
/// (or zero for no chunks).
pub proof fn lemma_max_vertex_count(meshes: Seq<ChunkMesh>)
    ensures
        forall|i: int|
            0 <= i < meshes.len() ==> #[trigger] meshes[i].vertex_count <= max_vertex_count(
                meshes,
            ),
        meshes.len() == 0 ==> max_vertex_count(meshes) == 0,
        meshes.len() > 0 ==> exists|i: int|
            0 <= i < meshes.len() && #[trigger] meshes[i].vertex_count == max_vertex_count(meshes),
    decreases meshes.len(),
{
    if meshes.len() > 0 {
        let rest = meshes.drop_last();
        lemma_max_vertex_count(rest);
        assert forall|i: int| 0 <= i < meshes.len() implies #[trigger] meshes[i].vertex_count
            <= max_vertex_count(meshes) by {
            if i < rest.len() {
                assert(meshes[i] == rest[i]);
            }
        }
        if max_vertex_count(meshes) == meshes.last().vertex_count {
            assert(meshes[meshes.len() - 1].vertex_count == max_vertex_count(meshes));
        } else {
            let j = choose|j: int|
                0 <= j < rest.len() && #[trigger] rest[j].vertex_count == max_vertex_count(rest);
            assert(meshes[j] == rest[j]);
        }
    }
}

/// Position of the `i`-th chunk of a square grid with `side` chunks a side,
/// filled row by row along `z`.
pub open spec fn grid_pos(i: int, side: int) -> ChunkPos {
    ChunkPos { x: (i / side) as i32, z: (i % side) as i32 }
}

/// The chunk positions of a `side` by `side` grid: `(x, z)` for `x` and `z`
/// in `0..side`, `x` varying slowest.
pub fn grid_positions(side: u32) -> (r: Vec<ChunkPos>)
    requires
        side <= i32::MAX,
        side * side <= usize::MAX,
    ensures
        r@.len() == side * side,
        forall|i: int| 0 <= i < r@.len() ==> #[trigger] r@[i] == grid_pos(i, side as int),
{
    let mut r: Vec<ChunkPos> = Vec::new();
    let mut x: u32 = 0;
    while x < side
        invariant
            x <= side <= i32::MAX,
            side * side <= usize::MAX,
            r@.len() == x * side,
            forall|i: int| 0 <= i < r@.len() ==> #[trigger] r@[i] == grid_pos(i, side as int),
        decreases side - x,
    {
        let mut z: u32 = 0;
        while z < side
            invariant
                x < side <= i32::MAX,
                z <= side,
                side * side <= usize::MAX,
                r@.len() == x * side + z,
                forall|i: int| 0 <= i < r@.len() ==> #[trigger] r@[i] == grid_pos(i, side as int),
            decreases side - z,
        {
            proof {
                vstd::arithmetic::div_mod::lemma_fundamental_div_mod_converse(
                    r@.len() as int,
                    side as int,
                    x as int,
                    z as int,
                );
            }
            r.push(ChunkPos { x: x as i32, z: z as i32 });
            z = z + 1;
        }
        assert(r@.len() == (x + 1) * side) by (nonlinear_arith)
            requires
                r@.len() == x * side + side,
        ;
        x = x + 1;
    }
    r
}

/// Stride between offset slots for a given alignment.
pub open spec fn slot_stride(alignment: u32) -> int {
    next_multiple(OFFSET_PAYLOAD_BYTES as int, alignment as int)
}

/// The offset slot stride is a multiple of the alignment, holds one payload,
/// and equals the alignment once that is at least a payload in size.
proof fn lemma_slot_stride(alignment: u32)
    requires
        alignment > 0,
    ensures
        slot_stride(alignment) % (alignment as int) == 0,
        slot_stride(alignment) >= OFFSET_PAYLOAD_BYTES,
        slot_stride(alignment) <= u32::MAX,
        alignment >= OFFSET_PAYLOAD_BYTES ==> slot_stride(alignment) == alignment,
{
    lemma_next_multiple_bounds(OFFSET_PAYLOAD_BYTES, alignment);
    let a = alignment as int;
    if a > 8 {
        assert(8int / a == 0 && 8int % a == 8) by (nonlinear_arith)
            requires
                a > 8,
        ;
        assert(slot_stride(alignment) == a * 1);
    } else if a == 8 {
        assert(8int / 8int == 1 && 8int % 8int == 0);
        assert(slot_stride(alignment) == next_multiple(8, 8));
    }
}

/// The chunk-draw controller's bookkeeping: the loaded chunks in insertion
/// order, and a uniform buffer of `slot_count` offset slots, `offset_stride`
/// bytes apart, one per chunk.
pub struct ChunkLayout {
    meshes: Vec<ChunkMesh>,
    alignment: u32,
    offset_stride: u32,
    slot_count: u32,
}

impl ChunkLayout {
    /// The loaded chunks, in the order they were added.
    pub closed spec fn spec_meshes(&self) -> Seq<ChunkMesh> {
        self.meshes@
    }

    pub closed spec fn spec_alignment(&self) -> u32 {
        self.alignment
    }

    pub closed spec fn spec_offset_stride(&self) -> u32 {
        self.offset_stride
    }

    pub closed spec fn spec_slot_count(&self) -> u32 {
        self.slot_count
    }

    /// The stride rounds a payload up to the alignment, the whole offset
    /// buffer is addressable by a `u32` offset, no more chunks are loaded
    /// than there are slots, and every chunk's index count fits in `u32`.
    pub closed spec fn wf(&self) -> bool {
        &&& self.alignment > 0
        &&& self.offset_stride == slot_stride(self.alignment)
        &&& self.offset_stride * self.slot_count <= u32::MAX
        &&& self.meshes@.len() <= self.slot_count
        &&& forall|i: int|
            0 <= i < self.meshes@.len() ==> chunk_index_count(
                #[trigger] self.meshes@[i].vertex_count,
            ) <= u32::MAX
    }

    /// An empty layout for `slot_count` chunks whose offset slots honour the
    /// dynamic-offset `alignment`.
    pub fn new(alignment: u32, slot_count: u32) -> (r: Result<ChunkLayout, LayoutError>)
        ensures
            alignment == 0 <==> r == Err::<ChunkLayout, LayoutError>(LayoutError::ZeroAlignment),
            r == Err::<ChunkLayout, LayoutError>(LayoutError::OffsetBufferTooLarge) <==> (
            alignment > 0 && slot_stride(alignment) * slot_count > u32::MAX),
            r is Ok <==> (alignment > 0 && slot_stride(alignment) * slot_count <= u32::MAX),
            r matches Ok(layout) ==> {
                &&& layout.wf()
                &&& layout.spec_meshes() == Seq::<ChunkMesh>::empty()
                &&& layout.spec_alignment() == alignment
                &&& layout.spec_offset_stride() == slot_stride(alignment)
                &&& layout.spec_slot_count() == slot_count
            },
    {
        if alignment == 0 {
            return Err(LayoutError::ZeroAlignment);
        }
        proof {
            lemma_slot_stride(alignment);
        }
        let offset_stride = ceil_to_next_multiple(OFFSET_PAYLOAD_BYTES, alignment);
        assert((offset_stride as u64) * (slot_count as u64) <= u64::MAX) by (nonlinear_arith)
            requires
                offset_stride <= u32::MAX,
                slot_count <= u32::MAX,
        ;
        if (offset_stride as u64) * (slot_count as u64) > u32::MAX as u64 {
            return Err(LayoutError::OffsetBufferTooLarge);
        }
        let layout = ChunkLayout { meshes: Vec::new(), alignment, offset_stride, slot_count };
        assert(layout.meshes@ =~= Seq::<ChunkMesh>::empty());
        Ok(layout)
    }

    /// Loads a chunk into the next free offset slot. Fails, leaving the
    /// layout unchanged, when all slots are taken or when the chunk's index
    /// count does not fit in `u32`.
    pub fn add_chunk(&mut self, pos: ChunkPos, vertex_count: u32) -> (r: Result<(), LayoutError>)
        requires
            old(self).wf(),
        ensures
            final(self).wf(),
            final(self).spec_alignment() == old(self).spec_alignment(),
            final(self).spec_offset_stride() == old(self).spec_offset_stride(),
            final(self).spec_slot_count() == old(self).spec_slot_count(),
            r == Err::<(), LayoutError>(LayoutError::SlotsFull) <==> old(
                self,
            ).spec_meshes().len() >= old(self).spec_slot_count(),
            r == Err::<(), LayoutError>(LayoutError::TooManyVertices) <==> (old(
                self,
            ).spec_meshes().len() < old(self).spec_slot_count() && chunk_index_count(vertex_count)
                > u32::MAX),
            r is Ok <==> (old(self).spec_meshes().len() < old(self).spec_slot_count()
                && chunk_index_count(vertex_count) <= u32::MAX),
            r is Ok ==> final(self).spec_meshes() == old(self).spec_meshes().push(
                (ChunkMesh { pos, vertex_count }),
            ),
            r is Err ==> final(self).spec_meshes() == old(self).spec_meshes(),
    {
        if self.meshes.len() >= self.slot_count as usize {
            return Err(LayoutError::SlotsFull);
        }
        if vertex_count / 4 > u32::MAX / 6 {
            return Err(LayoutError::TooManyVertices);
        }
        self.meshes.push(ChunkMesh { pos, vertex_count });
        Ok(())
    }

    /// The loaded chunks, in the order they were added.
    pub fn chunks(&self) -> (r: &Vec<ChunkMesh>)
        ensures
            r@ == self.spec_meshes(),
    {
        &self.meshes
    }

    /// Number of loaded chunks.
    pub fn chunk_count(&self) -> (r: usize)
        ensures
            r == self.spec_meshes().len(),
    {
        self.meshes.len()
    }

    pub fn alignment(&self) -> (r: u32)
        ensures
            r == self.spec_alignment(),
    {
        self.alignment
    }

    /// Byte distance between consecutive offset slots.
    pub fn offset_stride(&self) -> (r: u32)
        ensures
            r == self.spec_offset_stride(),
    {
        self.offset_stride
    }

    /// Number of offset slots, and so of chunks the layout can hold.
    pub fn slot_count(&self) -> (r: u32)
        ensures
            r == self.spec_slot_count(),
    {
        self.slot_count
    }

    /// Size in bytes of the offset uniform buffer: one slot per chunk.
    pub fn offset_buffer_size(&self) -> (r: u64)
        requires
            self.wf(),
        ensures
            r == self.spec_offset_stride() * self.spec_slot_count(),
    {
        self.offset_stride as u64 * self.slot_count as u64
    }

    /// The vertex count the shared index buffer is sized for: that of the
    /// largest chunk, so that every chunk's draw range lies inside it.
    pub fn index_vertex_count(&self) -> (r: u32)
        requires
            self.wf(),
        ensures
            r == max_vertex_count(self.spec_meshes()),
    {
        let mut best: u32 = 0;
        let mut i: usize = 0;
        while i < self.meshes.len()
            invariant
                i <= self.meshes@.len(),
                best == max_vertex_count(self.meshes@.subrange(0, i as int)),
            decreases self.meshes@.len() - i,
        {
            let count = self.meshes[i].vertex_count;
            assert(self.meshes@.subrange(0, i + 1).drop_last() =~= self.meshes@.subrange(
                0,
                i as int,
            ));
            if count > best {
                best = count;
            }
            i = i + 1;
        }
        assert(self.meshes@.subrange(0, i as int) =~= self.meshes@);
        best
    }

    /// The shared index buffer's contents: the quad index list for the
    /// largest chunk.
    pub fn build_index_list(&self) -> (r: Vec<u32>)
        requires
            self.wf(),
        ensures
            r@ == voxel_indices(max_vertex_count(self.spec_meshes())),
    {
        let n = self.index_vertex_count();
        proof {
            lemma_max_vertex_count(self.meshes@);
            if self.meshes@.len() > 0 {
                let j = choose|j: int|
                    0 <= j < self.meshes@.len() && #[trigger] self.meshes@[j].vertex_count
                        == max_vertex_count(self.meshes@);
                assert(chunk_index_count(self.meshes@[j].vertex_count) <= u32::MAX);
            }
        }
        compute_voxel_indices(n as usize)
    }

    /// The steps of one draw pass, one per chunk in insertion order. The
    /// slot offset starts at zero and advances by the stride after each
    /// chunk; each chunk draws the indices of its own whole quads.
    pub fn draw_pass(&self) -> (r: Vec<DrawCall>)
        requires
            self.wf(),
        ensures
            r@.len() == self.spec_meshes().len(),
            forall|i: int|
                0 <= i < r@.len() ==> {
                    &&& (#[trigger] r@[i]).pos == self.spec_meshes()[i].pos
                    &&& r@[i].dynamic_offset == i * self.spec_offset_stride()
                    &&& r@[i].index_count == chunk_index_count(self.spec_meshes()[i].vertex_count)
                },
    {
        let mut calls: Vec<DrawCall> = Vec::new();
        let mut stride: u32 = 0;
        let mut i: usize = 0;
        while i < self.meshes.len()
            invariant
                self.wf(),
                i <= self.meshes@.len(),
                stride == i * self.offset_stride,
                calls@.len() == i,
                forall|k: int|
                    0 <= k < i ==> {
                        &&& (#[trigger] calls@[k]).pos == self.meshes@[k].pos
                        &&& calls@[k].dynamic_offset == k * self.offset_stride
                        &&& calls@[k].index_count == chunk_index_count(
                            self.meshes@[k].vertex_count,
                        )
                    },
            decreases self.meshes@.len() - i,
        {
            let mesh = self.meshes[i];
            assert(chunk_index_count(self.meshes@[i as int].vertex_count) <= u32::MAX);
            calls.push(
                DrawCall {
                    pos: mesh.pos,
                    dynamic_offset: stride,
                    index_count: mesh.vertex_count / 4 * 6,
                },
            );
            assert((i + 1) * self.offset_stride == i * self.offset_stride + self.offset_stride
                && (i + 1) * self.offset_stride <= self.offset_stride * self.slot_count)
                by (nonlinear_arith)
                requires
                    i + 1 <= self.slot_count,
            ;
            stride = stride + self.offset_stride;
            i = i + 1;
        }
        calls
    }
}


/// In a draw pass over a well-formed layout, the offset slot of every loaded
/// chunk `i` starts at a multiple of the alignment and lies inside the offset
/// buffer.
pub proof fn lemma_draw_slot_in_offset_buffer(layout: &ChunkLayout, i: int)
    requires
        layout.wf(),
        0 <= i < layout.spec_meshes().len(),
    ensures
        (i * layout.spec_offset_stride()) % (layout.spec_alignment() as int) == 0,
        i * layout.spec_offset_stride() + OFFSET_PAYLOAD_BYTES <= layout.spec_offset_stride()
            * layout.spec_slot_count(),
{
    let a = layout.alignment as int;
    let s = layout.offset_stride as int;
    let n = layout.slot_count as int;
    lemma_slot_stride(layout.alignment);
    vstd::arithmetic::div_mod::lemma_mul_mod_noop_right(i, s, a);
    assert(i * (s % a) == 0);
    assert(i * s + s <= s * n) by (nonlinear_arith)
        requires
            0 <= i < n,
            s >= 0,
    ;
}

/// In a draw pass over a well-formed layout, the offset slot of chunk `i`
/// ends before the slot of any later chunk `j` begins.
pub proof fn lemma_draw_slots_disjoint(layout: &ChunkLayout, i: int, j: int)
    requires
        layout.wf(),
        0 <= i < j < layout.spec_meshes().len(),
    ensures
        i * layout.spec_offset_stride() + OFFSET_PAYLOAD_BYTES <= j
            * layout.spec_offset_stride(),
{
    let s = layout.offset_stride as int;
    lemma_slot_stride(layout.alignment);
    assert(i * s + s <= j * s) by (nonlinear_arith)
        requires
            0 <= i < j,
            s >= 0,
    ;
}

/// Every chunk of a well-formed layout draws an index range that lies inside
/// the shared index buffer built for the layout.
pub proof fn lemma_draw_ranges_in_index_buffer(layout: &ChunkLayout, i: int)
    requires
        layout.wf(),
        0 <= i < layout.spec_meshes().len(),
    ensures
        chunk_index_count(layout.spec_meshes()[i].vertex_count) <= voxel_indices(
            max_vertex_count(layout.spec_meshes()),
        ).len(),
{
    let meshes = layout.spec_meshes();
    lemma_max_vertex_count(meshes);
    let v = meshes[i].vertex_count as nat;
    let m = max_vertex_count(meshes);
    assert(v <= m);
    assert(v / 4 <= m / 4) by {
        vstd::arithmetic::div_mod::lemma_div_is_ordered(v as int, m as int, 4);
    }
}

} // verus!
