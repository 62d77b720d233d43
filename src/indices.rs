use vstd::prelude::*;

verus! {

/// Number of vertices that make up one quad.
pub const VERTICES_PER_QUAD: usize = 4;

/// Number of triangle indices emitted for one quad (two triangles).
pub const INDICES_PER_QUAD: usize = 6;

/// Offset, within its quad, of the vertex named by the `corner`-th index of
/// the quad's six: triangles 0-1-2 and 2-3-0.
pub open spec fn corner_offset(corner: int) -> int {
    if corner == 0 {
        0
    } else if corner == 1 {
        1
    } else if corner == 2 {
        2
    } else if corner == 3 {
        2
    } else if corner == 4 {
        3
    } else {
        0
    }
}

/// The `k`-th entry of the index list: quad `k / 6`, corner `k % 6`.
pub open spec fn voxel_index(k: int) -> int {
    4 * (k / 6) + corner_offset(k % 6)
}

/// Number of indices generated for `n` vertices; trailing vertices that do
/// not form a whole quad are dropped.
pub open spec fn voxel_index_count(n: nat) -> nat {
    (n / 4 * 6) as nat
}

/// The index list for `n` vertices laid out as consecutive quads.
pub open spec fn voxel_indices(n: nat) -> Seq<u32> {
    Seq::new(voxel_index_count(n), |k: int| voxel_index(k) as u32)
}

/// Builds the triangle index list for `number_of_vertices` vertices grouped
/// in quads of four: quad `i` with base `4 * i` yields
/// `[4i, 4i + 1, 4i + 2, 4i + 2, 4i + 3, 4i]`.
pub fn compute_voxel_indices(number_of_vertices: usize) -> (indices: Vec<u32>)
    requires
        number_of_vertices / 4 <= 0x4000_0000,
        voxel_index_count(number_of_vertices as nat) <= usize::MAX,
    ensures
        indices@ == voxel_indices(number_of_vertices as nat),
        forall|k: int|
            0 <= k < indices@.len() ==> #[trigger] indices@[k] as int == voxel_index(k),
{
    let quads: usize = number_of_vertices / VERTICES_PER_QUAD;
    let mut indices: Vec<u32> = Vec::with_capacity(quads * INDICES_PER_QUAD);
    let mut i: usize = 0;
    while i < quads
        invariant
            i <= quads,
            quads == number_of_vertices / 4,
            quads <= 0x4000_0000,
            indices@.len() == i * 6,
            forall|k: int| 0 <= k < i * 6 ==> #[trigger] indices@[k] as int == voxel_index(k),
        decreases quads - i,
    {
        let offset: u32 = i as u32 * 4;
        let base = indices.len();
        indices.push(offset);
        indices.push(offset + 1);
        indices.push(offset + 2);
        indices.push(offset + 2);
        indices.push(offset + 3);
        indices.push(offset);
        assert forall|k: int| base <= k < base + 6 implies #[trigger] indices@[k] as int
            == voxel_index(k) by {
            assert((k / 6) == i as int && k % 6 == k - base) by (nonlinear_arith)
                requires
                    base == i * 6,
                    base <= k < base + 6,
            ;
        }
        i = i + 1;
    }
    assert(indices@ =~= voxel_indices(number_of_vertices as nat));
    indices
}

/// For a vertex count that is a multiple of four, the index list holds six
/// entries per group of four vertices.
pub proof fn lemma_voxel_indices_len(n: nat)
    requires
        n % 4 == 0,
    ensures
        voxel_indices(n).len() == n / 4 * 6,
{
}

/// Vertices beyond the last whole quad are ignored: the index list for `n`
/// vertices is the one for `n` rounded down to a multiple of four.
pub proof fn lemma_voxel_indices_truncate(n: nat)
    ensures
        voxel_indices(n) == voxel_indices((n - n % 4) as nat),
{
    let m = (n - n % 4) as nat;
    assert(m / 4 == n / 4);
    assert(voxel_indices(n) =~= voxel_indices(m));
}

} // verus!
