use explora_voxels::{
    grid_positions, ChunkLayout, ChunkMesh, ChunkPos, DrawCall, LayoutError,
    DYNAMIC_OFFSET_ALIGNMENT, TEST_GRID_SIDE,
};

fn test_grid_layout(vertex_count: u32) -> ChunkLayout {
    let side = TEST_GRID_SIDE;
    let mut layout = ChunkLayout::new(DYNAMIC_OFFSET_ALIGNMENT, side * side).unwrap();
    for pos in grid_positions(side) {
        layout.add_chunk(pos, vertex_count).unwrap();
    }
    layout
}

#[test]
fn test_grid_draws_every_chunk_in_its_own_slot() {
    let layout = test_grid_layout(24);
    assert_eq!(layout.chunk_count(), 9);
    for mesh in layout.chunks() {
        assert!((0..3).contains(&mesh.pos.x));
        assert!((0..3).contains(&mesh.pos.z));
    }
    let calls = layout.draw_pass();
    assert_eq!(calls.len(), 9);
    let offsets: Vec<u32> = calls.iter().map(|c| c.dynamic_offset).collect();
    assert_eq!(offsets, vec![0, 256, 512, 768, 1024, 1280, 1536, 1792, 2048]);
    for call in &calls {
        assert_eq!(call.index_count, 36);
    }
}

#[test]
fn grid_positions_run_along_z_first() {
    let positions = grid_positions(3);
    let pairs: Vec<(i32, i32)> = positions.iter().map(|p| (p.x, p.z)).collect();
    assert_eq!(
        pairs,
        vec![(0, 0), (0, 1), (0, 2), (1, 0), (1, 1), (1, 2), (2, 0), (2, 1), (2, 2)]
    );
    assert!(grid_positions(0).is_empty());
}

#[test]
fn new_layout_uses_aligned_stride() {
    let layout = ChunkLayout::new(0x100, 9).unwrap();
    assert_eq!(layout.offset_stride(), 256);
    assert_eq!(layout.alignment(), 256);
    assert_eq!(layout.slot_count(), 9);
    assert_eq!(layout.offset_buffer_size(), 2304);
    assert_eq!(layout.chunk_count(), 0);
    assert!(layout.draw_pass().is_empty());
}

#[test]
fn small_alignment_stride_holds_a_payload() {
    let layout = ChunkLayout::new(4, 2).unwrap();
    assert_eq!(layout.offset_stride(), 8);
    let layout = ChunkLayout::new(3, 2).unwrap();
    assert_eq!(layout.offset_stride(), 9);
    assert_eq!(layout.offset_buffer_size(), 18);
}

#[test]
fn zero_alignment_is_rejected() {
    assert_eq!(ChunkLayout::new(0, 9).err(), Some(LayoutError::ZeroAlignment));
}

#[test]
fn oversized_offset_buffer_is_rejected() {
    assert_eq!(
        ChunkLayout::new(0x100, 1 << 24).err(),
        Some(LayoutError::OffsetBufferTooLarge)
    );
    assert!(ChunkLayout::new(0x100, (1 << 24) - 1).is_ok());
}

#[test]
fn adding_past_slot_count_is_rejected() {
    let mut layout = ChunkLayout::new(0x100, 1).unwrap();
    assert_eq!(layout.add_chunk(ChunkPos { x: 0, z: 0 }, 4), Ok(()));
    assert_eq!(
        layout.add_chunk(ChunkPos { x: 1, z: 0 }, 4),
        Err(LayoutError::SlotsFull)
    );
    assert_eq!(layout.chunk_count(), 1);
}

#[test]
fn too_many_vertices_are_rejected() {
    let mut layout = ChunkLayout::new(0x100, 2).unwrap();
    assert_eq!(
        layout.add_chunk(ChunkPos { x: 0, z: 0 }, u32::MAX),
        Err(LayoutError::TooManyVertices)
    );
    assert_eq!(layout.chunk_count(), 0);
    let largest = (u32::MAX / 6) * 4 + 3;
    assert_eq!(layout.add_chunk(ChunkPos { x: 0, z: 0 }, largest), Ok(()));
    assert_eq!(layout.draw_pass()[0].index_count, u32::MAX / 6 * 6);
}

#[test]
fn draw_pass_keeps_insertion_order_and_truncates_quads() {
    let mut layout = ChunkLayout::new(0x100, 4).unwrap();
    layout.add_chunk(ChunkPos { x: 5, z: -2 }, 8).unwrap();
    layout.add_chunk(ChunkPos { x: -1, z: 7 }, 13).unwrap();
    layout.add_chunk(ChunkPos { x: 0, z: 0 }, 0).unwrap();
    assert_eq!(
        layout.draw_pass(),
        vec![
            DrawCall { pos: ChunkPos { x: 5, z: -2 }, dynamic_offset: 0, index_count: 12 },
            DrawCall { pos: ChunkPos { x: -1, z: 7 }, dynamic_offset: 256, index_count: 18 },
            DrawCall { pos: ChunkPos { x: 0, z: 0 }, dynamic_offset: 512, index_count: 0 },
        ]
    );
    assert_eq!(
        layout.chunks()[1],
        ChunkMesh { pos: ChunkPos { x: -1, z: 7 }, vertex_count: 13 }
    );
}

#[test]
fn index_list_is_sized_for_largest_chunk() {
    let mut layout = ChunkLayout::new(0x100, 3).unwrap();
    assert_eq!(layout.index_vertex_count(), 0);
    assert!(layout.build_index_list().is_empty());
    layout.add_chunk(ChunkPos { x: 0, z: 0 }, 8).unwrap();
    layout.add_chunk(ChunkPos { x: 1, z: 0 }, 20).unwrap();
    layout.add_chunk(ChunkPos { x: 2, z: 0 }, 12).unwrap();
    assert_eq!(layout.index_vertex_count(), 20);
    let indices = layout.build_index_list();
    assert_eq!(indices.len(), 30);
    assert_eq!(indices, explora_voxels::compute_voxel_indices(20));
    for call in layout.draw_pass() {
        assert!(call.index_count as usize <= indices.len());
    }
}
