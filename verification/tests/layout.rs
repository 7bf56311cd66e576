use reflection::layout::{align_vertex_data, index_write, instance_write_offsets, mesh_offsets, padded_len, vertex_write_offsets, COPY_BUFFER_ALIGNMENT};

#[test]
fn meshes_follow_one_another() {
    let (offsets, total) = mesh_offsets(&vec![3, 0, 5]);
    assert_eq!(offsets, vec![0, 3, 3]);
    assert_eq!(total, 8);
    let (none, zero) = mesh_offsets(&vec![]);
    assert!(none.is_empty());
    assert_eq!(zero, 0);
}

#[test]
fn vertex_sections() {
    assert_eq!(vertex_write_offsets(2, 10), (24, 144, 256, 328));
    assert_eq!(vertex_write_offsets(0, 0), (0, 0, 0, 0));
}

#[test]
fn index_writes() {
    assert_eq!(index_write(3, 6, 2), (6, 6, 3));
    assert_eq!(index_write(0, (1usize << 32) + 5, 2), (0, 5, 0));
}

#[test]
fn instance_writes() {
    assert_eq!(instance_write_offsets(2, 16, 20), (96, 112, 128, 40, 2));
    assert_eq!(instance_write_offsets(0, 16, 20), (0, 16, 32, 0, 0));
}

#[test]
fn lengths_are_padded_to_the_alignment() {
    assert_eq!(padded_len(0, 4), 0);
    assert_eq!(padded_len(5, 4), 8);
    assert_eq!(padded_len(8, 4), 8);
    assert_eq!(padded_len(7, 1), 7);
    assert_eq!(padded_len(10, 3), 12);
}

#[test]
fn vertex_data_is_padded_with_defaults() {
    assert_eq!(COPY_BUFFER_ALIGNMENT, 4);
    assert_eq!(align_vertex_data(vec![1u32, 2, 3, 4, 5]), vec![1, 2, 3, 4, 5, 0, 0, 0]);
    assert_eq!(align_vertex_data(vec![7u8; 4]), vec![7u8; 4]);
    assert_eq!(align_vertex_data(Vec::<i32>::new()), Vec::<i32>::new());
    assert_eq!(align_vertex_data(vec![(1u8, 2u16)]), vec![(1, 2), (0, 0), (0, 0), (0, 0)]);
}
