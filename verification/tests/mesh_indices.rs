use wgpu_learning::renderer_backend::mesh::{
    cube_indices, ground_plane_indices, indices_to_bytes, mesh_data, n_gon_indices, quad_indices,
    quad_indices_to_tris,
};

#[test]
fn quad_split_keeps_winding() {
    assert_eq!(quad_indices_to_tris(0, 1, 2, 3), [0, 1, 2, 0, 2, 3]);
    assert_eq!(quad_indices_to_tris(7, 9, 11, 13), [7, 9, 11, 7, 11, 13]);
}

#[test]
fn index_bytes_are_little_endian() {
    assert_eq!(indices_to_bytes(&[0x0102, 0xff00, 7]), vec![2, 1, 0, 255, 7, 0]);
    assert_eq!(indices_to_bytes(&[u16::MAX]), vec![255, 255]);
}

#[test]
fn index_bytes_of_nothing() {
    assert!(indices_to_bytes(&[]).is_empty());
}

#[test]
fn index_bytes_decode_back() {
    let indices: Vec<u16> = (0..300u16).map(|i| i.wrapping_mul(331)).collect();
    let bytes = indices_to_bytes(&indices);
    assert_eq!(bytes.len(), 2 * indices.len());
    for (i, idx) in indices.iter().enumerate() {
        assert_eq!(u16::from_le_bytes([bytes[2 * i], bytes[2 * i + 1]]), *idx);
    }
}

#[test]
fn full_screen_quad_indices() {
    assert_eq!(quad_indices(), [0, 1, 2, 2, 3, 0]);
}

#[test]
fn pentagon_fan() {
    assert_eq!(n_gon_indices(5), vec![0, 1, 2, 0, 2, 3, 0, 3, 4]);
}

#[test]
fn triangle_and_degenerate_polygons() {
    assert_eq!(n_gon_indices(3), vec![0, 1, 2]);
    assert!(n_gon_indices(2).is_empty());
}

#[test]
fn largest_polygon_fits_sixteen_bit_indices() {
    let indices = n_gon_indices(65536);
    assert_eq!(indices.len(), 3 * 65534);
    assert_eq!(&indices[indices.len() - 3..], &[0, 65534, 65535]);
}

#[test]
fn polygon_indices_name_its_vertices() {
    for n in 3..=70usize {
        let indices = n_gon_indices(n);
        assert_eq!(indices.len(), 3 * (n - 2));
        assert!(indices.iter().all(|&i| (i as usize) < n));
    }
}

#[test]
fn cube_faces() {
    let indices = cube_indices();
    assert_eq!(indices.len(), 36);
    assert_eq!(&indices[..6], &[3, 2, 1, 3, 1, 0]);
    assert_eq!(&indices[30..], &[1, 2, 6, 1, 6, 5]);
    assert!(indices.iter().all(|&i| i < 8));
}

#[test]
fn single_cell_ground_plane() {
    assert_eq!(ground_plane_indices(1), vec![0, 1, 3, 0, 3, 2]);
}

#[test]
fn empty_ground_plane() {
    assert!(ground_plane_indices(0).is_empty());
}

#[test]
fn ground_plane_cells_in_row_order() {
    let indices = ground_plane_indices(2);
    assert_eq!(indices.len(), 24);
    assert_eq!(&indices[..6], &[0, 1, 4, 0, 4, 3]);
    assert_eq!(&indices[6..12], &[3, 4, 7, 3, 7, 6]);
    assert_eq!(&indices[12..18], &[1, 2, 5, 1, 5, 4]);
    assert!(indices.iter().all(|&i| i < 9));
}

#[test]
fn ground_plane_of_the_viewer() {
    let indices = ground_plane_indices(100);
    assert_eq!(indices.len(), 60000);
    assert_eq!(indices.iter().copied().max(), Some(101 * 101 - 1));
}

#[test]
fn largest_ground_plane_uses_every_index() {
    let indices = ground_plane_indices(255);
    assert_eq!(indices.len(), 6 * 255 * 255);
    assert_eq!(indices.iter().copied().max(), Some(u16::MAX));
}

#[test]
fn mesh_buffer_holds_vertices_then_indices() {
    let data = mesh_data(&[1, 2, 3], &[0x0102, 5]);
    assert_eq!(data.bytes, vec![1, 2, 3, 2, 1, 5, 0]);
    assert_eq!(data.offset, 3);
    assert_eq!(data.index_count, 2);
}

#[test]
fn mesh_buffer_reads_back() {
    let vertex_bytes: Vec<u8> = (0..36u8).collect();
    let indices = cube_indices();
    let data = mesh_data(&vertex_bytes, &indices);
    let offset = data.offset as usize;
    assert_eq!(&data.bytes[..offset], &vertex_bytes[..]);
    let decoded: Vec<u16> = data.bytes[offset..]
        .chunks(2)
        .map(|pair| u16::from_le_bytes([pair[0], pair[1]]))
        .collect();
    assert_eq!(decoded, indices);
    assert_eq!(data.index_count as usize, indices.len());
}
