use light_field_test::light_field::LFMatrices;
use light_field_test::light_field::{
    build_m_a, build_m_b, build_m_t, build_sparse_matrix, build_stereo_matrix, mapping_from_samples,
    rays_cast_counts,
};
use light_field_test::sparse::Triplet;

#[test]
fn sparse_matrix_keeps_triplets_in_order() {
    let ts = vec![Triplet::new(1, 2, 0.5f32), Triplet::new(0, 0, 1.0)];
    let m = build_sparse_matrix(ts, 2, 3);
    assert_eq!(m.shape, (2, 3));
    assert_eq!(m.triplet_list, vec![(1, 2, 0.5), (0, 0, 1.0)]);
}

#[test]
fn mapping_cuts_samples_per_view() {
    // two views of three rays, the last view short
    let m = mapping_from_samples(vec![4, 1, 0, 2, 3], 3, 5, 1.0f32);
    assert_eq!(m.matrix.len(), 2);
    assert_eq!(m.matrix[0].shape, (3, 5));
    assert_eq!(m.matrix[0].triplet_list, vec![(0, 4, 1.0), (1, 1, 1.0), (2, 0, 1.0)]);
    assert_eq!(m.matrix[1].triplet_list, vec![(0, 2, 1.0), (1, 3, 1.0)]);
    assert!(mapping_from_samples(vec![], 3, 5, 1.0f32).matrix.is_empty());
}

#[test]
fn target_mapping_uses_both_axes() {
    let m = build_m_t(vec![0, 1, 1, 0], vec![2, 0], (2, 1), (2, 3), 1u8);
    assert_eq!(m.size, (2, 3));
    assert_eq!(m.x.matrix.len(), 2);
    assert_eq!(m.x.matrix[1].triplet_list, vec![(0, 1, 1), (1, 0, 1)]);
    assert_eq!(m.y.matrix.len(), 2);
    assert_eq!(m.y.matrix[0].shape, (1, 3));
    assert_eq!(m.y.matrix[0].triplet_list, vec![(0, 2, 1)]);
}

#[test]
fn panel_mappings_swap_axes() {
    let a = build_m_a(vec![3, 0], vec![1], (1, 2), (4, 2), 1u8);
    assert_eq!(a.size, (4, 2));
    assert_eq!(a.y.matrix[0].shape, (2, 4));
    assert_eq!(a.y.matrix[0].triplet_list, vec![(0, 3, 1), (1, 0, 1)]);
    assert_eq!(a.x.matrix[0].shape, (1, 2));
    let b = build_m_b(vec![3, 0], vec![1], (1, 2), (4, 2), 1u8);
    assert_eq!(b.y.matrix[0].triplet_list, a.y.matrix[0].triplet_list);
    assert_eq!(b.x.matrix[0].triplet_list, vec![(0, 1, 1)]);
}

#[test]
fn rays_cast_per_axis() {
    assert_eq!(rays_cast_counts((640, 480), 4), (1920, 2560));
    assert_eq!(rays_cast_counts((1, 1), 0), (0, 0));
}

#[test]
fn stereo_matrix_drops_out_of_panel_samples() {
    // panel of 2 by 2 pixels: columns 0..4; three rays cast
    let (m, dropped) = build_stereo_matrix(vec![3, 4, 0, 1], 3, (2, 2), 1.0f32);
    assert_eq!(m.shape, (3, 4));
    assert_eq!(m.triplet_list, vec![(0, 3, 1.0), (2, 0, 1.0)]);
    assert_eq!(dropped, 2);
}

#[test]
fn lf_matrices_stack_every_mapping() {
    let t = build_m_t(vec![0, 1, 1, 0], vec![2, 0], (2, 1), (2, 3), 1u8);
    let a = build_m_a(vec![3, 0], vec![1], (1, 2), (4, 2), 1u8);
    let b = build_m_b(vec![1, 2], vec![0], (1, 2), (4, 2), 1u8);
    let m = LFMatrices::new(a, b, t, "target", (2, 3), 2);
    assert_eq!(m.c_t, "target");
    let s = m.stack();
    assert_eq!(s.m_t_x.shape, (4, 2));
    assert_eq!(s.m_t_x.triplet_list, vec![(0, 0, 1), (1, 1, 1), (2, 1, 1), (3, 0, 1)]);
    assert_eq!(s.m_t_y.shape, (2, 3));
    assert_eq!(s.m_t_y.triplet_list, vec![(0, 2, 1), (1, 0, 1)]);
    assert_eq!(s.m_a_y.shape, (2, 4));
    assert_eq!(s.m_a_y.triplet_list, vec![(0, 3, 1), (1, 0, 1)]);
    assert_eq!(s.m_a_x.triplet_list, vec![(0, 1, 1)]);
    assert_eq!(s.m_b_y.triplet_list, vec![(0, 1, 1), (1, 2, 1)]);
    assert_eq!(s.m_b_x.triplet_list, vec![(0, 0, 1)]);
}

#[test]
fn stacked_mapping_lists_every_sample() {
    let samples = vec![4u32, 1, 0, 2, 3, 3, 1];
    let m = mapping_from_samples(samples.clone(), 3, 5, 1u8);
    let s = m.stack();
    assert_eq!(s.shape, (9, 5));
    let expected: Vec<(usize, usize, u8)> =
        samples.iter().enumerate().map(|(i, c)| (i, *c as usize, 1u8)).collect();
    assert_eq!(s.triplet_list, expected);
}
