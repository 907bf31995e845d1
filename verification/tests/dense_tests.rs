use light_field_test::dense::{filter_zeroes, DenseMatrix, NmfSamples};
use light_field_test::sparse::{CompleteMapping, MappingMatrix, SparseAsList};

fn list(shape: (usize, usize), entries: &[(usize, usize, f32)]) -> SparseAsList<f32> {
    SparseAsList::new(shape, entries.to_vec())
}

#[test]
fn dense_matrix_get_reads_row_major() {
    let m = DenseMatrix::new(2, 3, vec![1, 2, 3, 4, 5, 6]);
    assert_eq!(*m.get(0, 2), 3);
    assert_eq!(*m.get(1, 0), 4);
    assert_eq!(m.nrows(), 2);
    assert_eq!(m.ncols(), 3);
    assert_eq!(m.into_data(), vec![1, 2, 3, 4, 5, 6]);
}

#[test]
fn filter_zeroes_keeps_only_reached_entries() {
    // One view: columns 0 and 2 of x and column 1 of y hold entries.
    let x = MappingMatrix::new(vec![list((4, 3), &[(0, 0, 1.0), (3, 2, 1.0)])]);
    let y = MappingMatrix::new(vec![list((4, 2), &[(1, 1, 1.0)])]);
    let mapping = CompleteMapping::new(x, y, (2, 3));
    let mut mat = DenseMatrix::new(2, 3, vec![0.1f32, 0.2, 0.3, 0.4, 0.5, 0.6]);
    filter_zeroes(&mut mat, &mapping, 1.0);
    assert_eq!(mat.into_data(), vec![1.0, 1.0, 1.0, 0.4, 1.0, 0.6]);
}

#[test]
fn filter_zeroes_needs_the_same_view_for_row_and_column() {
    // Row 0 is reached in view 0 only, column 1 in view 1 only.
    let x = MappingMatrix::new(vec![list((1, 2), &[(0, 0, 1.0)]), list((1, 2), &[(0, 1, 1.0)])]);
    let y = MappingMatrix::new(vec![list((1, 1), &[(0, 0, 1.0)]), list((1, 1), &[])]);
    let mapping = CompleteMapping::new(x, y, (1, 2));
    let mut mat = DenseMatrix::new(1, 2, vec![5, 6]);
    filter_zeroes(&mut mat, &mapping, 9);
    assert_eq!(mat.into_data(), vec![5, 9]);
}

#[test]
fn add_sample_builds_target_and_weights() {
    let mut s: NmfSamples<f32> = NmfSamples::new([30; 4]);
    let triplets = vec![(0u32, 1u32, 7.0f32), (1, 3, 2.0), (0, 1, 9.0)];
    s.add_sample(&triplets, [1, 2, 2, 2], 0.0, 1.0, 1.0);
    assert_eq!(s.size, [1, 2, 2, 2]);
    let target = s.target_matrix.as_ref().unwrap();
    assert_eq!((target.nrows, target.ncols), (2, 4));
    assert_eq!(target.data, vec![1.0, 0.0, 1.0, 1.0, 1.0, 1.0, 1.0, 0.0]);
    let w = s.weight_matrix.as_ref().unwrap();
    assert_eq!(w.shape, (2, 4));
    assert_eq!(w.triplet_list, vec![(0, 1, 1.0), (1, 3, 1.0), (0, 1, 1.0)]);
}

#[test]
fn add_sample_updates_a_target_of_the_same_shape() {
    let mut s: NmfSamples<f32> = NmfSamples::new([30; 4]);
    s.add_sample(&vec![(0u32, 0u32, 1u8)], [1, 1, 1, 2], 0.0, 1.0, 1.0);
    s.add_sample(&vec![(0u32, 1u32, 1u8)], [1, 1, 1, 2], 0.0, 1.0, 1.0);
    assert_eq!(s.target_matrix.as_ref().unwrap().data, vec![0.0, 0.0]);
    // The weights are made once, from the first samples.
    assert_eq!(s.weight_matrix.as_ref().unwrap().triplet_list, vec![(0, 0, 1.0)]);
}

#[test]
fn add_sample_with_no_samples_changes_nothing() {
    let mut s: NmfSamples<f32> = NmfSamples::new([3; 4]);
    let none: Vec<(u32, u32, f32)> = Vec::new();
    s.add_sample(&none, [1, 1, 1, 1], 0.0, 1.0, 1.0);
    assert_eq!(s.size, [3; 4]);
    assert!(s.target_matrix.is_none());
    assert!(s.weight_matrix.is_none());
}

#[test]
fn add_sample_reshapes_and_reset_forgets() {
    let mut s: NmfSamples<u8> = NmfSamples::new([1; 4]);
    s.add_sample(&vec![(0u32, 0u32, ())], [1, 1, 1, 1], 0, 1, 1);
    s.add_sample(&vec![(1u32, 0u32, ())], [2, 1, 1, 1], 0, 1, 1);
    assert_eq!(s.target_matrix.as_ref().unwrap().data, vec![1, 0]);
    s.reset();
    assert!(s.target_matrix.is_none() && s.weight_matrix.is_none());
    assert_eq!(s.size, [2, 1, 1, 1]);
}

#[test]
fn empty_sample_list_with_oversized_shape_changes_nothing() {
    let mut s: NmfSamples<f32> = NmfSamples::new([2; 4]);
    let none: Vec<(u32, u32, f32)> = Vec::new();
    s.add_sample(&none, [u32::MAX; 4], 0.0, 1.0, 1.0);
    assert_eq!(s.size, [2; 4]);
    assert!(s.target_matrix.is_none() && s.weight_matrix.is_none());
}
