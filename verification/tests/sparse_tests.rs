use light_field_test::sparse::{
    active_columns, build_tripltes, check_triplets, filter_combine, CompleteMapping, MappingMatrix, SparseAsList,
    Triplet,
};

fn list(shape: (usize, usize), entries: &[(usize, usize, f32)]) -> SparseAsList<f32> {
    SparseAsList::new(shape, entries.to_vec())
}

#[test]
fn check_triplets_drops_out_of_bounds() {
    let mut ts = vec![
        Triplet::new(0, 0, 1.0f32),
        Triplet::new(3, 1, 1.0),
        Triplet::new(1, 2, 2.0),
        Triplet::new(2, 5, 1.0),
        Triplet::new(2, 4, 3.0),
    ];
    let dropped = check_triplets(3, 5, &mut ts);
    assert_eq!(dropped, 2);
    let kept: Vec<(u32, u32, f32)> = ts.iter().map(|t| (t.row, t.col, t.val)).collect();
    assert_eq!(kept, vec![(0, 0, 1.0), (1, 2, 2.0), (2, 4, 3.0)]);
}

#[test]
fn check_triplets_twice_drops_nothing_more() {
    let mut ts = vec![Triplet::new(7, 0, 1u8), Triplet::new(0, 7, 1), Triplet::new(1, 1, 1)];
    assert_eq!(check_triplets(2, 2, &mut ts), 2);
    assert_eq!(check_triplets(2, 2, &mut ts), 0);
    assert_eq!(ts.len(), 1);
}

#[test]
fn check_triplets_on_empty_list() {
    let mut ts: Vec<Triplet<f32>> = Vec::new();
    assert_eq!(check_triplets(0, 0, &mut ts), 0);
    assert!(ts.is_empty());
}

#[test]
fn build_tripltes_cuts_into_views() {
    let chunks = build_tripltes(vec![4, 5, 6, 7, 8], 2, 1.0f32);
    assert_eq!(chunks.len(), 3);
    let as_tuples: Vec<Vec<(u32, u32, f32)>> =
        chunks.iter().map(|c| c.iter().map(|t| (t.row, t.col, t.val)).collect()).collect();
    assert_eq!(
        as_tuples,
        vec![vec![(0, 4, 1.0), (1, 5, 1.0)], vec![(0, 6, 1.0), (1, 7, 1.0)], vec![(0, 8, 1.0)]]
    );
}

#[test]
fn build_tripltes_exact_multiple_and_empty() {
    assert_eq!(build_tripltes(vec![1, 2, 3, 4], 2, 0u8).len(), 2);
    assert_eq!(build_tripltes(Vec::new(), 3, 0u8).len(), 0);
}

#[test]
fn stack_moves_rows_down_per_view() {
    let m0 = list((2, 3), &[(0, 1, 1.0), (1, 2, 2.0)]);
    let m1 = list((2, 3), &[(0, 0, 3.0), (1, 1, 4.0)]);
    let mapping = MappingMatrix::new(vec![m0, m1]);
    let s = mapping.stack();
    assert_eq!(s.shape, (4, 3));
    assert_eq!(s.triplet_list, vec![(0, 1, 1.0), (1, 2, 2.0), (2, 0, 3.0), (3, 1, 4.0)]);
    for (r, c, _) in s.triplet_list.iter() {
        assert!(*r < s.shape.0 && *c < s.shape.1);
    }
}

#[test]
fn stack_of_single_view_is_unchanged() {
    let m0 = list((3, 2), &[(2, 1, 5.0)]);
    let s = MappingMatrix::new(vec![m0]).stack();
    assert_eq!(s.shape, (3, 2));
    assert_eq!(s.triplet_list, vec![(2, 1, 5.0)]);
}

#[test]
fn active_columns_lists_used_columns_in_order() {
    let m = list((3, 6), &[(0, 4, 1.0), (1, 1, 1.0), (2, 4, 1.0), (0, 0, 1.0)]);
    assert_eq!(active_columns(&m), vec![0, 1, 4]);
    let empty = list((3, 6), &[]);
    assert!(active_columns(&empty).is_empty());
}

#[test]
fn filter_combine_maps_every_view() {
    let mapping = MappingMatrix::new(vec![list((2, 3), &[(0, 2, 1.0)]), list((2, 3), &[(1, 0, 1.0), (0, 1, 1.0)])]);
    assert_eq!(filter_combine(&mapping), vec![vec![2], vec![0, 1]]);
}

#[test]
fn complete_mapping_keeps_its_parts() {
    let x = MappingMatrix::new(vec![list((1, 2), &[(0, 1, 1.0)])]);
    let y = MappingMatrix::new(vec![]);
    let m = CompleteMapping::new(x, y, (4, 5));
    assert_eq!(m.size, (4, 5));
    assert_eq!(m.x.matrix.len(), 1);
    assert_eq!(m.y.matrix.len(), 0);
}
