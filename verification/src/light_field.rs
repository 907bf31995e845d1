//! Building the ray-mapping matrices from the sample buffers of a light
//! field capture.
use vstd::prelude::*;
use crate::sparse::{
    Triplet, SparseAsList, MappingMatrix, CompleteMapping, build_tripltes, chunk_count, chunk_triplets,
    check_triplets, in_bounds_pred, lemma_chunk_start, stack_fits, stacked, shift_rows,
};

verus! {

/// The entries of a triplet list as `(row, column, value)` with `usize`
/// indices.
pub open spec fn as_entries<V>(ts: Seq<Triplet<V>>) -> Seq<(usize, usize, V)> {
    Seq::new(ts.len(), |j: int| (ts[j].row as usize, ts[j].col as usize, ts[j].val))
}

/// A `rows` by `columns` sparse matrix from a list of triplets that all lie
/// inside it.
pub fn build_sparse_matrix<V: Copy>(triplets: Vec<Triplet<V>>, rows: u32, columns: u32) -> (m: SparseAsList<V>)
    requires
        forall|j: int| 0 <= j < triplets.len() ==> (#[trigger] triplets@[j]).row < rows && triplets@[j].col < columns,
    ensures
        m.shape == (rows as usize, columns as usize),
        m.triplet_list@ == as_entries(triplets@),
        m.well_formed(),
{
    let mut list: Vec<(usize, usize, V)> = Vec::new();
    let mut i: usize = 0;
    while i < triplets.len()
        invariant
            i <= triplets.len(),
            list@ == as_entries(triplets@).take(i as int),
        decreases triplets.len() - i,
    {
        let t = triplets[i];
        list.push((t.row as usize, t.col as usize, t.val));
        assert(as_entries(triplets@).take(i + 1) =~= as_entries(triplets@).take(i as int).push(
            (t.row as usize, t.col as usize, t.val),
        ));
        i = i + 1;
    }
    assert(as_entries(triplets@).take(triplets.len() as int) =~= as_entries(triplets@));
    SparseAsList { shape: (rows as usize, columns as usize), triplet_list: list }
}

/// The per-view mapping built from one sample buffer: the buffer is cut
/// into chunks of `rows_per_view` samples, and sample `j` of chunk `k`
/// becomes the entry `(j, sample, value)` of the `rows_per_view` by
/// `columns` matrix of view `k`.
pub open spec fn is_mapping_from_samples<V>(
    m: MappingMatrix<V>,
    samples: Seq<u32>,
    rows_per_view: u32,
    columns: u32,
    value: V,
) -> bool {
    &&& m.matrix@.len() == chunk_count(samples.len() as int, rows_per_view as int)
    &&& forall|k: int|
        0 <= k < m.matrix@.len() ==> {
            &&& (#[trigger] m.matrix@[k]).shape == (rows_per_view as usize, columns as usize)
            &&& m.matrix@[k].triplet_list@ == as_entries(chunk_triplets(samples, rows_per_view as int, k, value))
            &&& m.matrix@[k].well_formed()
        }
}

/// Every sample names a column below `columns`.
pub open spec fn samples_below(samples: Seq<u32>, columns: u32) -> bool {
    forall|i: int| 0 <= i < samples.len() ==> #[trigger] samples[i] < columns
}

/// The per-view mapping matrices read from one sample buffer.
pub fn mapping_from_samples<V: Copy>(samples: Vec<u32>, rows_per_view: u32, columns: u32, value: V) -> (m: MappingMatrix<V>)
    requires
        rows_per_view > 0,
        samples_below(samples@, columns),
    ensures
        is_mapping_from_samples(m, samples@, rows_per_view, columns, value),
{
    let ghost s = samples@;
    let ghost rpv = rows_per_view as int;
    let mut chunks = build_tripltes(samples, rows_per_view as usize, value);
    let ghost all = chunks@;
    let n = chunks.len();
    let mut matrix: Vec<SparseAsList<V>> = Vec::new();
    let mut k: usize = 0;
    while k < n
        invariant
            rpv == rows_per_view,
            rows_per_view > 0,
            samples_below(s, columns),
            n == all.len(),
            n == chunk_count(s.len() as int, rpv),
            forall|kk: int| 0 <= kk < n ==> (#[trigger] all[kk])@ == chunk_triplets(s, rpv, kk, value),
            chunks@ == all.skip(k as int),
            k <= n,
            matrix@.len() == k,
            forall|kk: int|
                0 <= kk < k ==> {
                    &&& (#[trigger] matrix@[kk]).shape == (rows_per_view as usize, columns as usize)
                    &&& matrix@[kk].triplet_list@ == as_entries(chunk_triplets(s, rpv, kk, value))
                    &&& matrix@[kk].well_formed()
                },
        decreases n - k,
    {
        let chunk = chunks.remove(0);
        assert(chunks@ =~= all.skip(k + 1));
        assert(chunk@ == chunk_triplets(s, rpv, k as int, value));
        proof {
            lemma_chunk_start(s.len() as int, rpv, k as int);
            let start = k * rpv;
            assert forall|j: int| 0 <= j < chunk.len() implies (#[trigger] chunk@[j]).row < rows_per_view && chunk@[j].col
                < columns by {
                assert(chunk@[j].col == s[start + j]);
                assert(j < rpv);
                assert((j as u32) == j);
            }
        }
        let m = build_sparse_matrix(chunk, rows_per_view, columns);
        matrix.push(m);
        k = k + 1;
    }
    MappingMatrix { matrix }
}

/// The entries `(i, samples[i], value)`, one for every sample, in order.
pub open spec fn sample_entries<V>(samples: Seq<u32>, value: V) -> Seq<(usize, usize, V)> {
    Seq::new(samples.len(), |i: int| (i as usize, samples[i] as usize, value))
}

/// The number of samples in the first `k` chunks of `size`.
spec fn chunk_prefix(len: int, size: int, k: int) -> int {
    if k * size <= len {
        k * size
    } else {
        len
    }
}

proof fn lemma_stacked_prefix<V>(m: MappingMatrix<V>, samples: Seq<u32>, rpv: u32, columns: u32, value: V, k: int)
    requires
        rpv > 0,
        samples.len() <= usize::MAX,
        is_mapping_from_samples(m, samples, rpv, columns, value),
        0 <= k <= m.matrix@.len(),
    ensures
        stacked(m.matrix@, rpv as int, k) == sample_entries(samples, value).take(chunk_prefix(samples.len() as int, rpv as int, k)),
    decreases k,
{
    let len = samples.len() as int;
    let size = rpv as int;
    let all = sample_entries(samples, value);
    if k == 0 {
        assert(all.take(0) =~= Seq::<(usize, usize, V)>::empty());
    } else {
        lemma_stacked_prefix(m, samples, rpv, columns, value, k - 1);
        lemma_chunk_start(len, size, k - 1);
        let start = (k - 1) * size;
        assert(k * size == start + size) by (nonlinear_arith) requires start == (k - 1) * size;
        assert(chunk_prefix(len, size, k - 1) == start);
        let end = chunk_prefix(len, size, k);
        let chunk = chunk_triplets(samples, size, k - 1, value);
        let sh = shift_rows(m.matrix@[k - 1].triplet_list@, start);
        assert(m.matrix@[k - 1].triplet_list@ == as_entries(chunk));
        assert(chunk.len() == end - start);
        assert forall|j: int| 0 <= j < sh.len() implies #[trigger] sh[j] == all[start + j] by {
            assert(j < size);
            assert((j as u32) as int == j);
            assert(start + j < len);
        }
        assert(stacked(m.matrix@, size, k) =~= all.take(end));
    }
}

/// Law: stacking the per-view matrices read from a sample buffer lists
/// every sample once, in order, in the row of its ray: entry `i` of the
/// stack is `(i, samples[i], value)`.
pub proof fn stacked_mapping_lists_every_sample<V>(
    m: MappingMatrix<V>,
    samples: Seq<u32>,
    rows_per_view: u32,
    columns: u32,
    value: V,
)
    requires
        rows_per_view > 0,
        samples.len() <= usize::MAX,
        is_mapping_from_samples(m, samples, rows_per_view, columns, value),
    ensures
        stacked(m.matrix@, rows_per_view as int, m.matrix@.len() as int) == sample_entries(samples, value),
{
    let len = samples.len() as int;
    let size = rows_per_view as int;
    let n = m.matrix@.len() as int;
    lemma_stacked_prefix(m, samples, rows_per_view, columns, value, n);
    assert(n * size >= len) by (nonlinear_arith)
        requires size > 0, len >= 0, n == (len + size - 1) / size;
    assert(chunk_prefix(len, size, n) == len);
    assert(sample_entries(samples, value).take(len) =~= sample_entries(samples, value));
}

/// The mapping of the target image, from the x and y sample buffers:
/// `x` has one `rays_cast_per_viewpoint.0` by `target_size.0` matrix per
/// view, `y` one `rays_cast_per_viewpoint.1` by `target_size.1` matrix.
pub fn build_m_t<V: Copy>(
    vec_t_x: Vec<u32>,
    vec_t_y: Vec<u32>,
    rays_cast_per_viewpoint: (u32, u32),
    target_size: (u32, u32),
    value: V,
) -> (m: CompleteMapping<V>)
    requires
        rays_cast_per_viewpoint.0 > 0,
        rays_cast_per_viewpoint.1 > 0,
        samples_below(vec_t_x@, target_size.0),
        samples_below(vec_t_y@, target_size.1),
    ensures
        is_mapping_from_samples(m.x, vec_t_x@, rays_cast_per_viewpoint.0, target_size.0, value),
        is_mapping_from_samples(m.y, vec_t_y@, rays_cast_per_viewpoint.1, target_size.1, value),
        m.size == target_size,
{
    let x = mapping_from_samples(vec_t_x, rays_cast_per_viewpoint.0, target_size.0, value);
    let y = mapping_from_samples(vec_t_y, rays_cast_per_viewpoint.1, target_size.1, value);
    CompleteMapping { x, y, size: target_size }
}

/// The mapping of a panel, from its y and x sample buffers: `y` has one
/// `rays_cast_per_viewpoint.1` by `panel_size.0` matrix per view, `x` one
/// `rays_cast_per_viewpoint.0` by `panel_size.1` matrix.
pub fn build_m_a<V: Copy>(
    vec_a_y: Vec<u32>,
    vec_a_x: Vec<u32>,
    rays_cast_per_viewpoint: (u32, u32),
    panel_size: (u32, u32),
    value: V,
) -> (m: CompleteMapping<V>)
    requires
        rays_cast_per_viewpoint.0 > 0,
        rays_cast_per_viewpoint.1 > 0,
        samples_below(vec_a_y@, panel_size.0),
        samples_below(vec_a_x@, panel_size.1),
    ensures
        is_mapping_from_samples(m.y, vec_a_y@, rays_cast_per_viewpoint.1, panel_size.0, value),
        is_mapping_from_samples(m.x, vec_a_x@, rays_cast_per_viewpoint.0, panel_size.1, value),
        m.size == panel_size,
{
    let y = mapping_from_samples(vec_a_y, rays_cast_per_viewpoint.1, panel_size.0, value);
    let x = mapping_from_samples(vec_a_x, rays_cast_per_viewpoint.0, panel_size.1, value);
    CompleteMapping { x, y, size: panel_size }
}

/// The mapping of the second panel, built as `build_m_a` builds the first.
pub fn build_m_b<V: Copy>(
    vec_b_y: Vec<u32>,
    vec_b_x: Vec<u32>,
    rays_cast_per_viewpoint: (u32, u32),
    panel_size: (u32, u32),
    value: V,
) -> (m: CompleteMapping<V>)
    requires
        rays_cast_per_viewpoint.0 > 0,
        rays_cast_per_viewpoint.1 > 0,
        samples_below(vec_b_y@, panel_size.0),
        samples_below(vec_b_x@, panel_size.1),
    ensures
        is_mapping_from_samples(m.y, vec_b_y@, rays_cast_per_viewpoint.1, panel_size.0, value),
        is_mapping_from_samples(m.x, vec_b_x@, rays_cast_per_viewpoint.0, panel_size.1, value),
        m.size == panel_size,
{
    build_m_a(vec_b_y, vec_b_x, rays_cast_per_viewpoint, panel_size, value)
}

/// The number of rays sampled for a target of `target_size` seen from
/// `number_of_view_points` positions, per axis: `(height * n, width * n)`.
pub fn rays_cast_counts(target_size: (u32, u32), number_of_view_points: u32) -> (r: (u32, u32))
    requires
        target_size.1 * number_of_view_points <= u32::MAX,
        target_size.0 * number_of_view_points <= u32::MAX,
    ensures
        r.0 == target_size.1 * number_of_view_points,
        r.1 == target_size.0 * number_of_view_points,
{
    (target_size.1 * number_of_view_points, target_size.0 * number_of_view_points)
}

/// The triplets `(i, entries[i], value)` for every sample.
pub open spec fn indexed_triplets<V>(entries: Seq<u32>, value: V) -> Seq<Triplet<V>> {
    Seq::new(entries.len(), |i: int| Triplet { row: i as u32, col: entries[i], val: value })
}

/// The stereo mapping of a panel: sample `i` becomes the triplet
/// `(i, sample, value)`; the triplets outside a `rays_cast` by
/// `panel_size.0 * panel_size.1` matrix are dropped, and the rest make
/// that matrix.  Also returns how many were dropped.
pub fn build_stereo_matrix<V: Copy>(entries: Vec<u32>, rays_cast: u32, panel_size: (u32, u32), value: V) -> (r: (
    SparseAsList<V>,
    usize,
))
    requires
        panel_size.0 * panel_size.1 <= u32::MAX,
    ensures
        r.0.shape == (rays_cast as usize, (panel_size.0 * panel_size.1) as usize),
        r.0.triplet_list@ == as_entries(
            indexed_triplets(entries@, value).filter(in_bounds_pred(rays_cast, (panel_size.0 * panel_size.1) as u32)),
        ),
        r.0.well_formed(),
        r.1 == entries@.len() - r.0.triplet_list@.len(),
{
    let rows = rays_cast;
    let columns = panel_size.0 * panel_size.1;
    let mut triplets: Vec<Triplet<V>> = Vec::new();
    let mut i: usize = 0;
    while i < entries.len()
        invariant
            i <= entries.len(),
            triplets@ == indexed_triplets(entries@, value).take(i as int),
        decreases entries.len() - i,
    {
        triplets.push(Triplet { row: i as u32, col: entries[i], val: value });
        assert(triplets@ =~= indexed_triplets(entries@, value).take(i + 1));
        i = i + 1;
    }
    assert(triplets@ =~= indexed_triplets(entries@, value));
    let filtered = check_triplets(rows, columns, &mut triplets);
    proof {
        let kept = triplets@;
        broadcast use vstd::seq_lib::group_filter_ensures;
        assert forall|j: int| 0 <= j < kept.len() implies (#[trigger] kept[j]).row < rows && kept[j].col < columns by {
            assert(in_bounds_pred::<V>(rows, columns)(kept[j]));
        }
    }
    let m = build_sparse_matrix(triplets, rows, columns);
    (m, filtered)
}

/// The matrices of a separable capture: the mappings of the two panels
/// and of the target, the target image `c_t`, the target size and the
/// number of view points.
pub struct LFMatrices<V, I> {
    pub a: CompleteMapping<V>,
    pub b: CompleteMapping<V>,
    pub t: CompleteMapping<V>,
    pub c_t: I,
    pub target_size: (u32, u32),
    pub number_of_view_points: u32,
}

/// The six mappings of a capture, each with its per-view matrices stacked.
pub struct OldLFMatrices<V> {
    pub m_a_x: SparseAsList<V>,
    pub m_a_y: SparseAsList<V>,
    pub m_b_x: SparseAsList<V>,
    pub m_b_y: SparseAsList<V>,
    pub m_t_x: SparseAsList<V>,
    pub m_t_y: SparseAsList<V>,
}

/// A mapping can be stacked: it has a matrix, and the stacked rows fit.
pub open spec fn stackable<V>(m: MappingMatrix<V>) -> bool {
    m.matrix@.len() > 0 && stack_fits(m.matrix@, m.matrix@[0].shape.0 as int)
}

/// `s` is the stack of the per-view matrices of `m`.
pub open spec fn is_stack_of<V>(s: SparseAsList<V>, m: MappingMatrix<V>) -> bool {
    &&& s.shape.0 == m.matrix@[0].shape.0 * m.matrix@.len()
    &&& s.shape.1 == m.matrix@[0].shape.1
    &&& s.triplet_list@ == stacked(m.matrix@, m.matrix@[0].shape.0 as int, m.matrix@.len() as int)
}

impl<V, I> LFMatrices<V, I> {
    pub fn new(
        a: CompleteMapping<V>,
        b: CompleteMapping<V>,
        t: CompleteMapping<V>,
        c_t: I,
        target_size: (u32, u32),
        number_of_view_points: u32,
    ) -> (m: LFMatrices<V, I>)
        ensures
            m.a == a,
            m.b == b,
            m.t == t,
            m.c_t == c_t,
            m.target_size == target_size,
            m.number_of_view_points == number_of_view_points,
    {
        LFMatrices { a, b, t, c_t, target_size, number_of_view_points }
    }

    /// Stacks each of the six mappings.
    pub fn stack(&self) -> (s: OldLFMatrices<V>) where V: Copy
        requires
            stackable(self.a.x),
            stackable(self.a.y),
            stackable(self.b.x),
            stackable(self.b.y),
            stackable(self.t.x),
            stackable(self.t.y),
        ensures
            is_stack_of(s.m_a_x, self.a.x),
            is_stack_of(s.m_a_y, self.a.y),
            is_stack_of(s.m_b_x, self.b.x),
            is_stack_of(s.m_b_y, self.b.y),
            is_stack_of(s.m_t_x, self.t.x),
            is_stack_of(s.m_t_y, self.t.y),
    {
        let m_a_x = self.a.x.stack();
        let m_a_y = self.a.y.stack();
        let m_b_x = self.b.x.stack();
        let m_b_y = self.b.y.stack();
        let m_t_x = self.t.x.stack();
        let m_t_y = self.t.y.stack();
        OldLFMatrices { m_a_x, m_a_y, m_b_x, m_b_y, m_t_x, m_t_y }
    }
}

} // verus!
