//! Dense matrices and the filters that blank out unreachable entries.
use vstd::prelude::*;
use std::collections::HashSet;
use crate::sparse::{SparseAsList, has_entry_in_col, filter_combine, active_columns, is_active_columns, CompleteMapping};

verus! {

broadcast use vstd::std_specs::hash::group_hash_axioms;

/// A dense `nrows` by `ncols` matrix stored row by row.
pub struct DenseMatrix<V> {
    pub nrows: usize,
    pub ncols: usize,
    pub data: Vec<V>,
}

proof fn lemma_index(nrows: int, ncols: int, r: int, c: int)
    requires
        0 <= r < nrows,
        0 <= c < ncols,
    ensures
        0 <= r * ncols + c < nrows * ncols,
        (r * ncols + c) / ncols == r,
        (r * ncols + c) % ncols == c,
{
    assert(0 <= r * ncols + c < nrows * ncols) by (nonlinear_arith)
        requires 0 <= r < nrows, 0 <= c < ncols;
    vstd::arithmetic::div_mod::lemma_fundamental_div_mod_converse(r * ncols + c, ncols, r, c);
}

proof fn lemma_index_split(nrows: int, ncols: int, i: int)
    requires
        0 <= i < nrows * ncols,
        ncols > 0,
    ensures
        0 <= i / ncols < nrows,
        0 <= i % ncols < ncols,
        (i / ncols) * ncols + i % ncols == i,
{
    vstd::arithmetic::div_mod::lemma_fundamental_div_mod(i, ncols);
    assert(0 <= i / ncols < nrows) by (nonlinear_arith)
        requires 0 <= i < nrows * ncols, ncols > 0, i == ncols * (i / ncols) + i % ncols, 0 <= i % ncols < ncols;
    assert((i / ncols) * ncols == ncols * (i / ncols)) by (nonlinear_arith);
}

impl<V> DenseMatrix<V> {
    /// As many entries as the shape says.
    pub open spec fn well_formed(&self) -> bool {
        self.data.len() == self.nrows * self.ncols
    }

    pub open spec fn rows(&self) -> nat {
        self.nrows as nat
    }

    pub open spec fn cols(&self) -> nat {
        self.ncols as nat
    }

    /// The entry in row `r` and column `c`.
    pub open spec fn at(&self, r: int, c: int) -> V {
        self.data@[r * self.ncols + c]
    }

    /// A matrix from its entries listed row by row.
    pub fn new(nrows: usize, ncols: usize, data: Vec<V>) -> (m: DenseMatrix<V>)
        requires
            data.len() == nrows * ncols,
        ensures
            m.well_formed(),
            m.rows() == nrows,
            m.cols() == ncols,
            forall|r: int, c: int| 0 <= r < nrows && 0 <= c < ncols ==> #[trigger] m.at(r, c) == data@[r * ncols + c],
    {
        DenseMatrix { nrows, ncols, data }
    }

    pub fn nrows(&self) -> (n: usize)
        ensures
            n == self.rows(),
    {
        self.nrows
    }

    pub fn ncols(&self) -> (n: usize)
        ensures
            n == self.cols(),
    {
        self.ncols
    }

    /// The entry in row `r` and column `c`.
    pub fn get(&self, r: usize, c: usize) -> (v: &V)
        requires
            self.well_formed(),
            r < self.rows(),
            c < self.cols(),
        ensures
            *v == self.at(r as int, c as int),
    {
        proof {
            lemma_index(self.nrows as int, self.ncols as int, r as int, c as int);
        }
        &self.data[r * self.ncols + c]
    }

    /// The entries listed row by row.
    pub fn into_data(self) -> (data: Vec<V>)
        requires
            self.well_formed(),
        ensures
            data.len() == self.rows() * self.cols(),
            forall|r: int, c: int|
                0 <= r < self.rows() && 0 <= c < self.cols() ==> data@[r * self.cols() + c] == #[trigger] self.at(r, c),
    {
        proof {
            assert forall|r: int, c: int|
                0 <= r < self.rows() && 0 <= c < self.cols() implies self.data@[r * self.cols() + c] == #[trigger] self.at(r, c) by {}
        }
        self.data
    }
}

/// Row `row` and column `column` are both reached through one view point:
/// for some index `k` below the number of view points of both mappings,
/// column `row` of `y[k]` and column `column` of `x[k]` hold an entry.
pub open spec fn reached<W>(x: Seq<SparseAsList<W>>, y: Seq<SparseAsList<W>>, row: int, column: int) -> bool {
    exists|k: int|
        0 <= k < x.len() && k < y.len() && row < (#[trigger] y[k]).shape.1 && has_entry_in_col(
            y[k].triplet_list@,
            row,
        ) && column < (#[trigger] x[k]).shape.1 && has_entry_in_col(x[k].triplet_list@, column)
}

/// Column `c` of `m` holds an entry and lies inside its shape.
pub open spec fn col_active<W>(m: SparseAsList<W>, c: int) -> bool {
    c < m.shape.1 && has_entry_in_col(m.triplet_list@, c)
}

fn vec_contains(v: &Vec<usize>, x: usize) -> (b: bool)
    ensures
        b == v@.contains(x),
{
    let mut i: usize = 0;
    while i < v.len()
        invariant
            i <= v.len(),
            forall|j: int| 0 <= j < i ==> v@[j] != x,
        decreases v.len() - i,
    {
        if v[i] == x {
            return true;
        }
        i = i + 1;
    }
    false
}

fn is_reached(fx: &Vec<Vec<usize>>, fy: &Vec<Vec<usize>>, row: usize, column: usize) -> (b: bool)
    ensures
        b == exists|k: int| 0 <= k < fx.len() && k < fy.len() && (#[trigger] fy@[k])@.contains(row) && (#[trigger] fx@[k])@.contains(column),
{
    let mut k: usize = 0;
    while k < fx.len() && k < fy.len()
        invariant
            k <= fx.len(),
            forall|j: int| 0 <= j < k && j < fy.len() ==> !((#[trigger] fy@[j])@.contains(row) && (#[trigger] fx@[j])@.contains(column)),
        decreases fx.len() - k,
    {
        if vec_contains(&fy[k], row) && vec_contains(&fx[k], column) {
            return true;
        }
        k = k + 1;
    }
    false
}

/// Sets to `fill` every entry whose row and column are not reached through
/// a common view point of the mapping; the other entries keep their value.
pub fn filter_zeroes<V: Copy, W>(mat: &mut DenseMatrix<V>, mapping_mat: &CompleteMapping<W>, fill: V)
    requires
        old(mat).well_formed(),
    ensures
        final(mat).well_formed(),
        final(mat).rows() == old(mat).rows(),
        final(mat).cols() == old(mat).cols(),
        forall|r: int, c: int|
            0 <= r < old(mat).rows() && 0 <= c < old(mat).cols() ==> #[trigger] final(mat).at(r, c) == if reached(
                mapping_mat.x.matrix@,
                mapping_mat.y.matrix@,
                r,
                c,
            ) {
                old(mat).at(r, c)
            } else {
                fill
            },
{
    let x_filter = filter_combine(&mapping_mat.x);
    let y_filter = filter_combine(&mapping_mat.y);
    let ghost xs = mapping_mat.x.matrix@;
    let ghost ys = mapping_mat.y.matrix@;
    let ghost old_data = mat.data@;
    let nrows = mat.nrows;
    let ncols = mat.ncols;
    let total = mat.data.len();
    let mut i: usize = 0;
    while i < total
        invariant
            nrows == mat.nrows,
            ncols == mat.ncols,
            total == mat.data.len(),
            total == nrows * ncols,
            old_data.len() == total,
            i <= total,
            x_filter.len() == xs.len(),
            y_filter.len() == ys.len(),
            forall|k: int| 0 <= k < x_filter.len() ==> is_active_columns(xs[k], (#[trigger] x_filter@[k])@),
            forall|k: int| 0 <= k < y_filter.len() ==> is_active_columns(ys[k], (#[trigger] y_filter@[k])@),
            forall|j: int| i <= j < total ==> mat.data@[j] == old_data[j],
            forall|j: int|
                0 <= j < i ==> mat.data@[j] == if reached(xs, ys, j / ncols as int, j % ncols as int) {
                    old_data[j]
                } else {
                    fill
                },
        decreases total - i,
    {
        proof {
            lemma_index_split(nrows as int, ncols as int, i as int);
        }
        let row = i / ncols;
        let column = i % ncols;
        let keep = is_reached(&x_filter, &y_filter, row, column);
        proof {
            if keep {
                let k = choose|k: int| 0 <= k < x_filter.len() && k < y_filter.len() && (#[trigger] y_filter@[k])@.contains(row) && (#[trigger] x_filter@[k])@.contains(column);
                assert(is_active_columns(xs[k], x_filter@[k]@));
                assert(is_active_columns(ys[k], y_filter@[k]@));
                assert(reached(xs, ys, row as int, column as int));
            } else {
                if reached(xs, ys, row as int, column as int) {
                    let k = choose|k: int| 0 <= k < xs.len() && k < ys.len() && row < (#[trigger] ys[k]).shape.1 && has_entry_in_col(
                        ys[k].triplet_list@, row as int) && column < (#[trigger] xs[k]).shape.1 && has_entry_in_col(xs[k].triplet_list@, column as int);
                    assert(is_active_columns(xs[k], x_filter@[k]@));
                    assert(is_active_columns(ys[k], y_filter@[k]@));
                    assert(y_filter@[k]@.contains(row));
                    assert(x_filter@[k]@.contains(column));
                    assert(false);
                }
            }
        }
        if !keep {
            mat.data.set(i, fill);
        }
        i = i + 1;
    }
    proof {
        assert forall|r: int, c: int| 0 <= r < nrows && 0 <= c < ncols implies #[trigger] mat.at(r, c) == if reached(
                xs, ys, r, c) { old_data[r * ncols + c] } else { fill } by {
            lemma_index(nrows as int, ncols as int, r, c);
        }
    }
}

/// `after` is `before` with `fill` in every entry whose column `c` and row
/// `r` are not both active (column `c` of `mat_x` and column `r` of `mat_y`
/// hold entries); the other entries keep their value.
pub open spec fn column_row_filtered<V, W>(
    before: DenseMatrix<V>,
    after: DenseMatrix<V>,
    mat_x: SparseAsList<W>,
    mat_y: SparseAsList<W>,
    fill: V,
) -> bool {
    &&& after.well_formed()
    &&& after.rows() == before.rows()
    &&& after.cols() == before.cols()
    &&& forall|r: int, c: int|
        0 <= r < before.rows() && 0 <= c < before.cols() ==> #[trigger] after.at(r, c) == if col_active(mat_x, c)
            && col_active(mat_y, r) {
            before.at(r, c)
        } else {
            fill
        }
}

/// Law: the two-pass filter and the single-pass filter give the same
/// matrix: two results of the column-and-row filter of one matrix have the
/// same shape and the same entries.
pub proof fn column_and_row_filters_agree<V, W>(
    before: DenseMatrix<V>,
    a: DenseMatrix<V>,
    b: DenseMatrix<V>,
    mat_x: SparseAsList<W>,
    mat_y: SparseAsList<W>,
    fill: V,
)
    requires
        column_row_filtered(before, a, mat_x, mat_y, fill),
        column_row_filtered(before, b, mat_x, mat_y, fill),
    ensures
        a.nrows == b.nrows,
        a.ncols == b.ncols,
        a.data@ == b.data@,
        forall|r: int, c: int| 0 <= r < a.rows() && 0 <= c < a.cols() ==> #[trigger] a.at(r, c) == b.at(r, c),
{
    let nrows = a.nrows as int;
    let ncols = a.ncols as int;
    assert forall|i: int| 0 <= i < a.data@.len() implies a.data@[i] == b.data@[i] by {
        assert(ncols > 0) by (nonlinear_arith) requires 0 <= i < nrows * ncols, nrows >= 0, ncols >= 0;
        lemma_index_split(nrows, ncols, i);
        let r = i / ncols;
        let c = i % ncols;
        assert(a.at(r, c) == b.at(r, c));
    }
    assert(a.data@ =~= b.data@);
}

/// Sets to `fill` every entry of `mat` whose column `c` and row `r` are not
/// both active: column `c` of `mat_x` and column `r` of `mat_y` hold entries.
/// Done in two passes, columns first, then rows.
fn filter_helper<V: Copy, W>(mat: &mut DenseMatrix<V>, mat_x: &SparseAsList<W>, mat_y: &SparseAsList<W>, fill: V)
    requires
        old(mat).well_formed(),
        old(mat).ncols <= mat_x.shape.1,
        old(mat).nrows <= mat_y.shape.1,
    ensures
        column_row_filtered(*old(mat), *final(mat), *mat_x, *mat_y, fill),
{
    let x_active = active_columns(mat_x);
    let y_active = active_columns(mat_y);
    let ghost old_data = mat.data@;
    let nrows = mat.nrows;
    let ncols = mat.ncols;
    let total = mat.data.len();
    // Column pass.
    let mut i: usize = 0;
    while i < total
        invariant
            nrows == mat.nrows,
            ncols == mat.ncols,
            total == mat.data.len(),
            total == nrows * ncols,
            old_data.len() == total,
            i <= total,
            is_active_columns(*mat_x, x_active@),
            forall|j: int| i <= j < total ==> mat.data@[j] == old_data[j],
            forall|j: int|
                0 <= j < i ==> mat.data@[j] == if col_active(*mat_x, j % ncols as int) {
                    old_data[j]
                } else {
                    fill
                },
        decreases total - i,
    {
        proof {
            lemma_index_split(nrows as int, ncols as int, i as int);
        }
        let column = i % ncols;
        if !vec_contains(&x_active, column) {
            mat.data.set(i, fill);
        }
        i = i + 1;
    }
    let ghost mid = mat.data@;
    // Row pass.
    let mut i: usize = 0;
    while i < total
        invariant
            nrows == mat.nrows,
            ncols == mat.ncols,
            total == mat.data.len(),
            total == nrows * ncols,
            mid.len() == total,
            i <= total,
            is_active_columns(*mat_y, y_active@),
            forall|j: int| i <= j < total ==> mat.data@[j] == mid[j],
            forall|j: int|
                0 <= j < i ==> mat.data@[j] == if col_active(*mat_y, j / ncols as int) {
                    mid[j]
                } else {
                    fill
                },
        decreases total - i,
    {
        proof {
            lemma_index_split(nrows as int, ncols as int, i as int);
        }
        let row = i / ncols;
        if !vec_contains(&y_active, row) {
            mat.data.set(i, fill);
        }
        i = i + 1;
    }
    proof {
        assert forall|r: int, c: int| 0 <= r < nrows && 0 <= c < ncols implies #[trigger] mat.at(r, c) == if col_active(*mat_x, c)
                && col_active(*mat_y, r) { old_data[r * ncols + c] } else { fill } by {
            lemma_index(nrows as int, ncols as int, r, c);
        }
    }
}

/// The same blanking as `filter_helper`, in a single pass over all entries.
fn filter_brute<V: Copy, W>(mat: &mut DenseMatrix<V>, mat_x: &SparseAsList<W>, mat_y: &SparseAsList<W>, fill: V)
    requires
        old(mat).well_formed(),
        old(mat).ncols <= mat_x.shape.1,
        old(mat).nrows <= mat_y.shape.1,
    ensures
        column_row_filtered(*old(mat), *final(mat), *mat_x, *mat_y, fill),
{
    let x_active = active_columns(mat_x);
    let y_active = active_columns(mat_y);
    let ghost old_data = mat.data@;
    let nrows = mat.nrows;
    let ncols = mat.ncols;
    let total = mat.data.len();
    let mut i: usize = 0;
    while i < total
        invariant
            nrows == mat.nrows,
            ncols == mat.ncols,
            total == mat.data.len(),
            total == nrows * ncols,
            old_data.len() == total,
            i <= total,
            is_active_columns(*mat_x, x_active@),
            is_active_columns(*mat_y, y_active@),
            forall|j: int| i <= j < total ==> mat.data@[j] == old_data[j],
            forall|j: int|
                0 <= j < i ==> mat.data@[j] == if col_active(*mat_x, j % ncols as int) && col_active(*mat_y, j / ncols as int) {
                    old_data[j]
                } else {
                    fill
                },
        decreases total - i,
    {
        proof {
            lemma_index_split(nrows as int, ncols as int, i as int);
        }
        let row = i / ncols;
        let column = i % ncols;
        if !vec_contains(&x_active, column) || !vec_contains(&y_active, row) {
            mat.data.set(i, fill);
        }
        i = i + 1;
    }
    proof {
        assert forall|r: int, c: int| 0 <= r < nrows && 0 <= c < ncols implies #[trigger] mat.at(r, c) == if col_active(*mat_x, c)
                && col_active(*mat_y, r) { old_data[r * ncols + c] } else { fill } by {
            lemma_index(nrows as int, ncols as int, r, c);
        }
    }
}

/// Some triplet of `triplets` has row `r` and column `c`.
pub open spec fn sampled_at<W>(triplets: Seq<(u32, u32, W)>, r: int, c: int) -> bool {
    exists|j: int| 0 <= j < triplets.len() && (#[trigger] triplets[j]).0 == r && triplets[j].1 == c
}

/// Every triplet lies inside a `rows` by `columns` matrix.
pub open spec fn samples_in_bounds<W>(triplets: Seq<(u32, u32, W)>, rows: int, columns: int) -> bool {
    forall|j: int| 0 <= j < triplets.len() ==> (#[trigger] triplets[j]).0 < rows && triplets[j].1 < columns
}

/// The observations collected for the rank-one factorization: which
/// entries of the `size[0] * size[1]` by `size[2] * size[3]` target were
/// sampled, and a weight for each sample.
pub struct NmfSamples<V> {
    pub target_matrix: Option<DenseMatrix<V>>,
    pub weight_matrix: Option<SparseAsList<V>>,
    pub size: [u32; 4],
}

proof fn lemma_key_injective(a: int, b: int, r: int, c: int)
    requires
        0 <= b < 4294967296,
        0 <= c < 4294967296,
        a * 4294967296 + b == r * 4294967296 + c,
    ensures
        a == r,
        b == c,
{
    assert(a == r && b == c) by (nonlinear_arith)
        requires 0 <= b < 4294967296, 0 <= c < 4294967296, a * 4294967296 + b == r * 4294967296 + c;
}

fn sample_key(r: u32, c: u32) -> (k: u64)
    ensures
        k == r * 4294967296 + c,
{
    (r as u64) * 4294967296 + (c as u64)
}

impl<V: Copy> NmfSamples<V> {
    /// No observation yet, for panels of the given size.
    pub fn new(size: [u32; 4]) -> (s: NmfSamples<V>)
        ensures
            s.target_matrix is None,
            s.weight_matrix is None,
            s.size == size,
    {
        NmfSamples { target_matrix: None, weight_matrix: None, size }
    }

    /// Forgets the observations.
    pub fn reset(&mut self)
        ensures
            final(self).target_matrix is None,
            final(self).weight_matrix is None,
            final(self).size == old(self).size,
    {
        self.target_matrix = None;
        self.weight_matrix = None;
    }

    /// Records the sampled positions `(row, column, _)` of `triplets` for
    /// panels of size `size`.  Nothing happens for an empty list.  When
    /// there is no target yet or its shape differs, a new
    /// `size[0] * size[1]` by `size[2] * size[3]` target holds `sampled` at
    /// the sampled positions and `unsampled` elsewhere; otherwise the
    /// sampled positions of the target are set to `sampled`.  When there is
    /// no weight matrix yet, one is made with `weight` at every sample.
    pub fn add_sample<W>(&mut self, triplets: &Vec<(u32, u32, W)>, size: [u32; 4], sampled: V, unsampled: V, weight: V)
        requires
            triplets@.len() > 0 ==> size[0] * size[1] <= u32::MAX,
            triplets@.len() > 0 ==> size[2] * size[3] <= u32::MAX,
            triplets@.len() > 0 ==> (size[0] * size[1]) * (size[2] * size[3]) <= usize::MAX,
            triplets@.len() > 0 ==> (old(self).target_matrix matches Some(m) ==> m.well_formed()),
            triplets@.len() > 0 && (old(self).target_matrix matches Some(m) && m.rows() == size[0] * size[1] && m.cols()
                == size[2] * size[3]) ==> samples_in_bounds(triplets@, size[0] * size[1], size[2] * size[3]),
            triplets@.len() > 0 && old(self).weight_matrix is None ==> samples_in_bounds(
                triplets@,
                size[0] * size[1],
                size[2] * size[3],
            ),
        ensures
            triplets@.len() == 0 ==> *final(self) == *old(self),
            triplets@.len() > 0 ==> {
                let rows = size[0] * size[1];
                let cols = size[2] * size[3];
                &&& final(self).size == size
                &&& final(self).target_matrix matches Some(m) && m.well_formed() && m.rows() == rows && m.cols() == cols
                &&& forall|r: int, c: int|
                    0 <= r < rows && 0 <= c < cols ==> #[trigger] final(self).target_matrix.unwrap().at(r, c) == if sampled_at(
                        triplets@,
                        r,
                        c,
                    ) {
                        sampled
                    } else {
                        match old(self).target_matrix {
                            Some(m) => if m.rows() == rows && m.cols() == cols {
                                m.at(r, c)
                            } else {
                                unsampled
                            },
                            None => unsampled,
                        }
                    }
                &&& old(self).weight_matrix is Some ==> final(self).weight_matrix == old(self).weight_matrix
                &&& old(self).weight_matrix is None ==> (final(self).weight_matrix matches Some(w) && w.shape == (
                    rows as usize,
                    cols as usize,
                ) && w.triplet_list@ == Seq::new(
                    triplets@.len(),
                    |j: int| (triplets@[j].0 as usize, triplets@[j].1 as usize, weight),
                ) && w.well_formed())
            },
    {
        if triplets.len() == 0 {
            return;
        }
        self.size = size;
        let mut keys: HashSet<u64> = HashSet::new();
        let mut j: usize = 0;
        while j < triplets.len()
            invariant
                j <= triplets.len(),
                forall|k: u64|
                    keys@.contains(k) <==> exists|i: int|
                        0 <= i < j && k == (#[trigger] triplets@[i]).0 * 4294967296 + triplets@[i].1,
            decreases triplets.len() - j,
        {
            let key = sample_key(triplets[j].0, triplets[j].1);
            keys.insert(key);
            j = j + 1;
        }
        let rows = size[0] * size[1];
        let cols = size[2] * size[3];
        let reshape = match &self.target_matrix {
            Some(m) => m.nrows != rows as usize || m.ncols != cols as usize,
            None => true,
        };
        if reshape {
            let total: usize = (rows as usize) * (cols as usize);
            let ghost nc = cols as int;
            let mut data: Vec<V> = Vec::new();
            let mut i: usize = 0;
            while i < total
                invariant
                    total == rows * cols,
                    nc == cols,
                    i <= total,
                    data@.len() == i,
                    forall|k: u64|
                        keys@.contains(k) <==> exists|t: int|
                            0 <= t < triplets@.len() && k == (#[trigger] triplets@[t]).0 * 4294967296 + triplets@[t].1,
                    forall|p: int|
                        0 <= p < i ==> #[trigger] data@[p] == if sampled_at(triplets@, p / nc, p % nc) {
                            sampled
                        } else {
                            unsampled
                        },
                decreases total - i,
            {
                proof {
                    lemma_index_split(rows as int, cols as int, i as int);
                }
                let r = i / (cols as usize);
                let c = i % (cols as usize);
                let key = sample_key(r as u32, c as u32);
                let hit = keys.contains(&key);
                proof {
                    assert(r < rows && c < cols);
                    assert(r as u32 == r && c as u32 == c);
                    if hit {
                        let t = choose|t: int| 0 <= t < triplets@.len() && key == (#[trigger] triplets@[t]).0 * 4294967296 + triplets@[t].1;
                        lemma_key_injective(triplets@[t].0 as int, triplets@[t].1 as int, r as int, c as int);
                        assert(triplets@[t].0 == r && triplets@[t].1 == c);
                        assert(sampled_at(triplets@, r as int, c as int));
                    }
                    if sampled_at(triplets@, r as int, c as int) {
                        let t = choose|t: int| 0 <= t < triplets@.len() && (#[trigger] triplets@[t]).0 == r && triplets@[t].1 == c;
                        assert(keys@.contains(key));
                    }
                    assert(hit == sampled_at(triplets@, r as int, c as int));
                    assert(r == i as int / nc && c == i as int % nc);
                }
                if hit {
                    data.push(sampled);
                } else {
                    data.push(unsampled);
                }
                i = i + 1;
            }
            self.target_matrix = Some(DenseMatrix { nrows: rows as usize, ncols: cols as usize, data });
            proof {
                let m = self.target_matrix.unwrap();
                assert forall|r: int, c: int| 0 <= r < rows && 0 <= c < cols implies #[trigger] m.at(r, c) == if sampled_at(
                    triplets@, r, c) { sampled } else { unsampled } by {
                    lemma_index(rows as int, cols as int, r, c);
                }
            }
        } else {
            let mut m = self.target_matrix.take().unwrap();
            let ghost old_m = m;
            let mut t: usize = 0;
            while t < triplets.len()
                invariant
                    m.nrows == rows,
                    m.ncols == cols,
                    old_m.nrows == rows,
                    old_m.ncols == cols,
                    m.well_formed(),
                    old_m.well_formed(),
                    samples_in_bounds(triplets@, rows as int, cols as int),
                    t <= triplets.len(),
                    forall|r: int, c: int|
                        0 <= r < rows && 0 <= c < cols ==> #[trigger] m.at(r, c) == if exists|i: int|
                            0 <= i < t && (#[trigger] triplets@[i]).0 == r && triplets@[i].1 == c {
                            sampled
                        } else {
                            old_m.at(r, c)
                        },
                decreases triplets.len() - t,
            {
                let x = triplets[t].0 as usize;
                let y = triplets[t].1 as usize;
                proof {
                    lemma_index(rows as int, cols as int, x as int, y as int);
                }
                let idx = x * m.ncols + y;
                let ghost prev = m;
                m.data.set(idx, sampled);
                proof {
                    assert forall|r: int, c: int| 0 <= r < rows && 0 <= c < cols implies #[trigger] m.at(r, c) == if exists|i: int|
                        0 <= i < t + 1 && (#[trigger] triplets@[i]).0 == r && triplets@[i].1 == c { sampled } else { old_m.at(r, c) } by {
                        lemma_index(rows as int, cols as int, r, c);
                        if r * cols + c == idx {
                            lemma_index(rows as int, cols as int, x as int, y as int);
                            assert(r == x && c == y) by (nonlinear_arith)
                                requires r * cols + c == x * cols + y, 0 <= c < cols, 0 <= y < cols, r >= 0, x >= 0;
                            assert(triplets@[t as int].0 == r && triplets@[t as int].1 == c);
                        } else {
                            if r == triplets@[t as int].0 && c == triplets@[t as int].1 {
                                assert(r * cols + c == idx);
                            }
                            assert(m.at(r, c) == prev.at(r, c));
                        }
                    }
                }
                t = t + 1;
            }
            self.target_matrix = Some(m);
        }
        if self.weight_matrix.is_none() {
            let mut list: Vec<(usize, usize, V)> = Vec::new();
            let mut k: usize = 0;
            while k < triplets.len()
                invariant
                    k <= triplets.len(),
                    list@ == Seq::new(k as nat, |j: int| (triplets@[j].0 as usize, triplets@[j].1 as usize, weight)),
                decreases triplets.len() - k,
            {
                list.push((triplets[k].0 as usize, triplets[k].1 as usize, weight));
                assert(list@ =~= Seq::new((k + 1) as nat, |j: int| (triplets@[j].0 as usize, triplets@[j].1 as usize, weight)));
                k = k + 1;
            }
            self.weight_matrix = Some(SparseAsList { shape: (rows as usize, cols as usize), triplet_list: list });
        }
    }
}

} // verus!
