//! Sparse ray-mapping matrices held as triplet lists.
//!
//! A `SparseAsList` stands for a compressed sparse column matrix: a shape and
//! the list of its stored entries `(row, column, value)`.  The values are
//! carried through untouched, so their type is a parameter.
use vstd::prelude::*;

verus! {

/// One stored entry of a sparse matrix with 32-bit indices.
#[derive(Clone, Copy, Debug)]
pub struct Triplet<V> {
    pub row: u32,
    pub col: u32,
    pub val: V,
}

impl<V> Triplet<V> {
    pub fn new(row: u32, col: u32, val: V) -> (t: Triplet<V>)
        ensures
            t.row == row,
            t.col == col,
            t.val == val,
    {
        Triplet { row, col, val }
    }
}

/// A sparse matrix as its shape `(rows, columns)` and its list of entries.
#[derive(Debug)]
pub struct SparseAsList<V> {
    pub shape: (usize, usize),
    pub triplet_list: Vec<(usize, usize, V)>,
}

/// Every entry of `list` lies inside a `rows` by `columns` matrix.
pub open spec fn entries_in_bounds<V>(list: Seq<(usize, usize, V)>, rows: int, columns: int) -> bool {
    forall|j: int| 0 <= j < list.len() ==> (#[trigger] list[j]).0 < rows && list[j].1 < columns
}

/// Some entry of `list` lies in column `c`.
pub open spec fn has_entry_in_col<V>(list: Seq<(usize, usize, V)>, c: int) -> bool {
    exists|j: int| 0 <= j < list.len() && (#[trigger] list[j]).1 == c
}

/// The entries of `list` with `off` added to every row index.
pub open spec fn shift_rows<V>(list: Seq<(usize, usize, V)>, off: int) -> Seq<(usize, usize, V)> {
    Seq::new(list.len(), |j: int| ((list[j].0 + off) as usize, list[j].1, list[j].2))
}

/// The entries of the first `k` matrices of `ms`, the rows of matrix `i`
/// moved down by `i * rows_per_view`.
pub open spec fn stacked<V>(ms: Seq<SparseAsList<V>>, rows_per_view: int, k: int) -> Seq<(usize, usize, V)>
    decreases k,
{
    if k <= 0 {
        Seq::empty()
    } else {
        stacked(ms, rows_per_view, k - 1) + shift_rows(ms[k - 1].triplet_list@, (k - 1) * rows_per_view)
    }
}

impl<V> SparseAsList<V> {
    pub fn new(shape: (usize, usize), triplet_list: Vec<(usize, usize, V)>) -> (m: SparseAsList<V>)
        ensures
            m.shape == shape,
            m.triplet_list@ == triplet_list@,
    {
        SparseAsList { shape, triplet_list }
    }

    /// Every stored entry lies inside the shape, as in a compressed matrix.
    pub open spec fn well_formed(&self) -> bool {
        entries_in_bounds(self.triplet_list@, self.shape.0 as int, self.shape.1 as int)
    }
}

/// One sparse matrix per view point.
#[derive(Debug)]
pub struct MappingMatrix<V> {
    pub matrix: Vec<SparseAsList<V>>,
}

/// The entry `(row + i * rows_per_view)` fits a `usize` for every entry of
/// every matrix `i`, and so does the stacked row count.
pub open spec fn stack_fits<V>(ms: Seq<SparseAsList<V>>, rows_per_view: int) -> bool {
    &&& rows_per_view * ms.len() <= usize::MAX
    &&& forall|i: int, j: int|
        0 <= i < ms.len() && 0 <= j < ms[i].triplet_list@.len() ==>
            (#[trigger] ms[i].triplet_list@[j]).0 + i * rows_per_view <= usize::MAX
}

impl<V> MappingMatrix<V> {
    pub fn new(matrix: Vec<SparseAsList<V>>) -> (m: MappingMatrix<V>)
        ensures
            m.matrix@ == matrix@,
    {
        MappingMatrix { matrix }
    }

    /// Stacks the per-view matrices on top of each other: matrix `i` keeps
    /// its columns and has its rows moved down by `i` times the row count of
    /// the first matrix.
    pub fn stack(&self) -> (s: SparseAsList<V>) where V: Copy
        requires
            self.matrix.len() > 0,
            stack_fits(self.matrix@, self.matrix@[0].shape.0 as int),
        ensures
            s.shape.0 == self.matrix@[0].shape.0 * self.matrix.len(),
            s.shape.1 == self.matrix@[0].shape.1,
            s.triplet_list@ == stacked(self.matrix@, self.matrix@[0].shape.0 as int, self.matrix.len() as int),
    {
        let n_views = self.matrix.len();
        let rays_per_view = self.matrix[0].shape.0;
        let columns = self.matrix[0].shape.1;
        let ghost ms = self.matrix@;
        let ghost rpv = rays_per_view as int;
        let mut triplet_list: Vec<(usize, usize, V)> = Vec::new();
        let mut offset: usize = 0;
        let mut index: usize = 0;
        while index < n_views
            invariant
                n_views == ms.len(),
                ms == self.matrix@,
                rpv == ms[0].shape.0,
                rays_per_view == rpv,
                stack_fits(ms, rpv),
                index <= n_views,
                offset == index * rpv,
                triplet_list@ == stacked(ms, rpv, index as int),
            decreases n_views - index,
        {
            let list = &self.matrix[index].triplet_list;
            let ghost before = triplet_list@;
            let mut j: usize = 0;
            while j < list.len()
                invariant
                    ms == self.matrix@,
                    stack_fits(ms, rpv),
                    0 <= index < ms.len(),
                    list@ == ms[index as int].triplet_list@,
                    offset == index * rpv,
                    j <= list.len(),
                    triplet_list@ == before + shift_rows(list@, offset as int).take(j as int),
                decreases list.len() - j,
            {
                let t = list[j];
                assert(ms[index as int].triplet_list@[j as int] == t);
                triplet_list.push((t.0 + offset, t.1, t.2));
                assert(shift_rows(list@, offset as int).take(j + 1) =~= shift_rows(list@, offset as int).take(
                    j as int,
                ).push(((t.0 + offset) as usize, t.1, t.2)));
                j = j + 1;
            }
            assert(shift_rows(list@, offset as int).take(list.len() as int) =~= shift_rows(list@, offset as int));
            assert(offset + rpv <= usize::MAX) by (nonlinear_arith)
                requires offset == index * rpv, index < n_views, rpv * n_views <= usize::MAX, rpv >= 0;
            offset = offset + rays_per_view;
            assert(offset == (index + 1) * rpv) by (nonlinear_arith)
                requires offset == index * rpv + rpv;
            index = index + 1;
        }
        let rows = rays_per_view * n_views;
        SparseAsList { shape: (rows, columns), triplet_list }
    }
}

/// Every matrix of `ms` is well formed and has the shape `(rows_per_view, columns)`.
pub open spec fn uniform_well_formed<V>(ms: Seq<SparseAsList<V>>, rows_per_view: int, columns: int) -> bool {
    forall|i: int|
        0 <= i < ms.len() ==> (#[trigger] ms[i]).well_formed() && ms[i].shape.0 == rows_per_view
            && ms[i].shape.1 == columns
}

proof fn lemma_stacked_in_bounds<V>(ms: Seq<SparseAsList<V>>, rpv: int, columns: int, k: int)
    requires
        0 <= k <= ms.len(),
        rpv >= 0,
        uniform_well_formed(ms, rpv, columns),
        stack_fits(ms, rpv),
    ensures
        stacked(ms, rpv, k).len() >= 0,
        entries_in_bounds(stacked(ms, rpv, k), k * rpv, columns),
    decreases k,
{
    if k > 0 {
        lemma_stacked_in_bounds(ms, rpv, columns, k - 1);
        let prev = stacked(ms, rpv, k - 1);
        let m = ms[k - 1];
        let sh = shift_rows(m.triplet_list@, (k - 1) * rpv);
        assert(m.well_formed());
        assert((k - 1) * rpv + rpv == k * rpv) by (nonlinear_arith);
        assert((k - 1) * rpv <= k * rpv) by (nonlinear_arith) requires rpv >= 0;
        assert forall|j: int| 0 <= j < prev.len() + sh.len() implies (#[trigger] (prev + sh)[j]).0 < k * rpv
            && (prev + sh)[j].1 < columns by {
            if j >= prev.len() {
                let jj = j - prev.len();
                assert(m.triplet_list@[jj].0 < rpv);
                assert(m.triplet_list@[jj].0 + (k - 1) * rpv <= usize::MAX);
            }
        }
    }
}

/// Law: stacking well-formed matrices that all have one shape `(r, c)`
/// gives entries that all lie inside an `(r * n)` by `c` matrix, `n` being
/// the number of matrices; the stacked matrix is well formed.
pub proof fn stack_preserves_well_formed<V>(ms: Seq<SparseAsList<V>>)
    requires
        ms.len() > 0,
        uniform_well_formed(ms, ms[0].shape.0 as int, ms[0].shape.1 as int),
        ms[0].shape.0 * ms.len() <= usize::MAX,
    ensures
        stack_fits(ms, ms[0].shape.0 as int),
        entries_in_bounds(
            stacked(ms, ms[0].shape.0 as int, ms.len() as int),
            ms[0].shape.0 * ms.len(),
            ms[0].shape.1 as int,
        ),
{
    let rpv = ms[0].shape.0 as int;
    assert forall|i: int, j: int|
        0 <= i < ms.len() && 0 <= j < ms[i].triplet_list@.len() implies (
        #[trigger] ms[i].triplet_list@[j]).0 + i * rpv <= usize::MAX by {
        assert(ms[i].well_formed());
        assert(ms[i].triplet_list@[j].0 < rpv);
        assert(i * rpv + rpv <= ms.len() * rpv) by (nonlinear_arith) requires i < ms.len(), rpv >= 0;
        assert(ms.len() * rpv == rpv * ms.len()) by (nonlinear_arith);
    }
    lemma_stacked_in_bounds(ms, rpv, ms[0].shape.1 as int, ms.len() as int);
    assert(ms.len() * rpv == rpv * ms.len()) by (nonlinear_arith);
}

/// The triplet lies inside a `rows` by `columns` matrix.
pub open spec fn triplet_in_bounds<V>(t: Triplet<V>, rows: u32, columns: u32) -> bool {
    t.row < rows && t.col < columns
}

/// The predicate "lies inside a `rows` by `columns` matrix".
pub open spec fn in_bounds_pred<V>(rows: u32, columns: u32) -> spec_fn(Triplet<V>) -> bool {
    |t: Triplet<V>| triplet_in_bounds(t, rows, columns)
}

/// Drops every triplet that lies outside a `rows` by `columns` matrix,
/// keeping the others in order, and returns how many were dropped.
pub fn check_triplets<V: Copy>(rows: u32, columns: u32, triplets: &mut Vec<Triplet<V>>) -> (filtered: usize)
    ensures
        final(triplets)@ == old(triplets)@.filter(in_bounds_pred(rows, columns)),
        filtered == old(triplets)@.len() - final(triplets)@.len(),
{
    let ghost orig = triplets@;
    let pre_filter = triplets.len();
    let mut kept: Vec<Triplet<V>> = Vec::new();
    let mut i: usize = 0;
    while i < triplets.len()
        invariant
            triplets@ == orig,
            i <= orig.len(),
            kept@ == orig.take(i as int).filter(in_bounds_pred(rows, columns)),
            kept@.len() <= i,
        decreases orig.len() - i,
    {
        let t = triplets[i];
        let ghost before = kept@;
        if t.row < rows && t.col < columns {
            kept.push(t);
        }
        proof {
            reveal_with_fuel(Seq::<_>::filter, 1);
            assert(orig.take(i + 1).drop_last() =~= orig.take(i as int));
            assert(orig.take(i + 1).last() == t);
            let s1 = orig.take(i + 1);
            assert(s1.len() > 0);
            assert(in_bounds_pred::<V>(rows, columns)(t) == (t.row < rows && t.col < columns));
            assert(s1.filter(in_bounds_pred(rows, columns)) == (if in_bounds_pred::<V>(rows, columns)(s1.last()) {
                s1.drop_last().filter(in_bounds_pred(rows, columns)).push(s1.last())
            } else {
                s1.drop_last().filter(in_bounds_pred(rows, columns))
            }));
            assert(kept@ == orig.take(i + 1).filter(in_bounds_pred(rows, columns)));
        }
        i = i + 1;
    }
    assert(orig.take(orig.len() as int) =~= orig);
    *triplets = kept;
    pre_filter - triplets.len()
}

/// Law: after `check_triplets`, every triplet lies inside the matrix, and
/// checking again against the same bounds drops nothing.
pub proof fn check_triplets_is_idempotent<V>(triplets: Seq<Triplet<V>>, rows: u32, columns: u32)
    ensures
        forall|j: int|
            0 <= j < triplets.filter(in_bounds_pred(rows, columns)).len() ==> triplet_in_bounds(
                #[trigger] triplets.filter(in_bounds_pred(rows, columns))[j],
                rows,
                columns,
            ),
        triplets.filter(in_bounds_pred(rows, columns)).filter(in_bounds_pred(rows, columns)) == triplets.filter(
            in_bounds_pred(rows, columns),
        ),
{
    broadcast use vstd::seq_lib::group_filter_ensures;
    let kept = triplets.filter(in_bounds_pred::<V>(rows, columns));
    assert forall|j: int| 0 <= j < kept.len() implies triplet_in_bounds(#[trigger] kept[j], rows, columns) by {
        assert(in_bounds_pred::<V>(rows, columns)(kept[j]));
    }
    lemma_filter_all_pass(kept, in_bounds_pred(rows, columns));
}

proof fn lemma_filter_all_pass<A>(s: Seq<A>, pred: spec_fn(A) -> bool)
    requires
        forall|j: int| 0 <= j < s.len() ==> pred(#[trigger] s[j]),
    ensures
        s.filter(pred) == s,
    decreases s.len(),
{
    reveal_with_fuel(Seq::<_>::filter, 1);
    if s.len() > 0 {
        lemma_filter_all_pass(s.drop_last(), pred);
        assert(pred(s[s.len() - 1]));
        assert(s.drop_last().push(s.last()) =~= s);
    }
}

/// Ceiling of `a / b` over the integers.
pub open spec fn chunk_count(len: int, size: int) -> int {
    (len + size - 1) / size
}

/// The triplets built from chunk `k` of `buffer`: entry `j` of the chunk
/// becomes `(j, buffer[k * size + j], value)`.
pub open spec fn chunk_triplets<V>(buffer: Seq<u32>, size: int, k: int, value: V) -> Seq<Triplet<V>> {
    let start = k * size;
    let end = if start + size <= buffer.len() { start + size } else { buffer.len() as int };
    Seq::new(
        (end - start) as nat,
        |j: int| Triplet { row: j as u32, col: buffer[start + j], val: value },
    )
}

/// A chunk index below the chunk count starts inside the buffer.
pub proof fn lemma_chunk_start(len: int, size: int, k: int)
    requires
        size > 0,
        len >= 0,
        0 <= k < chunk_count(len, size),
    ensures
        0 <= k * size < len,
{
    assert(0 <= k * size < len) by (nonlinear_arith)
        requires size > 0, len >= 0, 0 <= k, k < (len + size - 1) / size;
}

proof fn lemma_chunk_count(len: int, size: int, k: int)
    requires
        size > 0,
        k >= 0,
        k == 0 ==> len == 0,
        k > 0 ==> (k - 1) * size < len <= k * size,
    ensures
        chunk_count(len, size) == k,
{
    if k == 0 {
        assert((size - 1) / size == 0) by (nonlinear_arith) requires size > 0;
    } else {
        assert((len + size - 1) / size == k) by (nonlinear_arith)
            requires size > 0, k > 0, (k - 1) * size < len, len <= k * size;
    }
}

/// Cuts `buffer` into chunks of `rays_per_view_point` entries (the last one
/// may be shorter) and turns entry `j` of each chunk into the triplet
/// `(j, entry, value)`: one list of triplets per view point.
pub fn build_tripltes<V: Copy>(buffer: Vec<u32>, rays_per_view_point: usize, value: V) -> (r: Vec<Vec<Triplet<V>>>)
    requires
        rays_per_view_point > 0,
    ensures
        r.len() == chunk_count(buffer.len() as int, rays_per_view_point as int),
        forall|k: int|
            0 <= k < r.len() ==> (#[trigger] r@[k])@ == chunk_triplets(
                buffer@,
                rays_per_view_point as int,
                k,
                value,
            ),
{
    let len = buffer.len();
    let size = rays_per_view_point;
    let ghost sz = size as int;
    let mut r: Vec<Vec<Triplet<V>>> = Vec::new();
    let mut start: usize = 0;
    assert(0 * sz == 0);
    while start < len
        invariant
            len == buffer.len(),
            sz == size,
            size > 0,
            start <= len,
            start < len ==> start == r.len() * sz,
            start == len ==> (r.len() == 0 ==> len == 0),
            start == len && r.len() > 0 ==> (r.len() - 1) * sz < len <= r.len() * sz,
            r.len() > 0 ==> (r.len() - 1) * sz < len,
            forall|k: int| 0 <= k < r.len() ==> (#[trigger] r@[k])@ == chunk_triplets(buffer@, sz, k, value),
        decreases len - start,
    {
        let ghost k = r.len() as int;
        let end = if len - start < size { len } else { start + size };
        let mut chunk: Vec<Triplet<V>> = Vec::new();
        let mut j: usize = 0;
        while j < end - start
            invariant
                len == buffer.len(),
                start < end <= len,
                j <= end - start,
                forall|m: int| 0 <= m < j ==> (#[trigger] chunk@[m]) == (Triplet {
                    row: m as u32,
                    col: buffer@[start + m],
                    val: value,
                }),
                chunk@.len() == j,
            decreases end - start - j,
        {
            chunk.push(Triplet { row: j as u32, col: buffer[start + j], val: value });
            j = j + 1;
        }
        assert(start == k * sz);
        assert(chunk@ =~= chunk_triplets(buffer@, sz, k, value));
        r.push(chunk);
        assert((k + 1) * sz == k * sz + sz) by (nonlinear_arith);
        start = end;
    }
    proof {
        lemma_chunk_count(len as int, sz, r.len() as int);
    }
    r
}

/// `cols` lists, in increasing order, exactly the columns below the
/// column count of `m` that hold an entry.
pub open spec fn is_active_columns<V>(m: SparseAsList<V>, cols: Seq<usize>) -> bool {
    &&& forall|a: int, b: int| 0 <= a < b < cols.len() ==> cols[a] < cols[b]
    &&& forall|c: usize|
        #![trigger cols.contains(c)]
        cols.contains(c) <==> (c < m.shape.1 && has_entry_in_col(m.triplet_list@, c as int))
}

/// The columns of `mat` that hold at least one entry, in increasing order.
pub fn active_columns<V>(mat: &SparseAsList<V>) -> (cols: Vec<usize>)
    ensures
        is_active_columns(*mat, cols@),
{
    let ncols = mat.shape.1;
    let list = &mat.triplet_list;
    let mut marks: Vec<bool> = Vec::new();
    let mut c: usize = 0;
    while c < ncols
        invariant
            c <= ncols,
            marks@.len() == c,
            forall|x: int| 0 <= x < c ==> !(#[trigger] marks@[x]),
        decreases ncols - c,
    {
        marks.push(false);
        c = c + 1;
    }
    let mut i: usize = 0;
    while i < list.len()
        invariant
            ncols == mat.shape.1,
            list == &mat.triplet_list,
            marks@.len() == ncols,
            i <= list.len(),
            forall|x: int|
                0 <= x < ncols ==> (#[trigger] marks@[x] <==> exists|j: int|
                    0 <= j < i && (#[trigger] list@[j]).1 == x),
        decreases list.len() - i,
    {
        let col = list[i].1;
        if col < ncols {
            marks.set(col, true);
        }
        assert forall|x: int| 0 <= x < ncols implies (#[trigger] marks@[x] <==> exists|j: int|
            0 <= j < i + 1 && (#[trigger] list@[j]).1 == x) by {
            if x == col {
                assert(list@[i as int].1 == x);
            }
        }
        i = i + 1;
    }
    let mut cols: Vec<usize> = Vec::new();
    let mut c: usize = 0;
    while c < ncols
        invariant
            ncols == mat.shape.1,
            marks@.len() == ncols,
            c <= ncols,
            forall|x: int|
                0 <= x < ncols ==> (#[trigger] marks@[x] <==> has_entry_in_col(mat.triplet_list@, x)),
            forall|a: int, b: int| 0 <= a < b < cols.len() ==> cols[a] < cols[b],
            forall|a: int| 0 <= a < cols.len() ==> cols[a] < c,
            forall|x: usize|
                #![trigger cols@.contains(x)]
                cols@.contains(x) <==> (x < c && has_entry_in_col(mat.triplet_list@, x as int)),
        decreases ncols - c,
    {
        let ghost before = cols@;
        if marks[c] {
            cols.push(c);
            assert forall|x: usize| #![trigger cols@.contains(x)]
                cols@.contains(x) <==> (x < c + 1 && has_entry_in_col(mat.triplet_list@, x as int)) by {
                if x == c {
                    assert(marks@[c as int]);
                    assert(has_entry_in_col(mat.triplet_list@, x as int));
                    assert(cols@[cols@.len() - 1] == x);
                }
                if cols@.contains(x) && x != c {
                    let w = choose|w: int| 0 <= w < cols@.len() && cols@[w] == x;
                    assert(w < before.len());
                    assert(before[w] == x);
                    assert(before.contains(x));
                }
                if x < c && has_entry_in_col(mat.triplet_list@, x as int) {
                    assert(before.contains(x));
                    let w = choose|w: int| 0 <= w < before.len() && before[w] == x;
                    assert(cols@[w] == x);
                }
            }
        } else {
            assert forall|x: usize| #![trigger cols@.contains(x)]
                cols@.contains(x) <==> (x < c + 1 && has_entry_in_col(mat.triplet_list@, x as int)) by {
                if cols@.contains(x) {
                    let w = choose|w: int| 0 <= w < cols@.len() && cols@[w] == x;
                    assert(cols[w] < c);
                }
            }
        }
        c = c + 1;
    }
    cols
}

/// The active columns of every per-view matrix of `mapping`.
pub fn filter_combine<V>(mapping: &MappingMatrix<V>) -> (sets: Vec<Vec<usize>>)
    ensures
        sets.len() == mapping.matrix.len(),
        forall|i: int| 0 <= i < sets.len() ==> is_active_columns(mapping.matrix@[i], (#[trigger] sets@[i])@),
{
    let mut sets: Vec<Vec<usize>> = Vec::new();
    let mut i: usize = 0;
    while i < mapping.matrix.len()
        invariant
            i <= mapping.matrix.len(),
            sets.len() == i,
            forall|k: int| 0 <= k < i ==> is_active_columns(mapping.matrix@[k], (#[trigger] sets@[k])@),
        decreases mapping.matrix.len() - i,
    {
        sets.push(active_columns(&mapping.matrix[i]));
        i = i + 1;
    }
    sets
}

/// The two mappings of a panel or target, one for each image axis.
#[derive(Debug)]
pub struct CompleteMapping<V> {
    pub x: MappingMatrix<V>,
    pub size: (u32, u32),
    pub y: MappingMatrix<V>,
}

impl<V> CompleteMapping<V> {
    pub fn new(x: MappingMatrix<V>, y: MappingMatrix<V>, size: (u32, u32)) -> (m: CompleteMapping<V>)
        ensures
            m.x == x,
            m.y == y,
            m.size == size,
    {
        CompleteMapping { x, y, size }
    }
}

} // verus!
