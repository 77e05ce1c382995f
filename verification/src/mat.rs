use vstd::prelude::*;

use crate::field::Field;
use crate::mat_model::{
    basis_model, choose_entry, delta, dot, flat_at, identity_model, lemma_flat_index,
    lemma_flat_order, lemma_is_from_fn, lemma_row_step, lemma_rows_disjoint, permutation_entry,
    permutation_model, permutation_vec_model, replacement_entry, replacement_model,
    scale_mat_entry, scale_mat_model, squared_distance_upto, zero_model, MatModel,
};

verus! {

/// A matrix over `F`, its entries stored row by row.
#[derive(Debug, PartialEq, Clone)]
pub struct Mat<F: Field> {
    entries: Vec<F>,
    rows: usize,
    cols: usize,
}

impl<F: Field> View for Mat<F> {
    type V = MatModel<F>;

    closed spec fn view(&self) -> MatModel<F> {
        MatModel { rows: self.rows as nat, cols: self.cols as nat, entries: self.entries@ }
    }
}

/// Builds the `rows * cols` matrix whose entry `(r, c)` is `f(r, c)`, row by row.
fn tabulate<F: Field, G: Fn(usize, usize) -> F>(rows: usize, cols: usize, f: G) -> (m: Mat<F>)
    requires
        forall|r: usize, c: usize| r < rows && c < cols ==> call_requires(f, (r, c)),
    ensures
        m@.rows == rows,
        m@.cols == cols,
        m@.exact(),
        forall|r: int, c: int|
            0 <= r < rows && 0 <= c < cols ==> call_ensures(
                f,
                (r as usize, c as usize),
                #[trigger] m@.at(r, c),
            ),
{
    let mut v: Vec<F> = Vec::new();
    let mut r: usize = 0;
    while r < rows
        invariant
            r <= rows,
            v@.len() == r * cols,
            forall|r: usize, c: usize| r < rows && c < cols ==> call_requires(f, (r, c)),
            forall|rr: int, cc: int|
                0 <= rr < r && 0 <= cc < cols ==> call_ensures(
                    f,
                    (rr as usize, cc as usize),
                    #[trigger] flat_at(v@, cols as nat, rr, cc),
                ),
        decreases rows - r,
    {
        let mut c: usize = 0;
        while c < cols
            invariant
                r < rows,
                c <= cols,
                v@.len() == r * cols + c,
                forall|r: usize, c: usize| r < rows && c < cols ==> call_requires(f, (r, c)),
                forall|rr: int, cc: int|
                    0 <= rr && 0 <= cc < cols && (rr < r || (rr == r && cc < c)) ==> call_ensures(
                        f,
                        (rr as usize, cc as usize),
                        #[trigger] flat_at(v@, cols as nat, rr, cc),
                    ),
            decreases cols - c,
        {
            let x = f(r, c);
            let ghost old_v = v@;
            v.push(x);
            proof {
                assert forall|rr: int, cc: int|
                    0 <= rr && 0 <= cc < cols && (rr < r || (rr == r && cc < c + 1)) implies
                    call_ensures(f, (rr as usize, cc as usize), #[trigger] flat_at(v@, cols as nat, rr, cc))
                by {
                    if rr == r && cc == c {
                    } else {
                        lemma_flat_order(cols as nat, rr, cc, r as int, c as int);
                        assert(flat_at(v@, cols as nat, rr, cc) == flat_at(old_v, cols as nat, rr, cc));
                    }
                }
            }
            c = c + 1;
        }
        proof {
            lemma_row_step(cols as nat, r as int);
        }
        r = r + 1;
    }
    let m = Mat { entries: v, rows, cols };
    assert forall|r: int, c: int| 0 <= r < rows && 0 <= c < cols implies call_ensures(
        f,
        (r as usize, c as usize),
        #[trigger] m@.at(r, c),
    ) by {
        assert(m@.at(r, c) == flat_at(v@, cols as nat, r, c));
    }
    m
}

impl<F: Field> Mat<F> {
    /// The matrix with the given dimensions and row-major entries, taken as they are.
    pub fn new(rows: usize, cols: usize, entries: Vec<F>) -> (m: Mat<F>)
        ensures
            m@ == (MatModel { rows: rows as nat, cols: cols as nat, entries: entries@ }),
    {
        Mat { entries, rows, cols }
    }

    /// The `n * n` identity matrix.
    pub fn identity(n: usize) -> (m: Mat<F>)
        ensures
            m@ == identity_model::<F>(n as nat),
    {
        let one = F::one();
        let zero = F::zero();
        let entry = |r: usize, c: usize| -> (x: F)
            ensures
                x == choose_entry(r == c, one, zero),
            {
                if r == c {
                    one
                } else {
                    zero
                }
            };
        let m = tabulate(n, n, entry);
        proof {
            lemma_is_from_fn(m@, n as nat, n as nat, |r: int, c: int| delta::<F>(r, c));
        }
        m
    }

    /// The `k`th standard basis vector of dimension `n`, as an `n * 1` matrix.
    pub fn e(k: usize, n: usize) -> (m: Mat<F>)
        ensures
            m@ == basis_model::<F>(k as int, n as nat),
    {
        let one = F::one();
        let zero = F::zero();
        let entry = |r: usize, c: usize| -> (x: F)
            ensures
                x == choose_entry(r == k, one, zero),
            {
                if r == k {
                    one
                } else {
                    zero
                }
            };
        let m = tabulate(n, 1, entry);
        proof {
            lemma_is_from_fn(m@, n as nat, 1, |r: int, c: int| delta::<F>(r, k as int));
        }
        m
    }

    /// The `rows * cols` zero matrix.
    pub fn zero(rows: usize, cols: usize) -> (m: Mat<F>)
        ensures
            m@ == zero_model::<F>(rows as nat, cols as nat),
    {
        let zero = F::zero();
        let entry = |r: usize, c: usize| -> (x: F)
            ensures
                x == zero,
            {
                zero
            };
        let m = tabulate(rows, cols, entry);
        proof {
            lemma_is_from_fn(m@, rows as nat, cols as nat, |r: int, c: int| F::zero_spec());
        }
        m
    }

    /// The `rows * rows` elementary matrix that scales row `i` by `scale`.
    pub fn scale_mat(rows: usize, i: usize, scale: F) -> (m: Mat<F>)
        ensures
            m@ == scale_mat_model(rows as nat, i as int, scale),
    {
        let one = F::one();
        let zero = F::zero();
        let entry = |r: usize, c: usize| -> (x: F)
            ensures
                x == choose_entry(r == c && r == i, scale, choose_entry(r == c, one, zero)),
            {
                if r == c && r == i {
                    scale
                } else if r == c {
                    one
                } else {
                    zero
                }
            };
        let m = tabulate(rows, rows, entry);
        proof {
            lemma_is_from_fn(
                m@,
                rows as nat,
                rows as nat,
                |r: int, c: int| scale_mat_entry(i as int, scale, r, c),
            );
        }
        m
    }

    /// The `rows * rows` elementary matrix that exchanges rows `source` and `target`.
    pub fn permutation(rows: usize, source: usize, target: usize) -> (m: Mat<F>)
        ensures
            m@ == permutation_model::<F>(rows as nat, source as int, target as int),
    {
        let one = F::one();
        let zero = F::zero();
        let entry = |r: usize, c: usize| -> (x: F)
            ensures
                x == choose_entry(
                    (r == source && c == target) || (c == source && r == target) || (r == c && r
                        != source && c != target),
                    one,
                    zero,
                ),
            {
                if (r == source && c == target) || (c == source && r == target) || (r == c && r
                    != source && c != target) {
                    one
                } else {
                    zero
                }
            };
        let m = tabulate(rows, rows, entry);
        proof {
            lemma_is_from_fn(
                m@,
                rows as nat,
                rows as nat,
                |r: int, c: int| permutation_entry::<F>(source as int, target as int, r, c),
            );
        }
        m
    }

    /// The `n * n` matrix, `n` the length of `permutation`, whose row `r` has its one in
    /// column `permutation[r]`: it sends row `permutation[r]` of a matrix to row `r`.
    pub fn permutation_from_vec(permutation: Vec<usize>) -> (m: Mat<F>)
        ensures
            m@ == permutation_vec_model::<F>(permutation@),
    {
        let n = permutation.len();
        let one = F::one();
        let zero = F::zero();
        let p = &permutation;
        let entry = |r: usize, c: usize| -> (x: F)
            requires
                r < p@.len(),
            ensures
                x == choose_entry(p@[r as int] == c, one, zero),
            {
                if p[r] == c {
                    one
                } else {
                    zero
                }
            };
        let m = tabulate(n, n, entry);
        proof {
            lemma_is_from_fn(
                m@,
                n as nat,
                n as nat,
                |r: int, c: int| choose_entry(permutation@[r] == c, F::one_spec(), F::zero_spec()),
            );
        }
        m
    }

    /// The `rows * rows` elementary matrix that adds `scalar` times row `source` to row `target`
    /// (where the two rows coincide, its diagonal entry there is `1 + scalar`).
    pub fn replacement(rows: usize, source: usize, target: usize, scalar: F) -> (m: Mat<F>)
        ensures
            m@ == replacement_model(rows as nat, source as int, target as int, scalar),
    {
        let one = F::one();
        let zero = F::zero();
        let one_plus = one.add(&scalar);
        let entry = |r: usize, c: usize| -> (x: F)
            ensures
                x == choose_entry(
                    c == source && r == target,
                    choose_entry(source == target, one_plus, scalar),
                    choose_entry(r == c, one, zero),
                ),
            {
                if c == source && r == target {
                    if source == target {
                        one_plus
                    } else {
                        scalar
                    }
                } else if r == c {
                    one
                } else {
                    zero
                }
            };
        let m = tabulate(rows, rows, entry);
        proof {
            lemma_is_from_fn(
                m@,
                rows as nat,
                rows as nat,
                |r: int, c: int| replacement_entry(source as int, target as int, scalar, r, c),
            );
        }
        m
    }

    /// The number of rows.
    pub fn rows(&self) -> (r: usize)
        ensures
            r == self@.rows,
    {
        self.rows
    }

    /// The number of columns.
    pub fn cols(&self) -> (c: usize)
        ensures
            c == self@.cols,
    {
        self.cols
    }

    /// The row-major entries.
    pub fn entries(&self) -> (s: &[F])
        ensures
            s@ == self@.entries,
    {
        self.entries.as_slice()
    }

    /// The transpose: a `cols * rows` matrix whose entry `(c, r)` is entry `(r, c)` of `self`.
    pub fn transpose(&self) -> (t: Mat<F>)
        requires
            self@.wf(),
        ensures
            t@ == self@.transposed(),
    {
        let entry = |c: usize, r: usize| -> (x: F)
            requires
                c < self@.cols,
                r < self@.rows,
            ensures
                x == self@.at(r as int, c as int),
            {
                proof {
                    lemma_flat_index(self@.rows, self@.cols, r as int, c as int);
                }
                *self.get_unchecked(r, c)
            };
        let m = tabulate(self.cols, self.rows, entry);
        proof {
            lemma_is_from_fn(m@, self@.cols, self@.rows, |c: int, r: int| self@.at(r, c));
        }
        m
    }

    /// The entry at index `r * cols + c` of the stored entries.
    pub fn get_unchecked(&self, r: usize, c: usize) -> (x: &F)
        requires
            r * self@.cols + c < self@.entries.len(),
        ensures
            *x == self@.entries[r * self@.cols + c],
            *x == self@.at(r as int, c as int),
    {
        let len = self.entries.len();
        &self.entries[r * self.cols + c]
    }

    /// A mutable reference to the entry at index `r * cols + c` of the stored entries.
    pub fn get_mut_unchecked(&mut self, r: usize, c: usize) -> (x: &mut F)
        requires
            r * old(self)@.cols + c < old(self)@.entries.len(),
        ensures
            *x == old(self)@.entries[r * old(self)@.cols + c],
            final(self)@ == (MatModel {
                entries: old(self)@.entries.update(r * old(self)@.cols + c, *final(x)),
                ..old(self)@
            }),
    {
        let len = self.entries.len();
        let k = r * self.cols + c;
        &mut self.entries[k]
    }

    /// Entry `k` of column `c`, to be changed in place: the entry in row `k` of that column,
    /// for each row `k` in turn a caller walks the column with.
    pub fn get_col_iter_mut(&mut self, c: usize, k: usize) -> (x: &mut F)
        requires
            old(self)@.wf(),
            c < old(self)@.cols,
            k < old(self)@.rows,
        ensures
            *x == old(self)@.at(k as int, c as int),
            final(self)@ == (MatModel {
                entries: old(self)@.entries.update(k * old(self)@.cols + c, *final(x)),
                ..old(self)@
            }),
    {
        proof {
            lemma_flat_index(self@.rows, self@.cols, k as int, c as int);
        }
        self.get_mut_unchecked(k, c)
    }

    /// The stored entries of row `r`.
    pub fn get_row_iter(&self, r: usize) -> (s: &[F])
        requires
            self@.has_row(r as int),
        ensures
            s@ == self@.entries.subrange(r * self@.cols, r * self@.cols + self@.cols),
    {
        proof {
            lemma_row_step(self@.cols, r as int);
        }
        let len = self.entries.len();
        proof {
            assert(r * self@.cols <= r * self@.cols + self@.cols);
        }
        let start = r * self.cols;
        &self.entries[start..start + self.cols]
    }

    /// The entries of column `c`, top to bottom: entry `r * cols + c` for each row `r`.
    pub fn get_col_iter(&self, c: usize) -> (v: Vec<F>)
        requires
            self@.rows == 0 || (self@.rows - 1) * self@.cols + c < self@.entries.len(),
        ensures
            v@.len() == self@.rows,
            forall|r: int| 0 <= r < self@.rows ==> #[trigger] v@[r] == self@.at(r, c as int),
    {
        let mut v: Vec<F> = Vec::new();
        let mut r: usize = 0;
        while r < self.rows
            invariant
                r <= self@.rows,
                v@.len() == r,
                self@.rows == 0 || (self@.rows - 1) * self@.cols + c < self@.entries.len(),
                forall|rr: int| 0 <= rr < r ==> #[trigger] v@[rr] == self@.at(rr, c as int),
            decreases self@.rows - r,
        {
            proof {
                assert(r * self@.cols <= (self@.rows - 1) * self@.cols) by (nonlinear_arith)
                    requires
                        r <= self@.rows - 1,
                ;
            }
            let x = *self.get_unchecked(r, c);
            v.push(x);
            r = r + 1;
        }
        v
    }

    /// Row `r` as a column vector: a `cols * 1` matrix.
    pub fn get_row(&self, r: usize) -> (m: Mat<F>)
        requires
            self@.has_row(r as int),
        ensures
            m@ == self@.row_vector(r as int),
    {
        let row = self.get_row_iter(r);
        proof {
            lemma_row_step(self@.cols, r as int);
        }
        let mut v: Vec<F> = Vec::new();
        let mut i: usize = 0;
        while i < row.len()
            invariant
                i <= row@.len(),
                row@.len() == self@.cols,
                row@ == self@.entries.subrange(r * self@.cols, r * self@.cols + self@.cols),
                v@ == row@.subrange(0, i as int),
            decreases row@.len() - i,
        {
            v.push(row[i]);
            i = i + 1;
        }
        proof {
            Mat::<F>::lemma_from_vec(v);
        }
        let m = Mat::from(v);
        assert forall|c: int| 0 <= c < self@.cols implies #[trigger] m@.at(c, 0) == self@.at(r as int, c) by {
            assert(m@.at(c, 0) == v@[c]);
            assert(v@[c] == self@.entries[r * self@.cols + c]);
        }
        proof {
            assert(m@.rows * 1 == m@.rows);
            lemma_is_from_fn(m@, self@.cols, 1, |c: int, z: int| self@.at(r as int, c));
        }
        m
    }

    /// Column `c` as a column vector: a `rows * 1` matrix.
    pub fn get_col(&self, c: usize) -> (m: Mat<F>)
        requires
            self@.rows == 0 || (self@.rows - 1) * self@.cols + c < self@.entries.len(),
        ensures
            m@ == self@.col_vector(c as int),
    {
        let v = self.get_col_iter(c);
        proof {
            Mat::<F>::lemma_from_vec(v);
        }
        let m = Mat::from(v);
        assert forall|r: int| 0 <= r < self@.rows implies #[trigger] m@.at(r, 0) == self@.at(r, c as int) by {
            assert(m@.at(r, 0) == v@[r]);
        }
        proof {
            assert(m@.rows * 1 == m@.rows);
            lemma_is_from_fn(m@, self@.rows, 1, |r: int, z: int| self@.at(r, c as int));
        }
        m
    }

    /// Multiplies row `i` by `scale`: each of its entries `x` becomes `scale * x`.
    pub fn scale(&mut self, i: usize, scale: F)
        requires
            old(self)@.has_row(i as int),
        ensures
            final(self)@ == old(self)@.scaled_row(i as int, scale),
    {
        let ghost m0 = self@;
        let len = self.entries.len();
        proof {
            lemma_row_step(self@.cols, i as int);
        }
        let start = i * self.cols;
        let mut c: usize = 0;
        while c < self.cols
            invariant
                self@.rows == m0.rows,
                self@.cols == m0.cols,
                c <= m0.cols,
                start == i * m0.cols,
                start + m0.cols <= m0.entries.len(),
                self@.entries.len() == m0.entries.len(),
                len == m0.entries.len(),
                forall|k: int|
                    0 <= k < m0.entries.len() ==> #[trigger] self@.entries[k] == (if start <= k
                        < start + c {
                        scale.mul_spec(m0.entries[k])
                    } else {
                        m0.entries[k]
                    }),
            decreases m0.cols - c,
        {
            let x = self.entries[start + c];
            self.entries[start + c] = scale.mul(&x);
            c = c + 1;
        }
        assert(self@.entries =~= m0.scaled_row(i as int, scale).entries);
    }

    /// Exchanges rows `source` and `target`.
    pub fn permute(&mut self, source: usize, target: usize)
        requires
            old(self)@.has_row(source as int),
            old(self)@.has_row(target as int),
        ensures
            final(self)@ == old(self)@.rows_swapped(source as int, target as int),
    {
        let ghost m0 = self@;
        let len = self.entries.len();
        proof {
            lemma_row_step(self@.cols, source as int);
            lemma_row_step(self@.cols, target as int);
            lemma_rows_disjoint(self@.cols, source as int, target as int);
        }
        let so = source * self.cols;
        let to = target * self.cols;
        let mut c: usize = 0;
        while c < self.cols
            invariant
                self@.rows == m0.rows,
                self@.cols == m0.cols,
                c <= m0.cols,
                so == source * m0.cols,
                to == target * m0.cols,
                so + m0.cols <= m0.entries.len(),
                to + m0.cols <= m0.entries.len(),
                so == to || so + m0.cols <= to || to + m0.cols <= so,
                self@.entries.len() == m0.entries.len(),
                len == m0.entries.len(),
                forall|k: int|
                    0 <= k < m0.entries.len() ==> #[trigger] self@.entries[k] == (if so <= k < so
                        + c {
                        m0.entries[k - so + to]
                    } else if to <= k < to + c {
                        m0.entries[k - to + so]
                    } else {
                        m0.entries[k]
                    }),
            decreases m0.cols - c,
        {
            let temp = self.entries[so + c];
            let other = self.entries[to + c];
            self.entries[so + c] = other;
            self.entries[to + c] = temp;
            c = c + 1;
        }
        assert(self@.entries =~= m0.rows_swapped(source as int, target as int).entries);
    }

    /// Adds `scalar` times row `source` to row `target`: each entry `(target, c)` becomes
    /// `(target, c) + (source, c) * scalar`.
    pub fn replace(&mut self, source: usize, target: usize, scalar: F)
        requires
            old(self)@.has_row(source as int),
            old(self)@.has_row(target as int),
        ensures
            final(self)@ == old(self)@.row_replaced(source as int, target as int, scalar),
    {
        let ghost m0 = self@;
        let len = self.entries.len();
        proof {
            lemma_row_step(self@.cols, source as int);
            lemma_row_step(self@.cols, target as int);
            lemma_rows_disjoint(self@.cols, source as int, target as int);
        }
        let so = source * self.cols;
        let to = target * self.cols;
        let mut c: usize = 0;
        while c < self.cols
            invariant
                self@.rows == m0.rows,
                self@.cols == m0.cols,
                c <= m0.cols,
                so == source * m0.cols,
                to == target * m0.cols,
                so + m0.cols <= m0.entries.len(),
                to + m0.cols <= m0.entries.len(),
                so == to || so + m0.cols <= to || to + m0.cols <= so,
                self@.entries.len() == m0.entries.len(),
                len == m0.entries.len(),
                forall|k: int|
                    0 <= k < m0.entries.len() ==> #[trigger] self@.entries[k] == (if to <= k < to
                        + c {
                        m0.entries[k].add_spec(m0.entries[k - to + so].mul_spec(scalar))
                    } else {
                        m0.entries[k]
                    }),
            decreases m0.cols - c,
        {
            let t = self.entries[to + c];
            let s = self.entries[so + c];
            self.entries[to + c] = t.add(&s.mul(&scalar));
            c = c + 1;
        }
        assert(self@.entries =~= m0.row_replaced(source as int, target as int, scalar).entries);
    }

    /// Entry `(r, c)` of `self * other`: row `r` of `self` against column `c` of `other`.
    fn dot(&self, other: &Mat<F>, r: usize, c: usize) -> (x: F)
        requires
            self@.cols == other@.rows,
            self@.has_row(r as int),
            other@.rows == 0 || (other@.rows - 1) * other@.cols + c < other@.entries.len(),
        ensures
            x == self@.product_at(other@, r as int, c as int),
    {
        let row = self.get_row_iter(r);
        let mut acc = F::zero();
        let mut k: usize = 0;
        while k < self.cols
            invariant
                k <= self@.cols,
                self@.cols == other@.rows,
                row@ == self@.entries.subrange(r * self@.cols, r * self@.cols + self@.cols),
                self@.has_row(r as int),
                other@.rows == 0 || (other@.rows - 1) * other@.cols + c < other@.entries.len(),
                acc == dot(self@, other@, r as int, c as int, k as nat),
            decreases self@.cols - k,
        {
            proof {
                lemma_row_step(self@.cols, r as int);
                assert(k * other@.cols <= (other@.rows - 1) * other@.cols) by (nonlinear_arith)
                    requires
                        k <= other@.rows - 1,
                ;
            }
            let y = *other.get_unchecked(k, c);
            let x = row[k];
            acc = acc.add(&x.mul(&y));
            k = k + 1;
        }
        acc
    }

    /// The stored entries of row `r`, to be changed in place.
    pub fn get_row_iter_mut(&mut self, r: usize) -> (s: &mut [F])
        requires
            old(self)@.has_row(r as int),
        ensures
            s@ == old(self)@.entries.subrange(
                r * old(self)@.cols,
                r * old(self)@.cols + old(self)@.cols,
            ),
            final(self)@.rows == old(self)@.rows,
            final(self)@.cols == old(self)@.cols,
            final(self)@.entries =~= old(self)@.entries.subrange(0, r * old(self)@.cols)
                + final(s)@ + old(self)@.entries.subrange(
                r * old(self)@.cols + old(self)@.cols,
                old(self)@.entries.len() as int,
            ),
    {
        let len = self.entries.len();
        let ghost m0 = self@;
        proof {
            lemma_row_step(self@.cols, r as int);
            assert(r * self@.cols <= r * self@.cols + self@.cols);
        }
        let start = r * self.cols;
        let cols = self.cols;
        let all = self.entries.as_mut_slice();
        let (front, rest) = all.split_at_mut(start);
        let (row, back) = rest.split_at_mut(cols);
        assert(front@ =~= m0.entries.subrange(0, start as int));
        assert(back@ =~= m0.entries.subrange(start + cols, len as int));
        row
    }

    /// The squared Frobenius norm of `self - other`: the sum, over the indices that both
    /// store, of the squared entry differences, each difference taken as `a + (0 - 1) * b`.
    pub fn squared_distance(&self, other: &Mat<F>) -> (d: F)
        ensures
            d == squared_distance_upto(
                self@,
                other@,
                if self@.entries.len() <= other@.entries.len() {
                    self@.entries.len()
                } else {
                    other@.entries.len()
                },
            ),
    {
        let n = if self.entries.len() <= other.entries.len() {
            self.entries.len()
        } else {
            other.entries.len()
        };
        let minus_one = F::zero().sub(&F::one());
        let mut acc = F::zero();
        let mut k: usize = 0;
        while k < n
            invariant
                k <= n,
                n <= self@.entries.len(),
                n <= other@.entries.len(),
                minus_one == F::zero_spec().sub_spec(F::one_spec()),
                acc == squared_distance_upto(self@, other@, k as nat),
            decreases n - k,
        {
            let x = self.entries[k].add(&minus_one.mul(&other.entries[k]));
            acc = acc.add(&x.mul(&x));
            k = k + 1;
        }
        acc
    }
}

/// The column vector with the given entries: a `len * 1` matrix.
impl<F: Field> From<Vec<F>> for Mat<F> {
    fn from(entries: Vec<F>) -> (m: Mat<F>) {
        let rows = entries.len();
        Mat { entries, rows, cols: 1 }
    }
}

impl<F: Field> vstd::std_specs::convert::FromSpecImpl<Vec<F>> for Mat<F> {
    open spec fn obeys_from_spec() -> bool {
        true
    }

    closed spec fn from_spec(v: Vec<F>) -> Mat<F> {
        Mat { entries: v, rows: v.len(), cols: 1 }
    }
}

impl<F: Field> Mat<F> {
    /// What `Mat::from` makes of a vector: the column vector of its entries.
    pub proof fn lemma_from_vec(v: Vec<F>)
        ensures
            <Mat<F> as vstd::std_specs::convert::FromSpec<Vec<F>>>::from_spec(v)@ == (MatModel {
                rows: v@.len(),
                cols: 1,
                entries: v@,
            }),
    {
    }
}

/// `m[(r, c)]`: the entry at index `r * cols + c` of the stored entries.
impl<F: Field> std::ops::Index<(usize, usize)> for Mat<F> {
    type Output = F;

    fn index(&self, rc: (usize, usize)) -> (x: &F)
        ensures
            *x == self@.entries[rc.0 * self@.cols + rc.1],
    {
        self.get_unchecked(rc.0, rc.1)
    }
}

impl<F: Field> vstd::std_specs::core::IndexSpecImpl<(usize, usize)> for Mat<F> {
    open spec fn index_req(&self, rc: &(usize, usize)) -> bool {
        rc.0 * self@.cols + rc.1 < self@.entries.len()
    }
}

/// `&a + &b`: the entry-wise sum. The result has the dimensions of `a` and one entry for
/// each index that both store.
impl<'a, F: Field> std::ops::Add for &'a Mat<F> {
    type Output = Mat<F>;

    fn add(self, other: &'a Mat<F>) -> (m: Mat<F>)
        ensures
            m@ == self@.plus(other@),
    {
        let n = if self.entries.len() <= other.entries.len() {
            self.entries.len()
        } else {
            other.entries.len()
        };
        let mut v: Vec<F> = Vec::new();
        let mut k: usize = 0;
        while k < n
            invariant
                k <= n,
                n <= self@.entries.len(),
                n <= other@.entries.len(),
                v@.len() == k,
                forall|j: int| 0 <= j < k ==> #[trigger] v@[j] == self@.entries[j].add_spec(other@.entries[j]),
            decreases n - k,
        {
            v.push(self.entries[k].add(&other.entries[k]));
            k = k + 1;
        }
        let m = Mat::new(self.rows, self.cols, v);
        assert(m@.entries =~= self@.plus(other@).entries);
        m
    }
}

impl<'a, F: Field> vstd::std_specs::ops::AddSpecImpl for &'a Mat<F> {
    open spec fn obeys_add_spec() -> bool {
        false
    }

    open spec fn add_req(self, other: &'a Mat<F>) -> bool {
        self@.rows == other@.rows && self@.cols == other@.cols
    }

    open spec fn add_spec(self, other: &'a Mat<F>) -> Mat<F> {
        arbitrary()
    }
}

/// `&m * k`: every entry `x` becomes `x * k`.
impl<'a, F: Field> std::ops::Mul<F> for &'a Mat<F> {
    type Output = Mat<F>;

    fn mul(self, scalar: F) -> (m: Mat<F>)
        ensures
            m@ == self@.times_scalar(scalar),
    {
        let n = self.entries.len();
        let mut v: Vec<F> = Vec::new();
        let mut k: usize = 0;
        while k < n
            invariant
                k <= n,
                n == self@.entries.len(),
                v@.len() == k,
                forall|j: int| 0 <= j < k ==> #[trigger] v@[j] == self@.entries[j].mul_spec(scalar),
            decreases n - k,
        {
            v.push(self.entries[k].mul(&scalar));
            k = k + 1;
        }
        let m = Mat::new(self.rows, self.cols, v);
        assert(m@.entries =~= self@.times_scalar(scalar).entries);
        m
    }
}

impl<'a, F: Field> vstd::std_specs::ops::MulSpecImpl<F> for &'a Mat<F> {
    open spec fn obeys_mul_spec() -> bool {
        false
    }

    open spec fn mul_req(self, scalar: F) -> bool {
        true
    }

    open spec fn mul_spec(self, scalar: F) -> Mat<F> {
        arbitrary()
    }
}

/// `&a * &b`: the matrix product.
impl<'a, F: Field> std::ops::Mul for &'a Mat<F> {
    type Output = Mat<F>;

    fn mul(self, other: &'a Mat<F>) -> (m: Mat<F>)
        ensures
            m@ == self@.product(other@),
    {
        let entry = |r: usize, c: usize| -> (x: F)
            requires
                r < self@.rows,
                c < other@.cols,
                self@.wf(),
                other@.wf(),
                self@.cols == other@.rows,
            ensures
                x == self@.product_at(other@, r as int, c as int),
            {
                proof {
                    lemma_row_step(self@.cols, r as int);
                    assert((r + 1) * self@.cols <= self@.rows * self@.cols) by (nonlinear_arith)
                        requires
                            r + 1 <= self@.rows,
                    ;
                    if other@.rows > 0 {
                        lemma_flat_index(other@.rows, other@.cols, other@.rows - 1, c as int);
                    }
                }
                self.dot(other, r, c)
            };
        let m = tabulate(self.rows, other.cols, entry);
        proof {
            lemma_is_from_fn(
                m@,
                self@.rows,
                other@.cols,
                |r: int, c: int| self@.product_at(other@, r, c),
            );
        }
        m
    }
}

impl<'a, F: Field> vstd::std_specs::ops::MulSpecImpl for &'a Mat<F> {
    open spec fn obeys_mul_spec() -> bool {
        false
    }

    open spec fn mul_req(self, other: &'a Mat<F>) -> bool {
        &&& self@.cols == other@.rows
        &&& self@.rows > 0 && other@.cols > 0 ==> self@.wf() && other@.wf()
    }

    open spec fn mul_spec(self, other: &'a Mat<F>) -> Mat<F> {
        arbitrary()
    }
}

} // verus!
