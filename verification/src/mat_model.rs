//! The mathematical value of a matrix, the matrices that the constructors build, and the
//! row-major index arithmetic they rest on.

use vstd::prelude::*;

use vstd::arithmetic::div_mod::lemma_fundamental_div_mod_converse;

use crate::field::Field;

verus! {

/// The entry at row `r`, column `c` of a row-major sequence with `cols` columns.
pub open spec fn flat_at<F>(s: Seq<F>, cols: nat, r: int, c: int) -> F {
    s[r * cols + c]
}

/// The mathematical value of a matrix: its dimensions and its row-major entries.
pub struct MatModel<F> {
    pub rows: nat,
    pub cols: nat,
    pub entries: Seq<F>,
}

impl<F> MatModel<F> {
    /// Every one of the `rows * cols` cells has its entry.
    pub open spec fn wf(self) -> bool {
        self.rows * self.cols <= self.entries.len()
    }

    /// The entries are exactly the `rows * cols` cells.
    pub open spec fn exact(self) -> bool {
        self.entries.len() == self.rows * self.cols
    }

    /// Row `i` lies within the stored entries.
    pub open spec fn has_row(self, i: int) -> bool {
        0 <= i && (i + 1) * self.cols <= self.entries.len()
    }

    /// Index `k` of the entries lies in row `i`.
    pub open spec fn in_row(self, i: int, k: int) -> bool {
        i * self.cols <= k < i * self.cols + self.cols
    }

    pub open spec fn in_range(self, r: int, c: int) -> bool {
        0 <= r < self.rows && 0 <= c < self.cols
    }

    pub open spec fn at(self, r: int, c: int) -> F {
        flat_at(self.entries, self.cols, r, c)
    }
}

/// The left fold `0 + a(r, 0) * b(0, c) + ... + a(r, n - 1) * b(n - 1, c)`.
pub open spec fn dot<F: Field>(a: MatModel<F>, b: MatModel<F>, r: int, c: int, n: nat) -> F
    decreases n,
{
    if n == 0 {
        F::zero_spec()
    } else {
        dot(a, b, r, c, (n - 1) as nat).add_spec(
            a.at(r, n - 1).mul_spec(b.at(n - 1, c)),
        )
    }
}

impl<F: Field> MatModel<F> {
    /// Entry-wise sum over the entries both matrices store, with the dimensions of `self`.
    pub open spec fn plus(self, other: MatModel<F>) -> MatModel<F> {
        let n = if self.entries.len() <= other.entries.len() {
            self.entries.len()
        } else {
            other.entries.len()
        };
        MatModel { entries: Seq::new(n, |k: int| self.entries[k].add_spec(other.entries[k])), ..self }
    }

    /// Every entry `x` replaced by `x * s`.
    pub open spec fn times_scalar(self, s: F) -> MatModel<F> {
        MatModel {
            entries: Seq::new(self.entries.len(), |k: int| self.entries[k].mul_spec(s)),
            ..self
        }
    }

    /// Entry `(r, c)` of the product `self * other`.
    pub open spec fn product_at(self, other: MatModel<F>, r: int, c: int) -> F {
        dot(self, other, r, c, self.cols)
    }

    /// Row `i` multiplied, entry by entry, by `s` from the left.
    pub open spec fn scaled_row(self, i: int, s: F) -> MatModel<F> {
        MatModel {
            entries: Seq::new(
                self.entries.len(),
                |k: int|
                    if self.in_row(i, k) {
                        s.mul_spec(self.entries[k])
                    } else {
                        self.entries[k]
                    },
            ),
            ..self
        }
    }

    /// Rows `s` and `t` exchanged.
    pub open spec fn rows_swapped(self, s: int, t: int) -> MatModel<F> {
        MatModel {
            entries: Seq::new(
                self.entries.len(),
                |k: int|
                    if self.in_row(s, k) {
                        self.entries[k - s * self.cols + t * self.cols]
                    } else if self.in_row(t, k) {
                        self.entries[k - t * self.cols + s * self.cols]
                    } else {
                        self.entries[k]
                    },
            ),
            ..self
        }
    }

    /// Row `target` plus row `source` times `scalar`, in place of row `target`.
    pub open spec fn row_replaced(self, source: int, target: int, scalar: F) -> MatModel<F> {
        MatModel {
            entries: Seq::new(
                self.entries.len(),
                |k: int|
                    if self.in_row(target, k) {
                        self.entries[k].add_spec(
                            self.entries[k - target * self.cols + source * self.cols].mul_spec(
                                scalar,
                            ),
                        )
                    } else {
                        self.entries[k]
                    },
            ),
            ..self
        }
    }
}

/// `r * cols + c` is a valid, strictly increasing row-major index.
pub proof fn lemma_flat_index(rows: nat, cols: nat, r: int, c: int)
    requires
        0 <= r < rows,
        0 <= c < cols,
    ensures
        0 <= r * cols + c < rows * cols,
        r * cols + c < (r + 1) * cols,
        (r + 1) * cols == r * cols + cols,
        (r + 1) * cols <= rows * cols,
{
    assert(0 <= r * cols) by (nonlinear_arith)
        requires
            0 <= r,
            0 <= cols,
    ;
    assert((r + 1) * cols == r * cols + cols) by (nonlinear_arith);
    assert((r + 1) * cols <= rows * cols) by (nonlinear_arith)
        requires
            r + 1 <= rows,
            0 <= cols,
    ;
}

/// One more row adds `cols` cells.
pub proof fn lemma_row_step(cols: nat, r: int)
    ensures
        (r + 1) * cols == r * cols + cols,
{
    assert((r + 1) * cols == r * cols + cols) by (nonlinear_arith);
}

/// Two rows of `cols` cells either coincide or do not overlap.
pub proof fn lemma_rows_disjoint(cols: nat, s: int, t: int)
    requires
        0 <= s,
        0 <= t,
    ensures
        s * cols == t * cols || s * cols + cols <= t * cols || t * cols + cols <= s * cols,
{
    if s < t {
        assert(s * cols + cols <= t * cols) by (nonlinear_arith)
            requires
                s + 1 <= t,
        ;
    } else if t < s {
        assert(t * cols + cols <= s * cols) by (nonlinear_arith)
            requires
                t + 1 <= s,
        ;
    }
}

/// Earlier rows occupy lower row-major indices.
pub proof fn lemma_flat_order(cols: nat, r1: int, c1: int, r2: int, c2: int)
    requires
        0 <= r1,
        0 <= c1 < cols,
        0 <= c2 < cols,
        r1 < r2 || (r1 == r2 && c1 < c2),
    ensures
        r1 * cols + c1 < r2 * cols + c2,
{
    if r1 < r2 {
        assert(r1 * cols + cols <= r2 * cols) by (nonlinear_arith)
            requires
                r1 + 1 <= r2,
                0 <= cols,
        ;
    }
}

/// The entry of an identity matrix: one on the diagonal, zero elsewhere.
pub open spec fn delta<F: Field>(r: int, c: int) -> F {
    if r == c {
        F::one_spec()
    } else {
        F::zero_spec()
    }
}

/// Entry `(r, c)` of the square matrix that scales row `i` by `scale`.
pub open spec fn scale_mat_entry<F: Field>(i: int, scale: F, r: int, c: int) -> F {
    if r == c && r == i {
        scale
    } else {
        delta(r, c)
    }
}

/// Entry `(r, c)` of the square matrix that exchanges rows `source` and `target`.
pub open spec fn permutation_entry<F: Field>(source: int, target: int, r: int, c: int) -> F {
    if (r == source && c == target) || (c == source && r == target) || (r == c && r != source
        && c != target) {
        F::one_spec()
    } else {
        F::zero_spec()
    }
}

/// Entry `(r, c)` of the square matrix that adds `scalar` times row `source` to row `target`.
/// Where the two rows coincide, the diagonal entry of that row is `1 + scalar`.
pub open spec fn replacement_entry<F: Field>(source: int, target: int, scalar: F, r: int, c: int) -> F {
    if c == source && r == target {
        if source == target {
            F::one_spec().add_spec(scalar)
        } else {
            scalar
        }
    } else {
        delta(r, c)
    }
}

/// The `rows * cols` matrix whose entry `(r, c)` is `f(r, c)`.
pub open spec fn from_fn<F>(rows: nat, cols: nat, f: spec_fn(int, int) -> F) -> MatModel<F> {
    MatModel {
        rows,
        cols,
        entries: Seq::new(rows * cols, |k: int| f(k / (cols as int), k % (cols as int))),
    }
}

/// The cells of `from_fn(rows, cols, f)` are the values of `f`.
pub proof fn lemma_from_fn_at<F>(rows: nat, cols: nat, f: spec_fn(int, int) -> F, r: int, c: int)
    requires
        0 <= r < rows,
        0 <= c < cols,
    ensures
        from_fn(rows, cols, f).exact(),
        from_fn(rows, cols, f).at(r, c) == f(r, c),
{
    lemma_flat_index(rows, cols, r, c);
    lemma_fundamental_div_mod_converse(r * cols + c, cols as int, r, c);
}

/// Two matrices with exactly their cells stored, the same dimensions and the same cells are
/// equal.
pub proof fn lemma_ext<F>(a: MatModel<F>, b: MatModel<F>)
    requires
        a.exact(),
        b.exact(),
        a.rows == b.rows,
        a.cols == b.cols,
        forall|r: int, c: int| #[trigger] a.in_range(r, c) ==> a.at(r, c) == b.at(r, c),
    ensures
        a == b,
{
    assert forall|k: int| 0 <= k < a.entries.len() implies a.entries[k] == b.entries[k] by {
        let cols = a.cols as int;
        let r = k / cols;
        let c = k % cols;
        assert(cols > 0) by (nonlinear_arith)
            requires
                0 <= k < a.rows * a.cols,
                0 <= a.rows,
                cols == a.cols,
        ;
        vstd::arithmetic::div_mod::lemma_fundamental_div_mod(k, cols);
        assert(r * cols == cols * r) by (nonlinear_arith);
        assert(0 <= c < cols);
        assert(0 <= r) by (nonlinear_arith)
            requires
                0 <= k,
                cols > 0,
                r == k / cols,
        ;
        assert(r < a.rows) by (nonlinear_arith)
            requires
                k < a.rows * cols,
                k == r * cols + c,
                0 <= c,
                cols > 0,
        ;
        assert(a.in_range(r, c));
        assert(a.at(r, c) == a.entries[k]);
    }
    assert(a.entries =~= b.entries);
}

/// A matrix whose dimensions, storage and cells match those of `from_fn(rows, cols, f)` is it.
pub proof fn lemma_is_from_fn<F>(m: MatModel<F>, rows: nat, cols: nat, f: spec_fn(int, int) -> F)
    requires
        m.exact(),
        m.rows == rows,
        m.cols == cols,
        forall|r: int, c: int| #[trigger] m.in_range(r, c) ==> m.at(r, c) == f(r, c),
    ensures
        m == from_fn(rows, cols, f),
{
    assert forall|r: int, c: int| #[trigger] m.in_range(r, c) implies m.at(r, c) == from_fn(
        rows,
        cols,
        f,
    ).at(r, c) by {
        lemma_from_fn_at(rows, cols, f, r, c);
    }
    assert(from_fn(rows, cols, f).exact());
    lemma_ext(m, from_fn(rows, cols, f));
}

/// `yes` where `b` holds, else `no`.
pub open spec fn choose_entry<F>(b: bool, yes: F, no: F) -> F {
    if b {
        yes
    } else {
        no
    }
}

/// The `n * n` identity matrix.
pub open spec fn identity_model<F: Field>(n: nat) -> MatModel<F> {
    from_fn(n, n, |r: int, c: int| delta::<F>(r, c))
}

/// The `k`th standard basis vector of dimension `n`, as an `n * 1` matrix.
pub open spec fn basis_model<F: Field>(k: int, n: nat) -> MatModel<F> {
    from_fn(n, 1, |r: int, c: int| delta::<F>(r, k))
}

/// The `rows * cols` zero matrix.
pub open spec fn zero_model<F: Field>(rows: nat, cols: nat) -> MatModel<F> {
    from_fn(rows, cols, |r: int, c: int| F::zero_spec())
}

/// The `rows * rows` matrix that scales row `i` by `s`.
pub open spec fn scale_mat_model<F: Field>(rows: nat, i: int, s: F) -> MatModel<F> {
    from_fn(rows, rows, |r: int, c: int| scale_mat_entry(i, s, r, c))
}

/// The `rows * rows` matrix that exchanges rows `source` and `target`.
pub open spec fn permutation_model<F: Field>(rows: nat, source: int, target: int) -> MatModel<F> {
    from_fn(rows, rows, |r: int, c: int| permutation_entry::<F>(source, target, r, c))
}

/// The square matrix whose row `r` has its one in column `p[r]`.
pub open spec fn permutation_vec_model<F: Field>(p: Seq<usize>) -> MatModel<F> {
    from_fn(
        p.len(),
        p.len(),
        |r: int, c: int| choose_entry(p[r] == c, F::one_spec(), F::zero_spec()),
    )
}

/// The `rows * rows` matrix that adds `scalar` times row `source` to row `target`.
pub open spec fn replacement_model<F: Field>(rows: nat, source: int, target: int, scalar: F) -> MatModel<F> {
    from_fn(rows, rows, |r: int, c: int| replacement_entry(source, target, scalar, r, c))
}

impl<F> MatModel<F> {
    /// The transpose.
    pub open spec fn transposed(self) -> MatModel<F> {
        from_fn(self.cols, self.rows, |c: int, r: int| self.at(r, c))
    }

    /// Row `i` as a `cols * 1` column vector.
    pub open spec fn row_vector(self, i: int) -> MatModel<F> {
        from_fn(self.cols, 1, |c: int, z: int| self.at(i, c))
    }

    /// The matrix whose row `r` is row `p[r]` of `self`.
    pub open spec fn rows_permuted(self, p: Seq<usize>) -> MatModel<F> {
        from_fn(self.rows, self.cols, |r: int, c: int| self.at(p[r] as int, c))
    }

    /// Column `j` as a `rows * 1` column vector.
    pub open spec fn col_vector(self, j: int) -> MatModel<F> {
        from_fn(self.rows, 1, |r: int, z: int| self.at(r, j))
    }
}

impl<F: Field> MatModel<F> {
    /// The matrix product `self * other`.
    pub open spec fn product(self, other: MatModel<F>) -> MatModel<F> {
        from_fn(self.rows, other.cols, |r: int, c: int| self.product_at(other, r, c))
    }
}

/// Entry `k` of `a - b`, computed as `a + (0 - 1) * b`.
pub open spec fn diff_at<F: Field>(a: MatModel<F>, b: MatModel<F>, k: int) -> F {
    a.entries[k].add_spec(F::zero_spec().sub_spec(F::one_spec()).mul_spec(b.entries[k]))
}

/// The left fold `0 + d(0) * d(0) + ... + d(n - 1) * d(n - 1)` of the squared differences
/// `d(k) = diff_at(a, b, k)`.
pub open spec fn squared_distance_upto<F: Field>(a: MatModel<F>, b: MatModel<F>, n: nat) -> F
    decreases n,
{
    if n == 0 {
        F::zero_spec()
    } else {
        squared_distance_upto(a, b, (n - 1) as nat).add_spec(
            diff_at(a, b, n - 1).mul_spec(diff_at(a, b, n - 1)),
        )
    }
}

} // verus!
