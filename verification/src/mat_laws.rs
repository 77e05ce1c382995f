use vstd::prelude::*;

use crate::field::Field;
use crate::mat_model::{
    basis_model, delta, dot, identity_model, lemma_ext, lemma_flat_index, lemma_flat_order,
    lemma_from_fn_at, lemma_rows_disjoint, lemma_row_step, permutation_entry, permutation_model,
    permutation_vec_model, replacement_entry, replacement_model, scale_mat_entry, scale_mat_model,
    choose_entry, MatModel,
};

verus! {

/// Row `r` of `a` is zero outside column `j`: the dot product keeps the one term at `j`.
pub proof fn lemma_dot_single_in_row<F: Field>(
    a: MatModel<F>,
    b: MatModel<F>,
    r: int,
    c: int,
    n: nat,
    j: int,
)
    requires
        forall|k: int| 0 <= k < n && k != j ==> #[trigger] a.at(r, k) == F::zero_spec(),
    ensures
        dot(a, b, r, c, n) == (if 0 <= j < n {
            a.at(r, j).mul_spec(b.at(j, c))
        } else {
            F::zero_spec()
        }),
    decreases n,
{
    if n > 0 {
        let m = (n - 1) as nat;
        lemma_dot_single_in_row(a, b, r, c, m, j);
        let t = a.at(r, m as int).mul_spec(b.at(m as int, c));
        if m == j {
            F::lemma_add_comm(F::zero_spec(), t);
            F::lemma_add_zero(t);
        } else {
            F::lemma_mul_zero(b.at(m as int, c));
            F::lemma_add_zero(dot(a, b, r, c, m));
        }
    }
}

/// Column `c` of `b` is zero outside row `j`: the dot product keeps the one term at `j`.
pub proof fn lemma_dot_single_in_col<F: Field>(
    a: MatModel<F>,
    b: MatModel<F>,
    r: int,
    c: int,
    n: nat,
    j: int,
)
    requires
        forall|k: int| 0 <= k < n && k != j ==> #[trigger] b.at(k, c) == F::zero_spec(),
    ensures
        dot(a, b, r, c, n) == (if 0 <= j < n {
            a.at(r, j).mul_spec(b.at(j, c))
        } else {
            F::zero_spec()
        }),
    decreases n,
{
    if n > 0 {
        let m = (n - 1) as nat;
        lemma_dot_single_in_col(a, b, r, c, m, j);
        let t = a.at(r, m as int).mul_spec(b.at(m as int, c));
        if m == j {
            F::lemma_add_comm(F::zero_spec(), t);
            F::lemma_add_zero(t);
        } else {
            F::lemma_mul_comm(a.at(r, m as int), F::zero_spec());
            F::lemma_mul_zero(a.at(r, m as int));
            F::lemma_add_zero(dot(a, b, r, c, m));
        }
    }
}

/// Row `r` of `a` is zero outside columns `j1 < j2`: the dot product is the sum of those two
/// terms, in column order.
pub proof fn lemma_dot_pair_in_row<F: Field>(
    a: MatModel<F>,
    b: MatModel<F>,
    r: int,
    c: int,
    n: nat,
    j1: int,
    j2: int,
)
    requires
        0 <= j1 < j2 < n,
        forall|k: int| 0 <= k < n && k != j1 && k != j2 ==> #[trigger] a.at(r, k) == F::zero_spec(),
    ensures
        dot(a, b, r, c, n) == a.at(r, j1).mul_spec(b.at(j1, c)).add_spec(
            a.at(r, j2).mul_spec(b.at(j2, c)),
        ),
    decreases n,
{
    let m = (n - 1) as nat;
    if m == j2 {
        lemma_dot_single_in_row(a, b, r, c, m, j1);
    } else {
        lemma_dot_pair_in_row(a, b, r, c, m, j1, j2);
        F::lemma_mul_zero(b.at(m as int, c));
        F::lemma_add_zero(dot(a, b, r, c, m));
    }
}

/// Index `r * cols + c`, for a column `c`, lies in row `i` exactly when `r == i`.
pub proof fn lemma_in_row<F>(a: MatModel<F>, i: int, r: int, c: int)
    requires
        0 <= i,
        0 <= r,
        0 <= c < a.cols,
    ensures
        a.in_row(i, r * a.cols + c) <==> r == i,
{
    if r < i {
        lemma_flat_order(a.cols, r, c, i, 0);
    } else if i < r {
        lemma_flat_order(a.cols, i, (a.cols - 1) as int, r, c);
    }
}

/// Transposing twice gives the matrix back.
pub proof fn law_transpose_involution<F>(a: MatModel<F>)
    requires
        a.exact(),
    ensures
        a.transposed().transposed() == a,
{
    let t = a.transposed();
    assert forall|r: int, c: int| #[trigger] t.transposed().in_range(r, c) implies t.transposed().at(
        r,
        c,
    ) == a.at(r, c) by {
        lemma_from_fn_at(t.cols, t.rows, |c: int, r: int| t.at(r, c), r, c);
        lemma_from_fn_at(a.cols, a.rows, |c: int, r: int| a.at(r, c), c, r);
    }
    if a.rows > 0 && a.cols > 0 {
        lemma_from_fn_at(t.cols, t.rows, |c: int, r: int| t.at(r, c), 0, 0);
    }
    assert(t.transposed().exact());
    lemma_ext(t.transposed(), a);
}

/// The identity matrix is a left identity of the product.
pub proof fn law_identity_left<F: Field>(a: MatModel<F>)
    requires
        a.exact(),
    ensures
        identity_model::<F>(a.rows).product(a) == a,
{
    let i = identity_model::<F>(a.rows);
    let p = i.product(a);
    assert forall|r: int, c: int| #[trigger] p.in_range(r, c) implies p.at(r, c) == a.at(r, c) by {
        lemma_from_fn_at(a.rows, a.cols, |r: int, c: int| i.product_at(a, r, c), r, c);
        assert forall|k: int| 0 <= k < i.cols && k != r implies #[trigger] i.at(r, k)
            == F::zero_spec() by {
            lemma_from_fn_at(a.rows, a.rows, |r: int, c: int| delta::<F>(r, c), r, k);
        }
        lemma_dot_single_in_row(i, a, r, c, i.cols, r);
        lemma_from_fn_at(a.rows, a.rows, |r: int, c: int| delta::<F>(r, c), r, r);
        F::lemma_mul_one(a.at(r, c));
    }
    assert(p.exact());
    lemma_ext(p, a);
}

/// The identity matrix is a right identity of the product.
pub proof fn law_identity_right<F: Field>(a: MatModel<F>)
    requires
        a.exact(),
    ensures
        a.product(identity_model::<F>(a.cols)) == a,
{
    let i = identity_model::<F>(a.cols);
    let p = a.product(i);
    assert forall|r: int, c: int| #[trigger] p.in_range(r, c) implies p.at(r, c) == a.at(r, c) by {
        lemma_from_fn_at(a.rows, a.cols, |r: int, c: int| a.product_at(i, r, c), r, c);
        assert forall|k: int| 0 <= k < a.cols && k != c implies #[trigger] i.at(k, c)
            == F::zero_spec() by {
            lemma_from_fn_at(a.cols, a.cols, |r: int, c: int| delta::<F>(r, c), k, c);
        }
        lemma_dot_single_in_col(a, i, r, c, a.cols, c);
        lemma_from_fn_at(a.cols, a.cols, |r: int, c: int| delta::<F>(r, c), c, c);
        F::lemma_mul_comm(a.at(r, c), F::one_spec());
        F::lemma_mul_one(a.at(r, c));
    }
    assert(p.exact());
    lemma_ext(p, a);
}

/// The cells of a matrix with one row scaled.
pub proof fn lemma_scaled_row_at<F: Field>(a: MatModel<F>, i: int, s: F, r: int, c: int)
    requires
        a.exact(),
        0 <= i,
        a.in_range(r, c),
    ensures
        a.scaled_row(i, s).at(r, c) == (if r == i {
            s.mul_spec(a.at(r, c))
        } else {
            a.at(r, c)
        }),
{
    lemma_flat_index(a.rows, a.cols, r, c);
    lemma_in_row(a, i, r, c);
}

/// The cells of a matrix with two rows exchanged.
pub proof fn lemma_rows_swapped_at<F: Field>(a: MatModel<F>, s: int, t: int, r: int, c: int)
    requires
        a.exact(),
        0 <= s < a.rows,
        0 <= t < a.rows,
        a.in_range(r, c),
    ensures
        a.rows_swapped(s, t).at(r, c) == (if r == s {
            a.at(t, c)
        } else if r == t {
            a.at(s, c)
        } else {
            a.at(r, c)
        }),
{
    lemma_flat_index(a.rows, a.cols, r, c);
    lemma_in_row(a, s, r, c);
    lemma_in_row(a, t, r, c);
}

/// The cells of a matrix with one row replaced.
pub proof fn lemma_row_replaced_at<F: Field>(
    a: MatModel<F>,
    source: int,
    target: int,
    scalar: F,
    r: int,
    c: int,
)
    requires
        a.exact(),
        0 <= source < a.rows,
        0 <= target < a.rows,
        a.in_range(r, c),
    ensures
        a.row_replaced(source, target, scalar).at(r, c) == (if r == target {
            a.at(r, c).add_spec(a.at(source, c).mul_spec(scalar))
        } else {
            a.at(r, c)
        }),
{
    lemma_flat_index(a.rows, a.cols, r, c);
    lemma_in_row(a, target, r, c);
}

/// Multiplying on the left by `scale_mat(rows, i, s)` scales row `i` by `s`.
pub proof fn law_scale_mat<F: Field>(a: MatModel<F>, i: int, s: F)
    requires
        a.exact(),
        0 <= i < a.rows,
    ensures
        scale_mat_model(a.rows, i, s).product(a) == a.scaled_row(i, s),
{
    let e = scale_mat_model(a.rows, i, s);
    let p = e.product(a);
    let q = a.scaled_row(i, s);
    assert forall|r: int, c: int| #[trigger] p.in_range(r, c) implies p.at(r, c) == q.at(r, c) by {
        lemma_from_fn_at(a.rows, a.cols, |r: int, c: int| e.product_at(a, r, c), r, c);
        assert forall|k: int| 0 <= k < e.cols && k != r implies #[trigger] e.at(r, k)
            == F::zero_spec() by {
            lemma_from_fn_at(a.rows, a.rows, |r: int, c: int| scale_mat_entry(i, s, r, c), r, k);
        }
        lemma_dot_single_in_row(e, a, r, c, e.cols, r);
        lemma_from_fn_at(a.rows, a.rows, |r: int, c: int| scale_mat_entry(i, s, r, c), r, r);
        F::lemma_mul_one(a.at(r, c));
        lemma_scaled_row_at(a, i, s, r, c);
    }
    assert(p.exact());
    lemma_ext(p, q);
}

/// Multiplying on the left by `permutation(rows, s, t)` exchanges rows `s` and `t`.
pub proof fn law_permutation<F: Field>(a: MatModel<F>, s: int, t: int)
    requires
        a.exact(),
        0 <= s < a.rows,
        0 <= t < a.rows,
    ensures
        permutation_model::<F>(a.rows, s, t).product(a) == a.rows_swapped(s, t),
{
    let e = permutation_model::<F>(a.rows, s, t);
    let p = e.product(a);
    let q = a.rows_swapped(s, t);
    assert forall|r: int, c: int| #[trigger] p.in_range(r, c) implies p.at(r, c) == q.at(r, c) by {
        let j = if r == s {
            t
        } else if r == t {
            s
        } else {
            r
        };
        lemma_from_fn_at(a.rows, a.cols, |r: int, c: int| e.product_at(a, r, c), r, c);
        assert forall|k: int| 0 <= k < e.cols && k != j implies #[trigger] e.at(r, k)
            == F::zero_spec() by {
            lemma_from_fn_at(
                a.rows,
                a.rows,
                |r: int, c: int| permutation_entry::<F>(s, t, r, c),
                r,
                k,
            );
        }
        lemma_dot_single_in_row(e, a, r, c, e.cols, j);
        lemma_from_fn_at(a.rows, a.rows, |r: int, c: int| permutation_entry::<F>(s, t, r, c), r, j);
        F::lemma_mul_one(a.at(j, c));
        lemma_rows_swapped_at(a, s, t, r, c);
    }
    assert(p.exact());
    lemma_ext(p, q);
}

/// Multiplying on the left by `replacement(rows, source, target, scalar)` adds `scalar` times
/// row `source` to row `target`.
pub proof fn law_replacement<F: Field>(a: MatModel<F>, source: int, target: int, scalar: F)
    requires
        a.exact(),
        0 <= source < a.rows,
        0 <= target < a.rows,
    ensures
        replacement_model(a.rows, source, target, scalar).product(a) == a.row_replaced(
            source,
            target,
            scalar,
        ),
{
    let e = replacement_model(a.rows, source, target, scalar);
    let p = e.product(a);
    let q = a.row_replaced(source, target, scalar);
    assert forall|r: int, c: int| #[trigger] p.in_range(r, c) implies p.at(r, c) == q.at(r, c) by {
        lemma_from_fn_at(a.rows, a.cols, |r: int, c: int| e.product_at(a, r, c), r, c);
        lemma_row_replaced_at(a, source, target, scalar, r, c);
        lemma_from_fn_at(
            a.rows,
            a.rows,
            |r: int, c: int| replacement_entry(source, target, scalar, r, c),
            r,
            r,
        );
        F::lemma_mul_one(a.at(r, c));
        if r == target && source == target {
            assert forall|k: int| 0 <= k < e.cols && k != r implies #[trigger] e.at(r, k)
                == F::zero_spec() by {
                lemma_from_fn_at(
                    a.rows,
                    a.rows,
                    |r: int, c: int| replacement_entry(source, target, scalar, r, c),
                    r,
                    k,
                );
            }
            lemma_dot_single_in_row(e, a, r, c, e.cols, r);
            let x = a.at(r, c);
            F::lemma_mul_comm(F::one_spec().add_spec(scalar), x);
            F::lemma_distrib(x, F::one_spec(), scalar);
            F::lemma_mul_comm(x, F::one_spec());
        } else if r == target {
            lemma_from_fn_at(
                a.rows,
                a.rows,
                |r: int, c: int| replacement_entry(source, target, scalar, r, c),
                r,
                source,
            );
            assert forall|k: int| 0 <= k < e.cols && k != source && k != target implies #[trigger] e.at(
                r,
                k,
            ) == F::zero_spec() by {
                lemma_from_fn_at(
                    a.rows,
                    a.rows,
                    |r: int, c: int| replacement_entry(source, target, scalar, r, c),
                    r,
                    k,
                );
            }
            let x = a.at(target, c);
            let y = a.at(source, c);
            F::lemma_mul_comm(scalar, y);
            if source < target {
                lemma_dot_pair_in_row(e, a, r, c, e.cols, source, target);
                F::lemma_add_comm(y.mul_spec(scalar), x);
            } else {
                lemma_dot_pair_in_row(e, a, r, c, e.cols, target, source);
            }
        } else {
            assert forall|k: int| 0 <= k < e.cols && k != r implies #[trigger] e.at(r, k)
                == F::zero_spec() by {
                lemma_from_fn_at(
                    a.rows,
                    a.rows,
                    |r: int, c: int| replacement_entry(source, target, scalar, r, c),
                    r,
                    k,
                );
            }
            lemma_dot_single_in_row(e, a, r, c, e.cols, r);
        }
    }
    assert(p.exact());
    lemma_ext(p, q);
}

/// Multiplying on the left by `permutation_from_vec(p)` moves row `p[r]` to row `r`.
pub proof fn law_permutation_from_vec<F: Field>(a: MatModel<F>, p: Seq<usize>)
    requires
        a.rows == p.len(),
        forall|i: int| 0 <= i < p.len() ==> #[trigger] p[i] < p.len(),
    ensures
        permutation_vec_model::<F>(p).product(a) == a.rows_permuted(p),
{
    let e = permutation_vec_model::<F>(p);
    let m = e.product(a);
    let q = a.rows_permuted(p);
    assert forall|r: int, c: int| #[trigger] m.in_range(r, c) implies m.at(r, c) == q.at(r, c) by {
        let f = |r: int, c: int| choose_entry(p[r] == c, F::one_spec(), F::zero_spec());
        lemma_from_fn_at(a.rows, a.cols, |r: int, c: int| e.product_at(a, r, c), r, c);
        lemma_from_fn_at(a.rows, a.cols, |r: int, c: int| a.at(p[r] as int, c), r, c);
        assert forall|k: int| 0 <= k < e.cols && k != p[r] implies #[trigger] e.at(r, k)
            == F::zero_spec() by {
            lemma_from_fn_at(p.len(), p.len(), f, r, k);
        }
        lemma_dot_single_in_row(e, a, r, c, e.cols, p[r] as int);
        lemma_from_fn_at(p.len(), p.len(), f, r, p[r] as int);
        F::lemma_mul_one(a.at(p[r] as int, c));
    }
    if a.rows > 0 && a.cols > 0 {
        lemma_from_fn_at(a.rows, a.cols, |r: int, c: int| a.at(p[r] as int, c), 0, 0);
    }
    assert(m.exact());
    assert(q.exact());
    lemma_ext(m, q);
}

/// Multiplying on the right by the `k`th standard basis vector picks out column `k`.
pub proof fn law_basis_picks_column<F: Field>(a: MatModel<F>, k: int)
    requires
        0 <= k < a.cols,
    ensures
        a.product(basis_model::<F>(k, a.cols)) == a.col_vector(k),
{
    let b = basis_model::<F>(k, a.cols);
    let m = a.product(b);
    let q = a.col_vector(k);
    assert forall|r: int, c: int| #[trigger] m.in_range(r, c) implies m.at(r, c) == q.at(r, c) by {
        lemma_from_fn_at(a.rows, 1, |r: int, c: int| a.product_at(b, r, c), r, c);
        lemma_from_fn_at(a.rows, 1, |r: int, z: int| a.at(r, k), r, c);
        assert forall|j: int| 0 <= j < a.cols && j != k implies #[trigger] b.at(j, c)
            == F::zero_spec() by {
            lemma_from_fn_at(a.cols, 1, |r: int, c: int| delta::<F>(r, k), j, c);
        }
        lemma_dot_single_in_col(a, b, r, c, a.cols, k);
        lemma_from_fn_at(a.cols, 1, |r: int, c: int| delta::<F>(r, k), k, c);
        F::lemma_mul_comm(a.at(r, k), F::one_spec());
        F::lemma_mul_one(a.at(r, k));
    }
    assert(m.exact());
    assert(q.exact());
    lemma_ext(m, q);
}

/// Matrix addition is commutative.
pub proof fn law_add_comm<F: Field>(a: MatModel<F>, b: MatModel<F>)
    requires
        a.rows == b.rows,
        a.cols == b.cols,
    ensures
        a.plus(b) == b.plus(a),
{
    assert forall|k: int| 0 <= k < a.plus(b).entries.len() implies a.plus(b).entries[k] == b.plus(
        a,
    ).entries[k] by {
        F::lemma_add_comm(a.entries[k], b.entries[k]);
    }
    assert(a.plus(b).entries =~= b.plus(a).entries);
}

/// Exchanging the same two rows twice gives the matrix back.
pub proof fn law_rows_swapped_twice<F: Field>(a: MatModel<F>, s: int, t: int)
    requires
        a.has_row(s),
        a.has_row(t),
    ensures
        a.rows_swapped(s, t).rows_swapped(s, t) == a,
{
    let m = a.rows_swapped(s, t);
    let so = s * a.cols;
    let to = t * a.cols;
    lemma_row_step(a.cols, s);
    lemma_row_step(a.cols, t);
    lemma_rows_disjoint(a.cols, s, t);
    assert forall|k: int| 0 <= k < a.entries.len() implies m.rows_swapped(s, t).entries[k]
        == a.entries[k] by {
        if so <= k < so + a.cols {
            let k2 = k - so + to;
            if to <= k2 < to + a.cols && !(so <= k2 < so + a.cols) {
            }
        } else if to <= k < to + a.cols {
        }
    }
    assert(m.rows_swapped(s, t).entries =~= a.entries);
}

/// The `k`th standard basis vector is column `k` of the identity matrix.
pub proof fn law_basis_is_identity_column<F: Field>(n: nat, k: int)
    requires
        0 <= k < n,
    ensures
        identity_model::<F>(n).col_vector(k) == basis_model::<F>(k, n),
{
    let i = identity_model::<F>(n);
    let q = i.col_vector(k);
    let b = basis_model::<F>(k, n);
    assert forall|r: int, c: int| #[trigger] q.in_range(r, c) implies q.at(r, c) == b.at(r, c) by {
        lemma_from_fn_at(n, 1, |r: int, z: int| i.at(r, k), r, c);
        lemma_from_fn_at(n, 1, |r: int, c: int| delta::<F>(r, k), r, c);
        lemma_from_fn_at(n, n, |r: int, c: int| delta::<F>(r, c), r, k);
    }
    assert(q.exact());
    assert(b.exact());
    lemma_ext(q, b);
}

proof fn lemma_dot_transposed<F: Field>(a: MatModel<F>, b: MatModel<F>, r: int, c: int, n: nat)
    requires
        a.cols == b.rows,
        0 <= r < a.rows,
        0 <= c < b.cols,
        n <= a.cols,
    ensures
        dot(b.transposed(), a.transposed(), c, r, n) == dot(a, b, r, c, n),
    decreases n,
{
    if n > 0 {
        let k = n - 1;
        lemma_dot_transposed(a, b, r, c, (n - 1) as nat);
        lemma_from_fn_at(b.cols, b.rows, |c: int, r: int| b.at(r, c), c, k);
        lemma_from_fn_at(a.cols, a.rows, |c: int, r: int| a.at(r, c), k, r);
        F::lemma_mul_comm(b.at(k, c), a.at(r, k));
    }
}

/// The transpose of a product is the product of the transposes, in reverse order.
pub proof fn law_transpose_of_product<F: Field>(a: MatModel<F>, b: MatModel<F>)
    requires
        a.cols == b.rows,
    ensures
        a.product(b).transposed() == b.transposed().product(a.transposed()),
{
    let p = a.product(b);
    let lhs = p.transposed();
    let rhs = b.transposed().product(a.transposed());
    assert forall|c: int, r: int| #[trigger] lhs.in_range(c, r) implies lhs.at(c, r) == rhs.at(
        c,
        r,
    ) by {
        lemma_from_fn_at(p.cols, p.rows, |c: int, r: int| p.at(r, c), c, r);
        lemma_from_fn_at(a.rows, b.cols, |r: int, c: int| a.product_at(b, r, c), r, c);
        lemma_from_fn_at(
            b.cols,
            a.rows,
            |c: int, r: int| b.transposed().product_at(a.transposed(), c, r),
            c,
            r,
        );
        lemma_dot_transposed(a, b, r, c, a.cols);
    }
    if b.cols > 0 && a.rows > 0 {
        lemma_from_fn_at(p.cols, p.rows, |c: int, r: int| p.at(r, c), 0, 0);
    }
    assert(lhs.exact());
    assert(rhs.exact());
    lemma_ext(lhs, rhs);
}

/// Scaling a row by `k` and then by an inverse of `k` gives the matrix back.
pub proof fn law_scale_then_inverse<F: Field>(a: MatModel<F>, i: int, k: F, kinv: F)
    requires
        kinv.mul_spec(k) == F::one_spec(),
    ensures
        a.scaled_row(i, k).scaled_row(i, kinv) == a,
{
    let m = a.scaled_row(i, k).scaled_row(i, kinv);
    assert forall|j: int| 0 <= j < a.entries.len() implies m.entries[j] == a.entries[j] by {
        if a.in_row(i, j) {
            F::lemma_mul_assoc(kinv, k, a.entries[j]);
            F::lemma_mul_one(a.entries[j]);
        }
    }
    assert(m.entries =~= a.entries);
}

/// Scaling a row by one leaves the matrix as it is.
pub proof fn law_scale_by_one<F: Field>(a: MatModel<F>, i: int)
    ensures
        a.scaled_row(i, F::one_spec()) == a,
{
    let m = a.scaled_row(i, F::one_spec());
    assert forall|j: int| 0 <= j < a.entries.len() implies m.entries[j] == a.entries[j] by {
        F::lemma_mul_one(a.entries[j]);
    }
    assert(m.entries =~= a.entries);
}

/// Adding `k` times row `source` to a different row `target`, and then `0 - k` times row
/// `source`, gives the matrix back.
pub proof fn law_replace_then_negated<F: Field>(a: MatModel<F>, source: int, target: int, k: F)
    requires
        a.has_row(source),
        a.has_row(target),
        source != target,
    ensures
        a.row_replaced(source, target, k).row_replaced(
            source,
            target,
            F::zero_spec().sub_spec(k),
        ) == a,
{
    let nk = F::zero_spec().sub_spec(k);
    let m1 = a.row_replaced(source, target, k);
    let m2 = m1.row_replaced(source, target, nk);
    let cols = a.cols;
    lemma_row_step(cols, source);
    lemma_row_step(cols, target);
    lemma_rows_disjoint(cols, source, target);
    assert forall|j: int| 0 <= j < a.entries.len() implies m2.entries[j] == a.entries[j] by {
        if a.in_row(target, j) {
            let j2 = j - target * cols + source * cols;
            assert(source * cols != target * cols) by (nonlinear_arith)
                requires
                    source != target,
                    cols > 0,
            ;
            assert(!a.in_row(target, j2));
            let x = a.entries[j];
            let y = a.entries[j2];
            assert(m1.entries[j2] == y);
            assert(m1.entries[j] == x.add_spec(y.mul_spec(k)));
            F::lemma_add_assoc(x, y.mul_spec(k), y.mul_spec(nk));
            F::lemma_distrib(y, k, nk);
            F::lemma_sub_add(F::zero_spec(), k);
            F::lemma_add_comm(nk, k);
            F::lemma_mul_comm(y, F::zero_spec());
            F::lemma_mul_zero(y);
            F::lemma_add_zero(x);
        }
    }
    assert(m2.entries =~= a.entries);
}

/// Every matrix the library builds stores exactly its `rows * cols` cells, and the operations
/// keep that so: the transpose, the row and column vectors and the products of any matrices
/// do; the sum of two such matrices of the same dimensions does; and scaling, exchanging or
/// replacing rows, or multiplying by a scalar, keeps it for such a matrix.
pub proof fn law_results_exact<F: Field>(
    a: MatModel<F>,
    b: MatModel<F>,
    i: int,
    j: int,
    k: F,
    n: nat,
    p: Seq<usize>,
)
    requires
        a.exact(),
        b.exact(),
    ensures
        identity_model::<F>(n).exact(),
        basis_model::<F>(j, n).exact(),
        crate::mat_model::zero_model::<F>(n, a.cols).exact(),
        scale_mat_model(n, i, k).exact(),
        permutation_model::<F>(n, i, j).exact(),
        permutation_vec_model::<F>(p).exact(),
        replacement_model(n, i, j, k).exact(),
        a.transposed().exact(),
        a.row_vector(i).exact(),
        a.col_vector(j).exact(),
        a.product(b).exact(),
        a.rows == b.rows && a.cols == b.cols ==> a.plus(b).exact(),
        a.times_scalar(k).exact(),
        a.scaled_row(i, k).exact(),
        a.rows_swapped(i, j).exact(),
        a.row_replaced(i, j, k).exact(),
{
    assert(a.row_vector(i).entries.len() == a.cols * 1);
    assert(a.col_vector(j).entries.len() == a.rows * 1);
    assert(basis_model::<F>(j, n).entries.len() == n * 1);
}

} // verus!
