use std::cmp::Ordering;

use vstd::prelude::*;

use crate::mdeg::{
    common_len, deg_at, deg_sum, lemma_deg_sum_at, lemma_total_sum, lemma_total_zero, sum_fits,
    total, zero_deg,
};
use crate::ord::{
    compare_nums, flipped, grad_order, grevlex_order, grlex_order, lex_from, lex_order, order_of,
    revlex_order, revlex_upto, MonomialOrder,
};

verus! {

/// `o` is `Less` or `Equal`.
pub open spec fn not_greater(o: Ordering) -> bool {
    o != Ordering::Greater
}

proof fn lemma_lex_from_refl(a: Seq<usize>, i: int)
    ensures
        lex_from(a, a, i) == Ordering::Equal,
    decreases common_len(a, a) - i,
{
    if 0 <= i < common_len(a, a) {
        lemma_lex_from_refl(a, i + 1);
    }
}

proof fn lemma_lex_from_flip(a: Seq<usize>, b: Seq<usize>, i: int)
    ensures
        lex_from(b, a, i) == flipped(lex_from(a, b, i)),
    decreases common_len(a, b) - i,
{
    if 0 <= i < common_len(a, b) && a[i] == b[i] {
        lemma_lex_from_flip(a, b, i + 1);
    }
}

proof fn lemma_lex_from_trans(a: Seq<usize>, b: Seq<usize>, c: Seq<usize>, i: int)
    requires
        a.len() == b.len(),
        b.len() == c.len(),
        0 <= i,
    ensures
        not_greater(lex_from(a, b, i)) && not_greater(lex_from(b, c, i)) ==> not_greater(
            lex_from(a, c, i),
        ),
        (lex_from(a, b, i) == Ordering::Less && not_greater(lex_from(b, c, i))) || (not_greater(
            lex_from(a, b, i),
        ) && lex_from(b, c, i) == Ordering::Less) ==> lex_from(a, c, i) == Ordering::Less,
    decreases a.len() - i,
{
    if i < a.len() {
        lemma_lex_from_trans(a, b, c, i + 1);
    }
}

proof fn lemma_lex_from_equal(a: Seq<usize>, b: Seq<usize>, i: int)
    requires
        0 <= i,
        lex_from(a, b, i) == Ordering::Equal,
    ensures
        forall|j: int| i <= j < common_len(a, b) ==> a[j] == b[j],
    decreases common_len(a, b) - i,
{
    if i < common_len(a, b) {
        lemma_lex_from_equal(a, b, i + 1);
    }
}

proof fn lemma_lex_from_shift(a: Seq<usize>, b: Seq<usize>, c: Seq<usize>, i: int)
    requires
        a.len() == b.len(),
        b.len() == c.len(),
        sum_fits(a, c),
        sum_fits(b, c),
        0 <= i,
    ensures
        lex_from(deg_sum(a, c), deg_sum(b, c), i) == lex_from(a, b, i),
    decreases a.len() - i,
{
    if i < a.len() {
        lemma_deg_sum_at(a, c, i);
        lemma_deg_sum_at(b, c, i);
        lemma_lex_from_shift(a, b, c, i + 1);
    }
}

proof fn lemma_lex_from_skip(a: Seq<usize>, b: Seq<usize>, i: int, k: int)
    requires
        0 <= i <= k,
        forall|j: int| i <= j < k ==> a[j] == b[j],
        k <= common_len(a, b),
    ensures
        lex_from(a, b, i) == lex_from(a, b, k),
    decreases k - i,
{
    if i < k {
        lemma_lex_from_skip(a, b, i + 1, k);
    }
}

proof fn lemma_revlex_refl(a: Seq<usize>, n: int)
    ensures
        revlex_upto(a, a, n) == Ordering::Equal,
    decreases n,
{
    if n > 0 {
        lemma_revlex_refl(a, n - 1);
    }
}

proof fn lemma_revlex_flip(a: Seq<usize>, b: Seq<usize>, n: int)
    ensures
        revlex_upto(b, a, n) == flipped(revlex_upto(a, b, n)),
    decreases n,
{
    if n > 0 && a[n - 1] == b[n - 1] {
        lemma_revlex_flip(a, b, n - 1);
    }
}

proof fn lemma_revlex_trans(a: Seq<usize>, b: Seq<usize>, c: Seq<usize>, n: int)
    ensures
        not_greater(revlex_upto(a, b, n)) && not_greater(revlex_upto(b, c, n)) ==> not_greater(
            revlex_upto(a, c, n),
        ),
        (revlex_upto(a, b, n) == Ordering::Less && not_greater(revlex_upto(b, c, n))) || (
        not_greater(revlex_upto(a, b, n)) && revlex_upto(b, c, n) == Ordering::Less)
            ==> revlex_upto(a, c, n) == Ordering::Less,
    decreases n,
{
    if n > 0 {
        lemma_revlex_trans(a, b, c, n - 1);
    }
}

proof fn lemma_revlex_equal(a: Seq<usize>, b: Seq<usize>, n: int)
    requires
        revlex_upto(a, b, n) == Ordering::Equal,
    ensures
        forall|j: int| 0 <= j < n ==> a[j] == b[j],
    decreases n,
{
    if n > 0 {
        lemma_revlex_equal(a, b, n - 1);
    }
}

proof fn lemma_revlex_shift(a: Seq<usize>, b: Seq<usize>, c: Seq<usize>, n: int)
    requires
        a.len() == b.len(),
        b.len() == c.len(),
        sum_fits(a, c),
        sum_fits(b, c),
        n <= a.len(),
    ensures
        revlex_upto(deg_sum(a, c), deg_sum(b, c), n) == revlex_upto(a, b, n),
    decreases n,
{
    if n > 0 {
        lemma_deg_sum_at(a, c, n - 1);
        lemma_deg_sum_at(b, c, n - 1);
        lemma_revlex_shift(a, b, c, n - 1);
    }
}

proof fn lemma_revlex_skip(a: Seq<usize>, b: Seq<usize>, k: int, n: int)
    requires
        0 <= k < n,
        forall|j: int| k < j < n ==> a[j] == b[j],
    ensures
        revlex_upto(a, b, n) == revlex_upto(a, b, k + 1),
    decreases n - k,
{
    if k + 1 < n {
        lemma_revlex_skip(a, b, k, n - 1);
    }
}

/// Where `a` and `b` first differ at position `k` (among the positions both have), the
/// lexicographic order is the order of their degrees there.
pub proof fn law_lex_first_difference(a: Seq<usize>, b: Seq<usize>, k: int)
    requires
        0 <= k < common_len(a, b),
        a[k] != b[k],
        forall|j: int| 0 <= j < k ==> a[j] == b[j],
    ensures
        lex_order(a, b) == compare_nums(deg_at(a, k), deg_at(b, k)),
{
    lemma_lex_from_skip(a, b, 0, k);
}

/// Where `a` and `b` agree on every position both have, they are lexicographically equal.
pub proof fn law_lex_no_difference(a: Seq<usize>, b: Seq<usize>)
    requires
        forall|j: int| 0 <= j < common_len(a, b) ==> a[j] == b[j],
    ensures
        lex_order(a, b) == Ordering::Equal,
{
    lemma_lex_from_skip(a, b, 0, common_len(a, b));
}

/// Where `a` and `b` last differ at position `k` (among the positions both have), the reverse
/// lexicographic order is the order of their degrees there.
pub proof fn law_revlex_last_difference(a: Seq<usize>, b: Seq<usize>, k: int)
    requires
        0 <= k < common_len(a, b),
        a[k] != b[k],
        forall|j: int| k < j < common_len(a, b) ==> a[j] == b[j],
    ensures
        revlex_order(a, b) == compare_nums(deg_at(a, k), deg_at(b, k)),
{
    lemma_revlex_skip(a, b, k, common_len(a, b));
}

/// Where `a` and `b` agree on every position both have, they are equal in the reverse
/// lexicographic order.
pub proof fn law_revlex_no_difference(a: Seq<usize>, b: Seq<usize>)
    requires
        forall|j: int| 0 <= j < common_len(a, b) ==> a[j] == b[j],
    ensures
        revlex_order(a, b) == Ordering::Equal,
{
    lemma_revlex_same(a, b, common_len(a, b));
}

proof fn lemma_revlex_same(a: Seq<usize>, b: Seq<usize>, n: int)
    requires
        forall|j: int| 0 <= j < n ==> a[j] == b[j],
    ensures
        revlex_upto(a, b, n) == Ordering::Equal,
    decreases n,
{
    if n > 0 {
        lemma_revlex_same(a, b, n - 1);
    }
}

/// The reverse lexicographic order is the lexicographic order run over the common positions
/// from the last to the first.
pub proof fn law_revlex_is_reversed_lex(a: Seq<usize>, b: Seq<usize>)
    ensures
        revlex_order(a, b) == lex_order(
            a.take(common_len(a, b)).reverse(),
            b.take(common_len(a, b)).reverse(),
        ),
{
    let n = common_len(a, b);
    let ra = a.take(n).reverse();
    let rb = b.take(n).reverse();
    lemma_reversed(a, b, ra, rb, n, 0);
}

proof fn lemma_reversed(a: Seq<usize>, b: Seq<usize>, ra: Seq<usize>, rb: Seq<usize>, n: int, i: int)
    requires
        n == common_len(a, b),
        ra == a.take(n).reverse(),
        rb == b.take(n).reverse(),
        0 <= i <= n,
    ensures
        lex_from(ra, rb, i) == revlex_upto(a, b, n - i),
    decreases n - i,
{
    if i < n {
        assert(ra[i] == a[n - 1 - i]);
        assert(rb[i] == b[n - 1 - i]);
        lemma_reversed(a, b, ra, rb, n, i + 1);
    }
}

/// Every monomial order finds a multidegree equal to itself.
pub proof fn law_order_reflexive(o: MonomialOrder, a: Seq<usize>)
    ensures
        order_of(o, a, a) == Ordering::Equal,
{
    lemma_lex_from_refl(a, 0);
    lemma_revlex_refl(a, common_len(a, a));
}

/// Every monomial order is antisymmetric: exchanging the arguments reverses the result.
pub proof fn law_order_antisymmetric(o: MonomialOrder, a: Seq<usize>, b: Seq<usize>)
    ensures
        order_of(o, b, a) == flipped(order_of(o, a, b)),
{
    lemma_lex_from_flip(a, b, 0);
    lemma_revlex_flip(a, b, common_len(a, b));
}

/// Every monomial order is transitive on multidegrees with the same number of variables (the
/// graded order on any multidegrees).
pub proof fn law_order_transitive(o: MonomialOrder, a: Seq<usize>, b: Seq<usize>, c: Seq<usize>)
    requires
        o is Grad || (a.len() == b.len() && b.len() == c.len()),
    ensures
        not_greater(order_of(o, a, b)) && not_greater(order_of(o, b, c)) ==> not_greater(
            order_of(o, a, c),
        ),
        (order_of(o, a, b) == Ordering::Less && not_greater(order_of(o, b, c))) || (not_greater(
            order_of(o, a, b),
        ) && order_of(o, b, c) == Ordering::Less) ==> order_of(o, a, c) == Ordering::Less,
{
    if !(o is Grad) {
        lemma_lex_from_trans(a, b, c, 0);
        lemma_revlex_trans(a, b, c, common_len(a, b));
        lemma_revlex_trans(c, b, a, common_len(a, b));
        lemma_revlex_flip(a, b, common_len(a, b));
        lemma_revlex_flip(b, c, common_len(a, b));
        lemma_revlex_flip(a, c, common_len(a, b));
    }
}

/// Apart from the graded order, a monomial order finds two multidegrees with the same number
/// of variables equal only where they are the same.
pub proof fn law_order_equal_means_same(o: MonomialOrder, a: Seq<usize>, b: Seq<usize>)
    requires
        !(o is Grad),
        a.len() == b.len(),
        order_of(o, a, b) == Ordering::Equal,
    ensures
        a == b,
{
    match o {
        MonomialOrder::Lex => lemma_lex_from_equal(a, b, 0),
        MonomialOrder::GrLex => lemma_lex_from_equal(a, b, 0),
        MonomialOrder::RevLex => lemma_revlex_equal(a, b, common_len(a, b)),
        MonomialOrder::GRevLex => lemma_revlex_equal(a, b, common_len(a, b)),
        MonomialOrder::Grad => {},
    }
    assert(a =~= b);
}

/// Every monomial order is compatible with multiplication of monomials: adding the same
/// multidegree to both sides keeps their order.
pub proof fn law_order_compatible(o: MonomialOrder, a: Seq<usize>, b: Seq<usize>, c: Seq<usize>)
    requires
        a.len() == b.len(),
        b.len() == c.len(),
        sum_fits(a, c),
        sum_fits(b, c),
    ensures
        order_of(o, deg_sum(a, c), deg_sum(b, c)) == order_of(o, a, b),
{
    lemma_lex_from_shift(a, b, c, 0);
    lemma_revlex_shift(a, b, c, common_len(a, b));
    lemma_total_sum(a, c);
    lemma_total_sum(b, c);
}

proof fn lemma_lex_from_zero(a: Seq<usize>, i: int)
    requires
        0 <= i,
    ensures
        not_greater(lex_from(zero_deg(a.len()), a, i)),
    decreases a.len() - i,
{
    if i < a.len() {
        lemma_lex_from_zero(a, i + 1);
    }
}

proof fn lemma_revlex_zero(a: Seq<usize>, n: int)
    requires
        n <= a.len(),
    ensures
        not_greater(revlex_upto(zero_deg(a.len()), a, n)),
    decreases n,
{
    if n > 0 {
        lemma_revlex_zero(a, n - 1);
    }
}

/// Under every monomial order the zero multidegree (the constant monomial) is least among the
/// multidegrees with the same number of variables.
pub proof fn law_zero_is_least(o: MonomialOrder, a: Seq<usize>)
    ensures
        not_greater(order_of(o, zero_deg(a.len()), a)),
{
    let z = zero_deg(a.len());
    lemma_lex_from_zero(a, 0);
    lemma_revlex_zero(a, common_len(z, a));
    lemma_total_zero(a);
    lemma_total_zero(z);
    if total(a) == 0 {
        lemma_revlex_same(z, a, common_len(z, a));
    }
}

/// `cmp(MonomialOrder::Lex, ..)` is the lexicographic order: the first position (among those
/// both have) where `a` and `b` differ decides, by the smaller degree there.
pub proof fn law_cmp_lex_first_difference(a: Seq<usize>, b: Seq<usize>, k: int)
    requires
        0 <= k < common_len(a, b),
        a[k] != b[k],
        forall|j: int| 0 <= j < k ==> a[j] == b[j],
    ensures
        a[k] < b[k] ==> order_of(MonomialOrder::Lex, a, b) == Ordering::Less,
        a[k] > b[k] ==> order_of(MonomialOrder::Lex, a, b) == Ordering::Greater,
{
    law_lex_first_difference(a, b, k);
}

/// `cmp(MonomialOrder::Lex, ..)` finds `a` and `b` equal where they agree on every position
/// both have.
pub proof fn law_cmp_lex_no_difference(a: Seq<usize>, b: Seq<usize>)
    requires
        forall|j: int| 0 <= j < common_len(a, b) ==> a[j] == b[j],
    ensures
        order_of(MonomialOrder::Lex, a, b) == Ordering::Equal,
{
    law_lex_no_difference(a, b);
}

/// `cmp(MonomialOrder::RevLex, ..)` is the reverse lexicographic order: the last position
/// (among those both have) where `a` and `b` differ decides, by the smaller degree there.
pub proof fn law_cmp_revlex_last_difference(a: Seq<usize>, b: Seq<usize>, k: int)
    requires
        0 <= k < common_len(a, b),
        a[k] != b[k],
        forall|j: int| k < j < common_len(a, b) ==> a[j] == b[j],
    ensures
        a[k] < b[k] ==> order_of(MonomialOrder::RevLex, a, b) == Ordering::Less,
        a[k] > b[k] ==> order_of(MonomialOrder::RevLex, a, b) == Ordering::Greater,
{
    law_revlex_last_difference(a, b, k);
}

/// `cmp(MonomialOrder::RevLex, ..)` finds `a` and `b` equal where they agree on every position
/// both have.
pub proof fn law_cmp_revlex_no_difference(a: Seq<usize>, b: Seq<usize>)
    requires
        forall|j: int| 0 <= j < common_len(a, b) ==> a[j] == b[j],
    ensures
        order_of(MonomialOrder::RevLex, a, b) == Ordering::Equal,
{
    law_revlex_no_difference(a, b);
}

/// `cmp(MonomialOrder::Grad, ..)` compares total degrees, and nothing else.
pub proof fn law_cmp_grad_by_total(a: Seq<usize>, b: Seq<usize>)
    ensures
        order_of(MonomialOrder::Grad, a, b) == Ordering::Less <==> total(a) < total(b),
        order_of(MonomialOrder::Grad, a, b) == Ordering::Equal <==> total(a) == total(b),
        order_of(MonomialOrder::Grad, a, b) == Ordering::Greater <==> total(a) > total(b),
{
}

/// The graded orders (`GrLex`, `GRevLex`) put the smaller total degree first.
pub proof fn law_cmp_graded_by_total(a: Seq<usize>, b: Seq<usize>)
    ensures
        total(a) < total(b) ==> order_of(MonomialOrder::GrLex, a, b) == Ordering::Less
            && order_of(MonomialOrder::GRevLex, a, b) == Ordering::Less,
        total(a) > total(b) ==> order_of(MonomialOrder::GrLex, a, b) == Ordering::Greater
            && order_of(MonomialOrder::GRevLex, a, b) == Ordering::Greater,
{
}

/// Between multidegrees of equal total degree, `cmp(MonomialOrder::GrLex, ..)` (and `grlex`)
/// is decided by the first position where they differ, by the smaller degree there.
pub proof fn law_grlex_ties_first_difference(a: Seq<usize>, b: Seq<usize>, k: int)
    requires
        total(a) == total(b),
        0 <= k < common_len(a, b),
        a[k] != b[k],
        forall|j: int| 0 <= j < k ==> a[j] == b[j],
    ensures
        a[k] < b[k] ==> order_of(MonomialOrder::GrLex, a, b) == Ordering::Less
            && grlex_order(a, b) == Ordering::Less,
        a[k] > b[k] ==> order_of(MonomialOrder::GrLex, a, b) == Ordering::Greater
            && grlex_order(a, b) == Ordering::Greater,
{
    law_lex_first_difference(a, b, k);
}

/// Between multidegrees of equal total degree that agree on every position both have,
/// `cmp(MonomialOrder::GrLex, ..)` (and `grlex`) finds them equal.
pub proof fn law_grlex_ties_no_difference(a: Seq<usize>, b: Seq<usize>)
    requires
        total(a) == total(b),
        forall|j: int| 0 <= j < common_len(a, b) ==> a[j] == b[j],
    ensures
        order_of(MonomialOrder::GrLex, a, b) == Ordering::Equal,
        grlex_order(a, b) == Ordering::Equal,
{
    law_lex_no_difference(a, b);
}

/// Between multidegrees of equal total degree, `cmp(MonomialOrder::GRevLex, ..)` (and
/// `grevlex`) is decided by the last position where they differ: the one with the larger degree
/// there comes first.
pub proof fn law_grevlex_ties_last_difference(a: Seq<usize>, b: Seq<usize>, k: int)
    requires
        total(a) == total(b),
        0 <= k < common_len(a, b),
        a[k] != b[k],
        forall|j: int| k < j < common_len(a, b) ==> a[j] == b[j],
    ensures
        a[k] > b[k] ==> order_of(MonomialOrder::GRevLex, a, b) == Ordering::Less
            && grevlex_order(a, b) == Ordering::Less,
        a[k] < b[k] ==> order_of(MonomialOrder::GRevLex, a, b) == Ordering::Greater
            && grevlex_order(a, b) == Ordering::Greater,
{
    law_revlex_last_difference(a, b, k);
}

/// Between multidegrees of equal total degree that agree on every position both have,
/// `cmp(MonomialOrder::GRevLex, ..)` (and `grevlex`) finds them equal.
pub proof fn law_grevlex_ties_no_difference(a: Seq<usize>, b: Seq<usize>)
    requires
        total(a) == total(b),
        forall|j: int| 0 <= j < common_len(a, b) ==> a[j] == b[j],
    ensures
        order_of(MonomialOrder::GRevLex, a, b) == Ordering::Equal,
        grevlex_order(a, b) == Ordering::Equal,
{
    law_revlex_no_difference(a, b);
}

/// Between multidegrees of equal total degree, the graded reverse lexicographic order is the
/// reverse lexicographic order with its result reversed.
pub proof fn law_grevlex_ties_reverse_revlex(a: Seq<usize>, b: Seq<usize>)
    requires
        total(a) == total(b),
    ensures
        grevlex_order(a, b) == flipped(revlex_order(a, b)),
        order_of(MonomialOrder::GRevLex, a, b) == flipped(
            order_of(MonomialOrder::RevLex, a, b),
        ),
{
}

} // verus!
