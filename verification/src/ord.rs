use std::cmp::Ordering;

use vstd::prelude::*;

use crate::mdeg::{common_len, deg_at, total, MDeg};

verus! {

/// The various monomial orders on multidegrees.
pub enum MonomialOrder {
    Lex,
    RevLex,
    Grad,
    GrLex,
    GRevLex,
}

/// How two numbers compare.
pub open spec fn compare_nums(x: int, y: int) -> Ordering {
    if x < y {
        Ordering::Less
    } else if x == y {
        Ordering::Equal
    } else {
        Ordering::Greater
    }
}

/// The opposite ordering: `Less` and `Greater` exchanged.
pub open spec fn flipped(o: Ordering) -> Ordering {
    match o {
        Ordering::Less => Ordering::Greater,
        Ordering::Equal => Ordering::Equal,
        Ordering::Greater => Ordering::Less,
    }
}

/// Compares the common positions of `a` and `b` from position `i` rightwards: the result is
/// that of the first position where they differ, `Equal` where there is none.
pub open spec fn lex_from(a: Seq<usize>, b: Seq<usize>, i: int) -> Ordering
    decreases common_len(a, b) - i,
{
    if i < 0 || i >= common_len(a, b) {
        Ordering::Equal
    } else if a[i] != b[i] {
        compare_nums(deg_at(a, i), deg_at(b, i))
    } else {
        lex_from(a, b, i + 1)
    }
}

/// Compares the first `n` common positions of `a` and `b` from the right: the result is that
/// of the last position below `n` where they differ, `Equal` where there is none.
pub open spec fn revlex_upto(a: Seq<usize>, b: Seq<usize>, n: int) -> Ordering
    decreases n,
{
    if n <= 0 {
        Ordering::Equal
    } else if a[n - 1] != b[n - 1] {
        compare_nums(deg_at(a, n - 1), deg_at(b, n - 1))
    } else {
        revlex_upto(a, b, n - 1)
    }
}

/// The lexicographic order: the first differing position from the left decides.
pub open spec fn lex_order(a: Seq<usize>, b: Seq<usize>) -> Ordering {
    lex_from(a, b, 0)
}

/// The reverse lexicographic order: the first differing position from the right decides.
pub open spec fn revlex_order(a: Seq<usize>, b: Seq<usize>) -> Ordering {
    revlex_upto(a, b, common_len(a, b))
}

/// The graded order: total degrees decide.
pub open spec fn grad_order(a: Seq<usize>, b: Seq<usize>) -> Ordering {
    compare_nums(total(a), total(b))
}

/// The graded lexicographic order.
pub open spec fn grlex_order(a: Seq<usize>, b: Seq<usize>) -> Ordering {
    if grad_order(a, b) == Ordering::Equal {
        lex_order(a, b)
    } else {
        grad_order(a, b)
    }
}

/// The graded reverse lexicographic order.
pub open spec fn grevlex_order(a: Seq<usize>, b: Seq<usize>) -> Ordering {
    if grad_order(a, b) == Ordering::Equal {
        flipped(revlex_order(a, b))
    } else {
        grad_order(a, b)
    }
}

/// The order that `order` names, applied to `a` and `b`.
pub open spec fn order_of(order: MonomialOrder, a: Seq<usize>, b: Seq<usize>) -> Ordering {
    match order {
        MonomialOrder::Lex => lex_order(a, b),
        MonomialOrder::RevLex => revlex_order(a, b),
        MonomialOrder::Grad => grad_order(a, b),
        MonomialOrder::GrLex => grlex_order(a, b),
        MonomialOrder::GRevLex => grevlex_order(a, b),
    }
}

/// Applies the given monomial order to `a` and `b`.
pub fn cmp(order: MonomialOrder, a: &MDeg, b: &MDeg) -> (o: Ordering)
    ensures
        o == order_of(order, a@, b@),
{
    match order {
        MonomialOrder::Lex => lex(a, b),
        MonomialOrder::RevLex => revlex(a, b),
        MonomialOrder::Grad => grad(a, b),
        MonomialOrder::GrLex => grlex(a, b),
        MonomialOrder::GRevLex => grevlex(a, b),
    }
}

/// The lexicographic order on multidegrees: where `a != b`, compares the first unequal
/// degrees from the left, over the positions that both have.
pub fn lex(a: &MDeg, b: &MDeg) -> (o: Ordering)
    ensures
        o == lex_order(a@, b@),
{
    let da = a.degs();
    let db = b.degs();
    let n = if da.len() <= db.len() {
        da.len()
    } else {
        db.len()
    };
    let mut i: usize = 0;
    let ghost mut gi: int = 0;
    while i < n
        invariant
            i <= n,
            gi == i,
            n == common_len(a@, b@),
            da@ == a@,
            db@ == b@,
            lex_from(a@, b@, gi) == lex_from(a@, b@, 0),
        decreases n - i,
    {
        if da[i] < db[i] {
            return Ordering::Less;
        } else if db[i] < da[i] {
            return Ordering::Greater;
        }
        i = i + 1;
        proof {
            gi = gi + 1;
        }
    }
    Ordering::Equal
}

/// The reverse lexicographic order on multidegrees: the lexicographic order run over the
/// positions that both have, from the last to the first.
pub fn revlex(a: &MDeg, b: &MDeg) -> (o: Ordering)
    ensures
        o == revlex_order(a@, b@),
{
    let da = a.degs();
    let db = b.degs();
    let mut i: usize = if da.len() <= db.len() {
        da.len()
    } else {
        db.len()
    };
    let ghost mut gi: int = common_len(a@, b@);
    while i > 0
        invariant
            gi == i,
            i <= common_len(a@, b@),
            da@ == a@,
            db@ == b@,
            revlex_upto(a@, b@, gi) == revlex_order(a@, b@),
        decreases i,
    {
        if da[i - 1] < db[i - 1] {
            return Ordering::Less;
        } else if db[i - 1] < da[i - 1] {
            return Ordering::Greater;
        }
        i = i - 1;
        proof {
            gi = gi - 1;
        }
    }
    Ordering::Equal
}

/// The graded order on multidegrees: compares the total degrees.
pub fn grad(a: &MDeg, b: &MDeg) -> (o: Ordering)
    ensures
        o == grad_order(a@, b@),
{
    let ta = a.total_deg();
    let tb = b.total_deg();
    if ta < tb {
        Ordering::Less
    } else if ta == tb {
        Ordering::Equal
    } else {
        Ordering::Greater
    }
}

/// The graded lexicographic order: the graded order, and where it finds the total degrees
/// equal, the lexicographic order.
pub fn grlex(a: &MDeg, b: &MDeg) -> (o: Ordering)
    ensures
        o == grlex_order(a@, b@),
{
    match grad(a, b) {
        Ordering::Equal => lex(a, b),
        lt_or_gt => lt_or_gt,
    }
}

/// The graded reverse lexicographic order: the graded order, and where it finds the total
/// degrees equal, the reverse lexicographic order with its result reversed.
pub fn grevlex(a: &MDeg, b: &MDeg) -> (o: Ordering)
    ensures
        o == grevlex_order(a@, b@),
{
    match grad(a, b) {
        Ordering::Equal => reversed(revlex(a, b)),
        lt_or_gt => lt_or_gt,
    }
}

/// `Ordering::reverse`: `Less` and `Greater` exchanged.
fn reversed(o: Ordering) -> (r: Ordering)
    ensures
        r == flipped(o),
{
    match o {
        Ordering::Less => Ordering::Greater,
        Ordering::Equal => Ordering::Equal,
        Ordering::Greater => Ordering::Less,
    }
}

} // verus!
