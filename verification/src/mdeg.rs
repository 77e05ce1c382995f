use vstd::prelude::*;

verus! {

/// The sum of the degrees in `s`.
pub open spec fn total(s: Seq<usize>) -> int
    decreases s.len(),
{
    if s.len() == 0 {
        0
    } else {
        total(s.drop_last()) + s.last()
    }
}

/// The number of positions that `a` and `b` both have.
pub open spec fn common_len(a: Seq<usize>, b: Seq<usize>) -> int {
    if a.len() <= b.len() {
        a.len() as int
    } else {
        b.len() as int
    }
}

/// The degree at position `i`, as an integer.
pub open spec fn deg_at(a: Seq<usize>, i: int) -> int {
    a[i] as int
}

/// The multidegree of a product of monomials: `a` and `c` added position by position, over
/// the positions of `a`.
pub open spec fn deg_sum(a: Seq<usize>, c: Seq<usize>) -> Seq<usize> {
    Seq::new(a.len(), |i: int| (a[i] + c[i]) as usize)
}

/// No position of `a + c` leaves the range of `usize`.
pub open spec fn sum_fits(a: Seq<usize>, c: Seq<usize>) -> bool {
    forall|i: int| 0 <= i < a.len() ==> #[trigger] a[i] + c[i] <= usize::MAX
}

/// Where no position overflows, the degrees of `a + c` are the sums of the degrees.
pub proof fn lemma_deg_sum_at(a: Seq<usize>, c: Seq<usize>, i: int)
    requires
        sum_fits(a, c),
        0 <= i < a.len(),
    ensures
        deg_at(deg_sum(a, c), i) == deg_at(a, i) + deg_at(c, i),
{
}

/// The total degree of `a + c` is the sum of the total degrees.
pub proof fn lemma_total_sum(a: Seq<usize>, c: Seq<usize>)
    requires
        a.len() == c.len(),
        sum_fits(a, c),
    ensures
        total(deg_sum(a, c)) == total(a) + total(c),
    decreases a.len(),
{
    if a.len() > 0 {
        let a1 = a.drop_last();
        let c1 = c.drop_last();
        assert(sum_fits(a1, c1)) by {
            assert forall|i: int| 0 <= i < a1.len() implies #[trigger] a1[i] + c1[i] <= usize::MAX by {
                assert(a1[i] == a[i] && c1[i] == c[i]);
            }
        }
        lemma_total_sum(a1, c1);
        assert(deg_sum(a, c).drop_last() =~= deg_sum(a1, c1));
    }
}

/// The multidegree of the constant monomial in `n` variables: all exponents zero.
pub open spec fn zero_deg(n: nat) -> Seq<usize> {
    Seq::new(n, |i: int| 0usize)
}

/// A total degree is never negative, and it is zero only where every exponent is zero.
pub proof fn lemma_total_zero(a: Seq<usize>)
    ensures
        total(a) >= 0,
        total(a) == 0 <==> (forall|i: int| 0 <= i < a.len() ==> a[i] == 0),
    decreases a.len(),
{
    if a.len() > 0 {
        lemma_total_zero(a.drop_last());
        if total(a) == 0 {
            assert forall|i: int| 0 <= i < a.len() implies a[i] == 0 by {
                if i < a.len() - 1 {
                    assert(a[i] == a.drop_last()[i]);
                }
            }
        }
        if forall|i: int| 0 <= i < a.len() ==> a[i] == 0 {
            assert forall|i: int| 0 <= i < a.drop_last().len() implies a.drop_last()[i] == 0 by {
                assert(a[i] == a.drop_last()[i]);
            }
        }
    }
}

/// A multidegree: the exponent of each variable of a monomial, in variable order.
#[derive(Debug, PartialEq, Clone)]
pub struct MDeg {
    degs: Vec<usize>,
}

impl View for MDeg {
    type V = Seq<usize>;

    closed spec fn view(&self) -> Seq<usize> {
        self.degs@
    }
}

impl MDeg {
    /// The multidegree with the given exponents.
    pub fn from_vec(degs: Vec<usize>) -> (m: MDeg)
        ensures
            m@ == degs@,
    {
        MDeg { degs }
    }

    /// The exponents, in variable order.
    pub fn degs(&self) -> (s: &[usize])
        ensures
            s@ == self@,
    {
        self.degs.as_slice()
    }

    /// The number of variables.
    pub fn len(&self) -> (n: usize)
        ensures
            n == self@.len(),
    {
        self.degs.len()
    }

    /// The total degree: the sum of the exponents.
    pub fn total_deg(&self) -> (t: u128)
        ensures
            t == total(self@),
    {
        let n = self.degs.len();
        let mut acc: u128 = 0;
        let mut i: usize = 0;
        while i < n
            invariant
                i <= n,
                n == self@.len(),
                acc == total(self@.subrange(0, i as int)),
                acc <= i * 0xffff_ffff_ffff_ffffu128,
            decreases n - i,
        {
            let d = self.degs[i];
            proof {
                assert(self@.subrange(0, i + 1).drop_last() =~= self@.subrange(0, i as int));
                assert(d <= 0xffff_ffff_ffff_ffffu128);
                assert(i * 0xffff_ffff_ffff_ffffu128 + 0xffff_ffff_ffff_ffffu128 == (i + 1)
                    * 0xffff_ffff_ffff_ffffu128);
                assert((i + 1) * 0xffff_ffff_ffff_ffffu128 <= 0x1_0000_0000_0000_0000
                    * 0xffff_ffff_ffff_ffffu128) by (nonlinear_arith)
                    requires
                        i + 1 <= 0x1_0000_0000_0000_0000int,
                ;
            }
            acc = acc + d as u128;
            i = i + 1;
        }
        assert(self@.subrange(0, n as int) =~= self@);
        acc
    }
}

} // verus!
