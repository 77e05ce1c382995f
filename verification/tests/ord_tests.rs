use std::cmp::Ordering;

use algebra::mdeg::MDeg;

fn mdeg(v: Vec<usize>) -> MDeg {
    MDeg::from_vec(v)
}

/// All multidegrees in three variables with each degree 0 or 1.
fn cube() -> Vec<Vec<usize>> {
    let mut out = Vec::new();
    for x in 0..=1 {
        for y in 0..=1 {
            for z in 0..=1 {
                out.push(vec![x, y, z]);
            }
        }
    }
    out
}

fn show(s: &[usize]) -> String {
    format!("{:?}{:?}{:?}", s[0], s[1], s[2])
}

#[test]
fn lex() {
    println!("{:?}", mdeg(vec![3, 0, 2, 0, 0, 1, 4, 0, 0, 9]));

    assert_eq!(algebra::ord::lex(&mdeg(vec![1]), &mdeg(vec![1])), Ordering::Equal);
    assert_eq!(algebra::ord::lex(&mdeg(vec![1, 2, 3]), &mdeg(vec![1, 2, 3])), Ordering::Equal);

    assert_eq!(algebra::ord::lex(&mdeg(vec![1]), &mdeg(vec![0, 1])), Ordering::Greater);

    assert_eq!(algebra::ord::lex(&mdeg(vec![0, 3, 2]), &mdeg(vec![0, 3, 3])), Ordering::Less);

    for a in cube() {
        for b in cube() {
            let o = algebra::ord::lex(&mdeg(a.clone()), &mdeg(b.clone()));
            println!("{} ~ {} => {:?}", show(&a), show(&b), o);
        }
    }
}

#[test]
fn revlex() {
    println!("{:?}", mdeg(vec![3, 0, 2, 0, 0, 1, 4, 0, 0, 9]));

    assert_eq!(algebra::ord::revlex(&mdeg(vec![1]), &mdeg(vec![1])), Ordering::Equal);
    assert_eq!(algebra::ord::revlex(&mdeg(vec![1, 2, 3]), &mdeg(vec![1, 2, 3])), Ordering::Equal);

    assert_eq!(algebra::ord::revlex(&mdeg(vec![1]), &mdeg(vec![0, 1])), Ordering::Greater);

    assert_eq!(algebra::ord::revlex(&mdeg(vec![0, 3, 2]), &mdeg(vec![0, 3, 3])), Ordering::Less);

    for a in cube() {
        for b in cube() {
            let o = algebra::ord::revlex(&mdeg(a.clone()), &mdeg(b.clone()));
            println!("{} ~ {} => {:?}", show(&a), show(&b), o);
        }
    }
}

use algebra::ord::{cmp, grad, grevlex, grlex, MonomialOrder};

#[test]
fn graded_orders() {
    // total degrees 3 and 3, then 3 and 4
    let a = mdeg(vec![2, 0, 1]);
    let b = mdeg(vec![1, 1, 1]);
    let c = mdeg(vec![0, 0, 4]);
    assert_eq!(grad(&a, &b), Ordering::Equal);
    assert_eq!(grad(&a, &c), Ordering::Less);
    assert_eq!(grad(&c, &a), Ordering::Greater);

    assert_eq!(grlex(&a, &b), Ordering::Greater);
    assert_eq!(grlex(&b, &a), Ordering::Less);
    assert_eq!(grlex(&a, &c), Ordering::Less);

    // equal total degree: revlex(a, b) is Equal at position 2, then 0 < 1 at position 1: Less,
    // which grevlex reverses
    assert_eq!(algebra::ord::revlex(&a, &b), Ordering::Less);
    assert_eq!(grevlex(&a, &b), Ordering::Greater);
    assert_eq!(grevlex(&a, &c), Ordering::Less);
    assert_eq!(grevlex(&a, &a), Ordering::Equal);
}

#[test]
fn cmp_dispatches_on_the_order() {
    let a = mdeg(vec![0, 1]);
    let b = mdeg(vec![1, 1]);
    assert_eq!(cmp(MonomialOrder::Lex, &a, &b), algebra::ord::lex(&a, &b));
    assert_eq!(cmp(MonomialOrder::RevLex, &a, &b), algebra::ord::revlex(&a, &b));
    assert_eq!(cmp(MonomialOrder::Grad, &a, &b), grad(&a, &b));
    assert_eq!(cmp(MonomialOrder::GrLex, &a, &b), grlex(&a, &b));
    assert_eq!(cmp(MonomialOrder::GRevLex, &a, &b), grevlex(&a, &b));
}

#[test]
fn revlex_is_not_reversed_lex() {
    let a = mdeg(vec![0, 1]);
    let b = mdeg(vec![1, 1]);
    assert_eq!(algebra::ord::lex(&a, &b).reverse(), Ordering::Greater);
    assert_eq!(algebra::ord::revlex(&a, &b), Ordering::Less);
}

#[test]
fn only_common_positions_are_compared() {
    assert_eq!(algebra::ord::lex(&mdeg(vec![1]), &mdeg(vec![1, 5])), Ordering::Equal);
    assert_eq!(algebra::ord::revlex(&mdeg(vec![2, 7]), &mdeg(vec![2])), Ordering::Equal);
    assert_eq!(algebra::ord::lex(&mdeg(vec![]), &mdeg(vec![3])), Ordering::Equal);
    assert_eq!(grad(&mdeg(vec![1]), &mdeg(vec![1, 5])), Ordering::Less);
}

#[test]
fn order_laws_on_examples() {
    let orders = || {
        vec![
            MonomialOrder::Lex,
            MonomialOrder::RevLex,
            MonomialOrder::Grad,
            MonomialOrder::GrLex,
            MonomialOrder::GRevLex,
        ]
    };
    let a = vec![1, 0, 2];
    let b = vec![0, 2, 1];
    let c = vec![3, 1, 1];
    let sum = |x: &Vec<usize>, y: &Vec<usize>| -> Vec<usize> {
        x.iter().zip(y.iter()).map(|(p, q)| p + q).collect()
    };
    for o in orders() {
        assert_eq!(cmp(o, &mdeg(a.clone()), &mdeg(a.clone())), Ordering::Equal);
    }
    for (o1, o2) in orders().into_iter().zip(orders()) {
        let ab = cmp(o1, &mdeg(a.clone()), &mdeg(b.clone()));
        let ba = cmp(o2, &mdeg(b.clone()), &mdeg(a.clone()));
        assert_eq!(ba, ab.reverse());
    }
    for (o1, o2) in orders().into_iter().zip(orders()) {
        let ab = cmp(o1, &mdeg(a.clone()), &mdeg(b.clone()));
        let shifted = cmp(o2, &mdeg(sum(&a, &c)), &mdeg(sum(&b, &c)));
        assert_eq!(ab, shifted);
    }
}

#[test]
fn total_degree() {
    assert_eq!(mdeg(vec![3, 0, 2, 0, 0, 1, 4, 0, 0, 9]).total_deg(), 19);
    assert_eq!(mdeg(vec![]).total_deg(), 0);
    assert_eq!(mdeg(vec![usize::MAX, usize::MAX]).total_deg(), 2 * (usize::MAX as u128));
    assert_eq!(mdeg(vec![4, 5]).degs(), &[4, 5]);
    assert_eq!(mdeg(vec![4, 5]).len(), 2);
}

#[test]
fn zero_multidegree_is_least() {
    let z = mdeg(vec![0, 0, 0]);
    for a in cube() {
        let a = mdeg(a);
        assert_ne!(algebra::ord::lex(&z, &a), Ordering::Greater);
        assert_ne!(algebra::ord::revlex(&z, &a), Ordering::Greater);
        assert_ne!(grad(&z, &a), Ordering::Greater);
        assert_ne!(grlex(&z, &a), Ordering::Greater);
        assert_ne!(grevlex(&z, &a), Ordering::Greater);
    }
}
