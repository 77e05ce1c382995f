use algebra::mat::Mat;
use algebra::field::Field;

/// A real number, as the floating-point matrices of the examples hold. Floating-point
/// arithmetic is only approximately a field: this scalar serves the runtime examples, and its
/// law items are empty stubs that nothing checks.
#[derive(Clone, Copy, Debug, PartialEq)]
pub struct R(pub f64);

impl Field for R {
    fn zero_spec() -> R {
        R(0.0)
    }
    fn one_spec() -> R {
        R(1.0)
    }
    fn add_spec(self, other: R) -> R {
        R(self.0 + other.0)
    }
    fn mul_spec(self, other: R) -> R {
        R(self.0 * other.0)
    }
    fn sub_spec(self, other: R) -> R {
        R(self.0 - other.0)
    }
    fn sub(&self, other: &R) -> R {
        R(self.0 - other.0)
    }
    fn lemma_sub_add(_a: R, _b: R) {}
    fn lemma_one_ne_zero() {}
    fn lemma_add_assoc(_a: R, _b: R, _c: R) {}
    fn lemma_add_comm(_a: R, _b: R) {}
    fn lemma_add_zero(_a: R) {}
    fn lemma_mul_assoc(_a: R, _b: R, _c: R) {}
    fn lemma_mul_comm(_a: R, _b: R) {}
    fn lemma_mul_one(_a: R) {}
    fn lemma_mul_zero(_a: R) {}
    fn lemma_distrib(_a: R, _b: R, _c: R) {}
    fn zero() -> R {
        R(0.0)
    }
    fn one() -> R {
        R(1.0)
    }
    fn add(&self, other: &R) -> R {
        R(self.0 + other.0)
    }
    fn mul(&self, other: &R) -> R {
        R(self.0 * other.0)
    }
}

pub fn reals(v: Vec<f64>) -> Vec<R> {
    v.into_iter().map(R).collect()
}

fn gcd(a: i64, b: i64) -> i64 {
    if b == 0 { a.abs() } else { gcd(b, a % b) }
}

/// An exact fraction in lowest terms with a positive denominator, for the runtime examples;
/// its law items are empty stubs that nothing checks.
#[derive(Clone, Copy, Debug, PartialEq)]
pub struct Frac {
    num: i64,
    den: i64,
}

impl Frac {
    pub fn new(num: i64, den: i64) -> Frac {
        let g = gcd(num, den);
        let s = if den < 0 { -1 } else { 1 };
        Frac { num: s * num / g, den: s * den / g }
    }
}

impl Field for Frac {
    fn zero_spec() -> Frac {
        Frac::new(0, 1)
    }
    fn one_spec() -> Frac {
        Frac::new(1, 1)
    }
    fn add_spec(self, other: Frac) -> Frac {
        Frac::new(self.num * other.den + other.num * self.den, self.den * other.den)
    }
    fn mul_spec(self, other: Frac) -> Frac {
        Frac::new(self.num * other.num, self.den * other.den)
    }
    fn sub_spec(self, other: Frac) -> Frac {
        Frac::new(self.num * other.den - other.num * self.den, self.den * other.den)
    }
    fn sub(&self, other: &Frac) -> Frac {
        Frac::new(self.num * other.den - other.num * self.den, self.den * other.den)
    }
    fn lemma_sub_add(_a: Frac, _b: Frac) {}
    fn lemma_one_ne_zero() {}
    fn lemma_add_assoc(_a: Frac, _b: Frac, _c: Frac) {}
    fn lemma_add_comm(_a: Frac, _b: Frac) {}
    fn lemma_add_zero(_a: Frac) {}
    fn lemma_mul_assoc(_a: Frac, _b: Frac, _c: Frac) {}
    fn lemma_mul_comm(_a: Frac, _b: Frac) {}
    fn lemma_mul_one(_a: Frac) {}
    fn lemma_mul_zero(_a: Frac) {}
    fn lemma_distrib(_a: Frac, _b: Frac, _c: Frac) {}
    fn zero() -> Frac {
        Frac::new(0, 1)
    }
    fn one() -> Frac {
        Frac::new(1, 1)
    }
    fn add(&self, other: &Frac) -> Frac {
        Frac::new(self.num * other.den + other.num * self.den, self.den * other.den)
    }
    fn mul(&self, other: &Frac) -> Frac {
        Frac::new(self.num * other.num, self.den * other.den)
    }
}

#[test]
fn scalar_helpers_behave() {
    assert_eq!(Frac::new(2, 4), Frac::new(1, 2));
    assert_eq!(Frac::new(1, 2).add(&Frac::new(1, 3)), Frac::new(5, 6));
    assert_eq!(R(2.0).mul(&R(3.0)), R(6.0));
}

fn m(rows: usize, cols: usize, v: Vec<f64>) -> Mat<R> {
    Mat::new(rows, cols, reals(v))
}

#[test]
fn test_matrix_operations() {
    let mat1 = m(3, 4, vec![0.0, 1.0, 2.0, 3.0, 4.0, 5.0, 6.0, 7.0, 8.0, 9.0, 10.0, 11.0]);
    let mat2 = m(3, 4, vec![1.0, -1.0, -2.0, -3.0, -4.0, -5.0, -6.0, -7.0, -8.0, -9.0, -10.0, -11.0]);
    let mat3 = m(3, 4, vec![1.0, 0.0, 0.0, 0.0, 0.0, 0.0, 0.0, 0.0, 0.0, 0.0, 0.0, 0.0]);
    let mat4 = m(3, 3, vec![1.0, 0.0, 0.0, 0.0, 1.0, 0.0, 0.0, 0.0, 1.0]);
    let mat5 = m(4, 1, vec![4.0, 3.0, 2.0, 1.0]);
    let mat6 = m(3, 1, vec![10.0, 50.0, 90.0]);
    let mat7 = m(3, 1, vec![1.0, 5.0, 9.0]);

    assert_eq!(&mat1 + &mat2, mat3);
    assert_eq!(&mat4 * &mat1, mat1);
    assert_eq!(&mat4 * &mat2, mat2);

    assert_eq!(&mat1 * &mat5, mat6);
    assert_eq!(&mat7 * R(10.0), mat6);
}

#[test]
fn test_matrix_constructions() {
    let mat1 = m(3, 4, vec![1.0, 0.0, 0.0, 0.0, 0.0, 2.0, 0.0, 0.0, 0.0, 0.0, 3.0, 0.0]);
    let mat2 = m(4, 3, vec![1.0, 0.0, 0.0, 0.0, 2.0, 0.0, 0.0, 0.0, 3.0, 0.0, 0.0, 0.0]);
    assert_eq!(mat1.transpose(), mat2);
    assert_eq!(mat1, mat2.transpose());

    let mat3 = m(4, 4, vec![
        0.0, 1.0, 0.0, 0.0,
        1.0, 0.0, 0.0, 0.0,
        0.0, 0.0, 1.0, 0.0,
        0.0, 0.0, 0.0, 1.0,
    ]);
    assert_eq!(Mat::permutation(4, 0, 1), mat3);

    let mat4 = m(4, 4, vec![
        1.0, 0.0, 0.0, 0.0,
        0.0, 1.0, 0.0, 0.0,
        2.0, 0.0, 1.0, 0.0,
        0.0, 0.0, 0.0, 1.0,
    ]);
    assert_eq!(Mat::replacement(4, 0, 2, R(2.0)), mat4);
}

#[test]
fn test_matrix_operations_fractions() {
    let mat8 = Mat::new(2, 2, vec![
        Frac::new(1, 2), Frac::new(1, 3),
        Frac::new(1, 4), Frac::new(1, 5),
    ]);
    let mat9 = Mat::new(2, 1, vec![Frac::new(4, 1), Frac::new(15, 1)]);
    let mat10 = Mat::new(2, 1, vec![Frac::new(7, 1), Frac::new(4, 1)]);

    assert_eq!(&mat8 * &mat9, mat10);
}

#[test]
fn test_matrix_fmt_display() {
    let mat1 = m(3, 4, vec![0.0, 1.0, 2.0, 3.0, 4.0, 5.0, 6.0, 7.0, 8.0, 9.0, 10.0, 11.0]);
    let cells: Vec<String> = mat1.entries().iter().map(|x| format!("{:?}", x.0)).collect();
    println!("{}", mat1.to_string_with(&cells));
    assert_eq!(
        mat1.to_string_with(&cells),
        "\n[0.0, 1.0, 2.0, 3.0]\n[4.0, 5.0, 6.0, 7.0]\n[8.0, 9.0, 10.0, 11.0]"
    );
}

#[test]
fn display_of_empty_and_single_row() {
    let empty: Mat<R> = m(0, 0, vec![]);
    assert_eq!(empty.to_string_with(&vec![]), "\n");
    let row = m(1, 2, vec![1.0, 2.0]);
    let cells = vec!["a".to_string(), "b".to_string()];
    assert_eq!(row.to_string_with(&cells), "\n[a, b]");
    let col = m(2, 1, vec![1.0, 2.0]);
    assert_eq!(col.to_string_with(&cells), "\n[a]\n[b]");
}

#[test]
fn constructors_give_their_entries() {
    assert_eq!(Mat::<R>::identity(2), m(2, 2, vec![1.0, 0.0, 0.0, 1.0]));
    assert_eq!(Mat::<R>::e(1, 3), m(3, 1, vec![0.0, 1.0, 0.0]));
    assert_eq!(Mat::<R>::e(5, 2), m(2, 1, vec![0.0, 0.0]));
    assert_eq!(Mat::<R>::zero(2, 3), m(2, 3, vec![0.0; 6]));
    assert_eq!(Mat::scale_mat(3, 1, R(5.0)), m(3, 3, vec![1.0, 0.0, 0.0, 0.0, 5.0, 0.0, 0.0, 0.0, 1.0]));
    assert_eq!(Mat::<R>::permutation(3, 2, 2), Mat::identity(3));
    assert_eq!(
        Mat::<R>::permutation_from_vec(vec![2, 0, 1]),
        m(3, 3, vec![0.0, 0.0, 1.0, 1.0, 0.0, 0.0, 0.0, 1.0, 0.0])
    );
    assert_eq!(Mat::<R>::identity(0), m(0, 0, vec![]));
}

#[test]
fn accessors() {
    let a = m(2, 3, vec![1.0, 2.0, 3.0, 4.0, 5.0, 6.0]);
    assert_eq!(a.rows(), 2);
    assert_eq!(a.cols(), 3);
    assert_eq!(a.entries().len(), 6);
    assert_eq!(*a.get_unchecked(1, 0), R(4.0));
    assert_eq!(a[(0, 2)], R(3.0));
    assert_eq!(a.get_row_iter(1), &reals(vec![4.0, 5.0, 6.0])[..]);
    assert_eq!(a.get_col_iter(1), reals(vec![2.0, 5.0]));
    assert_eq!(a.get_row(0), m(3, 1, vec![1.0, 2.0, 3.0]));
    assert_eq!(a.get_col(2), m(2, 1, vec![3.0, 6.0]));
    assert_eq!(Mat::from(reals(vec![7.0, 8.0])), m(2, 1, vec![7.0, 8.0]));

    let mut b = a.clone();
    *b.get_mut_unchecked(0, 1) = R(9.0);
    assert_eq!(b, m(2, 3, vec![1.0, 9.0, 3.0, 4.0, 5.0, 6.0]));
    for x in b.get_row_iter_mut(1) {
        *x = R(0.0);
    }
    assert_eq!(b, m(2, 3, vec![1.0, 9.0, 3.0, 0.0, 0.0, 0.0]));
}

#[test]
fn row_operations() {
    let a = m(3, 2, vec![1.0, 2.0, 3.0, 4.0, 5.0, 6.0]);

    let mut s = a.clone();
    s.scale(1, R(10.0));
    assert_eq!(s, m(3, 2, vec![1.0, 2.0, 30.0, 40.0, 5.0, 6.0]));

    let mut p = a.clone();
    p.permute(0, 2);
    assert_eq!(p, m(3, 2, vec![5.0, 6.0, 3.0, 4.0, 1.0, 2.0]));
    p.permute(0, 2);
    assert_eq!(p, a);

    let mut r = a.clone();
    r.replace(0, 2, R(2.0));
    assert_eq!(r, m(3, 2, vec![1.0, 2.0, 3.0, 4.0, 7.0, 10.0]));

    let mut same = a.clone();
    same.replace(1, 1, R(2.0));
    assert_eq!(same, m(3, 2, vec![1.0, 2.0, 9.0, 12.0, 5.0, 6.0]));
}

#[test]
fn elementary_matrices_act_as_row_operations() {
    let a = m(3, 2, vec![1.0, 2.0, 3.0, 4.0, 5.0, 6.0]);

    let mut s = a.clone();
    s.scale(2, R(-3.0));
    assert_eq!(&Mat::scale_mat(3, 2, R(-3.0)) * &a, s);

    let mut p = a.clone();
    p.permute(1, 0);
    assert_eq!(&Mat::permutation(3, 1, 0) * &a, p);

    let mut r = a.clone();
    r.replace(2, 0, R(0.5));
    assert_eq!(&Mat::replacement(3, 2, 0, R(0.5)) * &a, r);

    let v = &Mat::<R>::permutation_from_vec(vec![1, 2, 0]) * &a;
    assert_eq!(v, m(3, 2, vec![3.0, 4.0, 5.0, 6.0, 1.0, 2.0]));

    assert_eq!(&a * &Mat::e(1, 2), a.get_col(1));
    assert_eq!(&a * &Mat::identity(2), a);
    assert_eq!(&Mat::identity(3) * &a, a);
}

#[test]
fn arithmetic_laws_on_examples() {
    let a = m(2, 2, vec![1.0, 2.0, 3.0, 4.0]);
    let b = m(2, 2, vec![0.5, -1.0, 2.0, 8.0]);
    assert_eq!(&a + &b, &b + &a);
    assert_eq!(a.transpose().transpose(), a);
    assert_eq!(a.transpose(), m(2, 2, vec![1.0, 3.0, 2.0, 4.0]));
    assert_eq!(&a * &b, m(2, 2, vec![4.5, 15.0, 9.5, 29.0]));
    assert_eq!(&a * R(2.0), m(2, 2, vec![2.0, 4.0, 6.0, 8.0]));
    let wide = m(2, 0, vec![]);
    let tall = m(0, 3, vec![]);
    assert_eq!(&wide * &tall, Mat::zero(2, 3));
}

#[test]
fn the_two_element_field() {
    let a: Mat<bool> = Mat::new(2, 2, vec![true, true, false, true]);
    assert_eq!(&a * &a, Mat::new(2, 2, vec![true, false, false, true]));
    assert_eq!(&a + &a, Mat::zero(2, 2));
    assert!(<bool as Field>::mul(&true, &true));
    assert!(!<bool as Field>::add(&true, &true));
}

#[test]
fn squared_distance_sums_squared_differences() {
    let a = m(2, 2, vec![1.0, 2.0, 3.0, 4.0]);
    let b = m(2, 2, vec![1.0, 0.0, 5.0, 4.0]);
    assert_eq!(a.squared_distance(&b), R(8.0));
    assert_eq!(a.squared_distance(&a), R(0.0));
    let x = Mat::new(1, 2, vec![Frac::new(1, 2), Frac::new(1, 3)]);
    let y = Mat::new(1, 2, vec![Frac::new(0, 1), Frac::new(1, 1)]);
    assert_eq!(x.squared_distance(&y), Frac::new(25, 36));
}

#[test]
fn replacement_of_a_row_by_itself() {
    let a = m(2, 2, vec![1.0, 2.0, 3.0, 4.0]);
    assert_eq!(Mat::replacement(2, 1, 1, R(2.0)), m(2, 2, vec![1.0, 0.0, 0.0, 3.0]));
    let mut r = a.clone();
    r.replace(1, 1, R(2.0));
    assert_eq!(&Mat::replacement(2, 1, 1, R(2.0)) * &a, r);
    assert_eq!(r, m(2, 2, vec![1.0, 2.0, 9.0, 12.0]));
}

#[test]
fn column_entries_change_in_place() {
    let mut a = m(3, 2, vec![1.0, 2.0, 3.0, 4.0, 5.0, 6.0]);
    for k in 0..a.rows() {
        let x = a.get_col_iter_mut(1, k);
        *x = R(x.0 * 10.0);
    }
    assert_eq!(a, m(3, 2, vec![1.0, 20.0, 3.0, 40.0, 5.0, 60.0]));
}

#[test]
fn undoing_row_operations() {
    let a = Mat::new(2, 2, vec![Frac::new(1, 2), Frac::new(3, 1), Frac::new(-2, 5), Frac::new(7, 3)]);
    let mut s = a.clone();
    s.scale(0, Frac::new(4, 3));
    s.scale(0, Frac::new(3, 4));
    assert_eq!(s, a);
    let mut r = a.clone();
    r.replace(0, 1, Frac::new(5, 2));
    r.replace(0, 1, Frac::new(0, 1).sub(&Frac::new(5, 2)));
    assert_eq!(r, a);
}

#[test]
fn transpose_of_a_product() {
    let a = Mat::new(2, 3, vec![
        Frac::new(1, 1), Frac::new(2, 1), Frac::new(0, 1),
        Frac::new(-1, 1), Frac::new(1, 3), Frac::new(4, 1),
    ]);
    let b = Mat::new(3, 1, vec![Frac::new(2, 1), Frac::new(1, 2), Frac::new(3, 1)]);
    assert_eq!((&a * &b).transpose(), &b.transpose() * &a.transpose());
}

#[test]
fn results_store_exactly_their_cells() {
    let exact = |x: &Mat<R>| x.entries().len() == x.rows() * x.cols();
    let a = m(2, 3, vec![1.0, 2.0, 3.0, 4.0, 5.0, 6.0]);
    let b = m(3, 2, vec![1.0, 0.0, 0.0, 1.0, 1.0, 1.0]);
    assert!(exact(&(&a * &b)));
    assert!(exact(&(&a + &a)));
    assert!(exact(&(&a * R(3.0))));
    assert!(exact(&a.transpose()));
    assert!(exact(&a.get_row(1)));
    assert!(exact(&a.get_col(2)));
    assert!(exact(&Mat::replacement(3, 1, 1, R(2.0))));
    assert!(exact(&Mat::permutation_from_vec(vec![1, 0])));
    let mut c = a.clone();
    c.scale(1, R(2.0));
    c.permute(0, 1);
    c.replace(0, 1, R(-1.0));
    assert!(exact(&c));
}
