# algebra

Matrices over a field and monomial orders on multidegrees, written in Verus.

- `src/field.rs`: the `Field` trait that matrix entries implement, with the laws its
  operations obey, and its implementation for `bool` (the two-element field).
- `src/mat_model.rs`: the mathematical value of a matrix (`MatModel`) and of each matrix
  the constructors build, with the row-major index arithmetic.
- `src/mat.rs`: `Mat`, its constructors, elementary row operations, accessors, sums and
  products, each with a contract over `MatModel`.
- `src/mat_laws.rs`: what holds across the matrix functions: the elementary matrices perform
  their row operations, the identity is neutral, transposition is an involution, and more.
- `src/mat_text.rs`: a matrix laid out as text from the texts of its entries.
- `src/mdeg.rs`, `src/ord.rs`, `src/ord_laws.rs`: multidegrees, the lexicographic, reverse
  lexicographic and graded orders on them, and the laws of a monomial order.
- `app/lib.rs`: `Display` for matrices and approximate comparison, which rest on how the
  scalar type formats itself and on its tolerance.

`Mat` implements `Index<(usize, usize)>` but not `IndexMut`: the specification Verus gives
`IndexMut` admits no precondition, so the check that `r * cols + c` is a stored index cannot
be stated for `m[(r, c)] = x`. `Mat::get_mut_unchecked(r, c)` gives the same mutable
reference under that precondition, and `Mat::get_col_iter_mut(c, k)` the one for row `k` of
column `c`.
