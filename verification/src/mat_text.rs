use vstd::prelude::*;

use crate::field::Field;
use crate::mat::Mat;

verus! {

/// The texts of `parts`, with `sep` between each two of them.
pub open spec fn joined(parts: Seq<Seq<char>>, sep: Seq<char>) -> Seq<char>
    decreases parts.len(),
{
    if parts.len() == 0 {
        Seq::empty()
    } else if parts.len() == 1 {
        parts[0]
    } else {
        joined(parts.drop_last(), sep) + sep + parts.last()
    }
}

/// Row `r` of a grid with `cols` columns: its cells as a list, `[a, b, c]`.
pub open spec fn row_text(cells: Seq<Seq<char>>, cols: nat, r: int) -> Seq<char> {
    seq!['['] + joined(cells.subrange(r * cols, r * cols + cols), seq![',', ' ']) + seq![']']
}

/// A grid of `rows` rows and `cols` columns of cells: a newline, then the rows as lists,
/// one per line.
pub open spec fn grid_text(cells: Seq<Seq<char>>, rows: nat, cols: nat) -> Seq<char> {
    seq!['\n'] + joined(Seq::new(rows, |r: int| row_text(cells, cols, r)), seq!['\n'])
}

/// Appending one more part to a joined list.
pub proof fn lemma_joined_push(parts: Seq<Seq<char>>, sep: Seq<char>, x: Seq<char>)
    ensures
        joined(parts.push(x), sep) == (if parts.len() == 0 {
            x
        } else {
            joined(parts, sep) + sep + x
        }),
{
    assert(parts.push(x).drop_last() =~= parts);
}

impl<F: Field> Mat<F> {
    /// The matrix as text, given the text of each stored entry, in the layout of a matrix's
    /// display: a newline, then each row as a list `[a, b, c]`, the rows on lines of their own.
    pub fn to_string_with(&self, cells: &Vec<String>) -> (s: String)
        requires
            self@.rows * self@.cols <= cells@.len(),
        ensures
            s@ == grid_text(cells@.map_values(|t: String| t@), self@.rows, self@.cols),
    {
        let ghost texts = cells@.map_values(|t: String| t@);
        let ghost rows_text = Seq::new(self@.rows, |r: int| row_text(texts, self@.cols, r));
        let rows = self.rows();
        let cols = self.cols();
        let len = cells.len();
        let mut s = String::new();
        proof {
            reveal_strlit("\n");
            reveal_strlit("[");
            reveal_strlit("]");
            reveal_strlit(", ");
        }
        s.append("\n");
        proof {
            assert(s@ =~= seq!['\n'] + joined(rows_text.take(0), seq!['\n']));
        }
        let mut r: usize = 0;
        while r < rows
            invariant
                r <= rows,
                rows == self@.rows,
                cols == self@.cols,
                len == cells@.len(),
                rows * cols <= len,
                texts == cells@.map_values(|t: String| t@),
                rows_text == Seq::new(self@.rows, |r: int| row_text(texts, self@.cols, r)),
                s@ == seq!['\n'] + joined(rows_text.take(r as int), seq!['\n']),
            decreases rows - r,
        {
            proof {
                crate::mat_model::lemma_row_step(cols as nat, r as int);
                assert((r + 1) * cols <= rows * cols) by (nonlinear_arith)
                    requires
                        r + 1 <= rows,
                ;
            }
            let start = r * cols;
            let mut t = String::new();
            t.append("[");
            proof {
                reveal_strlit("[");
                assert(t@ =~= seq!['['] + joined(texts.subrange(start as int, start as int), seq![',', ' ']));
            }
            let mut c: usize = 0;
            while c < cols
                invariant
                    c <= cols,
                    start == r * cols,
                    start + cols <= len,
                    len == cells@.len(),
                    texts == cells@.map_values(|t: String| t@),
                    t@ == seq!['['] + joined(texts.subrange(start as int, start + c), seq![',', ' ']),
                decreases cols - c,
            {
                if c > 0 {
                    t.append(", ");
                }
                t.append(cells[start + c].as_str());
                proof {
                    reveal_strlit(", ");
                    lemma_joined_push(
                        texts.subrange(start as int, start + c),
                        seq![',', ' '],
                        texts[start + c],
                    );
                    assert(texts.subrange(start as int, start + c).push(texts[start + c])
                        =~= texts.subrange(start as int, start + c + 1));
                    assert(t@ =~= seq!['['] + joined(texts.subrange(start as int, start + c + 1), seq![',', ' ']));
                }
                c = c + 1;
            }
            t.append("]");
            if r > 0 {
                s.append("\n");
            }
            s.append(t.as_str());
            proof {
                reveal_strlit("]");
                reveal_strlit("\n");
                assert(t@ =~= rows_text[r as int]);
                lemma_joined_push(rows_text.take(r as int), seq!['\n'], rows_text[r as int]);
                assert(rows_text.take(r as int).push(rows_text[r as int]) =~= rows_text.take(r + 1));
                assert(s@ =~= seq!['\n'] + joined(rows_text.take(r + 1), seq!['\n']));
            }
            r = r + 1;
        }
        proof {
            assert(rows_text.take(rows as int) =~= rows_text);
        }
        s
    }
}

} // verus!
