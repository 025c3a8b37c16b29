//! The playfield grid: cell storage, filled-row detection and row removal.

use vstd::prelude::*;
use crate::pieces::PieceColor;

verus! {

/// The playfield: a grid of cell colours, row 0 at the top.
pub type Matrix = Vec<Vec<PieceColor>>;

/// The rows of a matrix as plain sequences of cells.
pub open spec fn grid(m: Seq<Vec<PieceColor>>) -> Seq<Seq<PieceColor>> {
    m.map_values(|row: Vec<PieceColor>| row@)
}

/// A well-formed matrix is rectangular with at least one row and one
/// column, and small enough for cell coordinates to fit comfortably in
/// the machine integers the piece logic uses.
pub open spec fn matrix_wf(m: Seq<Vec<PieceColor>>) -> bool {
    &&& 1 <= m.len() <= 1_000_000
    &&& 1 <= m[0]@.len() <= 1_000_000
    &&& forall|r: int| 0 <= r < m.len() ==> (#[trigger] m[r]@).len() == m[0]@.len()
}

/// A row is filled when every one of its cells is occupied; an empty
/// cell anywhere in the row leaves it unfilled.
pub open spec fn row_filled(m: Seq<Vec<PieceColor>>, r: int) -> bool {
    forall|c: int| 0 <= c < m[r]@.len() ==> m[r]@[c] != PieceColor::Empty
}

/// `row_filled`, stated on a grid of plain sequences.
pub open spec fn grid_row_filled(g: Seq<Seq<PieceColor>>, r: int) -> bool {
    forall|c: int| 0 <= c < g[r].len() ==> g[r][c] != PieceColor::Empty
}

/// The indices of the filled rows among the first `n` rows of the
/// grid, in increasing order.
pub open spec fn filled_upto(g: Seq<Seq<PieceColor>>, n: int) -> Seq<usize>
    decreases n,
{
    if n <= 0 {
        Seq::empty()
    } else if grid_row_filled(g, n - 1) {
        filled_upto(g, n - 1).push((n - 1) as usize)
    } else {
        filled_upto(g, n - 1)
    }
}

/// One removal step: row `r` leaves the grid, every row above it moves
/// down one place, and a fresh empty row of the same width enters at
/// the top.
pub open spec fn clear_shift(g: Seq<Seq<PieceColor>>, r: int) -> Seq<Seq<PieceColor>> {
    g.remove(r).insert(0, Seq::new(g[r].len(), |c: int| PieceColor::Empty))
}

/// The effect of removing the listed rows one after the other, each
/// removal seeing the shifts done by the previous ones.
pub open spec fn remove_rows_spec(g: Seq<Seq<PieceColor>>, rows: Seq<usize>) -> Seq<Seq<PieceColor>>
    decreases rows.len(),
{
    if rows.len() == 0 {
        g
    } else {
        remove_rows_spec(clear_shift(g, rows[0] as int), rows.skip(1))
    }
}

proof fn lemma_remove_rows_snoc(g: Seq<Seq<PieceColor>>, rows: Seq<usize>, x: usize)
    ensures
        remove_rows_spec(g, rows.push(x)) == clear_shift(remove_rows_spec(g, rows), x as int),
    decreases rows.len(),
{
    if rows.len() == 0 {
        assert(rows.push(x)[0] == x);
        assert(rows.push(x).skip(1) =~= Seq::<usize>::empty());
        assert(remove_rows_spec(clear_shift(g, x as int), Seq::<usize>::empty()) == clear_shift(
            g,
            x as int,
        ));
    } else {
        assert(rows.push(x)[0] == rows[0]);
        assert(rows.push(x).skip(1) =~= rows.skip(1).push(x));
        lemma_remove_rows_snoc(clear_shift(g, rows[0] as int), rows.skip(1), x);
        assert(remove_rows_spec(g, rows.push(x)) == remove_rows_spec(
            clear_shift(g, rows[0] as int),
            rows.skip(1).push(x),
        ));
    }
}

/// Writes one cell of the matrix, leaving every other cell unchanged.
pub fn set_cell(matrix: &mut Matrix, r: usize, c: usize, v: PieceColor)
    requires
        r < old(matrix)@.len(),
        c < old(matrix)@[r as int]@.len(),
    ensures
        final(matrix)@.len() == old(matrix)@.len(),
        forall|i: int| 0 <= i < final(matrix)@.len() && i != r ==> final(matrix)@[i] == old(matrix)@[i],
        final(matrix)@[r as int]@ == old(matrix)@[r as int]@.update(c as int, v),
{
    let mut row: Vec<PieceColor> = matrix[r].clone();
    proof {
        assert(row@ =~= matrix@[r as int]@);
    }
    row[c] = v;
    matrix[r] = row;
}

/// Scans a row left to right, counting occupied cells and stopping at
/// the first empty one; the row counts as filled only when the count
/// reaches the full width.
fn row_filled_exec(row: &Vec<PieceColor>, width: usize) -> (b: bool)
    requires
        row@.len() == width,
    ensures
        b == (forall|c: int| 0 <= c < row@.len() ==> row@[c] != PieceColor::Empty),
{
    let mut count: usize = 0;
    while count < width
        invariant_except_break
            count <= width,
            row@.len() == width,
            forall|c: int| 0 <= c < count ==> row@[c] != PieceColor::Empty,
        ensures
            count <= width,
            row@.len() == width,
            forall|c: int| 0 <= c < count ==> row@[c] != PieceColor::Empty,
            count < width ==> row@[count as int] == PieceColor::Empty,
        decreases width - count,
    {
        if row[count] == PieceColor::Empty {
            break;
        }
        count += 1;
    }
    count == width
}

/// Returns the indices of all filled rows, in increasing order.
pub fn filled_rows(matrix: &mut Matrix) -> (rows: Vec<usize>)
    requires
        matrix_wf(old(matrix)@),
    ensures
        final(matrix)@ == old(matrix)@,
        forall|a: int, b: int| 0 <= a < b < rows@.len() ==> rows@[a] < rows@[b],
        forall|k: int|
            0 <= k < rows@.len() ==> (#[trigger] rows@[k]) < old(matrix)@.len()
                && row_filled(old(matrix)@, rows@[k] as int),
        forall|r: int|
            0 <= r < old(matrix)@.len() && row_filled(old(matrix)@, r) ==> rows@.contains(
                r as usize,
            ),
        rows@ == filled_upto(grid(old(matrix)@), old(matrix)@.len() as int),
{
    let width = matrix[0].len();
    let mut rows: Vec<usize> = Vec::new();
    let mut i: usize = 0;
    while i < matrix.len()
        invariant
            matrix_wf(matrix@),
            i <= matrix@.len(),
            width == matrix@[0]@.len(),
            forall|a: int, b: int| 0 <= a < b < rows@.len() ==> rows@[a] < rows@[b],
            forall|k: int|
                0 <= k < rows@.len() ==> (#[trigger] rows@[k]) < i && row_filled(
                    matrix@,
                    rows@[k] as int,
                ),
            forall|r: int| 0 <= r < i && row_filled(matrix@, r) ==> rows@.contains(r as usize),
            rows@ == filled_upto(grid(matrix@), i as int),
        decreases matrix@.len() - i,
    {
        let ghost rows_before = rows@;
        let filled = row_filled_exec(&matrix[i], width);
        if filled {
            rows.push(i);
        }
        proof {
            assert(grid(matrix@)[i as int] == matrix@[i as int]@);
            assert(grid_row_filled(grid(matrix@), i as int) == row_filled(matrix@, i as int));
            assert forall|r: int| 0 <= r < i + 1 && row_filled(matrix@, r) implies rows@.contains(
                r as usize,
            ) by {
                if r < i {
                    let k = choose|k: int|
                        0 <= k < rows_before.len() && rows_before[k] == r as usize;
                    assert(rows@[k] == r as usize);
                } else {
                    assert(filled);
                    assert(rows@[rows@.len() - 1] == i);
                }
            }
        }
        i += 1;
    }
    rows
}

/// Clears each listed row and shifts the rows above it down by one; the
/// rows are processed in the order given, each removal seeing the
/// shifts done by the previous ones.
pub fn remove_rows(matrix: &mut Matrix, remove: Vec<usize>)
    requires
        matrix_wf(old(matrix)@),
        forall|k: int| 0 <= k < remove@.len() ==> (#[trigger] remove@[k]) < old(matrix)@.len(),
    ensures
        grid(final(matrix)@) == remove_rows_spec(grid(old(matrix)@), remove@),
        matrix_wf(final(matrix)@),
        final(matrix)@.len() == old(matrix)@.len(),
        final(matrix)@[0]@.len() == old(matrix)@[0]@.len(),
{
    let ghost g0 = grid(old(matrix)@);
    let width = matrix[0].len();
    let height = matrix.len();
    let mut k: usize = 0;
    while k < remove.len()
        invariant
            matrix_wf(matrix@),
            k <= remove@.len(),
            matrix@.len() == height,
            matrix@[0]@.len() == width,
            forall|j: int| 0 <= j < remove@.len() ==> (#[trigger] remove@[j]) < height,
            grid(matrix@) == remove_rows_spec(g0, remove@.take(k as int)),
        decreases remove@.len() - k,
    {
        let ghost g_before = grid(matrix@);
        let r = remove[k];
        matrix.remove(r);
        let mut empty_row: Vec<PieceColor> = Vec::new();
        let mut c: usize = 0;
        while c < width
            invariant
                c <= width,
                empty_row@.len() == c,
                forall|j: int| 0 <= j < c ==> empty_row@[j] == PieceColor::Empty,
            decreases width - c,
        {
            empty_row.push(PieceColor::Empty);
            c += 1;
        }
        matrix.insert(0, empty_row);
        proof {
            assert(empty_row@ =~= Seq::new(g_before[r as int].len(), |j: int| PieceColor::Empty));
            assert(grid(matrix@) =~= clear_shift(g_before, r as int));
            assert(remove@.take(k as int).push(remove@[k as int]) =~= remove@.take(k + 1));
            lemma_remove_rows_snoc(g0, remove@.take(k as int), r);
        }
        k += 1;
    }
    proof {
        assert(remove@.take(remove@.len() as int) =~= remove@);
    }
}

} // verus!
