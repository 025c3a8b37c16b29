//! The active piece: collision testing, movement, rotation, locking and
//! the hard drop.

use vstd::prelude::*;
use crate::matrix::{grid, matrix_wf, set_cell, Matrix};
use crate::pieces::{shape_wf, state_ok, PieceColor, PieceShape, RotationState};

verus! {

/// A live, positioned piece: a shape, its colour, the anchor position
/// (row, column) and the current rotation state index.
pub struct Piece {
    pub shape: PieceShape,
    pub color: PieceColor,
    pub row: i32,
    pub col: i32,
    pub rotation: usize,
}

/// The cell at (r, c) exists in the matrix and is unoccupied.
pub open spec fn cell_open(m: Seq<Vec<PieceColor>>, r: int, c: int) -> bool {
    &&& 0 <= r < m.len()
    &&& 0 <= c < m[0]@.len()
    &&& m[r]@[c] == PieceColor::Empty
}

/// Every cell of the rotation state, anchored at (row, col), lies inside
/// the matrix and on an unoccupied cell.
pub open spec fn state_fits(m: Seq<Vec<PieceColor>>, st: Seq<(i32, i32)>, row: int, col: int) -> bool {
    forall|k: int|
        0 <= k < st.len() ==> cell_open(m, row + (#[trigger] st[k]).0, col + st[k].1)
}

/// Every cell of the rotation state, anchored at (row, col), lies inside
/// the matrix (occupied or not).
pub open spec fn state_in_bounds(
    m: Seq<Vec<PieceColor>>,
    st: Seq<(i32, i32)>,
    row: int,
    col: int,
) -> bool {
    forall|k: int|
        0 <= k < st.len() ==> {
            &&& 0 <= row + (#[trigger] st[k]).0 < m.len()
            &&& 0 <= col + st[k].1 < m[0]@.len()
        }
}

/// The rotation state, anchored at (row, col), covers the cell (r, c).
pub open spec fn occupies(st: Seq<(i32, i32)>, row: int, col: int, r: int, c: int) -> bool {
    exists|k: int|
        0 <= k < st.len() && row + (#[trigger] st[k]).0 == r && col + st[k].1 == c
}

/// The grid after locking: every covered cell takes the piece's
/// colour, every other cell keeps its own.
pub open spec fn locked_grid(
    g: Seq<Seq<PieceColor>>,
    st: Seq<(i32, i32)>,
    row: int,
    col: int,
    color: PieceColor,
) -> Seq<Seq<PieceColor>> {
    Seq::new(
        g.len(),
        |r: int|
            Seq::new(
                g[r].len(),
                |c: int|
                    if occupies(st, row, col, r, c) {
                        color
                    } else {
                        g[r][c]
                    },
            ),
    )
}

/// The anchor row at which a piece dropping straight down from `row`
/// comes to rest: the last row of the unbroken run of fitting positions
/// below, or `row` itself when the position one below does not fit.
pub open spec fn drop_row(m: Seq<Vec<PieceColor>>, st: Seq<(i32, i32)>, row: int, col: int) -> int
    decreases m.len() - row,
        when matrix_wf(m) && state_ok(st)
        via drop_row_decreases
{
    if state_fits(m, st, row + 1, col) {
        drop_row(m, st, row + 1, col)
    } else {
        row
    }
}

#[via_fn]
proof fn drop_row_decreases(m: Seq<Vec<PieceColor>>, st: Seq<(i32, i32)>, row: int, col: int) {
    if state_fits(m, st, row + 1, col) {
        assert(cell_open(m, row + 1 + st[0].0, col + st[0].1));
    }
}

impl Piece {
    /// A well-formed piece has a well-formed shape and a valid rotation
    /// state index.
    pub open spec fn wf(self) -> bool {
        &&& shape_wf(self.shape@)
        &&& self.rotation < 4
    }

    /// The offsets of the rotation state the piece currently shows.
    pub open spec fn active_state(self) -> Seq<(i32, i32)> {
        self.shape@[self.rotation as int]@
    }

    /// Builds a freshly spawned piece: anchored at the top of the
    /// matrix, in rotation state 0.
    pub fn new(shape: PieceShape, color: PieceColor) -> (p: Piece)
        ensures
            p.shape == shape,
            p.color == color,
            p.row == 0,
            p.col == 3,
            p.rotation == 0,
    {
        Piece { shape, color, row: 0, col: 3, rotation: 0 }
    }

    /// Attempts to translate the piece by the given column and row
    /// delta. The move succeeds, and the position changes, exactly when
    /// every resulting cell is inside the matrix and unoccupied;
    /// otherwise the piece is left untouched.
    pub fn movement(&mut self, matrix: &Matrix, d_col: i32, d_row: i32) -> (ok: bool)
        requires
            matrix_wf(matrix@),
            old(self).wf(),
        ensures
            ok == state_fits(
                matrix@,
                old(self).active_state(),
                old(self).row + d_row,
                old(self).col + d_col,
            ),
            ok ==> final(self).row == old(self).row + d_row && final(self).col == old(self).col
                + d_col && final(self).shape == old(self).shape && final(self).color == old(self).color
                && final(self).rotation == old(self).rotation,
            !ok ==> *final(self) == *old(self),
            final(self).wf(),
    {
        let nrow = self.row as i64 + d_row as i64;
        let ncol = self.col as i64 + d_col as i64;
        let ok = state_fits_at(matrix, &self.shape[self.rotation], nrow, ncol);
        if ok {
            proof {
                assert(cell_open(
                    matrix@,
                    nrow + self.active_state()[0].0,
                    ncol + self.active_state()[0].1,
                ));
            }
            self.row = nrow as i32;
            self.col = ncol as i32;
        }
        ok
    }

    /// Rotates the piece by the given number of quarter turns: the new
    /// rotation state index is (current + amount) mod 4, and the turn is
    /// applied exactly when every cell of the new state is inside the
    /// matrix and unoccupied.
    pub fn rotate(&mut self, matrix: &Matrix, amount: usize)
        requires
            matrix_wf(matrix@),
            old(self).wf(),
        ensures
            state_fits(
                matrix@,
                old(self).shape@[((old(self).rotation + amount) % 4) as int]@,
                old(self).row as int,
                old(self).col as int,
            ) ==> final(self).rotation == (old(self).rotation + amount) % 4 && final(self).shape
                == old(self).shape && final(self).color == old(self).color && final(self).row
                == old(self).row && final(self).col == old(self).col,
            !state_fits(
                matrix@,
                old(self).shape@[((old(self).rotation + amount) % 4) as int]@,
                old(self).row as int,
                old(self).col as int,
            ) ==> *final(self) == *old(self),
            final(self).wf(),
    {
        let new_rotation = (self.rotation + amount % 4) % 4;
        proof {
            vstd::arithmetic::div_mod::lemma_add_mod_noop(
                self.rotation as int,
                amount as int,
                4,
            );
            assert(self.rotation % 4 == self.rotation as int);
            assert(new_rotation == (self.rotation + amount) % 4);
        }
        if state_fits_at(matrix, &self.shape[new_rotation], self.row as i64, self.col as i64) {
            self.rotation = new_rotation;
        }
    }

    /// Writes the piece's colour into every cell it covers; all other
    /// cells keep their colour. This is terminal for the piece: the
    /// caller replaces it with a freshly spawned one.
    pub fn lock(&self, matrix: &mut Matrix)
        requires
            matrix_wf(old(matrix)@),
            self.wf(),
            state_in_bounds(old(matrix)@, self.active_state(), self.row as int, self.col as int),
        ensures
            final(matrix)@.len() == old(matrix)@.len(),
            forall|r: int|
                0 <= r < final(matrix)@.len() ==> (#[trigger] final(matrix)@[r]@).len() == old(
                    matrix,
                )@[r]@.len(),
            forall|r: int, c: int|
                0 <= r < final(matrix)@.len() && 0 <= c < final(matrix)@[r]@.len()
                    ==> final(matrix)@[r]@[c] == (if occupies(
                    self.active_state(),
                    self.row as int,
                    self.col as int,
                    r,
                    c,
                ) {
                    self.color
                } else {
                    old(matrix)@[r]@[c]
                }),
            matrix_wf(final(matrix)@),
            grid(final(matrix)@) == locked_grid(
                grid(old(matrix)@),
                self.active_state(),
                self.row as int,
                self.col as int,
                self.color,
            ),
    {
        let ghost m0 = matrix@;
        let st: &RotationState = &self.shape[self.rotation];
        let mut k: usize = 0;
        while k < st.len()
            invariant
                matrix_wf(matrix@),
                matrix_wf(m0),
                k <= st@.len(),
                st@ == self.active_state(),
                self.wf(),
                state_in_bounds(m0, st@, self.row as int, self.col as int),
                matrix@.len() == m0.len(),
                forall|r: int| 0 <= r < m0.len() ==> (#[trigger] matrix@[r]@).len() == m0[r]@.len(),
                forall|r: int, c: int|
                    0 <= r < m0.len() && 0 <= c < m0[r]@.len() ==> matrix@[r]@[c] == (if occupies(
                        st@.take(k as int),
                        self.row as int,
                        self.col as int,
                        r,
                        c,
                    ) {
                        self.color
                    } else {
                        m0[r]@[c]
                    }),
            decreases st@.len() - k,
        {
            let (dr, dc) = st[k];
            let r = (self.row as i64 + dr as i64) as usize;
            let c = (self.col as i64 + dc as i64) as usize;
            set_cell(matrix, r, c, self.color);
            proof {
                assert(st@.take(k + 1).last() == st@[k as int]);
                assert(st@.take(k + 1).drop_last() =~= st@.take(k as int));
                assert forall|rr: int, cc: int|
                    0 <= rr < m0.len() && 0 <= cc < m0[rr]@.len() implies matrix@[rr]@[cc] == (
                if occupies(st@.take(k + 1), self.row as int, self.col as int, rr, cc) {
                    self.color
                } else {
                    m0[rr]@[cc]
                }) by {
                    if rr == r && cc == c {
                        assert(occupies(
                            st@.take(k + 1),
                            self.row as int,
                            self.col as int,
                            rr,
                            cc,
                        )) by {
                            assert(st@.take(k + 1)[k as int] == st@[k as int]);
                        }
                    } else {
                        if occupies(st@.take(k + 1), self.row as int, self.col as int, rr, cc) {
                            let w = choose|w: int|
                                0 <= w < st@.take(k + 1).len() && self.row + (#[trigger] st@.take(
                                    k + 1,
                                )[w]).0 == rr && self.col + st@.take(k + 1)[w].1 == cc;
                            assert(w < k);
                            assert(st@.take(k as int)[w] == st@[w]);
                        }
                        if occupies(st@.take(k as int), self.row as int, self.col as int, rr, cc) {
                            let w = choose|w: int|
                                0 <= w < st@.take(k as int).len() && self.row + (
                                #[trigger] st@.take(k as int)[w]).0 == rr && self.col + st@.take(
                                    k as int,
                                )[w].1 == cc;
                            assert(st@.take(k + 1)[w] == st@[w]);
                        }
                    }
                }
            }
            k += 1;
        }
        proof {
            assert(st@.take(st@.len() as int) =~= st@);
            assert(grid(matrix@) =~~= locked_grid(
                grid(m0),
                st@,
                self.row as int,
                self.col as int,
                self.color,
            ));
        }
    }

    /// Repeatedly applies the one-row-down movement test until it
    /// fails, then locks the piece at the final valid position.
    pub fn hard_drop(&mut self, matrix: &mut Matrix)
        requires
            matrix_wf(old(matrix)@),
            old(self).wf(),
            state_in_bounds(
                old(matrix)@,
                old(self).active_state(),
                old(self).row as int,
                old(self).col as int,
            ),
        ensures
            final(self).shape == old(self).shape && final(self).color == old(self).color
                && final(self).rotation == old(self).rotation && final(self).col == old(self).col,
            final(self).wf(),
            old(self).row <= final(self).row,
            forall|r: int|
                old(self).row < r <= final(self).row ==> state_fits(
                    old(matrix)@,
                    old(self).active_state(),
                    r,
                    old(self).col as int,
                ),
            !state_fits(
                old(matrix)@,
                old(self).active_state(),
                final(self).row + 1,
                old(self).col as int,
            ),
            state_in_bounds(
                old(matrix)@,
                old(self).active_state(),
                final(self).row as int,
                old(self).col as int,
            ),
            final(matrix)@.len() == old(matrix)@.len(),
            forall|r: int|
                0 <= r < final(matrix)@.len() ==> (#[trigger] final(matrix)@[r]@).len() == old(
                    matrix,
                )@[r]@.len(),
            forall|r: int, c: int|
                0 <= r < final(matrix)@.len() && 0 <= c < final(matrix)@[r]@.len()
                    ==> final(matrix)@[r]@[c] == (if occupies(
                    old(self).active_state(),
                    final(self).row as int,
                    old(self).col as int,
                    r,
                    c,
                ) {
                    old(self).color
                } else {
                    old(matrix)@[r]@[c]
                }),
            matrix_wf(final(matrix)@),
            final(self).row == drop_row(
                old(matrix)@,
                old(self).active_state(),
                old(self).row as int,
                old(self).col as int,
            ),
            grid(final(matrix)@) == locked_grid(
                grid(old(matrix)@),
                old(self).active_state(),
                final(self).row as int,
                old(self).col as int,
                old(self).color,
            ),
    {
        loop
            invariant
                matrix_wf(matrix@),
                matrix@ == old(matrix)@,
                self.wf(),
                self.shape == old(self).shape,
                self.color == old(self).color,
                self.rotation == old(self).rotation,
                self.col == old(self).col,
                old(self).row <= self.row,
                state_in_bounds(
                    matrix@,
                    self.active_state(),
                    self.row as int,
                    self.col as int,
                ),
                forall|r: int|
                    old(self).row < r <= self.row ==> state_fits(
                        matrix@,
                        old(self).active_state(),
                        r,
                        old(self).col as int,
                    ),
                drop_row(matrix@, self.active_state(), self.row as int, self.col as int)
                    == drop_row(
                    matrix@,
                    old(self).active_state(),
                    old(self).row as int,
                    old(self).col as int,
                ),
            ensures
                matrix@ == old(matrix)@,
                self.wf(),
                self.shape == old(self).shape,
                self.color == old(self).color,
                self.rotation == old(self).rotation,
                self.col == old(self).col,
                old(self).row <= self.row,
                state_in_bounds(
                    matrix@,
                    self.active_state(),
                    self.row as int,
                    self.col as int,
                ),
                forall|r: int|
                    old(self).row < r <= self.row ==> state_fits(
                        matrix@,
                        old(self).active_state(),
                        r,
                        old(self).col as int,
                    ),
                !state_fits(
                    matrix@,
                    old(self).active_state(),
                    self.row + 1,
                    old(self).col as int,
                ),
                self.row as int == drop_row(
                    matrix@,
                    old(self).active_state(),
                    old(self).row as int,
                    old(self).col as int,
                ),
            decreases matrix@.len() - self.row,
        {
            proof {
                assert(0 <= self.row + self.active_state()[0].0 < matrix@.len());
            }
            if !self.movement(matrix, 0, 1) {
                break;
            }
        }
        self.lock(matrix);
    }
}

/// Tests whether the rotation state, anchored at (row, col), lies
/// entirely on open matrix cells.
pub fn state_fits_at(matrix: &Matrix, st: &RotationState, row: i64, col: i64) -> (ok: bool)
    requires
        matrix_wf(matrix@),
        -0x8000_0000_0000 <= row <= 0x8000_0000_0000,
        -0x8000_0000_0000 <= col <= 0x8000_0000_0000,
    ensures
        ok == state_fits(matrix@, st@, row as int, col as int),
{
    let height = matrix.len() as i64;
    let width = matrix[0].len() as i64;
    let mut k: usize = 0;
    while k < st.len()
        invariant
            matrix_wf(matrix@),
            height == matrix@.len(),
            width == matrix@[0]@.len(),
            k <= st@.len(),
            -0x8000_0000_0000 <= row <= 0x8000_0000_0000,
            -0x8000_0000_0000 <= col <= 0x8000_0000_0000,
            forall|j: int|
                0 <= j < k ==> cell_open(matrix@, row + (#[trigger] st@[j]).0, col + st@[j].1),
        decreases st@.len() - k,
    {
        let (dr, dc) = st[k];
        let r = row + dr as i64;
        let c = col + dc as i64;
        if r < 0 || r >= height || c < 0 || c >= width {
            return false;
        }
        if matrix[r as usize][c as usize] != PieceColor::Empty {
            return false;
        }
        k += 1;
    }
    true
}

} // verus!
