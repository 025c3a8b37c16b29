//! The orchestrating per-frame state machine: gravity, input handling,
//! DAS/ARR auto-repeat, line clearing and the next-piece queue.

use vstd::prelude::*;
use crate::matrix::{filled_rows, filled_upto, grid, matrix_wf, remove_rows, remove_rows_spec, Matrix};
use crate::piece::{drop_row, locked_grid, state_fits, state_in_bounds, Piece};
use crate::pieces::{
    create_piece_map, piece_map_wf, shape_view, shape_wf, state_ok, PieceColor, PieceShape,
    PieceType, RotationState,
};
use crate::rng::rand_index;

verus! {

broadcast use vstd::seq_lib::group_to_multiset_ensures, vstd::seq_lib::to_multiset_update;

/// Milliseconds a direction must be held before auto-repeat engages.
pub const DAS: u128 = 100;

/// Milliseconds between auto-repeated steps once auto-repeat engages.
pub const ARR: u128 = 0;

/// Milliseconds between gravity steps.
pub const GRAVITY: u128 = 250;

/// The input state for one frame: edge-triggered flags that the update
/// consumes, and level-triggered state that the host refreshes from raw
/// device events before every tick.
#[derive(Clone, Copy, PartialEq, Eq, Structural, Debug)]
pub struct Input {
    pub hard_drop: bool,
    pub soft_drop: bool,
    pub left: bool,
    pub right: bool,
    pub left_held: u128,
    pub right_held: u128,
    pub rot_cw: bool,
    pub rot_ccw: bool,
    pub rot_180: bool,
}

/// The movement the current frame's input asks for.
#[derive(Clone, Copy, PartialEq, Eq, Structural, Debug)]
pub enum MovementAction {
    HardDrop,
    SoftDrop,
    Left,
    Right,
    NoAction,
}

/// The rotation the current frame's input asks for.
#[derive(Clone, Copy, PartialEq, Eq, Structural, Debug)]
pub enum RotationAction {
    RotateCW,
    RotateCCW,
    Rotate180,
    NoAction,
}

/// The movement an input state resolves to: hard drop wins over soft
/// drop, which wins over left and right; left and right held together
/// cancel out.
pub open spec fn movement_action_spec(i: Input) -> MovementAction {
    if i.hard_drop {
        MovementAction::HardDrop
    } else if i.soft_drop {
        MovementAction::SoftDrop
    } else if i.left && !i.right {
        MovementAction::Left
    } else if !i.left && i.right {
        MovementAction::Right
    } else {
        MovementAction::NoAction
    }
}

/// The rotation an input state resolves to, with fixed priority when
/// several flags are set at once: clockwise wins over counterclockwise,
/// which wins over the half turn.
pub open spec fn rotation_action_spec(i: Input) -> RotationAction {
    if i.rot_cw {
        RotationAction::RotateCW
    } else if i.rot_ccw {
        RotationAction::RotateCCW
    } else if i.rot_180 {
        RotationAction::Rotate180
    } else {
        RotationAction::NoAction
    }
}

/// Resolves the frame's input into one movement action and one rotation
/// action, with the fixed priorities of the update state machine.
pub fn read_inputs(input: &Input) -> (r: (MovementAction, RotationAction))
    ensures
        r.0 == movement_action_spec(*input),
        r.1 == rotation_action_spec(*input),
{
    let movement_action = match (input.hard_drop, input.soft_drop, input.left, input.right) {
        (true, _, _, _) => MovementAction::HardDrop,
        (_, true, _, _) => MovementAction::SoftDrop,
        (_, _, true, false) => MovementAction::Left,
        (_, _, false, true) => MovementAction::Right,
        _ => MovementAction::NoAction,
    };
    let rotation_action = match (input.rot_cw, input.rot_ccw, input.rot_180) {
        (true, _, _) => RotationAction::RotateCW,
        (_, true, _) => RotationAction::RotateCCW,
        (_, _, true) => RotationAction::Rotate180,
        _ => RotationAction::NoAction,
    };
    (movement_action, rotation_action)
}

/// The catalog has an entry with this identifier.
pub open spec fn map_has_key(cat: Seq<(char, PieceType)>, id: char) -> bool {
    exists|i: int| 0 <= i < cat.len() && (#[trigger] cat[i]).0 == id
}

/// The piece's shape and colour are those of some catalog entry.
pub open spec fn piece_from_catalog(cat: Seq<(char, PieceType)>, p: Piece) -> bool {
    exists|i: int|
        0 <= i < cat.len() && shape_view((#[trigger] cat[i]).1.shape@) == shape_view(p.shape@)
            && cat[i].1.color == p.color
}

/// The identifiers of the catalog entries, in catalog order.
pub open spec fn keys_of(cat: Seq<(char, PieceType)>) -> Seq<char> {
    cat.map_values(|e: (char, PieceType)| e.0)
}

/// The piece's shape and colour are those of a catalog entry carrying
/// the given identifier.
pub open spec fn spawned_from(cat: Seq<(char, PieceType)>, id: char, p: Piece) -> bool {
    exists|i: int|
        0 <= i < cat.len() && (#[trigger] cat[i]).0 == id && shape_view(cat[i].1.shape@)
            == shape_view(p.shape@) && cat[i].1.color == p.color
}

/// The result of the auto-repeat loop: starting from a column and a
/// time budget, the piece steps one column in `dir` while the budget
/// exceeds the repeat interval and the stepped position fits, one
/// interval consumed per step; a blocked step clears the budget.
/// Returns the final column and the leftover budget.
pub open spec fn arr_steps(
    m: Seq<Vec<PieceColor>>,
    st: Seq<(i32, i32)>,
    row: int,
    col: int,
    dir: int,
    time: int,
    arr: int,
) -> (int, int)
    decreases time, (if dir >= 0 { m[0]@.len() + 4 - col } else { col + 4 }),
        when matrix_wf(m) && state_ok(st) && (dir == -1 || dir == 1) && 0 <= arr && 0 <= time
        via arr_steps_decreases
{
    if time <= arr {
        (col, time)
    } else if !state_fits(m, st, row, col + dir) {
        (col, 0)
    } else {
        arr_steps(m, st, row, col + dir, dir, time - arr, arr)
    }
}

#[via_fn]
proof fn arr_steps_decreases(
    m: Seq<Vec<PieceColor>>,
    st: Seq<(i32, i32)>,
    row: int,
    col: int,
    dir: int,
    time: int,
    arr: int,
) {
    if time > arr && state_fits(m, st, row, col + dir) {
        assert(crate::piece::cell_open(m, row + st[0].0, col + dir + st[0].1));
    }
}

/// What one call of the DAS/ARR handler does to the piece column and
/// the leftover budget: an immediate single step on the first held
/// frame, then, once the held time exceeds the DAS threshold, the
/// auto-repeat loop over this frame's budget.
pub open spec fn das_result(g: Game, time_held: int, elapsed: int, dir: int) -> (int, int) {
    let col0 = g.piece.col as int;
    let first = time_held == elapsed;
    let col1 = if first {
        if state_fits(g.matrix@, g.piece.active_state(), g.piece.row as int, col0 + dir) {
            col0 + dir
        } else {
            col0
        }
    } else {
        col0
    };
    let left1: int = if first {
        0
    } else {
        g.arr_leftover as int
    };
    if time_held > g.das {
        arr_steps(
            g.matrix@,
            g.piece.active_state(),
            g.piece.row as int,
            col1,
            dir,
            elapsed + left1,
            g.arr as int,
        )
    } else {
        (col1, left1)
    }
}

/// The quarter turns each rotation action applies.
pub open spec fn rotation_amount(a: RotationAction) -> int {
    match a {
        RotationAction::RotateCW => 1,
        RotationAction::RotateCCW => 3,
        RotationAction::Rotate180 => 2,
        RotationAction::NoAction => 0,
    }
}

/// The premise of the plain falling step of one update call: no input
/// action, exactly one gravity interval consumed this call, and the
/// position one row below the piece free.
pub open spec fn single_fall_step(g: Game, i: Input, elapsed: int) -> bool {
    &&& movement_action_spec(i) is NoAction
    &&& rotation_action_spec(i) is NoAction
    &&& g.gravity_timer + elapsed > g.gravity
    &&& g.gravity_timer + elapsed <= 2 * g.gravity
    &&& state_fits(g.matrix@, g.piece.active_state(), g.piece.row + 1, g.piece.col as int)
}

/// The result of the gravity phase of one update call: starting from
/// the piece's anchor row and the accumulated timer, the piece falls
/// one row per whole interval held by the timer; the phase stops early,
/// with one interval consumed, the moment the row below does not fit.
/// Returns the final anchor row, the remaining timer, and whether the
/// piece landed.
pub open spec fn gravity_result(
    m: Seq<Vec<PieceColor>>,
    st: Seq<(i32, i32)>,
    row: int,
    col: int,
    timer: int,
    gravity: int,
) -> (int, int, bool)
    decreases timer,
        when 1 <= gravity && 0 <= timer
{
    if timer <= gravity {
        (row, timer, false)
    } else if !state_fits(m, st, row + 1, col) {
        (row, timer - gravity, true)
    } else {
        gravity_result(m, st, row + 1, col, timer - gravity, gravity)
    }
}

/// The per-call step of the steady-gravity descent: with at most one
/// interval banked, feeding exactly one more interval leaves the piece
/// in place when nothing is banked (the timer must strictly exceed the
/// interval before a step happens), and advances it exactly one row
/// otherwise, provided the row below is free. Repeated calls therefore
/// descend one row per call from the second call on.
pub proof fn lemma_exact_interval_fall(
    m: Seq<Vec<PieceColor>>,
    st: Seq<(i32, i32)>,
    row: int,
    col: int,
    banked: int,
    gravity: int,
)
    requires
        matrix_wf(m),
        state_ok(st),
        1 <= gravity,
        0 <= banked <= gravity,
        state_fits(m, st, row + 1, col),
    ensures
        banked == 0 ==> gravity_result(m, st, row, col, banked + gravity, gravity) == (
            row,
            gravity,
            false,
        ),
        banked > 0 ==> gravity_result(m, st, row, col, banked + gravity, gravity) == (
            row + 1,
            banked,
            false,
        ),
{
    if banked > 0 {
        assert(gravity_result(m, st, row + 1, col, banked, gravity) == (row + 1, banked, false));
    }
}

/// Copies one rotation state.
fn clone_state(st: &RotationState) -> (r: RotationState)
    ensures
        r@ == st@,
{
    let mut r: RotationState = Vec::new();
    let mut k: usize = 0;
    while k < st.len()
        invariant
            k <= st@.len(),
            r@.len() == k,
            forall|j: int| 0 <= j < k ==> r@[j] == st@[j],
        decreases st@.len() - k,
    {
        r.push(st[k]);
        k += 1;
    }
    proof {
        assert(r@ =~= st@);
    }
    r
}

/// Copies a shape, rotation state by rotation state.
fn clone_shape(shape: &PieceShape) -> (r: PieceShape)
    ensures
        shape_view(r@) == shape_view(shape@),
        shape_wf(shape@) ==> shape_wf(r@),
{
    let mut r: PieceShape = Vec::new();
    let mut s: usize = 0;
    while s < shape.len()
        invariant
            s <= shape@.len(),
            r@.len() == s,
            forall|j: int| 0 <= j < s ==> (#[trigger] r@[j])@ == shape@[j]@,
        decreases shape@.len() - s,
    {
        r.push(clone_state(&shape[s]));
        s += 1;
    }
    proof {
        assert(shape_view(r@) =~= shape_view(shape@));
        if shape_wf(shape@) {
            assert forall|j: int| 0 <= j < 4 implies state_ok(#[trigger] r@[j]@) by {
                assert(r@[j]@ == shape@[j]@);
            }
        }
    }
    r
}

/// Finds the index of the catalog entry with the given identifier.
fn lookup_piece(cat: &Vec<(char, PieceType)>, id: char) -> (r: Option<usize>)
    ensures
        match r {
            Some(i) => i < cat@.len() && cat@[i as int].0 == id,
            None => !map_has_key(cat@, id),
        },
{
    let mut i: usize = 0;
    while i < cat.len()
        invariant
            i <= cat@.len(),
            forall|j: int| 0 <= j < i ==> (#[trigger] cat@[j]).0 != id,
        decreases cat@.len() - i,
    {
        if cat[i].0 == id {
            return Some(i);
        }
        i += 1;
    }
    None
}

/// Swaps two identifiers in the bag.
fn swap_ids(bag: &mut Vec<char>, i: usize, j: usize)
    requires
        i < old(bag)@.len(),
        j < old(bag)@.len(),
    ensures
        final(bag)@ == old(bag)@.update(i as int, old(bag)@[j as int]).update(
            j as int,
            old(bag)@[i as int],
        ),
        final(bag)@.to_multiset() == old(bag)@.to_multiset(),
        final(bag)@.len() == old(bag)@.len(),
{
    let a = bag[i];
    let b = bag[j];
    bag[i] = b;
    bag[j] = a;
    proof {
        assert(old(bag)@.contains(old(bag)@[i as int]));
        assert(old(bag)@.contains(old(bag)@[j as int]));
        assert(bag@.to_multiset() =~= old(bag)@.to_multiset());
    }
}

/// Collects every identifier of the catalog and shuffles them: the bag
/// holds exactly the catalog's identifiers, in some order.
fn generate_bag(piece_list: &Vec<(char, PieceType)>) -> (bag: Vec<char>)
    ensures
        bag@.len() == piece_list@.len(),
        bag@.to_multiset() == keys_of(piece_list@).to_multiset(),
        forall|i: int| 0 <= i < bag@.len() ==> map_has_key(piece_list@, #[trigger] bag@[i]),
{
    let mut bag: Vec<char> = Vec::new();
    let mut i: usize = 0;
    while i < piece_list.len()
        invariant
            i <= piece_list@.len(),
            bag@.len() == i,
            forall|j: int| 0 <= j < i ==> bag@[j] == keys_of(piece_list@)[j],
        decreases piece_list@.len() - i,
    {
        let entry_id = piece_list[i].0;
        bag.push(entry_id);
        i += 1;
    }
    proof {
        assert(bag@ =~= keys_of(piece_list@));
    }
    let len = bag.len();
    let mut k: usize = 0;
    while k < len
        invariant
            len == bag@.len(),
            k <= len,
            bag@.to_multiset() == keys_of(piece_list@).to_multiset(),
            forall|j: int| 0 <= j < len ==> map_has_key(piece_list@, #[trigger] bag@[j]),
        decreases len - k,
    {
        let ghost pre = bag@;
        let j = rand_index(k, len);
        swap_ids(&mut bag, k, j);
        proof {
            assert forall|t: int| 0 <= t < len implies map_has_key(
                piece_list@,
                #[trigger] bag@[t],
            ) by {
                assert(bag@[t] == pre[t] || bag@[t] == pre[k as int] || bag@[t] == pre[j as int]);
            }
        }
        k += 1;
    }
    bag
}

/// The whole game: the playfield, the active piece, the piece catalog,
/// the pending-pieces bag and the gravity and auto-repeat timers.
pub struct Game {
    pub matrix: Matrix,
    pub piece: Piece,
    pub piece_data: Vec<(char, PieceType)>,
    pub bag: Vec<char>,
    pub das: u128,
    pub arr: u128,
    pub arr_leftover: u128,
    pub gravity: u128,
    pub gravity_timer: u128,
}

impl Game {
    /// The game invariant: a well-formed matrix large enough to spawn
    /// any catalog piece, a well-formed in-bounds active piece, a
    /// well-formed catalog, a bag of known identifiers, the configured
    /// timing constants and a bounded auto-repeat leftover.
    pub open spec fn wf(self) -> bool {
        &&& matrix_wf(self.matrix@)
        &&& self.matrix@.len() >= 4
        &&& self.matrix@[0]@.len() >= 7
        &&& self.piece.wf()
        &&& state_in_bounds(
            self.matrix@,
            self.piece.active_state(),
            self.piece.row as int,
            self.piece.col as int,
        )
        &&& piece_map_wf(self.piece_data@)
        &&& forall|i: int|
            0 <= i < self.bag@.len() ==> map_has_key(self.piece_data@, #[trigger] self.bag@[i])
        &&& self.das == DAS
        &&& self.arr == ARR
        &&& self.gravity == GRAVITY
        &&& self.arr_leftover <= self.arr
    }

    /// Builds a game over an empty matrix of the given size, with the
    /// piece catalog loaded and the first piece of a freshly shuffled
    /// bag spawned at the top.
    pub fn new(matrix_width: usize, matrix_height: usize) -> (g: Game)
        requires
            7 <= matrix_width <= 1_000_000,
            4 <= matrix_height <= 1_000_000,
        ensures
            g.wf(),
            g.matrix@.len() == matrix_height,
            g.matrix@[0]@.len() == matrix_width,
            forall|r: int, c: int|
                0 <= r < matrix_height && 0 <= c < matrix_width ==> g.matrix@[r]@[c]
                    == PieceColor::Empty,
            g.gravity_timer == 0,
            g.arr_leftover == 0,
            g.piece.row == 0 && g.piece.col == 3 && g.piece.rotation == 0,
            piece_from_catalog(g.piece_data@, g.piece),
            g.bag@.len() == g.piece_data@.len() - 1,
            exists|id: char|
                #[trigger] map_has_key(g.piece_data@, id) && g.bag@.push(id).to_multiset()
                    == keys_of(g.piece_data@).to_multiset() && spawned_from(
                    g.piece_data@,
                    id,
                    g.piece,
                ),
    {
        let mut matrix: Matrix = Vec::new();
        let mut r: usize = 0;
        while r < matrix_height
            invariant
                r <= matrix_height,
                matrix@.len() == r,
                forall|a: int|
                    0 <= a < r ==> (#[trigger] matrix@[a])@.len() == matrix_width && forall|c: int|
                        0 <= c < matrix_width ==> matrix@[a]@[c] == PieceColor::Empty,
            decreases matrix_height - r,
        {
            let mut row: Vec<PieceColor> = Vec::new();
            let mut c: usize = 0;
            while c < matrix_width
                invariant
                    c <= matrix_width,
                    row@.len() == c,
                    forall|b: int| 0 <= b < c ==> row@[b] == PieceColor::Empty,
                decreases matrix_width - c,
            {
                row.push(PieceColor::Empty);
                c += 1;
            }
            matrix.push(row);
            r += 1;
        }

        let piece_data = create_piece_map();
        let mut bag = generate_bag(&piece_data);
        let ghost bag_full = bag@;
        let id_opt = bag.pop();
        let id = id_opt.unwrap();
        let idx_opt = lookup_piece(&piece_data, id);
        let idx = idx_opt.unwrap();
        let shape = clone_shape(&piece_data[idx].1.shape);
        let color = piece_data[idx].1.color;
        let piece = Piece::new(shape, color);
        let g = Game {
            matrix,
            piece,
            piece_data,
            bag,
            das: DAS,
            arr: ARR,
            arr_leftover: 0,
            gravity: GRAVITY,
            gravity_timer: 0,
        };
        proof {
            assert(state_in_bounds(
                g.matrix@,
                g.piece.active_state(),
                g.piece.row as int,
                g.piece.col as int,
            )) by {
                assert(state_ok(g.piece.active_state()));
            }
            assert(g.bag@.push(id) =~= bag_full);
            assert(map_has_key(g.piece_data@, id));
            assert(spawned_from(g.piece_data@, id, g.piece)) by {
                assert(g.piece_data@[idx as int].0 == id);
            }
        }
        g
    }

    /// Spawns the next piece from the bag, regenerating the bag from
    /// the catalog when it is exhausted. The matrix and the timers are
    /// untouched.
    fn next_piece(&mut self)
        requires
            old(self).wf(),
        ensures
            final(self).wf(),
            final(self).matrix == old(self).matrix,
            final(self).piece_data == old(self).piece_data,
            final(self).das == old(self).das,
            final(self).arr == old(self).arr,
            final(self).arr_leftover == old(self).arr_leftover,
            final(self).gravity == old(self).gravity,
            final(self).gravity_timer == old(self).gravity_timer,
            final(self).piece.row == 0 && final(self).piece.col == 3 && final(self).piece.rotation
                == 0,
            piece_from_catalog(old(self).piece_data@, final(self).piece),
            old(self).bag@.len() > 0 ==> final(self).bag@ == old(self).bag@.drop_last()
                && spawned_from(old(self).piece_data@, old(self).bag@.last(), final(self).piece),
            old(self).bag@.len() == 0 ==> (exists|id: char|
                #[trigger] map_has_key(old(self).piece_data@, id) && final(self).bag@.push(
                    id,
                ).to_multiset() == keys_of(old(self).piece_data@).to_multiset() && spawned_from(
                    old(self).piece_data@,
                    id,
                    final(self).piece,
                )),
    {
        if self.bag.len() == 0 {
            self.bag = generate_bag(&self.piece_data);
            proof {
                assert(self.bag@.len() == self.piece_data@.len() >= 1);
            }
        }
        let ghost bag_refilled = self.bag@;
        let id_opt = self.bag.pop();
        let id = id_opt.unwrap();
        let idx_opt = lookup_piece(&self.piece_data, id);
        let idx = idx_opt.unwrap();
        let shape = clone_shape(&self.piece_data[idx].1.shape);
        let color = self.piece_data[idx].1.color;
        self.piece = Piece::new(shape, color);
        proof {
            assert(state_in_bounds(
                self.matrix@,
                self.piece.active_state(),
                self.piece.row as int,
                self.piece.col as int,
            )) by {
                assert(state_ok(self.piece.active_state()));
            }
            assert(spawned_from(self.piece_data@, id, self.piece)) by {
                assert(self.piece_data@[idx as int].0 == id);
            }
            if old(self).bag@.len() > 0 {
                assert(self.bag@ =~= old(self).bag@.drop_last());
                assert(id == old(self).bag@.last());
            } else {
                assert(self.bag@.push(id) =~= bag_refilled);
                assert(map_has_key(self.piece_data@, id));
            }
        }
    }

    /// The DAS/ARR handler for a held direction: one immediate step on
    /// the frame the key registered, and, once the held time exceeds
    /// the DAS threshold, auto-repeated steps while the time budget
    /// lasts and the way is free.
    pub fn handle_piece_movement(&mut self, time_held: u128, elapsed: u128, direction: i32)
        requires
            old(self).wf(),
            direction == -1 || direction == 1,
        ensures
            final(self).wf(),
            final(self).matrix == old(self).matrix,
            final(self).piece_data == old(self).piece_data,
            final(self).bag == old(self).bag,
            final(self).das == old(self).das,
            final(self).arr == old(self).arr,
            final(self).gravity == old(self).gravity,
            final(self).gravity_timer == old(self).gravity_timer,
            final(self).piece.shape == old(self).piece.shape,
            final(self).piece.color == old(self).piece.color,
            final(self).piece.rotation == old(self).piece.rotation,
            final(self).piece.row == old(self).piece.row,
            final(self).piece.col == das_result(
                *old(self),
                time_held as int,
                elapsed as int,
                direction as int,
            ).0,
            final(self).arr_leftover == das_result(
                *old(self),
                time_held as int,
                elapsed as int,
                direction as int,
            ).1,
    {
        let ghost m = self.matrix@;
        let ghost st = self.piece.active_state();
        let ghost row = self.piece.row as int;
        if time_held == elapsed {
            self.piece.movement(&self.matrix, direction, 0);
            self.arr_leftover = 0;
        }
        let ghost col1 = self.piece.col as int;
        let ghost left1 = self.arr_leftover as int;
        if time_held > self.das {
            let mut time = elapsed + self.arr_leftover;
            loop
                invariant
                    self.wf(),
                    self.matrix@ == m,
                    self.piece_data == old(self).piece_data,
                    self.bag == old(self).bag,
                    self.das == old(self).das,
                    self.arr == old(self).arr,
                    self.gravity == old(self).gravity,
                    self.gravity_timer == old(self).gravity_timer,
                    self.matrix == old(self).matrix,
                    self.piece.shape == old(self).piece.shape,
                    self.piece.color == old(self).piece.color,
                    self.piece.rotation == old(self).piece.rotation,
                    self.piece.row == old(self).piece.row,
                    st == self.piece.active_state(),
                    row == self.piece.row as int,
                    state_ok(st),
                    direction == -1 || direction == 1,
                    arr_steps(m, st, row, self.piece.col as int, direction as int, time as int, self.arr as int)
                        == arr_steps(m, st, row, col1, direction as int, elapsed + left1, self.arr as int),
                ensures
                    self.wf(),
                    self.matrix == old(self).matrix,
                    self.matrix@ == m,
                    self.piece_data == old(self).piece_data,
                    self.bag == old(self).bag,
                    self.das == old(self).das,
                    self.arr == old(self).arr,
                    self.gravity == old(self).gravity,
                    self.gravity_timer == old(self).gravity_timer,
                    self.piece.shape == old(self).piece.shape,
                    self.piece.color == old(self).piece.color,
                    self.piece.rotation == old(self).piece.rotation,
                    self.piece.row == old(self).piece.row,
                    (self.piece.col as int, self.arr_leftover as int) == arr_steps(
                        m,
                        st,
                        row,
                        col1,
                        direction as int,
                        elapsed + left1,
                        self.arr as int,
                    ),
                decreases time,
                    (if direction >= 0 {
                        m[0]@.len() + 4 - self.piece.col
                    } else {
                        self.piece.col + 4
                    }),
            {
                if !(time > self.arr) {
                    self.arr_leftover = time;
                    break;
                }
                let ghost col_pre = self.piece.col as int;
                let ghost time_pre = time as int;
                if !self.piece.movement(&self.matrix, direction, 0) {
                    self.arr_leftover = 0;
                    proof {
                        assert(arr_steps(
                            m,
                            st,
                            row,
                            col_pre,
                            direction as int,
                            time_pre,
                            self.arr as int,
                        ) == (col_pre, 0int));
                    }
                    break;
                }
                time = time - self.arr;
                proof {
                    assert(crate::piece::cell_open(
                        m,
                        row + st[0].0,
                        self.piece.col + st[0].1,
                    ));
                    assert(arr_steps(
                        m,
                        st,
                        row,
                        col_pre,
                        direction as int,
                        time_pre,
                        self.arr as int,
                    ) == arr_steps(
                        m,
                        st,
                        row,
                        self.piece.col as int,
                        direction as int,
                        time as int,
                        self.arr as int,
                    ));
                }
            }
        }
    }

    /// One tick of the game: accumulate gravity and step the piece
    /// down, locking, clearing lines and spawning on a landed piece;
    /// then resolve the frame's movement action (hard drop or the
    /// DAS/ARR handler) and its rotation action. Edge-triggered input
    /// flags are consumed; level-triggered input is left alone.
    pub fn update(&mut self, input: &mut Input, elapsed: u128)
        requires
            old(self).wf(),
            elapsed <= u128::MAX - old(self).gravity_timer,
        ensures
            final(self).wf(),
            final(self).matrix@.len() == old(self).matrix@.len(),
            final(self).matrix@[0]@.len() == old(self).matrix@[0]@.len(),
            final(self).das == old(self).das && final(self).arr == old(self).arr && final(self).gravity == old(self).gravity,
            final(self).piece_data == old(self).piece_data,
            movement_action_spec(*old(input)) is HardDrop ==> final(input).hard_drop == false,
            !(movement_action_spec(*old(input)) is HardDrop) ==> final(input).hard_drop == old(input).hard_drop,
            rotation_action_spec(*old(input)) is RotateCW ==> final(input).rot_cw == false,
            rotation_action_spec(*old(input)) is RotateCCW ==> final(input).rot_ccw == false,
            rotation_action_spec(*old(input)) is Rotate180 ==> final(input).rot_180 == false,
            !(rotation_action_spec(*old(input)) is RotateCW) ==> final(input).rot_cw == old(input).rot_cw,
            !(rotation_action_spec(*old(input)) is RotateCCW) ==> final(input).rot_ccw == old(input).rot_ccw,
            !(rotation_action_spec(*old(input)) is Rotate180) ==> final(input).rot_180 == old(input).rot_180,
            final(input).soft_drop == old(input).soft_drop,
            final(input).left == old(input).left,
            final(input).right == old(input).right,
            final(input).left_held == old(input).left_held,
            final(input).right_held == old(input).right_held,
            (old(self).gravity_timer + elapsed <= old(self).gravity && (movement_action_spec(
                *old(input),
            ) is NoAction || movement_action_spec(*old(input)) is SoftDrop)
                && rotation_action_spec(*old(input)) is NoAction) ==> final(self).matrix
                == old(self).matrix && final(self).piece == old(self).piece && final(self).bag
                == old(self).bag && final(self).gravity_timer == old(self).gravity_timer + elapsed
                && final(self).arr_leftover == old(self).arr_leftover,
            ({
                let gr = gravity_result(
                    old(self).matrix@,
                    old(self).piece.active_state(),
                    old(self).piece.row as int,
                    old(self).piece.col as int,
                    old(self).gravity_timer + elapsed,
                    old(self).gravity as int,
                );
                (!gr.2 && !(movement_action_spec(*old(input)) is HardDrop)) ==> final(self).matrix
                    == old(self).matrix && final(self).bag == old(self).bag && final(self).piece.row
                    == gr.0 && final(self).piece.shape == old(self).piece.shape && final(self).piece.color
                    == old(self).piece.color && final(self).gravity_timer == gr.1
            }),
            (movement_action_spec(*old(input)) is Left && old(self).gravity_timer + elapsed <= old(self).gravity)
                ==> final(self).piece.col == das_result(
                *old(self),
                old(input).left_held as int,
                elapsed as int,
                -1,
            ).0 && final(self).arr_leftover == das_result(
                *old(self),
                old(input).left_held as int,
                elapsed as int,
                -1,
            ).1,
            (movement_action_spec(*old(input)) is Right && old(self).gravity_timer + elapsed <= old(self).gravity)
                ==> final(self).piece.col == das_result(
                *old(self),
                old(input).right_held as int,
                elapsed as int,
                1,
            ).0 && final(self).arr_leftover == das_result(
                *old(self),
                old(input).right_held as int,
                elapsed as int,
                1,
            ).1,
            single_fall_step(*old(self), *old(input), elapsed as int) ==> final(self).matrix
                == old(self).matrix && final(self).bag == old(self).bag && final(self).piece.row
                == old(self).piece.row + 1 && final(self).piece.col == old(self).piece.col
                && final(self).piece.rotation == old(self).piece.rotation
                && final(self).piece.shape == old(self).piece.shape && final(self).piece.color
                == old(self).piece.color && final(self).gravity_timer == old(self).gravity_timer
                + elapsed - old(self).gravity,
            (movement_action_spec(*old(input)) is HardDrop && rotation_action_spec(
                *old(input),
            ) is NoAction) ==> final(self).piece.row == 0 && final(self).piece.col == 3 && final(self).piece.rotation
                == 0 && piece_from_catalog(old(self).piece_data@, final(self).piece),
            (movement_action_spec(*old(input)) is HardDrop && old(self).gravity_timer + elapsed
                <= old(self).gravity) ==> ({
                let st = old(self).piece.active_state();
                let dr = drop_row(
                    old(self).matrix@,
                    st,
                    old(self).piece.row as int,
                    old(self).piece.col as int,
                );
                let locked = locked_grid(
                    grid(old(self).matrix@),
                    st,
                    dr,
                    old(self).piece.col as int,
                    old(self).piece.color,
                );
                grid(final(self).matrix@) == remove_rows_spec(
                    locked,
                    filled_upto(locked, old(self).matrix@.len() as int),
                )
            }),
            (movement_action_spec(*old(input)) is NoAction && rotation_action_spec(
                *old(input),
            ) is NoAction && old(self).gravity_timer + elapsed > old(self).gravity && !state_fits(
                old(self).matrix@,
                old(self).piece.active_state(),
                old(self).piece.row + 1,
                old(self).piece.col as int,
            )) ==> ({
                let st = old(self).piece.active_state();
                let locked = locked_grid(
                    grid(old(self).matrix@),
                    st,
                    old(self).piece.row as int,
                    old(self).piece.col as int,
                    old(self).piece.color,
                );
                &&& grid(final(self).matrix@) == remove_rows_spec(
                    locked,
                    filled_upto(locked, old(self).matrix@.len() as int),
                )
                &&& final(self).piece.row == 0 && final(self).piece.col == 3 && final(self).piece.rotation == 0
                &&& piece_from_catalog(old(self).piece_data@, final(self).piece)
                &&& final(self).gravity_timer == old(self).gravity_timer + elapsed - old(self).gravity
            }),
            (old(self).gravity_timer + elapsed <= old(self).gravity && movement_action_spec(
                *old(input),
            ) is NoAction && !(rotation_action_spec(*old(input)) is NoAction)) ==> ({
                let nr = (old(self).piece.rotation + rotation_amount(
                    rotation_action_spec(*old(input)),
                )) % 4;
                &&& final(self).matrix == old(self).matrix
                &&& final(self).bag == old(self).bag
                &&& final(self).gravity_timer == old(self).gravity_timer + elapsed
                &&& final(self).arr_leftover == old(self).arr_leftover
                &&& final(self).piece.row == old(self).piece.row
                &&& final(self).piece.col == old(self).piece.col
                &&& final(self).piece.shape == old(self).piece.shape
                &&& final(self).piece.color == old(self).piece.color
                &&& final(self).piece.rotation == (if state_fits(
                    old(self).matrix@,
                    old(self).piece.shape@[nr]@,
                    old(self).piece.row as int,
                    old(self).piece.col as int,
                ) {
                    nr
                } else {
                    old(self).piece.rotation as int
                })
            }),
    {
        let ghost in0 = *input;
        let (movement_action, rotation_action) = read_inputs(input);

        self.gravity_timer = self.gravity_timer + elapsed;
        while self.gravity_timer > self.gravity
            invariant_except_break
                self.wf(),
                self.matrix@.len() == old(self).matrix@.len(),
                self.matrix@[0]@.len() == old(self).matrix@[0]@.len(),
                self.das == old(self).das,
                self.arr == old(self).arr,
                self.gravity == old(self).gravity,
                self.arr_leftover == old(self).arr_leftover,
                self.piece_data == old(self).piece_data,
                old(self).gravity_timer + elapsed <= old(self).gravity ==> self.matrix == old(self).matrix && self.piece == old(self).piece && self.bag == old(self).bag
                    && self.gravity_timer == old(self).gravity_timer + elapsed,
                single_fall_step(*old(self), in0, elapsed as int) ==> ((self.gravity_timer == old(self).gravity_timer + elapsed && self.piece == old(self).piece && self.matrix == old(self).matrix && self.bag == old(self).bag) || (
                self.gravity_timer == old(self).gravity_timer + elapsed - old(self).gravity
                    && self.matrix == old(self).matrix && self.bag == old(self).bag
                    && self.piece.row == old(self).piece.row + 1 && self.piece.col == old(self).piece.col
                    && self.piece.rotation == old(self).piece.rotation && self.piece.shape == old(self).piece.shape
                    && self.piece.color == old(self).piece.color)),
                (movement_action_spec(in0) is NoAction && rotation_action_spec(in0) is NoAction
                    && old(self).gravity_timer + elapsed > old(self).gravity && !state_fits(
                    old(self).matrix@,
                    old(self).piece.active_state(),
                    old(self).piece.row + 1,
                    old(self).piece.col as int,
                )) ==> self.matrix == old(self).matrix && self.piece == old(self).piece
                    && self.bag == old(self).bag && self.gravity_timer == old(self).gravity_timer
                    + elapsed,
                ({
                    let gr = gravity_result(
                        old(self).matrix@,
                        old(self).piece.active_state(),
                        old(self).piece.row as int,
                        old(self).piece.col as int,
                        old(self).gravity_timer + elapsed,
                        old(self).gravity as int,
                    );
                    !gr.2 ==> self.matrix == old(self).matrix && self.bag == old(self).bag
                        && self.piece.shape == old(self).piece.shape && self.piece.color == old(self).piece.color
                        && self.piece.rotation == old(self).piece.rotation && self.piece.col
                        == old(self).piece.col && gravity_result(
                        self.matrix@,
                        self.piece.active_state(),
                        self.piece.row as int,
                        self.piece.col as int,
                        self.gravity_timer as int,
                        self.gravity as int,
                    ) == gr
                }),
            ensures
                self.wf(),
                self.matrix@.len() == old(self).matrix@.len(),
                self.matrix@[0]@.len() == old(self).matrix@[0]@.len(),
                self.das == old(self).das,
                self.arr == old(self).arr,
                self.gravity == old(self).gravity,
                self.arr_leftover == old(self).arr_leftover,
                self.piece_data == old(self).piece_data,
                old(self).gravity_timer + elapsed <= old(self).gravity ==> self.matrix == old(self).matrix && self.piece == old(self).piece && self.bag == old(self).bag
                    && self.gravity_timer == old(self).gravity_timer + elapsed,
                single_fall_step(*old(self), in0, elapsed as int) ==> self.gravity_timer == old(self).gravity_timer + elapsed - old(self).gravity && self.matrix == old(self).matrix
                    && self.bag == old(self).bag && self.piece.row == old(self).piece.row + 1
                    && self.piece.col == old(self).piece.col && self.piece.rotation == old(self).piece.rotation
                    && self.piece.shape == old(self).piece.shape && self.piece.color == old(self).piece.color,
                (movement_action_spec(in0) is NoAction && rotation_action_spec(in0) is NoAction
                    && old(self).gravity_timer + elapsed > old(self).gravity && !state_fits(
                    old(self).matrix@,
                    old(self).piece.active_state(),
                    old(self).piece.row + 1,
                    old(self).piece.col as int,
                )) ==> ({
                    let st = old(self).piece.active_state();
                    let locked = locked_grid(
                        grid(old(self).matrix@),
                        st,
                        old(self).piece.row as int,
                        old(self).piece.col as int,
                        old(self).piece.color,
                    );
                    &&& grid(self.matrix@) == remove_rows_spec(
                        locked,
                        filled_upto(locked, old(self).matrix@.len() as int),
                    )
                    &&& self.piece.row == 0 && self.piece.col == 3 && self.piece.rotation == 0
                    &&& piece_from_catalog(old(self).piece_data@, self.piece)
                    &&& self.gravity_timer == old(self).gravity_timer + elapsed - old(self).gravity
                }),
                ({
                    let gr = gravity_result(
                        old(self).matrix@,
                        old(self).piece.active_state(),
                        old(self).piece.row as int,
                        old(self).piece.col as int,
                        old(self).gravity_timer + elapsed,
                        old(self).gravity as int,
                    );
                    !gr.2 ==> self.matrix == old(self).matrix && self.bag == old(self).bag
                        && self.piece.shape == old(self).piece.shape && self.piece.color == old(self).piece.color
                        && self.piece.rotation == old(self).piece.rotation && self.piece.col
                        == old(self).piece.col && self.piece.row == gr.0 && self.gravity_timer
                        == gr.1
                }),
            decreases self.gravity_timer,
        {
            self.gravity_timer = self.gravity_timer - self.gravity;
            if !self.piece.movement(&self.matrix, 0, 1) {
                self.piece.lock(&mut self.matrix);
                let to_remove = filled_rows(&mut self.matrix);
                remove_rows(&mut self.matrix, to_remove);
                self.next_piece();
                break;
            }
        }

        match movement_action {
            MovementAction::HardDrop => {
                input.hard_drop = false;
                self.piece.hard_drop(&mut self.matrix);
                let to_remove = filled_rows(&mut self.matrix);
                remove_rows(&mut self.matrix, to_remove);
                self.next_piece();
            },
            MovementAction::Left => {
                self.handle_piece_movement(input.left_held, elapsed, -1);
            },
            MovementAction::Right => {
                self.handle_piece_movement(input.right_held, elapsed, 1);
            },
            _ => {},
        }

        match rotation_action {
            RotationAction::RotateCW => {
                input.rot_cw = false;
                self.piece.rotate(&self.matrix, 1);
            },
            RotationAction::RotateCCW => {
                input.rot_ccw = false;
                self.piece.rotate(&self.matrix, 3);
            },
            RotationAction::Rotate180 => {
                input.rot_180 = false;
                self.piece.rotate(&self.matrix, 2);
            },
            _ => {},
        }
    }
}

} // verus!
