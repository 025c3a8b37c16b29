//! The piece catalog: each piece type's four rotation states and colour.

use vstd::prelude::*;

verus! {

/// What one cell of the playfield holds: `Empty`, or the colour tag of
/// the piece type whose locked cells occupy it. `Empty` compares equal
/// only to itself.
#[derive(Clone, Copy, PartialEq, Eq, Structural, Debug)]
pub enum PieceColor {
    Empty,
    Cyan,
    Purple,
    Yellow,
    Green,
}

/// One rotation state: cell offsets (row, column) relative to the anchor.
pub type RotationState = Vec<(i32, i32)>;

/// The four rotation states of a piece type, in rotation order.
pub type PieceShape = Vec<RotationState>;

/// A catalog entry: the shape of a piece type together with its colour.
pub struct PieceType {
    pub shape: PieceShape,
    pub color: PieceColor,
}

/// The rotation states of a shape as plain sequences of offsets.
pub open spec fn shape_view(shape: Seq<RotationState>) -> Seq<Seq<(i32, i32)>> {
    shape.map_values(|st: RotationState| st@)
}

/// A single rotation state is well formed when it is non-empty and every
/// offset lies inside the 4x4 box anchored at the piece position.
pub open spec fn state_ok(st: Seq<(i32, i32)>) -> bool {
    &&& 1 <= st.len() <= 4
    &&& forall|k: int|
        0 <= k < st.len() ==> {
            &&& 0 <= (#[trigger] st[k]).0 <= 3
            &&& 0 <= st[k].1 <= 3
        }
}

/// A well-formed shape has exactly four rotation states, each well formed.
pub open spec fn shape_wf(shape: Seq<RotationState>) -> bool {
    &&& shape.len() == 4
    &&& forall|s: int| 0 <= s < 4 ==> state_ok(#[trigger] shape[s]@)
}

/// A well-formed catalog: at least one entry, pairwise distinct
/// identifiers, and every entry a well-formed shape with a non-`Empty`
/// colour.
pub open spec fn piece_map_wf(cat: Seq<(char, PieceType)>) -> bool {
    &&& cat.len() >= 1
    &&& forall|i: int, j: int| 0 <= i < j < cat.len() ==> (#[trigger] cat[i]).0 != (#[trigger] cat[j]).0
    &&& forall|i: int|
        0 <= i < cat.len() ==> {
            &&& shape_wf((#[trigger] cat[i]).1.shape@)
            &&& cat[i].1.color != PieceColor::Empty
        }
}

/// The offsets of the I piece, one sequence per rotation state.
pub open spec fn i_states() -> Seq<Seq<(i32, i32)>> {
    seq![
        seq![(0i32, 0i32), (0i32, 1i32), (0i32, 2i32), (0i32, 3i32)],
        seq![(0i32, 2i32), (1i32, 2i32), (2i32, 2i32), (3i32, 2i32)],
        seq![(1i32, 0i32), (1i32, 1i32), (1i32, 2i32), (1i32, 3i32)],
        seq![(0i32, 1i32), (1i32, 1i32), (2i32, 1i32), (3i32, 1i32)],
    ]
}

/// The offsets of the T piece, one sequence per rotation state.
pub open spec fn t_states() -> Seq<Seq<(i32, i32)>> {
    seq![
        seq![(0i32, 1i32), (1i32, 0i32), (1i32, 1i32), (1i32, 2i32)],
        seq![(0i32, 1i32), (1i32, 1i32), (1i32, 2i32), (2i32, 1i32)],
        seq![(1i32, 0i32), (1i32, 1i32), (1i32, 2i32), (2i32, 1i32)],
        seq![(0i32, 1i32), (1i32, 0i32), (1i32, 1i32), (2i32, 1i32)],
    ]
}

/// The offsets of the O piece; every rotation state is the same square.
pub open spec fn o_states() -> Seq<Seq<(i32, i32)>> {
    seq![
        seq![(0i32, 1i32), (0i32, 2i32), (1i32, 1i32), (1i32, 2i32)],
        seq![(0i32, 1i32), (0i32, 2i32), (1i32, 1i32), (1i32, 2i32)],
        seq![(0i32, 1i32), (0i32, 2i32), (1i32, 1i32), (1i32, 2i32)],
        seq![(0i32, 1i32), (0i32, 2i32), (1i32, 1i32), (1i32, 2i32)],
    ]
}

/// The offsets of the two-cell domino piece.
pub open spec fn duo_states() -> Seq<Seq<(i32, i32)>> {
    seq![
        seq![(0i32, 0i32), (0i32, 1i32)],
        seq![(0i32, 1i32), (1i32, 1i32)],
        seq![(1i32, 0i32), (1i32, 1i32)],
        seq![(0i32, 0i32), (1i32, 0i32)],
    ]
}

/// Builds a four-cell rotation state from the given offsets.
fn state4(a: (i32, i32), b: (i32, i32), c: (i32, i32), d: (i32, i32)) -> (st: RotationState)
    ensures
        st@ == seq![a, b, c, d],
{
    let mut st: RotationState = Vec::new();
    st.push(a);
    st.push(b);
    st.push(c);
    st.push(d);
    proof {
        assert(st@ =~= seq![a, b, c, d]);
    }
    st
}

/// Builds a two-cell rotation state from the given offsets.
fn state2(a: (i32, i32), b: (i32, i32)) -> (st: RotationState)
    ensures
        st@ == seq![a, b],
{
    let mut st: RotationState = Vec::new();
    st.push(a);
    st.push(b);
    proof {
        assert(st@ =~= seq![a, b]);
    }
    st
}

/// Builds the static piece catalog: the identifier of each piece type
/// mapped to its four rotation states and its display colour.
pub fn create_piece_map() -> (cat: Vec<(char, PieceType)>)
    ensures
        piece_map_wf(cat@),
        cat@.len() == 4,
        cat@[0].0 == 'I' && cat@[0].1.color == PieceColor::Cyan
            && shape_view(cat@[0].1.shape@) == i_states(),
        cat@[1].0 == 'T' && cat@[1].1.color == PieceColor::Purple
            && shape_view(cat@[1].1.shape@) == t_states(),
        cat@[2].0 == 'O' && cat@[2].1.color == PieceColor::Yellow
            && shape_view(cat@[2].1.shape@) == o_states(),
        cat@[3].0 == '2' && cat@[3].1.color == PieceColor::Green
            && shape_view(cat@[3].1.shape@) == duo_states(),
{
    let mut i_shape: PieceShape = Vec::new();
    i_shape.push(state4((0, 0), (0, 1), (0, 2), (0, 3)));
    i_shape.push(state4((0, 2), (1, 2), (2, 2), (3, 2)));
    i_shape.push(state4((1, 0), (1, 1), (1, 2), (1, 3)));
    i_shape.push(state4((0, 1), (1, 1), (2, 1), (3, 1)));
    proof {
        assert(shape_view(i_shape@) =~= i_states());
    }

    let mut t_shape: PieceShape = Vec::new();
    t_shape.push(state4((0, 1), (1, 0), (1, 1), (1, 2)));
    t_shape.push(state4((0, 1), (1, 1), (1, 2), (2, 1)));
    t_shape.push(state4((1, 0), (1, 1), (1, 2), (2, 1)));
    t_shape.push(state4((0, 1), (1, 0), (1, 1), (2, 1)));
    proof {
        assert(shape_view(t_shape@) =~= t_states());
    }

    let mut o_shape: PieceShape = Vec::new();
    o_shape.push(state4((0, 1), (0, 2), (1, 1), (1, 2)));
    o_shape.push(state4((0, 1), (0, 2), (1, 1), (1, 2)));
    o_shape.push(state4((0, 1), (0, 2), (1, 1), (1, 2)));
    o_shape.push(state4((0, 1), (0, 2), (1, 1), (1, 2)));
    proof {
        assert(shape_view(o_shape@) =~= o_states());
    }

    let mut duo_shape: PieceShape = Vec::new();
    duo_shape.push(state2((0, 0), (0, 1)));
    duo_shape.push(state2((0, 1), (1, 1)));
    duo_shape.push(state2((1, 0), (1, 1)));
    duo_shape.push(state2((0, 0), (1, 0)));
    proof {
        assert(shape_view(duo_shape@) =~= duo_states());
    }

    let mut cat: Vec<(char, PieceType)> = Vec::new();
    cat.push(('I', PieceType { shape: i_shape, color: PieceColor::Cyan }));
    cat.push(('T', PieceType { shape: t_shape, color: PieceColor::Purple }));
    cat.push(('O', PieceType { shape: o_shape, color: PieceColor::Yellow }));
    cat.push(('2', PieceType { shape: duo_shape, color: PieceColor::Green }));
    cat
}

} // verus!
