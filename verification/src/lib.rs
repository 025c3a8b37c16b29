//! Simulation core of a falling-block puzzle game: the playfield matrix,
//! the active piece with its collision rules, line-clear detection and
//! removal, the per-frame update state machine with gravity and DAS/ARR
//! input timing, and the piece-sequence randomizer policies.

pub mod game;
pub mod matrix;
pub mod piece;
pub mod randomizer;
pub(crate) mod rng;
pub mod pieces;

pub use game::{lemma_exact_interval_fall, read_inputs, Game, Input, MovementAction, RotationAction, ARR, DAS, GRAVITY};
pub use matrix::{filled_rows, remove_rows, Matrix};
pub use piece::{Piece, state_fits_at};
pub use randomizer::{classic_reroll, fix_starting_piece, lemma_classic_head_differs, lemma_minus_one_no_repeat, lemma_nbag_each_piece_once, Randomizer, RandomizerStyle};
pub use pieces::{create_piece_map, PieceColor, PieceShape, PieceType};
