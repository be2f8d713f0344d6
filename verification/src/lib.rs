//! A verified move-generation, game-state and search-support library for
//! Minishogi (5x5 shogi). The position keeps bitboards, pawn-file flags, an
//! incremental Zobrist hash and check bookkeeping in sync with the board, and
//! every public operation carries a contract proved by Verus.

pub mod bitboard;
pub mod checkmate;
pub mod zobrist;
pub mod laws;
pub mod moves;
pub mod nn;
pub mod movegen;
pub mod position;
pub mod sfen;
pub mod state;
pub mod svg;
pub mod state_lemmas;
pub mod text;
pub mod types;

use vstd::prelude::*;

verus! {

} // verus!
