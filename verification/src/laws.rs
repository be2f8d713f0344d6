//! The record-wide laws of a well-formed position, stated on their own so
//! that each can be read in one place: hash agreement, the turn bit, and
//! the derived-state consistency of bitboards and pawn flags. The do/undo
//! round trip is stated beside the transition proofs.

use vstd::prelude::*;

use crate::bitboard::bb_has;
use crate::state::color_of_index;
use crate::state::pawn_count;
use crate::state::pos_wf;
use crate::state::PosState;
use crate::types::Color;
use crate::zobrist::hash_of;
use crate::zobrist::lemma_hash_turn_bit;

verus! {

/// Law: at every recorded ply, the incrementally maintained hash equals the
/// Zobrist hash recomputed from that ply's snapshot.
pub proof fn lemma_hash_agreement(v: PosState)
    requires
        pos_wf(v),
    ensures
        forall|i: int|
            0 <= i <= v.ply ==> v.hash[i] == hash_of(
                (#[trigger] v.cores[i]).board,
                v.cores[i].side_to_move,
                v.zobrist,
            ),
{
}

/// Law: the low bit of the current hash is set exactly when Black is to
/// move.
pub proof fn lemma_hash_turn_bit_current(v: PosState)
    requires
        pos_wf(v),
    ensures
        v.hash[v.ply] & 1 == (if v.core.side_to_move == Color::Black {
            1u64
        } else {
            0u64
        }),
{
    assert(v.cores[v.ply] == v.core);
    lemma_hash_turn_bit(v.core.board, v.core.side_to_move, v.zobrist);
}

/// Law: each piece's bitboard holds exactly the squares where that piece
/// stands, and each player's occupancy holds exactly that player's squares.
pub proof fn lemma_bitboard_consistency(v: PosState)
    requires
        pos_wf(v),
    ensures
        forall|p: int, sq: u32|
            1 <= p < 21 && sq < 25 ==> (#[trigger] bb_has(v.core.piece_bb[p], sq) <==> v.core.board[
            sq as int].spec_index() == p),
        forall|sq: u32|
            sq < 25 ==> (bb_has(v.core.player_bb[0], #[trigger] (sq as u32)) <==> v.core.board[
            sq as int].spec_get_color() == Color::White),
        forall|sq: u32|
            sq < 25 ==> (bb_has(v.core.player_bb[1], #[trigger] (sq as u32)) <==> v.core.board[
            sq as int].spec_get_color() == Color::Black),
{
    assert(v.cores[v.ply] == v.core);
}

/// Law: bit `f` of a color's pawn-file flags is set exactly when an
/// unpromoted pawn of that color stands on file `f`, and never more than
/// one does.
pub proof fn lemma_pawn_flag_consistency(v: PosState)
    requires
        pos_wf(v),
    ensures
        forall|ci: int, f: u32|
            0 <= ci < 2 && f < 5 ==> (#[trigger] bb_has(v.core.pawn_flags[ci], f) <==> pawn_count(
                v.core.board,
                color_of_index(ci),
                f as int,
            ) > 0),
        forall|ci: int, f: int|
            0 <= ci < 2 && 0 <= f < 5 ==> #[trigger] pawn_count(v.core.board, color_of_index(ci), f)
                <= 1,
{
    assert(v.cores[v.ply] == v.core);
}

} // verus!
