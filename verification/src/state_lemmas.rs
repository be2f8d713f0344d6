//! Proofs about the transition functions: playing a move preserves
//! well-formedness, taking it back restores the exact previous snapshot, and
//! the incremental hash update agrees with recomputation.

use vstd::prelude::*;

use crate::bitboard::bb_fits;
use crate::bitboard::bb_has;
use crate::bitboard::lemma_bb_fits_or;
use crate::bitboard::lemma_bb_fits_single;
use crate::bitboard::lemma_bb_move_cancel;
use crate::bitboard::lemma_bb_nonzero;
use crate::bitboard::lemma_bb_or;
use crate::bitboard::lemma_bb_or_xor_cancel;
use crate::bitboard::lemma_bb_single;
use crate::bitboard::lemma_bb_xor;
use crate::bitboard::lemma_bb_xor_or_cancel;
use crate::bitboard::lemma_pf_fits;
use crate::bitboard::spec_col;
use crate::moves::Move;
use crate::state::color_of_index;
use crate::state::core_wf;
use crate::state::lemma_pawn_count_member;
use crate::state::lemma_pawn_count_update;
use crate::state::lemma_raw_count_bounds;
use crate::state::lemma_raw_count_update;
use crate::state::pawn_count;
use crate::state::pawn_of;
use crate::state::pos_wf;
use crate::state::raw_count;
use crate::state::spec_adjacent_check;
use crate::state::spec_do_core;
use crate::state::spec_do_move;
use crate::state::spec_long_check;
use crate::state::spec_move_applicable;
use crate::state::spec_undo_core;
use crate::state::spec_undo_move;
use crate::state::PosCore;
use crate::state::PosState;
use crate::types::Color;
use crate::types::Piece;
use crate::types::PieceType;
use crate::zobrist::hash_of;
use crate::zobrist::lemma_xor_upto_update;
use crate::zobrist::square_term;
use crate::zobrist::table_wf;
use crate::zobrist::xor_upto;

verus! {

/// The raw-type weight of the piece a promotion produces equals the weight
/// of the piece itself.
proof fn lemma_promoted_same_raw(p: Piece)
    requires
        p.spec_is_promotable(),
    ensures
        p.spec_get_promoted().spec_get_piece_type().spec_get_raw()
            == p.spec_get_piece_type().spec_get_raw(),
        p.spec_get_promoted() != Piece::NoPiece,
        p.spec_get_promoted().spec_get_color() == p.spec_get_color(),
        p.spec_get_promoted().spec_get_piece_type() != PieceType::King,
        p.spec_get_promoted().spec_get_piece_type() != PieceType::Pawn,
{
}

/// The captured piece's raw type can go to a hand slot, and that slot is not
/// yet full.
pub proof fn lemma_capture_slot(c: PosCore, m: Move)
    requires
        core_wf(c),
        spec_move_applicable(c, m),
        m.amount != 0,
        m.capture_piece != Piece::NoPiece,
    ensures
        m.capture_piece.spec_get_piece_type().spec_get_raw().spec_hand_index() < 5,
        c.hand[5 * c.side_to_move.spec_index() + m.capture_piece.spec_get_piece_type(
        ).spec_get_raw().spec_hand_index()] < 64,
{
    let t = m.capture_piece.spec_get_piece_type().spec_get_raw().spec_hand_index() as int;
    assert(0 <= t < 5);
    assert(c.hand[t] + c.hand[5 + t] + raw_count(c.board, t) <= 43);
    lemma_raw_count_bounds(c.board, t, 25);
}

/// Playing an applicable move on a consistent snapshot yields a consistent
/// snapshot.
pub proof fn lemma_do_core_wf(c: PosCore, m: Move)
    requires
        core_wf(c),
        spec_move_applicable(c, m),
    ensures
        core_wf(spec_do_core(c, m)),
{
    if m.amount == 0 {
        lemma_do_core_wf_drop(c, m);
    } else {
        lemma_do_core_wf_board(c, m);
    }
}

proof fn lemma_do_core_wf_drop(c: PosCore, m: Move)
    requires
        core_wf(c),
        spec_move_applicable(c, m),
        m.amount == 0,
    ensures
        core_wf(spec_do_core(c, m)),
{
    let c2 = spec_do_core(c, m);
    let stm = c.side_to_move;
    let si = stm.spec_index() as int;
    let tobit = m.to as u32;
    let bit_to = 1u32 << tobit;
    let pidx = m.piece.spec_index() as int;
    assert(m.piece.spec_index() != 0);
    // bitboard shapes
    lemma_bb_fits_single(tobit);
    lemma_bb_fits_or(c.piece_bb[pidx], bit_to);
    lemma_bb_fits_or(c.player_bb[si], bit_to);
    // piece bitboard consistency
    assert forall|p: int, sq: u32|
        1 <= p < 21 && sq < 25 implies (#[trigger] bb_has(c2.piece_bb[p], sq) <==> c2.board[
        sq as int].spec_index() == p) by {
        lemma_bb_single(tobit, sq);
        if p == pidx {
            lemma_bb_or(c.piece_bb[pidx], bit_to, sq);
        }
    }
    // player bitboard consistency
    assert forall|sq: u32|
        sq < 25 implies (bb_has(c2.player_bb[0], #[trigger] (sq as u32)) <==> c2.board[
        sq as int].spec_get_color() == Color::White) by {
        lemma_bb_single(tobit, sq);
        if si == 0 {
            lemma_bb_or(c.player_bb[0], bit_to, sq);
        }
    }
    assert forall|sq: u32|
        sq < 25 implies (bb_has(c2.player_bb[1], #[trigger] (sq as u32)) <==> c2.board[
        sq as int].spec_get_color() == Color::Black) by {
        lemma_bb_single(tobit, sq);
        if si == 1 {
            lemma_bb_or(c.player_bb[1], bit_to, sq);
        }
    }
    // pawn flags
    let fcol = spec_col(m.to as int) as u32;
    if m.piece.spec_get_piece_type() == PieceType::Pawn {
        lemma_pf_fits(c.pawn_flags[si], fcol);
    }
    assert forall|ci: int, f: u32|
        0 <= ci < 2 && f < 5 implies (#[trigger] bb_has(c2.pawn_flags[ci], f) <==> pawn_count(
        c2.board,
        color_of_index(ci),
        f as int,
    ) > 0) by {
        let col = color_of_index(ci);
        lemma_pawn_count_update(c.board, col, f as int, m.to as int, m.piece, 25);
        crate::state::lemma_pawn_count_bounds(c.board, col, f as int, 25);
        assert(pawn_count(c.board, col, f as int) <= 1);
        if m.piece.spec_get_piece_type() == PieceType::Pawn && ci == si {
            lemma_bb_single(fcol, f);
            lemma_bb_or(c.pawn_flags[si], 1u32 << fcol, f);
        }
    }
    assert forall|ci: int, f: int|
        0 <= ci < 2 && 0 <= f < 5 implies #[trigger] pawn_count(c2.board, color_of_index(ci), f)
        <= 1 by {
        let col = color_of_index(ci);
        lemma_pawn_count_update(c.board, col, f, m.to as int, m.piece, 25);
        crate::state::lemma_pawn_count_bounds(c.board, col, f, 25);
        assert(pawn_count(c.board, col, f) <= 1);
        if m.piece == pawn_of(col) && spec_col(m.to as int) == f {
            assert(ci == si);
            assert(!bb_has(c.pawn_flags[si], fcol));
            assert(pawn_count(c.board, col, f) <= 0);
        }
    }
    // piece conservation
    assert forall|t: int|
        0 <= t < 5 implies c2.hand[t] + c2.hand[5 + t] + #[trigger] raw_count(c2.board, t)
        <= 43 by {
        lemma_raw_count_update(c.board, t, m.to as int, m.piece, 25);
        lemma_raw_count_bounds(c.board, t, 25);
        assert(c.hand[t] + c.hand[5 + t] + raw_count(c.board, t) <= 43);
    }
}

proof fn lemma_do_core_wf_board(c: PosCore, m: Move)
    requires
        core_wf(c),
        spec_move_applicable(c, m),
        m.amount != 0,
    ensures
        core_wf(spec_do_core(c, m)),
{
    let c2 = spec_do_core(c, m);
    let stm = c.side_to_move;
    let op = stm.spec_get_op_color();
    let si = stm.spec_index() as int;
    let oi = op.spec_index() as int;
    let tobit = m.to as u32;
    let frombit = m.from as u32;
    let bit_to = 1u32 << tobit;
    let bit_from = 1u32 << frombit;
    let cap = m.capture_piece;
    let cidx = cap.spec_index() as int;
    let pidx = m.piece.spec_index() as int;
    let newp = if m.promotion {
        m.piece.spec_get_promoted()
    } else {
        m.piece
    };
    let nidx = newp.spec_index() as int;
    if m.promotion {
        lemma_promoted_same_raw(m.piece);
    }
    assert(pidx != 0 && nidx != 0);
    assert(newp.spec_get_color() == stm);
    if cap != Piece::NoPiece {
        assert(cidx != 0);
        assert(cap.spec_get_color() == op);
        assert(cidx != pidx && cidx != nidx);
        lemma_capture_slot(c, m);
    }
    assert(c2.board[m.to as int] == newp && c2.board[m.from as int] == Piece::NoPiece);
    // bitboard shapes
    lemma_bb_fits_single(tobit);
    lemma_bb_fits_single(frombit);
    if cap != Piece::NoPiece {
        lemma_bb_fits_or(c.piece_bb[cidx], bit_to);
        lemma_bb_fits_or(c.player_bb[oi], bit_to);
    }
    if nidx == pidx {
        lemma_bb_fits_or(c.piece_bb[pidx], bit_to);
        lemma_bb_fits_or(c.piece_bb[pidx] | bit_to, bit_from);
    } else {
        lemma_bb_fits_or(c.piece_bb[nidx], bit_to);
        lemma_bb_fits_or(c.piece_bb[pidx], bit_from);
    }
    lemma_bb_fits_or(c.player_bb[si], bit_to);
    lemma_bb_fits_or(c.player_bb[si] | bit_to, bit_from);
    // piece bitboard consistency
    assert forall|p: int, sq: u32|
        1 <= p < 21 && sq < 25 implies (#[trigger] bb_has(c2.piece_bb[p], sq) <==> c2.board[
        sq as int].spec_index() == p) by {
        lemma_bb_single(tobit, sq);
        lemma_bb_single(frombit, sq);
        let base = if cap != Piece::NoPiece && p == cidx {
            lemma_bb_xor(c.piece_bb[p], bit_to, sq);
            c.piece_bb[p] ^ bit_to
        } else {
            c.piece_bb[p]
        };
        let mid = if p == nidx {
            lemma_bb_or(base, bit_to, sq);
            base | bit_to
        } else {
            base
        };
        if p == pidx {
            lemma_bb_xor(mid, bit_from, sq);
        }
    }
    // player bitboard consistency
    assert forall|sq: u32|
        sq < 25 implies (bb_has(c2.player_bb[0], #[trigger] (sq as u32)) <==> c2.board[
        sq as int].spec_get_color() == Color::White) by {
        lemma_bb_single(tobit, sq);
        lemma_bb_single(frombit, sq);
        if cap != Piece::NoPiece && oi == 0 {
            lemma_bb_xor(c.player_bb[0], bit_to, sq);
        }
        if si == 0 {
            lemma_bb_or(c.player_bb[0], bit_to, sq);
            lemma_bb_xor(c.player_bb[0] | bit_to, bit_from, sq);
        }
    }
    assert forall|sq: u32|
        sq < 25 implies (bb_has(c2.player_bb[1], #[trigger] (sq as u32)) <==> c2.board[
        sq as int].spec_get_color() == Color::Black) by {
        lemma_bb_single(tobit, sq);
        lemma_bb_single(frombit, sq);
        if cap != Piece::NoPiece && oi == 1 {
            lemma_bb_xor(c.player_bb[1], bit_to, sq);
        }
        if si == 1 {
            lemma_bb_or(c.player_bb[1], bit_to, sq);
            lemma_bb_xor(c.player_bb[1] | bit_to, bit_from, sq);
        }
    }
    // pawn flags keep to five bits
    let fcol = spec_col(m.to as int) as u32;
    assert forall|ci: int| 0 <= ci < 2 implies (#[trigger] c2.pawn_flags[ci]) >> 5u32 == 0 by {
        lemma_pf_fits(c.pawn_flags[ci], fcol);
        lemma_pf_fits(c.pawn_flags[ci] ^ (1u32 << fcol), fcol);
    }
    // pawn flag consistency and per-file uniqueness
    assert forall|ci: int, f: u32|
        0 <= ci < 2 && f < 5 implies (#[trigger] bb_has(c2.pawn_flags[ci], f) <==> pawn_count(
        c2.board,
        color_of_index(ci),
        f as int,
    ) > 0) by {
        lemma_pawn_flag_case(c, m, ci, f as int);
    }
    assert forall|ci: int, f: int|
        0 <= ci < 2 && 0 <= f < 5 implies #[trigger] pawn_count(c2.board, color_of_index(ci), f)
        <= 1 by {
        lemma_pawn_flag_case(c, m, ci, f);
    }
    // piece conservation
    assert forall|t: int|
        0 <= t < 5 implies c2.hand[t] + c2.hand[5 + t] + #[trigger] raw_count(c2.board, t)
        <= 43 by {
        lemma_raw_count_update(c.board, t, m.to as int, newp, 25);
        lemma_raw_count_update(c.board.update(m.to as int, newp), t, m.from as int, Piece::NoPiece, 25);
        lemma_raw_count_bounds(c2.board, t, 25);
        lemma_raw_count_bounds(c.board, t, 25);
        assert(c.hand[t] + c.hand[5 + t] + raw_count(c.board, t) <= 43);
    }
}

/// A move that captures no king keeps every king that was on the board.
pub proof fn lemma_do_core_kings(c: PosCore, m: Move)
    requires
        core_wf(c),
        spec_move_applicable(c, m),
    ensures
        c.king_bb(Color::White) != 0 ==> spec_do_core(c, m).king_bb(Color::White) != 0,
        c.king_bb(Color::Black) != 0 ==> spec_do_core(c, m).king_bb(Color::Black) != 0,
{
    let c2 = spec_do_core(c, m);
    let tobit = m.to as u32;
    let bit_to = 1u32 << tobit;
    let pidx = m.piece.spec_index() as int;
    let wk = Piece::WKing.spec_index() as int;
    let bk = Piece::BKing.spec_index() as int;
    if m.amount == 0 {
        assert(pidx != 1 && pidx != 11);
    } else {
        let frombit = m.from as u32;
        let bit_from = 1u32 << frombit;
        let cap = m.capture_piece;
        let cidx = cap.spec_index() as int;
        let newp = if m.promotion {
            m.piece.spec_get_promoted()
        } else {
            m.piece
        };
        let nidx = newp.spec_index() as int;
        if m.promotion {
            lemma_promoted_same_raw(m.piece);
        }
        assert(cidx != wk && cidx != bk);
        if pidx == wk || pidx == bk {
            assert(nidx == pidx);
            assert(!bb_has(c.piece_bb[pidx], tobit));
            assert(bb_has(c.piece_bb[pidx], frombit));
            lemma_bb_move_cancel(c.piece_bb[pidx], tobit, frombit);
            lemma_bb_nonzero((c.piece_bb[pidx] | bit_to) ^ bit_from, tobit);
        } else {
            assert(nidx != wk && nidx != bk);
        }
    }
}

/// Flag-and-count agreement for one color and file after a board move.
proof fn lemma_pawn_flag_case(c: PosCore, m: Move, ci: int, f: int)
    requires
        core_wf(c),
        spec_move_applicable(c, m),
        m.amount != 0,
        0 <= ci < 2,
        0 <= f < 5,
    ensures
        bb_has(spec_do_core(c, m).pawn_flags[ci], f as u32) <==> pawn_count(
            spec_do_core(c, m).board,
            color_of_index(ci),
            f,
        ) > 0,
        pawn_count(spec_do_core(c, m).board, color_of_index(ci), f) <= 1,
{
    let c2 = spec_do_core(c, m);
    let stm = c.side_to_move;
    let op = stm.spec_get_op_color();
    let si = stm.spec_index() as int;
    let oi = op.spec_index() as int;
    let col = color_of_index(ci);
    let cap = m.capture_piece;
    let newp = if m.promotion {
        m.piece.spec_get_promoted()
    } else {
        m.piece
    };
    if m.promotion {
        lemma_promoted_same_raw(m.piece);
    }
    lemma_pawn_count_update(c.board, col, f, m.to as int, newp, 25);
    lemma_pawn_count_update(c.board.update(m.to as int, newp), col, f, m.from as int, Piece::NoPiece, 25);
    crate::state::lemma_pawn_count_bounds(c.board, col, f, 25);
    assert(pawn_count(c.board, col, f) <= 1);
    let fcol = spec_col(m.to as int) as u32;
    lemma_bb_single(fcol, f as u32);
    if cap.spec_get_piece_type() == PieceType::Pawn && ci == oi {
        lemma_bb_xor(c.pawn_flags[oi], 1u32 << fcol, f as u32);
        if spec_col(m.to as int) == f {
            lemma_pawn_count_member(c.board, col, f, m.to as int);
        }
    }
    if m.promotion && m.piece.spec_get_piece_type() == PieceType::Pawn && ci == si {
        lemma_bb_xor(c.pawn_flags[si], 1u32 << fcol, f as u32);
        if spec_col(m.from as int) == f {
            lemma_pawn_count_member(c.board, col, f, m.from as int);
        }
    }
}

/// Taking an applicable move back restores the snapshot it was played on.
pub proof fn lemma_core_round_trip(c: PosCore, m: Move)
    requires
        core_wf(c),
        spec_move_applicable(c, m),
    ensures
        spec_undo_core(spec_do_core(c, m), m) == c,
{
    let c2 = spec_do_core(c, m);
    let c3 = spec_undo_core(c2, m);
    let stm = c.side_to_move;
    let si = stm.spec_index() as int;
    let oi = stm.spec_get_op_color().spec_index() as int;
    let tobit = m.to as u32;
    let bit_to = 1u32 << tobit;
    let pidx = m.piece.spec_index() as int;
    assert(c3.side_to_move == stm);
    if m.amount == 0 {
        assert(c3.board =~= c.board);
        assert(c3.hand =~= c.hand);
        assert(m.piece.spec_index() != 0);
        assert(!bb_has(c.piece_bb[pidx], tobit));
        lemma_bb_or_xor_cancel(c.piece_bb[pidx], tobit);
        assert(c3.piece_bb =~= c.piece_bb);
        if stm == Color::White {
            assert(!bb_has(c.player_bb[0], tobit));
        } else {
            assert(!bb_has(c.player_bb[1], tobit));
        }
        lemma_bb_or_xor_cancel(c.player_bb[si], tobit);
        assert(c3.player_bb =~= c.player_bb);
        if m.piece.spec_get_piece_type() == PieceType::Pawn {
            let fcol = spec_col(m.to as int) as u32;
            lemma_bb_or_xor_cancel(c.pawn_flags[si], fcol);
            assert(c3.pawn_flags =~= c.pawn_flags);
        }
        assert(c3 =~~= c);
    } else {
        let frombit = m.from as u32;
        let bit_from = 1u32 << frombit;
        let cap = m.capture_piece;
        let cidx = cap.spec_index() as int;
        let newp = if m.promotion {
            m.piece.spec_get_promoted()
        } else {
            m.piece
        };
        let nidx = newp.spec_index() as int;
        if m.promotion {
            lemma_promoted_same_raw(m.piece);
        }
        assert(pidx != 0 && nidx != 0);
        if cap != Piece::NoPiece {
            assert(cidx != pidx && cidx != nidx);
            lemma_capture_slot(c, m);
        }
        assert(c2.board[m.to as int] == newp);
        assert(c3.board =~= c.board);
        assert(c3.hand =~= c.hand);
        // piece bitboards
        assert(!bb_has(c.piece_bb[nidx], tobit));
        assert(bb_has(c.piece_bb[pidx], frombit));
        if nidx == pidx {
            lemma_bb_move_cancel(c.piece_bb[pidx], tobit, frombit);
        } else {
            lemma_bb_or_xor_cancel(c.piece_bb[nidx], tobit);
            lemma_bb_xor_or_cancel(c.piece_bb[pidx], frombit);
        }
        if cap != Piece::NoPiece {
            assert(bb_has(c.piece_bb[cidx], tobit));
            lemma_bb_xor_or_cancel(c.piece_bb[cidx], tobit);
        }
        assert(c3.piece_bb =~= c.piece_bb);
        // player bitboards
        if stm == Color::White {
            assert(!bb_has(c.player_bb[0], tobit));
            assert(bb_has(c.player_bb[0], frombit));
        } else {
            assert(!bb_has(c.player_bb[1], tobit));
            assert(bb_has(c.player_bb[1], frombit));
        }
        lemma_bb_move_cancel(c.player_bb[si], tobit, frombit);
        if cap != Piece::NoPiece {
            if stm == Color::White {
                assert(bb_has(c.player_bb[1], tobit));
            } else {
                assert(bb_has(c.player_bb[0], tobit));
            }
            lemma_bb_xor_or_cancel(c.player_bb[oi], tobit);
        }
        assert(c3.player_bb =~= c.player_bb);
        // pawn flags
        let fcol = spec_col(m.to as int) as u32;
        if cap.spec_get_piece_type() == PieceType::Pawn {
            lemma_pawn_count_member(
                c.board,
                stm.spec_get_op_color(),
                fcol as int,
                m.to as int,
            );
            assert(bb_has(c.pawn_flags[oi], fcol));
            lemma_bb_xor_or_cancel(c.pawn_flags[oi], fcol);
        }
        if m.promotion && m.piece.spec_get_piece_type() == PieceType::Pawn {
            lemma_pawn_count_member(c.board, stm, fcol as int, m.from as int);
            assert(bb_has(c.pawn_flags[si], fcol));
            lemma_bb_xor_or_cancel(c.pawn_flags[si], fcol);
        }
        assert(c3.pawn_flags =~= c.pawn_flags);
        assert(c3 =~~= c);
    }
}

/// The incremental hash value `do_move` computes, as one formula: the old
/// hash with the source, destination and captured entries toggled and the
/// turn bit flipped.
pub open spec fn spec_hash_after(c: PosCore, m: Move, t: Seq<Seq<u64>>) -> u64 {
    let h = hash_of(c.board, c.side_to_move, t);
    if m.amount == 0 {
        (h ^ t[m.to as int][m.piece.spec_index() as int]) ^ 1u64
    } else {
        let newp = if m.promotion {
            m.piece.spec_get_promoted()
        } else {
            m.piece
        };
        let h1 = if m.capture_piece != Piece::NoPiece {
            h ^ t[m.to as int][m.capture_piece.spec_index() as int]
        } else {
            h
        };
        ((h1 ^ t[m.from as int][m.piece.spec_index() as int]) ^ t[m.to as int][
            newp.spec_index() as int]) ^ 1u64
    }
}

proof fn lemma_xor_regroup(a: u64, b: u64, x: u64, y: u64, z: u64)
    by (bit_vector)
    ensures
        ((a ^ b) ^ x) ^ 1u64 == ((a ^ x) ^ 0u64) ^ (b ^ 1u64),
        (((a ^ b) ^ x) ^ y) ^ 1u64 == (((a ^ x) ^ y) ^ 0u64) ^ (b ^ 1u64),
        ((((a ^ b) ^ z) ^ x) ^ y) ^ 1u64 == ((((a ^ z) ^ x) ^ y) ^ 0u64) ^ (b ^ 1u64),
        a ^ 0u64 == a,
        0u64 ^ 1u64 == 1u64,
        1u64 ^ 1u64 == 0u64,
{
}

/// The incremental update agrees with recomputing the hash on the new
/// snapshot.
pub proof fn lemma_hash_do(c: PosCore, m: Move, t: Seq<Seq<u64>>)
    requires
        core_wf(c),
        spec_move_applicable(c, m),
        table_wf(t),
    ensures
        spec_hash_after(c, m, t) == hash_of(
            spec_do_core(c, m).board,
            spec_do_core(c, m).side_to_move,
            t,
        ),
{
    let c2 = spec_do_core(c, m);
    let stm = c.side_to_move;
    let s = if stm == Color::Black {
        1u64
    } else {
        0u64
    };
    let s2 = if c2.side_to_move == Color::Black {
        1u64
    } else {
        0u64
    };
    let x0 = xor_upto(c.board, t, 25);
    assert(s2 == s ^ 1u64) by (bit_vector)
        requires
            (s == 0u64 || s == 1u64) && (s2 == 0u64 || s2 == 1u64) && s != s2,
    ;
    if m.amount == 0 {
        let b2 = c.board.update(m.to as int, m.piece);
        lemma_xor_upto_update(c.board, t, m.to as int, m.piece, 25);
        assert(square_term(c.board, t, m.to as int) == 0u64);
        assert(square_term(b2, t, m.to as int) == t[m.to as int][m.piece.spec_index() as int]);
        let y = t[m.to as int][m.piece.spec_index() as int];
        assert(xor_upto(b2, t, 25) == (x0 ^ 0u64) ^ y);
        lemma_xor_regroup(x0, s, y, 0, 0);
        assert(((x0 ^ 0u64) ^ y) ^ s2 == ((x0 ^ y) ^ 0u64) ^ (s ^ 1u64)) by (bit_vector)
            requires
                s2 == s ^ 1u64,
        ;
    } else {
        let newp = if m.promotion {
            m.piece.spec_get_promoted()
        } else {
            m.piece
        };
        if m.promotion {
            lemma_promoted_same_raw(m.piece);
        }
        let b1 = c.board.update(m.to as int, newp);
        let b2 = b1.update(m.from as int, Piece::NoPiece);
        lemma_xor_upto_update(c.board, t, m.to as int, newp, 25);
        lemma_xor_upto_update(b1, t, m.from as int, Piece::NoPiece, 25);
        let zc = square_term(c.board, t, m.to as int);
        let y = t[m.to as int][newp.spec_index() as int];
        let x = t[m.from as int][m.piece.spec_index() as int];
        assert(square_term(b1, t, m.to as int) == y);
        assert(square_term(b1, t, m.from as int) == x);
        assert(square_term(b2, t, m.from as int) == 0u64);
        assert(xor_upto(b1, t, 25) == (x0 ^ zc) ^ y);
        assert(xor_upto(b2, t, 25) == ((((x0 ^ zc) ^ y) ^ x) ^ 0u64));
        if m.capture_piece != Piece::NoPiece {
            assert(zc == t[m.to as int][m.capture_piece.spec_index() as int]);
            lemma_xor_regroup(x0, s, x, y, zc);
            assert(((((x0 ^ zc) ^ y) ^ x) ^ 0u64) ^ s2 == ((((x0 ^ zc) ^ x) ^ y) ^ 0u64) ^ (s
                ^ 1u64)) by (bit_vector)
                requires
                    s2 == s ^ 1u64,
            ;
        } else {
            assert(zc == 0u64);
            lemma_xor_regroup(x0, s, x, y, 0);
            assert(((((x0 ^ 0u64) ^ y) ^ x) ^ 0u64) ^ s2 == (((x0 ^ x) ^ y) ^ 0u64) ^ (s ^ 1u64))
                by (bit_vector)
                requires
                    s2 == s ^ 1u64,
            ;
        }
    }
}

/// Playing an applicable move preserves well-formedness of the full record.
pub proof fn lemma_do_move_wf(v: PosState, m: Move)
    requires
        pos_wf(v),
        spec_move_applicable(v.core, m),
        v.ply < 512,
    ensures
        pos_wf(spec_do_move(v, m)),
{
    let v2 = spec_do_move(v, m);
    lemma_do_core_wf(v.core, m);
    assert forall|i: int| 0 <= i <= v2.ply implies core_wf(#[trigger] v2.cores[i]) by {
        if i < v2.ply {
            assert(v2.cores[i] == v.cores[i]);
        }
    }
    assert forall|i: int|
        0 <= i <= v2.ply implies v2.hash[i] == hash_of(
        (#[trigger] v2.cores[i]).board,
        v2.cores[i].side_to_move,
        v2.zobrist,
    ) by {
        if i < v2.ply {
            assert(v2.cores[i] == v.cores[i] && v2.hash[i] == v.hash[i]);
        }
    }
    assert forall|i: int|
        0 <= i <= v2.ply implies v2.adjacent_check_bb[i] == spec_adjacent_check(
        #[trigger] v2.cores[i],
    ) by {
        if i < v2.ply {
            assert(v2.cores[i] == v.cores[i] && v2.adjacent_check_bb[i] == v.adjacent_check_bb[i]);
        }
    }
    assert forall|i: int|
        0 <= i <= v2.ply implies v2.long_check_bb[i] == spec_long_check(#[trigger] v2.cores[i]) by {
        if i < v2.ply {
            assert(v2.cores[i] == v.cores[i] && v2.long_check_bb[i] == v.long_check_bb[i]);
        }
    }
    assert forall|i: int|
        0 <= i < v2.ply implies spec_move_applicable(#[trigger] v2.cores[i], v2.kif[i]) by {
        if i < v.ply {
            assert(v2.cores[i] == v.cores[i] && v2.kif[i] == v.kif[i]);
        } else {
            assert(v2.cores[i] == v.core && v2.kif[i] == m);
        }
    }
    assert forall|i: int|
        0 <= i < v2.ply implies #[trigger] v2.cores[i + 1] == spec_do_core(
        v2.cores[i],
        v2.kif[i],
    ) by {
        if i < v.ply {
            assert(v2.cores[i] == v.cores[i] && v2.cores[i + 1] == v.cores[i + 1] && v2.kif[i]
                == v.kif[i]);
        } else {
            assert(v2.cores[i] == v.core && v2.kif[i] == m);
        }
    }
}

/// Law: playing any applicable move on a well-formed record and taking it
/// back restores the record bit for bit — board, hands, bitboards, pawn
/// flags, ply, hashes, check bitboards and consecutive-check counters.
pub proof fn lemma_do_undo_round_trip(v: PosState, m: Move)
    requires
        pos_wf(v),
        spec_move_applicable(v.core, m),
        v.ply < 512,
    ensures
        spec_undo_move(spec_do_move(v, m)) == v,
{
    let v2 = spec_do_move(v, m);
    let v3 = spec_undo_move(v2);
    assert(v2.kif[v2.ply - 1] == m);
    lemma_core_round_trip(v.core, m);
    assert(v3.core == v.core);
    assert(v3.kif =~= v.kif);
    assert(v3.hash =~= v.hash);
    assert(v3.adjacent_check_bb =~= v.adjacent_check_bb);
    assert(v3.long_check_bb =~= v.long_check_bb);
    assert(v3.sequent_check_count =~= v.sequent_check_count);
    assert(v3.cores =~= v.cores);
    assert(v3 =~~= v);
}

/// Taking the last move back preserves well-formedness and lands on the
/// previously recorded snapshot.
#[verifier::rlimit(60)]
pub proof fn lemma_undo_move_wf(v: PosState)
    requires
        pos_wf(v),
        v.ply >= 1,
    ensures
        pos_wf(spec_undo_move(v)),
        spec_undo_move(v).core == v.cores[v.ply - 1],
{
    let v2 = spec_undo_move(v);
    let i = v.ply - 1;
    assert(v.cores[i + 1] == spec_do_core(v.cores[i], v.kif[i]));
    assert(v.cores[i + 1] == v.core);
    lemma_core_round_trip(v.cores[i], v.kif[i]);
    assert(v2.core == v.cores[i]);
    assert(v2.cores[v2.ply] == v.cores[i]);
}

} // verus!
