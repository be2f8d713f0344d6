//! The mathematical model of a position: a per-ply core snapshot, the
//! well-formedness predicate tying board, bitboards, pawn flags and hash
//! together, and the exact transition functions for playing and taking back
//! a move.

use vstd::prelude::*;

use crate::bitboard::adj_attack_bb;
use crate::bitboard::bb_fits;
use crate::bitboard::bb_has;
use crate::bitboard::bishop_attack_bb;
use crate::bitboard::rook_attack_bb;
use crate::bitboard::spec_col;
use crate::moves::Move;
use crate::types::Color;
use crate::types::Piece;
use crate::types::PieceType;
use crate::zobrist::hash_of;
use crate::zobrist::table_wf;

verus! {

/// The per-ply snapshot: everything the rules read apart from history.
pub struct PosCore {
    pub side_to_move: Color,
    /// Piece on each of the 25 squares.
    pub board: Seq<Piece>,
    /// Hand counts, ten slots: five per color, White first.
    pub hand: Seq<u8>,
    /// Per color, bit f set when an unpromoted pawn of that color is on file f.
    pub pawn_flags: Seq<u32>,
    /// One bitboard per piece index.
    pub piece_bb: Seq<u32>,
    /// Occupancy bitboard per color.
    pub player_bb: Seq<u32>,
}

/// The unpromoted pawn of a color.
pub open spec fn pawn_of(c: Color) -> Piece {
    if c == Color::White {
        Piece::WPawn
    } else {
        Piece::BPawn
    }
}

/// One when the square holds an unpromoted pawn of color `c` on file `f`.
pub open spec fn pawn_weight(sq: int, p: Piece, c: Color, f: int) -> int {
    if p == pawn_of(c) && spec_col(sq) == f {
        1
    } else {
        0
    }
}

/// Number of unpromoted pawns of color `c` on file `f` among the first `n`
/// squares.
pub open spec fn pawn_count_upto(board: Seq<Piece>, c: Color, f: int, n: int) -> int
    decreases n,
{
    if n <= 0 {
        0
    } else {
        pawn_count_upto(board, c, f, n - 1) + pawn_weight(n - 1, board[n - 1], c, f)
    }
}

/// Number of unpromoted pawns of color `c` on file `f`.
pub open spec fn pawn_count(board: Seq<Piece>, c: Color, f: int) -> int {
    pawn_count_upto(board, c, f, 25)
}

/// One when the square's piece has hand slot `t` as its raw type.
pub open spec fn raw_weight(p: Piece, t: int) -> int {
    if p.spec_get_piece_type().spec_get_raw().spec_hand_index() == t {
        1
    } else {
        0
    }
}

/// Number of pieces with raw hand slot `t` among the first `n` squares.
pub open spec fn raw_count_upto(board: Seq<Piece>, t: int, n: int) -> int
    decreases n,
{
    if n <= 0 {
        0
    } else {
        raw_count_upto(board, t, n - 1) + raw_weight(board[n - 1], t)
    }
}

/// Number of pieces whose raw type sits in hand slot `t`.
pub open spec fn raw_count(board: Seq<Piece>, t: int) -> int {
    raw_count_upto(board, t, 25)
}

/// Changing one square changes a pawn count by the old and new weight.
pub proof fn lemma_pawn_count_update(
    board: Seq<Piece>,
    c: Color,
    f: int,
    sq: int,
    p: Piece,
    n: int,
)
    requires
        board.len() == 25,
        0 <= sq < 25,
        n <= 25,
    ensures
        n <= sq ==> pawn_count_upto(board.update(sq, p), c, f, n) == pawn_count_upto(
            board,
            c,
            f,
            n,
        ),
        n > sq ==> pawn_count_upto(board.update(sq, p), c, f, n) == pawn_count_upto(board, c, f, n)
            - pawn_weight(sq, board[sq], c, f) + pawn_weight(sq, p, c, f),
    decreases n,
{
    if n > 0 {
        lemma_pawn_count_update(board, c, f, sq, p, n - 1);
    }
}

/// A pawn count is never negative.
pub proof fn lemma_pawn_count_bounds(board: Seq<Piece>, c: Color, f: int, n: int)
    ensures
        0 <= pawn_count_upto(board, c, f, n),
    decreases n,
{
    if n > 0 {
        lemma_pawn_count_bounds(board, c, f, n - 1);
    }
}

/// A square holding a matching pawn witnesses a positive count.
pub proof fn lemma_pawn_count_member(board: Seq<Piece>, c: Color, f: int, sq: int)
    requires
        board.len() == 25,
        0 <= sq < 25,
        board[sq] == pawn_of(c),
        spec_col(sq) == f,
    ensures
        pawn_count(board, c, f) >= 1,
{
    lemma_pawn_count_partial(board, c, f, sq + 1, 25);
    lemma_pawn_count_bounds(board, c, f, sq);
}

pub proof fn lemma_pawn_count_partial(board: Seq<Piece>, c: Color, f: int, m: int, n: int)
    requires
        m <= n,
    ensures
        pawn_count_upto(board, c, f, m) <= pawn_count_upto(board, c, f, n),
    decreases n - m,
{
    if m < n {
        lemma_pawn_count_partial(board, c, f, m, n - 1);
    }
}

/// Changing one square changes a raw-type count by the old and new weight.
pub proof fn lemma_raw_count_update(board: Seq<Piece>, t: int, sq: int, p: Piece, n: int)
    requires
        board.len() == 25,
        0 <= sq < 25,
        n <= 25,
    ensures
        n <= sq ==> raw_count_upto(board.update(sq, p), t, n) == raw_count_upto(board, t, n),
        n > sq ==> raw_count_upto(board.update(sq, p), t, n) == raw_count_upto(board, t, n)
            - raw_weight(board[sq], t) + raw_weight(p, t),
    decreases n,
{
    if n > 0 {
        lemma_raw_count_update(board, t, sq, p, n - 1);
    }
}

/// A raw-type count is never negative and at most the number of squares.
pub proof fn lemma_raw_count_bounds(board: Seq<Piece>, t: int, n: int)
    ensures
        0 <= raw_count_upto(board, t, n),
        raw_count_upto(board, t, n) <= (if n >= 0 {
            n
        } else {
            0
        }),
    decreases n,
{
    if n > 0 {
        lemma_raw_count_bounds(board, t, n - 1);
    }
}

/// A board without pawns of a color has zero pawn counts for it.
pub proof fn lemma_pawn_count_zero(board: Seq<Piece>, c: Color, f: int, n: int)
    requires
        forall|sq: int| 0 <= sq < n ==> #[trigger] board[sq] != pawn_of(c),
    ensures
        pawn_count_upto(board, c, f, n) == 0,
    decreases n,
{
    if n > 0 {
        lemma_pawn_count_zero(board, c, f, n - 1);
    }
}

/// A board whose pieces all fall outside hand slot `t` counts zero for it.
pub proof fn lemma_raw_count_zero(board: Seq<Piece>, t: int, n: int)
    requires
        forall|sq: int| 0 <= sq < n ==> raw_weight(#[trigger] board[sq], t) == 0,
    ensures
        raw_count_upto(board, t, n) == 0,
    decreases n,
{
    if n > 0 {
        lemma_raw_count_zero(board, t, n - 1);
    }
}

/// The color stored at index `ci` of a two-slot array.
pub open spec fn color_of_index(ci: int) -> Color {
    if ci == 0 {
        Color::White
    } else {
        Color::Black
    }
}

impl PosCore {
    /// Joint occupancy of both players.
    pub open spec fn occ(self) -> u32 {
        self.player_bb[0] | self.player_bb[1]
    }

    /// Bitboard of the king of color `c`.
    pub open spec fn king_bb(self, c: Color) -> u32 {
        self.piece_bb[PieceType::King.spec_get_piece(c).spec_index() as int]
    }

    /// Square of the king of color `c`, read as the lowest set bit.
    pub open spec fn king_sq(self, c: Color) -> int {
        vstd::std_specs::bits::u32_trailing_zeros(self.king_bb(c)) as int
    }
}

/// The array shapes of a snapshot: the board, hand, flag and bitboard
/// vectors have their fixed sizes.
pub open spec fn core_shape(c: PosCore) -> bool {
    &&& c.board.len() == 25
    &&& c.hand.len() == 10
    &&& c.pawn_flags.len() == 2
    &&& c.piece_bb.len() == 21
    &&& c.player_bb.len() == 2
}

/// Structural and semantic consistency of a snapshot: array shapes, the
/// bitboards derived from the board, pawn flags matching the pawns on each
/// file with at most one per file and color, piece conservation, and both
/// kings on the board.
pub open spec fn core_wf(c: PosCore) -> bool {
    &&& core_shape(c)
    &&& c.piece_bb[0] == 0
    &&& forall|p: int| 0 <= p < 21 ==> bb_fits(#[trigger] c.piece_bb[p])
    &&& bb_fits(c.player_bb[0])
    &&& bb_fits(c.player_bb[1])
    &&& forall|p: int, sq: u32|
        1 <= p < 21 && sq < 25 ==> (#[trigger] bb_has(c.piece_bb[p], sq) <==> c.board[
            sq as int].spec_index() == p)
    &&& forall|sq: u32|
        sq < 25 ==> (bb_has(c.player_bb[0], #[trigger] (sq as u32)) <==> c.board[
            sq as int].spec_get_color() == Color::White)
    &&& forall|sq: u32|
        sq < 25 ==> (bb_has(c.player_bb[1], #[trigger] (sq as u32)) <==> c.board[
            sq as int].spec_get_color() == Color::Black)
    &&& forall|ci: int| 0 <= ci < 2 ==> (#[trigger] c.pawn_flags[ci]) >> 5u32 == 0
    &&& forall|ci: int, f: u32|
        0 <= ci < 2 && f < 5 ==> (#[trigger] bb_has(c.pawn_flags[ci], f) <==> pawn_count(
            c.board,
            color_of_index(ci),
            f as int,
        ) > 0)
    &&& forall|ci: int, f: int|
        0 <= ci < 2 && 0 <= f < 5 ==> #[trigger] pawn_count(c.board, color_of_index(ci), f) <= 1
    &&& forall|t: int|
        0 <= t < 5 ==> c.hand[t] + c.hand[5 + t] + #[trigger] raw_count(c.board, t) <= 43
}

/// The adjacent-check accumulation: for the first `n` piece types, the enemy
/// pieces of that type standing where they give a single-step check to the
/// side to move's king on `ksq`.
pub open spec fn adj_check_upto(c: PosCore, ksq: int, n: int) -> u32
    decreases n,
{
    if n <= 0 {
        0u32
    } else {
        let stm = c.side_to_move;
        let op = stm.spec_get_op_color();
        let my_piece = Piece::spec_from_index((10 * stm.spec_index() + n) as usize);
        let op_piece = Piece::spec_from_index((10 * op.spec_index() + n) as usize);
        adj_check_upto(c, ksq, n - 1) | (adj_attack_bb(ksq, my_piece) & c.piece_bb[
            op_piece.spec_index() as int])
    }
}

/// Enemy pieces giving single-step check to the side to move.
pub open spec fn spec_adjacent_check(c: PosCore) -> u32 {
    if c.king_bb(c.side_to_move) == 0 {
        0u32
    } else {
        adj_check_upto(c, c.king_sq(c.side_to_move), 10)
    }
}

/// Enemy sliding pieces giving check to the side to move.
pub open spec fn spec_long_check(c: PosCore) -> u32 {
    if c.king_bb(c.side_to_move) == 0 {
        0u32
    } else {
        let stm = c.side_to_move;
        let op = stm.spec_get_op_color();
        let ksq = c.king_sq(stm);
        let bb = bishop_attack_bb(ksq, c.occ());
        let rb = rook_attack_bb(ksq, c.occ());
        (((bb & c.piece_bb[PieceType::Bishop.spec_get_piece(op).spec_index() as int]) | (bb
            & c.piece_bb[PieceType::BishopX.spec_get_piece(op).spec_index() as int])) | (rb
            & c.piece_bb[PieceType::Rook.spec_get_piece(op).spec_index() as int])) | (rb
            & c.piece_bb[PieceType::RookX.spec_get_piece(op).spec_index() as int])
    }
}

/// The consecutive-check counters after a move: the pair is (White, Black);
/// the count of the side that just moved grows while its checks continue and
/// resets otherwise, the other side's count is carried over.
pub open spec fn spec_next_sequent(c: PosCore, checked: bool, prev: (u16, u16)) -> (u16, u16) {
    let mover = c.side_to_move.spec_get_op_color();
    if mover == Color::White {
        (
            if checked {
                sat_inc(prev.0)
            } else {
                0u16
            },
            prev.1,
        )
    } else {
        (
            prev.0,
            if checked {
                sat_inc(prev.1)
            } else {
                0u16
            },
        )
    }
}

/// Increment that sticks at the counter's ceiling.
pub open spec fn spec_sat_inc(n: u16) -> u16 {
    if n == 0xFFFF {
        n
    } else {
        (n + 1) as u16
    }
}

#[verifier::when_used_as_spec(spec_sat_inc)]
pub fn sat_inc(n: u16) -> (r: u16)
    ensures
        r == spec_sat_inc(n),
{
    if n == 0xFFFF {
        n
    } else {
        n + 1
    }
}

/// The moves `do_move` accepts: the mover's piece really stands on the
/// source (or hand), the destination holds exactly the recorded capture, a
/// king is never captured, a promotion is only claimed for a promotable
/// piece, a pawn stays on its file, and a pawn drop respects the pawn-file
/// flag.
pub open spec fn spec_move_applicable(c: PosCore, m: Move) -> bool {
    let stm = c.side_to_move;
    &&& (stm == Color::White || stm == Color::Black)
    &&& m.piece != Piece::NoPiece
    &&& m.piece.spec_get_color() == stm
    &&& m.to < 25
    &&& m.capture_piece.spec_get_piece_type() != PieceType::King
    &&& if m.amount == 0 {
        &&& m.piece.spec_get_piece_type().spec_hand_index() < 5
        &&& c.hand[5 * stm.spec_index() + m.piece.spec_get_piece_type().spec_hand_index()] > 0
        &&& c.board[m.to as int] == Piece::NoPiece
        &&& m.capture_piece == Piece::NoPiece
        &&& (m.piece.spec_get_piece_type() == PieceType::Pawn ==> !bb_has(
            c.pawn_flags[stm.spec_index() as int],
            spec_col(m.to as int) as u32,
        ))
    } else {
        &&& m.from < 25
        &&& m.from != m.to
        &&& c.board[m.from as int] == m.piece
        &&& c.board[m.to as int] == m.capture_piece
        &&& (m.capture_piece == Piece::NoPiece || m.capture_piece.spec_get_color()
            == stm.spec_get_op_color())
        &&& (m.promotion ==> m.piece.spec_is_promotable())
        &&& (m.piece.spec_get_piece_type() == PieceType::Pawn ==> spec_col(m.to as int) == spec_col(
            m.from as int,
        ))
    }
}

/// The snapshot after playing `m`, mirroring the incremental updates of
/// `do_move` field by field.
pub open spec fn spec_do_core(c: PosCore, m: Move) -> PosCore {
    let stm = c.side_to_move;
    let si = stm.spec_index() as int;
    let oi = stm.spec_get_op_color().spec_index() as int;
    let bit_to = 1u32 << (m.to as u32);
    if m.amount == 0 {
        let hand_slot = 5 * si + m.piece.spec_get_piece_type().spec_hand_index();
        PosCore {
            side_to_move: stm.spec_get_op_color(),
            board: c.board.update(m.to as int, m.piece),
            hand: c.hand.update(hand_slot as int, (c.hand[hand_slot as int] - 1) as u8),
            pawn_flags: if m.piece.spec_get_piece_type() == PieceType::Pawn {
                c.pawn_flags.update(si, c.pawn_flags[si] | (1u32 << (spec_col(m.to as int) as u32)))
            } else {
                c.pawn_flags
            },
            piece_bb: c.piece_bb.update(
                m.piece.spec_index() as int,
                c.piece_bb[m.piece.spec_index() as int] | bit_to,
            ),
            player_bb: c.player_bb.update(si, c.player_bb[si] | bit_to),
        }
    } else {
        let bit_from = 1u32 << (m.from as u32);
        let cap = m.capture_piece;
        let hand1 = if cap != Piece::NoPiece {
            let slot = 5 * si + cap.spec_get_piece_type().spec_get_raw().spec_hand_index();
            c.hand.update(slot as int, (c.hand[slot as int] + 1) as u8)
        } else {
            c.hand
        };
        let pbb1 = if cap != Piece::NoPiece {
            c.piece_bb.update(cap.spec_index() as int, c.piece_bb[cap.spec_index() as int] ^ bit_to)
        } else {
            c.piece_bb
        };
        let plb1 = if cap != Piece::NoPiece {
            c.player_bb.update(oi, c.player_bb[oi] ^ bit_to)
        } else {
            c.player_bb
        };
        let flags1 = if cap.spec_get_piece_type() == PieceType::Pawn {
            c.pawn_flags.update(oi, c.pawn_flags[oi] ^ (1u32 << (spec_col(m.to as int) as u32)))
        } else {
            c.pawn_flags
        };
        let new_piece = if m.promotion {
            m.piece.spec_get_promoted()
        } else {
            m.piece
        };
        let flags2 = if m.promotion && m.piece.spec_get_piece_type() == PieceType::Pawn {
            flags1.update(si, flags1[si] ^ (1u32 << (spec_col(m.to as int) as u32)))
        } else {
            flags1
        };
        let board1 = c.board.update(m.to as int, new_piece).update(m.from as int, Piece::NoPiece);
        let pbb2 = pbb1.update(
            new_piece.spec_index() as int,
            pbb1[new_piece.spec_index() as int] | bit_to,
        );
        let pbb3 = pbb2.update(
            m.piece.spec_index() as int,
            pbb2[m.piece.spec_index() as int] ^ bit_from,
        );
        let plb2 = plb1.update(si, (plb1[si] | bit_to) ^ bit_from);
        PosCore {
            side_to_move: stm.spec_get_op_color(),
            board: board1,
            hand: hand1,
            pawn_flags: flags2,
            piece_bb: pbb3,
            player_bb: plb2,
        }
    }
}

/// The snapshot after taking `m` back, mirroring `undo_move`. The side to
/// move of `c` is the side that had been moved against.
pub open spec fn spec_undo_core(c: PosCore, m: Move) -> PosCore {
    let stm = c.side_to_move.spec_get_op_color();
    let si = stm.spec_index() as int;
    let oi = stm.spec_get_op_color().spec_index() as int;
    let bit_to = 1u32 << (m.to as u32);
    if m.amount == 0 {
        let hand_slot = 5 * si + m.piece.spec_get_piece_type().spec_hand_index();
        PosCore {
            side_to_move: stm,
            board: c.board.update(m.to as int, Piece::NoPiece),
            hand: c.hand.update(hand_slot as int, (c.hand[hand_slot as int] + 1) as u8),
            pawn_flags: if m.piece.spec_get_piece_type() == PieceType::Pawn {
                c.pawn_flags.update(si, c.pawn_flags[si] ^ (1u32 << (spec_col(m.to as int) as u32)))
            } else {
                c.pawn_flags
            },
            piece_bb: c.piece_bb.update(
                m.piece.spec_index() as int,
                c.piece_bb[m.piece.spec_index() as int] ^ bit_to,
            ),
            player_bb: c.player_bb.update(si, c.player_bb[si] ^ bit_to),
        }
    } else {
        let bit_from = 1u32 << (m.from as u32);
        let cap = m.capture_piece;
        let moved = c.board[m.to as int];
        let pbb1 = c.piece_bb.update(
            moved.spec_index() as int,
            c.piece_bb[moved.spec_index() as int] ^ bit_to,
        );
        let pbb2 = pbb1.update(
            m.piece.spec_index() as int,
            pbb1[m.piece.spec_index() as int] | bit_from,
        );
        let plb1 = c.player_bb.update(si, (c.player_bb[si] ^ bit_to) | bit_from);
        let board1 = c.board.update(m.to as int, cap).update(m.from as int, m.piece);
        let flags1 = if m.piece.spec_get_piece_type() == PieceType::Pawn && m.promotion {
            c.pawn_flags.update(si, c.pawn_flags[si] | (1u32 << (spec_col(m.to as int) as u32)))
        } else {
            c.pawn_flags
        };
        let hand1 = if cap != Piece::NoPiece {
            let slot = 5 * si + cap.spec_get_piece_type().spec_get_raw().spec_hand_index();
            c.hand.update(slot as int, (c.hand[slot as int] - 1) as u8)
        } else {
            c.hand
        };
        let pbb3 = if cap != Piece::NoPiece {
            pbb2.update(cap.spec_index() as int, pbb2[cap.spec_index() as int] | bit_to)
        } else {
            pbb2
        };
        let plb2 = if cap != Piece::NoPiece {
            plb1.update(oi, plb1[oi] | bit_to)
        } else {
            plb1
        };
        let flags2 = if cap.spec_get_piece_type() == PieceType::Pawn {
            flags1.update(oi, flags1[oi] | (1u32 << (spec_col(m.to as int) as u32)))
        } else {
            flags1
        };
        PosCore {
            side_to_move: stm,
            board: board1,
            hand: hand1,
            pawn_flags: flags2,
            piece_bb: pbb3,
            player_bb: plb2,
        }
    }
}

/// The full record: the current snapshot's fields, the history arrays, and
/// the ghost sequence of past snapshots that ties them together.
pub struct PosState {
    pub core: PosCore,
    pub ply: int,
    pub kif: Seq<Move>,
    pub hash: Seq<u64>,
    pub adjacent_check_bb: Seq<u32>,
    pub long_check_bb: Seq<u32>,
    pub sequent_check_count: Seq<(u16, u16)>,
    pub cores: Seq<PosCore>,
    pub zobrist: Seq<Seq<u64>>,
}

/// Well-formedness of the full record: every recorded ply carries a
/// consistent snapshot, its exact Zobrist hash and check bitboards, bounded
/// consecutive-check counters, and each snapshot follows from the previous
/// one by the recorded move.
pub open spec fn pos_wf(v: PosState) -> bool {
    &&& 0 <= v.ply <= 512
    &&& v.kif.len() == v.ply
    &&& v.hash.len() == v.ply + 1
    &&& v.adjacent_check_bb.len() == v.ply + 1
    &&& v.long_check_bb.len() == v.ply + 1
    &&& v.sequent_check_count.len() == v.ply + 1
    &&& v.cores.len() == v.ply + 1
    &&& v.cores[v.ply] == v.core
    &&& table_wf(v.zobrist)
    &&& forall|i: int| 0 <= i <= v.ply ==> core_wf(#[trigger] v.cores[i])
    &&& forall|i: int|
        0 <= i <= v.ply ==> v.hash[i] == hash_of(
            (#[trigger] v.cores[i]).board,
            v.cores[i].side_to_move,
            v.zobrist,
        )
    &&& forall|i: int|
        0 <= i <= v.ply ==> v.adjacent_check_bb[i] == spec_adjacent_check(#[trigger] v.cores[i])
    &&& forall|i: int|
        0 <= i <= v.ply ==> v.long_check_bb[i] == spec_long_check(#[trigger] v.cores[i])
    &&& forall|i: int|
        0 <= i < v.ply ==> spec_move_applicable(#[trigger] v.cores[i], v.kif[i])
    &&& forall|i: int|
        0 <= i < v.ply ==> #[trigger] v.cores[i + 1] == spec_do_core(v.cores[i], v.kif[i])
}

/// The record after playing `m`: the new snapshot with its hash, check
/// bitboards and consecutive-check counters appended to the history.
pub open spec fn spec_do_move(v: PosState, m: Move) -> PosState {
    let c2 = spec_do_core(v.core, m);
    let checked = spec_adjacent_check(c2) != 0 || spec_long_check(c2) != 0;
    PosState {
        core: c2,
        ply: v.ply + 1,
        kif: v.kif.push(m),
        hash: v.hash.push(hash_of(c2.board, c2.side_to_move, v.zobrist)),
        adjacent_check_bb: v.adjacent_check_bb.push(spec_adjacent_check(c2)),
        long_check_bb: v.long_check_bb.push(spec_long_check(c2)),
        sequent_check_count: v.sequent_check_count.push(
            spec_next_sequent(c2, checked, v.sequent_check_count[v.ply]),
        ),
        cores: v.cores.push(c2),
        zobrist: v.zobrist,
    }
}

/// The record after taking the last move back: every history array loses its
/// last entry and the snapshot is rebuilt from the recorded move.
pub open spec fn spec_undo_move(v: PosState) -> PosState {
    let m = v.kif[v.ply - 1];
    PosState {
        core: spec_undo_core(v.core, m),
        ply: v.ply - 1,
        kif: v.kif.drop_last(),
        hash: v.hash.drop_last(),
        adjacent_check_bb: v.adjacent_check_bb.drop_last(),
        long_check_bb: v.long_check_bb.drop_last(),
        sequent_check_count: v.sequent_check_count.drop_last(),
        cores: v.cores.drop_last(),
        zobrist: v.zobrist,
    }
}

} // verus!
