//! Legal move generation: single-step and sliding board moves, drops with
//! the two-pawn and dead-piece rules, and the king-safety legality filter.
//! The emitted list is proved sound (every move satisfies the legality
//! predicates), complete (every move satisfying them is emitted) and free
//! of duplicates.

use vstd::prelude::*;

use crate::bitboard::adj_attack_bb;
use crate::bitboard::adjacent_attack;
use crate::bitboard::bb_count;
use crate::bitboard::bb_fits;
use crate::bitboard::bb_has;
use crate::bitboard::bishop_attack;
use crate::bitboard::bishop_attack_bb;
use crate::bitboard::get_counts;
use crate::bitboard::get_square;
use crate::bitboard::lemma_adj_attack_char;
use crate::bitboard::lemma_bb_and_subset;
use crate::bitboard::lemma_bb_andnot;
use crate::bitboard::lemma_bb_clear;
use crate::bitboard::lemma_bb_clear_subset;
use crate::bitboard::lemma_bb_or;
use crate::bitboard::lemma_bb_subset_fits;
use crate::bitboard::lemma_bb_subset_has;
use crate::bitboard::lemma_bb_zero;
use crate::bitboard::lemma_ray_char;
use crate::bitboard::lemma_step_rowcol;
use crate::bitboard::on_ray;
use crate::bitboard::ray_bb;
use crate::bitboard::rook_attack;
use crate::bitboard::rook_attack_bb;
use crate::bitboard::spec_col;
use crate::bitboard::Bitboard;
use crate::moves::get_relation;
use crate::moves::spec_relation;
use crate::moves::Move;
use crate::moves::lemma_relation_table;
use crate::position::Position;
use crate::state::adj_check_upto;
use crate::state::core_wf;
use crate::state::spec_adjacent_check;
use crate::state::spec_long_check;
use crate::state::spec_move_applicable;
use crate::state::PosCore;
use crate::types::Color;
use crate::types::Direction;
use crate::types::Piece;
use crate::types::PieceType;
use crate::types::MAX_PLY;
use crate::types::SQUARE_NB;

verus! {

/// The promotion zone rule: the move starts or ends on the far rank of the
/// moving side.
pub open spec fn in_promo_zone(stm: Color, from: int, to: int) -> bool {
    if stm == Color::White {
        to < 5 || from < 5
    } else {
        to >= 20 || from >= 20
    }
}

/// The destination is reachable: a single step of the piece's template, or a
/// slide of a bishop or rook over the current occupancy.
pub open spec fn spec_reachable(c: PosCore, m: Move) -> bool {
    let pt = m.piece.spec_get_piece_type();
    ||| bb_has(adj_attack_bb(m.from as int, m.piece), m.to as u32)
    ||| ((pt == PieceType::Bishop || pt == PieceType::BishopX) && bb_has(
        bishop_attack_bb(m.from as int, c.occ()),
        m.to as u32,
    ))
    ||| ((pt == PieceType::Rook || pt == PieceType::RookX) && bb_has(
        rook_attack_bb(m.from as int, c.occ()),
        m.to as u32,
    ))
}

/// A pseudo-legal board move: the mover's piece stands on the source, the
/// destination is reachable and not occupied by a friend, the recorded
/// capture is what stands there, direction and distance agree with the
/// square relation, promotion follows the zone rule, and a pawn never stays
/// on its last rank unpromoted.
pub open spec fn spec_board_sound(c: PosCore, m: Move) -> bool {
    let stm = c.side_to_move;
    &&& 1 <= m.amount
    &&& m.from < 25
    &&& m.to < 25
    &&& c.board[m.from as int] == m.piece
    &&& m.piece.spec_get_color() == stm
    &&& m.capture_piece == c.board[m.to as int]
    &&& !bb_has(c.player_bb[stm.spec_index() as int], m.to as u32)
    &&& m.direction == spec_relation(m.from as int, m.to as int).0
    &&& m.amount == spec_relation(m.from as int, m.to as int).1
    &&& spec_reachable(c, m)
    &&& (m.promotion ==> m.piece.spec_is_promotable() && in_promo_zone(
        stm,
        m.from as int,
        m.to as int,
    ))
    &&& (!m.promotion && m.piece == Piece::WPawn ==> m.to >= 5)
    &&& (!m.promotion && m.piece == Piece::BPawn ==> m.to < 20)
    &&& (m.piece.spec_get_piece_type() == PieceType::Pawn ==> spec_col(m.to as int) == spec_col(
        m.from as int,
    ))
}

/// A pseudo-legal drop: the piece comes from a non-empty hand slot of the
/// side to move onto an empty square; a pawn neither doubles on a file nor
/// lands on its last rank.
pub open spec fn spec_drop_sound(c: PosCore, m: Move) -> bool {
    let stm = c.side_to_move;
    &&& m == Move::spec_hand_move(m.piece, m.to)
    &&& m.to < 25
    &&& m.piece.spec_get_color() == stm
    &&& m.piece.spec_get_piece_type().spec_hand_index() < 5
    &&& c.hand[5 * stm.spec_index() + m.piece.spec_get_piece_type().spec_hand_index()] > 0
    &&& c.board[m.to as int] == Piece::NoPiece
    &&& (m.piece.spec_get_piece_type() == PieceType::Pawn ==> {
        &&& !bb_has(c.pawn_flags[stm.spec_index() as int], spec_col(m.to as int) as u32)
        &&& (stm == Color::White ==> m.to >= 5)
        &&& (stm == Color::Black ==> m.to < 20)
    })
}

/// The conditions checked while generating, before the filter: no drops
/// while in single-step check, and under check a non-king move must capture
/// the single checker; under double check only the king moves.
pub open spec fn spec_move_gen_ok(c: PosCore, m: Move) -> bool {
    if m.amount == 0 {
        spec_adjacent_check(c) == 0
    } else if m.piece.spec_get_piece_type() == PieceType::King {
        true
    } else {
        &&& bb_count(spec_adjacent_check(c) | spec_long_check(c)) <= 1
        &&& (spec_adjacent_check(c) != 0 ==> bb_has(spec_adjacent_check(c), m.to as u32))
    }
}

/// The king-safety filter: after placing the move on the occupancy, no
/// enemy slider reaches the king's square, a moving king lands on a square
/// no enemy attacks, and a non-king move under single-step check captures
/// the checker.
pub open spec fn spec_move_filter_ok(c: PosCore, m: Move) -> bool {
    let stm = c.side_to_move;
    let op = stm.spec_get_op_color();
    let ksq = c.king_sq(stm);
    let opb = c.piece_bb[PieceType::Bishop.spec_get_piece(op).spec_index() as int];
    let opbx = c.piece_bb[PieceType::BishopX.spec_get_piece(op).spec_index() as int];
    let opr = c.piece_bb[PieceType::Rook.spec_get_piece(op).spec_index() as int];
    let oprx = c.piece_bb[PieceType::RookX.spec_get_piece(op).spec_index() as int];
    let bit_to = 1u32 << (m.to as u32);
    if m.amount == 0 {
        let occ2 = c.occ() | bit_to;
        &&& bishop_attack_bb(ksq, occ2) & opb == 0
        &&& bishop_attack_bb(ksq, occ2) & opbx == 0
        &&& rook_attack_bb(ksq, occ2) & opr == 0
        &&& rook_attack_bb(ksq, occ2) & oprx == 0
    } else {
        let occ2 = (c.occ() | bit_to) ^ (1u32 << (m.from as u32));
        if m.piece.spec_get_piece_type() == PieceType::King {
            &&& bishop_attack_bb(m.to as int, occ2) & opb == 0
            &&& bishop_attack_bb(m.to as int, occ2) & opbx == 0
            &&& rook_attack_bb(m.to as int, occ2) & opr == 0
            &&& rook_attack_bb(m.to as int, occ2) & oprx == 0
            &&& adj_check_upto(c, m.to as int, 10) == 0
        } else {
            &&& bb_count(spec_adjacent_check(c)) <= 1
            &&& (bb_count(spec_adjacent_check(c)) == 1 ==> bb_has(
                spec_adjacent_check(c),
                m.to as u32,
            ))
            &&& (bishop_attack_bb(ksq, occ2) & !bit_to) & opb == 0
            &&& (bishop_attack_bb(ksq, occ2) & !bit_to) & opbx == 0
            &&& (rook_attack_bb(ksq, occ2) & !bit_to) & opr == 0
            &&& (rook_attack_bb(ksq, occ2) & !bit_to) & oprx == 0
        }
    }
}

/// A legal move passes both the generation-time rules and the filter.
pub open spec fn spec_move_legal(c: PosCore, m: Move) -> bool {
    spec_move_gen_ok(c, m) && spec_move_filter_ok(c, m)
}

/// The moves the generator emits under the given switches, before the
/// filter: the sound board moves and drops of the respective kind, subject
/// to the generation-time check rules in legal mode.
pub open spec fn emitted_ok(
    c: PosCore,
    m: Move,
    is_board: bool,
    is_hand: bool,
    allow_illegal: bool,
) -> bool {
    &&& (m.amount != 0 ==> is_board && spec_board_sound(c, m))
    &&& (m.amount == 0 ==> is_hand && spec_drop_sound(c, m))
    &&& (!allow_illegal ==> spec_move_gen_ok(c, m))
}

/// A pseudo-legal move that does not capture a king can be played.
pub proof fn lemma_sound_applicable(c: PosCore, m: Move)
    requires
        core_wf(c),
        c.side_to_move == Color::White || c.side_to_move == Color::Black,
        m.amount != 0 ==> spec_board_sound(c, m),
        m.amount == 0 ==> spec_drop_sound(c, m),
        m.capture_piece.spec_get_piece_type() != PieceType::King,
    ensures
        spec_move_applicable(c, m),
{
    let stm = c.side_to_move;
    if m.amount != 0 {
        assert(m.piece != Piece::NoPiece);
        if m.from == m.to {
            assert(spec_relation(m.from as int, m.to as int).1 == 0);
        }
        if stm == Color::White {
            assert(!bb_has(c.player_bb[0], m.to as u32));
            assert(c.board[m.to as int].spec_get_color() != Color::White);
        } else {
            assert(!bb_has(c.player_bb[1], m.to as u32));
            assert(c.board[m.to as int].spec_get_color() != Color::Black);
        }
    }
}

/// An element stays in a sequence that something else is pushed onto.
proof fn lemma_contains_push(s: Seq<Move>, x: Move, m: Move)
    requires
        s.contains(m),
    ensures
        s.push(x).contains(m),
{
    let j = choose|j: int| 0 <= j < s.len() && s[j] == m;
    assert(s.push(x)[j] == m);
}

/// Pushing a new element keeps a sequence free of duplicates.
proof fn lemma_push_no_duplicates(s: Seq<Move>, x: Move)
    requires
        s.no_duplicates(),
        !s.contains(x),
    ensures
        s.push(x).no_duplicates(),
{
    let s2 = s.push(x);
    assert forall|i: int, j: int|
        0 <= i < s2.len() && 0 <= j < s2.len() && i != j implies s2[i] != s2[j] by {
        if i < s.len() && j < s.len() {
        } else if i == s.len() {
            assert(s2[j] == s[j]);
            assert(!s.contains(x) ==> s[j] != x) by {
                if s[j] == x {
                    assert(s.contains(x));
                }
            }
        } else {
            assert(s2[i] == s[i]);
            if s[i] == x {
                assert(s.contains(x));
            }
        }
    }
}

/// What removing one entry by swapping in the last does to membership and
/// duplicate-freedom.
proof fn lemma_swap_remove_props(s: Seq<Move>, i: int)
    requires
        0 <= i < s.len(),
    ensures
        forall|m: Move|
            #[trigger] s.update(i, s.last()).drop_last().contains(m) ==> s.contains(m),
        s.no_duplicates() ==> s.update(i, s.last()).drop_last().no_duplicates(),
        forall|m: Move|
            s.contains(m) && m != s[i] ==> #[trigger] s.update(i, s.last()).drop_last().contains(
                m,
            ),
{
    let s2 = s.update(i, s.last()).drop_last();
    assert(s2.len() == s.len() - 1);
    assert forall|k: int| 0 <= k < s2.len() implies s2[k] == (if k == i {
        s[s.len() - 1]
    } else {
        s[k]
    }) by {}
    assert forall|m: Move| #[trigger] s2.contains(m) implies s.contains(m) by {
        let k = choose|k: int| 0 <= k < s2.len() && s2[k] == m;
        if k == i {
            assert(s[s.len() - 1] == m);
        } else {
            assert(s[k] == m);
        }
    }
    if s.no_duplicates() {
        assert forall|a: int, b: int|
            0 <= a < s2.len() && 0 <= b < s2.len() && a != b implies s2[a] != s2[b] by {
            let a2: int = if a == i {
                s.len() - 1
            } else {
                a
            };
            let b2: int = if b == i {
                s.len() - 1
            } else {
                b
            };
            assert(a2 != b2);
            assert(s2[a] == s[a2] && s2[b] == s[b2]);
        }
    }
    assert forall|m: Move| s.contains(m) && m != s[i] implies #[trigger] s2.contains(m) by {
        let j = choose|j: int| 0 <= j < s.len() && s[j] == m;
        assert(j != i);
        if j == s.len() - 1 {
            if i < s.len() - 1 {
                assert(s2[i] == m);
            }
        } else {
            assert(s2[j] == m);
        }
    }
}

/// The one piece of a color whose type sits in a given hand slot.
proof fn lemma_hand_piece_unique(p: Piece, t: int, stm: Color)
    requires
        stm == Color::White || stm == Color::Black,
        p.spec_get_color() == stm,
        p.spec_get_piece_type().spec_hand_index() == t,
        0 <= t < 5,
    ensures
        p == PieceType::spec_from_hand_index(t as usize).spec_get_piece(stm),
{
}

/// A square in a slider's single-step template is never on one of its
/// sliding rays: the template and the rays use disjoint directions.
proof fn lemma_adj_slider_disjoint(sq: int, p: Piece, occ: u32, t: u32)
    requires
        0 <= sq < 25,
        t < 25,
        bb_has(adj_attack_bb(sq, p), t),
    ensures
        (p.spec_get_piece_type() == PieceType::Bishop || p.spec_get_piece_type()
            == PieceType::BishopX) ==> !bb_has(bishop_attack_bb(sq, occ), t),
        (p.spec_get_piece_type() == PieceType::Rook || p.spec_get_piece_type()
            == PieceType::RookX) ==> !bb_has(rook_attack_bb(sq, occ), t),
{
    lemma_adj_attack_char(sq, p, t);
    let d0 = choose|d: Direction|
        p.spec_has_dir(d) && crate::bitboard::step_in_bounds(sq, d) && crate::bitboard::step_sq(
            sq,
            d,
        ) == t;
    lemma_step_rowcol(sq, d0);
    assert(1 * d0.spec_dy() == d0.spec_dy() && 1 * d0.spec_dx() == d0.spec_dx());
    lemma_relation_table(sq, t as int, d0, 1);
    let pt = p.spec_get_piece_type();
    if (pt == PieceType::Bishop || pt == PieceType::BishopX) && bb_has(
        bishop_attack_bb(sq, occ),
        t,
    ) {
        lemma_slider_relation(sq, occ, t, pt);
        assert(false);
    }
    if (pt == PieceType::Rook || pt == PieceType::RookX) && bb_has(rook_attack_bb(sq, occ), t) {
        lemma_slider_relation(sq, occ, t, pt);
        assert(false);
    }
}

/// A bit of a slider's attack set lies on one of its rays: the relation's
/// direction is diagonal for a bishop and orthogonal for a rook, with a
/// distance of one to four.
proof fn lemma_slider_relation(sq: int, occ: u32, t: u32, pt: PieceType)
    requires
        0 <= sq < 25,
        t < 32,
        pt == PieceType::Bishop || pt == PieceType::BishopX || pt == PieceType::Rook || pt
            == PieceType::RookX,
        (pt == PieceType::Bishop || pt == PieceType::BishopX) ==> bb_has(
            bishop_attack_bb(sq, occ),
            t,
        ),
        (pt == PieceType::Rook || pt == PieceType::RookX) ==> bb_has(rook_attack_bb(sq, occ), t),
    ensures
        1 <= spec_relation(sq, t as int).1 <= 4,
        t < 25,
        (pt == PieceType::Bishop || pt == PieceType::BishopX) ==> (spec_relation(sq, t as int).0
            == Direction::NE || spec_relation(sq, t as int).0 == Direction::SE || spec_relation(
            sq,
            t as int,
        ).0 == Direction::SW || spec_relation(sq, t as int).0 == Direction::NW),
        (pt == PieceType::Rook || pt == PieceType::RookX) ==> (spec_relation(sq, t as int).0
            == Direction::N || spec_relation(sq, t as int).0 == Direction::E || spec_relation(
            sq,
            t as int,
        ).0 == Direction::S || spec_relation(sq, t as int).0 == Direction::W),
{
    let dirs = if pt == PieceType::Bishop || pt == PieceType::BishopX {
        (Direction::NE, Direction::SE, Direction::SW, Direction::NW)
    } else {
        (Direction::N, Direction::E, Direction::S, Direction::W)
    };
    let r0 = ray_bb(sq, dirs.0, occ, 4);
    let r1 = ray_bb(sq, dirs.1, occ, 4);
    let r2 = ray_bb(sq, dirs.2, occ, 4);
    let r3 = ray_bb(sq, dirs.3, occ, 4);
    lemma_bb_or(r0, r1, t);
    lemma_bb_or(r0 | r1, r2, t);
    lemma_bb_or(r0 | r1 | r2, r3, t);
    if bb_has(r0, t) {
        lemma_ray_char(sq, dirs.0, occ, 4, t);
        let k = choose|k: int| 1 <= k <= 4 && #[trigger] on_ray(sq, dirs.0, t as int, k) && t < 25;
        lemma_relation_table(sq, t as int, dirs.0, k);
    } else if bb_has(r1, t) {
        lemma_ray_char(sq, dirs.1, occ, 4, t);
        let k = choose|k: int| 1 <= k <= 4 && #[trigger] on_ray(sq, dirs.1, t as int, k) && t < 25;
        lemma_relation_table(sq, t as int, dirs.1, k);
    } else if bb_has(r2, t) {
        lemma_ray_char(sq, dirs.2, occ, 4, t);
        let k = choose|k: int| 1 <= k <= 4 && #[trigger] on_ray(sq, dirs.2, t as int, k) && t < 25;
        lemma_relation_table(sq, t as int, dirs.2, k);
    } else {
        lemma_ray_char(sq, dirs.3, occ, 4, t);
        let k = choose|k: int| 1 <= k <= 4 && #[trigger] on_ray(sq, dirs.3, t as int, k) && t < 25;
        lemma_relation_table(sq, t as int, dirs.3, k);
    }
}

impl Position {
    /// Enemy pieces attacking `square` by a single step, as a union over the
    /// ten piece types.
    fn adj_attackers_at(&self, square: usize) -> (r: Bitboard)
        requires
            core_wf(self@.core),
            self.side_to_move != Color::NoColor,
            square < 25,
        ensures
            r == adj_check_upto(self@.core, square as int, 10),
    {
        let si = self.side_to_move.index();
        let oi = self.side_to_move.get_op_color().index();
        let mut acc: u32 = 0;
        let mut n: usize = 1;
        while n <= 10
            invariant
                1 <= n <= 11,
                core_wf(self@.core),
                self.side_to_move != Color::NoColor,
                si == self.side_to_move.spec_index(),
                oi == self.side_to_move.spec_get_op_color().spec_index(),
                square < 25,
                acc == adj_check_upto(self@.core, square as int, n - 1),
            decreases 11 - n,
        {
            let myp = Piece::from_index(10 * si + n);
            let opp = Piece::from_index(10 * oi + n);
            assert(1 <= opp.spec_index() < 21);
            acc = acc | (adjacent_attack(square, myp) & self.piece_bb[opp.index()]);
            n = n + 1;
        }
        acc
    }

    /// The exact legality filter for one pseudo-legal move.
    fn move_is_legal(&self, m: &Move, king_square: usize) -> (r: bool)
        requires
            self.wf(),
            self.side_to_move != Color::NoColor,
            m.to < 25,
            m.amount != 0 ==> m.from < 25,
            king_square == self@.core.king_sq(self@.core.side_to_move),
            king_square < 25,
        ensures
            r == spec_move_filter_ok(self@.core, *m),
    {
        let op = self.side_to_move.get_op_color();
        let opb = self.piece_bb[PieceType::Bishop.get_piece(op).index()];
        let opbx = self.piece_bb[PieceType::BishopX.get_piece(op).index()];
        let opr = self.piece_bb[PieceType::Rook.get_piece(op).index()];
        let oprx = self.piece_bb[PieceType::RookX.get_piece(op).index()];
        let occ = self.player_bb[0] | self.player_bb[1];
        let bit_to: u32 = 1u32 << (m.to as u32);
        if m.amount == 0 {
            let occ2 = occ | bit_to;
            let b = bishop_attack(king_square, occ2);
            if b & opb != 0 || b & opbx != 0 {
                return false;
            }
            let rr = rook_attack(king_square, occ2);
            if rr & opr != 0 || rr & oprx != 0 {
                return false;
            }
            true
        } else {
            let occ2 = (occ | bit_to) ^ (1u32 << (m.from as u32));
            if m.piece.get_piece_type() == PieceType::King {
                let b = bishop_attack(m.to, occ2);
                if b & opb != 0 || b & opbx != 0 {
                    return false;
                }
                let rr = rook_attack(m.to, occ2);
                if rr & opr != 0 || rr & oprx != 0 {
                    return false;
                }
                self.adj_attackers_at(m.to) == 0
            } else {
                let adjc = self.adjacent_check_bb[self.ply];
                let cnt = get_counts(adjc);
                if cnt > 1 {
                    return false;
                }
                if cnt == 1 && adjc & bit_to == 0 {
                    return false;
                }
                let b = bishop_attack(king_square, occ2) & !bit_to;
                if b & opb != 0 || b & opbx != 0 {
                    return false;
                }
                let rr = rook_attack(king_square, occ2) & !bit_to;
                if rr & opr != 0 || rr & oprx != 0 {
                    return false;
                }
                true
            }
        }
    }

    /// All legal moves of the side to move: exactly the moves that are
    /// pseudo-legal and pass the check rules and the king-safety filter,
    /// each once.
    pub fn generate_moves(&self) -> (r: Vec<Move>)
        requires
            self.wf(),
            self.side_to_move != Color::NoColor,
            self@.core.king_bb(self@.core.side_to_move) != 0,
        ensures
            r@.no_duplicates(),
            self@.ply < 512 ==> forall|m: Move|
                #[trigger] r@.contains(m) <==> (emitted_ok(self@.core, m, true, true, false)
                    && spec_move_filter_ok(self@.core, m)),
            forall|i: int|
                0 <= i < r@.len() ==> {
                    let m = #[trigger] r@[i];
                    &&& (m.amount != 0 ==> spec_board_sound(self@.core, m))
                    &&& (m.amount == 0 ==> spec_drop_sound(self@.core, m))
                    &&& spec_move_legal(self@.core, m)
                    &&& (m.capture_piece.spec_get_piece_type() != PieceType::King
                        ==> spec_move_applicable(self@.core, m))
                },
            self@.ply >= 512 ==> r@.len() == 0,
    {
        let r = self.generate_moves_with_option(true, true, false);
        proof {
            assert forall|i: int|
                0 <= i < r@.len() && r@[i].capture_piece.spec_get_piece_type()
                    != PieceType::King implies spec_move_applicable(
                self@.core,
                #[trigger] r@[i],
            ) by {
                lemma_sound_applicable(self@.core, r@[i]);
            }
            if self@.ply < 512 {
                assert forall|m: Move| #[trigger] r@.contains(m) implies (emitted_ok(
                    self@.core,
                    m,
                    true,
                    true,
                    false,
                ) && spec_move_filter_ok(self@.core, m)) by {
                    let i = choose|i: int| 0 <= i < r@.len() && r@[i] == m;
                }
            }
        }
        r
    }

    /// Pseudo-legal move generation with the pieces' moves, the drops and
    /// the legality filter individually switchable. The result holds every
    /// admissible move exactly once.
    #[verifier::rlimit(100)]
    pub fn generate_moves_with_option(
        &self,
        is_board: bool,
        is_hand: bool,
        allow_illegal: bool,
    ) -> (r: Vec<Move>)
        requires
            self.wf(),
            self.side_to_move != Color::NoColor,
            self@.core.king_bb(self@.core.side_to_move) != 0,
        ensures
            r@.no_duplicates(),
            self@.ply < 512 ==> forall|m: Move|
                #[trigger] emitted_ok(self@.core, m, is_board, is_hand, allow_illegal) && (
                !allow_illegal ==> spec_move_filter_ok(self@.core, m)) ==> r@.contains(m),
            forall|i: int|
                0 <= i < r@.len() ==> {
                    let m = #[trigger] r@[i];
                    &&& emitted_ok(self@.core, m, is_board, is_hand, allow_illegal)
                    &&& (!allow_illegal ==> spec_move_filter_ok(self@.core, m))
                },
            self@.ply >= 512 ==> r@.len() == 0,
    {
        broadcast use vstd::seq_lib::lemma_seq_contains_after_push;

        let ghost c = self@.core;
        let mut moves: Vec<Move> = Vec::new();
        if self.ply >= MAX_PLY {
            return moves;
        }
        let si = self.side_to_move.index();
        let own_bb = self.player_bb[si];
        let occ = self.player_bb[0] | self.player_bb[1];
        let adjc = self.adjacent_check_bb[self.ply];
        let longc = self.long_check_bb[self.ply];
        assert(adjc == spec_adjacent_check(c) && longc == spec_long_check(c));
        let double_check = get_counts(adjc | longc) > 1;
        if is_board {
            let mut player_bb = own_bb;
            proof {
                lemma_bb_and_subset(own_bb, own_bb);
                assert forall|m: Move|
                    #[trigger] emitted_ok(c, m, is_board, is_hand, allow_illegal) && m.amount != 0
                        && !bb_has(player_bb, m.from as u32) implies moves@.contains(m) by {
                    if self.side_to_move == Color::White {
                        assert(bb_has(c.player_bb[0], m.from as u32));
                    } else {
                        assert(bb_has(c.player_bb[1], m.from as u32));
                    }
                }
            }
            while player_bb != 0
                invariant
                    is_board,
                    self.wf(),
                    self.side_to_move != Color::NoColor,
                    c == self@.core,
                    si == self.side_to_move.spec_index(),
                    own_bb == c.player_bb[si as int],
                    occ == c.occ(),
                    adjc == spec_adjacent_check(c),
                    longc == spec_long_check(c),
                    double_check == (bb_count(adjc | longc) > 1),
                    player_bb & !own_bb == 0,
                    bb_fits(player_bb),
                    moves@.no_duplicates(),
                    forall|k: int|
                        0 <= k < moves@.len() ==> emitted_ok(
                            c,
                            #[trigger] moves@[k],
                            is_board,
                            is_hand,
                            allow_illegal,
                        ),
                    forall|k: int|
                        0 <= k < moves@.len() ==> (#[trigger] moves@[k]).amount != 0
                            && moves@[k].from < 25 && !bb_has(player_bb, moves@[k].from as u32),
                    forall|m: Move|
                        #[trigger] emitted_ok(c, m, is_board, is_hand, allow_illegal) && m.amount
                            != 0 && !bb_has(player_bb, m.from as u32) ==> moves@.contains(m),
                decreases player_bb,
            {
                broadcast use vstd::seq_lib::lemma_seq_contains_after_push;

                proof {
                    lemma_bb_subset_fits(player_bb, own_bb);
                }
                let i = get_square(player_bb);
                let ghost pre_bb = player_bb;
                let ghost n0 = moves@.len();
                proof {
                    lemma_bb_subset_has(player_bb, own_bb, i as u32);
                    lemma_bb_clear(player_bb, i as u32);
                    lemma_bb_clear_subset(player_bb, own_bb, i as u32);
                    lemma_bb_and_subset(player_bb, player_bb);
                    lemma_bb_clear_subset(player_bb, player_bb, i as u32);
                    lemma_bb_subset_fits(player_bb ^ (1u32 << (i as u32)), player_bb);
                }
                player_bb = player_bb ^ (1u32 << (i as u32));
                proof {
                    assert forall|k: int| 0 <= k < n0 implies (#[trigger] moves@[k]).from != i by {
                        assert(!bb_has(pre_bb, moves@[k].from as u32));
                    }
                }
                let piece = self.board[i];
                proof {
                    if self.side_to_move == Color::White {
                        assert(bb_has(c.player_bb[0], i as u32));
                    } else {
                        assert(bb_has(c.player_bb[1], i as u32));
                    }
                }
                assert(piece.spec_get_color() == c.side_to_move);
                assert(piece != Piece::NoPiece);
                if !allow_illegal && double_check && piece.get_piece_type() != PieceType::King {
                    proof {
                        assert forall|m: Move|
                            #[trigger] emitted_ok(c, m, is_board, is_hand, allow_illegal)
                                && m.amount != 0 && !bb_has(
                                player_bb,
                                m.from as u32,
                            ) implies moves@.contains(m) by {
                            if m.from == i {
                                assert(m.piece == piece);
                                assert(!spec_move_gen_ok(c, m));
                            }
                        }
                    }
                    continue ;
                }
                // single-step moves
                let atk = adjacent_attack(i, piece);
                let mut move_tos = atk & !own_bb;
                proof {
                    lemma_bb_and_subset(atk, !own_bb);
                    lemma_bb_subset_fits(move_tos, atk);
                    lemma_bb_and_subset(move_tos, move_tos);
                }
                while move_tos != 0
                    invariant
                        is_board,
                        self.wf(),
                        self.side_to_move != Color::NoColor,
                        c == self@.core,
                        si == self.side_to_move.spec_index(),
                        own_bb == c.player_bb[si as int],
                        occ == c.occ(),
                        adjc == spec_adjacent_check(c),
                        longc == spec_long_check(c),
                        double_check == (bb_count(adjc | longc) > 1),
                        i < 25,
                        piece == c.board[i as int],
                        piece.spec_get_color() == c.side_to_move,
                        atk == adj_attack_bb(i as int, piece),
                        move_tos & !(atk & !own_bb) == 0,
                        bb_fits(move_tos),
                        !allow_illegal && double_check ==> piece.spec_get_piece_type()
                            == PieceType::King,
                        moves@.no_duplicates(),
                        n0 <= moves@.len(),
                        forall|k: int|
                            0 <= k < moves@.len() ==> emitted_ok(
                                c,
                                #[trigger] moves@[k],
                                is_board,
                                is_hand,
                                allow_illegal,
                            ),
                        forall|k: int|
                            0 <= k < n0 ==> (#[trigger] moves@[k]).amount != 0 && moves@[k].from
                                != i && moves@[k].from < 25 && !bb_has(
                                player_bb,
                                moves@[k].from as u32,
                            ),
                        forall|k: int|
                            n0 <= k < moves@.len() ==> (#[trigger] moves@[k]).amount != 0
                                && moves@[k].from == i && bb_has(
                                atk & !own_bb,
                                moves@[k].to as u32,
                            ) && !bb_has(move_tos, moves@[k].to as u32),
                        forall|m: Move|
                            #[trigger] emitted_ok(c, m, is_board, is_hand, allow_illegal)
                                && m.amount != 0 && !bb_has(pre_bb, m.from as u32)
                                ==> moves@.contains(m),
                        forall|m: Move|
                            #[trigger] emitted_ok(c, m, is_board, is_hand, allow_illegal)
                                && m.amount != 0 && m.from == i && bb_has(
                                atk & !own_bb,
                                m.to as u32,
                            ) && !bb_has(move_tos, m.to as u32) ==> moves@.contains(m),
                        player_bb == pre_bb ^ (1u32 << (i as u32)),
                    decreases move_tos,
                {
                    broadcast use vstd::seq_lib::lemma_seq_contains_after_push;

                    let to = get_square(move_tos);
                    proof {
                        lemma_bb_subset_has(move_tos, atk & !own_bb, to as u32);
                        lemma_bb_and_subset(atk, !own_bb);
                        lemma_bb_subset_has(atk & !own_bb, atk, to as u32);
                        lemma_bb_andnot(atk, own_bb, to as u32);
                    }
                    let skip = !allow_illegal && adjc != 0 && piece.get_piece_type()
                        != PieceType::King && adjc & (1u32 << (to as u32)) == 0;
                    if !skip {
                        let capture_piece = self.board[to];
                        let rel = get_relation(i, to);
                        proof {
                            lemma_adj_attack_char(i as int, piece, to as u32);
                            let d0 = choose|d: Direction|
                                piece.spec_has_dir(d) && crate::bitboard::step_in_bounds(
                                    i as int,
                                    d,
                                ) && crate::bitboard::step_sq(i as int, d) == to as int;
                            lemma_step_rowcol(i as int, d0);
                            assert(1 * d0.spec_dy() == d0.spec_dy() && 1 * d0.spec_dx()
                                == d0.spec_dx());
                            lemma_relation_table(i as int, to as int, d0, 1);
                        }
                        let ghost len_pre = moves@.len();
                        if (piece == Piece::WPawn && to < 5) || (piece == Piece::BPawn && to
                            >= 20) {
                            // an unpromoted pawn may not stay on its last rank
                        } else {
                            let m = Move::board_move(piece, i, rel.0, 1, to, false, capture_piece);
                            assert(spec_board_sound(c, m));
                            assert(emitted_ok(c, m, is_board, is_hand, allow_illegal));
                            proof {
                                assert(!moves@.contains(m)) by {
                                    if moves@.contains(m) {
                                        let k = choose|k: int|
                                            0 <= k < moves@.len() && moves@[k] == m;
                                        assert(k < n0 || !bb_has(move_tos, m.to as u32));
                                    }
                                }
                                lemma_push_no_duplicates(moves@, m);
                            }
                            moves.push(m);
                        }
                        if piece.is_raw() && piece.is_promotable() && ((self.side_to_move
                            == Color::White && (to < 5 || i < 5)) || (self.side_to_move
                            == Color::Black && (to >= 20 || i >= 20))) {
                            let m2 = Move::board_move(piece, i, rel.0, 1, to, true, capture_piece);
                            assert(spec_board_sound(c, m2));
                            assert(emitted_ok(c, m2, is_board, is_hand, allow_illegal));
                            proof {
                                assert(!moves@.contains(m2)) by {
                                    if moves@.contains(m2) {
                                        let k = choose|k: int|
                                            0 <= k < moves@.len() && moves@[k] == m2;
                                        if k < len_pre {
                                            assert(k < n0 || !bb_has(move_tos, m2.to as u32));
                                        } else {
                                            assert(moves@[k].promotion == false);
                                        }
                                    }
                                }
                                lemma_push_no_duplicates(moves@, m2);
                            }
                            moves.push(m2);
                        }
                        proof {
                            assert forall|m: Move|
                                #[trigger] emitted_ok(c, m, is_board, is_hand, allow_illegal)
                                    && m.amount != 0 && m.from == i && m.to
                                    == to implies moves@.contains(m) by {
                                assert(m.piece == piece && m.capture_piece == capture_piece);
                                assert(m.direction == rel.0 && m.amount == 1);
                                if m.promotion {
                                    assert(moves@.last() == m);
                                } else {
                                    assert(moves@[len_pre as int] == m);
                                }
                            }
                        }
                    } else {
                        proof {
                            assert forall|m: Move|
                                #[trigger] emitted_ok(c, m, is_board, is_hand, allow_illegal)
                                    && m.amount != 0 && m.from == i && m.to
                                    == to implies moves@.contains(m) by {
                                assert(m.piece == piece);
                                assert(!spec_move_gen_ok(c, m));
                            }
                        }
                    }
                    proof {
                        lemma_bb_clear(move_tos, to as u32);
                        lemma_bb_clear_subset(move_tos, atk & !own_bb, to as u32);
                        lemma_bb_and_subset(move_tos, move_tos);
                        lemma_bb_clear_subset(move_tos, move_tos, to as u32);
                        lemma_bb_subset_fits(move_tos ^ (1u32 << (to as u32)), move_tos);
                    }
                    move_tos = move_tos ^ (1u32 << (to as u32));
                }
                proof {
                    assert forall|m: Move|
                        #[trigger] emitted_ok(c, m, is_board, is_hand, allow_illegal) && m.amount
                            != 0 && m.from == i && bb_has(
                            atk & !own_bb,
                            m.to as u32,
                        ) implies moves@.contains(m) by {
                        lemma_bb_zero(m.to as u32);
                    }
                }
                let ghost n1 = moves@.len();
                // sliding moves
                let pt = piece.get_piece_type();
                if pt == PieceType::Bishop || pt == PieceType::BishopX || pt == PieceType::Rook
                    || pt == PieceType::RookX {
                    let satk = if pt == PieceType::Bishop || pt == PieceType::BishopX {
                        bishop_attack(i, occ)
                    } else {
                        rook_attack(i, occ)
                    };
                    let mut slide_tos = satk & !own_bb;
                    proof {
                        lemma_bb_and_subset(satk, !own_bb);
                        lemma_bb_subset_fits(slide_tos, satk);
                        lemma_bb_and_subset(slide_tos, slide_tos);
                        assert forall|k: int|
                            n0 <= k < n1 implies !bb_has(satk, (#[trigger] moves@[k]).to as u32) by {
                            lemma_bb_andnot(atk, own_bb, moves@[k].to as u32);
                            lemma_adj_slider_disjoint(i as int, piece, occ, moves@[k].to as u32);
                        }
                    }
                    while slide_tos != 0
                        invariant
                            is_board,
                            self.wf(),
                            self.side_to_move != Color::NoColor,
                            c == self@.core,
                            si == self.side_to_move.spec_index(),
                            own_bb == c.player_bb[si as int],
                            occ == c.occ(),
                            adjc == spec_adjacent_check(c),
                            longc == spec_long_check(c),
                            double_check == (bb_count(adjc | longc) > 1),
                            i < 25,
                            piece == c.board[i as int],
                            piece.spec_get_color() == c.side_to_move,
                            pt == piece.spec_get_piece_type(),
                            pt == PieceType::Bishop || pt == PieceType::BishopX || pt
                                == PieceType::Rook || pt == PieceType::RookX,
                            satk == (if pt == PieceType::Bishop || pt == PieceType::BishopX {
                                bishop_attack_bb(i as int, occ)
                            } else {
                                rook_attack_bb(i as int, occ)
                            }),
                            atk == adj_attack_bb(i as int, piece),
                            slide_tos & !(satk & !own_bb) == 0,
                            bb_fits(slide_tos),
                            !allow_illegal && double_check ==> pt == PieceType::King,
                            moves@.no_duplicates(),
                            n0 <= n1 <= moves@.len(),
                            forall|k: int|
                                0 <= k < moves@.len() ==> emitted_ok(
                                    c,
                                    #[trigger] moves@[k],
                                    is_board,
                                    is_hand,
                                    allow_illegal,
                                ),
                            forall|k: int|
                                0 <= k < n0 ==> (#[trigger] moves@[k]).amount != 0 && moves@[k].from
                                    != i && moves@[k].from < 25 && !bb_has(
                                    player_bb,
                                    moves@[k].from as u32,
                                ),
                            forall|k: int|
                                n0 <= k < n1 ==> (#[trigger] moves@[k]).amount != 0
                                    && moves@[k].from == i && !bb_has(satk, moves@[k].to as u32),
                            forall|k: int|
                                n1 <= k < moves@.len() ==> (#[trigger] moves@[k]).amount != 0
                                    && moves@[k].from == i && bb_has(
                                    satk & !own_bb,
                                    moves@[k].to as u32,
                                ) && !bb_has(slide_tos, moves@[k].to as u32),
                            forall|m: Move|
                                #[trigger] emitted_ok(c, m, is_board, is_hand, allow_illegal)
                                    && m.amount != 0 && !bb_has(pre_bb, m.from as u32)
                                    ==> moves@.contains(m),
                            forall|m: Move|
                                #[trigger] emitted_ok(c, m, is_board, is_hand, allow_illegal)
                                    && m.amount != 0 && m.from == i && bb_has(
                                    atk & !own_bb,
                                    m.to as u32,
                                ) ==> moves@.contains(m),
                            forall|m: Move|
                                #[trigger] emitted_ok(c, m, is_board, is_hand, allow_illegal)
                                    && m.amount != 0 && m.from == i && bb_has(
                                    satk & !own_bb,
                                    m.to as u32,
                                ) && !bb_has(slide_tos, m.to as u32) ==> moves@.contains(m),
                            player_bb == pre_bb ^ (1u32 << (i as u32)),
                        decreases slide_tos,
                    {
                        broadcast use vstd::seq_lib::lemma_seq_contains_after_push;

                        let to = get_square(slide_tos);
                        proof {
                            lemma_bb_subset_has(slide_tos, satk & !own_bb, to as u32);
                            lemma_bb_and_subset(satk, !own_bb);
                            lemma_bb_subset_has(satk & !own_bb, satk, to as u32);
                            lemma_bb_andnot(satk, own_bb, to as u32);
                        }
                        let skip = !allow_illegal && adjc != 0 && piece.get_piece_type()
                            != PieceType::King && adjc & (1u32 << (to as u32)) == 0;
                        if !skip {
                            let capture_piece = self.board[to];
                            let rel = get_relation(i, to);
                            proof {
                                lemma_slider_relation(i as int, occ, to as u32, pt);
                            }
                            let ghost len_pre = moves@.len();
                            let m = Move::board_move(
                                piece,
                                i,
                                rel.0,
                                rel.1,
                                to,
                                false,
                                capture_piece,
                            );
                            assert(spec_board_sound(c, m));
                            assert(emitted_ok(c, m, is_board, is_hand, allow_illegal));
                            proof {
                                assert(!moves@.contains(m)) by {
                                    if moves@.contains(m) {
                                        let k = choose|k: int|
                                            0 <= k < moves@.len() && moves@[k] == m;
                                        assert(k < n0 || (n0 <= k < n1) || !bb_has(
                                            slide_tos,
                                            m.to as u32,
                                        ));
                                    }
                                }
                                lemma_push_no_duplicates(moves@, m);
                            }
                            moves.push(m);
                            if piece.is_raw() && piece.is_promotable() && ((self.side_to_move
                                == Color::White && (to < 5 || i < 5)) || (self.side_to_move
                                == Color::Black && (to >= 20 || i >= 20))) {
                                let m2 = Move::board_move(
                                    piece,
                                    i,
                                    rel.0,
                                    rel.1,
                                    to,
                                    true,
                                    capture_piece,
                                );
                                assert(spec_board_sound(c, m2));
                                assert(emitted_ok(c, m2, is_board, is_hand, allow_illegal));
                                proof {
                                    assert(!moves@.contains(m2)) by {
                                        if moves@.contains(m2) {
                                            let k = choose|k: int|
                                                0 <= k < moves@.len() && moves@[k] == m2;
                                            if k < len_pre {
                                                assert(k < n0 || (n0 <= k < n1) || !bb_has(
                                                    slide_tos,
                                                    m2.to as u32,
                                                ));
                                            } else {
                                                assert(moves@[k].promotion == false);
                                            }
                                        }
                                    }
                                    lemma_push_no_duplicates(moves@, m2);
                                }
                                moves.push(m2);
                            }
                            proof {
                                assert forall|m3: Move|
                                    #[trigger] emitted_ok(c, m3, is_board, is_hand, allow_illegal)
                                        && m3.amount != 0 && m3.from == i && m3.to
                                        == to implies moves@.contains(m3) by {
                                    assert(m3.piece == piece && m3.capture_piece == capture_piece);
                                    assert(m3.direction == rel.0 && m3.amount == rel.1);
                                    if m3.promotion {
                                        assert(moves@.last() == m3);
                                    } else {
                                        assert(moves@[len_pre as int] == m3);
                                    }
                                }
                            }
                        } else {
                            proof {
                                assert forall|m3: Move|
                                    #[trigger] emitted_ok(c, m3, is_board, is_hand, allow_illegal)
                                        && m3.amount != 0 && m3.from == i && m3.to
                                        == to implies moves@.contains(m3) by {
                                    assert(m3.piece == piece);
                                    assert(!spec_move_gen_ok(c, m3));
                                }
                            }
                        }
                        proof {
                            lemma_bb_clear(slide_tos, to as u32);
                            lemma_bb_clear_subset(slide_tos, satk & !own_bb, to as u32);
                            lemma_bb_and_subset(slide_tos, slide_tos);
                            lemma_bb_clear_subset(slide_tos, slide_tos, to as u32);
                            lemma_bb_subset_fits(slide_tos ^ (1u32 << (to as u32)), slide_tos);
                        }
                        slide_tos = slide_tos ^ (1u32 << (to as u32));
                    }
                }
                // every remaining reachable destination of this square is
                // now covered
                proof {
                    assert forall|m: Move|
                        #[trigger] emitted_ok(c, m, is_board, is_hand, allow_illegal) && m.amount
                            != 0 && !bb_has(player_bb, m.from as u32) implies moves@.contains(
                        m,
                    ) by {
                        lemma_bb_zero(m.to as u32);
                        if m.from == i {
                            assert(m.piece == piece);
                            assert(spec_reachable(c, m));
                            if bb_has(adj_attack_bb(i as int, piece), m.to as u32) {
                                lemma_bb_andnot(atk, own_bb, m.to as u32);
                                if si == 0 {
                                    assert(own_bb == c.player_bb[0]);
                                } else {
                                    assert(own_bb == c.player_bb[1]);
                                }
                                assert(bb_has(atk & !own_bb, m.to as u32));
                            } else {
                                let mpt = m.piece.spec_get_piece_type();
                                assert(mpt == PieceType::Bishop || mpt == PieceType::BishopX || mpt
                                    == PieceType::Rook || mpt == PieceType::RookX);
                                if mpt == PieceType::Bishop || mpt == PieceType::BishopX {
                                    lemma_bb_andnot(
                                        bishop_attack_bb(i as int, occ),
                                        own_bb,
                                        m.to as u32,
                                    );
                                } else {
                                    lemma_bb_andnot(
                                        rook_attack_bb(i as int, occ),
                                        own_bb,
                                        m.to as u32,
                                    );
                                }
                            }
                        }
                    }
                }
            }
            proof {
                assert forall|m: Move|
                    #[trigger] emitted_ok(c, m, is_board, is_hand, allow_illegal) && m.amount
                        != 0 implies moves@.contains(m) by {
                    lemma_bb_zero(m.from as u32);
                }
            }
        }
        let ghost n_board = moves@.len();
        // drops: never while a single-step check stands
        if is_hand && (allow_illegal || adjc == 0) {
            let mut t: usize = 0;
            while t < 5
                invariant
                    is_hand,
                    t <= 5,
                    self.wf(),
                    self.side_to_move != Color::NoColor,
                    c == self@.core,
                    si == self.side_to_move.spec_index(),
                    adjc == spec_adjacent_check(c),
                    allow_illegal || adjc == 0,
                    moves@.no_duplicates(),
                    n_board <= moves@.len(),
                    forall|k: int|
                        0 <= k < moves@.len() ==> emitted_ok(
                            c,
                            #[trigger] moves@[k],
                            is_board,
                            is_hand,
                            allow_illegal,
                        ),
                    forall|k: int| 0 <= k < n_board ==> (#[trigger] moves@[k]).amount != 0,
                    forall|k: int|
                        n_board <= k < moves@.len() ==> (#[trigger] moves@[k]).amount == 0
                            && moves@[k].piece.spec_get_piece_type().spec_hand_index() < t,
                    forall|m: Move|
                        #[trigger] emitted_ok(c, m, is_board, is_hand, allow_illegal) && m.amount
                            != 0 ==> moves@.contains(m),
                    forall|m: Move|
                        #[trigger] emitted_ok(c, m, is_board, is_hand, allow_illegal) && m.amount
                            == 0 && m.piece.spec_get_piece_type().spec_hand_index()
                            < t ==> moves@.contains(m),
                decreases 5 - t,
            {
                broadcast use vstd::seq_lib::lemma_seq_contains_after_push;

                let have = self.hand[5 * si + t] > 0;
                if !have {
                    proof {
                        assert forall|m: Move|
                            #[trigger] emitted_ok(c, m, is_board, is_hand, allow_illegal)
                                && m.amount == 0
                                && m.piece.spec_get_piece_type().spec_hand_index()
                                == t implies moves@.contains(m) by {
                            lemma_hand_piece_unique(m.piece, t as int, c.side_to_move);
                            assert(!spec_drop_sound(c, m));
                        }
                    }
                }
                if have {
                    let piece = PieceType::from_hand_index(t).get_piece(self.side_to_move);
                    assert(piece.spec_get_piece_type() == PieceType::spec_from_hand_index(t));
                    assert(piece.spec_get_color() == c.side_to_move);
                    let mut target: usize = 0;
                    while target < SQUARE_NB
                        invariant
                            is_hand,
                            target <= 25,
                            t < 5,
                            self.wf(),
                            self.side_to_move != Color::NoColor,
                            c == self@.core,
                            si == self.side_to_move.spec_index(),
                            adjc == spec_adjacent_check(c),
                            allow_illegal || adjc == 0,
                            c.hand[5 * si + t] > 0,
                            piece == PieceType::spec_from_hand_index(t).spec_get_piece(
                                c.side_to_move,
                            ),
                            piece.spec_get_piece_type() == PieceType::spec_from_hand_index(t),
                            piece.spec_get_color() == c.side_to_move,
                            moves@.no_duplicates(),
                            n_board <= moves@.len(),
                            forall|k: int|
                                0 <= k < moves@.len() ==> emitted_ok(
                                    c,
                                    #[trigger] moves@[k],
                                    is_board,
                                    is_hand,
                                    allow_illegal,
                                ),
                            forall|k: int| 0 <= k < n_board ==> (#[trigger] moves@[k]).amount != 0,
                            forall|k: int|
                                n_board <= k < moves@.len() ==> (#[trigger] moves@[k]).amount == 0
                                    && (moves@[k].piece.spec_get_piece_type().spec_hand_index() < t
                                    || (moves@[k].piece.spec_get_piece_type().spec_hand_index()
                                    == t && moves@[k].to < target)),
                            forall|m: Move|
                                #[trigger] emitted_ok(c, m, is_board, is_hand, allow_illegal)
                                    && m.amount != 0 ==> moves@.contains(m),
                            forall|m: Move|
                                #[trigger] emitted_ok(c, m, is_board, is_hand, allow_illegal)
                                    && m.amount == 0 && (
                                m.piece.spec_get_piece_type().spec_hand_index() < t || (
                                m.piece.spec_get_piece_type().spec_hand_index() == t && m.to
                                    < target)) ==> moves@.contains(m),
                        decreases 25 - target,
                    {
                        broadcast use vstd::seq_lib::lemma_seq_contains_after_push;

                        if self.board[target] == Piece::NoPiece {
                            let mut ok = true;
                            if piece.get_piece_type() == PieceType::Pawn {
                                if self.pawn_flags[si] & (1u32 << ((target % 5) as u32)) != 0 {
                                    ok = false;
                                }
                                if self.side_to_move == Color::White && target < 5 {
                                    ok = false;
                                }
                                if self.side_to_move == Color::Black && target >= 20 {
                                    ok = false;
                                }
                            }
                            if ok {
                                let m = Move::hand_move(piece, target);
                                assert(spec_drop_sound(c, m));
                                assert(emitted_ok(c, m, is_board, is_hand, allow_illegal));
                                proof {
                                    assert(!moves@.contains(m)) by {
                                        if moves@.contains(m) {
                                            let k = choose|k: int|
                                                0 <= k < moves@.len() && moves@[k] == m;
                                        }
                                    }
                                    lemma_push_no_duplicates(moves@, m);
                                }
                                moves.push(m);
                                proof {
                                    assert forall|m2: Move|
                                        #[trigger] emitted_ok(
                                            c,
                                            m2,
                                            is_board,
                                            is_hand,
                                            allow_illegal,
                                        ) && m2.amount == 0
                                            && m2.piece.spec_get_piece_type().spec_hand_index()
                                            == t && m2.to == target implies moves@.contains(
                                        m2,
                                    ) by {
                                        lemma_hand_piece_unique(m2.piece, t as int, c.side_to_move);
                                        assert(m2 == Move::spec_hand_move(piece, target));
                                        assert(moves@.last() == m2);
                                    }
                                }
                            } else {
                                proof {
                                    assert forall|m2: Move|
                                        #[trigger] emitted_ok(
                                            c,
                                            m2,
                                            is_board,
                                            is_hand,
                                            allow_illegal,
                                        ) && m2.amount == 0
                                            && m2.piece.spec_get_piece_type().spec_hand_index()
                                            == t && m2.to == target implies moves@.contains(
                                        m2,
                                    ) by {
                                        lemma_hand_piece_unique(m2.piece, t as int, c.side_to_move);
                                        assert(!spec_drop_sound(c, m2));
                                    }
                                }
                            }
                        } else {
                            proof {
                                assert forall|m2: Move|
                                    #[trigger] emitted_ok(c, m2, is_board, is_hand, allow_illegal)
                                        && m2.amount == 0
                                        && m2.piece.spec_get_piece_type().spec_hand_index() == t
                                        && m2.to == target implies moves@.contains(m2) by {
                                    lemma_hand_piece_unique(m2.piece, t as int, c.side_to_move);
                                    assert(!spec_drop_sound(c, m2));
                                }
                            }
                        }
                        target = target + 1;
                    }
                }
                proof {
                    assert forall|m: Move|
                        #[trigger] emitted_ok(c, m, is_board, is_hand, allow_illegal) && m.amount
                            == 0 && m.piece.spec_get_piece_type().spec_hand_index() < t
                            + 1 implies moves@.contains(m) by {
                        if m.piece.spec_get_piece_type().spec_hand_index() == t {
                            lemma_hand_piece_unique(m.piece, t as int, c.side_to_move);
                        }
                    }
                }
                t = t + 1;
            }
        } else {
            proof {
                assert forall|m: Move|
                    #[trigger] emitted_ok(c, m, is_board, is_hand, allow_illegal) && m.amount
                        == 0 implies moves@.contains(m) by {
                    assert(is_hand && (allow_illegal || spec_adjacent_check(c) == 0));
                }
            }
        }
        // the legality filter
        if !allow_illegal {
            let king_piece = PieceType::King.get_piece(self.side_to_move);
            let kbb = self.piece_bb[king_piece.index()];
            assert(kbb == c.king_bb(c.side_to_move) && kbb != 0);
            let king_square = get_square(kbb);
            let mut index: usize = 0;
            while index < moves.len()
                invariant
                    self.wf(),
                    self.side_to_move != Color::NoColor,
                    c == self@.core,
                    king_square == c.king_sq(c.side_to_move),
                    king_square < 25,
                    index <= moves@.len(),
                    moves@.no_duplicates(),
                    forall|k: int|
                        0 <= k < moves@.len() ==> emitted_ok(
                            c,
                            #[trigger] moves@[k],
                            is_board,
                            is_hand,
                            allow_illegal,
                        ),
                    forall|k: int|
                        0 <= k < index ==> spec_move_filter_ok(c, #[trigger] moves@[k]),
                    forall|m: Move|
                        #[trigger] emitted_ok(c, m, is_board, is_hand, allow_illegal)
                            && spec_move_filter_ok(c, m) ==> moves@.contains(m),
                decreases moves@.len() - index,
            {
                let m = moves[index];
                if self.move_is_legal(&m, king_square) {
                    index = index + 1;
                } else {
                    proof {
                        lemma_swap_remove_props(moves@, index as int);
                    }
                    moves.swap_remove(index);
                }
            }
        }
        moves
    }
}

} // verus!
