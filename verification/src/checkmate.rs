//! A small depth-first checkmate search: odd depths try checks for the
//! attacker, even depths require every defence to fail. The position is
//! proved to come back unchanged from the search.

use vstd::prelude::*;

use crate::movegen::emitted_ok;
use crate::movegen::spec_move_filter_ok;
use crate::moves::Move;
use crate::position::Position;
use crate::state_lemmas::lemma_do_core_kings;
use crate::state_lemmas::lemma_do_undo_round_trip;
use crate::state::spec_adjacent_check;
use crate::state::spec_do_core;
use crate::state::spec_long_check;
use crate::state::spec_move_applicable;
use crate::types::Color;
use crate::types::PieceType;

verus! {

impl Position {
    /// Search for a forced mate by the side to move, trying ever deeper odd
    /// search depths. The position itself is left exactly as it was.
    pub fn solve_checkmate_dfs(&mut self, depth: i32) -> (r: (bool, Move))
        requires
            old(self).wf(),
            old(self)@.core.side_to_move != Color::NoColor,
            old(self)@.core.king_bb(Color::White) != 0,
            old(self)@.core.king_bb(Color::Black) != 0,
            depth <= 1000,
        ensures
            final (self)@ == old(self)@,
            final (self).wf(),
            r.0 ==> spec_move_applicable(old(self)@.core, r.1) && emitted_ok(
                old(self)@.core,
                r.1,
                true,
                true,
                false,
            ) && spec_move_filter_ok(old(self)@.core, r.1) && (spec_adjacent_check(
                spec_do_core(old(self)@.core, r.1),
            ) != 0 || spec_long_check(spec_do_core(old(self)@.core, r.1)) != 0),
    {
        let mut i: i32 = 1;
        while i <= depth
            invariant
                self.wf(),
                self@ == old(self)@,
                self@.core.side_to_move != Color::NoColor,
                self@.core.king_bb(Color::White) != 0,
                self@.core.king_bb(Color::Black) != 0,
                1 <= i <= 1002,
                depth <= 1000,
            decreases 1002 - i,
        {
            let r = attack(self, i);
            if r.0 {
                return (true, r.1);
            }
            i = i + 2;
        }
        (false, Move::null_move())
    }
}

/// Try every legal move that gives check and see whether all defences fail.
#[verifier::rlimit(100)]
fn attack(position: &mut Position, depth: i32) -> (r: (bool, Move))
    requires
        old(position).wf(),
        old(position)@.core.side_to_move != Color::NoColor,
        old(position)@.core.king_bb(Color::White) != 0,
        old(position)@.core.king_bb(Color::Black) != 0,
        -1 <= depth <= 1001,
    ensures
        final (position)@ == old(position)@,
        final (position).wf(),
        r.0 ==> spec_move_applicable(old(position)@.core, r.1) && emitted_ok(
            old(position)@.core,
            r.1,
            true,
            true,
            false,
        ) && spec_move_filter_ok(old(position)@.core, r.1) && (spec_adjacent_check(
            spec_do_core(old(position)@.core, r.1),
        ) != 0 || spec_long_check(spec_do_core(old(position)@.core, r.1)) != 0),
    decreases (if depth >= 0 {
        2 * depth + 2
    } else {
        0int
    }),
{
    if depth <= 0 {
        return (false, Move::null_move());
    }
    let ghost v0 = position@;
    let moves = position.generate_moves();
    let mut idx: usize = 0;
    while idx < moves.len()
        invariant
            position.wf(),
            position@ == v0,
            v0 == old(position)@,
            v0.core.king_bb(Color::White) != 0,
            v0.core.king_bb(Color::Black) != 0,
            position@.core.side_to_move != Color::NoColor,
            idx <= moves@.len(),
            moves@.len() > 0 ==> v0.ply < 512,
            1 <= depth <= 1001,
            forall|k: int|
                0 <= k < moves@.len() ==> ((#[trigger] moves@[k]).capture_piece.spec_get_piece_type()
                    != PieceType::King ==> spec_move_applicable(v0.core, moves@[k])),
            forall|k: int|
                0 <= k < moves@.len() ==> emitted_ok(
                    v0.core,
                    #[trigger] moves@[k],
                    true,
                    true,
                    false,
                ) && spec_move_filter_ok(v0.core, moves@[k]),
        decreases moves@.len() - idx,
    {
        let m = moves[idx];
        idx = idx + 1;
        if m.capture_piece.get_piece_type() == PieceType::King {
            continue ;
        }
        position.do_move(&m);
        proof {
            lemma_do_undo_round_trip(v0, m);
            lemma_do_core_kings(v0.core, m);
        }
        let gives_check = position.get_check_bb() != 0;
        proof {
            if gives_check {
                crate::bitboard::lemma_bb_or_zero(
                    spec_adjacent_check(spec_do_core(v0.core, m)),
                    spec_long_check(spec_do_core(v0.core, m)),
                );
            }
        }
        if !gives_check {
            position.undo_move();
            continue ;
        }
        let rep = position.is_repetition();
        if rep.0 {
            position.undo_move();
            continue ;
        }
        let d = defense(position, depth - 1);
        position.undo_move();
        if d.0 {
            return (true, m);
        }
    }
    (false, Move::null_move())
}

/// Check whether every defence still loses; a mate delivered by a pawn drop
/// does not count.
#[verifier::rlimit(100)]
fn defense(position: &mut Position, depth: i32) -> (r: (bool, Move))
    requires
        old(position).wf(),
        old(position)@.core.side_to_move != Color::NoColor,
        old(position)@.core.king_bb(Color::White) != 0,
        old(position)@.core.king_bb(Color::Black) != 0,
        old(position)@.ply >= 1,
        0 <= depth <= 1000,
    ensures
        final (position)@ == old(position)@,
        final (position).wf(),
    decreases (if depth >= 0 {
        2 * depth + 3
    } else {
        1int
    }),
{
    let ghost v0 = position@;
    let moves = position.generate_moves();
    if moves.len() == 0 {
        let last = position.kif[position.ply - 1];
        if last.piece.get_piece_type() == PieceType::Pawn && last.amount == 0 {
            // a mate delivered by a pawn drop is illegal for the attacker
            return (false, Move::null_move());
        }
    }
    let mut idx: usize = 0;
    while idx < moves.len()
        invariant
            position.wf(),
            position@ == v0,
            v0 == old(position)@,
            v0.core.king_bb(Color::White) != 0,
            v0.core.king_bb(Color::Black) != 0,
            position@.core.side_to_move != Color::NoColor,
            idx <= moves@.len(),
            moves@.len() > 0 ==> v0.ply < 512,
            0 <= depth <= 1000,
            forall|k: int|
                0 <= k < moves@.len() ==> ((#[trigger] moves@[k]).capture_piece.spec_get_piece_type()
                    != PieceType::King ==> spec_move_applicable(v0.core, moves@[k])),
        decreases moves@.len() - idx,
    {
        let m = moves[idx];
        idx = idx + 1;
        if m.capture_piece.get_piece_type() == PieceType::King {
            continue ;
        }
        position.do_move(&m);
        proof {
            lemma_do_undo_round_trip(v0, m);
            lemma_do_core_kings(v0.core, m);
        }
        let rep = position.is_repetition();
        if rep.0 {
            position.undo_move();
            continue ;
        }
        let a = attack(position, depth - 1);
        position.undo_move();
        if !a.0 {
            return (false, Move::null_move());
        }
    }
    (true, Move::null_move())
}

} // verus!
