//! The position: board, hands, bitboards, pawn flags, incremental hash,
//! check bookkeeping and move history, with `do_move` and `undo_move` proved
//! to follow the transition functions of the model exactly.

use vstd::prelude::*;

use crate::bitboard::adjacent_attack;
use crate::bitboard::bishop_attack;
use crate::bitboard::get_square;
use crate::bitboard::rook_attack;
use crate::bitboard::Bitboard;
use crate::moves::Move;
use crate::state::adj_check_upto;
use crate::state::core_shape;
use crate::state::core_wf;
use crate::state::pos_wf;
use crate::state::sat_inc;
use crate::state::spec_adjacent_check;
use crate::state::spec_do_core;
use crate::state::spec_do_move;
use crate::state::spec_long_check;
use crate::state::spec_move_applicable;
use crate::state::spec_next_sequent;
use crate::state::spec_undo_move;
use crate::state::PosCore;
use crate::state::PosState;
use crate::state_lemmas::lemma_capture_slot;
use crate::state_lemmas::lemma_do_core_wf;
use crate::state_lemmas::lemma_do_move_wf;
use crate::state_lemmas::lemma_hash_do;
use crate::state_lemmas::lemma_undo_move_wf;
use crate::state_lemmas::spec_hash_after;
use crate::types::Color;
use crate::types::Piece;
use crate::types::PieceType;
use crate::types::SQUARE_NB;
use crate::zobrist::hash_of;
use crate::zobrist::lemma_or1_is_xor1;
use crate::zobrist::lemma_xor_upto_even;
use crate::zobrist::lemma_xor_zero;
use crate::zobrist::table_wf;
use crate::zobrist::xor_upto;
use crate::zobrist::Zobrist;

verus! {

/// A clone of a vector of plain values.
fn clone_vec<T: Copy>(v: &Vec<T>) -> (r: Vec<T>)
    ensures
        r@ == v@,
{
    let mut r: Vec<T> = Vec::new();
    let n = v.len();
    let mut i: usize = 0;
    while i < n
        invariant
            i <= n,
            n == v@.len(),
            r@ == v@.subrange(0, i as int),
        decreases n - i,
    {
        r.push(v[i]);
        assert(r@ =~= v@.subrange(0, i + 1));
        i = i + 1;
    }
    assert(r@ =~= v@);
    r
}

/// Occurrences of `target` among the recorded hashes at `j`, `j - 2`, ... —
/// the plies on which the same side was to move.
pub open spec fn rep_count_from(hash: Seq<u64>, target: u64, j: int) -> int
    decreases (if j < 0 {
        0int
    } else {
        j + 1
    }),
{
    if j < 0 {
        0
    } else {
        (if hash[j] == target {
            1int
        } else {
            0int
        }) + rep_count_from(hash, target, j - 2)
    }
}

/// How often the current position occurred before, looking back two plies at
/// a time.
pub open spec fn spec_repetition_count(v: PosState) -> int {
    rep_count_from(v.hash, v.hash[v.ply], v.ply - 2)
}

/// The game state: the current snapshot fields, the per-ply history arrays
/// and the Zobrist table, tied together by `wf`.
pub struct Position {
    pub side_to_move: Color,
    pub board: Vec<Piece>,
    pub hand: Vec<u8>,
    pub pawn_flags: Vec<u32>,
    pub piece_bb: Vec<Bitboard>,
    pub player_bb: Vec<Bitboard>,
    pub ply: usize,
    pub kif: Vec<Move>,
    pub hash: Vec<u64>,
    pub adjacent_check_bb: Vec<Bitboard>,
    pub long_check_bb: Vec<Bitboard>,
    pub sequent_check_count: Vec<(u16, u16)>,
    pub zobrist: Zobrist,
    /// The snapshot at every recorded ply.
    pub history: Ghost<Seq<PosCore>>,
}

impl View for Position {
    type V = PosState;

    open spec fn view(&self) -> PosState {
        PosState {
            core: PosCore {
                side_to_move: self.side_to_move,
                board: self.board@,
                hand: self.hand@,
                pawn_flags: self.pawn_flags@,
                piece_bb: self.piece_bb@,
                player_bb: self.player_bb@,
            },
            ply: self.ply as int,
            kif: self.kif@,
            hash: self.hash@,
            adjacent_check_bb: self.adjacent_check_bb@,
            long_check_bb: self.long_check_bb@,
            sequent_check_count: self.sequent_check_count@,
            cores: self.history@,
            zobrist: self.zobrist.spec_table(),
        }
    }
}

impl Position {
    /// The record is consistent: see the model's well-formedness predicate.
    pub open spec fn wf(&self) -> bool {
        pos_wf(self@)
    }

    /// A blank position: empty board, empty hands, unset side to move. It is
    /// a shell to fill from SFEN; the game operations expect `wf`, which
    /// only a filled board satisfies.
    pub fn empty_board() -> (r: Position)
        ensures
            core_shape(r@.core),
            table_wf(r@.zobrist),
            r@.core.side_to_move == Color::NoColor,
            forall|i: int| 0 <= i < 25 ==> #[trigger] r@.core.board[i] == Piece::NoPiece,
            r@.ply == 0,
            r@.kif.len() == 0,
            r@.hash.len() == 1,
            r@.adjacent_check_bb.len() == 1,
            r@.long_check_bb.len() == 1,
            r@.sequent_check_count.len() == 1,
            r@.cores.len() == 1,
    {
        let mut board: Vec<Piece> = Vec::new();
        let mut i: usize = 0;
        while i < SQUARE_NB
            invariant
                i <= 25,
                board@.len() == i,
                forall|j: int| 0 <= j < i ==> #[trigger] board@[j] == Piece::NoPiece,
            decreases 25 - i,
        {
            board.push(Piece::NoPiece);
            i = i + 1;
        }
        let mut hand: Vec<u8> = Vec::new();
        let mut i: usize = 0;
        while i < 10
            invariant
                i <= 10,
                hand@.len() == i,
            decreases 10 - i,
        {
            hand.push(0);
            i = i + 1;
        }
        let mut pawn_flags: Vec<u32> = Vec::new();
        pawn_flags.push(0);
        pawn_flags.push(0);
        let mut piece_bb: Vec<Bitboard> = Vec::new();
        let mut i: usize = 0;
        while i < 21
            invariant
                i <= 21,
                piece_bb@.len() == i,
            decreases 21 - i,
        {
            piece_bb.push(0);
            i = i + 1;
        }
        let mut player_bb: Vec<Bitboard> = Vec::new();
        player_bb.push(0);
        player_bb.push(0);
        let mut kif: Vec<Move> = Vec::new();
        let mut hash: Vec<u64> = Vec::new();
        hash.push(0);
        let mut adjacent_check_bb: Vec<Bitboard> = Vec::new();
        adjacent_check_bb.push(0);
        let mut long_check_bb: Vec<Bitboard> = Vec::new();
        long_check_bb.push(0);
        let mut sequent_check_count: Vec<(u16, u16)> = Vec::new();
        sequent_check_count.push((0, 0));
        let zobrist = Zobrist::new();
        let ghost hist0 = seq![
            PosCore {
                side_to_move: Color::NoColor,
                board: board@,
                hand: hand@,
                pawn_flags: pawn_flags@,
                piece_bb: piece_bb@,
                player_bb: player_bb@,
            },
        ];
        let r = Position {
            side_to_move: Color::NoColor,
            board,
            hand,
            pawn_flags,
            piece_bb,
            player_bb,
            ply: 0,
            kif,
            hash,
            adjacent_check_bb,
            long_check_bb,
            sequent_check_count,
            zobrist,
            history: Ghost(hist0),
        };
        r
    }

    /// A copy: with `entire` the whole record including history; without it
    /// a fresh record whose single recorded ply is the current snapshot.
    pub fn copy(&self, entire: bool) -> (r: Position)
        requires
            self.wf(),
        ensures
            entire ==> r@ == self@,
            !entire ==> r@ == (PosState {
                core: self@.core,
                ply: 0,
                kif: Seq::<Move>::empty(),
                hash: seq![self@.hash[self@.ply]],
                adjacent_check_bb: seq![self@.adjacent_check_bb[self@.ply]],
                long_check_bb: seq![self@.long_check_bb[self@.ply]],
                sequent_check_count: seq![self@.sequent_check_count[self@.ply]],
                cores: seq![self@.core],
                zobrist: self@.zobrist,
            }),
            r.wf(),
    {
        if entire {
            let r = Position {
                side_to_move: self.side_to_move,
                board: clone_vec(&self.board),
                hand: clone_vec(&self.hand),
                pawn_flags: clone_vec(&self.pawn_flags),
                piece_bb: clone_vec(&self.piece_bb),
                player_bb: clone_vec(&self.player_bb),
                ply: self.ply,
                kif: clone_vec(&self.kif),
                hash: clone_vec(&self.hash),
                adjacent_check_bb: clone_vec(&self.adjacent_check_bb),
                long_check_bb: clone_vec(&self.long_check_bb),
                sequent_check_count: clone_vec(&self.sequent_check_count),
                zobrist: self.zobrist.duplicate(),
                history: Ghost(self.history@),
            };
            assert(r@ =~~= self@);
            r
        } else {
            let mut hash: Vec<u64> = Vec::new();
            hash.push(self.hash[self.ply]);
            let mut adjacent_check_bb: Vec<Bitboard> = Vec::new();
            adjacent_check_bb.push(self.adjacent_check_bb[self.ply]);
            let mut long_check_bb: Vec<Bitboard> = Vec::new();
            long_check_bb.push(self.long_check_bb[self.ply]);
            let mut sequent_check_count: Vec<(u16, u16)> = Vec::new();
            sequent_check_count.push(self.sequent_check_count[self.ply]);
            let ghost snap_hist = seq![self@.core];
            let r = Position {
                side_to_move: self.side_to_move,
                board: clone_vec(&self.board),
                hand: clone_vec(&self.hand),
                pawn_flags: clone_vec(&self.pawn_flags),
                piece_bb: clone_vec(&self.piece_bb),
                player_bb: clone_vec(&self.player_bb),
                ply: 0,
                kif: Vec::new(),
                hash,
                adjacent_check_bb,
                long_check_bb,
                sequent_check_count,
                zobrist: self.zobrist.duplicate(),
                history: Ghost(snap_hist),
            };
            assert(r@.core =~~= self@.core);
            assert(r@.kif =~= Seq::<Move>::empty());
            assert(r@.hash =~= seq![self@.hash[self@.ply]]);
            assert(r@.adjacent_check_bb =~= seq![self@.adjacent_check_bb[self@.ply]]);
            assert(r@.long_check_bb =~= seq![self@.long_check_bb[self@.ply]]);
            assert(r@.sequent_check_count =~= seq![self@.sequent_check_count[self@.ply]]);
            assert(r@.cores =~= seq![self@.core]);
            r
        }
    }

    /// Index of the side to move in the per-color arrays.
    pub fn get_side_to_move(&self) -> (r: usize)
        ensures
            r == self@.core.side_to_move.spec_index(),
    {
        self.side_to_move.index()
    }

    /// The hash of the current snapshot.
    pub fn get_hash(&self) -> (r: u64)
        requires
            self@.hash.len() == self@.ply + 1,
        ensures
            r == self@.hash[self@.ply],
    {
        self.hash[self.ply]
    }

    /// The Zobrist hash recomputed from scratch over the whole board.
    pub fn calculate_hash(&self) -> (r: u64)
        requires
            core_shape(self@.core),
            table_wf(self@.zobrist),
        ensures
            r == hash_of(self@.core.board, self@.core.side_to_move, self@.zobrist),
    {
        let mut h: u64 = 0;
        let mut i: usize = 0;
        while i < SQUARE_NB
            invariant
                i <= 25,
                core_shape(self@.core),
                table_wf(self@.zobrist),
                h == xor_upto(self@.core.board, self@.zobrist, i as int),
            decreases 25 - i,
        {
            if self.board[i] != Piece::NoPiece {
                h = h ^ self.zobrist.entry(i, self.board[i]);
            } else {
                proof {
                    lemma_xor_zero(h);
                }
            }
            i = i + 1;
        }
        proof {
            lemma_xor_upto_even(self@.core.board, self@.zobrist, 25);
            lemma_or1_is_xor1(h);
            lemma_xor_zero(h);
        }
        if self.side_to_move == Color::Black {
            h = h | 1;
        }
        h
    }

    /// Enemy pieces giving single-step check at the current ply.
    pub fn get_adjacent_check_bb(&self) -> (r: Bitboard)
        requires
            self@.adjacent_check_bb.len() == self@.ply + 1,
        ensures
            r == self@.adjacent_check_bb[self@.ply],
    {
        self.adjacent_check_bb[self.ply]
    }

    /// Enemy sliding pieces giving check at the current ply.
    pub fn get_long_check_bb(&self) -> (r: Bitboard)
        requires
            self@.long_check_bb.len() == self@.ply + 1,
        ensures
            r == self@.long_check_bb[self@.ply],
    {
        self.long_check_bb[self.ply]
    }

    /// All enemy pieces giving check at the current ply.
    pub fn get_check_bb(&self) -> (r: Bitboard)
        requires
            self@.adjacent_check_bb.len() == self@.ply + 1,
            self@.long_check_bb.len() == self@.ply + 1,
        ensures
            r == (self@.adjacent_check_bb[self@.ply] | self@.long_check_bb[self@.ply]),
    {
        self.get_adjacent_check_bb() | self.get_long_check_bb()
    }

    /// The check bitboards of the current snapshot, recomputed from the king
    /// square and the attack tables.
    pub(crate) fn compute_check_bb(&self) -> (r: (Bitboard, Bitboard))
        requires
            core_wf(self@.core),
            self.side_to_move != Color::NoColor,
        ensures
            r.0 == spec_adjacent_check(self@.core),
            r.1 == spec_long_check(self@.core),
    {
        let si = self.side_to_move.index();
        let op = self.side_to_move.get_op_color();
        let oi = op.index();
        let king_piece = PieceType::King.get_piece(self.side_to_move);
        let kbb = self.piece_bb[king_piece.index()];
        assert(kbb == self@.core.king_bb(self.side_to_move));
        if kbb == 0 {
            // no king of the mover on the board: no check can stand
            return (0, 0);
        }
        let king_square = get_square(kbb);
        assert(king_square == self@.core.king_sq(self.side_to_move));
        assert(king_square < 25);
        let mut adj: u32 = 0;
        let mut n: usize = 1;
        while n <= 10
            invariant
                1 <= n <= 11,
                core_wf(self@.core),
                self.side_to_move != Color::NoColor,
                si == self.side_to_move.spec_index(),
                oi == self.side_to_move.spec_get_op_color().spec_index(),
                king_square < 25,
                king_square == self@.core.king_sq(self.side_to_move),
                adj == adj_check_upto(self@.core, king_square as int, n - 1),
            decreases 11 - n,
        {
            let myp = Piece::from_index(10 * si + n);
            let opp = Piece::from_index(10 * oi + n);
            assert(1 <= opp.spec_index() < 21);
            adj = adj | (adjacent_attack(king_square, myp) & self.piece_bb[opp.index()]);
            n = n + 1;
        }
        let occ = self.player_bb[0] | self.player_bb[1];
        let bb = bishop_attack(king_square, occ);
        let rb = rook_attack(king_square, occ);
        let long = ((bb & self.piece_bb[PieceType::Bishop.get_piece(op).index()]) | (bb
            & self.piece_bb[PieceType::BishopX.get_piece(op).index()])) | (rb
            & self.piece_bb[PieceType::Rook.get_piece(op).index()]) | (rb
            & self.piece_bb[PieceType::RookX.get_piece(op).index()]);
        (adj, long)
    }

    /// Play a move: update board, hands, bitboards, pawn flags, the hash by
    /// incremental XOR, and append the new ply's bookkeeping.
    #[verifier::rlimit(100)]
    pub fn do_move(&mut self, m: &Move)
        requires
            old(self).wf(),
            spec_move_applicable(old(self)@.core, *m),
            old(self)@.ply < 512,
        ensures
            final (self)@ == spec_do_move(old(self)@, *m),
            final (self).wf(),
    {
        let ghost v0 = self@;
        let ghost c0 = self@.core;
        proof {
            lemma_do_core_wf(c0, *m);
            lemma_hash_do(c0, *m, self@.zobrist);
            lemma_do_move_wf(v0, *m);
        }
        let si = self.side_to_move.index();
        let op = self.side_to_move.get_op_color();
        let oi = op.index();
        let bit_to: u32 = 1u32 << (m.to as u32);
        let mut h: u64 = self.hash[self.ply];
        if m.amount == 0 {
            // drop a hand piece
            self.board[m.to] = m.piece;
            let slot = 5 * si + m.piece.get_piece_type().hand_index();
            self.hand[slot] = self.hand[slot] - 1;
            let pidx = m.piece.index();
            self.piece_bb[pidx] = self.piece_bb[pidx] | bit_to;
            self.player_bb[si] = self.player_bb[si] | bit_to;
            if m.piece.get_piece_type() == PieceType::Pawn {
                self.pawn_flags[si] = self.pawn_flags[si] | (1u32 << ((m.to % 5) as u32));
            }
            h = h ^ self.zobrist.entry(m.to, m.piece);
        } else {
            // move a piece on the board
            let bit_from: u32 = 1u32 << (m.from as u32);
            if m.capture_piece != Piece::NoPiece {
                proof {
                    lemma_capture_slot(c0, *m);
                }
                let cslot = 5 * si + m.capture_piece.get_piece_type().get_raw().hand_index();
                self.hand[cslot] = self.hand[cslot] + 1;
                let cidx = m.capture_piece.index();
                self.piece_bb[cidx] = self.piece_bb[cidx] ^ bit_to;
                self.player_bb[oi] = self.player_bb[oi] ^ bit_to;
                h = h ^ self.zobrist.entry(m.to, m.capture_piece);
            }
            if m.capture_piece.get_piece_type() == PieceType::Pawn {
                self.pawn_flags[oi] = self.pawn_flags[oi] ^ (1u32 << ((m.to % 5) as u32));
            }
            let new_piece = if m.promotion {
                m.piece.get_promoted()
            } else {
                m.piece
            };
            if m.promotion && m.piece.get_piece_type() == PieceType::Pawn {
                self.pawn_flags[si] = self.pawn_flags[si] ^ (1u32 << ((m.to % 5) as u32));
            }
            self.board[m.to] = new_piece;
            self.board[m.from] = Piece::NoPiece;
            let nidx = new_piece.index();
            self.piece_bb[nidx] = self.piece_bb[nidx] | bit_to;
            let pidx = m.piece.index();
            self.piece_bb[pidx] = self.piece_bb[pidx] ^ bit_from;
            self.player_bb[si] = self.player_bb[si] | bit_to;
            self.player_bb[si] = self.player_bb[si] ^ bit_from;
            h = h ^ self.zobrist.entry(m.from, m.piece);
            h = h ^ self.zobrist.entry(m.to, new_piece);
        }
        h = h ^ 1;
        let ghost c2 = spec_do_core(c0, *m);
        assert(self@.core.board =~= c2.board);
        assert(self@.core.hand =~= c2.hand);
        assert(self@.core.pawn_flags =~= c2.pawn_flags);
        assert(self@.core.piece_bb =~= c2.piece_bb);
        assert(self@.core.player_bb =~= c2.player_bb);
        self.side_to_move = op;
        assert(self@.core =~~= c2);
        assert(h == spec_hash_after(c0, *m, self@.zobrist));
        self.hash.push(h);
        self.kif.push(*m);
        self.ply = self.ply + 1;
        let checks = self.compute_check_bb();
        self.adjacent_check_bb.push(checks.0);
        self.long_check_bb.push(checks.1);
        let checked = checks.0 != 0 || checks.1 != 0;
        let prev = self.sequent_check_count[self.ply - 1];
        let next = if op == Color::Black {
            // White has just moved
            (
                if checked {
                    sat_inc(prev.0)
                } else {
                    0u16
                },
                prev.1,
            )
        } else {
            (
                prev.0,
                if checked {
                    sat_inc(prev.1)
                } else {
                    0u16
                },
            )
        };
        assert(next == spec_next_sequent(c2, checked, v0.sequent_check_count[v0.ply]));
        self.sequent_check_count.push(next);
        proof {
            self.history@ = self.history@.push(c2);
        }
        assert(self@.kif =~= spec_do_move(v0, *m).kif);
        assert(self@.hash =~= spec_do_move(v0, *m).hash);
        assert(self@.adjacent_check_bb =~= spec_do_move(v0, *m).adjacent_check_bb);
        assert(self@.long_check_bb =~= spec_do_move(v0, *m).long_check_bb);
        assert(self@.sequent_check_count =~= spec_do_move(v0, *m).sequent_check_count);
        assert(self@.cores =~= spec_do_move(v0, *m).cores);
        assert(self@ =~~= spec_do_move(v0, *m));
    }

    /// Take the last move back: the history suffices to rebuild the previous
    /// snapshot exactly.
    #[verifier::rlimit(100)]
    pub fn undo_move(&mut self)
        requires
            old(self).wf(),
            old(self)@.ply >= 1,
        ensures
            final (self)@ == spec_undo_move(old(self)@),
            final (self).wf(),
    {
        let ghost v0 = self@;
        proof {
            lemma_undo_move_wf(v0);
            let i = v0.ply - 1;
            assert(v0.cores[i + 1] == spec_do_core(v0.cores[i], v0.kif[i]));
            assert(spec_move_applicable(v0.cores[i], v0.kif[i]));
        }
        let m = self.kif[self.ply - 1];
        let ghost cprev = v0.cores[v0.ply - 1];
        self.ply = self.ply - 1;
        self.side_to_move = self.side_to_move.get_op_color();
        let si = self.side_to_move.index();
        let op = self.side_to_move.get_op_color();
        let oi = op.index();
        let bit_to: u32 = 1u32 << (m.to as u32);
        if m.amount == 0 {
            // take back a drop
            self.board[m.to] = Piece::NoPiece;
            let slot = 5 * si + m.piece.get_piece_type().hand_index();
            assert(self.hand@[slot as int] < 255) by {
                assert(cprev.hand[slot as int] >= 1);
            }
            self.hand[slot] = self.hand[slot] + 1;
            let pidx = m.piece.index();
            self.piece_bb[pidx] = self.piece_bb[pidx] ^ bit_to;
            self.player_bb[si] = self.player_bb[si] ^ bit_to;
            if m.piece.get_piece_type() == PieceType::Pawn {
                self.pawn_flags[si] = self.pawn_flags[si] ^ (1u32 << ((m.to % 5) as u32));
            }
        } else {
            // take back a board move
            let bit_from: u32 = 1u32 << (m.from as u32);
            let moved = self.board[m.to];
            let midx = moved.index();
            self.piece_bb[midx] = self.piece_bb[midx] ^ bit_to;
            let pidx = m.piece.index();
            self.piece_bb[pidx] = self.piece_bb[pidx] | bit_from;
            self.player_bb[si] = self.player_bb[si] ^ bit_to;
            self.player_bb[si] = self.player_bb[si] | bit_from;
            self.board[m.to] = m.capture_piece;
            self.board[m.from] = m.piece;
            if m.piece.get_piece_type() == PieceType::Pawn && m.promotion {
                self.pawn_flags[si] = self.pawn_flags[si] | (1u32 << ((m.to % 5) as u32));
            }
            if m.capture_piece != Piece::NoPiece {
                proof {
                    lemma_capture_slot(cprev, m);
                }
                let cslot = 5 * si + m.capture_piece.get_piece_type().get_raw().hand_index();
                assert(self.hand@[cslot as int] >= 1) by {
                    assert(cprev.hand[cslot as int] < 64);
                }
                self.hand[cslot] = self.hand[cslot] - 1;
                let cidx = m.capture_piece.index();
                self.piece_bb[cidx] = self.piece_bb[cidx] | bit_to;
                self.player_bb[oi] = self.player_bb[oi] | bit_to;
            }
            if m.capture_piece.get_piece_type() == PieceType::Pawn {
                self.pawn_flags[oi] = self.pawn_flags[oi] | (1u32 << ((m.to % 5) as u32));
            }
        }
        self.kif.pop();
        self.hash.pop();
        self.adjacent_check_bb.pop();
        self.long_check_bb.pop();
        self.sequent_check_count.pop();
        proof {
            self.history@ = self.history@.drop_last();
        }
        let ghost v2 = spec_undo_move(v0);
        assert(self@.core.board =~= v2.core.board);
        assert(self@.core.hand =~= v2.core.hand);
        assert(self@.core.pawn_flags =~= v2.core.pawn_flags);
        assert(self@.core.piece_bb =~= v2.core.piece_bb);
        assert(self@.core.player_bb =~= v2.core.player_bb);
        assert(self@.kif =~= v2.kif);
        assert(self@.hash =~= v2.hash);
        assert(self@.adjacent_check_bb =~= v2.adjacent_check_bb);
        assert(self@.long_check_bb =~= v2.long_check_bb);
        assert(self@.sequent_check_count =~= v2.sequent_check_count);
        assert(self@.cores =~= v2.cores);
        assert(self@ =~~= v2);
    }

    /// How often the current position occurred before with the same side to
    /// move.
    pub fn get_repetition(&self) -> (r: usize)
        requires
            self@.hash.len() == self@.ply + 1,
            self@.ply <= 512,
        ensures
            r == spec_repetition_count(self@),
    {
        let target = self.hash[self.ply];
        let mut count: usize = 0;
        let mut j: usize = self.ply;
        while j >= 2
            invariant
                j <= self@.ply,
                self@.hash.len() == self@.ply + 1,
                self@.ply <= 512,
                target == self@.hash[self@.ply],
                count + j <= self@.ply + 2,
                count + rep_count_from(self@.hash, target, j - 2) == spec_repetition_count(self@),
            decreases j,
        {
            j = j - 2;
            if self.hash[j] == target {
                count = count + 1;
            }
        }
        count
    }

    /// Whether the current position is a fourfold repetition, and whether it
    /// additionally falls under the consecutive-check rule: the opponent has
    /// been checking for at least seven plies.
    pub fn is_repetition(&self) -> (r: (bool, bool))
        requires
            self@.hash.len() == self@.ply + 1,
            self@.sequent_check_count.len() == self@.ply + 1,
            self@.ply <= 512,
        ensures
            r.0 == (spec_repetition_count(self@) >= 3),
            r.1 == (spec_repetition_count(self@) >= 3 && (if self@.core.side_to_move
                == Color::White {
                self@.sequent_check_count[self@.ply].1
            } else {
                self@.sequent_check_count[self@.ply].0
            }) >= 7),
    {
        let count = self.get_repetition();
        if count >= 3 {
            let pair = self.sequent_check_count[self.ply];
            let op_count = if self.side_to_move == Color::White {
                pair.1
            } else {
                pair.0
            };
            (true, op_count >= 7)
        } else {
            (false, false)
        }
    }
}

} // verus!
