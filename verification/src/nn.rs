//! The dense feature encoding of a position for an external evaluator: per
//! history step ten one-hot piece planes for each side, a repetition
//! thermometer and the hand counts, preceded by a turn plane and a move
//! counter plane. Values are small integers; the caller scales them.

use vstd::prelude::*;

use crate::position::rep_count_from;
use crate::position::Position;
use crate::state::PosState;
use crate::types::Color;
use crate::types::Piece;

verus! {

/// Index of a piece among the twenty concrete pieces, White first.
pub open spec fn spec_piece_seq_index(p: Piece) -> int {
    match p {
        Piece::WKing => 0,
        Piece::WGold => 1,
        Piece::WSilver => 2,
        Piece::WBishop => 3,
        Piece::WRook => 4,
        Piece::WPawn => 5,
        Piece::WSilverX => 6,
        Piece::WBishopX => 7,
        Piece::WRookX => 8,
        Piece::WPawnX => 9,
        Piece::BKing => 10,
        Piece::BGold => 11,
        Piece::BSilver => 12,
        Piece::BBishop => 13,
        Piece::BRook => 14,
        Piece::BPawn => 15,
        Piece::BSilverX => 16,
        Piece::BBishopX => 17,
        Piece::BRookX => 18,
        Piece::BPawnX => 19,
        Piece::NoPiece => 20,
    }
}

fn piece_to_sequential_index(p: Piece) -> (r: usize)
    ensures
        r == spec_piece_seq_index(p),
{
    match p {
        Piece::WKing => 0,
        Piece::WGold => 1,
        Piece::WSilver => 2,
        Piece::WBishop => 3,
        Piece::WRook => 4,
        Piece::WPawn => 5,
        Piece::WSilverX => 6,
        Piece::WBishopX => 7,
        Piece::WRookX => 8,
        Piece::WPawnX => 9,
        Piece::BKing => 10,
        Piece::BGold => 11,
        Piece::BSilver => 12,
        Piece::BBishop => 13,
        Piece::BRook => 14,
        Piece::BPawn => 15,
        Piece::BSilverX => 16,
        Piece::BBishopX => 17,
        Piece::BRookX => 18,
        Piece::BPawnX => 19,
        Piece::NoPiece => 20,
    }
}

/// The repetition count of the snapshot at ply `p`, clamped to three.
pub open spec fn spec_rep_clamp(v: PosState, p: int) -> int {
    let r = rep_count_from(v.hash, v.hash[p], p - 2);
    if r > 3 {
        3
    } else {
        r
    }
}

/// One feature of one history step: `f` selects among the twenty piece
/// planes, the three repetition planes and the ten hand-count planes; `sq`
/// is the square, reflected when Black is to move so that the mover always
/// plays upward.
pub open spec fn spec_nn_step_value(v: PosState, stm: Color, p: int, f: int, sq: int) -> u16 {
    let c = v.cores[p];
    let flip = stm == Color::Black;
    if f < 20 {
        let bsq = if flip {
            24 - sq
        } else {
            sq
        };
        let piece = if flip {
            c.board[bsq].spec_get_op_piece()
        } else {
            c.board[bsq]
        };
        if c.board[bsq] != Piece::NoPiece && spec_piece_seq_index(piece) == f {
            1u16
        } else {
            0u16
        }
    } else if f < 23 {
        if f - 20 < spec_rep_clamp(v, p) {
            1u16
        } else {
            0u16
        }
    } else if f < 28 {
        c.hand[5 * stm.spec_index() + (f - 23)] as u16
    } else {
        c.hand[5 * stm.spec_get_op_color().spec_index() + (f - 28)] as u16
    }
}

/// The feature tensor entry at flat index `idx`: a turn plane, a move
/// counter plane, then thirty-three planes per history step, channel-major
/// over the twenty-five squares. History steps beyond the recorded game are
/// zero.
pub open spec fn spec_nn_value(v: PosState, history: int, idx: int) -> u16 {
    let ch = idx / 25;
    let sq = idx % 25;
    if ch == 0 {
        if v.core.side_to_move == Color::Black {
            1u16
        } else {
            0u16
        }
    } else if ch == 1 {
        v.ply as u16
    } else {
        let h = (ch - 2) / 33;
        let f = (ch - 2) % 33;
        if h <= v.ply {
            spec_nn_step_value(v, v.core.side_to_move, v.ply - h, f, sq)
        } else {
            0u16
        }
    }
}

/// Two hash sequences that agree up to `j` count repetitions alike.
proof fn lemma_rep_prefix(h1: Seq<u64>, h2: Seq<u64>, t: u64, j: int)
    requires
        forall|k: int| 0 <= k <= j ==> #[trigger] h1[k] == h2[k],
    ensures
        rep_count_from(h1, t, j) == rep_count_from(h2, t, j),
    decreases (if j < 0 {
        0int
    } else {
        j + 1
    }),
{
    if j >= 0 {
        lemma_rep_prefix(h1, h2, t, j - 2);
    }
}

impl Position {
    /// The dense feature vector of this position over the last `history`
    /// snapshots, channel-major, exactly as `spec_nn_value` states.
    pub fn to_nninput(&self, history: usize) -> (r: Vec<u16>)
        requires
            self.wf(),
            self@.core.side_to_move != Color::NoColor,
            1 <= history <= 64,
        ensures
            r@.len() == (33 * history + 2) * 25,
            forall|idx: int|
                0 <= idx < r@.len() ==> #[trigger] r@[idx] == spec_nn_value(
                    self@,
                    history as int,
                    idx,
                ),
    {
        let ghost v = self@;
        // collect the reachable history snapshots, newest first
        let mut walker = self.copy(true);
        let mut snaps: Vec<Position> = Vec::new();
        let mut reps: Vec<u16> = Vec::new();
        loop
            invariant_except_break
                walker.wf(),
                walker@.cores == v.cores.subrange(0, walker@.ply + 1),
                walker@.kif == v.kif.subrange(0, walker@.ply),
                walker@.hash == v.hash.subrange(0, walker@.ply + 1),
                walker@.ply == v.ply - snaps@.len(),
                snaps@.len() < history,
            invariant
                v == self@,
                self.wf(),
                1 <= history <= 64,
                snaps@.len() <= history,
                snaps@.len() == reps@.len(),
                forall|h: int|
                    0 <= h < snaps@.len() ==> (#[trigger] snaps@[h]).wf() && snaps@[h]@.core
                        == v.cores[v.ply - h],
                forall|h: int|
                    0 <= h < reps@.len() ==> #[trigger] reps@[h] == spec_rep_clamp(v, v.ply - h),
            ensures
                snaps@.len() == (if v.ply + 1 <= history {
                    v.ply + 1
                } else {
                    history as int
                }),
            decreases history - snaps@.len(),
        {
            let c = walker.copy(true);
            let rep = walker.get_repetition();
            let repv: u16 = if rep > 3 {
                3
            } else {
                rep as u16
            };
            proof {
                lemma_rep_prefix(
                    walker@.hash,
                    v.hash,
                    walker@.hash[walker@.ply],
                    walker@.ply - 2,
                );
                assert(walker@.hash[walker@.ply] == v.hash[walker@.ply]);
            }
            snaps.push(c);
            reps.push(repv);
            if snaps.len() >= history || walker.ply == 0 {
                break ;
            }
            walker.undo_move();
            proof {
                assert(walker@.cores =~= v.cores.subrange(0, walker@.ply + 1));
                assert(walker@.kif =~= v.kif.subrange(0, walker@.ply));
                assert(walker@.hash =~= v.hash.subrange(0, walker@.ply + 1));
            }
        }
        assert(snaps@.len() == (if v.ply + 1 <= history {
            v.ply + 1
        } else {
            history as int
        }));
        // fill the tensor entry by entry
        let total = (33 * history + 2) * 25;
        let flip = self.side_to_move == Color::Black;
        let si = self.side_to_move.index();
        let oi = self.side_to_move.get_op_color().index();
        let mut out: Vec<u16> = Vec::new();
        let mut idx: usize = 0;
        while idx < total
            invariant
                idx <= total,
                total == (33 * history + 2) * 25,
                1 <= history <= 64,
                v == self@,
                self.wf(),
                self@.core.side_to_move != Color::NoColor,
                flip == (v.core.side_to_move == Color::Black),
                si == v.core.side_to_move.spec_index(),
                oi == v.core.side_to_move.spec_get_op_color().spec_index(),
                snaps@.len() == (if v.ply + 1 <= history {
                    v.ply + 1
                } else {
                    history as int
                }),
                snaps@.len() == reps@.len(),
                forall|h: int|
                    0 <= h < snaps@.len() ==> (#[trigger] snaps@[h]).wf() && snaps@[h]@.core
                        == v.cores[v.ply - h],
                forall|h: int|
                    0 <= h < reps@.len() ==> #[trigger] reps@[h] == spec_rep_clamp(v, v.ply - h),
                out@.len() == idx,
                forall|k: int|
                    0 <= k < idx ==> #[trigger] out@[k] == spec_nn_value(v, history as int, k),
            decreases total - idx,
        {
            let ch = idx / 25;
            let sq = idx % 25;
            let val: u16 = if ch == 0 {
                if flip {
                    1
                } else {
                    0
                }
            } else if ch == 1 {
                self.ply as u16
            } else {
                let h = (ch - 2) / 33;
                let f = (ch - 2) % 33;
                proof {
                    assert(ch < 33 * history + 2);
                    assert((ch - 2) / 33 < history) by (nonlinear_arith)
                        requires
                            2 <= ch < 33 * history + 2,
                            history >= 1,
                    ;
                    assert(0 <= (ch - 2) % 33 < 33) by (nonlinear_arith)
                        requires
                            ch >= 2,
                    ;
                }
                if h < snaps.len() {
                    assert(h <= v.ply);
                    let snap = &snaps[h];
                    if f < 20 {
                        let bsq = if flip {
                            24 - sq
                        } else {
                            sq
                        };
                        let piece = snap.board[bsq];
                        let keyed = if flip {
                            piece.get_op_piece()
                        } else {
                            piece
                        };
                        if piece != Piece::NoPiece && piece_to_sequential_index(keyed) == f {
                            1
                        } else {
                            0
                        }
                    } else if f < 23 {
                        if ((f - 20) as u16) < reps[h] {
                            1
                        } else {
                            0
                        }
                    } else if f < 28 {
                        snap.hand[5 * si + (f - 23)] as u16
                    } else {
                        snap.hand[5 * oi + (f - 28)] as u16
                    }
                } else {
                    assert(h > v.ply);
                    0
                }
            };
            assert(val == spec_nn_value(v, history as int, idx as int));
            out.push(val);
            idx = idx + 1;
        }
        out
    }
}

} // verus!
