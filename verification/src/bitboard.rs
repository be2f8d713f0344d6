//! Bitboards: 25-bit subsets of a 32-bit word, one bit per square, together
//! with the adjacent and sliding attack computations and the bit-level lemmas
//! the rest of the library builds on.

use vstd::prelude::*;

use crate::types::Direction;
use crate::types::Piece;

verus! {

pub type Bitboard = u32;

/// True when bit `i` of `bb` is set.
pub open spec fn bb_has(bb: u32, i: u32) -> bool {
    bb & (1u32 << i) != 0
}

/// True when only the 25 board bits can be set.
pub open spec fn bb_fits(bb: u32) -> bool {
    bb >> 25 == 0
}

/// Row of a square, counted from the top.
pub open spec fn spec_row(sq: int) -> int {
    sq / 5
}

/// File of a square, counted from the left.
pub open spec fn spec_col(sq: int) -> int {
    sq % 5
}

/// True when one step from `sq` in direction `d` stays on the board.
pub open spec fn step_in_bounds(sq: int, d: Direction) -> bool {
    &&& 0 <= spec_row(sq) + d.spec_dy() < 5
    &&& 0 <= spec_col(sq) + d.spec_dx() < 5
}

/// The square one step from `sq` in direction `d`.
pub open spec fn step_sq(sq: int, d: Direction) -> int {
    sq + 5 * d.spec_dy() + d.spec_dx()
}

/// The single bit of the square one step away, or empty when off the board.
pub open spec fn dir_bit(sq: int, d: Direction) -> u32 {
    if step_in_bounds(sq, d) {
        1u32 << (step_sq(sq, d) as u32)
    } else {
        0u32
    }
}

/// Squares a piece attacks from `sq` in a single step, bounded by the edges.
pub open spec fn adj_attack_bb(sq: int, p: Piece) -> u32 {
    (if p.spec_has_dir(Direction::N) {
        dir_bit(sq, Direction::N)
    } else {
        0u32
    }) | (if p.spec_has_dir(Direction::NE) {
        dir_bit(sq, Direction::NE)
    } else {
        0u32
    }) | (if p.spec_has_dir(Direction::E) {
        dir_bit(sq, Direction::E)
    } else {
        0u32
    }) | (if p.spec_has_dir(Direction::SE) {
        dir_bit(sq, Direction::SE)
    } else {
        0u32
    }) | (if p.spec_has_dir(Direction::S) {
        dir_bit(sq, Direction::S)
    } else {
        0u32
    }) | (if p.spec_has_dir(Direction::SW) {
        dir_bit(sq, Direction::SW)
    } else {
        0u32
    }) | (if p.spec_has_dir(Direction::W) {
        dir_bit(sq, Direction::W)
    } else {
        0u32
    }) | (if p.spec_has_dir(Direction::NW) {
        dir_bit(sq, Direction::NW)
    } else {
        0u32
    })
}

/// Squares reachable by sliding from `sq` in direction `d` over occupancy
/// `occ`, for at most `fuel` steps. The first occupied square is included
/// and stops the slide.
pub open spec fn ray_bb(sq: int, d: Direction, occ: u32, fuel: nat) -> u32
    decreases fuel,
{
    if fuel == 0 || !step_in_bounds(sq, d) {
        0u32
    } else {
        let t = step_sq(sq, d);
        if bb_has(occ, t as u32) {
            1u32 << (t as u32)
        } else {
            (1u32 << (t as u32)) | ray_bb(t, d, occ, (fuel - 1) as nat)
        }
    }
}

/// Diagonal sliding attacks of a bishop standing on `sq`.
pub open spec fn bishop_attack_bb(sq: int, occ: u32) -> u32 {
    ray_bb(sq, Direction::NE, occ, 4) | ray_bb(sq, Direction::SE, occ, 4) | ray_bb(
        sq,
        Direction::SW,
        occ,
        4,
    ) | ray_bb(sq, Direction::NW, occ, 4)
}

/// Rank and file sliding attacks of a rook standing on `sq`.
pub open spec fn rook_attack_bb(sq: int, occ: u32) -> u32 {
    ray_bb(sq, Direction::N, occ, 4) | ray_bb(sq, Direction::E, occ, 4) | ray_bb(
        sq,
        Direction::S,
        occ,
        4,
    ) | ray_bb(sq, Direction::W, occ, 4)
}

/// Number of set bits among the low `n` bits.
pub open spec fn bb_count_upto(bb: u32, n: int) -> int
    decreases n,
{
    if n <= 0 {
        0
    } else {
        bb_count_upto(bb, n - 1) + if bb_has(bb, (n - 1) as u32) {
            1int
        } else {
            0int
        }
    }
}

/// Number of set bits of a word.
pub open spec fn bb_count(bb: u32) -> int {
    bb_count_upto(bb, 32)
}

pub proof fn lemma_bb_or(a: u32, b: u32, i: u32)
    by (bit_vector)
    requires
        i < 32,
    ensures
        bb_has(a | b, i) <==> (bb_has(a, i) || bb_has(b, i)),
{
}

pub proof fn lemma_bb_and(a: u32, b: u32, i: u32)
    by (bit_vector)
    requires
        i < 32,
    ensures
        bb_has(a & b, i) <==> (bb_has(a, i) && bb_has(b, i)),
{
}

pub proof fn lemma_bb_andnot(a: u32, b: u32, i: u32)
    by (bit_vector)
    requires
        i < 32,
    ensures
        bb_has(a & !b, i) <==> (bb_has(a, i) && !bb_has(b, i)),
{
}

pub proof fn lemma_bb_xor(a: u32, b: u32, i: u32)
    by (bit_vector)
    requires
        i < 32,
    ensures
        bb_has(a ^ b, i) <==> (bb_has(a, i) != bb_has(b, i)),
{
}

pub proof fn lemma_bb_single(j: u32, i: u32)
    by (bit_vector)
    requires
        i < 32,
        j < 32,
    ensures
        bb_has(1u32 << j, i) <==> i == j,
{
}

pub proof fn lemma_bb_zero(i: u32)
    by (bit_vector)
    requires
        i < 32,
    ensures
        !bb_has(0u32, i),
{
}

/// A word whose bits all lie on the board has no bit at or past 25.
pub proof fn lemma_bb_fits_has(bb: u32, i: u32)
    by (bit_vector)
    requires
        bb_fits(bb),
        25 <= i < 32,
    ensures
        !bb_has(bb, i),
{
}

pub proof fn lemma_bb_fits_or(a: u32, b: u32)
    by (bit_vector)
    requires
        bb_fits(a),
        bb_fits(b),
    ensures
        bb_fits(a | b),
        bb_fits(a & b),
        bb_fits(a ^ b),
{
}

pub proof fn lemma_bb_fits_single(t: u32)
    by (bit_vector)
    requires
        t < 25,
    ensures
        bb_fits(1u32 << t),
        bb_fits(0u32),
{
}

/// Clearing a set bit shrinks the word and clears exactly that bit.
pub proof fn lemma_bb_clear(bb: u32, i: u32)
    by (bit_vector)
    requires
        i < 32,
        bb_has(bb, i),
    ensures
        (bb ^ (1u32 << i)) < bb,
        forall|j: u32| j < 32 ==> (bb_has(bb ^ (1u32 << i), j) <==> (bb_has(bb, j) && j != i)),
{
}

/// A word with a set bit is not empty.
pub proof fn lemma_bb_nonzero(a: u32, i: u32)
    by (bit_vector)
    requires
        i < 32,
        bb_has(a, i),
    ensures
        a != 0,
{
}

/// Setting a clear bit and clearing it again restores the word; on a clear
/// bit, setting and toggling agree.
pub proof fn lemma_bb_or_xor_cancel(a: u32, t: u32)
    by (bit_vector)
    requires
        t < 32,
        !bb_has(a, t),
    ensures
        ((a | (1u32 << t)) ^ (1u32 << t)) == a,
        (a | (1u32 << t)) == (a ^ (1u32 << t)),
{
}

/// Toggling a set bit and setting it again restores the word.
pub proof fn lemma_bb_xor_or_cancel(a: u32, t: u32)
    by (bit_vector)
    requires
        t < 32,
        bb_has(a, t),
    ensures
        ((a ^ (1u32 << t)) | (1u32 << t)) == a,
{
}

/// Toggling the same bit twice restores the word.
pub proof fn lemma_bb_xor_xor_cancel(a: u32, t: u32)
    by (bit_vector)
    ensures
        ((a ^ (1u32 << t)) ^ (1u32 << t)) == a,
{
}

/// Round trip of a board move on one bitboard: set the destination bit,
/// clear the source bit, then undo both.
pub proof fn lemma_bb_move_cancel(a: u32, t: u32, f: u32)
    by (bit_vector)
    requires
        t < 32,
        f < 32,
        t != f,
        !bb_has(a, t),
        bb_has(a, f),
    ensures
        (((((a | (1u32 << t)) ^ (1u32 << f)) ^ (1u32 << t))) | (1u32 << f)) == a,
        bb_has((a | (1u32 << t)) ^ (1u32 << f), t),
{
}

/// Setting or toggling a low bit keeps a five-bit mask within five bits.
pub proof fn lemma_pf_fits(a: u32, f: u32)
    by (bit_vector)
    requires
        a >> 5u32 == 0,
        f < 5,
    ensures
        (a | (1u32 << f)) >> 5u32 == 0,
        (a ^ (1u32 << f)) >> 5u32 == 0,
        0u32 >> 5u32 == 0,
{
}

/// Bridge between the shift form used by the standard library's
/// trailing-zeros specification and the mask form used here.
pub proof fn lemma_bb_shift_form(bb: u32, i: u32)
    by (bit_vector)
    requires
        i < 32,
    ensures
        ((bb >> i) & 1u32 == 1u32) <==> bb_has(bb, i),
{
}

/// The lowest set bit of a non-empty word.
pub proof fn lemma_lowest_bit(bb: u32)
    requires
        bb != 0,
    ensures
        vstd::std_specs::bits::u32_trailing_zeros(bb) < 32,
        bb_has(bb, vstd::std_specs::bits::u32_trailing_zeros(bb)),
        forall|j: u32|
            j < vstd::std_specs::bits::u32_trailing_zeros(bb) ==> !bb_has(bb, j),
        bb_fits(bb) ==> vstd::std_specs::bits::u32_trailing_zeros(bb) < 25,
{
    vstd::std_specs::bits::axiom_u32_trailing_zeros(bb);
    let tz = vstd::std_specs::bits::u32_trailing_zeros(bb);
    lemma_bb_shift_form(bb, tz);
    assert forall|j: u32| j < tz implies !bb_has(bb, j) by {
        lemma_bb_shift_form(bb, j);
    }
    if bb_fits(bb) && tz >= 25 {
        lemma_bb_fits_has(bb, tz);
    }
}

/// A bit set in a subset is set in the superset.
pub proof fn lemma_bb_subset_has(a: u32, b: u32, i: u32)
    by (bit_vector)
    requires
        a & !b == 0,
        i < 32,
        bb_has(a, i),
    ensures
        bb_has(b, i),
{
}

/// Clearing a bit keeps a word inside its superset.
pub proof fn lemma_bb_clear_subset(a: u32, b: u32, i: u32)
    by (bit_vector)
    requires
        a & !b == 0,
        i < 32,
    ensures
        (a ^ (1u32 << i)) & (1u32 << i) == 0 ==> ((a ^ (1u32 << i)) & !b) == 0,
        bb_has(a, i) ==> ((a ^ (1u32 << i)) & !b) == 0,
{
}

/// A subset of an on-board word is on the board; intersections stay inside
/// both sides.
pub proof fn lemma_bb_subset_fits(a: u32, b: u32)
    by (bit_vector)
    requires
        bb_fits(b),
        a & !b == 0,
    ensures
        bb_fits(a),
{
}

/// An intersection is a subset of either operand; so is a masked word.
pub proof fn lemma_bb_and_subset(a: u32, b: u32)
    by (bit_vector)
    ensures
        (a & b) & !a == 0,
        (a & b) & !b == 0,
        (a & !b) & !a == 0,
        a & !a == 0,
{
}

/// A word is empty exactly when both halves of a union are.
pub proof fn lemma_bb_or_zero(a: u32, b: u32)
    by (bit_vector)
    ensures
        (a | b) == 0 <==> (a == 0 && b == 0),
{
}

/// Row, column and range of the square one step away.
pub proof fn lemma_step_rowcol(sq: int, d: Direction)
    requires
        0 <= sq < 25,
        step_in_bounds(sq, d),
    ensures
        0 <= step_sq(sq, d) < 25,
        spec_row(step_sq(sq, d)) == spec_row(sq) + d.spec_dy(),
        spec_col(step_sq(sq, d)) == spec_col(sq) + d.spec_dx(),
        step_sq(sq, d) != sq,
{
    let y = spec_row(sq);
    let x = spec_col(sq);
    assert(sq == 5 * y + x);
    let t = step_sq(sq, d);
    assert(t == 5 * (y + d.spec_dy()) + (x + d.spec_dx()));
    assert(spec_row(t) == y + d.spec_dy() && spec_col(t) == x + d.spec_dx()) by (nonlinear_arith)
        requires
            t == 5 * (y + d.spec_dy()) + (x + d.spec_dx()),
            0 <= y + d.spec_dy() < 5,
            0 <= x + d.spec_dx() < 5,
            spec_row(t) == t / 5,
            spec_col(t) == t % 5,
    ;
}

/// A bit of the single-step attack set names a square one step away in a
/// direction the piece moves.
pub proof fn lemma_adj_attack_char(sq: int, p: Piece, t: u32)
    requires
        0 <= sq < 25,
        t < 32,
    ensures
        bb_has(adj_attack_bb(sq, p), t) <==> exists|d: Direction|
            p.spec_has_dir(d) && step_in_bounds(sq, d) && step_sq(sq, d) == t,
{
    let dirs = [
        Direction::N,
        Direction::NE,
        Direction::E,
        Direction::SE,
        Direction::S,
        Direction::SW,
        Direction::W,
        Direction::NW,
    ];
    let t0 = if p.spec_has_dir(Direction::N) {
        dir_bit(sq, Direction::N)
    } else {
        0u32
    };
    let t1 = if p.spec_has_dir(Direction::NE) {
        dir_bit(sq, Direction::NE)
    } else {
        0u32
    };
    let t2 = if p.spec_has_dir(Direction::E) {
        dir_bit(sq, Direction::E)
    } else {
        0u32
    };
    let t3 = if p.spec_has_dir(Direction::SE) {
        dir_bit(sq, Direction::SE)
    } else {
        0u32
    };
    let t4 = if p.spec_has_dir(Direction::S) {
        dir_bit(sq, Direction::S)
    } else {
        0u32
    };
    let t5 = if p.spec_has_dir(Direction::SW) {
        dir_bit(sq, Direction::SW)
    } else {
        0u32
    };
    let t6 = if p.spec_has_dir(Direction::W) {
        dir_bit(sq, Direction::W)
    } else {
        0u32
    };
    let t7 = if p.spec_has_dir(Direction::NW) {
        dir_bit(sq, Direction::NW)
    } else {
        0u32
    };
    lemma_bb_or(t0, t1, t);
    lemma_bb_or(t0 | t1, t2, t);
    lemma_bb_or(t0 | t1 | t2, t3, t);
    lemma_bb_or(t0 | t1 | t2 | t3, t4, t);
    lemma_bb_or(t0 | t1 | t2 | t3 | t4, t5, t);
    lemma_bb_or(t0 | t1 | t2 | t3 | t4 | t5, t6, t);
    lemma_bb_or(t0 | t1 | t2 | t3 | t4 | t5 | t6, t7, t);
    lemma_bb_zero(t);
    assert forall|d: Direction| step_in_bounds(sq, d) implies (bb_has(dir_bit(sq, d), t) <==> t
        == step_sq(sq, d)) by {
        lemma_bb_single(step_sq(sq, d) as u32, t);
    }
}

/// A bit of a sliding ray names a square a positive number of in-bounds
/// steps away.
/// The ray-membership relation: `t` lies `k` in-bounds steps from `sq`.
pub open spec fn on_ray(sq: int, d: Direction, t: int, k: int) -> bool {
    &&& spec_row(t) == spec_row(sq) + k * d.spec_dy()
    &&& spec_col(t) == spec_col(sq) + k * d.spec_dx()
}

pub proof fn lemma_ray_char(sq: int, d: Direction, occ: u32, fuel: nat, t: u32)
    requires
        0 <= sq < 25,
        t < 32,
        bb_has(ray_bb(sq, d, occ, fuel), t),
    ensures
        exists|k: int| 1 <= k <= fuel && #[trigger] on_ray(sq, d, t as int, k) && t < 25,
    decreases fuel,
{
    lemma_bb_zero(t);
    assert(fuel > 0 && step_in_bounds(sq, d));
    let s1 = step_sq(sq, d);
    lemma_step_rowcol(sq, d);
    lemma_bb_single(s1 as u32, t);
    if bb_has(occ, s1 as u32) || t == s1 {
        assert(t == s1);
        assert(1 * d.spec_dy() == d.spec_dy() && 1 * d.spec_dx() == d.spec_dx());
        assert(on_ray(sq, d, t as int, 1) && 1 <= 1 <= fuel && t < 25);
    } else {
        lemma_bb_or(1u32 << (s1 as u32), ray_bb(s1, d, occ, (fuel - 1) as nat), t);
        lemma_ray_char(s1, d, occ, (fuel - 1) as nat, t);
        let k0 = choose|k: int| 1 <= k <= fuel - 1 && #[trigger] on_ray(s1, d, t as int, k) && t < 25;
        assert((k0 + 1) * d.spec_dy() == k0 * d.spec_dy() + d.spec_dy()) by (nonlinear_arith);
        assert((k0 + 1) * d.spec_dx() == k0 * d.spec_dx() + d.spec_dx()) by (nonlinear_arith);
        assert(on_ray(sq, d, t as int, k0 + 1) && 1 <= k0 + 1 <= fuel && t < 25);
    }
}

/// Board square one step from `square` in direction `d`, if any.
pub fn step_to(square: usize, d: Direction) -> (r: Option<usize>)
    requires
        square < 25,
    ensures
        r is Some <==> step_in_bounds(square as int, d),
        r is Some ==> r->0 == step_sq(square as int, d) && r->0 < 25,
{
    let y = square / 5;
    let x = square % 5;
    match d {
        Direction::N => if y > 0 {
            Some(square - 5)
        } else {
            None
        },
        Direction::NE => if y > 0 && x < 4 {
            Some(square - 4)
        } else {
            None
        },
        Direction::E => if x < 4 {
            Some(square + 1)
        } else {
            None
        },
        Direction::SE => if y < 4 && x < 4 {
            Some(square + 6)
        } else {
            None
        },
        Direction::S => if y < 4 {
            Some(square + 5)
        } else {
            None
        },
        Direction::SW => if y < 4 && x > 0 {
            Some(square + 4)
        } else {
            None
        },
        Direction::W => if x > 0 {
            Some(square - 1)
        } else {
            None
        },
        Direction::NW => if y > 0 && x > 0 {
            Some(square - 6)
        } else {
            None
        },
    }
}

fn dir_term(square: usize, d: Direction) -> (r: u32)
    requires
        square < 25,
    ensures
        r == dir_bit(square as int, d),
        bb_fits(r),
{
    let r = match step_to(square, d) {
        Some(t) => 1u32 << (t as u32),
        None => 0u32,
    };
    proof {
        if step_in_bounds(square as int, d) {
            lemma_bb_fits_single(step_sq(square as int, d) as u32);
        } else {
            lemma_bb_fits_single(0);
        }
    }
    r
}

/// Squares the given piece attacks from `square` in a single step.
pub fn adjacent_attack(square: usize, piece: Piece) -> (r: Bitboard)
    requires
        square < 25,
    ensures
        r == adj_attack_bb(square as int, piece),
        bb_fits(r),
{
    let t0 = if piece.has_dir(Direction::N) {
        dir_term(square, Direction::N)
    } else {
        0u32
    };
    let t1 = if piece.has_dir(Direction::NE) {
        dir_term(square, Direction::NE)
    } else {
        0u32
    };
    let t2 = if piece.has_dir(Direction::E) {
        dir_term(square, Direction::E)
    } else {
        0u32
    };
    let t3 = if piece.has_dir(Direction::SE) {
        dir_term(square, Direction::SE)
    } else {
        0u32
    };
    let t4 = if piece.has_dir(Direction::S) {
        dir_term(square, Direction::S)
    } else {
        0u32
    };
    let t5 = if piece.has_dir(Direction::SW) {
        dir_term(square, Direction::SW)
    } else {
        0u32
    };
    let t6 = if piece.has_dir(Direction::W) {
        dir_term(square, Direction::W)
    } else {
        0u32
    };
    let t7 = if piece.has_dir(Direction::NW) {
        dir_term(square, Direction::NW)
    } else {
        0u32
    };
    proof {
        lemma_bb_fits_single(0);
        lemma_bb_fits_or(t0, t1);
        lemma_bb_fits_or(t0 | t1, t2);
        lemma_bb_fits_or(t0 | t1 | t2, t3);
        lemma_bb_fits_or(t0 | t1 | t2 | t3, t4);
        lemma_bb_fits_or(t0 | t1 | t2 | t3 | t4, t5);
        lemma_bb_fits_or(t0 | t1 | t2 | t3 | t4 | t5, t6);
        lemma_bb_fits_or(t0 | t1 | t2 | t3 | t4 | t5 | t6, t7);
    }
    t0 | t1 | t2 | t3 | t4 | t5 | t6 | t7
}

fn ray_attack_step(square: usize, d: Direction, occ: u32, fuel: u32) -> (r: u32)
    requires
        square < 25,
        fuel <= 4,
    ensures
        r == ray_bb(square as int, d, occ, fuel as nat),
        bb_fits(r),
    decreases fuel,
{
    if fuel == 0 {
        proof {
            lemma_bb_fits_single(0);
        }
        return 0;
    }
    match step_to(square, d) {
        None => {
            proof {
                lemma_bb_fits_single(0);
            }
            0
        },
        Some(t) => {
            let bit = 1u32 << (t as u32);
            proof {
                lemma_bb_fits_single(t as u32);
            }
            if occ & bit != 0 {
                bit
            } else {
                let rest = ray_attack_step(t, d, occ, fuel - 1);
                proof {
                    lemma_bb_fits_or(bit, rest);
                }
                bit | rest
            }
        },
    }
}

/// Diagonal sliding attacks from `square` over the occupancy `player_bb`.
pub fn bishop_attack(square: usize, player_bb: Bitboard) -> (r: Bitboard)
    requires
        square < 25,
    ensures
        r == bishop_attack_bb(square as int, player_bb),
        bb_fits(r),
{
    let a = ray_attack_step(square, Direction::NE, player_bb, 4);
    let b = ray_attack_step(square, Direction::SE, player_bb, 4);
    let c = ray_attack_step(square, Direction::SW, player_bb, 4);
    let e = ray_attack_step(square, Direction::NW, player_bb, 4);
    proof {
        lemma_bb_fits_or(a, b);
        lemma_bb_fits_or(a | b, c);
        lemma_bb_fits_or(a | b | c, e);
    }
    a | b | c | e
}

/// Rank and file sliding attacks from `square` over the occupancy `player_bb`.
pub fn rook_attack(square: usize, player_bb: Bitboard) -> (r: Bitboard)
    requires
        square < 25,
    ensures
        r == rook_attack_bb(square as int, player_bb),
        bb_fits(r),
{
    let a = ray_attack_step(square, Direction::N, player_bb, 4);
    let b = ray_attack_step(square, Direction::E, player_bb, 4);
    let c = ray_attack_step(square, Direction::S, player_bb, 4);
    let e = ray_attack_step(square, Direction::W, player_bb, 4);
    proof {
        lemma_bb_fits_or(a, b);
        lemma_bb_fits_or(a | b, c);
        lemma_bb_fits_or(a | b | c, e);
    }
    a | b | c | e
}

/// Index of the lowest set bit, or 32 when the word is empty.
pub fn get_square(bb: Bitboard) -> (r: usize)
    ensures
        r == vstd::std_specs::bits::u32_trailing_zeros(bb),
        bb != 0 ==> r < 32 && bb_has(bb, r as u32) && (forall|j: u32|
            j < r ==> !bb_has(bb, j)),
        bb != 0 && bb_fits(bb) ==> r < 25,
        bb == 0 ==> r == 32,
{
    proof {
        if bb != 0 {
            lemma_lowest_bit(bb);
        } else {
            vstd::std_specs::bits::axiom_u32_trailing_zeros(bb);
        }
    }
    bb.trailing_zeros() as usize
}

/// Number of set bits.
pub fn get_counts(bb: Bitboard) -> (r: u32)
    ensures
        r == bb_count(bb),
{
    let mut r: u32 = 0;
    let mut i: u32 = 0;
    while i < 32
        invariant
            i <= 32,
            r == bb_count_upto(bb, i as int),
            r <= i,
        decreases 32 - i,
    {
        if bb & (1u32 << i) != 0 {
            r = r + 1;
        }
        i = i + 1;
    }
    r
}

} // verus!
