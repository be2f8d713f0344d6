//! The Zobrist table: one 64-bit value per square and piece, drawn from a
//! fixed-seed generator with the low bit cleared so that the hash's low bit
//! is free to carry the side to move.

use vstd::prelude::*;

use crate::types::Color;
use crate::types::Piece;

verus! {

/// A 25-by-21 table of even 64-bit values, indexed by square and piece index.
pub struct Zobrist {
    pub table: Vec<Vec<u64>>,
}

/// Shape and parity of a Zobrist table: 25 rows of 21 entries, all even.
pub open spec fn table_wf(t: Seq<Seq<u64>>) -> bool {
    &&& t.len() == 25
    &&& forall|i: int| 0 <= i < 25 ==> (#[trigger] t[i]).len() == 21
    &&& forall|i: int, j: int| 0 <= i < 25 && 0 <= j < 21 ==> (#[trigger] t[i][j]) & 1 == 0
}

/// Relies on rand::rngs::StdRng (a seedable pseudo-random generator).
#[verifier::external_type_specification]
#[verifier::external_body]
pub struct ExStdRng(rand::rngs::StdRng);

/// Relies on rand::SeedableRng::from_seed: builds the generator from a fixed
/// all-zero seed, so every table in one process holds the same values.
#[verifier::external_body]
fn seeded_rng() -> rand::rngs::StdRng {
    <rand::rngs::StdRng as rand::SeedableRng>::from_seed([0; 32])
}

/// Relies on rand::Rng::gen: draws the generator's next 64 bits. Nothing is
/// assumed of the value.
#[verifier::external_body]
fn next_u64(rng: &mut rand::rngs::StdRng) -> u64 {
    rand::Rng::gen(rng)
}

proof fn lemma_shl1_even(v: u64)
    by (bit_vector)
    ensures
        (v << 1u64) & 1 == 0,
{
}

impl Zobrist {
    /// The table as a sequence of rows.
    pub open spec fn spec_table(&self) -> Seq<Seq<u64>> {
        Seq::new(self.table@.len() as nat, |i: int| self.table@[i]@)
    }

    /// Fill the table from the fixed-seed generator, shifting each draw left
    /// by one so that every entry is even.
    pub fn new() -> (r: Zobrist)
        ensures
            table_wf(r.spec_table()),
    {
        let mut rng = seeded_rng();
        let mut table: Vec<Vec<u64>> = Vec::new();
        let mut i: usize = 0;
        while i < 25
            invariant
                i <= 25,
                table@.len() == i,
                forall|a: int| 0 <= a < i ==> (#[trigger] table@[a])@.len() == 21,
                forall|a: int, b: int|
                    0 <= a < i && 0 <= b < 21 ==> (#[trigger] table@[a]@[b]) & 1 == 0,
            decreases 25 - i,
        {
            let mut row: Vec<u64> = Vec::new();
            let mut j: usize = 0;
            while j < 21
                invariant
                    j <= 21,
                    row@.len() == j,
                    forall|b: int| 0 <= b < j ==> (#[trigger] row@[b]) & 1 == 0,
                decreases 21 - j,
            {
                let v = next_u64(&mut rng);
                proof {
                    lemma_shl1_even(v);
                }
                row.push(v << 1u64);
                j = j + 1;
            }
            table.push(row);
            i = i + 1;
        }
        let r = Zobrist { table };
        assert forall|a: int| 0 <= a < 25 implies (#[trigger] r.spec_table()[a]).len() == 21 by {
            assert(r.spec_table()[a] == r.table@[a]@);
        }
        assert forall|a: int, b: int| 0 <= a < 25 && 0 <= b < 21 implies (#[trigger] r.spec_table(
        )[a][b]) & 1 == 0 by {
            assert(r.spec_table()[a] == r.table@[a]@);
        }
        r
    }

    /// A copy holding the same values.
    pub fn duplicate(&self) -> (r: Zobrist)
        ensures
            r.spec_table() == self.spec_table(),
    {
        let mut table: Vec<Vec<u64>> = Vec::new();
        let n = self.table.len();
        let mut i: usize = 0;
        while i < n
            invariant
                i <= n,
                n == self.table@.len(),
                table@.len() == i,
                forall|a: int| 0 <= a < i ==> (#[trigger] table@[a])@ == self.table@[a]@,
            decreases n - i,
        {
            let mut row: Vec<u64> = Vec::new();
            let k = self.table[i].len();
            let mut j: usize = 0;
            while j < k
                invariant
                    j <= k,
                    i < self.table@.len(),
                    k == self.table@[i as int]@.len(),
                    row@.len() == j,
                    forall|b: int| 0 <= b < j ==> row@[b] == self.table@[i as int]@[b],
                decreases k - j,
            {
                row.push(self.table[i][j]);
                j = j + 1;
            }
            assert(row@ =~= self.table@[i as int]@);
            table.push(row);
            i = i + 1;
        }
        let r = Zobrist { table };
        assert(r.spec_table() =~= self.spec_table());
        r
    }

    /// Table entry for a piece standing on a square.
    pub fn entry(&self, square: usize, piece: Piece) -> (r: u64)
        requires
            table_wf(self.spec_table()),
            square < 25,
        ensures
            r == self.spec_table()[square as int][piece.spec_index() as int],
    {
        proof {
            assert(self.spec_table()[square as int] == self.table@[square as int]@);
        }
        self.table[square][piece.index()]
    }
}

/// Hash contribution of one square: the table entry under the piece standing
/// there, or zero for an empty square.
pub open spec fn square_term(board: Seq<Piece>, t: Seq<Seq<u64>>, sq: int) -> u64 {
    if board[sq] != Piece::NoPiece {
        t[sq][board[sq].spec_index() as int]
    } else {
        0u64
    }
}

/// XOR of the hash contributions of the first `n` squares.
pub open spec fn xor_upto(board: Seq<Piece>, t: Seq<Seq<u64>>, n: int) -> u64
    decreases n,
{
    if n <= 0 {
        0u64
    } else {
        xor_upto(board, t, n - 1) ^ square_term(board, t, n - 1)
    }
}

/// The Zobrist hash of a position: the XOR over all occupied squares, with
/// the low bit set exactly when Black is to move.
pub open spec fn hash_of(board: Seq<Piece>, stm: Color, t: Seq<Seq<u64>>) -> u64 {
    xor_upto(board, t, 25) ^ (if stm == Color::Black {
        1u64
    } else {
        0u64
    })
}

pub proof fn lemma_xor_zero(a: u64)
    by (bit_vector)
    ensures
        a ^ 0u64 == a,
        0u64 ^ a == a,
        a ^ a == 0u64,
{
}

pub proof fn lemma_xor_even(a: u64, b: u64)
    by (bit_vector)
    requires
        a & 1 == 0,
        b & 1 == 0,
    ensures
        (a ^ b) & 1 == 0,
{
}

pub proof fn lemma_or1_is_xor1(h: u64)
    by (bit_vector)
    requires
        h & 1 == 0,
    ensures
        (h | 1u64) == (h ^ 1u64),
        (h ^ 1u64) & 1 == 1,
{
}

pub proof fn lemma_xor_low_bit(x: u64, s: u64)
    by (bit_vector)
    requires
        x & 1 == 0,
        s == 0u64 || s == 1u64,
    ensures
        (x ^ s) & 1 == s,
{
}

proof fn lemma_xor_shuffle4(a: u64, x: u64, y: u64, s: u64)
    by (bit_vector)
    ensures
        ((a ^ x) ^ y) ^ s == ((a ^ s) ^ x) ^ y,
{
}

proof fn lemma_xor_cancel_mid(a: u64, x: u64, y: u64)
    by (bit_vector)
    ensures
        ((a ^ x) ^ x) ^ y == a ^ y,
        (a ^ x) ^ y == (a ^ y) ^ x,
{
}

/// The XOR over an empty board is zero.
pub proof fn lemma_xor_upto_empty(board: Seq<Piece>, t: Seq<Seq<u64>>, n: int)
    requires
        forall|i: int| 0 <= i < board.len() ==> #[trigger] board[i] == Piece::NoPiece,
        n <= board.len(),
    ensures
        xor_upto(board, t, n) == 0u64,
    decreases n,
{
    if n > 0 {
        lemma_xor_upto_empty(board, t, n - 1);
        lemma_xor_zero(0u64);
    }
}

/// Law: the low bit of the hash is set exactly when Black is to move.
pub proof fn lemma_hash_turn_bit(board: Seq<Piece>, stm: Color, t: Seq<Seq<u64>>)
    requires
        table_wf(t),
        board.len() == 25,
    ensures
        hash_of(board, stm, t) & 1 == (if stm == Color::Black {
            1u64
        } else {
            0u64
        }),
{
    lemma_xor_upto_even(board, t, 25);
    lemma_xor_low_bit(
        xor_upto(board, t, 25),
        if stm == Color::Black {
            1u64
        } else {
            0u64
        },
    );
    if stm != Color::Black {
        lemma_xor_zero(xor_upto(board, t, 25));
    }
}

/// The XOR over all squares is even when the table is.
pub proof fn lemma_xor_upto_even(board: Seq<Piece>, t: Seq<Seq<u64>>, n: int)
    requires
        table_wf(t),
        board.len() == 25,
        n <= 25,
    ensures
        xor_upto(board, t, n) & 1 == 0,
    decreases n,
{
    if n <= 0 {
        assert(0u64 & 1 == 0) by (bit_vector);
    } else {
        lemma_xor_upto_even(board, t, n - 1);
        if 0 <= n - 1 < 25 && board[n - 1] != Piece::NoPiece {
            assert(0 <= board[n - 1].spec_index() < 21);
        } else {
            assert(0u64 & 1 == 0) by (bit_vector);
        }
        lemma_xor_even(xor_upto(board, t, n - 1), square_term(board, t, n - 1));
    }
}

/// Changing one square changes the XOR by that square's old and new terms.
pub proof fn lemma_xor_upto_update(board: Seq<Piece>, t: Seq<Seq<u64>>, sq: int, p: Piece, n: int)
    requires
        board.len() == 25,
        0 <= sq < 25,
        n <= 25,
    ensures
        n <= sq ==> xor_upto(board.update(sq, p), t, n) == xor_upto(board, t, n),
        n > sq ==> xor_upto(board.update(sq, p), t, n) == (xor_upto(board, t, n) ^ square_term(
            board,
            t,
            sq,
        )) ^ square_term(board.update(sq, p), t, sq),
    decreases n,
{
    let b2 = board.update(sq, p);
    if n <= 0 {
    } else {
        lemma_xor_upto_update(board, t, sq, p, n - 1);
        let prev = xor_upto(board, t, n - 1);
        let x = square_term(board, t, sq);
        let y = square_term(b2, t, sq);
        if n - 1 < sq {
            assert(square_term(b2, t, n - 1) == square_term(board, t, n - 1));
        } else if n - 1 == sq {
            assert(xor_upto(b2, t, n - 1) == prev);
            assert(xor_upto(b2, t, n) == prev ^ y);
            assert(xor_upto(board, t, n) == prev ^ x);
            lemma_xor_cancel_mid(prev, x, y);
        } else {
            assert(square_term(b2, t, n - 1) == square_term(board, t, n - 1));
            let s = square_term(board, t, n - 1);
            assert(xor_upto(b2, t, n - 1) == (xor_upto(board, t, n - 1) ^ x) ^ y);
            lemma_xor_shuffle4(xor_upto(board, t, n - 1), x, y, s);
        }
    }
}

} // verus!
