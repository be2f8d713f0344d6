//! The move value type with its SFEN and CSA textual encodings, and the
//! square relation used to recover a direction and distance from two squares.

use vstd::prelude::*;

use crate::bitboard::spec_col;
use crate::bitboard::spec_row;
use crate::text::push_char;
use crate::types::Color;
use crate::types::Direction;
use crate::types::Piece;
use crate::types::PieceType;

verus! {

/// A board move or a drop. A drop is marked by `amount == 0`; the reserved
/// null move is marked by an empty `piece` and doubles as a resign signal.
#[derive(Copy, Clone, Debug, PartialEq, Eq, Structural)]
pub struct Move {
    pub piece: Piece,
    /// Source square of a board move.
    pub from: usize,
    /// Direction from source to destination of a board move.
    pub direction: Direction,
    /// Number of steps of a board move; zero marks a drop.
    pub amount: usize,
    /// Destination square.
    pub to: usize,
    /// Whether the moving piece promotes on arrival.
    pub promotion: bool,
    /// The piece that stood on the destination, or the empty marker.
    pub capture_piece: Piece,
}

impl Move {
    /// Structural bounds under which the textual encodings are defined.
    pub open spec fn spec_wf(self) -> bool {
        self.piece != Piece::NoPiece ==> {
            &&& self.to < 25
            &&& (self.amount == 0 ==> self.piece.spec_get_piece_type().spec_hand_index() < 5)
            &&& (self.amount != 0 ==> self.from < 25)
        }
    }

    pub open spec fn spec_board_move(
        piece: Piece,
        from: usize,
        direction: Direction,
        amount: usize,
        to: usize,
        promotion: bool,
        capture_piece: Piece,
    ) -> Move {
        Move { piece, from, direction, amount, to, promotion, capture_piece }
    }

    /// A move of a piece already on the board.
    #[verifier::when_used_as_spec(spec_board_move)]
    pub fn board_move(
        piece: Piece,
        from: usize,
        direction: Direction,
        amount: usize,
        to: usize,
        promotion: bool,
        capture_piece: Piece,
    ) -> (r: Move)
        ensures
            r == Move::spec_board_move(piece, from, direction, amount, to, promotion, capture_piece),
    {
        Move { piece, from, direction, amount, to, promotion, capture_piece }
    }

    pub open spec fn spec_hand_move(piece: Piece, to: usize) -> Move {
        Move {
            piece,
            from: 0,
            direction: Direction::N,
            amount: 0,
            to,
            promotion: false,
            capture_piece: Piece::NoPiece,
        }
    }

    /// A drop of a hand piece; the direction slot carries a placeholder.
    #[verifier::when_used_as_spec(spec_hand_move)]
    pub fn hand_move(piece: Piece, to: usize) -> (r: Move)
        ensures
            r == Move::spec_hand_move(piece, to),
    {
        Move {
            piece,
            from: 0,
            direction: Direction::N,
            amount: 0,
            to,
            promotion: false,
            capture_piece: Piece::NoPiece,
        }
    }

    pub open spec fn spec_null_move() -> Move {
        Move {
            piece: Piece::NoPiece,
            from: 25,
            direction: Direction::N,
            amount: 0,
            to: 0,
            promotion: false,
            capture_piece: Piece::NoPiece,
        }
    }

    /// The reserved sentinel move.
    #[verifier::when_used_as_spec(spec_null_move)]
    pub fn null_move() -> (r: Move)
        ensures
            r == Move::spec_null_move(),
    {
        Move {
            piece: Piece::NoPiece,
            from: 25,
            direction: Direction::N,
            amount: 0,
            to: 0,
            promotion: false,
            capture_piece: Piece::NoPiece,
        }
    }

    /// True exactly for moves whose piece slot is empty.
    pub fn is_null_move(&self) -> (r: bool)
        ensures
            r == (self.piece == Piece::NoPiece),
    {
        self.piece == Piece::NoPiece
    }

    pub fn get_from(&self) -> (r: usize)
        ensures
            r == self.from,
    {
        self.from
    }

    pub fn get_to(&self) -> (r: usize)
        ensures
            r == self.to,
    {
        self.to
    }

    pub fn get_amount(&self) -> (r: usize)
        ensures
            r == self.amount,
    {
        self.amount
    }

    pub fn get_promotion(&self) -> (r: bool)
        ensures
            r == self.promotion,
    {
        self.promotion
    }

    pub fn get_direction(&self) -> (r: usize)
        ensures
            r == self.direction.spec_index(),
    {
        self.direction.index()
    }

    /// Hand-array slot of the dropped piece.
    pub fn get_hand_index(&self) -> (r: usize)
        ensures
            r == self.piece.spec_get_piece_type().spec_hand_index(),
    {
        self.piece.get_piece_type().hand_index()
    }

    /// Bounds under which the policy-index mapping is defined: the side is
    /// set, squares are on the board, and a board move has a distance of one
    /// to four steps.
    pub open spec fn spec_policy_wf(self) -> bool {
        &&& (self.piece.spec_get_color() == Color::White || self.piece.spec_get_color()
            == Color::Black)
        &&& self.to < 25
        &&& (self.amount == 0 ==> self.piece.spec_get_piece_type().spec_hand_index() < 5)
        &&& (self.amount != 0 ==> self.from < 25 && 1 <= self.amount <= 4)
    }

    /// Policy channel of this move, before the square key is mixed in:
    /// channels 0 to 31 are non-promoting board moves keyed by direction and
    /// distance, 32 to 63 their promoting forms, 64 to 68 the drops.
    pub open spec fn spec_policy_channel(self) -> int {
        if self.amount == 0 {
            64 + self.piece.spec_get_piece_type().spec_hand_index()
        } else {
            let d = if self.piece.spec_get_color() == Color::White {
                self.direction.spec_index() as int
            } else {
                self.direction.spec_opposite().spec_index() as int
            };
            (if self.promotion {
                32int
            } else {
                0int
            }) + 4 * d + self.amount - 1
        }
    }

    /// Square key of this move: the source of a board move, the target of a
    /// drop, reflected through the board center when Black is moving.
    pub open spec fn spec_policy_square(self) -> int {
        let sq: int = if self.amount == 0 {
            self.to as int
        } else {
            self.from as int
        };
        if self.piece.spec_get_color() == Color::White {
            sq
        } else {
            24 - sq
        }
    }

    pub open spec fn spec_to_policy_index(self) -> int {
        self.spec_policy_channel() * 25 + self.spec_policy_square()
    }

    /// Index of this move in the 69-channel by 25-square policy vector.
    pub fn to_policy_index(&self) -> (r: usize)
        requires
            self.spec_policy_wf(),
        ensures
            r == self.spec_to_policy_index(),
            r < 1725,
    {
        let white = self.piece.get_color() == Color::White;
        if self.amount == 0 {
            let sq = if white {
                self.to
            } else {
                24 - self.to
            };
            (64 + self.piece.get_piece_type().hand_index()) * 25 + sq
        } else {
            let d = if white {
                self.direction.index()
            } else {
                self.direction.opposite().index()
            };
            let base = if self.promotion {
                32
            } else {
                0
            };
            let sq = if white {
                self.from
            } else {
                24 - self.from
            };
            (base + 4 * d + self.amount - 1) * 25 + sq
        }
    }

    /// The SFEN text of this move.
    pub fn sfen(&self) -> (r: String)
        requires
            self.spec_wf(),
        ensures
            r@ == self.spec_sfen(),
    {
        let mut s = String::new();
        if self.piece == Piece::NoPiece {
            push_char(&mut s, 'r');
            push_char(&mut s, 'e');
            push_char(&mut s, 's');
            push_char(&mut s, 'i');
            push_char(&mut s, 'g');
            push_char(&mut s, 'n');
            assert(s@ =~= self.spec_sfen());
            return s;
        }
        if self.amount == 0 {
            push_char(&mut s, hand_piece_char(self.piece.get_piece_type()));
            push_char(&mut s, '*');
            push_char(&mut s, file_char(self.to % 5));
            push_char(&mut s, rank_char(self.to / 5));
            assert(s@ =~= self.spec_sfen());
            s
        } else {
            push_char(&mut s, file_char(self.from % 5));
            push_char(&mut s, rank_char(self.from / 5));
            push_char(&mut s, file_char(self.to % 5));
            push_char(&mut s, rank_char(self.to / 5));
            if self.promotion {
                push_char(&mut s, '+');
            }
            assert(s@ =~= self.spec_sfen());
            s
        }
    }

    /// The character sequence `sfen` produces.
    pub open spec fn spec_sfen(self) -> Seq<char> {
        if self.piece == Piece::NoPiece {
            seq!['r', 'e', 's', 'i', 'g', 'n']
        } else if self.amount == 0 {
            seq![
                spec_hand_piece_char(self.piece.spec_get_piece_type()),
                '*',
            ] + spec_square_sfen(self.to as int)
        } else {
            spec_square_sfen(self.from as int) + spec_square_sfen(self.to as int) + (
            if self.promotion {
                seq!['+']
            } else {
                Seq::<char>::empty()
            })
        }
    }

    /// The CSA text of this move.
    pub fn csa_sfen(&self) -> (r: String)
        requires
            self.spec_wf(),
        ensures
            r@ == self.spec_csa_sfen(),
    {
        let mut s = String::new();
        if self.piece == Piece::NoPiece {
            push_char(&mut s, '%');
            push_char(&mut s, 'T');
            push_char(&mut s, 'O');
            push_char(&mut s, 'R');
            push_char(&mut s, 'Y');
            push_char(&mut s, 'O');
            assert(s@ =~= self.spec_csa_sfen());
            return s;
        }
        if self.amount == 0 {
            push_char(&mut s, '0');
            push_char(&mut s, '0');
            push_char(&mut s, file_char(self.to % 5));
            push_char(&mut s, csa_rank_char(self.to / 5));
            let (a, b) = csa_piece_chars(self.piece.get_piece_type());
            push_char(&mut s, a);
            push_char(&mut s, b);
            assert(s@ =~= self.spec_csa_sfen());
            s
        } else {
            push_char(&mut s, file_char(self.from % 5));
            push_char(&mut s, csa_rank_char(self.from / 5));
            push_char(&mut s, file_char(self.to % 5));
            push_char(&mut s, csa_rank_char(self.to / 5));
            let pt = if self.promotion {
                self.piece.get_piece_type().get_promoted()
            } else {
                self.piece.get_piece_type()
            };
            let (a, b) = csa_piece_chars(pt);
            push_char(&mut s, a);
            push_char(&mut s, b);
            assert(s@ =~= self.spec_csa_sfen());
            s
        }
    }

    /// The character sequence `csa_sfen` produces.
    pub open spec fn spec_csa_sfen(self) -> Seq<char> {
        if self.piece == Piece::NoPiece {
            seq!['%', 'T', 'O', 'R', 'Y', 'O']
        } else if self.amount == 0 {
            seq!['0', '0'] + spec_square_csa(self.to as int) + spec_csa_piece_chars(
                self.piece.spec_get_piece_type(),
            )
        } else {
            spec_square_csa(self.from as int) + spec_square_csa(self.to as int)
                + spec_csa_piece_chars(
                if self.promotion {
                    self.piece.spec_get_piece_type().spec_get_promoted()
                } else {
                    self.piece.spec_get_piece_type()
                },
            )
        }
    }
}

/// File character of a square: files run 5 to 1 from the left.
pub open spec fn spec_file_char(c: int) -> char {
    if c == 0 {
        '5'
    } else if c == 1 {
        '4'
    } else if c == 2 {
        '3'
    } else if c == 3 {
        '2'
    } else {
        '1'
    }
}

pub fn file_char(c: usize) -> (r: char)
    requires
        c < 5,
    ensures
        r == spec_file_char(c as int),
{
    if c == 0 {
        '5'
    } else if c == 1 {
        '4'
    } else if c == 2 {
        '3'
    } else if c == 3 {
        '2'
    } else {
        '1'
    }
}

/// Rank character of a square: ranks run a to e from the top.
pub open spec fn spec_rank_char(r: int) -> char {
    if r == 0 {
        'a'
    } else if r == 1 {
        'b'
    } else if r == 2 {
        'c'
    } else if r == 3 {
        'd'
    } else {
        'e'
    }
}

pub fn rank_char(r: usize) -> (c: char)
    requires
        r < 5,
    ensures
        c == spec_rank_char(r as int),
{
    if r == 0 {
        'a'
    } else if r == 1 {
        'b'
    } else if r == 2 {
        'c'
    } else if r == 3 {
        'd'
    } else {
        'e'
    }
}

/// Rank character in CSA notation: ranks run 1 to 5 from the top.
pub open spec fn spec_csa_rank_char(r: int) -> char {
    if r == 0 {
        '1'
    } else if r == 1 {
        '2'
    } else if r == 2 {
        '3'
    } else if r == 3 {
        '4'
    } else {
        '5'
    }
}

pub fn csa_rank_char(r: usize) -> (c: char)
    requires
        r < 5,
    ensures
        c == spec_csa_rank_char(r as int),
{
    if r == 0 {
        '1'
    } else if r == 1 {
        '2'
    } else if r == 2 {
        '3'
    } else if r == 3 {
        '4'
    } else {
        '5'
    }
}

/// Letter of a hand piece in a drop's SFEN text.
pub open spec fn spec_hand_piece_char(pt: PieceType) -> char {
    match pt {
        PieceType::Gold => 'G',
        PieceType::Silver => 'S',
        PieceType::Bishop => 'B',
        PieceType::Rook => 'R',
        PieceType::Pawn => 'P',
        _ => 'E',
    }
}

#[verifier::when_used_as_spec(spec_hand_piece_char)]
pub fn hand_piece_char(pt: PieceType) -> (r: char)
    ensures
        r == spec_hand_piece_char(pt),
{
    match pt {
        PieceType::Gold => 'G',
        PieceType::Silver => 'S',
        PieceType::Bishop => 'B',
        PieceType::Rook => 'R',
        PieceType::Pawn => 'P',
        _ => 'E',
    }
}

/// Two-letter CSA code of a piece type.
pub open spec fn spec_csa_piece_chars(pt: PieceType) -> Seq<char> {
    match pt {
        PieceType::King => seq!['O', 'U'],
        PieceType::Gold => seq!['K', 'I'],
        PieceType::Silver => seq!['G', 'I'],
        PieceType::Bishop => seq!['K', 'A'],
        PieceType::Rook => seq!['H', 'I'],
        PieceType::Pawn => seq!['F', 'U'],
        PieceType::SilverX => seq!['N', 'G'],
        PieceType::BishopX => seq!['U', 'M'],
        PieceType::RookX => seq!['R', 'Y'],
        PieceType::PawnX => seq!['T', 'O'],
        _ => seq!['-', '-'],
    }
}

pub fn csa_piece_chars(pt: PieceType) -> (r: (char, char))
    ensures
        seq![r.0, r.1] == spec_csa_piece_chars(pt),
{
    match pt {
        PieceType::King => ('O', 'U'),
        PieceType::Gold => ('K', 'I'),
        PieceType::Silver => ('G', 'I'),
        PieceType::Bishop => ('K', 'A'),
        PieceType::Rook => ('H', 'I'),
        PieceType::Pawn => ('F', 'U'),
        PieceType::SilverX => ('N', 'G'),
        PieceType::BishopX => ('U', 'M'),
        PieceType::RookX => ('R', 'Y'),
        PieceType::PawnX => ('T', 'O'),
        _ => ('-', '-'),
    }
}

/// The two SFEN characters of a square.
pub open spec fn spec_square_sfen(sq: int) -> Seq<char> {
    seq![spec_file_char(spec_col(sq)), spec_rank_char(spec_row(sq))]
}

/// The two CSA characters of a square.
pub open spec fn spec_square_csa(sq: int) -> Seq<char> {
    seq![spec_file_char(spec_col(sq)), spec_csa_rank_char(spec_row(sq))]
}

/// The SFEN text of a square.
pub fn square_to_sfen(square: usize) -> (r: String)
    requires
        square < 25,
    ensures
        r@ == spec_square_sfen(square as int),
{
    let mut s = String::new();
    push_char(&mut s, file_char(square % 5));
    push_char(&mut s, rank_char(square / 5));
    assert(s@ =~= spec_square_sfen(square as int));
    s
}

/// The CSA text of a square.
pub fn square_to_csa_sfen(square: usize) -> (r: String)
    requires
        square < 25,
    ensures
        r@ == spec_square_csa(square as int),
{
    let mut s = String::new();
    push_char(&mut s, file_char(square % 5));
    push_char(&mut s, csa_rank_char(square / 5));
    assert(s@ =~= spec_square_csa(square as int));
    s
}

/// The square encoded by two SFEN characters: a file digit then a rank letter.
pub open spec fn spec_square_from_sfen(s: Seq<char>) -> int {
    5 * spec_rank_val(s[1]) + spec_file_val(s[0])
}

/// Column encoded by an SFEN file character.
pub open spec fn spec_file_val(c: char) -> int {
    if c == '5' {
        0
    } else if c == '4' {
        1
    } else if c == '3' {
        2
    } else if c == '2' {
        3
    } else if c == '1' {
        4
    } else {
        5
    }
}

pub fn file_val(c: char) -> (r: usize)
    ensures
        r == spec_file_val(c),
{
    if c == '5' {
        0
    } else if c == '4' {
        1
    } else if c == '3' {
        2
    } else if c == '2' {
        3
    } else if c == '1' {
        4
    } else {
        5
    }
}

/// Row encoded by an SFEN rank character.
pub open spec fn spec_rank_val(c: char) -> int {
    if c == 'a' {
        0
    } else if c == 'b' {
        1
    } else if c == 'c' {
        2
    } else if c == 'd' {
        3
    } else if c == 'e' {
        4
    } else {
        5
    }
}

pub fn rank_val(c: char) -> (r: usize)
    ensures
        r == spec_rank_val(c),
{
    if c == 'a' {
        0
    } else if c == 'b' {
        1
    } else if c == 'c' {
        2
    } else if c == 'd' {
        3
    } else if c == 'e' {
        4
    } else {
        5
    }
}

/// The square named by a two-character SFEN square text.
pub fn sfen_to_square(sfen: String) -> (r: usize)
    requires
        sfen@.len() >= 2,
        spec_file_val(sfen@[0]) < 5,
        spec_rank_val(sfen@[1]) < 5,
    ensures
        r == spec_square_from_sfen(sfen@),
        r < 25,
{
    let c0 = sfen.as_str().get_char(0);
    let c1 = sfen.as_str().get_char(1);
    5 * rank_val(c1) + file_val(c0)
}

/// Direction and distance from `s1` to `s2` when the two squares lie on a
/// common rank, file or diagonal; `(N, 0)` otherwise and for `s1 == s2`.
pub open spec fn spec_relation(s1: int, s2: int) -> (Direction, int) {
    let dy = spec_row(s2) - spec_row(s1);
    let dx = spec_col(s2) - spec_col(s1);
    if s1 == s2 {
        (Direction::N, 0)
    } else if dy == 0 && dx > 0 {
        (Direction::E, dx)
    } else if dy == 0 && dx < 0 {
        (Direction::W, -dx)
    } else if dx == 0 && dy > 0 {
        (Direction::S, dy)
    } else if dx == 0 && dy < 0 {
        (Direction::N, -dy)
    } else if dy == dx && dy > 0 {
        (Direction::SE, dy)
    } else if dy == dx && dy < 0 {
        (Direction::NW, -dy)
    } else if dy == -dx && dy > 0 {
        (Direction::SW, dy)
    } else if dy == -dx && dy < 0 {
        (Direction::NE, -dy)
    } else {
        (Direction::N, 0)
    }
}

/// Direction and distance between two squares, as `spec_relation` states.
pub fn get_relation(square1: usize, square2: usize) -> (r: (Direction, usize))
    requires
        square1 < 25,
        square2 < 25,
    ensures
        r.0 == spec_relation(square1 as int, square2 as int).0,
        r.1 == spec_relation(square1 as int, square2 as int).1,
        r.1 <= 4,
{
    let y1 = square1 / 5;
    let x1 = square1 % 5;
    let y2 = square2 / 5;
    let x2 = square2 % 5;
    if square1 == square2 {
        (Direction::N, 0)
    } else if y1 == y2 && x2 > x1 {
        (Direction::E, x2 - x1)
    } else if y1 == y2 && x2 < x1 {
        (Direction::W, x1 - x2)
    } else if x1 == x2 && y2 > y1 {
        (Direction::S, y2 - y1)
    } else if x1 == x2 && y2 < y1 {
        (Direction::N, y1 - y2)
    } else if y2 > y1 && x2 > x1 && y2 - y1 == x2 - x1 {
        (Direction::SE, y2 - y1)
    } else if y2 < y1 && x2 < x1 && y1 - y2 == x1 - x2 {
        (Direction::NW, y1 - y2)
    } else if y2 > y1 && x2 < x1 && y2 - y1 == x1 - x2 {
        (Direction::SW, y2 - y1)
    } else if y2 < y1 && x2 > x1 && y1 - y2 == x2 - x1 {
        (Direction::NE, y1 - y2)
    } else {
        (Direction::N, 0)
    }
}

/// Law: the policy-index mapping is a bijection on each side's moves — two
/// moves of one side with the same policy index agree on their class (drop or
/// board move), and the index determines a drop's piece slot and target, and
/// a board move's direction, distance, source and promotion flag.
pub proof fn lemma_policy_index_bijection(m1: Move, m2: Move)
    requires
        m1.spec_policy_wf(),
        m2.spec_policy_wf(),
        m1.piece.spec_get_color() == m2.piece.spec_get_color(),
        m1.spec_to_policy_index() == m2.spec_to_policy_index(),
    ensures
        (m1.amount == 0) == (m2.amount == 0),
        m1.amount == 0 ==> m1.to == m2.to && m1.piece.spec_get_piece_type().spec_hand_index()
            == m2.piece.spec_get_piece_type().spec_hand_index(),
        m1.amount != 0 ==> m1.direction == m2.direction && m1.amount == m2.amount && m1.from
            == m2.from && m1.promotion == m2.promotion,
{
    let c1 = m1.spec_policy_channel();
    let c2 = m2.spec_policy_channel();
    let s1 = m1.spec_policy_square();
    let s2 = m2.spec_policy_square();
    assert(0 <= s1 < 25);
    assert(0 <= s2 < 25);
    assert(0 <= c1 <= 68);
    assert(0 <= c2 <= 68);
    assert(c1 * 25 + s1 == c2 * 25 + s2);
    assert(c1 == c2 && s1 == s2) by {
        assert((c1 - c2) * 25 == s2 - s1) by (nonlinear_arith)
            requires
                c1 * 25 + s1 == c2 * 25 + s2,
        ;
    }
    assert((m1.amount == 0) == (m2.amount == 0));
    if m1.amount != 0 {
        let d1 = if m1.piece.spec_get_color() == Color::White {
            m1.direction.spec_index() as int
        } else {
            m1.direction.spec_opposite().spec_index() as int
        };
        let d2 = if m2.piece.spec_get_color() == Color::White {
            m2.direction.spec_index() as int
        } else {
            m2.direction.spec_opposite().spec_index() as int
        };
        assert(0 <= d1 < 8 && 0 <= d2 < 8);
        assert(m1.promotion == m2.promotion && d1 == d2 && m1.amount == m2.amount);
        assert(m1.direction == m2.direction);
    }
}

/// Law: for two distinct squares joined by a ray of `k` steps in direction
/// `d`, the relation is exactly that direction and distance, and the distance
/// lies between one and four.
pub proof fn lemma_relation_table(s1: int, s2: int, d: Direction, k: int)
    requires
        0 <= s1 < 25,
        0 <= s2 < 25,
        1 <= k,
        spec_row(s2) == spec_row(s1) + k * d.spec_dy(),
        spec_col(s2) == spec_col(s1) + k * d.spec_dx(),
    ensures
        1 <= k <= 4,
        s1 != s2,
        spec_relation(s1, s2) == (d, k),
{
    let y1 = spec_row(s1);
    let x1 = spec_col(s1);
    let y2 = spec_row(s2);
    let x2 = spec_col(s2);
    assert(0 <= y1 < 5 && 0 <= x1 < 5 && 0 <= y2 < 5 && 0 <= x2 < 5);
    assert(s1 == 5 * y1 + x1 && s2 == 5 * y2 + x2);
    match d {
        Direction::N => {
            assert(y2 == y1 - k && x2 == x1);
        },
        Direction::NE => {
            assert(y2 == y1 - k && x2 == x1 + k);
        },
        Direction::E => {
            assert(y2 == y1 && x2 == x1 + k);
        },
        Direction::SE => {
            assert(y2 == y1 + k && x2 == x1 + k);
        },
        Direction::S => {
            assert(y2 == y1 + k && x2 == x1);
        },
        Direction::SW => {
            assert(y2 == y1 + k && x2 == x1 - k);
        },
        Direction::W => {
            assert(y2 == y1 && x2 == x1 - k);
        },
        Direction::NW => {
            assert(y2 == y1 - k && x2 == x1 - k);
        },
    }
}

} // verus!
