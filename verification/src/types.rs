//! Core vocabulary of the engine: colors, pieces, piece types and the eight
//! compass directions, together with the promotion/demotion algebra and the
//! single-step movement templates.

use vstd::prelude::*;

verus! {

/// Number of squares on the 5x5 board.
pub const SQUARE_NB: usize = 25;

/// Longest game the history arrays can record.
pub const MAX_PLY: usize = 512;

/// A player. White moves first and plays toward row 0.
#[derive(Copy, Clone, Debug, PartialEq, Eq, Structural)]
pub enum Color {
    White,
    Black,
    NoColor,
}

/// One of the eight compass directions. North is toward lower square indices.
/// The opposite of a direction is reached by adding 4 modulo 8 to its index.
#[derive(Copy, Clone, Debug, PartialEq, Eq, Structural)]
pub enum Direction {
    N,
    NE,
    E,
    SE,
    S,
    SW,
    W,
    NW,
}

/// A colored piece, or the empty-square marker.
#[derive(Copy, Clone, Debug, PartialEq, Eq, Structural)]
pub enum Piece {
    NoPiece,
    WKing,
    WGold,
    WSilver,
    WBishop,
    WRook,
    WPawn,
    WSilverX,
    WBishopX,
    WRookX,
    WPawnX,
    BKing,
    BGold,
    BSilver,
    BBishop,
    BRook,
    BPawn,
    BSilverX,
    BBishopX,
    BRookX,
    BPawnX,
}

/// A piece shorn of its color.
#[derive(Copy, Clone, Debug, PartialEq, Eq, Structural)]
pub enum PieceType {
    NoPieceType,
    King,
    Gold,
    Silver,
    Bishop,
    Rook,
    Pawn,
    SilverX,
    BishopX,
    RookX,
    PawnX,
}

impl Color {
    /// Index used for per-color arrays: White is 0, Black is 1.
    pub open spec fn spec_index(self) -> usize {
        match self {
            Color::White => 0usize,
            Color::Black => 1usize,
            Color::NoColor => 2usize,
        }
    }

    #[verifier::when_used_as_spec(spec_index)]
    pub fn index(self) -> (r: usize)
        ensures
            r == self.spec_index(),
    {
        match self {
            Color::White => 0,
            Color::Black => 1,
            Color::NoColor => 2,
        }
    }

    pub open spec fn spec_get_op_color(self) -> Color {
        if self == Color::White {
            Color::Black
        } else {
            Color::White
        }
    }

    /// The other player; the unset sentinel is treated as Black.
    #[verifier::when_used_as_spec(spec_get_op_color)]
    pub fn get_op_color(self) -> (r: Color)
        ensures
            r == self.spec_get_op_color(),
    {
        if self == Color::White {
            Color::Black
        } else {
            Color::White
        }
    }
}

impl Direction {
    /// Index of the direction in compass order starting at north.
    pub open spec fn spec_index(self) -> usize {
        match self {
            Direction::N => 0usize,
            Direction::NE => 1usize,
            Direction::E => 2usize,
            Direction::SE => 3usize,
            Direction::S => 4usize,
            Direction::SW => 5usize,
            Direction::W => 6usize,
            Direction::NW => 7usize,
        }
    }

    #[verifier::when_used_as_spec(spec_index)]
    pub fn index(self) -> (r: usize)
        ensures
            r == self.spec_index(),
    {
        match self {
            Direction::N => 0,
            Direction::NE => 1,
            Direction::E => 2,
            Direction::SE => 3,
            Direction::S => 4,
            Direction::SW => 5,
            Direction::W => 6,
            Direction::NW => 7,
        }
    }

    /// The direction with the given compass index.
    pub open spec fn spec_from_index(i: usize) -> Direction {
        if i == 0 {
            Direction::N
        } else if i == 1 {
            Direction::NE
        } else if i == 2 {
            Direction::E
        } else if i == 3 {
            Direction::SE
        } else if i == 4 {
            Direction::S
        } else if i == 5 {
            Direction::SW
        } else if i == 6 {
            Direction::W
        } else {
            Direction::NW
        }
    }

    #[verifier::when_used_as_spec(spec_from_index)]
    pub fn from_index(i: usize) -> (r: Direction)
        ensures
            r == Direction::spec_from_index(i),
    {
        if i == 0 {
            Direction::N
        } else if i == 1 {
            Direction::NE
        } else if i == 2 {
            Direction::E
        } else if i == 3 {
            Direction::SE
        } else if i == 4 {
            Direction::S
        } else if i == 5 {
            Direction::SW
        } else if i == 6 {
            Direction::W
        } else {
            Direction::NW
        }
    }

    /// Row change of one step in this direction.
    pub open spec fn spec_dy(self) -> int {
        match self {
            Direction::N => -1,
            Direction::NE => -1,
            Direction::E => 0,
            Direction::SE => 1,
            Direction::S => 1,
            Direction::SW => 1,
            Direction::W => 0,
            Direction::NW => -1,
        }
    }

    /// Column change of one step in this direction.
    pub open spec fn spec_dx(self) -> int {
        match self {
            Direction::N => 0,
            Direction::NE => 1,
            Direction::E => 1,
            Direction::SE => 1,
            Direction::S => 0,
            Direction::SW => -1,
            Direction::W => -1,
            Direction::NW => -1,
        }
    }

    /// The opposite compass direction.
    pub open spec fn spec_opposite(self) -> Direction {
        match self {
            Direction::N => Direction::S,
            Direction::NE => Direction::SW,
            Direction::E => Direction::W,
            Direction::SE => Direction::NW,
            Direction::S => Direction::N,
            Direction::SW => Direction::NE,
            Direction::W => Direction::E,
            Direction::NW => Direction::SE,
        }
    }

    #[verifier::when_used_as_spec(spec_opposite)]
    pub fn opposite(self) -> (r: Direction)
        ensures
            r == self.spec_opposite(),
            r.spec_index() == (self.spec_index() + 4) % 8,
    {
        match self {
            Direction::N => Direction::S,
            Direction::NE => Direction::SW,
            Direction::E => Direction::W,
            Direction::SE => Direction::NW,
            Direction::S => Direction::N,
            Direction::SW => Direction::NE,
            Direction::W => Direction::E,
            Direction::NW => Direction::SE,
        }
    }
}

impl Piece {
    /// Index used for per-piece arrays: 0 for the empty marker, 1 to 10 for
    /// the White pieces, 11 to 20 for the Black pieces.
    pub open spec fn spec_index(self) -> usize {
        match self {
            Piece::NoPiece => 0usize,
            Piece::WKing => 1usize,
            Piece::WGold => 2usize,
            Piece::WSilver => 3usize,
            Piece::WBishop => 4usize,
            Piece::WRook => 5usize,
            Piece::WPawn => 6usize,
            Piece::WSilverX => 7usize,
            Piece::WBishopX => 8usize,
            Piece::WRookX => 9usize,
            Piece::WPawnX => 10usize,
            Piece::BKing => 11usize,
            Piece::BGold => 12usize,
            Piece::BSilver => 13usize,
            Piece::BBishop => 14usize,
            Piece::BRook => 15usize,
            Piece::BPawn => 16usize,
            Piece::BSilverX => 17usize,
            Piece::BBishopX => 18usize,
            Piece::BRookX => 19usize,
            Piece::BPawnX => 20usize,
        }
    }

    #[verifier::when_used_as_spec(spec_index)]
    pub fn index(self) -> (r: usize)
        ensures
            r == self.spec_index(),
    {
        match self {
            Piece::NoPiece => 0,
            Piece::WKing => 1,
            Piece::WGold => 2,
            Piece::WSilver => 3,
            Piece::WBishop => 4,
            Piece::WRook => 5,
            Piece::WPawn => 6,
            Piece::WSilverX => 7,
            Piece::WBishopX => 8,
            Piece::WRookX => 9,
            Piece::WPawnX => 10,
            Piece::BKing => 11,
            Piece::BGold => 12,
            Piece::BSilver => 13,
            Piece::BBishop => 14,
            Piece::BRook => 15,
            Piece::BPawn => 16,
            Piece::BSilverX => 17,
            Piece::BBishopX => 18,
            Piece::BRookX => 19,
            Piece::BPawnX => 20,
        }
    }

    /// The piece with the given array index.
    pub open spec fn spec_from_index(i: usize) -> Piece {
        if i == 1 {
            Piece::WKing
        } else if i == 2 {
            Piece::WGold
        } else if i == 3 {
            Piece::WSilver
        } else if i == 4 {
            Piece::WBishop
        } else if i == 5 {
            Piece::WRook
        } else if i == 6 {
            Piece::WPawn
        } else if i == 7 {
            Piece::WSilverX
        } else if i == 8 {
            Piece::WBishopX
        } else if i == 9 {
            Piece::WRookX
        } else if i == 10 {
            Piece::WPawnX
        } else if i == 11 {
            Piece::BKing
        } else if i == 12 {
            Piece::BGold
        } else if i == 13 {
            Piece::BSilver
        } else if i == 14 {
            Piece::BBishop
        } else if i == 15 {
            Piece::BRook
        } else if i == 16 {
            Piece::BPawn
        } else if i == 17 {
            Piece::BSilverX
        } else if i == 18 {
            Piece::BBishopX
        } else if i == 19 {
            Piece::BRookX
        } else if i == 20 {
            Piece::BPawnX
        } else {
            Piece::NoPiece
        }
    }

    #[verifier::when_used_as_spec(spec_from_index)]
    pub fn from_index(i: usize) -> (r: Piece)
        ensures
            r == Piece::spec_from_index(i),
    {
        if i == 1 {
            Piece::WKing
        } else if i == 2 {
            Piece::WGold
        } else if i == 3 {
            Piece::WSilver
        } else if i == 4 {
            Piece::WBishop
        } else if i == 5 {
            Piece::WRook
        } else if i == 6 {
            Piece::WPawn
        } else if i == 7 {
            Piece::WSilverX
        } else if i == 8 {
            Piece::WBishopX
        } else if i == 9 {
            Piece::WRookX
        } else if i == 10 {
            Piece::WPawnX
        } else if i == 11 {
            Piece::BKing
        } else if i == 12 {
            Piece::BGold
        } else if i == 13 {
            Piece::BSilver
        } else if i == 14 {
            Piece::BBishop
        } else if i == 15 {
            Piece::BRook
        } else if i == 16 {
            Piece::BPawn
        } else if i == 17 {
            Piece::BSilverX
        } else if i == 18 {
            Piece::BBishopX
        } else if i == 19 {
            Piece::BRookX
        } else if i == 20 {
            Piece::BPawnX
        } else {
            Piece::NoPiece
        }
    }

    pub open spec fn spec_get_promoted(self) -> Piece {
        match self {
            Piece::WSilver => Piece::WSilverX,
            Piece::WBishop => Piece::WBishopX,
            Piece::WRook => Piece::WRookX,
            Piece::WPawn => Piece::WPawnX,
            Piece::BSilver => Piece::BSilverX,
            Piece::BBishop => Piece::BBishopX,
            Piece::BRook => Piece::BRookX,
            Piece::BPawn => Piece::BPawnX,
            _ => Piece::NoPiece,
        }
    }

    /// The promoted form, or the empty marker when this piece has none.
    #[verifier::when_used_as_spec(spec_get_promoted)]
    pub fn get_promoted(self) -> (r: Piece)
        ensures
            r == self.spec_get_promoted(),
    {
        match self {
            Piece::WSilver => Piece::WSilverX,
            Piece::WBishop => Piece::WBishopX,
            Piece::WRook => Piece::WRookX,
            Piece::WPawn => Piece::WPawnX,
            Piece::BSilver => Piece::BSilverX,
            Piece::BBishop => Piece::BBishopX,
            Piece::BRook => Piece::BRookX,
            Piece::BPawn => Piece::BPawnX,
            _ => Piece::NoPiece,
        }
    }

    pub open spec fn spec_is_promoted(self) -> bool {
        match self {
            Piece::WSilverX
            | Piece::WBishopX
            | Piece::WRookX
            | Piece::WPawnX
            | Piece::BSilverX
            | Piece::BBishopX
            | Piece::BRookX
            | Piece::BPawnX => true,
            _ => false,
        }
    }

    #[verifier::when_used_as_spec(spec_is_promoted)]
    pub fn is_promoted(self) -> (r: bool)
        ensures
            r == self.spec_is_promoted(),
    {
        match self {
            Piece::WSilverX => true,
            Piece::WBishopX => true,
            Piece::WRookX => true,
            Piece::WPawnX => true,
            Piece::BSilverX => true,
            Piece::BBishopX => true,
            Piece::BRookX => true,
            Piece::BPawnX => true,
            _ => false,
        }
    }

    pub open spec fn spec_is_promotable(self) -> bool {
        self.spec_get_promoted() != Piece::NoPiece
    }

    /// True for the raw forms of Silver, Bishop, Rook and Pawn.
    #[verifier::when_used_as_spec(spec_is_promotable)]
    pub fn is_promotable(self) -> (r: bool)
        ensures
            r == self.spec_is_promotable(),
    {
        self.get_promoted() != Piece::NoPiece
    }

    pub open spec fn spec_get_raw(self) -> Piece {
        match self {
            Piece::WSilverX => Piece::WSilver,
            Piece::WBishopX => Piece::WBishop,
            Piece::WRookX => Piece::WRook,
            Piece::WPawnX => Piece::WPawn,
            Piece::BSilverX => Piece::BSilver,
            Piece::BBishopX => Piece::BBishop,
            Piece::BRookX => Piece::BRook,
            Piece::BPawnX => Piece::BPawn,
            _ => self,
        }
    }

    /// Strip promotion; the identity on unpromoted pieces.
    #[verifier::when_used_as_spec(spec_get_raw)]
    pub fn get_raw(self) -> (r: Piece)
        ensures
            r == self.spec_get_raw(),
    {
        match self {
            Piece::WSilverX => Piece::WSilver,
            Piece::WBishopX => Piece::WBishop,
            Piece::WRookX => Piece::WRook,
            Piece::WPawnX => Piece::WPawn,
            Piece::BSilverX => Piece::BSilver,
            Piece::BBishopX => Piece::BBishop,
            Piece::BRookX => Piece::BRook,
            Piece::BPawnX => Piece::BPawn,
            _ => self,
        }
    }

    pub open spec fn spec_is_raw(self) -> bool {
        !self.spec_is_promoted()
    }

    #[verifier::when_used_as_spec(spec_is_raw)]
    pub fn is_raw(self) -> (r: bool)
        ensures
            r == self.spec_is_raw(),
    {
        !self.is_promoted()
    }

    pub open spec fn spec_get_color(self) -> Color {
        match self {
            Piece::NoPiece => Color::NoColor,
            Piece::WKing
            | Piece::WGold
            | Piece::WSilver
            | Piece::WBishop
            | Piece::WRook
            | Piece::WPawn
            | Piece::WSilverX
            | Piece::WBishopX
            | Piece::WRookX
            | Piece::WPawnX => Color::White,
            _ => Color::Black,
        }
    }

    #[verifier::when_used_as_spec(spec_get_color)]
    pub fn get_color(self) -> (r: Color)
        ensures
            r == self.spec_get_color(),
    {
        match self {
            Piece::NoPiece => Color::NoColor,
            Piece::WKing => Color::White,
            Piece::WGold => Color::White,
            Piece::WSilver => Color::White,
            Piece::WBishop => Color::White,
            Piece::WRook => Color::White,
            Piece::WPawn => Color::White,
            Piece::WSilverX => Color::White,
            Piece::WBishopX => Color::White,
            Piece::WRookX => Color::White,
            Piece::WPawnX => Color::White,
            Piece::BKing => Color::Black,
            Piece::BGold => Color::Black,
            Piece::BSilver => Color::Black,
            Piece::BBishop => Color::Black,
            Piece::BRook => Color::Black,
            Piece::BPawn => Color::Black,
            Piece::BSilverX => Color::Black,
            Piece::BBishopX => Color::Black,
            Piece::BRookX => Color::Black,
            Piece::BPawnX => Color::Black,
        }
    }

    pub open spec fn spec_get_piece_type(self) -> PieceType {
        match self {
            Piece::NoPiece => PieceType::NoPieceType,
            Piece::WKing | Piece::BKing => PieceType::King,
            Piece::WGold | Piece::BGold => PieceType::Gold,
            Piece::WSilver | Piece::BSilver => PieceType::Silver,
            Piece::WBishop | Piece::BBishop => PieceType::Bishop,
            Piece::WRook | Piece::BRook => PieceType::Rook,
            Piece::WPawn | Piece::BPawn => PieceType::Pawn,
            Piece::WSilverX | Piece::BSilverX => PieceType::SilverX,
            Piece::WBishopX | Piece::BBishopX => PieceType::BishopX,
            Piece::WRookX | Piece::BRookX => PieceType::RookX,
            Piece::WPawnX | Piece::BPawnX => PieceType::PawnX,
        }
    }

    #[verifier::when_used_as_spec(spec_get_piece_type)]
    pub fn get_piece_type(self) -> (r: PieceType)
        ensures
            r == self.spec_get_piece_type(),
    {
        match self {
            Piece::NoPiece => PieceType::NoPieceType,
            Piece::WKing => PieceType::King,
            Piece::WGold => PieceType::Gold,
            Piece::WSilver => PieceType::Silver,
            Piece::WBishop => PieceType::Bishop,
            Piece::WRook => PieceType::Rook,
            Piece::WPawn => PieceType::Pawn,
            Piece::WSilverX => PieceType::SilverX,
            Piece::WBishopX => PieceType::BishopX,
            Piece::WRookX => PieceType::RookX,
            Piece::WPawnX => PieceType::PawnX,
            Piece::BKing => PieceType::King,
            Piece::BGold => PieceType::Gold,
            Piece::BSilver => PieceType::Silver,
            Piece::BBishop => PieceType::Bishop,
            Piece::BRook => PieceType::Rook,
            Piece::BPawn => PieceType::Pawn,
            Piece::BSilverX => PieceType::SilverX,
            Piece::BBishopX => PieceType::BishopX,
            Piece::BRookX => PieceType::RookX,
            Piece::BPawnX => PieceType::PawnX,
        }
    }

    pub open spec fn spec_get_op_piece(self) -> Piece {
        match self {
            Piece::NoPiece => Piece::NoPiece,
            Piece::WKing => Piece::BKing,
            Piece::WGold => Piece::BGold,
            Piece::WSilver => Piece::BSilver,
            Piece::WBishop => Piece::BBishop,
            Piece::WRook => Piece::BRook,
            Piece::WPawn => Piece::BPawn,
            Piece::WSilverX => Piece::BSilverX,
            Piece::WBishopX => Piece::BBishopX,
            Piece::WRookX => Piece::BRookX,
            Piece::WPawnX => Piece::BPawnX,
            Piece::BKing => Piece::WKing,
            Piece::BGold => Piece::WGold,
            Piece::BSilver => Piece::WSilver,
            Piece::BBishop => Piece::WBishop,
            Piece::BRook => Piece::WRook,
            Piece::BPawn => Piece::WPawn,
            Piece::BSilverX => Piece::WSilverX,
            Piece::BBishopX => Piece::WBishopX,
            Piece::BRookX => Piece::WRookX,
            Piece::BPawnX => Piece::WPawnX,
        }
    }

    /// The same piece type with the color flipped.
    #[verifier::when_used_as_spec(spec_get_op_piece)]
    pub fn get_op_piece(self) -> (r: Piece)
        ensures
            r == self.spec_get_op_piece(),
    {
        match self {
            Piece::NoPiece => Piece::NoPiece,
            Piece::WKing => Piece::BKing,
            Piece::WGold => Piece::BGold,
            Piece::WSilver => Piece::BSilver,
            Piece::WBishop => Piece::BBishop,
            Piece::WRook => Piece::BRook,
            Piece::WPawn => Piece::BPawn,
            Piece::WSilverX => Piece::BSilverX,
            Piece::WBishopX => Piece::BBishopX,
            Piece::WRookX => Piece::BRookX,
            Piece::WPawnX => Piece::BPawnX,
            Piece::BKing => Piece::WKing,
            Piece::BGold => Piece::WGold,
            Piece::BSilver => Piece::WSilver,
            Piece::BBishop => Piece::WBishop,
            Piece::BRook => Piece::WRook,
            Piece::BPawn => Piece::WPawn,
            Piece::BSilverX => Piece::WSilverX,
            Piece::BBishopX => Piece::WBishopX,
            Piece::BRookX => Piece::WRookX,
            Piece::BPawnX => Piece::WPawnX,
        }
    }

    /// Single-step movement template: true when this piece may move one step
    /// in direction `d`. Bishop and Rook have no single-step component; their
    /// sliding rays are handled by the attack computations.
    pub open spec fn spec_has_dir(self, d: Direction) -> bool {
        match self {
            Piece::WKing | Piece::BKing => true,
            Piece::WGold | Piece::WSilverX | Piece::WPawnX => d != Direction::SE && d
                != Direction::SW,
            Piece::BGold | Piece::BSilverX | Piece::BPawnX => d != Direction::NE && d
                != Direction::NW,
            Piece::WSilver => d == Direction::N || d == Direction::NE || d == Direction::SE || d
                == Direction::SW || d == Direction::NW,
            Piece::BSilver => d == Direction::S || d == Direction::NE || d == Direction::SE || d
                == Direction::SW || d == Direction::NW,
            Piece::WPawn => d == Direction::N,
            Piece::BPawn => d == Direction::S,
            Piece::WBishopX | Piece::BBishopX => d == Direction::N || d == Direction::E || d
                == Direction::S || d == Direction::W,
            Piece::WRookX | Piece::BRookX => d == Direction::NE || d == Direction::SE || d
                == Direction::SW || d == Direction::NW,
            _ => false,
        }
    }

    #[verifier::when_used_as_spec(spec_has_dir)]
    pub fn has_dir(self, d: Direction) -> (r: bool)
        ensures
            r == self.spec_has_dir(d),
    {
        match self {
            Piece::WKing | Piece::BKing => true,
            Piece::WGold | Piece::WSilverX | Piece::WPawnX => d != Direction::SE && d
                != Direction::SW,
            Piece::BGold | Piece::BSilverX | Piece::BPawnX => d != Direction::NE && d
                != Direction::NW,
            Piece::WSilver => d == Direction::N || d == Direction::NE || d == Direction::SE || d
                == Direction::SW || d == Direction::NW,
            Piece::BSilver => d == Direction::S || d == Direction::NE || d == Direction::SE || d
                == Direction::SW || d == Direction::NW,
            Piece::WPawn => d == Direction::N,
            Piece::BPawn => d == Direction::S,
            Piece::WBishopX | Piece::BBishopX => d == Direction::N || d == Direction::E || d
                == Direction::S || d == Direction::W,
            Piece::WRookX | Piece::BRookX => d == Direction::NE || d == Direction::SE || d
                == Direction::SW || d == Direction::NW,
            _ => false,
        }
    }

    /// The single-step movement directions, in compass order.
    pub fn get_move_dirs(self) -> (r: Vec<Direction>)
        ensures
            forall|d: Direction| r@.contains(d) <==> self.spec_has_dir(d),
            r@.no_duplicates(),
    {
        let mut r: Vec<Direction> = Vec::new();
        let mut i: usize = 0;
        while i < 8
            invariant
                i <= 8,
                forall|j: int|
                    0 <= j < r@.len() ==> self.spec_has_dir(#[trigger] r@[j]) && r@[j].spec_index()
                        < i,
                forall|d: Direction|
                    self.spec_has_dir(d) && d.spec_index() < i ==> r@.contains(d),
                r@.no_duplicates(),
            decreases 8 - i,
        {
            let d = Direction::from_index(i);
            assert(d.spec_index() == i);
            if self.has_dir(d) {
                let ghost old_r = r@;
                r.push(d);
                assert(r@[r@.len() - 1] == d);
                assert forall|e: Direction|
                    self.spec_has_dir(e) && e.spec_index() < i + 1 implies r@.contains(e) by {
                    if e.spec_index() < i {
                        let k = choose|k: int| 0 <= k < old_r.len() && old_r[k] == e;
                        assert(r@[k] == e);
                    } else {
                        assert(e == d);
                        assert(r@[r@.len() - 1] == e);
                    }
                }
            }
            i = i + 1;
        }
        assert(forall|d: Direction| d.spec_index() < 8);
        r
    }
}

impl PieceType {
    /// Index into a five-slot hand array, for the piece types a hand can hold.
    pub open spec fn spec_hand_index(self) -> usize {
        match self {
            PieceType::Gold => 0usize,
            PieceType::Silver => 1usize,
            PieceType::Bishop => 2usize,
            PieceType::Rook => 3usize,
            PieceType::Pawn => 4usize,
            _ => 5usize,
        }
    }

    #[verifier::when_used_as_spec(spec_hand_index)]
    pub fn hand_index(self) -> (r: usize)
        ensures
            r == self.spec_hand_index(),
    {
        match self {
            PieceType::Gold => 0,
            PieceType::Silver => 1,
            PieceType::Bishop => 2,
            PieceType::Rook => 3,
            PieceType::Pawn => 4,
            _ => 5,
        }
    }

    /// The hand piece type stored at a hand-array slot.
    pub open spec fn spec_from_hand_index(i: usize) -> PieceType {
        if i == 0 {
            PieceType::Gold
        } else if i == 1 {
            PieceType::Silver
        } else if i == 2 {
            PieceType::Bishop
        } else if i == 3 {
            PieceType::Rook
        } else {
            PieceType::Pawn
        }
    }

    #[verifier::when_used_as_spec(spec_from_hand_index)]
    pub fn from_hand_index(i: usize) -> (r: PieceType)
        ensures
            r == PieceType::spec_from_hand_index(i),
    {
        if i == 0 {
            PieceType::Gold
        } else if i == 1 {
            PieceType::Silver
        } else if i == 2 {
            PieceType::Bishop
        } else if i == 3 {
            PieceType::Rook
        } else {
            PieceType::Pawn
        }
    }

    pub open spec fn spec_get_promoted(self) -> PieceType {
        match self {
            PieceType::Silver => PieceType::SilverX,
            PieceType::Bishop => PieceType::BishopX,
            PieceType::Rook => PieceType::RookX,
            PieceType::Pawn => PieceType::PawnX,
            _ => PieceType::NoPieceType,
        }
    }

    /// The promoted form, or the empty marker when this type has none.
    #[verifier::when_used_as_spec(spec_get_promoted)]
    pub fn get_promoted(self) -> (r: PieceType)
        ensures
            r == self.spec_get_promoted(),
    {
        match self {
            PieceType::Silver => PieceType::SilverX,
            PieceType::Bishop => PieceType::BishopX,
            PieceType::Rook => PieceType::RookX,
            PieceType::Pawn => PieceType::PawnX,
            _ => PieceType::NoPieceType,
        }
    }

    pub open spec fn spec_is_promoted(self) -> bool {
        match self {
            PieceType::SilverX | PieceType::BishopX | PieceType::RookX | PieceType::PawnX => true,
            _ => false,
        }
    }

    #[verifier::when_used_as_spec(spec_is_promoted)]
    pub fn is_promoted(self) -> (r: bool)
        ensures
            r == self.spec_is_promoted(),
    {
        match self {
            PieceType::SilverX => true,
            PieceType::BishopX => true,
            PieceType::RookX => true,
            PieceType::PawnX => true,
            _ => false,
        }
    }

    pub open spec fn spec_is_promotable(self) -> bool {
        self.spec_get_promoted() != PieceType::NoPieceType
    }

    #[verifier::when_used_as_spec(spec_is_promotable)]
    pub fn is_promotable(self) -> (r: bool)
        ensures
            r == self.spec_is_promotable(),
    {
        self.get_promoted() != PieceType::NoPieceType
    }

    pub open spec fn spec_get_raw(self) -> PieceType {
        match self {
            PieceType::SilverX => PieceType::Silver,
            PieceType::BishopX => PieceType::Bishop,
            PieceType::RookX => PieceType::Rook,
            PieceType::PawnX => PieceType::Pawn,
            _ => self,
        }
    }

    /// Strip promotion; the identity on unpromoted types.
    #[verifier::when_used_as_spec(spec_get_raw)]
    pub fn get_raw(self) -> (r: PieceType)
        ensures
            r == self.spec_get_raw(),
    {
        match self {
            PieceType::SilverX => PieceType::Silver,
            PieceType::BishopX => PieceType::Bishop,
            PieceType::RookX => PieceType::Rook,
            PieceType::PawnX => PieceType::Pawn,
            _ => self,
        }
    }

    pub open spec fn spec_is_raw(self) -> bool {
        !self.spec_is_promoted()
    }

    #[verifier::when_used_as_spec(spec_is_raw)]
    pub fn is_raw(self) -> (r: bool)
        ensures
            r == self.spec_is_raw(),
    {
        !self.is_promoted()
    }

    pub open spec fn spec_get_piece(self, color: Color) -> Piece {
        if color == Color::White {
            match self {
                PieceType::King => Piece::WKing,
                PieceType::Gold => Piece::WGold,
                PieceType::Silver => Piece::WSilver,
                PieceType::Bishop => Piece::WBishop,
                PieceType::Rook => Piece::WRook,
                PieceType::Pawn => Piece::WPawn,
                PieceType::SilverX => Piece::WSilverX,
                PieceType::BishopX => Piece::WBishopX,
                PieceType::RookX => Piece::WRookX,
                PieceType::PawnX => Piece::WPawnX,
                _ => Piece::NoPiece,
            }
        } else {
            match self {
                PieceType::King => Piece::BKing,
                PieceType::Gold => Piece::BGold,
                PieceType::Silver => Piece::BSilver,
                PieceType::Bishop => Piece::BBishop,
                PieceType::Rook => Piece::BRook,
                PieceType::Pawn => Piece::BPawn,
                PieceType::SilverX => Piece::BSilverX,
                PieceType::BishopX => Piece::BBishopX,
                PieceType::RookX => Piece::BRookX,
                PieceType::PawnX => Piece::BPawnX,
                _ => Piece::NoPiece,
            }
        }
    }

    /// The colored piece of this type.
    #[verifier::when_used_as_spec(spec_get_piece)]
    pub fn get_piece(self, color: Color) -> (r: Piece)
        ensures
            r == self.spec_get_piece(color),
    {
        if color == Color::White {
            match self {
                PieceType::King => Piece::WKing,
                PieceType::Gold => Piece::WGold,
                PieceType::Silver => Piece::WSilver,
                PieceType::Bishop => Piece::WBishop,
                PieceType::Rook => Piece::WRook,
                PieceType::Pawn => Piece::WPawn,
                PieceType::SilverX => Piece::WSilverX,
                PieceType::BishopX => Piece::WBishopX,
                PieceType::RookX => Piece::WRookX,
                PieceType::PawnX => Piece::WPawnX,
                _ => Piece::NoPiece,
            }
        } else {
            match self {
                PieceType::King => Piece::BKing,
                PieceType::Gold => Piece::BGold,
                PieceType::Silver => Piece::BSilver,
                PieceType::Bishop => Piece::BBishop,
                PieceType::Rook => Piece::BRook,
                PieceType::Pawn => Piece::BPawn,
                PieceType::SilverX => Piece::BSilverX,
                PieceType::BishopX => Piece::BBishopX,
                PieceType::RookX => Piece::BRookX,
                PieceType::PawnX => Piece::BPawnX,
                _ => Piece::NoPiece,
            }
        }
    }
}

} // verus!
