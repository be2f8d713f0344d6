//! SFEN input and output: parsing a position document including its move
//! suffix, emitting the current snapshot, and converting a move's text to a
//! move in the context of a position.

use vstd::prelude::*;
use vstd::string::StrSliceExecFns;
use vstd::string::StringExecFns;

use crate::bitboard::bb_has;
use crate::bitboard::lemma_bb_or;
use crate::bitboard::lemma_bb_single;
use crate::bitboard::lemma_bb_zero;
use crate::bitboard::lemma_bb_fits_or;
use crate::bitboard::lemma_bb_fits_single;
use crate::bitboard::lemma_pf_fits;
use crate::bitboard::spec_col;
use crate::bitboard::spec_row;
use crate::moves::file_val;
use crate::moves::rank_val;
use crate::moves::spec_file_val;
use crate::moves::spec_rank_val;
use crate::moves::spec_relation;
use crate::moves::get_relation;
use crate::moves::Move;
use crate::movegen::spec_board_sound;
use crate::movegen::spec_drop_sound;
use crate::position::Position;
use crate::state::color_of_index;
use crate::state::core_shape;
use crate::state::core_wf;
use crate::state::lemma_pawn_count_bounds;
use crate::state::lemma_pawn_count_zero;
use crate::state::lemma_raw_count_bounds;
use crate::state::pawn_count;
use crate::state::pawn_count_upto;
use crate::state::pawn_of;
use crate::state::pawn_weight;
use crate::state::raw_count;
use crate::state::spec_move_applicable;
use crate::state::PosCore;
use crate::text::digit_val;
use crate::text::push_char;
use crate::text::spec_digit_char;
use crate::text::spec_digit_val;
use crate::text::digit_char;
use crate::types::Color;
use crate::types::Piece;
use crate::types::PieceType;
use crate::types::MAX_PLY;
use crate::types::SQUARE_NB;
use crate::zobrist::table_wf;

verus! {

/// The piece named by one SFEN letter: uppercase is White, lowercase Black.
pub open spec fn spec_char_to_piece(c: char) -> Piece {
    if c == 'K' {
        Piece::WKing
    } else if c == 'G' {
        Piece::WGold
    } else if c == 'S' {
        Piece::WSilver
    } else if c == 'B' {
        Piece::WBishop
    } else if c == 'R' {
        Piece::WRook
    } else if c == 'P' {
        Piece::WPawn
    } else if c == 'k' {
        Piece::BKing
    } else if c == 'g' {
        Piece::BGold
    } else if c == 's' {
        Piece::BSilver
    } else if c == 'b' {
        Piece::BBishop
    } else if c == 'r' {
        Piece::BRook
    } else if c == 'p' {
        Piece::BPawn
    } else {
        Piece::NoPiece
    }
}

#[verifier::when_used_as_spec(spec_char_to_piece)]
pub fn char_to_piece(c: char) -> (r: Piece)
    ensures
        r == spec_char_to_piece(c),
{
    if c == 'K' {
        Piece::WKing
    } else if c == 'G' {
        Piece::WGold
    } else if c == 'S' {
        Piece::WSilver
    } else if c == 'B' {
        Piece::WBishop
    } else if c == 'R' {
        Piece::WRook
    } else if c == 'P' {
        Piece::WPawn
    } else if c == 'k' {
        Piece::BKing
    } else if c == 'g' {
        Piece::BGold
    } else if c == 's' {
        Piece::BSilver
    } else if c == 'b' {
        Piece::BBishop
    } else if c == 'r' {
        Piece::BRook
    } else if c == 'p' {
        Piece::BPawn
    } else {
        Piece::NoPiece
    }
}

/// The SFEN letters of a piece, with a plus sign before promoted forms.
pub open spec fn spec_piece_chars(p: Piece) -> Seq<char> {
    match p {
        Piece::WKing => seq!['K'],
        Piece::WGold => seq!['G'],
        Piece::WSilver => seq!['S'],
        Piece::WBishop => seq!['B'],
        Piece::WRook => seq!['R'],
        Piece::WPawn => seq!['P'],
        Piece::WSilverX => seq!['+', 'S'],
        Piece::WBishopX => seq!['+', 'B'],
        Piece::WRookX => seq!['+', 'R'],
        Piece::WPawnX => seq!['+', 'P'],
        Piece::BKing => seq!['k'],
        Piece::BGold => seq!['g'],
        Piece::BSilver => seq!['s'],
        Piece::BBishop => seq!['b'],
        Piece::BRook => seq!['r'],
        Piece::BPawn => seq!['p'],
        Piece::BSilverX => seq!['+', 's'],
        Piece::BBishopX => seq!['+', 'b'],
        Piece::BRookX => seq!['+', 'r'],
        Piece::BPawnX => seq!['+', 'p'],
        Piece::NoPiece => seq!['?'],
    }
}

fn push_piece_chars(s: &mut String, p: Piece)
    ensures
        final (s)@ == old(s)@ + spec_piece_chars(p),
{
    match p {
        Piece::WKing => push_char(s, 'K'),
        Piece::WGold => push_char(s, 'G'),
        Piece::WSilver => push_char(s, 'S'),
        Piece::WBishop => push_char(s, 'B'),
        Piece::WRook => push_char(s, 'R'),
        Piece::WPawn => push_char(s, 'P'),
        Piece::WSilverX => {
            push_char(s, '+');
            push_char(s, 'S');
        },
        Piece::WBishopX => {
            push_char(s, '+');
            push_char(s, 'B');
        },
        Piece::WRookX => {
            push_char(s, '+');
            push_char(s, 'R');
        },
        Piece::WPawnX => {
            push_char(s, '+');
            push_char(s, 'P');
        },
        Piece::BKing => push_char(s, 'k'),
        Piece::BGold => push_char(s, 'g'),
        Piece::BSilver => push_char(s, 's'),
        Piece::BBishop => push_char(s, 'b'),
        Piece::BRook => push_char(s, 'r'),
        Piece::BPawn => push_char(s, 'p'),
        Piece::BSilverX => {
            push_char(s, '+');
            push_char(s, 's');
        },
        Piece::BBishopX => {
            push_char(s, '+');
            push_char(s, 'b');
        },
        Piece::BRookX => {
            push_char(s, '+');
            push_char(s, 'r');
        },
        Piece::BPawnX => {
            push_char(s, '+');
            push_char(s, 'p');
        },
        Piece::NoPiece => push_char(s, '?'),
    }
    assert(s@ =~= old(s)@ + spec_piece_chars(p));
}

/// Whether a token has the shape of an SFEN move: a drop as a letter, a
/// star and a square, or a board move as two squares with an optional plus.
pub open spec fn spec_move_text_ok(s: Seq<char>) -> bool {
    &&& s.len() >= 2
    &&& if s[1] == '*' {
        &&& s.len() == 4
        &&& spec_file_val(s[2]) < 5
        &&& spec_rank_val(s[3]) < 5
    } else {
        &&& (s.len() == 4 || s.len() == 5)
        &&& spec_file_val(s[0]) < 5
        &&& spec_rank_val(s[1]) < 5
        &&& spec_file_val(s[2]) < 5
        &&& spec_rank_val(s[3]) < 5
    }
}

/// Runtime test for `spec_move_text_ok`.
pub fn move_text_ok(s: &str) -> (r: bool)
    ensures
        r == spec_move_text_ok(s@),
{
    let n = s.unicode_len();
    if n < 2 {
        return false;
    }
    if s.get_char(1) == '*' {
        n == 4 && file_val(s.get_char(2)) < 5 && rank_val(s.get_char(3)) < 5
    } else {
        (n == 4 || n == 5) && file_val(s.get_char(0)) < 5 && rank_val(s.get_char(1)) < 5
            && file_val(s.get_char(2)) < 5 && rank_val(s.get_char(3)) < 5
    }
}

/// The move a well-shaped token names in the context of a snapshot.
pub open spec fn spec_sfen_to_move(c: PosCore, s: Seq<char>) -> Move {
    if s[1] == '*' {
        let to = 5 * spec_rank_val(s[3]) + spec_file_val(s[2]);
        Move::spec_hand_move(
            spec_char_to_piece(s[0]).spec_get_piece_type().spec_get_piece(c.side_to_move),
            to as usize,
        )
    } else {
        let from = 5 * spec_rank_val(s[1]) + spec_file_val(s[0]);
        let to = 5 * spec_rank_val(s[3]) + spec_file_val(s[2]);
        let rel = spec_relation(from, to);
        Move::spec_board_move(
            c.board[from],
            from as usize,
            rel.0,
            rel.1 as usize,
            to as usize,
            s.len() == 5,
            c.board[to],
        )
    }
}

/// The empty board.
pub open spec fn blank_board() -> Seq<Piece> {
    Seq::new(25, |i: int| Piece::NoPiece)
}

/// Empty hands.
pub open spec fn zero_hand() -> Seq<u8> {
    Seq::new(10, |i: int| 0u8)
}

/// Position after any spaces.
pub open spec fn spec_skip_spaces(s: Seq<char>, pos: int) -> int
    decreases s.len() - pos,
{
    if pos < 0 || pos >= s.len() {
        pos
    } else if s[pos] == ' ' {
        spec_skip_spaces(s, pos + 1)
    } else {
        pos
    }
}

/// Position after the current token.
pub open spec fn spec_skip_token(s: Seq<char>, pos: int) -> int
    decreases s.len() - pos,
{
    if pos < 0 || pos >= s.len() {
        pos
    } else if s[pos] != ' ' {
        spec_skip_token(s, pos + 1)
    } else {
        pos
    }
}

/// Skipping a token never moves backwards or past the end.
pub proof fn lemma_skip_token_bounds(s: Seq<char>, pos: int)
    requires
        0 <= pos <= s.len(),
    ensures
        pos <= spec_skip_token(s, pos) <= s.len(),
    decreases s.len() - pos,
{
    if pos < s.len() && s[pos] != ' ' {
        lemma_skip_token_bounds(s, pos + 1);
    }
}

/// The board section of an SFEN document, read from `pos` until a space or
/// the end: a plus promotes the next letter, a slash is decoration, digits
/// skip empty squares, letters place pieces; writes past the last square
/// are ignored.
pub open spec fn spec_parse_board_at(
    s: Seq<char>,
    pos: int,
    square: int,
    promote: bool,
    board: Seq<Piece>,
) -> (Seq<Piece>, int)
    decreases s.len() - pos,
{
    if pos < 0 || pos >= s.len() {
        (board, pos)
    } else {
        let ch = s[pos];
        if ch == ' ' {
            (board, pos)
        } else if ch == '+' {
            spec_parse_board_at(s, pos + 1, square, true, board)
        } else if ch == '/' {
            spec_parse_board_at(s, pos + 1, square, promote, board)
        } else if spec_digit_val(ch) < 10 {
            let d = spec_digit_val(ch);
            spec_parse_board_at(
                s,
                pos + 1,
                if square + d > 25 {
                    25int
                } else {
                    square + d
                },
                promote,
                board,
            )
        } else if square < 25 {
            let p0 = spec_char_to_piece(ch);
            let p = if promote {
                p0.spec_get_promoted()
            } else {
                p0
            };
            spec_parse_board_at(s, pos + 1, square + 1, false, board.update(square, p))
        } else {
            spec_parse_board_at(s, pos + 1, square, promote, board)
        }
    }
}

/// The parsed board of an SFEN document and the position after it.
pub open spec fn spec_parse_board(s: Seq<char>) -> (Seq<Piece>, int) {
    spec_parse_board_at(s, 0, 0, false, blank_board())
}

/// The side named at `pos`: the letter b is White, anything else Black.
pub open spec fn spec_parse_side(s: Seq<char>, pos: int) -> Color {
    if 0 <= pos < s.len() && s[pos] == 'b' {
        Color::White
    } else {
        Color::Black
    }
}

/// The hand section, read from `pos` until a space or the end: digits set
/// the pending count, letters store it for the named piece's color and slot.
pub open spec fn spec_parse_hand_at(s: Seq<char>, pos: int, count: int, hand: Seq<u8>) -> (
    Seq<u8>,
    int,
)
    decreases s.len() - pos,
{
    if pos < 0 || pos >= s.len() {
        (hand, pos)
    } else {
        let ch = s[pos];
        if ch == ' ' {
            (hand, pos)
        } else if ch == '-' {
            spec_parse_hand_at(s, pos + 1, count, hand)
        } else if spec_digit_val(ch) < 10 {
            spec_parse_hand_at(s, pos + 1, spec_digit_val(ch), hand)
        } else {
            let p = spec_char_to_piece(ch);
            if p != Piece::NoPiece {
                let h = p.spec_get_piece_type().spec_hand_index() as int;
                let hand2 = if h < 5 {
                    hand.update(5 * p.spec_get_color().spec_index() + h, count as u8)
                } else {
                    hand
                };
                spec_parse_hand_at(s, pos + 1, 1, hand2)
            } else {
                spec_parse_hand_at(s, pos + 1, count, hand)
            }
        }
    }
}

/// The piece bitboard a full recomputation derives from a board.
pub open spec fn spec_piece_bb_fold(board: Seq<Piece>, p: int, n: int) -> u32
    decreases n,
{
    if n <= 0 {
        0u32
    } else {
        let prev = spec_piece_bb_fold(board, p, n - 1);
        if board[n - 1] != Piece::NoPiece && board[n - 1].spec_index() == p {
            prev | (1u32 << ((n - 1) as u32))
        } else {
            prev
        }
    }
}

/// The occupancy bitboard a full recomputation derives from a board.
pub open spec fn spec_player_bb_fold(board: Seq<Piece>, ci: int, n: int) -> u32
    decreases n,
{
    if n <= 0 {
        0u32
    } else {
        let prev = spec_player_bb_fold(board, ci, n - 1);
        if board[n - 1] != Piece::NoPiece && board[n - 1].spec_get_color().spec_index() == ci {
            prev | (1u32 << ((n - 1) as u32))
        } else {
            prev
        }
    }
}

/// The pawn-file flags a full recomputation derives from a board.
pub open spec fn spec_flags_fold(board: Seq<Piece>, ci: int, n: int) -> u32
    decreases n,
{
    if n <= 0 {
        0u32
    } else {
        let prev = spec_flags_fold(board, ci, n - 1);
        if board[n - 1] == pawn_of(color_of_index(ci)) {
            prev | (1u32 << (((n - 1) % 5) as u32))
        } else {
            prev
        }
    }
}

/// No color doubles unpromoted pawns on a file.
pub open spec fn spec_nifu_ok(board: Seq<Piece>) -> bool {
    forall|ci: int, f: int|
        0 <= ci < 2 && 0 <= f < 5 ==> #[trigger] pawn_count(board, color_of_index(ci), f) <= 1
}

/// The snapshot a document's header parses to: board, side and hands as
/// read, the bitboards and pawn flags recomputed; a board that doubles
/// pawns on a file falls back to a bare two-king board with empty hands.
pub open spec fn spec_parsed_core(s: Seq<char>) -> PosCore {
    let parsed = spec_parse_board(s);
    let pos2 = spec_skip_spaces(s, parsed.1);
    let stm = spec_parse_side(s, pos2);
    let pos3 = spec_skip_spaces(s, spec_skip_token(s, pos2));
    let parsed_hand = spec_parse_hand_at(s, pos3, 1, zero_hand());
    let board = if spec_nifu_ok(parsed.0) {
        parsed.0
    } else {
        blank_board().update(22, Piece::WKing).update(2, Piece::BKing)
    };
    let hand = if spec_nifu_ok(parsed.0) {
        parsed_hand.0
    } else {
        zero_hand()
    };
    PosCore {
        side_to_move: stm,
        board,
        hand,
        pawn_flags: Seq::new(2, |ci: int| spec_flags_fold(board, ci, 25)),
        piece_bb: Seq::new(21, |p: int| spec_piece_bb_fold(board, p, 25)),
        player_bb: Seq::new(2, |ci: int| spec_player_bb_fold(board, ci, 25)),
    }
}

/// Where a document's move list starts: after the board, the side token,
/// the hands and the move number.
pub open spec fn spec_moves_start(s: Seq<char>) -> int {
    let parsed = spec_parse_board(s);
    let pos2 = spec_skip_spaces(s, parsed.1);
    let pos3 = spec_skip_spaces(s, spec_skip_token(s, pos2));
    let pos4 = spec_parse_hand_at(s, pos3, 1, zero_hand()).1;
    let pos5 = spec_skip_spaces(s, pos4);
    spec_skip_spaces(s, spec_skip_token(s, pos5))
}

/// The record a parsed header starts from: the snapshot with its hash,
/// check bitboards and zeroed counters as the single recorded ply.
pub open spec fn spec_sfen_base(s: Seq<char>, t: Seq<Seq<u64>>) -> crate::state::PosState {
    let core = spec_parsed_core(s);
    crate::state::PosState {
        core,
        ply: 0,
        kif: Seq::<Move>::empty(),
        hash: seq![crate::zobrist::hash_of(core.board, core.side_to_move, t)],
        adjacent_check_bb: seq![crate::state::spec_adjacent_check(core)],
        long_check_bb: seq![crate::state::spec_long_check(core)],
        sequent_check_count: seq![(0u16, 0u16)],
        cores: seq![core],
        zobrist: t,
    }
}

/// Playing the move tokens from `pos` forward: a well-shaped token that
/// names a playable move is played, anything else is skipped.
pub open spec fn spec_play_tokens(
    v: crate::state::PosState,
    s: Seq<char>,
    pos: int,
) -> crate::state::PosState
    decreases s.len() - pos,
    via spec_play_tokens_decreases
{
    if pos < 0 || pos >= s.len() {
        v
    } else {
        let end = spec_skip_token(s, pos);
        if end == pos {
            spec_play_tokens(v, s, pos + 1)
        } else {
            let tok = s.subrange(pos, end);
            let m = spec_sfen_to_move(v.core, tok);
            let v2 = if spec_move_text_ok(tok) && v.ply < 512 && spec_move_applicable(v.core, m) {
                crate::state::spec_do_move(v, m)
            } else {
                v
            };
            spec_play_tokens(v2, s, end)
        }
    }
}

#[via_fn]
proof fn spec_play_tokens_decreases(v: crate::state::PosState, s: Seq<char>, pos: int) {
    if 0 <= pos && pos < s.len() {
        lemma_skip_token_bounds(s, pos);
    }
}

/// The SFEN text of the current snapshot's board: five rank strings with
/// run-length-encoded empties, joined by slashes.
pub open spec fn sfen_board_step(board: Seq<Piece>, i: int, st: (Seq<char>, int)) -> (
    Seq<char>,
    int,
) {
    let (acc, empty) = st;
    let (acc1, empty1) = if board[i] == Piece::NoPiece {
        (acc, empty + 1)
    } else {
        (
            (if empty > 0 {
                acc + seq![spec_digit_char(empty)]
            } else {
                acc
            }) + spec_piece_chars(board[i]),
            0int,
        )
    };
    if i % 5 == 4 {
        let acc2 = if empty1 > 0 {
            acc1 + seq![spec_digit_char(empty1)]
        } else {
            acc1
        };
        let acc3 = if i != 24 {
            acc2 + seq!['/']
        } else {
            acc2
        };
        (acc3, 0int)
    } else {
        (acc1, empty1)
    }
}

pub open spec fn sfen_board_fold(board: Seq<Piece>, n: int) -> (Seq<char>, int)
    decreases n,
{
    if n <= 0 {
        (Seq::<char>::empty(), 0int)
    } else {
        sfen_board_step(board, n - 1, sfen_board_fold(board, n - 1))
    }
}

pub open spec fn spec_sfen_board(board: Seq<Piece>) -> Seq<char> {
    sfen_board_fold(board, 25).0
}

/// The hand entry of one color and slot: its count (when positive) followed
/// by the piece letter.
pub open spec fn spec_sfen_hand_entry(c: PosCore, t: int, ci: int) -> Seq<char> {
    let cnt = c.hand[5 * ci + t];
    if cnt > 0 {
        (if cnt >= 10 {
            seq![spec_digit_char(cnt as int / 10), spec_digit_char(cnt as int % 10)]
        } else {
            seq![spec_digit_char(cnt as int)]
        }) + spec_piece_chars(
            PieceType::spec_from_hand_index(t as usize).spec_get_piece(color_of_index(ci)),
        )
    } else {
        Seq::<char>::empty()
    }
}

pub open spec fn sfen_hand_fold(c: PosCore, n: int) -> Seq<char>
    decreases n,
{
    if n <= 0 {
        Seq::<char>::empty()
    } else {
        sfen_hand_fold(c, n - 1) + spec_sfen_hand_entry(c, n - 1, 0) + spec_sfen_hand_entry(
            c,
            n - 1,
            1,
        )
    }
}

pub open spec fn spec_sfen_hand(c: PosCore) -> Seq<char> {
    if sfen_hand_fold(c, 5).len() == 0 {
        seq!['-']
    } else {
        sfen_hand_fold(c, 5)
    }
}

/// The full one-line SFEN of a snapshot, with the conventional trailing
/// move number of one.
pub open spec fn spec_sfen_position(c: PosCore) -> Seq<char> {
    spec_sfen_board(c.board) + seq![' '] + (if c.side_to_move == Color::White {
        seq!['b']
    } else {
        seq!['w']
    }) + seq![' '] + spec_sfen_hand(c) + seq![' ', '1']
}

/// The texts of the recorded moves, each preceded by a space.
pub open spec fn spec_kif_texts(kif: Seq<Move>, n: int) -> Seq<char>
    decreases n,
{
    if n <= 0 {
        Seq::<char>::empty()
    } else {
        spec_kif_texts(kif, n - 1) + seq![' '] + kif[n - 1].spec_sfen()
    }
}

impl Position {
    /// Rebuild the piece and occupancy bitboards from the board.
    fn set_bitboard(&mut self)
        requires
            core_shape(old(self)@.core),
        ensures
            core_shape(final (self)@.core),
            final (self)@.core.board == old(self)@.core.board,
            final (self)@.core.side_to_move == old(self)@.core.side_to_move,
            final (self)@.core.hand == old(self)@.core.hand,
            final (self)@.core.pawn_flags == old(self)@.core.pawn_flags,
            final (self)@.ply == old(self)@.ply,
            final (self)@.kif == old(self)@.kif,
            final (self)@.hash == old(self)@.hash,
            final (self)@.adjacent_check_bb == old(self)@.adjacent_check_bb,
            final (self)@.long_check_bb == old(self)@.long_check_bb,
            final (self)@.sequent_check_count == old(self)@.sequent_check_count,
            final (self)@.cores == old(self)@.cores,
            final (self)@.zobrist == old(self)@.zobrist,
            final (self)@.core.piece_bb[0] == 0,
            forall|p: int|
                0 <= p < 21 ==> crate::bitboard::bb_fits(#[trigger] final (self)@.core.piece_bb[p]),
            crate::bitboard::bb_fits(final (self)@.core.player_bb[0]),
            crate::bitboard::bb_fits(final (self)@.core.player_bb[1]),
            forall|p: int, sq: u32|
                1 <= p < 21 && sq < 25 ==> (#[trigger] bb_has(final (self)@.core.piece_bb[p], sq)
                    <==> final (self)@.core.board[sq as int].spec_index() == p),
            forall|sq: u32|
                sq < 25 ==> (bb_has(final (self)@.core.player_bb[0], #[trigger] (sq as u32))
                    <==> final (self)@.core.board[sq as int].spec_get_color() == Color::White),
            forall|sq: u32|
                sq < 25 ==> (bb_has(final (self)@.core.player_bb[1], #[trigger] (sq as u32))
                    <==> final (self)@.core.board[sq as int].spec_get_color() == Color::Black),
            forall|p: int|
                0 <= p < 21 ==> final (self)@.core.piece_bb[p] == spec_piece_bb_fold(
                    final (self)@.core.board,
                    p,
                    25,
                ),
            forall|ci: int|
                0 <= ci < 2 ==> final (self)@.core.player_bb[ci] == spec_player_bb_fold(
                    final (self)@.core.board,
                    ci,
                    25,
                ),
    {
        let mut p: usize = 0;
        while p < 21
            invariant
                p <= 21,
                core_shape(self@.core),
                self@.core.board == old(self)@.core.board,
                self@.core.side_to_move == old(self)@.core.side_to_move,
                self@.core.hand == old(self)@.core.hand,
                self@.core.pawn_flags == old(self)@.core.pawn_flags,
                self@.ply == old(self)@.ply,
                self@.kif == old(self)@.kif,
                self@.hash == old(self)@.hash,
                self@.adjacent_check_bb == old(self)@.adjacent_check_bb,
                self@.long_check_bb == old(self)@.long_check_bb,
                self@.sequent_check_count == old(self)@.sequent_check_count,
                self@.cores == old(self)@.cores,
                self@.zobrist == old(self)@.zobrist,
                self@.core.player_bb == old(self)@.core.player_bb,
                forall|k: int| 0 <= k < p ==> #[trigger] self@.core.piece_bb[k] == 0,
            decreases 21 - p,
        {
            self.piece_bb[p] = 0;
            p = p + 1;
        }
        self.player_bb[0] = 0;
        self.player_bb[1] = 0;
        proof {
            lemma_bb_fits_single(0);
            assert forall|k: int, sq: u32|
                1 <= k < 21 && sq < 25 implies !#[trigger] bb_has(self@.core.piece_bb[k], sq) by {
                lemma_bb_zero(sq);
            }
            assert forall|sq: u32|
                sq < 25 implies !bb_has(self@.core.player_bb[0], #[trigger] (sq as u32)) && !bb_has(
                self@.core.player_bb[1],
                sq,
            ) by {
                lemma_bb_zero(sq);
            }
        }
        let mut i: usize = 0;
        while i < SQUARE_NB
            invariant
                i <= 25,
                core_shape(self@.core),
                self@.core.board == old(self)@.core.board,
                self@.core.side_to_move == old(self)@.core.side_to_move,
                self@.core.hand == old(self)@.core.hand,
                self@.core.pawn_flags == old(self)@.core.pawn_flags,
                self@.ply == old(self)@.ply,
                self@.kif == old(self)@.kif,
                self@.hash == old(self)@.hash,
                self@.adjacent_check_bb == old(self)@.adjacent_check_bb,
                self@.long_check_bb == old(self)@.long_check_bb,
                self@.sequent_check_count == old(self)@.sequent_check_count,
                self@.cores == old(self)@.cores,
                self@.zobrist == old(self)@.zobrist,
                self@.core.piece_bb[0] == 0,
                forall|k: int|
                    0 <= k < 21 ==> crate::bitboard::bb_fits(#[trigger] self@.core.piece_bb[k]),
                crate::bitboard::bb_fits(self@.core.player_bb[0]),
                crate::bitboard::bb_fits(self@.core.player_bb[1]),
                forall|k: int, sq: u32|
                    1 <= k < 21 && sq < 25 ==> (#[trigger] bb_has(self@.core.piece_bb[k], sq) <==> (
                    sq < i && self@.core.board[sq as int].spec_index() == k)),
                forall|sq: u32|
                    sq < 25 ==> (bb_has(self@.core.player_bb[0], #[trigger] (sq as u32)) <==> (sq
                        < i && self@.core.board[sq as int].spec_get_color() == Color::White)),
                forall|sq: u32|
                    sq < 25 ==> (bb_has(self@.core.player_bb[1], #[trigger] (sq as u32)) <==> (sq
                        < i && self@.core.board[sq as int].spec_get_color() == Color::Black)),
                forall|k: int|
                    0 <= k < 21 ==> #[trigger] self@.core.piece_bb[k] == spec_piece_bb_fold(
                        self@.core.board,
                        k,
                        i as int,
                    ),
                forall|ci: int|
                    0 <= ci < 2 ==> #[trigger] self@.core.player_bb[ci] == spec_player_bb_fold(
                        self@.core.board,
                        ci,
                        i as int,
                    ),
            decreases 25 - i,
        {
            let ghost pre = self@.core;
            let piece = self.board[i];
            if piece != Piece::NoPiece {
                let idx = piece.index();
                assert(1 <= idx < 21);
                let bit: u32 = 1u32 << (i as u32);
                proof {
                    lemma_bb_fits_single(i as u32);
                    lemma_bb_fits_or(pre.piece_bb[idx as int], bit);
                }
                self.piece_bb[idx] = self.piece_bb[idx] | bit;
                let ci = piece.get_color().index();
                assert(ci < 2);
                proof {
                    lemma_bb_fits_or(pre.player_bb[ci as int], bit);
                }
                self.player_bb[ci] = self.player_bb[ci] | bit;
                proof {
                    assert forall|k: int, sq: u32|
                        1 <= k < 21 && sq < 25 implies (#[trigger] bb_has(
                        self@.core.piece_bb[k],
                        sq,
                    ) <==> (sq < i + 1 && self@.core.board[sq as int].spec_index() == k)) by {
                        lemma_bb_single(i as u32, sq);
                        if k == idx {
                            lemma_bb_or(pre.piece_bb[k], bit, sq);
                        }
                    }
                    assert forall|sq: u32|
                        sq < 25 implies (bb_has(self@.core.player_bb[0], #[trigger] (sq as u32))
                        <==> (sq < i + 1 && self@.core.board[sq as int].spec_get_color()
                        == Color::White)) by {
                        lemma_bb_single(i as u32, sq);
                        if ci == 0 {
                            lemma_bb_or(pre.player_bb[0], bit, sq);
                        }
                    }
                    assert forall|sq: u32|
                        sq < 25 implies (bb_has(self@.core.player_bb[1], #[trigger] (sq as u32))
                        <==> (sq < i + 1 && self@.core.board[sq as int].spec_get_color()
                        == Color::Black)) by {
                        lemma_bb_single(i as u32, sq);
                        if ci == 1 {
                            lemma_bb_or(pre.player_bb[1], bit, sq);
                        }
                    }
                }
            }
            i = i + 1;
        }
    }

    /// Recompute the pawn-file flags from the board. The result reports
    /// whether no color doubles pawns on a file.
    fn set_pawn_flags(&mut self) -> (ok: bool)
        requires
            core_shape(old(self)@.core),
        ensures
            core_shape(final (self)@.core),
            final (self)@.core.board == old(self)@.core.board,
            final (self)@.core.side_to_move == old(self)@.core.side_to_move,
            final (self)@.core.hand == old(self)@.core.hand,
            final (self)@.core.piece_bb == old(self)@.core.piece_bb,
            final (self)@.core.player_bb == old(self)@.core.player_bb,
            final (self)@.ply == old(self)@.ply,
            final (self)@.kif == old(self)@.kif,
            final (self)@.hash == old(self)@.hash,
            final (self)@.adjacent_check_bb == old(self)@.adjacent_check_bb,
            final (self)@.long_check_bb == old(self)@.long_check_bb,
            final (self)@.sequent_check_count == old(self)@.sequent_check_count,
            final (self)@.cores == old(self)@.cores,
            final (self)@.zobrist == old(self)@.zobrist,
            forall|ci: int| 0 <= ci < 2 ==> (#[trigger] final (self)@.core.pawn_flags[ci]) >> 5u32
                == 0,
            forall|ci: int, f: u32|
                0 <= ci < 2 && f < 5 ==> (#[trigger] bb_has(final (self)@.core.pawn_flags[ci], f)
                    <==> pawn_count(final (self)@.core.board, color_of_index(ci), f as int) > 0),
            forall|ci: int|
                0 <= ci < 2 ==> final (self)@.core.pawn_flags[ci] == spec_flags_fold(
                    final (self)@.core.board,
                    ci,
                    25,
                ),
            ok <==> spec_nifu_ok(final (self)@.core.board),
    {
        self.pawn_flags[0] = 0;
        self.pawn_flags[1] = 0;
        proof {
            assert(0u32 >> 5u32 == 0) by (bit_vector);
        }
        let mut ok = true;
        let mut i: usize = 0;
        proof {
            assert forall|ci: int, f: u32| 0 <= ci < 2 && f < 5 implies (!#[trigger] bb_has(
                self@.core.pawn_flags[ci],
                f,
            )) by {
                lemma_bb_zero(f);
            }
        }
        while i < SQUARE_NB
            invariant
                i <= 25,
                core_shape(self@.core),
                self@.core.board == old(self)@.core.board,
                self@.core.side_to_move == old(self)@.core.side_to_move,
                self@.core.hand == old(self)@.core.hand,
                self@.core.piece_bb == old(self)@.core.piece_bb,
                self@.core.player_bb == old(self)@.core.player_bb,
                self@.ply == old(self)@.ply,
                self@.kif == old(self)@.kif,
                self@.hash == old(self)@.hash,
                self@.adjacent_check_bb == old(self)@.adjacent_check_bb,
                self@.long_check_bb == old(self)@.long_check_bb,
                self@.sequent_check_count == old(self)@.sequent_check_count,
                self@.cores == old(self)@.cores,
                self@.zobrist == old(self)@.zobrist,
                forall|ci: int| 0 <= ci < 2 ==> (#[trigger] self@.core.pawn_flags[ci]) >> 5u32
                    == 0,
                forall|ci: int, f: u32|
                    0 <= ci < 2 && f < 5 ==> (#[trigger] bb_has(self@.core.pawn_flags[ci], f)
                        <==> pawn_count_upto(
                        self@.core.board,
                        color_of_index(ci),
                        f as int,
                        i as int,
                    ) > 0),
                ok ==> forall|ci: int, f: int|
                    0 <= ci < 2 && 0 <= f < 5 ==> #[trigger] pawn_count_upto(
                        self@.core.board,
                        color_of_index(ci),
                        f,
                        i as int,
                    ) <= 1,
                forall|ci: int|
                    0 <= ci < 2 ==> #[trigger] self@.core.pawn_flags[ci] == spec_flags_fold(
                        self@.core.board,
                        ci,
                        i as int,
                    ),
                !ok ==> exists|ci: int, f: int|
                    0 <= ci < 2 && 0 <= f < 5 && #[trigger] pawn_count_upto(
                        self@.core.board,
                        color_of_index(ci),
                        f,
                        i as int,
                    ) >= 2,
            decreases 25 - i,
        {
            let ghost pre = self@.core;
            let piece = self.board[i];
            if piece == Piece::WPawn || piece == Piece::BPawn {
                let ci: usize = if piece == Piece::WPawn {
                    0
                } else {
                    1
                };
                let bit: u32 = 1u32 << ((i % 5) as u32);
                let ghost was_dup = self.pawn_flags@[ci as int] & bit != 0;
                let ghost ok_pre = ok;
                if self.pawn_flags[ci] & bit != 0 {
                    ok = false;
                }
                self.pawn_flags[ci] = self.pawn_flags[ci] | bit;
                proof {
                    lemma_pf_fits(pre.pawn_flags[ci as int], (i % 5) as u32);
                    if was_dup {
                        assert(bb_has(pre.pawn_flags[ci as int], (i % 5) as u32));
                        assert(pawn_count_upto(
                            self@.core.board,
                            color_of_index(ci as int),
                            (i % 5) as int,
                            i as int,
                        ) > 0);
                        assert(pawn_weight(
                            i as int,
                            self@.core.board[i as int],
                            color_of_index(ci as int),
                            (i % 5) as int,
                        ) == 1);
                        assert(pawn_count_upto(
                            self@.core.board,
                            color_of_index(ci as int),
                            (i % 5) as int,
                            i as int + 1,
                        ) >= 2);
                    }
                    if !ok_pre {
                        let (cw, fw) = choose|cw: int, fw: int|
                            0 <= cw < 2 && 0 <= fw < 5 && #[trigger] pawn_count_upto(
                                self@.core.board,
                                color_of_index(cw),
                                fw,
                                i as int,
                            ) >= 2;
                        assert(pawn_count_upto(
                            self@.core.board,
                            color_of_index(cw),
                            fw,
                            i as int + 1,
                        ) >= 2);
                    }
                    if ok {
                        assert forall|cj: int, f: int|
                            0 <= cj < 2 && 0 <= f < 5 implies #[trigger] pawn_count_upto(
                            self@.core.board,
                            color_of_index(cj),
                            f,
                            i as int + 1,
                        ) <= 1 by {
                            lemma_pawn_count_bounds(
                                self@.core.board,
                                color_of_index(cj),
                                f,
                                i as int,
                            );
                            if cj == ci && f == spec_col(i as int) {
                                lemma_bb_single((i % 5) as u32, f as u32);
                                assert(!bb_has(pre.pawn_flags[cj], f as u32));
                            }
                        }
                    }
                    assert forall|cj: int, f: u32|
                        0 <= cj < 2 && f < 5 implies (#[trigger] bb_has(
                        self@.core.pawn_flags[cj],
                        f,
                    ) <==> pawn_count_upto(
                        self@.core.board,
                        color_of_index(cj),
                        f as int,
                        i as int + 1,
                    ) > 0) by {
                        lemma_bb_single((i % 5) as u32, f);
                        lemma_pawn_count_bounds(
                            self@.core.board,
                            color_of_index(cj),
                            f as int,
                            i as int,
                        );
                        if cj == ci {
                            lemma_bb_or(pre.pawn_flags[cj], bit, f);
                        }
                    }
                }
            } else {
                proof {
                    assert forall|cj: int, f: u32|
                        0 <= cj < 2 && f < 5 implies (#[trigger] bb_has(
                        self@.core.pawn_flags[cj],
                        f,
                    ) <==> pawn_count_upto(
                        self@.core.board,
                        color_of_index(cj),
                        f as int,
                        i as int + 1,
                    ) > 0) by {
                        lemma_pawn_count_bounds(
                            self@.core.board,
                            color_of_index(cj),
                            f as int,
                            i as int,
                        );
                    }
                    if !ok {
                        let (cw, fw) = choose|cw: int, fw: int|
                            0 <= cw < 2 && 0 <= fw < 5 && #[trigger] pawn_count_upto(
                                self@.core.board,
                                color_of_index(cw),
                                fw,
                                i as int,
                            ) >= 2;
                        assert(pawn_count_upto(
                            self@.core.board,
                            color_of_index(cw),
                            fw,
                            i as int + 1,
                        ) >= 2);
                    }
                    if ok {
                        assert forall|cj: int, f: int|
                            0 <= cj < 2 && 0 <= f < 5 implies #[trigger] pawn_count_upto(
                            self@.core.board,
                            color_of_index(cj),
                            f,
                            i as int + 1,
                        ) <= 1 by {
                            lemma_pawn_count_bounds(
                                self@.core.board,
                                color_of_index(cj),
                                f,
                                i as int,
                            );
                        }
                    }
                }
            }
            i = i + 1;
        }
        proof {
            if !ok {
                let (cw, fw) = choose|cw: int, fw: int|
                    0 <= cw < 2 && 0 <= fw < 5 && #[trigger] pawn_count_upto(
                        self@.core.board,
                        color_of_index(cw),
                        fw,
                        25,
                    ) >= 2;
                assert(pawn_count(self@.core.board, color_of_index(cw), fw) >= 2);
                assert(!spec_nifu_ok(self@.core.board));
            } else {
                assert forall|ci: int, f: int|
                    0 <= ci < 2 && 0 <= f < 5 implies #[trigger] pawn_count(
                    self@.core.board,
                    color_of_index(ci),
                    f,
                ) <= 1 by {}
            }
        }
        ok
    }

    /// Runtime test of `do_move`'s applicability conditions.
    pub fn is_applicable(&self, m: &Move) -> (r: bool)
        requires
            core_shape(self@.core),
        ensures
            r == spec_move_applicable(self@.core, *m),
    {
        let stm = self.side_to_move;
        if stm == Color::NoColor {
            return false;
        }
        if m.piece == Piece::NoPiece {
            return false;
        }
        if m.piece.get_color() != stm {
            return false;
        }
        if m.to >= 25 {
            return false;
        }
        if m.capture_piece.get_piece_type() == PieceType::King {
            return false;
        }
        if m.amount == 0 {
            let hidx = m.piece.get_piece_type().hand_index();
            if hidx >= 5 {
                return false;
            }
            if self.hand[5 * stm.index() + hidx] == 0 {
                return false;
            }
            if self.board[m.to] != Piece::NoPiece {
                return false;
            }
            if m.capture_piece != Piece::NoPiece {
                return false;
            }
            if m.piece.get_piece_type() == PieceType::Pawn && self.pawn_flags[stm.index()] & (1u32
                << ((m.to % 5) as u32)) != 0 {
                return false;
            }
            true
        } else {
            if m.from >= 25 {
                return false;
            }
            if m.from == m.to {
                return false;
            }
            if self.board[m.from] != m.piece {
                return false;
            }
            if self.board[m.to] != m.capture_piece {
                return false;
            }
            if m.capture_piece != Piece::NoPiece && m.capture_piece.get_color()
                != stm.get_op_color() {
                return false;
            }
            if m.promotion && !m.piece.is_promotable() {
                return false;
            }
            if m.piece.get_piece_type() == PieceType::Pawn && m.to % 5 != m.from % 5 {
                return false;
            }
            true
        }
    }

    /// Parse an SFEN document: board, side, hands and move number, then play
    /// any recorded moves. Malformed input never panics: an inconsistent
    /// board falls back to a bare two-king position, unplayable move tokens
    /// are ignored.
    /// Rebuild the derived state from the parsed board, side and hands, and
    /// reset the history to that single snapshot.
    #[verifier::rlimit(100)]
    fn rebuild_header_state(&mut self, Ghost(sv): Ghost<Seq<char>>)
        requires
            core_shape(old(self)@.core),
            table_wf(old(self)@.zobrist),
            old(self)@.core.board == spec_parse_board(sv).0,
            old(self)@.core.hand == spec_parse_hand_at(
                sv,
                spec_skip_spaces(
                    sv,
                    spec_skip_token(sv, spec_skip_spaces(sv, spec_parse_board(sv).1)),
                ),
                1,
                zero_hand(),
            ).0,
            forall|k: int| 0 <= k < 10 ==> #[trigger] old(self)@.core.hand[k] <= 9,
            old(self)@.core.side_to_move == spec_parse_side(
                sv,
                spec_skip_spaces(sv, spec_parse_board(sv).1),
            ),
            old(self)@.core.side_to_move != Color::NoColor,
        ensures
            final (self).wf(),
            final (self)@ == spec_sfen_base(sv, old(self)@.zobrist),
            final (self)@.core.side_to_move != Color::NoColor,
            final (self)@.zobrist == old(self)@.zobrist,
    {
        let ghost parsed_board = spec_parse_board(sv).0;
        // derived state
        self.set_bitboard();
        let flags_ok = self.set_pawn_flags();
        assert(flags_ok == spec_nifu_ok(parsed_board));
        if !flags_ok {
            // fall back to a bare two-king board
            let ghost side_pre = self@.core.side_to_move;
            let mut i: usize = 0;
            while i < SQUARE_NB
                invariant
                    i <= 25,
                    core_shape(self@.core),
                    table_wf(self@.zobrist),
                    self@.zobrist == old(self)@.zobrist,
                    self@.core.side_to_move == side_pre,
                    self@.core.side_to_move != Color::NoColor,
                    forall|k: int| 0 <= k < i ==> #[trigger] self@.core.board[k] == Piece::NoPiece,
                decreases 25 - i,
            {
                self.board[i] = Piece::NoPiece;
                i = i + 1;
            }
            let mut i: usize = 0;
            while i < 10
                invariant
                    i <= 10,
                    core_shape(self@.core),
                    table_wf(self@.zobrist),
                    self@.zobrist == old(self)@.zobrist,
                    self@.core.side_to_move == side_pre,
                    self@.core.side_to_move != Color::NoColor,
                    forall|k: int| 0 <= k < 25 ==> #[trigger] self@.core.board[k]
                        == Piece::NoPiece,
                    forall|k: int| 0 <= k < i ==> #[trigger] self@.core.hand[k] == 0,
                decreases 10 - i,
            {
                self.hand[i] = 0;
                i = i + 1;
            }
            assert(self@.core.board =~= blank_board());
            assert(self@.core.hand =~= zero_hand());
            self.board[22] = Piece::WKing;
            self.board[2] = Piece::BKing;
            assert(self@.core.board =~= blank_board().update(22, Piece::WKing).update(
                2,
                Piece::BKing,
            ));
            self.set_bitboard();
            let second = self.set_pawn_flags();
            proof {
                assert forall|ci: int, f: int|
                    0 <= ci < 2 && 0 <= f < 5 implies #[trigger] pawn_count(
                    self@.core.board,
                    color_of_index(ci),
                    f,
                ) <= 1 by {
                    assert(forall|sq: int|
                        0 <= sq < 25 ==> #[trigger] self@.core.board[sq] != pawn_of(
                            color_of_index(ci),
                        ));
                    lemma_pawn_count_zero(self@.core.board, color_of_index(ci), f, 25);
                }
            }
        }
        proof {
            assert forall|t: int|
                0 <= t < 5 implies self@.core.hand[t] + self@.core.hand[5 + t] + #[trigger] raw_count(
                self@.core.board,
                t,
            ) <= 43 by {
                lemma_raw_count_bounds(self@.core.board, t, 25);
            }
        }
        assert(core_wf(self@.core));
        let ghost pc = spec_parsed_core(sv);
        proof {
            assert(self@.core.board =~= pc.board);
            assert(self@.core.hand =~= pc.hand);
            assert(self@.core.pawn_flags =~= pc.pawn_flags);
            assert(self@.core.piece_bb =~= pc.piece_bb);
            assert(self@.core.player_bb =~= pc.player_bb);
            assert(self@.core =~~= pc);
        }
        // reset history to the parsed snapshot
        let h0 = self.calculate_hash();
        let checks = self.compute_check_bb();
        self.ply = 0;
        let mut hv: Vec<u64> = Vec::new();
        hv.push(h0);
        self.hash = hv;
        self.kif = Vec::new();
        let mut av: Vec<u32> = Vec::new();
        av.push(checks.0);
        self.adjacent_check_bb = av;
        let mut lv: Vec<u32> = Vec::new();
        lv.push(checks.1);
        self.long_check_bb = lv;
        let mut scv: Vec<(u16, u16)> = Vec::new();
        scv.push((0, 0));
        self.sequent_check_count = scv;
        proof {
            self.history@ = seq![self@.core];
        }
        assert(self@.cores =~= seq![self@.core]);
        assert(self.wf());
        let ghost base = spec_sfen_base(sv, old(self)@.zobrist);
        proof {
            assert(self@.hash =~= base.hash);
            assert(self@.kif =~= base.kif);
            assert(self@.adjacent_check_bb =~= base.adjacent_check_bb);
            assert(self@.long_check_bb =~= base.long_check_bb);
            assert(self@.sequent_check_count =~= base.sequent_check_count);
            assert(self@.cores =~= base.cores);
            assert(self@ =~~= base);
        }
        assert(self@ == spec_sfen_base(sv, old(self)@.zobrist));
    }

    #[verifier::rlimit(100)]
    pub fn set_sfen(&mut self, sfen: &str)
        requires
            core_shape(old(self)@.core),
            table_wf(old(self)@.zobrist),
        ensures
            final (self).wf(),
            final (self)@.core.side_to_move != Color::NoColor,
            final (self)@.zobrist == old(self)@.zobrist,
            final (self)@ == spec_play_tokens(
                spec_sfen_base(sfen@, old(self)@.zobrist),
                sfen@,
                spec_moves_start(sfen@),
            ),
    {
        let ghost sv = sfen@;
        let n = sfen.unicode_len();
        // reset board and hands
        let mut i: usize = 0;
        while i < SQUARE_NB
            invariant
                i <= 25,
                core_shape(self@.core),
                table_wf(self@.zobrist),
                self@.zobrist == old(self)@.zobrist,
                forall|k: int| 0 <= k < i ==> #[trigger] self@.core.board[k] == Piece::NoPiece,
            decreases 25 - i,
        {
            self.board[i] = Piece::NoPiece;
            i = i + 1;
        }
        let mut i: usize = 0;
        while i < 10
            invariant
                i <= 10,
                core_shape(self@.core),
                table_wf(self@.zobrist),
                self@.zobrist == old(self)@.zobrist,
                forall|k: int| 0 <= k < 25 ==> #[trigger] self@.core.board[k] == Piece::NoPiece,
                forall|k: int| 0 <= k < i ==> #[trigger] self@.core.hand[k] == 0,
            decreases 10 - i,
        {
            self.hand[i] = 0;
            i = i + 1;
        }
        assert(self@.core.board =~= blank_board());
        assert(self@.core.hand =~= zero_hand());
        // board section
        let mut pos: usize = 0;
        let mut square: usize = 0;
        let mut promote = false;
        while pos < n
            invariant
                pos <= n,
                n == sv.len(),
                sv == sfen@,
                square <= 25,
                core_shape(self@.core),
                table_wf(self@.zobrist),
                self@.zobrist == old(self)@.zobrist,
                self@.core.hand == zero_hand(),
                spec_parse_board_at(sv, pos as int, square as int, promote, self@.core.board)
                    == spec_parse_board(sv),
            ensures
                pos <= n,
                n == sv.len(),
                sv == sfen@,
                core_shape(self@.core),
                table_wf(self@.zobrist),
                self@.zobrist == old(self)@.zobrist,
                self@.core.hand == zero_hand(),
                self@.core.board == spec_parse_board(sv).0,
                pos == spec_parse_board(sv).1,
            decreases n - pos,
        {
            let ch = sfen.get_char(pos);
            if ch == ' ' {
                break ;
            }
            pos = pos + 1;
            if ch == '+' {
                promote = true;
            } else if ch == '/' {
                // next rank
            } else if digit_val(ch) < 10 {
                let d = digit_val(ch);
                square = if square + d > 25 {
                    25
                } else {
                    square + d
                };
            } else if square < 25 {
                let mut piece = char_to_piece(ch);
                if promote {
                    piece = piece.get_promoted();
                }
                self.board[square] = piece;
                promote = false;
                square = square + 1;
            }
        }
        // the side to move
        pos = skip_spaces(sfen, pos);
        assert(pos == spec_skip_spaces(sv, spec_parse_board(sv).1));
        if pos < n && sfen.get_char(pos) == 'b' {
            self.side_to_move = Color::White;
        } else {
            self.side_to_move = Color::Black;
        }
        assert(self@.core.side_to_move == spec_parse_side(
            sv,
            spec_skip_spaces(sv, spec_parse_board(sv).1),
        ));
        pos = skip_token(sfen, pos);
        pos = skip_spaces(sfen, pos);
        let ghost pos3 = pos as int;
        // the hands
        let mut count: usize = 1;
        while pos < n
            invariant
                pos <= n,
                n == sv.len(),
                sv == sfen@,
                count <= 9,
                core_shape(self@.core),
                table_wf(self@.zobrist),
                self@.zobrist == old(self)@.zobrist,
                self@.core.side_to_move != Color::NoColor,
                self@.core.side_to_move == spec_parse_side(
                    sv,
                    spec_skip_spaces(sv, spec_parse_board(sv).1),
                ),
                self@.core.board == spec_parse_board(sv).0,
                forall|k: int| 0 <= k < 10 ==> #[trigger] self@.core.hand[k] <= 9,
                spec_parse_hand_at(sv, pos as int, count as int, self@.core.hand)
                    == spec_parse_hand_at(sv, pos3, 1, zero_hand()),
            ensures
                pos <= n,
                n == sv.len(),
                sv == sfen@,
                core_shape(self@.core),
                table_wf(self@.zobrist),
                self@.zobrist == old(self)@.zobrist,
                self@.core.side_to_move != Color::NoColor,
                self@.core.side_to_move == spec_parse_side(
                    sv,
                    spec_skip_spaces(sv, spec_parse_board(sv).1),
                ),
                self@.core.board == spec_parse_board(sv).0,
                forall|k: int| 0 <= k < 10 ==> #[trigger] self@.core.hand[k] <= 9,
                self@.core.hand == spec_parse_hand_at(sv, pos3, 1, zero_hand()).0,
                pos == spec_parse_hand_at(sv, pos3, 1, zero_hand()).1,
            decreases n - pos,
        {
            let ch = sfen.get_char(pos);
            if ch == ' ' {
                break ;
            }
            pos = pos + 1;
            if ch == '-' {
                // empty hands
            } else if digit_val(ch) < 10 {
                count = digit_val(ch);
            } else {
                let piece = char_to_piece(ch);
                if piece != Piece::NoPiece {
                    let hidx = piece.get_piece_type().hand_index();
                    if hidx < 5 {
                        self.hand[5 * piece.get_color().index() + hidx] = count as u8;
                    }
                    count = 1;
                }
            }
        }
        proof {
            assert(pos3 == spec_skip_spaces(
                sv,
                spec_skip_token(sv, spec_skip_spaces(sv, spec_parse_board(sv).1)),
            ));
        }
        pos = skip_spaces(sfen, pos);
        // the move number is always one and is skipped
        pos = skip_token(sfen, pos);
        pos = skip_spaces(sfen, pos);
        assert(pos == spec_moves_start(sv));
        let ghost moves_pos = pos as int;
        let ghost parsed_board = spec_parse_board(sv).0;
        self.rebuild_header_state(Ghost(sv));
        let ghost base = spec_sfen_base(sv, old(self)@.zobrist);
        // play any recorded moves; tokens that are not playable moves are
        // ignored, which also skips the word introducing the list
        while pos < n
            invariant
                pos <= n,
                n == sv.len(),
                sv == sfen@,
                self.wf(),
                self@.core.side_to_move != Color::NoColor,
                self@.zobrist == old(self)@.zobrist,
                spec_play_tokens(self@, sv, pos as int) == spec_play_tokens(base, sv, moves_pos),
            ensures
                self@ == spec_play_tokens(base, sv, moves_pos),
                self.wf(),
                self@.core.side_to_move != Color::NoColor,
                self@.zobrist == old(self)@.zobrist,
            decreases n - pos,
        {
            let ghost v_pre = self@;
            let end = skip_token(sfen, pos);
            if end == pos {
                pos = pos + 1;
                continue ;
            }
            let token = sfen.substring_char(pos, end);
            if move_text_ok(token) && self.ply < MAX_PLY {
                let m = self.parse_move_text(token);
                if self.is_applicable(&m) {
                    self.do_move(&m);
                }
            }
            assert(spec_play_tokens(v_pre, sv, pos as int) == spec_play_tokens(
                self@,
                sv,
                end as int,
            ));
            pos = end;
        }
    }

    /// Reset to the standard starting position.
    pub fn set_start_position(&mut self)
        requires
            core_shape(old(self)@.core),
            table_wf(old(self)@.zobrist),
        ensures
            final (self).wf(),
            final (self)@.core.side_to_move != Color::NoColor,
            final (self)@.zobrist == old(self)@.zobrist,
            final (self)@ == spec_play_tokens(
                spec_sfen_base("rbsgk/4p/5/P4/KGSBR b - 1"@, old(self)@.zobrist),
                "rbsgk/4p/5/P4/KGSBR b - 1"@,
                spec_moves_start("rbsgk/4p/5/P4/KGSBR b - 1"@),
            ),
    {
        self.set_sfen("rbsgk/4p/5/P4/KGSBR b - 1");
    }

    /// The move named by an SFEN token, in the context of this position.
    fn parse_move_text(&self, s: &str) -> (r: Move)
        requires
            core_shape(self@.core),
            spec_move_text_ok(s@),
        ensures
            r == spec_sfen_to_move(self@.core, s@),
    {
        if s.get_char(1) == '*' {
            let to = 5 * rank_val(s.get_char(3)) + file_val(s.get_char(2));
            Move::hand_move(
                char_to_piece(s.get_char(0)).get_piece_type().get_piece(self.side_to_move),
                to,
            )
        } else {
            let from = 5 * rank_val(s.get_char(1)) + file_val(s.get_char(0));
            let to = 5 * rank_val(s.get_char(3)) + file_val(s.get_char(2));
            let rel = get_relation(from, to);
            Move::board_move(
                self.board[from],
                from,
                rel.0,
                rel.1,
                to,
                s.unicode_len() == 5,
                self.board[to],
            )
        }
    }

    /// The move named by an SFEN move text, in the context of this position.
    pub fn sfen_to_move(&self, sfen: String) -> (r: Move)
        requires
            core_shape(self@.core),
            spec_move_text_ok(sfen@),
        ensures
            r == spec_sfen_to_move(self@.core, sfen@),
    {
        self.parse_move_text(sfen.as_str())
    }
}

/// The pending empty count of the board fold never exceeds the position in
/// the current rank.
proof fn lemma_sfen_fold_empty(board: Seq<Piece>, n: int)
    requires
        0 <= n <= 25,
    ensures
        0 <= sfen_board_fold(board, n).1 <= n % 5,
    decreases n,
{
    if n > 0 {
        lemma_sfen_fold_empty(board, n - 1);
    }
}

/// The full SFEN of a record: the starting snapshot followed by the moves.
pub open spec fn spec_sfen_record(v: crate::state::PosState) -> Seq<char> {
    spec_sfen_position(v.cores[0]) + (if v.ply > 0 {
        seq![' ', 'm', 'o', 'v', 'e', 's'] + spec_kif_texts(v.kif, v.ply)
    } else {
        Seq::<char>::empty()
    })
}

impl Position {
    /// The SFEN text of the current snapshot.
    pub fn get_sfen_position(&self) -> (r: String)
        requires
            core_wf(self@.core),
        ensures
            r@ == spec_sfen_position(self@.core),
    {
        let ghost c = self@.core;
        let mut s = String::new();
        let mut empty: u8 = 0;
        let mut i: usize = 0;
        proof {
            lemma_sfen_fold_empty(c.board, 0);
        }
        while i < SQUARE_NB
            invariant
                i <= 25,
                core_wf(c),
                c == self@.core,
                s@ == sfen_board_fold(c.board, i as int).0,
                empty as int == sfen_board_fold(c.board, i as int).1,
                empty <= 5,
            decreases 25 - i,
        {
            let ghost st = sfen_board_fold(c.board, i as int);
            if self.board[i] == Piece::NoPiece {
                empty = empty + 1;
            } else {
                if empty > 0 {
                    push_char(&mut s, digit_char(empty));
                }
                empty = 0;
                push_piece_chars(&mut s, self.board[i]);
            }
            if i % 5 == 4 {
                if empty > 0 {
                    push_char(&mut s, digit_char(empty));
                }
                empty = 0;
                if i != 24 {
                    push_char(&mut s, '/');
                }
            }
            proof {
                lemma_sfen_fold_empty(c.board, i as int + 1);
                assert(s@ =~= sfen_board_fold(c.board, i as int + 1).0);
            }
            i = i + 1;
        }
        push_char(&mut s, ' ');
        if self.side_to_move == Color::White {
            push_char(&mut s, 'b');
        } else {
            push_char(&mut s, 'w');
        }
        push_char(&mut s, ' ');
        // the hands
        let mut hand_s = String::new();
        let mut t: usize = 0;
        while t < 5
            invariant
                t <= 5,
                core_wf(c),
                c == self@.core,
                hand_s@ == sfen_hand_fold(c, t as int),
            decreases 5 - t,
        {
            proof {
                lemma_raw_count_bounds(c.board, t as int, 25);
                assert(c.hand[t as int] + c.hand[5 + t as int] + raw_count(c.board, t as int)
                    <= 43);
            }
            let cw = self.hand[t];
            assert(cw < 100);
            if cw > 0 {
                if cw >= 10 {
                    push_char(&mut hand_s, digit_char(cw / 10));
                    push_char(&mut hand_s, digit_char(cw % 10));
                } else {
                    push_char(&mut hand_s, digit_char(cw));
                }
                push_piece_chars(
                    &mut hand_s,
                    PieceType::from_hand_index(t).get_piece(Color::White),
                );
            }
            assert(hand_s@ =~= sfen_hand_fold(c, t as int) + spec_sfen_hand_entry(c, t as int, 0));
            let cb = self.hand[5 + t];
            assert(cb < 100);
            if cb > 0 {
                if cb >= 10 {
                    push_char(&mut hand_s, digit_char(cb / 10));
                    push_char(&mut hand_s, digit_char(cb % 10));
                } else {
                    push_char(&mut hand_s, digit_char(cb));
                }
                push_piece_chars(
                    &mut hand_s,
                    PieceType::from_hand_index(t).get_piece(Color::Black),
                );
            }
            assert(hand_s@ =~= sfen_hand_fold(c, t as int) + spec_sfen_hand_entry(c, t as int, 0)
                + spec_sfen_hand_entry(c, t as int, 1));
            t = t + 1;
        }
        if hand_s.as_str().unicode_len() == 0 {
            push_char(&mut s, '-');
        } else {
            s.append(hand_s.as_str());
        }
        push_char(&mut s, ' ');
        push_char(&mut s, '1');
        assert(s@ =~= spec_sfen_position(c));
        s
    }

    /// The SFEN of the position: the current snapshot alone, or with
    /// `history` the starting snapshot followed by every recorded move.
    #[verifier::rlimit(100)]
    pub fn sfen(&self, history: bool) -> (r: String)
        requires
            self.wf(),
            self.side_to_move != Color::NoColor,
        ensures
            !history ==> r@ == spec_sfen_position(self@.core),
            history ==> r@ == spec_sfen_record(self@),
    {
        if !history {
            return self.get_sfen_position();
        }
        let mut p = self.copy(true);
        while p.ply > 0
            invariant
                p.wf(),
                p@.zobrist == self@.zobrist,
                p@.cores == self@.cores.subrange(0, p@.ply + 1),
                p@.kif == self@.kif.subrange(0, p@.ply),
                p@.ply <= self@.ply,
                self.wf(),
            decreases p.ply,
        {
            p.undo_move();
            proof {
                assert(p@.cores =~= self@.cores.subrange(0, p@.ply + 1));
                assert(p@.kif =~= self@.kif.subrange(0, p@.ply));
            }
        }
        assert(p@.core == self@.cores[0]);
        let mut s = p.get_sfen_position();
        if self.ply > 0 {
            push_char(&mut s, ' ');
            push_char(&mut s, 'm');
            push_char(&mut s, 'o');
            push_char(&mut s, 'v');
            push_char(&mut s, 'e');
            push_char(&mut s, 's');
            assert(s@ =~= spec_sfen_position(self@.cores[0]) + seq![' ', 'm', 'o', 'v', 'e', 's']);
            let mut i: usize = 0;
            while i < self.ply
                invariant
                    i <= self@.ply,
                    self.wf(),
                    self.side_to_move != Color::NoColor,
                    s@ == spec_sfen_position(self@.cores[0]) + seq![' ', 'm', 'o', 'v', 'e', 's']
                        + spec_kif_texts(self@.kif, i as int),
                decreases self@.ply - i,
            {
                push_char(&mut s, ' ');
                let m = self.kif[i];
                proof {
                    assert(spec_move_applicable(self@.cores[i as int], self@.kif[i as int]));
                }
                let text = m.sfen();
                s.append(text.as_str());
                assert(s@ =~= spec_sfen_position(self@.cores[0]) + seq![
                    ' ',
                    'm',
                    'o',
                    'v',
                    'e',
                    's',
                ] + spec_kif_texts(self@.kif, i as int + 1));
                i = i + 1;
            }
        }
        assert(s@ =~= spec_sfen_record(self@));
        s
    }

    /// The SFEN texts of the recorded moves.
    pub fn get_kif(&self) -> (r: Vec<String>)
        requires
            self.wf(),
        ensures
            r@.len() == self@.ply,
            forall|i: int| 0 <= i < r@.len() ==> (#[trigger] r@[i])@ == self@.kif[i].spec_sfen(),
    {
        let mut r: Vec<String> = Vec::new();
        let mut i: usize = 0;
        while i < self.ply
            invariant
                i <= self@.ply,
                self.wf(),
                r@.len() == i,
                forall|k: int| 0 <= k < i ==> (#[trigger] r@[k])@ == self@.kif[k].spec_sfen(),
            decreases self@.ply - i,
        {
            let m = self.kif[i];
            proof {
                assert(spec_move_applicable(self@.cores[i as int], self@.kif[i as int]));
            }
            r.push(m.sfen());
            i = i + 1;
        }
        r
    }

    /// The CSA texts of the recorded moves.
    pub fn get_csa_kif(&self) -> (r: Vec<String>)
        requires
            self.wf(),
        ensures
            r@.len() == self@.ply,
            forall|i: int|
                0 <= i < r@.len() ==> (#[trigger] r@[i])@ == self@.kif[i].spec_csa_sfen(),
    {
        let mut r: Vec<String> = Vec::new();
        let mut i: usize = 0;
        while i < self.ply
            invariant
                i <= self@.ply,
                self.wf(),
                r@.len() == i,
                forall|k: int| 0 <= k < i ==> (#[trigger] r@[k])@ == self@.kif[k].spec_csa_sfen(),
            decreases self@.ply - i,
        {
            let m = self.kif[i];
            proof {
                assert(spec_move_applicable(self@.cores[i as int], self@.kif[i as int]));
            }
            r.push(m.csa_sfen());
            i = i + 1;
        }
        r
    }
}

/// Advance past any spaces.
fn skip_spaces(s: &str, pos: usize) -> (r: usize)
    requires
        pos <= s@.len(),
    ensures
        pos <= r <= s@.len(),
        r == spec_skip_spaces(s@, pos as int),
{
    let n = s.unicode_len();
    let mut p = pos;
    while p < n && s.get_char(p) == ' '
        invariant
            pos <= p <= n,
            n == s@.len(),
            spec_skip_spaces(s@, p as int) == spec_skip_spaces(s@, pos as int),
        decreases n - p,
    {
        p = p + 1;
    }
    p
}

/// Advance past the current token.
fn skip_token(s: &str, pos: usize) -> (r: usize)
    requires
        pos <= s@.len(),
    ensures
        pos <= r <= s@.len(),
        r == spec_skip_token(s@, pos as int),
{
    let n = s.unicode_len();
    let mut p = pos;
    while p < n && s.get_char(p) != ' '
        invariant
            pos <= p <= n,
            n == s@.len(),
            spec_skip_token(s@, p as int) == spec_skip_token(s@, pos as int),
        decreases n - p,
    {
        p = p + 1;
    }
    p
}

/// Law: converting a pseudo-legal move to its SFEN text and parsing it back
/// in the same position recovers the move exactly.
pub proof fn lemma_move_sfen_round_trip(c: PosCore, m: Move)
    requires
        core_wf(c),
        c.side_to_move == Color::White || c.side_to_move == Color::Black,
        m.amount != 0 ==> spec_board_sound(c, m),
        m.amount == 0 ==> spec_drop_sound(c, m),
    ensures
        spec_move_text_ok(m.spec_sfen()),
        spec_sfen_to_move(c, m.spec_sfen()) == m,
{
    let s = m.spec_sfen();
    if m.amount == 0 {
        assert(m.piece != Piece::NoPiece);
        assert(s[1] == '*');
        assert(spec_file_val(s[2]) == spec_col(m.to as int));
        assert(spec_rank_val(s[3]) == spec_row(m.to as int));
        assert(5 * spec_rank_val(s[3]) + spec_file_val(s[2]) == m.to as int);
        assert(spec_char_to_piece(s[0]).spec_get_piece_type().spec_get_piece(c.side_to_move)
            == m.piece);
    } else {
        assert(m.piece != Piece::NoPiece);
        assert(s[0] == crate::moves::spec_file_char(spec_col(m.from as int)));
        assert(s[1] == crate::moves::spec_rank_char(spec_row(m.from as int)));
        assert(s[1] != '*');
        assert(spec_file_val(s[0]) == spec_col(m.from as int));
        assert(spec_rank_val(s[1]) == spec_row(m.from as int));
        assert(spec_file_val(s[2]) == spec_col(m.to as int));
        assert(spec_rank_val(s[3]) == spec_row(m.to as int));
        assert(5 * spec_rank_val(s[1]) + spec_file_val(s[0]) == m.from as int);
        assert(5 * spec_rank_val(s[3]) + spec_file_val(s[2]) == m.to as int);
        assert(s.len() == 5 <==> m.promotion);
    }
}

} // verus!
