//! A scalable-vector rendering of the board and hands, for display in
//! notebooks and logs.

use vstd::prelude::*;
use vstd::string::StringExecFns;

use crate::position::Position;
use crate::state::core_wf;
use crate::text::push_char;
use crate::text::push_num;
use crate::text::push_str;
use crate::types::Color;
use crate::types::Piece;
use crate::types::PieceType;
use crate::types::SQUARE_NB;

verus! {

/// The character shown on a piece of the given type.
pub fn piece_type_to_kanji(piece_type: PieceType) -> (r: char)
    ensures
        true,
{
    match piece_type {
        PieceType::King => '玉',
        PieceType::Gold => '金',
        PieceType::Silver => '銀',
        PieceType::Bishop => '角',
        PieceType::Rook => '飛',
        PieceType::Pawn => '歩',
        PieceType::SilverX => '全',
        PieceType::BishopX => '馬',
        PieceType::RookX => '龍',
        PieceType::PawnX => 'と',
        PieceType::NoPieceType => ' ',
    }
}

impl Position {
    /// Append one text element at the given canvas position.
    fn push_svg_text(s: &mut String, x: u32, y: u32, rotated: bool, glyphs: &Vec<char>)
        requires
            x < 1000,
            y < 1000,
        ensures
            final (s)@.len() >= old(s)@.len(),
    {
        push_str(s, "  <text x=\"");
        push_num(s, x);
        push_str(s, "\" y=\"");
        push_num(s, y);
        push_str(s, "\" font-family=\"serif\" font-size=\"42\" text-anchor=\"middle\" dominant-baseline=\"central\"");
        if rotated {
            push_str(s, " transform=\"rotate(180, ");
            push_num(s, x);
            push_str(s, ", ");
            push_num(s, y);
            push_str(s, ")\"");
        }
        push_str(s, ">");
        let mut g: usize = 0;
        while g < glyphs.len()
            invariant
                g <= glyphs@.len(),
                s@.len() >= old(s)@.len(),
            decreases glyphs@.len() - g,
        {
            push_char(s, glyphs[g]);
            g = g + 1;
        }
        push_str(s, "</text>\n");
    }

    /// The position drawn as a scalable-vector image: the grid, the pieces
    /// with the defender's rotated, and both hands along the edges.
    pub fn to_svg(&self) -> (r: String)
        requires
            core_wf(self@.core),
        ensures
            r@.len() >= 11,
            r@.subrange(0, 4) == seq!['<', 's', 'v', 'g'],
            r@.subrange(r@.len() - 7, r@.len() as int) == seq!['<', '/', 's', 'v', 'g', '>', '\n'],
    {
        let mut inner = String::new();
        // the board grid
        let mut y: u32 = 0;
        while y < 5
            decreases 5 - y,
        {
            let mut x: u32 = 0;
            while x < 5
                invariant
                    y < 5,
                decreases 5 - x,
            {
                push_str(&mut inner, "  <rect x=\"");
                push_num(&mut inner, 64 + 64 * x);
                push_str(&mut inner, "\" y=\"");
                push_num(&mut inner, 32 + 64 * y);
                push_str(
                    &mut inner,
                    "\" width=\"64\" height=\"64\" fill=\"white\" stroke=\"black\" stroke-width=\"1\" />\n",
                );
                x = x + 1;
            }
            y = y + 1;
        }
        // the pieces
        let mut i: usize = 0;
        while i < SQUARE_NB
            invariant
                core_wf(self@.core),
            decreases 25 - i,
        {
            if self.board[i] != Piece::NoPiece {
                let kanji = piece_type_to_kanji(self.board[i].get_piece_type());
                let y: u32 = (i / 5) as u32;
                let x: u32 = (i % 5) as u32;
                let mut glyphs: Vec<char> = Vec::new();
                glyphs.push(kanji);
                let rotated = self.board[i].get_color() != Color::White;
                Self::push_svg_text(&mut inner, 96 + 64 * x, 64 + 64 * y, rotated, &glyphs);
            }
            i = i + 1;
        }
        // the hands
        let mut wi: usize = 0;
        let mut white_hand: Vec<char> = Vec::new();
        while wi < 5
            invariant
                core_wf(self@.core),
            decreases 5 - wi,
        {
            let cnt = self.hand[wi];
            if cnt != 0 {
                white_hand.push(piece_type_to_kanji(PieceType::from_hand_index(wi)));
                if cnt == 2 {
                    white_hand.push('二');
                }
            }
            wi = wi + 1;
        }
        if white_hand.len() > 0 {
            Self::push_svg_text(&mut inner, 420, 74, false, &white_hand);
        }
        let mut bi: usize = 0;
        let mut black_hand: Vec<char> = Vec::new();
        while bi < 5
            invariant
                core_wf(self@.core),
            decreases 5 - bi,
        {
            let cnt = self.hand[5 + bi];
            if cnt != 0 {
                black_hand.push(piece_type_to_kanji(PieceType::from_hand_index(bi)));
                if cnt == 2 {
                    black_hand.push('二');
                }
            }
            bi = bi + 1;
        }
        if black_hand.len() > 0 {
            Self::push_svg_text(&mut inner, 32, 310, true, &black_hand);
        }
        // assemble
        let mut s = String::new();
        push_str(
            &mut s,
            "<svg width=\"448px\" height=\"384px\"\n     xmlns=\"http://www.w3.org/2000/svg\" xmlns:xlink=\"http://www.w3.org/1999/xlink\">\n  <rect x=\"64\" y=\"32\" width=\"320\" height=\"320\" fill=\"white\" stroke=\"black\" stroke-width=\"3\" />\n",
        );
        let ghost header = s@;
        s.append(inner.as_str());
        push_str(&mut s, "</svg>\n");
        proof {
            reveal_strlit(
                "<svg width=\"448px\" height=\"384px\"\n     xmlns=\"http://www.w3.org/2000/svg\" xmlns:xlink=\"http://www.w3.org/1999/xlink\">\n  <rect x=\"64\" y=\"32\" width=\"320\" height=\"320\" fill=\"white\" stroke=\"black\" stroke-width=\"3\" />\n",
            );
            reveal_strlit("</svg>\n");
            assert(s@.subrange(0, 4) =~= seq!['<', 's', 'v', 'g']);
            assert(s@.subrange(s@.len() - 7, s@.len() as int) =~= seq![
                '<',
                '/',
                's',
                'v',
                'g',
                '>',
                '\n',
            ]);
        }
        s
    }
}

} // verus!
