use minishogilib::types::Color;
use minishogilib::types::Piece;
use minishogilib::types::PieceType;

#[test]
fn get_op_color_test() {
    assert!(Color::White.get_op_color() == Color::Black);
    assert!(Color::Black.get_op_color() == Color::White);
}

#[test]
fn get_promoted_test() {
    // Piece
    assert!(Piece::WSilver.get_promoted() == Piece::WSilverX);
    assert!(Piece::WBishop.get_promoted() == Piece::WBishopX);
    assert!(Piece::WRook.get_promoted() == Piece::WRookX);
    assert!(Piece::WPawn.get_promoted() == Piece::WPawnX);
    assert!(Piece::BSilver.get_promoted() == Piece::BSilverX);
    assert!(Piece::BBishop.get_promoted() == Piece::BBishopX);
    assert!(Piece::BRook.get_promoted() == Piece::BRookX);
    assert!(Piece::BPawn.get_promoted() == Piece::BPawnX);

    // PieceType
    assert!(PieceType::Silver.get_promoted() == PieceType::SilverX);
    assert!(PieceType::Bishop.get_promoted() == PieceType::BishopX);
    assert!(PieceType::Rook.get_promoted() == PieceType::RookX);
    assert!(PieceType::Pawn.get_promoted() == PieceType::PawnX);
}

#[test]
fn is_promoted_test() {
    // Piece
    assert!(!Piece::WKing.is_promoted());
    assert!(!Piece::WGold.is_promoted());
    assert!(!Piece::WSilver.is_promoted());
    assert!(!Piece::WBishop.is_promoted());
    assert!(!Piece::WRook.is_promoted());
    assert!(!Piece::WPawn.is_promoted());
    assert!(Piece::WSilverX.is_promoted());
    assert!(Piece::WBishopX.is_promoted());
    assert!(Piece::WRookX.is_promoted());
    assert!(Piece::WPawnX.is_promoted());
    assert!(!Piece::BKing.is_promoted());
    assert!(!Piece::BGold.is_promoted());
    assert!(!Piece::BSilver.is_promoted());
    assert!(!Piece::BBishop.is_promoted());
    assert!(!Piece::BRook.is_promoted());
    assert!(!Piece::BPawn.is_promoted());
    assert!(Piece::BSilverX.is_promoted());
    assert!(Piece::BBishopX.is_promoted());
    assert!(Piece::BRookX.is_promoted());
    assert!(Piece::BPawnX.is_promoted());

    // PieceType
    assert!(!PieceType::King.is_promoted());
    assert!(!PieceType::Gold.is_promoted());
    assert!(!PieceType::Silver.is_promoted());
    assert!(!PieceType::Bishop.is_promoted());
    assert!(!PieceType::Rook.is_promoted());
    assert!(!PieceType::Pawn.is_promoted());
    assert!(PieceType::SilverX.is_promoted());
    assert!(PieceType::BishopX.is_promoted());
    assert!(PieceType::RookX.is_promoted());
    assert!(PieceType::PawnX.is_promoted());
}

#[test]
fn get_raw_test() {
    // Piece
    assert!(Piece::WSilverX.get_raw() == Piece::WSilver);
    assert!(Piece::WBishopX.get_raw() == Piece::WBishop);
    assert!(Piece::WRookX.get_raw() == Piece::WRook);
    assert!(Piece::WPawnX.get_raw() == Piece::WPawn);
    assert!(Piece::BSilverX.get_raw() == Piece::BSilver);
    assert!(Piece::BBishopX.get_raw() == Piece::BBishop);
    assert!(Piece::BRookX.get_raw() == Piece::BRook);
    assert!(Piece::BPawnX.get_raw() == Piece::BPawn);

    // PieceType
    assert!(PieceType::SilverX.get_raw() == PieceType::Silver);
    assert!(PieceType::BishopX.get_raw() == PieceType::Bishop);
    assert!(PieceType::RookX.get_raw() == PieceType::Rook);
    assert!(PieceType::PawnX.get_raw() == PieceType::Pawn);
}

#[test]
fn is_raw_test() {
    // Piece
    assert!(Piece::WKing.is_raw());
    assert!(Piece::WGold.is_raw());
    assert!(Piece::WBishop.is_raw());
    assert!(Piece::WRook.is_raw());
    assert!(Piece::WPawn.is_raw());
    assert!(Piece::BKing.is_raw());
    assert!(Piece::BGold.is_raw());
    assert!(Piece::BSilver.is_raw());
    assert!(Piece::BBishop.is_raw());
    assert!(Piece::BRook.is_raw());
    assert!(Piece::BPawn.is_raw());

    // PieceType
    assert!(PieceType::King.is_raw());
    assert!(PieceType::Gold.is_raw());
    assert!(PieceType::Silver.is_raw());
    assert!(PieceType::Bishop.is_raw());
    assert!(PieceType::Rook.is_raw());
    assert!(PieceType::Pawn.is_raw());
}

#[test]
fn get_piece_test() {
    assert!(PieceType::NoPieceType.get_piece(Color::White) == Piece::NoPiece);

    // White
    assert!(PieceType::King.get_piece(Color::White) == Piece::WKing);
    assert!(PieceType::Gold.get_piece(Color::White) == Piece::WGold);
    assert!(PieceType::Silver.get_piece(Color::White) == Piece::WSilver);
    assert!(PieceType::Bishop.get_piece(Color::White) == Piece::WBishop);
    assert!(PieceType::Rook.get_piece(Color::White) == Piece::WRook);
    assert!(PieceType::Pawn.get_piece(Color::White) == Piece::WPawn);
    assert!(PieceType::SilverX.get_piece(Color::White) == Piece::WSilverX);
    assert!(PieceType::BishopX.get_piece(Color::White) == Piece::WBishopX);
    assert!(PieceType::RookX.get_piece(Color::White) == Piece::WRookX);
    assert!(PieceType::PawnX.get_piece(Color::White) == Piece::WPawnX);

    // Black
    assert!(PieceType::King.get_piece(Color::Black) == Piece::BKing);
    assert!(PieceType::Gold.get_piece(Color::Black) == Piece::BGold);
    assert!(PieceType::Silver.get_piece(Color::Black) == Piece::BSilver);
    assert!(PieceType::Bishop.get_piece(Color::Black) == Piece::BBishop);
    assert!(PieceType::Rook.get_piece(Color::Black) == Piece::BRook);
    assert!(PieceType::Pawn.get_piece(Color::Black) == Piece::BPawn);
    assert!(PieceType::SilverX.get_piece(Color::Black) == Piece::BSilverX);
    assert!(PieceType::BishopX.get_piece(Color::Black) == Piece::BBishopX);
    assert!(PieceType::RookX.get_piece(Color::Black) == Piece::BRookX);
    assert!(PieceType::PawnX.get_piece(Color::Black) == Piece::BPawnX);
}

#[test]
fn get_op_piece_test() {
    assert!(Piece::NoPiece.get_op_piece() == Piece::NoPiece);

    // White
    assert!(Piece::WKing.get_op_piece() == Piece::BKing);
    assert!(Piece::WGold.get_op_piece() == Piece::BGold);
    assert!(Piece::WSilver.get_op_piece() == Piece::BSilver);
    assert!(Piece::WBishop.get_op_piece() == Piece::BBishop);
    assert!(Piece::WRook.get_op_piece() == Piece::BRook);
    assert!(Piece::WPawn.get_op_piece() == Piece::BPawn);
    assert!(Piece::WSilverX.get_op_piece() == Piece::BSilverX);
    assert!(Piece::WBishopX.get_op_piece() == Piece::BBishopX);
    assert!(Piece::WRookX.get_op_piece() == Piece::BRookX);
    assert!(Piece::WPawnX.get_op_piece() == Piece::BPawnX);

    // Black
    assert!(Piece::BKing.get_op_piece() == Piece::WKing);
    assert!(Piece::BGold.get_op_piece() == Piece::WGold);
    assert!(Piece::BSilver.get_op_piece() == Piece::WSilver);
    assert!(Piece::BBishop.get_op_piece() == Piece::WBishop);
    assert!(Piece::BRook.get_op_piece() == Piece::WRook);
    assert!(Piece::BPawn.get_op_piece() == Piece::WPawn);
    assert!(Piece::BSilverX.get_op_piece() == Piece::WSilverX);
    assert!(Piece::BBishopX.get_op_piece() == Piece::WBishopX);
    assert!(Piece::BRookX.get_op_piece() == Piece::WRookX);
    assert!(Piece::BPawnX.get_op_piece() == Piece::WPawnX);
}

#[test]
fn get_color_test() {
    assert!(Piece::NoPiece.get_color() == Color::NoColor);

    assert!(Piece::WKing.get_color() == Color::White);
    assert!(Piece::WGold.get_color() == Color::White);
    assert!(Piece::WSilver.get_color() == Color::White);
    assert!(Piece::WBishop.get_color() == Color::White);
    assert!(Piece::WRook.get_color() == Color::White);
    assert!(Piece::WPawn.get_color() == Color::White);
    assert!(Piece::WSilverX.get_color() == Color::White);
    assert!(Piece::WBishopX.get_color() == Color::White);
    assert!(Piece::WRookX.get_color() == Color::White);
    assert!(Piece::WPawnX.get_color() == Color::White);

    assert!(Piece::BKing.get_color() == Color::Black);
    assert!(Piece::BGold.get_color() == Color::Black);
    assert!(Piece::BSilver.get_color() == Color::Black);
    assert!(Piece::BBishop.get_color() == Color::Black);
    assert!(Piece::BRook.get_color() == Color::Black);
    assert!(Piece::BPawn.get_color() == Color::Black);
    assert!(Piece::BSilverX.get_color() == Color::Black);
    assert!(Piece::BBishopX.get_color() == Color::Black);
    assert!(Piece::BRookX.get_color() == Color::Black);
    assert!(Piece::BPawnX.get_color() == Color::Black);
}

#[test]
fn get_piece_type_test() {
    assert!(Piece::NoPiece.get_piece_type() == PieceType::NoPieceType);

    assert!(Piece::WKing.get_piece_type() == PieceType::King);
    assert!(Piece::WGold.get_piece_type() == PieceType::Gold);
    assert!(Piece::WSilver.get_piece_type() == PieceType::Silver);
    assert!(Piece::WBishop.get_piece_type() == PieceType::Bishop);
    assert!(Piece::WRook.get_piece_type() == PieceType::Rook);
    assert!(Piece::WPawn.get_piece_type() == PieceType::Pawn);
    assert!(Piece::WSilverX.get_piece_type() == PieceType::SilverX);
    assert!(Piece::WBishopX.get_piece_type() == PieceType::BishopX);
    assert!(Piece::WRookX.get_piece_type() == PieceType::RookX);
    assert!(Piece::WPawnX.get_piece_type() == PieceType::PawnX);

    assert!(Piece::BKing.get_piece_type() == PieceType::King);
    assert!(Piece::BGold.get_piece_type() == PieceType::Gold);
    assert!(Piece::BSilver.get_piece_type() == PieceType::Silver);
    assert!(Piece::BBishop.get_piece_type() == PieceType::Bishop);
    assert!(Piece::BRook.get_piece_type() == PieceType::Rook);
    assert!(Piece::BPawn.get_piece_type() == PieceType::Pawn);
    assert!(Piece::BSilverX.get_piece_type() == PieceType::SilverX);
    assert!(Piece::BBishopX.get_piece_type() == PieceType::BishopX);
    assert!(Piece::BRookX.get_piece_type() == PieceType::RookX);
    assert!(Piece::BPawnX.get_piece_type() == PieceType::PawnX);
}
