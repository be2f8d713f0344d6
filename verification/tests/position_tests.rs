use rand::seq::SliceRandom;

use minishogilib::position::Position;
use minishogilib::types::Color;
use minishogilib::types::Piece;
use minishogilib::types::PieceType;
use minishogilib::types::MAX_PLY;
use minishogilib::types::SQUARE_NB;

#[test]
fn to_svg_test() {
    let mut position = Position::empty_board();
    position.set_start_position();
    println!("{}", position.to_svg());
}

#[test]
fn pawn_flags_test() {
    const LOOP_NUM: i32 = 5;

    let mut position = Position::empty_board();

    let mut rng = rand::thread_rng();

    for _ in 0..LOOP_NUM {
        position.set_start_position();

        while position.ply < MAX_PLY {
            let mut pawn_flag: [[bool; 5]; 2] = [[false; 5]; 2];

            // the incremental pawn-file flags must match the board
            for i in 0..SQUARE_NB {
                if position.board[i] == Piece::WPawn {
                    pawn_flag[0][i % 5] = true;
                } else if position.board[i] == Piece::BPawn {
                    pawn_flag[1][i % 5] = true;
                }
            }
            for i in 0..5 {
                assert_eq!(pawn_flag[0][i], (position.pawn_flags[0] & (1 << i)) != 0);
                assert_eq!(pawn_flag[1][i], (position.pawn_flags[1] & (1 << i)) != 0);
            }

            let moves = position.generate_moves();
            if moves.len() == 0 {
                break;
            }

            let random_move = moves.choose(&mut rng).unwrap();
            position.do_move(random_move);
        }
    }
}

#[test]
fn move_do_undo_test() {
    const LOOP_NUM: i32 = 3;

    let mut position = Position::empty_board();

    let mut rng = rand::thread_rng();

    for _ in 0..LOOP_NUM {
        position.set_start_position();

        while position.ply < MAX_PLY {
            let moves = position.generate_moves();

            for m in &moves {
                let mut temp_position = position.copy(true);

                if m.capture_piece.get_piece_type() == PieceType::King {
                    continue;
                }

                temp_position.do_move(m);
                temp_position.undo_move();

                // playing a move and taking it back must restore everything
                assert_eq!(position.side_to_move, temp_position.side_to_move);
                for i in 0..SQUARE_NB {
                    assert_eq!(position.board[i], temp_position.board[i]);
                }
                for i in 0..10 {
                    assert_eq!(position.hand[i], temp_position.hand[i]);
                }

                for i in 0..21 {
                    assert_eq!(position.piece_bb[i], temp_position.piece_bb[i]);
                }
                for i in 0..2 {
                    assert_eq!(position.player_bb[i], temp_position.player_bb[i]);
                }

                for i in 0..2 {
                    assert_eq!(position.pawn_flags[i], temp_position.pawn_flags[i]);
                }

                assert_eq!(position.ply, temp_position.ply);

                for i in 0..position.ply {
                    assert!(position.kif[i] == temp_position.kif[i]);
                }

                assert_eq!(position.get_hash(), temp_position.get_hash());

                for i in 0..position.ply {
                    assert_eq!(position.adjacent_check_bb[i], temp_position.adjacent_check_bb[i]);
                    assert_eq!(position.long_check_bb[i], temp_position.long_check_bb[i]);
                }

                for i in 0..position.ply {
                    assert_eq!(
                        position.sequent_check_count[i],
                        temp_position.sequent_check_count[i]
                    );
                }
            }

            if moves.len() == 0 {
                break;
            }

            let random_move = moves.choose(&mut rng).unwrap();
            position.do_move(random_move);
        }
    }
}

#[test]
fn sfen_test() {
    const LOOP_NUM: i32 = 2;

    let mut position = Position::empty_board();

    let mut rng = rand::thread_rng();

    for _ in 0..LOOP_NUM {
        position.set_start_position();

        while position.ply < MAX_PLY {
            let moves = position.generate_moves();

            {
                let mut temp_position = Position::empty_board();
                temp_position.set_sfen(&position.sfen(true));

                assert_eq!(position.side_to_move, temp_position.side_to_move);
                for i in 0..SQUARE_NB {
                    assert_eq!(position.board[i], temp_position.board[i]);
                }
                for i in 0..10 {
                    assert_eq!(position.hand[i], temp_position.hand[i]);
                }

                for i in 0..21 {
                    assert_eq!(position.piece_bb[i], temp_position.piece_bb[i]);
                }
                for i in 0..2 {
                    assert_eq!(position.player_bb[i], temp_position.player_bb[i]);
                }

                for i in 0..2 {
                    assert_eq!(position.pawn_flags[i], temp_position.pawn_flags[i]);
                }

                assert_eq!(position.ply, temp_position.ply);

                for i in 0..position.ply {
                    assert!(position.kif[i] == temp_position.kif[i]);
                }

                assert_eq!(position.get_hash(), temp_position.get_hash());

                for i in 0..position.ply {
                    assert_eq!(position.adjacent_check_bb[i], temp_position.adjacent_check_bb[i]);
                    assert_eq!(position.long_check_bb[i], temp_position.long_check_bb[i]);
                }

                for i in 0..position.ply {
                    assert_eq!(
                        position.sequent_check_count[i],
                        temp_position.sequent_check_count[i]
                    );
                }
            }

            {
                let mut temp_position = Position::empty_board();
                temp_position.set_sfen(&position.sfen(false));

                assert_eq!(position.side_to_move, temp_position.side_to_move);
                for i in 0..SQUARE_NB {
                    assert_eq!(position.board[i], temp_position.board[i]);
                }
                for i in 0..10 {
                    assert_eq!(position.hand[i], temp_position.hand[i]);
                }

                for i in 0..21 {
                    assert_eq!(position.piece_bb[i], temp_position.piece_bb[i]);
                }
                for i in 0..2 {
                    assert_eq!(position.player_bb[i], temp_position.player_bb[i]);
                }

                for i in 0..2 {
                    assert_eq!(position.pawn_flags[i], temp_position.pawn_flags[i]);
                }
            }

            if moves.len() == 0 {
                break;
            }

            let random_move = moves.choose(&mut rng).unwrap();
            position.do_move(random_move);
        }
    }
}

#[test]
fn bitboard_test() {
    const LOOP_NUM: i32 = 5;

    let mut position = Position::empty_board();

    let mut rng = rand::thread_rng();

    for _ in 0..LOOP_NUM {
        position.set_start_position();

        while position.ply < MAX_PLY {
            for i in 0..SQUARE_NB {
                if position.board[i] == Piece::NoPiece {
                    continue;
                }

                assert!(position.piece_bb[position.board[i].index()] & (1 << i) != 0);
            }

            let moves = position.generate_moves();
            if moves.len() == 0 {
                break;
            }

            let random_move = moves.choose(&mut rng).unwrap();
            position.do_move(random_move);
        }
    }
}

#[test]
fn no_legal_move_test() {
    let checkmate_sfen1 = "5/5/2p2/2g2/2K2 b P 1";
    let checkmate_sfen2 = "4k/1s1gp/p4/g1BS1/1KR2 b BRg 1";
    let checkmate_sfen3 = "4k/2G2/5/5/4R w - 1";
    let checkmate_sfen4 = "r4/5/5/2g2/K4 b - 1";
    let checkmate_sfen5 = "2G1k/5/4P/5/B4 w - 1";
    let checkmate_sfen6 = "4b/5/p4/5/K1g2 b - 1";
    let checkmate_sfen7 = "k1G2/5/P4/5/4B w - 1";
    let checkmate_sfen8 = "b4/5/4p/5/2g1K b - 1";
    let checkmate_sfen9 = "R4/2G1k/5/4P/1B3 w - 1";
    let checkmate_sfen10 = "r4/2g1K/5/4g/1b3 b - 1";

    let mut position = Position::empty_board();

    position.set_sfen(checkmate_sfen1);
    assert_eq!(position.generate_moves().len(), 0);

    position.set_sfen(checkmate_sfen2);
    assert_eq!(position.generate_moves().len(), 0);

    position.set_sfen(checkmate_sfen3);
    assert_eq!(position.generate_moves().len(), 0);

    position.set_sfen(checkmate_sfen4);
    assert_eq!(position.generate_moves().len(), 0);

    position.set_sfen(checkmate_sfen5);
    assert_eq!(position.generate_moves().len(), 0);

    position.set_sfen(checkmate_sfen6);
    assert_eq!(position.generate_moves().len(), 0);

    position.set_sfen(checkmate_sfen7);
    assert_eq!(position.generate_moves().len(), 0);

    position.set_sfen(checkmate_sfen8);
    assert_eq!(position.generate_moves().len(), 0);

    position.set_sfen(checkmate_sfen9);
    assert_eq!(position.generate_moves().len(), 0);

    position.set_sfen(checkmate_sfen10);
    assert_eq!(position.generate_moves().len(), 0);
}

#[test]
fn not_checkmate_positions() {
    let not_checkmate_sfen1 = "rb1gk/1s2R/5/P1B2/KGS2 w P 1";

    let mut position = Position::empty_board();

    position.set_sfen(not_checkmate_sfen1);
    assert!(position.generate_moves().len() > 0);
}

#[test]
fn no_king_capture_move_in_legal_moves_test() {
    const LOOP_NUM: i32 = 5;

    let mut position = Position::empty_board();

    let mut rng = rand::thread_rng();

    for _ in 0..LOOP_NUM {
        position.set_start_position();

        while position.ply < MAX_PLY {
            let moves = position.generate_moves();

            for m in &moves {
                // no legal move may capture a king
                assert!(m.capture_piece.get_piece_type() != PieceType::King);
            }

            if moves.len() == 0 {
                break;
            }

            let random_move = moves.choose(&mut rng).unwrap();
            position.do_move(random_move);
        }
    }
}

#[test]
fn generate_moves_test() {
    const LOOP_NUM: i32 = 2;

    let mut position = Position::empty_board();

    let mut rng = rand::thread_rng();

    for _ in 0..LOOP_NUM {
        position.set_start_position();

        while position.ply < MAX_PLY {
            let moves = position.generate_moves();
            let allow_illegal_moves = position.generate_moves_with_option(true, true, true);

            let mut legal_move_count = allow_illegal_moves.len();
            for m in allow_illegal_moves {
                if m.capture_piece.get_piece_type() == PieceType::King {
                    legal_move_count -= 1;
                    continue;
                }
                position.do_move(&m);

                let all_moves = position.generate_moves_with_option(true, true, true);

                for m2 in all_moves {
                    if m2.capture_piece.get_piece_type() == PieceType::King {
                        legal_move_count -= 1;
                        break;
                    }
                }

                position.undo_move();
            }

            assert_eq!(moves.len(), legal_move_count);

            if moves.len() == 0 {
                break;
            }
            let random_move = moves.choose(&mut rng).unwrap();
            position.do_move(random_move);
        }
    }
}

#[test]
fn hash_test() {
    const LOOP_NUM: i32 = 5;

    let mut position = Position::empty_board();

    let mut rng = rand::thread_rng();

    for _ in 0..LOOP_NUM {
        position.set_start_position();

        while position.ply < MAX_PLY {
            let moves = position.generate_moves();

            if moves.len() == 0 {
                break;
            }

            // the incremental hash matches a full recomputation
            assert_eq!(position.get_hash(), position.calculate_hash());

            // the turn bit matches the side to move
            assert_eq!(position.side_to_move == Color::Black, position.get_hash() & 1 != 0);

            let random_move = moves.choose(&mut rng).unwrap();
            position.do_move(random_move);
        }
    }
}

#[test]
fn is_repetition_test() {
    let start_position_sfen = "rbsgk/4p/5/P4/KGSBR b - 1";
    let repetition_sfen = "rbsgk/4p/5/P4/KGSBR b - 1 moves 5e4d 1a2b 4d5e 2b1a 5e4d 1a2b 4d5e 2b1a 5e4d 1a2b 4d5e 2b1a";
    let check_repetition_sfen = "2k2/5/5/5/2K2 b R 1 moves R*3c 3a2a 3c2c 2a3a 2c3c 3a2a 3c2c 2a3a 2c3c 3a2a 3c2c 2a3a 2c3c";
    let not_repetition_sfen =
        "rbsgk/4p/5/P4/KGSBR b - 1 moves 5e4d 1a2b 4d5e 2b1a 5e4d 1a2b 4d5e 2b1a";
    let not_check_repetition_sfen =
        "2k2/5/5/5/2K2 b R 1 moves R*3c 3a2a 3c2c 2a3a 2c3c 3a2a 3c2c 2a3a 2c3c 3a2a 3c2c 2a3a";

    let mut position = Position::empty_board();

    position.set_sfen(start_position_sfen);
    assert_eq!(position.is_repetition(), (false, false));

    position.set_sfen(repetition_sfen);
    assert_eq!(position.is_repetition(), (true, false));

    position.set_sfen(check_repetition_sfen);
    assert_eq!(position.is_repetition(), (true, true));

    position.set_sfen(not_repetition_sfen);
    assert_eq!(position.is_repetition(), (false, false));

    position.set_sfen(not_check_repetition_sfen);
    assert_eq!(position.is_repetition(), (false, false));
}

#[test]
fn get_repetition_test() {
    let start_position_sfen = "rbsgk/4p/5/P4/KGSBR b - 1";
    let repetition_sfen = "rbsgk/4p/5/P4/KGSBR b - 1 moves 5e4d 1a2b 4d5e 2b1a 5e4d 1a2b 4d5e 2b1a 5e4d 1a2b 4d5e 2b1a";
    let check_repetition_sfen = "2k2/5/5/5/2K2 b R 1 moves R*3c 3a2a 3c2c 2a3a 2c3c 3a2a 3c2c 2a3a 2c3c 3a2a 3c2c 2a3a 2c3c";
    let not_repetition_sfen =
        "rbsgk/4p/5/P4/KGSBR b - 1 moves 5e4d 1a2b 4d5e 2b1a 5e4d 1a2b 4d5e 2b1a";
    let not_check_repetition_sfen =
        "2k2/5/5/5/2K2 b R 1 moves R*3c 3a2a 3c2c 2a3a 2c3c 3a2a 3c2c 2a3a 2c3c 3a2a 3c2c 2a3a";

    let mut position = Position::empty_board();

    position.set_sfen(start_position_sfen);
    assert_eq!(position.get_repetition(), 0);

    position.set_sfen(repetition_sfen);
    assert_eq!(position.get_repetition(), 3);

    position.set_sfen(check_repetition_sfen);
    assert_eq!(position.get_repetition(), 3);

    position.set_sfen(not_repetition_sfen);
    assert_eq!(position.get_repetition(), 2);

    position.set_sfen(not_check_repetition_sfen);
    assert_eq!(position.get_repetition(), 2);
}

#[test]
fn sfen_to_move_test() {
    const LOOP_NUM: i32 = 3;

    let mut position = Position::empty_board();

    let mut rng = rand::thread_rng();

    for _ in 0..LOOP_NUM {
        position.set_start_position();

        while position.ply < MAX_PLY {
            let moves = position.generate_moves();

            if moves.len() == 0 {
                break;
            }

            for m in &moves {
                let sfen_move = position.sfen_to_move(m.sfen());
                assert_eq!(sfen_move, *m);
            }

            let random_move = moves.choose(&mut rng).unwrap();
            position.do_move(random_move);
        }
    }
}

#[test]
fn init_position_moves_test() {
    let mut position = Position::empty_board();
    position.set_start_position();
    let moves = position.generate_moves();

    assert_eq!(moves.len(), 14);
}
