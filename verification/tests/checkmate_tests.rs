use minishogilib::position::Position;

#[test]
fn checkmate_test() {
    let mut position = Position::empty_board();

    {
        position.set_sfen("2k2/5/2P2/5/2K2 b G 1");

        let start = std::time::Instant::now();
        let (checkmate, checkmate_move) = position.solve_checkmate_dfs(7);
        let elapsed = start.elapsed();

        assert_eq!(checkmate, true);
        println!(
            "{} ... {}.{} sec.",
            checkmate_move.sfen(),
            elapsed.as_secs(),
            elapsed.subsec_nanos() / 1000000
        );
    }

    {
        position.set_sfen("5/5/2k2/5/2K2 b 3G 1");

        let start = std::time::Instant::now();
        let (checkmate, checkmate_move) = position.solve_checkmate_dfs(7);
        let elapsed = start.elapsed();

        assert_eq!(checkmate, true);
        println!(
            "{} ... {}.{} sec.",
            checkmate_move.sfen(),
            elapsed.as_secs(),
            elapsed.subsec_nanos() / 1000000
        );
    }

    {
        position.set_sfen("5/5/2k2/5/2K2 b 2G 1");

        let start = std::time::Instant::now();
        let (checkmate, checkmate_move) = position.solve_checkmate_dfs(7);
        let elapsed = start.elapsed();

        assert_eq!(checkmate, false);
        println!(
            "{} ... {}.{} sec.",
            checkmate_move.sfen(),
            elapsed.as_secs(),
            elapsed.subsec_nanos() / 1000000
        );
    }

    {
        position.set_sfen("2k2/5/2B2/5/2K2 b GSBRgsr2p 1");

        let start = std::time::Instant::now();
        let (checkmate, checkmate_move) = position.solve_checkmate_dfs(7);
        let elapsed = start.elapsed();

        assert_eq!(checkmate, true);
        println!(
            "{} ... {}.{} sec.",
            checkmate_move.sfen(),
            elapsed.as_secs(),
            elapsed.subsec_nanos() / 1000000
        );
    }

    {
        position.set_sfen("2G1k/5/4G/5/2K2 b P 1");

        let start = std::time::Instant::now();
        let (checkmate, checkmate_move) = position.solve_checkmate_dfs(7);
        let elapsed = start.elapsed();

        assert_eq!(checkmate, false);
        println!(
            "{} ... {}.{} sec.",
            checkmate_move.sfen(),
            elapsed.as_secs(),
            elapsed.subsec_nanos() / 1000000
        );
    }

    {
        position.set_sfen("4k/5/4B/5/2K1R b - 1");

        let start = std::time::Instant::now();
        let (checkmate, checkmate_move) = position.solve_checkmate_dfs(7);
        let elapsed = start.elapsed();

        assert_eq!(checkmate, true);
        println!(
            "{} ... {}.{} sec.",
            checkmate_move.sfen(),
            elapsed.as_secs(),
            elapsed.subsec_nanos() / 1000000
        );
    }
}
