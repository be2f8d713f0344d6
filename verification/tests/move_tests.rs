use minishogilib::moves::get_relation;
use minishogilib::types::Direction;

#[test]
fn get_relation_test() {
    assert_eq!(get_relation(20, 15), (Direction::N, 1));

    assert_eq!(get_relation(20, 4), (Direction::NE, 4));
    assert_eq!(get_relation(4, 20), (Direction::SW, 4));
    assert_eq!(get_relation(0, 24), (Direction::SE, 4));
    assert_eq!(get_relation(24, 0), (Direction::NW, 4));

    assert_eq!(get_relation(20, 0), (Direction::N, 4));
    assert_eq!(get_relation(0, 20), (Direction::S, 4));
    assert_eq!(get_relation(0, 4), (Direction::E, 4));
    assert_eq!(get_relation(4, 0), (Direction::W, 4));

    assert_eq!(get_relation(21, 9), (Direction::NE, 3));
}
