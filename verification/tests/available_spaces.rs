use snake_game::game::AvailableSpaces;
use std::collections::VecDeque;

#[test]
fn test_available_spaces() {
    // Checking for the 3 x 3 grid (# = occupied)
    // + - - - +
    // | . . . |
    // | # # # |
    // | . . . |
    // + - - - +
    let occupied_spaces: VecDeque<(i32, i32)> = vec![(1, 0), (1, 1), (1, 2)].into();
    let mut available_spaces = AvailableSpaces::new(3, 3, &occupied_spaces);
    assert_eq!(available_spaces.clone().count(), 6);
    assert_eq!(available_spaces.next(), Some((0, 0)));
    assert_eq!(available_spaces.next(), Some((0, 1)));
    assert_eq!(available_spaces.next(), Some((0, 2)));
    assert_eq!(available_spaces.next(), Some((2, 0)));
    assert_eq!(available_spaces.next(), Some((2, 1)));
    assert_eq!(available_spaces.next(), Some((2, 2)));
    assert_eq!(available_spaces.next(), None);
}
