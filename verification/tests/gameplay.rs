use snake_game::game::{get_snake_direction_from_keypress, get_starting_game, Game};
use snake_game::print_rendering::{get_snake_direction_from_input, stringy_main};
use snake_game::snake::{Direction, Snake};

fn body_vec(game: &Game) -> Vec<(i32, i32)> {
    game.snake.body.iter().copied().collect()
}

#[test]
fn test_advance_scenario() {
    // 3 x 3 grid, snake filling the middle row and heading right: the head
    // pushes onto column 3, the tail cell leaves, and the snake is dead
    // because column 3 is outside a width of 3.
    let mut game = Game::new(3, 3, &[(1, 2), (1, 1), (1, 0)]);
    assert_eq!(game.snake.direction, Direction::Right);
    assert!(!game.snake.dead());
    game.advance();
    assert_eq!(body_vec(&game), vec![(1, 3), (1, 2), (1, 1)]);
    assert!(game.snake.dead());
    // The tick did not eat, so the length is unchanged.
    assert_eq!(game.snake.body.len(), 3);
    assert_eq!(game.score, 0);
}

#[test]
fn test_growth_on_eating() {
    let mut game = Game::new(5, 5, &[(2, 2), (2, 1)]);
    game.apples.push((2, 3));
    let starting_length: usize = game.snake.body.len();
    game.advance();
    // The eating tick itself only flags the growth.
    assert_eq!(game.score, 1);
    assert!(game.snake.lengthening);
    assert_eq!(game.snake.body.len(), starting_length);
    game.advance();
    // The next tick keeps the tail in place: net growth of one cell.
    assert_eq!(game.snake.body.len(), starting_length + 1);
    assert!(!game.snake.lengthening || !game.apples.is_empty());
}

#[test]
fn test_no_growth_without_eating() {
    let mut game = Game::new(5, 5, &[(2, 2), (2, 1)]);
    game.apples.push((0, 0));
    let starting_length: usize = game.snake.body.len();
    game.advance();
    assert_eq!(game.snake.body.len(), starting_length);
    assert_eq!(game.score, 0);
    assert!(!game.snake.lengthening);
    assert_eq!(game.apples, vec![(0, 0)]);
}

#[test]
fn test_dead_wall() {
    // Confines (3, 3), body [(0,1), (1,1), (2,1)] moving up: the next head
    // is (-1, 1), so the snake is dead.
    let mut game = Game::new(3, 3, &[(0, 1), (1, 1), (2, 1)]);
    assert!(!game.snake.dead());
    game.advance();
    assert_eq!(body_vec(&game)[0], (-1, 1));
    assert!(game.snake.dead());
}

#[test]
fn test_dead_self_collision() {
    // A lengthening snake turning down onto its own tail cell dies: the tail
    // stays put, so the head meets another body segment.
    let mut game = Game::new(5, 5, &[(1, 1), (1, 2), (2, 2), (2, 1)]);
    game.snake.direction = Direction::Down;
    game.snake.lengthening = true;
    game.advance();
    assert_eq!(body_vec(&game), vec![(2, 1), (1, 1), (1, 2), (2, 2), (2, 1)]);
    assert!(game.snake.dead());
}

#[test]
fn test_tail_cell_reuse_is_not_death() {
    // Moving onto the cell the tail just vacated is a legal move.
    let mut game = Game::new(5, 5, &[(1, 1), (1, 2), (2, 2), (2, 1)]);
    game.snake.direction = Direction::Down;
    game.advance();
    assert_eq!(body_vec(&game), vec![(2, 1), (1, 1), (1, 2), (2, 2)]);
    assert!(!game.snake.dead());
}

#[test]
fn test_spawn_avoids_occupied() {
    let mut seen: Vec<(i32, i32)> = Vec::new();
    for _ in 0..50 {
        let mut game = Game::new(3, 3, &[(1, 1), (1, 0)]);
        game.advance();
        assert_eq!(game.apples.len(), 1);
        let apple = game.apples[0];
        assert!(!body_vec(&game).contains(&apple));
        assert!(apple.0 >= 0 && apple.0 < 3);
        assert!(apple.1 >= 0 && apple.1 < 3);
        if !seen.contains(&apple) {
            seen.push(apple);
        }
    }
    // The choice is random over the free cells: 50 draws over 7 free cells
    // land on more than one of them, for any realistic generator.
    assert!(seen.len() > 1);
}

#[test]
fn test_board_full_no_spawn() {
    // After the move the snake covers the whole 1 x 1 board, so no apple can
    // be spawned and the set stays empty.
    let mut game = Game::new(1, 1, &[(0, 0), (0, -1)]);
    game.advance();
    assert_eq!(body_vec(&game), vec![(0, 1), (0, 0)]);
    assert!(game.apples.is_empty());
}

#[test]
fn test_direction_change_rules() {
    // A request that reverses the current heading is rejected outright.
    assert_eq!(
        get_snake_direction_from_keypress(Direction::Up, Direction::Down),
        None
    );
    assert_eq!(
        get_snake_direction_from_keypress(Direction::Down, Direction::Up),
        None
    );
    assert_eq!(
        get_snake_direction_from_keypress(Direction::Left, Direction::Right),
        None
    );
    assert_eq!(
        get_snake_direction_from_keypress(Direction::Right, Direction::Left),
        None
    );
    // Straight on or a 90 degree turn is accepted.
    assert_eq!(
        get_snake_direction_from_keypress(Direction::Up, Direction::Up),
        Some(Direction::Up)
    );
    assert_eq!(
        get_snake_direction_from_keypress(Direction::Up, Direction::Left),
        Some(Direction::Up)
    );
    assert_eq!(
        get_snake_direction_from_keypress(Direction::Right, Direction::Up),
        Some(Direction::Right)
    );
}

#[test]
fn test_direction_latch() {
    let mut game = Game::new(5, 5, &[(2, 2), (2, 1)]);
    assert_eq!(game.snake.direction, Direction::Right);
    game.change_direction(Direction::Up);
    assert_eq!(game.snake.direction, Direction::Up);
    // A second change within the same tick is ignored.
    game.change_direction(Direction::Left);
    assert_eq!(game.snake.direction, Direction::Up);
    // The tick releases the latch.
    game.advance();
    // A reversal is rejected even with the latch released.
    game.change_direction(Direction::Down);
    assert_eq!(game.snake.direction, Direction::Up);
    // The rejection did not consume the latch.
    game.change_direction(Direction::Left);
    assert_eq!(game.snake.direction, Direction::Left);
}

#[test]
fn test_input_mapping() {
    assert_eq!(get_snake_direction_from_input('w'), Some(Direction::Up));
    assert_eq!(get_snake_direction_from_input('a'), Some(Direction::Left));
    assert_eq!(get_snake_direction_from_input('s'), Some(Direction::Down));
    assert_eq!(get_snake_direction_from_input('d'), Some(Direction::Right));
    assert_eq!(get_snake_direction_from_input('x'), None);
    assert_eq!(get_snake_direction_from_input('\n'), None);
}

#[test]
fn test_straight_glyphs() {
    // Entering and leaving a segment along one heading draws it straight.
    assert_eq!(
        Snake::get_body_glyph_from_directions(Direction::Up, Direction::Up),
        '\u{2551}'
    );
    assert_eq!(
        Snake::get_body_glyph_from_directions(Direction::Down, Direction::Down),
        '\u{2551}'
    );
    assert_eq!(
        Snake::get_body_glyph_from_directions(Direction::Left, Direction::Left),
        '\u{2550}'
    );
    assert_eq!(
        Snake::get_body_glyph_from_directions(Direction::Right, Direction::Right),
        '\u{2550}'
    );
}

#[test]
fn test_corner_glyphs() {
    assert_eq!(
        Snake::get_body_glyph_from_directions(Direction::Up, Direction::Right),
        '\u{255d}'
    );
    assert_eq!(
        Snake::get_body_glyph_from_directions(Direction::Up, Direction::Left),
        '\u{255a}'
    );
    assert_eq!(
        Snake::get_body_glyph_from_directions(Direction::Right, Direction::Up),
        '\u{2554}'
    );
    assert_eq!(
        Snake::get_body_glyph_from_directions(Direction::Down, Direction::Right),
        '\u{2557}'
    );
}

#[test]
fn test_stringy_main_state() {
    let game = stringy_main();
    assert_eq!(
        body_vec(&game),
        vec![(10, 10), (10, 9), (10, 8), (10, 7), (10, 6)]
    );
    assert_eq!(game.snake.direction, Direction::Right);
    assert_eq!(game.apples, vec![(4, 4), (9, 9), (9, 10)]);
    assert_eq!(game.width, 20);
    assert_eq!(game.height, 20);
    assert_eq!(game.score, 0);
    assert!(!game.over);
    assert_eq!(game.snake.confines, (20, 20));
}

#[test]
fn test_starting_game() {
    let game = get_starting_game();
    assert_eq!(
        body_vec(&game),
        vec![(10, 10), (10, 11), (10, 12), (10, 13), (10, 14)]
    );
    assert_eq!(game.snake.direction, Direction::Left);
    assert_eq!(game.apples.len(), 1);
    let apple = game.apples[0];
    assert!(!body_vec(&game).contains(&apple));
    assert!(apple.0 >= 0 && apple.0 < 20);
    assert!(apple.1 >= 0 && apple.1 < 20);
}
