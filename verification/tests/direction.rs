use snake_game::snake::{Direction, Snake};

#[test]
fn test_direction() {
    let upwards_body = vec![(9, 10), (10, 10)];
    let downwards_body = vec![(11, 10), (10, 10)];
    let rightwards_body = vec![(10, 11), (10, 10)];
    let leftwards_body = vec![(10, 9), (10, 10)];
    assert_eq!(Snake::head_direction(&upwards_body), Direction::Up);
    assert_eq!(Snake::head_direction(&downwards_body), Direction::Down);
    assert_eq!(Snake::head_direction(&rightwards_body), Direction::Right);
    assert_eq!(Snake::head_direction(&leftwards_body), Direction::Left);
}

#[test]
fn test_advance_deltas() {
    let cases = [
        (Direction::Up, (-1, 0)),
        (Direction::Right, (0, 1)),
        (Direction::Down, (1, 0)),
        (Direction::Left, (0, -1)),
    ];
    for (direction, delta) in cases {
        let mut snake = Snake::from_body(&[(5, 5), (5, 4)]);
        snake.direction = direction;
        snake.advance();
        assert_eq!(snake.body[0], (5 + delta.0, 5 + delta.1));
        assert_eq!(snake.body.len(), 2);
    }
}

#[test]
fn test_from_body() {
    let snake = Snake::from_body(&[(3, 3), (4, 3), (5, 3)]);
    assert_eq!(snake.direction, Direction::Up);
    assert_eq!(snake.confines, (20, 20));
    assert!(!snake.lengthening);
    let cells: Vec<(i32, i32)> = snake.body.iter().copied().collect();
    assert_eq!(cells, vec![(3, 3), (4, 3), (5, 3)]);
}
