use snake_game::game::Game;

#[test]
fn test_drawing_simple_snakes() {
    let (default_width, default_height): (usize, usize) = (3, 3);
    let mut render_to = vec![vec![' '; default_width]; default_height];
    let correct_upwards = " ^ \n \u{2551} \n \u{2551} \n";
    let correct_rightwards = "   \n\u{2550}\u{2550}>\n   \n";
    let correct_leftwards = "   \n<\u{2550}\u{2550}\n   \n";
    let correct_downwards = " \u{2551} \n \u{2551} \n v \n";

    let mut upwards_game = Game::new(default_width, default_height, &[(0, 1), (1, 1), (2, 1)]);
    assert_eq!(upwards_game.render_to_string(&mut render_to), correct_upwards);

    let mut rightwards_game = Game::new(default_width, default_height, &[(1, 2), (1, 1), (1, 0)]);
    assert_eq!(
        rightwards_game.render_to_string(&mut render_to),
        correct_rightwards
    );

    let mut leftwards_game = Game::new(default_width, default_height, &[(1, 0), (1, 1), (1, 2)]);
    assert_eq!(
        leftwards_game.render_to_string(&mut render_to),
        correct_leftwards
    );

    let mut downwards_game = Game::new(default_width, default_height, &[(2, 1), (1, 1), (0, 1)]);
    assert_eq!(
        downwards_game.render_to_string(&mut render_to),
        correct_downwards
    );
}

#[test]
fn test_drawing_turning_snakes() {
    let (default_width, default_height): (usize, usize) = (3, 3);
    let mut render_to = vec![vec![' '; default_width]; default_height];

    let correct_up_rightwards = " \u{2554}>\n \u{2551} \n \u{2551} \n";
    let up_rightwards_body = vec![(0, 2), (0, 1), (1, 1), (2, 1)];
    let mut up_rightwards_game = Game::new(default_width, default_height, &up_rightwards_body);
    assert_eq!(
        up_rightwards_game.render_to_string(&mut render_to),
        correct_up_rightwards
    );

    let correct_up_leftwards = "<\u{2557} \n \u{2551} \n \u{2551} \n";
    let up_leftwards_body = vec![(0, 0), (0, 1), (1, 1), (2, 1)];
    let mut up_leftwards_game = Game::new(default_width, default_height, &up_leftwards_body);
    assert_eq!(
        up_leftwards_game.render_to_string(&mut render_to),
        correct_up_leftwards
    );

    let correct_right_upwards = "  ^\n\u{2550}\u{2550}\u{255d}\n   \n";
    let right_upwards_body = vec![(0, 2), (1, 2), (1, 1), (1, 0)];
    let mut right_upwards_game = Game::new(default_width, default_height, &right_upwards_body);
    assert_eq!(
        right_upwards_game.render_to_string(&mut render_to),
        correct_right_upwards
    );

    let correct_right_downwards = "   \n\u{2550}\u{2550}\u{2557}\n  v\n";
    let right_downwards_body = vec![(2, 2), (1, 2), (1, 1), (1, 0)];
    let mut right_downwards_game = Game::new(default_width, default_height, &right_downwards_body);
    assert_eq!(
        right_downwards_game.render_to_string(&mut render_to),
        correct_right_downwards
    );

    let correct_left_upwards = "^  \n\u{255a}\u{2550}\u{2550}\n   \n";
    let left_upwards_body = vec![(0, 0), (1, 0), (1, 1), (1, 2)];
    let mut left_upwards_game = Game::new(default_width, default_height, &left_upwards_body);
    assert_eq!(
        left_upwards_game.render_to_string(&mut render_to),
        correct_left_upwards
    );

    let correct_left_downwards = "   \n\u{2554}\u{2550}\u{2550}\nv  \n";
    let left_downwards_body = vec![(2, 0), (1, 0), (1, 1), (1, 2)];
    let mut left_downwards_game = Game::new(default_width, default_height, &left_downwards_body);
    assert_eq!(
        left_downwards_game.render_to_string(&mut render_to),
        correct_left_downwards
    );

    let correct_down_leftwards = " \u{2551} \n \u{2551} \n<\u{255d} \n";
    let down_leftwards_body = vec![(2, 0), (2, 1), (1, 1), (0, 1)];
    let mut down_leftwards_game = Game::new(default_width, default_height, &down_leftwards_body);
    assert_eq!(
        down_leftwards_game.render_to_string(&mut render_to),
        correct_down_leftwards
    );

    let correct_down_rightwards = " \u{2551} \n \u{2551} \n \u{255a}>\n";
    let down_rightwards_body = vec![(2, 2), (2, 1), (1, 1), (0, 1)];
    let mut down_rightwards_game = Game::new(default_width, default_height, &down_rightwards_body);
    assert_eq!(
        down_rightwards_game.render_to_string(&mut render_to),
        correct_down_rightwards
    );
}

#[test]
fn test_drawing_apples() {
    let mut render_to = vec![vec![' '; 3]; 3];
    let mut game = Game::new(3, 3, &[(2, 0), (2, 1)]);
    game.apples.push((0, 0));
    let rendered = game.render_to_string(&mut render_to);
    assert_eq!(rendered, "O  \n   \n<\u{2550} \n");
}
