use snake_core::draw::{DrawColor, DrawCommand};
use snake_core::game::Game;
use snake_core::snake::{Block, Direction, Snake};

fn game_with_food(width: i32, height: i32, fx: i32, fy: i32) -> Game {
    let mut g = Game::new(width, height);
    g.food_exists = true;
    g.food_x = fx;
    g.food_y = fy;
    g
}

#[test]
fn new_game_starts_running_with_fresh_snake_and_no_food() {
    let g = Game::new(10, 10);
    assert_eq!(g.width, 10);
    assert_eq!(g.height, 10);
    assert!(!g.food_exists);
    assert!(!g.game_over);
    assert_eq!(g.waiting_time, 0);
    assert_eq!(
        g.snake.body,
        vec![
            Block { x: 4, y: 2 },
            Block { x: 3, y: 2 },
            Block { x: 2, y: 2 },
        ]
    );
}

#[test]
fn reversing_input_is_ignored() {
    // heading Right: a Left input must change neither heading nor position
    let mut g = game_with_food(10, 10, 8, 8);
    let body_before = g.snake.body.clone();
    g.key_pressed(Some(Direction::Left));
    assert_eq!(g.snake.head_direction(), Direction::Right);
    assert_eq!(g.snake.body, body_before);
    assert!(!g.game_over);
}

#[test]
fn non_reversing_input_moves_immediately() {
    let mut g = game_with_food(10, 10, 8, 8);
    g.key_pressed(Some(Direction::Down));
    assert_eq!(g.snake.head_direction(), Direction::Down);
    assert_eq!(g.snake.head_position(), (4, 3));
    assert_eq!(g.snake.body.len(), 3);
}

#[test]
fn non_directional_input_reaffirms_heading_and_moves() {
    let mut g = game_with_food(10, 10, 8, 8);
    g.key_pressed(None);
    assert_eq!(g.snake.head_direction(), Direction::Right);
    assert_eq!(g.snake.head_position(), (5, 2));
}

#[test]
fn input_is_ignored_while_game_over() {
    let mut g = game_with_food(10, 10, 8, 8);
    g.game_over = true;
    let body_before = g.snake.body.clone();
    g.key_pressed(Some(Direction::Down));
    assert_eq!(g.snake.body, body_before);
    assert_eq!(g.snake.head_direction(), Direction::Right);
    assert!(g.game_over);
}

#[test]
fn placed_food_is_inside_the_border_and_off_the_snake() {
    for _ in 0..50 {
        let mut g = Game::new(8, 8);
        g.add_food();
        assert!(g.food_exists);
        assert!(1 <= g.food_x && g.food_x <= 6);
        assert!(1 <= g.food_y && g.food_y <= 6);
        assert!(!g.snake.overlap_tail(g.food_x, g.food_y));
    }
}

#[test]
fn food_placement_is_not_constant() {
    // with a uniform draw over a 6 x 6 interior, 50 placements landing on one
    // single cell would be astronomically unlikely
    let mut seen = Vec::new();
    for _ in 0..50 {
        let mut g = Game::new(8, 8);
        g.add_food();
        let p = (g.food_x, g.food_y);
        if !seen.contains(&p) {
            seen.push(p);
        }
    }
    assert!(seen.len() >= 2);
}

#[test]
fn update_places_food_when_absent() {
    let mut g = Game::new(10, 10);
    g.update(1);
    assert!(g.food_exists);
    assert!(1 <= g.food_x && g.food_x <= 8);
    assert!(1 <= g.food_y && g.food_y <= 8);
    assert!(!g.snake.overlap_tail(g.food_x, g.food_y));
    // one millisecond is under the movement period: no move yet
    assert_eq!(g.snake.head_position(), (4, 2));
    assert_eq!(g.waiting_time, 1);
}

#[test]
fn update_moves_only_after_the_movement_period() {
    let mut g = game_with_food(10, 10, 8, 8);
    g.update(100);
    assert_eq!(g.snake.head_position(), (4, 2));
    assert_eq!(g.waiting_time, 100);
    g.update(1);
    assert_eq!(g.snake.head_position(), (5, 2));
    assert_eq!(g.waiting_time, 0);
}

#[test]
fn eating_clears_food_and_grows_the_snake() {
    // head at (4, 2) heading Right; food exactly one step ahead
    let mut g = game_with_food(10, 10, 5, 2);
    g.update_snake(Some(Direction::Right));
    assert!(!g.food_exists);
    assert_eq!(g.snake.body.len(), 4);
    assert_eq!(
        g.snake.body,
        vec![
            Block { x: 5, y: 2 },
            Block { x: 4, y: 2 },
            Block { x: 3, y: 2 },
            Block { x: 2, y: 2 },
        ]
    );
    assert!(!g.game_over);
}

#[test]
fn food_on_a_diagonal_coincidence_is_not_eaten() {
    // eating takes exact cell equality: drive the head to (3, 3) with food at
    // (9, 3); a comparison mixing up coordinates would treat this as a hit
    let mut g = game_with_food(10, 10, 9, 3);
    g.key_pressed(Some(Direction::Down));
    g.key_pressed(Some(Direction::Left));
    assert_eq!(g.snake.head_position(), (3, 3));
    assert!(g.food_exists);
    assert_eq!(g.snake.body.len(), 3);
}

#[test]
fn hitting_the_wall_ends_the_game_without_moving() {
    // width 7: the playable x range is 1..=5, the head starts at width - 3
    let mut g = game_with_food(7, 7, 1, 5);
    g.update(101);
    assert_eq!(g.snake.head_position(), (5, 2));
    assert!(!g.game_over);
    let body_before = g.snake.body.clone();
    assert!(!g.check_if_snake_alive(None));
    g.update(101);
    assert!(g.game_over);
    assert_eq!(g.snake.body, body_before);
    assert_eq!(g.snake.head_position(), (5, 2));
}

#[test]
fn u_turn_into_the_body_ends_the_game_without_moving() {
    let mut g = game_with_food(10, 10, 1, 1);
    g.snake = Snake {
        direction: Direction::Right,
        body: vec![
            Block { x: 5, y: 5 },
            Block { x: 4, y: 5 },
            Block { x: 3, y: 5 },
            Block { x: 2, y: 5 },
            Block { x: 1, y: 5 },
        ],
        tail: None,
    };
    g.key_pressed(Some(Direction::Down));
    g.key_pressed(Some(Direction::Left));
    // the head at (4, 6) would re-enter (4, 5), which the body still occupies
    let body_before = g.snake.body.clone();
    assert!(!g.check_if_snake_alive(Some(Direction::Up)));
    g.key_pressed(Some(Direction::Up));
    assert!(g.game_over);
    assert_eq!(g.snake.body, body_before);
}

#[test]
fn restart_after_the_delay_gives_a_fresh_running_game() {
    let mut g = game_with_food(7, 7, 1, 5);
    g.update(101);
    g.update(101);
    assert!(g.game_over);
    assert_eq!(g.waiting_time, 0);
    g.update(500);
    assert!(g.game_over);
    assert_eq!(g.waiting_time, 500);
    g.update(501);
    assert!(!g.game_over);
    assert!(!g.food_exists);
    assert_eq!(g.waiting_time, 0);
    assert_eq!(
        g.snake.body,
        vec![
            Block { x: 4, y: 2 },
            Block { x: 3, y: 2 },
            Block { x: 2, y: 2 },
        ]
    );
    assert_eq!(g.snake.head_direction(), Direction::Right);
}

#[test]
fn draw_lists_snake_food_and_borders_in_occlusion_order() {
    let g = game_with_food(8, 8, 6, 6);
    let cmds = g.draw();
    assert_eq!(
        cmds,
        vec![
            DrawCommand::Block { color: DrawColor::Snake, x: 4, y: 2 },
            DrawCommand::Block { color: DrawColor::Snake, x: 3, y: 2 },
            DrawCommand::Block { color: DrawColor::Snake, x: 2, y: 2 },
            DrawCommand::Block { color: DrawColor::Food, x: 6, y: 6 },
            DrawCommand::Rect { color: DrawColor::Border, x: 0, y: 0, w: 8, h: 1 },
            DrawCommand::Rect { color: DrawColor::Border, x: 0, y: 7, w: 8, h: 1 },
            DrawCommand::Rect { color: DrawColor::Border, x: 0, y: 0, w: 1, h: 8 },
            DrawCommand::Rect { color: DrawColor::Border, x: 7, y: 0, w: 1, h: 8 },
        ]
    );
}

#[test]
fn draw_puts_the_game_over_overlay_last() {
    let mut g = game_with_food(7, 7, 1, 5);
    g.update(101);
    g.update(101);
    assert!(g.game_over);
    let cmds = g.draw();
    assert_eq!(
        cmds.last(),
        Some(&DrawCommand::Rect { color: DrawColor::GameOver, x: 0, y: 0, w: 7, h: 7 })
    );
}
