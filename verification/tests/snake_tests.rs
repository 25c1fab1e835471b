use snake_core::draw::{DrawColor, DrawCommand};
use snake_core::snake::{Block, Direction, Snake};

#[test]
fn opposite_of_each_direction() {
    assert_eq!(Direction::Up.opposite(), Direction::Down);
    assert_eq!(Direction::Down.opposite(), Direction::Up);
    assert_eq!(Direction::Left.opposite(), Direction::Right);
    assert_eq!(Direction::Right.opposite(), Direction::Left);
}

#[test]
fn opposite_is_an_involution() {
    for d in [Direction::Up, Direction::Down, Direction::Left, Direction::Right] {
        assert_eq!(d.opposite().opposite(), d);
    }
}

#[test]
fn new_snake_has_three_cells_heading_right() {
    let s = Snake::new(2, 2);
    assert_eq!(s.direction, Direction::Right);
    assert_eq!(
        s.body,
        vec![
            Block { x: 4, y: 2 },
            Block { x: 3, y: 2 },
            Block { x: 2, y: 2 },
        ]
    );
    assert!(s.tail.is_none());
    assert_eq!(s.head_position(), (4, 2));
    assert_eq!(s.head_direction(), Direction::Right);
}

#[test]
fn next_head_looks_ahead_without_moving() {
    let s = Snake::new(2, 2);
    assert_eq!(s.next_head(None), (5, 2));
    assert_eq!(s.next_head(Some(Direction::Up)), (4, 1));
    assert_eq!(s.next_head(Some(Direction::Down)), (4, 3));
    assert_eq!(s.next_head(Some(Direction::Left)), (3, 2));
    assert_eq!(s.next_head(Some(Direction::Right)), (5, 2));
    // lookahead must not mutate
    assert_eq!(s.head_position(), (4, 2));
    assert_eq!(s.body.len(), 3);
}

#[test]
fn move_forward_keeps_length_and_shifts_body() {
    let mut s = Snake::new(2, 2);
    s.move_forward(None);
    assert_eq!(s.body.len(), 3);
    assert_eq!(
        s.body,
        vec![
            Block { x: 5, y: 2 },
            Block { x: 4, y: 2 },
            Block { x: 3, y: 2 },
        ]
    );
    assert_eq!(s.tail, Some(Block { x: 2, y: 2 }));
}

#[test]
fn move_forward_with_override_turns_the_heading() {
    let mut s = Snake::new(2, 2);
    s.move_forward(Some(Direction::Down));
    assert_eq!(s.head_direction(), Direction::Down);
    assert_eq!(s.head_position(), (4, 3));
    assert_eq!(
        s.body,
        vec![
            Block { x: 4, y: 3 },
            Block { x: 4, y: 2 },
            Block { x: 3, y: 2 },
        ]
    );
}

#[test]
fn move_then_restore_grows_by_exactly_one() {
    let mut s = Snake::new(2, 2);
    let before = s.body.len();
    s.move_forward(None);
    assert_eq!(s.body.len(), before);
    s.restore_tail();
    assert_eq!(s.body.len(), before + 1);
    assert_eq!(
        s.body,
        vec![
            Block { x: 5, y: 2 },
            Block { x: 4, y: 2 },
            Block { x: 3, y: 2 },
            Block { x: 2, y: 2 },
        ]
    );
}

#[test]
fn overlap_tail_reports_exactly_the_body_cells() {
    let s = Snake::new(2, 2);
    assert!(s.overlap_tail(4, 2));
    assert!(s.overlap_tail(3, 2));
    assert!(s.overlap_tail(2, 2));
    assert!(!s.overlap_tail(5, 2));
    assert!(!s.overlap_tail(4, 3));
    assert!(!s.overlap_tail(1, 2));
}

#[test]
fn snake_draw_lists_one_block_per_cell_head_first() {
    let s = Snake::new(2, 2);
    let cmds = s.draw();
    assert_eq!(
        cmds,
        vec![
            DrawCommand::Block { color: DrawColor::Snake, x: 4, y: 2 },
            DrawCommand::Block { color: DrawColor::Snake, x: 3, y: 2 },
            DrawCommand::Block { color: DrawColor::Snake, x: 2, y: 2 },
        ]
    );
}
