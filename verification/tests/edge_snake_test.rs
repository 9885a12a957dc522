use rsnaker::geometry::Rect;
use rsnaker::menus::edge_snake::EdgeSnake;

#[test]
fn head_wraps_from_the_right_edge_to_the_left_edge() {
    assert_eq!(EdgeSnake::next_x(7, 9), 0);
    assert_eq!(EdgeSnake::next_x(6, 9), 7);
}

#[test]
fn body_stays_on_the_top_row_and_wraps_horizontally() {
    let mut snake = EdgeSnake::new();
    snake.x = 1;

    assert_eq!(
        snake.get_positions(10),
        vec![(1, 0), (6, 0), (2, 0), (7, 0), (3, 0)]
    );
}

#[test]
fn narrow_area_has_no_segment_and_head_stays_left() {
    let snake = EdgeSnake::new();
    assert!(snake.get_positions(2).is_empty());
    assert_eq!(EdgeSnake::next_x(0, 2), 0);
    assert_eq!(EdgeSnake::next_x(5, 1), 0);
}

#[test]
fn head_beyond_the_width_is_drawn_at_the_last_column() {
    let mut snake = EdgeSnake::default();
    snake.x = 50;
    assert_eq!(snake.get_positions(10)[0], (8, 0));
}

#[test]
fn update_at_waits_for_a_frame_then_moves() {
    let mut snake = EdgeSnake::new();
    let area = Rect::new(0, 0, 9, 5);
    snake.x = 3;
    snake.y = 2;
    // far in the future: a frame has passed
    snake.update_at(&area, u64::MAX);
    assert_eq!(snake.x, 4);
    assert_eq!(snake.y, 0);
    // same instant again: less than a frame since the last move
    snake.update_at(&area, u64::MAX);
    assert_eq!(snake.x, 4);
}

#[test]
fn update_at_wraps_at_the_right_edge() {
    let mut snake = EdgeSnake::new();
    let area = Rect::new(0, 0, 9, 5);
    snake.x = 7;
    snake.update_at(&area, u64::MAX);
    assert_eq!(snake.x, 0);
}
