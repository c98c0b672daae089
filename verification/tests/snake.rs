use snake_game::game::Vec2;
use snake_game::snake::{Direction, Segment, SegmentKind, Snake, INITIAL_LENGTH};
use snake_game::sprite::{Glyph, Sprite};

fn head(x: u16, y: u16) -> Sprite {
    Sprite::new(Vec2::new(x, y), Glyph::Head)
}

fn body(x: u16, y: u16) -> Sprite {
    Sprite::new(Vec2::new(x, y), Glyph::Body)
}

fn board() -> Vec2 {
    Vec2::new(20, 20)
}

/// A snake of five segments that has just run into its own tail.
fn coiled() -> Snake {
    let mut snake = Snake::new();
    snake.add_segment();
    snake.update(&board()).unwrap();
    snake.add_segment();
    snake.update(&board()).unwrap();
    snake.set_direction(Direction::Down);
    snake.update(&board()).unwrap();
    snake.set_direction(Direction::Left);
    snake.update(&board()).unwrap();
    snake.set_direction(Direction::Up);
    snake.update(&board()).unwrap();
    snake
}

#[test]
fn vec2_new_keeps_both_coordinates() {
    let v = Vec2::new(7, 11);
    assert_eq!(v.x, 7);
    assert_eq!(v.y, 11);
    assert_eq!(v, Vec2 { x: 7, y: 11 });
}

#[test]
fn segment_new_keeps_its_fields() {
    let s = Segment::new(4, 9, SegmentKind::Body);
    assert_eq!(s, Segment { x: 4, y: 9, kind: SegmentKind::Body });
    assert_ne!(s, Segment::new(4, 9, SegmentKind::Head));
}

#[test]
fn reversed_swaps_each_pair() {
    assert_eq!(Direction::Right.reversed(), Direction::Left);
    assert_eq!(Direction::Left.reversed(), Direction::Right);
    assert_eq!(Direction::Up.reversed(), Direction::Down);
    assert_eq!(Direction::Down.reversed(), Direction::Up);
}

#[test]
fn reversed_twice_is_the_direction_itself() {
    for d in [Direction::Right, Direction::Left, Direction::Up, Direction::Down] {
        assert_eq!(d.reversed().reversed(), d);
        assert_ne!(d.reversed(), d);
    }
}

#[test]
fn new_snake_lies_along_the_top_row() {
    let snake = Snake::new();
    assert_eq!(snake.draw(), vec![head(2, 0), body(1, 0), body(0, 0)]);
    assert_eq!(snake.len(), INITIAL_LENGTH);
    assert_eq!(snake.len(), 3);
    assert_eq!(snake.direction(), Direction::Right);
    assert_eq!(snake.fruits_eaten(), 0);
    assert!(!snake.is_growing());
}

#[test]
fn advance_shifts_every_segment_one_cell() {
    let mut snake = Snake::new();
    assert_eq!(snake.update(&board()), Ok(()));
    assert_eq!(snake.draw(), vec![head(3, 0), body(2, 0), body(1, 0)]);
}

#[test]
fn segments_follow_the_path_of_the_head() {
    let mut snake = Snake::new();
    snake.set_direction(Direction::Down);
    snake.update(&board()).unwrap();
    assert_eq!(snake.draw(), vec![head(2, 1), body(2, 0), body(1, 0)]);
    snake.update(&board()).unwrap();
    assert_eq!(snake.draw(), vec![head(2, 2), body(2, 1), body(2, 0)]);
    snake.set_direction(Direction::Left);
    snake.update(&board()).unwrap();
    assert_eq!(snake.draw(), vec![head(1, 2), body(2, 2), body(2, 1)]);
}

#[test]
fn every_segment_takes_the_cell_of_the_one_ahead() {
    let mut snake = Snake::new();
    let turns = [
        Direction::Down,
        Direction::Down,
        Direction::Right,
        Direction::Up,
        Direction::Right,
        Direction::Down,
        Direction::Left,
    ];
    for (tick, turn) in turns.iter().enumerate() {
        if tick % 3 == 0 {
            snake.add_segment();
        }
        snake.set_direction(*turn);
        let before = snake.draw();
        let grew = snake.is_growing();
        snake.update(&board()).unwrap();
        let after = snake.draw();
        for i in 1..before.len() {
            assert_eq!(after[i].position, before[i - 1].position);
        }
        if grew {
            assert_eq!(after.len(), before.len() + 1);
            assert_eq!(after[before.len()].position, before[before.len() - 1].position);
            assert_eq!(after[before.len()].glyph, Glyph::Body);
        } else {
            assert_eq!(after.len(), before.len());
        }
    }
}

#[test]
fn add_segment_counts_the_fruit_and_defers_the_growth() {
    let mut snake = Snake::new();
    snake.add_segment();
    assert_eq!(snake.fruits_eaten(), 1);
    assert!(snake.is_growing());
    assert_eq!(snake.len(), 3);
    assert_eq!(snake.draw(), vec![head(2, 0), body(1, 0), body(0, 0)]);
}

#[test]
fn growth_leaves_a_segment_where_the_tail_was() {
    let mut snake = Snake::new();
    snake.add_segment();
    snake.update(&board()).unwrap();
    assert_eq!(snake.draw(), vec![head(3, 0), body(2, 0), body(1, 0), body(0, 0)]);
    assert_eq!(snake.len(), 4);
    assert_eq!(snake.fruits_eaten(), 1);
    assert!(!snake.is_growing());
    snake.update(&board()).unwrap();
    assert_eq!(snake.draw(), vec![head(4, 0), body(3, 0), body(2, 0), body(1, 0)]);
}

#[test]
fn length_is_three_plus_the_fruits_eaten() {
    let mut snake = Snake::new();
    for tick in 0..30u16 {
        if tick % 4 == 1 {
            snake.add_segment();
        }
        if tick % 7 == 3 {
            snake.set_direction(Direction::Down);
        }
        if tick % 7 == 5 {
            snake.set_direction(Direction::Right);
        }
        snake.update(&board()).unwrap();
        assert_eq!(snake.len(), 3 + snake.fruits_eaten() as usize);
    }
    assert_eq!(snake.fruits_eaten(), 8);
    assert_eq!(snake.len(), 11);
}

#[test]
fn set_direction_ignores_a_reversal() {
    let mut snake = Snake::new();
    snake.set_direction(Direction::Left);
    assert_eq!(snake.direction(), Direction::Right);
    snake.update(&board()).unwrap();
    assert_eq!(snake.draw(), vec![head(3, 0), body(2, 0), body(1, 0)]);
}

#[test]
fn set_direction_takes_any_other_direction() {
    let mut snake = Snake::new();
    snake.set_direction(Direction::Right);
    assert_eq!(snake.direction(), Direction::Right);
    snake.set_direction(Direction::Up);
    assert_eq!(snake.direction(), Direction::Up);
    snake.set_direction(Direction::Down);
    assert_eq!(snake.direction(), Direction::Up);
    snake.set_direction(Direction::Left);
    assert_eq!(snake.direction(), Direction::Left);
    snake.set_direction(Direction::Right);
    assert_eq!(snake.direction(), Direction::Left);
    snake.set_direction(Direction::Down);
    assert_eq!(snake.direction(), Direction::Down);
    snake.set_direction(Direction::Up);
    assert_eq!(snake.direction(), Direction::Down);
    snake.set_direction(Direction::Right);
    assert_eq!(snake.direction(), Direction::Right);
}

#[test]
fn set_direction_changes_nothing_but_the_direction() {
    let mut snake = Snake::new();
    snake.add_segment();
    snake.set_direction(Direction::Down);
    assert_eq!(snake.draw(), vec![head(2, 0), body(1, 0), body(0, 0)]);
    assert_eq!(snake.fruits_eaten(), 1);
    assert!(snake.is_growing());
}

#[test]
fn ate_an_fruit_looks_at_the_head_only() {
    let snake = Snake::new();
    assert!(snake.ate_an_fruit(&Vec2::new(2, 0)));
    assert!(!snake.ate_an_fruit(&Vec2::new(1, 0)));
    assert!(!snake.ate_an_fruit(&Vec2::new(0, 0)));
    assert!(!snake.ate_an_fruit(&Vec2::new(3, 0)));
    assert!(!snake.ate_an_fruit(&Vec2::new(2, 1)));
}

#[test]
fn has_segment_at_finds_head_and_body() {
    let snake = Snake::new();
    assert!(snake.has_segment_at(&Vec2::new(2, 0)));
    assert!(snake.has_segment_at(&Vec2::new(1, 0)));
    assert!(snake.has_segment_at(&Vec2::new(0, 0)));
    assert!(!snake.has_segment_at(&Vec2::new(3, 0)));
    assert!(!snake.has_segment_at(&Vec2::new(0, 1)));
}

#[test]
fn a_straight_snake_has_not_eaten_itself() {
    let mut snake = Snake::new();
    assert!(!snake.ate_itself());
    snake.update(&board()).unwrap();
    assert!(!snake.ate_itself());
}

#[test]
fn head_moved_onto_its_neck_has_eaten_itself() {
    // On a board one row high a step down wraps onto the cell the head is
    // on, and the neck follows it there.
    let strip = Vec2::new(20, 1);
    let mut snake = Snake::new();
    snake.set_direction(Direction::Down);
    snake.update(&strip).unwrap();
    assert_eq!(snake.draw(), vec![head(2, 0), body(2, 0), body(1, 0)]);
    assert!(snake.ate_itself());
}

#[test]
fn head_moved_onto_its_tail_has_eaten_itself() {
    let snake = coiled();
    assert_eq!(snake.draw(), vec![head(3, 0), body(3, 1), body(4, 1), body(4, 0), body(3, 0)]);
    assert!(snake.ate_itself());
}

#[test]
fn a_turn_short_of_the_body_is_no_bite() {
    let mut snake = Snake::new();
    snake.add_segment();
    snake.update(&board()).unwrap();
    snake.set_direction(Direction::Down);
    snake.update(&board()).unwrap();
    snake.set_direction(Direction::Left);
    snake.update(&board()).unwrap();
    snake.set_direction(Direction::Up);
    snake.update(&board()).unwrap();
    // Four segments chasing each other round a square never meet.
    assert_eq!(snake.draw(), vec![head(2, 0), body(2, 1), body(3, 1), body(3, 0)]);
    assert!(!snake.ate_itself());
}

#[test]
fn right_from_the_last_column_wraps_to_column_zero() {
    let small = Vec2::new(3, 5);
    let mut snake = Snake::new();
    snake.update(&small).unwrap();
    assert_eq!(snake.draw(), vec![head(0, 0), body(2, 0), body(1, 0)]);
}

#[test]
fn left_from_column_zero_wraps_to_the_last_column() {
    let mut snake = Snake::new();
    snake.set_direction(Direction::Down);
    snake.update(&board()).unwrap();
    snake.set_direction(Direction::Left);
    snake.update(&board()).unwrap();
    snake.update(&board()).unwrap();
    assert_eq!(snake.draw()[0], head(0, 1));
    snake.update(&board()).unwrap();
    assert_eq!(snake.draw(), vec![head(19, 1), body(0, 1), body(1, 1)]);
}

#[test]
fn up_from_row_zero_wraps_to_the_last_row() {
    let mut snake = Snake::new();
    snake.set_direction(Direction::Up);
    snake.update(&Vec2::new(20, 7)).unwrap();
    assert_eq!(snake.draw(), vec![head(2, 6), body(2, 0), body(1, 0)]);
}

#[test]
fn down_from_the_last_row_wraps_to_row_zero() {
    let tall = Vec2::new(20, 7);
    let mut snake = Snake::new();
    snake.set_direction(Direction::Up);
    snake.update(&tall).unwrap();
    snake.set_direction(Direction::Right);
    snake.update(&tall).unwrap();
    assert_eq!(snake.draw()[0], head(3, 6));
    snake.set_direction(Direction::Down);
    snake.update(&tall).unwrap();
    assert_eq!(snake.draw(), vec![head(3, 0), body(3, 6), body(2, 6)]);
}

#[test]
fn a_lap_of_the_board_comes_back_to_the_start() {
    let mut snake = Snake::new();
    for _ in 0..20 {
        snake.update(&board()).unwrap();
    }
    assert_eq!(snake.draw(), vec![head(2, 0), body(1, 0), body(0, 0)]);
}

#[test]
fn is_within_checks_every_segment() {
    let snake = Snake::new();
    assert!(snake.is_within(&Vec2::new(3, 1)));
    assert!(snake.is_within(&board()));
    assert!(!snake.is_within(&Vec2::new(2, 5)));
    assert!(!snake.is_within(&Vec2::new(5, 0)));
    assert!(!snake.is_within(&Vec2::new(0, 0)));
}

#[test]
fn draw_tells_head_from_body() {
    let sprites = coiled().draw();
    assert_eq!(sprites.len(), 5);
    assert_eq!(sprites[0].glyph, Glyph::Head);
    for sprite in &sprites[1..] {
        assert_eq!(sprite.glyph, Glyph::Body);
    }
}
