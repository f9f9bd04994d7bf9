use tflap::pipe::{Pipe, BIRD_WIDTH, PIPE_GAP, PIPE_SPEED, PIPE_WIDTH};

#[test]
fn pipe_constants() {
    assert_eq!(PIPE_WIDTH, 6);
    assert_eq!(PIPE_GAP, 8);
    assert_eq!(PIPE_SPEED, 1);
    assert_eq!(BIRD_WIDTH, 2);
}

#[test]
fn new_pipe_is_not_passed() {
    let pipe = Pipe::new(40, 5);
    assert_eq!(pipe, Pipe { x: 40, gap_y: 5, passed: false });
}

#[test]
fn update_moves_one_column_left() {
    let mut pipe = Pipe::new(40, 5);
    pipe.update();
    assert_eq!(pipe, Pipe { x: 39, gap_y: 5, passed: false });
    pipe.update();
    assert_eq!(pipe.x, 38);
    let mut left = Pipe::new(0, 5);
    left.update();
    assert_eq!(left.x, -1);
}

#[test]
fn update_keeps_the_mark() {
    let mut pipe = Pipe { x: 2, gap_y: 7, passed: true };
    pipe.update();
    assert_eq!(pipe, Pipe { x: 1, gap_y: 7, passed: true });
}

#[test]
fn pipe_partly_off_the_left_border_is_not_offscreen() {
    assert!(!Pipe::new(-3, 5).is_offscreen());
    assert!(!Pipe::new(-5, 5).is_offscreen());
    assert!(!Pipe::new(0, 5).is_offscreen());
}

#[test]
fn pipe_with_right_edge_on_the_border_is_offscreen() {
    assert!(Pipe::new(-6, 5).is_offscreen());
    assert!(Pipe::new(-7, 5).is_offscreen());
    assert!(Pipe::new(i32::MIN, 5).is_offscreen());
    assert!(!Pipe::new(i32::MAX, 5).is_offscreen());
}

#[test]
fn first_and_last_row_of_the_gap_are_safe() {
    let pipe = Pipe::new(10, 5);
    assert!(!pipe.collides_with(10, 5));
    assert!(!pipe.collides_with(10, 12));
    assert!(!pipe.collides_with(10, 8));
}

#[test]
fn rows_next_to_the_gap_are_solid() {
    let pipe = Pipe::new(10, 5);
    assert!(pipe.collides_with(10, 13));
    assert!(pipe.collides_with(10, 4));
    assert!(pipe.collides_with(10, 0));
    assert!(pipe.collides_with(10, u16::MAX));
}

#[test]
fn collision_needs_overlapping_columns() {
    // The bird covers columns 10 and 11, the pipe six columns from x.
    assert!(!Pipe::new(12, 5).collides_with(10, 0));
    assert!(Pipe::new(11, 5).collides_with(10, 0));
    assert!(Pipe::new(5, 5).collides_with(10, 0));
    assert!(!Pipe::new(4, 5).collides_with(10, 0));
    assert!(!Pipe::new(-20, 5).collides_with(10, 0));
    assert!(!Pipe::new(200, 5).collides_with(10, 0));
}

#[test]
fn collision_with_a_gap_at_the_top_of_the_range() {
    let pipe = Pipe::new(10, u16::MAX);
    assert!(!pipe.collides_with(10, u16::MAX));
    assert!(pipe.collides_with(10, u16::MAX - 1));
    let far = Pipe::new(i32::MAX, 3);
    assert!(!far.collides_with(u16::MAX, 0));
}

#[test]
fn bird_has_passed_strictly_behind_the_right_edge() {
    assert!(Pipe::new(3, 5).has_bird_passed(10));
    assert!(!Pipe::new(4, 5).has_bird_passed(10));
    assert!(!Pipe::new(5, 5).has_bird_passed(10));
    assert!(Pipe::new(-6, 5).has_bird_passed(10));
    assert!(!Pipe::new(i32::MAX, 5).has_bird_passed(u16::MAX));
}
