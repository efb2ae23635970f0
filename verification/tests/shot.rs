use invaders_2::frame::{new_frame, Drawable, Updatable};
use invaders_2::shot::{retain_live_shots, update_shots, Direction, Shot, SHOT_STEP_MILLIS};
use invaders_2::timer::Timer;

const STEP: u64 = 75_000_000;

#[test]
fn new_shot_is_not_exploding() {
    let shot = Shot::new(12, 7, Direction::Up);
    assert_eq!(shot.x, 12);
    assert_eq!(shot.y, 7);
    assert_eq!(shot.direction, Direction::Up);
    assert!(!shot.exploding);
    assert_eq!(SHOT_STEP_MILLIS, 75);
    assert_eq!(shot.timer, Timer::from_millis(75));
    assert!(!shot.dead());
}

#[test]
fn shot_moves_one_row_per_step() {
    let mut up = Shot::new(12, 7, Direction::Up);
    up.update(STEP);
    assert_eq!(up.y, 7);
    up.update(1);
    assert_eq!(up.y, 6);
    assert_eq!(up.x, 12);
    assert_eq!(up.timer, Timer::from_millis(75));

    let mut down = Shot::new(12, 7, Direction::Down);
    down.update(STEP + 1);
    assert_eq!(down.y, 8);
}

#[test]
fn shot_moves_one_row_however_long_the_step() {
    let mut shot = Shot::new(12, 7, Direction::Up);
    shot.update(10 * STEP);
    assert_eq!(shot.y, 6);
}

#[test]
fn shot_is_dead_on_the_edge_rows() {
    assert!(Shot::new(3, 0, Direction::Up).dead());
    assert!(Shot::new(3, 23, Direction::Down).dead());
    assert!(Shot::new(3, 0, Direction::Down).dead());
    assert!(!Shot::new(3, 1, Direction::Up).dead());
    assert!(!Shot::new(3, 22, Direction::Down).dead());
}

#[test]
fn shot_stops_at_the_edge_rows() {
    let mut up = Shot::new(3, 0, Direction::Up);
    up.update(STEP + 1);
    assert_eq!(up.y, 0);
    let mut down = Shot::new(3, 23, Direction::Down);
    down.update(STEP + 1);
    assert_eq!(down.y, 23);
}

#[test]
fn exploding_shot_is_dead() {
    let mut shot = Shot::new(12, 7, Direction::Up);
    shot.explode();
    assert!(shot.exploding);
    assert!(shot.dead());
    assert_eq!(shot.y, 7);
}

#[test]
fn shot_draws_an_arrow() {
    let mut frame = new_frame();
    Shot::new(1, 2, Direction::Up).draw(&mut frame);
    Shot::new(3, 4, Direction::Down).draw(&mut frame);
    assert_eq!(frame[1][2], '↑');
    assert_eq!(frame[3][4], '↓');
}

#[test]
fn retain_live_shots_keeps_the_order() {
    let mut shots = vec![
        Shot::new(1, 5, Direction::Up),
        Shot::new(2, 0, Direction::Up),
        Shot::new(3, 6, Direction::Down),
        Shot::new(4, 23, Direction::Down),
        Shot::new(5, 7, Direction::Down),
    ];
    shots[4].explode();
    retain_live_shots(&mut shots);
    assert_eq!(shots.len(), 2);
    assert_eq!(shots[0].x, 1);
    assert_eq!(shots[1].x, 3);
}

#[test]
fn a_shot_that_died_never_moves_again() {
    let mut shots = vec![Shot::new(1, 1, Direction::Up)];
    update_shots(&mut shots, STEP + 1);
    assert_eq!(shots[0].y, 0);
    assert!(shots[0].dead());
    retain_live_shots(&mut shots);
    assert!(shots.is_empty());
}
