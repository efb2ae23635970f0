use invaders_2::frame::{new_frame, Drawable, Updatable};
use invaders_2::invader::{Invader, INVADER_ANIM_MILLIS, TOP_SCORE};
use invaders_2::timer::Timer;

const HALF_SECOND: u64 = 500_000_000;

fn row(frame: &Vec<Vec<char>>, x: usize, y: usize, len: usize) -> String {
    (x..x + len).map(|column| frame[column][y]).collect()
}

#[test]
fn new_invader_is_alive() {
    let invader = Invader::new(9, 2);
    assert!(invader.is_alive);
    assert!(!invader.dead());
    assert!(!invader.removable());
    assert_eq!(invader.x, 9);
    assert_eq!(invader.y, 2);
    assert_eq!(invader.anim_idx, 0);
    assert_eq!(INVADER_ANIM_MILLIS, 500);
    assert_eq!(invader.anim_timer, Timer::from_millis(500));
}

#[test]
fn score_goes_by_the_row_band() {
    assert_eq!(Invader::new(0, 2).score, 40);
    assert_eq!(Invader::new(0, 5).score, 30);
    assert_eq!(Invader::new(0, 8).score, 20);
    assert_eq!(Invader::new(0, 11).score, 10);
    assert_eq!(Invader::new(0, 14).score, 5);
    assert_eq!(TOP_SCORE, 40);
}

#[test]
fn sprites_go_by_the_row_band() {
    assert_eq!(Invader::new(0, 2).anim, vec![" /^\\ \n|^|^|", " /^\\ \n ||| "]);
    assert_eq!(Invader::new(0, 5).anim, vec!["|_☺_ \n | ||", " _☺_|\n|| |"]);
    assert_eq!(Invader::new(0, 8).anim, vec!["~T~T~\n /~\\ ", "/P^P\\\n |~| "]);
    assert_eq!(Invader::new(0, 11).anim, vec!["/~~~\\\n\\-V-/", "/~~~\\\n /V\\ "]);
    assert_eq!(Invader::new(0, 14).anim, vec!["/___\\\n / \\ ", "\\___/\n \\V/ "]);
}

#[test]
fn animation_alternates_every_half_second() {
    let mut invader = Invader::new(9, 2);
    invader.update(HALF_SECOND);
    assert_eq!(invader.anim_idx, 0);
    invader.update(1);
    assert_eq!(invader.anim_idx, 1);
    assert_eq!(invader.anim_timer, Timer::from_millis(500));
    assert!(!invader.removable());
    invader.update(HALF_SECOND + 1);
    assert_eq!(invader.anim_idx, 0);
}

#[test]
fn killed_invader_is_dead_but_not_removable() {
    let mut invader = Invader::new(9, 2);
    invader.update(300_000_000);
    invader.kill();
    assert!(invader.dead());
    assert!(!invader.is_alive);
    assert!(!invader.removable());
    assert_eq!(invader.anim_timer, Timer::from_millis(500));
    assert_eq!(invader.score, 40);
}

#[test]
fn dead_invader_is_removable_after_the_explosion() {
    let mut invader = Invader::new(9, 2);
    invader.kill();
    invader.update(HALF_SECOND);
    assert!(!invader.removable());
    invader.update(1);
    assert!(invader.removable());
    invader.update(HALF_SECOND + 1);
    assert!(invader.removable());
    assert!(invader.dead());
}

#[test]
fn living_invader_is_never_removable() {
    let mut invader = Invader::new(9, 2);
    for _ in 0..10 {
        invader.update(HALF_SECOND + 1);
        assert!(!invader.removable());
    }
}

#[test]
fn invader_moves_down_and_sideways() {
    let mut invader = Invader::new(9, 2);
    invader.move_down();
    assert_eq!((invader.x, invader.y), (9, 3));
    invader.move_x(1);
    assert_eq!((invader.x, invader.y), (10, 3));
    invader.move_x(-1);
    invader.move_x(-1);
    assert_eq!((invader.x, invader.y), (8, 3));
    invader.move_x(-8);
    assert_eq!(invader.x, 0);
    invader.move_x(0);
    assert_eq!(invader.x, 0);
    invader.move_x(isize::MAX);
    assert_eq!(invader.x, isize::MAX as usize);
    invader.move_x(isize::MIN + 1);
    assert_eq!(invader.x, 0);
    assert_eq!(invader.score, 40);
    assert!(invader.is_alive);
}

#[test]
fn invader_draws_its_current_sprite() {
    let mut frame = new_frame();
    let mut invader = Invader::new(9, 2);
    invader.draw(&mut frame);
    assert_eq!(row(&frame, 9, 2, 5), " /^\\ ");
    assert_eq!(row(&frame, 9, 3, 5), "|^|^|");
    invader.update(HALF_SECOND + 1);
    invader.draw(&mut frame);
    assert_eq!(row(&frame, 9, 2, 5), " /^\\ ");
    assert_eq!(row(&frame, 9, 3, 5), " ||| ");
    assert_eq!(row(&frame, 8, 2, 1), " ");
    assert_eq!(row(&frame, 14, 3, 1), " ");
}

#[test]
fn short_sprite_line_leaves_the_last_cell() {
    let mut frame = new_frame();
    let mut invader = Invader::new(20, 5);
    invader.update(HALF_SECOND + 1);
    frame[24][6] = '#';
    invader.draw(&mut frame);
    assert_eq!(row(&frame, 20, 5, 5), " _☺_|");
    assert_eq!(row(&frame, 20, 6, 5), "|| |#");
}

#[test]
fn dead_invader_draws_an_explosion() {
    let mut frame = new_frame();
    let mut invader = Invader::new(9, 8);
    invader.kill();
    invader.draw(&mut frame);
    assert_eq!(row(&frame, 9, 8, 5), " \\ / ");
    assert_eq!(row(&frame, 9, 9, 5), " / \\ ");
}
