use invaders_2::frame::{new_frame, put, Drawable};
use invaders_2::game::Game;
use invaders_2::render::{frame_covers, has_room, render, CellWrite, Renderer};

#[test]
fn same_frame_without_force_writes_nothing() {
    let frame = Game::new().draw();
    let plan = render(&frame, &frame, false);
    assert!(!plan.clear);
    assert!(plan.writes.is_empty());
}

#[test]
fn rendering_twice_writes_nothing_the_second_time() {
    let shown = new_frame();
    let frame = Game::new().draw();
    let first = render(&shown, &frame, false);
    assert!(!first.writes.is_empty());
    let second = render(&frame, &frame, false);
    assert_eq!(second.writes.len(), 0);
}

#[test]
fn forced_render_writes_every_cell() {
    let frame = new_frame();
    let plan = render(&frame, &frame, true);
    assert!(plan.clear);
    assert_eq!(plan.writes.len(), 80 * 24);
    assert_eq!(plan.writes[0], CellWrite { x: 0, y: 0, glyph: ' ' });
    assert_eq!(plan.writes[1], CellWrite { x: 0, y: 1, glyph: ' ' });
    assert_eq!(plan.writes[24], CellWrite { x: 1, y: 0, glyph: ' ' });
    assert_eq!(plan.writes[1919], CellWrite { x: 79, y: 23, glyph: ' ' });
}

#[test]
fn only_changed_cells_are_written() {
    let last = new_frame();
    let mut curr = new_frame();
    put(&mut curr, 7, 3, 'b');
    put(&mut curr, 2, 9, 'a');
    put(&mut curr, 7, 1, 'c');
    let plan = render(&last, &curr, false);
    assert!(!plan.clear);
    assert_eq!(
        plan.writes,
        vec![
            CellWrite { x: 2, y: 9, glyph: 'a' },
            CellWrite { x: 7, y: 1, glyph: 'c' },
            CellWrite { x: 7, y: 3, glyph: 'b' },
        ]
    );
}

#[test]
fn a_cell_that_is_blank_again_is_written() {
    let mut last = new_frame();
    put(&mut last, 5, 5, '↑');
    let curr = new_frame();
    let plan = render(&last, &curr, false);
    assert_eq!(plan.writes, vec![CellWrite { x: 5, y: 5, glyph: ' ' }]);
}

#[test]
fn empty_frame_renders_to_nothing() {
    let empty: Vec<Vec<char>> = Vec::new();
    let plan = render(&new_frame(), &empty, true);
    assert!(plan.clear);
    assert!(plan.writes.is_empty());
}

#[test]
fn smaller_frame_is_rendered_against_a_larger_one() {
    let last = new_frame();
    let curr = vec![vec!['x', ' '], vec![' ']];
    let plan = render(&last, &curr, false);
    assert_eq!(plan.writes, vec![CellWrite { x: 0, y: 0, glyph: 'x' }]);
}

#[test]
fn moving_shot_costs_two_writes() {
    let mut game = Game::new();
    game.player.shoot();
    let before = game.draw();
    game.player.shots[0].y -= 1;
    let after = game.draw();
    let plan = render(&before, &after, false);
    assert_eq!(
        plan.writes,
        vec![CellWrite { x: 39, y: 19, glyph: '↑' }, CellWrite { x: 39, y: 20, glyph: ' ' }]
    );
    let mut status_frame = new_frame();
    game.status.draw(&mut status_frame);
    assert_eq!(after[0][0], status_frame[0][0]);
}

#[test]
fn terminal_needs_room_for_the_playfield() {
    assert!(has_room(80, 24));
    assert!(has_room(200, 50));
    assert!(!has_room(79, 24));
    assert!(!has_room(80, 23));
    assert!(!has_room(0, 0));
    assert!(has_room(u16::MAX, u16::MAX));
}

#[test]
fn renderer_starts_with_a_blank_screen() {
    let renderer = Renderer::new();
    assert_eq!(renderer.last_frame, new_frame());
    let plan = renderer.redraw();
    assert!(plan.clear);
    assert_eq!(plan.writes.len(), 1920);
    assert!(plan.writes.iter().all(|write| write.glyph == ' '));
}

#[test]
fn renderer_remembers_the_frame_that_it_showed() {
    let mut renderer = Renderer::new();
    let frame = Game::new().draw();
    let first = renderer.show(frame.clone(), false);
    assert!(!first.clear);
    assert!(!first.writes.is_empty());
    assert_eq!(renderer.last_frame, frame);
    let second = renderer.show(frame.clone(), false);
    assert!(second.writes.is_empty());
    let forced = renderer.show(frame.clone(), true);
    assert!(forced.clear);
    assert_eq!(forced.writes.len(), 1920);
    let after = renderer.show(frame, false);
    assert!(after.writes.is_empty());
}

#[test]
fn first_frame_costs_one_write_per_drawn_cell() {
    let mut renderer = Renderer::new();
    let frame = Game::new().draw();
    let drawn = frame.iter().flatten().filter(|cell| **cell != ' ').count();
    let plan = renderer.show(frame, false);
    assert_eq!(plan.writes.len(), drawn);
    assert!(plan.writes.iter().all(|write| write.glyph != ' '));
    assert!(plan.writes.windows(2).all(|pair| (pair[0].x, pair[0].y) < (pair[1].x, pair[1].y)));
}

#[test]
fn a_frame_covers_one_that_is_no_larger() {
    let full = new_frame();
    assert!(frame_covers(&full, &full));
    let empty: Vec<Vec<char>> = Vec::new();
    assert!(frame_covers(&full, &empty));
    assert!(frame_covers(&empty, &empty));
    assert!(!frame_covers(&empty, &full));
    let small = vec![vec![' '; 24]; 79];
    assert!(frame_covers(&full, &small));
    assert!(!frame_covers(&small, &full));
    let mut tall = new_frame();
    tall[79].push(' ');
    assert!(!frame_covers(&full, &tall));
    assert!(frame_covers(&tall, &full));
    let mut short = new_frame();
    short[0].pop();
    assert!(frame_covers(&full, &short));
    assert!(!frame_covers(&short, &full));
}

#[test]
fn renderer_can_show_a_frame_of_its_size() {
    let renderer = Renderer::new();
    assert!(renderer.can_show(&new_frame()));
    assert!(renderer.can_show(&Game::new().draw()));
    assert!(!renderer.can_show(&vec![vec![' '; 24]; 81]));
    assert!(!renderer.can_show(&vec![vec![' '; 25]; 80]));
}
