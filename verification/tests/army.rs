use invaders_2::army::{
    retain_present, Army, ARMY_COLUMNS, ARMY_ROWS, FIRST_FIRE_MILLIS, MAX_FIRE_MILLIS,
    MIN_FIRE_MILLIS, MIN_MOVE_MILLIS,
};
use invaders_2::frame::{new_frame, Drawable, Updatable};
use invaders_2::invader::Invader;
use invaders_2::player::Player;
use invaders_2::shot::{Direction, Shot};
use invaders_2::status::Status;
use invaders_2::timer::Timer;

const MS: u64 = 1_000_000;

fn places(army: &Army) -> Vec<(usize, usize)> {
    army.invaders.iter().map(|invader| (invader.x, invader.y)).collect()
}

fn lone(x: usize, y: usize, level: u64) -> Army {
    let mut army = Army::new(level);
    army.invaders.clear();
    army.invaders.push(Invader::new(9, 2));
    army.invaders[0].x = x;
    army.invaders[0].y = y;
    army
}

#[test]
fn level_one_formation_has_45_members() {
    let army = Army::new(1);
    assert_eq!(ARMY_COLUMNS, 9);
    assert_eq!(ARMY_ROWS, 5);
    assert_eq!(army.invaders.len(), 45);
    let rows = [2, 5, 8, 11, 14];
    let scores = [40, 30, 20, 10, 5];
    for column in 0..9 {
        for band in 0..5 {
            let invader = &army.invaders[column * 5 + band];
            assert_eq!(invader.x, 9 + 7 * column);
            assert_eq!(invader.y, rows[band]);
            assert_eq!(invader.score, scores[band]);
            assert!(invader.is_alive);
            assert!(!invader.removable());
        }
    }
    assert!(army.shots.is_empty());
    assert_eq!(army.direction, 1);
    assert!(!army.all_dead());
    assert!(!army.invaded());
}

#[test]
fn shot_at_the_first_invaders_cell_earns_40() {
    let mut army = Army::new(1);
    let mut status = Status::new();
    let shot = Shot::new(9, 2, Direction::Up);
    let score = army.check_collision(&shot);
    assert_eq!(score, Some(40));
    status.add_score(score.unwrap());
    assert_eq!(status.score, 40);
    assert!(army.invaders[0].dead());
    assert_eq!(army.invaders.len(), 45);
}

#[test]
fn move_interval_goes_by_the_level() {
    assert_eq!(Army::new(0).move_timer, Timer::from_millis(1100));
    assert_eq!(Army::new(1).move_timer, Timer::from_millis(1000));
    assert_eq!(Army::new(2).move_timer, Timer::from_millis(900));
    assert_eq!(Army::new(8).move_timer, Timer::from_millis(300));
    assert_eq!(MIN_MOVE_MILLIS, 250);
    assert_eq!(Army::new(9).move_timer, Timer::from_millis(250));
    assert_eq!(Army::new(11).move_timer, Timer::from_millis(250));
    assert_eq!(Army::new(12).move_timer, Timer::from_millis(250));
    assert_eq!(Army::new(u64::MAX).move_timer, Timer::from_millis(250));
}

#[test]
fn first_attempt_to_fire_is_four_seconds_away() {
    assert_eq!(FIRST_FIRE_MILLIS, 4000);
    assert_eq!(Army::new(1).shot_timer, Timer::from_millis(4000));
    assert_eq!(Army::new(30).shot_timer, Timer::from_millis(4000));
}

#[test]
fn formation_moves_right_first() {
    let mut army = Army::new(1);
    let before = places(&army);
    army.move_army();
    let after = places(&army);
    for (old, new) in before.iter().zip(after.iter()) {
        assert_eq!(new.0, old.0 + 1);
        assert_eq!(new.1, old.1);
    }
    assert_eq!(army.direction, 1);
    assert_eq!(army.move_timer, Timer::from_millis(1000));
}

#[test]
fn n_moves_between_turns_shift_by_n() {
    let mut army = Army::new(1);
    let before = places(&army);
    for _ in 0..9 {
        army.move_army();
    }
    let after = places(&army);
    assert_eq!(after.len(), 45);
    for (old, new) in before.iter().zip(after.iter()) {
        assert_eq!(new.0, old.0 + 9);
        assert_eq!(new.1, old.1);
    }
    assert_eq!(army.direction, 1);

    army.direction = -1;
    for _ in 0..18 {
        army.move_army();
    }
    let back = places(&army);
    for (old, new) in before.iter().zip(back.iter()) {
        assert_eq!(new.0 + 9, old.0);
        assert_eq!(new.1, old.1);
    }
    assert_eq!(army.direction, -1);
    assert_eq!(army.move_timer, Timer::from_millis(1000));
}

#[test]
fn formation_turns_at_the_right_edge() {
    let mut army = Army::new(1);
    for _ in 0..9 {
        army.move_army();
    }
    let before = places(&army);
    assert_eq!(before[44], (74, 14));
    army.move_army();
    let after = places(&army);
    for (old, new) in before.iter().zip(after.iter()) {
        assert_eq!(new.0, old.0);
        assert_eq!(new.1, old.1 + 1);
    }
    assert_eq!(army.direction, -1);
    assert_eq!(army.move_timer, Timer::from_millis(900));

    army.move_army();
    let left = places(&army);
    for (old, new) in after.iter().zip(left.iter()) {
        assert_eq!(new.0 + 1, old.0);
        assert_eq!(new.1, old.1);
    }
    assert_eq!(army.move_timer, Timer::from_millis(900));
}

#[test]
fn formation_turns_at_the_left_edge() {
    let mut army = lone(0, 5, 1);
    army.invaders.push(Invader::new(30, 8));
    army.direction = -1;
    army.move_army();
    assert_eq!(places(&army), vec![(0, 6), (30, 9)]);
    assert_eq!(army.direction, 1);
    assert_eq!(army.move_timer, Timer::from_millis(900));
    army.move_army();
    assert_eq!(places(&army), vec![(1, 6), (31, 9)]);
}

#[test]
fn formation_at_the_right_edge_moving_left_does_not_turn() {
    let mut army = lone(74, 5, 1);
    army.direction = -1;
    army.move_army();
    assert_eq!(places(&army), vec![(73, 5)]);
    assert_eq!(army.direction, -1);
}

#[test]
fn dead_member_at_the_edge_does_not_turn_the_formation() {
    let mut army = lone(74, 5, 1);
    army.invaders.push(Invader::new(30, 8));
    army.invaders[0].kill();
    assert!(!army.turns());
    army.move_army();
    assert_eq!(places(&army), vec![(75, 5), (31, 8)]);
    assert_eq!(army.direction, 1);
    assert_eq!(army.move_timer, Timer::from_millis(1000));
}

#[test]
fn dead_member_at_the_right_wall_keeps_its_place() {
    let mut army = lone(75, 5, 1);
    army.invaders.push(Invader::new(30, 8));
    army.invaders[0].kill();
    army.move_army();
    assert_eq!(places(&army), vec![(75, 5), (31, 8)]);
    army.move_army();
    assert_eq!(places(&army), vec![(75, 5), (32, 8)]);
    assert_eq!(army.direction, 1);
    assert_eq!(army.move_timer, Timer::from_millis(1000));
}

#[test]
fn living_member_at_the_edge_turns_the_formation_with_its_dead() {
    let mut army = lone(74, 5, 1);
    army.invaders.push(Invader::new(30, 8));
    army.invaders[1].kill();
    assert!(army.turns());
    army.move_army();
    assert_eq!(places(&army), vec![(74, 6), (30, 9)]);
    assert_eq!(army.direction, -1);
    assert_eq!(army.move_timer, Timer::from_millis(900));
}

#[test]
fn dead_member_in_the_first_column_does_not_turn_the_formation() {
    let mut army = lone(1, 5, 1);
    army.invaders.push(Invader::new(30, 8));
    army.invaders[0].kill();
    army.direction = -1;
    assert!(!army.turns());
    army.move_army();
    assert_eq!(places(&army), vec![(0, 5), (29, 8)]);
    assert_eq!(army.direction, -1);
    assert_eq!(army.move_timer, Timer::from_millis(1000));
    assert!(!army.turns());
}

#[test]
fn dead_member_at_the_left_wall_keeps_its_place() {
    let mut army = lone(0, 5, 1);
    army.invaders.push(Invader::new(7, 8));
    army.invaders[0].kill();
    army.direction = -1;
    for step in 1..=7 {
        assert!(!army.turns());
        army.move_army();
        assert_eq!(places(&army), vec![(0, 5), (7 - step, 8)]);
        assert_eq!(army.direction, -1);
    }
    assert!(army.turns());
    army.move_army();
    assert_eq!(places(&army), vec![(0, 6), (0, 9)]);
    assert_eq!(army.direction, 1);
    assert_eq!(army.move_timer, Timer::from_millis(900));
}

#[test]
fn member_on_the_last_rows_keeps_its_place_at_a_turn() {
    let mut army = lone(74, 5, 1);
    army.invaders.push(Invader::new(30, 8));
    army.invaders[1].kill();
    army.invaders[1].y = 22;
    army.move_army();
    assert_eq!(places(&army), vec![(74, 6), (30, 22)]);
    assert_eq!(army.direction, -1);
}

#[test]
fn formation_without_a_living_member_steps_sideways() {
    let mut army = lone(74, 5, 1);
    army.invaders[0].kill();
    assert!(!army.turns());
    army.move_army();
    assert_eq!(places(&army), vec![(75, 5)]);
    assert_eq!(army.direction, 1);
    assert_eq!(army.move_timer, Timer::from_millis(1000));
    army.move_army();
    assert_eq!(places(&army), vec![(75, 5)]);

    let mut left = lone(1, 5, 1);
    left.invaders[0].kill();
    left.direction = -1;
    assert!(!left.turns());
    left.move_army();
    assert_eq!(places(&left), vec![(0, 5)]);
    left.move_army();
    assert_eq!(places(&left), vec![(0, 5)]);
    assert_eq!(left.direction, -1);
}

#[test]
fn turns_goes_by_the_side_that_the_formation_moves_towards() {
    let mut army = lone(74, 5, 1);
    assert!(army.turns());
    army.direction = -1;
    assert!(!army.turns());
    army.invaders[0].x = 0;
    assert!(army.turns());
    army.direction = 1;
    assert!(!army.turns());
    army.invaders.clear();
    assert!(!army.turns());
    assert!(!Army::new(1).turns());
}

#[test]
fn update_goes_on_with_a_dead_member_at_the_wall() {
    let mut army = lone(0, 5, 1);
    army.invaders.push(Invader::new(7, 8));
    army.invaders[0].kill();
    army.direction = -1;
    army.shots.push(Shot::new(3, 10, Direction::Down));
    army.shots.push(Shot::new(4, 23, Direction::Down));
    army.update(0);
    assert_eq!(places(&army), vec![(0, 5), (7, 8)]);
    assert_eq!(army.shots.len(), 1);
    army.update(1000 * MS + 1);
    assert_eq!(places(&army), vec![(0, 5), (6, 8)]);
    assert!(army.invaders[0].removable());
    assert_eq!((army.shots[0].x, army.shots[0].y), (3, 11));
    army.update(0);
    assert_eq!(places(&army), vec![(6, 8)]);
    assert_eq!(army.direction, -1);
}

#[test]
fn update_drops_exactly_the_marked_members() {
    let mut army = Army::new(1);
    for k in [3, 4, 20, 44] {
        army.invaders[k].kill();
    }
    army.update(500 * MS + 1);
    assert_eq!(army.invaders.len(), 45);
    army.invaders[10].kill();
    let before = places(&army);
    army.update(500 * MS + 1);
    let after = places(&army);
    let kept: Vec<(usize, usize)> = before
        .iter()
        .enumerate()
        .filter(|(k, _)| ![3, 4, 20, 44].contains(k))
        .map(|(_, place)| (place.0 + 1, place.1))
        .collect();
    assert_eq!(after, kept);
    assert_eq!(after.len(), 41);
    assert!(army.invaders[8].removable());
}

#[test]
fn move_interval_shrinks_down_to_the_floor() {
    let mut army = lone(74, 5, 6);
    assert_eq!(army.move_timer, Timer::from_millis(500));
    army.move_army();
    assert_eq!(army.move_timer, Timer::from_millis(400));
    army.direction = 1;
    army.move_army();
    assert_eq!(army.move_timer, Timer::from_millis(300));
    army.direction = 1;
    army.move_army();
    assert_eq!(army.move_timer, Timer::from_millis(250));
    army.direction = 1;
    army.move_army();
    assert_eq!(army.move_timer, Timer::from_millis(250));
    assert_eq!(places(&army), vec![(74, 9)]);
}

#[test]
fn move_interval_of_351_becomes_251() {
    let mut army = lone(74, 5, 1);
    army.move_timer = Timer::from_millis(351);
    army.move_army();
    assert_eq!(army.move_timer, Timer::from_millis(251));
    army.direction = 1;
    army.move_timer = Timer::from_millis(350);
    army.move_army();
    assert_eq!(army.move_timer, Timer::from_millis(250));
    army.direction = 1;
    army.move_timer = Timer::from_millis(50);
    army.move_army();
    assert_eq!(army.move_timer, Timer::from_millis(250));
}

#[test]
fn empty_formation_does_not_move() {
    let mut army = Army::new(1);
    army.invaders.clear();
    assert!(army.all_dead());
    army.move_army();
    assert!(army.invaders.is_empty());
    assert_eq!(army.direction, 1);
    assert_eq!(army.move_timer, Timer::from_millis(1000));
    assert!(!army.invaded());
    assert!(army.get_shooter().is_none());
    assert_eq!(army.pick_slot(), None);
}

#[test]
fn first_member_in_order_is_hit() {
    let mut army = Army::new(1);
    let mut probe = Player::new();
    probe.x = 12;
    probe.y = 4;
    assert_eq!(army.check_collision(&probe), Some(30));
    assert!(army.invaders[1].dead());
    assert!(!army.invaders[6].dead());
    assert_eq!(army.check_collision(&probe), Some(30));
    assert!(army.invaders[6].dead());
    assert_eq!(army.check_collision(&probe), None);
    let dead = army.invaders.iter().filter(|invader| invader.dead()).count();
    assert_eq!(dead, 2);
    assert_eq!(army.invaders.len(), 45);
}

#[test]
fn miss_changes_nothing() {
    let mut army = Army::new(1);
    let shot = Shot::new(14, 2, Direction::Up);
    assert_eq!(army.check_collision(&shot), None);
    assert!(army.invaders.iter().all(|invader| invader.is_alive));
}

#[test]
fn shooter_has_to_be_alive() {
    let mut army = Army::new(1);
    assert_eq!(army.shooter_at(7).map(|invader| (invader.x, invader.y)), Some((16, 8)));
    army.invaders[7].kill();
    assert!(army.shooter_at(7).is_none());
    assert!(army.shooter_at(8).is_some());
}

#[test]
fn random_shooter_is_a_living_member() {
    let mut army = Army::new(1);
    for k in 0..45 {
        if k % 2 == 0 {
            army.invaders[k].kill();
        }
    }
    let mut found = 0;
    for _ in 0..200 {
        if let Some(shooter) = army.get_shooter() {
            assert!(shooter.is_alive);
            let slot = (shooter.x - 9) / 7 * 5 + (shooter.y - 2) / 3;
            assert_eq!(slot % 2, 1);
            found += 1;
        }
    }
    assert!(found > 0);
    assert!(found < 200);
}

#[test]
fn random_slot_is_inside_the_formation() {
    let army = lone(9, 2, 1);
    for _ in 0..20 {
        assert_eq!(army.pick_slot(), Some(0));
    }
    let full = Army::new(1);
    let mut seen = [false; 45];
    for _ in 0..2000 {
        let slot = full.pick_slot().unwrap();
        assert!(slot < 45);
        seen[slot] = true;
    }
    assert!(seen.iter().filter(|hit| **hit).count() > 1);
}

#[test]
fn fire_adds_a_shot_under_the_shooter() {
    let mut army = Army::new(1);
    army.fire(Some(7), 777);
    assert_eq!(army.shots.len(), 1);
    assert_eq!(army.shots[0].x, 18);
    assert_eq!(army.shots[0].y, 10);
    assert_eq!(army.shots[0].direction, Direction::Down);
    assert!(!army.shots[0].exploding);
    assert_eq!(army.shot_timer, Timer::from_millis(777));
    assert_eq!(army.invaders.len(), 45);
}

#[test]
fn dead_slot_does_not_fire_but_the_interval_is_drawn_anew() {
    let mut army = Army::new(1);
    army.invaders[7].kill();
    army.fire(Some(7), 600);
    assert!(army.shots.is_empty());
    assert_eq!(army.shot_timer, Timer::from_millis(600));
    army.fire(None, 7999);
    assert!(army.shots.is_empty());
    assert_eq!(army.shot_timer, Timer::from_millis(7999));
}

#[test]
fn formation_has_invaded_on_the_second_row_from_the_bottom() {
    let mut army = lone(30, 20, 1);
    assert!(!army.invaded());
    army.invaders[0].y = 21;
    assert!(army.invaded());
    army.invaders[0].y = 22;
    assert!(army.invaded());
    army.invaders.push(Invader::new(9, 2));
    assert!(army.invaded());
    army.invaders[0].y = 2;
    assert!(!army.invaded());
}

#[test]
fn dead_member_on_the_players_rows_has_not_invaded() {
    let mut army = lone(30, 21, 1);
    army.invaders.push(Invader::new(9, 2));
    assert!(army.invaded());
    army.invaders[0].kill();
    assert!(!army.invaded());
    army.invaders[1].y = 21;
    assert!(army.invaded());
    army.invaders[1].kill();
    assert!(!army.invaded());
    assert!(!army.all_dead());
}

#[test]
fn retain_present_keeps_the_order() {
    let mut invaders = vec![
        Invader::new(1, 2),
        Invader::new(2, 5),
        Invader::new(3, 8),
        Invader::new(4, 11),
    ];
    invaders[0].kill();
    invaders[0].update(500 * MS + 1);
    invaders[2].kill();
    invaders[2].update(500 * MS + 1);
    invaders[3].kill();
    retain_present(&mut invaders);
    assert_eq!(invaders.len(), 2);
    assert_eq!(invaders[0].x, 2);
    assert_eq!(invaders[1].x, 4);
    assert!(invaders[1].dead());
}

#[test]
fn update_moves_the_formation_when_the_interval_is_over() {
    let mut army = Army::new(1);
    army.update(1000 * MS);
    assert_eq!(army.invaders[0].x, 9);
    army.update(1);
    assert_eq!(army.invaders[0].x, 10);
    assert_eq!(army.invaders[44].x, 66);
    assert_eq!(army.move_timer, Timer::from_millis(1000));
    army.update(1000 * MS + 1);
    assert_eq!(army.invaders[0].x, 11);
    assert!(army.shots.is_empty());
}

#[test]
fn update_animates_the_members() {
    let mut army = Army::new(1);
    army.update(500 * MS + 1);
    assert!(army.invaders.iter().all(|invader| invader.anim_idx == 1));
    assert_eq!(army.invaders[0].x, 9);
}

#[test]
fn update_fires_when_the_fire_interval_is_over() {
    let mut army = Army::new(1);
    army.move_timer = Timer::from_millis(100_000);
    army.update(4000 * MS);
    assert!(army.shots.is_empty());
    assert_eq!(army.shot_timer.time_left, 0);
    army.update(1);
    assert_eq!(army.shots.len(), 1);
    let shot = &army.shots[0];
    assert_eq!(shot.direction, Direction::Down);
    assert!(army.invaders.iter().any(|invader| invader.x + 2 == shot.x && invader.y + 2 == shot.y));
    assert!(!army.shot_timer.ready);
    assert_eq!(army.shot_timer.time_left, army.shot_timer.duration);
    assert_eq!(army.shot_timer.duration % MS, 0);
    assert_eq!(MIN_FIRE_MILLIS, 500);
    assert_eq!(MAX_FIRE_MILLIS, 8000);
    assert!(army.shot_timer.duration >= 500 * MS);
    assert!(army.shot_timer.duration < 8000 * MS);
}

#[test]
fn fire_interval_is_drawn_anew_each_time() {
    let mut seen = Vec::new();
    for _ in 0..20 {
        let mut army = Army::new(1);
        army.update(4000 * MS + 1);
        let millis = army.shot_timer.duration_millis();
        assert!((500..8000).contains(&millis));
        seen.push(millis);
    }
    seen.sort();
    seen.dedup();
    assert!(seen.len() > 1);
}

#[test]
fn empty_formation_draws_an_interval_but_does_not_fire() {
    let mut army = Army::new(1);
    army.invaders.clear();
    army.update(4000 * MS + 1);
    assert!(army.shots.is_empty());
    assert!(army.shot_timer.duration >= 500 * MS);
    assert!(army.shot_timer.duration < 8000 * MS);
    assert!(army.all_dead());
}

#[test]
fn update_moves_shots_and_drops_dead_ones() {
    let mut army = Army::new(1);
    army.shots.push(Shot::new(11, 22, Direction::Down));
    army.shots.push(Shot::new(12, 10, Direction::Down));
    army.shots[1].explode();
    army.update(75 * MS + 1);
    assert_eq!(army.shots.len(), 1);
    assert_eq!((army.shots[0].x, army.shots[0].y), (11, 23));
    army.update(0);
    assert!(army.shots.is_empty());
}

#[test]
fn hit_member_stays_until_the_explosion_is_over() {
    let mut army = Army::new(1);
    let shot = Shot::new(9, 2, Direction::Up);
    assert_eq!(army.check_collision(&shot), Some(40));
    assert_eq!(army.invaders.len(), 45);
    assert!(army.invaders[0].dead());
    assert!(!army.invaders[0].removable());

    army.update(300 * MS);
    assert_eq!(army.invaders.len(), 45);
    assert!(!army.invaders[0].removable());
    army.update(200 * MS);
    assert_eq!(army.invaders.len(), 45);
    assert!(army.invaders[0].dead());
    assert!(!army.invaders[0].removable());

    army.update(1);
    assert_eq!(army.invaders.len(), 45);
    assert!(army.invaders[0].removable());

    army.update(0);
    assert_eq!(army.invaders.len(), 44);
    assert!(army.invaders.iter().all(|invader| invader.is_alive));
    assert_eq!((army.invaders[0].x, army.invaders[0].y), (9, 5));
}

#[test]
fn last_member_leaves_an_empty_formation() {
    let mut army = lone(30, 5, 1);
    let shot = Shot::new(30, 5, Direction::Up);
    assert_eq!(army.check_collision(&shot), Some(40));
    assert!(!army.all_dead());
    army.update(500 * MS + 1);
    assert!(!army.all_dead());
    army.update(0);
    assert!(army.all_dead());
}

#[test]
fn formation_draws_members_and_shots() {
    let mut frame = new_frame();
    let mut army = lone(30, 5, 1);
    army.shots.push(Shot::new(32, 7, Direction::Down));
    army.draw(&mut frame);
    let top: String = (30..35).map(|x| frame[x][5]).collect();
    let bottom: String = (30..35).map(|x| frame[x][6]).collect();
    assert_eq!(top, " /^\\ ");
    assert_eq!(bottom, "|^|^|");
    assert_eq!(frame[32][7], '↓');
}
