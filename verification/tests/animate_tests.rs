use bomberman::animate::{
    animate_bomb, animate_fire, animate_walk, animation_period_from_speed, ember_sprite_index,
};
use bomberman::components::{Animation, AnimateIndexs, CountdownTimer, Direction, Player};

#[test]
fn the_bomb_pulses_through_three_frames() {
    assert_eq!(animate_bomb(0), 1);
    assert_eq!(animate_bomb(1), 2);
    assert_eq!(animate_bomb(2), 0);
    assert_eq!(animate_bomb(7), 0);
}

#[test]
fn the_center_blast_burns_out_to_its_dying_frame() {
    assert_eq!(animate_fire(8), 9);
    assert_eq!(animate_fire(9), 10);
    assert_eq!(animate_fire(10), 2);
    assert_eq!(animate_fire(2), 2);
}

#[test]
fn walking_steps_through_the_direction_table() {
    let table: Vec<u32> = vec![10, 11, 12, 13];
    assert_eq!(animate_walk(&table, 10), 11);
    assert_eq!(animate_walk(&table, 11), 12);
    assert_eq!(animate_walk(&table, 12), 10);
    // A sprite foreign to the table snaps to the table's first frame.
    assert_eq!(animate_walk(&table, 99), 10);
}

#[test]
fn ember_sprites_follow_direction_and_terminal_flag() {
    assert_eq!(ember_sprite_index(Direction::Left, true), 0);
    assert_eq!(ember_sprite_index(Direction::Right, true), 3);
    assert_eq!(ember_sprite_index(Direction::Up, true), 4);
    assert_eq!(ember_sprite_index(Direction::Down, true), 6);
    assert_eq!(ember_sprite_index(Direction::Left, false), 1);
    assert_eq!(ember_sprite_index(Direction::Right, false), 1);
    assert_eq!(ember_sprite_index(Direction::Up, false), 5);
    assert_eq!(ember_sprite_index(Direction::Down, false), 5);
}

#[test]
fn the_animation_clock_wraps_on_its_period() {
    let mut a = Animation::new(100);
    assert!(!a.tick(60));
    assert_eq!(a.elapsed_ms, 60);
    assert!(a.tick(60));
    assert_eq!(a.elapsed_ms, 20);
}

#[test]
fn countdowns_stop_at_zero() {
    let mut t = CountdownTimer::new(100);
    assert!(!t.tick(60));
    assert_eq!(t.remaining_ms, 40);
    assert!(t.tick(60));
    assert_eq!(t.remaining_ms, 0);
    assert!(t.finished());
}

#[test]
fn the_animation_period_shrinks_with_speed() {
    assert_eq!(animation_period_from_speed(150), 26);
    assert_eq!(animation_period_from_speed(400), 10);
    assert_eq!(animation_period_from_speed(1), 4000);
}

#[test]
fn the_first_player_sheet_holds_its_frames() {
    let t: AnimateIndexs<Player> = AnimateIndexs::player1();
    assert_eq!(t.left, vec![10, 11, 12, 13]);
    assert_eq!(t.right, vec![4, 5, 6, 7]);
    assert_eq!(t.up, vec![0, 8, 9]);
    assert_eq!(t.down, vec![1, 2, 3]);
}

#[test]
fn the_later_player_sheets_hold_their_frames() {
    let t2: AnimateIndexs<Player> = AnimateIndexs::player2();
    assert_eq!(t2.left, vec![24, 25, 26, 27]);
    assert_eq!(t2.up, vec![14, 22, 23]);
    let t3: AnimateIndexs<Player> = AnimateIndexs::player3();
    assert_eq!(t3.right, vec![32, 33, 34, 35]);
    assert_eq!(t3.down, vec![29, 30, 31]);
    let t4: AnimateIndexs<Player> = AnimateIndexs::player4();
    assert_eq!(t4.left, vec![52, 53, 54, 55]);
    assert_eq!(t4.up, vec![42, 50, 51]);
}
