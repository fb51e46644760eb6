use bomberman::bomb::FireKind;
use bomberman::components::{BOMB_FUSE_MS, Buff, BombNumber, EMBER_START_TIME_MS};
use bomberman::game::{Game, GameEvents};
use bomberman::geometry::Pos;
use bomberman::map::GameMap;
use bomberman::movement::DirectionalInput;
use bomberman::state::GameState;

fn no_input() -> DirectionalInput {
    DirectionalInput { left: false, down: false, up: false, right: false }
}

#[test]
fn a_fresh_level_has_one_player_at_its_start_cell() {
    let g = Game::new(GameMap::first());
    assert_eq!(g.players.len(), 1);
    assert_eq!(g.players[0].motion.position, Pos { x: 48, y: 48 });
    assert_eq!(g.players[0].number, BombNumber { max: 1, current: 0 });
    assert_eq!(g.creatures.len(), 0);
    assert_eq!(g.bombs.len(), 0);
    assert_eq!(g.fires.len(), 0);
    assert!(g.physics_active);
    assert_eq!(g.game_state, GameState::Game);
}

#[test]
fn placement_counts_against_the_owner_and_blocks_at_the_maximum() {
    let mut g = Game::new(GameMap::first());
    assert!(g.space_to_set_bomb(0));
    assert_eq!(g.bombs.len(), 1);
    assert_eq!(g.bombs[0].position, Pos { x: 48, y: 48 });
    assert_eq!(g.bombs[0].bomb.timer.remaining_ms, BOMB_FUSE_MS);
    assert_eq!(g.players[0].number.current, 1);
    // The slot is used up: a second placement is a no-op.
    assert!(!g.space_to_set_bomb(0));
    assert_eq!(g.bombs.len(), 1);
    assert_eq!(g.players[0].number.current, 1);
}

#[test]
fn an_occupied_cell_refuses_a_second_bomb() {
    let mut g = Game::new(GameMap::first());
    g.players[0].number.max = 2;
    assert!(g.space_to_set_bomb(0));
    // Same snapped cell: refused even though a slot is free.
    assert!(!g.space_to_set_bomb(0));
    assert_eq!(g.players[0].number.current, 1);
}

#[test]
fn each_detonation_refunds_exactly_one_slot() {
    // Two bombs by the same player at different tiles: the first expiring
    // lowers the counter by exactly one and leaves the second's fuse alone.
    let mut g = Game::new(GameMap::first());
    g.players[0].number.max = 2;
    assert!(g.space_to_set_bomb(0));
    g.bomb_trigger(1000);
    g.players[0].motion.position = Pos { x: 144, y: 48 };
    assert!(g.space_to_set_bomb(0));
    assert_eq!(g.players[0].number.current, 2);
    g.bomb_trigger(2000);
    assert_eq!(g.bombs.len(), 1);
    assert_eq!(g.bombs[0].position, Pos { x: 144, y: 48 });
    assert_eq!(g.bombs[0].bomb.timer.remaining_ms, 1000);
    assert_eq!(g.fires.len(), 1);
    assert!(matches!(g.events[0], GameEvents::RecoveryBombNumber(_)));
    g.game_events_handle();
    assert_eq!(g.players[0].number.current, 1);
    assert_eq!(g.events.len(), 0);
}

#[test]
fn refunds_for_vanished_owners_are_dropped() {
    let mut g = Game::new(GameMap::first());
    g.events.push(GameEvents::RecoveryBombNumber(99));
    g.game_events_handle();
    assert_eq!(g.players[0].number.current, 0);
    assert_eq!(g.events.len(), 0);
}

#[test]
fn the_propagation_trigger_fires_once_and_spawns_edges() {
    let mut g = Game::new(GameMap::first());
    assert!(g.space_to_set_bomb(0));
    g.bomb_trigger(BOMB_FUSE_MS);
    assert_eq!(g.fires.len(), 1);
    assert!(matches!(g.fires[0].kind, FireKind::Center { .. }));
    g.ember_trigger(EMBER_START_TIME_MS);
    // From (48, 48): open upward and rightward, walled left and down.
    assert_eq!(g.fires.len(), 3);
    assert_eq!(g.fires[1].position, Pos { x: 48, y: 96 });
    assert_eq!(g.fires[2].position, Pos { x: 96, y: 48 });
    // The trigger is consumed: another tick spawns nothing.
    g.ember_trigger(50);
    assert_eq!(g.fires.len(), 3);
}

#[test]
fn a_player_on_the_detonation_tile_is_defeated_exactly_once() {
    let mut g = Game::new(GameMap::first());
    assert!(g.space_to_set_bomb(0));
    g.bomb_trigger(BOMB_FUSE_MS);
    g.resolve_destruction();
    assert!(!g.players[0].alive);
    let mut game_overs = 0;
    for e in g.events.iter() {
        if matches!(e, GameEvents::GameOver) {
            game_overs += 1;
        }
    }
    assert_eq!(game_overs, 1);
    g.game_events_handle();
    assert_eq!(g.game_state, GameState::GameOver);
    assert!(!g.physics_active);
    // A later defeat event cannot move a terminal state.
    g.events.push(GameEvents::Victory);
    g.game_events_handle();
    assert_eq!(g.game_state, GameState::GameOver);
}

#[test]
fn pickups_raise_the_stats_and_disappear() {
    let mut g = Game::new(GameMap::first());
    let at = g.players[0].motion.position;
    g.buffs.push(bomberman::bomb::BuffEntity { position: at, kind: Buff::PowerBuff });
    g.buffs.push(bomberman::bomb::BuffEntity { position: at, kind: Buff::BombNumberBuff });
    g.buffs.push(bomberman::bomb::BuffEntity { position: at, kind: Buff::SpeedBuff });
    g.buffs.push(bomberman::bomb::BuffEntity {
        position: Pos { x: 480, y: 480 },
        kind: Buff::PowerBuff,
    });
    g.buffs();
    assert_eq!(g.players[0].power.0, 2);
    assert_eq!(g.players[0].number.max, 2);
    assert_eq!(g.players[0].motion.velocity.max, 180);
    // Only the far-away pickup is left.
    assert_eq!(g.buffs.len(), 1);
    assert_eq!(g.buffs[0].position, Pos { x: 480, y: 480 });
}

#[test]
fn speed_pickups_cap_at_the_ceiling() {
    let mut g = Game::new(GameMap::first());
    let at = g.players[0].motion.position;
    for _ in 0..8 {
        g.buffs.push(bomberman::bomb::BuffEntity { position: at, kind: Buff::SpeedBuff });
    }
    g.buffs();
    assert_eq!(g.players[0].motion.velocity.max, 400);
}

#[test]
fn entering_a_portal_halts_the_player_and_wins() {
    let mut g = Game::new(GameMap::first());
    g.portals.push(g.players[0].motion.position);
    g.portal_player_collision();
    assert!(g.players[0].stopped);
    assert!(matches!(g.events[0], GameEvents::Victory));
    g.game_events_handle();
    assert_eq!(g.game_state, GameState::Victory);
    assert!(!g.physics_active);
}

#[test]
fn a_bomb_turns_solid_once_its_placer_steps_clear() {
    let mut g = Game::new(GameMap::first());
    assert!(g.space_to_set_bomb(0));
    // The placing player still stands on the cell: not a wall yet.
    g.bomb_block_player();
    assert!(!g.bombs[0].wall);
    g.players[0].motion.position = Pos { x: 144, y: 48 };
    g.bomb_block_player();
    assert!(g.bombs[0].wall);
}

#[test]
fn a_full_round_clears_its_blast_cells() {
    // Place a bomb and run whole ticks until well past fuse and lifetimes:
    // every blast cell is cleaned up by its own timer.
    let mut g = Game::new(GameMap::first());
    g.tick(100, &no_input(), true);
    let mut saw_fire = false;
    for _ in 0..80 {
        g.tick(50, &no_input(), false);
        if g.fires.len() > 0 {
            saw_fire = true;
        }
    }
    assert!(saw_fire);
    assert_eq!(g.fires.len(), 0);
    assert_eq!(g.bombs.len(), 0);
    // The player stood on the bomb: the round ended in defeat.
    assert_eq!(g.game_state, GameState::GameOver);
}

#[test]
fn destruction_reveals_the_portal_box() {
    // The cell right of the start holds the portal box on the first level;
    // a detonation there reveals a portal at that cell.
    let mut g = Game::new(GameMap::first());
    assert!(g.space_to_set_bomb(0));
    g.bomb_trigger(BOMB_FUSE_MS);
    g.ember_trigger(EMBER_START_TIME_MS);
    g.resolve_destruction();
    assert_eq!(g.portals, vec![Pos { x: 96, y: 48 }]);
}

#[test]
fn only_the_owner_standing_on_a_bomb_keeps_it_passable() {
    // A second player standing elsewhere does not make the bomb solid
    // while its owner still stands on it.
    let mut g = Game::new(GameMap::first());
    g.players.push(bomberman::game::PlayerEntity::new(1, Pos { x: 144, y: 48 }));
    assert!(g.space_to_set_bomb(0));
    g.bomb_block_player();
    assert!(!g.bombs[0].wall);
    // Once the owner steps clear, the bomb turns solid.
    g.players[0].motion.position = Pos { x: 144, y: 96 };
    g.bomb_block_player();
    assert!(g.bombs[0].wall);
}

#[test]
fn a_bomb_whose_owner_died_turns_solid_at_once() {
    let mut g = Game::new(GameMap::first());
    assert!(g.space_to_set_bomb(0));
    g.players[0].alive = false;
    g.bomb_block_player();
    assert!(g.bombs[0].wall);
}
