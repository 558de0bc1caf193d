use rpg_game::game::{Game, TickInput};
use rpg_game::utils::Vec2;

fn idle_input() -> TickInput {
    TickInput { jump_held: false, left_held: false, right_held: false, mine_target: None }
}

#[test]
fn new_game_starts_empty_at_the_surface_line() {
    let g = Game::new(6589, Vec2::new(40_000, 30_000));
    assert_eq!(g.tick_count, 0);
    assert_eq!(g.camera_pos, Vec2::new(0, 40_000));
    assert_eq!(g.player.pos, Vec2::new(0, 0));
    assert!(g.map.get_block(0, 41).is_none());
}

#[test]
fn ticking_streams_terrain_and_advances_time() {
    let mut g = Game::new(6589, Vec2::new(40_000, 30_000));
    g.tick(idle_input());
    assert_eq!(g.tick_count, 1);
    // Streaming around the camera has loaded the surface chunks.
    assert!(g.map.get_block(0, 41).is_some());
    assert_eq!(g.camera_pos, g.player.pos);
}

#[test]
fn idle_player_falls_and_comes_to_rest_on_the_terrain() {
    let mut g = Game::new(6589, Vec2::new(40_000, 30_000));
    for _ in 0..400 {
        g.tick(idle_input());
    }
    // The surface begins at world row 40 (top edge 40_000 milli-units):
    // the player has fallen down to it and stopped, not through it.
    assert_eq!(g.player.velocity.y, 0);
    assert!(g.player.pos.y + 800 <= 40_000, "player sank into terrain: {}", g.player.pos.y);
    assert!(g.player.pos.y > 35_000, "player did not fall: {}", g.player.pos.y);
}

#[test]
fn held_direction_moves_the_player() {
    let mut g = Game::new(6589, Vec2::new(40_000, 30_000));
    // Settle onto the ground first.
    for _ in 0..400 {
        g.tick(idle_input());
    }
    let x0 = g.player.pos.x;
    let walk = TickInput { jump_held: false, left_held: false, right_held: true, mine_target: None };
    for _ in 0..60 {
        g.tick(walk);
    }
    assert!(g.player.pos.x > x0, "player did not move right");
}

#[test]
fn mining_through_the_tick_respects_range() {
    let mut g = Game::new(6589, Vec2::new(40_000, 30_000));
    for _ in 0..400 {
        g.tick(idle_input());
    }
    // Aim far outside the five-unit reach: nothing may change.
    let far = TickInput {
        jump_held: false,
        left_held: false,
        right_held: false,
        mine_target: Some(Vec2::new(g.player.pos.x + 50_000, g.player.pos.y)),
    };
    let before = g.map.get_block(g.player.pos.x / 1000 + 50, g.player.pos.y / 1000).map(|b| b.health);
    g.tick(far);
    let after = g.map.get_block(g.player.pos.x / 1000 + 50, g.player.pos.y / 1000).map(|b| b.health);
    assert_eq!(before, after);
    // Aim at the block straight under the player's feet: it takes damage.
    let feet_block_y = (g.player.pos.y + 800) / 1000 + 1;
    let target = Vec2::new(g.player.pos.x + 400, feet_block_y * 1000 + 500);
    let mine = TickInput {
        jump_held: false,
        left_held: false,
        right_held: false,
        mine_target: Some(target),
    };
    let bx = target.x / 1000;
    let before = g.map.get_block(bx, feet_block_y).unwrap().health;
    g.tick(mine);
    let after = g.map.get_block(bx, feet_block_y).unwrap().health;
    assert!(after < before, "mining under the feet should damage the block");
}
