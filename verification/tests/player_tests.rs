use rpg_game::block::Block;
use rpg_game::blocks::block_stone;
use rpg_game::player::Player;
use rpg_game::utils::{Direction, IVec2, Vec2};
use rpg_game::world::{HitOutcome, World};

fn floor_row(y: i64) -> Vec<Block> {
    let mut blocks = Vec::new();
    for x in -4..5 {
        blocks.push(block_stone(IVec2::new(x, y)));
    }
    blocks
}

#[test]
fn gravity_accelerates_and_clamps_at_terminal_velocity() {
    let mut p = Player::default();
    p.apply_gravity(60);
    assert_eq!(p.velocity.y, 500);
    p.apply_gravity(60);
    assert_eq!(p.velocity.y, 1_000);
    p.velocity.y = 52_900;
    p.apply_gravity(60);
    assert_eq!(p.velocity.y, 53_000);
    p.apply_gravity(60);
    assert_eq!(p.velocity.y, 53_000);
}

#[test]
fn walking_accelerates_and_clamps() {
    let mut p = Player::default();
    p.try_move(Direction::Right, 60);
    assert_eq!(p.velocity.x, 1_000);
    for _ in 0..30 {
        p.try_move(Direction::Right, 60);
    }
    assert_eq!(p.velocity.x, 20_000);
    p.try_move(Direction::Left, 60);
    assert_eq!(p.velocity.x, 19_000);
    for _ in 0..50 {
        p.try_move(Direction::Left, 60);
    }
    assert_eq!(p.velocity.x, -20_000);
    // Vertical intents leave the horizontal speed alone.
    p.try_move(Direction::Up, 60);
    assert_eq!(p.velocity.x, -20_000);
}

#[test]
fn friction_decelerates_without_overshooting() {
    let mut p = Player::default();
    p.velocity.x = 400;
    p.apply_friction(60);
    assert_eq!(p.velocity.x, 150);
    p.apply_friction(60);
    assert_eq!(p.velocity.x, 0);
    p.velocity.x = -300;
    p.apply_friction(60);
    assert_eq!(p.velocity.x, -50);
    p.apply_friction(60);
    assert_eq!(p.velocity.x, 0);
}

#[test]
fn falling_player_lands_on_the_floor() {
    let blocks = floor_row(10);
    let mut p = Player::new(Vec2::new(100, 0));
    p.velocity.y = 600_000;
    p.move_step(&blocks, 60);
    // The floor's top edge is at 10_000 milli-units; the player's feet
    // must never end up inside it.
    assert!(p.pos.y + 800 <= 10_000);
    assert!(p.pos.y > 8_000);
    assert_eq!(p.velocity.y, 0);
}

#[test]
fn high_speed_never_tunnels_through_a_block_row() {
    let blocks = floor_row(10);
    let mut p = Player::new(Vec2::new(0, 0));
    // One frame's travel far exceeds one block: must be substepped.
    p.velocity.y = 1_000_000;
    p.move_step(&blocks, 60);
    assert!(p.pos.y + 800 <= 10_000);
    p.move_step(&blocks, 60);
    assert!(p.pos.y + 800 <= 10_000);
}

#[test]
fn horizontal_sweep_stops_at_a_wall() {
    let mut blocks = Vec::new();
    for y in -2..3 {
        blocks.push(block_stone(IVec2::new(3, y)));
    }
    let mut p = Player::new(Vec2::new(0, 0));
    p.velocity.x = 900_000;
    p.move_step(&blocks, 60);
    // The wall face is at x = 3_000: the player's right edge stays out.
    assert!(p.pos.x + 800 <= 3_000);
    assert_eq!(p.velocity.x, 0);
    assert_eq!(p.velocity.y, 0);
}

#[test]
fn ground_check_uses_the_epsilon_band() {
    let blocks = floor_row(10);
    let mut p = Player::new(Vec2::new(100, 9_200));
    assert!(p.is_on_ground(&blocks));
    p.pos.y = 9_170;
    assert!(p.is_on_ground(&blocks));
    p.pos.y = 9_100;
    assert!(!p.is_on_ground(&blocks));
    // Horizontal overlap is required too.
    p.pos = Vec2::new(20_000, 9_200);
    assert!(!p.is_on_ground(&blocks));
}

#[test]
fn jump_only_works_when_grounded() {
    let blocks = floor_row(10);
    let mut p = Player::new(Vec2::new(100, 9_200));
    p.try_jump(&blocks);
    assert_eq!(p.velocity.y, -20_000);
    let mut airborne = Player::new(Vec2::new(100, 5_000));
    airborne.try_jump(&blocks);
    assert_eq!(airborne.velocity.y, 0);
}

#[test]
fn wrap_board_wraps_once_per_side() {
    let mut p = Player::new(Vec2::new(-500, 0));
    p.wrap_board(100);
    assert_eq!(p.pos.x, 99_500);
    p.pos.x = 100_200;
    p.wrap_board(100);
    assert_eq!(p.pos.x, 200);
    p.pos.x = 50_000;
    p.wrap_board(100);
    assert_eq!(p.pos.x, 50_000);
}

#[test]
fn look_at_picks_the_dominant_axis() {
    let mut p = Player::new(Vec2::new(0, 0));
    p.look_at(5_000, 400);
    assert_eq!(p.look_dir, Direction::Right);
    p.look_at(-5_000, 400);
    assert_eq!(p.look_dir, Direction::Left);
    p.look_at(400, 5_000);
    assert_eq!(p.look_dir, Direction::Down);
    p.look_at(400, -5_000);
    assert_eq!(p.look_dir, Direction::Up);
}

#[test]
fn strike_cooldown_gates_mining() {
    let mut w = World::new(6589);
    w.update_around_point(0, 41_000, 64_000, 64_000);
    let mut p = Player::default();
    let target = IVec2::new(1, 45);
    let before = w.get_block(1, 45).unwrap().health;
    // At tick 20 the delay (20 ticks since tick 0) has elapsed.
    p.hit_block(target, &mut w, 20);
    let after_first = w.get_block(1, 45).unwrap().health;
    assert!(after_first < before);
    assert_eq!(p.last_tick_block_hit, 20);
    // A strike in the very next tick is ignored.
    p.hit_block(target, &mut w, 21);
    assert_eq!(w.get_block(1, 45).unwrap().health, after_first);
    assert_eq!(p.last_tick_block_hit, 20);
    // Once the delay has passed again, the strike lands.
    p.hit_block(target, &mut w, 40);
    assert!(w.get_block(1, 45).unwrap().health < after_first);
}

#[test]
fn world_hit_outcomes_cover_the_error_taxonomy() {
    let mut w = World::new(6589);
    let mut p = Player::default();
    // NotFound: nothing is loaded yet.
    assert_eq!(w.hit_block(0, 45, &mut p), HitOutcome::NotFound);
    w.update_around_point(0, 41_000, 64_000, 64_000);
    // Ignored: sky cannot be hit.
    assert_eq!(w.hit_block(0, 10, &mut p), HitOutcome::Ignored);
    // Damaged: terrain takes the strike.
    assert_eq!(w.hit_block(0, 45, &mut p), HitOutcome::Damaged);
}

#[test]
fn sweep_never_overlaps_across_random_layouts() {
    // A small linear congruential generator keeps the cases reproducible.
    let mut state: u64 = 0x2545_f491_4f6c_dd1d;
    let mut next = move || {
        state = state.wrapping_mul(6364136223846793005).wrapping_add(1442695040888963407);
        (state >> 33) as i64
    };
    for _ in 0..60 {
        let mut blocks = Vec::new();
        for _ in 0..25 {
            let bx = next() % 12 - 6;
            let by = next() % 12 - 6;
            blocks.push(block_stone(IVec2::new(bx, by)));
        }
        let mut p = Player::new(Vec2::new(
            (next() % 9 - 4) * 1_000 + 100,
            (next() % 9 - 4) * 1_000 + 100,
        ));
        let overlapping_at = |blocks: &Vec<Block>, px: i64, py: i64| {
            blocks.iter().any(|b| {
                b.can_collide
                    && !(px + 800 <= b.pos.x * 1_000
                        || px >= b.pos.x * 1_000 + 1_000
                        || py + 800 <= b.pos.y * 1_000
                        || py >= b.pos.y * 1_000 + 1_000)
            })
        };
        if overlapping_at(&blocks, p.pos.x, p.pos.y) {
            continue;
        }
        p.velocity.x = next() % 2_000_001 - 1_000_000;
        p.velocity.y = next() % 2_000_001 - 1_000_000;
        p.move_step(&blocks, 60);
        assert!(
            !overlapping_at(&blocks, p.pos.x, p.pos.y),
            "player ended inside a block at ({}, {})",
            p.pos.x,
            p.pos.y
        );
    }
}
