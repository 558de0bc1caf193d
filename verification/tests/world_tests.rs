use noise::NoiseFn;
use rpg_game::block::{BlockFlag, BlockName};
use rpg_game::item::ItemName;
use rpg_game::player::Player;
use rpg_game::utils::Vec2;
use rpg_game::world::{generate_block, Chunk, HitOutcome, World, CHUNK_SIZE};

#[test]
fn world_to_chunk_floors_negative_coordinates() {
    assert_eq!(Chunk::world_to_chunk(0, 0), (0, 0));
    assert_eq!(Chunk::world_to_chunk(15, 15), (0, 0));
    assert_eq!(Chunk::world_to_chunk(16, 31), (1, 1));
    assert_eq!(Chunk::world_to_chunk(-1, -16), (-1, -1));
    assert_eq!(Chunk::world_to_chunk(-17, -33), (-2, -3));
}

#[test]
fn coordinate_round_trip_including_negatives() {
    for &x in &[-33i64, -17, -16, -1, 0, 1, 15, 16, 40, 1234] {
        for &y in &[-40i64, -2, 0, 7, 63] {
            let (cx, cy) = Chunk::world_to_chunk(x, y);
            let lx = x - cx * CHUNK_SIZE;
            let ly = y - cy * CHUNK_SIZE;
            assert!((0..CHUNK_SIZE).contains(&lx));
            assert!((0..CHUNK_SIZE).contains(&ly));
            assert_eq!(Chunk::chunk_to_world(cx, cy, lx, ly), (x, y));
        }
    }
}

#[test]
fn generation_is_deterministic() {
    let a = Chunk::new(6589, 0, 2);
    let b = Chunk::new(6589, 0, 2);
    let fa = a.flatten();
    let fb = b.flatten();
    assert_eq!(fa.len(), 256);
    for (x, y) in fa.iter().zip(fb.iter()) {
        assert_eq!(x.block_type, y.block_type);
        assert_eq!(x.color, y.color);
        assert_eq!(x.health, y.health);
        assert_eq!(x.pos, y.pos);
        assert_eq!(x.flags, y.flags);
    }
}

#[test]
fn generation_matches_surface_rule() {
    // Above the surface depth everything is open sky.
    let sky = generate_block(6589, 5, 39);
    assert_eq!(sky.block_type, BlockName::Air);
    // At or below it, terrain is dirt or stone, never air.
    for x in 0..32 {
        let b = generate_block(6589, x, 41);
        assert!(b.block_type == BlockName::Dirt || b.block_type == BlockName::Stone);
    }
}

#[test]
fn generation_classifies_by_the_noise_sample() {
    // The sample point is each coordinate scaled by three tenths; the
    // library must classify exactly as the generator's sample does.
    let perlin = noise::Perlin::new(6589);
    for x in -40i64..40 {
        for y in 40i64..44 {
            let px = (3 * x) as f64 / 10.0;
            let py = (3 * y) as f64 / 10.0;
            let sample = perlin.get([px, py]);
            let expected = if sample < 0.5 { BlockName::Dirt } else { BlockName::Stone };
            assert_eq!(generate_block(6589, x, y).block_type, expected);
        }
    }
}

#[test]
fn grid_boundaries_are_highlighted() {
    let on_line = generate_block(6589, 16, 41);
    assert!(on_line.flags.contains(&BlockFlag::Highlight));
    let on_row = generate_block(6589, 3, 48);
    assert!(on_row.flags.contains(&BlockFlag::Highlight));
    let inside = generate_block(6589, 3, 41);
    assert!(!inside.flags.contains(&BlockFlag::Highlight));
}

#[test]
fn seeded_block_query_is_idempotent() {
    // The chunk cache means a cell is generated once and then only read.
    let origin = Chunk::new(6589, 0, 0);
    assert_eq!(origin.flatten().len(), 256);
    let mut w = World::new(6589);
    w.update_around_point(0, 41_000, 64_000, 64_000);
    let (t1, c1) = {
        let b = w.get_block(0, 41).expect("chunk should be loaded");
        (b.block_type, b.color)
    };
    let (t2, c2) = {
        let b = w.get_block(0, 41).expect("chunk should still be loaded");
        (b.block_type, b.color)
    };
    assert_eq!(t1, t2);
    assert_eq!(c1, c2);
}

#[test]
fn unloaded_coordinates_yield_absence() {
    let w = World::new(6589);
    assert!(w.get_block(0, 41).is_none());
    let mut w2 = World::new(6589);
    w2.update_around_point(0, 41_000, 32_000, 32_000);
    assert!(w2.get_block(100_000, 41).is_none());
    let mut p = Player::default();
    assert_eq!(w2.hit_block(100_000, 41, &mut p), HitOutcome::NotFound);
}

fn find_block(w: &World, kind: BlockName) -> (i64, i64) {
    for x in -100..100 {
        for y in 41..70 {
            if let Some(b) = w.get_block(x, y) {
                if b.block_type == kind {
                    return (x, y);
                }
            }
        }
    }
    panic!("no {:?} block found in the searched region", kind);
}

#[test]
fn mining_decreases_health_until_the_block_breaks() {
    let mut w = World::new(6589);
    w.update_around_point(0, 55_000, 250_000, 80_000);
    let (x, y) = find_block(&w, BlockName::Dirt);
    let mut p = Player::default();
    assert_eq!(p.tool_level, 0);
    assert_eq!(p.mining_damage, 20_000);
    // Dirt requires level zero: full damage applies.
    assert_eq!(w.hit_block(x, y, &mut p), HitOutcome::Damaged);
    assert_eq!(w.get_block(x, y).unwrap().health, 30_000);
    assert_eq!(w.hit_block(x, y, &mut p), HitOutcome::Damaged);
    assert_eq!(w.get_block(x, y).unwrap().health, 10_000);
    assert_eq!(w.hit_block(x, y, &mut p), HitOutcome::Broken);
    let cleared = w.get_block(x, y).unwrap();
    assert_eq!(cleared.block_type, BlockName::Air);
    assert_eq!(cleared.health, 0);
    assert!(!cleared.can_be_hit());
    assert_eq!(cleared.pos.x, x);
    assert_eq!(cleared.pos.y, y);
    // Exactly one unit of the drop arrived in the inventory.
    let slots = p.inventory.get_items();
    let dirt = slots[0].expect("drop should land in the first slot");
    assert_eq!(dirt.name, ItemName::Dirt);
    assert_eq!(dirt.amount, 1);
    assert!(p.stash.is_empty());
    // Hitting the cleared cell does nothing further.
    assert_eq!(w.hit_block(x, y, &mut p), HitOutcome::Ignored);
}

#[test]
fn low_tool_level_halves_damage_exactly() {
    let mut w = World::new(6589);
    w.update_around_point(0, 55_000, 250_000, 80_000);
    let (x, y) = find_block(&w, BlockName::Stone);
    let mut p = Player::default();
    // Stone requires level one, the default tool is level zero.
    assert_eq!(w.hit_block(x, y, &mut p), HitOutcome::Damaged);
    assert_eq!(w.get_block(x, y).unwrap().health, 100_000 - 10_000);
    // With a sufficient tool the full damage applies.
    p.tool_level = 1;
    assert_eq!(w.hit_block(x, y, &mut p), HitOutcome::Damaged);
    assert_eq!(w.get_block(x, y).unwrap().health, 100_000 - 10_000 - 20_000);
}

#[test]
fn heal_block_clamps_at_max_health() {
    let mut w = World::new(6589);
    w.update_around_point(0, 55_000, 250_000, 80_000);
    let (x, y) = find_block(&w, BlockName::Dirt);
    let mut p = Player::default();
    w.hit_block(x, y, &mut p);
    assert_eq!(w.get_block(x, y).unwrap().health, 30_000);
    w.heal_block(x, y, 100);
    assert_eq!(w.get_block(x, y).unwrap().health, 30_100);
    w.heal_block(x, y, 1_000_000);
    assert_eq!(w.get_block(x, y).unwrap().health, 50_000);
}

#[test]
fn remove_block_clears_to_air_in_place() {
    let mut w = World::new(6589);
    w.update_around_point(0, 41_000, 64_000, 64_000);
    assert_ne!(w.get_block(3, 45).unwrap().block_type, BlockName::Air);
    w.remove_block(3, 45);
    let b = w.get_block(3, 45).unwrap();
    assert_eq!(b.block_type, BlockName::Air);
    assert_eq!(b.pos.x, 3);
    assert_eq!(b.pos.y, 45);
    // Removing at an unloaded coordinate is a quiet no-op.
    w.remove_block(100_000, 45);
}

#[test]
fn active_chunks_are_a_subset_of_loaded_chunks() {
    let mut w = World::new(6589);
    w.update_around_point(0, 41_000, 96_000, 96_000);
    w.update_active_chunks(0, 41_000, 64_000, 64_000);
    let active = w.get_active_chunks();
    assert!(!active.is_empty());
    for c in active {
        assert_eq!(c.flatten().len(), 256);
    }
    // A window over unloaded space activates nothing.
    w.update_active_chunks(900_000_000, 900_000_000, 32_000, 32_000);
    assert!(w.get_active_chunks().is_empty());
}

#[test]
fn streaming_never_regenerates_a_loaded_chunk() {
    let mut w = World::new(6589);
    w.update_around_point(0, 41_000, 64_000, 64_000);
    let mut p = Player::default();
    let (x, y) = find_block(&w, BlockName::Dirt);
    w.hit_block(x, y, &mut p);
    let worn = w.get_block(x, y).unwrap().health;
    // Streaming over the same area must keep the mutated block.
    w.update_around_point(0, 41_000, 64_000, 64_000);
    assert_eq!(w.get_block(x, y).unwrap().health, worn);
}
