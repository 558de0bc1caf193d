use rpg_game::block::{BlockFlag, BlockName};
use rpg_game::blocks::{block_air, block_dirt, block_stone};
use rpg_game::item::{Item, ItemName, ItemProps, ItemRarity};
use rpg_game::items::{item_dirt, item_from_name, item_stone};
use rpg_game::utils::{can_stack, Color, IVec2};

#[test]
fn adding_same_flag_twice_keeps_size_one() {
    let mut b = block_air(IVec2::new(0, 0));
    b.add_flag(BlockFlag::Chop);
    assert_eq!(b.flags.len(), 1);
    b.add_flag(BlockFlag::Chop);
    assert_eq!(b.flags.len(), 1);
    assert_eq!(b.flags[0], BlockFlag::Chop);
}

#[test]
fn removing_absent_flag_is_noop() {
    let mut b = block_dirt(IVec2::new(0, 0));
    assert_eq!(b.flags, vec![BlockFlag::Dig]);
    b.remove_flag(BlockFlag::Mine);
    assert_eq!(b.flags, vec![BlockFlag::Dig]);
}

#[test]
fn flag_set_never_exceeds_capacity() {
    let mut b = block_air(IVec2::new(0, 0));
    // Only four distinct flags exist; duplicates are rejected, so the set
    // can never pass its capacity of six whatever is added.
    for _ in 0..5 {
        b.add_flag(BlockFlag::Mine);
        b.add_flag(BlockFlag::Dig);
        b.add_flag(BlockFlag::Chop);
        b.add_flag(BlockFlag::Highlight);
    }
    assert_eq!(b.flags.len(), 4);
    assert!(b.flags.len() <= 6);
}

#[test]
fn remove_flag_compacts_left() {
    let mut b = block_air(IVec2::new(0, 0));
    b.add_flag(BlockFlag::Mine);
    b.add_flag(BlockFlag::Dig);
    b.add_flag(BlockFlag::Chop);
    b.remove_flag(BlockFlag::Mine);
    assert_eq!(b.flags, vec![BlockFlag::Dig, BlockFlag::Chop]);
    b.remove_flag_by_index(5);
    assert_eq!(b.flags, vec![BlockFlag::Dig, BlockFlag::Chop]);
    b.remove_flag_by_index(1);
    assert_eq!(b.flags, vec![BlockFlag::Dig]);
}

#[test]
fn can_be_hit_requires_interaction_flag() {
    let air = block_air(IVec2::new(0, 0));
    assert!(!air.can_be_hit());
    let dirt = block_dirt(IVec2::new(0, 0));
    assert!(dirt.can_be_hit());
    let stone = block_stone(IVec2::new(0, 0));
    assert!(stone.can_be_hit());
    let mut highlighted = block_air(IVec2::new(0, 0));
    highlighted.add_flag(BlockFlag::Highlight);
    assert!(!highlighted.can_be_hit());
}

#[test]
fn factory_blocks_carry_their_stats() {
    let d = block_dirt(IVec2::new(3, 4));
    assert_eq!(d.pos, IVec2 { x: 3, y: 4 });
    assert_eq!(d.block_type, BlockName::Dirt);
    assert!(d.can_collide);
    assert_eq!(d.required_level, 0);
    assert_eq!(d.health, 50_000);
    assert_eq!(d.max_health, 50_000);
    assert_eq!(d.drop_item, Some(ItemName::Dirt));

    let s = block_stone(IVec2::new(-1, 7));
    assert_eq!(s.block_type, BlockName::Stone);
    assert_eq!(s.required_level, 1);
    assert_eq!(s.health, 100_000);
    assert_eq!(s.drop_item, Some(ItemName::Stone));

    let a = block_air(IVec2::new(0, 0));
    assert_eq!(a.block_type, BlockName::Air);
    assert!(!a.can_collide);
    assert_eq!(a.max_health, 0);
    assert_eq!(a.drop_item, None);
}

#[test]
fn item_factories_and_stacking_rule() {
    let s = item_stone(3);
    assert_eq!(s.name, ItemName::Stone);
    assert_eq!(s.amount, 3);
    assert_eq!(s.max_stack, 64);
    let d = item_dirt(2);
    assert_eq!(d.name, ItemName::Dirt);
    assert!(can_stack(&s, &item_stone(64)));
    assert!(!can_stack(&s, &d));
    assert_eq!(item_from_name(ItemName::Stone, 5).name, ItemName::Stone);
    assert_eq!(item_from_name(ItemName::Dirt, 5).name, ItemName::Dirt);

    let weaponish = Item::new(
        64,
        1,
        ItemRarity::Common,
        ItemName::Stone,
        Color::new(1, 1, 1),
        ItemProps::Plain,
    );
    assert!(!weaponish.is_weapon());
    assert!(weaponish.weapon_props().is_none());
    assert!(weaponish.tool_props().is_none());
}
