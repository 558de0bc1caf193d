use rpg_game::inventory::Inventory;
use rpg_game::items::{item_dirt, item_stone};
use rpg_game::player::Player;
use rpg_game::utils::Vec2;

#[test]
fn two_max_stacks_fill_two_slots() {
    let mut inv: Inventory<4> = Inventory::new();
    let leftover = inv.add_item(item_stone(128));
    assert_eq!(leftover, 0);
    let slots = inv.get_items();
    assert_eq!(slots.len(), 4);
    assert_eq!(slots[0].unwrap().amount, 64);
    assert_eq!(slots[1].unwrap().amount, 64);
    assert!(slots[2].is_none());
    assert!(slots[3].is_none());
}

#[test]
fn merging_prefers_existing_stacks() {
    // Build [empty, stone x10, empty]: the empty slot comes first.
    let mut inv: Inventory<3> = Inventory::new();
    inv.add_item(item_dirt(1));
    inv.add_item(item_stone(10));
    inv.remove_item(item_dirt(1));
    let slots = inv.get_items();
    assert!(slots[0].is_none());
    assert_eq!(slots[1].unwrap().amount, 10);
    // Merging comes before empty slots: the partial stack absorbs the
    // addition even though an empty slot precedes it.
    let leftover = inv.add_item(item_stone(5));
    assert_eq!(leftover, 0);
    let slots = inv.get_items();
    assert!(slots[0].is_none());
    assert_eq!(slots[1].unwrap().amount, 15);
    assert!(slots[2].is_none());
}

#[test]
fn merge_tops_up_before_any_new_stack_opens() {
    // [empty, stone x60]: ten more stone first cap the existing stack,
    // and only the remainder opens a new stack in the earlier empty slot.
    let mut inv: Inventory<2> = Inventory::new();
    inv.add_item(item_dirt(1));
    inv.add_item(item_stone(60));
    inv.remove_item(item_dirt(1));
    let leftover = inv.add_item(item_stone(10));
    assert_eq!(leftover, 0);
    let slots = inv.get_items();
    assert_eq!(slots[0].unwrap().amount, 6);
    assert_eq!(slots[1].unwrap().amount, 64);
}

#[test]
fn full_inventory_reports_leftover() {
    let mut inv: Inventory<2> = Inventory::new();
    let leftover = inv.add_item(item_stone(130));
    assert_eq!(leftover, 2);
    let slots = inv.get_items();
    assert_eq!(slots[0].unwrap().amount, 64);
    assert_eq!(slots[1].unwrap().amount, 64);
}

#[test]
fn remove_item_scans_from_the_back() {
    let mut inv: Inventory<3> = Inventory::new();
    inv.add_item(item_stone(128));
    assert_eq!(inv.get_items()[1].unwrap().amount, 64);
    let removed_all = inv.remove_item(item_stone(70));
    assert!(removed_all);
    let slots = inv.get_items();
    // The back stack drains fully and empties, the front one loses six.
    assert_eq!(slots[0].unwrap().amount, 58);
    assert!(slots[1].is_none());
    assert!(slots[2].is_none());
}

#[test]
fn remove_item_reports_shortfall() {
    let mut inv: Inventory<2> = Inventory::new();
    inv.add_item(item_stone(10));
    let removed_all = inv.remove_item(item_stone(25));
    assert!(!removed_all);
    assert!(inv.get_items()[0].is_none());
}

#[test]
fn player_overflow_goes_to_stash() {
    let mut p = Player::new(Vec2::new(0, 0));
    // Fill the whole 40-slot inventory (40 * 64 units) and three more.
    p.add_item(item_stone(40 * 64 + 3));
    assert_eq!(p.stash.len(), 1);
    assert_eq!(p.stash[0].amount, 3);
    let slots = p.inventory.get_items();
    assert!(slots.iter().all(|s| s.unwrap().amount == 64));
    // A stackable addition now goes entirely to the stash.
    p.add_item(item_stone(5));
    assert_eq!(p.stash.len(), 2);
    assert_eq!(p.stash[1].amount, 5);
}
