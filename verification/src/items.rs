//! Item factories: the single source of truth for item stats.

use vstd::prelude::*;
use crate::item::{Item, ItemName, ItemProps, ItemRarity};
use crate::utils::Color;

verus! {

/// The stone item, in a stack of `amount` units.
pub open spec fn spec_item_stone(amount: usize) -> Item {
    Item {
        max_stack: 64,
        amount,
        rarity: ItemRarity::Common,
        name: ItemName::Stone,
        color: Color { r: 1, g: 1, b: 1 },
        props: ItemProps::Plain,
    }
}

/// The dirt item, in a stack of `amount` units.
pub open spec fn spec_item_dirt(amount: usize) -> Item {
    Item {
        max_stack: 64,
        amount,
        rarity: ItemRarity::Common,
        name: ItemName::Dirt,
        color: Color { r: 160, g: 82, b: 45 },
        props: ItemProps::Plain,
    }
}

/// The item a given identifier stands for, in a stack of `amount` units.
pub open spec fn spec_item_from_name(item_name: ItemName, amount: usize) -> Item {
    match item_name {
        ItemName::Stone => spec_item_stone(amount),
        ItemName::Dirt => spec_item_dirt(amount),
    }
}

pub fn item_stone(amount: usize) -> (item: Item)
    ensures
        item == spec_item_stone(amount),
{
    Item {
        max_stack: 64,
        amount,
        rarity: ItemRarity::Common,
        name: ItemName::Stone,
        color: Color { r: 1, g: 1, b: 1 },
        props: ItemProps::Plain,
    }
}

pub fn item_dirt(amount: usize) -> (item: Item)
    ensures
        item == spec_item_dirt(amount),
{
    Item {
        max_stack: 64,
        amount,
        rarity: ItemRarity::Common,
        name: ItemName::Dirt,
        color: Color { r: 160, g: 82, b: 45 },
        props: ItemProps::Plain,
    }
}

pub fn item_from_name(item_name: ItemName, amount: usize) -> (item: Item)
    ensures
        item == spec_item_from_name(item_name, amount),
{
    match item_name {
        ItemName::Stone => item_stone(amount),
        ItemName::Dirt => item_dirt(amount),
    }
}

} // verus!
