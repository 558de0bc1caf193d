//! Items: the value carried by inventory slots and block drops.

use vstd::prelude::*;
use crate::utils::Color;

verus! {

#[derive(Clone, Copy, Debug, PartialEq, Eq, Structural)]
pub enum ItemRarity {
    Common,
}

#[derive(Clone, Copy, Debug, PartialEq, Eq, Structural)]
pub enum ItemName {
    Stone,
    Dirt,
}

#[derive(Clone, Copy, Debug, PartialEq, Eq, Structural)]
pub enum ItemType {
    Weapon,
    Tool,
    Material,
    Equipment,
}

/// Stats of an item usable as a weapon; damage and cooldown in milli-units.
#[derive(Clone, Copy, Debug, PartialEq, Eq, Structural)]
pub struct WeaponProps {
    damage: i64,
    cooldown: i64,
}

/// Stats of an item usable as a tool; all three in milli-units.
#[derive(Clone, Copy, Debug, PartialEq, Eq, Structural)]
pub struct ToolProps {
    damage: i64,
    multiplier: i64,
    spread: i64,
}

/// The variant payload of an item: weapon stats, tool stats, or nothing.
#[derive(Clone, Copy, Debug, PartialEq, Eq, Structural)]
pub enum ItemProps {
    Weapon(WeaponProps),
    Tool(ToolProps),
    Plain,
}

/// One stack of items. `amount` counts units; a stored stack never exceeds
/// its `max_stack`.
#[derive(Clone, Copy, Debug, PartialEq, Eq, Structural)]
pub struct Item {
    pub max_stack: usize,
    pub amount: usize,
    pub rarity: ItemRarity,
    pub name: ItemName,
    pub color: Color,
    pub props: ItemProps,
}

impl Item {
    pub fn new(
        max_stack: usize,
        amount: usize,
        rarity: ItemRarity,
        name: ItemName,
        color: Color,
        props: ItemProps,
    ) -> (item: Item)
        ensures
            item == (Item { max_stack, amount, rarity, name, color, props }),
    {
        Item { max_stack, amount, rarity, name, color, props }
    }

    pub fn is_weapon(&self) -> (r: bool)
        ensures
            r == (self.props is Weapon),
    {
        matches!(self.props, ItemProps::Weapon(_))
    }

    pub fn weapon_props(&self) -> (r: Option<&WeaponProps>)
        ensures
            self.props matches ItemProps::Weapon(w) ==> r matches Some(p) && *p == w,
            !(self.props is Weapon) ==> r is None,
    {
        if let ItemProps::Weapon(w) = &self.props {
            Some(w)
        } else {
            None
        }
    }

    pub fn tool_props(&self) -> (r: Option<&ToolProps>)
        ensures
            self.props matches ItemProps::Tool(t) ==> r matches Some(p) && *p == t,
            !(self.props is Tool) ==> r is None,
    {
        if let ItemProps::Tool(t) = &self.props {
            Some(t)
        } else {
            None
        }
    }
}

} // verus!
