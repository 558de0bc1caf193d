//! Block factories: the single source of truth for material stats. The
//! world and the chunk generator never hard-code these values.

use vstd::prelude::*;
use crate::block::{Block, BlockFlag, BlockName};
use crate::item::ItemName;
use crate::utils::{Color, IVec2};

verus! {

/// The sky colour that empty space is drawn with, and that damaged blocks
/// fade toward.
pub open spec fn spec_air_color() -> Color {
    Color { r: 135, g: 206, b: 235 }
}

pub fn air_color() -> (c: Color)
    ensures
        c == spec_air_color(),
{
    Color { r: 135, g: 206, b: 235 }
}

/// Field-by-field description of the dirt block at `pos`, carrying the
/// given flag set.
pub open spec fn spec_is_dirt_block_flags(b: Block, pos: IVec2, flags: Seq<BlockFlag>) -> bool {
    &&& b.pos == pos
    &&& b.color == (Color { r: 139, g: 69, b: 19 })
    &&& b.block_type == BlockName::Dirt
    &&& b.can_collide == true
    &&& b.required_level == 0
    &&& b.health == 50_000
    &&& b.max_health == 50_000
    &&& b.drop_item == Some(ItemName::Dirt)
    &&& b.is_solid == true
    &&& b.spec_flags() == flags
    &&& b.last_hit_tick == 0
}

/// Field-by-field description of the dirt block at `pos`.
pub open spec fn spec_is_dirt_block(b: Block, pos: IVec2) -> bool {
    spec_is_dirt_block_flags(b, pos, seq![BlockFlag::Dig])
}

/// Field-by-field description of the air block at `pos`, carrying the
/// given flag set.
pub open spec fn spec_is_air_block_flags(b: Block, pos: IVec2, flags: Seq<BlockFlag>) -> bool {
    &&& b.pos == pos
    &&& b.color == spec_air_color()
    &&& b.block_type == BlockName::Air
    &&& b.can_collide == false
    &&& b.required_level == 0
    &&& b.health == 0
    &&& b.max_health == 0
    &&& b.drop_item is None
    &&& b.is_solid == false
    &&& b.spec_flags() == flags
    &&& b.last_hit_tick == 0
}

/// Field-by-field description of the air block at `pos`: non-colliding,
/// zero health, no flags.
pub open spec fn spec_is_air_block(b: Block, pos: IVec2) -> bool {
    spec_is_air_block_flags(b, pos, Seq::<BlockFlag>::empty())
}

/// Field-by-field description of the stone block at `pos`, carrying the
/// given flag set.
pub open spec fn spec_is_stone_block_flags(b: Block, pos: IVec2, flags: Seq<BlockFlag>) -> bool {
    &&& b.pos == pos
    &&& b.color == (Color { r: 163, g: 140, b: 132 })
    &&& b.block_type == BlockName::Stone
    &&& b.can_collide == true
    &&& b.required_level == 1
    &&& b.health == 100_000
    &&& b.max_health == 100_000
    &&& b.drop_item == Some(ItemName::Stone)
    &&& b.is_solid == true
    &&& b.spec_flags() == flags
    &&& b.last_hit_tick == 0
}

/// Field-by-field description of the stone block at `pos`.
pub open spec fn spec_is_stone_block(b: Block, pos: IVec2) -> bool {
    spec_is_stone_block_flags(b, pos, seq![BlockFlag::Mine])
}

pub fn block_dirt(pos: IVec2) -> (b: Block)
    ensures
        b.wf(),
        spec_is_dirt_block(b, pos),
{
    let flags = vec![BlockFlag::Dig];
    proof {
        assert(flags@ =~= seq![BlockFlag::Dig]);
        assert(flags@.no_duplicates());
    }
    Block {
        pos,
        color: Color { r: 139, g: 69, b: 19 },
        block_type: BlockName::Dirt,
        can_collide: true,
        required_level: 0,
        health: 50_000,
        max_health: 50_000,
        drop_item: Some(ItemName::Dirt),
        is_solid: true,
        flags,
        last_hit_tick: 0,
    }
}

pub fn block_air(pos: IVec2) -> (b: Block)
    ensures
        b.wf(),
        spec_is_air_block(b, pos),
{
    let flags: Vec<BlockFlag> = Vec::new();
    proof {
        assert(flags@ =~= Seq::<BlockFlag>::empty());
    }
    Block {
        pos,
        color: Color { r: 135, g: 206, b: 235 },
        block_type: BlockName::Air,
        can_collide: false,
        required_level: 0,
        health: 0,
        max_health: 0,
        drop_item: None,
        is_solid: false,
        flags,
        last_hit_tick: 0,
    }
}

pub fn block_stone(pos: IVec2) -> (b: Block)
    ensures
        b.wf(),
        spec_is_stone_block(b, pos),
{
    let flags = vec![BlockFlag::Mine];
    proof {
        assert(flags@ =~= seq![BlockFlag::Mine]);
        assert(flags@.no_duplicates());
    }
    Block {
        pos,
        color: Color { r: 163, g: 140, b: 132 },
        block_type: BlockName::Stone,
        can_collide: true,
        required_level: 1,
        health: 100_000,
        max_health: 100_000,
        drop_item: Some(ItemName::Stone),
        is_solid: true,
        flags,
        last_hit_tick: 0,
    }
}

} // verus!
