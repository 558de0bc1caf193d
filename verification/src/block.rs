//! Blocks: one world tile's material, health, collision and behaviour
//! flags, and drop table.
//!
//! The behaviour flags form a small set of capacity six, stored densely in
//! insertion order. Adding a present flag, adding to a full set and removing
//! an absent flag are all no-ops, which the lemmas at the end state.

use vstd::prelude::*;
use crate::item::ItemName;
use crate::utils::{Color, IVec2};

verus! {

/// Upper bound on a block's health, in milli-units; keeps the colour fade
/// arithmetic far away from overflow.
pub const HEALTH_LIMIT: i64 = 1_000_000_000;

/// Capacity of a block's behaviour flag set.
pub const FLAG_CAPACITY: usize = 6;

#[derive(Clone, Copy, Debug, PartialEq, Eq, Structural)]
pub enum BlockName {
    Air,
    Dirt,
    Stone,
}

#[derive(Clone, Copy, Debug, PartialEq, Eq, Structural)]
pub enum BlockFlag {
    Mine,
    Dig,
    Chop,
    Highlight,
}

/// One tile of the world. Health is measured in milli-units; a block with
/// `max_health == 0` stands for emptiness and can never be mined.
#[derive(Debug)]
pub struct Block {
    pub pos: IVec2,
    pub color: Color,
    pub block_type: BlockName,
    pub can_collide: bool,
    pub required_level: u32,
    pub health: i64,
    pub max_health: i64,
    pub drop_item: Option<ItemName>,
    pub is_solid: bool,
    pub flags: Vec<BlockFlag>,
    pub last_hit_tick: u64,
}

/// The mathematical value of a block: every stored field, with the flag
/// set abstracted to its sequence.
pub ghost struct BlockModel {
    pub pos: IVec2,
    pub color: Color,
    pub block_type: BlockName,
    pub can_collide: bool,
    pub required_level: u32,
    pub health: i64,
    pub max_health: i64,
    pub drop_item: Option<ItemName>,
    pub is_solid: bool,
    pub flags: Seq<BlockFlag>,
    pub last_hit_tick: u64,
}

impl View for Block {
    type V = BlockModel;

    open spec fn view(&self) -> BlockModel {
        BlockModel {
            pos: self.pos,
            color: self.color,
            block_type: self.block_type,
            can_collide: self.can_collide,
            required_level: self.required_level,
            health: self.health,
            max_health: self.max_health,
            drop_item: self.drop_item,
            is_solid: self.is_solid,
            flags: self.flags@,
            last_hit_tick: self.last_hit_tick,
        }
    }
}

/// Effect of adding one flag: a full set and a present flag are left
/// unchanged, otherwise the flag is appended.
pub open spec fn spec_add_flag(flags: Seq<BlockFlag>, flag: BlockFlag) -> Seq<BlockFlag> {
    if flags.len() >= FLAG_CAPACITY || flags.contains(flag) {
        flags
    } else {
        flags.push(flag)
    }
}

/// Effect of removing one flag: the first occurrence goes and the rest
/// shift left; an absent flag leaves the set unchanged.
pub open spec fn spec_remove_flag(flags: Seq<BlockFlag>, flag: BlockFlag) -> Seq<BlockFlag> {
    flags.remove_value(flag)
}

/// A block may be struck exactly when it carries a mining interaction flag.
pub open spec fn spec_can_be_hit(flags: Seq<BlockFlag>) -> bool {
    flags.contains(BlockFlag::Mine) || flags.contains(BlockFlag::Dig) || flags.contains(
        BlockFlag::Chop,
    )
}

impl Block {
    /// Health stays within `[0, max_health]`, the flag set stays within
    /// capacity and free of duplicates, and the fade arithmetic stays
    /// bounded.
    pub open spec fn wf(&self) -> bool {
        &&& 0 <= self.health <= self.max_health <= HEALTH_LIMIT
        &&& self.flags@.len() <= FLAG_CAPACITY
        &&& self.flags@.no_duplicates()
    }

    pub open spec fn spec_flags(&self) -> Seq<BlockFlag> {
        self.flags@
    }

    /// Build a block outright from its stats and an initial flag list.
    pub fn assemble(
        pos: IVec2,
        color: Color,
        block_type: BlockName,
        can_collide: bool,
        required_level: u32,
        health: i64,
        max_health: i64,
        drop_item: Option<ItemName>,
        is_solid: bool,
        flags: Vec<BlockFlag>,
        last_hit_tick: u64,
    ) -> (b: Block)
        requires
            0 <= health <= max_health <= HEALTH_LIMIT,
            flags@.len() <= FLAG_CAPACITY,
            flags@.no_duplicates(),
        ensures
            b.wf(),
            b.pos == pos,
            b.color == color,
            b.block_type == block_type,
            b.can_collide == can_collide,
            b.required_level == required_level,
            b.health == health,
            b.max_health == max_health,
            b.drop_item == drop_item,
            b.is_solid == is_solid,
            b.spec_flags() == flags@,
            b.last_hit_tick == last_hit_tick,
    {
        Block {
            pos,
            color,
            block_type,
            can_collide,
            required_level,
            health,
            max_health,
            drop_item,
            is_solid,
            flags,
            last_hit_tick,
        }
    }

    /// A value-equal copy of this block.
    pub fn duplicate(&self) -> (b: Block)
        ensures
            b@ == self@,
    {
        let mut flags: Vec<BlockFlag> = Vec::new();
        let mut i: usize = 0;
        while i < self.flags.len()
            invariant
                i <= self.flags@.len(),
                flags@ == self.flags@.take(i as int),
            decreases self.flags@.len() - i,
        {
            flags.push(self.flags[i]);
            proof {
                assert(self.flags@.take(i + 1) =~= self.flags@.take(i as int).push(
                    self.flags@[i as int],
                ));
            }
            i += 1;
        }
        proof {
            assert(self.flags@.take(self.flags@.len() as int) =~= self.flags@);
        }
        Block {
            pos: self.pos,
            color: self.color,
            block_type: self.block_type,
            can_collide: self.can_collide,
            required_level: self.required_level,
            health: self.health,
            max_health: self.max_health,
            drop_item: self.drop_item,
            is_solid: self.is_solid,
            flags,
            last_hit_tick: self.last_hit_tick,
        }
    }

    /// True when the flag set holds any of Mine, Dig or Chop; this, not
    /// `can_collide`, gates mining interaction.
    #[verifier::loop_isolation(false)]
    pub fn can_be_hit(&self) -> (r: bool)
        ensures
            r == spec_can_be_hit(self.spec_flags()),
    {
        let n = self.flags.len();
        let mut i: usize = 0;
        while i < n
            invariant
                i <= n,
                n == self.flags@.len(),
                forall|k: int|
                    0 <= k < i ==> !((#[trigger] self.flags@[k]) == BlockFlag::Mine
                        || self.flags@[k] == BlockFlag::Dig || self.flags@[k]
                        == BlockFlag::Chop),
            decreases n - i,
        {
            let f = self.flags[i];
            if matches!(f, BlockFlag::Mine | BlockFlag::Dig | BlockFlag::Chop) {
                return true;
            }
            i += 1;
        }
        false
    }

    /// Append `flag` unless the set is full or already holds it.
    #[verifier::loop_isolation(false)]
    pub fn add_flag(&mut self, flag: BlockFlag)
        requires
            old(self).wf(),
        ensures
            final(self).wf(),
            final(self).spec_flags() == spec_add_flag(old(self).spec_flags(), flag),
            final(self).pos == old(self).pos,
            final(self).color == old(self).color,
            final(self).block_type == old(self).block_type,
            final(self).can_collide == old(self).can_collide,
            final(self).required_level == old(self).required_level,
            final(self).health == old(self).health,
            final(self).max_health == old(self).max_health,
            final(self).drop_item == old(self).drop_item,
            final(self).is_solid == old(self).is_solid,
            final(self).last_hit_tick == old(self).last_hit_tick,
    {
        if self.flags.len() >= FLAG_CAPACITY {
            return;
        }
        let n = self.flags.len();
        let mut i: usize = 0;
        while i < n
            invariant
                i <= n,
                n == self.flags@.len(),
                forall|k: int| 0 <= k < i ==> (#[trigger] self.flags@[k]) != flag,
            decreases n - i,
        {
            if self.flags[i] == flag {
                return;
            }
            i += 1;
        }
        proof {
            assert(!self.flags@.contains(flag));
        }
        let ghost pre = self.flags@;
        self.flags.push(flag);
        proof {
            assert(self.flags@[self.flags@.len() - 1] == flag);
            assert forall|p: int, q: int|
                0 <= p < self.flags@.len() && 0 <= q < self.flags@.len() && p != q implies self.flags@[p]
                != self.flags@[q] by {
                if p < pre.len() && q < pre.len() {
                    assert(pre.no_duplicates());
                } else if p < pre.len() {
                    assert(pre[p] != flag);
                } else if q < pre.len() {
                    assert(pre[q] != flag);
                }
            }
        }
    }

    /// Remove the first occurrence of `flag`, compacting the rest; absent
    /// flags are ignored.
    #[verifier::loop_isolation(false)]
    pub fn remove_flag(&mut self, flag: BlockFlag)
        requires
            old(self).wf(),
        ensures
            final(self).wf(),
            final(self).spec_flags() == spec_remove_flag(old(self).spec_flags(), flag),
            final(self).pos == old(self).pos,
            final(self).color == old(self).color,
            final(self).block_type == old(self).block_type,
            final(self).can_collide == old(self).can_collide,
            final(self).required_level == old(self).required_level,
            final(self).health == old(self).health,
            final(self).max_health == old(self).max_health,
            final(self).drop_item == old(self).drop_item,
            final(self).is_solid == old(self).is_solid,
            final(self).last_hit_tick == old(self).last_hit_tick,
    {
        let n = self.flags.len();
        let mut i: usize = 0;
        while i < n
            invariant
                i <= n,
                *self == *old(self),
                n == self.flags@.len(),
                forall|k: int| 0 <= k < i ==> (#[trigger] self.flags@[k]) != flag,
            decreases n - i,
        {
            if self.flags[i] == flag {
                proof {
                    self.flags@.index_of_first_ensures(flag);
                    assert(self.flags@[i as int] == flag);
                    assert(self.flags@.contains(flag));
                    assert(self.flags@.index_of_first(flag) == Some(i as int));
                }
                self.remove_flag_by_index(i);
                return;
            }
            i += 1;
        }
        proof {
            assert(!self.flags@.contains(flag));
            self.flags@.index_of_first_ensures(flag);
        }
    }

    /// Remove the flag at `index`, shifting the later flags down; an index
    /// past the end is ignored.
    pub fn remove_flag_by_index(&mut self, index: usize)
        requires
            old(self).wf(),
        ensures
            final(self).wf(),
            final(self).spec_flags() == if index < old(self).spec_flags().len() {
                old(self).spec_flags().remove(index as int)
            } else {
                old(self).spec_flags()
            },
            final(self).pos == old(self).pos,
            final(self).color == old(self).color,
            final(self).block_type == old(self).block_type,
            final(self).can_collide == old(self).can_collide,
            final(self).required_level == old(self).required_level,
            final(self).health == old(self).health,
            final(self).max_health == old(self).max_health,
            final(self).drop_item == old(self).drop_item,
            final(self).is_solid == old(self).is_solid,
            final(self).last_hit_tick == old(self).last_hit_tick,
    {
        if index >= self.flags.len() {
            return;
        }
        let ghost pre = self.flags@;
        self.flags.remove(index);
        proof {
            pre.remove_ensures(index as int);
            assert forall|p: int, q: int|
                0 <= p < self.flags@.len() && 0 <= q < self.flags@.len() && p != q implies self.flags@[p]
                != self.flags@[q] by {
                let p2: int = if p < index { p } else { p + 1 };
                let q2: int = if q < index { q } else { q + 1 };
                assert(self.flags@[p] == pre[p2]);
                assert(self.flags@[q] == pre[q2]);
            }
        }
    }
}

/// Adding the same flag twice leaves the set exactly as one addition does.
pub proof fn lemma_add_flag_idempotent(flags: Seq<BlockFlag>, flag: BlockFlag)
    ensures
        spec_add_flag(spec_add_flag(flags, flag), flag) == spec_add_flag(flags, flag),
{
    if flags.len() >= FLAG_CAPACITY || flags.contains(flag) {
    } else {
        assert(flags.push(flag)[flags.len() as int] == flag);
        assert(flags.push(flag).contains(flag));
    }
}

/// Removing a flag that is not present leaves the set unchanged.
pub proof fn lemma_remove_absent_flag(flags: Seq<BlockFlag>, flag: BlockFlag)
    requires
        !flags.contains(flag),
    ensures
        spec_remove_flag(flags, flag) == flags,
{
    flags.index_of_first_ensures(flag);
}

/// The flag set never grows past its capacity of six.
pub proof fn lemma_add_flag_bounded(flags: Seq<BlockFlag>, flag: BlockFlag)
    requires
        flags.len() <= FLAG_CAPACITY,
    ensures
        spec_add_flag(flags, flag).len() <= FLAG_CAPACITY,
{
}

/// Adding a seventh distinct flag to a full set is a no-op.
pub proof fn lemma_add_flag_to_full(flags: Seq<BlockFlag>, flag: BlockFlag)
    requires
        flags.len() == FLAG_CAPACITY,
    ensures
        spec_add_flag(flags, flag) == flags,
{
}

/// Clamp a milli-unit fraction into `[0, 1000]`.
pub open spec fn spec_clamp_milli(p: int) -> int {
    if p < 0 {
        0
    } else if p > 1000 {
        1000
    } else {
        p
    }
}

/// One colour channel interpolated `p` milli-units of the way from `c1`
/// toward `c2`, rounded to the nearest whole value.
pub open spec fn spec_lerp_channel(c1: u8, c2: u8, p: int) -> int {
    (c1 * 1000 + (c2 - c1) * p + 500) / 1000
}

/// `col1` faded `perc` milli-units of the way toward `col2`.
pub open spec fn spec_color_interp(col1: Color, col2: Color, perc: int) -> Color {
    let p = spec_clamp_milli(perc);
    Color {
        r: spec_lerp_channel(col1.r, col2.r, p) as u8,
        g: spec_lerp_channel(col1.g, col2.g, p) as u8,
        b: spec_lerp_channel(col1.b, col2.b, p) as u8,
    }
}

/// How far toward emptiness a block has been worn, in milli-units: zero at
/// full health, one thousand at zero health, and fully empty when the block
/// has no health at all to lose.
pub open spec fn spec_fade_milli(health: int, max_health: int) -> int {
    if max_health == 0 {
        1000
    } else {
        (max_health - health) * 1000 / max_health
    }
}

fn lerp_channel(c1: u8, c2: u8, p: i64) -> (r: u8)
    requires
        0 <= p <= 1000,
    ensures
        r == spec_lerp_channel(c1, c2, p as int),
{
    let d: i64 = c2 as i64 - c1 as i64;
    proof {
        assert(0 <= c1 as int * 1000 + (c2 as int - c1 as int) * p + 500 <= 255_500)
            by (nonlinear_arith)
            requires
                0 <= p <= 1000,
                0 <= c1 < 256,
                0 <= c2 < 256,
        ;
    }
    let a: i64 = c1 as i64 * 1000 + d * p + 500;
    proof {
        vstd::arithmetic::div_mod::lemma_div_pos_is_pos(a as int, 1000);
        vstd::arithmetic::div_mod::lemma_div_is_ordered(a as int, 255_500, 1000);
    }
    ((a as u64) / 1000) as u8
}

/// Interpolate between two colours, channel by channel; `perc` is a
/// milli-unit fraction and is clamped into `[0, 1000]`.
pub fn color_interp(col1: Color, col2: Color, perc: i64) -> (c: Color)
    ensures
        c == spec_color_interp(col1, col2, perc as int),
{
    let p: i64 = if perc < 0 {
        0
    } else if perc > 1000 {
        1000
    } else {
        perc
    };
    Color {
        r: lerp_channel(col1.r, col2.r, p),
        g: lerp_channel(col1.g, col2.g, p),
        b: lerp_channel(col1.b, col2.b, p),
    }
}

impl Block {
    /// The colour this block is drawn with: its base colour faded toward
    /// the air colour in proportion to the health it has lost.
    pub fn render_color(&self) -> (c: Color)
        requires
            self.wf(),
        ensures
            c == spec_color_interp(
                self.color,
                crate::blocks::spec_air_color(),
                spec_fade_milli(self.health as int, self.max_health as int),
            ),
    {
        let fade: i64 = if self.max_health == 0 {
            1000
        } else {
            let worn: i64 = self.max_health - self.health;
            proof {
                assert(worn * 1000 <= HEALTH_LIMIT * 1000) by (nonlinear_arith)
                    requires
                        0 <= worn <= HEALTH_LIMIT,
                ;
                vstd::arithmetic::div_mod::lemma_div_pos_is_pos(
                    worn as int * 1000,
                    self.max_health as int,
                );
            }
            ((worn as u64 * 1000) / (self.max_health as u64)) as i64
        };
        color_interp(self.color, crate::blocks::air_color(), fade)
    }
}

} // verus!
