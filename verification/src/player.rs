//! The player controller: position and velocity in milli-units, gravity,
//! friction, input-driven acceleration, ground checks, and the swept AABB
//! collision step against the world's block list.

use vstd::prelude::*;
use crate::block::{Block, BlockModel, HEALTH_LIMIT};
use crate::impl_damage::DamageType;
use crate::inventory::{HasInventory, Inventory, spec_add_items};
use crate::item::Item;
use crate::num::{div_toward_zero, div_trunc};
use crate::utils::{Direction, UNIT, Vec2};
use crate::utils::IVec2;
use crate::world::{COORD_LIMIT, POS_LIMIT, World, spec_hit_block};

verus! {

/// Downward acceleration, in milli-units per second per second.
pub const GRAVITY_FORCE: i64 = 30_000;

/// Fastest downward speed, in milli-units per second.
pub const TERMINAL_VELOCITY: i64 = 53_000;

/// The player's square hitbox edge, in milli-units.
pub const PLAYER_SIZE: i64 = 800;

/// Upward speed granted by a jump, in milli-units per second.
pub const JUMP_SPEED: i64 = 20_000;

/// Horizontal acceleration while a direction is held, per second.
pub const WALK_ACCEL: i64 = 60_000;

/// Fastest horizontal speed, in milli-units per second.
pub const MAX_WALK_SPEED: i64 = 20_000;

/// Horizontal deceleration while no direction is held, per second.
pub const FRICTION: i64 = 15_000;

/// How close a block's top must be to the player's feet to count as
/// ground, in milli-units.
pub const GROUND_EPS: i64 = 50;

/// Bound on the player's speed on either axis, in milli-units per second.
pub const VEL_LIMIT: i64 = 1_000_000;

/// Ticks that must pass between two accepted mining strikes.
pub const HIT_DELAY: u32 = 20;

/// Whether the axis-aligned box at `(px, py)` with extent `(w, h)` (all in
/// milli-units) overlaps the world cell at block coordinate `(bx, by)`.
pub open spec fn spec_cell_overlap(px: int, py: int, w: int, h: int, bx: int, by: int) -> bool {
    !(px + w <= bx * (UNIT as int) || px >= bx * (UNIT as int) + UNIT || py + h <= by * (
    UNIT as int) || py >= by * (UNIT as int) + UNIT)
}

/// The mathematical values of a list of blocks, in order.
pub open spec fn views_of(blocks: Seq<Block>) -> Seq<BlockModel> {
    blocks.map_values(|b: Block| b@)
}

/// Whether the player hitbox at `(px, py)` overlaps any colliding block.
pub open spec fn spec_collides(blocks: Seq<BlockModel>, px: int, py: int) -> bool {
    exists|i: int|
        0 <= i < blocks.len() && (#[trigger] blocks[i]).can_collide && spec_cell_overlap(
            px,
            py,
            PLAYER_SIZE as int,
            PLAYER_SIZE as int,
            blocks[i].pos.x as int,
            blocks[i].pos.y as int,
        )
}

/// Every block position within the world coordinate bounds.
pub open spec fn spec_blocks_in_range(blocks: Seq<BlockModel>) -> bool {
    forall|i: int|
        0 <= i < blocks.len() ==> -COORD_LIMIT <= (#[trigger] blocks[i]).pos.x <= COORD_LIMIT
            && -COORD_LIMIT <= blocks[i].pos.y <= COORD_LIMIT
}

/// Whether a box at `(px, py)` overlaps the one-cell block at `(bx, by)`.
pub fn aabb_collision(px: i64, py: i64, pw: i64, ph: i64, bx: i64, by: i64) -> (r: bool)
    requires
        -2 * POS_LIMIT <= px <= 2 * POS_LIMIT,
        -2 * POS_LIMIT <= py <= 2 * POS_LIMIT,
        0 <= pw <= UNIT,
        0 <= ph <= UNIT,
        -COORD_LIMIT <= bx <= COORD_LIMIT,
        -COORD_LIMIT <= by <= COORD_LIMIT,
    ensures
        r == spec_cell_overlap(px as int, py as int, pw as int, ph as int, bx as int, by as int),
{
    let bl = bx * UNIT;
    let bt = by * UNIT;
    !(px + pw <= bl || px >= bl + UNIT || py + ph <= bt || py >= bt + UNIT)
}

/// Whether the player hitbox at `(px, py)` overlaps any colliding block in
/// the list.
fn collides_any(blocks: &Vec<Block>, px: i64, py: i64) -> (r: bool)
    requires
        spec_blocks_in_range(views_of(blocks@)),
        -2 * POS_LIMIT <= px <= 2 * POS_LIMIT,
        -2 * POS_LIMIT <= py <= 2 * POS_LIMIT,
    ensures
        r == spec_collides(views_of(blocks@), px as int, py as int),
{
    let n = blocks.len();
    let mut i: usize = 0;
    while i < n
        invariant
            i <= n,
            n == views_of(blocks@).len(),
            spec_blocks_in_range(views_of(blocks@)),
            -2 * POS_LIMIT <= px <= 2 * POS_LIMIT,
            -2 * POS_LIMIT <= py <= 2 * POS_LIMIT,
            forall|k: int|
                0 <= k < i ==> !((#[trigger] views_of(blocks@)[k]).can_collide && spec_cell_overlap(
                    px as int,
                    py as int,
                    PLAYER_SIZE as int,
                    PLAYER_SIZE as int,
                    views_of(blocks@)[k].pos.x as int,
                    views_of(blocks@)[k].pos.y as int,
                )),
        decreases n - i,
    {
        let b = &blocks[i];
        proof {
            assert(views_of(blocks@)[i as int] == blocks@[i as int]@);
        }
        if b.can_collide && aabb_collision(px, py, PLAYER_SIZE, PLAYER_SIZE, b.pos.x, b.pos.y) {
            return true;
        }
        i += 1;
    }
    false
}

/// Whether some colliding block's top edge sits within `GROUND_EPS` of the
/// player's feet while overlapping the player horizontally.
pub open spec fn spec_on_ground(blocks: Seq<BlockModel>, px: int, py: int) -> bool {
    exists|i: int|
        0 <= i < blocks.len() && {
            let b = #[trigger] blocks[i];
            &&& b.can_collide
            &&& -GROUND_EPS < b.pos.y * (UNIT as int) - (py + PLAYER_SIZE) < GROUND_EPS
            &&& !(px + PLAYER_SIZE <= b.pos.x * (UNIT as int) || px >= b.pos.x * (UNIT as int)
                + UNIT)
        }
}

/// The player: position and velocity state, facing, combat and mining
/// stats, the fixed inventory and the unbounded overflow stash.
#[derive(Debug)]
pub struct Player {
    pub pos: Vec2,
    pub look_dir: Direction,
    pub last_tick_block_hit: u64,
    pub block_hit_delay: u32,
    pub velocity: Vec2,
    pub mining_damage: i64,
    pub tool_level: u32,
    pub health: i64,
    pub max_health: i64,
    pub active_inventory_slot: usize,
    pub stash: Vec<Item>,
    pub inventory: Inventory<40>,
    pub weaknesses: Vec<DamageType>,
}

impl Player {
    /// Velocity and health within bounds, inventory well formed, every
    /// stash entry a non-empty stack.
    pub open spec fn wf(&self) -> bool {
        &&& -VEL_LIMIT <= self.velocity.x <= VEL_LIMIT
        &&& -VEL_LIMIT <= self.velocity.y <= VEL_LIMIT
        &&& 0 <= self.mining_damage <= HEALTH_LIMIT
        &&& 0 <= self.health <= self.max_health <= HEALTH_LIMIT
        &&& self.inventory.wf()
        &&& forall|i: int| 0 <= i < self.stash@.len() ==> (#[trigger] self.stash@[i]).amount >= 1
    }
}

impl Default for Player {
    /// A fresh player at the origin: no motion, the default mining damage,
    /// the standard strike delay, and empty storage.
    fn default() -> (p: Player)
        ensures
            p.wf(),
            p.pos == (Vec2 { x: 0, y: 0 }),
            p.look_dir == Direction::Neutral,
            p.last_tick_block_hit == 0,
            p.block_hit_delay == HIT_DELAY,
            p.velocity == (Vec2 { x: 0, y: 0 }),
            p.mining_damage == 20_000,
            p.tool_level == 0,
            p.health == 0,
            p.max_health == 0,
            p.active_inventory_slot == 0,
            p.stash@.len() == 0,
            forall|i: int| 0 <= i < 40 ==> p.inventory@[i] is None,
            p.weaknesses@.len() == 0,
    {
        Player {
            pos: Vec2 { x: 0, y: 0 },
            look_dir: Direction::Neutral,
            last_tick_block_hit: 0,
            block_hit_delay: HIT_DELAY,
            velocity: Vec2 { x: 0, y: 0 },
            mining_damage: 20_000,
            tool_level: 0,
            health: 0,
            max_health: 0,
            active_inventory_slot: 0,
            stash: Vec::new(),
            inventory: Inventory::new(),
            weaknesses: Vec::new(),
        }
    }
}

impl Player {
    /// A fresh player standing at `pos`.
    pub fn new(pos: Vec2) -> (p: Player)
        ensures
            p.wf(),
            p.pos == pos,
            p.look_dir == Direction::Neutral,
            p.last_tick_block_hit == 0,
            p.block_hit_delay == HIT_DELAY,
            p.velocity == (Vec2 { x: 0, y: 0 }),
            p.mining_damage == 20_000,
            p.tool_level == 0,
            p.health == 0,
            p.max_health == 0,
            p.stash@.len() == 0,
            forall|i: int| 0 <= i < 40 ==> p.inventory@[i] is None,
    {
        let mut p = Player::default();
        p.pos = pos;
        p
    }

    /// Semi-implicit Euler gravity: add one tick's worth of downward
    /// acceleration, clamped at terminal velocity.
    pub fn apply_gravity(&mut self, fps: i64)
        requires
            old(self).wf(),
            1 <= fps,
        ensures
            final(self).wf(),
            final(self).velocity.y == ({
                let g = (GRAVITY_FORCE as int) / (fps as int);
                if old(self).velocity.y + g <= TERMINAL_VELOCITY {
                    old(self).velocity.y + g
                } else {
                    TERMINAL_VELOCITY as int
                }
            }),
            final(self).velocity.x == old(self).velocity.x,
            *final(self) == (Player { velocity: final(self).velocity, ..*old(self) }),
    {
        let g = (GRAVITY_FORCE as u64 / (fps as u64)) as i64;
        let vy = self.velocity.y + g;
        self.velocity.y = if vy <= TERMINAL_VELOCITY {
            vy
        } else {
            TERMINAL_VELOCITY
        };
    }

    /// Accelerate toward the pressed horizontal direction, clamped at the
    /// walking speed limit; vertical directions change nothing.
    pub fn try_move(&mut self, direction: Direction, fps: i64)
        requires
            old(self).wf(),
            1 <= fps,
        ensures
            final(self).wf(),
            final(self).velocity.x == ({
                let a = (WALK_ACCEL as int) / (fps as int);
                match direction {
                    Direction::Left => if old(self).velocity.x - a < -MAX_WALK_SPEED {
                        -MAX_WALK_SPEED as int
                    } else {
                        old(self).velocity.x - a
                    },
                    Direction::Right => if old(self).velocity.x + a > MAX_WALK_SPEED {
                        MAX_WALK_SPEED as int
                    } else {
                        old(self).velocity.x + a
                    },
                    _ => old(self).velocity.x as int,
                }
            }),
            final(self).velocity.y == old(self).velocity.y,
            *final(self) == (Player { velocity: final(self).velocity, ..*old(self) }),
    {
        let a = (WALK_ACCEL as u64 / (fps as u64)) as i64;
        match direction {
            Direction::Left => {
                let v = self.velocity.x - a;
                self.velocity.x = if v < -MAX_WALK_SPEED {
                    -MAX_WALK_SPEED
                } else {
                    v
                };
            },
            Direction::Right => {
                let v = self.velocity.x + a;
                self.velocity.x = if v > MAX_WALK_SPEED {
                    MAX_WALK_SPEED
                } else {
                    v
                };
            },
            _ => {},
        }
    }

    /// Decelerate horizontally toward zero, never overshooting past it.
    pub fn apply_friction(&mut self, fps: i64)
        requires
            old(self).wf(),
            1 <= fps,
        ensures
            final(self).wf(),
            final(self).velocity.x == ({
                let f = (FRICTION as int) / (fps as int);
                if old(self).velocity.x > 0 {
                    if old(self).velocity.x - f < 0 {
                        0
                    } else {
                        old(self).velocity.x - f
                    }
                } else if old(self).velocity.x < 0 {
                    if old(self).velocity.x + f > 0 {
                        0
                    } else {
                        old(self).velocity.x + f
                    }
                } else {
                    0
                }
            }),
            final(self).velocity.y == old(self).velocity.y,
            *final(self) == (Player { velocity: final(self).velocity, ..*old(self) }),
    {
        let f = (FRICTION as u64 / (fps as u64)) as i64;
        if self.velocity.x > 0 {
            let v = self.velocity.x - f;
            self.velocity.x = if v < 0 {
                0
            } else {
                v
            };
        } else if self.velocity.x < 0 {
            let v = self.velocity.x + f;
            self.velocity.x = if v > 0 {
                0
            } else {
                v
            };
        }
    }

    /// Whether the player is standing on a block.
    pub fn is_on_ground(&self, blocks: &Vec<Block>) -> (r: bool)
        requires
            spec_blocks_in_range(views_of(blocks@)),
            -POS_LIMIT <= self.pos.x <= POS_LIMIT,
            -POS_LIMIT <= self.pos.y <= POS_LIMIT,
        ensures
            r == spec_on_ground(views_of(blocks@), self.pos.x as int, self.pos.y as int),
    {
        let feet_y = self.pos.y + PLAYER_SIZE;
        let n = blocks.len();
        let mut i: usize = 0;
        while i < n
            invariant
                i <= n,
                n == views_of(blocks@).len(),
                spec_blocks_in_range(views_of(blocks@)),
                -POS_LIMIT <= self.pos.x <= POS_LIMIT,
                -POS_LIMIT <= self.pos.y <= POS_LIMIT,
                feet_y == self.pos.y + PLAYER_SIZE,
                forall|k: int|
                    0 <= k < i ==> !({
                        let b = #[trigger] views_of(blocks@)[k];
                        &&& b.can_collide
                        &&& -GROUND_EPS < b.pos.y * (UNIT as int) - (self.pos.y + PLAYER_SIZE)
                            < GROUND_EPS
                        &&& !(self.pos.x + PLAYER_SIZE <= b.pos.x * (UNIT as int) || self.pos.x
                            >= b.pos.x * (UNIT as int) + UNIT)
                    }),
            decreases n - i,
        {
            let b = &blocks[i];
            proof {
                assert(views_of(blocks@)[i as int] == blocks@[i as int]@);
            }
            let top = b.pos.y * UNIT;
            let d = top - feet_y;
            let left = b.pos.x * UNIT;
            if b.can_collide && -GROUND_EPS < d && d < GROUND_EPS && !(self.pos.x + PLAYER_SIZE
                <= left || self.pos.x >= left + UNIT) {
                return true;
            }
            i += 1;
        }
        false
    }

    /// Grant the upward jump impulse, but only when standing on ground.
    pub fn try_jump(&mut self, blocks: &Vec<Block>)
        requires
            old(self).wf(),
            spec_blocks_in_range(views_of(blocks@)),
            -POS_LIMIT <= old(self).pos.x <= POS_LIMIT,
            -POS_LIMIT <= old(self).pos.y <= POS_LIMIT,
        ensures
            final(self).wf(),
            final(self).velocity.y == if spec_on_ground(
                views_of(blocks@),
                old(self).pos.x as int,
                old(self).pos.y as int,
            ) {
                -JUMP_SPEED as int
            } else {
                old(self).velocity.y as int
            },
            final(self).velocity.x == old(self).velocity.x,
            *final(self) == (Player { velocity: final(self).velocity, ..*old(self) }),
    {
        if self.is_on_ground(blocks) {
            self.velocity.y = -JUMP_SPEED;
        }
    }

    /// Wrap the horizontal position around a board of `board_x` world
    /// units, as a single offset by the board width.
    pub fn wrap_board(&mut self, board_x: u32)
        requires
            old(self).wf(),
            -POS_LIMIT <= old(self).pos.x <= POS_LIMIT,
        ensures
            final(self).wf(),
            final(self).pos.x == ({
                let width = (board_x as int) * (UNIT as int);
                if old(self).pos.x < 0 {
                    old(self).pos.x + width
                } else if old(self).pos.x > width {
                    old(self).pos.x - width
                } else {
                    old(self).pos.x as int
                }
            }),
            final(self).pos.y == old(self).pos.y,
            *final(self) == (Player { pos: final(self).pos, ..*old(self) }),
    {
        let width = (board_x as i64) * UNIT;
        if self.pos.x < 0 {
            self.pos.x = self.pos.x + width;
        } else if self.pos.x > width {
            self.pos.x = self.pos.x - width;
        }
    }

    /// Face the dominant axis of the offset from the player's center to
    /// the target point (milli-unit world coordinates).
    pub fn look_at(&mut self, target_x: i64, target_y: i64)
        requires
            old(self).wf(),
            -POS_LIMIT <= old(self).pos.x <= POS_LIMIT,
            -POS_LIMIT <= old(self).pos.y <= POS_LIMIT,
            -POS_LIMIT <= target_x <= POS_LIMIT,
            -POS_LIMIT <= target_y <= POS_LIMIT,
        ensures
            final(self).wf(),
            final(self).look_dir == ({
                let dx = target_x - (old(self).pos.x + PLAYER_SIZE / 2);
                let dy = target_y - (old(self).pos.y + PLAYER_SIZE / 2);
                let adx = if dx < 0 {
                    -dx
                } else {
                    dx
                };
                let ady = if dy < 0 {
                    -dy
                } else {
                    dy
                };
                if adx > ady {
                    if dx > 0 {
                        Direction::Right
                    } else {
                        Direction::Left
                    }
                } else if dy > 0 {
                    Direction::Down
                } else {
                    Direction::Up
                }
            }),
            *final(self) == (Player { look_dir: final(self).look_dir, ..*old(self) }),
    {
        let px = self.pos.x + PLAYER_SIZE / 2;
        let py = self.pos.y + PLAYER_SIZE / 2;
        let dx = target_x - px;
        let dy = target_y - py;
        let adx = if dx < 0 {
            -dx
        } else {
            dx
        };
        let ady = if dy < 0 {
            -dy
        } else {
            dy
        };
        self.look_dir = if adx > ady {
            if dx > 0 {
                Direction::Right
            } else {
                Direction::Left
            }
        } else if dy > 0 {
            Direction::Down
        } else {
            Direction::Up
        };
    }

    /// The damage one mining strike deals before the tool-level gate.
    pub fn calculate_mining_speed(&self) -> (r: i64)
        ensures
            r == self.mining_damage,
    {
        let mul: i64 = 1;
        self.mining_damage * mul
    }

    /// Add an item to the fixed inventory, merging stacks first; whatever
    /// finds no room is pushed onto the unbounded stash as one entry.
    pub fn add_item(&mut self, item: Item)
        requires
            old(self).wf(),
            item.max_stack >= 1,
        ensures
            final(self).wf(),
            final(self).inventory@ == spec_add_items(old(self).inventory@, item).0,
            final(self).stash@ == ({
                let rest = spec_add_items(old(self).inventory@, item).1;
                if rest.amount > 0 {
                    old(self).stash@.push(rest)
                } else {
                    old(self).stash@
                }
            }),
            final(self).pos == old(self).pos,
            final(self).velocity == old(self).velocity,
            final(self).look_dir == old(self).look_dir,
            final(self).last_tick_block_hit == old(self).last_tick_block_hit,
            final(self).block_hit_delay == old(self).block_hit_delay,
            final(self).mining_damage == old(self).mining_damage,
            final(self).tool_level == old(self).tool_level,
            final(self).health == old(self).health,
            final(self).max_health == old(self).max_health,
            final(self).active_inventory_slot == old(self).active_inventory_slot,
            final(self).weaknesses == old(self).weaknesses,
    {
        let leftover = self.inventory.add_item(item);
        if leftover > 0 {
            let mut rest = item;
            rest.amount = leftover;
            proof {
                lemma_add_items_leftover_identity(old(self).inventory@, item);
            }
            self.stash.push(rest);
        }
    }
}


/// Magnitude of an integer.
pub open spec fn spec_abs(a: int) -> int {
    if a < 0 {
        -a
    } else {
        a
    }
}

/// How many substeps a frame displacement is split into: enough to bound
/// each substep to at most one cell, and at least one.
pub open spec fn spec_step_count(m: int) -> int {
    let c = (m + (UNIT as int) - 1) / (UNIT as int);
    if c < 1 {
        1
    } else {
        c
    }
}

/// Binary refinement of the horizontal contact point: five halvings of
/// the offset interval `[lo, hi]` from `px`, keeping the last offset whose
/// position was collision-free in `contact`.
pub open spec fn spec_bsearch_x(
    blocks: Seq<BlockModel>,
    px: int,
    py: int,
    lo: int,
    hi: int,
    contact: int,
    fuel: nat,
) -> int
    decreases fuel,
{
    if fuel == 0 {
        contact
    } else {
        let mid = lo + div_trunc(hi - lo, 2);
        let test = px + mid;
        if spec_collides(blocks, test, py) {
            spec_bsearch_x(blocks, px, py, lo, mid, contact, (fuel - 1) as nat)
        } else {
            spec_bsearch_x(blocks, px, py, mid, hi, test, (fuel - 1) as nat)
        }
    }
}

/// Binary refinement of the vertical contact point.
pub open spec fn spec_bsearch_y(
    blocks: Seq<BlockModel>,
    px: int,
    py: int,
    lo: int,
    hi: int,
    contact: int,
    fuel: nat,
) -> int
    decreases fuel,
{
    if fuel == 0 {
        contact
    } else {
        let mid = lo + div_trunc(hi - lo, 2);
        let test = py + mid;
        if spec_collides(blocks, px, test) {
            spec_bsearch_y(blocks, px, py, lo, mid, contact, (fuel - 1) as nat)
        } else {
            spec_bsearch_y(blocks, px, py, mid, hi, test, (fuel - 1) as nat)
        }
    }
}

/// One axis move along X: take the full step when it is free, otherwise
/// snap to the refined contact point; the flag reports the collision.
pub open spec fn spec_resolve_x(blocks: Seq<BlockModel>, px: int, py: int, d: int) -> (int, bool) {
    if spec_collides(blocks, px + d, py) {
        (spec_bsearch_x(blocks, px, py, 0, d, px, 5), true)
    } else {
        (px + d, false)
    }
}

/// One axis move along Y.
pub open spec fn spec_resolve_y(blocks: Seq<BlockModel>, px: int, py: int, d: int) -> (int, bool) {
    if spec_collides(blocks, px, py + d) {
        (spec_bsearch_y(blocks, px, py, 0, d, py, 5), true)
    } else {
        (py + d, false)
    }
}

/// One substep: X resolved first against the pre-step position, then Y
/// against the post-X position; a collision on an axis zeroes that axis's
/// velocity. The result is `(x, y, vx, vy)`.
pub open spec fn spec_substep(
    blocks: Seq<BlockModel>,
    px: int,
    py: int,
    vx: int,
    vy: int,
    sdx: int,
    sdy: int,
) -> (int, int, int, int) {
    let rx = spec_resolve_x(blocks, px, py, sdx);
    let ry = spec_resolve_y(blocks, rx.0, py, sdy);
    (
        rx.0,
        ry.0,
        if rx.1 {
            0
        } else {
            vx
        },
        if ry.1 {
            0
        } else {
            vy
        },
    )
}

/// The player state after `k` substeps of fixed per-substep displacement
/// `(sdx, sdy)`.
pub open spec fn spec_move_state(
    blocks: Seq<BlockModel>,
    px: int,
    py: int,
    vx: int,
    vy: int,
    sdx: int,
    sdy: int,
    k: nat,
) -> (int, int, int, int)
    decreases k,
{
    if k == 0 {
        (px, py, vx, vy)
    } else {
        let prev = spec_move_state(blocks, px, py, vx, vy, sdx, sdy, (k - 1) as nat);
        spec_substep(blocks, prev.0, prev.1, prev.2, prev.3, sdx, sdy)
    }
}

impl Player {
    /// The swept collision step. The frame displacement `velocity / fps`
    /// is split into substeps of at most one cell so that no block can be
    /// tunnelled through; each substep resolves the axes separately,
    /// snapping to a binary-refined contact point and zeroing the axis
    /// velocity on collision. A player whose hitbox starts free of
    /// colliding blocks ends free of them.
    #[verifier::loop_isolation(false)]
    #[verifier::rlimit(100)]
    pub fn move_step(&mut self, blocks: &Vec<Block>, fps: i64)
        requires
            old(self).wf(),
            1 <= fps,
            spec_blocks_in_range(views_of(blocks@)),
            -POS_LIMIT <= old(self).pos.x <= POS_LIMIT,
            -POS_LIMIT <= old(self).pos.y <= POS_LIMIT,
        ensures
            final(self).wf(),
            ({
                let dx = div_trunc(old(self).velocity.x as int, fps as int);
                let dy = div_trunc(old(self).velocity.y as int, fps as int);
                let steps = spec_step_count(
                    if spec_abs(dx) < spec_abs(dy) {
                        spec_abs(dy)
                    } else {
                        spec_abs(dx)
                    },
                );
                let st = spec_move_state(
                    views_of(blocks@),
                    old(self).pos.x as int,
                    old(self).pos.y as int,
                    old(self).velocity.x as int,
                    old(self).velocity.y as int,
                    div_trunc(dx, steps),
                    div_trunc(dy, steps),
                    steps as nat,
                );
                &&& final(self).pos.x == st.0
                &&& final(self).pos.y == st.1
                &&& final(self).velocity.x == st.2
                &&& final(self).velocity.y == st.3
            }),
            !spec_collides(views_of(blocks@), old(self).pos.x as int, old(self).pos.y as int)
                ==> !spec_collides(views_of(blocks@), final(self).pos.x as int, final(self).pos.y as int),
            old(self).pos.x - VEL_LIMIT <= final(self).pos.x <= old(self).pos.x + VEL_LIMIT,
            old(self).pos.y - VEL_LIMIT <= final(self).pos.y <= old(self).pos.y + VEL_LIMIT,
            *final(self) == (Player {
                pos: final(self).pos,
                velocity: final(self).velocity,
                ..*old(self)
            }),
    {
        let ghost safe0 = !spec_collides(
            views_of(blocks@),
            old(self).pos.x as int,
            old(self).pos.y as int,
        );
        let dx = div_toward_zero(self.velocity.x, fps);
        let dy = div_toward_zero(self.velocity.y, fps);
        let adx = if dx < 0 {
            -dx
        } else {
            dx
        };
        let ady = if dy < 0 {
            -dy
        } else {
            dy
        };
        let m = if adx < ady {
            ady
        } else {
            adx
        };
        let steps_raw = crate::num::div_ceil_nonneg(m, UNIT);
        let steps: i64 = if steps_raw < 1 {
            1
        } else {
            steps_raw
        };
        proof {
            vstd::arithmetic::div_mod::lemma_fundamental_div_mod(
                m as int + UNIT - 1,
                UNIT as int,
            );
            assert(UNIT * steps >= m);
            vstd::arithmetic::div_mod::lemma_div_is_ordered(
                m + UNIT - 1,
                VEL_LIMIT + UNIT - 1,
                UNIT as int,
            );
            assert(steps <= 1000);
        }
        let sdx = div_toward_zero(dx, steps);
        let sdy = div_toward_zero(dy, steps);
        proof {
            if dx >= 0 {
                vstd::arithmetic::div_mod::lemma_div_is_ordered(
                    dx as int,
                    UNIT * steps,
                    steps as int,
                );
            } else {
                vstd::arithmetic::div_mod::lemma_div_is_ordered(
                    -dx as int,
                    UNIT * steps,
                    steps as int,
                );
            }
            if dy >= 0 {
                vstd::arithmetic::div_mod::lemma_div_is_ordered(
                    dy as int,
                    UNIT * steps,
                    steps as int,
                );
            } else {
                vstd::arithmetic::div_mod::lemma_div_is_ordered(
                    -dy as int,
                    UNIT * steps,
                    steps as int,
                );
            }
            vstd::arithmetic::div_mod::lemma_div_by_multiple(UNIT as int, steps as int);
            assert(-UNIT <= sdx <= UNIT);
            assert(-UNIT <= sdy <= UNIT);
        }
        let ghost px0 = self.pos.x as int;
        let ghost py0 = self.pos.y as int;
        let ghost vx0 = self.velocity.x as int;
        let ghost vy0 = self.velocity.y as int;
        let total = steps as usize;
        let mut k: usize = 0;
        while k < total
            invariant
                k <= total,
                ({
                    let st = spec_move_state(
                        views_of(blocks@),
                        px0,
                        py0,
                        vx0,
                        vy0,
                        sdx as int,
                        sdy as int,
                        k as nat,
                    );
                    &&& self.pos.x == st.0
                    &&& self.pos.y == st.1
                    &&& self.velocity.x == st.2
                    &&& self.velocity.y == st.3
                }),
                safe0 ==> !spec_collides(views_of(blocks@), self.pos.x as int, self.pos.y as int),
                px0 - UNIT * (k as int) <= self.pos.x <= px0 + UNIT * (k as int),
                py0 - UNIT * (k as int) <= self.pos.y <= py0 + UNIT * (k as int),
                self.velocity.x == vx0 || self.velocity.x == 0,
                self.velocity.y == vy0 || self.velocity.y == 0,
                *self == (Player { pos: self.pos, velocity: self.velocity, ..*old(self) }),
            decreases total - k,
        {
            let ghost pre_x = self.pos.x as int;
            let ghost pre_y = self.pos.y as int;
            let ghost pre_vx = self.velocity.x as int;
            let ghost pre_vy = self.velocity.y as int;
            let tentative_x = self.pos.x + sdx;
            if collides_any(blocks, tentative_x, self.pos.y) {
                let mut lo: i64 = 0;
                let mut hi: i64 = sdx;
                let mut contact: i64 = self.pos.x;
                let mut bi: usize = 0;
                while bi < 5
                    invariant
                        bi <= 5,
                        self.pos.x == pre_x,
                        self.pos.y == pre_y,
                        -UNIT <= lo <= UNIT,
                        -UNIT <= hi <= UNIT,
                        pre_x - UNIT <= contact <= pre_x + UNIT,
                        safe0 ==> !spec_collides(views_of(blocks@), contact as int, pre_y),
                        spec_bsearch_x(
                            views_of(blocks@),
                            pre_x,
                            pre_y,
                            lo as int,
                            hi as int,
                            contact as int,
                            (5 - bi) as nat,
                        ) == spec_bsearch_x(
                            views_of(blocks@),
                            pre_x,
                            pre_y,
                            0,
                            sdx as int,
                            pre_x,
                            5,
                        ),
                    decreases 5 - bi,
                {
                    let mid = lo + div_toward_zero(hi - lo, 2);
                    let test = self.pos.x + mid;
                    if collides_any(blocks, test, self.pos.y) {
                        hi = mid;
                    } else {
                        contact = test;
                        lo = mid;
                    }
                    bi += 1;
                }
                self.pos.x = contact;
                self.velocity.x = 0;
            } else {
                self.pos.x = tentative_x;
            }
            let tentative_y = self.pos.y + sdy;
            if collides_any(blocks, self.pos.x, tentative_y) {
                let ghost mid_x = self.pos.x as int;
                let mut lo: i64 = 0;
                let mut hi: i64 = sdy;
                let mut contact: i64 = self.pos.y;
                let mut bi: usize = 0;
                while bi < 5
                    invariant
                        bi <= 5,
                        self.pos.x == mid_x,
                        self.pos.y == pre_y,
                        -UNIT <= lo <= UNIT,
                        -UNIT <= hi <= UNIT,
                        pre_y - UNIT <= contact <= pre_y + UNIT,
                        safe0 ==> !spec_collides(views_of(blocks@), mid_x, contact as int),
                        spec_bsearch_y(
                            views_of(blocks@),
                            mid_x,
                            pre_y,
                            lo as int,
                            hi as int,
                            contact as int,
                            (5 - bi) as nat,
                        ) == spec_bsearch_y(
                            views_of(blocks@),
                            mid_x,
                            pre_y,
                            0,
                            sdy as int,
                            pre_y,
                            5,
                        ),
                    decreases 5 - bi,
                {
                    let mid = lo + div_toward_zero(hi - lo, 2);
                    let test = self.pos.y + mid;
                    if collides_any(blocks, self.pos.x, test) {
                        hi = mid;
                    } else {
                        contact = test;
                        lo = mid;
                    }
                    bi += 1;
                }
                self.pos.y = contact;
                self.velocity.y = 0;
            } else {
                self.pos.y = tentative_y;
            }
            k += 1;
            proof {
                let prev = spec_move_state(
                    views_of(blocks@),
                    px0,
                    py0,
                    vx0,
                    vy0,
                    sdx as int,
                    sdy as int,
                    (k - 1) as nat,
                );
                assert(prev.0 == pre_x && prev.1 == pre_y && prev.2 == pre_vx && prev.3
                    == pre_vy);
                assert(spec_move_state(
                    views_of(blocks@),
                    px0,
                    py0,
                    vx0,
                    vy0,
                    sdx as int,
                    sdy as int,
                    k as nat,
                ) == spec_substep(views_of(blocks@), pre_x, pre_y, pre_vx, pre_vy, sdx as int, sdy as int));
            }
        }
    }
}


impl Player {
    /// One mining action: accepted only when the strike cooldown has
    /// elapsed, in which case the strike tick is recorded and the strike
    /// is delegated to the world.
    pub fn hit_block(&mut self, pos: IVec2, map: &mut World, tick: u64)
        requires
            old(self).wf(),
            old(map).wf(),
            i64::MIN < pos.x,
            i64::MIN < pos.y,
            old(self).last_tick_block_hit + old(self).block_hit_delay <= u64::MAX,
        ensures
            final(self).wf(),
            final(map).wf(),
            old(self).last_tick_block_hit + old(self).block_hit_delay <= tick ==> {
                let effect = spec_hit_block(
                    old(map)@.chunks,
                    old(self).inventory@,
                    old(self).stash@,
                    pos.x as int,
                    pos.y as int,
                    old(self).mining_damage,
                    old(self).tool_level,
                );
                &&& final(self).last_tick_block_hit == tick
                &&& final(map)@.chunks == effect.0
                &&& final(self).inventory@ == effect.1
                &&& final(self).stash@ == effect.2
                &&& final(map).seed == old(map).seed
                &&& final(map)@.active == old(map)@.active
                &&& *final(self) == (Player {
                    last_tick_block_hit: tick,
                    inventory: final(self).inventory,
                    stash: final(self).stash,
                    ..*old(self)
                })
            },
            old(self).last_tick_block_hit + old(self).block_hit_delay > tick ==> {
                &&& *final(self) == *old(self)
                &&& *final(map) == *old(map)
            },
    {
        if self.last_tick_block_hit + (self.block_hit_delay as u64) <= tick {
            self.last_tick_block_hit = tick;
            map.hit_block(pos.x, pos.y, self);
        }
    }
}


impl HasInventory<40> for Player {
    fn inventory(&self) -> &Inventory<40> {
        &self.inventory
    }

    fn inventory_mut(&mut self) -> &mut Inventory<40> {
        &mut self.inventory
    }
}

/// The merge pass changes only an item's amount: the leftover keeps its
/// identity fields.
proof fn lemma_merge_items_leftover_identity(slots: Seq<Option<Item>>, item: Item)
    ensures
        ({
            let rest = crate::inventory::spec_merge_items(slots, item).1;
            &&& rest.max_stack == item.max_stack
            &&& rest.rarity == item.rarity
            &&& rest.name == item.name
            &&& rest.color == item.color
            &&& rest.props == item.props
        }),
    decreases slots.len(),
{
    if slots.len() == 0 || item.amount == 0 {
    } else {
        lemma_merge_items_leftover_identity(
            slots.drop_first(),
            crate::inventory::spec_merge_slot(slots[0], item).1,
        );
    }
}

/// The placement pass changes only an item's amount: the leftover keeps
/// its identity fields.
proof fn lemma_place_items_leftover_identity(slots: Seq<Option<Item>>, item: Item)
    ensures
        ({
            let rest = crate::inventory::spec_place_items(slots, item).1;
            &&& rest.max_stack == item.max_stack
            &&& rest.rarity == item.rarity
            &&& rest.name == item.name
            &&& rest.color == item.color
            &&& rest.props == item.props
        }),
    decreases slots.len(),
{
    if slots.len() == 0 || item.amount == 0 {
    } else {
        lemma_place_items_leftover_identity(
            slots.drop_first(),
            crate::inventory::spec_place_slot(slots[0], item).1,
        );
    }
}

/// Distributing an item over slots changes only its amount: the leftover
/// keeps the item's identity fields.
pub proof fn lemma_add_items_leftover_identity(slots: Seq<Option<Item>>, item: Item)
    ensures
        ({
            let rest = spec_add_items(slots, item).1;
            &&& rest.max_stack == item.max_stack
            &&& rest.rarity == item.rarity
            &&& rest.name == item.name
            &&& rest.color == item.color
            &&& rest.props == item.props
        }),
{
    lemma_merge_items_leftover_identity(slots, item);
    lemma_place_items_leftover_identity(
        crate::inventory::spec_merge_items(slots, item).0,
        crate::inventory::spec_merge_items(slots, item).1,
    );
}

} // verus!
