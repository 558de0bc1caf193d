//! The simulation state and its fixed-rate tick: input intent applied to
//! the player, physics stepped against the active blocks, mining resolved,
//! and chunk streaming re-evaluated around the camera.

use vstd::prelude::*;
use crate::block::{Block, BlockModel};
use crate::player::{
    FRICTION, GRAVITY_FORCE, JUMP_SPEED, MAX_WALK_SPEED, Player, TERMINAL_VELOCITY,
    WALK_ACCEL, spec_abs, spec_blocks_in_range, spec_move_state, spec_on_ground,
    spec_step_count, views_of,
};
use crate::utils::{Direction, IVec2, Vec2};
use crate::world::{
    ChunkModel, EXTENT_LIMIT, POS_LIMIT, World, spec_chunk_at, spec_has_chunk,
    spec_hit_block, spec_in_window, spec_is_generated_chunk,
};
use crate::num::{div_floor, div_trunc};

verus! {

/// Simulation ticks per second.
pub const TICK_RATE: i64 = 60;

/// How far from the player a block may be struck, in milli-units.
pub const MINE_RANGE: i64 = 5_000;

/// Positions the simulation keeps the player and camera within, leaving
/// headroom below the streaming bound for one tick of movement.
pub const PLAY_LIMIT: i64 = 999_000_000_000;

/// Bound on tick counts, leaving headroom for increments.
pub const TICK_LIMIT: u64 = 0x1000_0000_0000_0000;

/// The blocks of the active chunks, flattened in active order: the list
/// the physics step sweeps against.
pub open spec fn spec_blocks_of_active(chunks: Seq<ChunkModel>, active: Seq<IVec2>) -> Seq<
    BlockModel,
>
    decreases active.len(),
{
    if active.len() == 0 {
        Seq::<BlockModel>::empty()
    } else {
        spec_blocks_of_active(chunks, active.drop_last()) + spec_chunk_at(
            chunks,
            active.last().x as int,
            active.last().y as int,
        ).tiles
    }
}

/// One tick's worth of already-decoded input intent: held movement keys
/// and the world point under the cursor while mining is held.
#[derive(Clone, Copy, Debug)]
pub struct TickInput {
    pub jump_held: bool,
    pub left_held: bool,
    pub right_held: bool,
    pub mine_target: Option<Vec2>,
}

/// The whole simulation: the streamed world, the player, and the camera
/// center and viewport extent that drive streaming.
#[derive(Debug)]
pub struct Game {
    pub map: World,
    pub player: Player,
    pub camera_pos: Vec2,
    pub viewport_dims: Vec2,
    pub tick_count: u64,
}

impl Game {
    /// World and player well formed, viewport extents bounded, and the
    /// strike cooldown bookkeeping consistent with the tick counter.
    pub open spec fn wf(&self) -> bool {
        &&& self.map.wf()
        &&& self.player.wf()
        &&& 0 <= self.viewport_dims.x <= EXTENT_LIMIT
        &&& 0 <= self.viewport_dims.y <= EXTENT_LIMIT
        &&& self.player.last_tick_block_hit <= self.tick_count
        &&& self.player.block_hit_delay <= 255
        &&& self.tick_count <= TICK_LIMIT
    }

    /// A fresh simulation under `seed`: empty world, default player, and
    /// the camera starting at the surface line.
    pub fn new(seed: u32, viewport_dims: Vec2) -> (g: Game)
        requires
            0 <= viewport_dims.x <= EXTENT_LIMIT,
            0 <= viewport_dims.y <= EXTENT_LIMIT,
        ensures
            g.wf(),
            g.map.seed == seed,
            g.map@.chunks.len() == 0,
            g.tick_count == 0,
            g.camera_pos == (Vec2 { x: 0, y: 40_000 }),
            g.viewport_dims == viewport_dims,
            g.player.pos == (Vec2 { x: 0, y: 0 }),
    {
        Game {
            map: World::new(seed),
            player: Player::default(),
            camera_pos: Vec2 { x: 0, y: 40_000 },
            viewport_dims,
            tick_count: 0,
        }
    }

    /// Every block of every active chunk, flattened into one list in
    /// active order.
    pub fn collect_active_blocks(&self) -> (blocks: Vec<Block>)
        requires
            self.map.wf(),
        ensures
            views_of(blocks@) == spec_blocks_of_active(self.map@.chunks, self.map@.active),
            spec_blocks_in_range(views_of(blocks@)),
    {
        let chunks = self.map.get_active_chunks();
        let mut blocks: Vec<Block> = Vec::new();
        let n = chunks.len();
        let mut i: usize = 0;
        proof {
            assert(self.map@.active.take(0) =~= Seq::<IVec2>::empty());
        }
        while i < n
            invariant
                self.map.wf(),
                i <= n,
                n == chunks@.len(),
                n == self.map@.active.len(),
                forall|k: int|
                    0 <= k < n ==> (#[trigger] chunks@[k])@ == spec_chunk_at(
                        self.map@.chunks,
                        self.map@.active[k].x as int,
                        self.map@.active[k].y as int,
                    ) && chunks@[k].wf(),
                views_of(blocks@) == spec_blocks_of_active(
                    self.map@.chunks,
                    self.map@.active.take(i as int),
                ),
                spec_blocks_in_range(views_of(blocks@)),
            decreases n - i,
        {
            let list = chunks[i].flatten();
            let m = list.len();
            let mut j: usize = 0;
            while j < m
                invariant
                    i < n,
                    n == chunks@.len(),
                    n == self.map@.active.len(),
                    forall|k: int|
                        0 <= k < n ==> (#[trigger] chunks@[k])@ == spec_chunk_at(
                            self.map@.chunks,
                            self.map@.active[k].x as int,
                            self.map@.active[k].y as int,
                        ) && chunks@[k].wf(),
                    j <= m,
                    m == list@.len(),
                    m == chunks@[i as int].tiles@.len(),
                    forall|k: int|
                        0 <= k < m ==> (#[trigger] list@[k])@ == chunks@[i as int].tiles@[k]@,
                    views_of(blocks@) == spec_blocks_of_active(
                        self.map@.chunks,
                        self.map@.active.take(i as int),
                    ) + chunks@[i as int]@.tiles.take(j as int),
                    spec_blocks_in_range(views_of(blocks@)),
                decreases m - j,
            {
                let ghost pre = blocks@;
                proof {
                    let c = chunks@[i as int];
                    assert(c.tiles@[j as int].pos == (IVec2 {
                        x: crate::world::spec_tile_world_x(c.x as int, j as int) as i64,
                        y: crate::world::spec_tile_world_y(c.y as int, j as int) as i64,
                    }));
                }
                blocks.push(list[j].duplicate());
                proof {
                    let c = chunks@[i as int];
                    assert(views_of(blocks@) =~= views_of(pre).push(c.tiles@[j as int]@));
                    assert(c@.tiles.take(j + 1) =~= c@.tiles.take(j as int).push(
                        c.tiles@[j as int]@,
                    ));
                    assert(views_of(blocks@) =~= spec_blocks_of_active(
                        self.map@.chunks,
                        self.map@.active.take(i as int),
                    ) + c@.tiles.take(j + 1));
                }
                j += 1;
            }
            proof {
                let c = chunks@[i as int];
                assert(c@.tiles.take(m as int) =~= c@.tiles);
                assert(self.map@.active.take(i + 1).drop_last() =~= self.map@.active.take(
                    i as int,
                ));
                assert(self.map@.active.take(i + 1).last() == self.map@.active[i as int]);
                assert(spec_blocks_of_active(
                    self.map@.chunks,
                    self.map@.active.take(i + 1),
                ) == spec_blocks_of_active(self.map@.chunks, self.map@.active.take(i as int))
                    + c@.tiles);
            }
            i += 1;
        }
        proof {
            assert(self.map@.active.take(n as int) =~= self.map@.active);
        }
        blocks
    }

    /// One fixed-rate tick: movement intent, mining, gravity, the swept
    /// collision step, then streaming around the (old) camera and finally
    /// centering the camera on the player. The contract pins every piece:
    /// the recomputed active window, the player's motion as the exact
    /// composition of intent, gravity and the swept move over the active
    /// block list, the strike effect when a target is in reach and off
    /// cooldown, and the streamed chunk extension.
    #[verifier::rlimit(100)]
    pub fn tick(&mut self, input: TickInput)
        requires
            old(self).wf(),
            old(self).tick_count < TICK_LIMIT,
            -PLAY_LIMIT <= old(self).player.pos.x <= PLAY_LIMIT,
            -PLAY_LIMIT <= old(self).player.pos.y <= PLAY_LIMIT,
            -PLAY_LIMIT <= old(self).camera_pos.x <= PLAY_LIMIT,
            -PLAY_LIMIT <= old(self).camera_pos.y <= PLAY_LIMIT,
            input.mine_target matches Some(t) ==> -POS_LIMIT <= t.x <= POS_LIMIT && -POS_LIMIT
                <= t.y <= POS_LIMIT,
        ensures
            final(self).wf(),
            final(self).tick_count == old(self).tick_count + 1,
            final(self).camera_pos == final(self).player.pos,
            final(self).viewport_dims == old(self).viewport_dims,
            final(self).map.seed == old(self).map.seed,
            -POS_LIMIT <= final(self).player.pos.x <= POS_LIMIT,
            -POS_LIMIT <= final(self).player.pos.y <= POS_LIMIT,
            forall|k: int|
                0 <= k < final(self).map@.active.len() ==> {
                    let v = #[trigger] final(self).map@.active[k];
                    &&& spec_in_window(
                        old(self).camera_pos.x as int,
                        old(self).camera_pos.y as int,
                        old(self).viewport_dims.x as int,
                        old(self).viewport_dims.y as int,
                        v.x as int,
                        v.y as int,
                    )
                    &&& spec_has_chunk(old(self).map@.chunks, v.x as int, v.y as int)
                },
            forall|cx: i64, cy: i64|
                #![auto]
                spec_in_window(
                    old(self).camera_pos.x as int,
                    old(self).camera_pos.y as int,
                    old(self).viewport_dims.x as int,
                    old(self).viewport_dims.y as int,
                    cx as int,
                    cy as int,
                ) && spec_has_chunk(old(self).map@.chunks, cx as int, cy as int) ==> final(
                    self
                ).map@.active.contains(IVec2 { x: cx, y: cy }),
            final(self).map@.active.no_duplicates(),
            ({
                let blocks = spec_blocks_of_active(
                    old(self).map@.chunks,
                    final(self).map@.active,
                );
                let p0 = old(self).player;
                let tick = old(self).tick_count + 1;
                let a = (WALK_ACCEL as int) / (TICK_RATE as int);
                let f = (FRICTION as int) / (TICK_RATE as int);
                let vx1: int = if input.left_held {
                    if p0.velocity.x - a < -MAX_WALK_SPEED {
                        -MAX_WALK_SPEED as int
                    } else {
                        p0.velocity.x - a
                    }
                } else if input.right_held {
                    if p0.velocity.x + a > MAX_WALK_SPEED {
                        MAX_WALK_SPEED as int
                    } else {
                        p0.velocity.x + a
                    }
                } else {
                    if p0.velocity.x > 0 {
                        if p0.velocity.x - f < 0 {
                            0
                        } else {
                            p0.velocity.x - f
                        }
                    } else if p0.velocity.x < 0 {
                        if p0.velocity.x + f > 0 {
                            0
                        } else {
                            p0.velocity.x + f
                        }
                    } else {
                        0
                    }
                };
                let vy1: int = if input.jump_held && spec_on_ground(
                    blocks,
                    p0.pos.x as int,
                    p0.pos.y as int,
                ) {
                    -(JUMP_SPEED as int)
                } else {
                    p0.velocity.y as int
                };
                let in_range = match input.mine_target {
                    Some(t) => {
                        let dx = t.x - p0.pos.x;
                        let dy = t.y - p0.pos.y;
                        &&& -MINE_RANGE <= dx <= MINE_RANGE
                        &&& -MINE_RANGE <= dy <= MINE_RANGE
                        &&& dx * dx + dy * dy <= MINE_RANGE * MINE_RANGE
                    },
                    None => false,
                };
                let strike = in_range && p0.last_tick_block_hit + p0.block_hit_delay
                    <= tick;
                let tx = match input.mine_target {
                    Some(t) => t.x as int / (crate::utils::UNIT as int),
                    None => 0,
                };
                let ty = match input.mine_target {
                    Some(t) => t.y as int / (crate::utils::UNIT as int),
                    None => 0,
                };
                let effect = spec_hit_block(
                    old(self).map@.chunks,
                    p0.inventory@,
                    p0.stash@,
                    tx,
                    ty,
                    p0.mining_damage,
                    p0.tool_level,
                );
                let chunks1 = if strike {
                    effect.0
                } else {
                    old(self).map@.chunks
                };
                let inv1 = if strike {
                    effect.1
                } else {
                    p0.inventory@
                };
                let stash1 = if strike {
                    effect.2
                } else {
                    p0.stash@
                };
                let last1: int = if strike {
                    tick as int
                } else {
                    p0.last_tick_block_hit as int
                };
                let g = (GRAVITY_FORCE as int) / (TICK_RATE as int);
                let vy2: int = if vy1 + g <= TERMINAL_VELOCITY {
                    vy1 + g
                } else {
                    TERMINAL_VELOCITY as int
                };
                let dx0 = div_trunc(vx1, TICK_RATE as int);
                let dy0 = div_trunc(vy2, TICK_RATE as int);
                let steps = spec_step_count(
                    if spec_abs(dx0) < spec_abs(dy0) {
                        spec_abs(dy0)
                    } else {
                        spec_abs(dx0)
                    },
                );
                let st = spec_move_state(
                    blocks,
                    p0.pos.x as int,
                    p0.pos.y as int,
                    vx1,
                    vy2,
                    div_trunc(dx0, steps),
                    div_trunc(dy0, steps),
                    steps as nat,
                );
                &&& final(self).player.pos.x == st.0
                &&& final(self).player.pos.y == st.1
                &&& final(self).player.velocity.x == st.2
                &&& final(self).player.velocity.y == st.3
                &&& final(self).player.inventory@ == inv1
                &&& final(self).player.stash@ == stash1
                &&& final(self).player.last_tick_block_hit == last1
                &&& final(self).player.look_dir == p0.look_dir
                &&& final(self).player.block_hit_delay == p0.block_hit_delay
                &&& final(self).player.mining_damage == p0.mining_damage
                &&& final(self).player.tool_level == p0.tool_level
                &&& final(self).player.health == p0.health
                &&& final(self).player.max_health == p0.max_health
                &&& final(self).player.active_inventory_slot == p0.active_inventory_slot
                &&& final(self).player.weaknesses == p0.weaknesses
                &&& chunks1.len() <= final(self).map@.chunks.len()
                &&& final(self).map@.chunks.take(chunks1.len() as int) == chunks1
                &&& forall|jj: int|
                    chunks1.len() <= jj < final(self).map@.chunks.len()
                        ==> spec_is_generated_chunk(
                        #[trigger] final(self).map.chunks@[jj],
                        old(self).map.seed,
                    )
                &&& forall|cx: int, cy: int|
                    #![auto]
                    spec_in_window(
                        old(self).camera_pos.x as int,
                        old(self).camera_pos.y as int,
                        old(self).viewport_dims.x as int,
                        old(self).viewport_dims.y as int,
                        cx,
                        cy,
                    ) ==> spec_has_chunk(final(self).map@.chunks, cx, cy)
            }),
    {
        self.tick_count = self.tick_count + 1;
        self.map.update_active_chunks(
            self.camera_pos.x,
            self.camera_pos.y,
            self.viewport_dims.x,
            self.viewport_dims.y,
        );
        let ghost active1 = self.map@.active;
        proof {
            assert(self.map@.chunks == old(self).map@.chunks);
        }
        let blocks = self.collect_active_blocks();
        let ghost bm = views_of(blocks@);
        proof {
            assert(bm == spec_blocks_of_active(old(self).map@.chunks, active1));
        }
        if input.jump_held {
            self.player.try_jump(&blocks);
        }
        if input.left_held {
            self.player.try_move(Direction::Left, TICK_RATE);
        } else if input.right_held {
            self.player.try_move(Direction::Right, TICK_RATE);
        } else {
            self.player.apply_friction(TICK_RATE);
        }
        match input.mine_target {
            Some(t) => {
                let dx = t.x - self.player.pos.x;
                let dy = t.y - self.player.pos.y;
                if -MINE_RANGE <= dx && dx <= MINE_RANGE && -MINE_RANGE <= dy && dy
                    <= MINE_RANGE {
                    proof {
                        assert(0 <= dx * dx <= MINE_RANGE * MINE_RANGE && 0 <= dy * dy
                            <= MINE_RANGE * MINE_RANGE) by (nonlinear_arith)
                            requires
                                -MINE_RANGE <= dx <= MINE_RANGE,
                                -MINE_RANGE <= dy <= MINE_RANGE,
                        ;
                    }
                    if dx * dx + dy * dy <= MINE_RANGE * MINE_RANGE {
                        let bx = div_floor(t.x, crate::utils::UNIT);
                        let by = div_floor(t.y, crate::utils::UNIT);
                        let tick = self.tick_count;
                        self.player.hit_block(IVec2 { x: bx, y: by }, &mut self.map, tick);
                    }
                }
            },
            None => {},
        }
        self.player.apply_gravity(TICK_RATE);
        self.player.move_step(&blocks, TICK_RATE);
        self.map.update_around_point(
            self.camera_pos.x,
            self.camera_pos.y,
            self.viewport_dims.x,
            self.viewport_dims.y,
        );
        proof {
            assert(self.map@.active == active1);
        }
        self.camera_pos = self.player.pos;
    }
}

} // verus!