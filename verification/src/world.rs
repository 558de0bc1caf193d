//! The chunked world: deterministic terrain generation from a seeded noise
//! function, coordinate mapping between world, chunk and local space, chunk
//! streaming, and block mutation (mining, healing, removal).

use vstd::prelude::*;
use crate::block::{Block, BlockFlag, BlockModel, BlockName, spec_can_be_hit};
use crate::blocks::{
    block_air, block_dirt, block_stone, spec_air_color, spec_is_air_block_flags,
    spec_is_dirt_block_flags, spec_is_stone_block_flags,
};
use crate::inventory::spec_add_items;
use crate::item::Item;
use crate::items::{item_from_name, spec_item_from_name};
use crate::num::{div_ceil_nonneg, div_floor, rem_floor};
use crate::player::Player;
use crate::utils::IVec2;

verus! {

/// Blocks per chunk edge.
pub const CHUNK_SIZE: i64 = 16;

/// Blocks per chunk: the 16 by 16 grid, row-major.
pub const CHUNK_AREA: usize = 256;

/// Bound on chunk coordinates; keeps every world coordinate a chunk can
/// produce within the 32-bit range the noise sampling works in.
pub const CHUNK_COORD_LIMIT: i64 = 100_000_000;

/// Bound on block world coordinates, implied by `CHUNK_COORD_LIMIT`.
pub const COORD_LIMIT: i64 = 2_000_000_000;

/// World rows above (numerically below) this depth are open sky.
pub const SURFACE_DEPTH: i64 = 40;

/// The terrain noise is sampled at three tenths of the block grid's
/// frequency; a ratio of one would give degenerate, uniform terrain.
pub const NOISE_SCALE_NUM: i64 = 3;

pub const NOISE_SCALE_DEN: i64 = 10;

/// Sign bit of an IEEE-754 double.
pub const F64_SIGN_BIT: u64 = 0x8000_0000_0000_0000;

/// The IEEE-754 double bits of one half.
pub const F64_HALF_BITS: u64 = 0x3FE0_0000_0000_0000;

/// The character for one decimal digit.
pub open spec fn spec_digit_char(d: int) -> char {
    if d == 0 {
        '0'
    } else if d == 1 {
        '1'
    } else if d == 2 {
        '2'
    } else if d == 3 {
        '3'
    } else if d == 4 {
        '4'
    } else if d == 5 {
        '5'
    } else if d == 6 {
        '6'
    } else if d == 7 {
        '7'
    } else if d == 8 {
        '8'
    } else {
        '9'
    }
}

/// The decimal digits of `n`, most significant first.
pub open spec fn spec_dec_chars(n: nat) -> Seq<char>
    decreases n,
{
    if n < 10 {
        seq![spec_digit_char(n as int)]
    } else {
        spec_dec_chars(n / 10).push(spec_digit_char((n % 10) as int))
    }
}

/// The decimal rendering of the rational `q / NOISE_SCALE_DEN`, with its
/// single fractional digit: sign, whole part, point, tenths digit.
pub open spec fn spec_tenths_chars(q: int) -> Seq<char> {
    let m = if q < 0 {
        -q
    } else {
        q
    };
    let sign: Seq<char> = if q < 0 {
        seq!['-']
    } else {
        Seq::<char>::empty()
    };
    sign + spec_dec_chars((m / (NOISE_SCALE_DEN as int)) as nat) + seq!['.'] + seq![
        spec_digit_char(m % (NOISE_SCALE_DEN as int)),
    ]
}

fn digit_str(d: u64) -> (s: &'static str)
    requires
        d < 10,
    ensures
        s@ == seq![spec_digit_char(d as int)],
{
    match d {
        0 => {
            proof {
                reveal_strlit("0");
            }
            "0"
        },
        1 => {
            proof {
                reveal_strlit("1");
            }
            "1"
        },
        2 => {
            proof {
                reveal_strlit("2");
            }
            "2"
        },
        3 => {
            proof {
                reveal_strlit("3");
            }
            "3"
        },
        4 => {
            proof {
                reveal_strlit("4");
            }
            "4"
        },
        5 => {
            proof {
                reveal_strlit("5");
            }
            "5"
        },
        6 => {
            proof {
                reveal_strlit("6");
            }
            "6"
        },
        7 => {
            proof {
                reveal_strlit("7");
            }
            "7"
        },
        8 => {
            proof {
                reveal_strlit("8");
            }
            "8"
        },
        _ => {
            proof {
                reveal_strlit("9");
            }
            "9"
        },
    }
}

fn dec_string(n: u64) -> (s: String)
    ensures
        s@ == spec_dec_chars(n as nat),
    decreases n,
{
    if n < 10 {
        let mut s = String::new();
        s.append(digit_str(n));
        proof {
            assert(s@ =~= spec_dec_chars(n as nat));
        }
        s
    } else {
        let mut s = dec_string(n / 10);
        s.append(digit_str(n % 10));
        proof {
            assert(s@ =~= spec_dec_chars(n as nat));
        }
        s
    }
}

/// Render the rational `q / NOISE_SCALE_DEN` as a decimal string with one
/// fractional digit, the exact text form of a scaled coordinate.
fn tenths_string(q: i64) -> (s: String)
    requires
        i64::MIN < q,
    ensures
        s@ == spec_tenths_chars(q as int),
{
    let m: u64 = if q < 0 {
        (-q) as u64
    } else {
        q as u64
    };
    let mut s = String::new();
    if q < 0 {
        proof {
            reveal_strlit("-");
        }
        s.append("-");
    }
    let whole = dec_string(m / (NOISE_SCALE_DEN as u64));
    s.append(whole.as_str());
    proof {
        reveal_strlit(".");
    }
    s.append(".");
    s.append(digit_str(m % (NOISE_SCALE_DEN as u64)));
    proof {
        assert(s@ =~= spec_tenths_chars(q as int));
    }
    s
}

/// The raw IEEE-754 bits of the terrain noise sample for `seed` at the
/// point whose two coordinates are written, in decimal, by the given
/// character sequences. The sample is a pure function of these arguments:
/// the generator builds its permutation table deterministically from the
/// seed alone.
pub uninterp spec fn terrain_noise_bits(seed: u32, sx: Seq<char>, sy: Seq<char>) -> u64;

/// Relies on noise::Perlin: `Perlin::new(seed)` derives its permutation
/// table deterministically from the seed (its documentation and source say
/// so), and `NoiseFn::get` computes a pure function of the sampled point
/// and that table, clamped into [-1, 1]. Parsing a decimal string is
/// correctly rounded and deterministic, so the returned bits are a
/// function of the arguments alone. The encoded magnitudes are bounded
/// because the generator floors each coordinate into a machine-sized
/// lattice corner; a point near or past that integer range would make the
/// conversion fail.
#[verifier::external_body]
fn sample_noise_at(seed: u32, sx: &str, sy: &str) -> (bits: u64)
    requires
        exists|qx: int|
            sx@ == spec_tenths_chars(qx) && -(NOISE_SCALE_NUM * COORD_LIMIT) <= qx
                <= NOISE_SCALE_NUM * COORD_LIMIT,
        exists|qy: int|
            sy@ == spec_tenths_chars(qy) && -(NOISE_SCALE_NUM * COORD_LIMIT) <= qy
                <= NOISE_SCALE_NUM * COORD_LIMIT,
    ensures
        bits == terrain_noise_bits(seed, sx@, sy@),
{
    let p = noise::Perlin::new(seed);
    let v = noise::NoiseFn::get(&p, [sx.parse().unwrap(), sy.parse().unwrap()]);
    v.to_bits()
}

/// Whether a sample's bits order below one half: either the sign bit is
/// set (the sample is not positive), or, for a positive double, the bit
/// pattern orders the same way the value does and lies below the pattern
/// of one half. The generator's samples are clamped into [-1, 1], so this
/// is exactly "sample < 0.5".
pub open spec fn noise_is_low(bits: u64) -> bool {
    bits >= F64_SIGN_BIT || bits < F64_HALF_BITS
}

/// The noise sample bits for world cell `(x, y)`: each coordinate scaled
/// by three tenths and written in decimal.
pub open spec fn spec_cell_noise_bits(seed: u32, x: int, y: int) -> u64 {
    terrain_noise_bits(
        seed,
        spec_tenths_chars(NOISE_SCALE_NUM * x),
        spec_tenths_chars(NOISE_SCALE_NUM * y),
    )
}

/// The material generated at world cell `(x, y)`: sky above the surface
/// depth, then dirt where the noise runs low and stone where it runs high.
pub open spec fn spec_block_kind(seed: u32, x: int, y: int) -> BlockName {
    if y < SURFACE_DEPTH {
        BlockName::Air
    } else if noise_is_low(spec_cell_noise_bits(seed, x, y)) {
        BlockName::Dirt
    } else {
        BlockName::Stone
    }
}

/// The flags a freshly generated block of the given material carries.
pub open spec fn spec_base_flags(kind: BlockName) -> Seq<BlockFlag> {
    match kind {
        BlockName::Air => Seq::<BlockFlag>::empty(),
        BlockName::Dirt => seq![BlockFlag::Dig],
        BlockName::Stone => seq![BlockFlag::Mine],
    }
}

/// Cells on a chunk-grid boundary line are tagged for highlighting.
pub open spec fn spec_on_grid_line(x: int, y: int) -> bool {
    x % (CHUNK_SIZE as int) == 0 || y % (CHUNK_SIZE as int) == 0
}

/// The full flag set of a freshly generated block.
pub open spec fn spec_gen_flags(kind: BlockName, x: int, y: int) -> Seq<BlockFlag> {
    if spec_on_grid_line(x, y) {
        spec_base_flags(kind).push(BlockFlag::Highlight)
    } else {
        spec_base_flags(kind)
    }
}

/// Exactly the block that generation produces at world cell `(x, y)` under
/// `seed`: material, stats and flags all pinned.
pub open spec fn spec_is_generated_block(b: Block, seed: u32, x: int, y: int) -> bool {
    let kind = spec_block_kind(seed, x, y);
    let pos = IVec2 { x: x as i64, y: y as i64 };
    let flags = spec_gen_flags(kind, x, y);
    match kind {
        BlockName::Air => spec_is_air_block_flags(b, pos, flags),
        BlockName::Dirt => spec_is_dirt_block_flags(b, pos, flags),
        BlockName::Stone => spec_is_stone_block_flags(b, pos, flags),
    }
}

/// Generate the block at world cell `(x, y)`: classify the material from
/// the seeded noise, then tag grid-boundary cells with a highlight flag.
pub fn generate_block(seed: u32, x: i64, y: i64) -> (b: Block)
    requires
        -COORD_LIMIT <= x <= COORD_LIMIT,
        -COORD_LIMIT <= y <= COORD_LIMIT,
    ensures
        b.wf(),
        spec_is_generated_block(b, seed, x as int, y as int),
{
    let mut block: Block = if y >= SURFACE_DEPTH {
        let sx = tenths_string(x * NOISE_SCALE_NUM);
        let sy = tenths_string(y * NOISE_SCALE_NUM);
        proof {
            assert(sx@ == spec_tenths_chars(x * NOISE_SCALE_NUM) && -(NOISE_SCALE_NUM
                * COORD_LIMIT) <= x * NOISE_SCALE_NUM <= NOISE_SCALE_NUM * COORD_LIMIT);
            assert(sy@ == spec_tenths_chars(y * NOISE_SCALE_NUM) && -(NOISE_SCALE_NUM
                * COORD_LIMIT) <= y * NOISE_SCALE_NUM <= NOISE_SCALE_NUM * COORD_LIMIT);
        }
        let bits = sample_noise_at(seed, sx.as_str(), sy.as_str());
        if bits >= F64_SIGN_BIT || bits < F64_HALF_BITS {
            block_dirt(IVec2::new(x, y))
        } else {
            block_stone(IVec2::new(x, y))
        }
    } else {
        block_air(IVec2::new(x, y))
    };
    if rem_floor(x, CHUNK_SIZE) == 0 || rem_floor(y, CHUNK_SIZE) == 0 {
        proof {
            assert(!block.spec_flags().contains(BlockFlag::Highlight));
        }
        block.add_flag(BlockFlag::Highlight);
    }
    block
}

/// A fixed 16 by 16 grid of blocks plus its chunk coordinate. The grid is
/// stored row-major: local cell `(lx, ly)` sits at index `lx * 16 + ly`.
#[derive(Debug)]
pub struct Chunk {
    pub tiles: Vec<Block>,
    pub x: i64,
    pub y: i64,
}

/// The mathematical value of a chunk.
pub ghost struct ChunkModel {
    pub x: i64,
    pub y: i64,
    pub tiles: Seq<BlockModel>,
}

impl View for Chunk {
    type V = ChunkModel;

    open spec fn view(&self) -> ChunkModel {
        ChunkModel { x: self.x, y: self.y, tiles: self.tiles@.map_values(|b: Block| b@) }
    }
}

/// The world coordinate of tile index `i` of the chunk at `(cx, cy)`.
pub open spec fn spec_tile_world_x(cx: int, i: int) -> int {
    cx * (CHUNK_SIZE as int) + i / (CHUNK_SIZE as int)
}

pub open spec fn spec_tile_world_y(cy: int, i: int) -> int {
    cy * (CHUNK_SIZE as int) + i % (CHUNK_SIZE as int)
}

impl Chunk {
    /// A chunk within coordinate bounds, holding a full grid of well
    /// formed blocks, each sitting at the world position its index names.
    pub open spec fn wf(&self) -> bool {
        &&& -CHUNK_COORD_LIMIT <= self.x <= CHUNK_COORD_LIMIT
        &&& -CHUNK_COORD_LIMIT <= self.y <= CHUNK_COORD_LIMIT
        &&& self.tiles@.len() == CHUNK_AREA
        &&& forall|i: int|
            0 <= i < CHUNK_AREA ==> (#[trigger] self.tiles@[i]).wf()
        &&& forall|i: int|
            0 <= i < CHUNK_AREA ==> (#[trigger] self.tiles@[i]).pos == (IVec2 {
                x: spec_tile_world_x(self.x as int, i) as i64,
                y: spec_tile_world_y(self.y as int, i) as i64,
            })
    }

    /// The chunk coordinate a world coordinate falls in: flooring division
    /// by the chunk size, so negative coordinates map correctly.
    pub fn world_to_chunk(x: i64, y: i64) -> (r: (i64, i64))
        requires
            i64::MIN < x,
            i64::MIN < y,
        ensures
            r.0 == x as int / (CHUNK_SIZE as int),
            r.1 == y as int / (CHUNK_SIZE as int),
    {
        (div_floor(x, CHUNK_SIZE), div_floor(y, CHUNK_SIZE))
    }

    /// The world coordinate of local cell `(x, y)` in chunk `(chunk_x,
    /// chunk_y)`: the inverse offset of `world_to_chunk`.
    pub fn chunk_to_world(chunk_x: i64, chunk_y: i64, x: i64, y: i64) -> (r: (i64, i64))
        requires
            -CHUNK_COORD_LIMIT <= chunk_x <= CHUNK_COORD_LIMIT,
            -CHUNK_COORD_LIMIT <= chunk_y <= CHUNK_COORD_LIMIT,
            0 <= x <= CHUNK_SIZE,
            0 <= y <= CHUNK_SIZE,
        ensures
            r.0 == chunk_x * (CHUNK_SIZE as int) + x,
            r.1 == chunk_y * (CHUNK_SIZE as int) + y,
    {
        (chunk_x * CHUNK_SIZE + x, chunk_y * CHUNK_SIZE + y)
    }

    /// Generate the chunk at `(chunk_x, chunk_y)`: every cell classified
    /// from the seeded noise in world space, exactly once, synchronously.
    pub fn new(seed: u32, chunk_x: i64, chunk_y: i64) -> (c: Chunk)
        requires
            -CHUNK_COORD_LIMIT <= chunk_x <= CHUNK_COORD_LIMIT,
            -CHUNK_COORD_LIMIT <= chunk_y <= CHUNK_COORD_LIMIT,
        ensures
            c.wf(),
            c.x == chunk_x,
            c.y == chunk_y,
            spec_is_generated_chunk(c, seed),
    {
        let mut tiles: Vec<Block> = Vec::new();
        let mut i: usize = 0;
        while i < CHUNK_AREA
            invariant
                i <= CHUNK_AREA,
                -CHUNK_COORD_LIMIT <= chunk_x <= CHUNK_COORD_LIMIT,
                -CHUNK_COORD_LIMIT <= chunk_y <= CHUNK_COORD_LIMIT,
                tiles@.len() == i,
                forall|k: int|
                    0 <= k < i ==> (#[trigger] tiles@[k]).wf() && spec_is_generated_block(
                        tiles@[k],
                        seed,
                        spec_tile_world_x(chunk_x as int, k),
                        spec_tile_world_y(chunk_y as int, k),
                    ),
            decreases CHUNK_AREA - i,
        {
            let lx: i64 = (i as i64) / CHUNK_SIZE;
            let ly: i64 = (i as i64) % CHUNK_SIZE;
            let wx = chunk_x * CHUNK_SIZE + lx;
            let wy = chunk_y * CHUNK_SIZE + ly;
            let b = generate_block(seed, wx, wy);
            tiles.push(b);
            i += 1;
        }
        Chunk { tiles, x: chunk_x, y: chunk_y }
    }

    /// The full list of contained blocks in row-major order; non-mutating.
    pub fn flatten(&self) -> (blocks: Vec<Block>)
        ensures
            blocks@.len() == self.tiles@.len(),
            forall|i: int| 0 <= i < blocks@.len() ==> (#[trigger] blocks@[i])@ == self.tiles@[i]@,
    {
        let mut blocks: Vec<Block> = Vec::new();
        let mut i: usize = 0;
        while i < self.tiles.len()
            invariant
                i <= self.tiles@.len(),
                blocks@.len() == i,
                forall|k: int| 0 <= k < i ==> (#[trigger] blocks@[k])@ == self.tiles@[k]@,
            decreases self.tiles@.len() - i,
        {
            blocks.push(self.tiles[i].duplicate());
            i += 1;
        }
        blocks
    }
}

/// Every tile of `c` is exactly what generation under `seed` puts at its
/// world position.
pub open spec fn spec_is_generated_chunk(c: Chunk, seed: u32) -> bool {
    &&& c.tiles@.len() == CHUNK_AREA
    &&& forall|i: int|
        0 <= i < CHUNK_AREA ==> spec_is_generated_block(
            #[trigger] c.tiles@[i],
            seed,
            spec_tile_world_x(c.x as int, i),
            spec_tile_world_y(c.y as int, i),
        )
}

/// Generation is deterministic: two chunks generated at the same chunk
/// coordinate under the same seed hold value-identical block grids.
pub proof fn lemma_generation_deterministic(c1: Chunk, c2: Chunk, seed: u32)
    requires
        spec_is_generated_chunk(c1, seed),
        spec_is_generated_chunk(c2, seed),
        c1.x == c2.x,
        c1.y == c2.y,
    ensures
        c1@.tiles =~= c2@.tiles,
{
    assert forall|i: int| 0 <= i < CHUNK_AREA implies c1@.tiles[i] == c2@.tiles[i] by {
        assert(spec_is_generated_block(
            c1.tiles@[i],
            seed,
            spec_tile_world_x(c1.x as int, i),
            spec_tile_world_y(c1.y as int, i),
        ));
        assert(spec_is_generated_block(
            c2.tiles@[i],
            seed,
            spec_tile_world_x(c1.x as int, i),
            spec_tile_world_y(c1.y as int, i),
        ));
    }
}

/// Splitting a world coordinate into its chunk coordinate and local offset
/// and recombining them reconstructs the coordinate exactly, negative
/// coordinates included.
pub proof fn lemma_coord_round_trip(x: int, y: int)
    ensures
        (x / (CHUNK_SIZE as int)) * (CHUNK_SIZE as int) + x % (CHUNK_SIZE as int) == x,
        (y / (CHUNK_SIZE as int)) * (CHUNK_SIZE as int) + y % (CHUNK_SIZE as int) == y,
        0 <= x % (CHUNK_SIZE as int) < CHUNK_SIZE,
        0 <= y % (CHUNK_SIZE as int) < CHUNK_SIZE,
{
    vstd::arithmetic::div_mod::lemma_fundamental_div_mod(x, CHUNK_SIZE as int);
    vstd::arithmetic::div_mod::lemma_fundamental_div_mod(y, CHUNK_SIZE as int);
}

/// First index holding the chunk at `(cx, cy)`, or a negative value when
/// no chunk there is loaded.
pub open spec fn chunk_index_of(chunks: Seq<ChunkModel>, cx: int, cy: int) -> int
    decreases chunks.len(),
{
    if chunks.len() == 0 {
        -1
    } else if chunks[0].x == cx && chunks[0].y == cy {
        0
    } else if chunk_index_of(chunks.drop_first(), cx, cy) < 0 {
        -1
    } else {
        chunk_index_of(chunks.drop_first(), cx, cy) + 1
    }
}

/// Whether the chunk at `(cx, cy)` is loaded.
pub open spec fn spec_has_chunk(chunks: Seq<ChunkModel>, cx: int, cy: int) -> bool {
    chunk_index_of(chunks, cx, cy) >= 0
}

/// The loaded chunk at `(cx, cy)`.
pub open spec fn spec_chunk_at(chunks: Seq<ChunkModel>, cx: int, cy: int) -> ChunkModel {
    chunks[chunk_index_of(chunks, cx, cy)]
}

/// What `chunk_index_of` finds: a real first match, or no match at all.
pub proof fn lemma_chunk_index_of_props(chunks: Seq<ChunkModel>, cx: int, cy: int)
    ensures
        -1 <= chunk_index_of(chunks, cx, cy) < chunks.len(),
        chunk_index_of(chunks, cx, cy) >= 0 ==> {
            let i = chunk_index_of(chunks, cx, cy);
            &&& chunks[i].x == cx
            &&& chunks[i].y == cy
            &&& forall|k: int|
                0 <= k < i ==> !((#[trigger] chunks[k]).x == cx && chunks[k].y == cy)
        },
        chunk_index_of(chunks, cx, cy) < 0 ==> forall|k: int|
            0 <= k < chunks.len() ==> !((#[trigger] chunks[k]).x == cx && chunks[k].y == cy),
    decreases chunks.len(),
{
    if chunks.len() == 0 {
    } else if chunks[0].x == cx && chunks[0].y == cy {
    } else {
        lemma_chunk_index_of_props(chunks.drop_first(), cx, cy);
        assert(forall|k: int|
            1 <= k < chunks.len() ==> (#[trigger] chunks[k]) == chunks.drop_first()[k - 1]);
        let i = chunk_index_of(chunks, cx, cy);
        if i >= 0 {
            assert(chunks[i] == chunks.drop_first()[i - 1]);
        }
    }
}

/// Appending a chunk keeps every loaded chunk where it was, and loads the
/// appended coordinate exactly when it was missing.
pub proof fn lemma_chunk_index_of_push(
    chunks: Seq<ChunkModel>,
    c: ChunkModel,
    cx: int,
    cy: int,
)
    ensures
        spec_has_chunk(chunks, cx, cy) ==> chunk_index_of(chunks.push(c), cx, cy)
            == chunk_index_of(chunks, cx, cy),
        !spec_has_chunk(chunks, cx, cy) && c.x == cx && c.y == cy ==> chunk_index_of(
            chunks.push(c),
            cx,
            cy,
        ) == chunks.len(),
        !spec_has_chunk(chunks, cx, cy) && !(c.x == cx && c.y == cy) ==> chunk_index_of(
            chunks.push(c),
            cx,
            cy,
        ) == -1,
    decreases chunks.len(),
{
    if chunks.len() == 0 {
        assert(chunks.push(c).drop_first() =~= Seq::<ChunkModel>::empty());
        assert(chunks.push(c)[0] == c);
        assert(chunk_index_of(Seq::<ChunkModel>::empty(), cx, cy) == -1);
    } else {
        assert(chunks.push(c).drop_first() =~= chunks.drop_first().push(c));
        assert(chunks.push(c)[0] == chunks[0]);
        lemma_chunk_index_of_push(chunks.drop_first(), c, cx, cy);
        if !(chunks[0].x == cx && chunks[0].y == cy) {
            let sub = chunk_index_of(chunks.drop_first(), cx, cy);
            let sub2 = chunk_index_of(chunks.drop_first().push(c), cx, cy);
            assert(chunk_index_of(chunks, cx, cy) == (if sub < 0 {
                -1int
            } else {
                sub + 1
            }));
            assert(chunk_index_of(chunks.push(c), cx, cy) == (if sub2 < 0 {
                -1int
            } else {
                sub2 + 1
            }));
        }
    }
}

/// Updating the grid of one loaded chunk, without touching its coordinate,
/// moves no chunk: every coordinate still resolves to the same index.
pub proof fn lemma_chunk_index_of_update(
    chunks: Seq<ChunkModel>,
    i: int,
    c: ChunkModel,
    cx: int,
    cy: int,
)
    requires
        0 <= i < chunks.len(),
        c.x == chunks[i].x,
        c.y == chunks[i].y,
    ensures
        chunk_index_of(chunks.update(i, c), cx, cy) == chunk_index_of(chunks, cx, cy),
    decreases chunks.len(),
{
    if chunks.len() == 0 {
    } else if i == 0 {
        assert(chunks.update(i, c).drop_first() =~= chunks.drop_first());
    } else {
        assert(chunks.update(i, c).drop_first() =~= chunks.drop_first().update(i - 1, c));
        lemma_chunk_index_of_update(chunks.drop_first(), i - 1, c, cx, cy);
    }
}

/// The grid index of world cell `(x, y)` inside its chunk.
pub open spec fn spec_tile_index(x: int, y: int) -> int {
    (x % (CHUNK_SIZE as int)) * (CHUNK_SIZE as int) + y % (CHUNK_SIZE as int)
}

/// The block stored at world cell `(x, y)`.
pub open spec fn spec_block_at(chunks: Seq<ChunkModel>, x: int, y: int) -> BlockModel {
    spec_chunk_at(chunks, x / (CHUNK_SIZE as int), y / (CHUNK_SIZE as int)).tiles[
        spec_tile_index(x, y)]
}

/// The model of the freshly cleared (air) block at `(x, y)`.
pub open spec fn spec_air_model(x: int, y: int) -> BlockModel {
    BlockModel {
        pos: IVec2 { x: x as i64, y: y as i64 },
        color: spec_air_color(),
        block_type: BlockName::Air,
        can_collide: false,
        required_level: 0,
        health: 0,
        max_health: 0,
        drop_item: None,
        is_solid: false,
        flags: Seq::<BlockFlag>::empty(),
        last_hit_tick: 0,
    }
}

/// `b` with its health replaced.
pub open spec fn spec_with_health(b: BlockModel, health: i64) -> BlockModel {
    BlockModel {
        pos: b.pos,
        color: b.color,
        block_type: b.block_type,
        can_collide: b.can_collide,
        required_level: b.required_level,
        health,
        max_health: b.max_health,
        drop_item: b.drop_item,
        is_solid: b.is_solid,
        flags: b.flags,
        last_hit_tick: b.last_hit_tick,
    }
}

/// `c` with one grid cell replaced.
pub open spec fn spec_with_tile(c: ChunkModel, ti: int, b: BlockModel) -> ChunkModel {
    ChunkModel { x: c.x, y: c.y, tiles: c.tiles.update(ti, b) }
}


/// The whole loaded world: a mapping from chunk coordinates to chunks
/// (stored as a vector with unique coordinates), the generation seed, and
/// the recomputed list of active chunk coordinates.
#[derive(Debug)]
pub struct World {
    pub seed: u32,
    pub chunks: Vec<Chunk>,
    pub active_chunks: Vec<IVec2>,
}

/// The mathematical value of a world.
pub ghost struct WorldModel {
    pub seed: u32,
    pub chunks: Seq<ChunkModel>,
    pub active: Seq<IVec2>,
}

impl View for World {
    type V = WorldModel;

    open spec fn view(&self) -> WorldModel {
        WorldModel {
            seed: self.seed,
            chunks: self.chunks@.map_values(|c: Chunk| c@),
            active: self.active_chunks@,
        }
    }
}

impl World {
    /// Every chunk well formed, chunk coordinates unique, and every active
    /// coordinate backed by a loaded chunk.
    pub open spec fn wf(&self) -> bool {
        &&& forall|i: int| 0 <= i < self.chunks@.len() ==> (#[trigger] self.chunks@[i]).wf()
        &&& forall|i: int, j: int|
            #![trigger self.chunks@[i], self.chunks@[j]]
            0 <= i < j < self.chunks@.len() ==> !(self.chunks@[i].x == self.chunks@[j].x
                && self.chunks@[i].y == self.chunks@[j].y)
        &&& forall|k: int|
            0 <= k < self.active_chunks@.len() ==> spec_has_chunk(
                self@.chunks,
                (#[trigger] self.active_chunks@[k]).x as int,
                self.active_chunks@[k].y as int,
            )
    }

    pub fn new(seed: u32) -> (w: World)
        ensures
            w.wf(),
            w.seed == seed,
            w@.chunks.len() == 0,
            w@.active.len() == 0,
    {
        World { seed, chunks: Vec::new(), active_chunks: Vec::new() }
    }

    /// The storage index of the loaded chunk at `(cx, cy)`, if any.
    fn find_chunk(&self, cx: i64, cy: i64) -> (r: Option<usize>)
        ensures
            match r {
                Some(i) => i < self.chunks@.len() && chunk_index_of(
                    self@.chunks,
                    cx as int,
                    cy as int,
                ) == i,
                None => chunk_index_of(self@.chunks, cx as int, cy as int) == -1,
            },
    {
        let n = self.chunks.len();
        let mut i: usize = 0;
        while i < n
            invariant
                i <= n,
                n == self.chunks@.len(),
                forall|k: int|
                    0 <= k < i ==> !((#[trigger] self@.chunks[k]).x == cx && self@.chunks[k].y
                        == cy),
            decreases n - i,
        {
            let c = &self.chunks[i];
            if c.x == cx && c.y == cy {
                proof {
                    lemma_chunk_index_of_props(self@.chunks, cx as int, cy as int);
                    assert(self@.chunks[i as int] == self.chunks@[i as int]@);
                }
                return Some(i);
            }
            proof {
                assert(self@.chunks[i as int] == self.chunks@[i as int]@);
            }
            i += 1;
        }
        proof {
            lemma_chunk_index_of_props(self@.chunks, cx as int, cy as int);
        }
        None
    }

    /// Resolve a world coordinate to its block: chunk lookup, then local
    /// grid index. Absent chunks yield an absence signal, never a crash.
    pub fn get_block(&self, x: i64, y: i64) -> (r: Option<&Block>)
        requires
            self.wf(),
            i64::MIN < x,
            i64::MIN < y,
        ensures
            match r {
                Some(b) => {
                    &&& spec_has_chunk(
                        self@.chunks,
                        x as int / (CHUNK_SIZE as int),
                        y as int / (CHUNK_SIZE as int),
                    )
                    &&& b@ == spec_block_at(self@.chunks, x as int, y as int)
                    &&& b.wf()
                },
                None => !spec_has_chunk(
                    self@.chunks,
                    x as int / (CHUNK_SIZE as int),
                    y as int / (CHUNK_SIZE as int),
                ),
            },
    {
        let cx = div_floor(x, CHUNK_SIZE);
        let cy = div_floor(y, CHUNK_SIZE);
        match self.find_chunk(cx, cy) {
            None => None,
            Some(ci) => {
                let lx = rem_floor(x, CHUNK_SIZE);
                let ly = rem_floor(y, CHUNK_SIZE);
                let ti = (lx * CHUNK_SIZE + ly) as usize;
                let c = &self.chunks[ci];
                proof {
                    assert(self@.chunks[ci as int] == self.chunks@[ci as int]@);
                    assert(c@.tiles[ti as int] == c.tiles@[ti as int]@);
                }
                Some(&c.tiles[ti])
            },
        }
    }


    /// Replace the block in grid cell `ti` of chunk `ci`.
    fn set_tile(&mut self, ci: usize, ti: usize, b: Block)
        requires
            old(self).wf(),
            ci < old(self).chunks@.len(),
            ti < CHUNK_AREA,
            b.wf(),
            b.pos == (IVec2 {
                x: spec_tile_world_x(old(self).chunks@[ci as int].x as int, ti as int) as i64,
                y: spec_tile_world_y(old(self).chunks@[ci as int].y as int, ti as int) as i64,
            }),
        ensures
            final(self).wf(),
            final(self).seed == old(self).seed,
            final(self)@.active == old(self)@.active,
            final(self)@.chunks =~= old(self)@.chunks.update(
                ci as int,
                spec_with_tile(old(self)@.chunks[ci as int], ti as int, b@),
            ),
            final(self).chunks@.len() == old(self).chunks@.len(),
    {
        proof {
            assert(old(self)@.chunks[ci as int] == old(self).chunks@[ci as int]@);
        }
        let c: &mut Chunk = &mut self.chunks[ci];
        c.tiles[ti] = b;
        proof {
            let cs0 = old(self)@.chunks;
            let cs1 = self@.chunks;
            assert(self.chunks@[ci as int]@.tiles =~= old(self).chunks@[ci as int]@.tiles.update(
                ti as int,
                b@,
            ));
            assert(cs1 =~= cs0.update(ci as int, spec_with_tile(cs0[ci as int], ti as int, b@)));
            assert forall|k: int|
                0 <= k < self.active_chunks@.len() implies spec_has_chunk(
                self@.chunks,
                (#[trigger] self.active_chunks@[k]).x as int,
                self.active_chunks@[k].y as int,
            ) by {
                let v = self.active_chunks@[k];
                lemma_chunk_index_of_update(
                    cs0,
                    ci as int,
                    spec_with_tile(cs0[ci as int], ti as int, b@),
                    v.x as int,
                    v.y as int,
                );
            }
        }
    }

    /// Clear the block at world cell `(x, y)` back to air, in place; a
    /// missing chunk makes this a no-op.
    pub fn remove_block(&mut self, x: i64, y: i64)
        requires
            old(self).wf(),
            i64::MIN < x,
            i64::MIN < y,
        ensures
            final(self).wf(),
            final(self).seed == old(self).seed,
            final(self)@.active == old(self)@.active,
            ({
                let cx = x as int / (CHUNK_SIZE as int);
                let cy = y as int / (CHUNK_SIZE as int);
                if spec_has_chunk(old(self)@.chunks, cx, cy) {
                    final(self)@.chunks =~= old(self)@.chunks.update(
                        chunk_index_of(old(self)@.chunks, cx, cy),
                        spec_with_tile(
                            spec_chunk_at(old(self)@.chunks, cx, cy),
                            spec_tile_index(x as int, y as int),
                            spec_air_model(x as int, y as int),
                        ),
                    )
                } else {
                    final(self)@.chunks == old(self)@.chunks
                }
            }),
    {
        let cx = div_floor(x, CHUNK_SIZE);
        let cy = div_floor(y, CHUNK_SIZE);
        match self.find_chunk(cx, cy) {
            None => {},
            Some(ci) => {
                proof {
                    lemma_chunk_index_of_props(self@.chunks, cx as int, cy as int);
                    vstd::arithmetic::div_mod::lemma_fundamental_div_mod(
                        x as int,
                        CHUNK_SIZE as int,
                    );
                    vstd::arithmetic::div_mod::lemma_fundamental_div_mod(
                        y as int,
                        CHUNK_SIZE as int,
                    );
                    assert(self@.chunks[ci as int] == self.chunks@[ci as int]@);
                }
                let lx = rem_floor(x, CHUNK_SIZE);
                let ly = rem_floor(y, CHUNK_SIZE);
                let ti = (lx * CHUNK_SIZE + ly) as usize;
                let air = block_air(IVec2::new(x, y));
                proof {
                    assert(air@ == spec_air_model(x as int, y as int));
                }
                self.set_tile(ci, ti, air);
            },
        }
    }

    /// Passive regeneration: raise the health of the block at `(x, y)` by
    /// `amount`, clamped at its maximum; a missing chunk is a no-op.
    pub fn heal_block(&mut self, x: i64, y: i64, amount: i64)
        requires
            old(self).wf(),
            i64::MIN < x,
            i64::MIN < y,
            0 <= amount <= crate::block::HEALTH_LIMIT,
        ensures
            final(self).wf(),
            final(self).seed == old(self).seed,
            final(self)@.active == old(self)@.active,
            ({
                let cx = x as int / (CHUNK_SIZE as int);
                let cy = y as int / (CHUNK_SIZE as int);
                if spec_has_chunk(old(self)@.chunks, cx, cy) {
                    let b = spec_block_at(old(self)@.chunks, x as int, y as int);
                    let healed = if b.health + amount <= b.max_health {
                        (b.health + amount) as i64
                    } else {
                        b.max_health
                    };
                    final(self)@.chunks =~= old(self)@.chunks.update(
                        chunk_index_of(old(self)@.chunks, cx, cy),
                        spec_with_tile(
                            spec_chunk_at(old(self)@.chunks, cx, cy),
                            spec_tile_index(x as int, y as int),
                            spec_with_health(b, healed),
                        ),
                    )
                } else {
                    final(self)@.chunks == old(self)@.chunks
                }
            }),
    {
        let cx = div_floor(x, CHUNK_SIZE);
        let cy = div_floor(y, CHUNK_SIZE);
        match self.find_chunk(cx, cy) {
            None => {},
            Some(ci) => {
                proof {
                    lemma_chunk_index_of_props(self@.chunks, cx as int, cy as int);
                    assert(self@.chunks[ci as int] == self.chunks@[ci as int]@);
                }
                let lx = rem_floor(x, CHUNK_SIZE);
                let ly = rem_floor(y, CHUNK_SIZE);
                let ti = (lx * CHUNK_SIZE + ly) as usize;
                proof {
                    assert(self.chunks@[ci as int].tiles@[ti as int]@ == spec_block_at(
                        self@.chunks,
                        x as int,
                        y as int,
                    ));
                }
                let mut b = self.chunks[ci].tiles[ti].duplicate();
                b.health = if b.health + amount <= b.max_health {
                    b.health + amount
                } else {
                    b.max_health
                };
                self.set_tile(ci, ti, b);
            },
        }
    }
}


/// Bound on streaming center positions, in milli-units.
pub const POS_LIMIT: i64 = 1_000_000_000_000;

/// Bound on a streaming window extent, in milli-units.
pub const EXTENT_LIMIT: i64 = 1_000_000_000;

/// The chunk column a milli-unit position falls in.
pub open spec fn spec_center_chunk(p: int) -> int {
    p / ((CHUNK_SIZE * crate::utils::UNIT) as int)
}

/// Half-extent of a streaming window, in chunks: the extent over two
/// chunk widths, rounded up.
pub open spec fn spec_window_half(extent: int) -> int {
    (extent + 2 * (CHUNK_SIZE * crate::utils::UNIT) as int - 1) / (2 * (CHUNK_SIZE
        * crate::utils::UNIT) as int)
}

/// Whether chunk `(cx, cy)` lies in the rectangular window centered on the
/// milli-unit point `(x, y)` with extents `(w, h)`.
pub open spec fn spec_in_window(x: int, y: int, w: int, h: int, cx: int, cy: int) -> bool {
    &&& spec_center_chunk(x) - spec_window_half(w) <= cx <= spec_center_chunk(x)
        + spec_window_half(w)
    &&& spec_center_chunk(y) - spec_window_half(h) <= cy <= spec_center_chunk(y)
        + spec_window_half(h)
}

impl World {
    /// Ensure every chunk in the window around `(x, y)` exists, generating
    /// the missing ones on demand; nothing is ever evicted, and loaded
    /// chunks keep their contents.
    pub fn update_around_point(&mut self, x: i64, y: i64, load_width: i64, load_height: i64)
        requires
            old(self).wf(),
            -POS_LIMIT <= x <= POS_LIMIT,
            -POS_LIMIT <= y <= POS_LIMIT,
            0 <= load_width <= EXTENT_LIMIT,
            0 <= load_height <= EXTENT_LIMIT,
        ensures
            final(self).wf(),
            final(self).seed == old(self).seed,
            final(self)@.active == old(self)@.active,
            old(self)@.chunks.len() <= final(self)@.chunks.len(),
            final(self)@.chunks.take(old(self)@.chunks.len() as int) == old(self)@.chunks,
            forall|j: int|
                old(self)@.chunks.len() <= j < final(self)@.chunks.len()
                    ==> spec_is_generated_chunk(
                    #[trigger] final(self).chunks@[j],
                    old(self).seed,
                ),
            forall|cx: int, cy: int|
                #![auto]
                spec_in_window(
                    x as int,
                    y as int,
                    load_width as int,
                    load_height as int,
                    cx,
                    cy,
                ) ==> spec_has_chunk(final(self)@.chunks, cx, cy),
    {
        let ghost orig = self@.chunks;
        let span: i64 = CHUNK_SIZE * crate::utils::UNIT;
        let cx0 = div_floor(x, span);
        let cy0 = div_floor(y, span);
        let hw = div_ceil_nonneg(load_width, 2 * span);
        let hh = div_ceil_nonneg(load_height, 2 * span);
        proof {
            vstd::arithmetic::div_mod::lemma_div_is_ordered(x as int, POS_LIMIT as int, span as int);
            vstd::arithmetic::div_mod::lemma_div_is_ordered(-(POS_LIMIT as int), x as int, span as int);
            vstd::arithmetic::div_mod::lemma_div_is_ordered(y as int, POS_LIMIT as int, span as int);
            vstd::arithmetic::div_mod::lemma_div_is_ordered(-(POS_LIMIT as int), y as int, span as int);
            vstd::arithmetic::div_mod::lemma_div_is_ordered(
                load_width + 2 * span - 1,
                EXTENT_LIMIT + 2 * span - 1,
                2 * span as int,
            );
            vstd::arithmetic::div_mod::lemma_div_is_ordered(
                load_height + 2 * span - 1,
                EXTENT_LIMIT + 2 * span - 1,
                2 * span as int,
            );
        }
        let mut cy = cy0 - hh;
        while cy <= cy0 + hh
            invariant
                self.wf(),
                cy0 - hh <= cy,
                0 <= hw,
                0 <= hh,
                -CHUNK_COORD_LIMIT < cy0 - hh,
                cy0 + hh < CHUNK_COORD_LIMIT,
                -CHUNK_COORD_LIMIT < cx0 - hw,
                cx0 + hw < CHUNK_COORD_LIMIT,
                cx0 == spec_center_chunk(x as int),
                cy0 == spec_center_chunk(y as int),
                hw == spec_window_half(load_width as int),
                hh == spec_window_half(load_height as int),
                self.seed == old(self).seed,
                self.active_chunks@ == old(self).active_chunks@,
                orig == old(self)@.chunks,
                orig.len() <= self@.chunks.len(),
                self@.chunks.take(orig.len() as int) == orig,
                forall|j: int|
                    orig.len() <= j < self@.chunks.len() ==> spec_is_generated_chunk(
                        #[trigger] self.chunks@[j],
                        old(self).seed,
                    ),
                forall|ax: int, ay: int|
                    #![auto]
                    cx0 - hw <= ax <= cx0 + hw && cy0 - hh <= ay < cy ==> spec_has_chunk(
                        self@.chunks,
                        ax,
                        ay,
                    ),
            decreases cy0 + hh + 1 - cy,
        {
            let mut cx = cx0 - hw;
            while cx <= cx0 + hw
                invariant
                    self.wf(),
                    cx0 - hw <= cx,
                    cy0 - hh <= cy <= cy0 + hh,
                    0 <= hw,
                    0 <= hh,
                    -CHUNK_COORD_LIMIT < cy0 - hh,
                    cy0 + hh < CHUNK_COORD_LIMIT,
                    -CHUNK_COORD_LIMIT < cx0 - hw,
                    cx0 + hw < CHUNK_COORD_LIMIT,
                    self.seed == old(self).seed,
                    self.active_chunks@ == old(self).active_chunks@,
                    orig == old(self)@.chunks,
                    orig.len() <= self@.chunks.len(),
                    self@.chunks.take(orig.len() as int) == orig,
                    forall|j: int|
                        orig.len() <= j < self@.chunks.len() ==> spec_is_generated_chunk(
                            #[trigger] self.chunks@[j],
                            old(self).seed,
                        ),
                    forall|ax: int, ay: int|
                        #![auto]
                        cx0 - hw <= ax <= cx0 + hw && cy0 - hh <= ay < cy ==> spec_has_chunk(
                            self@.chunks,
                            ax,
                            ay,
                        ),
                    forall|ax: int|
                        #![auto]
                        cx0 - hw <= ax < cx ==> spec_has_chunk(self@.chunks, ax, cy as int),
                decreases cx0 + hw + 1 - cx,
            {
                if self.find_chunk(cx, cy).is_none() {
                    let ghost pre = self@.chunks;
                    let c = Chunk::new(self.seed, cx, cy);
                    proof {
                        lemma_chunk_index_of_props(pre, cx as int, cy as int);
                    }
                    self.chunks.push(c);
                    proof {
                        assert(self@.chunks =~= pre.push(c@));
                        assert forall|ax: int, ay: int|
                            spec_has_chunk(pre, ax, ay) implies #[trigger] spec_has_chunk(
                            self@.chunks,
                            ax,
                            ay,
                        ) by {
                            lemma_chunk_index_of_push(pre, c@, ax, ay);
                        }
                        lemma_chunk_index_of_push(pre, c@, cx as int, cy as int);
                        assert(self@.chunks.take(orig.len() as int) =~= pre.take(
                            orig.len() as int,
                        ));
                        assert(self.chunks@[self.chunks@.len() - 1] == c);
                        assert forall|k: int|
                            0 <= k < self.active_chunks@.len() implies spec_has_chunk(
                            self@.chunks,
                            (#[trigger] self.active_chunks@[k]).x as int,
                            self.active_chunks@[k].y as int,
                        ) by {
                            lemma_chunk_index_of_push(
                                pre,
                                c@,
                                self.active_chunks@[k].x as int,
                                self.active_chunks@[k].y as int,
                            );
                        }
                        assert forall|i: int, j: int|
                            #![trigger self.chunks@[i], self.chunks@[j]]
                            0 <= i < j < self.chunks@.len() implies !(self.chunks@[i].x
                            == self.chunks@[j].x && self.chunks@[i].y == self.chunks@[j].y) by {
                            if j == self.chunks@.len() - 1 {
                                assert(pre[i] == self.chunks@[i]@);
                            }
                        }
                    }
                } else {
                    proof {
                        lemma_chunk_index_of_props(self@.chunks, cx as int, cy as int);
                    }
                }
                cx += 1;
            }
            cy += 1;
        }
    }

    /// Recompute the active list: exactly those window chunks that are
    /// currently loaded, in scan order, each at most once.
    pub fn update_active_chunks(&mut self, x: i64, y: i64, get_width: i64, get_height: i64)
        requires
            old(self).wf(),
            -POS_LIMIT <= x <= POS_LIMIT,
            -POS_LIMIT <= y <= POS_LIMIT,
            0 <= get_width <= EXTENT_LIMIT,
            0 <= get_height <= EXTENT_LIMIT,
        ensures
            final(self).wf(),
            final(self).seed == old(self).seed,
            final(self)@.chunks == old(self)@.chunks,
            forall|k: int|
                0 <= k < final(self)@.active.len() ==> {
                    let v = #[trigger] final(self)@.active[k];
                    &&& spec_in_window(
                        x as int,
                        y as int,
                        get_width as int,
                        get_height as int,
                        v.x as int,
                        v.y as int,
                    )
                    &&& spec_has_chunk(final(self)@.chunks, v.x as int, v.y as int)
                },
            forall|cx: i64, cy: i64|
                #![auto]
                spec_in_window(
                    x as int,
                    y as int,
                    get_width as int,
                    get_height as int,
                    cx as int,
                    cy as int,
                ) && spec_has_chunk(final(self)@.chunks, cx as int, cy as int) ==> final(
                    self
                )@.active.contains(IVec2 { x: cx, y: cy }),
            final(self)@.active.no_duplicates(),
    {
        let span: i64 = CHUNK_SIZE * crate::utils::UNIT;
        let cx0 = div_floor(x, span);
        let cy0 = div_floor(y, span);
        let hw = div_ceil_nonneg(get_width, 2 * span);
        let hh = div_ceil_nonneg(get_height, 2 * span);
        proof {
            vstd::arithmetic::div_mod::lemma_div_is_ordered(x as int, POS_LIMIT as int, span as int);
            vstd::arithmetic::div_mod::lemma_div_is_ordered(-(POS_LIMIT as int), x as int, span as int);
            vstd::arithmetic::div_mod::lemma_div_is_ordered(y as int, POS_LIMIT as int, span as int);
            vstd::arithmetic::div_mod::lemma_div_is_ordered(-(POS_LIMIT as int), y as int, span as int);
            vstd::arithmetic::div_mod::lemma_div_is_ordered(
                get_width + 2 * span - 1,
                EXTENT_LIMIT + 2 * span - 1,
                2 * span as int,
            );
            vstd::arithmetic::div_mod::lemma_div_is_ordered(
                get_height + 2 * span - 1,
                EXTENT_LIMIT + 2 * span - 1,
                2 * span as int,
            );
        }
        let mut found: Vec<IVec2> = Vec::new();
        let mut cy = cy0 - hh;
        while cy <= cy0 + hh
            invariant
                self.wf(),
                cy0 - hh <= cy,
                cx0 == spec_center_chunk(x as int),
                cy0 == spec_center_chunk(y as int),
                hw == spec_window_half(get_width as int),
                hh == spec_window_half(get_height as int),
                0 <= hw,
                0 <= hh,
                -CHUNK_COORD_LIMIT < cy0 - hh,
                cy0 + hh < CHUNK_COORD_LIMIT,
                -CHUNK_COORD_LIMIT < cx0 - hw,
                cx0 + hw < CHUNK_COORD_LIMIT,
                forall|k: int|
                    0 <= k < found@.len() ==> {
                        let v = #[trigger] found@[k];
                        &&& cx0 - hw <= v.x <= cx0 + hw
                        &&& cy0 - hh <= v.y < cy
                        &&& v.y <= cy0 + hh
                        &&& spec_has_chunk(self@.chunks, v.x as int, v.y as int)
                    },
                forall|ax: i64, ay: i64|
                    #![auto]
                    cx0 - hw <= ax <= cx0 + hw && cy0 - hh <= ay < cy && spec_has_chunk(
                        self@.chunks,
                        ax as int,
                        ay as int,
                    ) ==> found@.contains(IVec2 { x: ax, y: ay }),
                found@.no_duplicates(),
            decreases cy0 + hh + 1 - cy,
        {
            let mut cx = cx0 - hw;
            while cx <= cx0 + hw
                invariant
                    self.wf(),
                    cx0 - hw <= cx,
                    cy0 - hh <= cy <= cy0 + hh,
                    0 <= hw,
                    0 <= hh,
                    -CHUNK_COORD_LIMIT < cy0 - hh,
                    cy0 + hh < CHUNK_COORD_LIMIT,
                    -CHUNK_COORD_LIMIT < cx0 - hw,
                    cx0 + hw < CHUNK_COORD_LIMIT,
                    forall|k: int|
                        0 <= k < found@.len() ==> {
                            let v = #[trigger] found@[k];
                            &&& cx0 - hw <= v.x <= cx0 + hw
                            &&& (cy0 - hh <= v.y < cy || (v.y == cy && v.x < cx))
                            &&& v.y <= cy0 + hh
                            &&& spec_has_chunk(self@.chunks, v.x as int, v.y as int)
                        },
                    forall|ax: i64, ay: i64|
                        #![auto]
                        cx0 - hw <= ax <= cx0 + hw && cy0 - hh <= ay < cy && spec_has_chunk(
                            self@.chunks,
                            ax as int,
                            ay as int,
                        ) ==> found@.contains(IVec2 { x: ax, y: ay }),
                    forall|ax: i64|
                        #![auto]
                        cx0 - hw <= ax < cx && spec_has_chunk(self@.chunks, ax as int, cy as int)
                            ==> found@.contains(IVec2 { x: ax, y: cy }),
                    found@.no_duplicates(),
                decreases cx0 + hw + 1 - cx,
            {
                if self.find_chunk(cx, cy).is_some() {
                    let ghost pre = found@;
                    found.push(IVec2 { x: cx, y: cy });
                    proof {
                        assert(found@[found@.len() - 1] == (IVec2 { x: cx, y: cy }));
                        assert(forall|k: int|
                            0 <= k < pre.len() ==> found@[k] == #[trigger] pre[k]);
                        assert(forall|k: int|
                            0 <= k < pre.len() ==> (#[trigger] pre[k]) != (IVec2 {
                                x: cx,
                                y: cy,
                            }));
                    }
                }
                cx += 1;
            }
            cy += 1;
        }
        proof {
            assert forall|k: int| 0 <= k < found@.len() implies spec_in_window(
                x as int,
                y as int,
                get_width as int,
                get_height as int,
                (#[trigger] found@[k]).x as int,
                found@[k].y as int,
            ) && spec_has_chunk(self@.chunks, found@[k].x as int, found@[k].y as int) by {
                assert(found@[k].y < cy);
            }
            assert forall|cx2: i64, cy2: i64|
                #![auto]
                spec_in_window(
                    x as int,
                    y as int,
                    get_width as int,
                    get_height as int,
                    cx2 as int,
                    cy2 as int,
                ) && spec_has_chunk(self@.chunks, cx2 as int, cy2 as int) implies found@.contains(
                IVec2 { x: cx2, y: cy2 },
            ) by {
                assert(cy0 - hh <= cy2 < cy);
            }
        }
        self.active_chunks = found;
    }

    /// The loaded chunks behind each active coordinate, in active order.
    pub fn get_active_chunks(&self) -> (r: Vec<&Chunk>)
        requires
            self.wf(),
        ensures
            r@.len() == self@.active.len(),
            forall|k: int|
                0 <= k < r@.len() ==> (#[trigger] r@[k])@ == spec_chunk_at(
                    self@.chunks,
                    self@.active[k].x as int,
                    self@.active[k].y as int,
                ) && r@[k].wf(),
    {
        let mut r: Vec<&Chunk> = Vec::new();
        let n = self.active_chunks.len();
        let mut i: usize = 0;
        while i < n
            invariant
                self.wf(),
                i <= n,
                n == self@.active.len(),
                r@.len() == i,
                forall|k: int|
                    0 <= k < i ==> (#[trigger] r@[k])@ == spec_chunk_at(
                        self@.chunks,
                        self@.active[k].x as int,
                        self@.active[k].y as int,
                    ) && r@[k].wf(),
            decreases n - i,
        {
            let v = self.active_chunks[i];
            let idx = match self.find_chunk(v.x, v.y) {
                Some(ci) => ci,
                None => {
                    proof {
                        assert(spec_has_chunk(self@.chunks, v.x as int, v.y as int));
                        assert(false);
                    }
                    0
                },
            };
            proof {
                assert(self@.chunks[idx as int] == self.chunks@[idx as int]@);
            }
            r.push(&self.chunks[idx]);
            i += 1;
        }
        r
    }
}


/// The outcome of one mining strike.
#[derive(Clone, Copy, Debug, PartialEq, Eq, Structural)]
pub enum HitOutcome {
    /// The owning chunk is not loaded; nothing happened.
    NotFound,
    /// The block carries no mining interaction flag; nothing happened.
    Ignored,
    /// The block lost health and still stands.
    Damaged,
    /// The block's health reached zero: it dropped its item and was
    /// replaced by air.
    Broken,
}

/// The damage one strike deals: a tool below the block's required level
/// halves the raw damage but never blocks mining outright.
pub open spec fn spec_effective_damage(damage: int, tool_level: u32, required: u32) -> int {
    if (tool_level as int) < required {
        damage / 2
    } else {
        damage
    }
}

/// The complete effect of one strike at world cell `(x, y)` on the loaded
/// chunks and the striker's storage: which block is hit, how much health
/// it loses, and on breaking, the replacement by air and the awarded drop.
pub open spec fn spec_hit_block(
    chunks: Seq<ChunkModel>,
    inv: Seq<Option<Item>>,
    stash: Seq<Item>,
    x: int,
    y: int,
    damage: i64,
    tool_level: u32,
) -> (Seq<ChunkModel>, Seq<Option<Item>>, Seq<Item>, HitOutcome) {
    let cx = x / (CHUNK_SIZE as int);
    let cy = y / (CHUNK_SIZE as int);
    if !spec_has_chunk(chunks, cx, cy) {
        (chunks, inv, stash, HitOutcome::NotFound)
    } else {
        let ci = chunk_index_of(chunks, cx, cy);
        let ti = spec_tile_index(x, y);
        let b = chunks[ci].tiles[ti];
        if !spec_can_be_hit(b.flags) {
            (chunks, inv, stash, HitOutcome::Ignored)
        } else {
            let dmg = spec_effective_damage(damage as int, tool_level, b.required_level);
            if b.health - dmg <= 0 {
                let cleared = chunks.update(
                    ci,
                    spec_with_tile(chunks[ci], ti, spec_air_model(x, y)),
                );
                match b.drop_item {
                    Some(n) => {
                        let added = spec_add_items(inv, spec_item_from_name(n, 1));
                        (
                            cleared,
                            added.0,
                            if added.1.amount > 0 {
                                stash.push(added.1)
                            } else {
                                stash
                            },
                            HitOutcome::Broken,
                        )
                    },
                    None => (cleared, inv, stash, HitOutcome::Broken),
                }
            } else {
                (
                    chunks.update(
                        ci,
                        spec_with_tile(
                            chunks[ci],
                            ti,
                            spec_with_health(b, (b.health - dmg) as i64),
                        ),
                    ),
                    inv,
                    stash,
                    HitOutcome::Damaged,
                )
            }
        }
    }
}

impl World {
    /// One mining strike at world cell `(x, y)` by `player`: gated by the
    /// block's interaction flags, damage halved below the required tool
    /// level, and a broken block replaced in place by air after awarding
    /// one unit of its drop item.
    pub fn hit_block(&mut self, x: i64, y: i64, player: &mut Player) -> (r: HitOutcome)
        requires
            old(self).wf(),
            old(player).wf(),
            i64::MIN < x,
            i64::MIN < y,
        ensures
            final(self).wf(),
            final(player).wf(),
            final(self).seed == old(self).seed,
            final(self)@.active == old(self)@.active,
            ({
                let effect = spec_hit_block(
                    old(self)@.chunks,
                    old(player).inventory@,
                    old(player).stash@,
                    x as int,
                    y as int,
                    old(player).mining_damage,
                    old(player).tool_level,
                );
                &&& final(self)@.chunks == effect.0
                &&& final(player).inventory@ == effect.1
                &&& final(player).stash@ == effect.2
                &&& r == effect.3
            }),
            final(player).pos == old(player).pos,
            final(player).velocity == old(player).velocity,
            final(player).look_dir == old(player).look_dir,
            final(player).last_tick_block_hit == old(player).last_tick_block_hit,
            final(player).block_hit_delay == old(player).block_hit_delay,
            final(player).mining_damage == old(player).mining_damage,
            final(player).tool_level == old(player).tool_level,
            final(player).health == old(player).health,
            final(player).max_health == old(player).max_health,
            final(player).active_inventory_slot == old(player).active_inventory_slot,
            final(player).weaknesses == old(player).weaknesses,
    {
        let cx = div_floor(x, CHUNK_SIZE);
        let cy = div_floor(y, CHUNK_SIZE);
        match self.find_chunk(cx, cy) {
            None => HitOutcome::NotFound,
            Some(ci) => {
                proof {
                    lemma_chunk_index_of_props(self@.chunks, cx as int, cy as int);
                    vstd::arithmetic::div_mod::lemma_fundamental_div_mod(
                        x as int,
                        CHUNK_SIZE as int,
                    );
                    vstd::arithmetic::div_mod::lemma_fundamental_div_mod(
                        y as int,
                        CHUNK_SIZE as int,
                    );
                    assert(self@.chunks[ci as int] == self.chunks@[ci as int]@);
                }
                let lx = rem_floor(x, CHUNK_SIZE);
                let ly = rem_floor(y, CHUNK_SIZE);
                let ti = (lx * CHUNK_SIZE + ly) as usize;
                proof {
                    assert(self.chunks@[ci as int].tiles@[ti as int]@ == self@.chunks[
                        ci as int].tiles[ti as int]);
                }
                if !self.chunks[ci].tiles[ti].can_be_hit() {
                    HitOutcome::Ignored
                } else {
                    let mut damage = player.calculate_mining_speed();
                    if player.tool_level < self.chunks[ci].tiles[ti].required_level {
                        damage = ((damage as u64) / 2) as i64;
                    }
                    let health = self.chunks[ci].tiles[ti].health;
                    if health - damage <= 0 {
                        if let Some(name) = self.chunks[ci].tiles[ti].drop_item {
                            player.add_item(item_from_name(name, 1));
                        }
                        let air = block_air(IVec2::new(x, y));
                        proof {
                            assert(air@ == spec_air_model(x as int, y as int));
                        }
                        self.set_tile(ci, ti, air);
                        HitOutcome::Broken
                    } else {
                        let mut nb = self.chunks[ci].tiles[ti].duplicate();
                        nb.health = health - damage;
                        self.set_tile(ci, ti, nb);
                        HitOutcome::Damaged
                    }
                }
            },
        }
    }
}


/// Tool-level gate law: a tool below the block's required level deals
/// exactly half the raw damage; at or above it, full damage applies.
pub proof fn lemma_tool_level_halving(damage: int, tool_level: u32, required: u32)
    ensures
        (tool_level as int) < required ==> spec_effective_damage(damage, tool_level, required)
            == damage / 2,
        (tool_level as int) >= required ==> spec_effective_damage(damage, tool_level, required)
            == damage,
{
}

/// Mining monotonicity law: a strike on a hittable block with positive
/// effective damage strictly lowers its health; once the health would
/// reach zero the block becomes air at the same position (unhittable, no
/// health), and one unit of its drop item goes to the striker's storage.
pub proof fn lemma_mining_monotonic(
    chunks: Seq<ChunkModel>,
    inv: Seq<Option<Item>>,
    stash: Seq<Item>,
    x: int,
    y: int,
    damage: i64,
    tool_level: u32,
)
    requires
        spec_has_chunk(chunks, x / (CHUNK_SIZE as int), y / (CHUNK_SIZE as int)),
        0 <= spec_tile_index(x, y) < spec_chunk_at(
            chunks,
            x / (CHUNK_SIZE as int),
            y / (CHUNK_SIZE as int),
        ).tiles.len(),
        spec_can_be_hit(spec_block_at(chunks, x, y).flags),
        spec_effective_damage(
            damage as int,
            tool_level,
            spec_block_at(chunks, x, y).required_level,
        ) >= 1,
    ensures
        ({
            let b = spec_block_at(chunks, x, y);
            let dmg = spec_effective_damage(damage as int, tool_level, b.required_level);
            let e = spec_hit_block(chunks, inv, stash, x, y, damage, tool_level);
            &&& b.health - dmg > 0 ==> {
                &&& e.3 == HitOutcome::Damaged
                &&& spec_block_at(e.0, x, y) == spec_with_health(b, (b.health - dmg) as i64)
                &&& spec_block_at(e.0, x, y).health < b.health
                &&& e.1 == inv
                &&& e.2 == stash
            }
            &&& b.health - dmg <= 0 ==> {
                &&& e.3 == HitOutcome::Broken
                &&& spec_block_at(e.0, x, y) == spec_air_model(x, y)
                &&& !spec_can_be_hit(spec_block_at(e.0, x, y).flags)
                &&& spec_block_at(e.0, x, y).health == 0
                &&& spec_block_at(e.0, x, y).block_type == BlockName::Air
                &&& (b.drop_item matches Some(n) ==> (e.1, e.2) == ({
                    let added = spec_add_items(inv, spec_item_from_name(n, 1));
                    (
                        added.0,
                        if added.1.amount > 0 {
                            stash.push(added.1)
                        } else {
                            stash
                        },
                    )
                }))
                &&& (b.drop_item is None ==> e.1 == inv && e.2 == stash)
            }
        }),
{
    let cx = x / (CHUNK_SIZE as int);
    let cy = y / (CHUNK_SIZE as int);
    let ci = chunk_index_of(chunks, cx, cy);
    let ti = spec_tile_index(x, y);
    let b = chunks[ci].tiles[ti];
    lemma_chunk_index_of_props(chunks, cx, cy);
    let dmg = spec_effective_damage(damage as int, tool_level, b.required_level);
    if b.health - dmg > 0 {
        let nc = spec_with_tile(chunks[ci], ti, spec_with_health(b, (b.health - dmg) as i64));
        lemma_chunk_index_of_update(chunks, ci, nc, cx, cy);
    } else {
        let nc = spec_with_tile(chunks[ci], ti, spec_air_model(x, y));
        lemma_chunk_index_of_update(chunks, ci, nc, cx, cy);
    }
}

} // verus!
