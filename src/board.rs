use vstd::arithmetic::div_mod::{
    lemma_fundamental_div_mod, lemma_fundamental_div_mod_converse, lemma_mod_add_multiples_vanish,
    lemma_mod_bound,
    lemma_mod_multiples_vanish, lemma_mod_sub_multiples_vanish, lemma_small_mod,
    lemma_sub_mod_noop,
};
use vstd::prelude::*;

use crate::constant::{
    BARRIER_DENOMINATOR, BARRIER_NUMERATOR, BOARD_COUNT_X, BOARD_COUNT_Z, BOARD_HEIGHT_RANDOM,
    BOARD_ROWS_BEHIND, BOARD_SIZE, BOARD_Z_OFFSET, LANE_LIMIT, LENGTH_LIMIT, ROW_LIMIT,
    WORLD_LIMIT,
};
use crate::player::lemma_mul_within;

verus! {

/// Relies on rand's `Rng::gen_range` on `thread_rng()` with the range
/// `low..high`: a value drawn from that range. It panics on an empty range,
/// and `thread_rng` only if the operating system's generator cannot be read.
#[verifier::external_body]
fn draw_in_range(low: i64, high: i64) -> (r: i64)
    requires
        low < high,
    ensures
        low <= r < high,
{
    rand::Rng::gen_range(&mut rand::thread_rng(), low..high)
}

/// Relies on rand's `Rng::gen_ratio` on `thread_rng()`: true with a chance of
/// `numerator` in `denominator`; never when the numerator is 0 and always when
/// it equals the denominator. It panics on a zero denominator or a numerator
/// above it, and `thread_rng` only if the operating system's generator cannot
/// be read.
#[verifier::external_body]
fn draw_ratio(numerator: u32, denominator: u32) -> (r: bool)
    requires
        0 < denominator,
        numerator <= denominator,
    ensures
        numerator == 0 ==> !r,
        numerator == denominator ==> r,
{
    rand::Rng::gen_ratio(&mut rand::thread_rng(), numerator, denominator)
}

/// The layout of the track and how it is recycled.
#[derive(Debug, Clone, Copy, PartialEq, Eq, Structural)]
pub struct BoardConfig {
    /// Lanes on each side of the centre lane (`L`).
    pub lane_half_count: i32,
    /// Rows of bricks in the pool (`N`).
    pub rows: i64,
    /// Rows laid behind the start line (at positive z) at setup.
    pub rows_behind: i64,
    /// Length of a brick along z, and its width (nm).
    pub brick_size: i64,
    /// How far behind the knight a brick may lie before it is recycled (nm).
    pub recycle_margin: i64,
    /// Height jitter (nm): heights are drawn from `[-2 * jitter, 0)`.
    pub height_jitter: i64,
    /// A brick carries a barrier with chance `numerator` in `denominator`.
    pub barrier_numerator: u32,
    pub barrier_denominator: u32,
}

impl BoardConfig {
    /// The configuration is within the bounds that keep all arithmetic exact.
    pub open spec fn valid(self) -> bool {
        &&& 0 <= self.lane_half_count <= LANE_LIMIT
        &&& 1 <= self.rows <= ROW_LIMIT
        &&& 0 <= self.rows_behind <= self.rows
        &&& 0 < self.brick_size <= LENGTH_LIMIT
        &&& 0 <= self.recycle_margin <= LENGTH_LIMIT
        &&& 0 < self.height_jitter <= LENGTH_LIMIT
        &&& 0 < self.barrier_denominator
        &&& self.barrier_numerator <= self.barrier_denominator
    }

    pub fn is_valid(&self) -> (r: bool)
        ensures
            r == self.valid(),
    {
        0 <= self.lane_half_count && self.lane_half_count <= LANE_LIMIT && 1 <= self.rows
            && self.rows <= ROW_LIMIT && 0 <= self.rows_behind && self.rows_behind <= self.rows
            && 0 < self.brick_size && self.brick_size <= LENGTH_LIMIT && 0 <= self.recycle_margin
            && self.recycle_margin <= LENGTH_LIMIT && 0 < self.height_jitter
            && self.height_jitter <= LENGTH_LIMIT && 0 < self.barrier_denominator
            && self.barrier_numerator <= self.barrier_denominator
    }

    /// Number of lanes, `2 * L + 1`.
    pub open spec fn lanes(self) -> int {
        2 * self.lane_half_count + 1
    }

    /// Row of the most forward bricks at setup.
    pub open spec fn first_row(self) -> int {
        self.rows_behind - self.rows
    }

    /// Row slot of the `k`-th brick: its row at setup, counted from the
    /// first row.
    pub open spec fn slot(self, k: int) -> int {
        k / self.lanes()
    }

    /// Lane of the `k`-th brick.
    pub open spec fn lane_of(self, k: int) -> int {
        k % self.lanes() - self.lane_half_count
    }

    /// A brick on `row` lies behind the knight at `knight_z` by more than the
    /// margin (the knight runs toward negative z).
    pub open spec fn is_behind(self, row: int, knight_z: int) -> bool {
        row * self.brick_size > knight_z + self.recycle_margin
    }

    /// The row a brick on `row` has after a recycling pass: moved the whole
    /// pool length forward when behind, else kept.
    pub open spec fn recycled_row(self, row: int, knight_z: int) -> int {
        if self.is_behind(row, knight_z) {
            row - self.rows
        } else {
            row
        }
    }

    /// The most forward row of the pool after a recycling pass, when it was
    /// `front` before.
    pub open spec fn front_after(self, front: int, knight_z: int) -> int {
        let last_kept = (knight_z + self.recycle_margin) / (self.brick_size as int);
        if last_kept < front {
            front - self.rows
        } else if last_kept >= front + self.rows - 1 {
            front
        } else {
            last_kept + 1 - self.rows
        }
    }

    /// `row` is the row of slot `k` up to whole pool lengths.
    pub open spec fn on_slot(self, row: int, k: int) -> bool {
        (row - self.first_row() - self.slot(k)) % (self.rows as int) == 0
    }

    /// The height of a brick is within the jitter range.
    pub open spec fn height_ok(self, height: int) -> bool {
        -2 * self.height_jitter <= height < 0
    }
}

impl Default for BoardConfig {
    fn default() -> (r: Self)
        ensures
            r == (BoardConfig {
                lane_half_count: BOARD_COUNT_X,
                rows: BOARD_COUNT_Z,
                rows_behind: BOARD_ROWS_BEHIND,
                brick_size: BOARD_SIZE,
                recycle_margin: BOARD_Z_OFFSET,
                height_jitter: BOARD_HEIGHT_RANDOM,
                barrier_numerator: BARRIER_NUMERATOR,
                barrier_denominator: BARRIER_DENOMINATOR,
            }),
            r.valid(),
    {
        BoardConfig {
            lane_half_count: BOARD_COUNT_X,
            rows: BOARD_COUNT_Z,
            rows_behind: BOARD_ROWS_BEHIND,
            brick_size: BOARD_SIZE,
            recycle_margin: BOARD_Z_OFFSET,
            height_jitter: BOARD_HEIGHT_RANDOM,
            barrier_numerator: BARRIER_NUMERATOR,
            barrier_denominator: BARRIER_DENOMINATOR,
        }
    }
}

/// What a brick carries.
#[derive(Debug, Clone, Copy, PartialEq, Eq, Structural)]
pub struct BrickConfig {
    pub has_barrier: bool,
}

/// One track segment: its row along z (its z is `row * brick_size`), its
/// lane (its x is `lane * brick_size`), its height offset (nm) and what it
/// carries.
#[derive(Debug, Clone, Copy, PartialEq, Eq, Structural)]
pub struct Brick {
    pub row: i64,
    pub lane: i32,
    pub height: i64,
    pub config: BrickConfig,
}

/// A brick height from a value `d` drawn from `[-jitter, jitter)`: lowered
/// by the jitter, so that heights lie in `[-2 * jitter, 0)`.
pub fn height_from_draw(cfg: &BoardConfig, d: i64) -> (r: i64)
    requires
        cfg.valid(),
        -cfg.height_jitter <= d < cfg.height_jitter,
    ensures
        r == d - cfg.height_jitter,
        cfg.height_ok(r as int),
{
    d - cfg.height_jitter
}

/// A random brick height, drawn from `[-2 * jitter, 0)`.
pub fn random_height(cfg: &BoardConfig) -> (r: i64)
    requires
        cfg.valid(),
    ensures
        cfg.height_ok(r as int),
{
    let d = draw_in_range(-cfg.height_jitter, cfg.height_jitter);
    height_from_draw(cfg, d)
}

/// Whether a new brick carries a barrier, with the configured chance.
pub fn random_barrier(cfg: &BoardConfig) -> (r: bool)
    requires
        cfg.valid(),
    ensures
        cfg.barrier_numerator == 0 ==> !r,
        cfg.barrier_numerator == cfg.barrier_denominator ==> r,
{
    draw_ratio(cfg.barrier_numerator, cfg.barrier_denominator)
}

/// The barrier flag respects the ends of the configured chance: never at a
/// zero numerator, always when it equals the denominator.
pub open spec fn barrier_ok(cfg: BoardConfig, has_barrier: bool) -> bool {
    &&& cfg.barrier_numerator == 0 ==> !has_barrier
    &&& cfg.barrier_numerator == cfg.barrier_denominator ==> has_barrier
}

/// `n` random heights and `n` random barrier flags, one of each per brick.
fn draw_bricks(cfg: &BoardConfig, n: usize) -> (r: (Vec<i64>, Vec<bool>))
    requires
        cfg.valid(),
    ensures
        r.0@.len() == n,
        r.1@.len() == n,
        forall|k: int| 0 <= k < n ==> cfg.height_ok(#[trigger] r.0@[k] as int),
        forall|k: int| 0 <= k < n ==> barrier_ok(*cfg, #[trigger] r.1@[k]),
{
    let mut heights: Vec<i64> = Vec::new();
    let mut barriers: Vec<bool> = Vec::new();
    let mut k: usize = 0;
    while k < n
        invariant
            cfg.valid(),
            k <= n,
            heights@.len() == k,
            barriers@.len() == k,
            forall|j: int| 0 <= j < k ==> cfg.height_ok(#[trigger] heights@[j] as int),
            forall|j: int| 0 <= j < k ==> barrier_ok(*cfg, #[trigger] barriers@[j]),
        decreases n - k,
    {
        heights.push(random_height(cfg));
        barriers.push(random_barrier(cfg));
        k = k + 1;
    }
    (heights, barriers)
}

/// Which of the two barrier scenes a barrier shows: either, with even chance.
pub fn random_planet() -> bool {
    draw_ratio(1, 2)
}

impl Brick {
    /// Whether this brick lies behind the knight at `knight_z` by more than
    /// the margin.
    pub fn is_behind(&self, cfg: &BoardConfig, knight_z: i64) -> (r: bool)
        requires
            cfg.valid(),
            -WORLD_LIMIT <= knight_z <= WORLD_LIMIT,
        ensures
            r == cfg.is_behind(self.row as int, knight_z as int),
    {
        proof {
            lemma_mul_within(self.row as int, cfg.brick_size as int, i64::MAX + 1, LENGTH_LIMIT as int);
        }
        (self.row as i128) * (cfg.brick_size as i128) > (knight_z as i128) + (cfg.recycle_margin as i128)
    }

    /// Moves this brick the whole pool length forward, with a new height and
    /// barrier.
    pub fn recycle(&mut self, cfg: &BoardConfig, height: i64, has_barrier: bool)
        requires
            cfg.valid(),
            old(self).row - cfg.rows >= i64::MIN,
        ensures
            *final(self) == (Brick {
                row: (old(self).row - cfg.rows) as i64,
                lane: old(self).lane,
                height,
                config: BrickConfig { has_barrier },
            }),
    {
        self.row = self.row - cfg.rows;
        self.height = height;
        self.config = BrickConfig { has_barrier };
    }
}

/// The fixed pool of bricks. Brick `k` keeps lane `k % lanes - L`; the rows
/// of the pool always form one run of `N` consecutive rows starting at
/// `front_row`, each row holding one brick per lane.
pub struct Board {
    pub bricks: Vec<Brick>,
    pub front_row: Ghost<int>,
}

impl Board {
    pub open spec fn wf(self, cfg: BoardConfig) -> bool {
        let front = self.front_row@;
        &&& self.bricks@.len() == cfg.rows * cfg.lanes()
        &&& -WORLD_LIMIT - cfg.rows <= front <= cfg.rows_behind - cfg.rows
        &&& forall|k: int|
            0 <= k < self.bricks@.len() ==> {
                let b = #[trigger] self.bricks@[k];
                &&& b.lane == cfg.lane_of(k)
                &&& front <= b.row < front + cfg.rows
                &&& cfg.on_slot(b.row as int, k)
                &&& cfg.height_ok(b.height as int)
            }
    }

    /// Lays out the pool: `N` rows from `rows_behind - N` up to
    /// `rows_behind - 1`, one brick per lane in each, row by row and lane by
    /// lane from `-L`; brick `k` gets height `heights[k]` and barrier flag
    /// `barriers[k]`.
    pub fn setup_with(cfg: &BoardConfig, heights: &Vec<i64>, barriers: &Vec<bool>) -> (r: Board)
        requires
            cfg.valid(),
            heights@.len() == cfg.rows * cfg.lanes(),
            barriers@.len() == cfg.rows * cfg.lanes(),
            forall|k: int| 0 <= k < heights@.len() ==> cfg.height_ok(#[trigger] heights@[k] as int),
        ensures
            r.wf(*cfg),
            r.front_row@ == cfg.first_row(),
            r.bricks@.len() == cfg.rows * cfg.lanes(),
            forall|k: int|
                0 <= k < r.bricks@.len() ==> #[trigger] r.bricks@[k] == (Brick {
                    row: (cfg.first_row() + cfg.slot(k)) as i64,
                    lane: cfg.lane_of(k) as i32,
                    height: heights@[k],
                    config: BrickConfig { has_barrier: barriers@[k] },
                }),
    {
        let half = cfg.lane_half_count;
        let lanes: i64 = 2 * half as i64 + 1;
        let first: i64 = cfg.rows_behind - cfg.rows;
        let mut bricks: Vec<Brick> = Vec::new();
        let mut j: i64 = 0;
        proof {
            lemma_mul_within(cfg.rows as int, lanes as int, ROW_LIMIT as int, 2 * LANE_LIMIT + 1);
        }
        while j < cfg.rows
            invariant
                cfg.valid(),
                half == cfg.lane_half_count,
                lanes == cfg.lanes(),
                first == cfg.first_row(),
                0 <= j <= cfg.rows,
                bricks@.len() == j * lanes,
                heights@.len() == cfg.rows * cfg.lanes(),
                barriers@.len() == cfg.rows * cfg.lanes(),
                forall|k: int| 0 <= k < heights@.len() ==> cfg.height_ok(#[trigger] heights@[k] as int),
                forall|k: int|
                    0 <= k < bricks@.len() ==> {
                        let b = #[trigger] bricks@[k];
                        &&& b.lane == cfg.lane_of(k)
                        &&& b.row == first + cfg.slot(k)
                        &&& b.height == heights@[k]
                        &&& b.config.has_barrier == barriers@[k]
                        &&& cfg.height_ok(b.height as int)
                    },
            decreases cfg.rows - j,
        {
            let mut i: i32 = -half;
            while i <= half
                invariant
                    cfg.valid(),
                    half == cfg.lane_half_count,
                    lanes == cfg.lanes(),
                    first == cfg.first_row(),
                    0 <= j < cfg.rows,
                    -half <= i <= half + 1,
                    bricks@.len() == j * lanes + (i + half),
                    heights@.len() == cfg.rows * cfg.lanes(),
                    barriers@.len() == cfg.rows * cfg.lanes(),
                    forall|k: int| 0 <= k < heights@.len() ==> cfg.height_ok(#[trigger] heights@[k] as int),
                    forall|k: int|
                        0 <= k < bricks@.len() ==> {
                            let b = #[trigger] bricks@[k];
                            &&& b.lane == cfg.lane_of(k)
                            &&& b.row == first + cfg.slot(k)
                            &&& b.height == heights@[k]
                            &&& b.config.has_barrier == barriers@[k]
                            &&& cfg.height_ok(b.height as int)
                        },
                decreases half + 1 - i,
            {
                let n = bricks.len();
                proof {
                    assert(n < cfg.rows * lanes) by (nonlinear_arith)
                        requires
                            n == j * lanes + (i + half),
                            0 <= i + half < lanes,
                            j < cfg.rows,
                            lanes > 0,
                    ;
                }
                let height = heights[n];
                let has_barrier = barriers[n];
                proof {
                    lemma_fundamental_div_mod_converse(
                        bricks@.len() as int,
                        lanes as int,
                        j as int,
                        (i + half) as int,
                    );
                }
                bricks.push(Brick { row: first + j, lane: i, height, config: BrickConfig { has_barrier } });
                i = i + 1;
            }
            proof {
                assert((j + 1) * lanes == j * lanes + lanes) by (nonlinear_arith);
            }
            j = j + 1;
        }
        let r = Board { bricks, front_row: Ghost(first as int) };
        proof {
            assert forall|k: int| 0 <= k < r.bricks@.len() implies {
                let b = #[trigger] r.bricks@[k];
                &&& r.front_row@ <= b.row < r.front_row@ + cfg.rows
                &&& cfg.on_slot(b.row as int, k)
            } by {
                let l: int = cfg.lanes();
                lemma_fundamental_div_mod(k, l);
                assert(0 <= k % l < l);
                assert(cfg.slot(k) < cfg.rows) by (nonlinear_arith)
                    requires
                        k == l * cfg.slot(k) + k % l,
                        k < cfg.rows * l,
                        0 <= k % l,
                        l > 0,
                ;
                assert(cfg.slot(k) >= 0) by (nonlinear_arith)
                    requires
                        k == l * cfg.slot(k) + k % l,
                        k >= 0,
                        k % l < l,
                        l > 0,
                ;
                lemma_small_mod(0, cfg.rows as nat);
                assert(r.bricks@[k].row - cfg.first_row() - cfg.slot(k) == 0);
            }
        }
        r
    }

    /// Lays out the pool as `setup_with` does, with random heights and
    /// barriers.
    pub fn setup(cfg: &BoardConfig) -> (r: Board)
        requires
            cfg.valid(),
        ensures
            r.wf(*cfg),
            r.front_row@ == cfg.first_row(),
            forall|k: int|
                0 <= k < r.bricks@.len() ==> {
                    let b = #[trigger] r.bricks@[k];
                    &&& b.row == cfg.first_row() + cfg.slot(k)
                    &&& barrier_ok(*cfg, b.config.has_barrier)
                },
    {
        proof {
            lemma_mul_within(cfg.rows as int, cfg.lanes(), ROW_LIMIT as int, 2 * LANE_LIMIT + 1);
        }
        let count: usize = (cfg.rows * (2 * cfg.lane_half_count as i64 + 1)) as usize;
        let (heights, barriers) = draw_bricks(cfg, count);
        Board::setup_with(cfg, &heights, &barriers)
    }

    /// Recycles the track behind the knight at `knight_z`: every brick `k`
    /// that lies behind it by more than the margin moves the whole pool
    /// length forward and takes height `heights[k]` and barrier flag
    /// `barriers[k]`; the others stay as they are.
    pub fn recycle_behind(
        &mut self,
        cfg: &BoardConfig,
        knight_z: i64,
        heights: &Vec<i64>,
        barriers: &Vec<bool>,
    )
        requires
            cfg.valid(),
            old(self).wf(*cfg),
            -WORLD_LIMIT <= knight_z <= WORLD_LIMIT,
            heights@.len() == old(self).bricks@.len(),
            barriers@.len() == old(self).bricks@.len(),
            forall|k: int| 0 <= k < heights@.len() ==> cfg.height_ok(#[trigger] heights@[k] as int),
        ensures
            final(self).wf(*cfg),
            final(self).front_row@ == cfg.front_after(old(self).front_row@, knight_z as int),
            final(self).bricks@.len() == old(self).bricks@.len(),
            forall|k: int|
                0 <= k < old(self).bricks@.len() ==> {
                    let b0 = old(self).bricks@[k];
                    let b1 = #[trigger] final(self).bricks@[k];
                    &&& b1.row == cfg.recycled_row(b0.row as int, knight_z as int)
                    &&& b1.lane == b0.lane
                    &&& !cfg.is_behind(b0.row as int, knight_z as int) ==> b1 == b0
                    &&& cfg.is_behind(b0.row as int, knight_z as int) ==> b1.height == heights@[k]
                        && b1.config.has_barrier == barriers@[k]
                },
    {
        let ghost before = self.bricks@;
        let ghost front = self.front_row@;
        let ghost next = cfg.front_after(front, knight_z as int);
        let mut k: usize = 0;
        while k < self.bricks.len()
            invariant
                cfg.valid(),
                -WORLD_LIMIT <= knight_z <= WORLD_LIMIT,
                -WORLD_LIMIT - cfg.rows <= front <= cfg.rows_behind - cfg.rows,
                next == cfg.front_after(front, knight_z as int),
                self.bricks@.len() == before.len(),
                before.len() == cfg.rows * cfg.lanes(),
                heights@.len() == before.len(),
                barriers@.len() == before.len(),
                forall|j: int| 0 <= j < heights@.len() ==> cfg.height_ok(#[trigger] heights@[j] as int),
                0 <= k <= before.len(),
                forall|j: int|
                    0 <= j < before.len() ==> {
                        let b = #[trigger] before[j];
                        &&& b.lane == cfg.lane_of(j)
                        &&& front <= b.row < front + cfg.rows
                        &&& cfg.on_slot(b.row as int, j)
                        &&& cfg.height_ok(b.height as int)
                    },
                forall|j: int|
                    0 <= j < k ==> {
                        let b0 = before[j];
                        let b1 = #[trigger] self.bricks@[j];
                        &&& b1.row == cfg.recycled_row(b0.row as int, knight_z as int)
                        &&& b1.lane == b0.lane
                        &&& !cfg.is_behind(b0.row as int, knight_z as int) ==> b1 == b0
                        &&& cfg.is_behind(b0.row as int, knight_z as int) ==> b1.height
                            == heights@[j] && b1.config.has_barrier == barriers@[j]
                        &&& cfg.height_ok(b1.height as int)
                    },
                forall|j: int| k <= j < before.len() ==> #[trigger] self.bricks@[j] == before[j],
            decreases before.len() - k,
        {
            let mut b = self.bricks[k];
            proof {
                assert(before[k as int] == b);
            }
            if b.is_behind(cfg, knight_z) {
                proof {
                    lemma_recycle_within_window(*cfg, front, knight_z as int, b.row as int);
                }
                let height = heights[k];
                let has_barrier = barriers[k];
                b.recycle(cfg, height, has_barrier);
                self.bricks.set(k, b);
            }
            k = k + 1;
        }
        self.front_row = Ghost(next);
        proof {
            assert forall|j: int| 0 <= j < self.bricks@.len() implies {
                let b = #[trigger] self.bricks@[j];
                &&& b.lane == cfg.lane_of(j)
                &&& next <= b.row < next + cfg.rows
                &&& cfg.on_slot(b.row as int, j)
                &&& cfg.height_ok(b.height as int)
            } by {
                let b0 = before[j];
                lemma_recycle_within_window(*cfg, front, knight_z as int, b0.row as int);
                lemma_recycle_on_slot(*cfg, knight_z as int, b0.row as int, j);
            }
            lemma_recycle_within_window(*cfg, front, knight_z as int, front);
        }
    }

    /// Recycles the track behind the knight at `knight_z` as `recycle_behind`
    /// does, with a new random height and barrier for each recycled brick.
    pub fn lifecycle_board(&mut self, cfg: &BoardConfig, knight_z: i64)
        requires
            cfg.valid(),
            old(self).wf(*cfg),
            -WORLD_LIMIT <= knight_z <= WORLD_LIMIT,
        ensures
            final(self).wf(*cfg),
            final(self).front_row@ == cfg.front_after(old(self).front_row@, knight_z as int),
            final(self).bricks@.len() == old(self).bricks@.len(),
            forall|k: int|
                0 <= k < old(self).bricks@.len() ==> {
                    let b0 = old(self).bricks@[k];
                    let b1 = #[trigger] final(self).bricks@[k];
                    &&& b1.row == cfg.recycled_row(b0.row as int, knight_z as int)
                    &&& b1.lane == b0.lane
                    &&& !cfg.is_behind(b0.row as int, knight_z as int) ==> b1 == b0
                    &&& cfg.is_behind(b0.row as int, knight_z as int) ==> barrier_ok(
                        *cfg,
                        b1.config.has_barrier,
                    )
                },
    {
        let (heights, barriers) = draw_bricks(cfg, self.bricks.len());
        self.recycle_behind(cfg, knight_z, &heights, &barriers);
    }
}

/// Spacing of the track. On a well-formed pool, which setup makes and every
/// recycling pass keeps: any two bricks lie apart by the row spacing of their
/// slots at setup, up to whole pool lengths; a recycling pass changes the
/// spacing of no two bricks, up to whole pool lengths; and two bricks of one
/// lane never share a row.
pub proof fn lemma_recycling_spacing(b: Board, cfg: BoardConfig, knight_z: int, i: int, j: int)
    requires
        cfg.valid(),
        b.wf(cfg),
        0 <= i < b.bricks@.len(),
        0 <= j < b.bricks@.len(),
    ensures
        ({
            let ri = b.bricks@[i].row as int;
            let rj = b.bricks@[j].row as int;
            let n = cfg.rows as int;
            &&& (ri - rj) % n == (cfg.slot(i) - cfg.slot(j)) % n
            &&& (cfg.recycled_row(ri, knight_z) - cfg.recycled_row(rj, knight_z)) % n == (ri - rj)
                % n
            &&& i != j && b.bricks@[i].lane == b.bricks@[j].lane ==> ri != rj
        }),
{
    let ri = b.bricks@[i].row as int;
    let rj = b.bricks@[j].row as int;
    let n = cfg.rows as int;
    let l = cfg.lanes();
    let si = cfg.slot(i);
    let sj = cfg.slot(j);
    let x = ri - cfg.first_row() - si;
    let y = rj - cfg.first_row() - sj;
    assert(x % n == 0);
    assert(y % n == 0);
    lemma_sub_mod_noop(x, y, n);
    lemma_small_mod(0, n as nat);
    lemma_fundamental_div_mod(x - y, n);
    let q = (x - y) / n;
    assert(x - y == n * q);
    lemma_mod_multiples_vanish(q, si - sj, n);
    assert(ri - rj == n * q + (si - sj));
    let bi = cfg.is_behind(ri, knight_z);
    let bj = cfg.is_behind(rj, knight_z);
    if bi && !bj {
        lemma_mod_multiples_vanish(-1, ri - rj, n);
    } else if !bi && bj {
        lemma_mod_multiples_vanish(1, ri - rj, n);
    }
    if i != j && b.bricks@[i].lane == b.bricks@[j].lane {
        lemma_fundamental_div_mod(i, l);
        lemma_fundamental_div_mod(j, l);
        assert(i % l == j % l);
        assert(si != sj) by (nonlinear_arith)
            requires
                i == l * si + i % l,
                j == l * sj + j % l,
                i % l == j % l,
                i != j,
        ;
        assert(0 <= si < n && 0 <= sj < n) by (nonlinear_arith)
            requires
                i == l * si + i % l,
                j == l * sj + j % l,
                0 <= i % l < l,
                0 <= j % l < l,
                0 <= i < n * l,
                0 <= j < n * l,
                l > 0,
        ;
        let e = si - sj;
        if e > 0 {
            lemma_small_mod(e as nat, n as nat);
        } else {
            lemma_mod_add_multiples_vanish(e, n);
            lemma_small_mod((n + e) as nat, n as nat);
        }
    }
}

/// The slot whose bricks sit on `row` when the pool's window holds it.
pub open spec fn slot_of_row(cfg: BoardConfig, row: int) -> int {
    (row - cfg.first_row()) % (cfg.rows as int)
}

/// No gaps in the track. On a well-formed pool, which setup makes and every
/// recycling pass keeps, every row of the window `[front_row, front_row + N)`
/// holds a brick of every lane: the brick of that lane in the slot of the
/// row. With `lemma_recycling_spacing` (no two bricks of a lane share a row),
/// the `N` bricks of each lane lie on exactly the `N` consecutive rows of the
/// window, one brick size apart.
pub proof fn lemma_lane_covers_window(b: Board, cfg: BoardConfig, lane: int, row: int)
    requires
        cfg.valid(),
        b.wf(cfg),
        -cfg.lane_half_count <= lane <= cfg.lane_half_count,
        b.front_row@ <= row < b.front_row@ + cfg.rows,
    ensures
        ({
            let k = slot_of_row(cfg, row) * cfg.lanes() + (lane + cfg.lane_half_count);
            &&& 0 <= k < b.bricks@.len()
            &&& b.bricks@[k].lane == lane
            &&& b.bricks@[k].row == row
        }),
{
    let n = cfg.rows as int;
    let l = cfg.lanes();
    let s = slot_of_row(cfg, row);
    let t = lane + cfg.lane_half_count;
    let k = s * l + t;
    lemma_mod_bound(row - cfg.first_row(), n);
    assert(0 <= k < n * l) by (nonlinear_arith)
        requires
            k == s * l + t,
            0 <= s < n,
            0 <= t < l,
    ;
    lemma_fundamental_div_mod_converse(k, l, s, t);
    assert(cfg.slot(k) == s);
    assert(cfg.lane_of(k) == lane);
    let rk = b.bricks@[k].row as int;
    let x = rk - cfg.first_row() - s;
    assert(x % n == 0);
    lemma_fundamental_div_mod(x, n);
    lemma_fundamental_div_mod(row - cfg.first_row(), n);
    let q = (row - cfg.first_row()) / n;
    let p = x / n;
    assert(rk - row == n * p - n * q);
    assert(rk == row) by (nonlinear_arith)
        requires
            rk - row == n * p - n * q,
            -n < rk - row < n,
            n > 0,
    ;
}

/// A brick is behind exactly when its row is past the last row kept, the
/// floor of `(knight_z + margin) / brick_size`.
proof fn lemma_behind_past_last_kept(cfg: BoardConfig, knight_z: int, row: int)
    requires
        cfg.valid(),
    ensures
        cfg.is_behind(row, knight_z) <==> row > (knight_z + cfg.recycle_margin) / (
        cfg.brick_size as int),
{
    let c = knight_z + cfg.recycle_margin;
    let size = cfg.brick_size as int;
    let t = c / size;
    lemma_fundamental_div_mod(c, size);
    assert(0 <= c % size < size);
    if row > t {
        assert(row * size > c) by (nonlinear_arith)
            requires
                row >= t + 1,
                c == size * t + c % size,
                c % size < size,
                size > 0,
        ;
    } else {
        assert(row * size <= c) by (nonlinear_arith)
            requires
                row <= t,
                c == size * t + c % size,
                c % size >= 0,
                size > 0,
        ;
    }
}

/// A recycling pass moves a brick of the window `[front, front + N)` into
/// the window that starts at `front_after`, which stays within bounds.
proof fn lemma_recycle_within_window(cfg: BoardConfig, front: int, knight_z: int, row: int)
    requires
        cfg.valid(),
        -WORLD_LIMIT <= knight_z <= WORLD_LIMIT,
        -WORLD_LIMIT - cfg.rows <= front <= cfg.rows_behind - cfg.rows,
        front <= row < front + cfg.rows,
    ensures
        ({
            let next = cfg.front_after(front, knight_z);
            let moved = cfg.recycled_row(row, knight_z);
            &&& next <= moved < next + cfg.rows
            &&& -WORLD_LIMIT - cfg.rows <= next <= front
        }),
{
    let c = knight_z + cfg.recycle_margin;
    let size = cfg.brick_size as int;
    let t = c / size;
    lemma_behind_past_last_kept(cfg, knight_z, row);
    lemma_fundamental_div_mod(c, size);
    assert(0 <= c % size < size);
    assert(t >= -WORLD_LIMIT) by (nonlinear_arith)
        requires
            c == size * t + c % size,
            c % size < size,
            c >= -WORLD_LIMIT,
            size >= 1,
    ;
}

/// Recycling keeps a brick on its slot up to whole pool lengths.
proof fn lemma_recycle_on_slot(cfg: BoardConfig, knight_z: int, row: int, k: int)
    requires
        cfg.valid(),
        cfg.on_slot(row, k),
    ensures
        cfg.on_slot(cfg.recycled_row(row, knight_z), k),
{
    let n = cfg.rows as int;
    if cfg.is_behind(row, knight_z) {
        lemma_mod_sub_multiples_vanish(row - cfg.first_row() - cfg.slot(k), n);
        assert(cfg.recycled_row(row, knight_z) - cfg.first_row() - cfg.slot(k) == -n + (row
            - cfg.first_row() - cfg.slot(k)));
    }
}

} // verus!
