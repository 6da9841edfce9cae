//! Deterministic food scheduler.
//!
//! Spawning is driven by a simulation-owned pseudo-random generator whose
//! whole state is one integer, so the rollback engine can snapshot and
//! restore it exactly.  Each tick the scheduler tops the live food count
//! up to a target derived from the cumulative food count, drawing
//! candidate cells from a bounded grid and rejecting cells that are
//! already occupied; the retry budget is capped so a crowded grid reports
//! an error instead of hanging.

use vstd::assert_seqs_equal;
use vstd::prelude::*;

verus! {

/// How many rejected draws the scheduler tolerates for a single spawn
/// before it reports the grid as exhausted.
pub const RETRY_LIMIT: u32 = 2048;

/// One grid cell.
#[derive(Clone, Copy, PartialEq, Eq, Structural, Debug)]
pub struct Cell {
    pub x: i32,
    pub y: i32,
}

/// Marker for the plain food variant.
#[derive(Clone, Copy, PartialEq, Eq, Structural, Debug)]
pub struct Food;

/// Marker for the double food variant; no behavioural difference yet.
#[derive(Clone, Copy, PartialEq, Eq, Structural, Debug)]
pub struct DoubleFood;

/// One spawn produced by the scheduler: the cell and which of the two
/// variants the independent random bit selected.
#[derive(Clone, Copy, PartialEq, Eq, Structural, Debug)]
pub struct SpawnedFood {
    pub cell: Cell,
    pub double: bool,
}

/// The scheduler failed to place a food item.
#[derive(Clone, Copy, PartialEq, Eq, Structural, Debug)]
pub enum SpawnError {
    /// The retry budget ran out: the grid is (close to) fully occupied.
    GridExhausted,
}

/// One xorshift round: the successor of a generator state.  The round is
/// a pure function of the state, which is what makes every draw
/// reproducible from a snapshot.
pub open spec fn rng_step(s: u64) -> u64 {
    let a = s ^ (s << 13);
    let b = a ^ (a >> 7);
    b ^ (b << 17)
}

/// Deterministic pseudo-random source owned by the simulation.  Its whole
/// state is this one word; it is snapshotted and restored by value when
/// the engine rewinds.
#[derive(Clone, Copy, PartialEq, Eq, Structural, Debug)]
pub struct SimRng {
    pub state: u64,
}

/// Advances a generator state in place by one round.
pub fn step_state(s: &mut u64)
    ensures
        *final(s) == rng_step(*old(s)),
{
    let mut x: u64 = *s;
    x = x ^ (x << 13);
    x = x ^ (x >> 7);
    x = x ^ (x << 17);
    *s = x;
}

/// The coordinate encoded by a generator state: an integer in
/// `[-GRID_RADIUS, GRID_RADIUS)`.
pub open spec fn coord_of(x: u64) -> int {
    (x % 40) - 20
}

/// The variant bit encoded by a generator state.
pub open spec fn bit_of(x: u64) -> bool {
    x & 1 == 1
}

/// Draws one coordinate from a generator state held in a local.
pub fn gen_coord_state(s: &mut u64) -> (c: i32)
    ensures
        *final(s) == rng_step(*old(s)),
        c as int == coord_of(rng_step(*old(s))),
        -20 <= c < 20,
{
    step_state(s);
    let n: u64 = *s;
    ((n % 40) as i32) - 20
}

/// Draws one variant bit from a generator state held in a local.
pub fn gen_bit_state(s: &mut u64) -> (b: bool)
    ensures
        *final(s) == rng_step(*old(s)),
        b == bit_of(rng_step(*old(s))),
{
    step_state(s);
    let n: u64 = *s;
    n & 1 == 1
}

impl SimRng {
    /// A generator seeded explicitly; the seed is the whole state.  Zero
    /// is a fixed point of the round, so a zero seed yields a constant
    /// stream; any other seed gives a full-quality xorshift sequence.
    pub fn new(seed: u64) -> (r: SimRng)
        ensures
            r.state == seed,
    {
        SimRng { state: seed }
    }

    /// The next word of the stream.
    pub fn next_u64(&mut self) -> (r: u64)
        ensures
            final(self).state == rng_step(old(self).state),
            r == rng_step(old(self).state),
    {
        step_state(&mut self.state);
        self.state
    }
}

/// The cell and successor state drawn by two consecutive rounds.
pub open spec fn draw_cell(s: u64) -> (Cell, u64) {
    let s1 = rng_step(s);
    let s2 = rng_step(s1);
    (Cell { x: coord_of(s1) as i32, y: coord_of(s2) as i32 }, s2)
}

/// No two entries of `cells` are the same cell.
pub open spec fn cells_distinct(cells: Seq<Cell>) -> bool {
    forall|i: int, j: int| 0 <= i < j < cells.len() ==> cells[i] != cells[j]
}

/// The cells of a list of spawns, in order.
pub open spec fn spawned_cells(spawned: Seq<SpawnedFood>) -> Seq<Cell> {
    spawned.map_values(|f: SpawnedFood| f.cell)
}

/// Draws cells until one is not in `occupied`, giving up after `tries`
/// rejections: the accepted cell and the state after the accepting draw.
pub open spec fn find_free_cell(occupied: Seq<Cell>, s: u64, tries: nat) -> Option<(Cell, u64)>
    decreases tries,
{
    if tries == 0 {
        None
    } else {
        let (c, s2) = draw_cell(s);
        if occupied.contains(c) {
            find_free_cell(occupied, s2, (tries - 1) as nat)
        } else {
            Some((c, s2))
        }
    }
}

/// The whole spawn pass as a function of the occupancy list, the spawns
/// so far, the generator state and the live count: repeatedly places a
/// fresh cell and draws a variant bit until the live count reaches the
/// target.  The first component is false when the retry budget ran out.
pub open spec fn spawn_loop(
    positions: Seq<Cell>,
    spawned: Seq<SpawnedFood>,
    s: u64,
    current: nat,
    target: nat,
) -> (bool, Seq<Cell>, Seq<SpawnedFood>, u64)
    decreases target - current,
{
    if current >= target {
        (true, positions, spawned, s)
    } else {
        match find_free_cell(positions, s, RETRY_LIMIT as nat) {
            Option::None => (false, positions, spawned, s),
            Option::Some((c, s1)) => {
                let s2 = rng_step(s1);
                spawn_loop(
                    positions.push(c),
                    spawned.push(SpawnedFood { cell: c, double: bit_of(s2) }),
                    s2,
                    current + 1,
                    target,
                )
            },
        }
    }
}

/// Binary logarithm, rounded down; zero below two.
pub open spec fn log2_floor(n: nat) -> nat
    decreases n,
{
    if n <= 1 {
        0
    } else {
        1 + log2_floor(n / 2)
    }
}

/// The target live food count for a cumulative food count `n`:
/// `max(floor(log2(n)), 1)`.
pub open spec fn food_target(n: u32) -> nat {
    if log2_floor(n as nat) < 1 {
        1
    } else {
        log2_floor(n as nat)
    }
}

/// Powers of two.
pub open spec fn pow2n(k: nat) -> nat
    decreases k,
{
    if k == 0 {
        1
    } else {
        2 * pow2n((k - 1) as nat)
    }
}

proof fn lemma_log2_floor_lt(n: nat, k: nat)
    requires
        k >= 1,
        n < pow2n(k),
    ensures
        log2_floor(n) < k,
    decreases k,
{
    if n <= 1 {
    } else {
        assert(pow2n(1) == 2 * pow2n(0));
        assert(pow2n(k) == 2 * pow2n((k - 1) as nat));
        lemma_log2_floor_lt(n / 2, (k - 1) as nat);
    }
}

proof fn lemma_log2_floor_u32(n: u32)
    ensures
        log2_floor(n as nat) <= 31,
{
    assert(pow2n(32) == 0x1_0000_0000) by {
        reveal_with_fuel(pow2n, 33);
    }
    lemma_log2_floor_lt(n as nat, 32);
}

/// The target live food count, executable form.
pub fn compute_food_target(n: u32) -> (t: u8)
    ensures
        t as nat == food_target(n),
        1 <= t <= 31,
{
    proof {
        lemma_log2_floor_u32(n);
    }
    let mut v: u32 = n;
    let mut l: u8 = 0;
    while v >= 2
        invariant
            l as nat + log2_floor(v as nat) == log2_floor(n as nat),
            log2_floor(n as nat) <= 31,
        decreases v,
    {
        assert(log2_floor(v as nat) == 1 + log2_floor((v / 2) as nat));
        v = v / 2;
        l = l + 1;
    }
    if l < 1 {
        1
    } else {
        l
    }
}

/// Growth and spawn bookkeeping: total food ever granted, the live food
/// count, and the occupied grid cells.
pub struct FoodCounter {
    /// Cumulative food ever granted; grows when the snake eats.
    pub food_count: u32,
    /// Currently live food entities.
    pub current_food: u8,
    /// Grid cells covered by live food, in spawn order.
    pub food_positions: Vec<Cell>,
}

impl FoodCounter {
    /// The positional-uniqueness invariant: no cell is occupied twice.
    pub open spec fn wf(self) -> bool {
        cells_distinct(self.food_positions@)
    }

    /// A copy of the counter, for the history engine's snapshots.
    pub fn snapshot(&self) -> (r: FoodCounter)
        ensures
            r.food_count == self.food_count,
            r.current_food == self.current_food,
            r.food_positions@ == self.food_positions@,
    {
        FoodCounter {
            food_count: self.food_count,
            current_food: self.current_food,
            food_positions: clone_cells(&self.food_positions),
        }
    }

    /// An empty counter: nothing granted, nothing live.
    pub fn new() -> (r: FoodCounter)
        ensures
            r.food_count == 0,
            r.current_food == 0,
            r.food_positions@ == Seq::<Cell>::empty(),
            r.wf(),
    {
        FoodCounter { food_count: 0, current_food: 0, food_positions: Vec::new() }
    }
}

/// True when `v` holds `c`.
pub fn vec_contains_cell(v: &Vec<Cell>, c: Cell) -> (b: bool)
    ensures
        b == v@.contains(c),
{
    let n = v.len();
    let mut i: usize = 0;
    while i < n
        invariant
            i <= n,
            n == v@.len(),
            forall|j: int| 0 <= j < i ==> v@[j] != c,
        decreases n - i,
    {
        if v[i] == c {
            return true;
        }
        i = i + 1;
    }
    false
}

/// Copies a cell list.
pub fn clone_cells(v: &Vec<Cell>) -> (r: Vec<Cell>)
    ensures
        r@ == v@,
{
    let n = v.len();
    let mut r: Vec<Cell> = Vec::new();
    let mut i: usize = 0;
    while i < n
        invariant
            i <= n,
            n == v@.len(),
            r@ == v@.subrange(0, i as int),
        decreases n - i,
    {
        r.push(v[i]);
        i = i + 1;
    }
    proof {
        assert(v@.subrange(0, n as int) == v@);
    }
    r
}

proof fn lemma_distinct_push(cells: Seq<Cell>, c: Cell)
    requires
        cells_distinct(cells),
        !cells.contains(c),
    ensures
        cells_distinct(cells.push(c)),
{
    let p = cells.push(c);
    assert forall|i: int, j: int| 0 <= i < j < p.len() implies p[i] != p[j] by {
        if j == cells.len() {
            assert(p[i] == cells[i]);
            assert(!cells.contains(c));
            assert(cells[i] != c);
        } else {
            assert(p[i] == cells[i] && p[j] == cells[j]);
        }
    }
}

proof fn lemma_find_free_fresh(occupied: Seq<Cell>, s: u64, tries: nat)
    ensures
        find_free_cell(occupied, s, tries) matches Option::Some(r) ==> !occupied.contains(r.0),
    decreases tries,
{
    if tries == 0 {
    } else {
        let (c, s2) = draw_cell(s);
        if occupied.contains(c) {
            lemma_find_free_fresh(occupied, s2, (tries - 1) as nat);
        }
    }
}

/// Law (positional uniqueness): whatever the generator stream, a spawn
/// pass that starts from a duplicate-free occupancy list leaves the list
/// duplicate-free, every spawned cell is recorded in it, and no two live
/// food items share a cell.
pub proof fn lemma_spawn_uniqueness(
    positions: Seq<Cell>,
    spawned: Seq<SpawnedFood>,
    s: u64,
    current: nat,
    target: nat,
)
    requires
        cells_distinct(positions),
        cells_distinct(spawned_cells(spawned)),
        forall|i: int| 0 <= i < spawned.len() ==> positions.contains(
            #[trigger] spawned_cells(spawned)[i],
        ),
    ensures
        ({
            let (ok, p2, f2, s2) = spawn_loop(positions, spawned, s, current, target);
            &&& cells_distinct(p2)
            &&& cells_distinct(spawned_cells(f2))
            &&& forall|i: int| 0 <= i < f2.len() ==> p2.contains(#[trigger] spawned_cells(f2)[i])
        }),
    decreases target - current,
{
    if current >= target {
    } else {
        match find_free_cell(positions, s, RETRY_LIMIT as nat) {
            Option::None => {},
            Option::Some((c, s1)) => {
                lemma_find_free_fresh(positions, s, RETRY_LIMIT as nat);
                let s2 = rng_step(s1);
                let f = SpawnedFood { cell: c, double: bit_of(s2) };
                lemma_distinct_push(positions, c);
                assert(spawned_cells(spawned.push(f)) == spawned_cells(spawned).push(c)) by {
                    assert_seqs_equal!(
                        spawned_cells(spawned.push(f)) == spawned_cells(spawned).push(c)
                    );
                }
                assert(cells_distinct(spawned_cells(spawned).push(c))) by {
                    assert forall|i: int| 0 <= i < spawned.len() implies spawned_cells(
                        spawned,
                    )[i] != c by {
                        assert(positions.contains(spawned_cells(spawned)[i]));
                        assert(!positions.contains(c));
                    }
                    assert(!spawned_cells(spawned).contains(c));
                    lemma_distinct_push(spawned_cells(spawned), c);
                }
                assert forall|i: int| 0 <= i < spawned.push(f).len() implies positions.push(
                    c,
                ).contains(#[trigger] spawned_cells(spawned.push(f))[i]) by {
                    if i < spawned.len() {
                        assert(spawned_cells(spawned.push(f))[i] == spawned_cells(spawned)[i]);
                        let cell = spawned_cells(spawned)[i];
                        assert(positions.contains(cell));
                        let w = choose|k: int| 0 <= k < positions.len() && positions[k] == cell;
                        assert(positions.push(c)[w] == cell);
                    } else {
                        assert(spawned_cells(spawned.push(f))[i] == c);
                        assert(positions.push(c)[positions.len() as int] == c);
                    }
                }
                lemma_spawn_uniqueness(
                    positions.push(c),
                    spawned.push(f),
                    s2,
                    current + 1,
                    target,
                );
            },
        }
    }
}

/// Runs the food scheduler for one tick.
///
/// While the live count is below the target the scheduler draws candidate
/// cells, skipping occupied ones, and records each accepted cell together
/// with a variant bit.  The pass is atomic: on success the occupancy
/// list, live count and generator advance exactly as [`spawn_loop`]
/// describes; when the retry budget runs out nothing is changed and the
/// grid-exhausted error is returned.  The cumulative `food_count` is
/// never touched here.
pub fn food_spawner(counter: &mut FoodCounter, rng: &mut SimRng) -> (r: Result<
    Vec<SpawnedFood>,
    SpawnError,
>)
    requires
        old(counter).wf(),
    ensures
        ({
            let (ok, p2, f2, s2) = spawn_loop(
                old(counter).food_positions@,
                Seq::<SpawnedFood>::empty(),
                old(rng).state,
                old(counter).current_food as nat,
                food_target(old(counter).food_count),
            );
            &&& final(counter).food_count == old(counter).food_count
            &&& final(counter).wf()
            &&& (ok ==> {
                &&& r matches Result::Ok(fs) && fs@ == f2
                &&& final(counter).food_positions@ == p2
                &&& final(rng).state == s2
                &&& final(counter).current_food as nat == (if old(counter).current_food as nat
                    >= food_target(old(counter).food_count) {
                    old(counter).current_food as nat
                } else {
                    food_target(old(counter).food_count)
                })
            })
            &&& (!ok ==> {
                &&& r matches Result::Err(e) && e == SpawnError::GridExhausted
                &&& *final(counter) == *old(counter)
                &&& *final(rng) == *old(rng)
            })
        }),
{
    let ghost p0 = counter.food_positions@;
    let ghost s0 = rng.state;
    let ghost c0 = counter.current_food as nat;
    let target = compute_food_target(counter.food_count);
    if counter.current_food >= target {
        return Result::Ok(Vec::new());
    }
    let mut work = clone_cells(&counter.food_positions);
    let mut spawned: Vec<SpawnedFood> = Vec::new();
    let mut state: u64 = rng.state;
    let mut current: u8 = counter.current_food;
    while current < target
        invariant
            *counter == *old(counter),
            *rng == *old(rng),
            counter.wf(),
            p0 == old(counter).food_positions@,
            s0 == old(rng).state,
            c0 == old(counter).current_food as nat,
            target as nat == food_target(counter.food_count),
            current <= target,
            cells_distinct(work@),
            spawn_loop(p0, Seq::<SpawnedFood>::empty(), s0, c0, target as nat) == spawn_loop(
                work@,
                spawned@,
                state,
                current as nat,
                target as nat,
            ),
        decreases target - current,
    {
        let ghost s_in = state;
        let ghost work_in = work@;
        let ghost spawned_in = spawned@;
        let ghost current_in = current as nat;
        proof {
            assert(spawn_loop(p0, Seq::<SpawnedFood>::empty(), s0, c0, target as nat)
                == spawn_loop(work_in, spawned_in, s_in, current_in, target as nat));
        }
        let mut tries: u32 = 0;
        let mut found = false;
        let mut c = Cell { x: 0, y: 0 };
        while tries < RETRY_LIMIT && !found
            invariant
                tries <= RETRY_LIMIT,
                !found ==> find_free_cell(work@, s_in, RETRY_LIMIT as nat) == find_free_cell(
                    work@,
                    state,
                    (RETRY_LIMIT - tries) as nat,
                ),
                found ==> find_free_cell(work@, s_in, RETRY_LIMIT as nat) == Option::Some(
                    (c, state),
                ),
                found ==> !work@.contains(c),
            decreases RETRY_LIMIT - tries + (if found {
                0int
            } else {
                1int
            }),
        {
            let ghost s_pre = state;
            let x = gen_coord_state(&mut state);
            let y = gen_coord_state(&mut state);
            let cand = Cell { x, y };
            proof {
                assert(draw_cell(s_pre) == (cand, state));
            }
            if !vec_contains_cell(&work, cand) {
                c = cand;
                found = true;
            } else {
                tries = tries + 1;
            }
        }
        if !found {
            proof {
                assert(find_free_cell(work@, s_in, RETRY_LIMIT as nat) is None);
                assert(spawn_loop(work_in, spawned_in, s_in, current_in, target as nat) == (
                    false,
                    work_in,
                    spawned_in,
                    s_in,
                ));
            }
            return Result::Err(SpawnError::GridExhausted);
        }
        let ghost s_mid = state;
        let double = gen_bit_state(&mut state);
        proof {
            lemma_distinct_push(work@, c);
            assert(find_free_cell(work_in, s_in, RETRY_LIMIT as nat) == Option::Some((c, s_mid)));
            assert(state == rng_step(s_mid));
            assert(spawn_loop(work_in, spawned_in, s_in, current_in, target as nat) == spawn_loop(
                work_in.push(c),
                spawned_in.push(SpawnedFood { cell: c, double: bit_of(rng_step(s_mid)) }),
                rng_step(s_mid),
                current_in + 1,
                target as nat,
            ));
        }
        work.push(c);
        spawned.push(SpawnedFood { cell: c, double });
        current = current + 1;
        proof {
            assert(work@ == work_in.push(c));
            assert(spawned@ == spawned_in.push(
                SpawnedFood { cell: c, double: bit_of(rng_step(s_mid)) },
            ));
        }
    }
    counter.food_positions = work;
    counter.current_food = current;
    rng.state = state;
    Result::Ok(spawned)
}

} // verus!
