//! Simulation state, the tick function, and the rollback history bridge.
//!
//! A whole tick — input events, direction controller, movement stepper,
//! food scheduler, input decay — is a pure function of the previous
//! simulation state and the raw events of the tick ([`tick_outcome`]).
//! The history buffer stores a snapshot per retained frame together with
//! that frame's events, keeps the snapshots chained by the tick function,
//! and can apply a correction to a retained past frame and replay forward
//! deterministically.

use crate::food::Cell;
use crate::food::FoodCounter;
use crate::food::SimRng;
use crate::food::SpawnError;
use crate::food::SpawnedFood;
use crate::food::cells_distinct;
use crate::food::food_spawner;
use crate::food::food_target;
use crate::food::spawn_loop;
use crate::food::spawned_cells;
use crate::snake_input::Action;
use crate::snake_input::ActionMap;
use crate::snake_input::SnakeInput;
use crate::snake_input::decay_map;
use crate::snake_input::key_down_transition;
use crate::snake_input::key_up_transition;
use crate::snake_logic::Snake;
use crate::snake_logic::SnakeV;
use crate::snake_logic::change_move_direction;
use crate::snake_logic::move_snake;
use crate::snake_logic::spawn_snake;
use crate::snake_logic::steer_sv;
use crate::snake_logic::steered;
use crate::snake_logic::stepped;
use crate::snake_logic::stepped_v;
use vstd::assert_seqs_equal;
use vstd::prelude::*;

verus! {

/// One raw input event fed into a tick: the pending correction form the
/// replay driver applies is the same plain value, so no opaque payload
/// ever crosses the snapshot boundary.
#[derive(Clone, Copy, PartialEq, Eq, Structural, Debug)]
pub enum InputEvent {
    KeyDown { player: usize, action: Action },
    KeyUp { player: usize, action: Action },
}

/// The player an event addresses.
pub open spec fn event_player(e: InputEvent) -> int {
    match e {
        InputEvent::KeyDown { player, .. } => player as int,
        InputEvent::KeyUp { player, .. } => player as int,
    }
}

/// Every event addresses a player the input buffer tracks.
pub open spec fn events_ok(evs: Seq<InputEvent>, players: int) -> bool {
    forall|i: int| 0 <= i < evs.len() ==> event_player(#[trigger] evs[i]) < players
}

/// One event applied to the input buffer; an out-of-range player is a
/// no-op here because the executable path rejects it up front.
pub open spec fn apply_event(inp: Seq<ActionMap>, e: InputEvent) -> Seq<ActionMap> {
    match e {
        InputEvent::KeyDown { player, action } => {
            if player < inp.len() {
                inp.update(
                    player as int,
                    inp[player as int].spec_set(
                        action,
                        key_down_transition(inp[player as int].spec_get(action)),
                    ),
                )
            } else {
                inp
            }
        },
        InputEvent::KeyUp { player, action } => {
            if player < inp.len() {
                inp.update(
                    player as int,
                    inp[player as int].spec_set(
                        action,
                        key_up_transition(inp[player as int].spec_get(action)),
                    ),
                )
            } else {
                inp
            }
        },
    }
}

/// A tick's events applied in order.
pub open spec fn apply_events(inp: Seq<ActionMap>, evs: Seq<InputEvent>) -> Seq<ActionMap>
    decreases evs.len(),
{
    if evs.len() == 0 {
        inp
    } else {
        apply_events(apply_event(inp, evs[0]), evs.drop_first())
    }
}

/// The whole simulation state of one frame.  Everything the tick reads
/// lives here — no ambient globals, no time sources — so a snapshot of
/// this one value is enough to replay the frame.
pub struct SimState {
    pub input: SnakeInput,
    pub snakes: Vec<Snake>,
    pub foods: Vec<SpawnedFood>,
    pub counter: FoodCounter,
    pub rng: SimRng,
}

/// Ghost mirror of a whole [`SimState`].
#[verifier::ext_equal]
pub struct SimStateV {
    pub input: Seq<ActionMap>,
    pub snakes: Seq<SnakeV>,
    pub foods: Seq<SpawnedFood>,
    pub food_count: u32,
    pub current_food: u8,
    pub food_positions: Seq<Cell>,
    pub rng: u64,
}

/// The ghost mirrors of a list of snakes.
pub open spec fn views_of_snakes(snakes: Seq<Snake>) -> Seq<SnakeV> {
    snakes.map_values(|s: Snake| s@)
}

impl View for SimState {
    type V = SimStateV;

    open spec fn view(&self) -> SimStateV {
        SimStateV {
            input: self.input@,
            snakes: views_of_snakes(self.snakes@),
            foods: self.foods@,
            food_count: self.counter.food_count,
            current_food: self.counter.current_food,
            food_positions: self.counter.food_positions@,
            rng: self.rng.state,
        }
    }
}

impl SimStateV {
    /// Well-formedness of a frame: every snake is valid and driven by a
    /// tracked player, no grid cell holds two food items, and the
    /// occupancy set mirrors the live food entities exactly.
    #[verifier::opaque]
    pub open spec fn wf(self) -> bool {
        &&& forall|i: int| 0 <= i < self.snakes.len() ==> (#[trigger] self.snakes[i]).wf()
        &&& forall|i: int|
            0 <= i < self.snakes.len() ==> (#[trigger] self.snakes[i]).player.id < self.input.len()
        &&& cells_distinct(self.food_positions)
        &&& self.food_positions == spawned_cells(self.foods)
        &&& self.current_food as int == self.foods.len()
    }
}

/// One whole tick as a function of the previous frame and its raw
/// events, in the fixed order: events into the input machine, direction
/// controller, movement stepper, food scheduler, end-of-tick input decay.
/// The first component is false when the food scheduler exhausted its
/// retry budget; the frame then carries the partial pass with the
/// scheduler's state untouched.
#[verifier::opaque]
pub open spec fn tick_outcome(v: SimStateV, evs: Seq<InputEvent>) -> (bool, SimStateV) {
    let input1 = apply_events(v.input, evs);
    let snakes1 = v.snakes.map_values(|sv: SnakeV| steer_sv(sv, input1));
    let snakes2 = snakes1.map_values(|sv: SnakeV| stepped_v(sv));
    let (ok, p2, f2, s2) = spawn_loop(
        v.food_positions,
        Seq::<SpawnedFood>::empty(),
        v.rng,
        v.current_food as nat,
        food_target(v.food_count),
    );
    if ok {
        (
            true,
            SimStateV {
                input: input1.map_values(|m: ActionMap| decay_map(m)),
                snakes: snakes2,
                foods: v.foods + f2,
                food_count: v.food_count,
                current_food: if v.current_food as nat >= food_target(v.food_count) {
                    v.current_food
                } else {
                    food_target(v.food_count) as u8
                },
                food_positions: p2,
                rng: s2,
            },
        )
    } else {
        (false, SimStateV { input: input1, snakes: snakes2, ..v })
    }
}

/// Whether two frames agree on everything the food scheduler reads:
/// the cumulative count, the live count, the occupancy list and the
/// generator state.  Input events and steering never touch these
/// fields, which is why a corrected replay can never fail where the
/// recorded run succeeded.
pub open spec fn scheduler_state_eq(a: SimStateV, b: SimStateV) -> bool {
    &&& a.food_count == b.food_count
    &&& a.current_food == b.current_food
    &&& a.food_positions == b.food_positions
    &&& a.rng == b.rng
}

/// Law (scheduler independence): whether a tick succeeds depends only
/// on the scheduler state, whatever the events and the rest of the
/// frame, and a successful tick carries equal scheduler states to
/// equal scheduler states.
pub proof fn lemma_tick_scheduler_only(
    a: SimStateV,
    ea: Seq<InputEvent>,
    b: SimStateV,
    eb: Seq<InputEvent>,
)
    requires
        scheduler_state_eq(a, b),
    ensures
        tick_outcome(a, ea).0 == tick_outcome(b, eb).0,
        tick_outcome(a, ea).0 ==> scheduler_state_eq(tick_outcome(a, ea).1, tick_outcome(b, eb).1),
{
    reveal(tick_outcome);
}

proof fn lemma_spawn_loop_shape(p: Seq<Cell>, sp: Seq<SpawnedFood>, s: u64, c: nat, t: nat)
    ensures
        ({
            let (ok, p2, f2, s2) = spawn_loop(p, sp, s, c, t);
            &&& f2.len() >= sp.len()
            &&& f2.take(sp.len() as int) == sp
            &&& p2 == p + spawned_cells(f2.skip(sp.len() as int))
            &&& (ok ==> c + f2.len() - sp.len() == (if c >= t {
                c as int
            } else {
                t as int
            }))
        }),
    decreases t - c,
{
    let (ok, p2, f2, s2) = spawn_loop(p, sp, s, c, t);
    if c >= t || crate::food::find_free_cell(p, s, crate::food::RETRY_LIMIT as nat) is None {
        assert(f2 == sp);
        assert(f2.take(sp.len() as int) == sp) by {
            assert_seqs_equal!(sp.take(sp.len() as int) == sp);
        }
        assert(p2 == p + spawned_cells(f2.skip(sp.len() as int))) by {
            assert_seqs_equal!(p == p + spawned_cells(sp.skip(sp.len() as int)));
        }
    } else {
        let r = crate::food::find_free_cell(p, s, crate::food::RETRY_LIMIT as nat);
        let c1 = r->Some_0.0;
        let s1 = r->Some_0.1;
        let s2n = crate::food::rng_step(s1);
        let f = SpawnedFood { cell: c1, double: crate::food::bit_of(s2n) };
        lemma_spawn_loop_shape(p.push(c1), sp.push(f), s2n, c + 1, t);
        let (ok_, p2_, f2_, s2_) = spawn_loop(p.push(c1), sp.push(f), s2n, c + 1, t);
        assert((ok, p2, f2, s2) == (ok_, p2_, f2_, s2_));
        assert(f2.take(sp.len() as int) == sp) by {
            assert(f2.take((sp.len() + 1) as int) == sp.push(f));
            assert_seqs_equal!(f2.take(sp.len() as int) == sp, k => {
                assert(f2.take((sp.len() + 1) as int)[k] == sp.push(f)[k]);
            });
        }
        assert(f2[sp.len() as int] == f) by {
            assert(f2.take((sp.len() + 1) as int)[sp.len() as int] == sp.push(f)[sp.len() as int]);
        }
        assert(p2 == p + spawned_cells(f2.skip(sp.len() as int))) by {
            assert(p2 == p.push(c1) + spawned_cells(f2.skip((sp.len() + 1) as int)));
            assert_seqs_equal!(p2 == p + spawned_cells(f2.skip(sp.len() as int)), k => {
                if k < p.len() {
                } else if k == p.len() {
                    assert(p2[k] == c1);
                    assert(spawned_cells(f2.skip(sp.len() as int))[0] == f2[sp.len() as int].cell);
                } else {
                    assert(p2[k] == spawned_cells(f2.skip((sp.len() + 1) as int))[k - p.len() - 1]);
                    assert(spawned_cells(f2.skip((sp.len() + 1) as int))[k - p.len() - 1]
                        == f2[sp.len() + 1 + k - p.len() - 1].cell);
                    assert(spawned_cells(f2.skip(sp.len() as int))[k - p.len()]
                        == f2[sp.len() + k - p.len()].cell);
                }
            });
        }
    }
}

/// Starts a fresh simulation: `num_players` input streams all reading
/// `Up`, the one initial snake, no food granted or live yet, and the
/// generator seeded with `seed`.
pub fn initial_state(num_players: usize, seed: u64) -> (r: SimState)
    requires
        num_players >= 1,
    ensures
        r@.wf(),
        r@.input.len() == num_players,
        (forall|p: int| 0 <= p < num_players ==> r@.input[p] == ActionMap::all_up()),
        r@.snakes.len() == 1,
        crate::snake_logic::is_initial_snake(r.snakes@[0]),
        r@.foods.len() == 0,
        r@.food_count == 0,
        r@.current_food == 0,
        r@.food_positions.len() == 0,
        r@.rng == seed,
{
    let input = SnakeInput::new(num_players);
    let mut snakes: Vec<Snake> = Vec::new();
    snakes.push(spawn_snake());
    let r = SimState {
        input,
        snakes,
        foods: Vec::new(),
        counter: FoodCounter::new(),
        rng: SimRng::new(seed),
    };
    proof {
        reveal(SimStateV::wf);
        assert(r@.food_positions == spawned_cells(r@.foods)) by {
            assert_seqs_equal!(r@.food_positions == spawned_cells(r@.foods));
        }
        assert(views_of_snakes(r.snakes@).len() == 1);
    }
    r
}

/// Advances the simulation by one tick, in the fixed in-tick order.
/// The resulting state — and whether the food scheduler succeeded — is
/// exactly [`tick_outcome`] of the previous state and the events, which
/// is what makes a replay from a snapshot reproduce the run bit for bit.
/// When the scheduler reports the grid exhausted, the error is returned
/// and the frame holds the partial pass described by [`tick_outcome`].
pub fn tick(state: &mut SimState, events: &Vec<InputEvent>) -> (r: Result<(), SpawnError>)
    requires
        old(state)@.wf(),
        events_ok(events@, old(state)@.input.len() as int),
    ensures
        final(state)@ == tick_outcome(old(state)@, events@).1,
        r is Ok <==> tick_outcome(old(state)@, events@).0,
        r is Err ==> r->Err_0 == SpawnError::GridExhausted,
        final(state)@.wf(),
        final(state)@.input.len() == old(state)@.input.len(),
        final(state)@.snakes.len() == old(state)@.snakes.len(),
{
    proof {
        reveal(tick_outcome);
        reveal(SimStateV::wf);
        assert_seqs_equal!(events@.skip(0) == events@);
    }
    let n = events.len();
    let mut i: usize = 0;
    while i < n
        invariant
            i <= n,
            n == events@.len(),
            events_ok(events@, old(state)@.input.len() as int),
            state.input@.len() == old(state)@.input.len(),
            apply_events(old(state)@.input, events@) == apply_events(
                state.input@,
                events@.skip(i as int),
            ),
            state.snakes@ == old(state).snakes@,
            state.foods@ == old(state).foods@,
            state.counter == old(state).counter,
            state.rng == old(state).rng,
        decreases n - i,
    {
        let ghost inp_pre = state.input@;
        let ev = events[i];
        match ev {
            InputEvent::KeyDown { player, action } => state.input.record_key_down(player, action),
            InputEvent::KeyUp { player, action } => state.input.record_key_up(player, action),
        }
        proof {
            assert(state.input@ == apply_event(inp_pre, events@[i as int]));
            assert(events@.skip(i as int)[0] == events@[i as int]);
            assert_seqs_equal!(
                events@.skip(i as int).drop_first() == events@.skip(i as int + 1)
            );
        }
        i = i + 1;
    }
    proof {
        assert_seqs_equal!(events@.skip(n as int) == Seq::<InputEvent>::empty());
        assert(apply_events(state.input@, Seq::<InputEvent>::empty()) == state.input@);
    }
    let ghost input1 = state.input@;
    let ghost snakes0 = views_of_snakes(state.snakes@);
    proof {
        assert forall|k: int| 0 <= k < state.snakes@.len() implies #[trigger] state.snakes@[
            k
        ].player.id < state.input@.len() by {
            assert(old(state)@.snakes[k] == old(state).snakes@[k]@);
            assert(old(state)@.snakes[k].wf());
        }
        assert forall|k: int| 0 <= k < state.snakes@.len() implies #[trigger] state.snakes@[
            k
        ].wf() by {
            assert(old(state)@.snakes[k] == old(state).snakes@[k]@);
            assert(old(state)@.snakes[k].wf());
        }
    }
    let ghost pre_steer = state.snakes@;
    change_move_direction(&state.input, &mut state.snakes);
    let ghost snakes1 = views_of_snakes(state.snakes@);
    proof {
        assert forall|k: int| 0 <= k < state.snakes@.len() implies (#[trigger] state.snakes@[k]@
            == steer_sv(snakes0[k], input1) && state.snakes@[k].wf()) by {
            assert(pre_steer[k].player.id < input1.len());
            assert(snakes0[k] == pre_steer[k]@);
            assert(state.snakes@[k].move_direction == steered(
                pre_steer[k].move_direction,
                input1[pre_steer[k].player.id as int],
            ));
        }
        assert_seqs_equal!(snakes1 == snakes0.map_values(|sv: SnakeV| steer_sv(sv, input1)), k => {
            assert(snakes1[k] == steer_sv(snakes0[k], input1));
        });
    }
    let ghost pre_step = state.snakes@;
    move_snake(&mut state.snakes);
    let ghost snakes2 = views_of_snakes(state.snakes@);
    proof {
        assert forall|k: int| 0 <= k < state.snakes@.len() implies (#[trigger] state.snakes@[k]@
            == stepped_v(snakes1[k])) by {
            assert(state.snakes@[k] == stepped(pre_step[k]));
            assert(snakes1[k] == pre_step[k]@);
        }
        assert_seqs_equal!(snakes2 == snakes1.map_values(|sv: SnakeV| stepped_v(sv)), k => {
            assert(snakes2[k] == stepped_v(snakes1[k]));
        });
        lemma_spawn_loop_shape(
            state.counter.food_positions@,
            Seq::<SpawnedFood>::empty(),
            state.rng.state,
            state.counter.current_food as nat,
            food_target(state.counter.food_count),
        );
    }
    let ghost pre_spawn = *state;
    let spawn_result = food_spawner(&mut state.counter, &mut state.rng);
    match spawn_result {
        Result::Err(e) => {
            proof {
                assert(state@ =~~= tick_outcome(old(state)@, events@).1);
            }
            Result::Err(e)
        },
        Result::Ok(mut fs) => {
            let ghost f2 = fs@;
            state.foods.append(&mut fs);
            state.input.end_of_tick_decay();
            proof {
                assert(spawned_cells(f2.skip(0)) == spawned_cells(f2)) by {
                    assert_seqs_equal!(f2.skip(0) == f2);
                }
                assert(state@.food_positions == spawned_cells(state@.foods)) by {
                    assert_seqs_equal!(
                        spawned_cells(pre_spawn@.foods + f2) ==
                        spawned_cells(pre_spawn@.foods) + spawned_cells(f2),
                        k => {}
                    );
                }
                assert(state@ =~~= tick_outcome(old(state)@, events@).1);
            }
            Result::Ok(())
        },
    }
}

/// Copies a tick's event list.
fn copy_events(v: &Vec<InputEvent>) -> (r: Vec<InputEvent>)
    ensures
        r@ == v@,
{
    let n = v.len();
    let mut r: Vec<InputEvent> = Vec::new();
    let mut i: usize = 0;
    while i < n
        invariant
            i <= n,
            n == v@.len(),
            r@ == v@.subrange(0, i as int),
        decreases n - i,
    {
        r.push(v[i]);
        i = i + 1;
    }
    proof {
        assert(v@.subrange(0, n as int) == v@);
    }
    r
}

/// Copies a list of spawned food records.
fn copy_foods(v: &Vec<SpawnedFood>) -> (r: Vec<SpawnedFood>)
    ensures
        r@ == v@,
{
    let n = v.len();
    let mut r: Vec<SpawnedFood> = Vec::new();
    let mut i: usize = 0;
    while i < n
        invariant
            i <= n,
            n == v@.len(),
            r@ == v@.subrange(0, i as int),
        decreases n - i,
    {
        r.push(v[i]);
        i = i + 1;
    }
    proof {
        assert(v@.subrange(0, n as int) == v@);
    }
    r
}

/// Copies a list of snakes; the copies mirror the originals exactly.
fn copy_snakes(v: &Vec<Snake>) -> (r: Vec<Snake>)
    ensures
        views_of_snakes(r@) == views_of_snakes(v@),
{
    let n = v.len();
    let mut r: Vec<Snake> = Vec::new();
    let mut i: usize = 0;
    while i < n
        invariant
            i <= n,
            n == v@.len(),
            r@.len() == i,
            forall|k: int| 0 <= k < i ==> #[trigger] r@[k]@ == v@[k]@,
        decreases n - i,
    {
        r.push(v[i].snapshot());
        i = i + 1;
    }
    proof {
        assert_seqs_equal!(views_of_snakes(r@) == views_of_snakes(v@), k => {
            assert(r@[k]@ == v@[k]@);
        });
    }
    r
}

impl SimState {
    /// A full copy of the frame, mirroring it exactly — what the history
    /// engine stores per retained frame.
    pub fn snapshot(&self) -> (r: SimState)
        ensures
            r@ == self@,
    {
        let r = SimState {
            input: self.input.snapshot(),
            snakes: copy_snakes(&self.snakes),
            foods: copy_foods(&self.foods),
            counter: self.counter.snapshot(),
            rng: self.rng,
        };
        proof {
            assert(r@ =~~= self@);
        }
        r
    }
}

/// A correction could not be carried out.
#[derive(Clone, Copy, PartialEq, Eq, Structural, Debug)]
pub enum RollbackError {
    /// The addressed frame is outside the retained history window.
    FrameNotRetained,
}

/// The retained history window: one snapshot per frame in
/// `[base, base + events.len()]` and the raw events of each of those
/// frames, chained by the tick function.
pub struct History {
    /// Most snapshots ever retained; older frames are dropped.
    pub capacity: usize,
    /// The earliest retained frame.
    pub base: u64,
    /// `snapshots[i]` is the state at the start of frame `base + i`.
    pub snapshots: Vec<SimState>,
    /// `events[i]` are the raw events of frame `base + i`.
    pub events: Vec<Vec<InputEvent>>,
}

impl History {
    /// The ghost mirrors of the retained snapshots.
    pub open spec fn snapshot_views(self) -> Seq<SimStateV> {
        self.snapshots@.map_values(|s: SimState| s@)
    }

    /// The retained event lists as sequences.
    pub open spec fn event_views(self) -> Seq<Seq<InputEvent>> {
        self.events@.map_values(|v: Vec<InputEvent>| v@)
    }

    /// How many players every retained frame tracks.
    pub open spec fn players(self) -> int {
        self.snapshot_views()[0].input.len() as int
    }

    /// The newest frame: the one the next tick will append.
    pub open spec fn current_frame_spec(self) -> int {
        self.base as int + self.event_views().len()
    }

    /// The history invariant: one more snapshot than event lists, at
    /// most `capacity` snapshots, every snapshot well-formed with the
    /// same player count, every event list valid for that count, and
    /// each snapshot is exactly the tick of its predecessor — so a
    /// replay from any retained frame reproduces the run.
    #[verifier::opaque]
    pub open spec fn wf(self) -> bool {
        &&& self.capacity >= 1
        &&& self.snapshots@.len() == self.events@.len() + 1
        &&& self.snapshots@.len() <= self.capacity
        &&& self.base as int + self.events@.len() <= u64::MAX as int
        &&& forall|i: int|
            0 <= i < self.snapshot_views().len() ==> (#[trigger] self.snapshot_views()[i]).wf()
        &&& forall|i: int|
            0 <= i < self.snapshot_views().len() ==> (#[trigger] self.snapshot_views()[
                i
            ]).input.len() == self.players()
        &&& forall|i: int|
            0 <= i < self.event_views().len() ==> events_ok(
                #[trigger] self.event_views()[i],
                self.players(),
            )
        &&& forall|i: int|
            0 <= i < self.event_views().len() ==> tick_outcome(
                self.snapshot_views()[i],
                #[trigger] self.event_views()[i],
            ) == (true, self.snapshot_views()[i + 1])
    }

    /// A history that retains at most `capacity` frames, holding only
    /// the given initial frame.
    pub fn new(capacity: usize, initial: SimState) -> (h: History)
        requires
            capacity >= 1,
            initial@.wf(),
        ensures
            h.wf(),
            h.capacity == capacity,
            h.base == 0,
            h.snapshot_views() == seq![initial@],
            h.event_views() == Seq::<Seq<InputEvent>>::empty(),
    {
        let mut snapshots: Vec<SimState> = Vec::new();
        snapshots.push(initial);
        let h = History { capacity, base: 0, snapshots, events: Vec::new() };
        proof {
            reveal(History::wf);
            assert_seqs_equal!(h.snapshot_views() == seq![initial@]);
            assert_seqs_equal!(h.event_views() == Seq::<Seq<InputEvent>>::empty());
        }
        h
    }

    /// The newest frame number.
    pub fn current_frame(&self) -> (f: u64)
        requires
            self.wf(),
        ensures
            f as int == self.current_frame_spec(),
    {
        proof {
            assert(self.base as int + self.events@.len() <= u64::MAX as int) by {
                reveal(History::wf);
            }
        }
        self.base + (self.events.len() as u64)
    }

    /// Read-only access to the newest committed frame.
    pub fn latest(&self) -> (s: &SimState)
        requires
            self.wf(),
        ensures
            s@ == self.snapshot_views().last(),
    {
        proof {
            assert(self.snapshots@.len() >= 1) by {
                reveal(History::wf);
            }
        }
        &self.snapshots[self.snapshots.len() - 1]
    }

    /// Advances the history by one frame: ticks the newest snapshot with
    /// this frame's events and appends the result, dropping the oldest
    /// frame once the window is full.  When the tick fails the history
    /// is left untouched and the error is passed on.
    pub fn record_tick(&mut self, events: Vec<InputEvent>) -> (r: Result<(), SpawnError>)
        requires
            old(self).wf(),
            events_ok(events@, old(self).players()),
            old(self).current_frame_spec() < u64::MAX as int,
        ensures
            final(self).wf(),
            ({
                let pre = old(self).snapshot_views().last();
                let (ok, v2) = tick_outcome(pre, events@);
                let dropped = old(self).snapshots@.len() == old(self).capacity;
                &&& (r is Ok <==> ok)
                &&& (r is Err ==> *final(self) == *old(self) && r->Err_0
                    == SpawnError::GridExhausted)
                &&& (ok && !dropped ==> {
                    &&& final(self).base == old(self).base
                    &&& final(self).snapshot_views() == old(self).snapshot_views().push(v2)
                    &&& final(self).event_views() == old(self).event_views().push(events@)
                })
                &&& (ok && dropped ==> {
                    &&& final(self).base == old(self).base + 1
                    &&& final(self).snapshot_views() == old(self).snapshot_views().push(
                        v2,
                    ).drop_first()
                    &&& final(self).event_views() == old(self).event_views().push(
                        events@,
                    ).drop_first()
                })
                &&& final(self).capacity == old(self).capacity
            }),
    {
        proof {
            reveal(History::wf);
        }
        let mut next = self.latest().snapshot();
        let r = tick(&mut next, &events);
        if let Result::Err(e) = r {
            return Result::Err(e);
        }
        self.snapshots.push(next);
        self.events.push(events);
        proof {
            assert_seqs_equal!(
                self.snapshot_views() == old(self).snapshot_views().push(
                    tick_outcome(old(self).snapshot_views().last(), self.event_views().last()).1
                )
            );
            assert_seqs_equal!(
                self.event_views() == old(self).event_views().push(self.events@.last()@)
            );
        }
        if self.snapshots.len() > self.capacity {
            let ghost pre = *self;
            let _ = self.snapshots.remove(0);
            let _ = self.events.remove(0);
            self.base = self.base + 1;
            proof {
                assert_seqs_equal!(
                    self.snapshot_views() == pre.snapshot_views().drop_first(),
                    k => {
                        assert(self.snapshots@[k] == pre.snapshots@.remove(0)[k]);
                    }
                );
                assert_seqs_equal!(
                    self.event_views() == pre.event_views().drop_first(),
                    k => {
                        assert(self.events@[k] == pre.events@.remove(0)[k]);
                    }
                );
            }
        }
        Result::Ok(())
    }

    /// Registers a one-shot correction — a synthetic input event — against
    /// a retained past frame, applies it before that frame's recorded
    /// events, and replays every later frame forward from the frame's
    /// snapshot.  A frame outside the retained window is reported as not
    /// retained, never clamped; a correction to a retained frame always
    /// succeeds, because the correction leaves the scheduler state of the
    /// recorded frames untouched and their recorded ticks succeeded.
    #[verifier::rlimit(100)]
    pub fn schedule_past_mutation(&mut self, frame: u64, ev: InputEvent) -> (r: Result<
        (),
        RollbackError,
    >)
        requires
            old(self).wf(),
            event_player(ev) < old(self).players(),
        ensures
            final(self).wf(),
            r is Ok <==> old(self).base <= frame && (frame as int) < old(self).base as int + old(
                self,
            ).event_views().len(),
            r is Err ==> r->Err_0 == RollbackError::FrameNotRetained && *final(self) == *old(self),
            r is Ok ==> ({
                let idx = frame as int - old(self).base as int;
                &&& final(self).base == old(self).base
                &&& final(self).capacity == old(self).capacity
                &&& final(self).event_views() == old(self).event_views().update(
                    idx,
                    seq![ev] + old(self).event_views()[idx],
                )
                &&& final(self).snapshot_views().len() == old(self).snapshot_views().len()
                &&& final(self).snapshot_views().take(idx + 1) == old(self).snapshot_views().take(
                    idx + 1,
                )
            }),
    {
        if frame < self.base {
            return Result::Err(RollbackError::FrameNotRetained);
        }
        let off = frame - self.base;
        if off >= self.events.len() as u64 {
            return Result::Err(RollbackError::FrameNotRetained);
        }
        let idx = off as usize;
        let new_evs = corrected_events(self, idx, ev);
        let new_snaps = replay_frames(self, idx, &new_evs);
        commit_replay(self, idx, new_evs, new_snaps);
        Result::Ok(())
    }
}

/// The corrected event list of the target frame: the injected event,
/// then the frame's recorded events.
fn corrected_events(h: &History, idx: usize, ev: InputEvent) -> (r: Vec<InputEvent>)
    requires
        h.wf(),
        idx < h.events@.len(),
        event_player(ev) < h.players(),
    ensures
        r@ == seq![ev] + h.event_views()[idx as int],
        events_ok(r@, h.players()),
{
    let mut new_evs: Vec<InputEvent> = Vec::new();
    new_evs.push(ev);
    let mut rest = copy_events(&h.events[idx]);
    new_evs.append(&mut rest);
    proof {
        assert_seqs_equal!(new_evs@ == seq![ev] + h.event_views()[idx as int]);
        assert(events_ok(h.event_views()[idx as int], h.players())) by {
            reveal(History::wf);
        }
        assert forall|k: int| 0 <= k < new_evs@.len() implies event_player(
            #[trigger] new_evs@[k],
        ) < h.players() by {
            if k > 0 {
                assert(new_evs@[k] == h.event_views()[idx as int][k - 1]);
            }
        }
    }
    new_evs
}

/// Re-executes the retained frames from `idx` on with the corrected
/// event list in place, into a scratch snapshot list; the history itself
/// is not touched.  The replay cannot fail: every replayed tick starts
/// from the scheduler state of a recorded tick that succeeded.
#[verifier::rlimit(100)]
#[verifier::spinoff_prover]
fn replay_frames(h: &History, idx: usize, new_evs: &Vec<InputEvent>) -> (ns: Vec<SimState>)
    requires
        h.wf(),
        idx < h.events@.len(),
        events_ok(new_evs@, h.players()),
    ensures
        replay_prefix_ok(*h, idx as int, new_evs@, ns@),
        ns@.len() == h.events@.len() - idx,
{
    let mut cur = replay_first(h, idx, new_evs);
    let mut new_snaps: Vec<SimState> = Vec::new();
    new_snaps.push(cur.snapshot());
    proof {
        assert(new_snaps@[0]@ == cur@);
        assert(replay_prefix_ok(*h, idx as int, new_evs@, new_snaps@)) by {
            reveal(replay_prefix_ok);
        }
    }
    let n = h.events.len();
    let mut j: usize = idx + 1;
    while j < n
        invariant
            idx < j <= n,
            h.wf(),
            idx < h.events@.len(),
            n == h.events@.len(),
            new_snaps@.len() == j - idx,
            cur@ == new_snaps@.last()@,
            cur@.wf(),
            cur@.input.len() == h.players(),
            scheduler_state_eq(cur@, h.snapshot_views()[j as int]),
            replay_prefix_ok(*h, idx as int, new_evs@, new_snaps@),
        decreases n - j,
    {
        replay_step(h, idx, j, Ghost(new_evs@), &mut cur, &mut new_snaps);
        j = j + 1;
    }
    new_snaps
}

/// One replayed frame beyond the corrected one: ticks the working state
/// with the frame's recorded events and appends the snapshot.  The tick
/// cannot fail: success depends only on the scheduler state, the working
/// state carries the recorded frame's scheduler state, and the recorded
/// tick of this frame succeeded.
#[verifier::rlimit(100)]
#[verifier::spinoff_prover]
fn replay_step(
    h: &History,
    idx: usize,
    j: usize,
    new_evs: Ghost<Seq<InputEvent>>,
    cur: &mut SimState,
    new_snaps: &mut Vec<SimState>,
)
    requires
        h.wf(),
        idx < j < h.events@.len(),
        old(new_snaps)@.len() == j - idx,
        old(cur)@ == old(new_snaps)@.last()@,
        old(cur)@.wf(),
        old(cur)@.input.len() == h.players(),
        scheduler_state_eq(old(cur)@, h.snapshot_views()[j as int]),
        replay_prefix_ok(*h, idx as int, new_evs@, old(new_snaps)@),
    ensures
        final(new_snaps)@.len() == j + 1 - idx,
        final(cur)@ == final(new_snaps)@.last()@,
        final(cur)@.wf(),
        final(cur)@.input.len() == h.players(),
        scheduler_state_eq(final(cur)@, h.snapshot_views()[j as int + 1]),
        replay_prefix_ok(*h, idx as int, new_evs@, final(new_snaps)@),
{
    proof {
        assert(events_ok(h.event_views()[j as int], h.players())) by {
            reveal(History::wf);
        }
        assert(h.event_views()[j as int] == h.events@[j as int]@);
        assert(h.snapshots@.len() == h.events@.len() + 1) by {
            reveal(History::wf);
        }
        assert(tick_outcome(h.snapshot_views()[j as int], h.event_views()[j as int]) == (
            true,
            h.snapshot_views()[j as int + 1],
        )) by {
            reveal(History::wf);
        }
        lemma_tick_scheduler_only(
            old(cur)@,
            h.event_views()[j as int],
            h.snapshot_views()[j as int],
            h.event_views()[j as int],
        );
    }
    let ghost pre_snaps = new_snaps@;
    let _ticked = tick(cur, &h.events[j]);
    new_snaps.push(cur.snapshot());
    proof {
        assert(_ticked is Ok);
        assert(new_snaps@.last()@ == cur@);
        assert(new_snaps@ == pre_snaps.push(new_snaps@.last()));
        lemma_replay_extend(*h, idx as int, new_evs@, pre_snaps, new_snaps@.last(), j as int);
    }
}

#[verifier::rlimit(100)]
#[verifier::spinoff_prover]
proof fn lemma_replay_extend(
    h: History,
    idx: int,
    new_evs: Seq<InputEvent>,
    pre: Seq<SimState>,
    s: SimState,
    j: int,
)
    requires
        replay_prefix_ok(h, idx, new_evs, pre),
        pre.len() == j - idx,
        0 <= idx < j < h.events@.len(),
        tick_outcome(pre.last()@, h.event_views()[j]) == (true, s@),
        s@.wf(),
        s@.input.len() == h.players(),
    ensures
        replay_prefix_ok(h, idx, new_evs, pre.push(s)),
{
    reveal(replay_prefix_ok);
    let ns = pre.push(s);
    assert forall|k: int|
        0 <= k < ns.len() - 1 implies tick_outcome((#[trigger] ns[k])@, h.event_views()[idx + 1 + k])
        == (true, ns[k + 1]@) by {
        if k < pre.len() - 1 {
            assert(ns[k] == pre[k]);
            assert(ns[k + 1] == pre[k + 1]);
        } else {
            assert(ns[k] == pre.last());
            assert(ns[k + 1] == s);
            assert(idx + 1 + k == j);
        }
    }
}

/// What a replay in progress has established: the scratch snapshots
/// start with the corrected frame's tick and are chained by the tick
/// function along the frames' recorded events.
#[verifier::opaque]
pub open spec fn replay_prefix_ok(
    h: History,
    idx: int,
    new_evs: Seq<InputEvent>,
    ns: Seq<SimState>,
) -> bool {
    &&& 1 <= ns.len() <= h.events@.len() - idx
    &&& forall|k: int|
        0 <= k < ns.len() ==> (#[trigger] ns[k]@).wf() && ns[k]@.input.len() == h.players()
    &&& tick_outcome(h.snapshot_views()[idx], new_evs) == (true, ns[0]@)
    &&& forall|k: int|
        0 <= k < ns.len() - 1 ==> tick_outcome((#[trigger] ns[k])@, h.event_views()[idx + 1 + k])
            == (true, ns[k + 1]@)
}

/// Re-executes the corrected target frame alone, from its retained
/// snapshot, without touching the history.  The tick cannot fail: the
/// frame's recorded tick succeeded, success depends only on the
/// scheduler state, and the correction changes only the input events.
#[verifier::rlimit(100)]
#[verifier::spinoff_prover]
fn replay_first(h: &History, idx: usize, new_evs: &Vec<InputEvent>) -> (s: SimState)
    requires
        h.wf(),
        idx < h.events@.len(),
        events_ok(new_evs@, h.players()),
    ensures
        tick_outcome(h.snapshot_views()[idx as int], new_evs@) == (true, s@),
        s@.wf(),
        s@.input.len() == h.players(),
        scheduler_state_eq(s@, h.snapshot_views()[idx as int + 1]),
{
    proof {
        assert(h.snapshots@.len() == h.events@.len() + 1) by {
            reveal(History::wf);
        }
    }
    let mut cur = h.snapshots[idx].snapshot();
    proof {
        assert(cur@ == h.snapshot_views()[idx as int]);
        assert(h.snapshot_views()[idx as int].wf() && h.snapshot_views()[idx as int].input.len()
            == h.players()) by {
            reveal(History::wf);
        }
        assert(tick_outcome(h.snapshot_views()[idx as int], h.event_views()[idx as int]) == (
            true,
            h.snapshot_views()[idx as int + 1],
        )) by {
            reveal(History::wf);
        }
        lemma_tick_scheduler_only(
            cur@,
            new_evs@,
            h.snapshot_views()[idx as int],
            h.event_views()[idx as int],
        );
    }
    let _ticked = tick(&mut cur, new_evs);
    proof {
        assert(_ticked is Ok);
    }
    cur
}

/// Installs a finished replay: replaces the target frame's event list
/// and every snapshot after the target frame with the replayed ones.
#[verifier::rlimit(100)]
#[verifier::spinoff_prover]
fn commit_replay(h: &mut History, idx: usize, new_evs: Vec<InputEvent>, new_snaps: Vec<SimState>)
    requires
        old(h).wf(),
        idx < old(h).events@.len(),
        new_snaps@.len() == old(h).events@.len() - idx,
        events_ok(new_evs@, old(h).players()),
        replay_prefix_ok(*old(h), idx as int, new_evs@, new_snaps@),
    ensures
        final(h).wf(),
        final(h).base == old(h).base,
        final(h).capacity == old(h).capacity,
        final(h).event_views() == old(h).event_views().update(idx as int, new_evs@),
        final(h).snapshot_views().len() == old(h).snapshot_views().len(),
        final(h).snapshot_views().take(idx as int + 1) == old(h).snapshot_views().take(
            idx as int + 1,
        ),
{
    let ghost ns = new_snaps@;
    let ghost nev = new_evs@;
    let ghost old_snap_views = h.snapshot_views();
    let ghost old_ev_views = h.event_views();
    let ghost n = h.events@.len();
    let mut new_snaps = new_snaps;
    let n_ev = h.events.len();
    proof {
        assert(idx < n_ev);
        assert(h.snapshots@.len() == n + 1) by {
            reveal(History::wf);
        }
    }
    h.events[idx] = new_evs;
    h.snapshots.truncate(idx + 1);
    h.snapshots.append(&mut new_snaps);
    proof {
        assert_seqs_equal!(h.event_views() == old_ev_views.update(idx as int, nev));
        assert(h.snapshots@.len() == n + 1);
        assert forall|k: int|
            0 <= k < h.snapshot_views().len() implies #[trigger] h.snapshot_views()[k] == (
        if k <= idx as int {
            old_snap_views[k]
        } else {
            ns[k - idx - 1]@
        }) by {
            if k <= idx as int {
                assert(h.snapshots@[k] == old(h).snapshots@.subrange(0, idx as int + 1)[k]);
            } else {
                assert(h.snapshots@[k] == ns[k - idx - 1]);
            }
        }
        assert_seqs_equal!(
            h.snapshot_views().take(idx as int + 1) == old_snap_views.take(idx as int + 1)
        );
        lemma_commit_wf(*old(h), *h, idx as int, nev, ns);
    }
}

/// The committed history is well-formed again: the old chain holds up
/// to the edited frame, the corrected tick links it to the replayed
/// snapshots, and those are chained among themselves.
#[verifier::rlimit(100)]
#[verifier::spinoff_prover]
proof fn lemma_commit_wf(pre: History, post: History, idx: int, nev: Seq<InputEvent>, ns: Seq<
    SimState,
>)
    requires
        pre.wf(),
        0 <= idx < pre.events@.len(),
        ns.len() == pre.events@.len() - idx,
        events_ok(nev, pre.players()),
        replay_prefix_ok(pre, idx, nev, ns),
        post.capacity == pre.capacity,
        post.base == pre.base,
        post.snapshot_views().len() == pre.events@.len() + 1,
        post.event_views() == pre.event_views().update(idx, nev),
        forall|k: int|
            0 <= k < post.snapshot_views().len() ==> #[trigger] post.snapshot_views()[k] == (if k
                <= idx {
                pre.snapshot_views()[k]
            } else {
                ns[k - idx - 1]@
            }),
    ensures
        post.wf(),
{
    reveal(replay_prefix_ok);
    assert(post.players() == pre.players());
    assert forall|k: int|
        0 <= k < post.snapshot_views().len() implies (#[trigger] post.snapshot_views()[k]).wf()
        && post.snapshot_views()[k].input.len() == post.players() by {
        reveal(History::wf);
        if k <= idx {
            assert(pre.snapshot_views()[k].wf());
        } else {
            assert(ns[k - idx - 1]@.wf());
        }
    }
    assert forall|i: int| 0 <= i < post.event_views().len() implies events_ok(
        #[trigger] post.event_views()[i],
        post.players(),
    ) by {
        reveal(History::wf);
        if i != idx {
            assert(post.event_views()[i] == pre.event_views()[i]);
        }
    }
    assert forall|i: int| 0 <= i < post.event_views().len() implies tick_outcome(
        post.snapshot_views()[i],
        #[trigger] post.event_views()[i],
    ) == (true, post.snapshot_views()[i + 1]) by {
        if i < idx {
            assert(tick_outcome(pre.snapshot_views()[i], pre.event_views()[i]) == (
                true,
                pre.snapshot_views()[i + 1],
            )) by {
                reveal(History::wf);
            }
        } else if i == idx {
            assert(tick_outcome(pre.snapshot_views()[idx], nev) == (true, ns[0]@));
        } else {
            assert(tick_outcome(ns[i - idx - 1]@, pre.event_views()[i]) == (true, ns[i - idx]@));
            assert(post.event_views()[i] == pre.event_views()[i]);
        }
    }
    assert(post.wf()) by {
        reveal(History::wf);
        assert(pre.snapshots@.len() == pre.events@.len() + 1);
        assert(pre.snapshots@.len() <= pre.capacity);
        assert(pre.base as int + pre.events@.len() <= u64::MAX as int);
    }
}

/// Law (rollback determinism): two well-formed histories of the same
/// length that agree on the snapshot of some frame `k` and on all events
/// from `k` on agree on every later snapshot — replaying a range of
/// frames from a restored snapshot with identical inputs reproduces the
/// original run exactly.
pub proof fn lemma_replay_reproduces(h1: History, h2: History, k: int, j: int)
    requires
        h1.wf(),
        h2.wf(),
        h1.event_views().len() == h2.event_views().len(),
        0 <= k <= j <= h1.event_views().len(),
        h1.snapshot_views()[k] == h2.snapshot_views()[k],
        forall|i: int|
            k <= i < h1.event_views().len() ==> #[trigger] h1.event_views()[i]
                == h2.event_views()[i],
    ensures
        h1.snapshot_views()[j] == h2.snapshot_views()[j],
    decreases j - k,
{
    reveal(History::wf);
    if j > k {
        lemma_replay_reproduces(h1, h2, k, j - 1);
        assert(tick_outcome(h1.snapshot_views()[j - 1], h1.event_views()[j - 1]) == (
            true,
            h1.snapshot_views()[j],
        ));
        assert(tick_outcome(h2.snapshot_views()[j - 1], h2.event_views()[j - 1]) == (
            true,
            h2.snapshot_views()[j],
        ));
    }
}

} // verus!
