//! Direction controller and movement stepper.
//!
//! The controller turns buffered input edges into a heading change,
//! enforcing the no-180-degree-reversal rule with the documented tie-break
//! priority Up > Down > Left > Right.  The stepper advances each snake on
//! an integer countdown gated by its speed and a finite boost fuel, so a
//! tick is exactly reproducible across a rollback replay.

use crate::snake_input::Action;
use crate::snake_input::ActionMap;
use crate::snake_input::SnakeInput;
use crate::snake_input::is_held;
use vstd::prelude::*;

verus! {

/// Side length of one grid cell, in world units.
pub const CELL_SIZE: i64 = 16;

/// An axis-aligned unit heading, or zero before the first turn.
#[derive(Clone, Copy, PartialEq, Eq, Structural, Debug)]
pub struct Heading {
    pub x: i32,
    pub y: i32,
}

/// A world-space position on the grid.
#[derive(Clone, Copy, PartialEq, Eq, Structural, Debug)]
pub struct Position {
    pub x: i64,
    pub y: i64,
}

/// Identifies which player's input stream drives an entity.
#[derive(Clone, Copy, PartialEq, Eq, Structural, Debug)]
pub struct Player {
    pub id: usize,
}

/// Heading plus movement timing state of one snake.
#[derive(Clone, Copy, PartialEq, Eq, Structural, Debug)]
pub struct MoveDirection {
    /// Current heading: a unit vector on one axis, or zero before start.
    pub direction: Heading,
    /// Sticky boost flag, cleared only when the fuel runs out.
    pub boosted: bool,
    /// Countdown until the next move; the snake moves when it reaches zero.
    pub timer: i8,
    /// Monotonically increasing tick counter (diagnostic only; wraps).
    pub frame: u64,
    /// Remaining boost fuel.
    pub boost: i8,
}

/// The controllable actor: its speed and its body-segment references.
pub struct SnakeHead {
    /// Ticks between two moves; always at least one.
    pub speed: i8,
    /// Entity references of the body segments, in order.
    pub segments: Vec<u64>,
    /// How much growth has been applied so far.
    pub segments_added: i8,
}

/// One snake entity: transform, head state, owning player and heading.
pub struct Snake {
    pub position: Position,
    pub head: SnakeHead,
    pub player: Player,
    pub move_direction: MoveDirection,
}

/// A heading is valid when it is one of the four axis-aligned unit
/// vectors, or zero before the snake has started moving.
pub open spec fn heading_wf(h: Heading) -> bool {
    ||| h == (Heading { x: 0, y: 0 })
    ||| h == (Heading { x: 0, y: 1 })
    ||| h == (Heading { x: 0, y: -1i32 })
    ||| h == (Heading { x: 1, y: 0 })
    ||| h == (Heading { x: -1i32, y: 0 })
}

/// Whether `a` and `b` are exactly opposite axis headings.
pub open spec fn opposite_of(a: Heading, b: Heading) -> bool {
    a.x + b.x == 0 && a.y + b.y == 0
}

impl MoveDirection {
    /// Timing state is valid: the heading is axis-aligned and the boost
    /// fuel is never negative.
    pub open spec fn wf(self) -> bool {
        heading_wf(self.direction) && self.boost >= 0
    }
}

/// Ghost mirror of [`SnakeHead`], with the segment list as a sequence.
#[verifier::ext_equal]
pub struct HeadV {
    pub speed: i8,
    pub segments: Seq<u64>,
    pub segments_added: i8,
}

/// Ghost mirror of a whole [`Snake`].
#[verifier::ext_equal]
pub struct SnakeV {
    pub position: Position,
    pub head: HeadV,
    pub player: Player,
    pub move_direction: MoveDirection,
}

impl View for SnakeHead {
    type V = HeadV;

    open spec fn view(&self) -> HeadV {
        HeadV {
            speed: self.speed,
            segments: self.segments@,
            segments_added: self.segments_added,
        }
    }
}

impl View for Snake {
    type V = SnakeV;

    open spec fn view(&self) -> SnakeV {
        SnakeV {
            position: self.position,
            head: self.head@,
            player: self.player,
            move_direction: self.move_direction,
        }
    }
}

impl SnakeV {
    /// A snake is valid when its speed is positive, the segment list
    /// length equals the growth applied so far, and the timing state is
    /// valid.
    pub open spec fn wf(self) -> bool {
        &&& self.head.speed >= 1
        &&& self.head.segments_added >= 0
        &&& self.head.segments.len() == self.head.segments_added as int
        &&& self.move_direction.wf()
    }
}

impl Snake {
    /// A snake is valid when its ghost mirror is.
    pub open spec fn wf(self) -> bool {
        self@.wf()
    }

    /// A copy of the snake, for the history engine's snapshots.
    pub fn snapshot(&self) -> (r: Snake)
        ensures
            r@ == self@,
    {
        let n = self.head.segments.len();
        let mut segments: Vec<u64> = Vec::new();
        let mut i: usize = 0;
        while i < n
            invariant
                i <= n,
                n == self.head.segments@.len(),
                segments@ == self.head.segments@.subrange(0, i as int),
            decreases n - i,
        {
            segments.push(self.head.segments[i]);
            i = i + 1;
        }
        proof {
            assert(self.head.segments@.subrange(0, n as int) == self.head.segments@);
        }
        let r = Snake {
            position: self.position,
            head: SnakeHead {
                speed: self.head.speed,
                segments,
                segments_added: self.head.segments_added,
            },
            player: self.player,
            move_direction: self.move_direction,
        };
        proof {
            assert(r@ =~~= self@);
        }
        r
    }
}

/// The fields of the snake that [`spawn_snake`] produces.
pub open spec fn is_initial_snake(s: Snake) -> bool {
    &&& s.position == (Position { x: 0, y: 0 })
    &&& s.head.speed == 10
    &&& s.head.segments@ == Seq::<u64>::empty()
    &&& s.head.segments_added == 0
    &&& s.player == (Player { id: 0 })
    &&& s.move_direction == (MoveDirection {
        direction: Heading { x: 0, y: 0 },
        boosted: false,
        timer: 1,
        frame: 0,
        boost: 10,
    })
}

/// The snake that the simulation starts with: at the origin, speed ten,
/// not yet moving, with full boost fuel.
pub fn spawn_snake() -> (s: Snake)
    ensures
        is_initial_snake(s),
        s.wf(),
{
    Snake {
        position: Position { x: 0, y: 0 },
        head: SnakeHead { speed: 10, segments: Vec::new(), segments_added: 0 },
        player: Player { id: 0 },
        move_direction: MoveDirection {
            direction: Heading { x: 0, y: 0 },
            boosted: false,
            timer: 1,
            frame: 0,
            boost: 10,
        },
    }
}

/// The heading after one controller pass: at most one axis change per
/// tick, priority Up > Down > Left > Right among simultaneous edges, and a
/// directional edge is ignored when the current heading is the exact
/// opposite axis.
pub open spec fn steer_heading(h: Heading, up: bool, down: bool, left: bool, right: bool) -> Heading {
    if up && h != (Heading { x: 0, y: -1i32 }) {
        Heading { x: 0, y: 1 }
    } else if down && h != (Heading { x: 0, y: 1 }) {
        Heading { x: 0, y: -1i32 }
    } else if left && h != (Heading { x: 1, y: 0 }) {
        Heading { x: -1i32, y: 0 }
    } else if right && h != (Heading { x: -1i32, y: 0 }) {
        Heading { x: 1, y: 0 }
    } else {
        h
    }
}

/// The timing state after one controller pass over the player's buffered
/// input: the Boost level sets the sticky boost flag, and the directional
/// edges steer the heading.
pub open spec fn steered(d: MoveDirection, m: ActionMap) -> MoveDirection {
    MoveDirection {
        boosted: if is_held(m.spec_get(Action::Boost)) {
            true
        } else {
            d.boosted
        },
        direction: steer_heading(
            d.direction,
            m.spec_get(Action::Up) is Pressed,
            m.spec_get(Action::Down) is Pressed,
            m.spec_get(Action::Left) is Pressed,
            m.spec_get(Action::Right) is Pressed,
        ),
        ..d
    }
}

/// One controller pass for one entity.  Reads the edges of the four
/// directional actions and the level of Boost; touches only the heading
/// and the boost flag, never the position.
pub fn steer_one(input: &SnakeInput, player: usize, d: &mut MoveDirection)
    requires
        player < input@.len(),
    ensures
        *final(d) == steered(*old(d), input@[player as int]),
        old(d).wf() ==> final(d).wf(),
{
    if input.down(player, &Action::Boost) {
        d.boosted = true;
    }
    if input.pressed(player, &Action::Up) && !(d.direction == Heading { x: 0, y: -1i32 }) {
        d.direction = Heading { x: 0, y: 1 };
    } else if input.pressed(player, &Action::Down) && !(d.direction == Heading { x: 0, y: 1 }) {
        d.direction = Heading { x: 0, y: -1i32 };
    } else if input.pressed(player, &Action::Left) && !(d.direction == Heading { x: 1, y: 0 }) {
        d.direction = Heading { x: -1i32, y: 0 };
    } else if input.pressed(player, &Action::Right) && !(d.direction == Heading { x: -1i32, y: 0 }) {
        d.direction = Heading { x: 1, y: 0 };
    }
}

/// One controller pass over every snake, in entity order.
pub fn change_move_direction(input: &SnakeInput, snakes: &mut Vec<Snake>)
    requires
        forall|i: int| 0 <= i < old(snakes)@.len() ==> #[trigger] old(snakes)@[i].player.id
            < input@.len(),
    ensures
        final(snakes)@.len() == old(snakes)@.len(),
        forall|i: int| 0 <= i < old(snakes)@.len() ==> {
            let s0 = #[trigger] old(snakes)@[i];
            let s1 = final(snakes)@[i];
            &&& s1.move_direction == steered(s0.move_direction, input@[s0.player.id as int])
            &&& s1.position == s0.position
            &&& s1.head == s0.head
            &&& s1.player == s0.player
            &&& (s0.wf() ==> s1.wf())
        },
{
    let n = snakes.len();
    let mut i: usize = 0;
    while i < n
        invariant
            i <= n,
            n == old(snakes)@.len(),
            snakes@.len() == n,
            forall|j: int| 0 <= j < n ==> #[trigger] old(snakes)@[j].player.id < input@.len(),
            forall|j: int| i <= j < n ==> #[trigger] snakes@[j] == old(snakes)@[j],
            forall|j: int| 0 <= j < i ==> {
                let s0 = #[trigger] old(snakes)@[j];
                let s1 = snakes@[j];
                &&& s1.move_direction == steered(s0.move_direction, input@[s0.player.id as int])
                &&& s1.position == s0.position
                &&& s1.head == s0.head
                &&& s1.player == s0.player
            },
        decreases n - i,
    {
        let player = snakes[i].player.id;
        steer_one(input, player, &mut snakes[i].move_direction);
        i = i + 1;
    }
}

/// Two's-complement wrap-around of an integer into the i64 range.  Only
/// used for values at most one step outside the range.
pub open spec fn wrap_i64(v: int) -> int {
    if v > i64::MAX {
        v - 0x1_0000_0000_0000_0000
    } else if v < i64::MIN {
        v + 0x1_0000_0000_0000_0000
    } else {
        v
    }
}

/// Adds a small delta to a coordinate with two's-complement wrap-around,
/// so that a move is total and deterministic at the edge of the range.
pub fn translate_coord(x: i64, d: i64) -> (r: i64)
    requires
        -16 <= d <= 16,
    ensures
        r as int == wrap_i64(x as int + d as int),
{
    if d >= 0 {
        if x <= i64::MAX - d {
            x + d
        } else {
            let excess = d - (i64::MAX - x);
            i64::MIN + (excess - 1)
        }
    } else {
        if x >= i64::MIN - d {
            x + d
        } else {
            let offset = x - i64::MIN;
            i64::MAX + (offset + d + 1)
        }
    }
}

/// The timing state after one movement-stepper tick: the frame counter
/// advances; when the countdown has run out it resets to the snake's
/// speed; otherwise it decrements by two while boost fuel is being spent
/// and by one otherwise, and the sticky boost flag is cleared the tick
/// after the fuel reaches zero.
pub open spec fn step_md(d: MoveDirection, speed: i8) -> MoveDirection {
    let frame2 = if d.frame == u64::MAX {
        0u64
    } else {
        (d.frame + 1) as u64
    };
    if d.timer <= 0 {
        MoveDirection { timer: speed, frame: frame2, ..d }
    } else {
        let boosted2 = if d.boost == 0 && d.boosted {
            false
        } else {
            d.boosted
        };
        let timer2 = d.timer - (if boosted2 {
            2int
        } else {
            1int
        });
        let boost2 = d.boost - (if boosted2 {
            1int
        } else {
            0int
        });
        MoveDirection {
            boosted: boosted2,
            timer: timer2 as i8,
            boost: boost2 as i8,
            frame: frame2,
            ..d
        }
    }
}

/// The position after one stepper tick: the snake translates by one cell
/// along its heading exactly when the countdown has run out.
pub open spec fn step_pos(p: Position, d: MoveDirection) -> Position {
    if d.timer <= 0 {
        Position {
            x: wrap_i64(p.x + CELL_SIZE * d.direction.x) as i64,
            y: wrap_i64(p.y + CELL_SIZE * d.direction.y) as i64,
        }
    } else {
        p
    }
}

/// The snake after one movement-stepper tick.
pub open spec fn stepped(s: Snake) -> Snake {
    Snake {
        position: step_pos(s.position, s.move_direction),
        move_direction: step_md(s.move_direction, s.head.speed),
        ..s
    }
}

/// One stepper tick on the ghost mirror of a snake.
pub open spec fn stepped_v(v: SnakeV) -> SnakeV {
    SnakeV {
        position: step_pos(v.position, v.move_direction),
        move_direction: step_md(v.move_direction, v.head.speed),
        ..v
    }
}

/// One controller pass on the ghost mirror of a snake: out-of-range
/// player identifiers leave the snake unchanged (the executable pass
/// requires them to be in range).
pub open spec fn steer_sv(v: SnakeV, input: Seq<ActionMap>) -> SnakeV {
    if v.player.id < input.len() {
        SnakeV { move_direction: steered(v.move_direction, input[v.player.id as int]), ..v }
    } else {
        v
    }
}

/// One movement-stepper tick for one snake.
pub fn step_one(s: &mut Snake)
    requires
        old(s).wf(),
    ensures
        *final(s) == stepped(*old(s)),
        final(s).wf(),
{
    let frame2 = if s.move_direction.frame == u64::MAX {
        0
    } else {
        s.move_direction.frame + 1
    };
    s.move_direction.frame = frame2;
    if s.move_direction.timer <= 0 {
        s.move_direction.timer = s.head.speed;
        let dx = (s.move_direction.direction.x as i64) * CELL_SIZE;
        let dy = (s.move_direction.direction.y as i64) * CELL_SIZE;
        s.position.x = translate_coord(s.position.x, dx);
        s.position.y = translate_coord(s.position.y, dy);
    } else {
        if s.move_direction.boost == 0 && s.move_direction.boosted {
            s.move_direction.boosted = false;
        }
        if s.move_direction.boosted {
            s.move_direction.timer = s.move_direction.timer - 2;
            s.move_direction.boost = s.move_direction.boost - 1;
        } else {
            s.move_direction.timer = s.move_direction.timer - 1;
        }
    }
}

/// One movement-stepper pass over every snake, in entity order.
pub fn move_snake(snakes: &mut Vec<Snake>)
    requires
        forall|i: int| 0 <= i < old(snakes)@.len() ==> #[trigger] old(snakes)@[i].wf(),
    ensures
        final(snakes)@.len() == old(snakes)@.len(),
        forall|i: int| 0 <= i < old(snakes)@.len() ==> #[trigger] final(snakes)@[i] == stepped(
            old(snakes)@[i],
        ),
        forall|i: int| 0 <= i < old(snakes)@.len() ==> #[trigger] final(snakes)@[i].wf(),
{
    let n = snakes.len();
    let mut i: usize = 0;
    while i < n
        invariant
            i <= n,
            n == old(snakes)@.len(),
            snakes@.len() == n,
            forall|j: int| 0 <= j < n ==> #[trigger] old(snakes)@[j].wf(),
            forall|j: int| i <= j < n ==> #[trigger] snakes@[j] == old(snakes)@[j],
            forall|j: int| 0 <= j < i ==> #[trigger] snakes@[j] == stepped(old(snakes)@[j]),
            forall|j: int| 0 <= j < i ==> #[trigger] snakes@[j].wf(),
        decreases n - i,
    {
        step_one(&mut snakes[i]);
        i = i + 1;
    }
}

/// The snake after `k` movement-stepper ticks.
pub open spec fn run_stepped(s: Snake, k: nat) -> Snake
    decreases k,
{
    if k == 0 {
        s
    } else {
        stepped(run_stepped(s, (k - 1) as nat))
    }
}

proof fn lemma_countdown(s: Snake, k: nat)
    requires
        s.wf(),
        !s.move_direction.boosted,
        k <= s.move_direction.timer,
    ensures
        ({
            let r = run_stepped(s, k);
            &&& r.position == s.position
            &&& r.move_direction.timer as int == s.move_direction.timer - k
            &&& !r.move_direction.boosted
            &&& r.move_direction.direction == s.move_direction.direction
            &&& r.move_direction.boost == s.move_direction.boost
            &&& r.head == s.head
            &&& r.player == s.player
            &&& r.wf()
        }),
    decreases k,
{
    if k > 0 {
        lemma_countdown(s, (k - 1) as nat);
    }
}

/// Law (movement cadence): right after a move — countdown equal to the
/// snake's speed — and without boost, the stepper holds the position
/// still for exactly `speed` ticks and then, on tick `speed + 1`, moves
/// the snake by exactly one cell along its heading and resets the
/// countdown, so an unboosted snake moves exactly once every
/// `speed + 1` ticks.
pub proof fn lemma_movement_cadence(s: Snake)
    requires
        s.wf(),
        !s.move_direction.boosted,
        s.move_direction.timer == s.head.speed,
    ensures
        forall|k: nat|
            1 <= k <= s.head.speed ==> (#[trigger] run_stepped(s, k)).position == s.position,
        ({
            let moved = run_stepped(s, (s.head.speed + 1) as nat);
            &&& moved.position.x == wrap_i64(
                s.position.x + CELL_SIZE * s.move_direction.direction.x,
            ) as i64
            &&& moved.position.y == wrap_i64(
                s.position.y + CELL_SIZE * s.move_direction.direction.y,
            ) as i64
            &&& moved.move_direction.timer == s.head.speed
            &&& !moved.move_direction.boosted
            &&& moved.move_direction.direction == s.move_direction.direction
            &&& moved.head == s.head
            &&& moved.wf()
        }),
{
    assert forall|k: nat| 1 <= k <= s.head.speed implies (#[trigger] run_stepped(s, k)).position
        == s.position by {
        lemma_countdown(s, k);
    }
    lemma_countdown(s, s.head.speed as nat);
    let before = run_stepped(s, s.head.speed as nat);
    assert(run_stepped(s, (s.head.speed + 1) as nat) == stepped(before));
}

proof fn lemma_countdown_boosted(s: Snake, k: nat)
    requires
        s.wf(),
        s.move_direction.boosted,
        2 * k <= s.move_direction.timer + 1,
        k <= s.move_direction.boost,
    ensures
        ({
            let r = run_stepped(s, k);
            &&& r.position == s.position
            &&& r.move_direction.timer as int == s.move_direction.timer - 2 * k
            &&& r.move_direction.boosted
            &&& r.move_direction.boost as int == s.move_direction.boost - k
            &&& r.move_direction.direction == s.move_direction.direction
            &&& r.head == s.head
            &&& r.player == s.player
            &&& r.wf()
        }),
    decreases k,
{
    if k > 0 {
        lemma_countdown_boosted(s, (k - 1) as nat);
    }
}

/// Law (boosted cadence): right after a move, while the sticky boost
/// flag is set and at least `(speed + 1) / 2` fuel remains, the stepper
/// spends two countdown units per tick: the position holds still for
/// exactly `(speed + 1) / 2` ticks and the snake moves one cell on the
/// tick after, so a boosted snake moves once every `(speed + 1) / 2 + 1`
/// ticks, each such period burning `(speed + 1) / 2` units of fuel.
pub proof fn lemma_boosted_cadence(s: Snake)
    requires
        s.wf(),
        s.move_direction.boosted,
        s.move_direction.timer == s.head.speed,
        s.move_direction.boost >= (s.head.speed + 1) / 2,
    ensures
        forall|k: nat|
            1 <= k <= (s.head.speed + 1) / 2 ==> (#[trigger] run_stepped(s, k)).position
                == s.position,
        ({
            let moved = run_stepped(s, ((s.head.speed + 1) / 2 + 1) as nat);
            &&& moved.position.x == wrap_i64(
                s.position.x + CELL_SIZE * s.move_direction.direction.x,
            ) as i64
            &&& moved.position.y == wrap_i64(
                s.position.y + CELL_SIZE * s.move_direction.direction.y,
            ) as i64
            &&& moved.move_direction.timer == s.head.speed
            &&& moved.move_direction.boosted
            &&& moved.move_direction.boost as int == s.move_direction.boost - (s.head.speed + 1)
                / 2
            &&& moved.move_direction.direction == s.move_direction.direction
            &&& moved.head == s.head
            &&& moved.wf()
        }),
{
    let h = ((s.head.speed + 1) / 2) as nat;
    assert forall|k: nat| 1 <= k <= (s.head.speed + 1) / 2 implies (#[trigger] run_stepped(
        s,
        k,
    )).position == s.position by {
        lemma_countdown_boosted(s, k);
    }
    lemma_countdown_boosted(s, h);
    let before = run_stepped(s, h);
    assert(before.move_direction.timer <= 0);
    assert(run_stepped(s, (h + 1) as nat) == stepped(before));
}

/// Law (no reversal): one controller pass never turns the heading into
/// the exact opposite of what it was — it either leaves the heading alone
/// or changes it to a non-opposite axis.
pub proof fn lemma_no_reversal(h: Heading, up: bool, down: bool, left: bool, right: bool)
    requires
        heading_wf(h),
    ensures
        ({
            let h2 = steer_heading(h, up, down, left, right);
            h2 == h || !opposite_of(h2, h)
        }),
{
}

/// Law (steering safety): the heading produced by the controller is
/// always axis-aligned or zero, and a zero heading only persists, it is
/// never reintroduced once the snake is moving.
pub proof fn lemma_steer_heading_wf(h: Heading, up: bool, down: bool, left: bool, right: bool)
    requires
        heading_wf(h),
    ensures
        heading_wf(steer_heading(h, up, down, left, right)),
        steer_heading(h, up, down, left, right) == (Heading { x: 0, y: 0 }) ==> h == (Heading {
            x: 0,
            y: 0,
        }),
{
}

} // verus!
