//! Per-action input state machine.
//!
//! Each logical player owns a complete map from [`Action`] to
//! [`ActionState`].  Raw press/release events become the one-tick edge
//! states `Pressed` and `Released`; the end-of-tick decay turns them into
//! the stable levels `Down` and `Up`, so an edge is observable for exactly
//! one simulation tick.

use vstd::assert_seqs_equal;
use vstd::prelude::*;

verus! {

/// A logical control for one player.
#[derive(Clone, Copy, PartialEq, Eq, Structural, Debug)]
pub enum Action {
    Up,
    Down,
    Left,
    Right,
    Boost,
}

/// Lifecycle of one action within a tick.
///
/// `Pressed` and `Released` are edge states valid for exactly one tick;
/// the end-of-tick decay takes them to the stable levels `Down` and `Up`.
#[derive(Clone, Copy, PartialEq, Eq, Structural, Debug)]
pub enum ActionState {
    Up,
    Down,
    Released,
    Pressed,
}

/// The complete action-to-state map of one player: exactly one entry per
/// action at all times.
#[derive(Clone, Copy, PartialEq, Eq, Structural, Debug)]
pub struct ActionMap {
    pub up: ActionState,
    pub down: ActionState,
    pub left: ActionState,
    pub right: ActionState,
    pub boost: ActionState,
}

impl ActionMap {
    /// The state recorded for `action`.
    pub open spec fn spec_get(self, action: Action) -> ActionState {
        match action {
            Action::Up => self.up,
            Action::Down => self.down,
            Action::Left => self.left,
            Action::Right => self.right,
            Action::Boost => self.boost,
        }
    }

    /// The map with the entry of `action` replaced by `state`.
    pub open spec fn spec_set(self, action: Action, state: ActionState) -> ActionMap {
        match action {
            Action::Up => ActionMap { up: state, ..self },
            Action::Down => ActionMap { down: state, ..self },
            Action::Left => ActionMap { left: state, ..self },
            Action::Right => ActionMap { right: state, ..self },
            Action::Boost => ActionMap { boost: state, ..self },
        }
    }

    /// The map that records every action as `Up`.
    pub open spec fn all_up() -> ActionMap {
        ActionMap {
            up: ActionState::Up,
            down: ActionState::Up,
            left: ActionState::Up,
            right: ActionState::Up,
            boost: ActionState::Up,
        }
    }

    pub fn get(&self, action: Action) -> (state: ActionState)
        ensures
            state == self.spec_get(action),
    {
        match action {
            Action::Up => self.up,
            Action::Down => self.down,
            Action::Left => self.left,
            Action::Right => self.right,
            Action::Boost => self.boost,
        }
    }

    pub fn set(&mut self, action: Action, state: ActionState)
        ensures
            *final(self) == old(self).spec_set(action, state),
    {
        match action {
            Action::Up => self.up = state,
            Action::Down => self.down = state,
            Action::Left => self.left = state,
            Action::Right => self.right = state,
            Action::Boost => self.boost = state,
        }
    }
}

/// End-of-tick decay of one state: edges become levels, levels are stable.
pub open spec fn decayed(state: ActionState) -> ActionState {
    match state {
        ActionState::Up => ActionState::Up,
        ActionState::Down => ActionState::Down,
        ActionState::Pressed => ActionState::Down,
        ActionState::Released => ActionState::Up,
    }
}

/// The transition taken by a raw key-down event: only a key that is
/// currently `Up` produces a `Pressed` edge; a key already held must not
/// re-trigger.
pub open spec fn key_down_transition(state: ActionState) -> ActionState {
    if state is Up {
        ActionState::Pressed
    } else {
        state
    }
}

/// The transition taken by a raw key-up event: only a key that is
/// currently `Down` produces a `Released` edge.
pub open spec fn key_up_transition(state: ActionState) -> ActionState {
    if state is Down {
        ActionState::Released
    } else {
        state
    }
}

/// Whether `state` reads as a one-shot edge this tick.
pub open spec fn is_edge(state: ActionState) -> bool {
    state is Pressed || state is Released
}

/// Whether `state` reads as "currently held" (the level form).
pub open spec fn is_held(state: ActionState) -> bool {
    state is Pressed || state is Down
}

/// The state left behind once an edge has been consumed: a consumed
/// `Pressed` settles to `Down`, a consumed `Released` settles to `Up`.
pub open spec fn consumed(state: ActionState) -> ActionState {
    match state {
        ActionState::Pressed => ActionState::Down,
        ActionState::Released => ActionState::Up,
        _ => state,
    }
}

/// Decay applied to a whole per-player map.
pub open spec fn decay_map(m: ActionMap) -> ActionMap {
    ActionMap {
        up: decayed(m.up),
        down: decayed(m.down),
        left: decayed(m.left),
        right: decayed(m.right),
        boost: decayed(m.boost),
    }
}

/// The buffered input state of every logical player.
pub struct SnakeInput {
    inputs: Vec<ActionMap>,
}

impl View for SnakeInput {
    type V = Seq<ActionMap>;

    closed spec fn view(&self) -> Seq<ActionMap> {
        self.inputs@
    }
}

impl SnakeInput {
    /// A buffer for `num_players` players, every action initially `Up`.
    pub fn new(num_players: usize) -> (r: Self)
        ensures
            r@.len() == num_players,
            forall|p: int| 0 <= p < num_players ==> r@[p] == ActionMap::all_up(),
    {
        let mut inputs: Vec<ActionMap> = Vec::new();
        let mut player: usize = 0;
        while player < num_players
            invariant
                player <= num_players,
                inputs@.len() == player,
                forall|p: int| 0 <= p < player ==> inputs@[p] == ActionMap::all_up(),
            decreases num_players - player,
        {
            inputs.push(Self::new_map());
            player = player + 1;
        }
        SnakeInput { inputs }
    }

    /// A fresh per-player map with every action `Up`.
    pub fn new_map() -> (m: ActionMap)
        ensures
            m == ActionMap::all_up(),
    {
        ActionMap {
            up: ActionState::Up,
            down: ActionState::Up,
            left: ActionState::Up,
            right: ActionState::Up,
            boost: ActionState::Up,
        }
    }

    /// How many players this buffer tracks.
    pub fn num_players(&self) -> (n: usize)
        ensures
            n == self@.len(),
    {
        self.inputs.len()
    }

    /// One-shot edge query: is the action down this tick?
    pub fn pressed(&self, player: usize, action: &Action) -> (b: bool)
        requires
            player < self@.len(),
        ensures
            b == (self@[player as int].spec_get(*action) is Pressed),
    {
        let state = self.inputs[player].get(*action);
        match state {
            ActionState::Pressed => true,
            _ => false,
        }
    }

    /// Unconditionally records a `Pressed` edge.
    pub fn press(&mut self, player: usize, action: Action)
        requires
            player < old(self)@.len(),
        ensures
            final(self)@ == old(self)@.update(
                player as int,
                old(self)@[player as int].spec_set(action, ActionState::Pressed),
            ),
    {
        let mut m = self.inputs[player];
        m.set(action, ActionState::Pressed);
        self.inputs[player] = m;
    }

    /// One-shot edge query: was the action released this tick?
    pub fn released(&self, player: usize, action: &Action) -> (b: bool)
        requires
            player < self@.len(),
        ensures
            b == (self@[player as int].spec_get(*action) is Released),
    {
        let state = self.inputs[player].get(*action);
        match state {
            ActionState::Released => true,
            _ => false,
        }
    }

    /// Unconditionally records a `Released` edge.
    pub fn release(&mut self, player: usize, action: Action)
        requires
            player < old(self)@.len(),
        ensures
            final(self)@ == old(self)@.update(
                player as int,
                old(self)@[player as int].spec_set(action, ActionState::Released),
            ),
    {
        let mut m = self.inputs[player];
        m.set(action, ActionState::Released);
        self.inputs[player] = m;
    }

    /// Level query: is the action currently released (`Up` or `Released`)?
    pub fn up(&self, player: usize, action: &Action) -> (b: bool)
        requires
            player < self@.len(),
        ensures
            b == !is_held(self@[player as int].spec_get(*action)),
    {
        let state = self.inputs[player].get(*action);
        match state {
            ActionState::Up => true,
            ActionState::Released => true,
            _ => false,
        }
    }

    /// Unconditionally records the stable `Up` level.
    pub fn set_up(&mut self, player: usize, action: Action)
        requires
            player < old(self)@.len(),
        ensures
            final(self)@ == old(self)@.update(
                player as int,
                old(self)@[player as int].spec_set(action, ActionState::Up),
            ),
    {
        let mut m = self.inputs[player];
        m.set(action, ActionState::Up);
        self.inputs[player] = m;
    }

    /// Level query: is the action currently held (`Down` or `Pressed`)?
    pub fn down(&self, player: usize, action: &Action) -> (b: bool)
        requires
            player < self@.len(),
        ensures
            b == is_held(self@[player as int].spec_get(*action)),
    {
        let state = self.inputs[player].get(*action);
        match state {
            ActionState::Down => true,
            ActionState::Pressed => true,
            _ => false,
        }
    }

    /// Unconditionally records the stable `Down` level.
    pub fn set_down(&mut self, player: usize, action: Action)
        requires
            player < old(self)@.len(),
        ensures
            final(self)@ == old(self)@.update(
                player as int,
                old(self)@[player as int].spec_set(action, ActionState::Down),
            ),
    {
        let mut m = self.inputs[player];
        m.set(action, ActionState::Down);
        self.inputs[player] = m;
    }

    /// Applies a raw key-down event: the action moves to `Pressed` only if
    /// it currently reads `Up`; a key already held does not re-trigger.
    pub fn record_key_down(&mut self, player: usize, action: Action)
        requires
            player < old(self)@.len(),
        ensures
            final(self)@ == old(self)@.update(
                player as int,
                old(self)@[player as int].spec_set(
                    action,
                    key_down_transition(old(self)@[player as int].spec_get(action)),
                ),
            ),
    {
        let mut m = self.inputs[player];
        let state = m.get(action);
        match state {
            ActionState::Up => m.set(action, ActionState::Pressed),
            _ => {},
        }
        self.inputs[player] = m;
    }

    /// Applies a raw key-up event: the action moves to `Released` only if
    /// it currently reads `Down`.
    pub fn record_key_up(&mut self, player: usize, action: Action)
        requires
            player < old(self)@.len(),
        ensures
            final(self)@ == old(self)@.update(
                player as int,
                old(self)@[player as int].spec_set(
                    action,
                    key_up_transition(old(self)@[player as int].spec_get(action)),
                ),
            ),
    {
        let mut m = self.inputs[player];
        let state = m.get(action);
        match state {
            ActionState::Down => m.set(action, ActionState::Released),
            _ => {},
        }
        self.inputs[player] = m;
    }

    /// Consumes the buffered edge of `action`: returns true exactly when an
    /// edge (`Pressed` or `Released`) was pending, and settles that edge to
    /// its level so that a second consume within the same tick reads false.
    pub fn consume_edge(&mut self, player: usize, action: Action) -> (b: bool)
        requires
            player < old(self)@.len(),
        ensures
            b == is_edge(old(self)@[player as int].spec_get(action)),
            final(self)@ == old(self)@.update(
                player as int,
                old(self)@[player as int].spec_set(
                    action,
                    consumed(old(self)@[player as int].spec_get(action)),
                ),
            ),
    {
        let mut m = self.inputs[player];
        let state = m.get(action);
        let b = match state {
            ActionState::Pressed => {
                m.set(action, ActionState::Down);
                true
            },
            ActionState::Released => {
                m.set(action, ActionState::Up);
                true
            },
            _ => false,
        };
        self.inputs[player] = m;
        b
    }

    /// Level query under the name used by the tick: true when the action is
    /// currently held (`Down` or `Pressed`).
    pub fn level(&self, player: usize, action: &Action) -> (b: bool)
        requires
            player < self@.len(),
        ensures
            b == is_held(self@[player as int].spec_get(*action)),
    {
        self.down(player, action)
    }

    /// A copy of the whole buffer, for the history engine's snapshots.
    pub fn snapshot(&self) -> (r: SnakeInput)
        ensures
            r@ == self@,
    {
        let n = self.inputs.len();
        let mut inputs: Vec<ActionMap> = Vec::new();
        let mut i: usize = 0;
        while i < n
            invariant
                i <= n,
                n == self@.len(),
                inputs@ == self@.subrange(0, i as int),
            decreases n - i,
        {
            inputs.push(self.inputs[i]);
            i = i + 1;
        }
        proof {
            assert(self@.subrange(0, n as int) == self@);
        }
        SnakeInput { inputs }
    }

    /// Runs the end-of-tick decay on every player's map: `Pressed` becomes
    /// `Down`, `Released` becomes `Up`, levels are unchanged.  Must run
    /// exactly once per tick, after all same-tick consumers.
    pub fn end_of_tick_decay(&mut self)
        ensures
            final(self)@ == old(self)@.map_values(|m: ActionMap| decay_map(m)),
    {
        let n = self.inputs.len();
        let mut player: usize = 0;
        while player < n
            invariant
                player <= n,
                n == old(self)@.len(),
                self@.len() == n,
                forall|p: int| 0 <= p < player ==> self@[p] == decay_map(old(self)@[p]),
                forall|p: int| player <= p < n ==> self@[p] == old(self)@[p],
            decreases n - player,
        {
            let m = self.inputs[player];
            let d = ActionMap {
                up: decay_state(m.up),
                down: decay_state(m.down),
                left: decay_state(m.left),
                right: decay_state(m.right),
                boost: decay_state(m.boost),
            };
            self.inputs[player] = d;
            player = player + 1;
        }
        proof {
            assert_seqs_equal!(self@ == old(self)@.map_values(|m: ActionMap| decay_map(m)));
        }
    }
}

/// Executable form of [`decayed`].
pub fn decay_state(state: ActionState) -> (r: ActionState)
    ensures
        r == decayed(state),
{
    match state {
        ActionState::Up => ActionState::Up,
        ActionState::Down => ActionState::Down,
        ActionState::Pressed => ActionState::Down,
        ActionState::Released => ActionState::Up,
    }
}

/// Decays every buffered input map once, at the end of a tick.
pub fn update_input_buffer(map: &mut SnakeInput)
    ensures
        final(map)@ == old(map)@.map_values(|m: ActionMap| decay_map(m)),
{
    map.end_of_tick_decay();
}

/// Law: the decay is exactly `Pressed -> Down` and `Released -> Up`, and it
/// is idempotent — the levels `Up` and `Down` are stable under it.
pub proof fn lemma_decay_law(state: ActionState)
    ensures
        decayed(ActionState::Pressed) == ActionState::Down,
        decayed(ActionState::Released) == ActionState::Up,
        decayed(ActionState::Up) == ActionState::Up,
        decayed(ActionState::Down) == ActionState::Down,
        decayed(decayed(state)) == decayed(state),
{
}

/// Law: a key-down on an action that reads `Up` yields an edge that is
/// consumable exactly once within the tick — the first consume reads true,
/// a second consume before the decay reads false as an edge but the level
/// form still reads held.
pub proof fn lemma_press_edge_consumed_once(state: ActionState)
    requires
        state is Up,
    ensures
        ({
            let after_press = key_down_transition(state);
            let after_consume = consumed(after_press);
            &&& is_edge(after_press)
            &&& !is_edge(after_consume)
            &&& is_held(after_consume)
        }),
{
}

} // verus!
