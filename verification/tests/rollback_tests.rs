use snake_core::rollback::History;
use snake_core::rollback::InputEvent;
use snake_core::rollback::RollbackError;
use snake_core::rollback::SimState;
use snake_core::rollback::initial_state;
use snake_core::rollback::tick;
use snake_core::snake_input::Action;
use snake_core::snake_logic::Heading;

/// The scripted raw events of frame `t`: one early turn, a later turn,
/// and a boost tap.
fn script(t: u64) -> Vec<InputEvent> {
    let mut evs = Vec::new();
    if t == 0 {
        evs.push(InputEvent::KeyDown { player: 0, action: Action::Right });
    }
    if t == 4 {
        evs.push(InputEvent::KeyDown { player: 0, action: Action::Boost });
    }
    if t == 6 {
        evs.push(InputEvent::KeyUp { player: 0, action: Action::Boost });
    }
    if t == 15 {
        evs.push(InputEvent::KeyDown { player: 0, action: Action::Down });
    }
    evs
}

/// Everything a frame shows to the outside, flattened for comparison.
fn observe(s: &SimState) -> (i64, i64, Heading, bool, i8, u64, i8, u32, u8, usize, u64) {
    let d = &s.snakes[0].move_direction;
    (
        s.snakes[0].position.x,
        s.snakes[0].position.y,
        d.direction,
        d.boosted,
        d.timer,
        d.frame,
        d.boost,
        s.counter.food_count,
        s.counter.current_food,
        s.foods.len(),
        s.rng.state,
    )
}

#[test]
fn tick_runs_the_four_passes_in_order() {
    let mut state = initial_state(1, 42);
    let evs = vec![InputEvent::KeyDown { player: 0, action: Action::Up }];
    tick(&mut state, &evs).unwrap();
    // the edge steered the heading within the same tick
    assert_eq!(state.snakes[0].move_direction.direction, Heading { x: 0, y: 1 });
    // the stepper advanced the per-entity frame counter
    assert_eq!(state.snakes[0].move_direction.frame, 1);
    // the scheduler topped the live count up to the target of one
    assert_eq!(state.counter.current_food, 1);
    assert_eq!(state.foods.len(), 1);
    // the decay already consumed the edge: the level remains
    assert!(!state.input.pressed(0, &Action::Up));
    assert!(input_holds(&state, Action::Up));
}

fn input_holds(s: &SimState, action: Action) -> bool {
    s.input.down(0, &action)
}

#[test]
fn rollback_replay_reproduces_the_run() {
    // run 30 ticks forward, recording every frame
    let mut h = History::new(64, initial_state(1, 42));
    for t in 0..30 {
        h.record_tick(script(t)).unwrap();
    }
    assert_eq!(h.current_frame(), 30);
    let originals: Vec<_> = h.snapshots.iter().map(observe).collect();

    // rewind to tick 10: restore that snapshot and reapply the same inputs
    let restored = h.snapshots[10].snapshot();
    let mut h2 = History::new(64, restored);
    for t in 10..30 {
        h2.record_tick(script(t)).unwrap();
    }
    // the outputs of ticks 10..=30 match the first run exactly
    for t in 10..=30 {
        assert_eq!(observe(&h2.snapshots[t - 10]), originals[t]);
    }
}

#[test]
fn past_edit_changes_the_future_deterministically() {
    let run = |edit: bool| -> (Heading, Vec<(i64, i64)>) {
        let mut h = History::new(64, initial_state(1, 7));
        for t in 0..30 {
            h.record_tick(script(t)).unwrap();
        }
        if edit {
            let frame = h.current_frame() - 20;
            h.schedule_past_mutation(
                frame,
                InputEvent::KeyDown { player: 0, action: Action::Up },
            )
            .unwrap();
        }
        let last = h.snapshots.last().unwrap();
        let positions =
            h.snapshots.iter().map(|s| (s.snakes[0].position.x, s.snakes[0].position.y)).collect();
        (last.snakes[0].move_direction.direction, positions)
    };
    let (plain_heading, plain_positions) = run(false);
    let (edited_heading, edited_positions) = run(true);
    // the forced Up press at frame 10 turns the snake, and the later
    // Down edge is then an illegal reversal, so the final heading
    // differs from the unmodified run ...
    assert_eq!(plain_heading, Heading { x: 0, y: -1 });
    assert_eq!(edited_heading, Heading { x: 0, y: 1 });
    assert_ne!(plain_positions, edited_positions);
    // ... and the edited run is itself reproducible
    let (again_heading, again_positions) = run(true);
    assert_eq!(edited_heading, again_heading);
    assert_eq!(edited_positions, again_positions);
}

#[test]
fn mutation_outside_the_window_is_reported() {
    let mut h = History::new(8, initial_state(1, 1));
    for t in 0..20 {
        h.record_tick(script(t)).unwrap();
    }
    // the window retains the last eight snapshots
    assert_eq!(h.snapshots.len(), 8);
    assert_eq!(h.base, 13);
    assert_eq!(h.current_frame(), 20);
    let ev = InputEvent::KeyDown { player: 0, action: Action::Left };
    // dropped past frame
    assert!(matches!(h.schedule_past_mutation(0, ev), Err(RollbackError::FrameNotRetained)));
    // the newest frame has no recorded events yet either
    assert!(matches!(h.schedule_past_mutation(20, ev), Err(RollbackError::FrameNotRetained)));
    // a retained frame is accepted
    assert!(h.schedule_past_mutation(14, ev).is_ok());
}

#[test]
fn retained_edit_replays_within_the_window() {
    let mut h1 = History::new(16, initial_state(1, 3));
    let mut h2 = History::new(16, initial_state(1, 3));
    for t in 0..10 {
        h1.record_tick(script(t)).unwrap();
        h2.record_tick(script(t)).unwrap();
    }
    let ev = InputEvent::KeyDown { player: 0, action: Action::Up };
    h2.schedule_past_mutation(5, ev).unwrap();
    // frames up to the edited one are untouched
    for t in 0..=5 {
        assert_eq!(observe(&h1.snapshots[t]), observe(&h2.snapshots[t]));
    }
    // the frame after the edit reflects the injected turn
    assert_eq!(h2.snapshots[6].snakes[0].move_direction.direction, Heading { x: 0, y: 1 });
    assert_eq!(h1.snapshots[6].snakes[0].move_direction.direction, Heading { x: 1, y: 0 });
}
