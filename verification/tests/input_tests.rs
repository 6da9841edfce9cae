use snake_core::snake_input::Action;
use snake_core::snake_input::ActionState;
use snake_core::snake_input::SnakeInput;
use snake_core::snake_input::update_input_buffer;

#[test]
fn press_edge_consumed_exactly_once() {
    let mut input = SnakeInput::new(1);
    input.record_key_down(0, Action::Up);
    // first consume reads the edge
    assert!(input.consume_edge(0, Action::Up));
    // a second consume before the decay reads false as an edge ...
    assert!(!input.consume_edge(0, Action::Up));
    // ... but the level form still reads held
    assert!(input.level(0, &Action::Up));
}

#[test]
fn release_edge_consumed_exactly_once() {
    let mut input = SnakeInput::new(1);
    input.set_down(0, Action::Boost);
    input.record_key_up(0, Action::Boost);
    assert!(input.consume_edge(0, Action::Boost));
    assert!(!input.consume_edge(0, Action::Boost));
    assert!(!input.level(0, &Action::Boost));
}

#[test]
fn decay_takes_edges_to_levels() {
    let mut input = SnakeInput::new(1);
    input.press(0, Action::Left);
    input.release(0, Action::Right);
    input.set_down(0, Action::Up);
    input.set_up(0, Action::Down);
    input.end_of_tick_decay();
    // Pressed -> Down, Released -> Up
    assert!(input.down(0, &Action::Left));
    assert!(!input.pressed(0, &Action::Left));
    assert!(input.up(0, &Action::Right));
    assert!(!input.released(0, &Action::Right));
    // Up and Down are stable
    assert!(input.down(0, &Action::Up));
    assert!(input.up(0, &Action::Down));
}

#[test]
fn decay_is_idempotent_on_levels() {
    let mut input = SnakeInput::new(1);
    input.press(0, Action::Left);
    input.release(0, Action::Right);
    update_input_buffer(&mut input);
    update_input_buffer(&mut input);
    assert!(input.down(0, &Action::Left));
    assert!(input.up(0, &Action::Right));
}

#[test]
fn held_key_does_not_retrigger() {
    let mut input = SnakeInput::new(1);
    input.set_down(0, Action::Boost);
    input.record_key_down(0, Action::Boost);
    assert!(!input.pressed(0, &Action::Boost));
    assert!(input.down(0, &Action::Boost));
}

#[test]
fn key_up_only_registers_from_down() {
    let mut input = SnakeInput::new(1);
    // the key is up: a raw key-up event is a no-op
    input.record_key_up(0, Action::Left);
    assert!(!input.released(0, &Action::Left));
    // from Down it produces the one-tick edge
    input.set_down(0, Action::Left);
    input.record_key_up(0, Action::Left);
    assert!(input.released(0, &Action::Left));
}

#[test]
fn new_map_reads_all_up() {
    let map = SnakeInput::new_map();
    assert_eq!(map.up, ActionState::Up);
    assert_eq!(map.down, ActionState::Up);
    assert_eq!(map.left, ActionState::Up);
    assert_eq!(map.right, ActionState::Up);
    assert_eq!(map.boost, ActionState::Up);
}

#[test]
fn players_are_independent() {
    let mut input = SnakeInput::new(2);
    assert_eq!(input.num_players(), 2);
    input.record_key_down(1, Action::Up);
    assert!(!input.pressed(0, &Action::Up));
    assert!(input.pressed(1, &Action::Up));
}
