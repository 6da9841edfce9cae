use snake_core::snake_input::Action;
use snake_core::snake_input::SnakeInput;
use snake_core::snake_logic::CELL_SIZE;
use snake_core::snake_logic::Heading;
use snake_core::snake_logic::Snake;
use snake_core::snake_logic::change_move_direction;
use snake_core::snake_logic::move_snake;
use snake_core::snake_logic::spawn_snake;
use snake_core::snake_logic::translate_coord;

fn press_and_steer(input: &mut SnakeInput, snakes: &mut Vec<Snake>, action: Action) {
    // fresh edge: release the key first so the press re-triggers
    input.set_up(0, action);
    input.record_key_down(0, action);
    change_move_direction(input, snakes);
    input.end_of_tick_decay();
}

#[test]
fn no_reversal_within_a_tick() {
    let mut input = SnakeInput::new(1);
    let mut snakes = vec![spawn_snake()];
    press_and_steer(&mut input, &mut snakes, Action::Up);
    assert_eq!(snakes[0].move_direction.direction, Heading { x: 0, y: 1 });
    // a Down edge while heading (0,1) must not reverse the heading
    press_and_steer(&mut input, &mut snakes, Action::Down);
    assert_eq!(snakes[0].move_direction.direction, Heading { x: 0, y: 1 });
    // an Up edge is a no-op: the heading already equals Up's target
    press_and_steer(&mut input, &mut snakes, Action::Up);
    assert_eq!(snakes[0].move_direction.direction, Heading { x: 0, y: 1 });
    // a quarter turn is allowed
    press_and_steer(&mut input, &mut snakes, Action::Left);
    assert_eq!(snakes[0].move_direction.direction, Heading { x: -1, y: 0 });
    // and now a Down edge is legal
    press_and_steer(&mut input, &mut snakes, Action::Down);
    assert_eq!(snakes[0].move_direction.direction, Heading { x: 0, y: -1 });
}

#[test]
fn tie_break_priority_up_over_the_rest() {
    let mut input = SnakeInput::new(1);
    let mut snakes = vec![spawn_snake()];
    input.record_key_down(0, Action::Up);
    input.record_key_down(0, Action::Left);
    input.record_key_down(0, Action::Right);
    change_move_direction(&input, &mut snakes);
    // one axis change per tick, priority Up > Down > Left > Right
    assert_eq!(snakes[0].move_direction.direction, Heading { x: 0, y: 1 });
}

#[test]
fn boost_level_sets_sticky_flag() {
    let mut input = SnakeInput::new(1);
    let mut snakes = vec![spawn_snake()];
    input.set_down(0, Action::Boost);
    change_move_direction(&input, &mut snakes);
    assert!(snakes[0].move_direction.boosted);
    // releasing the key alone does not clear the flag
    input.set_up(0, Action::Boost);
    change_move_direction(&input, &mut snakes);
    assert!(snakes[0].move_direction.boosted);
}

/// Ticks the stepper once and reports whether the snake moved.
fn tick_moves(snakes: &mut Vec<Snake>) -> bool {
    let before = snakes[0].position;
    move_snake(snakes);
    snakes[0].position != before
}

#[test]
fn movement_cadence_without_boost() {
    // speed 10, initial countdown 1, no boost: under the countdown
    // mechanics the snake moves on tick 2 and then once per 11 ticks
    // (ten decrements from 10 to 0, then the move tick itself).
    let mut snakes = vec![spawn_snake()];
    snakes[0].move_direction.direction = Heading { x: 1, y: 0 };
    snakes[0].move_direction.boost = 0;
    let mut move_ticks: Vec<u32> = Vec::new();
    for t in 1..=40u32 {
        if tick_moves(&mut snakes) {
            move_ticks.push(t);
        }
    }
    assert_eq!(move_ticks, vec![2, 13, 24, 35]);
    assert_eq!(snakes[0].position.x, 4 * CELL_SIZE);
    assert_eq!(snakes[0].position.y, 0);
}

#[test]
fn boost_halves_the_countdown_until_fuel_runs_out() {
    // full boost fuel of 10 and decrement 2: two boosted periods of 6
    // ticks each burn the fuel, then the cadence reverts to 11.
    let mut snakes = vec![spawn_snake()];
    snakes[0].move_direction.direction = Heading { x: 0, y: 1 };
    snakes[0].move_direction.boosted = true;
    snakes[0].move_direction.timer = 0;
    let mut move_ticks: Vec<u32> = Vec::new();
    for t in 1..=40u32 {
        if tick_moves(&mut snakes) {
            move_ticks.push(t);
        }
    }
    assert_eq!(move_ticks, vec![1, 7, 13, 24, 35]);
    assert!(!snakes[0].move_direction.boosted);
    assert_eq!(snakes[0].move_direction.boost, 0);
}

#[test]
fn frame_counter_advances_every_tick() {
    let mut snakes = vec![spawn_snake()];
    for _ in 0..5 {
        move_snake(&mut snakes);
    }
    assert_eq!(snakes[0].move_direction.frame, 5);
}

#[test]
fn translation_is_one_cell_along_the_heading() {
    let mut snakes = vec![spawn_snake()];
    snakes[0].move_direction.direction = Heading { x: 0, y: -1 };
    snakes[0].move_direction.timer = 0;
    move_snake(&mut snakes);
    assert_eq!(snakes[0].position.x, 0);
    assert_eq!(snakes[0].position.y, -CELL_SIZE);
}

#[test]
fn translate_coord_wraps_at_the_edge() {
    assert_eq!(translate_coord(5, 16), 21);
    assert_eq!(translate_coord(-5, -16), -21);
    assert_eq!(translate_coord(i64::MAX, 1), i64::MIN);
    assert_eq!(translate_coord(i64::MIN, -1), i64::MAX);
    assert_eq!(translate_coord(i64::MAX - 3, 16), i64::MIN + 12);
}
