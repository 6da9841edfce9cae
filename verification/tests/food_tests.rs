use snake_core::food::Cell;
use snake_core::food::FoodCounter;
use snake_core::food::SimRng;
use snake_core::food::SpawnError;
use snake_core::food::compute_food_target;
use snake_core::food::food_spawner;

#[test]
fn generator_stream_is_the_xorshift_sequence() {
    let mut rng = SimRng::new(1);
    assert_eq!(rng.next_u64(), 1082269761);
    assert_eq!(rng.next_u64(), 1152992998833853505);
    assert_eq!(rng.state, 1152992998833853505);
    let mut again = SimRng::new(42);
    assert_eq!(again.next_u64(), 45454805674);
}

#[test]
fn growth_schedule() {
    // target live count is max(floor(log2(n)), 1)
    let cases = [(0u32, 1u8), (1, 1), (2, 1), (3, 1), (4, 2), (8, 3), (16, 4)];
    for (n, t) in cases {
        assert_eq!(compute_food_target(n), t);
    }
    assert_eq!(compute_food_target(1023), 9);
    assert_eq!(compute_food_target(1024), 10);
    assert_eq!(compute_food_target(u32::MAX), 31);
}

#[test]
fn spawner_fills_up_to_target_and_stops() {
    let mut counter = FoodCounter::new();
    counter.food_count = 1 << 20;  // target 20
    let mut rng = SimRng::new(12345);
    let foods = food_spawner(&mut counter, &mut rng).unwrap();
    assert_eq!(foods.len(), 20);
    assert_eq!(counter.current_food, 20);
    assert_eq!(counter.food_positions.len(), 20);
    // every spawn lies in the bounded grid
    for f in &foods {
        assert!(-20 <= f.cell.x && f.cell.x < 20);
        assert!(-20 <= f.cell.y && f.cell.y < 20);
    }
    // once the live count meets the target, nothing more is scheduled
    let more = food_spawner(&mut counter, &mut rng).unwrap();
    assert!(more.is_empty());
    assert_eq!(counter.current_food, 20);
}

#[test]
fn positional_uniqueness() {
    // whatever the stream, no two live food items share a cell
    for seed in [1u64, 7, 42, 0xDEAD_BEEF, u64::MAX] {
        let mut counter = FoodCounter::new();
        counter.food_count = 1 << 25;  // target 25
        let mut rng = SimRng::new(seed);
        food_spawner(&mut counter, &mut rng).unwrap();
        let cells = &counter.food_positions;
        for i in 0..cells.len() {
            for j in (i + 1)..cells.len() {
                assert_ne!(cells[i], cells[j]);
            }
        }
    }
}

#[test]
fn spawner_is_deterministic_in_the_seed() {
    let mut c1 = FoodCounter::new();
    c1.food_count = 256;
    let mut r1 = SimRng::new(99);
    let f1 = food_spawner(&mut c1, &mut r1).unwrap();
    let mut c2 = FoodCounter::new();
    c2.food_count = 256;
    let mut r2 = SimRng::new(99);
    let f2 = food_spawner(&mut c2, &mut r2).unwrap();
    assert_eq!(f1, f2);
    assert_eq!(c1.food_positions, c2.food_positions);
    assert_eq!(r1.state, r2.state);
}

#[test]
fn occupied_cells_are_rejected() {
    // pre-occupy the cell the first draw of this seed would pick, by
    // running the spawner once and replaying with the same seed
    let mut probe = FoodCounter::new();
    let mut rng = SimRng::new(5);
    let first = food_spawner(&mut probe, &mut rng).unwrap();
    assert_eq!(first.len(), 1);
    let taken = first[0].cell;

    let mut counter = FoodCounter::new();
    counter.food_positions.push(taken);
    let mut rng2 = SimRng::new(5);
    let foods = food_spawner(&mut counter, &mut rng2).unwrap();
    assert_eq!(foods.len(), 1);
    assert_ne!(foods[0].cell, taken);
}

#[test]
fn full_grid_reports_exhaustion() {
    let mut counter = FoodCounter::new();
    for x in -20..20 {
        for y in -20..20 {
            counter.food_positions.push(Cell { x, y });
        }
    }
    counter.food_count = 4;  // target 2, live count 0: a spawn is due
    let mut rng = SimRng::new(7);
    let r = food_spawner(&mut counter, &mut rng);
    assert!(matches!(r, Err(SpawnError::GridExhausted)));
    // the failed pass changes nothing
    assert_eq!(counter.current_food, 0);
    assert_eq!(counter.food_positions.len(), 1600);
    assert_eq!(rng.state, 7);
}
