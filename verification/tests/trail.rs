use solar_sim::trail::{PlanetTrail, MAX_TRAIL_SIZE};

fn mark(n: usize) -> (f32, f32) {
    (n as f32, -(n as f32) / 2.0)
}

#[test]
fn capacity_is_one_thousand() {
    assert_eq!(MAX_TRAIL_SIZE, 1000);
}

#[test]
fn new_trail_is_empty() {
    let trail: PlanetTrail<(f32, f32)> = PlanetTrail::new();
    assert_eq!(trail.len(), 0);
    assert!(trail.get(0).is_none());
    assert_eq!(trail.positions(), Vec::<(f32, f32)>::new());
}

#[test]
fn short_trail_keeps_everything_in_order() {
    let mut trail: PlanetTrail<u32> = PlanetTrail::new();
    trail.add_position(7);
    trail.add_position(3);
    trail.add_position(9);
    assert_eq!(trail.len(), 3);
    assert_eq!(trail.get(0), Some(&7));
    assert_eq!(trail.get(1), Some(&3));
    assert_eq!(trail.get(2), Some(&9));
    assert_eq!(trail.get(3), None);
    assert_eq!(trail.positions(), vec![7, 3, 9]);
}

#[test]
fn full_trail_holds_exactly_the_capacity() {
    let mut trail: PlanetTrail<usize> = PlanetTrail::new();
    for n in 0..MAX_TRAIL_SIZE {
        trail.add_position(n);
    }
    assert_eq!(trail.len(), MAX_TRAIL_SIZE);
    assert_eq!(trail.get(0), Some(&0));
    assert_eq!(trail.get(MAX_TRAIL_SIZE - 1), Some(&(MAX_TRAIL_SIZE - 1)));
}

#[test]
fn one_past_capacity_evicts_the_first() {
    let mut trail: PlanetTrail<usize> = PlanetTrail::new();
    for n in 0..MAX_TRAIL_SIZE + 1 {
        trail.add_position(n);
    }
    assert_eq!(trail.len(), MAX_TRAIL_SIZE);
    assert_eq!(trail.get(0), Some(&1));
    assert_eq!(trail.get(MAX_TRAIL_SIZE - 1), Some(&MAX_TRAIL_SIZE));
    assert_eq!(trail.get(MAX_TRAIL_SIZE), None);
}

#[test]
fn trail_bound_and_fifo_eviction() {
    let appended = MAX_TRAIL_SIZE + 250;
    let mut trail: PlanetTrail<(f32, f32)> = PlanetTrail::new();
    for n in 0..appended {
        trail.add_position(mark(n));
        assert!(trail.len() <= MAX_TRAIL_SIZE);
    }
    assert_eq!(trail.len(), MAX_TRAIL_SIZE);
    assert_eq!(trail.get(0), Some(&mark(appended - MAX_TRAIL_SIZE)));
    let list = trail.positions();
    assert_eq!(list.len(), MAX_TRAIL_SIZE);
    for (i, entry) in list.iter().enumerate() {
        assert_eq!(*entry, mark(250 + i));
        assert_eq!(trail.get(i), Some(entry));
    }
}

#[test]
fn trail_survives_several_laps() {
    let appended = 3 * MAX_TRAIL_SIZE + 17;
    let mut trail: PlanetTrail<usize> = PlanetTrail::new();
    for n in 0..appended {
        trail.add_position(n);
    }
    let expected: Vec<usize> = (appended - MAX_TRAIL_SIZE..appended).collect();
    assert_eq!(trail.positions(), expected);
    assert_eq!(trail.get(0), Some(&(appended - MAX_TRAIL_SIZE)));
    assert_eq!(trail.get(MAX_TRAIL_SIZE - 1), Some(&(appended - 1)));
}

#[test]
fn exact_lap_returns_to_slot_zero() {
    let mut trail: PlanetTrail<usize> = PlanetTrail::new();
    for n in 0..2 * MAX_TRAIL_SIZE {
        trail.add_position(n);
    }
    let expected: Vec<usize> = (MAX_TRAIL_SIZE..2 * MAX_TRAIL_SIZE).collect();
    assert_eq!(trail.positions(), expected);
}
