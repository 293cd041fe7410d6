use solar_sim::gravity::{Step, TickCursor};

const AU: f64 = 149.6e6 * 1000.0;
const GRAVITY: f64 = 6.67428e-11;
const TIMESTEP: f64 = 3600.0 * 24.0;

#[derive(Clone, Copy, Debug, PartialEq)]
struct Body {
    mass: f64,
    position: (f64, f64),
    velocity: (f64, f64),
}

fn steps(bodies: usize) -> Vec<Step> {
    let mut cursor = TickCursor::start(bodies);
    let mut list = Vec::new();
    while let Some(step) = cursor.next_step() {
        list.push(step);
    }
    assert_eq!(cursor.next_step(), None);
    list
}

fn pull(on: &Body, from: &Body) -> (f64, f64) {
    let dx = from.position.0 - on.position.0;
    let dy = from.position.1 - on.position.1;
    let distance = (dx.powi(2) + dy.powi(2)).sqrt();
    let force = GRAVITY * on.mass * from.mass / distance.powi(2);
    let theta = dy.atan2(dx);
    (theta.cos() * force, theta.sin() * force)
}

fn tick(bodies: &mut Vec<Body>) {
    let mut totals = vec![(0.0f64, 0.0f64); bodies.len()];
    let mut staged = vec![(0.0f64, 0.0f64); bodies.len()];
    let mut cursor = TickCursor::start(bodies.len());
    while let Some(step) = cursor.next_step() {
        match step {
            Step::Accumulate { body, source } => {
                let force = pull(&bodies[body], &bodies[source]);
                totals[body].0 += force.0;
                totals[body].1 += force.1;
            }
            Step::Stage { body } => {
                let on = bodies[body];
                staged[body].0 = on.velocity.0 + totals[body].0 / on.mass * TIMESTEP;
                staged[body].1 = on.velocity.1 + totals[body].1 / on.mass * TIMESTEP;
            }
            Step::Commit { body } => {
                bodies[body].velocity = staged[body];
                bodies[body].position.0 += bodies[body].velocity.0 * TIMESTEP;
                bodies[body].position.1 += bodies[body].velocity.1 * TIMESTEP;
            }
        }
    }
}

fn sun() -> Body {
    Body { mass: 1.98892e30, position: (0.0, 0.0), velocity: (0.0, 0.0) }
}

fn earth() -> Body {
    Body { mass: 5.9742e24, position: (-1.0 * AU, 0.0), velocity: (0.0, 29.783 * 1000.0) }
}

#[test]
fn empty_registry_has_nothing_to_do() {
    assert_eq!(steps(0), Vec::<Step>::new());
}

#[test]
fn lone_body_only_drifts() {
    assert_eq!(steps(1), vec![Step::Stage { body: 0 }, Step::Commit { body: 0 }]);
}

#[test]
fn two_bodies_pull_on_each_other_then_move() {
    assert_eq!(
        steps(2),
        vec![
            Step::Accumulate { body: 0, source: 1 },
            Step::Stage { body: 0 },
            Step::Accumulate { body: 1, source: 0 },
            Step::Stage { body: 1 },
            Step::Commit { body: 0 },
            Step::Commit { body: 1 },
        ]
    );
}

#[test]
fn three_bodies_follow_the_plan() {
    assert_eq!(
        steps(3),
        vec![
            Step::Accumulate { body: 0, source: 1 },
            Step::Accumulate { body: 0, source: 2 },
            Step::Stage { body: 0 },
            Step::Accumulate { body: 1, source: 0 },
            Step::Accumulate { body: 1, source: 2 },
            Step::Stage { body: 1 },
            Step::Accumulate { body: 2, source: 0 },
            Step::Accumulate { body: 2, source: 1 },
            Step::Stage { body: 2 },
            Step::Commit { body: 0 },
            Step::Commit { body: 1 },
            Step::Commit { body: 2 },
        ]
    );
}

#[test]
fn finished_cursor_stays_finished() {
    let mut cursor = TickCursor::start(2);
    for _ in 0..6 {
        assert!(cursor.next_step().is_some());
    }
    for _ in 0..5 {
        assert_eq!(cursor.next_step(), None);
    }
}

#[test]
fn nine_bodies_read_everything_before_writing_anything() {
    let list = steps(9);
    assert_eq!(list.len(), 9 * 8 + 9 + 9);
    let first_write = list.iter().position(|step| matches!(step, Step::Commit { .. })).unwrap();
    assert_eq!(first_write, 81);
    assert!(list[first_write..].iter().all(|step| matches!(step, Step::Commit { .. })));
    assert!(list[..first_write].iter().all(|step| !matches!(step, Step::Commit { .. })));
}

#[test]
fn nine_bodies_pair_up_exactly_once_each_way() {
    let list = steps(9);
    for body in 0..9 {
        for source in 0..9 {
            let pull = Step::Accumulate { body, source };
            let count = list.iter().filter(|step| **step == pull).count();
            assert_eq!(count, if body == source { 0 } else { 1 });
        }
        let staged = list.iter().position(|step| *step == Step::Stage { body }).unwrap();
        let last_pull = list
            .iter()
            .rposition(|step| matches!(step, Step::Accumulate { body: on, .. } if *on == body))
            .unwrap();
        assert!(last_pull < staged);
        assert_eq!(list.iter().filter(|step| **step == Step::Stage { body }).count(), 1);
        assert_eq!(list.iter().filter(|step| **step == Step::Commit { body }).count(), 1);
    }
}

#[test]
fn two_body_kepler_sanity() {
    let mut bodies = vec![sun(), earth()];
    tick(&mut bodies);
    let planet = bodies[1];
    // The planet sits on the negative x axis, so the star pulls it towards +x.
    assert!(planet.velocity.0 > 0.0);
    assert!((planet.velocity.1 - 29.783 * 1000.0).abs() < 1.0e-6);
    let star = bodies[0];
    assert!(star.velocity.0 < 0.0);
    let moved = (star.position.0.powi(2) + star.position.1.powi(2)).sqrt();
    assert!(moved > 0.0);
    assert!(moved < 1.0e-6 * AU);
}

#[test]
fn concrete_sun_and_earth_scenario() {
    let mut bodies = vec![sun(), earth()];
    tick(&mut bodies);
    let planet = bodies[1];
    let before = 29783.0f64;
    assert!((planet.velocity.1 - before).abs() < 0.001 * before);
    let expected_y = 29783.0 * 86400.0;
    assert!((planet.position.1 - expected_y).abs() < 0.001 * expected_y);
    // One day of the sun's pull: G * M / r^2 * dt, about 512 m/s towards the sun.
    let expected_vx = GRAVITY * 1.98892e30 / (AU * AU) * TIMESTEP;
    assert!((planet.velocity.0 - expected_vx).abs() < 1.0e-9 * expected_vx);
    assert!((expected_vx - 512.47).abs() < 0.01);
    assert!((planet.position.0 - (-AU + expected_vx * TIMESTEP)).abs() < 1.0);
}

#[test]
fn forces_are_read_from_the_state_the_tick_began_with() {
    let mut bodies = vec![sun(), earth()];
    let start = bodies.clone();
    tick(&mut bodies);
    let on_star = pull(&start[0], &start[1]);
    let on_planet = pull(&start[1], &start[0]);
    assert_eq!(bodies[0].velocity.0, start[0].velocity.0 + on_star.0 / start[0].mass * TIMESTEP);
    assert_eq!(bodies[0].velocity.1, start[0].velocity.1 + on_star.1 / start[0].mass * TIMESTEP);
    assert_eq!(bodies[1].velocity.0, start[1].velocity.0 + on_planet.0 / start[1].mass * TIMESTEP);
    assert_eq!(bodies[1].velocity.1, start[1].velocity.1 + on_planet.1 / start[1].mass * TIMESTEP);
    assert_eq!(bodies[1].position.0, start[1].position.0 + bodies[1].velocity.0 * TIMESTEP);
    assert_eq!(bodies[1].position.1, start[1].position.1 + bodies[1].velocity.1 * TIMESTEP);
}

#[test]
fn momentum_is_kept_across_a_tick() {
    let mars =
        Body { mass: 6.39e23, position: (-1.524 * AU, 0.0), velocity: (0.0, 24.077 * 1000.0) };
    let jupiter = Body { mass: 1898e24, position: (5.2 * AU, 0.0), velocity: (0.0, 13.1 * 1000.0) };
    let mut bodies = vec![sun(), earth(), mars, jupiter];
    let momentum = |bodies: &Vec<Body>| {
        bodies.iter().fold((0.0f64, 0.0f64), |sum, body| {
            (sum.0 + body.mass * body.velocity.0, sum.1 + body.mass * body.velocity.1)
        })
    };
    let before = momentum(&bodies);
    for _ in 0..30 {
        tick(&mut bodies);
    }
    let after = momentum(&bodies);
    let scale = 1898e24 * 13.1 * 1000.0;
    assert!((after.0 - before.0).abs() < 1.0e-9 * scale);
    assert!((after.1 - before.1).abs() < 1.0e-9 * scale);
}
