use lightning::attraction::Targeting;
use lightning::bolt::{BoltInstance, Event, Phase};
use lightning::config::Config;
use lightning::engine::Engine;
use lightning::error::StrikeError;
use lightning::geometry::Vec3;
use rand::rngs::StdRng;
use rand::SeedableRng;
use rand_distr::{Distribution, StandardNormal};

fn v(x: i32, y: i32, z: i32) -> Vec3 {
    Vec3 { x, y, z }
}

fn config() -> Config {
    Config {
        max_steps: 70,
        step_interval_growing: 100,
        step_interval_decaying: 300_000,
        noise_range: (10, 400),
        noise_falloff: 500,
        step_length_range: (20, 50),
        contact_threshold: 5,
        decay_rate: 500,
        charge_spike_factor: 30_000,
        branch_count_range: (0, 2),
        initial_charge: 1000,
        targeting: Targeting::Nearest,
    }
}

fn bolt_at(origin: Vec3, c: Config) -> BoltInstance {
    let mut engine = Engine::new();
    engine.spawn_strike(origin, c).unwrap();
    engine.instances.pop().unwrap()
}

fn noise_tape(rng: &mut StdRng, n: usize) -> Vec<Vec3> {
    let mut tape = Vec::new();
    for _ in 0..n {
        let x: f64 = StandardNormal.sample(rng);
        let y: f64 = StandardNormal.sample(rng);
        let z: f64 = StandardNormal.sample(rng);
        tape.push(v((x * 1000.0) as i32, (y * 1000.0) as i32, (z * 1000.0) as i32));
    }
    tape
}

fn count_segments(events: &[Event]) -> usize {
    events.iter().filter(|e| matches!(e, Event::SegmentCreated { .. })).count()
}

fn run(seed: u64, c: Config, origin: Vec3, conductors: &Vec<Vec3>, ticks: usize) -> (Engine, Vec<Event>) {
    let mut rng = StdRng::seed_from_u64(seed);
    let mut noise_rng = StdRng::seed_from_u64(seed + 1);
    let mut engine = Engine::new();
    engine.spawn_strike(origin, c).unwrap();
    let mut all = Vec::new();
    for _ in 0..ticks {
        let tape = noise_tape(&mut noise_rng, 64);
        all.extend(engine.tick(16_000, conductors, &mut rng, &tape));
        if engine.phase_of(0) == Some(Phase::Removed) {
            break;
        }
    }
    (engine, all)
}

#[test]
fn spawn_makes_fresh_growing_bolt() {
    let mut engine = Engine::new();
    let id = engine.spawn_strike(v(1, 2, 3), config()).unwrap();
    assert_eq!(id, 0);
    assert_eq!(engine.spawn_strike(v(4, 5, 6), config()), Ok(1));
    let bolt = &engine.instances[0];
    assert_eq!(bolt.id, 0);
    assert_eq!(bolt.frontier, vec![v(1, 2, 3)]);
    assert_eq!(bolt.phase, Phase::Growing);
    assert_eq!(bolt.charge, 1000);
    assert_eq!(bolt.step_interval, 100);
    assert_eq!(bolt.elapsed_since_step, 0);
    assert_eq!(bolt.remaining_steps, 70);
    assert!(bolt.segments_emitted.is_empty());
    assert_eq!(engine.phase_of(1), Some(Phase::Growing));
    assert_eq!(engine.charge_of(1), Some(1000));
    assert_eq!(engine.phase_of(2), None);
    assert_eq!(engine.charge_of(2), None);
}

#[test]
fn spawn_rejects_invalid_config() {
    let mut engine = Engine::new();
    let mut c = config();
    c.step_length_range = (50, 20);
    assert_eq!(engine.spawn_strike(v(0, 0, 0), c), Err(StrikeError::ConfigurationInvalid));
    assert!(engine.instances.is_empty());
}

#[test]
fn grow_with_follows_plan() {
    let mut bolt = bolt_at(v(0, 0, 0), config());
    let conductors = vec![v(0, 100, 0)];
    let events = bolt.grow_with(&conductors, &vec![vec![30, 40]], &Vec::new(), 0).unwrap();
    assert_eq!(
        events,
        vec![
            Event::SegmentCreated {
                instance_id: 0,
                segment_id: 0,
                start: v(0, 0, 0),
                end: v(0, 30, 0),
                charge: 1000
            },
            Event::SegmentCreated {
                instance_id: 0,
                segment_id: 1,
                start: v(0, 0, 0),
                end: v(0, 40, 0),
                charge: 1000
            },
        ]
    );
    assert_eq!(bolt.frontier, vec![v(0, 30, 0), v(0, 40, 0)]);
    assert_eq!(bolt.segments_emitted, vec![0, 1]);
    assert_eq!(bolt.remaining_steps, 69);
    assert_eq!(bolt.phase, Phase::Growing);
}

#[test]
fn grow_with_takes_noise_in_turn() {
    let mut bolt = bolt_at(v(0, 0, 0), config());
    let conductors = vec![v(0, 100, 0)];
    let tape = vec![v(9, 9, 9), v(1000, 0, 0), v(0, 0, -1000)];
    let events = bolt.grow_with(&conductors, &vec![vec![30, 40, 50]], &tape, 1).unwrap();
    let ends: Vec<Vec3> = events
        .iter()
        .map(|e| match e {
            Event::SegmentCreated { end, .. } => *end,
            _ => panic!("only segments are grown"),
        })
        .collect();
    assert_eq!(ends, vec![v(6, 30, 0), v(0, 40, -8), v(0, 50, 0)]);
}

#[test]
fn grow_with_stops_at_first_contact() {
    let mut bolt = bolt_at(v(0, 0, 0), config());
    bolt.frontier = vec![v(0, 0, 0), v(0, 97, 0), v(0, 50, 0)];
    let conductors = vec![v(0, 100, 0)];
    let plan = vec![vec![30], vec![25, 26], vec![27]];
    let events = bolt.grow_with(&conductors, &plan, &Vec::new(), 0).unwrap();
    assert_eq!(events.len(), 2);
    assert_eq!(
        events[1],
        Event::SegmentCreated {
            instance_id: 0,
            segment_id: 1,
            start: v(0, 97, 0),
            end: v(0, 100, 0),
            charge: 1000
        }
    );
    assert!(bolt.frontier.is_empty());
    assert_eq!(bolt.phase, Phase::Touched);
    assert_eq!(bolt.remaining_steps, 69);
    assert_eq!(bolt.segments_emitted, vec![0, 1]);
}

#[test]
fn grow_with_empty_plan_touches() {
    let mut bolt = bolt_at(v(0, 0, 0), config());
    let events = bolt.grow_with(&vec![v(0, 100, 0)], &Vec::new(), &Vec::new(), 0).unwrap();
    assert!(events.is_empty());
    assert!(bolt.frontier.is_empty());
    assert_eq!(bolt.phase, Phase::Touched);
}

#[test]
fn grow_with_contact_tip_without_branch_goes_on() {
    let mut bolt = bolt_at(v(0, 0, 0), config());
    bolt.frontier = vec![v(0, 97, 0), v(0, 0, 0)];
    let plan = vec![vec![], vec![30]];
    let events = bolt.grow_with(&vec![v(0, 100, 0)], &plan, &Vec::new(), 0).unwrap();
    assert_eq!(events.len(), 1);
    assert_eq!(bolt.frontier, vec![v(0, 30, 0)]);
    assert_eq!(bolt.phase, Phase::Growing);
}

#[test]
fn grow_with_without_conductors_reports_and_keeps_bolt() {
    let mut bolt = bolt_at(v(0, 0, 0), config());
    let r = bolt.grow_with(&Vec::new(), &vec![vec![30]], &Vec::new(), 0);
    assert_eq!(r, Err(StrikeError::NoConductors));
    assert_eq!(bolt.frontier, vec![v(0, 0, 0)]);
    assert_eq!(bolt.remaining_steps, 70);
    assert_eq!(bolt.phase, Phase::Growing);
}

#[test]
fn grow_with_leaves_bolt_that_is_not_growing() {
    let mut bolt = bolt_at(v(0, 0, 0), config());
    bolt.phase = Phase::Decaying;
    bolt.step_interval = 300_000;
    let r = bolt.grow_with(&vec![v(0, 100, 0)], &vec![vec![30]], &Vec::new(), 0);
    assert_eq!(r, Ok(Vec::new()));
    assert_eq!(bolt.frontier, vec![v(0, 0, 0)]);
    assert_eq!(bolt.remaining_steps, 70);
}

#[test]
fn drawn_plan_stays_within_bounds_and_varies() {
    let mut c = config();
    c.branch_count_range = (3, 3);
    let mut bolt = bolt_at(v(0, 0, 0), c);
    bolt.frontier = (0..40).map(|k| v(k, 0, 0)).collect();
    let conductors = vec![v(0, 1000, 0)];
    let mut rng = StdRng::seed_from_u64(7);
    let plan = bolt.draw_plan(&conductors, &mut rng);
    assert_eq!(plan.len(), 40);
    assert_eq!(plan[0].len(), 1);
    let mut seen = std::collections::BTreeSet::new();
    for (i, lengths) in plan.iter().enumerate() {
        if i > 0 {
            assert_eq!(lengths.len(), 3);
        }
        for l in lengths {
            assert!(20 <= *l && *l <= 50);
            seen.insert(*l);
        }
    }
    assert!(seen.len() > 5);
}

#[test]
fn drawn_plan_caps_lengths_by_distance() {
    let bolt = bolt_at(v(0, 970, 0), config());
    let mut rng = StdRng::seed_from_u64(11);
    for _ in 0..50 {
        let plan = bolt.draw_plan(&vec![v(0, 1000, 0)], &mut rng);
        assert_eq!(plan.len(), 1);
        assert_eq!(plan[0].len(), 1);
        assert!(20 <= plan[0][0] && plan[0][0] <= 30);
    }
}

#[test]
fn drawn_plan_is_empty_without_conductors() {
    let bolt = bolt_at(v(0, 0, 0), config());
    let mut rng = StdRng::seed_from_u64(3);
    assert!(bolt.draw_plan(&Vec::new(), &mut rng).is_empty());
}

#[test]
fn timer_gates_growth() {
    let mut c = config();
    c.step_interval_growing = 50_000;
    let mut bolt = bolt_at(v(0, 0, 0), c);
    let conductors = vec![v(0, 1000, 0)];
    let mut rng = StdRng::seed_from_u64(1);
    let events = bolt.advance(16_000, &conductors, &mut rng, &Vec::new(), 0);
    assert!(events.is_empty());
    assert_eq!(bolt.elapsed_since_step, 16_000);
    assert_eq!(bolt.remaining_steps, 70);
    bolt.advance(16_000, &conductors, &mut rng, &Vec::new(), 0);
    bolt.advance(16_000, &conductors, &mut rng, &Vec::new(), 0);
    assert_eq!(bolt.elapsed_since_step, 48_000);
    let events = bolt.advance(16_000, &conductors, &mut rng, &Vec::new(), 0);
    assert_eq!(bolt.elapsed_since_step, 0);
    assert_eq!(bolt.remaining_steps, 69);
    assert_eq!(bolt.charge, 1008);
    assert_eq!(events[0], Event::ChargeUpdated { instance_id: 0, charge: 1008 });
    assert_eq!(events.len(), 2);
    match &events[1] {
        Event::SegmentCreated { instance_id, segment_id, start, charge, .. } => {
            assert_eq!((*instance_id, *segment_id, *start, *charge), (0, 0, v(0, 0, 0), 1008));
        }
        other => panic!("expected a segment, got {:?}", other),
    }
}

#[test]
fn touched_bolt_flashes_then_decays_then_is_removed() {
    let mut bolt = bolt_at(v(0, 97, 0), config());
    let conductors = vec![v(0, 100, 0)];
    let mut rng = StdRng::seed_from_u64(1);
    let events = bolt.advance(16_000, &conductors, &mut rng, &Vec::new(), 0);
    assert_eq!(bolt.phase, Phase::Touched);
    assert_eq!(events.len(), 2);
    let events = bolt.advance(16_000, &conductors, &mut rng, &Vec::new(), 0);
    assert_eq!(bolt.phase, Phase::Decaying);
    assert_eq!(bolt.charge, 1008 * 30);
    assert_eq!(bolt.step_interval, 300_000);
    assert_eq!(events, vec![Event::ChargeUpdated { instance_id: 0, charge: 30_240 }]);
    let events = bolt.advance(100_000, &conductors, &mut rng, &Vec::new(), 0);
    assert_eq!(bolt.charge, 28_728);
    assert_eq!(bolt.phase, Phase::Decaying);
    assert_eq!(events, vec![Event::ChargeUpdated { instance_id: 0, charge: 28_728 }]);
    let events = bolt.advance(u32::MAX, &conductors, &mut rng, &Vec::new(), 0);
    assert_eq!(bolt.charge, 0);
    assert_eq!(bolt.phase, Phase::Removed);
    assert_eq!(
        events,
        vec![
            Event::ChargeUpdated { instance_id: 0, charge: 0 },
            Event::InstanceRemoved { instance_id: 0, segment_ids: vec![0] },
        ]
    );
    assert!(bolt.segments_emitted.is_empty());
    let events = bolt.advance(16_000, &conductors, &mut rng, &Vec::new(), 0);
    assert!(events.is_empty());
    assert_eq!(bolt.phase, Phase::Removed);
}

#[test]
fn spent_bolt_waits_for_timer_before_removal() {
    let mut bolt = bolt_at(v(0, 0, 0), config());
    bolt.phase = Phase::Decaying;
    bolt.step_interval = 300_000;
    bolt.charge = 5;
    let mut rng = StdRng::seed_from_u64(1);
    let events = bolt.advance(100_000, &Vec::new(), &mut rng, &Vec::new(), 0);
    assert_eq!(bolt.phase, Phase::Decaying);
    assert_eq!(events, vec![Event::ChargeUpdated { instance_id: 0, charge: 4 }]);
    bolt.advance(100_000, &Vec::new(), &mut rng, &Vec::new(), 0);
    assert_eq!(bolt.phase, Phase::Decaying);
    bolt.advance(100_000, &Vec::new(), &mut rng, &Vec::new(), 0);
    assert_eq!(bolt.phase, Phase::Decaying);
    assert_eq!(bolt.elapsed_since_step, 300_000);
    let events = bolt.advance(1, &Vec::new(), &mut rng, &Vec::new(), 0);
    assert_eq!(bolt.phase, Phase::Removed);
    assert_eq!(bolt.elapsed_since_step, 0);
    assert_eq!(events.len(), 2);
}

#[test]
fn charge_never_rises_while_decaying() {
    let conductors = vec![v(0, 100, 0)];
    let (_, events) = run(5, config(), v(0, 97, 0), &conductors, 10_000);
    let charges: Vec<u64> = events
        .iter()
        .filter_map(|e| match e {
            Event::ChargeUpdated { charge, .. } => Some(*charge),
            _ => None,
        })
        .collect();
    assert!(charges.len() > 3);
    assert_eq!(charges[0], 1008);
    assert_eq!(charges[1], 30_240);
    for w in charges[1..].windows(2) {
        assert!(w[1] <= w[0]);
    }
    assert!(*charges.last().unwrap() < 10);
}

#[test]
fn charge_never_falls_while_growing() {
    let conductors = vec![v(0, 100_000, 0)];
    let mut rng = StdRng::seed_from_u64(9);
    let mut c = config();
    c.branch_count_range = (0, 1);
    let mut bolt = bolt_at(v(0, 0, 0), c);
    let mut last = bolt.charge;
    while bolt.phase == Phase::Growing {
        bolt.advance(16_000, &conductors, &mut rng, &Vec::new(), 0);
        assert!(bolt.charge >= last);
        last = bolt.charge;
    }
    assert_eq!(bolt.phase, Phase::Touched);
    bolt.advance(16_000, &conductors, &mut rng, &Vec::new(), 0);
    assert!(bolt.charge >= last);
}

#[test]
fn remaining_steps_never_rise_and_bound_growth() {
    let conductors = vec![v(0, 1_000_000, 0)];
    let mut rng = StdRng::seed_from_u64(21);
    let mut c = config();
    c.max_steps = 12;
    c.branch_count_range = (1, 1);
    let mut bolt = bolt_at(v(0, 0, 0), c);
    let mut steps = 0;
    let mut last = bolt.remaining_steps;
    while bolt.phase == Phase::Growing {
        bolt.advance(16_000, &conductors, &mut rng, &Vec::new(), 0);
        assert!(bolt.remaining_steps <= last);
        last = bolt.remaining_steps;
        steps += 1;
    }
    assert_eq!(steps, 12);
    assert_eq!(bolt.remaining_steps, 0);
    assert_eq!(bolt.phase, Phase::Touched);
}

#[test]
fn despawn_twice_is_no_op() {
    let mut engine = Engine::new();
    engine.spawn_strike(v(0, 0, 0), config()).unwrap();
    let mut rng = StdRng::seed_from_u64(2);
    let events = engine.tick(16_000, &vec![v(0, 1000, 0)], &mut rng, &Vec::new());
    assert_eq!(count_segments(&events), 1);
    let first = engine.despawn(0);
    assert_eq!(first, Some(Event::InstanceRemoved { instance_id: 0, segment_ids: vec![0] }));
    assert_eq!(engine.phase_of(0), Some(Phase::Removed));
    assert_eq!(engine.despawn(0), None);
    assert_eq!(engine.phase_of(0), Some(Phase::Removed));
    assert_eq!(engine.despawn(17), None);
    assert!(engine.tick(16_000, &vec![v(0, 1000, 0)], &mut rng, &Vec::new()).is_empty());
}

#[test]
fn despawn_works_in_every_phase() {
    for phase in [Phase::Growing, Phase::Touched, Phase::Decaying] {
        let mut bolt = bolt_at(v(0, 0, 0), config());
        bolt.phase = phase;
        if phase == Phase::Decaying {
            bolt.step_interval = 300_000;
        }
        bolt.segments_emitted = vec![0, 1, 2];
        let r = bolt.despawn();
        assert_eq!(r, Some(Event::InstanceRemoved { instance_id: 0, segment_ids: vec![0, 1, 2] }));
        assert_eq!(bolt.phase, Phase::Removed);
        assert!(bolt.frontier.is_empty());
        assert_eq!(bolt.despawn(), None);
    }
}

#[test]
fn same_seed_gives_same_events() {
    let conductors = vec![v(0, 1000, 0), v(300, 900, 0), v(-200, 950, 40)];
    let (_, one) = run(42, config(), v(0, 0, 0), &conductors, 40);
    let (_, two) = run(42, config(), v(0, 0, 0), &conductors, 40);
    assert!(count_segments(&one) > 10);
    assert_eq!(one, two);
    let (_, three) = run(43, config(), v(0, 0, 0), &conductors, 40);
    assert_ne!(one, three);
}

#[test]
fn scenario_single_conductor_is_reached() {
    let mut c = config();
    c.max_steps = 2000;
    c.step_length_range = (2, 4);
    c.branch_count_range = (0, 1);
    let conductors = vec![v(0, 1000, 0)];
    let mut rng = StdRng::seed_from_u64(2024);
    let mut noise_rng = StdRng::seed_from_u64(2025);
    let mut engine = Engine::new();
    engine.spawn_strike(v(0, 0, 0), c).unwrap();
    let mut last_end = None;
    while engine.phase_of(0) == Some(Phase::Growing) {
        let tape = noise_tape(&mut noise_rng, 4096);
        for e in engine.tick(16_000, &conductors, &mut rng, &tape) {
            if let Event::SegmentCreated { end, .. } = e {
                last_end = Some(end);
            }
        }
    }
    assert_eq!(engine.phase_of(0), Some(Phase::Touched));
    assert!(engine.instances[0].remaining_steps > 0);
    let end = last_end.unwrap();
    let (dx, dy, dz) = (end.x as f64, end.y as f64 - 1000.0, end.z as f64);
    assert!((dx * dx + dy * dy + dz * dz).sqrt() <= 5.0);
}

#[test]
fn scenario_no_conductors_waits() {
    let mut engine = Engine::new();
    engine.spawn_strike(v(0, 0, 0), config()).unwrap();
    let mut rng = StdRng::seed_from_u64(1);
    let none: Vec<Vec3> = Vec::new();
    for _ in 0..5 {
        let events = engine.tick(16_000, &none, &mut rng, &Vec::new());
        assert!(events.is_empty());
        assert_eq!(engine.phase_of(0), Some(Phase::Growing));
        assert_eq!(engine.instances[0].frontier, vec![v(0, 0, 0)]);
        assert_eq!(engine.instances[0].remaining_steps, 70);
        assert_eq!(engine.instances[0].charge, 1000);
    }
    let events = engine.tick(16_000, &vec![v(0, 1000, 0)], &mut rng, &Vec::new());
    assert_eq!(count_segments(&events), 1);
    assert_eq!(engine.instances[0].remaining_steps, 69);
}

#[test]
fn scenario_single_step_touches() {
    let mut c = config();
    c.max_steps = 1;
    let mut engine = Engine::new();
    engine.spawn_strike(v(0, 0, 0), c).unwrap();
    let mut rng = StdRng::seed_from_u64(1);
    let events = engine.tick(16_000, &vec![v(0, 1_000_000, 0)], &mut rng, &Vec::new());
    assert_eq!(count_segments(&events), 1);
    assert_eq!(engine.phase_of(0), Some(Phase::Touched));
    assert_eq!(engine.instances[0].remaining_steps, 0);
}

#[test]
fn scenario_removal_names_every_segment() {
    let conductors = vec![v(0, 1000, 0), v(300, 900, 0)];
    let (engine, events) = run(77, config(), v(0, 0, 0), &conductors, 100_000);
    assert_eq!(engine.phase_of(0), Some(Phase::Removed));
    let created: Vec<usize> = events
        .iter()
        .filter_map(|e| match e {
            Event::SegmentCreated { segment_id, .. } => Some(*segment_id),
            _ => None,
        })
        .collect();
    assert!(!created.is_empty());
    match events.last().unwrap() {
        Event::InstanceRemoved { instance_id, segment_ids } => {
            assert_eq!(*instance_id, 0);
            assert_eq!(segment_ids.len(), created.len());
            assert_eq!(*segment_ids, created);
        }
        other => panic!("expected the removal, got {:?}", other),
    }
}

#[test]
fn tick_advances_every_bolt_in_order() {
    let mut engine = Engine::new();
    engine.spawn_strike(v(0, 0, 0), config()).unwrap();
    engine.spawn_strike(v(500, 0, 0), config()).unwrap();
    let mut rng = StdRng::seed_from_u64(4);
    let tape = vec![v(0, 0, 0), v(0, 0, 0), v(1000, 0, 0), v(0, 0, 0), v(0, 0, 0)];
    let events = engine.tick(16_000, &vec![v(0, 1000, 0)], &mut rng, &tape);
    assert_eq!(events.len(), 4);
    assert_eq!(events[0], Event::ChargeUpdated { instance_id: 0, charge: 1008 });
    assert_eq!(events[2], Event::ChargeUpdated { instance_id: 1, charge: 1008 });
    match (&events[1], &events[3]) {
        (
            Event::SegmentCreated { instance_id: 0, segment_id: 0, start: s0, end: e0, .. },
            Event::SegmentCreated { instance_id: 1, segment_id: 0, start: s1, end: e1, .. },
        ) => {
            assert_eq!(*s0, v(0, 0, 0));
            assert_eq!(*s1, v(500, 0, 0));
            assert_eq!(e0.x, 0);
            assert!(e1.x > 480 && e1.x < 500);
        }
        other => panic!("expected two segments, got {:?}", other),
    }
}

#[test]
fn centroid_targeting_grows_toward_centroid() {
    let mut c = config();
    c.targeting = Targeting::WeightedCentroid;
    let mut bolt = bolt_at(v(0, 0, 0), c);
    let conductors = vec![v(1000, 0, 0), v(0, 2000, 0)];
    let events = bolt.grow_with(&conductors, &vec![vec![50]], &Vec::new(), 0).unwrap();
    assert_eq!(
        events,
        vec![Event::SegmentCreated {
            instance_id: 0,
            segment_id: 0,
            start: v(0, 0, 0),
            end: v(44, 22, 0),
            charge: 1000
        }]
    );
}

#[test]
fn centroid_targeting_reaches_touched() {
    let mut c = config();
    c.targeting = Targeting::WeightedCentroid;
    let conductors = vec![v(0, 1000, 0), v(300, 900, 0), v(-200, 950, 40)];
    let (engine, events) = run(8, c, v(0, 0, 0), &conductors, 100_000);
    assert_eq!(engine.phase_of(0), Some(Phase::Removed));
    assert!(count_segments(&events) >= 1);
}
