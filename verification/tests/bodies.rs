use world_sim::body::{BodyId, BodyRegistry, StepCounter};
use world_sim::error::SimulationError;

#[test]
fn registered_bodies_get_consecutive_ids() {
    let mut registry: BodyRegistry<(i32, i32)> = BodyRegistry::new();
    let first = registry.register((1, 2), false).unwrap();
    let second = registry.register((3, 4), false).unwrap();
    assert_eq!(first.index(), 0);
    assert_eq!(second.index(), 1);
    assert_eq!(registry.len(), 2);
    assert_eq!(*registry.get(first).unwrap(), (1, 2));
    assert_eq!(*registry.get(second).unwrap(), (3, 4));
}

#[test]
fn colliding_body_is_refused_and_registry_unchanged() {
    let mut registry: BodyRegistry<u8> = BodyRegistry::new();
    registry.register(7, false).unwrap();
    let result = registry.register(9, true);
    assert!(matches!(result, Err(SimulationError::BodyCollision)));
    assert_eq!(registry.len(), 1);
    let next = registry.register(9, false).unwrap();
    assert_eq!(next.index(), 1);
}

#[test]
fn unknown_body_reports_its_index() {
    let mut registry: BodyRegistry<u8> = BodyRegistry::new();
    registry.register(7, false).unwrap();
    let missing = BodyId::from_index(5);
    assert!(matches!(registry.get(missing), Err(SimulationError::UnknownBody(5))));
    assert!(matches!(registry.replace(missing, 1), Err(SimulationError::UnknownBody(5))));
    assert_eq!(registry.len(), 1);
}

#[test]
fn replaced_body_is_read_back_and_others_kept() {
    let mut registry: BodyRegistry<&str> = BodyRegistry::new();
    let a = registry.register("a", false).unwrap();
    let b = registry.register("b", false).unwrap();
    registry.replace(a, "moved").unwrap();
    assert_eq!(*registry.get(a).unwrap(), "moved");
    assert_eq!(*registry.get(b).unwrap(), "b");
}

#[test]
fn ids_list_every_body_in_order() {
    let mut registry: BodyRegistry<u8> = BodyRegistry::new();
    assert!(registry.ids().is_empty());
    for value in 0..4 {
        registry.register(value, false).unwrap();
    }
    let ids: Vec<usize> = registry.ids().iter().map(|id| id.index()).collect();
    assert_eq!(ids, vec![0, 1, 2, 3]);
}

#[test]
fn step_counter_counts_single_steps_and_runs() {
    let mut counter = StepCounter::new();
    assert_eq!(counter.count(), 0);
    counter.record_step();
    counter.record_steps(10);
    assert_eq!(counter.count(), 11);
    counter.record_steps(0);
    assert_eq!(counter.count(), 11);
}

#[test]
fn run_counts_as_many_single_steps() {
    let mut by_run = StepCounter::new();
    let mut by_steps = StepCounter::new();
    by_run.record_steps(7);
    for _ in 0..7 {
        by_steps.record_step();
    }
    assert_eq!(by_run.count(), by_steps.count());
}

#[test]
fn step_counter_saturates() {
    let mut counter = StepCounter::new();
    counter.record_steps(usize::MAX);
    counter.record_steps(usize::MAX);
    counter.record_step();
    let expected = (usize::MAX as u64)
        .saturating_mul(2)
        .saturating_add(1);
    assert_eq!(counter.count(), expected);
}

#[test]
fn ids_are_equal_exactly_when_indices_are() {
    assert_eq!(BodyId::from_index(3), BodyId::from_index(3));
    assert_ne!(BodyId::from_index(3), BodyId::from_index(4));
    let mut registry: BodyRegistry<u8> = BodyRegistry::new();
    let a = registry.register(1, false).unwrap();
    let b = registry.register(2, false).unwrap();
    assert_ne!(a, b);
    assert_eq!(a, BodyId::from_index(a.index()));
}
