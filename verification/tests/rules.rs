use world_sim::error::MapError;
use world_sim::map::{check_format_version, WallGeneration, MAP_FORMAT_VERSION};
use world_sim::playback::{
    GenerationRetries, Playback, DEFAULT_STEPS_PER_SNAPSHOT, MAP_GENERATION_ATTEMPTS,
    MAX_STEPS_PER_SNAPSHOT,
};

#[test]
fn only_the_current_format_version_is_read() {
    assert_eq!(MAP_FORMAT_VERSION, 1);
    assert!(check_format_version(1).is_ok());
    assert!(matches!(check_format_version(0), Err(MapError::UnsupportedVersion(0))));
    assert!(matches!(check_format_version(2), Err(MapError::UnsupportedVersion(2))));
}

#[test]
fn generation_stops_once_every_wall_is_placed() {
    let mut generation = WallGeneration::new(2);
    let mut attempts = 0;
    while generation.begin_attempt() {
        attempts += 1;
        generation.record_placement(attempts * 10);
    }
    assert_eq!(attempts, 2);
    assert_eq!(generation.placed(), 2);
    assert_eq!(generation.finish().unwrap(), vec![10, 20]);
}

#[test]
fn generation_gives_up_after_its_budget() {
    let mut generation: WallGeneration<u8> = WallGeneration::new(3);
    let mut attempts = 0;
    while generation.begin_attempt() {
        attempts += 1;
        if attempts == 7 {
            generation.record_placement(7);
        }
    }
    assert_eq!(attempts, 300);
    assert_eq!(generation.placed(), 1);
    assert!(matches!(generation.finish(), Err(MapError::GenerationFailed)));
}

#[test]
fn small_requests_get_at_least_a_hundred_attempts() {
    let mut generation: WallGeneration<u8> = WallGeneration::new(0);
    assert!(!generation.begin_attempt());
    assert!(generation.finish().unwrap().is_empty());
    let mut single: WallGeneration<u8> = WallGeneration::new(1);
    let mut attempts = 0;
    while single.begin_attempt() {
        attempts += 1;
    }
    assert_eq!(attempts, 100);
    assert_eq!(single.requested(), 1);
}

#[test]
fn playback_starts_paused_at_the_default_speed() {
    let playback = Playback::new();
    assert!(!playback.running());
    assert_eq!(playback.steps_per_snapshot(), DEFAULT_STEPS_PER_SNAPSHOT);
    assert_eq!(playback.steps_before_snapshot(), 0);
}

#[test]
fn playing_runs_the_configured_steps_per_snapshot() {
    let mut playback = Playback::new();
    playback.set_running(true);
    assert_eq!(playback.steps_before_snapshot(), 4);
    playback.set_steps_per_snapshot(64).unwrap();
    assert_eq!(playback.steps_before_snapshot(), 64);
}

#[test]
fn out_of_range_speeds_are_refused() {
    let mut playback = Playback::new();
    let error = playback.set_steps_per_snapshot(0).unwrap_err();
    assert_eq!(error, "steps per snapshot must be between 1 and 4096");
    assert!(playback.set_steps_per_snapshot(MAX_STEPS_PER_SNAPSHOT + 1).is_err());
    assert_eq!(playback.steps_per_snapshot(), DEFAULT_STEPS_PER_SNAPSHOT);
    assert!(playback.set_steps_per_snapshot(MAX_STEPS_PER_SNAPSHOT).is_ok());
    assert_eq!(playback.steps_per_snapshot(), MAX_STEPS_PER_SNAPSHOT);
}

#[test]
fn single_step_and_new_map_pause() {
    let mut playback = Playback::new();
    playback.set_running(true);
    assert_eq!(playback.single_step(), 1);
    assert!(!playback.running());
    playback.set_running(true);
    playback.map_installed();
    assert!(!playback.running());
    assert_eq!(playback.steps_before_snapshot(), 0);
}

#[test]
fn map_generation_is_retried_a_fixed_number_of_times() {
    let mut retries = GenerationRetries::new();
    assert_eq!(retries.tries(), 0);
    let mut granted = 0;
    while retries.try_again() {
        granted += 1;
    }
    assert_eq!(granted, MAP_GENERATION_ATTEMPTS);
    assert_eq!(granted, 32);
    assert!(!retries.try_again());
    assert_eq!(retries.tries(), 32);
}
