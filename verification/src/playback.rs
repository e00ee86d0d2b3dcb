use vstd::prelude::*;

verus! {

/// Simulation steps run for each snapshot while playing, unless changed.
pub const DEFAULT_STEPS_PER_SNAPSHOT: u32 = 4;

/// The largest number of simulation steps that may be run per snapshot.
pub const MAX_STEPS_PER_SNAPSHOT: u32 = 4096;

/// Whether a viewer's simulation is playing and how many steps it runs
/// between two snapshots while it plays.
pub struct Playback {
    running: bool,
    steps_per_snapshot: u32,
}

impl Playback {
    pub closed spec fn spec_running(&self) -> bool {
        self.running
    }

    pub closed spec fn spec_steps_per_snapshot(&self) -> u32 {
        self.steps_per_snapshot
    }

    #[verifier::type_invariant]
    closed spec fn speed_in_range(&self) -> bool {
        1 <= self.steps_per_snapshot <= MAX_STEPS_PER_SNAPSHOT
    }

    /// Paused, at the default speed.
    pub fn new() -> (playback: Self)
        ensures
            !playback.spec_running(),
            playback.spec_steps_per_snapshot() == DEFAULT_STEPS_PER_SNAPSHOT,
    {
        Playback { running: false, steps_per_snapshot: DEFAULT_STEPS_PER_SNAPSHOT }
    }

    /// Whether the simulation is playing.
    pub fn running(&self) -> (running: bool)
        ensures
            running == self.spec_running(),
    {
        self.running
    }

    /// The steps run per snapshot while playing; always between one and
    /// `MAX_STEPS_PER_SNAPSHOT`.
    pub fn steps_per_snapshot(&self) -> (steps: u32)
        ensures
            steps == self.spec_steps_per_snapshot(),
            1 <= steps <= MAX_STEPS_PER_SNAPSHOT,
    {
        proof {
            use_type_invariant(self);
        }
        self.steps_per_snapshot
    }

    /// Plays or pauses.
    pub fn set_running(&mut self, running: bool)
        ensures
            final(self).spec_running() == running,
            final(self).spec_steps_per_snapshot() == old(self).spec_steps_per_snapshot(),
    {
        proof {
            use_type_invariant(&*self);
        }
        self.running = running;
    }

    /// Sets the steps run per snapshot. A count of zero or above
    /// `MAX_STEPS_PER_SNAPSHOT` is refused and leaves the playback as it was.
    pub fn set_steps_per_snapshot(&mut self, steps: u32) -> (result: Result<(), String>)
        ensures
            result is Ok <==> 1 <= steps <= MAX_STEPS_PER_SNAPSHOT,
            result is Ok ==> final(self).spec_steps_per_snapshot() == steps,
            !(result is Ok) ==> final(self).spec_steps_per_snapshot() == old(self).spec_steps_per_snapshot(),
            result matches Err(message) ==> message@ == "steps per snapshot must be between 1 and 4096"@,
            final(self).spec_running() == old(self).spec_running(),
    {
        if steps == 0 || steps > MAX_STEPS_PER_SNAPSHOT {
            return Err("steps per snapshot must be between 1 and 4096".to_owned());
        }
        self.steps_per_snapshot = steps;
        Ok(())
    }

    /// The steps to run before the next snapshot is taken: the configured
    /// count while playing, none while paused.
    pub fn steps_before_snapshot(&self) -> (steps: usize)
        ensures
            steps == if self.spec_running() { self.spec_steps_per_snapshot() as usize } else { 0 },
    {
        if self.running {
            self.steps_per_snapshot as usize
        } else {
            0
        }
    }

    /// Pauses for a single manual step and returns the number of steps to
    /// run for it.
    pub fn single_step(&mut self) -> (steps: usize)
        ensures
            steps == 1,
            !final(self).spec_running(),
            final(self).spec_steps_per_snapshot() == old(self).spec_steps_per_snapshot(),
    {
        proof {
            use_type_invariant(&*self);
        }
        self.running = false;
        1
    }

    /// Pauses because a new map was installed or the simulation was reset.
    pub fn map_installed(&mut self)
        ensures
            !final(self).spec_running(),
            final(self).spec_steps_per_snapshot() == old(self).spec_steps_per_snapshot(),
    {
        proof {
            use_type_invariant(&*self);
        }
        self.running = false;
    }
}

/// How many freshly generated maps a viewer tries before it gives up on
/// finding one with room for the robot.
pub const MAP_GENERATION_ATTEMPTS: usize = 32;

/// Counts the tries of generating a map that has room for the robot; a
/// new try is granted until `MAP_GENERATION_ATTEMPTS` tries were made.
pub struct GenerationRetries {
    tries: usize,
}

impl GenerationRetries {
    pub closed spec fn spec_tries(&self) -> nat {
        self.tries as nat
    }

    #[verifier::type_invariant]
    closed spec fn within_budget(&self) -> bool {
        self.tries <= MAP_GENERATION_ATTEMPTS
    }

    /// No try made yet.
    pub fn new() -> (retries: Self)
        ensures
            retries.spec_tries() == 0,
    {
        GenerationRetries { tries: 0 }
    }

    /// Whether another try is granted; a granted try is counted.
    pub fn try_again(&mut self) -> (granted: bool)
        ensures
            granted == (old(self).spec_tries() < MAP_GENERATION_ATTEMPTS),
            final(self).spec_tries() == old(self).spec_tries() + if granted { 1nat } else { 0nat },
            final(self).spec_tries() <= MAP_GENERATION_ATTEMPTS,
    {
        proof {
            use_type_invariant(&*self);
        }
        if self.tries >= MAP_GENERATION_ATTEMPTS {
            return false;
        }
        self.tries = self.tries + 1;
        true
    }

    /// The number of tries made.
    pub fn tries(&self) -> (tries: usize)
        ensures
            tries == self.spec_tries(),
            tries <= MAP_GENERATION_ATTEMPTS,
    {
        proof {
            use_type_invariant(self);
        }
        self.tries
    }
}

} // verus!
