use crate::error::MapError;
use vstd::prelude::*;

verus! {

/// The format version written into, and required of, every map file.
pub const MAP_FORMAT_VERSION: u32 = 1;

/// Accepts a map file's format version: only `MAP_FORMAT_VERSION` is read,
/// any other version is refused with `UnsupportedVersion` carrying it.
pub fn check_format_version(version: u32) -> (result: Result<(), MapError>)
    ensures
        version == MAP_FORMAT_VERSION <==> result is Ok,
        version != MAP_FORMAT_VERSION ==> (result matches Err(MapError::UnsupportedVersion(v))
            && v == version),
{
    if version != MAP_FORMAT_VERSION {
        return Err(MapError::UnsupportedVersion(version));
    }
    Ok(())
}

/// How many placement attempts a generation may make for `requested` walls:
/// a hundred per wall, at least a hundred, and no more than `usize::MAX`.
pub open spec fn attempt_budget(requested: int) -> int {
    let scaled = if requested * 100 > usize::MAX { usize::MAX as int } else { requested * 100 };
    if scaled < 100 {
        100
    } else {
        scaled
    }
}

/// The budget is a hundred attempts per requested wall, at least a hundred,
/// capped at `usize::MAX`; it never shrinks as more walls are requested.
pub proof fn lemma_budget_is_a_hundred_per_wall(requested: nat, more: nat)
    ensures
        requested * 100 <= usize::MAX ==> attempt_budget(requested as int) == if requested == 0 {
            100
        } else {
            requested * 100
        },
        requested * 100 > usize::MAX ==> attempt_budget(requested as int) == usize::MAX,
        attempt_budget(requested as int) >= 100,
        requested * 100 <= usize::MAX ==> attempt_budget(requested as int) >= requested * 100,
        requested <= more ==> attempt_budget(requested as int) <= attempt_budget(more as int),
{
}

/// The progress of generating a random map: how many walls were requested,
/// how many placement attempts were made and the walls placed so far.
/// Attempts stop once every wall is placed or the budget is spent, and the
/// generation succeeds exactly when every requested wall was placed.
pub struct WallGeneration<W> {
    requested: usize,
    budget: usize,
    attempts: usize,
    walls: Vec<W>,
}

impl<W> WallGeneration<W> {
    pub closed spec fn spec_requested(&self) -> nat {
        self.requested as nat
    }

    pub closed spec fn spec_budget(&self) -> nat {
        self.budget as nat
    }

    pub closed spec fn spec_attempts(&self) -> nat {
        self.attempts as nat
    }

    /// The walls placed so far, in placement order.
    pub closed spec fn spec_walls(&self) -> Seq<W> {
        self.walls@
    }

    pub open spec fn spec_placed(&self) -> nat {
        self.spec_walls().len()
    }

    #[verifier::type_invariant]
    closed spec fn within_limits(&self) -> bool {
        &&& self.attempts <= self.budget
        &&& self.walls@.len() <= self.requested
    }

    /// A generation of `requested` walls that has not started.
    pub fn new(requested: usize) -> (generation: Self)
        ensures
            generation.spec_requested() == requested,
            generation.spec_budget() == attempt_budget(requested as int),
            requested * 100 <= usize::MAX ==> generation.spec_budget() == if requested * 100 < 100 {
                100
            } else {
                requested * 100
            },
            requested * 100 > usize::MAX ==> generation.spec_budget() == usize::MAX,
            generation.spec_attempts() == 0,
            generation.spec_walls() == Seq::<W>::empty(),
    {
        let scaled = match requested.checked_mul(100) {
            Some(product) => product,
            None => usize::MAX,
        };
        let budget = if scaled < 100 { 100 } else { scaled };
        WallGeneration { requested, budget, attempts: 0, walls: Vec::new() }
    }

    /// Whether another placement attempt is to be made; when it is, the
    /// attempt is counted. No attempt is made once every wall is placed or
    /// once the budget is spent.
    pub fn begin_attempt(&mut self) -> (attempt: bool)
        ensures
            attempt == (old(self).spec_placed() < old(self).spec_requested() && old(self).spec_attempts()
                < old(self).spec_budget()),
            final(self).spec_attempts() == old(self).spec_attempts() + if attempt { 1nat } else { 0nat },
            final(self).spec_walls() == old(self).spec_walls(),
            final(self).spec_requested() == old(self).spec_requested(),
            final(self).spec_budget() == old(self).spec_budget(),
            final(self).spec_attempts() <= final(self).spec_budget(),
            final(self).spec_placed() <= final(self).spec_requested(),
    {
        proof {
            use_type_invariant(&*self);
        }
        if self.walls.len() == self.requested || self.attempts == self.budget {
            return false;
        }
        self.attempts = self.attempts + 1;
        true
    }

    /// Keeps `wall`, placed by the current attempt.
    pub fn record_placement(&mut self, wall: W)
        requires
            old(self).spec_placed() < old(self).spec_requested(),
        ensures
            final(self).spec_walls() == old(self).spec_walls().push(wall),
            final(self).spec_attempts() == old(self).spec_attempts(),
            final(self).spec_requested() == old(self).spec_requested(),
            final(self).spec_budget() == old(self).spec_budget(),
            final(self).spec_attempts() <= final(self).spec_budget(),
    {
        proof {
            use_type_invariant(&*self);
        }
        let mut walls = Vec::new();
        std::mem::swap(&mut walls, &mut self.walls);
        walls.push(wall);
        self.walls = walls;
    }

    /// The number of walls placed so far.
    pub fn placed(&self) -> (placed: usize)
        ensures
            placed == self.spec_placed(),
    {
        self.walls.len()
    }

    /// The number of walls requested.
    pub fn requested(&self) -> (requested: usize)
        ensures
            requested == self.spec_requested(),
    {
        self.requested
    }

    /// The outcome once no further attempt is made: the placed walls, in
    /// placement order, exactly when every requested wall was placed;
    /// `GenerationFailed` otherwise.
    pub fn finish(self) -> (result: Result<Vec<W>, MapError>)
        ensures
            result is Ok <==> self.spec_placed() == self.spec_requested(),
            result matches Ok(walls) ==> walls@ == self.spec_walls() && walls@.len() == self.spec_requested(),
            !(result is Ok) ==> result matches Err(MapError::GenerationFailed),
            self.spec_placed() <= self.spec_requested(),
            self.spec_attempts() <= self.spec_budget(),
    {
        proof {
            use_type_invariant(&self);
        }
        if self.walls.len() != self.requested {
            return Err(MapError::GenerationFailed);
        }
        Ok(self.walls)
    }
}

} // verus!
