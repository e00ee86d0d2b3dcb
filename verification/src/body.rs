use crate::error::SimulationError;
use vstd::prelude::*;

verus! {

/// Identifies a body registered with a simulation: the index at which it
/// was registered.
#[derive(Debug, Clone, Copy, PartialEq, Eq, Hash)]
pub struct BodyId(usize);

impl BodyId {
    pub closed spec fn spec_index(self) -> usize {
        self.0
    }

    /// The registration index of the body.
    pub fn index(self) -> (index: usize)
        ensures
            index == self.spec_index(),
    {
        self.0
    }

    /// The identifier of the body registered at `index`; used when an
    /// identifier is read back from a serialized snapshot.
    pub fn from_index(index: usize) -> (id: BodyId)
        ensures
            id.spec_index() == index,
    {
        BodyId(index)
    }
}

/// Two identifiers are the same exactly when they carry the same index.
pub proof fn lemma_id_equality(a: BodyId, b: BodyId)
    ensures
        (a == b) <==> (a.spec_index() == b.spec_index()),
{
}

/// The bodies of a simulation world, in registration order. A body's
/// identifier is its position in this sequence, so identifiers are never
/// reused and never change.
pub struct BodyRegistry<T> {
    bodies: Vec<T>,
}

impl<T> View for BodyRegistry<T> {
    type V = Seq<T>;

    closed spec fn view(&self) -> Seq<T> {
        self.bodies@
    }
}

/// What a registry answers for `id`: the body stored under it, or
/// `UnknownBody` with the identifier's index.
pub open spec fn lookup<T>(bodies: Seq<T>, id: BodyId) -> Result<T, SimulationError> {
    if id.spec_index() < bodies.len() {
        Ok(bodies[id.spec_index() as int])
    } else {
        Err(SimulationError::UnknownBody(id.spec_index()))
    }
}

impl<T> BodyRegistry<T> {
    /// A registry without bodies.
    pub fn new() -> (registry: Self)
        ensures
            registry@ == Seq::<T>::empty(),
    {
        BodyRegistry { bodies: Vec::new() }
    }

    /// The number of registered bodies.
    pub fn len(&self) -> (count: usize)
        ensures
            count == self@.len(),
    {
        self.bodies.len()
    }

    /// Registers `body` unless its pose `collides` with the map, in which
    /// case the registry is left as it was and `BodyCollision` is returned.
    /// A registered body gets the next index.
    pub fn register(&mut self, body: T, collides: bool) -> (result: Result<BodyId, SimulationError>)
        ensures
            collides ==> result == Err::<BodyId, SimulationError>(SimulationError::BodyCollision)
                && final(self)@ == old(self)@,
            !collides ==> (result matches Ok(id) && id.spec_index() == old(self)@.len()),
            !collides ==> final(self)@ == old(self)@.push(body),
    {
        if collides {
            return Err(SimulationError::BodyCollision);
        }
        let id = BodyId(self.bodies.len());
        self.bodies.push(body);
        Ok(id)
    }

    /// The body registered under `id`.
    pub fn get(&self, id: BodyId) -> (result: Result<&T, SimulationError>)
        ensures
            match lookup(self@, id) {
                Ok(body) => result == Ok::<&T, SimulationError>(&body),
                Err(error) => result == Err::<&T, SimulationError>(error),
            },
    {
        if id.0 < self.bodies.len() {
            Ok(&self.bodies[id.0])
        } else {
            Err(SimulationError::UnknownBody(id.0))
        }
    }

    /// Stores `body` under `id`, the result of an accepted movement.
    /// Fails with `UnknownBody` and changes nothing when `id` is not
    /// registered.
    pub fn replace(&mut self, id: BodyId, body: T) -> (result: Result<(), SimulationError>)
        ensures
            id.spec_index() < old(self)@.len() ==> result is Ok
                && final(self)@ == old(self)@.update(id.spec_index() as int, body),
            id.spec_index() >= old(self)@.len() ==> result == Err::<(), SimulationError>(
                SimulationError::UnknownBody(id.spec_index()),
            ) && final(self)@ == old(self)@,
    {
        if id.0 < self.bodies.len() {
            self.bodies.set(id.0, body);
            Ok(())
        } else {
            Err(SimulationError::UnknownBody(id.0))
        }
    }

    /// The identifiers of all registered bodies, in registration order.
    pub fn ids(&self) -> (ids: Vec<BodyId>)
        ensures
            ids@.len() == self@.len(),
            forall|i: int| 0 <= i < ids@.len() ==> (#[trigger] ids@[i]).spec_index() == i,
    {
        let mut ids: Vec<BodyId> = Vec::new();
        let count = self.bodies.len();
        for i in 0..count
            invariant
                count == self@.len(),
                ids@.len() == i,
                forall|j: int| 0 <= j < i ==> (#[trigger] ids@[j]).spec_index() == j,
        {
            ids.push(BodyId(i));
        }
        ids
    }
}

/// A body registered under a fresh identifier is found under it, and every
/// body registered before is still found under its own identifier.
pub proof fn lemma_lookup_after_register<T>(bodies: Seq<T>, body: T, id: BodyId, other: BodyId)
    requires
        id.spec_index() == bodies.len(),
    ensures
        lookup(bodies.push(body), id) == Ok::<T, SimulationError>(body),
        other.spec_index() < bodies.len() ==> lookup(bodies.push(body), other) == lookup(bodies, other),
{
}

/// After a body is replaced, its identifier yields the new body and every
/// other identifier yields what it yielded before.
pub proof fn lemma_lookup_after_replace<T>(bodies: Seq<T>, id: BodyId, body: T, other: BodyId)
    requires
        id.spec_index() < bodies.len(),
    ensures
        lookup(bodies.update(id.spec_index() as int, body), id) == Ok::<T, SimulationError>(body),
        other.spec_index() != id.spec_index() ==> lookup(bodies.update(id.spec_index() as int, body), other)
            == lookup(bodies, other),
{
}

/// `count + steps`, held at `u64::MAX` instead of overflowing.
pub open spec fn saturating_steps(count: int, steps: int) -> int {
    if count + steps > u64::MAX {
        u64::MAX as int
    } else {
        count + steps
    }
}

/// The step count after `n` single steps from `count`.
pub open spec fn after_single_steps(count: int, n: nat) -> int
    decreases n,
{
    if n == 0 {
        count
    } else {
        saturating_steps(after_single_steps(count, (n - 1) as nat), 1)
    }
}

/// Counts the steps a simulation has taken; the count saturates at
/// `u64::MAX`.
pub struct StepCounter {
    count: u64,
}

impl StepCounter {
    pub closed spec fn spec_count(&self) -> u64 {
        self.count
    }

    /// A counter at zero.
    pub fn new() -> (counter: Self)
        ensures
            counter.spec_count() == 0,
    {
        StepCounter { count: 0 }
    }

    /// The number of steps taken.
    pub fn count(&self) -> (count: u64)
        ensures
            count == self.spec_count(),
    {
        self.count
    }

    /// Records one step.
    pub fn record_step(&mut self)
        ensures
            final(self).spec_count() == saturating_steps(old(self).spec_count() as int, 1),
            old(self).spec_count() < u64::MAX ==> final(self).spec_count() == old(self).spec_count() + 1,
            old(self).spec_count() == u64::MAX ==> final(self).spec_count() == u64::MAX,
    {
        self.count = self.count.saturating_add(1);
    }

    /// Records a run of `steps` steps.
    pub fn record_steps(&mut self, steps: usize)
        ensures
            final(self).spec_count() == saturating_steps(old(self).spec_count() as int, steps as int),
            old(self).spec_count() + steps <= u64::MAX ==> final(self).spec_count() == old(self).spec_count()
                + steps,
            old(self).spec_count() + steps > u64::MAX ==> final(self).spec_count() == u64::MAX,
    {
        self.count = self.count.saturating_add(steps as u64);
    }
}

/// A run adds exactly its number of steps to the count, unless the sum
/// passes `u64::MAX`, where the count stays.
pub proof fn lemma_run_adds_its_steps(count: u64, steps: nat)
    ensures
        count + steps <= u64::MAX ==> saturating_steps(count as int, steps as int) == count + steps,
        count + steps > u64::MAX ==> saturating_steps(count as int, steps as int) == u64::MAX,
        saturating_steps(count as int, steps as int) >= count,
{
}

/// Recording two runs one after the other counts the same as recording
/// one run of their combined length.
pub proof fn lemma_runs_compose(count: u64, first: nat, second: nat)
    ensures
        saturating_steps(saturating_steps(count as int, first as int), second as int)
            == saturating_steps(count as int, (first + second) as int),
{
}

/// A run of `n` steps counts the same as `n` single steps.
pub proof fn lemma_run_counts_as_single_steps(count: u64, n: nat)
    ensures
        after_single_steps(count as int, n) == saturating_steps(count as int, n as int),
    decreases n,
{
    if n > 0 {
        lemma_run_counts_as_single_steps(count, (n - 1) as nat);
    }
}

} // verus!
