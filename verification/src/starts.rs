//! What is started by the first who wants it and shared with the others until it ends.

use vstd::prelude::*;

verus! {

/// What happens to something that is shared, by its key.
pub enum StartStep {
    /// Somebody wants it, and it runs from then on.
    Wanted(Seq<char>),
    /// It has ended.
    Ended(Seq<char>),
}

/// What runs once a step was taken.
pub open spec fn stepped(started: Map<Seq<char>, bool>, step: StartStep) -> Map<Seq<char>, bool> {
    match step {
        StartStep::Wanted(key) => started.insert(key, true),
        StartStep::Ended(key) => started.remove(key),
    }
}

/// What runs once all steps were taken, one after the other.
pub open spec fn after(started: Map<Seq<char>, bool>, steps: Seq<StartStep>) -> Map<Seq<char>, bool>
    decreases steps.len(),
{
    if steps.len() == 0 {
        started
    } else {
        stepped(after(started, steps.drop_last()), steps.last())
    }
}

/// Whether it is started for the next who wants it: it does not run yet.
pub open spec fn starts(started: Map<Seq<char>, bool>, key: Seq<char>) -> bool {
    !(started.contains_key(key) && started[key])
}

/// What runs is not started again, whatever else happens, as long as it does not end.
pub proof fn lemma_shared_until_end(started: Map<Seq<char>, bool>, steps: Seq<StartStep>, key: Seq<char>)
    requires
        !starts(started, key),
        forall|i: int| 0 <= i < steps.len() ==> #[trigger] steps[i] != StartStep::Ended(key),
    ensures
        !starts(after(started, steps), key),
    decreases steps.len(),
{
    if steps.len() > 0 {
        let earlier = steps.drop_last();
        assert forall|i: int| 0 <= i < earlier.len() implies #[trigger] earlier[i] != StartStep::Ended(key) by {
            assert(earlier[i] == steps[i]);
        }
        lemma_shared_until_end(started, earlier, key);
        assert(steps.last() == steps[steps.len() - 1]);
    }
}

/// What has ended is started again for the next who wants it, whatever else happens before.
pub proof fn lemma_started_after_end(started: Map<Seq<char>, bool>, steps: Seq<StartStep>, key: Seq<char>)
    requires
        starts(started, key),
        forall|i: int| 0 <= i < steps.len() ==> #[trigger] steps[i] != StartStep::Wanted(key),
    ensures
        starts(after(started, steps), key),
    decreases steps.len(),
{
    if steps.len() > 0 {
        let earlier = steps.drop_last();
        assert forall|i: int| 0 <= i < earlier.len() implies #[trigger] earlier[i] != StartStep::Wanted(key) by {
            assert(earlier[i] == steps[i]);
        }
        lemma_started_after_end(started, earlier, key);
        assert(steps.last() == steps[steps.len() - 1]);
    }
}

} // verus!
