//! Bookkeeping of a training node: running mode, per-action statistics and
//! the decisions taken after each step.

use std::collections::HashMap;
use vstd::prelude::*;
use vstd::std_specs::hash::spec_keys_iter;
use vstd::std_specs::iter::IteratorSpec;

verus! {

broadcast use vstd::std_specs::hash::group_hash_axioms;

/// How a node runs.
#[derive(Clone, Copy, Debug, PartialEq, Eq, Structural)]
pub enum RunningMode {
    Infer,
    Training,
    TrainingWithInterval,
}

/// How often an action was taken and how often it succeeded.
#[derive(Clone, Copy, Debug)]
pub struct ActionDetails {
    total: u32,
    success_count: u32,
}

impl ActionDetails {
    #[verifier::type_invariant]
    spec fn successes_within_total(self) -> bool {
        self.success_count <= self.total
    }

    /// How often the action was taken.
    pub closed spec fn spec_total(&self) -> u32 {
        self.total
    }

    /// How often the action succeeded.
    pub closed spec fn spec_success_count(&self) -> u32 {
        self.success_count
    }

    /// An action that was never taken.
    pub fn new() -> (details: Self)
        ensures
            details.spec_total() == 0,
            details.spec_success_count() == 0,
    {
        ActionDetails { total: 0, success_count: 0 }
    }

    /// How often the action was taken.
    pub fn total(&self) -> (n: u32)
        ensures
            n == self.spec_total(),
    {
        self.total
    }

    /// How often the action succeeded.
    pub fn success_count(&self) -> (n: u32)
        ensures
            n == self.spec_success_count(),
            n <= self.spec_total(),
    {
        proof {
            use_type_invariant(self);
        }
        self.success_count
    }

    /// Counts one more use of the action, which succeeded.
    fn add_successful(&mut self)
        requires
            old(self).spec_total() < u32::MAX,
        ensures
            final(self).spec_total() == old(self).spec_total() + 1,
            final(self).spec_success_count() == old(self).spec_success_count() + 1,
    {
        proof {
            use_type_invariant(&*self);
        }
        self.total = self.total + 1;
        self.success_count = self.success_count + 1;
    }

    /// Counts one more use of the action, which failed.
    fn add_failure(&mut self)
        requires
            old(self).spec_total() < u32::MAX,
        ensures
            final(self).spec_total() == old(self).spec_total() + 1,
            final(self).spec_success_count() == old(self).spec_success_count(),
    {
        proof {
            use_type_invariant(&*self);
        }
        self.total = self.total + 1;
    }
}

impl Default for ActionDetails {
    fn default() -> (details: Self)
        ensures
            details.spec_total() == 0,
            details.spec_success_count() == 0,
    {
        ActionDetails::new()
    }
}

/// The statistics of `action` in `details`, zero where it was never taken.
pub open spec fn total_of(details: Map<u32, ActionDetails>, action: u32) -> int {
    if details.contains_key(action) {
        details[action].spec_total() as int
    } else {
        0
    }
}

/// The successes of `action` in `details`, zero where it was never taken.
pub open spec fn successes_of(details: Map<u32, ActionDetails>, action: u32) -> int {
    if details.contains_key(action) {
        details[action].spec_success_count() as int
    } else {
        0
    }
}

/// Records that `predicted_action` was taken and whether it succeeded; an
/// action seen for the first time starts from zero.
pub fn save_cycle(details: &mut HashMap<u32, ActionDetails>, predicted_action: u32, succeed: bool)
    requires
        total_of(old(details)@, predicted_action) < u32::MAX,
    ensures
        final(details)@.dom() == old(details)@.dom().insert(predicted_action),
        total_of(final(details)@, predicted_action) == total_of(old(details)@, predicted_action)
            + 1,
        successes_of(final(details)@, predicted_action) == successes_of(
            old(details)@,
            predicted_action,
        ) + if succeed {
            1int
        } else {
            0int
        },
        forall|other: u32|
            other != predicted_action && #[trigger] old(details)@.contains_key(other)
                ==> final(details)@[other] == old(details)@[other],
{
    let mut entry = match details.get(&predicted_action) {
        Some(found) => *found,
        None => ActionDetails::new(),
    };
    if succeed {
        entry.add_successful();
    } else {
        entry.add_failure();
    }
    details.insert(predicted_action, entry);
}

/// How often each action below `output_number` was taken; actions never
/// taken count zero.
pub fn get_action_total(details: &HashMap<u32, ActionDetails>, output_number: usize) -> (totals:
    Vec<u32>)
    requires
        forall|action: u32| #[trigger] details@.contains_key(action) ==> action < output_number,
    ensures
        totals@.len() == output_number,
        forall|i: int|
            0 <= i < output_number ==> #[trigger] totals@[i] == (if i <= u32::MAX {
                total_of(details@, i as u32)
            } else {
                0
            }),
{
    let mut totals: Vec<u32> = Vec::new();
    let mut i: usize = 0;
    while i < output_number
        invariant
            i <= output_number,
            totals@.len() == i,
            forall|k: int|
                0 <= k < i ==> #[trigger] totals@[k] == (if k <= u32::MAX {
                    total_of(details@, k as u32)
                } else {
                    0
                }),
        decreases output_number - i,
    {
        let count: u32 = if i <= u32::MAX as usize {
            match details.get(&(i as u32)) {
                Some(found) => found.total(),
                None => 0,
            }
        } else {
            0
        };
        totals.push(count);
        i = i + 1;
    }
    totals
}

/// The action taken least often among those recorded, or `u32::MAX` when
/// none is recorded; among equally rare actions, the first the map's walk
/// meets.
pub fn least_taken_action(details: &HashMap<u32, ActionDetails>) -> (action: u32)
    ensures
        details@.dom().len() == 0 ==> action == u32::MAX,
        details@.dom().len() > 0 ==> details@.contains_key(action),
        forall|other: u32|
            #[trigger] details@.contains_key(other) ==> total_of(details@, action) <= total_of(
                details@,
                other,
            ),
{
    let mut best: Option<(u32, u32)> = None;
    let ghost keys = spec_keys_iter(details).remaining().unref();
    for key in it: details.keys()
        invariant
            it.seq().unref() == keys,
            keys.to_set() == details@.dom(),
            keys.len() == details@.dom().len(),
            best is None <==> it.index() == 0,
            best matches Some(b) ==> details@.contains_key(b.0) && b.1 == total_of(details@, b.0)
                && forall|j: int|
                0 <= j < it.index() ==> total_of(details@, b.0) <= total_of(
                    details@,
                    #[trigger] keys[j],
                ),
    {
        let total = match details.get(key) {
            Some(found) => found.total(),
            None => 0,
        };
        match best {
            Some((_, best_total)) => {
                if total < best_total {
                    best = Some((*key, total));
                }
            },
            None => {
                best = Some((*key, total));
            },
        }
    }
    match best {
        Some((action, _)) => action,
        None => u32::MAX,
    }
}

/// What a node does once a step has been recorded.
#[derive(Clone, Copy, Debug, PartialEq, Eq, Structural)]
pub struct StepDecision {
    /// Train on a batch now.
    pub train: bool,
    /// Stop: `total_batches` batches have been recorded.
    pub finish: bool,
}

/// The decision after step number `counter`: a node in `Training` mode
/// trains whenever the step count is a multiple of the batch size, and any
/// node stops once `total_batches` batches are recorded.
pub fn after_step(
    mode: RunningMode,
    counter: u64,
    batch_size: u32,
    batches_recorded: usize,
    total_batches: usize,
) -> (decision: StepDecision)
    ensures
        decision.train == (mode == RunningMode::Training && (if batch_size == 0 {
            counter == 0
        } else {
            counter % (batch_size as u64) == 0
        })),
        decision.finish == (batches_recorded >= total_batches),
{
    let at_batch_end = counter.is_multiple_of(batch_size as u64);
    let train = match mode {
        RunningMode::Training => at_batch_end,
        _ => false,
    };
    StepDecision { train, finish: batches_recorded >= total_batches }
}

} // verus!
