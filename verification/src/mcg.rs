//! The meta-cognitive governor's vocabulary and bookkeeping.

use vstd::prelude::*;
use std::collections::VecDeque;

verus! {

/// How urgent a request for information is.
#[derive(Debug, Clone, Copy, PartialEq, Eq, Structural)]
pub enum Priority {
    Low,
    Medium,
    High,
    Critical,
}

/// What the governor asks the system to do.
#[derive(Debug)]
pub enum ActionTrigger {
    TriggerSelfImprovementLevel1 { reason: String, target_component: String },
    TriggerSelfImprovementLevel2 { reason: String, target_component: String },
    TriggerSelfImprovementLevel3 { reason: String, target_component: String },
    TriggerSelfImprovementLevel4 { reason: String, target_component: String },
    RequestMoreInformation { reason: String },
    NoAction,
}

impl ActionTrigger {
    /// The level of self-improvement that the trigger asks for, where it
    /// asks for any.
    pub open spec fn level_spec(self) -> Option<u8> {
        match self {
            ActionTrigger::TriggerSelfImprovementLevel1 { .. } => Some(1),
            ActionTrigger::TriggerSelfImprovementLevel2 { .. } => Some(2),
            ActionTrigger::TriggerSelfImprovementLevel3 { .. } => Some(3),
            ActionTrigger::TriggerSelfImprovementLevel4 { .. } => Some(4),
            _ => None,
        }
    }

    /// The level of self-improvement that the trigger asks for, where it
    /// asks for any.
    pub fn level(&self) -> (level: Option<u8>)
        ensures
            level == self.level_spec(),
    {
        match self {
            ActionTrigger::TriggerSelfImprovementLevel1 { .. } => Some(1),
            ActionTrigger::TriggerSelfImprovementLevel2 { .. } => Some(2),
            ActionTrigger::TriggerSelfImprovementLevel3 { .. } => Some(3),
            ActionTrigger::TriggerSelfImprovementLevel4 { .. } => Some(4),
            _ => None,
        }
    }
}

/// The number of successes among `outcomes`.
pub open spec fn successes(outcomes: Seq<bool>) -> nat
    decreases outcomes.len(),
{
    if outcomes.len() == 0 {
        0
    } else {
        successes(outcomes.drop_last()) + if outcomes.last() {
            1nat
        } else {
            0nat
        }
    }
}

/// Dropping the oldest outcome takes it out of the count.
pub proof fn lemma_successes_drop_first(outcomes: Seq<bool>)
    requires
        outcomes.len() > 0,
    ensures
        successes(outcomes) == successes(outcomes.drop_first()) + if outcomes[0] {
            1nat
        } else {
            0nat
        },
        successes(outcomes) <= outcomes.len(),
    decreases outcomes.len(),
{
    let front = outcomes.drop_last();
    let back = outcomes.drop_first();
    if outcomes.len() == 1 {
        assert(successes(front) == 0);
        assert(successes(back) == 0);
        assert(outcomes.last() == outcomes[0]);
    } else {
        lemma_successes_drop_first(front);
        assert(front.drop_first() == back.drop_last());
        assert(back.last() == outcomes.last());
        assert(front[0] == outcomes[0]);
        assert(successes(back) == successes(back.drop_last()) + if back.last() {
            1nat
        } else {
            0nat
        });
    }
}

/// The window after one more outcome: the oldest outcome leaves a full
/// window first.
pub open spec fn window_after(recent: Seq<bool>, window_size: usize, success: bool) -> Seq<bool> {
    if recent.len() >= window_size && recent.len() > 0 {
        recent.drop_first().push(success)
    } else {
        recent.push(success)
    }
}

/// Counts successes over a sliding window of the most recent outcomes.
#[derive(Debug)]
pub struct ConfidenceTracker {
    success_count: usize,
    total_count: usize,
    recent_successes: VecDeque<bool>,
    window_size: usize,
}

impl ConfidenceTracker {
    /// The outcomes in the window, oldest first.
    pub closed spec fn recent(&self) -> Seq<bool> {
        self.recent_successes@
    }

    /// The number of outcomes that the window holds at most; a window of
    /// size zero holds one.
    pub closed spec fn window(&self) -> usize {
        self.window_size
    }

    /// The counts agree with the window.
    pub closed spec fn wf(&self) -> bool {
        &&& self.total_count == self.recent_successes@.len()
        &&& self.success_count == successes(self.recent_successes@)
    }

    pub fn new(window_size: usize) -> (tracker: Self)
        ensures
            tracker.wf(),
            tracker.window() == window_size,
            tracker.recent() == Seq::<bool>::empty(),
    {
        ConfidenceTracker {
            success_count: 0,
            total_count: 0,
            recent_successes: VecDeque::new(),
            window_size,
        }
    }

    /// Takes in one more outcome.
    pub fn update(&mut self, success: bool)
        requires
            old(self).wf(),
        ensures
            final(self).wf(),
            final(self).window() == old(self).window(),
            final(self).recent() == window_after(old(self).recent(), old(self).window(), success),
    {
        proof {
            if self.recent_successes@.len() > 0 {
                lemma_successes_drop_first(self.recent_successes@);
            }
        }
        if self.recent_successes.len() >= self.window_size {
            match self.recent_successes.pop_front() {
                Some(old_outcome) => {
                    if old_outcome {
                        self.success_count = self.success_count - 1;
                    }
                    self.total_count = self.total_count - 1;
                },
                None => {},
            }
        }
        let ghost kept = self.recent_successes@;
        proof {
            if kept.len() > 0 {
                lemma_successes_drop_first(kept);
            }
            assert(kept.push(success).drop_last() == kept);
        }
        self.recent_successes.push_back(success);
        if success {
            self.success_count = self.success_count + 1;
        }
        self.total_count = self.total_count + 1;
    }

    /// The number of successes in the window.
    pub fn success_count(&self) -> (count: usize)
        requires
            self.wf(),
        ensures
            count == successes(self.recent()),
            count <= self.recent().len(),
    {
        proof {
            if self.recent_successes@.len() > 0 {
                lemma_successes_drop_first(self.recent_successes@);
            }
        }
        self.success_count
    }

    /// The number of outcomes in the window.
    pub fn total_count(&self) -> (count: usize)
        requires
            self.wf(),
        ensures
            count == self.recent().len(),
    {
        self.total_count
    }
}


/// The buffer after one more observation: the oldest one leaves a full
/// buffer first.
pub open spec fn buffer_after(data: Seq<Seq<u32>>, capacity: usize, observation: Seq<u32>) -> Seq<
    Seq<u32>,
> {
    if data.len() >= capacity && data.len() > 0 {
        data.drop_first().push(observation)
    } else {
        data.push(observation)
    }
}

/// Buffer to store recent observations for causal discovery. An
/// observation is a snapshot of node embeddings, each value the bit
/// pattern of a single-precision number.
#[derive(Debug)]
pub struct ObservationBuffer {
    data: Vec<Vec<u32>>,
    capacity: usize,
    min_samples_for_discovery: usize,
}

impl ObservationBuffer {
    /// The observations held, oldest first.
    pub closed spec fn observations(&self) -> Seq<Seq<u32>> {
        Seq::new(self.data@.len(), |i: int| self.data@[i]@)
    }

    /// The number of observations that the buffer holds at most; a buffer
    /// of capacity zero holds one.
    pub closed spec fn limit(&self) -> usize {
        self.capacity
    }

    /// The number of observations that discovery needs.
    pub closed spec fn threshold(&self) -> usize {
        self.min_samples_for_discovery
    }

    pub fn new(capacity: usize, min_samples: usize) -> (buffer: Self)
        ensures
            buffer.observations() == Seq::<Seq<u32>>::empty(),
            buffer.limit() == capacity,
            buffer.threshold() == min_samples,
    {
        let buffer = ObservationBuffer {
            data: Vec::new(),
            capacity,
            min_samples_for_discovery: min_samples,
        };
        assert(buffer.observations() =~= Seq::<Seq<u32>>::empty());
        buffer
    }

    /// Takes in one more observation.
    pub fn add(&mut self, node_embeddings: Vec<u32>)
        ensures
            final(self).limit() == old(self).limit(),
            final(self).threshold() == old(self).threshold(),
            final(self).observations() == buffer_after(
                old(self).observations(),
                old(self).limit(),
                node_embeddings@,
            ),
    {
        if self.data.len() >= self.capacity && self.data.len() > 0 {
            self.data.remove(0);
        }
        self.data.push(node_embeddings);
        assert(self.observations() =~= buffer_after(
            old(self).observations(),
            old(self).limit(),
            node_embeddings@,
        ));
    }

    /// Whether the buffer holds enough observations for discovery.
    pub fn is_ready_for_discovery(&self) -> (ready: bool)
        ensures
            ready == (self.observations().len() >= self.threshold()),
    {
        self.data.len() >= self.min_samples_for_discovery
    }

    /// Hands out every observation, oldest first, and empties the buffer.
    pub fn get_data_and_clear(&mut self) -> (data: Vec<Vec<u32>>)
        ensures
            Seq::new(data@.len(), |i: int| data@[i]@) == old(self).observations(),
            final(self).observations() == Seq::<Seq<u32>>::empty(),
            final(self).limit() == old(self).limit(),
            final(self).threshold() == old(self).threshold(),
    {
        let mut data: Vec<Vec<u32>> = Vec::new();
        std::mem::swap(&mut data, &mut self.data);
        assert(self.observations() =~= Seq::<Seq<u32>>::empty());
        assert(Seq::new(data@.len(), |i: int| data@[i]@) =~= old(self).observations());
        data
    }

    /// The observations held, oldest first.
    pub fn get_data(&self) -> (data: &Vec<Vec<u32>>)
        ensures
            Seq::new(data@.len(), |i: int| data@[i]@) == self.observations(),
    {
        &self.data
    }

    pub fn len(&self) -> (count: usize)
        ensures
            count == self.observations().len(),
    {
        self.data.len()
    }

    pub fn is_empty(&self) -> (empty: bool)
        ensures
            empty == (self.observations().len() == 0),
    {
        self.data.len() == 0
    }
}

} // verus!
