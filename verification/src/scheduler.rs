use vstd::prelude::*;
use crate::rand::spec_xorshift64;
use crate::state::FuzzerState;

verus! {

/// Chooses the next corpus entry to mutate.
#[derive(Clone, Copy, PartialEq, Eq, Structural, Debug)]
pub enum CorpusScheduler {
    /// Monotonically advancing index modulo the count.
    Queue,
    /// Uniform over the current corpus.
    Rand,
}

impl CorpusScheduler {
    /// The next corpus index. A pure function of the state, so that a
    /// restart that restores the state restores the schedule.
    pub fn next(&self, state: &mut FuzzerState) -> (r: usize)
        requires
            old(state).corpus.entries@.len() > 0,
        ensures
            r < old(state).corpus.entries@.len(),
            final(state).corpus == old(state).corpus,
            final(state).solutions == old(state).solutions,
            final(state).mopt == old(state).mopt,
            final(state).tokens == old(state).tokens,
            final(state).executions == old(state).executions,
            self is Queue ==> r as int == old(state).queue_cycle_pos as int % (
            old(state).corpus.entries@.len() as int),
            self is Queue ==> final(state).rand == old(state).rand,
            self is Queue ==> final(state).queue_cycle_pos as int == (r + 1) % (
            old(state).corpus.entries@.len() as int),
            self is Rand ==> r as int == spec_xorshift64(old(state).rand.seed) as int % (
            old(state).corpus.entries@.len() as int),
            self is Rand ==> final(state).rand.seed == spec_xorshift64(old(state).rand.seed),
            self is Rand ==> final(state).queue_cycle_pos == old(state).queue_cycle_pos,
    {
        let count = state.corpus.count();
        match self {
            CorpusScheduler::Queue => {
                let pos = state.queue_cycle_pos % count;
                state.queue_cycle_pos = (pos + 1) % count;
                pos
            },
            CorpusScheduler::Rand => {
                state.rand.below_usize(count)
            },
        }
    }

    /// Told when an entry entered the corpus; neither variant keeps
    /// per-entry bookkeeping.
    pub fn on_add(&self, state: &mut FuzzerState, new_idx: usize)
        ensures
            *final(state) == *old(state),
    {
    }
}

} // verus!
