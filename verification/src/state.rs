use vstd::prelude::*;
use crate::corpus::Corpus;
use crate::input::Tokens;
use crate::mopt::MOptState;
use crate::rand::StdRand;

verus! {

/// Machine limit on the size of either corpus: far below any reachable
/// count, and low enough that every find-counter sum stays in bounds.
pub const CORPUS_LIMIT: usize = 0x1000_0000;

/// The single mutable root of one fuzzer child: its RNG, the evolving
/// corpus, the solutions corpus, the adaptive scheduler state, the token
/// dictionary, and the counters that outlive one iteration.
#[derive(Clone, Debug)]
pub struct FuzzerState {
    pub rand: StdRand,
    pub corpus: Corpus,
    pub solutions: Corpus,
    pub mopt: MOptState,
    pub tokens: Option<Tokens>,
    pub executions: u64,
    /// Cursor of the queue scheduler (kept here so that a restart restores
    /// the schedule).
    pub queue_cycle_pos: usize,
}

impl FuzzerState {
    /// Well-formedness: the scheduler state is well-formed, both corpora
    /// are below the machine limit, and the find total never exceeds what
    /// the corpora can account for.
    pub open spec fn wf(&self) -> bool {
        &&& self.mopt.wf()
        &&& self.corpus.entries@.len() <= CORPUS_LIMIT
        &&& self.solutions.entries@.len() <= CORPUS_LIMIT
        &&& self.mopt.total_finds as int <= self.corpus.entries@.len()
            + self.solutions.entries@.len()
    }

    /// A fresh state: empty corpora, a seeded RNG, and a fresh adaptive
    /// scheduler over the given operator and swarm counts.
    pub fn new(seed: u64, operator_num: usize, swarm_num: usize) -> (r: Self)
        requires
            0 < operator_num <= crate::mopt::MAX_OPERATORS,
            0 < swarm_num <= crate::mopt::MAX_SWARMS,
        ensures
            r.wf(),
            r.corpus.entries@.len() == 0,
            r.solutions.entries@.len() == 0,
            r.tokens is None,
            r.executions == 0,
            r.queue_cycle_pos == 0,
            r.rand.seed == crate::rand::spec_stored_seed(seed),
            r.mopt.key_module == crate::mopt::MOptMode::PILOT_FUZZING,
            r.mopt.operator_num == operator_num,
            r.mopt.swarm_num == swarm_num,
    {
        FuzzerState {
            rand: StdRand::with_seed(seed),
            corpus: Corpus::new(),
            solutions: Corpus::new(),
            mopt: MOptState::new(operator_num, swarm_num),
            tokens: None,
            executions: 0,
            queue_cycle_pos: 0,
        }
    }

    pub fn corpus(&self) -> (r: &Corpus)
        ensures
            r == &self.corpus,
    {
        &self.corpus
    }

    pub fn solutions(&self) -> (r: &Corpus)
        ensures
            r == &self.solutions,
    {
        &self.solutions
    }

    pub fn mopt(&self) -> (r: &MOptState)
        ensures
            r == &self.mopt,
    {
        &self.mopt
    }

    pub fn tokens(&self) -> (r: &Option<Tokens>)
        ensures
            r == &self.tokens,
    {
        &self.tokens
    }

    /// Stores the token dictionary (the metadata entry the mutators read).
    pub fn set_tokens(&mut self, tokens: Tokens)
        ensures
            *final(self) == (FuzzerState { tokens: Some(tokens), ..*old(self) }),
    {
        self.tokens = Some(tokens);
    }
}

} // verus!
