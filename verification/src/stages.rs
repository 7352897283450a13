use vstd::prelude::*;
use crate::error::Error;
use crate::events::EventManager;
use crate::executor::{HarnessRunner, InMemoryExecutor};
use crate::fuzzer::{Stage, StdFuzzer};
use crate::input::BytesInput;
use crate::mopt::{lemma_row_sum_bound, spec_matrix_sum, spec_row_sum, MOptMode, FITNESS_SCALE, PERIOD_PILOT_COEF};
use crate::mutator::Mutator;
use crate::rand::spec_xorshift64;
use crate::state::FuzzerState;

verus! {

/// The finds a state accounts for: everything either corpus holds.
pub open spec fn spec_counts(state: FuzzerState) -> int {
    state.corpus.entries@.len() as int + state.solutions.entries@.len() as int
}

/// The bound for leaving core mode: the time spent in core since its
/// limit timer started, held against the finds and the baseline recorded
/// when core mode was entered, with the productivity ratio written as
/// 11/10. When the elapsed time outgrows the finds, core mode has stopped
/// paying and the scheduler goes back to piloting.
pub open spec fn spec_core_limit_exceeded(elapsed: u64, finds: u64, finds_since_switching: u64) -> bool {
    10 * (elapsed as int) > 11 * (finds as int) + 10 * (finds_since_switching as int)
}

/// Evaluates the core-limit bound.
fn core_limit_exceeded(elapsed: u64, finds: u64, finds_since_switching: u64) -> (r: bool)
    ensures
        r == spec_core_limit_exceeded(elapsed, finds, finds_since_switching),
{
    let lhs: u128 = (elapsed as u128) * 10;
    let rhs: u128 = (finds as u128) * 11 + (finds_since_switching as u128) * 10;
    lhs > rhs
}

/// Loads a fresh copy of the input of the given corpus entry.
fn load_input_copy(state: &FuzzerState, corpus_idx: usize) -> (r: Result<BytesInput, Error>)
    requires
        corpus_idx < state.corpus.entries@.len(),
    ensures
        r matches Ok(input) ==> (state.corpus.entries@[corpus_idx as int].input matches Some(held)
            && input@ == held@),
        r matches Err(e) ==> state.corpus.entries@[corpus_idx as int].input is None && e
            is EmptyOptional,
{
    let testcase = match state.corpus.get(corpus_idx) {
        Ok(t) => t,
        Err(e) => {
            return Err(e);
        },
    };
    match testcase.load_input() {
        Ok(input) => Ok(BytesInput::new(input.target_bytes().clone())),
        Err(e) => Err(e),
    }
}

/// The baseline mutational stage: a short random number of rounds of
/// mutate-and-evaluate over the scheduled entry.
pub struct StdMutationalStage<M: Mutator> {
    pub mutator: M,
}

impl<M: Mutator> StdMutationalStage<M> {
    pub fn new(mutator: M) -> (r: Self)
        ensures
            r.mutator == mutator,
    {
        StdMutationalStage { mutator }
    }

    /// The mutator, added to this stage.
    pub fn mutator(&self) -> (r: &M)
        ensures
            r == &self.mutator,
    {
        &self.mutator
    }

    /// The number of iterations for one scheduled entry: one plus a draw
    /// from the state RNG, uniform over [1, 128]; nothing else of the
    /// state moves.
    pub fn iterations(&self, state: &mut FuzzerState) -> (r: u64)
        ensures
            1 <= r <= 128,
            r as int == 1 + spec_xorshift64(old(state).rand.seed) as int % 128,
            final(state).rand.seed == spec_xorshift64(old(state).rand.seed),
            *final(state) == (FuzzerState { rand: final(state).rand, ..*old(state) }),
    {
        1 + state.rand.below(128)
    }

    /// One unit of work: load, mutate, evaluate, report to the mutator.
    pub fn perform_mutational<H: HarnessRunner>(
        &mut self,
        fuzzer: &mut StdFuzzer,
        executor: &mut InMemoryExecutor<H>,
        state: &mut FuzzerState,
        manager: &mut EventManager,
        corpus_idx: usize,
    ) -> (r: Result<(), Error>)
        requires
            old(state).wf(),
            old(manager).wf(),
            corpus_idx < old(state).corpus.entries@.len(),
        ensures
            final(state).wf(),
            final(manager).wf(),
            final(state).corpus.entries@.len() >= old(state).corpus.entries@.len(),
            final(state).solutions.entries@.len() >= old(state).solutions.entries@.len(),
            final(state).corpus.entries@.take(old(state).corpus.entries@.len() as int) == old(state).corpus.entries@,
            final(state).solutions.entries@.take(old(state).solutions.entries@.len() as int) == old(state).solutions.entries@,
            final(state).executions >= old(state).executions,
            r is Ok ==> final(state).executions as int >= (if old(state).executions + 1
                + spec_xorshift64(old(state).rand.seed) as int % 128 <= u64::MAX {
                old(state).executions + 1 + spec_xorshift64(old(state).rand.seed) as int % 128
            } else {
                u64::MAX as int
            }),
    {
        let num = self.iterations(state);
        let mut stage_id: u64 = 0;
        while stage_id < num
            invariant
                state.wf(),
                manager.wf(),
                stage_id <= num,
                num as int == 1 + spec_xorshift64(old(state).rand.seed) as int % 128,
                state.executions as int >= (if old(state).executions + stage_id <= u64::MAX {
                    old(state).executions + stage_id
                } else {
                    u64::MAX as int
                }),
                state.corpus.entries@.len() >= old(state).corpus.entries@.len(),
                state.solutions.entries@.len() >= old(state).solutions.entries@.len(),
                state.corpus.entries@.take(old(state).corpus.entries@.len() as int) == old(state).corpus.entries@,
                state.solutions.entries@.take(old(state).solutions.entries@.len() as int) == old(state).solutions.entries@,
                corpus_idx < state.corpus.entries@.len(),
            decreases num - stage_id,
        {
            let mut input = match load_input_copy(state, corpus_idx) {
                Ok(i) => i,
                Err(e) => {
                    return Err(e);
                },
            };
            match self.mutator.mutate(state, &mut input, stage_id as i32) {
                Ok(()) => (),
                Err(e) => {
                    return Err(e);
                },
            }
            let ghost mid_corpus = state.corpus.entries@;
            let ghost mid_solutions = state.solutions.entries@;
            let eval = fuzzer.evaluate_input(state, executor, manager, input);
            proof {
                assert(state.corpus.entries@.take(old(state).corpus.entries@.len() as int)
                    =~= mid_corpus.take(old(state).corpus.entries@.len() as int));
                assert(state.solutions.entries@.take(old(state).solutions.entries@.len() as int)
                    =~= mid_solutions.take(old(state).solutions.entries@.len() as int));
            }
            let new_idx = match eval {
                Ok(p) => p.1,
                Err(e) => {
                    return Err(e);
                },
            };
            match self.mutator.post_exec(state, stage_id as i32, new_idx) {
                Ok(()) => (),
                Err(e) => {
                    return Err(e);
                },
            }
            stage_id = stage_id + 1;
        }
        Ok(())
    }
}

impl<M: Mutator> Stage for StdMutationalStage<M> {
    fn perform<H: HarnessRunner>(
        &mut self,
        fuzzer: &mut StdFuzzer,
        executor: &mut InMemoryExecutor<H>,
        state: &mut FuzzerState,
        manager: &mut EventManager,
        corpus_idx: usize,
    ) -> (r: Result<(), Error>) {
        self.perform_mutational(fuzzer, executor, state, manager, corpus_idx)
    }
}

/// The adaptive mutational stage: drives the two-mode particle-swarm
/// scheduler over the mutation operators while fuzzing the scheduled
/// entry.
pub struct MOptStage<M: Mutator> {
    pub mutator: M,
}

impl<M: Mutator> MOptStage<M> {
    /// Creates a new default mutational stage, holding exactly the given
    /// mutator.
    pub fn new(mutator: M) -> (r: Self)
        ensures
            r.mutator == mutator,
    {
        MOptStage { mutator }
    }

    /// The mutator, added to this stage.
    pub fn mutator(&self) -> (r: &M)
        ensures
            r == &self.mutator,
    {
        &self.mutator
    }

    /// The mutator, added to this stage (as mutable ref).
    pub fn mutator_mut(&mut self) -> &mut M {
        &mut self.mutator
    }

    /// The number of iterations for one scheduled entry: one plus a draw
    /// from the state RNG, uniform over [1, 128]; nothing else of the
    /// state moves.
    pub fn iterations(&self, state: &mut FuzzerState) -> (r: u64)
        ensures
            1 <= r <= 128,
            r as int == 1 + spec_xorshift64(old(state).rand.seed) as int % 128,
            final(state).rand.seed == spec_xorshift64(old(state).rand.seed),
            *final(state) == (FuzzerState { rand: final(state).rand, ..*old(state) }),
    {
        1 + state.rand.below(128)
    }

    /// One unit of work for the scheduled entry, in whichever mode the
    /// scheduler is in.
    ///
    /// Whatever the run produced, afterwards: the corpora have only grown,
    /// keeping every existing entry; the running find total has grown
    /// exactly by the number of testcases and solutions this stage added;
    /// no operator's find credits outgrew that number, singly or summed;
    /// on entering core mode the switch baseline was seeded from the
    /// corpora; the mode timers sit within their periods; and core mode is
    /// left exactly through the productivity bound, which resets the
    /// switch baseline.
    pub fn perform_mutational<H: HarnessRunner>(
        &mut self,
        fuzzer: &mut StdFuzzer,
        executor: &mut InMemoryExecutor<H>,
        state: &mut FuzzerState,
        manager: &mut EventManager,
        corpus_idx: usize,
    ) -> (r: Result<(), Error>)
        requires
            old(state).wf(),
            old(manager).wf(),
            corpus_idx < old(state).corpus.entries@.len(),
        ensures
            final(state).wf(),
            final(manager).wf(),
            final(state).corpus.entries@.len() >= old(state).corpus.entries@.len(),
            final(state).solutions.entries@.len() >= old(state).solutions.entries@.len(),
            final(state).corpus.entries@.take(old(state).corpus.entries@.len() as int) == old(state).corpus.entries@,
            final(state).solutions.entries@.take(old(state).solutions.entries@.len() as int) == old(state).solutions.entries@,
            r is Ok ==> final(state).mopt.total_finds as int == old(state).mopt.total_finds + (
            spec_counts(*final(state)) - spec_counts(*old(state))),
            forall|i: int|
                0 <= i < old(state).mopt.operator_num ==> (#[trigger] final(state).mopt.core_finds_per_stage@[i]) as int <= old(state).mopt.core_finds_per_stage@[i]
                    + (spec_counts(*final(state)) - spec_counts(*old(state))),
            spec_row_sum(final(state).mopt.core_finds_per_stage@) <= spec_row_sum(
                old(state).mopt.core_finds_per_stage@,
            ) + (spec_counts(*final(state)) - spec_counts(*old(state))),
            spec_matrix_sum(final(state).mopt.pilot_finds_per_stage@) <= spec_matrix_sum(
                old(state).mopt.pilot_finds_per_stage@,
            ) + (spec_counts(*final(state)) - spec_counts(*old(state))),
            old(state).mopt.key_module == MOptMode::CORE_FUZZING && r is Ok ==> (final(state).mopt.key_module == MOptMode::CORE_FUZZING || final(state).mopt.finds_since_switching
                == 0),
            old(state).mopt.key_module == MOptMode::CORE_FUZZING && old(state).mopt.finds_since_switching == 0 && r is Ok ==> final(state).mopt.last_limit_time_start
                == old(state).mopt.core_time && ((final(state).mopt.key_module
                == MOptMode::CORE_FUZZING && final(state).mopt.finds_since_switching as int
                == spec_counts(*old(state))) || (final(state).mopt.key_module
                == MOptMode::PILOT_FUZZING && final(state).mopt.finds_since_switching == 0)),
            old(state).mopt.key_module == MOptMode::CORE_FUZZING && r is Ok ==> final(state).mopt.core_time <= final(state).mopt.period_core,
            old(state).mopt.key_module == MOptMode::PILOT_FUZZING && r is Ok ==> final(state).mopt.pilot_time <= final(state).mopt.period_pilot,
            final(state).mopt.operator_num == old(state).mopt.operator_num,
            final(state).mopt.swarm_num == old(state).mopt.swarm_num,
            final(state).executions >= old(state).executions,
            r is Ok ==> final(state).executions as int >= (if old(state).executions + 1
                + spec_xorshift64(old(state).rand.seed) as int % 128 <= u64::MAX {
                old(state).executions + 1 + spec_xorshift64(old(state).rand.seed) as int % 128
            } else {
                u64::MAX as int
            }),
    {
        let mode = state.mopt.key_module;
        match mode {
            MOptMode::CORE_FUZZING => {
                if state.mopt.finds_since_switching == 0 {
                    // core mode was just entered: seed the baseline the
                    // productivity bound compares against
                    let finds = (state.corpus.count() as u64) + (state.solutions.count() as u64);
                    state.mopt.finds_since_switching = finds;
                    state.mopt.last_limit_time_start = state.mopt.core_time;
                }
                let num = self.iterations(state);
                let mut stage_id: u64 = 0;
                while stage_id < num
                    invariant
                        state.wf(),
                        manager.wf(),
                        stage_id <= num,
                        num as int == 1 + spec_xorshift64(old(state).rand.seed) as int % 128,
                        state.executions as int >= (if old(state).executions + stage_id
                            <= u64::MAX {
                            old(state).executions + stage_id
                        } else {
                            u64::MAX as int
                        }),
                        state.corpus.entries@.len() >= old(state).corpus.entries@.len(),
                        state.solutions.entries@.len() >= old(state).solutions.entries@.len(),
                        state.corpus.entries@.take(old(state).corpus.entries@.len() as int) == old(state).corpus.entries@,
                        state.solutions.entries@.take(
                            old(state).solutions.entries@.len() as int,
                        ) == old(state).solutions.entries@,
                        corpus_idx < state.corpus.entries@.len(),
                        old(state).mopt.key_module == MOptMode::CORE_FUZZING,
                        state.mopt.key_module == MOptMode::CORE_FUZZING
                            || state.mopt.finds_since_switching == 0,
                        old(state).mopt.finds_since_switching == 0 ==> {
                            &&& state.mopt.last_limit_time_start == old(state).mopt.core_time
                            &&& ((state.mopt.key_module == MOptMode::CORE_FUZZING
                                && state.mopt.finds_since_switching as int == spec_counts(
                                *old(state),
                            )) || (state.mopt.key_module == MOptMode::PILOT_FUZZING
                                && state.mopt.finds_since_switching == 0))
                        },
                        stage_id >= 1 ==> state.mopt.core_time <= state.mopt.period_core,
                        state.mopt.period_core == old(state).mopt.period_core,
                        state.mopt.operator_num == old(state).mopt.operator_num,
                        state.mopt.swarm_num == old(state).mopt.swarm_num,
                        state.mopt.total_finds as int == old(state).mopt.total_finds + (
                        spec_counts(*state) - spec_counts(*old(state))),
                        forall|i: int|
                            0 <= i < old(state).mopt.operator_num ==> (#[trigger] state
                                .mopt
                                .core_finds_per_stage@[i]) as int <= old(state).mopt.core_finds_per_stage@[i] + (spec_counts(*state) - spec_counts(
                                *old(state),
                            )),
                        spec_row_sum(state.mopt.core_finds_per_stage@) <= spec_row_sum(
                            old(state).mopt.core_finds_per_stage@,
                        ) + (spec_counts(*state) - spec_counts(*old(state))),
                        state.mopt.pilot_finds_per_stage == old(state).mopt.pilot_finds_per_stage,
                    decreases num - stage_id,
                {
                    let mut input = match load_input_copy(state, corpus_idx) {
                        Ok(i) => i,
                        Err(e) => {
                            return Err(e);
                        },
                    };
                    match self.mutator.mutate(state, &mut input, stage_id as i32) {
                        Ok(()) => (),
                        Err(e) => {
                            return Err(e);
                        },
                    }
                    let core_time = state.mopt.core_time;
                    state.mopt.core_time = core_time.saturating_add(1);

                    let finds_before = (state.corpus.count() as u64) + (
                    state.solutions.count() as u64);

                    let ghost mid_corpus = state.corpus.entries@;
                    let ghost mid_solutions = state.solutions.entries@;
                    let eval = fuzzer.evaluate_input(state, executor, manager, input);
                    proof {
                        assert(state.corpus.entries@.take(old(state).corpus.entries@.len() as int)
                            =~= mid_corpus.take(old(state).corpus.entries@.len() as int));
                        assert(state.solutions.entries@.take(
                            old(state).solutions.entries@.len() as int,
                        ) =~= mid_solutions.take(old(state).solutions.entries@.len() as int));
                    }
                    let eval_idx = match eval {
                        Ok(p) => p.1,
                        Err(e) => {
                            return Err(e);
                        },
                    };

                    match self.mutator.post_exec(state, stage_id as i32, eval_idx) {
                        Ok(()) => (),
                        Err(e) => {
                            return Err(e);
                        },
                    }

                    let finds = (state.corpus.count() as u64) + (state.solutions.count() as u64);
                    if finds > finds_before {
                        let diff = finds - finds_before;
                        state.mopt.credit_core_operator_finds(diff);
                    }

                    let elapsed = state.mopt.core_time.saturating_sub(
                        state.mopt.last_limit_time_start,
                    );
                    if core_limit_exceeded(elapsed, finds, state.mopt.finds_since_switching) {
                        // core mode stopped paying: move back to the pilot
                        // fuzzing mode
                        state.mopt.key_module = MOptMode::PILOT_FUZZING;
                        state.mopt.finds_since_switching = 0;
                        if state.mopt.swarm_now >= state.mopt.swarm_num {
                            // the pilot cursor starts a fresh round
                            state.mopt.swarm_now = 0;
                        }
                    }

                    if state.mopt.core_time > state.mopt.period_core {
                        state.mopt.core_time = 0;
                        let total_finds = state.mopt.total_finds;
                        state.mopt.finds_until_last_switching = total_finds;
                        state.mopt.update_core_operator_ctr_pso();
                        match state.mopt.pso_update() {
                            Ok(()) => (),
                            Err(_) => {
                                // degenerate all-zero weights: recoverable;
                                // the update is skipped and fuzzing continues
                            },
                        }
                    }
                    stage_id = stage_id + 1;
                }
            },
            MOptMode::PILOT_FUZZING => {
                let num = self.iterations(state);
                let mut stage_id: u64 = 0;
                while stage_id < num
                    invariant
                        state.wf(),
                        manager.wf(),
                        stage_id <= num,
                        num as int == 1 + spec_xorshift64(old(state).rand.seed) as int % 128,
                        state.executions as int >= (if old(state).executions + stage_id
                            <= u64::MAX {
                            old(state).executions + stage_id
                        } else {
                            u64::MAX as int
                        }),
                        state.corpus.entries@.len() >= old(state).corpus.entries@.len(),
                        state.solutions.entries@.len() >= old(state).solutions.entries@.len(),
                        state.corpus.entries@.take(old(state).corpus.entries@.len() as int) == old(state).corpus.entries@,
                        state.solutions.entries@.take(
                            old(state).solutions.entries@.len() as int,
                        ) == old(state).solutions.entries@,
                        corpus_idx < state.corpus.entries@.len(),
                        old(state).mopt.key_module == MOptMode::PILOT_FUZZING,
                        state.mopt.swarm_now < state.mopt.swarm_num,
                        stage_id >= 1 ==> state.mopt.pilot_time <= state.mopt.period_pilot,
                        state.mopt.period_pilot == old(state).mopt.period_pilot,
                        state.mopt.operator_num == old(state).mopt.operator_num,
                        state.mopt.swarm_num == old(state).mopt.swarm_num,
                        state.mopt.total_finds as int == old(state).mopt.total_finds + (
                        spec_counts(*state) - spec_counts(*old(state))),
                        forall|i: int|
                            0 <= i < old(state).mopt.operator_num ==> (#[trigger] state
                                .mopt
                                .core_finds_per_stage@[i]) as int <= old(state).mopt.core_finds_per_stage@[i] + (spec_counts(*state) - spec_counts(
                                *old(state),
                            )),
                        spec_row_sum(state.mopt.core_finds_per_stage@) <= spec_row_sum(
                            old(state).mopt.core_finds_per_stage@,
                        ) + (spec_counts(*state) - spec_counts(*old(state))),
                        spec_matrix_sum(state.mopt.pilot_finds_per_stage@) <= spec_matrix_sum(
                            old(state).mopt.pilot_finds_per_stage@,
                        ) + (spec_counts(*state) - spec_counts(*old(state))),
                    decreases num - stage_id,
                {
                    let mut input = match load_input_copy(state, corpus_idx) {
                        Ok(i) => i,
                        Err(e) => {
                            return Err(e);
                        },
                    };
                    match self.mutator.mutate(state, &mut input, stage_id as i32) {
                        Ok(()) => (),
                        Err(e) => {
                            return Err(e);
                        },
                    }
                    let pilot_time = state.mopt.pilot_time;
                    state.mopt.pilot_time = pilot_time.saturating_add(1);

                    let finds_before = (state.corpus.count() as u64) + (
                    state.solutions.count() as u64);

                    let ghost mid_corpus = state.corpus.entries@;
                    let ghost mid_solutions = state.solutions.entries@;
                    let eval = fuzzer.evaluate_input(state, executor, manager, input);
                    proof {
                        assert(state.corpus.entries@.take(old(state).corpus.entries@.len() as int)
                            =~= mid_corpus.take(old(state).corpus.entries@.len() as int));
                        assert(state.solutions.entries@.take(
                            old(state).solutions.entries@.len() as int,
                        ) =~= mid_solutions.take(old(state).solutions.entries@.len() as int));
                    }
                    let eval_idx = match eval {
                        Ok(p) => p.1,
                        Err(e) => {
                            return Err(e);
                        },
                    };

                    match self.mutator.post_exec(state, stage_id as i32, eval_idx) {
                        Ok(()) => (),
                        Err(e) => {
                            return Err(e);
                        },
                    }

                    let swarm_now = state.mopt.swarm_now;
                    let finds = (state.corpus.count() as u64) + (state.solutions.count() as u64);
                    if finds > finds_before {
                        let diff = finds - finds_before;
                        state.mopt.credit_pilot_operator_finds(swarm_now, diff);
                    }

                    if state.mopt.pilot_time > state.mopt.period_pilot {
                        // this swarm's pilot period is over: score it and
                        // move to the next particle
                        let new_finds = state.mopt.total_finds
                            - state.mopt.finds_until_last_switching;
                        let pilot_time_now = state.mopt.pilot_time;
                        proof {
                            assert(new_finds as int * ((PERIOD_PILOT_COEF * FITNESS_SCALE) as int)
                                <= 0x2000_0000int * ((PERIOD_PILOT_COEF * FITNESS_SCALE) as int))
                                by (nonlinear_arith)
                                requires
                                    new_finds <= 0x2000_0000,
                            ;
                        }
                        let fitness = new_finds * (PERIOD_PILOT_COEF * FITNESS_SCALE)
                            / pilot_time_now;
                        state.mopt.swarm_fitness[swarm_now] = fitness;
                        state.mopt.pilot_time = 0;
                        let total_finds = state.mopt.total_finds;
                        state.mopt.finds_until_last_switching = total_finds;
                        state.mopt.update_pilot_operator_ctr_pso(swarm_now);

                        state.mopt.swarm_now = swarm_now + 1;

                        if state.mopt.swarm_now == state.mopt.swarm_num {
                            // every swarm has piloted: move to core mode
                            state.mopt.key_module = MOptMode::CORE_FUZZING;
                            match state.mopt.init_core_module() {
                                Ok(()) => {
                                    proof {
                                        lemma_row_sum_bound(
                                            state.mopt.core_finds_per_stage@,
                                            0,
                                        );
                                        lemma_row_sum_bound(
                                            old(state).mopt.core_finds_per_stage@,
                                            u64::MAX as int,
                                        );
                                    }
                                },
                                Err(e) => {
                                    return Err(e);
                                },
                            }
                        }
                    }
                    stage_id = stage_id + 1;
                }
            },
        }
        Ok(())
    }
}

impl<M: Mutator> Stage for MOptStage<M> {
    fn perform<H: HarnessRunner>(
        &mut self,
        fuzzer: &mut StdFuzzer,
        executor: &mut InMemoryExecutor<H>,
        state: &mut FuzzerState,
        manager: &mut EventManager,
        corpus_idx: usize,
    ) -> (r: Result<(), Error>) {
        self.perform_mutational(fuzzer, executor, state, manager, corpus_idx)
    }
}

} // verus!
