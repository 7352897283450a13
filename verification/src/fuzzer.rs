use vstd::prelude::*;
use crate::error::Error;
use crate::corpus::Testcase;
use crate::events::{Event, EventManager, EVENT_PAYLOAD_LIMIT};
use crate::executor::{spec_observed, ExecOutcome, HarnessRunner, InMemoryExecutor};
use crate::feedback::{
    lemma_append_keeps_shape, lemma_feedback_settles_dropped, lemma_feedback_settles_retained,
    lemma_query_keeps_shape, lemma_shape_kept_trans, spec_feedback_settled,
    spec_feedback_shape_kept, Feedback,
};
use crate::input::BytesInput;
use crate::rand::spec_xorshift64;
use crate::scheduler::CorpusScheduler;
use crate::serialize::{spec_corpus_inputs, spec_testcase_input};
use crate::state::{FuzzerState, CORPUS_LIMIT};

verus! {

/// The top-level driver: a scheduler, the interest feedback, and the
/// objective feedback.
pub struct StdFuzzer {
    pub scheduler: CorpusScheduler,
    pub feedback: Feedback,
    pub objective: Feedback,
}

impl StdFuzzer {
    pub fn new(scheduler: CorpusScheduler, feedback: Feedback, objective: Feedback) -> (r: Self)
        ensures
            r.scheduler == scheduler,
            r.feedback == feedback,
            r.objective == objective,
    {
        StdFuzzer { scheduler, feedback, objective }
    }

    /// Evaluates one input: runs the target once, asks the objective
    /// feedback whether this is a solution and the interest feedback
    /// whether it enters the corpus, persists and reports accordingly.
    ///
    /// Corpus counts never shrink; the corpus grows exactly when the
    /// interest feedback said yes, and the result then carries the new
    /// index. Failure comes exactly from a corpus at its machine limit.
    pub fn evaluate_input<H: HarnessRunner>(
        &mut self,
        state: &mut FuzzerState,
        executor: &mut InMemoryExecutor<H>,
        manager: &mut EventManager,
        input: BytesInput,
    ) -> (r: Result<(bool, Option<usize>), Error>)
        requires
            old(state).wf(),
            old(manager).wf(),
            input@.len() <= EVENT_PAYLOAD_LIMIT,
        ensures
            final(state).wf(),
            final(manager).wf(),
            final(state).corpus.entries@.len() >= old(state).corpus.entries@.len(),
            final(state).solutions.entries@.len() >= old(state).solutions.entries@.len(),
            final(state).solutions.entries@.len() <= old(state).solutions.entries@.len() + 1,
            final(state).corpus.entries@.take(old(state).corpus.entries@.len() as int) == old(
                state,
            ).corpus.entries@,
            final(state).solutions.entries@.take(old(state).solutions.entries@.len() as int) == old(
                state,
            ).solutions.entries@,
            final(state).mopt == old(state).mopt,
            final(state).rand == old(state).rand,
            final(state).tokens == old(state).tokens,
            final(state).queue_cycle_pos == old(state).queue_cycle_pos,
            final(state).executions == (if old(state).executions == u64::MAX {
                u64::MAX
            } else {
                (old(state).executions + 1) as u64
            }),
            old(state).corpus.entries@.len() < CORPUS_LIMIT && old(state).solutions.entries@.len()
                < CORPUS_LIMIT ==> r is Ok,
            r matches Ok(p) && p.0 ==> spec_feedback_settled(
                old(self).feedback,
                final(self).feedback,
                final(executor).observers,
                true,
            ),
            r matches Ok(p) && !p.0 ==> spec_feedback_settled(
                old(self).feedback,
                final(self).feedback,
                final(executor).observers,
                false,
            ),
            r is Ok ==> spec_feedback_shape_kept(old(self).objective, final(self).objective),
            match r {
                Ok(p) => {
                    &&& (p.1 is Some <==> p.0)
                    &&& final(state).corpus.entries@.len() as int == old(
                        state,
                    ).corpus.entries@.len() + (if p.0 {
                        1int
                    } else {
                        0int
                    })
                    &&& p.0 ==> p.1 == Some(old(state).corpus.entries@.len() as usize)
                    &&& exists|o: ExecOutcome|
                        {
                            &&& #[trigger] spec_observed(
                                old(executor).observers,
                                final(executor).observers,
                                o,
                            )
                            &&& p.0 == old(self).feedback.spec_is_interesting(
                                final(executor).observers,
                                o.exit_kind,
                            )
                            &&& (final(state).solutions.entries@.len() == old(
                                state,
                            ).solutions.entries@.len() + 1 <==> old(self).objective.spec_is_interesting(
                                final(executor).observers,
                                o.exit_kind,
                            ))
                        }
                },
                Err(e) => e is IllegalState,
            },
    {
        let exit_kind = executor.run(&input);
        state.executions = state.executions.saturating_add(1);
        let ghost objective0 = self.objective;
        let is_solution = self.objective.is_interesting(&executor.observers, exit_kind);
        let ghost objective1 = self.objective;
        proof {
            lemma_query_keeps_shape(objective0, objective1, executor.observers, exit_kind);
        }
        if is_solution {
            if state.solutions.count() >= CORPUS_LIMIT {
                return Err(
                    Error::IllegalState("the solutions corpus reached its machine limit".to_owned()),
                );
            }
            let mut testcase = Testcase::new(input.clone());
            self.objective.append_metadata(&executor.observers, &mut testcase);
            proof {
                lemma_append_keeps_shape(objective1, self.objective);
                lemma_shape_kept_trans(objective0, objective1, self.objective);
            }
            let add_result = state.solutions.add(testcase);
            match add_result {
                Ok(_) => (),
                Err(e) => {
                    return Err(Error::IllegalState("the solutions corpus refused an add".to_owned()));
                },
            }
            proof {
                assert(state.solutions.entries@.take(old(state).solutions.entries@.len() as int)
                    =~= old(state).solutions.entries@);
            }
            manager.fire(Event::Objective { input: input.target_bytes().clone() });
        }
        let ghost feedback0 = self.feedback;
        let interesting = self.feedback.is_interesting(&executor.observers, exit_kind);
        let ghost feedback1 = self.feedback;
        if interesting {
            if state.corpus.count() >= CORPUS_LIMIT {
                return Err(
                    Error::IllegalState("the corpus reached its machine limit".to_owned()),
                );
            }
            let mut testcase = Testcase::new(input.clone());
            self.feedback.append_metadata(&executor.observers, &mut testcase);
            let idx = match state.corpus.add(testcase) {
                Ok(i) => i,
                Err(e) => {
                    return Err(Error::IllegalState("the corpus refused an add".to_owned()));
                },
            };
            proof {
                assert(state.corpus.entries@.take(old(state).corpus.entries@.len() as int) =~= old(
                    state,
                ).corpus.entries@);
            }
            let ghost feedback2 = self.feedback;
            self.feedback.update_history(&executor.observers);
            proof {
                lemma_feedback_settles_retained(
                    feedback0,
                    feedback1,
                    feedback2,
                    self.feedback,
                    executor.observers,
                    exit_kind,
                );
            }
            self.scheduler.on_add(state, idx);
            manager.fire(
                Event::NewTestcase { input: input.target_bytes().clone(), metadata_blob: Vec::new() },
            );
            Ok((true, Some(idx)))
        } else {
            self.feedback.discard_metadata();
            proof {
                lemma_feedback_settles_dropped(
                    feedback0,
                    feedback1,
                    self.feedback,
                    executor.observers,
                    exit_kind,
                );
                assert(state.corpus.entries@.take(old(state).corpus.entries@.len() as int) =~= old(
                    state,
                ).corpus.entries@);
                assert(state.solutions.entries@.take(old(state).solutions.entries@.len() as int)
                    =~= old(state).solutions.entries@);
            }
            Ok((false, None))
        }
    }
}

/// One unit of work for a scheduled corpus entry. A stage may run the
/// target many times; whatever it does, the state stays well-formed and
/// the corpora never shrink.
pub trait Stage {
    fn perform<H: HarnessRunner>(
        &mut self,
        fuzzer: &mut StdFuzzer,
        executor: &mut InMemoryExecutor<H>,
        state: &mut FuzzerState,
        manager: &mut EventManager,
        corpus_idx: usize,
    ) -> (r: Result<(), Error>)
        requires
            old(state).wf(),
            old(manager).wf(),
            corpus_idx < old(state).corpus.entries@.len(),
        ensures
            final(state).wf(),
            final(manager).wf(),
            final(state).corpus.entries@.len() >= old(state).corpus.entries@.len(),
            final(state).solutions.entries@.len() >= old(state).solutions.entries@.len(),
            final(state).corpus.entries@.take(old(state).corpus.entries@.len() as int) == old(
                state,
            ).corpus.entries@,
            final(state).solutions.entries@.take(old(state).solutions.entries@.len() as int) == old(
                state,
            ).solutions.entries@,
            final(state).executions >= old(state).executions,
            r is Ok ==> final(state).executions > old(state).executions || old(state).executions
                == u64::MAX,
    ;
}

/// One iteration of the top-level loop: schedule one corpus entry and run
/// the stage on it.
pub fn fuzz_one<St: Stage, H: HarnessRunner>(
    fuzzer: &mut StdFuzzer,
    stage: &mut St,
    executor: &mut InMemoryExecutor<H>,
    state: &mut FuzzerState,
    manager: &mut EventManager,
) -> (r: Result<usize, Error>)
    requires
        old(state).wf(),
        old(manager).wf(),
        old(state).corpus.entries@.len() > 0,
    ensures
        final(state).wf(),
        final(manager).wf(),
        final(state).corpus.entries@.len() >= old(state).corpus.entries@.len(),
        final(state).solutions.entries@.len() >= old(state).solutions.entries@.len(),
        final(state).corpus.entries@.take(old(state).corpus.entries@.len() as int) == old(
            state,
        ).corpus.entries@,
        final(state).solutions.entries@.take(old(state).solutions.entries@.len() as int) == old(
            state,
        ).solutions.entries@,
        r matches Ok(idx) ==> idx < old(state).corpus.entries@.len(),
        r matches Ok(idx) ==> (old(fuzzer).scheduler is Queue ==> idx as int == old(
            state,
        ).queue_cycle_pos as int % (old(state).corpus.entries@.len() as int)),
        r matches Ok(idx) ==> (old(fuzzer).scheduler is Rand ==> idx as int == spec_xorshift64(
            old(state).rand.seed,
        ) as int % (old(state).corpus.entries@.len() as int)),
        final(state).executions >= old(state).executions,
        r is Ok ==> final(state).executions > old(state).executions || old(state).executions
            == u64::MAX,
{
    let idx = fuzzer.scheduler.next(state);
    match stage.perform(fuzzer, executor, state, manager, idx) {
        Ok(()) => Ok(idx),
        Err(e) => Err(e),
    }
}

/// Runs the loop for `iters` scheduled entries: the unit of work between
/// restart checkpoints. Corpus and solutions counts never decrease.
/// Returns the shutdown sentinel when the event manager asked to stop.
pub fn fuzz_loop_for<St: Stage, H: HarnessRunner>(
    fuzzer: &mut StdFuzzer,
    stage: &mut St,
    executor: &mut InMemoryExecutor<H>,
    state: &mut FuzzerState,
    manager: &mut EventManager,
    iters: u64,
) -> (r: Result<(), Error>)
    requires
        old(state).wf(),
        old(manager).wf(),
        old(state).corpus.entries@.len() > 0,
    ensures
        final(state).wf(),
        final(manager).wf(),
        final(state).corpus.entries@.len() >= old(state).corpus.entries@.len(),
        final(state).solutions.entries@.len() >= old(state).solutions.entries@.len(),
        final(state).corpus.entries@.take(old(state).corpus.entries@.len() as int) == old(
            state,
        ).corpus.entries@,
        final(state).solutions.entries@.take(old(state).solutions.entries@.len() as int) == old(
            state,
        ).solutions.entries@,
        iters == 0 ==> r is Ok,
        final(state).executions >= old(state).executions,
        r is Ok ==> final(state).executions as int >= (if old(state).executions + iters
            <= u64::MAX {
            old(state).executions + iters
        } else {
            u64::MAX as int
        }),
        old(manager).shutting_down && iters > 0 ==> (r matches Err(e) && e is ShuttingDown),
{
    if iters > 0 && manager.should_shutdown() {
        return Err(Error::ShuttingDown);
    }
    let mut i: u64 = 0;
    while i < iters
        invariant
            state.wf(),
            manager.wf(),
            i <= iters,
            state.corpus.entries@.len() >= old(state).corpus.entries@.len(),
            state.solutions.entries@.len() >= old(state).solutions.entries@.len(),
            state.corpus.entries@.take(old(state).corpus.entries@.len() as int) == old(
                state,
            ).corpus.entries@,
            state.solutions.entries@.take(old(state).solutions.entries@.len() as int) == old(
                state,
            ).solutions.entries@,
            state.corpus.entries@.len() > 0,
            state.executions as int >= (if old(state).executions + i <= u64::MAX {
                old(state).executions + i
            } else {
                u64::MAX as int
            }),
            old(manager).shutting_down ==> iters == 0,
        decreases iters - i,
    {
        if manager.should_shutdown() {
            return Err(Error::ShuttingDown);
        }
        let ghost mid_corpus = state.corpus.entries@;
        let ghost mid_solutions = state.solutions.entries@;
        let _ = fuzz_one(fuzzer, stage, executor, state, manager)?;
        proof {
            assert(state.corpus.entries@.take(old(state).corpus.entries@.len() as int)
                =~= mid_corpus.take(old(state).corpus.entries@.len() as int));
            assert(state.solutions.entries@.take(old(state).solutions.entries@.len() as int)
                =~= mid_solutions.take(old(state).solutions.entries@.len() as int));
        }
        i = i + 1;
    }
    Ok(())
}

/// Brings a state up from an empty corpus: the given seed inputs enter the
/// corpus, and where none were given a single synthetic input is made, so
/// that the corpus is never empty afterwards.
pub fn ensure_seed_corpus(state: &mut FuzzerState, seeds: Vec<BytesInput>) -> (r: usize)
    requires
        old(state).wf(),
    ensures
        final(state).wf(),
        final(state).corpus.entries@.len() >= 1,
        final(state).corpus.entries@.len() >= old(state).corpus.entries@.len(),
        final(state).solutions == old(state).solutions,
        final(state).mopt == old(state).mopt,
        final(state).rand == old(state).rand,
        final(state).tokens == old(state).tokens,
        r == final(state).corpus.entries@.len() - old(state).corpus.entries@.len(),
        old(state).corpus.entries@.len() == 0 && seeds@.len() > 0 && seeds@.len() <= CORPUS_LIMIT
            ==> spec_corpus_inputs(final(state).corpus) == seeds@.map_values(|s: BytesInput| s@),
{
    let mut added: usize = 0;
    if state.corpus.count() == 0 {
        let n = seeds.len();
        let mut k: usize = 0;
        while k < n
            invariant
                state.wf(),
                k <= n,
                n == seeds@.len(),
                added == state.corpus.entries@.len(),
                state.solutions == old(state).solutions,
                state.mopt == old(state).mopt,
                state.rand == old(state).rand,
                state.tokens == old(state).tokens,
                old(state).corpus.entries@.len() == 0,
                n <= CORPUS_LIMIT ==> state.corpus.entries@.len() == k,
                n <= CORPUS_LIMIT ==> forall|i: int|
                    0 <= i < k ==> spec_testcase_input(#[trigger] state.corpus.entries@[i])
                        == seeds@[i]@,
            decreases n - k,
        {
            if state.corpus.count() < CORPUS_LIMIT {
                let input = BytesInput::new(seeds[k].target_bytes().clone());
                let add_result = state.corpus.add(Testcase::new(input));
                match add_result {
                    Ok(_) => {
                        added = added + 1;
                    },
                    Err(_) => (),
                }
                proof {
                    if n <= CORPUS_LIMIT {
                        assert(spec_testcase_input(state.corpus.entries@[k as int])
                            == seeds@[k as int]@);
                    }
                }
            }
            k = k + 1;
        }
        proof {
            if old(state).corpus.entries@.len() == 0 && seeds@.len() > 0 && seeds@.len()
                <= CORPUS_LIMIT {
                assert(spec_corpus_inputs(state.corpus) =~~= seeds@.map_values(
                    |s: BytesInput| s@,
                ));
            }
        }
        if state.corpus.count() == 0 {
            // the synthetic bootstrap input: one zero byte
            let mut bytes: Vec<u8> = Vec::new();
            bytes.push(0);
            let add_result = state.corpus.add(Testcase::new(BytesInput::new(bytes)));
            match add_result {
                Ok(_) => {
                    added = added + 1;
                },
                Err(_) => (),
            }
        }
    }
    added
}

} // verus!
