use fuzzcore::corpus::Testcase;
use fuzzcore::events::EventManager;
use fuzzcore::executor::{classify_child_exit, deadline_exceeded, ExecOutcome, HarnessRunner, InMemoryExecutor};
use fuzzcore::feedback::{CrashFeedback, Feedback, MaxMapFeedback};
use fuzzcore::fuzzer::{ensure_seed_corpus, fuzz_loop_for, fuzz_one, StdFuzzer};
use fuzzcore::input::{png_dictionary, BytesInput};
use fuzzcore::mopt::{MOptMode, MOptState};
use fuzzcore::mutator::{MOptMutator, StdScheduledMutator};
use fuzzcore::observer::{ConcolicObserver, MapObserver, Observers, TimeObserver};
use fuzzcore::scheduler::CorpusScheduler;
use fuzzcore::serialize::{deserialize_state, serialize_state};
use fuzzcore::stages::{MOptStage, StdMutationalStage};
use fuzzcore::state::FuzzerState;
use fuzzcore::ExitKind;

/// A harness whose behaviour is a plain function of the input bytes.
struct FnHarness {
    run: fn(&[u8]) -> ExecOutcome,
}

impl HarnessRunner for FnHarness {
    fn run_target(&mut self, input: &BytesInput) -> ExecOutcome {
        (self.run)(input.target_bytes().as_slice())
    }
}

fn observers() -> Observers {
    Observers {
        edges: MapObserver::new("edges".to_string(), 8, false),
        targets: MapObserver::new("targets".to_string(), 4, false),
        time: TimeObserver::new("time".to_string()),
        concolic: ConcolicObserver::new("concolic".to_string(), Vec::new()),
    }
}

fn coverage_fuzzer() -> StdFuzzer {
    StdFuzzer::new(
        CorpusScheduler::Queue,
        Feedback::MaxMap(MaxMapFeedback::new("edges".to_string(), 8, false)),
        Feedback::Crash(CrashFeedback::new()),
    )
}

fn outcome(exit_kind: ExitKind, coverage: Vec<u8>) -> ExecOutcome {
    ExecOutcome { exit_kind, coverage, targets: vec![0; 4], time_ns: 10, trace: Vec::new() }
}

#[test]
fn empty_corpus_bootstrap_reaches_a_nonempty_corpus() {
    // a trivial target that accepts anything
    let mut state = FuzzerState::new(7, 8, 5);
    let added = ensure_seed_corpus(&mut state, Vec::new());
    assert_eq!(added, 1);
    assert!(state.corpus().count() >= 1);

    let mut fuzzer = coverage_fuzzer();
    let mut stage = StdMutationalStage::new(StdScheduledMutator::new());
    let mut executor = InMemoryExecutor::new(
        FnHarness { run: |_| outcome(ExitKind::Okay, vec![1, 0, 0, 0, 0, 0, 0, 0]) },
        observers(),
    );
    let mut manager = EventManager::new(0);
    fuzz_loop_for(&mut fuzzer, &mut stage, &mut executor, &mut state, &mut manager, 10).unwrap();
    assert!(state.corpus().count() >= 1);
}

fn crash_on_magic(bytes: &[u8]) -> ExecOutcome {
    // the target crashes exactly when the input leads with the magic pair;
    // coverage rewards each matched prefix byte
    let mut coverage = vec![0u8; 8];
    coverage[0] = 1;
    if !bytes.is_empty() && bytes[0] == 0xDE {
        coverage[1] = 1;
        if bytes.len() > 1 && bytes[1] == 0xAD {
            coverage[2] = 1;
            return outcome(ExitKind::Crash, coverage);
        }
    }
    outcome(ExitKind::Okay, coverage)
}

#[test]
fn crash_discovery_finds_the_magic_prefix() {
    let mut state = FuzzerState::new(0x5eed, 8, 5);
    ensure_seed_corpus(&mut state, vec![BytesInput::new(vec![0x00])]);
    let mut fuzzer = coverage_fuzzer();
    let mut stage = StdMutationalStage::new(StdScheduledMutator::new());
    let mut executor = InMemoryExecutor::new(FnHarness { run: crash_on_magic }, observers());
    let mut manager = EventManager::new(0);
    let mut rounds = 0;
    while state.solutions().count() == 0 && rounds < 30_000 {
        fuzz_one(&mut fuzzer, &mut stage, &mut executor, &mut state, &mut manager).unwrap();
        rounds += 1;
    }
    assert!(state.solutions().count() >= 1);
}

fn needs_chunk_name(bytes: &[u8]) -> ExecOutcome {
    let mut coverage = vec![0u8; 8];
    coverage[0] = 1;
    if bytes.len() >= 4 && &bytes[0..4] == b"IHDR" {
        return outcome(ExitKind::Crash, coverage);
    }
    outcome(ExitKind::Okay, coverage)
}

#[test]
fn dictionary_assist_reaches_the_literal_quickly() {
    let mut state = FuzzerState::new(0xd1c7, 8, 5);
    state.set_tokens(png_dictionary());
    ensure_seed_corpus(&mut state, vec![BytesInput::new(vec![0x00, 0x00, 0x00, 0x00])]);
    let mut fuzzer = coverage_fuzzer();
    let mut stage = StdMutationalStage::new(StdScheduledMutator::new());
    let mut executor = InMemoryExecutor::new(FnHarness { run: needs_chunk_name }, observers());
    let mut manager = EventManager::new(0);
    let mut rounds = 0;
    // ten thousand executions suffice; each round is at most 128 of them
    while state.solutions().count() == 0 && rounds < 2_000 {
        fuzz_one(&mut fuzzer, &mut stage, &mut executor, &mut state, &mut manager).unwrap();
        rounds += 1;
    }
    assert!(state.solutions().count() >= 1);
}

#[test]
fn mopt_credits_only_the_productive_operator() {
    // four operators; only operator 2 is ever used when finds appear
    let mut mopt = MOptState::new(4, 2);

    // pilot phase: operator 2 is elected, then a find is credited
    mopt.record_operator_use(2);
    mopt.credit_pilot_operator_finds(0, 1);
    assert_eq!(mopt.pilot_finds_per_stage[0], vec![0, 0, 1, 0]);

    // the swarm's period ends and core mode is entered
    mopt.update_pilot_operator_ctr_pso(0);
    mopt.key_module = MOptMode::CORE_FUZZING;
    mopt.init_core_module().unwrap();
    assert_eq!(mopt.core_finds_per_stage, vec![0, 0, 0, 0]);

    // core phase: again only operator 2 produces finds
    mopt.record_operator_use(2);
    mopt.credit_core_operator_finds(3);
    assert!(mopt.core_finds_per_stage[2] > mopt.core_finds_per_stage[0]);
    assert!(mopt.core_finds_per_stage[2] > mopt.core_finds_per_stage[1]);
    assert!(mopt.core_finds_per_stage[2] > mopt.core_finds_per_stage[3]);
    assert_eq!(mopt.total_finds, 4);
}

#[test]
fn mopt_crediting_skips_idle_operators() {
    let mut mopt = MOptState::new(3, 1);
    mopt.key_module = MOptMode::CORE_FUZZING;
    mopt.record_operator_use(0);
    mopt.record_operator_use(0);
    mopt.record_operator_use(2);
    mopt.credit_core_operator_finds(5);
    // the find goes to the first operator used past its snapshot; an idle
    // operator gets nothing, and the credited sum never exceeds the finds
    assert_eq!(mopt.core_finds_per_stage, vec![5, 0, 0]);
    assert!(mopt.core_finds_per_stage.iter().sum::<u64>() <= mopt.total_finds);
    // after the snapshot the same counters credit nobody
    mopt.update_core_operator_ctr_pso();
    mopt.credit_core_operator_finds(2);
    assert_eq!(mopt.core_finds_per_stage, vec![5, 0, 0]);
}

#[test]
fn core_mode_returns_to_pilot_when_unproductive() {
    let mut state = FuzzerState::new(11, 8, 3);
    ensure_seed_corpus(&mut state, vec![BytesInput::new(vec![1, 2, 3, 4])]);
    state.mopt.key_module = MOptMode::CORE_FUZZING;
    let mut fuzzer = coverage_fuzzer();
    let mut stage = MOptStage::new(MOptMutator::new());
    // a target that never yields a new find: core mode stops paying
    let mut executor = InMemoryExecutor::new(
        FnHarness { run: |_| outcome(ExitKind::Okay, vec![1, 0, 0, 0, 0, 0, 0, 0]) },
        observers(),
    );
    let mut manager = EventManager::new(0);
    let mut rounds = 0;
    while state.mopt.key_module == MOptMode::CORE_FUZZING && rounds < 50 {
        fuzz_one(&mut fuzzer, &mut stage, &mut executor, &mut state, &mut manager).unwrap();
        rounds += 1;
    }
    assert_eq!(state.mopt.key_module, MOptMode::PILOT_FUZZING);
    // leaving core mode resets the switch baseline
    assert_eq!(state.mopt.finds_since_switching, 0);
}

#[test]
fn mopt_pilot_cycle_reaches_core_mode() {
    // tiny periods so that one test walks a full pilot round
    let mut state = FuzzerState::new(12, 2, 2);
    state.mopt.period_pilot = 3;
    ensure_seed_corpus(&mut state, vec![BytesInput::new(vec![1, 2, 3, 4])]);
    let mut fuzzer = coverage_fuzzer();
    let mut stage = MOptStage::new(MOptMutator::new());
    let mut executor = InMemoryExecutor::new(
        FnHarness { run: |_| outcome(ExitKind::Okay, vec![1, 0, 0, 0, 0, 0, 0, 0]) },
        observers(),
    );
    let mut manager = EventManager::new(0);
    let mut rounds = 0;
    while state.mopt.key_module == MOptMode::PILOT_FUZZING && rounds < 100 {
        fuzz_one(&mut fuzzer, &mut stage, &mut executor, &mut state, &mut manager).unwrap();
        rounds += 1;
    }
    assert_eq!(state.mopt.key_module, MOptMode::CORE_FUZZING);
}

#[test]
fn timeout_objective_persists_the_input_exactly_once() {
    let mut state = FuzzerState::new(5, 8, 5);
    let mut fuzzer = StdFuzzer::new(
        CorpusScheduler::Queue,
        Feedback::MaxMap(MaxMapFeedback::new("edges".to_string(), 8, false)),
        Feedback::Crash(CrashFeedback::with_timeout_objective(true)),
    );
    let mut executor = InMemoryExecutor::new(
        FnHarness { run: |_| outcome(ExitKind::Timeout, vec![0; 8]) },
        observers(),
    );
    let mut manager = EventManager::new(0);
    let (_, _) = fuzzer
        .evaluate_input(&mut state, &mut executor, &mut manager, BytesInput::new(vec![1]))
        .unwrap();
    assert_eq!(state.solutions().count(), 1);

    // without the timeout objective the same run persists nothing
    let mut quiet = StdFuzzer::new(
        CorpusScheduler::Queue,
        Feedback::MaxMap(MaxMapFeedback::new("edges".to_string(), 8, false)),
        Feedback::Crash(CrashFeedback::new()),
    );
    let mut state2 = FuzzerState::new(5, 8, 5);
    let (_, _) = quiet
        .evaluate_input(&mut state2, &mut executor, &mut manager, BytesInput::new(vec![1]))
        .unwrap();
    assert_eq!(state2.solutions().count(), 0);
}

#[test]
fn corpus_counts_never_decrease_over_a_run() {
    let mut state = FuzzerState::new(3, 8, 5);
    ensure_seed_corpus(&mut state, vec![BytesInput::new(vec![7])]);
    let mut fuzzer = coverage_fuzzer();
    let mut stage = StdMutationalStage::new(StdScheduledMutator::new());
    let mut executor = InMemoryExecutor::new(FnHarness { run: crash_on_magic }, observers());
    let mut manager = EventManager::new(0);
    let mut last_corpus = state.corpus().count();
    let mut last_solutions = state.solutions().count();
    for _ in 0..100 {
        fuzz_one(&mut fuzzer, &mut stage, &mut executor, &mut state, &mut manager).unwrap();
        assert!(state.corpus().count() >= last_corpus);
        assert!(state.solutions().count() >= last_solutions);
        last_corpus = state.corpus().count();
        last_solutions = state.solutions().count();
    }
}

#[test]
fn shutdown_request_stops_the_loop_cleanly() {
    let mut state = FuzzerState::new(1, 8, 5);
    ensure_seed_corpus(&mut state, Vec::new());
    let mut fuzzer = coverage_fuzzer();
    let mut stage = StdMutationalStage::new(StdScheduledMutator::new());
    let mut executor = InMemoryExecutor::new(
        FnHarness { run: |_| outcome(ExitKind::Okay, vec![0; 8]) },
        observers(),
    );
    let mut manager = EventManager::new(0);
    manager.request_shutdown();
    let r = fuzz_loop_for(&mut fuzzer, &mut stage, &mut executor, &mut state, &mut manager, 5);
    assert!(matches!(r, Err(fuzzcore::error::Error::ShuttingDown)));
}

#[test]
fn child_exit_classification_follows_the_signal() {
    assert_eq!(classify_child_exit(Some(9)), ExitKind::Oom);
    assert_eq!(classify_child_exit(Some(11)), ExitKind::Crash);
    assert_eq!(classify_child_exit(Some(6)), ExitKind::Crash);
    assert_eq!(classify_child_exit(None), ExitKind::Okay);
    assert!(deadline_exceeded(1001, 1000));
    assert!(!deadline_exceeded(1000, 1000));
}

#[test]
fn concolic_feedback_stashes_the_trace_for_retained_inputs() {
    let obs = ConcolicObserver::new("concolic".to_string(), vec![4, 5, 6]);
    let mut feedback = Feedback::Concolic(fuzzcore::feedback::ConcolicFeedback::from_observer(&obs));
    let mut registry = observers();
    registry.concolic.post_exec(&vec![4, 5, 6]);
    // a concolic feedback never claims an execution interesting
    assert!(!feedback.is_interesting(&registry, ExitKind::Okay));
    let mut testcase = Testcase::new(BytesInput::new(vec![1]));
    feedback.append_metadata(&registry, &mut testcase);
    let blob = testcase.metadata.get(fuzzcore::feedback::METADATA_KEY_CONCOLIC).unwrap();
    assert_eq!(blob, &vec![4, 5, 6]);
}

#[test]
fn event_queue_encodes_in_order_with_growing_sequence_numbers() {
    let mut manager = EventManager::new(77);
    manager.fire(fuzzcore::events::Event::UpdateStats { executions: 5, corpus_count: 2 });
    manager.fire(fuzzcore::events::Event::Objective { input: vec![0xAB] });
    let first = manager.pop_encoded().unwrap();
    let second = manager.pop_encoded().unwrap();
    assert!(manager.pop_encoded().is_none());
    // tag, producer id, sequence number lead each frame
    assert_eq!(first[0], fuzzcore::events::EVENT_TAG_UPDATE_STATS as u8);
    assert_eq!(first[8], 77);
    assert_eq!(first[16], 0);
    assert_eq!(second[0], fuzzcore::events::EVENT_TAG_OBJECTIVE as u8);
    assert_eq!(second[16], 1);
}

#[test]
fn restart_checkpoint_round_trips_byte_identical() {
    let mut state = FuzzerState::new(99, 8, 5);
    state.set_tokens(png_dictionary());
    ensure_seed_corpus(&mut state, vec![BytesInput::new(vec![1, 2, 3])]);
    state.solutions.add(Testcase::new(BytesInput::new(vec![0xDE, 0xAD]))).unwrap();
    state.executions = 41;
    state.queue_cycle_pos = 1;

    let bytes = serialize_state(&state);
    assert!(!bytes.is_empty());
    let restored = deserialize_state(&bytes).unwrap();
    // the respawned child sees at least what the checkpoint held
    assert_eq!(restored.corpus().count(), state.corpus().count());
    assert_eq!(restored.solutions().count(), state.solutions().count());
    assert_eq!(restored.rand.seed, state.rand.seed);
    assert_eq!(restored.queue_cycle_pos, state.queue_cycle_pos);
    assert_eq!(restored.executions, state.executions);
    // the scheduler's mode and accounting survive the restart
    assert_eq!(restored.mopt.key_module, state.mopt.key_module);
    assert_eq!(restored.mopt.total_finds, state.mopt.total_finds);
    assert_eq!(restored.mopt.swarm_now, state.mopt.swarm_now);
    assert_eq!(restored.mopt.pilot_time, state.mopt.pilot_time);
    assert_eq!(restored.mopt.period_core, state.mopt.period_core);
    assert_eq!(
        restored.corpus().get(0).unwrap().input.as_ref().unwrap().target_bytes(),
        &vec![1, 2, 3]
    );

    // re-serializing the restored state is byte-identical
    let rebytes = serialize_state(&restored);
    assert_eq!(rebytes, bytes);

    // and the scheduler would pick the same entry either way
    let mut a = restored.clone();
    let mut b = state.clone();
    assert_eq!(CorpusScheduler::Queue.next(&mut a), CorpusScheduler::Queue.next(&mut b));

    // a truncated checkpoint is refused
    let mut bad = bytes.clone();
    bad.pop();
    assert!(deserialize_state(&bad).is_none());
}
