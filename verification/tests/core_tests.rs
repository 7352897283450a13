use fuzzcore::corpus::{Corpus, MetadataMap, Testcase};
use fuzzcore::error::Error;
use fuzzcore::feedback::{CrashFeedback, MaxMapFeedback};
use fuzzcore::input::{png_dictionary, BytesInput};
use fuzzcore::observer::{hit_bucket, ConcolicObserver, MapObserver, TimeObserver};
use fuzzcore::rand::StdRand;
use fuzzcore::serialize::{push_bytes, push_u64_le, read_bytes, read_u64_le};
use fuzzcore::ExitKind;

#[test]
fn corpus_add_returns_the_new_index_and_counts_grow() {
    let mut corpus = Corpus::new();
    assert_eq!(corpus.count(), 0);
    let i0 = corpus.add(Testcase::new(BytesInput::new(vec![1]))).unwrap();
    let i1 = corpus.add(Testcase::new(BytesInput::new(vec![2]))).unwrap();
    assert_eq!((i0, i1), (0, 1));
    assert_eq!(corpus.count(), 2);
    let tc = corpus.get(1).unwrap();
    assert_eq!(tc.input.as_ref().unwrap().target_bytes(), &vec![2]);
    assert!(matches!(corpus.get(2), Err(Error::KeyNotFound(_))));
}

#[test]
fn testcase_load_input_fails_only_without_memory_copy() {
    let tc = Testcase::new(BytesInput::new(vec![9, 9]));
    assert_eq!(tc.load_input().unwrap().target_bytes(), &vec![9, 9]);
    let mut on_disk = Testcase::new(BytesInput::new(vec![]));
    on_disk.input = None;
    on_disk.filename = Some("crash-1".to_string());
    assert!(matches!(on_disk.load_input(), Err(Error::EmptyOptional(_))));
    on_disk.set_loaded_input(BytesInput::from_file_bytes(vec![3, 4]));
    assert_eq!(on_disk.load_input().unwrap().target_bytes(), &vec![3, 4]);
}

#[test]
fn input_file_round_trip_is_byte_identical() {
    let file = vec![0u8, 1, 2, 254, 255];
    let loaded = BytesInput::from_file_bytes(file.clone());
    assert_eq!(loaded.to_file_bytes(), file);
}

#[test]
fn metadata_lookup_finds_the_inserted_record() {
    let mut map = MetadataMap::new();
    assert!(matches!(map.get(7), Err(Error::KeyNotFound(_))));
    map.insert(7, vec![1, 2]);
    map.insert(8, vec![3]);
    assert_eq!(map.get(7).unwrap(), &vec![1, 2]);
    assert_eq!(map.get(8).unwrap(), &vec![3]);
    assert!(map.has(8));
    assert!(!map.has(9));
    map.insert(7, vec![9]);
    assert_eq!(map.get(7).unwrap(), &vec![9]);
}

#[test]
fn rand_is_deterministic_and_bounded() {
    let mut a = StdRand::with_seed(42);
    let mut b = StdRand::with_seed(42);
    for _ in 0..100 {
        let x = a.below(17);
        assert_eq!(x, b.below(17));
        assert!(x < 17);
    }
    // the zero seed is replaced so the generator cannot get stuck
    let mut z = StdRand::with_seed(0);
    assert_ne!(z.next_u64(), 0);
}

#[test]
fn hit_buckets_fold_counters_into_classes() {
    assert_eq!(hit_bucket(0), 0);
    assert_eq!(hit_bucket(1), 1);
    assert_eq!(hit_bucket(2), 2);
    assert_eq!(hit_bucket(3), 4);
    assert_eq!(hit_bucket(4), 8);
    assert_eq!(hit_bucket(7), 8);
    assert_eq!(hit_bucket(8), 16);
    assert_eq!(hit_bucket(15), 16);
    assert_eq!(hit_bucket(16), 32);
    assert_eq!(hit_bucket(31), 32);
    assert_eq!(hit_bucket(32), 64);
    assert_eq!(hit_bucket(127), 64);
    assert_eq!(hit_bucket(128), 128);
    assert_eq!(hit_bucket(255), 128);
}

#[test]
fn map_observer_resets_and_classifies() {
    let mut obs = MapObserver::new("edges".to_string(), 4, true);
    obs.post_exec(&vec![0, 1, 5, 200]);
    assert_eq!(obs.map, vec![0, 1, 8, 128]);
    obs.pre_exec();
    assert_eq!(obs.map, vec![0, 0, 0, 0]);
    let mut raw = MapObserver::new("targets".to_string(), 2, false);
    raw.post_exec(&vec![0, 77]);
    assert_eq!(raw.map, vec![0, 77]);
    assert!(raw.any_set());
    raw.pre_exec();
    assert!(!raw.any_set());
}

#[test]
fn time_and_concolic_observers_snapshot_their_signals() {
    let mut time = TimeObserver::new("time".to_string());
    assert!(time.last_runtime_ns.is_none());
    time.post_exec(125);
    assert_eq!(time.last_runtime_ns, Some(125));
    time.pre_exec();
    assert!(time.last_runtime_ns.is_none());

    let mut conc = ConcolicObserver::new("concolic".to_string(), vec![1, 2]);
    let meta = conc.create_metadata_from_current_map();
    assert_eq!(meta.trace, vec![1, 2]);
    conc.pre_exec();
    assert!(conc.trace.is_empty());
}

#[test]
fn coverage_novelty_is_monotone_and_detects_improvement() {
    let mut fb = MaxMapFeedback::new("edges".to_string(), 4, false);
    assert!(fb.is_interesting(&vec![0, 1, 0, 0]));
    fb.update_history(&vec![0, 1, 0, 0]);
    assert_eq!(fb.novelty, vec![0, 1, 0, 0]);
    // the same observation again improves nothing
    assert!(!fb.is_interesting(&vec![0, 1, 0, 0]));
    // a higher bucket in one position is novel; the join moves no cell down
    let before = fb.novelty.clone();
    assert!(fb.is_interesting(&vec![0, 0, 2, 0]));
    fb.update_history(&vec![0, 0, 2, 0]);
    for i in 0..4 {
        assert!(fb.novelty[i] >= before[i]);
    }
    assert!(fb.novelty.iter().zip(before.iter()).any(|(a, b)| a > b));
}

#[test]
fn feedback_is_deterministic_on_equal_observations() {
    let fb = MaxMapFeedback::new("edges".to_string(), 3, false);
    let observed = vec![0, 9, 0];
    assert_eq!(fb.is_interesting(&observed), fb.is_interesting(&observed));
    let crash = CrashFeedback::new();
    assert_eq!(
        crash.is_interesting(ExitKind::Crash),
        crash.is_interesting(ExitKind::Crash)
    );
}

#[test]
fn crash_feedback_classifies_each_exit_kind() {
    let crash = CrashFeedback::new();
    assert!(crash.is_interesting(ExitKind::Crash));
    assert!(crash.is_interesting(ExitKind::Oom));
    assert!(!crash.is_interesting(ExitKind::Timeout));
    assert!(!crash.is_interesting(ExitKind::Okay));
    let with_timeout = CrashFeedback::with_timeout_objective(true);
    assert!(with_timeout.is_interesting(ExitKind::Timeout));
}

#[test]
fn u64_and_bytes_codecs_round_trip() {
    let mut out = Vec::new();
    push_u64_le(&mut out, 0x0123_4567_89ab_cdef);
    assert_eq!(out.len(), 8);
    assert_eq!(out[0], 0xef);
    assert_eq!(out[7], 0x01);
    assert_eq!(read_u64_le(&out, 0), 0x0123_4567_89ab_cdef);

    let mut framed = Vec::new();
    push_bytes(&mut framed, &vec![7, 8, 9]);
    let (body, next) = read_bytes(&framed, 0).unwrap();
    assert_eq!(body, vec![7, 8, 9]);
    assert_eq!(next, framed.len());
    // a truncated frame is refused
    assert!(read_bytes(&framed[..framed.len() - 1].to_vec(), 0).is_none());
}

#[test]
fn png_dictionary_carries_the_header_and_chunk_names() {
    let tokens = png_dictionary();
    assert_eq!(tokens.count(), 5);
    assert_eq!(tokens.token_at(0), &vec![137, 80, 78, 71, 13, 10, 26, 10]);
    assert_eq!(tokens.token_at(1), &b"IHDR".to_vec());
    assert_eq!(tokens.token_at(4), &b"IEND".to_vec());
}

#[test]
fn error_labels_name_each_kind() {
    assert_eq!(Error::ShuttingDown.kind_label(), "shutting_down");
    assert_eq!(Error::Serialize("x".into()).kind_label(), "serialize");
    assert_eq!(Error::File("a".into(), "b".into()).kind_label(), "file");
    assert_eq!(Error::EmptyOptional("x".into()).kind_label(), "empty_optional");
    assert_eq!(Error::KeyNotFound("x".into()).kind_label(), "key_not_found");
    assert_eq!(Error::InvalidArguments("x".into()).kind_label(), "invalid_arguments");
    assert_eq!(Error::IllegalState("x".into()).kind_label(), "illegal_state");
    assert_eq!(Error::Uninitialized("x".into()).kind_label(), "uninitialized");
    assert!(Error::ShuttingDown.is_shutting_down());
    assert!(!Error::Serialize("x".into()).is_shutting_down());
}
