use vstd::prelude::*;
use crate::ExitKind;
use crate::input::BytesInput;
use crate::observer::{spec_hit_bucket, Observers};

verus! {

/// Everything one execution of the target produced: its exit kind and the
/// raw signals the observers snapshot.
#[derive(Clone, Debug)]
pub struct ExecOutcome {
    pub exit_kind: ExitKind,
    /// Raw edge counters written by the instrumentation.
    pub coverage: Vec<u8>,
    /// Reachability flags of the target.
    pub targets: Vec<u8>,
    pub time_ns: u64,
    /// Shared concolic trace buffer, empty when no tracer runs.
    pub trace: Vec<u8>,
}

/// The one call the core cannot make itself: running the target once.
/// Implementations live outside the verified core (an in-process harness
/// behind signal handlers, a forked child fed over a pipe); nothing is
/// assumed about what they return, and everything downstream is proved for
/// every possible outcome.
pub trait HarnessRunner {
    fn run_target(&mut self, input: &BytesInput) -> ExecOutcome;
}

/// How an observer registry after one execution relates to the registry
/// before it and to what the execution produced.
pub open spec fn spec_observed(pre: Observers, post: Observers, o: ExecOutcome) -> bool {
    &&& post.edges.name == pre.edges.name
    &&& post.edges.use_hitcounts == pre.edges.use_hitcounts
    &&& post.edges.map@.len() == o.coverage@.len()
    &&& pre.edges.use_hitcounts ==> forall|i: int|
        0 <= i < o.coverage@.len() ==> post.edges.map@[i] == spec_hit_bucket(o.coverage@[i])
    &&& !pre.edges.use_hitcounts ==> post.edges.map@ == o.coverage@
    &&& post.targets.name == pre.targets.name
    &&& post.targets.use_hitcounts == pre.targets.use_hitcounts
    &&& post.targets.map@.len() == o.targets@.len()
    &&& pre.targets.use_hitcounts ==> forall|i: int|
        0 <= i < o.targets@.len() ==> post.targets.map@[i] == spec_hit_bucket(o.targets@[i])
    &&& !pre.targets.use_hitcounts ==> post.targets.map@ == o.targets@
    &&& post.time.name == pre.time.name
    &&& post.time.last_runtime_ns == Some(o.time_ns)
    &&& post.concolic.name == pre.concolic.name
    &&& post.concolic.trace@ == o.trace@
}

/// Runs the target exactly once per call: resets all owned observers,
/// makes the target call through the harness, then snapshots the signals.
pub struct InMemoryExecutor<H> {
    pub harness: H,
    pub observers: Observers,
}

impl<H: HarnessRunner> InMemoryExecutor<H> {
    pub fn new(harness: H, observers: Observers) -> (r: Self)
        ensures
            r.observers == observers,
    {
        InMemoryExecutor { harness, observers }
    }

    /// One execution. Whatever the target did, afterwards the observers
    /// hold exactly the signals of this execution, and the result is its
    /// exit kind.
    pub fn run(&mut self, input: &BytesInput) -> (r: ExitKind)
        ensures
            exists|o: ExecOutcome|
                #[trigger] spec_observed(old(self).observers, final(self).observers, o)
                    && r == o.exit_kind,
    {
        self.observers.edges.pre_exec();
        self.observers.targets.pre_exec();
        self.observers.time.pre_exec();
        self.observers.concolic.pre_exec();
        let outcome = self.harness.run_target(input);
        self.observers.edges.post_exec(&outcome.coverage);
        self.observers.targets.post_exec(&outcome.targets);
        self.observers.time.post_exec(outcome.time_ns);
        self.observers.concolic.post_exec(&outcome.trace);
        proof {
            assert(spec_observed(old(self).observers, self.observers, outcome));
        }
        outcome.exit_kind
    }
}

/// The exit kind of a terminated child process, from the signal that ended
/// it: an out-of-memory kill for SIGKILL, a crash for any other signal,
/// and a clean run for a normal exit. (A child still running past its
/// deadline is a timeout; that decision needs a clock and stays with the
/// process supervisor.)
pub fn classify_child_exit(signal: Option<i32>) -> (r: ExitKind)
    ensures
        signal == Some(9i32) ==> r == ExitKind::Oom,
        (signal matches Some(s) && s != 9i32) ==> r == ExitKind::Crash,
        signal is None ==> r == ExitKind::Okay,
{
    match signal {
        Some(s) => {
            if s == 9 {
                // killed outright: assumed out of memory
                ExitKind::Oom
            } else {
                ExitKind::Crash
            }
        },
        None => ExitKind::Okay,
    }
}

/// Whether a child process has run past its wall-clock deadline (the one
/// plain-value decision of the forking runner; only the surrounding
/// program can look at a clock).
pub fn deadline_exceeded(elapsed_ms: u64, timeout_ms: u64) -> (r: bool)
    ensures
        r == (elapsed_ms > timeout_ms),
{
    elapsed_ms > timeout_ms
}

} // verus!
