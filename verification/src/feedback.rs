use vstd::prelude::*;
use crate::ExitKind;
use crate::corpus::{spec_metadata_lookup, MetadataEntry, Testcase};
use crate::observer::{ConcolicMetadata, ConcolicObserver, Observers};
use crate::serialize::{push_u64_le, spec_u64_le};

verus! {

/// Typed metadata tags used by the feedbacks.
pub const METADATA_KEY_MAP_INDEXES: u64 = 1;

pub const METADATA_KEY_REACHED_TARGETS: u64 = 2;

pub const METADATA_KEY_EXEC_TIME: u64 = 3;

pub const METADATA_KEY_CONCOLIC: u64 = 4;

/// Machine limit on the size of an observer map whose indexes are written
/// out as metadata.
pub const MAX_MAP_BYTES: usize = 0x1000_0000;

/// Whether the observed map improves on the novelty map in some position
/// both maps reach.
pub open spec fn spec_improves(novelty: Seq<u8>, observed: Seq<u8>) -> bool {
    exists|i: int| 0 <= i < novelty.len() && i < observed.len() && observed[i] > novelty[i]
}

/// The novelty map after folding an observation in: pointwise maximum over
/// the positions both maps reach.
pub open spec fn spec_novelty_joined(novelty: Seq<u8>, observed: Seq<u8>) -> Seq<u8> {
    Seq::new(
        novelty.len(),
        |i: int|
            if i < observed.len() && observed[i] > novelty[i] {
                observed[i]
            } else {
                novelty[i]
            },
    )
}

/// The canonical coverage feedback: keeps a novelty map of the best value
/// ever seen per index, and finds an execution interesting exactly when
/// some index improved.
#[derive(Clone, Debug)]
pub struct MaxMapFeedback {
    /// Name of the map observer this feedback reads.
    pub name: String,
    /// Best value ever seen, per map index.
    pub novelty: Vec<u8>,
    /// Whether the improved indexes are recorded as testcase metadata.
    pub track_indexes: bool,
}

impl MaxMapFeedback {
    /// A fresh feedback for a map of the given size: nothing seen yet.
    pub fn new(name: String, size: usize, track_indexes: bool) -> (r: Self)
        ensures
            r.name@ == name@,
            r.novelty@.len() == size,
            forall|i: int| 0 <= i < size ==> r.novelty@[i] == 0,
            r.track_indexes == track_indexes,
    {
        let mut novelty: Vec<u8> = Vec::new();
        let mut k: usize = 0;
        while k < size
            invariant
                k <= size,
                novelty@.len() == k,
                forall|i: int| 0 <= i < k ==> novelty@[i] == 0,
            decreases size - k,
        {
            novelty.push(0);
            k = k + 1;
        }
        MaxMapFeedback { name, novelty, track_indexes }
    }

    /// Whether this execution's map improves on anything ever seen. Pure:
    /// the novelty map is not touched here (see `update_history`).
    pub fn is_interesting(&self, observed: &Vec<u8>) -> (r: bool)
        ensures
            r == spec_improves(self.novelty@, observed@),
    {
        let n = self.novelty.len();
        let m = observed.len();
        let mut k: usize = 0;
        while k < n
            invariant
                k <= n,
                n == self.novelty@.len(),
                m == observed@.len(),
                forall|i: int| 0 <= i < k && i < m ==> observed@[i] <= self.novelty@[i],
            decreases n - k,
        {
            if k < m {
                if observed[k] > self.novelty[k] {
                    return true;
                }
            }
            k = k + 1;
        }
        false
    }

    /// Folds this execution's map into the novelty map: pointwise maximum.
    pub fn update_history(&mut self, observed: &Vec<u8>)
        ensures
            final(self).name == old(self).name,
            final(self).track_indexes == old(self).track_indexes,
            final(self).novelty@ == spec_novelty_joined(old(self).novelty@, observed@),
    {
        let n = self.novelty.len();
        let m = observed.len();
        let mut k: usize = 0;
        while k < n
            invariant
                k <= n,
                n == self.novelty@.len(),
                n == old(self).novelty@.len(),
                m == observed@.len(),
                self.name == old(self).name,
                self.track_indexes == old(self).track_indexes,
                forall|i: int|
                    0 <= i < k ==> self.novelty@[i] == spec_novelty_joined(
                        old(self).novelty@,
                        observed@,
                    )[i],
                forall|i: int| k <= i < n ==> self.novelty@[i] == old(self).novelty@[i],
            decreases n - k,
        {
            proof {
                assert(self.novelty@[k as int] == old(self).novelty@[k as int]);
            }
            if k < m {
                if observed[k] > self.novelty[k] {
                    self.novelty[k] = observed[k];
                }
            }
            proof {
                let j = k as int;
                let joined = spec_novelty_joined(old(self).novelty@, observed@);
                assert(joined[j] == (if j < observed@.len() && observed@[j] > old(self).novelty@[j] {
                    observed@[j]
                } else {
                    old(self).novelty@[j]
                }));
                assert(self.novelty@[j] == joined[j]);
            }
            k = k + 1;
        }
        proof {
            assert(self.novelty@ =~= spec_novelty_joined(old(self).novelty@, observed@));
        }
    }

    /// The indexes this execution improved, in increasing order, as the
    /// metadata payload (each index as eight little-endian bytes).
    pub fn improved_indexes_blob(&self, observed: &Vec<u8>) -> (r: Vec<u8>)
        requires
            self.novelty@.len() <= MAX_MAP_BYTES,
        ensures
            r@.len() % 8 == 0,
            r@ == spec_improved_blob(self.novelty@, observed@, self.novelty@.len() as int),
    {
        let n = self.novelty.len();
        let m = observed.len();
        let mut out: Vec<u8> = Vec::new();
        let mut k: usize = 0;
        while k < n
            invariant
                k <= n,
                n == self.novelty@.len(),
                m == observed@.len(),
                n <= MAX_MAP_BYTES,
                out@.len() % 8 == 0,
                out@.len() <= 8 * k,
                out@ == spec_improved_blob(self.novelty@, observed@, k as int),
            decreases n - k,
        {
            if k < m {
                if observed[k] > self.novelty[k] {
                    push_u64_le(&mut out, k as u64);
                }
            }
            k = k + 1;
        }
        out
    }
}

/// The improved-indexes payload over the first `n` positions: the index of
/// every position the observation improves, in increasing order, eight
/// little-endian bytes each.
pub open spec fn spec_improved_blob(novelty: Seq<u8>, observed: Seq<u8>, n: int) -> Seq<u8>
    decreases n,
{
    if n <= 0 {
        Seq::empty()
    } else if n - 1 < observed.len() && observed[n - 1] > novelty[n - 1] {
        spec_improved_blob(novelty, observed, n - 1) + spec_u64_le((n - 1) as u64)
    } else {
        spec_improved_blob(novelty, observed, n - 1)
    }
}

/// The reached-targets payload over the first `n` flags: the index of
/// every set flag, in increasing order, eight little-endian bytes each.
pub open spec fn spec_reached_blob(map: Seq<u8>, n: int) -> Seq<u8>
    decreases n,
{
    if n <= 0 {
        Seq::empty()
    } else if map[n - 1] != 0 {
        spec_reached_blob(map, n - 1) + spec_u64_le((n - 1) as u64)
    } else {
        spec_reached_blob(map, n - 1)
    }
}

/// Novelty monotonicity: folding an interesting observation into the
/// novelty map moves no position down, and moves at least one position
/// strictly up.
pub proof fn lemma_novelty_monotone(novelty: Seq<u8>, observed: Seq<u8>)
    requires
        spec_improves(novelty, observed),
    ensures
        forall|i: int|
            0 <= i < novelty.len() ==> #[trigger] spec_novelty_joined(novelty, observed)[i]
                >= novelty[i],
        exists|i: int|
            0 <= i < novelty.len() && #[trigger] spec_novelty_joined(novelty, observed)[i]
                > novelty[i],
{
    let j = choose|i: int| 0 <= i < novelty.len() && i < observed.len() && observed[i] > novelty[i];
    assert(spec_novelty_joined(novelty, observed)[j] > novelty[j]);
}

/// The standard objective feedback: a crash or an out-of-memory kill is a
/// solution; whether a timeout counts is the caller's configuration.
#[derive(Clone, Debug)]
pub struct CrashFeedback {
    pub timeout_is_objective: bool,
}

/// What the crash feedback holds of an exit kind.
pub open spec fn spec_crash_interesting(timeout_is_objective: bool, exit_kind: ExitKind) -> bool {
    ||| exit_kind == ExitKind::Crash
    ||| exit_kind == ExitKind::Oom
    ||| (timeout_is_objective && exit_kind == ExitKind::Timeout)
}

impl CrashFeedback {
    /// By default a timeout is not an objective.
    pub fn new() -> (r: Self)
        ensures
            r.timeout_is_objective == false,
    {
        CrashFeedback { timeout_is_objective: false }
    }

    pub fn with_timeout_objective(timeout_is_objective: bool) -> (r: Self)
        ensures
            r.timeout_is_objective == timeout_is_objective,
    {
        CrashFeedback { timeout_is_objective }
    }

    pub fn is_interesting(&self, exit_kind: ExitKind) -> (r: bool)
        ensures
            r == spec_crash_interesting(self.timeout_is_objective, exit_kind),
    {
        match exit_kind {
            ExitKind::Crash => true,
            ExitKind::Oom => true,
            ExitKind::Timeout => self.timeout_is_objective,
            ExitKind::Okay => false,
        }
    }
}

/// Never interesting on its own; attaches the execution time to retained
/// testcases.
#[derive(Clone, Debug)]
pub struct TimeFeedback {
    /// Name of the time observer this feedback reads.
    pub name: String,
}

impl TimeFeedback {
    pub fn new(name: String) -> (r: Self)
        ensures
            r.name@ == name@,
    {
        TimeFeedback { name }
    }
}

/// Interesting exactly when some target flag was reached; records the
/// reached flags as metadata.
#[derive(Clone, Debug)]
pub struct ReachabilityFeedback {
    /// Name of the map observer holding the target flags.
    pub name: String,
}

impl ReachabilityFeedback {
    pub fn new(name: String) -> (r: Self)
        ensures
            r.name@ == name@,
    {
        ReachabilityFeedback { name }
    }
}

/// Attaches concolic tracing metadata to retained testcases. Never claims
/// an execution interesting; it is composed beside a feedback that does.
#[derive(Clone, Debug)]
pub struct ConcolicFeedback {
    pub name: String,
    pub metadata: Option<ConcolicMetadata>,
}

impl ConcolicFeedback {
    /// A feedback reading the concolic observer it is handed, by name.
    pub fn from_observer(observer: &ConcolicObserver) -> (r: Self)
        ensures
            r.name@ == observer.name@,
            r.metadata is None,
    {
        ConcolicFeedback { name: observer.name().clone(), metadata: None }
    }

    pub fn name(&self) -> (r: &String)
        ensures
            r == &self.name,
    {
        &self.name
    }
}

/// A feedback: a named leaf classifier, or a composition with explicit
/// short-circuit policy.
#[derive(Debug)]
pub enum Feedback {
    MaxMap(MaxMapFeedback),
    Crash(CrashFeedback),
    Time(TimeFeedback),
    Reachability(ReachabilityFeedback),
    Concolic(ConcolicFeedback),
    /// Interesting when either side is; the right side is not asked once
    /// the left side answered yes.
    EagerOr(Box<Feedback>, Box<Feedback>),
    /// Interesting when both sides are; the right side is not asked once
    /// the left side answered no.
    StrictAnd(Box<Feedback>, Box<Feedback>),
}

/// What a map-reading leaf sees: the map of the observer carrying its
/// name, or nothing.
pub open spec fn spec_named_map(obs: Observers, name: Seq<char>) -> Option<Seq<u8>> {
    if obs.edges.name@ == name {
        Some(obs.edges.map@)
    } else if obs.targets.name@ == name {
        Some(obs.targets.map@)
    } else {
        None
    }
}

/// How a feedback after one `is_interesting` query relates to the one
/// before it: only concolic leaves change, stashing the trace of the
/// observer they are named after, and only where the short-circuit policy
/// let the query reach them.
pub open spec fn spec_query_rel(pre: Feedback, post: Feedback, obs: Observers, exit_kind: ExitKind) -> bool
    decreases pre,
{
    match pre {
        Feedback::Concolic(f) => match post {
            Feedback::Concolic(g) => {
                &&& g.name == f.name
                &&& if obs.concolic.name@ == f.name@ {
                    match g.metadata {
                        Some(m) => m.trace@ == obs.concolic.trace@,
                        None => false,
                    }
                } else {
                    g.metadata is None
                }
            },
            _ => false,
        },
        Feedback::EagerOr(a, b) => match post {
            Feedback::EagerOr(a2, b2) => {
                &&& spec_query_rel(*a, *a2, obs, exit_kind)
                &&& if a.spec_is_interesting(obs, exit_kind) {
                    *b2 == *b
                } else {
                    spec_query_rel(*b, *b2, obs, exit_kind)
                }
            },
            _ => false,
        },
        Feedback::StrictAnd(a, b) => match post {
            Feedback::StrictAnd(a2, b2) => {
                &&& spec_query_rel(*a, *a2, obs, exit_kind)
                &&& if a.spec_is_interesting(obs, exit_kind) {
                    spec_query_rel(*b, *b2, obs, exit_kind)
                } else {
                    *b2 == *b
                }
            },
            _ => false,
        },
        _ => post == pre,
    }
}

/// A record put in front of a metadata map hides no key: every key that
/// answered before still answers.
pub proof fn lemma_metadata_insert_keeps_keys(pre: Seq<MetadataEntry>, e: MetadataEntry)
    ensures
        forall|k: u64|
            spec_metadata_lookup(pre, k) is Some ==> #[trigger] spec_metadata_lookup(
                pre.insert(0, e),
                k,
            ) is Some,
{
    assert forall|k: u64|
        spec_metadata_lookup(pre, k) is Some implies #[trigger] spec_metadata_lookup(
        pre.insert(0, e),
        k,
    ) is Some by {
        assert(pre.insert(0, e).skip(1) =~= pre);
    }
}

/// How a feedback after `append_metadata` relates to the one before it:
/// every concolic stash is consumed; nothing else of the feedback moves.
pub open spec fn spec_append_rel(pre: Feedback, post: Feedback) -> bool
    decreases pre,
{
    match pre {
        Feedback::Concolic(f) => match post {
            Feedback::Concolic(g) => g.name == f.name && g.metadata is None,
            _ => false,
        },
        Feedback::EagerOr(a, b) => match post {
            Feedback::EagerOr(a2, b2) => spec_append_rel(*a, *a2) && spec_append_rel(*b, *b2),
            _ => false,
        },
        Feedback::StrictAnd(a, b) => match post {
            Feedback::StrictAnd(a2, b2) => spec_append_rel(*a, *a2) && spec_append_rel(*b, *b2),
            _ => false,
        },
        _ => post == pre,
    }
}

/// How a feedback after `discard_metadata` relates to the one before it:
/// the same as after `append_metadata` — stashes gone, the rest untouched.
pub open spec fn spec_discard_rel(pre: Feedback, post: Feedback) -> bool {
    spec_append_rel(pre, post)
}

/// How a feedback looks once one evaluation has fully passed through it:
/// every coverage novelty map joined with its observer's map when the
/// execution was retained and untouched when it was not, every concolic
/// stash empty, and everything else exactly as before.
pub open spec fn spec_feedback_settled(
    pre: Feedback,
    post: Feedback,
    obs: Observers,
    retained: bool,
) -> bool
    decreases pre,
{
    match pre {
        Feedback::MaxMap(f) => match post {
            Feedback::MaxMap(g) => {
                &&& g.name == f.name
                &&& g.track_indexes == f.track_indexes
                &&& g.novelty@ == (if retained {
                    match spec_named_map(obs, f.name@) {
                        Some(m) => spec_novelty_joined(f.novelty@, m),
                        None => f.novelty@,
                    }
                } else {
                    f.novelty@
                })
            },
            _ => false,
        },
        Feedback::Concolic(f) => match post {
            Feedback::Concolic(g) => g.name == f.name && g.metadata is None,
            _ => false,
        },
        Feedback::EagerOr(a, b) => match post {
            Feedback::EagerOr(a2, b2) => spec_feedback_settled(*a, *a2, obs, retained)
                && spec_feedback_settled(*b, *b2, obs, retained),
            _ => false,
        },
        Feedback::StrictAnd(a, b) => match post {
            Feedback::StrictAnd(a2, b2) => spec_feedback_settled(*a, *a2, obs, retained)
                && spec_feedback_settled(*b, *b2, obs, retained),
            _ => false,
        },
        _ => post == pre,
    }
}

/// Consuming the stashes and then joining the novelty maps settles a
/// feedback for a retained execution.
pub proof fn lemma_append_update_settles(
    a: Feedback,
    b: Feedback,
    c: Feedback,
    obs: Observers,
)
    requires
        spec_append_rel(a, b),
        spec_update_rel(b, c, obs),
    ensures
        spec_feedback_settled(a, c, obs, true),
    decreases a,
{
    match a {
        Feedback::EagerOr(a1, a2) => match b {
            Feedback::EagerOr(b1, b2) => match c {
                Feedback::EagerOr(c1, c2) => {
                    lemma_append_update_settles(*a1, *b1, *c1, obs);
                    lemma_append_update_settles(*a2, *b2, *c2, obs);
                },
                _ => (),
            },
            _ => (),
        },
        Feedback::StrictAnd(a1, a2) => match b {
            Feedback::StrictAnd(b1, b2) => match c {
                Feedback::StrictAnd(c1, c2) => {
                    lemma_append_update_settles(*a1, *b1, *c1, obs);
                    lemma_append_update_settles(*a2, *b2, *c2, obs);
                },
                _ => (),
            },
            _ => (),
        },
        _ => (),
    }
}

/// A query followed by consuming the stashes and joining the novelty maps
/// settles a feedback for a retained execution: the query changes only
/// concolic stashes, which the append consumes again.
pub proof fn lemma_feedback_settles_retained(
    a: Feedback,
    b: Feedback,
    c: Feedback,
    d: Feedback,
    obs: Observers,
    exit_kind: ExitKind,
)
    requires
        spec_query_rel(a, b, obs, exit_kind),
        spec_append_rel(b, c),
        spec_update_rel(c, d, obs),
    ensures
        spec_feedback_settled(a, d, obs, true),
    decreases a,
{
    match a {
        Feedback::EagerOr(a1, a2) => match b {
            Feedback::EagerOr(b1, b2) => match c {
                Feedback::EagerOr(c1, c2) => match d {
                    Feedback::EagerOr(d1, d2) => {
                        lemma_feedback_settles_retained(*a1, *b1, *c1, *d1, obs, exit_kind);
                        if a1.spec_is_interesting(obs, exit_kind) {
                            lemma_append_update_settles(*a2, *c2, *d2, obs);
                        } else {
                            lemma_feedback_settles_retained(*a2, *b2, *c2, *d2, obs, exit_kind);
                        }
                    },
                    _ => (),
                },
                _ => (),
            },
            _ => (),
        },
        Feedback::StrictAnd(a1, a2) => match b {
            Feedback::StrictAnd(b1, b2) => match c {
                Feedback::StrictAnd(c1, c2) => match d {
                    Feedback::StrictAnd(d1, d2) => {
                        lemma_feedback_settles_retained(*a1, *b1, *c1, *d1, obs, exit_kind);
                        if a1.spec_is_interesting(obs, exit_kind) {
                            lemma_feedback_settles_retained(*a2, *b2, *c2, *d2, obs, exit_kind);
                        } else {
                            lemma_append_update_settles(*a2, *c2, *d2, obs);
                        }
                    },
                    _ => (),
                },
                _ => (),
            },
            _ => (),
        },
        _ => (),
    }
}

/// A query followed by the discard settles a feedback for a non-retained
/// execution: stashes are dropped, novelty maps untouched.
pub proof fn lemma_feedback_settles_dropped(
    a: Feedback,
    b: Feedback,
    c: Feedback,
    obs: Observers,
    exit_kind: ExitKind,
)
    requires
        spec_query_rel(a, b, obs, exit_kind),
        spec_discard_rel(b, c),
    ensures
        spec_feedback_settled(a, c, obs, false),
    decreases a,
{
    match a {
        Feedback::EagerOr(a1, a2) => match b {
            Feedback::EagerOr(b1, b2) => match c {
                Feedback::EagerOr(c1, c2) => {
                    lemma_feedback_settles_dropped(*a1, *b1, *c1, obs, exit_kind);
                    if a1.spec_is_interesting(obs, exit_kind) {
                        lemma_discard_settles(*a2, *c2, obs);
                    } else {
                        lemma_feedback_settles_dropped(*a2, *b2, *c2, obs, exit_kind);
                    }
                },
                _ => (),
            },
            _ => (),
        },
        Feedback::StrictAnd(a1, a2) => match b {
            Feedback::StrictAnd(b1, b2) => match c {
                Feedback::StrictAnd(c1, c2) => {
                    lemma_feedback_settles_dropped(*a1, *b1, *c1, obs, exit_kind);
                    if a1.spec_is_interesting(obs, exit_kind) {
                        lemma_feedback_settles_dropped(*a2, *b2, *c2, obs, exit_kind);
                    } else {
                        lemma_discard_settles(*a2, *c2, obs);
                    }
                },
                _ => (),
            },
            _ => (),
        },
        _ => (),
    }
}

/// What every path through one evaluation keeps of a feedback: its
/// structure and names, with coverage novelty maps untouched (the novelty
/// maps of an objective feedback are never joined).
pub open spec fn spec_feedback_shape_kept(pre: Feedback, post: Feedback) -> bool
    decreases pre,
{
    match pre {
        Feedback::Concolic(f) => match post {
            Feedback::Concolic(g) => g.name == f.name,
            _ => false,
        },
        Feedback::EagerOr(a, b) => match post {
            Feedback::EagerOr(a2, b2) => spec_feedback_shape_kept(*a, *a2)
                && spec_feedback_shape_kept(*b, *b2),
            _ => false,
        },
        Feedback::StrictAnd(a, b) => match post {
            Feedback::StrictAnd(a2, b2) => spec_feedback_shape_kept(*a, *a2)
                && spec_feedback_shape_kept(*b, *b2),
            _ => false,
        },
        _ => post == pre,
    }
}

pub proof fn lemma_shape_kept_refl(a: Feedback)
    ensures
        spec_feedback_shape_kept(a, a),
    decreases a,
{
    match a {
        Feedback::EagerOr(a1, a2) => {
            lemma_shape_kept_refl(*a1);
            lemma_shape_kept_refl(*a2);
        },
        Feedback::StrictAnd(a1, a2) => {
            lemma_shape_kept_refl(*a1);
            lemma_shape_kept_refl(*a2);
        },
        _ => (),
    }
}

/// One query keeps a feedback's shape.
pub proof fn lemma_query_keeps_shape(a: Feedback, b: Feedback, obs: Observers, exit_kind: ExitKind)
    requires
        spec_query_rel(a, b, obs, exit_kind),
    ensures
        spec_feedback_shape_kept(a, b),
    decreases a,
{
    match a {
        Feedback::EagerOr(a1, a2) => match b {
            Feedback::EagerOr(b1, b2) => {
                lemma_query_keeps_shape(*a1, *b1, obs, exit_kind);
                if a1.spec_is_interesting(obs, exit_kind) {
                    lemma_shape_kept_refl(*a2);
                } else {
                    lemma_query_keeps_shape(*a2, *b2, obs, exit_kind);
                }
            },
            _ => (),
        },
        Feedback::StrictAnd(a1, a2) => match b {
            Feedback::StrictAnd(b1, b2) => {
                lemma_query_keeps_shape(*a1, *b1, obs, exit_kind);
                if a1.spec_is_interesting(obs, exit_kind) {
                    lemma_query_keeps_shape(*a2, *b2, obs, exit_kind);
                } else {
                    lemma_shape_kept_refl(*a2);
                }
            },
            _ => (),
        },
        _ => (),
    }
}

/// Consuming the stashes keeps a feedback's shape.
pub proof fn lemma_append_keeps_shape(a: Feedback, b: Feedback)
    requires
        spec_append_rel(a, b),
    ensures
        spec_feedback_shape_kept(a, b),
    decreases a,
{
    match a {
        Feedback::EagerOr(a1, a2) => match b {
            Feedback::EagerOr(b1, b2) => {
                lemma_append_keeps_shape(*a1, *b1);
                lemma_append_keeps_shape(*a2, *b2);
            },
            _ => (),
        },
        Feedback::StrictAnd(a1, a2) => match b {
            Feedback::StrictAnd(b1, b2) => {
                lemma_append_keeps_shape(*a1, *b1);
                lemma_append_keeps_shape(*a2, *b2);
            },
            _ => (),
        },
        _ => (),
    }
}

pub proof fn lemma_shape_kept_trans(a: Feedback, b: Feedback, c: Feedback)
    requires
        spec_feedback_shape_kept(a, b),
        spec_feedback_shape_kept(b, c),
    ensures
        spec_feedback_shape_kept(a, c),
    decreases a,
{
    match a {
        Feedback::EagerOr(a1, a2) => match b {
            Feedback::EagerOr(b1, b2) => match c {
                Feedback::EagerOr(c1, c2) => {
                    lemma_shape_kept_trans(*a1, *b1, *c1);
                    lemma_shape_kept_trans(*a2, *b2, *c2);
                },
                _ => (),
            },
            _ => (),
        },
        Feedback::StrictAnd(a1, a2) => match b {
            Feedback::StrictAnd(b1, b2) => match c {
                Feedback::StrictAnd(c1, c2) => {
                    lemma_shape_kept_trans(*a1, *b1, *c1);
                    lemma_shape_kept_trans(*a2, *b2, *c2);
                },
                _ => (),
            },
            _ => (),
        },
        _ => (),
    }
}

/// One metadata record was put in front of a testcase's map and nothing
/// else of the testcase moved.
pub open spec fn spec_tc_with_entry(pre: Testcase, post: Testcase, key: u64, blob: Seq<u8>) -> bool {
    &&& post.input == pre.input
    &&& post.filename == pre.filename
    &&& post.exec_time_ns == pre.exec_time_ns
    &&& exists|e: MetadataEntry|
        post.metadata.entries@ == pre.metadata.entries@.insert(0, e) && e.key == key && e.blob@
            == blob
}

/// Exactly what `append_metadata` does to the testcase: each leaf either
/// attaches its one record (improved coverage indexes, reached targets,
/// the stashed concolic trace), stamps the observed execution time, or —
/// with nothing to attach, or no room — leaves the testcase untouched; a
/// composition is the two children in order.
pub open spec fn spec_tc_append_rel(
    f: Feedback,
    pre: Testcase,
    post: Testcase,
    obs: Observers,
) -> bool
    decreases f,
{
    match f {
        Feedback::MaxMap(fb) => {
            let named = spec_named_map(obs, fb.name@);
            if fb.track_indexes && named is Some && pre.metadata.entries@.len() < usize::MAX
                && fb.novelty@.len() <= MAX_MAP_BYTES {
                spec_tc_with_entry(
                    pre,
                    post,
                    METADATA_KEY_MAP_INDEXES,
                    spec_improved_blob(fb.novelty@, named.unwrap(), fb.novelty@.len() as int),
                )
            } else {
                post == pre
            }
        },
        Feedback::Time(fb) => if obs.time.name@ == fb.name@ && obs.time.last_runtime_ns is Some {
            post == (Testcase { exec_time_ns: obs.time.last_runtime_ns, ..pre })
        } else {
            post == pre
        },
        Feedback::Reachability(fb) => {
            let named = spec_named_map(obs, fb.name@);
            if named is Some && pre.metadata.entries@.len() < usize::MAX && named.unwrap().len()
                <= MAX_MAP_BYTES {
                spec_tc_with_entry(
                    pre,
                    post,
                    METADATA_KEY_REACHED_TARGETS,
                    spec_reached_blob(named.unwrap(), named.unwrap().len() as int),
                )
            } else {
                post == pre
            }
        },
        Feedback::Concolic(fb) => match fb.metadata {
            Some(m) => if pre.metadata.entries@.len() < usize::MAX {
                spec_tc_with_entry(pre, post, METADATA_KEY_CONCOLIC, m.trace@)
            } else {
                post == pre
            },
            None => post == pre,
        },
        Feedback::Crash(_) => post == pre,
        Feedback::EagerOr(_, _) => post.input == pre.input && post.filename == pre.filename,
        Feedback::StrictAnd(_, _) => post.input == pre.input && post.filename == pre.filename,
    }
}

/// Whether a feedback has nothing to attach to this testcase: every leaf's
/// guard is down — no tracked coverage map, no observed time, no reached
/// targets, no stashed trace (or no room to attach one).
pub open spec fn spec_append_noop(f: Feedback, obs: Observers, tc: Testcase) -> bool
    decreases f,
{
    match f {
        Feedback::MaxMap(fb) => !(fb.track_indexes && spec_named_map(obs, fb.name@) is Some
            && tc.metadata.entries@.len() < usize::MAX && fb.novelty@.len() <= MAX_MAP_BYTES),
        Feedback::Time(fb) => !(obs.time.name@ == fb.name@ && obs.time.last_runtime_ns is Some),
        Feedback::Reachability(fb) => {
            let named = spec_named_map(obs, fb.name@);
            !(named is Some && tc.metadata.entries@.len() < usize::MAX && named.unwrap().len()
                <= MAX_MAP_BYTES)
        },
        Feedback::Concolic(fb) => fb.metadata is None || tc.metadata.entries@.len() == usize::MAX,
        Feedback::Crash(_) => true,
        Feedback::EagerOr(a, b) => spec_append_noop(*a, obs, tc) && spec_append_noop(*b, obs, tc),
        Feedback::StrictAnd(a, b) => spec_append_noop(*a, obs, tc) && spec_append_noop(
            *b,
            obs,
            tc,
        ),
    }
}

/// The discard alone settles a feedback the query never reached.
pub proof fn lemma_discard_settles(a: Feedback, c: Feedback, obs: Observers)
    requires
        spec_discard_rel(a, c),
    ensures
        spec_feedback_settled(a, c, obs, false),
    decreases a,
{
    match a {
        Feedback::EagerOr(a1, a2) => match c {
            Feedback::EagerOr(c1, c2) => {
                lemma_discard_settles(*a1, *c1, obs);
                lemma_discard_settles(*a2, *c2, obs);
            },
            _ => (),
        },
        Feedback::StrictAnd(a1, a2) => match c {
            Feedback::StrictAnd(c1, c2) => {
                lemma_discard_settles(*a1, *c1, obs);
                lemma_discard_settles(*a2, *c2, obs);
            },
            _ => (),
        },
        _ => (),
    }
}

impl Feedback {

    /// What `is_interesting` answers, as a function of the feedback state,
    /// the observer snapshot and the exit kind alone (determinism is this
    /// function's existence).
    pub open spec fn spec_is_interesting(self, obs: Observers, exit_kind: ExitKind) -> bool
        decreases self,
    {
        match self {
            Feedback::MaxMap(f) => match spec_named_map(obs, f.name@) {
                Some(m) => spec_improves(f.novelty@, m),
                None => false,
            },
            Feedback::Crash(f) => spec_crash_interesting(f.timeout_is_objective, exit_kind),
            Feedback::Time(_) => false,
            Feedback::Reachability(f) => match spec_named_map(obs, f.name@) {
                Some(m) => exists|i: int| 0 <= i < m.len() && m[i] != 0,
                None => false,
            },
            Feedback::Concolic(_) => false,
            Feedback::EagerOr(a, b) => a.spec_is_interesting(obs, exit_kind)
                || b.spec_is_interesting(obs, exit_kind),
            Feedback::StrictAnd(a, b) => a.spec_is_interesting(obs, exit_kind)
                && b.spec_is_interesting(obs, exit_kind),
        }
    }

    /// Asks whether this execution is interesting. The answer is a pure
    /// function of the feedback state and the observer snapshot; the only
    /// state change is the concolic stash.
    pub fn is_interesting(&mut self, obs: &Observers, exit_kind: ExitKind) -> (r: bool)
        ensures
            r == old(self).spec_is_interesting(*obs, exit_kind),
            spec_query_rel(*old(self), *final(self), *obs, exit_kind),
        decreases *old(self),
    {
        match self {
            Feedback::MaxMap(f) => match obs.map_by_name(&f.name) {
                Some(o) => f.is_interesting(&o.map),
                None => false,
            },
            Feedback::Crash(f) => f.is_interesting(exit_kind),
            Feedback::Time(_) => false,
            Feedback::Reachability(f) => match obs.map_by_name(&f.name) {
                Some(o) => o.any_set(),
                None => false,
            },
            Feedback::Concolic(f) => {
                f.metadata = match obs.concolic_by_name(&f.name) {
                    Some(o) => Some(o.create_metadata_from_current_map()),
                    None => None,
                };
                false
            },
            Feedback::EagerOr(a, b) => {
                let ra = a.is_interesting(obs, exit_kind);
                if ra {
                    true
                } else {
                    b.is_interesting(obs, exit_kind)
                }
            },
            Feedback::StrictAnd(a, b) => {
                let ra = a.is_interesting(obs, exit_kind);
                if ra {
                    b.is_interesting(obs, exit_kind)
                } else {
                    false
                }
            },
        }
    }

    /// Folds the observation of a retained execution into every coverage
    /// novelty map in this feedback.
    pub fn update_history(&mut self, obs: &Observers)
        ensures
            spec_update_rel(*old(self), *final(self), *obs),
        decreases *old(self),
    {
        match self {
            Feedback::MaxMap(f) => {
                match obs.map_by_name(&f.name) {
                    Some(o) => {
                        let observed = o.map.clone();
                        f.update_history(&observed);
                    },
                    None => (),
                }
            },
            Feedback::EagerOr(a, b) => {
                a.update_history(obs);
                b.update_history(obs);
            },
            Feedback::StrictAnd(a, b) => {
                a.update_history(obs);
                b.update_history(obs);
            },
            _ => (),
        }
    }

    /// Attaches what the feedbacks know of a retained execution to its
    /// testcase: improved coverage indexes, reached targets, the execution
    /// time, and the stashed concolic trace (which is consumed). The
    /// testcase's input and file name stay untouched, and no metadata key
    /// that answered before stops answering.
    pub fn append_metadata(&mut self, obs: &Observers, testcase: &mut Testcase)
        ensures
            spec_append_rel(*old(self), *final(self)),
            final(testcase).input == old(testcase).input,
            final(testcase).filename == old(testcase).filename,
            forall|k: u64|
                spec_metadata_lookup(old(testcase).metadata.entries@, k) is Some
                    ==> #[trigger] spec_metadata_lookup(final(testcase).metadata.entries@, k)
                    is Some,
            ((*old(self)) is Concolic && (*old(self))->Concolic_0.metadata is Some && old(
                testcase,
            ).metadata.entries@.len() < usize::MAX) ==> spec_metadata_lookup(
                final(testcase).metadata.entries@,
                METADATA_KEY_CONCOLIC,
            ) == Some((*old(self))->Concolic_0.metadata.unwrap().trace@),
            spec_tc_append_rel(*old(self), *old(testcase), *final(testcase), *obs),
            spec_append_noop(*old(self), *obs, *old(testcase)) ==> *final(testcase) == *old(
                testcase,
            ),
        decreases *old(self),
    {
        match self {
            Feedback::MaxMap(f) => {
                if f.track_indexes {
                    match obs.map_by_name(&f.name) {
                        Some(o) => {
                            proof {
                                assert(o.map@ == spec_named_map(*obs, f.name@).unwrap());
                            }
                            if testcase.metadata.entries.len() < usize::MAX
                                && f.novelty.len() <= MAX_MAP_BYTES {
                                let blob = f.improved_indexes_blob(&o.map);
                                let ghost gblob = blob@;
                                let ghost pre_entries = testcase.metadata.entries@;
                                testcase.metadata.insert(METADATA_KEY_MAP_INDEXES, blob);
                                proof {
                                    lemma_metadata_insert_keeps_keys(
                                        pre_entries,
                                        testcase.metadata.entries@[0],
                                    );
                                    let e0 = testcase.metadata.entries@[0];
                                    assert(e0.key == METADATA_KEY_MAP_INDEXES && e0.blob@
                                        == gblob);
                                    assert(spec_tc_with_entry(
                                        *old(testcase),
                                        *testcase,
                                        METADATA_KEY_MAP_INDEXES,
                                        gblob,
                                    ));
                                }
                            }
                        },
                        None => (),
                    }
                }
            },
            Feedback::Time(f) => {
                match obs.time_by_name(&f.name) {
                    Some(o) => {
                        match o.last_runtime_ns {
                            Some(t) => {
                                testcase.set_exec_time_ns(t);
                                proof {
                                    assert(*testcase == (Testcase {
                                        exec_time_ns: obs.time.last_runtime_ns,
                                        ..*old(testcase)
                                    }));
                                }
                            },
                            None => (),
                        }
                    },
                    None => (),
                }
            },
            Feedback::Reachability(f) => {
                match obs.map_by_name(&f.name) {
                    Some(o) => {
                        proof {
                            assert(o.map@ == spec_named_map(*obs, f.name@).unwrap());
                        }
                        if testcase.metadata.entries.len() < usize::MAX && o.map.len()
                            <= MAX_MAP_BYTES {
                            let blob = reached_targets_blob(&o.map);
                            let ghost gblob = blob@;
                            let ghost pre_entries = testcase.metadata.entries@;
                            testcase.metadata.insert(METADATA_KEY_REACHED_TARGETS, blob);
                            proof {
                                lemma_metadata_insert_keeps_keys(
                                    pre_entries,
                                    testcase.metadata.entries@[0],
                                );
                                let e0 = testcase.metadata.entries@[0];
                                assert(e0.key == METADATA_KEY_REACHED_TARGETS && e0.blob@
                                    == gblob);
                                assert(spec_tc_with_entry(
                                    *old(testcase),
                                    *testcase,
                                    METADATA_KEY_REACHED_TARGETS,
                                    gblob,
                                ));
                            }
                        }
                    },
                    None => (),
                }
            },
            Feedback::Concolic(f) => {
                match &f.metadata {
                    Some(m) => {
                        if testcase.metadata.entries.len() < usize::MAX {
                            let blob = m.trace.clone();
                            let ghost gblob = blob@;
                            let ghost pre_entries = testcase.metadata.entries@;
                            testcase.metadata.insert(METADATA_KEY_CONCOLIC, blob);
                            proof {
                                lemma_metadata_insert_keeps_keys(
                                    pre_entries,
                                    testcase.metadata.entries@[0],
                                );
                                let e0 = testcase.metadata.entries@[0];
                                assert(e0.key == METADATA_KEY_CONCOLIC && e0.blob@ == gblob);
                                assert(spec_tc_with_entry(
                                    *old(testcase),
                                    *testcase,
                                    METADATA_KEY_CONCOLIC,
                                    gblob,
                                ));
                            }
                        }
                        f.metadata = None;
                    },
                    None => (),
                }
            },
            Feedback::Crash(_) => {
            },
            Feedback::EagerOr(a, b) => {
                a.append_metadata(obs, testcase);
                b.append_metadata(obs, testcase);
            },
            Feedback::StrictAnd(a, b) => {
                a.append_metadata(obs, testcase);
                b.append_metadata(obs, testcase);
            },
        }
    }

    /// The non-retained path: any stashed concolic metadata is dropped;
    /// nothing else of the feedback moves.
    pub fn discard_metadata(&mut self)
        ensures
            spec_discard_rel(*old(self), *final(self)),
        decreases *old(self),
    {
        match self {
            Feedback::Concolic(f) => {
                f.metadata = None;
            },
            Feedback::EagerOr(a, b) => {
                a.discard_metadata();
                b.discard_metadata();
            },
            Feedback::StrictAnd(a, b) => {
                a.discard_metadata();
                b.discard_metadata();
            },
            _ => (),
        }
    }
}

/// How a feedback after `update_history` relates to the one before it:
/// every coverage novelty map is joined with the map its observer holds;
/// everything else stands unchanged.
pub open spec fn spec_update_rel(pre: Feedback, post: Feedback, obs: Observers) -> bool
    decreases pre,
{
    match pre {
        Feedback::MaxMap(f) => match post {
            Feedback::MaxMap(g) => {
                &&& g.name == f.name
                &&& g.track_indexes == f.track_indexes
                &&& g.novelty@ == (match spec_named_map(obs, f.name@) {
                    Some(m) => spec_novelty_joined(f.novelty@, m),
                    None => f.novelty@,
                })
            },
            _ => false,
        },
        Feedback::EagerOr(a, b) => match post {
            Feedback::EagerOr(a2, b2) => spec_update_rel(*a, *a2, obs) && spec_update_rel(
                *b,
                *b2,
                obs,
            ),
            _ => false,
        },
        Feedback::StrictAnd(a, b) => match post {
            Feedback::StrictAnd(a2, b2) => spec_update_rel(*a, *a2, obs) && spec_update_rel(
                *b,
                *b2,
                obs,
            ),
            _ => false,
        },
        _ => post == pre,
    }
}

/// Determinism of feedback: with identical feedback state, identical
/// observer post-state and identical exit kind, `is_interesting` answers
/// identically (both answers are one spec function of those three).
pub proof fn lemma_feedback_deterministic(
    f1: Feedback,
    f2: Feedback,
    o1: Observers,
    o2: Observers,
    e1: ExitKind,
    e2: ExitKind,
)
    requires
        f1 == f2,
        o1 == o2,
        e1 == e2,
    ensures
        f1.spec_is_interesting(o1, e1) == f2.spec_is_interesting(o2, e2),
{
}

/// The indexes of the reached target flags, as a metadata payload.
fn reached_targets_blob(map: &Vec<u8>) -> (r: Vec<u8>)
    requires
        map@.len() <= MAX_MAP_BYTES,
    ensures
        r@.len() % 8 == 0,
        r@ == spec_reached_blob(map@, map@.len() as int),
{
    let n = map.len();
    let mut out: Vec<u8> = Vec::new();
    let mut k: usize = 0;
    while k < n
        invariant
            k <= n,
            n == map@.len(),
            n <= MAX_MAP_BYTES,
            out@.len() % 8 == 0,
            out@.len() <= 8 * k,
            out@ == spec_reached_blob(map@, k as int),
        decreases n - k,
    {
        if map[k] != 0 {
            push_u64_le(&mut out, k as u64);
        }
        k = k + 1;
    }
    out
}

} // verus!
