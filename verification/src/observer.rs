use vstd::prelude::*;

verus! {

/// The bucket an edge counter falls in: raw hit counts are folded into a
/// small set of classes so that a move to a new class counts as novelty.
pub open spec fn spec_hit_bucket(x: u8) -> u8 {
    if x == 0 {
        0
    } else if x == 1 {
        1
    } else if x == 2 {
        2
    } else if x == 3 {
        4
    } else if x <= 7 {
        8
    } else if x <= 15 {
        16
    } else if x <= 31 {
        32
    } else if x <= 127 {
        64
    } else {
        128
    }
}

/// Folds one raw edge counter into its hit-count class.
pub fn hit_bucket(x: u8) -> (r: u8)
    ensures
        r == spec_hit_bucket(x),
{
    if x == 0 {
        0
    } else if x == 1 {
        1
    } else if x == 2 {
        2
    } else if x == 3 {
        4
    } else if x <= 7 {
        8
    } else if x <= 15 {
        16
    } else if x <= 31 {
        32
    } else if x <= 127 {
        64
    } else {
        128
    }
}

/// An observer over a byte map shared with the instrumented target (edge
/// coverage, or a small array of reachability flags). When `use_hitcounts`
/// is set, the raw counters are folded into hit-count classes after each
/// execution.
#[derive(Clone, Debug)]
pub struct MapObserver {
    pub name: String,
    pub map: Vec<u8>,
    pub use_hitcounts: bool,
}

impl MapObserver {
    pub fn new(name: String, size: usize, use_hitcounts: bool) -> (r: Self)
        ensures
            r.name@ == name@,
            r.map@.len() == size,
            forall|i: int| 0 <= i < size ==> r.map@[i] == 0,
            r.use_hitcounts == use_hitcounts,
    {
        let mut map: Vec<u8> = Vec::new();
        let mut k: usize = 0;
        while k < size
            invariant
                k <= size,
                map@.len() == k,
                forall|i: int| 0 <= i < k ==> map@[i] == 0,
            decreases size - k,
        {
            map.push(0);
            k = k + 1;
        }
        MapObserver { name, map, use_hitcounts }
    }

    /// Reset before one execution: every cell back to zero.
    pub fn pre_exec(&mut self)
        ensures
            final(self).name == old(self).name,
            final(self).use_hitcounts == old(self).use_hitcounts,
            final(self).map@.len() == old(self).map@.len(),
            forall|i: int| 0 <= i < final(self).map@.len() ==> final(self).map@[i] == 0,
    {
        let n = self.map.len();
        let mut k: usize = 0;
        while k < n
            invariant
                k <= n,
                self.map@.len() == n,
                self.name == old(self).name,
                self.use_hitcounts == old(self).use_hitcounts,
                forall|i: int| 0 <= i < k ==> self.map@[i] == 0,
            decreases n - k,
        {
            self.map[k] = 0;
            k = k + 1;
        }
    }

    /// Snapshot after one execution: the observed cells, folded into
    /// hit-count classes when this observer classifies.
    pub fn post_exec(&mut self, observed: &Vec<u8>)
        ensures
            final(self).name == old(self).name,
            final(self).use_hitcounts == old(self).use_hitcounts,
            final(self).map@.len() == observed@.len(),
            old(self).use_hitcounts ==> forall|i: int|
                0 <= i < observed@.len() ==> final(self).map@[i] == spec_hit_bucket(observed@[i]),
            !old(self).use_hitcounts ==> final(self).map@ == observed@,
    {
        if self.use_hitcounts {
            let n = observed.len();
            let mut out: Vec<u8> = Vec::new();
            let mut k: usize = 0;
            while k < n
                invariant
                    k <= n,
                    n == observed@.len(),
                    out@.len() == k,
                    forall|i: int| 0 <= i < k ==> out@[i] == spec_hit_bucket(observed@[i]),
                decreases n - k,
            {
                out.push(hit_bucket(observed[k]));
                k = k + 1;
            }
            self.map = out;
        } else {
            self.map = observed.clone();
        }
    }

    /// Whether any cell is set: the reachability question.
    pub fn any_set(&self) -> (r: bool)
        ensures
            r == (exists|i: int| 0 <= i < self.map@.len() && self.map@[i] != 0),
    {
        let n = self.map.len();
        let mut k: usize = 0;
        while k < n
            invariant
                k <= n,
                n == self.map@.len(),
                forall|i: int| 0 <= i < k ==> self.map@[i] == 0,
            decreases n - k,
        {
            if self.map[k] != 0 {
                return true;
            }
            k = k + 1;
        }
        false
    }
}

/// An observer of the wall-clock duration of one execution, handed in by
/// the executor (which is the only component that can look at a clock).
#[derive(Clone, Debug)]
pub struct TimeObserver {
    pub name: String,
    pub last_runtime_ns: Option<u64>,
}

impl TimeObserver {
    pub fn new(name: String) -> (r: Self)
        ensures
            r.name@ == name@,
            r.last_runtime_ns is None,
    {
        TimeObserver { name, last_runtime_ns: None }
    }

    pub fn pre_exec(&mut self)
        ensures
            final(self).name == old(self).name,
            final(self).last_runtime_ns is None,
    {
        self.last_runtime_ns = None;
    }

    pub fn post_exec(&mut self, runtime_ns: u64)
        ensures
            final(self).name == old(self).name,
            final(self).last_runtime_ns == Some(runtime_ns),
    {
        self.last_runtime_ns = Some(runtime_ns);
    }
}

/// The trace a concolic run left behind, ready to be attached to a
/// testcase as metadata.
#[derive(Clone, Debug)]
pub struct ConcolicMetadata {
    pub trace: Vec<u8>,
}

/// An observer exposing the shared trace buffer of a concolic tracer.
#[derive(Clone, Debug)]
pub struct ConcolicObserver {
    pub name: String,
    pub trace: Vec<u8>,
}

impl ConcolicObserver {
    pub fn new(name: String, trace: Vec<u8>) -> (r: Self)
        ensures
            r.name@ == name@,
            r.trace@ == trace@,
    {
        ConcolicObserver { name, trace }
    }

    pub fn name(&self) -> (r: &String)
        ensures
            r == &self.name,
    {
        &self.name
    }

    pub fn pre_exec(&mut self)
        ensures
            final(self).name == old(self).name,
            final(self).trace@.len() == 0,
    {
        self.trace = Vec::new();
    }

    pub fn post_exec(&mut self, trace: &Vec<u8>)
        ensures
            final(self).name == old(self).name,
            final(self).trace@ == trace@,
    {
        self.trace = trace.clone();
    }

    /// Packages the current trace buffer as testcase metadata.
    pub fn create_metadata_from_current_map(&self) -> (r: ConcolicMetadata)
        ensures
            r.trace@ == self.trace@,
    {
        ConcolicMetadata { trace: self.trace.clone() }
    }
}

/// The named registry of the observers owned by an executor. Feedbacks
/// reach an observer through its name, never through a pointer.
#[derive(Clone, Debug)]
pub struct Observers {
    /// Edge-coverage map.
    pub edges: MapObserver,
    /// Reachability flags of the target.
    pub targets: MapObserver,
    pub time: TimeObserver,
    pub concolic: ConcolicObserver,
}

impl Observers {
    /// Looks a map observer up by name: the edge map first, then the
    /// target-flag map.
    pub fn map_by_name(&self, name: &String) -> (r: Option<&MapObserver>)
        ensures
            self.edges.name@ == name@ ==> r == Some(&self.edges),
            self.edges.name@ != name@ && self.targets.name@ == name@ ==> r == Some(&self.targets),
            self.edges.name@ != name@ && self.targets.name@ != name@ ==> r is None,
    {
        if self.edges.name == *name {
            Some(&self.edges)
        } else if self.targets.name == *name {
            Some(&self.targets)
        } else {
            None
        }
    }

    pub fn time_by_name(&self, name: &String) -> (r: Option<&TimeObserver>)
        ensures
            self.time.name@ == name@ ==> r == Some(&self.time),
            self.time.name@ != name@ ==> r is None,
    {
        if self.time.name == *name {
            Some(&self.time)
        } else {
            None
        }
    }

    pub fn concolic_by_name(&self, name: &String) -> (r: Option<&ConcolicObserver>)
        ensures
            self.concolic.name@ == name@ ==> r == Some(&self.concolic),
            self.concolic.name@ != name@ ==> r is None,
    {
        if self.concolic.name == *name {
            Some(&self.concolic)
        } else {
            None
        }
    }
}

} // verus!
