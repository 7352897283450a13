use vstd::prelude::*;
use crate::error::Error;
use crate::rand::StdRand;

verus! {

/// Scale of the fixed-point fitness: the pilot fitness is
/// `new_finds / (pilot_time / PERIOD_PILOT_COEF)`, held as an integer after
/// multiplying through by this scale.
pub const PERIOD_PILOT_COEF: u64 = 5000;

/// Extra fixed-point digits kept by the fitness value.
pub const FITNESS_SCALE: u64 = 100;

/// Default length of a core period, per operator.
pub const PERIOD_CORE_COEF: u64 = 20000;

/// Largest operator weight (fixed point; this value stands for weight 1).
pub const WEIGHT_MAX: u64 = 65536;

/// Bound kept on the magnitude of a particle velocity.
pub const VELOCITY_BOUND: i64 = 131072;

/// Upper bounds on the swarm and operator counts: machine limits so that
/// all index arithmetic and weight sums stay far from overflow.
pub const MAX_OPERATORS: usize = 4096;
pub const MAX_SWARMS: usize = 4096;

/// The two modes of the adaptive operator scheduler.
#[allow(non_camel_case_types)]
#[derive(Clone, Copy, PartialEq, Eq, Structural, Debug)]
pub enum MOptMode {
    PILOT_FUZZING,
    CORE_FUZZING,
}

/// Sum of a row of counters or weights.
pub open spec fn spec_row_sum(s: Seq<u64>) -> int
    decreases s.len(),
{
    if s.len() == 0 {
        0
    } else {
        spec_row_sum(s.drop_last()) + s.last()
    }
}

/// A row whose entries are bounded has a bounded sum.
pub proof fn lemma_row_sum_bound(s: Seq<u64>, b: int)
    requires
        forall|i: int| 0 <= i < s.len() ==> s[i] <= b,
    ensures
        0 <= spec_row_sum(s) <= s.len() * b,
    decreases s.len(),
{
    if s.len() == 0 {
    } else {
        lemma_row_sum_bound(s.drop_last(), b);
        assert(s.last() <= b);
        assert((s.len() - 1) * b + b == s.len() * b) by (nonlinear_arith);
    }
}

pub proof fn lemma_row_sum_take_step(s: Seq<u64>, i: int)
    requires
        0 <= i < s.len(),
    ensures
        spec_row_sum(s.take(i + 1)) == spec_row_sum(s.take(i)) + s[i],
{
    assert(s.take(i + 1).drop_last() =~= s.take(i));
    assert(s.take(i + 1).last() == s[i]);
}

/// The state of the adaptive mutation scheduler: a particle swarm over the
/// mutation operators, with per-operator usage and find counters for the
/// pilot mode (per swarm) and the core mode (global).
#[derive(Clone, Debug)]
pub struct MOptState {
    pub key_module: MOptMode,
    pub operator_num: usize,
    pub swarm_num: usize,
    pub swarm_now: usize,
    /// Particle positions: the current operator weights, one row per swarm.
    pub x: Vec<Vec<u64>>,
    /// Particle velocities.
    pub v: Vec<Vec<i64>>,
    /// Best position each swarm has seen.
    pub l_best: Vec<Vec<u64>>,
    /// Fitness at each swarm's best position.
    pub l_best_fitness: Vec<u64>,
    /// Best position any swarm has seen.
    pub g_best: Vec<u64>,
    pub g_best_fitness: u64,
    pub pilot_ctr_per_stage: Vec<Vec<u64>>,
    pub pilot_ctr_last: Vec<Vec<u64>>,
    pub pilot_finds_per_stage: Vec<Vec<u64>>,
    pub core_ctr_per_stage: Vec<u64>,
    pub core_ctr_last: Vec<u64>,
    pub core_finds_per_stage: Vec<u64>,
    /// The operator weights used while in core mode.
    pub core_weight: Vec<u64>,
    pub pilot_time: u64,
    pub core_time: u64,
    pub period_pilot: u64,
    pub period_core: u64,
    pub total_finds: u64,
    pub finds_until_last_switching: u64,
    pub finds_since_switching: u64,
    pub last_limit_time_start: u64,
    pub swarm_fitness: Vec<u64>,
}

/// A weight matrix with one bounded row of weights per swarm.
pub open spec fn wf_weight_matrix(m: Seq<Vec<u64>>, swarms: int, ops: int) -> bool {
    &&& m.len() == swarms
    &&& forall|s: int| 0 <= s < swarms ==> (#[trigger] m[s])@.len() == ops
    &&& forall|s: int, i: int|
        0 <= s < swarms && 0 <= i < ops ==> (#[trigger] m[s]@[i]) <= WEIGHT_MAX
}

/// A counter matrix with one row per swarm.
pub open spec fn wf_ctr_matrix(m: Seq<Vec<u64>>, swarms: int, ops: int) -> bool {
    &&& m.len() == swarms
    &&& forall|s: int| 0 <= s < swarms ==> (#[trigger] m[s])@.len() == ops
}

impl MOptState {
    /// Well-formedness: all rows sized by the swarm and operator counts,
    /// weights and velocities bounded, the periods in range, and the find
    /// counters consistent with the running total.
    pub open spec fn wf(&self) -> bool {
        &&& 0 < self.operator_num <= MAX_OPERATORS
        &&& 0 < self.swarm_num <= MAX_SWARMS
        &&& self.swarm_now <= self.swarm_num
        &&& self.key_module == MOptMode::PILOT_FUZZING ==> self.swarm_now < self.swarm_num
        &&& wf_weight_matrix(self.x@, self.swarm_num as int, self.operator_num as int)
        &&& wf_weight_matrix(self.l_best@, self.swarm_num as int, self.operator_num as int)
        &&& self.v@.len() == self.swarm_num
        &&& forall|s: int| 0 <= s < self.swarm_num ==> (#[trigger] self.v@[s])@.len()
            == self.operator_num
        &&& forall|s: int, i: int|
            0 <= s < self.swarm_num && 0 <= i < self.operator_num ==> -VELOCITY_BOUND <= (
            #[trigger] self.v@[s]@[i]) <= VELOCITY_BOUND
        &&& self.l_best_fitness@.len() == self.swarm_num
        &&& self.swarm_fitness@.len() == self.swarm_num
        &&& self.g_best@.len() == self.operator_num
        &&& forall|i: int| 0 <= i < self.operator_num ==> (#[trigger] self.g_best@[i]) <= WEIGHT_MAX
        &&& wf_ctr_matrix(self.pilot_ctr_per_stage@, self.swarm_num as int, self.operator_num as int)
        &&& wf_ctr_matrix(self.pilot_ctr_last@, self.swarm_num as int, self.operator_num as int)
        &&& wf_ctr_matrix(
            self.pilot_finds_per_stage@,
            self.swarm_num as int,
            self.operator_num as int,
        )
        &&& self.core_ctr_per_stage@.len() == self.operator_num
        &&& self.core_ctr_last@.len() == self.operator_num
        &&& self.core_finds_per_stage@.len() == self.operator_num
        &&& self.core_weight@.len() == self.operator_num
        &&& forall|i: int| 0 <= i < self.operator_num ==> (#[trigger] self.core_weight@[i])
            <= WEIGHT_MAX
        &&& 1 <= self.period_pilot <= 0x2000_0000
        &&& 1 <= self.period_core <= 0x2000_0000
        &&& self.finds_until_last_switching <= self.total_finds
        &&& forall|s: int, i: int|
            0 <= s < self.swarm_num && 0 <= i < self.operator_num ==> (
            #[trigger] self.pilot_finds_per_stage@[s]@[i]) <= self.total_finds
        &&& forall|i: int| 0 <= i < self.operator_num ==> (#[trigger] self.core_finds_per_stage@[i])
            <= self.total_finds
    }

    /// Fresh scheduler state: pilot mode, equal weights, zero counters, and
    /// periods derived from the operator count.
    pub fn new(operator_num: usize, swarm_num: usize) -> (r: Self)
        requires
            0 < operator_num <= MAX_OPERATORS,
            0 < swarm_num <= MAX_SWARMS,
        ensures
            r.wf(),
            r.key_module == MOptMode::PILOT_FUZZING,
            r.operator_num == operator_num,
            r.swarm_num == swarm_num,
            r.swarm_now == 0,
            r.total_finds == 0,
            r.finds_since_switching == 0,
            r.finds_until_last_switching == 0,
            r.pilot_time == 0,
            r.core_time == 0,
            r.period_pilot as int == PERIOD_PILOT_COEF * operator_num,
            r.period_core as int == PERIOD_CORE_COEF * operator_num,
            forall|s: int, i: int|
                0 <= s < swarm_num && 0 <= i < operator_num ==> (
                #[trigger] r.pilot_finds_per_stage@[s]@[i]) == 0 && r.pilot_ctr_per_stage@[s]@[i]
                    == 0 && r.pilot_ctr_last@[s]@[i] == 0,
            forall|i: int|
                0 <= i < operator_num ==> (#[trigger] r.core_finds_per_stage@[i]) == 0
                    && r.core_ctr_per_stage@[i] == 0 && r.core_ctr_last@[i] == 0
                    && r.core_weight@[i] == WEIGHT_MAX,
            forall|s: int, i: int|
                0 <= s < swarm_num && 0 <= i < operator_num ==> (#[trigger] r.x@[s]@[i])
                    == WEIGHT_MAX && r.v@[s]@[i] == 0 && r.l_best@[s]@[i] == WEIGHT_MAX,
            forall|i: int| 0 <= i < operator_num ==> (#[trigger] r.g_best@[i]) == WEIGHT_MAX,
            forall|s: int|
                0 <= s < swarm_num ==> (#[trigger] r.swarm_fitness@[s]) == 0 && r.l_best_fitness@[s]
                    == 0,
            r.g_best_fitness == 0,
            r.last_limit_time_start == 0,
    {
        let zero_row: Vec<u64> = vec_filled_u64(operator_num, 0);
        let weight_row: Vec<u64> = vec_filled_u64(operator_num, WEIGHT_MAX);
        let zero_vrow: Vec<i64> = vec_filled_i64(operator_num, 0);
        let x = vec_of_rows(swarm_num, &weight_row);
        let v = vec_of_vrows(swarm_num, &zero_vrow);
        let l_best = vec_of_rows(swarm_num, &weight_row);
        let pilot_zero_a = vec_of_rows(swarm_num, &zero_row);
        let pilot_zero_b = vec_of_rows(swarm_num, &zero_row);
        let pilot_zero_c = vec_of_rows(swarm_num, &zero_row);
        let period_pilot = PERIOD_PILOT_COEF * (operator_num as u64);
        let period_core = PERIOD_CORE_COEF * (operator_num as u64);
        proof {
            assert(PERIOD_PILOT_COEF * (operator_num as u64) <= PERIOD_PILOT_COEF * 4096
                && PERIOD_PILOT_COEF * (operator_num as u64) >= PERIOD_PILOT_COEF * 1)
                by (nonlinear_arith)
                requires
                    0 < operator_num <= 4096,
            ;
            assert(PERIOD_CORE_COEF * (operator_num as u64) <= PERIOD_CORE_COEF * 4096
                && PERIOD_CORE_COEF * (operator_num as u64) >= PERIOD_CORE_COEF * 1)
                by (nonlinear_arith)
                requires
                    0 < operator_num <= 4096,
            ;
        }
        MOptState {
            key_module: MOptMode::PILOT_FUZZING,
            operator_num,
            swarm_num,
            swarm_now: 0,
            x,
            v,
            l_best,
            l_best_fitness: vec_filled_u64(swarm_num, 0),
            g_best: weight_row,
            g_best_fitness: 0,
            pilot_ctr_per_stage: pilot_zero_a,
            pilot_ctr_last: pilot_zero_b,
            pilot_finds_per_stage: pilot_zero_c,
            core_ctr_per_stage: vec_filled_u64(operator_num, 0),
            core_ctr_last: vec_filled_u64(operator_num, 0),
            core_finds_per_stage: vec_filled_u64(operator_num, 0),
            core_weight: vec_filled_u64(operator_num, WEIGHT_MAX),
            pilot_time: 0,
            core_time: 0,
            period_pilot,
            period_core,
            total_finds: 0,
            finds_until_last_switching: 0,
            finds_since_switching: 0,
            last_limit_time_start: 0,
            swarm_fitness: vec_filled_u64(swarm_num, 0),
        }
    }
}

impl MOptState {
    /// One particle-swarm step for the given swarm, run when its pilot
    /// period ends: refresh the swarm's best and the global best from the
    /// fitness just measured, move the particle (each velocity is half the
    /// old one plus the pulls towards the two bests, each position moves
    /// by the new velocity, both clamped), and snapshot the usage counters
    /// so that the next stage's find crediting starts afresh.
    pub fn update_pilot_operator_ctr_pso(&mut self, swarm: usize)
        requires
            old(self).wf(),
            swarm < old(self).swarm_num,
        ensures
            final(self).wf(),
            final(self).pilot_ctr_last@[swarm as int]@ == old(self).pilot_ctr_per_stage@[
                swarm as int
            ]@,
            forall|s: int|
                0 <= s < old(self).swarm_num && s != swarm ==> final(self).pilot_ctr_last@[s]
                    == old(self).pilot_ctr_last@[s],
            final(self).l_best_fitness@[swarm as int] == (if old(self).swarm_fitness@[swarm as int]
                > old(self).l_best_fitness@[swarm as int] {
                old(self).swarm_fitness@[swarm as int]
            } else {
                old(self).l_best_fitness@[swarm as int]
            }),
            final(self).g_best_fitness == (if old(self).swarm_fitness@[swarm as int] > old(self).g_best_fitness {
                old(self).swarm_fitness@[swarm as int]
            } else {
                old(self).g_best_fitness
            }),
            final(self).l_best@[swarm as int]@ == (if old(self).swarm_fitness@[swarm as int] > old(self).l_best_fitness@[swarm as int] {
                old(self).x@[swarm as int]@
            } else {
                old(self).l_best@[swarm as int]@
            }),
            forall|s: int|
                0 <= s < old(self).swarm_num && s != swarm ==> (#[trigger] final(self).l_best@[s])
                    == old(self).l_best@[s],
            final(self).g_best@ == (if old(self).swarm_fitness@[swarm as int] > old(self).g_best_fitness {
                old(self).x@[swarm as int]@
            } else {
                old(self).g_best@
            }),
            forall|i: int|
                0 <= i < old(self).operator_num ==> (#[trigger] final(self).v@[swarm as int]@[i])
                    as int == spec_pso_velocity(
                    old(self).x@[swarm as int]@[i],
                    old(self).v@[swarm as int]@[i],
                    final(self).l_best@[swarm as int]@[i],
                    final(self).g_best@[i],
                ),
            forall|i: int|
                0 <= i < old(self).operator_num ==> (#[trigger] final(self).x@[swarm as int]@[i])
                    as int == spec_pso_position(
                    old(self).x@[swarm as int]@[i],
                    final(self).v@[swarm as int]@[i] as int,
                ),
            forall|s: int|
                0 <= s < old(self).swarm_num && s != swarm ==> (#[trigger] final(self).x@[s]) == old(self).x@[s] && final(self).v@[s] == old(self).v@[s],
            final(self).key_module == old(self).key_module,
            final(self).swarm_now == old(self).swarm_now,
            final(self).swarm_num == old(self).swarm_num,
            final(self).operator_num == old(self).operator_num,
            final(self).total_finds == old(self).total_finds,
            final(self).finds_until_last_switching == old(self).finds_until_last_switching,
            final(self).finds_since_switching == old(self).finds_since_switching,
            final(self).pilot_time == old(self).pilot_time,
            final(self).core_time == old(self).core_time,
            final(self).period_pilot == old(self).period_pilot,
            final(self).period_core == old(self).period_core,
            final(self).pilot_ctr_per_stage == old(self).pilot_ctr_per_stage,
            final(self).pilot_finds_per_stage == old(self).pilot_finds_per_stage,
            final(self).core_ctr_per_stage == old(self).core_ctr_per_stage,
            final(self).core_ctr_last == old(self).core_ctr_last,
            final(self).core_finds_per_stage == old(self).core_finds_per_stage,
            final(self).core_weight == old(self).core_weight,
            final(self).swarm_fitness == old(self).swarm_fitness,
            final(self).last_limit_time_start == old(self).last_limit_time_start,
    {
        let fit = self.swarm_fitness[swarm];
        if fit > self.l_best_fitness[swarm] {
            self.l_best_fitness[swarm] = fit;
            self.l_best[swarm] = self.x[swarm].clone();
        }
        if fit > self.g_best_fitness {
            self.g_best_fitness = fit;
            self.g_best = self.x[swarm].clone();
        }
        let ghost x0 = self.x@[swarm as int]@;
        let ghost v0 = self.v@[swarm as int]@;
        let ghost lrow = self.l_best@[swarm as int]@;
        let ghost grow = self.g_best@;
        let ops = self.operator_num;
        let mut i: usize = 0;
        while i < ops
            invariant
                self.wf(),
                ops == self.operator_num,
                swarm < self.swarm_num,
                i <= ops,
                x0.len() == ops,
                v0.len() == ops,
                lrow == self.l_best@[swarm as int]@,
                grow == self.g_best@,
                forall|k: int| i <= k < ops ==> (#[trigger] self.x@[swarm as int]@[k]) == x0[k],
                forall|k: int| i <= k < ops ==> (#[trigger] self.v@[swarm as int]@[k]) == v0[k],
                forall|k: int|
                    0 <= k < i ==> (#[trigger] self.v@[swarm as int]@[k]) as int
                        == spec_pso_velocity(x0[k], v0[k], lrow[k], grow[k]),
                forall|k: int|
                    0 <= k < i ==> (#[trigger] self.x@[swarm as int]@[k]) as int
                        == spec_pso_position(x0[k], self.v@[swarm as int]@[k] as int),
                *self == (MOptState { x: self.x, v: self.v, ..*old(self) }) || *self == (MOptState {
                    x: self.x,
                    v: self.v,
                    l_best: self.l_best,
                    l_best_fitness: self.l_best_fitness,
                    g_best: self.g_best,
                    g_best_fitness: self.g_best_fitness,
                    ..*old(self)
                }),
                forall|s: int|
                    0 <= s < self.swarm_num && s != swarm ==> (#[trigger] self.x@[s]) == old(self).x@[s] && self.v@[s] == old(self).v@[s],
                self.l_best_fitness@[swarm as int] == (if old(self).swarm_fitness@[swarm as int]
                    > old(self).l_best_fitness@[swarm as int] {
                    old(self).swarm_fitness@[swarm as int]
                } else {
                    old(self).l_best_fitness@[swarm as int]
                }),
                self.g_best_fitness == (if old(self).swarm_fitness@[swarm as int] > old(self).g_best_fitness {
                    old(self).swarm_fitness@[swarm as int]
                } else {
                    old(self).g_best_fitness
                }),
                lrow == (if old(self).swarm_fitness@[swarm as int] > old(self).l_best_fitness@[
                    swarm as int
                ] {
                    old(self).x@[swarm as int]@
                } else {
                    old(self).l_best@[swarm as int]@
                }),
                grow == (if old(self).swarm_fitness@[swarm as int] > old(self).g_best_fitness {
                    old(self).x@[swarm as int]@
                } else {
                    old(self).g_best@
                }),
                forall|s: int|
                    0 <= s < self.swarm_num && s != swarm ==> (#[trigger] self.l_best@[s]) == old(self).l_best@[s],
                self.pilot_ctr_last == old(self).pilot_ctr_last,
                self.pilot_ctr_per_stage == old(self).pilot_ctr_per_stage,
                self.pilot_finds_per_stage == old(self).pilot_finds_per_stage,
                x0 == old(self).x@[swarm as int]@,
                v0 == old(self).v@[swarm as int]@,
            decreases ops - i,
        {
            let xi = self.x[swarm][i];
            let vi = self.v[swarm][i];
            let li = self.l_best[swarm][i];
            let gi = self.g_best[i];
            // half the old velocity, rounded towards zero
            let half: i64 = if vi >= 0 {
                ((vi as u64) / 2) as i64
            } else {
                0 - (((0 - vi) as u64 / 2) as i64)
            };
            let mut nv: i64 = half + (li as i64 - xi as i64) + (gi as i64 - xi as i64);
            if nv > VELOCITY_BOUND {
                nv = VELOCITY_BOUND;
            }
            if nv < -VELOCITY_BOUND {
                nv = -VELOCITY_BOUND;
            }
            let mut nx: i64 = xi as i64 + nv;
            if nx < 0 {
                nx = 0;
            }
            if nx > WEIGHT_MAX as i64 {
                nx = WEIGHT_MAX as i64;
            }
            self.v[swarm][i] = nv;
            self.x[swarm][i] = nx as u64;
            proof {
                assert(self.v@[swarm as int]@[i as int] as int == spec_pso_velocity(
                    x0[i as int],
                    v0[i as int],
                    lrow[i as int],
                    grow[i as int],
                ));
                assert(self.x@[swarm as int]@[i as int] as int == spec_pso_position(
                    x0[i as int],
                    self.v@[swarm as int]@[i as int] as int,
                ));
            }
            i = i + 1;
        }
        self.pilot_ctr_last[swarm] = self.pilot_ctr_per_stage[swarm].clone();
    }


    /// Snapshot of the core-mode usage counters, run when the core period
    /// Snapshot of the core-mode usage counters, run when the core period
    /// ends, so that later find crediting compares against this point.
    pub fn update_core_operator_ctr_pso(&mut self)
        requires
            old(self).wf(),
        ensures
            final(self).wf(),
            final(self).core_ctr_last@ == old(self).core_ctr_per_stage@,
            *final(self) == (MOptState { core_ctr_last: final(self).core_ctr_last, ..*old(self) }),
    {
        self.core_ctr_last = self.core_ctr_per_stage.clone();
    }

    /// Re-derives the core operator weights from the globally best particle
    /// position. Fails, recoverably, exactly when those weights are
    /// degenerate (all zero).
    pub fn pso_update(&mut self) -> (r: Result<(), Error>)
        requires
            old(self).wf(),
        ensures
            final(self).wf(),
            r is Ok <==> spec_row_sum(old(self).g_best@) > 0,
            r is Ok ==> *final(self) == (MOptState {
                core_weight: final(self).core_weight,
                ..*old(self)
            }) && final(self).core_weight@ == old(self).g_best@,
            r is Err ==> *final(self) == *old(self) && (r matches Err(e) && e is IllegalState),
    {
        let total = row_sum(&self.g_best);
        if total == 0 {
            return Err(
                Error::IllegalState("operator weights are degenerate: all zero".to_owned()),
            );
        }
        self.core_weight = self.g_best.clone();
        Ok(())
    }

    /// Enters core mode: seeds the core operator weights from the swarm
    /// with the best fitness, clears the core find counters, snapshots the
    /// usage counters, and rewinds the swarm cursor for the next pilot
    /// round. Fails, recoverably, exactly when the chosen swarm's weights
    /// are degenerate (all zero).
    pub fn init_core_module(&mut self) -> (r: Result<(), Error>)
        requires
            old(self).wf(),
        ensures
            final(self).wf(),
            r is Ok ==> final(self).swarm_now == 0,
            r is Ok ==> final(self).finds_since_switching == 0,
            r is Ok ==> final(self).core_time == 0,
            r is Ok ==> final(self).core_ctr_last@ == old(self).core_ctr_per_stage@,
            r is Ok ==> (forall|i: int|
                0 <= i < old(self).operator_num ==> (#[trigger] final(self).core_finds_per_stage@[i])
                    == 0),
            r is Ok ==> spec_core_seeded_from_best(*old(self), final(self).core_weight@),
            r is Ok <==> spec_row_sum(
                old(self).x@[spec_best_swarm(old(self).swarm_fitness@, old(self).swarm_num as int)]@,
            ) > 0,
            r is Ok ==> final(self).core_weight@ == old(self).x@[spec_best_swarm(
                old(self).swarm_fitness@,
                old(self).swarm_num as int,
            )]@,
            r is Err ==> *final(self) == *old(self) && (r matches Err(e) && e is IllegalState),
            final(self).key_module == old(self).key_module,
            final(self).operator_num == old(self).operator_num,
            final(self).swarm_num == old(self).swarm_num,
            final(self).total_finds == old(self).total_finds,
            final(self).finds_until_last_switching == old(self).finds_until_last_switching,
            final(self).pilot_time == old(self).pilot_time,
            final(self).period_pilot == old(self).period_pilot,
            final(self).period_core == old(self).period_core,
            final(self).pilot_ctr_per_stage == old(self).pilot_ctr_per_stage,
            final(self).pilot_ctr_last == old(self).pilot_ctr_last,
            final(self).pilot_finds_per_stage == old(self).pilot_finds_per_stage,
            final(self).core_ctr_per_stage == old(self).core_ctr_per_stage,
    {
        let swarms = self.swarm_num;
        let mut best: usize = 0;
        let mut s: usize = 1;
        while s < swarms
            invariant
                self.wf(),
                swarms == self.swarm_num,
                1 <= s <= swarms,
                best < s,
                best as int == spec_best_swarm(self.swarm_fitness@, s as int),
                forall|t: int| 0 <= t < s ==> (#[trigger] self.swarm_fitness@[t])
                    <= self.swarm_fitness@[best as int],
            decreases swarms - s,
        {
            if self.swarm_fitness[s] > self.swarm_fitness[best] {
                best = s;
            }
            s = s + 1;
        }
        let total = row_sum(&self.x[best]);
        if total == 0 {
            return Err(
                Error::IllegalState("operator weights are degenerate: all zero".to_owned()),
            );
        }
        self.core_weight = self.x[best].clone();
        self.core_ctr_last = self.core_ctr_per_stage.clone();
        self.core_finds_per_stage = vec_filled_u64(self.operator_num, 0);
        self.swarm_now = 0;
        self.finds_since_switching = 0;
        self.core_time = 0;
        Ok(())
    }

    /// Credits `diff` fresh finds while in pilot mode: the running total
    /// grows by `diff`, and so does the find counter of the first operator
    /// of the given swarm whose usage counter moved past its snapshot. An
    /// operator whose counter has not moved is credited nothing, and the
    /// credited sum never exceeds the finds credited.
    pub fn credit_pilot_operator_finds(&mut self, swarm: usize, diff: u64)
        requires
            old(self).wf(),
            swarm < old(self).swarm_num,
            old(self).total_finds + diff <= u64::MAX,
        ensures
            final(self).wf(),
            final(self).total_finds == old(self).total_finds + diff,
            (match spec_first_advanced(
                old(self).pilot_ctr_per_stage@[swarm as int]@,
                old(self).pilot_ctr_last@[swarm as int]@,
                old(self).operator_num as int,
            ) {
                Some(j) => final(self).pilot_finds_per_stage@[swarm as int]@ == old(self).pilot_finds_per_stage@[swarm as int]@.update(
                    j,
                    (old(self).pilot_finds_per_stage@[swarm as int]@[j] + diff) as u64,
                ),
                None => final(self).pilot_finds_per_stage@[swarm as int]@ == old(self).pilot_finds_per_stage@[swarm as int]@,
            }),
            forall|sw: int|
                0 <= sw < old(self).swarm_num && sw != swarm ==> (#[trigger] final(self).pilot_finds_per_stage@[sw]) == old(self).pilot_finds_per_stage@[sw],
            final(self).core_finds_per_stage == old(self).core_finds_per_stage,
            spec_matrix_sum(final(self).pilot_finds_per_stage@) <= spec_matrix_sum(
                old(self).pilot_finds_per_stage@,
            ) + diff,
            forall|i: int|
                0 <= i < old(self).operator_num ==> (#[trigger] final(self).pilot_finds_per_stage@[
                    swarm as int
                ]@[i]) as int <= old(self).pilot_finds_per_stage@[swarm as int]@[i] + diff,
            *final(self) == (MOptState {
                total_finds: final(self).total_finds,
                pilot_finds_per_stage: final(self).pilot_finds_per_stage,
                ..*old(self)
            }),
    {
        self.total_finds = self.total_finds + diff;
        let ops = self.operator_num;
        let ghost per = self.pilot_ctr_per_stage@[swarm as int]@;
        let ghost last = self.pilot_ctr_last@[swarm as int]@;
        let ghost row0 = self.pilot_finds_per_stage@[swarm as int]@;
        let ghost m0 = self.pilot_finds_per_stage@;
        let mut i: usize = 0;
        while i < ops
            invariant
                ops == self.operator_num,
                i <= ops,
                swarm < self.swarm_num,
                old(self).wf(),
                per == old(self).pilot_ctr_per_stage@[swarm as int]@,
                last == old(self).pilot_ctr_last@[swarm as int]@,
                row0 == old(self).pilot_finds_per_stage@[swarm as int]@,
                m0 == old(self).pilot_finds_per_stage@,
                spec_first_advanced(per, last, i as int) is None,
                *self == (MOptState { total_finds: self.total_finds, ..*old(self) }),
                self.total_finds == old(self).total_finds + diff,
            decreases ops - i,
        {
            if self.pilot_ctr_per_stage[swarm][i] > self.pilot_ctr_last[swarm][i] {
                let prev = self.pilot_finds_per_stage[swarm][i];
                self.pilot_finds_per_stage[swarm][i] = prev + diff;
                proof {
                    assert(spec_first_advanced(per, last, i + 1) == Some(i as int));
                    lemma_first_advanced_extends(per, last, i + 1, ops as int);
                    assert(self.pilot_finds_per_stage@[swarm as int]@ =~= row0.update(
                        i as int,
                        (row0[i as int] + diff) as u64,
                    ));
                    assert(self.pilot_finds_per_stage@ =~= m0.update(
                        swarm as int,
                        self.pilot_finds_per_stage@[swarm as int],
                    ));
                    lemma_row_sum_update(row0, i as int, (row0[i as int] + diff) as u64);
                    lemma_matrix_sum_update(
                        m0,
                        swarm as int,
                        self.pilot_finds_per_stage@[swarm as int],
                    );
                }
                return;
            }
            i = i + 1;
        }
    }

    /// Credits `diff` fresh finds while in core mode: the running total
    /// grows by `diff`, and so does the find counter of the first operator
    /// whose usage counter moved past its snapshot. An operator whose
    /// counter has not moved is credited nothing, and the credited sum
    /// never exceeds the finds credited.
    pub fn credit_core_operator_finds(&mut self, diff: u64)
        requires
            old(self).wf(),
            old(self).total_finds + diff <= u64::MAX,
        ensures
            final(self).wf(),
            final(self).total_finds == old(self).total_finds + diff,
            (match spec_first_advanced(
                old(self).core_ctr_per_stage@,
                old(self).core_ctr_last@,
                old(self).operator_num as int,
            ) {
                Some(j) => final(self).core_finds_per_stage@ == old(self).core_finds_per_stage@.update(
                    j,
                    (old(self).core_finds_per_stage@[j] + diff) as u64,
                ),
                None => final(self).core_finds_per_stage@ == old(self).core_finds_per_stage@,
            }),
            final(self).pilot_finds_per_stage == old(self).pilot_finds_per_stage,
            spec_row_sum(final(self).core_finds_per_stage@) <= spec_row_sum(
                old(self).core_finds_per_stage@,
            ) + diff,
            forall|i: int|
                0 <= i < old(self).operator_num ==> (#[trigger] final(self).core_finds_per_stage@[
                    i
                ]) as int <= old(self).core_finds_per_stage@[i] + diff,
            *final(self) == (MOptState {
                total_finds: final(self).total_finds,
                core_finds_per_stage: final(self).core_finds_per_stage,
                ..*old(self)
            }),
    {
        self.total_finds = self.total_finds + diff;
        let ops = self.operator_num;
        let ghost per = self.core_ctr_per_stage@;
        let ghost last = self.core_ctr_last@;
        let ghost row0 = self.core_finds_per_stage@;
        let mut i: usize = 0;
        while i < ops
            invariant
                ops == self.operator_num,
                i <= ops,
                old(self).wf(),
                per == old(self).core_ctr_per_stage@,
                last == old(self).core_ctr_last@,
                row0 == old(self).core_finds_per_stage@,
                spec_first_advanced(per, last, i as int) is None,
                *self == (MOptState { total_finds: self.total_finds, ..*old(self) }),
                self.total_finds == old(self).total_finds + diff,
            decreases ops - i,
        {
            if self.core_ctr_per_stage[i] > self.core_ctr_last[i] {
                let prev = self.core_finds_per_stage[i];
                self.core_finds_per_stage[i] = prev + diff;
                proof {
                    assert(spec_first_advanced(per, last, i + 1) == Some(i as int));
                    lemma_first_advanced_extends(per, last, i + 1, ops as int);
                    assert(self.core_finds_per_stage@ =~= row0.update(
                        i as int,
                        (row0[i as int] + diff) as u64,
                    ));
                    lemma_row_sum_update(row0, i as int, (row0[i as int] + diff) as u64);
                }
                return;
            }
            i = i + 1;
        }
    }


    /// Picks the next mutation operator: a draw weighted by the current
    /// particle position (pilot mode) or the core weights (core mode) —
    /// the drawn value walks the cumulative weights — with a uniform
    /// fallback when all weights are zero. Exactly one draw is taken from
    /// the RNG.
    pub fn select_operator(&self, rand: &mut StdRand) -> (r: usize)
        requires
            self.wf(),
            self.key_module == MOptMode::PILOT_FUZZING ==> self.swarm_now < self.swarm_num,
        ensures
            r < self.operator_num,
            final(rand).seed == crate::rand::spec_xorshift64(old(rand).seed),
            spec_row_sum(spec_active_weights(*self)) == 0 ==> r as int == crate::rand::spec_xorshift64(
                old(rand).seed,
            ) as int % (self.operator_num as int),
            spec_row_sum(spec_active_weights(*self)) > 0 ==> r as int == spec_weighted_pick(
                spec_active_weights(*self),
                crate::rand::spec_xorshift64(old(rand).seed) as int % spec_row_sum(
                    spec_active_weights(*self),
                ),
            ),
    {
        let ops = self.operator_num;
        let total: u64 = match self.key_module {
            MOptMode::PILOT_FUZZING => row_sum(&self.x[self.swarm_now]),
            MOptMode::CORE_FUZZING => row_sum(&self.core_weight),
        };
        let ghost row = spec_active_weights(*self);
        if total == 0 {
            return rand.below_usize(ops);
        }
        let t0 = rand.below(total);
        let mut t = t0;
        let mut i: usize = 0;
        proof {
            assert(row.skip(0) =~= row);
            lemma_weighted_pick_in_range(row, t0 as int);
        }
        while i < ops
            invariant
                self.wf(),
                self.key_module == MOptMode::PILOT_FUZZING ==> self.swarm_now < self.swarm_num,
                ops == self.operator_num,
                row == spec_active_weights(*self),
                row.len() == ops,
                i <= ops,
                total as int == spec_row_sum(row),
                total > 0,
                rand.seed == crate::rand::spec_xorshift64(old(rand).seed),
                t0 as int == crate::rand::spec_xorshift64(old(rand).seed) as int % (total as int),
                spec_weighted_pick(row, t0 as int) == i + spec_weighted_pick(
                    row.skip(i as int),
                    t as int,
                ),
                (t as int) < spec_row_sum(row.skip(i as int)),
            decreases ops - i,
        {
            let w = match self.key_module {
                MOptMode::PILOT_FUZZING => self.x[self.swarm_now][i],
                MOptMode::CORE_FUZZING => self.core_weight[i],
            };
            proof {
                assert(row.skip(i as int)[0] == row[i as int]);
                lemma_row_sum_skip(row.skip(i as int));
            }
            if t < w {
                proof {
                    assert(spec_weighted_pick(row.skip(i as int), t as int) == 0);
                }
                return i;
            }
            proof {
                assert(row.skip(i as int).skip(1) =~= row.skip(i + 1));
            }
            t = t - w;
            i = i + 1;
        }
        proof {
            assert(row.skip(ops as int) =~= Seq::<u64>::empty());
        }
        0
    }

    /// Records that an operator was elected for one mutation, moving its
    /// usage counter (saturating far beyond any reachable count).
    pub fn record_operator_use(&mut self, op: usize)
        requires
            old(self).wf(),
            op < old(self).operator_num,
        ensures
            final(self).wf(),
            old(self).key_module == MOptMode::PILOT_FUZZING ==> *final(self) == (MOptState {
                pilot_ctr_per_stage: final(self).pilot_ctr_per_stage,
                ..*old(self)
            }) && final(self).pilot_ctr_per_stage@[old(self).swarm_now as int]@ == old(self).pilot_ctr_per_stage@[old(self).swarm_now as int]@.update(
                op as int,
                spec_saturating_inc(
                    old(self).pilot_ctr_per_stage@[old(self).swarm_now as int]@[op as int],
                ),
            ) && (forall|s: int|
                0 <= s < old(self).swarm_num && s != old(self).swarm_now ==> (#[trigger] final(self).pilot_ctr_per_stage@[s]) == old(self).pilot_ctr_per_stage@[s]),
            old(self).key_module == MOptMode::CORE_FUZZING ==> *final(self) == (MOptState {
                core_ctr_per_stage: final(self).core_ctr_per_stage,
                ..*old(self)
            }) && final(self).core_ctr_per_stage@ == old(self).core_ctr_per_stage@.update(
                op as int,
                spec_saturating_inc(old(self).core_ctr_per_stage@[op as int]),
            ),
    {
        match self.key_module {
            MOptMode::PILOT_FUZZING => {
                let sw = self.swarm_now;
                let cur = self.pilot_ctr_per_stage[sw][op];
                self.pilot_ctr_per_stage[sw][op] = cur.saturating_add(1);
            },
            MOptMode::CORE_FUZZING => {
                let cur = self.core_ctr_per_stage[op];
                self.core_ctr_per_stage[op] = cur.saturating_add(1);
            },
        }
    }
}

/// The core weights were seeded from the particle position of a swarm
/// whose measured fitness no other swarm exceeds.
pub open spec fn spec_core_seeded_from_best(pre: MOptState, weights: Seq<u64>) -> bool {
    exists|s: int|
        0 <= s < pre.swarm_num && weights == (#[trigger] pre.x@[s])@ && (forall|t: int|
            0 <= t < pre.swarm_num ==> (#[trigger] pre.swarm_fitness@[t]) <= pre.swarm_fitness@[s])
}

/// The swarm the core weights are seeded from: the lowest-index swarm of
/// maximal fitness among the first `n`.
pub open spec fn spec_best_swarm(fitness: Seq<u64>, n: int) -> int
    decreases n,
{
    if n <= 1 {
        0
    } else {
        let p = spec_best_swarm(fitness, n - 1);
        if fitness[n - 1] > fitness[p] {
            n - 1
        } else {
            p
        }
    }
}

/// The first operator among `n` whose usage counter moved past its
/// snapshot, if any: the one operator a find is credited to.
pub open spec fn spec_first_advanced(per: Seq<u64>, last: Seq<u64>, n: int) -> Option<int>
    decreases n,
{
    if n <= 0 {
        None
    } else {
        match spec_first_advanced(per, last, n - 1) {
            Some(j) => Some(j),
            None => if per[n - 1] > last[n - 1] {
                Some(n - 1)
            } else {
                None
            },
        }
    }
}

/// Once a first advanced operator is found among a prefix, looking at more
/// operators does not change it.
pub proof fn lemma_first_advanced_extends(per: Seq<u64>, last: Seq<u64>, m: int, n: int)
    requires
        0 <= m <= n,
        spec_first_advanced(per, last, m) is Some,
    ensures
        spec_first_advanced(per, last, n) == spec_first_advanced(per, last, m),
    decreases n - m,
{
    if m < n {
        lemma_first_advanced_extends(per, last, m, n - 1);
    }
}

/// Writing one cell of a row moves its sum by exactly the difference.
pub proof fn lemma_row_sum_update(s: Seq<u64>, j: int, w: u64)
    requires
        0 <= j < s.len(),
    ensures
        spec_row_sum(s.update(j, w)) == spec_row_sum(s) - s[j] + w,
    decreases s.len(),
{
    if j == s.len() - 1 {
        assert(s.update(j, w).drop_last() =~= s.drop_last());
        assert(s.update(j, w).last() == w);
    } else {
        assert(s.update(j, w).drop_last() =~= s.drop_last().update(j, w));
        assert(s.update(j, w).last() == s.last());
        lemma_row_sum_update(s.drop_last(), j, w);
    }
}

/// Sum of every cell of a counter matrix.
pub open spec fn spec_matrix_sum(m: Seq<Vec<u64>>) -> int
    decreases m.len(),
{
    if m.len() == 0 {
        0
    } else {
        spec_matrix_sum(m.drop_last()) + spec_row_sum(m.last()@)
    }
}

/// Replacing one row of a matrix moves its sum by exactly the difference
/// of the row sums.
pub proof fn lemma_matrix_sum_update(m: Seq<Vec<u64>>, s: int, r: Vec<u64>)
    requires
        0 <= s < m.len(),
    ensures
        spec_matrix_sum(m.update(s, r)) == spec_matrix_sum(m) - spec_row_sum(m[s]@) + spec_row_sum(
            r@,
        ),
    decreases m.len(),
{
    if s == m.len() - 1 {
        assert(m.update(s, r).drop_last() =~= m.drop_last());
        assert(m.update(s, r).last() == r);
    } else {
        assert(m.update(s, r).drop_last() =~= m.drop_last().update(s, r));
        assert(m.update(s, r).last() == m.last());
        lemma_matrix_sum_update(m.drop_last(), s, r);
    }
}

/// Half of a velocity, rounded towards zero.
pub open spec fn spec_half_velocity(v: i64) -> int {
    if v >= 0 {
        (v as int) / 2
    } else {
        0 - ((0 - (v as int)) / 2)
    }
}

/// A value forced into a closed range.
pub open spec fn spec_clamped(v: int, lo: int, hi: int) -> int {
    if v < lo {
        lo
    } else if v > hi {
        hi
    } else {
        v
    }
}

/// One particle-swarm velocity step: half the old velocity plus the pulls
/// towards the swarm's best and the global best, clamped into the
/// velocity range.
pub open spec fn spec_pso_velocity(x: u64, v: i64, l: u64, g: u64) -> int {
    spec_clamped(
        spec_half_velocity(v) + (l - x) + (g - x),
        0 - (VELOCITY_BOUND as int),
        VELOCITY_BOUND as int,
    )
}

/// One particle-swarm position step: the old position moved by the new
/// velocity, clamped into the weight range.
pub open spec fn spec_pso_position(x: u64, nv: int) -> int {
    spec_clamped(x + nv, 0, WEIGHT_MAX as int)
}

/// The weight row operator selection draws over: the current particle
/// position in pilot mode, the core weights in core mode.
pub open spec fn spec_active_weights(m: MOptState) -> Seq<u64> {
    match m.key_module {
        MOptMode::PILOT_FUZZING => m.x@[m.swarm_now as int]@,
        MOptMode::CORE_FUZZING => m.core_weight@,
    }
}

/// The operator a weighted draw lands on: the first index whose cumulative
/// weight exceeds the drawn value.
pub open spec fn spec_weighted_pick(row: Seq<u64>, t: int) -> int
    decreases row.len(),
{
    if row.len() == 0 {
        0
    } else if t < row[0] {
        0
    } else {
        1 + spec_weighted_pick(row.skip(1), t - row[0])
    }
}

/// The sum of a row is its head plus the sum of its tail.
pub proof fn lemma_row_sum_skip(row: Seq<u64>)
    requires
        row.len() > 0,
    ensures
        spec_row_sum(row) == row[0] + spec_row_sum(row.skip(1)),
    decreases row.len(),
{
    if row.len() == 1 {
        assert(row.drop_last() =~= Seq::<u64>::empty());
        assert(row.skip(1) =~= Seq::<u64>::empty());
    } else {
        assert(row.skip(1).drop_last() =~= row.drop_last().skip(1));
        lemma_row_sum_skip(row.drop_last());
        assert(row.skip(1).last() == row.last());
    }
}

/// A draw below the total weight lands on a real operator.
pub proof fn lemma_weighted_pick_in_range(row: Seq<u64>, t: int)
    requires
        0 <= t < spec_row_sum(row),
    ensures
        0 <= spec_weighted_pick(row, t) < row.len(),
    decreases row.len(),
{
    lemma_row_sum_skip(row);
    if t >= row[0] {
        lemma_weighted_pick_in_range(row.skip(1), t - row[0]);
    }
}

/// A counter moved one step, stopping at the largest value.
pub open spec fn spec_saturating_inc(x: u64) -> u64 {
    if x == u64::MAX {
        x
    } else {
        (x + 1) as u64
    }
}

/// A vector of `n` copies of `value`.
fn vec_filled_u64(n: usize, value: u64) -> (r: Vec<u64>)
    ensures
        r@.len() == n,
        forall|i: int| 0 <= i < n ==> r@[i] == value,
{
    let mut r: Vec<u64> = Vec::new();
    let mut k: usize = 0;
    while k < n
        invariant
            k <= n,
            r@.len() == k,
            forall|i: int| 0 <= i < k ==> r@[i] == value,
        decreases n - k,
    {
        r.push(value);
        k = k + 1;
    }
    r
}

fn vec_filled_i64(n: usize, value: i64) -> (r: Vec<i64>)
    ensures
        r@.len() == n,
        forall|i: int| 0 <= i < n ==> r@[i] == value,
{
    let mut r: Vec<i64> = Vec::new();
    let mut k: usize = 0;
    while k < n
        invariant
            k <= n,
            r@.len() == k,
            forall|i: int| 0 <= i < k ==> r@[i] == value,
        decreases n - k,
    {
        r.push(value);
        k = k + 1;
    }
    r
}

/// A matrix of `n` copies of `row`.
fn vec_of_rows(n: usize, row: &Vec<u64>) -> (r: Vec<Vec<u64>>)
    ensures
        r@.len() == n,
        forall|s: int| 0 <= s < n ==> (#[trigger] r@[s])@ == row@,
{
    let mut r: Vec<Vec<u64>> = Vec::new();
    let mut k: usize = 0;
    while k < n
        invariant
            k <= n,
            r@.len() == k,
            forall|s: int| 0 <= s < k ==> (#[trigger] r@[s])@ == row@,
        decreases n - k,
    {
        r.push(row.clone());
        k = k + 1;
    }
    r
}

fn vec_of_vrows(n: usize, row: &Vec<i64>) -> (r: Vec<Vec<i64>>)
    ensures
        r@.len() == n,
        forall|s: int| 0 <= s < n ==> (#[trigger] r@[s])@ == row@,
{
    let mut r: Vec<Vec<i64>> = Vec::new();
    let mut k: usize = 0;
    while k < n
        invariant
            k <= n,
            r@.len() == k,
            forall|s: int| 0 <= s < k ==> (#[trigger] r@[s])@ == row@,
        decreases n - k,
    {
        r.push(row.clone());
        k = k + 1;
    }
    r
}

/// Sums a row of weights or counters bounded by `WEIGHT_MAX`.
fn row_sum(row: &Vec<u64>) -> (r: u64)
    requires
        row@.len() <= MAX_OPERATORS,
        forall|i: int| 0 <= i < row@.len() ==> row@[i] <= WEIGHT_MAX,
    ensures
        r as int == spec_row_sum(row@),
{
    let n = row.len();
    let mut acc: u64 = 0;
    let mut k: usize = 0;
    proof {
        assert(row@.take(0) =~= Seq::<u64>::empty());
    }
    while k < n
        invariant
            k <= n,
            n == row@.len(),
            n <= MAX_OPERATORS,
            forall|i: int| 0 <= i < row@.len() ==> row@[i] <= WEIGHT_MAX,
            acc as int == spec_row_sum(row@.take(k as int)),
            acc as int <= k * (WEIGHT_MAX as int),
        decreases n - k,
    {
        proof {
            lemma_row_sum_take_step(row@, k as int);
            assert((k as int) * (WEIGHT_MAX as int) + (WEIGHT_MAX as int) == (k as int + 1) * (
            WEIGHT_MAX as int)) by (nonlinear_arith);
            assert((k as int + 1) * (WEIGHT_MAX as int) <= 4096 * (WEIGHT_MAX as int))
                by (nonlinear_arith)
                requires
                    k as int + 1 <= 4096,
            ;
        }
        acc = acc + row[k];
        k = k + 1;
    }
    proof {
        assert(row@.take(n as int) =~= row@);
    }
    acc
}

/// Find crediting never pays an idle operator: the operator a credit goes
/// to has a usage counter past its snapshot, so an operator whose counter
/// has not moved keeps its find counter unchanged; and only one operator
/// is credited, so the credited sum never exceeds the finds of the step.
pub proof fn lemma_credit_bounds(per: Seq<u64>, last: Seq<u64>, n: int, i: int)
    requires
        spec_first_advanced(per, last, n) == Some(i),
    ensures
        0 <= i < n,
        per[i] > last[i],
    decreases n,
{
    if n > 0 && spec_first_advanced(per, last, n - 1) is Some {
        lemma_credit_bounds(per, last, n - 1, i);
    }
}

} // verus!
