use vstd::prelude::*;
use crate::error::Error;
use crate::input::{BytesInput, Tokens};
use crate::mopt::MOptState;
use crate::rand::StdRand;
use crate::state::FuzzerState;

verus! {

/// The primitive byte-level operators the havoc mutators draw from.
pub const HAVOC_OPERATOR_COUNT: usize = 8;

/// Machine limit on the size of a mutated input.
pub const MAX_INPUT_SIZE: usize = 0x100_0000;

/// What a mutator leaves untouched in the scheduler state: everything but
/// the per-operator usage counters it is allowed to move.
pub open spec fn spec_mutator_preserves(pre: MOptState, post: MOptState) -> bool {
    &&& post.key_module == pre.key_module
    &&& post.operator_num == pre.operator_num
    &&& post.swarm_num == pre.swarm_num
    &&& post.swarm_now == pre.swarm_now
    &&& post.total_finds == pre.total_finds
    &&& post.finds_until_last_switching == pre.finds_until_last_switching
    &&& post.finds_since_switching == pre.finds_since_switching
    &&& post.pilot_time == pre.pilot_time
    &&& post.core_time == pre.core_time
    &&& post.period_pilot == pre.period_pilot
    &&& post.period_core == pre.period_core
    &&& post.pilot_finds_per_stage == pre.pilot_finds_per_stage
    &&& post.core_finds_per_stage == pre.core_finds_per_stage
    &&& post.pilot_ctr_last == pre.pilot_ctr_last
    &&& post.core_ctr_last == pre.core_ctr_last
    &&& post.last_limit_time_start == pre.last_limit_time_start
    &&& post.x == pre.x
    &&& post.v == pre.v
    &&& post.l_best == pre.l_best
    &&& post.l_best_fitness == pre.l_best_fitness
    &&& post.g_best == pre.g_best
    &&& post.g_best_fitness == pre.g_best_fitness
    &&& post.swarm_fitness == pre.swarm_fitness
    &&& post.core_weight == pre.core_weight
}

/// Transforms an input in place, drawing randomness and operator weights
/// from the state. A mutator may move its own usage counters but nothing
/// else of the scheduler state, and never touches the corpora.
pub trait Mutator {
    fn mutate(&mut self, state: &mut FuzzerState, input: &mut BytesInput, stage_id: i32) -> (r:
        Result<(), Error>)
        requires
            old(state).wf(),
        ensures
            final(state).wf(),
            final(state).corpus == old(state).corpus,
            final(state).solutions == old(state).solutions,
            final(state).tokens == old(state).tokens,
            final(state).executions == old(state).executions,
            spec_mutator_preserves(old(state).mopt, final(state).mopt),
            r is Err <==> old(input)@.len() > MAX_INPUT_SIZE,
            r is Ok ==> final(input)@.len() <= MAX_INPUT_SIZE,
            r is Err ==> *final(input) == *old(input) && (r matches Err(e) && e
                is InvalidArguments),
    ;

    /// Told the outcome of the evaluation that followed the mutation.
    fn post_exec(&mut self, state: &mut FuzzerState, stage_id: i32, corpus_idx: Option<usize>) -> (
        r: Result<(), Error>)
        requires
            old(state).wf(),
        ensures
            final(state).wf(),
            final(state).corpus == old(state).corpus,
            final(state).solutions == old(state).solutions,
            final(state).tokens == old(state).tokens,
            final(state).executions == old(state).executions,
            spec_mutator_preserves(old(state).mopt, final(state).mopt),
    ;
}

/// Applies one primitive operator: flip, arithmetic, delete, insert, or a
/// token splice from the dictionary. The single-byte operators rewrite
/// exactly one cell (with a flipped bit, the inverted byte, a stepped
/// byte, or a fresh draw); the delete and insert operators move the length
/// by exactly one where they can.
pub fn apply_havoc_operator(
    op: usize,
    rand: &mut StdRand,
    tokens: &Option<Tokens>,
    input: &mut BytesInput,
)
    requires
        old(input)@.len() <= MAX_INPUT_SIZE,
    ensures
        final(input)@.len() <= MAX_INPUT_SIZE,
        op % HAVOC_OPERATOR_COUNT <= 4 && old(input)@.len() == 0 ==> final(input)@.len() == 1,
        op % HAVOC_OPERATOR_COUNT == 0 && old(input)@.len() > 0 ==> (exists|i: int, b: u64|
            0 <= i < old(input)@.len() && b < 8 && final(input)@ == old(input)@.update(
                i,
                old(input)@[i] ^ (1u8 << b),
            )),
        op % HAVOC_OPERATOR_COUNT == 1 && old(input)@.len() > 0 ==> (exists|i: int|
            0 <= i < old(input)@.len() && final(input)@ == old(input)@.update(
                i,
                old(input)@[i] ^ 0xffu8,
            )),
        op % HAVOC_OPERATOR_COUNT == 2 && old(input)@.len() > 0 ==> (exists|i: int|
            0 <= i < old(input)@.len() && final(input)@ == old(input)@.update(
                i,
                vstd::wrapping::u8_specs::wrapping_add(old(input)@[i], 1u8),
            )),
        op % HAVOC_OPERATOR_COUNT == 3 && old(input)@.len() > 0 ==> (exists|i: int|
            0 <= i < old(input)@.len() && final(input)@ == old(input)@.update(
                i,
                vstd::wrapping::u8_specs::wrapping_sub(old(input)@[i], 1u8),
            )),
        op % HAVOC_OPERATOR_COUNT == 4 && old(input)@.len() > 0 ==> (exists|i: int|
            0 <= i < old(input)@.len() && final(input)@ == old(input)@.update(
                i,
                final(input)@[i],
            )),
        op % HAVOC_OPERATOR_COUNT == 5 ==> final(input)@.len() as int == (if old(input)@.len()
            > 1 {
            old(input)@.len() as int - 1
        } else {
            old(input)@.len() as int
        }),
        op % HAVOC_OPERATOR_COUNT == 6 ==> final(input)@.len() as int == (if old(input)@.len()
            < MAX_INPUT_SIZE {
            old(input)@.len() as int + 1
        } else {
            old(input)@.len() as int
        }),
{
    let len = input.len();
    let which = op % HAVOC_OPERATOR_COUNT;
    if which == 0 {
        // flip one bit
        if len > 0 {
            let i = rand.below_usize(len);
            let bit = rand.below(8);
            let b = input.byte_at(i);
            input.set_byte(i, b ^ (1u8 << (bit as u8)));
        } else {
            input.push_byte(rand.below(256) as u8);
        }
    } else if which == 1 {
        // flip one byte
        if len > 0 {
            let i = rand.below_usize(len);
            let b = input.byte_at(i);
            input.set_byte(i, b ^ 0xff);
        } else {
            input.push_byte(rand.below(256) as u8);
        }
    } else if which == 2 {
        // step one byte up
        if len > 0 {
            let i = rand.below_usize(len);
            let b = input.byte_at(i);
            input.set_byte(i, b.wrapping_add(1));
        } else {
            input.push_byte(1);
        }
    } else if which == 3 {
        // step one byte down
        if len > 0 {
            let i = rand.below_usize(len);
            let b = input.byte_at(i);
            input.set_byte(i, b.wrapping_sub(1));
        } else {
            input.push_byte(0xff);
        }
    } else if which == 4 {
        // overwrite one byte with a fresh draw
        if len > 0 {
            let i = rand.below_usize(len);
            input.set_byte(i, rand.below(256) as u8);
            proof {
                assert(input@ == old(input)@.update(i as int, input@[i as int]));
            }
        } else {
            input.push_byte(rand.below(256) as u8);
        }
    } else if which == 5 {
        // delete one byte
        if len > 1 {
            let i = rand.below_usize(len);
            input.remove_byte(i);
        }
    } else if which == 6 {
        // insert one byte
        if len < MAX_INPUT_SIZE {
            let i = rand.below_usize(len + 1);
            input.insert_byte(i, rand.below(256) as u8);
        }
    } else {
        // splice one dictionary token over a fresh position
        match tokens {
            Some(t) => {
                let count = t.count();
                if count > 0 {
                    let which_token = rand.below_usize(count);
                    let token = t.token_at(which_token).clone();
                    let pos = rand.below_usize(len + 1);
                    let tlen = token.len();
                    let mut j: usize = 0;
                    while j < tlen
                        invariant
                            j <= tlen,
                            tlen == token@.len(),
                            pos <= MAX_INPUT_SIZE,
                            input@.len() <= MAX_INPUT_SIZE,
                        decreases tlen - j,
                    {
                        let cur = input.len();
                        if pos < cur && j < cur - pos {
                            input.set_byte(pos + j, token[j]);
                        } else if cur < MAX_INPUT_SIZE {
                            input.push_byte(token[j]);
                        }
                        j = j + 1;
                    }
                }
            },
            None => (),
        }
    }
}

/// The baseline scheduled mutator: a short random stack of uniformly
/// chosen primitive operators, with no operator accounting.
#[derive(Clone, Debug)]
pub struct StdScheduledMutator {
}

impl StdScheduledMutator {
    pub fn new() -> (r: Self) {
        StdScheduledMutator {  }
    }
}

impl Mutator for StdScheduledMutator {
    fn mutate(&mut self, state: &mut FuzzerState, input: &mut BytesInput, stage_id: i32) -> (r:
        Result<(), Error>) {
        if input.len() > MAX_INPUT_SIZE {
            return Err(Error::InvalidArguments("input exceeds the size limit".to_owned()));
        }
        let rounds = 1 + state.rand.below(4);
        let mut k: u64 = 0;
        while k < rounds
            invariant
                state.wf(),
                state.corpus == old(state).corpus,
                state.solutions == old(state).solutions,
                state.tokens == old(state).tokens,
                state.executions == old(state).executions,
                state.mopt == old(state).mopt,
                input@.len() <= MAX_INPUT_SIZE,
            decreases rounds - k,
        {
            let op = state.rand.below_usize(HAVOC_OPERATOR_COUNT);
            let tokens = state.tokens.clone();
            apply_havoc_operator(op, &mut state.rand, &tokens, input);
            k = k + 1;
        }
        Ok(())
    }

    fn post_exec(&mut self, state: &mut FuzzerState, stage_id: i32, corpus_idx: Option<usize>) -> (
        r: Result<(), Error>) {
        Ok(())
    }
}

/// The adaptive mutator: elects one operator per mutation, weighted by the
/// scheduler's current particle position, and records its use so that the
/// stage can credit finds back to it.
#[derive(Clone, Debug)]
pub struct MOptMutator {
}

impl MOptMutator {
    pub fn new() -> (r: Self) {
        MOptMutator {  }
    }
}

impl Mutator for MOptMutator {
    fn mutate(&mut self, state: &mut FuzzerState, input: &mut BytesInput, stage_id: i32) -> (r:
        Result<(), Error>) {
        if input.len() > MAX_INPUT_SIZE {
            return Err(Error::InvalidArguments("input exceeds the size limit".to_owned()));
        }
        let op = state.mopt.select_operator(&mut state.rand);
        state.mopt.record_operator_use(op);
        let tokens = state.tokens.clone();
        apply_havoc_operator(op, &mut state.rand, &tokens, input);
        Ok(())
    }

    fn post_exec(&mut self, state: &mut FuzzerState, stage_id: i32, corpus_idx: Option<usize>) -> (
        r: Result<(), Error>) {
        Ok(())
    }
}

} // verus!
