use vstd::prelude::*;
use crate::corpus::{Corpus, Testcase};
use crate::input::{BytesInput, Tokens};
use crate::mopt::MOptState;
use crate::state::{FuzzerState, CORPUS_LIMIT};

verus! {

/// The eight little-endian bytes of a 64-bit value.
pub open spec fn spec_u64_le(x: u64) -> Seq<u8> {
    seq![
        x as u8,
        (x >> 8) as u8,
        (x >> 16) as u8,
        (x >> 24) as u8,
        (x >> 32) as u8,
        (x >> 40) as u8,
        (x >> 48) as u8,
        (x >> 56) as u8,
    ]
}

/// The 64-bit value eight little-endian bytes stand for.
pub open spec fn spec_u64_of_le(b: Seq<u8>) -> u64 {
    (b[0] as u64) | ((b[1] as u64) << 8) | ((b[2] as u64) << 16) | ((b[3] as u64) << 24) | ((
    b[4] as u64) << 32) | ((b[5] as u64) << 40) | ((b[6] as u64) << 48) | ((b[7] as u64) << 56)
}

/// Reading back the eight bytes of a value yields the value.
pub proof fn lemma_u64_le_round_trip(x: u64)
    ensures
        spec_u64_of_le(spec_u64_le(x)) == x,
{
    let b = spec_u64_le(x);
    assert((x as u8 as u64) | (((x >> 8) as u8 as u64) << 8) | (((x >> 16) as u8 as u64) << 16) | ((
    (x >> 24) as u8 as u64) << 24) | (((x >> 32) as u8 as u64) << 32) | (((x >> 40) as u8 as u64)
        << 40) | (((x >> 48) as u8 as u64) << 48) | (((x >> 56) as u8 as u64) << 56) == x)
        by (bit_vector);
}

/// Eight bytes written from the value they stand for are those bytes.
pub proof fn lemma_le_u64_round_trip(b: Seq<u8>)
    requires
        b.len() == 8,
    ensures
        spec_u64_le(spec_u64_of_le(b)) =~= b,
{
    let b0 = b[0];
    let b1 = b[1];
    let b2 = b[2];
    let b3 = b[3];
    let b4 = b[4];
    let b5 = b[5];
    let b6 = b[6];
    let b7 = b[7];
    let x = spec_u64_of_le(b);
    assert({
        let y = (b0 as u64) | ((b1 as u64) << 8) | ((b2 as u64) << 16) | ((b3 as u64) << 24) | ((
        b4 as u64) << 32) | ((b5 as u64) << 40) | ((b6 as u64) << 48) | ((b7 as u64) << 56);
        y as u8 == b0 && (y >> 8) as u8 == b1 && (y >> 16) as u8 == b2 && (y >> 24) as u8 == b3 && (
        y >> 32) as u8 == b4 && (y >> 40) as u8 == b5 && (y >> 48) as u8 == b6 && (y >> 56) as u8
            == b7
    }) by (bit_vector);
}

/// Appends the eight little-endian bytes of `x`.
pub fn push_u64_le(out: &mut Vec<u8>, x: u64)
    requires
        old(out)@.len() + 8 <= usize::MAX,
    ensures
        final(out)@ == old(out)@ + spec_u64_le(x),
{
    let ghost pre = out@;
    out.push(x as u8);
    out.push((x >> 8) as u8);
    out.push((x >> 16) as u8);
    out.push((x >> 24) as u8);
    out.push((x >> 32) as u8);
    out.push((x >> 40) as u8);
    out.push((x >> 48) as u8);
    out.push((x >> 56) as u8);
    proof {
        assert(out@ =~= pre + spec_u64_le(x));
    }
}

/// Reads the 64-bit value at `pos`; in range exactly when eight bytes are
/// there.
pub fn read_u64_le(bytes: &Vec<u8>, pos: usize) -> (r: u64)
    requires
        pos + 8 <= bytes@.len(),
    ensures
        r == spec_u64_of_le(bytes@.subrange(pos as int, pos as int + 8)),
{
    let n = bytes.len();
    let b = bytes[pos] as u64 | ((bytes[pos + 1] as u64) << 8) | ((bytes[pos + 2] as u64) << 16) | (
    (bytes[pos + 3] as u64) << 24) | ((bytes[pos + 4] as u64) << 32) | ((bytes[pos + 5] as u64)
        << 40) | ((bytes[pos + 6] as u64) << 48) | ((bytes[pos + 7] as u64) << 56);
    proof {
        let s = bytes@.subrange(pos as int, pos as int + 8);
        assert(s[0] == bytes@[pos as int]);
        assert(s[1] == bytes@[pos as int + 1]);
        assert(s[2] == bytes@[pos as int + 2]);
        assert(s[3] == bytes@[pos as int + 3]);
        assert(s[4] == bytes@[pos as int + 4]);
        assert(s[5] == bytes@[pos as int + 5]);
        assert(s[6] == bytes@[pos as int + 6]);
        assert(s[7] == bytes@[pos as int + 7]);
    }
    b
}

/// A length-prefixed byte string: the length as eight little-endian bytes,
/// then the bytes themselves.
pub open spec fn spec_enc_bytes(b: Seq<u8>) -> Seq<u8> {
    spec_u64_le(b.len() as u64) + b
}

/// Appends a length-prefixed byte string.
pub fn push_bytes(out: &mut Vec<u8>, b: &Vec<u8>)
    requires
        old(out)@.len() + 8 + b@.len() <= usize::MAX,
    ensures
        final(out)@ == old(out)@ + spec_enc_bytes(b@),
{
    let ghost pre = out@;
    push_u64_le(out, b.len() as u64);
    let mut k: usize = 0;
    let n = b.len();
    while k < n
        invariant
            k <= n,
            n == b@.len(),
            out@ == pre + spec_u64_le(b@.len() as u64) + b@.take(k as int),
        decreases n - k,
    {
        out.push(b[k]);
        proof {
            assert(out@ =~= pre + spec_u64_le(b@.len() as u64) + b@.take(k + 1));
        }
        k = k + 1;
    }
    proof {
        assert(b@.take(n as int) =~= b@);
        assert(out@ =~= pre + spec_enc_bytes(b@));
    }
}

/// Reads the length-prefixed byte string at `pos`, handing back the bytes
/// and the position after them; `None` exactly when the bytes do not reach.
pub fn read_bytes(bytes: &Vec<u8>, pos: usize) -> (r: Option<(Vec<u8>, usize)>)
    requires
        pos <= bytes@.len(),
    ensures
        match r {
            Some(p) => {
                &&& pos + 8 <= bytes@.len()
                &&& spec_u64_of_le(bytes@.subrange(pos as int, pos as int + 8)) == p.0@.len()
                &&& pos + 8 + p.0@.len() == p.1
                &&& p.1 <= bytes@.len()
                &&& p.0@ == bytes@.subrange(pos as int + 8, p.1 as int)
            },
            None => pos + 8 > bytes@.len() || pos as int + 8 + spec_u64_of_le(
                bytes@.subrange(pos as int, pos as int + 8),
            ) > bytes@.len(),
        },
{
    let n = bytes.len();
    if n < 8 || pos > n - 8 {
        return None;
    }
    let len = read_u64_le(bytes, pos);
    if len > ((n - pos) - 8) as u64 {
        return None;
    }
    let len = len as usize;
    let start = pos + 8;
    let mut out: Vec<u8> = Vec::new();
    let mut k: usize = 0;
    while k < len
        invariant
            k <= len,
            n == bytes@.len(),
            start + len <= bytes@.len(),
            out@.len() == k,
            out@ == bytes@.subrange(start as int, start as int + k),
        decreases len - k,
    {
        out.push(bytes[start + k]);
        proof {
            assert(out@ =~= bytes@.subrange(start as int, start as int + k + 1));
        }
        k = k + 1;
    }
    Some((out, start + len))
}

/// Decoding an encoded byte string from any position recovers it exactly.
pub proof fn lemma_enc_bytes_round_trip(prefix: Seq<u8>, b: Seq<u8>, suffix: Seq<u8>)
    requires
        b.len() <= u64::MAX,
    ensures
        ({
            let whole = prefix + spec_enc_bytes(b) + suffix;
            let base = prefix.len() as int;
            &&& whole.subrange(base, base + 8) == spec_u64_le(b.len() as u64)
            &&& whole.subrange(base + 8, base + 8 + b.len() as int) == b
        }),
{
    let whole = prefix + spec_enc_bytes(b) + suffix;
    let base = prefix.len() as int;
    assert(whole.subrange(base, base + 8) =~= spec_u64_le(b.len() as u64));
    assert(whole.subrange(base + 8, base + 8 + b.len() as int) =~= b);
}

/// A list of byte strings, one length-prefixed frame each.
pub open spec fn spec_enc_blob_list(items: Seq<Seq<u8>>) -> Seq<u8>
    decreases items.len(),
{
    if items.len() == 0 {
        Seq::empty()
    } else {
        spec_enc_blob_list(items.drop_last()) + spec_enc_bytes(items.last())
    }
}

/// A counted list of byte strings: the count, then the frames.
pub open spec fn spec_enc_blobs(items: Seq<Seq<u8>>) -> Seq<u8> {
    spec_u64_le(items.len() as u64) + spec_enc_blob_list(items)
}

/// The encoding of a prefix of a blob list is never longer than the
/// encoding of the whole list.
pub proof fn lemma_blob_list_take_len(items: Seq<Seq<u8>>, k: int)
    requires
        0 <= k <= items.len(),
    ensures
        spec_enc_blob_list(items.take(k)).len() <= spec_enc_blob_list(items).len(),
    decreases items.len() - k,
{
    if k == items.len() {
        assert(items.take(k) =~= items);
    } else {
        assert(items.take(k + 1).drop_last() =~= items.take(k));
        assert(items.take(k + 1).last() == items[k]);
        lemma_blob_list_take_len(items, k + 1);
    }
}

/// One more item grows a blob-list encoding by its frame.
pub proof fn lemma_blob_list_take_step(items: Seq<Seq<u8>>, k: int)
    requires
        0 <= k < items.len(),
    ensures
        spec_enc_blob_list(items.take(k + 1)) == spec_enc_blob_list(items.take(k)) + spec_enc_bytes(
            items[k],
        ),
{
    assert(items.take(k + 1).drop_last() =~= items.take(k));
    assert(items.take(k + 1).last() == items[k]);
}

/// The frames of a blob list from position `k` on.
pub open spec fn spec_blob_list_from(items: Seq<Seq<u8>>, k: int) -> Seq<u8>
    decreases items.len() - k,
{
    if k < 0 || k >= items.len() {
        Seq::empty()
    } else {
        spec_enc_bytes(items[k]) + spec_blob_list_from(items, k + 1)
    }
}

/// A blob-list encoding splits at any position into the frames before it
/// and the frames from it on.
pub proof fn lemma_blob_list_split(items: Seq<Seq<u8>>, k: int)
    requires
        0 <= k <= items.len(),
    ensures
        spec_enc_blob_list(items) == spec_enc_blob_list(items.take(k)) + spec_blob_list_from(
            items,
            k,
        ),
    decreases items.len() - k,
{
    if k == items.len() {
        assert(items.take(k) =~= items);
        assert(spec_enc_blob_list(items) =~= spec_enc_blob_list(items.take(k))
            + spec_blob_list_from(items, k));
    } else {
        lemma_blob_list_split(items, k + 1);
        lemma_blob_list_take_step(items, k);
        assert(spec_enc_blob_list(items) =~= spec_enc_blob_list(items.take(k))
            + spec_blob_list_from(items, k));
    }
}

/// The input bytes a testcase stands for (what its file holds).
pub open spec fn spec_testcase_input(t: Testcase) -> Seq<u8> {
    match t.input {
        Some(i) => i@,
        None => Seq::empty(),
    }
}

/// The input bytes of every entry of a corpus, in order.
pub open spec fn spec_corpus_inputs(c: Corpus) -> Seq<Seq<u8>> {
    c.entries@.map_values(|t: Testcase| spec_testcase_input(t))
}

/// Whether every entry of a corpus holds its input in memory. A corpus
/// with an input that lives only in a file cannot be checkpointed from
/// here — only the surrounding program can read that file.
pub open spec fn spec_all_inputs_loaded(c: Corpus) -> bool {
    forall|i: int| 0 <= i < c.entries@.len() ==> (#[trigger] c.entries@[i]).input is Some
}

/// Checks that every entry holds its input in memory.
fn all_inputs_loaded(c: &Corpus) -> (r: bool)
    ensures
        r == spec_all_inputs_loaded(*c),
{
    let n = c.count();
    let mut k: usize = 0;
    while k < n
        invariant
            k <= n,
            n == c.entries@.len(),
            forall|i: int| 0 <= i < k ==> (#[trigger] c.entries@[i]).input is Some,
        decreases n - k,
    {
        let tc = match c.get(k) {
            Ok(t) => t,
            Err(_) => {
                return false;
            },
        };
        if tc.input.is_none() {
            return false;
        }
        k = k + 1;
    }
    true
}

/// The token list a state carries (empty when it has none).
pub open spec fn spec_state_tokens(s: FuzzerState) -> Seq<Seq<u8>> {
    match s.tokens {
        Some(t) => t@,
        None => Seq::empty(),
    }
}

/// The scalar half of the adaptive scheduler a checkpoint carries: which
/// mode it is in and all its accounting. The particle matrices are
/// rebuilt fresh on restore.
#[derive(Clone, Copy, PartialEq, Eq, Structural, Debug)]
pub struct MOptScalars {
    pub operator_num: u64,
    pub swarm_num: u64,
    pub swarm_now: u64,
    /// 0 for pilot mode, 1 for core mode.
    pub mode_tag: u64,
    pub pilot_time: u64,
    pub core_time: u64,
    pub period_pilot: u64,
    pub period_core: u64,
    pub total_finds: u64,
    pub finds_until_last_switching: u64,
    pub finds_since_switching: u64,
    pub last_limit_time_start: u64,
}

/// The scalars a scheduler state checkpoints to.
pub open spec fn spec_mopt_scalars(m: MOptState) -> MOptScalars {
    MOptScalars {
        operator_num: m.operator_num as u64,
        swarm_num: m.swarm_num as u64,
        swarm_now: m.swarm_now as u64,
        mode_tag: if m.key_module == crate::mopt::MOptMode::PILOT_FUZZING {
            0
        } else {
            1
        },
        pilot_time: m.pilot_time,
        core_time: m.core_time,
        period_pilot: m.period_pilot,
        period_core: m.period_core,
        total_finds: m.total_finds,
        finds_until_last_switching: m.finds_until_last_switching,
        finds_since_switching: m.finds_since_switching,
        last_limit_time_start: m.last_limit_time_start,
    }
}

/// The twelve words of the scheduler scalars, in field order.
pub open spec fn spec_enc_mopt_scalars(s: MOptScalars) -> Seq<u8> {
    spec_u64_le(s.operator_num) + spec_u64_le(s.swarm_num) + spec_u64_le(s.swarm_now) + spec_u64_le(
        s.mode_tag,
    ) + spec_u64_le(s.pilot_time) + spec_u64_le(s.core_time) + spec_u64_le(s.period_pilot)
        + spec_u64_le(s.period_core) + spec_u64_le(s.total_finds) + spec_u64_le(
        s.finds_until_last_switching,
    ) + spec_u64_le(s.finds_since_switching) + spec_u64_le(s.last_limit_time_start)
}

/// The bounds a scalar bundle must sit in, apart from the corpora-count
/// tie of the find total.
pub open spec fn spec_mopt_scalars_bounds(s: MOptScalars) -> bool {
    &&& 0 < s.operator_num <= crate::mopt::MAX_OPERATORS as u64
    &&& 0 < s.swarm_num <= crate::mopt::MAX_SWARMS as u64
    &&& s.swarm_now <= s.swarm_num
    &&& s.mode_tag <= 1
    &&& s.mode_tag == 0 ==> s.swarm_now < s.swarm_num
    &&& 1 <= s.period_pilot <= 0x2000_0000
    &&& 1 <= s.period_core <= 0x2000_0000
    &&& s.finds_until_last_switching <= s.total_finds
}

/// Whether a scalar bundle can belong to a well-formed scheduler state
/// over the given corpora sizes.
pub open spec fn spec_mopt_scalars_wf(s: MOptScalars, counts: int) -> bool {
    &&& spec_mopt_scalars_bounds(s)
    &&& s.total_finds as int <= counts
}

/// The checkpoint a restart supervisor rehydrates a child from: the RNG
/// seed, the execution counter, the schedule cursor, the scheduler's
/// scalars, and the inputs of both corpora, then the token dictionary.
/// The scheduler's particle matrices are rebuilt fresh after a restart.
pub open spec fn spec_enc_checkpoint(
    seed: u64,
    executions: u64,
    queue_pos: u64,
    scalars: MOptScalars,
    corpus: Seq<Seq<u8>>,
    solutions: Seq<Seq<u8>>,
    tokens: Seq<Seq<u8>>,
) -> Seq<u8> {
    spec_u64_le(seed) + spec_u64_le(executions) + spec_u64_le(queue_pos) + spec_enc_mopt_scalars(
        scalars,
    ) + spec_enc_blobs(corpus) + spec_enc_blobs(solutions) + spec_enc_blobs(tokens)
}

/// Appends a counted list of byte strings; fails only when the result
/// cannot fit in memory.
fn push_blobs(out: &mut Vec<u8>, items: &Vec<Vec<u8>>) -> (r: bool)
    ensures
        r ==> final(out)@ == old(out)@ + spec_enc_blobs(items.deep_view()),
        !r ==> final(out)@ == old(out)@,
        old(out)@.len() + spec_enc_blobs(items.deep_view()).len() <= usize::MAX ==> r,
{
    let n = items.len();
    let mut staged: Vec<u8> = Vec::new();
    if usize::MAX - 8 < staged.len() {
        return false;
    }
    push_u64_le(&mut staged, n as u64);
    let mut k: usize = 0;
    proof {
        assert(items.deep_view().take(0) =~= Seq::<Seq<u8>>::empty());
        assert(staged@ =~= spec_u64_le(n as u64) + spec_enc_blob_list(items.deep_view().take(0)));
    }
    while k < n
        invariant
            k <= n,
            n == items@.len(),
            staged@ == spec_u64_le(n as u64) + spec_enc_blob_list(items.deep_view().take(k as int)),
        decreases n - k,
    {
        let item = &items[k];
        proof {
            lemma_blob_list_take_step(items.deep_view(), k as int);
            lemma_blob_list_take_len(items.deep_view(), k + 1);
            assert(items.deep_view()[k as int] == items@[k as int]@);
        }
        if usize::MAX - 8 < staged.len() || usize::MAX - 8 - staged.len() < item.len() {
            return false;
        }
        push_bytes(&mut staged, item);
        proof {
            assert(items.deep_view().take(k + 1).drop_last() =~= items.deep_view().take(k as int));
            assert(items.deep_view().take(k + 1).last() == items.deep_view()[k as int]);
            assert(items.deep_view()[k as int] == items@[k as int]@);
            assert(staged@ =~= spec_u64_le(n as u64) + spec_enc_blob_list(
                items.deep_view().take(k + 1),
            ));
        }
        k = k + 1;
    }
    proof {
        assert(items.deep_view().take(n as int) =~= items.deep_view());
    }
    if usize::MAX - staged.len() < out.len() {
        return false;
    }
    let ghost pre = out@;
    let mut j: usize = 0;
    let m = staged.len();
    while j < m
        invariant
            j <= m,
            m == staged@.len(),
            pre.len() + m <= usize::MAX,
            out@ == pre + staged@.take(j as int),
        decreases m - j,
    {
        out.push(staged[j]);
        proof {
            assert(out@ =~= pre + staged@.take(j + 1));
        }
        j = j + 1;
    }
    proof {
        assert(staged@.take(m as int) =~= staged@);
        assert(out@ =~= pre + spec_enc_blobs(items.deep_view()));
    }
    true
}

/// A fresh copy of a list of byte strings.
fn copy_blob_list(v: &Vec<Vec<u8>>) -> (r: Vec<Vec<u8>>)
    ensures
        r.deep_view() == v.deep_view(),
{
    let n = v.len();
    let mut out: Vec<Vec<u8>> = Vec::new();
    let mut k: usize = 0;
    while k < n
        invariant
            k <= n,
            n == v@.len(),
            out@.len() == k,
            forall|i: int| 0 <= i < k ==> (#[trigger] out@[i])@ == v@[i]@,
        decreases n - k,
    {
        let item = v[k].clone();
        out.push(item);
        k = k + 1;
    }
    proof {
        assert(out.deep_view() =~~= v.deep_view());
    }
    out
}

/// The input bytes of every corpus entry, as owned vectors.
fn corpus_input_blobs(c: &Corpus) -> (r: Vec<Vec<u8>>)
    ensures
        r.deep_view() == spec_corpus_inputs(*c),
{
    let n = c.count();
    let mut out: Vec<Vec<u8>> = Vec::new();
    let mut k: usize = 0;
    while k < n
        invariant
            k <= n,
            n == c.entries@.len(),
            out@.len() == k,
            forall|i: int| 0 <= i < k ==> (#[trigger] out@[i])@ == spec_testcase_input(
                c.entries@[i],
            ),
        decreases n - k,
    {
        let tc = match c.get(k) {
            Ok(t) => t,
            Err(_) => {
                // unreachable: the index is below the count
                return out;
            },
        };
        let blob = match &tc.input {
            Some(i) => i.to_file_bytes(),
            None => Vec::new(),
        };
        proof {
            assert(blob@ == spec_testcase_input(c.entries@[k as int]));
        }
        out.push(blob);
        k = k + 1;
    }
    proof {
        assert(out.deep_view() =~~= spec_corpus_inputs(*c));
    }
    out
}

/// Serializes a state into its restart checkpoint. Fails only when the
/// checkpoint cannot fit in memory, or when some corpus entry's input is
/// not in memory (it then lives in a file this code cannot read, and a
/// checkpoint must not silently replace it with empty bytes).
pub fn serialize_state(state: &FuzzerState) -> (r: Vec<u8>)
    ensures
        r@.len() > 0 ==> r@ == spec_enc_checkpoint(
            state.rand.seed,
            state.executions,
            state.queue_cycle_pos as u64,
            spec_mopt_scalars(state.mopt),
            spec_corpus_inputs(state.corpus),
            spec_corpus_inputs(state.solutions),
            spec_state_tokens(*state),
        ),
        spec_all_inputs_loaded(state.corpus) && spec_all_inputs_loaded(state.solutions)
            && spec_enc_checkpoint(
            state.rand.seed,
            state.executions,
            state.queue_cycle_pos as u64,
            spec_mopt_scalars(state.mopt),
            spec_corpus_inputs(state.corpus),
            spec_corpus_inputs(state.solutions),
            spec_state_tokens(*state),
        ).len() <= usize::MAX ==> r@ == spec_enc_checkpoint(
            state.rand.seed,
            state.executions,
            state.queue_cycle_pos as u64,
            spec_mopt_scalars(state.mopt),
            spec_corpus_inputs(state.corpus),
            spec_corpus_inputs(state.solutions),
            spec_state_tokens(*state),
        ),
{
    if !all_inputs_loaded(&state.corpus) || !all_inputs_loaded(&state.solutions) {
        return Vec::new();
    }
    let mut out: Vec<u8> = Vec::new();
    push_u64_le(&mut out, state.rand.seed);
    push_u64_le(&mut out, state.executions);
    push_u64_le(&mut out, state.queue_cycle_pos as u64);
    push_u64_le(&mut out, state.mopt.operator_num as u64);
    push_u64_le(&mut out, state.mopt.swarm_num as u64);
    push_u64_le(&mut out, state.mopt.swarm_now as u64);
    let mode_tag: u64 = match state.mopt.key_module {
        crate::mopt::MOptMode::PILOT_FUZZING => 0,
        crate::mopt::MOptMode::CORE_FUZZING => 1,
    };
    push_u64_le(&mut out, mode_tag);
    push_u64_le(&mut out, state.mopt.pilot_time);
    push_u64_le(&mut out, state.mopt.core_time);
    push_u64_le(&mut out, state.mopt.period_pilot);
    push_u64_le(&mut out, state.mopt.period_core);
    push_u64_le(&mut out, state.mopt.total_finds);
    push_u64_le(&mut out, state.mopt.finds_until_last_switching);
    push_u64_le(&mut out, state.mopt.finds_since_switching);
    push_u64_le(&mut out, state.mopt.last_limit_time_start);
    proof {
        assert(out@ =~= spec_u64_le(state.rand.seed) + spec_u64_le(state.executions) + spec_u64_le(
            state.queue_cycle_pos as u64,
        ) + spec_enc_mopt_scalars(spec_mopt_scalars(state.mopt)));
    }
    let corpus_blobs = corpus_input_blobs(&state.corpus);
    if !push_blobs(&mut out, &corpus_blobs) {
        return Vec::new();
    }
    let solution_blobs = corpus_input_blobs(&state.solutions);
    if !push_blobs(&mut out, &solution_blobs) {
        return Vec::new();
    }
    let token_blobs: Vec<Vec<u8>> = match &state.tokens {
        Some(t) => copy_blob_list(&t.tokens),
        None => Vec::new(),
    };
    proof {
        assert(token_blobs.deep_view() =~~= spec_state_tokens(*state));
    }
    if !push_blobs(&mut out, &token_blobs) {
        return Vec::new();
    }
    proof {
        assert(out@ =~= spec_enc_checkpoint(
            state.rand.seed,
            state.executions,
            state.queue_cycle_pos as u64,
            spec_mopt_scalars(state.mopt),
            spec_corpus_inputs(state.corpus),
            spec_corpus_inputs(state.solutions),
            spec_state_tokens(*state),
        ));
    }
    out
}

/// Reads a counted list of byte strings; hands back the items, the
/// position after them, and the guarantee that the consumed bytes are
/// exactly their encoding. When the caller knows (as a ghost witness) that
/// the bytes at `pos` hold a whole well-formed list within the limit, the
/// read succeeds and parses exactly that list.
#[verifier::rlimit(100)]
fn read_blobs(
    bytes: &Vec<u8>,
    pos: usize,
    limit: usize,
    Ghost(witness): Ghost<Option<Seq<Seq<u8>>>>,
) -> (r: Option<(Vec<Vec<u8>>, usize)>)
    requires
        pos <= bytes@.len(),
        witness matches Some(w) ==> {
            &&& w.len() <= limit
            &&& (forall|i: int| 0 <= i < w.len() ==> (#[trigger] w[i]).len() <= usize::MAX)
            &&& spec_enc_blobs(w).len() <= bytes@.len() - pos
            &&& bytes@.subrange(pos as int, pos + spec_enc_blobs(w).len()) == spec_enc_blobs(w)
        },
    ensures
        r matches Some(p) ==> {
            &&& pos <= p.1 <= bytes@.len()
            &&& bytes@.subrange(pos as int, p.1 as int) == spec_enc_blobs(p.0.deep_view())
            &&& p.0@.len() <= limit
        },
        witness matches Some(w) ==> (r matches Some(p) && p.0.deep_view() == w && p.1 as int == pos
            + spec_enc_blobs(w).len()),
{
    proof {
        if witness is Some {
            let w = witness.unwrap();
            assert(spec_enc_blobs(w).subrange(0, 8) =~= spec_u64_le(w.len() as u64));
            assert(bytes@.subrange(pos as int, pos as int + 8) =~= spec_enc_blobs(w).subrange(
                0,
                8,
            ));
            lemma_u64_le_round_trip(w.len() as u64);
        }
    }
    let n = bytes.len();
    if n < 8 || pos > n - 8 {
        return None;
    }
    let count = read_u64_le(bytes, pos);
    if count > limit as u64 {
        return None;
    }
    let count = count as usize;
    let mut items: Vec<Vec<u8>> = Vec::new();
    let mut cur: usize = pos + 8;
    let mut k: usize = 0;
    proof {
        lemma_le_u64_round_trip(bytes@.subrange(pos as int, pos as int + 8));
        assert(items.deep_view().take(0) =~= Seq::<Seq<u8>>::empty());
        assert(bytes@.subrange(pos as int, pos as int + 8) =~= spec_u64_le(count as u64));
        if witness is Some {
            let w = witness.unwrap();
            lemma_blob_list_split(w, 0);
            assert(w.take(0) =~= Seq::<Seq<u8>>::empty());
            assert(spec_enc_blob_list(w.take(0)) =~= Seq::<u8>::empty());
            assert(spec_enc_blob_list(w) =~= spec_blob_list_from(w, 0));
            assert(spec_enc_blobs(w).len() == 8 + spec_enc_blob_list(w).len());
            let lw = spec_enc_blobs(w).len() as int;
            assert forall|j: int| 0 <= j < lw implies bytes@[pos + j] == spec_enc_blobs(w)[j] by {
                assert(bytes@.subrange(pos as int, pos + lw)[j] == spec_enc_blobs(w)[j]);
            }
            assert forall|j: int|
                0 <= j < lw - 8 implies bytes@[pos + 8 + j] == spec_blob_list_from(w, 0)[j] by {
                assert(bytes@[pos + 8 + j] == spec_enc_blobs(w)[8 + j]);
                assert(spec_enc_blobs(w)[8 + j] == spec_enc_blob_list(w)[j]);
            }
            assert(bytes@.subrange(pos + 8, pos + spec_enc_blobs(w).len())
                =~= spec_blob_list_from(w, 0));
        }
    }
    while k < count
        invariant
            k <= count,
            count <= limit,
            pos + 8 <= cur <= bytes@.len(),
            items@.len() == k,
            bytes@.subrange(pos as int, cur as int) == spec_u64_le(count as u64)
                + spec_enc_blob_list(items.deep_view()),
            witness matches Some(w) ==> {
                &&& w.len() == count
                &&& (forall|i: int| 0 <= i < w.len() ==> (#[trigger] w[i]).len() <= usize::MAX)
                &&& spec_enc_blobs(w).len() <= bytes@.len() - pos
                &&& items.deep_view() == w.take(k as int)
                &&& cur as int == pos + 8 + spec_enc_blob_list(w.take(k as int)).len()
                &&& bytes@.subrange(cur as int, pos + spec_enc_blobs(w).len())
                    == spec_blob_list_from(w, k as int)
            },
        decreases count - k,
    {
        proof {
            if witness is Some {
                let w = witness.unwrap();
                let fk = spec_blob_list_from(w, k as int);
                let endpos: int = pos + spec_enc_blobs(w).len();
                lemma_blob_list_split(w, k as int);
                lemma_blob_list_take_len(w, k as int);
                assert(spec_enc_blobs(w).len() == 8 + spec_enc_blob_list(w).len());
                assert(spec_enc_blob_list(w).len() == spec_enc_blob_list(w.take(k as int)).len()
                    + fk.len());
                assert(fk.len() == endpos - cur);
                assert(bytes@.subrange(cur as int, endpos) == fk);
                assert(fk == spec_enc_bytes(w[k as int]) + spec_blob_list_from(w, k + 1));
                assert(fk.len() >= 8 + w[k as int].len());
                assert forall|j: int| 0 <= j < fk.len() implies bytes@[cur + j] == fk[j] by {
                    assert(bytes@.subrange(cur as int, endpos)[j] == fk[j]);
                }
                assert(bytes@.subrange(cur as int, cur as int + 8) =~= fk.subrange(0, 8));
                assert(fk.subrange(0, 8) =~= spec_u64_le(w[k as int].len() as u64));
                lemma_u64_le_round_trip(w[k as int].len() as u64);
                assert(bytes@.subrange(cur + 8, cur + 8 + w[k as int].len() as int)
                    =~= fk.subrange(8, 8 + w[k as int].len() as int));
                assert(fk.subrange(8, 8 + w[k as int].len() as int) =~= w[k as int]);
            }
        }
        let parsed = match read_bytes(bytes, cur) {
            Some(p) => p,
            None => {
                return None;
            },
        };
        let (item, next) = parsed;
        proof {
            lemma_le_u64_round_trip(bytes@.subrange(cur as int, cur as int + 8));
            assert(bytes@.subrange(cur as int, cur as int + 8) =~= spec_u64_le(
                item@.len() as u64,
            ));
            assert(bytes@.subrange(cur as int, next as int) =~= bytes@.subrange(
                cur as int,
                cur as int + 8,
            ) + bytes@.subrange(cur as int + 8, next as int));
            assert(bytes@.subrange(cur as int, next as int) =~= spec_enc_bytes(item@));
        }
        let ghost pre_items = items.deep_view();
        items.push(item);
        proof {
            assert(items.deep_view().drop_last() =~= pre_items);
            assert(items.deep_view().last() == items@.last()@);
            assert(bytes@.subrange(pos as int, next as int) =~= bytes@.subrange(
                pos as int,
                cur as int,
            ) + bytes@.subrange(cur as int, next as int));
            assert(bytes@.subrange(pos as int, next as int) =~= spec_u64_le(count as u64)
                + spec_enc_blob_list(items.deep_view()));
            if witness is Some {
                let w = witness.unwrap();
                assert(items.deep_view() =~= w.take(k + 1));
                lemma_blob_list_take_step(w, k as int);
                let fk = spec_blob_list_from(w, k as int);
                let endpos: int = pos + spec_enc_blobs(w).len();
                lemma_blob_list_split(w, k as int);
                lemma_blob_list_take_len(w, k as int);
                assert(spec_enc_blobs(w).len() == 8 + spec_enc_blob_list(w).len());
                assert(spec_enc_blob_list(w).len() == spec_enc_blob_list(w.take(k as int)).len()
                    + fk.len());
                assert(fk.len() == endpos - cur);
                assert(bytes@.subrange(cur as int, endpos) == fk);
                assert forall|j: int| 0 <= j < fk.len() implies bytes@[cur + j] == fk[j] by {
                    assert(bytes@.subrange(cur as int, endpos)[j] == fk[j]);
                }
                assert(fk == spec_enc_bytes(w[k as int]) + spec_blob_list_from(w, k + 1));
                assert(spec_enc_bytes(w[k as int]).len() == 8 + w[k as int].len());
                assert(next as int - cur == 8 + w[k as int].len());
                assert forall|j: int|
                    0 <= j < spec_blob_list_from(w, k + 1).len() implies bytes@.subrange(
                    next as int,
                    endpos,
                )[j] == spec_blob_list_from(w, k + 1)[j] by {
                    let jj = next as int - cur + j;
                    assert(bytes@[cur + jj] == fk[jj]);
                    assert(next + j == cur + jj);
                    assert(fk[jj] == spec_blob_list_from(w, k + 1)[j]);
                }
                assert(bytes@.subrange(next as int, endpos) =~= spec_blob_list_from(w, k + 1));
            }
        }
        cur = next;
        k = k + 1;
    }
    proof {
        if witness is Some {
            let w = witness.unwrap();
            assert(w.take(count as int) =~= w);
        }
    }
    Some((items, cur))
}

/// Builds a corpus whose entries hold the given inputs in memory.
fn corpus_from_blobs(blobs: Vec<Vec<u8>>) -> (r: Corpus)
    requires
        blobs@.len() <= CORPUS_LIMIT,
    ensures
        spec_corpus_inputs(r) == blobs.deep_view(),
        r.entries@.len() == blobs@.len(),
{
    let n = blobs.len();
    let mut corpus = Corpus::new();
    let mut k: usize = 0;
    while k < n
        invariant
            k <= n,
            n == blobs@.len(),
            corpus.entries@.len() == k,
            forall|i: int| 0 <= i < k ==> spec_testcase_input(#[trigger] corpus.entries@[i])
                == blobs@[i]@,
        decreases n - k,
    {
        let blob = blobs[k].clone();
        let add_result = corpus.add(Testcase::new(BytesInput::new(blob)));
        match add_result {
            Ok(_) => (),
            Err(_) => (),
        }
        k = k + 1;
    }
    proof {
        assert(spec_corpus_inputs(corpus) =~~= blobs.deep_view());
    }
    corpus
}

/// Whether some well-formed checkpoint is what the bytes hold: three
/// header words, then the corpus, solution and token lists, each within
/// the machine limits, covering the bytes exactly.
pub open spec fn spec_wf_checkpoint(bytes: Seq<u8>) -> bool {
    exists|seed: u64, executions: u64, queue_pos: u64, scalars: MOptScalars, corpus: Seq<Seq<u8>>, solutions: Seq<
        Seq<u8>,
    >, tokens: Seq<Seq<u8>>|
        {
            &&& corpus.len() <= CORPUS_LIMIT
            &&& solutions.len() <= CORPUS_LIMIT
            &&& tokens.len() <= CORPUS_LIMIT
            &&& queue_pos <= usize::MAX
            &&& spec_mopt_scalars_wf(scalars, corpus.len() as int + solutions.len() as int)
            &&& (forall|i: int| 0 <= i < corpus.len() ==> (#[trigger] corpus[i]).len()
                <= usize::MAX)
            &&& (forall|i: int| 0 <= i < solutions.len() ==> (#[trigger] solutions[i]).len()
                <= usize::MAX)
            &&& (forall|i: int| 0 <= i < tokens.len() ==> (#[trigger] tokens[i]).len()
                <= usize::MAX)
            &&& bytes == #[trigger] spec_enc_checkpoint(
                seed,
                executions,
                queue_pos,
                scalars,
                corpus,
                solutions,
                tokens,
            )
        }
}

/// The fifteen words a checkpoint header concatenation pins, one subrange
/// each.
#[verifier::rlimit(100)]
pub proof fn lemma_header_words(bytes: Seq<u8>, w0: u64, w1: u64, w2: u64, s: MOptScalars)
    requires
        bytes.len() >= 120,
        bytes.subrange(0, 120) == spec_u64_le(w0) + spec_u64_le(w1) + spec_u64_le(w2)
            + spec_enc_mopt_scalars(s),
    ensures
        bytes.subrange(0, 8) == spec_u64_le(w0),
        bytes.subrange(8, 16) == spec_u64_le(w1),
        bytes.subrange(16, 24) == spec_u64_le(w2),
        bytes.subrange(24, 32) == spec_u64_le(s.operator_num),
        bytes.subrange(32, 40) == spec_u64_le(s.swarm_num),
        bytes.subrange(40, 48) == spec_u64_le(s.swarm_now),
        bytes.subrange(48, 56) == spec_u64_le(s.mode_tag),
        bytes.subrange(56, 64) == spec_u64_le(s.pilot_time),
        bytes.subrange(64, 72) == spec_u64_le(s.core_time),
        bytes.subrange(72, 80) == spec_u64_le(s.period_pilot),
        bytes.subrange(80, 88) == spec_u64_le(s.period_core),
        bytes.subrange(88, 96) == spec_u64_le(s.total_finds),
        bytes.subrange(96, 104) == spec_u64_le(s.finds_until_last_switching),
        bytes.subrange(104, 112) == spec_u64_le(s.finds_since_switching),
        bytes.subrange(112, 120) == spec_u64_le(s.last_limit_time_start),
{
    let hdr = bytes.subrange(0, 120);
    assert(bytes.subrange(0, 8) =~= hdr.subrange(0, 8));
    assert(bytes.subrange(8, 16) =~= hdr.subrange(8, 16));
    assert(bytes.subrange(16, 24) =~= hdr.subrange(16, 24));
    assert(hdr.subrange(0, 8) =~= spec_u64_le(w0));
    assert(hdr.subrange(8, 16) =~= spec_u64_le(w1));
    assert(hdr.subrange(16, 24) =~= spec_u64_le(w2));
    let sc = spec_enc_mopt_scalars(s);
    assert(bytes.subrange(24, 120) =~= hdr.subrange(24, 120));
    assert(hdr.subrange(24, 120) =~= sc);
    assert(bytes.subrange(24, 32) =~= sc.subrange(0, 8));
    assert(sc.subrange(0, 8) =~= spec_u64_le(s.operator_num));
    assert(bytes.subrange(32, 40) =~= sc.subrange(8, 16));
    assert(sc.subrange(8, 16) =~= spec_u64_le(s.swarm_num));
    assert(bytes.subrange(40, 48) =~= sc.subrange(16, 24));
    assert(sc.subrange(16, 24) =~= spec_u64_le(s.swarm_now));
    assert(bytes.subrange(48, 56) =~= sc.subrange(24, 32));
    assert(sc.subrange(24, 32) =~= spec_u64_le(s.mode_tag));
    assert(bytes.subrange(56, 64) =~= sc.subrange(32, 40));
    assert(sc.subrange(32, 40) =~= spec_u64_le(s.pilot_time));
    assert(bytes.subrange(64, 72) =~= sc.subrange(40, 48));
    assert(sc.subrange(40, 48) =~= spec_u64_le(s.core_time));
    assert(bytes.subrange(72, 80) =~= sc.subrange(48, 56));
    assert(sc.subrange(48, 56) =~= spec_u64_le(s.period_pilot));
    assert(bytes.subrange(80, 88) =~= sc.subrange(56, 64));
    assert(sc.subrange(56, 64) =~= spec_u64_le(s.period_core));
    assert(bytes.subrange(88, 96) =~= sc.subrange(64, 72));
    assert(sc.subrange(64, 72) =~= spec_u64_le(s.total_finds));
    assert(bytes.subrange(96, 104) =~= sc.subrange(72, 80));
    assert(sc.subrange(72, 80) =~= spec_u64_le(s.finds_until_last_switching));
    assert(bytes.subrange(104, 112) =~= sc.subrange(80, 88));
    assert(sc.subrange(80, 88) =~= spec_u64_le(s.finds_since_switching));
    assert(bytes.subrange(112, 120) =~= sc.subrange(88, 96));
    assert(sc.subrange(88, 96) =~= spec_u64_le(s.last_limit_time_start));
}

/// Reads the fifteen header words of a checkpoint and validates the
/// scheduler scalars; under a ghost witness matching the header bytes the
/// read returns exactly the witnessed values.
#[verifier::rlimit(100)]
fn read_header(
    bytes: &Vec<u8>,
    Ghost(witness): Ghost<Option<(u64, u64, u64, MOptScalars)>>,
) -> (r: Option<(u64, u64, u64, MOptScalars)>)
    requires
        witness matches Some(w) ==> {
            &&& bytes@.len() >= 120
            &&& bytes@.subrange(0, 120) == spec_u64_le(w.0) + spec_u64_le(w.1) + spec_u64_le(w.2)
                + spec_enc_mopt_scalars(w.3)
            &&& w.2 <= usize::MAX
            &&& spec_mopt_scalars_bounds(w.3)
        },
    ensures
        r matches Some(h) ==> {
            &&& bytes@.len() >= 120
            &&& bytes@.subrange(0, 8) == spec_u64_le(h.0)
            &&& bytes@.subrange(8, 16) == spec_u64_le(h.1)
            &&& bytes@.subrange(16, 24) == spec_u64_le(h.2)
            &&& bytes@.subrange(24, 120) == spec_enc_mopt_scalars(h.3)
            &&& h.2 <= usize::MAX
            &&& spec_mopt_scalars_bounds(h.3)
        },
        witness matches Some(w) ==> r == Some(w),
{
    proof {
        if witness is Some {
            let w = witness.unwrap();
            lemma_header_words(bytes@, w.0, w.1, w.2, w.3);
            lemma_u64_le_round_trip(w.0);
            lemma_u64_le_round_trip(w.1);
            lemma_u64_le_round_trip(w.2);
            lemma_u64_le_round_trip(w.3.operator_num);
            lemma_u64_le_round_trip(w.3.swarm_num);
            lemma_u64_le_round_trip(w.3.swarm_now);
            lemma_u64_le_round_trip(w.3.mode_tag);
            lemma_u64_le_round_trip(w.3.pilot_time);
            lemma_u64_le_round_trip(w.3.core_time);
            lemma_u64_le_round_trip(w.3.period_pilot);
            lemma_u64_le_round_trip(w.3.period_core);
            lemma_u64_le_round_trip(w.3.total_finds);
            lemma_u64_le_round_trip(w.3.finds_until_last_switching);
            lemma_u64_le_round_trip(w.3.finds_since_switching);
            lemma_u64_le_round_trip(w.3.last_limit_time_start);
        }
    }
    let n = bytes.len();
    if n < 120 {
        return None;
    }
    let seed = read_u64_le(bytes, 0);
    let executions = read_u64_le(bytes, 8);
    let queue_pos = read_u64_le(bytes, 16);
    if queue_pos > usize::MAX as u64 {
        return None;
    }
    let scalars = MOptScalars {
        operator_num: read_u64_le(bytes, 24),
        swarm_num: read_u64_le(bytes, 32),
        swarm_now: read_u64_le(bytes, 40),
        mode_tag: read_u64_le(bytes, 48),
        pilot_time: read_u64_le(bytes, 56),
        core_time: read_u64_le(bytes, 64),
        period_pilot: read_u64_le(bytes, 72),
        period_core: read_u64_le(bytes, 80),
        total_finds: read_u64_le(bytes, 88),
        finds_until_last_switching: read_u64_le(bytes, 96),
        finds_since_switching: read_u64_le(bytes, 104),
        last_limit_time_start: read_u64_le(bytes, 112),
    };
    if scalars.operator_num == 0 || scalars.operator_num > crate::mopt::MAX_OPERATORS as u64
        || scalars.swarm_num == 0 || scalars.swarm_num > crate::mopt::MAX_SWARMS as u64
        || scalars.swarm_now > scalars.swarm_num || scalars.mode_tag > 1 || (scalars.mode_tag == 0
        && scalars.swarm_now >= scalars.swarm_num) || scalars.period_pilot < 1
        || scalars.period_pilot > 0x2000_0000 || scalars.period_core < 1 || scalars.period_core
        > 0x2000_0000 || scalars.finds_until_last_switching > scalars.total_finds {
        return None;
    }
    proof {
        lemma_le_u64_round_trip(bytes@.subrange(0, 8));
        lemma_le_u64_round_trip(bytes@.subrange(8, 16));
        lemma_le_u64_round_trip(bytes@.subrange(16, 24));
        lemma_le_u64_round_trip(bytes@.subrange(24, 32));
        lemma_le_u64_round_trip(bytes@.subrange(32, 40));
        lemma_le_u64_round_trip(bytes@.subrange(40, 48));
        lemma_le_u64_round_trip(bytes@.subrange(48, 56));
        lemma_le_u64_round_trip(bytes@.subrange(56, 64));
        lemma_le_u64_round_trip(bytes@.subrange(64, 72));
        lemma_le_u64_round_trip(bytes@.subrange(72, 80));
        lemma_le_u64_round_trip(bytes@.subrange(80, 88));
        lemma_le_u64_round_trip(bytes@.subrange(88, 96));
        lemma_le_u64_round_trip(bytes@.subrange(96, 104));
        lemma_le_u64_round_trip(bytes@.subrange(104, 112));
        lemma_le_u64_round_trip(bytes@.subrange(112, 120));
        assert(bytes@.subrange(24, 120) =~= spec_u64_le(scalars.operator_num) + spec_u64_le(
            scalars.swarm_num,
        ) + spec_u64_le(scalars.swarm_now) + spec_u64_le(scalars.mode_tag) + spec_u64_le(
            scalars.pilot_time,
        ) + spec_u64_le(scalars.core_time) + spec_u64_le(scalars.period_pilot) + spec_u64_le(
            scalars.period_core,
        ) + spec_u64_le(scalars.total_finds) + spec_u64_le(scalars.finds_until_last_switching)
            + spec_u64_le(scalars.finds_since_switching) + spec_u64_le(
            scalars.last_limit_time_start,
        ));
    }
    Some((seed, executions, queue_pos, scalars))
}

/// Where each piece of a checkpoint encoding lies: the fifteen header
/// words, then the three blob segments, covering the bytes exactly.
#[verifier::rlimit(100)]
pub proof fn lemma_checkpoint_layout(
    seed: u64,
    executions: u64,
    queue_pos: u64,
    s: MOptScalars,
    corpus: Seq<Seq<u8>>,
    solutions: Seq<Seq<u8>>,
    tokens: Seq<Seq<u8>>,
)
    ensures
        ({
            let e = spec_enc_checkpoint(seed, executions, queue_pos, s, corpus, solutions, tokens);
            let l1 = spec_enc_blobs(corpus).len() as int;
            let l2 = spec_enc_blobs(solutions).len() as int;
            let l3 = spec_enc_blobs(tokens).len() as int;
            &&& e.len() == 120 + l1 + l2 + l3
            &&& e.subrange(0, 8) == spec_u64_le(seed)
            &&& e.subrange(8, 16) == spec_u64_le(executions)
            &&& e.subrange(16, 24) == spec_u64_le(queue_pos)
            &&& e.subrange(24, 32) == spec_u64_le(s.operator_num)
            &&& e.subrange(32, 40) == spec_u64_le(s.swarm_num)
            &&& e.subrange(40, 48) == spec_u64_le(s.swarm_now)
            &&& e.subrange(48, 56) == spec_u64_le(s.mode_tag)
            &&& e.subrange(56, 64) == spec_u64_le(s.pilot_time)
            &&& e.subrange(64, 72) == spec_u64_le(s.core_time)
            &&& e.subrange(72, 80) == spec_u64_le(s.period_pilot)
            &&& e.subrange(80, 88) == spec_u64_le(s.period_core)
            &&& e.subrange(88, 96) == spec_u64_le(s.total_finds)
            &&& e.subrange(96, 104) == spec_u64_le(s.finds_until_last_switching)
            &&& e.subrange(104, 112) == spec_u64_le(s.finds_since_switching)
            &&& e.subrange(112, 120) == spec_u64_le(s.last_limit_time_start)
            &&& e.subrange(120, 120 + l1) == spec_enc_blobs(corpus)
            &&& e.subrange(120 + l1, 120 + l1 + l2) == spec_enc_blobs(solutions)
            &&& e.subrange(120 + l1 + l2, 120 + l1 + l2 + l3) == spec_enc_blobs(tokens)
        }),
{
    let e = spec_enc_checkpoint(seed, executions, queue_pos, s, corpus, solutions, tokens);
    let l1 = spec_enc_blobs(corpus).len() as int;
    let l2 = spec_enc_blobs(solutions).len() as int;
    let l3 = spec_enc_blobs(tokens).len() as int;
    assert(e.subrange(0, 8) =~= spec_u64_le(seed));
    assert(e.subrange(8, 16) =~= spec_u64_le(executions));
    assert(e.subrange(16, 24) =~= spec_u64_le(queue_pos));
    assert(e.subrange(24, 32) =~= spec_u64_le(s.operator_num));
    assert(e.subrange(32, 40) =~= spec_u64_le(s.swarm_num));
    assert(e.subrange(40, 48) =~= spec_u64_le(s.swarm_now));
    assert(e.subrange(48, 56) =~= spec_u64_le(s.mode_tag));
    assert(e.subrange(56, 64) =~= spec_u64_le(s.pilot_time));
    assert(e.subrange(64, 72) =~= spec_u64_le(s.core_time));
    assert(e.subrange(72, 80) =~= spec_u64_le(s.period_pilot));
    assert(e.subrange(80, 88) =~= spec_u64_le(s.period_core));
    assert(e.subrange(88, 96) =~= spec_u64_le(s.total_finds));
    assert(e.subrange(96, 104) =~= spec_u64_le(s.finds_until_last_switching));
    assert(e.subrange(104, 112) =~= spec_u64_le(s.finds_since_switching));
    assert(e.subrange(112, 120) =~= spec_u64_le(s.last_limit_time_start));
    assert(e.subrange(120, 120 + l1) =~= spec_enc_blobs(corpus));
    assert(e.subrange(120 + l1, 120 + l1 + l2) =~= spec_enc_blobs(solutions));
    assert(e.subrange(120 + l1 + l2, 120 + l1 + l2 + l3) =~= spec_enc_blobs(tokens));
}

/// Rehydrates a state from its restart checkpoint: the RNG, the corpora,
/// the tokens and the scheduler's mode and accounting come back; the
/// scheduler's particle matrices are rebuilt fresh. Whatever comes back
/// re-serializes to exactly the bytes it was read from, so a restart
/// cycle is byte-identical; nothing comes back when the bytes are not a
/// whole well-formed checkpoint.
#[verifier::rlimit(100)]
#[verifier::spinoff_prover]
pub fn deserialize_state(bytes: &Vec<u8>) -> (r: Option<FuzzerState>)
    ensures
        r matches Some(st) ==> {
            &&& bytes@ == spec_enc_checkpoint(
                st.rand.seed,
                st.executions,
                st.queue_cycle_pos as u64,
                spec_mopt_scalars(st.mopt),
                spec_corpus_inputs(st.corpus),
                spec_corpus_inputs(st.solutions),
                spec_state_tokens(st),
            )
            &&& st.wf()
        },
        spec_wf_checkpoint(bytes@) ==> r is Some,
{
    let ghost wf = spec_wf_checkpoint(bytes@);
    let ghost (w_seed, w_executions, w_queue_pos, w_scalars, w_corpus, w_solutions, w_tokens) =
        if wf {
        choose|seed: u64, executions: u64, queue_pos: u64, scalars: MOptScalars, corpus: Seq<
            Seq<u8>,
        >, solutions: Seq<Seq<u8>>, tokens: Seq<Seq<u8>>|
            {
                &&& corpus.len() <= CORPUS_LIMIT
                &&& solutions.len() <= CORPUS_LIMIT
                &&& tokens.len() <= CORPUS_LIMIT
                &&& queue_pos <= usize::MAX
                &&& spec_mopt_scalars_wf(scalars, corpus.len() as int + solutions.len() as int)
                &&& (forall|i: int| 0 <= i < corpus.len() ==> (#[trigger] corpus[i]).len()
                    <= usize::MAX)
                &&& (forall|i: int| 0 <= i < solutions.len() ==> (#[trigger] solutions[i]).len()
                    <= usize::MAX)
                &&& (forall|i: int| 0 <= i < tokens.len() ==> (#[trigger] tokens[i]).len()
                    <= usize::MAX)
                &&& bytes@ == #[trigger] spec_enc_checkpoint(
                    seed,
                    executions,
                    queue_pos,
                    scalars,
                    corpus,
                    solutions,
                    tokens,
                )
            }
    } else {
        arbitrary()
    };
    let ghost enc1 = spec_enc_blobs(w_corpus);
    let ghost enc2 = spec_enc_blobs(w_solutions);
    let ghost enc3 = spec_enc_blobs(w_tokens);
    proof {
        if wf {
            lemma_checkpoint_layout(
                w_seed,
                w_executions,
                w_queue_pos,
                w_scalars,
                w_corpus,
                w_solutions,
                w_tokens,
            );
            assert(bytes@.subrange(0, 120) =~= spec_u64_le(w_seed) + spec_u64_le(w_executions)
                + spec_u64_le(w_queue_pos) + spec_enc_mopt_scalars(w_scalars));
        }
    }
    let n = bytes.len();
    let header = match read_header(
        bytes,
        Ghost(
            if wf {
                Some((w_seed, w_executions, w_queue_pos, w_scalars))
            } else {
                None
            },
        ),
    ) {
        Some(h) => h,
        None => {
            return None;
        },
    };
    let (seed, executions, queue_pos, scalars) = header;
    let parsed_corpus = match read_blobs(
        bytes,
        120,
        CORPUS_LIMIT,
        Ghost(if wf { Some(w_corpus) } else { None }),
    ) {
        Some(p) => p,
        None => {
            return None;
        },
    };
    let (corpus_blobs, after_corpus) = parsed_corpus;
    let parsed_solutions = match read_blobs(
        bytes,
        after_corpus,
        CORPUS_LIMIT,
        Ghost(if wf { Some(w_solutions) } else { None }),
    ) {
        Some(p) => p,
        None => {
            return None;
        },
    };
    let (solution_blobs, after_solutions) = parsed_solutions;
    let parsed_tokens = match read_blobs(
        bytes,
        after_solutions,
        CORPUS_LIMIT,
        Ghost(if wf { Some(w_tokens) } else { None }),
    ) {
        Some(p) => p,
        None => {
            return None;
        },
    };
    let (token_blobs, end) = parsed_tokens;
    if end != n {
        proof {
            if wf {
                assert(end as int == 120 + enc1.len() as int + enc2.len() as int
                    + enc3.len() as int);
                assert(bytes@.len() as int == 120 + enc1.len() as int + enc2.len() as int
                    + enc3.len() as int);
            }
        }
        return None;
    }
    let corpus = corpus_from_blobs(corpus_blobs);
    let solutions = corpus_from_blobs(solution_blobs);
    if scalars.total_finds > (corpus.count() as u64) + (solutions.count() as u64) {
        proof {
            if wf {
                assert(spec_corpus_inputs(corpus) == w_corpus);
                assert(spec_corpus_inputs(solutions) == w_solutions);
            }
        }
        return None;
    }
    let ghost parsed_token_views = token_blobs.deep_view();
    let tokens = if token_blobs.len() == 0 {
        None
    } else {
        Some(Tokens::new(token_blobs))
    };
    let mut mopt = MOptState::new(scalars.operator_num as usize, scalars.swarm_num as usize);
    mopt.key_module = if scalars.mode_tag == 0 {
        crate::mopt::MOptMode::PILOT_FUZZING
    } else {
        crate::mopt::MOptMode::CORE_FUZZING
    };
    mopt.swarm_now = scalars.swarm_now as usize;
    mopt.pilot_time = scalars.pilot_time;
    mopt.core_time = scalars.core_time;
    mopt.period_pilot = scalars.period_pilot;
    mopt.period_core = scalars.period_core;
    mopt.total_finds = scalars.total_finds;
    mopt.finds_until_last_switching = scalars.finds_until_last_switching;
    mopt.finds_since_switching = scalars.finds_since_switching;
    mopt.last_limit_time_start = scalars.last_limit_time_start;
    let st = FuzzerState {
        rand: crate::rand::StdRand { seed },
        corpus,
        solutions,
        mopt,
        tokens,
        executions,
        queue_cycle_pos: queue_pos as usize,
    };
    proof {
        assert(spec_mopt_scalars(st.mopt) == scalars);
        assert(spec_state_tokens(st) =~~= parsed_token_views);
        assert(bytes@.subrange(0, 120) =~= spec_u64_le(seed) + spec_u64_le(executions)
            + spec_u64_le(queue_pos) + spec_enc_mopt_scalars(spec_mopt_scalars(st.mopt)));
        assert(bytes@ =~= bytes@.subrange(0, 120) + bytes@.subrange(120, after_corpus as int)
            + bytes@.subrange(after_corpus as int, after_solutions as int) + bytes@.subrange(
            after_solutions as int,
            end as int,
        ));
        assert(bytes@ =~= spec_enc_checkpoint(
            seed,
            executions,
            queue_pos,
            spec_mopt_scalars(st.mopt),
            spec_corpus_inputs(st.corpus),
            spec_corpus_inputs(st.solutions),
            spec_state_tokens(st),
        ));
        assert(st.mopt.wf());
    }
    Some(st)
}

/// Restart idempotence: a state read back from a checkpoint and
/// re-serialized yields byte-identical output (both sides are the one
/// encoding of the state's checkpoint projection).
pub proof fn lemma_restart_idempotent(
    bytes: Seq<u8>,
    restored: FuzzerState,
    reserialized: Seq<u8>,
)
    requires
        bytes == spec_enc_checkpoint(
            restored.rand.seed,
            restored.executions,
            restored.queue_cycle_pos as u64,
            spec_mopt_scalars(restored.mopt),
            spec_corpus_inputs(restored.corpus),
            spec_corpus_inputs(restored.solutions),
            spec_state_tokens(restored),
        ),
        reserialized == spec_enc_checkpoint(
            restored.rand.seed,
            restored.executions,
            restored.queue_cycle_pos as u64,
            spec_mopt_scalars(restored.mopt),
            spec_corpus_inputs(restored.corpus),
            spec_corpus_inputs(restored.solutions),
            spec_state_tokens(restored),
        ),
    ensures
        reserialized == bytes,
{
}

/// Restarting keeps the schedule: two states whose checkpoints are
/// byte-identical agree on the RNG state, the queue cursor and the corpus
/// count, so both corpus schedulers would pick the same next entry.
#[verifier::rlimit(100)]
pub proof fn lemma_schedule_survives_restart(a: FuzzerState, b: FuzzerState)
    requires
        a.wf(),
        b.wf(),
        spec_enc_checkpoint(
            a.rand.seed,
            a.executions,
            a.queue_cycle_pos as u64,
            spec_mopt_scalars(a.mopt),
            spec_corpus_inputs(a.corpus),
            spec_corpus_inputs(a.solutions),
            spec_state_tokens(a),
        ) == spec_enc_checkpoint(
            b.rand.seed,
            b.executions,
            b.queue_cycle_pos as u64,
            spec_mopt_scalars(b.mopt),
            spec_corpus_inputs(b.corpus),
            spec_corpus_inputs(b.solutions),
            spec_state_tokens(b),
        ),
    ensures
        a.rand.seed == b.rand.seed,
        a.queue_cycle_pos == b.queue_cycle_pos,
        a.corpus.entries@.len() == b.corpus.entries@.len(),
        a.queue_cycle_pos as int % (a.corpus.entries@.len() as int) == b.queue_cycle_pos as int % (
        b.corpus.entries@.len() as int) || a.corpus.entries@.len() == 0,
        crate::rand::spec_xorshift64(a.rand.seed) == crate::rand::spec_xorshift64(b.rand.seed),
{
    let ea = spec_enc_checkpoint(
        a.rand.seed,
        a.executions,
        a.queue_cycle_pos as u64,
        spec_mopt_scalars(a.mopt),
        spec_corpus_inputs(a.corpus),
        spec_corpus_inputs(a.solutions),
        spec_state_tokens(a),
    );
    let eb = spec_enc_checkpoint(
        b.rand.seed,
        b.executions,
        b.queue_cycle_pos as u64,
        spec_mopt_scalars(b.mopt),
        spec_corpus_inputs(b.corpus),
        spec_corpus_inputs(b.solutions),
        spec_state_tokens(b),
    );
    lemma_checkpoint_layout(
        a.rand.seed,
        a.executions,
        a.queue_cycle_pos as u64,
        spec_mopt_scalars(a.mopt),
        spec_corpus_inputs(a.corpus),
        spec_corpus_inputs(a.solutions),
        spec_state_tokens(a),
    );
    lemma_checkpoint_layout(
        b.rand.seed,
        b.executions,
        b.queue_cycle_pos as u64,
        spec_mopt_scalars(b.mopt),
        spec_corpus_inputs(b.corpus),
        spec_corpus_inputs(b.solutions),
        spec_state_tokens(b),
    );
    lemma_u64_le_round_trip(a.rand.seed);
    lemma_u64_le_round_trip(b.rand.seed);
    lemma_u64_le_round_trip(a.queue_cycle_pos as u64);
    lemma_u64_le_round_trip(b.queue_cycle_pos as u64);
    assert(ea.subrange(120, 120 + spec_enc_blobs(spec_corpus_inputs(a.corpus)).len() as int).subrange(
        0,
        8,
    ) =~= spec_u64_le(spec_corpus_inputs(a.corpus).len() as u64));
    assert(ea.subrange(120, 128) =~= spec_u64_le(spec_corpus_inputs(a.corpus).len() as u64));
    assert(eb.subrange(120, 128) =~= spec_u64_le(spec_corpus_inputs(b.corpus).len() as u64));
    lemma_u64_le_round_trip(spec_corpus_inputs(a.corpus).len() as u64);
    lemma_u64_le_round_trip(spec_corpus_inputs(b.corpus).len() as u64);
}

} // verus!
