use vstd::prelude::*;
use crate::serialize::{push_bytes, push_u64_le, spec_enc_bytes, spec_u64_le};

verus! {

/// Tags of the event wire format.
pub const EVENT_TAG_NEW_TESTCASE: u64 = 1;

pub const EVENT_TAG_UPDATE_STATS: u64 = 2;

pub const EVENT_TAG_OBJECTIVE: u64 = 3;

pub const EVENT_TAG_LOG: u64 = 4;

/// Machine limit on the payload pieces an event may carry on the wire.
pub const EVENT_PAYLOAD_LIMIT: usize = 0x1000_0000;

/// Whether an event's payload pieces are below the wire limit.
pub open spec fn spec_event_small(e: Event) -> bool {
    match e {
        Event::NewTestcase { input, metadata_blob } => input@.len() <= EVENT_PAYLOAD_LIMIT
            && metadata_blob@.len() <= EVENT_PAYLOAD_LIMIT,
        Event::UpdateStats { .. } => true,
        Event::Objective { input } => input@.len() <= EVENT_PAYLOAD_LIMIT,
        Event::Log { message, .. } => message@.len() <= EVENT_PAYLOAD_LIMIT,
    }
}

/// An event a fuzzer client reports towards the broker.
#[derive(Clone, Debug)]
pub enum Event {
    /// An interesting input entered the corpus; carries the input bytes
    /// and the serialized metadata.
    NewTestcase { input: Vec<u8>, metadata_blob: Vec<u8> },
    /// Progress counters.
    UpdateStats { executions: u64, corpus_count: u64 },
    /// An input triggered an objective.
    Objective { input: Vec<u8> },
    Log { level: u8, message: Vec<u8> },
}

impl Event {
    pub open spec fn spec_tag(&self) -> u64 {
        match self {
            Event::NewTestcase { .. } => EVENT_TAG_NEW_TESTCASE,
            Event::UpdateStats { .. } => EVENT_TAG_UPDATE_STATS,
            Event::Objective { .. } => EVENT_TAG_OBJECTIVE,
            Event::Log { .. } => EVENT_TAG_LOG,
        }
    }

    /// The payload carried behind the header, length-prefixed per field.
    pub open spec fn spec_payload(&self) -> Seq<u8> {
        match self {
            Event::NewTestcase { input, metadata_blob } => spec_enc_bytes(input@) + spec_enc_bytes(
                metadata_blob@,
            ),
            Event::UpdateStats { executions, corpus_count } => spec_u64_le(*executions)
                + spec_u64_le(*corpus_count),
            Event::Objective { input } => spec_enc_bytes(input@),
            Event::Log { level, message } => seq![*level] + spec_enc_bytes(message@),
        }
    }
}

/// The on-wire form of one event: tag, producer id, sequence number, then
/// the length-prefixed payload.
pub open spec fn spec_enc_event(e: Event, producer: u64, seq_no: u64) -> Seq<u8> {
    spec_u64_le(e.spec_tag()) + spec_u64_le(producer) + spec_u64_le(seq_no) + spec_enc_bytes(
        e.spec_payload(),
    )
}

/// Sink of the events one client produces, and the source of the one
/// control decision the loop acts on. The surrounding program drains the
/// queue towards the broker and may raise the shutdown flag.
#[derive(Clone, Debug)]
pub struct EventManager {
    pub queue: Vec<Event>,
    pub producer_id: u64,
    pub next_seq: u64,
    pub shutting_down: bool,
}

impl EventManager {
    /// Every queued event fits on the wire.
    pub open spec fn wf(&self) -> bool {
        forall|i: int| 0 <= i < self.queue@.len() ==> spec_event_small(#[trigger] self.queue@[i])
    }

    pub fn new(producer_id: u64) -> (r: Self)
        ensures
            r.wf(),
            r.queue@.len() == 0,
            r.producer_id == producer_id,
            r.next_seq == 0,
            r.shutting_down == false,
    {
        EventManager { queue: Vec::new(), producer_id, next_seq: 0, shutting_down: false }
    }

    /// Queues one event. A queue grown past the machine limit drops the
    /// event instead of growing.
    pub fn fire(&mut self, event: Event)
        requires
            spec_event_small(event),
        ensures
            old(self).wf() ==> final(self).wf(),
            old(self).queue@.len() < usize::MAX ==> final(self).queue@ == old(self).queue@.push(
                event,
            ),
            old(self).queue@.len() == usize::MAX ==> final(self).queue@ == old(self).queue@,
            final(self).producer_id == old(self).producer_id,
            final(self).next_seq == old(self).next_seq,
            final(self).shutting_down == old(self).shutting_down,
    {
        if self.queue.len() < usize::MAX {
            self.queue.push(event);
        }
    }

    /// Whether the parent asked this child to wind down.
    pub fn should_shutdown(&self) -> (r: bool)
        ensures
            r == self.shutting_down,
    {
        self.shutting_down
    }

    pub fn request_shutdown(&mut self)
        ensures
            *final(self) == (EventManager { shutting_down: true, ..*old(self) }),
    {
        self.shutting_down = true;
    }

    /// Hands the oldest queued event out, encoded for the wire, consuming
    /// one sequence number; `None` exactly when the queue is empty or the
    /// sequence numbers are exhausted.
    pub fn pop_encoded(&mut self) -> (r: Option<Vec<u8>>)
        requires
            old(self).wf(),
        ensures
            final(self).wf(),
            match r {
                Some(bytes) => {
                    &&& old(self).queue@.len() > 0
                    &&& old(self).next_seq < u64::MAX
                    &&& final(self).queue@ == old(self).queue@.skip(1)
                    &&& final(self).next_seq == old(self).next_seq + 1
                    &&& bytes@ == spec_enc_event(
                        old(self).queue@[0],
                        old(self).producer_id,
                        old(self).next_seq,
                    )
                },
                None => (old(self).queue@.len() == 0 || old(self).next_seq == u64::MAX)
                    && *final(self) == *old(self),
            },
            final(self).producer_id == old(self).producer_id,
            final(self).shutting_down == old(self).shutting_down,
    {
        if self.queue.len() == 0 || self.next_seq == u64::MAX {
            return None;
        }
        let event = self.queue.remove(0);
        let seq_no = self.next_seq;
        self.next_seq = self.next_seq + 1;
        let mut out: Vec<u8> = Vec::new();
        let tag: u64 = match &event {
            Event::NewTestcase { .. } => EVENT_TAG_NEW_TESTCASE,
            Event::UpdateStats { .. } => EVENT_TAG_UPDATE_STATS,
            Event::Objective { .. } => EVENT_TAG_OBJECTIVE,
            Event::Log { .. } => EVENT_TAG_LOG,
        };
        push_u64_le(&mut out, tag);
        push_u64_le(&mut out, self.producer_id);
        push_u64_le(&mut out, seq_no);
        let mut payload: Vec<u8> = Vec::new();
        match &event {
            Event::NewTestcase { input, metadata_blob } => {
                push_bytes(&mut payload, input);
                push_bytes(&mut payload, metadata_blob);
            },
            Event::UpdateStats { executions, corpus_count } => {
                push_u64_le(&mut payload, *executions);
                push_u64_le(&mut payload, *corpus_count);
            },
            Event::Objective { input } => {
                push_bytes(&mut payload, input);
            },
            Event::Log { level, message } => {
                payload.push(*level);
                push_bytes(&mut payload, message);
            },
        }
        push_bytes(&mut out, &payload);
        proof {
            assert(self.queue@ =~= old(self).queue@.skip(1));
            assert(payload@ =~= old(self).queue@[0].spec_payload());
            assert(out@ =~= spec_enc_event(
                old(self).queue@[0],
                old(self).producer_id,
                old(self).next_seq,
            ));
        }
        Some(out)
    }
}

} // verus!
