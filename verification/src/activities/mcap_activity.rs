//! Replay of a recorded message log.
//!
//! The bridge owns the records of one log and a cursor over them. Each step
//! takes the next record, reads its payload as a JSON document and hands back
//! the compact text of that document for the application to forward. Where
//! there is no record left, or the record cannot be read, the step hands back
//! a fixed sentinel instead.
//!
//! The log is read once, at construction.

use crate::activities::mcap_log::{
    is_container, log_records, read_records, records_view, starts_with_magic, LogRecord,
};
use crate::ids::ActivityId;
use serde_json::Value;
use vstd::prelude::*;

verus! {

/// A JSON document of `serde_json`. Its content is not visible here; a
/// document is only carried from the reader to the writer.
#[verifier::external_type_specification]
#[verifier::external_body]
pub struct ExValue(Value);

/// The error of `serde_json`.
#[verifier::external_type_specification]
#[verifier::external_body]
pub struct ExJsonError(serde_json::Error);

/// Path of the log that the bridge of this application replays.
pub const MCAP_LOG_PATH: &'static str = "feo/ad-demo/src/assets/gps_route.mcap";

/// The local endpoint to which the application forwards what a step hands back.
pub const FORWARD_ENDPOINT: &'static str = "127.0.0.1:9001";

/// What a step hands back where it has no document to forward.
pub const END_OF_LOG: &'static str = "no message left";

/// The document that `serde_json::from_slice` reads from `payload`, or `None`
/// where it reads none.
pub uninterp spec fn json_document(payload: Seq<u8>) -> Option<Value>;

/// The text that `serde_json::to_string` writes for `document`, or `None`
/// where it writes none.
pub uninterp spec fn json_text(document: Value) -> Option<Seq<char>>;

/// `serde_json::from_slice` at the document type: reads `payload` as one JSON
/// document. What it reads depends on the bytes alone.
#[verifier::external_body]
fn parse_json(payload: &[u8]) -> (document: Result<Value, serde_json::Error>)
    ensures
        match document {
            Ok(document) => json_document(payload@) == Some(document),
            Err(_) => json_document(payload@) is None,
        },
{
    serde_json::from_slice(payload)
}

/// `serde_json::to_string` on a document: its compact text. What it writes
/// depends on the document alone.
#[verifier::external_body]
fn write_json(document: &Value) -> (text: Result<String, serde_json::Error>)
    ensures
        match text {
            Ok(text) => json_text(*document) == Some(text@),
            Err(_) => json_text(*document) is None,
        },
{
    serde_json::to_string(document)
}

/// Why the bridge has no document.
#[derive(Clone, Copy, Debug, PartialEq, Eq, Structural)]
pub enum ReplayError {
    /// The bytes are not a log container: they do not open with its magic.
    UnreadableLog,
    /// The payload of a record is not a JSON document.
    InvalidPayload,
}

impl ReplayError {
    /// A description of the error.
    pub fn message(&self) -> (text: &'static str)
        ensures
            text@ == match *self {
                ReplayError::UnreadableLog => "The bytes are not a log container"@,
                ReplayError::InvalidPayload => "Failed to convert msg data as JSON"@,
            },
    {
        match self {
            ReplayError::UnreadableLog => "The bytes are not a log container",
            ReplayError::InvalidPayload => "Failed to convert msg data as JSON",
        }
    }
}

/// What remains of a sequence of records once its first record is taken.
pub open spec fn advanced(remaining: Seq<Option<Seq<u8>>>) -> Seq<Option<Seq<u8>>> {
    if remaining.len() == 0 {
        remaining
    } else {
        remaining.skip(1)
    }
}

/// The payload of the first of the remaining records, if there is a record
/// and it could be read.
pub open spec fn next_payload(remaining: Seq<Option<Seq<u8>>>) -> Option<Seq<u8>> {
    if remaining.len() == 0 {
        None
    } else {
        remaining[0]
    }
}

/// The message that a payload holds: its document, or an error where the
/// payload is not a JSON document. No payload holds no message.
pub open spec fn decoded(payload: Option<Seq<u8>>) -> Result<Option<Value>, ReplayError> {
    match payload {
        None => Ok(None),
        Some(payload) => match json_document(payload) {
            Some(document) => Ok(Some(document)),
            None => Err(ReplayError::InvalidPayload),
        },
    }
}

/// The text of a message, if it is a document that has one.
pub open spec fn rendered(message: Result<Option<Value>, ReplayError>) -> Option<Seq<char>> {
    match message {
        Ok(Some(document)) => json_text(document),
        _ => None,
    }
}

/// What is forwarded for a text: the text, or the sentinel in its place.
pub open spec fn forwarded(text: Option<Seq<char>>) -> Seq<char> {
    match text {
        Some(text) => text,
        None => END_OF_LOG@,
    }
}

/// What a step forwards for the record that it takes: the text of the
/// document in its payload, or the sentinel.
pub open spec fn record_output(record: Option<Seq<u8>>) -> Seq<char> {
    forwarded(rendered(decoded(record)))
}

/// What a step forwards when `remaining` are the records that it finds.
pub open spec fn step_output(remaining: Seq<Option<Seq<u8>>>) -> Seq<char> {
    record_output(next_payload(remaining))
}

/// The text to forward: `text` itself, or the sentinel where there is none.
pub fn forward_text(text: Option<String>) -> (output: String)
    ensures
        output@ == forwarded(
            match text {
                Some(text) => Some(text@),
                None => None,
            },
        ),
{
    match text {
        Some(text) => text,
        None => END_OF_LOG.to_owned(),
    }
}

/// Mcap activity
///
/// This activity replays the messages of a recorded log, one per step, as
/// compact JSON text to be forwarded to a TCP server.
#[derive(Debug)]
pub struct Mcap {
    activity_id: ActivityId,
    records: Vec<LogRecord>,
    cursor: usize,
}

/// The mathematical value of an [`Mcap`].
pub struct McapView {
    /// The identifier of the activity.
    pub activity_id: ActivityId,
    /// The records that the bridge has not replayed yet, in order.
    pub remaining: Seq<Option<Seq<u8>>>,
}

impl View for Mcap {
    type V = McapView;

    closed spec fn view(&self) -> McapView {
        McapView {
            activity_id: self.activity_id,
            remaining: records_view(self.records@).skip(self.cursor as int),
        }
    }
}

impl Mcap {
    #[verifier::type_invariant]
    spec fn cursor_in_bounds(self) -> bool {
        self.cursor <= self.records.len()
    }

    /// A bridge that replays `records` from the first.
    pub fn from_records(activity_id: ActivityId, records: Vec<LogRecord>) -> (bridge: Mcap)
        ensures
            bridge@ == (McapView { activity_id, remaining: records_view(records@) }),
    {
        let bridge = Mcap { activity_id, records, cursor: 0 };
        assert(bridge@.remaining =~= records_view(records@));
        bridge
    }

    /// A bridge that replays the messages of `log` from the first, or
    /// [`ReplayError::UnreadableLog`] where `log` is no log container.
    pub fn build(activity_id: ActivityId, log: &[u8]) -> (bridge: Result<Mcap, ReplayError>)
        ensures
            bridge is Ok <==> is_container(log@),
            match bridge {
                Ok(bridge) => bridge@ == (McapView { activity_id, remaining: log_records(log@) }),
                Err(error) => error == ReplayError::UnreadableLog,
            },
    {
        if starts_with_magic(log) {
            Ok(Mcap::from_records(activity_id, read_records(log)))
        } else {
            Err(ReplayError::UnreadableLog)
        }
    }

    /// Takes the next record: hands out its payload, if there is a record and
    /// it could be read, and moves the cursor past it.
    pub fn next_record(&mut self) -> (payload: Option<&Vec<u8>>)
        ensures
            final(self)@.activity_id == old(self)@.activity_id,
            final(self)@.remaining == advanced(old(self)@.remaining),
            match payload {
                Some(payload) => next_payload(old(self)@.remaining) == Some(payload@),
                None => next_payload(old(self)@.remaining) is None,
            },
    {
        proof {
            use_type_invariant(&*self);
        }
        if self.cursor < self.records.len() {
            let at = self.cursor;
            self.cursor = at + 1;
            proof {
                assert(self@.remaining =~= old(self)@.remaining.skip(1));
            }
            self.records[at].as_ref()
        } else {
            None
        }
    }

    /// Takes the next record and reads its payload as a JSON document.
    ///
    /// Answers `Ok(None)` where no record is left or the record could not be
    /// read, and an error where the payload is not a JSON document. The
    /// cursor moves past the record in each case.
    pub fn get_single_msg(&mut self) -> (message: Result<Option<Value>, ReplayError>)
        ensures
            final(self)@.activity_id == old(self)@.activity_id,
            final(self)@.remaining == advanced(old(self)@.remaining),
            message == decoded(next_payload(old(self)@.remaining)),
    {
        match self.next_record() {
            Some(payload) => match parse_json(payload.as_slice()) {
                Ok(document) => Ok(Some(document)),
                Err(_) => Err(ReplayError::InvalidPayload),
            },
            None => Ok(None),
        }
    }

    /// The identifier of the activity.
    pub fn id(&self) -> (id: ActivityId)
        ensures
            id == self@.activity_id,
    {
        self.activity_id
    }

    /// Prepares the bridge for stepping. The log was read at construction;
    /// nothing is left to do.
    pub fn startup(&mut self)
        ensures
            *final(self) == *old(self),
    {
    }

    /// Replays one record: hands back the compact JSON text of the next
    /// record's payload, or the sentinel where there is no such text, and
    /// moves the cursor past the record.
    pub fn step(&mut self) -> (output: String)
        ensures
            final(self)@.activity_id == old(self)@.activity_id,
            final(self)@.remaining == advanced(old(self)@.remaining),
            output@ == step_output(old(self)@.remaining),
    {
        let text = match self.get_single_msg() {
            Ok(Some(document)) => match write_json(&document) {
                Ok(text) => Some(text),
                Err(_) => None,
            },
            _ => None,
        };
        forward_text(text)
    }

    /// Releases the records. A bridge that was shut down has nothing left to
    /// replay.
    pub fn shutdown(&mut self)
        ensures
            final(self)@.activity_id == old(self)@.activity_id,
            final(self)@.remaining == Seq::<Option<Seq<u8>>>::empty(),
    {
        self.cursor = 0;
        self.records = Vec::new();
        assert(self@.remaining =~= Seq::<Option<Seq<u8>>>::empty());
    }
}

/// What the bridge finds after `steps` steps, if it found `remaining` before
/// the first of them.
pub open spec fn after_steps(remaining: Seq<Option<Seq<u8>>>, steps: nat) -> Seq<Option<Seq<u8>>>
    decreases steps,
{
    if steps == 0 {
        remaining
    } else {
        advanced(after_steps(remaining, (steps - 1) as nat))
    }
}

/// At the end of the log a step forwards the sentinel and leaves the bridge
/// at the end of the log: every later step does the same.
pub proof fn lemma_end_of_log_is_final(remaining: Seq<Option<Seq<u8>>>)
    requires
        remaining.len() == 0,
    ensures
        step_output(remaining) == END_OF_LOG@,
        advanced(remaining) == remaining,
{
}

/// A record that could not be read, or whose payload is not a JSON document,
/// is answered with the sentinel.
pub proof fn lemma_unreadable_record_gives_sentinel(record: Option<Seq<u8>>)
    requires
        record matches Some(payload) ==> json_document(payload) is None,
    ensures
        record_output(record) == END_OF_LOG@,
{
}

/// Steps follow the log: each step consumes exactly one record, readable or
/// not, so the step after `steps` earlier ones answers for the record at
/// position `steps`, and every step past the last record forwards the
/// sentinel.
pub proof fn lemma_steps_follow_the_log(remaining: Seq<Option<Seq<u8>>>, steps: nat)
    ensures
        after_steps(remaining, steps) == if steps <= remaining.len() {
            remaining.skip(steps as int)
        } else {
            Seq::<Option<Seq<u8>>>::empty()
        },
        step_output(after_steps(remaining, steps)) == if steps < remaining.len() {
            record_output(remaining[steps as int])
        } else {
            END_OF_LOG@
        },
    decreases steps,
{
    if steps > 0 {
        lemma_steps_follow_the_log(remaining, (steps - 1) as nat);
        if steps <= remaining.len() {
            assert(remaining.skip(steps - 1).skip(1) =~= remaining.skip(steps as int));
        } else {
            assert(remaining.skip(remaining.len() as int) =~= Seq::<Option<Seq<u8>>>::empty());
        }
    } else {
        assert(remaining.skip(0) =~= remaining);
    }
}

} // verus!
