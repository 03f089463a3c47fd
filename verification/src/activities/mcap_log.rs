//! Reading a recorded message log.
//!
//! The record reader of `mcap` frames the log into records and unpacks
//! compressed chunks. Which records are messages, where their payload
//! starts, and how records stand in a chunk that is not compressed is
//! decided here, on the bytes.
//!
//! The reader is used in two ways, and in no other. The reader of a log
//! hands out every chunk whole. A chunk that names a compression then goes
//! to a reader of its own, which unpacks it; a chunk that names none is
//! walked here and never handed to a reader for unpacking. Every reader has
//! a limit on the length of a record, and no reader is asked for another
//! event once it has failed.
//!
//! # How this differs from `mcap::MessageStream`
//!
//! On a log that a writer of `mcap` produced, what is replayed here is what
//! the message stream of `mcap` yields. On other bytes the two part:
//!
//! - bytes that do not open with the magic are refused when a bridge is
//!   built on them, where the stream is made without failing and reports
//!   the missing magic as its first item;
//! - a message on a channel that no earlier record declared is replayed,
//!   where the stream reports an error for it: only payloads are read
//!   here, and channels and schemas are not linked;
//! - records that declare a schema or a channel twice in different ways
//!   raise no error here;
//! - a message record that stands after the record that ends the data is
//!   replayed, where the stream passes over it;
//! - a damaged chunk, or a message record shorter than its header, gives
//!   one unreadable item and the replay goes on behind it, where the
//!   stream ends at its first error;
//! - a record or a chunk longer than [`MAX_RECORD_LEN`] ends the replay,
//!   where the stream has no such limit.

use mcap::sans_io::{LinearReadEvent, LinearReader, LinearReaderOptions};
use vstd::prelude::*;

verus! {

/// The record reader of `mcap`. It does no input of its own: it is handed
/// bytes and hands out the records that they frame, chunks unpacked. Its
/// state is not visible here.
#[verifier::external_type_specification]
#[verifier::external_body]
pub struct ExLinearReader(LinearReader);

/// Number of bytes of the magic that opens a log.
pub const MAGIC_LEN: usize = 8;

/// Opcode of a message record.
pub const OP_MESSAGE: u8 = 0x05;

/// Number of bytes in a message record before its payload: the channel, the
/// sequence number and the two timestamps.
pub const MESSAGE_HEADER_LEN: usize = 22;

/// Opcode of a chunk record.
pub const OP_CHUNK: u8 = 0x06;

/// Number of bytes before the body of a record: its opcode and its length.
pub const RECORD_HEADER_LEN: usize = 9;

/// Number of bytes in the header of a chunk whose compression is not named:
/// two timestamps, the size and the checksum of the unpacked records, the
/// length of the compression's name, and the size of the records.
pub const CHUNK_HEADER_LEN: usize = 40;

/// Where in a chunk the length of the compression's name stands.
pub const CHUNK_COMPRESSION_AT: usize = 28;

/// The longest record that the reader is allowed to hand out.
pub const MAX_RECORD_LEN: usize = 0x4000_0000;

/// One item of a replay: the payload of a message, or `None` for an item
/// that could not be read.
pub type LogRecord = Option<Vec<u8>>;

/// The value of a record.
pub open spec fn record_view(record: LogRecord) -> Option<Seq<u8>> {
    match record {
        Some(payload) => Some(payload@),
        None => None,
    }
}

/// The value of a sequence of records.
pub open spec fn records_view(records: Seq<LogRecord>) -> Seq<Option<Seq<u8>>> {
    records.map_values(|record: LogRecord| record_view(record))
}

/// The magic that opens a log.
pub open spec fn magic() -> Seq<u8> {
    seq![0x89u8, 0x4du8, 0x43u8, 0x41u8, 0x50u8, 0x30u8, 0x0du8, 0x0au8]
}

/// Whether `log` is a log container: whether it opens with the magic.
pub open spec fn is_container(log: Seq<u8>) -> bool {
    log.len() >= MAGIC_LEN && log.subrange(0, MAGIC_LEN as int) == magic()
}

/// What the reader hands out when asked for its next event.
#[derive(Debug, PartialEq, Eq)]
pub enum ReadEvent {
    /// A record: its opcode and its body.
    Record { opcode: u8, body: Vec<u8> },
    /// The reader wants more bytes before it can go on.
    NeedInput,
    /// The bytes are not a log: the reader gives up.
    Failed,
    /// The log is at its end.
    Finished,
}

/// The mathematical value of a [`ReadEvent`].
pub enum ReadEventView {
    Record { opcode: u8, body: Seq<u8> },
    NeedInput,
    Failed,
    Finished,
}

impl View for ReadEvent {
    type V = ReadEventView;

    open spec fn view(&self) -> ReadEventView {
        match *self {
            ReadEvent::Record { opcode, body } => ReadEventView::Record { opcode, body: body@ },
            ReadEvent::NeedInput => ReadEventView::NeedInput,
            ReadEvent::Failed => ReadEventView::Failed,
            ReadEvent::Finished => ReadEventView::Finished,
        }
    }
}

/// The reader that `LinearReader::new_with_options` makes for the default
/// options with the record length limit `limit`, with whole chunks handed
/// out if `emit_chunks`, and with no magic expected at either end if
/// `skip_magic`.
pub uninterp spec fn reader_opened(limit: usize, emit_chunks: bool, skip_magic: bool) -> LinearReader;

/// Whether `reader` was made to unpack chunks itself, not to hand them out
/// whole.
pub uninterp spec fn reader_unpacks(reader: LinearReader) -> bool;

/// Whether `LinearReader::next_event` has handed out an error in a state
/// that led to `reader`. A reader that failed is in no state to go on from.
pub uninterp spec fn reader_failed(reader: LinearReader) -> bool;

/// The reader after it was handed `bytes`; no bytes tell it that the input is
/// at its end.
pub uninterp spec fn reader_fed(reader: LinearReader, bytes: Seq<u8>) -> LinearReader;

/// The event that `LinearReader::next_event` hands out in the state `reader`.
pub uninterp spec fn reader_event(reader: LinearReader) -> ReadEventView;

/// The reader after `LinearReader::next_event` in the state `reader`.
pub uninterp spec fn reader_advanced(reader: LinearReader) -> LinearReader;

/// `LinearReader::new_with_options` on the default options with four of them
/// set: a reader at the start of its input that refuses every record longer
/// than `limit`, and that unpacks chunks itself unless `emit_chunks`. The
/// limit is bounded, so that the reader's sums of a length and a record's
/// header stay in range.
#[verifier::external_body]
fn open_reader(limit: usize, emit_chunks: bool, skip_magic: bool) -> (reader: LinearReader)
    requires
        limit <= MAX_RECORD_LEN,
    ensures
        reader == reader_opened(limit, emit_chunks, skip_magic),
        reader_unpacks(reader) == !emit_chunks,
        !reader_failed(reader),
{
    LinearReader::new_with_options(
        LinearReaderOptions::default()
            .with_record_length_limit(limit)
            .with_emit_chunks(emit_chunks)
            .with_skip_start_magic(skip_magic)
            .with_skip_end_magic(skip_magic),
    )
}

/// What a reader that unpacks chunks may be handed: nothing, or one chunk
/// that names a compression, framed as a record.
pub open spec fn is_compressed_chunk(bytes: Seq<u8>) -> bool {
    bytes.len() == 0 || exists|chunk: Seq<u8>|
        chunk_is_compressed(chunk) && bytes == #[trigger] framed(OP_CHUNK, chunk)
}

/// `LinearReader::insert` and `LinearReader::notify_read`: hands `bytes` to
/// the reader. The reader that results depends on the reader before and on
/// the bytes alone, and handing it bytes neither makes it fail nor mends it.
///
/// A reader that unpacks chunks is handed compressed chunks only. In a chunk
/// that names no compression such a reader trusts the lengths of the
/// records, and a record that overruns its chunk takes its count of the
/// bytes left out of range. The demand keeps a reader that has not failed
/// from meeting such a chunk; a reader that has failed may stand anywhere
/// in what it was handed, and it is [`next_event`] that leaves it out.
#[verifier::external_body]
fn feed_reader(reader: &mut LinearReader, bytes: &[u8])
    requires
        reader_unpacks(*old(reader)) ==> is_compressed_chunk(bytes@),
    ensures
        *final(reader) == reader_fed(*old(reader), bytes@),
        reader_unpacks(*final(reader)) == reader_unpacks(*old(reader)),
        reader_failed(*final(reader)) == reader_failed(*old(reader)),
{
    reader.insert(bytes.len()).copy_from_slice(bytes);
    reader.notify_read(bytes.len());
}

/// `LinearReader::next_event`: the next event of the reader. The event and
/// the reader that results depend on the reader before alone. A record is
/// handed out as its opcode and its bytes, unparsed.
///
/// The reader must not have failed before. An error leaves it wherever it
/// stood in its input: past the header of a chunk whose compression it does
/// not know, it would take the bytes behind for the next header and could
/// walk them as a chunk that names no compression.
#[verifier::external_body]
fn next_event(reader: &mut LinearReader) -> (event: ReadEvent)
    requires
        !reader_failed(*old(reader)),
    ensures
        event@ == reader_event(*old(reader)),
        *final(reader) == reader_advanced(*old(reader)),
        reader_unpacks(*final(reader)) == reader_unpacks(*old(reader)),
        reader_failed(*final(reader)) == (event@ is Failed),
{
    match reader.next_event() {
        Some(Ok(LinearReadEvent::Record { data, opcode })) => ReadEvent::Record {
            opcode,
            body: data.to_vec(),
        },
        Some(Ok(LinearReadEvent::ReadRequest(_))) => ReadEvent::NeedInput,
        Some(Err(_)) => ReadEvent::Failed,
        None => ReadEvent::Finished,
    }
}

/// The number that four bytes of `bytes` from `at` on encode, least
/// significant byte first.
pub open spec fn le_u32(bytes: Seq<u8>, at: int) -> nat {
    (bytes[at] + 0x100 * bytes[at + 1] + 0x1_0000 * bytes[at + 2] + 0x100_0000 * bytes[at
        + 3]) as nat
}

/// The number that eight bytes of `bytes` from `at` on encode, least
/// significant byte first.
pub open spec fn le_u64(bytes: Seq<u8>, at: int) -> nat {
    le_u32(bytes, at) + 0x1_0000_0000 * le_u32(bytes, at + 4)
}

/// The eight bytes that encode `value`, least significant byte first.
pub open spec fn u64_le(value: u64) -> Seq<u8> {
    seq![
        (value % 0x100) as u8,
        (value / 0x100 % 0x100) as u8,
        (value / 0x1_0000 % 0x100) as u8,
        (value / 0x100_0000 % 0x100) as u8,
        (value / 0x1_0000_0000 % 0x100) as u8,
        (value / 0x100_0000_0000 % 0x100) as u8,
        (value / 0x1_0000_0000_0000 % 0x100) as u8,
        (value / 0x100_0000_0000_0000 % 0x100) as u8,
    ]
}

/// A record as it stands in a log: its opcode, the length of its body and
/// its body.
pub open spec fn framed(opcode: u8, body: Seq<u8>) -> Seq<u8> {
    seq![opcode] + u64_le(body.len() as u64) + body
}

/// What a record adds to the replay if it is a message record: an
/// unreadable item, where it is too short for its header, and its payload
/// otherwise.
pub open spec fn message_of(opcode: u8, body: Seq<u8>) -> Option<Option<Seq<u8>>> {
    if opcode != OP_MESSAGE {
        None
    } else if body.len() < MESSAGE_HEADER_LEN {
        Some(None)
    } else {
        Some(Some(body.skip(MESSAGE_HEADER_LEN as int)))
    }
}

/// The items of a record that is handed out from inside a chunk: its
/// payload if it is a message record, nothing otherwise.
pub open spec fn message_items(opcode: u8, body: Seq<u8>) -> Seq<Option<Seq<u8>>> {
    match message_of(opcode, body) {
        Some(item) => seq![item],
        None => Seq::empty(),
    }
}

/// Whether the chunk with the body `chunk` names a compression.
pub open spec fn chunk_is_compressed(chunk: Seq<u8>) -> bool {
    chunk.len() >= CHUNK_HEADER_LEN && le_u32(chunk, CHUNK_COMPRESSION_AT as int) > 0
}

/// The records of a chunk that names no compression, as they stand in it,
/// or `None` where the chunk is shorter than its header or than the size
/// that it gives for its records.
pub open spec fn chunk_records(chunk: Seq<u8>) -> Option<Seq<u8>> {
    if chunk.len() < CHUNK_HEADER_LEN {
        None
    } else {
        let size = le_u64(chunk, CHUNK_HEADER_LEN - 8);
        if size > chunk.len() - CHUNK_HEADER_LEN {
            None
        } else {
            Some(chunk.subrange(CHUNK_HEADER_LEN as int, CHUNK_HEADER_LEN + size))
        }
    }
}

/// What is replayed from records that stand one behind the other in
/// `records`: the payload of every message record, in order, and one
/// unreadable item, at which the walk ends, where the bytes left are
/// shorter than a record's header or than the length that it gives.
pub open spec fn inner_items(records: Seq<u8>) -> Seq<Option<Seq<u8>>>
    decreases records.len(),
{
    if records.len() == 0 {
        Seq::empty()
    } else if records.len() < RECORD_HEADER_LEN {
        seq![None]
    } else {
        let len = le_u64(records, 1);
        if len > records.len() - RECORD_HEADER_LEN {
            seq![None]
        } else {
            message_items(records[0], records.subrange(RECORD_HEADER_LEN as int, RECORD_HEADER_LEN + len))
                + inner_items(records.skip(RECORD_HEADER_LEN + len))
        }
    }
}

/// What is replayed, within `fuel` events, from a reader in the state
/// `reader` that unpacks one chunk: the payload of every message record
/// that it hands out, in order, and one unreadable item where it fails. A
/// reader that wants more bytes is told that there are none.
pub open spec fn drained_chunk(reader: LinearReader, fuel: nat) -> Seq<Option<Seq<u8>>>
    decreases fuel,
{
    if fuel == 0 {
        Seq::empty()
    } else {
        let rest = (fuel - 1) as nat;
        match reader_event(reader) {
            ReadEventView::Finished => Seq::empty(),
            ReadEventView::Failed => seq![None],
            ReadEventView::NeedInput => drained_chunk(
                reader_fed(reader_advanced(reader), Seq::empty()),
                rest,
            ),
            ReadEventView::Record { opcode, body } => message_items(opcode, body) + drained_chunk(
                reader_advanced(reader),
                rest,
            ),
        }
    }
}

/// What is replayed from the chunk with the body `chunk`. A chunk that
/// names a compression is handed, framed as a record, to a reader of its
/// own that unpacks it. A chunk that names none is walked here; where it is
/// damaged it gives one unreadable item.
pub open spec fn chunk_items(chunk: Seq<u8>) -> Seq<Option<Seq<u8>>> {
    if chunk_is_compressed(chunk) {
        drained_chunk(
            reader_fed(reader_opened(MAX_RECORD_LEN, false, true), framed(OP_CHUNK, chunk)),
            usize::MAX as nat,
        )
    } else {
        match chunk_records(chunk) {
            Some(records) => inner_items(records),
            None => seq![None],
        }
    }
}

/// What a record of the log adds to the replay: its payload, if it is a
/// message record; the messages in it, if it is a chunk; nothing otherwise.
pub open spec fn record_items(opcode: u8, body: Seq<u8>) -> Seq<Option<Seq<u8>>> {
    if opcode == OP_CHUNK {
        chunk_items(body)
    } else {
        message_items(opcode, body)
    }
}

/// What is replayed, within `fuel` events, from a reader in the state
/// `reader` that hands out the records of a log with its chunks whole: the
/// items of every record, in order, and one unreadable item where the
/// reader fails. A reader that wants more bytes is told that there are none.
pub open spec fn drained(reader: LinearReader, fuel: nat) -> Seq<Option<Seq<u8>>>
    decreases fuel,
{
    if fuel == 0 {
        Seq::empty()
    } else {
        let rest = (fuel - 1) as nat;
        match reader_event(reader) {
            ReadEventView::Finished => Seq::empty(),
            ReadEventView::Failed => seq![None],
            ReadEventView::NeedInput => drained(
                reader_fed(reader_advanced(reader), Seq::empty()),
                rest,
            ),
            ReadEventView::Record { opcode, body } => record_items(opcode, body) + drained(
                reader_advanced(reader),
                rest,
            ),
        }
    }
}

/// What is replayed from the log `log`: what a fresh reader that was handed
/// the whole log gives.
pub open spec fn log_records(log: Seq<u8>) -> Seq<Option<Seq<u8>>> {
    drained(reader_fed(reader_opened(MAX_RECORD_LEN, true, false), log), usize::MAX as nat)
}

/// Records one behind the other give the items of the first, then those of
/// the rest.
pub proof fn lemma_records_view_concat(first: Seq<LogRecord>, second: Seq<LogRecord>)
    ensures
        records_view(first + second) == records_view(first) + records_view(second),
{
    assert(records_view(first + second) =~= records_view(first) + records_view(second));
}

/// Whether `log` opens with the magic of a log container.
pub fn starts_with_magic(log: &[u8]) -> (found: bool)
    ensures
        found == is_container(log@),
{
    if log.len() < MAGIC_LEN {
        return false;
    }
    let found = log[0] == 0x89 && log[1] == 0x4d && log[2] == 0x43 && log[3] == 0x41 && log[4]
        == 0x50 && log[5] == 0x30 && log[6] == 0x0d && log[7] == 0x0a;
    proof {
        let head = log@.subrange(0, MAGIC_LEN as int);
        if found {
            assert(head =~= magic());
        } else {
            assert(head[0] == log@[0] && head[1] == log@[1] && head[2] == log@[2] && head[3]
                == log@[3] && head[4] == log@[4] && head[5] == log@[5] && head[6] == log@[6]
                && head[7] == log@[7]);
        }
    }
    found
}

/// The number that the four bytes from `at` on encode.
pub fn read_u32(bytes: &Vec<u8>, at: usize) -> (value: u32)
    requires
        at + 4 <= bytes.len(),
    ensures
        value == le_u32(bytes@, at as int),
{
    let b0: u32 = bytes[at] as u32;
    let b1: u32 = bytes[at + 1] as u32;
    let b2: u32 = bytes[at + 2] as u32;
    let b3: u32 = bytes[at + 3] as u32;
    b0 + 0x100 * b1 + 0x1_0000 * b2 + 0x100_0000 * b3
}

/// The number that the eight bytes from `at` on encode.
pub fn read_u64(bytes: &Vec<u8>, at: usize) -> (value: u64)
    requires
        at + 8 <= bytes.len(),
    ensures
        value == le_u64(bytes@, at as int),
{
    let low: u64 = read_u32(bytes, at) as u64;
    let high: u64 = read_u32(bytes, at + 4) as u64;
    low + 0x1_0000_0000 * high
}

/// The bytes of `bytes` from `from` up to `to`.
pub fn copy_range(bytes: &Vec<u8>, from: usize, to: usize) -> (copy: Vec<u8>)
    requires
        from <= to <= bytes.len(),
    ensures
        copy@ == bytes@.subrange(from as int, to as int),
{
    let mut copy: Vec<u8> = Vec::new();
    let mut at: usize = from;
    while at < to
        invariant
            from <= at <= to <= bytes.len(),
            copy@ == bytes@.subrange(from as int, at as int),
        decreases to - at,
    {
        copy.push(bytes[at]);
        at += 1;
        assert(copy@ =~= bytes@.subrange(from as int, at as int));
    }
    copy
}

/// A record as it stands in a log: see [`framed`].
pub fn frame_record(opcode: u8, body: &Vec<u8>) -> (bytes: Vec<u8>)
    ensures
        bytes@ == framed(opcode, body@),
{
    let len: u64 = body.len() as u64;
    let mut bytes: Vec<u8> = Vec::new();
    bytes.push(opcode);
    bytes.push((len % 0x100) as u8);
    bytes.push((len / 0x100 % 0x100) as u8);
    bytes.push((len / 0x1_0000 % 0x100) as u8);
    bytes.push((len / 0x100_0000 % 0x100) as u8);
    bytes.push((len / 0x1_0000_0000 % 0x100) as u8);
    bytes.push((len / 0x100_0000_0000 % 0x100) as u8);
    bytes.push((len / 0x1_0000_0000_0000 % 0x100) as u8);
    bytes.push((len / 0x100_0000_0000_0000 % 0x100) as u8);
    assert(bytes@ =~= seq![opcode] + u64_le(body@.len() as u64));
    let mut at: usize = 0;
    while at < body.len()
        invariant
            at <= body.len(),
            bytes@ == seq![opcode] + u64_le(body@.len() as u64) + body@.take(at as int),
        decreases body.len() - at,
    {
        bytes.push(body[at]);
        at += 1;
        assert(bytes@ =~= seq![opcode] + u64_le(body@.len() as u64) + body@.take(at as int));
    }
    assert(body@.take(at as int) =~= body@);
    bytes
}

/// What a record adds to the replay if it is a message record: see
/// [`message_of`].
pub fn message_payload(opcode: u8, body: &Vec<u8>) -> (item: Option<LogRecord>)
    ensures
        match item {
            Some(record) => message_of(opcode, body@) == Some(record_view(record)),
            None => message_of(opcode, body@) is None,
        },
{
    if opcode != OP_MESSAGE {
        None
    } else if body.len() < MESSAGE_HEADER_LEN {
        Some(None)
    } else {
        let payload = copy_range(body, MESSAGE_HEADER_LEN, body.len());
        assert(payload@ =~= body@.skip(MESSAGE_HEADER_LEN as int));
        Some(Some(payload))
    }
}

/// Adds to `records` what a record adds to the replay if it is a message
/// record.
fn push_message(records: &mut Vec<LogRecord>, opcode: u8, body: &Vec<u8>)
    ensures
        records_view(final(records)@) == records_view(old(records)@) + message_items(
            opcode,
            body@,
        ),
{
    match message_payload(opcode, body) {
        Some(record) => {
            records.push(record);
            assert(records_view(records@) =~= records_view(old(records)@) + message_items(
                opcode,
                body@,
            ));
        },
        None => {
            assert(records_view(records@) =~= records_view(old(records)@) + message_items(
                opcode,
                body@,
            ));
        },
    }
}

/// Walks records that stand one behind the other: see [`inner_items`].
pub fn read_inner_records(records: &Vec<u8>) -> (items: Vec<LogRecord>)
    ensures
        records_view(items@) == inner_items(records@),
        items@.len() == inner_items(records@).len(),
{
    let mut items: Vec<LogRecord> = Vec::new();
    let mut at: usize = 0;
    assert(records@.skip(0) =~= records@);
    assert(records_view(items@) + inner_items(records@.skip(0)) =~= inner_items(records@));
    while at < records.len()
        invariant_except_break
            at <= records.len(),
            records_view(items@) + inner_items(records@.skip(at as int)) == inner_items(records@),
        ensures
            records_view(items@) == inner_items(records@),
        decreases records.len() - at,
    {
        let ghost earlier = records_view(items@);
        let ghost left = records@.skip(at as int);
        if records.len() - at < RECORD_HEADER_LEN {
            items.push(None);
            assert(records_view(items@) =~= earlier + seq![None::<Seq<u8>>]);
            break ;
        }
        let opcode = records[at];
        let len = read_u64(records, at + 1);
        proof {
            assert(left[0] == records@[at as int]);
            assert(le_u64(left, 1) == le_u64(records@, at + 1));
        }
        if len > (records.len() - at - RECORD_HEADER_LEN) as u64 {
            items.push(None);
            assert(records_view(items@) =~= earlier + seq![None::<Seq<u8>>]);
            break ;
        }
        let start = at + RECORD_HEADER_LEN;
        let end = start + len as usize;
        let body = copy_range(records, start, end);
        push_message(&mut items, opcode, &body);
        proof {
            assert(body@ =~= left.subrange(RECORD_HEADER_LEN as int, RECORD_HEADER_LEN + len));
            assert(records@.skip(end as int) =~= left.skip(RECORD_HEADER_LEN + len));
            assert(records_view(items@) + inner_items(records@.skip(end as int)) =~= earlier + (
            message_items(opcode, body@) + inner_items(records@.skip(end as int))));
        }
        at = end;
    }
    items
}

/// Drains a reader that unpacks one chunk: see [`drained_chunk`].
fn drain_chunk(reader: LinearReader) -> (items: Vec<LogRecord>)
    requires
        !reader_failed(reader),
    ensures
        records_view(items@) == drained_chunk(reader, usize::MAX as nat),
{
    let mut reader = reader;
    let ghost whole = drained_chunk(reader, usize::MAX as nat);
    let mut items: Vec<LogRecord> = Vec::new();
    let mut fuel: usize = usize::MAX;
    assert(records_view(items@) + drained_chunk(reader, fuel as nat) =~= whole);
    while fuel > 0
        invariant_except_break
            !reader_failed(reader),
            records_view(items@) + drained_chunk(reader, fuel as nat) == whole,
        ensures
            records_view(items@) == whole,
        decreases fuel,
    {
        let ghost earlier = records_view(items@);
        fuel -= 1;
        match next_event(&mut reader) {
            ReadEvent::Finished => {
                assert(earlier + Seq::<Option<Seq<u8>>>::empty() =~= earlier);
                break ;
            },
            ReadEvent::Failed => {
                items.push(None);
                assert(records_view(items@) =~= earlier + seq![None::<Seq<u8>>]);
                break ;
            },
            ReadEvent::NeedInput => {
                let none: Vec<u8> = Vec::new();
                feed_reader(&mut reader, none.as_slice());
                assert(none@ =~= Seq::<u8>::empty());
            },
            ReadEvent::Record { opcode, body } => {
                push_message(&mut items, opcode, &body);
                assert(records_view(items@) + drained_chunk(reader, fuel as nat) =~= earlier + (
                message_items(opcode, body@) + drained_chunk(reader, fuel as nat)));
            },
        }
    }
    items
}

/// Collects what is replayed from the chunk with the body `chunk`.
pub fn read_chunk(chunk: &Vec<u8>) -> (items: Vec<LogRecord>)
    ensures
        records_view(items@) == chunk_items(chunk@),
        items@.len() == chunk_items(chunk@).len(),
{
    if chunk.len() >= CHUNK_HEADER_LEN && read_u32(chunk, CHUNK_COMPRESSION_AT) > 0 {
        let bytes = frame_record(OP_CHUNK, chunk);
        let mut reader = open_reader(MAX_RECORD_LEN, false, true);
        feed_reader(&mut reader, bytes.as_slice());
        drain_chunk(reader)
    } else if chunk.len() < CHUNK_HEADER_LEN {
        let mut items: Vec<LogRecord> = Vec::new();
        items.push(None);
        assert(records_view(items@) =~= seq![None::<Seq<u8>>]);
        items
    } else {
        let size = read_u64(chunk, CHUNK_HEADER_LEN - 8);
        if size > (chunk.len() - CHUNK_HEADER_LEN) as u64 {
            let mut items: Vec<LogRecord> = Vec::new();
            items.push(None);
            assert(records_view(items@) =~= seq![None::<Seq<u8>>]);
            items
        } else {
            let records = copy_range(chunk, CHUNK_HEADER_LEN, CHUNK_HEADER_LEN + size as usize);
            read_inner_records(&records)
        }
    }
}

/// Reads `log` from start to end and collects what is to be replayed.
pub fn read_records(log: &[u8]) -> (records: Vec<LogRecord>)
    ensures
        records_view(records@) == log_records(log@),
        records@.len() == log_records(log@).len(),
{
    let mut reader = open_reader(MAX_RECORD_LEN, true, false);
    feed_reader(&mut reader, log);
    let ghost whole = drained(reader, usize::MAX as nat);
    let mut records: Vec<LogRecord> = Vec::new();
    let mut fuel: usize = usize::MAX;
    assert(records_view(records@) + drained(reader, fuel as nat) =~= whole);
    while fuel > 0
        invariant_except_break
            !reader_failed(reader),
            records_view(records@) + drained(reader, fuel as nat) == whole,
        ensures
            records_view(records@) == whole,
        decreases fuel,
    {
        let ghost earlier = records_view(records@);
        fuel -= 1;
        match next_event(&mut reader) {
            ReadEvent::Finished => {
                assert(earlier + Seq::<Option<Seq<u8>>>::empty() =~= earlier);
                break ;
            },
            ReadEvent::Failed => {
                records.push(None);
                assert(records_view(records@) =~= earlier + seq![None::<Seq<u8>>]);
                break ;
            },
            ReadEvent::NeedInput => {
                let none: Vec<u8> = Vec::new();
                feed_reader(&mut reader, none.as_slice());
                assert(none@ =~= Seq::<u8>::empty());
            },
            ReadEvent::Record { opcode, body } => {
                if opcode == OP_CHUNK {
                    let mut items = read_chunk(&body);
                    proof {
                        lemma_records_view_concat(records@, items@);
                    }
                    records.append(&mut items);
                } else {
                    push_message(&mut records, opcode, &body);
                }
                assert(records_view(records@) + drained(reader, fuel as nat) =~= earlier + (
                record_items(opcode, body@) + drained(reader, fuel as nat)));
            },
        }
    }
    records
}

} // verus!
