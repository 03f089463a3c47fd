use ad_demo::activities::mcap_activity::{
    forward_text, Mcap, ReplayError, END_OF_LOG, FORWARD_ENDPOINT, MCAP_LOG_PATH,
};
use ad_demo::activities::mcap_log::{
    copy_range, frame_record, message_payload, read_chunk, read_inner_records, read_records,
    read_u32, read_u64, starts_with_magic, CHUNK_COMPRESSION_AT, CHUNK_HEADER_LEN, MAGIC_LEN,
    MAX_RECORD_LEN, MESSAGE_HEADER_LEN, OP_CHUNK, OP_MESSAGE, RECORD_HEADER_LEN,
};
use std::collections::BTreeMap;
use std::io::Cursor;

fn log_of(payloads: &[&[u8]], use_chunks: bool) -> Vec<u8> {
    log_with(payloads, use_chunks, Some(mcap::Compression::Zstd))
}

fn log_with(
    payloads: &[&[u8]],
    use_chunks: bool,
    compression: Option<mcap::Compression>,
) -> Vec<u8> {
    let mut writer = mcap::WriteOptions::default()
        .use_chunks(use_chunks)
        .compression(compression)
        .create(Cursor::new(Vec::new()))
        .unwrap();
    let channel = writer
        .add_channel(0, "gps", "json", &BTreeMap::new())
        .unwrap();
    for (position, payload) in payloads.iter().enumerate() {
        let header = mcap::records::MessageHeader {
            channel_id: channel,
            sequence: position as u32,
            log_time: position as u64,
            publish_time: position as u64,
        };
        writer.write_to_known_channel(&header, payload).unwrap();
    }
    writer.finish().unwrap();
    writer.into_inner().into_inner()
}

fn record(opcode: u8, body: &[u8]) -> Vec<u8> {
    let mut bytes = vec![opcode];
    bytes.extend((body.len() as u64).to_le_bytes());
    bytes.extend_from_slice(body);
    bytes
}

fn message(payload: &[u8]) -> Vec<u8> {
    let mut body = vec![0u8; 22];
    body.extend_from_slice(payload);
    record(0x05, &body)
}

fn raw_log(records: &[Vec<u8>]) -> Vec<u8> {
    let mut log = mcap::MAGIC.to_vec();
    for bytes in records {
        log.extend_from_slice(bytes);
    }
    log
}

#[test]
fn constants() {
    assert_eq!(END_OF_LOG, "no message left");
    assert_eq!(MAGIC_LEN, mcap::MAGIC.len());
    assert_eq!(OP_MESSAGE, mcap::records::op::MESSAGE);
    assert_eq!(OP_CHUNK, mcap::records::op::CHUNK);
    assert_eq!(MESSAGE_HEADER_LEN, 2 + 4 + 8 + 8);
    assert_eq!(MAX_RECORD_LEN, 1 << 30);
    assert_eq!(RECORD_HEADER_LEN, 1 + 8);
    assert_eq!(CHUNK_COMPRESSION_AT, 8 + 8 + 8 + 4);
    assert_eq!(CHUNK_HEADER_LEN, CHUNK_COMPRESSION_AT + 4 + 8);
    assert_eq!(FORWARD_ENDPOINT, "127.0.0.1:9001");
    assert_eq!(MCAP_LOG_PATH, "feo/ad-demo/src/assets/gps_route.mcap");
}

#[test]
fn three_records_then_the_sentinel_forever() {
    let log = log_of(
        &[
            br#"{ "latitude": 48.1, "longitude": 11.5 }"#,
            br#"{"latitude":48.2,"longitude":11.6}"#,
            b"[1, 2,\n 3]",
        ],
        true,
    );
    let mut bridge = Mcap::build(2, &log).unwrap();
    bridge.startup();
    assert_eq!(bridge.id(), 2);
    assert_eq!(bridge.step(), r#"{"latitude":48.1,"longitude":11.5}"#);
    assert_eq!(bridge.step(), r#"{"latitude":48.2,"longitude":11.6}"#);
    assert_eq!(bridge.step(), "[1,2,3]");
    for _ in 0..5 {
        assert_eq!(bridge.step(), "no message left");
    }
    assert_eq!(bridge.id(), 2);
}

#[test]
fn three_records_without_chunks() {
    let log = log_of(&[b"1", b"\"two\"", b"{\"three\": null}"], false);
    let mut bridge = Mcap::build(2, &log).unwrap();
    assert_eq!(bridge.step(), "1");
    assert_eq!(bridge.step(), "\"two\"");
    assert_eq!(bridge.step(), "{\"three\":null}");
    assert_eq!(bridge.step(), END_OF_LOG);
    assert_eq!(bridge.step(), END_OF_LOG);
}

#[test]
fn malformed_record_costs_its_own_step_only() {
    let log = log_of(&[b"{ not json", br#"{"ok": true}"#], true);
    let mut bridge = Mcap::build(2, &log).unwrap();
    assert_eq!(bridge.step(), END_OF_LOG);
    assert_eq!(bridge.step(), r#"{"ok":true}"#);
    assert_eq!(bridge.step(), END_OF_LOG);
}

#[test]
fn empty_log_gives_the_sentinel() {
    let log = log_of(&[], true);
    let mut bridge = Mcap::build(2, &log).unwrap();
    assert_eq!(bridge.get_single_msg(), Ok(None));
    assert_eq!(bridge.step(), END_OF_LOG);
}

#[test]
fn bytes_that_are_no_log_give_no_bridge() {
    let mut almost = mcap::MAGIC.to_vec();
    almost[7] = b'\r';
    for bytes in [&b""[..], &b"not an mcap file"[..], &mcap::MAGIC[..7], &almost[..]] {
        assert!(!starts_with_magic(bytes));
        assert_eq!(Mcap::build(9, bytes).err(), Some(ReplayError::UnreadableLog));
    }
}

#[test]
fn the_magic_alone_is_a_log_without_messages() {
    assert!(starts_with_magic(mcap::MAGIC));
    let mut bridge = Mcap::build(9, mcap::MAGIC).unwrap();
    assert_eq!(bridge.step(), END_OF_LOG);
    assert_eq!(bridge.step(), END_OF_LOG);
}

#[test]
fn read_records_agrees_with_the_message_stream() {
    let long = vec![b'7'; 100_000];
    let payloads: [&[u8]; 5] = [b"{}", b"", b"[1]", b"xyz", &long];
    let layouts = [
        (false, None),
        (true, None),
        (true, Some(mcap::Compression::Zstd)),
        (true, Some(mcap::Compression::Lz4)),
    ];
    for (use_chunks, compression) in layouts {
        let log = log_with(&payloads, use_chunks, compression);
        let expected: Vec<Option<Vec<u8>>> = mcap::MessageStream::new(&log)
            .unwrap()
            .map(|item| item.ok().map(|found| found.data.into_owned()))
            .collect();
        assert_eq!(expected.len(), 5);
        assert_eq!(read_records(&log), expected);
    }
}

#[test]
fn replay_from_chunks_of_each_compression() {
    for compression in [None, Some(mcap::Compression::Zstd), Some(mcap::Compression::Lz4)] {
        let log = log_with(&[b" 1", b"[ ]"], true, compression);
        let mut bridge = Mcap::build(2, &log).unwrap();
        assert_eq!(bridge.step(), "1");
        assert_eq!(bridge.step(), "[]");
        assert_eq!(bridge.step(), END_OF_LOG);
    }
}

#[test]
fn message_records_outside_chunks_are_replayed() {
    let log = raw_log(&[record(0x01, &[0u8; 8]), message(b"1"), record(0x7f, b"?"), message(b"2")]);
    // The log stops short of its footer: the reader fails after the last record.
    assert_eq!(
        read_records(&log),
        vec![Some(b"1".to_vec()), Some(b"2".to_vec()), None]
    );
}

#[test]
fn message_payload_skips_the_header() {
    let mut body = vec![7u8; 22];
    assert_eq!(message_payload(0x05, &body), Some(Some(vec![])));
    body.extend_from_slice(b"abc");
    assert_eq!(message_payload(0x05, &body), Some(Some(b"abc".to_vec())));
    assert_eq!(message_payload(0x05, &body[..21].to_vec()), Some(None));
    assert_eq!(message_payload(0x05, &vec![]), Some(None));
    assert_eq!(message_payload(0x04, &body), None);
    assert_eq!(message_payload(0x06, &body), None);
    assert_eq!(message_payload(0x00, &vec![]), None);
}

#[test]
fn short_message_record_costs_its_own_step_only() {
    let log = raw_log(&[record(0x05, &[0u8; 21]), message(b"7")]);
    let mut bridge = Mcap::build(1, &log).unwrap();
    assert_eq!(bridge.step(), END_OF_LOG);
    assert_eq!(bridge.step(), "7");
    assert_eq!(bridge.step(), END_OF_LOG);
}

#[test]
fn damaged_attachment_record_is_passed_over() {
    // An attachment record that ends before its data and checksum.
    let log = raw_log(&[record(0x09, &[0u8; 32]), message(b"1")]);
    let mut bridge = Mcap::build(1, &log).unwrap();
    assert_eq!(bridge.step(), "1");
    assert_eq!(bridge.step(), END_OF_LOG);
}

#[test]
fn record_longer_than_the_log_ends_the_replay() {
    let mut log = raw_log(&[message(b"1")]);
    log.push(0x05);
    log.extend(u64::MAX.to_le_bytes());
    log.extend_from_slice(&[0u8; 40]);
    let mut bridge = Mcap::build(1, &log).unwrap();
    assert_eq!(bridge.step(), "1");
    for _ in 0..3 {
        assert_eq!(bridge.step(), END_OF_LOG);
    }
}

#[test]
fn chunk_with_an_overlong_record_costs_one_step() {
    let mut inner = vec![0x05u8];
    inner.extend(30u64.to_le_bytes());
    inner.extend_from_slice(&[0u8; 30]);
    let mut chunk = Vec::new();
    chunk.extend(0u64.to_le_bytes());
    chunk.extend(0u64.to_le_bytes());
    chunk.extend(10u64.to_le_bytes());
    chunk.extend(0u32.to_le_bytes());
    chunk.extend(0u32.to_le_bytes());
    chunk.extend(10u64.to_le_bytes());
    chunk.extend_from_slice(&inner);
    let log = raw_log(&[record(0x06, &chunk), message(b"1")]);
    assert_eq!(read_records(&log), vec![None, Some(b"1".to_vec()), None]);
    let mut bridge = Mcap::build(1, &log).unwrap();
    assert_eq!(bridge.step(), END_OF_LOG);
    assert_eq!(bridge.step(), "1");
    assert_eq!(bridge.step(), END_OF_LOG);
}

#[test]
fn plain_chunk_is_walked_record_by_record() {
    let mut inner = message(b"1");
    inner.extend(record(0x04, b"channel"));
    inner.extend(message(b"2"));
    inner.extend(record(0x05, &[0u8; 3]));
    let mut chunk = vec![0u8; 32];
    chunk.extend((inner.len() as u64).to_le_bytes());
    chunk.extend_from_slice(&inner);
    chunk.extend_from_slice(b"padding");
    assert_eq!(
        read_chunk(&chunk),
        vec![Some(b"1".to_vec()), Some(b"2".to_vec()), None]
    );
    assert_eq!(read_chunk(&vec![0u8; 39]), vec![None]);
    assert_eq!(read_chunk(&vec![0u8; 40]), vec![]);
    let mut short = vec![0u8; 32];
    short.extend(1u64.to_le_bytes());
    assert_eq!(read_chunk(&short), vec![None]);
    assert_eq!(read_inner_records(&vec![]), vec![]);
    assert_eq!(read_inner_records(&vec![5u8; 8]), vec![None]);
    assert_eq!(read_inner_records(&inner), vec![Some(b"1".to_vec()), Some(b"2".to_vec()), None]);
}

#[test]
fn chunk_of_an_unknown_compression_costs_one_step() {
    let mut chunk = vec![0u8; 28];
    chunk.extend(3u32.to_le_bytes());
    chunk.extend_from_slice(b"zip");
    chunk.extend(4u64.to_le_bytes());
    chunk.extend_from_slice(&[1, 2, 3, 4]);
    let log = raw_log(&[message(b"1"), record(0x06, &chunk), message(b"2")]);
    let mut bridge = Mcap::build(1, &log).unwrap();
    assert_eq!(bridge.step(), "1");
    assert_eq!(bridge.step(), END_OF_LOG);
    assert_eq!(bridge.step(), "2");
    assert_eq!(bridge.step(), END_OF_LOG);
}

#[test]
fn compressed_chunk_of_garbage_costs_one_step() {
    let mut chunk = vec![0u8; 16];
    chunk.extend(100u64.to_le_bytes());
    chunk.extend(0u32.to_le_bytes());
    chunk.extend(4u32.to_le_bytes());
    chunk.extend_from_slice(b"zstd");
    chunk.extend(6u64.to_le_bytes());
    chunk.extend_from_slice(&[9, 9, 9, 9, 9, 9]);
    let log = raw_log(&[record(0x06, &chunk), message(b"2")]);
    let mut bridge = Mcap::build(1, &log).unwrap();
    assert_eq!(bridge.step(), END_OF_LOG);
    assert_eq!(bridge.step(), "2");
    assert_eq!(bridge.step(), END_OF_LOG);
}

#[test]
fn numbers_and_frames_are_little_endian() {
    let bytes = vec![0x01, 0x02, 0x03, 0x04, 0x05, 0x06, 0x07, 0x08, 0xff];
    assert_eq!(read_u32(&bytes, 0), 0x0403_0201);
    assert_eq!(read_u32(&bytes, 5), 0xff08_0706);
    assert_eq!(read_u64(&bytes, 0), 0x0807_0605_0403_0201);
    assert_eq!(read_u64(&bytes, 1), 0xff08_0706_0504_0302);
    assert_eq!(read_u64(&vec![0xff; 8], 0), u64::MAX);
    assert_eq!(copy_range(&bytes, 2, 5), vec![3, 4, 5]);
    assert_eq!(copy_range(&bytes, 9, 9), Vec::<u8>::new());
    assert_eq!(frame_record(0x06, &vec![]), record(0x06, &[]));
    let body = vec![0xabu8; 0x1_0203];
    assert_eq!(frame_record(0x7e, &body), record(0x7e, &body));
}

#[test]
fn truncated_log_replays_what_it_holds() {
    let mut log = log_of(&[b"1", b"2"], false);
    let whole = log.len();
    log.truncate(whole - 10);
    let mut bridge = Mcap::build(2, &log).unwrap();
    assert_eq!(bridge.step(), "1");
    assert_eq!(bridge.step(), "2");
    for _ in 0..3 {
        assert_eq!(bridge.step(), END_OF_LOG);
    }
}

#[test]
fn get_single_msg_reads_documents() {
    let log = log_of(&[br#"{"a": [1, 2]}"#, b"oops", b"7"], true);
    let mut bridge = Mcap::build(2, &log).unwrap();
    let mut expected = serde_json::Map::new();
    expected.insert(
        String::from("a"),
        serde_json::Value::Array(vec![serde_json::Value::from(1), serde_json::Value::from(2)]),
    );
    assert_eq!(
        bridge.get_single_msg(),
        Ok(Some(serde_json::Value::Object(expected)))
    );
    assert_eq!(bridge.get_single_msg(), Err(ReplayError::InvalidPayload));
    assert_eq!(bridge.get_single_msg(), Ok(Some(serde_json::Value::from(7))));
    assert_eq!(bridge.get_single_msg(), Ok(None));
    assert_eq!(bridge.get_single_msg(), Ok(None));
}

#[test]
fn from_records_replays_in_order() {
    let mut bridge = Mcap::from_records(
        5,
        vec![
            Some(b" { \"x\" : 1 } ".to_vec()),
            None,
            Some(b"".to_vec()),
            Some(b"true".to_vec()),
        ],
    );
    assert_eq!(bridge.id(), 5);
    assert_eq!(bridge.step(), "{\"x\":1}");
    assert_eq!(bridge.step(), END_OF_LOG);
    assert_eq!(bridge.step(), END_OF_LOG);
    assert_eq!(bridge.step(), "true");
    assert_eq!(bridge.step(), END_OF_LOG);
}

#[test]
fn next_record_hands_out_payloads() {
    let mut bridge = Mcap::from_records(5, vec![Some(vec![1, 2, 3]), None, Some(vec![])]);
    assert_eq!(bridge.next_record(), Some(&vec![1, 2, 3]));
    assert_eq!(bridge.next_record(), None);
    assert_eq!(bridge.next_record(), Some(&vec![]));
    assert_eq!(bridge.next_record(), None);
    assert_eq!(bridge.next_record(), None);
}

#[test]
fn shutdown_releases_the_records() {
    let mut bridge = Mcap::from_records(5, vec![Some(b"1".to_vec()), Some(b"2".to_vec())]);
    assert_eq!(bridge.step(), "1");
    bridge.shutdown();
    assert_eq!(bridge.id(), 5);
    assert_eq!(bridge.step(), END_OF_LOG);
}

#[test]
fn startup_changes_nothing() {
    let mut bridge = Mcap::from_records(5, vec![Some(b"1".to_vec())]);
    bridge.startup();
    assert_eq!(bridge.step(), "1");
}

#[test]
fn forward_text_substitutes_the_sentinel() {
    assert_eq!(forward_text(Some(String::from("{}"))), "{}");
    assert_eq!(forward_text(Some(String::new())), "");
    assert_eq!(forward_text(None), "no message left");
}

#[test]
fn replay_errors_describe_themselves() {
    assert_eq!(
        ReplayError::UnreadableLog.message(),
        "The bytes are not a log container"
    );
    assert_eq!(
        ReplayError::InvalidPayload.message(),
        "Failed to convert msg data as JSON"
    );
}

fn replay_to_the_end(log: &[u8]) -> usize {
    match Mcap::build(1, log) {
        Ok(mut bridge) => {
            let mut steps = 0;
            while bridge.next_record().is_some() || steps < 4 {
                steps += 1;
                if steps > 10_000 {
                    break;
                }
            }
            assert_eq!(bridge.step(), END_OF_LOG);
            steps
        }
        Err(error) => {
            assert_eq!(error, ReplayError::UnreadableLog);
            0
        }
    }
}

fn layouts() -> Vec<Vec<u8>> {
    let payloads: [&[u8]; 3] = [b"{\"a\":1}", b"[1,2,3]", b"\"text\""];
    vec![
        log_with(&payloads, false, None),
        log_with(&payloads, true, None),
        log_with(&payloads, true, Some(mcap::Compression::Zstd)),
        log_with(&payloads, true, Some(mcap::Compression::Lz4)),
    ]
}

#[test]
fn truncated_logs_are_read_to_their_end() {
    for log in layouts() {
        for length in 0..log.len() {
            replay_to_the_end(&log[..length]);
        }
    }
}

#[test]
fn logs_with_a_damaged_byte_are_read_to_their_end() {
    for log in layouts() {
        for at in 0..log.len() {
            for value in [0x00u8, 0x01, 0x05, 0x06, 0x09, 0x7f, 0x80, 0xff] {
                let mut damaged = log.clone();
                damaged[at] = value;
                replay_to_the_end(&damaged);
            }
        }
    }
}

#[test]
fn logs_with_damaged_stretches_are_read_to_their_end() {
    let mut state: u64 = 0x2545_f491_4f6c_dd1d;
    let mut next = move || {
        state ^= state << 13;
        state ^= state >> 7;
        state ^= state << 17;
        state
    };
    for log in layouts() {
        for _ in 0..400 {
            let mut damaged = log.clone();
            let start = (next() as usize) % damaged.len();
            let length = 1 + (next() as usize) % 12;
            for at in start..damaged.len().min(start + length) {
                damaged[at] = next() as u8;
            }
            replay_to_the_end(&damaged);
        }
    }
}

#[test]
fn failed_reader_is_not_asked_again() {
    // A chunk of an unknown compression whose bytes behind the header read
    // as a chunk without compression that holds an overlong record.
    let mut chunk = vec![0u8; 28];
    chunk.extend(2u32.to_le_bytes());
    chunk.extend_from_slice(b"zz");
    chunk.extend(149u64.to_le_bytes());
    chunk.extend_from_slice(&[0u8; 32]);
    chunk.extend(9u64.to_le_bytes());
    chunk.push(0x05);
    chunk.extend(100u64.to_le_bytes());
    chunk.extend_from_slice(&[0u8; 100]);
    assert_eq!(chunk.len(), 191);
    assert_eq!(read_chunk(&chunk), vec![None]);
    let log = raw_log(&[record(0x06, &chunk), message(b"3")]);
    let mut bridge = Mcap::build(1, &log).unwrap();
    assert_eq!(bridge.step(), END_OF_LOG);
    assert_eq!(bridge.step(), "3");
    assert_eq!(bridge.step(), END_OF_LOG);
}
