//! End-to-end and component behavior of the tunnel core on concrete data.

use gtunnel::balance::BackendSelector;
use gtunnel::chunk::chunk_bytes;
use gtunnel::copy::relay_bytes;
use gtunnel::copy::relay_chunks;
use gtunnel::copy::stream_reader_copy;
use gtunnel::copy::stream_writer_copy;
use gtunnel::copy::ReadOutcome;
use gtunnel::copy::StreamItem;
use gtunnel::copy::WriterPhase;
use gtunnel::gateway::DialOutcome;
use gtunnel::gateway::TunnelServer;
use gtunnel::other;
use gtunnel::TunnelError;

fn payload(len: usize) -> Vec<u8> {
    let mut data = Vec::new();
    for i in 0..len {
        data.push((i % 251) as u8);
    }
    data
}

#[test]
fn five_thousand_bytes_cross_in_2048_byte_chunks() {
    let data = payload(5000);
    let chunks = chunk_bytes(&data, 2048);
    assert_eq!(chunks.len(), 3);
    assert_eq!(chunks[0].data.len(), 2048);
    assert_eq!(chunks[1].data.len(), 2048);
    assert_eq!(chunks[2].data.len(), 904);
    let out = relay_chunks(&chunks, 4096);
    assert_eq!(out, data);
}

#[test]
fn echoed_payload_matches_input_exactly() {
    let data = payload(5000);
    // One direction carries the request, the other the echoed response.
    let to_backend = relay_bytes(&data, 2048, 4096);
    let back_to_client = relay_bytes(&to_backend, 2048, 4096);
    assert_eq!(back_to_client, data);
}

#[test]
fn one_byte_writer_loses_nothing() {
    let data = payload(300);
    let out = relay_bytes(&data, 7, 1);
    assert_eq!(out, data);
}

#[test]
fn uneven_chunks_and_writes_preserve_order() {
    let data = payload(1000);
    for max in [1usize, 3, 128, 1000, 2048] {
        for cap in [1usize, 2, 5, 999, 5000] {
            let out = relay_bytes(&data, max, cap);
            assert_eq!(out, data);
        }
    }
}

#[test]
fn empty_stream_writes_nothing() {
    let data: Vec<u8> = Vec::new();
    let chunks = chunk_bytes(&data, 2048);
    assert_eq!(chunks.len(), 0);
    let out = relay_chunks(&chunks, 1);
    assert_eq!(out.len(), 0);
}

#[test]
fn zero_length_read_ends_the_sequence_with_no_chunk() {
    let reader = stream_reader_copy();
    let item = reader.next_item(ReadOutcome::Bytes(0));
    assert!(matches!(item, StreamItem::Finished));
    assert!(!matches!(item, StreamItem::Failed(_)));
}

#[test]
fn read_produces_exactly_the_filled_prefix() {
    let mut reader = stream_reader_copy();
    for i in 0..8 {
        reader.buf[i] = 10 + i as u8;
    }
    match reader.next_item(ReadOutcome::Bytes(5)) {
        StreamItem::Payload(c) => assert_eq!(c.data, vec![10, 11, 12, 13, 14]),
        _ => panic!("a non-empty read must produce a chunk"),
    }
}

#[test]
fn read_failure_surfaces_as_stream_error() {
    let reader = stream_reader_copy();
    let item = reader.next_item(ReadOutcome::ReadError("connection reset".to_string()));
    match item {
        StreamItem::Failed(m) => assert_eq!(m, "connection reset"),
        _ => panic!("a failed read must surface as a stream-level error"),
    }
}

#[test]
fn zero_byte_write_is_fatal_and_distinct() {
    let mut w = stream_writer_copy();
    let chunks = chunk_bytes(&payload(3), 2048);
    let mut iter = chunks.into_iter();
    w.accept(StreamItem::Payload(iter.next().unwrap())).unwrap();
    let err = w.advance(0).unwrap_err();
    assert_eq!(err, TunnelError::WriteZero);
    assert_ne!(err, other("write failed"));
    assert_ne!(err, other("write zero byte into writer"));
    // The buffer is still intact: the copy was aborted, not corrupted.
    assert_eq!(w.pending_bytes(), vec![0, 1, 2]);
}

#[test]
fn writer_walks_fill_drain_flush() {
    let mut w = stream_writer_copy();
    assert_eq!(w.current_phase(), WriterPhase::Filling);

    let chunks = chunk_bytes(&vec![5u8, 6, 7, 8], 2048);
    let mut iter = chunks.into_iter();
    w.accept(StreamItem::Payload(iter.next().unwrap())).unwrap();
    assert_eq!(w.current_phase(), WriterPhase::Draining);

    // A partial write advances; the unwritten suffix stays pending.
    w.advance(1).unwrap();
    assert_eq!(w.pending_bytes(), vec![6, 7, 8]);
    w.advance(3).unwrap();
    assert_eq!(w.current_phase(), WriterPhase::Filling);

    w.accept(StreamItem::Finished).unwrap();
    assert_eq!(w.current_phase(), WriterPhase::Flushing);
    assert_eq!(w.total_written(), 4);
}

#[test]
fn stream_error_aborts_with_its_cause() {
    let mut w = stream_writer_copy();
    let err = w
        .accept(StreamItem::Failed("status: internal".to_string()))
        .unwrap_err();
    assert_eq!(err, other("status: internal"));
    assert_ne!(err, TunnelError::WriteZero);
}

#[test]
fn rotation_hands_out_distinct_counter_values() {
    let addrs = vec![
        "10.0.0.1:9000".to_string(),
        "10.0.0.2:9000".to_string(),
        "10.0.0.3:9000".to_string(),
        "10.0.0.4:9000".to_string(),
    ];
    let mut sel = BackendSelector::new(addrs.clone());
    assert_eq!(sel.cursor(), 0);
    let mut picks = Vec::new();
    for _ in 0..12 {
        picks.push(sel.next_backend());
    }
    // The counter advanced by exactly one per call.
    assert_eq!(sel.cursor(), 12);
    for (i, pick) in picks.iter().enumerate() {
        assert_eq!(pick, &addrs[i % 4]);
    }
}

#[test]
fn six_requests_visit_three_backends_twice_in_order() {
    let addrs = vec![
        "backend-a:1".to_string(),
        "backend-b:2".to_string(),
        "backend-c:3".to_string(),
    ];
    let mut server = TunnelServer::new(addrs.clone());
    let mut picks = Vec::new();
    for _ in 0..6 {
        picks.push(server.pick_backend());
    }
    assert_eq!(
        picks,
        vec![
            addrs[0].clone(),
            addrs[1].clone(),
            addrs[2].clone(),
            addrs[0].clone(),
            addrs[1].clone(),
            addrs[2].clone(),
        ]
    );
    for addr in &addrs {
        assert_eq!(picks.iter().filter(|p| *p == addr).count(), 2);
    }
}

#[test]
fn dial_timeout_fails_the_request_with_its_cause() {
    let verdict = TunnelServer::dial_verdict(DialOutcome::TimedOut("deadline elapsed".to_string()));
    assert_eq!(verdict, Err("deadline elapsed".to_string()));
}

#[test]
fn dial_refusal_fails_and_success_proceeds() {
    let refused =
        TunnelServer::dial_verdict(DialOutcome::ConnectFailed("connection refused".to_string()));
    assert_eq!(refused, Err("connection refused".to_string()));
    let connected = TunnelServer::dial_verdict(DialOutcome::Connected);
    assert_eq!(connected, Ok(()));
}

#[test]
fn other_carries_its_description() {
    match other("remote hung up") {
        TunnelError::Other(m) => assert_eq!(m, "remote hung up"),
        TunnelError::WriteZero => panic!("a textual cause is never the zero-write error"),
    }
}
