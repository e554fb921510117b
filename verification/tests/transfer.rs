use zknet_core::progress::{transfer_rate, ProgressMeter};
use zknet_core::transfer::{
    check_status, make_chunks, run_transfer, TransferError, UPLOAD_CHUNK_SIZE,
};

fn concat(chunks: &[Vec<u8>]) -> Vec<u8> {
    chunks.iter().flat_map(|c| c.iter().copied()).collect()
}

#[test]
fn download_round_trip_over_chunk_sizes() {
    let source: Vec<u8> = (0u32..2048).map(|i| (i % 256) as u8).collect();
    for size in [1usize, 2, 3, 7, 64, 255, 256, 1024, 4096] {
        let chunks = make_chunks(&source, size);
        let elapsed: Vec<u64> = (1..=chunks.len() as u64).collect();
        let (sink, events) = run_transfer(&chunks, source.len() as u64, &elapsed);
        assert_eq!(sink, source);
        assert_eq!(events.len(), chunks.len());
    }
}

#[test]
fn download_round_trip_empty_source() {
    let source: Vec<u8> = Vec::new();
    let chunks = make_chunks(&source, 64);
    assert!(chunks.is_empty());
    let (sink, events) = run_transfer(&chunks, 0, &Vec::new());
    assert!(sink.is_empty());
    assert!(events.is_empty());
}

#[test]
fn download_round_trip_multi_megabyte() {
    let source: Vec<u8> = (0..3_000_000u32).map(|i| (i % 251) as u8).collect();
    let chunks = make_chunks(&source, UPLOAD_CHUNK_SIZE);
    let elapsed: Vec<u64> = (1..=chunks.len() as u64).map(|i| i * 500).collect();
    let (sink, events) = run_transfer(&chunks, source.len() as u64, &elapsed);
    assert_eq!(sink, source);
    assert_eq!(events.last().unwrap().progress_total, sink.len() as u64);
}

#[test]
fn progress_totals_monotone_and_final_equals_sink_count() {
    let source: Vec<u8> = vec![9u8; 10_000];
    let chunks = make_chunks(&source, 1024);
    let elapsed: Vec<u64> = (1..=chunks.len() as u64).map(|i| i * 1000).collect();
    let (sink, events) = run_transfer(&chunks, source.len() as u64, &elapsed);
    let mut prev = 0u64;
    for ev in &events {
        assert!(ev.progress_total >= prev);
        prev = ev.progress_total;
        assert_eq!(ev.total, source.len() as u64);
    }
    assert_eq!(events.last().unwrap().progress_total, sink.len() as u64);
}

#[test]
fn upload_chunking_preserves_content() {
    let source: Vec<u8> = (0..200_000u32).map(|i| (i * 7 % 256) as u8).collect();
    for size in [1usize, 13, UPLOAD_CHUNK_SIZE, 1 << 20] {
        let chunks = make_chunks(&source, size);
        if chunks.len() > 1 {
            for c in &chunks[..chunks.len() - 1] {
                assert_eq!(c.len(), size);
            }
        }
        assert_eq!(concat(&chunks), source);
    }
}

#[test]
fn meter_reports_chunk_and_running_total() {
    let mut m = ProgressMeter::begin(100);
    let e1 = m.record_chunk(40, 1_000_000);
    assert_eq!(e1.progress, 40);
    assert_eq!(e1.progress_total, 40);
    assert_eq!(e1.total, 100);
    assert_eq!(e1.transfer_speed, 40);
    let e2 = m.record_chunk(60, 2_000_000);
    assert_eq!(e2.progress, 60);
    assert_eq!(e2.progress_total, 100);
    assert_eq!(e2.total, 100);
    assert_eq!(e2.transfer_speed, 50);
}

#[test]
fn rate_is_bytes_per_second_with_floored_elapsed() {
    assert_eq!(transfer_rate(1000, 2_000_000), 500);
    assert_eq!(transfer_rate(5, 0), 5_000_000);
    assert_eq!(transfer_rate(0, 123), 0);
    assert_eq!(transfer_rate(u64::MAX, 1), u64::MAX);
}

#[test]
fn non_success_status_fails_immediately() {
    assert_eq!(check_status(200), Ok(()));
    assert_eq!(check_status(204), Ok(()));
    assert_eq!(check_status(299), Ok(()));
    assert_eq!(check_status(199), Err(TransferError::Status(199)));
    assert_eq!(check_status(301), Err(TransferError::Status(301)));
    assert_eq!(check_status(404), Err(TransferError::Status(404)));
    assert_eq!(check_status(500), Err(TransferError::Status(500)));
}
