use log_sync::batch::{BatchCaps, BatchSpan};
use log_sync::error::SyncError;
use log_sync::record::Timestamp;
use log_sync::sync::{CycleAction, CycleEvent, CyclePhase, FetchedRow, SourceSync};
use log_sync::watermark::initial_watermark;

fn ts(nanos: i64) -> Timestamp {
    Timestamp { nanos }
}

fn rows(orderings: &[i64], line_size: usize) -> Vec<FetchedRow> {
    orderings.iter().map(|&n| FetchedRow { ordering: ts(n), line_size }).collect()
}

fn source(max_docs: usize, watermark: i64) -> SourceSync {
    SourceSync::new(BatchCaps { max_docs, max_payload_bytes: 1000 }, ts(watermark))
}

#[test]
fn full_cycle_sends_in_order_then_commits() {
    let mut s = source(2, 100);
    assert_eq!(s.step(CycleEvent::Tick), CycleAction::Fetch { since: ts(100) });
    let a = s.step(CycleEvent::Fetched { rows: rows(&[101, 102, 103], 50) });
    assert_eq!(a, CycleAction::Send { span: BatchSpan { start: 0, end: 2, bytes: 100 } });
    let a = s.step(CycleEvent::BatchSent);
    assert_eq!(a, CycleAction::Send { span: BatchSpan { start: 2, end: 3, bytes: 50 } });
    assert_eq!(s.step(CycleEvent::BatchSent), CycleAction::Commit { watermark: ts(103) });
    assert_eq!(s.watermark, ts(100));
    assert_eq!(s.step(CycleEvent::Committed), CycleAction::Finish);
    assert_eq!(s.watermark, ts(103));
    assert_eq!(s.phase, CyclePhase::Idle);
    assert_eq!(s.step(CycleEvent::Tick), CycleAction::Fetch { since: ts(103) });
}

#[test]
fn empty_fetch_sends_nothing_and_keeps_watermark() {
    let mut s = source(2, 100);
    s.step(CycleEvent::Tick);
    assert_eq!(s.step(CycleEvent::Fetched { rows: Vec::new() }), CycleAction::Finish);
    assert_eq!(s.phase, CyclePhase::Idle);
    assert_eq!(s.watermark, ts(100));
}

#[test]
fn failed_second_batch_keeps_watermark_and_refetches_all() {
    let mut s = source(2, 100);
    s.step(CycleEvent::Tick);
    let a = s.step(CycleEvent::Fetched { rows: rows(&[101, 102, 103, 104, 105, 106], 50) });
    assert_eq!(a, CycleAction::Send { span: BatchSpan { start: 0, end: 2, bytes: 100 } });
    let a = s.step(CycleEvent::BatchSent);
    assert_eq!(a, CycleAction::Send { span: BatchSpan { start: 2, end: 4, bytes: 100 } });
    let err = SyncError::SinkRejected { status: 500, body: "boom".to_string() };
    assert_eq!(s.step(CycleEvent::BatchFailed { error: err.clone() }), CycleAction::Fail(err));
    assert_eq!(s.phase, CyclePhase::Idle);
    assert_eq!(s.watermark, ts(100));
    // The third batch is never asked for.
    assert_eq!(s.step(CycleEvent::BatchSent), CycleAction::Wait);
    // The next cycle starts again from the watermark of before, so the
    // records of the first batch are fetched and sent once more.
    assert_eq!(s.step(CycleEvent::Tick), CycleAction::Fetch { since: ts(100) });
    let a = s.step(CycleEvent::Fetched { rows: rows(&[101, 102, 103, 104, 105, 106], 50) });
    assert_eq!(a, CycleAction::Send { span: BatchSpan { start: 0, end: 2, bytes: 100 } });
    s.step(CycleEvent::BatchSent);
    s.step(CycleEvent::BatchSent);
    assert_eq!(s.step(CycleEvent::BatchSent), CycleAction::Commit { watermark: ts(106) });
    assert_eq!(s.step(CycleEvent::Committed), CycleAction::Finish);
    assert_eq!(s.watermark, ts(106));
}

#[test]
fn fetch_failure_is_source_unavailable() {
    let mut s = source(2, 7);
    s.step(CycleEvent::Tick);
    assert_eq!(s.step(CycleEvent::FetchFailed), CycleAction::Fail(SyncError::SourceUnavailable));
    assert_eq!(s.watermark, ts(7));
    assert_eq!(s.phase, CyclePhase::Idle);
}

#[test]
fn rows_not_newer_than_watermark_are_refused() {
    let mut s = source(2, 100);
    s.step(CycleEvent::Tick);
    let a = s.step(CycleEvent::Fetched { rows: rows(&[100, 101], 10) });
    assert_eq!(a, CycleAction::Fail(SyncError::SourceOutOfOrder));
    assert_eq!(s.watermark, ts(100));
}

#[test]
fn descending_rows_are_refused() {
    let mut s = source(2, 100);
    s.step(CycleEvent::Tick);
    let a = s.step(CycleEvent::Fetched { rows: rows(&[103, 102], 10) });
    assert_eq!(a, CycleAction::Fail(SyncError::SourceOutOfOrder));
}

#[test]
fn equal_orderings_are_accepted() {
    let mut s = source(5, 100);
    s.step(CycleEvent::Tick);
    let a = s.step(CycleEvent::Fetched { rows: rows(&[101, 101, 102], 10) });
    assert_eq!(a, CycleAction::Send { span: BatchSpan { start: 0, end: 3, bytes: 30 } });
}

#[test]
fn commit_failure_keeps_watermark() {
    let mut s = source(2, 100);
    s.step(CycleEvent::Tick);
    s.step(CycleEvent::Fetched { rows: rows(&[150], 10) });
    assert_eq!(s.step(CycleEvent::BatchSent), CycleAction::Commit { watermark: ts(150) });
    assert_eq!(s.step(CycleEvent::CommitFailed), CycleAction::Fail(SyncError::PersistenceError));
    assert_eq!(s.watermark, ts(100));
    assert_eq!(s.step(CycleEvent::Tick), CycleAction::Fetch { since: ts(100) });
}

#[test]
fn events_out_of_phase_change_nothing() {
    let mut s = source(2, 100);
    assert_eq!(s.step(CycleEvent::BatchSent), CycleAction::Wait);
    assert_eq!(s.step(CycleEvent::Committed), CycleAction::Wait);
    assert_eq!(s.phase, CyclePhase::Idle);
    s.step(CycleEvent::Tick);
    assert_eq!(s.step(CycleEvent::Tick), CycleAction::Wait);
    assert_eq!(s.phase, CyclePhase::Fetching);
    assert_eq!(s.watermark, ts(100));
}

#[test]
fn watermark_never_moves_back_over_cycles() {
    let mut s = source(3, 0);
    let mut seen = vec![s.watermark.nanos];
    for round in 0..4i64 {
        s.step(CycleEvent::Tick);
        let base = s.watermark.nanos;
        s.step(CycleEvent::Fetched { rows: rows(&[base + 1, base + 2 + round], 10) });
        s.step(CycleEvent::BatchSent);
        if round == 2 {
            s.step(CycleEvent::CommitFailed);
        } else {
            s.step(CycleEvent::Committed);
        }
        seen.push(s.watermark.nanos);
    }
    assert_eq!(seen, vec![0, 2, 5, 5, 10]);
}

#[test]
fn first_cycle_without_watermark_fetches_from_one_day_back() {
    let now = 1_700_000_000_000_000_000i64;
    let start = initial_watermark(None, ts(now));
    let mut s = SourceSync::new(BatchCaps { max_docs: 10, max_payload_bytes: 1000 }, start.last_processed_timestamp);
    assert_eq!(s.step(CycleEvent::Tick), CycleAction::Fetch { since: ts(now - 86_400_000_000_000) });
}
