use ipcmanview::scan::{Scan, ScanRange, ScanRangeError, MS_PER_DAY, SCAN_EPOCH_MS, SCAN_PERIOD_MS};
use ipcmanview::scanstore::{ScanActor, ScanCamera, ScanDb, ScanKind, ScanKindPending};

const DAY: i64 = MS_PER_DAY;

#[test]
fn scan_range_rejects_bad_windows() {
    let now = SCAN_EPOCH_MS + 100 * DAY;
    assert_eq!(
        ScanRange::new(now, now - 1, now),
        Err(ScanRangeError::StartAfterEnd)
    );
    assert_eq!(
        ScanRange::new(SCAN_EPOCH_MS, now + 1, now),
        Err(ScanRangeError::EndInFuture)
    );
    assert_eq!(
        ScanRange::new(SCAN_EPOCH_MS - 1, now, now),
        Err(ScanRangeError::StartBeforeEpoch)
    );
    assert!(ScanRange::new(SCAN_EPOCH_MS, now, now).is_ok());
}

#[test]
fn chunks_tile_the_window_newest_first() {
    let start = SCAN_EPOCH_MS;
    let end = start + 75 * DAY;
    let range = ScanRange { start, end };
    let chunks = range.chunks();

    assert_eq!(chunks.len(), 3);
    assert_eq!(chunks[0].end, end);
    assert_eq!(chunks[0].start, end - SCAN_PERIOD_MS);
    assert_eq!(chunks[1].end, chunks[0].start);
    assert_eq!(chunks[2].end, chunks[1].start);
    assert_eq!(chunks[2].start, start);
    for w in chunks.windows(2) {
        assert!(w[0].percent_bp <= w[1].percent_bp);
    }
    // 30 of 75 days, then 60 of 75, then all of it.
    assert_eq!(chunks[0].percent_bp, 4000);
    assert_eq!(chunks[1].percent_bp, 8000);
    assert_eq!(chunks[2].percent_bp, 10000);
}

#[test]
fn chunks_of_an_empty_or_tiny_window() {
    let range = ScanRange { start: SCAN_EPOCH_MS, end: SCAN_EPOCH_MS };
    assert_eq!(range.chunks().len(), 0);

    // A window under one day has no whole-day progress to report.
    let range = ScanRange { start: SCAN_EPOCH_MS, end: SCAN_EPOCH_MS + 2 * 3_600_000 };
    let chunks = range.chunks();
    assert_eq!(chunks.len(), 1);
    assert_eq!(chunks[0].percent_bp, 0);
}

#[test]
fn iterator_walks_backward() {
    let start = SCAN_EPOCH_MS;
    let end = start + 45 * DAY;
    let mut it = ScanRange { start, end }.iter();
    let (first, p1) = it.next().unwrap();
    assert_eq!(first.end, end);
    assert_eq!(first.start, end - SCAN_PERIOD_MS);
    let (second, p2) = it.next().unwrap();
    assert_eq!(second.end, first.start);
    assert_eq!(second.start, start);
    assert!(p1 <= p2);
    assert_eq!(p2, 10000);
    assert!(it.next().is_none());
}

fn store_with_cameras(ids: &[i64], cursor: i64) -> ScanDb {
    let mut db = ScanDb::new();
    for id in ids {
        db.cameras.push(ScanCamera { id: *id, scan_cursor: cursor });
    }
    db
}

#[test]
fn one_active_scan_per_camera() {
    let now_wall = SCAN_EPOCH_MS + 10 * DAY;
    let mut db = store_with_cameras(&[1], SCAN_EPOCH_MS);

    // Two different requests for the same camera.
    db.queue(1, ScanKindPending::Full);
    db.queue(1, ScanKindPending::Cursor);
    assert_eq!(db.pending.len(), 2);

    // Only one can be claimed while the camera's run is active.
    let a = db.next(now_wall, 0).unwrap();
    assert_eq!(a.camera_id, 1);
    assert_eq!(db.active.len(), 1);
    assert!(db.next(now_wall, 0).is_none());
    assert_eq!(db.active.len(), 1);
    assert_eq!(db.pending.len(), 1);

    // Once it ends, the second request gets its turn.
    db.end(&a, now_wall, 5);
    assert_eq!(db.active.len(), 0);
    let b = db.next(now_wall, 6).unwrap();
    assert_eq!(b.camera_id, 1);
    assert_eq!(b.kind, ScanKind::Cursor);
    assert_eq!(db.active.len(), 1);
}

#[test]
fn drain_claims_each_camera_once() {
    let now_wall = SCAN_EPOCH_MS + 10 * DAY;
    let mut db = store_with_cameras(&[1, 2, 3], SCAN_EPOCH_MS);
    db.queue_all(ScanKindPending::Cursor);
    db.queue(2, ScanKindPending::Full);

    let actors = db.drain(now_wall, 0);
    assert_eq!(actors.len(), 3);
    let mut ids: Vec<i64> = actors.iter().map(|a| a.camera_id).collect();
    ids.sort();
    assert_eq!(ids, vec![1, 2, 3]);
    assert_eq!(db.active.len(), 3);
    // Camera 2 still has its second request pending for later.
    assert_eq!(db.pending.len(), 1);
    assert_eq!(db.pending[0].camera_id, 2);
}

#[test]
fn queue_replaces_same_kind() {
    let mut db = store_with_cameras(&[1], SCAN_EPOCH_MS);
    let r = ScanRange { start: SCAN_EPOCH_MS, end: SCAN_EPOCH_MS + DAY };
    db.queue(1, ScanKindPending::Manual(r));
    let r2 = ScanRange { start: SCAN_EPOCH_MS, end: SCAN_EPOCH_MS + 2 * DAY };
    db.queue(1, ScanKindPending::Manual(r2));
    assert_eq!(db.pending.len(), 1);
    assert_eq!(db.pending[0].range_end, SCAN_EPOCH_MS + 2 * DAY);
}

#[test]
fn cursor_never_moves_backward() {
    let early = SCAN_EPOCH_MS + 50 * DAY;
    let late = SCAN_EPOCH_MS + 100 * DAY;
    let mut db = store_with_cameras(&[1], SCAN_EPOCH_MS);

    // A cursor run starts early, covering up to `early`.
    db.queue(1, ScanKindPending::Cursor);
    let slow = db.next(early, 0).unwrap();
    db.active.clear();

    // A later-starting full run finishes first and advances the cursor
    // beyond the cursor run's whole window.
    db.queue(1, ScanKindPending::Full);
    let fast = db.next(late, 1).unwrap();
    db.end(&fast, late, 2);
    let advanced = db.cameras[0].scan_cursor;
    assert!(advanced > slow.range.end);

    // The slow, earlier-started run ends later: its lower target must not
    // rewind the cursor.
    db.end(&slow, late, 3);
    assert_eq!(db.cameras[0].scan_cursor, advanced);
}

#[test]
fn end_saves_history_and_retry_flags() {
    let now_wall = SCAN_EPOCH_MS + 40 * DAY;
    let mut db = store_with_cameras(&[1], SCAN_EPOCH_MS);

    // A failed full run is recorded and retryable.
    db.queue(1, ScanKindPending::Full);
    let mut run = db.next(now_wall, 100).unwrap();
    run.error = "device unreachable".to_string();
    db.end(&run, now_wall, 350);
    assert_eq!(db.completed.len(), 1);
    let row = &db.completed[0];
    assert!(!row.success);
    assert!(row.can_retry);
    assert!(!row.retry_pending);
    assert_eq!(row.duration, 250);
    let id = row.id;

    // Retrying flags it; the next claim picks it up and resets the flags.
    db.retry(id);
    assert!(db.completed[0].retry_pending);
    let again = db.next(now_wall, 400).unwrap();
    assert_eq!(again.camera_id, 1);
    assert!(!db.completed[0].retry_pending);
    assert!(!db.completed[0].can_retry);

    // Cursor runs are routine and never recorded.
    db.active.clear();
    db.queue(1, ScanKindPending::Cursor);
    let run = db.next(now_wall, 500).unwrap();
    db.end(&run, now_wall, 501);
    assert_eq!(db.completed.len(), 1);
}

#[test]
fn cursor_target_respects_the_safety_lag() {
    let now_wall = SCAN_EPOCH_MS + 30 * DAY;
    let actor = ScanActor::full(9, now_wall, 0);
    let target = actor.should_update_scan_cursor(now_wall).unwrap();
    assert_eq!(target, Scan::cursor(now_wall));
    assert!(target < now_wall);

    let manual = ScanActor::manual(
        9,
        ScanRange { start: SCAN_EPOCH_MS, end: SCAN_EPOCH_MS + DAY },
        now_wall,
        0,
    );
    assert!(manual.should_update_scan_cursor(now_wall).is_none());
}
