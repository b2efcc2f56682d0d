use ipcmanview::filestore::{CameraFile, CameraFileQueryResult, CameraScanResult, FileDb};
use ipcmanview::mediafile::FindNextFileInfo;
use ipcmanview::query::{
    CameraFileQuery, CameraFileQueryCursor, CameraFileQueryFilter, CursorError,
};
use ipcmanview::scanstore::{ScanCamera, ScanDb};

#[test]
fn it_file_query_cursor() {
    let (id, time) = (4i64, 1_675_641_600_000i64);

    assert_eq!(
        CameraFileQueryCursor::from(&CameraFileQueryCursor::to(id, time)).unwrap(),
        (id, time)
    );
}

#[test]
fn cursor_round_trips_extremes() {
    for (id, ms) in [
        (0i64, 0i64),
        (-3, -1),
        (i64::MAX, i64::MIN),
        (i64::MIN, i64::MAX),
    ] {
        let token = CameraFileQueryCursor::to(id, ms);
        assert_eq!(CameraFileQueryCursor::from(&token).unwrap(), (id, ms));
    }
}

#[test]
fn cursor_rejects_malformed_tokens() {
    assert_eq!(
        CameraFileQueryCursor::from("no separator"),
        Err(CursorError::NoSeparator)
    );
    assert_eq!(CameraFileQueryCursor::from("x_1"), Err(CursorError::BadId));
    assert_eq!(CameraFileQueryCursor::from("1_y"), Err(CursorError::BadTime));
    assert_eq!(CameraFileQueryCursor::from("_5"), Err(CursorError::BadId));
    assert_eq!(CameraFileQueryCursor::from("5_"), Err(CursorError::BadTime));
    // One past the i64 range in either direction.
    assert_eq!(
        CameraFileQueryCursor::from("9223372036854775808_0"),
        Err(CursorError::BadId)
    );
    assert_eq!(
        CameraFileQueryCursor::from("1_-9223372036854775809"),
        Err(CursorError::BadTime)
    );
}

fn record(path: &str, secs: i64, kind: &str, events: Vec<String>) -> FindNextFileInfo {
    FindNextFileInfo {
        channel: 0,
        start_time: secs,
        end_time: secs + 5,
        length: 512,
        kind: kind.to_string(),
        file_path: path.to_string(),
        duration: None,
        disk: 0,
        video_stream: "Main".to_string(),
        flags: vec![],
        events,
        cluster: None,
        partition: None,
        pic_index: None,
        repeat: None,
        work_dir: None,
        work_dir_sn: None,
    }
}

#[test]
fn upsert_inserts_refreshes_and_drops_collisions() {
    let mut db = FileDb::new();

    // Insert.
    assert!(db.upsert_one(1, &record("a[M][0@0][1][].jpg", 100, "jpg", vec![]), 10));
    assert_eq!(db.files.len(), 1);
    let first_updated = db.files[0].updated_at;
    assert_eq!(first_updated, 10);

    // Same camera and path: only the timestamp moves.
    assert!(db.upsert_one(1, &record("a[M][0@0][1][].jpg", 100, "jpg", vec![]), 20));
    assert_eq!(db.files.len(), 1);
    assert_eq!(db.files[0].updated_at, 20);

    // Different path, same derived start time: silently dropped.
    assert!(!db.upsert_one(1, &record("b[M][0@0][1][].jpg", 100, "jpg", vec![]), 30));
    assert_eq!(db.files.len(), 1);

    // Same path on another camera is its own row.
    assert!(db.upsert_one(2, &record("a[M][0@0][1][].jpg", 100, "jpg", vec![]), 30));
    assert_eq!(db.files.len(), 2);
}

#[test]
fn upsert_files_keeps_rows_sorted_and_catalogues_events() {
    let mut db = FileDb::new();
    let batch = vec![
        record("a[M][0@0][1][].jpg", 100, "jpg", vec!["AlarmLocal".to_string()]),
        record("b[M][0@0][2][].dav", 300, "dav", vec!["VideoMotion".to_string()]),
        record("c[M][0@0][3][].jpg", 200, "jpg", vec!["AlarmLocal".to_string()]),
    ];
    let affected = db.upsert_files(7, &batch, 50);
    assert_eq!(affected, 3);
    assert_eq!(db.files.len(), 3);
    // Newest first.
    assert!(db.files[0].start_time > db.files[1].start_time);
    assert!(db.files[1].start_time > db.files[2].start_time);
    // Each event name once.
    let names: Vec<&str> = db.events.iter().map(|e| e.as_str()).collect();
    assert_eq!(names, vec!["AlarmLocal", "VideoMotion"]);
}

#[test]
fn evict_stale_removes_only_unrefreshed_rows_in_window() {
    let mut db = FileDb::new();
    db.upsert_files(
        1,
        &vec![
            record("a[M][0@0][1][].jpg", 100, "jpg", vec![]),
            record("b[M][0@0][2][].jpg", 200, "jpg", vec![]),
            record("c[M][0@0][3][].jpg", 300, "jpg", vec![]),
        ],
        10,
    );
    // A later pass refreshes only b.
    db.upsert_files(1, &vec![record("b[M][0@0][2][].jpg", 200, "jpg", vec![])], 40);

    // Evicting the scanned window at timestamp 40 drops a and c.
    let deleted = db.evict_stale(1, 40, 0, 400_000);
    assert_eq!(deleted, 2);
    assert_eq!(db.files.len(), 1);
    assert_eq!(db.files[0].file_path, "b[M][0@0][2][].jpg");

    // Another camera's rows are untouched when camera 1 is evicted again.
    db.upsert_files(2, &vec![record("d[M][0@0][4][].jpg", 100, "jpg", vec![])], 50);
    let deleted = db.evict_stale(1, 60, 0, 400_000);
    assert_eq!(deleted, 1);
    assert_eq!(db.files.len(), 1);
    assert_eq!(db.files[0].camera_id, 2);
}

fn filled_db() -> FileDb {
    let mut db = FileDb::new();
    let batch: Vec<FindNextFileInfo> = (1..=6)
        .map(|i| {
            let kind = if i % 2 == 0 { "dav" } else { "jpg" };
            record(
                &format!("f{}[M][0@0][{}][].x", i, i),
                1000 * i,
                kind,
                vec![format!("E{}", i % 2)],
            )
        })
        .collect();
    db.upsert_files(1, &batch, 5);
    db
}

#[test]
fn query_pages_forward_and_backward() {
    let db = filled_db();
    let filter = CameraFileQueryFilter::new();
    let q = CameraFileQuery { cursor: CameraFileQueryCursor::Unset, limit: 2, filter };

    // First page: the two newest rows.
    let page1 = CameraFile::query_db(&db, &q);
    assert_eq!(page1.count, 2);
    assert!(page1.has_after);
    assert!(!page1.has_before);
    assert_eq!(page1.files[0].start_time / 1000, 6000);
    let after = CameraFileQueryCursor::from(&page1.after).unwrap();

    // Second page continues where the first ended.
    let q2 = CameraFileQuery {
        cursor: CameraFileQueryCursor::After(after),
        limit: 2,
        filter: CameraFileQueryFilter::new(),
    };
    let page2 = CameraFile::query_db(&db, &q2);
    assert_eq!(page2.count, 2);
    assert!(page2.has_after);
    assert!(page2.has_before);
    assert!(page2.files[0].start_time < page1.files[1].start_time);

    // Paging back from the second page gives the first again.
    let before = CameraFileQueryCursor::from(&page2.before).unwrap();
    let q3 = CameraFileQuery {
        cursor: CameraFileQueryCursor::Before(before),
        limit: 2,
        filter: CameraFileQueryFilter::new(),
    };
    let page3 = CameraFile::query_db(&db, &q3);
    assert_eq!(page3.count, 2);
    assert!(page3.has_after);
    assert!(!page3.has_before);
    let a: Vec<i64> = page1.files.iter().map(|f| f.start_time).collect();
    let b: Vec<i64> = page3.files.iter().map(|f| f.start_time).collect();
    assert_eq!(a, b);
}

#[test]
fn query_filters_by_kind_and_event() {
    let db = filled_db();
    let filter = CameraFileQueryFilter::new().kinds(vec!["dav".to_string()]);
    let q = CameraFileQuery { cursor: CameraFileQueryCursor::Unset, limit: 10, filter };
    let r: CameraFileQueryResult = CameraFile::query_db(&db, &q);
    assert_eq!(r.count, 3);
    for f in &r.files {
        assert_eq!(f.kind, "dav");
    }

    let filter = CameraFileQueryFilter::new().events(vec!["E1".to_string()]);
    let q = CameraFileQuery { cursor: CameraFileQueryCursor::Unset, limit: 10, filter };
    let r = CameraFile::query_db(&db, &q);
    assert_eq!(r.count, 3);

    let filter = CameraFileQueryFilter::new().camera_ids(vec![9]);
    let q = CameraFileQuery { cursor: CameraFileQueryCursor::Unset, limit: 10, filter };
    let r = CameraFile::query_db(&db, &q);
    assert_eq!(r.count, 0);
    assert_eq!(r.before, "");
    assert_eq!(r.after, "");
}

#[test]
fn count_matches_filter() {
    let db = filled_db();
    let all = CameraFileQueryFilter::new();
    assert_eq!(CameraFile::count(&db, &all), 6);
    let start_bound = CameraFileQueryFilter::new().start(Some(3_000_500));
    assert_eq!(CameraFile::count(&db, &start_bound), 3);
}

#[test]
fn scan_result_accumulates() {
    let mut total = CameraScanResult::default();
    total.combine(CameraScanResult { upserted: 3, deleted: 1 });
    total.combine(CameraScanResult { upserted: 2, deleted: 0 });
    assert_eq!(total, CameraScanResult { upserted: 5, deleted: 1 });
}

#[test]
fn query_without_cursor_triggers_catchup_scans() {
    let db = filled_db();
    let mut scans = ScanDb::new();
    scans.cameras.push(ScanCamera { id: 1, scan_cursor: ipcmanview::scan::SCAN_EPOCH_MS });

    let q = CameraFileQuery {
        cursor: CameraFileQueryCursor::Unset,
        limit: 2,
        filter: CameraFileQueryFilter::new(),
    };
    let now = ipcmanview::scan::SCAN_EPOCH_MS + 86_400_000;
    let (claimed, page) = CameraFile::query(&mut scans, &db, &q, now, 0);
    assert_eq!(claimed.len(), 1);
    assert_eq!(claimed[0].camera_id, 1);
    assert_eq!(scans.active.len(), 1);
    assert_eq!(page.count, 2);

    // A cursor-addressed page triggers nothing new.
    let after = CameraFileQueryCursor::from(&page.after).unwrap();
    let q2 = CameraFileQuery {
        cursor: CameraFileQueryCursor::After(after),
        limit: 10,
        filter: CameraFileQueryFilter::new(),
    };
    let (claimed, page2) = CameraFile::query(&mut scans, &db, &q2, now, 1);
    assert_eq!(claimed.len(), 0);
    assert_eq!(page2.count, 4);
}

#[test]
fn query_builders_clamp_and_anchor() {
    let q = CameraFileQuery::new(CameraFileQueryFilter::new());
    assert_eq!(q.limit, 25);
    let q = q.maybe_limit(Some(7));
    assert_eq!(q.limit, 10);
    let q = q.maybe_limit(Some(500));
    assert_eq!(q.limit, 100);

    let q = q.maybe_after(Some("".to_string())).unwrap();
    assert!(matches!(q.cursor, CameraFileQueryCursor::Unset));
    let q = q.maybe_after(Some("3_99".to_string())).unwrap();
    assert!(matches!(q.cursor, CameraFileQueryCursor::After((3, 99))));
    let q = q.maybe_before(Some("4_100".to_string())).unwrap();
    assert!(matches!(q.cursor, CameraFileQueryCursor::Before((4, 100))));
    assert!(q.maybe_before(Some("bogus".to_string())).is_err());
}
