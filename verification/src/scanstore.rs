//! The scan lifecycle: pending requests, active runs, completed history,
//! and the per-camera scan cursor.
//!
//! The store models the transactional tables the scheduler works against.
//! Its well-formedness (`wf`) carries the scheduling invariants: at most one
//! active run per camera, at most one pending request per camera and kind,
//! unique history ids, and every pending request referring to a known
//! camera. Every operation preserves `wf`; claiming work (`next`) only ever
//! activates a camera that has no active run, and ending a run advances the
//! camera's scan cursor monotonically — a late, slow run can never rewind a
//! cursor a faster one has already advanced.
//!
//! Wall-clock times are milliseconds since the epoch; `instant`/`mono`
//! values are monotonic-clock milliseconds used only for durations.

use vstd::prelude::*;

use crate::scan::{Scan, ScanRange, SCAN_CURSOR_LAG_MS, SCAN_EPOCH_MS};

verus! {

use vstd::string::StrSliceExecFns;

/// The kind of a scan: the full device history, an incremental catch-up
/// from the camera's cursor, or an explicit range.
#[derive(Clone, Copy, Debug, PartialEq, Eq, Structural)]
pub enum ScanKind {
    Full,
    Cursor,
    Manual,
}

/// A scan request as queued: `Manual` carries its range.
#[derive(Clone, Copy, Debug)]
pub enum ScanKindPending {
    Full,
    Cursor,
    Manual(ScanRange),
}

impl ScanKindPending {
    /// The bare kind of the request.
    pub fn kind(&self) -> (r: ScanKind)
        ensures
            r == spec_kind_of(*self),
    {
        match self {
            ScanKindPending::Full => ScanKind::Full,
            ScanKindPending::Cursor => ScanKind::Cursor,
            ScanKindPending::Manual(_) => ScanKind::Manual,
        }
    }

    /// The range a pending row stores: the request's own for `Manual`, the
    /// epoch placeholder otherwise (those kinds derive their range when
    /// claimed).
    pub fn range(&self) -> (r: (i64, i64))
        ensures
            (r.0, r.1) == spec_pending_range(*self),
    {
        if let ScanKindPending::Manual(scan_range) = self {
            (scan_range.start, scan_range.end)
        } else {
            (Scan::epoch(), Scan::epoch())
        }
    }
}

pub open spec fn spec_kind_of(k: ScanKindPending) -> ScanKind {
    match k {
        ScanKindPending::Full => ScanKind::Full,
        ScanKindPending::Cursor => ScanKind::Cursor,
        ScanKindPending::Manual(_) => ScanKind::Manual,
    }
}

pub open spec fn spec_pending_range(k: ScanKindPending) -> (i64, i64) {
    match k {
        ScanKindPending::Manual(r) => (r.start, r.end),
        _ => (SCAN_EPOCH_MS, SCAN_EPOCH_MS),
    }
}

/// A camera's id and its persisted "scanned up to here" cursor.
#[derive(Clone, Copy, Debug, PartialEq, Eq, Structural)]
pub struct ScanCamera {
    pub id: i64,
    pub scan_cursor: i64,
}

/// A queued scan request.
#[derive(Clone, Copy, Debug, PartialEq, Eq, Structural)]
pub struct ScanPending {
    pub id: i64,
    pub camera_id: i64,
    pub kind: ScanKind,
    pub range_start: i64,
    pub range_end: i64,
}

/// An active run's row: the full range, the cursor within it, and running
/// counters. Percentages are in basis points.
#[derive(Clone, Copy, Debug, PartialEq, Eq, Structural)]
pub struct ScanActive {
    pub camera_id: i64,
    pub kind: ScanKind,
    pub range_start: i64,
    pub range_end: i64,
    pub started_at: i64,
    pub range_cursor: i64,
    pub percent_bp: u32,
    pub upserted: i64,
    pub deleted: i64,
}

/// A completed run: everything from the active row plus duration, outcome
/// and the retry flags.
#[derive(Clone, Debug)]
pub struct ScanCompleted {
    pub id: i64,
    pub camera_id: i64,
    pub kind: ScanKind,
    pub range_start: i64,
    pub range_end: i64,
    pub started_at: i64,
    pub range_cursor: i64,
    pub duration: i64,
    pub error: String,
    pub percent_bp: u32,
    pub upserted: i64,
    pub deleted: i64,
    pub success: bool,
    pub retry_pending: bool,
    pub can_retry: bool,
}

/// One run in flight: what the worker carries while it walks the range.
#[derive(Debug)]
pub struct ScanActor {
    pub camera_id: i64,
    pub range: ScanRange,
    pub kind: ScanKind,
    pub started_at: i64,
    pub instant: i64,
    pub error: String,
}

/// A freshly started actor: the given identity and range, no error yet.
pub open spec fn spec_fresh_actor(
    a: ScanActor,
    camera_id: i64,
    start: i64,
    end: i64,
    kind: ScanKind,
    now_wall: i64,
    now_mono: i64,
) -> bool {
    &&& a.camera_id == camera_id
    &&& a.range.start == start
    &&& a.range.end == end
    &&& a.kind == kind
    &&& a.started_at == now_wall
    &&& a.instant == now_mono
    &&& a.error@ == Seq::<char>::empty()
}

impl ScanActor {
    fn new_with(camera_id: i64, start: i64, end: i64, kind: ScanKind, now_wall: i64, now_mono: i64)
        -> (r: ScanActor)
        ensures
            spec_fresh_actor(r, camera_id, start, end, kind, now_wall, now_mono),
    {
        ScanActor {
            camera_id,
            range: ScanRange { start, end },
            kind,
            started_at: now_wall,
            instant: now_mono,
            error: String::new(),
        }
    }

    /// A manual scan over an explicit range.
    pub fn manual(camera_id: i64, range: ScanRange, now_wall: i64, now_mono: i64) -> (r: ScanActor)
        ensures
            spec_fresh_actor(
                r,
                camera_id,
                range.start,
                range.end,
                ScanKind::Manual,
                now_wall,
                now_mono,
            ),
    {
        Self::new_with(camera_id, range.start, range.end, ScanKind::Manual, now_wall, now_mono)
    }

    /// A full scan: the whole history from the epoch to now.
    pub fn full(camera_id: i64, now_wall: i64, now_mono: i64) -> (r: ScanActor)
        ensures
            spec_fresh_actor(
                r,
                camera_id,
                SCAN_EPOCH_MS,
                now_wall,
                ScanKind::Full,
                now_wall,
                now_mono,
            ),
    {
        Self::new_with(camera_id, Scan::epoch(), now_wall, ScanKind::Full, now_wall, now_mono)
    }

    /// An incremental scan: from the camera's cursor to now.
    pub fn cursor(scan_camera: ScanCamera, now_wall: i64, now_mono: i64) -> (r: ScanActor)
        ensures
            spec_fresh_actor(
                r,
                scan_camera.id,
                scan_camera.scan_cursor,
                now_wall,
                ScanKind::Cursor,
                now_wall,
                now_mono,
            ),
    {
        Self::new_with(
            scan_camera.id,
            scan_camera.scan_cursor,
            now_wall,
            ScanKind::Cursor,
            now_wall,
            now_mono,
        )
    }

    /// A retried run: the completed row's range up to where it got.
    pub fn from_completed(value: &ScanCompleted, now_wall: i64, now_mono: i64) -> (r: ScanActor)
        ensures
            spec_fresh_actor(
                r,
                value.camera_id,
                value.range_start,
                value.range_cursor,
                value.kind,
                now_wall,
                now_mono,
            ),
    {
        Self::new_with(
            value.camera_id,
            value.range_start,
            value.range_cursor,
            value.kind,
            now_wall,
            now_mono,
        )
    }

    /// Where the camera's cursor may advance to when this run succeeds:
    /// the run's end, but never closer to now than the safety lag — and
    /// only for the cursor-advancing kinds.
    pub fn should_update_scan_cursor(&self, now_wall: i64) -> (r: Option<i64>)
        requires
            now_wall >= i64::MIN + SCAN_CURSOR_LAG_MS,
        ensures
            self.kind is Manual ==> r is None,
            !(self.kind is Manual) ==> (r matches Some(sc) && sc == spec_cursor_target(
                *self,
                now_wall,
            )),
    {
        match self.kind {
            ScanKind::Full | ScanKind::Cursor => {
                let current = Scan::cursor(now_wall);
                if self.range.end < current {
                    Some(self.range.end)
                } else {
                    Some(current)
                }
            },
            ScanKind::Manual => None,
        }
    }

    /// Whether the run belongs in history: routine `Cursor` runs are elided.
    pub fn should_save(&self) -> (r: bool)
        ensures
            r == !(self.kind is Cursor),
    {
        match self.kind {
            ScanKind::Full | ScanKind::Manual => true,
            ScanKind::Cursor => false,
        }
    }

    /// How long the run took, against the monotonic clock.
    pub fn duration(&self, now_mono: i64) -> (r: i64)
        requires
            0 <= self.instant <= now_mono,
        ensures
            r == now_mono - self.instant,
    {
        now_mono - self.instant
    }

    /// A run succeeded when no error was recorded.
    pub fn success(&self) -> (r: bool)
        ensures
            r == (self.error@.len() == 0),
    {
        self.error.as_str().unicode_len() == 0
    }

    /// Only failed runs may be retried (and `Cursor` runs never reach
    /// history at all).
    pub fn can_retry(&self) -> (r: bool)
        ensures
            r == (self.error@.len() != 0),
    {
        self.error.as_str().unicode_len() != 0
    }
}

/// Where a successful cursor-advancing run may move the camera's cursor.
pub open spec fn spec_cursor_target(a: ScanActor, now_wall: i64) -> int {
    if a.range.end < now_wall - SCAN_CURSOR_LAG_MS {
        a.range.end as int
    } else {
        now_wall - SCAN_CURSOR_LAG_MS
    }
}

/// The active row a freshly claimed run starts with: the cursor at the
/// range's end, counters at zero.
pub open spec fn spec_active_row_of(a: ScanActor) -> ScanActive {
    ScanActive {
        camera_id: a.camera_id,
        kind: a.kind,
        range_start: a.range.start,
        range_end: a.range.end,
        started_at: a.started_at,
        range_cursor: a.range.end,
        percent_bp: 0,
        upserted: 0,
        deleted: 0,
    }
}

/// The actor a claimed pending request turns into: `Full` covers from the
/// epoch to now, `Cursor` from the camera's cursor to now, `Manual` its own
/// stored range.
pub open spec fn spec_actor_of_pending(
    a: ScanActor,
    db: ScanDb,
    p: ScanPending,
    now_wall: i64,
    now_mono: i64,
) -> bool {
    match p.kind {
        ScanKind::Full => spec_fresh_actor(
            a,
            p.camera_id,
            SCAN_EPOCH_MS,
            now_wall,
            ScanKind::Full,
            now_wall,
            now_mono,
        ),
        ScanKind::Cursor => spec_fresh_actor(
            a,
            p.camera_id,
            db.spec_camera_cursor(p.camera_id),
            now_wall,
            ScanKind::Cursor,
            now_wall,
            now_mono,
        ),
        ScanKind::Manual => spec_fresh_actor(
            a,
            p.camera_id,
            p.range_start,
            p.range_end,
            ScanKind::Manual,
            now_wall,
            now_mono,
        ),
    }
}

/// A completed row once its retry has been claimed: both flags cleared.
pub open spec fn spec_reset_retry(c: ScanCompleted) -> ScanCompleted {
    ScanCompleted {
        id: c.id,
        camera_id: c.camera_id,
        kind: c.kind,
        range_start: c.range_start,
        range_end: c.range_end,
        started_at: c.started_at,
        range_cursor: c.range_cursor,
        duration: c.duration,
        error: c.error,
        percent_bp: c.percent_bp,
        upserted: c.upserted,
        deleted: c.deleted,
        success: c.success,
        retry_pending: false,
        can_retry: false,
    }
}

// ---------------------------------------------------------------------------
// The store
// ---------------------------------------------------------------------------
/// The scheduler's tables: cameras (with their cursors), pending requests,
/// active runs and completed history, plus the id counters.
#[derive(Debug)]
pub struct ScanDb {
    pub cameras: Vec<ScanCamera>,
    pub pending: Vec<ScanPending>,
    pub active: Vec<ScanActive>,
    pub completed: Vec<ScanCompleted>,
    pub next_pending_id: i64,
    pub next_completed_id: i64,
}

pub open spec fn spec_unique_camera_ids(s: Seq<ScanCamera>) -> bool {
    forall|i: int, j: int| 0 <= i < j < s.len() ==> s[i].id != s[j].id
}

/// The central invariant: no camera ever has two active runs.
pub open spec fn spec_unique_active(s: Seq<ScanActive>) -> bool {
    forall|i: int, j: int| 0 <= i < j < s.len() ==> s[i].camera_id != s[j].camera_id
}

pub open spec fn spec_unique_pending_keys(s: Seq<ScanPending>) -> bool {
    forall|i: int, j: int|
        0 <= i < j < s.len() ==> !(s[i].camera_id == s[j].camera_id && s[i].kind == s[j].kind)
}

pub open spec fn spec_completed_ids_below(s: Seq<ScanCompleted>, bound: i64) -> bool {
    forall|i: int| 0 <= i < s.len() ==> (#[trigger] s[i]).id < bound
}

pub open spec fn spec_unique_completed_ids(s: Seq<ScanCompleted>) -> bool {
    forall|i: int, j: int| 0 <= i < j < s.len() ==> s[i].id != s[j].id
}

/// Whether the store holds a pending request with the given key and range.
pub open spec fn spec_has_pending(
    s: Seq<ScanPending>,
    camera_id: i64,
    kind: ScanKind,
    rs: i64,
    re: i64,
) -> bool {
    exists|j: int|
        0 <= j < s.len() && ((#[trigger] s[j]).camera_id == camera_id && s[j].kind == kind
            && s[j].range_start == rs && s[j].range_end == re)
}

/// After removing index `f` and pushing `x`, every other element of the
/// original sequence is still present, one index to the left past `f`.
proof fn lemma_remove_push_reindex<T>(pre: Seq<T>, f: int, x: T, j: int)
    requires
        0 <= f < pre.len(),
        0 <= j < pre.len(),
        j != f,
    ensures
        ({
            let fin = pre.remove(f).push(x);
            let j2: int = if j < f {
                j
            } else {
                j - 1
            };
            &&& 0 <= j2 < fin.len()
            &&& fin[j2] == pre[j]
        }),
{
    if j < f {
        assert(pre.remove(f)[j] == pre[j]);
    } else {
        assert(pre.remove(f)[j - 1] == pre[j]);
    }
}

impl ScanDb {
    pub open spec fn spec_has_camera(self, camera_id: i64) -> bool {
        exists|i: int| 0 <= i < self.cameras@.len() && (#[trigger] self.cameras@[i]).id == camera_id
    }

    pub open spec fn spec_has_active(self, camera_id: i64) -> bool {
        exists|i: int|
            0 <= i < self.active@.len() && (#[trigger] self.active@[i]).camera_id == camera_id
    }

    /// Well-formedness: unique cameras, at most one active run per camera,
    /// at most one pending request per camera and kind, pending requests
    /// referring to known cameras, and unique history ids.
    pub open spec fn wf(self) -> bool {
        &&& spec_unique_camera_ids(self.cameras@)
        &&& spec_unique_active(self.active@)
        &&& spec_unique_pending_keys(self.pending@)
        &&& (forall|i: int|
            0 <= i < self.pending@.len() ==> self.spec_has_camera(
                (#[trigger] self.pending@[i]).camera_id,
            ))
        &&& spec_unique_completed_ids(self.completed@)
        &&& spec_completed_ids_below(self.completed@, self.next_completed_id)
    }

    /// An empty store, as after crash recovery cleared the active rows.
    pub fn new() -> (r: ScanDb)
        ensures
            r.cameras@.len() == 0,
            r.pending@.len() == 0,
            r.active@.len() == 0,
            r.completed@.len() == 0,
            r.wf(),
    {
        ScanDb {
            cameras: Vec::new(),
            pending: Vec::new(),
            active: Vec::new(),
            completed: Vec::new(),
            next_pending_id: 0,
            next_completed_id: 0,
        }
    }

    /// At most one active run per camera: two active rows never share one.
    pub proof fn lemma_one_active_per_camera(self, i: int, j: int)
        requires
            self.wf(),
            0 <= i < self.active@.len(),
            0 <= j < self.active@.len(),
            i != j,
        ensures
            self.active@[i].camera_id != self.active@[j].camera_id,
    {
    }

    /// Startup recovery: leftover active rows from an interrupted process
    /// are cleared; the interrupted scans become eligible to be re-queued.
    pub fn clear_active(&mut self)
        ensures
            final(self).active@.len() == 0,
            final(self).cameras == old(self).cameras,
            final(self).pending == old(self).pending,
            final(self).completed == old(self).completed,
            final(self).next_pending_id == old(self).next_pending_id,
            final(self).next_completed_id == old(self).next_completed_id,
            old(self).wf() ==> final(self).wf(),
    {
        self.active = Vec::new();
        proof {
            if old(self).wf() {
                assert forall|a: int|
                    0 <= a < self.pending@.len() implies self.spec_has_camera(
                    (#[trigger] self.pending@[a]).camera_id,
                ) by {
                    assert(old(self).spec_has_camera(self.pending@[a].camera_id));
                    let c0 = choose|c: int|
                        0 <= c < old(self).cameras@.len() && (#[trigger] old(self).cameras@[c]).id
                            == self.pending@[a].camera_id;
                    assert(self.cameras@[c0].id == self.pending@[a].camera_id);
                }
            }
        }
    }

    fn find_camera(&self, camera_id: i64) -> (r: Option<usize>)
        ensures
            r matches Some(k) ==> 0 <= k < self.cameras@.len() && self.cameras@[k as int].id
                == camera_id,
            r is None ==> !self.spec_has_camera(camera_id),
    {
        let n = self.cameras.len();
        for k in 0..n
            invariant
                n == self.cameras@.len(),
                forall|i: int| 0 <= i < k ==> (#[trigger] self.cameras@[i]).id != camera_id,
        {
            if self.cameras[k].id == camera_id {
                return Some(k);
            }
        }
        None
    }

    fn find_active(&self, camera_id: i64) -> (r: Option<usize>)
        ensures
            r matches Some(k) ==> 0 <= k < self.active@.len() && self.active@[k as int].camera_id
                == camera_id,
            r is None ==> !self.spec_has_active(camera_id),
    {
        let n = self.active.len();
        for k in 0..n
            invariant
                n == self.active@.len(),
                forall|i: int| 0 <= i < k ==> (#[trigger] self.active@[i]).camera_id != camera_id,
        {
            if self.active[k].camera_id == camera_id {
                return Some(k);
            }
        }
        None
    }

    /// Whether a camera has an active run.
    pub fn has_active(&self, camera_id: i64) -> (r: bool)
        ensures
            r == self.spec_has_active(camera_id),
    {
        self.find_active(camera_id).is_some()
    }

    /// Queues a scan request, replacing any pending request of the same
    /// kind for that camera.
    pub fn queue(&mut self, camera_id: i64, kind: ScanKindPending)
        requires
            old(self).wf(),
            old(self).spec_has_camera(camera_id),
            old(self).next_pending_id < i64::MAX,
        ensures
            final(self).wf(),
            final(self).cameras == old(self).cameras,
            final(self).active == old(self).active,
            final(self).completed == old(self).completed,
            final(self).next_completed_id == old(self).next_completed_id,
            final(self).next_pending_id == old(self).next_pending_id + 1,
            ({
                let new_row = ScanPending {
                    id: old(self).next_pending_id,
                    camera_id,
                    kind: spec_kind_of(kind),
                    range_start: spec_pending_range(kind).0,
                    range_end: spec_pending_range(kind).1,
                };
                &&& ((forall|k: int|
                    0 <= k < old(self).pending@.len() ==> !((#[trigger] old(
                        self,
                    ).pending@[k]).camera_id == camera_id && old(self).pending@[k].kind
                        == spec_kind_of(kind))) ==> final(self).pending@ == old(
                    self,
                ).pending@.push(new_row))
                &&& (forall|k: int|
                    0 <= k < old(self).pending@.len() && (#[trigger] old(
                        self,
                    ).pending@[k]).camera_id == camera_id && old(self).pending@[k].kind
                        == spec_kind_of(kind) ==> final(self).pending@ == old(
                        self,
                    ).pending@.remove(k).push(new_row))
            }),
    {
        let k = kind.kind();
        let (range_start, range_end) = kind.range();

        // Drop the pending request this one replaces, if any.
        let n = self.pending.len();
        let mut found: Option<usize> = None;
        for i in 0..n
            invariant
                *self == *old(self),
                n == self.pending@.len(),
                k == spec_kind_of(kind),
                found is None ==> forall|j: int|
                    0 <= j < i ==> !((#[trigger] self.pending@[j]).camera_id == camera_id
                        && self.pending@[j].kind == k),
                found matches Some(f) ==> 0 <= f < n && self.pending@[f as int].camera_id
                    == camera_id && self.pending@[f as int].kind == k,
        {
            if found.is_none() && self.pending[i].camera_id == camera_id && self.pending[i].kind
                == k {
                found = Some(i);
            }
        }
        let ghost mid = self.pending@;
        if let Some(i) = found {
            self.pending.remove(i);
            proof {
                let f = i as int;
                assert forall|j: int| 0 <= j < self.pending@.len() implies {
                    let p = #[trigger] self.pending@[j];
                    &&& mid.contains(p)
                    &&& !(p.camera_id == camera_id && p.kind == k)
                } by {
                    if j < f {
                        assert(self.pending@[j] == mid[j]);
                        assert(!(mid[j].camera_id == camera_id && mid[j].kind == k));
                    } else {
                        assert(self.pending@[j] == mid[j + 1]);
                        assert(!(mid[j + 1].camera_id == camera_id && mid[j + 1].kind == k));
                    }
                }
                assert forall|a: int, b: int| 0 <= a < b < self.pending@.len() implies !((
                #[trigger] self.pending@[a]).camera_id == (#[trigger] self.pending@[b]).camera_id
                    && self.pending@[a].kind == self.pending@[b].kind) by {
                    let a2: int = if a < f {
                        a
                    } else {
                        a + 1
                    };
                    let b2: int = if b < f {
                        b
                    } else {
                        b + 1
                    };
                    assert(self.pending@[a] == mid[a2]);
                    assert(self.pending@[b] == mid[b2]);
                }
            }
        }

        let ghost base = self.pending@;
        let row = ScanPending {
            id: self.next_pending_id,
            camera_id,
            kind: k,
            range_start,
            range_end,
        };
        self.pending.push(row);
        self.next_pending_id = self.next_pending_id + 1;

        proof {
            assert(self.pending@ == base.push(row));
            assert forall|i: int|
                0 <= i < self.pending@.len() implies self.spec_has_camera(
                (#[trigger] self.pending@[i]).camera_id,
            ) by {
                if i < self.pending@.len() - 1 {
                    let p = self.pending@[i];
                    assert(p == base[i]);
                    if found is None {
                        assert(p == mid[i]);
                        assert(mid.contains(p));
                    }
                    assert(mid.contains(p));
                    let j = choose|j: int| 0 <= j < mid.len() && mid[j] == p;
                    assert(old(self).pending@[j] == p);
                    assert(old(self).spec_has_camera(p.camera_id));
                    let ci = choose|c: int|
                        0 <= c < old(self).cameras@.len() && (#[trigger] old(
                            self,
                        ).cameras@[c]).id == p.camera_id;
                    assert(self.cameras@[ci].id == p.camera_id);
                } else {
                    assert(self.pending@[i].camera_id == camera_id);
                    let ci = choose|c: int|
                        0 <= c < old(self).cameras@.len() && (#[trigger] old(
                            self,
                        ).cameras@[c]).id == camera_id;
                    assert(self.cameras@[ci].id == camera_id);
                }
            }
        }
    }

    /// A pending request is eligible when its camera has no active run.
    pub open spec fn spec_pending_eligible(self, k: int) -> bool {
        0 <= k < self.pending@.len() && !self.spec_has_active(self.pending@[k].camera_id)
    }

    /// A completed run is eligible for retry when the retry flag is set and
    /// its camera has no active run.
    pub open spec fn spec_retry_eligible(self, k: int) -> bool {
        0 <= k < self.completed@.len() && self.completed@[k].retry_pending
            && !self.spec_has_active(self.completed@[k].camera_id)
    }

    /// The scan cursor of a known camera.
    pub open spec fn spec_camera_cursor(self, camera_id: i64) -> i64 {
        let i = choose|i: int|
            0 <= i < self.cameras@.len() && (#[trigger] self.cameras@[i]).id == camera_id;
        self.cameras@[i].scan_cursor
    }

    /// Claims the next eligible piece of work, if any: the first pending
    /// request whose camera has no active run or, failing that, the first
    /// completed run flagged for retry whose camera has no active run (its
    /// flags are reset). The claimed run becomes the camera's single active
    /// row; the claim never touches a camera that already has one.
    pub fn next(&mut self, now_wall: i64, now_mono: i64) -> (r: Option<ScanActor>)
        requires
            old(self).wf(),
        ensures
            final(self).wf(),
            final(self).cameras == old(self).cameras,
            final(self).next_pending_id == old(self).next_pending_id,
            final(self).next_completed_id == old(self).next_completed_id,
            r is None ==> *final(self) == *old(self) && (forall|k: int|
                !old(self).spec_pending_eligible(k)) && (forall|k: int|
                !old(self).spec_retry_eligible(k)),
            r matches Some(actor) ==> {
                &&& !old(self).spec_has_active(actor.camera_id)
                &&& final(self).active@ == old(self).active@.push(spec_active_row_of(actor))
                &&& (if (exists|k: int| old(self).spec_pending_eligible(k)) {
                    exists|k: int|
                        {
                            &&& #[trigger] old(self).spec_pending_eligible(k)
                            &&& (forall|j: int| 0 <= j < k ==> !old(self).spec_pending_eligible(j))
                            &&& spec_actor_of_pending(
                                actor,
                                *old(self),
                                old(self).pending@[k],
                                now_wall,
                                now_mono,
                            )
                            &&& final(self).pending@ == old(self).pending@.remove(k)
                            &&& final(self).completed == old(self).completed
                        }
                } else {
                    exists|k: int|
                        {
                            &&& #[trigger] old(self).spec_retry_eligible(k)
                            &&& (forall|j: int| 0 <= j < k ==> !old(self).spec_retry_eligible(j))
                            &&& spec_fresh_actor(
                                actor,
                                old(self).completed@[k].camera_id,
                                old(self).completed@[k].range_start,
                                old(self).completed@[k].range_cursor,
                                old(self).completed@[k].kind,
                                now_wall,
                                now_mono,
                            )
                            &&& final(self).completed@ == old(self).completed@.update(
                                k,
                                spec_reset_retry(old(self).completed@[k]),
                            )
                            &&& final(self).pending == old(self).pending
                        }
                })
            },
    {
        // The first eligible pending request.
        let np = self.pending.len();
        let mut sel: Option<usize> = None;
        for k in 0..np
            invariant
                *self == *old(self),
                np == self.pending@.len(),
                sel is None ==> forall|j: int| 0 <= j < k ==> !self.spec_pending_eligible(j),
                sel matches Some(s) ==> 0 <= s < np && self.spec_pending_eligible(
                    s as int,
                ) && (forall|j: int| 0 <= j < s ==> !self.spec_pending_eligible(j)),
        {
            if sel.is_none() {
                let cam = self.pending[k].camera_id;
                if !self.has_active(cam) {
                    sel = Some(k);
                }
            }
        }

        if let Some(k) = sel {
            let cam = self.pending[k].camera_id;
            // The request references a known camera (well-formedness), so
            // the cursor lookup cannot miss.
            let actor = match self.pending[k].kind {
                ScanKind::Full => ScanActor::full(cam, now_wall, now_mono),
                ScanKind::Cursor => {
                    let ci = match self.find_camera(cam) {
                        Some(ci) => ci,
                        None => {
                            proof {
                                assert(false);
                            }
                            unreached()
                        },
                    };
                    proof {
                        let i0 = choose|i: int|
                            0 <= i < self.cameras@.len() && (#[trigger] self.cameras@[i]).id
                                == cam;
                        if i0 != ci as int {
                            assert(self.cameras@[i0].id != self.cameras@[ci as int].id);
                        }
                        assert(self.cameras@[i0].scan_cursor
                            == self.cameras@[ci as int].scan_cursor);
                    }
                    let sc = ScanCamera { id: cam, scan_cursor: self.cameras[ci].scan_cursor };
                    ScanActor::cursor(sc, now_wall, now_mono)
                },
                ScanKind::Manual => {
                    let range = ScanRange {
                        start: self.pending[k].range_start,
                        end: self.pending[k].range_end,
                    };
                    ScanActor::manual(cam, range, now_wall, now_mono)
                },
            };
            let ghost pre_pending = self.pending@;
            self.pending.remove(k);
            proof {
                let f = k as int;
                assert forall|a: int, b: int|
                    0 <= a < b < self.pending@.len() implies !((#[trigger] self.pending@[a]).camera_id
                        == (#[trigger] self.pending@[b]).camera_id && self.pending@[a].kind
                        == self.pending@[b].kind) by {
                    let a2: int = if a < f {
                        a
                    } else {
                        a + 1
                    };
                    let b2: int = if b < f {
                        b
                    } else {
                        b + 1
                    };
                    assert(self.pending@[a] == pre_pending[a2]);
                    assert(self.pending@[b] == pre_pending[b2]);
                }
                assert forall|a: int|
                    0 <= a < self.pending@.len() implies self.spec_has_camera(
                    (#[trigger] self.pending@[a]).camera_id,
                ) by {
                    let a2: int = if a < f {
                        a
                    } else {
                        a + 1
                    };
                    assert(self.pending@[a] == pre_pending[a2]);
                    assert(old(self).spec_has_camera(pre_pending[a2].camera_id));
                    let ci = choose|c: int|
                        0 <= c < old(self).cameras@.len() && (#[trigger] old(self).cameras@[c]).id
                            == pre_pending[a2].camera_id;
                    assert(self.cameras@[ci].id == self.pending@[a].camera_id);
                }
            }
            self.push_active_row(&actor);
            return Some(actor);
        }

        // No pending work: the first completed run flagged for retry.
        let nc = self.completed.len();
        let mut sel2: Option<usize> = None;
        for k in 0..nc
            invariant
                *self == *old(self),
                nc == self.completed@.len(),
                sel2 is None ==> forall|j: int| 0 <= j < k ==> !self.spec_retry_eligible(j),
                sel2 matches Some(s) ==> 0 <= s < nc && self.spec_retry_eligible(
                    s as int,
                ) && (forall|j: int| 0 <= j < s ==> !self.spec_retry_eligible(j)),
        {
            if sel2.is_none() && self.completed[k].retry_pending {
                let cam = self.completed[k].camera_id;
                if !self.has_active(cam) {
                    sel2 = Some(k);
                }
            }
        }

        if let Some(k) = sel2 {
            let actor = ScanActor::from_completed(&self.completed[k], now_wall, now_mono);
            let ghost pre_completed = self.completed@;
            let reset = {
                let c = &self.completed[k];
                ScanCompleted {
                    id: c.id,
                    camera_id: c.camera_id,
                    kind: c.kind,
                    range_start: c.range_start,
                    range_end: c.range_end,
                    started_at: c.started_at,
                    range_cursor: c.range_cursor,
                    duration: c.duration,
                    error: c.error.clone(),
                    percent_bp: c.percent_bp,
                    upserted: c.upserted,
                    deleted: c.deleted,
                    success: c.success,
                    retry_pending: false,
                    can_retry: false,
                }
            };
            self.completed[k] = reset;
            proof {
                assert(self.completed@ =~= pre_completed.update(
                    k as int,
                    spec_reset_retry(pre_completed[k as int]),
                ));
            }
            self.push_active_row(&actor);
            return Some(actor);
        }

        None
    }

    /// Appends the active row of a freshly claimed run; the camera must not
    /// have one already.
    fn push_active_row(&mut self, actor: &ScanActor)
        requires
            old(self).wf(),
            !old(self).spec_has_active(actor.camera_id),
        ensures
            final(self).wf(),
            final(self).active@ == old(self).active@.push(spec_active_row_of(*actor)),
            final(self).cameras == old(self).cameras,
            final(self).pending == old(self).pending,
            final(self).completed == old(self).completed,
            final(self).next_pending_id == old(self).next_pending_id,
            final(self).next_completed_id == old(self).next_completed_id,
            final(self).spec_has_active(actor.camera_id),
    {
        let row = ScanActive {
            camera_id: actor.camera_id,
            kind: actor.kind,
            range_start: actor.range.start,
            range_end: actor.range.end,
            started_at: actor.started_at,
            range_cursor: actor.range.end,
            percent_bp: 0,
            upserted: 0,
            deleted: 0,
        };
        self.active.push(row);
        proof {
            let pre = old(self).active@;
            assert forall|a: int, b: int|
                0 <= a < b < self.active@.len() implies (#[trigger] self.active@[a]).camera_id != (
            #[trigger] self.active@[b]).camera_id by {
                assert(self.active@[a] == pre[a]);
                if b == self.active@.len() - 1 {
                    assert(pre[a].camera_id != actor.camera_id);
                } else {
                    assert(self.active@[b] == pre[b]);
                }
            }
            assert(self.active@[self.active@.len() - 1].camera_id == actor.camera_id);
            assert forall|i: int|
                0 <= i < self.pending@.len() implies self.spec_has_camera(
                (#[trigger] self.pending@[i]).camera_id,
            ) by {
                assert(old(self).spec_has_camera(self.pending@[i].camera_id));
                let ci = choose|c: int|
                    0 <= c < old(self).cameras@.len() && (#[trigger] old(self).cameras@[c]).id
                        == self.pending@[i].camera_id;
                assert(self.cameras@[ci].id == self.pending@[i].camera_id);
            }
        }
    }

    /// Queues a scan request of the given kind for every known camera.
    pub fn queue_all(&mut self, kind: ScanKindPending)
        requires
            old(self).wf(),
            old(self).next_pending_id + old(self).cameras@.len() <= i64::MAX,
        ensures
            final(self).wf(),
            final(self).cameras == old(self).cameras,
            final(self).active == old(self).active,
            final(self).completed == old(self).completed,
            final(self).next_completed_id == old(self).next_completed_id,
            forall|i: int|
                0 <= i < final(self).cameras@.len() ==> spec_has_pending(
                    final(self).pending@,
                    (#[trigger] final(self).cameras@[i]).id,
                    spec_kind_of(kind),
                    spec_pending_range(kind).0,
                    spec_pending_range(kind).1,
                ),
    {
        let n = self.cameras.len();
        for i in 0..n
            invariant
                n == self.cameras@.len(),
                self.wf(),
                self.cameras == old(self).cameras,
                self.active == old(self).active,
                self.completed == old(self).completed,
                self.next_completed_id == old(self).next_completed_id,
                self.next_pending_id <= old(self).next_pending_id + i,
                old(self).next_pending_id + n <= i64::MAX,
                forall|a: int|
                    0 <= a < i ==> spec_has_pending(
                        self.pending@,
                        (#[trigger] self.cameras@[a]).id,
                        spec_kind_of(kind),
                        spec_pending_range(kind).0,
                        spec_pending_range(kind).1,
                    ),
        {
            let id = self.cameras[i].id;
            let ghost pre = self.pending@;
            let ghost pre_id = self.next_pending_id;
            self.queue(id, kind);
            proof {
                let kk = spec_kind_of(kind);
                let new_row = ScanPending {
                    id: pre_id,
                    camera_id: id,
                    kind: kk,
                    range_start: spec_pending_range(kind).0,
                    range_end: spec_pending_range(kind).1,
                };
                if exists|f: int|
                    0 <= f < pre.len() && (#[trigger] pre[f]).camera_id == id && pre[f].kind
                        == kk {
                    let f = choose|f: int|
                        0 <= f < pre.len() && (#[trigger] pre[f]).camera_id == id && pre[f].kind
                            == kk;
                    assert(self.pending@ == pre.remove(f).push(new_row));
                } else {
                    assert(self.pending@ == pre.push(new_row));
                }
                assert(self.pending@[self.pending@.len() - 1] == new_row);
                assert forall|a: int| 0 <= a < i + 1 implies spec_has_pending(
                    self.pending@,
                    (#[trigger] self.cameras@[a]).id,
                    kk,
                    spec_pending_range(kind).0,
                    spec_pending_range(kind).1,
                ) by {
                    if a == i {
                        let j = self.pending@.len() - 1;
                        assert(self.pending@[j].camera_id == id && self.pending@[j].kind == kk
                            && self.pending@[j].range_start == spec_pending_range(kind).0
                            && self.pending@[j].range_end == spec_pending_range(kind).1);
                    } else {
                        let j_pre = choose|j: int|
                            0 <= j < pre.len() && (#[trigger] pre[j]).camera_id
                                == self.cameras@[a].id && pre[j].kind == kk && pre[j].range_start
                                == spec_pending_range(kind).0 && pre[j].range_end
                                == spec_pending_range(kind).1;
                        if exists|f: int|
                            0 <= f < pre.len() && (#[trigger] pre[f]).camera_id == id && pre[f].kind
                                == kk {
                            let f = choose|f: int|
                                0 <= f < pre.len() && (#[trigger] pre[f]).camera_id == id
                                    && pre[f].kind == kk;
                            assert(self.cameras@[a].id != id);
                            lemma_remove_push_reindex(pre, f, self.pending@.last(), j_pre);
                            let j2: int = if j_pre < f {
                                j_pre
                            } else {
                                j_pre - 1
                            };
                            assert(self.pending@[j2] == pre[j_pre]);
                        } else {
                            assert(self.pending@[j_pre] == pre[j_pre]);
                        }
                    }
                }
            }
        }
    }

    /// Persists a worker's progress: the range cursor, percentage and
    /// counters of the camera's active row. A camera without an active row
    /// (the run was cleared meanwhile) is left untouched.
    pub fn update_status(
        &mut self,
        camera_id: i64,
        range_cursor: i64,
        percent_bp: u32,
        upserted: i64,
        deleted: i64,
    )
        requires
            old(self).wf(),
        ensures
            final(self).wf(),
            final(self).cameras == old(self).cameras,
            final(self).pending == old(self).pending,
            final(self).completed == old(self).completed,
            final(self).next_pending_id == old(self).next_pending_id,
            final(self).next_completed_id == old(self).next_completed_id,
            !old(self).spec_has_active(camera_id) ==> final(self).active == old(self).active,
            forall|k: int|
                0 <= k < old(self).active@.len() && (#[trigger] old(self).active@[k]).camera_id
                    == camera_id ==> final(self).active@ == old(self).active@.update(
                    k,
                    ScanActive {
                        range_cursor,
                        percent_bp,
                        upserted,
                        deleted,
                        ..old(self).active@[k]
                    },
                ),
    {
        if let Some(k) = self.find_active(camera_id) {
            let row = self.active[k];
            self.active[k] = ScanActive { range_cursor, percent_bp, upserted, deleted, ..row };
            proof {
                assert forall|a: int, b: int|
                    0 <= a < b < self.active@.len() implies (#[trigger] self.active@[a]).camera_id
                    != (#[trigger] self.active@[b]).camera_id by {
                    assert(old(self).active@[a].camera_id != old(self).active@[b].camera_id);
                }
                lemma_fk_transfer(*old(self), *self);
            }
        }
    }

    /// Ends a run: if it belongs in history and still has an active row, a
    /// completed row is derived from that row plus the run's duration and
    /// outcome; the active row is deleted; and when a cursor-advancing kind
    /// succeeded, the camera's scan cursor moves to the run's end capped by
    /// the safety lag — but never backward. A slow run that finishes after a
    /// faster one has already advanced the cursor leaves it where it is.
    pub fn end(&mut self, actor: &ScanActor, now_wall: i64, now_mono: i64)
        requires
            old(self).wf(),
            0 <= actor.instant <= now_mono,
            now_wall >= i64::MIN + SCAN_CURSOR_LAG_MS,
            old(self).next_completed_id < i64::MAX,
        ensures
            final(self).wf(),
            final(self).pending == old(self).pending,
            final(self).next_pending_id == old(self).next_pending_id,
            // The active row of this camera, if any, is gone; nothing else
            // of the active table changes.
            !old(self).spec_has_active(actor.camera_id) ==> final(self).active == old(self).active,
            forall|k: int|
                0 <= k < old(self).active@.len() && (#[trigger] old(self).active@[k]).camera_id
                    == actor.camera_id ==> final(self).active@ == old(self).active@.remove(k),
            !final(self).spec_has_active(actor.camera_id),
            // History: exactly when the kind warrants it and an active row
            // existed, one row is appended, derived from that row.
            (actor.kind is Cursor || !old(self).spec_has_active(actor.camera_id)) ==> final(self).completed == old(self).completed && final(self).next_completed_id == old(
                self,
            ).next_completed_id,
            forall|k: int|
                0 <= k < old(self).active@.len() && (#[trigger] old(self).active@[k]).camera_id
                    == actor.camera_id && !(actor.kind is Cursor) ==> final(self).completed@ == old(
                    self,
                ).completed@.push(
                    spec_completed_of(
                        old(self).active@[k],
                        *actor,
                        now_mono,
                        old(self).next_completed_id,
                    ),
                ) && final(self).next_completed_id == old(self).next_completed_id + 1,
            // The scan cursor never moves backward.
            final(self).cameras@.len() == old(self).cameras@.len(),
            forall|i: int|
                0 <= i < old(self).cameras@.len() ==> (#[trigger] final(self).cameras@[i]).id
                    == old(self).cameras@[i].id && final(self).cameras@[i].scan_cursor >= old(
                    self,
                ).cameras@[i].scan_cursor,
            // And it moves exactly when a cursor-advancing kind succeeded
            // and the target lies ahead of the stored cursor.
            (actor.kind is Manual || actor.error@.len() != 0) ==> final(self).cameras == old(
                self,
            ).cameras,
            forall|i: int|
                0 <= i < old(self).cameras@.len() && (#[trigger] old(self).cameras@[i]).id
                    == actor.camera_id && !(actor.kind is Manual) && actor.error@.len() == 0
                    ==> final(self).cameras@[i].scan_cursor == (if old(
                    self,
                ).cameras@[i].scan_cursor >= spec_cursor_target(*actor, now_wall) {
                    old(self).cameras@[i].scan_cursor as int
                } else {
                    spec_cursor_target(*actor, now_wall)
                }),
            forall|i: int|
                0 <= i < old(self).cameras@.len() && (#[trigger] old(self).cameras@[i]).id
                    != actor.camera_id ==> final(self).cameras@[i] == old(self).cameras@[i],
    {
        let aidx = self.find_active(actor.camera_id);

        // Save the run to history, copying progress from the active row.
        if let Some(k) = aidx {
            if actor.should_save() {
                let row = self.active[k];
                let crow = ScanCompleted {
                    id: self.next_completed_id,
                    camera_id: row.camera_id,
                    kind: row.kind,
                    range_start: row.range_start,
                    range_end: row.range_end,
                    started_at: row.started_at,
                    range_cursor: row.range_cursor,
                    duration: actor.duration(now_mono),
                    error: actor.error.clone(),
                    percent_bp: row.percent_bp,
                    upserted: row.upserted,
                    deleted: row.deleted,
                    success: actor.success(),
                    retry_pending: false,
                    can_retry: actor.can_retry(),
                };
                self.completed.push(crow);
                self.next_completed_id = self.next_completed_id + 1;
                proof {
                    let pre = old(self).completed@;
                    assert forall|a: int, b: int|
                        0 <= a < b < self.completed@.len() implies (
                    #[trigger] self.completed@[a]).id != (#[trigger] self.completed@[b]).id by {
                        assert(self.completed@[a] == pre[a]);
                        if b < self.completed@.len() - 1 {
                            assert(self.completed@[b] == pre[b]);
                        }
                    }
                }
            }
        }

        // Delete the active row.
        if let Some(k) = aidx {
            let ghost pre_active = self.active@;
            self.active.remove(k);
            proof {
                let f = k as int;
                assert forall|a: int, b: int|
                    0 <= a < b < self.active@.len() implies (#[trigger] self.active@[a]).camera_id
                    != (#[trigger] self.active@[b]).camera_id by {
                    let a2: int = if a < f {
                        a
                    } else {
                        a + 1
                    };
                    let b2: int = if b < f {
                        b
                    } else {
                        b + 1
                    };
                    assert(self.active@[a] == pre_active[a2]);
                    assert(self.active@[b] == pre_active[b2]);
                }
                assert forall|a: int|
                    0 <= a < self.active@.len() implies (#[trigger] self.active@[a]).camera_id
                    != actor.camera_id by {
                    let a2: int = if a < f {
                        a
                    } else {
                        a + 1
                    };
                    assert(self.active@[a] == pre_active[a2]);
                    assert(old(self).active@[a2].camera_id != old(self).active@[f].camera_id);
                }
            }
        }

        // Advance the camera's scan cursor, monotonically.
        let advance = match actor.should_update_scan_cursor(now_wall) {
            Some(sc) => if actor.success() {
                Some(sc)
            } else {
                None
            },
            None => None,
        };
        if let Some(sc) = advance {
            if let Some(ci) = self.find_camera(actor.camera_id) {
                if self.cameras[ci].scan_cursor < sc {
                    let id = self.cameras[ci].id;
                    self.cameras[ci] = ScanCamera { id, scan_cursor: sc };
                    proof {
                        assert forall|a: int, b: int|
                            0 <= a < b < self.cameras@.len() implies (
                        #[trigger] self.cameras@[a]).id != (#[trigger] self.cameras@[b]).id by {
                            assert(old(self).cameras@[a].id != old(self).cameras@[b].id);
                        }
                        assert forall|i: int|
                            0 <= i < old(self).cameras@.len() && (#[trigger] old(
                                self,
                            ).cameras@[i]).id == actor.camera_id implies i == ci as int by {
                            if i != ci as int {
                                assert(old(self).cameras@[i].id != old(
                                    self,
                                ).cameras@[ci as int].id);
                            }
                        }
                    }
                }
            }
        }
        proof {
            assert forall|a: int|
                0 <= a < self.pending@.len() implies self.spec_has_camera(
                (#[trigger] self.pending@[a]).camera_id,
            ) by {
                assert(old(self).spec_has_camera(self.pending@[a].camera_id));
                let c0 = choose|c: int|
                    0 <= c < old(self).cameras@.len() && (#[trigger] old(self).cameras@[c]).id
                        == self.pending@[a].camera_id;
                assert(self.cameras@[c0].id == self.pending@[a].camera_id);
            }
        }
    }

    /// Flags a completed run for retry — only one whose `can_retry` is set.
    pub fn retry(&mut self, id: i64)
        requires
            old(self).wf(),
        ensures
            final(self).wf(),
            final(self).cameras == old(self).cameras,
            final(self).pending == old(self).pending,
            final(self).active == old(self).active,
            final(self).next_pending_id == old(self).next_pending_id,
            final(self).next_completed_id == old(self).next_completed_id,
            (forall|k: int|
                0 <= k < old(self).completed@.len() ==> !((#[trigger] old(
                    self,
                ).completed@[k]).id == id && old(self).completed@[k].can_retry)) ==> final(self).completed == old(self).completed,
            forall|k: int|
                0 <= k < old(self).completed@.len() && (#[trigger] old(self).completed@[k]).id
                    == id && old(self).completed@[k].can_retry ==> final(self).completed@ == old(
                    self,
                ).completed@.update(k, spec_flag_retry(old(self).completed@[k])),
    {
        let n = self.completed.len();
        let mut found: Option<usize> = None;
        for k in 0..n
            invariant
                *self == *old(self),
                n == self.completed@.len(),
                found is None ==> forall|j: int|
                    0 <= j < k ==> !((#[trigger] self.completed@[j]).id == id
                        && self.completed@[j].can_retry),
                found matches Some(f) ==> 0 <= f < n && self.completed@[f as int].id == id
                    && self.completed@[f as int].can_retry,
        {
            if found.is_none() && self.completed[k].id == id && self.completed[k].can_retry {
                found = Some(k);
            }
        }
        if let Some(k) = found {
            let flagged = {
                let c = &self.completed[k];
                ScanCompleted {
                    id: c.id,
                    camera_id: c.camera_id,
                    kind: c.kind,
                    range_start: c.range_start,
                    range_end: c.range_end,
                    started_at: c.started_at,
                    range_cursor: c.range_cursor,
                    duration: c.duration,
                    error: c.error.clone(),
                    percent_bp: c.percent_bp,
                    upserted: c.upserted,
                    deleted: c.deleted,
                    success: c.success,
                    retry_pending: true,
                    can_retry: c.can_retry,
                }
            };
            self.completed[k] = flagged;
            proof {
                assert(self.completed@ =~= old(self).completed@.update(
                    k as int,
                    spec_flag_retry(old(self).completed@[k as int]),
                ));
                assert forall|a: int, b: int|
                    0 <= a < b < self.completed@.len() implies (#[trigger] self.completed@[a]).id
                    != (#[trigger] self.completed@[b]).id by {
                    assert(old(self).completed@[a].id != old(self).completed@[b].id);
                }
            }
        }
    }

    /// Claims every currently eligible piece of work, one run per camera:
    /// the returned actors all have distinct cameras, each holds its
    /// camera's single active row, and no eligible work remains.
    pub fn drain(&mut self, now_wall: i64, now_mono: i64) -> (r: Vec<ScanActor>)
        requires
            old(self).wf(),
        ensures
            final(self).wf(),
            final(self).cameras == old(self).cameras,
            forall|i: int, j: int|
                0 <= i < j < r@.len() ==> r@[i].camera_id != r@[j].camera_id,
            forall|i: int|
                0 <= i < r@.len() ==> final(self).spec_has_active((#[trigger] r@[i]).camera_id),
            forall|k: int| !final(self).spec_pending_eligible(k),
            forall|k: int| !final(self).spec_retry_eligible(k),
            // Nothing waits unserved: every camera that had a pending
            // request, and every camera whose history was flagged for
            // retry, has an active run afterward.
            forall|k: int|
                0 <= k < old(self).pending@.len() ==> final(self).spec_has_active(
                    (#[trigger] old(self).pending@[k]).camera_id,
                ),
            forall|k: int|
                0 <= k < old(self).completed@.len() ==> ((#[trigger] old(
                    self,
                ).completed@[k]).retry_pending ==> final(self).spec_has_active(
                    old(self).completed@[k].camera_id,
                )),
    {
        let mut out: Vec<ScanActor> = Vec::new();
        loop
            invariant
                self.wf(),
                self.cameras == old(self).cameras,
                forall|i: int, j: int|
                    0 <= i < j < out@.len() ==> out@[i].camera_id != out@[j].camera_id,
                forall|i: int|
                    0 <= i < out@.len() ==> self.spec_has_active((#[trigger] out@[i]).camera_id),
                forall|k: int|
                    0 <= k < old(self).pending@.len() ==> (self.pending@.contains(
                        #[trigger] old(self).pending@[k],
                    ) || self.spec_has_active(old(self).pending@[k].camera_id)),
                self.completed@.len() == old(self).completed@.len(),
                forall|k: int|
                    0 <= k < old(self).completed@.len() ==> (#[trigger] self.completed@[k]).camera_id
                        == old(self).completed@[k].camera_id,
                forall|k: int|
                    0 <= k < old(self).completed@.len() ==> ((#[trigger] old(
                        self,
                    ).completed@[k]).retry_pending ==> self.completed@[k].retry_pending
                        || self.spec_has_active(old(self).completed@[k].camera_id)),
            ensures
                forall|k: int| !self.spec_pending_eligible(k),
                forall|k: int| !self.spec_retry_eligible(k),
                forall|k: int|
                    0 <= k < old(self).pending@.len() ==> (self.pending@.contains(
                        #[trigger] old(self).pending@[k],
                    ) || self.spec_has_active(old(self).pending@[k].camera_id)),
                self.completed@.len() == old(self).completed@.len(),
                forall|k: int|
                    0 <= k < old(self).completed@.len() ==> (#[trigger] self.completed@[k]).camera_id
                        == old(self).completed@[k].camera_id,
                forall|k: int|
                    0 <= k < old(self).completed@.len() ==> ((#[trigger] old(
                        self,
                    ).completed@[k]).retry_pending ==> self.completed@[k].retry_pending
                        || self.spec_has_active(old(self).completed@[k].camera_id)),
            decreases self.pending@.len(), spec_retry_count(self.completed@),
        {
            let ghost pre = *self;
            match self.next(now_wall, now_mono) {
                Some(actor) => {
                    proof {
                        if exists|k: int| pre.spec_pending_eligible(k) {
                        } else {
                            let k = choose|k: int|
                                {
                                    &&& #[trigger] pre.spec_retry_eligible(k)
                                    &&& (forall|j: int|
                                        0 <= j < k ==> !pre.spec_retry_eligible(j))
                                    &&& self.completed@ == pre.completed@.update(
                                        k,
                                        spec_reset_retry(pre.completed@[k]),
                                    )
                                };
                            lemma_retry_count_update(
                                pre.completed@,
                                k,
                                spec_reset_retry(pre.completed@[k]),
                            );
                        }
                        assert forall|i: int|
                            0 <= i < out@.len() implies self.spec_has_active(
                            (#[trigger] out@[i]).camera_id,
                        ) by {
                            let c = choose|c: int|
                                0 <= c < pre.active@.len() && (#[trigger] pre.active@[c]).camera_id
                                    == out@[i].camera_id;
                            assert(self.active@[c] == pre.active@[c]);
                        }
                        assert(self.active@[self.active@.len() - 1].camera_id == actor.camera_id);
                        assert(self.spec_has_active(actor.camera_id));

                        // Requests stay queued or their camera is now active.
                        assert forall|k: int|
                            0 <= k < old(self).pending@.len() implies (self.pending@.contains(
                            #[trigger] old(self).pending@[k],
                        ) || self.spec_has_active(old(self).pending@[k].camera_id)) by {
                            let row = old(self).pending@[k];
                            if pre.spec_has_active(row.camera_id) {
                                let c = choose|c: int|
                                    0 <= c < pre.active@.len() && (#[trigger] pre.active@[c]).camera_id
                                        == row.camera_id;
                                assert(self.active@[c] == pre.active@[c]);
                            } else {
                                assert(pre.pending@.contains(row));
                                let j = choose|j: int|
                                    0 <= j < pre.pending@.len() && pre.pending@[j] == row;
                                if exists|q: int| pre.spec_pending_eligible(q) {
                                    let f = choose|f: int|
                                        {
                                            &&& #[trigger] pre.spec_pending_eligible(f)
                                            &&& (forall|j2: int|
                                                0 <= j2 < f ==> !pre.spec_pending_eligible(j2))
                                            &&& spec_actor_of_pending(
                                                actor,
                                                pre,
                                                pre.pending@[f],
                                                now_wall,
                                                now_mono,
                                            )
                                            &&& self.pending@ == pre.pending@.remove(f)
                                            &&& self.completed == pre.completed
                                        };
                                    if j != f {
                                        let j2: int = if j < f {
                                            j
                                        } else {
                                            j - 1
                                        };
                                        assert(self.pending@[j2] == pre.pending@[j]);
                                    } else {
                                        assert(actor.camera_id == row.camera_id);
                                    }
                                } else {
                                    assert(self.pending@[j] == pre.pending@[j]);
                                }
                            }
                        }

                        // Retry flags stay set or their camera is now active.
                        assert forall|k: int|
                            0 <= k < old(self).completed@.len() implies ((#[trigger] old(
                            self,
                        ).completed@[k]).retry_pending ==> self.completed@[k].retry_pending
                            || self.spec_has_active(old(self).completed@[k].camera_id)) by {
                            if old(self).completed@[k].retry_pending {
                                if pre.spec_has_active(old(self).completed@[k].camera_id) {
                                    let c = choose|c: int|
                                        0 <= c < pre.active@.len() && (
                                        #[trigger] pre.active@[c]).camera_id == old(
                                            self,
                                        ).completed@[k].camera_id;
                                    assert(self.active@[c] == pre.active@[c]);
                                } else if pre.completed@[k].retry_pending {
                                    if exists|q: int| pre.spec_pending_eligible(q) {
                                    } else {
                                        let k2 = choose|k2: int|
                                            {
                                                &&& #[trigger] pre.spec_retry_eligible(k2)
                                                &&& (forall|j2: int|
                                                    0 <= j2 < k2 ==> !pre.spec_retry_eligible(j2))
                                                &&& spec_fresh_actor(
                                                    actor,
                                                    pre.completed@[k2].camera_id,
                                                    pre.completed@[k2].range_start,
                                                    pre.completed@[k2].range_cursor,
                                                    pre.completed@[k2].kind,
                                                    now_wall,
                                                    now_mono,
                                                )
                                                &&& self.completed@ == pre.completed@.update(
                                                    k2,
                                                    spec_reset_retry(pre.completed@[k2]),
                                                )
                                                &&& self.pending == pre.pending
                                            };
                                        if k != k2 {
                                            assert(self.completed@[k] == pre.completed@[k]);
                                        } else {
                                            assert(actor.camera_id == pre.completed@[k].camera_id);
                                        }
                                    }
                                }
                            }
                        }
                    }
                    out.push(actor);
                },
                None => {
                    break ;
                },
            }
        }
        proof {
            assert forall|k: int|
                0 <= k < old(self).pending@.len() implies self.spec_has_active(
                (#[trigger] old(self).pending@[k]).camera_id,
            ) by {
                let row = old(self).pending@[k];
                if self.pending@.contains(row) {
                    let j = choose|j: int| 0 <= j < self.pending@.len() && self.pending@[j] == row;
                    assert(!self.spec_pending_eligible(j));
                }
            }
            assert forall|k: int|
                0 <= k < old(self).completed@.len() implies ((#[trigger] old(
                self,
            ).completed@[k]).retry_pending ==> self.spec_has_active(
                old(self).completed@[k].camera_id,
            )) by {
                if old(self).completed@[k].retry_pending && self.completed@[k].retry_pending {
                    assert(!self.spec_retry_eligible(k));
                }
            }
        }
        out
    }
}

impl Scan {
    /// Queues a scan request for one camera, then claims and hands back
    /// every currently eligible run, one per distinct camera, for workers to
    /// execute.
    pub fn queue(
        db: &mut ScanDb,
        camera_id: i64,
        kind: ScanKindPending,
        now_wall: i64,
        now_mono: i64,
    ) -> (r: Vec<ScanActor>)
        requires
            old(db).wf(),
            old(db).spec_has_camera(camera_id),
            old(db).next_pending_id < i64::MAX,
        ensures
            final(db).wf(),
            forall|i: int, j: int| 0 <= i < j < r@.len() ==> r@[i].camera_id != r@[j].camera_id,
            forall|i: int|
                0 <= i < r@.len() ==> final(db).spec_has_active((#[trigger] r@[i]).camera_id),
            forall|k: int| !final(db).spec_pending_eligible(k),
            forall|k: int| !final(db).spec_retry_eligible(k),
            final(db).spec_has_active(camera_id),
    {
        db.queue(camera_id, kind);
        let ghost mid = *db;
        let r = db.drain(now_wall, now_mono);
        proof {
            let kk = spec_kind_of(kind);
            if exists|f: int|
                0 <= f < old(db).pending@.len() && (#[trigger] old(db).pending@[f]).camera_id
                    == camera_id && old(db).pending@[f].kind == kk {
                let f = choose|f: int|
                    0 <= f < old(db).pending@.len() && (#[trigger] old(db).pending@[f]).camera_id
                        == camera_id && old(db).pending@[f].kind == kk;
                assert(f >= 0);
            }
            // Either way `queue` pushed the new request last; `drain` then
            // activated its camera.
            assert(mid.pending@[mid.pending@.len() - 1].camera_id == camera_id);
        }
        r
    }

    /// Queues a scan request for every known camera, then claims and hands
    /// back every currently eligible run.
    pub fn queue_all(db: &mut ScanDb, kind: ScanKindPending, now_wall: i64, now_mono: i64) -> (r:
        Vec<ScanActor>)
        requires
            old(db).wf(),
            old(db).next_pending_id + old(db).cameras@.len() <= i64::MAX,
        ensures
            final(db).wf(),
            forall|i: int, j: int| 0 <= i < j < r@.len() ==> r@[i].camera_id != r@[j].camera_id,
            forall|i: int|
                0 <= i < r@.len() ==> final(db).spec_has_active((#[trigger] r@[i]).camera_id),
            forall|k: int| !final(db).spec_pending_eligible(k),
            forall|k: int| !final(db).spec_retry_eligible(k),
            // Every known camera is actively scanned afterward.
            forall|i: int|
                0 <= i < final(db).cameras@.len() ==> final(db).spec_has_active(
                    (#[trigger] final(db).cameras@[i]).id,
                ),
    {
        db.queue_all(kind);
        let ghost mid = *db;
        let r = db.drain(now_wall, now_mono);
        proof {
            assert forall|i: int|
                0 <= i < db.cameras@.len() implies db.spec_has_active(
                (#[trigger] db.cameras@[i]).id,
            ) by {
                assert(spec_has_pending(
                    mid.pending@,
                    mid.cameras@[i].id,
                    spec_kind_of(kind),
                    spec_pending_range(kind).0,
                    spec_pending_range(kind).1,
                ));
                let j = choose|j: int|
                    0 <= j < mid.pending@.len() && ((#[trigger] mid.pending@[j]).camera_id
                        == mid.cameras@[i].id && mid.pending@[j].kind == spec_kind_of(kind)
                        && mid.pending@[j].range_start == spec_pending_range(kind).0
                        && mid.pending@[j].range_end == spec_pending_range(kind).1);
                assert(db.spec_has_active(mid.pending@[j].camera_id));
            }
        }
        r
    }
}

impl ScanCompleted {
    /// Flags a completed run for retry, then claims and hands back every
    /// currently eligible run.
    pub fn retry(db: &mut ScanDb, id: i64, now_wall: i64, now_mono: i64) -> (r: Vec<ScanActor>)
        requires
            old(db).wf(),
        ensures
            final(db).wf(),
            forall|i: int, j: int| 0 <= i < j < r@.len() ==> r@[i].camera_id != r@[j].camera_id,
            forall|i: int|
                0 <= i < r@.len() ==> final(db).spec_has_active((#[trigger] r@[i]).camera_id),
            forall|k: int| !final(db).spec_pending_eligible(k),
            forall|k: int| !final(db).spec_retry_eligible(k),
            // A retryable run's camera is actively scanned afterward.
            forall|k: int|
                0 <= k < old(db).completed@.len() && (#[trigger] old(db).completed@[k]).id == id
                    && old(db).completed@[k].can_retry ==> final(db).spec_has_active(
                    old(db).completed@[k].camera_id,
                ),
    {
        db.retry(id);
        let ghost mid = *db;
        let r = db.drain(now_wall, now_mono);
        proof {
            assert forall|k: int|
                0 <= k < old(db).completed@.len() && (#[trigger] old(db).completed@[k]).id == id
                    && old(db).completed@[k].can_retry implies db.spec_has_active(
                old(db).completed@[k].camera_id,
            ) by {
                assert(mid.completed@ == old(db).completed@.update(
                    k,
                    spec_flag_retry(old(db).completed@[k]),
                ));
                assert(mid.completed@[k].retry_pending);
                assert(mid.completed@[k].camera_id == old(db).completed@[k].camera_id);
            }
        }
        r
    }
}

/// Pending rows that refer to known cameras keep doing so when neither the
/// pending rows nor the cameras change.
proof fn lemma_fk_transfer(pre: ScanDb, post: ScanDb)
    requires
        forall|i: int|
            0 <= i < pre.pending@.len() ==> pre.spec_has_camera(
                (#[trigger] pre.pending@[i]).camera_id,
            ),
        post.pending@ == pre.pending@,
        post.cameras@ == pre.cameras@,
    ensures
        forall|i: int|
            0 <= i < post.pending@.len() ==> post.spec_has_camera(
                (#[trigger] post.pending@[i]).camera_id,
            ),
{
    assert forall|i: int|
        0 <= i < post.pending@.len() implies post.spec_has_camera(
        (#[trigger] post.pending@[i]).camera_id,
    ) by {
        assert(pre.spec_has_camera(pre.pending@[i].camera_id));
        let c0 = choose|c: int|
            0 <= c < pre.cameras@.len() && (#[trigger] pre.cameras@[c]).id
                == pre.pending@[i].camera_id;
        assert(post.cameras@[c0].id == post.pending@[i].camera_id);
    }
}

/// How many completed rows are flagged for retry.
pub open spec fn spec_retry_count(s: Seq<ScanCompleted>) -> nat
    decreases s.len(),
{
    if s.len() == 0 {
        0
    } else {
        spec_retry_count(s.drop_last()) + if s.last().retry_pending {
            1nat
        } else {
            0nat
        }
    }
}

/// Clearing a set retry flag lowers the count.
proof fn lemma_retry_count_update(s: Seq<ScanCompleted>, k: int, v: ScanCompleted)
    requires
        0 <= k < s.len(),
        s[k].retry_pending,
        !v.retry_pending,
    ensures
        spec_retry_count(s.update(k, v)) < spec_retry_count(s),
    decreases s.len(),
{
    lemma_retry_count_le(s.update(k, v), s);
    if k == s.len() - 1 {
        assert(s.update(k, v).drop_last() =~= s.drop_last());
        assert(s.update(k, v).last() == v);
    } else {
        assert(s.update(k, v).drop_last() =~= s.drop_last().update(k, v));
        assert(s.update(k, v).last() == s.last());
        lemma_retry_count_update(s.drop_last(), k, v);
    }
}

/// The retry count respects the pointwise flag order.
proof fn lemma_retry_count_le(a: Seq<ScanCompleted>, b: Seq<ScanCompleted>)
    requires
        a.len() == b.len(),
        forall|i: int| 0 <= i < a.len() ==> ((#[trigger] a[i]).retry_pending ==> b[i].retry_pending),
    ensures
        spec_retry_count(a) <= spec_retry_count(b),
    decreases a.len(),
{
    if a.len() > 0 {
        assert(a.last() == a[a.len() - 1]);
        lemma_retry_count_le(a.drop_last(), b.drop_last());
    }
}

/// What a completed row holds when a run ends: the progress of its active
/// row, and the run's duration and outcome.
pub open spec fn spec_completed_of(row: ScanActive, a: ScanActor, now_mono: i64, id: i64) -> ScanCompleted {
    ScanCompleted {
        id: id,
        camera_id: row.camera_id,
        kind: row.kind,
        range_start: row.range_start,
        range_end: row.range_end,
        started_at: row.started_at,
        range_cursor: row.range_cursor,
        duration: (now_mono - a.instant) as i64,
        error: a.error,
        percent_bp: row.percent_bp,
        upserted: row.upserted,
        deleted: row.deleted,
        success: a.error@.len() == 0,
        retry_pending: false,
        can_retry: a.error@.len() != 0,
    }
}

/// A completed row flagged for retry.
pub open spec fn spec_flag_retry(c: ScanCompleted) -> ScanCompleted {
    ScanCompleted {
        id: c.id,
        camera_id: c.camera_id,
        kind: c.kind,
        range_start: c.range_start,
        range_end: c.range_end,
        started_at: c.started_at,
        range_cursor: c.range_cursor,
        duration: c.duration,
        error: c.error,
        percent_bp: c.percent_bp,
        upserted: c.upserted,
        deleted: c.deleted,
        success: c.success,
        retry_pending: true,
        can_retry: c.can_retry,
    }
}

} // verus!
