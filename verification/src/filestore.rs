//! The camera-file store: discovered media-file records, their two
//! uniqueness rules, stale-record eviction, and the paginated query.
//!
//! Rows are kept sorted by `(start_time, camera_id)` descending — the order
//! every listing uses — and obey two keys: `(camera_id, file_path)` and
//! `(camera_id, start_time)`. An upsert that hits an existing path only
//! refreshes the row's `updated_at`; one that hits an existing start time
//! (the derived sub-second offsets collided, about 1 in 500) is dropped on
//! purpose: the offset formula is what storage keys depend on, and the rare
//! loss is accepted.

use vstd::prelude::*;

use crate::mediafile::{spec_unique_time, FindNextFileInfo, MAX_TS_SECS};
use crate::query::{
    spec_cursor_to, CameraFileQuery, CameraFileQueryCursor, CameraFileQueryFilter,
};
use crate::scan::Scan;
use crate::scanstore::{ScanActor, ScanDb, ScanKindPending};
use crate::strutil::str_eq;

verus! {

use vstd::string::StringExecFns;

/// One stored media-file record; times are in milliseconds.
#[derive(Clone, Debug)]
pub struct CameraFile {
    pub id: i64,
    pub camera_id: i64,
    pub file_path: String,
    pub kind: String,
    pub size: i64,
    pub start_time: i64,
    pub end_time: i64,
    pub updated_at: i64,
    pub events: Vec<String>,
}

/// Value equality of two rows, with the text fields compared by content.
pub open spec fn spec_same_file(a: CameraFile, b: CameraFile) -> bool {
    &&& a.id == b.id
    &&& a.camera_id == b.camera_id
    &&& a.file_path@ == b.file_path@
    &&& a.kind@ == b.kind@
    &&& a.size == b.size
    &&& a.start_time == b.start_time
    &&& a.end_time == b.end_time
    &&& a.updated_at == b.updated_at
    &&& a.events.deep_view() == b.events.deep_view()
}

/// Strict "smaller key" order on `(start_time, camera_id)`.
pub open spec fn spec_pair_lt(ast: i64, acam: i64, bst: i64, bcam: i64) -> bool {
    ast < bst || (ast == bst && acam < bcam)
}

pub open spec fn spec_key_lt(a: CameraFile, b: CameraFile) -> bool {
    spec_pair_lt(a.start_time, a.camera_id, b.start_time, b.camera_id)
}

/// Rows sorted by key, newest (largest) first.
pub open spec fn spec_sorted_desc(s: Seq<CameraFile>) -> bool {
    forall|i: int, j: int| 0 <= i < j < s.len() ==> spec_key_lt(#[trigger] s[j], #[trigger] s[i])
}

/// No two rows share a camera and a path.
pub open spec fn spec_paths_unique(s: Seq<CameraFile>) -> bool {
    forall|i: int, j: int|
        0 <= i < j < s.len() ==> !((#[trigger] s[i]).camera_id == (#[trigger] s[j]).camera_id
            && s[i].file_path@ == s[j].file_path@)
}

/// The store: the rows, and the catalogue of event names seen so far.
#[derive(Debug)]
pub struct FileDb {
    pub files: Vec<CameraFile>,
    pub events: Vec<String>,
    pub next_id: i64,
}

impl FileDb {
    /// Well-formedness: rows sorted newest-first by `(start_time,
    /// camera_id)` — which makes that pair a key — no camera storing one
    /// path twice, and no event name listed twice.
    pub open spec fn wf(self) -> bool {
        &&& spec_sorted_desc(self.files@)
        &&& spec_paths_unique(self.files@)
        &&& (forall|i: int, j: int|
            0 <= i < j < self.events@.len() ==> (#[trigger] self.events@[i])@ != (
            #[trigger] self.events@[j])@)
    }

    pub fn new() -> (r: FileDb)
        ensures
            r.files@.len() == 0,
            r.events@.len() == 0,
            r.wf(),
    {
        FileDb { files: Vec::new(), events: Vec::new(), next_id: 0 }
    }

    /// Records an event name, once.
    fn note_event(&mut self, name: &String)
        requires
            old(self).wf(),
        ensures
            final(self).wf(),
            final(self).files == old(self).files,
            final(self).next_id == old(self).next_id,
            (exists|i: int|
                0 <= i < old(self).events@.len() && (#[trigger] old(self).events@[i])@ == name@)
                ==> final(self).events == old(self).events,
            !(exists|i: int|
                0 <= i < old(self).events@.len() && (#[trigger] old(self).events@[i])@ == name@)
                ==> final(self).events@ == old(self).events@.push(*name),
            exists|i: int|
                0 <= i < final(self).events@.len() && (#[trigger] final(self).events@[i])@
                    == name@,
    {
        let n = self.events.len();
        for i in 0..n
            invariant
                *self == *old(self),
                old(self).wf(),
                n == self.events@.len(),
                forall|j: int| 0 <= j < i ==> (#[trigger] self.events@[j])@ != name@,
        {
            if str_eq(self.events[i].as_str(), name.as_str()) {
                return ;
            }
        }
        self.events.push(name.clone());
        proof {
            assert(self.events@[self.events@.len() - 1]@ == name@);
        }
    }
}

// ---------------------------------------------------------------------------
// Upserts
// ---------------------------------------------------------------------------
/// The row a record is stored as.
pub open spec fn spec_new_row(f: FindNextFileInfo, camera_id: i64, timestamp: i64, id: i64) -> CameraFile {
    CameraFile {
        id: id,
        camera_id: camera_id,
        file_path: f.file_path,
        kind: f.kind,
        size: f.length as i64,
        start_time: spec_unique_time(f).0 as i64,
        end_time: spec_unique_time(f).1 as i64,
        updated_at: timestamp,
        events: f.events,
    }
}

/// The shape of a store after inserting `row` at `pos`: everything else is
/// unchanged and in place, and the new row matches `row` by content.
pub open spec fn spec_inserted_like(
    fin: Seq<CameraFile>,
    pre: Seq<CameraFile>,
    pos: int,
    row: CameraFile,
) -> bool {
    &&& 0 <= pos <= pre.len()
    &&& fin.len() == pre.len() + 1
    &&& (forall|j: int| 0 <= j < pos ==> #[trigger] fin[j] == pre[j])
    &&& spec_same_file(fin[pos], row)
    &&& (forall|j: int| pos < j < fin.len() ==> #[trigger] fin[j] == pre[j - 1])
}

/// A row touched by an upsert of the same `(camera, path)`: only
/// `updated_at` moves.
pub open spec fn spec_touched(row: CameraFile, timestamp: i64) -> CameraFile {
    CameraFile {
        id: row.id,
        camera_id: row.camera_id,
        file_path: row.file_path,
        kind: row.kind,
        size: row.size,
        start_time: row.start_time,
        end_time: row.end_time,
        updated_at: timestamp,
        events: row.events,
    }
}

impl FileDb {
    /// Stores one discovered record. A row with the same camera and path is
    /// refreshed (`updated_at`); failing that, a row with the same camera
    /// and derived start time swallows the record (the accepted collision
    /// loss); otherwise the record is inserted at its place in the order.
    /// Returns whether a row was written.
    pub fn upsert_one(&mut self, camera_id: i64, f: &FindNextFileInfo, timestamp: i64) -> (affected:
        bool)
        requires
            old(self).wf(),
            -MAX_TS_SECS <= f.start_time <= MAX_TS_SECS,
            -MAX_TS_SECS <= f.end_time <= MAX_TS_SECS,
            old(self).next_id < i64::MAX,
        ensures
            final(self).wf(),
            final(self).events == old(self).events,
            ({
                let st = spec_unique_time(*f).0;
                let path_hit = exists|k: int|
                    0 <= k < old(self).files@.len() && (#[trigger] old(self).files@[k]).camera_id
                        == camera_id && old(self).files@[k].file_path@ == f.file_path@;
                let time_hit = exists|k: int|
                    0 <= k < old(self).files@.len() && (#[trigger] old(self).files@[k]).camera_id
                        == camera_id && old(self).files@[k].start_time == st;
                &&& (path_hit ==> (forall|k: int|
                    0 <= k < old(self).files@.len() && (#[trigger] old(self).files@[k]).camera_id
                        == camera_id && old(self).files@[k].file_path@ == f.file_path@
                        ==> final(self).files@ == old(self).files@.update(
                        k,
                        spec_touched(old(self).files@[k], timestamp),
                    )) && affected && final(self).next_id == old(self).next_id)
                &&& (!path_hit && time_hit ==> *final(self) == *old(self) && !affected)
                &&& (!path_hit && !time_hit ==> affected && final(self).next_id == old(self).next_id
                    + 1 && exists|pos: int|
                    spec_inserted_like(
                        final(self).files@,
                        old(self).files@,
                        pos,
                        spec_new_row(*f, camera_id, timestamp, old(self).next_id),
                    ))
            }),
    {
        let (st, et) = f.unique_time();

        // A row with this camera and path?
        let n = self.files.len();
        let mut path_at: Option<usize> = None;
        for k in 0..n
            invariant
                *self == *old(self),
                n == self.files@.len(),
                path_at is None ==> forall|j: int|
                    0 <= j < k ==> !((#[trigger] self.files@[j]).camera_id == camera_id
                        && self.files@[j].file_path@ == f.file_path@),
                path_at matches Some(p) ==> 0 <= p < n && self.files@[p as int].camera_id
                    == camera_id && self.files@[p as int].file_path@ == f.file_path@,
        {
            if path_at.is_none() && self.files[k].camera_id == camera_id && str_eq(
                self.files[k].file_path.as_str(),
                f.file_path.as_str(),
            ) {
                path_at = Some(k);
            }
        }

        if let Some(k) = path_at {
            self.files[k].updated_at = timestamp;
            proof {
                assert(self.files@ =~= old(self).files@.update(
                    k as int,
                    spec_touched(old(self).files@[k as int], timestamp),
                ));
                assert forall|a: int, b: int|
                    0 <= a < b < self.files@.len() implies spec_key_lt(
                    #[trigger] self.files@[b],
                    #[trigger] self.files@[a],
                ) by {
                    assert(spec_key_lt(old(self).files@[b], old(self).files@[a]));
                }
                assert forall|a: int, b: int|
                    0 <= a < b < self.files@.len() implies !((#[trigger] self.files@[a]).camera_id
                    == (#[trigger] self.files@[b]).camera_id && self.files@[a].file_path@
                    == self.files@[b].file_path@) by {
                    assert(!(old(self).files@[a].camera_id == old(self).files@[b].camera_id && old(
                        self,
                    ).files@[a].file_path@ == old(self).files@[b].file_path@));
                }
            }
            return true;
        }

        // A row with this camera and derived start time? Find the insertion
        // point on the way: the first row with a smaller key.
        let mut pos: usize = 0;
        let mut time_hit = false;
        while pos < n && !time_hit && !key_lt_row(&self.files[pos], st, camera_id)
            invariant
                *self == *old(self),
                n == self.files@.len(),
                0 <= pos <= n,
                st == spec_unique_time(*f).0,
                !time_hit ==> forall|j: int|
                    0 <= j < pos ==> spec_pair_lt(
                        st as i64,
                        camera_id,
                        (#[trigger] self.files@[j]).start_time,
                        self.files@[j].camera_id,
                    ),
                time_hit ==> pos < n && self.files@[pos as int].camera_id == camera_id
                    && self.files@[pos as int].start_time == st,
            decreases n - pos, (if time_hit { 0int } else { 1int }),
        {
            if self.files[pos].camera_id == camera_id && self.files[pos].start_time == st {
                time_hit = true;
            } else {
                proof {
                    let row = self.files@[pos as int];
                    assert(spec_pair_lt(st as i64, camera_id, row.start_time, row.camera_id) || (
                    row.start_time == st && row.camera_id == camera_id));
                }
                pos = pos + 1;
            }
        }

        if time_hit {
            return false;
        }

        // No conflicts: insert at the sorted position.
        let row = CameraFile {
            id: self.next_id,
            camera_id,
            file_path: f.file_path.clone(),
            kind: f.kind.clone(),
            size: f.length as i64,
            start_time: st,
            end_time: et,
            updated_at: timestamp,
            events: clone_strings(&f.events),
        };
        proof {
            assert(spec_same_file(row, spec_new_row(*f, camera_id, timestamp, old(self).next_id)));
        }
        self.files.insert(pos, row);
        self.next_id = self.next_id + 1;
        proof {
            let fin = self.files@;
            let pre = old(self).files@;
            let p = pos as int;
            assert(spec_inserted_like(
                fin,
                pre,
                p,
                spec_new_row(*f, camera_id, timestamp, old(self).next_id),
            )) by {
                assert forall|j: int| 0 <= j < p implies #[trigger] fin[j] == pre[j] by {}
                assert forall|j: int| p < j < fin.len() implies #[trigger] fin[j] == pre[j - 1] by {}
            }
            assert forall|a: int, b: int| 0 <= a < b < fin.len() implies spec_key_lt(
                #[trigger] fin[b],
                #[trigger] fin[a],
            ) by {
                let a2: int = if a < p {
                    a
                } else {
                    a - 1
                };
                let b2: int = if b < p {
                    b
                } else {
                    b - 1
                };
                if a < p {
                    assert(fin[a] == pre[a]);
                }
                if b < p {
                    assert(fin[b] == pre[b]);
                }
                if a > p {
                    assert(fin[a] == pre[a - 1]);
                }
                if b > p {
                    assert(fin[b] == pre[b - 1]);
                }
                if a == p && b > p {
                    assert(spec_pair_lt(pre[b - 1].start_time, pre[b - 1].camera_id, st as i64, camera_id)
                        || (pre[b - 1].start_time == st && pre[b - 1].camera_id == camera_id));
                }
            }
            assert forall|a: int, b: int|
                0 <= a < b < fin.len() implies !((#[trigger] fin[a]).camera_id == (
            #[trigger] fin[b]).camera_id && fin[a].file_path@ == fin[b].file_path@) by {
                if a != p && b != p {
                    let a2: int = if a < p {
                        a
                    } else {
                        a - 1
                    };
                    let b2: int = if b < p {
                        b
                    } else {
                        b - 1
                    };
                    assert(fin[a] == pre[a2]);
                    assert(fin[b] == pre[b2]);
                } else if a == p {
                    assert(fin[b] == pre[b - 1]);
                } else {
                    assert(fin[a] == pre[a]);
                }
            }
        }
        true
    }
}

/// Copies a list of strings, preserving its contents.
fn clone_strings(v: &Vec<String>) -> (r: Vec<String>)
    ensures
        r@ == v@,
        r.deep_view() == v.deep_view(),
{
    let mut r: Vec<String> = Vec::new();
    let n = v.len();
    for i in 0..n
        invariant
            n == v@.len(),
            r@ =~= v@.take(i as int),
    {
        r.push(v[i].clone());
        proof {
            assert(r@ =~= v@.take(i as int).push(v@[i as int]));
            assert(v@.take(i as int).push(v@[i as int]) =~= v@.take(i + 1));
        }
    }
    proof {
        assert(v@.take(n as int) =~= v@);
        assert(r.deep_view() =~= v.deep_view());
    }
    r
}

/// Whether a row's key is strictly below `(st, cam)`.
fn key_lt_row(row: &CameraFile, st: i64, cam: i64) -> (r: bool)
    ensures
        r == spec_pair_lt(row.start_time, row.camera_id, st, cam),
{
    row.start_time < st || (row.start_time == st && row.camera_id < cam)
}


/// Unfolding `filter` over one appended element.
proof fn lemma_filter_push<A>(s: Seq<A>, x: A, pred: spec_fn(A) -> bool)
    ensures
        (s.push(x)).filter(pred) == (if pred(x) {
            s.filter(pred).push(x)
        } else {
            s.filter(pred)
        }),
{
    reveal(Seq::filter);
    assert(s.push(x).drop_last() =~= s);
    assert(s.push(x).last() == x);
}

/// Whether the store holds a row for this record: same camera, and either
/// the same path or the same derived start time.
pub open spec fn spec_has_row_for(s: Seq<CameraFile>, camera_id: i64, f: FindNextFileInfo) -> bool {
    exists|k: int|
        0 <= k < s.len() && (#[trigger] s[k]).camera_id == camera_id && (s[k].file_path@
            == f.file_path@ || s[k].start_time == spec_unique_time(f).0)
}

/// Whether a row survives an upsert pass: a row with its camera, path, key
/// and id is still present, at worst refreshed.
pub open spec fn spec_row_preserved(fin: Seq<CameraFile>, a: CameraFile, timestamp: i64) -> bool {
    exists|k: int|
        0 <= k < fin.len() && {
            let b = #[trigger] fin[k];
            &&& b.camera_id == a.camera_id
            &&& b.file_path@ == a.file_path@
            &&& b.start_time == a.start_time
            &&& b.id == a.id
            &&& (b.updated_at == a.updated_at || b.updated_at == timestamp)
        }
}

/// Whether an event name is catalogued.
pub open spec fn spec_has_event(es: Seq<String>, name: Seq<char>) -> bool {
    exists|i: int| 0 <= i < es.len() && (#[trigger] es[i])@ == name
}

impl FileDb {
    /// Stores one page of discovered records and catalogues their event
    /// names. Afterward every record of the batch has a row under its
    /// camera (by path, or by start time when the derived offsets
    /// collided), every pre-existing row is still present (at worst
    /// refreshed), and every event name of the batch is catalogued. Returns
    /// how many rows were written.
    pub fn upsert_files(&mut self, camera_id: i64, batch: &Vec<FindNextFileInfo>, timestamp: i64)
        -> (affected: u64)
        requires
            old(self).wf(),
            forall|i: int|
                0 <= i < batch@.len() ==> -MAX_TS_SECS <= (#[trigger] batch@[i]).start_time
                    <= MAX_TS_SECS && -MAX_TS_SECS <= batch@[i].end_time <= MAX_TS_SECS,
            old(self).next_id + batch@.len() <= i64::MAX,
        ensures
            final(self).wf(),
            affected <= batch@.len(),
            forall|i: int|
                0 <= i < batch@.len() ==> spec_has_row_for(
                    final(self).files@,
                    camera_id,
                    #[trigger] batch@[i],
                ),
            forall|k: int|
                0 <= k < old(self).files@.len() ==> spec_row_preserved(
                    final(self).files@,
                    #[trigger] old(self).files@[k],
                    timestamp,
                ),
            forall|i: int, l: int|
                0 <= i < batch@.len() && 0 <= l < batch@[i].events@.len() ==> spec_has_event(
                    final(self).events@,
                    (#[trigger] batch@[i].events@[l])@,
                ),
    {
        let n = batch.len();
        let mut affected: u64 = 0;
        for i in 0..n
            invariant
                self.wf(),
                n == batch@.len(),
                affected <= i,
                self.next_id <= old(self).next_id + i,
                old(self).next_id + n <= i64::MAX,
                forall|a: int|
                    0 <= a < n ==> -MAX_TS_SECS <= (#[trigger] batch@[a]).start_time <= MAX_TS_SECS
                        && -MAX_TS_SECS <= batch@[a].end_time <= MAX_TS_SECS,
                forall|a: int|
                    0 <= a < i ==> spec_has_row_for(self.files@, camera_id, #[trigger] batch@[a]),
                forall|k: int|
                    0 <= k < old(self).files@.len() ==> spec_row_preserved(
                        self.files@,
                        #[trigger] old(self).files@[k],
                        timestamp,
                    ),
                forall|a: int, l: int|
                    0 <= a < i && 0 <= l < batch@[a].events@.len() ==> spec_has_event(
                        self.events@,
                        (#[trigger] batch@[a].events@[l])@,
                    ),
        {
            let ghost pre = *self;
            let wrote = self.upsert_one(camera_id, &batch[i], timestamp);
            if wrote {
                affected = affected + 1;
            }
            proof {
                let f = batch@[i as int];
                let st = spec_unique_time(f).0;
                let path_hit = exists|k: int|
                    0 <= k < pre.files@.len() && (#[trigger] pre.files@[k]).camera_id == camera_id
                        && pre.files@[k].file_path@ == f.file_path@;
                let time_hit = exists|k: int|
                    0 <= k < pre.files@.len() && (#[trigger] pre.files@[k]).camera_id == camera_id
                        && pre.files@[k].start_time == st;

                // Every row of `pre` survives this upsert.
                assert forall|k: int| 0 <= k < pre.files@.len() implies spec_row_preserved(
                    self.files@,
                    #[trigger] pre.files@[k],
                    timestamp,
                ) by {
                    if path_hit {
                        let h = choose|h: int|
                            0 <= h < pre.files@.len() && (#[trigger] pre.files@[h]).camera_id
                                == camera_id && pre.files@[h].file_path@ == f.file_path@;
                        assert(self.files@ == pre.files@.update(
                            h,
                            spec_touched(pre.files@[h], timestamp),
                        ));
                        assert(self.files@[k].camera_id == pre.files@[k].camera_id
                            && self.files@[k].file_path@ == pre.files@[k].file_path@
                            && self.files@[k].start_time == pre.files@[k].start_time
                            && self.files@[k].id == pre.files@[k].id && (self.files@[k].updated_at
                            == pre.files@[k].updated_at || self.files@[k].updated_at == timestamp));
                    } else if time_hit {
                        assert(self.files@[k] == pre.files@[k]);
                    } else {
                        let pos = choose|pos: int|
                            spec_inserted_like(
                                self.files@,
                                pre.files@,
                                pos,
                                spec_new_row(f, camera_id, timestamp, pre.next_id),
                            );
                        let k2: int = if k < pos {
                            k
                        } else {
                            k + 1
                        };
                        assert(self.files@[k2] == pre.files@[k]);
                    }
                }

                // This record is now represented.
                assert(spec_has_row_for(self.files@, camera_id, f)) by {
                    if path_hit {
                        let h = choose|h: int|
                            0 <= h < pre.files@.len() && (#[trigger] pre.files@[h]).camera_id
                                == camera_id && pre.files@[h].file_path@ == f.file_path@;
                        assert(self.files@[h].camera_id == camera_id && self.files@[h].file_path@
                            == f.file_path@);
                    } else if time_hit {
                        let h = choose|h: int|
                            0 <= h < pre.files@.len() && (#[trigger] pre.files@[h]).camera_id
                                == camera_id && pre.files@[h].start_time == st;
                        assert(self.files@[h].camera_id == camera_id && self.files@[h].start_time
                            == st);
                    } else {
                        let pos = choose|pos: int|
                            spec_inserted_like(
                                self.files@,
                                pre.files@,
                                pos,
                                spec_new_row(f, camera_id, timestamp, pre.next_id),
                            );
                        assert(self.files@[pos].camera_id == camera_id && self.files@[pos].file_path@
                            == f.file_path@);
                    }
                }

                // Earlier records of the batch are still represented.
                assert forall|a: int| 0 <= a < i + 1 implies spec_has_row_for(
                    self.files@,
                    camera_id,
                    #[trigger] batch@[a],
                ) by {
                    if a < i {
                        let w = choose|w: int|
                            0 <= w < pre.files@.len() && (#[trigger] pre.files@[w]).camera_id
                                == camera_id && (pre.files@[w].file_path@ == batch@[a].file_path@
                                || pre.files@[w].start_time == spec_unique_time(batch@[a]).0);
                        assert(spec_row_preserved(self.files@, pre.files@[w], timestamp));
                        let k2 = choose|k2: int|
                            0 <= k2 < self.files@.len() && {
                                let b = #[trigger] self.files@[k2];
                                &&& b.camera_id == pre.files@[w].camera_id
                                &&& b.file_path@ == pre.files@[w].file_path@
                                &&& b.start_time == pre.files@[w].start_time
                                &&& b.id == pre.files@[w].id
                                &&& (b.updated_at == pre.files@[w].updated_at || b.updated_at
                                    == timestamp)
                            };
                        assert(self.files@[k2].camera_id == camera_id && (self.files@[k2].file_path@
                            == batch@[a].file_path@ || self.files@[k2].start_time
                            == spec_unique_time(batch@[a]).0));
                    }
                }

                // Preservation composes across iterations.
                assert forall|k: int| 0 <= k < old(self).files@.len() implies spec_row_preserved(
                    self.files@,
                    #[trigger] old(self).files@[k],
                    timestamp,
                ) by {
                    let a = old(self).files@[k];
                    let w1 = choose|w1: int|
                        0 <= w1 < pre.files@.len() && {
                            let b = #[trigger] pre.files@[w1];
                            &&& b.camera_id == a.camera_id
                            &&& b.file_path@ == a.file_path@
                            &&& b.start_time == a.start_time
                            &&& b.id == a.id
                            &&& (b.updated_at == a.updated_at || b.updated_at == timestamp)
                        };
                    assert(spec_row_preserved(self.files@, pre.files@[w1], timestamp));
                    let w2 = choose|w2: int|
                        0 <= w2 < self.files@.len() && {
                            let c = #[trigger] self.files@[w2];
                            &&& c.camera_id == pre.files@[w1].camera_id
                            &&& c.file_path@ == pre.files@[w1].file_path@
                            &&& c.start_time == pre.files@[w1].start_time
                            &&& c.id == pre.files@[w1].id
                            &&& (c.updated_at == pre.files@[w1].updated_at || c.updated_at
                                == timestamp)
                        };
                    assert(self.files@[w2].camera_id == a.camera_id && self.files@[w2].file_path@
                        == a.file_path@ && self.files@[w2].start_time == a.start_time
                        && self.files@[w2].id == a.id && (self.files@[w2].updated_at
                        == a.updated_at || self.files@[w2].updated_at == timestamp));
                }
            }

            // Catalogue the record's event names.
            let ghost pre_events = *self;
            let m = batch[i].events.len();
            for l in 0..m
                invariant
                    self.wf(),
                    n == batch@.len(),
                    0 <= i < n,
                    m == batch@[i as int].events@.len(),
                    self.files == pre_events.files,
                    self.next_id == pre_events.next_id,
                    forall|j: int|
                        0 <= j < pre_events.events@.len() ==> self.events@[j]
                            == pre_events.events@[j],
                    self.events@.len() >= pre_events.events@.len(),
                    forall|l2: int|
                        0 <= l2 < l ==> spec_has_event(
                            self.events@,
                            (#[trigger] batch@[i as int].events@[l2])@,
                        ),
            {
                let ghost before = self.events@;
                self.note_event(&batch[i].events[l]);
                proof {
                    assert forall|l2: int| 0 <= l2 < l + 1 implies spec_has_event(
                        self.events@,
                        (#[trigger] batch@[i as int].events@[l2])@,
                    ) by {
                        if l2 < l {
                            let w = choose|w: int|
                                0 <= w < before.len() && (#[trigger] before[w])@
                                    == batch@[i as int].events@[l2]@;
                            assert(self.events@[w]@ == batch@[i as int].events@[l2]@);
                        }
                    }
                }
            }
            proof {
                // Older batch entries' events are still catalogued: the
                // catalogue only grew.
                assert forall|a: int, l2: int|
                    0 <= a < i + 1 && 0 <= l2 < batch@[a].events@.len() implies spec_has_event(
                    self.events@,
                    (#[trigger] batch@[a].events@[l2])@,
                ) by {
                    if a < i {
                        let w = choose|w: int|
                            0 <= w < pre.events@.len() && (#[trigger] pre.events@[w])@
                                == batch@[a].events@[l2]@;
                        assert(self.events@[w]@ == batch@[a].events@[l2]@);
                    }
                }
            }
        }
        affected
    }
}


/// A row the end of a scan evicts: this camera's, inside the scanned
/// window, and not refreshed by this run.
pub open spec fn spec_stale(
    r: CameraFile,
    camera_id: i64,
    timestamp: i64,
    start_ms: i64,
    end_ms: i64,
) -> bool {
    r.updated_at < timestamp && r.camera_id == camera_id && start_ms <= r.start_time <= end_ms
}

impl FileDb {
    /// Evicts this camera's rows inside the scanned window that the run did
    /// not refresh: files no longer on the device. Returns how many went.
    pub fn evict_stale(&mut self, camera_id: i64, timestamp: i64, start_ms: i64, end_ms: i64)
        -> (deleted: u64)
        requires
            old(self).wf(),
        ensures
            final(self).wf(),
            final(self).events == old(self).events,
            final(self).next_id == old(self).next_id,
            final(self).files@ == old(self).files@.filter(
                |r: CameraFile| !spec_stale(r, camera_id, timestamp, start_ms, end_ms),
            ),
            deleted == old(self).files@.len() - final(self).files@.len(),
    {
        let ghost pred = |r: CameraFile| !spec_stale(r, camera_id, timestamp, start_ms, end_ms);
        proof {
            reveal(Seq::filter);
            assert(old(self).files@.take(0) =~= Seq::<CameraFile>::empty());
        }
        let before_len = self.files.len();
        let mut i: usize = 0;
        let ghost mut j: int = 0;
        while i < self.files.len()
            invariant
                self.wf(),
                self.events == old(self).events,
                self.next_id == old(self).next_id,
                0 <= i as int <= j <= old(self).files@.len(),
                before_len == old(self).files@.len(),
                self.files@ =~= old(self).files@.take(j).filter(pred) + old(self).files@.skip(j),
                i as int == old(self).files@.take(j).filter(pred).len(),
                i <= self.files@.len(),
                pred == (|r: CameraFile| !spec_stale(r, camera_id, timestamp, start_ms, end_ms)),
            decreases old(self).files@.len() - j,
        {
            let ghost pre = self.files@;
            let ghost x = old(self).files@[j];
            proof {
                assert(self.files@[i as int] == old(self).files@.skip(j)[0]);
                assert(old(self).files@.take(j).push(x) =~= old(self).files@.take(j + 1));
                lemma_filter_push(old(self).files@.take(j), x, pred);
            }
            let row_stale = {
                let row = &self.files[i];
                row.updated_at < timestamp && row.camera_id == camera_id && start_ms
                    <= row.start_time && row.start_time <= end_ms
            };
            if row_stale {
                self.files.remove(i);
                proof {
                    assert forall|a: int, b: int| 0 <= a < b < self.files@.len() implies spec_key_lt(
                        #[trigger] self.files@[b],
                        #[trigger] self.files@[a],
                    ) by {
                        let a2: int = if a < i as int {
                            a
                        } else {
                            a + 1
                        };
                        let b2: int = if b < i as int {
                            b
                        } else {
                            b + 1
                        };
                        assert(self.files@[a] == pre[a2]);
                        assert(self.files@[b] == pre[b2]);
                    }
                    assert forall|a: int, b: int|
                        0 <= a < b < self.files@.len() implies !((
                    #[trigger] self.files@[a]).camera_id == (#[trigger] self.files@[b]).camera_id
                        && self.files@[a].file_path@ == self.files@[b].file_path@) by {
                        let a2: int = if a < i as int {
                            a
                        } else {
                            a + 1
                        };
                        let b2: int = if b < i as int {
                            b
                        } else {
                            b + 1
                        };
                        assert(self.files@[a] == pre[a2]);
                        assert(self.files@[b] == pre[b2]);
                    }
                    assert(self.files@ =~= old(self).files@.take(j + 1).filter(pred) + old(
                        self,
                    ).files@.skip(j + 1));
                    j = j + 1;
                }
            } else {
                i = i + 1;
                proof {
                    assert(self.files@ =~= old(self).files@.take(j + 1).filter(pred) + old(
                        self,
                    ).files@.skip(j + 1));
                    j = j + 1;
                }
            }
        }
        proof {
            assert(j == old(self).files@.len());
            assert(old(self).files@.take(j) =~= old(self).files@);
            assert(old(self).files@.skip(j) =~= Seq::<CameraFile>::empty());
            assert(self.files@ =~= old(self).files@.filter(pred));
        }
        (before_len - self.files.len()) as u64
    }
}


// ---------------------------------------------------------------------------
// Queries
// ---------------------------------------------------------------------------
pub open spec fn spec_contains_i64(s: Seq<i64>, x: i64) -> bool {
    exists|i: int| 0 <= i < s.len() && s[i] == x
}

pub open spec fn spec_contains_str(s: Seq<String>, x: Seq<char>) -> bool {
    exists|i: int| 0 <= i < s.len() && (#[trigger] s[i])@ == x
}

/// Whether a row passes the filter: inside the open time window, and — for
/// each non-empty whitelist — its camera among the cameras, its kind among
/// the kinds, and at least one of its events among the events.
pub open spec fn spec_matches_filter(row: CameraFile, flt: CameraFileQueryFilter) -> bool {
    &&& (flt.start matches Some(st) ==> row.start_time > st)
    &&& (flt.end matches Some(en) ==> row.start_time < en)
    &&& (flt.camera_ids@.len() > 0 ==> spec_contains_i64(flt.camera_ids@, row.camera_id))
    &&& (flt.kinds@.len() > 0 ==> spec_contains_str(flt.kinds@, row.kind@))
    &&& (flt.events@.len() > 0 ==> exists|i: int|
        0 <= i < flt.events@.len() && spec_contains_str(row.events@, (#[trigger] flt.events@[i])@))
}

fn contains_i64(s: &Vec<i64>, x: i64) -> (r: bool)
    ensures
        r == spec_contains_i64(s@, x),
{
    let n = s.len();
    for i in 0..n
        invariant
            n == s@.len(),
            forall|j: int| 0 <= j < i ==> s@[j] != x,
    {
        if s[i] == x {
            return true;
        }
    }
    false
}

fn contains_str(s: &Vec<String>, x: &str) -> (r: bool)
    ensures
        r == spec_contains_str(s@, x@),
{
    let n = s.len();
    for i in 0..n
        invariant
            n == s@.len(),
            forall|j: int| 0 <= j < i ==> (#[trigger] s@[j])@ != x@,
    {
        if str_eq(s[i].as_str(), x) {
            return true;
        }
    }
    false
}

/// Whether a row passes the filter.
pub fn matches_filter(row: &CameraFile, flt: &CameraFileQueryFilter) -> (r: bool)
    ensures
        r == spec_matches_filter(*row, *flt),
{
    if let Some(st) = flt.start {
        if !(row.start_time > st) {
            return false;
        }
    }
    if let Some(en) = flt.end {
        if !(row.start_time < en) {
            return false;
        }
    }
    if flt.camera_ids.len() > 0 && !contains_i64(&flt.camera_ids, row.camera_id) {
        return false;
    }
    if flt.kinds.len() > 0 && !contains_str(&flt.kinds, row.kind.as_str()) {
        return false;
    }
    if flt.events.len() > 0 {
        let m = flt.events.len();
        for i in 0..m
            invariant
                m == flt.events@.len(),
                flt.start matches Some(st) ==> row.start_time > st,
                flt.end matches Some(en) ==> row.start_time < en,
                flt.camera_ids@.len() > 0 ==> spec_contains_i64(flt.camera_ids@, row.camera_id),
                flt.kinds@.len() > 0 ==> spec_contains_str(flt.kinds@, row.kind@),
                forall|j: int|
                    0 <= j < i ==> !spec_contains_str(row.events@, (#[trigger] flt.events@[j])@),
        {
            if contains_str(&row.events, flt.events[i].as_str()) {
                return true;
            }
        }
        return false;
    }
    true
}

/// Whether a row belongs on the requested page's side of the cursor.
pub open spec fn spec_on_page_side(row: CameraFile, q: CameraFileQuery) -> bool {
    spec_matches_filter(row, q.filter) && match q.cursor {
        CameraFileQueryCursor::Unset => true,
        CameraFileQueryCursor::After((id, ms)) => spec_pair_lt(
            row.start_time,
            row.camera_id,
            ms,
            id,
        ),
        CameraFileQueryCursor::Before((id, ms)) => spec_pair_lt(
            ms,
            id,
            row.start_time,
            row.camera_id,
        ),
    }
}

/// Whether a row proves that matching rows exist on the cursor's far side.
pub open spec fn spec_on_far_side(row: CameraFile, q: CameraFileQuery) -> bool {
    spec_matches_filter(row, q.filter) && match q.cursor {
        CameraFileQueryCursor::Unset => false,
        CameraFileQueryCursor::After((id, ms)) => spec_pair_lt(
            ms,
            id,
            row.start_time,
            row.camera_id,
        ),
        CameraFileQueryCursor::Before((id, ms)) => spec_pair_lt(
            row.start_time,
            row.camera_id,
            ms,
            id,
        ),
    }
}

/// A queried page: the rows (newest first), opaque cursors addressing the
/// rows just before and after it, and whether such rows exist.
#[derive(Debug)]
pub struct CameraFileQueryResult {
    pub files: Vec<CameraFile>,
    pub has_before: bool,
    pub before: String,
    pub has_after: bool,
    pub after: String,
    pub count: i32,
}

impl CameraFile {
    /// A copy of the row, equal in content.
    pub fn duplicate(&self) -> (r: CameraFile)
        ensures
            spec_same_file(r, *self),
    {
        let r = CameraFile {
            id: self.id,
            camera_id: self.camera_id,
            file_path: self.file_path.clone(),
            kind: self.kind.clone(),
            size: self.size,
            start_time: self.start_time,
            end_time: self.end_time,
            updated_at: self.updated_at,
            events: clone_strings(&self.events),
        };
        proof {
            assert(r.events.deep_view() =~= self.events.deep_view());
        }
        r
    }

    /// How many rows pass the filter.
    pub fn count(db: &FileDb, filter: &CameraFileQueryFilter) -> (r: u64)
        ensures
            r == db.files@.filter(|f: CameraFile| spec_matches_filter(f, *filter)).len(),
    {
        let ghost pred = |f: CameraFile| spec_matches_filter(f, *filter);
        proof {
            reveal(Seq::filter);
            assert(db.files@.take(0) =~= Seq::<CameraFile>::empty());
        }
        let n = db.files.len();
        let mut c: u64 = 0;
        for i in 0..n
            invariant
                n == db.files@.len(),
                c == db.files@.take(i as int).filter(pred).len(),
                c <= i,
                pred == (|f: CameraFile| spec_matches_filter(f, *filter)),
        {
            proof {
                assert(db.files@.take(i as int).push(db.files@[i as int]) =~= db.files@.take(
                    i as int + 1,
                ));
                lemma_filter_push(db.files@.take(i as int), db.files@[i as int], pred);
            }
            if matches_filter(&db.files[i], filter) {
                c = c + 1;
            }
        }
        proof {
            assert(db.files@.take(n as int) =~= db.files@);
        }
        c
    }

    /// Runs a query against the store: of the rows that pass the filter and
    /// sit on the page's side of the cursor (all of them in store order,
    /// newest first), the page is the first `limit` — for a `Before` cursor
    /// the last `limit`, those nearest the cursor. The flags say whether
    /// more rows wait beyond either edge, and the returned cursors address
    /// the page's first and last row.
    pub fn query_db(db: &FileDb, query: &CameraFileQuery) -> (r: CameraFileQueryResult)
        requires
            query.limit >= 0,
        ensures
            ({
                let cand = db.files@.filter(|f: CameraFile| spec_on_page_side(f, *query));
                let limit = query.limit as int;
                let cut: int = if query.cursor is Before && cand.len() > limit {
                    cand.len() - limit
                } else {
                    0
                };
                let page = if query.cursor is Before {
                    cand.skip(cut)
                } else if cand.len() > limit {
                    cand.take(limit)
                } else {
                    cand
                };
                &&& r.files@.len() == page.len()
                &&& (forall|i: int|
                    0 <= i < page.len() ==> spec_same_file(#[trigger] r.files@[i], page[i]))
                &&& r.count == page.len()
                &&& (query.cursor is Before ==> r.has_before == (cand.len() > limit))
                &&& (!(query.cursor is Before) ==> r.has_after == (cand.len() > limit))
                &&& (query.cursor is Unset ==> !r.has_before)
                &&& (query.cursor is After ==> r.has_before == (exists|i: int|
                    0 <= i < db.files@.len() && spec_on_far_side(#[trigger] db.files@[i], *query)))
                &&& (query.cursor is Before ==> r.has_after == (exists|i: int|
                    0 <= i < db.files@.len() && spec_on_far_side(#[trigger] db.files@[i], *query)))
                &&& (page.len() > 0 ==> r.before@ == spec_cursor_to(
                    page[0].camera_id as int,
                    page[0].start_time as int,
                ) && r.after@ == spec_cursor_to(
                    page[page.len() - 1].camera_id as int,
                    page[page.len() - 1].start_time as int,
                ))
                &&& (page.len() == 0 ==> r.before@ == Seq::<char>::empty() && r.after@ == Seq::<
                    char,
                >::empty())
            }),
    {
        let ghost pred = |f: CameraFile| spec_on_page_side(f, *query);
        proof {
            reveal(Seq::filter);
            assert(db.files@.take(0) =~= Seq::<CameraFile>::empty());
        }

        // One pass: collect every candidate, note any far-side row.
        let n = db.files.len();
        let mut cand: Vec<CameraFile> = Vec::new();
        let mut far = false;
        for i in 0..n
            invariant
                n == db.files@.len(),
                cand@.len() == db.files@.take(i as int).filter(pred).len(),
                forall|j: int|
                    0 <= j < cand@.len() ==> spec_same_file(
                        #[trigger] cand@[j],
                        db.files@.take(i as int).filter(pred)[j],
                    ),
                far == (exists|j: int|
                    0 <= j < i && spec_on_far_side(#[trigger] db.files@[j], *query)),
                pred == (|f: CameraFile| spec_on_page_side(f, *query)),
        {
            proof {
                assert(db.files@.take(i as int).push(db.files@[i as int]) =~= db.files@.take(
                    i as int + 1,
                ));
                lemma_filter_push(db.files@.take(i as int), db.files@[i as int], pred);
            }
            let row = &db.files[i];
            let m = matches_filter(row, &query.filter);
            let side = match query.cursor {
                CameraFileQueryCursor::Unset => m,
                CameraFileQueryCursor::After((id, ms)) => m && key_lt_row(row, ms, id),
                CameraFileQueryCursor::Before((id, ms)) => m && (ms < row.start_time || (ms
                    == row.start_time && id < row.camera_id)),
            };
            if side {
                cand.push(row.duplicate());
            } else {
                let far_here = match query.cursor {
                    CameraFileQueryCursor::Unset => false,
                    CameraFileQueryCursor::After((id, ms)) => m && (ms < row.start_time || (ms
                        == row.start_time && id < row.camera_id)),
                    CameraFileQueryCursor::Before((id, ms)) => m && key_lt_row(row, ms, id),
                };
                if far_here {
                    far = true;
                }
            }
        }
        proof {
            assert(db.files@.take(n as int) =~= db.files@);
        }

        let limit = if query.limit < 0 {
            0
        } else {
            query.limit as usize
        };
        let ghost full = db.files@.filter(pred);
        let total = cand.len();
        let more = total > limit;

        // Keep the page's side of the candidates.
        let before_cursor = matches!(query.cursor, CameraFileQueryCursor::Before(_));
        if before_cursor {
            // The page is the tail: the rows nearest the cursor.
            while cand.len() > limit
                invariant
                    total == full.len(),
                    cand@.len() <= total,
                    limit <= total ==> cand@.len() >= limit,
                    limit > total ==> cand@.len() == total,
                    forall|j: int|
                        0 <= j < cand@.len() ==> spec_same_file(
                            #[trigger] cand@[j],
                            full.skip(total as int - cand@.len() as int)[j],
                        ),
                decreases cand@.len(),
            {
                let ghost pre = cand@;
                cand.remove(0);
                proof {
                    assert forall|j: int| 0 <= j < cand@.len() implies spec_same_file(
                        #[trigger] cand@[j],
                        full.skip(total as int - cand@.len() as int)[j],
                    ) by {
                        assert(cand@[j] == pre[j + 1]);
                        assert(full.skip(total as int - pre.len() as int)[j + 1] == full.skip(
                            total as int - cand@.len() as int,
                        )[j]);
                    }
                }
            }
        } else {
            while cand.len() > limit
                invariant
                    total == full.len(),
                    cand@.len() <= total,
                    limit <= total ==> cand@.len() >= limit,
                    limit > total ==> cand@.len() == total,
                    forall|j: int|
                        0 <= j < cand@.len() ==> spec_same_file(#[trigger] cand@[j], full[j]),
                decreases cand@.len(),
            {
                cand.pop();
            }
        }

        let count = cand.len() as i32;
        let (before, after) = if cand.len() > 0 {
            let first = &cand[0];
            let last = &cand[cand.len() - 1];
            (
                crate::query::CameraFileQueryCursor::to(first.camera_id, first.start_time),
                crate::query::CameraFileQueryCursor::to(last.camera_id, last.start_time),
            )
        } else {
            (String::new(), String::new())
        };

        let (has_before, has_after) = if before_cursor {
            (more, far)
        } else {
            let hb = match query.cursor {
                CameraFileQueryCursor::After(_) => far,
                _ => false,
            };
            (hb, more)
        };

        CameraFileQueryResult { files: cand, has_before, before, has_after, after, count }
    }
}

impl CameraFile {
    /// Serves a file listing. A query without a cursor first queues a
    /// cursor catch-up scan for every camera, so read paths stay fresh
    /// without a separate timer; the claimed runs come back for workers to
    /// execute, alongside the page.
    pub fn query(
        scans: &mut ScanDb,
        db: &FileDb,
        query: &CameraFileQuery,
        now_wall: i64,
        now_mono: i64,
    ) -> (r: (Vec<ScanActor>, CameraFileQueryResult))
        requires
            old(scans).wf(),
            old(scans).next_pending_id + old(scans).cameras@.len() <= i64::MAX,
            query.limit >= 0,
        ensures
            final(scans).wf(),
            query.cursor is Unset ==> {
                &&& (forall|i: int, j: int|
                    0 <= i < j < r.0@.len() ==> r.0@[i].camera_id != r.0@[j].camera_id)
                &&& (forall|i: int|
                    0 <= i < r.0@.len() ==> final(scans).spec_has_active(
                        (#[trigger] r.0@[i]).camera_id,
                    ))
                &&& (forall|k: int| !final(scans).spec_pending_eligible(k))
            },
            !(query.cursor is Unset) ==> *final(scans) == *old(scans) && r.0@.len() == 0,
            ({
                let cand = db.files@.filter(|f: CameraFile| spec_on_page_side(f, *query));
                let limit = query.limit as int;
                let page = if query.cursor is Before {
                    cand.skip(
                        if cand.len() > limit {
                            cand.len() - limit
                        } else {
                            0
                        },
                    )
                } else if cand.len() > limit {
                    cand.take(limit)
                } else {
                    cand
                };
                &&& r.1.files@.len() == page.len()
                &&& (forall|i: int|
                    0 <= i < page.len() ==> spec_same_file(#[trigger] r.1.files@[i], page[i]))
                &&& r.1.count == page.len()
            }),
    {
        let claimed = if matches!(query.cursor, CameraFileQueryCursor::Unset) {
            Scan::queue_all(scans, ScanKindPending::Cursor, now_wall, now_mono)
        } else {
            Vec::new()
        };
        let result = CameraFile::query_db(db, query);
        (claimed, result)
    }
}

/// Running totals of one scan: rows written and rows evicted.
#[derive(Clone, Copy, Debug, PartialEq, Eq, Structural, Default)]
pub struct CameraScanResult {
    pub upserted: u64,
    pub deleted: u64,
}

impl CameraScanResult {
    /// Accumulates another chunk's totals, saturating at the top.
    pub fn combine(&mut self, other: CameraScanResult)
        ensures
            final(self).upserted == if old(self).upserted + other.upserted <= u64::MAX {
                old(self).upserted + other.upserted
            } else {
                u64::MAX as int
            },
            final(self).deleted == if old(self).deleted + other.deleted <= u64::MAX {
                old(self).deleted + other.deleted
            } else {
                u64::MAX as int
            },
    {
        self.upserted = self.upserted.saturating_add(other.upserted);
        self.deleted = self.deleted.saturating_add(other.deleted);
    }
}

} // verus!
