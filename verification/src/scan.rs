//! Scan ranges and the range splitter.
//!
//! A scan covers an absolute `[start, end)` window of milliseconds since the
//! epoch. Long windows are walked backward from `end` in chunks of at most
//! one period, so that no single device-side enumeration grows unbounded and
//! long backfills report progress. Each chunk carries a completion
//! percentage in basis points (10000 = 100%), computed over whole days as
//! `round(days_done / days_total * 10000)` and pinned to 0 when the window
//! spans less than one day.

use vstd::prelude::*;

verus! {

use vstd::arithmetic::div_mod::{
    lemma_div_is_ordered,
    lemma_div_pos_is_pos,
    lemma_fundamental_div_mod_converse_div,
};

/// Milliseconds in a day.
pub const MS_PER_DAY: i64 = 86_400_000;

/// The chunk period: 30 days.
pub const SCAN_PERIOD_MS: i64 = 2_592_000_000;

/// The earliest time a scan may cover: 2010-01-01 00:00:00 UTC.
pub const SCAN_EPOCH_MS: i64 = 1_262_304_000_000;

/// How far the scan cursor stays behind "now": 8 hours, so a window that may
/// still receive device-side writes is never marked as scanned.
pub const SCAN_CURSOR_LAG_MS: i64 = 28_800_000;

/// Scan timing policy: the default cursor, the epoch, and the chunk period.
pub struct Scan {}

impl Scan {
    /// Where a fresh camera's scan cursor starts: a lag behind now.
    pub fn cursor(now_ms: i64) -> (r: i64)
        requires
            now_ms >= i64::MIN + SCAN_CURSOR_LAG_MS,
        ensures
            r == now_ms - SCAN_CURSOR_LAG_MS,
    {
        now_ms - SCAN_CURSOR_LAG_MS
    }

    /// The earliest time a scan may cover.
    pub fn epoch() -> (r: i64)
        ensures
            r == SCAN_EPOCH_MS,
    {
        SCAN_EPOCH_MS
    }

    /// The chunk period.
    pub fn period() -> (r: i64)
        ensures
            r == SCAN_PERIOD_MS,
    {
        SCAN_PERIOD_MS
    }
}

/// Why a requested range is rejected.
#[derive(Clone, Copy, Debug, PartialEq, Eq, Structural)]
pub enum ScanRangeError {
    StartAfterEnd,
    EndInFuture,
    StartBeforeEpoch,
}

/// An absolute `[start, end)` window, in milliseconds since the epoch.
#[derive(Clone, Copy, Debug, PartialEq, Eq, Structural)]
pub struct ScanRange {
    pub start: i64,
    pub end: i64,
}

impl ScanRange {
    /// Accepts exactly the windows that are ordered, not in the future, and
    /// not before the scan epoch.
    pub fn new(start: i64, end: i64, now_ms: i64) -> (r: Result<ScanRange, ScanRangeError>)
        ensures
            start > end ==> r == Result::<ScanRange, ScanRangeError>::Err(
                ScanRangeError::StartAfterEnd,
            ),
            start <= end && end > now_ms ==> r == Result::<ScanRange, ScanRangeError>::Err(
                ScanRangeError::EndInFuture,
            ),
            start <= end && end <= now_ms && start < SCAN_EPOCH_MS ==> r == Result::<
                ScanRange,
                ScanRangeError,
            >::Err(ScanRangeError::StartBeforeEpoch),
            start <= end && end <= now_ms && start >= SCAN_EPOCH_MS ==> r == Result::<
                ScanRange,
                ScanRangeError,
            >::Ok(ScanRange { start, end }),
    {
        if start > end {
            Err(ScanRangeError::StartAfterEnd)
        } else if end > now_ms {
            Err(ScanRangeError::EndInFuture)
        } else if start < SCAN_EPOCH_MS {
            Err(ScanRangeError::StartBeforeEpoch)
        } else {
            Ok(ScanRange { start, end })
        }
    }

    /// An iterator over the window's chunks, newest first.
    pub fn iter(&self) -> (r: ScanRangeIterator)
        ensures
            r.start == self.start,
            r.cursor == self.end,
            r.end == self.end,
    {
        ScanRangeIterator { start: self.start, cursor: self.end, end: self.end }
    }
}

/// The completion percentage, in basis points, after `done_ms` of a
/// `total_ms` window have been covered: whole days, rounded half-up; 0 when
/// the window spans less than a day.
pub open spec fn spec_percent_bp(done_ms: int, total_ms: int) -> int {
    let done_days = done_ms / (MS_PER_DAY as int);
    let total_days = total_ms / (MS_PER_DAY as int);
    if total_days == 0 {
        0
    } else {
        (done_days * 20000 + total_days) / (2 * total_days)
    }
}

/// Rounding half-up never exceeds 100%.
proof fn lemma_percent_bp_le_10000(done_ms: int, total_ms: int)
    requires
        0 <= done_ms <= total_ms,
    ensures
        0 <= spec_percent_bp(done_ms, total_ms) <= 10000,
{
    let d = done_ms / (MS_PER_DAY as int);
    let t = total_ms / (MS_PER_DAY as int);
    lemma_div_pos_is_pos(done_ms, MS_PER_DAY as int);
    lemma_div_pos_is_pos(total_ms, MS_PER_DAY as int);
    lemma_div_is_ordered(done_ms, total_ms, MS_PER_DAY as int);
    if t != 0 {
        lemma_div_pos_is_pos(d * 20000 + t, 2 * t);
        lemma_div_is_ordered(d * 20000 + t, t * 20000 + t, 2 * t);
        assert(t * 20000 + t == 10000 * (2 * t) + t) by (nonlinear_arith);
        lemma_fundamental_div_mod_converse_div(t * 20000 + t, 2 * t, 10000, t);
    }
}

/// More of the window covered never lowers the percentage.
proof fn lemma_percent_bp_monotone(a_ms: int, b_ms: int, total_ms: int)
    requires
        0 <= a_ms <= b_ms,
        0 <= total_ms,
    ensures
        spec_percent_bp(a_ms, total_ms) <= spec_percent_bp(b_ms, total_ms),
{
    let t = total_ms / (MS_PER_DAY as int);
    lemma_div_pos_is_pos(total_ms, MS_PER_DAY as int);
    if t != 0 {
        lemma_div_is_ordered(a_ms, b_ms, MS_PER_DAY as int);
        lemma_div_is_ordered(
            (a_ms / (MS_PER_DAY as int)) * 20000 + t,
            (b_ms / (MS_PER_DAY as int)) * 20000 + t,
            2 * t,
        );
    }
}

/// The whole window covered means exactly 100% — as soon as it spans a day.
proof fn lemma_percent_bp_full(total_ms: int)
    requires
        total_ms >= MS_PER_DAY,
    ensures
        spec_percent_bp(total_ms, total_ms) == 10000,
{
    let t = total_ms / (MS_PER_DAY as int);
    lemma_div_is_ordered(MS_PER_DAY as int, total_ms, MS_PER_DAY as int);
    assert(MS_PER_DAY as int / MS_PER_DAY as int == 1) by (nonlinear_arith);
    assert(t * 20000 + t == 10000 * (2 * t) + t) by (nonlinear_arith);
    lemma_fundamental_div_mod_converse_div(t * 20000 + t, 2 * t, 10000, t);
}

/// Computes the percentage; times must be non-negative and ordered.
pub fn percent_bp(done_ms: i64, total_ms: i64) -> (r: u32)
    requires
        0 <= done_ms <= total_ms,
    ensures
        r == spec_percent_bp(done_ms as int, total_ms as int),
        r <= 10000,
{
    proof {
        lemma_percent_bp_le_10000(done_ms as int, total_ms as int);
    }
    let done_days = (done_ms as u64) / (MS_PER_DAY as u64);
    let total_days = (total_ms as u64) / (MS_PER_DAY as u64);
    if total_days == 0 {
        0
    } else {
        assert(done_days <= 0x7fffffffffffffffu64 / 86400000) by {
            lemma_div_is_ordered(done_ms as int, i64::MAX as int, MS_PER_DAY as int);
        };
        ((done_days * 20000 + total_days) / (2 * total_days)) as u32
    }
}

/// Walks a window backward from `end`, one chunk of at most a period at a
/// time, until the cursor reaches `start`.
#[derive(Clone, Copy, Debug)]
pub struct ScanRangeIterator {
    pub start: i64,
    pub cursor: i64,
    pub end: i64,
}

impl ScanRangeIterator {
    /// The next chunk (and the completion percentage after it), or nothing
    /// once the cursor has reached `start`.
    pub fn next(&mut self) -> (r: Option<(ScanRange, u32)>)
        requires
            0 <= old(self).start <= old(self).cursor <= old(self).end,
        ensures
            final(self).start == old(self).start,
            final(self).end == old(self).end,
            old(self).cursor == old(self).start ==> (r is None && final(self).cursor
                == old(self).cursor),
            old(self).cursor > old(self).start ==> {
                let chunk_start: int = if old(self).cursor - SCAN_PERIOD_MS > old(self).start {
                    old(self).cursor - SCAN_PERIOD_MS
                } else {
                    old(self).start as int
                };
                &&& final(self).cursor == chunk_start
                &&& r matches Some((range, bp)) && range.start == chunk_start && range.end
                    == old(self).cursor && bp == spec_percent_bp(
                    old(self).end - chunk_start,
                    old(self).end - old(self).start,
                )
            },
    {
        if self.cursor == self.start {
            return None;
        }

        let end = self.cursor;
        let maybe_start = if self.cursor >= SCAN_PERIOD_MS {
            self.cursor - SCAN_PERIOD_MS
        } else {
            // The cursor is positive, so this cannot go below `start`.
            0
        };
        let start = if maybe_start < self.start {
            self.cursor = self.start;
            self.start
        } else {
            self.cursor = maybe_start;
            maybe_start
        };

        let percent = percent_bp(self.end - self.cursor, self.end - self.start);

        Some((ScanRange { start, end }, percent))
    }
}

/// One emitted chunk: a sub-window and the completion percentage once it is
/// done.
#[derive(Clone, Copy, Debug, PartialEq, Eq, Structural)]
pub struct ScanChunk {
    pub start: i64,
    pub end: i64,
    pub percent_bp: u32,
}

impl ScanRange {
    /// All chunks of the window, newest first. They tile `[start, end)`
    /// exactly: the first ends at `end`, the last starts at `start`, each
    /// chunk's end is the previous chunk's start, no chunk exceeds the
    /// period, and the percentages climb to 100% (except that a window
    /// under one day reports 0% throughout).
    pub fn chunks(&self) -> (res: Vec<ScanChunk>)
        requires
            0 <= self.start <= self.end,
        ensures
            self.start == self.end <==> res@.len() == 0,
            res@.len() > 0 ==> res@[0].end == self.end,
            res@.len() > 0 ==> res@[res@.len() - 1].start == self.start,
            forall|i: int|
                0 <= i < res@.len() ==> {
                    &&& self.start <= (#[trigger] res@[i]).start < res@[i].end <= self.end
                    &&& res@[i].end - res@[i].start <= SCAN_PERIOD_MS
                    &&& res@[i].percent_bp == spec_percent_bp(
                        self.end - res@[i].start,
                        self.end - self.start,
                    )
                },
            forall|i: int| 1 <= i < res@.len() ==> (#[trigger] res@[i]).end == res@[i - 1].start,
            forall|i: int|
                1 <= i < res@.len() ==> (#[trigger] res@[i]).percent_bp >= res@[i - 1].percent_bp,
            res@.len() > 0 && self.end - self.start >= MS_PER_DAY ==> res@[res@.len()
                - 1].percent_bp == 10000,
            self.end - self.start < MS_PER_DAY ==> forall|i: int|
                0 <= i < res@.len() ==> (#[trigger] res@[i]).percent_bp == 0,
    {
        let mut it = self.iter();
        let mut res: Vec<ScanChunk> = Vec::new();
        loop
            invariant
                it.start == self.start,
                it.end == self.end,
                0 <= self.start <= it.cursor <= self.end,
                res@.len() == 0 <==> it.cursor == self.end,
                res@.len() > 0 ==> res@[0].end == self.end,
                res@.len() > 0 ==> res@[res@.len() - 1].start == it.cursor,
                forall|i: int|
                    0 <= i < res@.len() ==> {
                        &&& self.start <= (#[trigger] res@[i]).start < res@[i].end <= self.end
                        &&& res@[i].end - res@[i].start <= SCAN_PERIOD_MS
                        &&& res@[i].percent_bp == spec_percent_bp(
                            self.end - res@[i].start,
                            self.end - self.start,
                        )
                    },
                forall|i: int|
                    1 <= i < res@.len() ==> (#[trigger] res@[i]).end == res@[i - 1].start,
                forall|i: int|
                    1 <= i < res@.len() ==> (#[trigger] res@[i]).percent_bp >= res@[i
                        - 1].percent_bp,
            ensures
                it.cursor == self.start,
            decreases it.cursor - self.start,
        {
            let ghost pre = res@;
            let ghost pre_cursor = it.cursor;
            match it.next() {
                Some((range, bp)) => {
                    res.push(ScanChunk { start: range.start, end: range.end, percent_bp: bp });
                    proof {
                        assert(res@ =~= pre.push(
                            ScanChunk { start: range.start, end: range.end, percent_bp: bp },
                        ));
                        if pre.len() > 0 {
                            lemma_percent_bp_monotone(
                                self.end - pre_cursor,
                                self.end - range.start,
                                self.end - self.start,
                            );
                        }
                        lemma_percent_bp_le_10000(
                            self.end - range.start,
                            self.end - self.start,
                        );
                    }
                },
                None => {
                    break ;
                },
            }
        }
        proof {
            if res@.len() > 0 && self.end - self.start >= MS_PER_DAY {
                lemma_percent_bp_full(self.end - self.start);
            }
            if self.end - self.start < MS_PER_DAY {
                assert((self.end - self.start) / (MS_PER_DAY as int) == 0) by {
                    vstd::arithmetic::div_mod::lemma_basic_div(
                        self.end - self.start,
                        MS_PER_DAY as int,
                    );
                };
            }
        }
        res
    }
}

} // verus!
