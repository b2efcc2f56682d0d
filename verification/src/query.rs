//! File-listing queries and their opaque pagination cursor.
//!
//! A page of file records is addressed by a cursor token `"<id>_<millis>"`
//! encoding the camera id and the start time (in milliseconds) of the row a
//! page ended at. The filter narrows by time window, cameras, kinds and
//! event names. Turning a millisecond value into a calendar date stays with
//! the caller's time library; the token itself is parsed and rendered here,
//! exactly.

use vstd::prelude::*;

use crate::mediafile::{
    lemma_digits_val_extend, lemma_digits_val_monotone, spec_all_digits, spec_digits_val,
    spec_is_digit,
};
use crate::strutil::{push_dec_i64, spec_dec_i64, string_push};

verus! {

use vstd::string::StrSliceExecFns;
use vstd::string::StringExecFns;

/// Why a cursor token is rejected.
#[derive(Clone, Copy, Debug, PartialEq, Eq, Structural)]
pub enum CursorError {
    /// No `_` separator.
    NoSeparator,
    /// The id half is not a valid signed number.
    BadId,
    /// The time half is not a valid signed number.
    BadTime,
}

/// How a signed 64-bit number is read from text: an optional sign, then at
/// least one digit, the value within the `i64` range.
pub open spec fn spec_parse_i64(s: Seq<char>) -> Option<i64> {
    let neg = s.len() > 0 && s[0] == '-';
    let t = if s.len() > 0 && (s[0] == '-' || s[0] == '+') {
        s.drop_first()
    } else {
        s
    };
    if t.len() > 0 && spec_all_digits(t) {
        let v = spec_digits_val(t);
        if neg {
            if v <= 9223372036854775808 {
                Some((-(v as int)) as i64)
            } else {
                None
            }
        } else {
            if v <= 9223372036854775807 {
                Some(v as i64)
            } else {
                None
            }
        }
    } else {
        None
    }
}

/// Reads the characters of `s` between `from` and `to` as a signed number.
fn parse_i64_range(s: &str, from: usize, to: usize) -> (r: Option<i64>)
    requires
        from <= to <= s@.len(),
    ensures
        r == spec_parse_i64(s@.subrange(from as int, to as int)),
{
    let ghost part = s@.subrange(from as int, to as int);
    if from == to {
        return None;
    }
    let c0 = s.get_char(from);
    let neg = c0 == '-';
    let signed = c0 == '-' || c0 == '+';
    let body_from = if signed {
        from + 1
    } else {
        from
    };
    proof {
        assert(part[0] == s@[from as int]);
        if signed {
            assert(part.drop_first() =~= s@.subrange(body_from as int, to as int));
        } else {
            assert(part =~= s@.subrange(body_from as int, to as int));
        }
    }
    let bound: u64 = if neg {
        9223372036854775808
    } else {
        9223372036854775807
    };
    // Parse against the sub-slice by shifting: reuse the digits reader over
    // the suffix starting at `body_from`, stopping at `to`.
    let r = parse_digits_u64_until(s, body_from, to, bound);
    match r {
        Some(v) => {
            if neg {
                if v == 9223372036854775808 {
                    Some(i64::MIN)
                } else {
                    Some(-(v as i64))
                }
            } else {
                Some(v as i64)
            }
        },
        None => None,
    }
}

/// Reads the digits of `s` between `from` and `to` as a value of at most
/// `bound`.
fn parse_digits_u64_until(s: &str, from: usize, to: usize, bound: u64) -> (r: Option<u64>)
    requires
        from <= to <= s@.len(),
        bound <= 9223372036854775808,
    ensures
        ({
            let t = s@.subrange(from as int, to as int);
            if t.len() > 0 && spec_all_digits(t) && spec_digits_val(t) <= bound {
                r == Some(spec_digits_val(t) as u64)
            } else {
                r is None
            }
        }),
{
    let ghost t = s@.subrange(from as int, to as int);
    if from == to {
        return None;
    }
    let mut acc: u64 = 0;
    let mut i = from;
    while i < to
        invariant
            from <= i <= to <= s@.len(),
            t == s@.subrange(from as int, to as int),
            spec_all_digits(t.take(i - from)),
            acc == spec_digits_val(t.take(i - from)),
            acc <= bound,
        decreases to - i,
    {
        let c = s.get_char(i);
        proof {
            assert(t[i - from] == s@[i as int]);
        }
        if !(c >= '0' && c <= '9') {
            return None;
        }
        let d = (c as u32) - ('0' as u32);
        proof {
            lemma_digits_val_extend(t, i - from);
        }
        let next: u128 = (acc as u128) * 10 + (d as u128);
        if next > bound as u128 {
            proof {
                lemma_digits_val_monotone(t, i - from + 1);
            }
            return None;
        }
        acc = next as u64;
        i = i + 1;
        proof {
            assert(spec_all_digits(t.take(i - from)));
        }
    }
    proof {
        assert(t.take(to - from) =~= t);
    }
    Some(acc)
}

/// The index of the first `_` in `s`, if any.
pub open spec fn spec_first_underscore(s: Seq<char>) -> Option<int>
    decreases s.len(),
{
    if s.len() == 0 {
        None
    } else if s[0] == '_' {
        Some(0)
    } else {
        match spec_first_underscore(s.drop_first()) {
            Some(i) => Some(i + 1),
            None => None,
        }
    }
}

proof fn lemma_first_underscore_found(s: Seq<char>, u: int)
    requires
        0 <= u < s.len(),
        s[u] == '_',
        forall|j: int| 0 <= j < u ==> s[j] != '_',
    ensures
        spec_first_underscore(s) == Some(u),
    decreases u,
{
    if u > 0 {
        assert forall|j: int| 0 <= j < u - 1 implies s.drop_first()[j] != '_' by {
            assert(s.drop_first()[j] == s[j + 1]);
        }
        assert(s.drop_first()[u - 1] == s[u]);
        lemma_first_underscore_found(s.drop_first(), u - 1);
    }
}

proof fn lemma_first_underscore_absent(s: Seq<char>)
    requires
        forall|j: int| 0 <= j < s.len() ==> s[j] != '_',
    ensures
        spec_first_underscore(s) is None,
    decreases s.len(),
{
    if s.len() > 0 {
        assert forall|j: int| 0 <= j < s.len() - 1 implies s.drop_first()[j] != '_' by {
            assert(s.drop_first()[j] == s[j + 1]);
        }
        lemma_first_underscore_absent(s.drop_first());
    }
}

/// The pagination cursor of a file query: absent (first page), or anchored
/// after or before a `(camera id, start time)` pair.
#[derive(Clone, Copy, Debug)]
pub enum CameraFileQueryCursor {
    Before((i64, i64)),
    After((i64, i64)),
    Unset,
}

/// What a rendered cursor token looks like for a given pair.
pub open spec fn spec_cursor_to(id: int, time_ms: int) -> Seq<char> {
    spec_dec_i64(id) + seq!['_'] + spec_dec_i64(time_ms)
}

impl CameraFileQueryCursor {
    /// Renders a `(camera id, start time)` pair as `"<id>_<millis>"`.
    pub fn to(id: i64, time_ms: i64) -> (r: String)
        ensures
            r@ == spec_cursor_to(id as int, time_ms as int),
    {
        let mut s = String::new();
        push_dec_i64(&mut s, id);
        string_push(&mut s, '_');
        push_dec_i64(&mut s, time_ms);
        assert(s@ =~= spec_cursor_to(id as int, time_ms as int));
        s
    }

    /// Parses a cursor token back into its `(camera id, start time)` pair:
    /// the text up to the first `_` must be the id, the rest the time, both
    /// signed decimal numbers. Each failure names the half at fault.
    pub fn from(cursor: &str) -> (r: Result<(i64, i64), CursorError>)
        ensures
            r == spec_cursor_from(cursor@),
    {
        let len = cursor.unicode_len();
        let mut u: usize = 0;
        let mut found = false;
        while u < len && !found
            invariant
                0 <= u <= len,
                len == cursor@.len(),
                forall|j: int| 0 <= j < u ==> cursor@[j] != '_',
                found ==> u < len && cursor@[u as int] == '_',
                !found ==> u <= len,
            decreases len - u, (if found { 0int } else { 1int }),
        {
            if cursor.get_char(u) == '_' {
                found = true;
            } else {
                u = u + 1;
            }
        }
        if !found {
            proof {
                lemma_first_underscore_absent(cursor@);
            }
            return Err(CursorError::NoSeparator);
        }
        proof {
            lemma_first_underscore_found(cursor@, u as int);
        }
        let id = match parse_i64_range(cursor, 0, u) {
            Some(v) => v,
            None => {
                return Err(CursorError::BadId);
            },
        };
        let ms = match parse_i64_range(cursor, u + 1, len) {
            Some(v) => v,
            None => {
                return Err(CursorError::BadTime);
            },
        };
        Ok((id, ms))
    }
}

/// The filter of a file query: an open time window, and optional whitelists
/// of cameras, kinds and event names (an empty list means "no restriction").
#[derive(Clone, Debug)]
pub struct CameraFileQueryFilter {
    pub start: Option<i64>,
    pub end: Option<i64>,
    pub camera_ids: Vec<i64>,
    pub kinds: Vec<String>,
    pub events: Vec<String>,
}

impl CameraFileQueryFilter {
    /// An unrestricted filter.
    pub fn new() -> (r: Self)
        ensures
            r.start is None,
            r.end is None,
            r.camera_ids@.len() == 0,
            r.kinds@.len() == 0,
            r.events@.len() == 0,
    {
        CameraFileQueryFilter {
            start: None,
            end: None,
            camera_ids: Vec::new(),
            kinds: Vec::new(),
            events: Vec::new(),
        }
    }

    pub fn kinds(self, kinds: Vec<String>) -> (r: Self)
        ensures
            r == (CameraFileQueryFilter { kinds, ..self }),
    {
        CameraFileQueryFilter { kinds, ..self }
    }

    pub fn events(self, events: Vec<String>) -> (r: Self)
        ensures
            r == (CameraFileQueryFilter { events, ..self }),
    {
        CameraFileQueryFilter { events, ..self }
    }

    pub fn camera_ids(self, camera_ids: Vec<i64>) -> (r: Self)
        ensures
            r == (CameraFileQueryFilter { camera_ids, ..self }),
    {
        CameraFileQueryFilter { camera_ids, ..self }
    }

    pub fn start(self, start: Option<i64>) -> (r: Self)
        ensures
            r == (CameraFileQueryFilter { start, ..self }),
    {
        CameraFileQueryFilter { start, ..self }
    }

    pub fn end(self, end: Option<i64>) -> (r: Self)
        ensures
            r == (CameraFileQueryFilter { end, ..self }),
    {
        CameraFileQueryFilter { end, ..self }
    }
}

/// A file query: a filter, a page size, and where the page starts.
#[derive(Clone, Debug)]
pub struct CameraFileQuery {
    pub cursor: CameraFileQueryCursor,
    pub limit: i32,
    pub filter: CameraFileQueryFilter,
}

impl CameraFileQuery {
    /// The first page, 25 rows.
    pub fn new(filter: CameraFileQueryFilter) -> (r: Self)
        ensures
            r.cursor is Unset,
            r.limit == 25,
            r.filter == filter,
    {
        CameraFileQuery { cursor: CameraFileQueryCursor::Unset, limit: 25, filter }
    }

    /// Overrides the page size, clamped to 10..=100.
    pub fn maybe_limit(self, limit: Option<i32>) -> (r: Self)
        ensures
            limit is None ==> r == self,
            limit matches Some(l) ==> r == (CameraFileQuery {
                limit: if l > 100 {
                    100
                } else if l < 10 {
                    10
                } else {
                    l
                },
                ..self
            }),
    {
        match limit {
            Some(l) => {
                let clamped: i32 = if l > 100 {
                    100
                } else if l < 10 {
                    10
                } else {
                    l
                };
                CameraFileQuery { limit: clamped, ..self }
            },
            None => self,
        }
    }

    /// Anchors the page after the given cursor token; an absent or empty
    /// token leaves the query as it is, an invalid one is rejected.
    pub fn maybe_after(self, cursor: Option<String>) -> (r: Result<Self, CursorError>)
        ensures
            cursor is None ==> r == Result::<Self, CursorError>::Ok(self),
            cursor matches Some(c) ==> {
                &&& (c@.len() == 0 ==> r == Result::<Self, CursorError>::Ok(self))
                &&& (c@.len() > 0 ==> (match spec_cursor_from(c@) {
                    Result::Ok(pair) => r == Result::<Self, CursorError>::Ok(
                        CameraFileQuery {
                            cursor: CameraFileQueryCursor::After(pair),
                            limit: self.limit,
                            filter: self.filter,
                        },
                    ),
                    Result::Err(e) => r == Result::<Self, CursorError>::Err(e),
                }))
            },
    {
        match cursor {
            Some(c) => {
                if c.as_str().unicode_len() == 0 {
                    Ok(self)
                } else {
                    match CameraFileQueryCursor::from(c.as_str()) {
                        Ok(pair) => Ok(
                            CameraFileQuery { cursor: CameraFileQueryCursor::After(pair), ..self },
                        ),
                        Err(e) => Err(e),
                    }
                }
            },
            None => Ok(self),
        }
    }

    /// Anchors the page before the given cursor token; an absent or empty
    /// token leaves the query as it is, an invalid one is rejected.
    pub fn maybe_before(self, cursor: Option<String>) -> (r: Result<Self, CursorError>)
        ensures
            cursor is None ==> r == Result::<Self, CursorError>::Ok(self),
            cursor matches Some(c) ==> {
                &&& (c@.len() == 0 ==> r == Result::<Self, CursorError>::Ok(self))
                &&& (c@.len() > 0 ==> (match spec_cursor_from(c@) {
                    Result::Ok(pair) => r == Result::<Self, CursorError>::Ok(
                        CameraFileQuery {
                            cursor: CameraFileQueryCursor::Before(pair),
                            limit: self.limit,
                            filter: self.filter,
                        },
                    ),
                    Result::Err(e) => r == Result::<Self, CursorError>::Err(e),
                }))
            },
    {
        match cursor {
            Some(c) => {
                if c.as_str().unicode_len() == 0 {
                    Ok(self)
                } else {
                    match CameraFileQueryCursor::from(c.as_str()) {
                        Ok(pair) => Ok(
                            CameraFileQuery { cursor: CameraFileQueryCursor::Before(pair), ..self },
                        ),
                        Err(e) => Err(e),
                    }
                }
            },
            None => Ok(self),
        }
    }
}

/// What `CameraFileQueryCursor::from` returns, as a spec-level function.
pub open spec fn spec_cursor_from(s: Seq<char>) -> Result<(i64, i64), CursorError> {
    match spec_first_underscore(s) {
        Some(u) => {
            let id = spec_parse_i64(s.subrange(0, u));
            let ms = spec_parse_i64(s.subrange(u + 1, s.len() as int));
            match (id, ms) {
                (Some(i), Some(m)) => Result::Ok((i, m)),
                (None, _) => Result::Err(CursorError::BadId),
                (Some(_), None) => Result::Err(CursorError::BadTime),
            }
        },
        None => Result::Err(CursorError::NoSeparator),
    }
}


// ---------------------------------------------------------------------------
// The token round-trips
// ---------------------------------------------------------------------------
proof fn lemma_dec_i64_shape(n: int)
    ensures
        spec_dec_i64(n).len() >= 1,
        n >= 0 ==> forall|i: int|
            0 <= i < spec_dec_i64(n).len() ==> spec_is_digit(#[trigger] spec_dec_i64(n)[i]),
        n < 0 ==> spec_dec_i64(n)[0] == '-' && (forall|i: int|
            1 <= i < spec_dec_i64(n).len() ==> spec_is_digit(#[trigger] spec_dec_i64(n)[i])),
{
    if n >= 0 {
        crate::strutil::lemma_dec_u64_digits(n as nat);
    } else {
        crate::strutil::lemma_dec_u64_digits((-n) as nat);
        let s = spec_dec_i64(n);
        assert forall|i: int| 1 <= i < s.len() implies spec_is_digit(#[trigger] s[i]) by {
            assert(s[i] == crate::strutil::spec_dec_u64((-n) as nat)[i - 1]);
        }
    }
}

proof fn lemma_dec_i64_no_underscore(n: int)
    ensures
        forall|i: int| 0 <= i < spec_dec_i64(n).len() ==> #[trigger] spec_dec_i64(n)[i] != '_',
{
    lemma_dec_i64_shape(n);
}

/// Reading a rendered signed number back gives the number.
proof fn lemma_parse_dec_i64(n: i64)
    ensures
        spec_parse_i64(spec_dec_i64(n as int)) == Some(n),
{
    let s = spec_dec_i64(n as int);
    lemma_dec_i64_shape(n as int);
    if n >= 0 {
        crate::strutil::lemma_dec_u64_value(n as nat);
        assert(spec_is_digit(s[0]));
        assert(s[0] != '-' && s[0] != '+');
        assert(spec_all_digits(s));
    } else {
        let m = (-(n as int)) as nat;
        crate::strutil::lemma_dec_u64_value(m);
        assert(s[0] == '-');
        assert(s.drop_first() =~= crate::strutil::spec_dec_u64(m));
        assert(spec_all_digits(s.drop_first()));
        assert(spec_digits_val(s.drop_first()) == m);
        assert(m <= 9223372036854775808);
    }
}

proof fn lemma_first_underscore_concat(a: Seq<char>, b: Seq<char>)
    requires
        forall|i: int| 0 <= i < a.len() ==> #[trigger] a[i] != '_',
    ensures
        spec_first_underscore(a + seq!['_'] + b) == Some(a.len() as int),
    decreases a.len(),
{
    let s = a + seq!['_'] + b;
    if a.len() == 0 {
        assert(s[0] == '_');
    } else {
        assert(s[0] == a[0]);
        assert(s.drop_first() =~= a.drop_first() + seq!['_'] + b);
        assert forall|i: int| 0 <= i < a.drop_first().len() implies #[trigger] a.drop_first()[i]
            != '_' by {
            assert(a.drop_first()[i] == a[i + 1]);
        }
        lemma_first_underscore_concat(a.drop_first(), b);
    }
}

/// Rendering a `(camera id, start time)` pair as a token and parsing the
/// token back always gives the pair: pagination cursors round-trip.
pub proof fn lemma_cursor_round_trip(id: i64, time_ms: i64)
    ensures
        spec_cursor_from(spec_cursor_to(id as int, time_ms as int)) == Result::<
            (i64, i64),
            CursorError,
        >::Ok((id, time_ms)),
{
    let a = spec_dec_i64(id as int);
    let b = spec_dec_i64(time_ms as int);
    let s = spec_cursor_to(id as int, time_ms as int);
    assert(s =~= a + seq!['_'] + b);
    lemma_dec_i64_no_underscore(id as int);
    lemma_first_underscore_concat(a, b);
    assert(s.subrange(0, a.len() as int) =~= a);
    assert(s.subrange(a.len() as int + 1, s.len() as int) =~= b);
    lemma_parse_dec_i64(id);
    lemma_parse_dec_i64(time_ms);
}

} // verus!
