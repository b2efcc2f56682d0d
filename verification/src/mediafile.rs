//! The media-file enumeration protocol: search conditions, the records the
//! device reports, the sub-second uniqueness derivation, and the state of one
//! enumeration stream.
//!
//! Device-reported timestamps have second granularity and several files can
//! share one. To make (camera id, start time) usable as a storage key, a
//! sub-second offset is derived from the bracketed tags the firmware embeds
//! in file names plus the file type, summed modulo 500 and written into the
//! millisecond position. Colliding offsets (about 1 in 500) are accepted:
//! the colliding upsert is silently dropped by the store.

use vstd::prelude::*;

use crate::rpc::{Error, RequestBuilder, ResponseError, ResponseKind, RpcParams};
use crate::strutil::string_push;

verus! {

use vstd::arithmetic::div_mod::lemma_add_mod_noop;
use vstd::string::StrSliceExecFns;
use vstd::string::StringExecFns;

/// Largest timestamp magnitude, in seconds, that the uniqueness derivation
/// accepts: the bound a calendar library can represent, and small enough
/// that the millisecond form fits an `i64`.
pub const MAX_TS_SECS: i64 = 8_210_298_412_800;

// ---------------------------------------------------------------------------
// File-path tags
// ---------------------------------------------------------------------------
/// The position right after the last `/`, or 0 when there is none: tags are
/// read from the file name only.
pub open spec fn spec_tags_start(s: Seq<char>) -> int
    decreases s.len(),
{
    if s.len() == 0 {
        0
    } else if s.last() == '/' {
        s.len() as int
    } else {
        spec_tags_start(s.drop_last())
    }
}

/// One pass over the file name: `[` starts a tag (discarding an unfinished
/// one), `]` ends it; characters outside brackets are skipped.
pub open spec fn spec_scan_tags(s: Seq<char>, collecting: bool, cur: Seq<char>) -> Seq<Seq<char>>
    decreases s.len(),
{
    if s.len() == 0 {
        Seq::empty()
    } else {
        let c = s.first();
        let rest = s.drop_first();
        if c == '[' {
            spec_scan_tags(rest, true, Seq::empty())
        } else if collecting && c == ']' {
            seq![cur] + spec_scan_tags(rest, false, Seq::empty())
        } else if collecting {
            spec_scan_tags(rest, true, cur.push(c))
        } else {
            spec_scan_tags(rest, false, Seq::empty())
        }
    }
}

/// The bracketed tags of a file path's final component, in order.
pub open spec fn spec_file_path_tags(path: Seq<char>) -> Seq<Seq<char>> {
    spec_scan_tags(path.skip(spec_tags_start(path)), false, Seq::empty())
}

proof fn lemma_tags_start_range(s: Seq<char>)
    ensures
        0 <= spec_tags_start(s) <= s.len(),
    decreases s.len(),
{
    if s.len() > 0 && s.last() != '/' {
        lemma_tags_start_range(s.drop_last());
    }
}

/// Extracts the bracketed tags from the final path component.
pub fn parse_file_path_tags(file_path: &str) -> (tags: Vec<String>)
    ensures
        tags.deep_view() == spec_file_path_tags(file_path@),
{
    let ghost path = file_path@;
    let len = file_path.unicode_len();

    // Find the position right after the last '/'.
    let mut start: usize = len;
    proof {
        lemma_tags_start_range(path);
        assert(path.take(len as int) =~= path);
    }
    while start > 0 && file_path.get_char(start - 1) != '/'
        invariant
            0 <= start <= len,
            path == file_path@,
            len == path.len(),
            spec_tags_start(path) == spec_tags_start(path.take(start as int)),
        decreases start,
    {
        proof {
            assert(path.take(start as int).last() == path[start - 1]);
            assert(path.take(start as int).drop_last() =~= path.take(start as int - 1));
        }
        start = start - 1;
    }
    proof {
        if start > 0 {
            assert(path.take(start as int).last() == path[start - 1]);
            assert(spec_tags_start(path.take(start as int)) == start as int);
        } else {
            assert(path.take(0) =~= Seq::<char>::empty());
        }
        assert(spec_tags_start(path) == start as int);
    }

    let mut tags: Vec<String> = Vec::new();
    let mut collecting = false;
    let mut cur = String::new();
    let mut i = start;
    while i < len
        invariant
            start <= i <= len,
            path == file_path@,
            len == path.len(),
            !collecting ==> cur@ == Seq::<char>::empty(),
            spec_file_path_tags(path) == tags.deep_view() + spec_scan_tags(
                path.skip(i as int),
                collecting,
                cur@,
            ),
        decreases len - i,
    {
        let ghost pre_tags = tags.deep_view();
        let ghost pre_cur = cur@;
        let ghost pre_collecting = collecting;
        let c = file_path.get_char(i);
        proof {
            assert(path.skip(i as int).first() == path[i as int]);
            assert(path.skip(i as int).drop_first() =~= path.skip(i as int + 1));
        }
        if c == '[' {
            collecting = true;
            cur = String::new();
        } else if collecting && c == ']' {
            tags.push(cur);
            cur = String::new();
            collecting = false;
            proof {
                assert(tags.deep_view() =~= pre_tags.push(pre_cur));
                assert(pre_tags.push(pre_cur) + spec_scan_tags(
                    path.skip(i as int + 1),
                    false,
                    Seq::empty(),
                ) =~= pre_tags + (seq![pre_cur] + spec_scan_tags(
                    path.skip(i as int + 1),
                    false,
                    Seq::empty(),
                )));
            }
        } else if collecting {
            string_push(&mut cur, c);
        }
        i = i + 1;
    }
    proof {
        assert(path.skip(len as int) =~= Seq::<char>::empty());
        assert(tags.deep_view() =~= spec_file_path_tags(path));
    }
    tags
}

// ---------------------------------------------------------------------------
// Numeric tag parsing
// ---------------------------------------------------------------------------
pub open spec fn spec_is_digit(c: char) -> bool {
    '0' <= c <= '9'
}

pub open spec fn spec_digit_val(c: char) -> nat {
    (c as nat - '0' as nat) as nat
}

/// The value of a digit string, most significant digit first.
pub open spec fn spec_digits_val(s: Seq<char>) -> nat
    decreases s.len(),
{
    if s.len() == 0 {
        0
    } else {
        spec_digits_val(s.drop_last()) * 10 + spec_digit_val(s.last())
    }
}

pub open spec fn spec_all_digits(s: Seq<char>) -> bool {
    forall|i: int| 0 <= i < s.len() ==> spec_is_digit(#[trigger] s[i])
}

/// How an unsigned integer is read from a tag: an optional `+` sign, then
/// digits; anything else, an empty string, or a value beyond `u32::MAX`
/// yields nothing.
pub open spec fn spec_parse_u32(s: Seq<char>) -> Option<u32> {
    let t = if s.len() > 0 && s[0] == '+' {
        s.drop_first()
    } else {
        s
    };
    if t.len() > 0 && spec_all_digits(t) && spec_digits_val(t) <= u32::MAX {
        Some(spec_digits_val(t) as u32)
    } else {
        None
    }
}

/// A missing or unparsable tag counts as zero.
pub open spec fn spec_to_num(s: Option<Seq<char>>) -> u32 {
    match s {
        Option::Some(t) => match spec_parse_u32(t) {
            Option::Some(v) => v,
            Option::None => 0,
        },
        Option::None => 0,
    }
}

pub(crate) proof fn lemma_digits_val_extend(s: Seq<char>, i: int)
    requires
        0 <= i < s.len(),
    ensures
        spec_digits_val(s.take(i + 1)) == spec_digits_val(s.take(i)) * 10 + spec_digit_val(s[i]),
{
    assert(s.take(i + 1).drop_last() =~= s.take(i));
    assert(s.take(i + 1).last() == s[i]);
}

pub(crate) proof fn lemma_digits_val_monotone(s: Seq<char>, i: int)
    requires
        0 <= i <= s.len(),
    ensures
        spec_digits_val(s.take(i)) <= spec_digits_val(s),
    decreases s.len() - i,
{
    if i < s.len() {
        lemma_digits_val_extend(s, i);
        lemma_digits_val_monotone(s, i + 1);
    } else {
        assert(s.take(i) =~= s);
    }
}

fn digit_val(c: char) -> (v: u32)
    requires
        spec_is_digit(c),
    ensures
        v == spec_digit_val(c),
        v < 10,
{
    (c as u32) - ('0' as u32)
}

/// Reads the digits of `s` starting at `from`; the result is `None` when a
/// non-digit occurs, nothing follows `from`, or the value overflows `u32`.
fn parse_digits(s: &str, from: usize, len: usize) -> (r: Option<u32>)
    requires
        from <= len,
        len == s@.len(),
    ensures
        ({
            let t = s@.skip(from as int);
            if t.len() > 0 && spec_all_digits(t) && spec_digits_val(t) <= u32::MAX {
                r == Some(spec_digits_val(t) as u32)
            } else {
                r is None
            }
        }),
{
    let ghost t = s@.skip(from as int);
    if from == len {
        return None;
    }
    let mut acc: u64 = 0;
    let mut i = from;
    while i < len
        invariant
            from <= i <= len,
            len == s@.len(),
            t == s@.skip(from as int),
            spec_all_digits(t.take(i - from)),
            acc == spec_digits_val(t.take(i - from)),
            acc <= u32::MAX,
        decreases len - i,
    {
        let c = s.get_char(i);
        proof {
            assert(t[i - from] == s@[i as int]);
        }
        if !(c >= '0' && c <= '9') {
            return None;
        }
        let d = digit_val(c);
        proof {
            lemma_digits_val_extend(t, i - from);
        }
        let next = acc * 10 + (d as u64);
        if next > u32::MAX as u64 {
            proof {
                lemma_digits_val_monotone(t, i - from + 1);
            }
            return None;
        }
        acc = next;
        i = i + 1;
        proof {
            assert(spec_all_digits(t.take(i - from)));
        }
    }
    proof {
        assert(t.take(len - from) =~= t);
    }
    Some(acc as u32)
}

/// Reads a tag as an unsigned integer; absence or any parse failure counts
/// as zero.
pub fn to_num(s: Option<&String>) -> (r: u32)
    ensures
        ({
            let v = match s {
                Option::Some(t) => Option::Some(t@),
                Option::None => Option::None,
            };
            r == spec_to_num(v)
        }),
{
    match s {
        Some(t) => {
            let len = t.as_str().unicode_len();
            let from: usize = if len > 0 && t.as_str().get_char(0) == '+' {
                proof {
                    assert(t@.skip(1) =~= t@.drop_first());
                }
                1
            } else {
                proof {
                    assert(t@.skip(0) =~= t@);
                }
                0
            };
            match parse_digits(t.as_str(), from, len) {
                Some(v) => v,
                None => 0,
            }
        },
        None => 0,
    }
}

// ---------------------------------------------------------------------------
// The records the device reports
// ---------------------------------------------------------------------------
/// One file record from a `findNextFile` page. Times are in seconds; the
/// wire format carries them with second granularity.
#[derive(Clone, Debug)]
pub struct FindNextFileInfo {
    pub channel: i32,
    pub start_time: i64,
    pub end_time: i64,
    pub length: i32,
    pub kind: String,
    pub file_path: String,
    pub duration: Option<i32>,
    pub disk: i32,
    pub video_stream: String,
    pub flags: Vec<String>,
    pub events: Vec<String>,
    pub cluster: Option<i32>,
    pub partition: Option<i32>,
    pub pic_index: Option<i32>,
    pub repeat: Option<i32>,
    pub work_dir: Option<String>,
    pub work_dir_sn: Option<i32>,
}

/// One page of results: how many were found and the records themselves.
#[derive(Debug)]
pub struct FindNextFile {
    pub found: i32,
    pub infos: Option<Vec<FindNextFileInfo>>,
}

/// The sum of a string's character codes.
pub open spec fn spec_char_sum(s: Seq<char>) -> nat
    decreases s.len(),
{
    if s.len() == 0 {
        0
    } else {
        spec_char_sum(s.drop_last()) + s.last() as nat
    }
}

/// The derived sub-second offset, in milliseconds: third and fourth tags
/// read as numbers, plus the character codes of the type, modulo 500.
pub open spec fn spec_unique_offset_ms(path: Seq<char>, kind: Seq<char>) -> nat {
    let tags = spec_file_path_tags(path);
    let t3 = spec_to_num(if tags.len() > 2 {
        Option::Some(tags[2])
    } else {
        Option::None
    });
    let t4 = spec_to_num(if tags.len() > 3 {
        Option::Some(tags[3])
    } else {
        Option::None
    });
    ((t3 + t4 + spec_char_sum(kind)) % 500) as nat
}

/// The uniqueness-derived (start, end) times of a record, in milliseconds.
pub open spec fn spec_unique_time(info: FindNextFileInfo) -> (int, int) {
    let off = spec_unique_offset_ms(info.file_path@, info.kind@);
    (info.start_time * 1000 + off, info.end_time * 1000 + off)
}

fn char_sum_mod(s: &str) -> (r: u64)
    ensures
        r == spec_char_sum(s@) % 500,
{
    let len = s.unicode_len();
    let mut acc: u64 = 0;
    let mut i: usize = 0;
    while i < len
        invariant
            0 <= i <= len,
            len == s@.len(),
            acc == spec_char_sum(s@.take(i as int)) % 500,
        decreases len - i,
    {
        let c = s.get_char(i);
        proof {
            assert(s@.take(i as int + 1).drop_last() =~= s@.take(i as int));
            assert(s@.take(i as int + 1).last() == s@[i as int]);
            lemma_add_mod_noop(
                spec_char_sum(s@.take(i as int)) as int,
                s@[i as int] as int,
                500,
            );
        }
        acc = (acc + (c as u64) % 500) % 500;
        proof {
            lemma_add_mod_noop(spec_char_sum(s@.take(i as int)) as int, s@[i as int] as int, 500);
        }
        i = i + 1;
    }
    proof {
        assert(s@.take(len as int) =~= s@);
    }
    acc
}

impl FindNextFileInfo {
    /// The (start, end) times with the derived sub-second offset written into
    /// the millisecond position. Two records with the same path and type
    /// always get the same offset; differing tags or types usually differ.
    pub fn unique_time(&self) -> (r: (i64, i64))
        requires
            -MAX_TS_SECS <= self.start_time <= MAX_TS_SECS,
            -MAX_TS_SECS <= self.end_time <= MAX_TS_SECS,
        ensures
            (r.0 as int, r.1 as int) == spec_unique_time(*self),
    {
        let tags = parse_file_path_tags(self.file_path.as_str());
        let t3 = to_num(if tags.len() > 2 {
            Some(&tags[2])
        } else {
            None
        });
        let t4 = to_num(if tags.len() > 3 {
            Some(&tags[3])
        } else {
            None
        });
        let ksum = char_sum_mod(self.kind.as_str());
        proof {
            lemma_add_mod_noop(
                (t3 + t4) as int,
                spec_char_sum(self.kind@) as int,
                500,
            );
            lemma_add_mod_noop((t3 + t4) as int, (spec_char_sum(self.kind@) % 500) as int, 500);
        }
        let off = ((t3 as u64) + (t4 as u64) + ksum) % 500;
        assert(off == spec_unique_offset_ms(self.file_path@, self.kind@));
        (self.start_time * 1000 + (off as i64), self.end_time * 1000 + (off as i64))
    }

    /// The derivation is a function of path and type alone: records that
    /// agree on both always receive the same offset.
    pub proof fn lemma_unique_offset_deterministic(a: FindNextFileInfo, b: FindNextFileInfo)
        requires
            a.file_path@ == b.file_path@,
            a.kind@ == b.kind@,
        ensures
            spec_unique_offset_ms(a.file_path@, a.kind@) == spec_unique_offset_ms(
                b.file_path@,
                b.kind@,
            ),
    {
    }
}

// ---------------------------------------------------------------------------
// Search conditions
// ---------------------------------------------------------------------------
#[derive(Clone, Copy, Debug, PartialEq, Eq, Structural)]
pub enum ConditionOrder {
    Ascent,
    Descent,
}

/// The filter of a `findFile` call: channel, file types, time range,
/// ordering and flags. Times are in seconds.
#[derive(Clone, Debug)]
pub struct Condition {
    pub channel: i32,
    pub dirs: Vec<String>,
    pub types: Vec<String>,
    pub order: ConditionOrder,
    pub redundant: String,
    pub events: Option<Vec<String>>,
    pub start_time: i64,
    pub end_time: i64,
    pub flags: Vec<String>,
}

impl Condition {
    /// The default filter over a time range: both file types, ascending,
    /// all flag classes.
    pub fn new(start_time: i64, end_time: i64) -> (r: Condition)
        ensures
            r.channel == 0,
            r.dirs@.len() == 0,
            r.types.deep_view() =~= seq!["dav"@, "jpg"@],
            r.order is Ascent,
            r.redundant@ == "Exclusion"@,
            r.events is None,
            r.start_time == start_time,
            r.end_time == end_time,
            r.flags.deep_view() =~= seq!["Timing"@, "Event"@, "Event"@, "Manual"@],
    {
        let mut types: Vec<String> = Vec::new();
        types.push(String::from_str("dav"));
        types.push(String::from_str("jpg"));
        let mut flags: Vec<String> = Vec::new();
        flags.push(String::from_str("Timing"));
        flags.push(String::from_str("Event"));
        flags.push(String::from_str("Event"));
        flags.push(String::from_str("Manual"));
        Condition {
            channel: 0,
            dirs: Vec::new(),
            types,
            order: ConditionOrder::Ascent,
            redundant: String::from_str("Exclusion"),
            events: None,
            start_time,
            end_time,
            flags,
        }
    }

    /// Restricts the filter to video files.
    pub fn video(self) -> (r: Condition)
        ensures
            r.types.deep_view() =~= seq!["dav"@],
            r.channel == self.channel,
            r.dirs == self.dirs,
            r.order == self.order,
            r.redundant == self.redundant,
            r.events == self.events,
            r.start_time == self.start_time,
            r.end_time == self.end_time,
            r.flags == self.flags,
    {
        let mut types: Vec<String> = Vec::new();
        types.push(String::from_str("dav"));
        Condition { types, ..self }
    }

    /// Restricts the filter to pictures, which also drops the manual flag
    /// class.
    pub fn picture(self) -> (r: Condition)
        ensures
            r.types.deep_view() =~= seq!["jpg"@],
            r.flags.deep_view() =~= seq!["Timing"@, "Event"@, "Event"@],
            r.channel == self.channel,
            r.dirs == self.dirs,
            r.order == self.order,
            r.redundant == self.redundant,
            r.events == self.events,
            r.start_time == self.start_time,
            r.end_time == self.end_time,
    {
        let mut types: Vec<String> = Vec::new();
        types.push(String::from_str("jpg"));
        let mut flags: Vec<String> = Vec::new();
        flags.push(String::from_str("Timing"));
        flags.push(String::from_str("Event"));
        flags.push(String::from_str("Event"));
        Condition { types, flags, ..self }
    }
}

// ---------------------------------------------------------------------------
// The requests of the enumeration protocol
// ---------------------------------------------------------------------------
/// Request: allocate a server-side finder. Its result number is the handle.
pub fn create(rpc: RequestBuilder) -> (r: RequestBuilder)
    ensures
        r.req.method@ == "mediaFileFind.factory.create"@,
        r.req.id == rpc.req.id,
        r.req.session == rpc.req.session,
        r.req.params == rpc.req.params,
        r.req.object == rpc.req.object,
        r.url == rpc.url,
        r.require_session == rpc.require_session,
{
    rpc.method("mediaFileFind.factory.create")
}

/// Request: apply the filter to a finder handle. A true result means data
/// exists.
pub fn find_file(rpc: RequestBuilder, object: i64, condition: Condition) -> (r: RequestBuilder)
    ensures
        r.req.method@ == "mediaFileFind.findFile"@,
        r.req.params matches RpcParams::FindFile(c) && c == condition,
        r.req.object == Some(object),
        r.req.id == rpc.req.id,
        r.req.session == rpc.req.session,
        r.url == rpc.url,
        r.require_session == rpc.require_session,
{
    rpc.method("mediaFileFind.findFile").params(RpcParams::FindFile(condition)).object(object)
}

/// Request: fetch the next page of at most `count` records.
pub fn find_next_file(rpc: RequestBuilder, object: i64, count: i32) -> (r: RequestBuilder)
    ensures
        r.req.method@ == "mediaFileFind.findNextFile"@,
        r.req.params matches RpcParams::FindNextFile { count: c } && c == count,
        r.req.object == Some(object),
        r.req.id == rpc.req.id,
        r.req.session == rpc.req.session,
        r.url == rpc.url,
        r.require_session == rpc.require_session,
{
    rpc.method("mediaFileFind.findNextFile").params(RpcParams::FindNextFile { count }).object(
        object,
    )
}

/// Request: close a finder handle.
pub fn close(rpc: RequestBuilder, object: i64) -> (r: RequestBuilder)
    ensures
        r.req.method@ == "mediaFileFind.close"@,
        r.req.object == Some(object),
        r.req.id == rpc.req.id,
        r.req.session == rpc.req.session,
        r.req.params == rpc.req.params,
        r.url == rpc.url,
        r.require_session == rpc.require_session,
{
    rpc.method("mediaFileFind.close").object(object)
}

/// Request: destroy a finder handle.
pub fn destroy(rpc: RequestBuilder, object: i64) -> (r: RequestBuilder)
    ensures
        r.req.method@ == "mediaFileFind.destroy"@,
        r.req.object == Some(object),
        r.req.id == rpc.req.id,
        r.req.session == rpc.req.session,
        r.req.params == rpc.req.params,
        r.url == rpc.url,
        r.require_session == rpc.require_session,
{
    rpc.method("mediaFileFind.destroy").object(object)
}

// ---------------------------------------------------------------------------
// Stream state
// ---------------------------------------------------------------------------
/// The state of one enumeration stream over a finder handle. The transport
/// performs the calls; the functions below decide what each outcome means.
/// When `closed` is set the caller must issue the best-effort close and
/// destroy calls for `object` and stop iterating; `error` remembers the
/// first failure so that "finished" and "failed mid-stream" can be told
/// apart after the fact.
#[derive(Debug)]
pub struct IpcFileStream {
    pub object: i64,
    pub count: i32,
    pub closed: bool,
    pub error: Option<Error>,
}

impl IpcFileStream {
    /// Interprets the outcome of the initial `findFile` call: a false result
    /// or a no-data error means the stream is empty (but the handle still
    /// exists and must be cleaned up); any other error aborts creation.
    pub fn begin(object: i64, found: Result<bool, Error>) -> (r: Result<IpcFileStream, Error>)
        ensures
            found matches Ok(b) ==> (r matches Ok(s) && s == (IpcFileStream {
                object,
                count: 64,
                closed: !b,
                error: Option::<Error>::None,
            })),
            found matches Err(e) ==> (if (e matches Error::Response(re) && re.kind is NoData) {
                r matches Ok(s) && s == (IpcFileStream {
                    object,
                    count: 64,
                    closed: true,
                    error: Option::<Error>::None,
                })
            } else {
                r matches Err(e2) && e2 == e
            }),
    {
        match found {
            Ok(b) => Ok(IpcFileStream { object, count: 64, closed: !b, error: None }),
            Err(e) => {
                let nodata = match &e {
                    Error::Response(re) => matches!(re.kind, ResponseKind::NoData),
                    _ => false,
                };
                if nodata {
                    Ok(IpcFileStream { object, count: 64, closed: true, error: None })
                } else {
                    Err(e)
                }
            },
        }
    }

    /// Records that a request for the next page could not even be issued:
    /// the stream fails and must be cleaned up.
    pub fn fail(&mut self, err: Error)
        requires
            !old(self).closed,
        ensures
            final(self).object == old(self).object,
            final(self).count == old(self).count,
            final(self).closed,
            final(self).error == Some(err),
    {
        self.error = Some(err);
        self.closed = true;
    }

    /// Interprets one `findNextFile` outcome: a full page keeps the stream
    /// open; a short page, a page without records, or an error ends it (an
    /// error is remembered). The returned records, if any, are the page.
    pub fn apply_next(&mut self, outcome: Result<FindNextFile, Error>) -> (r: Option<
        Vec<FindNextFileInfo>,
    >)
        requires
            !old(self).closed,
        ensures
            final(self).object == old(self).object,
            final(self).count == old(self).count,
            outcome matches Ok(page) ==> (page.infos matches Some(infos) ==> {
                &&& r matches Some(out) && out == infos
                &&& final(self).closed == (page.found < old(self).count)
                &&& final(self).error == old(self).error
            }),
            outcome matches Ok(page) ==> (page.infos is None ==> {
                &&& r is None
                &&& final(self).closed
                &&& final(self).error == old(self).error
            }),
            outcome matches Err(e) ==> {
                &&& r is None
                &&& final(self).closed
                &&& final(self).error == Some(e)
            },
    {
        match outcome {
            Ok(page) => match page.infos {
                Some(infos) => {
                    if page.found < self.count {
                        self.closed = true;
                    }
                    Some(infos)
                },
                None => {
                    self.closed = true;
                    None
                },
            },
            Err(e) => {
                self.error = Some(e);
                self.closed = true;
                None
            },
        }
    }
}

} // verus!
