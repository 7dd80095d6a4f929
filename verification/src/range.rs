//! Serving a file with support for single byte ranges and conditional
//! requests: which headers a file response carries, whether a request can be
//! answered with "not modified", and how a `Range` header is turned into
//! the part of the file that is sent.
use vstd::prelude::*;
use http_range_header::{EndPosition, ParsedRanges, StartPosition, SyntacticallyCorrectRange};
use crate::headers::{
    Header, headers_view, clone_headers, push_header, get_one, remove_named, first_value,
    without_name, eq_ignore_ascii_case,
};
use crate::paths::{extension, path_extension};
use crate::text::{
    chars_of, string_from, push_str, u64_to_string, dec, split, trim, trim_bounds,
    lemma_split_nonempty, str_eq,
};
use crate::time::{
    Timestamp, chrono_instant, rfc2822_instant, rfc2822_parse, chrono_difference, difference_nanos,
    rfc2822_text, parse_rfc2822, signed_difference, to_rfc2822,
};

verus! {

broadcast use vstd::string::group_string_axioms;

/// HTTP status of a reply sent without the file.
pub const STATUS_NOT_MODIFIED: u16 = 304;
pub const STATUS_RANGE_NOT_SATISFIABLE: u16 = 416;
pub const STATUS_INTERNAL_SERVER_ERROR: u16 = 500;

/// How much later than the client's copy (in nanoseconds) a file must have
/// been modified before the client's date counts: ten milliseconds.
pub const NOT_MODIFIED_TOLERANCE_NANOS: i128 = 10_000_000;

// ---------------------------------------------------------------------
// The Range header
// ---------------------------------------------------------------------

/// Where a requested range starts: at a byte index, or that many bytes
/// before the end of the file.
#[derive(Clone, Copy, Debug, PartialEq, Eq, Structural)]
pub enum RangeStart {
    Index(u64),
    FromLast(u64),
}

/// Where a requested range ends: at a byte index, or at the last byte.
#[derive(Clone, Copy, Debug, PartialEq, Eq, Structural)]
pub enum RangeEnd {
    Index(u64),
    LastByte,
}

/// One range of a `Range` header, as written, before the file size is known.
#[derive(Clone, Copy, Debug, PartialEq, Eq, Structural)]
pub struct RequestedRange {
    pub start: RangeStart,
    pub end: RangeEnd,
}

/// Why a `Range` header was refused.
#[verifier::external_type_specification]
#[verifier::external_body]
pub struct ExRangeUnsatisfiableError(http_range_header::RangeUnsatisfiableError);

/// The ranges a `Range` header value writes, when it is well formed
/// (`http_range_header::parse_range_header`).
pub uninterp spec fn range_header_syntax(header: Seq<char>) -> Option<Seq<RequestedRange>>;

/// Reads a `Range` header value with `http_range_header::parse_range_header`.
/// Claimed: the ranges are those `range_header_syntax` names, and there is
/// at least one (the crate returns an error for an empty list).
#[verifier::external_body]
fn parse_range_syntax(header: &str) -> (r: Result<Vec<RequestedRange>, http_range_header::RangeUnsatisfiableError>)
    ensures
        r matches Ok(v) ==> range_header_syntax(header@) == Some(v@) && v@.len() > 0,
        r is Err ==> range_header_syntax(header@) is None,
{
    http_range_header::parse_range_header(header).map(|p| p.ranges.iter().map(|r| RequestedRange {
        start: match r.start { StartPosition::Index(i) => RangeStart::Index(i), StartPosition::FromLast(i) => RangeStart::FromLast(i) },
        end: match r.end { EndPosition::Index(i) => RangeEnd::Index(i), EndPosition::LastByte => RangeEnd::LastByte },
    }).collect())
}

/// The last byte index of a file of `size` bytes, 0 for an empty file.
pub open spec fn last_byte(size: u64) -> u64 {
    if size == 0 {
        0
    } else {
        (size - 1) as u64
    }
}

/// First byte of `r` in a file of `size` bytes, if the range fits.
pub open spec fn resolved_start(r: RequestedRange, size: u64) -> Option<u64> {
    match r.start {
        RangeStart::Index(i) => Some(i),
        RangeStart::FromLast(n) => if n > size {
            None
        } else {
            Some((size - n) as u64)
        },
    }
}

/// Last byte of `r` in a file of `size` bytes, cut to the file's last byte.
pub open spec fn resolved_end(r: RequestedRange, size: u64) -> u64 {
    match r.end {
        RangeEnd::Index(i) => if i < last_byte(size) {
            i
        } else {
            last_byte(size)
        },
        RangeEnd::LastByte => last_byte(size),
    }
}

/// What `ParsedRanges::validate` gives for `ranges` in a file of `size`
/// bytes: each range as first and last byte, provided every suffix fits in
/// the file, no range is reversed and no two ranges overlap.
pub open spec fn validated_ranges(ranges: Seq<RequestedRange>, size: u64) -> Option<Seq<(u64, u64)>> {
    let resolved = Seq::new(
        ranges.len(),
        |i: int| (resolved_start(ranges[i], size).unwrap_or(0), resolved_end(ranges[i], size)),
    );
    if (forall|i: int| 0 <= i < ranges.len() ==> #[trigger] resolved_start(ranges[i], size) is Some)
        && (forall|i: int| 0 <= i < ranges.len() ==> #[trigger] resolved[i].0 <= resolved[i].1)
        && (forall|i: int, j: int|
        0 <= i < j < ranges.len() ==> !(#[trigger] resolved[i].0 <= #[trigger] resolved[j].1
            && resolved[j].0 <= resolved[i].1)) {
        Some(resolved)
    } else {
        None
    }
}

/// Checks parsed ranges against a file size with
/// `http_range_header::ParsedRanges::validate`. Claimed, from the crate's
/// source: the outcome is `validated_ranges` (suffixes that fit, ends cut to
/// the last byte, no reversed and no overlapping ranges).
#[verifier::external_body]
fn validate_ranges(ranges: &Vec<RequestedRange>, size: u64) -> (r: Result<Vec<(u64, u64)>, http_range_header::RangeUnsatisfiableError>)
    ensures
        r matches Ok(v) ==> validated_ranges(ranges@, size) == Some(v@),
        r is Err ==> validated_ranges(ranges@, size) is None,
{
    let parsed = ParsedRanges { ranges: ranges.iter().map(|r| SyntacticallyCorrectRange {
        start: match r.start { RangeStart::Index(i) => StartPosition::Index(i), RangeStart::FromLast(i) => StartPosition::FromLast(i) },
        end: match r.end { RangeEnd::Index(i) => EndPosition::Index(i), RangeEnd::LastByte => EndPosition::LastByte },
    }).collect() };
    parsed.validate(size).map(|v| v.iter().map(|x| (*x.start(), *x.end())).collect())
}

/// The first range a `Range` header asks for in a file of `size` bytes, if
/// the header is well formed and its ranges fit the file.
pub open spec fn first_satisfiable_range(header: Seq<char>, size: u64) -> Option<(u64, u64)> {
    match range_header_syntax(header) {
        Some(rs) => match validated_ranges(rs, size) {
            Some(v) => if v.len() > 0 {
                Some(v[0])
            } else {
                None
            },
            None => None,
        },
        None => None,
    }
}

// ---------------------------------------------------------------------
// Content types
// ---------------------------------------------------------------------

/// The `Content-Type` value Rocket associates with a file extension, if it
/// knows the extension (`ContentType::from_extension`, as a header value).
pub uninterp spec fn content_type_of(ext: Seq<char>) -> Option<Seq<char>>;

/// Looks an extension up with `rocket::http::ContentType::from_extension`
/// and renders the header value Rocket sends for it. Claimed: the answer is
/// `content_type_of(ext)`.
#[verifier::external_body]
fn content_type_for_extension(ext: &str) -> (r: Option<String>)
    ensures
        r matches Some(s) ==> content_type_of(ext@) == Some(s@),
        r is None ==> content_type_of(ext@) is None,
{
    match rocket::http::ContentType::from_extension(ext) {
        Some(c) => Some(rocket::http::Header::from(c).value().to_string()),
        None => None,
    }
}

// ---------------------------------------------------------------------
// Replies
// ---------------------------------------------------------------------

/// What a file's metadata tells about it: when it was last modified and
/// when it was created, where the file system records these.
#[derive(Clone, Copy, Debug)]
pub struct FileTimes {
    pub modified: Option<Timestamp>,
    pub created: Option<Timestamp>,
}

/// A reply sent without the file's content.
#[derive(Debug)]
pub struct HttpReply {
    pub status: u16,
    pub headers: Vec<Header>,
    pub body: Option<String>,
}

/// What to send for a request of a file whose size is known. Headers are
/// set in order, a later header replacing an earlier one of the same name.
#[derive(Debug)]
pub enum RangePlan {
    /// The whole file, as its own responder sends it, with these headers set.
    Full { headers: Vec<Header> },
    /// Status 206 with `length` bytes starting at `start`; if the file
    /// cannot be positioned at `start`, `on_seek_failure` instead.
    Partial { start: u64, length: u64, headers: Vec<Header>, on_seek_failure: HttpReply },
    /// A reply without file content.
    Reply(HttpReply),
}

/// The `Content-Range` value of an unsatisfiable request for a file of `size` bytes.
pub open spec fn unsatisfied_content_range(size: u64) -> Seq<char> {
    "bytes */"@ + dec(size as nat)
}

/// The `Content-Range` value for bytes `start` to `end` of a file of `size` bytes.
pub open spec fn content_range(start: u64, end: u64, size: u64) -> Seq<char> {
    "bytes "@ + dec(start as nat) + "-"@ + dec(end as nat) + "/"@ + dec(size as nat)
}

/// The reply refusing a range of a file of `size` bytes, carrying `headers`
/// and then the `content-range` header that names the size.
pub open spec fn spec_reject(size: u64, headers: Seq<(Seq<char>, Seq<char>)>) -> (u16, Seq<(Seq<char>, Seq<char>)>, Option<Seq<char>>) {
    (STATUS_RANGE_NOT_SATISFIABLE, headers.push(("content-range"@, unsatisfied_content_range(size))), None)
}

/// The status, header texts and body text of a reply.
pub open spec fn reply_view(r: HttpReply) -> (u16, Seq<(Seq<char>, Seq<char>)>, Option<Seq<char>>) {
    (r.status, headers_view(r.headers@), match r.body {
        Some(b) => Some(b@),
        None => None,
    })
}

fn unsatisfied_range_value(size: u64) -> (s: String)
    ensures
        s@ == unsatisfied_content_range(size),
{
    let mut s = string_from("bytes */");
    let d = u64_to_string(size);
    push_str(&mut s, d.as_str());
    s
}

fn content_range_value(start: u64, end: u64, size: u64) -> (s: String)
    ensures
        s@ == content_range(start, end, size),
{
    let mut s = string_from("bytes ");
    let a = u64_to_string(start);
    push_str(&mut s, a.as_str());
    push_str(&mut s, "-");
    let b = u64_to_string(end);
    push_str(&mut s, b.as_str());
    push_str(&mut s, "/");
    let c = u64_to_string(size);
    push_str(&mut s, c.as_str());
    s
}

// ---------------------------------------------------------------------
// If-None-Match
// ---------------------------------------------------------------------

/// `etag` is one of the comma-separated, whitespace-trimmed entries of an
/// `If-None-Match` value.
pub open spec fn etag_listed(list: Seq<char>, etag: Seq<char>) -> bool {
    exists|k: int| 0 <= k < split(list, ',').len() && trim(#[trigger] split(list, ',')[k]) == etag
}

/// Whether `etag` is listed in the `If-None-Match` value `list`.
pub fn etag_matches(list: &str, etag: &str) -> (r: bool)
    ensures
        r == etag_listed(list@, etag@),
{
    let v = chars_of(list);
    let e = chars_of(etag);
    let ghost s = v@;
    let mut seg: usize = 0;
    let mut i: usize = 0;
    let ghost mut pieces: Seq<Seq<char>> = seq![Seq::<char>::empty()];
    assert(s.take(0) =~= Seq::<char>::empty());
    while i < v.len()
        invariant
            s == v@,
            s == list@,
            e@ == etag@,
            0 <= seg <= i <= s.len(),
            pieces == split(s.take(i as int), ','),
            pieces.len() >= 1,
            pieces.last() == s.subrange(seg as int, i as int),
            forall|k: int| 0 <= k < pieces.len() - 1 ==> trim(#[trigger] pieces[k]) != etag@,
        decreases s.len() - i,
    {
        assert(s.take(i + 1).drop_last() =~= s.take(i as int));
        assert(s.take(i + 1).last() == s[i as int]);
        if v[i] == ',' {
            let (a, b) = trim_bounds(&v, seg, i);
            let found = seq_range_eq(&v, a, b, &e);
            if found {
                assert(split(s, ',').len() >= pieces.len()) by {
                    lemma_split_prefix(s, i as int);
                }
                assert(split(s, ',')[pieces.len() - 1] == pieces.last()) by {
                    lemma_split_prefix(s, i as int);
                }
                assert(trim(split(s, ',')[pieces.len() - 1]) == etag@);
                return true;
            }
            proof {
                pieces = pieces.push(Seq::<char>::empty());
            }
            seg = i + 1;
        } else {
            proof {
                pieces = pieces.update(pieces.len() - 1, pieces.last().push(s[i as int]));
            }
            assert(pieces.last() =~= s.subrange(seg as int, i + 1));
        }
        i = i + 1;
    }
    assert(s.take(s.len() as int) =~= s);
    let (a, b) = trim_bounds(&v, seg, v.len());
    let found = seq_range_eq(&v, a, b, &e);
    if found {
        assert(trim(split(s, ',')[pieces.len() - 1]) == etag@);
        true
    } else {
        assert(forall|k: int| 0 <= k < split(s, ',').len() ==> trim(#[trigger] split(s, ',')[k]) != etag@);
        false
    }
}

/// The first pieces of the split of `s` are those of the split of a prefix,
/// except that the last of them may grow.
proof fn lemma_split_prefix(s: Seq<char>, i: int)
    requires
        0 <= i <= s.len(),
    ensures
        split(s, ',').len() >= split(s.take(i), ',').len(),
        split(s.take(i), ',').len() >= 1,
        forall|k: int| 0 <= k < split(s.take(i), ',').len() - 1 ==> #[trigger] split(s, ',')[k] == split(s.take(i), ',')[k],
        i < s.len() && s[i] == ',' ==> split(s, ',')[split(s.take(i), ',').len() - 1] == split(s.take(i), ',').last(),
    decreases s.len() - i,
{
    lemma_split_nonempty(s.take(i), ',');
    if i < s.len() {
        lemma_split_prefix(s, i + 1);
        assert(s.take(i + 1).drop_last() =~= s.take(i));
        lemma_split_nonempty(s.take(i + 1), ',');
        let p = split(s.take(i), ',');
        let q = split(s.take(i + 1), ',');
        if s[i] == ',' {
            assert(q == p.push(Seq::<char>::empty()));
            assert(q[p.len() - 1] == p.last());
        } else {
            assert(q == p.update(p.len() - 1, p.last().push(s[i])));
        }
    } else {
        assert(s.take(i) =~= s);
    }
}

/// Whether `v[lo..hi]` holds exactly the characters of `e`.
fn seq_range_eq(v: &Vec<char>, lo: usize, hi: usize, e: &Vec<char>) -> (r: bool)
    requires
        lo <= hi <= v@.len(),
    ensures
        r == (v@.subrange(lo as int, hi as int) == e@),
{
    if hi - lo != e.len() {
        return false;
    }
    let mut i: usize = 0;
    while i < e.len()
        invariant
            hi - lo == e@.len(),
            lo <= hi <= v@.len(),
            0 <= i <= e@.len(),
            forall|j: int| 0 <= j < i ==> v@[lo + j] == e@[j],
        decreases e@.len() - i,
    {
        if v[lo + i] != e[i] {
            assert(v@.subrange(lo as int, hi as int)[i as int] != e@[i as int]);
            return false;
        }
        i = i + 1;
    }
    assert(v@.subrange(lo as int, hi as int) =~= e@);
    true
}

// ---------------------------------------------------------------------
// The responder
// ---------------------------------------------------------------------

/// The text of an optional string argument.
pub open spec fn opt_view(o: Option<&str>) -> Option<Seq<char>> {
    match o {
        Some(s) => Some(s@),
        None => None,
    }
}

/// A file to be sent, with what is known of it: its path, its metadata and
/// headers the caller wants on the reply.
pub struct RangeResponder<R> {
    original: R,
    path: Option<String>,
    metadata: Option<FileTimes>,
    additional_headers: Vec<Header>,
}

impl<R> RangeResponder<R> {
    /// The file to be sent.
    pub closed spec fn spec_original(self) -> R {
        self.original
    }

    /// The path the file was opened from, if known.
    pub closed spec fn spec_path(self) -> Option<Seq<char>> {
        match self.path {
            Some(p) => Some(p@),
            None => None,
        }
    }

    /// The file's metadata, if known.
    pub closed spec fn spec_metadata(self) -> Option<FileTimes> {
        self.metadata
    }

    /// The headers added with `add_header`, in order.
    pub closed spec fn spec_added(self) -> Seq<(Seq<char>, Seq<char>)> {
        headers_view(self.additional_headers@)
    }

    /// The metadata's times are ones RFC 2822 can write.
    pub open spec fn times_printable(self) -> bool {
        self.spec_metadata() matches Some(m) ==> {
            &&& (m.modified matches Some(t) ==> rfc2822_instant(t))
            &&& (m.created matches Some(t) ==> rfc2822_instant(t))
        }
    }

    /// The modification time is one `chrono` can compare.
    pub open spec fn times_comparable(self) -> bool {
        self.spec_metadata() matches Some(m) ==> (m.modified matches Some(t) ==> chrono_instant(t))
    }

    /// The headers every reply about this file carries: the added ones, then
    /// the content type known for the path's extension and the path itself,
    /// then the modification and creation times.
    pub open spec fn spec_additional_headers(self) -> Seq<(Seq<char>, Seq<char>)> {
        let base = self.spec_added();
        let with_path = match self.spec_path() {
            Some(p) => {
                let typed = match extension(p) {
                    Some(e) => match content_type_of(e) {
                        Some(ct) => base.push(("Content-Type"@, ct)),
                        None => base,
                    },
                    None => base,
                };
                typed.push(("X-File-Path"@, p))
            },
            None => base,
        };
        match self.spec_metadata() {
            Some(m) => {
                let with_modified = match m.modified {
                    Some(t) => with_path.push(("last-modified"@, rfc2822_text(t))),
                    None => with_path,
                };
                match m.created {
                    Some(t) => with_modified.push(("X-Created-At"@, rfc2822_text(t))),
                    None => with_modified,
                }
            },
            None => with_path,
        }
    }

    /// A request with these conditional headers can be answered "not
    /// modified": the file's modification time lies more than ten
    /// milliseconds after the `If-Modified-Since` date, or an `etag` header
    /// was added and `If-None-Match` is `*` or lists it.
    pub open spec fn spec_not_modified(
        self,
        if_modified_since: Option<Seq<char>>,
        if_none_match: Option<Seq<char>>,
    ) -> bool {
        let by_time = match (self.spec_metadata(), if_modified_since) {
            (Some(m), Some(s)) => match (rfc2822_parse(s), m.modified) {
                (Some(req), Some(file)) => difference_nanos(chrono_difference(file, req))
                    > NOT_MODIFIED_TOLERANCE_NANOS,
                _ => false,
            },
            _ => false,
        };
        let by_etag = match (first_value(self.spec_added(), "etag"@), if_none_match) {
            (Some(etag), Some(list)) => list == "*"@ || etag_listed(list, etag),
            _ => false,
        };
        by_time || by_etag
    }

    /// The headers of a partial reply for bytes `start` to `end` of a file of
    /// `size` bytes: its length and range, then the file's headers other
    /// than a `content-length`.
    pub open spec fn spec_partial_headers(self, start: u64, end: u64, size: u64) -> Seq<(Seq<char>, Seq<char>)> {
        seq![
            ("content-length"@, dec((end - start + 1) as nat)),
            ("content-range"@, content_range(start, end, size)),
        ] + without_name(self.spec_additional_headers(), "content-length"@)
    }

    pub fn new(original: R) -> (r: Self)
        ensures
            r.spec_original() == original,
            r.spec_path() is None,
            r.spec_metadata() is None,
            r.spec_added() == Seq::<(Seq<char>, Seq<char>)>::empty(),
    {
        let r = RangeResponder { original, path: None, metadata: None, additional_headers: Vec::new() };
        assert(r.spec_added() =~= Seq::<(Seq<char>, Seq<char>)>::empty());
        r
    }

    pub fn with_path(self, path: &str) -> (r: Self)
        ensures
            r.spec_path() == Some(path@),
            r.spec_original() == self.spec_original(),
            r.spec_metadata() == self.spec_metadata(),
            r.spec_added() == self.spec_added(),
    {
        let mut s = self;
        s.path = Some(string_from(path));
        s
    }

    pub fn with_metadata(self, metadata: FileTimes) -> (r: Self)
        ensures
            r.spec_metadata() == Some(metadata),
            r.spec_original() == self.spec_original(),
            r.spec_path() == self.spec_path(),
            r.spec_added() == self.spec_added(),
    {
        let mut s = self;
        s.metadata = Some(metadata);
        s
    }

    /// Adds a header to every reply about this file.
    pub fn add_header(&mut self, header: Header) -> (r: &mut Self)
        ensures
            r.spec_added() == old(self).spec_added().push(header@),
            r.spec_original() == old(self).spec_original(),
            r.spec_path() == old(self).spec_path(),
            r.spec_metadata() == old(self).spec_metadata(),
            *final(self) == *final(r),
    {
        push_header(&mut self.additional_headers, header);
        self
    }

    /// The file, to be sent or positioned.
    pub fn into_original(self) -> (r: R)
        ensures
            r == self.spec_original(),
    {
        self.original
    }

    /// The file, to read its metadata.
    pub fn original(&self) -> (r: &R)
        ensures
            *r == self.spec_original(),
    {
        &self.original
    }

    /// The headers every reply about this file carries.
    pub fn additional_headers(&self, file_length: u64) -> (r: Vec<Header>)
        requires
            self.times_printable(),
        ensures
            headers_view(r@) == self.spec_additional_headers(),
    {
        let mut res = clone_headers(&self.additional_headers);
        match &self.path {
            Some(path) => {
                let ext = path_extension(path.as_str());
                let ct = match ext {
                    Some(e) => content_type_for_extension(e.as_str()),
                    None => None,
                };
                match ct {
                    Some(ct) => push_header(&mut res, Header::new("Content-Type", ct)),
                    None => {},
                }
                push_header(&mut res, Header::new("X-File-Path", path.clone()));
            },
            None => {},
        }
        match &self.metadata {
            Some(m) => {
                match m.modified {
                    Some(t) => push_header(&mut res, Header::new("last-modified", to_rfc2822(t))),
                    None => {},
                }
                match m.created {
                    Some(t) => push_header(&mut res, Header::new("X-Created-At", to_rfc2822(t))),
                    None => {},
                }
            },
            None => {},
        }
        res
    }

    /// Answers "not modified" (`Err(304)`) where the conditional headers of
    /// the request allow it.
    pub fn respond_to_cache_headers(&self, if_modified_since: Option<&str>, if_none_match: Option<&str>) -> (r: Result<(), u16>)
        requires
            self.times_comparable(),
        ensures
            r is Err <==> self.spec_not_modified(opt_view(if_modified_since), opt_view(if_none_match)),
            r matches Err(code) ==> code == STATUS_NOT_MODIFIED,
    {
        match &self.metadata {
            Some(m) => match if_modified_since {
                Some(ims) => match parse_rfc2822(ims) {
                    Some(req) => match m.modified {
                        Some(file) => {
                            let d = signed_difference(file, req);
                            let nanos: i128 = (d.0 as i128) * 1_000_000_000 + (d.1 as i128);
                            if nanos > NOT_MODIFIED_TOLERANCE_NANOS {
                                return Err(STATUS_NOT_MODIFIED);
                            }
                        },
                        None => {},
                    },
                    None => {},
                },
                None => {},
            },
            None => {},
        }
        match get_one(&self.additional_headers, "etag") {
            Some(etag) => match if_none_match {
                Some(list) => {
                    if str_eq(list, "*") {
                        return Err(STATUS_NOT_MODIFIED);
                    }
                    if etag_matches(list, etag.as_str()) {
                        return Err(STATUS_NOT_MODIFIED);
                    }
                },
                None => {},
            },
            None => {},
        }
        Ok(())
    }

    /// The reply refusing a range, with the file's headers.
    pub fn reject_range(&self, file_length: u64) -> (r: HttpReply)
        requires
            self.times_printable(),
        ensures
            reply_view(r) == spec_reject(file_length, self.spec_additional_headers()),
    {
        let headers = self.additional_headers(file_length);
        Self::reject_range_ext(file_length, headers)
    }

    /// The reply refusing a range of a file of `file_length` bytes, with the
    /// given headers and a `content-range` naming the size.
    pub fn reject_range_ext(file_length: u64, headers: Vec<Header>) -> (r: HttpReply)
        ensures
            reply_view(r) == spec_reject(file_length, headers_view(headers@)),
    {
        let mut headers = headers;
        push_header(&mut headers, Header::new("content-range", unsatisfied_range_value(file_length)));
        HttpReply { status: STATUS_RANGE_NOT_SATISFIABLE, headers, body: None }
    }

    /// The first range of a `Range` header that fits a file of
    /// `file_length` bytes, or the reply refusing it.
    pub fn parse_range_header(&self, range_header: &str, file_length: u64) -> (r: Result<(u64, u64), HttpReply>)
        requires
            self.times_printable(),
        ensures
            r matches Ok(x) ==> first_satisfiable_range(range_header@, file_length) == Some(x),
            r matches Err(reply) ==> first_satisfiable_range(range_header@, file_length) is None
                && reply_view(reply) == spec_reject(file_length, self.spec_additional_headers()),
    {
        let parsed = match parse_range_syntax(range_header) {
            Ok(x) => x,
            Err(_) => {
                return Err(self.reject_range(file_length));
            },
        };
        let valid = match validate_ranges(&parsed, file_length) {
            Ok(x) => x,
            Err(_) => {
                return Err(self.reject_range(file_length));
            },
        };
        if valid.len() == 0 {
            proof {
                assert(false);
            }
            let mut headers: Vec<Header> = Vec::new();
            return Err(
                HttpReply {
                    status: STATUS_INTERNAL_SERVER_ERROR,
                    headers,
                    body: Some(string_from("Something went wrong while parsing the range header")),
                },
            );
        }
        Ok(valid[0])
    }

    /// What to send for a request with this `Range` header, once the file is
    /// known to be `file_length` bytes long.
    pub fn plan_response(&self, range_header: Option<&str>, file_length: u64) -> (r: RangePlan)
        requires
            self.times_printable(),
        ensures
            range_header is None ==> (r matches RangePlan::Full { headers } && headers_view(headers@)
                == self.spec_additional_headers()),
            range_header matches Some(h) ==> (first_satisfiable_range(h@, file_length) is None ==> (
            r matches RangePlan::Reply(reply) && reply_view(reply) == spec_reject(
                file_length,
                self.spec_additional_headers(),
            ))),
            range_header matches Some(h) ==> (first_satisfiable_range(h@, file_length) matches Some(
                (s, e),
            ) ==> (r matches RangePlan::Partial { start, length, headers, on_seek_failure } && start
                == s && length == e - s + 1 && headers_view(headers@) == self.spec_partial_headers(
                s,
                e,
                file_length,
            ) && reply_view(on_seek_failure) == spec_reject(
                file_length,
                self.spec_additional_headers(),
            ))),
    {
        let additional = self.additional_headers(file_length);
        let h = match range_header {
            None => {
                return RangePlan::Full { headers: additional };
            },
            Some(h) => h,
        };
        let (start, end) = match self.parse_range_header(h, file_length) {
            Ok(x) => x,
            Err(reply) => {
                return RangePlan::Reply(reply);
            },
        };
        proof {
            lemma_first_range_fits(h@, file_length);
        }
        let length = end - start + 1;
        let mut headers: Vec<Header> = Vec::new();
        push_header(&mut headers, Header::new("content-length", u64_to_string(length)));
        push_header(&mut headers, Header::new("content-range", content_range_value(start, end, file_length)));
        let rest = remove_named(&additional, "content-length");
        let ghost front = headers_view(headers@);
        let mut i: usize = 0;
        while i < rest.len()
            invariant
                0 <= i <= rest@.len(),
                headers_view(headers@) == front + headers_view(rest@).take(i as int),
            decreases rest@.len() - i,
        {
            let c = rest[i].clone_header();
            push_header(&mut headers, c);
            assert(headers_view(rest@).take(i + 1) =~= headers_view(rest@).take(i as int).push(rest@[i as int]@));
            i = i + 1;
        }
        assert(headers_view(rest@).take(rest@.len() as int) =~= headers_view(rest@));
        assert(front =~= seq![
            ("content-length"@, dec((end - start + 1) as nat)),
            ("content-range"@, content_range(start, end, file_length)),
        ]);
        let on_seek_failure = Self::reject_range_ext(file_length, additional);
        RangePlan::Partial { start, length, headers, on_seek_failure }
    }
}

/// The range a satisfiable `Range` header selects lies inside the file: it
/// starts no later than it ends, and it ends at or before the last byte.
pub proof fn lemma_first_range_fits(header: Seq<char>, size: u64)
    ensures
        first_satisfiable_range(header, size) matches Some((s, e)) ==> s <= e && e <= last_byte(size)
            && (size > 0 ==> e < size),
{
    if let Some(rs) = range_header_syntax(header) {
        if let Some(v) = validated_ranges(rs, size) {
            if v.len() > 0 {
                assert(v[0].0 <= v[0].1);
            }
        }
    }
}

/// The headers describing a file follow the headers added by hand, which
/// they leave as they were; each of them tells one fact of this file, and
/// each fact known is told: `X-File-Path` the path, `Content-Type` the
/// type its extension names, `last-modified` the modification time and
/// `X-Created-At` the creation time, each written as RFC 2822 text, the
/// creation time last.
pub proof fn lemma_file_headers_describe_the_file<R>(r: RangeResponder<R>)
    ensures
        ({
            let hs = r.spec_additional_headers();
            let n = r.spec_added().len() as int;
            &&& n <= hs.len()
            &&& hs.take(n) == r.spec_added()
            &&& forall|i: int|
                n <= i < hs.len() ==> (#[trigger] hs[i]).0 == "X-Created-At"@ ==> (r.spec_metadata() matches Some(m)
                    && m.created matches Some(t) && hs[i].1 == rfc2822_text(t))
            &&& forall|i: int|
                n <= i < hs.len() ==> (#[trigger] hs[i]).0 == "last-modified"@ ==> (r.spec_metadata() matches Some(m)
                    && m.modified matches Some(t) && hs[i].1 == rfc2822_text(t))
            &&& forall|i: int|
                n <= i < hs.len() ==> (#[trigger] hs[i]).0 == "X-File-Path"@ ==> r.spec_path() == Some(hs[i].1)
            &&& forall|i: int|
                n <= i < hs.len() ==> (#[trigger] hs[i]).0 == "Content-Type"@ ==> (r.spec_path() matches Some(p)
                    && extension(p) matches Some(e) && content_type_of(e) == Some(hs[i].1))
            &&& forall|i: int|
                n <= i < hs.len() ==> (#[trigger] hs[i]).0 == "X-Created-At"@ || hs[i].0 == "last-modified"@
                    || hs[i].0 == "X-File-Path"@ || hs[i].0 == "Content-Type"@
            &&& (r.spec_metadata() matches Some(m) ==> (m.created matches Some(t) ==> hs.last() == (
                "X-Created-At"@,
                rfc2822_text(t),
            )))
            &&& (r.spec_metadata() matches Some(m) ==> (m.modified matches Some(t) ==> hs.contains(
                ("last-modified"@, rfc2822_text(t)),
            )))
            &&& (r.spec_path() matches Some(p) ==> hs.contains(("X-File-Path"@, p)))
        }),
{
    reveal_strlit("X-Created-At");
    reveal_strlit("last-modified");
    reveal_strlit("X-File-Path");
    reveal_strlit("Content-Type");
    assert("X-Created-At"@ != "last-modified"@ && "X-Created-At"@ != "X-File-Path"@) by {
        assert("X-Created-At"@.len() != "last-modified"@.len());
        assert("X-Created-At"@.len() != "X-File-Path"@.len());
    }
    assert("X-Created-At"@ != "Content-Type"@) by {
        assert("X-Created-At"@[0] != "Content-Type"@[0]);
    }
    assert("last-modified"@ != "X-File-Path"@ && "last-modified"@ != "Content-Type"@) by {
        assert("last-modified"@.len() != "X-File-Path"@.len());
        assert("last-modified"@.len() != "Content-Type"@.len());
    }
    assert("X-File-Path"@ != "Content-Type"@) by {
        assert("X-File-Path"@.len() != "Content-Type"@.len());
    }
    let base = r.spec_added();
    let n = base.len() as int;
    let with_path = match r.spec_path() {
        Some(p) => {
            let typed = match extension(p) {
                Some(e) => match content_type_of(e) {
                    Some(ct) => base.push(("Content-Type"@, ct)),
                    None => base,
                },
                None => base,
            };
            typed.push(("X-File-Path"@, p))
        },
        None => base,
    };
    let hs = r.spec_additional_headers();
    let tp: Seq<(Seq<char>, Seq<char>)> = match r.spec_path() {
        Some(p) => {
            let typed: Seq<(Seq<char>, Seq<char>)> = match extension(p) {
                Some(e) => match content_type_of(e) {
                    Some(ct) => seq![("Content-Type"@, ct)],
                    None => Seq::empty(),
                },
                None => Seq::empty(),
            };
            typed.push(("X-File-Path"@, p))
        },
        None => Seq::empty(),
    };
    let tm: Seq<(Seq<char>, Seq<char>)> = match r.spec_metadata() {
        Some(m) => {
            let a: Seq<(Seq<char>, Seq<char>)> = match m.modified {
                Some(t) => seq![("last-modified"@, rfc2822_text(t))],
                None => Seq::empty(),
            };
            match m.created {
                Some(t) => a.push(("X-Created-At"@, rfc2822_text(t))),
                None => a,
            }
        },
        None => Seq::empty(),
    };
    assert(with_path =~= base + tp);
    assert(hs =~= base + tp + tm);
    let tail = tp + tm;
    assert(hs =~= base + tail);
    assert(hs.take(n) =~= base);
    assert forall|i: int| n <= i < hs.len() implies {
        &&& (hs[i].0 == "X-Created-At"@ ==> (r.spec_metadata() matches Some(m) && m.created matches Some(
            t,
        ) && hs[i].1 == rfc2822_text(t)))
        &&& (hs[i].0 == "last-modified"@ ==> (r.spec_metadata() matches Some(m) && m.modified matches Some(
            t,
        ) && hs[i].1 == rfc2822_text(t)))
        &&& (hs[i].0 == "X-File-Path"@ ==> r.spec_path() == Some(hs[i].1))
        &&& (hs[i].0 == "Content-Type"@ ==> (r.spec_path() matches Some(p) && extension(p) matches Some(e)
            && content_type_of(e) == Some(hs[i].1)))
        &&& (hs[i].0 == "X-Created-At"@ || hs[i].0 == "last-modified"@ || hs[i].0 == "X-File-Path"@
            || hs[i].0 == "Content-Type"@)
    } by {
        let j = i - n;
        assert(hs[i] == tail[j]);
        if j < tp.len() {
            assert(tail[j] == tp[j]);
            let p = r.spec_path()->0;
            if j == tp.len() - 1 {
                assert(tp[j] == ("X-File-Path"@, p));
            } else {
                assert(tp[j] == ("Content-Type"@, content_type_of(extension(p)->0)->0));
            }
        } else {
            let k = j - tp.len();
            assert(tail[j] == tm[k]);
            let m = r.spec_metadata()->0;
            if m.modified is Some && k == 0 {
                assert(tm[k] == ("last-modified"@, rfc2822_text(m.modified->0)));
            } else {
                assert(tm[k] == ("X-Created-At"@, rfc2822_text(m.created->0)));
            }
        }
    }
    if let Some(p) = r.spec_path() {
        assert(hs[n + tp.len() - 1] == ("X-File-Path"@, p));
        assert(hs.contains(("X-File-Path"@, p)));
    }
    if let Some(m) = r.spec_metadata() {
        if let Some(t) = m.modified {
            assert(hs[n + tp.len()] == ("last-modified"@, rfc2822_text(t)));
            assert(hs.contains(("last-modified"@, rfc2822_text(t))));
        }
    }
}

} // verus!
