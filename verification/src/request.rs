//! Per-request bookkeeping: the request id every request is tagged with,
//! and the headers the request log records.
use vstd::prelude::*;
use crate::headers::{Header, headers_view, push_header};
use crate::text::{chars_of, seq_eq, starts_with, starts_with_at, string_from};

verus! {

broadcast use vstd::string::group_string_axioms;

/// Name of the header carrying the request id.
pub open spec fn request_id_header_name() -> Seq<char> {
    "x-request-id"@
}

/// `c` is a character of Crockford's base 32 alphabet, as ULIDs are written.
pub open spec fn crockford_char(c: char) -> bool {
    ('0' <= c && c <= '9') || ('A' <= c && c <= 'Z' && c != 'I' && c != 'L' && c != 'O' && c != 'U')
}

/// Makes a fresh ULID with `ulid::Ulid::new` and writes it out. Claimed,
/// from the crate's encoder: 26 characters of Crockford's base 32 alphabet.
/// The value itself depends on the clock and on chance, so nothing else is
/// said of it.
#[verifier::external_body]
pub(crate) fn new_ulid() -> (s: String)
    ensures
        s@.len() == 26,
        forall|i: int| 0 <= i < 26 ==> crockford_char(#[trigger] s@[i]),
{
    ulid::Ulid::new().to_string()
}

/// Tags each request with a fresh id.
#[derive(Clone, Copy, Debug)]
pub struct AddRequestId;

impl AddRequestId {
    /// The header that tags a request: `x-request-id` with a fresh ULID.
    pub fn request_id_header(&self) -> (h: Header)
        ensures
            h@.0 == request_id_header_name(),
            h@.1.len() == 26,
            forall|i: int| 0 <= i < 26 ==> crockford_char(#[trigger] h@.1[i]),
    {
        Header::new("x-request-id", new_ulid())
    }
}

/// A span of the `tracing` crate.
#[verifier::external_type_specification]
#[verifier::external_body]
pub struct ExSpan(tracing::Span);

/// Logs each request and its response within one span.
pub struct RequestLogger {
    span: tracing::Span,
}

impl RequestLogger {
    pub closed spec fn spec_span(self) -> tracing::Span {
        self.span
    }

    pub fn new(span: tracing::Span) -> (r: Self)
        ensures
            r.spec_span() == span,
    {
        RequestLogger { span }
    }

    /// The span the logger records in.
    pub fn span(&self) -> (r: &tracing::Span)
        ensures
            *r == self.spec_span(),
    {
        &self.span
    }
}

/// A header goes into the request log unless it is the request id or a
/// `sec-` fetch metadata header.
pub open spec fn logged(h: (Seq<char>, Seq<char>)) -> bool {
    h.0 != request_id_header_name() && !starts_with(h.0, "sec-"@)
}

/// The request log's header map: each logged header name with the value of
/// its last occurrence.
pub open spec fn logged_map(hs: Seq<(Seq<char>, Seq<char>)>) -> Map<Seq<char>, Seq<char>>
    decreases hs.len(),
{
    if hs.len() == 0 {
        Map::empty()
    } else {
        let m = logged_map(hs.drop_last());
        if logged(hs.last()) {
            m.insert(hs.last().0, hs.last().1)
        } else {
            m
        }
    }
}

/// The map of a list of name/value pairs, later pairs overriding earlier ones.
pub open spec fn pairs_map(hs: Seq<(Seq<char>, Seq<char>)>) -> Map<Seq<char>, Seq<char>>
    decreases hs.len(),
{
    if hs.len() == 0 {
        Map::empty()
    } else {
        pairs_map(hs.drop_last()).insert(hs.last().0, hs.last().1)
    }
}

/// No two pairs have the same name.
pub open spec fn distinct_names(hs: Seq<(Seq<char>, Seq<char>)>) -> bool {
    forall|i: int, j: int| 0 <= i < j < hs.len() ==> #[trigger] hs[i].0 != #[trigger] hs[j].0
}

proof fn lemma_pairs_map_update(hs: Seq<(Seq<char>, Seq<char>)>, j: int, x: (Seq<char>, Seq<char>))
    requires
        distinct_names(hs),
        0 <= j < hs.len(),
        hs[j].0 == x.0,
    ensures
        pairs_map(hs.update(j, x)) == pairs_map(hs).insert(x.0, x.1),
        distinct_names(hs.update(j, x)),
    decreases hs.len(),
{
    let u = hs.update(j, x);
    if j == hs.len() - 1 {
        assert(u.drop_last() =~= hs.drop_last());
        assert(pairs_map(hs).insert(x.0, x.1) =~= pairs_map(hs.drop_last()).insert(x.0, x.1));
    } else {
        let d = hs.drop_last();
        assert(distinct_names(d));
        lemma_pairs_map_update(d, j, x);
        assert(u.drop_last() =~= d.update(j, x));
        assert(hs.last().0 != x.0) by {
            assert(hs[j].0 != hs[hs.len() - 1].0);
        }
        assert(pairs_map(u) =~= pairs_map(hs).insert(x.0, x.1));
    }
    assert forall|a: int, b: int| 0 <= a < b < u.len() implies #[trigger] u[a].0 != #[trigger] u[b].0 by {
        assert(hs[a].0 != hs[b].0);
    }
}

proof fn lemma_pairs_map_absent(hs: Seq<(Seq<char>, Seq<char>)>, k: Seq<char>)
    requires
        forall|i: int| 0 <= i < hs.len() ==> hs[i].0 != k,
    ensures
        !pairs_map(hs).contains_key(k),
    decreases hs.len(),
{
    if hs.len() > 0 {
        lemma_pairs_map_absent(hs.drop_last(), k);
    }
}

/// The headers the request log records, each name once, with the value it
/// last had.
pub fn logged_headers(headers: &Vec<Header>) -> (r: Vec<Header>)
    ensures
        distinct_names(headers_view(r@)),
        pairs_map(headers_view(r@)) == logged_map(headers_view(headers@)),
{
    let id = chars_of("x-request-id");
    let sec = chars_of("sec-");
    let mut r: Vec<Header> = Vec::new();
    let mut i: usize = 0;
    assert(headers_view(r@) =~= Seq::<(Seq<char>, Seq<char>)>::empty());
    while i < headers.len()
        invariant
            0 <= i <= headers@.len(),
            id@ == request_id_header_name(),
            sec@ == "sec-"@,
            distinct_names(headers_view(r@)),
            pairs_map(headers_view(r@)) == logged_map(headers_view(headers@.take(i as int))),
        decreases headers@.len() - i,
    {
        let ghost prefix = headers_view(headers@.take(i + 1));
        assert(prefix.drop_last() =~= headers_view(headers@.take(i as int)));
        assert(prefix.last() == headers@[i as int]@);
        let name = chars_of(headers[i].name.as_str());
        let is_id = seq_eq(&name, &id);
        assert(name@.subrange(0, name@.len() as int) =~= name@);
        let is_sec = starts_with_at(&name, 0, &sec);
        assert(is_sec == starts_with(name@, "sec-"@));
        assert(logged(prefix.last()) == (!is_id && !is_sec));
        assert(logged_map(prefix) == if logged(prefix.last()) {
            logged_map(prefix.drop_last()).insert(prefix.last().0, prefix.last().1)
        } else {
            logged_map(prefix.drop_last())
        });
        if !is_id && !is_sec {
            let h = headers[i].clone_header();
            let ghost rv = headers_view(r@);
            let mut j: usize = 0;
            let mut found = false;
            while j < r.len() && !found
                invariant
                    0 <= j <= r@.len(),
                    rv == headers_view(r@),
                    name@ == h@.0,
                    found ==> j < r@.len() && rv[j as int].0 == h@.0,
                    forall|k: int| 0 <= k < j ==> rv[k].0 != h@.0,
                decreases r@.len() - j + (if found { 0int } else { 1int }),
            {
                let other = chars_of(r[j].name.as_str());
                if seq_eq(&other, &name) {
                    found = true;
                } else {
                    j = j + 1;
                }
            }
            if found {
                proof {
                    lemma_pairs_map_update(rv, j as int, h@);
                }
                r.set(j, h);
                assert(headers_view(r@) =~= rv.update(j as int, h@));
            } else {
                proof {
                    lemma_pairs_map_absent(rv, h@.0);
                }
                push_header(&mut r, h);
                assert(headers_view(r@).drop_last() =~= rv);
                assert(pairs_map(headers_view(r@)) == pairs_map(rv).insert(h@.0, h@.1));
                assert forall|a: int, b: int| 0 <= a < b < headers_view(r@).len() implies #[trigger] headers_view(r@)[a].0
                    != #[trigger] headers_view(r@)[b].0 by {
                    if b == rv.len() {
                        assert(rv[a].0 != h@.0);
                    } else {
                        assert(rv[a].0 != rv[b].0);
                    }
                }
            }
        }
        i = i + 1;
    }
    assert(headers@.take(headers@.len() as int) =~= headers@);
    r
}

/// The request log never records the request id header or a `sec-` header.
pub proof fn lemma_logged_names(hs: Seq<(Seq<char>, Seq<char>)>, k: Seq<char>)
    requires
        logged_map(hs).contains_key(k),
    ensures
        k != request_id_header_name(),
        !starts_with(k, "sec-"@),
    decreases hs.len(),
{
    if hs.len() > 0 {
        let m = logged_map(hs.drop_last());
        if logged(hs.last()) && hs.last().0 == k {
        } else {
            lemma_logged_names(hs.drop_last(), k);
        }
    }
}

} // verus!
