//! Routing helpers: mounting route lists under a base path, reading the
//! thumbnail size segment of a URL, and the caching headers of served files.
use vstd::prelude::*;
use crate::headers::{Header, headers_view, push_header};
use crate::text::{
    chars_of, find_char, lemma_find_char, find_char_at, parse_u32, parse_u32_spec, dec,
    lemma_parse_u32_of_dec, trim_start_char, trim_end_char, trim_start_char_at, trim_end_char_at,
    push_chars, push_char, string_from, push_str, seq_eq, is_digit, all_digits,
};
use crate::thumb::{ThumbDimensions, dims_text, size_key};

verus! {

broadcast use vstd::string::group_string_axioms;

/// Status of a request whose parameters cannot be read.
pub const STATUS_BAD_REQUEST: u16 = 400;

/// A thumbnail size as named in a URL.
#[derive(Clone, Copy, Debug, PartialEq, Eq, Structural)]
pub enum ThumbSize {
    Thumb,
    Poster,
    Specific(ThumbDimensions),
}

/// The size a URL segment names: `thumb` or `thumbnail`, `poster`, or
/// `WxH` with both numbers decimal `u32` (split at the first `x`).
pub open spec fn thumb_param(p: Seq<char>) -> Option<ThumbSize> {
    if p == "thumb"@ || p == "thumbnail"@ {
        Some(ThumbSize::Thumb)
    } else if p == "poster"@ {
        Some(ThumbSize::Poster)
    } else {
        match find_char(p, 'x') {
            Some(i) => match (parse_u32_spec(p.take(i as int)), parse_u32_spec(p.skip(i as int + 1))) {
                (Some(w), Some(h)) => Some(ThumbSize::Specific(ThumbDimensions { width: w, height: h })),
                _ => None,
            },
            None => None,
        }
    }
}

fn is_literal(v: &Vec<char>, lit: &str) -> (r: bool)
    ensures
        r == (v@ == lit@),
{
    let l = chars_of(lit);
    seq_eq(v, &l)
}

impl ThumbSize {
    /// Reads the size segment of a thumbnail URL; `Err(400)` for anything else.
    pub fn from_param(param: &str) -> (r: Result<ThumbSize, u16>)
        ensures
            r matches Ok(s) ==> thumb_param(param@) == Some(s),
            r matches Err(code) ==> thumb_param(param@) is None && code == STATUS_BAD_REQUEST,
    {
        let v = chars_of(param);
        if is_literal(&v, "thumb") || is_literal(&v, "thumbnail") {
            return Ok(ThumbSize::Thumb);
        }
        if is_literal(&v, "poster") {
            return Ok(ThumbSize::Poster);
        }
        assert(v@.subrange(0, v@.len() as int) =~= v@);
        match find_char_at(&v, 0, v.len(), 'x') {
            Some(i) => {
                proof {
                    lemma_find_char(v@, 'x');
                }
                assert(v@.subrange(0, i as int) =~= v@.take(i as int));
                assert(v@.subrange(i + 1, v@.len() as int) =~= v@.skip(i + 1));
                let w = parse_u32(&v, 0, i);
                let h = parse_u32(&v, i + 1, v.len());
                match (w, h) {
                    (Some(w), Some(h)) => Ok(ThumbSize::Specific(ThumbDimensions { width: w, height: h })),
                    _ => Err(STATUS_BAD_REQUEST),
                }
            },
            None => Err(STATUS_BAD_REQUEST),
        }
    }
}

proof fn lemma_dec_has_no_x(n: nat)
    ensures
        find_char(dec(n), 'x') is None,
        dec(n).len() > 0,
        all_digits(dec(n)),
        parse_u32_spec(dec(n)) matches Some(_) ==> true,
{
    lemma_parse_u32_of_dec_nat(n);
    lemma_find_char(dec(n), 'x');
    if let Some(i) = find_char(dec(n), 'x') {
        assert(is_digit(dec(n)[i as int]));
    }
}

proof fn lemma_parse_u32_of_dec_nat(n: nat)
    ensures
        all_digits(dec(n)),
        dec(n).len() > 0,
    decreases n,
{
    if n >= 10 {
        lemma_parse_u32_of_dec_nat(n / 10);
        let d = dec(n);
        assert(d.drop_last() =~= dec(n / 10));
        assert(crate::text::digit_char(n % 10) as int == n % 10 + 48);
        assert forall|i: int| 0 <= i < d.len() implies is_digit(#[trigger] d[i]) by {
            if i < d.len() - 1 {
                assert(d[i] == dec(n / 10)[i]);
            }
        }
    } else {
        assert(crate::text::digit_char(n) as int == n + 48);
    }
}

/// A size written as `WxH` in a URL is read back as those dimensions.
pub proof fn lemma_thumb_param_reads_dims(d: ThumbDimensions)
    ensures
        thumb_param(dims_text(d)) == Some(ThumbSize::Specific(d)),
{
    let w = dec(d.width as nat);
    let h = dec(d.height as nat);
    let p = dims_text(d);
    lemma_dec_has_no_x(d.width as nat);
    lemma_dec_has_no_x(d.height as nat);
    lemma_find_char(w, 'x');
    assert(p[w.len() as int] == 'x');
    assert forall|j: int| 0 <= j < w.len() implies p[j] != 'x' by {
        assert(p[j] == w[j]);
    }
    lemma_find_char(p, 'x');
    lemma_find_first(p, 'x', w.len() as int);
    assert(p.take(w.len() as int) =~= w);
    assert(p.skip(w.len() as int + 1) =~= h);
    lemma_parse_u32_of_dec(d.width);
    lemma_parse_u32_of_dec(d.height);
    reveal_strlit("thumb");
    reveal_strlit("thumbnail");
    reveal_strlit("poster");
    assert(is_digit(p[0]));
    assert(p != "thumb"@) by {
        assert("thumb"@[0] == 't');
    }
    assert(p != "thumbnail"@) by {
        assert("thumbnail"@[0] == 't');
    }
    assert(p != "poster"@) by {
        assert("poster"@[0] == 'p');
    }
}

/// Different thumbnail sizes are recorded under different keys, so a
/// stored thumbnail is only ever found for the size it was made for.
pub proof fn lemma_size_keys_distinct(a: crate::thumb::ThumbSize, b: crate::thumb::ThumbSize)
    requires
        size_key(a) == size_key(b),
    ensures
        a == b,
{
    reveal_strlit("thumbnail");
    reveal_strlit("poster");
    reveal_strlit("thumbnail-");
    match (a, b) {
        (crate::thumb::ThumbSize::Specific(da), crate::thumb::ThumbSize::Specific(db)) => {
            let pre = "thumbnail-"@;
            assert(size_key(a).skip(pre.len() as int) =~= dims_text(da));
            assert(size_key(b).skip(pre.len() as int) =~= dims_text(db));
            lemma_thumb_param_reads_dims(da);
            lemma_thumb_param_reads_dims(db);
        },
        (crate::thumb::ThumbSize::Specific(da), _) => {
            assert(size_key(a)[0] == 't');
            assert(size_key(a).len() > 10);
            assert(size_key(a)[6] == 'a');
        },
        (_, crate::thumb::ThumbSize::Specific(db)) => {
            assert(size_key(b)[0] == 't');
            assert(size_key(b).len() > 10);
            assert(size_key(b)[6] == 'a');
        },
        _ => {
            assert("thumbnail"@[0] != "poster"@[0]);
        },
    }
}

proof fn lemma_find_first(s: Seq<char>, c: char, k: int)
    requires
        0 <= k < s.len(),
        s[k] == c,
        forall|j: int| 0 <= j < k ==> s[j] != c,
    ensures
        find_char(s, c) == Some(k as nat),
    decreases k,
{
    if k > 0 {
        lemma_find_first(s.drop_first(), c, k - 1);
    }
}

/// The size in the form the thumbnail store understands.
impl From<ThumbSize> for crate::thumb::ThumbSize {
    fn from(size: ThumbSize) -> (r: Self) {
        match size {
            ThumbSize::Thumb => crate::thumb::ThumbSize::Thumb,
            ThumbSize::Poster => crate::thumb::ThumbSize::Poster,
            ThumbSize::Specific(dimensions) => crate::thumb::ThumbSize::Specific(dimensions),
        }
    }
}

impl vstd::std_specs::convert::FromSpecImpl<ThumbSize> for crate::thumb::ThumbSize {
    open spec fn obeys_from_spec() -> bool {
        true
    }

    open spec fn from_spec(v: ThumbSize) -> Self {
        match v {
            ThumbSize::Thumb => crate::thumb::ThumbSize::Thumb,
            ThumbSize::Poster => crate::thumb::ThumbSize::Poster,
            ThumbSize::Specific(d) => crate::thumb::ThumbSize::Specific(d),
        }
    }
}

// ---------------------------------------------------------------------
// Mounting routes
// ---------------------------------------------------------------------

/// The base under which a route list is mounted: `with_base` without its
/// trailing `/`, a `/`, then `old_base` without its leading `/`.
pub open spec fn mounted_base(with_base: Seq<char>, old_base: Seq<char>) -> Seq<char> {
    trim_end_char(with_base, '/') + seq!['/'] + trim_start_char(old_base, '/')
}

/// Moves each route list of `old_list` under `with_base`, keeping the
/// routes and their order.
pub fn resolve_get<R>(with_base: &str, old_list: Vec<(String, R)>) -> (r: Vec<(String, R)>)
    ensures
        r@.len() == old_list@.len(),
        forall|i: int| 0 <= i < r@.len() ==> (#[trigger] r@[i]).0@ == mounted_base(with_base@, old_list@[i].0@),
        forall|i: int| 0 <= i < r@.len() ==> (#[trigger] r@[i]).1 == old_list@[i].1,
{
    let wb = chars_of(with_base);
    let end = trim_end_char_at(&wb, 0, wb.len(), '/');
    assert(wb@.subrange(0, wb@.len() as int) =~= wb@);
    let mut result: Vec<(String, R)> = Vec::new();
    let mut rest = old_list;
    let ghost orig = rest@;
    let n = rest.len();
    let mut taken: usize = 0;
    while rest.len() > 0
        invariant
            n == orig.len(),
            orig == old_list@,
            rest@.len() + taken == n,
            rest@ == orig.skip(taken as int),
            result@.len() == taken,
            wb@ == with_base@,
            wb@.subrange(0, end as int) == trim_end_char(with_base@, '/'),
            end <= wb@.len(),
            forall|i: int| 0 <= i < taken ==> (#[trigger] result@[i]).0@ == mounted_base(with_base@, orig[i].0@),
            forall|i: int| 0 <= i < taken ==> (#[trigger] result@[i]).1 == orig[i].1,
        decreases rest@.len(),
    {
        let (old_base, routes) = rest.remove(0);
        assert(old_base == orig[taken as int].0 && routes == orig[taken as int].1);
        let ob = chars_of(old_base.as_str());
        let start = trim_start_char_at(&ob, 0, ob.len(), '/');
        assert(ob@.subrange(0, ob@.len() as int) =~= ob@);
        let mut base = String::new();
        push_chars(&mut base, &wb, 0, end);
        push_char(&mut base, '/');
        push_chars(&mut base, &ob, start, ob.len());
        assert(base@ =~= mounted_base(with_base@, old_base@));
        result.push((base, routes));
        assert(rest@ =~= orig.skip(taken + 1));
        taken = taken + 1;
    }
    assert(taken == n);
    result
}

/// The caching headers of a file served by content hash: the hash as a
/// quoted entity tag, a year-long immutable public cache, public pragma.
pub open spec fn static_file_headers_spec(hash: Seq<char>) -> Seq<(Seq<char>, Seq<char>)> {
    seq![
        ("etag"@, seq!['"'] + hash + seq!['"']),
        ("cache-control"@, "public, max-age=31536000, immutable"@),
        ("pragma"@, "public"@),
    ]
}

/// The caching headers for a file whose content hash is `hash`.
pub fn static_file_headers(hash: &str) -> (r: Vec<Header>)
    ensures
        headers_view(r@) == static_file_headers_spec(hash@),
{
    let mut tag = String::new();
    push_char(&mut tag, '"');
    push_str(&mut tag, hash);
    push_char(&mut tag, '"');
    assert(tag@ =~= seq!['"'] + hash@ + seq!['"']);
    let mut r: Vec<Header> = Vec::new();
    assert(headers_view(r@) =~= Seq::<(Seq<char>, Seq<char>)>::empty());
    push_header(&mut r, Header::new("etag", tag));
    push_header(&mut r, Header::new("cache-control", string_from("public, max-age=31536000, immutable")));
    push_header(&mut r, Header::new("pragma", string_from("public")));
    assert(headers_view(r@) =~= static_file_headers_spec(hash@));
    r
}

} // verus!
