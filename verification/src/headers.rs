//! HTTP header lists as the responders build them: names compared without
//! regard to ASCII case, values looked up by first occurrence.
use vstd::prelude::*;
use crate::text::{chars_of, string_from};

verus! {

broadcast use vstd::string::group_string_axioms;

/// One header line.
#[derive(Debug)]
pub struct Header {
    pub name: String,
    pub value: String,
}

impl View for Header {
    type V = (Seq<char>, Seq<char>);

    open spec fn view(&self) -> (Seq<char>, Seq<char>) {
        (self.name@, self.value@)
    }
}

/// The name and value texts of a list of headers.
pub open spec fn headers_view(hs: Seq<Header>) -> Seq<(Seq<char>, Seq<char>)> {
    hs.map_values(|h: Header| h@)
}

impl Header {
    pub fn new(name: &str, value: String) -> (h: Header)
        ensures
            h@ == (name@, value@),
    {
        Header { name: string_from(name), value }
    }

    pub fn clone_header(&self) -> (h: Header)
        ensures
            h@ == self@,
    {
        Header { name: self.name.clone(), value: self.value.clone() }
    }
}

/// A copy of a header list.
pub fn clone_headers(hs: &Vec<Header>) -> (r: Vec<Header>)
    ensures
        headers_view(r@) == headers_view(hs@),
{
    let mut r: Vec<Header> = Vec::new();
    let mut i: usize = 0;
    while i < hs.len()
        invariant
            0 <= i <= hs@.len(),
            headers_view(r@) == headers_view(hs@.take(i as int)),
        decreases hs@.len() - i,
    {
        let h = hs[i].clone_header();
        push_header(&mut r, h);
        assert(headers_view(hs@.take(i + 1)) =~= headers_view(hs@.take(i as int)).push(hs@[i as int]@));
        i = i + 1;
    }
    assert(hs@.take(hs@.len() as int) =~= hs@);
    r
}

/// Appends a header to a list.
pub fn push_header(hs: &mut Vec<Header>, h: Header)
    ensures
        headers_view(final(hs)@) == headers_view(old(hs)@).push(h@),
{
    hs.push(h);
    assert(headers_view(hs@) =~= headers_view(old(hs)@).push(h@));
}

/// `c` with ASCII upper case letters taken to lower case.
pub open spec fn ascii_lower(c: char) -> char {
    if 'A' <= c && c <= 'Z' {
        ((c as int) + 32) as char
    } else {
        c
    }
}

/// `a` and `b` are equal up to ASCII case (`str::eq_ignore_ascii_case`).
pub open spec fn eq_ignore_ascii_case(a: Seq<char>, b: Seq<char>) -> bool {
    a.len() == b.len() && forall|i: int| 0 <= i < a.len() ==> ascii_lower(a[i]) == ascii_lower(b[i])
}

fn lower(c: char) -> (r: char)
    ensures
        r == ascii_lower(c),
{
    if 'A' <= c && c <= 'Z' {
        let b = (c as u32) + 32;
        assert(b < 0xD800);
        char_from_u32_ascii(b)
    } else {
        c
    }
}

fn char_from_u32_ascii(b: u32) -> (c: char)
    requires
        b < 128,
    ensures
        c as int == b,
{
    let x: u8 = b as u8;
    x as char
}

/// `str::eq_ignore_ascii_case` on character lists.
pub fn chars_eq_ignore_ascii_case(a: &Vec<char>, b: &Vec<char>) -> (r: bool)
    ensures
        r == eq_ignore_ascii_case(a@, b@),
{
    if a.len() != b.len() {
        return false;
    }
    let mut i: usize = 0;
    while i < a.len()
        invariant
            a@.len() == b@.len(),
            0 <= i <= a@.len(),
            forall|j: int| 0 <= j < i ==> ascii_lower(a@[j]) == ascii_lower(b@[j]),
        decreases a@.len() - i,
    {
        if lower(a[i]) != lower(b[i]) {
            return false;
        }
        i = i + 1;
    }
    true
}

/// Whether the header names `a` and `b` are the same name.
pub fn same_name(a: &str, b: &str) -> (r: bool)
    ensures
        r == eq_ignore_ascii_case(a@, b@),
{
    let va = chars_of(a);
    let vb = chars_of(b);
    chars_eq_ignore_ascii_case(&va, &vb)
}

/// The value of the first header named `name` (`HeaderMap::get_one`).
pub open spec fn first_value(hs: Seq<(Seq<char>, Seq<char>)>, name: Seq<char>) -> Option<Seq<char>>
    decreases hs.len(),
{
    if hs.len() == 0 {
        None
    } else if eq_ignore_ascii_case(hs[0].0, name) {
        Some(hs[0].1)
    } else {
        first_value(hs.drop_first(), name)
    }
}

/// The headers not named `name`, in order (`HeaderMap::remove`).
pub open spec fn without_name(hs: Seq<(Seq<char>, Seq<char>)>, name: Seq<char>) -> Seq<
    (Seq<char>, Seq<char>),
>
    decreases hs.len(),
{
    if hs.len() == 0 {
        hs
    } else {
        let rest = without_name(hs.drop_last(), name);
        if eq_ignore_ascii_case(hs.last().0, name) {
            rest
        } else {
            rest.push(hs.last())
        }
    }
}

/// The value of the first header named `name`.
pub fn get_one(hs: &Vec<Header>, name: &str) -> (r: Option<String>)
    ensures
        r matches Some(v) ==> first_value(headers_view(hs@), name@) == Some(v@),
        r is None ==> first_value(headers_view(hs@), name@) is None,
{
    let mut i: usize = 0;
    assert(hs@.subrange(0, hs@.len() as int) =~= hs@);
    while i < hs.len()
        invariant
            0 <= i <= hs@.len(),
            first_value(headers_view(hs@), name@) == first_value(
                headers_view(hs@.subrange(i as int, hs@.len() as int)),
                name@,
            ),
        decreases hs@.len() - i,
    {
        let ghost rest = headers_view(hs@.subrange(i as int, hs@.len() as int));
        assert(rest[0] == hs@[i as int]@);
        assert(rest.drop_first() =~= headers_view(hs@.subrange(i + 1, hs@.len() as int)));
        if same_name(hs[i].name.as_str(), name) {
            return Some(hs[i].value.clone());
        }
        i = i + 1;
    }
    assert(hs@.subrange(0, hs@.len() as int) =~= hs@);
    None
}

/// The list without the headers named `name`.
pub fn remove_named(hs: &Vec<Header>, name: &str) -> (r: Vec<Header>)
    ensures
        headers_view(r@) == without_name(headers_view(hs@), name@),
{
    let mut r: Vec<Header> = Vec::new();
    let mut i: usize = 0;
    while i < hs.len()
        invariant
            0 <= i <= hs@.len(),
            headers_view(r@) == without_name(headers_view(hs@.take(i as int)), name@),
        decreases hs@.len() - i,
    {
        let ghost prefix = headers_view(hs@.take(i + 1));
        assert(prefix.drop_last() =~= headers_view(hs@.take(i as int)));
        assert(prefix.last() == hs@[i as int]@);
        if !same_name(hs[i].name.as_str(), name) {
            let h = hs[i].clone_header();
            push_header(&mut r, h);
        }
        i = i + 1;
    }
    assert(hs@.take(hs@.len() as int) =~= hs@);
    r
}

} // verus!
