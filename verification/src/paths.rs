//! Unix paths as text: joining (`PathBuf::push`), the final component
//! (`Path::file_name`), the extension (`Path::extension`), and taking a path
//! relative to a base directory.
use vstd::prelude::*;
use crate::text::{chars_of, string_of, push_chars, push_char, find_char, lemma_find_char};

verus! {

broadcast use vstd::string::group_string_axioms;

/// Index of the last `c` in `s`, if any.
pub open spec fn rfind_char(s: Seq<char>, c: char) -> Option<nat>
    decreases s.len(),
{
    if s.len() == 0 {
        None
    } else if s.last() == c {
        Some((s.len() - 1) as nat)
    } else {
        rfind_char(s.drop_last(), c)
    }
}

pub proof fn lemma_rfind_char(s: Seq<char>, c: char)
    ensures
        rfind_char(s, c) matches Some(i) ==> i < s.len() && s[i as int] == c && forall|j: int|
            i < j < s.len() ==> s[j] != c,
        rfind_char(s, c) is None ==> forall|j: int| 0 <= j < s.len() ==> s[j] != c,
    decreases s.len(),
{
    if s.len() > 0 && s.last() != c {
        lemma_rfind_char(s.drop_last(), c);
        assert forall|j: int| 0 <= j < s.len() - 1 implies s[j] == s.drop_last()[j] by {}
    }
}

/// Index of the last `c` in `v[lo..hi]`, counted from `lo`.
pub fn rfind_char_at(v: &Vec<char>, lo: usize, hi: usize, c: char) -> (r: Option<usize>)
    requires
        lo <= hi <= v@.len(),
    ensures
        r matches Some(i) ==> rfind_char(v@.subrange(lo as int, hi as int), c) == Some(i as nat),
        r is None ==> rfind_char(v@.subrange(lo as int, hi as int), c) is None,
{
    let mut j = hi;
    while j > lo
        invariant
            lo <= j <= hi <= v@.len(),
            rfind_char(v@.subrange(lo as int, hi as int), c) == rfind_char(
                v@.subrange(lo as int, j as int),
                c,
            ),
        decreases j - lo,
    {
        assert(v@.subrange(lo as int, j as int).drop_last() =~= v@.subrange(lo as int, j - 1));
        if v[j - 1] == c {
            return Some(j - 1 - lo);
        }
        j = j - 1;
    }
    None
}

/// The last component of `p` that is neither empty nor `.`: what
/// `Path::components` yields last when it is a name or `..`.
pub open spec fn last_component(p: Seq<char>) -> Option<Seq<char>>
    decreases p.len(),
{
    let start: int = match rfind_char(p, '/') {
        Some(k) => k as int + 1,
        None => 0,
    };
    let piece = p.subrange(start, p.len() as int);
    if piece.len() > 0 && piece != seq!['.'] {
        Some(piece)
    } else {
        match rfind_char(p, '/') {
            Some(k) => {
                proof {
                    lemma_rfind_char(p, '/');
                }
                last_component(p.subrange(0, k as int))
            },
            None => None,
        }
    }
}

/// `Path::file_name`: the final component when it is a name, not the root,
/// `.` or `..`.
pub open spec fn file_name(p: Seq<char>) -> Option<Seq<char>> {
    match last_component(p) {
        Some(c) => if c == seq!['.', '.'] {
            None
        } else {
            Some(c)
        },
        None => None,
    }
}

/// `Path::extension`: what follows the last `.` of the file name, unless
/// the name has no `.` or its only `.` is its first character.
pub open spec fn extension(p: Seq<char>) -> Option<Seq<char>> {
    match file_name(p) {
        Some(n) => match rfind_char(n, '.') {
            Some(k) => if k == 0 {
                None
            } else {
                Some(n.subrange(k as int + 1, n.len() as int))
            },
            None => None,
        },
        None => None,
    }
}

/// Bounds of the last component of `v[0..hi]` that is neither empty nor `.`.
fn last_component_at(v: &Vec<char>, hi: usize) -> (r: Option<(usize, usize)>)
    requires
        hi <= v@.len(),
    ensures
        r matches Some((a, b)) ==> a <= b <= hi && last_component(v@.subrange(0, hi as int)) == Some(
            v@.subrange(a as int, b as int),
        ),
        r is None ==> last_component(v@.subrange(0, hi as int)) is None,
    decreases hi,
{
    let ghost p = v@.subrange(0, hi as int);
    let slash = rfind_char_at(v, 0, hi, '/');
    proof {
        lemma_rfind_char(p, '/');
    }
    let start = match slash {
        Some(k) => k + 1,
        None => 0,
    };
    proof {
        lemma_rfind_char(p, '/');
    }
    assert(p.subrange(start as int, p.len() as int) =~= v@.subrange(start as int, hi as int));
    let len = hi - start;
    let is_dot = len == 1 && v[start] == '.';
    assert(is_dot == (v@.subrange(start as int, hi as int) == seq!['.'])) by {
        if len == 1 && v@.subrange(start as int, hi as int) == seq!['.'] {
            assert(v@.subrange(start as int, hi as int)[0] == v@[start as int]);
        }
        if is_dot {
            assert(v@.subrange(start as int, hi as int) =~= seq!['.']);
        }
    }
    if len > 0 && !is_dot {
        Some((start, hi))
    } else {
        match slash {
            Some(k) => {
                assert(p.subrange(0, k as int) =~= v@.subrange(0, k as int));
                last_component_at(v, k)
            },
            None => None,
        }
    }
}

/// Bounds of the file name of `v` (`Path::file_name`).
pub fn file_name_bounds(v: &Vec<char>) -> (r: Option<(usize, usize)>)
    ensures
        r matches Some((a, b)) ==> a <= b <= v@.len() && file_name(v@) == Some(
            v@.subrange(a as int, b as int),
        ),
        r is None ==> file_name(v@) is None,
{
    assert(v@.subrange(0, v@.len() as int) =~= v@);
    match last_component_at(v, v.len()) {
        Some((a, b)) => {
            let is_dotdot = b - a == 2 && v[a] == '.' && v[a + 1] == '.';
            let ghost c = v@.subrange(a as int, b as int);
            proof {
                if c == seq!['.', '.'] {
                    assert(c.len() == 2);
                    assert(c[0] == v@[a as int]);
                    assert(c[1] == v@[a + 1]);
                }
                if is_dotdot {
                    assert(c =~= seq!['.', '.']);
                }
            }
            if is_dotdot {
                None
            } else {
                Some((a, b))
            }
        },
        None => None,
    }
}

/// `Path::file_name` of `path`, as text.
pub fn path_file_name(path: &str) -> (r: Option<String>)
    ensures
        r matches Some(s) ==> file_name(path@) == Some(s@),
        r is None ==> file_name(path@) is None,
{
    let v = chars_of(path);
    match file_name_bounds(&v) {
        Some((a, b)) => Some(string_of(&v, a, b)),
        None => None,
    }
}

/// `Path::extension` of `path`, as text.
pub fn path_extension(path: &str) -> (r: Option<String>)
    ensures
        r matches Some(s) ==> extension(path@) == Some(s@),
        r is None ==> extension(path@) is None,
{
    let v = chars_of(path);
    match file_name_bounds(&v) {
        Some((a, b)) => {
            let ghost n = v@.subrange(a as int, b as int);
            proof {
                lemma_rfind_char(n, '.');
            }
            match rfind_char_at(&v, a, b, '.') {
                Some(k) => {
                    if k == 0 {
                        None
                    } else {
                        assert(n.subrange(k as int + 1, n.len() as int) =~= v@.subrange(
                            a + k + 1,
                            b as int,
                        ));
                        Some(string_of(&v, a + k + 1, b))
                    }
                },
                None => None,
            }
        },
        None => None,
    }
}

/// `base` joined with `p` as `PathBuf::push` does: an absolute `p`
/// replaces `base`, otherwise a `/` is put between them unless `base` is
/// empty or already ends in one.
pub open spec fn join(base: Seq<char>, p: Seq<char>) -> Seq<char> {
    if p.len() > 0 && p[0] == '/' {
        p
    } else if base.len() > 0 && base.last() != '/' {
        base + seq!['/'] + p
    } else {
        base + p
    }
}

/// `Path::join`.
pub fn path_join(base: &str, p: &str) -> (r: String)
    ensures
        r@ == join(base@, p@),
{
    let vb = chars_of(base);
    let vp = chars_of(p);
    let mut r = String::new();
    assert(vp@.subrange(0, vp@.len() as int) =~= vp@);
    assert(vb@.subrange(0, vb@.len() as int) =~= vb@);
    if vp.len() > 0 && vp[0] == '/' {
        push_chars(&mut r, &vp, 0, vp.len());
    } else {
        push_chars(&mut r, &vb, 0, vb.len());
        if vb.len() > 0 && vb[vb.len() - 1] != '/' {
            push_char(&mut r, '/');
        }
        push_chars(&mut r, &vp, 0, vp.len());
    }
    r
}

/// `base` with its trailing `/` left out, except a lone root `/`.
pub open spec fn dir_key(base: Seq<char>) -> Seq<char>
    decreases base.len(),
{
    if base.len() > 1 && base.last() == '/' {
        dir_key(base.drop_last())
    } else {
        base
    }
}

/// `p` without its leading `/`.
pub open spec fn strip_leading_slashes(p: Seq<char>) -> Seq<char>
    decreases p.len(),
{
    if p.len() > 0 && p[0] == '/' {
        strip_leading_slashes(p.drop_first())
    } else {
        p
    }
}

/// `p` taken relative to the directory `base`: the empty path for `base`
/// itself, the rest after `base` and a `/` for a path inside it, nothing
/// for any other path.
pub open spec fn relative_to(p: Seq<char>, base: Seq<char>) -> Option<Seq<char>> {
    let k = dir_key(base);
    if p == k {
        Some(Seq::<char>::empty())
    } else if k.len() < p.len() && p.take(k.len() as int) == k && (p[k.len() as int] == '/' || (
    k.len() > 0 && k.last() == '/')) {
        Some(strip_leading_slashes(p.skip(k.len() as int)))
    } else {
        None
    }
}

/// `p` relative to `base`, if `p` is `base` or lies inside it.
pub fn path_relative_to(p: &str, base: &str) -> (r: Option<String>)
    ensures
        r matches Some(s) ==> relative_to(p@, base@) == Some(s@),
        r is None ==> relative_to(p@, base@) is None,
{
    let vp = chars_of(p);
    let vb = chars_of(base);
    let mut k = vb.len();
    assert(vb@.subrange(0, vb@.len() as int) =~= vb@);
    while k > 1 && vb[k - 1] == '/'
        invariant
            0 <= k <= vb@.len(),
            dir_key(vb@) == dir_key(vb@.subrange(0, k as int)),
        decreases k,
    {
        assert(vb@.subrange(0, k as int).drop_last() =~= vb@.subrange(0, k - 1));
        k = k - 1;
    }
    assert(vb@.subrange(0, vb@.len() as int) =~= vb@);
    let ghost key = vb@.subrange(0, k as int);
    assert(dir_key(key) == key);
    assert(dir_key(vb@) == key);
    assert(key.len() == k);
    if vp.len() < k {
        assert(vp@ != key);
        assert(relative_to(vp@, vb@) is None);
        return None;
    }
    let mut i: usize = 0;
    while i < k
        invariant
            0 <= i <= k <= vb@.len(),
            k <= vp@.len(),
            key == vb@.subrange(0, k as int),
            dir_key(vb@) == key,
            vp@ == p@,
            vb@ == base@,
            forall|j: int| 0 <= j < i ==> vp@[j] == vb@[j],
        decreases k - i,
    {
        if vp[i] != vb[i] {
            assert(vp@.take(k as int)[i as int] != key[i as int]);
            assert(vp@ != key) by {
                if vp@ == key {
                    assert(vp@[i as int] == key[i as int]);
                }
            }
            assert(vp@.take(k as int) != key);
            return None;
        }
        i = i + 1;
    }
    assert(vp@.take(k as int) =~= key);
    if vp.len() == k {
        assert(vp@ =~= key);
        return Some(String::new());
    }
    assert(vp@ != key);
    if vp[k] == '/' || (k > 0 && vb[k - 1] == '/') {
        let mut a = k;
        while a < vp.len() && vp[a] == '/'
            invariant
                k <= a <= vp@.len(),
                strip_leading_slashes(vp@.skip(k as int)) == strip_leading_slashes(
                    vp@.subrange(a as int, vp@.len() as int),
                ),
            decreases vp@.len() - a,
        {
            assert(vp@.subrange(a as int, vp@.len() as int).drop_first() =~= vp@.subrange(
                a + 1,
                vp@.len() as int,
            ));
            a = a + 1;
        }
        assert(vp@.skip(k as int) =~= vp@.subrange(k as int, vp@.len() as int));
        Some(string_of(&vp, a, vp.len()))
    } else {
        None
    }
}

/// The extension is the text after the last `.` of the file name: it holds
/// no `.`, and the name is a non-empty stem, a `.`, and the extension. A
/// name has no extension exactly when no `.` follows its first character.
pub proof fn lemma_extension_after_last_dot(p: Seq<char>)
    ensures
        extension(p) is Some ==> (forall|i: int|
            0 <= i < extension(p)->0.len() ==> extension(p)->0[i] != '.'),
        extension(p) is Some ==> exists|stem: Seq<char>|
            stem.len() > 0 && file_name(p) == Some(stem + seq!['.'] + extension(p)->0),
        file_name(p) is Some ==> (extension(p) is None <==> forall|i: int|
            1 <= i < file_name(p)->0.len() ==> file_name(p)->0[i] != '.'),
{
    if let Some(n) = file_name(p) {
        lemma_rfind_char(n, '.');
        if let Some(k) = rfind_char(n, '.') {
            if k > 0 {
                let e = n.subrange(k as int + 1, n.len() as int);
                let stem = n.take(k as int);
                assert(n =~= stem + seq!['.'] + e);
                assert(file_name(p) == Some(stem + seq!['.'] + e));
                assert forall|i: int| 0 <= i < e.len() implies e[i] != '.' by {
                    assert(e[i] == n[k + 1 + i]);
                }
            }
        }
    }
}

/// How many `/` characters `x` starts with.
pub open spec fn leading_slashes(x: Seq<char>) -> nat
    decreases x.len(),
{
    if x.len() > 0 && x[0] == '/' {
        1 + leading_slashes(x.drop_first())
    } else {
        0
    }
}

proof fn lemma_strip_is_skip(x: Seq<char>)
    ensures
        leading_slashes(x) <= x.len(),
        strip_leading_slashes(x) == x.skip(leading_slashes(x) as int),
        forall|i: int| 0 <= i < leading_slashes(x) ==> x[i] == '/',
    decreases x.len(),
{
    if x.len() > 0 && x[0] == '/' {
        lemma_strip_is_skip(x.drop_first());
        assert(x.drop_first().skip(leading_slashes(x.drop_first()) as int) =~= x.skip(
            leading_slashes(x) as int,
        ));
        assert forall|i: int| 0 <= i < leading_slashes(x) implies x[i] == '/' by {
            if i > 0 {
                assert(x[i] == x.drop_first()[i - 1]);
            }
        }
    } else {
        assert(x.skip(0) =~= x);
    }
}

/// A path is taken relative to a directory only at a component boundary:
/// the path is the directory (without trailing `/`), then a run of `/`,
/// then the relative path; the run is empty only where the directory ends
/// in `/` or nothing follows. So `/srv/memes-old/a` is not inside
/// `/srv/memes`.
pub proof fn lemma_relative_at_component_boundary(p: Seq<char>, base: Seq<char>)
    ensures
        relative_to(p, base) is Some ==> exists|s: Seq<char>|
            (forall|i: int| 0 <= i < s.len() ==> s[i] == '/') && p == dir_key(base) + s + relative_to(
                p,
                base,
            )->0 && (s.len() > 0 || relative_to(p, base)->0.len() == 0 || (dir_key(base).len() > 0
                && dir_key(base).last() == '/')),
{
    let k = dir_key(base);
    if relative_to(p, base) is Some {
        let r = relative_to(p, base)->0;
        if p == k {
            assert(p =~= k + Seq::<char>::empty() + r);
        } else {
            let x = p.skip(k.len() as int);
            lemma_strip_is_skip(x);
            let s = x.take(leading_slashes(x) as int);
            assert(x =~= s + r);
            assert(p =~= k + s + r);
            if x[0] == '/' {
                assert(s.len() > 0);
            }
        }
    }
}

} // verus!
