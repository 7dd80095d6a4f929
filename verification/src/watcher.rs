//! The archive watcher's bookkeeping: which files on disk are not yet in
//! the index, which index entries no longer have a file, and how deep a
//! scan goes.
use vstd::prelude::*;
use crate::config::{AppConfig, ConfigError, lemma_relative_of_joined};
use crate::paths::{join, relative_to, strip_leading_slashes};
use crate::text::str_eq;

verus! {

broadcast use vstd::string::group_string_axioms;

/// Keeps an archive directory and its index in step.
pub struct FileWatcher<D> {
    db: D,
    recursive: bool,
}

impl<D> FileWatcher<D> {
    /// The index handle the watcher works on.
    pub closed spec fn spec_db(&self) -> D {
        self.db
    }

    /// Whether a scan descends into subdirectories.
    pub closed spec fn spec_recursive(&self) -> bool {
        self.recursive
    }

    /// A watcher on `db` that scans recursively.
    pub fn new(db: D) -> (r: Self)
        ensures
            r.spec_db() == db,
            r.spec_recursive(),
    {
        FileWatcher { db, recursive: true }
    }

    /// Sets whether scans descend into subdirectories.
    pub fn set_recursive(&mut self, recursive: bool) -> (r: &Self)
        ensures
            final(self).spec_recursive() == recursive,
            final(self).spec_db() == old(self).spec_db(),
            r.spec_recursive() == recursive,
            r.spec_db() == old(self).spec_db(),
    {
        self.recursive = recursive;
        self
    }

    /// The watcher with recursion set as given.
    pub fn with_recursive(self, recursive: bool) -> (r: Self)
        ensures
            r.spec_recursive() == recursive,
            r.spec_db() == self.spec_db(),
    {
        let mut w = self;
        w.set_recursive(recursive);
        w
    }

    /// The index handle.
    pub fn db(&self) -> (r: &D)
        ensures
            *r == self.spec_db(),
    {
        &self.db
    }

    /// How many directory levels a scan walks: ten when recursive, else
    /// only the directory itself.
    pub fn scan_depth(&self) -> (r: usize)
        ensures
            r == if self.spec_recursive() { 10usize } else { 1usize },
    {
        if self.recursive {
            10
        } else {
            1
        }
    }
}

/// The texts of a list of strings.
pub open spec fn strings_view(v: Seq<String>) -> Seq<Seq<char>> {
    v.map_values(|s: String| s@)
}

/// A path that does not start at the root.
pub open spec fn is_relative(p: Seq<char>) -> bool {
    p.len() == 0 || p[0] != '/'
}

/// Every file lies inside `dir`.
pub open spec fn all_inside(dir: Seq<char>, files: Seq<Seq<char>>) -> bool {
    forall|i: int| 0 <= i < files.len() ==> (#[trigger] relative_to(files[i], dir)) is Some
}

/// The files, each taken relative to `dir`.
pub open spec fn relative_set(dir: Seq<char>, files: Seq<Seq<char>>) -> Set<Seq<char>> {
    Set::new(
        |r: Seq<char>|
            exists|i: int| 0 <= i < files.len() && #[trigger] relative_to(files[i], dir) == Some(r),
    )
}

/// The files of the directory that the index does not hold yet, as
/// absolute paths.
pub open spec fn unindexed_set(dir: Seq<char>, indexed: Seq<Seq<char>>, files: Seq<Seq<char>>) -> Set<
    Seq<char>,
> {
    relative_set(dir, files).filter(|r: Seq<char>| !indexed.contains(r)).map(
        |r: Seq<char>| join(dir, r),
    )
}

/// The index entry `x`, made absolute, is no file of the directory.
pub open spec fn gone(dir: Seq<char>, files: Seq<Seq<char>>, x: Seq<char>) -> bool {
    !files.contains(join(dir, x))
}

/// The index entries whose file is gone, as paths relative to `dir`.
pub open spec fn removed_set(dir: Seq<char>, indexed: Seq<Seq<char>>, files: Seq<Seq<char>>) -> Set<
    Seq<char>,
> {
    Set::new(
        |r: Seq<char>|
            exists|i: int|
                0 <= i < indexed.len() && gone(dir, files, indexed[i]) && #[trigger] relative_to(
                    join(dir, indexed[i]),
                    dir,
                ) == Some(r),
    )
}

/// Some index entry whose file is gone cannot be taken relative to `dir`.
pub open spec fn prune_fails(dir: Seq<char>, indexed: Seq<Seq<char>>, files: Seq<Seq<char>>) -> bool {
    exists|i: int|
        0 <= i < indexed.len() && gone(dir, files, indexed[i]) && (#[trigger] relative_to(
            join(dir, indexed[i]),
            dir,
        )) is None
}

/// Whether `s` is among the strings of `v`.
pub fn contains_str(v: &Vec<String>, s: &str) -> (r: bool)
    ensures
        r == strings_view(v@).contains(s@),
{
    let mut i: usize = 0;
    while i < v.len()
        invariant
            0 <= i <= v@.len(),
            forall|j: int| 0 <= j < i ==> v@[j]@ != s@,
        decreases v@.len() - i,
    {
        if str_eq(v[i].as_str(), s) {
            assert(strings_view(v@)[i as int] == s@);
            return true;
        }
        i = i + 1;
    }
    assert(!strings_view(v@).contains(s@)) by {
        if strings_view(v@).contains(s@) {
            let j = choose|j: int| 0 <= j < strings_view(v@).len() && strings_view(v@)[j] == s@;
            assert(v@[j]@ == s@);
        }
    }
    false
}

proof fn lemma_strip_is_relative(p: Seq<char>)
    ensures
        is_relative(strip_leading_slashes(p)),
    decreases p.len(),
{
    if p.len() > 0 && p[0] == '/' {
        lemma_strip_is_relative(p.drop_first());
    }
}

/// What `relative_to` gives never starts at the root.
pub proof fn lemma_relative_is_relative(p: Seq<char>, base: Seq<char>)
    ensures
        relative_to(p, base) matches Some(r) ==> is_relative(r),
{
    let k = crate::paths::dir_key(base);
    if p != k && k.len() < p.len() {
        lemma_strip_is_relative(p.skip(k.len() as int));
    }
}

/// Joining to one directory tells relative paths apart.
pub proof fn lemma_join_injective(dir: Seq<char>, r1: Seq<char>, r2: Seq<char>)
    requires
        is_relative(r1),
        is_relative(r2),
        join(dir, r1) == join(dir, r2),
    ensures
        r1 == r2,
{
    let pre = if dir.len() > 0 && dir.last() != '/' {
        dir + seq!['/']
    } else {
        dir
    };
    assert(join(dir, r1) =~= pre + r1);
    assert(join(dir, r2) =~= pre + r2);
    assert(r1 =~= (pre + r1).skip(pre.len() as int));
    assert(r2 =~= (pre + r2).skip(pre.len() as int));
}

/// The files of the archive that the index does not hold yet, as absolute
/// paths, each once. Fails when a file lies outside the archive directory.
pub fn unindexed_files(app: &AppConfig, indexed: &Vec<String>, files_in_directory: &Vec<String>) -> (r:
    Result<Vec<String>, ConfigError>)
    ensures
        r is Err <==> !all_inside(app.directory@, strings_view(files_in_directory@)),
        r matches Err(e) ==> e == ConfigError::OutsideDirectory,
        r matches Ok(v) ==> strings_view(v@).to_set() == unindexed_set(
            app.directory@,
            strings_view(indexed@),
            strings_view(files_in_directory@),
        ),
        r matches Ok(v) ==> strings_view(v@).no_duplicates(),
{
    let ghost dir = app.directory@;
    let ghost fs = strings_view(files_in_directory@);
    let ghost ix = strings_view(indexed@);
    // every file taken relative to the directory
    let mut rels: Vec<String> = Vec::new();
    let mut i: usize = 0;
    while i < files_in_directory.len()
        invariant
            0 <= i <= files_in_directory@.len(),
            dir == app.directory@,
            fs == strings_view(files_in_directory@),
            rels@.len() == i,
            forall|j: int| 0 <= j < i ==> relative_to(fs[j], dir) == Some(#[trigger] rels@[j]@),
        decreases files_in_directory@.len() - i,
    {
        match app.directory_relative(files_in_directory[i].as_str()) {
            Ok(rel) => {
                rels.push(rel);
            },
            Err(e) => {
                assert(!all_inside(dir, fs)) by {
                    assert(relative_to(fs[i as int], dir) is None);
                }
                return Err(e);
            },
        }
        i = i + 1;
    }
    assert(all_inside(dir, fs)) by {
        assert forall|j: int| 0 <= j < fs.len() implies (#[trigger] relative_to(fs[j], dir)) is Some by {
            assert(relative_to(fs[j], dir) == Some(rels@[j]@));
        }
    }
    // those the index lacks, each once
    let mut seen: Vec<String> = Vec::new();
    let mut out: Vec<String> = Vec::new();
    let mut k: usize = 0;
    while k < rels.len()
        invariant
            0 <= k <= rels@.len(),
            rels@.len() == fs.len(),
            dir == app.directory@,
            ix == strings_view(indexed@),
            forall|j: int| 0 <= j < rels@.len() ==> relative_to(fs[j], dir) == Some(#[trigger] rels@[j]@),
            out@.len() == seen@.len(),
            forall|j: int| 0 <= j < seen@.len() ==> (#[trigger] out@[j])@ == join(dir, seen@[j]@),
            strings_view(seen@).no_duplicates(),
            forall|x: Seq<char>|
                #![trigger strings_view(seen@).contains(x)]
                #![trigger ix.contains(x)]
                strings_view(seen@).contains(x) <==> (!ix.contains(x) && exists|j: int|
                    0 <= j < k && #[trigger] rels@[j]@ == x),
        decreases rels@.len() - k,
    {
        let rel = &rels[k];
        let ghost old_seen = seen@;
        let known = contains_str(indexed, rel.as_str());
        let dup = contains_str(&seen, rel.as_str());
        if !known && !dup {
            let abs = app.directory_absolute(rel.as_str());
            seen.push(rel.clone());
            out.push(abs);
            proof {
                assert(strings_view(seen@) =~= strings_view(old_seen).push(rels@[k as int]@));
            }
        }
        proof {
            assert forall|x: Seq<char>|
                #![trigger strings_view(seen@).contains(x)]
                #![trigger ix.contains(x)]
                strings_view(seen@).contains(x) <==> (!ix.contains(x) && exists|j: int|
                    0 <= j < k + 1 && #[trigger] rels@[j]@ == x) by {
                if strings_view(seen@).contains(x) {
                    let m = choose|m: int| 0 <= m < strings_view(seen@).len() && strings_view(seen@)[m] == x;
                    if m < old_seen.len() {
                        assert(strings_view(old_seen)[m] == x);
                        assert(strings_view(old_seen).contains(x));
                    } else {
                        assert(rels@[k as int]@ == x);
                    }
                }
                if !ix.contains(x) && exists|j: int| 0 <= j < k + 1 && #[trigger] rels@[j]@ == x {
                    let j = choose|j: int| 0 <= j < k + 1 && #[trigger] rels@[j]@ == x;
                    if j < k || dup {
                        assert(strings_view(old_seen).contains(x));
                        let m = choose|m: int|
                            0 <= m < strings_view(old_seen).len() && strings_view(old_seen)[m] == x;
                        assert(strings_view(seen@)[m] == x);
                    } else {
                        assert(strings_view(seen@)[seen@.len() - 1] == x);
                    }
                }
            }
        }
        k = k + 1;
    }
    proof {
        lemma_unindexed_result(dir, ix, fs, rels@, seen@, out@);
    }
    Ok(out)
}

/// The index entries whose file is gone, as paths relative to the archive
/// directory, each once. Fails when such an entry, made absolute, does not
/// lie inside the archive directory.
pub fn removed_files(app: &AppConfig, indexed: &Vec<String>, files_in_directory: &Vec<String>) -> (r:
    Result<Vec<String>, ConfigError>)
    ensures
        r is Err <==> prune_fails(app.directory@, strings_view(indexed@), strings_view(files_in_directory@)),
        r matches Err(e) ==> e == ConfigError::OutsideDirectory,
        r matches Ok(v) ==> strings_view(v@).to_set() == removed_set(
            app.directory@,
            strings_view(indexed@),
            strings_view(files_in_directory@),
        ),
        r matches Ok(v) ==> strings_view(v@).no_duplicates(),
{
    let ghost dir = app.directory@;
    let ghost fs = strings_view(files_in_directory@);
    let ghost ix = strings_view(indexed@);
    let mut out: Vec<String> = Vec::new();
    let mut i: usize = 0;
    while i < indexed.len()
        invariant
            0 <= i <= indexed@.len(),
            dir == app.directory@,
            fs == strings_view(files_in_directory@),
            ix == strings_view(indexed@),
            strings_view(out@).no_duplicates(),
            forall|j: int|
                0 <= j < i && gone(dir, fs, ix[j]) ==> (#[trigger] relative_to(join(dir, ix[j]), dir)) is Some,
            forall|x: Seq<char>|
                #![trigger strings_view(out@).contains(x)]
                strings_view(out@).contains(x) <==> exists|j: int|
                    0 <= j < i && gone(dir, fs, ix[j]) && #[trigger] relative_to(join(dir, ix[j]), dir)
                        == Some(x),
        decreases indexed@.len() - i,
    {
        let ghost old_out = out@;
        let abs = app.directory_absolute(indexed[i].as_str());
        assert(ix[i as int] == indexed@[i as int]@);
        if !contains_str(files_in_directory, abs.as_str()) {
            match app.directory_relative(abs.as_str()) {
                Err(e) => {
                    assert(prune_fails(dir, ix, fs)) by {
                        assert(gone(dir, fs, ix[i as int]));
                        assert(relative_to(join(dir, ix[i as int]), dir) is None);
                    }
                    return Err(e);
                },
                Ok(rel) => {
                    if !contains_str(&out, rel.as_str()) {
                        out.push(rel);
                        proof {
                            assert(strings_view(out@) =~= strings_view(old_out).push(out@.last()@));
                        }
                    }
                },
            }
        }
        proof {
            assert forall|x: Seq<char>|
                #![trigger strings_view(out@).contains(x)]
                strings_view(out@).contains(x) <==> exists|j: int|
                    0 <= j < i + 1 && gone(dir, fs, ix[j]) && #[trigger] relative_to(join(dir, ix[j]), dir)
                        == Some(x) by {
                if strings_view(out@).contains(x) {
                    let m = choose|m: int| 0 <= m < strings_view(out@).len() && strings_view(out@)[m] == x;
                    if m < old_out.len() {
                        assert(strings_view(old_out)[m] == x);
                        assert(strings_view(old_out).contains(x));
                    } else {
                        assert(relative_to(join(dir, ix[i as int]), dir) == Some(x));
                    }
                }
                if exists|j: int|
                    0 <= j < i + 1 && gone(dir, fs, ix[j]) && #[trigger] relative_to(join(dir, ix[j]), dir)
                        == Some(x) {
                    let j = choose|j: int|
                        0 <= j < i + 1 && gone(dir, fs, ix[j]) && #[trigger] relative_to(join(dir, ix[j]), dir)
                            == Some(x);
                    if j < i || strings_view(old_out).contains(x) {
                        assert(strings_view(old_out).contains(x));
                        let m = choose|m: int|
                            0 <= m < strings_view(old_out).len() && strings_view(old_out)[m] == x;
                        assert(strings_view(out@)[m] == x);
                    } else {
                        assert(strings_view(out@)[out@.len() - 1] == x);
                    }
                }
            }
        }
        i = i + 1;
    }
    proof {
        assert(!prune_fails(dir, ix, fs));
        assert(strings_view(out@).to_set() =~= removed_set(dir, ix, fs)) by {
            assert forall|x: Seq<char>| strings_view(out@).to_set().contains(x) implies removed_set(dir, ix, fs).contains(x) by {
                assert(strings_view(out@).contains(x));
            }
            assert forall|x: Seq<char>| removed_set(dir, ix, fs).contains(x) implies strings_view(out@).to_set().contains(x) by {
                let j = choose|j: int|
                    0 <= j < ix.len() && gone(dir, fs, ix[j]) && #[trigger] relative_to(join(dir, ix[j]), dir)
                        == Some(x);
                assert(strings_view(out@).contains(x));
            }
        }
    }
    Ok(out)
}

/// A scan followed by pruning and indexing brings the index in line with
/// the archive: with the archive directory non-empty, the index entries
/// relative and every file on disk written as its directory joined with its
/// relative path, both steps succeed, every file that is indexed is taken
/// back to the relative path it was missing under, and the entries kept
/// together with those added are exactly the directory's files.
pub proof fn lemma_index_sync(dir: Seq<char>, indexed: Seq<Seq<char>>, files: Seq<Seq<char>>)
    requires
        dir.len() > 0,
        forall|i: int| 0 <= i < indexed.len() ==> is_relative(#[trigger] indexed[i]),
        forall|i: int|
            0 <= i < files.len() ==> (#[trigger] relative_to(files[i], dir)) is Some && join(
                dir,
                relative_to(files[i], dir)->0,
            ) == files[i],
    ensures
        all_inside(dir, files),
        !prune_fails(dir, indexed, files),
        forall|a: Seq<char>|
            #[trigger] unindexed_set(dir, indexed, files).contains(a) ==> relative_to(a, dir) is Some
                && relative_set(dir, files).contains(relative_to(a, dir)->0) && !indexed.contains(
                relative_to(a, dir)->0,
            ),
        indexed.to_set().difference(removed_set(dir, indexed, files)).union(
            relative_set(dir, files).difference(indexed.to_set()),
        ) == relative_set(dir, files),
{
    let rs = relative_set(dir, files);
    let ps = removed_set(dir, indexed, files);
    assert forall|i: int| 0 <= i < indexed.len() implies #[trigger] relative_to(join(dir, indexed[i]), dir)
        == Some(indexed[i]) by {
        lemma_relative_of_joined(dir, indexed[i]);
    }
    assert forall|a: Seq<char>| #[trigger] unindexed_set(dir, indexed, files).contains(a) implies relative_to(
        a,
        dir,
    ) is Some && rs.contains(relative_to(a, dir)->0) && !indexed.contains(relative_to(a, dir)->0) by {
        let r = choose|r: Seq<char>|
            rs.filter(|r: Seq<char>| !indexed.contains(r)).contains(r) && join(dir, r) == a;
        let j = choose|j: int| 0 <= j < files.len() && #[trigger] relative_to(files[j], dir) == Some(r);
        lemma_relative_is_relative(files[j], dir);
        lemma_relative_of_joined(dir, r);
    }
    let lhs = indexed.to_set().difference(ps).union(rs.difference(indexed.to_set()));
    assert forall|x: Seq<char>| lhs.contains(x) <==> rs.contains(x) by {
        if indexed.to_set().contains(x) && !ps.contains(x) && !rs.contains(x) {
            let i = choose|i: int| 0 <= i < indexed.len() && indexed[i] == x;
            assert(relative_to(join(dir, indexed[i]), dir) == Some(x));
            if files.contains(join(dir, x)) {
                let j = choose|j: int| 0 <= j < files.len() && files[j] == join(dir, x);
                assert(relative_to(files[j], dir) == Some(x));
            }
            assert(gone(dir, files, indexed[i]));
            assert(ps.contains(x));
        }
        if rs.contains(x) && indexed.to_set().contains(x) && ps.contains(x) {
            let i = choose|i: int|
                0 <= i < indexed.len() && gone(dir, files, indexed[i]) && #[trigger] relative_to(
                    join(dir, indexed[i]),
                    dir,
                ) == Some(x);
            assert(relative_to(join(dir, indexed[i]), dir) == Some(indexed[i]));
            let j = choose|j: int| 0 <= j < files.len() && #[trigger] relative_to(files[j], dir) == Some(x);
            assert(join(dir, x) == files[j]);
            assert(files.contains(join(dir, indexed[i])));
        }
    }
    assert(lhs =~= rs);
}

proof fn lemma_unindexed_result(
    dir: Seq<char>,
    ix: Seq<Seq<char>>,
    fs: Seq<Seq<char>>,
    rels: Seq<String>,
    seen: Seq<String>,
    out: Seq<String>,
)
    requires
        rels.len() == fs.len(),
        forall|j: int| 0 <= j < rels.len() ==> relative_to(fs[j], dir) == Some(#[trigger] rels[j]@),
        out.len() == seen.len(),
        forall|j: int| 0 <= j < seen.len() ==> (#[trigger] out[j])@ == join(dir, seen[j]@),
        strings_view(seen).no_duplicates(),
        forall|x: Seq<char>|
            #![trigger strings_view(seen).contains(x)]
            #![trigger ix.contains(x)]
            strings_view(seen).contains(x) <==> (!ix.contains(x) && exists|j: int|
                0 <= j < rels.len() && #[trigger] rels[j]@ == x),
    ensures
        strings_view(out).to_set() == unindexed_set(dir, ix, fs),
        strings_view(out).no_duplicates(),
{
    let u = unindexed_set(dir, ix, fs);
    assert forall|a: Seq<char>| strings_view(out).to_set().contains(a) <==> u.contains(a) by {
        if strings_view(out).to_set().contains(a) {
            let m = choose|m: int| 0 <= m < strings_view(out).len() && strings_view(out)[m] == a;
            let x = seen[m]@;
            assert(strings_view(seen)[m] == x);
            assert(strings_view(seen).contains(x));
            let j = choose|j: int| 0 <= j < rels.len() && #[trigger] rels[j]@ == x;
            assert(relative_to(fs[j], dir) == Some(x));
            assert(relative_set(dir, fs).contains(x));
            assert(relative_set(dir, fs).filter(|r: Seq<char>| !ix.contains(r)).contains(x));
            assert(a == join(dir, x));
        }
        if u.contains(a) {
            let x = choose|x: Seq<char>|
                relative_set(dir, fs).filter(|r: Seq<char>| !ix.contains(r)).contains(x) && join(dir, x) == a;
            let j = choose|j: int| 0 <= j < fs.len() && #[trigger] relative_to(fs[j], dir) == Some(x);
            assert(rels[j]@ == x);
            assert(strings_view(seen).contains(x));
            let m = choose|m: int| 0 <= m < strings_view(seen).len() && strings_view(seen)[m] == x;
            assert(strings_view(out)[m] == a);
        }
    }
    assert(strings_view(out).to_set() =~= u);
    assert forall|p: int, q: int|
        0 <= p < strings_view(out).len() && 0 <= q < strings_view(out).len() && p != q implies strings_view(
        out,
    )[p] != strings_view(out)[q] by {
        let xp = seen[p]@;
        let xq = seen[q]@;
        assert(strings_view(seen)[p] == xp);
        assert(strings_view(seen)[q] == xq);
        assert(strings_view(seen).contains(xp));
        assert(strings_view(seen).contains(xq));
        let jp = choose|j: int| 0 <= j < rels.len() && #[trigger] rels[j]@ == xp;
        let jq = choose|j: int| 0 <= j < rels.len() && #[trigger] rels[j]@ == xq;
        lemma_relative_is_relative(fs[jp], dir);
        lemma_relative_is_relative(fs[jq], dir);
        if strings_view(out)[p] == strings_view(out)[q] {
            lemma_join_injective(dir, xp, xq);
        }
    }
}

} // verus!
