//! The server's settings once the command line and environment are read:
//! where the archive and its metadata live, how to serve and where the
//! database and the media tools are, with the defaults filled in.
use vstd::prelude::*;
use resolve_path::PathResolveExt;
use crate::paths::{file_name, join, path_join, path_relative_to, relative_to, strip_leading_slashes, dir_key};
use crate::text::{push_str, string_from};

verus! {

broadcast use vstd::string::group_string_axioms;

/// What the settings say of running the program.
#[derive(Clone, Debug)]
pub struct RunConfig {
    pub generate_types: bool,
}

/// Where the archive and its metadata live.
#[derive(Clone, Debug)]
pub struct AppConfig {
    pub directory: String,
    pub metadata_directory: String,
}

/// Where to listen and how to sign.
#[derive(Clone, Debug)]
pub struct ServerConfig {
    pub host: String,
    pub port: u16,
    pub secret_key: String,
}

/// The database to use; the metadata directory's file when none is named.
#[derive(Clone, Debug)]
pub struct DatabaseConfig {
    pub url: Option<String>,
}

/// Where the media tools are.
#[derive(Clone, Debug)]
pub struct DependenciesConfig {
    pub ffmpeg_path: Option<String>,
    pub ffprobe_path: Option<String>,
}

/// All settings.
#[derive(Clone, Debug)]
pub struct Config {
    pub run: RunConfig,
    pub app: AppConfig,
    pub server: ServerConfig,
    pub database: DatabaseConfig,
    pub dependencies: DependenciesConfig,
}

/// Why the settings cannot be used.
#[derive(Clone, Copy, Debug, PartialEq, Eq, Structural)]
pub enum ConfigError {
    /// The archive directory could not be made absolute.
    UnresolvedDirectory,
    /// The metadata directory could not be made absolute.
    UnresolvedMetadataDirectory,
    /// The secret key is shorter than 64 bytes.
    ShortSecretKey,
    /// A path does not lie inside the directory it is taken relative to.
    OutsideDirectory,
}

/// A path that starts at the root.
pub open spec fn is_absolute(p: Seq<char>) -> bool {
    p.len() > 0 && p[0] == '/'
}

/// The metadata directory used when none is given.
pub open spec fn default_metadata_directory(directory: Seq<char>) -> Seq<char> {
    join(directory, ".mw_metadata"@)
}

/// The database file inside the metadata directory.
pub open spec fn db_path_spec(metadata_directory: Seq<char>) -> Seq<char> {
    join(metadata_directory, "db.sqlite3"@)
}

/// The database URL: the one given, else an in-memory SQLite database.
pub open spec fn database_url_spec(c: Config) -> Seq<char> {
    match c.database.url {
        Some(u) => u@,
        None => "sqlite::memory:"@,
    }
}

/// A path that `resolve_path` takes from the home directory: `~` itself or
/// a path under `~/`.
pub open spec fn home_relative(p: Seq<char>) -> bool {
    p == seq!['~'] || (p.len() >= 2 && p[0] == '~' && p[1] == '/')
}

/// `resolve_path`'s `PathResolveExt::try_resolve`: anchors a relative path at
/// the working directory and a `~` path at the home directory, both read
/// from the environment; an absolute path comes back as it is. `None` when
/// the environment gives no working or home directory, or the result is not
/// UTF-8. Claimed, as its source shows: an absolute path comes back
/// unchanged, and any path not taken from the home directory comes back
/// absolute (a relative one is joined to the working directory, which it
/// refuses unless absolute). Where in the environment a path is anchored,
/// and whether the home directory itself is absolute, is left unsaid.
#[verifier::external_body]
fn resolve(p: &str) -> (r: Option<String>)
    ensures
        r matches Some(q) ==> (is_absolute(p@) ==> q@ == p@),
        r matches Some(q) ==> (!home_relative(p@) ==> is_absolute(q@)),
{
    match p.try_resolve() {
        Ok(resolved) => match resolved.to_str() {
            Some(s) => Some(s.to_string()),
            None => None,
        },
        Err(_) => None,
    }
}

/// `which::which`: the path of an executable found by name in `PATH` or
/// relative to the working directory. Whether and where it finds one
/// depends on the environment and the disk, and is left unsaid. Claimed, as
/// its source shows off Windows: a found path is the name itself when
/// absolute, else a directory joined with the name, so it ends in the
/// name's last component.
#[verifier::external_body]
fn which_path(name: &str) -> (r: Option<String>)
    ensures
        r matches Some(p) ==> (file_name(name@) is Some ==> file_name(p@) == file_name(name@)),
{
    match which::which(name) {
        Ok(p) => match p.to_str() {
            Some(s) => Some(s.to_string()),
            None => None,
        },
        Err(_) => None,
    }
}

/// The names under which a tool is looked for, in order: the bare name,
/// then in the working directory, then with the Windows suffix there.
pub open spec fn binary_candidates_spec(cmd: Seq<char>) -> Seq<Seq<char>> {
    seq![cmd, "./"@ + cmd, "./"@ + cmd + ".exe"@]
}

/// The names under which a tool is looked for.
pub fn binary_candidates(cmd: &str) -> (r: Vec<String>)
    ensures
        r@.len() == 3,
        forall|i: int| 0 <= i < 3 ==> #[trigger] r@[i]@ == binary_candidates_spec(cmd@)[i],
{
    let mut local = string_from("./");
    push_str(&mut local, cmd);
    let mut exe = string_from("./");
    push_str(&mut exe, cmd);
    push_str(&mut exe, ".exe");
    let mut r: Vec<String> = Vec::new();
    r.push(string_from(cmd));
    r.push(local);
    r.push(exe);
    proof {
        reveal_strlit("./");
        reveal_strlit(".exe");
    }
    r
}

/// A path found for the candidate name `c`: it ends in the candidate's last
/// component, where the candidate has one.
pub open spec fn found_as(p: Seq<char>, c: Seq<char>) -> bool {
    file_name(c) is Some ==> file_name(p) == file_name(c)
}

/// The first of the lookup results that found something, in order; none
/// when none did.
pub open spec fn first_some(found: Seq<Option<String>>) -> Option<String>
    decreases found.len(),
{
    if found.len() == 0 {
        None
    } else if found[0] is Some {
        found[0]
    } else {
        first_some(found.drop_first())
    }
}

/// The first of the lookup results, in order, that found something.
pub fn first_found(found: Vec<Option<String>>) -> (r: Option<String>)
    ensures
        r == first_some(found@),
{
    let mut i: usize = 0;
    assert(found@.skip(0) =~= found@);
    while i < found.len()
        invariant
            0 <= i <= found@.len(),
            first_some(found@) == first_some(found@.skip(i as int)),
        decreases found@.len() - i,
    {
        assert(found@.skip(i as int).drop_first() =~= found@.skip(i + 1));
        if found[i].is_some() {
            return found[i].clone();
        }
        i = i + 1;
    }
    assert(found@.skip(i as int) =~= Seq::<Option<String>>::empty());
    None
}

/// Looks the tool up under each candidate name in turn, stopping at the
/// first that is found: the results in candidate order, every one but the
/// last a miss, and all three made unless one was found.
fn lookup_candidates(cmd: &str) -> (r: Vec<Option<String>>)
    ensures
        1 <= r@.len() <= 3,
        forall|i: int| 0 <= i < r@.len() - 1 ==> (#[trigger] r@[i]) is None,
        r@.len() < 3 ==> r@.last() is Some,
        forall|i: int|
            0 <= i < r@.len() ==> ((#[trigger] r@[i]) matches Some(p) ==> found_as(
                p@,
                binary_candidates_spec(cmd@)[i],
            )),
{
    let candidates = binary_candidates(cmd);
    let mut r: Vec<Option<String>> = Vec::new();
    let mut i: usize = 0;
    while i < candidates.len()
        invariant
            i <= candidates@.len(),
            candidates@.len() == 3,
            forall|k: int| 0 <= k < 3 ==> #[trigger] candidates@[k]@ == binary_candidates_spec(cmd@)[k],
            r@.len() == i,
            forall|k: int| 0 <= k < i ==> (#[trigger] r@[k]) is None,
        decreases candidates@.len() - i,
    {
        let found = which_path(candidates[i].as_str());
        let hit = found.is_some();
        r.push(found);
        if hit {
            assert(found_as(r@[i as int]->0@, binary_candidates_spec(cmd@)[i as int]));
            return r;
        }
        i = i + 1;
    }
    r
}

/// Where in `found` the first hit lies.
spec fn first_index(found: Seq<Option<String>>) -> int
    decreases found.len(),
{
    if found.len() == 0 || found[0] is Some {
        0
    } else {
        1 + first_index(found.drop_first())
    }
}

proof fn lemma_first_index(found: Seq<Option<String>>)
    ensures
        first_some(found) is Some ==> 0 <= first_index(found) < found.len() && found[first_index(found)]
            == first_some(found),
    decreases found.len(),
{
    if found.len() > 0 && found[0] is None {
        lemma_first_index(found.drop_first());
    }
}

/// The tool as the lookup finds it: the first candidate name, in order,
/// under which it is found, or none.
fn find_binary(cmd: &str) -> (r: Option<String>)
    ensures
        r matches Some(p) ==> exists|i: int|
            0 <= i < 3 && found_as(p@, #[trigger] binary_candidates_spec(cmd@)[i]),
{
    let found = lookup_candidates(cmd);
    proof {
        lemma_first_index(found@);
        if first_some(found@) is Some {
            let k = first_index(found@);
            assert(found_as(first_some(found@)->0@, binary_candidates_spec(cmd@)[k]));
        }
    }
    first_found(found)
}

impl DependenciesConfig {
    /// The ffprobe path needed to probe a file, or the name of the missing
    /// tool when none is set.
    pub fn required_ffprobe_path(&self) -> (r: Result<String, String>)
        ensures
            self.ffprobe_path matches Some(p) ==> r == Ok::<String, String>(p),
            self.ffprobe_path is None ==> (r matches Err(name) && name@ == "ffprobe"@),
    {
        match &self.ffprobe_path {
            Some(p) => Ok(p.clone()),
            None => Err(string_from("ffprobe")),
        }
    }
}

impl AppConfig {
    /// The metadata directory to use before it is made absolute: the one
    /// given, else `.mw_metadata` inside the archive directory.
    pub fn metadata_directory_or_default(&self) -> (r: String)
        ensures
            r@ == if self.metadata_directory@.len() == 0 {
                default_metadata_directory(self.directory@)
            } else {
                self.metadata_directory@
            },
    {
        if self.metadata_directory.as_str().is_empty() {
            path_join(self.directory.as_str(), ".mw_metadata")
        } else {
            self.metadata_directory.clone()
        }
    }

    /// A path relative to the archive directory, made absolute.
    pub fn directory_absolute(&self, rel: &str) -> (r: String)
        ensures
            r@ == join(self.directory@, rel@),
    {
        path_join(self.directory.as_str(), rel)
    }

    /// A path inside the archive directory, taken relative to it.
    pub fn directory_relative(&self, path: &str) -> (r: Result<String, ConfigError>)
        ensures
            r matches Ok(s) ==> relative_to(path@, self.directory@) == Some(s@),
            r is Err <==> relative_to(path@, self.directory@) is None,
            r matches Err(e) ==> e == ConfigError::OutsideDirectory,
    {
        match path_relative_to(path, self.directory.as_str()) {
            Some(s) => Ok(s),
            None => Err(ConfigError::OutsideDirectory),
        }
    }

    /// A path relative to the metadata directory, made absolute.
    pub fn metadata_directory_absolute(&self, rel: &str) -> (r: String)
        ensures
            r@ == join(self.metadata_directory@, rel@),
    {
        path_join(self.metadata_directory.as_str(), rel)
    }

    /// A path inside the metadata directory, taken relative to it.
    pub fn metadata_directory_relative(&self, path: &str) -> (r: Result<String, ConfigError>)
        ensures
            r matches Ok(s) ==> relative_to(path@, self.metadata_directory@) == Some(s@),
            r is Err <==> relative_to(path@, self.metadata_directory@) is None,
            r matches Err(e) ==> e == ConfigError::OutsideDirectory,
    {
        match path_relative_to(path, self.metadata_directory.as_str()) {
            Some(s) => Ok(s),
            None => Err(ConfigError::OutsideDirectory),
        }
    }
}

impl Config {
    /// The SQLite file in the metadata directory.
    pub fn db_path(&self) -> (r: String)
        ensures
            r@ == db_path_spec(self.app.metadata_directory@),
    {
        path_join(self.app.metadata_directory.as_str(), "db.sqlite3")
    }

    /// The URL of the database to connect to.
    pub fn database_url(&self) -> (r: String)
        ensures
            r@ == database_url_spec(*self),
    {
        match &self.database.url {
            Some(u) => u.clone(),
            None => string_from("sqlite::memory:"),
        }
    }

    /// Whether the secret key is long enough: 64 bytes of UTF-8 at least.
    pub fn check_secret_key(&self) -> (r: Result<(), ConfigError>)
        ensures
            r is Ok <==> vstd::utf8::encode_utf8(self.server.secret_key@).len() as usize >= 64,
            r matches Err(e) ==> e == ConfigError::ShortSecretKey,
    {
        if self.server.secret_key.as_str().len() >= 64 {
            Ok(())
        } else {
            Err(ConfigError::ShortSecretKey)
        }
    }

    /// Fills in what the settings leave open: the archive and metadata
    /// directories are made absolute (the metadata one defaulting to
    /// `.mw_metadata` inside the archive), and a missing ffprobe or ffmpeg
    /// path is looked up under its bare name (in `PATH`), then `./name`,
    /// then `./name.exe`, taking the first found (`lookup_candidates` and
    /// `first_found`). Fails when a directory cannot be made absolute.
    pub fn merge_defaults(&mut self) -> (r: Result<(), ConfigError>)
        ensures
            final(self).run == old(self).run,
            final(self).server == old(self).server,
            final(self).database == old(self).database,
            old(self).dependencies.ffprobe_path is Some ==> final(self).dependencies.ffprobe_path
                == old(self).dependencies.ffprobe_path,
            old(self).dependencies.ffmpeg_path is Some ==> final(self).dependencies.ffmpeg_path
                == old(self).dependencies.ffmpeg_path,
            r is Ok ==> (old(self).dependencies.ffprobe_path is None ==> (
            final(self).dependencies.ffprobe_path matches Some(p) ==> exists|i: int|
                0 <= i < 3 && found_as(p@, #[trigger] binary_candidates_spec("ffprobe"@)[i]))),
            r is Ok ==> (old(self).dependencies.ffmpeg_path is None ==> (
            final(self).dependencies.ffmpeg_path matches Some(p) ==> exists|i: int|
                0 <= i < 3 && found_as(p@, #[trigger] binary_candidates_spec("ffmpeg"@)[i]))),
            r is Ok ==> (is_absolute(old(self).app.directory@) ==> final(self).app.directory@ == old(
                self,
            ).app.directory@),
            r is Ok ==> (!home_relative(old(self).app.directory@) ==> is_absolute(
                final(self).app.directory@,
            )),
            r is Ok ==> (old(self).app.metadata_directory@.len() > 0 && is_absolute(
                old(self).app.metadata_directory@,
            ) ==> final(self).app.metadata_directory@ == old(self).app.metadata_directory@),
            r is Ok ==> (old(self).app.metadata_directory@.len() > 0 && !home_relative(
                old(self).app.metadata_directory@,
            ) ==> is_absolute(final(self).app.metadata_directory@)),
            r is Ok ==> (old(self).app.metadata_directory@.len() == 0 && is_absolute(
                final(self).app.directory@,
            ) ==> final(self).app.metadata_directory@ == default_metadata_directory(
                final(self).app.directory@,
            )),
            r is Ok ==> (old(self).app.metadata_directory@.len() == 0 && is_absolute(
                old(self).app.directory@,
            ) ==> final(self).app.metadata_directory@ == default_metadata_directory(
                old(self).app.directory@,
            )),
            r matches Err(e) ==> (e == ConfigError::UnresolvedDirectory || e
                == ConfigError::UnresolvedMetadataDirectory),
            r == Err::<(), ConfigError>(ConfigError::UnresolvedDirectory) ==> *final(self) == *old(
                self,
            ),
    {
        let directory = match resolve(self.app.directory.as_str()) {
            Some(d) => d,
            None => return Err(ConfigError::UnresolvedDirectory),
        };
        self.app.directory = directory;
        let to_resolve = self.app.metadata_directory_or_default();
        proof {
            reveal_strlit(".mw_metadata");
            if is_absolute(self.app.directory@) {
                lemma_join_absolute(self.app.directory@, ".mw_metadata"@);
            }
        }
        let metadata_directory = match resolve(to_resolve.as_str()) {
            Some(d) => d,
            None => return Err(ConfigError::UnresolvedMetadataDirectory),
        };
        self.app.metadata_directory = metadata_directory;
        if self.dependencies.ffprobe_path.is_none() {
            self.dependencies.ffprobe_path = find_binary("ffprobe");
        }
        if self.dependencies.ffmpeg_path.is_none() {
            self.dependencies.ffmpeg_path = find_binary("ffmpeg");
        }
        Ok(())
    }
}

/// Joining anything to an absolute directory gives an absolute path.
pub proof fn lemma_join_absolute(base: Seq<char>, p: Seq<char>)
    requires
        is_absolute(base),
    ensures
        is_absolute(join(base, p)),
{
}

/// `s` made of `/` characters only.
pub open spec fn all_slashes(s: Seq<char>) -> bool {
    forall|i: int| 0 <= i < s.len() ==> s[i] == '/'
}

proof fn lemma_dir_key_shape(base: Seq<char>)
    requires
        base.len() > 0,
    ensures
        dir_key(base).len() > 0,
        dir_key(base).len() <= base.len(),
        base.take(dir_key(base).len() as int) == dir_key(base),
        all_slashes(base.skip(dir_key(base).len() as int)),
        dir_key(base).len() > 1 ==> dir_key(base).last() != '/',
    decreases base.len(),
{
    if base.len() > 1 && base.last() == '/' {
        lemma_dir_key_shape(base.drop_last());
        let k = dir_key(base);
        assert(base.take(k.len() as int) =~= base.drop_last().take(k.len() as int));
        assert forall|i: int| 0 <= i < base.skip(k.len() as int).len() implies base.skip(
            k.len() as int,
        )[i] == '/' by {
            if k.len() + i < base.len() - 1 {
                assert(base.skip(k.len() as int)[i] == base.drop_last().skip(k.len() as int)[i]);
            }
        }
    } else {
        assert(base.take(base.len() as int) =~= base);
    }
}

proof fn lemma_strip_slashes(s: Seq<char>, r: Seq<char>)
    requires
        all_slashes(s),
        r.len() == 0 || r[0] != '/',
    ensures
        strip_leading_slashes(s + r) == r,
    decreases s.len(),
{
    if s.len() > 0 {
        assert((s + r).drop_first() =~= s.drop_first() + r);
        lemma_strip_slashes(s.drop_first(), r);
    } else {
        assert(s + r =~= r);
    }
}

/// Taking a joined path relative to its directory gives back the relative
/// path that was joined: `directory_relative` undoes `directory_absolute`
/// for every non-empty directory and every path that does not start at the
/// root.
pub proof fn lemma_relative_of_joined(base: Seq<char>, r: Seq<char>)
    requires
        base.len() > 0,
        r.len() == 0 || r[0] != '/',
    ensures
        relative_to(join(base, r), base) == Some(r),
{
    lemma_dir_key_shape(base);
    let k = dir_key(base);
    let p = join(base, r);
    let tail = base.skip(k.len() as int);
    if base.last() != '/' {
        // base has no trailing slash, so the key is base itself
        assert(tail.len() == 0) by {
            if tail.len() > 0 {
                assert(tail[tail.len() - 1] == base.last());
            }
        }
        assert(k =~= base);
        assert(p =~= base + seq!['/'] + r);
        assert(p != k);
        assert(p.take(k.len() as int) =~= k);
        assert(p[k.len() as int] == '/');
        assert(p.skip(k.len() as int) =~= seq!['/'] + r);
        lemma_strip_slashes(seq!['/'], r);
    } else {
        assert(p =~= base + r);
        assert(base =~= k + tail);
        assert(tail.len() > 0 || k.last() == '/') by {
            if tail.len() == 0 {
                assert(k =~= base);
            }
        }
        assert(p.take(k.len() as int) =~= k);
        assert(p.skip(k.len() as int) =~= tail + r);
        if tail.len() > 0 {
            assert(p[k.len() as int] == '/') by {
                assert(p[k.len() as int] == tail[0]);
            }
            assert(p.len() > k.len());
            assert(p != k);
            lemma_strip_slashes(tail, r);
        } else {
            // the key is the lone root `/`
            assert(k.len() == 1);
            if r.len() == 0 {
                assert(p =~= k);
                assert(strip_leading_slashes(Seq::<char>::empty()) == Seq::<char>::empty());
                assert(r =~= Seq::<char>::empty());
            } else {
                assert(p.len() > k.len());
                assert(p != k);
                lemma_strip_slashes(tail, r);
            }
        }
    }
}

} // verus!
