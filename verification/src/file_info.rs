//! What is recorded of a file's content: its SHA-512 hash in lowercase hex,
//! its media type, and its metadata as read back from the index.
use vstd::prelude::*;
use sha2::Digest;
use crate::config::{AppConfig, ConfigError};
use crate::paths::relative_to;
use crate::request::{crockford_char, new_ulid};
use crate::time::{
    Timestamp, chrono_instant, parse_db_date, rfc3339_text, spec_db_date, to_rfc3339,
};

verus! {

/// The SHA-512 digest of `data`, as `sha2::Sha512` computes it.
pub uninterp spec fn sha512_digest(data: Seq<u8>) -> Seq<u8>;

/// `sha2::Sha512::digest`: the 64-byte SHA-512 digest of `data`. Claimed:
/// the result is `sha512_digest` of the input and, as the digest's type
/// fixes, 64 bytes long.
#[verifier::external_body]
fn sha512(data: &[u8]) -> (r: Vec<u8>)
    ensures
        r@ == sha512_digest(data@),
        r@.len() == 64,
{
    sha2::Sha512::digest(data).to_vec()
}

/// The lowercase hexadecimal digit for `d < 16`.
pub open spec fn hex_digit(d: u8) -> char {
    if d < 10 {
        ((d as int) + ('0' as int)) as char
    } else {
        ((d as int) - 10 + ('a' as int)) as char
    }
}

/// Bytes written as lowercase hexadecimal, two digits each, high half
/// first (what `{:x}` prints for a digest).
pub open spec fn hex_lower(bytes: Seq<u8>) -> Seq<char>
    decreases bytes.len(),
{
    if bytes.len() == 0 {
        Seq::empty()
    } else {
        hex_lower(bytes.drop_last()) + seq![
            hex_digit(bytes.last() / 16),
            hex_digit(bytes.last() % 16),
        ]
    }
}

fn hex_char(d: u8) -> (c: char)
    requires
        d < 16,
    ensures
        c == hex_digit(d),
{
    if d < 10 {
        let b: u8 = d + 48;
        b as char
    } else {
        let b: u8 = d - 10 + 97;
        b as char
    }
}

/// The bytes in lowercase hexadecimal.
pub fn to_hex(bytes: &Vec<u8>) -> (r: String)
    ensures
        r@ == hex_lower(bytes@),
{
    let mut r = String::new();
    let mut i: usize = 0;
    while i < bytes.len()
        invariant
            0 <= i <= bytes@.len(),
            r@ == hex_lower(bytes@.take(i as int)),
        decreases bytes@.len() - i,
    {
        let b = bytes[i];
        crate::text::push_char(&mut r, hex_char(b / 16));
        crate::text::push_char(&mut r, hex_char(b % 16));
        assert(bytes@.take(i + 1).drop_last() =~= bytes@.take(i as int));
        i = i + 1;
    }
    assert(bytes@.take(bytes@.len() as int) =~= bytes@);
    r
}

proof fn lemma_hex_len(bytes: Seq<u8>)
    ensures
        hex_lower(bytes).len() == 2 * bytes.len(),
    decreases bytes.len(),
{
    if bytes.len() > 0 {
        lemma_hex_len(bytes.drop_last());
    }
}

/// The content hash recorded for a file: its SHA-512 digest in lowercase
/// hexadecimal, 128 characters.
pub fn file_hash(data: &[u8]) -> (r: String)
    ensures
        r@ == hex_lower(sha512_digest(data@)),
        r@.len() == 128,
{
    let digest = sha512(data);
    proof {
        lemma_hex_len(digest@);
    }
    to_hex(&digest)
}

/// The media type `infer::get` finds for the leading bytes `buf`.
pub uninterp spec fn infer_mime(buf: Seq<u8>) -> Option<Seq<char>>;

/// The media type `file_format::FileFormat::from_reader` gives for a file
/// with content `data`.
pub uninterp spec fn detected_media_type(data: Seq<u8>) -> Seq<char>;

/// `infer::get` followed by `Type::mime_type`. Claimed: the result is
/// `infer_mime` of the input.
#[verifier::external_body]
fn infer_get(buf: &[u8]) -> (r: Option<String>)
    ensures
        r is Some <==> infer_mime(buf@) is Some,
        r matches Some(s) ==> infer_mime(buf@) == Some(s@),
{
    match infer::get(buf) {
        Some(t) => Some(t.mime_type().to_string()),
        None => None,
    }
}

/// `file_format::FileFormat::from_reader` over the content, followed by
/// `FileFormat::media_type`. Claimed: it gives `detected_media_type` of the
/// content, and always gives a type: `from_reader` fails only when the
/// reader does, and reading from memory does not fail.
#[verifier::external_body]
fn detect_media_type(data: &[u8]) -> (r: Option<String>)
    ensures
        r is Some,
        r matches Some(s) ==> s@ == detected_media_type(data@),
{
    match file_format::FileFormat::from_reader(std::io::Cursor::new(data)) {
        Ok(f) => Some(f.media_type().to_string()),
        Err(_) => None,
    }
}

/// How many leading bytes `infer` looks at.
pub const INFER_PREFIX_LEN: usize = 8192;

/// No media type could be determined.
#[derive(Clone, Copy, Debug, PartialEq, Eq, Structural)]
pub struct UnknownFileType;

/// The first type found: the sniffed one, else the detected one.
pub fn pick_file_type(sniffed: Option<String>, detected: Option<String>) -> (r: Result<
    String,
    UnknownFileType,
>)
    ensures
        sniffed matches Some(s) ==> r == Ok::<String, UnknownFileType>(s),
        sniffed is None ==> (detected matches Some(d) ==> r == Ok::<String, UnknownFileType>(d)),
        sniffed is None && detected is None ==> r == Err::<String, UnknownFileType>(UnknownFileType),
{
    match sniffed {
        Some(s) => Ok(s),
        None => match detected {
            Some(d) => Ok(d),
            None => Err(UnknownFileType),
        },
    }
}

/// The first `n` bytes of `data`, or all of it when shorter.
fn prefix(data: &[u8], n: usize) -> (r: Vec<u8>)
    ensures
        r@ == data@.take(if data@.len() < n { data@.len() as int } else { n as int }),
{
    let m = if data.len() < n { data.len() } else { n };
    let mut r: Vec<u8> = Vec::new();
    let mut i: usize = 0;
    while i < m
        invariant
            0 <= i <= m <= data@.len(),
            r@ == data@.take(i as int),
        decreases m - i,
    {
        r.push(data[i]);
        assert(data@.take(i + 1) =~= data@.take(i as int).push(data@[i as int]));
        i = i + 1;
    }
    r
}

/// The media type of a file with content `data`: what `infer` sniffs from
/// the first 8192 bytes, else what `file_format` detects.
pub open spec fn file_type_spec(data: Seq<u8>) -> Option<Seq<char>> {
    let head = data.take(if data.len() < 8192 { data.len() as int } else { 8192 });
    match infer_mime(head) {
        Some(m) => Some(m),
        None => Some(detected_media_type(data)),
    }
}

/// The media type recorded for a file with content `data`.
pub fn infer_file_type(data: &[u8]) -> (r: Result<String, UnknownFileType>)
    ensures
        r is Ok,
        r matches Ok(s) ==> file_type_spec(data@) == Some(s@),
{
    let head = prefix(data, INFER_PREFIX_LEN);
    let sniffed = infer_get(head.as_slice());
    let detected = if sniffed.is_none() {
        detect_media_type(data)
    } else {
        None
    };
    pick_file_type(sniffed, detected)
}

/// A new file row, ready to be stored: the path relative to the archive,
/// the content hash, a fresh id, and what is known of the file.
#[derive(Clone, Debug)]
pub struct NewFileRecord {
    pub path: String,
    pub hash: String,
    pub ulid: String,
    pub file_type: Option<String>,
    pub file_size: Option<i64>,
    pub file_ctime: Option<String>,
    pub file_mtime: Option<String>,
}

/// A stored date as text, absent when the date is.
pub open spec fn stored_date_text(t: Option<Timestamp>) -> Option<Seq<char>> {
    match t {
        Some(t) => Some(rfc3339_text(t)),
        None => None,
    }
}

/// A date as the index stores it: RFC 3339 text, absent when the date is.
pub fn date_text(t: Option<Timestamp>) -> (r: Option<String>)
    requires
        t matches Some(d) ==> chrono_instant(d),
    ensures
        crate::page_data::opt_text(r) == stored_date_text(t),
        stored_date(r) == t,
{
    match t {
        Some(d) => Some(to_rfc3339(d)),
        None => None,
    }
}

/// The row recorded for the file at `path` inside the archive, with content
/// `data`, `size` bytes long, and the creation and modification dates the
/// file system gave. Fails when the path lies outside the archive.
pub fn describe_new_file(
    app: &AppConfig,
    path: &str,
    data: &[u8],
    size: u64,
    created: Option<Timestamp>,
    modified: Option<Timestamp>,
) -> (r: Result<NewFileRecord, ConfigError>)
    requires
        created matches Some(t) ==> chrono_instant(t),
        modified matches Some(t) ==> chrono_instant(t),
    ensures
        r is Err <==> relative_to(path@, app.directory@) is None,
        r matches Err(e) ==> e == ConfigError::OutsideDirectory,
        r matches Ok(f) ==> {
            &&& relative_to(path@, app.directory@) == Some(f.path@)
            &&& f.hash@ == hex_lower(sha512_digest(data@))
            &&& f.ulid@.len() == 26
            &&& forall|i: int| 0 <= i < 26 ==> crockford_char(#[trigger] f.ulid@[i])
            &&& crate::page_data::opt_text(f.file_type) == file_type_spec(data@)
            &&& f.file_size == if size <= i64::MAX as u64 { Some(size as i64) } else { None::<i64> }
            &&& crate::page_data::opt_text(f.file_ctime) == stored_date_text(created)
            &&& crate::page_data::opt_text(f.file_mtime) == stored_date_text(modified)
        },
        r matches Ok(f) ==> stored_date(f.file_ctime) == created,
        r matches Ok(f) ==> stored_date(f.file_mtime) == modified,
{
    let rel = match app.directory_relative(path) {
        Ok(p) => p,
        Err(e) => return Err(e),
    };
    let hash = file_hash(data);
    let file_type = match infer_file_type(data) {
        Ok(t) => Some(t),
        Err(_) => None,
    };
    let file_size = if size <= i64::MAX as u64 {
        Some(size as i64)
    } else {
        None
    };
    Ok(NewFileRecord {
        path: rel,
        hash,
        ulid: new_ulid(),
        file_type,
        file_size,
        file_ctime: date_text(created),
        file_mtime: date_text(modified),
    })
}

/// A file's metadata row as the index stores it: dates as text.
#[derive(Clone, Debug)]
pub struct FileMetadataRecord {
    pub file_id: i32,
    pub file_type: Option<String>,
    pub file_size: Option<i64>,
    pub file_ctime: Option<String>,
    pub file_mtime: Option<String>,
}

/// A file's metadata with its dates read.
#[derive(Clone, Debug)]
pub struct FileMetadata {
    pub file_id: i32,
    pub file_type: Option<String>,
    pub size: Option<i64>,
    pub created: Option<Timestamp>,
    pub modified: Option<Timestamp>,
}

/// A stored date read back; dates that cannot be read count as absent.
pub open spec fn stored_date(s: Option<String>) -> Option<Timestamp> {
    match s {
        Some(t) => spec_db_date(t@),
        None => None,
    }
}

fn read_stored_date(s: &Option<String>) -> (r: Option<Timestamp>)
    ensures
        r == stored_date(*s),
{
    match s {
        Some(t) => match parse_db_date(t.as_str()) {
            Ok(d) => Some(d),
            Err(_) => None,
        },
        None => None,
    }
}

impl From<FileMetadataRecord> for FileMetadata {
    fn from(meta: FileMetadataRecord) -> (r: Self) {
        let created = read_stored_date(&meta.file_ctime);
        let modified = read_stored_date(&meta.file_mtime);
        FileMetadata {
            file_id: meta.file_id,
            file_type: meta.file_type,
            size: meta.file_size,
            created,
            modified,
        }
    }
}

impl vstd::std_specs::convert::FromSpecImpl<FileMetadataRecord> for FileMetadata {
    open spec fn obeys_from_spec() -> bool {
        true
    }

    open spec fn from_spec(meta: FileMetadataRecord) -> Self {
        FileMetadata {
            file_id: meta.file_id,
            file_type: meta.file_type,
            size: meta.file_size,
            created: stored_date(meta.file_ctime),
            modified: stored_date(meta.file_mtime),
        }
    }
}

} // verus!
