//! Content-addressed artifacts: their kinds, how they are stored, their
//! records, and the names under which they are downloaded.

use vstd::prelude::*;
use vstd::utf8::encode_utf8;
use crate::api::ApiError;
use crate::domain::{is_sha256_hex, str_eq};
use crate::ids::{uuid_from_text, uuid_reading, uuid_text, uuid_to_text};
use crate::text::{chars_of, debug_quoted, is_whitespace, push_char, quote_debug, string_of_chars};

verus! {

broadcast use vstd::string::group_string_axioms;

/// The kinds of files kept as content-addressed artifacts.
#[derive(Debug, Clone, Copy, PartialEq, Eq, Structural)]
pub enum ArtifactKind {
    Prompt,
    Stdout,
    Stderr,
    Output,
    CrashLog,
    Logcat,
    CorrectnessReport,
}

impl ArtifactKind {
    /// The stable textual form.
    pub open spec fn text(self) -> Seq<char> {
        match self {
            ArtifactKind::Prompt => "prompt"@,
            ArtifactKind::Stdout => "stdout"@,
            ArtifactKind::Stderr => "stderr"@,
            ArtifactKind::Output => "output"@,
            ArtifactKind::CrashLog => "crash_log"@,
            ArtifactKind::Logcat => "logcat"@,
            ArtifactKind::CorrectnessReport => "correctness_report"@,
        }
    }

    /// The kind whose textual form is `s`, if any.
    pub open spec fn from_text(s: Seq<char>) -> Option<ArtifactKind> {
        if s == "prompt"@ {
            Some(ArtifactKind::Prompt)
        } else if s == "stdout"@ {
            Some(ArtifactKind::Stdout)
        } else if s == "stderr"@ {
            Some(ArtifactKind::Stderr)
        } else if s == "output"@ {
            Some(ArtifactKind::Output)
        } else if s == "crash_log"@ {
            Some(ArtifactKind::CrashLog)
        } else if s == "logcat"@ {
            Some(ArtifactKind::Logcat)
        } else if s == "correctness_report"@ {
            Some(ArtifactKind::CorrectnessReport)
        } else {
            None
        }
    }

    /// Log-shaped kinds are stored Zstandard-compressed; prompts and
    /// outputs are kept exactly, uncompressed.
    pub open spec fn is_compressed(self) -> bool {
        !(self == ArtifactKind::Prompt || self == ArtifactKind::Output)
    }

    pub fn as_str(self) -> (s: &'static str)
        ensures
            s@ == self.text(),
    {
        match self {
            ArtifactKind::Prompt => "prompt",
            ArtifactKind::Stdout => "stdout",
            ArtifactKind::Stderr => "stderr",
            ArtifactKind::Output => "output",
            ArtifactKind::CrashLog => "crash_log",
            ArtifactKind::Logcat => "logcat",
            ArtifactKind::CorrectnessReport => "correctness_report",
        }
    }

    /// Whether content of this kind is stored compressed.
    pub fn compresses(self) -> (c: bool)
        ensures
            c == self.is_compressed(),
    {
        match self {
            ArtifactKind::Prompt | ArtifactKind::Output => false,
            _ => true,
        }
    }

    /// Reads the stable textual form; anything else is refused with
    /// `invalid artifact kind: <value quoted>`.
    pub fn parse(value: &str) -> (r: Result<ArtifactKind, ArtifactStoreError>)
        ensures
            match r {
                Ok(k) => Self::from_text(value@) == Some(k),
                Err(e) => Self::from_text(value@) is None && e == ArtifactStoreError::Other(
                    e->Other_0,
                ) && e->Other_0@ == "invalid artifact kind: "@ + debug_quoted(value@),
            },
    {
        if str_eq(value, "prompt") {
            Ok(ArtifactKind::Prompt)
        } else if str_eq(value, "stdout") {
            Ok(ArtifactKind::Stdout)
        } else if str_eq(value, "stderr") {
            Ok(ArtifactKind::Stderr)
        } else if str_eq(value, "output") {
            Ok(ArtifactKind::Output)
        } else if str_eq(value, "crash_log") {
            Ok(ArtifactKind::CrashLog)
        } else if str_eq(value, "logcat") {
            Ok(ArtifactKind::Logcat)
        } else if str_eq(value, "correctness_report") {
            Ok(ArtifactKind::CorrectnessReport)
        } else {
            Err(ArtifactStoreError::Other(quoted("invalid artifact kind: ", value)))
        }
    }
}

fn quoted(prefix: &str, value: &str) -> (m: String)
    ensures
        m@ == prefix@ + debug_quoted(value@),
{
    let mut m = String::from_str(prefix);
    let q = quote_debug(value);
    m.append(q.as_str());
    m
}

/// How stored bytes relate to an artifact's content: the content itself,
/// or its Zstandard encoding.
#[derive(Debug, Clone, Copy, PartialEq, Eq, Structural)]
pub enum Compression {
    Uncompressed,
    Zstd,
}

impl Compression {
    pub open spec fn text(self) -> Seq<char> {
        match self {
            Compression::Uncompressed => "none"@,
            Compression::Zstd => "zstd"@,
        }
    }

    pub open spec fn from_text(s: Seq<char>) -> Option<Compression> {
        if s == "none"@ {
            Some(Compression::Uncompressed)
        } else if s == "zstd"@ {
            Some(Compression::Zstd)
        } else {
            None
        }
    }

    pub fn as_str(self) -> (s: &'static str)
        ensures
            s@ == self.text(),
    {
        match self {
            Compression::Uncompressed => "none",
            Compression::Zstd => "zstd",
        }
    }

    /// Reads the stable textual form; anything else is refused with
    /// `invalid compression mode: <value quoted>`.
    pub fn parse(value: &str) -> (r: Result<Compression, ArtifactStoreError>)
        ensures
            match r {
                Ok(c) => Self::from_text(value@) == Some(c),
                Err(e) => Self::from_text(value@) is None && e is Other && e->Other_0@
                    == "invalid compression mode: "@ + debug_quoted(value@),
            },
    {
        if str_eq(value, "none") {
            Ok(Compression::Uncompressed)
        } else if str_eq(value, "zstd") {
            Ok(Compression::Zstd)
        } else {
            Err(ArtifactStoreError::Other(quoted("invalid compression mode: ", value)))
        }
    }

    /// How content of `kind` is stored.
    pub fn for_kind(kind: ArtifactKind) -> (c: Compression)
        ensures
            c == (if kind.is_compressed() {
                Compression::Zstd
            } else {
                Compression::Uncompressed
            }),
    {
        if kind.compresses() {
            Compression::Zstd
        } else {
            Compression::Uncompressed
        }
    }
}

/// A failure storing or reading an artifact.
#[derive(Debug)]
pub enum ArtifactStoreError {
    /// A filesystem failure, by its message.
    Io(String),
    /// A database failure, by its message.
    Db(String),
    /// The record exists but its content-addressed file is absent.
    FileMissing,
    Other(String),
}

impl ArtifactStoreError {
    /// The error's message.
    pub fn message(&self) -> (m: String)
        ensures
            m@ == match self {
                ArtifactStoreError::Io(e) => "artifact filesystem error: "@ + e@,
                ArtifactStoreError::Db(e) => "artifact database error: "@ + e@,
                ArtifactStoreError::FileMissing => "artifact record exists but its file is missing on disk"@,
                ArtifactStoreError::Other(e) => e@,
            },
    {
        match self {
            ArtifactStoreError::Io(e) => {
                let mut m = String::from_str("artifact filesystem error: ");
                m.append(e.as_str());
                m
            },
            ArtifactStoreError::Db(e) => {
                let mut m = String::from_str("artifact database error: ");
                m.append(e.as_str());
                m
            },
            ArtifactStoreError::FileMissing => String::from_str(
                "artifact record exists but its file is missing on disk",
            ),
            ArtifactStoreError::Other(e) => e.clone(),
        }
    }
}

/// The API answer to a storage failure: refused content as
/// `invalid_request`, a missing file as `artifact_file_missing`, anything
/// else as an internal error.
pub fn store_error_response(err: ArtifactStoreError) -> (e: ApiError)
    ensures
        e@ == match err {
            ArtifactStoreError::Other(m) => crate::api::api_error(400, "invalid_request"@, m@),
            ArtifactStoreError::FileMissing => crate::api::api_error(
                410,
                "artifact_file_missing"@,
                "artifact file is missing on disk"@,
            ),
            _ => crate::api::api_error(500, "internal_error"@, "internal storage error"@),
        },
{
    match err {
        ArtifactStoreError::Other(m) => ApiError::invalid_request(m),
        ArtifactStoreError::FileMissing => ApiError::artifact_file_missing(
            String::from_str("artifact file is missing on disk"),
        ),
        _ => ApiError::internal(String::from_str("internal storage error")),
    }
}

/// The storage path of content with digest `sha256`, relative to the
/// artifact root: `sha256/<first two digits>/<digest>`. It depends on the
/// content alone, never on request data.
pub open spec fn relative_path(sha256: Seq<char>) -> Seq<char> {
    "sha256/"@ + sha256.take(2) + "/"@ + sha256
}

/// The relative storage path of content with a given digest.
pub fn relative_path_for(sha256: &str) -> (p: String)
    requires
        is_sha256_hex(sha256@),
    ensures
        p@ == relative_path(sha256@),
{
    let cs = chars_of(sha256);
    let mut p = String::from_str("sha256/");
    let head = string_of_chars(&cs, 0, 2);
    p.append(head.as_str());
    push_char(&mut p, '/');
    p.append(sha256);
    proof {
        reveal_strlit("/");
    }
    assert(p@ =~= relative_path(sha256@));
    p
}

/// An artifact after storing: its id, the digest and size of its content,
/// where it is stored and how.
#[derive(Debug)]
pub struct StoredArtifact {
    pub id: u128,
    pub sha256: String,
    pub size_bytes: i64,
    pub storage_path: String,
    pub compression: Compression,
}

/// What storing content of `kind` with a digest and size records.
pub fn stored_artifact(id: u128, kind: ArtifactKind, sha256: String, size_bytes: i64) -> (s: StoredArtifact)
    requires
        is_sha256_hex(sha256@),
    ensures
        s.id == id,
        s.sha256@ == sha256@,
        s.size_bytes == size_bytes,
        s.storage_path@ == relative_path(sha256@),
        s.compression == (if kind.is_compressed() {
            Compression::Zstd
        } else {
            Compression::Uncompressed
        }),
{
    let storage_path = relative_path_for(sha256.as_str());
    StoredArtifact { id, sha256, size_bytes, storage_path, compression: Compression::for_kind(kind) }
}

/// An artifact row as the database returns it.
#[derive(Debug)]
pub struct ArtifactRow {
    pub id: String,
    pub sha256: String,
    pub size_bytes: i64,
    pub kind: String,
    pub original_filename: Option<String>,
    pub storage_path: String,
    pub media_type: Option<String>,
    pub compression: String,
    pub created_at: String,
}

/// An artifact's record, read back.
#[derive(Debug)]
pub struct ArtifactRecord {
    pub id: u128,
    pub sha256: String,
    pub size_bytes: i64,
    pub kind: ArtifactKind,
    pub original_filename: Option<String>,
    pub storage_path: String,
    pub media_type: Option<String>,
    pub compression: Compression,
    pub created_at: String,
}

/// The first inconsistency reading an artifact row: id, kind, compression.
pub open spec fn artifact_row_violation(row: ArtifactRow) -> Option<Seq<char>> {
    if uuid_reading(row.id@) is Err {
        Some("invalid artifact id: "@ + uuid_reading(row.id@)->Err_0)
    } else if ArtifactKind::from_text(row.kind@) is None {
        Some("invalid artifact kind: "@ + debug_quoted(row.kind@))
    } else if Compression::from_text(row.compression@) is None {
        Some("invalid compression mode: "@ + debug_quoted(row.compression@))
    } else {
        None
    }
}

/// Reads an artifact row, refusing (as `Other`) the first inconsistency.
pub fn record_from_row(row: ArtifactRow) -> (r: Result<ArtifactRecord, ArtifactStoreError>)
    ensures
        match r {
            Ok(rec) => {
                &&& artifact_row_violation(row) is None
                &&& uuid_reading(row.id@) == Ok::<u128, Seq<char>>(rec.id)
                &&& rec.sha256 == row.sha256
                &&& rec.size_bytes == row.size_bytes
                &&& ArtifactKind::from_text(row.kind@) == Some(rec.kind)
                &&& rec.original_filename == row.original_filename
                &&& rec.storage_path == row.storage_path
                &&& rec.media_type == row.media_type
                &&& Compression::from_text(row.compression@) == Some(rec.compression)
                &&& rec.created_at == row.created_at
            },
            Err(e) => e is Other && artifact_row_violation(row) == Some(e->Other_0@),
        },
{
    let id = match uuid_from_text(row.id.as_str()) {
        Ok(id) => id,
        Err(e) => {
            let mut m = String::from_str("invalid artifact id: ");
            m.append(e.as_str());
            return Err(ArtifactStoreError::Other(m));
        },
    };
    let kind = ArtifactKind::parse(row.kind.as_str())?;
    let compression = Compression::parse(row.compression.as_str())?;
    Ok(
        ArtifactRecord {
            id,
            sha256: row.sha256,
            size_bytes: row.size_bytes,
            kind,
            original_filename: row.original_filename,
            storage_path: row.storage_path,
            media_type: row.media_type,
            compression,
            created_at: row.created_at,
        },
    )
}

/// Where an artifact's content and download are served.
pub fn artifact_urls(id: u128) -> (r: (String, String))
    ensures
        r.0@ == "/api/v1/artifacts/"@ + uuid_text(id) + "/content"@,
        r.1@ == "/api/v1/artifacts/"@ + uuid_text(id) + "/download"@,
{
    let t = uuid_to_text(id);
    let mut content = String::from_str("/api/v1/artifacts/");
    content.append(t.as_str());
    content.append("/content");
    let mut download = String::from_str("/api/v1/artifacts/");
    download.append(t.as_str());
    download.append("/download");
    (content, download)
}

/// What `Path::new(s).file_name()` gives, as text: the last component of
/// the path, or `None` when it has none (such as a path ending in `..`).
pub uninterp spec fn path_file_name(s: Seq<char>) -> Option<Seq<char>>;

/// `Path::new(name).file_name()` as a string (a component of a `str` is
/// valid UTF-8, so `to_str` always succeeds on it).
#[verifier::external_body]
pub(crate) fn file_name_of(name: &str) -> (r: Option<String>)
    ensures
        match r {
            Some(s) => path_file_name(name@) == Some(s@),
            None => path_file_name(name@) is None,
        },
{
    std::path::Path::new(name).file_name().and_then(|n| n.to_str()).map(|n| n.to_string())
}

/// The name an artifact downloads under: the last component of its
/// recorded name, else `<kind>-<first 12 digest digits>.bin`.
pub open spec fn basename_of(kind: ArtifactKind, sha256: Seq<char>, original: Option<Seq<char>>) -> Seq<char> {
    let given = match original {
        Some(n) => path_file_name(n),
        None => None,
    };
    if given is Some && given->0.len() > 0 {
        given->0
    } else {
        kind.text() + "-"@ + sha256.take(12) + ".bin"@
    }
}

/// The first 12 characters of a digest text are ASCII.
pub open spec fn ascii_head(sha256: Seq<char>) -> bool {
    sha256.len() >= 12 && forall|i: int| 0 <= i < 12 ==> (#[trigger] sha256[i] as u32) < 128
}

/// The name an artifact downloads under, without any directory part.
pub fn download_basename(record: &ArtifactRecord) -> (n: String)
    requires
        ascii_head(record.sha256@),
    ensures
        n@ == basename_of(
            record.kind,
            record.sha256@,
            match record.original_filename {
                Some(s) => Some(s@),
                None => None,
            },
        ),
{
    let given = match &record.original_filename {
        Some(name) => file_name_of(name.as_str()),
        None => None,
    };
    match given {
        Some(n) => {
            if !n.as_str().is_empty() {
                return n;
            }
        },
        None => {},
    }
    let cs = chars_of(record.sha256.as_str());
    let head = string_of_chars(&cs, 0, 12);
    let mut m = String::from_str(record.kind.as_str());
    m.append("-");
    m.append(head.as_str());
    m.append(".bin");
    assert(m@ =~= record.kind.text() + "-"@ + record.sha256@.take(12) + ".bin"@);
    m
}

/// A character kept in an ASCII download name: printable ASCII or space,
/// except `"`, `\` and `;`.
pub open spec fn safe_char(c: char) -> bool {
    (('!' <= c && c <= '~') || c == ' ') && c != '"' && c != '\\' && c != ';'
}

/// The name with every unsafe character replaced by `_`.
pub open spec fn sanitized(s: Seq<char>) -> Seq<char> {
    s.map_values(|c: char| if safe_char(c) { c } else { '_' })
}

/// Whether `c` is trimmed: whitespace, or `_` when `underscore`.
pub open spec fn trimmed_char(underscore: bool, c: char) -> bool {
    if underscore {
        c == '_'
    } else {
        is_whitespace(c)
    }
}

/// The number of leading trimmed characters of `s`.
pub open spec fn lead(s: Seq<char>, underscore: bool) -> nat
    decreases s.len(),
{
    if s.len() > 0 && trimmed_char(underscore, s[0]) {
        1 + lead(s.drop_first(), underscore)
    } else {
        0
    }
}

/// The number of trailing trimmed characters of `s`.
pub open spec fn trail(s: Seq<char>, underscore: bool) -> nat
    decreases s.len(),
{
    if s.len() > 0 && trimmed_char(underscore, s.last()) {
        1 + trail(s.drop_last(), underscore)
    } else {
        0
    }
}

/// `s` with its leading and trailing trimmed characters removed
/// (`trim_matches('_')`, or `trim()`).
pub open spec fn trimmed(s: Seq<char>, underscore: bool) -> Seq<char> {
    let t = s.skip(lead(s, underscore) as int);
    t.take(t.len() - trail(t, underscore))
}

proof fn lemma_lead(s: Seq<char>, underscore: bool, i: int)
    requires
        0 <= i <= s.len(),
        forall|j: int| 0 <= j < i ==> trimmed_char(underscore, #[trigger] s[j]),
        i == s.len() || !trimmed_char(underscore, s[i]),
    ensures
        lead(s, underscore) == i,
    decreases i,
{
    if i > 0 {
        lemma_lead(s.drop_first(), underscore, i - 1);
    }
}

proof fn lemma_trail(s: Seq<char>, underscore: bool, i: int)
    requires
        0 <= i <= s.len(),
        forall|j: int| s.len() - i <= j < s.len() ==> trimmed_char(underscore, #[trigger] s[j]),
        i == s.len() || !trimmed_char(underscore, s[s.len() - i - 1]),
    ensures
        trail(s, underscore) == i,
    decreases i,
{
    if i > 0 {
        lemma_trail(s.drop_last(), underscore, i - 1);
    }
}

fn is_trimmed(underscore: bool, c: char) -> (r: bool)
    ensures
        r == trimmed_char(underscore, c),
{
    if underscore {
        c == '_'
    } else {
        crate::text::char_is_whitespace(c)
    }
}

/// `s` with leading and trailing trimmed characters removed.
fn trim_chars(s: &Vec<char>, underscore: bool) -> (t: Vec<char>)
    ensures
        t@ == trimmed(s@, underscore),
{
    let mut a: usize = 0;
    while a < s.len() && is_trimmed(underscore, s[a])
        invariant
            a <= s.len(),
            forall|j: int| 0 <= j < a ==> trimmed_char(underscore, #[trigger] s@[j]),
        decreases s.len() - a,
    {
        a = a + 1;
    }
    proof {
        lemma_lead(s@, underscore, a as int);
    }
    let ghost t = s@.skip(a as int);
    let mut b: usize = 0;
    while b < s.len() - a && is_trimmed(underscore, s[s.len() - 1 - b])
        invariant
            a <= s.len(),
            t == s@.skip(a as int),
            b <= s.len() - a,
            forall|j: int| t.len() - b <= j < t.len() ==> trimmed_char(underscore, #[trigger] t[j]),
        decreases s.len() - a - b,
    {
        assert(t[t.len() - b - 1] == s@[s.len() - 1 - b]);
        b = b + 1;
    }
    proof {
        if b < t.len() {
            assert(t[t.len() - b - 1] == s@[s.len() - 1 - b]);
        }
        lemma_trail(t, underscore, b as int);
    }
    let mut out: Vec<char> = Vec::new();
    let mut k: usize = a;
    while k < s.len() - b
        invariant
            a <= k <= s.len() - b,
            out@ == s@.subrange(a as int, k as int),
        decreases s.len() - b - k,
    {
        out.push(s[k]);
        assert(s@.subrange(a as int, k + 1) =~= s@.subrange(a as int, k as int).push(s@[k as int]));
        k = k + 1;
    }
    assert(out@ =~= trimmed(s@, underscore));
    out
}

/// The ASCII download name: the name sanitized, unless nothing but `_` and
/// whitespace would be left, in which case `download.bin`.
pub open spec fn ascii_name(s: Seq<char>) -> Seq<char> {
    if trimmed(trimmed(sanitized(s), true), false).len() == 0 {
        "download.bin"@
    } else {
        sanitized(s)
    }
}

/// A plain-ASCII form of a download name for `Content-Disposition`.
pub fn ascii_filename(name: &str) -> (a: String)
    ensures
        a@ == ascii_name(name@),
{
    let cs = chars_of(name);
    let mut san: Vec<char> = Vec::new();
    let mut i: usize = 0;
    while i < cs.len()
        invariant
            cs@ == name@,
            i <= cs.len(),
            san@ == sanitized(name@).take(i as int),
        decreases cs.len() - i,
    {
        let c = cs[i];
        let keep = (('!' <= c && c <= '~') || c == ' ') && c != '"' && c != '\\' && c != ';';
        san.push(if keep { c } else { '_' });
        assert(san@ =~= sanitized(name@).take(i + 1));
        i = i + 1;
    }
    assert(san@ =~= sanitized(name@));
    let t1 = trim_chars(&san, true);
    let t2 = trim_chars(&t1, false);
    if t2.len() == 0 {
        String::from_str("download.bin")
    } else {
        string_of_chars(&san, 0, san.len())
    }
}

/// An unreserved byte, kept as is by percent-encoding.
pub open spec fn unreserved(b: u8) -> bool {
    (48 <= b && b <= 57) || (65 <= b && b <= 90) || (97 <= b && b <= 122) || b == 45 || b == 46 || b == 95
        || b == 126
}

/// The uppercase hexadecimal digit of a nibble.
pub open spec fn upper_hex(n: u8) -> char {
    if n < 10 {
        (48 + n) as char
    } else {
        (55 + n) as char
    }
}

/// The percent-encoding of bytes: unreserved bytes as themselves, every
/// other byte as `%` and two uppercase hexadecimal digits.
pub open spec fn percent_encoded(bytes: Seq<u8>) -> Seq<char>
    decreases bytes.len(),
{
    if bytes.len() == 0 {
        Seq::empty()
    } else {
        let b = bytes.last();
        percent_encoded(bytes.drop_last()) + if unreserved(b) {
            seq![b as char]
        } else {
            seq!['%', upper_hex(b / 16), upper_hex(b % 16)]
        }
    }
}

/// The percent-encoding of a name's UTF-8 bytes.
pub fn percent_encode_utf8(name: &str) -> (e: String)
    ensures
        e@ == percent_encoded(encode_utf8(name@)),
{
    let bytes = name.as_bytes();
    let mut e = String::new();
    let mut i: usize = 0;
    while i < bytes.len()
        invariant
            bytes@ == encode_utf8(name@),
            i <= bytes.len(),
            e@ == percent_encoded(bytes@.take(i as int)),
        decreases bytes.len() - i,
    {
        let b = bytes[i];
        let ghost before = e@;
        if (48 <= b && b <= 57) || (65 <= b && b <= 90) || (97 <= b && b <= 122) || b == 45 || b == 46 || b
            == 95 || b == 126 {
            push_char(&mut e, b as char);
        } else {
            let hi = b / 16;
            let lo = b % 16;
            push_char(&mut e, '%');
            push_char(&mut e, if hi < 10 { (48 + hi) as char } else { (55 + hi) as char });
            push_char(&mut e, if lo < 10 { (48 + lo) as char } else { (55 + lo) as char });
        }
        assert(bytes@.take(i + 1).drop_last() =~= bytes@.take(i as int));
        assert(e@ =~= percent_encoded(bytes@.take(i + 1)));
        i = i + 1;
    }
    assert(bytes@.take(bytes@.len() as int) =~= bytes@);
    e
}

/// The `Content-Disposition` of a download: an attachment named by its
/// ASCII name, plus the percent-encoded UTF-8 name when the two differ.
pub open spec fn disposition_of(original: Seq<char>) -> Seq<char> {
    let ascii = ascii_name(original);
    if ascii == original {
        "attachment; filename=\""@ + ascii + "\""@
    } else {
        "attachment; filename=\""@ + ascii + "\"; filename*=UTF-8''"@ + percent_encoded(
            encode_utf8(original),
        )
    }
}

/// The `Content-Disposition` header of an artifact's download.
pub fn content_disposition(record: &ArtifactRecord) -> (d: String)
    requires
        ascii_head(record.sha256@),
    ensures
        d@ == disposition_of(
            basename_of(
                record.kind,
                record.sha256@,
                match record.original_filename {
                    Some(s) => Some(s@),
                    None => None,
                },
            ),
        ),
{
    let original = download_basename(record);
    let ascii = ascii_filename(original.as_str());
    let mut d = String::from_str("attachment; filename=\"");
    d.append(ascii.as_str());
    if str_eq(ascii.as_str(), original.as_str()) {
        d.append("\"");
    } else {
        d.append("\"; filename*=UTF-8''");
        let p = percent_encode_utf8(original.as_str());
        d.append(p.as_str());
    }
    d
}

} // verus!
