//! Model assets: their records, and the decisions of registering and
//! verifying a model file kept in place.

use vstd::prelude::*;
use crate::api::ApiError;
use crate::artifacts::path_file_name;
use crate::domain::{Sha256Hex, str_eq};
use crate::ids::{uuid_from_text, uuid_reading};
use crate::listing::sv;
use crate::text::{chars_of, debug_quoted, has_prefix, quote_debug, starts_with};
use crate::time::Timestamp;

verus! {

broadcast use vstd::string::group_string_axioms;

/// How a model's file is kept: in place, or as a managed copy.
#[derive(Debug, Clone, Copy, PartialEq, Eq, Structural)]
pub enum ModelStorageMode {
    External,
    Managed,
}

impl ModelStorageMode {
    pub open spec fn text(self) -> Seq<char> {
        match self {
            ModelStorageMode::External => "external"@,
            ModelStorageMode::Managed => "managed"@,
        }
    }

    pub open spec fn from_text(s: Seq<char>) -> Option<ModelStorageMode> {
        if s == "external"@ {
            Some(ModelStorageMode::External)
        } else if s == "managed"@ {
            Some(ModelStorageMode::Managed)
        } else {
            None
        }
    }

    pub fn as_str(self) -> (s: &'static str)
        ensures
            s@ == self.text(),
    {
        match self {
            ModelStorageMode::External => "external",
            ModelStorageMode::Managed => "managed",
        }
    }

    /// Reads the stable textual form; anything else is refused with
    /// `invalid model storage mode: <value quoted>`.
    pub fn parse(value: &str) -> (r: Result<ModelStorageMode, ModelRegistryError>)
        ensures
            match r {
                Ok(m) => Self::from_text(value@) == Some(m),
                Err(e) => Self::from_text(value@) is None && e is Other && e->Other_0@
                    == "invalid model storage mode: "@ + debug_quoted(value@),
            },
    {
        if str_eq(value, "external") {
            Ok(ModelStorageMode::External)
        } else if str_eq(value, "managed") {
            Ok(ModelStorageMode::Managed)
        } else {
            let mut m = String::from_str("invalid model storage mode: ");
            let q = quote_debug(value);
            m.append(q.as_str());
            Err(ModelRegistryError::Other(m))
        }
    }
}

/// A failure registering or verifying a model.
#[derive(Debug)]
pub enum ModelRegistryError {
    /// A filesystem failure, by its message.
    Io(String),
    /// A database failure, by its message.
    Db(String),
    /// The path given for registration is missing or not a regular file.
    NotARegularFile(String),
    Other(String),
}

impl ModelRegistryError {
    /// The error's message.
    pub fn message(&self) -> (m: String)
        ensures
            m@ == match self {
                ModelRegistryError::Io(e) => "model filesystem error: "@ + e@,
                ModelRegistryError::Db(e) => "model database error: "@ + e@,
                ModelRegistryError::NotARegularFile(p) => "not a regular file: "@ + p@,
                ModelRegistryError::Other(e) => e@,
            },
    {
        let (prefix, rest): (&str, &String) = match self {
            ModelRegistryError::Io(e) => ("model filesystem error: ", e),
            ModelRegistryError::Db(e) => ("model database error: ", e),
            ModelRegistryError::NotARegularFile(p) => ("not a regular file: ", p),
            ModelRegistryError::Other(e) => ("", e),
        };
        let mut m = String::from_str(prefix);
        m.append(rest.as_str());
        proof {
            reveal_strlit("");
        }
        m
    }
}

/// The API answer to a registry failure: a path that is no regular file
/// and other refusals as `invalid_request`, anything else as an internal
/// error.
pub fn registry_error_response(err: ModelRegistryError) -> (e: ApiError)
    ensures
        e@ == match err {
            ModelRegistryError::NotARegularFile(p) => crate::api::api_error(
                400,
                "invalid_request"@,
                "not a regular file: "@ + p@,
            ),
            ModelRegistryError::Other(m) => crate::api::api_error(400, "invalid_request"@, m@),
            _ => crate::api::api_error(500, "internal_error"@, "internal storage error"@),
        },
{
    match err {
        ModelRegistryError::NotARegularFile(p) => {
            let mut m = String::from_str("not a regular file: ");
            m.append(p.as_str());
            ApiError::invalid_request(m)
        },
        ModelRegistryError::Other(m) => ApiError::invalid_request(m),
        _ => ApiError::internal(String::from_str("internal storage error")),
    }
}

/// A model asset row as the database returns it.
#[derive(Debug)]
pub struct ModelAssetRow {
    pub id: String,
    pub sha256: String,
    pub original_name: String,
    pub size_bytes: i64,
    pub model_format: String,
    pub storage_mode: String,
    pub external_path: Option<String>,
    pub relative_path: Option<String>,
    pub file_modified_at: Option<Timestamp>,
    pub registered_at: Timestamp,
    pub last_verified_at: Option<Timestamp>,
    pub available: i64,
}

/// A registered model asset.
#[derive(Debug)]
pub struct ModelAsset {
    pub id: u128,
    pub sha256: String,
    pub original_name: String,
    pub size_bytes: i64,
    pub model_format: String,
    pub storage_mode: ModelStorageMode,
    pub external_path: Option<String>,
    pub relative_path: Option<String>,
    pub file_modified_at: Option<Timestamp>,
    pub registered_at: Timestamp,
    pub last_verified_at: Option<Timestamp>,
    pub available: bool,
}

/// The first inconsistency reading a model asset row: its id, then its
/// storage mode.
pub open spec fn asset_row_violation(row: ModelAssetRow) -> Option<Seq<char>> {
    if uuid_reading(row.id@) is Err {
        Some("invalid model asset id: "@ + uuid_reading(row.id@)->Err_0)
    } else if ModelStorageMode::from_text(row.storage_mode@) is None {
        Some("invalid model storage mode: "@ + debug_quoted(row.storage_mode@))
    } else {
        None
    }
}

/// Reads a model asset row, refusing (as `Other`) the first inconsistency.
pub fn asset_from_row(row: ModelAssetRow) -> (r: Result<ModelAsset, ModelRegistryError>)
    ensures
        match r {
            Ok(a) => {
                &&& asset_row_violation(row) is None
                &&& uuid_reading(row.id@) == Ok::<u128, Seq<char>>(a.id)
                &&& a.sha256 == row.sha256
                &&& a.original_name == row.original_name
                &&& a.size_bytes == row.size_bytes
                &&& a.model_format == row.model_format
                &&& ModelStorageMode::from_text(row.storage_mode@) == Some(a.storage_mode)
                &&& a.external_path == row.external_path
                &&& a.relative_path == row.relative_path
                &&& a.file_modified_at == row.file_modified_at
                &&& a.registered_at == row.registered_at
                &&& a.last_verified_at == row.last_verified_at
                &&& a.available == (row.available != 0)
            },
            Err(e) => e is Other && asset_row_violation(row) == Some(e->Other_0@),
        },
{
    let id = match uuid_from_text(row.id.as_str()) {
        Ok(id) => id,
        Err(e) => {
            let mut m = String::from_str("invalid model asset id: ");
            m.append(e.as_str());
            return Err(ModelRegistryError::Other(m));
        },
    };
    let storage_mode = ModelStorageMode::parse(row.storage_mode.as_str())?;
    Ok(
        ModelAsset {
            id,
            sha256: row.sha256,
            original_name: row.original_name,
            size_bytes: row.size_bytes,
            model_format: row.model_format,
            storage_mode,
            external_path: row.external_path,
            relative_path: row.relative_path,
            file_modified_at: row.file_modified_at,
            registered_at: row.registered_at,
            last_verified_at: row.last_verified_at,
            available: row.available != 0,
        },
    )
}

/// The name a model is registered under: the file name of its path, or
/// the whole path when it has none.
pub fn registered_name(path: &str) -> (n: String)
    ensures
        n@ == match path_file_name(path@) {
            Some(f) => f,
            None => path@,
        },
{
    match crate::artifacts::file_name_of(path) {
        Some(n) => n,
        None => String::from_str(path),
    }
}

/// What cheap verification does with an asset, given the file found at
/// its path (its size and modification time), if any.
#[derive(Debug, Clone, Copy, PartialEq, Eq, Structural)]
pub enum VerifyStep {
    /// The file is gone or not a regular file: mark the asset unavailable.
    MarkUnavailable,
    /// Available with unchanged size and modification time: the cached
    /// digest stands and the asset is returned as it is.
    Unchanged,
    /// Rehash the file and reconcile the digest.
    Rehash,
}

/// The cheap-verification decision.
pub open spec fn verify_step_of(asset: ModelAsset, file: Option<(i64, Timestamp)>) -> VerifyStep {
    match file {
        None => VerifyStep::MarkUnavailable,
        Some((size, modified)) => if asset.available && asset.size_bytes == size && asset.file_modified_at
            == Some(modified) {
            VerifyStep::Unchanged
        } else {
            VerifyStep::Rehash
        },
    }
}

/// Decides cheap verification of an external asset: it needs the asset's
/// path; a missing file marks it unavailable; an unchanged file keeps the
/// cached digest; anything else is rehashed.
pub fn verify_step(asset: &ModelAsset, file: Option<(i64, Timestamp)>) -> (r: Result<VerifyStep, ModelRegistryError>)
    ensures
        match r {
            Ok(s) => asset.external_path is Some && s == verify_step_of(*asset, file),
            Err(e) => asset.external_path is None && e is Other && e->Other_0@
                == "external verification requires an external_path"@,
        },
{
    if asset.external_path.is_none() {
        return Err(ModelRegistryError::Other(String::from_str("external verification requires an external_path")));
    }
    match file {
        None => Ok(VerifyStep::MarkUnavailable),
        Some((size, modified)) => {
            let same_time = match asset.file_modified_at {
                Some(t) => t == modified,
                None => false,
            };
            if asset.available && asset.size_bytes == size && same_time {
                Ok(VerifyStep::Unchanged)
            } else {
                Ok(VerifyStep::Rehash)
            }
        },
    }
}

/// Whether the API can verify a model: only external models are, managed
/// ones answer `not_implemented`.
pub fn verify_supported(mode: ModelStorageMode) -> (r: Result<(), ApiError>)
    ensures
        r is Ok <==> mode == ModelStorageMode::External,
        r matches Err(e) ==> e@ == crate::api::api_error(
            501,
            "not_implemented"@,
            "verification for managed-mode models is not yet implemented"@,
        ),
{
    match mode {
        ModelStorageMode::External => Ok(()),
        ModelStorageMode::Managed => Err(
            ApiError::not_implemented(
                String::from_str("verification for managed-mode models is not yet implemented"),
            ),
        ),
    }
}

/// The digest filter of the model listing: none, or a valid digest;
/// anything else is refused naming the `sha256` field.
pub fn model_digest_filter(raw: Option<String>) -> (r: Result<Option<Sha256Hex>, ApiError>)
    ensures
        match r {
            Ok(Some(h)) => raw is Some && crate::domain::is_sha256_hex(raw->0@) && h@ == raw->0@,
            Ok(None) => raw is None,
            Err(e) => raw is Some && !crate::domain::is_sha256_hex(raw->0@) && e@ == (
                400u16,
                "invalid_request"@,
                "not a 64-character lowercase hexadecimal SHA-256 digest: "@ + debug_quoted(raw->0@),
                Some("sha256"@),
            ),
        },
{
    match raw {
        Some(s) => match Sha256Hex::parse(s) {
            Ok(h) => Ok(Some(h)),
            Err(e) => Err(ApiError::invalid_field("sha256", e.0)),
        },
        None => Ok(None),
    }
}

/// External mode: the model file stays where it is; the registry only
/// reads it.
/// Whether `path` names an entry strictly beneath the directory `root`,
/// both resolved (absolute, symlinks and `..` followed, no trailing `/`
/// but for the filesystem root itself).
pub open spec fn beneath(path: Seq<char>, root: Seq<char>) -> bool {
    if root.len() > 0 && root.last() == '/' {
        path.len() > root.len() && has_prefix(path, root)
    } else {
        path.len() > root.len() + 1 && has_prefix(path, root) && path[root.len() as int] == '/'
    }
}

/// Whether a path's last component is a non-empty name followed by `.pte`.
pub open spec fn pte_name(path: Seq<char>) -> bool {
    let n = path.len() as int;
    &&& n >= 5
    &&& path[n - 4] == '.' && path[n - 3] == 'p' && path[n - 2] == 't' && path[n - 1] == 'e'
    &&& path[n - 5] != '/'
}

/// Whether a registration request may proceed: the path asked for is
/// absolute and resolves to a regular file named `*.pte` beneath one of
/// the resolved registrable roots.
pub open spec fn registrable(
    requested: Seq<char>,
    resolved: Option<Seq<char>>,
    regular_file: bool,
    roots: Seq<String>,
) -> bool {
    &&& requested.len() > 0 && requested[0] == '/'
    &&& resolved is Some
    &&& regular_file
    &&& pte_name(resolved->0)
    &&& exists|k: int| 0 <= k < roots.len() && beneath(resolved->0, #[trigger] roots[k]@)
}

/// The one message every refused registration gets, whatever the reason,
/// so that a refusal tells nothing about files outside the roots.
pub open spec fn unregistrable_message() -> Seq<char> {
    "path: must be an existing .pte file beneath a registrable root"@
}

fn is_beneath(path: &Vec<char>, root: &str) -> (r: bool)
    ensures
        r == beneath(path@, root@),
{
    let rc = chars_of(root);
    if rc.len() > 0 && rc[rc.len() - 1] == '/' {
        path.len() > rc.len() && starts_with(path, &rc)
    } else {
        path.len() > rc.len() && path.len() - rc.len() > 1 && starts_with(path, &rc) && path[rc.len()] == '/'
    }
}

fn beneath_any(path: &Vec<char>, roots: &Vec<String>) -> (r: bool)
    ensures
        r == exists|k: int| 0 <= k < roots@.len() && beneath(path@, #[trigger] roots@[k]@),
{
    let mut k: usize = 0;
    while k < roots.len()
        invariant
            k <= roots@.len(),
            forall|j: int| 0 <= j < k ==> !beneath(path@, #[trigger] roots@[j]@),
        decreases roots@.len() - k,
    {
        if is_beneath(path, roots[k].as_str()) {
            return true;
        }
        k = k + 1;
    }
    false
}

/// The path to register for a request, or the refusal (400
/// `invalid_request` naming the `path` field). `resolved` is the requested
/// path with symlinks and `..` resolved, when it resolves; `regular_file`
/// whether that is a regular file; `roots` the resolved registrable roots.
pub fn registration_path(
    requested: &str,
    resolved: Option<String>,
    regular_file: bool,
    roots: &Vec<String>,
) -> (r: Result<String, ApiError>)
    ensures
        match r {
            Ok(p) => registrable(requested@, sv(resolved), regular_file, roots@) && Some(p@) == sv(resolved),
            Err(e) => !registrable(requested@, sv(resolved), regular_file, roots@) && e@ == (
                400u16,
                "invalid_request"@,
                unregistrable_message(),
                Some("path"@),
            ),
        },
{
    let req = chars_of(requested);
    if req.len() > 0 && req[0] == '/' && regular_file {
        if let Some(p) = resolved {
            let pc = chars_of(p.as_str());
            let n = pc.len();
            let named = n >= 5 && pc[n - 4] == '.' && pc[n - 3] == 'p' && pc[n - 2] == 't' && pc[n - 1] == 'e'
                && pc[n - 5] != '/';
            if named && beneath_any(&pc, roots) {
                return Ok(p);
            }
        }
    }
    proof {
        reveal_strlit("path: must be an existing .pte file beneath a registrable root");
    }
    Err(
        ApiError::invalid_field(
            "path",
            String::from_str("path: must be an existing .pte file beneath a registrable root"),
        ),
    )
}

#[derive(Debug, Clone, Copy)]
pub struct ExternalModelStorage;

impl ExternalModelStorage {
    /// Where an external asset's content lives: its registered path (empty
    /// when it has none).
    pub fn resolve_content_path(&self, asset: &ModelAsset) -> (p: String)
        ensures
            p@ == match asset.external_path {
                Some(e) => e@,
                None => Seq::<char>::empty(),
            },
    {
        match &asset.external_path {
            Some(e) => e.clone(),
            None => String::new(),
        }
    }
}

/// Managed mode, defined but not implemented: a copy of each model kept
/// once beneath the model root, addressed by its digest.
#[derive(Debug)]
pub struct ManagedModelStorage {
    pub model_root: String,
}

} // verus!
