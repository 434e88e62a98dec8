//! The HTTP error envelope's contents and the parsing of query parameters
//! into listing and results filters.

use vstd::prelude::*;
use crate::cursor::{InvalidCursor, RunCursor, token_refusal};
use crate::domain::{CorrectnessResult, DeviceClass, ExitStatus, Platform, Sha256Hex, is_sha256_hex};
use crate::listing::{ResultsFilter, RunListFilter, sv};
use crate::text::debug_quoted;

verus! {

broadcast use vstd::string::group_string_axioms;

pub const STATUS_BAD_REQUEST: u16 = 400;
pub const STATUS_NOT_FOUND: u16 = 404;
pub const STATUS_CONFLICT: u16 = 409;
pub const STATUS_GONE: u16 = 410;
pub const STATUS_PAYLOAD_TOO_LARGE: u16 = 413;
pub const STATUS_INTERNAL_SERVER_ERROR: u16 = 500;
pub const STATUS_NOT_IMPLEMENTED: u16 = 501;

/// An API failure: the HTTP status, a stable machine-readable code, a
/// human-readable message, and, for a field validation failure, the
/// offending field (`details.field`).
#[derive(Debug)]
pub struct ApiError {
    pub status: u16,
    pub code: String,
    pub message: String,
    pub field: Option<String>,
}

/// An API failure, as a view.
pub open spec fn api_error(status: u16, code: Seq<char>, message: Seq<char>) -> (u16, Seq<char>, Seq<char>, Option<Seq<char>>) {
    (status, code, message, None)
}

impl View for ApiError {
    type V = (u16, Seq<char>, Seq<char>, Option<Seq<char>>);

    open spec fn view(&self) -> (u16, Seq<char>, Seq<char>, Option<Seq<char>>) {
        (self.status, self.code@, self.message@, sv(self.field))
    }
}

impl ApiError {
    pub fn new(status: u16, code: &'static str, message: String) -> (e: ApiError)
        ensures
            e@ == api_error(status, code@, message@),
    {
        ApiError { status, code: String::from_str(code), message, field: None }
    }

    /// The same failure naming `field` as the offending request field.
    pub fn with_field(self, field: String) -> (e: ApiError)
        ensures
            e@ == (self@.0, self@.1, self@.2, Some(field@)),
    {
        ApiError { status: self.status, code: self.code, message: self.message, field: Some(field) }
    }

    /// 400 `invalid_request`.
    pub fn invalid_request(message: String) -> (e: ApiError)
        ensures
            e@ == api_error(STATUS_BAD_REQUEST, "invalid_request"@, message@),
    {
        ApiError::new(STATUS_BAD_REQUEST, "invalid_request", message)
    }

    /// 404 `not_found`.
    pub fn not_found(message: String) -> (e: ApiError)
        ensures
            e@ == api_error(STATUS_NOT_FOUND, "not_found"@, message@),
    {
        ApiError::new(STATUS_NOT_FOUND, "not_found", message)
    }

    /// 410 `artifact_file_missing`.
    pub fn artifact_file_missing(message: String) -> (e: ApiError)
        ensures
            e@ == api_error(STATUS_GONE, "artifact_file_missing"@, message@),
    {
        ApiError::new(STATUS_GONE, "artifact_file_missing", message)
    }

    /// 413 `payload_too_large`.
    pub fn payload_too_large(message: String) -> (e: ApiError)
        ensures
            e@ == api_error(STATUS_PAYLOAD_TOO_LARGE, "payload_too_large"@, message@),
    {
        ApiError::new(STATUS_PAYLOAD_TOO_LARGE, "payload_too_large", message)
    }

    /// 409 `conflict`: the request names a resource that already exists,
    /// which is left unchanged.
    pub fn conflict(message: String) -> (e: ApiError)
        ensures
            e@ == api_error(STATUS_CONFLICT, "conflict"@, message@),
    {
        ApiError::new(STATUS_CONFLICT, "conflict", message)
    }

    /// 400 `invalid_request` naming the offending request field.
    pub fn invalid_field(field: &str, message: String) -> (e: ApiError)
        ensures
            e@ == (STATUS_BAD_REQUEST, "invalid_request"@, message@, Some(field@)),
    {
        ApiError::invalid_request(message).with_field(String::from_str(field))
    }

    /// 501 `not_implemented`.
    pub fn not_implemented(message: String) -> (e: ApiError)
        ensures
            e@ == api_error(STATUS_NOT_IMPLEMENTED, "not_implemented"@, message@),
    {
        ApiError::new(STATUS_NOT_IMPLEMENTED, "not_implemented", message)
    }

    /// 500 `internal_error`.
    pub fn internal(message: String) -> (e: ApiError)
        ensures
            e@ == api_error(STATUS_INTERNAL_SERVER_ERROR, "internal_error"@, message@),
    {
        ApiError::new(STATUS_INTERNAL_SERVER_ERROR, "internal_error", message)
    }
}

pub const DEFAULT_LIMIT: u32 = 50;
pub const MAX_LIMIT: u32 = 200;

/// The query parameters of the run listing, as text (the model id already
/// read as a UUID).
#[derive(Debug)]
pub struct ListRunsParams {
    pub limit: Option<u32>,
    pub cursor: Option<String>,
    pub platform: Option<String>,
    pub device_class: Option<String>,
    pub device_serial: Option<String>,
    pub model_asset_id: Option<u128>,
    pub git_commit_sha: Option<String>,
    pub git_branch: Option<String>,
    pub git_dirty: Option<bool>,
    pub sumd_driver_version: Option<String>,
    pub bsp_version: Option<String>,
    pub gpu_clock_mhz: Option<i64>,
    pub mif_clock_mhz: Option<i64>,
    pub int_clock_mhz: Option<i64>,
    pub host_accelerator: Option<String>,
    pub prompt_sha256: Option<String>,
    pub exit_status: Option<String>,
    pub correctness_result: Option<String>,
}

/// The page size asked for: the given limit or the default.
pub open spec fn limit_of(p: ListRunsParams) -> u32 {
    match p.limit {
        Some(l) => l,
        None => DEFAULT_LIMIT,
    }
}

/// The refusal of an optional enumeration parameter, given the message of
/// each text that names no value.
pub open spec fn refusal_of(
    text: Option<String>,
    valid: spec_fn(Seq<char>) -> bool,
    message: spec_fn(Seq<char>) -> Seq<char>,
) -> Option<Seq<char>> {
    match text {
        Some(t) => if valid(t@) {
            None
        } else {
            Some(message(t@))
        },
        None => None,
    }
}

pub open spec fn exit_status_refusal(t: Option<String>) -> Option<Seq<char>> {
    refusal_of(
        t,
        |s: Seq<char>| ExitStatus::from_text(s) is Some,
        |s: Seq<char>| "invalid exit status: "@ + debug_quoted(s),
    )
}

pub open spec fn correctness_refusal(t: Option<String>) -> Option<Seq<char>> {
    refusal_of(
        t,
        |s: Seq<char>| CorrectnessResult::from_text(s) is Some,
        |s: Seq<char>| "invalid correctness result: "@ + debug_quoted(s),
    )
}

pub open spec fn digest_refusal(t: Option<String>) -> Option<Seq<char>> {
    refusal_of(
        t,
        |s: Seq<char>| is_sha256_hex(s),
        |s: Seq<char>| "not a 64-character lowercase hexadecimal SHA-256 digest: "@ + debug_quoted(s),
    )
}

pub open spec fn platform_refusal(t: Option<String>) -> Option<Seq<char>> {
    refusal_of(
        t,
        |s: Seq<char>| Platform::from_text(s) is Some,
        |s: Seq<char>| "invalid platform: "@ + debug_quoted(s),
    )
}

pub open spec fn class_refusal(t: Option<String>) -> Option<Seq<char>> {
    refusal_of(
        t,
        |s: Seq<char>| DeviceClass::from_text(s) is Some,
        |s: Seq<char>| "invalid device class: "@ + debug_quoted(s),
    )
}

/// The reason listing parameters are refused, checked in this order: the
/// page size, the cursor, exit status, correctness result, prompt digest,
/// platform, device class.
pub open spec fn list_params_refusal(p: ListRunsParams) -> Option<Seq<char>> {
    if limit_of(p) == 0 || limit_of(p) > MAX_LIMIT {
        Some("limit must be between 1 and 200"@)
    } else if p.cursor is Some && token_refusal(p.cursor->0@) is Some {
        Some("invalid cursor: "@ + token_refusal(p.cursor->0@)->0)
    } else if exit_status_refusal(p.exit_status) is Some {
        exit_status_refusal(p.exit_status)
    } else if correctness_refusal(p.correctness_result) is Some {
        correctness_refusal(p.correctness_result)
    } else if digest_refusal(p.prompt_sha256) is Some {
        digest_refusal(p.prompt_sha256)
    } else if platform_refusal(p.platform) is Some {
        platform_refusal(p.platform)
    } else {
        class_refusal(p.device_class)
    }
}

/// An optional enumeration read from its text.
pub open spec fn read_opt<T>(t: Option<String>, read: spec_fn(Seq<char>) -> Option<T>) -> Option<T> {
    match t {
        Some(s) => read(s@),
        None => None,
    }
}

fn text_error(e: crate::domain::InvalidValue) -> (a: ApiError)
    ensures
        a@ == api_error(STATUS_BAD_REQUEST, "invalid_request"@, e.0@),
{
    ApiError::invalid_request(e.0)
}

fn opt_exit_status(t: &Option<String>) -> (r: Result<Option<ExitStatus>, ApiError>)
    ensures
        match r {
            Ok(v) => exit_status_refusal(*t) is None && v == read_opt(*t, |s: Seq<char>| ExitStatus::from_text(s)),
            Err(e) => e@ == api_error(STATUS_BAD_REQUEST, "invalid_request"@, exit_status_refusal(*t)->0)
                && exit_status_refusal(*t) is Some,
        },
{
    match t {
        Some(s) => match ExitStatus::parse(s.as_str()) {
            Ok(v) => Ok(Some(v)),
            Err(e) => Err(text_error(e)),
        },
        None => Ok(None),
    }
}

fn opt_correctness(t: &Option<String>) -> (r: Result<Option<CorrectnessResult>, ApiError>)
    ensures
        match r {
            Ok(v) => correctness_refusal(*t) is None && v == read_opt(
                *t,
                |s: Seq<char>| CorrectnessResult::from_text(s),
            ),
            Err(e) => e@ == api_error(STATUS_BAD_REQUEST, "invalid_request"@, correctness_refusal(*t)->0)
                && correctness_refusal(*t) is Some,
        },
{
    match t {
        Some(s) => match CorrectnessResult::parse(s.as_str()) {
            Ok(v) => Ok(Some(v)),
            Err(e) => Err(text_error(e)),
        },
        None => Ok(None),
    }
}

fn opt_platform(t: &Option<String>) -> (r: Result<Option<Platform>, ApiError>)
    ensures
        match r {
            Ok(v) => platform_refusal(*t) is None && v == read_opt(*t, |s: Seq<char>| Platform::from_text(s)),
            Err(e) => e@ == api_error(STATUS_BAD_REQUEST, "invalid_request"@, platform_refusal(*t)->0)
                && platform_refusal(*t) is Some,
        },
{
    match t {
        Some(s) => match Platform::parse(s.as_str()) {
            Ok(v) => Ok(Some(v)),
            Err(e) => Err(text_error(e)),
        },
        None => Ok(None),
    }
}

fn opt_class(t: &Option<String>) -> (r: Result<Option<DeviceClass>, ApiError>)
    ensures
        match r {
            Ok(v) => class_refusal(*t) is None && v == read_opt(*t, |s: Seq<char>| DeviceClass::from_text(s)),
            Err(e) => e@ == api_error(STATUS_BAD_REQUEST, "invalid_request"@, class_refusal(*t)->0)
                && class_refusal(*t) is Some,
        },
{
    match t {
        Some(s) => match DeviceClass::parse(s.as_str()) {
            Ok(v) => Ok(Some(v)),
            Err(e) => Err(text_error(e)),
        },
        None => Ok(None),
    }
}

fn opt_digest(t: Option<String>) -> (r: Result<Option<Sha256Hex>, ApiError>)
    ensures
        match r {
            Ok(v) => digest_refusal(t) is None && match v {
                Some(h) => t is Some && h@ == t->0@,
                None => t is None,
            },
            Err(e) => e@ == api_error(STATUS_BAD_REQUEST, "invalid_request"@, digest_refusal(t)->0)
                && digest_refusal(t) is Some,
        },
{
    match t {
        Some(s) => match Sha256Hex::parse(s) {
            Ok(v) => Ok(Some(v)),
            Err(e) => Err(text_error(e)),
        },
        None => Ok(None),
    }
}

/// Reads the listing parameters into a filter, a page size and a cursor.
/// Refused with 400 `invalid_request` and the first reason of
/// `list_params_refusal`.
pub fn parse_list_params(params: ListRunsParams) -> (r: Result<(RunListFilter, usize, Option<RunCursor>), ApiError>)
    ensures
        match r {
            Ok((f, limit, cursor)) => {
                &&& list_params_refusal(params) is None
                &&& limit == limit_of(params)
                &&& cursor is Some == params.cursor is Some
                &&& cursor matches Some(c) ==> crate::cursor::token_reading(params.cursor->0@) == Some(
                    (c.started_at.secs(), c.started_at.subsec(), c.id),
                )
                &&& f.platform == read_opt(params.platform, |s: Seq<char>| Platform::from_text(s))
                &&& f.device_class == read_opt(params.device_class, |s: Seq<char>| DeviceClass::from_text(s))
                &&& f.exit_status == read_opt(params.exit_status, |s: Seq<char>| ExitStatus::from_text(s))
                &&& f.correctness_result == read_opt(
                    params.correctness_result,
                    |s: Seq<char>| CorrectnessResult::from_text(s),
                )
                &&& crate::listing::digest_text(f.prompt_sha256) == sv(params.prompt_sha256)
                &&& f.device_serial == params.device_serial
                &&& f.model_asset_id == params.model_asset_id
                &&& f.git_commit_sha == params.git_commit_sha
                &&& f.git_branch == params.git_branch
                &&& f.git_dirty == params.git_dirty
                &&& f.sumd_driver_version == params.sumd_driver_version
                &&& f.bsp_version == params.bsp_version
                &&& f.gpu_clock_mhz == params.gpu_clock_mhz
                &&& f.mif_clock_mhz == params.mif_clock_mhz
                &&& f.int_clock_mhz == params.int_clock_mhz
                &&& f.host_accelerator == params.host_accelerator
            },
            Err(e) => list_params_refusal(params) is Some && e@ == api_error(
                STATUS_BAD_REQUEST,
                "invalid_request"@,
                list_params_refusal(params)->0,
            ),
        },
{
    proof {
        reveal_strlit("limit must be between 1 and 200");
        reveal_strlit("invalid cursor: ");
    }
    let limit = match params.limit {
        Some(l) => l,
        None => DEFAULT_LIMIT,
    };
    if limit == 0 || limit > MAX_LIMIT {
        return Err(ApiError::invalid_request(String::from_str("limit must be between 1 and 200")));
    }
    let cursor = match &params.cursor {
        Some(t) => match RunCursor::decode(t.as_str()) {
            Ok(c) => Some(c),
            Err(e) => return Err(ApiError::invalid_request(e.message())),
        },
        None => None,
    };
    let exit_status = opt_exit_status(&params.exit_status)?;
    let correctness_result = opt_correctness(&params.correctness_result)?;
    let prompt_sha256 = opt_digest(params.prompt_sha256)?;
    let platform = opt_platform(&params.platform)?;
    let device_class = opt_class(&params.device_class)?;
    let filter = RunListFilter {
        platform,
        device_class,
        device_serial: params.device_serial,
        model_asset_id: params.model_asset_id,
        git_commit_sha: params.git_commit_sha,
        git_branch: params.git_branch,
        git_dirty: params.git_dirty,
        sumd_driver_version: params.sumd_driver_version,
        bsp_version: params.bsp_version,
        gpu_clock_mhz: params.gpu_clock_mhz,
        mif_clock_mhz: params.mif_clock_mhz,
        int_clock_mhz: params.int_clock_mhz,
        host_accelerator: params.host_accelerator,
        prompt_sha256,
        exit_status,
        correctness_result,
    };
    Ok((filter, limit as usize, cursor))
}

/// The query parameters of the grouped results, as text (the model id
/// already read as a UUID).
#[derive(Debug)]
pub struct ResultsParams {
    pub platform: Option<String>,
    pub device_class: Option<String>,
    pub device_serial: Option<String>,
    pub model_asset_id: Option<u128>,
    pub git_commit_sha: Option<String>,
    pub git_branch: Option<String>,
    pub git_dirty: Option<bool>,
    pub sumd_driver_version: Option<String>,
    pub bsp_version: Option<String>,
    pub host_accelerator: Option<String>,
    pub prompt_sha256: Option<String>,
}

/// The reason results parameters are refused, checked in this order:
/// prompt digest, platform, device class.
pub open spec fn results_params_refusal(p: ResultsParams) -> Option<Seq<char>> {
    if digest_refusal(p.prompt_sha256) is Some {
        digest_refusal(p.prompt_sha256)
    } else if platform_refusal(p.platform) is Some {
        platform_refusal(p.platform)
    } else {
        class_refusal(p.device_class)
    }
}

/// Reads the results parameters into a filter. Refused with 400
/// `invalid_request` and the first reason of `results_params_refusal`.
pub fn parse_results_params(params: ResultsParams) -> (r: Result<ResultsFilter, ApiError>)
    ensures
        match r {
            Ok(f) => {
                &&& results_params_refusal(params) is None
                &&& f.platform == read_opt(params.platform, |s: Seq<char>| Platform::from_text(s))
                &&& f.device_class == read_opt(params.device_class, |s: Seq<char>| DeviceClass::from_text(s))
                &&& crate::listing::digest_text(f.prompt_sha256) == sv(params.prompt_sha256)
                &&& f.device_serial == params.device_serial
                &&& f.model_asset_id == params.model_asset_id
                &&& f.git_commit_sha == params.git_commit_sha
                &&& f.git_branch == params.git_branch
                &&& f.git_dirty == params.git_dirty
                &&& f.sumd_driver_version == params.sumd_driver_version
                &&& f.bsp_version == params.bsp_version
                &&& f.host_accelerator == params.host_accelerator
            },
            Err(e) => results_params_refusal(params) is Some && e@ == api_error(
                STATUS_BAD_REQUEST,
                "invalid_request"@,
                results_params_refusal(params)->0,
            ),
        },
{
    let prompt_sha256 = opt_digest(params.prompt_sha256)?;
    let platform = opt_platform(&params.platform)?;
    let device_class = opt_class(&params.device_class)?;
    Ok(ResultsFilter {
        platform,
        device_class,
        device_serial: params.device_serial,
        model_asset_id: params.model_asset_id,
        git_commit_sha: params.git_commit_sha,
        git_branch: params.git_branch,
        git_dirty: params.git_dirty,
        sumd_driver_version: params.sumd_driver_version,
        bsp_version: params.bsp_version,
        host_accelerator: params.host_accelerator,
        prompt_sha256,
    })
}

/// Which part of a request an extractor refused.
#[derive(Debug, Clone, Copy, PartialEq, Eq, Structural)]
pub enum Rejection {
    Query,
    Path,
    Json,
}

/// The API answer to a refused request part: a query string or path
/// parameter that does not read, or a JSON body that does not read (a body
/// over the size limit is `payload_too_large`).
pub fn rejection_error(kind: Rejection, text: &str, too_large: bool) -> (e: ApiError)
    ensures
        e@ == match kind {
            Rejection::Query => api_error(400, "invalid_request"@, "invalid query string: "@ + text@),
            Rejection::Path => api_error(400, "invalid_request"@, "invalid path parameter: "@ + text@),
            Rejection::Json => if too_large {
                api_error(413, "payload_too_large"@, "request body exceeds the maximum size"@)
            } else {
                api_error(400, "invalid_request"@, "invalid JSON body: "@ + text@)
            },
        },
{
    let prefix = match kind {
        Rejection::Query => "invalid query string: ",
        Rejection::Path => "invalid path parameter: ",
        Rejection::Json => {
            if too_large {
                return ApiError::payload_too_large(String::from_str("request body exceeds the maximum size"));
            }
            "invalid JSON body: "
        },
    };
    let mut m = String::from_str(prefix);
    m.append(text);
    ApiError::invalid_request(m)
}

} // verus!
