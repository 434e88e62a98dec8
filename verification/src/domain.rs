//! Enumerations and validated values shared by runs, results and the HTTP
//! layer, with their stable textual forms.

use vstd::prelude::*;
use crate::text::{chars_of, debug_quoted, quote_debug};
use crate::json::{JsonShape, json_reading, json_string_array, json_strings_text, read_json, read_string_array, write_string_array};

verus! {

/// A value that failed validation, with a human-readable reason.
#[derive(Debug)]
pub struct InvalidValue(pub String);

impl InvalidValue {
    /// The reason, as text.
    pub fn message(&self) -> (m: &str)
        ensures
            m@ == self.0@,
    {
        self.0.as_str()
    }
}

/// Builds `InvalidValue(prefix ++ debug_quoted(value))`.
fn invalid_with_quoted(prefix: &str, value: &str) -> (e: InvalidValue)
    ensures
        e.0@ == prefix@ + debug_quoted(value@),
{
    let mut m = String::from_str(prefix);
    let q = quote_debug(value);
    m.append(q.as_str());
    InvalidValue(m)
}

/// A run's process-level outcome.
#[derive(Debug, Clone, Copy, PartialEq, Eq, Structural)]
pub enum ExitStatus {
    Succeeded,
    Crashed,
    TimedOut,
    Cancelled,
    InfrastructureError,
}

impl ExitStatus {
    /// The stable textual form.
    pub open spec fn text(self) -> Seq<char> {
        match self {
            ExitStatus::Succeeded => "succeeded"@,
            ExitStatus::Crashed => "crashed"@,
            ExitStatus::TimedOut => "timed_out"@,
            ExitStatus::Cancelled => "cancelled"@,
            ExitStatus::InfrastructureError => "infrastructure_error"@,
        }
    }

    /// The status whose textual form is `s`, if any.
    pub open spec fn from_text(s: Seq<char>) -> Option<ExitStatus> {
        if s == "succeeded"@ {
            Some(ExitStatus::Succeeded)
        } else if s == "crashed"@ {
            Some(ExitStatus::Crashed)
        } else if s == "timed_out"@ {
            Some(ExitStatus::TimedOut)
        } else if s == "cancelled"@ {
            Some(ExitStatus::Cancelled)
        } else if s == "infrastructure_error"@ {
            Some(ExitStatus::InfrastructureError)
        } else {
            None
        }
    }

    pub fn as_str(self) -> (s: &'static str)
        ensures
            s@ == self.text(),
    {
        match self {
            ExitStatus::Succeeded => "succeeded",
            ExitStatus::Crashed => "crashed",
            ExitStatus::TimedOut => "timed_out",
            ExitStatus::Cancelled => "cancelled",
            ExitStatus::InfrastructureError => "infrastructure_error",
        }
    }

    /// Parses the stable textual form; anything else is rejected with
    /// `invalid exit status: <value quoted>`.
    pub fn parse(value: &str) -> (r: Result<ExitStatus, InvalidValue>)
        ensures
            match r {
                Ok(s) => Self::from_text(value@) == Some(s),
                Err(e) => Self::from_text(value@) is None
                    && e.0@ == "invalid exit status: "@ + debug_quoted(value@),
            },
    {
        if str_eq(value, "succeeded") {
            Ok(ExitStatus::Succeeded)
        } else if str_eq(value, "crashed") {
            Ok(ExitStatus::Crashed)
        } else if str_eq(value, "timed_out") {
            Ok(ExitStatus::TimedOut)
        } else if str_eq(value, "cancelled") {
            Ok(ExitStatus::Cancelled)
        } else if str_eq(value, "infrastructure_error") {
            Ok(ExitStatus::InfrastructureError)
        } else {
            Err(invalid_with_quoted("invalid exit status: ", value))
        }
    }
}

/// Equality of two string slices by their characters.
pub fn str_eq(a: &str, b: &str) -> (r: bool)
    ensures
        r == (a@ == b@),
{
    let x = chars_of(a);
    let y = chars_of(b);
    if x.len() != y.len() {
        return false;
    }
    let mut i: usize = 0;
    while i < x.len()
        invariant
            x@ == a@,
            y@ == b@,
            x.len() == y.len(),
            i <= x.len(),
            forall|j: int| 0 <= j < i ==> x@[j] == y@[j],
        decreases x.len() - i,
    {
        if x[i] != y[i] {
            return false;
        }
        i = i + 1;
    }
    assert(x@ =~= y@);
    true
}

impl<'a> TryFrom<&'a str> for ExitStatus {
    type Error = InvalidValue;

    /// Same as [`ExitStatus::parse`].
    fn try_from(value: &'a str) -> (r: Result<Self, Self::Error>)
        ensures
            match r {
                Ok(s) => Self::from_text(value@) == Some(s),
                Err(e) => Self::from_text(value@) is None
                    && e.0@ == "invalid exit status: "@ + debug_quoted(value@),
            },
    {
        ExitStatus::parse(value)
    }
}

impl<'a> vstd::std_specs::convert::TryFromSpecImpl<&'a str> for ExitStatus {
    open spec fn obeys_try_from_spec() -> bool {
        false
    }

    open spec fn try_from_spec(v: &'a str) -> Result<Self, Self::Error> {
        arbitrary()
    }
}


/// A run's correctness-validation outcome, independent of `ExitStatus`.
#[derive(Debug, Clone, Copy, PartialEq, Eq, Structural)]
pub enum CorrectnessResult {
    Passed,
    Failed,
    NotChecked,
    ValidatorError,
}

impl CorrectnessResult {
    /// The stable textual form.
    pub open spec fn text(self) -> Seq<char> {
        match self {
            CorrectnessResult::Passed => "passed"@,
            CorrectnessResult::Failed => "failed"@,
            CorrectnessResult::NotChecked => "not_checked"@,
            CorrectnessResult::ValidatorError => "validator_error"@,
        }
    }

    /// The value whose textual form is `s`, if any.
    pub open spec fn from_text(s: Seq<char>) -> Option<CorrectnessResult> {
        if s == "passed"@ {
            Some(CorrectnessResult::Passed)
        } else if s == "failed"@ {
            Some(CorrectnessResult::Failed)
        } else if s == "not_checked"@ {
            Some(CorrectnessResult::NotChecked)
        } else if s == "validator_error"@ {
            Some(CorrectnessResult::ValidatorError)
        } else {
            None
        }
    }

    pub fn as_str(self) -> (s: &'static str)
        ensures
            s@ == self.text(),
    {
        match self {
            CorrectnessResult::Passed => "passed",
            CorrectnessResult::Failed => "failed",
            CorrectnessResult::NotChecked => "not_checked",
            CorrectnessResult::ValidatorError => "validator_error",
        }
    }

    /// Parses the stable textual form; anything else is rejected with
    /// `invalid correctness result: <value quoted>`.
    pub fn parse(value: &str) -> (r: Result<CorrectnessResult, InvalidValue>)
        ensures
            match r {
                Ok(v) => Self::from_text(value@) == Some(v),
                Err(e) => Self::from_text(value@) is None
                    && e.0@ == "invalid correctness result: "@ + debug_quoted(value@),
            },
    {
        if str_eq(value, "passed") {
            Ok(CorrectnessResult::Passed)
        } else if str_eq(value, "failed") {
            Ok(CorrectnessResult::Failed)
        } else if str_eq(value, "not_checked") {
            Ok(CorrectnessResult::NotChecked)
        } else if str_eq(value, "validator_error") {
            Ok(CorrectnessResult::ValidatorError)
        } else {
            Err(invalid_with_quoted("invalid correctness result: ", value))
        }
    }
}

impl<'a> TryFrom<&'a str> for CorrectnessResult {
    type Error = InvalidValue;

    /// Same as [`CorrectnessResult::parse`].
    fn try_from(value: &'a str) -> (r: Result<Self, Self::Error>)
        ensures
            match r {
                Ok(v) => Self::from_text(value@) == Some(v),
                Err(e) => Self::from_text(value@) is None
                    && e.0@ == "invalid correctness result: "@ + debug_quoted(value@),
            },
    {
        CorrectnessResult::parse(value)
    }
}

impl<'a> vstd::std_specs::convert::TryFromSpecImpl<&'a str> for CorrectnessResult {
    open spec fn obeys_try_from_spec() -> bool {
        false
    }

    open spec fn try_from_spec(v: &'a str) -> Result<Self, Self::Error> {
        arbitrary()
    }
}

/// The kind of host a run executed on; selects which host-state snapshot
/// a run carries.
#[derive(Debug, Clone, Copy, PartialEq, Eq, PartialOrd, Ord, Structural)]
pub enum Platform {
    Android,
    Linux,
}

impl Platform {
    /// The stable textual form.
    pub open spec fn text(self) -> Seq<char> {
        match self {
            Platform::Android => "android"@,
            Platform::Linux => "linux"@,
        }
    }

    /// The value whose textual form is `s`, if any.
    pub open spec fn from_text(s: Seq<char>) -> Option<Platform> {
        if s == "android"@ {
            Some(Platform::Android)
        } else if s == "linux"@ {
            Some(Platform::Linux)
        } else {
            None
        }
    }

    pub fn as_str(self) -> (s: &'static str)
        ensures
            s@ == self.text(),
    {
        match self {
            Platform::Android => "android",
            Platform::Linux => "linux",
        }
    }

    /// Parses the stable textual form; anything else is rejected with
    /// `invalid platform: <value quoted>`.
    pub fn parse(value: &str) -> (r: Result<Platform, InvalidValue>)
        ensures
            match r {
                Ok(v) => Self::from_text(value@) == Some(v),
                Err(e) => Self::from_text(value@) is None
                    && e.0@ == "invalid platform: "@ + debug_quoted(value@),
            },
    {
        if str_eq(value, "android") {
            Ok(Platform::Android)
        } else if str_eq(value, "linux") {
            Ok(Platform::Linux)
        } else {
            Err(invalid_with_quoted("invalid platform: ", value))
        }
    }
}

impl<'a> TryFrom<&'a str> for Platform {
    type Error = InvalidValue;

    /// Same as [`Platform::parse`].
    fn try_from(value: &'a str) -> (r: Result<Self, Self::Error>)
        ensures
            match r {
                Ok(v) => Self::from_text(value@) == Some(v),
                Err(e) => Self::from_text(value@) is None
                    && e.0@ == "invalid platform: "@ + debug_quoted(value@),
            },
    {
        Platform::parse(value)
    }
}

impl<'a> vstd::std_specs::convert::TryFromSpecImpl<&'a str> for Platform {
    open spec fn obeys_try_from_spec() -> bool {
        false
    }

    open spec fn try_from_spec(v: &'a str) -> Result<Self, Self::Error> {
        arbitrary()
    }
}

/// Whether a host is a lab device under full control (`internal`) or a
/// retail phone or Linux box that records what it can (`external`).
#[derive(Debug, Clone, Copy, PartialEq, Eq, PartialOrd, Ord, Structural)]
pub enum DeviceClass {
    Internal,
    External,
}

impl DeviceClass {
    /// The stable textual form.
    pub open spec fn text(self) -> Seq<char> {
        match self {
            DeviceClass::Internal => "internal"@,
            DeviceClass::External => "external"@,
        }
    }

    /// The value whose textual form is `s`, if any.
    pub open spec fn from_text(s: Seq<char>) -> Option<DeviceClass> {
        if s == "internal"@ {
            Some(DeviceClass::Internal)
        } else if s == "external"@ {
            Some(DeviceClass::External)
        } else {
            None
        }
    }

    pub fn as_str(self) -> (s: &'static str)
        ensures
            s@ == self.text(),
    {
        match self {
            DeviceClass::Internal => "internal",
            DeviceClass::External => "external",
        }
    }

    /// Parses the stable textual form; anything else is rejected with
    /// `invalid device class: <value quoted>`.
    pub fn parse(value: &str) -> (r: Result<DeviceClass, InvalidValue>)
        ensures
            match r {
                Ok(v) => Self::from_text(value@) == Some(v),
                Err(e) => Self::from_text(value@) is None
                    && e.0@ == "invalid device class: "@ + debug_quoted(value@),
            },
    {
        if str_eq(value, "internal") {
            Ok(DeviceClass::Internal)
        } else if str_eq(value, "external") {
            Ok(DeviceClass::External)
        } else {
            Err(invalid_with_quoted("invalid device class: ", value))
        }
    }
}

impl<'a> TryFrom<&'a str> for DeviceClass {
    type Error = InvalidValue;

    /// Same as [`DeviceClass::parse`].
    fn try_from(value: &'a str) -> (r: Result<Self, Self::Error>)
        ensures
            match r {
                Ok(v) => Self::from_text(value@) == Some(v),
                Err(e) => Self::from_text(value@) is None
                    && e.0@ == "invalid device class: "@ + debug_quoted(value@),
            },
    {
        DeviceClass::parse(value)
    }
}

impl<'a> vstd::std_specs::convert::TryFromSpecImpl<&'a str> for DeviceClass {
    open spec fn obeys_try_from_spec() -> bool {
        false
    }

    open spec fn try_from_spec(v: &'a str) -> Result<Self, Self::Error> {
        arbitrary()
    }
}

/// A lowercase hexadecimal digit.
pub open spec fn is_lower_hex_char(c: char) -> bool {
    ('0' <= c && c <= '9') || ('a' <= c && c <= 'f')
}

/// A 64-character lowercase hexadecimal SHA-256 digest.
pub open spec fn is_sha256_hex(s: Seq<char>) -> bool {
    s.len() == 64 && forall|i: int| 0 <= i < s.len() ==> is_lower_hex_char(#[trigger] s[i])
}

/// A validated 64-character lowercase hexadecimal SHA-256 digest.
#[derive(Debug)]
pub struct Sha256Hex {
    digest: String,
}

impl View for Sha256Hex {
    type V = Seq<char>;

    closed spec fn view(&self) -> Seq<char> {
        self.digest@
    }
}

impl Sha256Hex {
    #[verifier::type_invariant]
    spec fn well_formed(self) -> bool {
        is_sha256_hex(self.digest@)
    }

    /// The digest's text: always 64 lowercase hexadecimal characters.
    pub fn as_str(&self) -> (s: &str)
        ensures
            s@ == self@,
            is_sha256_hex(self@),
    {
        proof {
            use_type_invariant(self);
        }
        self.digest.as_str()
    }

    /// Accepts exactly the 64-character lowercase hexadecimal strings.
    pub fn parse(value: String) -> (r: Result<Sha256Hex, InvalidValue>)
        ensures
            match r {
                Ok(h) => is_sha256_hex(value@) && h@ == value@,
                Err(e) => !is_sha256_hex(value@) && e.0@
                    == "not a 64-character lowercase hexadecimal SHA-256 digest: "@ + debug_quoted(value@),
            },
    {
        let cs = chars_of(value.as_str());
        let mut ok = cs.len() == 64;
        let mut i: usize = 0;
        while ok && i < cs.len()
            invariant
                cs@ == value@,
                i <= cs.len(),
                ok ==> cs.len() == 64,
                ok ==> forall|j: int| 0 <= j < i ==> is_lower_hex_char(#[trigger] cs@[j]),
                !ok ==> !is_sha256_hex(value@),
            decreases cs.len() - i,
        {
            let c = cs[i];
            if !(('0' <= c && c <= '9') || ('a' <= c && c <= 'f')) {
                ok = false;
            }
            i = i + 1;
        }
        if ok {
            Ok(Sha256Hex { digest: value })
        } else {
            Err(invalid_with_quoted(
                "not a 64-character lowercase hexadecimal SHA-256 digest: ",
                value.as_str(),
            ))
        }
    }
}

impl Clone for Sha256Hex {
    fn clone(&self) -> (r: Self)
        ensures
            r@ == self@,
    {
        proof {
            use_type_invariant(self);
        }
        Sha256Hex { digest: self.digest.clone() }
    }
}

impl TryFrom<String> for Sha256Hex {
    type Error = InvalidValue;

    /// Same as [`Sha256Hex::parse`].
    fn try_from(value: String) -> (r: Result<Self, Self::Error>)
        ensures
            match r {
                Ok(h) => is_sha256_hex(value@) && h@ == value@,
                Err(e) => !is_sha256_hex(value@) && e.0@
                    == "not a 64-character lowercase hexadecimal SHA-256 digest: "@ + debug_quoted(value@),
            },
    {
        Sha256Hex::parse(value)
    }
}

impl vstd::std_specs::convert::TryFromSpecImpl<String> for Sha256Hex {
    open spec fn obeys_try_from_spec() -> bool {
        false
    }

    open spec fn try_from_spec(v: String) -> Result<Self, Self::Error> {
        arbitrary()
    }
}

/// Concatenation of a literal prefix and a message.
fn prefixed(prefix: &str, message: &str) -> (e: InvalidValue)
    ensures
        e.0@ == prefix@ + message@,
{
    let mut m = String::from_str(prefix);
    m.append(message);
    InvalidValue(m)
}

/// What `validate_command_args` yields for `raw`.
pub open spec fn command_args_outcome(raw: Seq<char>) -> Result<Seq<char>, Seq<char>> {
    match json_string_array(raw) {
        Err(e) => Err("command args must be a JSON array of strings: "@ + e),
        Ok(args) => match json_strings_text(args) {
            Ok(text) => Ok(text),
            Err(e) => Err("failed to canonicalize command args: "@ + e),
        },
    }
}

/// Validates a command-line argument array: well-formed JSON that reads as
/// an array of strings, returned in canonical form.
pub fn validate_command_args(raw: &str) -> (r: Result<String, InvalidValue>)
    ensures
        match r {
            Ok(t) => command_args_outcome(raw@) == Ok::<Seq<char>, Seq<char>>(t@),
            Err(e) => command_args_outcome(raw@) == Err::<Seq<char>, Seq<char>>(e.0@),
        },
{
    match read_string_array(raw) {
        Err(e) => Err(prefixed("command args must be a JSON array of strings: ", e.as_str())),
        Ok(args) => match write_string_array(&args) {
            Ok(text) => Ok(text),
            Err(e) => Err(prefixed("failed to canonicalize command args: ", e.as_str())),
        },
    }
}

/// What canonicalizing `raw` yields: its shape and canonical text, or the
/// message of the failure.
pub open spec fn canonical_outcome(raw: Seq<char>) -> Result<(JsonShape, Seq<char>), Seq<char>> {
    match json_reading(raw) {
        Ok((shape, text)) => Ok((shape, text)),
        Err((true, e)) => Err("invalid JSON: "@ + e),
        Err((false, e)) => Err("failed to canonicalize JSON: "@ + e),
    }
}

/// Parses `raw` as JSON and re-serializes it in canonical form (sorted
/// object keys, no incidental whitespace).
pub fn canonicalize(raw: &str) -> (r: Result<(JsonShape, String), InvalidValue>)
    ensures
        match r {
            Ok((shape, text)) => canonical_outcome(raw@) == Ok::<(JsonShape, Seq<char>), Seq<char>>((shape, text@)),
            Err(e) => canonical_outcome(raw@) == Err::<(JsonShape, Seq<char>), Seq<char>>(e.0@),
        },
{
    match read_json(raw) {
        Ok((shape, text)) => Ok((shape, text)),
        Err((syntax, e)) => if syntax {
            Err(prefixed("invalid JSON: ", e.as_str()))
        } else {
            Err(prefixed("failed to canonicalize JSON: ", e.as_str()))
        },
    }
}

/// Validates arbitrary caller-defined JSON: well-formedness only; returns
/// the canonical text.
pub fn validate_json(raw: &str) -> (r: Result<String, InvalidValue>)
    ensures
        match r {
            Ok(t) => canonical_outcome(raw@) matches Ok((_, c)) && c == t@,
            Err(e) => canonical_outcome(raw@) == Err::<(JsonShape, Seq<char>), Seq<char>>(e.0@),
        },
{
    match canonicalize(raw) {
        Ok((_, text)) => Ok(text),
        Err(e) => Err(e),
    }
}

/// What `validate_env_vars` yields for `raw`.
pub open spec fn env_vars_outcome(raw: Seq<char>) -> Result<Seq<char>, Seq<char>> {
    match canonical_outcome(raw) {
        Ok((JsonShape::Object, text)) => Ok(text),
        Ok(_) => Err("environment-variable allowlist capture must be a JSON object"@),
        Err(e) => Err(e),
    }
}

/// Validates an environment-variable allowlist capture: well-formed JSON
/// whose top level is an object (variable name to captured value, `null`
/// for unset and `""` for empty); returns the canonical text.
pub fn validate_env_vars(raw: &str) -> (r: Result<String, InvalidValue>)
    ensures
        match r {
            Ok(t) => env_vars_outcome(raw@) == Ok::<Seq<char>, Seq<char>>(t@),
            Err(e) => env_vars_outcome(raw@) == Err::<Seq<char>, Seq<char>>(e.0@),
        },
{
    match canonicalize(raw) {
        Ok((shape, text)) => match shape {
            JsonShape::Object => Ok(text),
            _ => Err(InvalidValue(
                String::from_str("environment-variable allowlist capture must be a JSON object"),
            )),
        },
        Err(e) => Err(e),
    }
}

} // verus!
