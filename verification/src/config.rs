//! The service's configuration, derived from the values of its environment
//! variables.

use vstd::prelude::*;
use crate::text::{chars_of, find_char, first_index, is_blank, is_blank_text, is_whitespace, push_char, string_of_chars};

verus! {

broadcast use vstd::string::group_string_axioms;

/// Storage limits and retention knobs.
#[derive(Debug, Clone, Copy)]
pub struct StorageLimits {
    pub max_artifact_upload_bytes: u64,
    pub output_preview_length: usize,
    pub temp_file_retention_seconds: u64,
}

impl Default for StorageLimits {
    /// 512 MiB uploads, 2048-character previews, one day of temp files.
    fn default() -> (l: Self)
        ensures
            l.max_artifact_upload_bytes == 536_870_912,
            l.output_preview_length == 2048,
            l.temp_file_retention_seconds == 86_400,
    {
        StorageLimits {
            max_artifact_upload_bytes: 512 * 1024 * 1024,
            output_preview_length: 2048,
            temp_file_retention_seconds: 24 * 60 * 60,
        }
    }
}

pub const DEFAULT_LISTEN_ADDR: &'static str = "0.0.0.0:3000";

/// A configuration failure.
#[derive(Debug)]
pub struct ConfigError(pub String);

/// An environment variable as the process sees it.
#[derive(Debug)]
pub enum EnvValue {
    Unset,
    /// Set, but not valid Unicode.
    NotUnicode,
    Value(String),
}

/// The values of the variables the configuration reads (`LISTEN_ADDR` is
/// read into a socket address beside it).
#[derive(Debug)]
pub struct EnvValues {
    pub database_url: EnvValue,
    pub data_root: EnvValue,
    pub artifact_root: EnvValue,
    pub model_root: EnvValue,
    pub temporary_dir: EnvValue,
    pub trash_dir: EnvValue,
    pub model_register_roots: EnvValue,
    pub dashboard_dist: EnvValue,
    pub max_artifact_upload_bytes: EnvValue,
    pub output_preview_length: EnvValue,
    pub temp_file_retention_seconds: EnvValue,
    pub events_keep_alive_seconds: EnvValue,
}

/// The configuration, but for the listen address.
#[derive(Debug)]
pub struct Config {
    pub database_url: String,
    /// Base directory the storage roots default beneath.
    pub data_root: String,
    pub artifact_root: String,
    pub model_root: String,
    /// Directories beneath which the HTTP API may register model files.
    pub model_register_roots: Vec<String>,
    pub temporary_dir: String,
    pub trash_dir: String,
    /// Built dashboard to serve at `/`, when set.
    pub dashboard_dist: Option<String>,
    pub limits: StorageLimits,
    /// Seconds between keep-alive comments on the live event stream.
    pub events_keep_alive_seconds: u64,
}

/// `name` + ` environment variable is empty`.
pub open spec fn empty_message(name: Seq<char>) -> Seq<char> {
    name + " environment variable is empty"@
}

/// `name` + ` environment variable is not valid UTF-8`.
pub open spec fn not_unicode_message(name: Seq<char>) -> Seq<char> {
    name + " environment variable is not valid UTF-8"@
}

fn message(name: &str, rest: &str) -> (e: ConfigError)
    ensures
        e.0@ == name@ + rest@,
{
    let mut m = String::from_str(name);
    m.append(rest);
    ConfigError(m)
}

/// `base` joined with `p` (`Path::join`): `p` itself when absolute, else
/// `p` after `base` and a separator (none after an empty base or a base
/// ending in `/`).
pub open spec fn path_join(base: Seq<char>, p: Seq<char>) -> Seq<char> {
    if p.len() > 0 && p[0] == '/' {
        p
    } else if base.len() == 0 || base.last() == '/' {
        base + p
    } else {
        base + seq!['/'] + p
    }
}

/// Joins a relative or absolute path onto a base directory.
pub fn join_path(base: &str, p: &str) -> (r: String)
    ensures
        r@ == path_join(base@, p@),
{
    let pc = chars_of(p);
    if pc.len() > 0 && pc[0] == '/' {
        return String::from_str(p);
    }
    let bc = chars_of(base);
    let mut r = String::from_str(base);
    if !(bc.len() == 0 || bc[bc.len() - 1] == '/') {
        push_char(&mut r, '/');
    }
    r.append(p);
    r
}

/// A required variable: set and not blank.
pub open spec fn required_outcome(name: Seq<char>, v: EnvValue) -> Result<Seq<char>, Seq<char>> {
    match v {
        EnvValue::Value(s) => if is_blank_text(s@) {
            Err(empty_message(name))
        } else {
            Ok(s@)
        },
        _ => Err(name + " environment variable is not set"@),
    }
}

fn required_var(name: &str, v: EnvValue) -> (r: Result<String, ConfigError>)
    ensures
        match r {
            Ok(s) => required_outcome(name@, v) == Ok::<Seq<char>, Seq<char>>(s@),
            Err(e) => required_outcome(name@, v) == Err::<Seq<char>, Seq<char>>(e.0@),
        },
{
    match v {
        EnvValue::Value(s) => if is_blank(s.as_str()) {
            Err(message(name, " environment variable is empty"))
        } else {
            Ok(s)
        },
        _ => Err(message(name, " environment variable is not set")),
    }
}

/// A storage root: the variable when set (not blank), else the default
/// leaf beneath the data root.
pub open spec fn root_outcome(name: Seq<char>, v: EnvValue, data_root: Seq<char>, leaf: Seq<char>) -> Result<Seq<char>, Seq<char>> {
    match v {
        EnvValue::Value(s) => if is_blank_text(s@) {
            Err(empty_message(name))
        } else {
            Ok(s@)
        },
        EnvValue::Unset => Ok(path_join(data_root, leaf)),
        EnvValue::NotUnicode => Err(not_unicode_message(name)),
    }
}

fn path_var_or_default(name: &str, v: EnvValue, data_root: &str, leaf: &str) -> (r: Result<String, ConfigError>)
    ensures
        match r {
            Ok(s) => root_outcome(name@, v, data_root@, leaf@) == Ok::<Seq<char>, Seq<char>>(s@),
            Err(e) => root_outcome(name@, v, data_root@, leaf@) == Err::<Seq<char>, Seq<char>>(e.0@),
        },
{
    match v {
        EnvValue::Value(s) => if is_blank(s.as_str()) {
            Err(message(name, " environment variable is empty"))
        } else {
            Ok(s)
        },
        EnvValue::Unset => Ok(join_path(data_root, leaf)),
        EnvValue::NotUnicode => Err(message(name, " environment variable is not valid UTF-8")),
    }
}

/// An optional path: unset gives none; set but blank is refused.
pub open spec fn optional_outcome(name: Seq<char>, v: EnvValue) -> Result<Option<Seq<char>>, Seq<char>> {
    match v {
        EnvValue::Value(s) => if is_blank_text(s@) {
            Err(empty_message(name))
        } else {
            Ok(Some(s@))
        },
        EnvValue::Unset => Ok(None),
        EnvValue::NotUnicode => Err(not_unicode_message(name)),
    }
}

fn optional_path_var(name: &str, v: EnvValue) -> (r: Result<Option<String>, ConfigError>)
    ensures
        match r {
            Ok(s) => optional_outcome(name@, v) == Ok::<Option<Seq<char>>, Seq<char>>(
                match s {
                    Some(t) => Some(t@),
                    None => None,
                },
            ),
            Err(e) => optional_outcome(name@, v) == Err::<Option<Seq<char>>, Seq<char>>(e.0@),
        },
{
    match v {
        EnvValue::Value(s) => if is_blank(s.as_str()) {
            Err(message(name, " environment variable is empty"))
        } else {
            Ok(Some(s))
        },
        EnvValue::Unset => Ok(None),
        EnvValue::NotUnicode => Err(message(name, " environment variable is not valid UTF-8")),
    }
}

/// What `str::parse::<u64>` reads: an optional `+` then one or more ASCII
/// digits whose value fits.
pub open spec fn u64_reading(s: Seq<char>) -> Option<u64> {
    let d = if s.len() > 0 && s[0] == '+' {
        s.drop_first()
    } else {
        s
    };
    if d.len() > 0 && crate::text::all_digits(d) && crate::text::digits_value(d) <= u64::MAX {
        Some(crate::text::digits_value(d) as u64)
    } else {
        None
    }
}

/// The message of the error `str::parse::<u64>` gives for `s`.
pub uninterp spec fn u64_parse_error(s: Seq<char>) -> Seq<char>;

/// Reads an optional `+` and one or more ASCII digits whose value fits in
/// a `u64`, as `str::parse::<u64>` does.
fn read_u64(s: &str) -> (r: Option<u64>)
    ensures
        r == u64_reading(s@),
{
    let cs = chars_of(s);
    let start: usize = if cs.len() > 0 && cs[0] == '+' {
        1
    } else {
        0
    };
    let ghost d = cs@.skip(start as int);
    proof {
        if start == 1 {
            assert(d =~= s@.drop_first());
        } else {
            assert(d =~= s@);
        }
    }
    if start >= cs.len() {
        return None;
    }
    let mut i: usize = start;
    let mut acc: u128 = 0;
    let limit: u128 = 18_446_744_073_709_551_615;
    while i < cs.len()
        invariant
            cs@ == s@,
            d == cs@.skip(start as int),
            d == (if start == 1 { s@.drop_first() } else { s@ }),
            start <= i <= cs.len(),
            start == 1 <==> (s@.len() > 0 && s@[0] == '+'),
            limit == u64::MAX,
            acc <= limit,
            crate::text::all_digits(d.take(i - start)),
            acc == crate::text::digits_value(d.take(i - start)),
        decreases cs.len() - i,
    {
        let c = cs[i];
        if !('0' <= c && c <= '9') {
            assert(d[i - start] == c);
            assert(!crate::text::all_digits(d));
            return None;
        }
        let dv: u128 = ((c as u32) - ('0' as u32)) as u128;
        assert(d.take(i - start + 1).drop_last() =~= d.take(i - start));
        assert(d.take(i - start + 1).last() == c);
        acc = acc * 10 + dv;
        i = i + 1;
        if acc > limit {
            proof {
                if crate::text::all_digits(d) {
                    crate::text::lemma_digits_grow(d, i - start);
                }
            }
            return None;
        }
    }
    assert(d.take(i - start) =~= d);
    Some(acc as u64)
}

/// The message of `str::parse::<u64>`'s error for a text it refuses
/// (`ParseIntError`'s `Display`).
#[verifier::external_body]
fn u64_error_text(s: &str) -> (e: String)
    requires
        u64_reading(s@) is None,
    ensures
        e@ == u64_parse_error(s@),
{
    match s.parse::<u64>() {
        Err(err) => err.to_string(),
        Ok(_) => String::new(),
    }
}

/// What `s.parse::<u64>()` gives: the value, or its error's message.
fn parse_u64_text(s: &str) -> (r: Result<u64, String>)
    ensures
        match r {
            Ok(v) => u64_reading(s@) == Some(v),
            Err(e) => u64_reading(s@) is None && e@ == u64_parse_error(s@),
        },
{
    match read_u64(s) {
        Some(v) => Ok(v),
        None => Err(u64_error_text(s)),
    }
}

/// What `str::parse::<usize>` reads.
pub open spec fn usize_reading(s: Seq<char>) -> Option<usize> {
    let d = if s.len() > 0 && s[0] == '+' {
        s.drop_first()
    } else {
        s
    };
    if d.len() > 0 && crate::text::all_digits(d) && crate::text::digits_value(d) <= usize::MAX {
        Some(crate::text::digits_value(d) as usize)
    } else {
        None
    }
}

/// The message of the error `str::parse::<usize>` gives for `s`.
pub uninterp spec fn usize_parse_error(s: Seq<char>) -> Seq<char>;

/// The message of `str::parse::<usize>`'s error for a text it refuses
/// (`ParseIntError`'s `Display`).
#[verifier::external_body]
fn usize_error_text(s: &str) -> (e: String)
    requires
        usize_reading(s@) is None,
    ensures
        e@ == usize_parse_error(s@),
{
    match s.parse::<usize>() {
        Err(err) => err.to_string(),
        Ok(_) => String::new(),
    }
}

/// What `s.parse::<usize>()` gives: the value, or its error's message.
fn parse_usize_text(s: &str) -> (r: Result<usize, String>)
    ensures
        match r {
            Ok(v) => usize_reading(s@) == Some(v),
            Err(e) => usize_reading(s@) is None && e@ == usize_parse_error(s@),
        },
{
    match read_u64(s) {
        Some(v) => {
            if v <= usize::MAX as u64 {
                Ok(v as usize)
            } else {
                Err(usize_error_text(s))
            }
        },
        None => Err(usize_error_text(s)),
    }
}

/// The number of leading whitespace characters.
pub open spec fn lead_ws(s: Seq<char>) -> nat
    decreases s.len(),
{
    if s.len() > 0 && is_whitespace(s[0]) {
        1 + lead_ws(s.drop_first())
    } else {
        0
    }
}

/// The number of trailing whitespace characters.
pub open spec fn trail_ws(s: Seq<char>) -> nat
    decreases s.len(),
{
    if s.len() > 0 && is_whitespace(s.last()) {
        1 + trail_ws(s.drop_last())
    } else {
        0
    }
}

/// `s.trim()`: without leading and trailing whitespace.
pub open spec fn trim_text(s: Seq<char>) -> Seq<char> {
    let t = s.skip(lead_ws(s) as int);
    t.take(t.len() - trail_ws(t))
}

proof fn lemma_lead_ws(s: Seq<char>, i: int)
    requires
        0 <= i <= s.len(),
        forall|j: int| 0 <= j < i ==> is_whitespace(#[trigger] s[j]),
        i == s.len() || !is_whitespace(s[i]),
    ensures
        lead_ws(s) == i,
    decreases i,
{
    if i > 0 {
        lemma_lead_ws(s.drop_first(), i - 1);
    }
}

proof fn lemma_trail_ws(s: Seq<char>, i: int)
    requires
        0 <= i <= s.len(),
        forall|j: int| s.len() - i <= j < s.len() ==> is_whitespace(#[trigger] s[j]),
        i == s.len() || !is_whitespace(s[s.len() - i - 1]),
    ensures
        trail_ws(s) == i,
    decreases i,
{
    if i > 0 {
        lemma_trail_ws(s.drop_last(), i - 1);
    }
}

/// `s.trim()`.
pub fn trim(s: &str) -> (t: String)
    ensures
        t@ == trim_text(s@),
{
    let cs = chars_of(s);
    let mut a: usize = 0;
    while a < cs.len() && crate::text::char_is_whitespace(cs[a])
        invariant
            cs@ == s@,
            a <= cs.len(),
            forall|j: int| 0 <= j < a ==> is_whitespace(#[trigger] cs@[j]),
        decreases cs.len() - a,
    {
        a = a + 1;
    }
    proof {
        lemma_lead_ws(s@, a as int);
    }
    let ghost t = s@.skip(a as int);
    let mut b: usize = 0;
    while b < cs.len() - a && crate::text::char_is_whitespace(cs[cs.len() - 1 - b])
        invariant
            cs@ == s@,
            a <= cs.len(),
            t == s@.skip(a as int),
            b <= cs.len() - a,
            forall|j: int| t.len() - b <= j < t.len() ==> is_whitespace(#[trigger] t[j]),
        decreases cs.len() - a - b,
    {
        assert(t[t.len() - b - 1] == cs@[cs.len() - 1 - b]);
        b = b + 1;
    }
    proof {
        if b < t.len() {
            assert(t[t.len() - b - 1] == cs@[cs.len() - 1 - b]);
        }
        lemma_trail_ws(t, b as int);
    }
    let r = string_of_chars(&cs, a, cs.len() - b);
    assert(r@ =~= trim_text(s@));
    r
}

/// A numeric variable: its trimmed value read as a `u64`, or the default
/// when unset.
pub open spec fn u64_outcome(name: Seq<char>, v: EnvValue, default: u64) -> Result<u64, Seq<char>> {
    match v {
        EnvValue::Value(s) => if is_blank_text(s@) {
            Err(empty_message(name))
        } else {
            match u64_reading(trim_text(s@)) {
                Some(n) => Ok(n),
                None => Err(name + " is not a valid non-negative integer: "@ + u64_parse_error(trim_text(s@))),
            }
        },
        EnvValue::Unset => Ok(default),
        EnvValue::NotUnicode => Err(not_unicode_message(name)),
    }
}

fn parse_u64_var(name: &str, v: EnvValue, default: u64) -> (r: Result<u64, ConfigError>)
    ensures
        match r {
            Ok(n) => u64_outcome(name@, v, default) == Ok::<u64, Seq<char>>(n),
            Err(e) => u64_outcome(name@, v, default) == Err::<u64, Seq<char>>(e.0@),
        },
{
    match v {
        EnvValue::Value(s) => if is_blank(s.as_str()) {
            Err(message(name, " environment variable is empty"))
        } else {
            let t = trim(s.as_str());
            match parse_u64_text(t.as_str()) {
                Ok(n) => Ok(n),
                Err(e) => {
                    let mut m = String::from_str(name);
                    m.append(" is not a valid non-negative integer: ");
                    m.append(e.as_str());
                    Err(ConfigError(m))
                },
            }
        },
        EnvValue::Unset => Ok(default),
        EnvValue::NotUnicode => Err(message(name, " environment variable is not valid UTF-8")),
    }
}

/// A numeric variable read as a `usize`, or the default when unset.
pub open spec fn usize_outcome(name: Seq<char>, v: EnvValue, default: usize) -> Result<usize, Seq<char>> {
    match v {
        EnvValue::Value(s) => if is_blank_text(s@) {
            Err(empty_message(name))
        } else {
            match usize_reading(trim_text(s@)) {
                Some(n) => Ok(n),
                None => Err(name + " is not a valid non-negative integer: "@ + usize_parse_error(
                    trim_text(s@),
                )),
            }
        },
        EnvValue::Unset => Ok(default),
        EnvValue::NotUnicode => Err(not_unicode_message(name)),
    }
}

fn parse_usize_var(name: &str, v: EnvValue, default: usize) -> (r: Result<usize, ConfigError>)
    ensures
        match r {
            Ok(n) => usize_outcome(name@, v, default) == Ok::<usize, Seq<char>>(n),
            Err(e) => usize_outcome(name@, v, default) == Err::<usize, Seq<char>>(e.0@),
        },
{
    match v {
        EnvValue::Value(s) => if is_blank(s.as_str()) {
            Err(message(name, " environment variable is empty"))
        } else {
            let t = trim(s.as_str());
            match parse_usize_text(t.as_str()) {
                Ok(n) => Ok(n),
                Err(e) => {
                    let mut m = String::from_str(name);
                    m.append(" is not a valid non-negative integer: ");
                    m.append(e.as_str());
                    Err(ConfigError(m))
                },
            }
        },
        EnvValue::Unset => Ok(default),
        EnvValue::NotUnicode => Err(message(name, " environment variable is not valid UTF-8")),
    }
}

/// The pieces of `s` between colons, from position `from` on.
pub open spec fn colon_pieces(s: Seq<char>, from: int) -> Seq<Seq<char>>
    decreases s.len() - from,
{
    if from < 0 || from > s.len() {
        Seq::empty()
    } else {
        let rest = s.skip(from);
        let i = first_index(rest, ':');
        if i < 0 {
            seq![rest]
        } else {
            proof {
                crate::text::lemma_first_index_bounds(rest, ':');
            }
            seq![rest.take(i)] + colon_pieces(s, from + i + 1)
        }
    }
}

/// A list of directories: unset gives the default alone; otherwise every
/// colon-separated entry, trimmed, none of them blank.
pub open spec fn list_outcome(name: Seq<char>, v: EnvValue, default: Seq<char>) -> Result<Seq<Seq<char>>, Seq<char>> {
    match v {
        EnvValue::Value(s) => if is_blank_text(s@) {
            Err(empty_message(name))
        } else if exists|k: int| 0 <= k < colon_pieces(s@, 0).len() && is_blank_text(#[trigger] colon_pieces(s@, 0)[k]) {
            Err(name + " contains an empty entry"@)
        } else {
            Ok(colon_pieces(s@, 0).map_values(|e: Seq<char>| trim_text(e)))
        },
        _ => Ok(seq![default]),
    }
}

/// The views of a list of strings.
pub open spec fn string_list(v: Seq<String>) -> Seq<Seq<char>> {
    v.map_values(|s: String| s@)
}

fn path_list_var(name: &str, v: EnvValue, default: &str) -> (r: Result<Vec<String>, ConfigError>)
    ensures
        match r {
            Ok(l) => list_outcome(name@, v, default@) == Ok::<Seq<Seq<char>>, Seq<char>>(string_list(l@)),
            Err(e) => list_outcome(name@, v, default@) == Err::<Seq<Seq<char>>, Seq<char>>(e.0@),
        },
{
    let s = match v {
        EnvValue::Value(s) => s,
        _ => {
            let mut l: Vec<String> = Vec::new();
            l.push(String::from_str(default));
            assert(string_list(l@) =~= seq![default@]);
            return Ok(l);
        },
    };
    if is_blank(s.as_str()) {
        return Err(message(name, " environment variable is empty"));
    }
    let cs = chars_of(s.as_str());
    let ghost pieces = colon_pieces(s@, 0);
    let mut out: Vec<String> = Vec::new();
    let mut from: usize = 0;
    let mut done = false;
    while !done
        invariant
            cs@ == s@,
            v == EnvValue::Value(s),
            !is_blank_text(s@),
            pieces == colon_pieces(s@, 0),
            from <= cs.len(),
            !done ==> out@.len() + colon_pieces(s@, from as int).len() == pieces.len(),
            !done ==> forall|k: int| 0 <= k < out@.len() ==> !is_blank_text(#[trigger] pieces[k])
                && out@[k]@ == trim_text(pieces[k]),
            !done ==> forall|k: int| 0 <= k < colon_pieces(s@, from as int).len() ==> #[trigger] colon_pieces(s@, from as int)[k]
                == pieces[out@.len() + k],
            done ==> out@.len() == pieces.len() && forall|k: int| 0 <= k < out@.len() ==> !is_blank_text(#[trigger] pieces[k])
                && out@[k]@ == trim_text(pieces[k]),
        decreases cs.len() - from + (if done { 0int } else { 1int }),
    {
        let ghost rest = s@.skip(from as int);
        let mut j: usize = from;
        while j < cs.len() && cs[j] != ':'
            invariant
                cs@ == s@,
                from <= j <= cs.len(),
                forall|q: int| from <= q < j ==> cs@[q] != ':',
            decreases cs.len() - j,
        {
            j = j + 1;
        }
        let piece = string_of_chars(&cs, from, j);
        proof {
            assert(piece@ =~= rest.take(j - from));
            if j < cs.len() {
                assert(crate::text::is_first_index(rest, ':', j - from));
                crate::text::lemma_first_index_unique(rest, ':', j - from);
            } else {
                assert(!exists|q: int| crate::text::is_first_index(rest, ':', q));
                assert(rest.take(j - from) =~= rest);
            }
            assert(colon_pieces(s@, from as int)[0] == piece@);
        }
        if is_blank(piece.as_str()) {
            proof {
                assert(pieces[out@.len() as int] == piece@);
                assert(is_blank_text(pieces[out@.len() as int]));
                assert(out@.len() < pieces.len());
                assert(0 <= out@.len() < colon_pieces(s@, 0).len() && is_blank_text(colon_pieces(s@, 0)[out@.len() as int]));
            }
            return Err(message(name, " contains an empty entry"));
        }
        let t = trim(piece.as_str());
        let ghost before = out@;
        out.push(t);
        proof {
            assert(pieces[before.len() as int] == piece@);
            assert forall|k: int| 0 <= k < out@.len() implies !is_blank_text(#[trigger] pieces[k])
                && out@[k]@ == trim_text(pieces[k]) by {
                if k < before.len() {
                    assert(out@[k] == before[k]);
                }
            }
        }
        if j < cs.len() {
            proof {
                let c = colon_pieces(s@, from as int);
                let n = colon_pieces(s@, j + 1);
                assert(c == seq![piece@] + n);
                assert forall|k: int| 0 <= k < n.len() implies #[trigger] n[k] == pieces[out@.len() + k] by {
                    assert(c[k + 1] == n[k]);
                }
            }
            from = j + 1;
        } else {
            done = true;
        }
    }
    proof {
        let l = string_list(out@);
        assert(!exists|k: int| 0 <= k < pieces.len() && is_blank_text(#[trigger] pieces[k]));
        assert(l =~= pieces.map_values(|e: Seq<char>| trim_text(e)));
    }
    Ok(out)
}

/// The data root the environment gives: its value, or `data`.
pub open spec fn data_root_of(env: EnvValues) -> Seq<char> {
    match env.data_root {
        EnvValue::Value(s) => s@,
        _ => "data"@,
    }
}

/// The first failure reading the environment, in the order
/// `config_from_env` reads it, or `None` when every value reads.
pub open spec fn config_refusal(env: EnvValues) -> Option<Seq<char>> {
    let data_root = data_root_of(env);
    let model_root = root_outcome("MODEL_ROOT"@, env.model_root, data_root, "models"@);
    if required_outcome("DATABASE_URL"@, env.database_url) is Err {
        Some(required_outcome("DATABASE_URL"@, env.database_url)->Err_0)
    } else if root_outcome("ARTIFACT_ROOT"@, env.artifact_root, data_root, "artifacts"@) is Err {
        Some(root_outcome("ARTIFACT_ROOT"@, env.artifact_root, data_root, "artifacts"@)->Err_0)
    } else if model_root is Err {
        Some(model_root->Err_0)
    } else if root_outcome("TEMPORARY_DIR"@, env.temporary_dir, data_root, "temporary"@) is Err {
        Some(root_outcome("TEMPORARY_DIR"@, env.temporary_dir, data_root, "temporary"@)->Err_0)
    } else if root_outcome("TRASH_DIR"@, env.trash_dir, data_root, "trash"@) is Err {
        Some(root_outcome("TRASH_DIR"@, env.trash_dir, data_root, "trash"@)->Err_0)
    } else if list_outcome("MODEL_REGISTER_ROOTS"@, env.model_register_roots, model_root->Ok_0) is Err {
        Some(list_outcome("MODEL_REGISTER_ROOTS"@, env.model_register_roots, model_root->Ok_0)->Err_0)
    } else if optional_outcome("DASHBOARD_DIST"@, env.dashboard_dist) is Err {
        Some(optional_outcome("DASHBOARD_DIST"@, env.dashboard_dist)->Err_0)
    } else if u64_outcome("MAX_ARTIFACT_UPLOAD_BYTES"@, env.max_artifact_upload_bytes, 536_870_912) is Err {
        Some(u64_outcome("MAX_ARTIFACT_UPLOAD_BYTES"@, env.max_artifact_upload_bytes, 536_870_912)->Err_0)
    } else if usize_outcome("OUTPUT_PREVIEW_LENGTH"@, env.output_preview_length, 2048) is Err {
        Some(usize_outcome("OUTPUT_PREVIEW_LENGTH"@, env.output_preview_length, 2048)->Err_0)
    } else if u64_outcome("TEMP_FILE_RETENTION_SECONDS"@, env.temp_file_retention_seconds, 86_400) is Err {
        Some(u64_outcome("TEMP_FILE_RETENTION_SECONDS"@, env.temp_file_retention_seconds, 86_400)->Err_0)
    } else if u64_outcome("EVENTS_KEEP_ALIVE_SECONDS"@, env.events_keep_alive_seconds, 15) is Err {
        Some(u64_outcome("EVENTS_KEEP_ALIVE_SECONDS"@, env.events_keep_alive_seconds, 15)->Err_0)
    } else {
        None
    }
}

/// The configuration the environment values give, or the first failure,
/// reading in this order: database URL, data root (default `data`), the
/// artifact, model, temporary and trash roots, the model registration
/// roots (default: the model root), the dashboard, the storage limits, and
/// the keep-alive interval (default 15 s).
pub fn config_from_env(env: EnvValues) -> (r: Result<Config, ConfigError>)
    ensures
        ({
            let data_root = data_root_of(env);
            match r {
                Ok(c) => {
                    &&& config_refusal(env) is None
                    &&& required_outcome("DATABASE_URL"@, env.database_url) == Ok::<Seq<char>, Seq<char>>(
                        c.database_url@,
                    )
                    &&& c.data_root@ == data_root
                    &&& root_outcome("ARTIFACT_ROOT"@, env.artifact_root, data_root, "artifacts"@) == Ok::<
                        Seq<char>,
                        Seq<char>,
                    >(c.artifact_root@)
                    &&& root_outcome("MODEL_ROOT"@, env.model_root, data_root, "models"@) == Ok::<
                        Seq<char>,
                        Seq<char>,
                    >(c.model_root@)
                    &&& root_outcome("TEMPORARY_DIR"@, env.temporary_dir, data_root, "temporary"@) == Ok::<
                        Seq<char>,
                        Seq<char>,
                    >(c.temporary_dir@)
                    &&& root_outcome("TRASH_DIR"@, env.trash_dir, data_root, "trash"@) == Ok::<
                        Seq<char>,
                        Seq<char>,
                    >(c.trash_dir@)
                    &&& list_outcome("MODEL_REGISTER_ROOTS"@, env.model_register_roots, c.model_root@)
                        == Ok::<Seq<Seq<char>>, Seq<char>>(string_list(c.model_register_roots@))
                    &&& optional_outcome("DASHBOARD_DIST"@, env.dashboard_dist) == Ok::<
                        Option<Seq<char>>,
                        Seq<char>,
                    >(
                        match c.dashboard_dist {
                            Some(t) => Some(t@),
                            None => None,
                        },
                    )
                    &&& u64_outcome(
                        "MAX_ARTIFACT_UPLOAD_BYTES"@,
                        env.max_artifact_upload_bytes,
                        536_870_912,
                    ) == Ok::<u64, Seq<char>>(c.limits.max_artifact_upload_bytes)
                    &&& usize_outcome("OUTPUT_PREVIEW_LENGTH"@, env.output_preview_length, 2048)
                        == Ok::<usize, Seq<char>>(c.limits.output_preview_length)
                    &&& u64_outcome(
                        "TEMP_FILE_RETENTION_SECONDS"@,
                        env.temp_file_retention_seconds,
                        86_400,
                    ) == Ok::<u64, Seq<char>>(c.limits.temp_file_retention_seconds)
                    &&& u64_outcome("EVENTS_KEEP_ALIVE_SECONDS"@, env.events_keep_alive_seconds, 15)
                        == Ok::<u64, Seq<char>>(c.events_keep_alive_seconds)
                },
                Err(e) => config_refusal(env) == Some(e.0@),
            }
        }),
{
    let database_url = required_var("DATABASE_URL", env.database_url)?;
    let data_root = match env.data_root {
        EnvValue::Value(s) => s,
        _ => String::from_str("data"),
    };
    let artifact_root = path_var_or_default("ARTIFACT_ROOT", env.artifact_root, data_root.as_str(), "artifacts")?;
    let model_root = path_var_or_default("MODEL_ROOT", env.model_root, data_root.as_str(), "models")?;
    let temporary_dir = path_var_or_default("TEMPORARY_DIR", env.temporary_dir, data_root.as_str(), "temporary")?;
    let trash_dir = path_var_or_default("TRASH_DIR", env.trash_dir, data_root.as_str(), "trash")?;
    let model_register_roots = path_list_var("MODEL_REGISTER_ROOTS", env.model_register_roots, model_root.as_str())?;
    let dashboard_dist = optional_path_var("DASHBOARD_DIST", env.dashboard_dist)?;
    let max_artifact_upload_bytes = parse_u64_var("MAX_ARTIFACT_UPLOAD_BYTES", env.max_artifact_upload_bytes, 536_870_912)?;
    let output_preview_length = parse_usize_var("OUTPUT_PREVIEW_LENGTH", env.output_preview_length, 2048)?;
    let temp_file_retention_seconds = parse_u64_var("TEMP_FILE_RETENTION_SECONDS", env.temp_file_retention_seconds, 86_400)?;
    let events_keep_alive_seconds = parse_u64_var("EVENTS_KEEP_ALIVE_SECONDS", env.events_keep_alive_seconds, 15)?;
    Ok(
        Config {
            database_url,
            data_root,
            artifact_root,
            model_root,
            model_register_roots,
            temporary_dir,
            trash_dir,
            dashboard_dist,
            limits: StorageLimits { max_artifact_upload_bytes, output_preview_length, temp_file_retention_seconds },
            events_keep_alive_seconds,
        },
    )
}

} // verus!
