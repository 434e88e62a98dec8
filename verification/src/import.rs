//! The benchmark-log importer's logic: reading the log's markers and
//! observer lines, and deriving each repetition's run from the manifest.

use vstd::prelude::*;
use crate::domain::{DeviceClass, ExitStatus, Platform};
use crate::float64::Float64;
use crate::host_rules::clone_opt;
use crate::runs::{AndroidDeviceState, HostState, LinuxHostState, opt_view};
use crate::text::{int_text, push_signed, occurs, occurs_at,
    chars_of, debug_quoted, digit_char, ends_with, has_prefix, has_suffix, i64_reading,
    is_blank_text, is_last_occurrence, nat_text, parse_i64, push_char, push_decimal, quote_debug,
    rfind, starts_with, string_of_chars, is_blank,
};

verus! {

broadcast use vstd::string::group_string_axioms;

/// The position of the next `\n` in `s` at or after `from`, or -1.
pub open spec fn next_newline(s: Seq<char>, from: int) -> int
    decreases s.len() - from,
{
    if from < 0 || from >= s.len() {
        -1
    } else if s[from] == '\n' {
        from
    } else {
        next_newline(s, from + 1)
    }
}

pub proof fn lemma_next_newline(s: Seq<char>, from: int)
    ensures
        next_newline(s, from) == -1 || (from <= next_newline(s, from) < s.len() && s[next_newline(
            s,
            from,
        )] == '\n'),
    decreases s.len() - from,
{
    if 0 <= from < s.len() && s[from] != '\n' {
        lemma_next_newline(s, from + 1);
    }
}

/// A line without the `\r` that ended it before its `\n`.
pub open spec fn strip_cr(l: Seq<char>) -> Seq<char> {
    if l.len() > 0 && l.last() == '\r' {
        l.drop_last()
    } else {
        l
    }
}

/// The lines of `s` from position `from` on, as `str::lines` gives them:
/// each `\n` ends a line and is dropped, with a `\r` just before it; the
/// last line needs no `\n`; there is no empty line after a final `\n`.
pub open spec fn lines_from(s: Seq<char>, from: int) -> Seq<Seq<char>>
    decreases s.len() - from,
{
    if from < 0 || from >= s.len() {
        Seq::empty()
    } else {
        let j = next_newline(s, from);
        proof {
            lemma_next_newline(s, from);
        }
        if j < 0 {
            seq![s.subrange(from, s.len() as int)]
        } else {
            seq![strip_cr(s.subrange(from, j))] + lines_from(s, j + 1)
        }
    }
}

/// The views of a list of strings.
pub open spec fn views(v: Seq<String>) -> Seq<Seq<char>> {
    v.map_values(|s: String| s@)
}

/// The lines of `text`, as `str::lines` gives them.
pub fn split_lines(text: &str) -> (lines: Vec<String>)
    ensures
        views(lines@) == lines_from(text@, 0),
{
    let cs = chars_of(text);
    let mut out: Vec<String> = Vec::new();
    let mut from: usize = 0;
    assert(views(out@) + lines_from(cs@, 0) =~= lines_from(cs@, 0));
    while from < cs.len()
        invariant
            cs@ == text@,
            from <= cs.len(),
            views(out@) + lines_from(cs@, from as int) == lines_from(cs@, 0),
        decreases cs.len() - from,
    {
        let mut j: usize = from;
        while j < cs.len() && cs[j] != '\n'
            invariant
                from <= j <= cs.len(),
                next_newline(cs@, from as int) == next_newline(cs@, j as int),
            decreases cs.len() - j,
        {
            j = j + 1;
        }
        proof {
            lemma_next_newline(cs@, from as int);
        }
        let ghost before = views(out@);
        if j < cs.len() {
            let end = if j > from && cs[j - 1] == '\r' {
                j - 1
            } else {
                j
            };
            let line = string_of_chars(&cs, from, end);
            assert(line@ == strip_cr(cs@.subrange(from as int, j as int))) by {
                if j > from && cs@[j - 1] == '\r' {
                    assert(cs@.subrange(from as int, j as int).drop_last() =~= cs@.subrange(
                        from as int,
                        end as int,
                    ));
                }
            }
            out.push(line);
            assert(views(out@) =~= before.push(line@));
            assert(lines_from(cs@, from as int) == seq![line@] + lines_from(cs@, j + 1));
            assert(views(out@) + lines_from(cs@, j + 1) =~= before + lines_from(cs@, from as int));
            from = j + 1;
        } else {
            let line = string_of_chars(&cs, from, cs.len());
            out.push(line);
            assert(views(out@) =~= before.push(line@));
            assert(lines_from(cs@, from as int) == seq![line@]);
            assert(lines_from(cs@, cs.len() as int) =~= Seq::<Seq<char>>::empty());
            assert(views(out@) + lines_from(cs@, cs.len() as int) =~= before + lines_from(
                cs@,
                from as int,
            ));
            from = cs.len();
        }
    }
    assert(lines_from(cs@, from as int) =~= Seq::<Seq<char>>::empty());
    assert(views(out@) =~= lines_from(cs@, 0));
    out
}

/// One repetition found in the log: its tag and repetition number from
/// the marker, the marker's line number, and the observer line that
/// followed it (with its line number), if any.
#[derive(Debug)]
pub struct LogRecord {
    pub tag: String,
    pub rep: i64,
    pub line_number: usize,
    pub observer: Option<(usize, String)>,
}

/// A repetition found in the log, as a view.
pub struct RecordView {
    pub tag: Seq<char>,
    pub rep: i64,
    pub line_number: nat,
    pub observer: Option<(nat, Seq<char>)>,
}

impl View for LogRecord {
    type V = RecordView;

    open spec fn view(&self) -> RecordView {
        RecordView {
            tag: self.tag@,
            rep: self.rep,
            line_number: self.line_number as nat,
            observer: match self.observer {
                Some((n, l)) => Some((n as nat, l@)),
                None => None,
            },
        }
    }
}

/// The views of a list of records.
pub open spec fn record_views(v: Seq<LogRecord>) -> Seq<RecordView> {
    v.map_values(|r: LogRecord| r@)
}

/// Where reading the log stands: the repetitions complete so far and the
/// marker still waiting for its observer line.
pub struct ScanView {
    pub records: Seq<RecordView>,
    pub pending: Option<(Seq<char>, i64, nat)>,
}

/// The text between `=== ` and ` ===` of a marker line.
pub open spec fn marker_inner(line: Seq<char>) -> Option<Seq<char>> {
    if has_prefix(line, "=== "@) && has_suffix(line.skip(4), " ==="@) {
        Some(line.skip(4).take(line.len() - 8))
    } else {
        None
    }
}

/// The marker text split at its last ` rep`: the tag and the repetition
/// text.
pub open spec fn split_rep(inner: Seq<char>) -> Option<(Seq<char>, Seq<char>)> {
    if exists|i: int| is_last_occurrence(inner, " rep"@, i) {
        let i = choose|i: int| is_last_occurrence(inner, " rep"@, i);
        Some((inner.take(i), inner.skip(i + 4)))
    } else {
        None
    }
}

/// The records with the waiting marker closed as a repetition that
/// printed no observer line.
pub open spec fn flushed(st: ScanView) -> Seq<RecordView> {
    match st.pending {
        Some((t, r, at)) => st.records.push(RecordView { tag: t, rep: r, line_number: at, observer: None }),
        None => st.records,
    }
}

/// An error about line `n`.
pub open spec fn line_error(n: nat, what: Seq<char>) -> Seq<char> {
    "line "@ + nat_text(n) + ": "@ + what
}

/// Reading line `n` of the log: a marker closes the waiting one and, when
/// it names a repetition, waits for its observer line; an observer line
/// completes the waiting marker; blank lines are skipped; anything else
/// is refused.
pub open spec fn scan_line(st: ScanView, line: Seq<char>, n: nat) -> Result<ScanView, Seq<char>> {
    match marker_inner(line) {
        Some(inner) => match split_rep(inner) {
            None => Ok(ScanView { records: flushed(st), pending: None }),
            Some((tag, rep_text)) => match i64_reading(rep_text) {
                None => Err(line_error(n, "bad repetition in marker "@ + debug_quoted(line))),
                Some(rep) => Ok(ScanView { records: flushed(st), pending: Some((tag, rep, n)) }),
            },
        },
        None => if has_prefix(line, "PyTorchObserver "@) {
            match st.pending {
                None => Err(line_error(n, "observer line without a preceding marker"@)),
                Some((t, r, at)) => Ok(
                    ScanView {
                        records: st.records.push(
                            RecordView { tag: t, rep: r, line_number: at, observer: Some((n, line)) },
                        ),
                        pending: None,
                    },
                ),
            }
        } else if !is_blank_text(line) {
            Err(line_error(n, "unrecognized line "@ + debug_quoted(line)))
        } else {
            Ok(st)
        },
    }
}

/// Reading the lines in order, stopping at the first refused one.
pub open spec fn scan_lines(lines: Seq<Seq<char>>) -> (ScanView, Option<Seq<char>>)
    decreases lines.len(),
{
    if lines.len() == 0 {
        (ScanView { records: Seq::empty(), pending: None }, None)
    } else {
        let (st, err) = scan_lines(lines.drop_last());
        if err is Some {
            (st, err)
        } else {
            match scan_line(st, lines.last(), lines.len()) {
                Ok(next) => (next, None),
                Err(e) => (st, Some(e)),
            }
        }
    }
}

/// What reading a log gives: every repetition, or, at the first refused
/// line, the repetitions complete before it and the refusal.
#[derive(Debug)]
pub struct LogScan {
    pub records: Vec<LogRecord>,
    pub error: Option<String>,
}

proof fn lemma_last_occurrence_unique(s: Seq<char>, p: Seq<char>, i: int)
    requires
        is_last_occurrence(s, p, i),
    ensures
        split_rep(s) == (if p == " rep"@ {
            Some((s.take(i), s.skip(i + 4)))
        } else {
            split_rep(s)
        }),
{
    if p == " rep"@ {
        let k = choose|k: int| is_last_occurrence(s, " rep"@, k);
        assert(is_last_occurrence(s, " rep"@, k));
        if k < i {
            assert(!occurs_at_rep(s, i, k));
        } else if i < k {
            assert(!occurs_at_rep(s, k, i));
        }
    }
}

spec fn occurs_at_rep(s: Seq<char>, at: int, last: int) -> bool {
    crate::text::occurs_at(s, " rep"@, at) && last < at && is_last_occurrence(s, " rep"@, last)
}

proof fn lemma_scan_error_sticks(lines: Seq<Seq<char>>, k: int)
    requires
        0 <= k <= lines.len(),
        scan_lines(lines.take(k)).1 is Some,
    ensures
        scan_lines(lines) == scan_lines(lines.take(k)),
    decreases lines.len() - k,
{
    if k < lines.len() {
        assert(lines.take(k + 1).drop_last() =~= lines.take(k));
        lemma_scan_error_sticks(lines, k + 1);
    } else {
        assert(lines.take(k) =~= lines);
    }
}

fn line_message(n: usize, what: &str) -> (m: String)
    ensures
        m@ == line_error(n as nat, what@),
{
    let mut m = String::from_str("line ");
    push_decimal(&mut m, n as u64);
    m.append(": ");
    m.append(what);
    proof {
        reveal_strlit("line ");
        reveal_strlit(": ");
    }
    assert(m@ =~= line_error(n as nat, what@));
    m
}

fn quoted_message(prefix: &str, line: &str) -> (m: String)
    ensures
        m@ == prefix@ + debug_quoted(line@),
{
    let mut m = String::from_str(prefix);
    let q = quote_debug(line);
    m.append(q.as_str());
    m
}

/// Reads a benchmark log: `=== <tag> rep<N> ===` markers, each followed by
/// a `PyTorchObserver {json}` line unless the repetition printed nothing.
pub fn parse_log(text: &str) -> (r: LogScan)
    ensures
        ({
            let (st, err) = scan_lines(lines_from(text@, 0));
            match err {
                Some(e) => {
                    &&& r.error is Some
                    &&& r.error->0@ == e
                    &&& record_views(r.records@) == st.records
                },
                None => r.error is None && record_views(r.records@) == flushed(st),
            }
        }),
{
    let lines = split_lines(text);
    let ghost all = lines_from(text@, 0);
    let marker_open = chars_of("=== ");
    let marker_close = chars_of(" ===");
    let observer_prefix = chars_of("PyTorchObserver ");
    let rep_sep = chars_of(" rep");
    proof {
        reveal_strlit("=== ");
        reveal_strlit(" ===");
        reveal_strlit("PyTorchObserver ");
        reveal_strlit(" rep");
    }
    let mut records: Vec<LogRecord> = Vec::new();
    let mut pending: Option<(String, i64, usize)> = None;
    let mut idx: usize = 0;
    assert(all.take(0) =~= Seq::<Seq<char>>::empty());
    assert(record_views(records@) =~= Seq::<RecordView>::empty());
    while idx < lines.len()
        invariant
            views(lines@) == all,
            all == lines_from(text@, 0),
            idx <= lines.len(),
            marker_open@ == "=== "@,
            marker_close@ == " ==="@,
            observer_prefix@ == "PyTorchObserver "@,
            rep_sep@ == " rep"@,
            scan_lines(all.take(idx as int)).1 is None,
            scan_lines(all.take(idx as int)).0 == (ScanView {
                records: record_views(records@),
                pending: match pending {
                    Some((t, r, at)) => Some((t@, r, at as nat)),
                    None => None,
                },
            }),
        decreases lines.len() - idx,
    {
        proof {
            reveal_strlit("=== ");
            reveal_strlit(" ===");
            reveal_strlit("PyTorchObserver ");
            reveal_strlit(" rep");
        }
        let n = idx + 1;
        let ghost st = scan_lines(all.take(idx as int)).0;
        let ghost line_v = all[idx as int];
        assert(all.take(n as int).drop_last() =~= all.take(idx as int));
        assert(all.take(n as int).last() == line_v);
        assert(lines@[idx as int]@ == line_v);
        let line = chars_of(lines[idx].as_str());
        let mut is_marker = false;
        if starts_with(&line, &marker_open) {
            let rest = string_of_chars(&line, 4, line.len());
            let rest_chars = chars_of(rest.as_str());
            assert(rest_chars@ =~= line@.skip(4));
            is_marker = ends_with(&rest_chars, &marker_close);
        }
        assert(is_marker == (marker_inner(line@) is Some));
        if is_marker {
            let inner = string_of_chars(&line, 4, line.len() - 4);
            let inner_chars = chars_of(inner.as_str());
            assert(inner_chars@ =~= line@.skip(4).take(line@.len() - 8));
            let next: Option<(String, i64)> = match rfind(&inner_chars, &rep_sep) {
                None => {
                    assert(!exists|i: int| is_last_occurrence(inner_chars@, " rep"@, i));
                    None
                },
                Some(i) => {
                    proof {
                        lemma_last_occurrence_unique(inner_chars@, " rep"@, i as int);
                    }
                    let tag = string_of_chars(&inner_chars, 0, i);
                    let rep_chars = chars_of(string_of_chars(&inner_chars, i + 4, inner_chars.len()).as_str());
                    assert(rep_chars@ =~= inner_chars@.skip(i + 4));
                    assert(tag@ =~= inner_chars@.take(i as int));
                    match parse_i64(&rep_chars) {
                        None => {
                            let msg = quoted_message("bad repetition in marker ", lines[idx].as_str());
                            proof {
                                lemma_scan_error_sticks(all, n as int);
                            }
                            return LogScan { records, error: Some(line_message(n, msg.as_str())) };
                        },
                        Some(rep) => Some((tag, rep)),
                    }
                },
            };
            match pending {
                Some((t, r, at)) => {
                    records.push(LogRecord { tag: t, rep: r, line_number: at, observer: None });
                    assert(record_views(records@) =~= flushed(st));
                },
                None => {
                    assert(record_views(records@) =~= flushed(st));
                },
            }
            pending = match next {
                Some((tag, rep)) => Some((tag, rep, n)),
                None => None,
            };
            assert(scan_line(st, line_v, n as nat) == Ok::<ScanView, Seq<char>>(ScanView {
                records: record_views(records@),
                pending: match pending {
                    Some((t, r, at)) => Some((t@, r, at as nat)),
                    None => None,
                },
            }));
        } else if starts_with(&line, &observer_prefix) {
            match pending {
                None => {
                    proof {
                        reveal_strlit("observer line without a preceding marker");
                        lemma_scan_error_sticks(all, n as int);
                    }
                    return LogScan {
                        records,
                        error: Some(line_message(n, "observer line without a preceding marker")),
                    };
                },
                Some((t, r, at)) => {
                    let raw = lines[idx].clone();
                    let ghost old_records = records@;
                    let ghost tv = t@;
                    records.push(LogRecord { tag: t, rep: r, line_number: at, observer: Some((n, raw)) });
                    assert(record_views(records@) =~= record_views(old_records).push(
                        RecordView { tag: tv, rep: r, line_number: at as nat, observer: Some((n as nat, line_v)) },
                    ));
                    pending = None;
                },
            }
        } else if !is_blank(lines[idx].as_str()) {
            let msg = quoted_message("unrecognized line ", lines[idx].as_str());
            proof {
                lemma_scan_error_sticks(all, n as int);
            }
            return LogScan { records, error: Some(line_message(n, msg.as_str())) };
        }
        idx = idx + 1;
    }
    assert(all.take(idx as int) =~= all);
    match pending {
        Some((t, r, at)) => {
            records.push(LogRecord { tag: t, rep: r, line_number: at, observer: None });
        },
        None => {},
    }
    LogScan { records, error: None }
}

/// The platform a manifest's host has when it names none.
pub fn default_platform() -> (s: String)
    ensures
        s@ == "linux"@,
{
    String::from_str("linux")
}

/// The device class a manifest's host has when it names none.
pub fn default_device_class() -> (s: String)
    ensures
        s@ == "external"@,
{
    String::from_str("external")
}

/// What a manifest says of the host's hardware and software.
#[derive(Debug)]
pub struct HostFacts {
    pub os: Option<String>,
    pub kernel: Option<String>,
    /// CPU model on Linux; SoC model on Android.
    pub cpu_model: Option<String>,
    pub cpu_count: Option<i64>,
    pub memory_bytes: Option<i64>,
    pub accelerator: Option<String>,
    pub accelerator_driver: Option<String>,
}

/// The first host field a Linux host lacks, if any: OS, kernel, CPU model,
/// accelerator.
pub open spec fn linux_gap(h: HostFacts) -> Option<Seq<char>> {
    if h.os is None {
        Some("os"@)
    } else if h.kernel is None {
        Some("kernel"@)
    } else if h.cpu_model is None {
        Some("cpu_model"@)
    } else if h.accelerator is None {
        Some("accelerator"@)
    } else {
        None
    }
}

/// `state` is the snapshot the manifest's facts give on `platform`:
/// everything it states, nothing measured.
pub open spec fn host_from_facts(h: HostFacts, platform: Platform, state: HostState) -> bool {
    match platform {
        Platform::Linux => state matches HostState::Linux(l) && {
            &&& Some(l.os@) == opt_view(h.os)
            &&& Some(l.kernel@) == opt_view(h.kernel)
            &&& Some(l.cpu_model@) == opt_view(h.cpu_model)
            &&& l.cpu_count == h.cpu_count
            &&& l.memory_bytes == h.memory_bytes
            &&& Some(l.accelerator@) == opt_view(h.accelerator)
            &&& opt_view(l.accelerator_driver) == opt_view(h.accelerator_driver)
            &&& l.uptime_seconds is None
            &&& l.thermal_throttling is None
        },
        Platform::Android => state matches HostState::Android(a) && {
            &&& opt_view(a.os) == opt_view(h.os)
            &&& opt_view(a.kernel) == opt_view(h.kernel)
            &&& opt_view(a.soc) == opt_view(h.cpu_model)
            &&& a.cpu_count == h.cpu_count
            &&& a.memory_bytes == h.memory_bytes
            &&& opt_view(a.gpu) == opt_view(h.accelerator)
            &&& opt_view(a.gpu_driver) == opt_view(h.accelerator_driver)
            &&& a.uptime_seconds is None
            &&& a.battery_charging is None
            &&& a.initial_temperature_celsius is None
            &&& a.max_temperature_celsius is None
            &&& a.thermal_throttling is None
            &&& a.lab is None
        },
    }
}

fn need(v: &Option<String>, name: &str) -> (r: Result<String, String>)
    ensures
        match r {
            Ok(s) => v is Some && s@ == v->0@,
            Err(e) => v is None && e@ == "linux host is missing host."@ + name@,
        },
{
    match v {
        Some(s) => Ok(s.clone()),
        None => {
            let mut m = String::from_str("linux host is missing host.");
            m.append(name);
            Err(m)
        },
    }
}

/// The snapshot of a host the importer records from the manifest alone.
/// A Linux host must state its OS, kernel, CPU model and accelerator.
pub fn log_host_state(h: &HostFacts, platform: Platform) -> (r: Result<HostState, String>)
    ensures
        match r {
            Ok(state) => (platform == Platform::Linux ==> linux_gap(*h) is None) && host_from_facts(
                *h,
                platform,
                state,
            ),
            Err(e) => platform == Platform::Linux && linux_gap(*h) is Some && e@
                == "linux host is missing host."@ + linux_gap(*h)->0,
        },
{
    proof {
        reveal_strlit("os");
        reveal_strlit("kernel");
        reveal_strlit("cpu_model");
        reveal_strlit("accelerator");
    }
    match platform {
        Platform::Linux => {
            let os = need(&h.os, "os")?;
            let kernel = need(&h.kernel, "kernel")?;
            let cpu_model = need(&h.cpu_model, "cpu_model")?;
            let accelerator = need(&h.accelerator, "accelerator")?;
            Ok(
                HostState::Linux(
                    LinuxHostState {
                        os,
                        kernel,
                        cpu_model,
                        cpu_count: h.cpu_count,
                        memory_bytes: h.memory_bytes,
                        accelerator,
                        accelerator_driver: clone_opt(&h.accelerator_driver),
                        uptime_seconds: None,
                        thermal_throttling: None,
                    },
                ),
            )
        },
        Platform::Android => Ok(
            HostState::Android(
                AndroidDeviceState {
                    os: clone_opt(&h.os),
                    kernel: clone_opt(&h.kernel),
                    soc: clone_opt(&h.cpu_model),
                    cpu_count: h.cpu_count,
                    memory_bytes: h.memory_bytes,
                    gpu: clone_opt(&h.accelerator),
                    gpu_driver: clone_opt(&h.accelerator_driver),
                    uptime_seconds: None,
                    battery_charging: None,
                    initial_temperature_celsius: None,
                    max_temperature_celsius: None,
                    thermal_throttling: None,
                    lab: None,
                },
            ),
        ),
    }
}

/// The refusal of an internal device by the importer.
pub open spec fn internal_refusal() -> Seq<char> {
    "this importer only records external hosts; internal lab devices need the full snapshot a collector captures"@
}

/// The host a manifest describes: its platform and device class read from
/// their texts, and its snapshot. Refused, in this order, for an unknown
/// platform, an unknown device class, an internal device, and a Linux host
/// lacking a required field.
pub fn manifest_host(platform: &str, device_class: &str, facts: &HostFacts) -> (r: Result<
    (Platform, DeviceClass, HostState),
    String,
>)
    ensures
        match r {
            Ok((p, c, state)) => {
                &&& Platform::from_text(platform@) == Some(p)
                &&& DeviceClass::from_text(device_class@) == Some(c)
                &&& c == DeviceClass::External
                &&& (p == Platform::Linux ==> linux_gap(*facts) is None)
                &&& host_from_facts(*facts, p, state)
            },
            Err(e) => {
                ||| Platform::from_text(platform@) is None && e@ == "host.platform: "@ + (
                "invalid platform: "@ + debug_quoted(platform@))
                ||| Platform::from_text(platform@) is Some && DeviceClass::from_text(device_class@) is None
                    && e@ == "host.device_class: "@ + ("invalid device class: "@ + debug_quoted(
                    device_class@,
                ))
                ||| Platform::from_text(platform@) is Some && DeviceClass::from_text(device_class@)
                    == Some(DeviceClass::Internal) && e@ == internal_refusal()
                ||| Platform::from_text(platform@) == Some(Platform::Linux) && DeviceClass::from_text(
                    device_class@,
                ) == Some(DeviceClass::External) && linux_gap(*facts) is Some && e@
                    == "linux host is missing host."@ + linux_gap(*facts)->0
            },
        },
{
    let p = match Platform::parse(platform) {
        Ok(p) => p,
        Err(e) => {
            let mut m = String::from_str("host.platform: ");
            m.append(e.0.as_str());
            return Err(m);
        },
    };
    let c = match DeviceClass::parse(device_class) {
        Ok(c) => c,
        Err(e) => {
            let mut m = String::from_str("host.device_class: ");
            m.append(e.0.as_str());
            return Err(m);
        },
    };
    match c {
        DeviceClass::Internal => {
            return Err(
                String::from_str(
                    "this importer only records external hosts; internal lab devices need the full snapshot a collector captures",
                ),
            );
        },
        DeviceClass::External => {},
    }
    let state = log_host_state(facts, p)?;
    Ok((p, c, state))
}

/// The prompt of a benchmark: a file (with its path on the host the runner
/// read it from) or literal text, with its token count when known.
#[derive(Debug)]
pub enum PromptSpec {
    File { file: String, path_on_host: String, sha256: Option<String>, token_count: Option<i64> },
    Text { text: String, token_count: Option<i64> },
}

impl PromptSpec {
    /// The prompt's token count under the runner's tokenizer, when given.
    pub fn token_count(&self) -> (n: Option<i64>)
        ensures
            n == match self {
                PromptSpec::File { token_count, .. } => *token_count,
                PromptSpec::Text { token_count, .. } => *token_count,
            },
    {
        match self {
            PromptSpec::File { token_count, .. } => *token_count,
            PromptSpec::Text { token_count, .. } => *token_count,
        }
    }
}

/// `s` from position `i` on with every occurrence of `p` found scanning
/// left to right replaced by `w` (as `str::replace` does).
pub open spec fn replaced_from(s: Seq<char>, p: Seq<char>, w: Seq<char>, i: int) -> Seq<char>
    decreases s.len() - i,
{
    if i < 0 || i >= s.len() || p.len() == 0 {
        if 0 <= i <= s.len() {
            s.skip(i)
        } else {
            Seq::empty()
        }
    } else if occurs_at(s, p, i) {
        w + replaced_from(s, p, w, i + p.len())
    } else {
        seq![s[i]] + replaced_from(s, p, w, i + 1)
    }
}

/// `s` with every occurrence of `p` replaced by `w`.
pub open spec fn replaced(s: Seq<char>, p: Seq<char>, w: Seq<char>) -> Seq<char> {
    replaced_from(s, p, w, 0)
}

/// `s.replace(p, w)` for a non-empty pattern.
pub fn replace_all(s: &str, p: &str, w: &str) -> (r: String)
    requires
        p@.len() > 0,
    ensures
        r@ == replaced(s@, p@, w@),
{
    let cs = chars_of(s);
    let ps = chars_of(p);
    let mut out = String::new();
    let mut i: usize = 0;
    assert(out@ + replaced_from(cs@, ps@, w@, 0) =~= replaced(s@, p@, w@));
    while i < cs.len()
        invariant
            cs@ == s@,
            ps@ == p@,
            ps@.len() > 0,
            i <= cs.len(),
            out@ + replaced_from(cs@, ps@, w@, i as int) == replaced(s@, p@, w@),
        decreases cs.len() - i,
    {
        let ghost before = out@;
        if occurs(&cs, &ps, i) {
            out.append(w);
            assert(out@ + replaced_from(cs@, ps@, w@, i + ps@.len()) =~= before + replaced_from(
                cs@,
                ps@,
                w@,
                i as int,
            ));
            i = i + ps.len();
        } else {
            push_char(&mut out, cs[i]);
            assert(out@ + replaced_from(cs@, ps@, w@, i + 1) =~= before + replaced_from(
                cs@,
                ps@,
                w@,
                i as int,
            ));
            i = i + 1;
        }
    }
    assert(cs@.skip(i as int) =~= Seq::<char>::empty());
    assert(out@ =~= replaced(s@, p@, w@));
    out
}

/// A template argument with its placeholders filled in, in this order:
/// `{model}`, `{model_on_device}`, `{tokenizer}`, `{prompt_path}`,
/// `{prompt_text}`.
pub open spec fn expanded(
    a: Seq<char>,
    model: Seq<char>,
    model_on_device: Seq<char>,
    tokenizer: Seq<char>,
    prompt_path: Seq<char>,
    prompt_text: Seq<char>,
) -> Seq<char> {
    replaced(
        replaced(
            replaced(replaced(replaced(a, "{model}"@, model), "{model_on_device}"@, model_on_device), "{tokenizer}"@, tokenizer),
            "{prompt_path}"@,
            prompt_path,
        ),
        "{prompt_text}"@,
        prompt_text,
    )
}

/// The runner's arguments: each template argument with its placeholders
/// filled in. The on-device model path defaults to the model path; absent
/// prompt path or text fill in as empty.
pub fn expand_args(
    template: &Vec<String>,
    model: &str,
    model_on_device: &Option<String>,
    tokenizer: &str,
    prompt_path: &Option<String>,
    prompt_text: &Option<String>,
) -> (args: Vec<String>)
    ensures
        args@.len() == template@.len(),
        forall|k: int|
            0 <= k < args@.len() ==> #[trigger] args@[k]@ == expanded(
                template@[k]@,
                model@,
                match model_on_device {
                    Some(d) => d@,
                    None => model@,
                },
                tokenizer@,
                match prompt_path {
                    Some(d) => d@,
                    None => Seq::empty(),
                },
                match prompt_text {
                    Some(d) => d@,
                    None => Seq::empty(),
                },
            ),
{
    proof {
        reveal_strlit("{model}");
        reveal_strlit("{model_on_device}");
        reveal_strlit("{tokenizer}");
        reveal_strlit("{prompt_path}");
        reveal_strlit("{prompt_text}");
    }
    let on_device: &str = match model_on_device {
        Some(d) => d.as_str(),
        None => model,
    };
    let path: &str = match prompt_path {
        Some(d) => d.as_str(),
        None => "",
    };
    let text: &str = match prompt_text {
        Some(d) => d.as_str(),
        None => "",
    };
    proof {
        reveal_strlit("");
    }
    let mut args: Vec<String> = Vec::new();
    let mut k: usize = 0;
    while k < template.len()
        invariant
            k <= template.len(),
            args@.len() == k,
            on_device@ == match model_on_device {
                Some(d) => d@,
                None => model@,
            },
            path@ == match prompt_path {
                Some(d) => d@,
                None => Seq::<char>::empty(),
            },
            text@ == match prompt_text {
                Some(d) => d@,
                None => Seq::<char>::empty(),
            },
            forall|j: int|
                0 <= j < k ==> #[trigger] args@[j]@ == expanded(
                    template@[j]@,
                    model@,
                    on_device@,
                    tokenizer@,
                    path@,
                    text@,
                ),
        decreases template.len() - k,
    {
        proof {
            reveal_strlit("{model}");
            reveal_strlit("{model_on_device}");
            reveal_strlit("{tokenizer}");
            reveal_strlit("{prompt_path}");
            reveal_strlit("{prompt_text}");
        }
        let a = replace_all(template[k].as_str(), "{model}", model);
        let a = replace_all(a.as_str(), "{model_on_device}", on_device);
        let a = replace_all(a.as_str(), "{tokenizer}", tokenizer);
        let a = replace_all(a.as_str(), "{prompt_path}", path);
        let a = replace_all(a.as_str(), "{prompt_text}", text);
        args.push(a);
        k = k + 1;
    }
    args
}

/// The arguments joined by single spaces.
pub open spec fn joined(args: Seq<Seq<char>>) -> Seq<char>
    decreases args.len(),
{
    if args.len() == 0 {
        Seq::empty()
    } else if args.len() == 1 {
        args[0]
    } else {
        joined(args.drop_last()) + seq![' '] + args.last()
    }
}

/// The human-readable command line: the runner's name, a space, and its
/// arguments joined by spaces.
pub fn command_line(executable_name: &str, args: &Vec<String>) -> (c: String)
    ensures
        c@ == executable_name@ + seq![' '] + joined(views(args@)),
{
    let mut c = String::from_str(executable_name);
    push_char(&mut c, ' ');
    let ghost head = c@;
    let mut k: usize = 0;
    assert(views(args@).take(0) =~= Seq::<Seq<char>>::empty());
    while k < args.len()
        invariant
            k <= args.len(),
            c@ == head + joined(views(args@).take(k as int)),
        decreases args.len() - k,
    {
        let ghost before = c@;
        assert(views(args@).take(k + 1).drop_last() =~= views(args@).take(k as int));
        assert(views(args@).take(k + 1).last() == args@[k as int]@);
        if k > 0 {
            push_char(&mut c, ' ');
        }
        c.append(args[k].as_str());
        assert(c@ =~= head + joined(views(args@).take(k + 1)));
        k = k + 1;
    }
    assert(views(args@).take(args.len() as int) =~= views(args@));
    c
}

/// A repetition that printed no observer line, as the manifest explains it.
#[derive(Debug)]
pub struct FailureFacts {
    pub tag: String,
    pub rep: i64,
    /// One of the stable exit status values.
    pub exit_status: String,
    pub error_summary: String,
    pub started_at: Option<crate::time::Timestamp>,
}

/// The first failure entry for `tag` and `rep`.
pub fn find_failure(failures: &Vec<FailureFacts>, tag: &str, rep: i64) -> (r: Option<usize>)
    ensures
        match r {
            Some(i) => i < failures@.len() && failures@[i as int].tag@ == tag@ && failures@[i as int].rep
                == rep && forall|j: int|
                0 <= j < i ==> !(failures@[j].tag@ == tag@ && failures@[j].rep == rep),
            None => forall|j: int|
                0 <= j < failures@.len() ==> !(failures@[j].tag@ == tag@ && failures@[j].rep == rep),
        },
{
    let mut i: usize = 0;
    while i < failures.len()
        invariant
            i <= failures.len(),
            forall|j: int| 0 <= j < i ==> !(failures@[j].tag@ == tag@ && failures@[j].rep == rep),
        decreases failures.len() - i,
    {
        if crate::domain::str_eq(failures[i].tag.as_str(), tag) && failures[i].rep == rep {
            return Some(i);
        }
        i = i + 1;
    }
    None
}

/// What an observer line reports of a repetition. Throughputs are in
/// tokens per second; times are epoch milliseconds.
#[derive(Debug, Clone, Copy)]
pub struct ObserverValues {
    pub prefill_token_per_sec: Float64,
    pub decode_token_per_sec: Option<Float64>,
    pub prompt_tokens: i64,
    pub generated_tokens: i64,
    pub model_load_start_ms: i64,
    pub inference_end_ms: i64,
}

/// The end time of the last observed repetition among the first `k`.
pub open spec fn last_end(ends: Seq<Option<i64>>, k: int) -> Option<i64>
    decreases k,
{
    if k <= 0 {
        None
    } else if ends[k - 1] is Some {
        ends[k - 1]
    } else {
        last_end(ends, k - 1)
    }
}

/// The end time of the last observed repetition before the `k`-th.
pub fn last_end_before(ends: &Vec<Option<i64>>, k: usize) -> (r: Option<i64>)
    requires
        k <= ends@.len(),
    ensures
        r == last_end(ends@, k as int),
{
    let mut j: usize = k;
    while j > 0
        invariant
            j <= k <= ends@.len(),
            last_end(ends@, k as int) == last_end(ends@, j as int),
        decreases j,
    {
        if ends[j - 1].is_some() {
            return ends[j - 1];
        }
        j = j - 1;
    }
    None
}

/// Token counts and throughputs of a repetition: what its observer line
/// reports (no decode throughput when nothing was generated), or for a
/// repetition with no line, the prompt's known token count (else 0) and
/// zero for the rest.
pub open spec fn measured(o: Option<ObserverValues>, prompt_token_count: Option<i64>) -> (i64, i64, Float64, Option<Float64>) {
    match o {
        Some(v) => (
            v.prompt_tokens,
            v.generated_tokens,
            v.prefill_token_per_sec,
            if v.generated_tokens > 0 {
                v.decode_token_per_sec
            } else {
                None
            },
        ),
        None => (
            match prompt_token_count {
                Some(n) => n,
                None => 0,
            },
            0,
            Float64 { bits: 0 },
            None,
        ),
    }
}

/// An observed repetition records what its observer line reports: the
/// prompt and generated token counts and the prefill throughput as they
/// are, and the decode throughput exactly when tokens were generated. A
/// repetition without a line records no throughput, no generated tokens,
/// and the prompt's known token count (else 0).
pub proof fn lemma_observed_measurements(v: ObserverValues, prompt_token_count: Option<i64>)
    ensures
        measured(Some(v), prompt_token_count).0 == v.prompt_tokens,
        measured(Some(v), prompt_token_count).1 == v.generated_tokens,
        measured(Some(v), prompt_token_count).2 == v.prefill_token_per_sec,
        v.generated_tokens > 0 ==> measured(Some(v), prompt_token_count).3 == v.decode_token_per_sec,
        v.generated_tokens <= 0 ==> measured(Some(v), prompt_token_count).3 is None,
        prompt_token_count matches Some(n) ==> measured(None, prompt_token_count).0 == n,
        prompt_token_count is None ==> measured(None, prompt_token_count).0 == 0,
        measured(None, prompt_token_count).1 == 0,
        measured(None, prompt_token_count).2 == (Float64 { bits: 0 }),
        measured(None, prompt_token_count).3 is None,
{
}

/// The token counts and throughputs recorded for a repetition.
pub fn measurements(o: Option<ObserverValues>, prompt_token_count: Option<i64>) -> (r: (i64, i64, Float64, Option<Float64>))
    ensures
        r == measured(o, prompt_token_count),
        o matches Some(v) ==> r.0 == v.prompt_tokens && r.1 == v.generated_tokens && r.2
            == v.prefill_token_per_sec,
        o matches Some(v) ==> (v.generated_tokens > 0 ==> r.3 == v.decode_token_per_sec),
{
    match o {
        Some(v) => (
            v.prompt_tokens,
            v.generated_tokens,
            v.prefill_token_per_sec,
            if v.generated_tokens > 0 {
                v.decode_token_per_sec
            } else {
                None
            },
        ),
        None => (
            match prompt_token_count {
                Some(n) => n,
                None => 0,
            },
            0,
            Float64 { bits: 0 },
            None,
        ),
    }
}

/// `bad epoch ms <ms>`.
pub open spec fn bad_epoch(ms: i64) -> Seq<char> {
    "bad epoch ms "@ + int_text(ms as int)
}

proof fn lemma_shifted_division(ms: int, k: int)
    requires
        k == 9_223_372_036_854_775_808,
    ensures
        (ms + 1000 * k) / 1000 == ms / 1000 + k,
        (ms + 1000 * k) % 1000 == ms % 1000,
{
    vstd::arithmetic::div_mod::lemma_hoist_over_denominator(ms, k, 1000);
    assert(k * 1000 == 1000 * k);
    vstd::arithmetic::div_mod::lemma_mod_multiples_vanish(k, ms, 1000);
    assert(1000 * k + ms == ms + 1000 * k);
}

/// The instant `ms` milliseconds after the Unix epoch
/// (`DateTime::from_timestamp_millis`): whole seconds rounded down, the
/// rest as nanoseconds. Refused when chrono cannot represent it.
pub fn epoch_ms(ms: i64) -> (r: Result<crate::time::Timestamp, String>)
    ensures
        match r {
            Ok(t) => t.secs() == ms as int / 1000 && t.subsec() == (ms as int % 1000) * 1_000_000,
            Err(e) => !crate::time::chrono_instant(
                (ms as int / 1000) as i64,
                ((ms as int % 1000) * 1_000_000) as u32,
            ) && e@ == bad_epoch(ms),
        },
{
    let k: u128 = 9_223_372_036_854_775_808;
    let shifted: u128 = ((ms as i128) + 9_223_372_036_854_775_808_000i128) as u128;
    let q: u128 = shifted / 1000;
    let rem: u128 = shifted % 1000;
    proof {
        lemma_shifted_division(ms as int, k as int);
    }
    let secs: i64 = ((q as i128) - (k as i128)) as i64;
    let nanos: u32 = (rem as u32) * 1_000_000;
    match crate::time::Timestamp::new(secs, nanos) {
        Some(t) => Ok(t),
        None => {
            let mut m = String::from_str("bad epoch ms ");
            push_signed(&mut m, ms);
            Err(m)
        },
    }
}

/// `<tag> rep<rep>`, naming a repetition in a message.
pub open spec fn rep_name(tag: Seq<char>, rep: i64) -> Seq<char> {
    tag + " rep"@ + int_text(rep as int)
}

fn push_rep_name(m: &mut String, tag: &str, rep: i64)
    ensures
        final(m)@ == old(m)@ + rep_name(tag@, rep),
{
    m.append(tag);
    m.append(" rep");
    push_signed(m, rep);
    assert(final(m)@ =~= old(m)@ + rep_name(tag@, rep));
}

/// The zero-based repetition index of a marker's one-based number.
/// Refused below 1.
pub fn repetition_of(tag: &str, rep: i64) -> (r: Result<i64, String>)
    requires
        rep > i64::MIN,
    ensures
        match r {
            Ok(i) => rep >= 1 && i == rep - 1,
            Err(e) => rep < 1 && e@ == rep_name(tag@, rep) + ": repetitions start at 1"@,
        },
{
    let repetition = rep - 1;
    if repetition < 0 {
        let mut m = String::new();
        push_rep_name(&mut m, tag, rep);
        m.append(": repetitions start at 1");
        assert(m@ =~= rep_name(tag@, rep) + ": repetitions start at 1"@);
        return Err(m);
    }
    Ok(repetition)
}

/// When and how a repetition ran.
#[derive(Debug)]
pub struct Timing {
    pub started_at: crate::time::Timestamp,
    pub finished_at: Option<crate::time::Timestamp>,
    pub exit_status: ExitStatus,
    pub error_summary: Option<String>,
    /// The start is the end of the last observed repetition before it.
    pub started_at_estimated: bool,
}

/// The timing and outcome of a repetition: from its observer line (model
/// load start to inference end, succeeded); or, for a repetition with no
/// line, from its failure entry: the stated exit status and summary, and
/// the stated start, else the end of the last observed repetition before
/// it, marked as estimated.
pub fn timing(
    observer: Option<ObserverValues>,
    failure: Option<&FailureFacts>,
    last_observed_end: Option<i64>,
    tag: &str,
    rep: i64,
) -> (r: Result<Timing, String>)
    requires
        observer is Some || failure is Some,
    ensures
        match r {
            Ok(t) => match observer {
                Some(o) => {
                    &&& t.started_at.secs() == o.model_load_start_ms as int / 1000
                    &&& t.started_at.subsec() == (o.model_load_start_ms as int % 1000) * 1_000_000
                    &&& t.finished_at matches Some(f) && f.secs() == o.inference_end_ms as int / 1000
                        && f.subsec() == (o.inference_end_ms as int % 1000) * 1_000_000
                    &&& t.exit_status == ExitStatus::Succeeded
                    &&& t.error_summary is None
                    &&& !t.started_at_estimated
                },
                None => {
                    let f = failure->0;
                    &&& ExitStatus::from_text(f.exit_status@) == Some(t.exit_status)
                    &&& t.finished_at is None
                    &&& t.error_summary matches Some(s) && s@ == f.error_summary@
                    &&& match f.started_at {
                        Some(s) => t.started_at == s && !t.started_at_estimated,
                        None => last_observed_end matches Some(end) && t.started_at_estimated
                            && t.started_at.secs() == end as int / 1000 && t.started_at.subsec() == (
                        end as int % 1000) * 1_000_000,
                    }
                },
            },
            Err(e) => match observer {
                Some(o) => e@ == bad_epoch(o.model_load_start_ms) || e@ == bad_epoch(
                    o.inference_end_ms,
                ),
                None => {
                    let f = failure->0;
                    ||| ExitStatus::from_text(f.exit_status@) is None && e@ == "failures["@
                        + rep_name(f.tag@, f.rep) + "]: "@ + ("invalid exit status: "@ + debug_quoted(
                        f.exit_status@,
                    ))
                    ||| f.started_at is None && last_observed_end is None && e@ == rep_name(tag@, rep)
                        + ": no timestamp precedes this failed rep; give failures[].started_at"@
                    ||| f.started_at is None && last_observed_end is Some && e@ == bad_epoch(
                        last_observed_end->0,
                    )
                },
            },
        },
{
    match observer {
        Some(o) => {
            let started_at = epoch_ms(o.model_load_start_ms)?;
            let finished_at = epoch_ms(o.inference_end_ms)?;
            Ok(
                Timing {
                    started_at,
                    finished_at: Some(finished_at),
                    exit_status: ExitStatus::Succeeded,
                    error_summary: None,
                    started_at_estimated: false,
                },
            )
        },
        None => {
            let f = match failure {
                Some(f) => f,
                None => {
                    return Err(String::new());
                },
            };
            let exit_status = match ExitStatus::parse(f.exit_status.as_str()) {
                Ok(s) => s,
                Err(e) => {
                    let mut m = String::from_str("failures[");
                    push_rep_name(&mut m, f.tag.as_str(), f.rep);
                    m.append("]: ");
                    m.append(e.0.as_str());
                    return Err(m);
                },
            };
            let (started_at, estimated) = match f.started_at {
                Some(t) => (t, false),
                None => match last_observed_end {
                    Some(end) => (epoch_ms(end)?, true),
                    None => {
                        let mut m = String::new();
                        push_rep_name(&mut m, tag, rep);
                        m.append(": no timestamp precedes this failed rep; give failures[].started_at");
                        return Err(m);
                    },
                },
            };
            Ok(
                Timing {
                    started_at,
                    finished_at: None,
                    exit_status,
                    error_summary: Some(f.error_summary.clone()),
                    started_at_estimated: estimated,
                },
            )
        },
    }
}

} // verus!
