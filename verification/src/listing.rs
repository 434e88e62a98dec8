//! Listing runs: exact-match filters, the list columns of a run, and
//! newest-first pages with a continuation cursor.

use vstd::prelude::*;
use crate::cursor::RunCursor;
use crate::domain::{CorrectnessResult, DeviceClass, ExitStatus, Platform, Sha256Hex};
use crate::float64::Float64;
use crate::host_rules::clone_opt;
use crate::ids::{uuid_from_text, uuid_reading, uuid_text, uuid_to_text};
use crate::runs::RunsError;
use crate::stored::{opt_flag_read, read_flag, text_of};
use crate::text::debug_quoted;
use crate::time::Timestamp;

verus! {

broadcast use vstd::string::group_string_axioms;

/// A value bound to a query parameter.
#[derive(Debug)]
pub enum BindValue {
    Text(String),
    Integer(i64),
}

/// A bound value, as a view.
pub enum Bound {
    Text(Seq<char>),
    Integer(i64),
}

impl View for BindValue {
    type V = Bound;

    open spec fn view(&self) -> Bound {
        match self {
            BindValue::Text(s) => Bound::Text(s@),
            BindValue::Integer(i) => Bound::Integer(*i),
        }
    }
}

/// One `AND <column> = ?` condition with its bound value.
#[derive(Debug)]
pub struct WhereClause {
    pub column: &'static str,
    pub value: BindValue,
}

impl View for WhereClause {
    type V = (Seq<char>, Bound);

    open spec fn view(&self) -> (Seq<char>, Bound) {
        (self.column@, self.value@)
    }
}

/// The views of a list of conditions.
pub open spec fn clause_views(v: Seq<WhereClause>) -> Seq<(Seq<char>, Bound)> {
    v.map_values(|c: WhereClause| c@)
}

/// The condition on `column` for an optional text value.
pub open spec fn text_piece(column: Seq<char>, value: Option<Seq<char>>) -> Seq<(Seq<char>, Bound)> {
    match value {
        Some(v) => seq![(column, Bound::Text(v))],
        None => Seq::empty(),
    }
}

/// The condition on `column` for an optional integer value.
pub open spec fn int_piece(column: Seq<char>, value: Option<i64>) -> Seq<(Seq<char>, Bound)> {
    match value {
        Some(v) => seq![(column, Bound::Integer(v))],
        None => Seq::empty(),
    }
}

fn push_text(v: &mut Vec<WhereClause>, column: &'static str, value: Option<String>)
    ensures
        clause_views(final(v)@) == clause_views(old(v)@) + text_piece(
            column@,
            match value {
                Some(s) => Some(s@),
                None => None,
            },
        ),
{
    match value {
        Some(s) => {
            let ghost before = v@;
            v.push(WhereClause { column, value: BindValue::Text(s) });
            assert(clause_views(v@) =~= clause_views(before) + seq![(column@, Bound::Text(s@))]);
        },
        None => {
            assert(clause_views(v@) =~= clause_views(v@) + Seq::<(Seq<char>, Bound)>::empty());
        },
    }
}

fn push_int(v: &mut Vec<WhereClause>, column: &'static str, value: Option<i64>)
    ensures
        clause_views(final(v)@) == clause_views(old(v)@) + int_piece(column@, value),
{
    match value {
        Some(i) => {
            let ghost before = v@;
            v.push(WhereClause { column, value: BindValue::Integer(i) });
            assert(clause_views(v@) =~= clause_views(before) + seq![(column@, Bound::Integer(i))]);
        },
        None => {
            assert(clause_views(v@) =~= clause_views(v@) + Seq::<(Seq<char>, Bound)>::empty());
        },
    }
}

/// Exact-match filters for listing runs. Every field is optional; set
/// fields are combined conjunctively. Together the non-outcome fields form
/// the benchmark configuration key.
#[derive(Debug)]
pub struct RunListFilter {
    pub platform: Option<Platform>,
    pub device_class: Option<DeviceClass>,
    pub device_serial: Option<String>,
    pub model_asset_id: Option<u128>,
    pub git_commit_sha: Option<String>,
    pub git_branch: Option<String>,
    pub git_dirty: Option<bool>,
    pub sumd_driver_version: Option<String>,
    pub bsp_version: Option<String>,
    pub gpu_clock_mhz: Option<i64>,
    pub mif_clock_mhz: Option<i64>,
    pub int_clock_mhz: Option<i64>,
    pub host_accelerator: Option<String>,
    pub prompt_sha256: Option<Sha256Hex>,
    pub exit_status: Option<ExitStatus>,
    pub correctness_result: Option<CorrectnessResult>,
}

impl Default for RunListFilter {
    fn default() -> (f: Self)
        ensures
            f.platform is None && f.device_class is None && f.device_serial is None
                && f.model_asset_id is None && f.git_commit_sha is None && f.git_branch is None
                && f.git_dirty is None && f.sumd_driver_version is None && f.bsp_version is None
                && f.gpu_clock_mhz is None && f.mif_clock_mhz is None && f.int_clock_mhz is None
                && f.host_accelerator is None && f.prompt_sha256 is None && f.exit_status is None
                && f.correctness_result is None,
    {
        RunListFilter {
            platform: None,
            device_class: None,
            device_serial: None,
            model_asset_id: None,
            git_commit_sha: None,
            git_branch: None,
            git_dirty: None,
            sumd_driver_version: None,
            bsp_version: None,
            gpu_clock_mhz: None,
            mif_clock_mhz: None,
            int_clock_mhz: None,
            host_accelerator: None,
            prompt_sha256: None,
            exit_status: None,
            correctness_result: None,
        }
    }
}

/// An optional string, as a view.
pub open spec fn sv(o: Option<String>) -> Option<Seq<char>> {
    match o {
        Some(s) => Some(s@),
        None => None,
    }
}

/// The stored text of an optional platform.
pub open spec fn platform_text(o: Option<Platform>) -> Option<Seq<char>> {
    match o {
        Some(p) => Some(p.text()),
        None => None,
    }
}

/// The stored text of an optional device class.
pub open spec fn device_class_text(o: Option<DeviceClass>) -> Option<Seq<char>> {
    match o {
        Some(c) => Some(c.text()),
        None => None,
    }
}

/// The stored text of an optional exit status.
pub open spec fn exit_status_text(o: Option<ExitStatus>) -> Option<Seq<char>> {
    match o {
        Some(e) => Some(e.text()),
        None => None,
    }
}

/// The stored text of an optional correctness result.
pub open spec fn correctness_text(o: Option<CorrectnessResult>) -> Option<Seq<char>> {
    match o {
        Some(c) => Some(c.text()),
        None => None,
    }
}

/// The stored text of an optional model id.
pub open spec fn id_text(o: Option<u128>) -> Option<Seq<char>> {
    match o {
        Some(i) => Some(uuid_text(i)),
        None => None,
    }
}

/// The stored form of an optional flag.
pub open spec fn flag_int(o: Option<bool>) -> Option<i64> {
    match o {
        Some(b) => Some(if b { 1i64 } else { 0i64 }),
        None => None,
    }
}

/// The stored text of an optional digest.
pub open spec fn digest_text(o: Option<Sha256Hex>) -> Option<Seq<char>> {
    match o {
        Some(h) => Some(h@),
        None => None,
    }
}

/// The conditions a filter puts on the `runs` table (alias `r`), in the
/// order of its fields: one per set field, the column compared with the
/// field's stored form.
pub open spec fn filter_clauses(f: RunListFilter) -> Seq<(Seq<char>, Bound)> {
    text_piece("r.platform"@, platform_text(f.platform))
        + text_piece("r.device_class"@, device_class_text(f.device_class))
        + text_piece("r.device_serial"@, sv(f.device_serial))
        + text_piece("r.model_asset_id"@, id_text(f.model_asset_id))
        + text_piece("r.git_commit_sha"@, sv(f.git_commit_sha))
        + text_piece("r.git_branch"@, sv(f.git_branch))
        + int_piece("r.git_dirty"@, flag_int(f.git_dirty))
        + text_piece("r.sumd_driver_version"@, sv(f.sumd_driver_version))
        + text_piece("r.bsp_version"@, sv(f.bsp_version))
        + int_piece("r.gpu_clock_mhz"@, f.gpu_clock_mhz)
        + int_piece("r.mif_clock_mhz"@, f.mif_clock_mhz)
        + int_piece("r.int_clock_mhz"@, f.int_clock_mhz)
        + text_piece("r.host_accelerator"@, sv(f.host_accelerator))
        + text_piece("r.prompt_sha256"@, digest_text(f.prompt_sha256))
        + text_piece("r.exit_status"@, exit_status_text(f.exit_status))
        + text_piece("r.correctness_result"@, correctness_text(f.correctness_result))
}

/// How many fields of the filter are set.
pub open spec fn set_field_count(f: RunListFilter) -> nat {
    (if f.platform is Some { 1nat } else { 0nat }) + (if f.device_class is Some { 1nat } else { 0nat }) + (if f.device_serial is Some { 1nat } else { 0nat }) + (if f.model_asset_id is Some { 1nat } else { 0nat }) + (if f.git_commit_sha is Some { 1nat } else { 0nat }) + (if f.git_branch is Some { 1nat } else { 0nat }) + (if f.git_dirty is Some { 1nat } else { 0nat }) + (if f.sumd_driver_version is Some { 1nat } else { 0nat }) + (if f.bsp_version is Some { 1nat } else { 0nat }) + (if f.gpu_clock_mhz is Some { 1nat } else { 0nat }) + (if f.mif_clock_mhz is Some { 1nat } else { 0nat }) + (if f.int_clock_mhz is Some { 1nat } else { 0nat }) + (if f.host_accelerator is Some { 1nat } else { 0nat }) + (if f.prompt_sha256 is Some { 1nat } else { 0nat }) + (if f.exit_status is Some { 1nat } else { 0nat }) + (if f.correctness_result is Some { 1nat } else { 0nat })
}

proof fn lemma_contains_left(s: Seq<(Seq<char>, Bound)>, t: Seq<(Seq<char>, Bound)>, x: (Seq<char>, Bound))
    requires
        s.contains(x),
    ensures
        (s + t).contains(x),
{
    let k = choose|k: int| 0 <= k < s.len() && s[k] == x;
    assert((s + t)[k] == x);
}

proof fn lemma_contains_right(s: Seq<(Seq<char>, Bound)>, t: Seq<(Seq<char>, Bound)>, x: (Seq<char>, Bound))
    requires
        t.contains(x),
    ensures
        (s + t).contains(x),
{
    let k = choose|k: int| 0 <= k < t.len() && t[k] == x;
    assert((s + t)[s.len() + k] == x);
}

proof fn lemma_text_piece_contains(c: Seq<char>, v: Option<Seq<char>>)
    ensures
        v is Some ==> #[trigger] text_piece(c, v).contains((c, Bound::Text(v->0))),
{
    if v is Some {
        assert(text_piece(c, v)[0] == (c, Bound::Text(v->0)));
    }
}

proof fn lemma_int_piece_contains(c: Seq<char>, v: Option<i64>)
    ensures
        v is Some ==> #[trigger] int_piece(c, v).contains((c, Bound::Integer(v->0))),
{
    if v is Some {
        assert(int_piece(c, v)[0] == (c, Bound::Integer(v->0)));
    }
}

proof fn lemma_filter_column_0(f: RunListFilter)
    ensures
        platform_text(f.platform) is Some ==> filter_clauses(f).contains(("r.platform"@, Bound::Text(platform_text(f.platform)->0))),
{
    let p0 = text_piece("r.platform"@, platform_text(f.platform));
    let p1 = text_piece("r.device_class"@, device_class_text(f.device_class));
    let p2 = text_piece("r.device_serial"@, sv(f.device_serial));
    let p3 = text_piece("r.model_asset_id"@, id_text(f.model_asset_id));
    let p4 = text_piece("r.git_commit_sha"@, sv(f.git_commit_sha));
    let p5 = text_piece("r.git_branch"@, sv(f.git_branch));
    let p6 = int_piece("r.git_dirty"@, flag_int(f.git_dirty));
    let p7 = text_piece("r.sumd_driver_version"@, sv(f.sumd_driver_version));
    let p8 = text_piece("r.bsp_version"@, sv(f.bsp_version));
    let p9 = int_piece("r.gpu_clock_mhz"@, f.gpu_clock_mhz);
    let p10 = int_piece("r.mif_clock_mhz"@, f.mif_clock_mhz);
    let p11 = int_piece("r.int_clock_mhz"@, f.int_clock_mhz);
    let p12 = text_piece("r.host_accelerator"@, sv(f.host_accelerator));
    let p13 = text_piece("r.prompt_sha256"@, digest_text(f.prompt_sha256));
    let p14 = text_piece("r.exit_status"@, exit_status_text(f.exit_status));
    let p15 = text_piece("r.correctness_result"@, correctness_text(f.correctness_result));
    let s0 = p0;
    let s1 = s0 + p1;
    let s2 = s1 + p2;
    let s3 = s2 + p3;
    let s4 = s3 + p4;
    let s5 = s4 + p5;
    let s6 = s5 + p6;
    let s7 = s6 + p7;
    let s8 = s7 + p8;
    let s9 = s8 + p9;
    let s10 = s9 + p10;
    let s11 = s10 + p11;
    let s12 = s11 + p12;
    let s13 = s12 + p13;
    let s14 = s13 + p14;
    let s15 = s14 + p15;
    if platform_text(f.platform) is Some {
        let x = ("r.platform"@, Bound::Text(platform_text(f.platform)->0));
        lemma_text_piece_contains("r.platform"@, platform_text(f.platform));
        lemma_contains_left(s0, p1, x);
        lemma_contains_left(s1, p2, x);
        lemma_contains_left(s2, p3, x);
        lemma_contains_left(s3, p4, x);
        lemma_contains_left(s4, p5, x);
        lemma_contains_left(s5, p6, x);
        lemma_contains_left(s6, p7, x);
        lemma_contains_left(s7, p8, x);
        lemma_contains_left(s8, p9, x);
        lemma_contains_left(s9, p10, x);
        lemma_contains_left(s10, p11, x);
        lemma_contains_left(s11, p12, x);
        lemma_contains_left(s12, p13, x);
        lemma_contains_left(s13, p14, x);
        lemma_contains_left(s14, p15, x);
    }
}

proof fn lemma_filter_column_1(f: RunListFilter)
    ensures
        device_class_text(f.device_class) is Some ==> filter_clauses(f).contains(("r.device_class"@, Bound::Text(device_class_text(f.device_class)->0))),
{
    let p0 = text_piece("r.platform"@, platform_text(f.platform));
    let p1 = text_piece("r.device_class"@, device_class_text(f.device_class));
    let p2 = text_piece("r.device_serial"@, sv(f.device_serial));
    let p3 = text_piece("r.model_asset_id"@, id_text(f.model_asset_id));
    let p4 = text_piece("r.git_commit_sha"@, sv(f.git_commit_sha));
    let p5 = text_piece("r.git_branch"@, sv(f.git_branch));
    let p6 = int_piece("r.git_dirty"@, flag_int(f.git_dirty));
    let p7 = text_piece("r.sumd_driver_version"@, sv(f.sumd_driver_version));
    let p8 = text_piece("r.bsp_version"@, sv(f.bsp_version));
    let p9 = int_piece("r.gpu_clock_mhz"@, f.gpu_clock_mhz);
    let p10 = int_piece("r.mif_clock_mhz"@, f.mif_clock_mhz);
    let p11 = int_piece("r.int_clock_mhz"@, f.int_clock_mhz);
    let p12 = text_piece("r.host_accelerator"@, sv(f.host_accelerator));
    let p13 = text_piece("r.prompt_sha256"@, digest_text(f.prompt_sha256));
    let p14 = text_piece("r.exit_status"@, exit_status_text(f.exit_status));
    let p15 = text_piece("r.correctness_result"@, correctness_text(f.correctness_result));
    let s0 = p0;
    let s1 = s0 + p1;
    let s2 = s1 + p2;
    let s3 = s2 + p3;
    let s4 = s3 + p4;
    let s5 = s4 + p5;
    let s6 = s5 + p6;
    let s7 = s6 + p7;
    let s8 = s7 + p8;
    let s9 = s8 + p9;
    let s10 = s9 + p10;
    let s11 = s10 + p11;
    let s12 = s11 + p12;
    let s13 = s12 + p13;
    let s14 = s13 + p14;
    let s15 = s14 + p15;
    if device_class_text(f.device_class) is Some {
        let x = ("r.device_class"@, Bound::Text(device_class_text(f.device_class)->0));
        lemma_text_piece_contains("r.device_class"@, device_class_text(f.device_class));
        lemma_contains_right(s0, p1, x);
        lemma_contains_left(s1, p2, x);
        lemma_contains_left(s2, p3, x);
        lemma_contains_left(s3, p4, x);
        lemma_contains_left(s4, p5, x);
        lemma_contains_left(s5, p6, x);
        lemma_contains_left(s6, p7, x);
        lemma_contains_left(s7, p8, x);
        lemma_contains_left(s8, p9, x);
        lemma_contains_left(s9, p10, x);
        lemma_contains_left(s10, p11, x);
        lemma_contains_left(s11, p12, x);
        lemma_contains_left(s12, p13, x);
        lemma_contains_left(s13, p14, x);
        lemma_contains_left(s14, p15, x);
    }
}

proof fn lemma_filter_column_2(f: RunListFilter)
    ensures
        sv(f.device_serial) is Some ==> filter_clauses(f).contains(("r.device_serial"@, Bound::Text(sv(f.device_serial)->0))),
{
    let p0 = text_piece("r.platform"@, platform_text(f.platform));
    let p1 = text_piece("r.device_class"@, device_class_text(f.device_class));
    let p2 = text_piece("r.device_serial"@, sv(f.device_serial));
    let p3 = text_piece("r.model_asset_id"@, id_text(f.model_asset_id));
    let p4 = text_piece("r.git_commit_sha"@, sv(f.git_commit_sha));
    let p5 = text_piece("r.git_branch"@, sv(f.git_branch));
    let p6 = int_piece("r.git_dirty"@, flag_int(f.git_dirty));
    let p7 = text_piece("r.sumd_driver_version"@, sv(f.sumd_driver_version));
    let p8 = text_piece("r.bsp_version"@, sv(f.bsp_version));
    let p9 = int_piece("r.gpu_clock_mhz"@, f.gpu_clock_mhz);
    let p10 = int_piece("r.mif_clock_mhz"@, f.mif_clock_mhz);
    let p11 = int_piece("r.int_clock_mhz"@, f.int_clock_mhz);
    let p12 = text_piece("r.host_accelerator"@, sv(f.host_accelerator));
    let p13 = text_piece("r.prompt_sha256"@, digest_text(f.prompt_sha256));
    let p14 = text_piece("r.exit_status"@, exit_status_text(f.exit_status));
    let p15 = text_piece("r.correctness_result"@, correctness_text(f.correctness_result));
    let s0 = p0;
    let s1 = s0 + p1;
    let s2 = s1 + p2;
    let s3 = s2 + p3;
    let s4 = s3 + p4;
    let s5 = s4 + p5;
    let s6 = s5 + p6;
    let s7 = s6 + p7;
    let s8 = s7 + p8;
    let s9 = s8 + p9;
    let s10 = s9 + p10;
    let s11 = s10 + p11;
    let s12 = s11 + p12;
    let s13 = s12 + p13;
    let s14 = s13 + p14;
    let s15 = s14 + p15;
    if sv(f.device_serial) is Some {
        let x = ("r.device_serial"@, Bound::Text(sv(f.device_serial)->0));
        lemma_text_piece_contains("r.device_serial"@, sv(f.device_serial));
        lemma_contains_right(s1, p2, x);
        lemma_contains_left(s2, p3, x);
        lemma_contains_left(s3, p4, x);
        lemma_contains_left(s4, p5, x);
        lemma_contains_left(s5, p6, x);
        lemma_contains_left(s6, p7, x);
        lemma_contains_left(s7, p8, x);
        lemma_contains_left(s8, p9, x);
        lemma_contains_left(s9, p10, x);
        lemma_contains_left(s10, p11, x);
        lemma_contains_left(s11, p12, x);
        lemma_contains_left(s12, p13, x);
        lemma_contains_left(s13, p14, x);
        lemma_contains_left(s14, p15, x);
    }
}

proof fn lemma_filter_column_3(f: RunListFilter)
    ensures
        id_text(f.model_asset_id) is Some ==> filter_clauses(f).contains(("r.model_asset_id"@, Bound::Text(id_text(f.model_asset_id)->0))),
{
    let p0 = text_piece("r.platform"@, platform_text(f.platform));
    let p1 = text_piece("r.device_class"@, device_class_text(f.device_class));
    let p2 = text_piece("r.device_serial"@, sv(f.device_serial));
    let p3 = text_piece("r.model_asset_id"@, id_text(f.model_asset_id));
    let p4 = text_piece("r.git_commit_sha"@, sv(f.git_commit_sha));
    let p5 = text_piece("r.git_branch"@, sv(f.git_branch));
    let p6 = int_piece("r.git_dirty"@, flag_int(f.git_dirty));
    let p7 = text_piece("r.sumd_driver_version"@, sv(f.sumd_driver_version));
    let p8 = text_piece("r.bsp_version"@, sv(f.bsp_version));
    let p9 = int_piece("r.gpu_clock_mhz"@, f.gpu_clock_mhz);
    let p10 = int_piece("r.mif_clock_mhz"@, f.mif_clock_mhz);
    let p11 = int_piece("r.int_clock_mhz"@, f.int_clock_mhz);
    let p12 = text_piece("r.host_accelerator"@, sv(f.host_accelerator));
    let p13 = text_piece("r.prompt_sha256"@, digest_text(f.prompt_sha256));
    let p14 = text_piece("r.exit_status"@, exit_status_text(f.exit_status));
    let p15 = text_piece("r.correctness_result"@, correctness_text(f.correctness_result));
    let s0 = p0;
    let s1 = s0 + p1;
    let s2 = s1 + p2;
    let s3 = s2 + p3;
    let s4 = s3 + p4;
    let s5 = s4 + p5;
    let s6 = s5 + p6;
    let s7 = s6 + p7;
    let s8 = s7 + p8;
    let s9 = s8 + p9;
    let s10 = s9 + p10;
    let s11 = s10 + p11;
    let s12 = s11 + p12;
    let s13 = s12 + p13;
    let s14 = s13 + p14;
    let s15 = s14 + p15;
    if id_text(f.model_asset_id) is Some {
        let x = ("r.model_asset_id"@, Bound::Text(id_text(f.model_asset_id)->0));
        lemma_text_piece_contains("r.model_asset_id"@, id_text(f.model_asset_id));
        lemma_contains_right(s2, p3, x);
        lemma_contains_left(s3, p4, x);
        lemma_contains_left(s4, p5, x);
        lemma_contains_left(s5, p6, x);
        lemma_contains_left(s6, p7, x);
        lemma_contains_left(s7, p8, x);
        lemma_contains_left(s8, p9, x);
        lemma_contains_left(s9, p10, x);
        lemma_contains_left(s10, p11, x);
        lemma_contains_left(s11, p12, x);
        lemma_contains_left(s12, p13, x);
        lemma_contains_left(s13, p14, x);
        lemma_contains_left(s14, p15, x);
    }
}

proof fn lemma_filter_column_4(f: RunListFilter)
    ensures
        sv(f.git_commit_sha) is Some ==> filter_clauses(f).contains(("r.git_commit_sha"@, Bound::Text(sv(f.git_commit_sha)->0))),
{
    let p0 = text_piece("r.platform"@, platform_text(f.platform));
    let p1 = text_piece("r.device_class"@, device_class_text(f.device_class));
    let p2 = text_piece("r.device_serial"@, sv(f.device_serial));
    let p3 = text_piece("r.model_asset_id"@, id_text(f.model_asset_id));
    let p4 = text_piece("r.git_commit_sha"@, sv(f.git_commit_sha));
    let p5 = text_piece("r.git_branch"@, sv(f.git_branch));
    let p6 = int_piece("r.git_dirty"@, flag_int(f.git_dirty));
    let p7 = text_piece("r.sumd_driver_version"@, sv(f.sumd_driver_version));
    let p8 = text_piece("r.bsp_version"@, sv(f.bsp_version));
    let p9 = int_piece("r.gpu_clock_mhz"@, f.gpu_clock_mhz);
    let p10 = int_piece("r.mif_clock_mhz"@, f.mif_clock_mhz);
    let p11 = int_piece("r.int_clock_mhz"@, f.int_clock_mhz);
    let p12 = text_piece("r.host_accelerator"@, sv(f.host_accelerator));
    let p13 = text_piece("r.prompt_sha256"@, digest_text(f.prompt_sha256));
    let p14 = text_piece("r.exit_status"@, exit_status_text(f.exit_status));
    let p15 = text_piece("r.correctness_result"@, correctness_text(f.correctness_result));
    let s0 = p0;
    let s1 = s0 + p1;
    let s2 = s1 + p2;
    let s3 = s2 + p3;
    let s4 = s3 + p4;
    let s5 = s4 + p5;
    let s6 = s5 + p6;
    let s7 = s6 + p7;
    let s8 = s7 + p8;
    let s9 = s8 + p9;
    let s10 = s9 + p10;
    let s11 = s10 + p11;
    let s12 = s11 + p12;
    let s13 = s12 + p13;
    let s14 = s13 + p14;
    let s15 = s14 + p15;
    if sv(f.git_commit_sha) is Some {
        let x = ("r.git_commit_sha"@, Bound::Text(sv(f.git_commit_sha)->0));
        lemma_text_piece_contains("r.git_commit_sha"@, sv(f.git_commit_sha));
        lemma_contains_right(s3, p4, x);
        lemma_contains_left(s4, p5, x);
        lemma_contains_left(s5, p6, x);
        lemma_contains_left(s6, p7, x);
        lemma_contains_left(s7, p8, x);
        lemma_contains_left(s8, p9, x);
        lemma_contains_left(s9, p10, x);
        lemma_contains_left(s10, p11, x);
        lemma_contains_left(s11, p12, x);
        lemma_contains_left(s12, p13, x);
        lemma_contains_left(s13, p14, x);
        lemma_contains_left(s14, p15, x);
    }
}

proof fn lemma_filter_column_5(f: RunListFilter)
    ensures
        sv(f.git_branch) is Some ==> filter_clauses(f).contains(("r.git_branch"@, Bound::Text(sv(f.git_branch)->0))),
{
    let p0 = text_piece("r.platform"@, platform_text(f.platform));
    let p1 = text_piece("r.device_class"@, device_class_text(f.device_class));
    let p2 = text_piece("r.device_serial"@, sv(f.device_serial));
    let p3 = text_piece("r.model_asset_id"@, id_text(f.model_asset_id));
    let p4 = text_piece("r.git_commit_sha"@, sv(f.git_commit_sha));
    let p5 = text_piece("r.git_branch"@, sv(f.git_branch));
    let p6 = int_piece("r.git_dirty"@, flag_int(f.git_dirty));
    let p7 = text_piece("r.sumd_driver_version"@, sv(f.sumd_driver_version));
    let p8 = text_piece("r.bsp_version"@, sv(f.bsp_version));
    let p9 = int_piece("r.gpu_clock_mhz"@, f.gpu_clock_mhz);
    let p10 = int_piece("r.mif_clock_mhz"@, f.mif_clock_mhz);
    let p11 = int_piece("r.int_clock_mhz"@, f.int_clock_mhz);
    let p12 = text_piece("r.host_accelerator"@, sv(f.host_accelerator));
    let p13 = text_piece("r.prompt_sha256"@, digest_text(f.prompt_sha256));
    let p14 = text_piece("r.exit_status"@, exit_status_text(f.exit_status));
    let p15 = text_piece("r.correctness_result"@, correctness_text(f.correctness_result));
    let s0 = p0;
    let s1 = s0 + p1;
    let s2 = s1 + p2;
    let s3 = s2 + p3;
    let s4 = s3 + p4;
    let s5 = s4 + p5;
    let s6 = s5 + p6;
    let s7 = s6 + p7;
    let s8 = s7 + p8;
    let s9 = s8 + p9;
    let s10 = s9 + p10;
    let s11 = s10 + p11;
    let s12 = s11 + p12;
    let s13 = s12 + p13;
    let s14 = s13 + p14;
    let s15 = s14 + p15;
    if sv(f.git_branch) is Some {
        let x = ("r.git_branch"@, Bound::Text(sv(f.git_branch)->0));
        lemma_text_piece_contains("r.git_branch"@, sv(f.git_branch));
        lemma_contains_right(s4, p5, x);
        lemma_contains_left(s5, p6, x);
        lemma_contains_left(s6, p7, x);
        lemma_contains_left(s7, p8, x);
        lemma_contains_left(s8, p9, x);
        lemma_contains_left(s9, p10, x);
        lemma_contains_left(s10, p11, x);
        lemma_contains_left(s11, p12, x);
        lemma_contains_left(s12, p13, x);
        lemma_contains_left(s13, p14, x);
        lemma_contains_left(s14, p15, x);
    }
}

proof fn lemma_filter_column_6(f: RunListFilter)
    ensures
        flag_int(f.git_dirty) is Some ==> filter_clauses(f).contains(("r.git_dirty"@, Bound::Integer(flag_int(f.git_dirty)->0))),
{
    let p0 = text_piece("r.platform"@, platform_text(f.platform));
    let p1 = text_piece("r.device_class"@, device_class_text(f.device_class));
    let p2 = text_piece("r.device_serial"@, sv(f.device_serial));
    let p3 = text_piece("r.model_asset_id"@, id_text(f.model_asset_id));
    let p4 = text_piece("r.git_commit_sha"@, sv(f.git_commit_sha));
    let p5 = text_piece("r.git_branch"@, sv(f.git_branch));
    let p6 = int_piece("r.git_dirty"@, flag_int(f.git_dirty));
    let p7 = text_piece("r.sumd_driver_version"@, sv(f.sumd_driver_version));
    let p8 = text_piece("r.bsp_version"@, sv(f.bsp_version));
    let p9 = int_piece("r.gpu_clock_mhz"@, f.gpu_clock_mhz);
    let p10 = int_piece("r.mif_clock_mhz"@, f.mif_clock_mhz);
    let p11 = int_piece("r.int_clock_mhz"@, f.int_clock_mhz);
    let p12 = text_piece("r.host_accelerator"@, sv(f.host_accelerator));
    let p13 = text_piece("r.prompt_sha256"@, digest_text(f.prompt_sha256));
    let p14 = text_piece("r.exit_status"@, exit_status_text(f.exit_status));
    let p15 = text_piece("r.correctness_result"@, correctness_text(f.correctness_result));
    let s0 = p0;
    let s1 = s0 + p1;
    let s2 = s1 + p2;
    let s3 = s2 + p3;
    let s4 = s3 + p4;
    let s5 = s4 + p5;
    let s6 = s5 + p6;
    let s7 = s6 + p7;
    let s8 = s7 + p8;
    let s9 = s8 + p9;
    let s10 = s9 + p10;
    let s11 = s10 + p11;
    let s12 = s11 + p12;
    let s13 = s12 + p13;
    let s14 = s13 + p14;
    let s15 = s14 + p15;
    if flag_int(f.git_dirty) is Some {
        let x = ("r.git_dirty"@, Bound::Integer(flag_int(f.git_dirty)->0));
        lemma_int_piece_contains("r.git_dirty"@, flag_int(f.git_dirty));
        lemma_contains_right(s5, p6, x);
        lemma_contains_left(s6, p7, x);
        lemma_contains_left(s7, p8, x);
        lemma_contains_left(s8, p9, x);
        lemma_contains_left(s9, p10, x);
        lemma_contains_left(s10, p11, x);
        lemma_contains_left(s11, p12, x);
        lemma_contains_left(s12, p13, x);
        lemma_contains_left(s13, p14, x);
        lemma_contains_left(s14, p15, x);
    }
}

proof fn lemma_filter_column_7(f: RunListFilter)
    ensures
        sv(f.sumd_driver_version) is Some ==> filter_clauses(f).contains(("r.sumd_driver_version"@, Bound::Text(sv(f.sumd_driver_version)->0))),
{
    let p0 = text_piece("r.platform"@, platform_text(f.platform));
    let p1 = text_piece("r.device_class"@, device_class_text(f.device_class));
    let p2 = text_piece("r.device_serial"@, sv(f.device_serial));
    let p3 = text_piece("r.model_asset_id"@, id_text(f.model_asset_id));
    let p4 = text_piece("r.git_commit_sha"@, sv(f.git_commit_sha));
    let p5 = text_piece("r.git_branch"@, sv(f.git_branch));
    let p6 = int_piece("r.git_dirty"@, flag_int(f.git_dirty));
    let p7 = text_piece("r.sumd_driver_version"@, sv(f.sumd_driver_version));
    let p8 = text_piece("r.bsp_version"@, sv(f.bsp_version));
    let p9 = int_piece("r.gpu_clock_mhz"@, f.gpu_clock_mhz);
    let p10 = int_piece("r.mif_clock_mhz"@, f.mif_clock_mhz);
    let p11 = int_piece("r.int_clock_mhz"@, f.int_clock_mhz);
    let p12 = text_piece("r.host_accelerator"@, sv(f.host_accelerator));
    let p13 = text_piece("r.prompt_sha256"@, digest_text(f.prompt_sha256));
    let p14 = text_piece("r.exit_status"@, exit_status_text(f.exit_status));
    let p15 = text_piece("r.correctness_result"@, correctness_text(f.correctness_result));
    let s0 = p0;
    let s1 = s0 + p1;
    let s2 = s1 + p2;
    let s3 = s2 + p3;
    let s4 = s3 + p4;
    let s5 = s4 + p5;
    let s6 = s5 + p6;
    let s7 = s6 + p7;
    let s8 = s7 + p8;
    let s9 = s8 + p9;
    let s10 = s9 + p10;
    let s11 = s10 + p11;
    let s12 = s11 + p12;
    let s13 = s12 + p13;
    let s14 = s13 + p14;
    let s15 = s14 + p15;
    if sv(f.sumd_driver_version) is Some {
        let x = ("r.sumd_driver_version"@, Bound::Text(sv(f.sumd_driver_version)->0));
        lemma_text_piece_contains("r.sumd_driver_version"@, sv(f.sumd_driver_version));
        lemma_contains_right(s6, p7, x);
        lemma_contains_left(s7, p8, x);
        lemma_contains_left(s8, p9, x);
        lemma_contains_left(s9, p10, x);
        lemma_contains_left(s10, p11, x);
        lemma_contains_left(s11, p12, x);
        lemma_contains_left(s12, p13, x);
        lemma_contains_left(s13, p14, x);
        lemma_contains_left(s14, p15, x);
    }
}

proof fn lemma_filter_column_8(f: RunListFilter)
    ensures
        sv(f.bsp_version) is Some ==> filter_clauses(f).contains(("r.bsp_version"@, Bound::Text(sv(f.bsp_version)->0))),
{
    let p0 = text_piece("r.platform"@, platform_text(f.platform));
    let p1 = text_piece("r.device_class"@, device_class_text(f.device_class));
    let p2 = text_piece("r.device_serial"@, sv(f.device_serial));
    let p3 = text_piece("r.model_asset_id"@, id_text(f.model_asset_id));
    let p4 = text_piece("r.git_commit_sha"@, sv(f.git_commit_sha));
    let p5 = text_piece("r.git_branch"@, sv(f.git_branch));
    let p6 = int_piece("r.git_dirty"@, flag_int(f.git_dirty));
    let p7 = text_piece("r.sumd_driver_version"@, sv(f.sumd_driver_version));
    let p8 = text_piece("r.bsp_version"@, sv(f.bsp_version));
    let p9 = int_piece("r.gpu_clock_mhz"@, f.gpu_clock_mhz);
    let p10 = int_piece("r.mif_clock_mhz"@, f.mif_clock_mhz);
    let p11 = int_piece("r.int_clock_mhz"@, f.int_clock_mhz);
    let p12 = text_piece("r.host_accelerator"@, sv(f.host_accelerator));
    let p13 = text_piece("r.prompt_sha256"@, digest_text(f.prompt_sha256));
    let p14 = text_piece("r.exit_status"@, exit_status_text(f.exit_status));
    let p15 = text_piece("r.correctness_result"@, correctness_text(f.correctness_result));
    let s0 = p0;
    let s1 = s0 + p1;
    let s2 = s1 + p2;
    let s3 = s2 + p3;
    let s4 = s3 + p4;
    let s5 = s4 + p5;
    let s6 = s5 + p6;
    let s7 = s6 + p7;
    let s8 = s7 + p8;
    let s9 = s8 + p9;
    let s10 = s9 + p10;
    let s11 = s10 + p11;
    let s12 = s11 + p12;
    let s13 = s12 + p13;
    let s14 = s13 + p14;
    let s15 = s14 + p15;
    if sv(f.bsp_version) is Some {
        let x = ("r.bsp_version"@, Bound::Text(sv(f.bsp_version)->0));
        lemma_text_piece_contains("r.bsp_version"@, sv(f.bsp_version));
        lemma_contains_right(s7, p8, x);
        lemma_contains_left(s8, p9, x);
        lemma_contains_left(s9, p10, x);
        lemma_contains_left(s10, p11, x);
        lemma_contains_left(s11, p12, x);
        lemma_contains_left(s12, p13, x);
        lemma_contains_left(s13, p14, x);
        lemma_contains_left(s14, p15, x);
    }
}

proof fn lemma_filter_column_9(f: RunListFilter)
    ensures
        f.gpu_clock_mhz is Some ==> filter_clauses(f).contains(("r.gpu_clock_mhz"@, Bound::Integer(f.gpu_clock_mhz->0))),
{
    let p0 = text_piece("r.platform"@, platform_text(f.platform));
    let p1 = text_piece("r.device_class"@, device_class_text(f.device_class));
    let p2 = text_piece("r.device_serial"@, sv(f.device_serial));
    let p3 = text_piece("r.model_asset_id"@, id_text(f.model_asset_id));
    let p4 = text_piece("r.git_commit_sha"@, sv(f.git_commit_sha));
    let p5 = text_piece("r.git_branch"@, sv(f.git_branch));
    let p6 = int_piece("r.git_dirty"@, flag_int(f.git_dirty));
    let p7 = text_piece("r.sumd_driver_version"@, sv(f.sumd_driver_version));
    let p8 = text_piece("r.bsp_version"@, sv(f.bsp_version));
    let p9 = int_piece("r.gpu_clock_mhz"@, f.gpu_clock_mhz);
    let p10 = int_piece("r.mif_clock_mhz"@, f.mif_clock_mhz);
    let p11 = int_piece("r.int_clock_mhz"@, f.int_clock_mhz);
    let p12 = text_piece("r.host_accelerator"@, sv(f.host_accelerator));
    let p13 = text_piece("r.prompt_sha256"@, digest_text(f.prompt_sha256));
    let p14 = text_piece("r.exit_status"@, exit_status_text(f.exit_status));
    let p15 = text_piece("r.correctness_result"@, correctness_text(f.correctness_result));
    let s0 = p0;
    let s1 = s0 + p1;
    let s2 = s1 + p2;
    let s3 = s2 + p3;
    let s4 = s3 + p4;
    let s5 = s4 + p5;
    let s6 = s5 + p6;
    let s7 = s6 + p7;
    let s8 = s7 + p8;
    let s9 = s8 + p9;
    let s10 = s9 + p10;
    let s11 = s10 + p11;
    let s12 = s11 + p12;
    let s13 = s12 + p13;
    let s14 = s13 + p14;
    let s15 = s14 + p15;
    if f.gpu_clock_mhz is Some {
        let x = ("r.gpu_clock_mhz"@, Bound::Integer(f.gpu_clock_mhz->0));
        lemma_int_piece_contains("r.gpu_clock_mhz"@, f.gpu_clock_mhz);
        lemma_contains_right(s8, p9, x);
        lemma_contains_left(s9, p10, x);
        lemma_contains_left(s10, p11, x);
        lemma_contains_left(s11, p12, x);
        lemma_contains_left(s12, p13, x);
        lemma_contains_left(s13, p14, x);
        lemma_contains_left(s14, p15, x);
    }
}

proof fn lemma_filter_column_10(f: RunListFilter)
    ensures
        f.mif_clock_mhz is Some ==> filter_clauses(f).contains(("r.mif_clock_mhz"@, Bound::Integer(f.mif_clock_mhz->0))),
{
    let p0 = text_piece("r.platform"@, platform_text(f.platform));
    let p1 = text_piece("r.device_class"@, device_class_text(f.device_class));
    let p2 = text_piece("r.device_serial"@, sv(f.device_serial));
    let p3 = text_piece("r.model_asset_id"@, id_text(f.model_asset_id));
    let p4 = text_piece("r.git_commit_sha"@, sv(f.git_commit_sha));
    let p5 = text_piece("r.git_branch"@, sv(f.git_branch));
    let p6 = int_piece("r.git_dirty"@, flag_int(f.git_dirty));
    let p7 = text_piece("r.sumd_driver_version"@, sv(f.sumd_driver_version));
    let p8 = text_piece("r.bsp_version"@, sv(f.bsp_version));
    let p9 = int_piece("r.gpu_clock_mhz"@, f.gpu_clock_mhz);
    let p10 = int_piece("r.mif_clock_mhz"@, f.mif_clock_mhz);
    let p11 = int_piece("r.int_clock_mhz"@, f.int_clock_mhz);
    let p12 = text_piece("r.host_accelerator"@, sv(f.host_accelerator));
    let p13 = text_piece("r.prompt_sha256"@, digest_text(f.prompt_sha256));
    let p14 = text_piece("r.exit_status"@, exit_status_text(f.exit_status));
    let p15 = text_piece("r.correctness_result"@, correctness_text(f.correctness_result));
    let s0 = p0;
    let s1 = s0 + p1;
    let s2 = s1 + p2;
    let s3 = s2 + p3;
    let s4 = s3 + p4;
    let s5 = s4 + p5;
    let s6 = s5 + p6;
    let s7 = s6 + p7;
    let s8 = s7 + p8;
    let s9 = s8 + p9;
    let s10 = s9 + p10;
    let s11 = s10 + p11;
    let s12 = s11 + p12;
    let s13 = s12 + p13;
    let s14 = s13 + p14;
    let s15 = s14 + p15;
    if f.mif_clock_mhz is Some {
        let x = ("r.mif_clock_mhz"@, Bound::Integer(f.mif_clock_mhz->0));
        lemma_int_piece_contains("r.mif_clock_mhz"@, f.mif_clock_mhz);
        lemma_contains_right(s9, p10, x);
        lemma_contains_left(s10, p11, x);
        lemma_contains_left(s11, p12, x);
        lemma_contains_left(s12, p13, x);
        lemma_contains_left(s13, p14, x);
        lemma_contains_left(s14, p15, x);
    }
}

proof fn lemma_filter_column_11(f: RunListFilter)
    ensures
        f.int_clock_mhz is Some ==> filter_clauses(f).contains(("r.int_clock_mhz"@, Bound::Integer(f.int_clock_mhz->0))),
{
    let p0 = text_piece("r.platform"@, platform_text(f.platform));
    let p1 = text_piece("r.device_class"@, device_class_text(f.device_class));
    let p2 = text_piece("r.device_serial"@, sv(f.device_serial));
    let p3 = text_piece("r.model_asset_id"@, id_text(f.model_asset_id));
    let p4 = text_piece("r.git_commit_sha"@, sv(f.git_commit_sha));
    let p5 = text_piece("r.git_branch"@, sv(f.git_branch));
    let p6 = int_piece("r.git_dirty"@, flag_int(f.git_dirty));
    let p7 = text_piece("r.sumd_driver_version"@, sv(f.sumd_driver_version));
    let p8 = text_piece("r.bsp_version"@, sv(f.bsp_version));
    let p9 = int_piece("r.gpu_clock_mhz"@, f.gpu_clock_mhz);
    let p10 = int_piece("r.mif_clock_mhz"@, f.mif_clock_mhz);
    let p11 = int_piece("r.int_clock_mhz"@, f.int_clock_mhz);
    let p12 = text_piece("r.host_accelerator"@, sv(f.host_accelerator));
    let p13 = text_piece("r.prompt_sha256"@, digest_text(f.prompt_sha256));
    let p14 = text_piece("r.exit_status"@, exit_status_text(f.exit_status));
    let p15 = text_piece("r.correctness_result"@, correctness_text(f.correctness_result));
    let s0 = p0;
    let s1 = s0 + p1;
    let s2 = s1 + p2;
    let s3 = s2 + p3;
    let s4 = s3 + p4;
    let s5 = s4 + p5;
    let s6 = s5 + p6;
    let s7 = s6 + p7;
    let s8 = s7 + p8;
    let s9 = s8 + p9;
    let s10 = s9 + p10;
    let s11 = s10 + p11;
    let s12 = s11 + p12;
    let s13 = s12 + p13;
    let s14 = s13 + p14;
    let s15 = s14 + p15;
    if f.int_clock_mhz is Some {
        let x = ("r.int_clock_mhz"@, Bound::Integer(f.int_clock_mhz->0));
        lemma_int_piece_contains("r.int_clock_mhz"@, f.int_clock_mhz);
        lemma_contains_right(s10, p11, x);
        lemma_contains_left(s11, p12, x);
        lemma_contains_left(s12, p13, x);
        lemma_contains_left(s13, p14, x);
        lemma_contains_left(s14, p15, x);
    }
}

proof fn lemma_filter_column_12(f: RunListFilter)
    ensures
        sv(f.host_accelerator) is Some ==> filter_clauses(f).contains(("r.host_accelerator"@, Bound::Text(sv(f.host_accelerator)->0))),
{
    let p0 = text_piece("r.platform"@, platform_text(f.platform));
    let p1 = text_piece("r.device_class"@, device_class_text(f.device_class));
    let p2 = text_piece("r.device_serial"@, sv(f.device_serial));
    let p3 = text_piece("r.model_asset_id"@, id_text(f.model_asset_id));
    let p4 = text_piece("r.git_commit_sha"@, sv(f.git_commit_sha));
    let p5 = text_piece("r.git_branch"@, sv(f.git_branch));
    let p6 = int_piece("r.git_dirty"@, flag_int(f.git_dirty));
    let p7 = text_piece("r.sumd_driver_version"@, sv(f.sumd_driver_version));
    let p8 = text_piece("r.bsp_version"@, sv(f.bsp_version));
    let p9 = int_piece("r.gpu_clock_mhz"@, f.gpu_clock_mhz);
    let p10 = int_piece("r.mif_clock_mhz"@, f.mif_clock_mhz);
    let p11 = int_piece("r.int_clock_mhz"@, f.int_clock_mhz);
    let p12 = text_piece("r.host_accelerator"@, sv(f.host_accelerator));
    let p13 = text_piece("r.prompt_sha256"@, digest_text(f.prompt_sha256));
    let p14 = text_piece("r.exit_status"@, exit_status_text(f.exit_status));
    let p15 = text_piece("r.correctness_result"@, correctness_text(f.correctness_result));
    let s0 = p0;
    let s1 = s0 + p1;
    let s2 = s1 + p2;
    let s3 = s2 + p3;
    let s4 = s3 + p4;
    let s5 = s4 + p5;
    let s6 = s5 + p6;
    let s7 = s6 + p7;
    let s8 = s7 + p8;
    let s9 = s8 + p9;
    let s10 = s9 + p10;
    let s11 = s10 + p11;
    let s12 = s11 + p12;
    let s13 = s12 + p13;
    let s14 = s13 + p14;
    let s15 = s14 + p15;
    if sv(f.host_accelerator) is Some {
        let x = ("r.host_accelerator"@, Bound::Text(sv(f.host_accelerator)->0));
        lemma_text_piece_contains("r.host_accelerator"@, sv(f.host_accelerator));
        lemma_contains_right(s11, p12, x);
        lemma_contains_left(s12, p13, x);
        lemma_contains_left(s13, p14, x);
        lemma_contains_left(s14, p15, x);
    }
}

proof fn lemma_filter_column_13(f: RunListFilter)
    ensures
        digest_text(f.prompt_sha256) is Some ==> filter_clauses(f).contains(("r.prompt_sha256"@, Bound::Text(digest_text(f.prompt_sha256)->0))),
{
    let p0 = text_piece("r.platform"@, platform_text(f.platform));
    let p1 = text_piece("r.device_class"@, device_class_text(f.device_class));
    let p2 = text_piece("r.device_serial"@, sv(f.device_serial));
    let p3 = text_piece("r.model_asset_id"@, id_text(f.model_asset_id));
    let p4 = text_piece("r.git_commit_sha"@, sv(f.git_commit_sha));
    let p5 = text_piece("r.git_branch"@, sv(f.git_branch));
    let p6 = int_piece("r.git_dirty"@, flag_int(f.git_dirty));
    let p7 = text_piece("r.sumd_driver_version"@, sv(f.sumd_driver_version));
    let p8 = text_piece("r.bsp_version"@, sv(f.bsp_version));
    let p9 = int_piece("r.gpu_clock_mhz"@, f.gpu_clock_mhz);
    let p10 = int_piece("r.mif_clock_mhz"@, f.mif_clock_mhz);
    let p11 = int_piece("r.int_clock_mhz"@, f.int_clock_mhz);
    let p12 = text_piece("r.host_accelerator"@, sv(f.host_accelerator));
    let p13 = text_piece("r.prompt_sha256"@, digest_text(f.prompt_sha256));
    let p14 = text_piece("r.exit_status"@, exit_status_text(f.exit_status));
    let p15 = text_piece("r.correctness_result"@, correctness_text(f.correctness_result));
    let s0 = p0;
    let s1 = s0 + p1;
    let s2 = s1 + p2;
    let s3 = s2 + p3;
    let s4 = s3 + p4;
    let s5 = s4 + p5;
    let s6 = s5 + p6;
    let s7 = s6 + p7;
    let s8 = s7 + p8;
    let s9 = s8 + p9;
    let s10 = s9 + p10;
    let s11 = s10 + p11;
    let s12 = s11 + p12;
    let s13 = s12 + p13;
    let s14 = s13 + p14;
    let s15 = s14 + p15;
    if digest_text(f.prompt_sha256) is Some {
        let x = ("r.prompt_sha256"@, Bound::Text(digest_text(f.prompt_sha256)->0));
        lemma_text_piece_contains("r.prompt_sha256"@, digest_text(f.prompt_sha256));
        lemma_contains_right(s12, p13, x);
        lemma_contains_left(s13, p14, x);
        lemma_contains_left(s14, p15, x);
    }
}

proof fn lemma_filter_column_14(f: RunListFilter)
    ensures
        exit_status_text(f.exit_status) is Some ==> filter_clauses(f).contains(("r.exit_status"@, Bound::Text(exit_status_text(f.exit_status)->0))),
{
    let p0 = text_piece("r.platform"@, platform_text(f.platform));
    let p1 = text_piece("r.device_class"@, device_class_text(f.device_class));
    let p2 = text_piece("r.device_serial"@, sv(f.device_serial));
    let p3 = text_piece("r.model_asset_id"@, id_text(f.model_asset_id));
    let p4 = text_piece("r.git_commit_sha"@, sv(f.git_commit_sha));
    let p5 = text_piece("r.git_branch"@, sv(f.git_branch));
    let p6 = int_piece("r.git_dirty"@, flag_int(f.git_dirty));
    let p7 = text_piece("r.sumd_driver_version"@, sv(f.sumd_driver_version));
    let p8 = text_piece("r.bsp_version"@, sv(f.bsp_version));
    let p9 = int_piece("r.gpu_clock_mhz"@, f.gpu_clock_mhz);
    let p10 = int_piece("r.mif_clock_mhz"@, f.mif_clock_mhz);
    let p11 = int_piece("r.int_clock_mhz"@, f.int_clock_mhz);
    let p12 = text_piece("r.host_accelerator"@, sv(f.host_accelerator));
    let p13 = text_piece("r.prompt_sha256"@, digest_text(f.prompt_sha256));
    let p14 = text_piece("r.exit_status"@, exit_status_text(f.exit_status));
    let p15 = text_piece("r.correctness_result"@, correctness_text(f.correctness_result));
    let s0 = p0;
    let s1 = s0 + p1;
    let s2 = s1 + p2;
    let s3 = s2 + p3;
    let s4 = s3 + p4;
    let s5 = s4 + p5;
    let s6 = s5 + p6;
    let s7 = s6 + p7;
    let s8 = s7 + p8;
    let s9 = s8 + p9;
    let s10 = s9 + p10;
    let s11 = s10 + p11;
    let s12 = s11 + p12;
    let s13 = s12 + p13;
    let s14 = s13 + p14;
    let s15 = s14 + p15;
    if exit_status_text(f.exit_status) is Some {
        let x = ("r.exit_status"@, Bound::Text(exit_status_text(f.exit_status)->0));
        lemma_text_piece_contains("r.exit_status"@, exit_status_text(f.exit_status));
        lemma_contains_right(s13, p14, x);
        lemma_contains_left(s14, p15, x);
    }
}

proof fn lemma_filter_column_15(f: RunListFilter)
    ensures
        correctness_text(f.correctness_result) is Some ==> filter_clauses(f).contains(("r.correctness_result"@, Bound::Text(correctness_text(f.correctness_result)->0))),
{
    let p0 = text_piece("r.platform"@, platform_text(f.platform));
    let p1 = text_piece("r.device_class"@, device_class_text(f.device_class));
    let p2 = text_piece("r.device_serial"@, sv(f.device_serial));
    let p3 = text_piece("r.model_asset_id"@, id_text(f.model_asset_id));
    let p4 = text_piece("r.git_commit_sha"@, sv(f.git_commit_sha));
    let p5 = text_piece("r.git_branch"@, sv(f.git_branch));
    let p6 = int_piece("r.git_dirty"@, flag_int(f.git_dirty));
    let p7 = text_piece("r.sumd_driver_version"@, sv(f.sumd_driver_version));
    let p8 = text_piece("r.bsp_version"@, sv(f.bsp_version));
    let p9 = int_piece("r.gpu_clock_mhz"@, f.gpu_clock_mhz);
    let p10 = int_piece("r.mif_clock_mhz"@, f.mif_clock_mhz);
    let p11 = int_piece("r.int_clock_mhz"@, f.int_clock_mhz);
    let p12 = text_piece("r.host_accelerator"@, sv(f.host_accelerator));
    let p13 = text_piece("r.prompt_sha256"@, digest_text(f.prompt_sha256));
    let p14 = text_piece("r.exit_status"@, exit_status_text(f.exit_status));
    let p15 = text_piece("r.correctness_result"@, correctness_text(f.correctness_result));
    let s0 = p0;
    let s1 = s0 + p1;
    let s2 = s1 + p2;
    let s3 = s2 + p3;
    let s4 = s3 + p4;
    let s5 = s4 + p5;
    let s6 = s5 + p6;
    let s7 = s6 + p7;
    let s8 = s7 + p8;
    let s9 = s8 + p9;
    let s10 = s9 + p10;
    let s11 = s10 + p11;
    let s12 = s11 + p12;
    let s13 = s12 + p13;
    let s14 = s13 + p14;
    let s15 = s14 + p15;
    if correctness_text(f.correctness_result) is Some {
        let x = ("r.correctness_result"@, Bound::Text(correctness_text(f.correctness_result)->0));
        lemma_text_piece_contains("r.correctness_result"@, correctness_text(f.correctness_result));
        lemma_contains_right(s14, p15, x);
    }
}

proof fn lemma_filter_condition_count(f: RunListFilter)
    ensures
        filter_clauses(f).len() == set_field_count(f),
{
}

/// Each set filter field becomes a condition on the runs column of its own
/// name, comparing it with the field's stored value, and there is one
/// condition per set field and no other.
pub proof fn lemma_filter_columns(f: RunListFilter)
    ensures
        f.platform matches Some(p) ==> filter_clauses(f).contains(("r.platform"@, Bound::Text(p.text()))),
        f.device_class matches Some(c) ==> filter_clauses(f).contains(("r.device_class"@, Bound::Text(c.text()))),
        f.device_serial matches Some(s) ==> filter_clauses(f).contains(("r.device_serial"@, Bound::Text(s@))),
        f.model_asset_id matches Some(i) ==> filter_clauses(f).contains(
            ("r.model_asset_id"@, Bound::Text(uuid_text(i))),
        ),
        f.git_commit_sha matches Some(s) ==> filter_clauses(f).contains(("r.git_commit_sha"@, Bound::Text(s@))),
        f.git_branch matches Some(s) ==> filter_clauses(f).contains(("r.git_branch"@, Bound::Text(s@))),
        f.git_dirty == Some(true) ==> filter_clauses(f).contains(("r.git_dirty"@, Bound::Integer(1))),
        f.git_dirty == Some(false) ==> filter_clauses(f).contains(("r.git_dirty"@, Bound::Integer(0))),
        f.sumd_driver_version matches Some(s) ==> filter_clauses(f).contains(
            ("r.sumd_driver_version"@, Bound::Text(s@)),
        ),
        f.bsp_version matches Some(s) ==> filter_clauses(f).contains(("r.bsp_version"@, Bound::Text(s@))),
        f.gpu_clock_mhz matches Some(x) ==> filter_clauses(f).contains(("r.gpu_clock_mhz"@, Bound::Integer(x))),
        f.mif_clock_mhz matches Some(x) ==> filter_clauses(f).contains(("r.mif_clock_mhz"@, Bound::Integer(x))),
        f.int_clock_mhz matches Some(x) ==> filter_clauses(f).contains(("r.int_clock_mhz"@, Bound::Integer(x))),
        f.host_accelerator matches Some(s) ==> filter_clauses(f).contains(
            ("r.host_accelerator"@, Bound::Text(s@)),
        ),
        f.prompt_sha256 matches Some(h) ==> filter_clauses(f).contains(("r.prompt_sha256"@, Bound::Text(h@))),
        f.exit_status matches Some(e) ==> filter_clauses(f).contains(("r.exit_status"@, Bound::Text(e.text()))),
        f.correctness_result matches Some(c) ==> filter_clauses(f).contains(
            ("r.correctness_result"@, Bound::Text(c.text())),
        ),
        filter_clauses(f).len() == set_field_count(f),
{
    lemma_filter_condition_count(f);
    lemma_filter_column_0(f);
    lemma_filter_column_1(f);
    lemma_filter_column_2(f);
    lemma_filter_column_3(f);
    lemma_filter_column_4(f);
    lemma_filter_column_5(f);
    lemma_filter_column_6(f);
    lemma_filter_column_7(f);
    lemma_filter_column_8(f);
    lemma_filter_column_9(f);
    lemma_filter_column_10(f);
    lemma_filter_column_11(f);
    lemma_filter_column_12(f);
    lemma_filter_column_13(f);
    lemma_filter_column_14(f);
    lemma_filter_column_15(f);
}

impl RunListFilter {
    /// The `AND <column> = ?` conditions for every set field.
    #[verifier::rlimit(30)]
    #[verifier::spinoff_prover]
    pub fn where_clauses(&self) -> (v: Vec<WhereClause>)
        ensures
            clause_views(v@) == filter_clauses(*self),
    {
        let mut v: Vec<WhereClause> = Vec::new();
        let ghost start = v@;
        push_text(
            &mut v,
            "r.platform",
            match self.platform {
                Some(p) => Some(String::from_str(p.as_str())),
                None => None,
            },
        );
        push_text(
            &mut v,
            "r.device_class",
            match self.device_class {
                Some(c) => Some(String::from_str(c.as_str())),
                None => None,
            },
        );
        push_text(&mut v, "r.device_serial", clone_opt(&self.device_serial));
        push_text(
            &mut v,
            "r.model_asset_id",
            match self.model_asset_id {
                Some(i) => Some(uuid_to_text(i)),
                None => None,
            },
        );
        push_text(&mut v, "r.git_commit_sha", clone_opt(&self.git_commit_sha));
        push_text(&mut v, "r.git_branch", clone_opt(&self.git_branch));
        push_int(
            &mut v,
            "r.git_dirty",
            match self.git_dirty {
                Some(b) => Some(if b { 1i64 } else { 0i64 }),
                None => None,
            },
        );
        push_text(&mut v, "r.sumd_driver_version", clone_opt(&self.sumd_driver_version));
        push_text(&mut v, "r.bsp_version", clone_opt(&self.bsp_version));
        push_int(&mut v, "r.gpu_clock_mhz", self.gpu_clock_mhz);
        push_int(&mut v, "r.mif_clock_mhz", self.mif_clock_mhz);
        push_int(&mut v, "r.int_clock_mhz", self.int_clock_mhz);
        push_text(&mut v, "r.host_accelerator", clone_opt(&self.host_accelerator));
        push_text(
            &mut v,
            "r.prompt_sha256",
            match &self.prompt_sha256 {
                Some(h) => Some(String::from_str(h.as_str())),
                None => None,
            },
        );
        push_text(
            &mut v,
            "r.exit_status",
            match self.exit_status {
                Some(e) => Some(String::from_str(e.as_str())),
                None => None,
            },
        );
        push_text(
            &mut v,
            "r.correctness_result",
            match self.correctness_result {
                Some(c) => Some(String::from_str(c.as_str())),
                None => None,
            },
        );
        assert(clause_views(start) =~= Seq::empty());
        assert(clause_views(v@) =~= filter_clauses(*self));
        v
    }
}

/// Exact-match filters for grouped results. Outcome fields are absent:
/// every run of a configuration counts in its row.
#[derive(Debug)]
pub struct ResultsFilter {
    pub platform: Option<Platform>,
    pub device_class: Option<DeviceClass>,
    pub device_serial: Option<String>,
    pub model_asset_id: Option<u128>,
    pub git_commit_sha: Option<String>,
    pub git_branch: Option<String>,
    pub git_dirty: Option<bool>,
    pub sumd_driver_version: Option<String>,
    pub bsp_version: Option<String>,
    pub host_accelerator: Option<String>,
    pub prompt_sha256: Option<Sha256Hex>,
}

impl Default for ResultsFilter {
    fn default() -> (f: Self)
        ensures
            f.platform is None && f.device_class is None && f.device_serial is None
                && f.model_asset_id is None && f.git_commit_sha is None && f.git_branch is None
                && f.git_dirty is None && f.sumd_driver_version is None && f.bsp_version is None
                && f.host_accelerator is None && f.prompt_sha256 is None,
    {
        ResultsFilter {
            platform: None,
            device_class: None,
            device_serial: None,
            model_asset_id: None,
            git_commit_sha: None,
            git_branch: None,
            git_dirty: None,
            sumd_driver_version: None,
            bsp_version: None,
            host_accelerator: None,
            prompt_sha256: None,
        }
    }
}

impl RunListFilter {
    /// The run filter selecting the runs a results filter selects: the same
    /// fields set, no clock or outcome condition.
    pub fn from_results_filter(f: &ResultsFilter) -> (r: RunListFilter)
        ensures
            r.platform == f.platform,
            r.device_class == f.device_class,
            sv(r.device_serial) == sv(f.device_serial),
            r.model_asset_id == f.model_asset_id,
            sv(r.git_commit_sha) == sv(f.git_commit_sha),
            sv(r.git_branch) == sv(f.git_branch),
            r.git_dirty == f.git_dirty,
            sv(r.sumd_driver_version) == sv(f.sumd_driver_version),
            sv(r.bsp_version) == sv(f.bsp_version),
            r.gpu_clock_mhz is None,
            r.mif_clock_mhz is None,
            r.int_clock_mhz is None,
            sv(r.host_accelerator) == sv(f.host_accelerator),
            digest_text(r.prompt_sha256) == digest_text(f.prompt_sha256),
            r.exit_status is None,
            r.correctness_result is None,
    {
        RunListFilter {
            platform: f.platform,
            device_class: f.device_class,
            device_serial: clone_opt(&f.device_serial),
            model_asset_id: f.model_asset_id,
            git_commit_sha: clone_opt(&f.git_commit_sha),
            git_branch: clone_opt(&f.git_branch),
            git_dirty: f.git_dirty,
            sumd_driver_version: clone_opt(&f.sumd_driver_version),
            bsp_version: clone_opt(&f.bsp_version),
            gpu_clock_mhz: None,
            mif_clock_mhz: None,
            int_clock_mhz: None,
            host_accelerator: clone_opt(&f.host_accelerator),
            prompt_sha256: match &f.prompt_sha256 {
                Some(h) => Some(h.clone()),
                None => None,
            },
            exit_status: None,
            correctness_result: None,
        }
    }
}

/// The list columns of one stored run (joined with its model's name), as
/// the database returns them.
#[derive(Debug)]
pub struct SummaryRow {
    pub id: String,
    pub started_at: Timestamp,
    pub finished_at: Option<Timestamp>,
    pub repetition: i64,
    pub platform: String,
    pub device_class: String,
    pub device_serial: String,
    pub device_model: Option<String>,
    pub git_commit_sha: String,
    pub git_dirty: i64,
    pub git_branch: Option<String>,
    pub sumd_driver_version: Option<String>,
    pub bsp_version: Option<String>,
    pub host_accelerator: Option<String>,
    pub model_asset_id: String,
    pub model_original_name: Option<String>,
    pub exit_status: String,
    pub correctness_result: String,
    pub prefill_tokens_per_sec: Float64,
    pub decode_tokens_per_sec: Option<Float64>,
    pub thermal_throttling: Option<i64>,
}

/// The per-run summary a listing returns: list columns only.
#[derive(Debug)]
pub struct RunSummary {
    pub id: u128,
    pub started_at: Timestamp,
    pub finished_at: Option<Timestamp>,
    pub repetition: i64,
    pub platform: Platform,
    pub device_class: DeviceClass,
    pub device_serial: String,
    pub device_model: Option<String>,
    pub git_commit_sha: String,
    pub git_dirty: bool,
    pub git_branch: Option<String>,
    pub sumd_driver_version: Option<String>,
    pub bsp_version: Option<String>,
    pub host_accelerator: Option<String>,
    pub model_asset_id: u128,
    pub model_original_name: String,
    pub exit_status: ExitStatus,
    pub correctness_result: CorrectnessResult,
    pub prefill_tokens_per_sec: Float64,
    pub decode_tokens_per_sec: Option<Float64>,
    pub thermal_throttling: Option<bool>,
}

/// The first inconsistency found reading a summary row, in reading order:
/// run id, platform, device class, model id, exit status, correctness.
pub open spec fn summary_violation(row: SummaryRow) -> Option<Seq<char>> {
    if uuid_reading(row.id@) is Err {
        Some("invalid run id: "@ + uuid_reading(row.id@)->Err_0)
    } else if Platform::from_text(row.platform@) is None {
        Some("invalid stored platform: "@ + ("invalid platform: "@ + debug_quoted(row.platform@)))
    } else if DeviceClass::from_text(row.device_class@) is None {
        Some("invalid stored device_class: "@ + ("invalid device class: "@ + debug_quoted(row.device_class@)))
    } else if uuid_reading(row.model_asset_id@) is Err {
        Some("invalid stored model_asset_id: "@ + uuid_reading(row.model_asset_id@)->Err_0)
    } else if ExitStatus::from_text(row.exit_status@) is None {
        Some("invalid stored exit_status: "@ + ("invalid exit status: "@ + debug_quoted(row.exit_status@)))
    } else if CorrectnessResult::from_text(row.correctness_result@) is None {
        Some(
            "invalid stored correctness_result: "@ + ("invalid correctness result: "@ + debug_quoted(
                row.correctness_result@,
            )),
        )
    } else {
        None
    }
}

/// `s` is what reading the consistent summary row `row` gives.
pub open spec fn summary_read(row: SummaryRow, s: RunSummary) -> bool {
    &&& uuid_reading(row.id@) == Ok::<u128, Seq<char>>(s.id)
    &&& s.started_at == row.started_at
    &&& s.finished_at == row.finished_at
    &&& s.repetition == row.repetition
    &&& Platform::from_text(row.platform@) == Some(s.platform)
    &&& DeviceClass::from_text(row.device_class@) == Some(s.device_class)
    &&& s.device_serial == row.device_serial
    &&& s.device_model == row.device_model
    &&& s.git_commit_sha == row.git_commit_sha
    &&& s.git_dirty == (row.git_dirty != 0)
    &&& s.git_branch == row.git_branch
    &&& s.sumd_driver_version == row.sumd_driver_version
    &&& s.bsp_version == row.bsp_version
    &&& s.host_accelerator == row.host_accelerator
    &&& uuid_reading(row.model_asset_id@) == Ok::<u128, Seq<char>>(s.model_asset_id)
    &&& s.model_original_name@ == match row.model_original_name {
        Some(n) => n@,
        None => Seq::<char>::empty(),
    }
    &&& ExitStatus::from_text(row.exit_status@) == Some(s.exit_status)
    &&& CorrectnessResult::from_text(row.correctness_result@) == Some(s.correctness_result)
    &&& s.prefill_tokens_per_sec == row.prefill_tokens_per_sec
    &&& s.decode_tokens_per_sec == row.decode_tokens_per_sec
    &&& s.thermal_throttling == opt_flag_read(row.thermal_throttling)
}

/// Reads the list columns of a stored run, reporting the first
/// inconsistency.
pub fn summary_from_row(row: SummaryRow) -> (r: Result<RunSummary, RunsError>)
    ensures
        match r {
            Ok(s) => summary_violation(row) is None && summary_read(row, s),
            Err(e) => summary_violation(row) == Some(e.0@),
        },
{
    let id = match uuid_from_text(row.id.as_str()) {
        Ok(v) => v,
        Err(e) => return Err(text_of("invalid run id: ", e.as_str())),
    };
    let platform = match Platform::parse(row.platform.as_str()) {
        Ok(v) => v,
        Err(e) => return Err(text_of("invalid stored platform: ", e.0.as_str())),
    };
    let device_class = match DeviceClass::parse(row.device_class.as_str()) {
        Ok(v) => v,
        Err(e) => return Err(text_of("invalid stored device_class: ", e.0.as_str())),
    };
    let model_asset_id = match uuid_from_text(row.model_asset_id.as_str()) {
        Ok(v) => v,
        Err(e) => return Err(text_of("invalid stored model_asset_id: ", e.as_str())),
    };
    let exit_status = match ExitStatus::parse(row.exit_status.as_str()) {
        Ok(v) => v,
        Err(e) => return Err(text_of("invalid stored exit_status: ", e.0.as_str())),
    };
    let correctness_result = match CorrectnessResult::parse(row.correctness_result.as_str()) {
        Ok(v) => v,
        Err(e) => return Err(text_of("invalid stored correctness_result: ", e.0.as_str())),
    };
    let thermal_throttling = read_flag(row.thermal_throttling);
    let model_original_name = match row.model_original_name {
        Some(n) => n,
        None => String::new(),
    };
    Ok(RunSummary {
        id,
        started_at: row.started_at,
        finished_at: row.finished_at,
        repetition: row.repetition,
        platform,
        device_class,
        device_serial: row.device_serial,
        device_model: row.device_model,
        git_commit_sha: row.git_commit_sha,
        git_dirty: row.git_dirty != 0,
        git_branch: row.git_branch,
        sumd_driver_version: row.sumd_driver_version,
        bsp_version: row.bsp_version,
        host_accelerator: row.host_accelerator,
        model_asset_id,
        model_original_name,
        exit_status,
        correctness_result,
        prefill_tokens_per_sec: row.prefill_tokens_per_sec,
        decode_tokens_per_sec: row.decode_tokens_per_sec,
        thermal_throttling,
    })
}

/// Instant `a` is strictly before instant `b`.
pub open spec fn ts_lt(a: Timestamp, b: Timestamp) -> bool {
    a.secs() < b.secs() || (a.secs() == b.secs() && a.subsec() < b.subsec())
}

/// In a newest-first listing, the run at `(a_at, a_id)` comes before the
/// run at `(b_at, b_id)`: it started later, or at the same instant and has
/// the greater id.
pub open spec fn lists_before(a_at: Timestamp, a_id: u128, b_at: Timestamp, b_id: u128) -> bool {
    ||| ts_lt(b_at, a_at)
    ||| (b_at.secs() == a_at.secs() && b_at.subsec() == a_at.subsec() && b_id < a_id)
}

/// `rows` is listed newest first: by start time, then id, both descending.
pub open spec fn newest_first(rows: Seq<RunSummary>) -> bool {
    forall|i: int, j: int|
        0 <= i < j < rows.len() ==> lists_before(
            #[trigger] rows[i].started_at,
            rows[i].id,
            #[trigger] rows[j].started_at,
            rows[j].id,
        )
}

/// The listing position of a run: its start time and id.
pub open spec fn position_of(s: RunSummary) -> RunCursor {
    RunCursor { started_at: s.started_at, id: s.id }
}

/// The runs a cursor admits to the next page: those listed after its
/// position, `started_at < t OR (started_at = t AND id < i)`.
pub open spec fn cursor_admits(c: RunCursor, s: RunSummary) -> bool {
    lists_before(c.started_at, c.id, s.started_at, s.id)
}

proof fn lemma_filter_suffix<A>(v: Seq<A>, p: spec_fn(A) -> bool, k: int)
    requires
        0 <= k <= v.len(),
        forall|i: int| 0 <= i < v.len() ==> (p(#[trigger] v[i]) <==> k <= i),
    ensures
        v.filter(p) == v.skip(k),
    decreases v.len(),
{
    reveal(Seq::filter);
    if v.len() == 0 {
        assert(v.filter(p) =~= v.skip(k));
    } else {
        let d = v.drop_last();
        let k2 = if k < v.len() { k } else { v.len() - 1 };
        assert forall|i: int| 0 <= i < d.len() implies (p(#[trigger] d[i]) <==> k2 <= i) by {
            assert(d[i] == v[i]);
        }
        lemma_filter_suffix(d, p, k2);
        assert(p(v.last()) <==> k <= v.len() - 1);
        if k < v.len() {
            assert(v.skip(k) =~= d.skip(k).push(v.last()));
        } else {
            assert(v.skip(k) =~= d.skip(k2));
        }
    }
}

/// Keyset pagination resumes exactly where a page ended. Over runs listed
/// newest first, the cursor of a page made of the first `limit` of them
/// (`page_of`'s, when more runs came) admits exactly the runs after that
/// page, and in listing order they are the rest of the list: none skipped,
/// none repeated. A run that started after every run listed, or at the same
/// instant with a greater id, is never admitted, so runs added between
/// calls do not enter later pages.
pub proof fn lemma_next_page_resumes(rows: Seq<RunSummary>, limit: int)
    requires
        newest_first(rows),
        0 < limit < rows.len(),
    ensures
        forall|i: int|
            0 <= i < rows.len() ==> (cursor_admits(position_of(rows[limit - 1]), #[trigger] rows[i]) <==> limit
                <= i),
        rows.filter(|s: RunSummary| cursor_admits(position_of(rows[limit - 1]), s)) == rows.skip(limit),
        forall|s: RunSummary|
            lists_before(s.started_at, s.id, rows[0].started_at, rows[0].id) ==> !cursor_admits(
                position_of(rows[limit - 1]),
                s,
            ),
{
    let c = position_of(rows[limit - 1]);
    let p = |s: RunSummary| cursor_admits(c, s);
    assert forall|i: int| 0 <= i < rows.len() implies (p(#[trigger] rows[i]) <==> limit <= i) by {
        if i < limit - 1 {
            assert(lists_before(rows[i].started_at, rows[i].id, rows[limit - 1].started_at, rows[limit - 1].id));
        } else if i >= limit {
            assert(lists_before(rows[limit - 1].started_at, rows[limit - 1].id, rows[i].started_at, rows[i].id));
        }
    }
    lemma_filter_suffix(rows, p, limit);
    if limit > 1 {
        assert(lists_before(rows[0].started_at, rows[0].id, rows[limit - 1].started_at, rows[limit - 1].id));
    }
}

/// What a client lists by following `page_of`'s cursors from the first
/// page over runs listed newest first: each page is the first `limit` runs
/// its cursor admits, and the next call admits what the page's last
/// position admits, until a page comes without a cursor.
pub open spec fn pages_listed(rows: Seq<RunSummary>, limit: int) -> Seq<RunSummary>
    decreases rows.len(),
    when newest_first(rows) && limit > 0
{
    if rows.len() <= limit {
        rows
    } else {
        proof {
            lemma_next_page_resumes(rows, limit);
        }
        rows.take(limit) + pages_listed(
            rows.filter(|s: RunSummary| cursor_admits(position_of(rows[limit - 1]), s)),
            limit,
        )
    }
}

/// Paging to exhaustion lists every run exactly once, newest first: the
/// pages that following the cursors gives, put together, are the runs
/// listed at the first call.
pub proof fn lemma_paging_lists_each_once(rows: Seq<RunSummary>, limit: int)
    requires
        newest_first(rows),
        limit > 0,
    ensures
        pages_listed(rows, limit) == rows,
    decreases rows.len(),
{
    if rows.len() > limit {
        lemma_next_page_resumes(rows, limit);
        let rest = rows.skip(limit);
        assert forall|i: int, j: int| 0 <= i < j < rest.len() implies lists_before(
            #[trigger] rest[i].started_at,
            rest[i].id,
            #[trigger] rest[j].started_at,
            rest[j].id,
        ) by {
            assert(rest[i] == rows[i + limit] && rest[j] == rows[j + limit]);
        }
        lemma_paging_lists_each_once(rest, limit);
        assert(rows.take(limit) + rest =~= rows);
    }
}

/// One page of a newest-first listing.
#[derive(Debug)]
pub struct RunPage {
    pub items: Vec<RunSummary>,
    /// Position of the last item, present only when more runs match.
    pub next_cursor: Option<RunCursor>,
}

/// The page made of the first `limit` of `fetched` (fetched newest first,
/// one more than `limit` when available): when more than `limit` runs
/// came, the page keeps `limit` of them and its cursor is the
/// `(started_at, id)` of the last one kept; otherwise it keeps them all and
/// has no cursor.
pub fn page_of(fetched: Vec<RunSummary>, limit: usize) -> (p: RunPage)
    ensures
        fetched.len() > limit ==> {
            &&& p.items@ == fetched@.take(limit as int)
            &&& limit == 0 ==> p.next_cursor is None
            &&& limit > 0 ==> p.next_cursor == Some(position_of(fetched@[limit - 1]))
        },
        fetched.len() <= limit ==> p.items@ == fetched@ && p.next_cursor is None,
{
    let mut items = fetched;
    if items.len() > limit {
        items.truncate(limit);
        let next_cursor = if limit > 0 {
            let last = &items[limit - 1];
            Some(RunCursor { started_at: last.started_at, id: last.id })
        } else {
            None
        };
        RunPage { items, next_cursor }
    } else {
        RunPage { items, next_cursor: None }
    }
}

} // verus!
