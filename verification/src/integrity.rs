//! The read-only storage/database reconciliation report.

use vstd::prelude::*;
use crate::domain::str_eq;
use crate::ids::{uuid_from_text, uuid_reading};
use crate::text::{chars_of, push_char};

verus! {

broadcast use vstd::string::group_string_axioms;

/// A failure building the report.
#[derive(Debug)]
pub struct IntegrityError(pub String);

/// A snapshot of storage/database consistency. Every field reports;
/// nothing is modified or deleted.
#[derive(Debug)]
pub struct IntegrityReport {
    /// Artifact rows no run references.
    pub unreferenced_artifacts: Vec<u128>,
    /// Artifact rows whose file is missing on disk.
    pub artifacts_missing_files: Vec<u128>,
    /// Files under the artifact root with no artifact row.
    pub orphaned_artifact_files: Vec<String>,
    /// Files under the model root with no model asset row.
    pub orphaned_model_files: Vec<String>,
    /// External model assets marked unavailable.
    pub unavailable_models: Vec<u128>,
}

impl IntegrityReport {
    /// Whether every check came back empty.
    pub fn is_clean(&self) -> (c: bool)
        ensures
            c == (self.unreferenced_artifacts@.len() == 0 && self.artifacts_missing_files@.len() == 0
                && self.orphaned_artifact_files@.len() == 0 && self.orphaned_model_files@.len() == 0
                && self.unavailable_models@.len() == 0),
    {
        self.unreferenced_artifacts.len() == 0 && self.artifacts_missing_files.len() == 0
            && self.orphaned_artifact_files.len() == 0 && self.orphaned_model_files.len() == 0
            && self.unavailable_models.len() == 0
    }
}

/// The views of a list of strings.
pub open spec fn texts(v: Seq<String>) -> Seq<Seq<char>> {
    v.map_values(|s: String| s@)
}

/// The first stored id that is no UUID, as the refusal.
pub open spec fn id_violation(ids: Seq<Seq<char>>, what: Seq<char>) -> Option<Seq<char>>
    decreases ids.len(),
{
    if ids.len() == 0 {
        None
    } else {
        match id_violation(ids.drop_last(), what) {
            Some(e) => Some(e),
            None => match uuid_reading(ids.last()) {
                Err(e) => Some("invalid stored "@ + what + " id: "@ + e),
                Ok(_) => None,
            },
        }
    }
}

proof fn lemma_id_violation_sticks(ids: Seq<Seq<char>>, what: Seq<char>, i: int)
    requires
        0 <= i <= ids.len(),
        id_violation(ids.take(i), what) is Some,
    ensures
        id_violation(ids, what) == id_violation(ids.take(i), what),
    decreases ids.len() - i,
{
    if i < ids.len() {
        assert(ids.take(i + 1).drop_last() =~= ids.take(i));
        lemma_id_violation_sticks(ids, what, i + 1);
    } else {
        assert(ids.take(i) =~= ids);
    }
}

/// Reads stored ids of `what` (`artifact`, `model asset`) in order,
/// refusing the first that is no UUID.
pub fn parse_ids(ids: &Vec<String>, what: &str) -> (r: Result<Vec<u128>, IntegrityError>)
    ensures
        match r {
            Ok(v) => id_violation(texts(ids@), what@) is None && v@.len() == ids@.len() && forall|k: int|
                0 <= k < v@.len() ==> uuid_reading(#[trigger] ids@[k]@) == Ok::<u128, Seq<char>>(v@[k]),
            Err(e) => id_violation(texts(ids@), what@) == Some(e.0@),
        },
{
    let ghost t = texts(ids@);
    let mut v: Vec<u128> = Vec::new();
    let mut i: usize = 0;
    while i < ids.len()
        invariant
            t == texts(ids@),
            i <= ids.len(),
            v@.len() == i,
            id_violation(t.take(i as int), what@) is None,
            forall|k: int| 0 <= k < i ==> uuid_reading(#[trigger] ids@[k]@) == Ok::<u128, Seq<char>>(v@[k]),
        decreases ids.len() - i,
    {
        assert(t.take(i + 1).drop_last() =~= t.take(i as int));
        assert(t.take(i + 1).last() == ids@[i as int]@);
        match uuid_from_text(ids[i].as_str()) {
            Ok(id) => {
                v.push(id);
            },
            Err(e) => {
                let mut m = String::from_str("invalid stored ");
                m.append(what);
                m.append(" id: ");
                m.append(e.as_str());
                proof {
                    lemma_id_violation_sticks(t, what@, i + 1);
                }
                return Err(IntegrityError(m));
            },
        }
        i = i + 1;
    }
    assert(t.take(t.len() as int) =~= t);
    Ok(v)
}

/// The path of a content-addressed file relative to its root:
/// `sha256/<prefix directory>/<file name>`.
pub fn content_relative_path(prefix: &str, file_name: &str) -> (p: String)
    ensures
        p@ == "sha256/"@ + prefix@ + "/"@ + file_name@,
{
    let mut p = String::from_str("sha256/");
    p.append(prefix);
    p.append("/");
    p.append(file_name);
    p
}

/// `s` with every `\` turned into `/`.
pub open spec fn slashed(s: Seq<char>) -> Seq<char> {
    s.map_values(|c: char| if c == '\\' { '/' } else { c })
}

fn to_slashes(s: &str) -> (r: String)
    ensures
        r@ == slashed(s@),
{
    let cs = chars_of(s);
    let mut r = String::new();
    let mut i: usize = 0;
    while i < cs.len()
        invariant
            cs@ == s@,
            i <= cs.len(),
            r@ == slashed(s@).take(i as int),
        decreases cs.len() - i,
    {
        push_char(&mut r, if cs[i] == '\\' { '/' } else { cs[i] });
        assert(r@ =~= slashed(s@).take(i + 1));
        i = i + 1;
    }
    assert(r@ =~= slashed(s@));
    r
}

/// Whether no record names a file.
pub open spec fn unrecorded(rec: Seq<Seq<char>>) -> spec_fn(Seq<char>) -> bool {
    |p: Seq<char>| !rec.contains(slashed(p))
}

/// The files on disk that no record names, in the order found; a file's
/// path is compared with `/` separators.
pub fn orphaned_files(on_disk: Vec<String>, recorded: &Vec<String>) -> (r: Vec<String>)
    ensures
        texts(r@) == texts(on_disk@).filter(unrecorded(texts(recorded@))),
{
    let ghost all = texts(on_disk@);
    let ghost rec = texts(recorded@);
    let mut out: Vec<String> = Vec::new();
    let mut i: usize = 0;
    while i < on_disk.len()
        invariant
            all == texts(on_disk@),
            rec == texts(recorded@),
            i <= on_disk.len(),
            texts(out@) == all.take(i as int).filter(unrecorded(rec)),
        decreases on_disk.len() - i,
    {
        let key = to_slashes(on_disk[i].as_str());
        let mut found = false;
        let mut j: usize = 0;
        while j < recorded.len()
            invariant
                rec == texts(recorded@),
                j <= recorded.len(),
                found == exists|k: int| 0 <= k < j && rec[k] == key@,
            decreases recorded.len() - j,
        {
            assert(rec[j as int] == recorded@[j as int]@);
            if str_eq(recorded[j].as_str(), key.as_str()) {
                found = true;
            }
            j = j + 1;
        }
        proof {
            assert(found == rec.contains(key@));
            assert(key@ == slashed(all[i as int]));
            assert(unrecorded(rec)(all[i as int]) == !found);
            assert(all.take(i + 1).drop_last() =~= all.take(i as int));
            assert(all.take(i + 1).last() == on_disk@[i as int]@);
        }
        let ghost before = texts(out@);
        if !found {
            out.push(on_disk[i].clone());
            assert(texts(out@) =~= before.push(on_disk@[i as int]@));
        }
        assert(texts(out@) == all.take(i + 1).filter(unrecorded(rec))) by {
            let f = unrecorded(rec);
            let a1 = all.take(i + 1);
            assert(a1 =~= all.take(i as int).push(all[i as int]));
            all.take(i as int).lemma_filter_push(all[i as int], f);
            if found {
                assert(!f(a1.last()));
                assert(texts(out@) == before);
            } else {
                assert(f(a1.last()));
            }
        }
        i = i + 1;
    }
    assert(all.take(all.len() as int) =~= all);
    out
}

} // verus!
