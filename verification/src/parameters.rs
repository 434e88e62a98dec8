//! The input parameters of an imported run: the keys the importer records
//! beside the manifest's own `input_parameters`, each with its JSON text.

use vstd::prelude::*;
use crate::json::{json_reading, json_strings_text, read_json, write_string_array};
use crate::runs::opt_str_view;
use crate::text::{chars_of, has_prefix, int_text, nat_text, push_char, push_decimal, push_signed, starts_with, string_of_chars};

verus! {

broadcast use vstd::string::group_string_axioms;

/// The JSON text `serde_json` writes for the string `s`.
pub uninterp spec fn json_string_text(s: Seq<char>) -> Seq<char>;

/// `serde_json::to_string` of a string. Writing a string goes into an
/// in-memory buffer, which does not fail (serde_json ser.rs: `to_vec`,
/// `serialize_str`), so the empty fallback is never taken.
#[verifier::external_body]
fn quote_json(s: &str) -> (t: String)
    ensures
        t@ == json_string_text(s@),
{
    serde_json::to_string(s).unwrap_or_default()
}

/// The values an imported run's parameters are made of, from the manifest
/// and the log record. JSON values are given as their JSON text.
#[derive(Debug)]
pub struct ParameterSources {
    /// The manifest's extra host fields: each key with its value's JSON text.
    pub host_extra: Vec<(String, String)>,
    pub benchmark: String,
    pub tag: String,
    /// The JSON text of the model's export description.
    pub model_export: String,
    pub manifest_name: String,
    pub log_name: String,
    pub log_sha256: String,
    pub line_number: usize,
    pub rep: i64,
    pub executable_path: String,
    pub executable_note: Option<String>,
    pub git_modified_files: Vec<String>,
    pub git_notes: Option<String>,
    pub vulkan_api_version: Option<String>,
    pub tokenizer_sha256: Option<String>,
    pub stdout_capture: Option<String>,
    pub notes: Option<String>,
}

/// The views of a list of key and text pairs.
pub open spec fn pair_views(v: Seq<(String, String)>) -> Seq<(Seq<char>, Seq<char>)> {
    v.map_values(|e: (String, String)| (e.0@, e.1@))
}

/// One object member: the key's JSON text, a colon, the value's text.
pub open spec fn member_text(m: (Seq<char>, Seq<char>)) -> Seq<char> {
    json_string_text(m.0) + seq![':'] + m.1
}

/// The members, separated by commas.
pub open spec fn members_text(m: Seq<(Seq<char>, Seq<char>)>) -> Seq<char>
    decreases m.len(),
{
    if m.len() == 0 {
        Seq::empty()
    } else if m.len() == 1 {
        member_text(m[0])
    } else {
        members_text(m.drop_last()) + seq![','] + member_text(m.last())
    }
}

/// The JSON text of an object with these members, in this order.
pub open spec fn object_text(m: Seq<(Seq<char>, Seq<char>)>) -> Seq<char> {
    seq!['{'] + members_text(m) + seq!['}']
}

/// The JSON text of an optional string: `null` when absent.
pub open spec fn opt_string_text(o: Option<String>) -> Seq<char> {
    match o {
        Some(s) => json_string_text(s@),
        None => "null"@,
    }
}

/// A `key` entry for an optional string, none when it is absent.
pub open spec fn optional_entry(key: Seq<char>, o: Option<String>) -> Seq<(Seq<char>, Seq<char>)> {
    match o {
        Some(s) => seq![(key, json_string_text(s@))],
        None => Seq::empty(),
    }
}

/// The note recorded for a repetition whose start had to be estimated.
pub open spec fn estimated_note() -> Seq<char> {
    "no timestamp was captured for this failed repetition; started_at is the end of the last observed repetition before it"@
}

/// Where the import read the run from: manifest, log, its digest, the
/// marker's line, the tag and the repetition.
pub open spec fn import_members(p: ParameterSources) -> Seq<(Seq<char>, Seq<char>)> {
    seq![
        ("line"@, nat_text(p.line_number as nat)),
        ("log"@, json_string_text(p.log_name@)),
        ("log_sha256"@, json_string_text(p.log_sha256@)),
        ("manifest"@, json_string_text(p.manifest_name@)),
        ("rep"@, int_text(p.rep as int)),
        ("tag"@, json_string_text(p.tag@)),
    ]
}

/// The executable's path and note.
pub open spec fn executable_members(p: ParameterSources) -> Seq<(Seq<char>, Seq<char>)> {
    seq![("note"@, opt_string_text(p.executable_note)), ("path"@, json_string_text(p.executable_path@))]
}

/// The entries an imported run records, in order, given the observer
/// line's JSON text, the modified files' JSON text and whether the start
/// was estimated: `host` only when there are extra host fields; then
/// `benchmark`, `tag`, `model_export`, `observer`, `import`, `executable`
/// and `git_modified_files`; then each optional note present; then
/// `started_at_estimated` when the start was estimated.
pub open spec fn parameter_entries(
    p: ParameterSources,
    observer: Seq<char>,
    files: Seq<char>,
    estimated: bool,
) -> Seq<(Seq<char>, Seq<char>)> {
    (if p.host_extra@.len() > 0 {
        seq![("host"@, object_text(pair_views(p.host_extra@)))]
    } else {
        Seq::empty()
    }) + seq![
        ("benchmark"@, json_string_text(p.benchmark@)),
        ("tag"@, json_string_text(p.tag@)),
        ("model_export"@, p.model_export@),
        ("observer"@, observer),
        ("import"@, object_text(import_members(p))),
        ("executable"@, object_text(executable_members(p))),
        ("git_modified_files"@, files),
    ] + optional_entry("git_notes"@, p.git_notes) + optional_entry(
        "vulkan_api_version"@,
        p.vulkan_api_version,
    ) + optional_entry("tokenizer_sha256"@, p.tokenizer_sha256) + optional_entry(
        "stdout_capture"@,
        p.stdout_capture,
    ) + optional_entry("notes"@, p.notes) + (if estimated {
        seq![("started_at_estimated"@, json_string_text(estimated_note()))]
    } else {
        Seq::empty()
    })
}

/// The JSON text of an object with these members, in this order.
fn write_object(members: &Vec<(String, String)>) -> (t: String)
    ensures
        t@ == object_text(pair_views(members@)),
{
    let ghost m = pair_views(members@);
    let mut t = String::new();
    push_char(&mut t, '{');
    let mut i: usize = 0;
    while i < members.len()
        invariant
            m == pair_views(members@),
            i <= members.len(),
            t@ == seq!['{'] + members_text(m.take(i as int)),
        decreases members.len() - i,
    {
        let ghost before = t@;
        if i > 0 {
            push_char(&mut t, ',');
        }
        let key = quote_json(members[i].0.as_str());
        t.append(key.as_str());
        push_char(&mut t, ':');
        t.append(members[i].1.as_str());
        proof {
            let mi = m.take(i + 1);
            assert(mi.drop_last() =~= m.take(i as int));
            assert(mi.last() == m[i as int]);
            assert(m[i as int] == (members@[i as int].0@, members@[i as int].1@));
            if i == 0 {
                assert(m.take(0) =~= Seq::<(Seq<char>, Seq<char>)>::empty());
                assert(members_text(mi) == member_text(mi[0]));
            }
            assert(t@ =~= seq!['{'] + members_text(mi));
        }
        i = i + 1;
    }
    push_char(&mut t, '}');
    assert(m.take(m.len() as int) =~= m);
    t
}

fn text_pair(key: &str, value: String) -> (e: (String, String))
    ensures
        e.0@ == key@,
        e.1@ == value@,
{
    (String::from_str(key), value)
}

/// Pushes a `key` entry for an optional string when it is present.
fn push_optional(v: &mut Vec<(String, String)>, key: &str, o: &Option<String>)
    ensures
        pair_views(final(v)@) == pair_views(old(v)@) + optional_entry(key@, *o),
{
    let ghost before = pair_views(v@);
    match o {
        Some(s) => {
            let q = quote_json(s.as_str());
            v.push(text_pair(key, q));
        },
        None => {},
    }
    assert(pair_views(v@) =~= before + optional_entry(key@, *o));
}

/// The JSON text of an observer line for the run's parameters: `null` when
/// the repetition printed none; otherwise the line after its
/// `PyTorchObserver ` prefix, read as JSON and written back, or the
/// reader's refusal.
pub open spec fn observer_text(line: Option<Seq<char>>) -> Result<Seq<char>, Seq<char>> {
    match line {
        None => Ok("null"@),
        Some(l) => {
            let body = if has_prefix(l, "PyTorchObserver "@) {
                l.skip(16)
            } else {
                l
            };
            match json_reading(body) {
                Ok((_, t)) => Ok(t),
                Err((_, e)) => Err("observer JSON: "@ + e),
            }
        },
    }
}

/// The `observer` parameter of a repetition's run, from its observer line.
pub fn observer_parameter(line: Option<&str>) -> (r: Result<String, String>)
    ensures
        match r {
            Ok(t) => observer_text(opt_str_view(line)) == Ok::<Seq<char>, Seq<char>>(t@),
            Err(e) => observer_text(opt_str_view(line)) == Err::<Seq<char>, Seq<char>>(e@),
        },
{
    proof {
        reveal_strlit("null");
        reveal_strlit("PyTorchObserver ");
        reveal_strlit("observer JSON: ");
    }
    match line {
        None => Ok(String::from_str("null")),
        Some(l) => {
            let cs = chars_of(l);
            let prefix = chars_of("PyTorchObserver ");
            let body = if starts_with(&cs, &prefix) {
                string_of_chars(&cs, 16, cs.len())
            } else {
                String::from_str(l)
            };
            proof {
                if has_prefix(l@, "PyTorchObserver "@) {
                    assert(body@ =~= l@.skip(16));
                }
            }
            match read_json(body.as_str()) {
                Ok((_, t)) => Ok(t),
                Err((_, e)) => {
                    let mut m = String::from_str("observer JSON: ");
                    m.append(e.as_str());
                    Err(m)
                },
            }
        },
    }
}

/// The entries an imported run records beside the manifest's own input
/// parameters, each key with its value's JSON text, in the order they are
/// set; refused only when the modified files cannot be written as JSON.
pub fn parameter_list(p: &ParameterSources, observer: String, estimated: bool) -> (r: Result<
    Vec<(String, String)>,
    String,
>)
    ensures
        match r {
            Ok(v) => json_strings_text(p.git_modified_files.deep_view()) matches Ok(files) && pair_views(v@)
                == parameter_entries(*p, observer@, files, estimated),
            Err(e) => json_strings_text(p.git_modified_files.deep_view()) == Err::<Seq<char>, Seq<char>>(e@),
        },
{
    let files = match write_string_array(&p.git_modified_files) {
        Ok(t) => t,
        Err(e) => return Err(e),
    };
    let mut v: Vec<(String, String)> = Vec::new();
    if p.host_extra.len() > 0 {
        let host = write_object(&p.host_extra);
        v.push(text_pair("host", host));
    }
    let ghost head = pair_views(v@);
    assert(head =~= (if p.host_extra@.len() > 0 {
        seq![("host"@, object_text(pair_views(p.host_extra@)))]
    } else {
        Seq::empty()
    }));
    let ghost obs = observer@;
    v.push(text_pair("benchmark", quote_json(p.benchmark.as_str())));
    v.push(text_pair("tag", quote_json(p.tag.as_str())));
    v.push(text_pair("model_export", p.model_export.clone()));
    v.push(text_pair("observer", observer));

    let mut line = String::new();
    push_decimal(&mut line, p.line_number as u64);
    let mut rep = String::new();
    push_signed(&mut rep, p.rep);
    let mut import: Vec<(String, String)> = Vec::new();
    import.push(text_pair("line", line));
    import.push(text_pair("log", quote_json(p.log_name.as_str())));
    import.push(text_pair("log_sha256", quote_json(p.log_sha256.as_str())));
    import.push(text_pair("manifest", quote_json(p.manifest_name.as_str())));
    import.push(text_pair("rep", rep));
    import.push(text_pair("tag", quote_json(p.tag.as_str())));
    assert(pair_views(import@) =~= import_members(*p));
    v.push(text_pair("import", write_object(&import)));

    let note = match &p.executable_note {
        Some(n) => quote_json(n.as_str()),
        None => String::from_str("null"),
    };
    proof {
        reveal_strlit("null");
    }
    let mut executable: Vec<(String, String)> = Vec::new();
    executable.push(text_pair("note", note));
    executable.push(text_pair("path", quote_json(p.executable_path.as_str())));
    assert(pair_views(executable@) =~= executable_members(*p));
    v.push(text_pair("executable", write_object(&executable)));
    v.push(text_pair("git_modified_files", files));
    let ghost fixed = pair_views(v@);
    assert(fixed =~= head + seq![
        ("benchmark"@, json_string_text(p.benchmark@)),
        ("tag"@, json_string_text(p.tag@)),
        ("model_export"@, p.model_export@),
        ("observer"@, obs),
        ("import"@, object_text(import_members(*p))),
        ("executable"@, object_text(executable_members(*p))),
        ("git_modified_files"@, files@),
    ]);

    push_optional(&mut v, "git_notes", &p.git_notes);
    push_optional(&mut v, "vulkan_api_version", &p.vulkan_api_version);
    push_optional(&mut v, "tokenizer_sha256", &p.tokenizer_sha256);
    push_optional(&mut v, "stdout_capture", &p.stdout_capture);
    push_optional(&mut v, "notes", &p.notes);
    let ghost optional = pair_views(v@);
    assert(optional =~= fixed + optional_entry("git_notes"@, p.git_notes) + optional_entry(
        "vulkan_api_version"@,
        p.vulkan_api_version,
    ) + optional_entry("tokenizer_sha256"@, p.tokenizer_sha256) + optional_entry(
        "stdout_capture"@,
        p.stdout_capture,
    ) + optional_entry("notes"@, p.notes));
    if estimated {
        let note = String::from_str(
            "no timestamp was captured for this failed repetition; started_at is the end of the last observed repetition before it",
        );
        v.push(text_pair("started_at_estimated", quote_json(note.as_str())));
        assert(pair_views(v@) =~= optional + seq![("started_at_estimated"@, json_string_text(estimated_note()))]);
    } else {
        assert(pair_views(v@) =~= optional + Seq::<(Seq<char>, Seq<char>)>::empty());
    }
    assert(pair_views(v@) =~= parameter_entries(*p, obs, files@, estimated));
    Ok(v)
}

} // verus!
