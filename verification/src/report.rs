//! What the command-line reports decide: which files are source code and
//! which are noise, how long paths are shortened, how confidences and risks
//! are labelled, which call edges make a coupling static, the rows of the
//! combined risk table, and which pairs a scan shows.

use vstd::prelude::*;

use crate::analyzer::{edge_views, risk_at, string_views, CallEdge, CallEdgeView, RiskLevel};
use crate::analyzer::languages::str_views;
use crate::db::queries::{
    coupled_file_views, coupled_function_views, coupled_pair_views, CoupledFile, CoupledFunction,
    CoupledPair,
};
use crate::db::pairs::{top_by_co_changes, top_pairs_by_co_changes};
use crate::ratio::{ratio_ge, Ratio};
use crate::text::{
    after_last_char, after_last_char_exec, chars_in_list, chars_of, contains_char,
    has_prefix, push_str, starts_with_str, str_eq, string_from_str, string_of, to_lowercase,
    lowered,
};
use vstd::string::StringSliceAdditionalSpecFns;
use vstd::utf8::{decode_utf8, is_char_boundary};

verus! {

broadcast use vstd::string::group_string_axioms;

// ─── Source and noise files ──────────────────────────────────────────────────

/// Extensions of source files.
pub open spec fn source_extensions() -> Seq<Seq<char>> {
    seq![
        "rs"@, "js"@, "ts"@, "tsx"@, "py"@, "go"@, "java"@, "c"@, "h"@,
        "cpp"@, "hpp"@, "cc"@, "cxx"@, "jsx"@, "mjs"@, "cjs"@, "pyw"@, "pyi"@,
    ]
}

fn source_extension_list() -> (r: Vec<&'static str>)
    ensures
        str_views(r@) == source_extensions(),
{
    let r = vec![
        "rs", "js", "ts", "tsx", "py", "go", "java", "c", "h",
        "cpp", "hpp", "cc", "cxx", "jsx", "mjs", "cjs", "pyw", "pyi",
    ];
    assert(str_views(r@) =~= source_extensions());
    r
}

/// A source file: the lower-cased text after its last `.` (the whole path
/// when it has none) is a source extension.
pub open spec fn is_source_path(p: Seq<char>) -> bool {
    source_extensions().contains(lowered(after_last_char(p, '.')))
}

/// Whether `v` is one of the strings of `list`, as a sequence membership.
fn in_list(v: &Vec<char>, list: &Vec<&str>) -> (r: bool)
    ensures
        r == str_views(list@).contains(v@),
{
    let r = chars_in_list(v, list);
    proof {
        if r {
            let i = choose|i: int| 0 <= i < list@.len() && #[trigger] list@[i]@ == v@;
            assert(str_views(list@)[i] == v@);
        }
        if str_views(list@).contains(v@) {
            let i = choose|i: int| 0 <= i < str_views(list@).len() && str_views(list@)[i] == v@;
            assert(list@[i]@ == v@);
        }
    }
    r
}

/// Whether a lower-cased extension is that of a source file.
pub fn is_source_extension(ext: &str) -> (r: bool)
    ensures
        r == source_extensions().contains(ext@),
{
    in_list(&chars_of(ext), &source_extension_list())
}

/// Whether a path is a source file (see `is_source_path`).
pub fn is_source_file(file_path: &str) -> (r: bool)
    ensures
        r == is_source_path(file_path@),
{
    let path = chars_of(file_path);
    let tail = after_last_char_exec(&path, '.');
    let lowered = to_lowercase(string_of(&tail).as_str());
    is_source_extension(lowered.as_str())
}

/// File names of changelogs, licences, manifests and lockfiles.
pub open spec fn noise_filenames() -> Seq<Seq<char>> {
    seq![
        "CHANGES.rst"@, "CHANGES.md"@, "CHANGES.txt"@, "CHANGES"@,
        "CHANGELOG.rst"@, "CHANGELOG.md"@, "CHANGELOG.txt"@, "CHANGELOG"@,
        "HISTORY.rst"@, "HISTORY.md"@, "HISTORY.txt"@, "HISTORY"@,
        "NEWS.rst"@, "NEWS.md"@, "NEWS.txt"@, "NEWS"@,
        "AUTHORS"@, "CONTRIBUTORS"@,
        "LICENSE"@, "LICENSE.txt"@, "LICENSE.rst"@, "LICENSE.md"@,
        "COPYING"@, "NOTICE"@,
        "package.json"@, "package-lock.json"@, "yarn.lock"@, "pnpm-lock.yaml"@,
        "Cargo.toml"@, "Cargo.lock"@, "go.mod"@, "go.sum"@,
        "Gemfile"@, "Gemfile.lock"@,
        "requirements.txt"@, "setup.py"@, "setup.cfg"@, "pyproject.toml"@,
    ]
}

fn noise_filename_list() -> (r: Vec<&'static str>)
    ensures
        str_views(r@) == noise_filenames(),
{
    let r = vec![
        "CHANGES.rst", "CHANGES.md", "CHANGES.txt", "CHANGES",
        "CHANGELOG.rst", "CHANGELOG.md", "CHANGELOG.txt", "CHANGELOG",
        "HISTORY.rst", "HISTORY.md", "HISTORY.txt", "HISTORY",
        "NEWS.rst", "NEWS.md", "NEWS.txt", "NEWS",
        "AUTHORS", "CONTRIBUTORS",
        "LICENSE", "LICENSE.txt", "LICENSE.rst", "LICENSE.md",
        "COPYING", "NOTICE",
        "package.json", "package-lock.json", "yarn.lock", "pnpm-lock.yaml",
        "Cargo.toml", "Cargo.lock", "go.mod", "go.sum",
        "Gemfile", "Gemfile.lock",
        "requirements.txt", "setup.py", "setup.cfg", "pyproject.toml",
    ];
    assert(str_views(r@) =~= noise_filenames());
    r
}

/// Extensions of configuration, documentation, data and lock files.
pub open spec fn noise_extensions() -> Seq<Seq<char>> {
    seq!["yml"@, "yaml"@, "toml"@, "ini"@, "cfg"@, "rst"@, "md"@, "txt"@, "json"@, "lock"@, "xml"@]
}

fn noise_extension_list() -> (r: Vec<&'static str>)
    ensures
        str_views(r@) == noise_extensions(),
{
    let r = vec!["yml", "yaml", "toml", "ini", "cfg", "rst", "md", "txt", "json", "lock", "xml"];
    assert(str_views(r@) =~= noise_extensions());
    r
}

/// Directories of CI configuration, documentation and examples.
pub open spec fn noise_dirs() -> Seq<Seq<char>> {
    seq![
        ".github/"@, ".gitlab/"@, "docs/"@, "doc/"@, ".ci/"@, "api/next/"@, "doc/next/"@,
        "examples/"@,
    ]
}

fn noise_dir_list() -> (r: Vec<&'static str>)
    ensures
        str_views(r@) == noise_dirs(),
{
    let r = vec![
        ".github/", ".gitlab/", "docs/", "doc/", ".ci/", "api/next/", "doc/next/", "examples/",
    ];
    assert(str_views(r@) =~= noise_dirs());
    r
}

/// A noise file, which changes with everything: its base name (the text
/// after the last `/`) is a noise file name, ignoring case; or its
/// extension is a noise extension, ignoring case; or it lies in a noise
/// directory; or it is a dot-file at the top level.
pub open spec fn is_noise_path(p: Seq<char>) -> bool {
    let base = after_last_char(p, '/');
    ||| exists|i: int|
        0 <= i < noise_filenames().len() && lowered(base) == lowered(
            #[trigger] noise_filenames()[i],
        )
    ||| noise_extensions().contains(lowered(after_last_char(base, '.')))
    ||| exists|i: int| 0 <= i < noise_dirs().len() && has_prefix(p, #[trigger] noise_dirs()[i])
    ||| base.len() > 0 && base[0] == '.' && !p.contains('/')
}

/// The noise file names, each lower-cased.
pub open spec fn lowered_noise_names() -> Seq<Seq<char>> {
    noise_filenames().map_values(|n: Seq<char>| lowered(n))
}

/// A noise file, given its lower-cased base name, the lower-cased noise file
/// names and its lower-cased extension: the base name is one of those names,
/// or the extension a noise extension, or the path lies in a noise
/// directory, or it is a dot-file at the top level.
pub open spec fn noise_by_parts(
    p: Seq<char>,
    base_lower: Seq<char>,
    names_lower: Seq<Seq<char>>,
    ext_lower: Seq<char>,
) -> bool {
    let base = after_last_char(p, '/');
    ||| names_lower.contains(base_lower)
    ||| noise_extensions().contains(ext_lower)
    ||| exists|i: int| 0 <= i < noise_dirs().len() && has_prefix(p, #[trigger] noise_dirs()[i])
    ||| base.len() > 0 && base[0] == '.' && !p.contains('/')
}

/// Whether a path is a noise file, given its lower-cased base name, the
/// lower-cased noise file names and its lower-cased extension.
pub fn is_noise_by_parts(
    file_path: &str,
    base_lower: &str,
    names_lower: &Vec<String>,
    ext_lower: &str,
) -> (r: bool)
    ensures
        r == noise_by_parts(file_path@, base_lower@, string_views(names_lower@), ext_lower@),
{
    let mut named = false;
    let mut i: usize = 0;
    while i < names_lower.len()
        invariant
            0 <= i <= names_lower@.len(),
            named == exists|j: int| 0 <= j < i && string_views(names_lower@)[j] == base_lower@,
        decreases names_lower.len() - i,
    {
        assert(string_views(names_lower@)[i as int] == names_lower@[i as int]@);
        if str_eq(names_lower[i].as_str(), base_lower) {
            named = true;
        }
        i += 1;
    }
    if named {
        return true;
    }
    if in_list(&chars_of(ext_lower), &noise_extension_list()) {
        return true;
    }
    let path = chars_of(file_path);
    let dirs = noise_dir_list();
    let mut k: usize = 0;
    while k < dirs.len()
        invariant
            0 <= k <= dirs@.len(),
            path@ == file_path@,
            str_views(dirs@) == noise_dirs(),
            forall|j: int| 0 <= j < k ==> !has_prefix(path@, #[trigger] noise_dirs()[j]),
        decreases dirs.len() - k,
    {
        assert(noise_dirs()[k as int] == dirs@[k as int]@);
        if starts_with_str(&path, dirs[k]) {
            return true;
        }
        k += 1;
    }
    let base = after_last_char_exec(&path, '/');
    base.len() > 0 && base[0] == '.' && !contains_char(&path, '/')
}

/// Whether a path is a noise file (see `is_noise_path`).
pub fn is_noise_file(file_path: &str) -> (r: bool)
    ensures
        r == is_noise_path(file_path@),
{
    let path = chars_of(file_path);
    let base = after_last_char_exec(&path, '/');
    let base_lower = to_lowercase(string_of(&base).as_str());
    let names = noise_filename_list();
    let mut names_lower: Vec<String> = Vec::new();
    let mut i: usize = 0;
    while i < names.len()
        invariant
            0 <= i <= names@.len(),
            str_views(names@) == noise_filenames(),
            string_views(names_lower@) == lowered_noise_names().take(i as int),
        decreases names.len() - i,
    {
        assert(noise_filenames()[i as int] == names@[i as int]@);
        let ghost before = string_views(names_lower@);
        let name_lower = to_lowercase(names[i]);
        assert(lowered_noise_names()[i as int] == lowered(noise_filenames()[i as int]));
        names_lower.push(name_lower);
        assert(string_views(names_lower@) =~= before.push(name_lower@));
        assert(string_views(names_lower@) =~= lowered_noise_names().take(i + 1));
        i += 1;
    }
    let tail = after_last_char_exec(&base, '.');
    let ext_lower = to_lowercase(string_of(&tail).as_str());
    let r = is_noise_by_parts(file_path, base_lower.as_str(), &names_lower, ext_lower.as_str());
    proof {
        let p = file_path@;
        let b = after_last_char(p, '/');
        let names_v = lowered_noise_names();
        assert(names_v.take(names_v.len() as int) =~= names_v);
        assert(names_v.contains(lowered(b)) <==> exists|j: int|
            0 <= j < noise_filenames().len() && lowered(b) == lowered(
                #[trigger] noise_filenames()[j],
            )) by {
            if names_v.contains(lowered(b)) {
                let j = choose|j: int| 0 <= j < names_v.len() && names_v[j] == lowered(b);
                assert(lowered(b) == lowered(noise_filenames()[j]));
            }
            if exists|j: int|
                0 <= j < noise_filenames().len() && lowered(b) == lowered(
                    #[trigger] noise_filenames()[j],
                ) {
                let j = choose|j: int|
                    0 <= j < noise_filenames().len() && lowered(b) == lowered(
                        #[trigger] noise_filenames()[j],
                    );
                assert(names_v[j] == lowered(b));
            }
        }
    }
    r
}

/// The results whose file is not noise, in order.
pub open spec fn without_noise(v: Seq<(Seq<char>, usize, Ratio)>) -> Seq<(Seq<char>, usize, Ratio)>
    decreases v.len(),
{
    if v.len() == 0 {
        seq![]
    } else if is_noise_path(v.last().0) {
        without_noise(v.drop_last())
    } else {
        without_noise(v.drop_last()).push(v.last())
    }
}

/// Drops the coupled files that are noise.
pub fn filter_noise(results: Vec<CoupledFile>) -> (r: Vec<CoupledFile>)
    ensures
        coupled_file_views(r@) == without_noise(coupled_file_views(results@)),
{
    let mut kept: Vec<CoupledFile> = Vec::new();
    let ghost all = coupled_file_views(results@);
    let mut i: usize = 0;
    while i < results.len()
        invariant
            0 <= i <= results@.len(),
            all == coupled_file_views(results@),
            coupled_file_views(kept@) == without_noise(all.take(i as int)),
        decreases results.len() - i,
    {
        assert(all.take(i + 1).drop_last() =~= all.take(i as int));
        assert(all.take(i + 1).last() == all[i as int]);
        if !is_noise_file(results[i].file_path.as_str()) {
            let ghost before = coupled_file_views(kept@);
            kept.push(results[i].duplicate());
            assert(coupled_file_views(kept@) =~= before.push(all[i as int]));
        }
        i += 1;
    }
    assert(all.take(all.len() as int) =~= all);
    kept
}

// ─── Shortening ──────────────────────────────────────────────────────────────

/// The bytes of a string slice.
pub open spec fn bytes_of(s: &str) -> Seq<u8> {
    s.spec_bytes()
}

/// Shortens a path to `max_len` bytes, keeping its end behind `...`.
/// Where the path is longer, the cut must fall on a character boundary and
/// leave room for the dots.
pub fn truncate_path(path: &str, max_len: usize) -> (r: String)
    requires
        bytes_of(path).len() <= usize::MAX,
        bytes_of(path).len() > max_len ==> max_len >= 3 && is_char_boundary(
            bytes_of(path),
            bytes_of(path).len() - max_len + 3,
        ),
    ensures
        bytes_of(path).len() <= max_len ==> r@ == path@,
        bytes_of(path).len() > max_len ==> r@ == "..."@ + decode_utf8(
            bytes_of(path).subrange(bytes_of(path).len() - max_len + 3, bytes_of(path).len() as int),
        ),
{
    let n = path.len();
    if n <= max_len {
        string_from_str(path)
    } else {
        let start = n - max_len + 3;
        let (_, tail) = path.split_at(start);
        proof {
            vstd::utf8::encode_utf8_decode_utf8(tail@);
        }
        let mut r = string_from_str("...");
        push_str(&mut r, tail);
        r
    }
}

/// Shortens a string to `max_len` bytes: its end behind `...` where
/// `max_len` leaves room for more than the dots, else its first `max_len`
/// characters. Where the end is kept, the cut must fall on a character
/// boundary.
pub fn truncate_str(s: &str, max_len: usize) -> (r: String)
    requires
        bytes_of(s).len() <= usize::MAX,
        bytes_of(s).len() > max_len && max_len > 3 ==> is_char_boundary(
            bytes_of(s),
            bytes_of(s).len() - max_len + 3,
        ),
    ensures
        bytes_of(s).len() <= max_len ==> r@ == s@,
        bytes_of(s).len() > max_len && max_len > 3 ==> r@ == "..."@ + decode_utf8(
            bytes_of(s).subrange(bytes_of(s).len() - max_len + 3, bytes_of(s).len() as int),
        ),
        bytes_of(s).len() > max_len && max_len <= 3 ==> r@ == (if s@.len() <= max_len {
            s@
        } else {
            s@.take(max_len as int)
        }),
{
    let n = s.len();
    if n <= max_len {
        string_from_str(s)
    } else if max_len > 3 {
        truncate_path(s, max_len)
    } else {
        let chars = chars_of(s);
        let k = if chars.len() <= max_len { chars.len() } else { max_len };
        let r = crate::text::string_of_range(&chars, 0, k);
        proof {
            if chars@.len() <= max_len {
                assert(chars@.subrange(0, k as int) =~= chars@);
            } else {
                assert(chars@.subrange(0, k as int) =~= chars@.take(max_len as int));
            }
        }
        r
    }
}

// ─── Labels ──────────────────────────────────────────────────────────────────

/// The short label of a risk level.
pub open spec fn risk_short_label(r: RiskLevel) -> Seq<char> {
    match r {
        RiskLevel::High => "HIGH"@,
        RiskLevel::Medium => "MED"@,
        RiskLevel::Low => "LOW"@,
    }
}

/// The short label of a risk level: `HIGH`, `MED` or `LOW`.
pub fn format_risk(risk: RiskLevel) -> (r: &'static str)
    ensures
        r@ == risk_short_label(risk),
{
    match risk {
        RiskLevel::High => "HIGH",
        RiskLevel::Medium => "MED",
        RiskLevel::Low => "LOW",
    }
}

/// The tier of a confidence: `HIGH` from 70%, `MEDIUM` from 50%, else
/// `LOW`, with its short display form.
pub open spec fn confidence_tier(c: Ratio) -> (Seq<char>, Seq<char>) {
    if ratio_ge(c, Ratio { num: 7, den: 10 }) {
        ("HIGH"@, "HIGH"@)
    } else if ratio_ge(c, Ratio { num: 5, den: 10 }) {
        ("MEDIUM"@, "MED"@)
    } else {
        ("LOW"@, "LOW"@)
    }
}

/// The tier of a confidence and its display form (see `confidence_tier`).
pub fn classify_display(confidence: Ratio) -> (r: (&'static str, &'static str))
    ensures
        (r.0@, r.1@) == confidence_tier(confidence),
{
    if confidence.at_least(&Ratio::new(7, 10)) {
        ("HIGH", "HIGH")
    } else if confidence.at_least(&Ratio::new(5, 10)) {
        ("MEDIUM", "MED")
    } else {
        ("LOW", "LOW")
    }
}

/// The marker of a function by how many commits changed it: `**` from 20,
/// `*` from 10, else a space.
pub open spec fn hot_marker_spec(commit_count: usize) -> Seq<char> {
    if commit_count >= 20 {
        "**"@
    } else if commit_count >= 10 {
        "*"@
    } else {
        " "@
    }
}

/// The marker of a function by how many commits changed it.
pub fn hot_marker(commit_count: usize) -> (r: &'static str)
    ensures
        r@ == hot_marker_spec(commit_count),
{
    if commit_count >= 20 {
        "**"
    } else if commit_count >= 10 {
        "*"
    } else {
        " "
    }
}

// ─── Static links ────────────────────────────────────────────────────────────

/// Some call goes from the target file into the coupled file, or from the
/// coupled file into the target file.
pub open spec fn files_linked(edges: Seq<CallEdgeView>, target: Seq<char>, coupled: Seq<char>) -> bool {
    exists|i: int|
        0 <= i < edges.len() && {
            let e = #[trigger] edges[i];
            (e.caller_file == target && e.callee_file == Some(coupled)) || (e.callee_file == Some(
                target,
            ) && e.caller_file == coupled)
        }
}

/// Whether a call links the target file and the coupled file (see
/// `files_linked`).
pub fn file_has_static_link(target: &str, coupled: &str, edges: &Vec<CallEdge>) -> (r: bool)
    ensures
        r == files_linked(edge_views(edges@), target@, coupled@),
{
    let t = string_from_str(target);
    let c = string_from_str(coupled);
    let mut i: usize = 0;
    while i < edges.len()
        invariant
            0 <= i <= edges@.len(),
            t@ == target@,
            c@ == coupled@,
            forall|j: int|
                0 <= j < i ==> !({
                    let e = #[trigger] edge_views(edges@)[j];
                    (e.caller_file == target@ && e.callee_file == Some(coupled@)) || (e.callee_file
                        == Some(target@) && e.caller_file == coupled@)
                }),
        decreases edges.len() - i,
    {
        let e = &edges[i];
        assert(edge_views(edges@)[i as int] == e@);
        let into = e.caller_file == t && match &e.callee_file {
            Some(f) => *f == c,
            None => false,
        };
        let from = e.caller_file == c && match &e.callee_file {
            Some(f) => *f == t,
            None => false,
        };
        if into || from {
            return true;
        }
        i += 1;
    }
    false
}

/// Some call goes from a function of `from` to a function of `to`.
pub open spec fn calls_into_spec(edges: Seq<CallEdgeView>, from: Seq<char>, to: Seq<char>) -> bool {
    exists|i: int|
        0 <= i < edges.len() && (#[trigger] edges[i]).caller_file == from && edges[i].callee_file
            == Some(to)
}

/// Whether some call goes from a function of `from` to a function of `to`
/// (see `calls_into_spec`).
pub fn calls_into(edges: &Vec<CallEdge>, from: &str, to: &str) -> (r: bool)
    ensures
        r == calls_into_spec(edge_views(edges@), from@, to@),
{
    let mut i: usize = 0;
    while i < edges.len()
        invariant
            0 <= i <= edges@.len(),
            forall|j: int|
                0 <= j < i ==> !((#[trigger] edge_views(edges@)[j]).caller_file == from@
                    && edge_views(edges@)[j].callee_file == Some(to@)),
        decreases edges.len() - i,
    {
        let e = &edges[i];
        assert(edge_views(edges@)[i as int] == e@);
        let hit = str_eq(e.caller_file.as_str(), from) && match &e.callee_file {
            Some(f) => str_eq(f.as_str(), to),
            None => false,
        };
        if hit {
            return true;
        }
        i += 1;
    }
    false
}

/// The calls between the selected file and a coupled file, either way,
/// as `(caller, callee)` names, in order.
pub open spec fn call_chain_spec(edges: Seq<CallEdgeView>, selected: Seq<char>, coupled: Seq<char>) -> Seq<
    (Seq<char>, Seq<char>),
>
    decreases edges.len(),
{
    if edges.len() == 0 {
        seq![]
    } else {
        let e = edges.last();
        let rest = call_chain_spec(edges.drop_last(), selected, coupled);
        if (e.caller_file == selected && e.callee_file == Some(coupled)) || (e.caller_file == coupled
            && e.callee_file == Some(selected)) {
            rest.push((e.caller_name, e.callee_name))
        } else {
            rest
        }
    }
}

/// The calls between the selected file and a coupled file (see
/// `call_chain_spec`).
pub fn call_chain(edges: &Vec<CallEdge>, selected: &str, coupled: &str) -> (r: Vec<(String, String)>)
    ensures
        r@.map_values(|p: (String, String)| (p.0@, p.1@)) == call_chain_spec(
            edge_views(edges@),
            selected@,
            coupled@,
        ),
{
    let s = string_from_str(selected);
    let c = string_from_str(coupled);
    let ghost all = edge_views(edges@);
    let mut out: Vec<(String, String)> = Vec::new();
    let mut i: usize = 0;
    while i < edges.len()
        invariant
            0 <= i <= edges@.len(),
            all == edge_views(edges@),
            s@ == selected@,
            c@ == coupled@,
            out@.map_values(|p: (String, String)| (p.0@, p.1@)) == call_chain_spec(
                all.take(i as int),
                selected@,
                coupled@,
            ),
        decreases edges.len() - i,
    {
        let e = &edges[i];
        assert(all.take(i + 1).drop_last() =~= all.take(i as int));
        assert(all.take(i + 1).last() == e@);
        let into = e.caller_file == s && match &e.callee_file {
            Some(f) => *f == c,
            None => false,
        };
        let back = e.caller_file == c && match &e.callee_file {
            Some(f) => *f == s,
            None => false,
        };
        if into || back {
            let ghost before = out@.map_values(|p: (String, String)| (p.0@, p.1@));
            out.push((e.caller_name.clone(), e.callee_name.clone()));
            assert(out@.map_values(|p: (String, String)| (p.0@, p.1@)) =~= before.push(
                (e.caller_name@, e.callee_name@),
            ));
        }
        i += 1;
    }
    assert(all.take(all.len() as int) =~= all);
    out
}

/// Some call's callee has the given name.
pub fn is_called(edges: &Vec<CallEdge>, name: &str) -> (r: bool)
    ensures
        r == exists|i: int| 0 <= i < edges@.len() && (#[trigger] edges@[i]).callee_name@ == name@,
{
    let n = string_from_str(name);
    let mut i: usize = 0;
    while i < edges.len()
        invariant
            0 <= i <= edges@.len(),
            n@ == name@,
            forall|j: int| 0 <= j < i ==> (#[trigger] edges@[j]).callee_name@ != name@,
        decreases edges.len() - i,
    {
        if edges[i].callee_name == n {
            return true;
        }
        i += 1;
    }
    false
}

// ─── The combined risk table ─────────────────────────────────────────────────

/// One row of the combined risk table.
#[derive(Debug, Clone)]
pub struct RiskRow {
    /// The coupled function, or `(file-level)`
    pub entity: String,
    pub file_path: String,
    pub confidence: Ratio,
    pub has_static: bool,
    pub co_commit_count: usize,
    pub risk: RiskLevel,
}

impl RiskRow {
    /// A copy of this row.
    pub fn duplicate(&self) -> (r: RiskRow)
        ensures
            r.entity@ == self.entity@,
            r.file_path@ == self.file_path@,
            r.confidence == self.confidence,
            r.has_static == self.has_static,
            r.co_commit_count == self.co_commit_count,
            r.risk == self.risk,
    {
        RiskRow {
            entity: self.entity.clone(),
            file_path: self.file_path.clone(),
            confidence: self.confidence,
            has_static: self.has_static,
            co_commit_count: self.co_commit_count,
            risk: self.risk,
        }
    }
}

/// The value of a risk row.
pub open spec fn risk_row_views(v: Seq<RiskRow>) -> Seq<(Seq<char>, Seq<char>, Ratio, bool, usize, RiskLevel)> {
    v.map_values(
        |x: RiskRow| (x.entity@, x.file_path@, x.confidence, x.has_static, x.co_commit_count, x.risk),
    )
}

/// Some call goes from the target function into the coupled file, or from
/// the coupled file to the target function.
pub open spec fn function_file_linked(edges: Seq<CallEdgeView>, target: Seq<char>, path: Seq<char>) -> bool {
    exists|i: int|
        0 <= i < edges.len() && {
            let e = #[trigger] edges[i];
            (e.caller_name == target && e.callee_file == Some(path)) || (e.callee_name == target
                && e.caller_file == path)
        }
}

/// The target function calls the named function directly, or the named
/// function calls it.
pub open spec fn function_named_linked(
    direct_calls: Seq<Seq<char>>,
    edges: Seq<CallEdgeView>,
    target: Seq<char>,
    name: Seq<char>,
) -> bool {
    direct_calls.contains(name) || exists|i: int|
        0 <= i < edges.len() && (#[trigger] edges[i]).callee_name == target && edges[i].caller_name
            == name
}

/// The file-level row for a coupled file.
pub open spec fn file_row(
    edges: Seq<CallEdgeView>,
    target: Seq<char>,
    f: (Seq<char>, usize, Ratio),
    threshold: Ratio,
) -> (Seq<char>, Seq<char>, Ratio, bool, usize, RiskLevel) {
    let linked = function_file_linked(edges, target, f.0);
    ("(file-level)"@, f.0, f.2, linked, f.1, risk_at(linked, f.2, threshold))
}

/// The row for a coupled function.
pub open spec fn function_row(
    direct_calls: Seq<Seq<char>>,
    edges: Seq<CallEdgeView>,
    target: Seq<char>,
    f: ((Seq<char>, Seq<char>), usize, Ratio),
    threshold: Ratio,
) -> (Seq<char>, Seq<char>, Ratio, bool, usize, RiskLevel) {
    let linked = function_named_linked(direct_calls, edges, target, f.0.1);
    (f.0.1, f.0.0, f.2, linked, f.1, risk_at(linked, f.2, threshold))
}

/// The file-level rows of the coupled files not among `skip`, in order.
pub open spec fn file_rows_except(
    edges: Seq<CallEdgeView>,
    target: Seq<char>,
    files: Seq<(Seq<char>, usize, Ratio)>,
    skip: Seq<((Seq<char>, Seq<char>), usize, Ratio)>,
    threshold: Ratio,
) -> Seq<(Seq<char>, Seq<char>, Ratio, bool, usize, RiskLevel)>
    decreases files.len(),
{
    if files.len() == 0 {
        seq![]
    } else {
        let rest = file_rows_except(edges, target, files.drop_last(), skip, threshold);
        if exists|j: int| 0 <= j < skip.len() && (#[trigger] skip[j]).0.0 == files.last().0 {
            rest
        } else {
            rest.push(file_row(edges, target, files.last(), threshold))
        }
    }
}

/// Every function-level entry fell back to file level (true of none).
pub open spec fn all_file_level(fs: Seq<((Seq<char>, Seq<char>), usize, Ratio)>) -> bool {
    forall|i: int| 0 <= i < fs.len() ==> (#[trigger] fs[i]).0.1 == "(file-level)"@
}

/// The rows of the combined risk table for a target function, each risk
/// classified at `threshold` (see `risk_at`): where the
/// function-level results all fell back to file level, a file-level row
/// per coupled file; else a row per coupled function, then a file-level
/// row per coupled file that holds none of them.
pub open spec fn risk_table(
    target: Seq<char>,
    direct_calls: Seq<Seq<char>>,
    edges: Seq<CallEdgeView>,
    func_coupled: Seq<((Seq<char>, Seq<char>), usize, Ratio)>,
    file_coupled: Seq<(Seq<char>, usize, Ratio)>,
    threshold: Ratio,
) -> Seq<(Seq<char>, Seq<char>, Ratio, bool, usize, RiskLevel)> {
    if all_file_level(func_coupled) {
        file_rows_except(edges, target, file_coupled, seq![], threshold)
    } else {
        func_coupled.map_values(
            |f: ((Seq<char>, Seq<char>), usize, Ratio)| function_row(direct_calls, edges, target, f, threshold),
        ) + file_rows_except(edges, target, file_coupled, func_coupled, threshold)
    }
}

/// Whether a call links the target function and the coupled file.
fn function_file_link(target: &String, path: &String, edges: &Vec<CallEdge>) -> (r: bool)
    ensures
        r == function_file_linked(edge_views(edges@), target@, path@),
{
    let mut i: usize = 0;
    while i < edges.len()
        invariant
            0 <= i <= edges@.len(),
            forall|j: int|
                0 <= j < i ==> !({
                    let e = #[trigger] edge_views(edges@)[j];
                    (e.caller_name == target@ && e.callee_file == Some(path@)) || (e.callee_name
                        == target@ && e.caller_file == path@)
                }),
        decreases edges.len() - i,
    {
        let e = &edges[i];
        assert(edge_views(edges@)[i as int] == e@);
        let into = e.caller_name == *target && match &e.callee_file {
            Some(f) => *f == *path,
            None => false,
        };
        let from = e.callee_name == *target && e.caller_file == *path;
        if into || from {
            return true;
        }
        i += 1;
    }
    false
}

/// Whether the target function and the named function call one another.
fn function_name_link(
    target: &String,
    name: &String,
    direct_calls: &Vec<String>,
    edges: &Vec<CallEdge>,
) -> (r: bool)
    ensures
        r == function_named_linked(
            crate::analyzer::string_views(direct_calls@),
            edge_views(edges@),
            target@,
            name@,
        ),
{
    let mut i: usize = 0;
    while i < direct_calls.len()
        invariant
            0 <= i <= direct_calls@.len(),
            forall|j: int| 0 <= j < i ==> direct_calls@[j]@ != name@,
        decreases direct_calls.len() - i,
    {
        if direct_calls[i] == *name {
            assert(crate::analyzer::string_views(direct_calls@)[i as int] == name@);
            return true;
        }
        i += 1;
    }
    assert(!crate::analyzer::string_views(direct_calls@).contains(name@)) by {
        if crate::analyzer::string_views(direct_calls@).contains(name@) {
            let j = choose|j: int|
                0 <= j < direct_calls@.len() && crate::analyzer::string_views(direct_calls@)[j]
                    == name@;
            assert(direct_calls@[j]@ == name@);
        }
    }
    let mut k: usize = 0;
    while k < edges.len()
        invariant
            0 <= k <= edges@.len(),
            forall|j: int|
                0 <= j < k ==> !((#[trigger] edge_views(edges@)[j]).callee_name == target@
                    && edge_views(edges@)[j].caller_name == name@),
        decreases edges.len() - k,
    {
        assert(edge_views(edges@)[k as int] == edges@[k as int]@);
        if edges[k].callee_name == *target && edges[k].caller_name == *name {
            return true;
        }
        k += 1;
    }
    false
}

/// The file-level rows of the coupled files not among `skip`.
fn file_level_rows(
    target: &String,
    edges: &Vec<CallEdge>,
    files: &Vec<CoupledFile>,
    skip: &Vec<CoupledFunction>,
    threshold: Ratio,
) -> (r: Vec<RiskRow>)
    ensures
        risk_row_views(r@) == file_rows_except(
            edge_views(edges@),
            target@,
            coupled_file_views(files@),
            coupled_function_views(skip@),
            threshold,
        ),
{
    let ghost fv = coupled_file_views(files@);
    let ghost sv = coupled_function_views(skip@);
    let mut rows: Vec<RiskRow> = Vec::new();
    let mut i: usize = 0;
    while i < files.len()
        invariant
            0 <= i <= files@.len(),
            fv == coupled_file_views(files@),
            sv == coupled_function_views(skip@),
            risk_row_views(rows@) == file_rows_except(edge_views(edges@), target@, fv.take(i as int), sv, threshold),
        decreases files.len() - i,
    {
        let f = &files[i];
        assert(fv.take(i + 1).drop_last() =~= fv.take(i as int));
        assert(fv.take(i + 1).last() == fv[i as int]);
        let mut skipped = false;
        let mut j: usize = 0;
        while j < skip.len()
            invariant
                0 <= j <= skip@.len(),
                sv == coupled_function_views(skip@),
                i < files@.len(),
                fv[i as int].0 == files@[i as int].file_path@,
                f.file_path@ == fv[i as int].0,
                skipped == exists|q: int| 0 <= q < j && (#[trigger] sv[q]).0.0 == fv[i as int].0,
            decreases skip.len() - j,
        {
            assert(sv[j as int].0.0 == skip@[j as int].file_path@);
            if skip[j].file_path == f.file_path {
                skipped = true;
            }
            j += 1;
        }
        if !skipped {
            let linked = function_file_link(target, &f.file_path, edges);
            let ghost before = risk_row_views(rows@);
            rows.push(
                RiskRow {
                    entity: string_from_str("(file-level)"),
                    file_path: f.file_path.clone(),
                    confidence: f.confidence,
                    has_static: linked,
                    co_commit_count: f.co_commit_count,
                    risk: crate::analyzer::classify_risk_at(linked, f.confidence, threshold),
                },
            );
            assert(risk_row_views(rows@) =~= before.push(file_row(edge_views(edges@), target@, fv[i as int], threshold)));
        }
        i += 1;
    }
    assert(fv.take(fv.len() as int) =~= fv);
    rows
}

/// The rows of the combined risk table for a target function (see
/// `risk_table`).
pub fn function_risk_rows(
    target_func: &str,
    direct_calls: &Vec<String>,
    call_edges: &Vec<CallEdge>,
    func_coupled: &Vec<CoupledFunction>,
    file_coupled: &Vec<CoupledFile>,
    threshold: Ratio,
) -> (r: Vec<RiskRow>)
    ensures
        risk_row_views(r@) == risk_table(
            target_func@,
            crate::analyzer::string_views(direct_calls@),
            edge_views(call_edges@),
            coupled_function_views(func_coupled@),
            coupled_file_views(file_coupled@),
            threshold,
        ),
{
    let target = string_from_str(target_func);
    let ghost fv = coupled_function_views(func_coupled@);
    let mut fallback = true;
    let mut i: usize = 0;
    while i < func_coupled.len()
        invariant
            0 <= i <= func_coupled@.len(),
            fv == coupled_function_views(func_coupled@),
            fallback == forall|j: int| 0 <= j < i ==> (#[trigger] fv[j]).0.1 == "(file-level)"@,
        decreases func_coupled.len() - i,
    {
        assert(fv[i as int].0.1 == func_coupled@[i as int].function_name@);
        if func_coupled[i].function_name != string_from_str("(file-level)") {
            fallback = false;
        }
        i += 1;
    }
    if fallback {
        let empty: Vec<CoupledFunction> = Vec::new();
        assert(coupled_function_views(empty@) =~= Seq::<((Seq<char>, Seq<char>), usize, Ratio)>::empty());
        return file_level_rows(&target, call_edges, file_coupled, &empty, threshold);
    }
    let mut rows: Vec<RiskRow> = Vec::new();
    let mut k: usize = 0;
    while k < func_coupled.len()
        invariant
            0 <= k <= func_coupled@.len(),
            fv == coupled_function_views(func_coupled@),
            target@ == target_func@,
            risk_row_views(rows@) == fv.take(k as int).map_values(
                |f: ((Seq<char>, Seq<char>), usize, Ratio)|
                    function_row(
                        crate::analyzer::string_views(direct_calls@),
                        edge_views(call_edges@),
                        target_func@,
                        f,
                        threshold,
                    ),
            ),
        decreases func_coupled.len() - k,
    {
        let f = &func_coupled[k];
        let linked = function_name_link(&target, &f.function_name, direct_calls, call_edges);
        let ghost before = risk_row_views(rows@);
        assert(fv[k as int] == ((f.file_path@, f.function_name@), f.co_commit_count, f.confidence));
        assert(fv.take(k + 1) =~= fv.take(k as int).push(fv[k as int]));
        rows.push(
            RiskRow {
                entity: f.function_name.clone(),
                file_path: f.file_path.clone(),
                confidence: f.confidence,
                has_static: linked,
                co_commit_count: f.co_commit_count,
                risk: crate::analyzer::classify_risk_at(linked, f.confidence, threshold),
            },
        );
        assert(risk_row_views(rows@) =~= before.push(
            function_row(
                crate::analyzer::string_views(direct_calls@),
                edge_views(call_edges@),
                target_func@,
                fv[k as int],
                threshold,
            ),
        ));
        assert(risk_row_views(rows@) =~= fv.take(k + 1).map_values(
            |f: ((Seq<char>, Seq<char>), usize, Ratio)|
                function_row(
                    crate::analyzer::string_views(direct_calls@),
                    edge_views(call_edges@),
                    target_func@,
                    f,
                    threshold,
                ),
        ));
        k += 1;
    }
    assert(fv.take(fv.len() as int) =~= fv);
    let rest = file_level_rows(&target, call_edges, file_coupled, func_coupled, threshold);
    let ghost head = risk_row_views(rows@);
    let mut t: usize = 0;
    while t < rest.len()
        invariant
            0 <= t <= rest@.len(),
            risk_row_views(rows@) == head + risk_row_views(rest@).take(t as int),
        decreases rest.len() - t,
    {
        let ghost before = risk_row_views(rows@);
        rows.push(rest[t].duplicate());
        assert(risk_row_views(rows@) =~= before.push(risk_row_views(rest@)[t as int]));
        assert(risk_row_views(rows@) =~= head + risk_row_views(rest@).take(t + 1));
        t += 1;
    }
    assert(risk_row_views(rest@).take(rest@.len() as int) =~= risk_row_views(rest@));
    rows
}

// ─── The pairs a scan shows ──────────────────────────────────────────────────

/// A pair of source files, neither of them noise.
pub open spec fn is_source_pair(p: (Seq<char>, Seq<char>, usize, Ratio)) -> bool {
    is_source_path(p.0) && is_source_path(p.1) && !is_noise_path(p.0) && !is_noise_path(p.1)
}

/// The source pairs of `v`, in order.
pub open spec fn pairs_kept(v: Seq<(Seq<char>, Seq<char>, usize, Ratio)>) -> Seq<
    (Seq<char>, Seq<char>, usize, Ratio),
>
    decreases v.len(),
{
    if v.len() == 0 {
        seq![]
    } else {
        let rest = pairs_kept(v.drop_last());
        if is_source_pair(v.last()) {
            rest.push(v.last())
        } else {
            rest
        }
    }
}

/// The source pairs of `pairs`.
fn keep_pairs(pairs: &Vec<CoupledPair>) -> (r: Vec<CoupledPair>)
    ensures
        coupled_pair_views(r@) == pairs_kept(coupled_pair_views(pairs@)),
{
    let ghost all = coupled_pair_views(pairs@);
    let mut kept: Vec<CoupledPair> = Vec::new();
    let mut i: usize = 0;
    while i < pairs.len()
        invariant
            0 <= i <= pairs@.len(),
            all == coupled_pair_views(pairs@),
            coupled_pair_views(kept@) == pairs_kept(all.take(i as int)),
        decreases pairs.len() - i,
    {
        assert(all.take(i + 1).drop_last() =~= all.take(i as int));
        assert(all.take(i + 1).last() == all[i as int]);
        let p = &pairs[i];
        let keep = is_source_file(p.file_a.as_str()) && is_source_file(p.file_b.as_str())
            && !is_noise_file(p.file_a.as_str()) && !is_noise_file(p.file_b.as_str());
        if keep {
            let ghost before = coupled_pair_views(kept@);
            kept.push(p.duplicate());
            assert(coupled_pair_views(kept@) =~= before.push(all[i as int]));
        }
        i += 1;
    }
    assert(all.take(all.len() as int) =~= all);
    kept
}

/// The pairs a scan shows: the pairs of source files (neither of them
/// noise), by descending co-change count (stable), the first 10; none where
/// there is no such pair.
pub fn select_display_pairs(pairs: &Vec<CoupledPair>) -> (r: Vec<CoupledPair>)
    ensures
        top_by_co_changes(pairs_kept(coupled_pair_views(pairs@)), 10, coupled_pair_views(r@)),
{
    let source = keep_pairs(pairs);
    top_pairs_by_co_changes(&source, 10)
}

/// A pair is kept for display (see `keep_pairs`) exactly when it is one of
/// the pairs and both of its files are source files and neither is noise.
pub proof fn law_kept_pairs_are_clean_source_pairs(
    v: Seq<(Seq<char>, Seq<char>, usize, Ratio)>,
    p: (Seq<char>, Seq<char>, usize, Ratio),
)
    ensures
        pairs_kept(v).contains(p) <==> (v.contains(p) && is_source_path(p.0) && is_source_path(p.1)
            && !is_noise_path(p.0) && !is_noise_path(p.1)),
    decreases v.len(),
{
    if v.len() > 0 {
        let init = v.drop_last();
        law_kept_pairs_are_clean_source_pairs(init, p);
        let rest = pairs_kept(init);
        assert(v.contains(p) <==> (init.contains(p) || v.last() == p)) by {
            if v.contains(p) {
                let k = choose|k: int| 0 <= k < v.len() && v[k] == p;
                if k < init.len() {
                    assert(init[k] == p);
                }
            }
            if init.contains(p) {
                let k = choose|k: int| 0 <= k < init.len() && init[k] == p;
                assert(v[k] == p);
            }
            if v.last() == p {
                assert(v[v.len() - 1] == p);
            }
        }
        if is_source_pair(v.last()) {
            let t = rest.push(v.last());
            assert(pairs_kept(v) == t);
            assert(t.contains(p) <==> (rest.contains(p) || v.last() == p)) by {
                if t.contains(p) {
                    let k = choose|k: int| 0 <= k < t.len() && t[k] == p;
                    if k < rest.len() {
                        assert(rest[k] == p);
                    }
                }
                if rest.contains(p) {
                    let k = choose|k: int| 0 <= k < rest.len() && rest[k] == p;
                    assert(t[k] == p);
                }
                if v.last() == p {
                    assert(t[rest.len() as int] == p);
                }
            }
        } else {
            assert(pairs_kept(v) == rest);
        }
    }
}

/// Every pair a scan shows (see `select_display_pairs`) is one of the
/// pairs, between two source files, neither of them noise (such as files
/// under `examples/` or `docs/`); at most ten are shown, and where fewer
/// than ten pairs qualify, all of them are.
pub proof fn law_scan_shows_clean_source_pairs(
    v: Seq<(Seq<char>, Seq<char>, usize, Ratio)>,
    r: Seq<(Seq<char>, Seq<char>, usize, Ratio)>,
)
    requires
        top_by_co_changes(pairs_kept(v), 10, r),
    ensures
        r.len() <= 10,
        forall|k: int|
            0 <= k < r.len() ==> v.contains(#[trigger] r[k]) && is_source_path(r[k].0) && is_source_path(
                r[k].1,
            ) && !is_noise_path(r[k].0) && !is_noise_path(r[k].1),
        pairs_kept(v).len() <= 10 ==> forall|p: (Seq<char>, Seq<char>, usize, Ratio)|
            (v.contains(p) && is_source_path(p.0) && is_source_path(p.1) && !is_noise_path(p.0)
                && !is_noise_path(p.1)) ==> #[trigger] r.contains(p),
{
    let kept = pairs_kept(v);
    let idx = choose|idx: Seq<usize>|
        #[trigger] crate::db::rank::is_int_ranking(idx, crate::db::pairs::co_change_keys(kept), 10) && (forall|
            i: int,
            j: int,
        |
            0 <= i < j < idx.len() && crate::db::pairs::co_change_keys(kept)[idx[i] as int]
                == crate::db::pairs::co_change_keys(kept)[idx[j] as int] ==> idx[i] < idx[j]) && r
            == idx.map_values(|k: usize| kept[k as int]);
    assert(crate::db::pairs::co_change_keys(kept).len() == kept.len());
    assert forall|k: int| 0 <= k < r.len() implies v.contains(#[trigger] r[k]) && is_source_path(r[k].0)
        && is_source_path(r[k].1) && !is_noise_path(r[k].0) && !is_noise_path(r[k].1) by {
        assert(r[k] == kept[idx[k] as int]);
        assert(kept.contains(r[k]));
        law_kept_pairs_are_clean_source_pairs(v, r[k]);
    }
    if kept.len() <= 10 {
        assert forall|p: (Seq<char>, Seq<char>, usize, Ratio)|
            (v.contains(p) && is_source_path(p.0) && is_source_path(p.1) && !is_noise_path(p.0)
                && !is_noise_path(p.1)) implies #[trigger] r.contains(p) by {
            law_kept_pairs_are_clean_source_pairs(v, p);
            let e = choose|e: int| 0 <= e < kept.len() && kept[e] == p;
            assert(idx.contains(e as usize));
            let k = choose|k: int| 0 <= k < idx.len() && idx[k] == e as usize;
            assert(r[k] == p);
        }
    }
}

} // verus!
