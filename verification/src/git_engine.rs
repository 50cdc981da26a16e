//! Commit history as plain values: commit records, file deltas and diff
//! hunks, and the rules that turn what a walk of a repository reads into
//! them. Reading the repository itself happens outside this library; what
//! it reads comes in here as strings, integers and `DeltaStatus` values.

use vstd::prelude::*;

use crate::analyzer::{
    def_views, functions_of_tree, map_diff_to_functions, touched_functions, FunctionDef,
    FunctionDefView,
};
use crate::analyzer::languages::{detect_language_from_path, has_grammar, language_of_path};
use crate::analyzer::parse::parsed;
use crate::text::{decimal, decimal_string, digit_char, push_char, push_str, str_eq, string_from_str};

verus! {

broadcast use vstd::string::group_string_axioms;

// ─── Change types ────────────────────────────────────────────────────────────

/// Classification of how a file was changed in a commit.
#[derive(Debug, Clone, Copy, PartialEq, Eq, Structural)]
pub enum ChangeType {
    Added,
    Modified,
    Deleted,
    Renamed,
    Untracked,
}

/// The one-letter symbol of a change type.
pub open spec fn change_symbol(c: ChangeType) -> Seq<char> {
    match c {
        ChangeType::Added => "A"@,
        ChangeType::Modified => "M"@,
        ChangeType::Deleted => "D"@,
        ChangeType::Renamed => "R"@,
        ChangeType::Untracked => "?"@,
    }
}

impl ChangeType {
    /// The one-letter symbol: `A`, `M`, `D`, `R`, or `?` for untracked.
    pub fn symbol(&self) -> (r: &'static str)
        ensures
            r@ == change_symbol(*self),
    {
        match self {
            ChangeType::Added => "A",
            ChangeType::Modified => "M",
            ChangeType::Deleted => "D",
            ChangeType::Renamed => "R",
            ChangeType::Untracked => "?",
        }
    }
}

/// How a tree-to-tree diff classifies one changed entry.
#[derive(Debug, Clone, Copy, PartialEq, Eq, Structural)]
pub enum DeltaStatus {
    Unmodified,
    Added,
    Deleted,
    Modified,
    Renamed,
    Copied,
    Ignored,
    Untracked,
    Typechange,
    Unreadable,
    Conflicted,
}

/// The change type recorded for a diff status; the other statuses (copies,
/// type changes and the like) are not recorded.
pub open spec fn change_of_status(s: DeltaStatus) -> Option<ChangeType> {
    match s {
        DeltaStatus::Added => Some(ChangeType::Added),
        DeltaStatus::Deleted => Some(ChangeType::Deleted),
        DeltaStatus::Modified => Some(ChangeType::Modified),
        DeltaStatus::Renamed => Some(ChangeType::Renamed),
        DeltaStatus::Untracked => Some(ChangeType::Untracked),
        _ => None,
    }
}

/// The change type recorded for a diff status, if any.
pub fn change_type_of(s: DeltaStatus) -> (r: Option<ChangeType>)
    ensures
        r == change_of_status(s),
{
    match s {
        DeltaStatus::Added => Some(ChangeType::Added),
        DeltaStatus::Deleted => Some(ChangeType::Deleted),
        DeltaStatus::Modified => Some(ChangeType::Modified),
        DeltaStatus::Renamed => Some(ChangeType::Renamed),
        DeltaStatus::Untracked => Some(ChangeType::Untracked),
        _ => None,
    }
}

// ─── File deltas ─────────────────────────────────────────────────────────────

/// A single file's change within a commit.
#[derive(Debug, Clone)]
pub struct FileDelta {
    /// File path relative to the repository root
    pub path: String,
    /// Type of change (added, modified, deleted, renamed)
    pub change_type: ChangeType,
}

/// The value a `FileDelta` holds.
pub struct FileDeltaView {
    pub path: Seq<char>,
    pub change_type: ChangeType,
}

impl View for FileDelta {
    type V = FileDeltaView;

    open spec fn view(&self) -> FileDeltaView {
        FileDeltaView { path: self.path@, change_type: self.change_type }
    }
}

/// The values of a list of file deltas.
pub open spec fn file_delta_views(v: Seq<FileDelta>) -> Seq<FileDeltaView> {
    v.map_values(|d: FileDelta| d@)
}

/// One entry of a diff as read from the repository: its status and the
/// paths of its new and old sides, where the diff has them.
pub struct RawDelta {
    pub status: DeltaStatus,
    pub new_path: Option<String>,
    pub old_path: Option<String>,
}

/// The value of an optional string.
pub open spec fn opt_chars(s: Option<String>) -> Option<Seq<char>> {
    match s {
        Some(x) => Some(x@),
        None => None,
    }
}

/// The file delta recorded for a diff entry: its change type, and the path
/// of the new side where there is one, else that of the old side. Entries
/// with an unrecorded status, with no path or with an empty path are not
/// recorded.
pub open spec fn delta_of(
    status: DeltaStatus,
    new_path: Option<Seq<char>>,
    old_path: Option<Seq<char>>,
) -> Option<FileDeltaView> {
    match change_of_status(status) {
        None => None,
        Some(ct) => {
            let path = match new_path {
                Some(p) => Some(p),
                None => old_path,
            };
            match path {
                None => None,
                Some(p) => if p.len() == 0 {
                    None
                } else {
                    Some(FileDeltaView { path: p, change_type: ct })
                },
            }
        },
    }
}

/// The file deltas recorded for a list of diff entries, in order.
pub open spec fn deltas_of(raw: Seq<RawDelta>) -> Seq<FileDeltaView>
    decreases raw.len(),
{
    if raw.len() == 0 {
        seq![]
    } else {
        let last = raw.last();
        match delta_of(last.status, opt_chars(last.new_path), opt_chars(last.old_path)) {
            Some(d) => deltas_of(raw.drop_last()).push(d),
            None => deltas_of(raw.drop_last()),
        }
    }
}

/// The file delta recorded for one diff entry.
pub fn file_delta_for(raw: &RawDelta) -> (r: Option<FileDelta>)
    ensures
        match r {
            Some(d) => delta_of(raw.status, opt_chars(raw.new_path), opt_chars(raw.old_path))
                == Some(d@),
            None => delta_of(raw.status, opt_chars(raw.new_path), opt_chars(raw.old_path))
                is None,
        },
{
    let change_type = match change_type_of(raw.status) {
        Some(ct) => ct,
        None => return None,
    };
    let path = match &raw.new_path {
        Some(p) => p.clone(),
        None => match &raw.old_path {
            Some(p) => p.clone(),
            None => return None,
        },
    };
    if path.as_str().unicode_len() == 0 {
        return None;
    }
    Some(FileDelta { path, change_type })
}

/// The file deltas of a commit's diff, in the diff's order.
pub fn file_deltas_from(raw: &Vec<RawDelta>) -> (r: Vec<FileDelta>)
    ensures
        file_delta_views(r@) == deltas_of(raw@),
{
    let mut deltas: Vec<FileDelta> = Vec::new();
    let mut i: usize = 0;
    while i < raw.len()
        invariant
            0 <= i <= raw@.len(),
            file_delta_views(deltas@) == deltas_of(raw@.take(i as int)),
        decreases raw.len() - i,
    {
        assert(raw@.take(i + 1).drop_last() =~= raw@.take(i as int));
        assert(raw@.take(i + 1).last() == raw@[i as int]);
        match file_delta_for(&raw[i]) {
            Some(d) => {
                deltas.push(d);
                assert(file_delta_views(deltas@) =~= deltas_of(raw@.take(i as int)).push(
                    deltas@.last()@,
                ));
            },
            None => {},
        }
        i += 1;
    }
    assert(raw@.take(raw@.len() as int) =~= raw@);
    deltas
}

// ─── Commit records ──────────────────────────────────────────────────────────

/// A single commit's metadata and associated file changes.
#[derive(Debug, Clone)]
pub struct CommitRecord {
    /// Full 40-character SHA-1 hash
    pub hash: String,
    /// Short 7-character hash (for display)
    pub short_hash: String,
    /// Author name
    pub author_name: String,
    /// Author email
    pub author_email: String,
    /// Commit timestamp (Unix epoch seconds)
    pub timestamp: i64,
    /// UTC offset in minutes
    pub utc_offset: i32,
    /// Commit message (first line)
    pub summary: String,
    /// The files this commit changed
    pub file_deltas: Vec<FileDelta>,
}

/// The first seven characters of a hash (all of it when shorter).
pub open spec fn short_hash_spec(hash: Seq<char>) -> Seq<char> {
    if hash.len() <= 7 {
        hash
    } else {
        hash.take(7)
    }
}

/// The text of an optional field, or `fallback` when it is missing.
pub open spec fn or_default(s: Option<Seq<char>>, fallback: Seq<char>) -> Seq<char> {
    match s {
        Some(x) => x,
        None => fallback,
    }
}

/// The first seven characters of a hash, for display.
pub fn short_hash_of(hash: &str) -> (r: String)
    ensures
        r@ == short_hash_spec(hash@),
{
    let n = hash.unicode_len();
    let k = if n <= 7 { n } else { 7 };
    let mut r = String::new();
    let mut i: usize = 0;
    while i < k
        invariant
            0 <= i <= k <= n,
            n == hash@.len(),
            k == (if n <= 7 { n } else { 7 }),
            r@ == hash@.take(i as int),
        decreases k - i,
    {
        push_char(&mut r, hash.get_char(i));
        assert(hash@.take(i + 1) =~= hash@.take(i as int).push(hash@[i as int]));
        i += 1;
    }
    proof {
        if n <= 7 {
            assert(hash@.take(k as int) =~= hash@);
        }
    }
    r
}

/// The text of an optional field, or a fallback literal.
fn text_or(s: Option<String>, fallback: &str) -> (r: String)
    ensures
        r@ == or_default(opt_chars(s), fallback@),
{
    match s {
        Some(x) => x,
        None => string_from_str(fallback),
    }
}

impl CommitRecord {
    /// The record of a commit from what the repository holds of it: a
    /// missing author name or e-mail reads `<unknown>`, a missing summary
    /// `<no message>`, and the short hash is the first seven characters of
    /// the hash.
    pub fn from_parts(
        hash: String,
        author_name: Option<String>,
        author_email: Option<String>,
        timestamp: i64,
        utc_offset: i32,
        summary: Option<String>,
        file_deltas: Vec<FileDelta>,
    ) -> (r: CommitRecord)
        ensures
            r.hash@ == hash@,
            r.short_hash@ == short_hash_spec(hash@),
            r.author_name@ == or_default(opt_chars(author_name), "<unknown>"@),
            r.author_email@ == or_default(opt_chars(author_email), "<unknown>"@),
            r.timestamp == timestamp,
            r.utc_offset == utc_offset,
            r.summary@ == or_default(opt_chars(summary), "<no message>"@),
            file_delta_views(r.file_deltas@) == file_delta_views(file_deltas@),
    {
        let short_hash = short_hash_of(hash.as_str());
        CommitRecord {
            hash,
            short_hash,
            author_name: text_or(author_name, "<unknown>"),
            author_email: text_or(author_email, "<unknown>"),
            timestamp,
            utc_offset,
            summary: text_or(summary, "<no message>"),
            file_deltas,
        }
    }
}

/// The commits to analyse, oldest first, from the history listed newest
/// first: the newest `max_commits` of them, or all when `max_commits` is 0
/// or at least the length of the history.
pub open spec fn chosen_commits<T>(newest_first: Seq<T>, max_commits: nat) -> Seq<T> {
    if 0 < max_commits < newest_first.len() {
        newest_first.take(max_commits as int).reverse()
    } else {
        newest_first.reverse()
    }
}

/// Picks the commits to analyse from a history listed newest first, and
/// puts them oldest first.
pub fn select_commits<T>(newest_first: Vec<T>, max_commits: usize) -> (r: Vec<T>)
    ensures
        r@ == chosen_commits(newest_first@, max_commits as nat),
{
    let mut rest = newest_first;
    let ghost kept: Seq<T> = if 0 < max_commits < rest@.len() {
        rest@.take(max_commits as int)
    } else {
        rest@
    };
    if 0 < max_commits && max_commits < rest.len() {
        rest.truncate(max_commits);
    }
    assert(rest@ =~= kept);
    let mut r: Vec<T> = Vec::new();
    while rest.len() > 0
        invariant
            kept.len() == rest@.len() + r@.len(),
            rest@ == kept.take(rest@.len() as int),
            r@ == kept.skip(rest@.len() as int).reverse(),
        decreases rest.len(),
    {
        let ghost before = rest@;
        let x = rest.pop().unwrap();
        proof {
            assert(rest@ =~= kept.take(rest@.len() as int));
            assert(x == kept[rest@.len() as int]);
        }
        r.push(x);
        assert(r@ =~= kept.skip(rest@.len() as int).reverse());
    }
    assert(kept.skip(0) =~= kept);
    r
}

// ─── Times ───────────────────────────────────────────────────────────────────

/// The proleptic Gregorian `(year, month, day)` of a day number, day 0
/// being 1970-01-01 (year 0 is 1 BCE).
pub open spec fn civil_date(z: int) -> (int, int, int) {
    let z1 = z + 719468;
    let era = z1 / 146097;
    let doe = z1 - era * 146097;
    let yoe = (doe - doe / 1460 + doe / 36524 - doe / 146096) / 365;
    let doy = doe - (365 * yoe + yoe / 4 - yoe / 100);
    let mp = (5 * doy + 2) / 153;
    let d = doy - (153 * mp + 2) / 5 + 1;
    let m = if mp < 10 {
        mp + 3
    } else {
        mp - 9
    };
    (yoe + era * 400 + if m <= 2 {
        1int
    } else {
        0int
    }, m, d)
}

/// A number below 100 as two digits.
pub open spec fn two_digits(n: int) -> Seq<char> {
    seq![digit_char((n / 10) as nat), digit_char((n % 10) as nat)]
}

/// A natural number zero-padded to four digits (more where it has more).
pub open spec fn four_digits(n: nat) -> Seq<char> {
    if n < 10000 {
        two_digits((n / 100) as int) + two_digits((n % 100) as int)
    } else {
        decimal(n)
    }
}

/// A year as `%Y` writes it: four digits for years 0 to 9999, else with a
/// sign and at least four digits.
pub open spec fn year_text(y: int) -> Seq<char> {
    if 0 <= y && y <= 9999 {
        four_digits(y as nat)
    } else if y > 9999 {
        seq!['+'] + four_digits(y as nat)
    } else {
        seq!['-'] + four_digits((-y) as nat)
    }
}

/// The UTC date and time of a Unix timestamp as `YYYY-MM-DD HH:MM:SS`: the
/// proleptic Gregorian date of the whole days since the epoch and the time
/// of the seconds left; the epoch's for a date whose year lies outside
/// -262143 to 262142, which has no `DateTime`.
pub open spec fn utc_date_time(secs: i64) -> Seq<char> {
    let z = (secs as int) / 86400;
    let sod = (secs as int) % 86400;
    let (y, m, d) = civil_date(z);
    if -262143 <= y && y <= 262142 {
        year_text(y) + seq!['-'] + two_digits(m) + seq!['-'] + two_digits(d) + seq![' ']
            + two_digits(sod / 3600) + seq![':'] + two_digits((sod % 3600) / 60) + seq![':']
            + two_digits(sod % 60)
    } else {
        "1970-01-01 00:00:00"@
    }
}

/// `chrono::DateTime::from_timestamp(secs, 0)` (the epoch where that gives
/// `None`) formatted with `%Y-%m-%d %H:%M:%S`. `from_timestamp` takes the
/// Euclidean quotient and remainder of `secs` by 86400 as the day (counted
/// from 1970-01-01) and the second of the day, and gives `None` exactly when
/// the day's proleptic Gregorian year lies outside `MIN_YEAR..=MAX_YEAR`
/// (-262143 to 262142); `%Y` writes the year zero-padded to four digits,
/// with a sign outside 0 to 9999, and the other fields as two digits.
#[verifier::external_body]
fn utc_date_time_text(secs: i64) -> (r: String)
    ensures
        r@ == utc_date_time(secs),
{
    chrono::DateTime::from_timestamp(secs, 0).unwrap_or_default().format(
        "%Y-%m-%d %H:%M:%S",
    ).to_string()
}

/// A number with an explicit sign, zero-padded to three characters in all
/// (`{:+03}`): `neg` gives the sign, `mag` the magnitude.
pub open spec fn signed_width3(neg: bool, mag: nat) -> Seq<char> {
    let sign = if neg { '-' } else { '+' };
    if mag < 10 {
        seq![sign, '0'] + decimal(mag)
    } else {
        seq![sign] + decimal(mag)
    }
}

/// A number zero-padded to two characters (`{:02}`): `neg` gives the sign,
/// `mag` the magnitude.
pub open spec fn width2(neg: bool, mag: nat) -> Seq<char> {
    if neg {
        seq!['-'] + decimal(mag)
    } else if mag < 10 {
        seq!['0'] + decimal(mag)
    } else {
        decimal(mag)
    }
}

/// ` UTC` followed by the hours and minutes of an offset in minutes, each
/// the truncating quotient or remainder of the offset by 60 and signed as
/// the offset where it is not zero.
pub open spec fn offset_text(offset: int) -> Seq<char> {
    let mag = if offset < 0 { -offset } else { offset };
    let hours = mag / 60;
    let minutes = mag % 60;
    " UTC"@ + signed_width3(offset < 0 && hours > 0, hours as nat) + width2(
        offset < 0 && minutes > 0,
        minutes as nat,
    )
}

/// The display form of a commit time.
pub open spec fn time_text(secs: i64, offset_minutes: i32) -> Seq<char> {
    utc_date_time(secs) + offset_text(offset_minutes as int)
}

/// A date and time followed by ` UTC`, the offset's hours and minutes.
pub fn with_utc_offset(date_time: String, offset_minutes: i32) -> (r: String)
    ensures
        r@ == date_time@ + offset_text(offset_minutes as int),
{
    let mut r = date_time;
    let neg = offset_minutes < 0;
    let wide: i64 = offset_minutes as i64;
    let mag: u64 = if neg { (0 - wide) as u64 } else { wide as u64 };
    let hours: u64 = mag / 60;
    let minutes: u64 = mag % 60;
    let ghost before = r@;
    push_str(&mut r, " UTC");
    if neg && hours > 0 {
        push_char(&mut r, '-');
    } else {
        push_char(&mut r, '+');
    }
    if hours < 10 {
        push_char(&mut r, '0');
    }
    let h = decimal_string(hours as usize);
    push_str(&mut r, h.as_str());
    if neg && minutes > 0 {
        push_char(&mut r, '-');
    } else if minutes < 10 {
        push_char(&mut r, '0');
    }
    let m = decimal_string(minutes as usize);
    push_str(&mut r, m.as_str());
    proof {
        let om = offset_minutes as int;
        let smag = if om < 0 { -om } else { om };
        assert(smag == mag);
        assert(hours == smag / 60);
        assert(minutes == smag % 60);
        assert(r@ =~= before + offset_text(offset_minutes as int));
    }
    r
}

/// Format a commit time (Unix seconds and UTC offset in minutes) as
/// `YYYY-MM-DD HH:MM:SS UTC+HHMM`.
pub fn format_time(seconds: i64, offset_minutes: i32) -> (r: String)
    ensures
        r@ == time_text(seconds, offset_minutes),
{
    with_utc_offset(utc_date_time_text(seconds), offset_minutes)
}

// ─── Diff hunks ──────────────────────────────────────────────────────────────

/// A diff hunk: a contiguous range of changed lines in a file.
#[derive(Debug, Clone)]
pub struct DiffHunk {
    pub file_path: String,
    /// Old file start line (1-based, 0 if added)
    pub old_start: u32,
    /// Old file line count
    pub old_count: u32,
    /// New file start line (1-based, 0 if deleted)
    pub new_start: u32,
    /// New file line count
    pub new_count: u32,
}

/// The new-side line range `(start, end)` of a hunk, inclusive; none for a
/// hunk that leaves no lines on the new side.
pub open spec fn hunk_range(h: DiffHunk) -> Option<(u32, u32)> {
    if h.new_count > 0 {
        Some((h.new_start, (h.new_start + h.new_count - 1) as u32))
    } else {
        None
    }
}

/// The end of the hunk's new-side range fits a `u32`.
pub open spec fn hunk_fits(h: DiffHunk) -> bool {
    h.new_count > 0 ==> h.new_start + h.new_count - 1 <= u32::MAX
}

/// The new-side ranges of the hunks of one file, in order.
pub open spec fn ranges_of_file(hunks: Seq<DiffHunk>, path: Seq<char>) -> Seq<(u32, u32)>
    decreases hunks.len(),
{
    if hunks.len() == 0 {
        seq![]
    } else {
        let h = hunks.last();
        let rest = ranges_of_file(hunks.drop_last(), path);
        if h.file_path@ == path {
            match hunk_range(h) {
                Some(r) => rest.push(r),
                None => rest,
            }
        } else {
            rest
        }
    }
}

/// The new-side line ranges that the hunks of one file touch.
pub fn diff_ranges_for_file(hunks: &Vec<DiffHunk>, file_path: &str) -> (r: Vec<(u32, u32)>)
    requires
        forall|i: int| 0 <= i < hunks@.len() ==> hunk_fits(#[trigger] hunks@[i]),
    ensures
        r@ == ranges_of_file(hunks@, file_path@),
{
    let mut ranges: Vec<(u32, u32)> = Vec::new();
    let mut i: usize = 0;
    while i < hunks.len()
        invariant
            0 <= i <= hunks@.len(),
            forall|j: int| 0 <= j < hunks@.len() ==> hunk_fits(#[trigger] hunks@[j]),
            ranges@ == ranges_of_file(hunks@.take(i as int), file_path@),
        decreases hunks.len() - i,
    {
        let h = &hunks[i];
        assert(hunks@.take(i + 1).drop_last() =~= hunks@.take(i as int));
        assert(hunks@.take(i + 1).last() == hunks@[i as int]);
        assert(hunk_fits(hunks@[i as int]));
        if str_eq(h.file_path.as_str(), file_path) && h.new_count > 0 {
            ranges.push((h.new_start, h.new_start + (h.new_count - 1)));
        }
        i += 1;
    }
    assert(hunks@.take(hunks@.len() as int) =~= hunks@);
    ranges
}

/// Some hunk of the list is in the file at `path`.
pub open spec fn has_hunk_in(hunks: Seq<DiffHunk>, path: Seq<char>) -> bool {
    exists|i: int| 0 <= i < hunks.len() && (#[trigger] hunks[i]).file_path@ == path
}

/// The files of a commit's hunks whose source is worth reading: each file
/// that has a hunk and a language, once.
pub fn source_files_of_hunks(hunks: &Vec<DiffHunk>) -> (r: Vec<String>)
    ensures
        forall|i: int, j: int| 0 <= i < j < r@.len() ==> r@[i]@ != r@[j]@,
        forall|i: int|
            0 <= i < r@.len() ==> has_hunk_in(hunks@, #[trigger] r@[i]@) && language_of_path(
                r@[i]@,
            ) is Some,
        forall|k: int|
            0 <= k < hunks@.len() && language_of_path(#[trigger] hunks@[k].file_path@) is Some
                ==> exists|i: int| 0 <= i < r@.len() && r@[i]@ == hunks@[k].file_path@,
{
    let mut files: Vec<String> = Vec::new();
    let mut i: usize = 0;
    while i < hunks.len()
        invariant
            0 <= i <= hunks@.len(),
            forall|a: int, b: int| 0 <= a < b < files@.len() ==> files@[a]@ != files@[b]@,
            forall|a: int|
                0 <= a < files@.len() ==> has_hunk_in(hunks@, #[trigger] files@[a]@)
                    && language_of_path(files@[a]@) is Some,
            forall|k: int|
                0 <= k < i && language_of_path(#[trigger] hunks@[k].file_path@) is Some
                    ==> exists|a: int| 0 <= a < files@.len() && files@[a]@ == hunks@[k].file_path@,
        decreases hunks.len() - i,
    {
        let path = &hunks[i].file_path;
        let mut seen = false;
        let mut j: usize = 0;
        while j < files.len()
            invariant
                0 <= j <= files@.len(),
                i < hunks@.len(),
                *path == hunks@[i as int].file_path,
                seen == exists|a: int| 0 <= a < j && files@[a]@ == path@,
            decreases files.len() - j,
        {
            if str_eq(files[j].as_str(), path.as_str()) {
                seen = true;
            }
            j += 1;
        }
        let ghost before = files@;
        if !seen && detect_language_from_path(path.as_str()).is_some() {
            assert(has_hunk_in(hunks@, hunks@[i as int].file_path@));
            files.push(path.clone());
            assert(files@[files@.len() - 1]@ == path@);
        }
        assert forall|k: int|
            0 <= k < i + 1 && language_of_path(#[trigger] hunks@[k].file_path@) is Some implies exists|
                a: int,
            | 0 <= a < files@.len() && files@[a]@ == hunks@[k].file_path@ by {
            if k < i {
                let a = choose|a: int| 0 <= a < before.len() && before[a]@ == hunks@[k].file_path@;
                assert(files@[a] == before[a]);
            } else if seen {
                let a = choose|a: int| 0 <= a < j && files@[a]@ == path@;
                assert(files@[a] == before[a]);
            } else {
                assert(files@[files@.len() - 1]@ == hunks@[k].file_path@);
            }
        }
        i += 1;
    }
    files
}

/// One function-level change in the file at `path`: the path, the
/// function's name, and its first and last line.
pub open spec fn function_delta_row(path: Seq<char>, f: FunctionDefView) -> (
    Seq<char>,
    Seq<char>,
    u32,
    u32,
) {
    (path, f.name, f.start_line, f.end_line)
}

/// The values of a list of function-level changes.
pub open spec fn delta_row_views(v: Seq<(String, String, u32, u32)>) -> Seq<
    (Seq<char>, Seq<char>, u32, u32),
> {
    v.map_values(|r: (String, String, u32, u32)| (r.0@, r.1@, r.2, r.3))
}

/// The function-level changes for the changed functions of the file at
/// `file_path`: one row per function, in order.
pub fn function_delta_rows(file_path: &str, functions: &Vec<FunctionDef>) -> (r: Vec<
    (String, String, u32, u32),
>)
    ensures
        delta_row_views(r@) == def_views(functions@).map_values(
            |f: FunctionDefView| function_delta_row(file_path@, f),
        ),
{
    let mut rows: Vec<(String, String, u32, u32)> = Vec::new();
    let mut i: usize = 0;
    while i < functions.len()
        invariant
            0 <= i <= functions@.len(),
            delta_row_views(rows@) == def_views(functions@).take(i as int).map_values(
                |f: FunctionDefView| function_delta_row(file_path@, f),
            ),
        decreases functions.len() - i,
    {
        let f = &functions[i];
        assert(def_views(functions@).take(i + 1) =~= def_views(functions@).take(i as int).push(f@));
        let path = string_from_str(file_path);
        let name = f.name.clone();
        let ghost before = rows@;
        rows.push((path, name, f.start_line, f.end_line));
        assert(delta_row_views(rows@) =~= delta_row_views(before).push(
            function_delta_row(file_path@, f@),
        ));
        assert(delta_row_views(rows@) =~= def_views(functions@).take(i + 1).map_values(
            |f: FunctionDefView| function_delta_row(file_path@, f),
        ));
        i += 1;
    }
    assert(def_views(functions@).take(functions@.len() as int) =~= def_views(functions@));
    rows
}

/// The function-level changes of a commit in one file, from the file's
/// source at that commit and the commit's hunks: the functions that a
/// new-side hunk range of the file overlaps. None where the file has no
/// such range, no language or no grammar; otherwise the rows for the
/// functions of the file's parse that a range overlaps.
pub fn function_deltas_for_file(file_path: &str, source: &str, hunks: &Vec<DiffHunk>) -> (r: Vec<
    (String, String, u32, u32),
>)
    requires
        forall|i: int| 0 <= i < hunks@.len() ==> hunk_fits(#[trigger] hunks@[i]),
    ensures
        ranges_of_file(hunks@, file_path@).len() == 0 ==> r@.len() == 0,
        language_of_path(file_path@) is None ==> r@.len() == 0,
        language_of_path(file_path@) matches Some(l) && !has_grammar(l) ==> r@.len() == 0,
        match language_of_path(file_path@) {
            Some(l) => has_grammar(l) && ranges_of_file(hunks@, file_path@).len() > 0 ==> delta_row_views(r@)
                == touched_functions(
                functions_of_tree(parsed(l, source@), file_path@, l),
                ranges_of_file(hunks@, file_path@),
            ).map_values(|f: FunctionDefView| function_delta_row(file_path@, f)),
            None => true,
        },
{
    let ranges = diff_ranges_for_file(hunks, file_path);
    if ranges.len() == 0 {
        return Vec::new();
    }
    let functions = match map_diff_to_functions(file_path, source, &ranges) {
        Ok(f) => f,
        Err(_) => return Vec::new(),
    };
    let rows = function_delta_rows(file_path, &functions);
    proof {
        assert(delta_row_views(rows@).len() == rows@.len());
        assert(def_views(functions@).len() == functions@.len());
        if rows@.len() > 0 {
            assert(def_views(functions@).len() > 0);
        }
        assert(ranges@ == ranges_of_file(hunks@, file_path@));
    }
    rows
}

} // verus!
