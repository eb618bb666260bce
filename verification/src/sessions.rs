//! The transcript data source: listing sessions newest first, finding a
//! session's file, and searching session entries.
use vstd::prelude::*;
use std::fmt::Write;
use std::path::PathBuf;
use regex::Regex;
use crate::json::{clone_json, Json, JsonV, json_text, to_json_text};
use crate::text::{chars_of, digit_char, owned, seq_chars_eq, string_from_chars, trim_end_all, trim_end_all_exec};
use crate::transcript::{Config, TranscriptFile, TranscriptFileV, dot_jsonl, files_view, unknown};
use crate::human::{size_human_spec, size_human_text};

verus! {

broadcast use vstd::std_specs::vec::group_vec_axioms;

#[verifier::external_type_specification]
#[verifier::external_body]
pub struct ExRegex(regex::Regex);

/// A modification time: whole seconds since the Unix epoch (negative before
/// it) and the nanoseconds past that second (below one billion).
#[derive(Debug, Clone, Copy, PartialEq, Eq, Structural)]
pub struct ModTime {
    pub secs: i64,
    pub nanos: u32,
}

/// What the file system reports of a transcript file.
#[derive(Debug, Clone, Copy)]
pub struct FileMeta {
    pub size_bytes: u64,
    pub modified: Option<ModTime>,
}

/// One listed session.
#[derive(Debug)]
pub struct SessionInfo {
    pub session_id: String,
    pub path: PathBuf,
    pub size_bytes: u64,
    pub modified: Option<ModTime>,
}

pub struct SessionInfoV {
    pub session_id: Seq<char>,
    pub path: PathBuf,
    pub size_bytes: u64,
    pub modified: Option<ModTime>,
}

impl View for SessionInfo {
    type V = SessionInfoV;

    open spec fn view(&self) -> SessionInfoV {
        SessionInfoV {
            session_id: self.session_id@,
            path: self.path,
            size_bytes: self.size_bytes,
            modified: self.modified,
        }
    }
}

pub open spec fn sessions_view(v: Seq<SessionInfo>) -> Seq<SessionInfoV> {
    v.map_values(|s: SessionInfo| s@)
}

/// The transcript data source, over a configuration.
pub struct TranscriptDataSource {
    pub config: Config,
}

impl TranscriptDataSource {
    pub fn new(config: Config) -> (ds: TranscriptDataSource)
        ensures
            ds.config == config,
    {
        TranscriptDataSource { config }
    }
}

// ---------------------------------------------------------------------------
// Listing
// ---------------------------------------------------------------------------
/// Whether modification time `a` is strictly later than `b`; a missing time is
/// earlier than every known one.
pub open spec fn newer(a: Option<ModTime>, b: Option<ModTime>) -> bool {
    match (a, b) {
        (Some(_), None) => true,
        (Some(x), Some(y)) => x.secs > y.secs || (x.secs == y.secs && x.nanos > y.nanos),
        _ => false,
    }
}

/// The session listed for a transcript file: its id is the file name without
/// trailing `.jsonl`s, its size and time those the metadata gives (0 and none
/// when there is none).
pub open spec fn session_of(f: TranscriptFileV, m: Option<FileMeta>) -> SessionInfoV {
    SessionInfoV {
        session_id: trim_end_all(f.source_file, dot_jsonl()),
        path: f.path,
        size_bytes: match m {
            Some(meta) => meta.size_bytes,
            None => 0,
        },
        modified: match m {
            Some(meta) => meta.modified,
            None => None,
        },
    }
}

/// The sessions listed for the files, in file order.
pub open spec fn listed_sessions(files: Seq<TranscriptFileV>, metadata: Seq<Option<FileMeta>>) -> Seq<
    SessionInfoV,
> {
    Seq::new(files.len(), |i: int| session_of(files[i], metadata[i]))
}

/// Newest first: no session is newer than one listed before it.
pub open spec fn newest_first(s: Seq<SessionInfoV>) -> bool {
    forall|i: int, j: int| 0 <= i < j < s.len() ==> !newer(s[j].modified, s[i].modified)
}

/// `out` lists the items of `input` in the order `perm` (`out[k] == input[perm[k]]`,
/// each item once), keeping the input order among items with the same time.
pub open spec fn stable_arrangement(
    out: Seq<SessionInfoV>,
    input: Seq<SessionInfoV>,
    perm: Seq<int>,
) -> bool {
    &&& perm.len() == input.len()
    &&& out.len() == input.len()
    &&& forall|k: int| 0 <= k < perm.len() ==> 0 <= #[trigger] perm[k] < input.len()
    &&& forall|k: int, l: int| 0 <= k < l < perm.len() ==> perm[k] != perm[l]
    &&& forall|k: int| 0 <= k < out.len() ==> out[k] == input[#[trigger] perm[k]]
    &&& forall|k: int, l: int|
        0 <= k < l < out.len() && out[k].modified == out[l].modified ==> perm[k] < perm[l]
}

fn newer_exec(a: &Option<ModTime>, b: &Option<ModTime>) -> (r: bool)
    ensures
        r == newer(*a, *b),
{
    match (a, b) {
        (Some(_), None) => true,
        (Some(x), Some(y)) => x.secs > y.secs || (x.secs == y.secs && x.nanos > y.nanos),
        _ => false,
    }
}

/// Lists the transcript files as sessions, newest first; sessions with the same
/// time keep the order of the files. `metadata[i]` is what the file system
/// reported of `files[i]`, if anything.
pub fn list_sessions_from(files: Vec<TranscriptFile>, metadata: Vec<Option<FileMeta>>) -> (out: Vec<
    SessionInfo,
>)
    requires
        files@.len() == metadata@.len(),
    ensures
        newest_first(sessions_view(out@)),
        exists|perm: Seq<int>|
            #[trigger] stable_arrangement(
                sessions_view(out@),
                listed_sessions(files_view(files@), metadata@),
                perm,
            ),
{
    let ghost n = files@.len();
    let ghost input = listed_sessions(files_view(files@), metadata@);
    let mut out: Vec<SessionInfo> = Vec::new();
    let ghost mut perm: Seq<int> = Seq::empty();
    let suffix = chars_of(".jsonl");
    proof {
        reveal_strlit(".jsonl");
        assert(".jsonl"@ =~= dot_jsonl());
    }
    let mut j: usize = 0;
    let total = files.len();
    for file in it: files
        invariant
            j == it.index(),
            n == total,
            n == metadata@.len(),
            it.seq().len() == n,
            input == listed_sessions(files_view(it.seq()), metadata@),
            suffix@ == dot_jsonl(),
            out@.len() == it.index(),
            perm.len() == it.index(),
            forall|k: int| 0 <= k < perm.len() ==> 0 <= #[trigger] perm[k] < it.index(),
            forall|k: int, l: int| 0 <= k < l < perm.len() ==> perm[k] != perm[l],
            forall|k: int| 0 <= k < out@.len() ==> sessions_view(out@)[k] == input[#[trigger] perm[k]],
            forall|k: int, l: int|
                0 <= k < l < out@.len() && sessions_view(out@)[k].modified == sessions_view(out@)[l].modified
                    ==> perm[k] < perm[l],
            newest_first(sessions_view(out@)),
    {
        assert(files_view(it.seq())[j as int] == file@);
        let name = chars_of(file.source_file.as_str());
        let id = trim_end_all_exec(&name, &suffix);
        let (size_bytes, modified) = match metadata[j] {
            Some(m) => (m.size_bytes, m.modified),
            None => (0, None),
        };
        let s = SessionInfo {
            session_id: string_from_chars(&id),
            path: file.path,
            size_bytes,
            modified,
        };
        assert(s@ == input[j as int]);
        // The first position holding a session older than `s`.
        let mut p: usize = 0;
        while p < out.len() && !newer_exec(&s.modified, &out[p].modified)
            invariant
                p <= out@.len(),
                forall|k: int| 0 <= k < p ==> !newer(s.modified, #[trigger] out@[k].modified),
            decreases out.len() - p,
        {
            p = p + 1;
        }
        let ghost old_out = sessions_view(out@);
        let ghost old_perm = perm;
        proof {
            // every session from `p` on is older than `s`
            assert forall|k: int| p <= k < old_out.len() implies newer(s.modified, old_out[k].modified) by {
                assert(newer(s.modified, old_out[p as int].modified));
                assert(!newer(old_out[k].modified, old_out[p as int].modified));
            }
        }
        out.insert(p, s);
        proof {
            perm = perm.insert(p as int, j as int);
            let nv = sessions_view(out@);
            assert(nv =~= old_out.insert(p as int, s@));
            assert forall|k: int| 0 <= k < nv.len() implies nv[k] == input[#[trigger] perm[k]] by {
                if k < p {
                    assert(nv[k] == old_out[k] && perm[k] == old_perm[k]);
                } else if k > p {
                    assert(nv[k] == old_out[k - 1] && perm[k] == old_perm[k - 1]);
                }
            }
            assert forall|k: int, l: int| 0 <= k < l < perm.len() implies perm[k] != perm[l] by {
                if k < p && l < p {
                    assert(perm[k] == old_perm[k] && perm[l] == old_perm[l]);
                } else if k < p && l > p {
                    assert(perm[k] == old_perm[k] && perm[l] == old_perm[l - 1]);
                } else if k > p {
                    assert(perm[k] == old_perm[k - 1] && perm[l] == old_perm[l - 1]);
                } else if k == p {
                    assert(perm[l] == old_perm[l - 1]);
                } else {
                    assert(perm[k] == old_perm[k]);
                }
            }
            assert forall|i: int, l: int| 0 <= i < l < nv.len() implies !newer(nv[l].modified, nv[i].modified) by {
                if l < p {
                    assert(nv[i] == old_out[i] && nv[l] == old_out[l]);
                } else if i > p {
                    assert(nv[i] == old_out[i - 1] && nv[l] == old_out[l - 1]);
                } else if i < p && l > p {
                    assert(nv[i] == old_out[i] && nv[l] == old_out[l - 1]);
                } else if i == p {
                    assert(nv[l] == old_out[l - 1]);
                } else {
                    assert(nv[i] == old_out[i]);
                }
            }
            assert forall|k: int, l: int|
                0 <= k < l < nv.len() && nv[k].modified == nv[l].modified implies perm[k] < perm[l] by {
                if l < p {
                    assert(nv[k] == old_out[k] && nv[l] == old_out[l]);
                    assert(perm[k] == old_perm[k] && perm[l] == old_perm[l]);
                } else if k > p {
                    assert(nv[k] == old_out[k - 1] && nv[l] == old_out[l - 1]);
                    assert(perm[k] == old_perm[k - 1] && perm[l] == old_perm[l - 1]);
                } else if k < p && l > p {
                    assert(nv[k] == old_out[k] && nv[l] == old_out[l - 1]);
                    assert(perm[k] == old_perm[k] && perm[l] == old_perm[l - 1]);
                } else if k == p {
                    assert(nv[l] == old_out[l - 1]);
                } else {
                    assert(nv[k] == old_out[k]);
                    assert(perm[k] == old_perm[k]);
                }
            }
        }
        j = j + 1;
    }
    proof {
        assert(stable_arrangement(sessions_view(out@), input, perm));
    }
    out
}

// ---------------------------------------------------------------------------
// Finding a session's file
// ---------------------------------------------------------------------------
/// The position of the first file whose name, without trailing `.jsonl`s, is `session_id`.
pub open spec fn session_file_index(files: Seq<TranscriptFileV>, session_id: Seq<char>) -> Option<int> {
    if exists|i: int| 0 <= i < files.len() && trim_end_all(files[i].source_file, dot_jsonl()) == session_id {
        Some(choose|i: int|
            0 <= i < files.len() && trim_end_all(files[i].source_file, dot_jsonl()) == session_id
                && forall|j: int| 0 <= j < i ==> trim_end_all(files[j].source_file, dot_jsonl()) != session_id)
    } else {
        None
    }
}

/// Finds the transcript file of a session: the first file whose name, without
/// trailing `.jsonl`s, is `session_id`.
pub fn find_session_file(files: &Vec<TranscriptFile>, session_id: &str) -> (r: Option<usize>)
    ensures
        match r {
            Some(i) => session_file_index(files_view(files@), session_id@) == Some(i as int),
            None => session_file_index(files_view(files@), session_id@) is None,
        },
{
    let ghost fv = files_view(files@);
    let suffix = chars_of(".jsonl");
    let want = chars_of(session_id);
    proof {
        reveal_strlit(".jsonl");
        assert(".jsonl"@ =~= dot_jsonl());
    }
    let mut i: usize = 0;
    while i < files.len()
        invariant
            i <= files@.len(),
            fv == files_view(files@),
            suffix@ == dot_jsonl(),
            want@ == session_id@,
            forall|j: int| 0 <= j < i ==> trim_end_all(fv[j].source_file, dot_jsonl()) != session_id@,
        decreases files.len() - i,
    {
        let name = chars_of(files[i].source_file.as_str());
        let id = trim_end_all_exec(&name, &suffix);
        if seq_chars_eq(&id, &want) {
            proof {
                let c = choose|c: int|
                    0 <= c < fv.len() && trim_end_all(fv[c].source_file, dot_jsonl()) == session_id@
                        && forall|j: int| 0 <= j < c ==> trim_end_all(fv[j].source_file, dot_jsonl()) != session_id@;
                assert(c == i) by {
                    if c > i {
                        assert(trim_end_all(fv[i as int].source_file, dot_jsonl()) == session_id@);
                    }
                }
            }
            return Some(i);
        }
        i = i + 1;
    }
    None
}

// ---------------------------------------------------------------------------
// Formatting
// ---------------------------------------------------------------------------
/// What `chrono` writes for the UTC time `secs` seconds after the Unix epoch in
/// the format `fmt`, or `None` when the time is out of its range or the format
/// cannot be written.
pub uninterp spec fn utc_timestamp_text(secs: i64, fmt: Seq<char>) -> Option<Seq<char>>;

/// The first second of the year 10000 (UTC): before it, years have four digits.
pub open spec fn year_10000_secs() -> int {
    253402300800
}

/// The proleptic Gregorian date `(year, month, day)` of the day `z` days after
/// 1970-01-01, for `z >= 0` (days counted in 400-year eras of 146097 days).
pub open spec fn civil_date(z: int) -> (int, int, int) {
    let zz = z + 719468;
    let era = zz / 146097;
    let doe = zz - era * 146097;
    let yoe = (doe - doe / 1460 + doe / 36524 - doe / 146096) / 365;
    let doy = doe - (365 * yoe + yoe / 4 - yoe / 100);
    let mp = (5 * doy + 2) / 153;
    let d = doy - (153 * mp + 2) / 5 + 1;
    let m = if mp < 10 { mp + 3 } else { mp - 9 };
    let y = yoe + era * 400;
    (if m <= 2 { y + 1 } else { y }, m, d)
}

/// `v` (below 100) written with two digits.
pub open spec fn two_digits(v: int) -> Seq<char> {
    seq![digit_char(v / 10), digit_char(v % 10)]
}

/// `YYYY-MM-DD HH:MM` for the UTC time `secs` seconds after the epoch, for a
/// time from 1970 up to the end of the year 9999.
pub open spec fn minute_text(secs: int) -> Seq<char> {
    let (y, m, d) = civil_date(secs / 86400);
    let rem = secs % 86400;
    two_digits(y / 100) + two_digits(y % 100) + seq!['-'] + two_digits(m) + seq!['-'] + two_digits(d) + seq![' '] + two_digits(rem / 3600) + seq![':'] + two_digits(
        (rem % 3600) / 60,
    )
}

/// `chrono::DateTime::from_timestamp(secs, 0)` formatted with `fmt`. Claimed:
/// the result is a function of the seconds and the format; with the format
/// `%Y-%m-%d %H:%M` and a time from the epoch to the end of the year 9999 it is
/// the UTC date and time written with four-digit year and two-digit fields.
#[verifier::external_body]
fn format_utc_timestamp(secs: i64, fmt: &str) -> (r: Option<String>)
    ensures
        match r {
            Some(s) => utc_timestamp_text(secs, fmt@) == Some(s@),
            None => utc_timestamp_text(secs, fmt@) is None,
        },
        fmt@ == minute_format() && 0 <= secs < year_10000_secs() ==> r is Some && r->0@ == minute_text(
            secs as int,
        ),
{
    let dt = chrono::DateTime::from_timestamp(secs, 0)?;
    let mut s = String::new();
    write!(s, "{}", dt.format(fmt)).ok()?;
    Some(s)
}

pub open spec fn minute_format() -> Seq<char> {
    seq!['%', 'Y', '-', '%', 'm', '-', '%', 'd', ' ', '%', 'H', ':', '%', 'M']
}

/// The text shown for a modification time, given what `chrono` wrote for its
/// seconds (`written`): `"unknown"` when there is no time, it is before the
/// epoch, or nothing was written.
pub open spec fn time_text_spec(modified: Option<ModTime>, written: Option<Seq<char>>) -> Seq<char> {
    match modified {
        None => unknown(),
        Some(t) => if t.secs < 0 {
            unknown()
        } else {
            match written {
                Some(s) => s,
                None => unknown(),
            }
        },
    }
}

/// The modification time as `YYYY-MM-DD HH:MM` (UTC), or `"unknown"` when there
/// is none, it is before the epoch, or `chrono` cannot write it.
pub open spec fn formatted_time_spec(modified: Option<ModTime>) -> Seq<char> {
    time_text_spec(
        modified,
        match modified {
            Some(t) => utc_timestamp_text(t.secs, minute_format()),
            None => None,
        },
    )
}

/// The text shown for a modification time, given what `chrono` wrote for its
/// seconds.
pub fn time_text(modified: Option<ModTime>, written: Option<String>) -> (s: String)
    ensures
        s@ == time_text_spec(modified, opt_string_view(written)),
{
    proof {
        reveal_strlit("unknown");
        assert("unknown"@ =~= unknown());
    }
    match modified {
        Some(t) => {
            if t.secs < 0 {
                owned("unknown")
            } else {
                match written {
                    Some(s) => s,
                    None => owned("unknown"),
                }
            }
        },
        None => owned("unknown"),
    }
}

pub open spec fn opt_string_view(o: Option<String>) -> Option<Seq<char>> {
    match o {
        Some(s) => Some(s@),
        None => None,
    }
}

impl SessionInfo {
    /// The modification time as `YYYY-MM-DD HH:MM`, or `"unknown"`.
    pub fn formatted_time(&self) -> (s: String)
        ensures
            s@ == formatted_time_spec(self.modified),
            self.modified matches Some(t) && 0 <= t.secs < year_10000_secs() ==> s@ == minute_text(
                self.modified->0.secs as int,
            ),
    {
        proof {
            reveal_strlit("%Y-%m-%d %H:%M");
            assert("%Y-%m-%d %H:%M"@ =~= minute_format());
        }
        let written = match self.modified {
            Some(t) => if t.secs < 0 {
                None
            } else {
                format_utc_timestamp(t.secs, "%Y-%m-%d %H:%M")
            },
            None => None,
        };
        time_text(self.modified, written)
    }

    /// The size in bytes, KB or MB, as in `"512 B"`, `"1.5 KB"`, `"2.0 MB"`.
    pub fn size_human(&self) -> (s: String)
        ensures
            s@ == size_human_spec(self.size_bytes),
    {
        size_human_text(self.size_bytes)
    }
}

// ---------------------------------------------------------------------------
// Searching
// ---------------------------------------------------------------------------
/// An entry of a session that matched a search.
#[derive(Debug)]
pub struct SearchResult {
    pub session_id: String,
    pub entry_index: usize,
    pub entry: Json,
}

pub struct SearchResultV {
    pub session_id: Seq<char>,
    pub entry_index: usize,
    pub entry: JsonV,
}

impl View for SearchResult {
    type V = SearchResultV;

    open spec fn view(&self) -> SearchResultV {
        SearchResultV { session_id: self.session_id@, entry_index: self.entry_index, entry: self.entry@ }
    }
}

pub open spec fn results_view(v: Seq<SearchResult>) -> Seq<SearchResultV> {
    v.map_values(|r: SearchResult| r@)
}

/// Whether `regex::Regex::new` accepts the expression `text`.
pub uninterp spec fn regex_compiles(text: Seq<char>) -> bool;

/// What `regex::Regex::is_match` answers for the expression compiled from
/// `text` by `regex::Regex::new` and the haystack `haystack`.
pub uninterp spec fn regex_matches(text: Seq<char>, haystack: Seq<char>) -> bool;

/// `regex::Regex::new`: the compiled expression, or `None` when `text` is not
/// a valid expression. Claimed: whether it compiles is a function of the text.
#[verifier::external_body]
fn compile_regex(text: &str) -> (r: Option<Regex>)
    ensures
        r is Some <==> regex_compiles(text@),
{
    Regex::new(text).ok()
}

/// A search pattern: a regular expression together with the text it was
/// compiled from by `regex::Regex::new` (the only way one is made).
pub struct SearchPattern {
    text: String,
    regex: Regex,
}

impl SearchPattern {
    /// The text of the expression.
    pub closed spec fn text(&self) -> Seq<char> {
        self.text@
    }

    /// Compiles `text`: `None` exactly when it is not a valid expression.
    pub fn new(text: &str) -> (p: Option<SearchPattern>)
        ensures
            match p {
                Some(q) => q.text() == text@ && regex_compiles(text@),
                None => !regex_compiles(text@),
            },
    {
        match compile_regex(text) {
            Some(regex) => Some(SearchPattern { text: owned(text), regex }),
            None => None,
        }
    }

    /// The text of the expression.
    pub fn as_str(&self) -> (s: &str)
        ensures
            s@ == self.text(),
    {
        self.text.as_str()
    }
}

/// `regex::Regex::is_match` on the pattern's compiled expression. Claimed: the
/// answer is a function of the expression's text and the haystack (the pattern
/// was compiled from its text by `regex::Regex::new`). Which haystacks match is
/// not stated.
#[verifier::external_body]
fn regex_is_match(pattern: &SearchPattern, haystack: &str) -> (m: bool)
    ensures
        m == regex_matches(pattern.text(), haystack@),
{
    pattern.regex.is_match(haystack)
}

/// The results for the entries `k` of a session with `matched[k]`, in order.
pub open spec fn matches_spec(session_id: Seq<char>, entries: Seq<JsonV>, matched: Seq<bool>) -> Seq<SearchResultV>
    decreases entries.len(),
{
    if entries.len() == 0 || matched.len() != entries.len() {
        Seq::empty()
    } else {
        let k = entries.len() - 1;
        let rest = matches_spec(session_id, entries.drop_last(), matched.drop_last());
        if matched[k] {
            rest.push(SearchResultV { session_id, entry_index: k as usize, entry: entries[k] })
        } else {
            rest
        }
    }
}

/// Collects the search results of a session from which of its entries matched.
pub fn collect_matches(session_id: &String, entries: &Vec<Json>, matched: &Vec<bool>) -> (r: Vec<SearchResult>)
    requires
        entries@.len() == matched@.len(),
    ensures
        results_view(r@) == matches_spec(
            session_id@,
            entries@.map_values(|j: Json| j@),
            matched@,
        ),
{
    let ghost ev = entries@.map_values(|j: Json| j@);
    let mut r: Vec<SearchResult> = Vec::new();
    let mut i: usize = 0;
    while i < entries.len()
        invariant
            i <= entries@.len(),
            entries@.len() == matched@.len(),
            ev == entries@.map_values(|j: Json| j@),
            results_view(r@) == matches_spec(session_id@, ev.take(i as int), matched@.take(i as int)),
        decreases entries.len() - i,
    {
        assert(ev.take(i + 1).drop_last() =~= ev.take(i as int));
        assert(matched@.take(i + 1).drop_last() =~= matched@.take(i as int));
        let ghost before = r@;
        if matched[i] {
            let e = clone_json(&entries[i]);
            r.push(SearchResult { session_id: session_id.clone(), entry_index: i, entry: e });
            assert(results_view(r@) =~= results_view(before).push(r@[r@.len() - 1]@));
        }
        i = i + 1;
    }
    assert(ev.take(entries.len() as int) =~= ev);
    assert(matched@.take(entries.len() as int) =~= matched@);
    r
}

/// Whether the compact JSON text of an entry matches `pattern`.
pub open spec fn entry_matches(pattern: Seq<char>) -> spec_fn(JsonV) -> bool {
    |j: JsonV| regex_matches(pattern, json_text(j))
}

/// Whether each entry's compact JSON text matches `pattern`.
pub fn match_entries(entries: &Vec<Json>, pattern: &SearchPattern) -> (matched: Vec<bool>)
    ensures
        matched@ == entries@.map_values(|j: Json| j@).map_values(entry_matches(pattern.text())),
{
    let ghost ev = entries@.map_values(|j: Json| j@);
    let mut matched: Vec<bool> = Vec::new();
    let mut i: usize = 0;
    while i < entries.len()
        invariant
            i <= entries@.len(),
            ev == entries@.map_values(|j: Json| j@),
            matched@ == ev.take(i as int).map_values(entry_matches(pattern.text())),
        decreases entries.len() - i,
    {
        let text = to_json_text(&entries[i]);
        let m = regex_is_match(pattern, text.as_str());
        let ghost before = matched@;
        matched.push(m);
        assert(ev.take(i + 1) =~= ev.take(i as int).push(ev[i as int]));
        assert(matched@ =~= ev.take(i + 1).map_values(entry_matches(pattern.text())));
        i = i + 1;
    }
    assert(ev.take(entries.len() as int) =~= ev);
    matched
}

pub open spec fn loaded_view(v: Seq<(String, Vec<Json>)>) -> Seq<(Seq<char>, Seq<JsonV>)> {
    v.map_values(|p: (String, Vec<Json>)| (p.0@, p.1@.map_values(|j: Json| j@)))
}

/// The results of every session, session by session, given which entries of
/// each session matched.
pub open spec fn search_spec(sessions: Seq<(Seq<char>, Seq<JsonV>)>, matched: Seq<Seq<bool>>) -> Seq<
    SearchResultV,
>
    decreases sessions.len(),
{
    if sessions.len() == 0 || matched.len() != sessions.len() {
        Seq::empty()
    } else {
        search_spec(sessions.drop_last(), matched.drop_last()) + matches_spec(
            sessions.last().0,
            sessions.last().1,
            matched.last(),
        )
    }
}

/// Which entries of each session match `pattern`.
pub open spec fn session_matches(sessions: Seq<(Seq<char>, Seq<JsonV>)>, pattern: Seq<char>) -> Seq<
    Seq<bool>,
> {
    sessions.map_values(|p: (Seq<char>, Seq<JsonV>)| p.1.map_values(entry_matches(pattern)))
}

/// Searches the loaded sessions `(session id, entries)`: the entries whose
/// compact JSON text matches `pattern`, session by session, in entry order,
/// each with its session id and position.
pub fn search_in_sessions(sessions: &Vec<(String, Vec<Json>)>, pattern: &SearchPattern) -> (r: Vec<
    SearchResult,
>)
    ensures
        results_view(r@) == search_spec(
            loaded_view(sessions@),
            session_matches(loaded_view(sessions@), pattern.text()),
        ),
{
    let ghost lv = loaded_view(sessions@);
    let ghost all = session_matches(lv, pattern.text());
    let mut r: Vec<SearchResult> = Vec::new();
    let mut s: usize = 0;
    while s < sessions.len()
        invariant
            s <= sessions@.len(),
            lv == loaded_view(sessions@),
            all == session_matches(lv, pattern.text()),
            results_view(r@) == search_spec(lv.take(s as int), all.take(s as int)),
        decreases sessions.len() - s,
    {
        let matched = match_entries(&sessions[s].1, pattern);
        let mut found = collect_matches(&sessions[s].0, &sessions[s].1, &matched);
        let ghost before = r@;
        let ghost fv = found@;
        r.append(&mut found);
        proof {
            let w = lv.take(s + 1);
            let m = all.take(s + 1);
            assert(w.drop_last() =~= lv.take(s as int));
            assert(m.drop_last() =~= all.take(s as int));
            assert(w.last() == lv[s as int]);
            assert(m.last() == all[s as int]);
            assert(all[s as int] == matched@);
            assert(results_view(r@) =~= results_view(before) + results_view(fv));
        }
        s = s + 1;
    }
    assert(lv.take(sessions.len() as int) =~= lv);
    assert(all.take(sessions.len() as int) =~= all);
    r
}

// ---------------------------------------------------------------------------
// Laws
// ---------------------------------------------------------------------------
/// Every session that the listing shows can be found again by its id: some
/// transcript file has that name without its trailing `.jsonl`s, and the search
/// by id lands on such a file.
pub proof fn law_listed_sessions_resolve(
    files: Seq<TranscriptFileV>,
    metadata: Seq<Option<FileMeta>>,
    out: Seq<SessionInfoV>,
    perm: Seq<int>,
)
    requires
        metadata.len() == files.len(),
        stable_arrangement(out, listed_sessions(files, metadata), perm),
    ensures
        forall|k: int|
            0 <= k < out.len() ==> {
                let found = session_file_index(files, (#[trigger] out[k]).session_id);
                &&& found is Some
                &&& 0 <= found->0 < files.len()
                &&& trim_end_all(files[found->0].source_file, dot_jsonl()) == out[k].session_id
            },
{
    assert forall|k: int| 0 <= k < out.len() implies {
        let found = session_file_index(files, (#[trigger] out[k]).session_id);
        &&& found is Some
        &&& 0 <= found->0 < files.len()
        &&& trim_end_all(files[found->0].source_file, dot_jsonl()) == out[k].session_id
    } by {
        let p = perm[k];
        assert(0 <= p < files.len());
        assert(out[k] == listed_sessions(files, metadata)[p]);
        lemma_index_found(files, out[k].session_id, p);
    }
}

proof fn lemma_first_match(files: Seq<TranscriptFileV>, id: Seq<char>, p: int) -> (m: int)
    requires
        0 <= p < files.len(),
        trim_end_all(files[p].source_file, dot_jsonl()) == id,
    ensures
        0 <= m <= p,
        trim_end_all(files[m].source_file, dot_jsonl()) == id,
        forall|j: int| 0 <= j < m ==> trim_end_all(files[j].source_file, dot_jsonl()) != id,
    decreases p,
{
    if exists|j: int| 0 <= j < p && trim_end_all(files[j].source_file, dot_jsonl()) == id {
        let j = choose|j: int| 0 <= j < p && trim_end_all(files[j].source_file, dot_jsonl()) == id;
        lemma_first_match(files, id, j)
    } else {
        p
    }
}

proof fn lemma_index_found(files: Seq<TranscriptFileV>, id: Seq<char>, p: int)
    requires
        0 <= p < files.len(),
        trim_end_all(files[p].source_file, dot_jsonl()) == id,
    ensures
        session_file_index(files, id) is Some,
        0 <= session_file_index(files, id)->0 < files.len(),
        trim_end_all(files[session_file_index(files, id)->0].source_file, dot_jsonl()) == id,
{
    let m = lemma_first_match(files, id, p);
    assert(0 <= m < files.len() && trim_end_all(files[m].source_file, dot_jsonl()) == id
        && forall|j: int| 0 <= j < m ==> trim_end_all(files[j].source_file, dot_jsonl()) != id);
}

/// What the listing shows of the session at place `k`: the path, the name
/// without trailing `.jsonl`s, and the size and time that the file's metadata
/// reports (size 0 and no time when there is none).
pub open spec fn listed_as(s: SessionInfoV, f: TranscriptFileV, m: Option<FileMeta>) -> bool {
    &&& s.path == f.path
    &&& s.session_id == trim_end_all(f.source_file, ".jsonl"@)
    &&& s.size_bytes == match m {
        Some(meta) => meta.size_bytes,
        None => 0u64,
    }
    &&& s.modified == match m {
        Some(meta) => meta.modified,
        None => None,
    }
}

proof fn lemma_listed_one(files: Seq<TranscriptFileV>, metadata: Seq<Option<FileMeta>>, p: int)
    requires
        metadata.len() == files.len(),
        0 <= p < files.len(),
    ensures
        listed_as(listed_sessions(files, metadata)[p], files[p], metadata[p]),
{
    reveal_strlit(".jsonl");
    assert(".jsonl"@ =~= dot_jsonl());
}

/// Each listed session carries what its own file gives: its path, its name
/// without `.jsonl`, and the size and modification time of that file's
/// metadata; the listing is a rearrangement of the files.
pub proof fn law_listed_session_fields(
    files: Seq<TranscriptFileV>,
    metadata: Seq<Option<FileMeta>>,
    out: Seq<SessionInfoV>,
    perm: Seq<int>,
)
    requires
        metadata.len() == files.len(),
        stable_arrangement(out, listed_sessions(files, metadata), perm),
    ensures
        out.len() == files.len(),
        forall|k: int|
            0 <= k < out.len() ==> 0 <= perm[k] < files.len() && listed_as(
                #[trigger] out[k],
                files[perm[k]],
                metadata[perm[k]],
            ),
{
    assert forall|k: int| 0 <= k < out.len() implies 0 <= perm[k] < files.len() && listed_as(
        #[trigger] out[k],
        files[perm[k]],
        metadata[perm[k]],
    ) by {
        let p = perm[k];
        assert(0 <= p < files.len());
        assert(out[k] == listed_sessions(files, metadata)[p]);
        lemma_listed_one(files, metadata, p);
    }
}

} // verus!
