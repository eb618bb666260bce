//! Transcript discovery and the session listing of the transcript data source.
//!
//! Transcripts live in two layouts under the data directory:
//! - `projects/<slug>/<sessionId>.jsonl` (top-level sessions),
//! - `projects/<slug>/<sessionId>/subagents/<agent>.jsonl` (subagents),
//! - `transcripts/*.jsonl` (the legacy flat layout).
//!
//! Walking the directories is the application's part; it hands each walked
//! entry to this module as a [`WalkEntry`].
use vstd::prelude::*;
use std::path::PathBuf;
use crate::text::{chars_of, owned, str_eq, string_from_chars, strip_prefix, strip_prefix_exec,
    strip_suffix, strip_suffix_exec, trim_end_all, trim_end_all_exec};

verus! {

broadcast use vstd::std_specs::vec::group_vec_axioms;

#[verifier::external_type_specification]
#[verifier::external_body]
pub struct ExPathBuf(std::path::PathBuf);

/// Where the data lives: the transcript data directory and the Codex data directory.
pub struct Config {
    pub data_dir: PathBuf,
    pub codex_data_dir: PathBuf,
}

impl Config {
    /// A configuration for the given transcript and Codex data directories.
    pub fn new_with_codex_data_dir(data_dir: PathBuf, codex_data_dir: PathBuf) -> (c: Config)
        ensures
            c.data_dir == data_dir,
            c.codex_data_dir == codex_data_dir,
    {
        Config { data_dir, codex_data_dir }
    }
}

/// An entry found by walking a directory: its path, the components of the path
/// below the walked directory (`None` for one that is not valid UTF-8), and what
/// `Path::file_name`, `Path::file_stem` and `Path::extension` give for it as UTF-8.
pub struct WalkEntry {
    pub path: PathBuf,
    pub components: Vec<Option<String>>,
    pub file_name: Option<String>,
    pub file_stem: Option<String>,
    pub extension: Option<String>,
}

/// A discovered transcript file with its derived metadata.
#[derive(Debug)]
pub struct TranscriptFile {
    pub path: PathBuf,
    /// File name, e.g. `sess-top.jsonl` or `agent-abc.jsonl`.
    pub source_file: String,
    /// Session id: file stem for top-level sessions, the parent session directory
    /// for subagent transcripts, and for legacy files the file stem with a
    /// leading `ses_` stripped.
    pub session_id: String,
    /// Project slug directory name, or `None` for legacy flat files.
    pub project: Option<String>,
    /// Agent file stem for subagent transcripts, or `None` otherwise.
    pub agent_id: Option<String>,
}

pub open spec fn opt_view(o: Option<String>) -> Option<Seq<char>> {
    match o {
        Some(s) => Some(s@),
        None => None,
    }
}

pub struct WalkEntryV {
    pub path: PathBuf,
    pub components: Seq<Option<Seq<char>>>,
    pub file_name: Option<Seq<char>>,
    pub file_stem: Option<Seq<char>>,
    pub extension: Option<Seq<char>>,
}

pub struct TranscriptFileV {
    pub path: PathBuf,
    pub source_file: Seq<char>,
    pub session_id: Seq<char>,
    pub project: Option<Seq<char>>,
    pub agent_id: Option<Seq<char>>,
}

impl View for WalkEntry {
    type V = WalkEntryV;

    open spec fn view(&self) -> WalkEntryV {
        WalkEntryV {
            path: self.path,
            components: self.components@.map_values(|c: Option<String>| opt_view(c)),
            file_name: opt_view(self.file_name),
            file_stem: opt_view(self.file_stem),
            extension: opt_view(self.extension),
        }
    }
}

impl View for TranscriptFile {
    type V = TranscriptFileV;

    open spec fn view(&self) -> TranscriptFileV {
        TranscriptFileV {
            path: self.path,
            source_file: self.source_file@,
            session_id: self.session_id@,
            project: opt_view(self.project),
            agent_id: opt_view(self.agent_id),
        }
    }
}

pub open spec fn files_view(v: Seq<TranscriptFile>) -> Seq<TranscriptFileV> {
    v.map_values(|f: TranscriptFile| f@)
}

pub open spec fn entries_view(v: Seq<WalkEntry>) -> Seq<WalkEntryV> {
    v.map_values(|e: WalkEntry| e@)
}

pub open spec fn unknown() -> Seq<char> {
    seq!['u', 'n', 'k', 'n', 'o', 'w', 'n']
}

pub open spec fn jsonl_ext() -> Seq<char> {
    seq!['j', 's', 'o', 'n', 'l']
}

pub open spec fn dot_jsonl() -> Seq<char> {
    seq!['.', 'j', 's', 'o', 'n', 'l']
}

pub open spec fn ses_prefix() -> Seq<char> {
    seq!['s', 'e', 's', '_']
}

pub open spec fn subagents_dir() -> Seq<char> {
    seq!['s', 'u', 'b', 'a', 'g', 'e', 'n', 't', 's']
}

/// The file name of an entry, or `"unknown"` when it has none that is UTF-8.
pub open spec fn file_name_spec(e: WalkEntryV) -> Seq<char> {
    match e.file_name {
        Some(n) => n,
        None => unknown(),
    }
}

/// The UTF-8 components, in order (the others are skipped).
pub open spec fn utf8_components(c: Seq<Option<Seq<char>>>) -> Seq<Seq<char>>
    decreases c.len(),
{
    if c.len() == 0 {
        Seq::empty()
    } else {
        match c.last() {
            Some(s) => utf8_components(c.drop_last()).push(s),
            None => utf8_components(c.drop_last()),
        }
    }
}

/// What an entry below `projects/` is: `<slug>/<sessionId>.jsonl` is a top-level
/// session, `<slug>/<sessionId>/subagents/<agent>.jsonl` a subagent transcript,
/// anything else (or a file stem that is not UTF-8) nothing.
pub open spec fn classify_spec(e: WalkEntryV) -> Option<TranscriptFileV> {
    let comps = utf8_components(e.components);
    match e.file_stem {
        None => None,
        Some(stem) => if comps.len() == 2 {
            Some(
                TranscriptFileV {
                    path: e.path,
                    source_file: file_name_spec(e),
                    session_id: stem,
                    project: Some(comps[0]),
                    agent_id: None,
                },
            )
        } else if comps.len() == 4 && comps[2] == subagents_dir() {
            Some(
                TranscriptFileV {
                    path: e.path,
                    source_file: file_name_spec(e),
                    session_id: comps[1],
                    project: Some(comps[0]),
                    agent_id: Some(stem),
                },
            )
        } else {
            None
        },
    }
}

/// The session id of a legacy file: its stem (the name without its `.jsonl`
/// extension), with a leading `ses_` stripped when there is one.
pub open spec fn legacy_session_id(source_file: Seq<char>) -> Seq<char> {
    let stem = match strip_suffix(source_file, dot_jsonl()) {
        Some(s) => s,
        None => source_file,
    };
    match strip_prefix(stem, ses_prefix()) {
        Some(id) => id,
        None => stem,
    }
}

/// The transcript file of a legacy entry.
pub open spec fn legacy_spec(e: WalkEntryV) -> TranscriptFileV {
    TranscriptFileV {
        path: e.path,
        source_file: file_name_spec(e),
        session_id: legacy_session_id(file_name_spec(e)),
        project: None,
        agent_id: None,
    }
}

/// Whether an entry has the extension `jsonl`.
pub open spec fn is_jsonl(e: WalkEntryV) -> bool {
    e.extension == Some(jsonl_ext())
}

/// The transcript files found among the entries walked under `projects/`, in walk order.
pub open spec fn project_files_spec(es: Seq<WalkEntryV>) -> Seq<TranscriptFileV>
    decreases es.len(),
{
    if es.len() == 0 {
        Seq::empty()
    } else {
        let rest = project_files_spec(es.drop_last());
        let e = es.last();
        if is_jsonl(e) && classify_spec(e) is Some {
            rest.push(classify_spec(e)->0)
        } else {
            rest
        }
    }
}

/// The transcript files found among the entries walked in `transcripts/`, in walk order.
pub open spec fn legacy_files_spec(es: Seq<WalkEntryV>) -> Seq<TranscriptFileV>
    decreases es.len(),
{
    if es.len() == 0 {
        Seq::empty()
    } else {
        let rest = legacy_files_spec(es.drop_last());
        let e = es.last();
        if is_jsonl(e) {
            rest.push(legacy_spec(e))
        } else {
            rest
        }
    }
}

fn opt_clone(o: &Option<String>) -> (r: Option<String>)
    ensures
        opt_view(r) == opt_view(*o),
{
    match o {
        Some(s) => Some(s.clone()),
        None => None,
    }
}

/// The file name of an entry, or `"unknown"`.
pub fn file_name_string(entry: &WalkEntry) -> (s: String)
    ensures
        s@ == file_name_spec(entry@),
{
    match &entry.file_name {
        Some(n) => n.clone(),
        None => {
            proof {
                reveal_strlit("unknown");
                assert("unknown"@ =~= unknown());
            }
            owned("unknown")
        },
    }
}

fn is_jsonl_exec(entry: &WalkEntry) -> (b: bool)
    ensures
        b == is_jsonl(entry@),
{
    match &entry.extension {
        Some(e) => {
            proof {
                reveal_strlit("jsonl");
                assert("jsonl"@ =~= jsonl_ext());
            }
            str_eq(e.as_str(), "jsonl")
        },
        None => false,
    }
}

fn utf8_components_exec(c: &Vec<Option<String>>) -> (r: Vec<String>)
    ensures
        r@.map_values(|s: String| s@) == utf8_components(
            c@.map_values(|o: Option<String>| opt_view(o)),
        ),
{
    let ghost cv = c@.map_values(|o: Option<String>| opt_view(o));
    let mut r: Vec<String> = Vec::new();
    let mut i: usize = 0;
    while i < c.len()
        invariant
            i <= c@.len(),
            cv == c@.map_values(|o: Option<String>| opt_view(o)),
            r@.map_values(|s: String| s@) == utf8_components(cv.take(i as int)),
        decreases c.len() - i,
    {
        assert(cv.take(i + 1).drop_last() =~= cv.take(i as int));
        let ghost before = r@;
        match &c[i] {
            Some(s) => {
                r.push(s.clone());
                assert(r@.map_values(|s: String| s@) =~= before.map_values(|s: String| s@).push(
                    s@,
                ));
            },
            None => {},
        }
        i = i + 1;
    }
    assert(cv.take(c.len() as int) =~= cv);
    r
}

/// Classifies a `.jsonl` entry found under `projects/` (its components are those
/// below `projects/`).
pub fn classify_project_file(entry: WalkEntry) -> (r: Option<TranscriptFile>)
    ensures
        match r {
            Some(f) => classify_spec(entry@) == Some(f@),
            None => classify_spec(entry@) is None,
        },
{
    let comps = utf8_components_exec(&entry.components);
    let ghost cv = comps@.map_values(|s: String| s@);
    let source_file = file_name_string(&entry);
    let stem = match &entry.file_stem {
        Some(s) => s.clone(),
        None => {
            return None;
        },
    };
    if comps.len() == 2 {
        let project = comps[0].clone();
        assert(cv[0] == comps@[0]@);
        Some(
            TranscriptFile {
                path: entry.path,
                source_file,
                session_id: stem,
                project: Some(project),
                agent_id: None,
            },
        )
    } else if comps.len() == 4 && str_eq(comps[2].as_str(), "subagents") {
        proof {
            reveal_strlit("subagents");
            assert("subagents"@ =~= subagents_dir());
        }
        assert(cv[0] == comps@[0]@ && cv[1] == comps@[1]@ && cv[2] == comps@[2]@);
        let project = comps[0].clone();
        let session_id = comps[1].clone();
        Some(
            TranscriptFile {
                path: entry.path,
                source_file,
                session_id,
                project: Some(project),
                agent_id: Some(stem),
            },
        )
    } else {
        proof {
            reveal_strlit("subagents");
            assert("subagents"@ =~= subagents_dir());
            if comps.len() == 4 {
                assert(cv[2] == comps@[2]@);
            }
        }
        None
    }
}

/// The transcript file of an entry of the legacy `transcripts/` directory.
pub fn legacy_transcript_file(entry: WalkEntry) -> (f: TranscriptFile)
    ensures
        f@ == legacy_spec(entry@),
{
    let source_file = file_name_string(&entry);
    let chars = chars_of(source_file.as_str());
    let prefix = chars_of("ses_");
    let suffix = chars_of(".jsonl");
    proof {
        reveal_strlit("ses_");
        assert("ses_"@ =~= ses_prefix());
        reveal_strlit(".jsonl");
        assert(".jsonl"@ =~= dot_jsonl());
    }
    let stem = match strip_suffix_exec(&chars, &suffix) {
        Some(s) => s,
        None => chars,
    };
    let session_id = match strip_prefix_exec(&stem, &prefix) {
        Some(id) => string_from_chars(&id),
        None => string_from_chars(&stem),
    };
    TranscriptFile {
        path: entry.path,
        source_file,
        session_id,
        project: None,
        agent_id: None,
    }
}

/// The transcript files among the entries walked under `projects/` and in the
/// legacy `transcripts/` directory: the `.jsonl` entries that classify, in walk
/// order, then every legacy `.jsonl` entry, in walk order.
pub fn transcript_files_from_walk(
    project_entries: Vec<WalkEntry>,
    legacy_entries: Vec<WalkEntry>,
) -> (files: Vec<TranscriptFile>)
    ensures
        files_view(files@) == project_files_spec(entries_view(project_entries@))
            + legacy_files_spec(entries_view(legacy_entries@)),
{
    let ghost pv = entries_view(project_entries@);
    let ghost lv = entries_view(legacy_entries@);
    let mut files: Vec<TranscriptFile> = Vec::new();
    for entry in it: project_entries
        invariant
            pv == entries_view(it.seq()),
            files_view(files@) == project_files_spec(pv.take(it.index() as int)),
    {
        let ghost k = it.index() as int;
        assert(pv.take(k + 1).drop_last() =~= pv.take(k));
        assert(pv[k] == entry@);
        let ghost before = files@;
        if is_jsonl_exec(&entry) {
            match classify_project_file(entry) {
                Some(f) => {
                    files.push(f);
                    assert(files_view(files@) =~= files_view(before).push(f@));
                },
                None => {},
            }
        }
    }
    assert(pv.take(pv.len() as int) =~= pv);
    let ghost n = files@.len();
    for entry in it: legacy_entries
        invariant
            lv == entries_view(it.seq()),
            n <= files@.len(),
            files_view(files@) == project_files_spec(pv) + legacy_files_spec(
                lv.take(it.index() as int),
            ),
    {
        let ghost k = it.index() as int;
        assert(lv.take(k + 1).drop_last() =~= lv.take(k));
        assert(lv[k] == entry@);
        let ghost before = files@;
        if is_jsonl_exec(&entry) {
            let f = legacy_transcript_file(entry);
            files.push(f);
            assert(files_view(files@) =~= files_view(before).push(f@));
        }
    }
    assert(lv.take(lv.len() as int) =~= lv);
    files
}

proof fn lemma_utf8_components_all(c: Seq<Option<Seq<char>>>, r: Seq<Seq<char>>)
    requires
        c.len() == r.len(),
        forall|k: int| 0 <= k < c.len() ==> c[k] == Some(#[trigger] r[k]),
    ensures
        utf8_components(c) == r,
    decreases c.len(),
{
    if c.len() > 0 {
        assert forall|k: int| 0 <= k < c.drop_last().len() implies c.drop_last()[k] == Some(
            #[trigger] r.drop_last()[k],
        ) by {
            assert(c.drop_last()[k] == c[k]);
        }
        lemma_utf8_components_all(c.drop_last(), r.drop_last());
        assert(c.last() == Some(r.last()));
        assert(r.drop_last().push(r.last()) =~= r);
    }
}

/// A file `<slug>/<session>.jsonl` below `projects/` is the top-level session
/// named by its stem, in project `slug`, with no agent.
pub proof fn law_top_level_file(e: WalkEntryV, slug: Seq<char>, file: Seq<char>, stem: Seq<char>)
    requires
        e.components == seq![Some(slug), Some(file)],
        e.file_stem == Some(stem),
    ensures
        classify_spec(e) == Some(
            TranscriptFileV {
                path: e.path,
                source_file: file_name_spec(e),
                session_id: stem,
                project: Some(slug),
                agent_id: None,
            },
        ),
{
    lemma_utf8_components_all(e.components, seq![slug, file]);
}

/// A file `<slug>/<session>/subagents/<agent>.jsonl` below `projects/` is a
/// subagent transcript of session `session` in project `slug` (the first
/// component, as for the session's own file), with the file's stem as agent.
pub proof fn law_subagent_file(
    e: WalkEntryV,
    slug: Seq<char>,
    session: Seq<char>,
    file: Seq<char>,
    stem: Seq<char>,
)
    requires
        e.components == seq![Some(slug), Some(session), Some("subagents"@), Some(file)],
        e.file_stem == Some(stem),
    ensures
        classify_spec(e) == Some(
            TranscriptFileV {
                path: e.path,
                source_file: file_name_spec(e),
                session_id: session,
                project: Some(slug),
                agent_id: Some(stem),
            },
        ),
{
    reveal_strlit("subagents");
    assert("subagents"@ =~= subagents_dir());
    lemma_utf8_components_all(e.components, seq![slug, session, "subagents"@, file]);
}

/// A subagent transcript under a session's directory belongs to the session
/// whose own file sits beside that directory: same project, same session id.
pub proof fn law_subagent_belongs_to_its_session(
    top: WalkEntryV,
    sub: WalkEntryV,
    slug: Seq<char>,
    session: Seq<char>,
    file: Seq<char>,
    agent_file: Seq<char>,
    agent: Seq<char>,
)
    requires
        top.components == seq![Some(slug), Some(file)],
        top.file_stem == Some(session),
        sub.components == seq![Some(slug), Some(session), Some("subagents"@), Some(agent_file)],
        sub.file_stem == Some(agent),
    ensures
        classify_spec(top) is Some && classify_spec(sub) is Some,
        classify_spec(sub)->0.agent_id is Some,
        classify_spec(top)->0.agent_id is None,
        classify_spec(sub)->0.project == classify_spec(top)->0.project,
        classify_spec(sub)->0.session_id == classify_spec(top)->0.session_id,
{
    law_top_level_file(top, slug, file, session);
    law_subagent_file(sub, slug, session, agent_file, agent);
}

/// A legacy file `<name>.jsonl` in `transcripts/` has no project and no agent,
/// and its session id is `name` without a leading `ses_`.
pub proof fn law_legacy_file(e: WalkEntryV, name: Seq<char>)
    requires
        e.file_name == Some(name + ".jsonl"@),
    ensures
        legacy_spec(e).project is None,
        legacy_spec(e).agent_id is None,
        legacy_spec(e).source_file == name + ".jsonl"@,
        name.len() >= 4 && name.take(4) == "ses_"@ ==> legacy_spec(e).session_id == name.skip(4),
        !(name.len() >= 4 && name.take(4) == "ses_"@) ==> legacy_spec(e).session_id == name,
{
    reveal_strlit(".jsonl");
    reveal_strlit("ses_");
    assert(".jsonl"@ =~= dot_jsonl());
    assert("ses_"@ =~= ses_prefix());
    let f = name + ".jsonl"@;
    assert(f.skip(f.len() - 6) =~= ".jsonl"@);
    assert(f.take(f.len() - 6) =~= name);
}

} // verus!
