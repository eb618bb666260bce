use std::path::PathBuf;

use devsql::aggregate::{aggregate_records, count_subagents, records_fit, session_rows, SessionAggregate};
use devsql::cell::Cell;
use devsql::json::{to_json_text, Json};
use devsql::sessions::{
    collect_matches, find_session_file, list_sessions_from, match_entries, search_in_sessions, time_text,
    FileMeta, ModTime, SearchPattern, SessionInfo,
};
use devsql::transcript::{
    classify_project_file, file_name_string, legacy_transcript_file, transcript_files_from_walk, Config,
    TranscriptFile, WalkEntry,
};

const SLUG: &str = "-Users-douglance-Developer-lv-devsql";

fn s(x: &str) -> Json {
    Json::Str(x.to_string())
}

fn obj(members: Vec<(&str, Json)>) -> Json {
    Json::Object(members.into_iter().map(|(k, v)| (k.to_string(), v)).collect())
}

fn str_cell(x: &str) -> Cell {
    Cell::Str(x.to_string())
}

/// A walk entry for `rel` (components separated by `/`) below `root`.
fn entry(root: &str, rel: &str) -> WalkEntry {
    let comps: Vec<&str> = rel.split('/').collect();
    let name = comps[comps.len() - 1].to_string();
    let (stem, ext) = match name.rfind('.') {
        Some(i) if i > 0 => (name[..i].to_string(), Some(name[i + 1..].to_string())),
        _ => (name.clone(), None),
    };
    WalkEntry {
        path: PathBuf::from(format!("{}/{}", root, rel)),
        components: comps.iter().map(|c| Some(c.to_string())).collect(),
        file_name: Some(name),
        file_stem: Some(stem),
        extension: ext,
    }
}

fn project_entries() -> Vec<WalkEntry> {
    vec![
        entry("/d/projects", SLUG),
        entry("/d/projects", &format!("{}/sess-top.jsonl", SLUG)),
        entry("/d/projects", &format!("{}/sess-parent", SLUG)),
        entry("/d/projects", &format!("{}/sess-parent/subagents", SLUG)),
        entry("/d/projects", &format!("{}/sess-parent/subagents/agent-abc.jsonl", SLUG)),
    ]
}

fn discovered() -> Vec<TranscriptFile> {
    let legacy = vec![entry("/d/transcripts", "ses_legacy.jsonl"), entry("/d/transcripts", "notes.txt")];
    transcript_files_from_walk(project_entries(), legacy)
}

#[test]
fn list_sessions_discovers_projects_subagents_and_legacy() {
    let files = discovered();
    let meta = vec![None; files.len()];
    let sessions = list_sessions_from(files, meta);
    assert_eq!(sessions.len(), 3, "all three transcript files discovered");
    let ids: Vec<&str> = sessions.iter().map(|s| s.session_id.as_str()).collect();
    assert!(ids.contains(&"sess-top"));
    assert!(ids.contains(&"agent-abc"));
    assert!(ids.contains(&"ses_legacy"));
}

#[test]
fn discovered_files_carry_their_metadata() {
    let files = discovered();
    assert_eq!(files.len(), 3);
    assert_eq!(files[0].session_id, "sess-top");
    assert_eq!(files[0].project.as_deref(), Some(SLUG));
    assert_eq!(files[0].agent_id, None);
    assert_eq!(files[1].session_id, "sess-parent");
    assert_eq!(files[1].agent_id.as_deref(), Some("agent-abc"));
    assert_eq!(files[1].source_file, "agent-abc.jsonl");
    assert_eq!(files[2].session_id, "legacy");
    assert_eq!(files[2].project, None);
}

#[test]
fn classification_of_project_entries() {
    assert!(classify_project_file(entry("/p", "slug/a/b.jsonl")).is_none());
    assert!(classify_project_file(entry("/p", "slug/s/other/a.jsonl")).is_none());
    assert!(classify_project_file(entry("/p", "top.jsonl")).is_none());
    let f = classify_project_file(entry("/p", "slug/s/subagents/agent-1.jsonl")).expect("subagent");
    assert_eq!(f.session_id, "s");
    assert_eq!(f.agent_id.as_deref(), Some("agent-1"));

    let mut odd = entry("/p", "slug/x.jsonl");
    odd.file_stem = None;
    assert!(classify_project_file(odd).is_none());

    let mut non_utf8 = entry("/p", "slug/bad/x.jsonl");
    non_utf8.components[1] = None;
    let f = classify_project_file(non_utf8).expect("non-UTF-8 components are skipped");
    assert_eq!(f.session_id, "x");
}

#[test]
fn legacy_names() {
    assert_eq!(legacy_transcript_file(entry("/t", "ses_abc.jsonl")).session_id, "abc");
    assert_eq!(legacy_transcript_file(entry("/t", "plain.jsonl")).session_id, "plain");
    assert_eq!(legacy_transcript_file(entry("/t", "ses_.jsonl")).session_id, "");
    assert_eq!(legacy_transcript_file(entry("/t", "ses_x.y.jsonl")).session_id, "x.y");
    let mut nameless = entry("/t", "x.jsonl");
    nameless.file_name = None;
    assert_eq!(file_name_string(&nameless), "unknown");
    assert_eq!(legacy_transcript_file(nameless).source_file, "unknown");
}

#[test]
fn sessions_sorted_newest_first_and_stable() {
    let mk = |name: &str| TranscriptFile {
        path: PathBuf::from(format!("/d/{}", name)),
        source_file: name.to_string(),
        session_id: name.to_string(),
        project: None,
        agent_id: None,
    };
    let t = |secs: i64, nanos: u32| Some(FileMeta { size_bytes: 1, modified: Some(ModTime { secs, nanos }) });
    let files = vec![mk("a.jsonl"), mk("b.jsonl"), mk("c.jsonl.jsonl"), mk("d.jsonl"), mk("e.jsonl")];
    let meta = vec![t(10, 0), None, t(20, 5), t(10, 0), t(20, 7)];
    let out = list_sessions_from(files, meta);
    let ids: Vec<&str> = out.iter().map(|s| s.session_id.as_str()).collect();
    assert_eq!(ids, vec!["e", "c", "a", "d", "b"]);
    assert_eq!(out[4].size_bytes, 0);
}

#[test]
fn find_session_file_by_listed_id() {
    let files = discovered();
    assert_eq!(find_session_file(&files, "agent-abc"), Some(1));
    assert_eq!(find_session_file(&files, "ses_legacy"), Some(2));
    assert_eq!(find_session_file(&files, "missing"), None);
}

fn info(size: u64, modified: Option<ModTime>) -> SessionInfo {
    SessionInfo { session_id: "s".to_string(), path: PathBuf::from("/x"), size_bytes: size, modified }
}

#[test]
fn size_human_matches_float_formatting() {
    for n in [0u64, 1, 512, 1023] {
        assert_eq!(info(n, None).size_human(), format!("{} B", n));
    }
    let sizes = [
        1024u64, 1536, 1280, 1331, 1126, 10239, 1048575, 1048576, 1572864, 1153434, 5767168,
        123456789, 9007199254740993, u64::MAX,
    ];
    for n in sizes {
        let expected = if n < 1024 * 1024 {
            format!("{:.1} KB", n as f64 / 1024.0)
        } else {
            format!("{:.1} MB", n as f64 / (1024.0 * 1024.0))
        };
        assert_eq!(info(n, None).size_human(), expected, "size {}", n);
    }
    assert_eq!(info(1536, None).size_human(), "1.5 KB");
    assert_eq!(info(2 * 1048576, None).size_human(), "2.0 MB");
}

#[test]
fn formatted_time_in_utc_minutes() {
    assert_eq!(info(0, None).formatted_time(), "unknown");
    assert_eq!(info(0, Some(ModTime { secs: 0, nanos: 0 })).formatted_time(), "1970-01-01 00:00");
    assert_eq!(
        info(0, Some(ModTime { secs: 1754402102, nanos: 999 })).formatted_time(),
        "2025-08-05 13:55"
    );
    assert_eq!(info(0, Some(ModTime { secs: -5, nanos: 0 })).formatted_time(), "unknown");
    assert_eq!(info(0, Some(ModTime { secs: 951782400, nanos: 0 })).formatted_time(), "2000-02-29 00:00");
    assert_eq!(info(0, Some(ModTime { secs: 1735689540, nanos: 0 })).formatted_time(), "2024-12-31 23:59");
    assert_eq!(info(0, Some(ModTime { secs: 253402300799, nanos: 0 })).formatted_time(), "9999-12-31 23:59");
    assert_eq!(info(0, Some(ModTime { secs: 253402300800, nanos: 0 })).formatted_time(), "+10000-01-01 00:00");
    assert_eq!(info(0, Some(ModTime { secs: i64::MAX, nanos: 0 })).formatted_time(), "unknown");
}

#[test]
fn time_text_from_written_text() {
    let t = Some(ModTime { secs: 60, nanos: 0 });
    assert_eq!(time_text(t, Some("1970-01-01 00:01".to_string())), "1970-01-01 00:01");
    assert_eq!(time_text(t, None), "unknown");
    assert_eq!(time_text(None, Some("x".to_string())), "unknown");
    assert_eq!(time_text(Some(ModTime { secs: -1, nanos: 5 }), Some("x".to_string())), "unknown");
}

#[test]
fn search_finds_matching_entries() {
    let sessions = vec![
        ("one".to_string(), vec![obj(vec![("text", s("hello"))]), obj(vec![("text", s("bye"))])]),
        ("two".to_string(), vec![obj(vec![("n", Json::Int(42))])]),
    ];
    let pattern = SearchPattern::new("hel+o|42").expect("regex");
    assert_eq!(pattern.as_str(), "hel+o|42");
    let results = search_in_sessions(&sessions, &pattern);
    assert_eq!(results.len(), 2);
    assert_eq!(results[0].session_id, "one");
    assert_eq!(results[0].entry_index, 0);
    assert_eq!(results[1].session_id, "two");
    assert_eq!(results[1].entry_index, 0);
    assert_eq!(to_json_text(&results[1].entry), "{\"n\":42}");

    let on_text = SearchPattern::new("^\\{\"text\":\"bye\"\\}$").expect("regex");
    let results = search_in_sessions(&sessions, &on_text);
    assert_eq!(results.len(), 1);
    assert_eq!(results[0].entry_index, 1);
}

#[test]
fn invalid_patterns_are_refused() {
    assert!(SearchPattern::new("(unclosed").is_none());
    assert!(SearchPattern::new("").is_some());
}

#[test]
fn match_entries_reads_compact_json() {
    let entries = vec![obj(vec![("a", Json::Int(1))]), s("x y"), Json::Array(vec![Json::Null, Json::Bool(true)])];
    let pattern = SearchPattern::new("^(\\{\"a\":1\\}|\\[null,true\\])$").expect("regex");
    assert_eq!(match_entries(&entries, &pattern), vec![true, false, true]);
}

#[test]
fn collect_matches_keeps_flagged_entries() {
    let entries = vec![Json::Int(1), Json::Int(2), Json::Int(3)];
    let r = collect_matches(&"s".to_string(), &entries, &vec![false, true, true]);
    assert_eq!(r.len(), 2);
    assert_eq!(r[0].entry_index, 1);
    assert_eq!(r[1].entry_index, 2);
}

#[test]
fn config_keeps_its_directories() {
    let c = Config::new_with_codex_data_dir(PathBuf::from("/a"), PathBuf::from("/b"));
    assert_eq!(c.data_dir, PathBuf::from("/a"));
    assert_eq!(c.codex_data_dir, PathBuf::from("/b"));
}

fn rich_records() -> Vec<Json> {
    let usage = |i: i64, o: i64, r: i64, c: i64| {
        obj(vec![(
            "usage",
            obj(vec![
                ("input_tokens", Json::Int(i)),
                ("output_tokens", Json::Int(o)),
                ("cache_read_input_tokens", Json::Int(r)),
                ("cache_creation_input_tokens", Json::Int(c)),
            ]),
        )])
    };
    vec![
        obj(vec![
            ("type", s("user")),
            ("content", s("hi")),
            ("timestamp", s("2026-06-01T10:00:00.000Z")),
            ("cwd", s("/Users/douglance/Developer/lv/devsql")),
            ("gitBranch", s("main")),
            ("version", s("2.1.100")),
        ]),
        obj(vec![
            ("type", s("assistant")),
            ("timestamp", s("2026-06-01T10:00:05.000Z")),
            ("version", s("2.1.100")),
            ("message", usage(6, 127, 100, 200)),
        ]),
        obj(vec![("type", s("ai-title")), ("aiTitle", s("Fix the widget")), ("sessionId", s("sess-rich"))]),
        obj(vec![
            ("type", s("pr-link")),
            ("sessionId", s("sess-rich")),
            ("prNumber", Json::Int(42)),
            ("prUrl", s("https://github.com/org/repo/pull/42")),
            ("timestamp", s("2026-06-01T10:01:00.000Z")),
        ]),
        obj(vec![
            ("type", s("user")),
            ("content", s("more")),
            ("timestamp", s("2026-06-01T10:02:00.000Z")),
            ("cwd", s("/elsewhere")),
            ("gitBranch", s("other")),
            ("version", s("2.1.101")),
        ]),
        obj(vec![
            ("type", s("assistant")),
            ("timestamp", s("2026-06-01T10:02:30.000Z")),
            ("version", s("2.1.101")),
            ("message", usage(4, 3, 50, 25)),
        ]),
    ]
}

#[test]
fn sessions_table_aggregates_per_session() {
    let rich_file = TranscriptFile {
        path: PathBuf::from("/d/projects/x/sess-rich.jsonl"),
        source_file: "sess-rich.jsonl".to_string(),
        session_id: "sess-rich".to_string(),
        project: Some(SLUG.to_string()),
        agent_id: None,
    };
    let sub = |agent: &str| TranscriptFile {
        path: PathBuf::from(format!("/d/projects/x/sess-rich/subagents/{}.jsonl", agent)),
        source_file: format!("{}.jsonl", agent),
        session_id: "sess-rich".to_string(),
        project: Some(SLUG.to_string()),
        agent_id: Some(agent.to_string()),
    };
    let legacy = TranscriptFile {
        path: PathBuf::from("/d/transcripts/ses_old.jsonl"),
        source_file: "ses_old.jsonl".to_string(),
        session_id: "old".to_string(),
        project: None,
        agent_id: None,
    };
    let sub_record = obj(vec![
        ("type", s("assistant")),
        ("timestamp", s("2026-06-01T10:03:00.000Z")),
        (
            "message",
            obj(vec![(
                "usage",
                obj(vec![
                    ("input_tokens", Json::Int(999)),
                    ("output_tokens", Json::Int(999)),
                    ("cache_read_input_tokens", Json::Int(999)),
                    ("cache_creation_input_tokens", Json::Int(999)),
                ]),
            )]),
        ),
    ]);
    let files = vec![rich_file, sub("agent-one"), sub("agent-two"), legacy];
    let records = vec![
        Some(rich_records()),
        Some(vec![sub_record]),
        None,
        Some(vec![obj(vec![
            ("type", s("user")),
            ("content", s("legacy")),
            ("timestamp", s("2025-01-01T00:00:00.000Z")),
        ])]),
    ];
    let rows = session_rows(&files, &records);
    assert_eq!(rows.len(), 2, "one row per session file");

    let rich = &rows[0];
    assert_eq!(rich.get("session_id"), Some(&str_cell("sess-rich")));
    assert_eq!(rich.get("project"), Some(&str_cell(SLUG)));
    assert_eq!(rich.get("cwd"), Some(&str_cell("/Users/douglance/Developer/lv/devsql")), "cwd is first seen");
    assert_eq!(rich.get("git_branch"), Some(&str_cell("main")), "first seen");
    assert_eq!(rich.get("version"), Some(&str_cell("2.1.101")), "last seen");
    assert_eq!(rich.get("title"), Some(&str_cell("Fix the widget")));
    assert_eq!(rich.get("first_timestamp"), Some(&str_cell("2026-06-01T10:00:00.000Z")));
    assert_eq!(rich.get("last_timestamp"), Some(&str_cell("2026-06-01T10:02:30.000Z")));
    assert_eq!(rich.get("user_message_count"), Some(&Cell::I64(2)));
    assert_eq!(rich.get("assistant_message_count"), Some(&Cell::I64(2)));
    assert_eq!(rich.get("subagent_count"), Some(&Cell::I64(2)));
    assert_eq!(rich.get("total_input_tokens"), Some(&Cell::I64(10)));
    assert_eq!(rich.get("total_output_tokens"), Some(&Cell::I64(130)));
    assert_eq!(rich.get("total_cache_read_input_tokens"), Some(&Cell::I64(150)));
    assert_eq!(rich.get("total_cache_creation_input_tokens"), Some(&Cell::I64(225)));
    assert_eq!(rich.get("pr_url"), Some(&str_cell("https://github.com/org/repo/pull/42")));
    assert_eq!(rich.get("pr_number"), Some(&Cell::I64(42)));

    let legacy = &rows[1];
    assert_eq!(legacy.get("session_id"), Some(&str_cell("old")));
    assert_eq!(legacy.get("project"), None);
    assert_eq!(legacy.get("user_message_count"), Some(&Cell::I64(1)));
    assert_eq!(legacy.get("assistant_message_count"), Some(&Cell::I64(0)));
    assert_eq!(legacy.get("subagent_count"), Some(&Cell::I64(0)));
    assert_eq!(legacy.get("total_input_tokens"), Some(&Cell::I64(0)));
    assert_eq!(legacy.get("title"), None);
    assert_eq!(legacy.get("pr_number"), None);
}

#[test]
fn timestamps_are_least_and_greatest() {
    let recs = vec![
        obj(vec![("timestamp", s("2026-01-02"))]),
        obj(vec![("timestamp", s("2025-12-31"))]),
        obj(vec![("timestamp", Json::Int(5))]),
        obj(vec![("timestamp", s("2026-03-01"))]),
        obj(vec![]),
    ];
    let agg = aggregate_records(&recs);
    assert_eq!(agg.first_timestamp.as_deref(), Some("2025-12-31"));
    assert_eq!(agg.last_timestamp.as_deref(), Some("2026-03-01"));
    assert_eq!(agg.user_message_count, 0);
}

#[test]
fn aggregate_observes_one_record_at_a_time() {
    let mut agg = SessionAggregate::new();
    agg.observe(&obj(vec![("type", s("pr-link")), ("prNumber", s("17")), ("prUrl", Json::Int(3))]));
    assert_eq!(agg.pr_number, Some(17));
    assert_eq!(agg.pr_url, None);
    agg.observe(&obj(vec![("type", s("ai-title"))]));
    assert_eq!(agg.title, None);
    agg.observe(&obj(vec![("type", s("assistant")), ("message", obj(vec![("usage", obj(vec![("input_tokens", s("8"))]))]))]));
    assert_eq!(agg.assistant_message_count, 1);
    assert_eq!(agg.total_input_tokens, 8);
}

#[test]
fn subagents_counted_by_project_and_session() {
    let f = |proj: Option<&str>, sid: &str, agent: Option<&str>| TranscriptFile {
        path: PathBuf::from("/x"),
        source_file: "x.jsonl".to_string(),
        session_id: sid.to_string(),
        project: proj.map(|p| p.to_string()),
        agent_id: agent.map(|a| a.to_string()),
    };
    let files = vec![
        f(Some("p"), "s", None),
        f(Some("p"), "s", Some("a1")),
        f(Some("q"), "s", Some("a2")),
        f(Some("p"), "t", Some("a3")),
        f(Some("p"), "s", Some("a4")),
    ];
    assert_eq!(count_subagents(&files, &files[0]), 2);
    assert_eq!(count_subagents(&files, &f(None, "s", None)), 0);
}

#[test]
fn counters_that_would_overflow_are_detected() {
    let usage = |n: i64| {
        obj(vec![
            ("type", s("assistant")),
            ("message", obj(vec![("usage", obj(vec![("input_tokens", Json::Int(n))]))])),
        ])
    };
    assert!(records_fit(&rich_records()));
    assert!(records_fit(&vec![usage(i64::MAX)]));
    assert!(!records_fit(&vec![usage(i64::MAX), usage(1)]));
    assert!(records_fit(&vec![usage(i64::MAX), usage(-5), usage(5)]));
    assert!(!records_fit(&vec![usage(i64::MIN), usage(-1)]));
    let agg = SessionAggregate::new();
    assert!(agg.fits_after(&usage(i64::MAX)));
    assert!(agg.fits_after(&obj(vec![("type", s("user"))])));
}
