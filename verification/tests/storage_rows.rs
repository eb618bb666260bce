use std::path::PathBuf;

use devsql::cell::{json_value_to_glue_value, Cell, Row};
use devsql::json::Json;
use devsql::storage::{
    fetch_row, is_virtual_table, jhistory_json_to_data_row, jhistory_rows, json_to_data_row_with_meta,
    json_value_as_i64, json_value_as_string, listed_virtual_tables, normalize_ts_seconds,
    parse_todo_filename, refusal_message, is_todo_file, TableSource, todo_file_rows, todo_json_to_data_row, todo_rows,
    transcript_rows, virtual_table, StoreChange, TodoFile, TranscriptRecords, VirtualTable,
};
use devsql::transcript::TranscriptFile;

fn s(x: &str) -> Json {
    Json::Str(x.to_string())
}

fn obj(members: Vec<(&str, Json)>) -> Json {
    Json::Object(members.into_iter().map(|(k, v)| (k.to_string(), v)).collect())
}

fn str_cell(x: &str) -> Cell {
    Cell::Str(x.to_string())
}

fn top_level_file() -> TranscriptFile {
    TranscriptFile {
        path: PathBuf::from("/data/projects/-Users-douglance-Developer-lv-devsql/sess-top.jsonl"),
        source_file: "sess-top.jsonl".to_string(),
        session_id: "sess-top".to_string(),
        project: Some("-Users-douglance-Developer-lv-devsql".to_string()),
        agent_id: None,
    }
}

fn slug_file() -> TranscriptFile {
    TranscriptFile {
        path: PathBuf::from("/data/projects/slug/s1.jsonl"),
        source_file: "s1.jsonl".to_string(),
        session_id: "s1".to_string(),
        project: Some("slug".to_string()),
        agent_id: None,
    }
}

#[test]
fn test_parse_todo_filename() {
    let (workspace, agent) = parse_todo_filename("abc123-agent-def456.json");
    assert_eq!(workspace, "abc123");
    assert_eq!(agent, "def456");

    let (workspace, agent) = parse_todo_filename("simple.json");
    assert_eq!(workspace, "simple");
    assert_eq!(agent, "unknown");
}

#[test]
fn test_normalize_ts_seconds() {
    assert_eq!(normalize_ts_seconds(1_754_402_102), 1_754_402_102);
    assert_eq!(normalize_ts_seconds(1_754_402_102_000), 1_754_402_102);
}

#[test]
fn test_json_value_to_glue_value() {
    assert_eq!(json_value_to_glue_value(&Json::Str("test".to_string())), Cell::Str("test".to_string()));
    assert_eq!(json_value_to_glue_value(&Json::Bool(true)), Cell::Bool(true));
    assert_eq!(json_value_to_glue_value(&Json::Int(42)), Cell::I64(42));
}

#[test]
fn test_jhistory_json_to_data_row() {
    let json = obj(vec![
        ("session_id", s("abc123")),
        ("ts", Json::Int(1754402102)),
        ("text", s("hello codex")),
    ]);
    let row = jhistory_json_to_data_row(&json).expect("expected jhistory row");
    assert_eq!(row.get("display"), Some(&Cell::Str("hello codex".to_string())));
    assert_eq!(row.get("ts"), Some(&Cell::I64(1754402102)));
    assert_eq!(row.get("timestamp"), Some(&Cell::I64(1_754_402_102_000)));
}

#[test]
fn test_jhistory_json_to_data_row_with_string_numbers() {
    let json = obj(vec![
        ("session_id", s("abc123")),
        ("ts", s("1754402102")),
        ("text", s("hello codex")),
    ]);
    let row = jhistory_json_to_data_row(&json).expect("expected jhistory row");
    assert_eq!(row.get("ts"), Some(&Cell::I64(1_754_402_102)));
    assert_eq!(row.get("timestamp"), Some(&Cell::I64(1_754_402_102_000)));
}

#[test]
fn jhistory_row_aliases_and_fallbacks() {
    let json = obj(vec![
        ("sessionId", s("s-9")),
        ("display", s("shown")),
        ("timestamp", Json::Int(1_754_402_102_000)),
        ("extra", Json::Bool(true)),
    ]);
    let row = jhistory_json_to_data_row(&json).expect("row");
    assert_eq!(row.get("display"), Some(&str_cell("shown")));
    assert_eq!(row.get("text"), Some(&str_cell("shown")));
    assert_eq!(row.get("session_id"), Some(&str_cell("s-9")));
    assert_eq!(row.get("sessionId"), Some(&str_cell("s-9")));
    assert_eq!(row.get("ts"), Some(&Cell::I64(1_754_402_102)));
    assert_eq!(row.get("timestamp"), Some(&Cell::I64(1_754_402_102_000)));
    assert_eq!(row.get("extra"), Some(&Cell::Bool(true)));
}

#[test]
fn jhistory_row_defaults_and_saturation() {
    let row = jhistory_json_to_data_row(&obj(vec![])).expect("row");
    assert_eq!(row.get("display"), Some(&str_cell("")));
    assert_eq!(row.get("session_id"), Some(&str_cell("")));
    assert_eq!(row.get("ts"), Some(&Cell::I64(0)));
    assert_eq!(row.get("timestamp"), Some(&Cell::I64(0)));

    let huge = obj(vec![("ts", Json::Int(i64::MAX / 10))]);
    let row = jhistory_json_to_data_row(&huge).expect("row");
    assert_eq!(row.get("timestamp"), Some(&Cell::I64(i64::MAX)));

    let numeric_text = obj(vec![("text", Json::Int(7))]);
    let row = jhistory_json_to_data_row(&numeric_text).expect("row");
    assert_eq!(row.get("text"), Some(&str_cell("7")));

    assert!(jhistory_json_to_data_row(&Json::Array(vec![])).is_none());
    assert!(jhistory_json_to_data_row(&s("x")).is_none());
}

#[test]
fn jhistory_rows_keep_only_objects() {
    let records = vec![obj(vec![("text", s("a"))]), Json::Null, obj(vec![("text", s("b"))])];
    let rows = jhistory_rows(&records);
    assert_eq!(rows.len(), 2);
    assert_eq!(rows[1].get("text"), Some(&str_cell("b")));
}

#[test]
fn json_value_readers() {
    assert_eq!(json_value_as_i64(&Json::Int(-5)), Some(-5));
    assert_eq!(json_value_as_i64(&s("12")), Some(12));
    assert_eq!(json_value_as_i64(&s("+12")), Some(12));
    assert_eq!(json_value_as_i64(&s("1.5")), None);
    assert_eq!(json_value_as_i64(&Json::Bool(true)), None);
    assert_eq!(json_value_as_i64(&Json::Float(1.5f64.to_bits(), "1.5".to_string())), None);

    assert_eq!(json_value_as_string(&s("x")), Some("x".to_string()));
    assert_eq!(json_value_as_string(&Json::Null), None);
    assert_eq!(json_value_as_string(&Json::Bool(false)), Some("false".to_string()));
    assert_eq!(
        json_value_as_string(&obj(vec![("a", Json::Int(1)), ("b", Json::Array(vec![s("q\"")]))])),
        Some("{\"a\":1,\"b\":[\"q\\\"\"]}".to_string())
    );
}

#[test]
fn transcripts_metadata_columns() {
    let slug = "-Users-douglance-Developer-lv-devsql";
    let top = json_to_data_row_with_meta(
        &obj(vec![("type", s("user")), ("content", s("hi"))]),
        &top_level_file(),
    );
    assert_eq!(top.get("_source_file"), Some(&str_cell("sess-top.jsonl")));
    assert_eq!(top.get("_session_id"), Some(&str_cell("sess-top")));
    assert_eq!(top.get("_project"), Some(&str_cell(slug)));
    assert!(top.get("_agent_id").is_none());

    let sub_file = TranscriptFile {
        path: PathBuf::from("/data/projects/x/sess-parent/subagents/agent-abc123.jsonl"),
        source_file: "agent-abc123.jsonl".to_string(),
        session_id: "sess-parent".to_string(),
        project: Some(slug.to_string()),
        agent_id: Some("agent-abc123".to_string()),
    };
    let sub = json_to_data_row_with_meta(
        &obj(vec![("type", s("assistant")), ("content", s("sub"))]),
        &sub_file,
    );
    assert_eq!(sub.get("_session_id"), Some(&str_cell("sess-parent")), "subagent session id is parent dir name");
    assert_eq!(sub.get("_project"), Some(&str_cell(slug)));
    assert_eq!(sub.get("_agent_id"), Some(&str_cell("agent-abc123")));

    let legacy_file = TranscriptFile {
        path: PathBuf::from("/data/transcripts/ses_legacy1.jsonl"),
        source_file: "ses_legacy1.jsonl".to_string(),
        session_id: "legacy1".to_string(),
        project: None,
        agent_id: None,
    };
    let legacy = json_to_data_row_with_meta(&obj(vec![("type", s("user"))]), &legacy_file);
    assert_eq!(legacy.get("_session_id"), Some(&str_cell("legacy1")), "legacy ses_ prefix stripped");
    assert!(legacy.get("_project").is_none());
    assert!(legacy.get("_agent_id").is_none());
}

fn assistant_record() -> Json {
    obj(vec![
        ("type", s("assistant")),
        (
            "message",
            obj(vec![
                ("model", s("opus-4-7")),
                (
                    "usage",
                    obj(vec![
                        ("input_tokens", Json::Int(6)),
                        ("output_tokens", Json::Int(127)),
                        ("cache_read_input_tokens", Json::Int(26378)),
                        ("cache_creation_input_tokens", Json::Int(26449)),
                        ("service_tier", s("standard")),
                        (
                            "cache_creation",
                            obj(vec![
                                ("ephemeral_5m_input_tokens", Json::Int(11)),
                                ("ephemeral_1h_input_tokens", Json::Int(26449)),
                            ]),
                        ),
                    ]),
                ),
            ]),
        ),
    ])
}

#[test]
fn transcripts_flatten_usage_columns_for_assistant_rows() {
    let map = json_to_data_row_with_meta(&assistant_record(), &top_level_file());
    assert_eq!(map.get("model"), Some(&str_cell("opus-4-7")));
    assert_eq!(map.get("usage_input_tokens"), Some(&Cell::I64(6)));
    assert_eq!(map.get("usage_output_tokens"), Some(&Cell::I64(127)));
    assert_eq!(map.get("usage_cache_read_input_tokens"), Some(&Cell::I64(26378)));
    assert_eq!(map.get("usage_cache_creation_input_tokens"), Some(&Cell::I64(26449)));
    assert_eq!(map.get("usage_ephemeral_5m_input_tokens"), Some(&Cell::I64(11)));
    assert_eq!(map.get("usage_ephemeral_1h_input_tokens"), Some(&Cell::I64(26449)));
    assert_eq!(map.get("usage_service_tier"), Some(&str_cell("standard")));
    assert!(matches!(map.get("message"), Some(Cell::Object(_))));
}

#[test]
fn transcripts_no_usage_columns_when_absent() {
    let map = json_to_data_row_with_meta(&obj(vec![("type", s("user")), ("content", s("hi"))]), &slug_file());
    assert!(map.get("model").is_none());
    assert!(map.get("usage_input_tokens").is_none());
    assert!(map.get("usage_service_tier").is_none());
}

#[test]
fn transcripts_flattened_columns_never_overwrite_existing_keys() {
    let record = obj(vec![
        ("type", s("assistant")),
        ("model", s("top-level-wins")),
        ("usage_input_tokens", s("original")),
        (
            "message",
            obj(vec![
                ("model", s("opus-4-7")),
                ("usage", obj(vec![("input_tokens", Json::Int(6)), ("output_tokens", Json::Int(1))])),
            ]),
        ),
    ]);
    let map = json_to_data_row_with_meta(&record, &slug_file());
    assert_eq!(map.get("model"), Some(&str_cell("top-level-wins")), "existing top-level JSON key must not be overwritten");
    assert_eq!(map.get("usage_input_tokens"), Some(&str_cell("original")), "existing top-level JSON key must not be overwritten");
    assert_eq!(map.get("usage_output_tokens"), Some(&Cell::I64(1)));
}

#[test]
fn flattened_null_values_are_skipped() {
    let record = obj(vec![
        ("type", s("assistant")),
        ("message", obj(vec![("model", Json::Null), ("usage", obj(vec![("service_tier", Json::Null)]))])),
    ]);
    let map = json_to_data_row_with_meta(&record, &slug_file());
    assert!(map.get("model").is_none());
    assert!(map.get("usage_service_tier").is_none());
}

#[test]
fn record_members_win_over_metadata() {
    let record = obj(vec![("_session_id", s("from-record")), ("dup", Json::Int(1)), ("dup", Json::Int(2))]);
    let map = json_to_data_row_with_meta(&record, &slug_file());
    assert_eq!(map.get("_session_id"), Some(&str_cell("from-record")));
    assert_eq!(map.get("dup"), Some(&Cell::I64(2)));
    assert_eq!(map.get("_source_file"), Some(&str_cell("s1.jsonl")));
}

#[test]
fn transcripts_scan_reads_projects_layout_and_legacy() {
    let legacy_file = TranscriptFile {
        path: PathBuf::from("/data/transcripts/ses_legacy1.jsonl"),
        source_file: "ses_legacy1.jsonl".to_string(),
        session_id: "legacy1".to_string(),
        project: None,
        agent_id: None,
    };
    let files = vec![
        TranscriptRecords { file: top_level_file(), records: vec![obj(vec![("type", s("user"))])] },
        TranscriptRecords { file: slug_file(), records: vec![obj(vec![("type", s("assistant"))])] },
        TranscriptRecords { file: legacy_file, records: vec![obj(vec![("type", s("user"))])] },
    ];
    let rows = transcript_rows(&files);
    assert_eq!(rows.len(), 3, "expected 3 rows across both layouts");
    assert_eq!(rows[2].get("_session_id"), Some(&str_cell("legacy1")));
}

#[test]
fn todo_rows_from_arrays_and_objects() {
    let item = |c: &str| obj(vec![("content", s(c)), ("status", s("pending"))]);
    let row = todo_json_to_data_row(&item("a"), "w-agent-x.json", "w", "x");
    assert_eq!(row.get("_source_file"), Some(&str_cell("w-agent-x.json")));
    assert_eq!(row.get("_workspace_id"), Some(&str_cell("w")));
    assert_eq!(row.get("_agent_id"), Some(&str_cell("x")));
    assert_eq!(row.get("content"), Some(&str_cell("a")));

    let array_file = TodoFile {
        source_file: "ws1-agent-ag1.json".to_string(),
        content: Some(Json::Array(vec![item("a"), item("b")])),
    };
    let rows = todo_file_rows(&array_file);
    assert_eq!(rows.len(), 2);
    assert_eq!(rows[1].get("content"), Some(&str_cell("b")));
    assert_eq!(rows[0].get("_workspace_id"), Some(&str_cell("ws1")));
    assert_eq!(rows[0].get("_agent_id"), Some(&str_cell("ag1")));

    let object_file = TodoFile { source_file: "plain.json".to_string(), content: Some(item("c")) };
    let other_file = TodoFile { source_file: "bad.json".to_string(), content: Some(Json::Int(3)) };
    let unread = TodoFile { source_file: "gone.json".to_string(), content: None };
    let all = todo_rows(&vec![array_file, object_file, other_file, unread]);
    assert_eq!(all.len(), 3);
    assert_eq!(all[2].get("_agent_id"), Some(&str_cell("unknown")));
    assert_eq!(all[2].get("_workspace_id"), Some(&str_cell("plain")));
}

#[test]
fn todo_filename_edge_cases() {
    assert_eq!(parse_todo_filename("a-agent-b-agent-c.json"), ("a".to_string(), "b-agent-c".to_string()));
    assert_eq!(parse_todo_filename("noext-agent-z"), ("noext".to_string(), "z".to_string()));
    assert_eq!(parse_todo_filename("-agent-.json"), ("".to_string(), "".to_string()));
    assert_eq!(parse_todo_filename("x.json.json"), ("x.json".to_string(), "unknown".to_string()));
}

#[test]
fn virtual_tables_by_name() {
    for name in ["jhistory", "codex_history", "transcripts", "sessions", "todos"] {
        assert!(is_virtual_table(name));
    }
    assert!(!is_virtual_table("history"));
    assert!(!is_virtual_table("Transcripts"));
    assert_eq!(virtual_table("codex_history"), Some(VirtualTable::CodexHistory));
    for t in [
        VirtualTable::Jhistory,
        VirtualTable::CodexHistory,
        VirtualTable::Transcripts,
        VirtualTable::Sessions,
        VirtualTable::Todos,
    ] {
        assert_eq!(virtual_table(&t.table_name()), Some(t));
    }
    assert_eq!(VirtualTable::Sessions.comment(), "Virtual table with one row per session");
    assert_eq!(VirtualTable::CodexHistory.comment(), "Virtual table for Codex CLI history.jsonl");
}

#[test]
fn listed_virtual_tables_follow_sources() {
    assert_eq!(listed_virtual_tables(false, false, false, false), vec![]);
    assert_eq!(
        listed_virtual_tables(true, false, true, true),
        vec![
            VirtualTable::Jhistory,
            VirtualTable::CodexHistory,
            VirtualTable::Transcripts,
            VirtualTable::Sessions,
            VirtualTable::Todos,
        ]
    );
    assert_eq!(
        listed_virtual_tables(false, true, false, false),
        vec![VirtualTable::Transcripts, VirtualTable::Sessions]
    );
}

#[test]
fn virtual_tables_refuse_changes() {
    assert_eq!(refusal_message(StoreChange::CreateSchema), "Cannot create schema for virtual table");
    assert_eq!(refusal_message(StoreChange::DeleteSchema), "Cannot delete virtual table schema");
    assert_eq!(
        refusal_message(StoreChange::WriteData),
        "Write operations on virtual multi-file tables not yet supported"
    );
    assert_eq!(refusal_message(StoreChange::CreateIndex), "Cannot create index on virtual table");
    assert_eq!(refusal_message(StoreChange::DropIndex), "Cannot drop index on virtual table");
    assert_eq!(refusal_message(StoreChange::RenameTable), "Cannot rename virtual table");
    assert_eq!(refusal_message(StoreChange::AlterTable), "Cannot alter virtual table");
}

#[test]
fn fetch_row_by_position() {
    let make = |n: i64| {
        let mut r = Row::new();
        r.insert("n".to_string(), Cell::I64(n));
        r
    };
    let rows = || vec![make(10), make(11), make(12)];
    assert_eq!(fetch_row(rows(), 1).expect("row").get("n"), Some(&Cell::I64(11)));
    assert_eq!(fetch_row(rows(), 2).expect("row").get("n"), Some(&Cell::I64(12)));
    assert!(fetch_row(rows(), 3).is_none());
    assert!(fetch_row(rows(), -1).is_none());
}

#[test]
fn glue_values_of_nested_json() {
    let j = obj(vec![
        ("a", Json::Array(vec![Json::Null, Json::Float(2.5f64.to_bits(), "2.5".to_string())])),
        ("b", obj(vec![("c", Json::Int(1))])),
    ]);
    assert_eq!(
        json_value_to_glue_value(&j),
        Cell::Object(vec![
            ("a".to_string(), Cell::List(vec![Cell::Null, Cell::F64(2.5f64.to_bits())])),
            ("b".to_string(), Cell::Object(vec![("c".to_string(), Cell::I64(1))])),
        ])
    );
}

#[test]
fn transcripts_preserve_all_keys_and_cache_tokens_queryable() {
    let assistant = obj(vec![
        ("type", s("assistant")),
        (
            "message",
            obj(vec![
                ("role", s("assistant")),
                (
                    "usage",
                    obj(vec![
                        ("input_tokens", Json::Int(6)),
                        ("output_tokens", Json::Int(127)),
                        ("cache_read_input_tokens", Json::Int(26378)),
                        ("cache_creation_input_tokens", Json::Int(26449)),
                        (
                            "cache_creation",
                            obj(vec![
                                ("ephemeral_5m_input_tokens", Json::Int(0)),
                                ("ephemeral_1h_input_tokens", Json::Int(26449)),
                            ]),
                        ),
                    ]),
                ),
            ]),
        ),
    ]);
    let pr_link = obj(vec![("type", s("pr-link")), ("url", s("https://example.com/pr/1"))]);
    let rows = transcript_rows(&vec![TranscriptRecords { file: top_level_file(), records: vec![assistant, pr_link] }]);
    assert_eq!(rows.len(), 2);

    let pr: Vec<&Row> = rows.iter().filter(|r| r.get("type") == Some(&str_cell("pr-link"))).collect();
    assert_eq!(pr.len(), 1);
    assert_eq!(pr[0].get("url"), Some(&str_cell("https://example.com/pr/1")));

    let message = rows[0].get("message").expect("message column");
    let Cell::Object(members) = message else { panic!("message is a map") };
    let usage = &members.iter().find(|(k, _)| k == "usage").expect("usage").1;
    let Cell::Object(usage) = usage else { panic!("usage is a map") };
    let field = |k: &str| usage.iter().find(|(key, _)| key == k).map(|(_, v)| v);
    assert_eq!(field("cache_read_input_tokens"), Some(&Cell::I64(26378)));
    let Some(Cell::Object(cache)) = field("cache_creation") else { panic!("cache_creation is a map") };
    assert_eq!(
        cache.iter().find(|(k, _)| k == "ephemeral_5m_input_tokens").map(|(_, v)| v),
        Some(&Cell::I64(0))
    );
}

#[test]
fn table_sources_and_todo_files() {
    assert_eq!(VirtualTable::CodexHistory.source(), TableSource::CodexHistory);
    assert_eq!(VirtualTable::Jhistory.source(), TableSource::CodexHistory);
    assert_eq!(VirtualTable::Sessions.source(), TableSource::SessionAggregates);
    assert_eq!(VirtualTable::Transcripts.source(), TableSource::TranscriptRecords);
    assert_eq!(VirtualTable::Todos.source(), TableSource::TodoFiles);
    assert!(is_todo_file(Some("json")));
    assert!(!is_todo_file(Some("jsonl")));
    assert!(!is_todo_file(Some("JSON")));
    assert!(!is_todo_file(None));
}
