//! The virtual tables of the composite storage: `jhistory` (and its alias
//! `codex_history`), `transcripts` and `todos`, built as rows from parsed JSON
//! records. (The `sessions` table is in `aggregate`.)
//!
//! Every table's rows are keyed by their position, from 0.
use vstd::prelude::*;
use crate::cell::{Cell, CellV, Row, glue_of, json_value_to_glue_value};
use crate::json::{Json, JsonV, fields_get, as_str, get, get_str, json_as_str, json_get, json_get_opt,
    json_get_str, json_has, json_text, to_json_text};
use crate::text::{chars_of, find_first, occurs_at, find_first_exec, owned, parse_i64, parse_i64_spec, str_eq,
    string_from_chars, string_from_range, strip_suffix, strip_suffix_exec};
use crate::transcript::{TranscriptFile, TranscriptFileV, opt_view};

verus! {

broadcast use vstd::std_specs::vec::group_vec_axioms;

// ---------------------------------------------------------------------------
// Virtual tables
// ---------------------------------------------------------------------------
/// The tables the composite storage computes from several files.
#[derive(Debug, Clone, Copy, PartialEq, Eq, Structural)]
pub enum VirtualTable {
    Jhistory,
    CodexHistory,
    Transcripts,
    Sessions,
    Todos,
}

/// The virtual table named `name`, if any.
pub open spec fn virtual_table_spec(name: Seq<char>) -> Option<VirtualTable> {
    if name == "jhistory"@ {
        Some(VirtualTable::Jhistory)
    } else if name == "codex_history"@ {
        Some(VirtualTable::CodexHistory)
    } else if name == "transcripts"@ {
        Some(VirtualTable::Transcripts)
    } else if name == "sessions"@ {
        Some(VirtualTable::Sessions)
    } else if name == "todos"@ {
        Some(VirtualTable::Todos)
    } else {
        None
    }
}

/// The virtual table named `name`, if any.
pub fn virtual_table(name: &str) -> (t: Option<VirtualTable>)
    ensures
        t == virtual_table_spec(name@),
{
    if str_eq(name, "jhistory") {
        Some(VirtualTable::Jhistory)
    } else if str_eq(name, "codex_history") {
        Some(VirtualTable::CodexHistory)
    } else if str_eq(name, "transcripts") {
        Some(VirtualTable::Transcripts)
    } else if str_eq(name, "sessions") {
        Some(VirtualTable::Sessions)
    } else if str_eq(name, "todos") {
        Some(VirtualTable::Todos)
    } else {
        None
    }
}

/// Whether `table_name` names a virtual multi-file table.
pub fn is_virtual_table(table_name: &str) -> (b: bool)
    ensures
        b == virtual_table_spec(table_name@) is Some,
{
    virtual_table(table_name).is_some()
}

impl VirtualTable {
    /// The table's name.
    pub fn table_name(&self) -> (s: String)
        ensures
            virtual_table_spec(s@) == Some(*self),
    {
        proof {
            reveal_strlit("jhistory");
            reveal_strlit("codex_history");
            reveal_strlit("transcripts");
            reveal_strlit("sessions");
            reveal_strlit("todos");
            assert("jhistory"@.len() == 8 && "jhistory"@[0] == 'j');
            assert("codex_history"@.len() == 13);
            assert("transcripts"@.len() == 11);
            assert("sessions"@.len() == 8 && "sessions"@[0] == 's');
            assert("todos"@.len() == 5);
        }
        match self {
            VirtualTable::Jhistory => owned("jhistory"),
            VirtualTable::CodexHistory => owned("codex_history"),
            VirtualTable::Transcripts => owned("transcripts"),
            VirtualTable::Sessions => owned("sessions"),
            VirtualTable::Todos => owned("todos"),
        }
    }

    /// The comment of the table's schema.
    pub fn comment(&self) -> (s: String)
        ensures
            s@ == match *self {
                VirtualTable::Jhistory | VirtualTable::CodexHistory => "Virtual table for Codex CLI history.jsonl"@,
                VirtualTable::Transcripts => "Virtual table merging all transcript files"@,
                VirtualTable::Sessions => "Virtual table with one row per session"@,
                VirtualTable::Todos => "Virtual table merging all todo files"@,
            },
    {
        match self {
            VirtualTable::Jhistory | VirtualTable::CodexHistory => owned("Virtual table for Codex CLI history.jsonl"),
            VirtualTable::Transcripts => owned("Virtual table merging all transcript files"),
            VirtualTable::Sessions => owned("Virtual table with one row per session"),
            VirtualTable::Todos => owned("Virtual table merging all todo files"),
        }
    }
}

/// What a virtual table is computed from: `jhistory` and its alias
/// `codex_history` from the Codex history file, `transcripts` from the records
/// of every transcript, `sessions` from the aggregated top-level transcripts,
/// `todos` from the todo files.
#[derive(Debug, Clone, Copy, PartialEq, Eq, Structural)]
pub enum TableSource {
    CodexHistory,
    TranscriptRecords,
    SessionAggregates,
    TodoFiles,
}

pub open spec fn table_source_spec(t: VirtualTable) -> TableSource {
    match t {
        VirtualTable::Jhistory | VirtualTable::CodexHistory => TableSource::CodexHistory,
        VirtualTable::Transcripts => TableSource::TranscriptRecords,
        VirtualTable::Sessions => TableSource::SessionAggregates,
        VirtualTable::Todos => TableSource::TodoFiles,
    }
}

impl VirtualTable {
    /// What the table is computed from.
    pub fn source(&self) -> (s: TableSource)
        ensures
            s == table_source_spec(*self),
    {
        match self {
            VirtualTable::Jhistory | VirtualTable::CodexHistory => TableSource::CodexHistory,
            VirtualTable::Transcripts => TableSource::TranscriptRecords,
            VirtualTable::Sessions => TableSource::SessionAggregates,
            VirtualTable::Todos => TableSource::TodoFiles,
        }
    }
}

/// Whether a file in the todos directory is a todo file: its extension is `json`.
pub fn is_todo_file(extension: Option<&str>) -> (b: bool)
    ensures
        b == (extension is Some && extension->0@ == "json"@),
{
    match extension {
        Some(e) => str_eq(e, "json"),
        None => false,
    }
}

/// The virtual tables listed among all schemas, given which sources exist:
/// `jhistory` and `codex_history` when the Codex history file exists,
/// `transcripts` and `sessions` when the legacy transcripts directory or the
/// projects directory exists, `todos` when the todos directory exists.
pub open spec fn listed_tables_spec(
    jhistory_exists: bool,
    transcripts_exists: bool,
    projects_exists: bool,
    todos_exists: bool,
) -> Seq<VirtualTable> {
    (if jhistory_exists {
        seq![VirtualTable::Jhistory, VirtualTable::CodexHistory]
    } else {
        Seq::empty()
    }) + (if transcripts_exists || projects_exists {
        seq![VirtualTable::Transcripts, VirtualTable::Sessions]
    } else {
        Seq::empty()
    }) + (if todos_exists {
        seq![VirtualTable::Todos]
    } else {
        Seq::empty()
    })
}

/// The virtual tables listed among all schemas, in order.
pub fn listed_virtual_tables(
    jhistory_exists: bool,
    transcripts_exists: bool,
    projects_exists: bool,
    todos_exists: bool,
) -> (v: Vec<VirtualTable>)
    ensures
        v@ == listed_tables_spec(jhistory_exists, transcripts_exists, projects_exists, todos_exists),
{
    let mut v: Vec<VirtualTable> = Vec::new();
    if jhistory_exists {
        v.push(VirtualTable::Jhistory);
        v.push(VirtualTable::CodexHistory);
    }
    if transcripts_exists || projects_exists {
        v.push(VirtualTable::Transcripts);
        v.push(VirtualTable::Sessions);
    }
    if todos_exists {
        v.push(VirtualTable::Todos);
    }
    assert(v@ =~= listed_tables_spec(jhistory_exists, transcripts_exists, projects_exists, todos_exists));
    v
}

/// A change to the storage that a virtual table refuses.
#[derive(Debug, Clone, Copy, PartialEq, Eq, Structural)]
pub enum StoreChange {
    CreateSchema,
    DeleteSchema,
    WriteData,
    CreateIndex,
    DropIndex,
    RenameTable,
    AlterTable,
}

/// The message with which a virtual table refuses a change.
pub fn refusal_message(change: StoreChange) -> (s: String)
    ensures
        s@ == match change {
            StoreChange::CreateSchema => "Cannot create schema for virtual table"@,
            StoreChange::DeleteSchema => "Cannot delete virtual table schema"@,
            StoreChange::WriteData => "Write operations on virtual multi-file tables not yet supported"@,
            StoreChange::CreateIndex => "Cannot create index on virtual table"@,
            StoreChange::DropIndex => "Cannot drop index on virtual table"@,
            StoreChange::RenameTable => "Cannot rename virtual table"@,
            StoreChange::AlterTable => "Cannot alter virtual table"@,
        },
{
    match change {
        StoreChange::CreateSchema => owned("Cannot create schema for virtual table"),
        StoreChange::DeleteSchema => owned("Cannot delete virtual table schema"),
        StoreChange::WriteData => owned("Write operations on virtual multi-file tables not yet supported"),
        StoreChange::CreateIndex => owned("Cannot create index on virtual table"),
        StoreChange::DropIndex => owned("Cannot drop index on virtual table"),
        StoreChange::RenameTable => owned("Cannot rename virtual table"),
        StoreChange::AlterTable => owned("Cannot alter virtual table"),
    }
}

// ---------------------------------------------------------------------------
// Reading JSON values
// ---------------------------------------------------------------------------
/// An integer read from a JSON value: an integer number, or a string that
/// parses as an `i64`.
pub open spec fn as_i64_spec(j: JsonV) -> Option<i64> {
    match j {
        JsonV::Int(i) => Some(i),
        JsonV::Str(s) => parse_i64_spec(s),
        _ => None,
    }
}

/// A string read from a JSON value: a string's text, none for null, and the
/// compact JSON text of anything else.
pub open spec fn as_string_spec(j: JsonV) -> Option<Seq<char>> {
    match j {
        JsonV::Str(s) => Some(s),
        JsonV::Null => None,
        _ => Some(json_text(j)),
    }
}

/// Reads an integer from a JSON value.
pub fn json_value_as_i64(value: &Json) -> (r: Option<i64>)
    ensures
        r == as_i64_spec(value@),
{
    match value {
        Json::Int(i) => Some(*i),
        Json::Str(s) => parse_i64(s.as_str()),
        _ => None,
    }
}

/// Reads a string from a JSON value.
pub fn json_value_as_string(value: &Json) -> (r: Option<String>)
    ensures
        opt_view(r) == as_string_spec(value@),
{
    match value {
        Json::Str(s) => Some(s.clone()),
        Json::Null => None,
        _ => Some(to_json_text(value)),
    }
}

// ---------------------------------------------------------------------------
// Rows from records
// ---------------------------------------------------------------------------
/// `m` with the members of an object inserted in order as cells, except those
/// whose key `skip` holds of.
pub open spec fn insert_members(
    m: Map<Seq<char>, CellV>,
    fields: Seq<(Seq<char>, JsonV)>,
    skip: spec_fn(Seq<char>) -> bool,
) -> Map<Seq<char>, CellV>
    decreases fields.len(),
{
    if fields.len() == 0 {
        m
    } else {
        let rest = insert_members(m, fields.drop_last(), skip);
        if skip(fields.last().0) {
            rest
        } else {
            rest.insert(fields.last().0, glue_of(fields.last().1))
        }
    }
}

/// `m` with the members of `j` inserted, when `j` is an object.
pub open spec fn insert_object(m: Map<Seq<char>, CellV>, j: JsonV, skip: spec_fn(Seq<char>) -> bool) -> Map<
    Seq<char>,
    CellV,
> {
    match j {
        JsonV::Object(fields) => insert_members(m, fields, skip),
        _ => m,
    }
}

pub open spec fn skip_none() -> spec_fn(Seq<char>) -> bool {
    |k: Seq<char>| false
}

/// Inserts the members of `j` (when it is an object) into `row`, except those
/// whose key `skip` holds of; `skip_keys` are those keys.
fn insert_members_exec(row: &mut Row, j: &Json, skip_keys: &Vec<&str>, Ghost(skip): Ghost<spec_fn(Seq<char>) -> bool>)
    requires
        forall|k: Seq<char>| #[trigger] skip(k) <==> exists|i: int| 0 <= i < skip_keys@.len() && skip_keys@[i]@ == k,
    ensures
        final(row)@ == insert_object(old(row)@, j@, skip),
{
    match j {
        Json::Object(fields) => {
            let ghost fv = j@->Object_0;
            let ghost start = row@;
            let mut i: usize = 0;
            while i < fields.len()
                invariant
                    *j == Json::Object(*fields),
                    fv == j@->Object_0,
                    fv.len() == fields@.len(),
                    i <= fields@.len(),
                    forall|k: Seq<char>| #[trigger] skip(k) <==> exists|q: int| 0 <= q < skip_keys@.len() && skip_keys@[q]@ == k,
                    row@ == insert_members(start, fv.take(i as int), skip),
                decreases fields.len() - i,
            {
                assert(fv.take(i + 1).drop_last() =~= fv.take(i as int));
                assert(fv[i as int].0 == fields@[i as int].0@ && fv[i as int].1 == fields@[i as int].1@);
                let key = &fields[i].0;
                let mut skipped = false;
                let mut q: usize = 0;
                while q < skip_keys.len()
                    invariant
                        q <= skip_keys@.len(),
                        skipped == exists|r: int| 0 <= r < q && skip_keys@[r]@ == key@,
                    decreases skip_keys.len() - q,
                {
                    if str_eq(key.as_str(), skip_keys[q]) {
                        skipped = true;
                    }
                    q = q + 1;
                }
                if !skipped {
                    let v = json_value_to_glue_value(&fields[i].1);
                    row.insert(key.clone(), v);
                }
                i = i + 1;
            }
            assert(fv.take(fields.len() as int) =~= fv);
        },
        _ => {},
    }
}

/// The row of a todo item: `_source_file`, `_workspace_id`, `_agent_id`, then the
/// item's members (when it is an object).
pub open spec fn todo_row_spec(
    j: JsonV,
    source_file: Seq<char>,
    workspace_id: Seq<char>,
    agent_id: Seq<char>,
) -> Map<Seq<char>, CellV> {
    let base = Map::empty().insert("_source_file"@, CellV::Str(source_file)).insert(
        "_workspace_id"@,
        CellV::Str(workspace_id),
    ).insert("_agent_id"@, CellV::Str(agent_id));
    insert_object(base, j, skip_none())
}

/// Converts a todo item into a row.
pub fn todo_json_to_data_row(json: &Json, source_file: &str, workspace_id: &str, agent_id: &str) -> (r: Row)
    ensures
        r@ == todo_row_spec(json@, source_file@, workspace_id@, agent_id@),
{
    let mut row = Row::new();
    row.insert(owned("_source_file"), Cell::Str(owned(source_file)));
    row.insert(owned("_workspace_id"), Cell::Str(owned(workspace_id)));
    row.insert(owned("_agent_id"), Cell::Str(owned(agent_id)));
    let skip: Vec<&str> = Vec::new();
    insert_members_exec(&mut row, json, &skip, Ghost(skip_none()));
    row
}

/// `map` with `value` (when present and not null) as a cell under `key`, unless
/// `key` is already set.
pub open spec fn put_spec(m: Map<Seq<char>, CellV>, key: Seq<char>, value: Option<JsonV>) -> Map<
    Seq<char>,
    CellV,
> {
    match value {
        Some(v) => if v != JsonV::Null && !m.dom().contains(key) {
            m.insert(key, glue_of(v))
        } else {
            m
        },
        None => m,
    }
}

/// The flattened `model` / `usage_*` columns of an assistant record, from
/// `message.model` and `message.usage.*`; a column is only added when the value
/// exists, is not null, and the key is not already set (existing keys win).
pub open spec fn flatten_spec(j: JsonV, m: Map<Seq<char>, CellV>) -> Map<Seq<char>, CellV> {
    if json_get_str(j, "type"@) != Some("assistant"@) {
        m
    } else {
        match json_get(j, "message"@) {
            None => m,
            Some(msg) => {
                let usage = json_get(msg, "usage"@);
                let cc = json_get_opt(usage, "cache_creation"@);
                let m1 = put_spec(m, "model"@, json_get(msg, "model"@));
                let m2 = put_spec(m1, "usage_input_tokens"@, json_get_opt(usage, "input_tokens"@));
                let m3 = put_spec(m2, "usage_output_tokens"@, json_get_opt(usage, "output_tokens"@));
                let m4 = put_spec(
                    m3,
                    "usage_cache_read_input_tokens"@,
                    json_get_opt(usage, "cache_read_input_tokens"@),
                );
                let m5 = put_spec(
                    m4,
                    "usage_cache_creation_input_tokens"@,
                    json_get_opt(usage, "cache_creation_input_tokens"@),
                );
                let m6 = put_spec(m5, "usage_service_tier"@, json_get_opt(usage, "service_tier"@));
                let m7 = put_spec(
                    m6,
                    "usage_ephemeral_5m_input_tokens"@,
                    json_get_opt(cc, "ephemeral_5m_input_tokens"@),
                );
                put_spec(
                    m7,
                    "usage_ephemeral_1h_input_tokens"@,
                    json_get_opt(cc, "ephemeral_1h_input_tokens"@),
                )
            },
        }
    }
}

fn put(row: &mut Row, key: &str, value: Option<&Json>)
    ensures
        final(row)@ == put_spec(
            old(row)@,
            key@,
            match value {
                Some(v) => Some(v@),
                None => None,
            },
        ),
{
    match value {
        Some(v) => {
            let is_null = match v {
                Json::Null => true,
                _ => false,
            };
            if !is_null && !row.contains_key(key) {
                row.insert(owned(key), json_value_to_glue_value(v));
            }
        },
        None => {},
    }
}

fn get_opt<'a>(j: Option<&'a Json>, key: &str) -> (r: Option<&'a Json>)
    ensures
        match r {
            Some(v) => json_get_opt(
                match j {
                    Some(x) => Some(x@),
                    None => None,
                },
                key@,
            ) == Some(v@),
            None => json_get_opt(
                match j {
                    Some(x) => Some(x@),
                    None => None,
                },
                key@,
            ) is None,
        },
{
    match j {
        Some(x) => get(x, key),
        None => None,
    }
}

/// Adds the flattened `model` / `usage_*` columns of an assistant record.
pub fn flatten_usage_columns(json: &Json, map: &mut Row)
    ensures
        final(map)@ == flatten_spec(json@, old(map)@),
{
    let is_assistant = match get_str(json, "type") {
        Some(t) => str_eq(t.as_str(), "assistant"),
        None => false,
    };
    if !is_assistant {
        return;
    }
    let message = match get(json, "message") {
        Some(m) => m,
        None => {
            return;
        },
    };
    put(map, "model", get(message, "model"));
    let usage = get(message, "usage");
    put(map, "usage_input_tokens", get_opt(usage, "input_tokens"));
    put(map, "usage_output_tokens", get_opt(usage, "output_tokens"));
    put(map, "usage_cache_read_input_tokens", get_opt(usage, "cache_read_input_tokens"));
    put(map, "usage_cache_creation_input_tokens", get_opt(usage, "cache_creation_input_tokens"));
    put(map, "usage_service_tier", get_opt(usage, "service_tier"));
    let cache_creation = get_opt(usage, "cache_creation");
    put(map, "usage_ephemeral_5m_input_tokens", get_opt(cache_creation, "ephemeral_5m_input_tokens"));
    put(map, "usage_ephemeral_1h_input_tokens", get_opt(cache_creation, "ephemeral_1h_input_tokens"));
}

/// The row of a transcript record: `_source_file`, `_session_id`, `_project`
/// (when the file has one), `_agent_id` (when it has one), the record's members,
/// then the flattened usage columns.
pub open spec fn transcript_row_spec(j: JsonV, f: TranscriptFileV) -> Map<Seq<char>, CellV> {
    let m1 = Map::empty().insert("_source_file"@, CellV::Str(f.source_file)).insert(
        "_session_id"@,
        CellV::Str(f.session_id),
    );
    let m2 = match f.project {
        Some(p) => m1.insert("_project"@, CellV::Str(p)),
        None => m1,
    };
    let m3 = match f.agent_id {
        Some(a) => m2.insert("_agent_id"@, CellV::Str(a)),
        None => m2,
    };
    flatten_spec(j, insert_object(m3, j, skip_none()))
}

/// Converts a transcript record into a row with the metadata columns of its file.
pub fn json_to_data_row_with_meta(json: &Json, file: &TranscriptFile) -> (r: Row)
    ensures
        r@ == transcript_row_spec(json@, file@),
{
    let mut row = Row::new();
    row.insert(owned("_source_file"), Cell::Str(file.source_file.clone()));
    row.insert(owned("_session_id"), Cell::Str(file.session_id.clone()));
    match &file.project {
        Some(p) => row.insert(owned("_project"), Cell::Str(p.clone())),
        None => {},
    }
    match &file.agent_id {
        Some(a) => row.insert(owned("_agent_id"), Cell::Str(a.clone())),
        None => {},
    }
    let skip: Vec<&str> = Vec::new();
    insert_members_exec(&mut row, json, &skip, Ghost(skip_none()));
    flatten_usage_columns(json, &mut row);
    row
}

/// The value of member `a`, or of member `b` when there is no member `a`.
pub open spec fn first_of(j: JsonV, a: Seq<char>, b: Seq<char>) -> Option<JsonV> {
    if json_has(j, a) {
        json_get(j, a)
    } else {
        json_get(j, b)
    }
}

/// The string read from an optional value, or the empty string.
pub open spec fn string_or_empty(v: Option<JsonV>) -> Seq<char> {
    match v {
        Some(x) => match as_string_spec(x) {
            Some(s) => s,
            None => Seq::empty(),
        },
        None => Seq::empty(),
    }
}

/// Epoch milliseconds turned into seconds: values above 10^10 are divided by 1000.
pub open spec fn normalize_ts_spec(raw_ts: i64) -> i64 {
    if raw_ts > 10_000_000_000 {
        (raw_ts / 1000) as i64
    } else {
        raw_ts
    }
}

/// Converts epoch milliseconds into seconds when needed.
pub fn normalize_ts_seconds(raw_ts: i64) -> (r: i64)
    ensures
        r == normalize_ts_spec(raw_ts),
{
    if raw_ts > 10_000_000_000 {
        raw_ts / 1000
    } else {
        raw_ts
    }
}

/// The seconds of a history record: `ts` read as an integer, else `timestamp`
/// read as an integer and normalized to seconds, else 0.
pub open spec fn jhistory_ts_spec(j: JsonV) -> i64 {
    match json_get(j, "ts"@) {
        Some(v) if as_i64_spec(v) is Some => as_i64_spec(v)->0,
        _ => match json_get(j, "timestamp"@) {
            Some(v) if as_i64_spec(v) is Some => normalize_ts_spec(as_i64_spec(v)->0),
            _ => 0,
        },
    }
}

/// `t * 1000`, saturated to the `i64` range.
pub open spec fn millis_spec(t: i64) -> i64 {
    if t * 1000 > i64::MAX {
        i64::MAX
    } else if t * 1000 < i64::MIN {
        i64::MIN
    } else {
        (t * 1000) as i64
    }
}

/// Whether a key is one of the normalized columns of a history row.
pub open spec fn jhistory_reserved(k: Seq<char>) -> bool {
    k == "display"@ || k == "timestamp"@ || k == "session_id"@ || k == "sessionId"@ || k
        == "text"@ || k == "ts"@
}

pub open spec fn jhistory_reserved_fn() -> spec_fn(Seq<char>) -> bool {
    |k: Seq<char>| jhistory_reserved(k)
}

/// The normalized row of a Codex history record, for an object: `display` and
/// `text` hold the text (`text`, else `display`), `session_id` and `sessionId`
/// the session (`session_id`, else `sessionId`), `ts` the seconds and
/// `timestamp` the milliseconds; every other member is kept as it is.
pub open spec fn jhistory_row_spec(j: JsonV) -> Option<Map<Seq<char>, CellV>> {
    match j {
        JsonV::Object(fields) => {
            let text = string_or_empty(first_of(j, "text"@, "display"@));
            let sid = string_or_empty(first_of(j, "session_id"@, "sessionId"@));
            let ts = jhistory_ts_spec(j);
            let base = Map::empty().insert("display"@, CellV::Str(text)).insert(
                "timestamp"@,
                CellV::I64(millis_spec(ts)),
            ).insert("session_id"@, CellV::Str(sid)).insert("sessionId"@, CellV::Str(sid)).insert(
                "text"@,
                CellV::Str(text),
            ).insert("ts"@, CellV::I64(ts));
            Some(insert_members(base, fields, jhistory_reserved_fn()))
        },
        _ => None,
    }
}

fn first_of_exec<'a>(j: &'a Json, a: &str, b: &str) -> (r: Option<&'a Json>)
    ensures
        match r {
            Some(v) => first_of(j@, a@, b@) == Some(v@),
            None => first_of(j@, a@, b@) is None,
        },
{
    match get(j, a) {
        Some(v) => Some(v),
        None => get(j, b),
    }
}

fn string_or_empty_exec(v: Option<&Json>) -> (s: String)
    ensures
        s@ == string_or_empty(
            match v {
                Some(x) => Some(x@),
                None => None,
            },
        ),
{
    match v {
        Some(x) => match json_value_as_string(x) {
            Some(s) => s,
            None => String::new(),
        },
        None => String::new(),
    }
}

fn millis(t: i64) -> (r: i64)
    ensures
        r == millis_spec(t),
{
    if t > 9223372036854775 {
        i64::MAX
    } else if t < -9223372036854775 {
        i64::MIN
    } else {
        t * 1000
    }
}

/// Converts a Codex history record into its normalized row (`None` unless it is an object).
pub fn jhistory_json_to_data_row(json: &Json) -> (r: Option<Row>)
    ensures
        match r {
            Some(row) => jhistory_row_spec(json@) == Some(row@),
            None => jhistory_row_spec(json@) is None,
        },
{
    match json {
        Json::Object(_) => {},
        _ => {
            return None;
        },
    }
    let text = string_or_empty_exec(first_of_exec(json, "text", "display"));
    let session_id = string_or_empty_exec(first_of_exec(json, "session_id", "sessionId"));
    let ts_seconds = match get(json, "ts") {
        Some(v) => match json_value_as_i64(v) {
            Some(t) => t,
            None => match get(json, "timestamp") {
                Some(w) => match json_value_as_i64(w) {
                    Some(t) => normalize_ts_seconds(t),
                    None => 0,
                },
                None => 0,
            },
        },
        None => match get(json, "timestamp") {
            Some(w) => match json_value_as_i64(w) {
                Some(t) => normalize_ts_seconds(t),
                None => 0,
            },
            None => 0,
        },
    };
    let timestamp_millis = millis(ts_seconds);
    let mut row = Row::new();
    row.insert(owned("display"), Cell::Str(text.clone()));
    row.insert(owned("timestamp"), Cell::I64(timestamp_millis));
    row.insert(owned("session_id"), Cell::Str(session_id.clone()));
    row.insert(owned("sessionId"), Cell::Str(session_id));
    row.insert(owned("text"), Cell::Str(text));
    row.insert(owned("ts"), Cell::I64(ts_seconds));
    let mut skip: Vec<&str> = Vec::new();
    skip.push("display");
    skip.push("timestamp");
    skip.push("session_id");
    skip.push("sessionId");
    skip.push("text");
    skip.push("ts");
    proof {
        assert forall|k: Seq<char>| #[trigger] jhistory_reserved_fn()(k) <==> exists|i: int| 0 <= i < skip@.len() && skip@[i]@ == k by {
            if jhistory_reserved(k) {
                if k == "display"@ { assert(skip@[0]@ == k); }
                else if k == "timestamp"@ { assert(skip@[1]@ == k); }
                else if k == "session_id"@ { assert(skip@[2]@ == k); }
                else if k == "sessionId"@ { assert(skip@[3]@ == k); }
                else if k == "text"@ { assert(skip@[4]@ == k); }
                else { assert(skip@[5]@ == k); }
            }
        }
    }
    insert_members_exec(&mut row, json, &skip, Ghost(jhistory_reserved_fn()));
    Some(row)
}

// ---------------------------------------------------------------------------
// Todo file names
// ---------------------------------------------------------------------------
/// The workspace and agent of a todo file name `<workspace>-agent-<agent>.json`:
/// the name without `.json` is split at the first `-agent-`; without one, the
/// whole name is the workspace and the agent is `"unknown"`.
pub open spec fn todo_name_parts(filename: Seq<char>) -> (Seq<char>, Seq<char>) {
    let name = todo_base_name(filename);
    match find_first(name, "-agent-"@) {
        Some(i) => (name.take(i), name.skip(i + 7)),
        None => (name, "unknown"@),
    }
}

/// A todo file name without its `.json` suffix.
pub open spec fn todo_base_name(filename: Seq<char>) -> Seq<char> {
    match strip_suffix(filename, ".json"@) {
        Some(n) => n,
        None => filename,
    }
}

fn todo_base_name_exec(filename: &str) -> (name: Vec<char>)
    ensures
        name@ == todo_base_name(filename@),
{
    let chars = chars_of(filename);
    let json_suffix = chars_of(".json");
    match strip_suffix_exec(&chars, &json_suffix) {
        Some(n) => n,
        None => chars,
    }
}

/// Splits a todo file name into its workspace id and agent id.
pub fn parse_todo_filename(filename: &str) -> (r: (String, String))
    ensures
        (r.0@, r.1@) == todo_name_parts(filename@),
{
    let name = todo_base_name_exec(filename);
    let pat = chars_of("-agent-");
    proof {
        reveal_strlit("-agent-");
    }
    assert(pat@.len() == 7);
    let found = find_first_exec(&name, &pat);
    match found {
        Some(idx) => {
            let workspace_id = string_from_range(&name, 0, idx);
            let n = name.len();
            assert(idx + 7 <= n);
            let agent_id = string_from_range(&name, idx + 7, n);
            assert(workspace_id@ =~= name@.take(idx as int));
            assert(agent_id@ =~= name@.skip(idx + 7));
            (workspace_id, agent_id)
        },
        None => {
            proof {
                reveal_strlit("unknown");
            }
            (string_from_chars(&name), owned("unknown"))
        },
    }
}

// ---------------------------------------------------------------------------
// Tables
// ---------------------------------------------------------------------------
/// The rows of the history table: one per record that is an object, in order.
pub open spec fn jhistory_rows_spec(records: Seq<JsonV>) -> Seq<Map<Seq<char>, CellV>>
    decreases records.len(),
{
    if records.len() == 0 {
        Seq::empty()
    } else {
        let rest = jhistory_rows_spec(records.drop_last());
        match jhistory_row_spec(records.last()) {
            Some(m) => rest.push(m),
            None => rest,
        }
    }
}

pub open spec fn rows_view(v: Seq<Row>) -> Seq<Map<Seq<char>, CellV>> {
    v.map_values(|r: Row| r@)
}

pub open spec fn records_view(v: Seq<Json>) -> Seq<JsonV> {
    v.map_values(|j: Json| j@)
}

/// The rows of the Codex history table from the parsed lines of `history.jsonl`.
pub fn jhistory_rows(records: &Vec<Json>) -> (rows: Vec<Row>)
    ensures
        rows_view(rows@) == jhistory_rows_spec(records_view(records@)),
{
    let ghost rv = records_view(records@);
    let mut rows: Vec<Row> = Vec::new();
    let mut i: usize = 0;
    while i < records.len()
        invariant
            i <= records@.len(),
            rv == records_view(records@),
            rows_view(rows@) == jhistory_rows_spec(rv.take(i as int)),
        decreases records.len() - i,
    {
        assert(rv.take(i + 1).drop_last() =~= rv.take(i as int));
        let ghost before = rows@;
        match jhistory_json_to_data_row(&records[i]) {
            Some(row) => {
                rows.push(row);
                assert(rows_view(rows@) =~= rows_view(before).push(rows@[rows@.len() - 1]@));
            },
            None => {},
        }
        i = i + 1;
    }
    assert(rv.take(records.len() as int) =~= rv);
    rows
}

/// A transcript file and the records parsed from its lines.
pub struct TranscriptRecords {
    pub file: TranscriptFile,
    pub records: Vec<Json>,
}

/// The rows of the transcripts table: every record of every file, in order.
pub open spec fn transcript_rows_spec(files: Seq<(TranscriptFileV, Seq<JsonV>)>) -> Seq<Map<Seq<char>, CellV>>
    decreases files.len(),
{
    if files.len() == 0 {
        Seq::empty()
    } else {
        let (f, recs) = files.last();
        transcript_rows_spec(files.drop_last()) + recs.map_values(|j: JsonV| transcript_row_spec(j, f))
    }
}

pub open spec fn loaded_files_view(v: Seq<TranscriptRecords>) -> Seq<(TranscriptFileV, Seq<JsonV>)> {
    v.map_values(|t: TranscriptRecords| (t.file@, records_view(t.records@)))
}

/// The rows of the transcripts table.
pub fn transcript_rows(files: &Vec<TranscriptRecords>) -> (rows: Vec<Row>)
    ensures
        rows_view(rows@) == transcript_rows_spec(loaded_files_view(files@)),
{
    let ghost lv = loaded_files_view(files@);
    let mut rows: Vec<Row> = Vec::new();
    let mut i: usize = 0;
    while i < files.len()
        invariant
            i <= files@.len(),
            lv == loaded_files_view(files@),
            rows_view(rows@) == transcript_rows_spec(lv.take(i as int)),
        decreases files.len() - i,
    {
        assert(lv.take(i + 1).drop_last() =~= lv.take(i as int));
        let file = &files[i].file;
        let records = &files[i].records;
        let ghost start = rows_view(rows@);
        let ghost rv = records_view(records@);
        let ghost target = rv.map_values(|j: JsonV| transcript_row_spec(j, file@));
        let mut k: usize = 0;
        while k < records.len()
            invariant
                k <= records@.len(),
                rv == records_view(records@),
                target == rv.map_values(|j: JsonV| transcript_row_spec(j, file@)),
                rows_view(rows@) == start + target.take(k as int),
            decreases records.len() - k,
        {
            let row = json_to_data_row_with_meta(&records[k], file);
            let ghost before = rows@;
            rows.push(row);
            assert(rows_view(rows@) =~= rows_view(before).push(row@));
            assert(start + target.take(k + 1) =~= (start + target.take(k as int)).push(target[k as int]));
            k = k + 1;
        }
        assert(target.take(records.len() as int) =~= target);
        assert(lv[i as int] == (file@, rv));
        i = i + 1;
    }
    assert(lv.take(files.len() as int) =~= lv);
    rows
}

/// A todo file: its name, and its parsed content if it could be read and parsed.
pub struct TodoFile {
    pub source_file: String,
    pub content: Option<Json>,
}

/// The rows of one todo file: one per item of an array, one for an object,
/// none otherwise.
pub open spec fn todo_file_rows_spec(source_file: Seq<char>, content: Option<JsonV>) -> Seq<Map<Seq<char>, CellV>> {
    let (ws, agent) = todo_name_parts(source_file);
    match content {
        Some(JsonV::Array(items)) => items.map_values(|j: JsonV| todo_row_spec(j, source_file, ws, agent)),
        Some(JsonV::Object(fields)) => seq![todo_row_spec(JsonV::Object(fields), source_file, ws, agent)],
        _ => Seq::empty(),
    }
}

/// The rows of the todos table: the rows of each file, in order.
pub open spec fn todo_rows_spec(files: Seq<(Seq<char>, Option<JsonV>)>) -> Seq<Map<Seq<char>, CellV>>
    decreases files.len(),
{
    if files.len() == 0 {
        Seq::empty()
    } else {
        todo_rows_spec(files.drop_last()) + todo_file_rows_spec(files.last().0, files.last().1)
    }
}

pub open spec fn todo_files_view(v: Seq<TodoFile>) -> Seq<(Seq<char>, Option<JsonV>)> {
    v.map_values(
        |t: TodoFile|
            (
                t.source_file@,
                match t.content {
                    Some(j) => Some(j@),
                    None => None,
                },
            ),
    )
}

/// The rows of one todo file.
pub fn todo_file_rows(file: &TodoFile) -> (rows: Vec<Row>)
    ensures
        rows_view(rows@) == todo_file_rows_spec(
            file.source_file@,
            match file.content {
                Some(j) => Some(j@),
                None => None,
            },
        ),
{
    let source_file = &file.source_file;
    let (workspace_id, agent_id) = parse_todo_filename(source_file.as_str());
    let mut rows: Vec<Row> = Vec::new();
    match &file.content {
        Some(content) => match content {
            Json::Array(items) => {
                let ghost iv = content@->Array_0;
                let ghost target = iv.map_values(
                    |j: JsonV| todo_row_spec(j, source_file@, workspace_id@, agent_id@),
                );
                let mut k: usize = 0;
                while k < items.len()
                    invariant
                        *content == Json::Array(*items),
                        iv == content@->Array_0,
                        k <= items@.len(),
                        iv.len() == items@.len(),
                        target == iv.map_values(
                            |j: JsonV| todo_row_spec(j, source_file@, workspace_id@, agent_id@),
                        ),
                        rows_view(rows@) == target.take(k as int),
                    decreases items.len() - k,
                {
                    assert(iv[k as int] == items@[k as int]@);
                    let row = todo_json_to_data_row(
                        &items[k],
                        source_file.as_str(),
                        workspace_id.as_str(),
                        agent_id.as_str(),
                    );
                    let ghost before = rows@;
                    rows.push(row);
                    assert(rows_view(rows@) =~= rows_view(before).push(row@));
                    assert(target.take(k + 1) =~= target.take(k as int).push(target[k as int]));
                    k = k + 1;
                }
                assert(target.take(items.len() as int) =~= target);
            },
            Json::Object(_) => {
                let row = todo_json_to_data_row(
                    content,
                    source_file.as_str(),
                    workspace_id.as_str(),
                    agent_id.as_str(),
                );
                rows.push(row);
                assert(rows_view(rows@) =~= seq![row@]);
            },
            _ => {
                assert(rows_view(rows@) =~= Seq::<Map<Seq<char>, CellV>>::empty());
            },
        },
        None => {
            assert(rows_view(rows@) =~= Seq::<Map<Seq<char>, CellV>>::empty());
        },
    }
    rows
}

/// The rows of the todos table.
pub fn todo_rows(files: &Vec<TodoFile>) -> (rows: Vec<Row>)
    ensures
        rows_view(rows@) == todo_rows_spec(todo_files_view(files@)),
{
    let ghost tv = todo_files_view(files@);
    let mut rows: Vec<Row> = Vec::new();
    let mut i: usize = 0;
    while i < files.len()
        invariant
            i <= files@.len(),
            tv == todo_files_view(files@),
            rows_view(rows@) == todo_rows_spec(tv.take(i as int)),
        decreases files.len() - i,
    {
        assert(tv.take(i + 1).drop_last() =~= tv.take(i as int));
        let mut more = todo_file_rows(&files[i]);
        let ghost before = rows@;
        let ghost added = more@;
        rows.append(&mut more);
        assert(rows_view(rows@) =~= rows_view(before) + rows_view(added));
        i = i + 1;
    }
    assert(tv.take(files.len() as int) =~= tv);
    rows
}

/// The row stored under key `key` in a virtual table whose rows are `rows`:
/// rows are keyed by their position, so the row at `key` when it is a position.
pub fn fetch_row(rows: Vec<Row>, key: i64) -> (r: Option<Row>)
    ensures
        match r {
            Some(row) => 0 <= key < rows@.len() && row == rows@[key as int],
            None => !(0 <= key < rows@.len()),
        },
{
    let mut rows = rows;
    if key < 0 || key as u64 >= rows.len() as u64 {
        return None;
    }
    let i = key as usize;
    Some(rows.swap_remove(i))
}

// ---------------------------------------------------------------------------
// Laws
// ---------------------------------------------------------------------------
/// Inserting the members of an object: a key that is skipped or that no member
/// has keeps its cell, any other key gets the cell of its last member.
pub proof fn lemma_insert_members_at(
    m: Map<Seq<char>, CellV>,
    fields: Seq<(Seq<char>, JsonV)>,
    skip: spec_fn(Seq<char>) -> bool,
    k: Seq<char>,
)
    ensures
        skip(k) || fields_get(fields, k) is None ==> {
            &&& insert_members(m, fields, skip).dom().contains(k) == m.dom().contains(k)
            &&& m.dom().contains(k) ==> insert_members(m, fields, skip)[k] == m[k]
        },
        !skip(k) && fields_get(fields, k) is Some ==> {
            &&& insert_members(m, fields, skip).dom().contains(k)
            &&& insert_members(m, fields, skip)[k] == glue_of(fields_get(fields, k)->0)
        },
    decreases fields.len(),
{
    if fields.len() > 0 {
        lemma_insert_members_at(m, fields.drop_last(), skip, k);
    }
}

/// The columns that flattening may add.
pub open spec fn flattened_column(k: Seq<char>) -> bool {
    ||| k == "model"@
    ||| k == "usage_input_tokens"@
    ||| k == "usage_output_tokens"@
    ||| k == "usage_cache_read_input_tokens"@
    ||| k == "usage_cache_creation_input_tokens"@
    ||| k == "usage_service_tier"@
    ||| k == "usage_ephemeral_5m_input_tokens"@
    ||| k == "usage_ephemeral_1h_input_tokens"@
}

proof fn lemma_put_keeps(m: Map<Seq<char>, CellV>, key: Seq<char>, value: Option<JsonV>)
    ensures
        forall|k: Seq<char>|
            m.dom().contains(k) ==> #[trigger] put_spec(m, key, value).dom().contains(k)
                && put_spec(m, key, value)[k] == m[k],
        forall|k: Seq<char>|
            #[trigger] put_spec(m, key, value).dom().contains(k) ==> m.dom().contains(k) || k
                == key,
{
}

/// Flattening never overwrites a column that is already set (existing keys
/// win), and the only columns it adds are `model` and the `usage_*` columns.
pub proof fn law_flatten_keeps_existing(j: JsonV, m: Map<Seq<char>, CellV>)
    ensures
        forall|k: Seq<char>|
            m.dom().contains(k) ==> #[trigger] flatten_spec(j, m).dom().contains(k)
                && flatten_spec(j, m)[k] == m[k],
        forall|k: Seq<char>|
            #[trigger] flatten_spec(j, m).dom().contains(k) && !m.dom().contains(k)
                ==> flattened_column(k),
{
    if json_get_str(j, "type"@) == Some("assistant"@) {
        match json_get(j, "message"@) {
            None => {},
            Some(msg) => {
                let usage = json_get(msg, "usage"@);
                let cc = json_get_opt(usage, "cache_creation"@);
                let m1 = put_spec(m, "model"@, json_get(msg, "model"@));
                let m2 = put_spec(m1, "usage_input_tokens"@, json_get_opt(usage, "input_tokens"@));
                let m3 = put_spec(m2, "usage_output_tokens"@, json_get_opt(usage, "output_tokens"@));
                let m4 = put_spec(
                    m3,
                    "usage_cache_read_input_tokens"@,
                    json_get_opt(usage, "cache_read_input_tokens"@),
                );
                let m5 = put_spec(
                    m4,
                    "usage_cache_creation_input_tokens"@,
                    json_get_opt(usage, "cache_creation_input_tokens"@),
                );
                let m6 = put_spec(m5, "usage_service_tier"@, json_get_opt(usage, "service_tier"@));
                let m7 = put_spec(
                    m6,
                    "usage_ephemeral_5m_input_tokens"@,
                    json_get_opt(cc, "ephemeral_5m_input_tokens"@),
                );
                lemma_put_keeps(m, "model"@, json_get(msg, "model"@));
                lemma_put_keeps(m1, "usage_input_tokens"@, json_get_opt(usage, "input_tokens"@));
                lemma_put_keeps(m2, "usage_output_tokens"@, json_get_opt(usage, "output_tokens"@));
                lemma_put_keeps(
                    m3,
                    "usage_cache_read_input_tokens"@,
                    json_get_opt(usage, "cache_read_input_tokens"@),
                );
                lemma_put_keeps(
                    m4,
                    "usage_cache_creation_input_tokens"@,
                    json_get_opt(usage, "cache_creation_input_tokens"@),
                );
                lemma_put_keeps(m5, "usage_service_tier"@, json_get_opt(usage, "service_tier"@));
                lemma_put_keeps(
                    m6,
                    "usage_ephemeral_5m_input_tokens"@,
                    json_get_opt(cc, "ephemeral_5m_input_tokens"@),
                );
                lemma_put_keeps(
                    m7,
                    "usage_ephemeral_1h_input_tokens"@,
                    json_get_opt(cc, "ephemeral_1h_input_tokens"@),
                );
            },
        }
    }
}

/// Only assistant records get flattened columns: any other record's row is
/// left as it is.
pub proof fn law_flatten_only_assistant(j: JsonV, m: Map<Seq<char>, CellV>)
    requires
        json_get_str(j, "type"@) != Some("assistant"@),
    ensures
        flatten_spec(j, m) == m,
{
}

/// Every member of a transcript record is a column of its row, holding the
/// record's value (the last one, for a repeated key): neither the metadata nor
/// the flattened columns replace it.
pub proof fn law_transcript_row_keeps_members(j: JsonV, f: TranscriptFileV, k: Seq<char>)
    requires
        json_get(j, k) is Some,
    ensures
        transcript_row_spec(j, f).dom().contains(k),
        transcript_row_spec(j, f)[k] == glue_of(json_get(j, k)->0),
{
    let m1 = Map::empty().insert("_source_file"@, CellV::Str(f.source_file)).insert(
        "_session_id"@,
        CellV::Str(f.session_id),
    );
    let m2 = match f.project {
        Some(p) => m1.insert("_project"@, CellV::Str(p)),
        None => m1,
    };
    let m3 = match f.agent_id {
        Some(a) => m2.insert("_agent_id"@, CellV::Str(a)),
        None => m2,
    };
    let fields = j->Object_0;
    lemma_insert_members_at(m3, fields, skip_none(), k);
    law_flatten_keeps_existing(j, insert_object(m3, j, skip_none()));
}

/// The session of a transcript row is that of its file, unless the record
/// itself has a `_session_id` member; likewise for `_source_file`.
pub proof fn law_transcript_row_metadata(j: JsonV, f: TranscriptFileV)
    ensures
        !json_has(j, "_session_id"@) ==> transcript_row_spec(j, f).dom().contains("_session_id"@)
            && transcript_row_spec(j, f)["_session_id"@] == CellV::Str(f.session_id),
        !json_has(j, "_source_file"@) ==> transcript_row_spec(j, f).dom().contains("_source_file"@)
            && transcript_row_spec(j, f)["_source_file"@] == CellV::Str(f.source_file),
{
    reveal_strlit("_session_id");
    reveal_strlit("_source_file");
    reveal_strlit("_project");
    reveal_strlit("_agent_id");
    assert("_session_id"@ != "_source_file"@) by {
        assert("_session_id"@[2] != "_source_file"@[2]);
    }
    assert("_session_id"@ != "_project"@) by {
        assert("_session_id"@[1] != "_project"@[1]);
    }
    assert("_session_id"@ != "_agent_id"@) by {
        assert("_session_id"@[1] != "_agent_id"@[1]);
    }
    assert("_source_file"@ != "_project"@) by {
        assert("_source_file"@[1] != "_project"@[1]);
    }
    assert("_source_file"@ != "_agent_id"@) by {
        assert("_source_file"@[1] != "_agent_id"@[1]);
    }
    let m1 = Map::empty().insert("_source_file"@, CellV::Str(f.source_file)).insert(
        "_session_id"@,
        CellV::Str(f.session_id),
    );
    let m2 = match f.project {
        Some(p) => m1.insert("_project"@, CellV::Str(p)),
        None => m1,
    };
    let m3 = match f.agent_id {
        Some(a) => m2.insert("_agent_id"@, CellV::Str(a)),
        None => m2,
    };
    match j {
        JsonV::Object(fields) => {
            lemma_insert_members_at(m3, fields, skip_none(), "_session_id"@);
            lemma_insert_members_at(m3, fields, skip_none(), "_source_file"@);
        },
        _ => {},
    }
    law_flatten_keeps_existing(j, insert_object(m3, j, skip_none()));
}

/// In a Codex history row, `display` and `text` hold the same text,
/// `session_id` and `sessionId` the same session, and `timestamp` is `ts` in
/// milliseconds (saturated): the normalized columns are never replaced by a
/// member of the record.
pub proof fn law_jhistory_aliases(j: JsonV)
    requires
        jhistory_row_spec(j) is Some,
    ensures
        ({
            let r = jhistory_row_spec(j)->0;
            &&& r.dom().contains("display"@) && r.dom().contains("text"@)
            &&& r["display"@] == r["text"@]
            &&& r["display"@] == CellV::Str(string_or_empty(first_of(j, "text"@, "display"@)))
            &&& r.dom().contains("session_id"@) && r.dom().contains("sessionId"@)
            &&& r["session_id"@] == r["sessionId"@]
            &&& r.dom().contains("ts"@) && r.dom().contains("timestamp"@)
            &&& r["ts"@] == CellV::I64(jhistory_ts_spec(j))
            &&& r["timestamp"@] == CellV::I64(millis_spec(jhistory_ts_spec(j)))
        }),
{
    reveal_strlit("display");
    reveal_strlit("timestamp");
    reveal_strlit("session_id");
    reveal_strlit("sessionId");
    reveal_strlit("text");
    reveal_strlit("ts");
    let fields = j->Object_0;
    let text = string_or_empty(first_of(j, "text"@, "display"@));
    let sid = string_or_empty(first_of(j, "session_id"@, "sessionId"@));
    let ts = jhistory_ts_spec(j);
    assert("display"@ != "timestamp"@ && "display"@ != "session_id"@ && "display"@
        != "sessionId"@ && "display"@ != "text"@ && "display"@ != "ts"@) by {
        assert("display"@[0] == 'd');
        assert("timestamp"@[0] == 't' && "session_id"@[0] == 's' && "sessionId"@[0] == 's');
        assert("text"@[0] == 't' && "ts"@[0] == 't');
    }
    assert("timestamp"@ != "session_id"@ && "timestamp"@ != "sessionId"@ && "timestamp"@
        != "text"@ && "timestamp"@ != "ts"@) by {
        assert("timestamp"@[1] == 'i' && "text"@[1] == 'e' && "ts"@[1] == 's');
        assert("session_id"@[0] == 's' && "sessionId"@[0] == 's');
    }
    assert("session_id"@ != "sessionId"@ && "session_id"@ != "text"@ && "session_id"@
        != "ts"@) by {
        assert("session_id"@[7] == '_' && "sessionId"@[7] == 'I');
        assert("text"@[0] == 't' && "ts"@[0] == 't');
    }
    assert("sessionId"@ != "text"@ && "sessionId"@ != "ts"@ && "text"@ != "ts"@) by {
        assert("sessionId"@[0] == 's' && "text"@[0] == 't' && "ts"@[0] == 't');
        assert("text"@.len() == 4 && "ts"@.len() == 2);
    }
    let base = Map::empty().insert("display"@, CellV::Str(text)).insert(
        "timestamp"@,
        CellV::I64(millis_spec(ts)),
    ).insert("session_id"@, CellV::Str(sid)).insert("sessionId"@, CellV::Str(sid)).insert(
        "text"@,
        CellV::Str(text),
    ).insert("ts"@, CellV::I64(ts));
    lemma_insert_members_at(base, fields, jhistory_reserved_fn(), "display"@);
    lemma_insert_members_at(base, fields, jhistory_reserved_fn(), "timestamp"@);
    lemma_insert_members_at(base, fields, jhistory_reserved_fn(), "session_id"@);
    lemma_insert_members_at(base, fields, jhistory_reserved_fn(), "sessionId"@);
    lemma_insert_members_at(base, fields, jhistory_reserved_fn(), "text"@);
    lemma_insert_members_at(base, fields, jhistory_reserved_fn(), "ts"@);
}

/// A todo file name made of a workspace id in which `-agent-` does not start,
/// `-agent-`, an agent id and `.json` splits back into that workspace id and
/// that agent id.
pub proof fn law_todo_filename_round_trip(w: Seq<char>, a: Seq<char>)
    requires
        forall|i: int| 0 <= i < w.len() ==> !occurs_at(w + "-agent-"@, "-agent-"@, i),
    ensures
        todo_name_parts(w + "-agent-"@ + a + ".json"@) == (w, a),
{
    reveal_strlit("-agent-");
    reveal_strlit(".json");
    let name = w + "-agent-"@ + a;
    let filename = name + ".json"@;
    assert(filename.skip(filename.len() - 5) =~= ".json"@);
    assert(filename.take(filename.len() - 5) =~= name);
    assert(todo_base_name(filename) == name);
    assert(occurs_at(name, "-agent-"@, w.len() as int)) by {
        assert(name.subrange(w.len() as int, w.len() as int + 7) =~= "-agent-"@);
    }
    assert forall|i: int| 0 <= i < w.len() implies !occurs_at(name, "-agent-"@, i) by {
        if occurs_at(name, "-agent-"@, i) {
            assert(name.subrange(i, i + 7) =~= (w + "-agent-"@).subrange(i, i + 7));
            assert(occurs_at(w + "-agent-"@, "-agent-"@, i));
        }
    }
    reveal(find_first);
    let first = choose|i: int|
        occurs_at(name, "-agent-"@, i) && forall|j: int| 0 <= j < i ==> !occurs_at(
            name,
            "-agent-"@,
            j,
        );
    assert(first == w.len()) by {
        if first < w.len() {
            assert(!occurs_at(name, "-agent-"@, first));
        }
        if first > w.len() {
            assert(!occurs_at(name, "-agent-"@, w.len() as int));
        }
    }
    assert(name.take(w.len() as int) =~= w);
    assert(name.skip(w.len() as int + 7) =~= a);
}

/// A todo file name `<name>.json` in which `-agent-` does not occur names the
/// workspace `<name>`, with the agent `"unknown"`.
pub proof fn law_todo_filename_without_agent(n: Seq<char>)
    requires
        forall|i: int| !occurs_at(n, "-agent-"@, i),
    ensures
        todo_name_parts(n + ".json"@) == (n, "unknown"@),
{
    reveal_strlit(".json");
    let filename = n + ".json"@;
    assert(filename.skip(filename.len() - 5) =~= ".json"@);
    assert(filename.take(filename.len() - 5) =~= n);
    reveal(find_first);
}

} // verus!
