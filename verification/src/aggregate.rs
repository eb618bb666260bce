//! The `sessions` virtual table: one row per top-level session file,
//! aggregating the records of that file.
use vstd::prelude::*;
use crate::cell::{Cell, CellV, Row};
use crate::json::{Json, JsonV, get, get_str, json_get, json_get_opt, json_get_str};
use crate::storage::{as_i64_spec, json_value_as_i64, records_view, rows_view};
use crate::text::{owned, seq_less, str_eq, str_less};
use crate::transcript::{TranscriptFile, TranscriptFileV, files_view, opt_view};

verus! {

broadcast use vstd::std_specs::vec::group_vec_axioms;

/// Per-session aggregation state.
pub struct SessionAggregate {
    pub cwd: Option<String>,
    pub git_branch: Option<String>,
    pub version: Option<String>,
    pub title: Option<String>,
    pub first_timestamp: Option<String>,
    pub last_timestamp: Option<String>,
    pub user_message_count: i64,
    pub assistant_message_count: i64,
    pub total_input_tokens: i64,
    pub total_output_tokens: i64,
    pub total_cache_read_input_tokens: i64,
    pub total_cache_creation_input_tokens: i64,
    pub pr_url: Option<String>,
    pub pr_number: Option<i64>,
}

/// The value of an aggregation state, with its counters as integers.
pub struct AggregateV {
    pub cwd: Option<Seq<char>>,
    pub git_branch: Option<Seq<char>>,
    pub version: Option<Seq<char>>,
    pub title: Option<Seq<char>>,
    pub first_timestamp: Option<Seq<char>>,
    pub last_timestamp: Option<Seq<char>>,
    pub user_message_count: int,
    pub assistant_message_count: int,
    pub total_input_tokens: int,
    pub total_output_tokens: int,
    pub total_cache_read_input_tokens: int,
    pub total_cache_creation_input_tokens: int,
    pub pr_url: Option<Seq<char>>,
    pub pr_number: Option<i64>,
}

impl View for SessionAggregate {
    type V = AggregateV;

    open spec fn view(&self) -> AggregateV {
        AggregateV {
            cwd: opt_view(self.cwd),
            git_branch: opt_view(self.git_branch),
            version: opt_view(self.version),
            title: opt_view(self.title),
            first_timestamp: opt_view(self.first_timestamp),
            last_timestamp: opt_view(self.last_timestamp),
            user_message_count: self.user_message_count as int,
            assistant_message_count: self.assistant_message_count as int,
            total_input_tokens: self.total_input_tokens as int,
            total_output_tokens: self.total_output_tokens as int,
            total_cache_read_input_tokens: self.total_cache_read_input_tokens as int,
            total_cache_creation_input_tokens: self.total_cache_creation_input_tokens as int,
            pr_url: opt_view(self.pr_url),
            pr_number: self.pr_number,
        }
    }
}

/// The state before any record: nothing seen, every count 0.
pub open spec fn empty_aggregate() -> AggregateV {
    AggregateV {
        cwd: None,
        git_branch: None,
        version: None,
        title: None,
        first_timestamp: None,
        last_timestamp: None,
        user_message_count: 0,
        assistant_message_count: 0,
        total_input_tokens: 0,
        total_output_tokens: 0,
        total_cache_read_input_tokens: 0,
        total_cache_creation_input_tokens: 0,
        pr_url: None,
        pr_number: None,
    }
}

/// Whether every counter fits in `i64`.
pub open spec fn counters_fit(a: AggregateV) -> bool {
    &&& i64::MIN <= a.user_message_count <= i64::MAX
    &&& i64::MIN <= a.assistant_message_count <= i64::MAX
    &&& i64::MIN <= a.total_input_tokens <= i64::MAX
    &&& i64::MIN <= a.total_output_tokens <= i64::MAX
    &&& i64::MIN <= a.total_cache_read_input_tokens <= i64::MAX
    &&& i64::MIN <= a.total_cache_creation_input_tokens <= i64::MAX
}

/// A token count of a usage object: the member read as an integer, else 0.
pub open spec fn token_spec(usage: JsonV, key: Seq<char>) -> int {
    match json_get(usage, key) {
        Some(v) => match as_i64_spec(v) {
            Some(t) => t as int,
            None => 0,
        },
        None => 0,
    }
}

/// The timestamps after seeing `ts`: the first is the least seen, the last
/// the greatest (ISO 8601 timestamps compare as strings).
pub open spec fn observe_timestamp(a: AggregateV, ts: Option<Seq<char>>) -> AggregateV {
    match ts {
        None => a,
        Some(t) => AggregateV {
            first_timestamp: if a.first_timestamp is None || seq_less(t, a.first_timestamp->0) {
                Some(t)
            } else {
                a.first_timestamp
            },
            last_timestamp: if a.last_timestamp is None || seq_less(a.last_timestamp->0, t) {
                Some(t)
            } else {
                a.last_timestamp
            },
            ..a
        },
    }
}

/// The state after seeing `cwd`, `gitBranch` (both first seen) and `version` (last seen).
pub open spec fn observe_context(a: AggregateV, j: JsonV) -> AggregateV {
    AggregateV {
        cwd: if a.cwd is None { json_get_str(j, "cwd"@) } else { a.cwd },
        git_branch: if a.git_branch is None { json_get_str(j, "gitBranch"@) } else { a.git_branch },
        version: match json_get_str(j, "version"@) {
            Some(v) => Some(v),
            None => a.version,
        },
        ..a
    }
}

/// The state after the typed part of a record: `user` and `assistant` records
/// are counted, an assistant's `message.usage` tokens summed, an `ai-title`
/// sets the title, a `pr-link` the pull request's URL and number.
pub open spec fn observe_typed(a: AggregateV, j: JsonV) -> AggregateV {
    let t = json_get_str(j, "type"@);
    if t == Some("user"@) {
        AggregateV { user_message_count: a.user_message_count + 1, ..a }
    } else if t == Some("assistant"@) {
        let counted = AggregateV { assistant_message_count: a.assistant_message_count + 1, ..a };
        match json_get_opt(json_get(j, "message"@), "usage"@) {
            Some(usage) => AggregateV {
                total_input_tokens: counted.total_input_tokens + token_spec(usage, "input_tokens"@),
                total_output_tokens: counted.total_output_tokens + token_spec(usage, "output_tokens"@),
                total_cache_read_input_tokens: counted.total_cache_read_input_tokens + token_spec(
                    usage,
                    "cache_read_input_tokens"@,
                ),
                total_cache_creation_input_tokens: counted.total_cache_creation_input_tokens
                    + token_spec(usage, "cache_creation_input_tokens"@),
                ..counted
            },
            None => counted,
        }
    } else if t == Some("ai-title"@) {
        match json_get_str(j, "aiTitle"@) {
            Some(title) => AggregateV { title: Some(title), ..a },
            None => a,
        }
    } else if t == Some("pr-link"@) {
        let with_url = match json_get_str(j, "prUrl"@) {
            Some(url) => AggregateV { pr_url: Some(url), ..a },
            None => a,
        };
        match json_get(j, "prNumber"@) {
            Some(v) => match as_i64_spec(v) {
                Some(n) => AggregateV { pr_number: Some(n), ..with_url },
                None => with_url,
            },
            None => with_url,
        }
    } else {
        a
    }
}

/// The state after seeing one record.
pub open spec fn observe_spec(a: AggregateV, j: JsonV) -> AggregateV {
    observe_typed(observe_context(observe_timestamp(a, json_get_str(j, "timestamp"@)), j), j)
}

/// The state after seeing the records in order.
pub open spec fn aggregate_spec(records: Seq<JsonV>) -> AggregateV
    decreases records.len(),
{
    if records.len() == 0 {
        empty_aggregate()
    } else {
        observe_spec(aggregate_spec(records.drop_last()), records.last())
    }
}

/// Whether the counters fit in `i64` after every prefix of the records.
pub open spec fn aggregate_fits(records: Seq<JsonV>) -> bool {
    forall|k: int| 0 <= k <= records.len() ==> counters_fit(#[trigger] aggregate_spec(records.take(k)))
}

fn opt_clone(o: &Option<String>) -> (r: Option<String>)
    ensures
        opt_view(r) == opt_view(*o),
{
    match o {
        Some(s) => Some(s.clone()),
        None => None,
    }
}

fn get_str_owned(j: &Json, key: &str) -> (r: Option<String>)
    ensures
        opt_view(r) == json_get_str(j@, key@),
{
    match get_str(j, key) {
        Some(s) => Some(s.clone()),
        None => None,
    }
}

fn token(usage: &Json, key: &str) -> (t: i64)
    ensures
        t as int == token_spec(usage@, key@),
{
    match get(usage, key) {
        Some(v) => match json_value_as_i64(v) {
            Some(t) => t,
            None => 0,
        },
        None => 0,
    }
}

/// Whether `x + y` fits in `i64`.
fn sum_fits(x: i64, y: i64) -> (b: bool)
    ensures
        b == (i64::MIN <= x + y <= i64::MAX),
{
    let z = x as i128 + y as i128;
    i64::MIN as i128 <= z && z <= i64::MAX as i128
}

impl SessionAggregate {
    /// The state before any record.
    pub fn new() -> (a: SessionAggregate)
        ensures
            a@ == empty_aggregate(),
    {
        SessionAggregate {
            cwd: None,
            git_branch: None,
            version: None,
            title: None,
            first_timestamp: None,
            last_timestamp: None,
            user_message_count: 0,
            assistant_message_count: 0,
            total_input_tokens: 0,
            total_output_tokens: 0,
            total_cache_read_input_tokens: 0,
            total_cache_creation_input_tokens: 0,
            pr_url: None,
            pr_number: None,
        }
    }

    fn observe_timestamp(&mut self, json: &Json)
        ensures
            final(self)@ == observe_timestamp(old(self)@, json_get_str(json@, "timestamp"@)),
    {
        if let Some(ts) = get_str(json, "timestamp") {
            let earlier = match &self.first_timestamp {
                None => true,
                Some(f) => str_less(ts.as_str(), f.as_str()),
            };
            if earlier {
                self.first_timestamp = Some(ts.clone());
            }
            let later = match &self.last_timestamp {
                None => true,
                Some(l) => str_less(l.as_str(), ts.as_str()),
            };
            if later {
                self.last_timestamp = Some(ts.clone());
            }
        }
    }

    fn observe_context(&mut self, json: &Json)
        ensures
            final(self)@ == observe_context(old(self)@, json@),
    {
        if self.cwd.is_none() {
            self.cwd = get_str_owned(json, "cwd");
        }
        if self.git_branch.is_none() {
            self.git_branch = get_str_owned(json, "gitBranch");
        }
        if let Some(version) = get_str_owned(json, "version") {
            self.version = Some(version);
        }
    }

    fn observe_typed(&mut self, json: &Json)
        requires
            counters_fit(observe_typed(old(self)@, json@)),
        ensures
            final(self)@ == observe_typed(old(self)@, json@),
    {
        let t = match get_str(json, "type") {
            Some(t) => t,
            None => {
                return;
            },
        };
        proof {
            reveal_strlit("user");
            reveal_strlit("assistant");
            reveal_strlit("ai-title");
            reveal_strlit("pr-link");
            assert("user"@.len() == 4);
            assert("assistant"@.len() == 9);
            assert("ai-title"@.len() == 8 && "ai-title"@[0] == 'a' && "ai-title"@[1] == 'i');
            assert("pr-link"@.len() == 7);
            assert("assistant"@[1] == 's');
        }
        if str_eq(t.as_str(), "user") {
            self.user_message_count = self.user_message_count + 1;
        } else if str_eq(t.as_str(), "assistant") {
            self.assistant_message_count = self.assistant_message_count + 1;
            let usage = match get(json, "message") {
                Some(m) => get(m, "usage"),
                None => None,
            };
            if let Some(usage) = usage {
                let a = token(usage, "input_tokens");
                let b = token(usage, "output_tokens");
                let c = token(usage, "cache_read_input_tokens");
                let d = token(usage, "cache_creation_input_tokens");
                self.total_input_tokens = self.total_input_tokens + a;
                self.total_output_tokens = self.total_output_tokens + b;
                self.total_cache_read_input_tokens = self.total_cache_read_input_tokens + c;
                self.total_cache_creation_input_tokens = self.total_cache_creation_input_tokens + d;
            }
        } else if str_eq(t.as_str(), "ai-title") {
            if let Some(title) = get_str_owned(json, "aiTitle") {
                self.title = Some(title);
            }
        } else if str_eq(t.as_str(), "pr-link") {
            if let Some(url) = get_str_owned(json, "prUrl") {
                self.pr_url = Some(url);
            }
            let n = match get(json, "prNumber") {
                Some(v) => json_value_as_i64(v),
                None => None,
            };
            if let Some(n) = n {
                self.pr_number = Some(n);
            }
        }
    }

    /// Whether every counter still fits in `i64` once `json` is taken into account.
    pub fn fits_after(&self, json: &Json) -> (b: bool)
        requires
            counters_fit(self@),
        ensures
            b == counters_fit(observe_spec(self@, json@)),
    {
        proof {
            lemma_type_names_differ();
        }
        let t = match get_str(json, "type") {
            Some(t) => t,
            None => {
                return true;
            },
        };
        if str_eq(t.as_str(), "user") {
            sum_fits(self.user_message_count, 1)
        } else if str_eq(t.as_str(), "assistant") {
            if !sum_fits(self.assistant_message_count, 1) {
                return false;
            }
            let usage = match get(json, "message") {
                Some(m) => get(m, "usage"),
                None => None,
            };
            match usage {
                Some(usage) => {
                    sum_fits(self.total_input_tokens, token(usage, "input_tokens"))
                        && sum_fits(self.total_output_tokens, token(usage, "output_tokens"))
                        && sum_fits(self.total_cache_read_input_tokens, token(usage, "cache_read_input_tokens"))
                        && sum_fits(
                        self.total_cache_creation_input_tokens,
                        token(usage, "cache_creation_input_tokens"),
                    )
                },
                None => true,
            }
        } else {
            true
        }
    }

    /// Takes one record into account.
    pub fn observe(&mut self, json: &Json)
        requires
            counters_fit(observe_spec(old(self)@, json@)),
        ensures
            final(self)@ == observe_spec(old(self)@, json@),
    {
        self.observe_timestamp(json);
        self.observe_context(json);
        self.observe_typed(json);
    }

    /// The session's row: `session_id`, `project` (when known), the strings seen
    /// (when seen), the counts and token totals, `subagent_count`, and
    /// `pr_number` (when seen).
    pub fn into_data_row(self, file: &TranscriptFile, subagent_count: i64) -> (r: Row)
        requires
            counters_fit(self@),
        ensures
            r@ == session_row_spec(self@, file@, subagent_count),
    {
        let mut row = Row::new();
        row.insert(owned("session_id"), Cell::Str(file.session_id.clone()));
        if let Some(project) = &file.project {
            row.insert(owned("project"), Cell::Str(project.clone()));
        }
        put_str(&mut row, "cwd", self.cwd);
        put_str(&mut row, "git_branch", self.git_branch);
        put_str(&mut row, "version", self.version);
        put_str(&mut row, "title", self.title);
        put_str(&mut row, "first_timestamp", self.first_timestamp);
        put_str(&mut row, "last_timestamp", self.last_timestamp);
        put_str(&mut row, "pr_url", self.pr_url);
        row.insert(owned("user_message_count"), Cell::I64(self.user_message_count));
        row.insert(owned("assistant_message_count"), Cell::I64(self.assistant_message_count));
        row.insert(owned("subagent_count"), Cell::I64(subagent_count));
        row.insert(owned("total_input_tokens"), Cell::I64(self.total_input_tokens));
        row.insert(owned("total_output_tokens"), Cell::I64(self.total_output_tokens));
        row.insert(owned("total_cache_read_input_tokens"), Cell::I64(self.total_cache_read_input_tokens));
        row.insert(
            owned("total_cache_creation_input_tokens"),
            Cell::I64(self.total_cache_creation_input_tokens),
        );
        if let Some(n) = self.pr_number {
            row.insert(owned("pr_number"), Cell::I64(n));
        }
        row
    }
}

/// `m` with the string `v` under `key` when there is one.
pub open spec fn put_str_spec(m: Map<Seq<char>, CellV>, key: Seq<char>, v: Option<Seq<char>>) -> Map<
    Seq<char>,
    CellV,
> {
    match v {
        Some(s) => m.insert(key, CellV::Str(s)),
        None => m,
    }
}

fn put_str(row: &mut Row, key: &str, value: Option<String>)
    ensures
        final(row)@ == put_str_spec(old(row)@, key@, opt_view(value)),
{
    if let Some(v) = value {
        row.insert(owned(key), Cell::Str(v));
    }
}

/// The row of a session.
pub open spec fn session_row_spec(a: AggregateV, f: TranscriptFileV, subagent_count: i64) -> Map<
    Seq<char>,
    CellV,
> {
    let m0 = Map::empty().insert("session_id"@, CellV::Str(f.session_id));
    let m1 = match f.project {
        Some(p) => m0.insert("project"@, CellV::Str(p)),
        None => m0,
    };
    let m2 = put_str_spec(m1, "cwd"@, a.cwd);
    let m3 = put_str_spec(m2, "git_branch"@, a.git_branch);
    let m4 = put_str_spec(m3, "version"@, a.version);
    let m5 = put_str_spec(m4, "title"@, a.title);
    let m6 = put_str_spec(m5, "first_timestamp"@, a.first_timestamp);
    let m7 = put_str_spec(m6, "last_timestamp"@, a.last_timestamp);
    let m8 = put_str_spec(m7, "pr_url"@, a.pr_url);
    let m9 = m8.insert("user_message_count"@, CellV::I64(a.user_message_count as i64)).insert(
        "assistant_message_count"@,
        CellV::I64(a.assistant_message_count as i64),
    ).insert("subagent_count"@, CellV::I64(subagent_count)).insert(
        "total_input_tokens"@,
        CellV::I64(a.total_input_tokens as i64),
    ).insert("total_output_tokens"@, CellV::I64(a.total_output_tokens as i64)).insert(
        "total_cache_read_input_tokens"@,
        CellV::I64(a.total_cache_read_input_tokens as i64),
    ).insert(
        "total_cache_creation_input_tokens"@,
        CellV::I64(a.total_cache_creation_input_tokens as i64),
    );
    match a.pr_number {
        Some(n) => m9.insert("pr_number"@, CellV::I64(n)),
        None => m9,
    }
}

/// Aggregates the records of a session file.
pub fn aggregate_records(records: &Vec<Json>) -> (a: SessionAggregate)
    requires
        aggregate_fits(records_view(records@)),
    ensures
        a@ == aggregate_spec(records_view(records@)),
        counters_fit(a@),
{
    let ghost rv = records_view(records@);
    let mut agg = SessionAggregate::new();
    let mut i: usize = 0;
    assert(rv.take(0) =~= Seq::<JsonV>::empty());
    while i < records.len()
        invariant
            i <= records@.len(),
            rv == records_view(records@),
            aggregate_fits(rv),
            agg@ == aggregate_spec(rv.take(i as int)),
        decreases records.len() - i,
    {
        assert(rv.take(i + 1).drop_last() =~= rv.take(i as int));
        assert(counters_fit(aggregate_spec(rv.take(i + 1))));
        agg.observe(&records[i]);
        i = i + 1;
    }
    assert(rv.take(records.len() as int) =~= rv);
    assert(counters_fit(aggregate_spec(rv.take(records.len() as int))));
    agg
}

/// Whether the counters of a session fit in `i64` all along its records, so
/// that they can be aggregated.
pub fn records_fit(records: &Vec<Json>) -> (b: bool)
    ensures
        b == aggregate_fits(records_view(records@)),
{
    let ghost rv = records_view(records@);
    let mut agg = SessionAggregate::new();
    let mut i: usize = 0;
    assert(rv.take(0) =~= Seq::<JsonV>::empty());
    while i < records.len()
        invariant
            i <= records@.len(),
            rv == records_view(records@),
            agg@ == aggregate_spec(rv.take(i as int)),
            forall|k: int| 0 <= k <= i ==> counters_fit(#[trigger] aggregate_spec(rv.take(k))),
        decreases records.len() - i,
    {
        assert(rv.take(i + 1).drop_last() =~= rv.take(i as int));
        assert(counters_fit(aggregate_spec(rv.take(i as int))));
        if !agg.fits_after(&records[i]) {
            assert(!counters_fit(aggregate_spec(rv.take(i + 1))));
            return false;
        }
        agg.observe(&records[i]);
        i = i + 1;
    }
    assert(rv.take(records.len() as int) =~= rv);
    true
}

// ---------------------------------------------------------------------------
// The table
// ---------------------------------------------------------------------------
/// Whether `g` is a subagent transcript of the session of `f` (same project,
/// same session id).
pub open spec fn is_subagent_of(g: TranscriptFileV, f: TranscriptFileV) -> bool {
    g.agent_id is Some && g.project == f.project && g.session_id == f.session_id
}

/// The number of subagent transcripts of the session of `f` among `files`.
pub open spec fn subagent_count_spec(files: Seq<TranscriptFileV>, f: TranscriptFileV) -> nat
    decreases files.len(),
{
    if files.len() == 0 {
        0
    } else {
        subagent_count_spec(files.drop_last(), f) + if is_subagent_of(files.last(), f) {
            1nat
        } else {
            0nat
        }
    }
}

/// The rows of the files `files` (with their `records`), counting subagents among `all`.
pub open spec fn session_rows_with(
    files: Seq<TranscriptFileV>,
    records: Seq<Option<Seq<JsonV>>>,
    all: Seq<TranscriptFileV>,
) -> Seq<Map<Seq<char>, CellV>>
    decreases files.len(),
{
    if files.len() == 0 || records.len() != files.len() {
        Seq::empty()
    } else {
        let rest = session_rows_with(files.drop_last(), records.drop_last(), all);
        let f = files.last();
        match records.last() {
            Some(recs) => if f.agent_id is None {
                rest.push(session_row_spec(aggregate_spec(recs), f, subagent_count_spec(all, f) as i64))
            } else {
                rest
            },
            None => rest,
        }
    }
}

/// The rows of the sessions table: for each top-level file (no agent id) whose
/// records could be read, in order, the row of the aggregate of its own records
/// with the number of its subagent files. Subagent records count toward no session.
pub open spec fn session_rows_spec(files: Seq<TranscriptFileV>, records: Seq<Option<Seq<JsonV>>>) -> Seq<
    Map<Seq<char>, CellV>,
> {
    session_rows_with(files, records, files)
}

pub open spec fn optional_records_view(v: Seq<Option<Vec<Json>>>) -> Seq<Option<Seq<JsonV>>> {
    v.map_values(
        |o: Option<Vec<Json>>|
            match o {
                Some(r) => Some(records_view(r@)),
                None => None,
            },
    )
}

proof fn lemma_subagent_count_prefix(files: Seq<TranscriptFileV>, f: TranscriptFileV, k: int)
    requires
        0 <= k <= files.len(),
    ensures
        subagent_count_spec(files.take(k), f) <= subagent_count_spec(files, f),
        subagent_count_spec(files, f) <= files.len(),
    decreases files.len(),
{
    if files.len() > 0 {
        if k == files.len() {
            assert(files.take(k) =~= files);
            lemma_subagent_count_prefix(files.drop_last(), f, k - 1);
        } else {
            assert(files.drop_last().take(k) =~= files.take(k));
            lemma_subagent_count_prefix(files.drop_last(), f, k);
        }
    }
}

fn same_opt(a: &Option<String>, b: &Option<String>) -> (r: bool)
    ensures
        r == (opt_view(*a) == opt_view(*b)),
{
    match (a, b) {
        (Some(x), Some(y)) => str_eq(x.as_str(), y.as_str()),
        (None, None) => true,
        _ => false,
    }
}

/// The number of subagent transcripts of the session of `f`.
pub fn count_subagents(files: &Vec<TranscriptFile>, f: &TranscriptFile) -> (n: usize)
    ensures
        n == subagent_count_spec(files_view(files@), f@),
{
    let ghost fv = files_view(files@);
    let mut n: usize = 0;
    let mut i: usize = 0;
    while i < files.len()
        invariant
            i <= files@.len(),
            fv == files_view(files@),
            n == subagent_count_spec(fv.take(i as int), f@),
        decreases files.len() - i,
    {
        assert(fv.take(i + 1).drop_last() =~= fv.take(i as int));
        proof {
            lemma_subagent_count_prefix(fv, f@, i + 1);
        }
        let g = &files[i];
        if g.agent_id.is_some() && same_opt(&g.project, &f.project) && g.session_id == f.session_id {
            n = n + 1;
        }
        i = i + 1;
    }
    assert(fv.take(files.len() as int) =~= fv);
    n
}

/// The rows of the sessions table. `records[i]` are the records of `files[i]`,
/// or `None` when the file could not be opened.
pub fn session_rows(files: &Vec<TranscriptFile>, records: &Vec<Option<Vec<Json>>>) -> (rows: Vec<Row>)
    requires
        records@.len() == files@.len(),
        files@.len() <= i64::MAX,
        forall|i: int|
            0 <= i < files@.len() && files@[i].agent_id is None && (#[trigger] records@[i]) is Some
                ==> aggregate_fits(records_view(records@[i]->0@)),
    ensures
        rows_view(rows@) == session_rows_spec(files_view(files@), optional_records_view(records@)),
{
    let ghost fv = files_view(files@);
    let ghost ov = optional_records_view(records@);
    let mut rows: Vec<Row> = Vec::new();
    let mut i: usize = 0;
    while i < files.len()
        invariant
            i <= files@.len(),
            records@.len() == files@.len(),
            files@.len() <= i64::MAX,
            fv == files_view(files@),
            ov == optional_records_view(records@),
            forall|q: int|
                0 <= q < files@.len() && files@[q].agent_id is None && (#[trigger] records@[q]) is Some
                    ==> aggregate_fits(records_view(records@[q]->0@)),
            rows_view(rows@) == session_rows_with(fv.take(i as int), ov.take(i as int), fv),
        decreases files.len() - i,
    {
        let file = &files[i];
        let ghost before = rows@;
        assert(fv.take(i + 1).drop_last() =~= fv.take(i as int));
        assert(ov.take(i + 1).drop_last() =~= ov.take(i as int));
        assert(fv[i as int] == file@);
        match &records[i] {
            Some(recs) => {
                if file.agent_id.is_none() {
                    let agg = aggregate_records(recs);
                    let n = count_subagents(files, file);
                    proof {
                        lemma_subagent_count_prefix(fv, file@, fv.len() as int);
                    }
                    let row = agg.into_data_row(file, n as i64);
                    rows.push(row);
                    assert(rows_view(rows@) =~= rows_view(before).push(row@));
                }
            },
            None => {},
        }
        i = i + 1;
    }
    assert(fv.take(files.len() as int) =~= fv);
    assert(ov.take(files.len() as int) =~= ov);
    rows
}

// ---------------------------------------------------------------------------
// Laws
// ---------------------------------------------------------------------------
/// The order of timestamps is transitive.
pub proof fn lemma_seq_less_transitive(a: Seq<char>, b: Seq<char>, c: Seq<char>)
    requires
        seq_less(a, b),
        seq_less(b, c),
    ensures
        seq_less(a, c),
    decreases a.len(),
{
    if a.len() > 0 && b.len() > 0 && c.len() > 0 && (a[0] as u32) == (b[0] as u32) && (b[0] as u32)
        == (c[0] as u32) {
        lemma_seq_less_transitive(a.drop_first(), b.drop_first(), c.drop_first());
    }
}

/// No timestamp sorts before itself.
pub proof fn lemma_seq_less_irreflexive(a: Seq<char>)
    ensures
        !seq_less(a, a),
    decreases a.len(),
{
    if a.len() > 0 {
        lemma_seq_less_irreflexive(a.drop_first());
    }
}

/// The timestamp of a record, when it has a string `timestamp` member.
pub open spec fn record_timestamp(j: JsonV) -> Option<Seq<char>> {
    json_get_str(j, "timestamp"@)
}

/// The first timestamp of a session is the least timestamp among its records
/// and the last timestamp the greatest; both are absent exactly when no record
/// has a timestamp.
pub proof fn law_first_and_last_timestamps(records: Seq<JsonV>)
    ensures
        aggregate_spec(records).first_timestamp is None <==> (forall|i: int|
            0 <= i < records.len() ==> (#[trigger] record_timestamp(records[i])) is None),
        aggregate_spec(records).last_timestamp is None <==> (forall|i: int|
            0 <= i < records.len() ==> (#[trigger] record_timestamp(records[i])) is None),
        aggregate_spec(records).first_timestamp is Some ==> exists|i: int|
            0 <= i < records.len() && #[trigger] record_timestamp(records[i])
                == aggregate_spec(records).first_timestamp,
        aggregate_spec(records).last_timestamp is Some ==> exists|i: int|
            0 <= i < records.len() && #[trigger] record_timestamp(records[i])
                == aggregate_spec(records).last_timestamp,
        forall|i: int|
            0 <= i < records.len() && (#[trigger] record_timestamp(records[i])) is Some ==> {
                &&& !seq_less(
                    record_timestamp(records[i])->0,
                    aggregate_spec(records).first_timestamp->0,
                )
                &&& !seq_less(
                    aggregate_spec(records).last_timestamp->0,
                    record_timestamp(records[i])->0,
                )
            },
    decreases records.len(),
{
    if records.len() > 0 {
        let prev = records.drop_last();
        law_first_and_last_timestamps(prev);
        let a = aggregate_spec(prev);
        let j = records.last();
        let n = records.len() - 1;
        assert(records[n] == j);
        assert forall|i: int| 0 <= i < n implies records[i] == prev[i] by {}
        let b = aggregate_spec(records);
        assert(b.first_timestamp == observe_timestamp(a, record_timestamp(j)).first_timestamp);
        assert(b.last_timestamp == observe_timestamp(a, record_timestamp(j)).last_timestamp);
        match record_timestamp(j) {
            None => {
                assert forall|i: int|
                    0 <= i < records.len() && (#[trigger] record_timestamp(records[i])) is Some implies {
                        &&& !seq_less(record_timestamp(records[i])->0, b.first_timestamp->0)
                        &&& !seq_less(b.last_timestamp->0, record_timestamp(records[i])->0)
                    } by {
                    assert(record_timestamp(prev[i]) is Some);
                }
                if b.first_timestamp is Some {
                    let w = choose|i: int|
                        0 <= i < prev.len() && #[trigger] record_timestamp(prev[i])
                            == a.first_timestamp;
                    assert(record_timestamp(records[w]) == b.first_timestamp);
                }
                if b.last_timestamp is Some {
                    let w = choose|i: int|
                        0 <= i < prev.len() && #[trigger] record_timestamp(prev[i])
                            == a.last_timestamp;
                    assert(record_timestamp(records[w]) == b.last_timestamp);
                }
                if forall|i: int|
                    0 <= i < prev.len() ==> (#[trigger] record_timestamp(prev[i])) is None {
                    assert forall|i: int| 0 <= i < records.len() implies (
                    #[trigger] record_timestamp(records[i])) is None by {
                        if i < n {
                            assert(record_timestamp(prev[i]) is None);
                        }
                    }
                }
            },
            Some(t) => {
                assert(record_timestamp(records[n]) == Some(t));
                assert forall|i: int|
                    0 <= i < records.len() && (#[trigger] record_timestamp(records[i])) is Some implies {
                        &&& !seq_less(record_timestamp(records[i])->0, b.first_timestamp->0)
                        &&& !seq_less(b.last_timestamp->0, record_timestamp(records[i])->0)
                    } by {
                    if i == n {
                        lemma_seq_less_irreflexive(t);
                    }
                    if i < n {
                        let u = record_timestamp(prev[i])->0;
                        assert(record_timestamp(prev[i]) is Some);
                        if a.first_timestamp is Some && seq_less(t, a.first_timestamp->0) && seq_less(u, t) {
                            lemma_seq_less_transitive(u, t, a.first_timestamp->0);
                        }
                        if a.last_timestamp is Some && seq_less(a.last_timestamp->0, t) && seq_less(t, u) {
                            lemma_seq_less_transitive(a.last_timestamp->0, t, u);
                        }
                    }
                }
                if !(a.first_timestamp is None || seq_less(t, a.first_timestamp->0)) {
                    let w = choose|i: int|
                        0 <= i < prev.len() && #[trigger] record_timestamp(prev[i])
                            == a.first_timestamp;
                    assert(record_timestamp(records[w]) == b.first_timestamp);
                }
                if !(a.last_timestamp is None || seq_less(a.last_timestamp->0, t)) {
                    let w = choose|i: int|
                        0 <= i < prev.len() && #[trigger] record_timestamp(prev[i])
                            == a.last_timestamp;
                    assert(record_timestamp(records[w]) == b.last_timestamp);
                }
            },
        }
    }
}

/// The number of top-level (non-subagent) transcripts among `files`.
pub open spec fn top_level_count(files: Seq<TranscriptFileV>) -> nat
    decreases files.len(),
{
    if files.len() == 0 {
        0
    } else {
        top_level_count(files.drop_last()) + if files.last().agent_id is None {
            1nat
        } else {
            0nat
        }
    }
}

proof fn lemma_rows_with_count(
    files: Seq<TranscriptFileV>,
    records: Seq<Option<Seq<JsonV>>>,
    all: Seq<TranscriptFileV>,
)
    requires
        records.len() == files.len(),
        forall|i: int| 0 <= i < records.len() ==> (#[trigger] records[i]) is Some,
    ensures
        session_rows_with(files, records, all).len() == top_level_count(files),
    decreases files.len(),
{
    if files.len() > 0 {
        assert(records.last() == records[records.len() - 1]);
        assert forall|i: int| 0 <= i < records.drop_last().len() implies (
        #[trigger] records.drop_last()[i]) is Some by {
            assert(records.drop_last()[i] == records[i]);
        }
        lemma_rows_with_count(files.drop_last(), records.drop_last(), all);
    }
}

/// When every transcript could be read, the sessions table has exactly one row
/// per top-level session file: subagent files get no row of their own.
pub proof fn law_one_row_per_session(files: Seq<TranscriptFileV>, records: Seq<Option<Seq<JsonV>>>)
    requires
        records.len() == files.len(),
        forall|i: int| 0 <= i < records.len() ==> (#[trigger] records[i]) is Some,
    ensures
        session_rows_spec(files, records).len() == top_level_count(files),
{
    lemma_rows_with_count(files, records, files);
}

proof fn lemma_first_seen(
    records: Seq<JsonV>,
    f: spec_fn(JsonV) -> Option<Seq<char>>,
    field: spec_fn(AggregateV) -> Option<Seq<char>>,
)
    requires
        field(empty_aggregate()) is None,
        forall|a: AggregateV, j: JsonV|
            #[trigger] field(observe_spec(a, j)) == if field(a) is Some { field(a) } else { f(j) },
    ensures
        field(aggregate_spec(records)) is None <==> (forall|i: int|
            0 <= i < records.len() ==> (#[trigger] f(records[i])) is None),
        field(aggregate_spec(records)) is Some ==> exists|i: int|
            0 <= i < records.len() && #[trigger] f(records[i]) == field(aggregate_spec(records))
                && forall|k: int| 0 <= k < i ==> (#[trigger] f(records[k])) is None,
    decreases records.len(),
{
    if records.len() > 0 {
        let prev = records.drop_last();
        lemma_first_seen(prev, f, field);
        assert(field(aggregate_spec(records)) == field(observe_spec(aggregate_spec(prev), records.last())));
        assert forall|i: int| 0 <= i < prev.len() implies records[i] == prev[i] by {}
        if field(aggregate_spec(prev)) is Some {
            let w = choose|i: int|
                0 <= i < prev.len() && #[trigger] f(prev[i]) == field(aggregate_spec(prev))
                    && forall|k: int| 0 <= k < i ==> (#[trigger] f(prev[k])) is None;
            assert(f(records[w]) == field(aggregate_spec(records)));
            assert forall|k: int| 0 <= k < w implies (#[trigger] f(records[k])) is None by {
                assert(f(prev[k]) is None);
            }
        } else {
            assert forall|i: int| 0 <= i < prev.len() implies (#[trigger] f(records[i])) is None by {
                assert(f(prev[i]) is None);
            }
            assert(records[records.len() - 1] == records.last());
        }
    }
}

proof fn lemma_last_seen<T>(
    records: Seq<JsonV>,
    f: spec_fn(JsonV) -> Option<T>,
    field: spec_fn(AggregateV) -> Option<T>,
)
    requires
        field(empty_aggregate()) is None,
        forall|a: AggregateV, j: JsonV|
            #[trigger] field(observe_spec(a, j)) == if f(j) is Some { f(j) } else { field(a) },
    ensures
        field(aggregate_spec(records)) is None <==> (forall|i: int|
            0 <= i < records.len() ==> (#[trigger] f(records[i])) is None),
        field(aggregate_spec(records)) is Some ==> exists|i: int|
            0 <= i < records.len() && #[trigger] f(records[i]) == field(aggregate_spec(records))
                && forall|k: int| i < k < records.len() ==> (#[trigger] f(records[k])) is None,
    decreases records.len(),
{
    if records.len() > 0 {
        let prev = records.drop_last();
        let n = records.len() - 1;
        lemma_last_seen(prev, f, field);
        assert(field(aggregate_spec(records)) == field(observe_spec(aggregate_spec(prev), records.last())));
        assert(records[n] == records.last());
        assert forall|i: int| 0 <= i < prev.len() implies records[i] == prev[i] by {}
        if f(records.last()) is None {
            if field(aggregate_spec(prev)) is Some {
                let w = choose|i: int|
                    0 <= i < prev.len() && #[trigger] f(prev[i]) == field(aggregate_spec(prev))
                        && forall|k: int| i < k < prev.len() ==> (#[trigger] f(prev[k])) is None;
                assert(f(records[w]) == field(aggregate_spec(records)));
                assert forall|k: int| w < k < records.len() implies (#[trigger] f(records[k])) is None by {
                    if k < n {
                        assert(f(prev[k]) is None);
                    }
                }
            } else {
                assert forall|i: int| 0 <= i < records.len() implies (#[trigger] f(records[i])) is None by {
                    if i < n {
                        assert(f(prev[i]) is None);
                    }
                }
            }
        } else {
            assert(f(records[n]) == field(aggregate_spec(records)));
        }
    }
}

/// A string member of a record.
pub open spec fn member_str(key: Seq<char>) -> spec_fn(JsonV) -> Option<Seq<char>> {
    |j: JsonV| json_get_str(j, key)
}

/// The title an `ai-title` record carries.
pub open spec fn title_of() -> spec_fn(JsonV) -> Option<Seq<char>> {
    |j: JsonV|
        if json_get_str(j, "type"@) == Some("ai-title"@) {
            json_get_str(j, "aiTitle"@)
        } else {
            None
        }
}

/// The pull request URL a `pr-link` record carries.
pub open spec fn pr_url_of() -> spec_fn(JsonV) -> Option<Seq<char>> {
    |j: JsonV|
        if json_get_str(j, "type"@) == Some("pr-link"@) {
            json_get_str(j, "prUrl"@)
        } else {
            None
        }
}

/// The pull request number a `pr-link` record carries.
pub open spec fn pr_number_of() -> spec_fn(JsonV) -> Option<i64> {
    |j: JsonV|
        if json_get_str(j, "type"@) == Some("pr-link"@) {
            match json_get(j, "prNumber"@) {
                Some(v) => as_i64_spec(v),
                None => None,
            }
        } else {
            None
        }
}

proof fn lemma_type_names_differ()
    ensures
        "user"@ != "assistant"@,
        "user"@ != "ai-title"@,
        "user"@ != "pr-link"@,
        "assistant"@ != "ai-title"@,
        "assistant"@ != "pr-link"@,
        "ai-title"@ != "pr-link"@,
{
    reveal_strlit("user");
    reveal_strlit("assistant");
    reveal_strlit("ai-title");
    reveal_strlit("pr-link");
    assert("user"@.len() == 4 && "assistant"@.len() == 9 && "ai-title"@.len() == 8);
    assert("pr-link"@.len() == 7);
}

/// Of a session's records: `cwd` and `git_branch` are the first ones seen,
/// `version` the last one seen, `title` that of the last `ai-title` record
/// with one, `pr_url` and `pr_number` those of the last `pr-link` records with
/// them; each is absent exactly when no record has it.
pub proof fn law_first_and_last_seen(records: Seq<JsonV>)
    ensures
        ({
            let a = aggregate_spec(records);
            let cwd = member_str("cwd"@);
            let branch = member_str("gitBranch"@);
            let version = member_str("version"@);
            let title = title_of();
            let pr_url = pr_url_of();
            let pr_number = pr_number_of();
            &&& a.cwd is None <==> (forall|i: int| 0 <= i < records.len() ==> (#[trigger] cwd(records[i])) is None)
            &&& a.cwd is Some ==> exists|i: int| 0 <= i < records.len() && #[trigger] cwd(records[i]) == a.cwd
                && forall|k: int| 0 <= k < i ==> (#[trigger] cwd(records[k])) is None
            &&& a.git_branch is None <==> (forall|i: int| 0 <= i < records.len() ==> (#[trigger] branch(records[i])) is None)
            &&& a.git_branch is Some ==> exists|i: int| 0 <= i < records.len() && #[trigger] branch(records[i]) == a.git_branch
                && forall|k: int| 0 <= k < i ==> (#[trigger] branch(records[k])) is None
            &&& a.version is None <==> (forall|i: int| 0 <= i < records.len() ==> (#[trigger] version(records[i])) is None)
            &&& a.version is Some ==> exists|i: int| 0 <= i < records.len() && #[trigger] version(records[i]) == a.version
                && forall|k: int| i < k < records.len() ==> (#[trigger] version(records[k])) is None
            &&& a.title is None <==> (forall|i: int| 0 <= i < records.len() ==> (#[trigger] title(records[i])) is None)
            &&& a.title is Some ==> exists|i: int| 0 <= i < records.len() && #[trigger] title(records[i]) == a.title
                && forall|k: int| i < k < records.len() ==> (#[trigger] title(records[k])) is None
            &&& a.pr_url is None <==> (forall|i: int| 0 <= i < records.len() ==> (#[trigger] pr_url(records[i])) is None)
            &&& a.pr_url is Some ==> exists|i: int| 0 <= i < records.len() && #[trigger] pr_url(records[i]) == a.pr_url
                && forall|k: int| i < k < records.len() ==> (#[trigger] pr_url(records[k])) is None
            &&& a.pr_number is None <==> (forall|i: int| 0 <= i < records.len() ==> (#[trigger] pr_number(records[i])) is None)
            &&& a.pr_number is Some ==> exists|i: int| 0 <= i < records.len() && #[trigger] pr_number(records[i]) == a.pr_number
                && forall|k: int| i < k < records.len() ==> (#[trigger] pr_number(records[k])) is None
        }),
{
    lemma_type_names_differ();
    lemma_first_seen(records, member_str("cwd"@), |a: AggregateV| a.cwd);
    lemma_first_seen(records, member_str("gitBranch"@), |a: AggregateV| a.git_branch);
    lemma_last_seen(records, member_str("version"@), |a: AggregateV| a.version);
    lemma_last_seen(records, title_of(), |a: AggregateV| a.title);
    lemma_last_seen(records, pr_url_of(), |a: AggregateV| a.pr_url);
    lemma_last_seen(records, pr_number_of(), |a: AggregateV| a.pr_number);
}

/// Whether a record has the type `t`.
pub open spec fn has_type(t: Seq<char>) -> spec_fn(JsonV) -> bool {
    |j: JsonV| json_get_str(j, "type"@) == Some(t)
}

/// The token count `key` of an assistant record's `message.usage` (0 otherwise).
pub open spec fn assistant_tokens(j: JsonV, key: Seq<char>) -> int {
    if json_get_str(j, "type"@) == Some("assistant"@) {
        match json_get_opt(json_get(j, "message"@), "usage"@) {
            Some(usage) => token_spec(usage, key),
            None => 0,
        }
    } else {
        0
    }
}

/// The sum of the token counts `key` over the assistant records.
pub open spec fn token_total(records: Seq<JsonV>, key: Seq<char>) -> int
    decreases records.len(),
{
    if records.len() == 0 {
        0
    } else {
        token_total(records.drop_last(), key) + assistant_tokens(records.last(), key)
    }
}

/// The counts of a session are the numbers of `user` and `assistant` records,
/// and its token totals the sums over its assistant records.
pub proof fn law_counts_and_totals(records: Seq<JsonV>)
    ensures
        aggregate_spec(records).user_message_count == records.filter(has_type("user"@)).len(),
        aggregate_spec(records).assistant_message_count == records.filter(has_type("assistant"@)).len(),
        aggregate_spec(records).total_input_tokens == token_total(records, "input_tokens"@),
        aggregate_spec(records).total_output_tokens == token_total(records, "output_tokens"@),
        aggregate_spec(records).total_cache_read_input_tokens == token_total(records, "cache_read_input_tokens"@),
        aggregate_spec(records).total_cache_creation_input_tokens == token_total(
            records,
            "cache_creation_input_tokens"@,
        ),
    decreases records.len(),
{
    lemma_type_names_differ();
    if records.len() > 0 {
        law_counts_and_totals(records.drop_last());
        reveal_with_fuel(Seq::filter, 1);
    }
}

/// Observing records one by one from a new aggregate builds the aggregate of
/// all of them: one more `observe` extends the records by one. So the laws over
/// `aggregate_spec` hold of any run of `observe` calls that starts from `new`.
pub proof fn law_observe_extends_aggregate(records: Seq<JsonV>, j: JsonV)
    ensures
        observe_spec(aggregate_spec(records), j) == aggregate_spec(records.push(j)),
{
    assert(records.push(j).drop_last() =~= records);
}

} // verus!
