//! Rows of the OpenCode database.
//!
//! The database is read by running the `sqlite3` program with a query; its output
//! is a JSON array of rows. Texts from the database are cleaned before they go
//! any further.
use crate::collector::sanitize::{
    is_terminal_control, law_redacted_has_no_secret, law_redacted_stays_printable,
    law_sanitized_is_printable, redact_secrets, redacted, sanitize_terminal_text, sanitized,
    starts_secret,
};
use crate::json::{parse_json, parsed_json, trees, Json, JsonTree};
use crate::text::number::{decimal, lemma_low_word, low32, low_word, push_decimal};
use crate::text::same;
use crate::text::scan::{
    contains_text, is_white, law_white_ends_are_trimmed, occurs_at, trim, trimmed,
};
use crate::text::utf8::{byte_len, fit, fitting, lemma_fitting};
use vstd::prelude::*;
use vstd::string::*;

verus! {

/// Maximum number of sessions to fetch from the database per query.
pub const MAX_SESSIONS: u64 = 50;

/// The query for the sessions, up to its limit.
pub const SESSION_SQL: &'static str = r#"
SELECT
  s.id, s.title, s.directory, s.version, s.time_created, s.time_updated,
  COALESCE(p.name, '') as project_name,
  COUNT(m.id) as turn_count,
  COALESCE(SUM(json_extract(m.data, '$.tokens.input')), 0) as total_input,
  COALESCE(SUM(json_extract(m.data, '$.tokens.output')), 0) as total_output,
  COALESCE(SUM(json_extract(m.data, '$.tokens.cache.read')), 0) as total_cache_read,
  COALESCE(SUM(json_extract(m.data, '$.tokens.cache.write')), 0) as total_cache_write
FROM session s
LEFT JOIN project p ON s.project_id = p.id
LEFT JOIN message m ON m.session_id = s.id
  AND json_extract(m.data, '$.role') = 'assistant'
GROUP BY s.id
ORDER BY s.time_updated DESC
LIMIT "#;

/// The query for what the latest messages of the sessions say, up to its limit.
pub const MODEL_SQL: &'static str = r#"
SELECT
  s.id,
  COALESCE((SELECT json_extract(m2.data, '$.modelID')
    FROM message m2 WHERE m2.session_id = s.id
    AND json_extract(m2.data, '$.role') = 'assistant'
    ORDER BY m2.time_created DESC LIMIT 1), '') as model,
  COALESCE((SELECT json_extract(m2.data, '$.providerID')
    FROM message m2 WHERE m2.session_id = s.id
    AND json_extract(m2.data, '$.role') = 'assistant'
    ORDER BY m2.time_created DESC LIMIT 1), '') as provider,
  COALESCE((SELECT json_extract(m2.data, '$.role')
    FROM message m2 WHERE m2.session_id = s.id
    ORDER BY m2.time_created DESC LIMIT 1), '') as last_role,
  (SELECT json_extract(m2.data, '$.time.completed')
    FROM message m2 WHERE m2.session_id = s.id
    ORDER BY m2.time_created DESC LIMIT 1) as last_completed,
  COALESCE((SELECT json_extract(m2.data, '$.tokens.total')
    FROM message m2 WHERE m2.session_id = s.id
    AND json_extract(m2.data, '$.role') = 'assistant'
    AND json_extract(m2.data, '$.tokens.total') IS NOT NULL
    ORDER BY m2.time_created DESC LIMIT 1), 0) as last_total_tokens
FROM session s
ORDER BY s.time_updated DESC
LIMIT "#;

/// The query for the subagents, up to its limit.
pub const SUBAGENT_SQL: &'static str = r#"
SELECT 
  id, parent_id, title,
  (tokens_input + tokens_output + tokens_cache_read + tokens_cache_write) as tokens,
  time_updated
FROM session
WHERE parent_id IS NOT NULL AND parent_id != ''
LIMIT "#;

/// The query for the parts of messages, up to the list of sessions.
pub const PARTS_SQL: &'static str = r#"
SELECT
  p.session_id,
  json_extract(m.data, '$.role') as role,
  p.data as part_data
FROM part p
JOIN message m ON p.message_id = m.id
WHERE p.session_id IN ("#;

/// The rest of the query for the parts of messages.
pub const PARTS_SQL_END: &'static str = r#")
ORDER BY p.time_created ASC;"#;

/// A query with its limit.
pub open spec fn limited(sql: Seq<char>) -> Seq<char> {
    (sql + decimal(MAX_SESSIONS as nat)).push(';')
}

fn with_limit(sql: &str) -> (r: String)
    ensures
        r@ == limited(sql@),
{
    let mut out = sql.to_owned();
    push_decimal(&mut out, MAX_SESSIONS);
    out.push(';');
    out
}

/// The query for the sessions.
pub fn session_sql() -> (r: String)
    ensures
        r@ == limited(SESSION_SQL@),
{
    with_limit(SESSION_SQL)
}

/// The query for what the latest messages of the sessions say.
pub fn model_sql() -> (r: String)
    ensures
        r@ == limited(MODEL_SQL@),
{
    with_limit(MODEL_SQL)
}

/// The query for the subagents.
pub fn subagent_sql() -> (r: String)
    ensures
        r@ == limited(SUBAGENT_SQL@),
{
    with_limit(SUBAGENT_SQL)
}

/// Texts in single quotes, with commas between them.
pub open spec fn quoted_list(ids: Seq<Seq<char>>) -> Seq<char>
    decreases ids.len(),
{
    if ids.len() == 0 {
        Seq::empty()
    } else {
        let last = ids.last().insert(0, '\'').push('\'');
        if ids.len() == 1 {
            last
        } else {
            quoted_list(ids.drop_last()).push(',') + last
        }
    }
}

/// The query for the parts of the messages of the given sessions.
pub fn parts_sql(sessions: &Vec<DbSession>) -> (r: String)
    ensures
        r@ == PARTS_SQL@ + quoted_list(session_ids(sessions@)) + PARTS_SQL_END@,
{
    let mut out = PARTS_SQL.to_owned();
    let ghost ids = session_ids(sessions@);
    let mut i: usize = 0;
    assert(ids.take(0) =~= Seq::empty());
    assert(out@ =~= PARTS_SQL@ + quoted_list(ids.take(0)));
    while i < sessions.len()
        invariant
            i <= sessions@.len(),
            ids == session_ids(sessions@),
            out@ == PARTS_SQL@ + quoted_list(ids.take(i as int)),
        decreases sessions@.len() - i,
    {
        let ghost before = out@;
        if i > 0 {
            out.push(',');
        }
        out.push('\'');
        out.append(sessions[i].id.as_str());
        out.push('\'');
        proof {
            let now = ids.take(i + 1);
            assert(now.drop_last() =~= ids.take(i as int));
            assert(now.last() == sessions@[i as int].id@);
            assert(out@ =~= PARTS_SQL@ + quoted_list(now));
        }
        i += 1;
    }
    assert(ids.take(i as int) =~= ids);
    out.append(PARTS_SQL_END);
    out
}

/// The rows of a query's output, where the output is blank or a JSON array.
pub open spec fn output_rows(output: Seq<char>) -> Option<Seq<JsonTree>> {
    let text = trimmed(output);
    if text.len() == 0 {
        Some(Seq::empty())
    } else {
        match parsed_json(text) {
            Some(JsonTree::Array(rows)) => Some(rows),
            _ => None,
        }
    }
}

/// The rows of a query's output.
pub fn read_rows(output: &str) -> (r: Option<Vec<Json>>)
    ensures
        match r {
            Some(rows) => output_rows(output@) == Some(trees(rows@)),
            None => output_rows(output@) is None,
        },
{
    let text = trim(output);
    if text.as_str().is_empty() {
        let none: Vec<Json> = Vec::new();
        assert(trees(none@) =~= Seq::empty());
        return Some(none);
    }
    match parse_json(text.as_str()) {
        Some(j) => array_items(j),
        None => None,
    }
}

/// The elements of a document that is an array.
pub fn array_items(j: Json) -> (r: Option<Vec<Json>>)
    ensures
        match r {
            Some(items) => j@ == JsonTree::Array(trees(items@)),
            None => !(j@ is Array),
        },
{
    match j {
        Json::Array(items) => {
            assert(j@->Array_0 =~= trees(items@));
            Some(items)
        },
        _ => None,
    }
}

/// A text of the database without terminal control characters, cut to `max_bytes`.
pub open spec fn clean_field(raw: Seq<char>, max_bytes: nat) -> Seq<char> {
    fitting(sanitized(raw), max_bytes)
}

/// A title of the database, cleaned and with secrets blanked out.
pub open spec fn clean_title(raw: Seq<char>) -> Seq<char> {
    redacted(clean_field(raw, 512))
}

/// Cuts a string to at most `max_bytes` bytes, between two characters.
pub fn truncate_field(s: &mut String, max_bytes: usize)
    ensures
        final(s)@ == fitting(old(s)@, max_bytes as nat),
{
    *s = fit(s.as_str(), max_bytes);
}

/// A text of the database without terminal control characters, cut to `max_bytes`.
pub fn sanitize_db_field(raw: &str, max_bytes: usize) -> (r: String)
    ensures
        r@ == clean_field(raw@, max_bytes as nat),
{
    let mut value = sanitize_terminal_text(raw);
    truncate_field(&mut value, max_bytes);
    value
}

/// A title of the database, cleaned and with secrets blanked out.
pub fn sanitize_db_title(raw: &str) -> (r: String)
    ensures
        r@ == clean_title(raw@),
{
    let field = sanitize_db_field(raw, 512);
    redact_secrets(field.as_str())
}

/// A session of the database.
#[derive(Debug)]
pub struct DbSession {
    pub id: String,
    pub title: String,
    pub directory: String,
    pub version: String,
    /// Unix-epoch milliseconds.
    pub time_created: u64,
    pub project_name: String,
    pub turn_count: u32,
    pub total_input: u64,
    pub total_output: u64,
    pub total_cache_read: u64,
    pub total_cache_write: u64,
    pub latest: LatestMessage,
}

/// What the latest messages of a session say.
#[derive(Debug)]
pub struct LatestMessage {
    pub model: String,
    pub provider: String,
    pub last_role: String,
    pub last_completed: Option<u64>,
    pub last_total_tokens: u64,
}

/// A subagent of the database.
#[derive(Debug)]
pub struct DbSubAgent {
    pub parent_id: String,
    pub title: String,
    pub tokens: u64,
    /// Unix-epoch milliseconds.
    pub time_updated: u64,
}

pub ghost struct LatestModel {
    pub model: Seq<char>,
    pub provider: Seq<char>,
    pub last_role: Seq<char>,
    pub last_completed: Option<u64>,
    pub last_total_tokens: u64,
}

pub ghost struct DbSessionModel {
    pub id: Seq<char>,
    pub title: Seq<char>,
    pub directory: Seq<char>,
    pub version: Seq<char>,
    pub time_created: u64,
    pub project_name: Seq<char>,
    pub turn_count: u32,
    pub total_input: u64,
    pub total_output: u64,
    pub total_cache_read: u64,
    pub total_cache_write: u64,
    pub latest: LatestModel,
}

pub ghost struct DbSubAgentModel {
    pub parent_id: Seq<char>,
    pub title: Seq<char>,
    pub tokens: u64,
    pub time_updated: u64,
}

impl View for LatestMessage {
    type V = LatestModel;

    open spec fn view(&self) -> LatestModel {
        LatestModel {
            model: self.model@,
            provider: self.provider@,
            last_role: self.last_role@,
            last_completed: self.last_completed,
            last_total_tokens: self.last_total_tokens,
        }
    }
}

impl View for DbSession {
    type V = DbSessionModel;

    open spec fn view(&self) -> DbSessionModel {
        DbSessionModel {
            id: self.id@,
            title: self.title@,
            directory: self.directory@,
            version: self.version@,
            time_created: self.time_created,
            project_name: self.project_name@,
            turn_count: self.turn_count,
            total_input: self.total_input,
            total_output: self.total_output,
            total_cache_read: self.total_cache_read,
            total_cache_write: self.total_cache_write,
            latest: self.latest@,
        }
    }
}

impl View for DbSubAgent {
    type V = DbSubAgentModel;

    open spec fn view(&self) -> DbSubAgentModel {
        DbSubAgentModel {
            parent_id: self.parent_id@,
            title: self.title@,
            tokens: self.tokens,
            time_updated: self.time_updated,
        }
    }
}

/// The views of a list of sessions of the database.
pub open spec fn db_session_models(v: Seq<DbSession>) -> Seq<DbSessionModel> {
    v.map_values(|s: DbSession| s@)
}

/// The views of a list of subagents of the database.
pub open spec fn db_subagent_models(v: Seq<DbSubAgent>) -> Seq<DbSubAgentModel> {
    v.map_values(|s: DbSubAgent| s@)
}

/// The identifiers of a list of sessions.
pub open spec fn session_ids(v: Seq<DbSession>) -> Seq<Seq<char>> {
    v.map_values(|s: DbSession| s.id@)
}

/// What is known of the messages of a session without any.
pub open spec fn no_messages() -> LatestModel {
    LatestModel {
        model: Seq::empty(),
        provider: Seq::empty(),
        last_role: Seq::empty(),
        last_completed: None,
        last_total_tokens: 0,
    }
}

/// What a row says of the latest messages.
pub open spec fn latest_of_row(row: JsonTree) -> LatestModel {
    LatestModel {
        model: clean_field(row.field("model"@).text_or_empty(), 256),
        provider: clean_field(row.field("provider"@).text_or_empty(), 256),
        last_role: clean_field(row.field("last_role"@).text_or_empty(), 64),
        last_completed: row.field("last_completed"@).unsigned(),
        last_total_tokens: row.field("last_total_tokens"@).unsigned_or_zero(),
    }
}

/// What the last of the rows with the identifier `id` says of the latest messages.
pub open spec fn latest_of(model_rows: Seq<JsonTree>, id: Seq<char>) -> LatestModel
    decreases model_rows.len(),
{
    if model_rows.len() == 0 {
        no_messages()
    } else if model_rows.last().field("id"@) == JsonTree::Str(id) {
        latest_of_row(model_rows.last())
    } else {
        latest_of(model_rows.drop_last(), id)
    }
}

/// The identifier of a session row.
pub open spec fn row_id(row: JsonTree) -> Seq<char> {
    row.field("id"@).text_or_empty()
}

/// Whether no row before the `i`-th has its identifier.
pub open spec fn is_first_of_id(rows: Seq<JsonTree>, i: int) -> bool {
    forall|j: int| 0 <= j < i ==> row_id(#[trigger] rows[j]) != row_id(rows[i])
}

/// The session that a row describes.
pub open spec fn session_of_row(row: JsonTree, latest: LatestModel) -> DbSessionModel {
    DbSessionModel {
        id: row_id(row),
        title: clean_title(row.field("title"@).text_or_empty()),
        directory: clean_field(row.field("directory"@).text_or_empty(), 4096),
        version: clean_field(row.field("version"@).text_or_empty(), 64),
        time_created: row.field("time_created"@).unsigned_or_zero(),
        project_name: clean_field(row.field("project_name"@).text_or_empty(), 256),
        turn_count: low_word(row.field("turn_count"@).unsigned_or_zero()),
        total_input: row.field("total_input"@).unsigned_or_zero(),
        total_output: row.field("total_output"@).unsigned_or_zero(),
        total_cache_read: row.field("total_cache_read"@).unsigned_or_zero(),
        total_cache_write: row.field("total_cache_write"@).unsigned_or_zero(),
        latest,
    }
}

/// The sessions that the rows describe, in their order. The first row with an
/// identifier takes what the other query says of it; a further one takes nothing.
pub open spec fn sessions_of_rows(rows: Seq<JsonTree>, model_rows: Seq<JsonTree>) -> Seq<DbSessionModel> {
    Seq::new(
        rows.len(),
        |i: int|
            session_of_row(
                rows[i],
                if is_first_of_id(rows, i) {
                    latest_of(model_rows, row_id(rows[i]))
                } else {
                    no_messages()
                },
            ),
    )
}

/// The subagent that a row describes.
pub open spec fn subagent_of_row(row: JsonTree) -> DbSubAgentModel {
    DbSubAgentModel {
        parent_id: row.field("parent_id"@).text_or_empty(),
        title: clean_title(row.field("title"@).text_or_empty()),
        tokens: row.field("tokens"@).unsigned_or_zero(),
        time_updated: row.field("time_updated"@).unsigned_or_zero(),
    }
}

fn find_latest(model_rows: &Vec<Json>, id: &str) -> (r: LatestMessage)
    ensures
        r@ == latest_of(trees(model_rows@), id@),
{
    let ghost all = trees(model_rows@);
    let mut i: usize = model_rows.len();
    assert(all.take(i as int) =~= all);
    while i > 0
        invariant
            i <= model_rows@.len(),
            all == trees(model_rows@),
            latest_of(all.take(i as int), id@) == latest_of(all, id@),
        decreases i,
    {
        let row = &model_rows[i - 1];
        assert(all.take(i as int).last() == row@);
        assert(all.take(i as int).drop_last() =~= all.take(i - 1));
        let named: bool = match row.field("id").as_str() {
            Some(x) => same(x, id),
            None => false,
        };
        if named {
            return LatestMessage {
                model: sanitize_db_field(row.field("model").str_or_empty(), 256),
                provider: sanitize_db_field(row.field("provider").str_or_empty(), 256),
                last_role: sanitize_db_field(row.field("last_role").str_or_empty(), 64),
                last_completed: row.field("last_completed").as_u64(),
                last_total_tokens: row.field("last_total_tokens").u64_or_zero(),
            };
        }
        i -= 1;
    }
    LatestMessage {
        model: String::new(),
        provider: String::new(),
        last_role: String::new(),
        last_completed: None,
        last_total_tokens: 0,
    }
}

fn id_taken(sessions: &Vec<DbSession>, id: &str) -> (r: bool)
    ensures
        r == exists|j: int| 0 <= j < sessions@.len() && (#[trigger] sessions@[j]).id@ == id@,
{
    let mut j: usize = 0;
    while j < sessions.len()
        invariant
            j <= sessions@.len(),
            forall|k: int| 0 <= k < j ==> (#[trigger] sessions@[k]).id@ != id@,
        decreases sessions@.len() - j,
    {
        if same(sessions[j].id.as_str(), id) {
            return true;
        }
        j += 1;
    }
    false
}

/// The sessions that the rows of the two queries describe.
pub fn query_sessions(rows: &Vec<Json>, model_rows: &Vec<Json>) -> (r: Vec<DbSession>)
    ensures
        db_session_models(r@) == sessions_of_rows(trees(rows@), trees(model_rows@)),
{
    let ghost all = trees(rows@);
    let ghost models = trees(model_rows@);
    let ghost wanted = sessions_of_rows(all, models);
    let mut sessions: Vec<DbSession> = Vec::new();
    let mut i: usize = 0;
    while i < rows.len()
        invariant
            i <= rows@.len(),
            all == trees(rows@),
            models == trees(model_rows@),
            wanted == sessions_of_rows(all, models),
            sessions@.len() == i,
            forall|k: int| 0 <= k < i ==> (#[trigger] sessions@[k])@ == wanted[k],
        decreases rows@.len() - i,
    {
        let row = &rows[i];
        assert(all[i as int] == row@);
        let id = row.field("id").str_or_empty().to_owned();
        let taken = id_taken(&sessions, id.as_str());
        proof {
            assert(taken == !is_first_of_id(all, i as int)) by {
                assert forall|k: int| 0 <= k < i implies row_id(#[trigger] all[k]) == sessions@[k].id@ by {
                    assert(sessions@[k]@ == wanted[k]);
                }
                if taken {
                    let j = choose|j: int| 0 <= j < sessions@.len() && (#[trigger] sessions@[j]).id@ == id@;
                    assert(row_id(all[j]) == row_id(all[i as int]));
                } else if !is_first_of_id(all, i as int) {
                    let j = choose|j: int| 0 <= j < i && row_id(#[trigger] all[j]) == row_id(all[i as int]);
                    assert(sessions@[j].id@ == id@);
                }
            }
        }
        let latest = if taken {
            LatestMessage {
                model: String::new(),
                provider: String::new(),
                last_role: String::new(),
                last_completed: None,
                last_total_tokens: 0,
            }
        } else {
            find_latest(model_rows, id.as_str())
        };
        let session = DbSession {
            id,
            title: sanitize_db_title(row.field("title").str_or_empty()),
            directory: sanitize_db_field(row.field("directory").str_or_empty(), 4096),
            version: sanitize_db_field(row.field("version").str_or_empty(), 64),
            time_created: row.field("time_created").u64_or_zero(),
            project_name: sanitize_db_field(row.field("project_name").str_or_empty(), 256),
            turn_count: low32(row.field("turn_count").u64_or_zero()),
            total_input: row.field("total_input").u64_or_zero(),
            total_output: row.field("total_output").u64_or_zero(),
            total_cache_read: row.field("total_cache_read").u64_or_zero(),
            total_cache_write: row.field("total_cache_write").u64_or_zero(),
            latest,
        };
        assert(session@ == wanted[i as int]);
        sessions.push(session);
        i += 1;
    }
    assert(db_session_models(sessions@) =~= wanted);
    sessions
}

/// The subagents that the rows describe, in their order.
pub fn query_subagents(rows: &Vec<Json>) -> (r: Vec<DbSubAgent>)
    ensures
        db_subagent_models(r@) == trees(rows@).map_values(|row: JsonTree| subagent_of_row(row)),
{
    let mut out: Vec<DbSubAgent> = Vec::new();
    let mut i: usize = 0;
    while i < rows.len()
        invariant
            i <= rows@.len(),
            out@.len() == i,
            forall|k: int| 0 <= k < i ==> (#[trigger] out@[k])@ == subagent_of_row(rows@[k]@),
        decreases rows@.len() - i,
    {
        let row = &rows[i];
        out.push(
            DbSubAgent {
                parent_id: row.field("parent_id").str_or_empty().to_owned(),
                title: sanitize_db_title(row.field("title").str_or_empty()),
                tokens: row.field("tokens").u64_or_zero(),
                time_updated: row.field("time_updated").u64_or_zero(),
            },
        );
        i += 1;
    }
    assert(db_subagent_models(out@) =~= trees(rows@).map_values(|row: JsonTree| subagent_of_row(row)));
    out
}

/// A cleaned text fits its limit and holds no terminal control character.
pub proof fn law_clean_field_is_printable(raw: Seq<char>, max_bytes: nat, i: int)
    requires
        0 <= i < clean_field(raw, max_bytes).len(),
    ensures
        byte_len(clean_field(raw, max_bytes)) <= max_bytes,
        !is_terminal_control(clean_field(raw, max_bytes)[i]),
{
    lemma_fitting(sanitized(raw), max_bytes);
    law_sanitized_is_printable(raw, i);
}

/// A cleaned title holds neither a secret nor a terminal control character.
pub proof fn law_clean_title_is_safe(raw: Seq<char>, i: int)
    requires
        0 <= i < clean_title(raw).len(),
    ensures
        !starts_secret(clean_title(raw).skip(i)),
        !is_terminal_control(clean_title(raw)[i]),
{
    let field = clean_field(raw, 512);
    assert forall|k: int| 0 <= k < field.len() implies !is_terminal_control(#[trigger] field[k]) by {
        law_clean_field_is_printable(raw, 512, k);
    }
    law_redacted_has_no_secret(field, i);
    law_redacted_stays_printable(field, i);
}

/// What a session takes from its row: each text cleaned and cut to its limit, each number as
/// it is, and the count of turns by its low 32 bits.
pub proof fn law_session_takes_its_row(rows: Seq<JsonTree>, model_rows: Seq<JsonTree>, i: int)
    requires
        0 <= i < rows.len(),
    ensures
        sessions_of_rows(rows, model_rows).len() == rows.len(),
        ({
            let s = sessions_of_rows(rows, model_rows)[i];
            let row = rows[i];
            &&& s.id == row.field("id"@).text_or_empty()
            &&& s.title == redacted(fitting(sanitized(row.field("title"@).text_or_empty()), 512))
            &&& s.directory == fitting(sanitized(row.field("directory"@).text_or_empty()), 4096)
            &&& s.version == fitting(sanitized(row.field("version"@).text_or_empty()), 64)
            &&& s.project_name == fitting(
                sanitized(row.field("project_name"@).text_or_empty()),
                256,
            )
            &&& s.time_created == row.field("time_created"@).unsigned_or_zero()
            &&& row.field("turn_count"@).unsigned_or_zero() <= u32::MAX ==> s.turn_count == row.field(
                "turn_count"@,
            ).unsigned_or_zero()
            &&& s.total_input == row.field("total_input"@).unsigned_or_zero()
            &&& s.total_output == row.field("total_output"@).unsigned_or_zero()
            &&& s.total_cache_read == row.field("total_cache_read"@).unsigned_or_zero()
            &&& s.total_cache_write == row.field("total_cache_write"@).unsigned_or_zero()
        }),
{
    let n = rows[i].field("turn_count"@).unsigned_or_zero();
    if n <= u32::MAX {
        lemma_low_word(n);
    }
}

/// What a session takes from the other query: the last row with its identifier, which the
/// first session of that identifier takes and no other.
pub proof fn law_session_takes_its_latest_messages(
    rows: Seq<JsonTree>,
    model_rows: Seq<JsonTree>,
    i: int,
    k: int,
)
    requires
        0 <= i < rows.len(),
        0 <= k < model_rows.len(),
        model_rows[k].field("id"@) == JsonTree::Str(rows[i].field("id"@).text_or_empty()),
        forall|j: int|
            k < j < model_rows.len() ==> (#[trigger] model_rows[j]).field("id"@) != JsonTree::Str(
                rows[i].field("id"@).text_or_empty(),
            ),
    ensures
        (forall|j: int|
            0 <= j < i ==> (#[trigger] rows[j]).field("id"@).text_or_empty() != rows[i].field(
                "id"@,
            ).text_or_empty()) ==> {
            let m = sessions_of_rows(rows, model_rows)[i].latest;
            let row = model_rows[k];
            &&& m.model == fitting(sanitized(row.field("model"@).text_or_empty()), 256)
            &&& m.provider == fitting(sanitized(row.field("provider"@).text_or_empty()), 256)
            &&& m.last_role == fitting(sanitized(row.field("last_role"@).text_or_empty()), 64)
            &&& m.last_completed == row.field("last_completed"@).unsigned()
            &&& m.last_total_tokens == row.field("last_total_tokens"@).unsigned_or_zero()
        },
        (exists|j: int|
            0 <= j < i && (#[trigger] rows[j]).field("id"@).text_or_empty() == rows[i].field(
                "id"@,
            ).text_or_empty()) ==> has_no_messages(sessions_of_rows(rows, model_rows)[i].latest),
{
    lemma_latest(model_rows, rows[i].field("id"@).text_or_empty(), k);
    assert(is_first_of_id(rows, i) <==> forall|j: int|
        0 <= j < i ==> (#[trigger] rows[j]).field("id"@).text_or_empty() != rows[i].field(
            "id"@,
        ).text_or_empty()) by {
        assert(forall|j: int| row_id(#[trigger] rows[j]) == rows[j].field("id"@).text_or_empty());
    }
}

/// Whether nothing is known of the messages.
pub open spec fn has_no_messages(m: LatestModel) -> bool {
    &&& m.model.len() == 0
    &&& m.provider.len() == 0
    &&& m.last_role.len() == 0
    &&& m.last_completed is None
    &&& m.last_total_tokens == 0
}

proof fn lemma_latest(model_rows: Seq<JsonTree>, id: Seq<char>, k: int)
    requires
        0 <= k < model_rows.len(),
        model_rows[k].field("id"@) == JsonTree::Str(id),
        forall|j: int|
            k < j < model_rows.len() ==> (#[trigger] model_rows[j]).field("id"@) != JsonTree::Str(id),
    ensures
        latest_of(model_rows, id) == latest_of_row(model_rows[k]),
    decreases model_rows.len(),
{
    if k < model_rows.len() - 1 {
        assert(model_rows[model_rows.len() - 1].field("id"@) != JsonTree::Str(id));
        let front = model_rows.drop_last();
        assert forall|j: int| k < j < front.len() implies (#[trigger] front[j]).field("id"@)
            != JsonTree::Str(id) by {
            assert(front[j] == model_rows[j]);
        }
        lemma_latest(front, id, k);
    }
}

/// A session that the other query does not list has no messages.
pub proof fn law_unlisted_session_has_no_messages(
    rows: Seq<JsonTree>,
    model_rows: Seq<JsonTree>,
    i: int,
)
    requires
        0 <= i < rows.len(),
        forall|j: int|
            0 <= j < model_rows.len() ==> (#[trigger] model_rows[j]).field("id"@) != JsonTree::Str(
                rows[i].field("id"@).text_or_empty(),
            ),
    ensures
        has_no_messages(sessions_of_rows(rows, model_rows)[i].latest),
{
    lemma_no_latest(model_rows, rows[i].field("id"@).text_or_empty());
}

proof fn lemma_no_latest(model_rows: Seq<JsonTree>, id: Seq<char>)
    requires
        forall|j: int|
            0 <= j < model_rows.len() ==> (#[trigger] model_rows[j]).field("id"@) != JsonTree::Str(id),
    ensures
        latest_of(model_rows, id) == no_messages(),
    decreases model_rows.len(),
{
    if model_rows.len() > 0 {
        assert(model_rows[model_rows.len() - 1].field("id"@) != JsonTree::Str(id));
        let front = model_rows.drop_last();
        assert forall|j: int| 0 <= j < front.len() implies (#[trigger] front[j]).field("id"@)
            != JsonTree::Str(id) by {
            assert(front[j] == model_rows[j]);
        }
        lemma_no_latest(front, id);
    }
}

/// What a subagent takes from its row.
pub proof fn law_subagent_takes_its_row(row: JsonTree)
    ensures
        subagent_of_row(row).parent_id == row.field("parent_id"@).text_or_empty(),
        subagent_of_row(row).title == redacted(
            fitting(sanitized(row.field("title"@).text_or_empty()), 512),
        ),
        subagent_of_row(row).tokens == row.field("tokens"@).unsigned_or_zero(),
        subagent_of_row(row).time_updated == row.field("time_updated"@).unsigned_or_zero(),
{
}

/// A query's output is a JSON array of rows, with white space around it, or blank.
pub proof fn law_output_is_an_array(before: Seq<char>, text: Seq<char>, after: Seq<char>, rows: Seq<JsonTree>)
    requires
        forall|i: int| 0 <= i < before.len() ==> is_white(#[trigger] before[i]),
        forall|i: int| 0 <= i < after.len() ==> is_white(#[trigger] after[i]),
        text.len() > 0 ==> !is_white(text[0]) && !is_white(text.last()),
    ensures
        text.len() == 0 ==> output_rows(before + text + after) == Some(Seq::<JsonTree>::empty()),
        text.len() > 0 && parsed_json(text) == Some(JsonTree::Array(rows)) ==> output_rows(
            before + text + after,
        ) == Some(rows),
        text.len() > 0 && parsed_json(text) is None ==> output_rows(before + text + after) is None,
        text.len() > 0 && parsed_json(text) is Some && !(parsed_json(text)->Some_0 is Array)
            ==> output_rows(before + text + after) is None,
{
    law_white_ends_are_trimmed(before, text, after);
}

/// Identifiers are listed in single quotes with commas between them.
pub proof fn law_identifiers_are_quoted(ids: Seq<Seq<char>>, id: Seq<char>)
    ensures
        quoted_list(Seq::empty()).len() == 0,
        quoted_list(seq![id]) == seq!['\''] + id + seq!['\''],
        ids.len() > 0 ==> quoted_list(ids.push(id)) == quoted_list(ids) + seq![',', '\''] + id + seq![
            '\'',
        ],
{
    assert(seq![id].last() == id);
    assert(quoted_list(seq![id]) =~= seq!['\''] + id + seq!['\'']);
    assert(ids.push(id).drop_last() =~= ids);
    assert(ids.len() > 0 ==> quoted_list(ids.push(id)) =~= quoted_list(ids) + seq![',', '\''] + id
        + seq!['\'']);
}

/// A query is limited to fifty rows.
pub proof fn law_queries_are_limited(sql: Seq<char>)
    ensures
        limited(sql) == sql + seq!['5', '0', ';'],
{
    reveal_with_fuel(decimal, 3);
    assert(decimal(50) =~= seq!['5', '0']);
    assert(limited(sql) =~= sql + seq!['5', '0', ';']);
}

/// A record shows its own fields.
pub proof fn law_records_show_their_fields(m: LatestMessage, s: DbSession, a: DbSubAgent)
    ensures
        m@.model == m.model@,
        m@.provider == m.provider@,
        m@.last_role == m.last_role@,
        m@.last_completed == m.last_completed,
        m@.last_total_tokens == m.last_total_tokens,
        s@.id == s.id@,
        s@.title == s.title@,
        s@.directory == s.directory@,
        s@.version == s.version@,
        s@.project_name == s.project_name@,
        s@.latest == s.latest@,
        s@.time_created == s.time_created,
        s@.turn_count == s.turn_count,
        s@.total_input == s.total_input,
        s@.total_output == s.total_output,
        s@.total_cache_read == s.total_cache_read,
        s@.total_cache_write == s.total_cache_write,
        a@.parent_id == a.parent_id@,
        a@.title == a.title@,
        a@.tokens == a.tokens,
        a@.time_updated == a.time_updated,
{
}

/// The query for the sessions asks for each column that is read, sums the tokens of the
/// assistant's messages by class, and gives the sessions that were updated last.
pub proof fn law_session_query_asks_for_each_column()
    ensures
        contains_text(SESSION_SQL@, "s.id, s.title, s.directory, s.version, s.time_created,"@),
        contains_text(SESSION_SQL@, "COALESCE(p.name, '') as project_name"@),
        contains_text(SESSION_SQL@, "COUNT(m.id) as turn_count"@),
        contains_text(SESSION_SQL@, "COALESCE(SUM(json_extract(m.data, '$.tokens.input')), 0) as total_input"@),
        contains_text(SESSION_SQL@, "COALESCE(SUM(json_extract(m.data, '$.tokens.output')), 0) as total_output"@),
        contains_text(SESSION_SQL@, "COALESCE(SUM(json_extract(m.data, '$.tokens.cache.read')), 0) as total_cache_read"@),
        contains_text(SESSION_SQL@, "COALESCE(SUM(json_extract(m.data, '$.tokens.cache.write')), 0) as total_cache_write"@),
        contains_text(SESSION_SQL@, "FROM session s\nLEFT JOIN project p ON s.project_id = p.id\nLEFT JOIN message m ON m.session_id = s.id\n  AND json_extract(m.data, '$.role') = 'assistant'\nGROUP BY s.id\nORDER BY s.time_updated DESC\nLIMIT "@),
{
    reveal_strlit(
        r#"
SELECT
  s.id, s.title, s.directory, s.version, s.time_created, s.time_updated,
  COALESCE(p.name, '') as project_name,
  COUNT(m.id) as turn_count,
  COALESCE(SUM(json_extract(m.data, '$.tokens.input')), 0) as total_input,
  COALESCE(SUM(json_extract(m.data, '$.tokens.output')), 0) as total_output,
  COALESCE(SUM(json_extract(m.data, '$.tokens.cache.read')), 0) as total_cache_read,
  COALESCE(SUM(json_extract(m.data, '$.tokens.cache.write')), 0) as total_cache_write
FROM session s
LEFT JOIN project p ON s.project_id = p.id
LEFT JOIN message m ON m.session_id = s.id
  AND json_extract(m.data, '$.role') = 'assistant'
GROUP BY s.id
ORDER BY s.time_updated DESC
LIMIT "#,
    );
    reveal_strlit("s.id, s.title, s.directory, s.version, s.time_created,");
    reveal_strlit("COALESCE(p.name, '') as project_name");
    reveal_strlit("COUNT(m.id) as turn_count");
    reveal_strlit("COALESCE(SUM(json_extract(m.data, '$.tokens.input')), 0) as total_input");
    reveal_strlit("COALESCE(SUM(json_extract(m.data, '$.tokens.output')), 0) as total_output");
    reveal_strlit("COALESCE(SUM(json_extract(m.data, '$.tokens.cache.read')), 0) as total_cache_read");
    reveal_strlit("COALESCE(SUM(json_extract(m.data, '$.tokens.cache.write')), 0) as total_cache_write");
    reveal_strlit("FROM session s\nLEFT JOIN project p ON s.project_id = p.id\nLEFT JOIN message m ON m.session_id = s.id\n  AND json_extract(m.data, '$.role') = 'assistant'\nGROUP BY s.id\nORDER BY s.time_updated DESC\nLIMIT ");
    assert(SESSION_SQL@.subrange(10, 64) =~= "s.id, s.title, s.directory, s.version, s.time_created,"@);
    assert(occurs_at(SESSION_SQL@, "s.id, s.title, s.directory, s.version, s.time_created,"@, 10));
    assert(SESSION_SQL@.subrange(83, 119) =~= "COALESCE(p.name, '') as project_name"@);
    assert(occurs_at(SESSION_SQL@, "COALESCE(p.name, '') as project_name"@, 83));
    assert(SESSION_SQL@.subrange(123, 148) =~= "COUNT(m.id) as turn_count"@);
    assert(occurs_at(SESSION_SQL@, "COUNT(m.id) as turn_count"@, 123));
    assert(SESSION_SQL@.subrange(152, 223) =~= "COALESCE(SUM(json_extract(m.data, '$.tokens.input')), 0) as total_input"@);
    assert(occurs_at(SESSION_SQL@, "COALESCE(SUM(json_extract(m.data, '$.tokens.input')), 0) as total_input"@, 152));
    assert(SESSION_SQL@.subrange(227, 300) =~= "COALESCE(SUM(json_extract(m.data, '$.tokens.output')), 0) as total_output"@);
    assert(occurs_at(SESSION_SQL@, "COALESCE(SUM(json_extract(m.data, '$.tokens.output')), 0) as total_output"@, 227));
    assert(SESSION_SQL@.subrange(304, 385) =~= "COALESCE(SUM(json_extract(m.data, '$.tokens.cache.read')), 0) as total_cache_read"@);
    assert(occurs_at(SESSION_SQL@, "COALESCE(SUM(json_extract(m.data, '$.tokens.cache.read')), 0) as total_cache_read"@, 304));
    assert(SESSION_SQL@.subrange(389, 472) =~= "COALESCE(SUM(json_extract(m.data, '$.tokens.cache.write')), 0) as total_cache_write"@);
    assert(occurs_at(SESSION_SQL@, "COALESCE(SUM(json_extract(m.data, '$.tokens.cache.write')), 0) as total_cache_write"@, 389));
    assert(SESSION_SQL@.subrange(473, 674) =~= "FROM session s\nLEFT JOIN project p ON s.project_id = p.id\nLEFT JOIN message m ON m.session_id = s.id\n  AND json_extract(m.data, '$.role') = 'assistant'\nGROUP BY s.id\nORDER BY s.time_updated DESC\nLIMIT "@);
    assert(occurs_at(SESSION_SQL@, "FROM session s\nLEFT JOIN project p ON s.project_id = p.id\nLEFT JOIN message m ON m.session_id = s.id\n  AND json_extract(m.data, '$.role') = 'assistant'\nGROUP BY s.id\nORDER BY s.time_updated DESC\nLIMIT "@, 473));
}

/// The query for the messages asks for what the latest one of each session says: its role and
/// when it was completed, and of the assistant's latest one the model, the provider and the
/// tokens.
pub proof fn law_model_query_asks_for_the_latest_messages()
    ensures
        contains_text(MODEL_SQL@, "SELECT\n  s.id,\n  COALESCE((SELECT json_extract(m2.data, '$.modelID')\n    FROM message m2 WHERE m2.session_id = s.id\n    AND json_extract(m2.data, '$.role') = 'assistant'\n    ORDER BY m2.time_created DESC LIMIT 1), '') as model,"@),
        contains_text(MODEL_SQL@, "COALESCE((SELECT json_extract(m2.data, '$.providerID')\n    FROM message m2 WHERE m2.session_id = s.id\n    AND json_extract(m2.data, '$.role') = 'assistant'\n    ORDER BY m2.time_created DESC LIMIT 1), '') as provider,"@),
        contains_text(MODEL_SQL@, "COALESCE((SELECT json_extract(m2.data, '$.role')\n    FROM message m2 WHERE m2.session_id = s.id\n    ORDER BY m2.time_created DESC LIMIT 1), '') as last_role,"@),
        contains_text(MODEL_SQL@, "(SELECT json_extract(m2.data, '$.time.completed')\n    FROM message m2 WHERE m2.session_id = s.id\n    ORDER BY m2.time_created DESC LIMIT 1) as last_completed,"@),
        contains_text(MODEL_SQL@, "COALESCE((SELECT json_extract(m2.data, '$.tokens.total')\n    FROM message m2 WHERE m2.session_id = s.id\n    AND json_extract(m2.data, '$.role') = 'assistant'\n    AND json_extract(m2.data, '$.tokens.total') IS NOT NULL\n    ORDER BY m2.time_created DESC LIMIT 1), 0) as last_total_tokens"@),
        contains_text(MODEL_SQL@, "FROM session s\nORDER BY s.time_updated DESC\nLIMIT "@),
{
    reveal_strlit(
        r#"
SELECT
  s.id,
  COALESCE((SELECT json_extract(m2.data, '$.modelID')
    FROM message m2 WHERE m2.session_id = s.id
    AND json_extract(m2.data, '$.role') = 'assistant'
    ORDER BY m2.time_created DESC LIMIT 1), '') as model,
  COALESCE((SELECT json_extract(m2.data, '$.providerID')
    FROM message m2 WHERE m2.session_id = s.id
    AND json_extract(m2.data, '$.role') = 'assistant'
    ORDER BY m2.time_created DESC LIMIT 1), '') as provider,
  COALESCE((SELECT json_extract(m2.data, '$.role')
    FROM message m2 WHERE m2.session_id = s.id
    ORDER BY m2.time_created DESC LIMIT 1), '') as last_role,
  (SELECT json_extract(m2.data, '$.time.completed')
    FROM message m2 WHERE m2.session_id = s.id
    ORDER BY m2.time_created DESC LIMIT 1) as last_completed,
  COALESCE((SELECT json_extract(m2.data, '$.tokens.total')
    FROM message m2 WHERE m2.session_id = s.id
    AND json_extract(m2.data, '$.role') = 'assistant'
    AND json_extract(m2.data, '$.tokens.total') IS NOT NULL
    ORDER BY m2.time_created DESC LIMIT 1), 0) as last_total_tokens
FROM session s
ORDER BY s.time_updated DESC
LIMIT "#,
    );
    reveal_strlit("SELECT\n  s.id,\n  COALESCE((SELECT json_extract(m2.data, '$.modelID')\n    FROM message m2 WHERE m2.session_id = s.id\n    AND json_extract(m2.data, '$.role') = 'assistant'\n    ORDER BY m2.time_created DESC LIMIT 1), '') as model,");
    reveal_strlit("COALESCE((SELECT json_extract(m2.data, '$.providerID')\n    FROM message m2 WHERE m2.session_id = s.id\n    AND json_extract(m2.data, '$.role') = 'assistant'\n    ORDER BY m2.time_created DESC LIMIT 1), '') as provider,");
    reveal_strlit("COALESCE((SELECT json_extract(m2.data, '$.role')\n    FROM message m2 WHERE m2.session_id = s.id\n    ORDER BY m2.time_created DESC LIMIT 1), '') as last_role,");
    reveal_strlit("(SELECT json_extract(m2.data, '$.time.completed')\n    FROM message m2 WHERE m2.session_id = s.id\n    ORDER BY m2.time_created DESC LIMIT 1) as last_completed,");
    reveal_strlit("COALESCE((SELECT json_extract(m2.data, '$.tokens.total')\n    FROM message m2 WHERE m2.session_id = s.id\n    AND json_extract(m2.data, '$.role') = 'assistant'\n    AND json_extract(m2.data, '$.tokens.total') IS NOT NULL\n    ORDER BY m2.time_created DESC LIMIT 1), 0) as last_total_tokens");
    reveal_strlit("FROM session s\nORDER BY s.time_updated DESC\nLIMIT ");
    assert(MODEL_SQL@.subrange(1, 228) =~= "SELECT\n  s.id,\n  COALESCE((SELECT json_extract(m2.data, '$.modelID')\n    FROM message m2 WHERE m2.session_id = s.id\n    AND json_extract(m2.data, '$.role') = 'assistant'\n    ORDER BY m2.time_created DESC LIMIT 1), '') as model,"@);
    assert(occurs_at(MODEL_SQL@, "SELECT\n  s.id,\n  COALESCE((SELECT json_extract(m2.data, '$.modelID')\n    FROM message m2 WHERE m2.session_id = s.id\n    AND json_extract(m2.data, '$.role') = 'assistant'\n    ORDER BY m2.time_created DESC LIMIT 1), '') as model,"@, 1));
    assert(MODEL_SQL@.subrange(231, 447) =~= "COALESCE((SELECT json_extract(m2.data, '$.providerID')\n    FROM message m2 WHERE m2.session_id = s.id\n    AND json_extract(m2.data, '$.role') = 'assistant'\n    ORDER BY m2.time_created DESC LIMIT 1), '') as provider,"@);
    assert(occurs_at(MODEL_SQL@, "COALESCE((SELECT json_extract(m2.data, '$.providerID')\n    FROM message m2 WHERE m2.session_id = s.id\n    AND json_extract(m2.data, '$.role') = 'assistant'\n    ORDER BY m2.time_created DESC LIMIT 1), '') as provider,"@, 231));
    assert(MODEL_SQL@.subrange(450, 607) =~= "COALESCE((SELECT json_extract(m2.data, '$.role')\n    FROM message m2 WHERE m2.session_id = s.id\n    ORDER BY m2.time_created DESC LIMIT 1), '') as last_role,"@);
    assert(occurs_at(MODEL_SQL@, "COALESCE((SELECT json_extract(m2.data, '$.role')\n    FROM message m2 WHERE m2.session_id = s.id\n    ORDER BY m2.time_created DESC LIMIT 1), '') as last_role,"@, 450));
    assert(MODEL_SQL@.subrange(610, 768) =~= "(SELECT json_extract(m2.data, '$.time.completed')\n    FROM message m2 WHERE m2.session_id = s.id\n    ORDER BY m2.time_created DESC LIMIT 1) as last_completed,"@);
    assert(occurs_at(MODEL_SQL@, "(SELECT json_extract(m2.data, '$.time.completed')\n    FROM message m2 WHERE m2.session_id = s.id\n    ORDER BY m2.time_created DESC LIMIT 1) as last_completed,"@, 610));
    assert(MODEL_SQL@.subrange(771, 1056) =~= "COALESCE((SELECT json_extract(m2.data, '$.tokens.total')\n    FROM message m2 WHERE m2.session_id = s.id\n    AND json_extract(m2.data, '$.role') = 'assistant'\n    AND json_extract(m2.data, '$.tokens.total') IS NOT NULL\n    ORDER BY m2.time_created DESC LIMIT 1), 0) as last_total_tokens"@);
    assert(occurs_at(MODEL_SQL@, "COALESCE((SELECT json_extract(m2.data, '$.tokens.total')\n    FROM message m2 WHERE m2.session_id = s.id\n    AND json_extract(m2.data, '$.role') = 'assistant'\n    AND json_extract(m2.data, '$.tokens.total') IS NOT NULL\n    ORDER BY m2.time_created DESC LIMIT 1), 0) as last_total_tokens"@, 771));
    assert(MODEL_SQL@.subrange(1057, 1107) =~= "FROM session s\nORDER BY s.time_updated DESC\nLIMIT "@);
    assert(occurs_at(MODEL_SQL@, "FROM session s\nORDER BY s.time_updated DESC\nLIMIT "@, 1057));
}

/// The query for the subagents asks for the sessions with a parent and all of their tokens.
pub proof fn law_subagent_query_asks_for_children()
    ensures
        contains_text(SUBAGENT_SQL@, "id, parent_id, title,\n  (tokens_input + tokens_output + tokens_cache_read + tokens_cache_write) as tokens,\n  time_updated\nFROM session\nWHERE parent_id IS NOT NULL AND parent_id != ''\nLIMIT "@),
{
    reveal_strlit(
        r#"
SELECT 
  id, parent_id, title,
  (tokens_input + tokens_output + tokens_cache_read + tokens_cache_write) as tokens,
  time_updated
FROM session
WHERE parent_id IS NOT NULL AND parent_id != ''
LIMIT "#,
    );
    reveal_strlit("id, parent_id, title,\n  (tokens_input + tokens_output + tokens_cache_read + tokens_cache_write) as tokens,\n  time_updated\nFROM session\nWHERE parent_id IS NOT NULL AND parent_id != ''\nLIMIT ");
    assert(SUBAGENT_SQL@.subrange(11, 200) =~= "id, parent_id, title,\n  (tokens_input + tokens_output + tokens_cache_read + tokens_cache_write) as tokens,\n  time_updated\nFROM session\nWHERE parent_id IS NOT NULL AND parent_id != ''\nLIMIT "@);
    assert(occurs_at(SUBAGENT_SQL@, "id, parent_id, title,\n  (tokens_input + tokens_output + tokens_cache_read + tokens_cache_write) as tokens,\n  time_updated\nFROM session\nWHERE parent_id IS NOT NULL AND parent_id != ''\nLIMIT "@, 11));
}

/// The query for the parts asks for each part of the given sessions with the role of its
/// message.
pub proof fn law_parts_query_asks_for_each_part()
    ensures
        contains_text(PARTS_SQL@, "p.session_id,\n  json_extract(m.data, '$.role') as role,\n  p.data as part_data\nFROM part p\nJOIN message m ON p.message_id = m.id\nWHERE p.session_id IN ("@),
{
    reveal_strlit(
        r#"
SELECT
  p.session_id,
  json_extract(m.data, '$.role') as role,
  p.data as part_data
FROM part p
JOIN message m ON p.message_id = m.id
WHERE p.session_id IN ("#,
    );
    reveal_strlit("p.session_id,\n  json_extract(m.data, '$.role') as role,\n  p.data as part_data\nFROM part p\nJOIN message m ON p.message_id = m.id\nWHERE p.session_id IN (");
    assert(PARTS_SQL@.subrange(10, 161) =~= "p.session_id,\n  json_extract(m.data, '$.role') as role,\n  p.data as part_data\nFROM part p\nJOIN message m ON p.message_id = m.id\nWHERE p.session_id IN ("@);
    assert(occurs_at(PARTS_SQL@, "p.session_id,\n  json_extract(m.data, '$.role') as role,\n  p.data as part_data\nFROM part p\nJOIN message m ON p.message_id = m.id\nWHERE p.session_id IN ("@, 10));
}

/// The parts come in the order in which they were made.
pub proof fn law_parts_come_in_their_order()
    ensures
        contains_text(PARTS_SQL_END@, ")\nORDER BY p.time_created ASC;"@),
{
    reveal_strlit(
        r#")
ORDER BY p.time_created ASC;"#,
    );
    reveal_strlit(")\nORDER BY p.time_created ASC;");
    assert(PARTS_SQL_END@.subrange(0, 30) =~= ")\nORDER BY p.time_created ASC;"@);
    assert(occurs_at(PARTS_SQL_END@, ")\nORDER BY p.time_created ASC;"@, 0));
}

} // verus!
