//! Chat sessions of an Odysseus workspace.
use super::location::{join, joined};
use super::process::{pids_where, ProcInfo};
use super::server::{is_listing, primary_of, primary_pid, server_mb, server_memory};
use super::SharedProcessData;
use crate::model::{
    blank_session, session_models, AgentSession, ContextFillModel, Effort, EffortModel, Platform,
    SessionModel,
    SessionStatus,
};
use crate::text::number::{decimal, parse_u32, parse_u64, parsed_unsigned, push_decimal};
use crate::text::scan::{contains, contains_text, lines, lines_of, occurs_at, pieces, pieces_of};
use crate::text::{one_text, text_or_empty, texts};
use std::collections::HashMap;
use vstd::prelude::*;
use vstd::string::*;

verus! {

/// The query for the sessions of the last day, run with `|` as the separator.
pub const SESSIONS_SQL: &'static str = r#"SELECT
  s.id,
  COALESCE(s.title, '(untitled)'),
  COALESCE(s.model_id, 'unknown'),
  COALESCE(CAST(strftime('%s', s.created_at) AS INTEGER), 0),
  COALESCE(CAST(strftime('%s', s.updated_at) AS INTEGER), 0),
  (SELECT COUNT(*) FROM chat_messages cm WHERE cm.session_id = s.id),
  COALESCE(
    (SELECT SUM(
      COALESCE(json_extract(cm.metadata, '$.usage.total_tokens'), 0)
    ) FROM chat_messages cm WHERE cm.session_id = s.id),
    0
  )
FROM sessions s
WHERE s.updated_at >= datetime('now', '-24 hours')
ORDER BY s.updated_at DESC
LIMIT 50;"#;

/// A chat session of the workspace's database.
#[derive(Debug)]
pub struct OdySession {
    pub id: String,
    pub title: String,
    pub model_id: String,
    /// Unix-epoch seconds.
    pub created_at: u64,
    /// Unix-epoch seconds.
    pub updated_at: u64,
    pub message_count: u32,
    pub total_tokens: u64,
}

pub ghost struct OdySessionModel {
    pub id: Seq<char>,
    pub title: Seq<char>,
    pub model_id: Seq<char>,
    pub created_at: u64,
    pub updated_at: u64,
    pub message_count: u32,
    pub total_tokens: u64,
}

impl View for OdySession {
    type V = OdySessionModel;

    open spec fn view(&self) -> OdySessionModel {
        OdySessionModel {
            id: self.id@,
            title: self.title@,
            model_id: self.model_id@,
            created_at: self.created_at,
            updated_at: self.updated_at,
            message_count: self.message_count,
            total_tokens: self.total_tokens,
        }
    }
}

/// The views of a list of chat sessions.
pub open spec fn ody_models(v: Seq<OdySession>) -> Seq<OdySessionModel> {
    v.map_values(|s: OdySession| s@)
}

/// Collector for an Odysseus workspace.
#[derive(Debug)]
pub struct OdysseusCollector {
    pub db_path: String,
    /// Whether the `sqlite3` program is available, once that was tried.
    pub sqlite3_available: Option<bool>,
    /// Sessions of the last query.
    pub cached_sessions: Vec<OdySession>,
    /// Last modification time of the database, in nanoseconds since the epoch.
    pub last_db_mtime: Option<i128>,
}

/// What a tick does.
#[derive(Debug, Clone, Copy, PartialEq, Eq, Structural)]
pub enum Plan {
    /// Nothing is shown.
    Nothing,
    /// The database is read again, and its sessions are shown.
    Query,
    /// The cached sessions are shown.
    Show,
}

/// Where the database may lie, in the order in which it is looked for.
pub open spec fn candidate_paths(
    home: Option<&str>,
    data_dir: Option<&str>,
    platform: Platform,
) -> Seq<Seq<char>> {
    seq![
        "/root/odysseus/data/app.db"@,
        joined(text_or_empty(home), "odysseus/data/app.db"@, platform),
        joined(text_or_empty(home), ".odysseus/data/app.db"@, platform),
        joined(text_or_empty(data_dir), "odysseus/app.db"@, platform),
    ]
}

/// Where the database may lie, in the order in which it is looked for.
pub fn db_candidates(home: Option<&str>, data_dir: Option<&str>, platform: Platform) -> (r: Vec<String>)
    ensures
        texts(r@) == candidate_paths(home, data_dir, platform),
{
    let home_dir = match home {
        Some(h) => h.to_owned(),
        None => String::new(),
    };
    let data = match data_dir {
        Some(d) => d.to_owned(),
        None => String::new(),
    };
    let mut out: Vec<String> = Vec::new();
    out.push("/root/odysseus/data/app.db".to_owned());
    out.push(join(home_dir.as_str(), "odysseus/data/app.db", platform));
    out.push(join(home_dir.as_str(), ".odysseus/data/app.db", platform));
    out.push(join(data.as_str(), "odysseus/app.db", platform));
    assert(texts(out@) =~= candidate_paths(home, data_dir, platform));
    out
}

/// The position of the first candidate that is present; zero where none is.
pub open spec fn first_present(present: Seq<bool>) -> int {
    if present.contains(true) {
        present.index_of_first(true)->Some_0
    } else {
        0
    }
}

/// The first candidate that is present, or else the first one. `present` says of
/// each candidate whether it is.
pub fn find_odysseus_db(candidates: &Vec<String>, present: &Vec<bool>) -> (r: String)
    requires
        candidates@.len() > 0,
        present@.len() == candidates@.len(),
    ensures
        r@ == candidates@[first_present(present@)]@,
{
    let mut i: usize = 0;
    while i < candidates.len()
        invariant
            i <= candidates@.len(),
            present@.len() == candidates@.len(),
            forall|k: int| 0 <= k < i ==> !#[trigger] present@[k],
        decreases candidates@.len() - i,
    {
        if present[i] {
            proof {
                assert(present@.contains(true));
                present@.index_of_first_ensures(true);
            }
            return candidates[i].clone();
        }
        i += 1;
    }
    candidates[0].clone()
}

/// A number within a limit; zero for anything else.
pub open spec fn count_or_zero(text: Seq<char>, max: nat) -> nat {
    match parsed_unsigned(text, max) {
        Some(n) => n,
        None => 0,
    }
}

/// The session that the seven fields of a line describe.
pub open spec fn session_of_fields(fields: Seq<Seq<char>>) -> OdySessionModel {
    OdySessionModel {
        id: fields[0],
        title: fields[1],
        model_id: fields[2],
        created_at: count_or_zero(fields[3], u64::MAX as nat) as u64,
        updated_at: count_or_zero(fields[4], u64::MAX as nat) as u64,
        message_count: count_or_zero(fields[5], u32::MAX as nat) as u32,
        total_tokens: count_or_zero(fields[6], u64::MAX as nat) as u64,
    }
}

/// The sessions that lines describe, in their order. A line with fewer than seven
/// fields is passed over.
pub open spec fn sessions_of_lines(lines: Seq<Seq<char>>) -> Seq<OdySessionModel>
    decreases lines.len(),
{
    if lines.len() == 0 {
        Seq::empty()
    } else {
        let before = sessions_of_lines(lines.drop_last());
        let fields = pieces_of(lines.last(), '|', 7);
        if fields.len() >= 7 {
            before.push(session_of_fields(fields))
        } else {
            before
        }
    }
}

fn count64(text: &str) -> (r: u64)
    ensures
        r == count_or_zero(text@, u64::MAX as nat),
{
    match parse_u64(text) {
        Some(n) => n,
        None => 0,
    }
}

fn count32(text: &str) -> (r: u32)
    ensures
        r == count_or_zero(text@, u32::MAX as nat),
{
    match parse_u32(text) {
        Some(n) => n,
        None => 0,
    }
}

/// The sessions that the output of the query describes.
pub fn parse_sessions(output: &str) -> (r: Vec<OdySession>)
    ensures
        ody_models(r@) == sessions_of_lines(lines_of(output@)),
{
    let rows = lines(output);
    let ghost all = lines_of(output@);
    let mut out: Vec<OdySession> = Vec::new();
    let mut i: usize = 0;
    assert(ody_models(out@) =~= sessions_of_lines(all.take(0)));
    while i < rows.len()
        invariant
            i <= rows@.len(),
            texts(rows@) == all,
            ody_models(out@) == sessions_of_lines(all.take(i as int)),
        decreases rows@.len() - i,
    {
        assert(texts(rows@)[i as int] == rows@[i as int]@);
        assert(all.take(i + 1).last() == rows@[i as int]@);
        assert(all.take(i + 1).drop_last() =~= all.take(i as int));
        let fields = pieces(rows[i].as_str(), '|', 7);
        if fields.len() >= 7 {
            assert(forall|k: int| 0 <= k < fields@.len() ==> texts(fields@)[k] == #[trigger] fields@[k]@);
            let session = OdySession {
                id: fields[0].clone(),
                title: fields[1].clone(),
                model_id: fields[2].clone(),
                created_at: count64(fields[3].as_str()),
                updated_at: count64(fields[4].as_str()),
                message_count: count32(fields[5].as_str()),
                total_tokens: count64(fields[6].as_str()),
            };
            assert(ody_models(out@.push(session)) =~= ody_models(out@).push(session@));
            out.push(session);
        }
        i += 1;
    }
    assert(all.take(i as int) =~= all);
    out
}

/// A command line that runs Odysseus.
pub open spec fn is_odysseus(p: ProcInfo) -> bool {
    contains_text(p.command@, "odysseus"@) || (contains_text(p.command@, "uvicorn"@) && contains_text(
        p.command@,
        "7000"@,
    ))
}

fn runs_odysseus(p: &ProcInfo) -> (r: bool)
    ensures
        r == is_odysseus(*p),
{
    let command = p.command.as_str();
    contains(command, "odysseus") || (contains(command, "uvicorn") && contains(command, "7000"))
}

/// The status of a session by its age: at work for five minutes after its last
/// update, waiting for an hour.
pub open spec fn status_of_age(age_secs: int) -> SessionStatus {
    if age_secs < 300 {
        SessionStatus::Thinking
    } else if age_secs < 3600 {
        SessionStatus::Waiting
    } else {
        SessionStatus::Unknown
    }
}

/// Whether a session was not updated in the future, and its start can be told in
/// milliseconds.
pub open spec fn is_timely(s: OdySession, now_ms: u64) -> bool {
    s.updated_at <= now_ms / 1000 && s.created_at * 1000 <= u64::MAX
}

/// The session that is shown of a chat session. `pid` is the workspace's process.
pub open spec fn chat_session(
    s: OdySessionModel,
    pid: u32,
    info: Map<u32, ProcInfo>,
    now_ms: u64,
) -> SessionModel {
    SessionModel {
        agent_cli: "odysseus"@,
        pid,
        session_id: s.id,
        cwd: "/root/odysseus"@,
        project_name: "Odysseus"@,
        started_at: (s.created_at * 1000) as u64,
        status: status_of_age(now_ms / 1000 - s.updated_at),
        model: s.model_id,
        effort: EffortModel::Text(decimal(s.message_count as nat) + " msgs"@),
        total_input_tokens: s.total_tokens,
        turn_count: s.message_count,
        current_tasks: seq![s.title],
        mem_mb: server_mb(info, pid),
        context_window: 128000,
        initial_prompt: s.title,
        config_root: "~/odysseus"@,
        ..blank_session()
    }
}

/// The sessions that are shown of the chat sessions, in their order.
pub open spec fn chat_sessions(
    list: Seq<OdySessionModel>,
    pid: u32,
    info: Map<u32, ProcInfo>,
    now_ms: u64,
) -> Seq<SessionModel> {
    list.map_values(|s: OdySessionModel| chat_session(s, pid, info, now_ms))
}

fn build_session(s: &OdySession, pid: u32, info: &HashMap<u32, ProcInfo>, now_ms: u64) -> (r: AgentSession)
    requires
        is_timely(*s, now_ms),
    ensures
        r@ == chat_session(s@, pid, info@, now_ms),
{
    let age_secs = now_ms / 1000 - s.updated_at;
    let mut effort = String::new();
    push_decimal(&mut effort, s.message_count as u64);
    effort.append(" msgs");
    assert(effort@ =~= decimal(s.message_count as nat) + " msgs"@);
    AgentSession {
        agent_cli: "odysseus",
        pid,
        session_id: s.id.clone(),
        cwd: "/root/odysseus".to_owned(),
        project_name: "Odysseus".to_owned(),
        started_at: s.created_at * 1000,
        status: if age_secs < 300 {
            SessionStatus::Thinking
        } else if age_secs < 3600 {
            SessionStatus::Waiting
        } else {
            SessionStatus::Unknown
        },
        model: s.model_id.clone(),
        effort: Effort::Text(effort),
        total_input_tokens: s.total_tokens,
        turn_count: s.message_count,
        current_tasks: one_text(s.title.clone()),
        mem_mb: server_memory(info, pid),
        context_window: 128000,
        initial_prompt: s.title.clone(),
        config_root: "~/odysseus".to_owned(),
        ..AgentSession::blank()
    }
}

impl OdysseusCollector {
    /// Whether each cached session is timely.
    pub open spec fn timely(self, now_ms: u64) -> bool {
        forall|i: int|
            0 <= i < self.cached_sessions@.len() ==> is_timely(#[trigger] self.cached_sessions@[i], now_ms)
    }

    /// A collector for the database at `db_path`, with nothing cached.
    pub fn new(db_path: String) -> (r: OdysseusCollector)
        ensures
            r.db_path == db_path,
            r.sqlite3_available is None,
            r.cached_sessions@.len() == 0,
            r.last_db_mtime is None,
    {
        OdysseusCollector {
            db_path,
            sqlite3_available: None,
            cached_sessions: Vec::new(),
            last_db_mtime: None,
        }
    }

    /// Whether the `sqlite3` program is available. What the first trial found is
    /// kept; `probe` is what a trial finds now.
    pub fn check_sqlite3(&mut self, probe: bool) -> (r: bool)
        ensures
            r == (match old(self).sqlite3_available {
                Some(known) => known,
                None => probe,
            }),
            *final(self) == (OdysseusCollector { sqlite3_available: Some(r), ..*old(self) }),
    {
        match self.sqlite3_available {
            Some(known) => known,
            None => {
                self.sqlite3_available = Some(probe);
                probe
            },
        }
    }

    /// Whether the database has to be read again: on a slow tick, when its
    /// modification time is another one, and while nothing is cached.
    pub fn needs_refresh(&self, slow_tick: bool, mtime: Option<i128>) -> (r: bool)
        ensures
            r == (slow_tick || mtime != self.last_db_mtime || self.cached_sessions@.len() == 0),
    {
        let unchanged = match (mtime, self.last_db_mtime) {
            (Some(a), Some(b)) => a == b,
            (None, None) => true,
            _ => false,
        };
        slow_tick || !unchanged || self.cached_sessions.len() == 0
    }

    /// What a tick does: nothing without `sqlite3`, or where a database that has to be
    /// read is not there. What is cached stays so.
    pub fn plan(&self, slow_tick: bool, mtime: Option<i128>, present: bool) -> (r: Plan)
        ensures
            r == (if self.sqlite3_available != Some(true) {
                Plan::Nothing
            } else if slow_tick || mtime != self.last_db_mtime || self.cached_sessions@.len() == 0 {
                if present {
                    Plan::Query
                } else {
                    Plan::Nothing
                }
            } else {
                Plan::Show
            }),
    {
        match self.sqlite3_available {
            Some(true) => if self.needs_refresh(slow_tick, mtime) {
                if present {
                    Plan::Query
                } else {
                    Plan::Nothing
                }
            } else {
                Plan::Show
            },
            _ => Plan::Nothing,
        }
    }

    /// Takes in what the query printed, `None` where it failed, for a database that
    /// was last modified at `mtime`.
    pub fn refresh(&mut self, output: Option<&str>, mtime: Option<i128>)
        ensures
            ody_models(final(self).cached_sessions@) == (match output {
                Some(text) => sessions_of_lines(lines_of(text@)),
                None => Seq::empty(),
            }),
            *final(self) == (OdysseusCollector {
                cached_sessions: final(self).cached_sessions,
                last_db_mtime: mtime,
                ..*old(self)
            }),
    {
        self.cached_sessions = match output {
            Some(text) => parse_sessions(text),
            None => Vec::new(),
        };
        self.last_db_mtime = mtime;
        assert(output is None ==> ody_models(self.cached_sessions@) =~= Seq::empty());
    }

    /// The running Odysseus processes, each once.
    pub fn find_pids(info: &HashMap<u32, ProcInfo>) -> (r: Vec<u32>)
        ensures
            is_listing(r@, info@, |p: ProcInfo| is_odysseus(p)),
    {
        pids_where(info, runs_odysseus, Ghost(|p: ProcInfo| is_odysseus(p)))
    }

    /// The sessions that are shown of the cached ones. `pid` is the workspace's
    /// process.
    pub fn build_sessions(&self, pid: u32, info: &HashMap<u32, ProcInfo>, now_ms: u64) -> (r: Vec<
        AgentSession,
    >)
        requires
            self.timely(now_ms),
        ensures
            session_models(r@) == chat_sessions(ody_models(self.cached_sessions@), pid, info@, now_ms),
    {
        let mut out: Vec<AgentSession> = Vec::new();
        let ghost wanted = chat_sessions(ody_models(self.cached_sessions@), pid, info@, now_ms);
        let mut i: usize = 0;
        while i < self.cached_sessions.len()
            invariant
                i <= self.cached_sessions@.len(),
                self.timely(now_ms),
                wanted == chat_sessions(ody_models(self.cached_sessions@), pid, info@, now_ms),
                out@.len() == i,
                forall|k: int| 0 <= k < i ==> (#[trigger] out@[k])@ == wanted[k],
            decreases self.cached_sessions@.len() - i,
        {
            out.push(build_session(&self.cached_sessions[i], pid, info, now_ms));
            i += 1;
        }
        assert(session_models(out@) =~= wanted);
        out
    }

    /// Whether each cached session is timely.
    pub fn is_timely_at(&self, now_ms: u64) -> (r: bool)
        ensures
            r == self.timely(now_ms),
    {
        let mut i: usize = 0;
        while i < self.cached_sessions.len()
            invariant
                i <= self.cached_sessions@.len(),
                forall|k: int| 0 <= k < i ==> is_timely(#[trigger] self.cached_sessions@[k], now_ms),
            decreases self.cached_sessions@.len() - i,
        {
            let s = &self.cached_sessions[i];
            if s.updated_at > now_ms / 1000 || s.created_at > u64::MAX / 1000 {
                assert(!is_timely(self.cached_sessions@[i as int], now_ms));
                return false;
            }
            i += 1;
        }
        true
    }

    /// The sessions that are shown of the cached ones; `None` where one of them is
    /// not timely.
    pub fn collect(&self, shared: &SharedProcessData, now_ms: u64) -> (r: Option<Vec<AgentSession>>)
        ensures
            r is Some <==> self.timely(now_ms),
            r is Some ==> exists|pids: Seq<u32>|
                is_listing(pids, shared.process_info@, |p: ProcInfo| is_odysseus(p)) && session_models(
                    r->Some_0@,
                ) == #[trigger] chat_sessions(
                    ody_models(self.cached_sessions@),
                    primary_of(pids),
                    shared.process_info@,
                    now_ms,
                ),
    {
        if !self.is_timely_at(now_ms) {
            return None;
        }
        let pids = Self::find_pids(&shared.process_info);
        let out = self.build_sessions(primary_pid(&pids), &shared.process_info, now_ms);
        assert(session_models(out@) == chat_sessions(
            ody_models(self.cached_sessions@),
            primary_of(pids@),
            shared.process_info@,
            now_ms,
        ));
        Some(out)
    }
}

/// A line of seven fields describes a session; numbers that cannot be read are zero.
pub proof fn law_line_describes_a_session(
    lines: Seq<Seq<char>>,
    line: Seq<char>,
    fields: Seq<Seq<char>>,
)
    requires
        pieces_of(line, '|', 7) == fields,
    ensures
        sessions_of_lines(Seq::empty()).len() == 0,
        fields.len() < 7 ==> sessions_of_lines(lines.push(line)) == sessions_of_lines(lines),
        fields.len() == 7 ==> {
            let all = sessions_of_lines(lines.push(line));
            let s = all.last();
            &&& all.len() == sessions_of_lines(lines).len() + 1
            &&& all.drop_last() == sessions_of_lines(lines)
            &&& s.id == fields[0]
            &&& s.title == fields[1]
            &&& s.model_id == fields[2]
            &&& s.created_at == number_up_to(fields[3], u64::MAX as nat)
            &&& s.updated_at == number_up_to(fields[4], u64::MAX as nat)
            &&& s.message_count == number_up_to(fields[5], u32::MAX as nat)
            &&& s.total_tokens == number_up_to(fields[6], u64::MAX as nat)
        },
{
    assert(lines.push(line).drop_last() =~= lines);
    if fields.len() == 7 {
        let before = sessions_of_lines(lines);
        assert(sessions_of_lines(lines.push(line)).drop_last() =~= before);
        lemma_number_bound(fields[3], u64::MAX as nat);
        lemma_number_bound(fields[4], u64::MAX as nat);
        lemma_number_bound(fields[5], u32::MAX as nat);
        lemma_number_bound(fields[6], u64::MAX as nat);
    }
}

/// The number that a text spells, up to a limit, and else zero.
pub open spec fn number_up_to(text: Seq<char>, max: nat) -> nat {
    if parsed_unsigned(text, max) is Some {
        parsed_unsigned(text, max)->Some_0
    } else {
        0
    }
}

proof fn lemma_number_bound(text: Seq<char>, max: nat)
    ensures
        number_up_to(text, max) <= max,
{
}

/// What is shown of a chat session: thinking for five minutes after its last update, waiting
/// for the rest of an hour, and then not known.
pub proof fn law_chat_session_is_shown(
    s: OdySessionModel,
    pid: u32,
    info: Map<u32, ProcInfo>,
    now_ms: u64,
)
    requires
        s.updated_at <= now_ms / 1000,
        s.created_at * 1000 <= u64::MAX,
    ensures
        ({
            let v = chat_session(s, pid, info, now_ms);
            let now = now_ms / 1000;
            &&& now < s.updated_at + 300 ==> v.status == SessionStatus::Thinking
            &&& s.updated_at + 300 <= now < s.updated_at + 3600 ==> v.status
                == SessionStatus::Waiting
            &&& now >= s.updated_at + 3600 ==> v.status == SessionStatus::Unknown
            &&& v.agent_cli == "odysseus"@ && v.project_name == "Odysseus"@
            &&& v.cwd == "/root/odysseus"@ && v.config_root == "~/odysseus"@
            &&& v.pid == pid
            &&& v.session_id == s.id
            &&& v.started_at == s.created_at * 1000
            &&& v.model == s.model_id
            &&& v.effort == EffortModel::Text(decimal(s.message_count as nat) + " msgs"@)
            &&& v.total_input_tokens == s.total_tokens
            &&& v.total_output_tokens == 0 && v.total_cache_read == 0 && v.total_cache_create == 0
            &&& v.turn_count == s.message_count
            &&& v.current_tasks == seq![s.title]
            &&& v.initial_prompt == s.title
            &&& v.context_window == 128000
            &&& v.context == ContextFillModel::Empty
            &&& pid == 0 ==> v.mem_mb == 0
            &&& pid != 0 && info.contains_key(pid) ==> v.mem_mb == info[pid].rss_kb / 1024
            &&& pid != 0 && !info.contains_key(pid) ==> v.mem_mb == 0
            &&& v.children.len() == 0 && v.subagents.len() == 0 && v.chat_messages.len() == 0
        }),
{
}

/// Each cached session is shown, in its order.
pub proof fn law_each_chat_session_is_shown(
    list: Seq<OdySessionModel>,
    pid: u32,
    info: Map<u32, ProcInfo>,
    now_ms: u64,
    i: int,
)
    ensures
        chat_sessions(list, pid, info, now_ms).len() == list.len(),
        0 <= i < list.len() ==> chat_sessions(list, pid, info, now_ms)[i] == chat_session(
            list[i],
            pid,
            info,
            now_ms,
        ),
{
}

/// An Odysseus process is one that is named so, or a uvicorn that serves port 7000.
pub proof fn law_odysseus_is_known_by_its_command(p: ProcInfo)
    ensures
        contains_text(p.command@, "odysseus"@) ==> is_odysseus(p),
        contains_text(p.command@, "uvicorn"@) && contains_text(p.command@, "7000"@)
            ==> is_odysseus(p),
        !contains_text(p.command@, "odysseus"@) && !contains_text(p.command@, "uvicorn"@)
            ==> !is_odysseus(p),
        !contains_text(p.command@, "odysseus"@) && !contains_text(p.command@, "7000"@)
            ==> !is_odysseus(p),
{
}

/// The database is the first candidate that is present, and the first of all where none is.
pub proof fn law_first_present_candidate_is_taken(present: Seq<bool>, k: int)
    requires
        0 <= k < present.len(),
        forall|i: int| 0 <= i < k ==> !#[trigger] present[i],
    ensures
        present[k] ==> first_present(present) == k,
        (forall|i: int| 0 <= i < present.len() ==> !#[trigger] present[i]) ==> first_present(present)
            == 0,
{
    if present[k] {
        assert(present.contains(true));
        present.index_of_first_ensures(true);
        let j = present.index_of_first(true)->Some_0;
        assert(present[j]);
    }
}

/// Where the database is looked for, in this order.
pub proof fn law_candidates_come_in_order(home: &str, data_dir: &str)
    ensures
        candidate_paths(Some(home), Some(data_dir), Platform::Other).len() == 4,
        candidate_paths(Some(home), Some(data_dir), Platform::Other)[0]
            == "/root/odysseus/data/app.db"@,
        home@.len() > 0 && home@.last() != '/' ==> candidate_paths(
            Some(home),
            Some(data_dir),
            Platform::Other,
        )[1] == home@ + seq!['/'] + "odysseus/data/app.db"@,
        home@.len() > 0 && home@.last() != '/' ==> candidate_paths(
            Some(home),
            Some(data_dir),
            Platform::Other,
        )[2] == home@ + seq!['/'] + ".odysseus/data/app.db"@,
        data_dir@.len() > 0 && data_dir@.last() != '/' ==> candidate_paths(
            Some(home),
            Some(data_dir),
            Platform::Other,
        )[3] == data_dir@ + seq!['/'] + "odysseus/app.db"@,
{
    assert(home@ + seq!['/'] =~= home@.push('/'));
    assert(data_dir@ + seq!['/'] =~= data_dir@.push('/'));
}

/// A chat session shows its own fields.
pub proof fn law_chat_session_shows_its_fields(s: OdySession)
    ensures
        s@.id == s.id@,
        s@.title == s.title@,
        s@.model_id == s.model_id@,
        s@.created_at == s.created_at,
        s@.updated_at == s.updated_at,
        s@.message_count == s.message_count,
        s@.total_tokens == s.total_tokens,
{
}

/// The query asks for the seven fields in the order in which they are read, of the sessions
/// of the last day, those that were updated last first.
pub proof fn law_query_asks_for_seven_fields()
    ensures
        contains_text(SESSIONS_SQL@, "SELECT\n  s.id,\n  COALESCE(s.title, '(untitled)'),\n  COALESCE(s.model_id, 'unknown'),\n  COALESCE(CAST(strftime('%s', s.created_at) AS INTEGER), 0),\n  COALESCE(CAST(strftime('%s', s.updated_at) AS INTEGER), 0),\n  (SELECT COUNT(*) FROM chat_messages cm WHERE cm.session_id = s.id),\n  COALESCE(\n    (SELECT SUM(\n      COALESCE(json_extract(cm.metadata, '$.usage.total_tokens'), 0)\n    ) FROM chat_messages cm WHERE cm.session_id = s.id),\n    0\n  )\nFROM sessions s"@),
        contains_text(SESSIONS_SQL@, "WHERE s.updated_at >= datetime('now', '-24 hours')\nORDER BY s.updated_at DESC\nLIMIT 50;"@),
{
    reveal_strlit(
        r#"SELECT
  s.id,
  COALESCE(s.title, '(untitled)'),
  COALESCE(s.model_id, 'unknown'),
  COALESCE(CAST(strftime('%s', s.created_at) AS INTEGER), 0),
  COALESCE(CAST(strftime('%s', s.updated_at) AS INTEGER), 0),
  (SELECT COUNT(*) FROM chat_messages cm WHERE cm.session_id = s.id),
  COALESCE(
    (SELECT SUM(
      COALESCE(json_extract(cm.metadata, '$.usage.total_tokens'), 0)
    ) FROM chat_messages cm WHERE cm.session_id = s.id),
    0
  )
FROM sessions s
WHERE s.updated_at >= datetime('now', '-24 hours')
ORDER BY s.updated_at DESC
LIMIT 50;"#,
    );
    reveal_strlit("SELECT\n  s.id,\n  COALESCE(s.title, '(untitled)'),\n  COALESCE(s.model_id, 'unknown'),\n  COALESCE(CAST(strftime('%s', s.created_at) AS INTEGER), 0),\n  COALESCE(CAST(strftime('%s', s.updated_at) AS INTEGER), 0),\n  (SELECT COUNT(*) FROM chat_messages cm WHERE cm.session_id = s.id),\n  COALESCE(\n    (SELECT SUM(\n      COALESCE(json_extract(cm.metadata, '$.usage.total_tokens'), 0)\n    ) FROM chat_messages cm WHERE cm.session_id = s.id),\n    0\n  )\nFROM sessions s");
    reveal_strlit("WHERE s.updated_at >= datetime('now', '-24 hours')\nORDER BY s.updated_at DESC\nLIMIT 50;");
    assert(SESSIONS_SQL@.subrange(0, 459) =~= "SELECT\n  s.id,\n  COALESCE(s.title, '(untitled)'),\n  COALESCE(s.model_id, 'unknown'),\n  COALESCE(CAST(strftime('%s', s.created_at) AS INTEGER), 0),\n  COALESCE(CAST(strftime('%s', s.updated_at) AS INTEGER), 0),\n  (SELECT COUNT(*) FROM chat_messages cm WHERE cm.session_id = s.id),\n  COALESCE(\n    (SELECT SUM(\n      COALESCE(json_extract(cm.metadata, '$.usage.total_tokens'), 0)\n    ) FROM chat_messages cm WHERE cm.session_id = s.id),\n    0\n  )\nFROM sessions s"@);
    assert(occurs_at(SESSIONS_SQL@, "SELECT\n  s.id,\n  COALESCE(s.title, '(untitled)'),\n  COALESCE(s.model_id, 'unknown'),\n  COALESCE(CAST(strftime('%s', s.created_at) AS INTEGER), 0),\n  COALESCE(CAST(strftime('%s', s.updated_at) AS INTEGER), 0),\n  (SELECT COUNT(*) FROM chat_messages cm WHERE cm.session_id = s.id),\n  COALESCE(\n    (SELECT SUM(\n      COALESCE(json_extract(cm.metadata, '$.usage.total_tokens'), 0)\n    ) FROM chat_messages cm WHERE cm.session_id = s.id),\n    0\n  )\nFROM sessions s"@, 0));
    assert(SESSIONS_SQL@.subrange(460, 547) =~= "WHERE s.updated_at >= datetime('now', '-24 hours')\nORDER BY s.updated_at DESC\nLIMIT 50;"@);
    assert(occurs_at(SESSIONS_SQL@, "WHERE s.updated_at >= datetime('now', '-24 hours')\nORDER BY s.updated_at DESC\nLIMIT 50;"@, 460));
}

/// A session is timely where it was not updated in the future, and its start in milliseconds
/// fits 64 bits; a workspace is where all of its sessions are.
pub proof fn law_timely_sessions(s: OdySession, c: OdysseusCollector, now_ms: u64)
    ensures
        is_timely(s, now_ms) <==> s.updated_at * 1000 <= now_ms && s.created_at * 1000
            <= 0xffff_ffff_ffff_ffff,
        c.timely(now_ms) <==> forall|i: int|
            0 <= i < c.cached_sessions@.len() ==> (#[trigger] c.cached_sessions@[i]).updated_at * 1000
                <= now_ms && c.cached_sessions@[i].created_at * 1000 <= 0xffff_ffff_ffff_ffff,
{
    if c.timely(now_ms) {
        assert forall|i: int| 0 <= i < c.cached_sessions@.len() implies (
        #[trigger] c.cached_sessions@[i]).updated_at * 1000 <= now_ms && c.cached_sessions@[i].created_at
            * 1000 <= 0xffff_ffff_ffff_ffff by {
            assert(is_timely(c.cached_sessions@[i], now_ms));
        }
    }
}

} // verus!
