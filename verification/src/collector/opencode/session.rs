//! A session of the database together with the process that runs it.
use super::parts::{find_parts, lemma_parts_index, table_chat, table_tools, SessionParts};
use super::rows::{
    db_subagent_models, truncate_field, DbSession, DbSessionModel, DbSubAgent, DbSubAgentModel,
};
use crate::collector::location::{last_name, last_path_segment, lemma_last_name_is};
use crate::collector::process::{
    busy, descendants_of, descends, has_active_descendant, law_descendants,
    law_tree_counts_each_process_once, lemma_memory_of_same, memory_sum, tree_memory, tree_of,
    tree_rss_kb, CpuLoad, ProcInfo,
};
use crate::collector::{
    child_processes, children_of, first_port, law_listed_processes_are_shown, SharedProcessData,
};
use crate::model::{
    blank_session, chat_models, clone_chat, clone_tools, subagent_models, tool_models, AgentSession,
    ChatMessage, ChatMessageModel, ChatRole, ContextFill, ContextFillModel, EffortModel, Platform, SessionModel,
    SessionStatus, SubAgent, SubAgentModel, ToolCall,
};
use crate::text::utf8::fitting;
use crate::text::{same, texts};
use std::collections::HashMap;
use vstd::prelude::*;
use vstd::string::*;

verus! {

broadcast use vstd::std_specs::hash::group_hash_axioms;

/// What the files beside a session say of it.
#[derive(Debug)]
pub struct SessionFacts {
    /// The branch that is checked out in the session's directory.
    pub git_branch: String,
    /// The configured size of the model's context, where there is one.
    pub config_window: Option<u64>,
    /// The size of the model's context where none is configured.
    pub default_window: u64,
}

/// What a session is built from besides its row and its facts.
pub struct Surroundings<'a> {
    pub shared: &'a SharedProcessData,
    pub subagents: &'a Vec<DbSubAgent>,
    pub parts: &'a Vec<SessionParts>,
    /// The present, in Unix-epoch milliseconds.
    pub now_ms: u64,
    /// The directory of the database, as it is shown.
    pub config_root: &'a str,
    pub platform: Platform,
}

/// Whether a listed process has a CPU usage of over five percent.
pub open spec fn is_active(info: Map<u32, ProcInfo>, pid: u32) -> bool {
    info.contains_key(pid) && info[pid].cpu != CpuLoad::Low
}

/// The status of a session. The model is thinking when the last message is the
/// user's or is not completed yet, and while the process or one below it is busy.
pub open spec fn status_of(ds: DbSessionModel, shared: SharedProcessData, pid: u32) -> SessionStatus {
    if ds.latest.last_role == "user"@ || (ds.latest.last_role == "assistant"@
        && ds.latest.last_completed is None) {
        SessionStatus::Thinking
    } else if is_active(shared.process_info@, pid) || exists|p: u32|
        descends(shared.children_map@, pid, p) && #[trigger] busy(shared.process_info@, p) {
        SessionStatus::Thinking
    } else {
        SessionStatus::Waiting
    }
}

/// The name of a session's project: its own, or else the last name of its directory.
pub open spec fn project_of(ds: DbSessionModel, platform: Platform) -> Seq<char> {
    if ds.project_name.len() > 0 {
        ds.project_name
    } else if last_name(ds.directory, platform).len() > 0 {
        last_name(ds.directory, platform)
    } else {
        "?"@
    }
}

/// The model of a session, behind its provider where that is known.
pub open spec fn model_of(ds: DbSessionModel) -> Seq<char> {
    if ds.latest.model.len() == 0 {
        "-"@
    } else if ds.latest.provider.len() > 0 {
        ds.latest.provider.push('/') + ds.latest.model
    } else {
        ds.latest.model
    }
}

/// A subagent as it is shown: at work until half a minute after its last update.
pub open spec fn shown_subagent(sub: DbSubAgentModel, now_ms: u64) -> SubAgentModel {
    SubAgentModel {
        name: fitting(sub.title, 30),
        status: if now_ms - sub.time_updated < 30_000 {
            "working"@
        } else {
            "done"@
        },
        tokens: sub.tokens,
    }
}

/// The subagents of the session `id`, in the order of the database.
pub open spec fn subagents_of(
    subs: Seq<DbSubAgentModel>,
    id: Seq<char>,
    now_ms: u64,
) -> Seq<SubAgentModel>
    decreases subs.len(),
{
    if subs.len() == 0 {
        Seq::empty()
    } else {
        let before = subagents_of(subs.drop_last(), id, now_ms);
        if subs.last().parent_id == id {
            before.push(shown_subagent(subs.last(), now_ms))
        } else {
            before
        }
    }
}

/// The first text of the assistant in a transcript; nothing where there is none.
pub open spec fn first_reply(chat: Seq<ChatMessageModel>) -> Seq<char>
    decreases chat.len(),
{
    if chat.len() == 0 {
        Seq::empty()
    } else if chat[0].role == ChatRole::Assistant {
        chat[0].text
    } else {
        first_reply(chat.drop_first())
    }
}

/// The size of a session's context: the configured one, or else the usual one.
pub open spec fn window_of(facts: SessionFacts) -> u64 {
    match facts.config_window {
        Some(w) => w,
        None => facts.default_window,
    }
}

/// The session that a row of the database and the process `pid` make up.
pub open spec fn session_of(
    ds: DbSessionModel,
    pid: u32,
    facts: SessionFacts,
    around: Surroundings,
) -> SessionModel {
    let status = status_of(ds, *around.shared, pid);
    let window = window_of(facts);
    SessionModel {
        agent_cli: "opencode"@,
        pid,
        session_id: ds.id,
        cwd: ds.directory,
        project_name: project_of(ds, around.platform),
        started_at: ds.time_created,
        status,
        model: model_of(ds),
        context: if window > 0 {
            ContextFillModel::Tokens { used: ds.latest.last_total_tokens, window }
        } else {
            ContextFillModel::Empty
        },
        total_input_tokens: ds.total_input,
        total_output_tokens: ds.total_output,
        total_cache_read: ds.total_cache_read,
        total_cache_create: ds.total_cache_write,
        turn_count: ds.turn_count,
        current_tasks: if status == SessionStatus::Waiting {
            seq!["waiting for input"@]
        } else {
            seq!["thinking..."@]
        },
        mem_mb: tree_memory(
            around.shared.process_info@,
            around.shared.children_map@,
            pid,
        ) / 1024,
        version: ds.version,
        git_branch: facts.git_branch@,
        context_window: window,
        subagents: subagents_of(db_subagent_models(around.subagents@), ds.id, around.now_ms),
        children: children_of(*around.shared, pid),
        initial_prompt: ds.title,
        first_assistant_text: first_reply(table_chat(around.parts@, ds.id)),
        chat_messages: table_chat(around.parts@, ds.id),
        tool_calls: table_tools(around.parts@, ds.id),
        config_root: around.config_root@,
        ..blank_session()
    }
}

fn read_active(info: &HashMap<u32, ProcInfo>, pid: u32) -> (r: bool)
    ensures
        r == is_active(info@, pid),
{
    match info.get(&pid) {
        Some(p) => p.cpu != CpuLoad::Low,
        None => false,
    }
}

fn read_status(ds: &DbSession, shared: &SharedProcessData, pid: u32) -> (r: SessionStatus)
    ensures
        r == status_of(ds@, *shared, pid),
{
    let role = ds.latest.last_role.as_str();
    if same(role, "user") || (same(role, "assistant") && ds.latest.last_completed.is_none()) {
        SessionStatus::Thinking
    } else if read_active(&shared.process_info, pid) || has_active_descendant(
        pid,
        &shared.children_map,
        &shared.process_info,
    ) {
        SessionStatus::Thinking
    } else {
        SessionStatus::Waiting
    }
}

fn read_project(ds: &DbSession, platform: Platform) -> (r: String)
    ensures
        r@ == project_of(ds@, platform),
{
    if !ds.project_name.as_str().is_empty() {
        return ds.project_name.clone();
    }
    match last_path_segment(ds.directory.as_str(), platform) {
        Some(name) => name,
        None => "?".to_owned(),
    }
}

fn read_model(ds: &DbSession) -> (r: String)
    ensures
        r@ == model_of(ds@),
{
    if ds.latest.model.as_str().is_empty() {
        "-".to_owned()
    } else if !ds.latest.provider.as_str().is_empty() {
        let mut out = ds.latest.provider.clone();
        out.push('/');
        out.append(ds.latest.model.as_str());
        out
    } else {
        ds.latest.model.clone()
    }
}

fn read_subagents(subs: &Vec<DbSubAgent>, id: &str, now_ms: u64) -> (r: Vec<SubAgent>)
    ensures
        subagent_models(r@) == subagents_of(db_subagent_models(subs@), id@, now_ms),
{
    let ghost all = db_subagent_models(subs@);
    let mut out: Vec<SubAgent> = Vec::new();
    let mut i: usize = 0;
    assert(subagent_models(out@) =~= subagents_of(all.take(0), id@, now_ms));
    while i < subs.len()
        invariant
            i <= subs@.len(),
            all == db_subagent_models(subs@),
            subagent_models(out@) == subagents_of(all.take(i as int), id@, now_ms),
        decreases subs@.len() - i,
    {
        let sub = &subs[i];
        assert(all.take(i + 1).last() == sub@);
        assert(all.take(i + 1).drop_last() =~= all.take(i as int));
        if same(sub.parent_id.as_str(), id) {
            let age_ms = now_ms.saturating_sub(sub.time_updated);
            let status = if age_ms / 1000 < 30 {
                "working".to_owned()
            } else {
                "done".to_owned()
            };
            let mut name = sub.title.clone();
            truncate_field(&mut name, 30);
            let shown = SubAgent { name, status, tokens: sub.tokens };
            assert(shown@ == shown_subagent(sub@, now_ms));
            assert(subagent_models(out@.push(shown)) =~= subagent_models(out@).push(shown@));
            out.push(shown);
        }
        i += 1;
    }
    assert(all.take(i as int) =~= all);
    out
}

fn read_first_reply(chat: &Vec<ChatMessage>) -> (r: String)
    ensures
        r@ == first_reply(chat_models(chat@)),
{
    let ghost all = chat_models(chat@);
    let mut i: usize = 0;
    assert(all.skip(0) =~= all);
    while i < chat.len()
        invariant
            i <= chat@.len(),
            all == chat_models(chat@),
            first_reply(all.skip(i as int)) == first_reply(all),
        decreases chat@.len() - i,
    {
        assert(all.skip(i as int)[0] == chat@[i as int]@);
        assert(all.skip(i as int).drop_first() =~= all.skip(i + 1));
        if chat[i].role == ChatRole::Assistant {
            return chat[i].text.clone();
        }
        i += 1;
    }
    String::new()
}

fn read_parts(parts: &Vec<SessionParts>, id: &str) -> (r: (Vec<ChatMessage>, Vec<ToolCall>))
    ensures
        chat_models(r.0@) == table_chat(parts@, id@),
        tool_models(r.1@) == table_tools(parts@, id@),
{
    match find_parts(parts, id) {
        Some(i) => (clone_chat(&parts[i].chat), clone_tools(&parts[i].tools)),
        None => {
            let chat: Vec<ChatMessage> = Vec::new();
            let tools: Vec<ToolCall> = Vec::new();
            assert(chat_models(chat@) =~= Seq::empty());
            assert(tool_models(tools@) =~= Seq::empty());
            (chat, tools)
        },
    }
}

/// The session that a row of the database and the process `pid` make up.
pub fn build_session(ds: &DbSession, pid: u32, facts: &SessionFacts, around: &Surroundings) -> (r:
    AgentSession)
    ensures
        r@ == session_of(ds@, pid, *facts, *around),
        ds.latest.last_role@ == "user"@ || (ds.latest.last_role@ == "assistant"@
            && ds.latest.last_completed is None) ==> r.status == SessionStatus::Thinking && texts(
            r.current_tasks@,
        ) == seq!["thinking..."@],
        facts.config_window matches Some(w) ==> r.context_window == w && (w > 0 ==> r.context@ == (
        ContextFillModel::Tokens { used: ds.latest.last_total_tokens, window: w })),
        r.pid == pid && r.session_id@ == ds.id@ && r.cwd@ == ds.directory@ && r.started_at
            == ds.time_created,
        r.total_input_tokens == ds.total_input && r.total_output_tokens == ds.total_output,
        r.total_cache_read == ds.total_cache_read && r.total_cache_create == ds.total_cache_write,
{
    let status = read_status(ds, around.shared, pid);
    let mut current_tasks: Vec<String> = Vec::new();
    if status == SessionStatus::Waiting {
        current_tasks.push("waiting for input".to_owned());
        assert(texts(current_tasks@) =~= seq!["waiting for input"@]);
    } else {
        current_tasks.push("thinking...".to_owned());
        assert(texts(current_tasks@) =~= seq!["thinking..."@]);
    }
    let window = match facts.config_window {
        Some(w) => w,
        None => facts.default_window,
    };
    let (chat_messages, tool_calls) = read_parts(around.parts, ds.id.as_str());
    AgentSession {
        agent_cli: "opencode",
        pid,
        session_id: ds.id.clone(),
        cwd: ds.directory.clone(),
        project_name: read_project(ds, around.platform),
        started_at: ds.time_created,
        status,
        model: read_model(ds),
        context: if window > 0 {
            ContextFill::Tokens { used: ds.latest.last_total_tokens, window }
        } else {
            ContextFill::Empty
        },
        total_input_tokens: ds.total_input,
        total_output_tokens: ds.total_output,
        total_cache_read: ds.total_cache_read,
        total_cache_create: ds.total_cache_write,
        turn_count: ds.turn_count,
        current_tasks,
        mem_mb: tree_rss_kb(&around.shared.process_info, &around.shared.children_map, pid)
            / 1024,
        version: ds.version.clone(),
        git_branch: facts.git_branch.clone(),
        context_window: window,
        subagents: read_subagents(around.subagents, ds.id.as_str(), around.now_ms),
        children: child_processes(around.shared, pid),
        initial_prompt: ds.title.clone(),
        first_assistant_text: read_first_reply(&chat_messages),
        chat_messages,
        tool_calls,
        config_root: around.config_root.to_owned(),
        ..AgentSession::blank()
    }
}

/// A session whose last message is the user's, or is the assistant's and not completed, is
/// thinking, whatever its processes do.
pub proof fn law_unanswered_session_is_thinking(
    ds: DbSessionModel,
    pid: u32,
    facts: SessionFacts,
    around: Surroundings,
)
    requires
        ds.latest.last_role == "user"@ || (ds.latest.last_role == "assistant"@
            && ds.latest.last_completed is None),
    ensures
        session_of(ds, pid, facts, around).status == SessionStatus::Thinking,
        session_of(ds, pid, facts, around).current_tasks == seq!["thinking..."@],
{
}

/// A session with a process over five percent of CPU, or one below it over ten percent, is
/// thinking, whatever its messages say.
pub proof fn law_busy_session_is_thinking(
    ds: DbSessionModel,
    pid: u32,
    facts: SessionFacts,
    around: Surroundings,
    p: u32,
)
    requires
        around.shared.process_info@.contains_key(p),
        p == pid && around.shared.process_info@[p].cpu != CpuLoad::Low || (descends(
            around.shared.children_map@,
            pid,
            p,
        ) && around.shared.process_info@[p].cpu == CpuLoad::High),
    ensures
        session_of(ds, pid, facts, around).status == SessionStatus::Thinking,
        session_of(ds, pid, facts, around).current_tasks == seq!["thinking..."@],
{
    assert(busy(around.shared.process_info@, p) <==> around.shared.process_info@[p].cpu
        == CpuLoad::High);
}

/// A session whose last message is complete, and whose processes are idle, waits.
pub proof fn law_idle_session_waits(
    ds: DbSessionModel,
    pid: u32,
    facts: SessionFacts,
    around: Surroundings,
)
    requires
        ds.latest.last_role != "user"@,
        ds.latest.last_role == "assistant"@ ==> ds.latest.last_completed is Some,
        around.shared.process_info@.contains_key(pid) ==> around.shared.process_info@[pid].cpu
            == CpuLoad::Low,
        forall|p: u32|
            descends(around.shared.children_map@, pid, p)
                && around.shared.process_info@.contains_key(p)
                ==> (#[trigger] around.shared.process_info@[p]).cpu != CpuLoad::High,
    ensures
        session_of(ds, pid, facts, around).status == SessionStatus::Waiting,
        session_of(ds, pid, facts, around).current_tasks == seq!["waiting for input"@],
{
    assert forall|p: u32| descends(around.shared.children_map@, pid, p) implies !#[trigger] busy(
        around.shared.process_info@,
        p,
    ) by {
        if around.shared.process_info@.contains_key(p) {
            assert(around.shared.process_info@[p].cpu != CpuLoad::High);
        }
    }
}

/// The context of a session is measured by the configured limit where there is one, and
/// else by the usual one; the tokens in it are those of the last message.
pub proof fn law_context_is_measured_by_the_limit(
    ds: DbSessionModel,
    pid: u32,
    facts: SessionFacts,
    around: Surroundings,
    limit: u64,
)
    requires
        facts.config_window == Some(limit) || (facts.config_window is None && facts.default_window
            == limit),
    ensures
        session_of(ds, pid, facts, around).context_window == limit,
        limit > 0 ==> session_of(ds, pid, facts, around).context == (ContextFillModel::Tokens {
            used: ds.latest.last_total_tokens,
            window: limit,
        }),
        limit == 0 ==> session_of(ds, pid, facts, around).context == ContextFillModel::Empty,
{
}

/// What a session shows of its row, its process and the files beside it.
pub proof fn law_session_shows_its_row(
    ds: DbSessionModel,
    pid: u32,
    facts: SessionFacts,
    around: Surroundings,
)
    ensures
        ({
            let s = session_of(ds, pid, facts, around);
            &&& s.agent_cli == "opencode"@
            &&& s.pid == pid
            &&& s.session_id == ds.id
            &&& s.cwd == ds.directory
            &&& s.started_at == ds.time_created
            &&& s.total_input_tokens == ds.total_input
            &&& s.total_output_tokens == ds.total_output
            &&& s.total_cache_read == ds.total_cache_read
            &&& s.total_cache_create == ds.total_cache_write
            &&& s.turn_count == ds.turn_count
            &&& s.version == ds.version
            &&& s.initial_prompt == ds.title
            &&& s.git_branch == facts.git_branch@
            &&& s.config_root == around.config_root@
            &&& s.effort == EffortModel::Text(Seq::empty())
            &&& s.git_added == 0 && s.git_modified == 0 && s.compaction_count == 0
            &&& s.token_history.len() == 0 && s.context_history.len() == 0
            &&& s.file_accesses.len() == 0
            &&& s.pending_since_ms == 0 && s.thinking_since_ms == 0
            &&& s.mem_file_count == 0 && s.mem_line_count == 0
        }),
{
}

/// The project of a session has its own name, or else that of the session's directory, and
/// is never without one.
pub proof fn law_project_has_a_name(
    ds: DbSessionModel,
    pid: u32,
    facts: SessionFacts,
    around: Surroundings,
    parent: Seq<char>,
    name: Seq<char>,
)
    requires
        ds.directory == parent.push('/') + name,
        forall|i: int| 0 <= i < name.len() ==> name[i] != '/' && name[i] != '\\',
    ensures
        session_of(ds, pid, facts, around).project_name.len() > 0,
        ds.project_name.len() > 0 ==> session_of(ds, pid, facts, around).project_name
            == ds.project_name,
        ds.project_name.len() == 0 && name.len() > 0 ==> session_of(
            ds,
            pid,
            facts,
            around,
        ).project_name == name,
        ds.project_name.len() == 0 && name.len() == 0 ==> session_of(
            ds,
            pid,
            facts,
            around,
        ).project_name == "?"@,
{
    reveal_strlit("?");
    lemma_last_name_is(parent.push('/'), name, around.platform);
}

/// The model of a session stands behind its provider, where both are known; without a model
/// there is a dash.
pub proof fn law_model_stands_behind_its_provider(
    ds: DbSessionModel,
    pid: u32,
    facts: SessionFacts,
    around: Surroundings,
)
    ensures
        ({
            let shown = session_of(ds, pid, facts, around).model;
            let model = ds.latest.model;
            let provider = ds.latest.provider;
            &&& model.len() == 0 ==> shown == "-"@
            &&& model.len() > 0 && provider.len() == 0 ==> shown == model
            &&& model.len() > 0 && provider.len() > 0 ==> shown == provider + seq!['/'] + model
        }),
{
    assert(ds.latest.provider + seq!['/'] =~= ds.latest.provider.push('/'));
}

/// Each subagent of a session is shown: its name cut to thirty bytes, its tokens, and that
/// it works until half a minute after its last update.
pub proof fn law_subagents_are_shown(
    subs: Seq<DbSubAgentModel>,
    id: Seq<char>,
    now_ms: u64,
    k: int,
) -> (j: int)
    requires
        0 <= k < subs.len(),
        subs[k].parent_id == id,
    ensures
        0 <= j < subagents_of(subs, id, now_ms).len(),
        subagents_of(subs, id, now_ms)[j].name == fitting(subs[k].title, 30),
        subagents_of(subs, id, now_ms)[j].tokens == subs[k].tokens,
        subagents_of(subs, id, now_ms)[j].status == "working"@ <==> now_ms < subs[k].time_updated
            + 30_000,
        subagents_of(subs, id, now_ms)[j].status == "done"@ <==> now_ms >= subs[k].time_updated
            + 30_000,
    decreases subs.len(),
{
    reveal_strlit("working");
    reveal_strlit("done");
    assert("working"@.len() != "done"@.len());
    let front = subs.drop_last();
    let before = subagents_of(front, id, now_ms);
    if k == subs.len() - 1 {
        before.len() as int
    } else {
        let j = law_subagents_are_shown(front, id, now_ms, k);
        assert(subagents_of(subs, id, now_ms)[j] == before[j]);
        j
    }
}

/// Nothing but the subagents of a session is shown, in their order.
pub proof fn law_only_own_subagents_are_shown(
    subs: Seq<DbSubAgentModel>,
    next: DbSubAgentModel,
    id: Seq<char>,
    now_ms: u64,
)
    ensures
        subagents_of(Seq::empty(), id, now_ms).len() == 0,
        next.parent_id != id ==> subagents_of(subs.push(next), id, now_ms) == subagents_of(
            subs,
            id,
            now_ms,
        ),
        next.parent_id == id ==> subagents_of(subs.push(next), id, now_ms).drop_last()
            == subagents_of(subs, id, now_ms),
{
    assert(subs.push(next).drop_last() =~= subs);
    let before = subagents_of(subs, id, now_ms);
    assert(before.push(shown_subagent(next, now_ms)).drop_last() =~= before);
}

/// The session shows the subagents that were started for it.
pub proof fn law_session_shows_its_subagents(
    ds: DbSessionModel,
    pid: u32,
    facts: SessionFacts,
    around: Surroundings,
)
    ensures
        session_of(ds, pid, facts, around).subagents == subagents_of(
            around.subagents@.map_values(|s: DbSubAgent| s@),
            ds.id,
            around.now_ms,
        ),
{
}

/// The first text of the assistant is shown, whatever the user said before.
pub proof fn law_first_reply_is_shown(chat: Seq<ChatMessageModel>, k: int)
    requires
        0 <= k <= chat.len(),
        forall|i: int| 0 <= i < k ==> (#[trigger] chat[i]).role == ChatRole::User,
        k < chat.len() ==> chat[k].role == ChatRole::Assistant,
    ensures
        k < chat.len() ==> first_reply(chat) == chat[k].text,
        k == chat.len() ==> first_reply(chat).len() == 0,
    decreases chat.len(),
{
    if k > 0 {
        assert(chat[0].role == ChatRole::User);
        assert forall|i: int| 0 <= i < k - 1 implies (#[trigger] chat.drop_first()[i]).role
            == ChatRole::User by {
            assert(chat[i + 1].role == ChatRole::User);
        }
        law_first_reply_is_shown(chat.drop_first(), k - 1);
    }
}

/// A session shows the chat lines and tool calls that the cache holds for it, and none of
/// another session.
pub proof fn law_session_shows_its_parts(
    ds: DbSessionModel,
    pid: u32,
    facts: SessionFacts,
    around: Surroundings,
    k: int,
)
    requires
        0 <= k <= around.parts@.len(),
        forall|i: int| 0 <= i < k ==> (#[trigger] around.parts@[i]).id@ != ds.id,
        k < around.parts@.len() ==> around.parts@[k].id@ == ds.id,
    ensures
        ({
            let s = session_of(ds, pid, facts, around);
            &&& k < around.parts@.len() ==> s.chat_messages == around.parts@[k].chat@.map_values(
                |m: ChatMessage| m@,
            ) && s.tool_calls == around.parts@[k].tools@.map_values(|t: ToolCall| t@)
            &&& k == around.parts@.len() ==> s.chat_messages.len() == 0 && s.tool_calls.len() == 0
            &&& s.first_assistant_text == first_reply(s.chat_messages)
        }),
{
    lemma_parts_index(around.parts@, ds.id);
}

/// The memory of a session is that of its process and all below it, in MiB, and so at least
/// that of any of them.
pub proof fn law_memory_is_that_of_the_tree(
    ds: DbSessionModel,
    pid: u32,
    facts: SessionFacts,
    around: Surroundings,
    tree: Seq<u32>,
)
    requires
        around.shared.children_map@.dom().finite(),
        tree.no_duplicates(),
        forall|p: u32| #[trigger]
            tree.contains(p) <==> p == pid || descends(around.shared.children_map@, pid, p),
        memory_sum(around.shared.process_info@, tree) <= u64::MAX,
    ensures
        session_of(ds, pid, facts, around).mem_mb == memory_sum(around.shared.process_info@, tree)
            / 1024,
{
    law_tree_counts_each_process_once(around.shared.children_map@, pid);
    lemma_memory_of_same(
        around.shared.process_info@,
        tree,
        tree_of(around.shared.children_map@, pid),
    );
}

/// The children of a session are the processes below its own that are listed.
pub proof fn law_session_shows_its_children(
    ds: DbSessionModel,
    pid: u32,
    facts: SessionFacts,
    around: Surroundings,
    p: u32,
) -> (j: int)
    requires
        around.shared.children_map@.dom().finite(),
        around.shared.process_info@.contains_key(p),
        descends(around.shared.children_map@, pid, p),
    ensures
        0 <= j < session_of(ds, pid, facts, around).children.len(),
        session_of(ds, pid, facts, around).children[j].pid == p,
        session_of(ds, pid, facts, around).children[j].command
            == around.shared.process_info@[p].command@,
        session_of(ds, pid, facts, around).children[j].mem_kb
            == around.shared.process_info@[p].rss_kb,
        session_of(ds, pid, facts, around).children[j].port == first_port(around.shared.ports@, p),
{
    law_descendants(around.shared.children_map@, pid);
    let below = descendants_of(around.shared.children_map@, pid);
    assert(below.contains(p));
    law_listed_processes_are_shown(
        around.shared.process_info@,
        around.shared.ports@,
        below,
        below.index_of(p),
    )
}

} // verus!
