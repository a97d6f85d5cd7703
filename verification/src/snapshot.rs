//! A snapshot of the monitor for headless consumers.
//!
//! A snapshot owns what it shows and is built without changing the monitor. Of the
//! longer lists of a session it holds a tail; the audit of files and the full
//! transcripts are left out.
use crate::app::{App, McpServer, RateLimitInfo};
use crate::model::{
    chat_models, child_models, clone_children, AgentSession, ChatMessage, ChatMessageModel, ChatRole,
    ChildProcess, ChildProcessModel, ContextFill, ContextFillModel, Effort, EffortModel, Real,
    SessionModel, SessionStatus, SubAgent, SubAgentModel, ToolCall, ToolCallModel,
};
use crate::text::{text_of, texts};
use vstd::pervasive::cloned;
use vstd::prelude::*;

verus! {

/// How many token totals a session shows.
pub const TOKEN_HISTORY_TAIL: usize = 64;

/// How many subagents a session shows.
pub const SUBAGENT_TAIL: usize = 16;

/// How many tool calls a session shows.
pub const TOOL_CALL_TAIL: usize = 24;

/// A snapshot of the monitor.
#[derive(Debug)]
pub struct Snapshot<H, A, O> {
    /// Unix-epoch milliseconds when this snapshot was built.
    pub generated_at_ms: u64,
    /// The metrics of the host, if there are any.
    pub host: Option<H>,
    /// The aggregate over all sessions.
    pub aggregate: A,
    /// The latest token rate: the tokens of the last tick, without those read from a
    /// cache. Zero before there is one.
    pub token_rate: Real,
    /// The length of a tick in milliseconds.
    pub interval_ms: u64,
    /// The live sessions, the newest first.
    pub sessions: Vec<SessionView>,
    pub rate_limits: Vec<RateLimitInfo>,
    /// Ports that ended sessions left open.
    pub orphan_ports: Vec<O>,
    pub mcp_servers: Vec<McpServerView>,
}

/// One chat line.
#[derive(Debug)]
pub struct ChatMsgView {
    /// "user" or "assistant".
    pub role: &'static str,
    pub text: String,
}

/// One tool invocation.
#[derive(Debug)]
pub struct ToolCallView {
    pub name: String,
    /// Short argument preview.
    pub arg: String,
    /// Observed duration in milliseconds; zero when unknown.
    pub duration_ms: u64,
}

/// One spawned subagent.
#[derive(Debug)]
pub struct SubAgentView {
    pub name: String,
    pub status: String,
    pub tokens: u64,
}

/// One session.
#[derive(Debug)]
pub struct SessionView {
    pub agent_cli: &'static str,
    pub pid: u32,
    pub session_id: String,
    pub project_name: String,
    pub cwd: String,
    pub config_root: String,
    pub status: SessionStatus,
    pub model: String,
    pub effort: Effort,
    pub version: String,
    /// How full the context is.
    pub context: ContextFill,
    /// Size of the context window in tokens.
    pub context_window: u64,
    /// All token classes summed: input, output, cache read and cache write.
    pub total_tokens: u64,
    pub input_tokens: u64,
    pub output_tokens: u64,
    pub cache_read_tokens: u64,
    pub cache_create_tokens: u64,
    pub turn_count: u32,
    pub mem_mb: u64,
    pub git_branch: String,
    pub git_added: u32,
    pub git_modified: u32,
    /// Session start, Unix-epoch milliseconds.
    pub started_at_ms: u64,
    /// Seconds since then.
    pub elapsed_secs: u64,
    pub summary: String,
    /// The latest task, if any.
    pub current_task: Option<String>,
    pub children: Vec<ChildProcess>,
    pub compaction_count: u32,
    /// The tail of the token totals per turn.
    pub token_history: Vec<u64>,
    /// The tail of the subagents.
    pub subagents: Vec<SubAgentView>,
    /// The tail of the tool calls, the newest last.
    pub tool_calls: Vec<ToolCallView>,
    /// The tail of the chat.
    pub chat_messages: Vec<ChatMsgView>,
}

/// One MCP server.
#[derive(Debug)]
pub struct McpServerView {
    pub pid: u32,
    pub parent_cli: &'static str,
    pub profile: Option<String>,
    pub mem_kb: u64,
    /// Rollouts that were written to lately.
    pub active_count: usize,
    /// Rollouts that are open.
    pub rollout_count: usize,
    /// The latest modification of a rollout as Unix-epoch milliseconds, if known.
    pub last_activity_ms: Option<u64>,
}

pub ghost struct ChatMsgModel {
    pub role: Seq<char>,
    pub text: Seq<char>,
}

pub ghost struct SessionViewModel {
    pub agent_cli: Seq<char>,
    pub pid: u32,
    pub session_id: Seq<char>,
    pub project_name: Seq<char>,
    pub cwd: Seq<char>,
    pub config_root: Seq<char>,
    pub status: SessionStatus,
    pub model: Seq<char>,
    pub effort: EffortModel,
    pub version: Seq<char>,
    pub context: ContextFillModel,
    pub context_window: u64,
    pub total_tokens: nat,
    pub input_tokens: u64,
    pub output_tokens: u64,
    pub cache_read_tokens: u64,
    pub cache_create_tokens: u64,
    pub turn_count: u32,
    pub mem_mb: u64,
    pub git_branch: Seq<char>,
    pub git_added: u32,
    pub git_modified: u32,
    pub started_at_ms: u64,
    pub elapsed_secs: u64,
    pub summary: Seq<char>,
    pub current_task: Option<Seq<char>>,
    pub children: Seq<ChildProcessModel>,
    pub compaction_count: u32,
    pub token_history: Seq<u64>,
    pub subagents: Seq<SubAgentModel>,
    pub tool_calls: Seq<ToolCallModel>,
    pub chat_messages: Seq<ChatMsgModel>,
}

pub ghost struct McpServerModel {
    pub pid: u32,
    pub parent_cli: Seq<char>,
    pub profile: Option<Seq<char>>,
    pub mem_kb: u64,
    pub active_count: usize,
    pub rollout_count: usize,
    pub last_activity_ms: Option<u64>,
}

impl View for ChatMsgView {
    type V = ChatMsgModel;

    open spec fn view(&self) -> ChatMsgModel {
        ChatMsgModel { role: self.role@, text: self.text@ }
    }
}

impl View for ToolCallView {
    type V = ToolCallModel;

    open spec fn view(&self) -> ToolCallModel {
        ToolCallModel { name: self.name@, arg: self.arg@, duration_ms: self.duration_ms }
    }
}

impl View for SubAgentView {
    type V = SubAgentModel;

    open spec fn view(&self) -> SubAgentModel {
        SubAgentModel { name: self.name@, status: self.status@, tokens: self.tokens }
    }
}

impl View for SessionView {
    type V = SessionViewModel;

    open spec fn view(&self) -> SessionViewModel {
        SessionViewModel {
            agent_cli: self.agent_cli@,
            pid: self.pid,
            session_id: self.session_id@,
            project_name: self.project_name@,
            cwd: self.cwd@,
            config_root: self.config_root@,
            status: self.status,
            model: self.model@,
            effort: self.effort@,
            version: self.version@,
            context: self.context@,
            context_window: self.context_window,
            total_tokens: self.total_tokens as nat,
            input_tokens: self.input_tokens,
            output_tokens: self.output_tokens,
            cache_read_tokens: self.cache_read_tokens,
            cache_create_tokens: self.cache_create_tokens,
            turn_count: self.turn_count,
            mem_mb: self.mem_mb,
            git_branch: self.git_branch@,
            git_added: self.git_added,
            git_modified: self.git_modified,
            started_at_ms: self.started_at_ms,
            elapsed_secs: self.elapsed_secs,
            summary: self.summary@,
            current_task: text_of(self.current_task),
            children: child_models(self.children@),
            compaction_count: self.compaction_count,
            token_history: self.token_history@,
            subagents: self.subagents@.map_values(|a: SubAgentView| a@),
            tool_calls: self.tool_calls@.map_values(|t: ToolCallView| t@),
            chat_messages: self.chat_messages@.map_values(|m: ChatMsgView| m@),
        }
    }
}

impl View for McpServerView {
    type V = McpServerModel;

    open spec fn view(&self) -> McpServerModel {
        McpServerModel {
            pid: self.pid,
            parent_cli: self.parent_cli@,
            profile: text_of(self.profile),
            mem_kb: self.mem_kb,
            active_count: self.active_count,
            rollout_count: self.rollout_count,
            last_activity_ms: self.last_activity_ms,
        }
    }
}

/// The last `n` items of a list, or all of a shorter one.
pub open spec fn tail_of<T>(s: Seq<T>, n: nat) -> Seq<T> {
    if s.len() > n {
        s.skip(s.len() - n)
    } else {
        s
    }
}

fn tail_start(len: usize, n: usize) -> (r: usize)
    ensures
        r == if len > n {
            len - n
        } else {
            0
        },
{
    if len > n {
        len - n
    } else {
        0
    }
}

/// Clones of the last `n` items of a list, or of all of a shorter one.
pub fn tail<T: Clone>(v: &[T], n: usize) -> (r: Vec<T>)
    ensures
        r@.len() == tail_of(v@, n as nat).len(),
        forall|i: int| 0 <= i < r@.len() ==> cloned(tail_of(v@, n as nat)[i], #[trigger] r@[i]),
{
    let start: usize = tail_start(v.len(), n);
    let mut out: Vec<T> = Vec::new();
    let mut i: usize = start;
    while i < v.len()
        invariant
            start <= i <= v@.len(),
            out@.len() == i - start,
            forall|k: int| 0 <= k < out@.len() ==> cloned(v@[k + start], #[trigger] out@[k]),
        decreases v@.len() - i,
    {
        out.push(v[i].clone());
        i += 1;
    }
    assert forall|k: int| 0 <= k < out@.len() implies cloned(tail_of(v@, n as nat)[k], #[trigger] out@[k]) by {
        assert(tail_of(v@, n as nat)[k] == v@[k + start]);
    }
    out
}

/// A time in nanoseconds since the epoch as milliseconds, truncated to 64 bits; none
/// for a time before the epoch.
pub open spec fn millis_of(nanos: i128) -> Option<u64> {
    if nanos < 0 {
        None
    } else {
        Some(((nanos / 1_000_000) % 0x1_0000_0000_0000_0000) as u64)
    }
}

/// A time in nanoseconds since the epoch as milliseconds.
pub fn epoch_ms(nanos: i128) -> (r: Option<u64>)
    ensures
        r == millis_of(nanos),
{
    if nanos < 0 {
        None
    } else {
        Some(((nanos / 1_000_000) % 0x1_0000_0000_0000_0000) as u64)
    }
}

/// Later times have no earlier milliseconds, as long as these fit 64 bits.
pub proof fn law_epoch_ms_is_monotonic(a: i128, b: i128)
    requires
        0 <= a <= b < 0x1_0000_0000_0000_0000 * 1_000_000,
    ensures
        millis_of(a)->Some_0 <= millis_of(b)->Some_0,
{
    assert(a / 1_000_000 <= b / 1_000_000 < 0x1_0000_0000_0000_0000) by (nonlinear_arith)
        requires
            0 <= a <= b < 0x1_0000_0000_0000_0000 * 1_000_000,
    ;
}

/// The stable name of a speaker.
pub open spec fn role_name(role: ChatRole) -> Seq<char> {
    match role {
        ChatRole::User => "user"@,
        ChatRole::Assistant => "assistant"@,
    }
}

/// The chat line that a snapshot shows.
pub open spec fn chat_view(m: ChatMessageModel) -> ChatMsgModel {
    ChatMsgModel { role: role_name(m.role), text: m.text }
}

/// The seconds from a start to the present, both in milliseconds; zero for a start
/// that is yet to come.
pub open spec fn seconds_since(started_at: u64, now_ms: u64) -> u64 {
    if now_ms >= started_at {
        ((now_ms - started_at) / 1000) as u64
    } else {
        0
    }
}

/// The last of a list of texts, if there is one.
pub open spec fn last_text(list: Seq<Seq<char>>) -> Option<Seq<char>> {
    if list.len() > 0 {
        Some(list.last())
    } else {
        None
    }
}

/// The session that a snapshot shows. At most `max_chat` chat lines are shown.
pub open spec fn session_view(
    s: SessionModel,
    summary: Seq<char>,
    now_ms: u64,
    max_chat: nat,
) -> SessionViewModel {
    SessionViewModel {
        agent_cli: s.agent_cli,
        pid: s.pid,
        session_id: s.session_id,
        project_name: s.project_name,
        cwd: s.cwd,
        config_root: s.config_root,
        status: s.status,
        model: s.model,
        effort: s.effort,
        version: s.version,
        context: s.context,
        context_window: s.context_window,
        total_tokens: (s.total_input_tokens + s.total_output_tokens + s.total_cache_read
            + s.total_cache_create) as nat,
        input_tokens: s.total_input_tokens,
        output_tokens: s.total_output_tokens,
        cache_read_tokens: s.total_cache_read,
        cache_create_tokens: s.total_cache_create,
        turn_count: s.turn_count,
        mem_mb: s.mem_mb,
        git_branch: s.git_branch,
        git_added: s.git_added,
        git_modified: s.git_modified,
        started_at_ms: s.started_at,
        elapsed_secs: seconds_since(s.started_at, now_ms),
        summary,
        current_task: last_text(s.current_tasks),
        children: s.children,
        compaction_count: s.compaction_count,
        token_history: tail_of(s.token_history, TOKEN_HISTORY_TAIL as nat),
        subagents: tail_of(s.subagents, SUBAGENT_TAIL as nat),
        tool_calls: tail_of(s.tool_calls, TOOL_CALL_TAIL as nat),
        chat_messages: tail_of(s.chat_messages, max_chat).map_values(
            |m: ChatMessageModel| chat_view(m),
        ),
    }
}

/// The MCP server that a snapshot shows.
pub open spec fn mcp_view(m: McpServer) -> McpServerModel {
    McpServerModel {
        pid: m.pid,
        parent_cli: m.parent_cli@,
        profile: text_of(m.profile),
        mem_kb: m.mem_kb,
        active_count: m.active_count,
        rollout_count: m.rollout_count,
        last_activity_ms: match m.latest_mtime {
            Some(t) => millis_of(t),
            None => None,
        },
    }
}

fn subagent_views(v: &Vec<SubAgent>, n: usize) -> (r: Vec<SubAgentView>)
    ensures
        r@.map_values(|a: SubAgentView| a@) == tail_of(v@.map_values(|a: SubAgent| a@), n as nat),
{
    let start: usize = tail_start(v.len(), n);
    let mut out: Vec<SubAgentView> = Vec::new();
    let mut i: usize = start;
    while i < v.len()
        invariant
            start <= i <= v@.len(),
            out@.len() == i - start,
            forall|k: int| 0 <= k < out@.len() ==> (#[trigger] out@[k])@ == v@[k + start]@,
        decreases v@.len() - i,
    {
        out.push(
            SubAgentView {
                name: v[i].name.clone(),
                status: v[i].status.clone(),
                tokens: v[i].tokens,
            },
        );
        i += 1;
    }
    assert(out@.map_values(|a: SubAgentView| a@) =~= tail_of(v@.map_values(|a: SubAgent| a@), n as nat));
    out
}

fn tool_views(v: &Vec<ToolCall>, n: usize) -> (r: Vec<ToolCallView>)
    ensures
        r@.map_values(|t: ToolCallView| t@) == tail_of(v@.map_values(|t: ToolCall| t@), n as nat),
{
    let start: usize = tail_start(v.len(), n);
    let mut out: Vec<ToolCallView> = Vec::new();
    let mut i: usize = start;
    while i < v.len()
        invariant
            start <= i <= v@.len(),
            out@.len() == i - start,
            forall|k: int| 0 <= k < out@.len() ==> (#[trigger] out@[k])@ == v@[k + start]@,
        decreases v@.len() - i,
    {
        out.push(
            ToolCallView {
                name: v[i].name.clone(),
                arg: v[i].arg.clone(),
                duration_ms: v[i].duration_ms,
            },
        );
        i += 1;
    }
    assert(out@.map_values(|t: ToolCallView| t@) =~= tail_of(v@.map_values(|t: ToolCall| t@), n as nat));
    out
}

fn role_text(role: ChatRole) -> (r: &'static str)
    ensures
        r@ == role_name(role),
{
    match role {
        ChatRole::User => "user",
        ChatRole::Assistant => "assistant",
    }
}

fn chat_views(v: &Vec<ChatMessage>, n: usize) -> (r: Vec<ChatMsgView>)
    ensures
        r@.map_values(|m: ChatMsgView| m@) == tail_of(chat_models(v@), n as nat).map_values(
            |m: ChatMessageModel| chat_view(m),
        ),
{
    let start: usize = tail_start(v.len(), n);
    let mut out: Vec<ChatMsgView> = Vec::new();
    let mut i: usize = start;
    while i < v.len()
        invariant
            start <= i <= v@.len(),
            out@.len() == i - start,
            forall|k: int| 0 <= k < out@.len() ==> (#[trigger] out@[k])@ == chat_view(v@[k + start]@),
        decreases v@.len() - i,
    {
        out.push(ChatMsgView { role: role_text(v[i].role), text: v[i].text.clone() });
        i += 1;
    }
    assert(out@.map_values(|m: ChatMsgView| m@) =~= tail_of(chat_models(v@), n as nat).map_values(
        |m: ChatMessageModel| chat_view(m),
    ));
    out
}

fn totals_tail(v: &Vec<u64>, n: usize) -> (r: Vec<u64>)
    ensures
        r@ == tail_of(v@, n as nat),
{
    let out = tail(v.as_slice(), n);
    assert(out@ =~= tail_of(v@, n as nat));
    out
}

fn last_task(list: &Vec<String>) -> (r: Option<String>)
    ensures
        text_of(r) == last_text(texts(list@)),
{
    if list.len() > 0 {
        Some(list[list.len() - 1].clone())
    } else {
        None
    }
}

/// The session that a snapshot shows.
pub fn view_session(s: &AgentSession, summary: &str, now_ms: u64, max_chat: usize) -> (r: SessionView)
    requires
        s.totals_fit(),
    ensures
        r@ == session_view(s@, summary@, now_ms, max_chat as nat),
{
    SessionView {
        agent_cli: s.agent_cli,
        pid: s.pid,
        session_id: s.session_id.clone(),
        project_name: s.project_name.clone(),
        cwd: s.cwd.clone(),
        config_root: s.config_root.clone(),
        status: s.status,
        model: s.model.clone(),
        effort: s.effort.copied(),
        version: s.version.clone(),
        context: s.context.copied(),
        context_window: s.context_window,
        total_tokens: s.total_tokens(),
        input_tokens: s.total_input_tokens,
        output_tokens: s.total_output_tokens,
        cache_read_tokens: s.total_cache_read,
        cache_create_tokens: s.total_cache_create,
        turn_count: s.turn_count,
        mem_mb: s.mem_mb,
        git_branch: s.git_branch.clone(),
        git_added: s.git_added,
        git_modified: s.git_modified,
        started_at_ms: s.started_at,
        elapsed_secs: now_ms.saturating_sub(s.started_at) / 1000,
        summary: summary.to_owned(),
        current_task: last_task(&s.current_tasks),
        children: clone_children(&s.children),
        compaction_count: s.compaction_count,
        token_history: totals_tail(&s.token_history, TOKEN_HISTORY_TAIL),
        subagents: subagent_views(&s.subagents, SUBAGENT_TAIL),
        tool_calls: tool_views(&s.tool_calls, TOOL_CALL_TAIL),
        chat_messages: chat_views(&s.chat_messages, max_chat),
    }
}

/// The MCP server that a snapshot shows.
pub fn view_mcp(m: &McpServer) -> (r: McpServerView)
    ensures
        r@ == mcp_view(*m),
{
    McpServerView {
        pid: m.pid,
        parent_cli: m.parent_cli,
        profile: match &m.profile {
            Some(p) => Some(p.clone()),
            None => None,
        },
        mem_kb: m.mem_kb,
        active_count: m.active_count,
        rollout_count: m.rollout_count,
        last_activity_ms: match m.latest_mtime {
            Some(t) => epoch_ms(t),
            None => None,
        },
    }
}

/// Zero milliseconds where a time has none.
pub open spec fn millis_or_zero(nanos: i128) -> u64 {
    match millis_of(nanos) {
        Some(ms) => ms,
        None => 0,
    }
}

/// The latest of the rates; zero where there is none.
pub open spec fn latest_rate(rates: Seq<Real>) -> Real {
    if rates.len() > 0 {
        rates.last()
    } else {
        Real { bits: 0 }
    }
}

fn copy_limit(l: &RateLimitInfo) -> (r: RateLimitInfo)
    ensures
        r == *l,
{
    RateLimitInfo {
        source: l.source.clone(),
        five_hour_pct: l.five_hour_pct,
        five_hour_resets_at: l.five_hour_resets_at,
        seven_day_pct: l.seven_day_pct,
        seven_day_resets_at: l.seven_day_resets_at,
        updated_at: l.updated_at,
    }
}

fn copy_limits(v: &Vec<RateLimitInfo>) -> (r: Vec<RateLimitInfo>)
    ensures
        r@ == v@,
{
    let mut out: Vec<RateLimitInfo> = Vec::new();
    let mut i: usize = 0;
    while i < v.len()
        invariant
            i <= v@.len(),
            out@ == v@.take(i as int),
        decreases v@.len() - i,
    {
        out.push(copy_limit(&v[i]));
        i += 1;
        assert(out@ =~= v@.take(i as int));
    }
    assert(v@.take(i as int) =~= v@);
    out
}

/// Whether `views` shows each of the sessions with its summary.
pub open spec fn shows_sessions(
    views: Seq<SessionView>,
    sessions: Seq<AgentSession>,
    summaries: Seq<String>,
    now_ms: u64,
    max_chat: nat,
) -> bool {
    &&& views.len() == sessions.len()
    &&& forall|i: int|
        0 <= i < views.len() ==> (#[trigger] views[i])@ == session_view(
            sessions[i]@,
            summaries[i]@,
            now_ms,
            max_chat,
        )
}

/// Whether `r` is a snapshot of the monitor at the time `now`. `summaries` gives the
/// summary of each session, and of a chat at most `max_chat` lines are shown.
pub open spec fn is_snapshot<H: Copy, A: Copy, O: Clone>(
    r: Snapshot<H, A, O>,
    app: App<H, A, O>,
    interval_ms: u64,
    now: i128,
    summaries: Seq<String>,
    max_chat: nat,
) -> bool {
    &&& r.generated_at_ms == millis_or_zero(now)
    &&& r.host == app.host_metrics
    &&& r.aggregate == app.agent_aggregate
    &&& r.token_rate == latest_rate(app.token_rates@)
    &&& r.interval_ms == interval_ms
    &&& shows_sessions(r.sessions@, app.sessions@, summaries, millis_or_zero(now), max_chat)
    &&& r.rate_limits@ == app.rate_limits@
    &&& are_clones(r.orphan_ports@, app.orphan_ports@)
    &&& mcp_models(r.mcp_servers@) == app.mcp_servers@.map_values(|m: McpServer| mcp_view(m))
}

/// Whether the items of `r` are clones of those of `v`, one for one.
pub open spec fn are_clones<T: Clone>(r: Seq<T>, v: Seq<T>) -> bool {
    &&& r.len() == v.len()
    &&& forall|i: int| 0 <= i < r.len() ==> cloned(v[i], #[trigger] r[i])
}

/// The views of a list of MCP servers.
pub open spec fn mcp_models(v: Seq<McpServerView>) -> Seq<McpServerModel> {
    v.map_values(|m: McpServerView| m@)
}

/// What a snapshot shows of sessions, but for what depends on the clock: the seconds since
/// they started.
pub open spec fn untimed(v: Seq<SessionView>) -> Seq<SessionViewModel> {
    v.map_values(|s: SessionView| SessionViewModel { elapsed_secs: 0, ..s@ })
}

impl<H: Copy, A: Copy, O: Clone> App<H, A, O> {
    /// Whether the tokens of each session add up within 64 bits.
    pub open spec fn all_totals_fit(self) -> bool {
        forall|i: int| 0 <= i < self.sessions@.len() ==> (#[trigger] self.sessions@[i]).totals_fit()
    }

    /// Whether the tokens of each session add up within 64 bits.
    pub fn can_be_shown(&self) -> (r: bool)
        ensures
            r == self.all_totals_fit(),
    {
        let mut i: usize = 0;
        while i < self.sessions.len()
            invariant
                i <= self.sessions@.len(),
                forall|k: int| 0 <= k < i ==> (#[trigger] self.sessions@[k]).totals_fit(),
            decreases self.sessions@.len() - i,
        {
            if !self.sessions[i].totals_fit_u64() {
                return false;
            }
            i += 1;
        }
        true
    }

    /// A snapshot of the monitor at the time `now`, in nanoseconds since the epoch.
    /// `summaries` gives the summary of each session, and of a chat at most `max_chat`
    /// lines are shown.
    pub fn to_snapshot(&self, interval_ms: u64, now: i128, summaries: &Vec<String>, max_chat: usize) -> (r:
        Snapshot<H, A, O>)
        requires
            summaries@.len() == self.sessions@.len(),
            self.all_totals_fit(),
        ensures
            is_snapshot(r, *self, interval_ms, now, summaries@, max_chat as nat),
            r.interval_ms == interval_ms,
            r.sessions@.len() == self.sessions@.len(),
            forall|i: int|
                0 <= i < r.sessions@.len() ==> {
                    let v = #[trigger] r.sessions@[i];
                    let s = self.sessions@[i];
                    &&& v.pid == s.pid
                    &&& v.session_id@ == s.session_id@
                    &&& v.status == s.status
                    &&& v.input_tokens == s.total_input_tokens
                    &&& v.output_tokens == s.total_output_tokens
                    &&& v.cache_read_tokens == s.total_cache_read
                    &&& v.cache_create_tokens == s.total_cache_create
                    &&& v.total_tokens == s.total_input_tokens + s.total_output_tokens
                        + s.total_cache_read + s.total_cache_create
                },
    {
        let generated_at_ms = match epoch_ms(now) {
            Some(ms) => ms,
            None => 0,
        };
        let mut sessions: Vec<SessionView> = Vec::new();
        let mut i: usize = 0;
        while i < self.sessions.len()
            invariant
                i <= self.sessions@.len(),
                summaries@.len() == self.sessions@.len(),
                self.all_totals_fit(),
                sessions@.len() == i,
                forall|k: int|
                    0 <= k < i ==> (#[trigger] sessions@[k])@ == session_view(
                        self.sessions@[k]@,
                        summaries@[k]@,
                        generated_at_ms,
                        max_chat as nat,
                    ),
            decreases self.sessions@.len() - i,
        {
            sessions.push(
                view_session(&self.sessions[i], summaries[i].as_str(), generated_at_ms, max_chat),
            );
            i += 1;
        }
        let mut mcp_servers: Vec<McpServerView> = Vec::new();
        let mut k: usize = 0;
        while k < self.mcp_servers.len()
            invariant
                k <= self.mcp_servers@.len(),
                mcp_servers@.len() == k,
                forall|j: int|
                    0 <= j < k ==> (#[trigger] mcp_servers@[j])@ == mcp_view(self.mcp_servers@[j]),
            decreases self.mcp_servers@.len() - k,
        {
            mcp_servers.push(view_mcp(&self.mcp_servers[k]));
            k += 1;
        }
        assert(mcp_models(mcp_servers@) =~= self.mcp_servers@.map_values(
            |m: McpServer| mcp_view(m),
        ));
        let token_rate = if self.token_rates.len() > 0 {
            self.token_rates[self.token_rates.len() - 1]
        } else {
            Real { bits: 0 }
        };
        let orphan_ports = tail(self.orphan_ports.as_slice(), self.orphan_ports.len());
        Snapshot {
            generated_at_ms,
            host: self.host_metrics,
            aggregate: self.agent_aggregate,
            token_rate,
            interval_ms,
            sessions,
            rate_limits: copy_limits(&self.rate_limits),
            orphan_ports,
            mcp_servers,
        }
    }
}

/// To take a snapshot is to read: two snapshots of one monitor, whenever they are taken,
/// agree on everything but the time and the seconds since the sessions started. They show
/// all sessions, and the ports that ended sessions left open are clones of the same ports.
pub proof fn law_snapshots_agree<H: Copy, A: Copy, O: Clone>(
    app: App<H, A, O>,
    interval_ms: u64,
    summaries: Seq<String>,
    max_chat: nat,
    earlier: i128,
    later: i128,
    a: Snapshot<H, A, O>,
    b: Snapshot<H, A, O>,
)
    requires
        is_snapshot(a, app, interval_ms, earlier, summaries, max_chat),
        is_snapshot(b, app, interval_ms, later, summaries, max_chat),
    ensures
        a.host == b.host,
        a.aggregate == b.aggregate,
        a.token_rate == b.token_rate,
        a.interval_ms == b.interval_ms,
        a.sessions@.len() == app.sessions@.len(),
        b.sessions@.len() == app.sessions@.len(),
        untimed(a.sessions@) == untimed(b.sessions@),
        a.rate_limits@ == b.rate_limits@,
        are_clones(a.orphan_ports@, app.orphan_ports@),
        are_clones(b.orphan_ports@, app.orphan_ports@),
        mcp_models(a.mcp_servers@) == mcp_models(b.mcp_servers@),
{
    assert forall|i: int| 0 <= i < a.sessions@.len() implies #[trigger] untimed(a.sessions@)[i]
        == untimed(b.sessions@)[i] by {
        assert(a.sessions@[i]@ == session_view(
            app.sessions@[i]@,
            summaries[i]@,
            millis_or_zero(earlier),
            max_chat,
        ));
        assert(b.sessions@[i]@ == session_view(
            app.sessions@[i]@,
            summaries[i]@,
            millis_or_zero(later),
            max_chat,
        ));
    }
    assert(untimed(a.sessions@) =~= untimed(b.sessions@));
}

/// The lists that a snapshot shows of a session are bounded, whatever the session holds,
/// and speakers have one of two names.
pub proof fn law_views_are_bounded(s: SessionModel, summary: Seq<char>, now_ms: u64, max_chat: nat)
    ensures
        ({
            let v = session_view(s, summary, now_ms, max_chat);
            &&& v.token_history.len() <= 64
            &&& v.subagents.len() <= 16
            &&& v.tool_calls.len() <= 24
            &&& v.chat_messages.len() <= max_chat
            &&& forall|i: int|
                0 <= i < v.chat_messages.len() ==> (#[trigger] v.chat_messages[i]).role == "user"@
                    || v.chat_messages[i].role == "assistant"@
        }),
{
}

/// What a snapshot shows of a session, field by field: its tokens by class and in all, its
/// place, its process and its state.
pub proof fn law_view_shows_the_session(s: AgentSession, summary: Seq<char>, now_ms: u64, max_chat: nat)
    ensures
        ({
            let v = session_view(s@, summary, now_ms, max_chat);
            &&& v.agent_cli == s.agent_cli@
            &&& v.pid == s.pid
            &&& v.session_id == s.session_id@
            &&& v.project_name == s.project_name@
            &&& v.cwd == s.cwd@
            &&& v.config_root == s.config_root@
            &&& v.status == s.status
            &&& v.model == s.model@
            &&& v.effort == s.effort@
            &&& v.version == s.version@
            &&& v.context == s.context@
            &&& v.context_window == s.context_window
            &&& v.input_tokens == s.total_input_tokens
            &&& v.output_tokens == s.total_output_tokens
            &&& v.cache_read_tokens == s.total_cache_read
            &&& v.cache_create_tokens == s.total_cache_create
            &&& v.total_tokens == s.total_input_tokens + s.total_output_tokens + s.total_cache_read
                + s.total_cache_create
            &&& v.turn_count == s.turn_count
            &&& v.mem_mb == s.mem_mb
            &&& v.git_branch == s.git_branch@
            &&& v.git_added == s.git_added
            &&& v.git_modified == s.git_modified
            &&& v.started_at_ms == s.started_at
            &&& v.summary == summary
            &&& v.compaction_count == s.compaction_count
            &&& v.children.len() == s.children@.len()
            &&& forall|i: int|
                0 <= i < v.children.len() ==> {
                    &&& (#[trigger] v.children[i]).pid == s.children@[i].pid
                    &&& v.children[i].command == s.children@[i].command@
                    &&& v.children[i].mem_kb == s.children@[i].mem_kb
                    &&& v.children[i].port == s.children@[i].port
                }
        }),
{
}

/// The seconds since a session started are whole ones, and none for a start to come.
pub proof fn law_elapsed_seconds_are_whole(s: SessionModel, summary: Seq<char>, now_ms: u64, max_chat: nat)
    ensures
        ({
            let secs = session_view(s, summary, now_ms, max_chat).elapsed_secs;
            &&& now_ms >= s.started_at ==> secs * 1000 <= now_ms - s.started_at < secs * 1000
                + 1000
            &&& now_ms < s.started_at ==> secs == 0
        }),
{
}

/// The task that is shown is the last one.
pub proof fn law_latest_task_is_shown(s: SessionModel, summary: Seq<char>, now_ms: u64, max_chat: nat)
    ensures
        s.current_tasks.len() == 0 ==> session_view(s, summary, now_ms, max_chat).current_task
            is None,
        s.current_tasks.len() > 0 ==> session_view(s, summary, now_ms, max_chat).current_task
            == Some(s.current_tasks[s.current_tasks.len() - 1]),
{
}

/// The end of a list is shown in its order: the last item is the list's last, and each item
/// before it is the one before.
pub proof fn law_tail_is_the_end<T>(s: Seq<T>, n: nat, i: int)
    requires
        0 <= i < tail_of(s, n).len(),
    ensures
        tail_of(s, n).len() == if s.len() < n {
            s.len()
        } else {
            n
        },
        tail_of(s, n)[tail_of(s, n).len() - 1 - i] == s[s.len() - 1 - i],
{
}

/// The lists that a snapshot shows of a session are the ends of the session's lists.
pub proof fn law_view_shows_the_ends(s: SessionModel, summary: Seq<char>, now_ms: u64, max_chat: nat)
    ensures
        ({
            let v = session_view(s, summary, now_ms, max_chat);
            &&& v.token_history == tail_of(s.token_history, 64)
            &&& v.subagents == tail_of(s.subagents, 16)
            &&& v.tool_calls == tail_of(s.tool_calls, 24)
            &&& v.chat_messages.len() == tail_of(s.chat_messages, max_chat).len()
            &&& forall|i: int|
                0 <= i < v.chat_messages.len() ==> {
                    let m = tail_of(s.chat_messages, max_chat)[i];
                    &&& (#[trigger] v.chat_messages[i]).text == m.text
                    &&& m.role == ChatRole::User ==> v.chat_messages[i].role == "user"@
                    &&& m.role == ChatRole::Assistant ==> v.chat_messages[i].role == "assistant"@
                }
        }),
{
}

/// What a snapshot shows of an MCP server.
pub proof fn law_view_shows_the_mcp_server(m: McpServer)
    ensures
        ({
            let v = mcp_view(m);
            &&& v.pid == m.pid
            &&& v.parent_cli == m.parent_cli@
            &&& m.profile is None ==> v.profile is None
            &&& m.profile matches Some(p) ==> v.profile == Some(p@)
            &&& v.mem_kb == m.mem_kb
            &&& v.active_count == m.active_count
            &&& v.rollout_count == m.rollout_count
            &&& m.latest_mtime is None ==> v.last_activity_ms is None
            &&& m.latest_mtime matches Some(t) ==> (0 <= t < 0x1_0000_0000_0000_0000 * 1_000_000
                ==> (v.last_activity_ms matches Some(ms) && ms * 1_000_000 <= t < ms * 1_000_000
                + 1_000_000))
        }),
{
    if let Some(t) = m.latest_mtime {
        if 0 <= t < 0x1_0000_0000_0000_0000 * 1_000_000 {
            law_milliseconds_are_whole(t);
        }
    }
}

/// A time after the epoch has its whole milliseconds, and one before it has none.
pub proof fn law_milliseconds_are_whole(nanos: i128)
    requires
        nanos < 0x1_0000_0000_0000_0000 * 1_000_000,
    ensures
        nanos < 0 ==> millis_of(nanos) is None,
        nanos >= 0 ==> (millis_of(nanos) matches Some(ms) && ms * 1_000_000 <= nanos < ms * 1_000_000
            + 1_000_000),
        nanos >= 0 ==> millis_or_zero(nanos) * 1_000_000 <= nanos < millis_or_zero(nanos) * 1_000_000
            + 1_000_000,
        nanos < 0 ==> millis_or_zero(nanos) == 0,
{
    if nanos >= 0 {
        assert(0 <= nanos / 1_000_000 < 0x1_0000_0000_0000_0000) by (nonlinear_arith)
            requires
                0 <= nanos < 0x1_0000_0000_0000_0000 * 1_000_000,
        ;
    }
}

/// A snapshot carries the time that it was taken, the interval, the latest rate, and what
/// the monitor holds besides the sessions.
pub proof fn law_snapshot_shows_the_monitor<H: Copy, A: Copy, O: Clone>(
    r: Snapshot<H, A, O>,
    app: App<H, A, O>,
    interval_ms: u64,
    now: i128,
    summaries: Seq<String>,
    max_chat: nat,
)
    requires
        is_snapshot(r, app, interval_ms, now, summaries, max_chat),
        0 <= now < 0x1_0000_0000_0000_0000 * 1_000_000,
    ensures
        r.generated_at_ms * 1_000_000 <= now < r.generated_at_ms * 1_000_000 + 1_000_000,
        r.interval_ms == interval_ms,
        r.host == app.host_metrics,
        r.aggregate == app.agent_aggregate,
        app.token_rates@.len() > 0 ==> r.token_rate == app.token_rates@[app.token_rates@.len() - 1],
        app.token_rates@.len() == 0 ==> r.token_rate.bits == 0,
        r.rate_limits@ == app.rate_limits@,
        r.orphan_ports@.len() == app.orphan_ports@.len(),
        r.mcp_servers@.len() == app.mcp_servers@.len(),
        forall|i: int|
            0 <= i < r.mcp_servers@.len() ==> (#[trigger] r.mcp_servers@[i])@ == mcp_view(
                app.mcp_servers@[i],
            ),
        r.sessions@.len() == app.sessions@.len(),
        forall|i: int|
            0 <= i < r.sessions@.len() ==> (#[trigger] r.sessions@[i])@ == session_view(
                app.sessions@[i]@,
                summaries[i]@,
                r.generated_at_ms,
                max_chat,
            ),
{
    law_milliseconds_are_whole(now);
    assert(mcp_models(r.mcp_servers@).len() == app.mcp_servers@.len());
    assert forall|i: int| 0 <= i < r.mcp_servers@.len() implies (#[trigger] r.mcp_servers@[i])@
        == mcp_view(app.mcp_servers@[i]) by {
        assert(mcp_models(r.mcp_servers@)[i] == r.mcp_servers@[i]@);
    }
}

/// What a snapshot holds is shown field by field.
pub proof fn law_views_show_their_fields(m: ChatMsgView, t: ToolCallView, a: SubAgentView, p: McpServerView, s: SessionView)
    ensures
        m@.role == m.role@,
        m@.text == m.text@,
        t@.name == t.name@,
        t@.arg == t.arg@,
        t@.duration_ms == t.duration_ms,
        a@.name == a.name@,
        a@.status == a.status@,
        a@.tokens == a.tokens,
        p@.parent_cli == p.parent_cli@,
        p@.profile == text_of(p.profile),
        p@.pid == p.pid,
        p@.mem_kb == p.mem_kb,
        p@.active_count == p.active_count,
        p@.rollout_count == p.rollout_count,
        p@.last_activity_ms == p.last_activity_ms,
        s@.agent_cli == s.agent_cli@,
        s@.session_id == s.session_id@,
        s@.project_name == s.project_name@,
        s@.cwd == s.cwd@,
        s@.config_root == s.config_root@,
        s@.model == s.model@,
        s@.effort == s.effort@,
        s@.version == s.version@,
        s@.context == s.context@,
        s@.git_branch == s.git_branch@,
        s@.summary == s.summary@,
        s@.current_task == text_of(s.current_task),
        s@.children == s.children@.map_values(|c: ChildProcess| c@),
        s@.token_history == s.token_history@,
        s@.subagents == s.subagents@.map_values(|a: SubAgentView| a@),
        s@.tool_calls == s.tool_calls@.map_values(|t: ToolCallView| t@),
        s@.chat_messages == s.chat_messages@.map_values(|m: ChatMsgView| m@),
        s@.pid == s.pid,
        s@.status == s.status,
        s@.context_window == s.context_window,
        s@.total_tokens == s.total_tokens,
        s@.input_tokens == s.input_tokens,
        s@.output_tokens == s.output_tokens,
        s@.cache_read_tokens == s.cache_read_tokens,
        s@.cache_create_tokens == s.cache_create_tokens,
        s@.turn_count == s.turn_count,
        s@.mem_mb == s.mem_mb,
        s@.git_added == s.git_added,
        s@.git_modified == s.git_modified,
        s@.started_at_ms == s.started_at_ms,
        s@.elapsed_secs == s.elapsed_secs,
        s@.compaction_count == s.compaction_count,
{
}

/// The sessions can be shown where the tokens of each add up within 64 bits, and lists are
/// clones where each item is one of the item in its place.
pub proof fn law_showable_monitor<H: Copy, A: Copy, O: Clone>(app: App<H, A, O>, r: Seq<O>, v: Seq<O>)
    ensures
        app.all_totals_fit() <==> forall|i: int|
            0 <= i < app.sessions@.len() ==> (#[trigger] app.sessions@[i]).total_input_tokens
                + app.sessions@[i].total_output_tokens + app.sessions@[i].total_cache_read
                + app.sessions@[i].total_cache_create <= 0xffff_ffff_ffff_ffff,
        are_clones(r, v) <==> r.len() == v.len() && forall|i: int|
            0 <= i < v.len() ==> cloned(v[i], #[trigger] r[i]),
{
    if app.all_totals_fit() {
        assert forall|i: int| 0 <= i < app.sessions@.len() implies (
        #[trigger] app.sessions@[i]).total_input_tokens + app.sessions@[i].total_output_tokens
            + app.sessions@[i].total_cache_read + app.sessions@[i].total_cache_create
            <= 0xffff_ffff_ffff_ffff by {
            assert(app.sessions@[i].totals_fit());
        }
    }
}

} // verus!
