//! What the collectors report.
//!
//! Each record has a view: the same record with its strings as character
//! sequences and its lists as sequences. Contracts speak of the views.
use crate::text::texts;
use vstd::prelude::*;

verus! {

/// The family of operating systems that the monitor runs on.
#[derive(Debug, Clone, Copy, PartialEq, Eq, Structural)]
pub enum Platform {
    MacOs,
    Windows,
    Other,
}

/// A double-precision number, held by its bits. It is passed on, and computed with
/// only where it is shown.
#[derive(Debug, Clone, Copy)]
pub struct Real {
    pub bits: u64,
}

/// Coarse activity state of a session.
#[derive(Debug, Clone, Copy, PartialEq, Eq, Structural)]
pub enum SessionStatus {
    Thinking,
    Executing,
    Waiting,
    Unknown,
    RateLimited,
    Done,
}

impl SessionStatus {
    /// The stable name of the status in the JSON interface.
    pub open spec fn wire(self) -> Seq<char> {
        match self {
            SessionStatus::Thinking => "Thinking"@,
            SessionStatus::Executing => "Executing"@,
            SessionStatus::Waiting => "Waiting"@,
            SessionStatus::Unknown => "Unknown"@,
            SessionStatus::RateLimited => "RateLimited"@,
            SessionStatus::Done => "Done"@,
        }
    }

    /// The stable name of the status in the JSON interface: its variant name.
    pub fn wire_name(self) -> (r: &'static str)
        ensures
            r@ == self.wire(),
    {
        match self {
            SessionStatus::Thinking => "Thinking",
            SessionStatus::Executing => "Executing",
            SessionStatus::Waiting => "Waiting",
            SessionStatus::Unknown => "Unknown",
            SessionStatus::RateLimited => "RateLimited",
            SessionStatus::Done => "Done",
        }
    }
}

/// Who speaks in a chat transcript.
#[derive(Debug, Clone, Copy, PartialEq, Eq, Structural)]
pub enum ChatRole {
    User,
    Assistant,
}

/// One line of a chat transcript.
#[derive(Debug)]
pub struct ChatMessage {
    pub role: ChatRole,
    pub text: String,
}

pub ghost struct ChatMessageModel {
    pub role: ChatRole,
    pub text: Seq<char>,
}

impl View for ChatMessage {
    type V = ChatMessageModel;

    open spec fn view(&self) -> ChatMessageModel {
        ChatMessageModel { role: self.role, text: self.text@ }
    }
}

/// One tool invocation.
#[derive(Debug)]
pub struct ToolCall {
    pub name: String,
    /// Short argument preview.
    pub arg: String,
    /// Observed duration; zero when unknown.
    pub duration_ms: u64,
}

pub ghost struct ToolCallModel {
    pub name: Seq<char>,
    pub arg: Seq<char>,
    pub duration_ms: u64,
}

impl View for ToolCall {
    type V = ToolCallModel;

    open spec fn view(&self) -> ToolCallModel {
        ToolCallModel { name: self.name@, arg: self.arg@, duration_ms: self.duration_ms }
    }
}

/// One spawned subagent.
#[derive(Debug)]
pub struct SubAgent {
    pub name: String,
    pub status: String,
    pub tokens: u64,
}

pub ghost struct SubAgentModel {
    pub name: Seq<char>,
    pub status: Seq<char>,
    pub tokens: u64,
}

impl View for SubAgent {
    type V = SubAgentModel;

    open spec fn view(&self) -> SubAgentModel {
        SubAgentModel { name: self.name@, status: self.status@, tokens: self.tokens }
    }
}

/// A process that descends from a session's process.
#[derive(Debug)]
pub struct ChildProcess {
    pub pid: u32,
    pub command: String,
    pub mem_kb: u64,
    /// The first port that the process listens on, if any.
    pub port: Option<u16>,
}

pub ghost struct ChildProcessModel {
    pub pid: u32,
    pub command: Seq<char>,
    pub mem_kb: u64,
    pub port: Option<u16>,
}

impl View for ChildProcess {
    type V = ChildProcessModel;

    open spec fn view(&self) -> ChildProcessModel {
        ChildProcessModel {
            pid: self.pid,
            command: self.command@,
            mem_kb: self.mem_kb,
            port: self.port,
        }
    }
}

/// How full a session's context is, as the quantities that the percentage is
/// computed from when it is shown.
#[derive(Debug)]
pub enum ContextFill {
    /// Zero percent.
    Empty,
    /// `used` tokens out of a window of `window`; zero percent for an empty window.
    Tokens { used: u64, window: u64 },
    /// A reported fraction of one, as the server wrote it; zero where it is no number.
    Fraction(String),
}

pub ghost enum ContextFillModel {
    Empty,
    Tokens { used: u64, window: u64 },
    Fraction(Seq<char>),
}

impl View for ContextFill {
    type V = ContextFillModel;

    open spec fn view(&self) -> ContextFillModel {
        match self {
            ContextFill::Empty => ContextFillModel::Empty,
            ContextFill::Tokens { used, window } => ContextFillModel::Tokens {
                used: *used,
                window: *window,
            },
            ContextFill::Fraction(text) => ContextFillModel::Fraction(text@),
        }
    }
}

impl ContextFill {
    /// A copy.
    pub fn copied(&self) -> (r: ContextFill)
        ensures
            r@ == self@,
    {
        match self {
            ContextFill::Empty => ContextFill::Empty,
            ContextFill::Tokens { used, window } => ContextFill::Tokens {
                used: *used,
                window: *window,
            },
            ContextFill::Fraction(text) => ContextFill::Fraction(text.clone()),
        }
    }
}

/// The effort column of a session.
#[derive(Debug)]
pub enum Effort {
    /// Shown as it is.
    Text(String),
    /// The share of `size` bytes that lies in `size_vram` bytes of GPU memory,
    /// shown as a percentage.
    GpuShare { size_vram: u64, size: u64 },
    /// The fill of a server's key-value cache, shown as a percentage.
    KvCache(ContextFill),
}

pub ghost enum EffortModel {
    Text(Seq<char>),
    GpuShare { size_vram: u64, size: u64 },
    KvCache(ContextFillModel),
}

impl View for Effort {
    type V = EffortModel;

    open spec fn view(&self) -> EffortModel {
        match self {
            Effort::Text(text) => EffortModel::Text(text@),
            Effort::GpuShare { size_vram, size } => EffortModel::GpuShare {
                size_vram: *size_vram,
                size: *size,
            },
            Effort::KvCache(fill) => EffortModel::KvCache(fill@),
        }
    }
}

impl Effort {
    /// A copy.
    pub fn copied(&self) -> (r: Effort)
        ensures
            r@ == self@,
    {
        match self {
            Effort::Text(text) => Effort::Text(text.clone()),
            Effort::GpuShare { size_vram, size } => Effort::GpuShare {
                size_vram: *size_vram,
                size: *size,
            },
            Effort::KvCache(fill) => Effort::KvCache(fill.copied()),
        }
    }
}

/// A live session of an agent or an inference server.
#[derive(Debug)]
pub struct AgentSession {
    /// The program that the session belongs to.
    pub agent_cli: &'static str,
    /// Its process, or zero when unknown.
    pub pid: u32,
    pub session_id: String,
    pub cwd: String,
    pub project_name: String,
    /// Unix-epoch milliseconds.
    pub started_at: u64,
    pub status: SessionStatus,
    pub model: String,
    pub effort: Effort,
    pub context: ContextFill,
    pub total_input_tokens: u64,
    pub total_output_tokens: u64,
    pub total_cache_read: u64,
    pub total_cache_create: u64,
    pub turn_count: u32,
    pub current_tasks: Vec<String>,
    pub mem_mb: u64,
    pub version: String,
    pub git_branch: String,
    pub git_added: u32,
    pub git_modified: u32,
    pub token_history: Vec<u64>,
    pub context_history: Vec<u64>,
    pub compaction_count: u32,
    /// Size of the context window in tokens.
    pub context_window: u64,
    pub subagents: Vec<SubAgent>,
    pub mem_file_count: u32,
    pub mem_line_count: u32,
    pub children: Vec<ChildProcess>,
    pub initial_prompt: String,
    pub first_assistant_text: String,
    pub chat_messages: Vec<ChatMessage>,
    pub tool_calls: Vec<ToolCall>,
    pub pending_since_ms: u64,
    pub thinking_since_ms: u64,
    pub file_accesses: Vec<String>,
    /// Home-abbreviated configuration root.
    pub config_root: String,
}

pub ghost struct SessionModel {
    pub agent_cli: Seq<char>,
    pub pid: u32,
    pub session_id: Seq<char>,
    pub cwd: Seq<char>,
    pub project_name: Seq<char>,
    pub started_at: u64,
    pub status: SessionStatus,
    pub model: Seq<char>,
    pub effort: EffortModel,
    pub context: ContextFillModel,
    pub total_input_tokens: u64,
    pub total_output_tokens: u64,
    pub total_cache_read: u64,
    pub total_cache_create: u64,
    pub turn_count: u32,
    pub current_tasks: Seq<Seq<char>>,
    pub mem_mb: u64,
    pub version: Seq<char>,
    pub git_branch: Seq<char>,
    pub git_added: u32,
    pub git_modified: u32,
    pub token_history: Seq<u64>,
    pub context_history: Seq<u64>,
    pub compaction_count: u32,
    pub context_window: u64,
    pub subagents: Seq<SubAgentModel>,
    pub mem_file_count: u32,
    pub mem_line_count: u32,
    pub children: Seq<ChildProcessModel>,
    pub initial_prompt: Seq<char>,
    pub first_assistant_text: Seq<char>,
    pub chat_messages: Seq<ChatMessageModel>,
    pub tool_calls: Seq<ToolCallModel>,
    pub pending_since_ms: u64,
    pub thinking_since_ms: u64,
    pub file_accesses: Seq<Seq<char>>,
    pub config_root: Seq<char>,
}

/// The views of a list of chat lines.
pub open spec fn chat_models(v: Seq<ChatMessage>) -> Seq<ChatMessageModel> {
    v.map_values(|m: ChatMessage| m@)
}

/// The views of a list of tool calls.
pub open spec fn tool_models(v: Seq<ToolCall>) -> Seq<ToolCallModel> {
    v.map_values(|t: ToolCall| t@)
}

/// The views of a list of subagents.
pub open spec fn subagent_models(v: Seq<SubAgent>) -> Seq<SubAgentModel> {
    v.map_values(|a: SubAgent| a@)
}

/// The views of a list of child processes.
pub open spec fn child_models(v: Seq<ChildProcess>) -> Seq<ChildProcessModel> {
    v.map_values(|c: ChildProcess| c@)
}

/// The views of a list of sessions.
pub open spec fn session_models(v: Seq<AgentSession>) -> Seq<SessionModel> {
    v.map_values(|s: AgentSession| s@)
}

impl View for AgentSession {
    type V = SessionModel;

    open spec fn view(&self) -> SessionModel {
        SessionModel {
            agent_cli: self.agent_cli@,
            pid: self.pid,
            session_id: self.session_id@,
            cwd: self.cwd@,
            project_name: self.project_name@,
            started_at: self.started_at,
            status: self.status,
            model: self.model@,
            effort: self.effort@,
            context: self.context@,
            total_input_tokens: self.total_input_tokens,
            total_output_tokens: self.total_output_tokens,
            total_cache_read: self.total_cache_read,
            total_cache_create: self.total_cache_create,
            turn_count: self.turn_count,
            current_tasks: texts(self.current_tasks@),
            mem_mb: self.mem_mb,
            version: self.version@,
            git_branch: self.git_branch@,
            git_added: self.git_added,
            git_modified: self.git_modified,
            token_history: self.token_history@,
            context_history: self.context_history@,
            compaction_count: self.compaction_count,
            context_window: self.context_window,
            subagents: subagent_models(self.subagents@),
            mem_file_count: self.mem_file_count,
            mem_line_count: self.mem_line_count,
            children: child_models(self.children@),
            initial_prompt: self.initial_prompt@,
            first_assistant_text: self.first_assistant_text@,
            chat_messages: chat_models(self.chat_messages@),
            tool_calls: tool_models(self.tool_calls@),
            pending_since_ms: self.pending_since_ms,
            thinking_since_ms: self.thinking_since_ms,
            file_accesses: texts(self.file_accesses@),
            config_root: self.config_root@,
        }
    }
}

/// A session of which nothing is known.
pub open spec fn blank_session() -> SessionModel {
    SessionModel {
        agent_cli: ""@,
        pid: 0,
        session_id: Seq::empty(),
        cwd: Seq::empty(),
        project_name: Seq::empty(),
        started_at: 0,
        status: SessionStatus::Unknown,
        model: Seq::empty(),
        effort: EffortModel::Text(Seq::empty()),
        context: ContextFillModel::Empty,
        total_input_tokens: 0,
        total_output_tokens: 0,
        total_cache_read: 0,
        total_cache_create: 0,
        turn_count: 0,
        current_tasks: Seq::empty(),
        mem_mb: 0,
        version: Seq::empty(),
        git_branch: Seq::empty(),
        git_added: 0,
        git_modified: 0,
        token_history: Seq::empty(),
        context_history: Seq::empty(),
        compaction_count: 0,
        context_window: 0,
        subagents: Seq::empty(),
        mem_file_count: 0,
        mem_line_count: 0,
        children: Seq::empty(),
        initial_prompt: Seq::empty(),
        first_assistant_text: Seq::empty(),
        chat_messages: Seq::empty(),
        tool_calls: Seq::empty(),
        pending_since_ms: 0,
        thinking_since_ms: 0,
        file_accesses: Seq::empty(),
        config_root: Seq::empty(),
    }
}

impl AgentSession {
    /// A session of which nothing is known: collectors fill in what they have.
    pub fn blank() -> (r: AgentSession)
        ensures
            r@ == blank_session(),
    {
        let r = AgentSession {
            agent_cli: "",
            pid: 0,
            session_id: String::new(),
            cwd: String::new(),
            project_name: String::new(),
            started_at: 0,
            status: SessionStatus::Unknown,
            model: String::new(),
            effort: Effort::Text(String::new()),
            context: ContextFill::Empty,
            total_input_tokens: 0,
            total_output_tokens: 0,
            total_cache_read: 0,
            total_cache_create: 0,
            turn_count: 0,
            current_tasks: Vec::new(),
            mem_mb: 0,
            version: String::new(),
            git_branch: String::new(),
            git_added: 0,
            git_modified: 0,
            token_history: Vec::new(),
            context_history: Vec::new(),
            compaction_count: 0,
            context_window: 0,
            subagents: Vec::new(),
            mem_file_count: 0,
            mem_line_count: 0,
            children: Vec::new(),
            initial_prompt: String::new(),
            first_assistant_text: String::new(),
            chat_messages: Vec::new(),
            tool_calls: Vec::new(),
            pending_since_ms: 0,
            thinking_since_ms: 0,
            file_accesses: Vec::new(),
            config_root: String::new(),
        };
        assert(texts(r.current_tasks@) =~= Seq::empty());
        assert(texts(r.file_accesses@) =~= Seq::empty());
        assert(subagent_models(r.subagents@) =~= Seq::empty());
        assert(child_models(r.children@) =~= Seq::empty());
        assert(chat_models(r.chat_messages@) =~= Seq::empty());
        assert(tool_models(r.tool_calls@) =~= Seq::empty());
        r
    }

    /// All token classes summed: input, output, cache read and cache write.
    pub open spec fn all_tokens(self) -> nat {
        (self.total_input_tokens + self.total_output_tokens + self.total_cache_read
            + self.total_cache_create) as nat
    }

    /// Whether all tokens of the session add up within 64 bits.
    pub open spec fn totals_fit(self) -> bool {
        self.all_tokens() <= u64::MAX
    }

    /// Whether all tokens of the session add up within 64 bits.
    pub fn totals_fit_u64(&self) -> (r: bool)
        ensures
            r == self.totals_fit(),
    {
        let sum: u128 = self.total_input_tokens as u128 + self.total_output_tokens as u128
            + self.total_cache_read as u128 + self.total_cache_create as u128;
        sum <= u64::MAX as u128
    }

    /// All token classes summed: input, output, cache read and cache write.
    pub fn total_tokens(&self) -> (r: u64)
        requires
            self.totals_fit(),
        ensures
            r == self.all_tokens(),
    {
        self.total_input_tokens + self.total_output_tokens + self.total_cache_read
            + self.total_cache_create
    }
}

/// A copy of a list of child processes.
pub fn clone_children(v: &Vec<ChildProcess>) -> (r: Vec<ChildProcess>)
    ensures
        r@ == v@,
{
    let mut out: Vec<ChildProcess> = Vec::new();
    let mut i: usize = 0;
    while i < v.len()
        invariant
            i <= v@.len(),
            out@ == v@.take(i as int),
        decreases v@.len() - i,
    {
        out.push(
            ChildProcess {
                pid: v[i].pid,
                command: v[i].command.clone(),
                mem_kb: v[i].mem_kb,
                port: v[i].port,
            },
        );
        i += 1;
        assert(out@ =~= v@.take(i as int));
    }
    assert(v@.take(i as int) =~= v@);
    out
}

/// A copy of a chat transcript.
pub fn clone_chat(v: &Vec<ChatMessage>) -> (r: Vec<ChatMessage>)
    ensures
        r@ == v@,
{
    let mut out: Vec<ChatMessage> = Vec::new();
    let mut i: usize = 0;
    while i < v.len()
        invariant
            i <= v@.len(),
            out@ == v@.take(i as int),
        decreases v@.len() - i,
    {
        out.push(ChatMessage { role: v[i].role, text: v[i].text.clone() });
        i += 1;
        assert(out@ =~= v@.take(i as int));
    }
    assert(v@.take(i as int) =~= v@);
    out
}

/// A copy of a list of tool calls.
pub fn clone_tools(v: &Vec<ToolCall>) -> (r: Vec<ToolCall>)
    ensures
        r@ == v@,
{
    let mut out: Vec<ToolCall> = Vec::new();
    let mut i: usize = 0;
    while i < v.len()
        invariant
            i <= v@.len(),
            out@ == v@.take(i as int),
        decreases v@.len() - i,
    {
        out.push(
            ToolCall {
                name: v[i].name.clone(),
                arg: v[i].arg.clone(),
                duration_ms: v[i].duration_ms,
            },
        );
        i += 1;
        assert(out@ =~= v@.take(i as int));
    }
    assert(v@.take(i as int) =~= v@);
    out
}

/// The names of two states in the JSON interface differ.
pub proof fn law_wire_names_differ(a: SessionStatus, b: SessionStatus)
    requires
        a != b,
    ensures
        a.wire() != b.wire(),
{
    reveal_strlit("Thinking");
    reveal_strlit("Executing");
    reveal_strlit("Waiting");
    reveal_strlit("Unknown");
    reveal_strlit("RateLimited");
    reveal_strlit("Done");
    assert(a.wire().len() != b.wire().len() || a.wire()[0] != b.wire()[0]);
}

/// The name of a state in the JSON interface is that of its variant.
pub proof fn law_wire_names()
    ensures
        SessionStatus::Thinking.wire() == "Thinking"@,
        SessionStatus::Executing.wire() == "Executing"@,
        SessionStatus::Waiting.wire() == "Waiting"@,
        SessionStatus::Unknown.wire() == "Unknown"@,
        SessionStatus::RateLimited.wire() == "RateLimited"@,
        SessionStatus::Done.wire() == "Done"@,
{
}

/// All tokens of a session are those of its four classes.
pub proof fn law_tokens_are_those_of_four_classes(s: AgentSession)
    ensures
        s.all_tokens() == s.total_input_tokens + s.total_output_tokens + s.total_cache_read
            + s.total_cache_create,
        s.totals_fit() <==> s.total_input_tokens + s.total_output_tokens + s.total_cache_read
            + s.total_cache_create <= u64::MAX,
{
}

/// A session of which nothing is known shows nothing.
pub proof fn law_blank_session_is_blank()
    ensures
        ({
            let s = blank_session();
            &&& s.pid == 0 && s.started_at == 0 && s.turn_count == 0 && s.mem_mb == 0
            &&& s.status == SessionStatus::Unknown
            &&& s.effort == EffortModel::Text(Seq::empty())
            &&& s.context == ContextFillModel::Empty && s.context_window == 0
            &&& s.total_input_tokens == 0 && s.total_output_tokens == 0
            &&& s.total_cache_read == 0 && s.total_cache_create == 0
            &&& s.session_id.len() == 0 && s.cwd.len() == 0 && s.project_name.len() == 0
            &&& s.model.len() == 0 && s.version.len() == 0 && s.git_branch.len() == 0
            &&& s.git_added == 0 && s.git_modified == 0 && s.compaction_count == 0
            &&& s.current_tasks.len() == 0 && s.token_history.len() == 0
            &&& s.context_history.len() == 0 && s.subagents.len() == 0 && s.children.len() == 0
            &&& s.mem_file_count == 0 && s.mem_line_count == 0
            &&& s.initial_prompt.len() == 0 && s.first_assistant_text.len() == 0
            &&& s.chat_messages.len() == 0 && s.tool_calls.len() == 0
            &&& s.pending_since_ms == 0 && s.thinking_since_ms == 0
            &&& s.file_accesses.len() == 0 && s.config_root.len() == 0
        }),
{
}

/// A record shows its own fields.
pub proof fn law_records_show_their_fields(m: ChatMessage, t: ToolCall, a: SubAgent, c: ChildProcess)
    ensures
        m@.text == m.text@,
        m@.role == m.role,
        t@.name == t.name@,
        t@.arg == t.arg@,
        t@.duration_ms == t.duration_ms,
        a@.name == a.name@,
        a@.status == a.status@,
        a@.tokens == a.tokens,
        c@.command == c.command@,
        c@.pid == c.pid,
        c@.mem_kb == c.mem_kb,
        c@.port == c.port,
{
}

/// A session shows its own fields.
pub proof fn law_session_shows_its_fields(s: AgentSession)
    ensures
        s@.agent_cli == s.agent_cli@,
        s@.session_id == s.session_id@,
        s@.cwd == s.cwd@,
        s@.project_name == s.project_name@,
        s@.model == s.model@,
        s@.effort == s.effort@,
        s@.context == s.context@,
        s@.version == s.version@,
        s@.git_branch == s.git_branch@,
        s@.initial_prompt == s.initial_prompt@,
        s@.first_assistant_text == s.first_assistant_text@,
        s@.config_root == s.config_root@,
        s@.current_tasks == s.current_tasks@.map_values(|t: String| t@),
        s@.file_accesses == s.file_accesses@.map_values(|t: String| t@),
        s@.subagents == s.subagents@.map_values(|a: SubAgent| a@),
        s@.children == s.children@.map_values(|c: ChildProcess| c@),
        s@.chat_messages == s.chat_messages@.map_values(|m: ChatMessage| m@),
        s@.tool_calls == s.tool_calls@.map_values(|t: ToolCall| t@),
        s@.token_history == s.token_history@,
        s@.context_history == s.context_history@,
        s@.pid == s.pid,
        s@.started_at == s.started_at,
        s@.status == s.status,
        s@.total_input_tokens == s.total_input_tokens,
        s@.total_output_tokens == s.total_output_tokens,
        s@.total_cache_read == s.total_cache_read,
        s@.total_cache_create == s.total_cache_create,
        s@.turn_count == s.turn_count,
        s@.mem_mb == s.mem_mb,
        s@.git_added == s.git_added,
        s@.git_modified == s.git_modified,
        s@.compaction_count == s.compaction_count,
        s@.context_window == s.context_window,
        s@.mem_file_count == s.mem_file_count,
        s@.mem_line_count == s.mem_line_count,
        s@.pending_since_ms == s.pending_since_ms,
        s@.thinking_since_ms == s.thinking_since_ms,
{
}

/// A fill and an effort show what they are made of.
pub proof fn law_quantities_are_shown(used: u64, window: u64, text: String, fill: ContextFill)
    ensures
        ContextFill::Empty@ == ContextFillModel::Empty,
        (ContextFill::Tokens { used, window })@ == (ContextFillModel::Tokens { used, window }),
        ContextFill::Fraction(text)@ == ContextFillModel::Fraction(text@),
        Effort::Text(text)@ == EffortModel::Text(text@),
        (Effort::GpuShare { size_vram: used, size: window })@ == (EffortModel::GpuShare {
            size_vram: used,
            size: window,
        }),
        Effort::KvCache(fill)@ == EffortModel::KvCache(fill@),
{
}

} // verus!
