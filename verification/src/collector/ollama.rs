//! Models that Ollama has loaded.
use super::process::{cmd_has_binary, names_binary, pids_where, ProcInfo};
use super::server::{
    answered, any_busy, is_high, is_listing, lemma_any_busy, primary_of, primary_pid, read_answer,
    server_status, some_busy, status_when,
};
use super::SharedProcessData;
use crate::json::{trees, Json, JsonTree};
use crate::model::{
    blank_session, session_models, AgentSession, ContextFillModel, Effort, EffortModel, SessionModel,
    SessionStatus,
};
use crate::text::number::{decimal, push_decimal};
use crate::text::scan::{before_first, law_text_is_cut_at_a_character, until};
use crate::text::one_text;
use std::collections::HashMap;
use vstd::prelude::*;
use vstd::string::*;

verus! {

/// Collector for the models that an Ollama server has loaded.
#[derive(Debug)]
pub struct OllamaCollector {
    pub addr: String,
}

/// A command line that runs Ollama.
pub open spec fn is_ollama(p: ProcInfo) -> bool {
    names_binary(p.command@, "ollama"@)
}

fn runs_ollama(p: &ProcInfo) -> (r: bool)
    ensures
        r == is_ollama(*p),
{
    cmd_has_binary(p.command.as_str(), "ollama")
}

/// The name of a loaded model.
pub open spec fn model_name(m: JsonTree) -> Seq<char> {
    match m.field("name"@) {
        JsonTree::Str(name) => name,
        _ => "unknown"@,
    }
}

/// What a model is: its family, with its size and quantization where the size is known.
pub open spec fn model_kind(m: JsonTree) -> Seq<char> {
    let details = m.field("details"@);
    let family = details.field("family"@).text_or_empty();
    let size = details.field("parameter_size"@).text_or_empty();
    if size.len() > 0 {
        family + ":"@ + size + " ("@ + details.field("quantization_level"@).text_or_empty() + ")"@
    } else {
        family
    }
}

/// How long a model stays loaded: up to the day on which it expires.
pub open spec fn expiry_text(expires_at: Seq<char>) -> Seq<char> {
    if expires_at.len() > 0 {
        "Expires: "@ + before_first(expires_at, 'T')
    } else {
        "Loaded in memory"@
    }
}

/// A number of bytes in MiB, rounded down.
pub open spec fn mebibytes(bytes: u64) -> nat {
    (bytes / 1024 / 1024) as nat
}

/// The session of a loaded model. `pids` are the processes of the server.
pub open spec fn model_session(
    m: JsonTree,
    pids: Seq<u32>,
    info: Map<u32, ProcInfo>,
    now_ms: u64,
) -> SessionModel {
    let size = m.field("size"@).unsigned_or_zero();
    let size_vram = m.field("size_vram"@).unsigned_or_zero();
    SessionModel {
        agent_cli: "ollama"@,
        pid: primary_of(pids),
        session_id: model_name(m),
        cwd: "/"@,
        project_name: "Ollama"@,
        started_at: now_ms,
        status: server_status(any_busy(info, pids)),
        model: model_kind(m),
        effort: if size_vram > 0 {
            EffortModel::GpuShare { size_vram, size }
        } else {
            EffortModel::Text("CPU only"@)
        },
        turn_count: 1,
        current_tasks: seq![
            "VRAM: "@ + decimal(mebibytes(size_vram)) + " MB / Total: "@ + decimal(mebibytes(size))
                + " MB"@,
        ],
        mem_mb: mebibytes(size_vram) as u64,
        context_window: 8192,
        initial_prompt: expiry_text(m.field("expires_at"@).text_or_empty()),
        config_root: "~/.ollama"@,
        ..blank_session()
    }
}

/// The sessions of the models that a server lists. A server that answers with
/// anything else has none.
pub open spec fn model_sessions(
    answer: JsonTree,
    pids: Seq<u32>,
    info: Map<u32, ProcInfo>,
    now_ms: u64,
) -> Seq<SessionModel> {
    answer.field("models"@).elements().map_values(
        |m: JsonTree| model_session(m, pids, info, now_ms),
    )
}

/// The sessions that an answer gives, where it is JSON at all.
pub open spec fn answer_sessions(
    answer: Option<JsonTree>,
    pids: Seq<u32>,
    info: Map<u32, ProcInfo>,
    now_ms: u64,
) -> Seq<SessionModel> {
    match answer {
        Some(tree) => model_sessions(tree, pids, info, now_ms),
        None => Seq::empty(),
    }
}

fn kind_text(m: &Json) -> (r: String)
    ensures
        r@ == model_kind(m@),
{
    let details = m.field("details");
    let mut out = details.field("family").str_or_empty().to_owned();
    let size = details.field("parameter_size").str_or_empty();
    if !size.is_empty() {
        out.append(":");
        out.append(size);
        out.append(" (");
        out.append(details.field("quantization_level").str_or_empty());
        out.append(")");
    }
    out
}

fn expiry(expires_at: &str) -> (r: String)
    ensures
        r@ == expiry_text(expires_at@),
{
    if expires_at.is_empty() {
        "Loaded in memory".to_owned()
    } else {
        let mut out = "Expires: ".to_owned();
        let day = until(expires_at, 'T');
        out.append(day.as_str());
        out
    }
}

fn build_session(m: &Json, pids: &Vec<u32>, info: &HashMap<u32, ProcInfo>, now_ms: u64) -> (r: AgentSession)
    ensures
        r@ == model_session(m@, pids@, info@, now_ms),
{
    let size = m.field("size").u64_or_zero();
    let size_vram = m.field("size_vram").u64_or_zero();
    let mut task = "VRAM: ".to_owned();
    push_decimal(&mut task, size_vram / 1024 / 1024);
    task.append(" MB / Total: ");
    push_decimal(&mut task, size / 1024 / 1024);
    task.append(" MB");
    AgentSession {
        agent_cli: "ollama",
        pid: primary_pid(pids),
        session_id: match m.field("name").as_str() {
            Some(name) => name.to_owned(),
            None => "unknown".to_owned(),
        },
        cwd: "/".to_owned(),
        project_name: "Ollama".to_owned(),
        started_at: now_ms,
        status: status_when(some_busy(info, pids)),
        model: kind_text(m),
        effort: if size_vram > 0 {
            Effort::GpuShare { size_vram, size }
        } else {
            Effort::Text("CPU only".to_owned())
        },
        turn_count: 1,
        current_tasks: one_text(task),
        mem_mb: size_vram / 1024 / 1024,
        context_window: 8192,
        initial_prompt: expiry(m.field("expires_at").str_or_empty()),
        config_root: "~/.ollama".to_owned(),
        ..AgentSession::blank()
    }
}

impl OllamaCollector {
    /// A collector for a server on Ollama's own port.
    pub fn new() -> (r: OllamaCollector)
        ensures
            r.addr@ == "127.0.0.1:11434"@,
    {
        OllamaCollector { addr: "127.0.0.1:11434".to_owned() }
    }

    /// The running Ollama processes, each once.
    pub fn find_pids(info: &HashMap<u32, ProcInfo>) -> (r: Vec<u32>)
        ensures
            is_listing(r@, info@, |p: ProcInfo| is_ollama(p)),
    {
        pids_where(info, runs_ollama, Ghost(|p: ProcInfo| is_ollama(p)))
    }

    /// The sessions of the models that a server lists. `pids` are its processes.
    pub fn sessions(
        answer: &Json,
        pids: &Vec<u32>,
        info: &HashMap<u32, ProcInfo>,
        now_ms: u64,
    ) -> (r: Vec<AgentSession>)
        ensures
            session_models(r@) == model_sessions(answer@, pids@, info@, now_ms),
    {
        let mut out: Vec<AgentSession> = Vec::new();
        let ghost wanted = model_sessions(answer@, pids@, info@, now_ms);
        match answer.field("models").as_array() {
            Some(models) => {
                let mut i: usize = 0;
                while i < models.len()
                    invariant
                        i <= models@.len(),
                        wanted == trees(models@).map_values(
                            |m: JsonTree| model_session(m, pids@, info@, now_ms),
                        ),
                        out@.len() == i,
                        forall|k: int| 0 <= k < i ==> (#[trigger] out@[k])@ == wanted[k],
                    decreases models@.len() - i,
                {
                    let session = build_session(&models[i], pids, info, now_ms);
                    assert(trees(models@)[i as int] == models@[i as int]@);
                    out.push(session);
                    i += 1;
                }
            },
            None => {},
        }
        assert(session_models(out@) =~= wanted);
        out
    }

    /// The sessions of the models that are loaded. `response` is the body of the
    /// server's answer for `/api/ps`, if there is one.
    pub fn collect(&self, response: Option<&str>, shared: &SharedProcessData, now_ms: u64) -> (r: Vec<
        AgentSession,
    >)
        ensures
            exists|pids: Seq<u32>|
                is_listing(pids, shared.process_info@, |p: ProcInfo| is_ollama(p))
                    && session_models(r@) == #[trigger] answer_sessions(
                    answered(response),
                    pids,
                    shared.process_info@,
                    now_ms,
                ),
    {
        let pids = Self::find_pids(&shared.process_info);
        let out: Vec<AgentSession> = match read_answer(response) {
            Some(answer) => Self::sessions(&answer, &pids, &shared.process_info, now_ms),
            None => Vec::new(),
        };
        assert(session_models(out@) =~= answer_sessions(
            answered(response),
            pids@,
            shared.process_info@,
            now_ms,
        ));
        out
    }
}

/// What is shown of a loaded model: the share of it that lies in GPU memory, or that it
/// runs on the CPU alone; it thinks while a process of the server is busy.
pub proof fn law_model_is_shown(m: JsonTree, pids: Seq<u32>, info: Map<u32, ProcInfo>, now_ms: u64)
    ensures
        ({
            let s = model_session(m, pids, info, now_ms);
            let size = m.field("size"@).unsigned_or_zero();
            let vram = m.field("size_vram"@).unsigned_or_zero();
            &&& s.agent_cli == "ollama"@ && s.project_name == "Ollama"@ && s.cwd == "/"@
            &&& s.config_root == "~/.ollama"@
            &&& s.started_at == now_ms
            &&& s.turn_count == 1
            &&& s.context_window == 8192
            &&& s.context == ContextFillModel::Empty
            &&& pids.len() == 0 ==> s.pid == 0
            &&& pids.len() > 0 ==> s.pid == pids[0]
            &&& m.field("name"@) matches JsonTree::Str(name) ==> s.session_id == name
            &&& !(m.field("name"@) is Str) ==> s.session_id == "unknown"@
            &&& vram > 0 ==> s.effort == (EffortModel::GpuShare { size_vram: vram, size })
            &&& vram == 0 ==> s.effort == EffortModel::Text("CPU only"@)
            &&& s.mem_mb * 1_048_576 <= vram < s.mem_mb * 1_048_576 + 1_048_576
            &&& s.current_tasks.len() == 1
            &&& forall|total: nat|
                total * 1_048_576 <= size < total * 1_048_576 + 1_048_576 ==> s.current_tasks[0]
                    == "VRAM: "@ + decimal(s.mem_mb as nat) + " MB / Total: "@ + #[trigger] decimal(
                    total,
                ) + " MB"@
            &&& (exists|i: int| 0 <= i < pids.len() && is_high(info, #[trigger] pids[i]))
                ==> s.status == SessionStatus::Thinking
            &&& (forall|i: int| 0 <= i < pids.len() ==> !is_high(info, #[trigger] pids[i]))
                ==> s.status == SessionStatus::Waiting
            &&& s.total_input_tokens == 0 && s.total_output_tokens == 0
            &&& s.total_cache_read == 0 && s.total_cache_create == 0
            &&& s.children.len() == 0 && s.subagents.len() == 0 && s.chat_messages.len() == 0
        }),
{
    lemma_any_busy(info, pids);
    let size = m.field("size"@).unsigned_or_zero();
    let s = model_session(m, pids, info, now_ms);
    assert forall|total: nat|
        total * 1_048_576 <= size < total * 1_048_576 + 1_048_576 implies s.current_tasks[0]
        == "VRAM: "@ + decimal(s.mem_mb as nat) + " MB / Total: "@ + #[trigger] decimal(total)
        + " MB"@ by {
        assert(total == mebibytes(size));
    }
}

/// What a model is: its family, and behind it its size and quantization where the size is
/// known.
pub proof fn law_model_kind_is_shown(m: JsonTree, pids: Seq<u32>, info: Map<u32, ProcInfo>, now_ms: u64)
    ensures
        ({
            let shown = model_session(m, pids, info, now_ms).model;
            let family = m.field("details"@).field("family"@).text_or_empty();
            let size = m.field("details"@).field("parameter_size"@).text_or_empty();
            let quant = m.field("details"@).field("quantization_level"@).text_or_empty();
            &&& size.len() == 0 ==> shown == family
            &&& size.len() > 0 ==> shown == family + ":"@ + size + " ("@ + quant + ")"@
        }),
{
}

/// A model is shown with the day on which it expires, if it does.
pub proof fn law_expiry_is_shown(
    m: JsonTree,
    pids: Seq<u32>,
    info: Map<u32, ProcInfo>,
    now_ms: u64,
    day: Seq<char>,
    time: Seq<char>,
)
    requires
        !day.contains('T'),
    ensures
        m.field("expires_at"@) == JsonTree::Str(day.push('T') + time) ==> model_session(
            m,
            pids,
            info,
            now_ms,
        ).initial_prompt == "Expires: "@ + day,
        day.len() > 0 && m.field("expires_at"@) == JsonTree::Str(day) ==> model_session(
            m,
            pids,
            info,
            now_ms,
        ).initial_prompt == "Expires: "@ + day,
        !(m.field("expires_at"@) is Str) ==> model_session(m, pids, info, now_ms).initial_prompt
            == "Loaded in memory"@,
{
    law_text_is_cut_at_a_character(day, 'T', time);
}

/// Each model that a server lists is shown, in its order; an answer that lists none shows
/// none.
pub proof fn law_each_model_is_shown(
    answer: JsonTree,
    models: Seq<JsonTree>,
    pids: Seq<u32>,
    info: Map<u32, ProcInfo>,
    now_ms: u64,
)
    ensures
        answer.field("models"@) == JsonTree::Array(models) ==> {
            let shown = answer_sessions(Some(answer), pids, info, now_ms);
            &&& shown.len() == models.len()
            &&& forall|i: int|
                0 <= i < models.len() ==> #[trigger] shown[i] == model_session(
                    models[i],
                    pids,
                    info,
                    now_ms,
                )
        },
        !(answer.field("models"@) is Array) ==> answer_sessions(
            Some(answer),
            pids,
            info,
            now_ms,
        ).len() == 0,
        answer_sessions(None, pids, info, now_ms).len() == 0,
{
}

/// An Ollama process is one whose first or second word is a path to `ollama`.
pub proof fn law_ollama_is_known_by_its_program(p: ProcInfo)
    ensures
        is_ollama(p) <==> names_binary(p.command@, "ollama"@),
{
}

} // verus!
