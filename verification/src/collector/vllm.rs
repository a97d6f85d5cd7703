//! A vLLM server.
use super::process::{pids_where, ProcInfo};
use super::server::{
    answered, any_busy, is_listing, primary_of, primary_pid, read_answer, server_mb, server_memory,
    is_high, lemma_any_busy, server_status, some_busy, status_when,
};
use super::SharedProcessData;
use crate::json::{trees, Json, JsonTree};
use crate::model::{
    blank_session, AgentSession, ContextFill, ContextFillModel, Effort, EffortModel,
    SessionModel, SessionStatus,
};
use crate::text::number::{
    decimal, law_numbers_are_read_back, lemma_low_word, low32, low_word, parse_u64, parsed_unsigned,
    push_decimal,
};
use crate::text::scan::{
    before_first, contains, contains_text, law_contained_text_is_found, lines, lines_of, starts_with, occurs_at, until, words, words_of,
};
use crate::text::{one_text, texts};
use std::collections::HashMap;
use vstd::prelude::*;
use vstd::string::*;

verus! {

/// Collector for a vLLM server.
#[derive(Debug)]
pub struct VllmCollector {
    pub addr: String,
}

/// A command line that mentions vLLM.
pub open spec fn is_vllm(p: ProcInfo) -> bool {
    contains_text(p.command@, "vllm"@)
}

fn runs_vllm(p: &ProcInfo) -> (r: bool)
    ensures
        r == is_vllm(*p),
{
    contains(p.command.as_str(), "vllm")
}

/// What the metrics of a server say.
#[derive(Debug)]
pub struct Metrics {
    /// The used share of the key-value cache, as a fraction of one.
    pub kv_cache: ContextFill,
    pub running: u64,
    pub waiting: u64,
}

pub ghost struct MetricsModel {
    pub kv_cache: ContextFillModel,
    pub running: u64,
    pub waiting: u64,
}

impl View for Metrics {
    type V = MetricsModel;

    open spec fn view(&self) -> MetricsModel {
        MetricsModel { kv_cache: self.kv_cache@, running: self.running, waiting: self.waiting }
    }
}

/// An unsigned number; zero for anything else.
pub open spec fn number_or_zero(text: Seq<char>) -> u64 {
    match parsed_unsigned(text, u64::MAX as nat) {
        Some(n) => n as u64,
        None => 0,
    }
}

/// What is known after one more line. A line is a name, with labels in braces or
/// without, and a value; one that starts with `#` is a comment.
pub open spec fn after_line(m: MetricsModel, line: Seq<char>) -> MetricsModel {
    let parts = words_of(line);
    if occurs_at(line, "#"@, 0) || parts.len() < 2 {
        m
    } else {
        let name = before_first(parts[0], '{');
        if contains_text(name, "vllm:kv_cache_usage_perc"@) || contains_text(
            name,
            "vllm_kv_cache_usage_perc"@,
        ) {
            MetricsModel { kv_cache: ContextFillModel::Fraction(parts[1]), ..m }
        } else if contains_text(name, "vllm:num_requests_running"@) || contains_text(
            name,
            "vllm_num_requests_running"@,
        ) {
            MetricsModel { running: number_or_zero(parts[1]), ..m }
        } else if contains_text(name, "vllm:num_requests_waiting"@) || contains_text(
            name,
            "vllm_num_requests_waiting"@,
        ) {
            MetricsModel { waiting: number_or_zero(parts[1]), ..m }
        } else {
            m
        }
    }
}

/// What is known after all lines: of each metric the last one counts.
pub open spec fn metrics_of(lines: Seq<Seq<char>>) -> MetricsModel
    decreases lines.len(),
{
    if lines.len() == 0 {
        MetricsModel { kv_cache: ContextFillModel::Empty, running: 0, waiting: 0 }
    } else {
        after_line(metrics_of(lines.drop_last()), lines.last())
    }
}

fn read_number(text: &str) -> (r: u64)
    ensures
        r == number_or_zero(text@),
{
    match parse_u64(text) {
        Some(n) => n,
        None => 0,
    }
}

fn take_line(m: &mut Metrics, line: &str)
    ensures
        final(m)@ == after_line(old(m)@, line@),
{
    if starts_with(line, "#") {
        return;
    }
    let parts = words(line);
    if parts.len() < 2 {
        return;
    }
    assert(texts(parts@)[0] == parts@[0]@);
    assert(texts(parts@)[1] == parts@[1]@);
    let clean = until(parts[0].as_str(), '{');
    let name = clean.as_str();
    if contains(name, "vllm:kv_cache_usage_perc") || contains(name, "vllm_kv_cache_usage_perc") {
        m.kv_cache = ContextFill::Fraction(parts[1].clone());
    } else if contains(name, "vllm:num_requests_running") || contains(name, "vllm_num_requests_running") {
        m.running = read_number(parts[1].as_str());
    } else if contains(name, "vllm:num_requests_waiting") || contains(name, "vllm_num_requests_waiting") {
        m.waiting = read_number(parts[1].as_str());
    }
}

/// What the metrics of a server say.
pub fn read_metrics(text: &str) -> (r: Metrics)
    ensures
        r@ == metrics_of(lines_of(text@)),
{
    let all = lines(text);
    let ghost seen = lines_of(text@);
    let mut m = Metrics { kv_cache: ContextFill::Empty, running: 0, waiting: 0 };
    let mut i: usize = 0;
    assert(m@ == metrics_of(seen.take(0)));
    while i < all.len()
        invariant
            i <= all@.len(),
            texts(all@) == seen,
            m@ == metrics_of(seen.take(i as int)),
        decreases all@.len() - i,
    {
        assert(texts(all@)[i as int] == all@[i as int]@);
        assert(seen.take(i + 1).last() == all@[i as int]@);
        assert(seen.take(i + 1).drop_last() =~= seen.take(i as int));
        take_line(&mut m, all[i].as_str());
        i += 1;
    }
    assert(seen.take(i as int) =~= seen);
    m
}

/// The model that a server offers first.
pub open spec fn offered_model(answer: Option<JsonTree>) -> Seq<char> {
    match answer {
        Some(tree) => {
            let list = tree.field("data"@).elements();
            if list.len() > 0 && list[0].field("id"@) is Str {
                list[0].field("id"@)->Str_0
            } else {
                "vllm-server"@
            }
        },
        None => "vllm-server"@,
    }
}

/// The model that a server offers first.
pub fn first_model(answer: Option<&Json>) -> (r: String)
    ensures
        r@ == offered_model(
            match answer {
                Some(j) => Some(j@),
                None => None,
            },
        ),
{
    match answer {
        Some(j) => match j.field("data").as_array() {
            Some(list) => if list.len() > 0 {
                assert(trees(list@)[0] == list@[0]@);
                match list[0].field("id").as_str() {
                    Some(id) => id.to_owned(),
                    None => "vllm-server".to_owned(),
                }
            } else {
                "vllm-server".to_owned()
            },
            None => "vllm-server".to_owned(),
        },
        None => "vllm-server".to_owned(),
    }
}

/// The session of a server with the given metrics. `pids` are its processes.
pub open spec fn metrics_session(
    m: MetricsModel,
    model: Seq<char>,
    pids: Seq<u32>,
    info: Map<u32, ProcInfo>,
    now_ms: u64,
) -> SessionModel {
    let running = decimal(m.running as nat);
    let waiting = decimal(m.waiting as nat);
    SessionModel {
        agent_cli: "vllm"@,
        pid: primary_of(pids),
        session_id: "vllm"@,
        cwd: "/"@,
        project_name: "vLLM"@,
        started_at: now_ms,
        status: server_status(m.running > 0 || any_busy(info, pids)),
        model,
        effort: EffortModel::KvCache(m.kv_cache),
        context: m.kv_cache,
        turn_count: low_word(m.running),
        current_tasks: seq!["Running reqs: "@ + running + " / Waiting: "@ + waiting],
        mem_mb: server_mb(info, primary_of(pids)),
        context_window: 32768,
        initial_prompt: "Running: "@ + running + " | Waiting: "@ + waiting,
        config_root: "vllm"@,
        ..blank_session()
    }
}

impl VllmCollector {
    /// A collector for a server on vLLM's own port.
    pub fn new() -> (r: VllmCollector)
        ensures
            r.addr@ == "127.0.0.1:8000"@,
    {
        VllmCollector { addr: "127.0.0.1:8000".to_owned() }
    }

    /// The running vLLM processes, each once.
    pub fn find_pids(info: &HashMap<u32, ProcInfo>) -> (r: Vec<u32>)
        ensures
            is_listing(r@, info@, |p: ProcInfo| is_vllm(p)),
    {
        pids_where(info, runs_vllm, Ghost(|p: ProcInfo| is_vllm(p)))
    }

    /// The session of a server with the given metrics. `pids` are its processes.
    pub fn session(
        m: &Metrics,
        model: &str,
        pids: &Vec<u32>,
        info: &HashMap<u32, ProcInfo>,
        now_ms: u64,
    ) -> (r: AgentSession)
        ensures
            r@ == metrics_session(m@, model@, pids@, info@, now_ms),
    {
        let mut task = "Running reqs: ".to_owned();
        push_decimal(&mut task, m.running);
        task.append(" / Waiting: ");
        push_decimal(&mut task, m.waiting);
        let mut prompt = "Running: ".to_owned();
        push_decimal(&mut prompt, m.running);
        prompt.append(" | Waiting: ");
        push_decimal(&mut prompt, m.waiting);
        let pid = primary_pid(pids);
        AgentSession {
            agent_cli: "vllm",
            pid,
            session_id: "vllm".to_owned(),
            cwd: "/".to_owned(),
            project_name: "vLLM".to_owned(),
            started_at: now_ms,
            status: status_when(m.running > 0 || some_busy(info, pids)),
            model: model.to_owned(),
            effort: Effort::KvCache(m.kv_cache.copied()),
            context: m.kv_cache.copied(),
            turn_count: low32(m.running),
            current_tasks: one_text(task),
            mem_mb: server_memory(info, pid),
            context_window: 32768,
            initial_prompt: prompt,
            config_root: "vllm".to_owned(),
            ..AgentSession::blank()
        }
    }

    /// The session of a server that answered for `/metrics`, and none of any other.
    /// `models` is its answer for `/v1/models`, if there is one.
    pub fn collect(
        &self,
        metrics: Option<&str>,
        models: Option<&str>,
        shared: &SharedProcessData,
        now_ms: u64,
    ) -> (r: Vec<AgentSession>)
        ensures
            metrics is None ==> r@.len() == 0,
            metrics is Some ==> r@.len() == 1 && exists|pids: Seq<u32>|
                is_listing(pids, shared.process_info@, |p: ProcInfo| is_vllm(p)) && r@[0]@
                    == #[trigger] metrics_session(
                    metrics_of(lines_of(metrics->Some_0@)),
                    offered_model(answered(models)),
                    pids,
                    shared.process_info@,
                    now_ms,
                ),
            metrics is Some ==> forall|k: int|
                #[trigger] is_last_cache_report(lines_of(metrics->Some_0@), k) ==> r@[0].context@
                    == ContextFillModel::Fraction(words_of(lines_of(metrics->Some_0@)[k])[1]),
    {
        let mut out: Vec<AgentSession> = Vec::new();
        match metrics {
            Some(text) => {
                let m = read_metrics(text);
                let answer = read_answer(models);
                let model = match &answer {
                    Some(j) => first_model(Some(j)),
                    None => first_model(None),
                };
                let pids = Self::find_pids(&shared.process_info);
                out.push(Self::session(&m, model.as_str(), &pids, &shared.process_info, now_ms));
                proof {
                    let all = lines_of(text@);
                    assert forall|k: int| #[trigger] is_last_cache_report(all, k) implies out@[0].context@
                        == ContextFillModel::Fraction(words_of(all[k])[1]) by {
                        law_last_report_counts(all, k);
                    }
                }
            },
            None => {},
        }
        out
    }
}

/// Whether a line reports the metric of one of two names: it is no comment, has a name and
/// a value, and the name up to its labels holds one of the two.
pub open spec fn reports(line: Seq<char>, name: Seq<char>, other: Seq<char>) -> bool {
    let parts = words_of(line);
    &&& !(line.len() > 0 && line[0] == '#')
    &&& parts.len() >= 2
    &&& contains_text(before_first(parts[0], '{'), name) || contains_text(
        before_first(parts[0], '{'),
        other,
    )
}

/// Whether a line reports the used share of the key-value cache.
pub open spec fn reports_cache(line: Seq<char>) -> bool {
    reports(line, "vllm:kv_cache_usage_perc"@, "vllm_kv_cache_usage_perc"@)
}

/// Whether a line is the last one that reports the used share of the key-value cache.
pub open spec fn is_last_cache_report(lines: Seq<Seq<char>>, k: int) -> bool {
    &&& 0 <= k < lines.len()
    &&& reports_cache(lines[k])
    &&& forall|j: int| k < j < lines.len() ==> !reports_cache(#[trigger] lines[j])
}

/// Whether a line reports the number of running requests.
pub open spec fn reports_running(line: Seq<char>) -> bool {
    !reports_cache(line) && reports(
        line,
        "vllm:num_requests_running"@,
        "vllm_num_requests_running"@,
    )
}

/// Whether a line reports the number of waiting requests.
pub open spec fn reports_waiting(line: Seq<char>) -> bool {
    !reports_cache(line) && !reports_running(line) && reports(
        line,
        "vllm:num_requests_waiting"@,
        "vllm_num_requests_waiting"@,
    )
}

proof fn lemma_comment(line: Seq<char>)
    ensures
        occurs_at(line, "#"@, 0) <==> line.len() > 0 && line[0] == '#',
{
    reveal_strlit("#");
    if line.len() > 0 {
        assert(line.subrange(0, 1) =~= seq![line[0]]);
        assert("#"@ =~= seq!['#']);
        if line[0] == '#' {
            assert(line.subrange(0, 1) =~= "#"@);
        } else if occurs_at(line, "#"@, 0) {
            assert(line.subrange(0, 1)[0] == '#');
        }
    }
}

/// Of each metric the last line that reports it counts, and without one there is none: the
/// share of the cache as the server wrote it, and the numbers of running and waiting
/// requests.
pub proof fn law_last_report_counts(lines: Seq<Seq<char>>, k: int)
    requires
        0 <= k < lines.len(),
    ensures
        reports_cache(lines[k]) && (forall|j: int| k < j < lines.len() ==> !reports_cache(
            #[trigger] lines[j],
        )) ==> metrics_of(lines).kv_cache == ContextFillModel::Fraction(words_of(lines[k])[1]),
        reports_running(lines[k]) && (forall|j: int| k < j < lines.len() ==> !reports_running(
            #[trigger] lines[j],
        )) ==> metrics_of(lines).running == number_or_zero(words_of(lines[k])[1]),
        reports_waiting(lines[k]) && (forall|j: int| k < j < lines.len() ==> !reports_waiting(
            #[trigger] lines[j],
        )) ==> metrics_of(lines).waiting == number_or_zero(words_of(lines[k])[1]),
    decreases lines.len(),
{
    let last = lines.last();
    lemma_comment(last);
    if k < lines.len() - 1 {
        let front = lines.drop_last();
        law_last_report_counts(front, k);
        assert(last == lines[lines.len() - 1]);
        assert(front[k] == lines[k]);
        assert forall|j: int| k < j < front.len() implies #[trigger] front[j] == lines[j] by {}
    }
}

/// Without a report the cache is empty and no request runs or waits.
pub proof fn law_nothing_is_made_up(lines: Seq<Seq<char>>)
    ensures
        (forall|j: int| 0 <= j < lines.len() ==> !reports_cache(#[trigger] lines[j])) ==> metrics_of(
            lines,
        ).kv_cache == ContextFillModel::Empty,
        (forall|j: int| 0 <= j < lines.len() ==> !reports_running(#[trigger] lines[j]))
            ==> metrics_of(lines).running == 0,
        (forall|j: int| 0 <= j < lines.len() ==> !reports_waiting(#[trigger] lines[j]))
            ==> metrics_of(lines).waiting == 0,
    decreases lines.len(),
{
    if lines.len() > 0 {
        let front = lines.drop_last();
        law_nothing_is_made_up(front);
        lemma_comment(lines.last());
        assert(lines.last() == lines[lines.len() - 1]);
        assert forall|j: int| 0 <= j < front.len() implies #[trigger] front[j] == lines[j] by {}
    }
}

/// The number of a report is the one that was written, and zero where the value is no
/// unsigned number of 64 bits.
pub proof fn law_reported_number_is_read(n: u64, text: Seq<char>)
    ensures
        number_or_zero(decimal(n as nat)) == n,
        parsed_unsigned(text, u64::MAX as nat) is None ==> number_or_zero(text) == 0,
{
    law_numbers_are_read_back(n as nat, u64::MAX as nat);
}

/// A server shows how full its cache is, both as the fill of its context and in its effort;
/// it thinks while requests run or a process is busy.
pub proof fn law_server_shows_its_metrics(
    m: MetricsModel,
    model: Seq<char>,
    pids: Seq<u32>,
    info: Map<u32, ProcInfo>,
    now_ms: u64,
)
    ensures
        ({
            let s = metrics_session(m, model, pids, info, now_ms);
            let running = decimal(m.running as nat);
            let waiting = decimal(m.waiting as nat);
            &&& s.context == m.kv_cache
            &&& s.effort == EffortModel::KvCache(m.kv_cache)
            &&& m.running > 0 ==> s.status == SessionStatus::Thinking
            &&& (exists|i: int| 0 <= i < pids.len() && is_high(info, #[trigger] pids[i]))
                ==> s.status == SessionStatus::Thinking
            &&& m.running == 0 && (forall|i: int|
                0 <= i < pids.len() ==> !is_high(info, #[trigger] pids[i])) ==> s.status
                == SessionStatus::Waiting
            &&& m.running <= u32::MAX ==> s.turn_count == m.running
            &&& s.current_tasks == seq!["Running reqs: "@ + running + " / Waiting: "@ + waiting]
            &&& s.initial_prompt == "Running: "@ + running + " | Waiting: "@ + waiting
            &&& s.model == model
            &&& s.agent_cli == "vllm"@ && s.session_id == "vllm"@ && s.config_root == "vllm"@
            &&& s.project_name == "vLLM"@ && s.cwd == "/"@
            &&& s.started_at == now_ms
            &&& s.context_window == 32768
            &&& pids.len() == 0 ==> s.pid == 0 && s.mem_mb == 0
            &&& pids.len() > 0 ==> s.pid == pids[0]
            &&& pids.len() > 0 && pids[0] != 0 && info.contains_key(pids[0]) ==> s.mem_mb
                == info[pids[0]].rss_kb / 1024
            &&& s.total_input_tokens == 0 && s.total_output_tokens == 0
            &&& s.total_cache_read == 0 && s.total_cache_create == 0
            &&& s.children.len() == 0 && s.subagents.len() == 0 && s.chat_messages.len() == 0
        }),
{
    lemma_any_busy(info, pids);
    if m.running <= u32::MAX {
        lemma_low_word(m.running);
    }
}

/// The model of a server is the first one that it offers, where that has an identifier.
pub proof fn law_first_model_is_shown(answer: JsonTree, first: JsonTree, rest: Seq<JsonTree>, id: Seq<char>)
    requires
        answer.field("data"@) == JsonTree::Array(seq![first] + rest),
    ensures
        first.field("id"@) == JsonTree::Str(id) ==> offered_model(Some(answer)) == id,
        !(first.field("id"@) is Str) ==> offered_model(Some(answer)) == "vllm-server"@,
        offered_model(None) == "vllm-server"@,
{
    assert((seq![first] + rest)[0] == first);
}

/// A vLLM process is one whose command line mentions vLLM.
pub proof fn law_vllm_is_known_by_its_name(p: ProcInfo, before: Seq<char>, after: Seq<char>)
    ensures
        p.command@ == before + "vllm"@ + after ==> is_vllm(p),
        !contains_text(p.command@, "vllm"@) ==> !is_vllm(p),
{
    law_contained_text_is_found(before, "vllm"@, after, p.command@);
}

/// The fill of a server's context is the share of the cache that its last report of it
/// gives.
pub proof fn law_cache_fill_is_shown(
    lines: Seq<Seq<char>>,
    k: int,
    model: Seq<char>,
    pids: Seq<u32>,
    info: Map<u32, ProcInfo>,
    now_ms: u64,
)
    requires
        0 <= k < lines.len(),
        reports_cache(lines[k]),
        forall|j: int| k < j < lines.len() ==> !reports_cache(#[trigger] lines[j]),
    ensures
        metrics_session(metrics_of(lines), model, pids, info, now_ms).context
            == ContextFillModel::Fraction(words_of(lines[k])[1]),
{
    law_last_report_counts(lines, k);
}

/// Metrics show their own fields.
pub proof fn law_metrics_show_their_fields(m: Metrics)
    ensures
        m@.kv_cache == m.kv_cache@,
        m@.running == m.running,
        m@.waiting == m.waiting,
{
}

} // verus!
