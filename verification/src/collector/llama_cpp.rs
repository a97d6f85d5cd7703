//! A llama.cpp server.
use super::process::{cmd_has_binary, names_binary, pids_where, CpuLoad, ProcInfo};
use super::server::{
    answered, any_busy, is_high, is_listing, lemma_any_busy, primary_of, primary_pid, read_answer, server_mb, server_memory,
    server_status, some_busy, status_when,
};
use super::SharedProcessData;
use crate::json::{parsed_json, trees, Json, JsonTree};
use crate::model::{
    blank_session, AgentSession, ContextFillModel, Effort, EffortModel, SessionModel, SessionStatus,
};
use crate::text::number::{decimal, push_decimal};
use crate::text::scan::{after_last, law_text_is_cut_at_a_character, past_last, words, words_of};
use crate::text::{one_text, same, texts};
use std::collections::HashMap;
use vstd::prelude::*;
use vstd::string::*;

verus! {

broadcast use vstd::std_specs::hash::group_hash_axioms;

/// Collector for a llama.cpp server.
#[derive(Debug)]
pub struct LlamaCppCollector {
    pub addr: String,
}

/// A command line that runs a llama.cpp server.
pub open spec fn is_llama(p: ProcInfo) -> bool {
    names_binary(p.command@, "llama-server"@) || names_binary(p.command@, "llama"@)
}

fn runs_llama(p: &ProcInfo) -> (r: bool)
    ensures
        r == is_llama(*p),
{
    cmd_has_binary(p.command.as_str(), "llama-server") || cmd_has_binary(p.command.as_str(), "llama")
}

/// Whether a slot is at work.
pub open spec fn slot_active(slot: JsonTree) -> bool {
    slot.field("state"@).unsigned_or_zero() == 1 || slot.field("is_processing"@) == JsonTree::Bool(true)
}

/// How many slots are at work.
pub open spec fn active_slots(slots: Seq<JsonTree>) -> nat
    decreases slots.len(),
{
    if slots.len() == 0 {
        0
    } else {
        active_slots(slots.drop_last()) + if slot_active(slots.last()) {
            1nat
        } else {
            0
        }
    }
}

/// The sum of a number that the slots report.
pub open spec fn slot_sum(slots: Seq<JsonTree>, key: Seq<char>) -> nat
    decreases slots.len(),
{
    if slots.len() == 0 {
        0
    } else {
        slot_sum(slots.drop_last(), key) + slots.last().field(key).unsigned_or_zero() as nat
    }
}

/// What the slots of a server add up to.
#[derive(Debug, Clone, Copy)]
pub struct SlotTotals {
    /// Slots at work.
    pub active: u32,
    pub total: usize,
    /// Tokens of prompts.
    pub prompt_tokens: u64,
    /// Tokens that were generated.
    pub gen_tokens: u64,
}

/// Whether what the slots add up to fits the counters.
pub open spec fn totals_fit(slots: Seq<JsonTree>) -> bool {
    &&& active_slots(slots) <= i32::MAX
    &&& slot_sum(slots, "n_past"@) <= u64::MAX
    &&& slot_sum(slots, "n_decoded"@) <= u64::MAX
}

/// Whether `totals` is what the slots add up to.
pub open spec fn totals_of(slots: Seq<JsonTree>, totals: SlotTotals) -> bool {
    &&& totals.active == active_slots(slots)
    &&& totals.total == slots.len()
    &&& totals.prompt_tokens == slot_sum(slots, "n_past"@)
    &&& totals.gen_tokens == slot_sum(slots, "n_decoded"@)
}

proof fn lemma_prefix_sums(slots: Seq<JsonTree>, k: int)
    requires
        0 <= k <= slots.len(),
    ensures
        active_slots(slots.take(k)) <= active_slots(slots),
        slot_sum(slots.take(k), "n_past"@) <= slot_sum(slots, "n_past"@),
        slot_sum(slots.take(k), "n_decoded"@) <= slot_sum(slots, "n_decoded"@),
    decreases slots.len() - k,
{
    if k < slots.len() {
        lemma_prefix_sums(slots, k + 1);
        assert(slots.take(k + 1).drop_last() =~= slots.take(k));
    } else {
        assert(slots.take(k) =~= slots);
    }
}

/// What the slots of a server add up to, where that fits the counters. An answer
/// that is no list has no slots.
pub fn read_slots(slots: &Json) -> (r: Option<SlotTotals>)
    ensures
        match r {
            Some(totals) => totals_fit(slots@.elements()) && totals_of(slots@.elements(), totals),
            None => !totals_fit(slots@.elements()),
        },
{
    let mut totals = SlotTotals { active: 0, total: 0, prompt_tokens: 0, gen_tokens: 0 };
    match slots.as_array() {
        Some(list) => {
            let ghost all = trees(list@);
            totals.total = list.len();
            let mut i: usize = 0;
            assert(all.take(0) =~= Seq::empty());
            while i < list.len()
                invariant
                    i <= list@.len(),
                    all == trees(list@),
                    slots@.elements() == all,
                    totals.total == list@.len(),
                    totals.active == active_slots(all.take(i as int)),
                    totals.active <= i32::MAX,
                    totals.prompt_tokens == slot_sum(all.take(i as int), "n_past"@),
                    totals.gen_tokens == slot_sum(all.take(i as int), "n_decoded"@),
                decreases list@.len() - i,
            {
                let slot = &list[i];
                proof {
                    assert(all.take(i + 1).last() == slot@);
                    assert(all.take(i + 1).drop_last() =~= all.take(i as int));
                    lemma_prefix_sums(all, i + 1);
                }
                if slot.field("state").u64_or_zero() == 1 || slot.field("is_processing").is_true() {
                    if totals.active == 0x7fff_ffff {
                        return None;
                    }
                    totals.active = totals.active + 1;
                }
                match totals.prompt_tokens.checked_add(slot.field("n_past").u64_or_zero()) {
                    Some(sum) => {
                        totals.prompt_tokens = sum;
                    },
                    None => {
                        return None;
                    },
                }
                match totals.gen_tokens.checked_add(slot.field("n_decoded").u64_or_zero()) {
                    Some(sum) => {
                        totals.gen_tokens = sum;
                    },
                    None => {
                        return None;
                    },
                }
                i += 1;
            }
            assert(all.take(i as int) =~= all);
        },
        None => {},
    }
    Some(totals)
}

/// The value of the first word that is `-m` or `--model`: the word after it.
pub open spec fn model_argument(args: Seq<Seq<char>>) -> Option<Seq<char>>
    decreases args.len(),
{
    if args.len() == 0 {
        None
    } else if args[0] == "-m"@ || args[0] == "--model"@ {
        if args.len() > 1 {
            Some(args[1])
        } else {
            None
        }
    } else {
        model_argument(args.drop_first())
    }
}

/// The model that a command line loads: the file name of its model argument.
pub open spec fn loaded_model(command: Seq<char>) -> Seq<char> {
    match model_argument(words_of(command)) {
        Some(path) => after_last(path, '/'),
        None => "llama-server"@,
    }
}

/// The model that a command line loads.
pub fn model_of_command(command: &str) -> (r: String)
    ensures
        r@ == loaded_model(command@),
{
    let args = words(command);
    let ghost all = words_of(command@);
    let mut i: usize = 0;
    assert(all.skip(0) =~= all);
    while i < args.len()
        invariant
            i <= args@.len(),
            texts(args@) == all,
            all == words_of(command@),
            model_argument(all.skip(i as int)) == model_argument(all),
        decreases args@.len() - i,
    {
        assert(texts(args@)[i as int] == args@[i as int]@);
        assert(all.skip(i as int)[0] == args@[i as int]@);
        assert(all.skip(i as int).drop_first() =~= all.skip(i + 1));
        if same(args[i].as_str(), "-m") || same(args[i].as_str(), "--model") {
            if args.len() - i > 1 {
                assert(texts(args@)[i + 1] == args@[i + 1]@);
                assert(all.skip(i as int)[1] == args@[i + 1]@);
                return past_last(args[i + 1].as_str(), '/');
            } else {
                return "llama-server".to_owned();
            }
        }
        i += 1;
    }
    "llama-server".to_owned()
}

/// The model that the server's first process loads.
pub open spec fn server_model(info: Map<u32, ProcInfo>, pids: Seq<u32>) -> Seq<char> {
    if pids.len() > 0 && info.contains_key(pids[0]) {
        loaded_model(info[pids[0]].command@)
    } else {
        "llama-server"@
    }
}

fn find_model(info: &HashMap<u32, ProcInfo>, pids: &Vec<u32>) -> (r: String)
    ensures
        r@ == server_model(info@, pids@),
{
    if pids.len() > 0 {
        match info.get(&pids[0]) {
            Some(p) => {
                return model_of_command(p.command.as_str());
            },
            None => {},
        }
    }
    "llama-server".to_owned()
}

/// The session of a server whose slots add up to `totals`. `pids` are its processes.
pub open spec fn slots_session(
    totals: SlotTotals,
    pids: Seq<u32>,
    info: Map<u32, ProcInfo>,
    now_ms: u64,
) -> SessionModel {
    let active = decimal(totals.active as nat);
    let total = decimal(totals.total as nat);
    SessionModel {
        agent_cli: "llama.cpp"@,
        pid: primary_of(pids),
        session_id: "llama-server"@,
        cwd: "/"@,
        project_name: "Llama.cpp"@,
        started_at: now_ms,
        status: server_status(totals.active > 0 || any_busy(info, pids)),
        model: server_model(info, pids),
        effort: EffortModel::Text(active + "/"@ + total + " slots"@),
        total_input_tokens: totals.prompt_tokens,
        total_output_tokens: totals.gen_tokens,
        turn_count: totals.active,
        current_tasks: seq!["Active slots: "@ + active + " / Total slots: "@ + total],
        mem_mb: server_mb(info, primary_of(pids)),
        context_window: 8192,
        initial_prompt: "Slots active: "@ + active + " / Total: "@ + total,
        config_root: "llama-server"@,
        ..blank_session()
    }
}

/// The document that an answer is taken for: null where there is none.
pub open spec fn answer_or_null(response: Option<&str>) -> JsonTree {
    match answered(response) {
        Some(tree) => tree,
        None => JsonTree::Null,
    }
}

/// Whether `r` is the session of a server with the given slots, seen through one of
/// the orders in which its processes can be listed.
pub open spec fn is_slots_session(
    r: SessionModel,
    slots: Seq<JsonTree>,
    info: Map<u32, ProcInfo>,
    now_ms: u64,
) -> bool {
    exists|totals: SlotTotals, pids: Seq<u32>|
        totals_of(slots, totals) && is_listing(pids, info, |p: ProcInfo| is_llama(p)) && r
            == #[trigger] slots_session(totals, pids, info, now_ms)
}

impl LlamaCppCollector {
    /// A collector for a server on llama.cpp's own port.
    pub fn new() -> (r: LlamaCppCollector)
        ensures
            r.addr@ == "127.0.0.1:8080"@,
    {
        LlamaCppCollector { addr: "127.0.0.1:8080".to_owned() }
    }

    /// The running llama.cpp processes, each once.
    pub fn find_pids(info: &HashMap<u32, ProcInfo>) -> (r: Vec<u32>)
        ensures
            is_listing(r@, info@, |p: ProcInfo| is_llama(p)),
    {
        pids_where(info, runs_llama, Ghost(|p: ProcInfo| is_llama(p)))
    }

    /// The session of a server whose slots add up to `totals`. `pids` are its processes.
    pub fn session(
        totals: &SlotTotals,
        pids: &Vec<u32>,
        info: &HashMap<u32, ProcInfo>,
        now_ms: u64,
    ) -> (r: AgentSession)
        ensures
            r@ == slots_session(*totals, pids@, info@, now_ms),
    {
        let active = totals.active as u64;
        let total = totals.total as u64;
        let mut effort = String::new();
        push_decimal(&mut effort, active);
        effort.append("/");
        push_decimal(&mut effort, total);
        effort.append(" slots");
        assert(effort@ =~= decimal(active as nat) + "/"@ + decimal(total as nat) + " slots"@);
        let mut task = "Active slots: ".to_owned();
        push_decimal(&mut task, active);
        task.append(" / Total slots: ");
        push_decimal(&mut task, total);
        let mut prompt = "Slots active: ".to_owned();
        push_decimal(&mut prompt, active);
        prompt.append(" / Total: ");
        push_decimal(&mut prompt, total);
        let pid = primary_pid(pids);
        AgentSession {
            agent_cli: "llama.cpp",
            pid,
            session_id: "llama-server".to_owned(),
            cwd: "/".to_owned(),
            project_name: "Llama.cpp".to_owned(),
            started_at: now_ms,
            status: status_when(totals.active > 0 || some_busy(info, pids)),
            model: find_model(info, pids),
            effort: Effort::Text(effort),
            total_input_tokens: totals.prompt_tokens,
            total_output_tokens: totals.gen_tokens,
            turn_count: totals.active,
            current_tasks: one_text(task),
            mem_mb: server_memory(info, pid),
            context_window: 8192,
            initial_prompt: prompt,
            config_root: "llama-server".to_owned(),
            ..AgentSession::blank()
        }
    }

    /// Whether a server answers for `/health` with a document: otherwise there is
    /// nothing to ask it for.
    pub fn is_healthy(health: Option<&str>) -> (r: bool)
        ensures
            r == (answered(health) is Some),
    {
        read_answer(health).is_some()
    }

    /// The session of a server that answered for `/health` with a document, and none
    /// of any other. `slots` is its answer for `/slots`. `None` where what the slots
    /// add up to does not fit the counters.
    pub fn collect(
        &self,
        health: Option<&str>,
        slots: Option<&str>,
        shared: &SharedProcessData,
        now_ms: u64,
    ) -> (r: Option<Vec<AgentSession>>)
        ensures
            r is None <==> answered(health) is Some && !totals_fit(answer_or_null(slots).elements()),
            r is Some && answered(health) is None ==> r->Some_0@.len() == 0,
            r is Some && answered(health) is Some ==> r->Some_0@.len() == 1 && is_slots_session(
                r->Some_0@[0]@,
                answer_or_null(slots).elements(),
                shared.process_info@,
                now_ms,
            ),
    {
        if !Self::is_healthy(health) {
            return Some(Vec::new());
        }
        let answer = match read_answer(slots) {
            Some(j) => j,
            None => Json::Null,
        };
        match read_slots(&answer) {
            Some(totals) => {
                let pids = Self::find_pids(&shared.process_info);
                let mut out: Vec<AgentSession> = Vec::new();
                out.push(Self::session(&totals, &pids, &shared.process_info, now_ms));
                assert(out@[0]@ == slots_session(totals, pids@, shared.process_info@, now_ms));
                Some(out)
            },
            None => None,
        }
    }
}

/// The slots add up one by one: each that is at work counts, and each gives its tokens.
pub proof fn law_slots_add_up(slots: Seq<JsonTree>, slot: JsonTree, key: Seq<char>)
    ensures
        active_slots(Seq::empty()) == 0,
        slot_sum(Seq::empty(), key) == 0,
        slot.field("state"@) == JsonTree::Number(Some(1)) ==> active_slots(slots.push(slot))
            == active_slots(slots) + 1,
        slot.field("is_processing"@) == JsonTree::Bool(true) ==> active_slots(slots.push(slot))
            == active_slots(slots) + 1,
        slot.field("state"@) != JsonTree::Number(Some(1)) && slot.field("is_processing"@)
            != JsonTree::Bool(true) ==> active_slots(slots.push(slot)) == active_slots(slots),
        slot_sum(slots.push(slot), key) == slot_sum(slots, key) + slot.field(
            key,
        ).unsigned_or_zero(),
{
    assert(slots.push(slot).drop_last() =~= slots);
}

/// What the slots add up to: how many are at work, how many there are, and the tokens of
/// prompts and of answers.
pub proof fn law_totals_are_the_sums(slots: Seq<JsonTree>, totals: SlotTotals)
    requires
        totals_of(slots, totals),
    ensures
        totals.total == slots.len(),
        totals.active == active_slots(slots),
        totals.active <= totals.total,
        totals.prompt_tokens == slot_sum(slots, "n_past"@),
        totals.gen_tokens == slot_sum(slots, "n_decoded"@),
    decreases slots.len(),
{
    lemma_active_slots(slots);
}

proof fn lemma_active_slots(slots: Seq<JsonTree>)
    ensures
        active_slots(slots) <= slots.len(),
    decreases slots.len(),
{
    if slots.len() > 0 {
        lemma_active_slots(slots.drop_last());
    }
}

/// What is shown of a server: it thinks while a slot is at work or a process is busy.
pub proof fn law_slots_are_shown(
    totals: SlotTotals,
    pids: Seq<u32>,
    info: Map<u32, ProcInfo>,
    now_ms: u64,
)
    ensures
        ({
            let s = slots_session(totals, pids, info, now_ms);
            let active = decimal(totals.active as nat);
            let total = decimal(totals.total as nat);
            &&& s.agent_cli == "llama.cpp"@ && s.project_name == "Llama.cpp"@ && s.cwd == "/"@
            &&& s.session_id == "llama-server"@ && s.config_root == "llama-server"@
            &&& s.started_at == now_ms
            &&& s.context_window == 8192
            &&& s.context == ContextFillModel::Empty
            &&& s.total_input_tokens == totals.prompt_tokens
            &&& s.total_output_tokens == totals.gen_tokens
            &&& s.total_cache_read == 0 && s.total_cache_create == 0
            &&& s.turn_count == totals.active
            &&& s.effort == EffortModel::Text(active + "/"@ + total + " slots"@)
            &&& s.current_tasks == seq!["Active slots: "@ + active + " / Total slots: "@ + total]
            &&& s.initial_prompt == "Slots active: "@ + active + " / Total: "@ + total
            &&& pids.len() == 0 ==> s.pid == 0 && s.mem_mb == 0 && s.model == "llama-server"@
            &&& pids.len() > 0 ==> s.pid == pids[0]
            &&& pids.len() > 0 && pids[0] != 0 && info.contains_key(pids[0]) ==> s.mem_mb
                == info[pids[0]].rss_kb / 1024
            &&& pids.len() > 0 && info.contains_key(pids[0]) ==> s.model == loaded_model(
                info[pids[0]].command@,
            )
            &&& totals.active > 0 ==> s.status == SessionStatus::Thinking
            &&& (exists|i: int| 0 <= i < pids.len() && is_high(info, #[trigger] pids[i]))
                ==> s.status == SessionStatus::Thinking
            &&& totals.active == 0 && (forall|i: int|
                0 <= i < pids.len() ==> !is_high(info, #[trigger] pids[i])) ==> s.status
                == SessionStatus::Waiting
            &&& s.children.len() == 0 && s.subagents.len() == 0 && s.chat_messages.len() == 0
        }),
{
    lemma_any_busy(info, pids);
}

/// The model that a command line loads is the file name in the word after its first `-m` or
/// `--model`.
pub proof fn law_model_follows_its_option(command: Seq<char>, k: int, dir: Seq<char>, name: Seq<char>)
    requires
        0 <= k <= words_of(command).len(),
        forall|i: int|
            0 <= i < k ==> #[trigger] words_of(command)[i] != "-m"@ && words_of(command)[i]
                != "--model"@,
        k < words_of(command).len() ==> words_of(command)[k] == "-m"@ || words_of(command)[k]
            == "--model"@,
        !name.contains('/'),
    ensures
        k + 1 < words_of(command).len() && words_of(command)[k + 1] == dir.push('/') + name
            ==> loaded_model(command) == name,
        k + 1 < words_of(command).len() && words_of(command)[k + 1] == name ==> loaded_model(
            command,
        ) == name,
        k + 1 >= words_of(command).len() ==> loaded_model(command) == "llama-server"@,
{
    lemma_model_argument(words_of(command), k);
    law_text_is_cut_at_a_character(dir, '/', name);
}

proof fn lemma_model_argument(args: Seq<Seq<char>>, k: int)
    requires
        0 <= k <= args.len(),
        forall|i: int| 0 <= i < k ==> #[trigger] args[i] != "-m"@ && args[i] != "--model"@,
        k < args.len() ==> args[k] == "-m"@ || args[k] == "--model"@,
    ensures
        model_argument(args) == if k + 1 < args.len() {
            Some(args[k + 1])
        } else {
            None
        },
    decreases args.len(),
{
    if k > 0 {
        assert(args[0] != "-m"@ && args[0] != "--model"@);
        let rest = args.drop_first();
        assert forall|i: int| 0 <= i < k - 1 implies #[trigger] rest[i] != "-m"@ && rest[i]
            != "--model"@ by {
            assert(rest[i] == args[i + 1]);
        }
        lemma_model_argument(rest, k - 1);
    }
}

/// A llama.cpp process is one whose first or second word is a path to `llama-server` or to
/// `llama`.
pub proof fn law_llama_is_known_by_its_program(p: ProcInfo)
    ensures
        names_binary(p.command@, "llama-server"@) ==> is_llama(p),
        names_binary(p.command@, "llama"@) ==> is_llama(p),
        is_llama(p) ==> names_binary(p.command@, "llama-server"@) || names_binary(
            p.command@,
            "llama"@,
        ),
{
}

/// The slots of a server are those of its answer; an answer that is no list has none.
pub proof fn law_slots_are_those_of_the_answer(slots: Option<&str>, list: Seq<JsonTree>)
    ensures
        slots is None ==> answer_or_null(slots).elements().len() == 0,
        slots matches Some(text) ==> parsed_json(text@) is None ==> answer_or_null(
            slots,
        ).elements().len() == 0,
        slots matches Some(text) ==> parsed_json(text@) == Some(JsonTree::Array(list))
            ==> answer_or_null(slots).elements() == list,
{
}

/// The totals fit where the slots at work can be counted by 31 bits, and the tokens by 64.
pub proof fn law_totals_fit_their_counters(slots: Seq<JsonTree>)
    ensures
        totals_fit(slots) <==> active_slots(slots) <= 0x7fff_ffff && slot_sum(slots, "n_past"@)
            <= 0xffff_ffff_ffff_ffff && slot_sum(slots, "n_decoded"@) <= 0xffff_ffff_ffff_ffff,
{
}

/// The session of a server shows what its slots add up to, whichever of its processes comes
/// first: that process is one of llama.cpp, or there is none.
pub proof fn law_session_shows_what_the_slots_add_up_to(
    r: SessionModel,
    slots: Seq<JsonTree>,
    info: Map<u32, ProcInfo>,
    now_ms: u64,
)
    requires
        is_slots_session(r, slots, info, now_ms),
    ensures
        r.total_input_tokens == slot_sum(slots, "n_past"@),
        r.total_output_tokens == slot_sum(slots, "n_decoded"@),
        r.turn_count == active_slots(slots),
        r.effort == EffortModel::Text(
            decimal(active_slots(slots)) + "/"@ + decimal(slots.len()) + " slots"@,
        ),
        r.started_at == now_ms,
        r.agent_cli == "llama.cpp"@,
        active_slots(slots) > 0 ==> r.status == SessionStatus::Thinking,
        (exists|pid: u32| #[trigger]
            info.contains_key(pid) && is_llama(info[pid]) && info[pid].cpu == CpuLoad::High)
            ==> r.status == SessionStatus::Thinking,
        active_slots(slots) == 0 && (forall|pid: u32| #[trigger]
            info.contains_key(pid) && is_llama(info[pid]) ==> info[pid].cpu != CpuLoad::High)
            ==> r.status == SessionStatus::Waiting,
        r.pid != 0 ==> info.contains_key(r.pid) && is_llama(info[r.pid]) && r.mem_mb
            == info[r.pid].rss_kb / 1024 && r.model == loaded_model(info[r.pid].command@),
        (exists|pid: u32| #[trigger] info.contains_key(pid) && pid != 0 && is_llama(info[pid]))
            && !(info.contains_key(0) && is_llama(info[0])) ==> r.pid != 0,
        (forall|pid: u32| #[trigger] info.contains_key(pid) ==> !is_llama(info[pid])) ==> r.pid == 0
            && r.model == "llama-server"@ && r.mem_mb == 0,
{
    let (totals, pids) = choose|totals: SlotTotals, pids: Seq<u32>|
        totals_of(slots, totals) && is_listing(pids, info, |p: ProcInfo| is_llama(p)) && r
            == #[trigger] slots_session(totals, pids, info, now_ms);
    law_slots_are_shown(totals, pids, info, now_ms);
    assert forall|pid: u32| #[trigger] info.contains_key(pid) && is_llama(info[pid]) implies pids.contains(
        pid,
    ) by {}
    assert forall|i: int| 0 <= i < pids.len() implies info.contains_key(#[trigger] pids[i]) && is_llama(
        info[pids[i]],
    ) by {
        assert(pids.contains(pids[i]));
    }
    if exists|pid: u32| #[trigger]
        info.contains_key(pid) && is_llama(info[pid]) && info[pid].cpu == CpuLoad::High {
        let pid = choose|pid: u32| #[trigger]
            info.contains_key(pid) && is_llama(info[pid]) && info[pid].cpu == CpuLoad::High;
        assert(pids.contains(pid));
        assert(is_high(info, pids[pids.index_of(pid)]));
    }
    if exists|pid: u32| #[trigger] info.contains_key(pid) && pid != 0 && is_llama(info[pid]) {
        let pid = choose|pid: u32| #[trigger] info.contains_key(pid) && pid != 0 && is_llama(info[pid]);
        assert(pids.contains(pid));
        assert(pids.len() > 0);
    }
}

} // verus!
