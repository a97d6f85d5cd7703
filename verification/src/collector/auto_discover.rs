//! Servers with an OpenAI-compatible interface, found by their ports.
//!
//! The ports that local processes listen on are asked for `/v1/models`. A server
//! that answers with JSON is shown as a session.
use super::http::{extract_body, BLANK_LINE};
use super::process::{memory_of, rss_kb, ProcInfo};
use crate::json::{parse_json, parsed_json, trees, Json, JsonTree};
use crate::model::{
    blank_session, session_models, AgentSession, ContextFillModel, Effort, EffortModel, SessionModel, SessionStatus,
};
use crate::text::case::{lowercase, to_lower};
use crate::text::number::{decimal, lemma_low_word, low32, low_word, push_decimal};
use crate::text::scan::{after_separator, contains, contains_text, occurs_at, starts_with};
use crate::text::{one_text, texts};
use std::collections::HashMap;
use vstd::prelude::*;
use vstd::string::*;

verus! {

broadcast use vstd::std_specs::hash::group_hash_axioms;

/// A server that was found.
#[derive(Debug)]
pub struct DiscoveredServer {
    pub port: u16,
    /// Its process, or zero when unknown.
    pub pid: u32,
    pub server_name: String,
    /// The models that it lists.
    pub models: Vec<String>,
    pub rss_kb: u64,
}

/// Collector for servers that no other collector is for.
#[derive(Debug)]
pub struct AutoDiscoverCollector {
    /// Servers of the last scan.
    pub cached_servers: Vec<DiscoveredServer>,
    /// Ports that other collectors take care of.
    pub known_ports: Vec<u16>,
}

/// What gives a server away in its response, in lower case, and its name.
pub open spec fn name_in_response(raw: Seq<char>) -> Option<Seq<char>> {
    if contains_text(raw, "litellm"@) {
        Some("LiteLLM"@)
    } else if contains_text(raw, "lm-studio"@) || contains_text(raw, "lm studio"@) {
        Some("LM Studio"@)
    } else if contains_text(raw, "localai"@) {
        Some("LocalAI"@)
    } else if contains_text(raw, "koboldcpp"@) || contains_text(raw, "kobold"@) {
        Some("KoboldCpp"@)
    } else if contains_text(raw, "tabbyapi"@) || contains_text(raw, "tabby"@) {
        Some("TabbyAPI"@)
    } else if contains_text(raw, "open-webui"@) || contains_text(raw, "openwebui"@) {
        Some("Open WebUI"@)
    } else if contains_text(raw, "text-generation"@) || contains_text(raw, "oobabooga"@) {
        Some("TGW"@)
    } else if contains_text(raw, "hermes"@) {
        Some("Hermes"@)
    } else if contains_text(raw, "jan"@) {
        Some("Jan"@)
    } else if contains_text(raw, "odysseus"@) {
        Some("Odysseus"@)
    } else {
        None
    }
}

/// The name of a server by the body of its response, in lower case.
pub open spec fn name_in_body(body: Seq<char>) -> Seq<char> {
    if contains_text(body, "litellm"@) {
        "LiteLLM"@
    } else if contains_text(body, "kobold"@) {
        "KoboldCpp"@
    } else {
        "OpenAI-API"@
    }
}

/// The name of a server by its response, if there is one, and else by its body,
/// both in lower case.
pub open spec fn server_name(raw: Option<Seq<char>>, body: Seq<char>) -> Seq<char> {
    match raw {
        Some(text) => match name_in_response(text) {
            Some(name) => name,
            None => name_in_body(body),
        },
        None => name_in_body(body),
    }
}

fn find_name(raw: &str) -> (r: Option<&'static str>)
    ensures
        match r {
            Some(name) => name_in_response(raw@) == Some(name@),
            None => name_in_response(raw@) is None,
        },
{
    if contains(raw, "litellm") {
        Some("LiteLLM")
    } else if contains(raw, "lm-studio") || contains(raw, "lm studio") {
        Some("LM Studio")
    } else if contains(raw, "localai") {
        Some("LocalAI")
    } else if contains(raw, "koboldcpp") || contains(raw, "kobold") {
        Some("KoboldCpp")
    } else if contains(raw, "tabbyapi") || contains(raw, "tabby") {
        Some("TabbyAPI")
    } else if contains(raw, "open-webui") || contains(raw, "openwebui") {
        Some("Open WebUI")
    } else if contains(raw, "text-generation") || contains(raw, "oobabooga") {
        Some("TGW")
    } else if contains(raw, "hermes") {
        Some("Hermes")
    } else if contains(raw, "jan") {
        Some("Jan")
    } else if contains(raw, "odysseus") {
        Some("Odysseus")
    } else {
        None
    }
}

/// The name of a server by its response, if there is one, and else by its body,
/// both in lower case.
pub fn identify_lowered(raw: Option<&str>, body: &str) -> (r: String)
    ensures
        r@ == server_name(
            match raw {
                Some(text) => Some(text@),
                None => None,
            },
            body@,
        ),
{
    match raw {
        Some(text) => match find_name(text) {
            Some(name) => {
                return name.to_owned();
            },
            None => {},
        },
        None => {},
    }
    if contains(body, "litellm") {
        "LiteLLM".to_owned()
    } else if contains(body, "kobold") {
        "KoboldCpp".to_owned()
    } else {
        "OpenAI-API".to_owned()
    }
}

/// The name of a server by its response, if there is one, and else by its body. The
/// case of letters does not matter.
pub fn identify_server(raw: Option<&str>, body: &str) -> (r: String)
    ensures
        r@ == server_name(
            match raw {
                Some(text) => Some(lowercase(text@)),
                None => None,
            },
            lowercase(body@),
        ),
{
    let lower_body = to_lower(body);
    match raw {
        Some(text) => {
            let lower = to_lower(text);
            identify_lowered(Some(lower.as_str()), lower_body.as_str())
        },
        None => identify_lowered(None, lower_body.as_str()),
    }
}

/// The texts under `id` in a list of documents, in order.
pub open spec fn ids_of(items: Seq<JsonTree>) -> Seq<Seq<char>>
    decreases items.len(),
{
    if items.len() == 0 {
        Seq::empty()
    } else {
        match items.last().field("id"@) {
            JsonTree::Str(id) => ids_of(items.drop_last()).push(id),
            _ => ids_of(items.drop_last()),
        }
    }
}

/// The texts under `id`, or else under `name`, in a list of documents, in order.
pub open spec fn names_of(items: Seq<JsonTree>) -> Seq<Seq<char>>
    decreases items.len(),
{
    if items.len() == 0 {
        Seq::empty()
    } else {
        match items.last().field("id"@) {
            JsonTree::Str(id) => names_of(items.drop_last()).push(id),
            _ => match items.last().field("name"@) {
                JsonTree::Str(name) => names_of(items.drop_last()).push(name),
                _ => names_of(items.drop_last()),
            },
        }
    }
}

/// The models that an answer lists: under `data`, or else under `models`.
pub open spec fn model_ids(answer: JsonTree) -> Seq<Seq<char>> {
    let ids = ids_of(answer.field("data"@).elements());
    if ids.len() > 0 {
        ids
    } else {
        names_of(answer.field("models"@).elements())
    }
}

fn read_ids(items: &Vec<Json>) -> (r: Vec<String>)
    ensures
        texts(r@) == ids_of(trees(items@)),
{
    let ghost all = trees(items@);
    let mut out: Vec<String> = Vec::new();
    let mut i: usize = 0;
    assert(texts(out@) =~= ids_of(all.take(0)));
    while i < items.len()
        invariant
            i <= items@.len(),
            all == trees(items@),
            texts(out@) == ids_of(all.take(i as int)),
        decreases items@.len() - i,
    {
        assert(all.take(i + 1).last() == items@[i as int]@);
        assert(all.take(i + 1).drop_last() =~= all.take(i as int));
        match items[i].field("id").as_str() {
            Some(id) => {
                let s = id.to_owned();
                assert(texts(out@.push(s)) =~= texts(out@).push(s@));
                out.push(s);
            },
            None => {},
        }
        i += 1;
    }
    assert(all.take(i as int) =~= all);
    out
}

fn read_names(items: &Vec<Json>) -> (r: Vec<String>)
    ensures
        texts(r@) == names_of(trees(items@)),
{
    let ghost all = trees(items@);
    let mut out: Vec<String> = Vec::new();
    let mut i: usize = 0;
    assert(texts(out@) =~= names_of(all.take(0)));
    while i < items.len()
        invariant
            i <= items@.len(),
            all == trees(items@),
            texts(out@) == names_of(all.take(i as int)),
        decreases items@.len() - i,
    {
        assert(all.take(i + 1).last() == items@[i as int]@);
        assert(all.take(i + 1).drop_last() =~= all.take(i as int));
        let found = match items[i].field("id").as_str() {
            Some(id) => Some(id),
            None => items[i].field("name").as_str(),
        };
        match found {
            Some(name) => {
                let s = name.to_owned();
                assert(texts(out@.push(s)) =~= texts(out@).push(s@));
                out.push(s);
            },
            None => {},
        }
        i += 1;
    }
    assert(all.take(i as int) =~= all);
    out
}

/// The models that an answer lists.
pub fn listed_models(answer: &Json) -> (r: Vec<String>)
    ensures
        texts(r@) == model_ids(answer@),
{
    let ids: Vec<String> = match answer.field("data").as_array() {
        Some(items) => read_ids(items),
        None => Vec::new(),
    };
    assert(texts(ids@) =~= ids_of(answer@.field("data"@).elements()));
    if ids.len() > 0 {
        return ids;
    }
    let names: Vec<String> = match answer.field("models").as_array() {
        Some(items) => read_names(items),
        None => Vec::new(),
    };
    assert(texts(names@) =~= names_of(answer@.field("models"@).elements()));
    names
}

/// The models that the body of an answer lists; none where it is no JSON.
pub open spec fn models_in(body: Seq<char>) -> Seq<Seq<char>> {
    match parsed_json(body) {
        Some(answer) => model_ids(answer),
        None => Seq::empty(),
    }
}

/// The models that the body of an answer lists.
pub fn parse_model_ids(body: &str) -> (r: Vec<String>)
    ensures
        texts(r@) == models_in(body@),
{
    match parse_json(body) {
        Some(answer) => listed_models(&answer),
        None => {
            let none: Vec<String> = Vec::new();
            assert(texts(none@) =~= Seq::empty());
            none
        },
    }
}

/// What follows the head of a response that passes for a successful one: its text starts
/// with `HTTP/1.` and holds `200` somewhere, in the head or in the body.
pub open spec fn ok_body(raw: Seq<char>) -> Option<Seq<char>> {
    if occurs_at(raw, "HTTP/1."@, 0) && contains_text(raw, "200"@) {
        after_separator(raw, BLANK_LINE@)
    } else {
        None
    }
}

/// What follows the head of a response whose text starts with `HTTP/1.` and holds `200`
/// somewhere, in the head or in the body.
pub fn successful_body(raw: &str) -> (r: Option<String>)
    ensures
        match r {
            Some(body) => ok_body(raw@) == Some(body@),
            None => ok_body(raw@) is None,
        },
{
    if starts_with(raw, "HTTP/1.") && contains(raw, "200") {
        extract_body(raw)
    } else {
        None
    }
}

/// What a probe found: the body of the response, and the models that it lists.
#[derive(Debug)]
pub struct Finding {
    pub body: String,
    pub models: Vec<String>,
}

/// Whether a response passes for a successful one and has a JSON document as its body.
pub open spec fn answers_json(raw: Option<&str>) -> bool {
    raw is Some && ok_body(raw->Some_0@) is Some && parsed_json(
        ok_body(raw->Some_0@)->Some_0,
    ) is Some
}

/// What a probe found, where it met a server that answers with JSON. `raw` is the
/// response for `/v1/models`, if there is one.
pub fn read_probe(raw: Option<&str>) -> (r: Option<Finding>)
    ensures
        r is Some <==> answers_json(raw),
        r is Some ==> r->Some_0.body@ == ok_body(raw->Some_0@)->Some_0 && texts(r->Some_0.models@)
            == models_in(r->Some_0.body@),
{
    match raw {
        Some(text) => match successful_body(text) {
            Some(body) => match parse_json(body.as_str()) {
                Some(answer) => {
                    let models = listed_models(&answer);
                    Some(Finding { body, models })
                },
                None => None,
            },
            None => None,
        },
        None => None,
    }
}

/// Whether a port is one to probe: no other collector takes care of it, and it
/// belongs neither to the system nor to the ephemeral ports.
pub open spec fn is_eligible(known: Seq<u16>, port: u16) -> bool {
    !known.contains(port) && 1024 <= port <= 49151
}

/// Whether a process listens on a port.
pub open spec fn listens(ports: Map<u32, Vec<u16>>, pid: u32, port: u16) -> bool {
    ports.contains_key(pid) && ports[pid]@.contains(port)
}

/// Whether `list` names the eligible ports, each once and in ascending order, with a
/// process that listens on it.
pub open spec fn is_probe_list(list: Seq<(u16, u32)>, known: Seq<u16>, ports: Map<u32, Vec<u16>>) -> bool {
    &&& forall|i: int, j: int| 0 <= i < j < list.len() ==> list[i].0 < list[j].0
    &&& forall|i: int|
        0 <= i < list.len() ==> is_eligible(known, (#[trigger] list[i]).0) && listens(
            ports,
            list[i].1,
            list[i].0,
        )
    &&& forall|pid: u32, port: u16| #[trigger]
        listens(ports, pid, port) && is_eligible(known, port) ==> names_port(list, port)
}

/// Whether a list names a port.
pub open spec fn names_port(list: Seq<(u16, u32)>, port: u16) -> bool {
    exists|i: int| 0 <= i < list.len() && (#[trigger] list[i]).0 == port
}

fn eligible(known: &Vec<u16>, port: u16) -> (r: bool)
    ensures
        r == is_eligible(known@, port),
{
    if port < 1024 || port > 49151 {
        return false;
    }
    let mut i: usize = 0;
    while i < known.len()
        invariant
            i <= known@.len(),
            forall|k: int| 0 <= k < i ==> known@[k] != port,
            1024 <= port <= 49151,
        decreases known@.len() - i,
    {
        if known[i] == port {
            assert(known@.contains(port));
            return false;
        }
        i += 1;
    }
    true
}

/// Adds a port to an ascending list, unless it is there.
fn add_port(list: &mut Vec<(u16, u32)>, port: u16, pid: u32)
    requires
        forall|i: int, j: int| 0 <= i < j < old(list)@.len() ==> old(list)@[i].0 < old(list)@[j].0,
    ensures
        forall|i: int, j: int| 0 <= i < j < final(list)@.len() ==> final(list)@[i].0 < final(list)@[j].0,
        forall|i: int|
            0 <= i < final(list)@.len() ==> (#[trigger] final(list)@[i]) == (port, pid) || old(
                list,
            )@.contains(final(list)@[i]),
        forall|p: u16| #[trigger] names_port(final(list)@, p) <==> names_port(old(list)@, p) || p == port,
{
    let ghost before = list@;
    let mut at: usize = 0;
    while at < list.len() && list[at].0 < port
        invariant
            at <= list@.len(),
            list@ == before,
            forall|k: int| 0 <= k < at ==> (#[trigger] list@[k]).0 < port,
        decreases list@.len() - at,
    {
        at += 1;
    }
    if at < list.len() && list[at].0 == port {
        assert(before[at as int].0 == port);
        assert(names_port(before, port));
        assert forall|i: int| 0 <= i < before.len() implies before.contains(#[trigger] before[i]) by {}
        return;
    }
    list.insert(at, (port, pid));
    proof {
        let after = list@;
        assert(after == before.insert(at as int, (port, pid)));
        assert forall|i: int| 0 <= i < after.len() implies (#[trigger] after[i]) == (port, pid)
            || before.contains(after[i]) by {
            if i < at {
                assert(before[i] == after[i]);
            } else if i > at {
                assert(before[i - 1] == after[i]);
            }
        }
        assert forall|p: u16| #[trigger] names_port(after, p) <==> names_port(before, p) || p == port by {
            if names_port(before, p) {
                let i = choose|i: int| 0 <= i < before.len() && (#[trigger] before[i]).0 == p;
                if i < at {
                    assert(after[i] == before[i]);
                } else {
                    assert(after[i + 1] == before[i]);
                }
            }
            if p == port {
                assert(after[at as int].0 == p);
            }
            if names_port(after, p) && p != port {
                let i = choose|i: int| 0 <= i < after.len() && (#[trigger] after[i]).0 == p;
                if i < at {
                    assert(after[i] == before[i]);
                } else {
                    assert(after[i] == before[i - 1]);
                }
            }
        }
    }
}

/// The models of a server as they are shown: the first one, and how many more there
/// are; a dash where there is none.
pub open spec fn models_text(models: Seq<Seq<char>>) -> Seq<char> {
    if models.len() == 0 {
        "-"@
    } else if models.len() == 1 {
        models[0]
    } else {
        models[0] + " (+"@ + decimal((models.len() - 1) as nat) + ")"@
    }
}

/// The session of a server that was found.
pub open spec fn server_session(server: DiscoveredServer, now_ms: u64) -> SessionModel {
    let port = decimal(server.port as nat);
    let count = decimal(server.models@.len());
    SessionModel {
        agent_cli: "auto"@,
        pid: server.pid,
        session_id: server.server_name@ + ":"@ + port,
        cwd: "/"@,
        project_name: server.server_name@,
        started_at: now_ms,
        status: if server.pid != 0 {
            SessionStatus::Waiting
        } else {
            SessionStatus::Unknown
        },
        model: models_text(texts(server.models@)),
        effort: EffortModel::Text(":"@ + port),
        turn_count: low_word(server.models@.len() as u64),
        current_tasks: seq!["Port "@ + port + " | "@ + count + " model(s)"@],
        mem_mb: server.rss_kb / 1024,
        initial_prompt: server.server_name@ + " on port "@ + port + " ("@ + count
            + " models loaded)"@,
        config_root: "localhost:"@ + port,
        ..blank_session()
    }
}

fn show_models(models: &Vec<String>) -> (r: String)
    ensures
        r@ == models_text(texts(models@)),
{
    if models.len() == 0 {
        return "-".to_owned();
    }
    let mut out = models[0].clone();
    if models.len() != 1 {
        out.append(" (+");
        push_decimal(&mut out, (models.len() - 1) as u64);
        out.append(")");
    }
    out
}

fn build_session(server: &DiscoveredServer, now_ms: u64) -> (r: AgentSession)
    ensures
        r@ == server_session(*server, now_ms),
{
    let port = server.port as u64;
    let count = server.models.len() as u64;
    let mut session_id = server.server_name.clone();
    session_id.append(":");
    push_decimal(&mut session_id, port);
    let mut effort = ":".to_owned();
    push_decimal(&mut effort, port);
    let mut task = "Port ".to_owned();
    push_decimal(&mut task, port);
    task.append(" | ");
    push_decimal(&mut task, count);
    task.append(" model(s)");
    let mut prompt = server.server_name.clone();
    prompt.append(" on port ");
    push_decimal(&mut prompt, port);
    prompt.append(" (");
    push_decimal(&mut prompt, count);
    prompt.append(" models loaded)");
    let mut root = "localhost:".to_owned();
    push_decimal(&mut root, port);
    AgentSession {
        agent_cli: "auto",
        pid: server.pid,
        session_id,
        cwd: "/".to_owned(),
        project_name: server.server_name.clone(),
        started_at: now_ms,
        status: if server.pid != 0 {
            SessionStatus::Waiting
        } else {
            SessionStatus::Unknown
        },
        model: show_models(&server.models),
        effort: Effort::Text(effort),
        turn_count: low32(count),
        current_tasks: one_text(task),
        mem_mb: server.rss_kb / 1024,
        initial_prompt: prompt,
        config_root: root,
        ..AgentSession::blank()
    }
}

/// Whether `r` is the server that a probe found on a port. `raw` is its response for
/// `/v1/models`, asked for once more, if there is one.
pub open spec fn is_server(
    r: DiscoveredServer,
    port: (u16, u32),
    finding: Finding,
    raw: Option<&str>,
    info: Map<u32, ProcInfo>,
) -> bool {
    &&& r.port == port.0
    &&& r.pid == port.1
    &&& r.models == finding.models
    &&& r.rss_kb == memory_of(info, port.1)
    &&& r.server_name@ == server_name(
        match raw {
            Some(text) => Some(lowercase(text@)),
            None => None,
        },
        lowercase(finding.body@),
    )
}

/// The server that a probe found on a port.
pub fn server_of(
    port: u16,
    pid: u32,
    finding: Finding,
    raw: Option<&str>,
    info: &HashMap<u32, ProcInfo>,
) -> (r: DiscoveredServer)
    ensures
        is_server(r, (port, pid), finding, raw, info@),
{
    DiscoveredServer {
        port,
        pid,
        server_name: identify_server(raw, finding.body.as_str()),
        rss_kb: rss_kb(info, pid),
        models: finding.models,
    }
}

/// A scan of ports in progress. Each port is asked for `/v1/models`; a server that
/// answers with JSON is asked once more, to be identified.
#[derive(Debug)]
pub struct PortScan {
    /// The ports to probe, each with a process that listens on it.
    pub ports: Vec<(u16, u32)>,
    /// The position of the port whose turn it is.
    pub at: usize,
    /// What the first response of this port showed.
    pub finding: Option<Finding>,
    /// The servers that were found.
    pub found: Vec<DiscoveredServer>,
}

/// Whether a server has one of the ports, with the process that stands beside it.
pub open spec fn is_among(ports: Seq<(u16, u32)>, server: DiscoveredServer) -> bool {
    exists|k: int| 0 <= k < ports.len() && #[trigger] ports[k] == (server.port, server.pid)
}

proof fn lemma_stays_among(ports: Seq<(u16, u32)>, n: int, server: DiscoveredServer)
    requires
        0 <= n < ports.len(),
        is_among(ports.take(n), server),
    ensures
        is_among(ports.take(n + 1), server),
        exists|k: int| 0 <= k < n && #[trigger] ports[k] == (server.port, server.pid),
{
    let k = choose|k: int| 0 <= k < n && #[trigger] ports.take(n)[k] == (server.port, server.pid);
    assert(ports.take(n + 1)[k] == (server.port, server.pid));
    assert(ports[k] == (server.port, server.pid));
}

impl PortScan {
    /// The ports ascend. The servers that were found are in their order, each with a port
    /// whose turn is over and the process that stands beside it.
    pub open spec fn wf(self) -> bool {
        &&& self.at <= self.ports@.len()
        &&& forall|i: int, j: int| 0 <= i < j < self.ports@.len() ==> self.ports@[i].0 < self.ports@[j].0
        &&& forall|i: int|
            0 <= i < self.found@.len() ==> is_among(
                self.ports@.take(self.at as int),
                #[trigger] self.found@[i],
            )
        &&& forall|i: int, j: int| 0 <= i < j < self.found@.len() ==> self.found@[i].port < self.found@[j].port
    }

    /// The port to ask, unless the scan is over.
    pub fn port(&self) -> (r: Option<u16>)
        ensures
            r == (if self.at < self.ports@.len() {
                Some(self.ports@[self.at as int].0)
            } else {
                None
            }),
    {
        if self.at < self.ports.len() {
            Some(self.ports[self.at].0)
        } else {
            None
        }
    }

    /// Takes in the response of the port whose turn it is, if there is one.
    pub fn take_response(&mut self, raw: Option<&str>, info: &HashMap<u32, ProcInfo>)
        requires
            old(self).wf(),
            old(self).at < old(self).ports@.len(),
        ensures
            final(self).wf(),
            final(self).ports == old(self).ports,
            match old(self).finding {
                None => {
                    &&& final(self).found == old(self).found
                    &&& if answers_json(raw) {
                        &&& final(self).at == old(self).at
                        &&& final(self).finding is Some
                        &&& final(self).finding->Some_0.body@ == ok_body(raw->Some_0@)->Some_0
                        &&& texts(final(self).finding->Some_0.models@) == models_in(
                            ok_body(raw->Some_0@)->Some_0,
                        )
                    } else {
                        final(self).at == old(self).at + 1 && final(self).finding is None
                    }
                },
                Some(finding) => {
                    &&& final(self).at == old(self).at + 1
                    &&& final(self).finding is None
                    &&& final(self).found@.len() == old(self).found@.len() + 1
                    &&& final(self).found@.drop_last() == old(self).found@
                    &&& is_server(
                        final(self).found@.last(),
                        old(self).ports@[old(self).at as int],
                        finding,
                        raw,
                        info@,
                    )
                },
            },
    {
        assert(self.at < self.ports.len());
        proof {
            let all = self.ports@;
            let n = self.at as int;
            assert forall|i: int| 0 <= i < self.found@.len() implies is_among(
                all.take(n + 1),
                #[trigger] self.found@[i],
            ) && self.found@[i].port < all[n].0 by {
                lemma_stays_among(all, n, self.found@[i]);
            }
            assert(all.take(n + 1)[n] == all[n]);
        }
        let mut pending: Option<Finding> = None;
        std::mem::swap(&mut pending, &mut self.finding);
        match pending {
            None => match read_probe(raw) {
                Some(finding) => {
                    self.finding = Some(finding);
                },
                None => {
                    self.at = self.at + 1;
                },
            },
            Some(finding) => {
                let (port, pid) = self.ports[self.at];
                let server = server_of(port, pid, finding, raw, info);
                self.found.push(server);
                self.at = self.at + 1;
                assert(self.found@.drop_last() =~= old(self).found@);
            },
        }
    }
}

/// The servers that a scan finds have strictly ascending ports, so that none is found
/// twice. Each has a port that its process listens on, and no port that another collector
/// takes care of, that belongs to the system, or that is ephemeral.
pub proof fn law_found_servers_listen(scan: PortScan, known: Seq<u16>, ports: Map<u32, Vec<u16>>)
    requires
        scan.wf(),
        is_probe_list(scan.ports@, known, ports),
    ensures
        forall|i: int, j: int| 0 <= i < j < scan.found@.len() ==> scan.found@[i].port < scan.found@[j].port,
        forall|i: int|
            0 <= i < scan.found@.len() ==> is_eligible(known, (#[trigger] scan.found@[i]).port)
                && listens(ports, scan.found@[i].pid, scan.found@[i].port),
{
    assert forall|i: int| 0 <= i < scan.found@.len() implies is_eligible(
        known,
        (#[trigger] scan.found@[i]).port,
    ) && listens(ports, scan.found@[i].pid, scan.found@[i].port) by {
        let server = scan.found@[i];
        let seen = scan.ports@.take(scan.at as int);
        assert(is_among(seen, server));
        let k = choose|k: int| 0 <= k < seen.len() && #[trigger] seen[k] == (server.port, server.pid);
        assert(scan.ports@[k] == (server.port, server.pid));
    }
}

impl AutoDiscoverCollector {
    /// A collector that leaves the ports of Ollama, llama.cpp and vLLM alone.
    pub fn new() -> (r: AutoDiscoverCollector)
        ensures
            r.cached_servers@.len() == 0,
            r.known_ports@ == seq![11434u16, 8080u16, 8000u16],
    {
        let mut known_ports: Vec<u16> = Vec::new();
        known_ports.push(11434);
        known_ports.push(8080);
        known_ports.push(8000);
        assert(known_ports@ =~= seq![11434u16, 8080u16, 8000u16]);
        AutoDiscoverCollector { cached_servers: Vec::new(), known_ports }
    }

    /// Whether the ports have to be probed: on slow ticks, and while no server is known.
    pub fn needs_scan(&self, slow_tick: bool) -> (r: bool)
        ensures
            r == (slow_tick || self.cached_servers@.len() == 0),
    {
        slow_tick || self.cached_servers.len() == 0
    }

    /// The ports to probe, in ascending order, each with a process that listens on it.
    pub fn ports_to_probe(&self, ports: &HashMap<u32, Vec<u16>>) -> (r: Vec<(u16, u32)>)
        ensures
            is_probe_list(r@, self.known_ports@, ports@),
            forall|i: int, k: int|
                0 <= i < r@.len() && 0 <= k < self.known_ports@.len() ==> r@[i].0
                    != self.known_ports@[k],
            forall|i: int| 0 <= i < r@.len() ==> 1024 <= (#[trigger] r@[i]).0 <= 49151,
    {
        let mut out: Vec<(u16, u32)> = Vec::new();
        for (pid, list) in it: ports.iter()
            invariant
                forall|i: int|
                    0 <= i < it.seq().len() ==> ports@.contains_key(*(#[trigger] it.seq()[i]).0)
                        && ports@[*it.seq()[i].0] == *it.seq()[i].1,
                forall|k: u32| #[trigger] ports@.contains_key(k) ==> it.seq().contains((&k, &ports@[k])),
                forall|i: int, j: int| 0 <= i < j < out@.len() ==> out@[i].0 < out@[j].0,
                forall|i: int|
                    0 <= i < out@.len() ==> is_eligible(self.known_ports@, (#[trigger] out@[i]).0)
                        && listens(ports@, out@[i].1, out@[i].0),
                forall|i: int, port: u16|
                    0 <= i < it.index() && #[trigger] it.seq()[i].1@.contains(port) && is_eligible(
                        self.known_ports@,
                        port,
                    ) ==> names_port(out@, port),
        {
            assert(it.seq()[it.index()] == (pid, list));
            let mut k: usize = 0;
            let ghost before = out@;
            while k < list.len()
                invariant
                    k <= list@.len(),
                    ports@.contains_key(*pid),
                    ports@[*pid] == *list,
                    forall|i: int, j: int| 0 <= i < j < out@.len() ==> out@[i].0 < out@[j].0,
                    forall|i: int|
                        0 <= i < out@.len() ==> is_eligible(self.known_ports@, (#[trigger] out@[i]).0)
                            && listens(ports@, out@[i].1, out@[i].0),
                    forall|p: u16| #[trigger] names_port(before, p) ==> names_port(out@, p),
                    forall|i: int|
                        0 <= i < k && is_eligible(self.known_ports@, #[trigger] list@[i]) ==> names_port(
                            out@,
                            list@[i],
                        ),
                decreases list@.len() - k,
            {
                let port = list[k];
                if eligible(&self.known_ports, port) {
                    let ghost so_far = out@;
                    add_port(&mut out, port, *pid);
                    assert(list@.contains(port));
                    assert(names_port(out@, port));
                    assert forall|i: int| 0 <= i < out@.len() implies is_eligible(
                        self.known_ports@,
                        (#[trigger] out@[i]).0,
                    ) && listens(ports@, out@[i].1, out@[i].0) by {
                        if out@[i] != (port, *pid) {
                            let j = so_far.index_of(out@[i]);
                            assert(so_far[j] == out@[i]);
                        }
                    }
                    assert forall|i: int|
                        0 <= i < k && is_eligible(self.known_ports@, #[trigger] list@[i]) implies names_port(
                        out@,
                        list@[i],
                    ) by {
                        assert(names_port(so_far, list@[i]));
                    }
                    assert forall|p: u16| #[trigger] names_port(before, p) implies names_port(out@, p) by {
                        assert(names_port(so_far, p));
                    }
                }
                k += 1;
            }
            assert forall|i: int, port: u16|
                0 <= i < it.index() + 1 && #[trigger] it.seq()[i].1@.contains(port) && is_eligible(
                    self.known_ports@,
                    port,
                ) implies names_port(out@, port) by {
                if i < it.index() {
                    assert(names_port(before, port));
                } else {
                    let at = list@.index_of(port);
                    assert(list@[at] == port);
                }
            }
        }
        assert forall|pid: u32, port: u16| #[trigger]
            listens(ports@, pid, port) && is_eligible(self.known_ports@, port) implies names_port(
            out@,
            port,
        ) by {
            assert(ports@.contains_key(pid));
        }
        out
    }

    /// Starts to probe the ports.
    pub fn begin_scan(&self, ports: &HashMap<u32, Vec<u16>>) -> (r: PortScan)
        ensures
            r.wf(),
            is_probe_list(r.ports@, self.known_ports@, ports@),
            r.at == 0,
            r.finding is None,
            r.found@.len() == 0,
    {
        PortScan { ports: self.ports_to_probe(ports), at: 0, finding: None, found: Vec::new() }
    }

    /// Keeps the servers that a scan found.
    pub fn end_scan(&mut self, scan: PortScan)
        ensures
            *final(self) == (AutoDiscoverCollector { cached_servers: scan.found, ..*old(self) }),
    {
        self.cached_servers = scan.found;
    }

    /// The sessions of the servers that are known.
    pub fn build_sessions(&self, now_ms: u64) -> (r: Vec<AgentSession>)
        ensures
            session_models(r@) == self.cached_servers@.map_values(
                |server: DiscoveredServer| server_session(server, now_ms),
            ),
    {
        let mut out: Vec<AgentSession> = Vec::new();
        let mut i: usize = 0;
        while i < self.cached_servers.len()
            invariant
                i <= self.cached_servers@.len(),
                out@.len() == i,
                forall|k: int|
                    0 <= k < i ==> (#[trigger] out@[k])@ == server_session(self.cached_servers@[k], now_ms),
            decreases self.cached_servers@.len() - i,
        {
            out.push(build_session(&self.cached_servers[i], now_ms));
            i += 1;
        }
        assert(session_models(out@) =~= self.cached_servers@.map_values(
            |server: DiscoveredServer| server_session(server, now_ms),
        ));
        out
    }
}

/// No port that another collector takes care of is probed, nor one of the system or an
/// ephemeral one; each is probed at most once.
pub proof fn law_known_ports_are_not_probed(
    list: Seq<(u16, u32)>,
    known: Seq<u16>,
    ports: Map<u32, Vec<u16>>,
    i: int,
    k: int,
)
    requires
        is_probe_list(list, known, ports),
        0 <= i < list.len(),
    ensures
        0 <= k < known.len() ==> list[i].0 != known[k],
        1024 <= list[i].0 <= 49151,
        0 <= k < list.len() && k != i ==> list[i].0 != list[k].0,
        ports.contains_key(list[i].1),
        ports[list[i].1]@.contains(list[i].0),
{
    assert(is_eligible(known, list[i].0));
    if 0 <= k < known.len() {
        assert(known.contains(known[k]));
    }
}

/// The ports of Ollama, llama.cpp and vLLM are never probed by a collector as it is made.
pub proof fn law_own_ports_are_not_probed(list: Seq<(u16, u32)>, ports: Map<u32, Vec<u16>>, i: int)
    requires
        is_probe_list(list, seq![11434u16, 8080u16, 8000u16], ports),
        0 <= i < list.len(),
    ensures
        list[i].0 != 11434,
        list[i].0 != 8080,
        list[i].0 != 8000,
{
    let known = seq![11434u16, 8080u16, 8000u16];
    assert(known[0] == 11434 && known[1] == 8080 && known[2] == 8000);
    law_known_ports_are_not_probed(list, known, ports, i, 0);
    law_known_ports_are_not_probed(list, known, ports, i, 1);
    law_known_ports_are_not_probed(list, known, ports, i, 2);
}

/// Every other port that some process listens on is probed.
pub proof fn law_other_ports_are_probed(
    list: Seq<(u16, u32)>,
    known: Seq<u16>,
    ports: Map<u32, Vec<u16>>,
    pid: u32,
    port: u16,
)
    requires
        is_probe_list(list, known, ports),
        ports.contains_key(pid),
        ports[pid]@.contains(port),
        1024 <= port <= 49151,
        forall|k: int| 0 <= k < known.len() ==> known[k] != port,
    ensures
        exists|i: int| 0 <= i < list.len() && (#[trigger] list[i]).0 == port,
{
    assert(listens(ports, pid, port));
    assert(is_eligible(known, port));
    assert(names_port(list, port));
}

/// A server is known by what its response mentions first in this list, and by its body only
/// where the response mentions none of them.
pub proof fn law_servers_are_known_by_name(raw: Seq<char>, body: Seq<char>)
    ensures
        contains_text(raw, "litellm"@) ==> server_name(Some(raw), body) == "LiteLLM"@,
        !contains_text(raw, "litellm"@) && (contains_text(raw, "lm-studio"@) || contains_text(
            raw,
            "lm studio"@,
        )) ==> server_name(Some(raw), body) == "LM Studio"@,
        ({
            let none_before = !contains_text(raw, "litellm"@) && !contains_text(raw, "lm-studio"@)
                && !contains_text(raw, "lm studio"@);
            let none_of_five = none_before && !contains_text(raw, "localai"@) && !contains_text(
                raw,
                "kobold"@,
            ) && !contains_text(raw, "koboldcpp"@);
            let none_of_seven = none_of_five && !contains_text(raw, "tabby"@) && !contains_text(
                raw,
                "tabbyapi"@,
            ) && !contains_text(raw, "open-webui"@) && !contains_text(raw, "openwebui"@);
            let none_of_nine = none_of_seven && !contains_text(raw, "text-generation"@)
                && !contains_text(raw, "oobabooga"@) && !contains_text(raw, "hermes"@);
            &&& none_before && contains_text(raw, "localai"@) ==> server_name(Some(raw), body)
                == "LocalAI"@
            &&& none_before && !contains_text(raw, "localai"@) && (contains_text(raw, "kobold"@)
                || contains_text(raw, "koboldcpp"@)) ==> server_name(Some(raw), body)
                == "KoboldCpp"@
            &&& none_of_five && (contains_text(raw, "tabby"@) || contains_text(raw, "tabbyapi"@))
                ==> server_name(Some(raw), body) == "TabbyAPI"@
            &&& none_of_five && !contains_text(raw, "tabby"@) && !contains_text(raw, "tabbyapi"@)
                && (contains_text(raw, "open-webui"@) || contains_text(raw, "openwebui"@))
                ==> server_name(Some(raw), body) == "Open WebUI"@
            &&& none_of_seven && (contains_text(raw, "text-generation"@) || contains_text(
                raw,
                "oobabooga"@,
            )) ==> server_name(Some(raw), body) == "TGW"@
            &&& none_of_seven && !contains_text(raw, "text-generation"@) && !contains_text(
                raw,
                "oobabooga"@,
            ) && contains_text(raw, "hermes"@) ==> server_name(Some(raw), body) == "Hermes"@
            &&& none_of_nine && contains_text(raw, "jan"@) ==> server_name(Some(raw), body)
                == "Jan"@
            &&& none_of_nine && !contains_text(raw, "jan"@) && contains_text(raw, "odysseus"@)
                ==> server_name(Some(raw), body) == "Odysseus"@
            &&& none_of_nine && !contains_text(raw, "jan"@) && !contains_text(raw, "odysseus"@)
                ==> server_name(Some(raw), body) == server_name(None, body)
        }),
        contains_text(body, "litellm"@) ==> server_name(None, body) == "LiteLLM"@,
        !contains_text(body, "litellm"@) && contains_text(body, "kobold"@) ==> server_name(
            None,
            body,
        ) == "KoboldCpp"@,
        !contains_text(body, "litellm"@) && !contains_text(body, "kobold"@) ==> server_name(
            None,
            body,
        ) == "OpenAI-API"@,
{
}

/// The models of an answer are the identifiers of its entries in their order; entries
/// without one are passed over.
pub proof fn law_models_are_listed_in_order(items: Seq<JsonTree>, next: JsonTree, text: Seq<char>)
    ensures
        ids_of(Seq::empty()).len() == 0,
        next.field("id"@) == JsonTree::Str(text) ==> ids_of(items.push(next)) == ids_of(items).push(
            text,
        ),
        !(next.field("id"@) is Str) ==> ids_of(items.push(next)) == ids_of(items),
        names_of(Seq::empty()).len() == 0,
        next.field("id"@) == JsonTree::Str(text) ==> names_of(items.push(next)) == names_of(
            items,
        ).push(text),
        !(next.field("id"@) is Str) && next.field("name"@) == JsonTree::Str(text) ==> names_of(
            items.push(next),
        ) == names_of(items).push(text),
        !(next.field("id"@) is Str) && !(next.field("name"@) is Str) ==> names_of(items.push(next))
            == names_of(items),
{
    assert(items.push(next).drop_last() =~= items);
}

/// The models stand under `data`; only where there is none, those under `models` count.
pub proof fn law_data_comes_before_models(answer: JsonTree, data: Seq<JsonTree>, models: Seq<JsonTree>)
    requires
        answer.field("data"@) == JsonTree::Array(data) || (!(answer.field("data"@) is Array)
            && data.len() == 0),
        answer.field("models"@) == JsonTree::Array(models) || (!(answer.field("models"@) is Array)
            && models.len() == 0),
    ensures
        ids_of(data).len() > 0 ==> model_ids(answer) == ids_of(data),
        ids_of(data).len() == 0 ==> model_ids(answer) == names_of(models),
{
    assert(data.len() == 0 ==> data =~= Seq::empty());
    assert(models.len() == 0 ==> models =~= Seq::empty());
}

/// A response that starts with `HTTP/1.` and holds `200` gives what follows its first blank
/// line, and any other gives nothing.
pub proof fn law_body_follows_the_head(head: Seq<char>, body: Seq<char>)
    requires
        after_separator(head + "\r\n\r\n"@ + body, "\r\n\r\n"@) == Some(body),
    ensures
        ({
            let raw = head + "\r\n\r\n"@ + body;
            &&& occurs_at(raw, "HTTP/1."@, 0) && contains_text(raw, "200"@) ==> ok_body(raw)
                == Some(body)
            &&& !occurs_at(raw, "HTTP/1."@, 0) ==> ok_body(raw) is None
            &&& !contains_text(raw, "200"@) ==> ok_body(raw) is None
        }),
{
}

/// What is shown of a server that was found.
pub proof fn law_server_is_shown(server: DiscoveredServer, now_ms: u64)
    ensures
        ({
            let s = server_session(server, now_ms);
            let port = decimal(server.port as nat);
            let count = decimal(server.models@.len());
            &&& s.agent_cli == "auto"@
            &&& s.pid == server.pid
            &&& s.project_name == server.server_name@
            &&& s.session_id == server.server_name@ + ":"@ + port
            &&& s.cwd == "/"@
            &&& s.started_at == now_ms
            &&& s.config_root == "localhost:"@ + port
            &&& s.effort == EffortModel::Text(":"@ + port)
            &&& s.mem_mb == server.rss_kb / 1024
            &&& s.status == SessionStatus::Waiting <==> server.pid != 0
            &&& s.status == SessionStatus::Unknown <==> server.pid == 0
            &&& server.models@.len() <= u32::MAX ==> s.turn_count == server.models@.len()
            &&& s.current_tasks == seq!["Port "@ + port + " | "@ + count + " model(s)"@]
            &&& s.initial_prompt == server.server_name@ + " on port "@ + port + " ("@ + count
                + " models loaded)"@
            &&& server.models@.len() == 0 ==> s.model == "-"@
            &&& server.models@.len() == 1 ==> s.model == server.models@[0]@
            &&& server.models@.len() > 1 ==> s.model == server.models@[0]@ + " (+"@ + decimal(
                (server.models@.len() - 1) as nat,
            ) + ")"@
            &&& s.context == ContextFillModel::Empty
            &&& s.context_window == 0
            &&& s.total_input_tokens == 0 && s.total_output_tokens == 0
            &&& s.total_cache_read == 0 && s.total_cache_create == 0
            &&& s.children.len() == 0 && s.subagents.len() == 0 && s.chat_messages.len() == 0
        }),
{
    if server.models@.len() <= u32::MAX {
        lemma_low_word(server.models@.len() as u64);
    }
}

/// A server is found where its response is a successful one with a JSON body, whatever the
/// body lists.
pub proof fn law_json_answers_are_found(raw: &str, answer: JsonTree)
    ensures
        !answers_json(None),
        ok_body(raw@) is None ==> !answers_json(Some(raw)),
        ok_body(raw@) matches Some(body) ==> (parsed_json(body) is Some <==> answers_json(Some(raw))),
        ok_body(raw@) matches Some(body) ==> (parsed_json(body) == Some(answer) ==> models_in(body)
            == model_ids(answer)),
        ok_body(raw@) matches Some(body) ==> (parsed_json(body) is None ==> models_in(body).len() == 0),
{
}

/// A server that was found has the port and the process that were probed, the models that
/// it listed, the memory of its process, and the name that its responses give.
pub proof fn law_found_server_is_described(
    r: DiscoveredServer,
    port: u16,
    pid: u32,
    finding: Finding,
    raw: &str,
    info: Map<u32, ProcInfo>,
)
    ensures
        is_server(r, (port, pid), finding, Some(raw), info) || is_server(
            r,
            (port, pid),
            finding,
            None,
            info,
        ) ==> {
            &&& r.port == port
            &&& r.pid == pid
            &&& r.models@ == finding.models@
            &&& info.contains_key(pid) ==> r.rss_kb == info[pid].rss_kb
            &&& !info.contains_key(pid) ==> r.rss_kb == 0
        },
        is_server(r, (port, pid), finding, Some(raw), info) ==> r.server_name@ == server_name(
            Some(lowercase(raw@)),
            lowercase(finding.body@),
        ),
        is_server(r, (port, pid), finding, None, info) ==> r.server_name@ == server_name(
            None,
            lowercase(finding.body@),
        ),
{
}

} // verus!
