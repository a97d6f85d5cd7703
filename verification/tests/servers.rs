use llm_top::collector::auto_discover::{
    identify_lowered, identify_server, listed_models, parse_model_ids, read_probe, server_of,
    AutoDiscoverCollector, DiscoveredServer, Finding,
};
use llm_top::collector::http::{extract_body, payload, received, request};
use llm_top::collector::llama_cpp::{model_of_command, read_slots, LlamaCppCollector};
use llm_top::collector::odysseus::{
    db_candidates, find_odysseus_db, parse_sessions, OdysseusCollector, Plan, SESSIONS_SQL,
};
use llm_top::collector::ollama::OllamaCollector;
use llm_top::collector::process::{CpuLoad, ProcInfo};
use llm_top::collector::vllm::{read_metrics, VllmCollector};
use llm_top::collector::SharedProcessData;
use llm_top::json::parse_json;
use llm_top::model::{ContextFill, Effort, Platform, SessionStatus};
use std::collections::HashMap;

fn shared(processes: &[(u32, CpuLoad, u64, &str)]) -> SharedProcessData {
    let mut process_info = HashMap::new();
    for (pid, cpu, rss_kb, command) in processes {
        process_info.insert(
            *pid,
            ProcInfo {
                pid: *pid,
                ppid: 1,
                rss_kb: *rss_kb,
                cpu: *cpu,
                command: command.to_string(),
            },
        );
    }
    SharedProcessData {
        process_info,
        children_map: HashMap::new(),
        ports: HashMap::new(),
        slow_tick: true,
    }
}

fn effort_text(effort: &Effort) -> &str {
    match effort {
        Effort::Text(text) => text,
        _ => panic!("expected a text"),
    }
}

// ---- HTTP ----

#[test]
fn requests_close_their_connection() {
    assert_eq!(
        request("127.0.0.1:11434", "/api/ps"),
        "GET /api/ps HTTP/1.1\r\nHost: 127.0.0.1:11434\r\nConnection: close\r\nAccept: application/json\r\n\r\n"
    );
}

#[test]
fn bodies_start_after_the_first_blank_line() {
    let raw = "HTTP/1.1 200 OK\r\nServer: x\r\n\r\n{}\r\n\r\nmore";
    assert_eq!(payload(raw), "{}\r\n\r\nmore");
    assert_eq!(extract_body(raw).as_deref(), Some("{}\r\n\r\nmore"));
    assert_eq!(payload("no head"), "no head");
    assert_eq!(extract_body("no head"), None);
    assert_eq!(payload(""), "");
    assert_eq!(received(String::new()), None);
    assert_eq!(received("x".to_string()).as_deref(), Some("x"));
}

// ---- Ollama ----

const PS: &str = r#"{"models":[
  {"name":"llama3:8b","size":8589934592,"size_vram":4294967296,"expires_at":"2026-01-02T03:04:05Z",
   "details":{"family":"llama","parameter_size":"8.0B","quantization_level":"Q4_0"}},
  {"size":1048576,"details":{"family":"qwen"}}
]}"#;

#[test]
fn ollama_models_become_sessions() {
    let collector = OllamaCollector::new();
    assert_eq!(collector.addr, "127.0.0.1:11434");
    let shared = shared(&[
        (10, CpuLoad::Moderate, 1, "/usr/bin/ollama serve"),
        (11, CpuLoad::High, 1, "bash"),
    ]);
    let sessions = collector.collect(Some(PS), &shared, 77);
    assert_eq!(sessions.len(), 2);
    let s = &sessions[0];
    assert_eq!(s.agent_cli, "ollama");
    assert_eq!(s.pid, 10);
    assert_eq!(s.session_id, "llama3:8b");
    assert_eq!(s.model, "llama:8.0B (Q4_0)");
    assert_eq!(s.status, SessionStatus::Waiting);
    assert!(matches!(
        s.effort,
        Effort::GpuShare {
            size_vram: 4294967296,
            size: 8589934592
        }
    ));
    assert_eq!(s.current_tasks, vec!["VRAM: 4096 MB / Total: 8192 MB"]);
    assert_eq!(s.mem_mb, 4096);
    assert_eq!(s.initial_prompt, "Expires: 2026-01-02");
    assert_eq!(s.context_window, 8192);
    assert_eq!(s.started_at, 77);
    let t = &sessions[1];
    assert_eq!(t.session_id, "unknown");
    assert_eq!(t.model, "qwen");
    assert_eq!(effort_text(&t.effort), "CPU only");
    assert_eq!(t.initial_prompt, "Loaded in memory");
    assert_eq!(t.current_tasks, vec!["VRAM: 0 MB / Total: 1 MB"]);
}

#[test]
fn ollama_thinks_while_its_process_is_busy() {
    let shared = shared(&[(10, CpuLoad::High, 1, "ollama serve")]);
    let sessions = OllamaCollector::new().collect(Some(PS), &shared, 0);
    assert_eq!(sessions[0].status, SessionStatus::Thinking);
}

#[test]
fn ollama_without_a_list_of_models_has_no_sessions() {
    let collector = OllamaCollector::new();
    let shared = shared(&[]);
    for response in [None, Some("not json"), Some("{}"), Some("{\"models\":{}}")] {
        assert!(collector.collect(response, &shared, 0).is_empty());
    }
    let sessions = collector.collect(Some(PS), &shared, 0);
    assert_eq!(sessions[0].pid, 0);
}

// ---- llama.cpp ----

const SLOTS: &str = r#"[
  {"state":1,"n_past":10,"n_decoded":1},
  {"is_processing":true,"n_past":20,"n_decoded":2},
  {"state":0,"n_past":30}
]"#;

#[test]
fn llama_cpp_adds_its_slots_up() {
    let collector = LlamaCppCollector::new();
    assert_eq!(collector.addr, "127.0.0.1:8080");
    let shared = shared(&[(
        5,
        CpuLoad::Low,
        4096,
        "/opt/llama-server -m /models/big.gguf --port 8080",
    )]);
    let sessions = collector
        .collect(Some("{\"status\":\"ok\"}"), Some(SLOTS), &shared, 9)
        .unwrap();
    assert_eq!(sessions.len(), 1);
    let s = &sessions[0];
    assert_eq!(s.pid, 5);
    assert_eq!(s.model, "big.gguf");
    assert_eq!(s.status, SessionStatus::Thinking);
    assert_eq!(effort_text(&s.effort), "2/3 slots");
    assert_eq!(s.total_input_tokens, 60);
    assert_eq!(s.total_output_tokens, 3);
    assert_eq!(s.turn_count, 2);
    assert_eq!(s.mem_mb, 4);
    assert_eq!(s.current_tasks, vec!["Active slots: 2 / Total slots: 3"]);
    assert_eq!(s.initial_prompt, "Slots active: 2 / Total: 3");
}

#[test]
fn llama_cpp_needs_a_healthy_server() {
    let collector = LlamaCppCollector::new();
    let shared = shared(&[]);
    assert!(collector.collect(None, None, &shared, 0).unwrap().is_empty());
    assert!(collector
        .collect(Some("down"), Some(SLOTS), &shared, 0)
        .unwrap()
        .is_empty());
    let sessions = collector.collect(Some("{}"), None, &shared, 0).unwrap();
    assert_eq!(sessions[0].model, "llama-server");
    assert_eq!(sessions[0].status, SessionStatus::Waiting);
    assert_eq!(effort_text(&sessions[0].effort), "0/0 slots");
}

#[test]
fn slot_totals_that_do_not_fit_are_noticed() {
    let slots = "[{\"n_past\":18446744073709551615},{\"n_past\":1}]";
    assert!(read_slots(&parse_json(slots).unwrap()).is_none());
    assert!(LlamaCppCollector::new()
        .collect(Some("{}"), Some(slots), &shared(&[]), 0)
        .is_none());
    let totals = read_slots(&parse_json("{}").unwrap()).unwrap();
    assert_eq!(totals.total, 0);
}

#[test]
fn the_model_is_the_file_behind_its_option() {
    assert_eq!(model_of_command("llama-server --model a/b/c.gguf"), "c.gguf");
    assert_eq!(model_of_command("llama-server -m c.gguf"), "c.gguf");
    assert_eq!(model_of_command("llama-server -m"), "llama-server");
    assert_eq!(model_of_command("llama-server"), "llama-server");
}

// ---- vLLM ----

const METRICS: &str = "# HELP vllm:num_requests_running x\n\
vllm:num_requests_running{model_name=\"m\"} 3\n\
vllm:num_requests_waiting 4\n\
vllm_kv_cache_usage_perc{a=\"b\"} 0.25\n\
vllm:kv_cache_usage_perc 0.5\n\
lonely\n";

#[test]
fn vllm_metrics_are_read_line_by_line() {
    let m = read_metrics(METRICS);
    assert_eq!(m.running, 3);
    assert_eq!(m.waiting, 4);
    assert!(matches!(&m.kv_cache, ContextFill::Fraction(text) if text == "0.5"));
    let m = read_metrics("vllm:num_requests_running 2.0\n");
    assert_eq!(m.running, 0);
    assert!(matches!(m.kv_cache, ContextFill::Empty));
}

#[test]
fn vllm_servers_become_sessions() {
    let collector = VllmCollector::new();
    assert_eq!(collector.addr, "127.0.0.1:8000");
    let shared = shared(&[(8, CpuLoad::Low, 2048, "python -m vllm.entrypoints")]);
    let models = "{\"data\":[{\"id\":\"mistral\"},{\"id\":\"other\"}]}";
    let sessions = collector.collect(Some(METRICS), Some(models), &shared, 1);
    assert_eq!(sessions.len(), 1);
    let s = &sessions[0];
    assert_eq!(s.pid, 8);
    assert_eq!(s.model, "mistral");
    assert_eq!(s.status, SessionStatus::Thinking);
    assert_eq!(s.turn_count, 3);
    assert_eq!(s.mem_mb, 2);
    assert_eq!(s.current_tasks, vec!["Running reqs: 3 / Waiting: 4"]);
    assert_eq!(s.initial_prompt, "Running: 3 | Waiting: 4");
    assert!(matches!(&s.effort, Effort::KvCache(ContextFill::Fraction(text)) if text == "0.5"));
    assert!(collector.collect(None, Some(models), &shared, 1).is_empty());
    for answer in [None, Some("x"), Some("{\"data\":[]}"), Some("{\"data\":[{}]}")] {
        let sessions = collector.collect(Some(""), answer, &shared, 1);
        assert_eq!(sessions[0].model, "vllm-server");
        assert_eq!(sessions[0].status, SessionStatus::Waiting);
    }
}

// ---- Odysseus ----

#[test]
fn odysseus_databases_are_looked_for_in_order() {
    let paths = db_candidates(Some("/home/u"), Some("/home/u/.local/share"), Platform::Other);
    assert_eq!(
        paths,
        vec![
            "/root/odysseus/data/app.db",
            "/home/u/odysseus/data/app.db",
            "/home/u/.odysseus/data/app.db",
            "/home/u/.local/share/odysseus/app.db",
        ]
    );
    assert_eq!(
        find_odysseus_db(&paths, &vec![false, false, true, true]),
        "/home/u/.odysseus/data/app.db"
    );
    assert_eq!(
        find_odysseus_db(&paths, &vec![false, false, false, false]),
        "/root/odysseus/data/app.db"
    );
    assert_eq!(
        db_candidates(None, None, Platform::Other)[1],
        "odysseus/data/app.db"
    );
}

const ROWS: &str = "a|First|m1|1000|5000|7|900\nshort|line\nb|Second|m2|x|4600|-1|12|rest\n";

#[test]
fn odysseus_rows_have_seven_fields() {
    let sessions = parse_sessions(ROWS);
    assert_eq!(sessions.len(), 2);
    assert_eq!(sessions[0].id, "a");
    assert_eq!(sessions[0].title, "First");
    assert_eq!(sessions[0].model_id, "m1");
    assert_eq!(sessions[0].created_at, 1000);
    assert_eq!(sessions[0].updated_at, 5000);
    assert_eq!(sessions[0].message_count, 7);
    assert_eq!(sessions[0].total_tokens, 900);
    assert_eq!(sessions[1].created_at, 0);
    assert_eq!(sessions[1].message_count, 0);
    assert_eq!(sessions[1].total_tokens, 0); // "12|rest" is no number
}

#[test]
fn odysseus_refreshes_when_something_changed() {
    let mut c = OdysseusCollector::new("/x/app.db".to_string());
    assert!(SESSIONS_SQL.starts_with("SELECT"));
    assert!(c.check_sqlite3(true));
    assert!(c.check_sqlite3(false)); // what the first trial found is kept
    assert!(c.needs_refresh(false, None)); // nothing is cached
    c.refresh(Some(ROWS), Some(1));
    assert!(!c.needs_refresh(false, Some(1)));
    assert!(c.needs_refresh(true, Some(1)));
    assert!(c.needs_refresh(false, Some(2)));
    assert!(c.needs_refresh(false, None));
    assert_eq!(c.plan(false, Some(1), false), Plan::Show);
    assert_eq!(c.plan(true, Some(1), true), Plan::Query);
    assert_eq!(c.plan(true, Some(1), false), Plan::Nothing);
    c.refresh(None, Some(1));
    assert!(c.cached_sessions.is_empty());
    let fresh = OdysseusCollector::new("/x/app.db".to_string());
    assert_eq!(fresh.plan(true, None, true), Plan::Nothing); // sqlite3 was not tried
}

#[test]
fn odysseus_sessions_age() {
    let mut c = OdysseusCollector::new("/x/app.db".to_string());
    c.refresh(Some(ROWS), None);
    let shared = shared(&[(4, CpuLoad::Low, 1024, "uvicorn app:app --port 7000")]);
    let sessions = c.collect(&shared, 5_299_000).unwrap();
    assert_eq!(sessions[0].status, SessionStatus::Thinking);
    assert_eq!(sessions[1].status, SessionStatus::Waiting);
    assert_eq!(sessions[0].pid, 4);
    assert_eq!(sessions[0].mem_mb, 1);
    assert_eq!(sessions[0].started_at, 1_000_000);
    assert_eq!(effort_text(&sessions[0].effort), "7 msgs");
    assert_eq!(sessions[0].current_tasks, vec!["First"]);
    let sessions = c.collect(&shared, 8_600_000).unwrap();
    assert_eq!(sessions[0].status, SessionStatus::Unknown);
    assert!(c.collect(&shared, 4_999_000).is_none()); // updated in the future
}

// ---- discovery ----

#[test]
fn servers_are_known_by_their_responses() {
    assert_eq!(identify_server(Some("Server: LM Studio/1"), ""), "LM Studio");
    assert_eq!(identify_server(Some("Server: x"), "KOBOLD"), "KoboldCpp");
    assert_eq!(identify_server(None, "{\"owned_by\":\"LiteLLM\"}"), "LiteLLM");
    assert_eq!(identify_server(None, "{}"), "OpenAI-API");
    for (text, name) in [
        ("litellm", "LiteLLM"),
        ("lm-studio", "LM Studio"),
        ("localai", "LocalAI"),
        ("kobold", "KoboldCpp"),
        ("tabby", "TabbyAPI"),
        ("openwebui", "Open WebUI"),
        ("open-webui", "Open WebUI"),
        ("text-generation", "TGW"),
        ("oobabooga", "TGW"),
        ("hermes", "Hermes"),
        ("jan", "Jan"),
        ("odysseus", "Odysseus"),
        ("jan odysseus", "Jan"),
        ("nothing", "OpenAI-API"),
    ] {
        assert_eq!(identify_lowered(Some(text), ""), name);
    }
}

#[test]
fn models_are_listed_under_data_or_models() {
    assert_eq!(
        parse_model_ids("{\"data\":[{\"id\":\"a\"},{\"x\":1},{\"id\":\"b\"}]}"),
        vec!["a", "b"]
    );
    assert_eq!(
        parse_model_ids("{\"data\":[],\"models\":[{\"name\":\"c\"},{\"id\":\"d\",\"name\":\"e\"}]}"),
        vec!["c", "d"]
    );
    assert!(parse_model_ids("nope").is_empty());
    assert!(listed_models(&parse_json("[]").unwrap()).is_empty());
}

#[test]
fn probes_accept_successful_answers_in_json() {
    let body = "{\"data\":[{\"id\":\"a\"}]}";
    let ok = format!("HTTP/1.1 200 OK\r\n\r\n{}", body);
    let found = read_probe(Some(&ok)).unwrap();
    assert_eq!(found.body, body);
    assert_eq!(found.models, vec!["a"]);
    for raw in [
        "HTTP/1.1 404 Not Found\r\n\r\n{\"data\":[{\"id\":\"a\"}]}",
        "HTTP/2 200\r\n\r\n{\"data\":[{\"id\":\"a\"}]}",
        "HTTP/1.1 200 OK",
        "HTTP/1.1 200 OK\r\n\r\nnot json",
    ] {
        assert!(read_probe(Some(raw)).is_none());
    }
    let empty = read_probe(Some("HTTP/1.1 200 OK\r\n\r\n{\"data\":[]}")).unwrap();
    assert!(empty.models.is_empty());
    assert!(read_probe(None).is_none());
}

#[test]
fn each_eligible_port_is_probed_once() {
    let c = AutoDiscoverCollector::new();
    assert_eq!(c.known_ports, vec![11434, 8080, 8000]);
    let mut ports = HashMap::new();
    ports.insert(1, vec![9000, 8080, 80]);
    ports.insert(2, vec![5000, 9000, 50000, 1024, 49151, 49152, 1023]);
    let list = c.ports_to_probe(&ports);
    let only: Vec<u16> = list.iter().map(|p| p.0).collect();
    assert_eq!(only, vec![1024, 5000, 9000, 49151]);
    assert_eq!(list[1], (5000, 2));
}

#[test]
fn servers_without_models_are_shown_too() {
    let mut c = AutoDiscoverCollector::new();
    let mut shared = shared(&[]);
    shared.ports.insert(42, vec![1234]);
    let mut scan = c.begin_scan(&shared.ports);
    let raw = "HTTP/1.1 200 OK\r\n\r\n{\"data\":[]}";
    scan.take_response(Some(raw), &shared.process_info);
    scan.take_response(Some(raw), &shared.process_info);
    assert_eq!(scan.port(), None);
    c.end_scan(scan);
    let sessions = c.build_sessions(0);
    assert_eq!(sessions.len(), 1);
    assert_eq!(sessions[0].pid, 42);
    assert_eq!(sessions[0].config_root, "localhost:1234");
    assert_eq!(sessions[0].model, "-");
    assert_eq!(sessions[0].turn_count, 0);
    assert_eq!(sessions[0].current_tasks, vec!["Port 1234 | 0 model(s)"]);
}

#[test]
fn scans_ask_servers_once_more() {
    let mut c = AutoDiscoverCollector::new();
    assert!(c.needs_scan(false));
    let mut shared = shared(&[(3, CpuLoad::Low, 3072, "lm-studio")]);
    shared.ports.insert(3, vec![1234, 2345]);
    let mut scan = c.begin_scan(&shared.ports);
    assert_eq!(scan.port(), Some(1234));
    scan.take_response(
        Some("HTTP/1.1 200 OK\r\n\r\n{\"data\":[{\"id\":\"a\"},{\"id\":\"b\"},{\"id\":\"c\"}]}"),
        &shared.process_info,
    );
    assert_eq!(scan.port(), Some(1234));
    scan.take_response(
        Some("HTTP/1.1 200 OK\r\nServer: LM-Studio\r\n\r\n{}"),
        &shared.process_info,
    );
    assert_eq!(scan.port(), Some(2345));
    scan.take_response(None, &shared.process_info);
    assert_eq!(scan.port(), None);
    assert_eq!(scan.found.len(), 1);
    assert_eq!(scan.found[0].server_name, "LM Studio");
    assert_eq!(scan.found[0].rss_kb, 3072);
    c.end_scan(scan);
    assert!(!c.needs_scan(false));
    assert!(c.needs_scan(true));
    let sessions = c.build_sessions(42);
    assert_eq!(sessions.len(), 1);
    assert_eq!(sessions[0].pid, 3);
    assert_eq!(sessions[0].model, "a (+2)");
}

#[test]
fn discovered_servers_become_sessions() {
    let mut c = AutoDiscoverCollector::new();
    let shared = shared(&[(3, CpuLoad::Low, 3072, "lm-studio")]);
    let finding = Finding {
        body: "{}".to_string(),
        models: vec!["a".to_string(), "b".to_string(), "c".to_string()],
    };
    let found = server_of(
        1234,
        3,
        finding,
        Some("HTTP/1.1 200 OK\r\nServer: LM-Studio\r\n\r\n{}"),
        &shared.process_info,
    );
    let lonely = DiscoveredServer {
        port: 5555,
        pid: 0,
        server_name: "X".to_string(),
        models: vec!["only".to_string()],
        rss_kb: 0,
    };
    c.cached_servers = vec![found, lonely];
    let sessions = c.build_sessions(42);
    let s = &sessions[0];
    assert_eq!(s.session_id, "LM Studio:1234");
    assert_eq!(s.model, "a (+2)");
    assert_eq!(s.status, SessionStatus::Waiting);
    assert_eq!(effort_text(&s.effort), ":1234");
    assert_eq!(s.turn_count, 3);
    assert_eq!(s.current_tasks, vec!["Port 1234 | 3 model(s)"]);
    assert_eq!(s.mem_mb, 3);
    assert_eq!(s.initial_prompt, "LM Studio on port 1234 (3 models loaded)");
    assert_eq!(s.config_root, "localhost:1234");
    assert_eq!(s.started_at, 42);
    assert_eq!(sessions[1].model, "only");
    assert_eq!(sessions[1].status, SessionStatus::Unknown);
}
