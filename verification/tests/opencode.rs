use llm_top::collector::location::{abbrev_path, join, last_path_segment};
use llm_top::collector::opencode::config::{branch_of_head, config_limit, context_limit};
use llm_top::collector::opencode::jsonc::strip_jsonc_comments;
use llm_top::collector::opencode::matching::lsof_cwd;
use llm_top::collector::opencode::parts::{parts_of_session, read_part, Part};
use llm_top::collector::opencode::paths::{
    config_path, data_dir, locate, paths_equal, AppDataDir, DirEntry, Places,
};
use llm_top::collector::opencode::refresh::Stage;
use llm_top::collector::opencode::rows::{
    model_sql, parts_sql, query_sessions, read_rows, sanitize_db_field, sanitize_db_title,
    session_sql, subagent_sql, truncate_field,
};
use llm_top::collector::opencode::session::SessionFacts;
use llm_top::collector::opencode::{OpenCodeCollector, Tick};
use llm_top::collector::process::{
    descendants, has_active_descendant, tree_rss_kb, CpuLoad, ProcInfo,
};
use llm_top::collector::sanitize::redact_secrets;
use llm_top::collector::SharedProcessData;
use llm_top::json::{parse_json, Json};
use llm_top::model::{ChatRole, ContextFill, Platform, SessionStatus};
use std::collections::{HashMap, HashSet};

fn process(pid: u32, ppid: u32, rss_kb: u64, command: &str) -> ProcInfo {
    ProcInfo {
        pid,
        ppid,
        rss_kb,
        cpu: CpuLoad::Low,
        command: command.to_string(),
    }
}

#[test]
fn test_find_opencode_pids() {
    let mut info = HashMap::new();
    info.insert(
        100,
        process(100, 1, 1000, "/home/user/.opencode/bin/opencode"),
    );
    info.insert(200, process(200, 1, 500, "grep opencode"));
    info.insert(300, process(300, 1, 800, "node /usr/bin/opencode run test"));
    // A subagent process of 100 (should be filtered out)
    info.insert(
        400,
        process(400, 100, 300, "/home/user/.opencode/bin/opencode subagent"),
    );

    let pids = OpenCodeCollector::find_opencode_pids(&info);
    assert!(pids.contains(&100));
    assert!(!pids.contains(&200)); // grep excluded
    assert!(pids.contains(&300));
    assert!(!pids.contains(&400)); // subagent excluded (parent is opencode)
    assert_eq!(pids.len(), 2);
}

#[test]
fn test_db_path_default() {
    let places = Places {
        data_dir: "/home/user/.local/share".to_string(),
        default_exists: false,
        entries: Vec::new(),
        app_data: Vec::new(),
    };
    let collector = OpenCodeCollector::new(&places, Platform::Other);
    let path_str = collector.db_path.as_str();
    assert!(path_str.contains("opencode"));
    assert!(path_str.ends_with("opencode.db"));
    assert_eq!(path_str, "/home/user/.local/share/opencode/opencode.db");
}

#[test]
fn sanitize_db_field_removes_terminal_control_chars() {
    assert_eq!(
        sanitize_db_field("proj\u{202E}\u{0008}name", 512),
        "projname"
    );
}

#[test]
fn sanitize_db_title_redacts_known_secret_prefixes() {
    assert_eq!(
        sanitize_db_title("debug sk-ant-secret-value now"),
        "debug [REDACTED] now"
    );
}

fn matched(pid_commands: &HashMap<u32, &str>, session_dir: &str) -> Option<u32> {
    OpenCodeCollector::match_pid_to_session(
        pid_commands,
        &HashMap::new(),
        session_dir,
        Platform::Other,
    )
}

#[test]
fn match_pid_short_session_dir_never_matches() {
    // An empty directory would be found in every command line, and `/` in every
    // absolute path: neither matches, however many processes run.
    let mut pid_commands: HashMap<u32, &str> = HashMap::new();
    pid_commands.insert(100, "/usr/local/bin/opencode");
    pid_commands.insert(200, "/usr/local/bin/opencode --foo");
    assert_eq!(matched(&pid_commands, ""), None);
    assert_eq!(matched(&pid_commands, "/"), None);
}

#[test]
fn match_pid_no_last_resort_when_cwd_and_cmdline_disagree() {
    // A single running process is no match for a session that neither its working
    // directory nor its command line ties to.
    let mut pid_commands: HashMap<u32, &str> = HashMap::new();
    pid_commands.insert(u32::MAX, "/usr/local/bin/opencode");
    assert_eq!(matched(&pid_commands, "/home/u/proj-a"), None);
}

#[test]
fn match_pid_substring_fallback_still_works() {
    let mut pid_commands: HashMap<u32, &str> = HashMap::new();
    pid_commands.insert(u32::MAX, "node /usr/bin/opencode run --cwd=/home/u/proj-a");
    assert_eq!(matched(&pid_commands, "/home/u/proj-a"), Some(u32::MAX));
}

#[test]
fn match_pid_to_session_once_does_not_reuse_pid_for_old_rows() {
    let mut pid_commands: HashMap<u32, &str> = HashMap::new();
    pid_commands.insert(u32::MAX, "node /usr/bin/opencode run --cwd=/home/u/proj-a");
    let mut claimed_pids = HashSet::new();
    let cwds = HashMap::new();

    assert_eq!(
        OpenCodeCollector::match_pid_to_session_once(
            &pid_commands,
            &cwds,
            "/home/u/proj-a",
            &mut claimed_pids,
            Platform::Other,
        ),
        Some(u32::MAX)
    );
    assert_eq!(
        OpenCodeCollector::match_pid_to_session_once(
            &pid_commands,
            &cwds,
            "/home/u/proj-a",
            &mut claimed_pids,
            Platform::Other,
        ),
        None
    );
}

// ---- places ----

fn places(default_exists: bool, entries: &[(&str, bool)]) -> Places {
    Places {
        data_dir: "/d".to_string(),
        default_exists,
        entries: entries
            .iter()
            .map(|(path, is_file)| DirEntry {
                path: path.to_string(),
                is_file: *is_file,
            })
            .collect(),
        app_data: Vec::new(),
    }
}

#[test]
fn the_database_is_the_default_one_or_the_first_in_its_directory() {
    let entries = [
        ("/d/opencode/a.txt", true),
        ("/d/opencode/.db", true),
        ("/d/opencode/dir.db", false),
        ("/d/opencode/main.db", true),
    ];
    let other = Platform::Other;
    assert_eq!(locate(&places(true, &entries), other), "/d/opencode/opencode.db");
    assert_eq!(locate(&places(false, &entries), other), "/d/opencode/main.db");
    assert_eq!(locate(&places(false, &[]), other), "/d/opencode/opencode.db");
}

#[test]
fn windows_looks_into_the_application_data_last() {
    let mut p = Places {
        data_dir: "C:\\Users\\u\\.local/share".to_string(),
        default_exists: false,
        entries: Vec::new(),
        app_data: vec![
            AppDataDir {
                dir: Some(String::new()),
                holds_file: true,
            },
            AppDataDir {
                dir: Some("C:\\Local".to_string()),
                holds_file: false,
            },
            AppDataDir {
                dir: Some("C:\\Roaming".to_string()),
                holds_file: true,
            },
        ],
    };
    assert_eq!(
        locate(&p, Platform::Windows),
        "C:\\Roaming\\opencode\\opencode.db"
    );
    p.default_exists = true;
    assert_eq!(
        locate(&p, Platform::Windows),
        "C:\\Users\\u\\.local/share\\opencode\\opencode.db"
    );
}

#[test]
fn nothing_separates_a_drive_from_what_is_relative_to_it() {
    assert_eq!(join("C:", "opencode", Platform::Windows), "C:opencode");
    assert_eq!(join("C:\\", "opencode", Platform::Windows), "C:\\opencode");
    assert_eq!(join("CD:", "opencode", Platform::Windows), "CD:\\opencode");
    assert_eq!(join("1:", "opencode", Platform::Windows), "1:\\opencode");
    assert_eq!(join("C:", "opencode", Platform::Other), "C:/opencode");
}

#[test]
fn directories_come_from_the_environment_or_the_home_directory() {
    let other = Platform::Other;
    assert_eq!(data_dir(Some("/x"), Some("/h"), other), "/x");
    assert_eq!(data_dir(None, Some("/h"), other), "/h/.local/share");
    assert_eq!(data_dir(None, None, other), ".local/share");
    assert_eq!(
        config_path(None, Some("/h"), other),
        "/h/.config/opencode/opencode.jsonc"
    );
    assert_eq!(config_path(Some("/c"), None, other), "/c/opencode/opencode.jsonc");
    assert_eq!(config_path(None, None, other), "opencode/opencode.jsonc");
}

#[test]
fn windows_paths_agree_in_all_spellings() {
    assert!(paths_equal("C:\\Work/Proj\\", "c:/work\\proj", Platform::Windows));
    assert!(!paths_equal("C:\\Work", "C:\\Works", Platform::Windows));
    assert!(!paths_equal("/Work", "/work", Platform::Other));
    assert!(paths_equal("/work", "/work", Platform::Other));
}

#[test]
fn lsof_names_the_working_directory() {
    assert_eq!(
        lsof_cwd("p123\nfcwd\nn\nn/home/u/proj\nn/other\n").as_deref(),
        Some("/home/u/proj")
    );
    assert_eq!(lsof_cwd("p123\n"), None);
}

// ---- texts of the database ----

#[test]
fn fields_are_cut_between_characters() {
    assert_eq!(sanitize_db_field("aäb", 2), "a");
    assert_eq!(sanitize_db_field("aäb", 3), "aä");
    let mut s = "äöü".to_string();
    truncate_field(&mut s, 5);
    assert_eq!(s, "äö");
    truncate_field(&mut s, 9);
    assert_eq!(s, "äö");
}

#[test]
fn redaction_is_stable_and_leaves_no_secret() {
    let once = redact_secrets("a ghp_abc, xoxb-1 sk-proj-x\ngithub_pat_9 sk-other");
    assert_eq!(
        once,
        "a [REDACTED] [REDACTED] [REDACTED]\n[REDACTED] sk-other"
    );
    assert_eq!(redact_secrets(&once), once);
}

#[test]
fn comments_are_stripped_outside_of_strings() {
    assert_eq!(
        strip_jsonc_comments("{ // c\n \"a\": \"x // y\", /* z */ \"b\": \"\\\"/*\" }"),
        "{ \n \"a\": \"x // y\",  \"b\": \"\\\"/*\" }\n"
    );
    assert_eq!(strip_jsonc_comments("a\n/* b\nc */ d\n"), "a\n d\n");
    assert_eq!(
        strip_jsonc_comments("{ \"a\": 1, /* b\n c\n*/ \"d\": 2 }"),
        "{ \"a\": 1,  \"d\": 2 }\n"
    );
    assert_eq!(strip_jsonc_comments("plain\ntext"), "plain\ntext\n");
    assert_eq!(
        strip_jsonc_comments("1 / 2 \"a//b\" * /"),
        "1 / 2 \"a//b\" * /\n"
    );
}

#[test]
fn stripping_comments_is_stable() {
    for (text, clean) in [
        ("a /* x", "a \n"),
        ("a /* x\ny", "a \n"),
        ("a\n/* x", "a\n"),
        ("/* x", ""),
        ("", ""),
        ("a /* b */ / /* c */ d // e", "a  /  d \n"),
        ("x /* 1\n2 */ /* 3\n4 */ y", "x   y\n"),
        ("\n\n", "\n\n"),
    ] {
        assert_eq!(strip_jsonc_comments(text), clean);
        assert_eq!(strip_jsonc_comments(clean), clean);
    }
}

// ---- configuration ----

#[test]
fn the_branch_is_its_whole_name_or_the_short_commit() {
    assert_eq!(branch_of_head("ref: refs/heads/main\n"), "main");
    assert_eq!(branch_of_head("ref: refs/heads/feature/x\n"), "feature/x");
    assert_eq!(branch_of_head("ref: refs/remotes/origin/y\n"), "y"); // no branch
    assert_eq!(branch_of_head("ref: refs/heads\n"), "heads");
    assert_eq!(branch_of_head("0123456789abcdef\n"), "0123456");
    assert_eq!(branch_of_head("abc\n"), "");
}

#[test]
fn the_context_limit_is_configured_by_provider_and_model() {
    let config = "{ // limits\n \"provider\": { \"p\": { \"models\": { \"m\": { \"limit\": { \"context\": 4096 } } } } } }";
    assert_eq!(context_limit(config, "p", "m"), Some(4096));
    assert_eq!(context_limit(config, "p", "n"), None);
    assert_eq!(context_limit(config, "q", "m"), None);
    assert_eq!(context_limit("{", "p", "m"), None);
    let tree = parse_json("{\"provider\":{\"p\":{\"models\":{\"m\":{\"limit\":{\"context\":-1}}}}}}");
    assert_eq!(config_limit(&tree.unwrap(), "p", "m"), None);
}

// ---- rows ----

const SESSION_ROWS: &str = r#"[
  {"id":"s1","title":"First ghp_secret","directory":"/home/u/a","version":"1.0","time_created":1000,
   "project_name":"","turn_count":4294967298,"total_input":1,"total_output":2,"total_cache_read":3,
   "total_cache_write":4},
  {"id":"s2","title":"Second","directory":"/home/u/b","version":"1.1","time_created":3000,
   "project_name":"Proj","turn_count":5,"total_input":"x"},
  {"id":"s1","title":"Again","directory":"/nowhere"}
]"#;

const MODEL_ROWS: &str = r#"[
  {"id":"s1","model":"old"},
  {"id":"s1","model":"m1","provider":"p1","last_role":"assistant","last_completed":9,"last_total_tokens":50},
  {"id":"s2","model":"m2","provider":"","last_role":"user"}
]"#;

const SUBAGENT_ROWS: &str = r#"[
  {"id":"x","parent_id":"s2","title":"helper with a title that is longer than thirty","tokens":7,"time_updated":90000},
  {"id":"y","parent_id":"s2","title":"idle","tokens":8,"time_updated":70000},
  {"id":"z","parent_id":"s9","title":"other"}
]"#;

const PART_ROWS: &str = r#"[
  {"session_id":"s2","role":"user","part_data":"{\"type\":\"text\",\"text\":\"hello\\u0007 sk-ant-1\"}"},
  {"session_id":"s2","role":"assistant","part_data":"{\"type\":\"reasoning\",\"text\":\"hm\"}"},
  {"session_id":"s2","role":"assistant","part_data":"{\"type\":\"text\",\"text\":\"  \"}"},
  {"session_id":"s2","role":"assistant","part_data":"{\"type\":\"tool\",\"tool\":\"bash\",\"state\":{\"input\":{\"command\":\"ls\",\"path\":\"/\"},\"time\":{\"start\":5,\"end\":9}}}"},
  {"session_id":"s2","role":"assistant","part_data":"broken"},
  {"session_id":"s3","role":"user","part_data":"{\"type\":\"text\",\"text\":\"other\"}"}
]"#;

fn rows(text: &str) -> Vec<Json> {
    read_rows(text).unwrap()
}

#[test]
fn output_is_blank_or_an_array() {
    assert!(read_rows(" \n").unwrap().is_empty());
    assert_eq!(read_rows("[1,2]\n").unwrap().len(), 2);
    assert!(read_rows("{}").is_none());
    assert!(read_rows("Error: no such table").is_none());
}

#[test]
fn sessions_take_the_last_of_their_models() {
    let sessions = query_sessions(&rows(SESSION_ROWS), &rows(MODEL_ROWS));
    assert_eq!(sessions.len(), 3);
    assert_eq!(sessions[0].title, "First [REDACTED]");
    assert_eq!(sessions[0].turn_count, 2);
    assert_eq!(sessions[0].latest.model, "m1");
    assert_eq!(sessions[0].latest.last_completed, Some(9));
    assert_eq!(sessions[0].latest.last_total_tokens, 50);
    assert_eq!(sessions[1].total_input, 0);
    assert_eq!(sessions[1].latest.last_role, "user");
    assert_eq!(sessions[1].latest.last_completed, None);
    assert_eq!(sessions[2].latest.model, ""); // taken by the first
}

#[test]
fn queries_name_their_limit_and_their_sessions() {
    assert!(session_sql().ends_with("ORDER BY s.time_updated DESC\nLIMIT 50;"));
    assert!(model_sql().ends_with("LIMIT 50;"));
    assert!(subagent_sql().contains("parent_id != ''"));
    let sessions = query_sessions(&rows(SESSION_ROWS), &Vec::new());
    assert!(parts_sql(&sessions).contains("p.session_id IN ('s1','s2','s1')\n"));
}

#[test]
fn parts_become_chat_lines_and_tool_calls() {
    let parts = parts_of_session(&rows(PART_ROWS), "s2");
    assert_eq!(parts.chat.len(), 2);
    assert_eq!(parts.chat[0].text, "hello [REDACTED]");
    assert_eq!(parts.chat[0].role, ChatRole::User);
    assert_eq!(parts.chat[1].role, ChatRole::Assistant);
    assert_eq!(parts.tools.len(), 1);
    assert_eq!(parts.tools[0].name, "bash");
    assert_eq!(parts.tools[0].arg, "ls");
    assert_eq!(parts.tools[0].duration_ms, 4);
}

#[test]
fn the_argument_of_a_tool_is_the_most_telling_one() {
    for (input, arg) in [
        ("{\"filePath\":\"f\",\"pattern\":\"p\"}", "f"),
        ("{\"path\":\"d\",\"pattern\":\"p\"}", "d"),
        ("{\"pattern\":\"p\",\"description\":\"x\"}", "p"),
        ("{\"description\":\"x\",\"a\":\"y\"}", "x"),
        ("{\"a\":\"y\"}", "y"),
        ("{\"a\":1,\"b\":\"z\"}", ""),
        ("{}", ""),
        ("[]", ""),
    ] {
        let text = format!("{{\"type\":\"tool\",\"tool\":\"t\",\"state\":{{\"input\":{}}}}}", input);
        let Part::Tool(call) = read_part(&parse_json(&text).unwrap(), "assistant") else {
            panic!("expected a tool call");
        };
        assert_eq!(call.arg, arg);
        assert_eq!(call.duration_ms, 0);
    }
    let nameless = parse_json("{\"type\":\"tool\"}").unwrap();
    assert!(matches!(read_part(&nameless, "user"), Part::Nothing));
}

// ---- the collector ----

fn collector() -> OpenCodeCollector {
    OpenCodeCollector::new(&places(true, &[]), Platform::Other)
}

fn filled() -> OpenCodeCollector {
    let mut c = collector();
    let mut stage = Stage::Sessions;
    for output in [SESSION_ROWS, MODEL_ROWS, SUBAGENT_ROWS, PART_ROWS] {
        assert!(c.next_query(&stage).is_some());
        stage = c.take_output(stage, Some(output));
    }
    assert!(matches!(stage, Stage::Finished));
    assert!(c.next_query(&stage).is_none());
    c
}

#[test]
fn rows_are_cached_query_by_query() {
    let c = filled();
    assert_eq!(c.cached_db_sessions.len(), 3);
    assert_eq!(c.cached_db_subagents.len(), 3);
    assert_eq!(c.cached_parts.len(), 3);
}

#[test]
fn failed_queries_leave_what_is_cached() {
    let mut c = filled();
    let stage = c.take_output(Stage::Sessions, None);
    assert!(matches!(stage, Stage::Subagents));
    let stage = c.take_output(stage, Some("broken"));
    assert!(matches!(stage, Stage::Parts));
    let stage = c.take_output(stage, None);
    assert!(matches!(stage, Stage::Finished));
    assert_eq!(c.cached_db_sessions.len(), 3);
    assert_eq!(c.cached_db_subagents.len(), 3);
    assert_eq!(c.cached_parts.len(), 3);
}

#[test]
fn without_sessions_there_are_no_parts() {
    let mut c = filled();
    let stage = c.take_output(Stage::Sessions, Some(""));
    let stage = c.take_output(stage, None);
    let stage = c.take_output(stage, None);
    assert!(matches!(stage, Stage::Finished));
    assert!(c.cached_db_sessions.is_empty());
    assert!(c.cached_parts.is_empty());
}

#[test]
fn links_and_missing_databases_are_not_read() {
    for (link, present) in [(true, true), (false, false), (true, false)] {
        let mut c = filled();
        assert_eq!(c.inspected(link, present), Tick::Stop);
        assert!(c.cached_db_sessions.is_empty());
        assert!(c.cached_db_subagents.is_empty());
        assert!(c.cached_parts.is_empty());
    }
    let mut c = filled();
    assert_eq!(c.inspected(false, true), Tick::Probe);
    assert_eq!(c.cached_db_sessions.len(), 3);
    assert_eq!(c.probed(true), Tick::Times);
    assert_eq!(c.inspected(false, true), Tick::Times);
}

#[test]
fn sqlite3_is_tried_once() {
    let mut c = filled();
    assert_eq!(c.probed(false), Tick::Stop);
    assert!(c.cached_db_sessions.is_empty());
    assert!(!c.check_sqlite3(true));
    assert_eq!(c.inspected(false, true), Tick::Stop);
    assert!(c.missing_warning(Platform::Other).is_none());
    let warning = c.missing_warning(Platform::Windows).unwrap();
    assert!(warning.starts_with("abtop: OpenCode database found at /d/opencode/opencode.db but"));
    assert!(c.missing_warning(Platform::Windows).is_none());
}

#[test]
fn rows_are_read_again_when_the_database_changed() {
    let mut c = collector();
    assert_eq!(c.wal_path(Platform::Other), "/d/opencode/opencode.db-wal");
    assert!(c.needs_refresh(false, Some(5), None));
    assert!(!c.needs_refresh(false, Some(5), None));
    assert!(!c.needs_refresh(false, Some(4), None));
    assert!(c.needs_refresh(false, Some(5), Some(1)));
    assert!(c.needs_refresh(true, Some(5), Some(1)));
    assert!(c.needs_refresh(false, Some(6), Some(1)));
    assert_eq!(c.last_db_mtime, Some(6));
}

#[test]
fn a_missing_database_is_looked_for_again() {
    let mut c = collector();
    let found = places(false, &[("/d/opencode/new.db", true)]);
    c.relocate(true, &found, Platform::Other);
    assert_eq!(c.db_path, "/d/opencode/opencode.db");
    c.relocate(false, &found, Platform::Other);
    assert_eq!(c.db_path, "/d/opencode/new.db");
}

fn facts() -> SessionFacts {
    SessionFacts {
        git_branch: "main".to_string(),
        config_window: None,
        default_window: 1000,
    }
}

fn shared() -> SharedProcessData {
    let mut process_info = HashMap::new();
    process_info.insert(10, process(10, 1, 10240, "opencode --cwd=/home/u/a"));
    process_info.insert(20, process(20, 1, 2048, "opencode"));
    process_info.insert(21, process(21, 20, 100, "node server.js"));
    process_info.insert(30, process(30, 1, 1, "opencode"));
    let mut children_map = HashMap::new();
    children_map.insert(20, vec![21, 22]);
    children_map.insert(21, vec![20]); // a cycle
    let mut ports = HashMap::new();
    ports.insert(21, vec![3000, 3001]);
    SharedProcessData {
        process_info,
        children_map,
        ports,
        slow_tick: true,
    }
}

#[test]
fn sessions_are_built_for_running_processes() {
    let c = filled();
    let mut shared = shared();
    let mut cwds = HashMap::new();
    cwds.insert(20, "/home/u/b".to_string());
    let pids = c.match_rows(&shared.process_info, &cwds, Platform::Other);
    assert_eq!(pids, vec![Some(10), Some(20), None]);
    let facts = vec![facts(), facts(), facts()];
    let root = c.config_root(Some("/d"), Platform::Other);
    assert_eq!(root, "~/opencode");
    let sessions = c.build_sessions(&pids, &facts, &shared, 100_000, &root, Platform::Other);
    assert_eq!(sessions.len(), 2);

    let newest = &sessions[0];
    assert_eq!(newest.session_id, "s2");
    assert_eq!(newest.pid, 20);
    assert_eq!(newest.status, SessionStatus::Thinking);
    assert_eq!(newest.current_tasks, vec!["thinking..."]);
    assert_eq!(newest.project_name, "Proj");
    assert_eq!(newest.model, "m2");
    assert_eq!(newest.git_branch, "main");
    assert_eq!(newest.mem_mb, 2); // 2048 and 100 KiB, the circle counted once
    assert_eq!(newest.config_root, "~/opencode");
    assert_eq!(newest.first_assistant_text, "hm");
    assert_eq!(newest.tool_calls.len(), 1);
    assert_eq!(newest.subagents.len(), 2);
    assert_eq!(newest.subagents[0].name, "helper with a title that is lo");
    assert_eq!(newest.subagents[0].status, "working");
    assert_eq!(newest.subagents[1].status, "done");
    let children: Vec<(u32, Option<u16>)> =
        newest.children.iter().map(|p| (p.pid, p.port)).collect();
    assert_eq!(children, vec![(21, Some(3000)), (20, None)]);

    let older = &sessions[1];
    assert_eq!(older.session_id, "s1");
    assert_eq!(older.status, SessionStatus::Waiting);
    assert_eq!(older.current_tasks, vec!["waiting for input"]);
    assert_eq!(older.project_name, "a");
    assert_eq!(older.model, "p1/m1");
    assert!(matches!(
        older.context,
        ContextFill::Tokens {
            used: 50,
            window: 1000
        }
    ));
    assert_eq!(older.total_cache_create, 4);
    assert_eq!(older.mem_mb, 10);

    // A busy process is thinking, whatever the database says.
    shared.process_info.get_mut(&10).unwrap().cpu = CpuLoad::Moderate;
    shared.process_info.get_mut(&21).unwrap().rss_kb = 3072;
    let sessions = c.build_sessions(&pids, &facts, &shared, 100_000, &root, Platform::Other);
    assert_eq!(sessions[1].status, SessionStatus::Thinking);
    // The memory is that of the process tree.
    assert_eq!(sessions[0].mem_mb, 5);
    shared.process_info.get_mut(&21).unwrap().rss_kb = u64::MAX;
    assert_eq!(
        tree_rss_kb(&shared.process_info, &shared.children_map, 20),
        u64::MAX
    );
}

#[test]
fn windows_split_paths_at_both_separators() {
    assert_eq!(
        last_path_segment("C:\\work/proj", Platform::Windows).as_deref(),
        Some("proj")
    );
    assert_eq!(
        last_path_segment("C:\\work", Platform::Windows).as_deref(),
        Some("work")
    );
    assert_eq!(
        last_path_segment("C:\\work", Platform::Other).as_deref(),
        Some("C:\\work")
    );
    assert_eq!(last_path_segment("/", Platform::Other), None);
    assert_eq!(
        abbrev_path("/home/user/x", Some("/home/u"), Platform::Other),
        "/home/user/x"
    );
    assert_eq!(
        abbrev_path("/home/u/x", Some("/home/u"), Platform::Other),
        "~/x"
    );
    assert_eq!(abbrev_path("/home/u", Some("/home/u"), Platform::Other), "~");
    assert_eq!(abbrev_path("/x", None, Platform::Other), "/x");
}

#[test]
fn busy_descendants_are_found_through_cycles() {
    let mut shared = shared();
    assert_eq!(descendants(&shared.children_map, 20), vec![22, 21, 20]);
    assert!(!has_active_descendant(20, &shared.children_map, &shared.process_info));
    shared.process_info.get_mut(&21).unwrap().cpu = CpuLoad::High;
    assert!(has_active_descendant(20, &shared.children_map, &shared.process_info));
    assert!(!has_active_descendant(10, &shared.children_map, &shared.process_info));
}
