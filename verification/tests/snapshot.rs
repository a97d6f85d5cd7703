use llm_top::app::{App, McpServer, RateLimitInfo, ViewFlags};
use llm_top::model::{
    AgentSession, ChatMessage, ChatRole, Real, SessionStatus, SubAgent, ToolCall,
};
use llm_top::snapshot::{epoch_ms, tail};

fn flags() -> ViewFlags {
    ViewFlags {
        tree_view: false,
        show_timeline: false,
        show_file_audit: false,
        show_context: true,
        show_quota: true,
        show_tokens: true,
        show_projects: true,
        show_ports: true,
        show_sessions: true,
        show_mcp: true,
        mcp_suppress_sessions: true,
    }
}

fn session(n: u64) -> AgentSession {
    let mut s = AgentSession::blank();
    s.agent_cli = "opencode";
    s.pid = 100 + n as u32;
    s.session_id = format!("session-{}", n);
    s.started_at = 1_000 * n;
    s.status = SessionStatus::Thinking;
    s.total_input_tokens = 1;
    s.total_output_tokens = 20;
    s.total_cache_read = 300;
    s.total_cache_create = 4_000;
    s.current_tasks = vec!["read".to_string(), "write".to_string()];
    s.token_history = (0..100).collect();
    for i in 0..40 {
        s.subagents.push(SubAgent {
            name: format!("agent-{}", i),
            status: "done".to_string(),
            tokens: i,
        });
        s.tool_calls.push(ToolCall {
            name: "Bash".to_string(),
            arg: format!("ls {}", i),
            duration_ms: i,
        });
        s.chat_messages.push(ChatMessage {
            role: if i % 2 == 0 {
                ChatRole::User
            } else {
                ChatRole::Assistant
            },
            text: format!("line {}", i),
        });
    }
    s
}

type DemoApp = App<(f64, f64), u32, String>;

fn demo_app() -> DemoApp {
    App {
        sessions: vec![session(2), session(1)],
        rate_limits: vec![RateLimitInfo {
            source: "codex".to_string(),
            five_hour_pct: Some(Real {
                bits: 12.5f64.to_bits(),
            }),
            five_hour_resets_at: Some(10),
            seven_day_pct: None,
            seven_day_resets_at: None,
            updated_at: Some(5),
        }],
        orphan_ports: vec!["3000".to_string()],
        mcp_servers: vec![McpServer {
            pid: 7,
            parent_cli: "codex",
            profile: Some("fast".to_string()),
            mem_kb: 2048,
            active_count: 1,
            rollout_count: 3,
            latest_mtime: Some(5_000_000_000),
        }],
        token_rates: vec![
            Real {
                bits: 1.0f64.to_bits(),
            },
            Real {
                bits: 2.5f64.to_bits(),
            },
        ],
        host_metrics: Some((0.5, 0.25)),
        agent_aggregate: 2,
        view: flags(),
    }
}

fn summaries(app: &DemoApp) -> Vec<String> {
    app.sessions
        .iter()
        .map(|s| format!("summary of {}", s.session_id))
        .collect()
}

const NOW: i128 = 9_500_000_000;

#[test]
fn tail_keeps_last_n_and_handles_short_inputs() {
    let v = vec![1, 2, 3, 4, 5];
    assert_eq!(tail(&v, 2), vec![4, 5]); // last n
    assert_eq!(tail(&v, 5), vec![1, 2, 3, 4, 5]); // exact fit
    assert_eq!(tail(&v, 9), vec![1, 2, 3, 4, 5]); // n > len → full clone
    assert_eq!(tail(&v, 0), Vec::<i32>::new()); // n = 0 → empty
    assert_eq!(tail(&Vec::<i32>::new(), 3), Vec::<i32>::new()); // empty input
}

#[test]
fn epoch_ms_is_monotonic_and_zero_at_unix_epoch() {
    assert_eq!(epoch_ms(0), Some(0));
    let later = 1_500 * 1_000_000;
    assert_eq!(epoch_ms(later), Some(1_500));
}

#[test]
fn epoch_ms_has_nothing_before_the_epoch() {
    assert_eq!(epoch_ms(-1), None);
    assert_eq!(epoch_ms(999_999), Some(0));
    assert_eq!(epoch_ms((1i128 << 64) * 1_000_000), Some(0));
}

#[test]
fn session_status_serializes_as_variant_name() {
    // These strings are part of the JSON interface.
    for (status, wire) in [
        (SessionStatus::Thinking, "\"Thinking\""),
        (SessionStatus::Executing, "\"Executing\""),
        (SessionStatus::Waiting, "\"Waiting\""),
        (SessionStatus::Unknown, "\"Unknown\""),
        (SessionStatus::RateLimited, "\"RateLimited\""),
        (SessionStatus::Done, "\"Done\""),
    ] {
        assert_eq!(serde_json::to_string(status.wire_name()).unwrap(), wire);
    }
}

#[test]
fn to_snapshot_is_a_pure_read() {
    let app = demo_app();
    let before = app.sessions.len();
    let a = app.to_snapshot(2_000, NOW, &summaries(&app), 30);
    let b = app.to_snapshot(2_000, NOW, &summaries(&app), 30);
    // No mutation of the App, and repeated calls agree on shape.
    assert_eq!(app.sessions.len(), before);
    assert_eq!(a.sessions.len(), b.sessions.len());
    assert_eq!(a.sessions.len(), before);
}

#[test]
fn to_snapshot_maps_fields_and_passes_interval_through() {
    let app = demo_app();
    let snap = app.to_snapshot(1_234, NOW, &summaries(&app), 30);

    assert_eq!(snap.interval_ms, 1_234);
    assert!(snap.generated_at_ms > 0);
    assert!(!snap.sessions.is_empty());
    assert!(snap.host.is_some(), "demo populates host metrics");
    assert!(!snap.rate_limits.is_empty(), "demo populates rate limits");

    for s in &snap.sessions {
        // Bounded tails.
        assert!(s.token_history.len() <= 64);
        assert!(s.tool_calls.len() <= 24);
        // Chat roles map to the stable wire strings only.
        for m in &s.chat_messages {
            assert!(m.role == "user" || m.role == "assistant");
        }
    }
}

#[test]
fn snapshots_differ_in_what_depends_on_the_clock_only() {
    let app = demo_app();
    let a = app.to_snapshot(2_000, NOW, &summaries(&app), 30);
    let mut b = app.to_snapshot(2_000, NOW + 3_000_000_000, &summaries(&app), 30);
    assert_eq!(b.generated_at_ms, a.generated_at_ms + 3_000);
    b.generated_at_ms = a.generated_at_ms;
    for (s, t) in a.sessions.iter().zip(b.sessions.iter_mut()) {
        assert_eq!(t.elapsed_secs, s.elapsed_secs + 3);
        t.elapsed_secs = s.elapsed_secs;
    }
    assert_eq!(format!("{:?}", a), format!("{:?}", b));
}

#[test]
fn a_snapshot_shows_what_the_monitor_holds() {
    let app = demo_app();
    assert!(app.can_be_shown());
    let snap = app.to_snapshot(2_000, NOW, &summaries(&app), 30);
    assert_eq!(snap.generated_at_ms, 9_500);
    assert_eq!(snap.host, Some((0.5, 0.25)));
    assert_eq!(snap.aggregate, 2);
    assert_eq!(f64::from_bits(snap.token_rate.bits), 2.5);
    assert_eq!(snap.orphan_ports, vec!["3000".to_string()]);
    assert_eq!(snap.rate_limits[0].source, "codex");

    let s = &snap.sessions[0];
    assert_eq!(s.session_id, "session-2");
    assert_eq!(s.summary, "summary of session-2");
    assert_eq!(s.total_tokens, 4_321);
    assert_eq!(s.started_at_ms, 2_000);
    assert_eq!(s.elapsed_secs, 7);
    assert_eq!(s.current_task.as_deref(), Some("write"));
    assert_eq!(s.token_history, (36..100).collect::<Vec<u64>>());
    assert_eq!(s.subagents.len(), 16);
    assert_eq!(s.subagents[0].name, "agent-24");
    assert_eq!(s.tool_calls.len(), 24);
    assert_eq!(s.tool_calls[23].arg, "ls 39");
    assert_eq!(s.chat_messages.len(), 30);
    assert_eq!(s.chat_messages[0].text, "line 10");
    assert_eq!(s.chat_messages[0].role, "user");
    assert_eq!(s.chat_messages[1].role, "assistant");

    let m = &snap.mcp_servers[0];
    assert_eq!(m.profile.as_deref(), Some("fast"));
    assert_eq!(m.active_count, 1);
    assert_eq!(m.rollout_count, 3);
    assert_eq!(m.last_activity_ms, Some(5_000));
}

#[test]
fn a_snapshot_of_a_fresh_monitor_has_no_rate() {
    let mut app = demo_app();
    app.token_rates.clear();
    app.sessions.clear();
    let snap = app.to_snapshot(2_000, -5, &Vec::new(), 30);
    assert_eq!(f64::from_bits(snap.token_rate.bits), 0.0);
    assert_eq!(snap.generated_at_ms, 0);
    assert!(snap.sessions.is_empty());
}

#[test]
fn totals_that_do_not_fit_are_noticed() {
    let mut app = demo_app();
    assert_eq!(app.total_tokens(), Some(8_642));
    app.sessions[0].total_input_tokens = u64::MAX;
    assert!(!app.can_be_shown());
    assert_eq!(app.total_tokens(), None);
}
