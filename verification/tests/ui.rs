use llm_top::app::{McpServer, RateLimitInfo, ViewFlags};
use llm_top::model::Real;
use llm_top::ui::help::{entries, help_popup, HelpLine};
use llm_top::ui::layout::{inside, popup, Area};
use llm_top::ui::mcp::{fmt_age, panel_rows, Activity, McpRow};
use llm_top::ui::quota::{
    bar_width, column_area, column_rows, find_limit, format_reset_time, inner_area, stale, totals_area,
    QuotaLabels, QuotaRow,
};
use llm_top::ui::view_menu::{items, view_popup, ViewState};
use llm_top::ui::{help, view_menu};

fn labels() -> QuotaLabels {
    QuotaLabels {
        within: "in".to_string(),
        second: "s".to_string(),
        minute: "m".to_string(),
        hour: "h".to_string(),
        day: "d".to_string(),
        no_data: "no data".to_string(),
        codex_hint: "run codex".to_string(),
        setup_source: "gemini".to_string(),
        setup_hint: "run setup".to_string(),
        five_hours: "5h".to_string(),
        seven_days: "7d".to_string(),
    }
}

fn limits(source: &str, updated_at: Option<u64>) -> RateLimitInfo {
    RateLimitInfo {
        source: source.to_string(),
        five_hour_pct: Some(Real {
            bits: 40.0f64.to_bits(),
        }),
        five_hour_resets_at: Some(1_090),
        seven_day_pct: Some(Real {
            bits: 70.0f64.to_bits(),
        }),
        seven_day_resets_at: Some(900),
        updated_at,
    }
}

fn server(active: usize, open: usize, latest: Option<i128>) -> McpServer {
    McpServer {
        pid: 1,
        parent_cli: "codex",
        profile: None,
        mem_kb: 1,
        active_count: active,
        rollout_count: open,
        latest_mtime: latest,
    }
}

#[test]
fn fmt_age_buckets() {
    assert_eq!(fmt_age(5), "5s ago");
    assert_eq!(fmt_age(125), "2m ago");
    assert_eq!(fmt_age(7_200), "2h ago");
    assert_eq!(fmt_age(172_800), "2d ago");
}

#[test]
fn fmt_age_changes_units_at_full_ones() {
    assert_eq!(fmt_age(0), "0s ago");
    assert_eq!(fmt_age(59), "59s ago");
    assert_eq!(fmt_age(60), "1m ago");
    assert_eq!(fmt_age(3_599), "59m ago");
    assert_eq!(fmt_age(3_600), "1h ago");
    assert_eq!(fmt_age(86_399), "23h ago");
    assert_eq!(fmt_age(86_400), "1d ago");
}

#[test]
fn mcp_panel_without_servers_says_so() {
    let rows = panel_rows(&Vec::new(), &Vec::new(), 0, false);
    assert_eq!(rows.len(), 2);
    assert!(matches!(rows[0], McpRow::Header));
    assert!(matches!(rows[1], McpRow::NoServers));
}

#[test]
fn mcp_panel_lists_the_servers() {
    let servers = vec![
        server(2, 12, Some(1_000_000_000)),
        server(0, 1, Some(200_000_000_000)),
        server(0, 0, None),
    ];
    let profiles = vec![Some("work".to_string()), None, None];
    let rows = panel_rows(&servers, &profiles, 126_000_000_000, false);
    assert_eq!(rows.len(), 5);
    let McpRow::Server(first) = &rows[1] else {
        panic!("expected a server");
    };
    assert_eq!(first.parent, " codex  ");
    assert_eq!(first.profile, "work         ");
    assert_eq!(first.counts, "  2/12  ");
    assert_eq!(first.last, "2m ago");
    assert_eq!(first.activity, Activity::Active);
    let McpRow::Server(second) = &rows[2] else {
        panic!("expected a server");
    };
    assert_eq!(second.profile, "default      ");
    assert_eq!(second.counts, "  0/1   ");
    assert_eq!(second.last, "—"); // in the future
    assert_eq!(second.activity, Activity::Open);
    let McpRow::Server(third) = &rows[3] else {
        panic!("expected a server");
    };
    assert_eq!(third.last, "—");
    assert_eq!(third.activity, Activity::Idle);
    assert!(matches!(rows[4], McpRow::NotSuppressed));
    assert_eq!(panel_rows(&servers, &profiles, 126_000_000_000, true).len(), 4);
}

#[test]
fn help_lists_all_keys() {
    assert_eq!(entries().len(), 20);
    let lines = help::lines();
    assert_eq!(lines.len(), 22);
    assert!(matches!(&lines[0], HelpLine::Heading(text) if text == "Navigation"));
    assert!(
        matches!(&lines[1], HelpLine::Key { key, desc } if key == "  ↑↓ / j k    " && desc == "select session")
    );
    assert!(matches!(lines[20], HelpLine::Blank));
    assert!(matches!(&lines[21], HelpLine::Footer(text) if text == " Press any key to close "));
}

#[test]
fn popups_are_centred_and_fit() {
    assert_eq!(
        help_popup(100, 50),
        Area {
            x: 20,
            y: 13,
            width: 60,
            height: 24
        }
    );
    assert_eq!(
        help_popup(40, 10),
        Area {
            x: 2,
            y: 2,
            width: 36,
            height: 6
        }
    );
    assert_eq!(
        view_popup(81, 41),
        Area {
            x: 18,
            y: 12,
            width: 44,
            height: 16
        }
    );
    assert_eq!(
        popup(3, 3, 60, 20),
        Area {
            x: 1,
            y: 1,
            width: 0,
            height: 0
        }
    );
    assert_eq!(
        inside(&help_popup(100, 50)),
        Area {
            x: 22,
            y: 14,
            width: 56,
            height: 22
        }
    );
}

#[test]
fn view_menu_shows_what_is_on() {
    let flags = ViewFlags {
        tree_view: true,
        show_timeline: false,
        show_file_audit: false,
        show_context: true,
        show_quota: false,
        show_tokens: true,
        show_projects: false,
        show_ports: true,
        show_sessions: false,
        show_mcp: true,
        mcp_suppress_sessions: false,
    };
    let list = items(&flags);
    let keys: String = list.iter().map(|i| i.key).collect();
    assert_eq!(keys, "Tlf1234567Mt");
    let on: String = list
        .iter()
        .filter(|i| i.state == ViewState::On)
        .map(|i| i.key)
        .collect();
    assert_eq!(on, "T1357");
    assert_eq!(list[11].state, ViewState::Action);
    let lines = view_menu::lines(&flags);
    assert_eq!(lines[0].key, "  T  ");
    assert_eq!(lines[0].label, "tree view             ");
    assert_eq!(lines[0].state_text, "on");
    assert_eq!(lines[1].state_text, "off");
    assert_eq!(lines[11].state_text, "→");
}

#[test]
fn countdowns_have_two_units() {
    let l = labels();
    assert_eq!(format_reset_time(100, 100, &l), "");
    assert_eq!(format_reset_time(99, 100, &l), "");
    assert_eq!(format_reset_time(145, 100, &l), "in 45s");
    assert_eq!(format_reset_time(160, 100, &l), "in 1m");
    assert_eq!(format_reset_time(100 + 3_599, 100, &l), "in 59m");
    assert_eq!(format_reset_time(100 + 7_380, 100, &l), "in 2h 3m");
    assert_eq!(format_reset_time(100 + 86_400 + 7_200, 100, &l), "in 1d 2h");
}

#[test]
fn data_go_stale_after_ten_minutes() {
    assert!(!stale(None, 10_000));
    assert!(!stale(Some(9_400), 10_000));
    assert!(stale(Some(9_399), 10_000));
    assert!(!stale(Some(20_000), 10_000));
}

#[test]
fn limits_are_found_without_regard_to_case() {
    let list = vec![limits("Codex", Some(1)), limits("codex", Some(2))];
    assert_eq!(find_limit(&list, "codex").unwrap().updated_at, Some(1));
    assert!(find_limit(&list, "gemini").is_none());
}

#[test]
fn columns_without_data_say_how_to_get_them() {
    let rows = column_rows("gemini", None, 1_000, &labels());
    assert_eq!(rows.len(), 3);
    assert!(matches!(&rows[0], QuotaRow::Title { text, dimmed: false } if text == " GEMINI"));
    assert!(matches!(&rows[1], QuotaRow::NoData(text) if text == "  — no data"));
    assert!(matches!(&rows[2], QuotaRow::Hint(text) if text == " run setup"));
    let rows = column_rows("GEMINI", None, 1_000, &labels());
    assert!(matches!(&rows[2], QuotaRow::Hint(text) if text == " run setup"));
    let rows = column_rows("other", None, 1_000, &labels());
    assert!(matches!(&rows[2], QuotaRow::Hint(text) if text == " run codex"));
    let rows = column_rows("Codex", None, 1_000, &labels());
    assert!(matches!(&rows[0], QuotaRow::Title { text, .. } if text == " CODEX"));
    assert!(matches!(&rows[2], QuotaRow::Hint(text) if text == " run codex"));
}

#[test]
fn columns_with_data_show_both_windows() {
    let rl = limits("Gemini", Some(990));
    let rows = column_rows("gemini", Some(&rl), 1_000, &labels());
    assert_eq!(rows.len(), 5);
    assert!(matches!(&rows[0], QuotaRow::Title { text, dimmed: false } if text == " GEMINI"));
    assert!(
        matches!(&rows[1], QuotaRow::Meter { label, used } if label == " 5h" && f64::from_bits(used.bits) == 40.0)
    );
    assert!(matches!(&rows[2], QuotaRow::Reset(text) if text == "  in 1m"));
    assert!(matches!(&rows[3], QuotaRow::Meter { label, .. } if label == " 7d"));
    assert!(matches!(&rows[4], QuotaRow::Reset(text) if text.is_empty())); // has passed
}

#[test]
fn stale_columns_have_no_countdown() {
    let rl = limits("gemini", Some(100));
    let rows = column_rows("gemini", Some(&rl), 1_000, &labels());
    assert!(matches!(&rows[0], QuotaRow::Title { dimmed: true, .. }));
    assert!(matches!(&rows[2], QuotaRow::Reset(text) if text.is_empty()));
    let mut rl = limits("gemini", None);
    rl.five_hour_pct = None;
    rl.seven_day_pct = None;
    assert_eq!(column_rows("gemini", Some(&rl), 1_000, &labels()).len(), 1);
}

#[test]
fn columns_fill_the_panel() {
    let panel = Area {
        x: 10,
        y: 5,
        width: 43,
        height: 8,
    };
    let inner = inner_area(&panel);
    assert_eq!(
        inner,
        Area {
            x: 11,
            y: 6,
            width: 41,
            height: 6
        }
    );
    let first = column_area(&inner, 0, 2);
    let second = column_area(&inner, 1, 2);
    assert_eq!((first.x, first.width), (11, 20));
    assert_eq!((second.x, second.width), (31, 21));
    assert_eq!(first.height, 5);
    assert_eq!(totals_area(&inner).y, 11);
    assert_eq!(totals_area(&inner).height, 1);
    // The far edges may lie beyond the coordinates.
    let far = Area {
        x: 65_530,
        y: 65_534,
        width: 11,
        height: 2,
    };
    assert_eq!(column_area(&far, 1, 2).x, 65_535);
    assert_eq!(totals_area(&far).y, 65_535);
}

#[test]
fn meters_keep_to_their_limits() {
    assert_eq!(bar_width(0), 2);
    assert_eq!(bar_width(12), 2);
    assert_eq!(bar_width(15), 5);
    assert_eq!(bar_width(18), 8);
    assert_eq!(bar_width(100), 8);
}
