use llm_top::jump::cmux::{CmuxJumper, CmuxState};
use llm_top::jump::iterm2::{ITerm2Jumper, ITerm2State};
use llm_top::jump::parse::{
    find_pane_target, interpret_osascript, is_descendant_of, parse_env_var, parse_tty,
};
use llm_top::jump::registry::{JumpStep, Walk};
use llm_top::jump::step::{Ask, Progress, Ran, Reply};
use llm_top::jump::tmux::{TmuxJumper, TmuxState};
use llm_top::jump::{jumpers, resolve, run_jump, JumpAttempt, JumpOutcome, TerminalJumper};
use llm_top::model::Platform;

struct Mock(&'static str, JumpAttempt);

impl TerminalJumper for Mock {
    fn name(&self) -> &'static str {
        self.0
    }
    fn try_jump(&self, _pid: u32) -> JumpAttempt {
        self.1.clone()
    }
}

fn boxed(m: Mock) -> Box<dyn TerminalJumper> {
    Box::new(m)
}

fn ran(stdout: &str) -> Reply {
    Reply::Ran(Ran {
        success: true,
        status: "exit status: 0".to_string(),
        stdout: stdout.to_string(),
        stderr: String::new(),
    })
}

fn failed(status: &str, stderr: &str) -> Reply {
    Reply::Ran(Ran {
        success: false,
        status: status.to_string(),
        stdout: String::new(),
        stderr: stderr.to_string(),
    })
}

fn shown(ask: &Ask) -> String {
    match ask {
        Ask::EnvSet(name) => format!("${}", name),
        Ask::Run(command) => format!("{} {}", command.program, command.args.join(" ")),
    }
}

// ---- resolve / registry loop ----

#[test]
fn resolve_all_not_applicable_is_noop() {
    let js = vec![
        boxed(Mock("a", JumpAttempt::NotApplicable)),
        boxed(Mock("b", JumpAttempt::NotApplicable)),
    ];
    assert_eq!(resolve(&js, 123), JumpOutcome::NoOp);
}

#[test]
fn resolve_first_jumped_wins() {
    let js = vec![
        boxed(Mock("a", JumpAttempt::Jumped)),
        boxed(Mock("b", JumpAttempt::Failed("should not reach".into()))),
    ];
    assert_eq!(resolve(&js, 123), JumpOutcome::Jumped);
}

#[test]
fn resolve_skips_not_applicable_until_jump() {
    let js = vec![
        boxed(Mock("a", JumpAttempt::NotApplicable)),
        boxed(Mock("b", JumpAttempt::Jumped)),
    ];
    assert_eq!(resolve(&js, 123), JumpOutcome::Jumped);
}

#[test]
fn resolve_failure_is_prefixed_with_adapter_name() {
    let js = vec![
        boxed(Mock("a", JumpAttempt::NotApplicable)),
        boxed(Mock(
            "iterm2",
            JumpAttempt::Failed("permission denied".into()),
        )),
    ];
    assert_eq!(
        resolve(&js, 123),
        JumpOutcome::Failed("iterm2: permission denied".to_string())
    );
}

struct Unnamed(JumpAttempt);

impl TerminalJumper for Unnamed {
    fn name(&self) -> &'static str {
        panic!("the name is for failures only")
    }
    fn try_jump(&self, _pid: u32) -> JumpAttempt {
        self.0.clone()
    }
}

#[test]
fn resolve_asks_for_the_name_of_a_failing_backend_only() {
    let js: Vec<Box<dyn TerminalJumper>> = vec![
        Box::new(Unnamed(JumpAttempt::NotApplicable)),
        Box::new(Unnamed(JumpAttempt::Jumped)),
    ];
    assert_eq!(resolve(&js, 1), JumpOutcome::Jumped);
}

#[test]
fn resolve_without_backends_is_noop() {
    assert_eq!(resolve(&[], 123), JumpOutcome::NoOp);
}

// ---- parse_tty ----

#[test]
fn parse_tty_strips_and_prefixes_dev() {
    assert_eq!(parse_tty("ttys009\n").as_deref(), Some("/dev/ttys009"));
}

#[test]
fn parse_tty_trims_surrounding_whitespace() {
    assert_eq!(parse_tty("  ttys010 ").as_deref(), Some("/dev/ttys010"));
}

#[test]
fn parse_tty_no_controlling_tty_is_none() {
    assert_eq!(parse_tty("??"), None);
    assert_eq!(parse_tty("?? \n"), None);
    assert_eq!(parse_tty(""), None);
    assert_eq!(parse_tty("   "), None);
}

// ---- parse_env_var ----

#[test]
fn parse_env_var_finds_value() {
    let dump = "FOO=bar CMUX_WORKSPACE_ID=abc-123-DEF BAZ=1";
    assert_eq!(
        parse_env_var(dump, "CMUX_WORKSPACE_ID").as_deref(),
        Some("abc-123-DEF")
    );
}

#[test]
fn parse_env_var_missing_is_none() {
    assert_eq!(parse_env_var("FOO=bar BAZ=1", "CMUX_WORKSPACE_ID"), None);
}

#[test]
fn parse_env_var_does_not_match_prefix_substring() {
    // "CMUX_WORKSPACE_ID_X" must not satisfy a query for "CMUX_WORKSPACE_ID"
    assert_eq!(
        parse_env_var("CMUX_WORKSPACE_ID_X=nope", "CMUX_WORKSPACE_ID"),
        None
    );
}

#[test]
fn parse_env_var_takes_the_first_of_several() {
    assert_eq!(parse_env_var("A=1 A=2", "A").as_deref(), Some("1"));
    assert_eq!(parse_env_var("A= B=2", "A").as_deref(), Some(""));
}

// ---- interpret_osascript ----

#[test]
fn interpret_osascript_found_is_jumped() {
    assert_eq!(interpret_osascript("FOUND\n"), JumpAttempt::Jumped);
}

#[test]
fn interpret_osascript_notfound_is_not_applicable() {
    assert_eq!(
        interpret_osascript("NOTFOUND\n"),
        JumpAttempt::NotApplicable
    );
    assert_eq!(interpret_osascript(""), JumpAttempt::NotApplicable);
}

#[test]
fn jumpers_include_platform_backends() {
    assert_eq!(jumpers(Platform::MacOs).len(), 3);

    assert_eq!(jumpers(Platform::Other).len(), 2);
    assert_eq!(jumpers(Platform::Windows).len(), 2);
}

#[test]
fn jumpers_are_ordered_by_how_specific_they_are() {
    let names: Vec<&str> = jumpers(Platform::MacOs).iter().map(|b| b.name()).collect();
    assert_eq!(names, vec!["cmux", "tmux", "iterm2"]);
}

// ---- find_pane_target (tmux) ----

#[test]
fn find_pane_target_returns_matching_pane() {
    let dump = "111 main:0.0\n222 work:1.2\n";
    let target = find_pane_target(dump, |pid| pid == 222);
    assert_eq!(target.as_deref(), Some("work:1.2"));
}

#[test]
fn find_pane_target_none_when_no_pane_owns_pid() {
    let dump = "111 main:0.0\n222 work:1.2\n";
    assert_eq!(find_pane_target(dump, |_| false), None);
}

#[test]
fn find_pane_target_skips_malformed_lines() {
    let dump = "garbage\n\n333 dev:2.0\n";
    let target = find_pane_target(dump, |pid| pid == 333);
    assert_eq!(target.as_deref(), Some("dev:2.0"));
}

// ---- is_descendant_of ----

#[test]
fn descent_follows_the_process_table() {
    let ps = "  PID  PPID\n   10     1\n   20    10\n   30    20\n   40    40\n";
    assert!(is_descendant_of(30, 30, None));
    assert!(is_descendant_of(30, 20, Some(ps)));
    assert!(is_descendant_of(30, 10, Some(ps)));
    assert!(is_descendant_of(30, 1, Some(ps)));
    assert!(!is_descendant_of(10, 30, Some(ps)));
    assert!(!is_descendant_of(40, 10, Some(ps)));
    assert!(!is_descendant_of(99, 10, Some(ps)));
    assert!(!is_descendant_of(30, 10, None));
}

#[test]
fn descent_stops_after_fifty_steps() {
    let mut ps = String::from("PID PPID\n");
    for pid in 100..160 {
        ps.push_str(&format!("{} {}\n", pid + 1, pid));
    }
    assert!(is_descendant_of(150, 100, Some(&ps)));
    assert!(!is_descendant_of(151, 100, Some(&ps)));
}

#[test]
fn the_header_of_the_process_table_is_passed_over() {
    assert!(!is_descendant_of(30, 20, Some("30 20\n")));
}

// ---- cmux ----

#[test]
fn cmux_selects_the_workspace_of_the_process() {
    let j = CmuxJumper;
    assert_eq!(
        shown(&j.ask(&CmuxState::Environment, 77)),
        "ps eww -p 77"
    );
    let next = j.next(
        CmuxState::Environment,
        &ran("77 s000 node CMUX_WORKSPACE_ID=abc HOME=/h"),
    );
    let Progress::Again(state) = next else {
        panic!("expected a further step");
    };
    assert_eq!(
        shown(&j.ask(&state, 77)),
        "cmux select-workspace --workspace abc"
    );
    assert!(matches!(
        j.next(state, &ran("")),
        Progress::Done(JumpAttempt::Jumped)
    ));
}

#[test]
fn cmux_passes_on_processes_without_a_workspace() {
    let j = CmuxJumper;
    for reply in [ran("77 s000 node"), Reply::NotRun("gone".to_string())] {
        assert!(matches!(
            j.next(CmuxState::Environment, &reply),
            Progress::Done(JumpAttempt::NotApplicable)
        ));
    }
}

#[test]
fn cmux_failures_say_why() {
    let j = CmuxJumper;
    let Progress::Done(attempt) = j.next(
        CmuxState::Selecting("abc".to_string()),
        &failed("exit status: 2", ""),
    ) else {
        panic!("expected an answer");
    };
    assert_eq!(
        attempt,
        JumpAttempt::Failed("select-workspace exited exit status: 2".to_string())
    );
    let Progress::Done(attempt) = j.next(
        CmuxState::Selecting("abc".to_string()),
        &Reply::NotRun("not found".to_string()),
    ) else {
        panic!("expected an answer");
    };
    assert_eq!(
        attempt,
        JumpAttempt::Failed("cmux CLI not runnable (not found)".to_string())
    );
}

// ---- iTerm2 ----

#[test]
fn iterm2_looks_for_the_device() {
    let j = ITerm2Jumper;
    assert_eq!(shown(&j.ask(&ITerm2State::Device, 5)), "ps -o tty= -p 5");
    let Progress::Again(state) = j.next(ITerm2State::Device, &ran("ttys001\n")) else {
        panic!("expected a further step");
    };
    let ask = shown(&j.ask(&state, 5));
    assert!(ask.starts_with("osascript -e if application \"iTerm2\" is running then\n"));
    assert!(ask.contains("          if tty of s is \"/dev/ttys001\" then\n"));
    assert!(ask.ends_with("end if\nreturn \"NOTFOUND\""));
    assert!(matches!(
        j.next(state, &ran("FOUND\n")),
        Progress::Done(JumpAttempt::Jumped)
    ));
    assert!(matches!(
        j.next(ITerm2State::Device, &ran("??")),
        Progress::Done(JumpAttempt::NotApplicable)
    ));
}

#[test]
fn iterm2_failures_say_why() {
    let j = ITerm2Jumper;
    let Progress::Done(attempt) = j.next(
        ITerm2State::Focusing("/dev/ttys001".to_string()),
        &failed("exit status: 1", " denied \n"),
    ) else {
        panic!("expected an answer");
    };
    assert_eq!(
        attempt,
        JumpAttempt::Failed("osascript error: denied".to_string())
    );
    let Progress::Done(attempt) = j.next(
        ITerm2State::Focusing("/dev/ttys001".to_string()),
        &Reply::NotRun("no such file".to_string()),
    ) else {
        panic!("expected an answer");
    };
    assert_eq!(
        attempt,
        JumpAttempt::Failed("osascript not runnable (no such file)".to_string())
    );
}

// ---- tmux ----

#[test]
fn tmux_selects_the_pane_that_owns_the_process() {
    let j = TmuxJumper;
    assert_eq!(shown(&j.ask(&TmuxState::Inside)), "$TMUX");
    let Progress::Again(listing) = j.next(TmuxState::Inside, 30, &Reply::EnvSet(true)) else {
        panic!("expected a further step");
    };
    assert_eq!(
        shown(&j.ask(&listing)),
        "tmux list-panes -a -F #{pane_pid} #{session_name}:#{window_index}.#{pane_index}"
    );
    let Progress::Again(first) = j.next(listing, 30, &ran("11 main:0.0\n20 work:1.2\n")) else {
        panic!("expected a further step");
    };
    assert_eq!(shown(&j.ask(&first)), "ps -eo pid,ppid");
    let ps = ran("PID PPID\n30 20\n20 1\n11 1\n");
    let Progress::Again(second) = j.next(first, 30, &ps) else {
        panic!("expected a further step");
    };
    let Progress::Again(session) = j.next(second, 30, &ps) else {
        panic!("expected a further step");
    };
    assert_eq!(shown(&j.ask(&session)), "tmux switch-client -t work");
    let Progress::Again(window) = j.next(session, 30, &ran("")) else {
        panic!("expected a further step");
    };
    assert_eq!(shown(&j.ask(&window)), "tmux select-window -t work:1");
    let Progress::Again(pane) = j.next(window, 30, &ran("")) else {
        panic!("expected a further step");
    };
    assert_eq!(shown(&j.ask(&pane)), "tmux select-pane -t work:1.2");
    assert!(matches!(
        j.next(pane, 30, &ran("")),
        Progress::Done(JumpAttempt::Jumped)
    ));
}

#[test]
fn tmux_failures_say_why() {
    let target = || "work:1.2".to_string();
    for (state, what) in [
        (TmuxState::Session(target()), "switch-client"),
        (TmuxState::Window(target()), "select-window"),
        (TmuxState::Pane(target()), "select-pane"),
    ] {
        let Progress::Done(attempt) = TmuxJumper.next(state, 30, &failed("exit status: 1", ""))
        else {
            panic!("expected an answer");
        };
        assert_eq!(
            attempt,
            JumpAttempt::Failed(format!("{} exited exit status: 1", what))
        );
    }
    let Progress::Done(attempt) = TmuxJumper.next(
        TmuxState::Pane(target()),
        30,
        &Reply::NotRun("not found".to_string()),
    ) else {
        panic!("expected an answer");
    };
    assert_eq!(
        attempt,
        JumpAttempt::Failed("tmux not runnable (not found)".to_string())
    );
}

#[test]
fn tmux_selects_a_pane_that_runs_the_process_itself_without_looking_further() {
    let next = TmuxJumper.next(TmuxState::Listing, 11, &ran("11 main:0.0\n"));
    assert!(matches!(
        next,
        Progress::Again(TmuxState::Session(target)) if target == "main:0.0"
    ));
}

#[test]
fn tmux_passes_on_other_processes() {
    let j = TmuxJumper;
    assert!(matches!(
        j.next(TmuxState::Inside, 30, &Reply::EnvSet(false)),
        Progress::Done(JumpAttempt::NotApplicable)
    ));
    assert!(matches!(
        j.next(TmuxState::Listing, 30, &failed("1", "no server")),
        Progress::Done(JumpAttempt::NotApplicable)
    ));
    let Progress::Done(attempt) =
        j.next(TmuxState::Listing, 30, &Reply::NotRun("not found".to_string()))
    else {
        panic!("expected an answer");
    };
    assert_eq!(
        attempt,
        JumpAttempt::Failed("tmux not runnable (not found)".to_string())
    );
}

// ---- the walk ----

fn walk(platform: Platform, reply: fn(&str) -> Reply) -> JumpOutcome {
    let mut step = run_jump(9, platform);
    loop {
        match step {
            JumpStep::Asking(walk) => {
                let ask = shown(&Walk::ask(&walk));
                step = walk.next(&reply(&ask));
            }
            JumpStep::Over(outcome) => return outcome,
        }
    }
}

#[test]
fn walk_ends_without_effect_where_no_backend_applies() {
    let outcome = walk(Platform::MacOs, |ask| {
        if ask == "$TMUX" {
            Reply::EnvSet(false)
        } else {
            ran("")
        }
    });
    assert_eq!(outcome, JumpOutcome::NoOp);
}

#[test]
fn walk_is_decided_by_the_first_backend_that_applies() {
    let outcome = walk(Platform::MacOs, |ask| match ask {
        "$TMUX" => Reply::EnvSet(false),
        "ps -o tty= -p 9" => ran("ttys002"),
        other => {
            if other.starts_with("osascript") {
                failed("exit status: 1", "denied")
            } else {
                ran("")
            }
        }
    });
    assert_eq!(
        outcome,
        JumpOutcome::Failed("iterm2: osascript error: denied".to_string())
    );
    let outcome = walk(Platform::Other, |ask| match ask {
        "ps eww -p 9" => ran("CMUX_WORKSPACE_ID=w"),
        "cmux select-workspace --workspace w" => ran(""),
        _ => panic!("the walk should be over"),
    });
    assert_eq!(outcome, JumpOutcome::Jumped);
}
