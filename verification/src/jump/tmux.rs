//! tmux.
//!
//! The backend applies where the monitor itself runs in tmux. The pane whose process
//! the session's process descends from is selected: its session, its window and the
//! pane itself. A process in no pane is left to the next backend.
use super::parse::{
    is_below, is_descendant_of, pane_models, panes_of, read_panes, Pane, PaneModel,
};
use super::step::{
    command, env_is_set, fail_to_run, is_set, not_runnable, printed, reason, stdout_of, Ask,
    AskModel, Progress, ProgressModel, Ran, Reply,
};
use super::{AttemptModel, JumpAttempt};
use crate::text::scan::{before_first, law_text_is_cut_at_a_character, lines_of, until};
use vstd::prelude::*;
use vstd::string::*;

verus! {

/// The backend for tmux.
#[derive(Debug, Clone, Copy)]
pub struct TmuxJumper;

/// What is asked for.
#[derive(Debug)]
pub enum TmuxState {
    /// Whether the monitor runs in tmux.
    Inside,
    /// The panes.
    Listing,
    /// The process table, to see whether the process descends from that of the first
    /// of the panes.
    Checking(Vec<Pane>),
    /// To switch to the session of an address.
    Session(String),
    /// To select the window of an address.
    Window(String),
    /// To select the pane at an address.
    Pane(String),
}

pub ghost enum TmuxModel {
    Inside,
    Listing,
    Checking(Seq<PaneModel>),
    Session(Seq<char>),
    Window(Seq<char>),
    Pane(Seq<char>),
}

impl View for TmuxState {
    type V = TmuxModel;

    open spec fn view(&self) -> TmuxModel {
        match self {
            TmuxState::Inside => TmuxModel::Inside,
            TmuxState::Listing => TmuxModel::Listing,
            TmuxState::Checking(panes) => TmuxModel::Checking(pane_models(panes@)),
            TmuxState::Session(target) => TmuxModel::Session(target@),
            TmuxState::Window(target) => TmuxModel::Window(target@),
            TmuxState::Pane(target) => TmuxModel::Pane(target@),
        }
    }
}

/// What is left to do with the panes: nothing where there are none; to select the
/// first one, where it runs the process itself; and else to look whether the process
/// descends from it.
pub open spec fn with_panes(panes: Seq<PaneModel>, pid: u32) -> ProgressModel<TmuxModel> {
    if panes.len() == 0 {
        ProgressModel::Done(AttemptModel::NotApplicable)
    } else if panes[0].pid == pid {
        ProgressModel::Again(TmuxModel::Session(panes[0].target))
    } else {
        ProgressModel::Again(TmuxModel::Checking(panes))
    }
}

/// How a command of tmux failed; nothing where it succeeded.
pub open spec fn failure(what: Seq<char>, reply: Reply) -> Option<Seq<char>> {
    match reply {
        Reply::Ran(ran) => if ran.success {
            None
        } else {
            Some(what + " exited "@ + ran.status@)
        },
        _ => Some(not_runnable("tmux"@, reason(reply))),
    }
}

/// What comes after a reply. The pane is in front once all of its commands succeeded.
pub open spec fn after_reply(state: TmuxModel, pid: u32, reply: Reply) -> ProgressModel<TmuxModel> {
    match state {
        TmuxModel::Inside => if is_set(reply) {
            ProgressModel::Again(TmuxModel::Listing)
        } else {
            ProgressModel::Done(AttemptModel::NotApplicable)
        },
        TmuxModel::Listing => match printed(reply) {
            Some(list) => with_panes(panes_of(lines_of(list)), pid),
            None => ProgressModel::Done(
                AttemptModel::Failed(not_runnable("tmux"@, reason(reply))),
            ),
        },
        TmuxModel::Checking(panes) => if panes.len() == 0 {
            ProgressModel::Done(AttemptModel::NotApplicable)
        } else if is_below(printed(reply), pid, panes[0].pid) {
            ProgressModel::Again(TmuxModel::Session(panes[0].target))
        } else {
            with_panes(panes.drop_first(), pid)
        },
        TmuxModel::Session(target) => match failure("switch-client"@, reply) {
            Some(msg) => ProgressModel::Done(AttemptModel::Failed(msg)),
            None => ProgressModel::Again(TmuxModel::Window(target)),
        },
        TmuxModel::Window(target) => match failure("select-window"@, reply) {
            Some(msg) => ProgressModel::Done(AttemptModel::Failed(msg)),
            None => ProgressModel::Again(TmuxModel::Pane(target)),
        },
        TmuxModel::Pane(target) => match failure("select-pane"@, reply) {
            Some(msg) => ProgressModel::Done(AttemptModel::Failed(msg)),
            None => ProgressModel::Done(AttemptModel::Jumped),
        },
    }
}

/// The view of what comes next.
pub open spec fn progress_model(p: Progress<TmuxState>) -> ProgressModel<TmuxModel> {
    match p {
        Progress::Again(state) => ProgressModel::Again(state@),
        Progress::Done(attempt) => ProgressModel::Done(attempt@),
    }
}

/// The failure of a command of tmux, if it failed.
fn check(what: &str, reply: &Reply) -> (r: Option<JumpAttempt>)
    ensures
        match r {
            Some(attempt) => failure(what@, *reply) is Some && attempt@ == AttemptModel::Failed(
                failure(what@, *reply)->Some_0,
            ),
            None => failure(what@, *reply) is None,
        },
{
    match reply {
        Reply::Ran(ran) => if ran.success {
            None
        } else {
            let mut text = what.to_owned();
            text.append(" exited ");
            text.append(ran.status.as_str());
            Some(JumpAttempt::Failed(text))
        },
        _ => Some(fail_to_run("tmux", reply)),
    }
}

fn go_on_with(panes: Vec<Pane>, pid: u32) -> (r: Progress<TmuxState>)
    ensures
        progress_model(r) == with_panes(pane_models(panes@), pid),
{
    if panes.len() == 0 {
        return Progress::Done(JumpAttempt::NotApplicable);
    }
    assert(pane_models(panes@)[0] == panes@[0]@);
    if panes[0].pid == pid {
        Progress::Again(TmuxState::Session(panes[0].target.clone()))
    } else {
        Progress::Again(TmuxState::Checking(panes))
    }
}

/// The address of the first pane whose process `pid` is or descends from.
pub open spec fn first_owner(panes: Seq<PaneModel>, pid: u32, ps: Option<Seq<char>>) -> Option<Seq<char>>
    decreases panes.len(),
{
    if panes.len() == 0 {
        None
    } else if is_below(ps, pid, panes[0].pid) {
        Some(panes[0].target)
    } else {
        first_owner(panes.drop_first(), pid, ps)
    }
}

/// Where the backend gets to when the process table is asked for as long as panes are
/// checked, and the reply is always the same.
pub open spec fn settled(p: ProgressModel<TmuxModel>, pid: u32, reply: Reply) -> ProgressModel<TmuxModel>
    decreases
            (match p {
                ProgressModel::Again(TmuxModel::Checking(panes)) => panes.len() + 1,
                _ => 0,
            }),
{
    match p {
        ProgressModel::Again(TmuxModel::Checking(panes)) => settled(
            after_reply(TmuxModel::Checking(panes), pid, reply),
            pid,
            reply,
        ),
        _ => p,
    }
}

/// The panes are checked up to the first one whose process the session's process is
/// or descends from: that pane is selected, and without one the next backend is tried.
pub proof fn law_owning_pane_is_selected(panes: Seq<PaneModel>, pid: u32, reply: Reply)
    ensures
        settled(with_panes(panes, pid), pid, reply) == match first_owner(panes, pid, printed(reply)) {
            Some(target) => ProgressModel::Again(TmuxModel::Session(target)),
            None => ProgressModel::Done(AttemptModel::NotApplicable),
        },
    decreases panes.len(),
{
    if panes.len() > 0 {
        law_owning_pane_is_selected(panes.drop_first(), pid, reply);
        reveal_with_fuel(settled, 3);
    }
}

impl TmuxJumper {
    /// Short label, which failure messages start with.
    pub fn name(&self) -> (r: &'static str)
        ensures
            r@ == "tmux"@,
    {
        "tmux"
    }

    /// What the backend asks for in a state.
    pub open spec fn asks(state: TmuxModel) -> AskModel {
        match state {
            TmuxModel::Inside => AskModel::EnvSet("TMUX"@),
            TmuxModel::Listing => AskModel::Run {
                program: "tmux"@,
                args: seq![
                    "list-panes"@,
                    "-a"@,
                    "-F"@,
                    "#{pane_pid} #{session_name}:#{window_index}.#{pane_index}"@,
                ],
            },
            TmuxModel::Checking(_) => AskModel::Run {
                program: "ps"@,
                args: seq!["-eo"@, "pid,ppid"@],
            },
            TmuxModel::Session(target) => AskModel::Run {
                program: "tmux"@,
                args: seq!["switch-client"@, "-t"@, before_first(target, ':')],
            },
            TmuxModel::Window(target) => AskModel::Run {
                program: "tmux"@,
                args: seq!["select-window"@, "-t"@, before_first(target, '.')],
            },
            TmuxModel::Pane(target) => AskModel::Run {
                program: "tmux"@,
                args: seq!["select-pane"@, "-t"@, target],
            },
        }
    }

    /// What the backend asks for in a state.
    pub fn ask(&self, state: &TmuxState) -> (r: Ask)
        ensures
            r@ == Self::asks(state@),
    {
        let ghost wanted = Self::asks(state@);
        match state {
            TmuxState::Inside => Ask::EnvSet("TMUX"),
            TmuxState::Listing => {
                let r = command(
                    "tmux",
                    &[
                        "list-panes",
                        "-a",
                        "-F",
                        "#{pane_pid} #{session_name}:#{window_index}.#{pane_index}",
                    ],
                );
                assert(r@->args =~= wanted->args);
                r
            },
            TmuxState::Checking(_) => {
                let r = command("ps", &["-eo", "pid,ppid"]);
                assert(r@->args =~= wanted->args);
                r
            },
            TmuxState::Session(target) => {
                let session = until(target.as_str(), ':');
                let r = command("tmux", &["switch-client", "-t", session.as_str()]);
                assert(r@->args =~= wanted->args);
                r
            },
            TmuxState::Window(target) => {
                let window = until(target.as_str(), '.');
                let r = command("tmux", &["select-window", "-t", window.as_str()]);
                assert(r@->args =~= wanted->args);
                r
            },
            TmuxState::Pane(target) => {
                let r = command("tmux", &["select-pane", "-t", target.as_str()]);
                assert(r@->args =~= wanted->args);
                r
            },
        }
    }

    /// What comes after the reply. A command that fails to select the pane ends the
    /// attempt.
    pub fn next(&self, state: TmuxState, pid: u32, reply: &Reply) -> (r: Progress<TmuxState>)
        ensures
            progress_model(r) == after_reply(state@, pid, *reply),
    {
        match state {
            TmuxState::Inside => if env_is_set(reply) {
                Progress::Again(TmuxState::Listing)
            } else {
                Progress::Done(JumpAttempt::NotApplicable)
            },
            TmuxState::Listing => match stdout_of(reply) {
                Some(list) => go_on_with(read_panes(list), pid),
                None => Progress::Done(fail_to_run("tmux", reply)),
            },
            TmuxState::Checking(panes) => {
                if panes.len() == 0 {
                    return Progress::Done(JumpAttempt::NotApplicable);
                }
                assert(pane_models(panes@)[0] == panes@[0]@);
                if is_descendant_of(pid, panes[0].pid, stdout_of(reply)) {
                    Progress::Again(TmuxState::Session(panes[0].target.clone()))
                } else {
                    let ghost all = pane_models(panes@);
                    let mut rest = panes;
                    rest.remove(0);
                    assert(pane_models(rest@) =~= all.drop_first());
                    go_on_with(rest, pid)
                }
            },
            TmuxState::Session(target) => match check("switch-client", reply) {
                Some(attempt) => Progress::Done(attempt),
                None => Progress::Again(TmuxState::Window(target)),
            },
            TmuxState::Window(target) => match check("select-window", reply) {
                Some(attempt) => Progress::Done(attempt),
                None => Progress::Again(TmuxState::Pane(target)),
            },
            TmuxState::Pane(_) => match check("select-pane", reply) {
                Some(attempt) => Progress::Done(attempt),
                None => Progress::Done(JumpAttempt::Jumped),
            },
        }
    }
}

/// The backend applies inside tmux only, and asks for the panes there.
pub proof fn law_tmux_applies_inside_only(pid: u32, ran: Ran, error: String)
    ensures
        TmuxJumper::asks(TmuxModel::Inside) == AskModel::EnvSet("TMUX"@),
        after_reply(TmuxModel::Inside, pid, Reply::EnvSet(true)) == ProgressModel::Again(
            TmuxModel::Listing,
        ),
        after_reply(TmuxModel::Inside, pid, Reply::EnvSet(false)) == ProgressModel::<
            TmuxModel,
        >::Done(AttemptModel::NotApplicable),
        TmuxJumper::asks(TmuxModel::Listing) == (AskModel::Run {
            program: "tmux"@,
            args: seq![
                "list-panes"@,
                "-a"@,
                "-F"@,
                "#{pane_pid} #{session_name}:#{window_index}.#{pane_index}"@,
            ],
        }),
        after_reply(TmuxModel::Listing, pid, Reply::Ran(ran)) == with_panes(
            panes_of(lines_of(ran.stdout@)),
            pid,
        ),
        after_reply(TmuxModel::Listing, pid, Reply::NotRun(error)) == ProgressModel::<
            TmuxModel,
        >::Done(AttemptModel::Failed("tmux"@ + " not runnable ("@ + error@ + ")"@)),
        forall|panes: Seq<PaneModel>| #[trigger]
            TmuxJumper::asks(TmuxModel::Checking(panes)) == (AskModel::Run {
                program: "ps"@,
                args: seq!["-eo"@, "pid,ppid"@],
            }),
{
}

/// A pane is selected by its session, its window and its own address, in this order, each
/// step only after the one before it succeeded.
pub proof fn law_pane_is_selected_step_by_step(
    session: Seq<char>,
    window: Seq<char>,
    pane: Seq<char>,
    pid: u32,
    ran: Ran,
)
    requires
        !session.contains(':'),
        !session.contains('.'),
        !window.contains('.'),
    ensures
        ({
            let target = session + seq![':'] + window + seq!['.'] + pane;
            let args = |command: Seq<char>, at: Seq<char>|
                AskModel::Run { program: "tmux"@, args: seq![command, "-t"@, at] };
            &&& TmuxJumper::asks(TmuxModel::Session(target)) == args("switch-client"@, session)
            &&& TmuxJumper::asks(TmuxModel::Window(target)) == args(
                "select-window"@,
                session + seq![':'] + window,
            )
            &&& TmuxJumper::asks(TmuxModel::Pane(target)) == args("select-pane"@, target)
            &&& ran.success ==> after_reply(TmuxModel::Session(target), pid, Reply::Ran(ran))
                == ProgressModel::Again(TmuxModel::Window(target))
            &&& ran.success ==> after_reply(TmuxModel::Window(target), pid, Reply::Ran(ran))
                == ProgressModel::Again(TmuxModel::Pane(target))
            &&& ran.success ==> after_reply(TmuxModel::Pane(target), pid, Reply::Ran(ran))
                == ProgressModel::<TmuxModel>::Done(AttemptModel::Jumped)
        }),
{
    let target = session + seq![':'] + window + seq!['.'] + pane;
    let place = session + seq![':'] + window;
    assert(target =~= session.push(':') + (window + seq!['.'] + pane));
    law_text_is_cut_at_a_character(session, ':', window + seq!['.'] + pane);
    assert(!place.contains('.')) by {
        if place.contains('.') {
            let k = place.index_of('.');
            if k < session.len() {
                assert(session[k] == '.');
            } else if k > session.len() {
                assert(window[k - session.len() - 1] == '.');
            }
        }
    }
    assert(target =~= place.push('.') + pane);
    law_text_is_cut_at_a_character(place, '.', pane);
}

/// A step that fails ends the attempt, and says which command failed and how.
pub proof fn law_failed_selection_is_reported(target: Seq<char>, pid: u32, ran: Ran, error: String)
    ensures
        ({
            let failed = |what: Seq<char>|
                ProgressModel::<TmuxModel>::Done(
                    AttemptModel::Failed(what + " exited "@ + ran.status@),
                );
            let not_run = ProgressModel::<TmuxModel>::Done(
                AttemptModel::Failed("tmux"@ + " not runnable ("@ + error@ + ")"@),
            );
            &&& !ran.success ==> after_reply(TmuxModel::Session(target), pid, Reply::Ran(ran))
                == failed("switch-client"@)
            &&& !ran.success ==> after_reply(TmuxModel::Window(target), pid, Reply::Ran(ran))
                == failed("select-window"@)
            &&& !ran.success ==> after_reply(TmuxModel::Pane(target), pid, Reply::Ran(ran))
                == failed("select-pane"@)
            &&& after_reply(TmuxModel::Session(target), pid, Reply::NotRun(error)) == not_run
            &&& after_reply(TmuxModel::Window(target), pid, Reply::NotRun(error)) == not_run
            &&& after_reply(TmuxModel::Pane(target), pid, Reply::NotRun(error)) == not_run
        }),
{
}

/// The pane that owns a process is the first one whose process it is or descends from.
pub proof fn law_first_owner(panes: Seq<PaneModel>, pid: u32, ps: Option<Seq<char>>, k: int)
    requires
        0 <= k <= panes.len(),
        forall|i: int| 0 <= i < k ==> !is_below(ps, pid, (#[trigger] panes[i]).pid),
        k < panes.len() ==> is_below(ps, pid, panes[k].pid),
    ensures
        k < panes.len() ==> first_owner(panes, pid, ps) == Some(panes[k].target),
        k == panes.len() ==> first_owner(panes, pid, ps) is None,
    decreases panes.len(),
{
    if k > 0 {
        assert(!is_below(ps, pid, panes[0].pid));
        let rest = panes.drop_first();
        assert forall|i: int| 0 <= i < k - 1 implies !is_below(ps, pid, (#[trigger] rest[i]).pid) by {
            assert(rest[i] == panes[i + 1]);
        }
        law_first_owner(rest, pid, ps, k - 1);
    }
}

} // verus!
