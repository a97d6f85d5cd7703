//! cmux.
//!
//! Each surface of cmux sets `CMUX_WORKSPACE_ID`, which its processes inherit. It
//! is read from the process, and `cmux` is told to select that workspace.
use super::parse::{env_value, parse_env_var};
use super::step::{
    command, fail_to_run, not_runnable, printed, reason, stdout_of, Ask, AskModel, Progress,
    ProgressModel, Ran, Reply,
};
use super::{AttemptModel, JumpAttempt};
use crate::text::number::{decimal, decimal_text};
use vstd::prelude::*;
use vstd::string::*;

verus! {

/// The backend for cmux.
#[derive(Debug, Clone, Copy)]
pub struct CmuxJumper;

/// What is asked for.
#[derive(Debug)]
pub enum CmuxState {
    /// The environment of the process.
    Environment,
    /// To select a workspace.
    Selecting(String),
}

pub ghost enum CmuxModel {
    Environment,
    Selecting(Seq<char>),
}

impl View for CmuxState {
    type V = CmuxModel;

    open spec fn view(&self) -> CmuxModel {
        match self {
            CmuxState::Environment => CmuxModel::Environment,
            CmuxState::Selecting(workspace) => CmuxModel::Selecting(workspace@),
        }
    }
}

/// The variable that names a workspace.
pub const WORKSPACE_VAR: &'static str = "CMUX_WORKSPACE_ID";

/// What comes after a reply. A process without a workspace is not in cmux.
pub open spec fn after_reply(state: CmuxModel, reply: Reply) -> ProgressModel<CmuxModel> {
    match state {
        CmuxModel::Environment => {
            let workspace = match printed(reply) {
                Some(dump) => env_value(dump, WORKSPACE_VAR@),
                None => None,
            };
            match workspace {
                Some(value) => ProgressModel::Again(CmuxModel::Selecting(value)),
                None => ProgressModel::Done(AttemptModel::NotApplicable),
            }
        },
        CmuxModel::Selecting(_) => ProgressModel::Done(
            match reply {
                Reply::Ran(ran) => if ran.success {
                    AttemptModel::Jumped
                } else {
                    AttemptModel::Failed("select-workspace exited "@ + ran.status@)
                },
                _ => AttemptModel::Failed(not_runnable("cmux CLI"@, reason(reply))),
            },
        ),
    }
}

/// The view of what comes next.
pub open spec fn progress_model(p: Progress<CmuxState>) -> ProgressModel<CmuxModel> {
    match p {
        Progress::Again(state) => ProgressModel::Again(state@),
        Progress::Done(attempt) => ProgressModel::Done(attempt@),
    }
}

impl CmuxJumper {
    /// Short label, which failure messages start with.
    pub fn name(&self) -> (r: &'static str)
        ensures
            r@ == "cmux"@,
    {
        "cmux"
    }

    /// What the backend asks for in a state.
    pub open spec fn asks(state: CmuxModel, pid: u32) -> AskModel {
        match state {
            CmuxModel::Environment => AskModel::Run {
                program: "ps"@,
                args: seq!["eww"@, "-p"@, decimal(pid as nat)],
            },
            CmuxModel::Selecting(workspace) => AskModel::Run {
                program: "cmux"@,
                args: seq!["select-workspace"@, "--workspace"@, workspace],
            },
        }
    }

    /// What the backend asks for in a state.
    pub fn ask(&self, state: &CmuxState, pid: u32) -> (r: Ask)
        ensures
            r@ == Self::asks(state@, pid),
    {
        match state {
            CmuxState::Environment => {
                let p = decimal_text(pid as u64);
                let r = command("ps", &["eww", "-p", p.as_str()]);
                assert(r@->args =~= Self::asks(state@, pid)->args);
                r
            },
            CmuxState::Selecting(workspace) => {
                let r = command("cmux", &["select-workspace", "--workspace", workspace.as_str()]);
                assert(r@->args =~= Self::asks(state@, pid)->args);
                r
            },
        }
    }

    /// What comes after the reply. A process without a workspace is not in cmux.
    pub fn next(&self, state: CmuxState, reply: &Reply) -> (r: Progress<CmuxState>)
        ensures
            progress_model(r) == after_reply(state@, *reply),
    {
        match state {
            CmuxState::Environment => {
                let workspace = match stdout_of(reply) {
                    Some(dump) => parse_env_var(dump, WORKSPACE_VAR),
                    None => None,
                };
                match workspace {
                    Some(value) => Progress::Again(CmuxState::Selecting(value)),
                    None => Progress::Done(JumpAttempt::NotApplicable),
                }
            },
            CmuxState::Selecting(_) => Progress::Done(
                match reply {
                    Reply::Ran(ran) => if ran.success {
                        JumpAttempt::Jumped
                    } else {
                        let mut text = "select-workspace exited ".to_owned();
                        text.append(ran.status.as_str());
                        JumpAttempt::Failed(text)
                    },
                    _ => fail_to_run("cmux CLI", reply),
                },
            ),
        }
    }
}

/// A process with a workspace is brought to the front by selecting it; one without is left
/// to the next backend.
pub proof fn law_workspace_is_selected(pid: u32, ran: Ran, workspace: Seq<char>, error: String)
    ensures
        CmuxJumper::asks(CmuxModel::Environment, pid) == (AskModel::Run {
            program: "ps"@,
            args: seq!["eww"@, "-p"@, decimal(pid as nat)],
        }),
        CmuxJumper::asks(CmuxModel::Selecting(workspace), pid) == (AskModel::Run {
            program: "cmux"@,
            args: seq!["select-workspace"@, "--workspace"@, workspace],
        }),
        env_value(ran.stdout@, "CMUX_WORKSPACE_ID"@) == Some(workspace) ==> after_reply(
            CmuxModel::Environment,
            Reply::Ran(ran),
        ) == ProgressModel::Again(CmuxModel::Selecting(workspace)),
        env_value(ran.stdout@, "CMUX_WORKSPACE_ID"@) is None ==> after_reply(
            CmuxModel::Environment,
            Reply::Ran(ran),
        ) == ProgressModel::<CmuxModel>::Done(AttemptModel::NotApplicable),
        after_reply(CmuxModel::Environment, Reply::NotRun(error)) == ProgressModel::<
            CmuxModel,
        >::Done(AttemptModel::NotApplicable),
{
}

/// A workspace that was selected was jumped to; a failure says how.
pub proof fn law_selection_is_reported(ran: Ran, workspace: Seq<char>, error: String)
    ensures
        ran.success ==> after_reply(CmuxModel::Selecting(workspace), Reply::Ran(ran))
            == ProgressModel::<CmuxModel>::Done(AttemptModel::Jumped),
        !ran.success ==> after_reply(CmuxModel::Selecting(workspace), Reply::Ran(ran))
            == ProgressModel::<CmuxModel>::Done(
            AttemptModel::Failed("select-workspace exited "@ + ran.status@),
        ),
        after_reply(CmuxModel::Selecting(workspace), Reply::NotRun(error)) == ProgressModel::<
            CmuxModel,
        >::Done(AttemptModel::Failed("cmux CLI"@ + " not runnable ("@ + error@ + ")"@)),
{
}

} // verus!
