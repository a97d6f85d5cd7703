//! iTerm2.
//!
//! The terminal device of the process is looked for among the sessions of iTerm2 by
//! a script, which also brings the session to the front. A process in another
//! terminal has another device. The first run of a script makes macOS ask for
//! permission; until that is given, the script fails.
use super::parse::{interpret_osascript, parse_tty, script_answer, tty_of};
use super::step::{
    command, fail_to_run, not_runnable, printed, reason, stdout_of, Ask, AskModel, Progress,
    ProgressModel, Ran, Reply,
};
use super::{AttemptModel, JumpAttempt};
use crate::text::number::{decimal, decimal_text};
use crate::text::scan::{
    contains_text, law_contained_text_is_found, occurs_at, trim, trimmed,
};
use vstd::prelude::*;
use vstd::string::*;

verus! {

/// The backend for iTerm2.
#[derive(Debug, Clone, Copy)]
pub struct ITerm2Jumper;

/// What is asked for.
#[derive(Debug)]
pub enum ITerm2State {
    /// The terminal device of the process.
    Device,
    /// To bring the session with the device to the front.
    Focusing(String),
}

pub ghost enum ITerm2Model {
    Device,
    Focusing(Seq<char>),
}

impl View for ITerm2State {
    type V = ITerm2Model;

    open spec fn view(&self) -> ITerm2Model {
        match self {
            ITerm2State::Device => ITerm2Model::Device,
            ITerm2State::Focusing(tty) => ITerm2Model::Focusing(tty@),
        }
    }
}

/// The script, up to the device.
pub const SCRIPT: &'static str = r#"if application "iTerm2" is running then
  tell application "iTerm2"
    repeat with w in windows
      repeat with t in tabs of w
        repeat with s in sessions of t
          if tty of s is ""#;

/// The script, after the device.
pub const SCRIPT_END: &'static str = r#"" then
            select s
            select t
            select w
            activate
            return "FOUND"
          end if
        end repeat
      end repeat
    end repeat
  end tell
end if
return "NOTFOUND""#;

/// What comes after a reply. A process without a terminal device is not in iTerm2.
pub open spec fn after_reply(state: ITerm2Model, reply: Reply) -> ProgressModel<ITerm2Model> {
    match state {
        ITerm2Model::Device => {
            let device = match printed(reply) {
                Some(raw) => tty_of(raw),
                None => None,
            };
            match device {
                Some(path) => ProgressModel::Again(ITerm2Model::Focusing(path)),
                None => ProgressModel::Done(AttemptModel::NotApplicable),
            }
        },
        ITerm2Model::Focusing(_) => ProgressModel::Done(
            match reply {
                Reply::Ran(ran) => if ran.success {
                    script_answer(ran.stdout@)
                } else {
                    AttemptModel::Failed("osascript error: "@ + trimmed(ran.stderr@))
                },
                _ => AttemptModel::Failed(not_runnable("osascript"@, reason(reply))),
            },
        ),
    }
}

/// The view of what comes next.
pub open spec fn progress_model(p: Progress<ITerm2State>) -> ProgressModel<ITerm2Model> {
    match p {
        Progress::Again(state) => ProgressModel::Again(state@),
        Progress::Done(attempt) => ProgressModel::Done(attempt@),
    }
}

impl ITerm2Jumper {
    /// Short label, which failure messages start with.
    pub fn name(&self) -> (r: &'static str)
        ensures
            r@ == "iterm2"@,
    {
        "iterm2"
    }

    /// What the backend asks for in a state.
    pub open spec fn asks(state: ITerm2Model, pid: u32) -> AskModel {
        match state {
            ITerm2Model::Device => AskModel::Run {
                program: "ps"@,
                args: seq!["-o"@, "tty="@, "-p"@, decimal(pid as nat)],
            },
            ITerm2Model::Focusing(tty) => AskModel::Run {
                program: "osascript"@,
                args: seq!["-e"@, SCRIPT@ + tty + SCRIPT_END@],
            },
        }
    }

    /// What the backend asks for in a state.
    pub fn ask(&self, state: &ITerm2State, pid: u32) -> (r: Ask)
        ensures
            r@ == Self::asks(state@, pid),
    {
        match state {
            ITerm2State::Device => {
                let p = decimal_text(pid as u64);
                let r = command("ps", &["-o", "tty=", "-p", p.as_str()]);
                assert(r@->args =~= Self::asks(state@, pid)->args);
                r
            },
            ITerm2State::Focusing(tty) => {
                let mut script = SCRIPT.to_owned();
                script.append(tty.as_str());
                script.append(SCRIPT_END);
                let r = command("osascript", &["-e", script.as_str()]);
                assert(r@->args =~= Self::asks(state@, pid)->args);
                r
            },
        }
    }

    /// What comes after the reply. A process without a terminal device is not in
    /// iTerm2.
    pub fn next(&self, state: ITerm2State, reply: &Reply) -> (r: Progress<ITerm2State>)
        ensures
            progress_model(r) == after_reply(state@, *reply),
    {
        match state {
            ITerm2State::Device => {
                let device = match stdout_of(reply) {
                    Some(raw) => parse_tty(raw),
                    None => None,
                };
                match device {
                    Some(path) => Progress::Again(ITerm2State::Focusing(path)),
                    None => Progress::Done(JumpAttempt::NotApplicable),
                }
            },
            ITerm2State::Focusing(_) => Progress::Done(
                match reply {
                    Reply::Ran(ran) => if ran.success {
                        interpret_osascript(ran.stdout.as_str())
                    } else {
                        let mut text = "osascript error: ".to_owned();
                        let why = trim(ran.stderr.as_str());
                        text.append(why.as_str());
                        JumpAttempt::Failed(text)
                    },
                    _ => fail_to_run("osascript", reply),
                },
            ),
        }
    }
}

/// A process with a device is looked for by a script that names the device; one without is
/// left to the next backend.
pub proof fn law_device_is_looked_for(pid: u32, ran: Ran, device: Seq<char>, error: String)
    ensures
        ITerm2Jumper::asks(ITerm2Model::Device, pid) == (AskModel::Run {
            program: "ps"@,
            args: seq!["-o"@, "tty="@, "-p"@, decimal(pid as nat)],
        }),
        ITerm2Jumper::asks(ITerm2Model::Focusing(device), pid) is Run,
        ITerm2Jumper::asks(ITerm2Model::Focusing(device), pid)->program == "osascript"@,
        ITerm2Jumper::asks(ITerm2Model::Focusing(device), pid)->args.len() == 2,
        ITerm2Jumper::asks(ITerm2Model::Focusing(device), pid)->args[0] == "-e"@,
        contains_text(ITerm2Jumper::asks(ITerm2Model::Focusing(device), pid)->args[1], device),
        tty_of(ran.stdout@) == Some(device) ==> after_reply(ITerm2Model::Device, Reply::Ran(ran))
            == ProgressModel::Again(ITerm2Model::Focusing(device)),
        tty_of(ran.stdout@) is None ==> after_reply(ITerm2Model::Device, Reply::Ran(ran))
            == ProgressModel::<ITerm2Model>::Done(AttemptModel::NotApplicable),
        after_reply(ITerm2Model::Device, Reply::NotRun(error)) == ProgressModel::<
            ITerm2Model,
        >::Done(AttemptModel::NotApplicable),
{
    law_contained_text_is_found(SCRIPT@, device, SCRIPT_END@, device);
}

/// What the script found is reported; a failure says how.
pub proof fn law_script_is_reported(ran: Ran, device: Seq<char>, error: String)
    ensures
        ran.success && trimmed(ran.stdout@) == "FOUND"@ ==> after_reply(
            ITerm2Model::Focusing(device),
            Reply::Ran(ran),
        ) == ProgressModel::<ITerm2Model>::Done(AttemptModel::Jumped),
        ran.success && trimmed(ran.stdout@) != "FOUND"@ ==> after_reply(
            ITerm2Model::Focusing(device),
            Reply::Ran(ran),
        ) == ProgressModel::<ITerm2Model>::Done(AttemptModel::NotApplicable),
        !ran.success ==> after_reply(ITerm2Model::Focusing(device), Reply::Ran(ran))
            == ProgressModel::<ITerm2Model>::Done(
            AttemptModel::Failed("osascript error: "@ + trimmed(ran.stderr@)),
        ),
        after_reply(ITerm2Model::Focusing(device), Reply::NotRun(error)) == ProgressModel::<
            ITerm2Model,
        >::Done(AttemptModel::Failed("osascript"@ + " not runnable ("@ + error@ + ")"@)),
{
}

/// The script visits each session of each tab of each window, where iTerm2 runs.
pub proof fn law_script_visits_each_session()
    ensures
        contains_text(SCRIPT@, "if application \"iTerm2\" is running then\n  tell application \"iTerm2\"\n    repeat with w in windows\n      repeat with t in tabs of w\n        repeat with s in sessions of t\n          if tty of s is \""@),
{
    reveal_strlit(
        r#"if application "iTerm2" is running then
  tell application "iTerm2"
    repeat with w in windows
      repeat with t in tabs of w
        repeat with s in sessions of t
          if tty of s is ""#,
    );
    reveal_strlit("if application \"iTerm2\" is running then\n  tell application \"iTerm2\"\n    repeat with w in windows\n      repeat with t in tabs of w\n        repeat with s in sessions of t\n          if tty of s is \"");
    assert(SCRIPT@.subrange(0, 195) =~= "if application \"iTerm2\" is running then\n  tell application \"iTerm2\"\n    repeat with w in windows\n      repeat with t in tabs of w\n        repeat with s in sessions of t\n          if tty of s is \""@);
    assert(occurs_at(SCRIPT@, "if application \"iTerm2\" is running then\n  tell application \"iTerm2\"\n    repeat with w in windows\n      repeat with t in tabs of w\n        repeat with s in sessions of t\n          if tty of s is \""@, 0));
}

/// The script brings the session that it finds to the front, and says whether it found one.
pub proof fn law_script_selects_what_it_finds()
    ensures
        contains_text(SCRIPT_END@, "\" then\n            select s\n            select t\n            select w\n            activate\n            return \"FOUND\"\n          end if"@),
        contains_text(SCRIPT_END@, "end tell\nend if\nreturn \"NOTFOUND\""@),
{
    reveal_strlit(
        r#"" then
            select s
            select t
            select w
            activate
            return "FOUND"
          end if
        end repeat
      end repeat
    end repeat
  end tell
end if
return "NOTFOUND""#,
    );
    reveal_strlit("\" then\n            select s\n            select t\n            select w\n            activate\n            return \"FOUND\"\n          end if");
    reveal_strlit("end tell\nend if\nreturn \"NOTFOUND\"");
    assert(SCRIPT_END@.subrange(0, 134) =~= "\" then\n            select s\n            select t\n            select w\n            activate\n            return \"FOUND\"\n          end if"@);
    assert(occurs_at(SCRIPT_END@, "\" then\n            select s\n            select t\n            select w\n            activate\n            return \"FOUND\"\n          end if"@, 0));
    assert(SCRIPT_END@.subrange(188, 221) =~= "end tell\nend if\nreturn \"NOTFOUND\""@);
    assert(occurs_at(SCRIPT_END@, "end tell\nend if\nreturn \"NOTFOUND\""@, 188));
}

} // verus!
