//! The steps of a backend.
//!
//! A backend asks for one thing at a time and decides by the reply what comes next.
use super::{AttemptModel, JumpAttempt};
use crate::text::texts;
use vstd::prelude::*;
use vstd::string::*;

verus! {

/// A program with its arguments.
#[derive(Debug)]
pub struct CommandLine {
    pub program: &'static str,
    pub args: Vec<String>,
}

/// What a backend asks for.
#[derive(Debug)]
pub enum Ask {
    /// Whether an environment variable is set.
    EnvSet(&'static str),
    /// What a program makes of its arguments.
    Run(CommandLine),
}

pub ghost enum AskModel {
    EnvSet(Seq<char>),
    Run { program: Seq<char>, args: Seq<Seq<char>> },
}

impl View for Ask {
    type V = AskModel;

    open spec fn view(&self) -> AskModel {
        match self {
            Ask::EnvSet(name) => AskModel::EnvSet(name@),
            Ask::Run(command) => AskModel::Run {
                program: command.program@,
                args: texts(command.args@),
            },
        }
    }
}

/// What came of a program that was run.
#[derive(Debug)]
pub struct Ran {
    pub success: bool,
    /// The exit status as it is shown.
    pub status: String,
    pub stdout: String,
    pub stderr: String,
}

/// The reply to what a backend asked for.
#[derive(Debug)]
pub enum Reply {
    EnvSet(bool),
    Ran(Ran),
    /// The program could not be run, and why.
    NotRun(String),
}

/// What comes after a reply.
#[derive(Debug)]
pub enum Progress<S> {
    /// The backend asks on.
    Again(S),
    Done(JumpAttempt),
}

pub ghost enum ProgressModel<S> {
    Again(S),
    Done(AttemptModel),
}

/// Whether the reply is that the variable is set.
pub open spec fn is_set(reply: Reply) -> bool {
    reply == Reply::EnvSet(true)
}

/// What a program printed, if it was run.
pub open spec fn printed(reply: Reply) -> Option<Seq<char>> {
    match reply {
        Reply::Ran(ran) => Some(ran.stdout@),
        _ => None,
    }
}

/// Why a program could not be run.
pub open spec fn reason(reply: Reply) -> Seq<char> {
    match reply {
        Reply::NotRun(error) => error@,
        _ => Seq::empty(),
    }
}

/// The message that a program could not be run.
pub open spec fn not_runnable(what: Seq<char>, why: Seq<char>) -> Seq<char> {
    what + " not runnable ("@ + why + ")"@
}

/// The text that a program printed, if it was run.
pub fn stdout_of(reply: &Reply) -> (r: Option<&str>)
    ensures
        match r {
            Some(text) => printed(*reply) == Some(text@),
            None => printed(*reply) is None,
        },
{
    match reply {
        Reply::Ran(ran) => Some(ran.stdout.as_str()),
        _ => None,
    }
}

/// Whether the reply is that the variable is set.
pub fn env_is_set(reply: &Reply) -> (r: bool)
    ensures
        r == is_set(*reply),
{
    match reply {
        Reply::EnvSet(b) => *b,
        _ => false,
    }
}

/// The failure of a program that could not be run.
pub fn fail_to_run(what: &str, reply: &Reply) -> (r: JumpAttempt)
    ensures
        r@ == AttemptModel::Failed(not_runnable(what@, reason(*reply))),
{
    let mut text = what.to_owned();
    text.append(" not runnable (");
    match reply {
        Reply::NotRun(error) => {
            text.append(error.as_str());
        },
        _ => {
            assert(text@ + reason(*reply) =~= text@);
        },
    }
    text.append(")");
    JumpAttempt::Failed(text)
}

/// A program with its arguments.
pub fn command(program: &'static str, args: &[&str]) -> (r: Ask)
    ensures
        r@ == (AskModel::Run {
            program: program@,
            args: args@.map_values(|a: &str| a@),
        }),
{
    let mut list: Vec<String> = Vec::new();
    let mut i: usize = 0;
    while i < args.len()
        invariant
            i <= args@.len(),
            list@.len() == i,
            forall|k: int| 0 <= k < i ==> (#[trigger] list@[k])@ == args@[k]@,
        decreases args@.len() - i,
    {
        list.push(args[i].to_owned());
        i += 1;
    }
    assert(texts(list@) =~= args@.map_values(|a: &str| a@));
    Ask::Run(CommandLine { program, args: list })
}

/// What a reply tells: whether a variable is set, what a program printed, and why it could
/// not be run.
pub proof fn law_replies_are_read(ran: Ran, error: String)
    ensures
        is_set(Reply::EnvSet(true)),
        !is_set(Reply::EnvSet(false)),
        !is_set(Reply::Ran(ran)),
        !is_set(Reply::NotRun(error)),
        printed(Reply::Ran(ran)) == Some(ran.stdout@),
        printed(Reply::NotRun(error)) is None,
        reason(Reply::NotRun(error)) == error@,
        not_runnable("tmux"@, error@) == "tmux"@ + " not runnable ("@ + error@ + ")"@,
{
}

/// A question shows what is asked for.
pub proof fn law_question_shows_its_parts(name: &'static str, command: CommandLine, i: int)
    ensures
        Ask::EnvSet(name)@ == AskModel::EnvSet(name@),
        Ask::Run(command)@ is Run,
        Ask::Run(command)@->program == command.program@,
        Ask::Run(command)@->args.len() == command.args@.len(),
        0 <= i < command.args@.len() ==> Ask::Run(command)@->args[i] == command.args@[i]@,
{
}

} // verus!
