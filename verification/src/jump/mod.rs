//! Jumping to the terminal that hosts a session.
//!
//! Each terminal is a backend, and the registry lists them in the order in which
//! they are tried. A backend answers in one of three ways: that the process is not
//! in its terminal, so that the next one is tried; that it brought the terminal to
//! the front; or that it knows the process but its command failed. One of the last
//! two ends the walk.
pub mod cmux;
pub mod iterm2;
pub mod parse;
pub mod registry;
pub mod step;
pub mod tmux;

pub use registry::{jumpers, run_jump};

use vstd::prelude::*;
use vstd::string::*;

verus! {

/// What one backend made of a process.
#[derive(Debug, Clone, PartialEq, Eq)]
pub enum JumpAttempt {
    /// The process is not in this backend's terminal: try the next one.
    NotApplicable,
    /// The process's terminal is in front now.
    Jumped,
    /// The process is in this backend's terminal, but the command failed.
    Failed(String),
}

/// What a walk through the backends came to.
#[derive(Debug, Clone, PartialEq, Eq)]
pub enum JumpOutcome {
    /// No backend knew the process.
    NoOp,
    Jumped,
    Failed(String),
}

pub ghost enum AttemptModel {
    NotApplicable,
    Jumped,
    Failed(Seq<char>),
}

pub ghost enum OutcomeModel {
    NoOp,
    Jumped,
    Failed(Seq<char>),
}

impl View for JumpAttempt {
    type V = AttemptModel;

    open spec fn view(&self) -> AttemptModel {
        match self {
            JumpAttempt::NotApplicable => AttemptModel::NotApplicable,
            JumpAttempt::Jumped => AttemptModel::Jumped,
            JumpAttempt::Failed(msg) => AttemptModel::Failed(msg@),
        }
    }
}

impl View for JumpOutcome {
    type V = OutcomeModel;

    open spec fn view(&self) -> OutcomeModel {
        match self {
            JumpOutcome::NoOp => OutcomeModel::NoOp,
            JumpOutcome::Jumped => OutcomeModel::Jumped,
            JumpOutcome::Failed(msg) => OutcomeModel::Failed(msg@),
        }
    }
}

/// A terminal backend that can bring the terminal of a process to the front.
///
/// A backend need not say more of itself than its two functions do; one that does
/// says which labels and which answers it can give.
pub trait TerminalJumper {
    /// Whether the backend may give `label` as its name.
    open spec fn may_be_named(&self, label: Seq<char>) -> bool {
        true
    }

    /// Whether the backend may answer `attempt` for the process `pid`.
    open spec fn may_answer(&self, pid: u32, attempt: AttemptModel) -> bool {
        true
    }

    /// Short label, which failure messages start with.
    fn name(&self) -> (r: &'static str)
        ensures
            self.may_be_named(r@),
    ;

    /// Tries to bring the terminal of `pid` to the front.
    fn try_jump(&self, pid: u32) -> (r: JumpAttempt)
        ensures
            self.may_answer(pid, r@),
    ;
}

/// What the answer of the backend `name` decides; nothing where the process is not
/// in its terminal.
pub open spec fn outcome_of(name: Seq<char>, attempt: AttemptModel) -> Option<OutcomeModel> {
    match attempt {
        AttemptModel::NotApplicable => None,
        AttemptModel::Jumped => Some(OutcomeModel::Jumped),
        AttemptModel::Failed(msg) => Some(OutcomeModel::Failed(name + ": "@ + msg)),
    }
}

/// What a walk comes to whose backends answer one after the other: the first answer
/// that decides anything decides the walk.
pub open spec fn decided(names: Seq<Seq<char>>, attempts: Seq<AttemptModel>) -> OutcomeModel
    decreases attempts.len(),
{
    if names.len() == 0 || attempts.len() == 0 {
        OutcomeModel::NoOp
    } else {
        match outcome_of(names[0], attempts[0]) {
            Some(outcome) => outcome,
            None => decided(names.drop_first(), attempts.drop_first()),
        }
    }
}

fn failed_by(name: &str, msg: &str) -> (r: JumpOutcome)
    ensures
        r@ == OutcomeModel::Failed(name@ + ": "@ + msg@),
{
    let mut text = name.to_owned();
    text.append(": ");
    text.append(msg);
    JumpOutcome::Failed(text)
}

/// What the answer of the backend `name` decides.
pub fn read_attempt(name: &str, attempt: JumpAttempt) -> (r: Option<JumpOutcome>)
    ensures
        match r {
            Some(outcome) => outcome_of(name@, attempt@) == Some(outcome@),
            None => outcome_of(name@, attempt@) is None,
        },
{
    match attempt {
        JumpAttempt::NotApplicable => None,
        JumpAttempt::Jumped => Some(JumpOutcome::Jumped),
        JumpAttempt::Failed(msg) => Some(failed_by(name, msg.as_str())),
    }
}

/// Whether a walk that got `attempts` as answers, one backend after the other, comes to
/// `r`: the last answer decides, all before it being that the process is not there. The
/// label is asked for of a backend that failed, and of no other.
pub open spec fn resolves_to(
    jumpers: Seq<Box<dyn TerminalJumper>>,
    pid: u32,
    attempts: Seq<AttemptModel>,
    r: OutcomeModel,
) -> bool {
    &&& attempts.len() <= jumpers.len()
    &&& forall|i: int| 0 <= i < attempts.len() ==> jumpers[i].may_answer(pid, #[trigger] attempts[i])
    &&& forall|i: int|
        0 <= i < attempts.len() - 1 ==> #[trigger] attempts[i] == AttemptModel::NotApplicable
    &&& if attempts.len() == 0 || attempts.last() == AttemptModel::NotApplicable {
        attempts.len() == jumpers.len() && r == OutcomeModel::NoOp
    } else if attempts.last() == AttemptModel::Jumped {
        r == OutcomeModel::Jumped
    } else {
        exists|name: Seq<char>|
            jumpers[attempts.len() - 1].may_be_named(name) && Some(r) == #[trigger] outcome_of(
                name,
                attempts.last(),
            )
    }
}

/// Asks the backends one after the other, up to the first that does not answer
/// `NotApplicable`.
pub fn resolve(jumpers: &[Box<dyn TerminalJumper>], pid: u32) -> (r: JumpOutcome)
    ensures
        exists|attempts: Seq<AttemptModel>| #[trigger] resolves_to(jumpers@, pid, attempts, r@),
{
    let ghost mut attempts: Seq<AttemptModel> = Seq::empty();
    let mut i: usize = 0;
    while i < jumpers.len()
        invariant
            i <= jumpers@.len(),
            attempts.len() == i,
            forall|k: int| 0 <= k < i ==> jumpers@[k].may_answer(pid, #[trigger] attempts[k]),
            forall|k: int| 0 <= k < i ==> #[trigger] attempts[k] == AttemptModel::NotApplicable,
        decreases jumpers@.len() - i,
    {
        let attempt = jumpers[i].try_jump(pid);
        proof {
            attempts = attempts.push(attempt@);
        }
        match attempt {
            JumpAttempt::NotApplicable => {},
            JumpAttempt::Jumped => {
                let outcome = JumpOutcome::Jumped;
                assert(resolves_to(jumpers@, pid, attempts, outcome@));
                return outcome;
            },
            JumpAttempt::Failed(msg) => {
                let name = jumpers[i].name();
                let outcome = failed_by(name, msg.as_str());
                assert(outcome_of(name@, attempts.last()) == Some(outcome@));
                assert(resolves_to(jumpers@, pid, attempts, outcome@));
                return outcome;
            },
        }
        i += 1;
    }
    let outcome = JumpOutcome::NoOp;
    assert(resolves_to(jumpers@, pid, attempts, outcome@));
    outcome
}

/// The first answer that is not `NotApplicable` decides a walk: a jump is one, and a failure
/// is told behind the label of its backend. Without such an answer nothing happens.
pub proof fn law_first_answer_decides(
    names: Seq<Seq<char>>,
    attempts: Seq<AttemptModel>,
    k: int,
    msg: Seq<char>,
)
    requires
        names.len() == attempts.len(),
        0 <= k <= attempts.len(),
        forall|i: int| 0 <= i < k ==> #[trigger] attempts[i] == AttemptModel::NotApplicable,
    ensures
        k < attempts.len() && attempts[k] == AttemptModel::Jumped ==> decided(names, attempts)
            == OutcomeModel::Jumped,
        k < attempts.len() && attempts[k] == AttemptModel::Failed(msg) ==> decided(names, attempts)
            == OutcomeModel::Failed(names[k] + ": "@ + msg),
        k == attempts.len() ==> decided(names, attempts) == OutcomeModel::NoOp,
    decreases attempts.len(),
{
    if k > 0 {
        assert(attempts[0] == AttemptModel::NotApplicable);
        let rest = attempts.drop_first();
        assert forall|i: int| 0 <= i < k - 1 implies #[trigger] rest[i] == AttemptModel::NotApplicable by {
            assert(rest[i] == attempts[i + 1]);
        }
        law_first_answer_decides(names.drop_first(), rest, k - 1, msg);
    }
}

/// What a walk through backends comes to, by the last of their answers.
pub proof fn law_last_answer_decides_a_walk(
    jumpers: Seq<Box<dyn TerminalJumper>>,
    pid: u32,
    attempts: Seq<AttemptModel>,
    r: OutcomeModel,
)
    requires
        resolves_to(jumpers, pid, attempts, r),
    ensures
        r == OutcomeModel::NoOp <==> (attempts.len() == jumpers.len() && forall|i: int|
            0 <= i < attempts.len() ==> #[trigger] attempts[i] == AttemptModel::NotApplicable),
        r == OutcomeModel::Jumped <==> attempts.len() > 0 && attempts.last() == AttemptModel::Jumped,
        r is Failed ==> attempts.len() > 0 && attempts.last() is Failed && exists|name: Seq<char>|
            jumpers[attempts.len() - 1].may_be_named(name) && r == OutcomeModel::Failed(
                #[trigger] (name + ": "@) + attempts.last()->Failed_0,
            ),
        attempts.len() <= jumpers.len(),
        forall|i: int|
            0 <= i < attempts.len() - 1 ==> #[trigger] attempts[i] == AttemptModel::NotApplicable,
        forall|i: int| 0 <= i < attempts.len() ==> jumpers[i].may_answer(pid, #[trigger] attempts[i]),
{
    if attempts.len() > 0 && attempts.last() is Failed {
        let name = choose|name: Seq<char>|
            jumpers[attempts.len() - 1].may_be_named(name) && Some(r) == #[trigger] outcome_of(
                name,
                attempts.last(),
            );
        assert(r == OutcomeModel::Failed((name + ": "@) + attempts.last()->Failed_0));
    }
    if attempts.len() > 0 {
        assert(attempts[attempts.len() - 1] == attempts.last());
    }
}

/// An answer and an outcome show what they are.
pub proof fn law_answers_show_what_they_are(msg: String)
    ensures
        JumpAttempt::NotApplicable@ == AttemptModel::NotApplicable,
        JumpAttempt::Jumped@ == AttemptModel::Jumped,
        JumpAttempt::Failed(msg)@ == AttemptModel::Failed(msg@),
        JumpOutcome::NoOp@ == OutcomeModel::NoOp,
        JumpOutcome::Jumped@ == OutcomeModel::Jumped,
        JumpOutcome::Failed(msg)@ == OutcomeModel::Failed(msg@),
{
}

} // verus!
