//! The backends that are tried, and the walk through them.
use super::cmux::{CmuxJumper, CmuxModel, CmuxState};
use super::iterm2::{ITerm2Jumper, ITerm2Model, ITerm2State};
use super::parse::PaneModel;
use super::step::{Ask, AskModel, Progress, ProgressModel, Reply};
use super::tmux::{TmuxJumper, TmuxModel, TmuxState};
use super::{
    cmux, decided, iterm2, outcome_of, read_attempt, tmux, AttemptModel, JumpOutcome, OutcomeModel,
};
use crate::model::Platform;
use crate::text::number::decimal;
use vstd::prelude::*;

verus! {

/// A backend of the registry.
#[derive(Debug, Clone, Copy)]
pub enum Backend {
    Cmux(CmuxJumper),
    Tmux(TmuxJumper),
    ITerm2(ITerm2Jumper),
}

/// What a backend asks for.
#[derive(Debug)]
pub enum BackendState {
    Cmux(CmuxState),
    Tmux(TmuxState),
    ITerm2(ITerm2State),
}

pub ghost enum BackendModel {
    Cmux(CmuxModel),
    Tmux(TmuxModel),
    ITerm2(ITerm2Model),
}

impl View for BackendState {
    type V = BackendModel;

    open spec fn view(&self) -> BackendModel {
        match self {
            BackendState::Cmux(s) => BackendModel::Cmux(s@),
            BackendState::Tmux(s) => BackendModel::Tmux(s@),
            BackendState::ITerm2(s) => BackendModel::ITerm2(s@),
        }
    }
}

/// The label of a backend.
pub open spec fn label_of(b: Backend) -> Seq<char> {
    match b {
        Backend::Cmux(_) => "cmux"@,
        Backend::Tmux(_) => "tmux"@,
        Backend::ITerm2(_) => "iterm2"@,
    }
}

/// What a backend asks for first.
pub open spec fn start_of(b: Backend) -> BackendModel {
    match b {
        Backend::Cmux(_) => BackendModel::Cmux(CmuxModel::Environment),
        Backend::Tmux(_) => BackendModel::Tmux(TmuxModel::Inside),
        Backend::ITerm2(_) => BackendModel::ITerm2(ITerm2Model::Device),
    }
}

impl Backend {
    /// Short label, which failure messages start with.
    pub fn name(&self) -> (r: &'static str)
        ensures
            r@ == label_of(*self),
    {
        match self {
            Backend::Cmux(j) => j.name(),
            Backend::Tmux(j) => j.name(),
            Backend::ITerm2(j) => j.name(),
        }
    }

    /// What the backend asks for first.
    pub fn start(&self) -> (r: BackendState)
        ensures
            r@ == start_of(*self),
    {
        match self {
            Backend::Cmux(_) => BackendState::Cmux(CmuxState::Environment),
            Backend::Tmux(_) => BackendState::Tmux(TmuxState::Inside),
            Backend::ITerm2(_) => BackendState::ITerm2(ITerm2State::Device),
        }
    }
}

/// The backends that are tried on a platform.
pub open spec fn registry(platform: Platform) -> Seq<Backend> {
    let common = seq![Backend::Cmux(CmuxJumper), Backend::Tmux(TmuxJumper)];
    if platform == Platform::MacOs {
        common.push(Backend::ITerm2(ITerm2Jumper))
    } else {
        common
    }
}

/// The backends that are tried, the most specific first: cmux, which tags its
/// processes; tmux, a multiplexer; and on macOS iTerm2, an emulator. The order
/// matters only for a multiplexer in an emulator.
pub fn jumpers(platform: Platform) -> (r: Vec<Backend>)
    ensures
        r@ == registry(platform),
{
    let mut out: Vec<Backend> = Vec::new();
    out.push(Backend::Cmux(CmuxJumper));
    out.push(Backend::Tmux(TmuxJumper));
    if platform == Platform::MacOs {
        out.push(Backend::ITerm2(ITerm2Jumper));
    }
    assert(out@ =~= registry(platform));
    out
}

/// What a backend asks for in a state.
pub open spec fn asks(state: BackendModel, pid: u32) -> AskModel {
    match state {
        BackendModel::Cmux(s) => CmuxJumper::asks(s, pid),
        BackendModel::Tmux(s) => TmuxJumper::asks(s),
        BackendModel::ITerm2(s) => ITerm2Jumper::asks(s, pid),
    }
}

/// What comes after a reply.
pub open spec fn after_reply(state: BackendModel, pid: u32, reply: Reply) -> ProgressModel<BackendModel> {
    match state {
        BackendModel::Cmux(s) => match cmux::after_reply(s, reply) {
            ProgressModel::Again(t) => ProgressModel::Again(BackendModel::Cmux(t)),
            ProgressModel::Done(a) => ProgressModel::Done(a),
        },
        BackendModel::Tmux(s) => match tmux::after_reply(s, pid, reply) {
            ProgressModel::Again(t) => ProgressModel::Again(BackendModel::Tmux(t)),
            ProgressModel::Done(a) => ProgressModel::Done(a),
        },
        BackendModel::ITerm2(s) => match iterm2::after_reply(s, reply) {
            ProgressModel::Again(t) => ProgressModel::Again(BackendModel::ITerm2(t)),
            ProgressModel::Done(a) => ProgressModel::Done(a),
        },
    }
}

impl BackendState {
    /// What the backend asks for.
    pub fn ask(&self, pid: u32) -> (r: Ask)
        ensures
            r@ == asks(self@, pid),
    {
        match self {
            BackendState::Cmux(s) => CmuxJumper.ask(s, pid),
            BackendState::Tmux(s) => TmuxJumper.ask(s),
            BackendState::ITerm2(s) => ITerm2Jumper.ask(s, pid),
        }
    }

    /// What comes after the reply.
    pub fn next(self, pid: u32, reply: &Reply) -> (r: Progress<BackendState>)
        ensures
            match r {
                Progress::Again(t) => after_reply(self@, pid, *reply) == ProgressModel::Again(t@),
                Progress::Done(a) => after_reply(self@, pid, *reply)
                    == ProgressModel::<BackendModel>::Done(a@),
            },
    {
        match self {
            BackendState::Cmux(s) => match CmuxJumper.next(s, reply) {
                Progress::Again(t) => Progress::Again(BackendState::Cmux(t)),
                Progress::Done(a) => Progress::Done(a),
            },
            BackendState::Tmux(s) => match TmuxJumper.next(s, pid, reply) {
                Progress::Again(t) => Progress::Again(BackendState::Tmux(t)),
                Progress::Done(a) => Progress::Done(a),
            },
            BackendState::ITerm2(s) => match ITerm2Jumper.next(s, reply) {
                Progress::Again(t) => Progress::Again(BackendState::ITerm2(t)),
                Progress::Done(a) => Progress::Done(a),
            },
        }
    }
}

/// A walk that waits for a reply.
#[derive(Debug)]
pub struct Walk {
    pub pid: u32,
    pub backends: Vec<Backend>,
    /// The position of the backend whose turn it is.
    pub at: usize,
    pub state: BackendState,
}

/// Where a walk is.
#[derive(Debug)]
pub enum JumpStep {
    Asking(Walk),
    Over(JumpOutcome),
}

pub ghost struct WalkModel {
    pub pid: u32,
    pub backends: Seq<Backend>,
    pub at: int,
    pub state: BackendModel,
}

pub ghost enum StepModel {
    Asking(WalkModel),
    Over(OutcomeModel),
}

impl View for Walk {
    type V = WalkModel;

    open spec fn view(&self) -> WalkModel {
        WalkModel {
            pid: self.pid,
            backends: self.backends@,
            at: self.at as int,
            state: self.state@,
        }
    }
}

impl View for JumpStep {
    type V = StepModel;

    open spec fn view(&self) -> StepModel {
        match self {
            JumpStep::Asking(walk) => StepModel::Asking(walk@),
            JumpStep::Over(outcome) => StepModel::Over(outcome@),
        }
    }
}

/// A walk that has come to the backend at a position; past the last one it is over,
/// and nothing happened.
pub open spec fn turn_of(pid: u32, backends: Seq<Backend>, at: int) -> StepModel {
    if 0 <= at < backends.len() {
        StepModel::Asking(WalkModel { pid, backends, at, state: start_of(backends[at]) })
    } else {
        StepModel::Over(OutcomeModel::NoOp)
    }
}

/// Where a walk is after a reply.
pub open spec fn walk_after(w: WalkModel, reply: Reply) -> StepModel {
    match after_reply(w.state, w.pid, reply) {
        ProgressModel::Again(state) => StepModel::Asking(WalkModel { state, ..w }),
        ProgressModel::Done(attempt) => match outcome_of(label_of(w.backends[w.at]), attempt) {
            Some(outcome) => StepModel::Over(outcome),
            None => turn_of(w.pid, w.backends, w.at + 1),
        },
    }
}

fn give_turn(pid: u32, backends: Vec<Backend>, at: usize) -> (r: JumpStep)
    ensures
        r@ == turn_of(pid, backends@, at as int),
{
    if at < backends.len() {
        let state = backends[at].start();
        JumpStep::Asking(Walk { pid, backends, at, state })
    } else {
        JumpStep::Over(JumpOutcome::NoOp)
    }
}

/// Starts a walk for the process `pid` through the registry.
pub fn run_jump(pid: u32, platform: Platform) -> (r: JumpStep)
    ensures
        r@ == turn_of(pid, registry(platform), 0),
        r matches JumpStep::Asking(walk) ==> walk.wf(),
{
    give_turn(pid, jumpers(platform), 0)
}

impl Walk {
    /// The position is that of a backend.
    pub open spec fn wf(self) -> bool {
        self.at < self.backends@.len()
    }

    /// What the backend whose turn it is asks for.
    pub fn ask(&self) -> (r: Ask)
        ensures
            r@ == asks(self@.state, self@.pid),
    {
        self.state.ask(self.pid)
    }

    /// Takes in the reply.
    pub fn next(self, reply: &Reply) -> (r: JumpStep)
        requires
            self.wf(),
        ensures
            r@ == walk_after(self@, *reply),
            r matches JumpStep::Asking(walk) ==> walk.wf(),
    {
        let Walk { pid, backends, at, state } = self;
        assert(at < backends.len());
        let name = backends[at].name();
        match state.next(pid, reply) {
            Progress::Again(state) => JumpStep::Asking(Walk { pid, backends, at, state }),
            Progress::Done(attempt) => match read_attempt(name, attempt) {
                Some(outcome) => JumpStep::Over(outcome),
                None => give_turn(pid, backends, at + 1),
            },
        }
    }
}

/// Where a walk is after `n` more replies, in surroundings that reply to what is asked
/// for as `env` says; a walk that is over stays so.
pub open spec fn after_replies(step: StepModel, env: spec_fn(AskModel) -> Reply, n: nat) -> StepModel
    decreases n,
{
    if n == 0 {
        step
    } else {
        match step {
            StepModel::Asking(w) => after_replies(
                walk_after(w, env(asks(w.state, w.pid))),
                env,
                (n - 1) as nat,
            ),
            StepModel::Over(_) => step,
        }
    }
}

/// Whether a backend answers `attempt` after `n` replies.
pub open spec fn answers_after(
    state: BackendModel,
    pid: u32,
    env: spec_fn(AskModel) -> Reply,
    n: nat,
    attempt: AttemptModel,
) -> bool
    decreases n,
{
    if n == 0 {
        false
    } else {
        match after_reply(state, pid, env(asks(state, pid))) {
            ProgressModel::Again(next) => answers_after(next, pid, env, (n - 1) as nat, attempt),
            ProgressModel::Done(a) => n == 1 && a == attempt,
        }
    }
}

/// The labels of a list of backends.
pub open spec fn labels(backends: Seq<Backend>) -> Seq<Seq<char>> {
    backends.map_values(|b: Backend| label_of(b))
}

/// The sum of a list of numbers.
pub open spec fn total(counts: Seq<nat>) -> nat
    decreases counts.len(),
{
    if counts.len() == 0 {
        0
    } else {
        counts[0] + total(counts.drop_first())
    }
}

proof fn lemma_replies_add(step: StepModel, env: spec_fn(AskModel) -> Reply, m: nat, n: nat)
    ensures
        after_replies(step, env, m + n) == after_replies(after_replies(step, env, m), env, n),
    decreases m,
{
    if m > 0 {
        match step {
            StepModel::Asking(w) => {
                lemma_replies_add(
                    walk_after(w, env(asks(w.state, w.pid))),
                    env,
                    (m - 1) as nat,
                    n,
                );
            },
            StepModel::Over(_) => {
                lemma_over_stays(step, env, m + n);
                lemma_over_stays(step, env, n);
            },
        }
    }
}

proof fn lemma_over_stays(step: StepModel, env: spec_fn(AskModel) -> Reply, n: nat)
    requires
        step is Over,
    ensures
        after_replies(step, env, n) == step,
{
}

proof fn lemma_one_backend(w: WalkModel, env: spec_fn(AskModel) -> Reply, n: nat, attempt: AttemptModel)
    requires
        answers_after(w.state, w.pid, env, n, attempt),
    ensures
        after_replies(StepModel::Asking(w), env, n) == match outcome_of(
            label_of(w.backends[w.at]),
            attempt,
        ) {
            Some(outcome) => StepModel::Over(outcome),
            None => turn_of(w.pid, w.backends, w.at + 1),
        },
    decreases n,
{
    let reply = env(asks(w.state, w.pid));
    match after_reply(w.state, w.pid, reply) {
        ProgressModel::Again(state) => {
            lemma_one_backend(WalkModel { state, ..w }, env, (n - 1) as nat, attempt);
        },
        ProgressModel::Done(_) => {
            assert(after_replies(walk_after(w, reply), env, 0) == walk_after(w, reply));
        },
    }
}

proof fn lemma_walk_from(
    pid: u32,
    backends: Seq<Backend>,
    at: int,
    env: spec_fn(AskModel) -> Reply,
    attempts: Seq<AttemptModel>,
    counts: Seq<nat>,
)
    requires
        0 <= at <= backends.len(),
        attempts.len() == backends.len() - at,
        counts.len() == attempts.len(),
        forall|i: int|
            0 <= i < attempts.len() ==> answers_after(
                start_of(backends[at + i]),
                pid,
                env,
                counts[i],
                #[trigger] attempts[i],
            ),
    ensures
        after_replies(turn_of(pid, backends, at), env, total(counts)) == StepModel::Over(
            decided(labels(backends).skip(at), attempts),
        ),
    decreases attempts.len(),
{
    if attempts.len() > 0 {
        let w = WalkModel { pid, backends, at, state: start_of(backends[at]) };
        let rest = total(counts.drop_first());
        assert(answers_after(start_of(backends[at + 0]), pid, env, counts[0], attempts[0]));
        lemma_one_backend(w, env, counts[0], attempts[0]);
        lemma_replies_add(StepModel::Asking(w), env, counts[0], rest);
        assert(labels(backends).skip(at)[0] == label_of(backends[at]));
        assert(labels(backends).skip(at).drop_first() =~= labels(backends).skip(at + 1));
        assert forall|i: int| 0 <= i < attempts.drop_first().len() implies answers_after(
            start_of(backends[at + 1 + i]),
            pid,
            env,
            counts.drop_first()[i],
            #[trigger] attempts.drop_first()[i],
        ) by {
            assert(attempts.drop_first()[i] == attempts[i + 1]);
            assert(answers_after(
                start_of(backends[at + (i + 1)]),
                pid,
                env,
                counts[i + 1],
                attempts[i + 1],
            ));
        }
        lemma_walk_from(pid, backends, at + 1, env, attempts.drop_first(), counts.drop_first());
        match outcome_of(label_of(backends[at]), attempts[0]) {
            Some(outcome) => {
                lemma_over_stays(StepModel::Over(outcome), env, rest);
            },
            None => {},
        }
    }
}

/// Whether a backend comes to answer `attempt`.
pub open spec fn gives_answer(
    state: BackendModel,
    pid: u32,
    env: spec_fn(AskModel) -> Reply,
    attempt: AttemptModel,
) -> bool {
    exists|n: nat| answers_after(state, pid, env, n, attempt)
}

/// The answer that a backend comes to.
pub open spec fn answer_of(b: Backend, pid: u32, env: spec_fn(AskModel) -> Reply) -> AttemptModel {
    choose|attempt: AttemptModel| gives_answer(start_of(b), pid, env, attempt)
}

/// The answers that backends come to.
pub open spec fn answers_of(
    backends: Seq<Backend>,
    pid: u32,
    env: spec_fn(AskModel) -> Reply,
) -> Seq<AttemptModel> {
    backends.map_values(|b: Backend| answer_of(b, pid, env))
}

spec fn comes_to_answer(state: BackendModel, pid: u32, env: spec_fn(AskModel) -> Reply) -> bool {
    exists|attempt: AttemptModel| gives_answer(state, pid, env, attempt)
}

/// A backend comes to an answer where it does so after the next reply.
proof fn lemma_answer_after(state: BackendModel, pid: u32, env: spec_fn(AskModel) -> Reply)
    requires
        match after_reply(state, pid, env(asks(state, pid))) {
            ProgressModel::Again(next) => comes_to_answer(next, pid, env),
            ProgressModel::Done(_) => true,
        },
    ensures
        comes_to_answer(state, pid, env),
{
    match after_reply(state, pid, env(asks(state, pid))) {
        ProgressModel::Again(next) => {
            let a = choose|a: AttemptModel| gives_answer(next, pid, env, a);
            let n = choose|n: nat| answers_after(next, pid, env, n, a);
            assert(answers_after(state, pid, env, n + 1, a));
            assert(gives_answer(state, pid, env, a));
        },
        ProgressModel::Done(a) => {
            assert(answers_after(state, pid, env, 1, a));
            assert(gives_answer(state, pid, env, a));
        },
    }
}

/// With an address at hand, the backend for tmux comes to an answer.
proof fn lemma_selecting_ends(target: Seq<char>, pid: u32, env: spec_fn(AskModel) -> Reply)
    ensures
        comes_to_answer(BackendModel::Tmux(TmuxModel::Session(target)), pid, env),
{
    lemma_answer_after(BackendModel::Tmux(TmuxModel::Pane(target)), pid, env);
    lemma_answer_after(BackendModel::Tmux(TmuxModel::Window(target)), pid, env);
    lemma_answer_after(BackendModel::Tmux(TmuxModel::Session(target)), pid, env);
}

/// With panes to check, the backend for tmux comes to an answer.
proof fn lemma_checking_ends(panes: Seq<PaneModel>, pid: u32, env: spec_fn(AskModel) -> Reply)
    ensures
        comes_to_answer(BackendModel::Tmux(TmuxModel::Checking(panes)), pid, env),
    decreases panes.len(),
{
    if panes.len() > 0 {
        lemma_selecting_ends(panes[0].target, pid, env);
        if panes.len() > 1 {
            lemma_selecting_ends(panes.drop_first()[0].target, pid, env);
        }
        lemma_checking_ends(panes.drop_first(), pid, env);
    }
    lemma_answer_after(BackendModel::Tmux(TmuxModel::Checking(panes)), pid, env);
}

proof fn lemma_one_answer(
    state: BackendModel,
    pid: u32,
    env: spec_fn(AskModel) -> Reply,
    m: nat,
    n: nat,
    a: AttemptModel,
    b: AttemptModel,
)
    requires
        answers_after(state, pid, env, m, a),
        answers_after(state, pid, env, n, b),
    ensures
        a == b,
    decreases m,
{
    match after_reply(state, pid, env(asks(state, pid))) {
        ProgressModel::Again(next) => {
            lemma_one_answer(next, pid, env, (m - 1) as nat, (n - 1) as nat, a, b);
        },
        ProgressModel::Done(_) => {},
    }
}

/// Each backend comes to an answer, and to no other, whatever is replied.
pub proof fn law_each_backend_answers(b: Backend, pid: u32, env: spec_fn(AskModel) -> Reply)
    ensures
        gives_answer(start_of(b), pid, env, answer_of(b, pid, env)),
        forall|attempt: AttemptModel| #[trigger]
            gives_answer(start_of(b), pid, env, attempt) ==> attempt == answer_of(b, pid, env),
{
    let start = start_of(b);
    match b {
        Backend::Cmux(_) => {
            match after_reply(start, pid, env(asks(start, pid))) {
                ProgressModel::Again(next) => {
                    lemma_answer_after(next, pid, env);
                },
                ProgressModel::Done(_) => {},
            }
        },
        Backend::ITerm2(_) => {
            match after_reply(start, pid, env(asks(start, pid))) {
                ProgressModel::Again(next) => {
                    lemma_answer_after(next, pid, env);
                },
                ProgressModel::Done(_) => {},
            }
        },
        Backend::Tmux(_) => {
            let listing = BackendModel::Tmux(TmuxModel::Listing);
            match after_reply(listing, pid, env(asks(listing, pid))) {
                ProgressModel::Again(BackendModel::Tmux(TmuxModel::Session(target))) => {
                    lemma_selecting_ends(target, pid, env);
                },
                ProgressModel::Again(BackendModel::Tmux(TmuxModel::Checking(panes))) => {
                    lemma_checking_ends(panes, pid, env);
                },
                _ => {},
            }
            lemma_answer_after(listing, pid, env);
        },
    }
    lemma_answer_after(start, pid, env);
    let it = answer_of(b, pid, env);
    assert(gives_answer(start, pid, env, it));
    assert forall|attempt: AttemptModel| #[trigger]
        gives_answer(start, pid, env, attempt) implies attempt == it by {
        let m = choose|m: nat| answers_after(start, pid, env, m, attempt);
        let n = choose|n: nat| answers_after(start, pid, env, n, it);
        lemma_one_answer(start, pid, env, m, n, attempt, it);
    }
}

/// The first backend of the registry that knows the process decides the walk, whatever is
/// replied: the walk ends with the first of the backends' answers that is not
/// `NotApplicable`, and with `NoOp` where all are.
pub proof fn law_first_applicable_wins(pid: u32, platform: Platform, env: spec_fn(AskModel) -> Reply)
    ensures
        exists|n: nat| #[trigger]
            after_replies(turn_of(pid, registry(platform), 0), env, n) == StepModel::Over(
                decided(labels(registry(platform)), answers_of(registry(platform), pid, env)),
            ),
{
    let backends = registry(platform);
    let attempts = answers_of(backends, pid, env);
    let counts = Seq::new(
        backends.len(),
        |i: int| choose|n: nat| answers_after(start_of(backends[i]), pid, env, n, attempts[i]),
    );
    assert forall|i: int| 0 <= i < attempts.len() implies answers_after(
        start_of(backends[0 + i]),
        pid,
        env,
        counts[i],
        #[trigger] attempts[i],
    ) by {
        law_each_backend_answers(backends[i], pid, env);
        assert(attempts[i] == answer_of(backends[i], pid, env));
        assert(gives_answer(start_of(backends[i]), pid, env, attempts[i]));
    }
    lemma_walk_from(pid, backends, 0, env, attempts, counts);
    assert(labels(backends).skip(0) =~= labels(backends));
    assert(after_replies(turn_of(pid, backends, 0), env, total(counts)) == StepModel::Over(
        decided(labels(backends), attempts),
    ));
}

/// The backends are tried in this order, each under its own label and from its first
/// question on; iTerm2 only on macOS.
pub proof fn law_registry_is_ordered(pid: u32)
    ensures
        registry(Platform::MacOs).len() == 3,
        registry(Platform::Other).len() == 2,
        registry(Platform::Windows).len() == 2,
        forall|platform: Platform| #[trigger] registry(platform)[0] is Cmux && registry(platform)[1] is Tmux,
        registry(Platform::MacOs)[2] is ITerm2,
        labels(registry(Platform::MacOs)) == seq!["cmux"@, "tmux"@, "iterm2"@],
        labels(registry(Platform::Other)) == seq!["cmux"@, "tmux"@],
        asks(start_of(registry(Platform::MacOs)[0]), pid) == (AskModel::Run {
            program: "ps"@,
            args: seq!["eww"@, "-p"@, decimal(pid as nat)],
        }),
        asks(start_of(registry(Platform::MacOs)[1]), pid) == AskModel::EnvSet("TMUX"@),
        asks(start_of(registry(Platform::MacOs)[2]), pid) == (AskModel::Run {
            program: "ps"@,
            args: seq!["-o"@, "tty="@, "-p"@, decimal(pid as nat)],
        }),
{
    assert(labels(registry(Platform::MacOs)) =~= seq!["cmux"@, "tmux"@, "iterm2"@]);
    assert(labels(registry(Platform::Other)) =~= seq!["cmux"@, "tmux"@]);
}

} // verus!
