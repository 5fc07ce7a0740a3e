//! Running a chain of steps, one after the other, as a state machine: the
//! caller does the outside work each action asks for (look at a file, write
//! one, start a program, wait for it) and reports back what happened; the
//! machine decides what is reported and what comes next.

use vstd::prelude::*;
use crate::compile::{ProgressKind, Step};
use crate::runner::{exit_event, skipped_line, step_exited, ProgressEvent};
use crate::text::{clone_strings, owned, views};

verus! {

/// Where the run of the current step stands.
#[derive(Debug, Clone, Copy, PartialEq, Eq, Structural)]
pub enum Stage {
    /// Between steps: the next one has not been looked at yet.
    BeforeStep,
    /// Waiting to hear whether the step's product is already there.
    AwaitProduct,
    /// Waiting for the step's configuration file to be written.
    AwaitPrepare,
    /// Waiting for the step's program to start.
    AwaitSpawn,
    /// The step's program runs.
    Running,
    /// The run is over: finished, failed or cancelled.
    Over,
}

/// Why a step's configuration file could not be written.
#[derive(Debug)]
pub enum PrepareFailure {
    /// The folder for it could not be created.
    Folder { folder: String, error: String },
    /// The file itself could not be written.
    Write { error: String },
}

/// What the caller reports.
#[derive(Debug)]
pub enum RunnerEvent {
    /// Ready for the next step; whether cancellation has been asked for.
    Ready { cancelled: bool },
    /// Whether the step's product already exists and is not empty.
    ProductChecked { ready: bool },
    /// The configuration file was written, or why not.
    PrepareDone { failure: Option<PrepareFailure> },
    /// The program was started, or why not.
    SpawnDone { error: Option<String> },
    /// Cancellation was asked for while the program ran; it has been stopped.
    Cancelled,
    /// Waiting for the program failed.
    WaitFailed { message: String },
    /// The program exited.
    Exited { success: bool, status: String, tail: Vec<String> },
}

/// What the caller has to do next.
#[derive(Debug)]
pub enum RunnerAction {
    /// Check for cancellation and report `Ready`.
    CheckCancel,
    /// Look whether this file exists and is not empty; report `ProductChecked`.
    CheckProduct { path: String },
    /// Write this file; report `PrepareDone`.
    Prepare { path: String, contents: String },
    /// Start this program; report `SpawnDone`.
    Spawn { program: String, args: Vec<String>, progress: ProgressKind },
    /// Wait for the program; report `Cancelled`, `WaitFailed` or `Exited`.
    Wait,
    /// Nothing more to do.
    Stop,
}

/// A chain of steps being run.
pub struct ChainRun {
    pub steps: Vec<Step>,
    /// Index of the current step.
    pub next: usize,
    pub stage: Stage,
}

/// The message of a configuration file that could not be written.
pub open spec fn prepare_message(f: PrepareFailure, path: Seq<char>) -> Seq<char> {
    match f {
        PrepareFailure::Folder { folder, error } => "не удалось создать папку "@ + folder@ + ": "@
            + error@,
        PrepareFailure::Write { error } => "не удалось записать конфигурацию "@ + path + ": "@
            + error@,
    }
}

/// `e` says that `step` failed with `message` and no tail.
pub open spec fn failed_with(e: ProgressEvent, step: Step, message: Seq<char>) -> bool {
    e matches ProgressEvent::Failed { step_id, message: m, tail } && step_id == step.id && m@
        == message && tail@.len() == 0
}

/// The step starts: it is announced and its program is to be started.
pub open spec fn starting(step: Step, next: usize, b: ChainRun, out: Seq<ProgressEvent>, act: RunnerAction) -> bool {
    &&& b.next == next
    &&& b.stage == Stage::AwaitSpawn
    &&& out.len() == 1
    &&& (out[0] matches ProgressEvent::Started { step_id, title } && step_id == step.id && title@
        == step.title@)
    &&& (act matches RunnerAction::Spawn { program, args, progress } && program@ == step.program@
        && views(args@) == views(step.args@) && progress == step.progress)
}

/// The step goes on past its product check: its configuration file is
/// written first if it has one, then it starts.
pub open spec fn after_product(step: Step, next: usize, b: ChainRun, out: Seq<ProgressEvent>, act: RunnerAction) -> bool {
    match step.prepare {
        Some(f) => {
            &&& b.next == next
            &&& b.stage == Stage::AwaitPrepare
            &&& out.len() == 0
            &&& (act matches RunnerAction::Prepare { path, contents } && path@ == f.path@
                && contents@ == f.contents@)
        },
        None => starting(step, next, b, out, act),
    }
}

/// The run ends here, having reported `out`.
pub open spec fn ends(b: ChainRun, next: usize, act: RunnerAction) -> bool {
    b.stage == Stage::Over && b.next == next && act is Stop
}

/// One move of the machine: from `a`, on `ev`, to `b`, reporting `out` and asking for `act`.
pub open spec fn transition(a: ChainRun, ev: RunnerEvent, b: ChainRun, out: Seq<ProgressEvent>, act: RunnerAction) -> bool {
    &&& b.steps == a.steps
    &&& match (a.stage, ev) {
        (Stage::BeforeStep, RunnerEvent::Ready { cancelled }) => if cancelled {
            out == seq![ProgressEvent::Cancelled] && ends(b, a.next, act)
        } else if a.next >= a.steps@.len() {
            out.len() == 0 && ends(b, a.next, act)
        } else {
            let step = a.steps@[a.next as int];
            match step.produces {
                Some(p) => {
                    &&& b.next == a.next
                    &&& b.stage == Stage::AwaitProduct
                    &&& out.len() == 0
                    &&& (act matches RunnerAction::CheckProduct { path } && path@ == p@)
                },
                None => after_product(step, a.next, b, out, act),
            }
        },
        (Stage::AwaitProduct, RunnerEvent::ProductChecked { ready }) => {
            let step = a.steps@[a.next as int];
            if ready {
                &&& b.next == a.next + 1
                &&& b.stage == Stage::BeforeStep
                &&& act is CheckCancel
                &&& out.len() == 2
                &&& (out[0] matches ProgressEvent::Log { step_id, line } && step_id == step.id
                    && line@ == "пропущен: "@ + step.produces->0@ + " уже готов"@)
                &&& out[1] == ProgressEvent::Finished { step_id: step.id }
            } else {
                after_product(step, a.next, b, out, act)
            }
        },
        (Stage::AwaitPrepare, RunnerEvent::PrepareDone { failure }) => {
            let step = a.steps@[a.next as int];
            match failure {
                Some(f) => out.len() == 1 && failed_with(
                    out[0],
                    step,
                    prepare_message(f, step.prepare->0.path@),
                ) && ends(b, a.next, act),
                None => starting(step, a.next, b, out, act),
            }
        },
        (Stage::AwaitSpawn, RunnerEvent::SpawnDone { error }) => {
            let step = a.steps@[a.next as int];
            match error {
                Some(e) => out.len() == 1 && failed_with(
                    out[0],
                    step,
                    "не удалось запустить "@ + step.program@ + ": "@ + e@,
                ) && ends(b, a.next, act),
                None => b.next == a.next && b.stage == Stage::Running && out.len() == 0
                    && act is Wait,
            }
        },
        (Stage::Running, RunnerEvent::Cancelled) => out == seq![ProgressEvent::Cancelled] && ends(
            b,
            a.next,
            act,
        ),
        (Stage::Running, RunnerEvent::WaitFailed { message }) => out.len() == 1 && failed_with(
            out[0],
            a.steps@[a.next as int],
            message@,
        ) && ends(b, a.next, act),
        (Stage::Running, RunnerEvent::Exited { success, status, tail }) => {
            &&& out.len() == 1
            &&& exit_event(a.steps@[a.next as int], success, status@, tail, out[0])
            &&& if success {
                b.next == a.next + 1 && b.stage == Stage::BeforeStep && act is CheckCancel
            } else {
                ends(b, a.next, act)
            }
        },
        _ => out.len() == 0 && ends(b, a.next, act),
    }
}

/// The started program, as the spawn action gives it.
fn spawn_action(step: &Step) -> (act: RunnerAction)
    ensures
        act matches RunnerAction::Spawn { program, args, progress } && program@ == step.program@
            && views(args@) == views(step.args@) && progress == step.progress,
{
    RunnerAction::Spawn {
        program: step.program.clone(),
        args: clone_strings(&step.args),
        progress: step.progress,
    }
}

impl ChainRun {
    /// Every stage inside a step points at an existing step, and the step
    /// awaiting a product check or a configuration file has one.
    pub open spec fn wf(self) -> bool {
        &&& self.next <= self.steps@.len()
        &&& (self.stage == Stage::AwaitProduct || self.stage == Stage::AwaitPrepare || self.stage
            == Stage::AwaitSpawn || self.stage == Stage::Running) ==> self.next < self.steps@.len()
        &&& self.stage == Stage::AwaitProduct ==> self.steps@[self.next as int].produces is Some
        &&& self.stage == Stage::AwaitPrepare ==> self.steps@[self.next as int].prepare is Some
    }

    /// A run of `steps` that has not begun; the first action is to check for
    /// cancellation.
    pub fn new(steps: Vec<Step>) -> (r: Self)
        ensures
            r.wf(),
            r.steps == steps,
            r.next == 0,
            r.stage == Stage::BeforeStep,
    {
        ChainRun { steps, next: 0, stage: Stage::BeforeStep }
    }

    /// Starts the current step (announces it and asks for its program).
    fn start(&mut self) -> (r: (Vec<ProgressEvent>, RunnerAction))
        requires
            old(self).next < old(self).steps@.len(),
        ensures
            final(self).steps == old(self).steps,
            starting(old(self).steps@[old(self).next as int], old(self).next, *final(self), r.0@, r.1),
    {
        let step = &self.steps[self.next];
        let mut out: Vec<ProgressEvent> = Vec::new();
        out.push(ProgressEvent::Started { step_id: step.id, title: step.title.clone() });
        let act = spawn_action(step);
        self.stage = Stage::AwaitSpawn;
        (out, act)
    }

    /// Goes on past the product check: the configuration file first, if any.
    fn after_product(&mut self) -> (r: (Vec<ProgressEvent>, RunnerAction))
        requires
            old(self).next < old(self).steps@.len(),
        ensures
            final(self).steps == old(self).steps,
            after_product(old(self).steps@[old(self).next as int], old(self).next, *final(self), r.0@, r.1),
    {
        match &self.steps[self.next].prepare {
            Some(f) => {
                let act = RunnerAction::Prepare { path: f.path.clone(), contents: f.contents.clone() };
                self.stage = Stage::AwaitPrepare;
                (Vec::new(), act)
            },
            None => self.start(),
        }
    }

    fn end(&mut self, out: Vec<ProgressEvent>) -> (r: (Vec<ProgressEvent>, RunnerAction))
        ensures
            final(self).steps == old(self).steps,
            ends(*final(self), old(self).next, r.1),
            r.0 == out,
    {
        self.stage = Stage::Over;
        (out, RunnerAction::Stop)
    }

    fn failure(&mut self, message: String) -> (r: (Vec<ProgressEvent>, RunnerAction))
        requires
            old(self).next < old(self).steps@.len(),
        ensures
            final(self).steps == old(self).steps,
            ends(*final(self), old(self).next, r.1),
            r.0@.len() == 1,
            failed_with(r.0@[0], old(self).steps@[old(self).next as int], message@),
    {
        let id = self.steps[self.next].id;
        let mut out: Vec<ProgressEvent> = Vec::new();
        out.push(ProgressEvent::Failed { step_id: id, message, tail: Vec::new() });
        self.end(out)
    }

    /// One move: takes what the caller reports, returns the events to pass
    /// on and the next thing to do (see [`transition`]).
    pub fn on(&mut self, ev: RunnerEvent) -> (r: (Vec<ProgressEvent>, RunnerAction))
        requires
            old(self).wf(),
        ensures
            final(self).wf(),
            transition(*old(self), ev, *final(self), r.0@, r.1),
    {
        match (self.stage, ev) {
            (Stage::BeforeStep, RunnerEvent::Ready { cancelled }) => {
                if cancelled {
                    let mut out: Vec<ProgressEvent> = Vec::new();
                    out.push(ProgressEvent::Cancelled);
                    assert(out@ =~= seq![ProgressEvent::Cancelled]);
                    return self.end(out);
                }
                if self.next >= self.steps.len() {
                    return self.end(Vec::new());
                }
                match &self.steps[self.next].produces {
                    Some(p) => {
                        let act = RunnerAction::CheckProduct { path: p.clone() };
                        self.stage = Stage::AwaitProduct;
                        (Vec::new(), act)
                    },
                    None => self.after_product(),
                }
            },
            (Stage::AwaitProduct, RunnerEvent::ProductChecked { ready }) => {
                if ready {
                    let step = &self.steps[self.next];
                    let line = match &step.produces {
                        Some(p) => skipped_line(p.as_str()),
                        None => String::new(),
                    };
                    let mut out: Vec<ProgressEvent> = Vec::new();
                    out.push(ProgressEvent::Log { step_id: step.id, line });
                    out.push(ProgressEvent::Finished { step_id: step.id });
                    let n = self.steps.len();
                    assert(self.next < n);
                    self.next = self.next + 1;
                    self.stage = Stage::BeforeStep;
                    (out, RunnerAction::CheckCancel)
                } else {
                    self.after_product()
                }
            },
            (Stage::AwaitPrepare, RunnerEvent::PrepareDone { failure }) => match failure {
                Some(f) => {
                    let message = match (f, &self.steps[self.next].prepare) {
                        (PrepareFailure::Folder { folder, error }, _) => {
                            let mut m = owned("не удалось создать папку ");
                            m.append(folder.as_str());
                            m.append(": ");
                            m.append(error.as_str());
                            m
                        },
                        (PrepareFailure::Write { error }, Some(pf)) => {
                            let mut m = owned("не удалось записать конфигурацию ");
                            m.append(pf.path.as_str());
                            m.append(": ");
                            m.append(error.as_str());
                            m
                        },
                        (PrepareFailure::Write { .. }, None) => String::new(),
                    };
                    self.failure(message)
                },
                None => self.start(),
            },
            (Stage::AwaitSpawn, RunnerEvent::SpawnDone { error }) => match error {
                Some(e) => {
                    let mut m = owned("не удалось запустить ");
                    m.append(self.steps[self.next].program.as_str());
                    m.append(": ");
                    m.append(e.as_str());
                    self.failure(m)
                },
                None => {
                    self.stage = Stage::Running;
                    (Vec::new(), RunnerAction::Wait)
                },
            },
            (Stage::Running, RunnerEvent::Cancelled) => {
                let mut out: Vec<ProgressEvent> = Vec::new();
                out.push(ProgressEvent::Cancelled);
                assert(out@ =~= seq![ProgressEvent::Cancelled]);
                self.end(out)
            },
            (Stage::Running, RunnerEvent::WaitFailed { message }) => self.failure(message),
            (Stage::Running, RunnerEvent::Exited { success, status, tail }) => {
                let e = step_exited(&self.steps[self.next], success, status.as_str(), tail);
                let mut out: Vec<ProgressEvent> = Vec::new();
                out.push(e);
                if success {
                    let n = self.steps.len();
                    assert(self.next < n);
                    self.next = self.next + 1;
                    self.stage = Stage::BeforeStep;
                    (out, RunnerAction::CheckCancel)
                } else {
                    self.end(out)
                }
            },
            _ => self.end(Vec::new()),
        }
    }
}

/// A run that is over stays over: whatever is reported, nothing more is
/// announced and nothing more is done.
pub proof fn law_over_is_final(a: ChainRun, ev: RunnerEvent, b: ChainRun, out: Seq<ProgressEvent>, act: RunnerAction)
    requires
        a.stage == Stage::Over,
        transition(a, ev, b, out, act),
    ensures
        out.len() == 0,
        b.stage == Stage::Over,
        act is Stop,
{
}

/// Steps run in order, each at most once: a move either stays on the
/// current step or passes to the next one, and it passes on only after the
/// step was reported finished (run, or skipped because its product was
/// there). A failure or a cancellation ends the run.
pub proof fn law_steps_run_in_order(a: ChainRun, ev: RunnerEvent, b: ChainRun, out: Seq<ProgressEvent>, act: RunnerAction)
    requires
        a.wf(),
        transition(a, ev, b, out, act),
    ensures
        b.next == a.next || b.next == a.next + 1,
        b.next == a.next + 1 ==> out.len() > 0 && out.last() == (ProgressEvent::Finished {
            step_id: a.steps@[a.next as int].id,
        }),
        out.len() > 0 && (out.last() is Failed || out.last() is Cancelled) ==> b.stage == Stage::Over
            && act is Stop,
{
}

/// A step with no product to look for and no file to prepare, whose program
/// starts and exits successfully, is reported started and then finished, its
/// program is started once, and the run passes to the next step.
pub proof fn law_a_successful_step(
    a0: ChainRun,
    a1: ChainRun,
    o1: Seq<ProgressEvent>,
    c1: RunnerAction,
    a2: ChainRun,
    o2: Seq<ProgressEvent>,
    c2: RunnerAction,
    a3: ChainRun,
    o3: Seq<ProgressEvent>,
    c3: RunnerAction,
    status: String,
    tail: Vec<String>,
)
    requires
        a0.wf(),
        a0.stage == Stage::BeforeStep,
        a0.next < a0.steps@.len(),
        a0.steps@[a0.next as int].produces is None,
        a0.steps@[a0.next as int].prepare is None,
        transition(a0, RunnerEvent::Ready { cancelled: false }, a1, o1, c1),
        transition(a1, RunnerEvent::SpawnDone { error: None }, a2, o2, c2),
        transition(a2, RunnerEvent::Exited { success: true, status, tail }, a3, o3, c3),
    ensures
        ({
            let step = a0.steps@[a0.next as int];
            let out = o1 + o2 + o3;
            &&& out.len() == 2
            &&& (out[0] matches ProgressEvent::Started { step_id, title } && step_id == step.id
                && title@ == step.title@)
            &&& out[1] == (ProgressEvent::Finished { step_id: step.id })
            &&& (c1 matches RunnerAction::Spawn { program, args, .. } && program@ == step.program@
                && views(args@) == views(step.args@))
            &&& c2 is Wait
            &&& a3.steps == a0.steps && a3.next == a0.next + 1 && a3.stage == Stage::BeforeStep
            &&& c3 is CheckCancel
        }),
{
    assert((o1 + o2 + o3)[0] == o1[0]);
    assert((o1 + o2 + o3)[1] == o3[0]);
}

/// A step whose program exits with a failure ends the run: it was reported
/// started, then failed with the exit status and the kept tail of its error
/// output, and nothing is done or reported afterwards, so no later step starts.
pub proof fn law_a_failing_step_ends_the_run(
    a0: ChainRun,
    a1: ChainRun,
    o1: Seq<ProgressEvent>,
    c1: RunnerAction,
    a2: ChainRun,
    o2: Seq<ProgressEvent>,
    c2: RunnerAction,
    a3: ChainRun,
    o3: Seq<ProgressEvent>,
    c3: RunnerAction,
    status: String,
    tail: Vec<String>,
    ev: RunnerEvent,
    a4: ChainRun,
    o4: Seq<ProgressEvent>,
    c4: RunnerAction,
)
    requires
        a0.wf(),
        a0.stage == Stage::BeforeStep,
        a0.next < a0.steps@.len(),
        a0.steps@[a0.next as int].produces is None,
        a0.steps@[a0.next as int].prepare is None,
        transition(a0, RunnerEvent::Ready { cancelled: false }, a1, o1, c1),
        transition(a1, RunnerEvent::SpawnDone { error: None }, a2, o2, c2),
        transition(a2, RunnerEvent::Exited { success: false, status, tail }, a3, o3, c3),
        transition(a3, ev, a4, o4, c4),
    ensures
        ({
            let step = a0.steps@[a0.next as int];
            let out = o1 + o2 + o3;
            &&& out.len() == 2
            &&& (out[0] matches ProgressEvent::Started { step_id, .. } && step_id == step.id)
            &&& (out[1] matches ProgressEvent::Failed { step_id, message, tail: t } && step_id
                == step.id && message@ == step.program@ + " завершился с кодом "@ + status@ && t
                == tail)
            &&& a3.stage == Stage::Over && c3 is Stop
            &&& o4.len() == 0 && c4 is Stop && a4.stage == Stage::Over
        }),
{
    assert((o1 + o2 + o3)[0] == o1[0]);
    assert((o1 + o2 + o3)[1] == o3[0]);
}

/// Cancellation, asked for before a step begins or while its program runs,
/// ends the run at once: the only event reported is `Cancelled`, no step is
/// reported finished or started, and nothing more is done.
pub proof fn law_cancellation_ends_the_run(
    a: ChainRun,
    ev: RunnerEvent,
    b: ChainRun,
    out: Seq<ProgressEvent>,
    act: RunnerAction,
)
    requires
        transition(a, ev, b, out, act),
        (a.stage == Stage::BeforeStep && ev == (RunnerEvent::Ready { cancelled: true })) || (
        a.stage == Stage::Running && ev is Cancelled),
    ensures
        out == seq![ProgressEvent::Cancelled],
        b.stage == Stage::Over,
        b.next == a.next,
        act is Stop,
{
}

/// A step with a file to prepare asks for that file to be written before it
/// is announced or its program started, and starts once it is written.
pub proof fn law_prepared_file_comes_first(
    a0: ChainRun,
    a1: ChainRun,
    o1: Seq<ProgressEvent>,
    c1: RunnerAction,
    a2: ChainRun,
    o2: Seq<ProgressEvent>,
    c2: RunnerAction,
)
    requires
        a0.wf(),
        a0.stage == Stage::BeforeStep,
        a0.next < a0.steps@.len(),
        a0.steps@[a0.next as int].produces is None,
        a0.steps@[a0.next as int].prepare is Some,
        transition(a0, RunnerEvent::Ready { cancelled: false }, a1, o1, c1),
        transition(a1, RunnerEvent::PrepareDone { failure: None }, a2, o2, c2),
    ensures
        ({
            let step = a0.steps@[a0.next as int];
            let f = step.prepare->0;
            &&& o1.len() == 0
            &&& (c1 matches RunnerAction::Prepare { path, contents } && path@ == f.path@
                && contents@ == f.contents@)
            &&& o2.len() == 1
            &&& (o2[0] matches ProgressEvent::Started { step_id, .. } && step_id == step.id)
            &&& (c2 matches RunnerAction::Spawn { program, .. } && program@ == step.program@)
        }),
{
}

/// A step whose product is already there is reported skipped and finished,
/// its program is not started, and the run passes to the next step.
pub proof fn law_a_ready_product_skips_the_step(
    a0: ChainRun,
    a1: ChainRun,
    o1: Seq<ProgressEvent>,
    c1: RunnerAction,
    a2: ChainRun,
    o2: Seq<ProgressEvent>,
    c2: RunnerAction,
)
    requires
        a0.wf(),
        a0.stage == Stage::BeforeStep,
        a0.next < a0.steps@.len(),
        a0.steps@[a0.next as int].produces is Some,
        transition(a0, RunnerEvent::Ready { cancelled: false }, a1, o1, c1),
        transition(a1, RunnerEvent::ProductChecked { ready: true }, a2, o2, c2),
    ensures
        ({
            let step = a0.steps@[a0.next as int];
            &&& o1.len() == 0
            &&& (c1 matches RunnerAction::CheckProduct { path } && path@ == step.produces->0@)
            &&& o2.len() == 2
            &&& (o2[0] matches ProgressEvent::Log { step_id, .. } && step_id == step.id)
            &&& o2[1] == (ProgressEvent::Finished { step_id: step.id })
            &&& c2 is CheckCancel
            &&& a2.next == a0.next + 1 && a2.stage == Stage::BeforeStep
        }),
{
}

} // verus!
