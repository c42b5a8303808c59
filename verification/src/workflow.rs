//! The workflow orchestrator: a script of steps, run one device command at a
//! time.
//!
//! A `Flow` never touches a device. It is told what happened (`Event`) and
//! answers with what to do next (`Action`): run a command, wait, or stop with
//! an outcome. Whoever drives it performs the action and comes back with the
//! event that the action led to. Between two actions the flow can be
//! cancelled; a command that is already running is left to end, and what it
//! reports is dropped.
//!
//! A step that looks at the screen runs through one cycle: the flow asks for a
//! dump (`Stage::Dumping`), reads and searches it, and then acts on what it
//! found (`Stage::Acting`), lets the screen settle (`Stage::Pausing`) and goes
//! on, or gives up (`Stage::Finished`). A check is a step of the same kind that
//! taps nothing. What a step does when it finds its target and when it does
//! not is part of the script: tap a point, wait, jump over the steps that
//! follow, or fail. A fallback is a step further down the script, so every
//! step is tried once and a flow of `n` steps asks for at most `4 * n + 4`
//! actions.
//!
//! A failed device command ends the flow unless its step says otherwise, and
//! so does a dump that cannot be parsed where a step needs the tree.
//!
//! Text that is looked for anywhere in a dump is compared as it stands. A
//! step that taps an element compares as its `Field` says, and a check of the
//! elements of the screen takes upper and lower case as one: the marker and
//! what an element holds are both folded to lower case first.

use crate::actions::{Command, CommandView};
use crate::client::AdbClient;
use crate::decide::{
    all_present, choose_target, find_keyword, first_present, holds_all, strings, target, Field,
    Pick,
};
use crate::element::{ElementView, UIElement};
use crate::error::ParseError;
use crate::markup::{parse_document, parsed_view};
use crate::search::{collect, lowercase, ref_views, Query, QueryView};
use crate::text::{chars_of, trim, trim_chars};
use vstd::prelude::*;

verus! {

/// How a flow ended.
#[derive(Debug, PartialEq, Eq)]
pub enum Outcome {
    /// Every step was carried out.
    Completed,
    /// The flow was cancelled between two steps.
    Stopped,
    /// A device command failed; the text is what the executor reported.
    DeviceFailed(String),
    /// A dump could not be read.
    ParseFailed(ParseError),
    /// A step found none of its keywords on the screen.
    ElementNotFound,
    /// A check did not find its marker on the screen.
    VerificationInconclusive,
    /// The flow was told of something that cannot follow what it had asked
    /// for.
    Unexpected,
}

/// How a flow ended, as mathematical values.
pub ghost enum OutcomeView {
    Completed,
    Stopped,
    DeviceFailed(Seq<char>),
    ParseFailed(ParseError),
    ElementNotFound,
    VerificationInconclusive,
    Unexpected,
}

impl View for Outcome {
    type V = OutcomeView;

    open spec fn view(&self) -> OutcomeView {
        match self {
            Outcome::Completed => OutcomeView::Completed,
            Outcome::Stopped => OutcomeView::Stopped,
            Outcome::DeviceFailed(m) => OutcomeView::DeviceFailed(m@),
            Outcome::ParseFailed(e) => OutcomeView::ParseFailed(*e),
            Outcome::ElementNotFound => OutcomeView::ElementNotFound,
            Outcome::VerificationInconclusive => OutcomeView::VerificationInconclusive,
            Outcome::Unexpected => OutcomeView::Unexpected,
        }
    }
}

impl Clone for Outcome {
    fn clone(&self) -> (r: Self)
        ensures
            r@ == self@,
    {
        match self {
            Outcome::Completed => Outcome::Completed,
            Outcome::Stopped => Outcome::Stopped,
            Outcome::DeviceFailed(m) => Outcome::DeviceFailed(m.clone()),
            Outcome::ParseFailed(e) => Outcome::ParseFailed(*e),
            Outcome::ElementNotFound => Outcome::ElementNotFound,
            Outcome::VerificationInconclusive => Outcome::VerificationInconclusive,
            Outcome::Unexpected => Outcome::Unexpected,
        }
    }
}

impl Outcome {
    /// Whether the flow did all that it was meant to do.
    pub fn is_success(&self) -> (r: bool)
        ensures
            r == (self@ == OutcomeView::Completed),
    {
        match self {
            Outcome::Completed => true,
            _ => false,
        }
    }
}

/// What a flow asks its driver to do next.
#[derive(Debug)]
pub enum Action {
    /// Run a device command and report what came of it.
    Run(Command),
    /// Wait for so many milliseconds and report back.
    Wait { ms: u64 },
    /// Nothing more: the flow has ended.
    Finish(Outcome),
}

/// An action, as mathematical values.
pub ghost enum ActionView {
    Run(CommandView),
    Wait { ms: u64 },
    Finish(OutcomeView),
}

impl View for Action {
    type V = ActionView;

    open spec fn view(&self) -> ActionView {
        match self {
            Action::Run(c) => ActionView::Run(c@),
            Action::Wait { ms } => ActionView::Wait { ms: *ms },
            Action::Finish(o) => ActionView::Finish(o@),
        }
    }
}

/// What a flow is told.
#[derive(Debug)]
pub enum Event {
    /// Start.
    Begin,
    /// The command succeeded; the text is what it wrote, for a dump the dump.
    Output(String),
    /// The command failed; the text is what the executor reported.
    Failed(String),
    /// The wait is over.
    Waited,
    /// Stop here.
    Cancel,
}

/// An event, as mathematical values.
pub ghost enum EventView {
    Begin,
    Output(Seq<char>),
    Failed(Seq<char>),
    Waited,
    Cancel,
}

impl View for Event {
    type V = EventView;

    open spec fn view(&self) -> EventView {
        match self {
            Event::Begin => EventView::Begin,
            Event::Output(t) => EventView::Output(t@),
            Event::Failed(t) => EventView::Failed(t@),
            Event::Waited => EventView::Waited,
            Event::Cancel => EventView::Cancel,
        }
    }
}

/// Where a step looks for its keywords.
#[derive(Clone, Copy, Debug, PartialEq, Eq, Structural)]
pub enum Scope {
    /// In the text and the description of the elements of the parsed dump,
    /// upper and lower case taken as one.
    Elements,
    /// Anywhere in the text of the dump.
    RawText,
}

/// Why a step gives up.
#[derive(Clone, Copy, Debug, PartialEq, Eq, Structural)]
pub enum Failure {
    Parse(ParseError),
    ElementNotFound,
    VerificationInconclusive,
}

/// What a step does once it knows what the screen holds.
#[derive(Clone, Copy, Debug, PartialEq, Eq)]
pub enum Reaction {
    /// Tap `tap`, if there is one; wait `wait_ms`, if that is not zero; then
    /// pass over the next `skip` steps and go on.
    Go { tap: Option<(i32, i32)>, wait_ms: u64, skip: usize },
    /// End the flow.
    Fail(Failure),
}

/// Which output of a command counts as accepted.
#[derive(Debug)]
pub enum Accept {
    /// Any.
    Always,
    /// One that holds one of the keywords, or that is empty where `or_empty`
    /// is set.
    Output { keywords: Vec<String>, or_empty: bool },
    /// One that is not blank and holds none of the keywords.
    Without { keywords: Vec<String> },
}

/// Which output counts as accepted, as mathematical values.
pub ghost enum AcceptView {
    Always,
    Output { keywords: Seq<Seq<char>>, or_empty: bool },
    Without { keywords: Seq<Seq<char>> },
}

impl View for Accept {
    type V = AcceptView;

    open spec fn view(&self) -> AcceptView {
        match self {
            Accept::Always => AcceptView::Always,
            Accept::Output { keywords, or_empty } => AcceptView::Output {
                keywords: strings(keywords@),
                or_empty: *or_empty,
            },
            Accept::Without { keywords } => AcceptView::Without { keywords: strings(keywords@) },
        }
    }
}

/// One step of a script.
#[derive(Debug)]
pub enum Step {
    /// Wait.
    Wait { ms: u64 },
    /// Run a command. Where it succeeds with an accepted output, pass over
    /// the next `skip` steps. Where it succeeds with another output, end the
    /// flow with `reject` if that is given, and go on with the next step if
    /// not. Where it fails, end the flow if the step is required, and pass
    /// over the next `failed_skip` steps if it is not.
    Run {
        command: Command,
        accept: Accept,
        skip: usize,
        reject: Option<Failure>,
        required: bool,
        failed_skip: usize,
    },
    /// Read the screen and react: with `hit` where it holds one of the
    /// keywords, with `miss` where it holds none.
    Probe { keywords: Vec<String>, scope: Scope, hit: Reaction, miss: Reaction },
    /// Read the text of the dump and react: with `hit` where it holds one of
    /// the words `one_of` or every one of the words `each_of`, with `miss`
    /// where it does neither.
    Recognise { one_of: Vec<String>, each_of: Vec<String>, hit: Reaction, miss: Reaction },
    /// Read the screen as a tree. Where a keyword gives an element, tap it
    /// `drop` pixels below its centre, wait `settle_ms` and pass over the next
    /// `skip` steps; where none does, react with `missing`.
    Click {
        keywords: Vec<String>,
        field: Field,
        pick: Pick,
        drop: i32,
        settle_ms: u64,
        skip: usize,
        missing: Reaction,
    },
    /// End the flow as failed. Nothing is asked of the device.
    GiveUp { failure: Failure },
}

/// A step, as mathematical values.
pub ghost enum StepView {
    Wait { ms: u64 },
    Run {
        command: CommandView,
        accept: AcceptView,
        skip: usize,
        reject: Option<Failure>,
        required: bool,
        failed_skip: usize,
    },
    Probe { keywords: Seq<Seq<char>>, scope: Scope, hit: Reaction, miss: Reaction },
    Recognise { one_of: Seq<Seq<char>>, each_of: Seq<Seq<char>>, hit: Reaction, miss: Reaction },
    Click {
        keywords: Seq<Seq<char>>,
        field: Field,
        pick: Pick,
        drop: i32,
        settle_ms: u64,
        skip: usize,
        missing: Reaction,
    },
    GiveUp { failure: Failure },
}

impl View for Step {
    type V = StepView;

    open spec fn view(&self) -> StepView {
        match self {
            Step::Wait { ms } => StepView::Wait { ms: *ms },
            Step::Run { command, accept, skip, reject, required, failed_skip } => StepView::Run {
                command: command@,
                accept: accept@,
                skip: *skip,
                reject: *reject,
                required: *required,
                failed_skip: *failed_skip,
            },
            Step::Probe { keywords, scope, hit, miss } => StepView::Probe {
                keywords: strings(keywords@),
                scope: *scope,
                hit: *hit,
                miss: *miss,
            },
            Step::Recognise { one_of, each_of, hit, miss } => StepView::Recognise {
                one_of: strings(one_of@),
                each_of: strings(each_of@),
                hit: *hit,
                miss: *miss,
            },
            Step::Click { keywords, field, pick, drop, settle_ms, skip, missing } => StepView::Click {
                keywords: strings(keywords@),
                field: *field,
                pick: *pick,
                drop: *drop,
                settle_ms: *settle_ms,
                skip: *skip,
                missing: *missing,
            },
            Step::GiveUp { failure } => StepView::GiveUp { failure: *failure },
        }
    }
}

/// The views of the steps of a script.
pub open spec fn steps(script: Seq<Step>) -> Seq<StepView> {
    script.map_values(|s: Step| s@)
}

/// Where in the cycle of its current step a flow stands.
#[derive(Clone, Copy, Debug, PartialEq, Eq, Structural)]
pub enum Stage {
    /// Not started.
    Ready,
    /// A dump has been asked for.
    Dumping,
    /// A command that acts on the device has been asked for.
    Acting,
    /// A wait has been asked for.
    Pausing,
    /// The flow has ended.
    Finished,
}

/// `y` moved down by `drop`, kept within the range of `i32`.
pub open spec fn lowered(y: i32, drop: i32) -> i32 {
    if y + drop > i32::MAX {
        i32::MAX
    } else if y + drop < i32::MIN {
        i32::MIN
    } else {
        (y + drop) as i32
    }
}

/// The first marker, at position `from` or later, that some element of the
/// screen `root` shows in its text or description, upper and lower case taken
/// as one.
pub open spec fn first_shown(root: ElementView, markers: Seq<Seq<char>>, from: int) -> Option<
    int,
>
    decreases markers.len() - from,
{
    if 0 <= from < markers.len() {
        if QueryView::Folded(lowercase(markers[from])).hits(root).len() > 0 {
            Some(from)
        } else {
            first_shown(root, markers, from + 1)
        }
    } else {
        None
    }
}

/// Whether the output `text` of a command is accepted.
pub open spec fn accepted(accept: AcceptView, text: Seq<char>) -> bool {
    match accept {
        AcceptView::Always => true,
        AcceptView::Output { keywords, or_empty } => (or_empty && text.len() == 0)
            || first_present(text, keywords, 0) is Some,
        AcceptView::Without { keywords } => trim(text).len() > 0 && first_present(
            text,
            keywords,
            0,
        ) is None,
    }
}

/// To go on with the step after next, or further.
pub open spec fn go_on(skip: usize) -> Reaction {
    Reaction::Go { tap: None, wait_ms: 0, skip }
}

/// How the step `step` reacts to the text `text` that it asked for: a dump
/// that parses as `screen`, or the output of its command.
pub open spec fn decide(step: StepView, text: Seq<char>, screen: Result<ElementView, ParseError>)
    -> Reaction {
    match step {
        StepView::Wait { .. } => go_on(0),
        StepView::GiveUp { failure } => Reaction::Fail(failure),
        StepView::Run { accept, skip, reject, .. } => if accepted(accept, text) {
            go_on(skip)
        } else {
            match reject {
                Some(failure) => Reaction::Fail(failure),
                None => go_on(0),
            }
        },
        StepView::Probe { keywords, scope, hit, miss } => match scope {
            Scope::RawText => if first_present(text, keywords, 0) is Some {
                hit
            } else {
                miss
            },
            Scope::Elements => match screen {
                Err(e) => Reaction::Fail(Failure::Parse(e)),
                Ok(root) => if first_shown(root, keywords, 0) is Some {
                    hit
                } else {
                    miss
                },
            },
        },
        StepView::Recognise { one_of, each_of, hit, miss } => if first_present(text, one_of, 0)
            is Some || all_present(text, each_of, 0) {
            hit
        } else {
            miss
        },
        StepView::Click { keywords, field, pick, drop, settle_ms, skip, missing } => match screen {
            Err(e) => Reaction::Fail(Failure::Parse(e)),
            Ok(root) => match target(root, keywords, field, pick, 0) {
                Some((_, p)) => Reaction::Go {
                    tap: Some((p.0, lowered(p.1, drop))),
                    wait_ms: settle_ms,
                    skip,
                },
                None => missing,
            },
        },
    }
}

/// Whether the step reads the screen as a tree of elements.
pub open spec fn needs_tree(step: StepView) -> bool {
    match step {
        StepView::Click { .. } => true,
        StepView::Probe { scope, .. } => scope == Scope::Elements,
        _ => false,
    }
}

/// The state of a flow, as mathematical values.
pub ghost struct FlowView {
    /// The steps.
    pub script: Seq<StepView>,
    /// The position of the current step.
    pub pc: int,
    /// Where in its cycle the current step stands.
    pub stage: Stage,
    /// The wait that follows the command that is running.
    pub pending_wait: u64,
    /// How many steps are passed over once the current step is over.
    pub pending_skip: usize,
    /// How the flow ended, once it has.
    pub outcome: Option<OutcomeView>,
}

/// The flow that has not started on `script`.
pub open spec fn fresh(script: Seq<StepView>) -> FlowView {
    FlowView {
        script,
        pc: 0,
        stage: Stage::Ready,
        pending_wait: 0,
        pending_skip: 0,
        outcome: None,
    }
}

/// The outcome that a failure of a step amounts to.
pub open spec fn outcome_of(failure: Failure) -> OutcomeView {
    match failure {
        Failure::Parse(e) => OutcomeView::ParseFailed(e),
        Failure::ElementNotFound => OutcomeView::ElementNotFound,
        Failure::VerificationInconclusive => OutcomeView::VerificationInconclusive,
    }
}

/// The flow ends with `outcome`.
pub open spec fn finish(f: FlowView, outcome: OutcomeView) -> (FlowView, ActionView) {
    (
        FlowView {
            stage: Stage::Finished,
            pending_wait: 0,
            pending_skip: 0,
            outcome: Some(outcome),
            ..f
        },
        ActionView::Finish(outcome),
    )
}

/// The stage in which a step starts, and the first thing it asks for.
pub open spec fn start_of(step: StepView) -> (Stage, ActionView) {
    match step {
        StepView::Wait { ms } => (Stage::Pausing, ActionView::Wait { ms }),
        StepView::Run { command, .. } => (Stage::Acting, ActionView::Run(command)),
        _ => (Stage::Dumping, ActionView::Run(CommandView::Dump)),
    }
}

/// The flow starts the step at `pc`: it asks for the first thing that the
/// step asks for, or ends as failed where the step is to give up. Where the
/// script has no such step the flow ends as completed.
pub open spec fn enter(f: FlowView, pc: int) -> (FlowView, ActionView) {
    if 0 <= pc < f.script.len() {
        match f.script[pc] {
            StepView::GiveUp { failure } => finish(FlowView { pc, ..f }, outcome_of(failure)),
            step => {
                let (stage, action) = start_of(step);
                (FlowView { pc, stage, pending_wait: 0, pending_skip: 0, ..f }, action)
            },
        }
    } else {
        finish(FlowView { pc: f.script.len() as int, ..f }, OutcomeView::Completed)
    }
}

/// The flow passes over the next `skip` steps and goes on.
pub open spec fn jump(f: FlowView, skip: usize) -> (FlowView, ActionView) {
    enter(f, f.pc + 1 + skip)
}

/// The flow carries out a reaction of its current step.
pub open spec fn apply(f: FlowView, r: Reaction) -> (FlowView, ActionView) {
    match r {
        Reaction::Fail(failure) => finish(f, outcome_of(failure)),
        Reaction::Go { tap: Some(p), wait_ms, skip } => (
            FlowView { stage: Stage::Acting, pending_wait: wait_ms, pending_skip: skip, ..f },
            ActionView::Run(CommandView::Tap { x: p.0, y: p.1 }),
        ),
        Reaction::Go { tap: None, wait_ms, skip } => if wait_ms > 0 {
            (
                FlowView { stage: Stage::Pausing, pending_wait: 0, pending_skip: skip, ..f },
                ActionView::Wait { ms: wait_ms },
            )
        } else {
            jump(f, skip)
        },
    }
}

/// The transition of a flow: its next state and what it asks for, given what
/// it is told and, for a dump, what the dump parses as.
pub open spec fn next_on(f: FlowView, e: EventView, screen: Result<ElementView, ParseError>) -> (
    FlowView,
    ActionView,
) {
    if f.stage == Stage::Finished {
        (
            f,
            ActionView::Finish(
                match f.outcome {
                    Some(o) => o,
                    None => OutcomeView::Unexpected,
                },
            ),
        )
    } else if e is Cancel {
        finish(f, OutcomeView::Stopped)
    } else if f.stage == Stage::Ready {
        if e is Begin {
            enter(f, f.pc)
        } else {
            finish(f, OutcomeView::Unexpected)
        }
    } else if !(0 <= f.pc < f.script.len()) {
        finish(f, OutcomeView::Unexpected)
    } else {
        match (f.stage, e) {
            (Stage::Pausing, EventView::Waited) => jump(f, f.pending_skip),
            (Stage::Acting, EventView::Output(text)) => match f.script[f.pc] {
                StepView::Run { .. } => apply(f, decide(f.script[f.pc], text, screen)),
                _ => apply(
                    f,
                    Reaction::Go { tap: None, wait_ms: f.pending_wait, skip: f.pending_skip },
                ),
            },
            (Stage::Acting, EventView::Failed(m)) => match f.script[f.pc] {
                StepView::Run { required: false, failed_skip, .. } => jump(f, failed_skip),
                _ => finish(f, OutcomeView::DeviceFailed(m)),
            },
            (Stage::Dumping, EventView::Output(text)) => apply(
                f,
                decide(f.script[f.pc], text, screen),
            ),
            (Stage::Dumping, EventView::Failed(m)) => finish(f, OutcomeView::DeviceFailed(m)),
            _ => finish(f, OutcomeView::Unexpected),
        }
    }
}

/// The transition of a flow, with each dump parsed as a markup document.
pub open spec fn next(f: FlowView, e: EventView) -> (FlowView, ActionView) {
    next_on(
        f,
        e,
        match e {
            EventView::Output(text) => parse_document(text),
            _ => Err(ParseError::MalformedMarkup),
        },
    )
}

/// The view of a parsed screen.
pub open spec fn screen_view(screen: Result<UIElement, ParseError>) -> Result<
    ElementView,
    ParseError,
> {
    parsed_view(screen)
}

/// A device on which every command succeeds: what its successive dumps
/// hold, and what its other commands write, each in the order in which they
/// are asked for. A device that runs out of either answers with empty text.
pub ghost struct Device {
    pub dumps: Seq<Seq<char>>,
    pub outputs: Seq<Seq<char>>,
}

/// The first of the texts, or the empty text where there is none.
pub open spec fn head(texts: Seq<Seq<char>>) -> Seq<char> {
    if texts.len() > 0 {
        texts[0]
    } else {
        Seq::empty()
    }
}

/// The texts after the first.
pub open spec fn tail(texts: Seq<Seq<char>>) -> Seq<Seq<char>> {
    if texts.len() > 0 {
        texts.drop_first()
    } else {
        texts
    }
}

/// What the device tells the flow that has asked it for `a`, and the device
/// as it is after that.
pub open spec fn reply(a: ActionView, device: Device) -> (EventView, Device) {
    match a {
        ActionView::Run(CommandView::Dump) => (
            EventView::Output(head(device.dumps)),
            Device { dumps: tail(device.dumps), ..device },
        ),
        ActionView::Run(_) => (
            EventView::Output(head(device.outputs)),
            Device { outputs: tail(device.outputs), ..device },
        ),
        _ => (EventView::Waited, device),
    }
}

/// What the flow `f`, which has just asked for `a`, asks of the device from
/// there on, `a` included, up to its end.
pub open spec fn asks(f: FlowView, a: ActionView, device: Device) -> Seq<ActionView>
    decreases distance(f),
    when sound(f)
{
    if f.stage == Stage::Finished {
        seq![a]
    } else {
        let (event, then) = reply(a, device);
        let (g, b) = next(f, event);
        proof {
            lemma_flow_progress(
                f,
                event,
                match event {
                    EventView::Output(text) => parse_document(text),
                    _ => Err(ParseError::MalformedMarkup),
                },
            );
        }
        seq![a] + asks(g, b, then)
    }
}

/// What a flow on `script` asks of the device from the moment at which it
/// starts the step at `pc`.
#[verifier::opaque]
pub open spec fn from_step(script: Seq<StepView>, pc: int, device: Device) -> Seq<ActionView> {
    let (f, a) = enter(fresh(script), pc);
    asks(f, a, device)
}

/// What a flow on `script` asks of the device, from its start to its end:
/// every command and every wait in order, and last how it ends.
pub open spec fn session(script: Seq<StepView>, device: Device) -> Seq<ActionView> {
    from_step(script, 0, device)
}

/// The wait of `ms` milliseconds, if that is a wait at all.
pub open spec fn pause(ms: u64) -> Seq<ActionView> {
    if ms > 0 {
        seq![ActionView::Wait { ms }]
    } else {
        Seq::empty()
    }
}

/// What a flow asks of the device once the step at `pc` has reacted with `r`:
/// the tap and the wait of the reaction, and then what it asks from the step
/// that the reaction leads to; or only its end, where the reaction is to
/// fail.
pub open spec fn follows(r: Reaction, script: Seq<StepView>, pc: int, device: Device) -> Seq<
    ActionView,
> {
    match r {
        Reaction::Fail(failure) => seq![ActionView::Finish(outcome_of(failure))],
        Reaction::Go { tap: Some(p), wait_ms, skip } => seq![
            ActionView::Run(CommandView::Tap { x: p.0, y: p.1 }),
        ] + pause(wait_ms) + from_step(
            script,
            pc + 1 + skip,
            reply(ActionView::Run(CommandView::Tap { x: p.0, y: p.1 }), device).1,
        ),
        Reaction::Go { tap: None, wait_ms, skip } => pause(wait_ms) + from_step(
            script,
            pc + 1 + skip,
            device,
        ),
    }
}

/// Starting a step does not depend on how the flow came to it.
proof fn lemma_enter_anew(f: FlowView, pc: int)
    requires
        f.outcome is None,
    ensures
        enter(f, pc) == enter(fresh(f.script), pc),
{
}

/// After its last step a flow is completed and asks for nothing more.
pub proof fn lemma_at_end(script: Seq<StepView>, pc: int)
    requires
        pc >= script.len(),
    ensures
        forall|device: Device| #[trigger]
            from_step(script, pc, device) == seq![ActionView::Finish(OutcomeView::Completed)],
{
    reveal(from_step);
}

/// A step that gives up ends the flow and asks for nothing.
pub proof fn lemma_at_give_up(script: Seq<StepView>, pc: int)
    requires
        0 <= pc < script.len(),
        script[pc] is GiveUp,
    ensures
        forall|device: Device| #[trigger]
            from_step(script, pc, device) == seq![
                ActionView::Finish(outcome_of(script[pc]->GiveUp_failure)),
            ],
{
    reveal(from_step);
}

/// A step that waits asks for its wait, and the flow goes on with the next
/// step.
pub proof fn lemma_at_wait(script: Seq<StepView>, pc: int, device: Device)
    requires
        0 <= pc < script.len(),
        script[pc] is Wait,
    ensures
        from_step(script, pc, device) == seq![ActionView::Wait { ms: script[pc]->Wait_ms }]
            + from_step(script, pc + 1, device),
{
    reveal(from_step);
    reveal_with_fuel(asks, 2);
    let (f, a) = enter(fresh(script), pc);
    let (g, b) = next(f, EventView::Waited);
    lemma_enter_anew(f, pc + 1);
}

/// A step that runs a command asks for the command. On a device on which
/// the command succeeds, the flow goes on according to what the command
/// wrote: past the steps to pass over where that is accepted; with the next
/// step, or to its end as failed, where it is not.
pub proof fn lemma_at_run(script: Seq<StepView>, pc: int, device: Device)
    requires
        0 <= pc < script.len(),
        script[pc] is Run,
    ensures
        from_step(script, pc, device) == seq![ActionView::Run(script[pc]->Run_command)] + ({
            let (event, then) = reply(ActionView::Run(script[pc]->Run_command), device);
            if accepted(script[pc]->Run_accept, event->Output_0) {
                from_step(script, pc + 1 + script[pc]->Run_skip, then)
            } else {
                match script[pc]->Run_reject {
                    Some(failure) => seq![ActionView::Finish(outcome_of(failure))],
                    None => from_step(script, pc + 1, then),
                }
            }
        }),
{
    reveal(from_step);
    reveal_with_fuel(asks, 2);
    let (f, a) = enter(fresh(script), pc);
    let (event, then) = reply(a, device);
    let (g, b) = next(f, event);
    lemma_enter_anew(f, pc + 1 + script[pc]->Run_skip);
    lemma_enter_anew(f, pc + 1);
}

/// A step that reads the screen asks for a dump and then for what its
/// reaction to the dump asks for.
pub proof fn lemma_at_screen(script: Seq<StepView>, pc: int, device: Device)
    requires
        0 <= pc < script.len(),
        script[pc] is Probe || script[pc] is Recognise || script[pc] is Click,
    ensures
        from_step(script, pc, device) == seq![ActionView::Run(CommandView::Dump)] + follows(
            decide(script[pc], head(device.dumps), parse_document(head(device.dumps))),
            script,
            pc,
            reply(ActionView::Run(CommandView::Dump), device).1,
        ),
{
    reveal(from_step);
    reveal_with_fuel(asks, 4);
    let (f, a) = enter(fresh(script), pc);
    let (event, then) = reply(a, device);
    let (g, b) = next(f, event);
    let r = decide(script[pc], head(device.dumps), parse_document(head(device.dumps)));
    match r {
        Reaction::Fail(_) => {},
        Reaction::Go { tap: Some(p), wait_ms, skip } => {
            let (e2, d2) = reply(b, then);
            let (h, c) = next(g, e2);
            lemma_enter_anew(g, pc + 1 + skip);
            if wait_ms > 0 {
                let (i, d) = next(h, EventView::Waited);
                lemma_enter_anew(h, pc + 1 + skip);
            }
        },
        Reaction::Go { tap: None, wait_ms, skip } => {
            lemma_enter_anew(f, pc + 1 + skip);
            if wait_ms > 0 {
                let (h, c) = next(g, EventView::Waited);
                lemma_enter_anew(g, pc + 1 + skip);
            }
        },
    }
}

/// How far a flow is from its end at most: four for each step that it has not
/// left yet, less what the current step has done already.
pub open spec fn distance(f: FlowView) -> int {
    match f.stage {
        Stage::Finished => 0,
        Stage::Ready => 4 * (f.script.len() - f.pc) + 4,
        Stage::Dumping => 4 * (f.script.len() - f.pc) + 3,
        Stage::Acting => 4 * (f.script.len() - f.pc) + 2,
        Stage::Pausing => 4 * (f.script.len() - f.pc) + 1,
    }
}

/// The states that a flow can be in: its position is within the script, and
/// it has an outcome exactly when it has ended.
pub open spec fn sound(f: FlowView) -> bool {
    &&& 0 <= f.pc <= f.script.len()
    &&& f.stage == Stage::Finished <==> f.outcome is Some
    &&& f.stage == Stage::Ready ==> f.pc == 0
    &&& (f.stage == Stage::Dumping || f.stage == Stage::Acting || f.stage == Stage::Pausing)
        ==> f.pc < f.script.len()
}

/// A flow comes closer to its end with every event: it cannot go round in
/// circles, and it tries no step twice.
pub proof fn lemma_flow_progress(
    f: FlowView,
    e: EventView,
    screen: Result<ElementView, ParseError>,
)
    requires
        sound(f),
        f.stage != Stage::Finished,
    ensures
        sound(next_on(f, e, screen).0),
        next_on(f, e, screen).0.script == f.script,
        next_on(f, e, screen).0.pc >= f.pc,
        distance(next_on(f, e, screen).0) < distance(f),
{
}

/// A flow that has ended stays as it is, whatever it is told, and keeps
/// answering with its outcome.
pub proof fn lemma_finished_stays(
    f: FlowView,
    e: EventView,
    screen: Result<ElementView, ParseError>,
)
    requires
        f.stage == Stage::Finished,
    ensures
        next_on(f, e, screen).0 == f,
        next_on(f, e, screen).1 is Finish,
{
}

/// A flow that is cancelled before it has ended stops there.
pub proof fn lemma_cancel_stops(f: FlowView, screen: Result<ElementView, ParseError>)
    requires
        f.stage != Stage::Finished,
    ensures
        next_on(f, EventView::Cancel, screen).0.stage == Stage::Finished,
        next_on(f, EventView::Cancel, screen).1 == ActionView::Finish(OutcomeView::Stopped),
{
}

/// A click step taps what the screen gives it: where the first keyword that
/// gives an element gives the point `p`, the flow asks for a tap on `p`,
/// moved down as the step says, whatever the keywords after it would give.
pub proof fn lemma_click_taps_the_target(
    f: FlowView,
    text: Seq<char>,
    root: ElementView,
    k: int,
    p: (i32, i32),
)
    requires
        f.stage == Stage::Dumping,
        0 <= f.pc < f.script.len(),
        f.script[f.pc] is Click,
        target(
            root,
            f.script[f.pc]->Click_keywords,
            f.script[f.pc]->Click_field,
            f.script[f.pc]->Click_pick,
            0,
        ) == Some((k, p)),
    ensures
        next_on(f, EventView::Output(text), Ok(root)).1 == ActionView::Run(
            CommandView::Tap { x: p.0, y: lowered(p.1, f.script[f.pc]->Click_drop) },
        ),
{
}

/// Whether the step `step` holds the point `(x, y)` as something to tap: as
/// its command, or in one of its reactions.
pub open spec fn offers(step: StepView, x: i32, y: i32) -> bool {
    match step {
        StepView::Wait { .. } => false,
        StepView::GiveUp { .. } => false,
        StepView::Run { command, .. } => command == (CommandView::Tap { x, y }),
        StepView::Probe { hit, miss, .. } => taps(hit, x, y) || taps(miss, x, y),
        StepView::Recognise { hit, miss, .. } => taps(hit, x, y) || taps(miss, x, y),
        StepView::Click { missing, .. } => taps(missing, x, y),
    }
}

/// Whether the reaction taps the point `(x, y)`.
pub open spec fn taps(r: Reaction, x: i32, y: i32) -> bool {
    match r {
        Reaction::Go { tap, .. } => tap == Some((x, y)),
        Reaction::Fail(_) => false,
    }
}

/// Whether the screen gives the click step `step` the point `(x, y)`: the
/// first keyword that gives an element gives this one.
pub open spec fn screen_gives(
    step: StepView,
    screen: Result<ElementView, ParseError>,
    x: i32,
    y: i32,
) -> bool {
    match (step, screen) {
        (StepView::Click { keywords, field, pick, drop, .. }, Ok(root)) => match target(
            root,
            keywords,
            field,
            pick,
            0,
        ) {
            Some((_, p)) => x == p.0 && y == lowered(p.1, drop),
            None => false,
        },
        _ => false,
    }
}

/// A flow taps only what its script or the screen gives it: a point that the
/// step it is at, or the step it goes to, holds; or the element that the
/// screen gives the click step it is at.
pub proof fn lemma_taps_come_from_the_script(
    f: FlowView,
    e: EventView,
    screen: Result<ElementView, ParseError>,
    x: i32,
    y: i32,
)
    requires
        sound(f),
        next_on(f, e, screen).1 == ActionView::Run(CommandView::Tap { x, y }),
    ensures
        0 <= next_on(f, e, screen).0.pc < f.script.len(),
        offers(f.script[next_on(f, e, screen).0.pc], x, y) || (f.stage == Stage::Dumping
            && screen_gives(f.script[f.pc], screen, x, y)),
{
}

/// The position of the first marker that some element of the screen `root`
/// shows in its text or description, upper and lower case taken as one.
pub fn find_shown(root: &UIElement, markers: &Vec<String>) -> (r: Option<usize>)
    ensures
        match r {
            Some(k) => first_shown(root@, strings(markers@), 0) == Some(k as int),
            None => first_shown(root@, strings(markers@), 0) is None,
        },
{
    let ghost words = strings(markers@);
    let mut k: usize = 0;
    while k < markers.len()
        invariant
            k <= markers.len(),
            words == strings(markers@),
            first_shown(root@, words, 0) == first_shown(root@, words, k as int),
        decreases markers.len() - k,
    {
        assert(words[k as int] == markers@[k as int]@);
        let query = Query::folded(markers[k].as_str());
        let mut hits: Vec<&UIElement> = Vec::new();
        collect(root, &query, &mut hits);
        assert(ref_views(Seq::<&UIElement>::empty()) + query@.hits(root@) =~= query@.hits(root@));
        assert(ref_views(hits@).len() == hits.len());
        if hits.len() > 0 {
            return Some(k);
        }
        k += 1;
    }
    None
}

/// `y` moved down by `drop`, kept within the range of `i32`.
pub fn lower(y: i32, drop: i32) -> (r: i32)
    ensures
        r == lowered(y, drop),
{
    let sum: i64 = y as i64 + drop as i64;
    if sum > 0x7fff_ffff {
        0x7fff_ffff
    } else if sum < -0x8000_0000 {
        -0x8000_0000
    } else {
        sum as i32
    }
}

/// Whether the output `text` of a command is accepted.
pub fn is_accepted(accept: &Accept, text: &str) -> (r: bool)
    ensures
        r == accepted(accept@, text@),
{
    match accept {
        Accept::Always => true,
        Accept::Output { keywords, or_empty } => {
            if *or_empty && text.is_empty() {
                true
            } else {
                find_keyword(text, keywords).is_some()
            }
        },
        Accept::Without { keywords } => {
            let chars = chars_of(text);
            trim_chars(&chars).len() > 0 && find_keyword(text, keywords).is_none()
        },
    }
}

/// How the step `step` reacts to the text `text` that it asked for: a dump
/// that the caller has parsed into `screen`, or the output of its command.
pub fn decide_on(step: &Step, text: &str, screen: &Result<UIElement, ParseError>) -> (r: Reaction)
    ensures
        r == decide(step@, text@, screen_view(*screen)),
{
    match step {
        Step::Wait { .. } => Reaction::Go { tap: None, wait_ms: 0, skip: 0 },
        Step::GiveUp { failure } => Reaction::Fail(*failure),
        Step::Run { accept, skip, reject, .. } => {
            if is_accepted(accept, text) {
                Reaction::Go { tap: None, wait_ms: 0, skip: *skip }
            } else {
                match reject {
                    Some(failure) => Reaction::Fail(*failure),
                    None => Reaction::Go { tap: None, wait_ms: 0, skip: 0 },
                }
            }
        },
        Step::Probe { keywords, scope, hit, miss } => match scope {
            Scope::RawText => {
                if find_keyword(text, keywords).is_some() {
                    *hit
                } else {
                    *miss
                }
            },
            Scope::Elements => match screen {
                Err(e) => Reaction::Fail(Failure::Parse(*e)),
                Ok(root) => if find_shown(root, keywords).is_some() {
                    *hit
                } else {
                    *miss
                },
            },
        },
        Step::Recognise { one_of, each_of, hit, miss } => {
            if find_keyword(text, one_of).is_some() || holds_all(text, each_of) {
                *hit
            } else {
                *miss
            }
        },
        Step::Click { keywords, field, pick, drop, settle_ms, skip, missing } => match screen {
            Err(e) => Reaction::Fail(Failure::Parse(*e)),
            Ok(root) => match choose_target(root, keywords, *field, *pick) {
                Some((_, p)) => Reaction::Go {
                    tap: Some((p.0, lower(p.1, *drop))),
                    wait_ms: *settle_ms,
                    skip: *skip,
                },
                None => *missing,
            },
        },
    }
}

/// The outcome that a failure of a step amounts to.
pub fn failure_outcome(failure: Failure) -> (o: Outcome)
    ensures
        o@ == outcome_of(failure),
{
    match failure {
        Failure::Parse(e) => Outcome::ParseFailed(e),
        Failure::ElementNotFound => Outcome::ElementNotFound,
        Failure::VerificationInconclusive => Outcome::VerificationInconclusive,
    }
}

/// A script and how far it has been carried out.
pub struct Flow {
    script: Vec<Step>,
    pc: usize,
    stage: Stage,
    pending_wait: u64,
    pending_skip: usize,
    outcome: Option<Outcome>,
}

impl View for Flow {
    type V = FlowView;

    closed spec fn view(&self) -> FlowView {
        FlowView {
            script: steps(self.script@),
            pc: self.pc as int,
            stage: self.stage,
            pending_wait: self.pending_wait,
            pending_skip: self.pending_skip,
            outcome: match self.outcome {
                Some(o) => Some(o@),
                None => None,
            },
        }
    }
}

impl Flow {
    #[verifier::type_invariant]
    spec fn inv(self) -> bool {
        self.pc <= self.script.len()
    }

    /// A flow that has not started on `script`.
    pub fn new(script: Vec<Step>) -> (flow: Flow)
        ensures
            flow@ == fresh(steps(script@)),
            sound(flow@),
    {
        Flow {
            script,
            pc: 0,
            stage: Stage::Ready,
            pending_wait: 0,
            pending_skip: 0,
            outcome: None,
        }
    }

    /// Whether the flow has ended.
    pub fn is_finished(&self) -> (r: bool)
        ensures
            r == (self@.stage == Stage::Finished),
    {
        match self.stage {
            Stage::Finished => true,
            _ => false,
        }
    }

    /// Where in the cycle of its current step the flow stands.
    pub fn stage(&self) -> (r: Stage)
        ensures
            r == self@.stage,
    {
        self.stage
    }

    /// How the flow ended, once it has.
    pub fn outcome(&self) -> (r: Option<Outcome>)
        ensures
            match r {
                Some(o) => self@.outcome == Some(o@),
                None => self@.outcome is None,
            },
    {
        match &self.outcome {
            Some(o) => Some(o.clone()),
            None => None,
        }
    }

    /// The position of the current step.
    pub fn position(&self) -> (r: usize)
        ensures
            r == self@.pc,
    {
        self.pc
    }

    /// Whether the flow is waiting for a dump that it will read as a tree of
    /// elements.
    pub fn wants_tree(&self) -> (r: bool)
        ensures
            r == (self@.stage == Stage::Dumping && 0 <= self@.pc < self@.script.len()
                && needs_tree(self@.script[self@.pc])),
    {
        proof {
            use_type_invariant(self);
        }
        match self.stage {
            Stage::Dumping => {
                if self.pc < self.script.len() {
                    assert(steps(self.script@)[self.pc as int] == self.script@[self.pc as int]@);
                    match &self.script[self.pc] {
                        Step::Click { .. } => true,
                        Step::Probe { scope, .. } => match scope {
                            Scope::Elements => true,
                            Scope::RawText => false,
                        },
                        _ => false,
                    }
                } else {
                    false
                }
            },
            _ => false,
        }
    }

    fn do_finish(&mut self, outcome: Outcome) -> (action: Action)
        ensures
            (final(self)@, action@) == finish(old(self)@, outcome@),
    {
        proof {
            use_type_invariant(&*self);
        }
        let copy = outcome.clone();
        self.stage = Stage::Finished;
        self.pending_wait = 0;
        self.pending_skip = 0;
        self.outcome = Some(outcome);
        Action::Finish(copy)
    }

    fn do_enter(&mut self, pc: usize) -> (action: Action)
        requires
            pc <= old(self).script.len(),
        ensures
            (final(self)@, action@) == enter(old(self)@, pc as int),
    {
        proof {
            use_type_invariant(&*self);
        }
        self.pc = pc;
        if pc < self.script.len() {
            assert(steps(self.script@)[pc as int] == self.script@[pc as int]@);
            self.pending_wait = 0;
            self.pending_skip = 0;
            match &self.script[pc] {
                Step::GiveUp { failure } => {
                    let failure = *failure;
                    self.do_finish(failure_outcome(failure))
                },
                Step::Wait { ms } => {
                    let ms = *ms;
                    self.stage = Stage::Pausing;
                    Action::Wait { ms }
                },
                Step::Run { command, .. } => {
                    let command = command.clone();
                    self.stage = Stage::Acting;
                    Action::Run(command)
                },
                _ => {
                    self.stage = Stage::Dumping;
                    Action::Run(Command::Dump)
                },
            }
        } else {
            self.do_finish(Outcome::Completed)
        }
    }

    fn do_jump(&mut self, skip: usize) -> (action: Action)
        requires
            old(self).pc < old(self).script.len(),
        ensures
            (final(self)@, action@) == jump(old(self)@, skip),
    {
        let rest = self.script.len() - self.pc - 1;
        let pc = if skip >= rest {
            self.script.len()
        } else {
            self.pc + 1 + skip
        };
        self.do_enter(pc)
    }

    fn do_apply(&mut self, r: Reaction) -> (action: Action)
        requires
            old(self).pc < old(self).script.len(),
        ensures
            (final(self)@, action@) == apply(old(self)@, r),
    {
        proof {
            use_type_invariant(&*self);
        }
        match r {
            Reaction::Fail(failure) => self.do_finish(failure_outcome(failure)),
            Reaction::Go { tap: Some(p), wait_ms, skip } => {
                self.stage = Stage::Acting;
                self.pending_wait = wait_ms;
                self.pending_skip = skip;
                Action::Run(Command::Tap { x: p.0, y: p.1 })
            },
            Reaction::Go { tap: None, wait_ms, skip } => {
                if wait_ms > 0 {
                    self.stage = Stage::Pausing;
                    self.pending_wait = 0;
                    self.pending_skip = skip;
                    Action::Wait { ms: wait_ms }
                } else {
                    self.do_jump(skip)
                }
            },
        }
    }

    /// Tells the flow what happened and asks it what to do next, where the
    /// caller has parsed the dump, if the event brings one, into `screen`.
    pub fn advance_on(&mut self, event: Event, screen: &Result<UIElement, ParseError>) -> (action:
        Action)
        ensures
            (final(self)@, action@) == next_on(old(self)@, event@, screen_view(*screen)),
            sound(old(self)@) ==> sound(final(self)@),
    {
        proof {
            use_type_invariant(&*self);
            if sound(self@) && self@.stage != Stage::Finished {
                lemma_flow_progress(self@, event@, screen_view(*screen));
            }
        }
        if self.is_finished() {
            let outcome = match &self.outcome {
                Some(o) => o.clone(),
                None => Outcome::Unexpected,
            };
            return Action::Finish(outcome);
        }
        if let Event::Cancel = event {
            return self.do_finish(Outcome::Stopped);
        }
        if let Stage::Ready = self.stage {
            if let Event::Begin = event {
                let pc = self.pc;
                return self.do_enter(pc);
            } else {
                return self.do_finish(Outcome::Unexpected);
            }
        }
        if self.pc >= self.script.len() {
            return self.do_finish(Outcome::Unexpected);
        }
        assert(steps(self.script@)[self.pc as int] == self.script@[self.pc as int]@);
        match (self.stage, event) {
            (Stage::Pausing, Event::Waited) => {
                let skip = self.pending_skip;
                self.do_jump(skip)
            },
            (Stage::Acting, Event::Output(text)) => {
                let r = match &self.script[self.pc] {
                    Step::Run { .. } => decide_on(&self.script[self.pc], text.as_str(), screen),
                    _ => Reaction::Go {
                        tap: None,
                        wait_ms: self.pending_wait,
                        skip: self.pending_skip,
                    },
                };
                self.do_apply(r)
            },
            (Stage::Acting, Event::Failed(m)) => {
                let passed = match &self.script[self.pc] {
                    Step::Run { required, failed_skip, .. } => if *required {
                        None
                    } else {
                        Some(*failed_skip)
                    },
                    _ => None,
                };
                match passed {
                    Some(skip) => self.do_jump(skip),
                    None => self.do_finish(Outcome::DeviceFailed(m)),
                }
            },
            (Stage::Dumping, Event::Output(text)) => {
                let r = decide_on(&self.script[self.pc], text.as_str(), screen);
                self.do_apply(r)
            },
            (Stage::Dumping, Event::Failed(m)) => self.do_finish(Outcome::DeviceFailed(m)),
            _ => self.do_finish(Outcome::Unexpected),
        }
    }

    /// Tells the flow what happened and asks it what to do next. A dump is
    /// parsed where the current step reads the screen as a tree.
    pub fn advance(&mut self, client: &AdbClient, event: Event) -> (action: Action)
        ensures
            (final(self)@, action@) == next(old(self)@, event@),
            sound(old(self)@) ==> sound(final(self)@),
    {
        let parsed = match &event {
            Event::Output(text) => {
                if self.wants_tree() {
                    Some(client.parse_ui_xml(text.as_str()))
                } else {
                    None
                }
            },
            _ => None,
        };
        match parsed {
            Some(screen) => self.advance_on(event, &screen),
            None => {
                let screen: Result<UIElement, ParseError> = Err(ParseError::MalformedMarkup);
                self.advance_on(event, &screen)
            },
        }
    }
}

} // verus!
