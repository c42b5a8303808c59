//! Building blocks for scripts: short ways to write the steps that flows are
//! made of.

use crate::actions::{Command, CommandView, KeyCode};
use crate::decide::{all_present, first_present, strings, Field, Pick};
use crate::text::contains;
use crate::workflow::{
    outcome_of, steps, tail, Accept, AcceptView, ActionView, Device, Failure, OutcomeView, Reaction,
    Scope, Step, StepView,
};
use vstd::prelude::*;

verus! {

/// The characters of each text of a list.
pub open spec fn strs(list: Seq<&str>) -> Seq<Seq<char>> {
    list.map_values(|s: &str| s@)
}

/// A step that waits.
pub open spec fn wait_step(ms: u64) -> StepView {
    StepView::Wait { ms }
}

/// A step that runs a command, whatever it writes. A required step ends the
/// flow where the command fails; after any other the flow goes on with the
/// next step.
pub open spec fn run_step(command: CommandView, required: bool) -> StepView {
    StepView::Run {
        command,
        accept: AcceptView::Always,
        skip: 0,
        reject: None,
        required,
        failed_skip: 0,
    }
}

/// A step that tries a command, whatever it writes: where the command fails,
/// the next `failed_skip` steps are passed over.
pub open spec fn try_step(command: CommandView, failed_skip: usize) -> StepView {
    StepView::Run {
        command,
        accept: AcceptView::Always,
        skip: 0,
        reject: None,
        required: false,
        failed_skip,
    }
}

/// A step that taps a point.
pub open spec fn tap_step(x: i32, y: i32) -> StepView {
    run_step(CommandView::Tap { x, y }, true)
}

/// A step that presses a key.
pub open spec fn key_step(key: KeyCode) -> StepView {
    run_step(CommandView::Key(key), true)
}

/// A step that runs the bridge tool with the arguments `words`.
pub open spec fn shell_step(words: Seq<&str>, required: bool) -> StepView {
    run_step(CommandView::Shell(strs(words)), required)
}

/// The reaction that taps a point and waits.
pub open spec fn tap_then(x: i32, y: i32, wait_ms: u64, skip: usize) -> Reaction {
    Reaction::Go { tap: Some((x, y)), wait_ms, skip }
}

/// The reaction that passes over the next `skip` steps.
pub open spec fn pass(skip: usize) -> Reaction {
    Reaction::Go { tap: None, wait_ms: 0, skip }
}

/// The reaction that waits and goes on.
pub open spec fn rest(wait_ms: u64) -> Reaction {
    Reaction::Go { tap: None, wait_ms, skip: 0 }
}

/// A step that looks for keywords in the text of the dump.
pub open spec fn probe_step(keywords: Seq<&str>, hit: Reaction, miss: Reaction) -> StepView {
    StepView::Probe { keywords: strs(keywords), scope: Scope::RawText, hit, miss }
}

/// A step that looks in the text of the dump for one of the words `one_of`,
/// or for all the words `each_of` together.
pub open spec fn recognise_step(
    one_of: Seq<&str>,
    each_of: Seq<&str>,
    hit: Reaction,
    miss: Reaction,
) -> StepView {
    StepView::Recognise { one_of: strs(one_of), each_of: strs(each_of), hit, miss }
}

/// The owned copies of a list of texts.
pub fn owned(list: Vec<&str>) -> (r: Vec<String>)
    ensures
        strings(r@) == strs(list@),
{
    let mut r: Vec<String> = Vec::new();
    let mut i: usize = 0;
    while i < list.len()
        invariant
            i <= list.len(),
            r.len() == i,
            forall|k: int| 0 <= k < i ==> r@[k]@ == list@[k]@,
        decreases list.len() - i,
    {
        r.push(list[i].to_owned());
        i += 1;
    }
    assert(strings(r@) =~= strs(list@));
    r
}

/// A step that waits.
pub fn wait(ms: u64) -> (s: Step)
    ensures
        s@ == wait_step(ms),
{
    Step::Wait { ms }
}

/// A step that runs a command, whatever it writes.
pub fn run(command: Command, required: bool) -> (s: Step)
    ensures
        s@ == run_step(command@, required),
{
    Step::Run { command, accept: Accept::Always, skip: 0, reject: None, required, failed_skip: 0 }
}

/// A step that tries a command, whatever it writes: where the command fails,
/// the next `failed_skip` steps are passed over.
pub fn attempt(command: Command, failed_skip: usize) -> (s: Step)
    ensures
        s@ == try_step(command@, failed_skip),
{
    Step::Run {
        command,
        accept: Accept::Always,
        skip: 0,
        reject: None,
        required: false,
        failed_skip,
    }
}

/// A step that taps a point.
pub fn tap(x: i32, y: i32) -> (s: Step)
    ensures
        s@ == tap_step(x, y),
{
    run(Command::Tap { x, y }, true)
}

/// A step that presses a key.
pub fn key(k: KeyCode) -> (s: Step)
    ensures
        s@ == key_step(k),
{
    run(Command::Key(k), true)
}

/// A step that runs the bridge tool with the arguments `words`.
pub fn shell(words: Vec<&str>, required: bool) -> (s: Step)
    ensures
        s@ == shell_step(words@, required),
{
    run(Command::Shell(owned(words)), required)
}

/// A step that looks for keywords in the text of the dump.
pub fn probe(keywords: Vec<&str>, hit: Reaction, miss: Reaction) -> (s: Step)
    ensures
        s@ == probe_step(keywords@, hit, miss),
{
    Step::Probe { keywords: owned(keywords), scope: Scope::RawText, hit, miss }
}

/// A step that looks in the text of the dump for one of the words `one_of`,
/// or for all the words `each_of` together.
pub fn recognise(one_of: Vec<&str>, each_of: Vec<&str>, hit: Reaction, miss: Reaction) -> (s: Step)
    ensures
        s@ == recognise_step(one_of@, each_of@, hit, miss),
{
    Step::Recognise { one_of: owned(one_of), each_of: owned(each_of), hit, miss }
}

/// Appends the steps `more` to `script`.
pub fn extend(script: &mut Vec<Step>, more: Vec<Step>)
    ensures
        steps(final(script)@) == steps(old(script)@) + steps(more@),
{
    let mut more = more;
    let ghost added = more@;
    script.append(&mut more);
    assert(steps(script@) =~= steps(old(script)@) + steps(added));
}

/// A step that looks for keywords in the text and the description of the
/// elements on the screen, upper and lower case taken as one.
pub open spec fn look_step(keywords: Seq<Seq<char>>, hit: Reaction, miss: Reaction) -> StepView {
    StepView::Probe { keywords, scope: Scope::Elements, hit, miss }
}

/// A step that taps the element that the first successful keyword gives.
pub open spec fn click_step(
    keywords: Seq<Seq<char>>,
    field: Field,
    pick: Pick,
    drop: i32,
    settle_ms: u64,
    skip: usize,
    missing: Reaction,
) -> StepView {
    StepView::Click { keywords, field, pick, drop, settle_ms, skip, missing }
}

/// A step that runs the bridge tool with the arguments `words`.
pub open spec fn words_step(words: Seq<Seq<char>>, required: bool) -> StepView {
    run_step(CommandView::Shell(words), required)
}

/// A step that looks for keywords in the text and the description of the
/// elements on the screen, upper and lower case taken as one.
pub fn look(keywords: Vec<String>, hit: Reaction, miss: Reaction) -> (s: Step)
    ensures
        s@ == look_step(strings(keywords@), hit, miss),
{
    Step::Probe { keywords, scope: Scope::Elements, hit, miss }
}

/// A step that taps the element that the first successful keyword gives.
pub fn click(
    keywords: Vec<String>,
    field: Field,
    pick: Pick,
    drop: i32,
    settle_ms: u64,
    skip: usize,
    missing: Reaction,
) -> (s: Step)
    ensures
        s@ == click_step(strings(keywords@), field, pick, drop, settle_ms, skip, missing),
{
    Step::Click { keywords, field, pick, drop, settle_ms, skip, missing }
}

/// A step that runs the bridge tool with the arguments `words`.
pub fn shell_words(words: Vec<String>, required: bool) -> (s: Step)
    ensures
        s@ == words_step(strings(words@), required),
{
    run(Command::Shell(words), required)
}

/// A list that holds the one text `text`.
pub fn only(text: &str) -> (r: Vec<String>)
    ensures
        strings(r@) == seq![text@],
{
    let mut r: Vec<String> = Vec::new();
    r.push(text.to_owned());
    assert(strings(r@) =~= seq![text@]);
    r
}

/// The reaction that passes over the next `skip` steps.
pub fn go(skip: usize) -> (r: Reaction)
    ensures
        r == pass(skip),
{
    Reaction::Go { tap: None, wait_ms: 0, skip }
}

/// The reaction that taps a point, waits and goes on.
pub fn tap_and_go(x: i32, y: i32, wait_ms: u64) -> (r: Reaction)
    ensures
        r == tap_then(x, y, wait_ms, 0),
{
    Reaction::Go { tap: Some((x, y)), wait_ms, skip: 0 }
}

/// Whether every jump of the script lands within the script, at its end, or
/// among the `room` steps that follow it.
pub open spec fn fits(script: Seq<StepView>, room: int) -> bool {
    forall|i: int|
        0 <= i < script.len() ==> #[trigger] reach(script[i]) + i + 1 <= script.len() + room
}

/// Whether every jump of the script lands within the script or at its end.
pub open spec fn jumps_fit(script: Seq<StepView>) -> bool {
    fits(script, 0)
}

/// How many steps a step can pass over at most.
pub open spec fn reach(step: StepView) -> int {
    match step {
        StepView::Wait { .. } => 0,
        StepView::GiveUp { .. } => 0,
        StepView::Run { skip, failed_skip, .. } => if skip >= failed_skip {
            skip as int
        } else {
            failed_skip as int
        },
        StepView::Probe { hit, miss, .. } => if jump_of(hit) >= jump_of(miss) {
            jump_of(hit)
        } else {
            jump_of(miss)
        },
        StepView::Recognise { hit, miss, .. } => if jump_of(hit) >= jump_of(miss) {
            jump_of(hit)
        } else {
            jump_of(miss)
        },
        StepView::Click { skip, missing, .. } => if skip >= jump_of(missing) {
            skip as int
        } else {
            jump_of(missing)
        },
    }
}

/// How many steps a reaction passes over.
pub open spec fn jump_of(r: Reaction) -> int {
    match r {
        Reaction::Go { skip, .. } => skip as int,
        Reaction::Fail(_) => 0,
    }
}

/// Scripts can be put one after the other where the jumps of the first fit
/// with the second as room, and the jumps of the second fit.
pub proof fn lemma_fits_together(a: Seq<StepView>, b: Seq<StepView>, room: int)
    requires
        fits(a, b.len() + room),
        fits(b, room),
    ensures
        fits(a + b, room),
{
    let c = a + b;
    assert forall|i: int| 0 <= i < c.len() implies #[trigger] reach(c[i]) + i + 1 <= c.len()
        + room by {
        if i < a.len() {
            assert(c[i] == a[i]);
        } else {
            assert(c[i] == b[i - a.len()]);
        }
    }
}

/// A script whose jumps fit still fits where there is more room.
pub proof fn lemma_fits_with_room(a: Seq<StepView>, room: int, more: int)
    requires
        fits(a, room),
        room <= more,
    ensures
        fits(a, more),
{
    assert forall|i: int| 0 <= i < a.len() implies #[trigger] reach(a[i]) + i + 1 <= a.len()
        + more by {
        assert(reach(a[i]) + i + 1 <= a.len() + room);
    }
}

/// `ms` scaled to `percent` hundredths, and no more than the largest number
/// of milliseconds that can be written.
pub open spec fn scaled(ms: u64, percent: u32) -> u64 {
    if ms * percent / 100 > u64::MAX {
        u64::MAX
    } else {
        (ms * percent / 100) as u64
    }
}

/// A reaction with its wait scaled.
pub open spec fn paced_reaction(r: Reaction, percent: u32) -> Reaction {
    match r {
        Reaction::Go { tap, wait_ms, skip } => Reaction::Go {
            tap,
            wait_ms: scaled(wait_ms, percent),
            skip,
        },
        Reaction::Fail(f) => Reaction::Fail(f),
    }
}

/// A step with every wait that it holds scaled to `percent` hundredths, and
/// nothing else changed.
pub open spec fn paced_step(step: StepView, percent: u32) -> StepView {
    match step {
        StepView::Wait { ms } => StepView::Wait { ms: scaled(ms, percent) },
        StepView::GiveUp { failure } => StepView::GiveUp { failure },
        StepView::Run { command, accept, skip, reject, required, failed_skip } => StepView::Run {
            command,
            accept,
            skip,
            reject,
            required,
            failed_skip,
        },
        StepView::Probe { keywords, scope, hit, miss } => StepView::Probe {
            keywords,
            scope,
            hit: paced_reaction(hit, percent),
            miss: paced_reaction(miss, percent),
        },
        StepView::Recognise { one_of, each_of, hit, miss } => StepView::Recognise {
            one_of,
            each_of,
            hit: paced_reaction(hit, percent),
            miss: paced_reaction(miss, percent),
        },
        StepView::Click { keywords, field, pick, drop, settle_ms, skip, missing } => StepView::Click {
            keywords,
            field,
            pick,
            drop,
            settle_ms: scaled(settle_ms, percent),
            skip,
            missing: paced_reaction(missing, percent),
        },
    }
}

/// `ms` scaled to `percent` hundredths.
pub fn scale(ms: u64, percent: u32) -> (r: u64)
    ensures
        r == scaled(ms, percent),
{
    assert(ms as int * percent as int <= 0xffff_ffff_ffff_ffff * 0xffff_ffff) by (nonlinear_arith)
        requires
            0 <= ms <= 0xffff_ffff_ffff_ffff,
            0 <= percent <= 0xffff_ffff,
    ;
    let product: u128 = ms as u128 * percent as u128;
    let r: u128 = product / 100;
    if r > 0xffff_ffff_ffff_ffff {
        0xffff_ffff_ffff_ffff
    } else {
        r as u64
    }
}

/// A reaction with its wait scaled.
pub fn pace_reaction(r: Reaction, percent: u32) -> (p: Reaction)
    ensures
        p == paced_reaction(r, percent),
{
    match r {
        Reaction::Go { tap, wait_ms, skip } => Reaction::Go {
            tap,
            wait_ms: scale(wait_ms, percent),
            skip,
        },
        Reaction::Fail(f) => Reaction::Fail(f),
    }
}

/// The script with every wait scaled to `percent` hundredths: the pauses that
/// let the screen settle are a matter of experience, and a slower or faster
/// device wants other ones. Nothing but the waits is changed.
pub fn paced(script: Vec<Step>, percent: u32) -> (r: Vec<Step>)
    ensures
        r.len() == script.len(),
        forall|i: int| 0 <= i < r.len() ==> (#[trigger] r@[i])@ == paced_step(script@[i]@, percent),
{
    let mut rest = script;
    let ghost all = rest@;
    let mut back: Vec<Step> = Vec::new();
    while rest.len() > 0
        invariant
            rest.len() + back.len() == all.len(),
            forall|i: int| 0 <= i < rest.len() ==> rest@[i] == all[i],
            forall|k: int|
                0 <= k < back.len() ==> (#[trigger] back@[k])@ == paced_step(
                    all[all.len() - 1 - k]@,
                    percent,
                ),
        decreases rest.len(),
    {
        let step = rest.pop().unwrap();
        let changed = match step {
            Step::Wait { ms } => Step::Wait { ms: scale(ms, percent) },
            Step::GiveUp { failure } => Step::GiveUp { failure },
            Step::Run { command, accept, skip, reject, required, failed_skip } => Step::Run {
                command,
                accept,
                skip,
                reject,
                required,
                failed_skip,
            },
            Step::Probe { keywords, scope, hit, miss } => Step::Probe {
                keywords,
                scope,
                hit: pace_reaction(hit, percent),
                miss: pace_reaction(miss, percent),
            },
            Step::Recognise { one_of, each_of, hit, miss } => Step::Recognise {
                one_of,
                each_of,
                hit: pace_reaction(hit, percent),
                miss: pace_reaction(miss, percent),
            },
            Step::Click { keywords, field, pick, drop, settle_ms, skip, missing } => Step::Click {
                keywords,
                field,
                pick,
                drop,
                settle_ms: scale(settle_ms, percent),
                skip,
                missing: pace_reaction(missing, percent),
            },
        };
        back.push(changed);
    }
    let mut r: Vec<Step> = Vec::new();
    while back.len() > 0
        invariant
            r.len() + back.len() == all.len(),
            forall|k: int|
                0 <= k < back.len() ==> (#[trigger] back@[k])@ == paced_step(
                    all[all.len() - 1 - k]@,
                    percent,
                ),
            forall|i: int| 0 <= i < r.len() ==> (#[trigger] r@[i])@ == paced_step(all[i]@, percent),
        decreases back.len(),
    {
        let step = back.pop().unwrap();
        r.push(step);
    }
    r
}

/// Whether `text` holds one of the keywords.
pub open spec fn shows(text: Seq<char>, keywords: Seq<&str>) -> bool {
    first_present(text, strs(keywords), 0) is Some
}

/// A text holds the one keyword of a list exactly when it contains it.
pub proof fn lemma_shows_one(text: Seq<char>, keyword: &str)
    ensures
        shows(text, seq![keyword]) == contains(text, keyword@),
{
    let words = strs(seq![keyword]);
    assert(words.len() == 1);
    assert(words[0] == keyword@);
    assert(first_present(text, words, 1) is None);
}

/// Whether `text` holds every one of the keywords.
pub open spec fn shows_all(text: Seq<char>, keywords: Seq<&str>) -> bool {
    all_present(text, strs(keywords), 0)
}

/// The action that asks for a dump.
pub open spec fn dumps() -> ActionView {
    ActionView::Run(CommandView::Dump)
}

/// The action that taps a point.
pub open spec fn taps_at(x: i32, y: i32) -> ActionView {
    ActionView::Run(CommandView::Tap { x, y })
}

/// The action that presses a key.
pub open spec fn presses(key: KeyCode) -> ActionView {
    ActionView::Run(CommandView::Key(key))
}

/// The action that waits.
pub open spec fn waits(ms: u64) -> ActionView {
    ActionView::Wait { ms }
}

/// The action that runs the bridge tool with the arguments `words`.
pub open spec fn runs(words: Seq<&str>) -> ActionView {
    ActionView::Run(CommandView::Shell(strs(words)))
}

/// The end of a flow that did all it was meant to do.
pub open spec fn completes() -> ActionView {
    ActionView::Finish(OutcomeView::Completed)
}

/// The end of a flow that has failed.
pub open spec fn fails(failure: Failure) -> ActionView {
    ActionView::Finish(outcome_of(failure))
}

/// The device after it has given a dump.
pub open spec fn dumped(device: Device) -> Device {
    Device { dumps: tail(device.dumps), ..device }
}

/// The device after it has run a command other than a dump.
pub open spec fn obeyed(device: Device) -> Device {
    Device { outputs: tail(device.outputs), ..device }
}

} // verus!
