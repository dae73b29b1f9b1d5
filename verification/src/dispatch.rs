//! Running the handlers of a key.
//!
//! When a bound key goes down, its handlers run one after the other in the
//! order in which they were registered. What a handler does depends on which
//! keys are held at that moment, and a hold handler waits between two
//! notifications. The library decides; the caller acts: it asks
//! [`Dispatch::step`] what to do next, does it, and where it was told to ask
//! whether a key is held, it hands the answer to the next step.

use vstd::prelude::*;
use crate::handler::{
    handler_views, Handler, HandlerView, Payload, HOLD_INTERVAL_MS, HOLD_PRESSED,
};
use crate::keys::{Key, KeybdKey};
use crate::seqs::repeated;

verus! {

/// What the caller is to do next.
#[derive(Debug, PartialEq, Eq)]
pub enum Effect {
    /// Send the notification `event` to the window of label `window`, with
    /// `payload` if there is one.
    Emit { window: String, event: String, payload: Option<Payload> },
    /// Wait for `millis` milliseconds.
    Sleep { millis: u64 },
    /// Find out whether `key` is held down, and hand the answer to the next
    /// step.
    Poll { key: Key },
    /// Nothing: every handler has run.
    Done,
}

/// An effect as a mathematical value.
pub enum EffectView {
    Emit { window: Seq<char>, event: Seq<char>, payload: Option<Payload> },
    Sleep { millis: u64 },
    Poll { key: Key },
    Done,
}

impl View for Effect {
    type V = EffectView;

    open spec fn view(&self) -> EffectView {
        match self {
            Effect::Emit { window, event, payload } => EffectView::Emit {
                window: window@,
                event: event@,
                payload: *payload,
            },
            Effect::Sleep { millis } => EffectView::Sleep { millis: *millis },
            Effect::Poll { key } => EffectView::Poll { key: *key },
            Effect::Done => EffectView::Done,
        }
    }
}

/// How far the handler that is running has come.
#[derive(Clone, Copy, Debug, PartialEq, Eq, Structural)]
pub enum Stage {
    /// It has not started.
    Begin,
    /// A press handler has asked whether its gate of this number is held.
    Gate(usize),
    /// A hold handler has sent a notification.
    HoldEmitted,
    /// A hold handler has waited after a notification.
    HoldSlept,
    /// A hold handler has asked whether its key is still held.
    HoldPolled,
}

/// Where a run stands: the number of the handler that is running, and how far
/// it has come.
pub struct Progress {
    pub index: nat,
    pub stage: Stage,
}

/// The notification of a press handler.
pub open spec fn press_emit(window: Seq<char>, event: Seq<char>) -> EffectView {
    EffectView::Emit { window, event, payload: None }
}

/// The notification of a hold handler.
pub open spec fn hold_emit(window: Seq<char>, event: Seq<char>) -> EffectView {
    EffectView::Emit { window, event, payload: Some(Payload { pressed: HOLD_PRESSED }) }
}

/// The wait of a hold handler between two notifications.
pub open spec fn hold_sleep() -> EffectView {
    EffectView::Sleep { millis: HOLD_INTERVAL_MS }
}

/// Where a run starts.
pub open spec fn outset() -> Progress {
    Progress { index: 0, stage: Stage::Begin }
}

/// Starts the handler of number `index`: a press handler without gates sends
/// its notification and is done; one with gates asks for the first; a hold
/// handler sends its first notification. Behind the last handler the run is
/// done.
pub open spec fn begin(handlers: Seq<HandlerView>, index: nat) -> (Progress, EffectView) {
    if index >= handlers.len() {
        (Progress { index, stage: Stage::Begin }, EffectView::Done)
    } else {
        match handlers[index as int] {
            HandlerView::Press { window, event, gates } => if gates.len() == 0 {
                (Progress { index: index + 1, stage: Stage::Begin }, press_emit(window, event))
            } else {
                (
                    Progress { index, stage: Stage::Gate(0) },
                    EffectView::Poll { key: Key::Keybd(gates[0]) },
                )
            },
            HandlerView::Hold { window, event, key } => (
                Progress { index, stage: Stage::HoldEmitted },
                hold_emit(window, event),
            ),
        }
    }
}

/// One step of a run: where it stands afterwards, and what the caller is to
/// do. `held` is the answer to the question that the step before asked, and
/// counts only where that step asked one.
///
/// A press handler asks for its gates in their order. At the first gate that
/// is not held it gives up without a notification and the next handler
/// starts; when the last gate is held it sends its notification. A hold
/// handler waits after every notification and then asks for its key: held, it
/// sends the next notification; not held, it ends and the next handler
/// starts.
pub open spec fn step(handlers: Seq<HandlerView>, at: Progress, held: bool) -> (
    Progress,
    EffectView,
) {
    if at.index >= handlers.len() {
        (at, EffectView::Done)
    } else {
        match (handlers[at.index as int], at.stage) {
            (HandlerView::Press { window, event, gates }, Stage::Gate(gate)) => if !held {
                begin(handlers, at.index + 1)
            } else if gate + 1 < gates.len() {
                (
                    Progress { index: at.index, stage: Stage::Gate((gate + 1) as usize) },
                    EffectView::Poll { key: Key::Keybd(gates[gate + 1]) },
                )
            } else {
                (Progress { index: at.index + 1, stage: Stage::Begin }, press_emit(window, event))
            },
            (HandlerView::Hold { window, event, key }, Stage::HoldEmitted) => (
                Progress { index: at.index, stage: Stage::HoldSlept },
                hold_sleep(),
            ),
            (HandlerView::Hold { window, event, key }, Stage::HoldSlept) => (
                Progress { index: at.index, stage: Stage::HoldPolled },
                EffectView::Poll { key },
            ),
            (HandlerView::Hold { window, event, key }, Stage::HoldPolled) => if held {
                (Progress { index: at.index, stage: Stage::HoldEmitted }, hold_emit(window, event))
            } else {
                begin(handlers, at.index + 1)
            },
            _ => begin(handlers, at.index),
        }
    }
}

/// Whether a run stands where its handler and its stage fit together. A run
/// starts so and every step keeps it so.
pub open spec fn consistent(handlers: Seq<HandlerView>, at: Progress) -> bool {
    if at.index >= handlers.len() {
        at.index == handlers.len() && at.stage == Stage::Begin
    } else {
        match (handlers[at.index as int], at.stage) {
            (_, Stage::Begin) => true,
            (HandlerView::Press { window, event, gates }, Stage::Gate(gate)) => gate < gates.len(),
            (HandlerView::Hold { window, event, key }, Stage::HoldEmitted) => true,
            (HandlerView::Hold { window, event, key }, Stage::HoldSlept) => true,
            (HandlerView::Hold { window, event, key }, Stage::HoldPolled) => true,
            _ => false,
        }
    }
}

/// Whether the step before asked a question, so that the next step reads an
/// answer.
pub open spec fn awaits_answer(handlers: Seq<HandlerView>, at: Progress) -> bool {
    at.index < handlers.len() && (at.stage is Gate || at.stage is HoldPolled)
}

/// What a run has done, given the answers it got.
pub struct Trace {
    /// The effects in their order.
    pub effects: Seq<EffectView>,
    /// The answers that were not read.
    pub unread: Seq<bool>,
    /// Whether every handler has run: the last effect is then
    /// [`EffectView::Done`]. Otherwise the run asked a question for which
    /// there was no answer left.
    pub finished: bool,
}

/// How many steps a handler may still take, at most, before it reads an
/// answer or ends.
pub open spec fn rank(stage: Stage) -> nat {
    match stage {
        Stage::Begin => 4,
        Stage::HoldEmitted => 3,
        Stage::HoldSlept => 2,
        Stage::HoldPolled => 1,
        Stage::Gate(_) => 0,
    }
}

/// The run from `at` on, where the questions it asks are answered by
/// `answers` in their order: the effects of its steps up to the end, or up to
/// the first question for which no answer is left.
pub open spec fn run(handlers: Seq<HandlerView>, at: Progress, answers: Seq<bool>) -> Trace
    decreases answers.len(), handlers.len() - at.index, rank(at.stage),
{
    if at.index >= handlers.len() {
        Trace { effects: seq![EffectView::Done], unread: answers, finished: true }
    } else if awaits_answer(handlers, at) {
        if answers.len() == 0 {
            Trace { effects: Seq::empty(), unread: answers, finished: false }
        } else {
            let (next, effect) = step(handlers, at, answers[0]);
            if effect is Done {
                Trace { effects: seq![effect], unread: answers.skip(1), finished: true }
            } else {
                let rest = run(handlers, next, answers.skip(1));
                Trace { effects: seq![effect] + rest.effects, ..rest }
            }
        }
    } else {
        let (next, effect) = step(handlers, at, false);
        if effect is Done {
            Trace { effects: seq![effect], unread: answers, finished: true }
        } else {
            let rest = run(handlers, next, answers);
            Trace { effects: seq![effect] + rest.effects, ..rest }
        }
    }
}

/// The effects `prefix` followed by the run `rest`.
pub open spec fn then(prefix: Seq<EffectView>, rest: Trace) -> Trace {
    Trace { effects: prefix + rest.effects, ..rest }
}

/// The questions that a press handler asks for `gates`, one for each.
pub open spec fn polls(gates: Seq<KeybdKey>) -> Seq<EffectView> {
    gates.map_values(|gate: KeybdKey| EffectView::Poll { key: Key::Keybd(gate) })
}

fn begin_at(handlers: &Vec<Handler>, index: usize) -> (next: (usize, Stage, Effect))
    requires
        index <= handlers.len(),
    ensures
        (Progress { index: next.0 as nat, stage: next.1 }, next.2@) == begin(
            handler_views(handlers@),
            index as nat,
        ),
        consistent(handler_views(handlers@), Progress { index: next.0 as nat, stage: next.1 }),
{
    if index >= handlers.len() {
        (index, Stage::Begin, Effect::Done)
    } else {
        match &handlers[index] {
            Handler::Press { window, event, gates } => if gates.len() == 0 {
                (
                    index + 1,
                    Stage::Begin,
                    Effect::Emit { window: window.clone(), event: event.clone(), payload: None },
                )
            } else {
                (index, Stage::Gate(0), Effect::Poll { key: Key::Keybd(gates[0]) })
            },
            Handler::Hold { window, event, key } => (
                index,
                Stage::HoldEmitted,
                Effect::Emit {
                    window: window.clone(),
                    event: event.clone(),
                    payload: Some(Payload { pressed: HOLD_PRESSED }),
                },
            ),
        }
    }
}

fn decide(handlers: &Vec<Handler>, index: usize, stage: Stage, held: bool) -> (next: (
    usize,
    Stage,
    Effect,
))
    requires
        consistent(handler_views(handlers@), Progress { index: index as nat, stage }),
    ensures
        (Progress { index: next.0 as nat, stage: next.1 }, next.2@) == step(
            handler_views(handlers@),
            Progress { index: index as nat, stage },
            held,
        ),
        consistent(handler_views(handlers@), Progress { index: next.0 as nat, stage: next.1 }),
{
    if index >= handlers.len() {
        return (index, stage, Effect::Done);
    }
    assert(handler_views(handlers@)[index as int] == handlers[index as int]@);
    match &handlers[index] {
        Handler::Press { window, event, gates } => match stage {
            Stage::Gate(gate) => {
                assert(handler_views(handlers@)[index as int]->gates == gates@);
                assert(gate < gates.len());
                if !held {
                    begin_at(handlers, index + 1)
                } else if gate + 1 < gates.len() {
                    (
                        index,
                        Stage::Gate(gate + 1),
                        Effect::Poll { key: Key::Keybd(gates[gate + 1]) },
                    )
                } else {
                    (
                    index + 1,
                    Stage::Begin,
                    Effect::Emit { window: window.clone(), event: event.clone(), payload: None },
                )
                }
            },
            _ => begin_at(handlers, index),
        },
        Handler::Hold { window, event, key } => match stage {
            Stage::HoldEmitted => (
                index,
                Stage::HoldSlept,
                Effect::Sleep { millis: HOLD_INTERVAL_MS },
            ),
            Stage::HoldSlept => (index, Stage::HoldPolled, Effect::Poll { key: *key }),
            Stage::HoldPolled => if held {
                (
                    index,
                    Stage::HoldEmitted,
                    Effect::Emit {
                        window: window.clone(),
                        event: event.clone(),
                        payload: Some(Payload { pressed: HOLD_PRESSED }),
                    },
                )
            } else {
                begin_at(handlers, index + 1)
            },
            _ => begin_at(handlers, index),
        },
    }
}

/// A run of the handlers of one key.
pub struct Dispatch {
    handlers: Vec<Handler>,
    index: usize,
    stage: Stage,
}

impl Dispatch {
    #[verifier::type_invariant]
    spec fn well_formed(self) -> bool {
        consistent(
            handler_views(self.handlers@),
            Progress { index: self.index as nat, stage: self.stage },
        )
    }

    /// The handlers that the run goes through.
    pub closed spec fn handlers(&self) -> Seq<HandlerView> {
        handler_views(self.handlers@)
    }

    /// Where the run stands.
    pub closed spec fn progress(&self) -> Progress {
        Progress { index: self.index as nat, stage: self.stage }
    }

    /// A run of `handlers` that has not started.
    pub fn new(handlers: Vec<Handler>) -> (dispatch: Dispatch)
        ensures
            dispatch.handlers() == handler_views(handlers@),
            dispatch.progress() == outset(),
    {
        Dispatch { handlers, index: 0, stage: Stage::Begin }
    }

    /// Takes one step and says what the caller is to do. `held` is the answer
    /// to the question of the step before, where that step asked one.
    pub fn step(&mut self, held: bool) -> (effect: Effect)
        ensures
            final(self).handlers() == old(self).handlers(),
            (final(self).progress(), effect@) == step(
                old(self).handlers(),
                old(self).progress(),
                held,
            ),
            consistent(old(self).handlers(), old(self).progress()),
            consistent(final(self).handlers(), final(self).progress()),
    {
        proof {
            use_type_invariant(&*self);
        }
        let (index, stage, effect) = decide(&self.handlers, self.index, self.stage, held);
        self.stage = Stage::Begin;
        self.index = index;
        self.stage = stage;
        effect
    }
}

/// A run that stands where handler and stage fit together still does so after
/// a step.
pub proof fn lemma_step_keeps_consistent(handlers: Seq<HandlerView>, at: Progress, held: bool)
    requires
        consistent(handlers, at),
    ensures
        consistent(handlers, step(handlers, at, held).0),
{
}

proof fn lemma_gates_held(handlers: Seq<HandlerView>, i: nat, gate: nat, answers: Seq<bool>)
    requires
        i < handlers.len(),
        handlers[i as int] is Press,
        gate < handlers[i as int]->gates.len() <= usize::MAX,
        answers.len() >= handlers[i as int]->gates.len() - gate,
        forall|k: int| 0 <= k < handlers[i as int]->gates.len() - gate ==> answers[k],
    ensures
        run(handlers, Progress { index: i, stage: Stage::Gate(gate as usize) }, answers) == then(
            polls(
                handlers[i as int]->gates.subrange(
                    gate + 1 as int,
                    handlers[i as int]->gates.len() as int,
                ),
            ) + seq![press_emit(
                handlers[i as int]->Press_window,
                handlers[i as int]->Press_event,
            )],
            run(
                handlers,
                Progress { index: i + 1, stage: Stage::Begin },
                answers.skip(handlers[i as int]->gates.len() - gate),
            ),
        ),
    decreases handlers[i as int]->gates.len() - gate,
{
    let gates = handlers[i as int]->gates;
    let window = handlers[i as int]->Press_window;
    let event = handlers[i as int]->Press_event;
    let left = gates.len() - gate;
    let at = Progress { index: i, stage: Stage::Gate(gate as usize) };
    let after = run(handlers, Progress { index: i + 1, stage: Stage::Begin }, answers.skip(left));
    assert(answers[0]);
    assert(answers.skip(1).skip(left - 1) =~= answers.skip(left));
    if gate + 1 < gates.len() {
        lemma_gates_held(handlers, i, gate + 1, answers.skip(1));
        assert(seq![EffectView::Poll { key: Key::Keybd(gates[gate + 1 as int]) }] + (polls(
            gates.subrange(gate + 2 as int, gates.len() as int),
        ) + seq![press_emit(window, event)] + after.effects) =~= polls(
            gates.subrange(gate + 1 as int, gates.len() as int),
        ) + seq![press_emit(window, event)] + after.effects);
    } else {
        assert(seq![press_emit(window, event)] + after.effects =~= polls(
            gates.subrange(gate + 1 as int, gates.len() as int),
        ) + seq![press_emit(window, event)] + after.effects);
    }
}

proof fn lemma_gate_released(
    handlers: Seq<HandlerView>,
    i: nat,
    gate: nat,
    answers: Seq<bool>,
    released: nat,
)
    requires
        i < handlers.len(),
        handlers[i as int] is Press,
        gate <= released < handlers[i as int]->gates.len() <= usize::MAX,
        released - gate < answers.len(),
        !answers[released - gate],
        forall|k: int| 0 <= k < released - gate ==> answers[k],
    ensures
        run(handlers, Progress { index: i, stage: Stage::Gate(gate as usize) }, answers) == then(
            polls(handlers[i as int]->gates.subrange(gate + 1 as int, released + 1 as int)),
            run(
                handlers,
                Progress { index: i + 1, stage: Stage::Begin },
                answers.skip(released - gate + 1),
            ),
        ),
    decreases released - gate,
{
    let gates = handlers[i as int]->gates;
    let at = Progress { index: i, stage: Stage::Gate(gate as usize) };
    let after = run(
        handlers,
        Progress { index: i + 1, stage: Stage::Begin },
        answers.skip(released - gate + 1),
    );
    if gate == released {
        assert(polls(gates.subrange(gate + 1 as int, released + 1 as int)) + after.effects
            =~= after.effects);
    } else {
        assert(answers[0]);
        assert(answers.skip(1).skip(released - gate) =~= answers.skip(released - gate + 1));
        lemma_gate_released(handlers, i, gate + 1, answers.skip(1), released);
        assert(seq![EffectView::Poll { key: Key::Keybd(gates[gate + 1 as int]) }] + (polls(
            gates.subrange(gate + 2 as int, released + 1 as int),
        ) + after.effects)
            =~= polls(gates.subrange(gate + 1 as int, released + 1 as int)) + after.effects);
    }
}

/// A press handler whose gates are all held asks for each gate in turn and
/// then sends its notification; after it the next handler runs. Without
/// gates it sends its notification at once.
pub proof fn lemma_press_fires_when_gates_held(
    handlers: Seq<HandlerView>,
    i: nat,
    answers: Seq<bool>,
)
    requires
        i < handlers.len(),
        handlers[i as int] is Press,
        handlers[i as int]->gates.len() <= usize::MAX,
        answers.len() >= handlers[i as int]->gates.len(),
        forall|k: int| 0 <= k < handlers[i as int]->gates.len() ==> answers[k],
    ensures
        run(handlers, Progress { index: i, stage: Stage::Begin }, answers) == then(
            polls(handlers[i as int]->gates) + seq![press_emit(
                handlers[i as int]->Press_window,
                handlers[i as int]->Press_event,
            )],
            run(
                handlers,
                Progress { index: i + 1, stage: Stage::Begin },
                answers.skip(handlers[i as int]->gates.len() as int),
            ),
        ),
{
    let gates = handlers[i as int]->gates;
    let window = handlers[i as int]->Press_window;
    let event = handlers[i as int]->Press_event;
    let after = run(
        handlers,
        Progress { index: i + 1, stage: Stage::Begin },
        answers.skip(gates.len() as int),
    );
    if gates.len() == 0 {
        assert(answers.skip(0) =~= answers);
        assert(seq![press_emit(window, event)] + after.effects
            =~= polls(gates) + seq![press_emit(window, event)]
            + after.effects);
    } else {
        lemma_gates_held(handlers, i, 0, answers);
        assert(seq![EffectView::Poll { key: Key::Keybd(gates[0]) }] + (polls(
            gates.subrange(1, gates.len() as int),
        ) + seq![press_emit(window, event)] + after.effects)
            =~= polls(gates) + seq![press_emit(window, event)]
            + after.effects);
    }
}

/// A press handler with a gate that is not held sends nothing: it asks for
/// its gates up to the first that is not held, and then the next handler
/// runs.
pub proof fn lemma_press_silent_when_gate_released(
    handlers: Seq<HandlerView>,
    i: nat,
    answers: Seq<bool>,
    released: nat,
)
    requires
        i < handlers.len(),
        handlers[i as int] is Press,
        released < handlers[i as int]->gates.len() <= usize::MAX,
        released < answers.len(),
        !answers[released as int],
        forall|k: int| 0 <= k < released ==> answers[k],
    ensures
        run(handlers, Progress { index: i, stage: Stage::Begin }, answers) == then(
            polls(handlers[i as int]->gates.take(released + 1 as int)),
            run(
                handlers,
                Progress { index: i + 1, stage: Stage::Begin },
                answers.skip(released + 1 as int),
            ),
        ),
{
    let gates = handlers[i as int]->gates;
    let after = run(
        handlers,
        Progress { index: i + 1, stage: Stage::Begin },
        answers.skip(released + 1 as int),
    );
    lemma_gate_released(handlers, i, 0, answers, released);
    assert(seq![EffectView::Poll { key: Key::Keybd(gates[0]) }] + (polls(
        gates.subrange(1, released + 1 as int),
    ) + after.effects) =~= polls(gates.take(released + 1 as int)) + after.effects);
}

/// The answers of a key that is held for `rounds` questions and then let go.
pub open spec fn held_for(rounds: nat) -> Seq<bool> {
    Seq::new(rounds, |k: int| true).push(false)
}

/// What a hold handler does in one round after its first notification: it
/// asks for its key and, the key being held, sends the notification again
/// and waits.
pub open spec fn hold_round(window: Seq<char>, event: Seq<char>, key: Key) -> Seq<EffectView> {
    seq![EffectView::Poll { key }, hold_emit(window, event), hold_sleep()]
}

proof fn lemma_hold_rounds(handlers: Seq<HandlerView>, i: nat, rounds: nat, rest: Seq<bool>)
    requires
        i < handlers.len(),
        handlers[i as int] is Hold,
    ensures
        run(
            handlers,
            Progress { index: i, stage: Stage::HoldSlept },
            held_for(rounds) + rest,
        ) == then(
            repeated(
                hold_round(
                    handlers[i as int]->Hold_window,
                    handlers[i as int]->Hold_event,
                    handlers[i as int]->key,
                ),
                rounds,
            ) + seq![EffectView::Poll { key: handlers[i as int]->key }],
            run(handlers, Progress { index: i + 1, stage: Stage::Begin }, rest),
        ),
    decreases rounds,
{
    let window = handlers[i as int]->Hold_window;
    let event = handlers[i as int]->Hold_event;
    let key = handlers[i as int]->key;
    let answers = held_for(rounds) + rest;
    let poll = EffectView::Poll { key };
    let after = run(handlers, Progress { index: i + 1, stage: Stage::Begin }, rest);
    let polled = Progress { index: i, stage: Stage::HoldPolled };
    let emitted = Progress { index: i, stage: Stage::HoldEmitted };
    let slept = Progress { index: i, stage: Stage::HoldSlept };
    assert(run(handlers, slept, answers) == then(seq![poll], run(handlers, polled, answers)));
    if rounds == 0 {
        assert(!answers[0]);
        assert(answers.skip(1) =~= rest);
        assert(run(handlers, polled, answers) == after);
        assert(seq![poll] + after.effects
            =~= repeated(hold_round(window, event, key), rounds) + seq![poll]
            + after.effects);
    } else {
        let fewer = (rounds - 1) as nat;
        assert(answers[0]);
        assert(answers.skip(1) =~= held_for(fewer) + rest);
        lemma_hold_rounds(handlers, i, fewer, rest);
        let tail = run(handlers, slept, answers.skip(1));
        assert(run(handlers, emitted, answers.skip(1)) == then(seq![hold_sleep()], tail));
        assert(run(handlers, polled, answers) == then(
            seq![hold_emit(window, event)],
            run(handlers, emitted, answers.skip(1)),
        ));
        assert(seq![poll] + (seq![hold_emit(window, event)] + (seq![hold_sleep()] + (repeated(
            hold_round(window, event, key),
            fewer,
        ) + seq![poll] + after.effects)))
            =~= repeated(hold_round(window, event, key), rounds) + seq![poll]
            + after.effects);
    }
}

/// A hold handler sends its notification once at the start and waits. Then,
/// round after round, it asks for its key and, as long as the key is held,
/// sends the notification again and waits. When the key is no longer held it
/// sends nothing more, and the next handler runs.
pub proof fn lemma_hold_repeats_while_held(
    handlers: Seq<HandlerView>,
    i: nat,
    rounds: nat,
    rest: Seq<bool>,
)
    requires
        i < handlers.len(),
        handlers[i as int] is Hold,
    ensures
        run(handlers, Progress { index: i, stage: Stage::Begin }, held_for(rounds) + rest) == then(
            seq![
                hold_emit(handlers[i as int]->Hold_window, handlers[i as int]->Hold_event),
                hold_sleep(),
            ] + repeated(
                hold_round(
                    handlers[i as int]->Hold_window,
                    handlers[i as int]->Hold_event,
                    handlers[i as int]->key,
                ),
                rounds,
            ) + seq![EffectView::Poll { key: handlers[i as int]->key }],
            run(handlers, Progress { index: i + 1, stage: Stage::Begin }, rest),
        ),
{
    let window = handlers[i as int]->Hold_window;
    let event = handlers[i as int]->Hold_event;
    let key = handlers[i as int]->key;
    let answers = held_for(rounds) + rest;
    let poll = EffectView::Poll { key };
    let after = run(handlers, Progress { index: i + 1, stage: Stage::Begin }, rest);
    let emitted = Progress { index: i, stage: Stage::HoldEmitted };
    let slept = Progress { index: i, stage: Stage::HoldSlept };
    lemma_hold_rounds(handlers, i, rounds, rest);
    assert(run(handlers, emitted, answers) == then(
        seq![hold_sleep()],
        run(handlers, slept, answers),
    ));
    assert(run(handlers, Progress { index: i, stage: Stage::Begin }, answers) == then(
        seq![hold_emit(window, event)],
        run(handlers, emitted, answers),
    ));
    assert(seq![hold_emit(window, event)] + (seq![hold_sleep()]
        + (repeated(hold_round(window, event, key), rounds)
        + seq![poll] + after.effects)) =~= seq![hold_emit(window, event), hold_sleep()] + repeated(
        hold_round(window, event, key),
        rounds,
    ) + seq![poll] + after.effects);
}

/// Two handlers of a key that send their notification whenever the key goes
/// down both do so, the one registered first before the other.
pub proof fn lemma_two_handlers_run_in_order(
    window: Seq<char>,
    first: Seq<char>,
    second: Seq<char>,
    answers: Seq<bool>,
)
    ensures
        run(
            seq![
                HandlerView::Press { window, event: first, gates: Seq::empty() },
                HandlerView::Press { window, event: second, gates: Seq::empty() },
            ],
            outset(),
            answers,
        ) == (Trace {
            effects: seq![press_emit(window, first), press_emit(window, second), EffectView::Done],
            unread: answers,
            finished: true,
        }),
{
    let handlers = seq![
        HandlerView::Press { window, event: first, gates: Seq::empty() },
        HandlerView::Press { window, event: second, gates: Seq::empty() },
    ];
    lemma_press_fires_when_gates_held(handlers, 0, answers);
    lemma_press_fires_when_gates_held(handlers, 1, answers);
    assert(answers.skip(0) =~= answers);
    let end = run(handlers, Progress { index: 2, stage: Stage::Begin }, answers);
    assert(end.effects == seq![EffectView::Done]);
    assert(polls(Seq::<KeybdKey>::empty()) + seq![press_emit(window, first)] + (polls(
        Seq::<KeybdKey>::empty(),
    ) + seq![press_emit(window, second)] + end.effects) =~= seq![
        press_emit(window, first),
        press_emit(window, second),
        EffectView::Done,
    ]);
}

} // verus!
