use keyhook::dispatch::{Dispatch, Effect};
use keyhook::handler::{Handler, Payload};
use keyhook::keys::{Key, KeybdKey, MouseButton};
use keyhook::registry::Registry;
use keyhook::{bind_hold_key, bind_key};

const CONTROL: Key = Key::Keybd(KeybdKey::LControlKey);
const SHIFT: Key = Key::Keybd(KeybdKey::LShiftKey);
const S: Key = Key::Keybd(KeybdKey::SKey);
const A: Key = Key::Keybd(KeybdKey::AKey);

fn emit(event: &str) -> Effect {
    Effect::Emit { window: "main".to_string(), event: event.to_string(), payload: None }
}

fn emit_held(event: &str) -> Effect {
    Effect::Emit {
        window: "main".to_string(),
        event: event.to_string(),
        payload: Some(Payload { pressed: 1 }),
    }
}

fn sleep() -> Effect {
    Effect::Sleep { millis: 10 }
}

fn poll(key: Key) -> Effect {
    Effect::Poll { key }
}

/// Runs `handlers` as the hook loop does, with `is_held` in place of the
/// keyboard, and gives the effects up to and with `Done`.
fn run(handlers: Vec<Handler>, mut is_held: impl FnMut(Key) -> bool) -> Vec<Effect> {
    let mut dispatch = Dispatch::new(handlers);
    let mut effects = Vec::new();
    let mut held = false;
    for _ in 0..10_000 {
        let effect = dispatch.step(held);
        match &effect {
            Effect::Poll { key } => held = is_held(*key),
            Effect::Done => {
                effects.push(effect);
                return effects;
            }
            _ => {}
        }
        effects.push(effect);
    }
    panic!("the run did not end");
}

fn handlers_of(name: &str, key: Key) -> Vec<Handler> {
    let mut registry = Registry::new();
    bind_key(&mut registry, "main", name.to_string());
    registry.handlers(key).unwrap()
}

#[test]
fn no_handlers_is_done_at_once() {
    assert_eq!(run(vec![], |_| true), vec![Effect::Done]);
    let mut dispatch = Dispatch::new(vec![]);
    assert_eq!(dispatch.step(false), Effect::Done);
    assert_eq!(dispatch.step(true), Effect::Done);
}

#[test]
fn a_single_key_binding_fires_unconditionally() {
    let handlers = handlers_of("KeyA", A);
    assert_eq!(run(handlers.clone(), |_| false), vec![emit("pressKeyA"), Effect::Done]);
    assert_eq!(run(handlers, |_| true), vec![emit("pressKeyA"), Effect::Done]);
}

#[test]
fn composed_handlers_run_in_registration_order() {
    let handlers = vec![
        Handler::Press { window: "main".to_string(), event: "A".to_string(), gates: vec![] },
        Handler::Press { window: "main".to_string(), event: "B".to_string(), gates: vec![] },
    ];
    assert_eq!(run(handlers, |_| false), vec![emit("A"), emit("B"), Effect::Done]);
}

#[test]
fn registered_handlers_run_in_registration_order() {
    let mut registry = Registry::new();
    bind_key(&mut registry, "main", "KeyS".to_string());
    bind_key(&mut registry, "main", "ControlLeft_KeyS".to_string());
    bind_key(&mut registry, "main", "ShiftLeft_KeyS".to_string());
    bind_key(&mut registry, "main", "KeyS".to_string());
    let handlers = registry.handlers(S).unwrap();
    assert_eq!(
        run(handlers.clone(), |key| key == CONTROL),
        vec![
            emit("pressKeyS"),
            poll(CONTROL),
            emit("pressControlLeft_KeyS"),
            poll(SHIFT),
            emit("pressKeyS"),
            Effect::Done
        ]
    );
    assert_eq!(
        run(handlers, |_| false),
        vec![emit("pressKeyS"), poll(CONTROL), poll(SHIFT), emit("pressKeyS"), Effect::Done]
    );
}

#[test]
fn chord_fires_when_the_modifier_is_held() {
    let handlers = handlers_of("ControlLeft_KeyS", S);
    assert_eq!(
        run(handlers, |key| key == CONTROL),
        vec![poll(CONTROL), emit("pressControlLeft_KeyS"), Effect::Done]
    );
}

#[test]
fn chord_is_silent_when_the_modifier_is_not_held() {
    let handlers = handlers_of("ControlLeft_KeyS", S);
    assert_eq!(run(handlers.clone(), |_| false), vec![poll(CONTROL), Effect::Done]);
    assert_eq!(run(handlers, |key| key == SHIFT), vec![poll(CONTROL), Effect::Done]);
}

#[test]
fn three_key_chord_needs_both_modifiers() {
    let handlers = handlers_of("ControlLeft_ShiftLeft_KeyA", A);
    assert_eq!(
        run(handlers.clone(), |_| true),
        vec![poll(CONTROL), poll(SHIFT), emit("pressControlLeft_ShiftLeft_KeyA"), Effect::Done]
    );
    assert_eq!(
        run(handlers.clone(), |key| key == CONTROL),
        vec![poll(CONTROL), poll(SHIFT), Effect::Done]
    );
    assert_eq!(run(handlers.clone(), |key| key == SHIFT), vec![poll(CONTROL), Effect::Done]);
    assert_eq!(run(handlers, |_| false), vec![poll(CONTROL), Effect::Done]);
}

#[test]
fn the_answer_counts_only_after_a_question() {
    let mut dispatch = Dispatch::new(handlers_of("ControlLeft_KeyS", S));
    assert_eq!(dispatch.step(true), poll(CONTROL));
    assert_eq!(dispatch.step(false), Effect::Done);
    let mut dispatch = Dispatch::new(handlers_of("ControlLeft_KeyS", S));
    assert_eq!(dispatch.step(false), poll(CONTROL));
    assert_eq!(dispatch.step(true), emit("pressControlLeft_KeyS"));
    assert_eq!(dispatch.step(true), Effect::Done);
    assert_eq!(dispatch.step(true), Effect::Done);
}

fn hold_handlers(name: &str, key: Key) -> Vec<Handler> {
    let mut registry = Registry::new();
    bind_hold_key(&mut registry, "main", name.to_string());
    registry.handlers(key).unwrap()
}

fn count_emits(effects: &[Effect]) -> usize {
    effects.iter().filter(|effect| matches!(effect, Effect::Emit { .. })).count()
}

#[test]
fn hold_emits_once_when_the_key_is_let_go_at_once() {
    assert_eq!(
        run(hold_handlers("KeyA", A), |_| false),
        vec![emit_held("holdKeyA"), sleep(), poll(A), Effect::Done]
    );
}

#[test]
fn hold_emits_every_interval_while_held() {
    let mut left = 3;
    let effects = run(hold_handlers("KeyA", A), |key| {
        assert_eq!(key, A);
        let held = left > 0;
        if held {
            left -= 1;
        }
        held
    });
    assert_eq!(
        effects,
        vec![
            emit_held("holdKeyA"),
            sleep(),
            poll(A),
            emit_held("holdKeyA"),
            sleep(),
            poll(A),
            emit_held("holdKeyA"),
            sleep(),
            poll(A),
            emit_held("holdKeyA"),
            sleep(),
            poll(A),
            Effect::Done
        ]
    );
}

#[test]
fn hold_emits_one_more_than_the_key_was_found_held() {
    for rounds in [0usize, 1, 2, 7, 100] {
        let mut left = rounds;
        let effects = run(hold_handlers("LeftButton", Key::Mouse(MouseButton::LeftButton)), |_| {
            let held = left > 0;
            if held {
                left -= 1;
            }
            held
        });
        assert_eq!(count_emits(&effects), rounds + 1);
        assert_eq!(effects.len(), 3 * (rounds + 1) + 1);
        assert_eq!(effects.last(), Some(&Effect::Done));
        let sleeps = effects.iter().filter(|effect| **effect == sleep()).count();
        assert_eq!(sleeps, rounds + 1);
    }
}

#[test]
fn hold_blocks_the_handlers_behind_it_until_release() {
    let mut registry = Registry::new();
    bind_hold_key(&mut registry, "main", "KeyA".to_string());
    bind_key(&mut registry, "main", "KeyA".to_string());
    let mut left = 1;
    let effects = run(registry.handlers(A).unwrap(), |_| {
        let held = left > 0;
        if held {
            left -= 1;
        }
        held
    });
    assert_eq!(
        effects,
        vec![
            emit_held("holdKeyA"),
            sleep(),
            poll(A),
            emit_held("holdKeyA"),
            sleep(),
            poll(A),
            emit("pressKeyA"),
            Effect::Done
        ]
    );
}

#[test]
fn every_notification_goes_to_the_window_that_asked() {
    let mut registry = Registry::new();
    bind_key(&mut registry, "first", "KeyA".to_string());
    bind_key(&mut registry, "second", "KeyA".to_string());
    bind_hold_key(&mut registry, "third", "KeyA".to_string());
    assert_eq!(
        run(registry.handlers(A).unwrap(), |_| false),
        vec![
            Effect::Emit {
                window: "first".to_string(),
                event: "pressKeyA".to_string(),
                payload: None
            },
            Effect::Emit {
                window: "second".to_string(),
                event: "pressKeyA".to_string(),
                payload: None
            },
            Effect::Emit {
                window: "third".to_string(),
                event: "holdKeyA".to_string(),
                payload: Some(Payload { pressed: 1 })
            },
            sleep(),
            poll(A),
            Effect::Done
        ]
    );
}

#[test]
fn a_failed_gate_lets_the_next_handler_start() {
    let mut registry = Registry::new();
    bind_key(&mut registry, "main", "ControlLeft_KeyS".to_string());
    bind_hold_key(&mut registry, "main", "KeyS".to_string());
    assert_eq!(
        run(registry.handlers(S).unwrap(), |_| false),
        vec![poll(CONTROL), emit_held("holdKeyS"), sleep(), poll(S), Effect::Done]
    );
}
