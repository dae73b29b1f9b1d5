//! Handlers: what a binding does when the key it is registered under goes
//! down.

use vstd::prelude::*;
use crate::keys::{Key, KeybdKey};

verus! {

/// What a "hold" notification carries.
#[derive(Clone, Copy, Debug, PartialEq, Eq, Structural)]
pub struct Payload {
    pub pressed: u32,
}

/// The value of `pressed` in every "hold" notification.
pub const HOLD_PRESSED: u32 = 1;

/// The milliseconds between two "hold" notifications.
pub const HOLD_INTERVAL_MS: u64 = 10;

/// A handler registered for a key. It sends its notifications to the window
/// that asked for the binding, which it knows by the window's label.
#[derive(Debug, PartialEq, Eq)]
pub enum Handler {
    /// Sends the notification `event` to `window` once, provided that every
    /// key of `gates` is held down at that moment.
    Press { window: String, event: String, gates: Vec<KeybdKey> },
    /// Sends the notification `event` with its payload to `window` at once,
    /// and again every [`HOLD_INTERVAL_MS`] for as long as `key` stays down.
    Hold { window: String, event: String, key: Key },
}

/// A handler as a mathematical value.
pub enum HandlerView {
    Press { window: Seq<char>, event: Seq<char>, gates: Seq<KeybdKey> },
    Hold { window: Seq<char>, event: Seq<char>, key: Key },
}

impl View for Handler {
    type V = HandlerView;

    open spec fn view(&self) -> HandlerView {
        match self {
            Handler::Press { window, event, gates } => HandlerView::Press {
                window: window@,
                event: event@,
                gates: gates@,
            },
            Handler::Hold { window, event, key } => HandlerView::Hold {
                window: window@,
                event: event@,
                key: *key,
            },
        }
    }
}

/// The views of a sequence of handlers, in the same order.
pub open spec fn handler_views(handlers: Seq<Handler>) -> Seq<HandlerView> {
    handlers.map_values(|handler: Handler| handler@)
}

/// The name of the notification that a press binding for `name` sends.
pub open spec fn press_event(name: Seq<char>) -> Seq<char> {
    "press"@ + name
}

/// The name of the notification that a hold binding for `name` sends.
pub open spec fn hold_event(name: Seq<char>) -> Seq<char> {
    "hold"@ + name
}

/// Copies a list of keys.
pub fn copy_keys(keys: &Vec<KeybdKey>) -> (copy: Vec<KeybdKey>)
    ensures
        copy@ == keys@,
{
    let mut copy: Vec<KeybdKey> = Vec::new();
    let mut i: usize = 0;
    while i < keys.len()
        invariant
            i <= keys.len(),
            copy@ == keys@.take(i as int),
        decreases keys.len() - i,
    {
        copy.push(keys[i]);
        assert(keys@.take(i + 1) == keys@.take(i as int).push(keys@[i as int]));
        i = i + 1;
    }
    assert(keys@.take(keys.len() as int) == keys@);
    copy
}

impl Handler {
    /// The handler of a press binding that the window of label `window`
    /// asked for, for the symbolic name `name`, gated by `gates`.
    pub fn press(window: &str, name: &str, gates: Vec<KeybdKey>) -> (handler: Handler)
        ensures
            handler@ == (HandlerView::Press {
                window: window@,
                event: press_event(name@),
                gates: gates@,
            }),
    {
        Handler::Press {
            window: String::from_str(window),
            event: String::from_str("press").concat(name),
            gates,
        }
    }

    /// The handler of a hold binding that the window of label `window` asked
    /// for, for the symbolic name `name`, which stands for `key`.
    pub fn hold(window: &str, name: &str, key: Key) -> (handler: Handler)
        ensures
            handler@ == (HandlerView::Hold { window: window@, event: hold_event(name@), key }),
    {
        Handler::Hold {
            window: String::from_str(window),
            event: String::from_str("hold").concat(name),
            key,
        }
    }
}

impl Clone for Handler {
    fn clone(&self) -> (copy: Handler)
        ensures
            copy@ == self@,
    {
        match self {
            Handler::Press { window, event, gates } => Handler::Press {
                window: window.clone(),
                event: event.clone(),
                gates: copy_keys(gates),
            },
            Handler::Hold { window, event, key } => Handler::Hold {
                window: window.clone(),
                event: event.clone(),
                key: *key,
            },
        }
    }
}

/// Copies a list of handlers.
pub fn copy_handlers(handlers: &Vec<Handler>) -> (copy: Vec<Handler>)
    ensures
        handler_views(copy@) == handler_views(handlers@),
{
    let mut copy: Vec<Handler> = Vec::new();
    let mut i: usize = 0;
    while i < handlers.len()
        invariant
            i <= handlers.len(),
            copy.len() == i,
            forall|j: int| 0 <= j < i ==> (#[trigger] copy[j])@ == handlers[j]@,
        decreases handlers.len() - i,
    {
        copy.push(handlers[i].clone());
        i = i + 1;
    }
    assert(handler_views(copy@) =~= handler_views(handlers@));
    copy
}

} // verus!
