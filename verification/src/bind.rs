//! The binding builders: they read a symbolic name, build the handler that
//! the request asks for and register it.

use vstd::prelude::*;
use crate::chord::{chord_name, chord_named, lemma_chord_found_by_name, parse_chord};
use crate::handler::{hold_event, press_event, Handler, HandlerView};
use crate::keys::{get_key, key_named, Key, KeybdKey};
use crate::registry::{is_snapshot, merge_insert, Binding, Registry};
use crate::text::segments;

verus! {

/// The bind table after `handler` is registered under the symbolic name
/// `name`: under the key that the name stands for, or not at all where it
/// stands for none.
pub open spec fn callback_added(
    binds: Map<Key, Seq<HandlerView>>,
    name: Seq<char>,
    handler: HandlerView,
) -> Map<Key, Seq<HandlerView>> {
    match key_named(name) {
        Some(key) => merge_insert(binds, key, handler),
        None => binds,
    }
}

/// The bind table after a press binding for `name` is registered for
/// `window`: where `name` names a chord, its trigger gets a handler that
/// sends `"press" + name` to `window` when all the modifiers are held;
/// otherwise nothing changes.
pub open spec fn press_bound(
    binds: Map<Key, Seq<HandlerView>>,
    window: Seq<char>,
    name: Seq<char>,
) -> Map<Key, Seq<HandlerView>> {
    match chord_named(name) {
        Some(chord) => merge_insert(
            binds,
            chord.trigger,
            HandlerView::Press { window, event: press_event(name), gates: chord.modifiers },
        ),
        None => binds,
    }
}

/// The bind table after a hold binding for `name` is registered for
/// `window`: where the whole of `name` names a key or a button, that key gets
/// a handler that sends `"hold" + name` to `window` while the key is down;
/// otherwise nothing changes.
pub open spec fn hold_bound(
    binds: Map<Key, Seq<HandlerView>>,
    window: Seq<char>,
    name: Seq<char>,
) -> Map<Key, Seq<HandlerView>> {
    match key_named(name) {
        Some(key) => merge_insert(
            binds,
            key,
            HandlerView::Hold { window, event: hold_event(name), key },
        ),
        None => binds,
    }
}

/// Registers `ac_callback` under the key that `name_key` stands for. A name
/// that stands for no key is passed over.
pub fn add_callback(registry: &mut Registry, name_key: &str, ac_callback: Handler)
    ensures
        final(registry)@ == callback_added(old(registry)@, name_key@, ac_callback@),
{
    match get_key(name_key) {
        Some(key) => {
            registry.merge_insert(key, ac_callback);
        },
        None => {},
    }
}

/// Registers a press binding for the key or chord that `name_key` names,
/// whose notifications go to the window of label `window`. A name that names
/// no chord is passed over.
pub fn bind_key(registry: &mut Registry, window: &str, name_key: String)
    ensures
        final(registry)@ == press_bound(old(registry)@, window@, name_key@),
{
    match parse_chord(name_key.as_str()) {
        Some(chord) => {
            let handler = Handler::press(window, name_key.as_str(), chord.modifiers);
            registry.merge_insert(chord.trigger, handler);
        },
        None => {},
    }
}

/// Registers a hold binding for the key or button that `name_key` names,
/// whose notifications go to the window of label `window`. A name that names
/// neither is passed over.
pub fn bind_hold_key(registry: &mut Registry, window: &str, name_key: String)
    ensures
        final(registry)@ == hold_bound(old(registry)@, window@, name_key@),
{
    match get_key(name_key.as_str()) {
        Some(key) => {
            let handler = Handler::hold(window, name_key.as_str(), key);
            add_callback(registry, name_key.as_str(), handler);
        },
        None => {},
    }
}

/// The bindings to install into the hook subsystem: a snapshot of the whole
/// registry as it is now.
pub fn update_binds(registry: &Registry) -> (entries: Vec<Binding>)
    ensures
        is_snapshot(entries@, registry@),
{
    registry.snapshot()
}

/// The handlers that a bind table holds for `key`: none where the key is not
/// bound.
pub open spec fn handlers_of(binds: Map<Key, Seq<HandlerView>>, key: Key) -> Seq<HandlerView> {
    if binds.contains_key(key) {
        binds[key]
    } else {
        Seq::empty()
    }
}

/// Registering a handler puts it behind the handlers that its key has, and
/// leaves every other key as it is.
pub proof fn lemma_merge_insert_appends(
    binds: Map<Key, Seq<HandlerView>>,
    key: Key,
    handler: HandlerView,
    other: Key,
)
    ensures
        merge_insert(binds, key, handler).contains_key(key),
        handlers_of(merge_insert(binds, key, handler), key) == handlers_of(binds, key).push(
            handler,
        ),
        other != key ==> merge_insert(binds, key, handler).contains_key(other)
            == binds.contains_key(other),
        other != key ==> handlers_of(merge_insert(binds, key, handler), other) == handlers_of(
            binds,
            other,
        ),
{
    assert(Seq::<HandlerView>::empty().push(handler) =~= seq![handler]);
}

/// Two handlers registered for the same key are both kept, in the order in
/// which they were registered, behind what the key had before.
pub proof fn lemma_handlers_kept_in_order(
    binds: Map<Key, Seq<HandlerView>>,
    key: Key,
    first: HandlerView,
    second: HandlerView,
)
    ensures
        handlers_of(merge_insert(merge_insert(binds, key, first), key, second), key)
            == handlers_of(binds, key) + seq![first, second],
{
    lemma_merge_insert_appends(binds, key, first, key);
    lemma_merge_insert_appends(merge_insert(binds, key, first), key, second, key);
    assert(handlers_of(binds, key).push(first).push(second) =~= handlers_of(binds, key)
        + seq![first, second]);
}

/// A registration never takes anything away: whatever a key had stays, in its
/// order, at the front of what the key has afterwards.
pub proof fn lemma_registration_only_adds(
    binds: Map<Key, Seq<HandlerView>>,
    key: Key,
    handler: HandlerView,
    other: Key,
)
    ensures
        handlers_of(binds, other).is_prefix_of(
            handlers_of(merge_insert(binds, key, handler), other),
        ),
{
    lemma_merge_insert_appends(binds, key, handler, other);
}

/// A press binding for the name of a chord is registered under the trigger of
/// the chord and gated by its modifiers; what the other keys have, the
/// modifiers among them, stays as it is.
pub proof fn lemma_chord_is_bound_to_trigger(
    binds: Map<Key, Seq<HandlerView>>,
    window: Seq<char>,
    modifiers: Seq<KeybdKey>,
    trigger: Key,
    other: Key,
)
    requires
        modifiers.len() <= 2,
        other != trigger,
    ensures
        ({
            let name = chord_name(modifiers, trigger);
            &&& handlers_of(press_bound(binds, window, name), trigger) == handlers_of(
                binds,
                trigger,
            ).push(HandlerView::Press { window, event: press_event(name), gates: modifiers })
            &&& press_bound(binds, window, name).contains_key(other) == binds.contains_key(other)
            &&& handlers_of(press_bound(binds, window, name), other) == handlers_of(binds, other)
        }),
{
    let name = chord_name(modifiers, trigger);
    lemma_chord_found_by_name(modifiers, trigger);
    lemma_merge_insert_appends(
        binds,
        trigger,
        HandlerView::Press { window, event: press_event(name), gates: modifiers },
        other,
    );
}

/// A press binding for a name of more than three segments, or with a segment
/// that names neither a key nor a button, registers nothing.
pub proof fn lemma_unresolved_press_binds_nothing(
    binds: Map<Key, Seq<HandlerView>>,
    window: Seq<char>,
    name: Seq<char>,
)
    requires
        segments(name).len() > 3 || exists|i: int|
            0 <= i < segments(name).len() && key_named(#[trigger] segments(name)[i]) is None,
    ensures
        press_bound(binds, window, name) == binds,
{
    if segments(name).len() > 3 {
        crate::chord::lemma_long_name_is_no_chord(name);
    } else {
        let i = choose|i: int|
            0 <= i < segments(name).len() && key_named(#[trigger] segments(name)[i]) is None;
        crate::chord::lemma_unknown_segment_is_no_chord(name, i);
    }
}

/// A hold binding, or a callback, for a name that names neither a key nor a
/// button registers nothing.
pub proof fn lemma_unresolved_name_binds_nothing(
    binds: Map<Key, Seq<HandlerView>>,
    window: Seq<char>,
    name: Seq<char>,
    handler: HandlerView,
)
    requires
        key_named(name) is None,
    ensures
        hold_bound(binds, window, name) == binds,
        callback_added(binds, name, handler) == binds,
{
}

} // verus!
