//! The bind registry: for every key, the handlers registered for it, in the
//! order in which they were registered.

use std::collections::HashMap;
use vstd::prelude::*;
use crate::handler::{copy_handlers, handler_views, Handler, HandlerView};
use crate::keys::{
    lemma_code_in_range, lemma_code_tells_keys_apart, Key, KEYBD_KEYS, MOUSE_BUTTONS,
};

verus! {

broadcast use vstd::std_specs::hash::group_hash_axioms;

/// One entry of the registry: a key and the handlers registered for it, the
/// first registered first.
#[derive(Debug, PartialEq, Eq)]
pub struct Binding {
    pub key: Key,
    pub handlers: Vec<Handler>,
}

/// The bind table after `handler` is registered for `key`: a key that was not
/// bound gets the handler alone; a key that was bound keeps its handlers and
/// gets the new one behind them.
pub open spec fn merge_insert(
    binds: Map<Key, Seq<HandlerView>>,
    key: Key,
    handler: HandlerView,
) -> Map<Key, Seq<HandlerView>> {
    if binds.contains_key(key) {
        binds.insert(key, binds[key].push(handler))
    } else {
        binds.insert(key, seq![handler])
    }
}

/// Whether `entries` is a snapshot of the bind table `binds`: it holds every
/// bound key once, with the handlers of that key, the mouse buttons before the
/// keyboard keys.
pub open spec fn is_snapshot(entries: Seq<Binding>, binds: Map<Key, Seq<HandlerView>>) -> bool {
    &&& forall|i: int, j: int|
        0 <= i < j < entries.len() ==> (#[trigger] entries[i]).key != (#[trigger] entries[j]).key
    &&& forall|i: int|
        0 <= i < entries.len() ==> {
            &&& binds.contains_key((#[trigger] entries[i]).key)
            &&& binds[entries[i].key] == handler_views(entries[i].handlers@)
            &&& entries[i].handlers.len() > 0
        }
    &&& forall|key: Key| #[trigger]
        binds.contains_key(key) ==> exists|i: int|
            0 <= i < entries.len() && (#[trigger] entries[i]).key == key
    &&& forall|i: int, j: int|
        0 <= i < entries.len() && 0 <= j < entries.len() && (#[trigger] entries[i]).key is Mouse
            && (#[trigger] entries[j]).key is Keybd ==> i < j
}

/// Whether every entry of a map stands under the number of its key and holds
/// a handler.
spec fn well_kept(binds: Map<u64, Binding>) -> bool {
    forall|code: u64| #[trigger]
        binds.contains_key(code) ==> binds[code].key.code() == code && binds[code].handlers.len()
            > 0
}

/// The bind table that a map of entries stands for.
spec fn table(binds: Map<u64, Binding>) -> Map<Key, Seq<HandlerView>> {
    Map::new(
        |key: Key| binds.contains_key(key.code()),
        |key: Key| handler_views(binds[key.code()].handlers@),
    )
}

/// Registers `handler` for `key` in a map of entries.
fn merge_into(binds: &mut HashMap<u64, Binding>, key: Key, handler: Handler)
    requires
        well_kept(old(binds)@),
    ensures
        well_kept(final(binds)@),
        table(final(binds)@) == merge_insert(table(old(binds)@), key, handler@),
        forall|code: u64| #[trigger]
            final(binds)@.contains_key(code) ==> {
                ||| final(binds)@[code].key == key
                ||| old(binds)@.contains_key(code) && final(binds)@[code].key
                    == old(binds)@[code].key
            },
{
    let ghost before = binds@;
    let code = key.code();
    let mut entry = match binds.remove(&code) {
        Some(entry) => entry,
        None => Binding { key, handlers: Vec::new() },
    };
    proof {
        if before.contains_key(code) {
            lemma_code_tells_keys_apart(before[code].key, key);
        }
    }
    let ghost had = handler_views(entry.handlers@);
    entry.handlers.push(handler);
    assert(handler_views(entry.handlers@) =~= had.push(handler@));
    binds.insert(code, entry);
    proof {
        let after = binds@;
        assert(after =~= before.insert(code, after[code]));
        assert forall|other: Key| #[trigger]
            table(after).contains_key(other) == merge_insert(
                table(before),
                key,
                handler@,
            ).contains_key(other) by {
            if other.code() == code {
                lemma_code_tells_keys_apart(other, key);
            }
        }
        assert forall|other: Key| table(after).contains_key(other) implies #[trigger] table(
            after,
        )[other] == merge_insert(table(before), key, handler@)[other] by {
            if other.code() == code {
                lemma_code_tells_keys_apart(other, key);
                assert(Seq::<HandlerView>::empty().push(handler@) =~= seq![handler@]);
            }
        }
        assert(table(after) =~= merge_insert(table(before), key, handler@));
    }
}

/// Copies the entries that `binds` holds under the numbers from `from` up to
/// `to`, in the order of the numbers, behind `snapshot`.
fn copy_into(snapshot: &mut Vec<Binding>, binds: &HashMap<u64, Binding>, from: u64, to: u64)
    requires
        from <= to,
        well_kept(binds@),
    ensures
        final(snapshot).len() >= old(snapshot).len(),
        forall|i: int| 0 <= i < old(snapshot).len() ==> final(snapshot)[i] == old(snapshot)[i],
        forall|i: int|
            old(snapshot).len() <= i < final(snapshot).len() ==> {
                &&& from <= (#[trigger] final(snapshot)[i]).key.code() < to
                &&& binds@.contains_key(final(snapshot)[i].key.code())
                &&& handler_views(final(snapshot)[i].handlers@) == handler_views(
                    binds@[final(snapshot)[i].key.code()].handlers@,
                )
                &&& final(snapshot)[i].handlers.len() > 0
            },
        forall|i: int, j: int|
            old(snapshot).len() <= i < j < final(snapshot).len() ==> {
                (#[trigger] final(snapshot)[i]).key.code()
                    < (#[trigger] final(snapshot)[j]).key.code()
            },
        forall|key: Key|
            from <= key.code() < to && #[trigger] binds@.contains_key(key.code())
                ==> exists|i: int|
                old(snapshot).len() <= i < final(snapshot).len()
                    && (#[trigger] final(snapshot)[i]).key == key,
{
    let ghost before = snapshot@;
    let mut code: u64 = from;
    while code < to
        invariant
            from <= code <= to,
            well_kept(binds@),
            snapshot.len() >= before.len(),
            forall|i: int| 0 <= i < before.len() ==> snapshot[i] == before[i],
            forall|i: int|
                before.len() <= i < snapshot.len() ==> {
                    &&& from <= (#[trigger] snapshot[i]).key.code() < code
                    &&& binds@.contains_key(snapshot[i].key.code())
                    &&& handler_views(snapshot[i].handlers@) == handler_views(
                        binds@[snapshot[i].key.code()].handlers@,
                    )
                    &&& snapshot[i].handlers.len() > 0
                },
            forall|i: int, j: int|
                before.len() <= i < j < snapshot.len() ==> (#[trigger] snapshot[i]).key.code() < (
                #[trigger] snapshot[j]).key.code(),
            forall|key: Key|
                from <= key.code() < code && #[trigger] binds@.contains_key(key.code())
                    ==> exists|i: int|
                    before.len() <= i < snapshot.len() && (#[trigger] snapshot[i]).key == key,
        decreases to - code,
    {
        let ghost so_far = snapshot@;
        match binds.get(&code) {
            Some(entry) => {
                let handlers = copy_handlers(&entry.handlers);
                assert(handlers.len() == handler_views(handlers@).len());
                assert(entry.handlers.len() == handler_views(entry.handlers@).len());
                snapshot.push(Binding { key: entry.key, handlers });
                proof {
                    let last = so_far.len() as int;
                    assert(snapshot[last].key == entry.key);
                    assert forall|key: Key|
                        from <= key.code() < code + 1 && #[trigger] binds@.contains_key(
                            key.code(),
                        ) implies exists|i: int|
                        before.len() <= i < snapshot.len() && (#[trigger] snapshot[i]).key
                            == key by {
                        if key.code() == code {
                            lemma_code_tells_keys_apart(key, entry.key);
                            assert(snapshot[last].key == key);
                        } else {
                            let i = choose|i: int|
                                before.len() <= i < so_far.len() && (#[trigger] so_far[i]).key
                                    == key;
                            assert(snapshot[i].key == key);
                        }
                    }
                }
            },
            None => {
                proof {
                    assert forall|key: Key|
                        from <= key.code() < code + 1 && #[trigger] binds@.contains_key(
                            key.code(),
                        ) implies exists|i: int|
                        before.len() <= i < snapshot.len() && (#[trigger] snapshot[i]).key
                            == key by {
                        let i = choose|i: int|
                            before.len() <= i < so_far.len() && (#[trigger] so_far[i]).key == key;
                        assert(snapshot[i].key == key);
                    }
                }
            },
        }
        code = code + 1;
    }
}

/// The bind registry.
///
/// It holds at most one entry for a key. Registering a handler for a key that
/// is bound already keeps the handlers that the key has and puts the new one
/// behind them, so nothing that was registered is ever lost.
pub struct Registry {
    keybd_binds: HashMap<u64, Binding>,
    mouse_binds: HashMap<u64, Binding>,
}

impl Registry {
    #[verifier::type_invariant]
    spec fn well_formed(self) -> bool {
        &&& well_kept(self.keybd_binds@)
        &&& well_kept(self.mouse_binds@)
        &&& forall|code: u64| #[trigger]
            self.keybd_binds@.contains_key(code) ==> self.keybd_binds@[code].key is Keybd
        &&& forall|code: u64| #[trigger]
            self.mouse_binds@.contains_key(code) ==> self.mouse_binds@[code].key is Mouse
    }

    /// The bind table: for every bound key, its handlers in the order in
    /// which they were registered.
    pub closed spec fn view(&self) -> Map<Key, Seq<HandlerView>> {
        table(self.mouse_binds@).union_prefer_right(table(self.keybd_binds@))
    }

    /// A registry without bindings.
    pub fn new() -> (registry: Registry)
        ensures
            registry@ == Map::<Key, Seq<HandlerView>>::empty(),
    {
        let registry = Registry { keybd_binds: HashMap::new(), mouse_binds: HashMap::new() };
        assert(registry@ =~= Map::<Key, Seq<HandlerView>>::empty());
        registry
    }

    /// Registers `handler` for `key`, behind the handlers that `key` has.
    pub fn merge_insert(&mut self, key: Key, handler: Handler)
        ensures
            final(self)@ == merge_insert(old(self)@, key, handler@),
    {
        proof {
            use_type_invariant(&*self);
            self.lemma_kinds_apart();
        }
        // The map is taken out of the registry while it changes, and an
        // empty one stands in for it.
        let mut binds: HashMap<u64, Binding> = HashMap::new();
        match key {
            Key::Keybd(_) => {
                core::mem::swap(&mut self.keybd_binds, &mut binds);
                merge_into(&mut binds, key, handler);
                core::mem::swap(&mut self.keybd_binds, &mut binds);
                assert(self@ =~= merge_insert(old(self)@, key, handler@));
            },
            Key::Mouse(_) => {
                core::mem::swap(&mut self.mouse_binds, &mut binds);
                merge_into(&mut binds, key, handler);
                core::mem::swap(&mut self.mouse_binds, &mut binds);
                assert(self@ =~= merge_insert(old(self)@, key, handler@));
            },
        }
    }

    /// The keyboard map binds keyboard keys only and the mouse map mouse
    /// buttons only.
    proof fn lemma_kinds_apart(self)
        requires
            self.well_formed(),
        ensures
            forall|key: Key| #[trigger]
                table(self.keybd_binds@).contains_key(key) ==> key is Keybd,
            forall|key: Key| #[trigger] table(self.mouse_binds@).contains_key(key) ==> key is Mouse,
    {
        assert forall|key: Key| #[trigger]
            table(self.keybd_binds@).contains_key(key) implies key is Keybd by {
            lemma_code_tells_keys_apart(self.keybd_binds@[key.code()].key, key);
        }
        assert forall|key: Key| #[trigger]
            table(self.mouse_binds@).contains_key(key) implies key is Mouse by {
            lemma_code_tells_keys_apart(self.mouse_binds@[key.code()].key, key);
        }
    }

    /// The handlers registered for `key`, the first registered first; none
    /// where the key is not bound.
    pub fn handlers(&self, key: Key) -> (handlers: Option<Vec<Handler>>)
        ensures
            match handlers {
                Some(handlers) => self@.contains_key(key) && handler_views(handlers@) == self@[key],
                None => !self@.contains_key(key),
            },
    {
        proof {
            use_type_invariant(self);
            self.lemma_kinds_apart();
        }
        let binds = match key {
            Key::Keybd(_) => &self.keybd_binds,
            Key::Mouse(_) => &self.mouse_binds,
        };
        match binds.get(&key.code()) {
            Some(entry) => Some(copy_handlers(&entry.handlers)),
            None => None,
        }
    }

    /// A snapshot of the whole registry, as the hook subsystem takes it when
    /// the bindings are installed.
    pub fn snapshot(&self) -> (entries: Vec<Binding>)
        ensures
            is_snapshot(entries@, self@),
    {
        proof {
            use_type_invariant(self);
            self.lemma_kinds_apart();
        }
        let ghost keybd = self.keybd_binds@;
        let ghost mouse = self.mouse_binds@;
        let mut entries: Vec<Binding> = Vec::new();
        copy_into(&mut entries, &self.mouse_binds, KEYBD_KEYS, KEYBD_KEYS + MOUSE_BUTTONS);
        let ghost buttons = entries@;
        copy_into(&mut entries, &self.keybd_binds, 0, KEYBD_KEYS);
        proof {
            let n = buttons.len() as int;
            assert forall|i: int| 0 <= i < entries.len() implies {
                &&& self@.contains_key((#[trigger] entries[i]).key)
                &&& self@[entries[i].key] == handler_views(entries[i].handlers@)
                &&& entries[i].handlers.len() > 0
                &&& (i < n <==> entries[i].key is Mouse)
            } by {
                let key = entries[i].key;
                lemma_code_in_range(key);
                if i < n {
                    assert(entries[i] == buttons[i]);
                    lemma_code_tells_keys_apart(mouse[key.code()].key, key);
                } else {
                    lemma_code_tells_keys_apart(keybd[key.code()].key, key);
                }
            }
            assert forall|key: Key| #[trigger] self@.contains_key(key) implies exists|i: int|
                0 <= i < entries.len() && (#[trigger] entries[i]).key == key by {
                lemma_code_in_range(key);
                if table(keybd).contains_key(key) {
                    assert(keybd.contains_key(key.code()));
                    let i = choose|i: int|
                        n <= i < entries.len() && (#[trigger] entries[i]).key == key;
                    assert(entries[i].key == key);
                } else {
                    assert(mouse.contains_key(key.code()));
                    let i = choose|i: int| 0 <= i < n && (#[trigger] buttons[i]).key == key;
                    assert(entries[i] == buttons[i]);
                }
            }
            assert forall|i: int, j: int| 0 <= i < j < entries.len() implies (
            #[trigger] entries[i]).key != (#[trigger] entries[j]).key by {
                if j < n {
                    assert(entries[i] == buttons[i]);
                    assert(entries[j] == buttons[j]);
                    assert(buttons[i].key.code() < buttons[j].key.code());
                } else if i >= n {
                    assert(entries[i].key.code() < entries[j].key.code());
                }
            }
        }
        entries
    }
}

} // verus!
