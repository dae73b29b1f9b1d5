//! The hook lifecycle: what the hook subsystem is told when the bindings are
//! installed, when the hook loop is started and when it is restarted.
//!
//! The hook subsystem takes its bindings when they are installed and does not
//! see what is registered afterwards. A registration made while the loop runs
//! takes effect with the next restart, which removes every hook, installs a
//! fresh snapshot of the registry and starts the loop again.

use vstd::prelude::*;
use crate::bind::{handlers_of, update_binds};
use crate::handler::{handler_views, HandlerView};
use crate::keys::Key;
use crate::registry::{is_snapshot, merge_insert, Binding, Registry};

verus! {

/// An order to the hook subsystem.
#[derive(Debug, PartialEq, Eq)]
pub enum HookCommand {
    /// Remove every hook that is installed and leave the hook loop.
    Unset,
    /// Bind each of these keys to its handlers. A key that is bound already
    /// gets the new handlers in place of the old.
    Install(Vec<Binding>),
    /// Enter the hook loop, which calls the handlers of a bound key whenever
    /// the key goes down.
    Start,
}

/// An order to the hook subsystem as a mathematical value.
pub enum HookCommandView {
    Unset,
    Install(Seq<Binding>),
    Start,
}

impl View for HookCommand {
    type V = HookCommandView;

    open spec fn view(&self) -> HookCommandView {
        match self {
            HookCommand::Unset => HookCommandView::Unset,
            HookCommand::Install(entries) => HookCommandView::Install(entries@),
            HookCommand::Start => HookCommandView::Start,
        }
    }
}

/// The state of the hook subsystem: the handlers that it holds for each key,
/// and whether its loop runs.
pub struct Hooks {
    pub installed: Map<Key, Seq<HandlerView>>,
    pub running: bool,
}

/// The hook subsystem before anything is installed.
pub open spec fn idle() -> Hooks {
    Hooks { installed: Map::empty(), running: false }
}

/// The hook table after `entries` are bound into `table` one after the other.
pub open spec fn bound_into(table: Map<Key, Seq<HandlerView>>, entries: Seq<Binding>) -> Map<
    Key,
    Seq<HandlerView>,
>
    decreases entries.len(),
{
    if entries.len() == 0 {
        table
    } else {
        bound_into(table, entries.drop_last()).insert(
            entries.last().key,
            handler_views(entries.last().handlers@),
        )
    }
}

/// The state of the hook subsystem after it has obeyed `command`.
pub open spec fn obey(hooks: Hooks, command: HookCommandView) -> Hooks {
    match command {
        HookCommandView::Unset => idle(),
        HookCommandView::Install(entries) => Hooks {
            installed: bound_into(hooks.installed, entries),
            ..hooks
        },
        HookCommandView::Start => Hooks { running: true, ..hooks },
    }
}

/// The state of the hook subsystem after it has obeyed `commands` in their
/// order.
pub open spec fn obey_all(hooks: Hooks, commands: Seq<HookCommandView>) -> Hooks
    decreases commands.len(),
{
    if commands.len() == 0 {
        hooks
    } else {
        obey(obey_all(hooks, commands.drop_last()), commands.last())
    }
}

/// The orders that install `entries` and start the hook loop.
pub open spec fn start_orders(entries: Seq<Binding>) -> Seq<HookCommandView> {
    seq![HookCommandView::Install(entries), HookCommandView::Start]
}

/// The orders that stop the hook loop, install `entries` and start it again.
pub open spec fn restart_orders(entries: Seq<Binding>) -> Seq<HookCommandView> {
    seq![HookCommandView::Unset, HookCommandView::Install(entries), HookCommandView::Start]
}

/// The views of a list of orders, in the same order.
pub open spec fn command_views(commands: Seq<HookCommand>) -> Seq<HookCommandView> {
    commands.map_values(|command: HookCommand| command@)
}

/// The orders for the first start of the hook subsystem: install a snapshot
/// of the registry, then enter the hook loop.
pub fn active_handle(registry: &Registry) -> (commands: Vec<HookCommand>)
    ensures
        exists|entries: Seq<Binding>|
            is_snapshot(entries, registry@) && command_views(commands@) == start_orders(entries),
{
    let entries = update_binds(registry);
    let ghost snapshot = entries@;
    let mut commands: Vec<HookCommand> = Vec::new();
    commands.push(HookCommand::Install(entries));
    commands.push(HookCommand::Start);
    assert(command_views(commands@) =~= start_orders(snapshot));
    commands
}

/// The orders for a restart of the hook subsystem: remove every hook, install
/// a snapshot of the registry as it is now, then enter the hook loop.
pub fn update_handle(registry: &Registry) -> (commands: Vec<HookCommand>)
    ensures
        exists|entries: Seq<Binding>|
            is_snapshot(entries, registry@) && command_views(commands@) == restart_orders(
                entries,
            ),
{
    let mut commands: Vec<HookCommand> = Vec::new();
    commands.push(HookCommand::Unset);
    let mut rest = active_handle(registry);
    let ghost entries = choose|entries: Seq<Binding>|
        is_snapshot(entries, registry@) && command_views(rest@) == start_orders(entries);
    assert(command_views(rest@).len() == 2);
    assert(command_views(rest@)[0] == rest@[0]@);
    assert(command_views(rest@)[1] == rest@[1]@);
    commands.append(&mut rest);
    assert(command_views(commands@) =~= restart_orders(entries));
    commands
}

/// Binding the entries of a snapshot puts the handlers of the snapshot in
/// place of what the hook table held for the same keys, and leaves the other
/// keys alone.
pub proof fn lemma_snapshot_bound_into(
    table: Map<Key, Seq<HandlerView>>,
    entries: Seq<Binding>,
    binds: Map<Key, Seq<HandlerView>>,
)
    requires
        is_snapshot(entries, binds),
    ensures
        bound_into(table, entries) == table.union_prefer_right(binds),
{
    lemma_bound_into_prefix(table, entries, entries.len() as int);
    assert(entries.take(entries.len() as int) =~= entries);
    let bound = bound_into(table, entries);
    assert forall|key: Key| #[trigger] binds.contains_key(key) implies bound.contains_key(key)
        && bound[key] == binds[key] by {
        let i = choose|i: int| 0 <= i < entries.len() && (#[trigger] entries[i]).key == key;
        assert(entries[i].key == key);
    }
    assert forall|key: Key| !binds.contains_key(key) implies (#[trigger] bound.contains_key(key)
        == table.contains_key(key)) && (table.contains_key(key) ==> bound[key] == table[key]) by {
        if exists|i: int| 0 <= i < entries.len() && (#[trigger] entries[i]).key == key {
            let i = choose|i: int| 0 <= i < entries.len() && (#[trigger] entries[i]).key == key;
            assert(binds.contains_key(entries[i].key));
        }
    }
    assert(bound =~= table.union_prefer_right(binds));
}

proof fn lemma_bound_into_prefix(table: Map<Key, Seq<HandlerView>>, entries: Seq<Binding>, n: int)
    requires
        0 <= n <= entries.len(),
        forall|i: int, j: int|
            0 <= i < j < entries.len() ==> (#[trigger] entries[i]).key != (
            #[trigger] entries[j]).key,
    ensures
        forall|i: int|
            0 <= i < n ==> bound_into(table, entries.take(n)).contains_key(
                (#[trigger] entries[i]).key,
            ) && bound_into(table, entries.take(n))[entries[i].key] == handler_views(
                entries[i].handlers@,
            ),
        forall|key: Key|
            (forall|i: int| 0 <= i < n ==> (#[trigger] entries[i]).key != key) ==> (
            #[trigger] bound_into(table, entries.take(n)).contains_key(key)) == table.contains_key(
                key,
            ) && (table.contains_key(key) ==> bound_into(table, entries.take(n))[key]
                == table[key]),
    decreases n,
{
    if n > 0 {
        lemma_bound_into_prefix(table, entries, n - 1);
        assert(entries.take(n).drop_last() =~= entries.take(n - 1));
        assert(entries.take(n).last() == entries[n - 1]);
        assert forall|i: int| 0 <= i < n implies bound_into(table, entries.take(n)).contains_key(
            (#[trigger] entries[i]).key,
        ) && bound_into(table, entries.take(n))[entries[i].key] == handler_views(
            entries[i].handlers@,
        ) by {
            if i < n - 1 {
                assert(entries[i].key != entries[n - 1].key);
            }
        }
        assert forall|key: Key|
            (forall|i: int| 0 <= i < n ==> (#[trigger] entries[i]).key != key) implies (
        #[trigger] bound_into(table, entries.take(n)).contains_key(key)) == table.contains_key(key)
            && (table.contains_key(key) ==> bound_into(table, entries.take(n))[key]
            == table[key]) by {
            assert(entries[n - 1].key != key);
            assert(forall|i: int| 0 <= i < n - 1 ==> (#[trigger] entries[i]).key != key);
            assert(bound_into(table, entries.take(n - 1)).contains_key(key) == table.contains_key(
                key,
            ));
        }
    } else {
        assert(entries.take(0) =~= Seq::<Binding>::empty());
    }
}

/// The first start leaves the hook loop running, with the handlers of the
/// registry installed for every bound key.
pub proof fn lemma_start_installs_registry(
    hooks: Hooks,
    entries: Seq<Binding>,
    binds: Map<Key, Seq<HandlerView>>,
)
    requires
        is_snapshot(entries, binds),
    ensures
        obey_all(hooks, start_orders(entries)) == (Hooks {
            installed: hooks.installed.union_prefer_right(binds),
            running: true,
        }),
{
    let orders = start_orders(entries);
    assert(orders.drop_last() =~= seq![HookCommandView::Install(entries)]);
    assert(orders.drop_last().drop_last() =~= Seq::<HookCommandView>::empty());
    lemma_snapshot_bound_into(hooks.installed, entries, binds);
    assert(obey_all(hooks, orders.drop_last().drop_last()) == hooks);
    assert(obey_all(hooks, orders.drop_last()) == obey(
        hooks,
        HookCommandView::Install(entries),
    ));
}

/// A restart leaves the hook loop running with exactly the bind table of the
/// registry installed, whatever the hook subsystem held before.
pub proof fn lemma_restart_installs_registry(
    hooks: Hooks,
    entries: Seq<Binding>,
    binds: Map<Key, Seq<HandlerView>>,
)
    requires
        is_snapshot(entries, binds),
    ensures
        obey_all(hooks, restart_orders(entries)) == (Hooks { installed: binds, running: true }),
{
    let orders = restart_orders(entries);
    assert(orders.drop_last() =~= seq![
        HookCommandView::Unset,
        HookCommandView::Install(entries),
    ]);
    assert(orders.drop_last().drop_last() =~= seq![HookCommandView::Unset]);
    assert(orders.drop_last().drop_last().drop_last() =~= Seq::<HookCommandView>::empty());
    lemma_snapshot_bound_into(Map::empty(), entries, binds);
    assert(Map::<Key, Seq<HandlerView>>::empty().union_prefer_right(binds) =~= binds);
    assert(obey_all(hooks, orders.drop_last().drop_last().drop_last()) == hooks);
    assert(obey_all(hooks, orders.drop_last().drop_last()) == idle());
    assert(obey_all(hooks, orders.drop_last()) == obey(
        idle(),
        HookCommandView::Install(entries),
    ));
}

/// A restart picks up every registration, those made before the hook loop was
/// first started and those made since: after a handler was registered, the
/// loop started, a second handler registered and the loop restarted, the hook
/// subsystem runs with both handlers installed under their keys, behind what
/// the keys had before.
pub proof fn lemma_restart_sees_every_registration(
    binds: Map<Key, Seq<HandlerView>>,
    early_key: Key,
    early: HandlerView,
    started: Seq<Binding>,
    late_key: Key,
    late: HandlerView,
    restarted: Seq<Binding>,
)
    requires
        is_snapshot(started, merge_insert(binds, early_key, early)),
        is_snapshot(
            restarted,
            merge_insert(merge_insert(binds, early_key, early), late_key, late),
        ),
    ensures
        ({
            let hooks = obey_all(
                obey_all(idle(), start_orders(started)),
                restart_orders(restarted),
            );
            &&& hooks.running
            &&& hooks.installed == merge_insert(
                merge_insert(binds, early_key, early),
                late_key,
                late,
            )
            &&& handlers_of(hooks.installed, early_key).contains(early)
            &&& handlers_of(hooks.installed, late_key).contains(late)
            &&& forall|key: Key|
                handlers_of(binds, key).is_prefix_of(#[trigger] handlers_of(hooks.installed, key))
        }),
{
    let first = merge_insert(binds, early_key, early);
    let second = merge_insert(first, late_key, late);
    lemma_restart_installs_registry(obey_all(idle(), start_orders(started)), restarted, second);
    crate::bind::lemma_merge_insert_appends(binds, early_key, early, late_key);
    crate::bind::lemma_merge_insert_appends(first, late_key, late, early_key);
    let at_first = handlers_of(first, early_key);
    assert(at_first[at_first.len() - 1] == early);
    let at_early = handlers_of(second, early_key);
    assert(at_early[at_first.len() - 1] == early);
    let at_late = handlers_of(second, late_key);
    assert(at_late[at_late.len() - 1] == late);
    assert forall|key: Key|
        handlers_of(binds, key).is_prefix_of(#[trigger] handlers_of(second, key)) by {
        crate::bind::lemma_registration_only_adds(binds, early_key, early, key);
        crate::bind::lemma_registration_only_adds(first, late_key, late, key);
    }
}

} // verus!
