//! Synthetic input: the key presses, clicks, moves and text that the
//! application sends as if they came from the keyboard and the mouse.
//!
//! Each request is turned into a [`Script`], the actions to perform in their
//! order. The caller takes them from the script one at a time and performs
//! each before it takes the next.

use vstd::prelude::*;
use crate::chord::{
    chord_name, chord_named, lemma_chord_found_by_name, parse_chord, Chord, ChordView,
    MAX_CHORD_KEYS,
};
use crate::keys::{Key, KeybdKey, MouseButton};
use crate::seqs::{lemma_repeated_empty, lemma_repeated_index, repeated};

verus! {

/// The milliseconds for which a click holds the button down.
pub const CLICK_HOLD_MS: u64 = 20;

/// The milliseconds for which a key macro holds its trigger down.
pub const KEY_HOLD_MS: u64 = 10;

/// One action of synthetic input.
#[derive(Debug, PartialEq, Eq)]
pub enum InputAction {
    /// Press the key or button down.
    Press(Key),
    /// Let the key or button go.
    Release(Key),
    /// Move the mouse by this much from where it is.
    MoveMouse { dx: i32, dy: i32 },
    /// Wait for this many milliseconds.
    Sleep(u64),
    /// Type this text.
    TypeText(String),
}

/// An action of synthetic input as a mathematical value.
pub enum InputActionView {
    Press(Key),
    Release(Key),
    MoveMouse { dx: i32, dy: i32 },
    Sleep(u64),
    TypeText(Seq<char>),
}

impl View for InputAction {
    type V = InputActionView;

    open spec fn view(&self) -> InputActionView {
        match self {
            InputAction::Press(key) => InputActionView::Press(*key),
            InputAction::Release(key) => InputActionView::Release(*key),
            InputAction::MoveMouse { dx, dy } => InputActionView::MoveMouse { dx: *dx, dy: *dy },
            InputAction::Sleep(millis) => InputActionView::Sleep(*millis),
            InputAction::TypeText(text) => InputActionView::TypeText(text@),
        }
    }
}

impl Clone for InputAction {
    fn clone(&self) -> (copy: InputAction)
        ensures
            copy@ == self@,
    {
        match self {
            InputAction::Press(key) => InputAction::Press(*key),
            InputAction::Release(key) => InputAction::Release(*key),
            InputAction::MoveMouse { dx, dy } => InputAction::MoveMouse { dx: *dx, dy: *dy },
            InputAction::Sleep(millis) => InputAction::Sleep(*millis),
            InputAction::TypeText(text) => InputAction::TypeText(text.clone()),
        }
    }
}

/// The views of a sequence of actions, in the same order.
pub open spec fn action_views(actions: Seq<InputAction>) -> Seq<InputActionView> {
    actions.map_values(|action: InputAction| action@)
}

/// The actions of a request, to be performed in their order.
///
/// A script is a round of actions and the number of times that the round is
/// to be performed, so a request that repeats takes no more room than one
/// that does not.
pub struct Script {
    round: Vec<InputAction>,
    rounds_left: u64,
    position: usize,
}

impl View for Script {
    type V = Seq<InputActionView>;

    /// The actions that are still to be performed, the next one first.
    closed spec fn view(&self) -> Seq<InputActionView> {
        if self.rounds_left == 0 {
            Seq::empty()
        } else {
            action_views(self.round@).skip(self.position as int) + repeated(
                action_views(self.round@),
                (self.rounds_left - 1) as nat,
            )
        }
    }
}

impl Script {
    #[verifier::type_invariant]
    spec fn well_formed(self) -> bool {
        self.rounds_left > 0 ==> self.position < self.round.len()
    }

    /// The script that performs `round` for `rounds` times.
    pub fn new(round: Vec<InputAction>, rounds: u64) -> (script: Script)
        ensures
            script@ == repeated(action_views(round@), rounds as nat),
    {
        if round.len() == 0 {
            proof {
                assert(action_views(round@) =~= Seq::<InputActionView>::empty());
                lemma_repeated_empty::<InputActionView>(rounds as nat);
            }
            Script { round, rounds_left: 0, position: 0 }
        } else {
            assert(action_views(round@).skip(0) =~= action_views(round@));
            Script { round, rounds_left: rounds, position: 0 }
        }
    }

    /// The next action to perform, which is then no longer part of the
    /// script; `None` when nothing is left.
    pub fn next_action(&mut self) -> (action: Option<InputAction>)
        ensures
            match action {
                Some(action) => old(self)@.len() > 0 && action@ == old(self)@[0] && final(self)@
                    == old(self)@.skip(1),
                None => old(self)@.len() == 0 && final(self)@ == old(self)@,
            },
    {
        proof {
            use_type_invariant(&*self);
        }
        if self.rounds_left == 0 {
            return None;
        }
        let ghost round = action_views(self.round@);
        let ghost before = self@;
        let action = self.round[self.position].clone();
        assert(action@ == round[self.position as int]);
        if self.position + 1 < self.round.len() {
            self.position = self.position + 1;
            assert(self@ =~= before.skip(1));
        } else {
            self.position = 0;
            self.rounds_left = self.rounds_left - 1;
            assert(round.skip(0) =~= round);
            assert(self@ =~= before.skip(1));
        }
        Some(action)
    }

    /// Whether every action of the script has been handed out.
    pub fn is_finished(&self) -> (finished: bool)
        ensures
            finished == (self@.len() == 0),
    {
        proof {
            use_type_invariant(self);
        }
        self.rounds_left == 0
    }
}

/// The actions of one mouse move: the move itself, straight down by
/// `sensitivity` (up where it is negative), and the wait behind it.
pub open spec fn move_round(sensitivity: i32, rate: u64) -> Seq<InputActionView> {
    seq![InputActionView::MoveMouse { dx: 0, dy: sensitivity }, InputActionView::Sleep(rate)]
}

/// The actions of one click: the left button goes down, stays down for
/// [`CLICK_HOLD_MS`] and goes up, and the wait behind the click.
pub open spec fn click_round(rate: u64) -> Seq<InputActionView> {
    seq![
        InputActionView::Press(Key::Mouse(MouseButton::LeftButton)),
        InputActionView::Sleep(CLICK_HOLD_MS),
        InputActionView::Release(Key::Mouse(MouseButton::LeftButton)),
        InputActionView::Sleep(rate),
    ]
}

/// The actions that play a chord: the modifiers go down in their order, the
/// trigger goes down, stays down for [`KEY_HOLD_MS`] and goes up, and the
/// modifiers go up, the last pressed first.
pub open spec fn chord_actions(chord: ChordView) -> Seq<InputActionView> {
    chord.modifiers.map_values(|key: KeybdKey| InputActionView::Press(Key::Keybd(key))) + seq![
        InputActionView::Press(chord.trigger),
        InputActionView::Sleep(KEY_HOLD_MS),
        InputActionView::Release(chord.trigger),
    ] + chord.modifiers.reverse().map_values(
        |key: KeybdKey| InputActionView::Release(Key::Keybd(key)),
    )
}

/// The actions that play the symbolic name `name`: those of its chord, or
/// none where it names no chord.
pub open spec fn name_actions(name: Seq<char>) -> Seq<InputActionView> {
    match chord_named(name) {
        Some(chord) => chord_actions(chord),
        None => Seq::empty(),
    }
}

/// The actions that play `names` one after the other.
pub open spec fn names_actions(names: Seq<Seq<char>>) -> Seq<InputActionView>
    decreases names.len(),
{
    if names.len() == 0 {
        Seq::empty()
    } else {
        names_actions(names.drop_last()) + name_actions(names.last())
    }
}

/// The views of a sequence of strings, in the same order.
pub open spec fn string_views(strings: Seq<String>) -> Seq<Seq<char>> {
    strings.map_values(|string: String| string@)
}

/// The script that moves the mouse `times` times by `sensitivity`, with a
/// wait of `rate` milliseconds behind each move.
pub fn mouse_move(sensitivity: i32, times: u64, rate: u64) -> (script: Script)
    ensures
        script@ == repeated(move_round(sensitivity, rate), times as nat),
{
    let mut round: Vec<InputAction> = Vec::new();
    round.push(InputAction::MoveMouse { dx: 0, dy: sensitivity });
    round.push(InputAction::Sleep(rate));
    assert(action_views(round@) =~= move_round(sensitivity, rate));
    Script::new(round, times)
}

/// The script that clicks the left mouse button `times` times, with a wait of
/// `rate` milliseconds behind each click.
pub fn mouse_click(times: u64, rate: u64) -> (script: Script)
    ensures
        script@ == repeated(click_round(rate), times as nat),
{
    let mut round: Vec<InputAction> = Vec::new();
    round.push(InputAction::Press(Key::Mouse(MouseButton::LeftButton)));
    round.push(InputAction::Sleep(CLICK_HOLD_MS));
    round.push(InputAction::Release(Key::Mouse(MouseButton::LeftButton)));
    round.push(InputAction::Sleep(rate));
    assert(action_views(round@) =~= click_round(rate));
    Script::new(round, times)
}

/// Puts the actions that play `chord` behind `actions`.
fn push_chord(actions: &mut Vec<InputAction>, chord: &Chord)
    ensures
        action_views(final(actions)@) == action_views(old(actions)@) + chord_actions(chord@),
{
    let ghost before = action_views(actions@);
    let ghost modifiers = chord.modifiers@;
    let ghost presses = modifiers.map_values(
        |key: KeybdKey| InputActionView::Press(Key::Keybd(key)),
    );
    let ghost releases = modifiers.reverse().map_values(
        |key: KeybdKey| InputActionView::Release(Key::Keybd(key)),
    );
    let count: usize = chord.modifiers.len();
    let mut i: usize = 0;
    while i < count
        invariant
            i <= count,
            count == chord.modifiers.len(),
            modifiers == chord.modifiers@,
            presses == modifiers.map_values(
                |key: KeybdKey| InputActionView::Press(Key::Keybd(key)),
            ),
            action_views(actions@) == before + presses.take(i as int),
        decreases count - i,
    {
        let ghost prior = action_views(actions@);
        actions.push(InputAction::Press(Key::Keybd(chord.modifiers[i])));
        assert(action_views(actions@) =~= prior.push(presses[i as int]));
        assert(presses.take(i + 1) =~= presses.take(i as int).push(presses[i as int]));
        assert(action_views(actions@) =~= before + presses.take(i + 1));
        i = i + 1;
    }
    assert(presses.take(count as int) =~= presses);
    actions.push(InputAction::Press(chord.trigger));
    actions.push(InputAction::Sleep(KEY_HOLD_MS));
    actions.push(InputAction::Release(chord.trigger));
    let ghost middle = before + presses + seq![
        InputActionView::Press(chord.trigger),
        InputActionView::Sleep(KEY_HOLD_MS),
        InputActionView::Release(chord.trigger),
    ];
    assert(action_views(actions@) =~= middle);
    let mut left: usize = count;
    while left > 0
        invariant
            left <= count,
            count == chord.modifiers.len(),
            modifiers == chord.modifiers@,
            releases == modifiers.reverse().map_values(
                |key: KeybdKey| InputActionView::Release(Key::Keybd(key)),
            ),
            action_views(actions@) == middle + releases.take(count - left),
        decreases left,
    {
        let ghost prior = action_views(actions@);
        let ghost done = count - left;
        left = left - 1;
        actions.push(InputAction::Release(Key::Keybd(chord.modifiers[left])));
        assert(modifiers.reverse()[done] == modifiers[left as int]);
        assert(action_views(actions@) =~= prior.push(releases[done]));
        assert(releases.take(done + 1) =~= releases.take(done).push(releases[done]));
        assert(action_views(actions@) =~= middle + releases.take(count - left));
    }
    assert(releases.take(count as int) =~= releases);
    assert(middle + releases =~= before + chord_actions(chord@));
}

/// The script that plays the key macros `keys_array` one after the other.
/// Each is a symbolic name, read as a chord; a name that names no chord is
/// passed over.
pub fn active_keys(keys_array: Vec<String>) -> (script: Script)
    ensures
        script@ == names_actions(string_views(keys_array@)),
{
    let ghost names = string_views(keys_array@);
    let mut actions: Vec<InputAction> = Vec::new();
    let mut i: usize = 0;
    assert(action_views(actions@) =~= names_actions(names.take(0)));
    while i < keys_array.len()
        invariant
            i <= keys_array.len(),
            names == string_views(keys_array@),
            action_views(actions@) == names_actions(names.take(i as int)),
        decreases keys_array.len() - i,
    {
        assert(names.take(i + 1).drop_last() =~= names.take(i as int));
        assert(names.take(i + 1).last() == keys_array[i as int]@);
        match parse_chord(keys_array[i].as_str()) {
            Some(chord) => {
                push_chord(&mut actions, &chord);
            },
            None => {
                assert(action_views(actions@) + Seq::<InputActionView>::empty() =~= action_views(
                    actions@,
                ));
            },
        }
        i = i + 1;
    }
    assert(names.take(keys_array.len() as int) =~= names);
    let script = Script::new(actions, 1);
    proof {
        let all = names_actions(names);
        assert(repeated(all, 0) =~= Seq::<InputActionView>::empty());
        assert(repeated(all, 1) =~= all);
    }
    script
}

/// The script that types `text`.
pub fn enter_text(text: String) -> (script: Script)
    ensures
        script@ == seq![InputActionView::TypeText(text@)],
{
    let ghost typed = seq![InputActionView::TypeText(text@)];
    let mut round: Vec<InputAction> = Vec::new();
    round.push(InputAction::TypeText(text));
    assert(action_views(round@) =~= typed);
    let script = Script::new(round, 1);
    proof {
        assert(repeated(typed, 0) =~= Seq::<InputActionView>::empty());
        assert(repeated(typed, 1) =~= typed);
    }
    script
}

/// A script of clicks holds four actions for every click, and every click is
/// the same: press, the fixed hold, release, the wait that was asked for.
pub proof fn lemma_clicks_are_whole_rounds(times: nat, rate: u64, i: int)
    requires
        0 <= i < 4 * times,
    ensures
        repeated(click_round(rate), times).len() == 4 * times,
        repeated(click_round(rate), times)[i] == click_round(rate)[i % 4],
{
    assert(click_round(rate).len() == 4);
    lemma_repeated_index(click_round(rate), times, i);
}

/// A script of moves holds two actions for every move: the move and the wait
/// behind it.
pub proof fn lemma_moves_are_whole_rounds(sensitivity: i32, times: nat, rate: u64, i: int)
    requires
        0 <= i < 2 * times,
    ensures
        repeated(move_round(sensitivity, rate), times).len() == 2 * times,
        repeated(move_round(sensitivity, rate), times)[i] == move_round(sensitivity, rate)[i % 2],
{
    assert(move_round(sensitivity, rate).len() == 2);
    lemma_repeated_index(move_round(sensitivity, rate), times, i);
}

/// Playing the name of a chord plays that chord.
pub proof fn lemma_chord_name_plays_chord(modifiers: Seq<KeybdKey>, trigger: Key)
    requires
        modifiers.len() < MAX_CHORD_KEYS,
    ensures
        name_actions(chord_name(modifiers, trigger)) == chord_actions(
            ChordView { modifiers, trigger },
        ),
{
    lemma_chord_found_by_name(modifiers, trigger);
}

/// Playing a trigger with one modifier presses the modifier, presses the
/// trigger, lets the trigger go after the hold, and lets the modifier go, in
/// that order.
pub proof fn lemma_one_modifier_macro(modifier: KeybdKey, trigger: Key)
    ensures
        name_actions(chord_name(seq![modifier], trigger)) == seq![
            InputActionView::Press(Key::Keybd(modifier)),
            InputActionView::Press(trigger),
            InputActionView::Sleep(KEY_HOLD_MS),
            InputActionView::Release(trigger),
            InputActionView::Release(Key::Keybd(modifier)),
        ],
{
    lemma_chord_name_plays_chord(seq![modifier], trigger);
    let chord = ChordView { modifiers: seq![modifier], trigger };
    assert(chord.modifiers.reverse() =~= seq![modifier]);
    assert(chord_actions(chord) =~= seq![
        InputActionView::Press(Key::Keybd(modifier)),
        InputActionView::Press(trigger),
        InputActionView::Sleep(KEY_HOLD_MS),
        InputActionView::Release(trigger),
        InputActionView::Release(Key::Keybd(modifier)),
    ]);
}

} // verus!
