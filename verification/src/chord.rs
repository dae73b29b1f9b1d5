//! Chords: a trigger key together with the modifier keys that go with it,
//! written as one symbolic name.

use vstd::prelude::*;
use crate::keys::{
    get_key, get_keybd_key, key_named, keybd_key_named, lemma_key_found_by_name,
    lemma_keybd_key_found_by_name, lemma_known_name_is_one_segment, Key, KeybdKey,
};
use crate::text::{joined, lemma_segments_of_joined, segments, split_name, SEPARATOR};

verus! {

/// The most keys that a chord can hold: two modifiers and the trigger.
pub const MAX_CHORD_KEYS: usize = 3;

/// The keys that a symbolic name stands for: the trigger, which is its last
/// segment, and before it the modifiers in the order of the name.
#[derive(Debug, PartialEq, Eq)]
pub struct Chord {
    pub modifiers: Vec<KeybdKey>,
    pub trigger: Key,
}

/// A chord as a mathematical value.
pub struct ChordView {
    pub modifiers: Seq<KeybdKey>,
    pub trigger: Key,
}

impl View for Chord {
    type V = ChordView;

    open spec fn view(&self) -> ChordView {
        ChordView { modifiers: self.modifiers@, trigger: self.trigger }
    }
}

/// Whether `name` names a chord: it has at most [`MAX_CHORD_KEYS`] segments,
/// its last segment names a key or a mouse button, and every segment before
/// the last names a keyboard key.
pub open spec fn names_chord(name: Seq<char>) -> bool {
    let parts = segments(name);
    &&& 1 <= parts.len() <= MAX_CHORD_KEYS
    &&& key_named(parts.last()) is Some
    &&& forall|i: int| 0 <= i < parts.len() - 1 ==> (#[trigger] keybd_key_named(parts[i])) is Some
}

/// The chord that `name` stands for, if it names one.
pub open spec fn chord_named(name: Seq<char>) -> Option<ChordView> {
    let parts = segments(name);
    if names_chord(name) {
        Some(
            ChordView {
                modifiers: Seq::new(
                    (parts.len() - 1) as nat,
                    |i: int| keybd_key_named(parts[i])->0,
                ),
                trigger: key_named(parts.last())->0,
            },
        )
    } else {
        None
    }
}

/// The symbolic name of the chord of `trigger` with `modifiers`: the names of
/// the modifiers and then the name of the trigger, joined by separators.
pub open spec fn chord_name(modifiers: Seq<KeybdKey>, trigger: Key) -> Seq<char> {
    joined(modifiers.map_values(|key: KeybdKey| key.name()).push(trigger.name()))
}

/// The name of a chord of up to two modifiers stands for that chord: its
/// trigger is the key of the last segment and its modifiers are the keys of
/// the segments before it, in their order.
pub proof fn lemma_chord_found_by_name(modifiers: Seq<KeybdKey>, trigger: Key)
    requires
        modifiers.len() < MAX_CHORD_KEYS,
    ensures
        chord_named(chord_name(modifiers, trigger)) == Some(ChordView { modifiers, trigger }),
{
    let parts = modifiers.map_values(|key: KeybdKey| key.name()).push(trigger.name());
    assert forall|j: int, i: int| 0 <= j < parts.len() && 0 <= i < parts[j].len() implies
        #[trigger] parts[j][i] != SEPARATOR by {
        if j < modifiers.len() {
            lemma_key_found_by_name(Key::Keybd(modifiers[j]));
        } else {
            lemma_key_found_by_name(trigger);
        }
        lemma_known_name_is_one_segment(parts[j]);
    }
    lemma_segments_of_joined(parts);
    lemma_key_found_by_name(trigger);
    assert forall|i: int| 0 <= i < parts.len() - 1 implies (#[trigger] keybd_key_named(
        parts[i],
    )) == Some(modifiers[i]) by {
        lemma_keybd_key_found_by_name(modifiers[i]);
    }
    assert(names_chord(chord_name(modifiers, trigger)));
    assert(chord_named(chord_name(modifiers, trigger))->0.modifiers =~= modifiers);
}

/// A name of more than [`MAX_CHORD_KEYS`] segments names no chord.
pub proof fn lemma_long_name_is_no_chord(name: Seq<char>)
    requires
        segments(name).len() > MAX_CHORD_KEYS,
    ensures
        chord_named(name) is None,
{
}

/// A name with a segment that names neither a key nor a button names no
/// chord.
pub proof fn lemma_unknown_segment_is_no_chord(name: Seq<char>, i: int)
    requires
        0 <= i < segments(name).len(),
        key_named(segments(name)[i]) is None,
    ensures
        chord_named(name) is None,
{
    let parts = segments(name);
    if i < parts.len() - 1 {
        assert(keybd_key_named(parts[i]) is None);
    }
}

/// A name with a segment before the last that names no keyboard key names no
/// chord: a mouse button cannot be a modifier.
pub proof fn lemma_unknown_modifier_is_no_chord(name: Seq<char>, i: int)
    requires
        0 <= i < segments(name).len() - 1,
        keybd_key_named(segments(name)[i]) is None,
    ensures
        chord_named(name) is None,
{
}

/// The view of a chord that may be missing.
pub open spec fn chord_view(chord: Option<Chord>) -> Option<ChordView> {
    match chord {
        Some(chord) => Some(chord@),
        None => None,
    }
}

/// Reads a symbolic name as a chord.
pub fn parse_chord(name: &str) -> (chord: Option<Chord>)
    ensures
        chord_view(chord) == chord_named(name@),
{
    let ranges = split_name(name);
    let count: usize = ranges.len();
    proof {
        crate::text::lemma_segments_nonempty(name@);
    }
    if count > MAX_CHORD_KEYS {
        return None;
    }
    let ghost parts = segments(name@);
    let (from, to) = ranges[count - 1];
    let trigger = match get_key(name.substring_char(from, to)) {
        Some(key) => key,
        None => {
            return None;
        },
    };
    let mut modifiers: Vec<KeybdKey> = Vec::new();
    let mut i: usize = 0;
    while i < count - 1
        invariant
            1 <= count <= MAX_CHORD_KEYS,
            count == ranges.len(),
            parts == segments(name@),
            parts.len() == count,
            i <= count - 1,
            modifiers.len() == i,
            key_named(parts.last()) == Some(trigger),
            forall|j: int|
                0 <= j < ranges.len() ==> {
                    &&& (#[trigger] ranges[j]).0 <= ranges[j].1 <= name@.len()
                    &&& parts[j] == name@.subrange(ranges[j].0 as int, ranges[j].1 as int)
                },
            forall|j: int|
                0 <= j < i ==> (#[trigger] keybd_key_named(parts[j])) == Some(modifiers[j]),
        decreases count - 1 - i,
    {
        let (from, to) = ranges[i];
        match get_keybd_key(name.substring_char(from, to)) {
            Some(key) => {
                modifiers.push(key);
            },
            None => {
                assert(keybd_key_named(parts[i as int]) is None);
                return None;
            },
        }
        i = i + 1;
    }
    let chord = Chord { modifiers, trigger };
    proof {
        assert(names_chord(name@));
        assert(chord@.modifiers =~= chord_named(name@)->0.modifiers);
    }
    Some(chord)
}

} // verus!
