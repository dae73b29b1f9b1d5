//! Symbolic key names as text: equality of names and the split of a name into
//! its underscore-separated segments.

use vstd::prelude::*;

verus! {

/// The character that joins the segments of a chord name.
pub const SEPARATOR: char = '_';

/// The segments of `s`: the maximal runs of characters between separators.
///
/// A name without a separator is its own single segment, and every separator
/// adds one segment, so the empty name has one (empty) segment and a trailing
/// separator is followed by an empty segment.
pub open spec fn segments(s: Seq<char>) -> Seq<Seq<char>>
    decreases s.len(),
{
    if s.len() == 0 {
        seq![Seq::<char>::empty()]
    } else {
        let before = segments(s.drop_last());
        if s.last() == SEPARATOR {
            before.push(Seq::<char>::empty())
        } else {
            before.drop_last().push(before.last().push(s.last()))
        }
    }
}

/// The segments of `parts` written one after the other with a separator
/// between neighbours.
pub open spec fn joined(parts: Seq<Seq<char>>) -> Seq<char>
    decreases parts.len(),
{
    if parts.len() == 0 {
        Seq::<char>::empty()
    } else if parts.len() == 1 {
        parts[0]
    } else {
        joined(parts.drop_last()) + seq![SEPARATOR] + parts.last()
    }
}

/// A name always has at least one segment.
pub proof fn lemma_segments_nonempty(s: Seq<char>)
    ensures
        segments(s).len() >= 1,
    decreases s.len(),
{
    if s.len() > 0 {
        lemma_segments_nonempty(s.drop_last());
    }
}

/// No segment of a name holds a separator.
pub proof fn lemma_segments_hold_no_separator(s: Seq<char>)
    ensures
        forall|j: int, i: int|
            0 <= j < segments(s).len() && 0 <= i < segments(s)[j].len()
                ==> #[trigger] segments(s)[j][i] != SEPARATOR,
    decreases s.len(),
{
    if s.len() > 0 {
        lemma_segments_hold_no_separator(s.drop_last());
        lemma_segments_nonempty(s.drop_last());
    }
}

/// Joining the segments of a name gives the name back.
pub proof fn lemma_joined_segments(s: Seq<char>)
    ensures
        joined(segments(s)) == s,
    decreases s.len(),
{
    if s.len() > 0 {
        let init = s.drop_last();
        let before = segments(init);
        lemma_joined_segments(init);
        lemma_segments_nonempty(init);
        if s.last() == SEPARATOR {
            let after = before.push(Seq::<char>::empty());
            assert(after.drop_last() == before);
            assert(joined(after) == joined(before) + seq![SEPARATOR] + Seq::<char>::empty());
            assert(joined(after) == s);
        } else {
            let grown = before.last().push(s.last());
            let after = before.drop_last().push(grown);
            assert(after.drop_last() == before.drop_last());
            if before.len() == 1 {
                assert(joined(before) == before[0]);
                assert(joined(after) == grown);
                assert(grown == s);
            } else {
                assert(joined(after) == joined(before.drop_last()) + seq![SEPARATOR] + grown);
                assert(joined(before) == joined(before.drop_last()) + seq![SEPARATOR]
                    + before.last());
                assert(joined(after) =~= joined(before).push(s.last()));
                assert(s =~= init.push(s.last()));
            }
        }
    }
}

/// A name without a separator is a single segment: itself.
pub proof fn lemma_segments_of_plain_name(s: Seq<char>)
    requires
        forall|i: int| 0 <= i < s.len() ==> s[i] != SEPARATOR,
    ensures
        segments(s) == seq![s],
    decreases s.len(),
{
    if s.len() == 0 {
        assert(s == Seq::<char>::empty());
    } else {
        lemma_segments_of_plain_name(s.drop_last());
        assert(s.drop_last().push(s.last()) =~= s);
        assert(seq![s.drop_last()].drop_last().push(s) =~= seq![s]);
    }
}

/// The segments of two names joined by a separator are the segments of the
/// first followed by the segments of the second.
pub proof fn lemma_segments_of_joined_pair(a: Seq<char>, b: Seq<char>)
    ensures
        segments(a + seq![SEPARATOR] + b) == segments(a) + segments(b),
    decreases b.len(),
{
    let whole = a + seq![SEPARATOR] + b;
    lemma_segments_nonempty(a);
    if b.len() == 0 {
        assert(whole.drop_last() =~= a);
        assert(segments(a).push(Seq::<char>::empty()) =~= segments(a) + segments(b));
    } else {
        let init = b.drop_last();
        lemma_segments_of_joined_pair(a, init);
        lemma_segments_nonempty(init);
        assert(whole.drop_last() =~= a + seq![SEPARATOR] + init);
        let before = segments(a) + segments(init);
        if b.last() == SEPARATOR {
            assert(before.push(Seq::<char>::empty()) =~= segments(a) + segments(b));
        } else {
            assert(before.last() == segments(init).last());
            assert(before.drop_last() =~= segments(a) + segments(init).drop_last());
            assert(before.drop_last().push(before.last().push(b.last())) =~= segments(a)
                + segments(b));
        }
    }
}

/// Splitting what was joined gives the parts back, where no part holds a
/// separator.
pub proof fn lemma_segments_of_joined(parts: Seq<Seq<char>>)
    requires
        parts.len() >= 1,
        forall|j: int, i: int|
            0 <= j < parts.len() && 0 <= i < parts[j].len() ==> #[trigger] parts[j][i]
                != SEPARATOR,
    ensures
        segments(joined(parts)) == parts,
    decreases parts.len(),
{
    if parts.len() == 1 {
        lemma_segments_of_plain_name(parts[0]);
        assert(seq![parts[0]] =~= parts);
    } else {
        let init = parts.drop_last();
        lemma_segments_of_joined(init);
        lemma_segments_of_joined_pair(joined(init), parts.last());
        lemma_segments_of_plain_name(parts.last());
        assert(init + seq![parts.last()] =~= parts);
    }
}

fn bytes_eq(a: &[u8], b: &[u8]) -> (same: bool)
    ensures
        same == (a@ == b@),
{
    if a.len() != b.len() {
        return false;
    }
    let mut i: usize = 0;
    while i < a.len()
        invariant
            a.len() == b.len(),
            i <= a.len(),
            a@.take(i as int) == b@.take(i as int),
        decreases a.len() - i,
    {
        if a[i] != b[i] {
            return false;
        }
        assert(a@.take(i + 1) == a@.take(i as int).push(a@[i as int]));
        assert(b@.take(i + 1) == b@.take(i as int).push(b@[i as int]));
        i = i + 1;
    }
    assert(a@.take(a.len() as int) == a@);
    assert(b@.take(b.len() as int) == b@);
    true
}

/// Whether two strings hold the same characters.
pub fn str_eq(a: &str, b: &str) -> (same: bool)
    ensures
        same == (a@ == b@),
{
    proof {
        // Two strings with the same encoding decode to the same characters.
        vstd::utf8::encode_utf8_decode_utf8(a@);
        vstd::utf8::encode_utf8_decode_utf8(b@);
    }
    bytes_eq(a.as_bytes(), b.as_bytes())
}

/// Splits `name` into its segments, each given as the range of character
/// positions `[from, to)` that it covers in `name`. The first range starts at
/// the start of the name, each further one behind the separator that ends the
/// range before it, and the last one ends at the end of the name.
pub fn split_name(name: &str) -> (ranges: Vec<(usize, usize)>)
    ensures
        ranges.len() == segments(name@).len(),
        forall|j: int|
            0 <= j < ranges.len() ==> {
                &&& (#[trigger] ranges[j]).0 <= ranges[j].1 <= name@.len()
                &&& segments(name@)[j] == name@.subrange(ranges[j].0 as int, ranges[j].1 as int)
            },
        ranges[0].0 == 0,
        ranges[ranges.len() - 1].1 == name@.len(),
        forall|j: int|
            0 < j < ranges.len() ==> (#[trigger] ranges[j]).0 == ranges[j - 1].1 + 1,
{
    let len: usize = name.unicode_len();
    let mut ranges: Vec<(usize, usize)> = Vec::new();
    let mut start: usize = 0;
    let mut pos: usize = 0;
    for c in it: name.chars()
        invariant
            it.seq() == name@,
            len == name@.len(),
            pos == it.index(),
            start <= pos,
            ranges.len() == 0 ==> start == 0,
            ranges.len() > 0 ==> ranges[0].0 == 0 && start == ranges[ranges.len() - 1].1 + 1,
            forall|j: int|
                0 < j < ranges.len() ==> (#[trigger] ranges[j]).0 == ranges[j - 1].1 + 1,
            segments(name@.take(pos as int)).len() == ranges.len() + 1,
            segments(name@.take(pos as int)).last() == name@.subrange(start as int, pos as int),
            forall|j: int|
                0 <= j < ranges.len() ==> {
                    &&& (#[trigger] ranges[j]).0 <= ranges[j].1 <= pos
                    &&& segments(name@.take(pos as int))[j] == name@.subrange(
                        ranges[j].0 as int,
                        ranges[j].1 as int,
                    )
                },
    {
        let ghost before = segments(name@.take(pos as int));
        assert(name@.take(pos + 1).drop_last() == name@.take(pos as int));
        assert(name@.take(pos + 1).last() == c);
        if c == SEPARATOR {
            ranges.push((start, pos));
            start = pos + 1;
            assert(name@.subrange(start as int, pos + 1) == Seq::<char>::empty());
        } else {
            assert(name@.subrange(start as int, pos + 1) == before.last().push(c));
        }
        pos = pos + 1;
    }
    assert(name@.take(pos as int) == name@);
    ranges.push((start, len));
    ranges
}

} // verus!
