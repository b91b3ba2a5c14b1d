//! The `..` delimiter of the address grammar, and the segments into which
//! it splits a text.

use vstd::prelude::*;

verus! {

/// The two full stops that separate the addresses of a range.
pub open spec fn delimiter() -> Seq<char> {
    seq!['.', '.']
}

/// Whether the delimiter `..` stands at index `i` of `s`.
pub open spec fn delimiter_at(s: Seq<char>, i: int) -> bool {
    0 <= i && i + 1 < s.len() && s[i] == '.' && s[i + 1] == '.'
}

/// Whether no character of `s` is a full stop.
pub open spec fn without_stop(s: Seq<char>) -> bool {
    forall|i: int| 0 <= i < s.len() ==> #[trigger] s[i] != '.'
}

/// `segments` with `prefix` put in front of its first segment.
pub open spec fn prepend_to_first(prefix: Seq<char>, segments: Seq<Seq<char>>) -> Seq<Seq<char>>
    recommends
        segments.len() > 0,
{
    segments.update(0, prefix + segments[0])
}

/// `segments` with `suffix` put behind its last segment.
pub open spec fn append_to_last(segments: Seq<Seq<char>>, suffix: Seq<char>) -> Seq<Seq<char>>
    recommends
        segments.len() > 0,
{
    segments.update(segments.len() - 1, segments.last() + suffix)
}

/// The segments of `s` between its delimiters, scanning from the left: each
/// `..` ends one segment and starts the next, and a full stop that a
/// delimiter has used is not used again.
pub open spec fn spec_split(s: Seq<char>) -> Seq<Seq<char>>
    decreases s.len(),
{
    if s.len() == 0 {
        seq![Seq::empty()]
    } else if delimiter_at(s, 0) {
        seq![Seq::empty()] + spec_split(s.skip(2))
    } else {
        prepend_to_first(seq![s[0]], spec_split(s.skip(1)))
    }
}

/// The segments put together again, with the delimiter between each two.
pub open spec fn join(segments: Seq<Seq<char>>) -> Seq<char>
    decreases segments.len(),
{
    if segments.len() == 0 {
        Seq::empty()
    } else if segments.len() == 1 {
        segments[0]
    } else {
        segments[0] + delimiter() + join(segments.skip(1))
    }
}

/// Whether `segment` could have come from splitting: it holds no delimiter,
/// and unless it is the last segment of its text it does not end in a full
/// stop, which the delimiter behind it would have taken.
pub open spec fn is_segment(segment: Seq<char>, is_last: bool) -> bool {
    &&& forall|i: int| !delimiter_at(segment, i)
    &&& !is_last && segment.len() > 0 ==> segment.last() != '.'
}

/// The texts that the vectors of `segments` hold.
pub open spec fn segment_views(segments: Seq<Vec<char>>) -> Seq<Seq<char>> {
    Seq::new(segments.len(), |i: int| segments[i]@)
}

/// Every text splits into at least one segment.
pub proof fn lemma_split_nonempty(s: Seq<char>)
    ensures
        spec_split(s).len() >= 1,
    decreases s.len(),
{
    if s.len() == 0 {
    } else if delimiter_at(s, 0) {
        lemma_split_nonempty(s.skip(2));
    } else {
        lemma_split_nonempty(s.skip(1));
    }
}

/// The first segment of a text is where the text begins: either the text
/// opens with the delimiter and the segment is empty, or the two open with
/// the same character.
pub proof fn lemma_split_first(s: Seq<char>)
    ensures
        spec_split(s).len() >= 1,
        spec_split(s)[0].len() == 0 ==> s.len() == 0 || delimiter_at(s, 0),
        spec_split(s)[0].len() > 0 ==> s.len() > 0 && spec_split(s)[0][0] == s[0],
{
    if s.len() == 0 {
    } else if delimiter_at(s, 0) {
        lemma_split_nonempty(s.skip(2));
    } else {
        lemma_split_nonempty(s.skip(1));
    }
}

/// A character other than the full stop in front of a text goes to the
/// front of its first segment and changes nothing else.
pub proof fn lemma_split_prepend(c: char, s: Seq<char>)
    requires
        c != '.',
    ensures
        spec_split(seq![c] + s) == prepend_to_first(seq![c], spec_split(s)),
{
    let whole = seq![c] + s;
    assert(whole.skip(1) =~= s);
    assert(!delimiter_at(whole, 0));
}

/// A character other than the full stop behind a text goes to the end of
/// its last segment and changes nothing else.
pub proof fn lemma_split_append(s: Seq<char>, c: char)
    requires
        c != '.',
    ensures
        spec_split(s + seq![c]) == append_to_last(spec_split(s), seq![c]),
    decreases s.len(),
{
    let whole = s + seq![c];
    if s.len() == 0 {
        let empty = Seq::<char>::empty();
        assert(s =~= empty);
        assert(whole.skip(1) =~= empty);
        assert(!delimiter_at(whole, 0));
        assert(spec_split(empty) == seq![empty]);
        assert(spec_split(whole) == prepend_to_first(seq![whole[0]], seq![empty]));
        assert(seq![c] + empty =~= empty + seq![c]);
        assert(spec_split(whole) =~= append_to_last(spec_split(s), seq![c]));
    } else if delimiter_at(s, 0) {
        let rest = s.skip(2);
        assert(delimiter_at(whole, 0));
        assert(whole.skip(2) =~= rest + seq![c]);
        lemma_split_append(rest, c);
        lemma_split_nonempty(rest);
        assert(spec_split(whole) =~= append_to_last(spec_split(s), seq![c]));
    } else {
        let rest = s.skip(1);
        assert(!delimiter_at(whole, 0));
        assert(whole.skip(1) =~= rest + seq![c]);
        lemma_split_append(rest, c);
        lemma_split_nonempty(rest);
        let tail = spec_split(rest);
        let head = seq![s[0]];
        assert(whole[0] == s[0]);
        assert(spec_split(whole) == prepend_to_first(head, append_to_last(tail, seq![c])));
        assert(spec_split(s) == prepend_to_first(head, tail));
        if tail.len() == 1 {
            assert((head + tail[0]) + seq![c] =~= head + (tail[0] + seq![c]));
        }
        assert(prepend_to_first(head, append_to_last(tail, seq![c])) =~= append_to_last(
            prepend_to_first(head, tail),
            seq![c],
        ));
    }
}

/// A text without a full stop is one segment.
pub proof fn lemma_split_without_stop(s: Seq<char>)
    requires
        without_stop(s),
    ensures
        spec_split(s) == seq![s],
    decreases s.len(),
{
    if s.len() == 0 {
        assert(s =~= Seq::<char>::empty());
    } else {
        let rest = s.skip(1);
        assert(s[0] != '.');
        assert forall|i: int| 0 <= i < rest.len() implies #[trigger] rest[i] != '.' by {
            assert(rest[i] == s[i + 1]);
        }
        lemma_split_without_stop(rest);
        assert(seq![s[0]] + rest =~= s);
        assert(prepend_to_first(seq![s[0]], seq![rest]) =~= seq![s]);
    }
}

/// A text without a full stop, then the delimiter, then any text: the first
/// is a segment of its own, and the segments of the last follow it.
pub proof fn lemma_split_at_delimiter(first: Seq<char>, rest: Seq<char>)
    requires
        without_stop(first),
    ensures
        spec_split(first + delimiter() + rest) == seq![first] + spec_split(rest),
    decreases first.len(),
{
    let whole = first + delimiter() + rest;
    if first.len() == 0 {
        assert(delimiter_at(whole, 0));
        assert(whole.skip(2) =~= rest);
        assert(first =~= Seq::<char>::empty());
    } else {
        let shorter = first.skip(1);
        assert(whole[0] == first[0]);
        assert(first[0] != '.');
        assert(!delimiter_at(whole, 0));
        assert(whole.skip(1) =~= shorter + delimiter() + rest);
        assert forall|i: int| 0 <= i < shorter.len() implies #[trigger] shorter[i] != '.' by {
            assert(shorter[i] == first[i + 1]);
        }
        lemma_split_at_delimiter(shorter, rest);
        assert(seq![first[0]] + shorter =~= first);
        assert(prepend_to_first(seq![first[0]], seq![shorter] + spec_split(rest)) =~= seq![first]
            + spec_split(rest));
    }
}

/// Putting the segments of a text together again gives the text.
pub proof fn lemma_split_join(s: Seq<char>)
    ensures
        join(spec_split(s)) == s,
    decreases s.len(),
{
    if s.len() == 0 {
        assert(join(spec_split(s)) =~= s);
    } else if delimiter_at(s, 0) {
        let rest = s.skip(2);
        let tail = spec_split(rest);
        lemma_split_join(rest);
        lemma_split_nonempty(rest);
        let segments = seq![Seq::<char>::empty()] + tail;
        assert(segments.skip(1) =~= tail);
        assert(Seq::<char>::empty() + delimiter() + rest =~= s);
    } else {
        let rest = s.skip(1);
        let tail = spec_split(rest);
        lemma_split_join(rest);
        lemma_split_nonempty(rest);
        let head = seq![s[0]];
        let segments = prepend_to_first(head, tail);
        assert(segments.skip(1) =~= tail.skip(1));
        if tail.len() == 1 {
            assert(head + tail[0] =~= s);
        } else {
            assert((head + tail[0]) + delimiter() + join(tail.skip(1)) =~= head + (tail[0]
                + delimiter() + join(tail.skip(1))));
            assert(head + rest =~= s);
        }
    }
}

/// Each segment of a text is free of delimiters, and only the last one can
/// end in a full stop.
pub proof fn lemma_split_segments(s: Seq<char>, k: int)
    requires
        0 <= k < spec_split(s).len(),
    ensures
        is_segment(spec_split(s)[k], k == spec_split(s).len() - 1),
    decreases s.len(),
{
    let segment = spec_split(s)[k];
    if s.len() == 0 {
    } else if delimiter_at(s, 0) {
        let rest = s.skip(2);
        lemma_split_nonempty(rest);
        if k > 0 {
            lemma_split_segments(rest, k - 1);
        }
    } else {
        let rest = s.skip(1);
        let tail = spec_split(rest);
        lemma_split_nonempty(rest);
        if k > 0 {
            lemma_split_segments(rest, k);
        } else {
            lemma_split_segments(rest, 0);
            lemma_split_first(rest);
            let head = seq![s[0]];
            assert(segment == head + tail[0]);
            assert forall|i: int| !delimiter_at(segment, i) by {
                if i > 0 {
                    assert(!delimiter_at(tail[0], i - 1));
                    if 0 <= i && i + 1 < segment.len() {
                        assert(segment[i] == tail[0][i - 1]);
                        assert(segment[i + 1] == tail[0][i]);
                    }
                } else if i == 0 && segment.len() >= 2 {
                    assert(segment[1] == tail[0][0]);
                    assert(rest[0] == s[1]);
                }
            }
            if tail.len() > 1 && tail[0].len() > 0 {
                assert(segment.last() == tail[0].last());
            }
        }
    }
}

/// Splitting is the only way to take a text apart into segments: segments
/// that give the text when they are put together, and of which each could
/// have come from splitting, are the segments of the text.
pub proof fn lemma_split_unique(s: Seq<char>, segments: Seq<Seq<char>>)
    requires
        segments.len() >= 1,
        join(segments) == s,
        forall|k: int|
            0 <= k < segments.len() ==> is_segment(#[trigger] segments[k], k == segments.len() - 1),
    ensures
        spec_split(s) == segments,
    decreases s.len(),
{
    let first = segments[0];
    let is_last = segments.len() == 1;
    assert(is_segment(first, is_last));
    if first.len() == 0 {
        assert(first =~= Seq::<char>::empty());
        assert(segments =~= seq![first] + segments.skip(1));
        if is_last {
            assert(s.len() == 0);
            assert(spec_split(s) =~= segments);
        } else {
            let others = segments.skip(1);
            assert(s =~= delimiter() + join(others));
            assert(delimiter_at(s, 0));
            assert(s.skip(2) =~= join(others));
            assert forall|k: int| 0 <= k < others.len() implies is_segment(
                #[trigger] others[k],
                k == others.len() - 1,
            ) by {
                assert(others[k] == segments[k + 1]);
            }
            lemma_split_unique(s.skip(2), others);
            assert(spec_split(s) == seq![Seq::<char>::empty()] + others);
        }
    } else {
        let shorter = first.skip(1);
        let others = segments.update(0, shorter);
        assert(others.skip(1) =~= segments.skip(1));
        if is_last {
            assert(s == first);
            assert(!delimiter_at(first, 0));
            assert(join(others) =~= s.skip(1));
        } else {
            let behind = delimiter() + join(segments.skip(1));
            assert(s =~= first + behind);
            assert(s[0] == first[0]);
            if first.len() == 1 {
                assert(first.last() != '.');
            } else {
                assert(!delimiter_at(first, 0));
                assert(s[1] == first[1]);
            }
            assert(join(others) =~= shorter + behind);
            assert(s.skip(1) =~= shorter + behind);
        }
        assert(!delimiter_at(s, 0));
        assert forall|k: int| 0 <= k < others.len() implies is_segment(
            #[trigger] others[k],
            k == others.len() - 1,
        ) by {
            if k == 0 {
                assert forall|i: int| !delimiter_at(shorter, i) by {
                    assert(!delimiter_at(first, i + 1));
                    if 0 <= i && i + 1 < shorter.len() {
                        assert(shorter[i] == first[i + 1]);
                        assert(shorter[i + 1] == first[i + 2]);
                    }
                }
                if shorter.len() > 0 {
                    assert(shorter.last() == first.last());
                }
            } else {
                assert(others[k] == segments[k]);
            }
        }
        lemma_split_unique(s.skip(1), others);
        assert(seq![s[0]] + shorter =~= first);
        assert(prepend_to_first(seq![s[0]], others) =~= segments);
    }
}

/// Splits `s` at its delimiters.
pub fn split(s: &[char]) -> (segments: Vec<Vec<char>>)
    ensures
        segment_views(segments@) == spec_split(s@),
{
    let mut segments: Vec<Vec<char>> = Vec::new();
    let mut current: Vec<char> = Vec::new();
    let mut pos: usize = 0;
    assert(s@.skip(0) =~= s@);
    proof {
        lemma_split_nonempty(s@);
    }
    assert(segment_views(segments@) + prepend_to_first(current@, spec_split(s@)) =~= spec_split(
        s@,
    ));
    while pos < s.len()
        invariant
            pos <= s.len(),
            spec_split(s@) == segment_views(segments@) + prepend_to_first(
                current@,
                spec_split(s@.skip(pos as int)),
            ),
        decreases s.len() - pos,
    {
        let ghost rest = s@.skip(pos as int);
        let ghost done = segment_views(segments@);
        let ghost before = current@;
        assert(rest.len() == s.len() - pos);
        assert(rest[0] == s@[pos as int]);
        if s[pos] == '.' && pos + 1 < s.len() && s[pos + 1] == '.' {
            assert(rest[1] == s@[pos + 1]);
            assert(delimiter_at(rest, 0));
            assert(rest.skip(2) =~= s@.skip(pos + 2));
            segments.push(current);
            current = Vec::new();
            pos += 2;
            proof {
                let tail = spec_split(s@.skip(pos as int));
                lemma_split_nonempty(s@.skip(pos as int));
                assert(segment_views(segments@) =~= done + seq![before]);
                assert(prepend_to_first(current@, tail) =~= tail);
                assert(prepend_to_first(before, seq![Seq::<char>::empty()] + tail) =~= seq![before]
                    + tail);
            }
        } else {
            assert(!delimiter_at(rest, 0));
            assert(rest.skip(1) =~= s@.skip(pos + 1));
            current.push(s[pos]);
            pos += 1;
            proof {
                let tail = spec_split(s@.skip(pos as int));
                lemma_split_nonempty(s@.skip(pos as int));
                assert(current@ =~= before + seq![rest[0]]);
                assert(current@ + tail[0] =~= before + (seq![rest[0]] + tail[0]));
                assert(prepend_to_first(before, prepend_to_first(seq![rest[0]], tail))
                    =~= prepend_to_first(current@, tail));
            }
        }
    }
    proof {
        assert(s@.skip(pos as int) =~= Seq::<char>::empty());
        assert(prepend_to_first(current@, seq![Seq::<char>::empty()]) =~= seq![current@]);
        assert(segment_views(segments@.push(current)) =~= segment_views(segments@) + seq![
            current@,
        ]);
    }
    segments.push(current);
    segments
}

} // verus!
