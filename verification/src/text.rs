//! White space, trimming and splitting over the characters of a string.

use vstd::prelude::*;

verus! {

/// Whether `c` is white space, as `char::is_whitespace` tells it.
pub uninterp spec fn white_space(c: char) -> bool;

/// `char::is_whitespace` answers by the character alone: Unicode's
/// `White_Space` property, which this crate knows as [`white_space`].
pub assume_specification[ char::is_whitespace ](c: char) -> (b: bool)
    ensures
        b == white_space(c),
;

/// Every character of `s` is white space.
pub open spec fn all_white(s: Seq<char>) -> bool {
    forall|i: int| 0 <= i < s.len() ==> white_space(#[trigger] s[i])
}

/// `s` without the white space it starts with.
pub open spec fn trim_start(s: Seq<char>) -> Seq<char>
    decreases s.len(),
{
    if s.len() > 0 && white_space(s.first()) {
        trim_start(s.drop_first())
    } else {
        s
    }
}

/// `s` without the white space it ends with.
pub open spec fn trim_end(s: Seq<char>) -> Seq<char>
    decreases s.len(),
{
    if s.len() > 0 && white_space(s.last()) {
        trim_end(s.drop_last())
    } else {
        s
    }
}

/// `s` without the white space at either end.
pub open spec fn trimmed(s: Seq<char>) -> Seq<char> {
    trim_end(trim_start(s))
}

/// Where white space fills `s` up to `start`, and `s` ends there or goes on
/// with another character, trimming the start leaves what follows `start`.
pub proof fn lemma_trim_start_at(s: Seq<char>, start: int)
    requires
        0 <= start <= s.len(),
        all_white(s.take(start)),
        start < s.len() ==> !white_space(s[start]),
    ensures
        trim_start(s) == s.skip(start),
    decreases start,
{
    if start > 0 {
        assert(white_space(s.take(start)[0]));
        let rest = s.drop_first();
        assert forall|i: int| 0 <= i < start - 1 implies white_space(
            #[trigger] rest.take(start - 1)[i],
        ) by {
            assert(rest.take(start - 1)[i] == s.take(start)[i + 1]);
        }
        lemma_trim_start_at(rest, start - 1);
    }
}

/// Where white space fills `s` from `end` on, and `s` starts there or has
/// another character just before, trimming the end leaves what precedes `end`.
pub proof fn lemma_trim_end_at(s: Seq<char>, end: int)
    requires
        0 <= end <= s.len(),
        all_white(s.skip(end)),
        0 < end ==> !white_space(s[end - 1]),
    ensures
        trim_end(s) == s.take(end),
    decreases s.len() - end,
{
    if end < s.len() {
        assert(white_space(s.skip(end)[s.len() - end - 1]));
        let rest = s.drop_last();
        assert forall|i: int| 0 <= i < rest.len() - end implies white_space(
            #[trigger] rest.skip(end)[i],
        ) by {
            assert(rest.skip(end)[i] == s.skip(end)[i]);
        }
        lemma_trim_end_at(rest, end);
    }
}

/// What trimming the start leaves is the end of `s`: white space fills
/// `s` before it, and it starts with none.
pub proof fn lemma_trim_start_shape(s: Seq<char>)
    ensures
        trim_start(s).len() <= s.len(),
        trim_start(s) == s.skip(s.len() - trim_start(s).len()),
        all_white(s.take(s.len() - trim_start(s).len())),
        trim_start(s).len() > 0 ==> !white_space(trim_start(s).first()),
    decreases s.len(),
{
    if s.len() > 0 && white_space(s.first()) {
        let rest = s.drop_first();
        lemma_trim_start_shape(rest);
        let k = rest.len() - trim_start(rest).len();
        assert forall|i: int| 0 <= i < k + 1 implies white_space(#[trigger] s.take(k + 1)[i]) by {
            if i > 0 {
                assert(s.take(k + 1)[i] == rest.take(k)[i - 1]);
            }
        }
    }
}

/// What trimming the end leaves is the start of `s`: white space fills `s`
/// behind it, and it ends with none.
pub proof fn lemma_trim_end_shape(s: Seq<char>)
    ensures
        trim_end(s).len() <= s.len(),
        trim_end(s) == s.take(trim_end(s).len() as int),
        all_white(s.skip(trim_end(s).len() as int)),
        trim_end(s).len() > 0 ==> !white_space(trim_end(s).last()),
    decreases s.len(),
{
    if s.len() > 0 && white_space(s.last()) {
        let rest = s.drop_last();
        lemma_trim_end_shape(rest);
        let k = trim_end(rest).len() as int;
        assert forall|i: int| 0 <= i < s.len() - k implies white_space(#[trigger] s.skip(k)[i]) by {
            if i < rest.len() - k {
                assert(s.skip(k)[i] == rest.skip(k)[i]);
            }
        }
    }
}

/// A trimmed string neither starts nor ends with white space, and trimming
/// it again changes nothing.
pub proof fn lemma_trimmed_is_trim(s: Seq<char>)
    ensures
        trimmed(s).len() > 0 ==> !white_space(trimmed(s).first()) && !white_space(
            trimmed(s).last(),
        ),
        trimmed(trimmed(s)) == trimmed(s),
{
    lemma_trim_start_shape(s);
    lemma_trim_end_shape(trim_start(s));
    let t = trimmed(s);
    if t.len() > 0 {
        // `t` starts as `trim_start(s)` does, of which it is the start
        assert(t.first() == trim_start(s).first());
        lemma_trim_start_at(t, 0);
        lemma_trim_end_at(t, t.len() as int);
    }
}

/// The part of `s` between the white space at its two ends.
pub fn trim(s: &str) -> (t: &str)
    ensures
        t@ == trimmed(s@),
{
    let len = s.unicode_len();
    // `start`: where the first character that is no white space stands, or
    // `len`; `end`: just behind the last such character, or `start`.
    let mut start: usize = 0;
    let mut end: usize = 0;
    let mut at: usize = 0;
    for c in it: s.chars()
        invariant
            it.seq() == s@,
            len == s@.len(),
            at == it.index(),
            start <= end <= at <= len,
            all_white(s@.take(start as int)),
            start < at ==> !white_space(s@[start as int]),
            start < at ==> start < end && !white_space(s@[end - 1]),
            forall|i: int| end <= i < at ==> white_space(#[trigger] s@[i]),
    {
        if !c.is_whitespace() {
            end = at + 1;
        } else if start == at {
            assert(all_white(s@.take(at + 1))) by {
                assert forall|i: int| 0 <= i < at implies white_space(
                    #[trigger] s@.take(at + 1)[i],
                ) by {
                    assert(s@.take(at + 1)[i] == s@.take(at as int)[i]);
                }
            }
            start = at + 1;
            end = at + 1;
        }
        at = at + 1;
    }
    proof {
        let tail = s@.skip(start as int);
        lemma_trim_start_at(s@, start as int);
        assert forall|i: int| 0 <= i < len - end implies white_space(
            #[trigger] tail.skip(end - start)[i],
        ) by {
            assert(tail.skip(end - start)[i] == s@[end + i]);
        }
        lemma_trim_end_at(tail, end - start);
        assert(tail.take(end - start) == s@.subrange(start as int, end as int));
    }
    s.substring_char(start, end)
}

/// The first `delimiter` of `s` stands at `at`.
pub open spec fn first_at(s: Seq<char>, delimiter: char, at: int) -> bool {
    &&& 0 <= at < s.len()
    &&& s[at] == delimiter
    &&& forall|i: int| 0 <= i < at ==> s[i] != delimiter
}

/// What stands before the first `delimiter` of `s` and what stands after
/// it; `None` where `s` holds no `delimiter`.
pub open spec fn split_at_first(s: Seq<char>, delimiter: char) -> Option<(Seq<char>, Seq<char>)> {
    if exists|at: int| first_at(s, delimiter, at) {
        let at = choose|at: int| first_at(s, delimiter, at);
        Some((s.take(at), s.skip(at + 1)))
    } else {
        None
    }
}

/// A split puts `s` together again around one `delimiter`, and the part
/// before it holds none; a string that is not split holds none at all.
pub proof fn lemma_split_at_first(s: Seq<char>, delimiter: char)
    ensures
        match split_at_first(s, delimiter) {
            Some((head, tail)) => s == head + seq![delimiter] + tail && !head.contains(delimiter),
            None => !s.contains(delimiter),
        },
{
    if exists|at: int| first_at(s, delimiter, at) {
        let at = choose|at: int| first_at(s, delimiter, at);
        assert(s == s.take(at) + seq![delimiter] + s.skip(at + 1));
        assert forall|i: int| 0 <= i < at implies s.take(at)[i] != delimiter by {
            assert(s.take(at)[i] == s[i]);
        }
    } else if s.contains(delimiter) {
        let i = choose|i: int| 0 <= i < s.len() && s[i] == delimiter;
        lemma_first_exists(s, delimiter, i);
    }
}

/// A `delimiter` at `i` has a first one at or before it.
proof fn lemma_first_exists(s: Seq<char>, delimiter: char, i: int)
    requires
        0 <= i < s.len(),
        s[i] == delimiter,
    ensures
        exists|at: int| first_at(s, delimiter, at),
    decreases i,
{
    if exists|j: int| 0 <= j < i && s[j] == delimiter {
        let j = choose|j: int| 0 <= j < i && s[j] == delimiter;
        lemma_first_exists(s, delimiter, j);
    } else {
        assert(first_at(s, delimiter, i));
    }
}

/// There is one place at most where the first `delimiter` of `s` stands.
proof fn lemma_first_is_unique(s: Seq<char>, delimiter: char, at: int)
    requires
        first_at(s, delimiter, at),
    ensures
        (choose|i: int| first_at(s, delimiter, i)) == at,
{
    let chosen = choose|i: int| first_at(s, delimiter, i);
    assert(first_at(s, delimiter, chosen));
    assert(!(chosen < at) && !(at < chosen));
}

/// A string put together around a `delimiter`, with none before it, is
/// split into the parts that it was made of: what follows the first
/// `delimiter` has no say in where the split falls.
pub proof fn lemma_split_of_joined(head: Seq<char>, delimiter: char, tail: Seq<char>)
    requires
        !head.contains(delimiter),
    ensures
        split_at_first(head + seq![delimiter] + tail, delimiter) == Some((head, tail)),
{
    let s = head + seq![delimiter] + tail;
    let at = head.len() as int;
    assert forall|i: int| 0 <= i < at implies s[i] != delimiter by {
        assert(head.contains(head[i]));
    }
    assert(first_at(s, delimiter, at));
    lemma_first_is_unique(s, delimiter, at);
    assert(s.take(at) == head);
    assert(s.skip(at + 1) == tail);
}

/// Splits `s` at its first `delimiter`, which goes to neither part.
pub fn split_once(s: &str, delimiter: char) -> (parts: Option<(&str, &str)>)
    ensures
        parts.deep_view() == split_at_first(s@, delimiter),
{
    let len = s.unicode_len();
    let mut at: usize = 0;
    for c in it: s.chars()
        invariant
            it.seq() == s@,
            len == s@.len(),
            at == it.index(),
            at <= len,
            forall|i: int| 0 <= i < at ==> s@[i] != delimiter,
    {
        if c == delimiter {
            proof {
                assert(first_at(s@, delimiter, at as int));
                lemma_first_is_unique(s@, delimiter, at as int);
            }
            return Some((s.substring_char(0, at), s.substring_char(at + 1, len)));
        }
        at = at + 1;
    }
    assert forall|i: int| !first_at(s@, delimiter, i) by {}
    None
}

} // verus!
