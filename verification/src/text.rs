//! Character sequences: conversion between strings and vectors of characters,
//! splitting on a separator, and joining.

use vstd::prelude::*;

verus! {

/// The index of the first occurrence of `sep` in `s`, or `s.len()` if there is none.
pub open spec fn first_index_of(s: Seq<char>, sep: char) -> int
    decreases s.len(),
{
    if s.len() == 0 || s[0] == sep {
        0
    } else {
        1 + first_index_of(s.drop_first(), sep)
    }
}

/// The fields of `s` between occurrences of `sep`. There is always at least one
/// field; a separator at either end gives an empty field there.
pub open spec fn split_on(s: Seq<char>, sep: char) -> Seq<Seq<char>>
    decreases s.len(),
{
    let i = first_index_of(s, sep);
    if 0 <= i < s.len() {
        seq![s.take(i)] + split_on(s.skip(i + 1), sep)
    } else {
        seq![s]
    }
}

/// The parts, with `sep` between each two neighbours.
pub open spec fn join_with(parts: Seq<Seq<char>>, sep: Seq<char>) -> Seq<char>
    decreases parts.len(),
{
    if parts.len() == 0 {
        Seq::empty()
    } else if parts.len() == 1 {
        parts[0]
    } else {
        join_with(parts.drop_last(), sep) + sep + parts.last()
    }
}

/// The views of a vector of character vectors.
pub open spec fn views(v: Seq<Vec<char>>) -> Seq<Seq<char>> {
    Seq::new(v.len(), |i: int| v[i]@)
}

/// The views of a vector of strings.
pub open spec fn string_views(v: Seq<String>) -> Seq<Seq<char>> {
    Seq::new(v.len(), |i: int| v[i]@)
}

/// `first_index_of` is the position `i` when no separator stands before `i` and
/// `i` is either the end or a separator.
pub proof fn lemma_first_index(s: Seq<char>, sep: char, i: int)
    requires
        0 <= i <= s.len(),
        forall|k: int| 0 <= k < i ==> s[k] != sep,
        i == s.len() || s[i] == sep,
    ensures
        first_index_of(s, sep) == i,
    decreases s.len(),
{
    if i > 0 {
        let t = s.drop_first();
        assert forall|k: int| 0 <= k < i - 1 implies t[k] != sep by {
            assert(t[k] == s[k + 1]);
        }
        lemma_first_index(t, sep, i - 1);
    }
}

/// The first separator's position lies within the sequence, and nothing before it
/// is a separator.
pub proof fn lemma_first_index_bounds(s: Seq<char>, sep: char)
    ensures
        0 <= first_index_of(s, sep) <= s.len(),
        forall|k: int| 0 <= k < first_index_of(s, sep) ==> s[k] != sep,
        first_index_of(s, sep) < s.len() ==> s[first_index_of(s, sep)] == sep,
    decreases s.len(),
{
    if s.len() == 0 || s[0] == sep {
    } else {
        let t = s.drop_first();
        lemma_first_index_bounds(t, sep);
        assert forall|k: int| 0 <= k < first_index_of(s, sep) implies s[k] != sep by {
            if k > 0 {
                assert(s[k] == t[k - 1]);
            }
        }
        if first_index_of(s, sep) < s.len() {
            assert(s[first_index_of(s, sep)] == t[first_index_of(t, sep)]);
        }
    }
}

/// Splitting never gives an empty list of fields.
pub proof fn lemma_split_nonempty(s: Seq<char>, sep: char)
    ensures
        split_on(s, sep).len() >= 1,
        split_on(s, sep)[0] == s.take(first_index_of(s, sep)),
    decreases s.len(),
{
    lemma_first_index_bounds(s, sep);
    let i = first_index_of(s, sep);
    if 0 <= i < s.len() {
        lemma_split_nonempty(s.skip(i + 1), sep);
    } else {
        assert(s.take(i) == s);
    }
}

/// Splitting two sequences put together: the last field of the first and the
/// first field of the second become one field, and all other fields stay.
pub proof fn lemma_split_concat(x: Seq<char>, z: Seq<char>, sep: char)
    ensures
        split_on(x + z, sep) == split_on(x, sep).drop_last() + seq![
            split_on(x, sep).last() + split_on(z, sep)[0],
        ] + split_on(z, sep).drop_first(),
    decreases x.len(),
{
    lemma_first_index_bounds(x, sep);
    lemma_first_index_bounds(z, sep);
    lemma_split_nonempty(x, sep);
    lemma_split_nonempty(z, sep);
    let i = first_index_of(x, sep);
    let j = first_index_of(z, sep);
    let whole = x + z;
    if i < x.len() {
        assert forall|k: int| 0 <= k < i implies whole[k] != sep by {
            assert(whole[k] == x[k]);
        }
        assert(whole[i] == x[i]);
        lemma_first_index(whole, sep, i);
        let rest = x.skip(i + 1);
        assert(whole.take(i) == x.take(i));
        assert(whole.skip(i + 1) == rest + z);
        lemma_split_concat(rest, z, sep);
        lemma_split_nonempty(rest, sep);
        let tail = split_on(rest, sep);
        assert(split_on(x, sep) == seq![x.take(i)] + tail);
        assert(split_on(x, sep).last() == tail.last());
        assert(split_on(x, sep).drop_last() == seq![x.take(i)] + tail.drop_last());
        assert(split_on(whole, sep) == seq![x.take(i)] + split_on(rest + z, sep));
        assert(seq![x.take(i)] + (tail.drop_last() + seq![tail.last() + split_on(z, sep)[0]]
            + split_on(z, sep).drop_first()) == (seq![x.take(i)] + tail.drop_last()) + seq![
            tail.last() + split_on(z, sep)[0],
        ] + split_on(z, sep).drop_first());
    } else {
        assert(split_on(x, sep) == seq![x]);
        assert(split_on(x, sep).drop_last() == Seq::<Seq<char>>::empty());
        assert forall|k: int| 0 <= k < x.len() + j implies whole[k] != sep by {
            if k < x.len() {
                assert(whole[k] == x[k]);
            } else {
                assert(whole[k] == z[k - x.len()]);
            }
        }
        if j < z.len() {
            assert(whole[x.len() + j] == z[j]);
        }
        lemma_first_index(whole, sep, x.len() + j);
        assert(whole.take(x.len() + j) == x + z.take(j));
        if j < z.len() {
            assert(whole.skip(x.len() + j + 1) == z.skip(j + 1));
            assert(split_on(z, sep) == seq![z.take(j)] + split_on(z.skip(j + 1), sep));
            assert(split_on(z, sep).drop_first() == split_on(z.skip(j + 1), sep));
            assert(split_on(whole, sep) == seq![x + z.take(j)] + split_on(z.skip(j + 1), sep));
        } else {
            assert(z.take(j) == z);
            assert(split_on(z, sep) == seq![z]);
            assert(split_on(z, sep).drop_first() == Seq::<Seq<char>>::empty());
            assert(split_on(whole, sep) == seq![whole]);
        }
        assert(Seq::<Seq<char>>::empty() + seq![x + split_on(z, sep)[0]] + split_on(
            z,
            sep,
        ).drop_first() == seq![x + split_on(z, sep)[0]] + split_on(z, sep).drop_first());
    }
}

/// Collects the characters of a string slice, in order.
pub fn to_chars(s: &str) -> (v: Vec<char>)
    ensures
        v@ == s@,
{
    let mut v: Vec<char> = Vec::new();
    let it = s.chars();
    for c in iter: it
        invariant
            iter.seq() == s@,
            v@ == s@.take(iter.index()),
    {
        v.push(c);
    }
    v
}

/// `String::push` of the standard library: the character is appended at the end
/// and nothing else changes.
#[verifier::external_body]
fn push_char(s: &mut String, c: char)
    ensures
        final(s)@ == old(s)@.push(c),
{
    s.push(c)
}

/// Builds the string that holds the given characters, in order.
pub fn to_text(chars: &Vec<char>) -> (s: String)
    ensures
        s@ == chars@,
{
    let mut s = String::new();
    let mut i: usize = 0;
    while i < chars.len()
        invariant
            i <= chars.len(),
            s@ == chars@.take(i as int),
        decreases chars.len() - i,
    {
        push_char(&mut s, chars[i]);
        i += 1;
        assert(chars@.take(i as int) == chars@.take(i - 1).push(chars@[i - 1]));
    }
    assert(chars@.take(chars.len() as int) == chars@);
    s
}

/// Copies the characters of `chars` from `from` up to `to`.
pub fn slice_chars(chars: &Vec<char>, from: usize, to: usize) -> (out: Vec<char>)
    requires
        from <= to <= chars.len(),
    ensures
        out@ == chars@.subrange(from as int, to as int),
{
    let mut out: Vec<char> = Vec::new();
    let mut i: usize = from;
    while i < to
        invariant
            from <= i <= to <= chars.len(),
            out@ == chars@.subrange(from as int, i as int),
        decreases to - i,
    {
        out.push(chars[i]);
        i += 1;
        assert(chars@.subrange(from as int, i as int) == chars@.subrange(from as int, i - 1).push(
            chars@[i - 1],
        ));
    }
    out
}

/// Splits `chars` on every occurrence of `sep`.
pub fn split_chars(chars: &Vec<char>, sep: char) -> (fields: Vec<Vec<char>>)
    ensures
        views(fields@) == split_on(chars@, sep),
        fields.len() >= 1,
{
    let ghost s = chars@;
    let mut fields: Vec<Vec<char>> = Vec::new();
    let mut start: usize = 0;
    let mut i: usize = 0;
    proof {
        assert(s.skip(0) == s);
        assert(views(fields@) + split_on(s, sep) == split_on(s, sep));
    }
    while i < chars.len()
        invariant
            s == chars@,
            start <= i <= chars.len(),
            forall|k: int| start <= k < i ==> s[k] != sep,
            split_on(s, sep) == views(fields@) + split_on(s.skip(start as int), sep),
        decreases chars.len() - i,
    {
        if chars[i] == sep {
            let field = slice_chars(chars, start, i);
            proof {
                let rest = s.skip(start as int);
                assert forall|k: int| 0 <= k < i - start implies rest[k] != sep by {
                    assert(rest[k] == s[start + k]);
                }
                lemma_first_index(rest, sep, i - start);
                assert(rest.take(i - start) == s.subrange(start as int, i as int));
                assert(rest.skip(i - start + 1) == s.skip(i + 1));
                assert(views(fields@.push(field)) == views(fields@) + seq![field@]);
            }
            fields.push(field);
            start = i + 1;
        }
        i += 1;
    }
    let last = slice_chars(chars, start, chars.len());
    proof {
        let rest = s.skip(start as int);
        assert forall|k: int| 0 <= k < rest.len() implies rest[k] != sep by {
            assert(rest[k] == s[start + k]);
        }
        lemma_first_index(rest, sep, rest.len() as int);
        assert(rest == s.subrange(start as int, s.len() as int));
        assert(views(fields@.push(last)) == views(fields@) + seq![last@]);
    }
    fields.push(last);
    fields
}

} // verus!
