//! The signature header: a comma-separated list of `key=value` segments.
//!
//! The provider's convention: among repeated keys only the first `t` and
//! the first `v1` count; segments without `=`, with an empty key or with
//! an unknown key are ignored.
#![allow(unused_imports)]
use vstd::prelude::*;

verus! {

/// The key under which the timestamp is carried.
pub open spec fn key_t() -> Seq<char> {
    seq!['t']
}

/// The key under which a hex-encoded digest is carried.
pub open spec fn key_v1() -> Seq<char> {
    seq!['v', '1']
}

/// The position of the first occurrence of `c` in `s`, or `s.len()` when
/// `c` does not occur.
pub open spec fn spec_find(s: Seq<char>, c: char) -> nat
    decreases s.len(),
{
    if s.len() == 0 {
        0
    } else if s[0] == c {
        0
    } else {
        (1 + spec_find(s.drop_first(), c)) as nat
    }
}

/// `spec_find` is pinned down by its characterization: no occurrence
/// before `j`, and an occurrence at `j` unless `j` is the length.
pub proof fn lemma_spec_find_at(s: Seq<char>, c: char, j: int)
    requires
        0 <= j <= s.len(),
        forall|k: int| 0 <= k < j ==> s[k] != c,
        j < s.len() ==> s[j] == c,
    ensures
        spec_find(s, c) == j,
    decreases s.len(),
{
    if j == 0 {
    } else {
        assert(s[0] != c);
        let t = s.drop_first();
        assert forall|k: int| 0 <= k < j - 1 implies t[k] != c by {
            assert(t[k] == s[k + 1]);
        }
        assert(j - 1 < t.len() ==> t[j - 1] == s[j]);
        lemma_spec_find_at(t, c, j - 1);
    }
}

/// What one segment contributes for `key`: the text after the first `=`,
/// when there is an `=` and the text before it is exactly `key`.
pub open spec fn spec_segment_value(seg: Seq<char>, key: Seq<char>) -> Option<Seq<char>> {
    let j = spec_find(seg, '=');
    if j >= seg.len() {
        None
    } else if seg.take(j as int) == key {
        Some(seg.skip(j as int + 1))
    } else {
        None
    }
}

/// The value of the first comma-separated segment of `s` whose key is
/// `key`, if any segment has that key.
pub open spec fn spec_first_value(s: Seq<char>, key: Seq<char>) -> Option<Seq<char>>
    decreases s.len(),
{
    let i = spec_find(s, ',');
    if i >= s.len() {
        spec_segment_value(s, key)
    } else {
        let head = spec_segment_value(s.take(i as int), key);
        if head is Some {
            head
        } else {
            spec_first_value(s.skip(i as int + 1), key)
        }
    }
}

/// The parse of a whole signature header: the first `t` value and the
/// first `v1` value, present only when both occur.
pub open spec fn spec_parse_signature(h: Seq<char>) -> Option<(Seq<char>, Seq<char>)> {
    match (spec_first_value(h, key_t()), spec_first_value(h, key_v1())) {
        (Some(t), Some(v)) => Some((t, v)),
        _ => None,
    }
}

/// A comma-free string is one single segment.
pub proof fn lemma_first_value_single(seg: Seq<char>, key: Seq<char>)
    requires
        !seg.contains(','),
    ensures
        spec_first_value(seg, key) == spec_segment_value(seg, key),
{
    lemma_spec_find_at(seg, ',', seg.len() as int);
}

/// Splitting off one comma-free leading segment: the first value is the
/// segment's own contribution, or else the first value of the rest.
pub proof fn lemma_first_value_cons(seg: Seq<char>, rest: Seq<char>, key: Seq<char>)
    requires
        !seg.contains(','),
    ensures
        spec_first_value(seg + seq![','] + rest, key) == (match spec_segment_value(seg, key) {
            Some(v) => Some(v),
            None => spec_first_value(rest, key),
        }),
{
    let s = seg + seq![','] + rest;
    assert forall|k: int| 0 <= k < seg.len() implies s[k] != ',' by {
        assert(s[k] == seg[k]);
    }
    assert(s[seg.len() as int] == ',');
    lemma_spec_find_at(s, ',', seg.len() as int);
    assert(s.take(seg.len() as int) =~= seg);
    assert(s.skip(seg.len() as int + 1) =~= rest);
}

/// A segment `t=<v>` carries `v` for the key `t` and nothing for `v1`.
pub proof fn lemma_segment_t(v: Seq<char>)
    ensures
        spec_segment_value(seq!['t', '='] + v, key_t()) == Some(v),
        spec_segment_value(seq!['t', '='] + v, key_v1()) is None,
{
    let seg = seq!['t', '='] + v;
    lemma_spec_find_at(seg, '=', 1);
    assert(seg.take(1) =~= key_t());
    assert(seg.skip(2) =~= v);
    assert(seg.take(1).len() != key_v1().len());
}

/// A segment `v1=<v>` carries `v` for the key `v1` and nothing for `t`.
pub proof fn lemma_segment_v1(v: Seq<char>)
    ensures
        spec_segment_value(seq!['v', '1', '='] + v, key_v1()) == Some(v),
        spec_segment_value(seq!['v', '1', '='] + v, key_t()) is None,
{
    let seg = seq!['v', '1', '='] + v;
    lemma_spec_find_at(seg, '=', 2);
    assert(seg.take(2) =~= key_v1());
    assert(seg.skip(3) =~= v);
    assert(seg.take(2) != key_t()) by {
        assert(seg.take(2).len() != key_t().len());
    }
}

} // verus!
