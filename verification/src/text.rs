//! Splitting and joining of text, over sequences of characters.

use vstd::prelude::*;

verus! {

/// The index at which `c` first occurs in `s`, or the length of `s` where it
/// does not occur.
pub open spec fn first_index(s: Seq<char>, c: char) -> int
    decreases s.len(),
{
    if s.len() == 0 || s[0] == c {
        0
    } else {
        1 + first_index(s.skip(1), c)
    }
}

/// The pieces of `s` between the occurrences of `sep`, in order. There is one
/// piece more than there are separators, so the result is never empty, and a
/// separator at the very start or end gives an empty piece there.
pub open spec fn split(s: Seq<char>, sep: char) -> Seq<Seq<char>>
    decreases s.len(),
{
    let i = first_index(s, sep);
    if 0 <= i < s.len() {
        seq![s.take(i)] + split(s.skip(i + 1), sep)
    } else {
        seq![s]
    }
}

/// The parts in order, with `sep` between each two neighbours.
pub open spec fn join(parts: Seq<Seq<char>>, sep: Seq<char>) -> Seq<char>
    decreases parts.len(),
{
    if parts.len() == 0 {
        Seq::empty()
    } else if parts.len() == 1 {
        parts[0]
    } else {
        join(parts.drop_last(), sep) + sep + parts.last()
    }
}

/// `first_index` stays within the sequence, passes over no occurrence of `c`
/// and stops at one unless it reaches the end.
pub proof fn lemma_first_index(s: Seq<char>, c: char)
    ensures
        0 <= first_index(s, c) <= s.len(),
        forall|j: int| 0 <= j < first_index(s, c) ==> s[j] != c,
        first_index(s, c) < s.len() ==> s[first_index(s, c)] == c,
    decreases s.len(),
{
    if s.len() != 0 && s[0] != c {
        let rest = s.skip(1);
        lemma_first_index(rest, c);
        assert forall|j: int| 0 <= j < first_index(s, c) implies s[j] != c by {
            if j > 0 {
                assert(s[j] == rest[j - 1]);
            }
        }
        assert(first_index(s, c) < s.len() ==> s[first_index(s, c)] == rest[first_index(rest, c)]);
    }
}

/// An index that no occurrence of `c` comes before, and that holds `c` or is
/// the end of the sequence, is the first index of `c`.
pub proof fn lemma_first_index_unique(s: Seq<char>, c: char, k: int)
    requires
        0 <= k <= s.len(),
        forall|j: int| 0 <= j < k ==> s[j] != c,
        k < s.len() ==> s[k] == c,
    ensures
        first_index(s, c) == k,
{
    lemma_first_index(s, c);
}

/// Splitting two texts that a separator holds together gives the pieces of
/// the first, then the pieces of the second.
pub proof fn lemma_split_concat(a: Seq<char>, b: Seq<char>, sep: char)
    ensures
        split(a + seq![sep] + b, sep) == split(a, sep) + split(b, sep),
    decreases a.len(),
{
    let whole = a + seq![sep] + b;
    let i: int = first_index(a, sep);
    lemma_first_index(a, sep);
    lemma_first_index_unique(whole, sep, i);
    assert(whole.take(i) =~= a.take(i));
    if i < a.len() {
        let rest = a.skip(i + 1);
        assert(whole.skip(i + 1) =~= rest + seq![sep] + b);
        lemma_split_concat(rest, b, sep);
        assert(split(whole, sep) =~= seq![a.take(i)] + (split(rest, sep) + split(b, sep)));
        assert(split(whole, sep) =~= split(a, sep) + split(b, sep));
    } else {
        assert(a.take(i) =~= a);
        assert(whole.skip(i + 1) =~= b);
    }
}

/// A text that does not hold the separator is its own single piece.
pub proof fn lemma_split_single(s: Seq<char>, sep: char)
    requires
        !s.contains(sep),
    ensures
        split(s, sep) == seq![s],
{
    lemma_first_index(s, sep);
}

/// The characters of `text`, in order.
pub fn chars_of(text: &str) -> (chars: Vec<char>)
    ensures
        chars@ == text@,
{
    let mut chars: Vec<char> = Vec::new();
    for c in it: text.chars()
        invariant
            it.seq() == text@,
            chars@ == it.seq().take(it.index()),
    {
        chars.push(c);
    }
    chars
}

/// The first index at or after `from` that holds `c`, or the length of
/// `chars` where none does.
pub fn find_from(chars: &Vec<char>, from: usize, c: char) -> (at: usize)
    requires
        from <= chars.len(),
    ensures
        at == from + first_index(chars@.skip(from as int), c),
        from <= at <= chars.len(),
{
    let mut at: usize = from;
    while at < chars.len() && chars[at] != c
        invariant
            from <= at <= chars.len(),
            forall|j: int| from <= j < at ==> chars@[j] != c,
        decreases chars.len() - at,
    {
        at += 1;
    }
    proof {
        lemma_first_index_unique(chars@.skip(from as int), c, at - from);
    }
    at
}

/// Splits `text` at every occurrence of `sep`. The pieces come in order and
/// without the separators; a text without a separator is its own single
/// piece.
pub fn split_on(text: &str, sep: char) -> (parts: Vec<String>)
    ensures
        parts.deep_view() == split(text@, sep),
{
    let chars = chars_of(text);
    let n: usize = chars.len();
    let mut parts: Vec<String> = Vec::new();
    let mut start: usize = 0;
    let mut end: usize = find_from(&chars, 0, sep);
    proof {
        assert(text@.skip(0) =~= text@);
        assert(parts.deep_view() + split(text@, sep) =~= split(text@, sep));
    }
    while end < n
        invariant
            chars@ == text@,
            n == chars.len(),
            start <= end <= n,
            end == start + first_index(text@.skip(start as int), sep),
            split(text@, sep) == parts.deep_view() + split(text@.skip(start as int), sep),
        decreases n - start,
    {
        let piece = text.substring_char(start, end).to_owned();
        proof {
            let rest = text@.skip(start as int);
            assert(rest.take(end - start) =~= text@.subrange(start as int, end as int));
            assert(rest.skip(end - start + 1) =~= text@.skip(end + 1));
        }
        let ghost before = parts.deep_view();
        let ghost added = piece@;
        parts.push(piece);
        assert(parts.deep_view() =~= before + seq![added]);
        start = end + 1;
        end = find_from(&chars, start, sep);
    }
    let piece = text.substring_char(start, n).to_owned();
    proof {
        assert(text@.skip(start as int) =~= text@.subrange(start as int, n as int));
    }
    let ghost before = parts.deep_view();
    let ghost added = piece@;
    parts.push(piece);
    assert(parts.deep_view() =~= before + seq![added]);
    parts
}

/// Joins `parts` in order, with `sep` between each two neighbours.
pub fn join_with(parts: &Vec<String>, sep: &str) -> (joined: String)
    ensures
        joined@ == join(parts.deep_view(), sep@),
{
    let mut joined = String::new();
    let mut i: usize = 0;
    while i < parts.len()
        invariant
            i <= parts.len(),
            joined@ == join(parts.deep_view().take(i as int), sep@),
        decreases parts.len() - i,
    {
        proof {
            let before = parts.deep_view().take(i as int);
            let now = parts.deep_view().take(i + 1);
            assert(now.drop_last() =~= before);
            assert(now.last() == parts@[i as int]@);
            assert(i == 0 ==> before =~= Seq::<Seq<char>>::empty());
        }
        if i > 0 {
            joined.append(sep);
        }
        joined.append(parts[i].as_str());
        i += 1;
    }
    proof {
        assert(parts.deep_view().take(i as int) =~= parts.deep_view());
    }
    joined
}

} // verus!
