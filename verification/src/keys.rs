//! The keys that an environment file defines.
//!
//! A file is read line by line. A line that is empty or starts with `#`
//! defines nothing. Every other line defines one key: what stands before its
//! first `=`, or the whole line where it holds no `=`. Keys are kept in the
//! order of their lines, and a key that is defined twice is kept twice.

use vstd::prelude::*;
use crate::text::{
    chars_of, find_from, first_index, lemma_first_index, lemma_split_concat, lemma_split_single,
    split, split_on,
};

verus! {

/// Whether `line` defines a key: it is not empty and no comment.
pub open spec fn is_entry(line: Seq<char>) -> bool {
    line.len() > 0 && line[0] != '#'
}

/// The key of `line`: what stands before its first `=`.
pub open spec fn key(line: Seq<char>) -> Seq<char> {
    line.take(first_index(line, '='))
}

/// Those of `lines` that define a key, in order.
pub open spec fn entries(lines: Seq<Seq<char>>) -> Seq<Seq<char>> {
    lines.filter(|line: Seq<char>| is_entry(line))
}

/// The keys that `lines` define, in order.
pub open spec fn line_keys(lines: Seq<Seq<char>>) -> Seq<Seq<char>> {
    entries(lines).map_values(|line: Seq<char>| key(line))
}

/// The keys that the file with contents `text` defines, in the order of its
/// lines.
pub open spec fn keys(text: Seq<char>) -> Seq<Seq<char>> {
    line_keys(split(text, '\n'))
}

/// Those of `keys` that do not occur in `among`, in order.
pub open spec fn absent(keys: Seq<Seq<char>>, among: Seq<Seq<char>>) -> Seq<Seq<char>> {
    keys.filter(|k: Seq<char>| !among.contains(k))
}

/// One more line adds its key where it is an entry, and nothing else.
pub proof fn lemma_line_keys_push(lines: Seq<Seq<char>>, line: Seq<char>)
    ensures
        line_keys(lines.push(line)) == if is_entry(line) {
            line_keys(lines).push(key(line))
        } else {
            line_keys(lines)
        },
{
    reveal(Seq::filter);
    assert(lines.push(line).drop_last() =~= lines);
    if is_entry(line) {
        assert(line_keys(lines.push(line)) =~= line_keys(lines).push(key(line)));
    }
}

/// One more key is kept where `among` lacks it, and dropped where not.
pub proof fn lemma_absent_push(keys: Seq<Seq<char>>, k: Seq<char>, among: Seq<Seq<char>>)
    ensures
        absent(keys.push(k), among) == if among.contains(k) {
            absent(keys, among)
        } else {
            absent(keys, among).push(k)
        },
{
    reveal(Seq::filter);
    assert(keys.push(k).drop_last() =~= keys);
}

/// The keys of two runs of lines, one after the other, are the keys of the
/// first, then the keys of the second.
pub proof fn lemma_line_keys_concat(first: Seq<Seq<char>>, second: Seq<Seq<char>>)
    ensures
        line_keys(first + second) == line_keys(first) + line_keys(second),
{
    Seq::filter_distributes_over_add(first, second, |line: Seq<char>| is_entry(line));
    assert(line_keys(first + second) =~= line_keys(first) + line_keys(second));
}

/// The keys of two texts with a line break between them are the keys of the
/// first, then the keys of the second.
pub proof fn lemma_keys_concat(first: Seq<char>, second: Seq<char>)
    ensures
        keys(first + seq!['\n'] + second) == keys(first) + keys(second),
{
    lemma_split_concat(first, second, '\n');
    lemma_line_keys_concat(split(first, '\n'), split(second, '\n'));
}

/// A single line that is empty or a comment defines no key.
pub proof fn lemma_keys_of_skipped_line(line: Seq<char>)
    requires
        !line.contains('\n'),
        !is_entry(line),
    ensures
        keys(line) == Seq::<Seq<char>>::empty(),
{
    reveal(Seq::filter);
    let none = Seq::<Seq<char>>::empty();
    lemma_split_single(line, '\n');
    lemma_line_keys_push(none, line);
    assert(none.push(line) =~= seq![line]);
    assert(line_keys(none) =~= none);
}

/// Every key of a text is the key of one of its lines, and of a line that is
/// neither empty nor a comment. So no key starts with `#`.
pub proof fn lemma_keys_are_entry_keys(text: Seq<char>, k: Seq<char>)
    requires
        keys(text).contains(k),
    ensures
        exists|line: Seq<char>|
            split(text, '\n').contains(line) && is_entry(line) && #[trigger] key(line) == k,
        k.len() == 0 || k[0] != '#',
{
    let lines = split(text, '\n');
    let kept = entries(lines);
    let i: int = choose|i: int| 0 <= i < keys(text).len() && keys(text)[i] == k;
    let line = kept[i];
    lines.lemma_filter_pred(|line: Seq<char>| is_entry(line), i);
    assert(kept.contains(line));
    lines.lemma_filter_contains_rev(|line: Seq<char>| is_entry(line), line);
    assert(split(text, '\n').contains(line) && is_entry(line) && key(line) == k);
    lemma_first_index(line, '=');
}

/// Whether `line` defines a key.
pub fn is_entry_line(line: &str) -> (entry: bool)
    ensures
        entry == is_entry(line@),
{
    !line.is_empty() && line.get_char(0) != '#'
}

/// The key that `line` defines.
pub fn key_of(line: &str) -> (k: String)
    ensures
        k@ == key(line@),
{
    let chars = chars_of(line);
    let at: usize = find_from(&chars, 0, '=');
    proof {
        assert(line@.skip(0) =~= line@);
        assert(line@.take(at as int) =~= line@.subrange(0, at as int));
    }
    line.substring_char(0, at).to_owned()
}

/// The keys that the file with contents `text` defines, in the order of its
/// lines.
pub fn keys_of(text: &str) -> (found: Vec<String>)
    ensures
        found.deep_view() == keys(text@),
{
    let lines = split_on(text, '\n');
    let mut found: Vec<String> = Vec::new();
    let mut i: usize = 0;
    proof {
        assert(lines.deep_view().take(0) =~= Seq::<Seq<char>>::empty());
        reveal(Seq::filter);
        assert(found.deep_view() =~= line_keys(Seq::<Seq<char>>::empty()));
    }
    while i < lines.len()
        invariant
            i <= lines.len(),
            found.deep_view() == line_keys(lines.deep_view().take(i as int)),
        decreases lines.len() - i,
    {
        let line = lines[i].as_str();
        proof {
            assert(lines.deep_view().take(i + 1) =~= lines.deep_view().take(i as int).push(line@));
            lemma_line_keys_push(lines.deep_view().take(i as int), line@);
        }
        if is_entry_line(line) {
            let k = key_of(line);
            let ghost before = found.deep_view();
            let ghost added = k@;
            found.push(k);
            assert(found.deep_view() =~= before.push(added));
        }
        i += 1;
    }
    proof {
        assert(lines.deep_view().take(i as int) =~= lines.deep_view());
    }
    found
}

/// Whether `k` is one of `keys`.
pub fn has_key(keys: &Vec<String>, k: &String) -> (found: bool)
    ensures
        found == keys.deep_view().contains(k@),
{
    let mut i: usize = 0;
    while i < keys.len()
        invariant
            i <= keys.len(),
            forall|j: int| 0 <= j < i ==> keys.deep_view()[j] != k@,
        decreases keys.len() - i,
    {
        if keys[i] == *k {
            assert(keys.deep_view()[i as int] == k@);
            return true;
        }
        i += 1;
    }
    false
}

/// Those of `keys` that are not among `among`, in order and as often as they
/// occur in `keys`.
pub fn absent_from(keys: &Vec<String>, among: &Vec<String>) -> (lacking: Vec<String>)
    ensures
        lacking.deep_view() == absent(keys.deep_view(), among.deep_view()),
{
    let mut lacking: Vec<String> = Vec::new();
    let mut i: usize = 0;
    proof {
        assert(keys.deep_view().take(0) =~= Seq::<Seq<char>>::empty());
        reveal(Seq::filter);
        assert(lacking.deep_view() =~= absent(Seq::<Seq<char>>::empty(), among.deep_view()));
    }
    while i < keys.len()
        invariant
            i <= keys.len(),
            lacking.deep_view() == absent(keys.deep_view().take(i as int), among.deep_view()),
        decreases keys.len() - i,
    {
        proof {
            assert(keys.deep_view().take(i + 1) =~= keys.deep_view().take(i as int).push(keys[i as int]@));
            lemma_absent_push(keys.deep_view().take(i as int), keys[i as int]@, among.deep_view());
        }
        if !has_key(among, &keys[i]) {
            let k = keys[i].clone();
            let ghost before = lacking.deep_view();
            let ghost added = k@;
            lacking.push(k);
            assert(lacking.deep_view() =~= before.push(added));
        }
        i += 1;
    }
    proof {
        assert(keys.deep_view().take(i as int) =~= keys.deep_view());
    }
    lacking
}

} // verus!
