//! The check of one directory: are `.env` and `.env.example` there, do they
//! hold anything, and do they define the same keys.
//!
//! Findings are messages. What is wrong with `.env` is an error, what is
//! wrong with `.env.example` is a warning; a key that only the example
//! defines is an error, a key that only `.env` defines is a warning. Each
//! check appends to the two lists it is handed and changes nothing that is
//! already in them.

use vstd::prelude::*;
use crate::keys::{
    absent, absent_from, is_entry, keys, keys_of, lemma_keys_concat, lemma_keys_of_skipped_line,
};
use crate::text::{join, join_with};

verus! {

/// What is known of a file before its contents are read.
#[derive(Clone, Copy, Debug, PartialEq, Eq, Structural)]
pub enum FileState {
    /// The file could not be opened, for whatever reason.
    Missing,
    /// The file was opened and holds nothing.
    Empty,
    /// The file was opened and holds something.
    Filled,
}

/// The state of a file of which the size is known, `None` standing for a
/// file that could not be opened.
pub open spec fn state_of_size(size: Option<u64>) -> FileState {
    match size {
        None => FileState::Missing,
        Some(n) => if n == 0 {
            FileState::Empty
        } else {
            FileState::Filled
        },
    }
}

/// The state of a file of which the contents are known, `None` standing for
/// a file that could not be opened.
pub open spec fn state_of_text(text: Option<Seq<char>>) -> FileState {
    match text {
        None => FileState::Missing,
        Some(t) => if t.len() == 0 {
            FileState::Empty
        } else {
            FileState::Filled
        },
    }
}

/// Whether the keys of the two files are compared: both hold something.
pub open spec fn comparable(env: FileState, example: FileState) -> bool {
    env is Filled && example is Filled
}

/// The errors that the states of the two files give for the directory
/// `path`. An empty `.env` is reported only where the example was opened.
pub open spec fn state_errors(path: Seq<char>, env: FileState, example: FileState) -> Seq<
    Seq<char>,
> {
    if env is Missing {
        seq!["Missing .env file at "@ + path]
    } else if env is Empty && !(example is Missing) {
        seq!["Empty .env file at "@ + path]
    } else {
        seq![]
    }
}

/// The warnings that the states of the two files give for the directory
/// `path`. An empty example is reported only where `.env` was opened.
pub open spec fn state_warnings(path: Seq<char>, env: FileState, example: FileState) -> Seq<
    Seq<char>,
> {
    if example is Missing {
        seq!["Missing .env.example file at "@ + path]
    } else if example is Empty && !(env is Missing) {
        seq!["Empty .env.example file at "@ + path]
    } else {
        seq![]
    }
}

/// The keys of the example that `.env` does not define, in the order of the
/// example's lines.
pub open spec fn missing_keys(env_text: Seq<char>, example_text: Seq<char>) -> Seq<Seq<char>> {
    absent(keys(example_text), keys(env_text))
}

/// The keys of `.env` that the example does not define, in the order of the
/// lines of `.env`.
pub open spec fn unused_keys(env_text: Seq<char>, example_text: Seq<char>) -> Seq<Seq<char>> {
    absent(keys(env_text), keys(example_text))
}

/// The errors that comparing the keys gives: none where `.env` defines every
/// key of the example, else one that lists the missing keys.
pub open spec fn key_errors(env_text: Seq<char>, example_text: Seq<char>) -> Seq<Seq<char>> {
    let missing = missing_keys(env_text, example_text);
    if missing.len() > 0 {
        seq![join(missing, ", "@) + " missing from .env"@]
    } else {
        seq![]
    }
}

/// The warnings that comparing the keys gives: none where the example
/// defines every key of `.env`, else one that lists the unused keys.
pub open spec fn key_warnings(env_text: Seq<char>, example_text: Seq<char>) -> Seq<Seq<char>> {
    let unused = unused_keys(env_text, example_text);
    if unused.len() > 0 {
        seq![join(unused, ", "@) + " unused in .env"@]
    } else {
        seq![]
    }
}

/// All errors for the directory `path`, given the contents of its two files.
pub open spec fn file_errors(
    path: Seq<char>,
    env: Option<Seq<char>>,
    example: Option<Seq<char>>,
) -> Seq<Seq<char>> {
    let found = state_errors(path, state_of_text(env), state_of_text(example));
    if comparable(state_of_text(env), state_of_text(example)) {
        found + key_errors(env->0, example->0)
    } else {
        found
    }
}

/// All warnings for the directory `path`, given the contents of its two
/// files.
pub open spec fn file_warnings(
    path: Seq<char>,
    env: Option<Seq<char>>,
    example: Option<Seq<char>>,
) -> Seq<Seq<char>> {
    let found = state_warnings(path, state_of_text(env), state_of_text(example));
    if comparable(state_of_text(env), state_of_text(example)) {
        found + key_warnings(env->0, example->0)
    } else {
        found
    }
}

/// Nothing is absent exactly where every key occurs among the others.
pub proof fn lemma_absent_empty(keys: Seq<Seq<char>>, among: Seq<Seq<char>>)
    ensures
        absent(keys, among).len() == 0 <==> forall|k: Seq<char>|
            keys.contains(k) ==> among.contains(k),
{
    let lacks = |k: Seq<char>| !among.contains(k);
    if absent(keys, among).len() > 0 {
        let k = absent(keys, among)[0];
        keys.lemma_filter_pred(lacks, 0);
        assert(absent(keys, among).contains(k));
        keys.lemma_filter_contains_rev(lacks, k);
        assert(keys.contains(k) && !among.contains(k));
    } else {
        assert forall|k: Seq<char>| keys.contains(k) implies among.contains(k) by {
            if !among.contains(k) {
                let i: int = choose|i: int| 0 <= i < keys.len() && keys[i] == k;
                keys.lemma_filter_contains(lacks, i);
                assert(absent(keys, among).contains(k));
            }
        }
    }
}

/// Two files that define the same keys give no finding on keys, whatever
/// the values, the order of the lines and the number of times a key is
/// defined; and two files that give no finding on keys define the same keys.
pub proof fn lemma_same_keys_no_findings(env_text: Seq<char>, example_text: Seq<char>)
    ensures
        (forall|k: Seq<char>| keys(env_text).contains(k) <==> keys(example_text).contains(k))
            <==> key_errors(env_text, example_text).len() == 0 && key_warnings(
            env_text,
            example_text,
        ).len() == 0,
{
    lemma_absent_empty(keys(example_text), keys(env_text));
    lemma_absent_empty(keys(env_text), keys(example_text));
}

/// A line that is empty or a comment has no part in the findings: as the
/// first line of a file, as its last line or between two parts of it, it
/// leaves the keys of the file as they are without it, and with them the
/// findings on keys, whichever of the two files it stands in.
pub proof fn lemma_skipped_line_changes_nothing(
    before: Seq<char>,
    line: Seq<char>,
    after: Seq<char>,
    other: Seq<char>,
)
    requires
        !line.contains('\n'),
        !is_entry(line),
    ensures
        keys(line + seq!['\n'] + after) == keys(after),
        keys(before + seq!['\n'] + line) == keys(before),
        ({
            let with = before + seq!['\n'] + line + seq!['\n'] + after;
            let without = before + seq!['\n'] + after;
            &&& keys(with) == keys(without)
            &&& key_errors(with, other) == key_errors(without, other)
            &&& key_warnings(with, other) == key_warnings(without, other)
            &&& key_errors(other, with) == key_errors(other, without)
            &&& key_warnings(other, with) == key_warnings(other, without)
        }),
{
    let with = before + seq!['\n'] + line + seq!['\n'] + after;
    let without = before + seq!['\n'] + after;
    lemma_keys_of_skipped_line(line);
    lemma_keys_concat(line, after);
    lemma_keys_concat(before, line);
    lemma_keys_concat(before, after);
    lemma_keys_concat(before, line + seq!['\n'] + after);
    assert(with =~= before + seq!['\n'] + (line + seq!['\n'] + after));
    assert(keys(line + seq!['\n'] + after) =~= keys(after));
    assert(keys(before + seq!['\n'] + line) =~= keys(before));
    assert(keys(with) =~= keys(without));
}

/// An error is recorded for a directory exactly where `.env` could not be
/// opened, where it is empty while the example was opened, or where both
/// files hold something and the example defines a key that `.env` lacks.
pub proof fn lemma_file_errors_arise(
    path: Seq<char>,
    env: Option<Seq<char>>,
    example: Option<Seq<char>>,
)
    ensures
        file_errors(path, env, example).len() > 0 <==> {
            ||| env is None
            ||| env->0.len() == 0 && example is Some
            ||| example is Some && example->0.len() > 0 && exists|k: Seq<char>|
                keys(example->0).contains(k) && !keys(env->0).contains(k)
        },
{
    if env is Some && example is Some {
        lemma_absent_empty(keys(example->0), keys(env->0));
    }
}

impl FileState {
    /// The state of a file from its size in bytes, `None` standing for a
    /// file that could not be opened.
    pub fn of_size(size: Option<u64>) -> (state: FileState)
        ensures
            state == state_of_size(size),
    {
        match size {
            None => FileState::Missing,
            Some(n) => if n == 0 {
                FileState::Empty
            } else {
                FileState::Filled
            },
        }
    }

    /// The state of a file from its contents, `None` standing for a file
    /// that could not be opened.
    pub fn of_text(text: Option<&str>) -> (state: FileState)
        ensures
            state == state_of_text(text.deep_view()),
    {
        match text {
            None => FileState::Missing,
            Some(t) => if t.is_empty() {
                FileState::Empty
            } else {
                FileState::Filled
            },
        }
    }
}

/// Appends `head` followed by `tail`, as one message, to `list`.
fn push_message(list: &mut Vec<String>, head: &str, tail: &str)
    ensures
        final(list).deep_view() == old(list).deep_view() + seq![head@ + tail@],
{
    let mut message = String::new();
    message.append(head);
    message.append(tail);
    let ghost before = list.deep_view();
    let ghost added = message@;
    list.push(message);
    assert(added =~= head@ + tail@);
    assert(list.deep_view() =~= before + seq![added]);
}

/// Reports what the states of the two files of the directory `file_path`
/// show: a missing `.env` as an error, a missing example as a warning, and
/// where both were opened an empty `.env` as an error and an empty example
/// as a warning. Returns whether the keys of the two files are to be
/// compared, which is so where both hold something.
pub fn check_states(
    file_path: &str,
    env: FileState,
    example: FileState,
    errors: &mut Vec<String>,
    warnings: &mut Vec<String>,
) -> (compare: bool)
    ensures
        final(errors).deep_view() == old(errors).deep_view() + state_errors(
            file_path@,
            env,
            example,
        ),
        final(warnings).deep_view() == old(warnings).deep_view() + state_warnings(
            file_path@,
            env,
            example,
        ),
        compare == comparable(env, example),
{
    let env_opened = match env {
        FileState::Missing => false,
        _ => true,
    };
    let example_opened = match example {
        FileState::Missing => false,
        _ => true,
    };
    let env_empty = match env {
        FileState::Empty => true,
        _ => false,
    };
    let example_empty = match example {
        FileState::Empty => true,
        _ => false,
    };
    if !env_opened {
        push_message(errors, "Missing .env file at ", file_path);
    }
    if !example_opened {
        push_message(warnings, "Missing .env.example file at ", file_path);
    }
    if env_opened && example_opened {
        if env_empty {
            push_message(errors, "Empty .env file at ", file_path);
        }
        if example_empty {
            push_message(warnings, "Empty .env.example file at ", file_path);
        }
    }
    assert(errors.deep_view() =~= old(errors).deep_view() + state_errors(
        file_path@,
        env,
        example,
    ));
    assert(warnings.deep_view() =~= old(warnings).deep_view() + state_warnings(
        file_path@,
        env,
        example,
    ));
    env_opened && example_opened && !env_empty && !example_empty
}

/// Compares the keys of the two files. Where the example defines keys that
/// `.env` lacks, one error lists them, in the order of the example's lines;
/// where `.env` defines keys that the example lacks, one warning lists
/// them, in the order of the lines of `.env`.
pub fn check_keys(
    env_text: &str,
    example_text: &str,
    errors: &mut Vec<String>,
    warnings: &mut Vec<String>,
)
    ensures
        final(errors).deep_view() == old(errors).deep_view() + key_errors(
            env_text@,
            example_text@,
        ),
        final(warnings).deep_view() == old(warnings).deep_view() + key_warnings(
            env_text@,
            example_text@,
        ),
{
    let env_keys = keys_of(env_text);
    let example_keys = keys_of(example_text);
    let missing = absent_from(&example_keys, &env_keys);
    if missing.len() > 0 {
        let listed = join_with(&missing, ", ");
        push_message(errors, listed.as_str(), " missing from .env");
    }
    let unused = absent_from(&env_keys, &example_keys);
    if unused.len() > 0 {
        let listed = join_with(&unused, ", ");
        push_message(warnings, listed.as_str(), " unused in .env");
    }
    assert(errors.deep_view() =~= old(errors).deep_view() + key_errors(
        env_text@,
        example_text@,
    ));
    assert(warnings.deep_view() =~= old(warnings).deep_view() + key_warnings(
        env_text@,
        example_text@,
    ));
}

/// Checks the directory `file_path`, given the contents of its `.env` and of
/// its `.env.example`, `None` standing for a file that could not be opened.
/// The findings are appended to `errors` and `warnings`; the keys are
/// compared only where both files were opened and neither is empty.
pub fn check_files(
    file_path: &str,
    env: Option<&str>,
    example: Option<&str>,
    errors: &mut Vec<String>,
    warnings: &mut Vec<String>,
)
    ensures
        final(errors).deep_view() == old(errors).deep_view() + file_errors(
            file_path@,
            env.deep_view(),
            example.deep_view(),
        ),
        final(warnings).deep_view() == old(warnings).deep_view() + file_warnings(
            file_path@,
            env.deep_view(),
            example.deep_view(),
        ),
{
    let compare = check_states(
        file_path,
        FileState::of_text(env),
        FileState::of_text(example),
        errors,
        warnings,
    );
    if compare {
        match (env, example) {
            (Some(env_text), Some(example_text)) => {
                check_keys(env_text, example_text, errors, warnings);
            },
            _ => {},
        }
    }
    assert(errors.deep_view() =~= old(errors).deep_view() + file_errors(
        file_path@,
        env.deep_view(),
        example.deep_view(),
    ));
    assert(warnings.deep_view() =~= old(warnings).deep_view() + file_warnings(
        file_path@,
        env.deep_view(),
        example.deep_view(),
    ));
}

} // verus!
