//! A run over several directories: which directories are asked for, what is
//! printed at its end, and the exit code.

use vstd::prelude::*;
use crate::text::{split, split_on};

verus! {

/// The exit code of a run that recorded no error.
pub const SUCCESS: i32 = 0;

/// The exit code of a run that recorded an error, or was given no
/// directory.
pub const FAILURE: i32 = 1;

/// The directories that the argument `arg` names: its pieces between
/// commas. An argument that is absent or empty names none.
pub open spec fn named_paths(arg: Option<Seq<char>>) -> Option<Seq<Seq<char>>> {
    match arg {
        None => None,
        Some(a) => if a.len() == 0 {
            None
        } else {
            Some(split(a, ','))
        },
    }
}

/// Each of `messages` with `label` before it.
pub open spec fn labelled(label: Seq<char>, messages: Seq<Seq<char>>) -> Seq<Seq<char>> {
    Seq::new(messages.len(), |i: int| label + messages[i])
}

/// The lines printed at the end of a run: the errors in the order in which
/// they were recorded, then the warnings in theirs.
pub open spec fn report(errors: Seq<Seq<char>>, warnings: Seq<Seq<char>>) -> Seq<Seq<char>> {
    labelled("ERROR: "@, errors) + labelled("WARNING: "@, warnings)
}

/// The exit code of a run that recorded `errors`.
pub open spec fn exit_status(errors: Seq<Seq<char>>) -> i32 {
    if errors.len() > 0 {
        FAILURE
    } else {
        SUCCESS
    }
}

/// An error, once recorded, decides the exit code: the run fails exactly
/// where an error was there before or one was added, and so it succeeds
/// where only warnings were recorded, or nothing.
pub proof fn lemma_exit_status_append(before: Seq<Seq<char>>, added: Seq<Seq<char>>)
    ensures
        exit_status(before + added) == FAILURE <==> exit_status(before) == FAILURE || added.len()
            > 0,
        exit_status(before + added) == SUCCESS <==> before.len() == 0 && added.len() == 0,
{
}

/// The findings of a directory that was checked earlier are printed before
/// those of one that was checked later, the errors of both before the
/// warnings of either.
pub proof fn lemma_report_order(
    first_errors: Seq<Seq<char>>,
    first_warnings: Seq<Seq<char>>,
    second_errors: Seq<Seq<char>>,
    second_warnings: Seq<Seq<char>>,
)
    ensures
        report(first_errors + second_errors, first_warnings + second_warnings) == labelled(
            "ERROR: "@,
            first_errors,
        ) + labelled("ERROR: "@, second_errors) + labelled("WARNING: "@, first_warnings)
            + labelled("WARNING: "@, second_warnings),
{
    assert(labelled("ERROR: "@, first_errors + second_errors) =~= labelled(
        "ERROR: "@,
        first_errors,
    ) + labelled("ERROR: "@, second_errors));
    assert(labelled("WARNING: "@, first_warnings + second_warnings) =~= labelled(
        "WARNING: "@,
        first_warnings,
    ) + labelled("WARNING: "@, second_warnings));
    assert(report(first_errors + second_errors, first_warnings + second_warnings) =~= labelled(
        "ERROR: "@,
        first_errors,
    ) + labelled("ERROR: "@, second_errors) + labelled("WARNING: "@, first_warnings)
        + labelled("WARNING: "@, second_warnings));
}

/// The directories to check, from the argument of the command line: the
/// pieces of `arg` between commas, in order. `None` where the argument is
/// absent or empty: the run then ends with `usage_message` and `FAILURE`.
pub fn parse_paths(arg: Option<&str>) -> (paths: Option<Vec<String>>)
    ensures
        paths.deep_view() == named_paths(arg.deep_view()),
{
    match arg {
        None => None,
        Some(a) => if a.is_empty() {
            None
        } else {
            Some(split_on(a, ','))
        },
    }
}

/// What a run prints when it is given no directory.
pub fn usage_message() -> (message: String)
    ensures
        message@ == "Error: No file paths provided!"@,
{
    "Error: No file paths provided!".to_owned()
}

/// Appends each of `messages`, with `label` before it, to `lines`.
fn push_labelled(lines: &mut Vec<String>, label: &str, messages: &Vec<String>)
    ensures
        final(lines).deep_view() == old(lines).deep_view() + labelled(
            label@,
            messages.deep_view(),
        ),
{
    let mut i: usize = 0;
    while i < messages.len()
        invariant
            i <= messages.len(),
            lines.deep_view() == old(lines).deep_view() + labelled(
                label@,
                messages.deep_view(),
            ).take(i as int),
        decreases messages.len() - i,
    {
        let mut line = String::new();
        line.append(label);
        line.append(messages[i].as_str());
        let ghost before = lines.deep_view();
        let ghost added = line@;
        lines.push(line);
        proof {
            let all = labelled(label@, messages.deep_view());
            assert(added =~= all[i as int]);
            assert(lines.deep_view() =~= before + seq![added]);
            assert(all.take(i + 1) =~= all.take(i as int) + seq![added]);
        }
        i += 1;
    }
    proof {
        let all = labelled(label@, messages.deep_view());
        assert(all.take(i as int) =~= all);
    }
}

/// The lines to print at the end of a run: one for each error, as
/// `ERROR: ` and the message, then one for each warning, as `WARNING: ` and
/// the message, each list in the order in which it was recorded.
pub fn report_lines(errors: &Vec<String>, warnings: &Vec<String>) -> (lines: Vec<String>)
    ensures
        lines.deep_view() == report(errors.deep_view(), warnings.deep_view()),
{
    let mut lines: Vec<String> = Vec::new();
    push_labelled(&mut lines, "ERROR: ", errors);
    push_labelled(&mut lines, "WARNING: ", warnings);
    assert(lines.deep_view() =~= report(errors.deep_view(), warnings.deep_view()));
    lines
}

/// The exit code of a run: `FAILURE` where any error was recorded, `SUCCESS`
/// where there were only warnings or nothing at all.
pub fn exit_code(errors: &Vec<String>) -> (code: i32)
    ensures
        code == exit_status(errors.deep_view()),
{
    if errors.len() > 0 {
        FAILURE
    } else {
        SUCCESS
    }
}

} // verus!
