//! What a tool answers, once all the git commands that it asks for have been run.

use crate::blame::touching_commits;
use crate::git::{decoded, or_empty, printed, Reply};
use crate::tools::{
    blame_command, details_command, first_step, list_command, listed_objects, next_step,
    note_command, report_answer, report_step, section, show_answer, subject_command, Call,
    ReportState, Step, Waiting,
};
use vstd::prelude::*;

verus! {

/// The part of a report about an object, in a repository where git replies as `git` says. An
/// object whose note cannot be read has no part in a report about a file.
pub open spec fn object_section(
    repo: Seq<char>,
    object: Seq<char>,
    about_file: bool,
    git: spec_fn(Seq<Seq<char>>) -> Reply,
) -> Seq<char> {
    let note = printed(git(note_command(repo, object)));
    if note is None && about_file {
        Seq::empty()
    } else {
        section(or_empty(printed(git(subject_command(repo, object)))), or_empty(note))
    }
}

/// The parts of a report about some objects, in order.
pub open spec fn sections(
    repo: Seq<char>,
    objects: Seq<Seq<char>>,
    about_file: bool,
    git: spec_fn(Seq<Seq<char>>) -> Reply,
) -> Seq<char>
    decreases objects.len(),
{
    if objects.len() == 0 {
        Seq::empty()
    } else {
        object_section(repo, objects[0], about_file, git) + sections(
            repo,
            objects.drop_first(),
            about_file,
            git,
        )
    }
}

/// What a tool answers in a repository where git replies as `git` says.
pub open spec fn answer(call: Call, git: spec_fn(Seq<Seq<char>>) -> Reply) -> Result<
    Seq<char>,
    Seq<char>,
> {
    match call {
        Call::List { repo } => match git(list_command(repo)) {
            Reply::NotStarted(reason) => Err("Failed to run git: "@ + reason),
            Reply::Exited { success, stdout, .. } => if success && stdout.len() > 0 {
                Ok(
                    report_answer(
                        sections(repo, listed_objects(decoded(stdout)), false, git),
                        None,
                    ),
                )
            } else {
                Ok("No git notes found in this repository."@)
            },
        },
        Call::ForFile { repo, file } => match git(blame_command(repo, file)) {
            Reply::NotStarted(reason) => Err("Failed to run git blame: "@ + reason),
            Reply::Exited { success, stdout, stderr } => if success {
                Ok(
                    report_answer(
                        sections(repo, touching_commits(decoded(stdout)), true, git),
                        Some(file),
                    ),
                )
            } else {
                Err("git blame failed: "@ + decoded(stderr))
            },
        },
        Call::Show { repo, commit } => show_answer(
            commit,
            printed(git(note_command(repo, commit))),
            printed(git(details_command(repo, commit))),
        ),
        Call::Unknown { name } => Err("Unknown tool: "@ + name),
    }
}

/// The number of git commands within which a tool answers.
pub open spec fn commands_needed(call: Call, git: spec_fn(Seq<Seq<char>>) -> Reply) -> nat {
    match call {
        Call::List { repo } => match git(list_command(repo)) {
            Reply::NotStarted(_) => 1,
            Reply::Exited { stdout, .. } => 1 + 2 * listed_objects(decoded(stdout)).len(),
        },
        Call::ForFile { repo, file } => match git(blame_command(repo, file)) {
            Reply::NotStarted(_) => 1,
            Reply::Exited { stdout, .. } => 1 + 2 * touching_commits(decoded(stdout)).len(),
        },
        Call::Show { .. } => 2,
        Call::Unknown { .. } => 0,
    }
}

/// What comes out when a tool is driven from a step on, with at most this many commands run.
pub open spec fn driven(step: Step, git: spec_fn(Seq<Seq<char>>) -> Reply, commands: nat) -> Option<
    Result<Seq<char>, Seq<char>>,
>
    decreases commands,
{
    match step {
        Step::Done(r) => Some(r),
        Step::Run { args, state } => if commands == 0 {
            None
        } else {
            driven(next_step(state, git(args)), git, (commands - 1) as nat)
        },
    }
}

proof fn lemma_report_driven(
    report: ReportState,
    git: spec_fn(Seq<Seq<char>>) -> Reply,
    commands: nat,
)
    requires
        commands >= 2 * report.left.len(),
    ensures
        driven(report_step(report), git, commands) == Some(
            Ok::<Seq<char>, Seq<char>>(
                report_answer(
                    report.written + sections(
                        report.repo,
                        report.left,
                        report.file is Some,
                        git,
                    ),
                    report.file,
                ),
            ),
        ),
    decreases report.left.len(),
{
    if report.left.len() == 0 {
        assert(report.written + Seq::<char>::empty() == report.written);
    } else {
        let object = report.left[0];
        let rest = ReportState { left: report.left.drop_first(), ..report };
        let note = git(note_command(report.repo, object));
        let part = object_section(report.repo, object, report.file is Some, git);
        let after = sections(report.repo, rest.left, report.file is Some, git);
        let state = Waiting::Reading { report: rest, object };
        assert(driven(report_step(report), git, commands) == driven(
            next_step(state, note),
            git,
            (commands - 1) as nat,
        ));
        assert(report.written + (part + after) == report.written + part + after);
        if printed(note) is None && report.file is Some {
            assert(report.written + part == report.written);
            lemma_report_driven(rest, git, (commands - 1) as nat);
        } else {
            let subject = git(subject_command(report.repo, object));
            let naming = Waiting::Naming { report: rest, note: or_empty(printed(note)) };
            assert(driven(next_step(state, note), git, (commands - 1) as nat) == driven(
                next_step(naming, subject),
                git,
                (commands - 2) as nat,
            ));
            lemma_report_driven(
                ReportState { written: report.written + part, ..rest },
                git,
                (commands - 2) as nat,
            );
        }
    }
}

/// A tool that is driven to its end answers what `answer` says, and the end comes within as
/// many commands as `commands_needed` says.
pub proof fn law_tools_answer(call: Call, git: spec_fn(Seq<Seq<char>>) -> Reply, commands: nat)
    requires
        commands >= commands_needed(call, git),
    ensures
        driven(first_step(call), git, commands) == Some(answer(call, git)),
{
    reveal_with_fuel(driven, 3);
    match call {
        Call::List { repo } => {
            let reply = git(list_command(repo));
            if let Reply::Exited { success, stdout, .. } = reply {
                if success && stdout.len() > 0 {
                    let report = ReportState {
                        repo,
                        left: listed_objects(decoded(stdout)),
                        written: Seq::empty(),
                        file: None,
                    };
                    lemma_report_driven(report, git, (commands - 1) as nat);
                    let parts = sections(repo, report.left, false, git);
                    assert(Seq::<char>::empty() + parts == parts);
                }
            }
        },
        Call::ForFile { repo, file } => {
            let reply = git(blame_command(repo, file));
            if let Reply::Exited { success, stdout, .. } = reply {
                if success {
                    let report = ReportState {
                        repo,
                        left: touching_commits(decoded(stdout)),
                        written: Seq::empty(),
                        file: Some(file),
                    };
                    lemma_report_driven(report, git, (commands - 1) as nat);
                    let parts = sections(repo, report.left, true, git);
                    assert(Seq::<char>::empty() + parts == parts);
                }
            }
        },
        Call::Show { repo, commit } => {},
        Call::Unknown { name } => {},
    }
}

} // verus!
