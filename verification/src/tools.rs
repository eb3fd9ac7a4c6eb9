//! The tools that answer questions about git notes.
//!
//! A tool asks for one git command after another and decides from each reply what comes next.
//! [`begin_tool`] starts it, [`resume_tool`] takes it one reply further, and whoever drives it
//! runs the commands.

use crate::blame::{commits_touching, touching_commits};
use crate::git::{
    command_in, decode_lossy, decoded, git_command, opt_text, or_empty, printed, run_git,
    GitReply, Reply,
};
use crate::lines::lines;
use crate::notes::{listed_pairs, parse_notes_list};
use crate::text::{pair_texts, texts};
use crate::words::{trim, trimmed};
use vstd::prelude::*;
use vstd::string::*;

verus! {

/// A call of a tool.
pub enum ToolCall {
    /// All notes of a repository.
    List { repo: String },
    /// The notes on the commits that touched a file.
    ForFile { repo: String, file: String },
    /// The note on one commit.
    Show { repo: String, commit: String },
    /// A tool that does not exist.
    Unknown { name: String },
}

/// The mathematical reading of a [`ToolCall`].
pub enum Call {
    List { repo: Seq<char> },
    ForFile { repo: Seq<char>, file: Seq<char> },
    Show { repo: Seq<char>, commit: Seq<char> },
    Unknown { name: Seq<char> },
}

impl View for ToolCall {
    type V = Call;

    open spec fn view(&self) -> Call {
        match *self {
            ToolCall::List { repo } => Call::List { repo: repo@ },
            ToolCall::ForFile { repo, file } => Call::ForFile { repo: repo@, file: file@ },
            ToolCall::Show { repo, commit } => Call::Show { repo: repo@, commit: commit@ },
            ToolCall::Unknown { name } => Call::Unknown { name: name@ },
        }
    }
}

/// A report in the making: the objects that are left, what has been written, and, where the
/// report is about a file, the file.
pub struct Report {
    pub repo: String,
    pub left: Vec<String>,
    pub written: String,
    pub file: Option<String>,
}

/// The mathematical reading of a [`Report`].
pub struct ReportState {
    pub repo: Seq<char>,
    pub left: Seq<Seq<char>>,
    pub written: Seq<char>,
    pub file: Option<Seq<char>>,
}

impl View for Report {
    type V = ReportState;

    open spec fn view(&self) -> ReportState {
        ReportState {
            repo: self.repo@,
            left: texts(self.left@),
            written: self.written@,
            file: opt_text(self.file),
        }
    }
}

/// What a tool waits for.
pub enum ToolState {
    /// The list of notes.
    Listing { repo: String },
    /// The blame of a file.
    Blaming { repo: String, file: String },
    /// The note on an object of a report.
    Reading { report: Report, object: String },
    /// The subject of the object whose note this is.
    Naming { report: Report, note: String },
    /// The note on the one commit that was asked for.
    Showing { repo: String, commit: String },
    /// The description of the one commit whose note this is.
    Describing { commit: String, note: String },
}

/// The mathematical reading of a [`ToolState`].
pub enum Waiting {
    Listing { repo: Seq<char> },
    Blaming { repo: Seq<char>, file: Seq<char> },
    Reading { report: ReportState, object: Seq<char> },
    Naming { report: ReportState, note: Seq<char> },
    Showing { repo: Seq<char>, commit: Seq<char> },
    Describing { commit: Seq<char>, note: Seq<char> },
}

impl View for ToolState {
    type V = Waiting;

    open spec fn view(&self) -> Waiting {
        match *self {
            ToolState::Listing { repo } => Waiting::Listing { repo: repo@ },
            ToolState::Blaming { repo, file } => Waiting::Blaming { repo: repo@, file: file@ },
            ToolState::Reading { report, object } => Waiting::Reading {
                report: report@,
                object: object@,
            },
            ToolState::Naming { report, note } => Waiting::Naming { report: report@, note: note@ },
            ToolState::Showing { repo, commit } => Waiting::Showing { repo: repo@, commit: commit@ },
            ToolState::Describing { commit, note } => Waiting::Describing {
                commit: commit@,
                note: note@,
            },
        }
    }
}

/// What a tool does next: run git with these arguments and resume with the reply, or answer.
pub enum ToolStep {
    Run { args: Vec<String>, state: ToolState },
    Done(Result<String, String>),
}

/// The mathematical reading of a [`ToolStep`].
pub enum Step {
    Run { args: Seq<Seq<char>>, state: Waiting },
    Done(Result<Seq<char>, Seq<char>>),
}

/// The texts of a result of strings.
pub open spec fn result_text(r: Result<String, String>) -> Result<Seq<char>, Seq<char>> {
    match r {
        Ok(t) => Ok(t@),
        Err(e) => Err(e@),
    }
}

impl View for ToolStep {
    type V = Step;

    open spec fn view(&self) -> Step {
        match *self {
            ToolStep::Run { args, state } => Step::Run { args: texts(args@), state: state@ },
            ToolStep::Done(r) => Step::Done(result_text(r)),
        }
    }
}

/// The command that lists the notes of a repository.
pub open spec fn list_command(repo: Seq<char>) -> Seq<Seq<char>> {
    command_in(repo, seq!["notes"@, "list"@])
}

/// The command that blames a file.
pub open spec fn blame_command(repo: Seq<char>, file: Seq<char>) -> Seq<Seq<char>> {
    command_in(repo, seq!["blame"@, "--porcelain"@, "--"@, file])
}

/// The command that prints the note on an object.
pub open spec fn note_command(repo: Seq<char>, object: Seq<char>) -> Seq<Seq<char>> {
    command_in(repo, seq!["notes"@, "show"@, object])
}

/// The command that prints an object's abbreviated name, author and subject on one line.
pub open spec fn subject_command(repo: Seq<char>, object: Seq<char>) -> Seq<Seq<char>> {
    command_in(repo, seq!["log"@, "--format=%h %an: %s"@, "-1"@, object])
}

/// The command that prints an object's abbreviated name and author, and its subject below.
pub open spec fn details_command(repo: Seq<char>, object: Seq<char>) -> Seq<Seq<char>> {
    command_in(repo, seq!["log"@, "--format=%h %an <%ae>%n%s"@, "-1"@, object])
}

/// The part of a report that is about one object.
pub open spec fn section(subject: Seq<char>, note: Seq<char>) -> Seq<char> {
    "### "@ + subject + "\n\n"@ + trim(note) + "\n\n---\n\n"@
}

/// The answer that a finished report gives.
pub open spec fn report_answer(written: Seq<char>, file: Option<Seq<char>>) -> Seq<char> {
    if written.len() > 0 {
        written
    } else {
        match file {
            Some(f) => "No git notes found for commits touching "@ + f + "."@,
            None => "No git notes found."@,
        }
    }
}

/// The next step of a report: read the note on the next object, or finish.
pub open spec fn report_step(report: ReportState) -> Step {
    if report.left.len() == 0 {
        Step::Done(Ok(report_answer(report.written, report.file)))
    } else {
        Step::Run {
            args: note_command(report.repo, report.left[0]),
            state: Waiting::Reading {
                report: ReportState { left: report.left.drop_first(), ..report },
                object: report.left[0],
            },
        }
    }
}

/// The objects that a list of notes names.
pub open spec fn listed_objects(output: Seq<char>) -> Seq<Seq<char>> {
    let pairs = listed_pairs(lines(output));
    Seq::new(pairs.len(), |i: int| pairs[i].1)
}

/// The answer to a question about one commit, given its note and its description.
pub open spec fn show_answer(
    commit: Seq<char>,
    note: Option<Seq<char>>,
    subject: Option<Seq<char>>,
) -> Result<Seq<char>, Seq<char>> {
    match note {
        Some(n) => Ok("**Commit:** "@ + or_empty(subject) + "\n\n---\n\n"@ + trim(n)),
        None => Err("No note found for "@ + commit),
    }
}

/// The first step of a tool.
pub open spec fn first_step(call: Call) -> Step {
    match call {
        Call::List { repo } => Step::Run {
            args: list_command(repo),
            state: Waiting::Listing { repo },
        },
        Call::ForFile { repo, file } => Step::Run {
            args: blame_command(repo, file),
            state: Waiting::Blaming { repo, file },
        },
        Call::Show { repo, commit } => Step::Run {
            args: note_command(repo, commit),
            state: Waiting::Showing { repo, commit },
        },
        Call::Unknown { name } => Step::Done(Err("Unknown tool: "@ + name)),
    }
}

/// The step of a tool after a reply.
pub open spec fn next_step(state: Waiting, reply: Reply) -> Step {
    match state {
        Waiting::Listing { repo } => match reply {
            Reply::NotStarted(reason) => Step::Done(Err("Failed to run git: "@ + reason)),
            Reply::Exited { success, stdout, .. } => if !success || stdout.len() == 0 {
                Step::Done(Ok("No git notes found in this repository."@))
            } else {
                report_step(
                    ReportState {
                        repo,
                        left: listed_objects(decoded(stdout)),
                        written: Seq::empty(),
                        file: None,
                    },
                )
            },
        },
        Waiting::Blaming { repo, file } => match reply {
            Reply::NotStarted(reason) => Step::Done(Err("Failed to run git blame: "@ + reason)),
            Reply::Exited { success, stdout, stderr } => if !success {
                Step::Done(Err("git blame failed: "@ + decoded(stderr)))
            } else {
                report_step(
                    ReportState {
                        repo,
                        left: touching_commits(decoded(stdout)),
                        written: Seq::empty(),
                        file: Some(file),
                    },
                )
            },
        },
        Waiting::Reading { report, object } => if printed(reply) is None && report.file is Some {
            report_step(report)
        } else {
            Step::Run {
                args: subject_command(report.repo, object),
                state: Waiting::Naming { report, note: or_empty(printed(reply)) },
            }
        },
        Waiting::Naming { report, note } => report_step(
            ReportState {
                written: report.written + section(or_empty(printed(reply)), note),
                ..report
            },
        ),
        Waiting::Showing { repo, commit } => match printed(reply) {
            Some(note) => Step::Run {
                args: details_command(repo, commit),
                state: Waiting::Describing { commit, note },
            },
            None => Step::Done(show_answer(commit, None, None)),
        },
        Waiting::Describing { commit, note } => Step::Done(
            show_answer(commit, Some(note), printed(reply)),
        ),
    }
}

/// The answer to a question about one commit: its description above its note, or that it has
/// none.
pub fn git_notes_show(commit: &str, note: Option<String>, subject: Option<String>) -> (r: Result<
    String,
    String,
>)
    ensures
        result_text(r) == show_answer(commit@, opt_text(note), opt_text(subject)),
{
    match note {
        None => {
            let mut e = "No note found for ".to_owned();
            e.append(commit);
            Err(e)
        },
        Some(note) => {
            let mut t = "**Commit:** ".to_owned();
            match subject {
                Some(subject) => {
                    t.append(subject.as_str());
                },
                None => {
                    assert("**Commit:** "@ + Seq::<char>::empty() == "**Commit:** "@);
                },
            }
            t.append("\n\n---\n\n");
            t.append(trimmed(note.as_str()).as_str());
            Ok(t)
        },
    }
}

/// The next step of a report.
fn continue_report(report: Report) -> (r: ToolStep)
    ensures
        r@ == report_step(report@),
{
    let mut left = report.left;
    if left.len() == 0 {
        let written = report.written;
        if !written.as_str().is_empty() {
            return ToolStep::Done(Ok(written));
        }
        match report.file {
            Some(file) => {
                let mut t = "No git notes found for commits touching ".to_owned();
                t.append(file.as_str());
                t.append(".");
                ToolStep::Done(Ok(t))
            },
            None => ToolStep::Done(Ok("No git notes found.".to_owned())),
        }
    } else {
        let ghost before = texts(left@);
        let object = left.remove(0);
        assert(texts(left@) == before.drop_first());
        assert(object@ == before[0]);
        let args = git_command(report.repo.as_str(), &["notes", "show", object.as_str()]);
        assert(texts(args@) == note_command(report.repo@, object@));
        ToolStep::Run {
            args,
            state: ToolState::Reading {
                report: Report {
                    repo: report.repo,
                    left,
                    written: report.written,
                    file: report.file,
                },
                object,
            },
        }
    }
}

/// The part of a report that is about one object.
fn write_section(written: &mut String, subject: &str, note: &str)
    ensures
        final(written)@ == old(written)@ + section(subject@, note@),
{
    written.append("### ");
    written.append(subject);
    written.append("\n\n");
    written.append(trimmed(note).as_str());
    written.append("\n\n---\n\n");
    assert(written@ == old(written)@ + section(subject@, note@));
}

/// The objects of the notes in a list.
fn objects_in(output: &str) -> (r: Vec<String>)
    ensures
        texts(r@) == listed_objects(output@),
{
    let pairs = parse_notes_list(output);
    let mut r: Vec<String> = Vec::new();
    let mut i: usize = 0;
    while i < pairs.len()
        invariant
            i <= pairs@.len(),
            pair_texts(pairs@) == listed_pairs(lines(output@)),
            r@.len() == i,
            forall|k: int| 0 <= k < i ==> (#[trigger] r@[k])@ == pairs@[k].1@,
        decreases pairs@.len() - i,
    {
        r.push(pairs[i].1.clone());
        i += 1;
    }
    assert forall|k: int| 0 <= k < r@.len() implies #[trigger] texts(r@)[k] == listed_objects(
        output@,
    )[k] by {
        assert(pair_texts(pairs@)[k].1 == pairs@[k].1@);
    }
    assert(texts(r@) =~= listed_objects(output@));
    r
}

/// Starts a tool.
pub fn begin_tool(call: ToolCall) -> (r: ToolStep)
    ensures
        r@ == first_step(call@),
{
    match call {
        ToolCall::List { repo } => {
            let args = git_command(repo.as_str(), &["notes", "list"]);
            assert(texts(args@) == list_command(repo@));
            ToolStep::Run { args, state: ToolState::Listing { repo } }
        },
        ToolCall::ForFile { repo, file } => {
            let args = git_command(repo.as_str(), &["blame", "--porcelain", "--", file.as_str()]);
            assert(texts(args@) == blame_command(repo@, file@));
            ToolStep::Run { args, state: ToolState::Blaming { repo, file } }
        },
        ToolCall::Show { repo, commit } => {
            let args = git_command(repo.as_str(), &["notes", "show", commit.as_str()]);
            assert(texts(args@) == note_command(repo@, commit@));
            ToolStep::Run { args, state: ToolState::Showing { repo, commit } }
        },
        ToolCall::Unknown { name } => {
            let mut e = "Unknown tool: ".to_owned();
            e.append(name.as_str());
            ToolStep::Done(Err(e))
        },
    }
}

/// Lists the notes of a repository, once git has answered with their list.
pub fn git_notes_list(repo: String, reply: &GitReply) -> (r: ToolStep)
    ensures
        r@ == next_step(Waiting::Listing { repo: repo@ }, reply@),
{
    match reply {
        GitReply::NotStarted(reason) => {
            let mut e = "Failed to run git: ".to_owned();
            e.append(reason.as_str());
            ToolStep::Done(Err(e))
        },
        GitReply::Exited(output) => {
            if !output.success || output.stdout.len() == 0 {
                return ToolStep::Done(Ok("No git notes found in this repository.".to_owned()));
            }
            let list = decode_lossy(&output.stdout);
            let left = objects_in(list.as_str());
            continue_report(Report { repo, left, written: String::new(), file: None })
        },
    }
}

/// Lists the notes on the commits that touched a file, once git has answered with its blame.
pub fn git_notes_for_file(repo: String, file: String, reply: &GitReply) -> (r: ToolStep)
    ensures
        r@ == next_step(Waiting::Blaming { repo: repo@, file: file@ }, reply@),
{
    match reply {
        GitReply::NotStarted(reason) => {
            let mut e = "Failed to run git blame: ".to_owned();
            e.append(reason.as_str());
            ToolStep::Done(Err(e))
        },
        GitReply::Exited(output) => {
            if !output.success {
                let mut e = "git blame failed: ".to_owned();
                e.append(decode_lossy(&output.stderr).as_str());
                return ToolStep::Done(Err(e));
            }
            let blame = decode_lossy(&output.stdout);
            let left = commits_touching(blame.as_str());
            continue_report(Report { repo, left, written: String::new(), file: Some(file) })
        },
    }
}

/// Takes a tool one reply further.
pub fn resume_tool(state: ToolState, reply: &GitReply) -> (r: ToolStep)
    ensures
        r@ == next_step(state@, reply@),
{
    match state {
        ToolState::Listing { repo } => git_notes_list(repo, reply),
        ToolState::Blaming { repo, file } => git_notes_for_file(repo, file, reply),
        ToolState::Reading { report, object } => {
            let note = match run_git(reply) {
                Some(note) => note,
                None => {
                    if report.file.is_some() {
                        return continue_report(report);
                    }
                    String::new()
                },
            };
            let args = git_command(
                report.repo.as_str(),
                &["log", "--format=%h %an: %s", "-1", object.as_str()],
            );
            assert(texts(args@) == subject_command(report.repo@, object@));
            ToolStep::Run { args, state: ToolState::Naming { report, note } }
        },
        ToolState::Naming { report, note } => {
            let subject = match run_git(reply) {
                Some(subject) => subject,
                None => String::new(),
            };
            let mut written = report.written;
            write_section(&mut written, subject.as_str(), note.as_str());
            continue_report(
                Report { repo: report.repo, left: report.left, written, file: report.file },
            )
        },
        ToolState::Showing { repo, commit } => match run_git(reply) {
            Some(note) => {
                let args = git_command(
                    repo.as_str(),
                    &["log", "--format=%h %an <%ae>%n%s", "-1", commit.as_str()],
                );
                assert(texts(args@) == details_command(repo@, commit@));
                ToolStep::Run { args, state: ToolState::Describing { commit, note } }
            },
            None => ToolStep::Done(git_notes_show(commit.as_str(), None, None)),
        },
        ToolState::Describing { commit, note } => ToolStep::Done(
            git_notes_show(commit.as_str(), Some(note), run_git(reply)),
        ),
    }
}

} // verus!
