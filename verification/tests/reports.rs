use git_notes::git::{GitOutput, GitReply};
use git_notes::tools::{
    begin_tool, git_notes_for_file, git_notes_list, git_notes_show, resume_tool, ToolCall, ToolStep,
};

const A: &str = "aaaa1111aaaa1111aaaa1111aaaa1111aaaa1111";
const B: &str = "bbbb2222bbbb2222bbbb2222bbbb2222bbbb2222";

fn exited(success: bool, stdout: &str, stderr: &str) -> GitReply {
    GitReply::Exited(GitOutput {
        success,
        stdout: stdout.as_bytes().to_vec(),
        stderr: stderr.as_bytes().to_vec(),
    })
}

/// Runs a tool to its end, with git answering as told.
fn driven(step: ToolStep, git: &dyn Fn(&str) -> GitReply) -> Result<String, String> {
    let mut step = step;
    loop {
        match step {
            ToolStep::Run { args, state } => step = resume_tool(state, &git(&args.join(" "))),
            ToolStep::Done(result) => return result,
        }
    }
}

fn list() -> ToolStep {
    begin_tool(ToolCall::List { repo: "/r".to_string() })
}

fn for_file() -> ToolStep {
    begin_tool(ToolCall::ForFile { repo: "/r".to_string(), file: "f".to_string() })
}

fn show() -> ToolStep {
    begin_tool(ToolCall::Show { repo: "/r".to_string(), commit: "HEAD".to_string() })
}

fn blame() -> String {
    format!("{A} 1 1 1\nauthor X\n\tone\n{B} 2 2 1\n\ttwo\n{A} 3 3\n\tthree\n")
}

#[test]
fn all_notes_are_listed() {
    let result = driven(list(), &|command| match command {
        "-C /r notes list" => exited(true, "b1 o1\nodd\nb2 o2\n", ""),
        "-C /r notes show o1" => exited(true, " first \n", ""),
        "-C /r notes show o2" => exited(false, "ignored", ""),
        "-C /r log --format=%h %an: %s -1 o1" => exited(true, "abc X: s", ""),
        "-C /r log --format=%h %an: %s -1 o2" => exited(false, "ignored", ""),
        _ => panic!("{}", command),
    });
    assert_eq!(
        result,
        Ok("### abc X: s\n\nfirst\n\n---\n\n### \n\n\n\n---\n\n".to_string())
    );
}

#[test]
fn repositories_without_notes_are_told_of() {
    let none = Ok("No git notes found in this repository.".to_string());
    assert_eq!(driven(list(), &|_| exited(true, "", "")), none);
    assert_eq!(driven(list(), &|_| exited(false, "b o", "")), none);
    assert_eq!(
        driven(list(), &|_| exited(true, "\n", "")),
        Ok("No git notes found.".to_string())
    );
    assert_eq!(
        driven(list(), &|_| GitReply::NotStarted("gone".to_string())),
        Err("Failed to run git: gone".to_string())
    );
    let step = git_notes_list("/r".to_string(), &exited(true, "", ""));
    assert_eq!(driven(step, &|command| panic!("{}", command)), none);
}

#[test]
fn notes_are_reported_for_a_file() {
    let git = |command: &str| {
        if command == "-C /r blame --porcelain -- f" {
            exited(true, &blame(), "")
        } else if command == format!("-C /r notes show {A}") {
            exited(false, "", "")
        } else if command == format!("-C /r notes show {B}") {
            exited(true, "note\n", "")
        } else if command == format!("-C /r log --format=%h %an: %s -1 {B}") {
            exited(true, "b Y: t\n", "")
        } else {
            panic!("{}", command)
        }
    };
    let want = Ok("### b Y: t\n\n\nnote\n\n---\n\n".to_string());
    assert_eq!(driven(for_file(), &git), want);
    let step =
        git_notes_for_file("/r".to_string(), "f".to_string(), &exited(true, &blame(), ""));
    assert_eq!(driven(step, &git), want);
}

#[test]
fn files_without_notes_are_told_of() {
    let git = |command: &str| {
        if command.contains("blame") {
            exited(true, &blame(), "")
        } else {
            exited(false, "", "")
        }
    };
    assert_eq!(
        driven(for_file(), &git),
        Ok("No git notes found for commits touching f.".to_string())
    );
    assert_eq!(
        driven(for_file(), &|_| exited(false, "", "fatal: no such path\n")),
        Err("git blame failed: fatal: no such path\n".to_string())
    );
    assert_eq!(
        driven(for_file(), &|_| GitReply::NotStarted("gone".to_string())),
        Err("Failed to run git blame: gone".to_string())
    );
}

#[test]
fn one_note_is_shown() {
    let git = |command: &str| match command {
        "-C /r notes show HEAD" => exited(true, "note\n", ""),
        "-C /r log --format=%h %an <%ae>%n%s -1 HEAD" => exited(true, "x", ""),
        _ => panic!("{}", command),
    };
    let want = "**Commit:** x\n\n---\n\nnote".to_string();
    assert_eq!(driven(show(), &git), Ok(want.clone()));
    assert_eq!(
        git_notes_show("HEAD", Some("note\n".to_string()), Some("x".to_string())),
        Ok(want)
    );
    assert_eq!(
        git_notes_show("HEAD", Some(" n ".to_string()), None),
        Ok("**Commit:** \n\n---\n\nn".to_string())
    );
    assert_eq!(
        driven(show(), &|_| exited(false, "", "")),
        Err("No note found for HEAD".to_string())
    );
    assert_eq!(git_notes_show("x", None, None), Err("No note found for x".to_string()));
}

#[test]
fn tools_that_do_not_exist_fail() {
    let step = begin_tool(ToolCall::Unknown { name: "t".to_string() });
    assert_eq!(driven(step, &|command| panic!("{}", command)), Err("Unknown tool: t".to_string()));
}

#[test]
fn lines_about_a_commit_are_not_looked_up() {
    let blame = format!(
        "{A} 1 1 1\nauthor Maximilian Alexander von Hohenzollern III\nfilename f\n\tx\n"
    );
    let git = |command: &str| {
        if command.contains("blame") {
            exited(true, &blame, "")
        } else if command == format!("-C /r notes show {A}") {
            exited(false, "", "")
        } else {
            panic!("{}", command)
        }
    };
    assert_eq!(
        driven(for_file(), &git),
        Ok("No git notes found for commits touching f.".to_string())
    );
}
