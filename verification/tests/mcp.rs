use git_notes::git::{GitOutput, GitReply};
use git_notes::mcp::{
    finish_call, handle_initialize, handle_line, handle_request, handle_tools_list, Handled,
};
use git_notes::tools::{resume_tool, ToolStep};
use serde_json::Value;

fn parsed(text: &str) -> Value {
    serde_json::from_str(text).unwrap()
}

fn reply_to(line: &str) -> Value {
    match handle_line(line) {
        Handled::Reply(text) => {
            assert!(!text.contains('\n'));
            parsed(&text)
        }
        _ => panic!("no reply to {}", line),
    }
}

fn exited(stdout: &str) -> GitReply {
    GitReply::Exited(GitOutput {
        success: true,
        stdout: stdout.as_bytes().to_vec(),
        stderr: Vec::new(),
    })
}

/// Runs a call to its end, with the replies in the order in which they are asked for.
fn answered(line: &str, replies: Vec<(&str, GitReply)>) -> String {
    let (id, mut step) = match handle_line(line) {
        Handled::Call { id, step } => (id, step),
        _ => panic!("no call in {}", line),
    };
    let mut replies = replies.into_iter();
    loop {
        match step {
            ToolStep::Run { args, state } => {
                let (command, reply) = replies.next().unwrap();
                assert_eq!(args.join(" "), command);
                step = resume_tool(state, &reply);
            }
            ToolStep::Done(result) => {
                assert!(replies.next().is_none());
                return finish_call(id, result);
            }
        }
    }
}

#[test]
fn sessions_are_opened() {
    let want = parsed(
        r#"{"jsonrpc":"2.0","id":1,"result":{"protocolVersion":"2024-11-05",
        "capabilities":{"tools":{}},"serverInfo":{"name":"git-notes-mcp","version":"0.0.1"}}}"#,
    );
    assert_eq!(reply_to(r#"{"jsonrpc":"2.0","id":1,"method":"initialize"}"#), want);
    assert_eq!(handle_initialize(Some(Value::from(1))), want);
    assert_eq!(handle_initialize(None)["id"], Value::Null);
}

#[test]
fn lines_that_are_no_requests_are_passed_over() {
    assert!(matches!(handle_line("not json"), Handled::Ignored));
    assert!(matches!(handle_line(""), Handled::Ignored));
    assert!(matches!(
        handle_line(r#"{"method":"notifications/initialized"}"#),
        Handled::Ignored
    ));
}

#[test]
fn pings_are_answered_on_one_line() {
    match handle_line(r#"{"id":"a\nb","method":"ping"}"#) {
        Handled::Reply(text) => {
            assert_eq!(text, r#"{"id":"a\nb","jsonrpc":"2.0","result":{}}"#)
        }
        _ => panic!("no reply"),
    }
}

#[test]
fn identifiers_are_repeated() {
    for id in ["1", "-3", "1.5", "null", "\"x\"", "[1,2]", "{\"a\":true}"] {
        let reply = reply_to(&format!(r#"{{"id":{id},"method":"ping"}}"#));
        assert_eq!(reply["id"], parsed(id));
        assert_eq!(reply["jsonrpc"], "2.0");
    }
    assert_eq!(reply_to(r#"{"method":"ping"}"#)["id"], Value::Null);
}

#[test]
fn other_methods_are_refused() {
    assert_eq!(
        reply_to(r#"{"id":7,"method":"resources/list"}"#),
        parsed(
            r#"{"jsonrpc":"2.0","id":7,
            "error":{"code":-32601,"message":"Method not found: resources/list"}}"#
        )
    );
    for line in ["{\"id\":7}", "{\"id\":7,\"method\":3}"] {
        assert_eq!(reply_to(line)["error"]["message"], "Method not found: ");
    }
    for line in ["[1]", "3", "null"] {
        let reply = reply_to(line);
        assert_eq!(reply["id"], Value::Null);
        assert_eq!(reply["error"]["code"], -32601);
    }
}

#[test]
fn tools_are_listed() {
    let reply = reply_to(r#"{"id":2,"method":"tools/list"}"#);
    assert_eq!(reply, handle_tools_list(Some(Value::from(2))));
    let tools = reply["result"]["tools"].as_array().unwrap();
    let names: Vec<&str> = tools.iter().map(|t| t["name"].as_str().unwrap()).collect();
    assert_eq!(names, ["git_notes_list", "git_notes_for_file", "git_notes_show"]);
    assert_eq!(
        tools[0],
        parsed(
            r#"{"name":"git_notes_list",
            "description":"List all git notes in the repository. Returns each note with its commit SHA, commit subject, and note content.",
            "inputSchema":{"type":"object","properties":{"repo_path":{"type":"string",
            "description":"Path to the git repository (defaults to current directory)"}}}}"#
        )
    );
    assert_eq!(
        tools[1]["inputSchema"],
        parsed(
            r#"{"type":"object","properties":{
            "repo_path":{"type":"string","description":"Path to the git repository"},
            "file_path":{"type":"string","description":"Path to the file (relative to repo root)"}},
            "required":["file_path"]}"#
        )
    );
    assert_eq!(
        tools[2]["inputSchema"],
        parsed(
            r#"{"type":"object","properties":{
            "repo_path":{"type":"string","description":"Path to the git repository"},
            "commit":{"type":"string","description":"Commit SHA or ref to show the note for"}},
            "required":["commit"]}"#
        )
    );
}

#[test]
fn listed_tools_can_be_called() {
    let reply = reply_to(r#"{"id":2,"method":"tools/list"}"#);
    for tool in reply["result"]["tools"].as_array().unwrap() {
        let line =
            format!(r#"{{"id":1,"method":"tools/call","params":{{"name":{}}}}}"#, tool["name"]);
        match handle_request(&parsed(&line)) {
            Handled::Call { step: ToolStep::Run { .. }, .. } => {}
            _ => panic!("{} cannot be called", tool["name"]),
        }
    }
}

#[test]
fn unknown_tools_are_told_of() {
    let line = r#"{"id":5,"method":"tools/call","params":{"name":"x"}}"#;
    assert_eq!(
        answered(line, vec![]),
        r#"{"id":5,"jsonrpc":"2.0","result":{"content":[{"text":"Error: Unknown tool: x","type":"text"}],"isError":true}}"#
    );
    let line = r#"{"id":5,"method":"tools/call"}"#;
    assert!(answered(line, vec![]).contains("Error: Unknown tool: \""));
}

#[test]
fn a_note_is_shown() {
    let line = r#"{"id":5,"method":"tools/call","params":{"name":"git_notes_show",
        "arguments":{"repo_path":"/r","commit":"HEAD"}}}"#;
    let replies = vec![
        ("-C /r notes show HEAD", exited(" the note\n")),
        ("-C /r log --format=%h %an <%ae>%n%s -1 HEAD", exited("abc A <a@b>\nSubject\n")),
    ];
    assert_eq!(
        parsed(&answered(line, replies))["result"],
        parsed(
            r#"{"content":[{"type":"text",
            "text":"**Commit:** abc A <a@b>\nSubject\n\n\n---\n\nthe note"}]}"#
        )
    );
}

#[test]
fn arguments_have_defaults() {
    let line = r#"{"id":5,"method":"tools/call","params":{"name":"git_notes_show",
        "arguments":{"repo_path":3}}}"#;
    let replies = vec![("-C . notes show ", GitReply::NotStarted("no git".to_string()))];
    let reply = parsed(&answered(line, replies));
    assert_eq!(reply["result"]["content"][0]["text"], "Error: No note found for ");
    assert_eq!(reply["result"]["isError"], true);
}
