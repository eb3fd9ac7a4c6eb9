//! The protocol that the tools are offered over: one JSON request a line, one JSON reply a line.

use crate::json::{
    array_value, bool_value, copy_value, empty_object, field, get_field, get_text,
    int_value, json_of, json_views, no_members, null_value, parse_value, parsed_json, print_value,
    printed_json, text_field, text_value, with_member, Json,
};
use crate::text::same_text;
use crate::tools::{begin_tool, first_step, result_text, Call, Step, ToolCall, ToolStep};
use serde_json::Value;
use vstd::prelude::*;
use vstd::string::*;

verus! {

/// The identifier of a request, null where it has none.
pub open spec fn id_json(id: Option<Value>) -> Json {
    match id {
        Some(v) => json_of(v),
        None => Json::Null,
    }
}

/// A reply to the request with an identifier: what it holds stands under `key`.
pub open spec fn reply_json(id: Json, key: Seq<char>, body: Json) -> Json {
    Json::Object(map!["jsonrpc"@ => Json::Text("2.0"@), "id"@ => id, key => body])
}

/// What the server says of itself.
pub open spec fn server_json() -> Json {
    Json::Object(
        map![
            "protocolVersion"@ => Json::Text("2024-11-05"@),
            "capabilities"@ => Json::Object(map!["tools"@ => no_members()]),
            "serverInfo"@ => Json::Object(
                map![
                    "name"@ => Json::Text("git-notes-mcp"@),
                    "version"@ => Json::Text("0.0.1"@),
                ],
            ),
        ],
    )
}

/// A text argument of a tool.
pub open spec fn argument_json(description: Seq<char>) -> Json {
    Json::Object(
        map!["type"@ => Json::Text("string"@), "description"@ => Json::Text(description)],
    )
}

/// The arguments of a tool, and the one of them that has to be given.
pub open spec fn schema_json(arguments: Json, required: Option<Seq<char>>) -> Json {
    let schema = map!["type"@ => Json::Text("object"@), "properties"@ => arguments];
    match required {
        Some(name) => Json::Object(
            schema.insert("required"@, Json::Array(seq![Json::Text(name)])),
        ),
        None => Json::Object(schema),
    }
}

/// A tool.
pub open spec fn tool_json(
    name: Seq<char>,
    description: Seq<char>,
    arguments: Json,
    required: Option<Seq<char>>,
) -> Json {
    Json::Object(
        map![
            "name"@ => Json::Text(name),
            "description"@ => Json::Text(description),
            "inputSchema"@ => schema_json(arguments, required),
        ],
    )
}

/// The tool that lists all notes.
pub open spec fn list_tool() -> Json {
    tool_json(
        "git_notes_list"@,
        "List all git notes in the repository. Returns each note with its commit SHA, commit subject, and note content."@,
        Json::Object(
            map![
                "repo_path"@ => argument_json(
                    "Path to the git repository (defaults to current directory)"@,
                ),
            ],
        ),
        None,
    )
}

/// The tool that shows the notes for a file.
pub open spec fn file_tool() -> Json {
    tool_json(
        "git_notes_for_file"@,
        "Show git notes for commits that touched a specific file. Uses git blame to map file lines to commits, then shows any notes attached to those commits."@,
        Json::Object(
            map![
                "repo_path"@ => argument_json("Path to the git repository"@),
                "file_path"@ => argument_json("Path to the file (relative to repo root)"@),
            ],
        ),
        Some("file_path"@),
    )
}

/// The tool that shows the note on a commit.
pub open spec fn show_tool() -> Json {
    tool_json(
        "git_notes_show"@,
        "Show the git note attached to a specific commit."@,
        Json::Object(
            map![
                "repo_path"@ => argument_json("Path to the git repository"@),
                "commit"@ => argument_json("Commit SHA or ref to show the note for"@),
            ],
        ),
        Some("commit"@),
    )
}

/// The tools on offer.
pub open spec fn tools_json() -> Json {
    Json::Object(map!["tools"@ => Json::Array(seq![list_tool(), file_tool(), show_tool()])])
}

/// A text that a tool hands out.
pub open spec fn content_json(text: Seq<char>) -> Json {
    Json::Array(seq![Json::Object(map!["type"@ => Json::Text("text"@), "text"@ => Json::Text(text)])])
}

/// What a tool came to.
pub open spec fn tool_result_json(result: Result<Seq<char>, Seq<char>>) -> Json {
    match result {
        Ok(text) => Json::Object(map!["content"@ => content_json(text)]),
        Err(e) => Json::Object(
            map!["content"@ => content_json("Error: "@ + e), "isError"@ => Json::Bool(true)],
        ),
    }
}

/// The reply to a request for something that the server does not do.
pub open spec fn unknown_method_json(method: Seq<char>) -> Json {
    Json::Object(
        map![
            "code"@ => Json::Int(-32601),
            "message"@ => Json::Text("Method not found: "@ + method),
        ],
    )
}

/// The member of an object, or an object without members where there is none.
pub open spec fn field_or_empty(j: Json, key: Seq<char>) -> Json {
    match field(j, key) {
        Some(m) => m,
        None => no_members(),
    }
}

/// The identifier in a request, null where it has none.
pub open spec fn id_in(request: Json) -> Json {
    match field(request, "id"@) {
        Some(id) => id,
        None => Json::Null,
    }
}

/// What a request asks for.
pub open spec fn method_in(request: Json) -> Seq<char> {
    text_field(request, "method"@, ""@)
}

/// The tool that a request calls, with its arguments.
pub open spec fn call_in(params: Json) -> Call {
    let name = text_field(params, "name"@, ""@);
    let args = field_or_empty(params, "arguments"@);
    let repo = text_field(args, "repo_path"@, "."@);
    if name == "git_notes_list"@ {
        Call::List { repo }
    } else if name == "git_notes_for_file"@ {
        Call::ForFile { repo, file: text_field(args, "file_path"@, ""@) }
    } else if name == "git_notes_show"@ {
        Call::Show { repo, commit: text_field(args, "commit"@, ""@) }
    } else {
        Call::Unknown { name }
    }
}

/// What becomes of a line.
pub enum Handled {
    /// Nothing is said to it.
    Ignored,
    /// It is answered with this line.
    Reply(String),
    /// It calls a tool. Once the tool is done, [`finish_call`] makes the line that answers.
    Call { id: Option<Value>, step: ToolStep },
}

/// The mathematical reading of a [`Handled`].
pub enum Outcome {
    Ignored,
    Reply(Seq<char>),
    Call { id: Json, step: Step },
}

impl View for Handled {
    type V = Outcome;

    open spec fn view(&self) -> Outcome {
        match *self {
            Handled::Ignored => Outcome::Ignored,
            Handled::Reply(text) => Outcome::Reply(text@),
            Handled::Call { id, step } => Outcome::Call { id: id_json(id), step: step@ },
        }
    }
}

/// The reply to a request that calls no tool, and is owed one.
pub open spec fn direct_reply(request: Json) -> Json {
    let id = id_in(request);
    let method = method_in(request);
    if method == "initialize"@ {
        reply_json(id, "result"@, server_json())
    } else if method == "tools/list"@ {
        reply_json(id, "result"@, tools_json())
    } else if method == "ping"@ {
        reply_json(id, "result"@, no_members())
    } else {
        reply_json(id, "error"@, unknown_method_json(method))
    }
}

/// What becomes of a request.
pub open spec fn request_outcome(request: Json) -> Outcome {
    let method = method_in(request);
    if method == "notifications/initialized"@ {
        Outcome::Ignored
    } else if method == "tools/call"@ {
        Outcome::Call {
            id: id_in(request),
            step: first_step(call_in(field_or_empty(request, "params"@))),
        }
    } else {
        Outcome::Reply(printed_json(direct_reply(request)))
    }
}

/// What becomes of a line, given what JSON it holds, if any.
pub open spec fn line_outcome(request: Option<Json>) -> Outcome {
    match request {
        Some(j) => request_outcome(j),
        None => Outcome::Ignored,
    }
}

/// A reply to the request with an identifier.
fn reply_value(id: Option<Value>, key: &str, body: Value) -> (r: Value)
    ensures
        json_of(r) == reply_json(id_json(id), key@, json_of(body)),
{
    let id_value = match id {
        Some(v) => v,
        None => null_value(),
    };
    let r = with_member(empty_object(), "jsonrpc", text_value("2.0"));
    let r = with_member(r, "id", id_value);
    with_member(r, key, body)
}

/// The answer to the request that opens a session.
pub fn handle_initialize(id: Option<Value>) -> (r: Value)
    ensures
        json_of(r) == reply_json(id_json(id), "result"@, server_json()),
{
    let capabilities = with_member(empty_object(), "tools", empty_object());
    let info = with_member(empty_object(), "name", text_value("git-notes-mcp"));
    let info = with_member(info, "version", text_value("0.0.1"));
    let result = with_member(empty_object(), "protocolVersion", text_value("2024-11-05"));
    let result = with_member(result, "capabilities", capabilities);
    let result = with_member(result, "serverInfo", info);
    reply_value(id, "result", result)
}

/// A text argument of a tool.
fn argument_value(description: &str) -> (r: Value)
    ensures
        json_of(r) == argument_json(description@),
{
    let r = with_member(empty_object(), "type", text_value("string"));
    with_member(r, "description", text_value(description))
}

/// A tool.
fn tool_value(name: &str, description: &str, arguments: Value, required: Option<&str>) -> (r: Value)
    ensures
        json_of(r) == tool_json(
            name@,
            description@,
            json_of(arguments),
            match required {
                Some(argument) => Some(argument@),
                None => None,
            },
        ),
{
    let mut schema = with_member(empty_object(), "type", text_value("object"));
    schema = with_member(schema, "properties", arguments);
    if let Some(argument) = required {
        let mut names: Vec<Value> = Vec::new();
        names.push(text_value(argument));
        assert(json_views(names@) == seq![Json::Text(argument@)]);
        schema = with_member(schema, "required", array_value(names));
    }
    let r = with_member(empty_object(), "name", text_value(name));
    let r = with_member(r, "description", text_value(description));
    with_member(r, "inputSchema", schema)
}

/// The answer to the request for the tools on offer.
pub fn handle_tools_list(id: Option<Value>) -> (r: Value)
    ensures
        json_of(r) == reply_json(id_json(id), "result"@, tools_json()),
{
    let arguments = with_member(
        empty_object(),
        "repo_path",
        argument_value("Path to the git repository (defaults to current directory)"),
    );
    let list = tool_value(
        "git_notes_list",
        "List all git notes in the repository. Returns each note with its commit SHA, commit subject, and note content.",
        arguments,
        None,
    );
    let arguments = with_member(
        empty_object(),
        "repo_path",
        argument_value("Path to the git repository"),
    );
    let arguments = with_member(
        arguments,
        "file_path",
        argument_value("Path to the file (relative to repo root)"),
    );
    let file = tool_value(
        "git_notes_for_file",
        "Show git notes for commits that touched a specific file. Uses git blame to map file lines to commits, then shows any notes attached to those commits.",
        arguments,
        Some("file_path"),
    );
    let arguments = with_member(
        empty_object(),
        "repo_path",
        argument_value("Path to the git repository"),
    );
    let arguments = with_member(
        arguments,
        "commit",
        argument_value("Commit SHA or ref to show the note for"),
    );
    let show = tool_value(
        "git_notes_show",
        "Show the git note attached to a specific commit.",
        arguments,
        Some("commit"),
    );
    let mut tools: Vec<Value> = Vec::new();
    tools.push(list);
    tools.push(file);
    tools.push(show);
    assert(json_views(tools@) == seq![list_tool(), file_tool(), show_tool()]);
    reply_value(id, "result", with_member(empty_object(), "tools", array_value(tools)))
}

/// The first step of the tool that a request calls.
pub fn handle_tools_call(params: &Value) -> (r: ToolStep)
    ensures
        r@ == first_step(call_in(json_of(*params))),
{
    let name = get_text(params, "name", "");
    let args = match get_field(params, "arguments") {
        Some(m) => copy_value(m),
        None => empty_object(),
    };
    let repo = get_text(&args, "repo_path", ".");
    let call = if same_text(name.as_str(), "git_notes_list") {
        ToolCall::List { repo }
    } else if same_text(name.as_str(), "git_notes_for_file") {
        ToolCall::ForFile { repo, file: get_text(&args, "file_path", "") }
    } else if same_text(name.as_str(), "git_notes_show") {
        ToolCall::Show { repo, commit: get_text(&args, "commit", "") }
    } else {
        ToolCall::Unknown { name }
    };
    begin_tool(call)
}

/// The reply to a request that called a tool, once the tool is done.
pub fn tools_call_response(id: Option<Value>, result: Result<String, String>) -> (r: Value)
    ensures
        json_of(r) == reply_json(id_json(id), "result"@, tool_result_json(result_text(result))),
{
    let (text, failed) = match result {
        Ok(text) => (text, false),
        Err(e) => {
            let mut text = "Error: ".to_owned();
            text.append(e.as_str());
            (text, true)
        },
    };
    let part = with_member(empty_object(), "type", text_value("text"));
    let part = with_member(part, "text", text_value(text.as_str()));
    let mut parts: Vec<Value> = Vec::new();
    parts.push(part);
    assert(json_views(parts@) =~= seq![json_of(part)]);
    let mut body = with_member(empty_object(), "content", array_value(parts));
    if failed {
        body = with_member(body, "isError", bool_value(true));
    }
    reply_value(id, "result", body)
}

/// The line that answers a request that called a tool, once the tool is done.
pub fn finish_call(id: Option<Value>, result: Result<String, String>) -> (r: String)
    ensures
        r@ == printed_json(
            reply_json(id_json(id), "result"@, tool_result_json(result_text(result))),
        ),
        !r@.contains('\n'),
{
    let response = tools_call_response(id, result);
    print_value(&response).unwrap()
}

/// What becomes of a request.
pub fn handle_request(request: &Value) -> (r: Handled)
    ensures
        r@ == request_outcome(json_of(*request)),
        r matches Handled::Reply(text) ==> !text@.contains('\n'),
{
    let method = get_text(request, "method", "");
    let id = match get_field(request, "id") {
        Some(m) => Some(copy_value(m)),
        None => None,
    };
    if same_text(method.as_str(), "notifications/initialized") {
        return Handled::Ignored;
    }
    if same_text(method.as_str(), "tools/call") {
        let params = match get_field(request, "params") {
            Some(m) => copy_value(m),
            None => empty_object(),
        };
        return Handled::Call { id, step: handle_tools_call(&params) };
    }
    let response = if same_text(method.as_str(), "initialize") {
        handle_initialize(id)
    } else if same_text(method.as_str(), "tools/list") {
        handle_tools_list(id)
    } else if same_text(method.as_str(), "ping") {
        reply_value(id, "result", empty_object())
    } else {
        let mut message = "Method not found: ".to_owned();
        message.append(method.as_str());
        let error = with_member(empty_object(), "code", int_value(-32601));
        let error = with_member(error, "message", text_value(message.as_str()));
        reply_value(id, "error", error)
    };
    Handled::Reply(print_value(&response).unwrap())
}

/// What becomes of a line: one that is not JSON is passed over.
pub fn handle_line(line: &str) -> (r: Handled)
    ensures
        r@ == line_outcome(parsed_json(line@)),
        r matches Handled::Reply(text) ==> !text@.contains('\n'),
{
    match parse_value(line) {
        Ok(request) => handle_request(&request),
        Err(_) => Handled::Ignored,
    }
}

} // verus!
