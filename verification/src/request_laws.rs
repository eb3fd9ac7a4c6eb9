//! What becomes of requests, said of the JSON that they and their replies hold.

use crate::git::Reply;
use crate::json::{printed_json, Json};
use crate::mcp::{
    argument_json, content_json, file_tool, line_outcome, list_tool, reply_json, request_outcome,
    server_json, show_tool, tool_result_json, tools_json, Outcome,
};
use crate::reply_laws::law_commands_are_these;
use crate::tool_laws::{answer, commands_needed, driven, law_tools_answer};
use crate::tools::{Call, Step};
use vstd::prelude::*;

verus! {

proof fn lemma_names_differ()
    ensures
        "tools/call"@ != "notifications/initialized"@,
        "tools/list"@ != "notifications/initialized"@,
        "initialize"@ != "notifications/initialized"@,
        "ping"@ != "notifications/initialized"@,
        "initialize"@ != "tools/call"@,
        "tools/list"@ != "tools/call"@,
        "ping"@ != "tools/call"@,
        "tools/list"@ != "initialize"@,
        "ping"@ != "initialize"@,
        "ping"@ != "tools/list"@,
        "git_notes_list"@ != "git_notes_for_file"@,
        "git_notes_list"@ != "git_notes_show"@,
        "git_notes_for_file"@ != "git_notes_show"@,
        "jsonrpc"@ != "id"@,
        "jsonrpc"@ != "result"@,
        "jsonrpc"@ != "error"@,
        "id"@ != "result"@,
        "id"@ != "error"@,
        "result"@ != "error"@,
        "content"@ != "isError"@,
        "type"@ != "text"@,
        "code"@ != "message"@,
        "name"@ != "description"@,
        "name"@ != "inputSchema"@,
        "description"@ != "inputSchema"@,
        "type"@ != "properties"@,
        "type"@ != "required"@,
        "type"@ != "description"@,
        "properties"@ != "required"@,
        "repo_path"@ != "file_path"@,
        "repo_path"@ != "commit"@,
        "ping"@.len() > 0,
        "initialize"@.len() > 0,
        "tools/list"@.len() > 0,
        "tools/call"@.len() > 0,
        "notifications/initialized"@.len() > 0,
{
    reveal_strlit("tools/call");
    reveal_strlit("tools/list");
    reveal_strlit("notifications/initialized");
    reveal_strlit("initialize");
    reveal_strlit("ping");
    reveal_strlit("git_notes_list");
    reveal_strlit("git_notes_for_file");
    reveal_strlit("git_notes_show");
    reveal_strlit("jsonrpc");
    reveal_strlit("id");
    reveal_strlit("result");
    reveal_strlit("error");
    reveal_strlit("content");
    reveal_strlit("isError");
    reveal_strlit("type");
    reveal_strlit("text");
    reveal_strlit("code");
    reveal_strlit("message");
    reveal_strlit("name");
    reveal_strlit("description");
    reveal_strlit("inputSchema");
    reveal_strlit("properties");
    reveal_strlit("required");
    reveal_strlit("repo_path");
    reveal_strlit("file_path");
    reveal_strlit("commit");
    assert("tools/call"@.len() == 10);
    assert("tools/list"@.len() == 10);
    assert("notifications/initialized"@.len() == 25);
    assert("initialize"@.len() == 10);
    assert("ping"@.len() == 4);
    assert("git_notes_list"@.len() == 14);
    assert("git_notes_for_file"@.len() == 18);
    assert("git_notes_show"@.len() == 14);
    assert("jsonrpc"@.len() == 7);
    assert("id"@.len() == 2);
    assert("result"@.len() == 6);
    assert("error"@.len() == 5);
    assert("content"@.len() == 7);
    assert("isError"@.len() == 7);
    assert("type"@.len() == 4);
    assert("text"@.len() == 4);
    assert("code"@.len() == 4);
    assert("message"@.len() == 7);
    assert("name"@.len() == 4);
    assert("description"@.len() == 11);
    assert("inputSchema"@.len() == 11);
    assert("properties"@.len() == 10);
    assert("required"@.len() == 8);
    assert("repo_path"@.len() == 9);
    assert("file_path"@.len() == 9);
    assert("commit"@.len() == 6);
    assert("tools/call"@[6] == 'c' && "tools/list"@[6] == 'l');
    assert("tools/call"@[0] == 't' && "tools/list"@[0] == 't' && "initialize"@[0] == 'i');
    assert("git_notes_list"@[10] == 'l' && "git_notes_show"@[10] == 's');
    assert("content"@[0] == 'c' && "isError"@[0] == 'i');
    assert("type"@[1] == 'y' && "text"@[1] == 'e');
    assert("description"@[0] == 'd' && "inputSchema"@[0] == 'i');
    assert("repo_path"@[0] == 'r' && "file_path"@[0] == 'f');
}

/// Whether an object is a request that calls this tool with these arguments.
pub open spec fn calls_tool(
    request: Map<Seq<char>, Json>,
    tool: Seq<char>,
    arguments: Map<Seq<char>, Json>,
) -> bool {
    &&& request.contains_pair("method"@, Json::Text("tools/call"@))
    &&& request.contains_key("params"@)
    &&& match request["params"@] {
        Json::Object(params) => {
            &&& params.contains_pair("name"@, Json::Text(tool))
            &&& params.contains_pair("arguments"@, Json::Object(arguments))
        },
        _ => false,
    }
}

/// The git command that a request leads to first.
pub open spec fn first_command(request: Map<Seq<char>, Json>) -> Option<Seq<Seq<char>>> {
    match request_outcome(Json::Object(request)) {
        Outcome::Call { step: Step::Run { args, .. }, .. } => Some(args),
        _ => None,
    }
}

/// Each tool works in the repository that `repo_path` says, and is about the file or the commit that
/// it is given.
pub proof fn law_tools_are_given_their_arguments(
    request: Map<Seq<char>, Json>,
    arguments: Map<Seq<char>, Json>,
    repo: Seq<char>,
    x: Seq<char>,
)
    requires
        arguments.contains_pair("repo_path"@, Json::Text(repo)),
    ensures
        calls_tool(request, "git_notes_list"@, arguments) ==> first_command(request) == Some(
            seq!["-C"@, repo, "notes"@, "list"@],
        ),
        calls_tool(request, "git_notes_for_file"@, arguments) && arguments.contains_pair(
            "file_path"@,
            Json::Text(x),
        ) ==> first_command(request) == Some(
            seq!["-C"@, repo, "blame"@, "--porcelain"@, "--"@, x],
        ),
        calls_tool(request, "git_notes_show"@, arguments) && arguments.contains_pair(
            "commit"@,
            Json::Text(x),
        ) ==> first_command(request) == Some(seq!["-C"@, repo, "notes"@, "show"@, x]),
{
    lemma_names_differ();
    law_commands_are_these(repo, x);
}

/// What a request comes to is what its tool answers about the repository, the file or the commit
/// that it is given, once git has run the commands that are asked for.
pub proof fn law_requests_are_worked_off(
    request: Map<Seq<char>, Json>,
    arguments: Map<Seq<char>, Json>,
    repo: Seq<char>,
    x: Seq<char>,
    git: spec_fn(Seq<Seq<char>>) -> Reply,
    commands: nat,
)
    requires
        arguments.contains_pair("repo_path"@, Json::Text(repo)),
    ensures
        calls_tool(request, "git_notes_list"@, arguments) && commands >= commands_needed(
            Call::List { repo },
            git,
        ) ==> (request_outcome(Json::Object(request)) matches Outcome::Call { step, .. } && driven(
            step,
            git,
            commands,
        ) == Some(answer(Call::List { repo }, git))),
        calls_tool(request, "git_notes_for_file"@, arguments) && arguments.contains_pair(
            "file_path"@,
            Json::Text(x),
        ) && commands >= commands_needed(Call::ForFile { repo, file: x }, git) ==> (request_outcome(
            Json::Object(request),
        ) matches Outcome::Call { step, .. } && driven(step, git, commands) == Some(
            answer(Call::ForFile { repo, file: x }, git),
        )),
        calls_tool(request, "git_notes_show"@, arguments) && arguments.contains_pair(
            "commit"@,
            Json::Text(x),
        ) && commands >= commands_needed(Call::Show { repo, commit: x }, git) ==> (request_outcome(
            Json::Object(request),
        ) matches Outcome::Call { step, .. } && driven(step, git, commands) == Some(
            answer(Call::Show { repo, commit: x }, git),
        )),
{
    lemma_names_differ();
    if commands >= commands_needed(Call::List { repo }, git) {
        law_tools_answer(Call::List { repo }, git, commands);
    }
    if commands >= commands_needed(Call::ForFile { repo, file: x }, git) {
        law_tools_answer(Call::ForFile { repo, file: x }, git, commands);
    }
    if commands >= commands_needed(Call::Show { repo, commit: x }, git) {
        law_tools_answer(Call::Show { repo, commit: x }, git, commands);
    }
}

/// A repository that is not given, or not as a text, is the current directory; so a file or a
/// commit that is not given is empty.
pub proof fn law_arguments_may_be_missing(
    request: Map<Seq<char>, Json>,
    arguments: Map<Seq<char>, Json>,
)
    requires
        !arguments.contains_key("repo_path"@) || !(arguments["repo_path"@] is Text),
    ensures
        calls_tool(request, "git_notes_list"@, arguments) ==> first_command(request) == Some(
            seq!["-C"@, seq!['.'], "notes"@, "list"@],
        ),
        calls_tool(request, "git_notes_for_file"@, arguments) && (!arguments.contains_key(
            "file_path"@,
        ) || !(arguments["file_path"@] is Text)) ==> first_command(request) == Some(
            seq!["-C"@, seq!['.'], "blame"@, "--porcelain"@, "--"@, Seq::<char>::empty()],
        ),
        calls_tool(request, "git_notes_show"@, arguments) && (!arguments.contains_key("commit"@)
            || !(arguments["commit"@] is Text)) ==> first_command(request) == Some(
            seq!["-C"@, seq!['.'], "notes"@, "show"@, Seq::<char>::empty()],
        ),
{
    lemma_names_differ();
    reveal_strlit(".");
    reveal_strlit("");
    assert("."@ == seq!['.']);
    assert(""@ == Seq::<char>::empty());
    law_commands_are_these(seq!['.'], Seq::empty());
}

/// Without arguments at all a tool gets none of them.
pub proof fn law_all_arguments_may_be_missing(
    request: Map<Seq<char>, Json>,
    params: Map<Seq<char>, Json>,
)
    requires
        request.contains_pair("method"@, Json::Text("tools/call"@)),
        request.contains_pair("params"@, Json::Object(params)),
        !params.contains_key("arguments"@),
        params.contains_pair("name"@, Json::Text("git_notes_list"@)),
    ensures
        first_command(request) == Some(seq!["-C"@, seq!['.'], "notes"@, "list"@]),
{
    lemma_names_differ();
    reveal_strlit(".");
    assert("."@ == seq!['.']);
    law_commands_are_these(seq!['.'], Seq::empty());
}

/// Whether the tool at this place of the list on offer has this name and has to be given this
/// argument.
pub open spec fn has_to_be_given(i: int, tool: Seq<char>, argument: Seq<char>) -> bool {
    match tools_json() {
        Json::Object(result) => result.contains_key("tools"@) && match result["tools"@] {
            Json::Array(tools) => 0 <= i < tools.len() && match tools[i] {
                Json::Object(members) => {
                    &&& members.contains_pair("name"@, Json::Text(tool))
                    &&& members.contains_key("inputSchema"@)
                    &&& match members["inputSchema"@] {
                        Json::Object(schema) => schema.contains_pair(
                            "required"@,
                            Json::Array(seq![Json::Text(argument)]),
                        ),
                        _ => false,
                    }
                },
                _ => false,
            },
            _ => false,
        },
        _ => false,
    }
}

/// The argument that a tool on offer says it has to be given is the one that its first command is
/// about: it is the last word of it, and the repository the second.
pub proof fn law_required_arguments_are_used(
    i: int,
    tool: Seq<char>,
    argument: Seq<char>,
    request: Map<Seq<char>, Json>,
    arguments: Map<Seq<char>, Json>,
    repo: Seq<char>,
    x: Seq<char>,
)
    requires
        has_to_be_given(i, tool, argument),
        calls_tool(request, tool, arguments),
        arguments.contains_pair(argument, Json::Text(x)),
        arguments.contains_pair("repo_path"@, Json::Text(repo)),
    ensures
        first_command(request) matches Some(args) && args.len() > 2 && args[1] == repo
            && args[args.len() - 1] == x,
{
    lemma_names_differ();
    let tools = seq![list_tool(), file_tool(), show_tool()];
    assert(tools_json() == Json::Object(map!["tools"@ => Json::Array(tools)]));
    assert(tools[i] == list_tool() || tools[i] == file_tool() || tools[i] == show_tool());
    let given = seq![Json::Text(argument)];
    assert(given[0] == Json::Text(argument));
    assert(seq![Json::Text("file_path"@)][0] == Json::Text("file_path"@));
    assert(seq![Json::Text("commit"@)][0] == Json::Text("commit"@));
    law_tools_are_given_their_arguments(request, arguments, repo, x);
}

/// The tool for a file has to be given the file, and the tool for a commit the commit.
pub proof fn law_files_and_commits_are_required()
    ensures
        has_to_be_given(1, "git_notes_for_file"@, "file_path"@),
        has_to_be_given(2, "git_notes_show"@, "commit"@),
{
    lemma_names_differ();
    let tools = seq![list_tool(), file_tool(), show_tool()];
    assert(tools_json() == Json::Object(map!["tools"@ => Json::Array(tools)]));
}

/// A request that calls a tool which is not there leads to no command.
pub proof fn law_unknown_tools_run_nothing(
    request: Map<Seq<char>, Json>,
    tool: Seq<char>,
    arguments: Map<Seq<char>, Json>,
)
    requires
        calls_tool(request, tool, arguments),
        tool != "git_notes_list"@,
        tool != "git_notes_for_file"@,
        tool != "git_notes_show"@,
    ensures
        request_outcome(Json::Object(request)) matches Outcome::Call { step, .. } && step
            == Step::Done(Err("Unknown tool: "@ + tool)),
{
    lemma_names_differ();
}

/// The identifier of a request, or null.
pub open spec fn identifier(request: Map<Seq<char>, Json>) -> Json {
    if request.contains_key("id"@) {
        request["id"@]
    } else {
        Json::Null
    }
}

/// Whether a value is a reply to the request with this identifier that holds this under this name,
/// and nothing else.
pub open spec fn is_reply(reply: Json, id: Json, key: Seq<char>, body: Json) -> bool {
    match reply {
        Json::Object(members) => {
            &&& members.dom() == set!["jsonrpc"@, "id"@, key]
            &&& members["jsonrpc"@] == Json::Text(seq!['2', '.', '0'])
            &&& members["id"@] == id
            &&& members[key] == body
        },
        _ => false,
    }
}

/// A reply is made of the protocol's version, the identifier and its result or error.
pub proof fn law_replies_are_made_of_three_members(id: Json, body: Json)
    ensures
        is_reply(reply_json(id, "result"@, body), id, "result"@, body),
        is_reply(reply_json(id, "error"@, body), id, "error"@, body),
{
    lemma_names_differ();
    reveal_strlit("2.0");
    assert("2.0"@ == seq!['2', '.', '0']);
    let result = reply_json(id, "result"@, body)->Object_0;
    let error = reply_json(id, "error"@, body)->Object_0;
    assert(result.dom() =~= set!["jsonrpc"@, "id"@, "result"@]);
    assert(error.dom() =~= set!["jsonrpc"@, "id"@, "error"@]);
}

/// A request to open a session, for the tools or for a sign of life is answered with the identifier
/// that it has, and so is one for anything else, with the error that there is no such method.
pub proof fn law_methods_are_answered(
    request: Map<Seq<char>, Json>,
    method: Seq<char>,
)
    requires
        request.contains_pair("method"@, Json::Text(method)),
    ensures
        method == "initialize"@ ==> request_outcome(Json::Object(request)) == Outcome::Reply(
            printed_json(
                reply_json(identifier(request), "result"@, server_json()),
            ),
        ),
        method == "tools/list"@ ==> request_outcome(Json::Object(request)) == Outcome::Reply(
            printed_json(reply_json(identifier(request), "result"@, tools_json())),
        ),
        method == "ping"@ ==> request_outcome(Json::Object(request)) == Outcome::Reply(
            printed_json(
                reply_json(identifier(request), "result"@, Json::Object(Map::empty())),
            ),
        ),
        method == "notifications/initialized"@ ==> request_outcome(Json::Object(request))
            is Ignored,
        method == "tools/call"@ ==> request_outcome(Json::Object(request)) is Call,
        method != "initialize"@ && method != "tools/list"@ && method != "ping"@ && method
            != "notifications/initialized"@ && method != "tools/call"@ ==> request_outcome(
            Json::Object(request),
        ) == Outcome::Reply(
            printed_json(
                reply_json(
                    identifier(request),
                    "error"@,
                    Json::Object(
                        map![
                            "code"@ => Json::Int(-32601),
                            "message"@ => Json::Text("Method not found: "@ + method),
                        ],
                    ),
                ),
            ),
        ),
        request_outcome(Json::Object(request)) matches Outcome::Call { id, .. } ==> id
            == identifier(request),
{
    lemma_names_differ();
}

/// What is no object, or asks for nothing, is told that there is no such method; a line that is no
/// JSON is passed over, and any other is a request.
pub proof fn law_odd_lines_are_handled(request: Json)
    ensures
        !(request is Object) ==> request_outcome(request) == Outcome::Reply(
            printed_json(
                reply_json(
                    Json::Null,
                    "error"@,
                    Json::Object(
                        map![
                            "code"@ => Json::Int(-32601),
                            "message"@ => Json::Text("Method not found: "@),
                        ],
                    ),
                ),
            ),
        ),
        line_outcome(None) is Ignored,
        line_outcome(Some(request)) == request_outcome(request),
{
    lemma_names_differ();
    reveal_strlit("");
    assert(""@.len() == 0);
    assert("Method not found: "@ + ""@ == "Method not found: "@);
}

/// A request that does not say what it asks for, or not as a text, is told so.
pub proof fn law_requests_for_nothing_are_answered(request: Map<Seq<char>, Json>)
    requires
        !request.contains_key("method"@) || !(request["method"@] is Text),
    ensures
        request_outcome(Json::Object(request)) == Outcome::Reply(
            printed_json(
                reply_json(
                    identifier(request),
                    "error"@,
                    Json::Object(
                        map![
                            "code"@ => Json::Int(-32601),
                            "message"@ => Json::Text("Method not found: "@),
                        ],
                    ),
                ),
            ),
        ),
{
    lemma_names_differ();
    reveal_strlit("");
    assert(""@.len() == 0);
    assert("Method not found: "@ + ""@ == "Method not found: "@);
}

/// Whether what a tool came to holds this text, and nothing else to read.
pub open spec fn holds_text(result: Json, text: Seq<char>) -> bool {
    match result {
        Json::Object(members) => members.contains_key("content"@) && match members["content"@] {
            Json::Array(parts) => parts.len() == 1 && match parts[0] {
                Json::Object(part) => {
                    &&& part.dom() == set!["type"@, "text"@]
                    &&& part["type"@] == Json::Text("text"@)
                    &&& part["text"@] == Json::Text(text)
                },
                _ => false,
            },
            _ => false,
        },
        _ => false,
    }
}

/// What a tool answers is handed on as it is, and why it failed behind a word that says so; only
/// failures are marked.
pub proof fn law_answers_are_handed_on(t: Seq<char>)
    ensures
        holds_text(tool_result_json(Ok(t)), t),
        holds_text(tool_result_json(Err(t)), "Error: "@ + t),
        tool_result_json(Ok(t)) matches Json::Object(members) && members.dom() == set![
            "content"@,
        ],
        tool_result_json(Err(t)) matches Json::Object(members) && members.dom() == set![
            "content"@,
            "isError"@,
        ] && members["isError"@] == Json::Bool(true),
{
    lemma_names_differ();
    let good = content_json(t)->Array_0[0]->Object_0;
    let bad = content_json("Error: "@ + t)->Array_0[0]->Object_0;
    assert(good.dom() =~= set!["type"@, "text"@]);
    assert(bad.dom() =~= set!["type"@, "text"@]);
    assert(tool_result_json(Ok(t))->Object_0.dom() =~= set!["content"@]);
    assert(tool_result_json(Err(t))->Object_0.dom() =~= set!["content"@, "isError"@]);
}

/// Whether the tool at this place of the list on offer has this name and this description, and takes
/// these arguments, each a text.
pub open spec fn is_on_offer(
    i: int,
    tool: Seq<char>,
    description: Seq<char>,
    arguments: Set<Seq<char>>,
) -> bool {
    match tools_json() {
        Json::Object(result) => result.contains_key("tools"@) && match result["tools"@] {
            Json::Array(tools) => tools.len() == 3 && 0 <= i < 3 && match tools[i] {
                Json::Object(members) => {
                    &&& members.contains_pair("name"@, Json::Text(tool))
                    &&& members.contains_pair("description"@, Json::Text(description))
                    &&& members.contains_key("inputSchema"@)
                    &&& match members["inputSchema"@] {
                        Json::Object(schema) => schema.contains_key("properties"@)
                            && match schema["properties"@] {
                            Json::Object(properties) => {
                                &&& properties.dom() == arguments
                                &&& forall|a: Seq<char>| #[trigger]
                                    arguments.contains(a) ==> match properties[a] {
                                        Json::Object(argument) => argument.contains_pair(
                                            "type"@,
                                            Json::Text("string"@),
                                        ),
                                        _ => false,
                                    }
                            },
                            _ => false,
                        },
                        _ => false,
                    }
                },
                _ => false,
            },
            _ => false,
        },
        _ => false,
    }
}

/// These are the tools on offer.
pub proof fn law_three_tools_are_on_offer()
    ensures
        is_on_offer(
            0,
            "git_notes_list"@,
            "List all git notes in the repository. Returns each note with its commit SHA, commit subject, and note content."@,
            set!["repo_path"@],
        ),
        is_on_offer(
            1,
            "git_notes_for_file"@,
            "Show git notes for commits that touched a specific file. Uses git blame to map file lines to commits, then shows any notes attached to those commits."@,
            set!["repo_path"@, "file_path"@],
        ),
        is_on_offer(
            2,
            "git_notes_show"@,
            "Show the git note attached to a specific commit."@,
            set!["repo_path"@, "commit"@],
        ),
{
    lemma_names_differ();
    let tools = seq![list_tool(), file_tool(), show_tool()];
    assert(tools_json() == Json::Object(map!["tools"@ => Json::Array(tools)]));
    let list = map![
        "repo_path"@ => argument_json(
            "Path to the git repository (defaults to current directory)"@,
        ),
    ];
    let file = map![
        "repo_path"@ => argument_json("Path to the git repository"@),
        "file_path"@ => argument_json("Path to the file (relative to repo root)"@),
    ];
    let show = map![
        "repo_path"@ => argument_json("Path to the git repository"@),
        "commit"@ => argument_json("Commit SHA or ref to show the note for"@),
    ];
    assert(list.dom() =~= set!["repo_path"@]);
    assert(file.dom() =~= set!["repo_path"@, "file_path"@]);
    assert(show.dom() =~= set!["repo_path"@, "commit"@]);
}

} // verus!
