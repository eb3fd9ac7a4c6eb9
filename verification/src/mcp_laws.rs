//! What holds of every request and its reply.

use crate::git::Reply;
use crate::json::{field, printed_json, text_field, Json};
use crate::mcp::{
    call_in, direct_reply, field_or_empty, file_tool, id_in, list_tool, method_in, reply_json,
    request_outcome, show_tool, tool_result_json, tools_json, Outcome,
};
use crate::tool_laws::{answer, commands_needed, driven, law_tools_answer};
use vstd::prelude::*;

verus! {

/// Whether a value is a reply to the request with an identifier: it names the protocol, repeats
/// the identifier, and holds either a result or an error.
pub open spec fn is_reply_to(reply: Json, id: Json) -> bool {
    &&& field(reply, "jsonrpc"@) == Some(Json::Text("2.0"@))
    &&& field(reply, "id"@) == Some(id)
    &&& field(reply, "result"@) is Some <==> field(reply, "error"@) is None
}

/// Whether a tool of this name is on offer.
pub open spec fn is_offered(name: Seq<char>) -> bool {
    exists|i: int| #[trigger] offered_at(i, name)
}

/// Whether the tool at this place of the list has this name.
pub open spec fn offered_at(i: int, name: Seq<char>) -> bool {
    match field(tools_json(), "tools"@) {
        Some(Json::Array(tools)) => 0 <= i < tools.len() && field(tools[i], "name"@) == Some(
            Json::Text(name),
        ),
        _ => false,
    }
}

proof fn lemma_member_names()
    ensures
        "jsonrpc"@ != "id"@,
        "jsonrpc"@ != "result"@,
        "jsonrpc"@ != "error"@,
        "id"@ != "result"@,
        "id"@ != "error"@,
        "result"@ != "error"@,
{
    reveal_strlit("jsonrpc");
    reveal_strlit("id");
    reveal_strlit("result");
    reveal_strlit("error");
    assert("jsonrpc"@.len() == 7 && "id"@.len() == 2 && "result"@.len() == 6 && "error"@.len()
        == 5);
}

/// A reply with a result or an error is a reply to the request whose identifier it is given.
pub proof fn law_replies_repeat_the_identifier(id: Json, body: Json)
    ensures
        is_reply_to(reply_json(id, "result"@, body), id),
        is_reply_to(reply_json(id, "error"@, body), id),
{
    lemma_member_names();
}

/// Every request is answered, but for the one notification: with a line that is a reply to it, or
/// by calling a tool, whatever comes of which makes a reply to it.
pub proof fn law_requests_are_answered(request: Json, result: Result<Seq<char>, Seq<char>>)
    ensures
        request_outcome(request) is Ignored <==> method_in(request)
            == "notifications/initialized"@,
        match request_outcome(request) {
            Outcome::Ignored => true,
            Outcome::Reply(text) => text == printed_json(direct_reply(request)) && is_reply_to(
                direct_reply(request),
                id_in(request),
            ),
            Outcome::Call { id, .. } => is_reply_to(
                reply_json(id, "result"@, tool_result_json(result)),
                id_in(request),
            ),
        },
{
    lemma_member_names();
}

/// A tool that is called by a name can be run if and only if a tool of that name is on offer.
pub proof fn law_offered_tools_can_be_called(params: Json)
    ensures
        call_in(params) is Unknown <==> !is_offered(text_field(params, "name"@, ""@)),
{
    let name = text_field(params, "name"@, ""@);
    reveal_strlit("name");
    reveal_strlit("description");
    reveal_strlit("inputSchema");
    assert("name"@.len() == 4 && "description"@.len() == 11 && "inputSchema"@.len() == 11);
    assert(field(list_tool(), "name"@) == Some(Json::Text("git_notes_list"@)));
    assert(field(file_tool(), "name"@) == Some(Json::Text("git_notes_for_file"@)));
    assert(field(show_tool(), "name"@) == Some(Json::Text("git_notes_show"@)));
    let tools = seq![list_tool(), file_tool(), show_tool()];
    assert(field(tools_json(), "tools"@) == Some(Json::Array(tools)));
    if call_in(params) is List {
        assert(offered_at(0, name));
    } else if call_in(params) is ForFile {
        assert(offered_at(1, name));
    } else if call_in(params) is Show {
        assert(offered_at(2, name));
    } else if is_offered(name) {
        let i = choose|i: int| #[trigger] offered_at(i, name);
        assert(i == 0 || i == 1 || i == 2);
    }
}

/// A request that calls a tool comes to what the tool answers, once git has run the commands that
/// it asks for.
pub proof fn law_called_tools_answer(
    request: Json,
    git: spec_fn(Seq<Seq<char>>) -> Reply,
    commands: nat,
)
    requires
        method_in(request) == "tools/call"@,
        commands >= commands_needed(call_in(field_or_empty(request, "params"@)), git),
    ensures
        match request_outcome(request) {
            Outcome::Call { step, .. } => driven(step, git, commands) == Some(
                answer(call_in(field_or_empty(request, "params"@)), git),
            ),
            _ => false,
        },
{
    reveal_strlit("tools/call");
    reveal_strlit("notifications/initialized");
    assert("tools/call"@.len() == 10 && "notifications/initialized"@.len() == 25);
    law_tools_answer(call_in(field_or_empty(request, "params"@)), git, commands);
}

} // verus!
