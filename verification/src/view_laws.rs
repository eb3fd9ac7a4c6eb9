//! The mathematical readings of what goes in and comes out leave nothing out: each is the thing
//! itself, part by part.

use crate::annotate::{line_notes, opt_note, LineNote};
use crate::fetch::{BlobRequest, Fetch, NotesFetch};
use crate::git::{opt_text, GitOutput, GitReply, Reply};
use crate::hints::{hint_views, NoteHint};
use crate::json::{json_of, json_views, Json};
use crate::launch::{
    asset_texts, command_texts, download_texts, release_info, unit_text, Asset, Download, Event,
    Launch, LaunchEvent, LaunchStep, Release, ReleaseQuery, ServerCommand,
};
use crate::lookup::{BlameStep, BlameStepView, NotesStep, NotesStepView};
use crate::mcp::{id_json, Handled, Outcome};
use crate::notes::{objects_of, Notes};
use crate::paths::file_texts;
use crate::text::{pair_texts, texts};
use crate::tools::{result_text, Call, Step, ToolCall, ToolState, ToolStep};
use serde_json::Value;
use std::sync::Arc;
use vstd::prelude::*;

verus! {

/// Texts are read one by one, as they are and in their order.
pub proof fn law_texts_are_read_one_by_one(
    v: Seq<String>,
    pairs: Seq<(String, String)>,
    i: int,
    j: int,
)
    ensures
        texts(v).len() == v.len(),
        0 <= i < v.len() ==> texts(v)[i] == v[i]@,
        pair_texts(pairs).len() == pairs.len(),
        0 <= j < pairs.len() ==> pair_texts(pairs)[j].0 == pairs[j].0@ && pair_texts(pairs)[j].1
            == pairs[j].1@,
        objects_of(pairs).len() == pairs.len(),
        0 <= j < pairs.len() ==> objects_of(pairs)[j] == pairs[j].1@,
{
}

/// So are texts that may be missing or may be errors.
pub proof fn law_optional_texts_are_read(s: String, t: String)
    ensures
        opt_text(Some(s)) == Some(s@),
        opt_text(None) is None,
        result_text(Ok(s)) == Ok::<Seq<char>, Seq<char>>(s@),
        result_text(Err(s)) == Err::<Seq<char>, Seq<char>>(s@),
        file_texts(Some((s, t))) == Some((s@, t@)),
        file_texts(None) is None,
{
}

/// A reply is read with its outcome and every byte of both outputs.
pub proof fn law_replies_are_read_whole(output: GitOutput, reason: String)
    ensures
        GitReply::Exited(output)@ matches Reply::Exited { success, stdout, stderr } && success
            == output.success && stdout == output.stdout@ && stderr == output.stderr@,
        GitReply::NotStarted(reason)@ == Reply::NotStarted(reason@),
{
}

/// A note on a line is read with the line's number, the commit and the note.
pub proof fn law_line_notes_are_read_whole(v: Seq<(u32, LineNote)>, i: int, note: LineNote)
    ensures
        line_notes(v).len() == v.len(),
        0 <= i < v.len() ==> line_notes(v)[i].0 == v[i].0 && line_notes(v)[i].1.0 == v[i].1.commit@
            && line_notes(v)[i].1.1 == v[i].1.note@,
        opt_note(Some(note)) matches Some(read) && read.0 == note.commit@ && read.1 == note.note@,
        opt_note(None) is None,
        note@.0 == note.commit@,
        note@.1 == note.note@,
{
}

/// A hint is read with all that is displayed of it.
pub proof fn law_hints_are_read_whole(v: Seq<NoteHint>, i: int)
    ensures
        hint_views(v).len() == v.len(),
        0 <= i < v.len() ==> hint_views(v)[i].line == v[i].line && hint_views(v)[i].character
            == v[i].character && hint_views(v)[i].label == v[i].label@ && hint_views(v)[i].tooltip
            == v[i].tooltip@ && hint_views(v)[i].padding_left == v[i].padding_left,
{
}

/// What fetching asks for is read with its arguments, its input and its pairs.
pub proof fn law_requests_for_blobs_are_read_whole(notes: Notes, request: BlobRequest)
    ensures
        NotesFetch::Done(notes)@ == Fetch::Done(notes@),
        NotesFetch::Read(request)@ matches Fetch::Read { args, input, pairs } && args == texts(
            request.args@,
        ) && input == request.input@ && pairs == pair_texts(request.blob_to_object@),
{
}

/// The steps of looking something up are read with what they hold.
pub proof fn law_lookups_are_read_whole(
    notes: Arc<Notes>,
    args: Vec<String>,
    request: BlobRequest,
)
    ensures
        NotesStep::Ready(notes)@ == NotesStepView::Ready(notes@),
        NotesStep::List(args)@ == NotesStepView::List(texts(args@)),
        NotesStep::Read(request)@ matches NotesStepView::Read { args, input, pairs } && args
            == texts(request.args@) && input == request.input@ && pairs == pair_texts(
            request.blob_to_object@,
        ),
        BlameStep::Ready(args)@ == BlameStepView::Ready(texts(args@)),
        BlameStep::Run(args)@ == BlameStepView::Run(texts(args@)),
{
}

/// The calls and the steps of tools are read with what they hold.
pub proof fn law_tools_are_read_whole(
    a: String,
    b: String,
    args: Vec<String>,
    state: ToolState,
    result: Result<String, String>,
)
    ensures
        (ToolCall::List { repo: a })@ == (Call::List { repo: a@ }),
        (ToolCall::ForFile { repo: a, file: b })@ == (Call::ForFile { repo: a@, file: b@ }),
        (ToolCall::Show { repo: a, commit: b })@ == (Call::Show { repo: a@, commit: b@ }),
        (ToolCall::Unknown { name: a })@ == (Call::Unknown { name: a@ }),
        (ToolStep::Run { args, state })@ == (Step::Run { args: texts(args@), state: state@ }),
        ToolStep::Done(result)@ == Step::Done(result_text(result)),
{
}

/// What becomes of a line is read with the reply or the call.
pub proof fn law_outcomes_are_read_whole(
    text: String,
    id: Option<Value>,
    value: Value,
    step: ToolStep,
    values: Seq<Value>,
    i: int,
)
    ensures
        Handled::Ignored@ is Ignored,
        Handled::Reply(text)@ == Outcome::Reply(text@),
        (Handled::Call { id, step })@ == (Outcome::Call { id: id_json(id), step: step@ }),
        id_json(Some(value)) == json_of(value),
        id_json(None) == Json::Null,
        json_views(values).len() == values.len(),
        0 <= i < values.len() ==> json_views(values)[i] == json_of(values[i]),
{
}

/// What a launch is told is read whole.
pub proof fn law_launch_events_are_read_whole(
    path: String,
    release: Release,
    assets: Seq<Asset>,
    i: int,
)
    ensures
        LaunchEvent::Found(Some(path))@ == Event::Found(Some(path@)),
        LaunchEvent::Found(None)@ == Event::Found(None),
        LaunchEvent::Fetched(Err(path))@ == Event::Fetched(Err(path@)),
        LaunchEvent::Fetched(Ok(release))@ matches Event::Fetched(Ok(info)) && info.version
            == release.version@ && info.assets == asset_texts(release.assets@),
        LaunchEvent::Announced@ == Event::Announced,
        LaunchEvent::Unpacked(Ok(()))@ == Event::Unpacked(Ok(())),
        LaunchEvent::Unpacked(Err(path))@ == Event::Unpacked(Err(path@)),
        LaunchEvent::Allowed(Ok(()))@ == Event::Allowed(Ok(())),
        LaunchEvent::Allowed(Err(path))@ == Event::Allowed(Err(path@)),
        asset_texts(assets).len() == assets.len(),
        0 <= i < assets.len() ==> asset_texts(assets)[i].0 == assets[i].name@ && asset_texts(
            assets,
        )[i].1 == assets[i].download_url@,
        release_info(Err(path)) matches Err(reason) && reason == path@,
        unit_text(Err(path)) == Err::<(), Seq<char>>(path@),
{
}

/// What a launch asks for is read whole.
pub proof fn law_launch_steps_are_read_whole(
    name: String,
    target: String,
    query: ReleaseQuery,
    download: Download,
    command: ServerCommand,
)
    ensures
        (LaunchStep::FindBinary { name })@ == (Launch::FindBinary { name: name@ }),
        LaunchStep::AskPlatform@ == Launch::AskPlatform,
        (LaunchStep::FetchRelease { query, target })@ == (Launch::FetchRelease {
            query: query@,
            target: target@,
        }),
        query@.repository == query.repository@,
        query@.require_assets == query.require_assets,
        query@.pre_release == query.pre_release,
        (LaunchStep::Announce { server: name, download })@ == (Launch::Announce {
            server: name@,
            download: download@,
        }),
        LaunchStep::Fetch(download)@ == Launch::Fetch(download@),
        download@.url == download.url@,
        download@.dir == download.dir@,
        download@.file_type == download.file_type,
        (LaunchStep::MakeExecutable { path: name })@ == (Launch::MakeExecutable { path: name@ }),
        LaunchStep::Done(Ok(command))@ == Launch::Done(Ok(command@)),
        LaunchStep::Done(Err(name))@ == Launch::Done(Err(name@)),
        command@.command == command.command@,
        command@.args == texts(command.args@),
        command@.shell_env == command.shell_env,
        download_texts(Ok(download)) matches Ok(read) && read == download@,
        command_texts(Ok(command)) matches Ok(read) && read == command@,
{
}

} // verus!
