//! The notes of a repository and the blame of a file, kept for a while: looking them up, fetching
//! what is not there, and keeping what was fetched.
//!
//! Whoever looks something up runs the git commands that are asked for, and hands back the replies.

use crate::cache::{
    cached_blame, cached_notes, is_kept_after, law_kept_blame_is_found, BlameCache, NotesCache,
    BLAME_CACHE_TTL_SECS, NANOS_PER_SEC, NOTES_CACHE_TTL_SECS,
};
use crate::fetch::{
    after_batch, after_blame, after_list, blame_args, fetch_all_notes, fetch_blame, finish_notes,
    notes_list_args, BlobRequest, Fetch, NotesFetch,
};
use crate::git::{GitReply, Reply};
use crate::notes::{objects_of, Notes};
use crate::reply_laws::law_commands_are_these;
use crate::text::{pair_texts, texts};
use crate::tools::{blame_command, list_command};
use std::sync::Arc;
use vstd::prelude::*;

verus! {

/// How looking up the notes of a repository goes on.
pub enum NotesStep {
    /// These are the notes.
    Ready(Arc<Notes>),
    /// Git is to list the notes. The reply is for [`keep_listed_notes`].
    List(Vec<String>),
    /// Git is to read the blobs of the notes. The reply is for [`keep_notes`].
    Read(BlobRequest),
}

/// The mathematical reading of a [`NotesStep`].
pub enum NotesStepView {
    Ready(Map<Seq<char>, Seq<char>>),
    List(Seq<Seq<char>>),
    Read { args: Seq<Seq<char>>, input: Seq<char>, pairs: Seq<(Seq<char>, Seq<char>)> },
}

impl View for NotesStep {
    type V = NotesStepView;

    open spec fn view(&self) -> NotesStepView {
        match *self {
            NotesStep::Ready(notes) => NotesStepView::Ready(notes@),
            NotesStep::List(args) => NotesStepView::List(texts(args@)),
            NotesStep::Read(request) => NotesStepView::Read {
                args: texts(request.args@),
                input: request.input@,
                pairs: pair_texts(request.blob_to_object@),
            },
        }
    }
}

/// How looking up the blame of a file goes on.
pub enum BlameStep {
    /// This is the blame: the commit of each line.
    Ready(Vec<String>),
    /// Git is to blame the file. The reply is for [`keep_blame`].
    Run(Vec<String>),
}

/// The mathematical reading of a [`BlameStep`].
pub enum BlameStepView {
    Ready(Seq<Seq<char>>),
    Run(Seq<Seq<char>>),
}

impl View for BlameStep {
    type V = BlameStepView;

    open spec fn view(&self) -> BlameStepView {
        match *self {
            BlameStep::Ready(commits) => BlameStepView::Ready(texts(commits@)),
            BlameStep::Run(args) => BlameStepView::Run(texts(args@)),
        }
    }
}

/// Looking up the notes of a repository: what is kept of it, as long as it is good, and else what
/// git lists.
pub open spec fn notes_lookup(
    slot: Option<(Seq<char>, Map<Seq<char>, Seq<char>>, u64)>,
    repo_root: Seq<char>,
    now: u64,
) -> NotesStepView {
    match cached_notes(slot, repo_root, now) {
        Some(notes) => NotesStepView::Ready(notes),
        None => NotesStepView::List(list_command(repo_root)),
    }
}

/// Looking up the blame of a file: what is kept of it, as long as it is good, and else what git
/// blames.
pub open spec fn blame_lookup(
    blames: Map<(Seq<char>, Seq<char>), (Seq<Seq<char>>, u64)>,
    file: (Seq<char>, Seq<char>),
    now: u64,
) -> BlameStepView {
    match cached_blame(blames, file, now) {
        Some(commits) => BlameStepView::Ready(commits),
        None => BlameStepView::Run(blame_command(file.0, file.1)),
    }
}

/// Looks up the notes of a repository.
pub fn get_all_notes(cache: &NotesCache, repo_root: &str, now: u64) -> (r: NotesStep)
    ensures
        r@ == notes_lookup(cache@, repo_root@, now),
{
    match cache.get(repo_root, now) {
        Some(notes) => NotesStep::Ready(notes),
        None => NotesStep::List(notes_list_args(repo_root)),
    }
}

/// Goes on after git has answered with the list of notes. Where there is nothing to read, there
/// are no notes, and that is kept.
pub fn keep_listed_notes(
    cache: &mut NotesCache,
    repo_root: &str,
    reply: &GitReply,
    now: u64,
) -> (r: NotesStep)
    ensures
        match after_list(repo_root@, reply@) {
            Fetch::Done(notes) => r@ == NotesStepView::Ready(notes) && final(cache)@ == Some(
                (repo_root@, notes, now),
            ),
            Fetch::Read { args, input, pairs } => r@ == (NotesStepView::Read {
                args,
                input,
                pairs,
            }) && final(cache)@ == old(cache)@,
        },
{
    match fetch_all_notes(repo_root, reply) {
        NotesFetch::Done(notes) => {
            let notes = Arc::new(notes);
            cache.put(repo_root.to_owned(), notes.clone(), now);
            NotesStep::Ready(notes)
        },
        NotesFetch::Read(request) => NotesStep::Read(request),
    }
}

/// Goes on after git has answered with the contents of the blobs, and keeps the notes.
pub fn keep_notes(
    cache: &mut NotesCache,
    repo_root: &str,
    blob_to_object: &Vec<(String, String)>,
    reply: &GitReply,
    now: u64,
) -> (r: Arc<Notes>)
    ensures
        r@ == after_batch(objects_of(blob_to_object@), reply@),
        final(cache)@ == Some((repo_root@, r@, now)),
{
    let notes = Arc::new(finish_notes(blob_to_object, reply));
    cache.put(repo_root.to_owned(), notes.clone(), now);
    notes
}

/// Looks up the blame of a file.
pub fn blame_file(cache: &BlameCache, repo_root: &str, file_path: &str, now: u64) -> (r: BlameStep)
    requires
        cache.wf(),
    ensures
        r@ == blame_lookup(cache@, (repo_root@, file_path@), now),
{
    match cache.get(repo_root, file_path, now) {
        Some(commits) => BlameStep::Ready(commits),
        None => BlameStep::Run(blame_args(repo_root, file_path)),
    }
}

/// Goes on after git has answered with the blame of a file, and keeps the blame.
pub fn keep_blame(
    cache: &mut BlameCache,
    repo_root: &str,
    file_path: &str,
    reply: &GitReply,
    now: u64,
) -> (r: Vec<String>)
    requires
        old(cache).wf(),
    ensures
        texts(r@) == after_blame(reply@),
        final(cache).wf(),
        is_kept_after(
            old(cache)@,
            final(cache)@,
            (repo_root@, file_path@),
            after_blame(reply@),
            now,
        ),
{
    let commits = fetch_blame(reply);
    let copy = commits.clone();
    assert(texts(copy@) =~= texts(commits@));
    cache.put(repo_root.to_owned(), file_path.to_owned(), copy, now);
    commits
}

/// The notes that were fetched last are found again, without git, for as long as they are kept; and
/// for no other repository.
pub proof fn law_fetched_notes_are_reused(
    fetched: Seq<char>,
    objects: Seq<Seq<char>>,
    reply: Reply,
    now: u64,
    repo_root: Seq<char>,
    later: u64,
)
    requires
        now <= later,
    ensures
        notes_lookup(Some((fetched, after_batch(objects, reply), now)), repo_root, later) == (
        if repo_root == fetched && later - now < NOTES_CACHE_TTL_SECS * NANOS_PER_SEC {
            NotesStepView::Ready(after_batch(objects, reply))
        } else {
            NotesStepView::List(list_command(repo_root))
        }),
{
}

/// The blame that was fetched last is found again, without git, for as long as it is kept.
pub proof fn law_fetched_blame_is_reused(
    before: Map<(Seq<char>, Seq<char>), (Seq<Seq<char>>, u64)>,
    after: Map<(Seq<char>, Seq<char>), (Seq<Seq<char>>, u64)>,
    file: (Seq<char>, Seq<char>),
    reply: Reply,
    now: u64,
    later: u64,
)
    requires
        is_kept_after(before, after, file, after_blame(reply), now),
        now <= later,
    ensures
        blame_lookup(after, file, later) == (if later - now < BLAME_CACHE_TTL_SECS
            * NANOS_PER_SEC {
            BlameStepView::Ready(after_blame(reply))
        } else {
            BlameStepView::Run(blame_command(file.0, file.1))
        }),
{
    law_kept_blame_is_found(before, after, file, after_blame(reply), now, later);
}

/// What is not kept is asked of git, in the repository that it is wanted of.
pub proof fn law_git_is_asked_for_what_is_not_kept(
    blames: Map<(Seq<char>, Seq<char>), (Seq<Seq<char>>, u64)>,
    repo_root: Seq<char>,
    file_path: Seq<char>,
    now: u64,
)
    requires
        !blames.contains_key((repo_root, file_path)),
    ensures
        notes_lookup(None, repo_root, now) == NotesStepView::List(
            seq!["-C"@, repo_root, "notes"@, "list"@],
        ),
        blame_lookup(blames, (repo_root, file_path), now) == BlameStepView::Run(
            seq!["-C"@, repo_root, "blame"@, "--porcelain"@, "--"@, file_path],
        ),
{
    law_commands_are_these(repo_root, file_path);
}

} // verus!
