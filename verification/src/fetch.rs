//! Fetching the notes of a repository and the blame of a file, one git command at a time.

use crate::blame::{blamed_lines, parse_blame_porcelain};
use crate::git::{
    command_in, git, git_command, printed, printed_trimmed, run_git, GitReply, Reply,
};
use crate::git_formats::{
    batch_bytes, law_batch_reads_back, law_trimmed_notes_list_reads_back, list_text, with_contents,
};
use crate::lines::{chomp, lemma_lines_concat, lemma_lines_cons, lines};
use crate::notes::{
    batch_notes, listed_pairs, objects_of, parse_batch, parse_notes_list, Notes,
};
use crate::text::{pair_texts, texts};
use crate::tools::{blame_command, list_command};
use crate::words::{is_white, is_word};
use vstd::prelude::*;
use vstd::string::*;

verus! {

/// The contents of the blobs that are to be read: the command that reads them, what it is to be
/// given on its input, and the object that each blob annotates.
pub struct BlobRequest {
    pub args: Vec<String>,
    pub input: String,
    pub blob_to_object: Vec<(String, String)>,
}

/// How fetching goes on after the notes have been listed.
pub enum NotesFetch {
    /// There is nothing more to read.
    Done(Notes),
    /// The contents of these blobs are to be read.
    Read(BlobRequest),
}

/// The mathematical reading of a [`NotesFetch`].
pub enum Fetch {
    Done(Map<Seq<char>, Seq<char>>),
    Read { args: Seq<Seq<char>>, input: Seq<char>, pairs: Seq<(Seq<char>, Seq<char>)> },
}

impl View for NotesFetch {
    type V = Fetch;

    open spec fn view(&self) -> Fetch {
        match *self {
            NotesFetch::Done(notes) => Fetch::Done(notes@),
            NotesFetch::Read(request) => Fetch::Read {
                args: texts(request.args@),
                input: request.input@,
                pairs: pair_texts(request.blob_to_object@),
            },
        }
    }
}

/// The command that reads the contents of the blobs that stand on its input.
pub open spec fn batch_command(repo_root: Seq<char>) -> Seq<Seq<char>> {
    command_in(repo_root, seq!["cat-file"@, "--batch"@])
}

/// The blobs of some pairs, each on a line of its own.
pub open spec fn blob_lines(pairs: Seq<(Seq<char>, Seq<char>)>) -> Seq<char>
    decreases pairs.len(),
{
    if pairs.len() == 0 {
        Seq::empty()
    } else {
        blob_lines(pairs.drop_last()) + pairs.last().0 + "\n"@
    }
}

/// How fetching goes on after git has answered with the list of notes.
pub open spec fn after_list(repo_root: Seq<char>, reply: Reply) -> Fetch {
    match printed_trimmed(reply) {
        Some(list) if listed_pairs(lines(list)).len() > 0 => Fetch::Read {
            args: batch_command(repo_root),
            input: blob_lines(listed_pairs(lines(list))),
            pairs: listed_pairs(lines(list)),
        },
        _ => Fetch::Done(Map::empty()),
    }
}

/// The notes once git has answered with the contents of the blobs.
pub open spec fn after_batch(objects: Seq<Seq<char>>, reply: Reply) -> Map<Seq<char>, Seq<char>> {
    match reply {
        Reply::Exited { success, stdout, .. } if success => batch_notes(
            stdout,
            objects,
            Map::empty(),
        ),
        _ => Map::empty(),
    }
}

/// The commits of the lines of a file, once git has answered with its blame.
pub open spec fn after_blame(reply: Reply) -> Seq<Seq<char>> {
    match printed(reply) {
        Some(text) => blamed_lines(text),
        None => Seq::empty(),
    }
}

/// The command that lists the notes of a repository.
pub fn notes_list_args(repo_root: &str) -> (r: Vec<String>)
    ensures
        texts(r@) == list_command(repo_root@),
{
    let args = git_command(repo_root, &["notes", "list"]);
    assert(texts(args@) == list_command(repo_root@));
    args
}

/// The command that blames a file.
pub fn blame_args(repo_root: &str, file_path: &str) -> (r: Vec<String>)
    ensures
        texts(r@) == blame_command(repo_root@, file_path@),
{
    let args = git_command(repo_root, &["blame", "--porcelain", "--", file_path]);
    assert(texts(args@) == blame_command(repo_root@, file_path@));
    args
}

/// The blobs of some pairs, each on a line of its own.
fn write_blobs(pairs: &Vec<(String, String)>) -> (r: String)
    ensures
        r@ == blob_lines(pair_texts(pairs@)),
{
    let mut r = String::new();
    let mut i: usize = 0;
    let ghost all = pair_texts(pairs@);
    while i < pairs.len()
        invariant
            i <= pairs@.len(),
            all == pair_texts(pairs@),
            r@ == blob_lines(all.take(i as int)),
        decreases pairs@.len() - i,
    {
        r.append(pairs[i].0.as_str());
        r.append("\n");
        assert(all.take(i + 1).drop_last() == all.take(i as int));
        assert(all.take(i + 1).last() == all[i as int]);
        i += 1;
    }
    assert(all.take(i as int) == all);
    r
}

/// Goes on after git has answered with the list of notes: reads their blobs, if there are any.
pub fn fetch_all_notes(repo_root: &str, reply: &GitReply) -> (r: NotesFetch)
    ensures
        r@ == after_list(repo_root@, reply@),
{
    let list = match git(reply) {
        Some(list) => list,
        None => {
            return NotesFetch::Done(Notes::new());
        },
    };
    let blob_to_object = parse_notes_list(list.as_str());
    if blob_to_object.len() == 0 {
        assert(pair_texts(blob_to_object@).len() == 0);
        return NotesFetch::Done(Notes::new());
    }
    let args = git_command(repo_root, &["cat-file", "--batch"]);
    assert(texts(args@) == batch_command(repo_root@));
    let input = write_blobs(&blob_to_object);
    NotesFetch::Read(BlobRequest { args, input, blob_to_object })
}

/// Finishes after git has answered with the contents of the blobs.
pub fn finish_notes(blob_to_object: &Vec<(String, String)>, reply: &GitReply) -> (r: Notes)
    ensures
        r@ == after_batch(objects_of(blob_to_object@), reply@),
{
    match reply {
        GitReply::NotStarted(_) => Notes::new(),
        GitReply::Exited(output) => if output.success {
            parse_batch(output.stdout.as_slice(), blob_to_object.as_slice())
        } else {
            Notes::new()
        },
    }
}

/// Finishes after git has answered with the blame of a file.
pub fn fetch_blame(reply: &GitReply) -> (r: Vec<String>)
    ensures
        texts(r@) == after_blame(reply@),
{
    match run_git(reply) {
        Some(text) => parse_blame_porcelain(text.as_str()),
        None => Vec::new(),
    }
}

/// Where git lists some notes and hands out their contents, fetching reads exactly those blobs
/// and puts each content, decoded and trimmed, on the object that it annotates.
pub proof fn law_notes_are_fetched(
    repo_root: Seq<char>,
    pairs: Seq<(Seq<char>, Seq<char>)>,
    kind: Seq<char>,
    contents: Seq<Seq<u8>>,
    list: Reply,
    stderr: Seq<u8>,
)
    requires
        pairs.len() > 0,
        contents.len() == pairs.len(),
        forall|i: int|
            0 <= i < pairs.len() ==> is_word(#[trigger] pairs[i].0) && is_word(pairs[i].1),
        forall|i: int| 0 <= i < contents.len() ==> (#[trigger] contents[i]).len() <= usize::MAX,
        is_word(kind),
        printed(list) == Some(list_text(pairs)),
    ensures
        after_list(repo_root, list) == (Fetch::Read {
            args: batch_command(repo_root),
            input: blob_lines(pairs),
            pairs,
        }),
        after_batch(
            Seq::new(pairs.len(), |i: int| pairs[i].1),
            (Reply::Exited {
                success: true,
                stdout: batch_bytes(Seq::new(pairs.len(), |i: int| pairs[i].0), kind, contents),
                stderr,
            }),
        ) == with_contents(Map::empty(), Seq::new(pairs.len(), |i: int| pairs[i].1), contents),
{
    law_trimmed_notes_list_reads_back(pairs);
    let blobs = Seq::new(pairs.len(), |i: int| pairs[i].0);
    let objects = Seq::new(pairs.len(), |i: int| pairs[i].1);
    assert forall|i: int| 0 <= i < blobs.len() implies is_word(#[trigger] blobs[i]) by {
        assert(is_word(pairs[i].0));
    }
    law_batch_reads_back(blobs, kind, contents, objects, Map::empty());
}

/// What is asked of git is, line by line, the blobs in the order of the list.
pub proof fn law_each_blob_is_asked_for(pairs: Seq<(Seq<char>, Seq<char>)>)
    requires
        forall|i: int| 0 <= i < pairs.len() ==> is_word(#[trigger] pairs[i].0),
    ensures
        lines(blob_lines(pairs)) == Seq::new(pairs.len(), |i: int| pairs[i].0),
        pairs.len() > 0 ==> blob_lines(pairs).last() == '\n',
    decreases pairs.len(),
{
    let none = Seq::<char>::empty();
    assert(lines(none) == Seq::<Seq<char>>::empty());
    if pairs.len() > 0 {
        reveal_strlit("\n");
        let before = pairs.drop_last();
        let blob = pairs.last().0;
        assert(is_word(pairs[pairs.len() - 1].0));
        assert(forall|i: int| 0 <= i < before.len() ==> #[trigger] before[i] == pairs[i]);
        law_each_blob_is_asked_for(before);
        assert("\n"@ == seq!['\n']);
        if blob.contains('\n') {
            assert(is_white(blob[blob.index_of('\n')]));
        }
        assert(chomp(blob) == blob) by {
            assert(!is_white(blob[blob.len() - 1]));
        }
        lemma_lines_cons(blob, none);
        assert(blob + seq!['\n'] + none == blob + "\n"@);
        assert(blob_lines(pairs) == blob_lines(before) + (blob + "\n"@));
        lemma_lines_concat(blob_lines(before), blob + "\n"@);
    }
}

} // verus!
