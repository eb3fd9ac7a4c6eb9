//! From what git writes to what the editor shows.

use crate::annotate::{is_shown, is_shown_by, law_first_lines_show_notes, shown_notes, shows_note};
use crate::blame_laws::{commits_of, law_blame_reads_back, porcelain_text, BlamedLine};
use crate::fetch::{
    after_batch, after_blame, after_list, batch_command, blob_lines, law_notes_are_fetched, Fetch,
};
use crate::git::{printed, Reply};
use crate::git_formats::{
    batch_bytes, is_last_kept, law_contents_land_on_their_objects, lemma_last_kept, list_text,
    with_contents,
};
use crate::notes::{is_kept, note_in};
use crate::words::is_word;
use vstd::prelude::*;

verus! {

/// Some annotated objects of a repository: for each the blob that holds the note, the object, and
/// what the blob holds.
pub struct Annotated {
    pub blobs: Seq<(Seq<char>, Seq<char>)>,
    pub kind: Seq<char>,
    pub contents: Seq<Seq<u8>>,
}

impl Annotated {
    /// Whether git can tell of these: names without white space, and a content for each.
    pub open spec fn wf(self) -> bool {
        &&& self.blobs.len() > 0
        &&& self.contents.len() == self.blobs.len()
        &&& is_word(self.kind)
        &&& forall|i: int|
            0 <= i < self.blobs.len() ==> is_word(#[trigger] self.blobs[i].0) && is_word(
                self.blobs[i].1,
            )
        &&& forall|i: int|
            0 <= i < self.contents.len() ==> (#[trigger] self.contents[i]).len() <= usize::MAX
    }

    /// The annotated objects.
    pub open spec fn objects(self) -> Seq<Seq<char>> {
        Seq::new(self.blobs.len(), |i: int| self.blobs[i].1)
    }

    /// What git writes when it is asked for the contents of the blobs.
    pub open spec fn batch(self) -> Seq<u8> {
        batch_bytes(
            Seq::new(self.blobs.len(), |i: int| self.blobs[i].0),
            self.kind,
            self.contents,
        )
    }
}

/// Whether line `i` of a file is the first one of a commit that has a note with content `j`, which
/// is neither blank nor too large.
pub open spec fn opens_annotated(
    file: Seq<BlamedLine>,
    annotated: Annotated,
    i: int,
    j: int,
) -> bool {
    &&& 0 <= i < file.len()
    &&& is_last_kept(annotated.objects(), annotated.contents, j)
    &&& annotated.objects()[j] == file[i].commit
    &&& forall|k: int| 0 <= k < i ==> (#[trigger] file[k]).commit != file[i].commit
}

/// Whether an entry shows, on line `i`, the note with content `j` on the commit of the line.
pub open spec fn shows_content(
    entry: (u32, (Seq<char>, Seq<char>)),
    file: Seq<BlamedLine>,
    annotated: Annotated,
    i: int,
    j: int,
) -> bool {
    opens_annotated(file, annotated, i, j) && entry == (
        i as u32,
        (file[i].commit, note_in(annotated.contents[j])),
    )
}

/// Whether an entry shows the note on a commit on the first line of that commit.
pub open spec fn is_due(
    entry: (u32, (Seq<char>, Seq<char>)),
    file: Seq<BlamedLine>,
    annotated: Annotated,
) -> bool {
    exists|i: int, j: int| #[trigger] shows_content(entry, file, annotated, i, j)
}

/// Where git tells of some notes and blames a file, the editor shows exactly this: on the first
/// line of each commit that has a note, that note, without the white space around it.
pub proof fn law_annotated_commits_are_shown(
    annotated: Annotated,
    file: Seq<BlamedLine>,
    repo_root: Seq<char>,
    list: Reply,
    stderr: Seq<u8>,
    blame: Reply,
)
    requires
        annotated.wf(),
        printed(list) == Some(list_text(annotated.blobs)),
        forall|i: int| 0 <= i < file.len() ==> (#[trigger] file[i]).wf(),
        printed(blame) == Some(porcelain_text(file)),
    ensures
        after_list(repo_root, list) == (Fetch::Read {
            args: batch_command(repo_root),
            input: blob_lines(annotated.blobs),
            pairs: annotated.blobs,
        }),
        after_blame(blame) == commits_of(file),
        forall|entry: (u32, (Seq<char>, Seq<char>))|
            shown_notes(
                after_batch(
                    annotated.objects(),
                    (Reply::Exited { success: true, stdout: annotated.batch(), stderr }),
                ),
                commits_of(file),
                file.len(),
            ).contains(entry) <==> #[trigger] is_due(entry, file, annotated),
{
    let objects = annotated.objects();
    let contents = annotated.contents;
    law_notes_are_fetched(
        repo_root,
        annotated.blobs,
        annotated.kind,
        contents,
        list,
        stderr,
    );
    law_blame_reads_back(file);
    let none = Map::<Seq<char>, Seq<char>>::empty();
    law_contents_land_on_their_objects(none, objects, contents);
    let notes = with_contents(none, objects, contents);
    let commits = commits_of(file);
    let n = file.len();
    law_first_lines_show_notes(notes, commits, n);
    let shown = shown_notes(notes, commits, n);
    assert forall|entry: (u32, (Seq<char>, Seq<char>))| shown.contains(
        entry,
    ) <==> #[trigger] is_due(entry, file, annotated) by {
        if shown.contains(entry) {
            let k = shown.index_of(entry);
            assert(is_shown(shown[k], notes, commits, n));
            let i = choose|i: int| 0 <= i < n && #[trigger] is_shown_by(entry, notes, commits, i);
            let commit = commits[i];
            assert(notes.contains_key(commit));
            if forall|j: int|
                0 <= j < objects.len() && is_kept(contents[j]) ==> objects[j] != commit {
                assert(!none.contains_key(commit));
                assert(false);
            }
            let kept = choose|j: int|
                0 <= j < objects.len() && is_kept(contents[j]) && objects[j] == commit;
            let j = lemma_last_kept(objects, contents, kept);
            assert(notes.contains_pair(objects[j], note_in(contents[j])));
            assert forall|m: int| 0 <= m < i implies (#[trigger] file[m]).commit
                != file[i].commit by {
                assert(commits.take(i)[m] == commits[m]);
            }
            assert(shows_content(entry, file, annotated, i, j));
        }
        if is_due(entry, file, annotated) {
            let (i, j) = choose|i: int, j: int|
                #[trigger] shows_content(entry, file, annotated, i, j);
            assert(is_last_kept(objects, contents, j));
            assert(notes.contains_pair(objects[j], note_in(contents[j])));
            if commits.take(i).contains(commits[i]) {
                let m = commits.take(i).index_of(commits[i]);
                assert(file[m].commit == file[i].commit);
            }
            assert(shows_note(notes, commits, i));
        }
    }
}

} // verus!
