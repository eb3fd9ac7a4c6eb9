//! What is asked of git, word by word, and how its replies are taken.

use crate::blame_laws::{law_blame_reads_back, porcelain_text, BlamedLine};
use crate::bytes::{lemma_encode_holds_no_newline, NEWLINE};
use crate::decimal::size_in;
use crate::fetch::{after_batch, after_blame, after_list, batch_command, Fetch};
use crate::git::{
    command_in, decoded, lossy_text, or_empty, printed, printed_trimmed, Reply,
};
use crate::lines::{lemma_upto_at, lines};
use crate::notes::{
    batch_notes, is_kept, lemma_decoded_encoding, listed_pair, listed_pairs, note_in, record_start,
    with_record,
};
use crate::paths::root_command;
use crate::text_laws::{
    is_blank, is_tidy, law_blank_texts_are_trimmed_away, law_trimming_keeps_the_middle,
};
use crate::tools::{
    blame_command, details_command, list_command, note_command, subject_command,
};
use crate::words::{is_white, is_word, lemma_words_cons, lemma_words_skip_white, words};
use vstd::prelude::*;
use vstd::utf8::{encode_utf8, valid_utf8};

verus! {

/// What git prints is what it wrote, all of it where it succeeded and nothing where it did not; and
/// trimmed, what is left of it without the white space around it.
pub proof fn law_replies_are_read(
    a: Seq<char>,
    t: Seq<char>,
    b: Seq<char>,
    stderr: Seq<u8>,
)
    requires
        is_blank(a),
        is_blank(b),
        is_tidy(t),
    ensures
        printed((Reply::Exited { success: true, stdout: encode_utf8(a + t + b), stderr })) == Some(
            a + t + b,
        ),
        printed_trimmed((Reply::Exited { success: true, stdout: encode_utf8(a + t + b), stderr }))
            == Some(t),
        or_empty(Some(t)) == t,
        or_empty(None) == Seq::<char>::empty(),
{
    lemma_decoded_encoding(a + t + b);
    law_trimming_keeps_the_middle(a, t, b);
}

/// A text that git wrote is read as it is, whatever it holds.
pub proof fn law_texts_are_read_as_they_are(t: Seq<char>, stderr: Seq<u8>)
    ensures
        printed((Reply::Exited { success: true, stdout: encode_utf8(t), stderr })) == Some(t),
        decoded(encode_utf8(t)) == t,
{
    lemma_decoded_encoding(t);
}

/// Nothing is read of a run of git that failed or never began.
pub proof fn law_failures_print_nothing(stdout: Seq<u8>, stderr: Seq<u8>, reason: Seq<char>)
    ensures
        printed((Reply::Exited { success: false, stdout, stderr })) is None,
        printed(Reply::NotStarted(reason)) is None,
        printed_trimmed((Reply::Exited { success: false, stdout, stderr })) is None,
        printed_trimmed(Reply::NotStarted(reason)) is None,
        after_blame((Reply::Exited { success: false, stdout, stderr })).len() == 0,
        after_blame(Reply::NotStarted(reason)).len() == 0,
        forall|objects: Seq<Seq<char>>|
            #[trigger] after_batch(objects, Reply::NotStarted(reason)) == Map::<
                Seq<char>,
                Seq<char>,
            >::empty(),
        forall|objects: Seq<Seq<char>>|
            #[trigger] after_batch(
                objects,
                (Reply::Exited { success: false, stdout, stderr }),
            ) == Map::<Seq<char>, Seq<char>>::empty(),
        forall|repo_root: Seq<char>|
            #[trigger] after_list(repo_root, Reply::NotStarted(reason)) == Fetch::Done(Map::empty()),
        forall|repo_root: Seq<char>|
            #[trigger] after_list(
                repo_root,
                (Reply::Exited { success: false, stdout, stderr }),
            ) == Fetch::Done(Map::empty()),
{
}

/// The commands, word by word: each works in the directory that it is given, and ends with the file
/// or the object that it is about.
pub proof fn law_commands_are_these(repo: Seq<char>, x: Seq<char>)
    ensures
        list_command(repo) == seq!["-C"@, repo, "notes"@, "list"@],
        blame_command(repo, x) == seq!["-C"@, repo, "blame"@, "--porcelain"@, "--"@, x],
        note_command(repo, x) == seq!["-C"@, repo, "notes"@, "show"@, x],
        subject_command(repo, x) == seq![
            "-C"@,
            repo,
            "log"@,
            "--format=%h %an: %s"@,
            "-1"@,
            x,
        ],
        details_command(repo, x) == seq![
            "-C"@,
            repo,
            "log"@,
            "--format=%h %an <%ae>%n%s"@,
            "-1"@,
            x,
        ],
        batch_command(repo) == seq!["-C"@, repo, "cat-file"@, "--batch"@],
        root_command(repo) == seq!["-C"@, repo, "rev-parse"@, "--show-toplevel"@],
{
}

/// The arguments of a command stand behind the directory that it works in, in their order.
pub proof fn law_commands_work_in_their_directory(dir: Seq<char>, rest: Seq<Seq<char>>, i: int)
    requires
        0 <= i < rest.len(),
    ensures
        command_in(dir, rest).len() == rest.len() + 2,
        command_in(dir, rest)[0] == "-C"@,
        command_in(dir, rest)[1] == dir,
        command_in(dir, rest)[i + 2] == rest[i],
{
}

/// A line of the list of notes holds its first two words, whatever stands around and behind them.
pub proof fn law_listed_lines_hold_two_words(
    a: Seq<char>,
    blob: Seq<char>,
    c: char,
    object: Seq<char>,
    rest: Seq<char>,
)
    requires
        is_blank(a),
        is_word(blob),
        is_white(c),
        is_word(object),
        rest.len() > 0 ==> is_white(rest[0]),
    ensures
        listed_pair(a + blob + seq![c] + object + rest) == Some((blob, object)),
        listed_pair(a + blob) is None,
        listed_pair(a) is None,
{
    let none = Seq::<char>::empty();
    let tail = object + rest;
    lemma_words_cons(object, rest);
    lemma_words_skip_white(c, tail);
    lemma_words_cons(blob, seq![c] + tail);
    let line = blob + (seq![c] + tail);
    lemma_words_blank(a, line);
    assert(a + line == a + blob + seq![c] + object + rest);
    assert(words(line) == seq![blob] + (seq![object] + words(rest)));
    assert(words(line)[0] == blob && words(line)[1] == object);
    lemma_words_cons(blob, none);
    assert(blob + none == blob);
    assert(words(none) == Seq::<Seq<char>>::empty());
    lemma_words_blank(a, blob);
    lemma_words_blank(a, none);
    assert(a + none == a);
}

proof fn lemma_words_blank(a: Seq<char>, t: Seq<char>)
    requires
        is_blank(a),
    ensures
        words(a + t) == words(t),
    decreases a.len(),
{
    if a.len() > 0 {
        let rest = a.drop_first();
        assert(is_white(a[0]));
        assert forall|i: int| 0 <= i < rest.len() implies is_white(#[trigger] rest[i]) by {
            assert(is_white(a[i + 1]));
        }
        lemma_words_blank(rest, t);
        lemma_words_skip_white(a[0], rest + t);
        assert(seq![a[0]] + (rest + t) == a + t);
    } else {
        assert(a + t == t);
    }
}

proof fn lemma_record(header: Seq<char>, content: Seq<u8>, rest: Seq<u8>)
    requires
        forall|i: int| 0 <= i < header.len() ==> #[trigger] header[i] != '\n',
        words(header).len() >= 3,
        size_in(words(header)[2]) == Some(content.len()),
    ensures
        record_start(encode_utf8(header) + seq![NEWLINE] + (content + rest)) == Some(
            (content.len(), content + rest),
        ),
{
    let h = encode_utf8(header);
    let body = content + rest;
    let batch = h + seq![NEWLINE] + body;
    assert(!header.contains('\n'));
    lemma_encode_holds_no_newline(header);
    assert forall|i: int| 0 <= i < h.len() implies #[trigger] batch[i] != NEWLINE by {
        assert(batch[i] == h[i]);
        assert(h.contains(h[i]));
    }
    assert(batch[h.len() as int] == NEWLINE);
    lemma_upto_at(batch, NEWLINE, h.len() as int);
    assert(batch.take(h.len() as int) == h);
    assert(batch.skip(h.len() as int + 1) == body);
    lemma_decoded_encoding(header);
}

/// What the records of a batch are: a line of at least three words, the third of which is a size in
/// bytes, as many bytes, and a newline that may be missing. A note is put on its object without the
/// white space around it, and the rest of the batch is for the other objects.
pub proof fn law_records_hold_notes(
    header: Seq<char>,
    a: Seq<char>,
    t: Seq<char>,
    b: Seq<char>,
    rest: Seq<u8>,
    object: Seq<char>,
    objects: Seq<Seq<char>>,
    notes: Map<Seq<char>, Seq<char>>,
)
    requires
        forall|i: int| 0 <= i < header.len() ==> #[trigger] header[i] != '\n',
        words(header).len() >= 3,
        size_in(words(header)[2]) == Some(encode_utf8(a + t + b).len()),
        encode_utf8(a + t + b).len() <= 1_048_576,
        is_blank(a),
        is_blank(b),
        is_tidy(t),
    ensures
        batch_notes(
            encode_utf8(header) + seq![10u8] + (encode_utf8(a + t + b) + (seq![10u8] + rest)),
            seq![object] + objects,
            notes,
        ) == batch_notes(rest, objects, notes.insert(object, t)),
        rest.len() == 0 || rest[0] != 10 ==> batch_notes(
            encode_utf8(header) + seq![10u8] + (encode_utf8(a + t + b) + rest),
            seq![object] + objects,
            notes,
        ) == batch_notes(rest, objects, notes.insert(object, t)),
{
    let content = encode_utf8(a + t + b);
    let all = seq![object] + objects;
    lemma_decoded_encoding(a + t + b);
    law_trimming_keeps_the_middle(a, t, b);
    assert(note_in(content) == t);
    assert(is_kept(content));
    assert(with_record(notes, object, content) == notes.insert(object, t));
    assert(all.drop_first() == objects);
    let more = seq![10u8] + rest;
    assert(more.drop_first() == rest);
    lemma_record(header, content, more);
    assert((content + more).take(content.len() as int) == content);
    assert((content + more).skip(content.len() as int) == more);
    lemma_record(header, content, rest);
    assert((content + rest).take(content.len() as int) == content);
    assert((content + rest).skip(content.len() as int) == rest);
}

/// A record whose content is white space, or larger than 1 MB, puts no note on its object.
pub proof fn law_records_may_hold_no_note(
    header: Seq<char>,
    content: Seq<u8>,
    a: Seq<char>,
    rest: Seq<u8>,
    object: Seq<char>,
    objects: Seq<Seq<char>>,
    notes: Map<Seq<char>, Seq<char>>,
)
    requires
        forall|i: int| 0 <= i < header.len() ==> #[trigger] header[i] != '\n',
        words(header).len() >= 3,
        size_in(words(header)[2]) == Some(content.len()),
        content.len() > 1_048_576 || (is_blank(a) && content == encode_utf8(a)),
    ensures
        batch_notes(
            encode_utf8(header) + seq![10u8] + (content + (seq![10u8] + rest)),
            seq![object] + objects,
            notes,
        ) == batch_notes(rest, objects, notes),
{
    let all = seq![object] + objects;
    let more = seq![10u8] + rest;
    if content.len() <= 1_048_576 {
        lemma_decoded_encoding(a);
        law_blank_texts_are_trimmed_away(a);
    }
    assert(!is_kept(content));
    assert(all.drop_first() == objects);
    assert(more.drop_first() == rest);
    lemma_record(header, content, more);
    assert((content + more).take(content.len() as int) == content);
    assert((content + more).skip(content.len() as int) == more);
}

/// A batch is read no further where it does not go on with a whole record: where its next line has
/// fewer than three words or none that is a size, where fewer bytes follow than the size says, where
/// the line does not end, and where no object is left.
pub proof fn law_batches_break_off(
    header: Seq<char>,
    rest: Seq<u8>,
    objects: Seq<Seq<char>>,
    notes: Map<Seq<char>, Seq<char>>,
)
    requires
        forall|i: int| 0 <= i < header.len() ==> #[trigger] header[i] != '\n',
    ensures
        batch_notes(encode_utf8(header), objects, notes) == notes,
        batch_notes(rest, Seq::empty(), notes) == notes,
        words(header).len() < 3 || match size_in(words(header)[2]) {
            Some(size) => rest.len() < size,
            None => true,
        } ==> batch_notes(encode_utf8(header) + seq![10u8] + rest, objects, notes) == notes,
{
    let h = encode_utf8(header);
    assert(!header.contains('\n'));
    lemma_encode_holds_no_newline(header);
    assert forall|i: int| 0 <= i < h.len() implies #[trigger] h[i] != NEWLINE by {
        assert(h.contains(h[i]));
    }
    lemma_upto_at(h, NEWLINE, h.len() as int);
    let batch = h + seq![10u8] + rest;
    assert forall|i: int| 0 <= i < h.len() implies #[trigger] batch[i] != NEWLINE by {
        assert(batch[i] == h[i]);
    }
    assert(batch[h.len() as int] == NEWLINE);
    lemma_upto_at(batch, NEWLINE, h.len() as int);
    assert(batch.take(h.len() as int) == h);
    assert(batch.skip(h.len() as int + 1) == rest);
    lemma_decoded_encoding(header);
}

/// Bytes that are not valid UTF-8 are taken as the lossy decoding has them, and white space that git
/// wrote is nothing once trimmed.
pub proof fn law_odd_outputs_are_read(bytes: Seq<u8>, a: Seq<char>, stderr: Seq<u8>)
    requires
        is_blank(a),
    ensures
        !valid_utf8(bytes) ==> decoded(bytes) == lossy_text(bytes),
        printed_trimmed((Reply::Exited { success: true, stdout: encode_utf8(a), stderr })) == Some(
            Seq::<char>::empty(),
        ),
        printed((Reply::Exited { success: true, stdout: bytes, stderr })) == Some(decoded(bytes)),
{
    lemma_decoded_encoding(a);
    law_blank_texts_are_trimmed_away(a);
}

/// The pairs in some lines are those in the first and those in the others, and a line without two
/// words holds none.
pub proof fn law_lists_are_read_line_by_line(line: Seq<char>, rest: Seq<Seq<char>>)
    ensures
        words(line).len() >= 2 ==> listed_pairs(seq![line] + rest) == seq![
            (words(line)[0], words(line)[1]),
        ] + listed_pairs(rest),
        words(line).len() < 2 ==> listed_pairs(seq![line] + rest) == listed_pairs(rest),
        listed_pairs(Seq::empty()) == Seq::<(Seq<char>, Seq<char>)>::empty(),
{
    assert((seq![line] + rest).drop_first() == rest);
}

/// A list without notes leaves nothing to read.
pub proof fn law_empty_lists_are_done(repo_root: Seq<char>, a: Seq<char>, stderr: Seq<u8>)
    requires
        is_blank(a),
    ensures
        after_list(
            repo_root,
            (Reply::Exited { success: true, stdout: encode_utf8(a), stderr }),
        ) == Fetch::Done(Map::empty()),
{
    law_odd_outputs_are_read(Seq::empty(), a, stderr);
    assert(lines(Seq::empty()) == Seq::<Seq<char>>::empty());
    assert(listed_pairs(Seq::empty()) == Seq::<(Seq<char>, Seq<char>)>::empty());
}

/// Fetching the blame that git writes of a file gives the commit of each of its lines.
pub proof fn law_blames_are_fetched(file: Seq<BlamedLine>, stderr: Seq<u8>)
    requires
        forall|i: int| 0 <= i < file.len() ==> (#[trigger] file[i]).wf(),
    ensures
        after_blame(
            (Reply::Exited { success: true, stdout: encode_utf8(porcelain_text(file)), stderr }),
        ).len() == file.len(),
        forall|i: int|
            0 <= i < file.len() ==> #[trigger] after_blame(
                (Reply::Exited {
                    success: true,
                    stdout: encode_utf8(porcelain_text(file)),
                    stderr,
                }),
            )[i] == file[i].commit,
{
    lemma_decoded_encoding(porcelain_text(file));
    law_blame_reads_back(file);
}

} // verus!
