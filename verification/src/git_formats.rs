//! What git writes, and that it reads back.

use crate::bytes::{lemma_encode_holds_no_newline, NEWLINE};
use crate::decimal::{decimal, lemma_decimal, lemma_size_in_decimal, size_in};
use crate::git::decoded;
use crate::lines::{
    chomp, lemma_lines_concat, lemma_lines_cons, lemma_lines_single, lemma_upto_at, lines,
};
use crate::notes::{
    batch_notes, is_kept, lemma_decoded_encoding, listed_pairs, note_in, record_start,
    skip_newline, with_record,
};
use crate::words::{
    is_white, is_word, lemma_trim_at_end, lemma_trim_idempotent, lemma_words_cons,
    lemma_words_skip_white, trim, trim_end, words,
};
use vstd::prelude::*;
use vstd::utf8::encode_utf8;

verus! {

/// The text in which git lists notes: on each line a blob and the object that it annotates.
pub open spec fn list_text(pairs: Seq<(Seq<char>, Seq<char>)>) -> Seq<char>
    decreases pairs.len(),
{
    if pairs.len() == 0 {
        Seq::empty()
    } else {
        pairs[0].0 + seq![' '] + pairs[0].1 + seq!['\n'] + list_text(pairs.drop_first())
    }
}

/// The header that git writes before the content of an object: its name, what it is, and its size
/// in bytes.
pub open spec fn header_text(blob: Seq<char>, kind: Seq<char>, size: nat) -> Seq<char> {
    blob + seq![' '] + kind + seq![' '] + decimal(size)
}

/// What git writes when it hands out the contents of objects of one kind.
pub open spec fn batch_bytes(
    blobs: Seq<Seq<char>>,
    kind: Seq<char>,
    contents: Seq<Seq<u8>>,
) -> Seq<u8>
    decreases blobs.len(),
{
    if blobs.len() == 0 || contents.len() == 0 {
        Seq::empty()
    } else {
        encode_utf8(header_text(blobs[0], kind, contents[0].len())) + seq![NEWLINE] + contents[0]
            + seq![NEWLINE] + batch_bytes(blobs.drop_first(), kind, contents.drop_first())
    }
}

/// The notes after the contents have been put on the objects, in order.
pub open spec fn with_contents(
    notes: Map<Seq<char>, Seq<char>>,
    objects: Seq<Seq<char>>,
    contents: Seq<Seq<u8>>,
) -> Map<Seq<char>, Seq<char>>
    decreases objects.len(),
{
    if objects.len() == 0 || contents.len() == 0 {
        notes
    } else {
        with_contents(
            with_record(notes, objects[0], contents[0]),
            objects.drop_first(),
            contents.drop_first(),
        )
    }
}

proof fn lemma_word_holds_no_newline(w: Seq<char>)
    requires
        is_word(w),
    ensures
        !w.contains('\n'),
{
    if w.contains('\n') {
        let i = w.index_of('\n');
        assert(!is_white(w[i]));
    }
}

proof fn lemma_two_words(a: Seq<char>, b: Seq<char>)
    requires
        is_word(a),
        is_word(b),
    ensures
        words(a + seq![' '] + b) == seq![a, b],
        !(a + seq![' '] + b).contains('\n'),
{
    let none = Seq::<char>::empty();
    assert(b + none == b);
    lemma_words_cons(b, none);
    lemma_words_skip_white(' ', b);
    lemma_words_cons(a, seq![' '] + b);
    assert(a + (seq![' '] + b) == a + seq![' '] + b);
    assert(words(none) == Seq::<Seq<char>>::empty());
    assert(seq![a] + (seq![b] + words(none)) == seq![a, b]);
    lemma_word_holds_no_newline(a);
    lemma_word_holds_no_newline(b);
    lemma_contains_newline(a + seq![' '], b);
    lemma_contains_newline(a, seq![' ']);
}

proof fn lemma_contains_newline(a: Seq<char>, b: Seq<char>)
    ensures
        (a + b).contains('\n') ==> a.contains('\n') || b.contains('\n'),
{
    if (a + b).contains('\n') {
        let i = (a + b).index_of('\n');
        if i < a.len() {
            assert(a[i] == '\n');
        } else {
            assert(b[i - a.len()] == '\n');
        }
    }
}

/// Reading the list that git writes of some notes gives back their blobs and objects.
pub proof fn law_notes_list_reads_back(pairs: Seq<(Seq<char>, Seq<char>)>)
    requires
        forall|i: int|
            0 <= i < pairs.len() ==> is_word(#[trigger] pairs[i].0) && is_word(pairs[i].1),
    ensures
        listed_pairs(lines(list_text(pairs))) == pairs,
    decreases pairs.len(),
{
    if pairs.len() > 0 {
        let rest = pairs.drop_first();
        assert forall|i: int| 0 <= i < rest.len() implies is_word(#[trigger] rest[i].0) && is_word(
            rest[i].1,
        ) by {
            assert(rest[i] == pairs[i + 1]);
        }
        law_notes_list_reads_back(rest);
        assert(is_word(pairs[0].0));
        let line = pairs[0].0 + seq![' '] + pairs[0].1;
        lemma_two_words(pairs[0].0, pairs[0].1);
        lemma_lines_cons(line, list_text(rest));
        assert(line.last() == pairs[0].1.last());
        assert(!is_white(pairs[0].1.last()));
        assert(chomp(line) == line);
        let ls = seq![line] + lines(list_text(rest));
        assert(ls.drop_first() == lines(list_text(rest)));
        assert(seq![pairs[0]] + rest == pairs);
    }
}

/// Reading the list gives the same after the white space around it is gone.
pub proof fn law_trimmed_notes_list_reads_back(pairs: Seq<(Seq<char>, Seq<char>)>)
    requires
        forall|i: int|
            0 <= i < pairs.len() ==> is_word(#[trigger] pairs[i].0) && is_word(pairs[i].1),
    ensures
        listed_pairs(lines(trim(list_text(pairs)))) == pairs,
{
    law_notes_list_reads_back(pairs);
    if pairs.len() > 0 {
        let t = list_text(pairs);
        lemma_list_text_ends(pairs);
        assert(is_word(pairs[0].0));
        assert(t[0] == pairs[0].0[0]);
        lemma_trim_at_end(t);
        let u = t.drop_last();
        assert(trim_end(t) == trim_end(u));
        assert(trim_end(u) == u);
        let line = lemma_list_text_last(pairs);
        let head = u.take(u.len() - line.len());
        assert(head + line == u);
        assert(head + (line + seq!['\n']) == t);
        lemma_lines_concat(head, line);
        lemma_lines_concat(head, line + seq!['\n']);
        lemma_lines_single(line);
        lemma_lines_cons(line, Seq::empty());
        assert(line + seq!['\n'] + Seq::<char>::empty() == line + seq!['\n']);
        assert(chomp(line) == line);
        assert(seq![line] + Seq::<Seq<char>>::empty() == seq![line]);
    } else {
        assert(trim(list_text(pairs)) == list_text(pairs));
    }
}

proof fn lemma_list_text_ends(pairs: Seq<(Seq<char>, Seq<char>)>)
    requires
        pairs.len() > 0,
        forall|i: int|
            0 <= i < pairs.len() ==> is_word(#[trigger] pairs[i].0) && is_word(pairs[i].1),
    ensures
        list_text(pairs).len() > 1,
        list_text(pairs).last() == '\n',
        !is_white(list_text(pairs)[list_text(pairs).len() - 2]),
    decreases pairs.len(),
{
    let rest = pairs.drop_first();
    assert(is_word(pairs[0].0));
    assert(!is_white(pairs[0].1.last()));
    if rest.len() > 0 {
        assert(forall|i: int| 0 <= i < rest.len() ==> #[trigger] rest[i] == pairs[i + 1]);
        lemma_list_text_ends(rest);
    }
}

/// The last line of a list of notes: what stands before it ends with a newline.
proof fn lemma_list_text_last(pairs: Seq<(Seq<char>, Seq<char>)>) -> (line: Seq<char>)
    requires
        pairs.len() > 0,
        forall|i: int|
            0 <= i < pairs.len() ==> is_word(#[trigger] pairs[i].0) && is_word(pairs[i].1),
    ensures
        line.len() > 0,
        !line.contains('\n'),
        !is_white(line.last()),
        line.len() < list_text(pairs).len(),
        line == list_text(pairs).drop_last().skip(list_text(pairs).len() - 1 - line.len()),
        list_text(pairs).len() - 1 > line.len() ==> list_text(pairs)[list_text(pairs).len() - 2
            - line.len()] == '\n',
    decreases pairs.len(),
{
    let rest = pairs.drop_first();
    let first = pairs[0].0 + seq![' '] + pairs[0].1;
    assert(is_word(pairs[0].0));
    assert(!is_white(pairs[0].1.last()));
    lemma_two_words(pairs[0].0, pairs[0].1);
    let t = list_text(pairs);
    if rest.len() > 0 {
        assert(forall|i: int| 0 <= i < rest.len() ==> #[trigger] rest[i] == pairs[i + 1]);
        let line = lemma_list_text_last(rest);
        let s = list_text(rest);
        assert(t == first + seq!['\n'] + s);
        assert(t.drop_last().skip(t.len() - 1 - line.len()) == s.drop_last().skip(
            s.len() - 1 - line.len(),
        ));
        line
    } else {
        assert(list_text(rest) == Seq::<char>::empty());
        assert(t == first + seq!['\n']);
        assert(t.drop_last() == first);
        assert(first.skip(0) == first);
        first
    }
}

proof fn lemma_header(blob: Seq<char>, kind: Seq<char>, size: nat)
    requires
        is_word(blob),
        is_word(kind),
    ensures
        words(header_text(blob, kind, size)) == seq![blob, kind, decimal(size)],
        !header_text(blob, kind, size).contains('\n'),
{
    let number = decimal(size);
    lemma_decimal(size);
    let tail = kind + seq![' '] + number;
    lemma_two_words(kind, number);
    lemma_words_skip_white(' ', tail);
    lemma_words_cons(blob, seq![' '] + tail);
    assert(blob + (seq![' '] + tail) == header_text(blob, kind, size));
    assert(seq![blob] + seq![kind, number] == seq![blob, kind, number]);
    lemma_word_holds_no_newline(blob);
    lemma_contains_newline(blob, seq![' '] + tail);
    lemma_contains_newline(seq![' '], tail);
}

proof fn lemma_record_start(header: Seq<char>, body: Seq<u8>, size: nat)
    requires
        !header.contains('\n'),
        words(header).len() == 3,
        size_in(words(header)[2]) == Some(size),
        size <= body.len(),
    ensures
        record_start(encode_utf8(header) + seq![NEWLINE] + body) == Some((size, body)),
{
    let h = encode_utf8(header);
    let batch = h + seq![NEWLINE] + body;
    lemma_encode_holds_no_newline(header);
    assert forall|i: int| 0 <= i < h.len() implies #[trigger] batch[i] != NEWLINE by {
        assert(batch[i] == h[i]);
        assert(h.contains(h[i]));
    }
    assert(batch[h.len() as int] == NEWLINE);
    lemma_upto_at(batch, NEWLINE, h.len() as int);
    assert(batch.take(h.len() as int) == h);
    assert(batch.skip(h.len() as int + 1) == body);
    lemma_decoded_encoding(header);
}

/// Reading the batch that git writes of some notes puts each content, decoded and trimmed, on its
/// object, unless it is too large or blank. What bytes the other contents hold does not matter.
pub proof fn law_batch_reads_back(
    blobs: Seq<Seq<char>>,
    kind: Seq<char>,
    contents: Seq<Seq<u8>>,
    objects: Seq<Seq<char>>,
    notes: Map<Seq<char>, Seq<char>>,
)
    requires
        blobs.len() == objects.len(),
        contents.len() == objects.len(),
        is_word(kind),
        forall|i: int| 0 <= i < blobs.len() ==> is_word(#[trigger] blobs[i]),
        forall|i: int| 0 <= i < contents.len() ==> (#[trigger] contents[i]).len() <= usize::MAX,
    ensures
        batch_notes(batch_bytes(blobs, kind, contents), objects, notes) == with_contents(
            notes,
            objects,
            contents,
        ),
    decreases objects.len(),
{
    if objects.len() > 0 {
        let content = contents[0];
        let size = content.len();
        let header = header_text(blobs[0], kind, size);
        let rest = batch_bytes(blobs.drop_first(), kind, contents.drop_first());
        let body = content + (seq![NEWLINE] + rest);
        let batch = batch_bytes(blobs, kind, contents);
        assert(batch == encode_utf8(header) + seq![NEWLINE] + body);
        assert(is_word(blobs[0]));
        lemma_header(blobs[0], kind, size);
        lemma_size_in_decimal(size);
        lemma_record_start(header, body, size);
        assert(body.take(size as int) == content);
        assert(body.skip(size as int) == seq![NEWLINE] + rest);
        assert(skip_newline(seq![NEWLINE] + rest) == rest) by {
            assert((seq![NEWLINE] + rest).drop_first() == rest);
        }
        assert(forall|i: int|
            0 <= i < blobs.drop_first().len() ==> #[trigger] blobs.drop_first()[i] == blobs[i + 1]);
        assert(forall|i: int|
            0 <= i < contents.drop_first().len() ==> #[trigger] contents.drop_first()[i]
                == contents[i + 1]);
        law_batch_reads_back(
            blobs.drop_first(),
            kind,
            contents.drop_first(),
            objects.drop_first(),
            with_record(notes, objects[0], content),
        );
    }
}

/// Whether content `i` is kept, and none that comes after it for the same object is.
pub open spec fn is_last_kept(objects: Seq<Seq<char>>, contents: Seq<Seq<u8>>, i: int) -> bool {
    &&& 0 <= i < objects.len()
    &&& is_kept(contents[i])
    &&& forall|j: int| i < j < objects.len() && #[trigger] objects[j] == objects[i] ==> !is_kept(
        contents[j],
    )
}

/// Where some content is kept for an object, one of them is the last.
pub proof fn lemma_last_kept(objects: Seq<Seq<char>>, contents: Seq<Seq<u8>>, i: int) -> (last: int)
    requires
        0 <= i < objects.len(),
        is_kept(contents[i]),
    ensures
        is_last_kept(objects, contents, last),
        objects[last] == objects[i],
    decreases objects.len() - i,
{
    if exists|j: int|
        i < j < objects.len() && #[trigger] objects[j] == objects[i] && is_kept(contents[j]) {
        let j = choose|j: int|
            i < j < objects.len() && #[trigger] objects[j] == objects[i] && is_kept(contents[j]);
        lemma_last_kept(objects, contents, j)
    } else {
        i
    }
}

/// Each object has the last of the notes that were put on it and kept; every object on which none
/// was has what it had.
pub proof fn law_contents_land_on_their_objects(
    notes: Map<Seq<char>, Seq<char>>,
    objects: Seq<Seq<char>>,
    contents: Seq<Seq<u8>>,
)
    requires
        contents.len() == objects.len(),
    ensures
        forall|i: int| #[trigger]
            is_last_kept(objects, contents, i) ==> with_contents(
                notes,
                objects,
                contents,
            ).contains_pair(objects[i], note_in(contents[i])),
        forall|o: Seq<char>|
            #![trigger with_contents(notes, objects, contents).contains_key(o)]
            (forall|i: int| 0 <= i < objects.len() && is_kept(contents[i]) ==> objects[i] != o)
                ==> with_contents(notes, objects, contents).contains_key(o) == notes.contains_key(
                o,
            ) && (notes.contains_key(o) ==> with_contents(notes, objects, contents)[o] == notes[o]),
    decreases objects.len(),
{
    if objects.len() > 0 {
        let first = with_record(notes, objects[0], contents[0]);
        let os = objects.drop_first();
        let cs = contents.drop_first();
        let all = with_contents(notes, objects, contents);
        assert(all == with_contents(first, os, cs));
        law_contents_land_on_their_objects(first, os, cs);
        assert forall|i: int| #[trigger] is_last_kept(objects, contents, i) implies all.contains_pair(
            objects[i],
            note_in(contents[i]),
        ) by {
            if i > 0 {
                assert forall|j: int|
                    i - 1 < j < os.len() && #[trigger] os[j] == os[i - 1] implies !is_kept(
                    cs[j],
                ) by {
                    assert(objects[j + 1] == objects[i]);
                }
                assert(is_last_kept(os, cs, i - 1));
            } else {
                assert forall|j: int| 0 <= j < os.len() && is_kept(cs[j]) implies os[j]
                    != objects[0] by {
                    assert(os[j] == objects[j + 1]);
                }
                assert(all.contains_key(objects[0]) == first.contains_key(objects[0]));
            }
        }
        assert forall|o: Seq<char>|
            #![trigger all.contains_key(o)]
            (forall|i: int|
                0 <= i < objects.len() && is_kept(contents[i]) ==> objects[i]
                    != o) implies all.contains_key(o) == notes.contains_key(o) && (
        notes.contains_key(o) ==> all[o] == notes[o]) by {
            assert forall|j: int| 0 <= j < os.len() && is_kept(cs[j]) implies os[j] != o by {
                assert(os[j] == objects[j + 1] && cs[j] == contents[j + 1]);
            }
            assert(is_kept(contents[0]) ==> objects[0] != o);
            assert(all.contains_key(o) == first.contains_key(o));
        }
    }
}

/// Whether a note was made of a content that is kept.
pub open spec fn is_made_of(note: Seq<char>, content: Seq<u8>) -> bool {
    is_kept(content) && note == note_in(content)
}

/// Whether every note is worth showing: it was made of a content that is kept, and has no white
/// space around it.
pub open spec fn all_presentable(notes: Map<Seq<char>, Seq<char>>) -> bool {
    forall|o: Seq<char>| #[trigger]
        notes.contains_key(o) ==> trim(notes[o]) == notes[o] && exists|content: Seq<u8>|
            is_made_of(notes[o], content)
}

/// Whatever a batch holds, every note that is read from it is worth showing.
pub proof fn law_kept_notes_are_presentable(
    batch: Seq<u8>,
    objects: Seq<Seq<char>>,
    notes: Map<Seq<char>, Seq<char>>,
)
    requires
        all_presentable(notes),
    ensures
        all_presentable(batch_notes(batch, objects, notes)),
    decreases objects.len(),
{
    if batch.len() > 0 && objects.len() > 0 {
        if let Some((size, body)) = record_start(batch) {
            let content = body.take(size as int);
            let next = with_record(notes, objects[0], content);
            lemma_trim_idempotent(decoded(content));
            assert(is_kept(content) ==> is_made_of(note_in(content), content));
            assert forall|o: Seq<char>| #[trigger] next.contains_key(o) implies trim(next[o])
                == next[o] && exists|c: Seq<u8>| is_made_of(next[o], c) by {
                if o != objects[0] || !is_kept(content) {
                    assert(notes.contains_key(o));
                }
            }
            law_kept_notes_are_presentable(
                skip_newline(body.skip(size as int)),
                objects.drop_first(),
                next,
            );
        }
    }
}

} // verus!
