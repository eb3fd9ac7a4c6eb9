//! The notes of a repository, and the git outputs they are read from.

use crate::bytes::{
    byte_len, copy_range, cut_at, lemma_cut_at, lemma_encode_concat, lemma_encode_first,
    lemma_encode_holds_no_newline, NEWLINE,
};
use crate::decimal::{parse_size, size_in};
use crate::git::{decode_lossy, decoded};
use crate::lines::{lemma_upto, lemma_upto_at, lines, lines_of, upto};
use crate::text::{pair_texts, texts};
use crate::words::{trim, trimmed, words, words_of};
use vstd::hash_map::StringHashMap;
use vstd::prelude::*;
use vstd::utf8::{encode_utf8, encode_utf8_decode_utf8, encode_utf8_valid_utf8};

verus! {

/// The largest note that is kept, in bytes.
pub const MAX_NOTE_BLOB_SIZE: usize = 1_048_576;

/// The notes of a repository: for each annotated object, the text of its note.
pub struct Notes {
    map: StringHashMap<String>,
}

impl View for Notes {
    type V = Map<Seq<char>, Seq<char>>;

    closed spec fn view(&self) -> Map<Seq<char>, Seq<char>> {
        self.map@.map_values(|s: String| s@)
    }
}

impl Notes {
    /// No notes.
    pub fn new() -> (r: Notes)
        ensures
            r@ == Map::<Seq<char>, Seq<char>>::empty(),
    {
        let r = Notes { map: StringHashMap::new() };
        assert(r@ =~= Map::<Seq<char>, Seq<char>>::empty());
        r
    }

    /// Puts a note on an object, in place of the one it had.
    pub fn insert(&mut self, object: String, note: String)
        ensures
            final(self)@ == old(self)@.insert(object@, note@),
    {
        self.map.insert(object, note);
        assert(self@ =~= old(self)@.insert(object@, note@));
    }

    /// The note on an object.
    pub fn get(&self, object: &str) -> (r: Option<&String>)
        ensures
            match r {
                Some(note) => self@.contains_key(object@) && note@ == self@[object@],
                None => !self@.contains_key(object@),
            },
    {
        self.map.get(object)
    }

    /// Whether an object has a note.
    pub fn contains_key(&self, object: &str) -> (r: bool)
        ensures
            r == self@.contains_key(object@),
    {
        self.map.contains_key(object)
    }

    /// The number of annotated objects.
    pub fn len(&self) -> (n: usize)
        ensures
            n == self@.len(),
    {
        assert(self@.dom() =~= self.map@.dom());
        self.map.len()
    }

    /// Whether there are no notes.
    pub fn is_empty(&self) -> (r: bool)
        ensures
            r == (self@ == Map::<Seq<char>, Seq<char>>::empty()),
    {
        proof {
            assert(self@.dom() =~= self.map@.dom());
            if self.map@.is_empty() {
                assert(self@ =~= Map::<Seq<char>, Seq<char>>::empty());
            }
        }
        self.map.is_empty()
    }
}

/// The pair that one line of `git notes list` holds: its first two words.
pub open spec fn listed_pair(line: Seq<char>) -> Option<(Seq<char>, Seq<char>)> {
    if words(line).len() >= 2 {
        Some((words(line)[0], words(line)[1]))
    } else {
        None
    }
}

/// The pairs that lines of `git notes list` hold. Lines with fewer than two words hold none.
pub open spec fn listed_pairs(ls: Seq<Seq<char>>) -> Seq<(Seq<char>, Seq<char>)>
    decreases ls.len(),
{
    if ls.len() == 0 {
        Seq::empty()
    } else {
        match listed_pair(ls[0]) {
            Some(pair) => seq![pair] + listed_pairs(ls.drop_first()),
            None => listed_pairs(ls.drop_first()),
        }
    }
}

/// Reads `git notes list`: one line for each note, with the note's blob and the object that it
/// annotates.
pub fn parse_notes_list(output: &str) -> (r: Vec<(String, String)>)
    ensures
        pair_texts(r@) == listed_pairs(lines(output@)),
{
    let ls = lines_of(output);
    let mut r: Vec<(String, String)> = Vec::new();
    let mut i: usize = 0;
    let ghost all = lines(output@);
    assert(all.skip(0) == all);
    assert(pair_texts(r@) + listed_pairs(all) == listed_pairs(all));
    while i < ls.len()
        invariant
            i <= ls@.len(),
            all == lines(output@),
            texts(ls@) == all,
            pair_texts(r@) + listed_pairs(all.skip(i as int)) == listed_pairs(all),
        decreases ls@.len() - i,
    {
        let ghost before = pair_texts(r@);
        let ghost rest = all.skip(i + 1);
        let parts = words_of(ls[i].as_str());
        assert(all[i as int] == ls@[i as int]@);
        assert(all.skip(i as int).drop_first() == rest);
        if parts.len() >= 2 {
            assert(texts(parts@)[0] == parts@[0]@ && texts(parts@)[1] == parts@[1]@);
            let ghost pair = (parts@[0]@, parts@[1]@);
            r.push((parts[0].clone(), parts[1].clone()));
            assert(pair_texts(r@) == before.push(pair));
            assert(before.push(pair) + listed_pairs(rest) == before + (seq![pair] + listed_pairs(
                rest,
            )));
        }
        i += 1;
    }
    assert(all.skip(i as int) == Seq::<Seq<char>>::empty());
    assert(pair_texts(r@) + Seq::<(Seq<char>, Seq<char>)>::empty() == pair_texts(r@));
    r
}

/// The size of the record that a batch starts with and the bytes after its header, or nothing
/// where the batch does not start with a whole record.
pub open spec fn record_start(batch: Seq<u8>) -> Option<(nat, Seq<u8>)> {
    let n = upto(batch, NEWLINE) as int;
    let header = words(decoded(batch.take(n)));
    if n >= batch.len() || header.len() < 3 {
        None
    } else {
        match size_in(header[2]) {
            Some(size) => if batch.skip(n + 1).len() < size {
                None
            } else {
                Some((size, batch.skip(n + 1)))
            },
            None => None,
        }
    }
}

/// Bytes without the newline that they start with, if they do.
pub open spec fn skip_newline(b: Seq<u8>) -> Seq<u8> {
    if b.len() > 0 && b[0] == NEWLINE {
        b.drop_first()
    } else {
        b
    }
}

/// The note that a blob holds.
pub open spec fn note_in(content: Seq<u8>) -> Seq<char> {
    trim(decoded(content))
}

/// Whether a note with this content is kept: it is not too large, and not blank.
pub open spec fn is_kept(content: Seq<u8>) -> bool {
    content.len() <= MAX_NOTE_BLOB_SIZE && note_in(content).len() > 0
}

/// The notes after a record with this content has been read for an object.
pub open spec fn with_record(
    notes: Map<Seq<char>, Seq<char>>,
    object: Seq<char>,
    content: Seq<u8>,
) -> Map<Seq<char>, Seq<char>> {
    if is_kept(content) {
        notes.insert(object, note_in(content))
    } else {
        notes
    }
}

/// The notes that a batch adds for the objects, one record for each, as far as whole records go.
pub open spec fn batch_notes(
    batch: Seq<u8>,
    objects: Seq<Seq<char>>,
    notes: Map<Seq<char>, Seq<char>>,
) -> Map<Seq<char>, Seq<char>>
    decreases objects.len(),
{
    if batch.len() == 0 || objects.len() == 0 {
        notes
    } else {
        match record_start(batch) {
            None => notes,
            Some((size, body)) => batch_notes(
                skip_newline(body.skip(size as int)),
                objects.drop_first(),
                with_record(notes, objects[0], body.take(size as int)),
            ),
        }
    }
}

/// The objects of a list of blobs and objects.
pub open spec fn objects_of(pairs: Seq<(String, String)>) -> Seq<Seq<char>> {
    Seq::new(pairs.len(), |i: int| pairs[i].1@)
}

/// Finds the first newline from byte `from` on, or the end where there is none.
fn find_newline(b: &[u8], from: usize) -> (i: usize)
    requires
        from <= b@.len(),
    ensures
        from <= i <= b@.len(),
        i - from == upto(b@.skip(from as int), NEWLINE),
{
    let ghost t = b@.skip(from as int);
    let mut i: usize = from;
    while i < b.len() && b[i] != NEWLINE
        invariant
            from <= i <= b@.len(),
            t == b@.skip(from as int),
            forall|k: int| 0 <= k < i - from ==> #[trigger] t[k] != NEWLINE,
        decreases b@.len() - i,
    {
        assert(t[i - from] == b@[i as int]);
        i += 1;
    }
    proof {
        assert(i < b@.len() ==> t[i - from] == b@[i as int]);
        lemma_upto_at(t, NEWLINE, i - from);
    }
    i
}

/// Reads `git cat-file --batch`: for each blob a header with its type and its size in bytes,
/// exactly so many bytes of content, and a newline. `blob_to_object` says which object each blob
/// annotates, in the order in which the blobs were asked for. Each content is decoded by itself.
pub fn parse_batch(output: &[u8], blob_to_object: &[(String, String)]) -> (r: Notes)
    ensures
        r@ == batch_notes(output@, objects_of(blob_to_object@), Map::empty()),
{
    let mut notes = Notes::new();
    let mut pos: usize = 0;
    let mut idx: usize = 0;
    let ghost objects = objects_of(blob_to_object@);
    let ghost whole = batch_notes(output@, objects, Map::empty());
    assert(output@.skip(0) == output@);
    assert(objects.skip(0) == objects);
    while pos < output.len() && idx < blob_to_object.len()
        invariant
            pos <= output@.len(),
            idx <= blob_to_object@.len(),
            objects == objects_of(blob_to_object@),
            whole == batch_notes(output@, objects, Map::empty()),
            whole == batch_notes(output@.skip(pos as int), objects.skip(idx as int), notes@),
        decreases blob_to_object@.len() - idx,
    {
        let ghost rest = output@.skip(pos as int);
        let ghost left = objects.skip(idx as int);
        let ghost before = notes@;
        let header_end: usize = find_newline(output, pos);
        let ghost n = header_end - pos;
        if header_end == output.len() {
            return notes;
        }
        let header_bytes = copy_range(output, pos, header_end);
        let header = words_of(decode_lossy(&header_bytes).as_str());
        assert(rest.take(n) == output@.subrange(pos as int, header_end as int));
        if header.len() < 3 {
            return notes;
        }
        assert(texts(header@)[2] == header@[2]@);
        let size: usize = match parse_size(header[2].as_str()) {
            Some(size) => size,
            None => {
                return notes;
            },
        };
        let start: usize = header_end + 1;
        let ghost body = output@.skip(start as int);
        assert(rest.skip(n + 1) == body);
        if output.len() - start < size {
            return notes;
        }
        let end: usize = start + size;
        assert(body.take(size as int) == output@.subrange(start as int, end as int));
        assert(body.skip(size as int) == output@.skip(end as int));
        if size <= MAX_NOTE_BLOB_SIZE {
            let content = copy_range(output, start, end);
            let note = trimmed(decode_lossy(&content).as_str());
            if !note.as_str().is_empty() {
                notes.insert(blob_to_object[idx].1.clone(), note);
            }
        }
        assert(left[0] == objects[idx as int]);
        assert(notes@ == with_record(before, left[0], body.take(size as int)));
        assert(left.drop_first() == objects.skip(idx + 1));
        if end < output.len() && output[end] == NEWLINE {
            assert(skip_newline(body.skip(size as int)) == output@.skip(end + 1));
            pos = end + 1;
        } else {
            pos = end;
        }
        idx += 1;
    }
    notes
}

/// The size of the record that a batch in the form of a text starts with, in bytes, and the text
/// after its header.
pub open spec fn text_record_start(batch: Seq<char>) -> Option<(nat, Seq<char>)> {
    let n = upto(batch, '\n') as int;
    let header = words(batch.take(n));
    if n >= batch.len() || header.len() < 3 {
        None
    } else {
        match size_in(header[2]) {
            Some(size) => if byte_len(batch.skip(n + 1)) < size {
                None
            } else {
                Some((size, batch.skip(n + 1)))
            },
            None => None,
        }
    }
}

/// A text without the newline that it starts with, if it does.
pub open spec fn skip_newline_char(t: Seq<char>) -> Seq<char> {
    if t.len() > 0 && t[0] == '\n' {
        t.drop_first()
    } else {
        t
    }
}

/// The notes after a record with a text of this size has been read for an object.
pub open spec fn with_text(
    notes: Map<Seq<char>, Seq<char>>,
    object: Seq<char>,
    size: nat,
    content: Seq<char>,
) -> Map<Seq<char>, Seq<char>> {
    if size > MAX_NOTE_BLOB_SIZE || trim(content).len() == 0 {
        notes
    } else {
        notes.insert(object, trim(content))
    }
}

/// What `batch_notes` says of a batch that is a text. Nothing where a size ends inside a character.
pub open spec fn text_notes(
    batch: Seq<char>,
    objects: Seq<Seq<char>>,
    notes: Map<Seq<char>, Seq<char>>,
) -> Option<Map<Seq<char>, Seq<char>>>
    decreases objects.len(),
{
    if batch.len() == 0 || objects.len() == 0 {
        Some(notes)
    } else {
        match text_record_start(batch) {
            None => Some(notes),
            Some((size, body)) => match cut_at(body, size) {
                None => None,
                Some(k) => text_notes(
                    skip_newline_char(body.skip(k as int)),
                    objects.drop_first(),
                    with_text(notes, objects[0], size, body.take(k as int)),
                ),
            },
        }
    }
}

/// Decoding what a text is encoded as gives back the text.
pub proof fn lemma_decoded_encoding(t: Seq<char>)
    ensures
        decoded(encode_utf8(t)) == t,
{
    encode_utf8_valid_utf8(t);
    encode_utf8_decode_utf8(t);
}

proof fn lemma_text_record_start(batch: Seq<char>)
    requires
        batch.len() > 0,
    ensures
        record_start(encode_utf8(batch)) == match text_record_start(batch) {
            Some((size, body)) => Some((size, encode_utf8(body))),
            None => None,
        },
{
    let b = encode_utf8(batch);
    lemma_upto(batch, '\n');
    let n = upto(batch, '\n') as int;
    let head = batch.take(n);
    assert(!head.contains('\n')) by {
        if head.contains('\n') {
            assert(batch[head.index_of('\n')] == '\n');
        }
    }
    lemma_encode_holds_no_newline(head);
    let h = encode_utf8(head);
    assert forall|i: int| 0 <= i < h.len() implies #[trigger] h[i] != NEWLINE by {
        assert(h.contains(h[i]));
    }
    if n < batch.len() {
        let rest = batch.skip(n + 1);
        assert(batch == head + batch.skip(n));
        lemma_encode_concat(head, batch.skip(n));
        lemma_encode_first(batch.skip(n));
        assert(batch.skip(n).drop_first() == rest);
        assert(b == h + (seq![NEWLINE] + encode_utf8(rest)));
        assert forall|i: int| 0 <= i < h.len() implies #[trigger] b[i] != NEWLINE by {
            assert(b[i] == h[i]);
        }
        lemma_upto_at(b, NEWLINE, h.len() as int);
        assert(b.take(h.len() as int) == h);
        assert(b.skip(h.len() as int + 1) == encode_utf8(rest));
        lemma_decoded_encoding(head);
    } else {
        assert(head == batch);
        lemma_upto_at(b, NEWLINE, b.len() as int);
    }
}

/// Reading a batch that is a text gives what it says character by character, wherever every size
/// ends between two characters.
pub proof fn law_text_batches_are_read(
    batch: Seq<char>,
    objects: Seq<Seq<char>>,
    notes: Map<Seq<char>, Seq<char>>,
)
    ensures
        text_notes(batch, objects, notes) matches Some(r) ==> batch_notes(
            encode_utf8(batch),
            objects,
            notes,
        ) == r,
    decreases objects.len(),
{
    if batch.len() > 0 && objects.len() > 0 {
        lemma_encode_first(batch);
        lemma_text_record_start(batch);
        if let Some((size, body)) = text_record_start(batch) {
            lemma_cut_at(body, size);
            if let Some(k) = cut_at(body, size) {
                let content = body.take(k as int);
                let rest = body.skip(k as int);
                assert(body == content + rest);
                lemma_encode_concat(content, rest);
                let b = encode_utf8(body);
                assert(b.take(size as int) == encode_utf8(content));
                assert(b.skip(size as int) == encode_utf8(rest));
                lemma_decoded_encoding(content);
                if rest.len() > 0 {
                    lemma_encode_first(rest);
                    assert(rest[0] == '\n' ==> encode_utf8(rest).drop_first() == encode_utf8(
                        rest.drop_first(),
                    ));
                }
                law_text_batches_are_read(
                    skip_newline_char(rest),
                    objects.drop_first(),
                    with_text(notes, objects[0], size, content),
                );
            }
        }
    }
}

/// Reads `git cat-file --batch`, as [`parse_batch`] does, from a text.
pub fn parse_cat_file_batch(output: &str, blob_to_object: &[(String, String)]) -> (r: Notes)
    ensures
        r@ == batch_notes(encode_utf8(output@), objects_of(blob_to_object@), Map::empty()),
        text_notes(output@, objects_of(blob_to_object@), Map::empty()) matches Some(notes) ==> r@
            == notes,
{
    proof {
        law_text_batches_are_read(output@, objects_of(blob_to_object@), Map::empty());
    }
    parse_batch(output.as_bytes(), blob_to_object)
}

} // verus!
