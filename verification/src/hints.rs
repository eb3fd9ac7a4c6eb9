//! What the editor shows: a hint at the end of a line, and a card when pointing at it.

use crate::annotate::{line_notes, note_at, note_for_line, short_form, LineNote};
use crate::bytes::{byte_len, fit, fit_in, law_fit_is_longest, lemma_byte_len_concat};
use crate::git::{git, git_command, or_empty, printed_trimmed, GitReply};
use crate::lines::{first_line, first_line_of};
use crate::notes::Notes;
use crate::sha::{is_sha, is_valid_sha};
use crate::text::{chars_of, string_of, texts};
use crate::tools::details_command;
use vstd::prelude::*;
use vstd::string::*;
use vstd::utf8::is_ascii_chars_encode_utf8;

verus! {

/// A hint at the end of a line.
pub struct NoteHint {
    pub line: u32,
    pub character: u32,
    pub label: String,
    pub tooltip: String,
    pub padding_left: bool,
}

/// The mathematical reading of a [`NoteHint`].
pub struct Hint {
    pub line: u32,
    pub character: u32,
    pub label: Seq<char>,
    pub tooltip: Seq<char>,
    pub padding_left: bool,
}

impl View for NoteHint {
    type V = Hint;

    open spec fn view(&self) -> Hint {
        Hint {
            line: self.line,
            character: self.character,
            label: self.label@,
            tooltip: self.tooltip@,
            padding_left: self.padding_left,
        }
    }
}

/// The mathematical reading of some hints.
pub open spec fn hint_views(v: Seq<NoteHint>) -> Seq<Hint> {
    Seq::new(v.len(), |i: int| v[i]@)
}

/// The first line of a note, as a hint shows it. Of one that takes more than 60 bytes, only as many
/// whole characters as fit into 57.
pub open spec fn preview(note: Seq<char>) -> Seq<char> {
    let line = first_line(note);
    if byte_len(line) <= 60 {
        line
    } else {
        line.take(fit(line, 57) as int) + "..."@
    }
}

/// What a hint says: a lightning bolt, the commit, and a preview of its note.
pub open spec fn label_text(short: Seq<char>, preview: Seq<char>) -> Seq<char> {
    "⚡ ["@ + short + "] "@ + preview
}

/// What pointing at a hint says, in Markdown.
pub open spec fn tooltip_text(short: Seq<char>, note: Seq<char>) -> Seq<char> {
    "**Git Note** (`"@ + short + "`)\n\n---\n\n"@ + note
}

/// The hint for a note on a line.
pub open spec fn hint_for(entry: (u32, (Seq<char>, Seq<char>))) -> Hint {
    let short = short_form(entry.1.0);
    Hint {
        line: entry.0,
        character: u32::MAX,
        label: label_text(short, preview(entry.1.1)),
        tooltip: tooltip_text(short, entry.1.1),
        padding_left: true,
    }
}

/// The hints for some notes on lines, one for each.
pub open spec fn hints_for(entries: Seq<(u32, (Seq<char>, Seq<char>))>) -> Seq<Hint> {
    Seq::new(entries.len(), |i: int| hint_for(entries[i]))
}

/// The first line of a note, as a hint shows it.
fn preview_of(note: &str) -> (r: String)
    ensures
        r@ == preview(note@),
{
    let line = first_line_of(note);
    let chars = chars_of(line.as_str());
    proof {
        law_fit_is_longest(line@, 60);
        law_fit_is_longest(line@, 57);
    }
    if fit_in(&chars, 60) == chars.len() {
        return line;
    }
    let end: usize = fit_in(&chars, 57);
    let mut p = string_of(&chars, 0, end);
    assert(chars@.subrange(0, end as int) == chars@.take(end as int));
    p.append("...");
    p
}

/// The hint for a note on a line.
fn hint_of(line: u32, note: &LineNote) -> (r: NoteHint)
    ensures
        r@ == hint_for((line, note@)),
{
    let short = note.short_sha();
    let preview = preview_of(note.note.as_str());
    let mut label = "⚡ [".to_owned();
    label.append(short);
    label.append("] ");
    label.append(preview.as_str());
    let mut tooltip = "**Git Note** (`".to_owned();
    tooltip.append(short);
    tooltip.append("`)\n\n---\n\n");
    tooltip.append(note.note.as_str());
    NoteHint { line, character: u32::MAX, label, tooltip, padding_left: true }
}

/// The hints for some notes on lines, one for each.
pub fn inlay_hint(notes: &Vec<(u32, LineNote)>) -> (r: Vec<NoteHint>)
    ensures
        hint_views(r@) == hints_for(line_notes(notes@)),
{
    let mut hints: Vec<NoteHint> = Vec::new();
    let mut i: usize = 0;
    let ghost entries = line_notes(notes@);
    while i < notes.len()
        invariant
            i <= notes@.len(),
            entries == line_notes(notes@),
            hints@.len() == i,
            forall|k: int| 0 <= k < i ==> (#[trigger] hints@[k])@ == hint_for(entries[k]),
        decreases notes@.len() - i,
    {
        assert(entries[i as int] == (notes@[i as int].0, notes@[i as int].1@));
        hints.push(hint_of(notes[i].0, &notes[i].1));
        i += 1;
    }
    assert(hint_views(hints@) =~= hints_for(entries));
    hints
}

/// A card about a line: Markdown, and the columns of the line that it belongs to.
pub struct HoverCard {
    pub line: u32,
    pub start: u32,
    pub end: u32,
    pub markdown: String,
}

/// A card in the making: what git is to be asked, and the note that the card shows.
pub struct HoverQuery {
    pub line: u32,
    pub args: Vec<String>,
    pub note: LineNote,
}

/// The note that a card about a line shows: that of its commit, if that is named by a full
/// commit identifier.
pub open spec fn card_note(
    notes: Map<Seq<char>, Seq<char>>,
    commits: Seq<Seq<char>>,
    line: int,
) -> Option<(Seq<char>, Seq<char>)> {
    match note_at(notes, commits, line) {
        Some(note) if is_sha(note.0) => Some(note),
        _ => None,
    }
}

/// The Markdown of a card.
pub open spec fn card_text(short: Seq<char>, info: Seq<char>, note: Seq<char>) -> Seq<char> {
    "### Git Note\n\n**Commit:** `"@ + short + "`\n"@ + (if info.len() == 0 {
        Seq::empty()
    } else {
        "\n"@ + info + "\n"@
    }) + "\n\n---\n\n"@ + note
}

/// Starts a card about a line: finds its note, and asks git about its commit.
pub fn begin_hover(repo_root: &str, notes: &Notes, line_commits: &[String], line: u32) -> (r: Option<
    HoverQuery,
>)
    ensures
        match r {
            Some(q) => q.line == line && card_note(notes@, texts(line_commits@), line as int)
                == Some(q.note@) && texts(q.args@) == details_command(repo_root@, q.note@.0),
            None => card_note(notes@, texts(line_commits@), line as int) is None,
        },
{
    match note_for_line(notes, line_commits, line) {
        None => None,
        Some(note) => {
            if !is_valid_sha(note.commit.as_str()) {
                return None;
            }
            let args = git_command(
                repo_root,
                &["log", "--format=%h %an <%ae>%n%s", "-1", note.commit.as_str()],
            );
            assert(texts(args@) == details_command(repo_root@, note@.0));
            Some(HoverQuery { line, args, note })
        },
    }
}

/// Finishes a card, once git has answered about the commit.
pub fn hover(query: &HoverQuery, reply: &GitReply) -> (r: HoverCard)
    ensures
        r.line == query.line,
        r.start == 0,
        r.end == u32::MAX,
        r.markdown@ == card_text(
            short_form(query.note@.0),
            or_empty(printed_trimmed(reply@)),
            query.note@.1,
        ),
{
    let short = query.note.short_sha();
    let info = match git(reply) {
        Some(info) => info,
        None => String::new(),
    };
    let mut t = "### Git Note\n\n**Commit:** `".to_owned();
    t.append(short);
    t.append("`\n");
    if !info.as_str().is_empty() {
        t.append("\n");
        t.append(info.as_str());
        t.append("\n");
    }
    t.append("\n\n---\n\n");
    t.append(query.note.note.as_str());
    assert(t@ == card_text(short@, info@, query.note@.1));
    HoverCard { line: query.line, start: 0, end: u32::MAX, markdown: t }
}

/// A card shows the whole note, and so does what pointing at a hint says.
pub proof fn law_cards_show_the_note(short: Seq<char>, info: Seq<char>, note: Seq<char>)
    ensures
        note.is_suffix_of(card_text(short, info, note)),
        note.is_suffix_of(tooltip_text(short, note)),
{
    let card = card_text(short, info, note);
    assert(card.skip(card.len() - note.len()) == note);
    let tip = tooltip_text(short, note);
    assert(tip.skip(tip.len() - note.len()) == note);
}

/// A hint previews a note in at most 60 bytes. It shows the whole first line where that takes no
/// more, and else the longest start of it that leaves room for three dots.
pub proof fn law_previews_are_short(note: Seq<char>)
    ensures
        byte_len(preview(note)) <= 60,
        byte_len(first_line(note)) <= 60 ==> preview(note) == first_line(note),
        byte_len(first_line(note)) > 60 ==> exists|k: int|
            #![trigger first_line(note).take(k)]
            0 <= k < first_line(note).len() && preview(note) == first_line(note).take(k) + "..."@
                && byte_len(first_line(note).take(k)) <= 57 < byte_len(first_line(note).take(k + 1)),
{
    let line = first_line(note);
    if byte_len(line) > 60 {
        law_fit_is_longest(line, 57);
        let k = fit(line, 57) as int;
        let head = line.take(k);
        lemma_byte_len_concat(head, "..."@);
        reveal_strlit("...");
        is_ascii_chars_encode_utf8("..."@);
        assert(line.take(line.len() as int) == line);
        assert(byte_len(line.take(k + 1)) > 57);
    }
}

/// Every note on a line has a hint, at the end of that line, whatever characters it holds; pointing
/// at the hint shows the note.
pub proof fn law_every_note_has_a_hint(entries: Seq<(u32, (Seq<char>, Seq<char>))>)
    ensures
        hints_for(entries).len() == entries.len(),
        forall|i: int|
            0 <= i < entries.len() ==> (#[trigger] hints_for(entries)[i]).line == entries[i].0
                && preview(entries[i].1.1).is_suffix_of(hints_for(entries)[i].label)
                && entries[i].1.1.is_suffix_of(hints_for(entries)[i].tooltip),
{
    assert forall|i: int| 0 <= i < entries.len() implies (#[trigger] hints_for(entries)[i]).line
        == entries[i].0 && preview(entries[i].1.1).is_suffix_of(hints_for(entries)[i].label)
        && entries[i].1.1.is_suffix_of(hints_for(entries)[i].tooltip) by {
        let hint = hint_for(entries[i]);
        let shown = preview(entries[i].1.1);
        let note = entries[i].1.1;
        assert(hint.label.skip(hint.label.len() - shown.len()) == shown);
        assert(hint.tooltip.skip(hint.tooltip.len() - note.len()) == note);
    }
}

} // verus!
