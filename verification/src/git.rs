//! Commands for git and what comes back from them.
//!
//! The crate runs nothing itself: it says which arguments to hand to git, and reads what git
//! answered.

use crate::text::texts;
use crate::words::{trim, trimmed};
use vstd::prelude::*;
use vstd::utf8::{decode_utf8, valid_utf8};

verus! {

/// What a run of git left behind.
pub struct GitOutput {
    pub success: bool,
    pub stdout: Vec<u8>,
    pub stderr: Vec<u8>,
}

/// What became of a command: git could not be started, for the reason given, or it ran.
pub enum GitReply {
    NotStarted(String),
    Exited(GitOutput),
}

/// The mathematical reading of a [`GitReply`].
pub enum Reply {
    NotStarted(Seq<char>),
    Exited { success: bool, stdout: Seq<u8>, stderr: Seq<u8> },
}

impl View for GitReply {
    type V = Reply;

    open spec fn view(&self) -> Reply {
        match *self {
            GitReply::NotStarted(reason) => Reply::NotStarted(reason@),
            GitReply::Exited(output) => Reply::Exited {
                success: output.success,
                stdout: output.stdout@,
                stderr: output.stderr@,
            },
        }
    }
}

/// What `String::from_utf8_lossy` makes of some bytes.
pub uninterp spec fn lossy_text(bytes: Seq<u8>) -> Seq<char>;

/// Calls `String::from_utf8_lossy`. Its result depends on the bytes alone; bytes that are valid
/// UTF-8 are decoded as they stand.
#[verifier::external_body]
pub(crate) fn decode_lossy(bytes: &Vec<u8>) -> (r: String)
    ensures
        r@ == lossy_text(bytes@),
        valid_utf8(bytes@) ==> r@ == decode_utf8(bytes@),
{
    String::from_utf8_lossy(bytes).into_owned()
}

/// The text that some bytes stand for: what they encode, and what is made of them where they are
/// not valid UTF-8.
pub open spec fn decoded(bytes: Seq<u8>) -> Seq<char> {
    if valid_utf8(bytes) {
        decode_utf8(bytes)
    } else {
        lossy_text(bytes)
    }
}

/// What git printed, where it succeeded.
pub open spec fn printed(reply: Reply) -> Option<Seq<char>> {
    match reply {
        Reply::Exited { success, stdout, .. } if success => Some(decoded(stdout)),
        _ => None,
    }
}

/// What git printed, trimmed, where it succeeded.
pub open spec fn printed_trimmed(reply: Reply) -> Option<Seq<char>> {
    match printed(reply) {
        Some(text) => Some(trim(text)),
        None => None,
    }
}

/// The text, or an empty one where there is none.
pub open spec fn or_empty(text: Option<Seq<char>>) -> Seq<char> {
    match text {
        Some(t) => t,
        None => Seq::empty(),
    }
}

/// The text of an optional string.
pub open spec fn opt_text(s: Option<String>) -> Option<Seq<char>> {
    match s {
        Some(t) => Some(t@),
        None => None,
    }
}

/// What git printed, where it succeeded.
pub fn run_git(reply: &GitReply) -> (r: Option<String>)
    ensures
        opt_text(r) == printed(reply@),
{
    match reply {
        GitReply::NotStarted(_) => None,
        GitReply::Exited(output) => if output.success {
            Some(decode_lossy(&output.stdout))
        } else {
            None
        },
    }
}

/// What git printed, without the white space around it, where it succeeded.
pub fn git(reply: &GitReply) -> (r: Option<String>)
    ensures
        opt_text(r) == printed_trimmed(reply@),
{
    match run_git(reply) {
        Some(text) => Some(trimmed(text.as_str())),
        None => None,
    }
}

/// The arguments that make git work in a directory.
pub open spec fn command_in(dir: Seq<char>, rest: Seq<Seq<char>>) -> Seq<Seq<char>> {
    seq!["-C"@, dir] + rest
}

/// The arguments that make git work in a directory.
pub fn git_command(dir: &str, rest: &[&str]) -> (r: Vec<String>)
    ensures
        texts(r@) == command_in(dir@, Seq::new(rest@.len(), |i: int| rest@[i]@)),
{
    let ghost want = Seq::new(rest@.len(), |i: int| rest@[i]@);
    let mut r: Vec<String> = Vec::new();
    r.push("-C".to_owned());
    r.push(dir.to_owned());
    let mut i: usize = 0;
    assert(texts(r@) == command_in(dir@, want.take(0)));
    while i < rest.len()
        invariant
            i <= rest@.len(),
            want == Seq::new(rest@.len(), |i: int| rest@[i]@),
            texts(r@) == command_in(dir@, want.take(i as int)),
        decreases rest@.len() - i,
    {
        let ghost before = texts(r@);
        r.push(rest[i].to_owned());
        assert(texts(r@) == before.push(want[i as int]));
        assert(before.push(want[i as int]) == command_in(dir@, want.take(i + 1)));
        i += 1;
    }
    assert(want.take(i as int) == want);
    r
}

} // verus!
