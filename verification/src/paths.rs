//! Files by their URI: where git is to look for their repository, and what they are called in it.
//!
//! A path that starts with a slash, as all paths of files do on Unix, is a row of bytes in which
//! slashes separate the components, and is taken apart here. A path that does not is one of a
//! platform with drives and other separators. It is a text, and left to `std::path`.

use crate::bytes::copy_range;
use crate::git::{
    command_in, decode_lossy, decoded, git, git_command, opt_text, printed_trimmed, GitReply,
    Reply,
};
use crate::text::texts;
use vstd::prelude::*;
use vstd::string::*;
use vstd::utf8::{decode_utf8, encode_utf8, valid_utf8};

verus! {

/// What the `url` crate makes of a file URI on the target that the crate is built for: the path
/// that it names, or nothing where it names none.
pub uninterp spec fn file_uri_path(uri: Seq<char>) -> Option<Seq<u8>>;

/// Calls `Url::to_file_path` on the URL that the text holds. On a given target the path depends on
/// the text alone; a text that is not a URL names no path.
#[verifier::external_body]
fn uri_to_file_path(uri: &str) -> (r: Option<Vec<u8>>)
    ensures
        match r {
            Some(path) => file_uri_path(uri@) == Some(path@),
            None => file_uri_path(uri@) is None,
        },
{
    let url = tower_lsp::lsp_types::Url::parse(uri).ok()?;
    let path = url.to_file_path().ok()?;
    Some(path.into_os_string().into_encoded_bytes())
}

/// What `Path::parent` gives for a path, on the target that the crate is built for.
pub uninterp spec fn platform_parent(path: Seq<char>) -> Option<Seq<char>>;

/// Calls `Path::parent`. On a given target the result depends on the text alone.
#[verifier::external_body]
fn parent_on_platform(path: &str) -> (r: Option<String>)
    ensures
        match r {
            Some(dir) => platform_parent(path@) == Some(dir@),
            None => platform_parent(path@) is None,
        },
{
    let dir = std::path::Path::new(path).parent()?;
    dir.to_str().map(|text| text.to_owned())
}

/// What `Path::strip_prefix` gives for a path and another, on the target that the crate is built
/// for.
pub uninterp spec fn platform_stripped(path: Seq<char>, base: Seq<char>) -> Option<Seq<char>>;

/// Calls `Path::strip_prefix`. On a given target the result depends on the two texts alone.
#[verifier::external_body]
fn strip_on_platform(path: &str, base: &str) -> (r: Option<String>)
    ensures
        match r {
            Some(rest) => platform_stripped(path@, base@) == Some(rest@),
            None => platform_stripped(path@, base@) is None,
        },
{
    let rest = std::path::Path::new(path).strip_prefix(base).ok()?;
    rest.to_str().map(|text| text.to_owned())
}

/// Calls `String::from_utf8`, which decodes bytes that are valid UTF-8 and refuses all others.
#[verifier::external_body]
fn decode_strict(bytes: Vec<u8>) -> (r: Option<String>)
    ensures
        match r {
            Some(text) => valid_utf8(bytes@) && text@ == decode_utf8(bytes@),
            None => !valid_utf8(bytes@),
        },
{
    String::from_utf8(bytes).ok()
}

/// The separator of components.
pub const SLASH: u8 = 47;

/// The component that stands for the directory it is in.
pub const DOT: u8 = 46;

/// Whether a path starts at the root.
pub open spec fn has_root(p: Seq<u8>) -> bool {
    p.len() > 0 && p[0] == SLASH
}

/// Where the piece of a path that starts at `i` ends: at the next slash, or at the end.
pub open spec fn piece_end(p: Seq<u8>, i: int) -> int
    decreases p.len() - i,
{
    if i >= p.len() || p[i] == SLASH {
        i
    } else {
        piece_end(p, i + 1)
    }
}

/// Whether a piece is a component: it is not empty, and not a dot but for one at the very start.
pub open spec fn is_component(p: Seq<u8>, i: int, e: int) -> bool {
    i < e && (i == 0 || p.subrange(i, e) != seq![DOT])
}

/// Where the components of a path stand, from the piece that starts at `i` on.
pub open spec fn spans(p: Seq<u8>, i: int) -> Seq<(int, int)>
    decreases p.len() + 1 - i,
{
    if i >= p.len() || i < 0 {
        Seq::empty()
    } else {
        proof {
            lemma_piece_end(p, i);
        }
        let e = piece_end(p, i);
        let rest = spans(p, e + 1);
        if is_component(p, i, e) {
            seq![(i, e)] + rest
        } else {
            rest
        }
    }
}

/// The components of a path.
pub open spec fn components(p: Seq<u8>) -> Seq<Seq<u8>> {
    Seq::new(spans(p, 0).len(), |k: int| p.subrange(spans(p, 0)[k].0, spans(p, 0)[k].1))
}

/// A path without its last component, if it has one.
pub open spec fn parent(p: Seq<u8>) -> Option<Seq<u8>> {
    let s = spans(p, 0);
    if s.len() == 0 {
        None
    } else if s.len() > 1 {
        Some(p.take(s[s.len() - 2].1))
    } else if has_root(p) {
        Some(p.take(1))
    } else {
        Some(Seq::empty())
    }
}

/// A path without what follows its last component.
pub open spec fn without_end(p: Seq<u8>) -> Seq<u8> {
    let s = spans(p, 0);
    if s.len() > 0 {
        p.take(s.last().1)
    } else if has_root(p) {
        p.take(1)
    } else {
        Seq::empty()
    }
}

/// What a path says after its first `n` components.
pub open spec fn after_components(p: Seq<u8>, n: int) -> Seq<u8> {
    let s = spans(p, 0);
    if n < s.len() {
        p.subrange(s[n].0, s.last().1)
    } else {
        Seq::empty()
    }
}

/// What a path says after another, if it starts with the other's components.
pub open spec fn stripped(p: Seq<u8>, base: Seq<u8>) -> Option<Seq<u8>> {
    if base.len() == 0 {
        Some(without_end(p))
    } else if has_root(p) == has_root(base) && components(base).is_prefix_of(components(p)) {
        Some(after_components(p, components(base).len() as int))
    } else {
        None
    }
}

pub proof fn lemma_piece_end(p: Seq<u8>, i: int)
    requires
        0 <= i,
    ensures
        i <= piece_end(p, i),
        i <= p.len() ==> piece_end(p, i) <= p.len(),
        forall|k: int| i <= k < piece_end(p, i) ==> #[trigger] p[k] != SLASH,
        piece_end(p, i) < p.len() ==> p[piece_end(p, i)] == SLASH,
    decreases p.len() - i,
{
    if i < p.len() && p[i] != SLASH {
        lemma_piece_end(p, i + 1);
    }
}

pub proof fn lemma_piece_end_at(p: Seq<u8>, i: int, e: int)
    requires
        0 <= i <= e <= p.len(),
        forall|k: int| i <= k < e ==> #[trigger] p[k] != SLASH,
        e < p.len() ==> p[e] == SLASH,
    ensures
        piece_end(p, i) == e,
{
    lemma_piece_end(p, i);
    if piece_end(p, i) < e {
        assert(p[piece_end(p, i)] != SLASH);
    } else if e < piece_end(p, i) {
        assert(p[e] != SLASH);
    }
}

/// The components of a path stand in it one after the other.
pub proof fn lemma_spans(p: Seq<u8>, i: int)
    requires
        0 <= i,
    ensures
        forall|k: int|
            0 <= k < spans(p, i).len() ==> i <= (#[trigger] spans(p, i)[k]).0 < spans(p, i)[k].1
                <= p.len(),
        forall|j: int, k: int|
            0 <= j < k < spans(p, i).len() ==> (#[trigger] spans(p, i)[j]).1 < (
            #[trigger] spans(p, i)[k]).0,
    decreases p.len() + 1 - i,
{
    if i < p.len() {
        lemma_piece_end(p, i);
        let e = piece_end(p, i);
        lemma_spans(p, e + 1);
        let rest = spans(p, e + 1);
        if is_component(p, i, e) {
            assert(spans(p, i) == seq![(i, e)] + rest);
            assert forall|k: int| 0 <= k < spans(p, i).len() implies i <= (#[trigger] spans(
                p,
                i,
            )[k]).0 < spans(p, i)[k].1 <= p.len() by {
                if k > 0 {
                    assert(spans(p, i)[k] == rest[k - 1]);
                }
            }
            assert forall|j: int, k: int| 0 <= j < k < spans(p, i).len() implies (
            #[trigger] spans(p, i)[j]).1 < (#[trigger] spans(p, i)[k]).0 by {
                assert(spans(p, i)[k] == rest[k - 1]);
                if j > 0 {
                    assert(spans(p, i)[j] == rest[j - 1]);
                }
            }
        } else {
            assert(spans(p, i) == rest);
        }
    }
}

/// The mathematical reading of some positions.
spec fn span_views(v: Seq<(usize, usize)>) -> Seq<(int, int)> {
    Seq::new(v.len(), |k: int| (v[k].0 as int, v[k].1 as int))
}

/// Where the components of a path stand.
fn find_spans(p: &[u8]) -> (v: Vec<(usize, usize)>)
    ensures
        span_views(v@) == spans(p@, 0),
{
    let mut v: Vec<(usize, usize)> = Vec::new();
    let mut i: usize = 0;
    let len: usize = p.len();
    assert(span_views(v@) + spans(p@, 0) == spans(p@, 0));
    while i < len
        invariant
            len == p@.len(),
            i <= len,
            span_views(v@) + spans(p@, i as int) == spans(p@, 0),
        decreases len - i,
    {
        let ghost before = span_views(v@);
        let mut e: usize = i;
        while e < len && p[e] != SLASH
            invariant
                len == p@.len(),
                i <= e <= len,
                forall|k: int| i <= k < e ==> #[trigger] p@[k] != SLASH,
            decreases len - e,
        {
            e += 1;
        }
        proof {
            lemma_piece_end_at(p@, i as int, e as int);
        }
        let dot = e - i == 1 && p[i] == DOT;
        proof {
            let piece = p@.subrange(i as int, e as int);
            if dot {
                assert(piece == seq![DOT]);
            } else if piece == seq![DOT] {
                assert(piece.len() == 1 && piece[0] == DOT);
            }
        }
        let ghost rest = spans(p@, e + 1);
        if i < e && (i == 0 || !dot) {
            v.push((i, e));
            assert(span_views(v@) == before.push((i as int, e as int)));
            assert(before.push((i as int, e as int)) + rest == before + (seq![(i as int, e as int)]
                + rest));
        }
        if e == len {
            i = len;
        } else {
            i = e + 1;
        }
    }
    assert(span_views(v@) + Seq::<(int, int)>::empty() == span_views(v@));
    v
}

/// Whether two stretches of bytes are the same.
fn same_range(p: &[u8], a: (usize, usize), q: &[u8], b: (usize, usize)) -> (r: bool)
    requires
        a.0 <= a.1 <= p@.len(),
        b.0 <= b.1 <= q@.len(),
    ensures
        r == (p@.subrange(a.0 as int, a.1 as int) == q@.subrange(b.0 as int, b.1 as int)),
{
    let ghost x = p@.subrange(a.0 as int, a.1 as int);
    let ghost y = q@.subrange(b.0 as int, b.1 as int);
    if a.1 - a.0 != b.1 - b.0 {
        assert(x.len() != y.len());
        return false;
    }
    let n: usize = a.1 - a.0;
    let mut i: usize = 0;
    while i < n
        invariant
            i <= n,
            n == a.1 - a.0,
            n == b.1 - b.0,
            a.0 <= a.1 <= p@.len(),
            b.0 <= b.1 <= q@.len(),
            x == p@.subrange(a.0 as int, a.1 as int),
            y == q@.subrange(b.0 as int, b.1 as int),
            forall|k: int| 0 <= k < i ==> x[k] == y[k],
        decreases n - i,
    {
        assert(x[i as int] == p@[a.0 + i]);
        assert(y[i as int] == q@[b.0 + i]);
        if p[a.0 + i] != q[b.0 + i] {
            return false;
        }
        i += 1;
    }
    assert(x =~= y);
    true
}

/// Whether a path starts at the root.
fn rooted(p: &[u8]) -> (r: bool)
    ensures
        r == has_root(p@),
{
    p.len() > 0 && p[0] == SLASH
}

/// A path without its last component, if it has one.
pub fn path_parent(p: &[u8]) -> (r: Option<Vec<u8>>)
    ensures
        match r {
            Some(q) => parent(p@) == Some(q@),
            None => parent(p@) is None,
        },
{
    let s = find_spans(p);
    proof {
        lemma_spans(p@, 0);
    }
    let n: usize = s.len();
    assert(span_views(s@).len() == n);
    if n == 0 {
        return None;
    }
    if n > 1 {
        assert(span_views(s@)[n - 2] == (s@[n - 2].0 as int, s@[n - 2].1 as int));
        assert(p@.subrange(0, s@[n - 2].1 as int) == p@.take(s@[n - 2].1 as int));
        return Some(copy_range(p, 0, s[n - 2].1));
    }
    if rooted(p) {
        assert(p@.subrange(0, 1) == p@.take(1));
        return Some(copy_range(p, 0, 1));
    }
    Some(Vec::new())
}

/// What a path says after another, if it starts with the other's components.
pub fn strip_prefix(p: &[u8], base: &[u8]) -> (r: Option<Vec<u8>>)
    ensures
        match r {
            Some(q) => stripped(p@, base@) == Some(q@),
            None => stripped(p@, base@) is None,
        },
{
    let s = find_spans(p);
    let t = find_spans(base);
    proof {
        lemma_spans(p@, 0);
        lemma_spans(base@, 0);
    }
    let n: usize = s.len();
    let m: usize = t.len();
    let ghost ps = spans(p@, 0);
    let ghost bs = spans(base@, 0);
    assert(ps.len() == n && bs.len() == m);
    assert(forall|k: int| 0 <= k < n ==> #[trigger] ps[k] == (s@[k].0 as int, s@[k].1 as int));
    assert(forall|k: int| 0 <= k < m ==> #[trigger] bs[k] == (t@[k].0 as int, t@[k].1 as int));
    let p_root = rooted(p);
    if base.len() == 0 {
        if n > 0 {
            assert(ps[n - 1] == (s@[n - 1].0 as int, s@[n - 1].1 as int));
            assert(p@.subrange(0, s@[n - 1].1 as int) == p@.take(s@[n - 1].1 as int));
            return Some(copy_range(p, 0, s[n - 1].1));
        }
        if p_root {
            assert(p@.subrange(0, 1) == p@.take(1));
            return Some(copy_range(p, 0, 1));
        }
        return Some(Vec::new());
    }
    let base_root = rooted(base);
    if p_root != base_root {
        return None;
    }
    let ghost pc = components(p@);
    let ghost bc = components(base@);
    if m > n {
        assert(!bc.is_prefix_of(pc));
        return None;
    }
    let mut k: usize = 0;
    while k < m
        invariant
            k <= m <= n,
            n == s@.len(),
            m == t@.len(),
            ps == spans(p@, 0),
            bs == spans(base@, 0),
            pc == components(p@),
            bc == components(base@),
            ps.len() == n,
            bs.len() == m,
            p_root == has_root(p@),
            base_root == has_root(base@),
            p_root == base_root,
            base@.len() > 0,
            forall|j: int| 0 <= j < n ==> #[trigger] ps[j] == (s@[j].0 as int, s@[j].1 as int),
            forall|j: int| 0 <= j < m ==> #[trigger] bs[j] == (t@[j].0 as int, t@[j].1 as int),
            forall|j: int| 0 <= j < n ==> 0 <= (#[trigger] ps[j]).0 < ps[j].1 <= p@.len(),
            forall|j: int| 0 <= j < m ==> 0 <= (#[trigger] bs[j]).0 < bs[j].1 <= base@.len(),
            forall|j: int| 0 <= j < k ==> #[trigger] bc[j] == pc[j],
        decreases m - k,
    {
        assert(ps[k as int] == (s@[k as int].0 as int, s@[k as int].1 as int));
        assert(bs[k as int] == (t@[k as int].0 as int, t@[k as int].1 as int));
        assert(pc[k as int] == p@.subrange(ps[k as int].0, ps[k as int].1));
        assert(bc[k as int] == base@.subrange(bs[k as int].0, bs[k as int].1));
        if !same_range(p, s[k], base, t[k]) {
            assert(bc[k as int] != pc[k as int]);
            return None;
        }
        k += 1;
    }
    assert(bc =~= pc.take(m as int));
    assert(bc.is_prefix_of(pc));
    if m < n {
        assert(ps[m as int] == (s@[m as int].0 as int, s@[m as int].1 as int));
        assert(ps[n - 1] == (s@[n - 1].0 as int, s@[n - 1].1 as int));
        if m < n - 1 {
            assert(ps[m as int].1 < ps[n - 1].0);
        }
        Some(copy_range(p, s[m].0, s[n - 1].1))
    } else {
        Some(Vec::new())
    }
}

/// The text that a path is, if it is one.
pub open spec fn path_text(path: Seq<u8>) -> Option<Seq<char>> {
    if valid_utf8(path) {
        Some(decode_utf8(path))
    } else {
        None
    }
}

/// The directory that git is to look for a repository in: the one that holds the file. There is
/// none where it is no text.
pub open spec fn dir_of(path: Seq<u8>) -> Option<Seq<char>> {
    if has_root(path) {
        match parent(path) {
            Some(dir) => path_text(dir),
            None => None,
        }
    } else {
        match path_text(path) {
            Some(text) => platform_parent(text),
            None => None,
        }
    }
}

/// The arguments that make git tell where the repository of a directory starts.
pub open spec fn root_command(dir: Seq<char>) -> Seq<Seq<char>> {
    command_in(dir, seq!["rev-parse"@, "--show-toplevel"@])
}

/// What a file is called in a repository.
pub open spec fn name_in(path: Seq<u8>, root: Seq<char>) -> Option<Seq<char>> {
    if has_root(path) {
        match stripped(path, encode_utf8(root)) {
            Some(rest) => Some(decoded(rest)),
            None => None,
        }
    } else {
        match path_text(path) {
            Some(text) => platform_stripped(text, root),
            None => None,
        }
    }
}

/// What the file of a URI is called in a repository.
pub open spec fn uri_name_in(uri: Seq<char>, root: Seq<char>) -> Option<Seq<char>> {
    match file_uri_path(uri) {
        Some(path) => name_in(path, root),
        None => None,
    }
}

/// The mathematical reading of a repository and a file in it.
pub open spec fn file_texts(r: Option<(String, String)>) -> Option<(Seq<char>, Seq<char>)> {
    match r {
        Some((root, name)) => Some((root@, name@)),
        None => None,
    }
}

/// The repository that git told of, and what the file is called in it.
pub open spec fn located(uri: Seq<char>, reply: Reply) -> Option<(Seq<char>, Seq<char>)> {
    match printed_trimmed(reply) {
        Some(root) => match uri_name_in(uri, root) {
            Some(name) => Some((root, name)),
            None => None,
        },
        None => None,
    }
}

/// The directory of a file, as text.
pub fn directory_of(path: &[u8]) -> (r: Option<String>)
    ensures
        opt_text(r) == dir_of(path@),
{
    assert(path@.subrange(0, path@.len() as int) == path@);
    if rooted(path) {
        match path_parent(path) {
            Some(dir) => decode_strict(dir),
            None => None,
        }
    } else {
        match decode_strict(copy_range(path, 0, path.len())) {
            Some(text) => parent_on_platform(text.as_str()),
            None => None,
        }
    }
}

/// What to ask git for the repository of a file, if the file is in a directory that git can be
/// told of.
pub fn repo_root_for_uri(uri: &str) -> (r: Option<Vec<String>>)
    ensures
        match r {
            Some(args) => {
                &&& file_uri_path(uri@) matches Some(path)
                &&& dir_of(path) matches Some(dir)
                &&& texts(args@) == root_command(dir)
            },
            None => match file_uri_path(uri@) {
                Some(path) => dir_of(path) is None,
                None => true,
            },
        },
{
    match uri_to_file_path(uri) {
        Some(path) => match directory_of(path.as_slice()) {
            Some(dir) => {
                let args = git_command(dir.as_str(), &["rev-parse", "--show-toplevel"]);
                assert(texts(args@) == root_command(dir@));
                Some(args)
            },
            None => None,
        },
        None => None,
    }
}

/// What a file is called in a repository, if it is in it.
pub fn relative_name(path: &[u8], repo_root: &str) -> (r: Option<String>)
    ensures
        opt_text(r) == name_in(path@, repo_root@),
{
    assert(path@.subrange(0, path@.len() as int) == path@);
    if rooted(path) {
        match strip_prefix(path, repo_root.as_bytes()) {
            Some(rest) => Some(decode_lossy(&rest)),
            None => None,
        }
    } else {
        match decode_strict(copy_range(path, 0, path.len())) {
            Some(text) => strip_on_platform(text.as_str(), repo_root),
            None => None,
        }
    }
}

/// What the file of a URI is called in a repository, if it is in it.
pub fn relative_path(uri: &str, repo_root: &str) -> (r: Option<String>)
    ensures
        opt_text(r) == uri_name_in(uri@, repo_root@),
{
    match uri_to_file_path(uri) {
        Some(path) => relative_name(path.as_slice(), repo_root),
        None => None,
    }
}

/// The repository of a file and what the file is called in it, from what git answered to
/// [`repo_root_for_uri`].
pub fn resolve_file(uri: &str, reply: &GitReply) -> (r: Option<(String, String)>)
    ensures
        file_texts(r) == located(uri@, reply@),
{
    match git(reply) {
        Some(root) => match relative_path(uri, root.as_str()) {
            Some(name) => Some((root, name)),
            None => None,
        },
        None => None,
    }
}

} // verus!
