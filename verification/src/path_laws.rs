//! What holds of every file and the directories above it.

use crate::git::Reply;
use crate::paths::{
    after_components, components, dir_of, file_uri_path, has_root, is_component, lemma_piece_end,
    lemma_piece_end_at, lemma_spans, located, name_in, parent, piece_end, platform_parent,
    platform_stripped, spans, stripped, without_end, DOT, SLASH,
};
use crate::reply_laws::{law_odd_outputs_are_read, law_replies_are_read};
use crate::text_laws::{is_blank, is_tidy};
use vstd::prelude::*;
use vstd::utf8::{encode_utf8, encode_utf8_decode_utf8, encode_utf8_valid_utf8, valid_utf8};

verus! {

/// Positions in a text, as they are once the text stands behind another of length `d`.
spec fn shifted(s: Seq<(int, int)>, d: int) -> Seq<(int, int)> {
    Seq::new(s.len(), |k: int| (s[k].0 + d, s[k].1 + d))
}

/// The components of a path are those before a slash and those after it.
proof fn lemma_spans_split(p: Seq<u8>, i: int, m: int)
    requires
        0 <= i <= m < p.len(),
        p[m] == SLASH,
    ensures
        spans(p, i) == spans(p.take(m), i) + spans(p, m + 1),
    decreases m + 1 - i,
{
    let q = p.take(m);
    lemma_piece_end(p, i);
    let e = piece_end(p, i);
    if e > m {
        assert(p[m] != SLASH);
    }
    assert(forall|k: int| i <= k < e ==> #[trigger] q[k] == p[k]);
    assert(e < m ==> q[e] == p[e]);
    lemma_piece_end_at(q, i, e);
    assert(q.subrange(i, e) == p.subrange(i, e));
    if e < m {
        lemma_spans_split(p, e + 1, m);
        if is_component(p, i, e) {
            assert(seq![(i, e)] + (spans(q, e + 1) + spans(p, m + 1)) == (seq![(i, e)] + spans(
                q,
                e + 1,
            )) + spans(p, m + 1));
        }
    } else {
        assert(spans(q, m + 1) == Seq::<(int, int)>::empty());
        if i == m {
            assert(spans(q, i) == Seq::<(int, int)>::empty());
            assert(spans(q, i) + spans(p, m + 1) == spans(p, m + 1));
        } else if is_component(p, i, e) {
            assert(spans(q, i) == seq![(i, e)]);
        } else {
            assert(spans(q, i) == Seq::<(int, int)>::empty());
            assert(spans(q, i) + spans(p, m + 1) == spans(p, m + 1));
        }
    }
}

/// The components of a path stay what they are behind another path.
proof fn lemma_spans_shift(a: Seq<u8>, b: Seq<u8>, j: int)
    requires
        a.len() > 0,
        0 <= j,
        j == 0 ==> b.subrange(0, piece_end(b, 0)) != seq![DOT],
    ensures
        spans(a + b, a.len() + j) == shifted(spans(b, j), a.len() as int),
    decreases b.len() + 1 - j,
{
    let p = a + b;
    let d = a.len() as int;
    if j < b.len() {
        lemma_piece_end(b, j);
        let e = piece_end(b, j);
        assert forall|k: int| d + j <= k < d + e implies #[trigger] p[k] != SLASH by {
            assert(p[k] == b[k - d]);
        }
        assert(e < b.len() ==> p[d + e] == b[e]);
        lemma_piece_end_at(p, d + j, d + e);
        assert(p.subrange(d + j, d + e) == b.subrange(j, e));
        lemma_spans_shift(a, b, e + 1);
        let rest = spans(b, e + 1);
        if is_component(b, j, e) {
            assert(shifted(seq![(j, e)] + rest, d) == seq![(d + j, d + e)] + shifted(rest, d));
        }
    } else {
        assert(shifted(spans(b, j), d) == Seq::<(int, int)>::empty());
    }
}

/// Where a path ends in a component, a longer path has that component only in a longer form,
/// unless a slash follows.
proof fn lemma_spans_extend(base: Seq<u8>, tail: Seq<u8>, i: int)
    requires
        0 <= i,
        spans(base, i).len() > 0,
        spans(base, i).last().1 == base.len(),
        tail.len() > 0,
        tail[0] != SLASH,
    ensures
        spans(base + tail, i).len() >= spans(base, i).len(),
        spans(base + tail, i)[spans(base, i).len() - 1].0 == spans(base, i).last().0,
        spans(base + tail, i)[spans(base, i).len() - 1].1 > base.len(),
    decreases base.len() + 1 - i,
{
    let p = base + tail;
    lemma_piece_end(base, i);
    let e = piece_end(base, i);
    let rest = spans(base, e + 1);
    if e < base.len() {
        assert(forall|k: int| i <= k < e ==> #[trigger] p[k] == base[k]);
        assert(p[e] == base[e]);
        lemma_piece_end_at(p, i, e);
        assert(p.subrange(i, e) == base.subrange(i, e));
        if rest.len() == 0 {
            assert(spans(base, i) == seq![(i, e)]);
        }
        lemma_spans_extend(base, tail, e + 1);
        if is_component(base, i, e) {
            assert(spans(base, i) == seq![(i, e)] + rest);
            assert(spans(base, i).last() == rest.last());
            assert(spans(p, i)[rest.len() as int] == spans(p, e + 1)[rest.len() - 1]);
        }
    } else {
        assert(rest == Seq::<(int, int)>::empty());
        assert(is_component(base, i, e));
        assert(spans(base, i) == seq![(i, e)]);
        lemma_piece_end(p, i);
        let f = piece_end(p, i);
        if f < base.len() {
            assert(p[f] == base[f]);
        } else if f == base.len() {
            assert(p[f] == tail[0]);
        }
        assert(p.subrange(i, f).len() != seq![DOT].len());
        assert(is_component(p, i, f));
        assert(spans(p, i)[0] == (i, f));
    }
}

/// A file in a directory is called, in it, what its path says after the directory: a path that
/// goes on after the directory and a slash is taken apart there.
pub proof fn law_files_are_named_from_their_directory(base: Seq<u8>, name: Seq<u8>)
    requires
        base.len() > 0,
        name.len() > 0,
        !has_root(name),
        without_end(name) == name,
        components(name)[0] != seq![DOT],
    ensures
        stripped(base + seq![SLASH] + name, base) == Some(name),
{
    let a = base + seq![SLASH];
    let p = a + name;
    let m = base.len() as int;
    assert(p.take(m) == base);
    lemma_spans_split(p, 0, m);
    lemma_piece_end(name, 0);
    assert(spans(name, 0)[0] == (0int, piece_end(name, 0)));
    assert(components(name)[0] == name.subrange(0, piece_end(name, 0)));
    lemma_spans_shift(a, name, 0);
    lemma_spans(name, 0);
    lemma_spans(base, 0);
    let n = spans(base, 0).len() as int;
    let s = spans(p, 0);
    assert(s == spans(base, 0) + shifted(spans(name, 0), m + 1));
    assert forall|k: int| 0 <= k < n implies #[trigger] components(base)[k] == components(
        p,
    )[k] by {
        let span = spans(base, 0)[k];
        assert(s[k] == span);
        assert(base.subrange(span.0, span.1) == p.subrange(span.0, span.1));
    }
    assert(components(base) =~= components(p).subrange(0, n));
    assert(s[n] == (m + 1, m + 1 + piece_end(name, 0)));
    assert(spans(name, 0).last().1 == name.take(spans(name, 0).last().1).len());
    assert(s.last().1 == p.len());
    assert(p.subrange(m + 1, p.len() as int) == name);
    assert(after_components(p, n) == name);
}

/// A path that only starts with the same letters as a directory is not in it.
pub proof fn law_like_names_are_not_in_the_directory(base: Seq<u8>, tail: Seq<u8>)
    requires
        components(base).len() > 0,
        without_end(base) == base,
        tail.len() > 0,
        tail[0] != SLASH,
    ensures
        stripped(base + tail, base) is None,
{
    let p = base + tail;
    let n = spans(base, 0).len() as int;
    lemma_spans(base, 0);
    lemma_spans(p, 0);
    assert(base.take(spans(base, 0).last().1).len() == spans(base, 0).last().1);
    lemma_spans_extend(base, tail, 0);
    assert(spans(p, 0)[n - 1].1 <= p.len());
    assert(components(base)[n - 1].len() < components(p)[n - 1].len());
    if components(base).is_prefix_of(components(p)) {
        assert(components(base)[n - 1] == components(p).subrange(0, n)[n - 1]);
    }
}

/// A file is in the directory that its path names before the last slash.
pub proof fn law_files_are_in_their_directory(dir: Seq<u8>, name: Seq<u8>)
    requires
        components(dir).len() > 0,
        without_end(dir) == dir,
        name.len() > 0,
        !name.contains(SLASH),
        name != seq![DOT],
    ensures
        parent(dir + seq![SLASH] + name) == Some(dir),
{
    let a = dir + seq![SLASH];
    let p = a + name;
    let m = dir.len() as int;
    assert(p.take(m) == dir);
    lemma_spans_split(p, 0, m);
    lemma_piece_end_at(name, 0, name.len() as int);
    assert(name.subrange(0, name.len() as int) == name);
    lemma_spans_shift(a, name, 0);
    lemma_spans(dir, 0);
    assert(spans(name, name.len() as int + 1) == Seq::<(int, int)>::empty());
    assert(spans(name, 0) == seq![(0int, name.len() as int)]);
    assert(dir.take(spans(dir, 0).last().1).len() == spans(dir, 0).last().1);
    let s = spans(p, 0);
    assert(s.len() == spans(dir, 0).len() + 1);
    assert(s[s.len() - 2] == spans(dir, 0).last());
}

/// Whether these are the bytes of a plain name of a file or a directory: there are some, none of
/// them is a slash, and they are not just a dot.
pub open spec fn is_plain(name: Seq<u8>) -> bool {
    &&& name.len() > 0
    &&& forall|i: int| 0 <= i < name.len() ==> #[trigger] name[i] != 47
    &&& name != seq![46u8]
}

/// Whether all of these are plain names.
pub open spec fn all_plain(names: Seq<Seq<u8>>) -> bool {
    forall|i: int| 0 <= i < names.len() ==> is_plain(#[trigger] names[i])
}

/// The path that leads from the root along these names: a slash before each.
pub open spec fn path_along(names: Seq<Seq<u8>>) -> Seq<u8>
    decreases names.len(),
{
    if names.len() == 0 {
        Seq::empty()
    } else {
        path_along(names.drop_last()) + seq![47u8] + names.last()
    }
}

/// The path along these names, seen from where it starts: a slash between each two.
pub open spec fn relative_along(names: Seq<Seq<u8>>) -> Seq<u8> {
    if names.len() == 0 {
        Seq::empty()
    } else {
        path_along(names).drop_first()
    }
}

#[verifier::spinoff_prover]
#[verifier::rlimit(50)]
proof fn lemma_path_along(names: Seq<Seq<u8>>)
    requires
        all_plain(names),
    ensures
        names.len() > 0 ==> has_root(path_along(names)),
        spans(path_along(names), 0).len() == names.len(),
        forall|k: int|
            0 <= k < names.len() ==> #[trigger] spans(path_along(names), 0)[k] == (
                path_along(names.take(k)).len() as int + 1,
                path_along(names.take(k + 1)).len() as int,
            ),
        components(path_along(names)) == names,
    decreases names.len(),
{
    let p = path_along(names);
    if names.len() > 0 {
        let before = names.drop_last();
        let name = names.last();
        let base = path_along(before);
        assert(is_plain(names[names.len() - 1]));
        assert(forall|i: int| 0 <= i < before.len() ==> #[trigger] before[i] == names[i]);
        lemma_path_along(before);
        let a = base + seq![SLASH];
        let m = base.len() as int;
        assert(p == a + name);
        assert(p.take(m) == base);
        lemma_spans_split(p, 0, m);
        lemma_piece_end_at(name, 0, name.len() as int);
        assert(name.subrange(0, name.len() as int) == name);
        lemma_spans_shift(a, name, 0);
        assert(spans(name, name.len() as int + 1) == Seq::<(int, int)>::empty());
        assert(spans(name, 0) == seq![(0int, name.len() as int)]);
        assert(shifted(spans(name, 0), m + 1) == seq![(m + 1, p.len() as int)]);
        if m == 0 {
            assert(spans(base, 0) == Seq::<(int, int)>::empty());
        }
        let s = spans(p, 0);
        assert(s == spans(base, 0) + seq![(m + 1, p.len() as int)]);
        assert(names.take(names.len() as int) == names);
        assert(names.take(names.len() - 1) == before);
        assert forall|k: int| 0 <= k < names.len() implies #[trigger] s[k] == (
            path_along(names.take(k)).len() as int + 1,
            path_along(names.take(k + 1)).len() as int,
        ) by {
            if k < before.len() {
                assert(s[k] == spans(base, 0)[k]);
                assert(before.take(k) == names.take(k));
                assert(before.take(k + 1) == names.take(k + 1));
            }
        }
        lemma_spans(base, 0);
        assert forall|k: int| 0 <= k < names.len() implies #[trigger] components(p)[k]
            == names[k] by {
            if k < before.len() {
                let span = spans(base, 0)[k];
                assert(components(base)[k] == before[k]);
                assert(p.subrange(span.0, span.1) == base.subrange(span.0, span.1));
            } else {
                assert(p.subrange(m + 1, p.len() as int) == name);
            }
        }
        assert(components(p) =~= names);
        if before.len() > 0 {
            assert(p[0] == base[0]);
        } else {
            assert(base == Seq::<u8>::empty());
            assert(p[0] == SLASH);
        }
    } else {
        assert(components(p) =~= names);
    }
}

proof fn lemma_path_along_concat(a: Seq<Seq<u8>>, b: Seq<Seq<u8>>)
    ensures
        path_along(a + b) == path_along(a) + path_along(b),
    decreases b.len(),
{
    if b.len() == 0 {
        assert(a + b == a);
        assert(path_along(a) + path_along(b) == path_along(a));
    } else {
        assert((a + b).drop_last() == a + b.drop_last());
        assert((a + b).last() == b.last());
        lemma_path_along_concat(a, b.drop_last());
        assert(path_along(a) + (path_along(b.drop_last()) + seq![47u8] + b.last()) == path_along(a)
            + path_along(b.drop_last()) + seq![47u8] + b.last());
    }
}

/// The parent of a file is the path along all names but the last; that of a file at the root is the
/// root, which has none.
pub proof fn law_parents_leave_out_the_last_name(names: Seq<Seq<u8>>)
    requires
        all_plain(names),
        names.len() > 0,
    ensures
        names.len() > 1 ==> parent(path_along(names)) == Some(path_along(names.drop_last())),
        names.len() == 1 ==> parent(path_along(names)) == Some(seq![47u8]),
        parent(seq![47u8]) is None,
        parent(Seq::empty()) is None,
{
    let p = path_along(names);
    let n = names.len() as int;
    lemma_path_along(names);
    let base = path_along(names.drop_last());
    assert(names.take(n - 1) == names.drop_last());
    assert(p.take(base.len() as int) == base);
    if n > 1 {
        assert(spans(p, 0)[n - 2].1 == base.len());
    } else {
        assert(p.take(1) == seq![47u8]);
    }
    lemma_root_has_no_components();
}

proof fn lemma_root_has_no_components()
    ensures
        spans(seq![47u8], 0) == Seq::<(int, int)>::empty(),
        components(seq![47u8]) == Seq::<Seq<u8>>::empty(),
{
    let root = seq![SLASH];
    lemma_piece_end_at(root, 0, 0);
    assert(spans(root, 1) == Seq::<(int, int)>::empty());
    assert(components(root) =~= Seq::<Seq<u8>>::empty());
}

proof fn lemma_after(a: Seq<Seq<u8>>, b: Seq<Seq<u8>>)
    requires
        all_plain(a + b),
    ensures
        after_components(path_along(a + b), a.len() as int) == relative_along(b),
{
    let names = a + b;
    let p = path_along(names);
    lemma_path_along(names);
    lemma_path_along_concat(a, b);
    if b.len() > 0 {
        let n = a.len() as int;
        let last = names.len() - 1;
        assert(names.take(n) == a);
        assert(names.take(last + 1) == names);
        let s = spans(p, 0);
        assert(s[n].0 == path_along(a).len() + 1);
        assert(s[last].1 == p.len());
        assert(s.last() == s[last]);
        assert(path_along(b).len() > 0);
        assert(p.subrange(path_along(a).len() as int + 1, p.len() as int) == path_along(
            b,
        ).drop_first());
    } else {
        assert(names.len() == a.len());
    }
}

/// What a file is called in a directory is the path along the names that follow the directory's, and
/// nothing where the file is the directory itself.
pub proof fn law_names_follow_those_of_the_directory(a: Seq<Seq<u8>>, b: Seq<Seq<u8>>)
    requires
        all_plain(a + b),
        (a + b).len() > 0,
    ensures
        a.len() > 0 ==> stripped(path_along(a + b), path_along(a)) == Some(relative_along(b)),
        a.len() == 0 ==> stripped(path_along(b), seq![47u8]) == Some(relative_along(b)),
{
    lemma_path_along(a + b);
    assert(forall|i: int| 0 <= i < a.len() ==> #[trigger] (a + b)[i] == a[i]);
    assert(all_plain(a)) by {
        assert forall|i: int| 0 <= i < a.len() implies is_plain(#[trigger] a[i]) by {
            assert(is_plain((a + b)[i]));
        }
    }
    lemma_path_along(a);
    lemma_after(a, b);
    assert(a =~= (a + b).subrange(0, a.len() as int));
    if a.len() == 0 {
        assert(a + b == b);
        lemma_root_has_no_components();
        assert(components(seq![47u8]).is_prefix_of(components(path_along(b))));
    }
}

/// A file whose path does not begin with all of a directory's names is not in it.
pub proof fn law_other_files_are_not_in_the_directory(
    names: Seq<Seq<u8>>,
    dir: Seq<Seq<u8>>,
)
    requires
        all_plain(names),
        all_plain(dir),
        dir.len() > 0,
        dir.len() > names.len() || exists|i: int|
            0 <= i < dir.len() && #[trigger] names[i] != dir[i],
    ensures
        stripped(path_along(names), path_along(dir)) is None,
{
    lemma_path_along(names);
    lemma_path_along(dir);
    if dir.is_prefix_of(names) {
        let i = choose|i: int| 0 <= i < dir.len() && #[trigger] names[i] != dir[i];
        assert(dir[i] == names.subrange(0, dir.len() as int)[i]);
    }
}

/// A slash at the end of a path changes nothing of what it names.
pub proof fn law_slashes_at_the_end_do_not_matter(p: Seq<u8>, base: Seq<u8>)
    requires
        p.len() > 0,
        base.len() > 0,
    ensures
        parent(p + seq![47u8]) == parent(p),
        stripped(p, base + seq![47u8]) == stripped(p, base),
        stripped(p + seq![47u8], base) == stripped(p, base),
{
    lemma_slash_at_the_end(p);
    lemma_slash_at_the_end(base);
    let q = p + seq![47u8];
    let s = spans(p, 0);
    lemma_spans(p, 0);
    if s.len() > 1 {
        assert(q.take(s[s.len() - 2].1) == p.take(s[s.len() - 2].1));
    }
    assert(q.take(1) == p.take(1));
    let n = components(base).len() as int;
    if n < s.len() {
        assert(0 <= s[n].0 < s[n].1 <= p.len());
        assert(s.last() == s[s.len() - 1]);
        if n < s.len() - 1 {
            assert(s[n].1 < s[s.len() - 1].0);
        }
        assert(q.subrange(s[n].0, s.last().1) == p.subrange(s[n].0, s.last().1));
    }
}

proof fn lemma_slash_at_the_end(p: Seq<u8>)
    requires
        p.len() > 0,
    ensures
        spans(p + seq![47u8], 0) == spans(p, 0),
        components(p + seq![47u8]) == components(p),
        has_root(p + seq![47u8]) == has_root(p),
{
    let q = p + seq![47u8];
    let m = p.len() as int;
    assert(q.take(m) == p);
    lemma_spans_split(q, 0, m);
    assert(spans(q, m + 1) == Seq::<(int, int)>::empty());
    assert(spans(p, 0) + Seq::<(int, int)>::empty() == spans(p, 0));
    lemma_spans(p, 0);
    assert forall|k: int| 0 <= k < components(p).len() implies #[trigger] components(q)[k]
        == components(p)[k] by {
        let span = spans(p, 0)[k];
        assert(q.subrange(span.0, span.1) == p.subrange(span.0, span.1));
    }
    assert(components(q) =~= components(p));
    assert(q[0] == p[0]);
}

/// The directory of a file that is told to git is the text of the path along all names but the
/// last, and what the file is called in a repository the text of the path along the names that
/// follow the repository's.
pub proof fn law_files_are_told_to_git_by_their_names(
    dir: Seq<char>,
    name: Seq<char>,
    a: Seq<Seq<u8>>,
    b: Seq<Seq<u8>>,
)
    requires
        all_plain(a + b),
        a.len() > 0,
        b.len() > 0,
        encode_utf8(dir) == path_along(a),
        encode_utf8(name) == relative_along(b),
    ensures
        name_in(path_along(a + b), dir) == Some(name),
        b.len() == 1 ==> dir_of(path_along(a + b)) == Some(dir),
{
    lemma_path_along(a + b);
    law_names_follow_those_of_the_directory(a, b);
    encode_utf8_valid_utf8(name);
    encode_utf8_decode_utf8(name);
    encode_utf8_valid_utf8(dir);
    encode_utf8_decode_utf8(dir);
    if b.len() == 1 {
        law_parents_leave_out_the_last_name(a + b);
        assert((a + b).drop_last() == a);
    }
}

/// The repository that git tells of is the one that the file is looked for in.
pub proof fn law_files_are_located(
    uri: Seq<char>,
    root: Seq<char>,
    before: Seq<char>,
    after: Seq<char>,
    name: Seq<char>,
    a: Seq<Seq<u8>>,
    b: Seq<Seq<u8>>,
    stderr: Seq<u8>,
)
    requires
        file_uri_path(uri) == Some(path_along(a + b)),
        all_plain(a + b),
        a.len() > 0,
        b.len() > 0,
        encode_utf8(root) == path_along(a),
        encode_utf8(name) == relative_along(b),
        is_blank(before),
        is_blank(after),
        is_tidy(root),
    ensures
        located(
            uri,
            (Reply::Exited {
                success: true,
                stdout: encode_utf8(before + root + after),
                stderr,
            }),
        ) == Some((root, name)),
{
    law_replies_are_read(before, root, after, stderr);
    law_files_are_told_to_git_by_their_names(root, name, a, b);
}

/// The components of a path stay what they are when what stands before them is changed.
proof fn lemma_spans_behind(x: Seq<u8>, y: Seq<u8>, b: Seq<u8>, j: int)
    requires
        x.len() > 0,
        y.len() > 0,
        0 <= j,
    ensures
        spans(y + b, y.len() + j) == shifted(spans(x + b, x.len() + j), y.len() - x.len()),
    decreases b.len() + 1 - j,
{
    let p = x + b;
    let q = y + b;
    let d = y.len() - x.len();
    let i = x.len() + j;
    if j < b.len() {
        lemma_piece_end(p, i);
        let e = piece_end(p, i);
        assert forall|k: int| i + d <= k < e + d implies #[trigger] q[k] != SLASH by {
            assert(q[k] == p[k - d]);
        }
        assert(e < p.len() ==> q[e + d] == p[e]);
        lemma_piece_end_at(q, i + d, e + d);
        assert(q.subrange(i + d, e + d) == p.subrange(i, e));
        lemma_spans_behind(x, y, b, e + 1 - x.len());
        let rest = spans(p, e + 1);
        if is_component(p, i, e) {
            assert(shifted(seq![(i, e)] + rest, d) == seq![(i + d, e + d)] + shifted(rest, d));
        }
    } else {
        assert(shifted(spans(p, i), d) == Seq::<(int, int)>::empty());
    }
}

/// Neither a second slash between two names nor a dot between two slashes names anything.
proof fn lemma_between(p: Seq<u8>, between: Seq<u8>, q: Seq<u8>)
    requires
        p.len() > 0,
        between == seq![47u8, 47u8] || between == seq![47u8, 46u8, 47u8],
    ensures
        components(p + between + q) == components(p + seq![47u8] + q),
        has_root(p + between + q) == has_root(p + seq![47u8] + q),
{
    let m = p.len() as int;
    let x = p + seq![47u8];
    let y = p + between;
    let a = x + q;
    let b = y + q;
    assert(a.take(m) == p);
    assert(b.take(m) == p);
    lemma_spans_split(a, 0, m);
    lemma_spans_split(b, 0, m);
    if between.len() == 2 {
        lemma_piece_end_at(b, m + 1, m + 1);
    } else {
        lemma_piece_end_at(b, m + 1, m + 2);
        assert(b.subrange(m + 1, m + 2) == seq![DOT]);
    }
    assert(spans(b, m + 1) == spans(b, y.len() as int));
    lemma_spans_behind(x, y, q, 0);
    let d = y.len() - x.len();
    let before = spans(p, 0);
    let after = spans(a, m + 1);
    assert(spans(a, 0) == before + after);
    assert(spans(b, 0) == before + shifted(after, d));
    lemma_spans(p, 0);
    lemma_spans(a, m + 1);
    assert forall|k: int| 0 <= k < components(a).len() implies #[trigger] components(b)[k]
        == components(a)[k] by {
        if k < before.len() {
            let span = before[k];
            assert(spans(a, 0)[k] == span && spans(b, 0)[k] == span);
            assert(a.subrange(span.0, span.1) == p.subrange(span.0, span.1));
            assert(b.subrange(span.0, span.1) == p.subrange(span.0, span.1));
        } else {
            let span = after[k - before.len()];
            assert(spans(a, 0)[k] == span);
            assert(spans(b, 0)[k] == (span.0 + d, span.1 + d));
            assert(b.subrange(span.0 + d, span.1 + d) == a.subrange(span.0, span.1));
        }
    }
    assert(components(b) =~= components(a));
    assert(a[0] == p[0] && b[0] == p[0]);
}

/// A second slash between two names of a directory, or a dot between two slashes, changes nothing of
/// what the files in it are called; nor does a dot at the end.
pub proof fn law_spellings_of_a_directory_do_not_matter(
    file: Seq<u8>,
    p: Seq<u8>,
    q: Seq<u8>,
)
    requires
        p.len() > 0,
    ensures
        stripped(file, p + seq![47u8, 47u8] + q) == stripped(file, p + seq![47u8] + q),
        stripped(file, p + seq![47u8, 46u8, 47u8] + q) == stripped(file, p + seq![47u8] + q),
        stripped(file, p + seq![47u8, 46u8]) == stripped(file, p),
{
    lemma_between(p, seq![47u8, 47u8], q);
    lemma_between(p, seq![47u8, 46u8, 47u8], q);
    let none = Seq::<u8>::empty();
    let dotted = p + seq![47u8, 46u8];
    lemma_between(p, seq![47u8, 46u8, 47u8], none);
    assert(p + seq![47u8, 46u8, 47u8] + none == dotted + seq![47u8]);
    assert(p + seq![47u8] + none == p + seq![47u8]);
    lemma_slash_at_the_end(dotted);
    lemma_slash_at_the_end(p);
}

/// Where the directory is not told, a file is called what its path says; and a path that starts at
/// the root is not in a directory that does not, nor the other way round.
pub proof fn law_paths_are_compared_from_their_start(names: Seq<Seq<u8>>, p: Seq<u8>, q: Seq<u8>)
    requires
        all_plain(names),
        names.len() > 0,
        p.len() > 0,
        q.len() > 0,
        p[0] != 47u8,
    ensures
        stripped(path_along(names), Seq::empty()) == Some(path_along(names)),
        stripped(seq![47u8] + q, p) is None,
        stripped(p, seq![47u8] + q) is None,
{
    let path = path_along(names);
    lemma_path_along(names);
    assert(names.take(names.len() as int) == names);
    assert(spans(path, 0).last() == spans(path, 0)[names.len() - 1]);
    assert(path.take(path.len() as int) == path);
}

/// The parent of a file that is named without the root is the path along all names but the last, and
/// nothing where there is just one.
#[verifier::spinoff_prover]
#[verifier::rlimit(50)]
pub proof fn law_parents_of_relative_paths(names: Seq<Seq<u8>>)
    requires
        all_plain(names),
        names.len() > 0,
    ensures
        parent(relative_along(names)) == Some(relative_along(names.drop_last())),
{
    let whole = path_along(names);
    let p = relative_along(names);
    let n = names.len() as int;
    let root = seq![SLASH];
    lemma_path_along(names);
    assert(whole == root + p);
    lemma_piece_end_at(whole, 0, 0);
    assert(spans(whole, 0) == spans(whole, 1));
    assert(path_along(names.take(0)).len() == 0) by {
        assert(names.take(0) == Seq::<Seq<u8>>::empty());
    }
    assert(spans(whole, 0)[0].0 == 1);
    lemma_piece_end(whole, 1);
    let e = piece_end(whole, 1);
    lemma_spans(whole, e + 1);
    assert(is_component(whole, 1, e)) by {
        if !is_component(whole, 1, e) {
            assert(spans(whole, 1) == spans(whole, e + 1));
            assert(spans(whole, e + 1)[0].0 >= e + 1);
        }
    }
    assert(whole[1] != SLASH);
    assert(p[0] == whole[1]);
    lemma_piece_end(p, 0);
    assert forall|k: int| 0 <= k < e - 1 implies #[trigger] p[k] != SLASH by {
        assert(p[k] == whole[k + 1]);
    }
    assert(e < whole.len() ==> p[e - 1] == whole[e]);
    lemma_piece_end_at(p, 0, e - 1);
    assert(p.subrange(0, e - 1) == whole.subrange(1, e));
    lemma_spans_shift(root, p, 0);
    let s = spans(p, 0);
    assert(s.len() == n);
    if n > 1 {
        let before = path_along(names.drop_last());
        assert(names.take(n - 1) == names.drop_last());
        assert(spans(whole, 0)[n - 2].1 == before.len());
        assert(spans(whole, 0)[n - 2] == (s[n - 2].0 + 1, s[n - 2].1 + 1));
        assert(whole.take(before.len() as int) == before);
        assert(p.take(before.len() - 1) == before.drop_first());
    } else {
        assert(names.drop_last().len() == 0);
    }
}

/// A path that does not start at the root is taken apart as the platform does, if it is a text; one
/// that is not has no directory and is nowhere.
pub proof fn law_other_paths_are_for_the_platform(path: Seq<char>, bytes: Seq<u8>, root: Seq<char>)
    ensures
        encode_utf8(path).len() == 0 || encode_utf8(path)[0] != 47 ==> dir_of(encode_utf8(path))
            == platform_parent(path) && name_in(encode_utf8(path), root) == platform_stripped(
            path,
            root,
        ),
        !valid_utf8(bytes) && bytes.len() > 0 && bytes[0] != 47 ==> dir_of(bytes) is None
            && name_in(bytes, root) is None,
{
    encode_utf8_valid_utf8(path);
    encode_utf8_decode_utf8(path);
}

/// A file is looked for wherever git says that the repository is, even nowhere; and there is none
/// where git does not say so, where it is elsewhere, or where the identifier names no file.
pub proof fn law_files_may_not_be_located(
    uri: Seq<char>,
    root: Seq<char>,
    stdout: Seq<u8>,
    stderr: Seq<u8>,
    reason: Seq<char>,
)
    ensures
        located(uri, (Reply::Exited { success: false, stdout, stderr })) is None,
        located(uri, Reply::NotStarted(reason)) is None,
        file_uri_path(uri) is None ==> located(
            uri,
            (Reply::Exited { success: true, stdout, stderr }),
        ) is None,
        is_tidy(root) && file_uri_path(uri) is Some && name_in(file_uri_path(uri)->Some_0, root)
            is None ==> located(
            uri,
            (Reply::Exited { success: true, stdout: encode_utf8(root), stderr }),
        ) is None,
        is_blank(root) && file_uri_path(uri) is Some ==> located(
            uri,
            (Reply::Exited { success: true, stdout: encode_utf8(root), stderr }),
        ) == match name_in(file_uri_path(uri)->Some_0, Seq::empty()) {
            Some(name) => Some((Seq::<char>::empty(), name)),
            None => None,
        },
{
    if is_tidy(root) {
        let none = Seq::<char>::empty();
        law_replies_are_read(none, root, none, stderr);
        assert(none + root + none == root);
    }
    if is_blank(root) {
        law_odd_outputs_are_read(stdout, root, stderr);
    }
}

} // verus!
