//! Results that are kept for a while.
//!
//! Times are nanoseconds on a clock that never goes back.

use crate::notes::Notes;
use crate::text::{same_text, texts};
use std::sync::Arc;
use vstd::prelude::*;

verus! {

/// How long the notes of a repository are kept, in seconds.
pub const NOTES_CACHE_TTL_SECS: u64 = 10;

/// How long the blame of a file is kept, in seconds.
pub const BLAME_CACHE_TTL_SECS: u64 = 5;

/// The number of files whose blame is kept.
pub const BLAME_CACHE_MAX_ENTRIES: usize = 50;

/// The nanoseconds in a second.
pub const NANOS_PER_SEC: u64 = 1_000_000_000;

/// The whole seconds from one time to a later one; none where the second is not later.
pub open spec fn whole_seconds(from: u64, to: u64) -> int {
    if to < from {
        0
    } else {
        (to - from) / (NANOS_PER_SEC as int)
    }
}

/// Whether something of this age is still good, for this many seconds.
pub open spec fn is_fresh(fetched_at: u64, now: u64, ttl: u64) -> bool {
    whole_seconds(fetched_at, now) < ttl
}

/// Whether something of this age is still good, for this many seconds.
fn fresh(fetched_at: u64, now: u64, ttl: u64) -> (r: bool)
    ensures
        r == is_fresh(fetched_at, now, ttl),
{
    now.saturating_sub(fetched_at) / NANOS_PER_SEC < ttl
}

/// The notes that were fetched last: of which repository, and when.
pub struct NotesCache {
    slot: Option<(String, Arc<Notes>, u64)>,
}

impl View for NotesCache {
    type V = Option<(Seq<char>, Map<Seq<char>, Seq<char>>, u64)>;

    closed spec fn view(&self) -> Option<(Seq<char>, Map<Seq<char>, Seq<char>>, u64)> {
        match self.slot {
            Some((repo_root, notes, at)) => Some((repo_root@, notes@, at)),
            None => None,
        }
    }
}

/// The notes of a repository that a cache hands out: those that it holds of this very repository,
/// if they are still good.
pub open spec fn cached_notes(
    slot: Option<(Seq<char>, Map<Seq<char>, Seq<char>>, u64)>,
    repo_root: Seq<char>,
    now: u64,
) -> Option<Map<Seq<char>, Seq<char>>> {
    match slot {
        Some((kept, notes, at)) if kept == repo_root && is_fresh(at, now, NOTES_CACHE_TTL_SECS) =>
            Some(notes),
        _ => None,
    }
}

impl NotesCache {
    /// A cache that holds nothing.
    pub fn new() -> (r: NotesCache)
        ensures
            r@ is None,
    {
        NotesCache { slot: None }
    }

    /// The notes that are kept of a repository, if they are still good.
    pub fn get(&self, repo_root: &str, now: u64) -> (r: Option<Arc<Notes>>)
        ensures
            match r {
                Some(notes) => cached_notes(self@, repo_root@, now) == Some(notes@),
                None => cached_notes(self@, repo_root@, now) is None,
            },
    {
        match &self.slot {
            Some((kept, notes, at)) => if same_text(kept.as_str(), repo_root) && fresh(
                *at,
                now,
                NOTES_CACHE_TTL_SECS,
            ) {
                Some(notes.clone())
            } else {
                None
            },
            None => None,
        }
    }

    /// Keeps the notes of a repository that were fetched now, in place of what was kept.
    pub fn put(&mut self, repo_root: String, notes: Arc<Notes>, now: u64)
        ensures
            final(self)@ == Some((repo_root@, notes@, now)),
    {
        self.slot = Some((repo_root, notes, now));
    }
}

/// The blame of a file, and when it was fetched.
struct BlameEntry {
    repo_root: String,
    file_path: String,
    commits: Vec<String>,
    fetched_at: u64,
}

/// The blames of the files that were looked at last.
pub struct BlameCache {
    entries: Vec<BlameEntry>,
}

/// The file of an entry: its repository, and what it is called there.
spec fn file_of(entry: BlameEntry) -> (Seq<char>, Seq<char>) {
    (entry.repo_root@, entry.file_path@)
}

/// Whether no file is kept twice.
spec fn unique(s: Seq<BlameEntry>) -> bool {
    forall|i: int, j: int|
        0 <= i < j < s.len() ==> file_of(#[trigger] s[i]) != file_of(#[trigger] s[j])
}

/// The blames by file.
spec fn by_file(s: Seq<BlameEntry>) -> Map<(Seq<char>, Seq<char>), (Seq<Seq<char>>, u64)>
    decreases s.len(),
{
    if s.len() == 0 {
        Map::empty()
    } else {
        by_file(s.drop_last()).insert(file_of(s.last()), (texts(s.last().commits@), s.last().fetched_at))
    }
}

/// Whether a file's blame is the one that was fetched first, or as early as any.
pub open spec fn is_oldest(
    blames: Map<(Seq<char>, Seq<char>), (Seq<Seq<char>>, u64)>,
    file: (Seq<char>, Seq<char>),
) -> bool {
    &&& blames.contains_key(file)
    &&& forall|k: (Seq<char>, Seq<char>)| #[trigger]
        blames.contains_key(k) ==> blames[file].1 <= blames[k].1
}

/// Whether `after` is what is kept once a blame joined `before`. Where there is no room for
/// another file, one whose blame is the oldest goes first.
pub open spec fn is_kept_after(
    before: Map<(Seq<char>, Seq<char>), (Seq<Seq<char>>, u64)>,
    after: Map<(Seq<char>, Seq<char>), (Seq<Seq<char>>, u64)>,
    file: (Seq<char>, Seq<char>),
    commits: Seq<Seq<char>>,
    now: u64,
) -> bool {
    if before.len() < BLAME_CACHE_MAX_ENTRIES {
        after == before.insert(file, (commits, now))
    } else {
        exists|oldest: (Seq<char>, Seq<char>)|
            #[trigger] is_oldest(before, oldest) && after == before.remove(oldest).insert(
                file,
                (commits, now),
            )
    }
}

/// The blame of a file that a cache hands out: the one that it holds, if it is still good.
pub open spec fn cached_blame(
    blames: Map<(Seq<char>, Seq<char>), (Seq<Seq<char>>, u64)>,
    file: (Seq<char>, Seq<char>),
    now: u64,
) -> Option<Seq<Seq<char>>> {
    if blames.contains_key(file) && is_fresh(blames[file].1, now, BLAME_CACHE_TTL_SECS) {
        Some(blames[file].0)
    } else {
        None
    }
}

proof fn lemma_by_file(s: Seq<BlameEntry>)
    requires
        unique(s),
    ensures
        forall|i: int|
            0 <= i < s.len() ==> by_file(s).contains_pair(
                file_of(#[trigger] s[i]),
                (texts(s[i].commits@), s[i].fetched_at),
            ),
        forall|k: (Seq<char>, Seq<char>)|
            #[trigger] by_file(s).contains_key(k) ==> exists|i: int|
                0 <= i < s.len() && file_of(#[trigger] s[i]) == k,
        by_file(s).dom().finite(),
        by_file(s).len() == s.len(),
    decreases s.len(),
{
    if s.len() > 0 {
        let t = s.drop_last();
        assert(forall|i: int| 0 <= i < t.len() ==> #[trigger] t[i] == s[i]);
        lemma_by_file(t);
        assert forall|i: int| 0 <= i < s.len() implies by_file(s).contains_pair(
            file_of(#[trigger] s[i]),
            (texts(s[i].commits@), s[i].fetched_at),
        ) by {
            if i < t.len() {
                assert(t[i] == s[i]);
                assert(file_of(s[i]) != file_of(s[s.len() - 1]));
            }
        }
        assert forall|k: (Seq<char>, Seq<char>)| #[trigger] by_file(s).contains_key(k) implies exists|i: int|
            0 <= i < s.len() && file_of(#[trigger] s[i]) == k by {
            if k == file_of(s.last()) {
                assert(file_of(s[s.len() - 1]) == k);
            } else {
                assert(by_file(t).contains_key(k));
                let i = choose|i: int| 0 <= i < t.len() && file_of(#[trigger] t[i]) == k;
                assert(file_of(s[i]) == k);
            }
        }
        if by_file(t).contains_key(file_of(s.last())) {
            let i = choose|i: int| 0 <= i < t.len() && file_of(#[trigger] t[i]) == file_of(s.last());
            assert(file_of(s[i]) == file_of(s[s.len() - 1]));
        }
    }
}

proof fn lemma_removed(s: Seq<BlameEntry>, i: int)
    requires
        unique(s),
        0 <= i < s.len(),
    ensures
        unique(s.remove(i)),
        by_file(s.remove(i)) == by_file(s).remove(file_of(s[i])),
{
    let t = s.remove(i);
    assert(forall|k: int| 0 <= k < t.len() ==> #[trigger] t[k] == s[if k < i {
        k
    } else {
        k + 1
    }]);
    assert(unique(t));
    lemma_by_file(s);
    lemma_by_file(t);
    let want = by_file(s).remove(file_of(s[i]));
    assert forall|k: (Seq<char>, Seq<char>)| by_file(t).contains_key(k) <==> want.contains_key(k) by {
        if by_file(t).contains_key(k) {
            let j = choose|j: int| 0 <= j < t.len() && file_of(#[trigger] t[j]) == k;
            let j2 = if j < i {
                j
            } else {
                j + 1
            };
            assert(file_of(s[j2]) == k);
            assert(file_of(s[j2]) != file_of(s[i]));
        }
        if want.contains_key(k) {
            let j = choose|j: int| 0 <= j < s.len() && file_of(#[trigger] s[j]) == k;
            let j2 = if j < i {
                j
            } else {
                j - 1
            };
            assert(file_of(t[j2]) == k);
        }
    }
    assert forall|k: (Seq<char>, Seq<char>)| by_file(t).contains_key(k) implies by_file(t)[k] == want[k] by {
        let j = choose|j: int| 0 <= j < t.len() && file_of(#[trigger] t[j]) == k;
        let j2 = if j < i {
            j
        } else {
            j + 1
        };
        assert(s[j2] == t[j]);
    }
    assert(by_file(t) =~= want);
}

/// The position of a file's entry.
fn find_entry(entries: &Vec<BlameEntry>, repo_root: &str, file_path: &str) -> (r: Option<usize>)
    requires
        unique(entries@),
    ensures
        match r {
            Some(i) => i < entries@.len() && file_of(entries@[i as int]) == (
                repo_root@,
                file_path@,
            ) && by_file(entries@).contains_pair(
                (repo_root@, file_path@),
                (texts(entries@[i as int].commits@), entries@[i as int].fetched_at),
            ),
            None => !by_file(entries@).contains_key((repo_root@, file_path@)) && forall|k: int|
                0 <= k < entries@.len() ==> file_of(#[trigger] entries@[k]) != (
                    repo_root@,
                    file_path@,
                ),
        },
{
    proof {
        lemma_by_file(entries@);
    }
    let mut i: usize = 0;
    while i < entries.len()
        invariant
            i <= entries@.len(),
            unique(entries@),
            forall|k: int|
                0 <= k < i ==> file_of(#[trigger] entries@[k]) != (repo_root@, file_path@),
        decreases entries@.len() - i,
    {
        if same_text(entries[i].repo_root.as_str(), repo_root) && same_text(
            entries[i].file_path.as_str(),
            file_path,
        ) {
            proof {
                lemma_by_file(entries@);
            }
            return Some(i);
        }
        i += 1;
    }
    None
}

/// The position of an entry that was fetched as early as any.
fn find_oldest(entries: &Vec<BlameEntry>) -> (r: usize)
    requires
        unique(entries@),
        entries@.len() > 0,
    ensures
        r < entries@.len(),
        is_oldest(by_file(entries@), file_of(entries@[r as int])),
{
    let mut best: usize = 0;
    let mut i: usize = 1;
    while i < entries.len()
        invariant
            1 <= i <= entries@.len(),
            best < i,
            forall|k: int|
                0 <= k < i ==> entries@[best as int].fetched_at <= (
                #[trigger] entries@[k]).fetched_at,
        decreases entries@.len() - i,
    {
        if entries[i].fetched_at < entries[best].fetched_at {
            best = i;
        }
        i += 1;
    }
    proof {
        lemma_by_file(entries@);
        let m = by_file(entries@);
        assert forall|k: (Seq<char>, Seq<char>)| #[trigger] m.contains_key(k) implies m[file_of(entries@[best as int])].1
            <= m[k].1 by {
            let j = choose|j: int| 0 <= j < entries@.len() && file_of(#[trigger] entries@[j]) == k;
            assert(m.contains_pair(k, (texts(entries@[j].commits@), entries@[j].fetched_at)));
        }
    }
    best
}

impl View for BlameCache {
    type V = Map<(Seq<char>, Seq<char>), (Seq<Seq<char>>, u64)>;

    closed spec fn view(&self) -> Map<(Seq<char>, Seq<char>), (Seq<Seq<char>>, u64)> {
        by_file(self.entries@)
    }
}

impl BlameCache {
    /// No file is kept twice, and no more files are kept than there is room for.
    pub closed spec fn wf(&self) -> bool {
        unique(self.entries@) && self.entries@.len() <= BLAME_CACHE_MAX_ENTRIES
    }

    /// A cache that holds nothing.
    pub fn new() -> (r: BlameCache)
        ensures
            r.wf(),
            r@ == Map::<(Seq<char>, Seq<char>), (Seq<Seq<char>>, u64)>::empty(),
    {
        BlameCache { entries: Vec::new() }
    }

    /// The number of files whose blame is kept.
    pub fn len(&self) -> (n: usize)
        requires
            self.wf(),
        ensures
            n == self@.len(),
            n <= BLAME_CACHE_MAX_ENTRIES,
    {
        proof {
            lemma_by_file(self.entries@);
        }
        self.entries.len()
    }

    /// The blame that is kept of a file, if it is still good.
    pub fn get(&self, repo_root: &str, file_path: &str, now: u64) -> (r: Option<Vec<String>>)
        requires
            self.wf(),
        ensures
            match r {
                Some(commits) => cached_blame(self@, (repo_root@, file_path@), now) == Some(
                    texts(commits@),
                ),
                None => cached_blame(self@, (repo_root@, file_path@), now) is None,
            },
    {
        match find_entry(&self.entries, repo_root, file_path) {
            Some(i) => if fresh(self.entries[i].fetched_at, now, BLAME_CACHE_TTL_SECS) {
                let commits = self.entries[i].commits.clone();
                assert(texts(commits@) =~= texts(self.entries@[i as int].commits@));
                Some(commits)
            } else {
                None
            },
            None => None,
        }
    }

    /// Keeps a blame that was fetched now, in place of the one that was kept of the file.
    pub fn put(&mut self, repo_root: String, file_path: String, commits: Vec<String>, now: u64)
        requires
            old(self).wf(),
        ensures
            final(self).wf(),
            is_kept_after(
                old(self)@,
                final(self)@,
                (repo_root@, file_path@),
                texts(commits@),
                now,
            ),
    {
        proof {
            lemma_by_file(self.entries@);
        }
        if self.entries.len() >= BLAME_CACHE_MAX_ENTRIES {
            let i: usize = find_oldest(&self.entries);
            proof {
                lemma_removed(self.entries@, i as int);
            }
            self.entries.remove(i);
        }
        let ghost kept = self.entries@;
        let ghost file = (repo_root@, file_path@);
        match find_entry(&self.entries, repo_root.as_str(), file_path.as_str()) {
            Some(i) => {
                proof {
                    lemma_removed(self.entries@, i as int);
                    lemma_by_file(kept);
                    lemma_by_file(kept.remove(i as int));
                }
                self.entries.remove(i);
                assert forall|k: int| 0 <= k < self.entries@.len() implies file_of(
                    #[trigger] self.entries@[k],
                ) != file by {
                    assert(by_file(self.entries@).contains_key(file_of(self.entries@[k])));
                }
            },
            None => {},
        }
        let ghost rest = self.entries@;
        let entry = BlameEntry { repo_root, file_path, commits, fetched_at: now };
        self.entries.push(entry);
        assert(self.entries@.drop_last() == rest);
        assert(by_file(self.entries@) =~= by_file(kept).insert(file, (texts(entry.commits@), now)));
    }
}

/// What was fetched stays good for exactly as many seconds as it is kept.
pub proof fn law_results_age(fetched_at: u64, now: u64, ttl: u64)
    requires
        fetched_at <= now,
    ensures
        is_fresh(fetched_at, now, ttl) <==> now - fetched_at < ttl * NANOS_PER_SEC,
{
}

/// A blame that has just been kept is found, as it was kept, until it is too old.
pub proof fn law_kept_blame_is_found(
    before: Map<(Seq<char>, Seq<char>), (Seq<Seq<char>>, u64)>,
    after: Map<(Seq<char>, Seq<char>), (Seq<Seq<char>>, u64)>,
    file: (Seq<char>, Seq<char>),
    commits: Seq<Seq<char>>,
    now: u64,
    later: u64,
)
    requires
        is_kept_after(before, after, file, commits, now),
        now <= later,
    ensures
        after.contains_key(file),
        after[file] == (commits, now),
        cached_blame(after, file, later) == (if later - now < BLAME_CACHE_TTL_SECS * NANOS_PER_SEC {
            Some(commits)
        } else {
            None
        }),
{
}

/// Keeping a blame leaves what is kept of the other files alone, but for one of the oldest where
/// there is no room.
pub proof fn law_other_blames_stay(
    before: Map<(Seq<char>, Seq<char>), (Seq<Seq<char>>, u64)>,
    after: Map<(Seq<char>, Seq<char>), (Seq<Seq<char>>, u64)>,
    file: (Seq<char>, Seq<char>),
    commits: Seq<Seq<char>>,
    now: u64,
    other: (Seq<char>, Seq<char>),
)
    requires
        is_kept_after(before, after, file, commits, now),
        other != file,
    ensures
        after.contains_key(other) ==> before.contains_key(other) && after[other] == before[other],
        before.contains_key(other) && !after.contains_key(other) ==> before.len()
            >= BLAME_CACHE_MAX_ENTRIES && is_oldest(before, other),
{
}

/// There is never more kept than there is room for.
pub proof fn law_blame_cache_is_bounded(
    before: Map<(Seq<char>, Seq<char>), (Seq<Seq<char>>, u64)>,
    after: Map<(Seq<char>, Seq<char>), (Seq<Seq<char>>, u64)>,
    file: (Seq<char>, Seq<char>),
    commits: Seq<Seq<char>>,
    now: u64,
)
    requires
        before.dom().finite(),
        before.len() <= BLAME_CACHE_MAX_ENTRIES,
        is_kept_after(before, after, file, commits, now),
    ensures
        after.dom().finite(),
        after.len() <= BLAME_CACHE_MAX_ENTRIES,
{
    if before.len() >= BLAME_CACHE_MAX_ENTRIES {
        let oldest = choose|oldest: (Seq<char>, Seq<char>)|
            #[trigger] is_oldest(before, oldest) && after == before.remove(oldest).insert(
                file,
                (commits, now),
            );
        assert(before.remove(oldest).len() == before.len() - 1);
    }
}

/// What is kept of one repository is handed out for no other, and for it until it is too old.
pub proof fn law_notes_are_those_of_the_repository(
    kept: Seq<char>,
    notes: Map<Seq<char>, Seq<char>>,
    fetched_at: u64,
    repo_root: Seq<char>,
    now: u64,
)
    requires
        fetched_at <= now,
    ensures
        cached_notes(Some((kept, notes, fetched_at)), repo_root, now) == (if repo_root == kept && now
            - fetched_at < NOTES_CACHE_TTL_SECS * NANOS_PER_SEC {
            Some(notes)
        } else {
            None
        }),
{
}

/// The notes that are kept of a repository are handed out for ten seconds, and a blame for five.
pub proof fn law_results_are_kept_for_seconds(
    notes: Map<Seq<char>, Seq<char>>,
    repo_root: Seq<char>,
    blames: Map<(Seq<char>, Seq<char>), (Seq<Seq<char>>, u64)>,
    file: (Seq<char>, Seq<char>),
    fetched_at: u64,
    now: u64,
)
    requires
        fetched_at <= now,
        blames.contains_key(file),
        blames[file].1 == fetched_at,
    ensures
        now - fetched_at < 10_000_000_000 ==> cached_notes(
            Some((repo_root, notes, fetched_at)),
            repo_root,
            now,
        ) == Some(notes),
        now - fetched_at >= 10_000_000_000 ==> cached_notes(
            Some((repo_root, notes, fetched_at)),
            repo_root,
            now,
        ) is None,
        now - fetched_at < 5_000_000_000 ==> cached_blame(blames, file, now) == Some(
            blames[file].0,
        ),
        now - fetched_at >= 5_000_000_000 ==> cached_blame(blames, file, now) is None,
{
}

/// What was fetched no earlier than now is good.
pub proof fn law_new_results_are_good(fetched_at: u64, now: u64, ttl: u64)
    requires
        fetched_at >= now,
        ttl > 0,
    ensures
        is_fresh(fetched_at, now, ttl),
{
}

/// Nothing is handed out that is not kept.
pub proof fn law_nothing_else_is_handed_out(
    slot: Option<(Seq<char>, Map<Seq<char>, Seq<char>>, u64)>,
    repo_root: Seq<char>,
    blames: Map<(Seq<char>, Seq<char>), (Seq<Seq<char>>, u64)>,
    file: (Seq<char>, Seq<char>),
    now: u64,
)
    ensures
        cached_notes(None, repo_root, now) is None,
        cached_notes(slot, repo_root, now) matches Some(notes) ==> slot is Some && slot->Some_0.0
            == repo_root && slot->Some_0.1 == notes,
        cached_blame(blames, file, now) matches Some(commits) ==> blames.contains_key(file)
            && blames[file].0 == commits,
{
}

/// As long as fewer than fifty files are kept, keeping one more loses none. Of fifty, one is given
/// up, of which there is none that was fetched earlier.
pub proof fn law_one_of_fifty_makes_room(
    before: Map<(Seq<char>, Seq<char>), (Seq<Seq<char>>, u64)>,
    after: Map<(Seq<char>, Seq<char>), (Seq<Seq<char>>, u64)>,
    file: (Seq<char>, Seq<char>),
    commits: Seq<Seq<char>>,
    now: u64,
    other: (Seq<char>, Seq<char>),
    third: (Seq<char>, Seq<char>),
)
    requires
        is_kept_after(before, after, file, commits, now),
        other != file,
        third != file,
        before.contains_key(other),
        before.contains_key(third),
    ensures
        after.contains_pair(file, (commits, now)),
        before.len() < 50 ==> after.contains_pair(other, before[other]),
        after.contains_key(other) ==> after[other] == before[other],
        !after.contains_key(other) ==> before[other].1 <= before[third].1,
        !after.contains_key(other) && !after.contains_key(third) ==> other == third,
        before.len() >= 50 && before.dom().finite() && !before.contains_key(file) ==> after.len()
            == before.len(),
{
    if before.len() >= 50 {
        let oldest = choose|oldest: (Seq<char>, Seq<char>)|
            #[trigger] is_oldest(before, oldest) && after == before.remove(oldest).insert(
                file,
                (commits, now),
            );
        assert(before.contains_key(oldest));
        if before.dom().finite() {
            assert(before.remove(oldest).len() == before.len() - 1);
        }
    }
}

} // verus!
