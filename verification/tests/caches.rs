use git_notes::cache::{
    BlameCache, NotesCache, BLAME_CACHE_MAX_ENTRIES, BLAME_CACHE_TTL_SECS, NOTES_CACHE_TTL_SECS,
};
use git_notes::notes::Notes;
use std::sync::Arc;

const SECOND: u64 = 1_000_000_000;

fn keep(cache: &mut BlameCache, file: &str, commits: Vec<String>, now: u64) {
    cache.put("/r".to_string(), file.to_string(), commits, now);
}

#[test]
fn notes_age() {
    let mut cache = NotesCache::new();
    assert!(cache.get("/r", 0).is_none());
    let mut notes = Notes::new();
    notes.insert("o".to_string(), "n".to_string());
    cache.put("/r".to_string(), Arc::new(notes), 7);
    assert_eq!(NOTES_CACHE_TTL_SECS, 10);
    assert_eq!(cache.get("/r", 7 + 10 * SECOND - 1).unwrap().get("o").unwrap(), "n");
    assert!(cache.get("/r", 7 + 10 * SECOND).is_none());
    assert!(cache.get("/r", 0).is_some());
    cache.put("/r".to_string(), Arc::new(Notes::new()), 20 * SECOND);
    assert!(cache.get("/r", 20 * SECOND).unwrap().is_empty());
}

#[test]
fn notes_are_those_of_the_repository() {
    let mut cache = NotesCache::new();
    let mut notes = Notes::new();
    notes.insert("o".to_string(), "n".to_string());
    cache.put("/a".to_string(), Arc::new(notes), 0);
    assert!(cache.get("/b", 1).is_none());
    assert!(cache.get("/a", 1).is_some());
    cache.put("/b".to_string(), Arc::new(Notes::new()), 1);
    assert!(cache.get("/b", 1).unwrap().is_empty());
    assert!(cache.get("/a", 1).is_none());
}

#[test]
fn blames_age() {
    let mut cache = BlameCache::new();
    keep(&mut cache, "a.rs", vec!["c".to_string()], 0);
    assert_eq!(BLAME_CACHE_TTL_SECS, 5);
    assert_eq!(cache.get("/r", "a.rs", 5 * SECOND - 1).unwrap(), ["c"]);
    assert!(cache.get("/r", "a.rs", 5 * SECOND).is_none());
    assert!(cache.get("/r", "b.rs", 0).is_none());
}

#[test]
fn files_of_different_repositories_are_kept_apart() {
    let mut cache = BlameCache::new();
    cache.put("/a:b".to_string(), "c".to_string(), vec!["1".to_string()], 0);
    assert!(cache.get("/a", "b:c", 0).is_none());
    cache.put("/a".to_string(), "b:c".to_string(), vec!["2".to_string()], 0);
    assert_eq!(cache.get("/a:b", "c", 0).unwrap(), ["1"]);
    assert_eq!(cache.get("/a", "b:c", 0).unwrap(), ["2"]);
}

#[test]
fn the_oldest_blame_makes_room() {
    let mut cache = BlameCache::new();
    let count = BLAME_CACHE_MAX_ENTRIES as u64;
    for i in 0..count {
        let at = if i == 17 { 1 } else { 2 + i };
        keep(&mut cache, &format!("k{i}"), vec![format!("c{i}")], at);
    }
    assert_eq!(cache.len(), BLAME_CACHE_MAX_ENTRIES);
    keep(&mut cache, "new", Vec::new(), 100);
    assert_eq!(cache.len(), BLAME_CACHE_MAX_ENTRIES);
    assert!(cache.get("/r", "k17", 100).is_none());
    assert!(cache.get("/r", "new", 100).unwrap().is_empty());
    for i in 0..count {
        if i != 17 {
            assert_eq!(cache.get("/r", &format!("k{i}"), 100).unwrap(), [format!("c{i}")]);
        }
    }
}

#[test]
fn a_blame_is_replaced_by_a_newer_one() {
    let mut cache = BlameCache::new();
    keep(&mut cache, "k", vec!["old".to_string()], 0);
    keep(&mut cache, "k", vec!["new".to_string()], 1);
    assert_eq!(cache.len(), 1);
    assert_eq!(cache.get("/r", "k", 1).unwrap(), ["new"]);
}

#[test]
fn a_full_cache_gives_up_its_oldest_blame_for_one_that_it_has() {
    let mut cache = BlameCache::new();
    for i in 0..BLAME_CACHE_MAX_ENTRIES as u64 {
        keep(&mut cache, &format!("k{i}"), Vec::new(), i);
    }
    keep(&mut cache, "k9", Vec::new(), 99);
    assert_eq!(cache.len(), BLAME_CACHE_MAX_ENTRIES - 1);
    assert!(cache.get("/r", "k0", 99).is_none());
    assert!(cache.get("/r", "k9", 99).is_some());
}
