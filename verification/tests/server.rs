use git_notes::annotate::{match_notes_to_lines, LineNote};
use git_notes::blame::parse_blame_porcelain;
use git_notes::notes::{parse_cat_file_batch, parse_notes_list, Notes, MAX_NOTE_BLOB_SIZE};
use git_notes::paths::relative_path;
use git_notes::sha::is_valid_sha;
use tower_lsp::lsp_types::Url;

#[test]
fn test_parse_notes_list_basic() {
    let output = "abc123def456 1111111111111111111111111111111111111111\n\
                   fedcba987654 2222222222222222222222222222222222222222\n";

    let result = parse_notes_list(output);

    assert_eq!(result.len(), 2);
    assert_eq!(result[0].0, "abc123def456"); // blob sha
    assert_eq!(result[0].1, "1111111111111111111111111111111111111111"); // object sha
    assert_eq!(result[1].0, "fedcba987654");
    assert_eq!(result[1].1, "2222222222222222222222222222222222222222");
}

#[test]
fn test_parse_notes_list_empty() {
    assert!(parse_notes_list("").is_empty());
    assert!(parse_notes_list("   \n").is_empty());
}

#[test]
fn test_parse_notes_list_malformed_lines_skipped() {
    // Lines with only one token should be skipped
    let output = "only-one-token\n\
                   abc123 def456\n";

    let result = parse_notes_list(output);
    assert_eq!(result.len(), 1);
    assert_eq!(result[0].0, "abc123");
}

#[test]
fn test_parse_cat_file_batch() {
    // Simulate git cat-file --batch output for two blobs
    let blob_to_object = vec![
        ("blob1".to_string(), "commit_aaa".to_string()),
        ("blob2".to_string(), "commit_bbb".to_string()),
    ];

    // Format: "<sha> blob <size>\n<content>\n"
    let output = "blob1 blob 13\nHello, world!\n\
                   blob2 blob 8\nBug fix\n";

    let notes = parse_cat_file_batch(output, &blob_to_object);

    assert_eq!(notes.len(), 2);
    assert_eq!(notes.get("commit_aaa").unwrap(), "Hello, world!");
    assert_eq!(notes.get("commit_bbb").unwrap(), "Bug fix");
}

#[test]
fn test_parse_cat_file_batch_empty_content_skipped() {
    let blob_to_object = vec![("blob1".to_string(), "commit_aaa".to_string())];

    // A blob with only whitespace content
    let output = "blob1 blob 3\n   \n";

    let notes = parse_cat_file_batch(output, &blob_to_object);
    assert!(notes.is_empty()); // trimmed to empty, should be skipped
}

#[test]
fn test_parse_cat_file_batch_multiline_content() {
    let blob_to_object = vec![("blob1".to_string(), "commit_aaa".to_string())];

    let content = "Line one\nLine two\nLine three";
    let output = format!("blob1 blob {}\n{}\n", content.len(), content);

    let notes = parse_cat_file_batch(&output, &blob_to_object);
    assert_eq!(notes.get("commit_aaa").unwrap(), content);
}

#[test]
fn test_parse_blame_porcelain() {
    // This is what `git blame --porcelain` actually looks like.
    // Each "group" starts with a 40-char SHA line, then metadata, then a \t-prefixed source line.
    let output = "\
aaaa1111aaaa1111aaaa1111aaaa1111aaaa1111 1 1 3\n\
author Alice\n\
author-mail <alice@example.com>\n\
summary First commit\n\
filename app.py\n\
\timport json\n\
aaaa1111aaaa1111aaaa1111aaaa1111aaaa1111 2 2\n\
\timport sys\n\
bbbb2222bbbb2222bbbb2222bbbb2222bbbb2222 3 3 1\n\
author Bob\n\
author-mail <bob@example.com>\n\
summary Second commit\n\
filename app.py\n\
\tprint('hello')\n";

    let commits = parse_blame_porcelain(output);

    // 3 source lines total
    assert_eq!(commits.len(), 3);
    // Lines 1-2 come from commit aaaa...
    assert_eq!(commits[0], "aaaa1111aaaa1111aaaa1111aaaa1111aaaa1111");
    assert_eq!(commits[1], "aaaa1111aaaa1111aaaa1111aaaa1111aaaa1111");
    // Line 3 from commit bbbb...
    assert_eq!(commits[2], "bbbb2222bbbb2222bbbb2222bbbb2222bbbb2222");
}

#[test]
fn test_parse_blame_porcelain_empty() {
    assert!(parse_blame_porcelain("").is_empty());
}

#[test]
fn test_match_notes_to_lines() {
    let mut notes = Notes::new();
    notes.insert("commit_aaa".to_string(), "Note for A".to_string());
    // commit_bbb has no note

    let line_commits = vec![
        "commit_aaa".to_string(), // line 0
        "commit_aaa".to_string(), // line 1 (same commit, should be skipped)
        "commit_bbb".to_string(), // line 2 (no note)
        "commit_aaa".to_string(), // line 3 (already seen)
    ];

    let result = match_notes_to_lines(&notes, &line_commits);

    // Should only return one entry: line 0 for commit_aaa
    assert_eq!(result.len(), 1);
    assert_eq!(result[0].0, 0); // line number
    assert_eq!(result[0].1.commit, "commit_aaa");
    assert_eq!(result[0].1.note, "Note for A");
}

#[test]
fn test_match_notes_to_lines_multiple_commits_with_notes() {
    let mut notes = Notes::new();
    notes.insert("commit_aaa".to_string(), "Note A".to_string());
    notes.insert("commit_bbb".to_string(), "Note B".to_string());

    let line_commits = vec![
        "commit_aaa".to_string(), // line 0
        "commit_bbb".to_string(), // line 1
        "commit_aaa".to_string(), // line 2 (duplicate)
    ];

    let result = match_notes_to_lines(&notes, &line_commits);

    assert_eq!(result.len(), 2);
    assert_eq!(result[0].0, 0);
    assert_eq!(result[0].1.note, "Note A");
    assert_eq!(result[1].0, 1);
    assert_eq!(result[1].1.note, "Note B");
}

#[test]
fn test_match_notes_to_lines_no_notes() {
    let notes = Notes::new(); // empty
    let line_commits = vec!["commit_aaa".to_string()];

    let result = match_notes_to_lines(&notes, &line_commits);
    assert!(result.is_empty());
}

// ---- Tests for LineNote ----

#[test]
fn test_short_sha() {
    let note = LineNote {
        commit: "abcdef1234567890abcdef1234567890abcdef12".to_string(),
        note: "test".to_string(),
    };
    assert_eq!(note.short_sha(), "abcdef12");
}

#[test]
fn test_short_sha_short_commit() {
    // Edge case: commit string shorter than 8 chars
    let note = LineNote {
        commit: "abc".to_string(),
        note: "test".to_string(),
    };
    assert_eq!(note.short_sha(), "abc");
}

// ---- Tests for relative_path ----

#[test]
fn test_relative_path() {
    let uri = Url::parse("file:///home/user/project/src/main.rs").unwrap();
    let result = relative_path(uri.as_str(), "/home/user/project");
    assert_eq!(result.as_deref(), Some("src/main.rs"));
}

#[test]
fn test_relative_path_root_file() {
    let uri = Url::parse("file:///home/user/project/README.md").unwrap();
    let result = relative_path(uri.as_str(), "/home/user/project");
    assert_eq!(result.as_deref(), Some("README.md"));
}

#[test]
fn test_relative_path_prefix_overlap_bug() {
    // "/foo/bar" is a string prefix of "/foo/barmain.rs", but no directory of it
    let uri = Url::parse("file:///foo/barmain.rs").unwrap();
    let result = relative_path(uri.as_str(), "/foo/bar");
    assert_eq!(result, None); // should NOT match
}

// ---- Security validation tests ----

#[test]
fn test_is_valid_sha() {
    assert!(is_valid_sha("abcdef1234567890abcdef1234567890abcdef12"));
    assert!(is_valid_sha("0000000000000000000000000000000000000000"));
    assert!(is_valid_sha("aaaaaaaaaaaaaaaaaaaaaaaaaaaaaaaaaaaaaaaa"));
}

#[test]
fn test_is_valid_sha_rejects_bad_input() {
    // Too short
    assert!(!is_valid_sha("abcdef12"));
    // Too long
    assert!(!is_valid_sha("abcdef1234567890abcdef1234567890abcdef12aa"));
    // Non-hex characters
    assert!(!is_valid_sha("zzzzzzzzzzzzzzzzzzzzzzzzzzzzzzzzzzzzzzzz"));
    // Uppercase is valid (git can output mixed case in some contexts)
    assert!(is_valid_sha("ABCDEF1234567890ABCDEF1234567890ABCDEF12"));
    // Git flag injection attempt
    assert!(!is_valid_sha("--upload-pack=evil_command_here_padding"));
    // Empty
    assert!(!is_valid_sha(""));
}

#[test]
fn test_blame_parser_rejects_invalid_sha() {
    // A line that starts with hex but isn't a valid 40-char SHA should be skipped
    let output = "\
--upload-pack=evil 1 1 1\n\
\tline content\n";

    let commits = parse_blame_porcelain(output);
    // Should produce a line entry but with empty commit (no valid SHA parsed)
    assert!(commits.is_empty() || commits.iter().all(|c| c.is_empty() || is_valid_sha(c)));
}

#[test]
fn test_cat_file_batch_skips_oversized_blob() {
    let blob_to_object = vec![
        ("blob1".to_string(), "commit_aaa".to_string()),
        ("blob2".to_string(), "commit_bbb".to_string()),
    ];

    // First blob exceeds MAX_NOTE_BLOB_SIZE, second is normal
    let big_size = MAX_NOTE_BLOB_SIZE + 100;
    let big_content = "x".repeat(big_size);
    let output = format!(
        "blob1 blob {big_size}\n{big_content}\nblob2 blob 4\ntest\n"
    );

    let notes = parse_cat_file_batch(&output, &blob_to_object);

    // Oversized blob should be skipped, normal one included
    assert!(!notes.contains_key("commit_aaa"));
    assert_eq!(notes.get("commit_bbb").map(|s| s.as_str()), Some("test"));
}
