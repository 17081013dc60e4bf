use waffle_format::hash::{
    check_content_hash, compare_recorded_hash, git_blob_id_from_digest, git_blob_sha1, HashCheck,
    GIT_BLOB_SHA1_PREFIX,
};

/// Known vectors: `git hash-object` of the empty file and of "hello\n".
#[test]
fn git_blob_sha1_matches_git_hash_object() {
    assert_eq!(
        git_blob_sha1(b""),
        "git-blob-sha1:e69de29bb2d1d6434b8b29ae775ad8c2e48c5391"
    );
    assert_eq!(
        git_blob_sha1(b"hello\n"),
        "git-blob-sha1:ce013625030ba8dba906f756967f9e9ca394464a"
    );
}

#[test]
fn hash_check_semantics() {
    let h = git_blob_sha1(b"hello\n");
    assert_eq!(check_content_hash(Some(&h), b"hello\n"), HashCheck::Match);
    assert!(matches!(
        check_content_hash(Some(&h), b"hello"),
        HashCheck::Mismatch { .. }
    ));
    assert_eq!(check_content_hash(None, b"x"), HashCheck::Unverifiable);
    assert_eq!(
        check_content_hash(Some("sha256:deadbeef"), b"x"),
        HashCheck::Unverifiable,
        "an unknown algorithm is never a mismatch"
    );
    // Case-insensitive on the hex part.
    assert_eq!(
        check_content_hash(
            Some(&h.to_uppercase().replace("GIT-BLOB-SHA1", "git-blob-sha1")),
            b"hello\n"
        ),
        HashCheck::Match
    );
}

#[test]
fn a_mismatch_carries_both_hashes() {
    let recorded = git_blob_sha1(b"something else");
    assert_eq!(
        check_content_hash(Some(&recorded), b"hello\n"),
        HashCheck::Mismatch {
            recorded: recorded.clone(),
            actual: "git-blob-sha1:ce013625030ba8dba906f756967f9e9ca394464a".to_string(),
        }
    );
    assert_eq!(
        compare_recorded_hash("git-blob-sha1:AB", "git-blob-sha1:ab".to_string()),
        HashCheck::Match
    );
    assert_eq!(
        compare_recorded_hash("git-blob-sha1:ab", "git-blob-sha1:ac".to_string()),
        HashCheck::Mismatch {
            recorded: "git-blob-sha1:ab".to_string(),
            actual: "git-blob-sha1:ac".to_string(),
        }
    );
}

#[test]
fn the_prefix_alone_decides_the_algorithm() {
    // A truncated prefix is no known algorithm.
    assert_eq!(check_content_hash(Some("git-blob-sha1"), b"x"), HashCheck::Unverifiable);
    // The prefix with garbage after it is a known algorithm that mismatches.
    assert!(matches!(
        check_content_hash(Some("git-blob-sha1:nothex"), b"x"),
        HashCheck::Mismatch { .. }
    ));
    assert_eq!(GIT_BLOB_SHA1_PREFIX, "git-blob-sha1:");
}

#[test]
fn digest_bytes_are_written_as_lowercase_hex() {
    assert_eq!(
        git_blob_id_from_digest(&[0x00, 0x0f, 0xa0, 0xff]),
        "git-blob-sha1:000fa0ff"
    );
    assert_eq!(git_blob_id_from_digest(&[]), "git-blob-sha1:");
    // A 1000-byte blob: the header's length has four digits.
    let big = vec![b'a'; 1000];
    let id = git_blob_sha1(&big);
    assert_eq!(id.len(), GIT_BLOB_SHA1_PREFIX.len() + 40);
    assert_ne!(id, git_blob_sha1(&big[..999]));
}
