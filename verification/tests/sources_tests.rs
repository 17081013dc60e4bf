use waffle_format::sources::{Embed, GitHost, GitRef, Locator, SourceEntry, SourceKind};

#[test]
fn source_entry_set_content_respects_pack_policy() {
    let mut linked = SourceEntry::linked(
        "p.waffle",
        SourceKind::Waffle,
        Locator::git_branch("https://github.com/a/b", "p.waffle", "main"),
    );
    linked.set_content("hello\n");
    assert_eq!(
        linked.content_hash.as_deref(),
        Some("git-blob-sha1:ce013625030ba8dba906f756967f9e9ca394464a")
    );
    assert!(
        linked.embed.is_none(),
        "linked sources are not packed by default"
    );
    linked.pack = Some(true);
    linked.set_content("hello\n");
    assert_eq!(
        linked.embed.as_ref().map(Embed::decode),
        Some(Ok("hello\n".to_string()))
    );
}

#[test]
fn git_locators_drop_one_trailing_dot_git() {
    let l = Locator::git_commit("https://gitlab.com/a/b.git", "dir/p.waffle", "0123456789abcdef");
    assert_eq!(
        l,
        Locator::Git {
            remote: "https://gitlab.com/a/b".to_string(),
            path: "dir/p.waffle".to_string(),
            git_ref: GitRef::Commit { sha: "0123456789abcdef".to_string() },
            host: None,
        }
    );
    let l = Locator::git_tag("https://codeberg.org/a/b.git.git", "p.waffle", "release/1.2");
    assert!(matches!(&l, Locator::Git { remote, git_ref: GitRef::Tag { name }, .. }
        if remote == "https://codeberg.org/a/b.git" && name == "release/1.2"));
    let l = Locator::git_branch("https://github.com/a/b", "p.waffle", "main");
    assert!(matches!(&l, Locator::Git { remote, git_ref, .. }
        if remote == "https://github.com/a/b" && !git_ref.is_pinned()));
    assert!(GitRef::Commit { sha: "a".repeat(40) }.is_pinned());
    assert!(!GitRef::Tag { name: "v1".to_string() }.is_pinned());
}

#[test]
fn only_local_locators_are_unshareable_and_pack_follows_the_locator() {
    let local = Locator::Local { provider: "local".to_string(), doc_id: "AbCdEfGh".to_string() };
    assert!(!local.is_shareable());
    assert!(Locator::Embedded.is_shareable());
    assert!(Locator::Url { url: "https://x/y.step".to_string() }.is_shareable());
    let embedded = SourceEntry::embedded("a.step", SourceKind::Step, "A");
    assert!(embedded.effective_pack());
    let mut linked = SourceEntry::linked("m.waffle", SourceKind::Waffle, local);
    assert!(!linked.effective_pack());
    linked.pack = Some(true);
    assert!(linked.effective_pack());
    let mut embedded = embedded;
    embedded.pack = Some(false);
    assert!(!embedded.effective_pack());
}

#[test]
fn an_embedded_entry_holds_its_text_and_hash() {
    let e = SourceEntry::embedded("hello.txt", SourceKind::Step, "hello\n");
    assert_eq!(e.locator, Locator::Embedded);
    assert_eq!(e.pack, None);
    assert_eq!(
        e.content_hash.as_deref(),
        Some("git-blob-sha1:ce013625030ba8dba906f756967f9e9ca394464a")
    );
    let embed = e.embed.as_ref().unwrap();
    assert_eq!(embed.encoding, "deflate-base64");
    assert_eq!(embed.decode(), Ok("hello\n".to_string()));
    let other = SourceEntry::embedded("hello.txt", SourceKind::Step, "hello\n");
    assert_ne!(e.id, other.id, "every entry gets a fresh id");
    let raw = Embed::from_encoded("gzip", "abc");
    assert_eq!(raw.decode(), Err("unknown STEP blob encoding 'gzip'".to_string()));
    assert_eq!(Embed::from_text("x").decode(), Ok("x".to_string()));
}

#[test]
fn locator_validation_flags_bad_refs_paths_and_schemes() {
    let bad = |loc: Locator| SourceEntry::linked("x", SourceKind::Waffle, loc).validate();
    assert!(bad(Locator::git_branch(
        "http://github.com/a/b",
        "p.waffle",
        "main"
    ))
    .iter()
    .any(|w| w.contains("https://")));
    assert!(bad(Locator::git_branch(
        "https://github.com/a/b",
        "/abs.waffle",
        "main"
    ))
    .iter()
    .any(|w| w.contains("leading `/`")));
    assert!(bad(Locator::git_branch(
        "https://github.com/a/b",
        "../up.waffle",
        "main"
    ))
    .iter()
    .any(|w| w.contains("`..`")));
    assert!(bad(Locator::git_branch(
        "https://github.com/a/b",
        "p.waffle",
        "-bad"
    ))
    .iter()
    .any(|w| w.contains("valid git ref")));
    assert!(bad(Locator::git_branch(
        "https://github.com/a/b",
        "p.waffle",
        "a..b"
    ))
    .iter()
    .any(|w| w.contains("valid git ref")));
    assert!(bad(Locator::git_branch(
        "https://github.com/a/b",
        "p.waffle",
        "has space"
    ))
    .iter()
    .any(|w| w.contains("git refuses")));
    assert!(bad(Locator::git_commit(
        "https://github.com/a/b",
        "p.waffle",
        "notahash"
    ))
    .iter()
    .any(|w| w.contains("hex")));
    assert!(bad(Locator::Url {
        url: "ftp://x".into()
    })
    .iter()
    .any(|w| w.contains("https://")));
    assert!(bad(Locator::Relative {
        path: "/etc".into()
    })
    .iter()
    .any(|w| w.contains("`/`")));
    // Good ones are silent.
    assert!(bad(Locator::git_branch(
        "https://gitlab.com/a/b.git",
        "dir/p.waffle",
        "release/1.2"
    ))
    .is_empty());
    assert!(bad(Locator::git_commit(
        "https://codeberg.org/a/b",
        "p.waffle",
        &"0123456789abcdef".repeat(4)[..40]
    ))
    .is_empty());
    assert!(bad(Locator::Relative {
        path: "../parts/p.waffle".into()
    })
    .is_empty());
    assert!(bad(Locator::Embedded).is_empty());
}

#[test]
fn source_warnings_name_the_source_and_come_in_order() {
    let mut e = SourceEntry::linked(
        "board.brd",
        SourceKind::Unknown { type_tag: "AllegroBoard".to_string(), raw: r#"{"type":"AllegroBoard"}"#.to_string() },
        Locator::Git {
            remote: "git@github.com:a/b".to_string(),
            path: "/x/../y".to_string(),
            git_ref: GitRef::Tag { name: "".to_string() },
            host: None,
        },
    );
    e.id = 1;
    let p = "source `board.brd` (00000000-0000-0000-0000-000000000001): ";
    assert_eq!(
        e.validate(),
        vec![
            format!("{p}unknown source kind `AllegroBoard` \u{2014} preserved, not usable in this version"),
            format!("{p}git remote `git@github.com:a/b` is not an https:// URL"),
            format!("{p}path `/x/../y` has a leading `/`"),
            format!("{p}path `/x/../y` has a `..` segment"),
            format!("{p}git ref `` is not a valid git ref name (empty, leading `-`, or `..`)"),
        ]
    );
    let ipfs = Locator::Unknown { type_tag: "Ipfs".to_string(), raw: r#"{"type":"Ipfs"}"#.to_string() };
    assert_eq!(
        ipfs.validate(),
        vec!["unknown locator type `Ipfs` \u{2014} preserved, unresolvable in this version".to_string()]
    );
    // `..` inside a segment name is no `..` segment.
    assert!(Locator::git_tag("https://github.com/a/b", "a..b/p", "v1").validate().is_empty());
    assert_eq!(
        Locator::git_commit("https://github.com/a/b", "p", &"AB".repeat(32)).validate(),
        Vec::<String>::new()
    );
}

#[test]
fn git_hosts_are_recorded_or_inferred_from_the_remote() {
    let h = |remote: &str| Locator::git_branch(remote, "p", "main").git_host();
    assert_eq!(h("https://github.com/acme/parts.git"), Some(GitHost::Github));
    assert_eq!(h("https://gitlab.com/g/r"), Some(GitHost::Gitlab));
    assert_eq!(h("https://codeberg.org/a/b"), Some(GitHost::Gitea));
    assert_eq!(h("http://gitea.com/a/b"), Some(GitHost::Gitea));
    assert_eq!(h("https://git.example.org/a/b"), Some(GitHost::Generic));
    assert_eq!(h("git@github.com:a/b"), Some(GitHost::Generic));
    let recorded = Locator::Git {
        remote: "https://git.example.org/a/b".to_string(),
        path: "p".to_string(),
        git_ref: GitRef::Branch { name: "main".to_string() },
        host: Some(GitHost::Gitlab),
    };
    assert_eq!(recorded.git_host(), Some(GitHost::Gitlab));
    assert_eq!(Locator::Embedded.git_host(), None);
}

#[test]
fn minted_ids_are_version_4_uuids() {
    for _ in 0..8 {
        let e = SourceEntry::embedded("a.step", SourceKind::Step, "A");
        let u = uuid::Uuid::from_u128(e.id);
        assert_eq!(u.get_version_num(), 4);
        assert_eq!(u.get_variant(), uuid::Variant::RFC4122);
    }
}
