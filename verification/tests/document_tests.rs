use waffle_format::blob::{decode_step_blob, encode_step_blob, STEP_BLOB_ENCODING};
use waffle_format::document::{
    inline_payloads, lift_inline_payloads, LoadError, WaffleDocument, FORMAT_VERSION,
    MIN_READER_VERSION,
};
use waffle_format::features::{Feature, FeatureTree, ImportedBodyParams, Operation};
use waffle_format::hash::git_blob_sha1;
use waffle_format::metadata::{ProjectMetadata, Tab, TabKind};
use waffle_format::sources::{Embed, GitHost, Locator, SourceEntry, SourceKind};

const CUBE: &str = "ISO-10303-21;\nHEADER;\nFILE_NAME('cube.step');\nENDSEC;\nDATA;\n#1=CARTESIAN_POINT('',(0.,0.,0.));\nENDSEC;\nEND-ISO-10303-21;\n";
const OTHER: &str = "ISO-10303-21;\nEND-ISO-10303-21;\n";

fn import_feature(name: &str, params: ImportedBodyParams) -> Feature {
    Feature {
        id: uuid::Uuid::new_v4().as_u128(),
        name: name.to_string(),
        operation: Operation::ImportedBody { params },
        suppressed: false,
    }
}

fn params(f: &Feature) -> &ImportedBodyParams {
    match &f.operation {
        Operation::ImportedBody { params } => params,
        _ => panic!("not an import"),
    }
}

fn part_features(t: &Tab) -> &Vec<Feature> {
    &t.features().unwrap().features
}

#[test]
fn lifting_shares_one_source_per_payload_text() {
    let mut tree = FeatureTree {
        features: vec![
            import_feature("Import cube", ImportedBodyParams::embedded("cube.step", CUBE)),
            import_feature("Import cube again", ImportedBodyParams::embedded("cube2.step", CUBE)),
            import_feature("Import other", ImportedBodyParams::embedded("other.step", OTHER)),
            Feature {
                id: 4,
                name: "Sketch".to_string(),
                operation: Operation::Other { type_tag: "Sketch".to_string() },
                suppressed: false,
            },
        ],
    };
    let mut sources = Vec::new();
    let warnings = lift_inline_payloads(&mut tree, &mut sources);
    assert!(warnings.is_empty(), "{warnings:?}");
    assert_eq!(sources.len(), 2);
    let cube = &sources[0];
    assert_eq!(cube.kind, SourceKind::Step);
    assert_eq!(cube.locator, Locator::Embedded);
    assert!(cube.effective_pack());
    assert_eq!(cube.content_hash.as_deref(), Some(git_blob_sha1(CUBE.as_bytes()).as_str()));
    assert_eq!(cube.embed.as_ref().unwrap().decode(), Ok(CUBE.to_string()));
    assert_eq!(cube.name, "cube.step", "first importer names the source");
    for (f, src) in tree.features.iter().take(3).zip([0, 0, 1]) {
        let p = params(f);
        assert!(p.blob.is_none() && p.blob_encoding.is_none(), "payload lifted");
        assert_eq!(p.source_id, Some(sources[src].id));
    }
    assert_eq!(
        tree.features[3].operation,
        Operation::Other { type_tag: "Sketch".to_string() }
    );
}

#[test]
fn lifting_reuses_a_step_source_already_in_the_table() {
    let existing = SourceEntry::embedded("cube.step", SourceKind::Step, CUBE);
    let id = existing.id;
    let mut sources = vec![existing];
    let mut tree = FeatureTree {
        features: vec![import_feature("Import", ImportedBodyParams::embedded("c.step", CUBE))],
    };
    let warnings = lift_inline_payloads(&mut tree, &mut sources);
    assert!(warnings.is_empty());
    assert_eq!(sources.len(), 1);
    assert_eq!(params(&tree.features[0]).source_id, Some(id));
    // A Waffle source with the same hash is not a STEP source: a new entry.
    let mut sources = vec![SourceEntry::embedded("cube.waffle", SourceKind::Waffle, CUBE)];
    let mut tree = FeatureTree {
        features: vec![import_feature("Import", ImportedBodyParams::embedded("c.step", CUBE))],
    };
    lift_inline_payloads(&mut tree, &mut sources);
    assert_eq!(sources.len(), 2);
    assert_eq!(params(&tree.features[0]).source_id, Some(sources[1].id));
}

#[test]
fn a_corrupt_legacy_payload_stays_inline_and_is_reported_by_lifting() {
    let mut p = ImportedBodyParams::embedded("bad.step", "x");
    p.blob = Some("!!!not base64!!!".to_string());
    let mut tree = FeatureTree { features: vec![import_feature("Bad", p)] };
    let mut sources = Vec::new();
    let warnings = lift_inline_payloads(&mut tree, &mut sources);
    assert_eq!(warnings.len(), 1);
    assert!(warnings[0].starts_with(
        "feature `Bad`: inline STEP payload left in place, it does not decode: STEP blob base64 decode failed: "
    ), "{}", warnings[0]);
    assert!(sources.is_empty());
    assert_eq!(
        params(&tree.features[0]).blob.as_deref(),
        Some("!!!not base64!!!"),
        "left in place, will fail loudly at rebuild as before"
    );
}

#[test]
fn lifting_twice_changes_nothing() {
    let mut p = ImportedBodyParams::embedded("bad.step", "x");
    p.blob_encoding = Some("gzip".to_string());
    let mut tree = FeatureTree {
        features: vec![
            import_feature("Import cube", ImportedBodyParams::embedded("cube.step", CUBE)),
            import_feature("Bad", p),
        ],
    };
    let mut sources = Vec::new();
    let first = lift_inline_payloads(&mut tree, &mut sources);
    let (tree1, sources1) = (tree.clone(), sources.clone());
    let second = lift_inline_payloads(&mut tree, &mut sources);
    assert_eq!(tree, tree1);
    assert_eq!(sources, sources1);
    assert_eq!(first, second);
    assert_eq!(
        first,
        vec!["feature `Bad`: inline STEP payload left in place, it does not decode: unknown STEP blob encoding 'gzip'".to_string()]
    );
}

#[test]
fn lift_then_inline_gives_the_step_text_back() {
    let tree = FeatureTree {
        features: vec![
            import_feature("Import cube", ImportedBodyParams::embedded("cube.step", CUBE)),
            import_feature("Import other", ImportedBodyParams::embedded("other.step", OTHER)),
        ],
    };
    let meta = ProjectMetadata::new("Single").with_display_unit("mm");
    let doc = WaffleDocument::single_part(&meta, tree);
    assert_eq!(doc.sources.len(), 2);
    assert_eq!(doc.document.name, "Single");
    assert_eq!(doc.document.display_unit.as_deref(), Some("mm"));
    // The added sources are verified content: valid, and listed.
    assert_eq!(doc.validate(), Ok(vec![]));
    let contents = doc.embedded_contents();
    assert_eq!(
        contents,
        vec![
            (doc.sources[0].id, CUBE.to_string()),
            (doc.sources[1].id, OTHER.to_string())
        ]
    );
    let mut back = doc.tabs[0].features().unwrap().clone();
    for f in &back.features {
        assert!(params(f).blob.is_none());
    }
    let warnings = doc.inline_payloads_into(&mut back);
    assert!(warnings.is_empty(), "{warnings:?}");
    for (f, text) in back.features.iter().zip([CUBE, OTHER]) {
        let p = params(f);
        assert!(p.source_id.is_some(), "inlined for storeless consumers");
        let decoded =
            decode_step_blob(p.blob_encoding.as_deref().unwrap(), p.blob.as_deref().unwrap())
                .unwrap();
        assert_eq!(decoded, text, "STEP text byte-identical through lift + inline");
    }
    // Inlining again changes nothing.
    let again = back.clone();
    let warnings = doc.inline_payloads_into(&mut back);
    assert!(warnings.is_empty());
    assert_eq!(back, again);
}

#[test]
fn inlining_reports_missing_undecodable_and_mismatching_sources() {
    let good = SourceEntry::embedded("cube.step", SourceKind::Step, CUBE);
    let mut stale = SourceEntry::embedded("stale.step", SourceKind::Step, CUBE);
    stale.content_hash = Some(git_blob_sha1(b"something else"));
    let mut broken = SourceEntry::embedded("broken.step", SourceKind::Step, CUBE);
    broken.embed = Some(Embed::from_encoded("gzip", "abc"));
    let mut unhashed = SourceEntry::embedded("nohash.step", SourceKind::Step, OTHER);
    unhashed.content_hash = None;
    let linked = SourceEntry::linked(
        "far.step",
        SourceKind::Step,
        Locator::Url { url: "https://example.com/far.step".to_string() },
    );
    let missing_id: u128 = 0x0123_4567_89ab_cdef_0123_4567_89ab_cdef;
    let ids = [good.id, stale.id, broken.id, unhashed.id, linked.id, missing_id];
    let stale_id = stale.id;
    let broken_id = broken.id;
    let sources = vec![good, stale, broken, unhashed, linked];
    let names = ["G", "S", "B", "U", "L", "M"];
    let mut tree = FeatureTree {
        features: ids
            .iter()
            .zip(names)
            .map(|(id, n)| import_feature(n, ImportedBodyParams::from_source("x.step", *id)))
            .collect(),
    };
    let warnings = inline_payloads(&mut tree, &sources);
    let blob_of = |i: usize| params(&tree.features[i]).blob.clone();
    assert!(blob_of(0).is_some(), "hash-verified embed is inlined");
    assert!(blob_of(1).is_none(), "mismatching embed is not inlined");
    assert!(blob_of(2).is_none());
    assert!(blob_of(3).is_some(), "unverifiable embed is inlined");
    assert!(blob_of(4).is_none(), "linked, not packed: the host provides it");
    assert!(blob_of(5).is_none());
    let uuid = |v: u128| uuid::Uuid::from_u128(v).to_string();
    assert_eq!(warnings.len(), 3, "{warnings:?}");
    assert_eq!(
        warnings[0],
        format!(
            "source `stale.step` ({}): EmbedHashMismatch ({} vs recorded {}); not inlined",
            uuid(stale_id),
            git_blob_sha1(CUBE.as_bytes()),
            git_blob_sha1(b"something else")
        )
    );
    assert_eq!(
        warnings[1],
        format!(
            "source `broken.step` ({}): embed does not decode: unknown STEP blob encoding 'gzip'",
            uuid(broken_id)
        )
    );
    assert_eq!(
        warnings[2],
        format!(
            "feature `M`: source {} is not in the document's sources table",
            "01234567-89ab-cdef-0123-456789abcdef"
        )
    );
}

#[test]
fn a_feature_that_still_carries_a_payload_is_not_inlined_over() {
    let src = SourceEntry::embedded("cube.step", SourceKind::Step, CUBE);
    let mut p = ImportedBodyParams::from_source("cube.step", src.id);
    p.blob_encoding = Some(STEP_BLOB_ENCODING.to_string());
    p.blob = Some(encode_step_blob(OTHER));
    let mut tree = FeatureTree { features: vec![import_feature("Keep", p.clone())] };
    let warnings = inline_payloads(&mut tree, &[src]);
    assert!(warnings.is_empty());
    assert_eq!(params(&tree.features[0]), &p);
}

#[test]
fn a_fresh_document_is_valid_and_its_tab_is_active() {
    let doc = WaffleDocument::new("Fresh");
    assert_eq!(doc.document.name, "Fresh");
    assert_eq!(doc.tabs.len(), 1);
    assert_eq!(doc.tabs[0].name, "Part 1");
    assert!(uuid::Uuid::parse_str(&doc.tabs[0].id).is_ok());
    assert_eq!(doc.active_tab, doc.tabs[0].id);
    assert_eq!(doc.active_tab().map(|t| &t.name), Some(&"Part 1".to_string()));
    assert!(part_features(&doc.tabs[0]).is_empty());
    assert_eq!(doc.document.created, doc.document.modified);
    assert_eq!(doc.validate(), Ok(vec![]));
    assert!(doc.tab("nope").is_none());
    assert!(MIN_READER_VERSION <= FORMAT_VERSION);
}

#[test]
fn validation_refuses_duplicate_ids_and_a_dangling_active_tab() {
    let mut doc = WaffleDocument::new("Dup");
    let entry = SourceEntry::embedded("a.step", SourceKind::Step, "A");
    doc.sources.push(entry.clone());
    doc.sources.push(entry.clone());
    match doc.validate() {
        Err(LoadError::ParseError(m)) => assert_eq!(
            m,
            format!("duplicate source id {}", uuid::Uuid::from_u128(entry.id))
        ),
        other => panic!("{other:?}"),
    }
    let mut doc = WaffleDocument::new("Bad");
    doc.active_tab = "nope".to_string();
    assert_eq!(
        doc.validate(),
        Err(LoadError::ParseError("active_tab references non-existent tab".to_string()))
    );
}

#[test]
fn validation_warns_of_unknown_kinds_and_mismatching_embeds() {
    let mut doc = WaffleDocument::new("Warn");
    doc.tabs.push(Tab {
        id: "asm-tab".to_string(),
        name: "Assembly 1".to_string(),
        kind: TabKind::Unknown { type_tag: "Assembly".to_string(), raw: r#"{"type":"Assembly"}"#.to_string() },
        extra: vec![],
    });
    let feature_id: u128 = 0x10;
    doc.tabs[0].features_mut().unwrap().features.push(Feature {
        id: feature_id,
        name: "Future".to_string(),
        operation: Operation::Unknown { type_tag: "Loft3".to_string(), raw: r#"{"type":"Loft3"}"#.to_string() },
        suppressed: false,
    });
    let mut stale = SourceEntry::embedded("cube.step", SourceKind::Step, CUBE);
    stale.content_hash = Some(git_blob_sha1(b"something else"));
    let stale_id = stale.id;
    doc.sources.push(stale);
    doc.sources.push(SourceEntry::embedded("ok.step", SourceKind::Step, OTHER));
    let warnings = doc.validate().unwrap();
    assert_eq!(
        warnings,
        vec![
            "feature `Future` (00000000-0000-0000-0000-000000000010) in tab `Part 1`: unknown operation kind `Loft3` \u{2014} preserved, not rebuildable in this version".to_string(),
            "tab `Assembly 1` (asm-tab): unknown tab kind `Assembly` \u{2014} preserved, not editable in this version".to_string(),
            format!(
                "source `cube.step` ({}): EmbedHashMismatch \u{2014} embed hashes to {}, entry records {}; the embed is ignored",
                uuid::Uuid::from_u128(stale_id),
                git_blob_sha1(CUBE.as_bytes()),
                git_blob_sha1(b"something else")
            ),
        ]
    );
    assert_eq!(doc.tabs[1].kind.type_tag(), "Assembly");
    assert_eq!(doc.tabs[0].kind.type_tag(), "Part");
    assert!(doc.tabs[1].features().is_none());
}

#[test]
fn embedded_contents_and_unshareable_sources_of_a_mixed_table() {
    let mut doc = WaffleDocument::new("Mix");
    let packed = SourceEntry::embedded("cube.step", SourceKind::Step, CUBE);
    let linked = SourceEntry::linked(
        "far.waffle",
        SourceKind::Waffle,
        Locator::git_commit("https://gitlab.com/g/r", "far.waffle", &"a".repeat(40)),
    );
    let local = SourceEntry::linked(
        "mine.waffle",
        SourceKind::Waffle,
        Locator::Local { provider: "local".into(), doc_id: "AbCdEfGh".into() },
    );
    let mut local_packed = local.clone();
    local_packed.id = uuid::Uuid::new_v4().as_u128();
    local_packed.pack = Some(true);
    let mut stale = SourceEntry::embedded("stale.step", SourceKind::Step, CUBE);
    stale.content_hash = Some(git_blob_sha1(b"something else"));
    doc.sources.extend([packed.clone(), linked.clone(), local.clone(), local_packed, stale]);

    let contents = doc.embedded_contents();
    assert_eq!(contents.len(), 1, "mismatching embed is not usable content");
    assert_eq!(contents[0].0, packed.id);
    assert_eq!(contents[0].1, CUBE);

    let unshareable: Vec<u128> = doc.unshareable_sources().iter().map(|s| s.id).collect();
    assert_eq!(unshareable, vec![local.id], "only the unpacked Local link");
    assert!(!linked.effective_pack() && linked.locator.git_host() == Some(GitHost::Gitlab));
    assert!(matches!(&linked.locator, Locator::Git { git_ref, .. } if git_ref.is_pinned()));
}

#[test]
fn sources_are_found_and_edited_by_id() {
    let mut doc = WaffleDocument::new("Edit");
    let a = SourceEntry::embedded("a.step", SourceKind::Step, "A");
    let b = SourceEntry::linked("b.step", SourceKind::Step, Locator::Embedded);
    let (ida, idb) = (a.id, b.id);
    doc.sources.extend([a, b]);
    assert_eq!(doc.source(idb).map(|s| s.name.as_str()), Some("b.step"));
    assert!(doc.source(ida ^ 1).is_none() || ida ^ 1 == idb);
    doc.source_mut(idb).unwrap().set_content("hello\n");
    assert_eq!(
        doc.source(idb).unwrap().content_hash.as_deref(),
        Some("git-blob-sha1:ce013625030ba8dba906f756967f9e9ca394464a")
    );
    assert_eq!(
        doc.source(idb).unwrap().embed.as_ref().map(Embed::decode),
        Some(Ok("hello\n".to_string()))
    );
    assert_eq!(doc.sources[0].name, "a.step");
}

#[test]
fn document_lifting_walks_every_part_tab() {
    let mut doc = WaffleDocument::new("Tabs");
    doc.tabs[0].features_mut().unwrap().features.push(import_feature(
        "Import cube",
        ImportedBodyParams::embedded("cube.step", CUBE),
    ));
    doc.tabs.push(Tab {
        id: "x".to_string(),
        name: "Drawing".to_string(),
        kind: TabKind::Unknown { type_tag: "Drawing".to_string(), raw: r#"{"type":"Drawing"}"#.to_string() },
        extra: vec![],
    });
    doc.tabs.push(Tab::part(
        "Part 2",
        FeatureTree {
            features: vec![import_feature(
                "Import cube too",
                ImportedBodyParams::embedded("cube-copy.step", CUBE),
            )],
        },
    ));
    let active = doc.active_tab.clone();
    let warnings = doc.lift_inline_payloads();
    assert!(warnings.is_empty());
    assert_eq!(doc.sources.len(), 1);
    let id = Some(doc.sources[0].id);
    assert_eq!(params(&part_features(&doc.tabs[0])[0]).source_id, id);
    assert_eq!(params(&part_features(&doc.tabs[2])[0]).source_id, id);
    assert_eq!(doc.tabs[1].kind, TabKind::Unknown { type_tag: "Drawing".to_string(), raw: r#"{"type":"Drawing"}"#.to_string() });
    assert_eq!(doc.active_tab, active);
}

#[test]
fn validation_reports_source_problems_first() {
    let mut doc = WaffleDocument::new("Links");
    let mut far = SourceEntry::linked(
        "far.waffle",
        SourceKind::Waffle,
        Locator::Url { url: "ftp://x/far.waffle".to_string() },
    );
    far.id = 2;
    doc.sources.push(far);
    doc.tabs.push(Tab {
        id: "d".to_string(),
        name: "Drawing".to_string(),
        kind: TabKind::Unknown { type_tag: "Drawing".to_string(), raw: r#"{"type":"Drawing"}"#.to_string() },
        extra: vec![],
    });
    assert_eq!(
        doc.validate(),
        Ok(vec![
            "source `far.waffle` (00000000-0000-0000-0000-000000000002): url `ftp://x/far.waffle` is not an https:// URL".to_string(),
            "tab `Drawing` (d): unknown tab kind `Drawing` \u{2014} preserved, not editable in this version".to_string(),
        ])
    );
}

#[test]
fn unknown_keys_and_unknown_kinds_survive_lifting() {
    let mut doc = WaffleDocument::new("Extra");
    doc.extra.push(("x-envelope".to_string(), "\"kept\"".to_string()));
    doc.document.extra.push(("x-doc".to_string(), "1".to_string()));
    doc.tabs[0].extra.push(("x-tab".to_string(), "[1,2]".to_string()));
    let raw = r#"{"type":"Assembly","instances":[],"x-note":"kept"}"#;
    doc.tabs.push(Tab {
        id: "asm".to_string(),
        name: "Asm".to_string(),
        kind: TabKind::Unknown { type_tag: "Assembly".to_string(), raw: raw.to_string() },
        extra: vec![],
    });
    doc.tabs[0].features_mut().unwrap().features.push(import_feature(
        "Import cube",
        ImportedBodyParams::embedded("cube.step", CUBE),
    ));
    let before = doc.clone();
    doc.lift_inline_payloads();
    assert_eq!(doc.extra, before.extra);
    assert_eq!(doc.document, before.document);
    assert_eq!(doc.tabs[0].extra, before.tabs[0].extra);
    assert_eq!(doc.tabs[1], before.tabs[1]);
    assert_eq!(doc.tabs[1].kind.type_tag(), "Assembly");
}
