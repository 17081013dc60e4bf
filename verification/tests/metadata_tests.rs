use waffle_format::features::FeatureTree;
use waffle_format::metadata::{DocumentMetadata, ProjectMetadata, Tab, TabKind, Timestamp};

#[test]
fn timestamps_are_written_in_javascript_form() {
    // 2020-01-02T03:04:05Z
    let whole = Timestamp::from_unix(1_577_934_245, 0).unwrap();
    assert_eq!(waffle_format::metadata::format(&whole), "2020-01-02T03:04:05.000Z");
    let half = Timestamp::from_unix(1_577_934_245, 500_000_000).unwrap();
    assert_eq!(waffle_format::metadata::format(&half), "2020-01-02T03:04:05.500Z");
    let millis = Timestamp::from_unix(1_577_934_245, 49_000_000).unwrap();
    assert_eq!(waffle_format::metadata::format(&millis), "2020-01-02T03:04:05.049Z");
    let nanos = Timestamp::from_unix(1_577_934_245, 175_125_183).unwrap();
    assert_eq!(waffle_format::metadata::format(&nanos), "2020-01-02T03:04:05.175125183Z");
    let micros = Timestamp::from_unix(1_577_934_245, 175_125_000).unwrap();
    assert_eq!(waffle_format::metadata::format(&micros), "2020-01-02T03:04:05.175125Z");
    assert_eq!((nanos.secs(), nanos.nanos()), (1_577_934_245, 175_125_183));
}

#[test]
fn only_instants_chrono_represents_are_timestamps() {
    assert!(Timestamp::from_unix(0, 0).is_some());
    assert!(Timestamp::from_unix(0, 2_000_000_000).is_none());
    assert!(Timestamp::from_unix(i64::MAX, 0).is_none());
    let now = Timestamp::now();
    assert!(now.secs() > 1_577_934_245);
}

#[test]
fn metadata_builders_keep_what_they_are_given() {
    let p = ProjectMetadata::new("P").with_display_unit("in");
    assert_eq!(p.name, "P");
    assert_eq!(p.display_unit.as_deref(), Some("in"));
    assert_eq!(p.created, p.modified);
    let d = DocumentMetadata::from_project(&p);
    assert_eq!(d.name, "P");
    assert_eq!(d.display_unit.as_deref(), Some("in"));
    assert_eq!(d.created, p.created);
    let again = DocumentMetadata::from_project(&p);
    assert_ne!(d.id, again.id, "every document gets a fresh id");
    let back = ProjectMetadata::from_document(&d);
    assert_eq!(back, p);
    let d2 = DocumentMetadata::new("D").with_display_unit("mm");
    assert_eq!(d2.display_unit.as_deref(), Some("mm"));
    assert_eq!(d2.name, "D");
}

#[test]
fn part_tabs_get_uuid_ids_and_expose_their_tree() {
    let t = Tab::part("p", FeatureTree::new());
    assert!(uuid::Uuid::parse_str(&t.id).is_ok());
    assert_eq!(t.id.len(), 36);
    assert_eq!(t.name, "p");
    assert_eq!(t.features(), Some(&FeatureTree::new()));
    let mut u = Tab {
        id: "u".to_string(),
        name: "U".to_string(),
        kind: TabKind::Unknown { type_tag: "Drawing".to_string(), raw: r#"{"type":"Drawing"}"#.to_string() },
        extra: vec![],
    };
    assert!(u.features_mut().is_none());
    assert_eq!(u.kind.type_tag(), "Drawing");
}

#[test]
fn chrono_represents_exactly_its_date_range_and_leap_seconds() {
    assert!(Timestamp::from_unix(8_210_266_876_799, 999_999_999).is_some());
    assert!(Timestamp::from_unix(8_210_266_876_800, 0).is_none());
    assert!(Timestamp::from_unix(-8_334_601_228_800, 0).is_some());
    assert!(Timestamp::from_unix(-8_334_601_228_801, 999_999_999).is_none());
    assert!(Timestamp::from_unix(59, 1_500_000_000).is_some());
    assert!(Timestamp::from_unix(58, 1_500_000_000).is_none());
    assert!(Timestamp::from_unix(-1, 1_999_999_999).is_some());
    assert!(Timestamp::from_unix(i64::MIN, 0).is_none());
}

#[test]
fn a_new_part_tab_has_no_preview_mesh_yet() {
    let t = Tab::part("p", FeatureTree::new());
    assert_eq!(t.kind, TabKind::Part { features: FeatureTree::new(), preview_mesh: None });
}
