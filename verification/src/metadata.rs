//! Document and project metadata, timestamps written the way JavaScript's
//! `toISOString()` writes them, and the tabs of a document.

use vstd::prelude::*;
use vstd::string::*;

use crate::features::FeatureTree;
use crate::ids::{id_text, new_id, uuid_text};

verus! {

/// Whether chrono represents the UTC instant `secs` seconds after the UNIX
/// epoch plus `nanos` nanoseconds (`DateTime::<Utc>::from_timestamp` is
/// `Some`): its day, counted from January 1 of year 1 (day 1; the epoch is
/// day 719163), lies in chrono's date range, January 1, 262143 BCE to
/// December 31, 262142 CE; and the nanoseconds are below 2·10⁹, reaching
/// 10⁹ only in the last second of a minute (a leap second).
pub open spec fn utc_instant_exists(secs: i64, nanos: u32) -> bool {
    let days = secs / 86400 + 719163;
    &&& -95746129 <= days <= 95745399
    &&& nanos < 2_000_000_000
    &&& (nanos < 1_000_000_000 || secs % 86400 % 60 == 59)
}

/// What chrono's `DateTime::<Utc>::to_rfc3339_opts(format, true)` writes for
/// that instant, `format` being `SecondsFormat::Millis` when `millis` holds
/// and `SecondsFormat::AutoSi` otherwise.
pub uninterp spec fn utc_rfc3339(secs: i64, nanos: u32, millis: bool) -> Seq<char>;

/// An instant in UTC: whole non-leap seconds since the UNIX epoch and the
/// nanoseconds since the last one, always one chrono can represent.
#[derive(Debug, Clone, Copy, PartialEq, Eq)]
pub struct Timestamp {
    secs: i64,
    nanos: u32,
}

/// Calls `chrono::Utc::now` and takes the instant apart (`timestamp`,
/// `timestamp_subsec_nanos`). Claimed: chrono represents the parts again
/// (`from_timestamp` round-trips them, as its documentation says). Nothing
/// else is claimed: the value is the clock's.
#[verifier::external_body]
fn utc_now() -> (res: Timestamp)
    ensures
        utc_instant_exists(res.secs, res.nanos),
{
    let now = chrono::Utc::now();
    Timestamp { secs: now.timestamp(), nanos: now.timestamp_subsec_nanos() }
}

/// Calls `chrono::DateTime::<Utc>::from_timestamp` and tells whether it
/// gave an instant. Claimed (its source: the day range of
/// `NaiveDate::from_num_days_from_ce_opt`, the nanosecond rule of
/// `NaiveTime::from_num_seconds_from_midnight_opt`): exactly on the
/// instants [`utc_instant_exists`] describes.
#[verifier::external_body]
fn utc_instant_valid(secs: i64, nanos: u32) -> (r: bool)
    ensures
        r == utc_instant_exists(secs, nanos),
{
    chrono::DateTime::<chrono::Utc>::from_timestamp(secs, nanos).is_some()
}

/// Calls `chrono::DateTime::<Utc>::from_timestamp`, then `to_rfc3339_opts`
/// with `use_z` set, in `SecondsFormat::Millis` or `SecondsFormat::AutoSi`.
/// Claimed: the text is a function of the three arguments.
#[verifier::external_body]
fn utc_rfc3339_text(secs: i64, nanos: u32, millis: bool) -> (res: String)
    requires
        utc_instant_exists(secs, nanos),
    ensures
        res@ == utc_rfc3339(secs, nanos, millis),
{
    let form = if millis { chrono::SecondsFormat::Millis } else { chrono::SecondsFormat::AutoSi };
    match chrono::DateTime::<chrono::Utc>::from_timestamp(secs, nanos) {
        Some(dt) => dt.to_rfc3339_opts(form, true),
        None => String::new(),
    }
}

impl Timestamp {
    #[verifier::type_invariant]
    spec fn represented(self) -> bool {
        utc_instant_exists(self.secs, self.nanos)
    }

    /// Seconds since the UNIX epoch.
    pub closed spec fn spec_secs(self) -> i64 {
        self.secs
    }

    /// Nanoseconds since the last whole second.
    pub closed spec fn spec_nanos(self) -> u32 {
        self.nanos
    }

    /// The instant `secs` + `nanos`, if chrono represents it.
    pub fn from_unix(secs: i64, nanos: u32) -> (res: Option<Timestamp>)
        ensures
            res is Some <==> utc_instant_exists(secs, nanos),
            res matches Some(t) ==> t.spec_secs() == secs && t.spec_nanos() == nanos,
    {
        if utc_instant_valid(secs, nanos) {
            Some(Timestamp { secs, nanos })
        } else {
            None
        }
    }

    /// The current instant.
    pub fn now() -> (res: Timestamp) {
        utc_now()
    }

    pub fn secs(&self) -> (r: i64)
        ensures
            r == self.spec_secs(),
    {
        self.secs
    }

    pub fn nanos(&self) -> (r: u32)
        ensures
            r == self.spec_nanos(),
    {
        self.nanos
    }
}

/// How a timestamp is written: with milliseconds when the sub-second part is
/// a whole number of them (at least three fractional digits, as JavaScript
/// writes), else with every sub-second digit chrono has.
pub open spec fn spec_format(t: Timestamp) -> Seq<char> {
    utc_rfc3339(t.spec_secs(), t.spec_nanos(), t.spec_nanos() % 1_000_000 == 0)
}

/// RFC 3339 UTC text of `t` in JavaScript's `toISOString()` form
/// (`2020-01-02T03:04:05.000Z`), keeping nanosecond precision when the value
/// has it.
pub fn format(t: &Timestamp) -> (res: String)
    ensures
        res@ == spec_format(*t),
{
    proof {
        use_type_invariant(t);
    }
    utc_rfc3339_text(t.secs, t.nanos, t.nanos % 1_000_000 == 0)
}

fn copy_text(s: &String) -> (res: String)
    ensures
        res@ == s@,
{
    String::from_str(s.as_str())
}

fn copy_unit(u: &Option<String>) -> (res: Option<String>)
    ensures
        match u {
            Some(a) => res matches Some(b) && b@ == a@,
            None => res is None,
        },
{
    match u {
        Some(a) => Some(copy_text(a)),
        None => None,
    }
}

/// Project metadata for the single-tree API.
#[derive(Debug, Clone, PartialEq, Eq)]
pub struct ProjectMetadata {
    /// Human-readable project name.
    pub name: String,
    /// When the project was first created.
    pub created: Timestamp,
    /// When the project was last modified.
    pub modified: Timestamp,
    /// Display unit preference (mm, cm, m, in, ft); none for legacy files.
    pub display_unit: Option<String>,
}

impl ProjectMetadata {
    /// Metadata with the given name, created and modified now.
    pub fn new(name: &str) -> (res: ProjectMetadata)
        ensures
            res.name@ == name@,
            res.created == res.modified,
            res.display_unit is None,
    {
        let now = Timestamp::now();
        ProjectMetadata { name: String::from_str(name), created: now, modified: now, display_unit: None }
    }

    /// The same metadata with a display unit preference.
    pub fn with_display_unit(self, unit: &str) -> (res: ProjectMetadata)
        ensures
            res.name == self.name,
            res.created == self.created,
            res.modified == self.modified,
            res.display_unit matches Some(u) && u@ == unit@,
    {
        ProjectMetadata { display_unit: Some(String::from_str(unit)), ..self }
    }

    /// The project view of a document's metadata (its id dropped).
    pub fn from_document(d: &DocumentMetadata) -> (res: ProjectMetadata)
        ensures
            res.name@ == d.name@,
            res.created == d.created,
            res.modified == d.modified,
            match d.display_unit {
                Some(a) => res.display_unit matches Some(b) && b@ == a@,
                None => res.display_unit is None,
            },
    {
        ProjectMetadata {
            name: copy_text(&d.name),
            created: d.created,
            modified: d.modified,
            display_unit: copy_unit(&d.display_unit),
        }
    }
}

/// Document-level metadata.
#[derive(Debug, Clone, PartialEq, Eq)]
pub struct DocumentMetadata {
    /// Stable identity of the document: survives rename, move and fork.
    pub id: u128,
    pub name: String,
    pub created: Timestamp,
    pub modified: Timestamp,
    pub display_unit: Option<String>,
    /// Keys this reader does not know, each with its value as JSON text,
    /// kept so that they are written back.
    pub extra: Vec<(String, String)>,
}

impl DocumentMetadata {
    /// Fresh metadata: a new id, created and modified now, no unit.
    pub fn new(name: &str) -> (res: DocumentMetadata)
        ensures
            res.name@ == name@,
            res.created == res.modified,
            res.display_unit is None,
            res.extra@.len() == 0,
    {
        let now = Timestamp::now();
        DocumentMetadata {
            id: new_id(),
            name: String::from_str(name),
            created: now,
            modified: now,
            display_unit: None,
            extra: Vec::new(),
        }
    }

    /// The same metadata with a display unit preference.
    pub fn with_display_unit(self, unit: &str) -> (res: DocumentMetadata)
        ensures
            res.id == self.id,
            res.name == self.name,
            res.created == self.created,
            res.modified == self.modified,
            res.display_unit matches Some(u) && u@ == unit@,
            res.extra == self.extra,
    {
        DocumentMetadata { display_unit: Some(String::from_str(unit)), ..self }
    }

    /// Document metadata for a project: the project's fields and a new id.
    pub fn from_project(m: &ProjectMetadata) -> (res: DocumentMetadata)
        ensures
            res.name@ == m.name@,
            res.created == m.created,
            res.modified == m.modified,
            match m.display_unit {
                Some(a) => res.display_unit matches Some(b) && b@ == a@,
                None => res.display_unit is None,
            },
            res.extra@.len() == 0,
    {
        DocumentMetadata {
            id: new_id(),
            name: copy_text(&m.name),
            created: m.created,
            modified: m.modified,
            display_unit: copy_unit(&m.display_unit),
            extra: Vec::new(),
        }
    }
}

/// The kind and content of a tab. `Part` is the kind this version edits; a
/// kind it does not know is kept by its `type` tag.
#[derive(Debug, Clone, PartialEq, Eq)]
pub enum TabKind {
    /// A part: its feature tree, and the thumbnail preview mesh kept with
    /// it, as JSON text (the library does not read it).
    Part { features: FeatureTree, preview_mesh: Option<String> },
    /// A kind this reader does not know: its `type` tag, which the logic
    /// reads, and the whole object as JSON text, kept verbatim so that it is
    /// written back byte for byte.
    Unknown { type_tag: String, raw: String },
}

/// The `type` tag of a tab kind, as written in the file.
pub open spec fn spec_type_tag(k: TabKind) -> Seq<char> {
    match k {
        TabKind::Part { .. } => "Part"@,
        TabKind::Unknown { type_tag, .. } => type_tag@,
    }
}

impl TabKind {
    /// The `type` tag as written in the file.
    pub fn type_tag(&self) -> (r: &str)
        ensures
            r@ == spec_type_tag(*self),
    {
        match self {
            TabKind::Part { .. } => {
                let r = "Part";
                proof {
                    reveal_strlit("Part");
                }
                r
            },
            TabKind::Unknown { type_tag, .. } => type_tag.as_str(),
        }
    }
}

/// A tab of a document. `id` is matched by `active_tab`; new tabs get UUID
/// strings, legacy documents may carry other ids.
#[derive(Debug, Clone, PartialEq, Eq)]
pub struct Tab {
    pub id: String,
    pub name: String,
    pub kind: TabKind,
    /// Keys this reader does not know, each with its value as JSON text.
    pub extra: Vec<(String, String)>,
}

impl Tab {
    /// A Part tab with a fresh UUID id.
    pub fn part(name: &str, features: FeatureTree) -> (res: Tab)
        ensures
            exists|u: u128| res.id@ == uuid_text(u),
            res.name@ == name@,
            res.kind == (TabKind::Part { features, preview_mesh: None }),
            res.extra@.len() == 0,
    {
        Tab {
            id: id_text(new_id()),
            name: String::from_str(name),
            kind: TabKind::Part { features, preview_mesh: None },
            extra: Vec::new(),
        }
    }

    /// The tab's feature tree, if it is a Part.
    pub fn features(&self) -> (res: Option<&FeatureTree>)
        ensures
            match self.kind {
                TabKind::Part { features, .. } => res == Some(&features),
                TabKind::Unknown { .. } => res is None,
            },
    {
        match &self.kind {
            TabKind::Part { features, .. } => Some(features),
            TabKind::Unknown { .. } => None,
        }
    }

    /// The tab's feature tree, for editing, if it is a Part.
    pub fn features_mut(&mut self) -> (res: Option<&mut FeatureTree>)
        ensures
            res is Some <==> old(self).kind is Part,
            res matches Some(r) ==> *r == old(self).kind->Part_features && final(self).id == old(
                self,
            ).id && final(self).name == old(self).name && final(self).extra == old(self).extra
                && final(self).kind == (TabKind::Part {
                features: *final(r),
                preview_mesh: old(self).kind->Part_preview_mesh,
            }),
            res is None ==> *final(self) == *old(self),
    {
        match &mut self.kind {
            TabKind::Part { features, .. } => Some(features),
            TabKind::Unknown { .. } => None,
        }
    }
}

} // verus!
