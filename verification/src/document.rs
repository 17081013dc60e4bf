//! The in-memory document: metadata, the `sources` table, tabs and the
//! active tab; and the two shims that keep the single-tree API honest:
//! lifting legacy in-feature STEP payloads into the `sources` table, and
//! inlining them back for consumers that have no source store.

use vstd::prelude::*;
use vstd::string::*;
use vstd::utf8::*;

use crate::blob::{decode_step_blob, spec_decode_step_blob, MAX_INFLATED_BYTES, STEP_BLOB_ENCODING};
use crate::features::{Feature, FeatureTree, ImportedBodyParams, Operation};
use crate::hash::{
    check_content_hash, git_blob_sha1, is_git_blob_hash, law_own_hash_matches, recorded_matches,
    spec_git_blob_sha1, HashCheck,
};
use crate::ids::{new_id, push_uuid, uuid_text};
use crate::metadata::{spec_type_tag, DocumentMetadata, ProjectMetadata, Tab, TabKind};
use crate::sources::{
    spec_source_warnings, hash_mismatch, spec_effective_pack, spec_embed_decode, spec_usable_content, Embed, Locator,
    SourceEntry, SourceKind,
};
use crate::text::{push_text, str_equal, texts};

verus! {

/// The file format version this library writes.
pub const FORMAT_VERSION: u32 = 5;

/// The oldest reader (by its `FORMAT_VERSION`) that can parse the files
/// this library writes; written into every file as `min_reader_version`.
pub const MIN_READER_VERSION: u32 = 5;

/// Law: a file never demands a reader newer than the version it is written in.
pub proof fn law_min_reader_version_is_written_version_or_older()
    ensures
        MIN_READER_VERSION <= FORMAT_VERSION,
{
}

/// Index of the first entry of `s` whose id is `id`, or -1.
pub open spec fn first_with_id(s: Seq<SourceEntry>, id: u128) -> int
    decreases s.len(),
{
    if s.len() == 0 {
        -1
    } else {
        let k = first_with_id(s.drop_last(), id);
        if k >= 0 {
            k
        } else if s.last().id == id {
            s.len() - 1
        } else {
            -1
        }
    }
}

proof fn lemma_first_with_id_bounds(s: Seq<SourceEntry>, id: u128)
    ensures
        -1 <= first_with_id(s, id) < s.len(),
        first_with_id(s, id) >= 0 ==> s[first_with_id(s, id)].id == id,
    decreases s.len(),
{
    if s.len() > 0 {
        lemma_first_with_id_bounds(s.drop_last(), id);
    }
}

/// The position of the first source with id `id`.
pub fn find_source(sources: &[SourceEntry], id: u128) -> (res: Option<usize>)
    ensures
        match res {
            Some(k) => k == first_with_id(sources@, id),
            None => first_with_id(sources@, id) == -1,
        },
{
    let n = sources.len();
    let mut i: usize = 0;
    while i < n
        invariant
            n == sources@.len(),
            i <= n,
            first_with_id(sources@.take(i as int), id) == -1,
        decreases n - i,
    {
        assert(sources@.take(i + 1).drop_last() =~= sources@.take(i as int));
        if sources[i].id == id {
            proof {
                lemma_first_with_id_prefix(sources@, i as int + 1, id);
            }
            return Some(i);
        }
        i = i + 1;
    }
    assert(sources@.take(n as int) =~= sources@);
    None
}

/// The first match in a prefix that has one is the first match overall.
proof fn lemma_first_with_id_prefix(s: Seq<SourceEntry>, m: int, id: u128)
    requires
        0 <= m <= s.len(),
        first_with_id(s.take(m), id) >= 0,
    ensures
        first_with_id(s, id) == first_with_id(s.take(m), id),
    decreases s.len() - m,
{
    if m < s.len() {
        assert(s.take(m + 1).drop_last() =~= s.take(m));
        lemma_first_with_id_prefix(s, m + 1, id);
    } else {
        assert(s.take(m) =~= s);
    }
}

/// Warning: a feature names a source the table does not have.
pub open spec fn missing_source_warning(feature: Seq<char>, id: u128) -> Seq<char> {
    "feature `"@ + feature + "`: source "@ + uuid_text(id) + " is not in the document's sources table"@
}

/// Warning: a source's embed does not decode.
pub open spec fn undecodable_embed_warning(source: Seq<char>, id: u128, err: Seq<char>) -> Seq<char> {
    "source `"@ + source + "` ("@ + uuid_text(id) + "): embed does not decode: "@ + err
}

/// Warning: a source's embed does not match its recorded hash.
pub open spec fn embed_mismatch_warning(source: Seq<char>, id: u128, actual: Seq<char>, recorded: Seq<char>) -> Seq<char> {
    "source `"@ + source + "` ("@ + uuid_text(id) + "): EmbedHashMismatch ("@ + actual
        + " vs recorded "@ + recorded + "); not inlined"@
}

/// What inlining does to one `ImportedBody`'s params (named `feature`): the
/// new params and the warning, if any.
pub open spec fn inline_params_outcome(feature: Seq<char>, p: ImportedBodyParams, srcs: Seq<SourceEntry>) -> (
    ImportedBodyParams,
    Option<Seq<char>>,
) {
    if p.blob is Some {
        (p, None)
    } else {
        match p.source_id {
            None => (p, None),
            Some(id) => {
                let k = first_with_id(srcs, id);
                if k < 0 {
                    (p, Some(missing_source_warning(feature, id)))
                } else {
                    let s = srcs[k];
                    match s.embed {
                        None => (p, None),
                        Some(e) => match spec_embed_decode(e) {
                            Err(msg) => (p, Some(undecodable_embed_warning(s.name@, id, msg))),
                            Ok(text) => if hash_mismatch(s.content_hash, text) {
                                (
                                    p,
                                    Some(
                                        embed_mismatch_warning(
                                            s.name@,
                                            id,
                                            spec_git_blob_sha1(encode_utf8(text)),
                                            s.content_hash->0@,
                                        ),
                                    ),
                                )
                            } else {
                                (
                                    ImportedBodyParams {
                                        file_name: p.file_name,
                                        source_id: p.source_id,
                                        blob_encoding: Some(e.encoding),
                                        blob: Some(e.blob),
                                    },
                                    None,
                                )
                            },
                        },
                    }
                }
            },
        }
    }
}

fn clone_string(s: &String) -> (res: String)
    ensures
        res == *s,
{
    s.clone()
}

/// Inlines one `ImportedBody`'s source embed back as a legacy blob.
fn inline_params(feature: &String, p: ImportedBodyParams, sources: &[SourceEntry]) -> (res: (
    ImportedBodyParams,
    Option<String>,
))
    ensures
        res.0 == inline_params_outcome(feature@, p, sources@).0,
        match inline_params_outcome(feature@, p, sources@).1 {
            Some(w) => res.1 matches Some(r) && r@ == w,
            None => res.1 is None,
        },
{
    if p.blob.is_some() {
        return (p, None);
    }
    let id = match p.source_id {
        Some(id) => id,
        None => return (p, None),
    };
    let k = match find_source(sources, id) {
        Some(k) => k,
        None => {
            let mut w = String::new();
            w.append("feature `");
            w.append(feature.as_str());
            w.append("`: source ");
            push_uuid(&mut w, id);
            w.append(" is not in the document's sources table");
            return (p, Some(w));
        },
    };
    proof {
        lemma_first_with_id_bounds(sources@, id);
    }
    let source = &sources[k];
    let embed = match &source.embed {
        Some(e) => e,
        None => return (p, None),
    };
    let text = match embed.decode() {
        Ok(t) => t,
        Err(e) => {
            let mut w = String::new();
            w.append("source `");
            w.append(source.name.as_str());
            w.append("` (");
            push_uuid(&mut w, id);
            w.append("): embed does not decode: ");
            w.append(e.as_str());
            return (p, Some(w));
        },
    };
    let recorded: Option<&str> = match &source.content_hash {
        Some(h) => Some(h.as_str()),
        None => None,
    };
    match check_content_hash(recorded, text.as_str().as_bytes()) {
        HashCheck::Mismatch { recorded, actual } => {
            let mut w = String::new();
            w.append("source `");
            w.append(source.name.as_str());
            w.append("` (");
            push_uuid(&mut w, id);
            w.append("): EmbedHashMismatch (");
            w.append(actual.as_str());
            w.append(" vs recorded ");
            w.append(recorded.as_str());
            w.append("); not inlined");
            (p, Some(w))
        },
        _ => {
            let params = ImportedBodyParams {
                file_name: p.file_name,
                source_id: p.source_id,
                blob_encoding: Some(clone_string(&embed.encoding)),
                blob: Some(clone_string(&embed.blob)),
            };
            (params, None)
        },
    }
}


/// What inlining does to one feature: the new feature and the warning, if any.
pub open spec fn inline_feature_outcome(f: Feature, srcs: Seq<SourceEntry>) -> (Feature, Option<Seq<char>>) {
    match f.operation {
        Operation::ImportedBody { params } => {
            let o = inline_params_outcome(f.name@, params, srcs);
            (
                Feature {
                    id: f.id,
                    name: f.name,
                    operation: Operation::ImportedBody { params: o.0 },
                    suppressed: f.suppressed,
                },
                o.1,
            )
        },
        _ => (f, None),
    }
}

/// The warnings of inlining every feature of `fs`, in order.
pub open spec fn inline_warnings(fs: Seq<Feature>, srcs: Seq<SourceEntry>) -> Seq<Seq<char>>
    decreases fs.len(),
{
    if fs.len() == 0 {
        Seq::empty()
    } else {
        let rest = inline_warnings(fs.drop_last(), srcs);
        match inline_feature_outcome(fs.last(), srcs).1 {
            Some(w) => rest.push(w),
            None => rest,
        }
    }
}

fn inline_feature(f: Feature, sources: &[SourceEntry]) -> (res: (Feature, Option<String>))
    ensures
        res.0 == inline_feature_outcome(f, sources@).0,
        match inline_feature_outcome(f, sources@).1 {
            Some(w) => res.1 matches Some(r) && r@ == w,
            None => res.1 is None,
        },
{
    let Feature { id, name, operation, suppressed } = f;
    match operation {
        Operation::ImportedBody { params } => {
            let (params, warning) = inline_params(&name, params, sources);
            (Feature { id, name, operation: Operation::ImportedBody { params }, suppressed }, warning)
        },
        operation => (Feature { id, name, operation, suppressed }, None),
    }
}

/// Inverse shim for the single-tree API: give each `ImportedBody` that
/// names a source with a usable embed (hash-verified, or with no hash of a
/// known algorithm) its legacy inline blob, so a consumer with no source
/// store still rebuilds. A mismatching embed is not inlined.
pub fn inline_payloads(tree: &mut FeatureTree, sources: &[SourceEntry]) -> (warnings: Vec<String>)
    ensures
        final(tree).features@.len() == old(tree).features@.len(),
        forall|i: int|
            0 <= i < old(tree).features@.len() ==> #[trigger] final(tree).features@[i]
                == inline_feature_outcome(old(tree).features@[i], sources@).0,
        texts(warnings@) == inline_warnings(old(tree).features@, sources@),
{
    let mut pending: Vec<Feature> = Vec::new();
    std::mem::swap(&mut tree.features, &mut pending);
    let ghost old_fs = pending@;
    let mut done: Vec<Feature> = Vec::new();
    let mut warnings: Vec<String> = Vec::new();
    for f in it: pending
        invariant
            it.seq() == old_fs,
            done@.len() == it.index(),
            forall|j: int|
                0 <= j < it.index() ==> #[trigger] done@[j] == inline_feature_outcome(old_fs[j], sources@).0,
            texts(warnings@) == inline_warnings(old_fs.take(it.index() as int), sources@),
    {
        let ghost i = it.index();
        assert(old_fs.take(i + 1).drop_last() =~= old_fs.take(i as int));
        let (g, w) = inline_feature(f, sources);
        done.push(g);
        match w {
            Some(w) => {
                warnings.push(w);
            },
            None => {},
        }
        assert(texts(warnings@) =~= inline_warnings(old_fs.take(i + 1), sources@));
    }
    assert(old_fs.take(old_fs.len() as int) =~= old_fs);
    tree.features = done;
    warnings
}


// ------------------------------------------------------------------ lifting

/// A `Step` source whose recorded hash is exactly `h`.
pub open spec fn step_with_hash(s: SourceEntry, h: Seq<char>) -> bool {
    &&& s.kind is Step
    &&& s.content_hash matches Some(c) && c@ == h
}

/// Index of the first `Step` source of `s` recorded with hash `h`, or -1.
pub open spec fn first_step_with_hash(s: Seq<SourceEntry>, h: Seq<char>) -> int
    decreases s.len(),
{
    if s.len() == 0 {
        -1
    } else {
        let k = first_step_with_hash(s.drop_last(), h);
        if k >= 0 {
            k
        } else if step_with_hash(s.last(), h) {
            s.len() - 1
        } else {
            -1
        }
    }
}

proof fn lemma_first_step_bounds(s: Seq<SourceEntry>, h: Seq<char>)
    ensures
        -1 <= first_step_with_hash(s, h) < s.len(),
        first_step_with_hash(s, h) >= 0 ==> step_with_hash(s[first_step_with_hash(s, h)], h),
    decreases s.len(),
{
    if s.len() > 0 {
        lemma_first_step_bounds(s.drop_last(), h);
    }
}

/// A first match in a prefix stays the first match of the whole.
proof fn lemma_first_step_prefix(s: Seq<SourceEntry>, m: int, h: Seq<char>)
    requires
        0 <= m <= s.len(),
        first_step_with_hash(s.take(m), h) >= 0,
    ensures
        first_step_with_hash(s, h) == first_step_with_hash(s.take(m), h),
    decreases s.len() - m,
{
    if m < s.len() {
        assert(s.take(m + 1).drop_last() =~= s.take(m));
        lemma_first_step_prefix(s, m + 1, h);
    } else {
        assert(s.take(m) =~= s);
    }
}

/// The position of the first `Step` source recorded with hash `hash`.
fn find_step_source(sources: &[SourceEntry], hash: &String) -> (res: Option<usize>)
    ensures
        match res {
            Some(k) => k == first_step_with_hash(sources@, hash@),
            None => first_step_with_hash(sources@, hash@) == -1,
        },
{
    let n = sources.len();
    let mut i: usize = 0;
    while i < n
        invariant
            n == sources@.len(),
            i <= n,
            first_step_with_hash(sources@.take(i as int), hash@) == -1,
        decreases n - i,
    {
        assert(sources@.take(i + 1).drop_last() =~= sources@.take(i as int));
        let s = &sources[i];
        let hit = match &s.content_hash {
            Some(c) => matches!(s.kind, SourceKind::Step) && str_equal(c.as_str(), hash.as_str()),
            None => false,
        };
        if hit {
            proof {
                lemma_first_step_prefix(sources@, i as int + 1, hash@);
            }
            return Some(i);
        }
        i = i + 1;
    }
    assert(sources@.take(n as int) =~= sources@);
    None
}

/// The encoding a legacy payload is read with (the default when unnamed).
pub open spec fn lift_encoding(p: ImportedBodyParams) -> Seq<char> {
    match p.blob_encoding {
        Some(e) => e@,
        None => STEP_BLOB_ENCODING@,
    }
}

/// The params of an `ImportedBody` feature (arbitrary for other features).
pub open spec fn import_params(f: Feature) -> ImportedBodyParams {
    f.operation->ImportedBody_params
}

/// `f` is an `ImportedBody` carrying a legacy inline payload.
pub open spec fn carries_payload(f: Feature) -> bool {
    f.operation matches Operation::ImportedBody { params } && params.blob is Some
}

/// What `f`'s inline payload decodes to.
pub open spec fn payload_text(f: Feature) -> Result<Seq<char>, Seq<char>> {
    spec_decode_step_blob(
        lift_encoding(import_params(f)),
        import_params(f).blob->0@,
        MAX_INFLATED_BYTES as nat,
    )
}

/// `f` carries a payload that decodes: lifting moves it into `sources`.
pub open spec fn is_liftable(f: Feature) -> bool {
    carries_payload(f) && payload_text(f) is Ok
}

/// The git blob hash of a liftable feature's STEP text.
pub open spec fn payload_hash(f: Feature) -> Seq<char> {
    spec_git_blob_sha1(encode_utf8(payload_text(f)->Ok_0))
}

/// `g` is what lifting makes of `f`, given the final table `srcs`: a
/// liftable feature names the first `Step` source with its payload's hash
/// and carries no payload; every other feature is unchanged.
pub open spec fn lifted_feature(f: Feature, g: Feature, srcs: Seq<SourceEntry>) -> bool {
    if is_liftable(f) {
        let k = first_step_with_hash(srcs, payload_hash(f));
        &&& 0 <= k < srcs.len()
        &&& g.id == f.id
        &&& g.name == f.name
        &&& g.suppressed == f.suppressed
        &&& g.operation == Operation::ImportedBody {
            params: ImportedBodyParams {
                file_name: import_params(f).file_name,
                source_id: Some(srcs[k].id),
                blob_encoding: None,
                blob: None,
            },
        }
    } else {
        g == f
    }
}

/// `s` is the source entry lifting creates for `f` (its id aside): an
/// embedded, packed `Step` source holding `f`'s payload exactly as carried.
pub open spec fn entry_for_payload(f: Feature, s: SourceEntry) -> bool {
    &&& s.name == import_params(f).file_name
    &&& s.kind is Step
    &&& s.locator is Embedded
    &&& s.pack is None
    &&& s.content_hash matches Some(h) && h@ == payload_hash(f)
    &&& s.embed matches Some(e) && e.encoding@ == lift_encoding(import_params(f)) && e.blob@
        == import_params(f).blob->0@
}

/// Index of the first liftable feature of `fs` whose payload hash is `h`,
/// or -1.
pub open spec fn first_payload_with_hash(fs: Seq<Feature>, h: Seq<char>) -> int
    decreases fs.len(),
{
    if fs.len() == 0 {
        -1
    } else {
        let k = first_payload_with_hash(fs.drop_last(), h);
        if k >= 0 {
            k
        } else if is_liftable(fs.last()) && payload_hash(fs.last()) == h {
            fs.len() - 1
        } else {
            -1
        }
    }
}

proof fn lemma_first_payload_bounds(fs: Seq<Feature>, h: Seq<char>)
    ensures
        -1 <= first_payload_with_hash(fs, h) < fs.len(),
        first_payload_with_hash(fs, h) >= 0 ==> is_liftable(fs[first_payload_with_hash(fs, h)])
            && payload_hash(fs[first_payload_with_hash(fs, h)]) == h,
    decreases fs.len(),
{
    if fs.len() > 0 {
        lemma_first_payload_bounds(fs.drop_last(), h);
    }
}

/// The feature whose payload a source added by lifting holds: the first
/// liftable feature of `fs` with the source's recorded hash.
pub open spec fn payload_origin(fs: Seq<Feature>, s: SourceEntry) -> int {
    first_payload_with_hash(fs, s.content_hash->0@)
}

/// `srcs[j]` is the source lifting the features `fs` added for the payload
/// of its origin, and it is the first `Step` source with that hash.
pub open spec fn added_for(fs: Seq<Feature>, srcs: Seq<SourceEntry>, j: int) -> bool {
    let i = payload_origin(fs, srcs[j]);
    &&& 0 <= i < fs.len()
    &&& is_liftable(fs[i])
    &&& entry_for_payload(fs[i], srcs[j])
    &&& first_step_with_hash(srcs, payload_hash(fs[i])) == j
}

/// The whole effect of lifting the features `old_fs` against the table
/// `old_srcs`: features become `new_fs`, the table becomes `new_srcs`. The
/// table keeps its entries and gains one source per payload text whose hash
/// no `Step` source had, named after and holding the payload of the first
/// feature that carries it, in the order those features come.
pub open spec fn lifted(
    old_fs: Seq<Feature>,
    old_srcs: Seq<SourceEntry>,
    new_fs: Seq<Feature>,
    new_srcs: Seq<SourceEntry>,
) -> bool {
    &&& new_fs.len() == old_fs.len()
    &&& old_srcs.len() <= new_srcs.len()
    &&& new_srcs.take(old_srcs.len() as int) == old_srcs
    &&& forall|i: int|
        0 <= i < old_fs.len() ==> #[trigger] lifted_feature(old_fs[i], new_fs[i], new_srcs)
    &&& forall|j: int|
        old_srcs.len() <= j < new_srcs.len() ==> #[trigger] added_for(old_fs, new_srcs, j)
    &&& forall|j1: int, j2: int|
        #![trigger new_srcs[j1], new_srcs[j2]]
        old_srcs.len() <= j1 < j2 < new_srcs.len() ==> payload_origin(old_fs, new_srcs[j1])
            < payload_origin(old_fs, new_srcs[j2])
}

/// Warning: a legacy payload stays inline because it does not decode.
pub open spec fn undecodable_payload_warning(feature: Seq<char>, err: Seq<char>) -> Seq<char> {
    "feature `"@ + feature + "`: inline STEP payload left in place, it does not decode: "@ + err
}

/// The warnings of lifting every feature of `fs`, in order.
pub open spec fn lift_warnings(fs: Seq<Feature>) -> Seq<Seq<char>>
    decreases fs.len(),
{
    if fs.len() == 0 {
        Seq::empty()
    } else {
        let rest = lift_warnings(fs.drop_last());
        let f = fs.last();
        if carries_payload(f) && payload_text(f) is Err {
            rest.push(undecodable_payload_warning(f.name@, payload_text(f)->Err_0))
        } else {
            rest
        }
    }
}

/// Lifts one feature's payload, appending a source when no `Step` source
/// with the same hash exists yet.
fn lift_feature(f: Feature, sources: &mut Vec<SourceEntry>) -> (res: (Feature, Option<String>))
    ensures
        old(sources)@.len() <= final(sources)@.len(),
        final(sources)@.take(old(sources)@.len() as int) == old(sources)@,
        lifted_feature(f, res.0, final(sources)@),
        final(sources)@.len() > old(sources)@.len() ==> {
            &&& final(sources)@.len() == old(sources)@.len() + 1
            &&& is_liftable(f)
            &&& entry_for_payload(f, final(sources)@.last())
            &&& first_step_with_hash(old(sources)@, payload_hash(f)) == -1
        },
        carries_payload(f) && payload_text(f) is Err ==> (res.1 matches Some(w) && w@
            == undecodable_payload_warning(f.name@, payload_text(f)->Err_0)),
        !(carries_payload(f) && payload_text(f) is Err) ==> res.1 is None,
{
    let ghost f0 = f;
    let Feature { id, name, operation, suppressed } = f;
    let params = match operation {
        Operation::ImportedBody { params } => params,
        operation => return (Feature { id, name, operation, suppressed }, None),
    };
    let blob = match &params.blob {
        Some(b) => b,
        None => {
            return (
                Feature { id, name, operation: Operation::ImportedBody { params }, suppressed },
                None,
            )
        },
    };
    let encoding: &str = match &params.blob_encoding {
        Some(e) => e.as_str(),
        None => STEP_BLOB_ENCODING,
    };
    let text = match decode_step_blob(encoding, blob.as_str()) {
        Ok(t) => t,
        Err(e) => {
            let mut w = String::new();
            w.append("feature `");
            w.append(name.as_str());
            w.append("`: inline STEP payload left in place, it does not decode: ");
            w.append(e.as_str());
            return (
                Feature { id, name, operation: Operation::ImportedBody { params }, suppressed },
                Some(w),
            );
        },
    };
    let hash = git_blob_sha1(text.as_str().as_bytes());
    let source_id = match find_step_source(sources.as_slice(), &hash) {
        Some(k) => {
            proof {
                lemma_first_step_bounds(sources@, hash@);
            }
            sources[k].id
        },
        None => {
            let fresh = new_id();
            let entry = SourceEntry {
                id: fresh,
                name: clone_string(&params.file_name),
                kind: SourceKind::Step,
                locator: Locator::Embedded,
                content_hash: Some(hash),
                pack: None,
                embed: Some(Embed::from_encoded(encoding, blob.as_str())),
            };
            let ghost before = sources@;
            sources.push(entry);
            proof {
                assert(sources@.drop_last() =~= before);
                assert(sources@.take(before.len() as int) =~= before);
            }
            fresh
        },
    };
    proof {
        lemma_first_step_bounds(sources@, payload_hash(f0));
    }
    let params = ImportedBodyParams {
        file_name: params.file_name,
        source_id: Some(source_id),
        blob_encoding: None,
        blob: None,
    };
    (Feature { id, name, operation: Operation::ImportedBody { params }, suppressed }, None)
}


/// A source an earlier step of lifting added stays added, with the same
/// origin, when one more feature is lifted.
proof fn lemma_added_for_kept(
    fs0: Seq<Feature>,
    fs1: Seq<Feature>,
    before: Seq<SourceEntry>,
    after: Seq<SourceEntry>,
    j: int,
)
    requires
        fs1.len() == fs0.len() + 1,
        fs1.drop_last() == fs0,
        before.len() <= after.len(),
        after.take(before.len() as int) == before,
        0 <= j < before.len(),
        added_for(fs0, before, j),
    ensures
        added_for(fs1, after, j),
        after[j] == before[j],
        payload_origin(fs1, after[j]) == payload_origin(fs0, before[j]),
{
    assert(after[j] == after.take(before.len() as int)[j]);
    let h = before[j].content_hash->0@;
    let k = first_payload_with_hash(fs0, h);
    assert(first_payload_with_hash(fs1, h) == k);
    assert(fs1[k] == fs0[k]);
    lemma_first_step_prefix(after, before.len() as int, payload_hash(fs1[k]));
}

/// The source lifting appends for feature `f` is added for it: `f` is the
/// first feature with its payload's hash.
proof fn lemma_added_for_new(
    fs0: Seq<Feature>,
    fs1: Seq<Feature>,
    done: Seq<Feature>,
    before: Seq<SourceEntry>,
    after: Seq<SourceEntry>,
    f: Feature,
)
    requires
        fs1 == fs0.push(f),
        done.len() == fs0.len(),
        forall|k: int| 0 <= k < fs0.len() ==> #[trigger] lifted_feature(fs0[k], done[k], before),
        after.len() == before.len() + 1,
        after.drop_last() == before,
        is_liftable(f),
        entry_for_payload(f, after.last()),
        first_step_with_hash(before, payload_hash(f)) == -1,
    ensures
        added_for(fs1, after, before.len() as int),
        payload_origin(fs1, after[before.len() as int]) == fs0.len(),
{
    let h = payload_hash(f);
    lemma_first_payload_bounds(fs0, h);
    let k = first_payload_with_hash(fs0, h);
    if k >= 0 {
        assert(lifted_feature(fs0[k], done[k], before));
    }
    assert(fs1.drop_last() =~= fs0);
    assert(fs1.last() == f);
    assert(first_payload_with_hash(fs1, h) == fs0.len());
    assert(after[before.len() as int] == after.last());
    assert(first_step_with_hash(after, h) == before.len());
}

/// Move every legacy in-feature STEP payload of `tree` into `sources`
/// (`Embedded`, packed, hashed), setting `source_id` and clearing the blob.
/// Byte-identical payloads share one source. A payload that fails to decode
/// stays inline and is reported.
pub fn lift_inline_payloads(tree: &mut FeatureTree, sources: &mut Vec<SourceEntry>) -> (warnings: Vec<
    String,
>)
    ensures
        lifted(old(tree).features@, old(sources)@, final(tree).features@, final(sources)@),
        texts(warnings@) == lift_warnings(old(tree).features@),
{
    let mut pending: Vec<Feature> = Vec::new();
    std::mem::swap(&mut tree.features, &mut pending);
    let ghost old_fs = pending@;
    let ghost old_srcs = sources@;
    let mut done: Vec<Feature> = Vec::new();
    let mut warnings: Vec<String> = Vec::new();
    assert(sources@.take(sources@.len() as int) =~= sources@);
    assert(lifted(old_fs.take(0), old_srcs, done@, sources@));
    for f in it: pending
        invariant
            it.seq() == old_fs,
            lifted(old_fs.take(it.index() as int), old_srcs, done@, sources@),
            texts(warnings@) == lift_warnings(old_fs.take(it.index() as int)),
    {
        let ghost i = it.index();
        let ghost before = sources@;
        let ghost done_before = done@;
        assert(old_fs.take(i + 1).drop_last() =~= old_fs.take(i as int));
        assert(old_fs.take(i + 1)[i as int] == f);
        let (g, w) = lift_feature(f, sources);
        done.push(g);
        match w {
            Some(w) => {
                warnings.push(w);
            },
            None => {},
        }
        assert(texts(warnings@) =~= lift_warnings(old_fs.take(i + 1)));
        proof {
            let fs1 = old_fs.take(i + 1);
            assert(sources@.take(old_srcs.len() as int) =~= old_srcs) by {
                assert(sources@.take(before.len() as int) == before);
                assert(before.take(old_srcs.len() as int) == old_srcs);
            }
            assert forall|k: int| 0 <= k < fs1.len() implies #[trigger] lifted_feature(
                fs1[k],
                done@[k],
                sources@,
            ) by {
                if k < i {
                    assert(fs1[k] == old_fs.take(i as int)[k]);
                    assert(done@[k] == done_before[k]);
                    assert(lifted_feature(old_fs.take(i as int)[k], done_before[k], before));
                    if is_liftable(fs1[k]) {
                        lemma_first_step_prefix(sources@, before.len() as int, payload_hash(fs1[k]));
                        assert(sources@.take(before.len() as int) =~= before);
                        lemma_first_step_bounds(before, payload_hash(fs1[k]));
                    }
                }
            }
            let fs0 = old_fs.take(i as int);
            assert(fs1.drop_last() =~= fs0);
            assert(fs1 =~= fs0.push(f));
            assert(sources@.take(before.len() as int) =~= before);
            if sources@.len() > before.len() {
                assert(sources@.drop_last() =~= before);
            }
            assert forall|j: int| old_srcs.len() <= j < sources@.len() implies #[trigger] added_for(
                fs1,
                sources@,
                j,
            ) by {
                if j < before.len() {
                    lemma_added_for_kept(fs0, fs1, before, sources@, j);
                } else {
                    lemma_added_for_new(fs0, fs1, done_before, before, sources@, f);
                }
            }
            assert forall|j1: int, j2: int|
                old_srcs.len() <= j1 < j2 < sources@.len() implies payload_origin(
                fs1,
                #[trigger] sources@[j1],
            ) < payload_origin(fs1, #[trigger] sources@[j2]) by {
                lemma_added_for_kept(fs0, fs1, before, sources@, j1);
                if j2 < before.len() {
                    lemma_added_for_kept(fs0, fs1, before, sources@, j2);
                    assert(payload_origin(fs0, before[j1]) < payload_origin(fs0, before[j2]));
                } else {
                    lemma_added_for_new(fs0, fs1, done_before, before, sources@, f);
                    assert(added_for(fs0, before, j1));
                }
            }
        }
    }
    assert(old_fs.take(old_fs.len() as int) =~= old_fs);
    tree.features = done;
    warnings
}


// --------------------------------------------------------------------- laws

/// An entry whose id no earlier entry has is the one its id finds.
proof fn lemma_first_with_id_unique_before(s: Seq<SourceEntry>, k: int)
    requires
        0 <= k < s.len(),
        forall|m: int| 0 <= m < k ==> #[trigger] s[m].id != s[k].id,
    ensures
        first_with_id(s, s[k].id) == k,
    decreases s.len(),
{
    let d = s.drop_last();
    if k < s.len() - 1 {
        assert forall|m: int| 0 <= m < k implies #[trigger] d[m].id != d[k].id by {
            assert(d[m] == s[m]);
        }
        assert(d[k] == s[k]);
        lemma_first_with_id_unique_before(d, k);
    } else {
        lemma_first_with_id_bounds(d, s[k].id);
        let m = first_with_id(d, s[k].id);
        if m >= 0 {
            assert(s[m] == d[m]);
            assert(s[m].id != s[k].id);
        }
    }
}

/// Law: lifting gives features whose payloads decode to the same STEP text
/// one and the same source.
pub proof fn law_identical_payloads_share_a_source(
    old_fs: Seq<Feature>,
    old_srcs: Seq<SourceEntry>,
    new_fs: Seq<Feature>,
    new_srcs: Seq<SourceEntry>,
    i: int,
    j: int,
)
    requires
        lifted(old_fs, old_srcs, new_fs, new_srcs),
        0 <= i < old_fs.len(),
        0 <= j < old_fs.len(),
        is_liftable(old_fs[i]),
        is_liftable(old_fs[j]),
        payload_text(old_fs[i]) == payload_text(old_fs[j]),
    ensures
        import_params(new_fs[i]).source_id is Some,
        import_params(new_fs[i]).source_id == import_params(new_fs[j]).source_id,
{
    assert(lifted_feature(old_fs[i], new_fs[i], new_srcs));
    assert(lifted_feature(old_fs[j], new_fs[j], new_srcs));
}

/// Law: every source that lifting adds is an embedded, packed `Step` source
/// whose embed checks against its recorded hash (so its content is usable,
/// exactly the text of the payload it was made from, and validation raises
/// no warning for it), and no other `Step` source of the table is recorded
/// with that hash.
pub proof fn law_lifted_sources_are_verified_and_unique(
    old_fs: Seq<Feature>,
    old_srcs: Seq<SourceEntry>,
    new_fs: Seq<Feature>,
    new_srcs: Seq<SourceEntry>,
    j: int,
)
    requires
        lifted(old_fs, old_srcs, new_fs, new_srcs),
        old_srcs.len() <= j < new_srcs.len(),
    ensures
        new_srcs[j].kind is Step,
        new_srcs[j].locator is Embedded,
        spec_effective_pack(new_srcs[j]),
        new_srcs[j].embed matches Some(e) && spec_embed_decode(e) matches Ok(t)
            && new_srcs[j].content_hash matches Some(h) && is_git_blob_hash(h@)
            && recorded_matches(h@, spec_git_blob_sha1(encode_utf8(t))),
        spec_usable_content(new_srcs[j]) == Some(
            payload_text(old_fs[payload_origin(old_fs, new_srcs[j])])->Ok_0,
        ),
        embed_warning(new_srcs[j]) is None,
        forall|k: int|
            0 <= k < new_srcs.len() && k != j ==> !step_with_hash(
                #[trigger] new_srcs[k],
                new_srcs[j].content_hash->0@,
            ),
{
    assert(added_for(old_fs, new_srcs, j));
    let i = payload_origin(old_fs, new_srcs[j]);
    let f = old_fs[i];
    law_own_hash_matches(encode_utf8(payload_text(f)->Ok_0));
    let h = payload_hash(f);
    assert forall|k: int| 0 <= k < new_srcs.len() && k != j implies !step_with_hash(
        #[trigger] new_srcs[k],
        new_srcs[j].content_hash->0@,
    ) by {
        if step_with_hash(new_srcs[k], h) {
            if k < j {
                lemma_first_step_not_before(new_srcs, h, k);
            } else {
                assert(added_for(old_fs, new_srcs, k));
                assert(payload_hash(old_fs[payload_origin(old_fs, new_srcs[k])]) == h);
            }
        }
    }
}

/// An earlier match means the first match is no later than it.
proof fn lemma_first_step_not_before(s: Seq<SourceEntry>, h: Seq<char>, k: int)
    requires
        0 <= k < s.len(),
        step_with_hash(s[k], h),
    ensures
        0 <= first_step_with_hash(s, h) <= k,
    decreases s.len(),
{
    if k < s.len() - 1 {
        assert(s.drop_last()[k] == s[k]);
        lemma_first_step_not_before(s.drop_last(), h, k);
    } else {
        lemma_first_step_bounds(s.drop_last(), h);
    }
}

/// Any `Step` source of `srcs` recorded with the hash of `f`'s payload
/// holds exactly that payload in its embed.
pub open spec fn holds_payload_of(srcs: Seq<SourceEntry>, f: Feature) -> bool {
    forall|k: int|
        0 <= k < srcs.len() && #[trigger] step_with_hash(srcs[k], payload_hash(f)) ==> (
        srcs[k].embed matches Some(e) && spec_embed_decode(e) == payload_text(f))
}

/// Every liftable feature of `fs` whose payload has the same git blob hash
/// as `f`'s carries the same text (no SHA-1 collision with `f`'s payload).
pub open spec fn hash_identifies_payload(fs: Seq<Feature>, f: Feature) -> bool {
    forall|j: int|
        0 <= j < fs.len() && is_liftable(#[trigger] fs[j]) && payload_hash(fs[j]) == payload_hash(f)
            ==> payload_text(fs[j]) == payload_text(f)
}

/// No source before the one that holds `f`'s payload hash shares its id, so
/// looking the feature's source id up finds that source.
pub open spec fn id_finds_its_source(srcs: Seq<SourceEntry>, f: Feature) -> bool {
    let k = first_step_with_hash(srcs, payload_hash(f));
    forall|m: int| 0 <= m < k ==> #[trigger] srcs[m].id != srcs[k].id
}

/// Law (lift, then inline): a feature whose legacy payload was lifted into
/// the table gets, from inlining against that table, an inline payload that
/// decodes to exactly the STEP text it carried, keeps the source it was
/// given, and causes no warning. This holds unless an earlier source shares
/// the id of the source the payload went to, a `Step` source already in the
/// table claims the payload's hash but holds other content, or another
/// payload collides with this one under SHA-1.
pub proof fn law_lift_then_inline_gives_the_text_back(
    old_fs: Seq<Feature>,
    old_srcs: Seq<SourceEntry>,
    new_fs: Seq<Feature>,
    new_srcs: Seq<SourceEntry>,
    i: int,
)
    requires
        lifted(old_fs, old_srcs, new_fs, new_srcs),
        0 <= i < old_fs.len(),
        id_finds_its_source(new_srcs, old_fs[i]),
        hash_identifies_payload(old_fs, old_fs[i]),
        is_liftable(old_fs[i]),
        holds_payload_of(old_srcs, old_fs[i]),
    ensures
        ({
            let o = inline_feature_outcome(new_fs[i], new_srcs);
            &&& o.1 is None
            &&& o.0.id == old_fs[i].id
            &&& o.0.name == old_fs[i].name
            &&& o.0.suppressed == old_fs[i].suppressed
            &&& carries_payload(o.0)
            &&& import_params(o.0).blob_encoding is Some
            &&& payload_text(o.0) == payload_text(old_fs[i])
            &&& import_params(o.0).file_name == import_params(old_fs[i]).file_name
            &&& import_params(o.0).source_id == import_params(new_fs[i]).source_id
            &&& import_params(o.0).source_id is Some
        }),
{
    let f = old_fs[i];
    let g = new_fs[i];
    let h = payload_hash(f);
    assert(lifted_feature(f, g, new_srcs));
    let k = first_step_with_hash(new_srcs, h);
    lemma_first_step_bounds(new_srcs, h);
    lemma_first_with_id_unique_before(new_srcs, k);
    let s = new_srcs[k];
    if k < old_srcs.len() {
        assert(new_srcs.take(old_srcs.len() as int)[k] == s);
        assert(old_srcs[k] == s);
    } else {
        assert(added_for(old_fs, new_srcs, k));
        let i2 = payload_origin(old_fs, new_srcs[k]);
        assert(payload_hash(old_fs[i2]) == h);
    }
    let e = s.embed->0;
    assert(spec_embed_decode(e) == payload_text(f));
    law_own_hash_matches(encode_utf8(payload_text(f)->Ok_0));
    assert(!hash_mismatch(s.content_hash, payload_text(f)->Ok_0));
}

/// Law: inlining gives a feature that names a source the source's usable
/// content (the content `embedded_contents` lists), and nothing when the
/// source has none: a hash-verified or unverifiable embed is inlined, a
/// mismatching or undecodable one is not.
pub proof fn law_inlining_uses_exactly_the_usable_content(
    feature: Seq<char>,
    p: ImportedBodyParams,
    srcs: Seq<SourceEntry>,
)
    requires
        p.blob is None,
        p.source_id is Some,
        first_with_id(srcs, p.source_id->0) >= 0,
    ensures
        ({
            let s = srcs[first_with_id(srcs, p.source_id->0)];
            let q = inline_params_outcome(feature, p, srcs).0;
            &&& q.blob is Some <==> spec_usable_content(s) is Some
            &&& q.blob is Some ==> spec_decode_step_blob(
                q.blob_encoding->0@,
                q.blob->0@,
                MAX_INFLATED_BYTES as nat,
            ) == Ok::<Seq<char>, Seq<char>>(spec_usable_content(s)->0)
        }),
{
}

/// Law: validation warns of a source's embed exactly when the embed decodes
/// but is not usable content (it contradicts the recorded hash).
pub proof fn law_embed_warnings_mark_unusable_decodable_embeds(s: SourceEntry)
    ensures
        embed_warning(s) is Some <==> (s.embed matches Some(e) && spec_embed_decode(e) is Ok
            && spec_usable_content(s) is None),
{
}

/// Law: inlining never changes what a feature is or which source it names:
/// its id, name and suppression stay, an import keeps its file name and
/// source id, and a feature comes back unchanged when it is no import,
/// already carries a payload, names no source, names a source the table does
/// not have, or names one that offers no usable content (no embed, an
/// undecodable one, or one that contradicts its recorded hash).
pub proof fn law_inlining_keeps_the_named_source(f: Feature, srcs: Seq<SourceEntry>)
    ensures
        ({
            let g = inline_feature_outcome(f, srcs).0;
            &&& g.id == f.id
            &&& g.name == f.name
            &&& g.suppressed == f.suppressed
            &&& (f.operation is ImportedBody) == (g.operation is ImportedBody)
            &&& f.operation is ImportedBody ==> import_params(g).file_name == import_params(
                f,
            ).file_name && import_params(g).source_id == import_params(f).source_id
            &&& !(f.operation is ImportedBody) ==> g == f
            &&& (f.operation is ImportedBody && (import_params(f).blob is Some || import_params(
                f,
            ).source_id is None)) ==> g == f
            &&& (f.operation is ImportedBody && import_params(f).source_id is Some && (first_with_id(
                srcs,
                import_params(f).source_id->0,
            ) < 0 || spec_usable_content(
                srcs[first_with_id(srcs, import_params(f).source_id->0)],
            ) is None)) ==> g == f
        }),
{
}

/// Law: lifting moves every legacy payload that decodes, whatever the
/// feature's other fields (suppressed or not): an import carrying a blob
/// that decodes under its encoding (the default one when none is named)
/// ends with no blob and no encoding, keeps its id, name, suppression and
/// file name, and names a `Step` source of the table recorded with the git
/// blob hash of the decoded text.
pub proof fn law_every_decodable_payload_is_lifted(
    old_fs: Seq<Feature>,
    old_srcs: Seq<SourceEntry>,
    new_fs: Seq<Feature>,
    new_srcs: Seq<SourceEntry>,
    i: int,
)
    requires
        lifted(old_fs, old_srcs, new_fs, new_srcs),
        0 <= i < old_fs.len(),
        old_fs[i].operation is ImportedBody,
        import_params(old_fs[i]).blob is Some,
        spec_decode_step_blob(
            match import_params(old_fs[i]).blob_encoding {
                Some(e) => e@,
                None => STEP_BLOB_ENCODING@,
            },
            import_params(old_fs[i]).blob->0@,
            MAX_INFLATED_BYTES as nat,
        ) is Ok,
    ensures
        ({
            let g = new_fs[i];
            let text = spec_decode_step_blob(
                match import_params(old_fs[i]).blob_encoding {
                    Some(e) => e@,
                    None => STEP_BLOB_ENCODING@,
                },
                import_params(old_fs[i]).blob->0@,
                MAX_INFLATED_BYTES as nat,
            )->Ok_0;
            &&& g.id == old_fs[i].id
            &&& g.name == old_fs[i].name
            &&& g.suppressed == old_fs[i].suppressed
            &&& g.operation is ImportedBody
            &&& import_params(g).blob is None
            &&& import_params(g).blob_encoding is None
            &&& import_params(g).file_name == import_params(old_fs[i]).file_name
            &&& import_params(g).source_id is Some
            &&& exists|k: int|
                0 <= k < new_srcs.len() && #[trigger] new_srcs[k].id == import_params(
                    g,
                ).source_id->0 && step_with_hash(
                    new_srcs[k],
                    spec_git_blob_sha1(encode_utf8(text)),
                )
        }),
{
    let f = old_fs[i];
    assert(lifted_feature(f, new_fs[i], new_srcs));
    let h = payload_hash(f);
    let k = first_step_with_hash(new_srcs, h);
    lemma_first_step_bounds(new_srcs, h);
    assert(new_srcs[k].id == import_params(new_fs[i]).source_id->0);
}

/// Lifting leaves no feature liftable.
proof fn lemma_lifted_feature_not_liftable(f: Feature, g: Feature, srcs: Seq<SourceEntry>)
    requires
        lifted_feature(f, g, srcs),
    ensures
        !is_liftable(g),
        carries_payload(g) && payload_text(g) is Err <==> carries_payload(f) && payload_text(f) is Err,
        carries_payload(g) ==> g == f,
{
}

/// Lifting warnings are those of features whose payload does not decode,
/// which lifting leaves as they are.
proof fn lemma_lift_warnings_after_lifting(
    a: Seq<Feature>,
    b: Seq<Feature>,
    srcs: Seq<SourceEntry>,
)
    requires
        a.len() == b.len(),
        forall|i: int| 0 <= i < a.len() ==> #[trigger] lifted_feature(a[i], b[i], srcs),
    ensures
        lift_warnings(b) == lift_warnings(a),
    decreases a.len(),
{
    if a.len() > 0 {
        let n = a.len() - 1;
        assert forall|i: int| 0 <= i < n implies #[trigger] lifted_feature(
            a.drop_last()[i],
            b.drop_last()[i],
            srcs,
        ) by {
            assert(lifted_feature(a[i], b[i], srcs));
        }
        lemma_lift_warnings_after_lifting(a.drop_last(), b.drop_last(), srcs);
        assert(lifted_feature(a[n], b[n], srcs));
        lemma_lifted_feature_not_liftable(a[n], b[n], srcs);
    }
}

/// Law: lifting is idempotent. Lifting an already lifted tree against the
/// table it produced changes neither the tree nor the table, and reports
/// the same warnings.
pub proof fn law_lifting_twice_changes_nothing(
    fs0: Seq<Feature>,
    srcs0: Seq<SourceEntry>,
    fs1: Seq<Feature>,
    srcs1: Seq<SourceEntry>,
    fs2: Seq<Feature>,
    srcs2: Seq<SourceEntry>,
)
    requires
        lifted(fs0, srcs0, fs1, srcs1),
        lifted(fs1, srcs1, fs2, srcs2),
    ensures
        fs2 == fs1,
        srcs2 == srcs1,
        lift_warnings(fs1) == lift_warnings(fs0),
{
    assert forall|i: int| 0 <= i < fs1.len() implies !is_liftable(#[trigger] fs1[i]) by {
        assert(lifted_feature(fs0[i], fs1[i], srcs1));
        lemma_lifted_feature_not_liftable(fs0[i], fs1[i], srcs1);
    }
    assert forall|i: int| 0 <= i < fs1.len() implies #[trigger] fs2[i] == fs1[i] by {
        assert(lifted_feature(fs1[i], fs2[i], srcs2));
    }
    assert(fs2 =~= fs1);
    if srcs2.len() > srcs1.len() {
        let j = srcs1.len() as int;
        assert(srcs2[j] == srcs2[j]);
        assert(added_for(fs1, srcs2, j));
        let w = payload_origin(fs1, srcs2[j]);
        assert(!is_liftable(fs1[w]));
    }
    assert(srcs2 =~= srcs2.take(srcs1.len() as int));
    lemma_lift_warnings_after_lifting(fs0, fs1, srcs1);
}

/// Law: inlining is idempotent. Inlining a feature that inlining already
/// produced gives it back unchanged, with the same warning.
pub proof fn law_inlining_twice_changes_nothing(f: Feature, srcs: Seq<SourceEntry>)
    ensures
        inline_feature_outcome(inline_feature_outcome(f, srcs).0, srcs) == inline_feature_outcome(
            f,
            srcs,
        ),
{
}

// ----------------------------------------------------------------- document

/// Why a document is refused.
#[derive(Debug, Clone, PartialEq, Eq)]
pub enum LoadError {
    ParseError(String),
}

/// A document: metadata, the `sources` table, tabs, and the active tab's id.
#[derive(Debug, Clone, PartialEq, Eq)]
pub struct WaffleDocument {
    pub document: DocumentMetadata,
    pub sources: Vec<SourceEntry>,
    pub tabs: Vec<Tab>,
    pub active_tab: String,
    /// Envelope keys this reader does not know, each with its value as JSON
    /// text, kept so that they are written back.
    pub extra: Vec<(String, String)>,
}

/// A loaded document and the non-fatal findings of loading it.
#[derive(Debug, Clone, PartialEq, Eq)]
pub struct LoadedDocument {
    pub document: WaffleDocument,
    pub warnings: Vec<String>,
}

/// Index of the first tab of `t` whose id is `id`, or -1.
pub open spec fn first_tab_with_id(t: Seq<Tab>, id: Seq<char>) -> int
    decreases t.len(),
{
    if t.len() == 0 {
        -1
    } else {
        let k = first_tab_with_id(t.drop_last(), id);
        if k >= 0 {
            k
        } else if t.last().id@ == id {
            t.len() - 1
        } else {
            -1
        }
    }
}

proof fn lemma_first_tab_bounds(t: Seq<Tab>, id: Seq<char>)
    ensures
        -1 <= first_tab_with_id(t, id) < t.len(),
        first_tab_with_id(t, id) >= 0 ==> t[first_tab_with_id(t, id)].id@ == id,
    decreases t.len(),
{
    if t.len() > 0 {
        lemma_first_tab_bounds(t.drop_last(), id);
    }
}

proof fn lemma_first_tab_prefix(t: Seq<Tab>, m: int, id: Seq<char>)
    requires
        0 <= m <= t.len(),
        first_tab_with_id(t.take(m), id) >= 0,
    ensures
        first_tab_with_id(t, id) == first_tab_with_id(t.take(m), id),
    decreases t.len() - m,
{
    if m < t.len() {
        assert(t.take(m + 1).drop_last() =~= t.take(m));
        lemma_first_tab_prefix(t, m + 1, id);
    } else {
        assert(t.take(m) =~= t);
    }
}

/// The position of the first tab with id `id`.
fn find_tab(tabs: &[Tab], id: &str) -> (res: Option<usize>)
    ensures
        match res {
            Some(k) => k == first_tab_with_id(tabs@, id@),
            None => first_tab_with_id(tabs@, id@) == -1,
        },
{
    let n = tabs.len();
    let mut i: usize = 0;
    while i < n
        invariant
            n == tabs@.len(),
            i <= n,
            first_tab_with_id(tabs@.take(i as int), id@) == -1,
        decreases n - i,
    {
        assert(tabs@.take(i + 1).drop_last() =~= tabs@.take(i as int));
        if str_equal(tabs[i].id.as_str(), id) {
            proof {
                lemma_first_tab_prefix(tabs@, i as int + 1, id@);
            }
            return Some(i);
        }
        i = i + 1;
    }
    assert(tabs@.take(n as int) =~= tabs@);
    None
}

/// The tab `id` names in `tabs`, if any.
pub open spec fn tab_named(tabs: Seq<Tab>, id: Seq<char>) -> Option<Tab> {
    let k = first_tab_with_id(tabs, id);
    if k >= 0 {
        Some(tabs[k])
    } else {
        None
    }
}

/// The source `id` names in `srcs`, if any.
pub open spec fn source_named(srcs: Seq<SourceEntry>, id: u128) -> Option<SourceEntry> {
    let k = first_with_id(srcs, id);
    if k >= 0 {
        Some(srcs[k])
    } else {
        None
    }
}

impl WaffleDocument {
    /// A fresh document with one empty Part tab, which is active.
    pub fn new(name: &str) -> (res: WaffleDocument)
        ensures
            res.document.name@ == name@,
            res.sources@.len() == 0,
            res.tabs@.len() == 1,
            res.tabs@[0].name@ == "Part 1"@,
            res.document.created == res.document.modified,
            res.document.display_unit is None,
            res.tabs@[0].kind matches TabKind::Part { features, preview_mesh }
                && features.features@.len() == 0 && preview_mesh is None,
            exists|u: u128| res.tabs@[0].id@ == uuid_text(u),
            res.active_tab@ == res.tabs@[0].id@,
            res.extra@.len() == 0,
    {
        let tab = Tab::part("Part 1", FeatureTree::new());
        proof {
            reveal_strlit("Part 1");
        }
        let active_tab = clone_string(&tab.id);
        WaffleDocument {
            document: DocumentMetadata::new(name),
            sources: Vec::new(),
            tabs: vec![tab],
            active_tab,
            extra: Vec::new(),
        }
    }

    /// The tab `active_tab` names.
    pub fn active_tab(&self) -> (res: Option<&Tab>)
        ensures
            match tab_named(self.tabs@, self.active_tab@) {
                Some(t) => res == Some(&t),
                None => res is None,
            },
    {
        self.tab(self.active_tab.as_str())
    }

    /// The first tab with id `id`.
    pub fn tab(&self, id: &str) -> (res: Option<&Tab>)
        ensures
            match tab_named(self.tabs@, id@) {
                Some(t) => res == Some(&t),
                None => res is None,
            },
    {
        match find_tab(self.tabs.as_slice(), id) {
            Some(k) => {
                proof {
                    lemma_first_tab_bounds(self.tabs@, id@);
                }
                Some(&self.tabs[k])
            },
            None => None,
        }
    }

    /// The first source with id `id`.
    pub fn source(&self, id: u128) -> (res: Option<&SourceEntry>)
        ensures
            match source_named(self.sources@, id) {
                Some(s) => res == Some(&s),
                None => res is None,
            },
    {
        match find_source(self.sources.as_slice(), id) {
            Some(k) => {
                proof {
                    lemma_first_with_id_bounds(self.sources@, id);
                }
                Some(&self.sources[k])
            },
            None => None,
        }
    }

    /// The first source with id `id`, for editing.
    pub fn source_mut(&mut self, id: u128) -> (res: Option<&mut SourceEntry>)
        ensures
            res is Some <==> source_named(old(self).sources@, id) is Some,
            res matches Some(r) ==> {
                &&& *r == source_named(old(self).sources@, id)->0
                &&& final(self).sources@ == old(self).sources@.update(
                    first_with_id(old(self).sources@, id),
                    *final(r),
                )
                &&& final(self).document == old(self).document
                &&& final(self).tabs == old(self).tabs
                &&& final(self).active_tab == old(self).active_tab
            },
            res is None ==> *final(self) == *old(self),
    {
        match find_source(self.sources.as_slice(), id) {
            Some(k) => {
                proof {
                    lemma_first_with_id_bounds(self.sources@, id);
                }
                Some(&mut self.sources[k])
            },
            None => None,
        }
    }

    /// Sources that must not leave this browser as they are: a `Local`
    /// locator whose content is not packed.
    pub fn unshareable_sources(&self) -> (res: Vec<&SourceEntry>)
        ensures
            res@.map_values(|r: &SourceEntry| *r) == unshareable_of(self.sources@),
    {
        let mut out: Vec<&SourceEntry> = Vec::new();
        let n = self.sources.len();
        let mut i: usize = 0;
        while i < n
            invariant
                n == self.sources@.len(),
                i <= n,
                out@.map_values(|r: &SourceEntry| *r) == unshareable_of(self.sources@.take(i as int)),
            decreases n - i,
        {
            let s = &self.sources[i];
            assert(self.sources@.take(i + 1).drop_last() =~= self.sources@.take(i as int));
            if !s.locator.is_shareable() && !s.effective_pack() {
                out.push(s);
            }
            assert(out@.map_values(|r: &SourceEntry| *r) =~= unshareable_of(
                self.sources@.take(i + 1),
            ));
            i = i + 1;
        }
        assert(self.sources@.take(n as int) =~= self.sources@);
        out
    }

    /// Decoded text of every source with a usable embed (hash-verified, or
    /// with no hash of a known algorithm), for registering into a source
    /// store.
    pub fn embedded_contents(&self) -> (res: Vec<(u128, String)>)
        ensures
            res@.map_values(|p: (u128, String)| (p.0, p.1@)) == usable_contents(self.sources@),
    {
        let mut out: Vec<(u128, String)> = Vec::new();
        let n = self.sources.len();
        let mut i: usize = 0;
        while i < n
            invariant
                n == self.sources@.len(),
                i <= n,
                out@.map_values(|p: (u128, String)| (p.0, p.1@)) == usable_contents(
                    self.sources@.take(i as int),
                ),
            decreases n - i,
        {
            let s = &self.sources[i];
            assert(self.sources@.take(i + 1).drop_last() =~= self.sources@.take(i as int));
            match usable_content(s) {
                Some(text) => {
                    out.push((s.id, text));
                },
                None => {},
            }
            assert(out@.map_values(|p: (u128, String)| (p.0, p.1@)) =~= usable_contents(
                self.sources@.take(i + 1),
            ));
            i = i + 1;
        }
        assert(self.sources@.take(n as int) =~= self.sources@);
        out
    }

    /// Inverse shim for the single-tree API: inline, into `tree`, the
    /// payloads of this document's sources (see [`inline_payloads`]).
    pub fn inline_payloads_into(&self, tree: &mut FeatureTree) -> (warnings: Vec<String>)
        ensures
            final(tree).features@.len() == old(tree).features@.len(),
            forall|i: int|
                0 <= i < old(tree).features@.len() ==> #[trigger] final(tree).features@[i]
                    == inline_feature_outcome(old(tree).features@[i], self.sources@).0,
            texts(warnings@) == inline_warnings(old(tree).features@, self.sources@),
    {
        inline_payloads(tree, self.sources.as_slice())
    }
}

/// A source that must not leave this browser as it is.
pub open spec fn is_unshareable(s: SourceEntry) -> bool {
    s.locator is Local && !spec_effective_pack(s)
}

/// The unshareable sources of `s`, in order.
pub open spec fn unshareable_of(s: Seq<SourceEntry>) -> Seq<SourceEntry>
    decreases s.len(),
{
    if s.len() == 0 {
        Seq::empty()
    } else if is_unshareable(s.last()) {
        unshareable_of(s.drop_last()).push(s.last())
    } else {
        unshareable_of(s.drop_last())
    }
}

/// The `(id, text)` of every source of `s` with usable content, in order.
pub open spec fn usable_contents(s: Seq<SourceEntry>) -> Seq<(u128, Seq<char>)>
    decreases s.len(),
{
    if s.len() == 0 {
        Seq::empty()
    } else {
        let rest = usable_contents(s.drop_last());
        match spec_usable_content(s.last()) {
            Some(t) => rest.push((s.last().id, t)),
            None => rest,
        }
    }
}

fn usable_content(s: &SourceEntry) -> (res: Option<String>)
    ensures
        match spec_usable_content(*s) {
            Some(t) => res matches Some(r) && r@ == t,
            None => res is None,
        },
{
    let embed = match &s.embed {
        Some(e) => e,
        None => return None,
    };
    let text = match embed.decode() {
        Ok(t) => t,
        Err(_) => return None,
    };
    let recorded: Option<&str> = match &s.content_hash {
        Some(h) => Some(h.as_str()),
        None => None,
    };
    match check_content_hash(recorded, text.as_str().as_bytes()) {
        HashCheck::Mismatch { .. } => None,
        _ => Some(text),
    }
}

// ---------------------------------------------------------- validate, lift

/// Index of the first source whose id an earlier source already has, or -1.
pub open spec fn first_duplicate(s: Seq<SourceEntry>) -> int
    decreases s.len(),
{
    if s.len() == 0 {
        -1
    } else {
        let k = first_duplicate(s.drop_last());
        if k >= 0 {
            k
        } else if first_with_id(s.drop_last(), s.last().id) >= 0 {
            s.len() - 1
        } else {
            -1
        }
    }
}

/// Whether a source among the first `end` of `srcs` has id `id`.
fn has_id_before(srcs: &[SourceEntry], id: u128, end: usize) -> (r: bool)
    requires
        end <= srcs@.len(),
    ensures
        r == (first_with_id(srcs@.take(end as int), id) >= 0),
{
    let mut i: usize = 0;
    while i < end
        invariant
            end <= srcs@.len(),
            i <= end,
            first_with_id(srcs@.take(i as int), id) == -1,
        decreases end - i,
    {
        assert(srcs@.take(i + 1).drop_last() =~= srcs@.take(i as int));
        if srcs[i].id == id {
            proof {
                lemma_first_with_id_prefix(srcs@.take(end as int), i as int + 1, id);
                assert(srcs@.take(end as int).take(i + 1) =~= srcs@.take(i + 1));
            }
            return true;
        }
        i = i + 1;
    }
    false
}

/// Warning: a tab of a kind this reader does not know.
pub open spec fn unknown_tab_warning(t: Tab) -> Seq<char> {
    "tab `"@ + t.name@ + "` ("@ + t.id@ + "): unknown tab kind `"@ + spec_type_tag(t.kind)
        + "` \u{2014} preserved, not editable in this version"@
}

/// Warning: a feature of an operation kind this reader does not know.
pub open spec fn unknown_operation_warning(f: Feature, t: Tab) -> Seq<char> {
    "feature `"@ + f.name@ + "` ("@ + uuid_text(f.id) + ") in tab `"@ + t.name@
        + "`: unknown operation kind `"@ + f.operation->Unknown_type_tag@
        + "` \u{2014} preserved, not rebuildable in this version"@
}

/// The unknown-operation warnings of the features `fs` of tab `t`.
pub open spec fn unknown_operation_warnings(fs: Seq<Feature>, t: Tab) -> Seq<Seq<char>>
    decreases fs.len(),
{
    if fs.len() == 0 {
        Seq::empty()
    } else if fs.last().operation is Unknown {
        unknown_operation_warnings(fs.drop_last(), t).push(unknown_operation_warning(fs.last(), t))
    } else {
        unknown_operation_warnings(fs.drop_last(), t)
    }
}

/// The warnings validation reports for one tab.
pub open spec fn tab_warnings(t: Tab) -> Seq<Seq<char>> {
    match t.kind {
        TabKind::Unknown { .. } => seq![unknown_tab_warning(t)],
        TabKind::Part { features, .. } => unknown_operation_warnings(features.features@, t),
    }
}

/// The warnings validation reports for the tabs `ts`, in order.
pub open spec fn tabs_warnings(ts: Seq<Tab>) -> Seq<Seq<char>>
    decreases ts.len(),
{
    if ts.len() == 0 {
        Seq::empty()
    } else {
        tabs_warnings(ts.drop_last()) + tab_warnings(ts.last())
    }
}

/// Warning, if any: a source's embed decodes but contradicts its recorded hash.
pub open spec fn embed_warning(s: SourceEntry) -> Option<Seq<char>> {
    match s.embed {
        Some(e) => match spec_embed_decode(e) {
            Ok(t) => if hash_mismatch(s.content_hash, t) {
                Some(
                    "source `"@ + s.name@ + "` ("@ + uuid_text(s.id)
                        + "): EmbedHashMismatch \u{2014} embed hashes to "@
                        + spec_git_blob_sha1(encode_utf8(t)) + ", entry records "@
                        + s.content_hash->0@ + "; the embed is ignored"@,
                )
            } else {
                None
            },
            Err(_) => None,
        },
        None => None,
    }
}

/// The embed warnings of the sources `ss`, in order.
pub open spec fn embed_warnings(ss: Seq<SourceEntry>) -> Seq<Seq<char>>
    decreases ss.len(),
{
    if ss.len() == 0 {
        Seq::empty()
    } else {
        match embed_warning(ss.last()) {
            Some(w) => embed_warnings(ss.drop_last()).push(w),
            None => embed_warnings(ss.drop_last()),
        }
    }
}

/// The warnings of the sources `ss` (see [`SourceEntry::validate`]), in order.
pub open spec fn sources_warnings(ss: Seq<SourceEntry>) -> Seq<Seq<char>>
    decreases ss.len(),
{
    if ss.len() == 0 {
        Seq::empty()
    } else {
        sources_warnings(ss.drop_last()) + spec_source_warnings(ss.last())
    }
}

/// What validating a document gives: the error, or the warnings.
pub open spec fn spec_validate(d: WaffleDocument) -> Result<Seq<Seq<char>>, Seq<char>> {
    let k = first_duplicate(d.sources@);
    if k >= 0 {
        Err("duplicate source id "@ + uuid_text(d.sources@[k].id))
    } else if first_tab_with_id(d.tabs@, d.active_tab@) < 0 {
        Err("active_tab references non-existent tab"@)
    } else {
        Ok(sources_warnings(d.sources@) + tabs_warnings(d.tabs@) + embed_warnings(d.sources@))
    }
}

/// Appends the warnings of tab `t`.
fn push_tab_warnings(t: &Tab, out: &mut Vec<String>)
    ensures
        texts(final(out)@) == texts(old(out)@) + tab_warnings(*t),
{
    match &t.kind {
        TabKind::Unknown { type_tag, .. } => {
            let mut w = String::new();
            w.append("tab `");
            w.append(t.name.as_str());
            w.append("` (");
            w.append(t.id.as_str());
            w.append("): unknown tab kind `");
            w.append(type_tag.as_str());
            w.append("` \u{2014} preserved, not editable in this version");
            push_text(out, w);
            assert(texts(out@) =~= texts(old(out)@) + tab_warnings(*t));
        },
        TabKind::Part { features, .. } => {
            let fs = &features.features;
            let ghost start = texts(out@);
            let n = fs.len();
            let mut i: usize = 0;
            while i < n
                invariant
                    n == fs@.len(),
                    i <= n,
                    texts(out@) == start + unknown_operation_warnings(fs@.take(i as int), *t),
                decreases n - i,
            {
                assert(fs@.take(i + 1).drop_last() =~= fs@.take(i as int));
                let f = &fs[i];
                match &f.operation {
                    Operation::Unknown { type_tag, .. } => {
                        let mut w = String::new();
                        w.append("feature `");
                        w.append(f.name.as_str());
                        w.append("` (");
                        push_uuid(&mut w, f.id);
                        w.append(") in tab `");
                        w.append(t.name.as_str());
                        w.append("`: unknown operation kind `");
                        w.append(type_tag.as_str());
                        w.append("` \u{2014} preserved, not rebuildable in this version");
                        push_text(out, w);
                    },
                    _ => {},
                }
                assert(texts(out@) =~= start + unknown_operation_warnings(fs@.take(i + 1), *t));
                i = i + 1;
            }
            assert(fs@.take(n as int) =~= fs@);
        },
    }
}

/// Appends the embed warning of source `s`, if it has one.
fn push_embed_warning(s: &SourceEntry, out: &mut Vec<String>)
    ensures
        match embed_warning(*s) {
            Some(w) => texts(final(out)@) == texts(old(out)@).push(w),
            None => texts(final(out)@) == texts(old(out)@),
        },
{
    let embed = match &s.embed {
        Some(e) => e,
        None => return,
    };
    let text = match embed.decode() {
        Ok(t) => t,
        Err(_) => return,
    };
    let recorded: Option<&str> = match &s.content_hash {
        Some(h) => Some(h.as_str()),
        None => None,
    };
    match check_content_hash(recorded, text.as_str().as_bytes()) {
        HashCheck::Mismatch { recorded, actual } => {
            let mut w = String::new();
            w.append("source `");
            w.append(s.name.as_str());
            w.append("` (");
            push_uuid(&mut w, s.id);
            w.append("): EmbedHashMismatch \u{2014} embed hashes to ");
            w.append(actual.as_str());
            w.append(", entry records ");
            w.append(recorded.as_str());
            w.append("; the embed is ignored");
            push_text(out, w);
        },
        _ => {},
    }
}

/// `g` is what lifting makes of tab `t`, the table going from `os` to `ns`.
pub open spec fn tab_lifted(t: Tab, os: Seq<SourceEntry>, g: Tab, ns: Seq<SourceEntry>) -> bool {
    &&& g.id == t.id
    &&& g.name == t.name
    &&& g.extra == t.extra
    &&& match t.kind {
        TabKind::Part { features: f, preview_mesh: m } => g.kind matches TabKind::Part {
            features: h,
            preview_mesh: gm,
        } && gm == m && lifted(
            f.features@,
            os,
            h.features@,
            ns,
        ),
        TabKind::Unknown { .. } => g.kind == t.kind && ns == os,
    }
}

/// `chain[i]` is the table before tab `i` is lifted, `chain[i + 1]` after.
pub open spec fn lift_chain(ot: Seq<Tab>, nt: Seq<Tab>, chain: Seq<Seq<SourceEntry>>) -> bool {
    &&& chain.len() == ot.len() + 1
    &&& forall|i: int|
        0 <= i < ot.len() ==> #[trigger] tab_lifted(ot[i], chain[i], nt[i], chain[i + 1])
}

/// The effect of lifting every Part tab of `ot`, in order, against the table
/// `os`: the tabs become `nt`, the table `ns`.
pub open spec fn tabs_lifted(
    ot: Seq<Tab>,
    os: Seq<SourceEntry>,
    nt: Seq<Tab>,
    ns: Seq<SourceEntry>,
) -> bool {
    &&& nt.len() == ot.len()
    &&& exists|chain: Seq<Seq<SourceEntry>>|
        #[trigger] lift_chain(ot, nt, chain) && chain[0] == os && chain[ot.len() as int] == ns
}

/// The lifting warnings of the Part tabs of `ts`, in order.
pub open spec fn tabs_lift_warnings(ts: Seq<Tab>) -> Seq<Seq<char>>
    decreases ts.len(),
{
    if ts.len() == 0 {
        Seq::empty()
    } else {
        tabs_lift_warnings(ts.drop_last()) + match ts.last().kind {
            TabKind::Part { features, .. } => lift_warnings(features.features@),
            TabKind::Unknown { .. } => Seq::empty(),
        }
    }
}

impl WaffleDocument {
    /// Structural validation: duplicate source ids and a dangling
    /// `active_tab` are errors; each source's own problems (unknown kind,
    /// unsound locator), unknown tab and operation kinds, and embeds that
    /// contradict their recorded hash are warnings, in that order.
    pub fn validate(&self) -> (res: Result<Vec<String>, LoadError>)
        ensures
            match res {
                Ok(w) => spec_validate(*self) == Ok::<Seq<Seq<char>>, Seq<char>>(texts(w@)),
                Err(LoadError::ParseError(m)) => spec_validate(*self) == Err::<
                    Seq<Seq<char>>,
                    Seq<char>,
                >(m@),
            },
    {
        let n = self.sources.len();
        let mut i: usize = 0;
        while i < n
            invariant
                n == self.sources@.len(),
                i <= n,
                first_duplicate(self.sources@.take(i as int)) == -1,
            decreases n - i,
        {
            assert(self.sources@.take(i + 1).drop_last() =~= self.sources@.take(i as int));
            let id = self.sources[i].id;
            if has_id_before(self.sources.as_slice(), id, i) {
                proof {
                    lemma_first_duplicate_prefix(self.sources@, i as int + 1);
                }
                let mut m = String::new();
                m.append("duplicate source id ");
                push_uuid(&mut m, id);
                return Err(LoadError::ParseError(m));
            }
            i = i + 1;
        }
        assert(self.sources@.take(n as int) =~= self.sources@);
        if find_tab(self.tabs.as_slice(), self.active_tab.as_str()).is_none() {
            let m = String::from_str("active_tab references non-existent tab");
            return Err(LoadError::ParseError(m));
        }
        let mut warnings: Vec<String> = Vec::new();
        let mut m: usize = 0;
        while m < n
            invariant
                n == self.sources@.len(),
                m <= n,
                texts(warnings@) == sources_warnings(self.sources@.take(m as int)),
            decreases n - m,
        {
            assert(self.sources@.take(m + 1).drop_last() =~= self.sources@.take(m as int));
            let mut found = self.sources[m].validate();
            let ghost before = texts(warnings@);
            let ghost add = texts(found@);
            warnings.append(&mut found);
            assert(texts(warnings@) =~= before + add);
            m = m + 1;
        }
        assert(self.sources@.take(n as int) =~= self.sources@);
        let ghost after_sources = texts(warnings@);
        let nt = self.tabs.len();
        let mut j: usize = 0;
        while j < nt
            invariant
                nt == self.tabs@.len(),
                j <= nt,
                texts(warnings@) == after_sources + tabs_warnings(self.tabs@.take(j as int)),
            decreases nt - j,
        {
            assert(self.tabs@.take(j + 1).drop_last() =~= self.tabs@.take(j as int));
            push_tab_warnings(&self.tabs[j], &mut warnings);
            assert(texts(warnings@) =~= after_sources + tabs_warnings(self.tabs@.take(j + 1)));
            j = j + 1;
        }
        assert(self.tabs@.take(nt as int) =~= self.tabs@);
        let ghost after_tabs = texts(warnings@);
        let mut k: usize = 0;
        while k < n
            invariant
                n == self.sources@.len(),
                k <= n,
                texts(warnings@) == after_tabs + embed_warnings(self.sources@.take(k as int)),
            decreases n - k,
        {
            assert(self.sources@.take(k + 1).drop_last() =~= self.sources@.take(k as int));
            push_embed_warning(&self.sources[k], &mut warnings);
            assert(texts(warnings@) =~= after_tabs + embed_warnings(self.sources@.take(k + 1)));
            k = k + 1;
        }
        assert(self.sources@.take(n as int) =~= self.sources@);
        Ok(warnings)
    }

    /// Move every legacy in-feature STEP payload of every Part tab into
    /// `sources` (see [`lift_inline_payloads`]), tab by tab, in order.
    pub fn lift_inline_payloads(&mut self) -> (warnings: Vec<String>)
        ensures
            tabs_lifted(old(self).tabs@, old(self).sources@, final(self).tabs@, final(self).sources@),
            final(self).document == old(self).document,
            final(self).active_tab == old(self).active_tab,
            final(self).extra == old(self).extra,
            texts(warnings@) == tabs_lift_warnings(old(self).tabs@),
    {
        let mut pending: Vec<Tab> = Vec::new();
        std::mem::swap(&mut self.tabs, &mut pending);
        let ghost old_tabs = pending@;
        let ghost old_srcs = self.sources@;
        let ghost mut chain: Seq<Seq<SourceEntry>> = seq![self.sources@];
        let mut done: Vec<Tab> = Vec::new();
        let mut warnings: Vec<String> = Vec::new();
        for tab in it: pending
            invariant
                it.seq() == old_tabs,
                done@.len() == it.index(),
                chain.len() == it.index() + 1,
                chain[0] == old_srcs,
                chain[it.index() as int] == self.sources@,
                forall|j: int|
                    0 <= j < it.index() ==> #[trigger] tab_lifted(
                        old_tabs[j],
                        chain[j],
                        done@[j],
                        chain[j + 1],
                    ),
                texts(warnings@) == tabs_lift_warnings(old_tabs.take(it.index() as int)),
                self.document == old(self).document,
                self.active_tab == old(self).active_tab,
                self.extra == old(self).extra,
        {
            let ghost i = it.index();
            let ghost before = self.sources@;
            let ghost t0 = tab;
            assert(old_tabs.take(i + 1).drop_last() =~= old_tabs.take(i as int));
            assert(old_tabs.take(i + 1).last() == t0);
            let mut tab = tab;
            let mut found: Vec<String> = match tab.features_mut() {
                Some(tree) => lift_inline_payloads(tree, &mut self.sources),
                None => Vec::new(),
            };
            let ghost w_new = texts(found@);
            warnings.append(&mut found);
            proof {
                assert(texts(warnings@) =~= tabs_lift_warnings(old_tabs.take(i + 1)));
                chain = chain.push(self.sources@);
            }
            done.push(tab);
            proof {
                assert(tab_lifted(t0, before, done@[i as int], self.sources@));
            }
        }
        assert(old_tabs.take(old_tabs.len() as int) =~= old_tabs);
        assert(lift_chain(old_tabs, done@, chain));
        self.tabs = done;
        warnings
    }

    /// The single-tree shape: one Part tab holding `tree`, active, with its
    /// legacy in-feature payloads lifted into `sources`.
    pub fn single_part(metadata: &ProjectMetadata, tree: FeatureTree) -> (res: WaffleDocument)
        ensures
            res.document.name@ == metadata.name@,
            res.document.created == metadata.created,
            res.document.modified == metadata.modified,
            match metadata.display_unit {
                Some(a) => res.document.display_unit matches Some(b) && b@ == a@,
                None => res.document.display_unit is None,
            },
            res.document.extra@.len() == 0,
            res.extra@.len() == 0,
            res.tabs@.len() == 1,
            res.tabs@[0].name@ == "Part 1"@,
            res.active_tab@ == res.tabs@[0].id@,
            res.tabs@[0].kind matches TabKind::Part { features, .. } && lifted(
                tree.features@,
                Seq::empty(),
                features.features@,
                res.sources@,
            ),
    {
        let ghost fs = tree.features@;
        let tab = Tab::part("Part 1", tree);
        proof {
            reveal_strlit("Part 1");
        }
        let active_tab = clone_string(&tab.id);
        let mut doc = WaffleDocument {
            document: DocumentMetadata::from_project(metadata),
            sources: Vec::new(),
            tabs: vec![tab],
            active_tab,
            extra: Vec::new(),
        };
        let ghost before = doc;
        let _ = doc.lift_inline_payloads();
        proof {
            assert(before.tabs@.len() == 1);
            let chain = choose|chain: Seq<Seq<SourceEntry>>|
                #[trigger] lift_chain(before.tabs@, doc.tabs@, chain) && chain[0] == before.sources@
                    && chain[before.tabs@.len() as int] == doc.sources@;
            assert(lift_chain(before.tabs@, doc.tabs@, chain));
            assert(tab_lifted(before.tabs@[0], chain[0], doc.tabs@[0], chain[0int + 1]));
        }
        doc
    }
}

/// A duplicate in a prefix is the first duplicate of the whole.
proof fn lemma_first_duplicate_prefix(s: Seq<SourceEntry>, m: int)
    requires
        0 <= m <= s.len(),
        first_duplicate(s.take(m)) >= 0,
    ensures
        first_duplicate(s) == first_duplicate(s.take(m)),
    decreases s.len() - m,
{
    if m < s.len() {
        assert(s.take(m + 1).drop_last() =~= s.take(m));
        lemma_first_duplicate_prefix(s, m + 1);
    } else {
        assert(s.take(m) =~= s);
    }
}

} // verus!
