//! The `sources` table: external content a document depends on, where it
//! lives (a git-aware locator), the hash of the bytes last loaded, and an
//! optional embedded copy of those bytes.

use vstd::prelude::*;
use vstd::string::*;
use vstd::utf8::*;

use crate::blob::{
    decode_step_blob, decoded_as, encode_step_blob, spec_decode_step_blob, spec_encode_step_blob,
    MAX_INFLATED_BYTES, STEP_BLOB_ENCODING,
};
use crate::hash::{
    git_blob_sha1, is_git_blob_hash, law_own_hash_matches, recorded_matches, spec_git_blob_sha1,
};
use crate::ids::{new_id, push_uuid, uuid_text};
use crate::text::{push_text, str_equal, texts};

verus! {

/// What a source is. A kind this reader does not know is kept by its tag.
#[derive(Debug, Clone, PartialEq, Eq)]
pub enum SourceKind {
    Waffle,
    Step,
    KicadPcb,
    Mesh,
    /// A kind this reader does not know: its `type` tag, which the logic
    /// reads, and the whole object as JSON text, kept verbatim so that it is
    /// written back byte for byte.
    Unknown { type_tag: String, raw: String },
}

/// A git ref: pinned to a commit, or floating on a branch or tag tip.
#[derive(Debug, Clone, PartialEq, Eq)]
pub enum GitRef {
    Commit { sha: String },
    Branch { name: String },
    Tag { name: String },
}

impl GitRef {
    /// A `Commit` ref is reproducible; branches and tags can move.
    pub fn is_pinned(&self) -> (r: bool)
        ensures
            r == (self is Commit),
    {
        match self {
            GitRef::Commit { .. } => true,
            _ => false,
        }
    }
}

/// The API adapter a git locator is fetched through.
#[derive(Debug, Clone, Copy, PartialEq, Eq)]
pub enum GitHost {
    Github,
    Gitlab,
    Gitea,
    Generic,
}

/// Where a source's content lives. A locator type this reader does not know
/// is kept by its tag.
#[derive(Debug, Clone, PartialEq, Eq)]
pub enum Locator {
    /// `path` in the repository at `remote` (HTTPS, no trailing `.git`), at
    /// `git_ref`; `host` names the API adapter, inferred from the remote
    /// when absent.
    Git { remote: String, path: String, git_ref: GitRef, host: Option<GitHost> },
    /// Resolved against the document's own location.
    Relative { path: String },
    /// A plain `https://` fetch.
    Url { url: String },
    /// A document in one of this browser's storage providers (not shareable).
    Local { provider: String, doc_id: String },
    /// The embedded copy is the source.
    Embedded,
    /// A kind this reader does not know: its `type` tag, which the logic
    /// reads, and the whole object as JSON text, kept verbatim so that it is
    /// written back byte for byte.
    Unknown { type_tag: String, raw: String },
}

/// `remote` without one trailing `.git`.
pub open spec fn normalized_remote(remote: Seq<char>) -> Seq<char> {
    if remote.len() >= 4 && remote.subrange(remote.len() - 4, remote.len() as int) == ".git"@ {
        remote.take(remote.len() - 4)
    } else {
        remote
    }
}

fn normalize_remote(remote: &str) -> (res: String)
    ensures
        res@ == normalized_remote(remote@),
{
    let n = remote.unicode_len();
    if n >= 4 {
        let tail = remote.substring_char(n - 4, n);
        if str_equal(tail, ".git") {
            return String::from_str(remote.substring_char(0, n - 4));
        }
    }
    String::from_str(remote)
}

impl Locator {
    /// A git locator floating on branch `name`.
    pub fn git_branch(remote: &str, path: &str, name: &str) -> (res: Locator)
        ensures
            res matches Locator::Git { remote: r, path: p, git_ref: GitRef::Branch { name: n }, host: None }
                && r@ == normalized_remote(remote@) && p@ == path@ && n@ == name@,
    {
        Locator::Git {
            remote: normalize_remote(remote),
            path: String::from_str(path),
            git_ref: GitRef::Branch { name: String::from_str(name) },
            host: None,
        }
    }

    /// A git locator floating on tag `name`.
    pub fn git_tag(remote: &str, path: &str, name: &str) -> (res: Locator)
        ensures
            res matches Locator::Git { remote: r, path: p, git_ref: GitRef::Tag { name: n }, host: None }
                && r@ == normalized_remote(remote@) && p@ == path@ && n@ == name@,
    {
        Locator::Git {
            remote: normalize_remote(remote),
            path: String::from_str(path),
            git_ref: GitRef::Tag { name: String::from_str(name) },
            host: None,
        }
    }

    /// A git locator pinned to commit `sha`.
    pub fn git_commit(remote: &str, path: &str, sha: &str) -> (res: Locator)
        ensures
            res matches Locator::Git { remote: r, path: p, git_ref: GitRef::Commit { sha: s }, host: None }
                && r@ == normalized_remote(remote@) && p@ == path@ && s@ == sha@,
    {
        Locator::Git {
            remote: normalize_remote(remote),
            path: String::from_str(path),
            git_ref: GitRef::Commit { sha: String::from_str(sha) },
            host: None,
        }
    }

    /// Whether a document carrying this locator may leave this browser as
    /// it is: everything but a `Local` locator.
    pub fn is_shareable(&self) -> (r: bool)
        ensures
            r == !(self is Local),
    {
        match self {
            Locator::Local { .. } => false,
            _ => true,
        }
    }
}

/// Cached content bytes, stored as an encoded STEP blob.
#[derive(Debug, Clone, PartialEq, Eq)]
pub struct Embed {
    pub encoding: String,
    pub blob: String,
}

/// What an embed decodes to (under the default inflation cap).
pub open spec fn spec_embed_decode(e: Embed) -> Result<Seq<char>, Seq<char>> {
    spec_decode_step_blob(e.encoding@, e.blob@, MAX_INFLATED_BYTES as nat)
}

impl Embed {
    /// An embed that keeps `encoding` and `blob` exactly as given.
    pub fn from_encoded(encoding: &str, blob: &str) -> (res: Embed)
        ensures
            res.encoding@ == encoding@,
            res.blob@ == blob@,
    {
        Embed { encoding: String::from_str(encoding), blob: String::from_str(blob) }
    }

    /// The embed of `text`: deflated and base64-encoded.
    pub fn from_text(text: &str) -> (res: Embed)
        ensures
            res.encoding@ == STEP_BLOB_ENCODING@,
            res.blob@ == spec_encode_step_blob(text@),
            encode_utf8(text@).len() <= MAX_INFLATED_BYTES ==> spec_embed_decode(res) == Ok::<
                Seq<char>,
                Seq<char>,
            >(text@),
    {
        Embed { encoding: String::from_str(STEP_BLOB_ENCODING), blob: encode_step_blob(text) }
    }

    /// The decoded text.
    pub fn decode(&self) -> (res: Result<String, String>)
        ensures
            decoded_as(res, spec_embed_decode(*self)),
    {
        decode_step_blob(self.encoding.as_str(), self.blob.as_str())
    }
}

/// A recorded hash of a known algorithm that `text` does not match.
pub open spec fn hash_mismatch(recorded: Option<String>, text: Seq<char>) -> bool {
    match recorded {
        Some(r) => is_git_blob_hash(r@) && !recorded_matches(r@, spec_git_blob_sha1(encode_utf8(text))),
        None => false,
    }
}

/// The text a source's embed offers as content: it decodes, and does not
/// contradict a recorded hash of a known algorithm.
pub open spec fn spec_usable_content(s: SourceEntry) -> Option<Seq<char>> {
    match s.embed {
        Some(e) => match spec_embed_decode(e) {
            Ok(t) => if hash_mismatch(s.content_hash, t) {
                None
            } else {
                Some(t)
            },
            Err(_) => None,
        },
        None => None,
    }
}

/// One entry of the `sources` table.
#[derive(Debug, Clone, PartialEq, Eq)]
pub struct SourceEntry {
    pub id: u128,
    pub name: String,
    pub kind: SourceKind,
    pub locator: Locator,
    /// Algorithm-prefixed hash of the bytes last loaded.
    pub content_hash: Option<String>,
    /// Writer policy: emit `embed`. Absent means "only for `Embedded`".
    pub pack: Option<bool>,
    pub embed: Option<Embed>,
}

/// Whether the entry's content is written into the file.
pub open spec fn spec_effective_pack(s: SourceEntry) -> bool {
    match s.pack {
        Some(p) => p,
        None => s.locator is Embedded,
    }
}

impl SourceEntry {
    /// A self-contained source: its embed is the content.
    pub fn embedded(name: &str, kind: SourceKind, text: &str) -> (res: SourceEntry)
        ensures
            res.name@ == name@,
            res.kind == kind,
            res.locator is Embedded,
            res.pack is None,
            res.content_hash matches Some(h) && h@ == spec_git_blob_sha1(encode_utf8(text@)),
            res.embed matches Some(e) && e.encoding@ == STEP_BLOB_ENCODING@ && e.blob@
                == spec_encode_step_blob(text@),
            encode_utf8(text@).len() <= MAX_INFLATED_BYTES ==> spec_usable_content(res) == Some(
                text@,
            ),
    {
        proof {
            law_own_hash_matches(encode_utf8(text@));
        }
        SourceEntry {
            id: new_id(),
            name: String::from_str(name),
            kind,
            locator: Locator::Embedded,
            content_hash: Some(git_blob_sha1(text.as_bytes())),
            pack: None,
            embed: Some(Embed::from_text(text)),
        }
    }

    /// A source that lives at `locator`; nothing loaded yet.
    pub fn linked(name: &str, kind: SourceKind, locator: Locator) -> (res: SourceEntry)
        ensures
            res.name@ == name@,
            res.kind == kind,
            res.locator == locator,
            res.content_hash is None,
            res.pack is None,
            res.embed is None,
    {
        SourceEntry {
            id: new_id(),
            name: String::from_str(name),
            kind,
            locator,
            content_hash: None,
            pack: None,
            embed: None,
        }
    }

    /// `pack`, defaulting to `true` exactly for an `Embedded` locator.
    pub fn effective_pack(&self) -> (r: bool)
        ensures
            r == spec_effective_pack(*self),
    {
        match self.pack {
            Some(p) => p,
            None => matches!(self.locator, Locator::Embedded),
        }
    }

    /// Record freshly loaded content: its hash, and (when packed) its embed.
    pub fn set_content(&mut self, text: &str)
        ensures
            final(self).id == old(self).id,
            final(self).name == old(self).name,
            final(self).kind == old(self).kind,
            final(self).locator == old(self).locator,
            final(self).pack == old(self).pack,
            final(self).content_hash matches Some(h) && h@ == spec_git_blob_sha1(
                encode_utf8(text@),
            ),
            spec_effective_pack(*old(self)) ==> (final(self).embed matches Some(e)
                && e.encoding@ == STEP_BLOB_ENCODING@ && e.blob@ == spec_encode_step_blob(
                text@,
            )),
            !spec_effective_pack(*old(self)) ==> final(self).embed == old(self).embed,
            spec_effective_pack(*old(self)) && encode_utf8(text@).len() <= MAX_INFLATED_BYTES
                ==> spec_usable_content(*final(self)) == Some(text@),
    {
        proof {
            law_own_hash_matches(encode_utf8(text@));
        }
        self.content_hash = Some(git_blob_sha1(text.as_bytes()));
        if self.effective_pack() {
            self.embed = Some(Embed::from_text(text));
        }
    }
}

// ------------------------------------------------------- locator checks

/// `s` begins with `p`.
pub open spec fn starts_with_chars(s: Seq<char>, p: Seq<char>) -> bool {
    p.len() <= s.len() && s.take(p.len() as int) == p
}

fn str_starts_with(s: &str, p: &str) -> (r: bool)
    ensures
        r == starts_with_chars(s@, p@),
{
    let n = s.unicode_len();
    let m = p.unicode_len();
    if m > n {
        return false;
    }
    str_equal(s.substring_char(0, m), p)
}

/// An ASCII hexadecimal digit, either case.
pub open spec fn is_hex_digit(c: char) -> bool {
    (48 <= c as u32 <= 57) || (97 <= c as u32 <= 102) || (65 <= c as u32 <= 70)
}

/// A commit id: 40 hex digits (SHA-1), or 64 (SHA-256 repositories).
pub open spec fn valid_commit_sha(s: Seq<char>) -> bool {
    &&& (s.len() == 40 || s.len() == 64)
    &&& forall|i: int| 0 <= i < s.len() ==> #[trigger] is_hex_digit(s[i])
}

fn commit_sha_is_valid(s: &str) -> (r: bool)
    ensures
        r == valid_commit_sha(s@),
{
    let n = s.unicode_len();
    if n != 40 && n != 64 {
        return false;
    }
    let mut i: usize = 0;
    while i < n
        invariant
            n == s@.len(),
            i <= n,
            forall|j: int| 0 <= j < i ==> #[trigger] is_hex_digit(s@[j]),
        decreases n - i,
    {
        let c = s.get_char(i);
        let v = c as u32;
        if !((48 <= v && v <= 57) || (97 <= v && v <= 102) || (65 <= v && v <= 70)) {
            assert(!is_hex_digit(s@[i as int]));
            return false;
        }
        i = i + 1;
    }
    true
}

/// A character git refuses in a ref name: a space or a control character.
pub open spec fn is_refused_char(c: char) -> bool {
    c == ' ' || (c as u32) < 0x20 || (c as u32) == 0x7f
}

/// `s` holds a character git refuses in a ref name.
pub open spec fn has_refused_char(s: Seq<char>) -> bool {
    exists|i: int| 0 <= i < s.len() && #[trigger] is_refused_char(s[i])
}

fn holds_refused_char(s: &str) -> (r: bool)
    ensures
        r == has_refused_char(s@),
{
    let n = s.unicode_len();
    let mut i: usize = 0;
    while i < n
        invariant
            n == s@.len(),
            i <= n,
            forall|j: int| 0 <= j < i ==> !#[trigger] is_refused_char(s@[j]),
        decreases n - i,
    {
        let c = s.get_char(i);
        let v = c as u32;
        if c == ' ' || v < 0x20 || v == 0x7f {
            assert(is_refused_char(s@[i as int]));
            return true;
        }
        i = i + 1;
    }
    false
}

/// `s` has two dots in a row at position `i`.
pub open spec fn dots_at(s: Seq<char>, i: int) -> bool {
    0 <= i && i + 1 < s.len() && s[i] == '.' && s[i + 1] == '.'
}

/// `s` holds `..` anywhere.
pub open spec fn contains_dot_dot(s: Seq<char>) -> bool {
    exists|i: int| #[trigger] dots_at(s, i)
}

/// The `..` at position `i` of `s` is a whole `/`-separated segment.
pub open spec fn dot_dot_segment_at(s: Seq<char>, i: int) -> bool {
    &&& dots_at(s, i)
    &&& (i == 0 || s[i - 1] == '/')
    &&& (i + 2 == s.len() || s[i + 2] == '/')
}

/// The path `s` has a `..` segment.
pub open spec fn has_dot_dot_segment(s: Seq<char>) -> bool {
    exists|i: int| #[trigger] dot_dot_segment_at(s, i)
}

/// Scans `s` for `..`: anywhere (`segment` false), or as a whole segment.
fn find_dot_dot(s: &str, segment: bool) -> (r: bool)
    ensures
        !segment ==> r == contains_dot_dot(s@),
        segment ==> r == has_dot_dot_segment(s@),
{
    let n = s.unicode_len();
    if n < 2 {
        assert(!contains_dot_dot(s@));
        assert(!has_dot_dot_segment(s@));
        return false;
    }
    let mut i: usize = 0;
    while i + 1 < n
        invariant
            n == s@.len(),
            n >= 2,
            i + 1 <= n,
            forall|j: int| 0 <= j < i ==> !#[trigger] dots_at(s@, j) || (segment
                && !dot_dot_segment_at(s@, j)),
        decreases n - i,
    {
        if s.get_char(i) == '.' && s.get_char(i + 1) == '.' {
            if !segment {
                assert(dots_at(s@, i as int));
                return true;
            }
            let before = i == 0 || s.get_char(i - 1) == '/';
            let after = i + 2 == n || s.get_char(i + 2) == '/';
            if before && after {
                assert(dot_dot_segment_at(s@, i as int));
                return true;
            }
        }
        i = i + 1;
    }
    proof {
        if !segment {
            assert forall|j: int| !#[trigger] dots_at(s@, j) by {
                if 0 <= j < i {
                } else {
                }
            }
        } else {
            assert forall|j: int| !#[trigger] dot_dot_segment_at(s@, j) by {
                if 0 <= j < i {
                    assert(!dots_at(s@, j) || !dot_dot_segment_at(s@, j));
                }
            }
        }
    }
    false
}

/// `s` begins with `/`.
pub open spec fn leading_slash(s: Seq<char>) -> bool {
    s.len() > 0 && s[0] == '/'
}

/// Warnings for a branch or tag name git would refuse.
pub open spec fn ref_name_warnings(n: Seq<char>) -> Seq<Seq<char>> {
    if has_refused_char(n) {
        seq!["git ref `"@ + n + "` holds a space or control character, which git refuses"@]
    } else if n.len() == 0 || n[0] == '-' || contains_dot_dot(n) {
        seq!["git ref `"@ + n + "` is not a valid git ref name (empty, leading `-`, or `..`)"@]
    } else {
        Seq::empty()
    }
}

/// Warnings for a git ref.
pub open spec fn git_ref_warnings(r: GitRef) -> Seq<Seq<char>> {
    match r {
        GitRef::Commit { sha } => if valid_commit_sha(sha@) {
            Seq::empty()
        } else {
            seq!["commit `"@ + sha@ + "` is not 40 or 64 hex digits"@]
        },
        GitRef::Branch { name } => ref_name_warnings(name@),
        GitRef::Tag { name } => ref_name_warnings(name@),
    }
}

/// Warnings for a path inside a repository.
pub open spec fn repo_path_warnings(p: Seq<char>) -> Seq<Seq<char>> {
    (if leading_slash(p) {
        seq!["path `"@ + p + "` has a leading `/`"@]
    } else {
        Seq::empty()
    }) + (if has_dot_dot_segment(p) {
        seq!["path `"@ + p + "` has a `..` segment"@]
    } else {
        Seq::empty()
    })
}

/// What [`Locator::validate`] reports: a git remote or URL that is not
/// `https://`, a repository path with a leading `/` or a `..` segment, a
/// branch or tag name git refuses, a commit that is not hex, a relative
/// path with a leading `/`, and a locator type this reader does not know.
pub open spec fn spec_locator_warnings(l: Locator) -> Seq<Seq<char>> {
    match l {
        Locator::Git { remote, path, git_ref, .. } => (if starts_with_chars(remote@, "https://"@) {
            Seq::empty()
        } else {
            seq!["git remote `"@ + remote@ + "` is not an https:// URL"@]
        }) + repo_path_warnings(path@) + git_ref_warnings(git_ref),
        Locator::Relative { path } => if leading_slash(path@) {
            seq!["relative path `"@ + path@ + "` has a leading `/`"@]
        } else {
            Seq::empty()
        },
        Locator::Url { url } => if starts_with_chars(url@, "https://"@) {
            Seq::empty()
        } else {
            seq!["url `"@ + url@ + "` is not an https:// URL"@]
        },
        Locator::Local { .. } => Seq::empty(),
        Locator::Embedded => Seq::empty(),
        Locator::Unknown { type_tag, .. } => seq![
            "unknown locator type `"@ + type_tag@
                + "` \u{2014} preserved, unresolvable in this version"@,
        ],
    }
}

fn cat3(a: &str, b: &str, c: &str) -> (res: String)
    ensures
        res@ == a@ + b@ + c@,
{
    let mut w = String::from_str(a);
    w.append(b);
    w.append(c);
    w
}

fn push_ref_name_warnings(n: &str, out: &mut Vec<String>)
    ensures
        texts(final(out)@) == texts(old(out)@) + ref_name_warnings(n@),
{
    if holds_refused_char(n) {
        push_text(out, cat3("git ref `", n, "` holds a space or control character, which git refuses"));
    } else {
        let bad = n.unicode_len() == 0 || n.get_char(0) == '-' || find_dot_dot(n, false);
        if bad {
            push_text(out, cat3("git ref `", n, "` is not a valid git ref name (empty, leading `-`, or `..`)"));
        }
    }
    assert(texts(out@) =~= texts(old(out)@) + ref_name_warnings(n@));
}

impl Locator {
    /// The locator's problems, each as a warning (empty when it is sound).
    pub fn validate(&self) -> (res: Vec<String>)
        ensures
            texts(res@) == spec_locator_warnings(*self),
    {
        proof {
            reveal_strlit("https://");
        }
        let mut out: Vec<String> = Vec::new();
        match self {
            Locator::Git { remote, path, git_ref, .. } => {
                if !str_starts_with(remote.as_str(), "https://") {
                    push_text(&mut out, cat3("git remote `", remote.as_str(), "` is not an https:// URL"));
                }
                let ghost after_remote = texts(out@);
                let p = path.as_str();
                if p.unicode_len() > 0 && p.get_char(0) == '/' {
                    push_text(&mut out, cat3("path `", p, "` has a leading `/`"));
                }
                if find_dot_dot(p, true) {
                    push_text(&mut out, cat3("path `", p, "` has a `..` segment"));
                }
                assert(texts(out@) =~= after_remote + repo_path_warnings(path@));
                let ghost after_path = texts(out@);
                match git_ref {
                    GitRef::Commit { sha } => {
                        if !commit_sha_is_valid(sha.as_str()) {
                            push_text(&mut out, cat3("commit `", sha.as_str(), "` is not 40 or 64 hex digits"));
                        }
                    },
                    GitRef::Branch { name } => push_ref_name_warnings(name.as_str(), &mut out),
                    GitRef::Tag { name } => push_ref_name_warnings(name.as_str(), &mut out),
                }
                assert(texts(out@) =~= after_path + git_ref_warnings(*git_ref));
            },
            Locator::Relative { path } => {
                let p = path.as_str();
                if p.unicode_len() > 0 && p.get_char(0) == '/' {
                    push_text(&mut out, cat3("relative path `", p, "` has a leading `/`"));
                }
            },
            Locator::Url { url } => {
                if !str_starts_with(url.as_str(), "https://") {
                    push_text(&mut out, cat3("url `", url.as_str(), "` is not an https:// URL"));
                }
            },
            Locator::Local { .. } => {},
            Locator::Embedded => {},
            Locator::Unknown { type_tag, .. } => {
                push_text(&mut out, cat3(
                    "unknown locator type `",
                    type_tag.as_str(),
                    "` \u{2014} preserved, unresolvable in this version",
                ));
            },
        }
        assert(texts(out@) =~= spec_locator_warnings(*self));
        out
    }
}

/// The host part of a URL's text after its scheme: up to the first `/`.
pub open spec fn before_slash(s: Seq<char>) -> Seq<char>
    decreases s.len(),
{
    if s.len() == 0 || s[0] == '/' {
        Seq::empty()
    } else {
        seq![s[0]] + before_slash(s.drop_first())
    }
}

/// The hostname of an `https://` or `http://` remote (empty otherwise).
pub open spec fn remote_hostname(remote: Seq<char>) -> Seq<char> {
    if starts_with_chars(remote, "https://"@) {
        before_slash(remote.skip(8))
    } else if starts_with_chars(remote, "http://"@) {
        before_slash(remote.skip(7))
    } else {
        Seq::empty()
    }
}

/// The adapter a remote's hostname selects: the well-known public hosts
/// (`codeberg.org` runs Gitea/Forgejo), `Generic` for every other.
pub open spec fn inferred_host(remote: Seq<char>) -> GitHost {
    let h = remote_hostname(remote);
    if h == "github.com"@ {
        GitHost::Github
    } else if h == "gitlab.com"@ {
        GitHost::Gitlab
    } else if h == "gitea.com"@ || h == "codeberg.org"@ {
        GitHost::Gitea
    } else {
        GitHost::Generic
    }
}

/// The git host of a locator: the recorded one, else inferred from the
/// remote; none for a locator that is not a git locator.
pub open spec fn spec_git_host(l: Locator) -> Option<GitHost> {
    match l {
        Locator::Git { remote, host, .. } => match host {
            Some(h) => Some(h),
            None => Some(inferred_host(remote@)),
        },
        _ => None,
    }
}

proof fn lemma_before_slash(s: Seq<char>, k: int)
    requires
        0 <= k <= s.len(),
        forall|j: int| 0 <= j < k ==> s[j] != '/',
        k == s.len() || s[k] == '/',
    ensures
        before_slash(s) == s.take(k),
    decreases k,
{
    if k == 0 {
        assert(s.take(0) =~= Seq::<char>::empty());
    } else {
        lemma_before_slash(s.drop_first(), k - 1);
        assert(seq![s[0]] + s.drop_first().take(k - 1) =~= s.take(k));
    }
}

fn hostname_of(remote: &str) -> (res: String)
    ensures
        res@ == remote_hostname(remote@),
{
    proof {
        reveal_strlit("https://");
        reveal_strlit("http://");
    }
    let start: usize = if str_starts_with(remote, "https://") {
        8
    } else if str_starts_with(remote, "http://") {
        7
    } else {
        return String::new();
    };
    let n = remote.unicode_len();
    let mut k: usize = start;
    while k < n && remote.get_char(k) != '/'
        invariant
            n == remote@.len(),
            start <= k <= n,
            forall|j: int| start <= j < k ==> remote@[j] != '/',
        decreases n - k,
    {
        k = k + 1;
    }
    proof {
        let t = remote@.skip(start as int);
        assert forall|j: int| 0 <= j < k - start implies t[j] != '/' by {
            assert(t[j] == remote@[start + j]);
        }
        if k < n {
            assert(t[k - start] == remote@[k as int]);
        }
        lemma_before_slash(t, k - start);
        assert(t.take(k - start) =~= remote@.subrange(start as int, k as int));
    }
    String::from_str(remote.substring_char(start, k))
}

impl Locator {
    /// The git host adapter: the recorded `host`, else the one the remote's
    /// hostname selects; `None` for a locator that is not a git locator.
    pub fn git_host(&self) -> (r: Option<GitHost>)
        ensures
            r == spec_git_host(*self),
    {
        proof {
            reveal_strlit("github.com");
            reveal_strlit("gitlab.com");
            reveal_strlit("gitea.com");
            reveal_strlit("codeberg.org");
        }
        match self {
            Locator::Git { remote, host, .. } => match host {
                Some(h) => Some(*h),
                None => {
                    let h = hostname_of(remote.as_str());
                    let hs = h.as_str();
                    if str_equal(hs, "github.com") {
                        Some(GitHost::Github)
                    } else if str_equal(hs, "gitlab.com") {
                        Some(GitHost::Gitlab)
                    } else if str_equal(hs, "gitea.com") || str_equal(hs, "codeberg.org") {
                        Some(GitHost::Gitea)
                    } else {
                        Some(GitHost::Generic)
                    }
                },
            },
            _ => None,
        }
    }
}

/// How a source is named at the start of its warnings.
pub open spec fn source_prefix(s: SourceEntry) -> Seq<char> {
    "source `"@ + s.name@ + "` ("@ + uuid_text(s.id) + "): "@
}

/// What [`SourceEntry::validate`] reports: an unknown source kind, then the
/// locator's warnings, each led by the source's name and id.
pub open spec fn spec_source_warnings(s: SourceEntry) -> Seq<Seq<char>> {
    (match s.kind {
        SourceKind::Unknown { type_tag, .. } => seq![
            source_prefix(s) + "unknown source kind `"@ + type_tag@
                + "` \u{2014} preserved, not usable in this version"@,
        ],
        _ => Seq::empty(),
    }) + spec_locator_warnings(s.locator).map_values(|w: Seq<char>| source_prefix(s) + w)
}

impl SourceEntry {
    /// The entry's problems, each as a warning naming the source.
    pub fn validate(&self) -> (res: Vec<String>)
        ensures
            texts(res@) == spec_source_warnings(*self),
    {
        let mut prefix = String::from_str("source `");
        prefix.append(self.name.as_str());
        prefix.append("` (");
        push_uuid(&mut prefix, self.id);
        prefix.append("): ");
        let mut out: Vec<String> = Vec::new();
        match &self.kind {
            SourceKind::Unknown { type_tag, .. } => {
                let mut w = String::from_str(prefix.as_str());
                w.append("unknown source kind `");
                w.append(type_tag.as_str());
                w.append("` \u{2014} preserved, not usable in this version");
                push_text(&mut out, w);
            },
            _ => {},
        }
        let ghost head = texts(out@);
        let lw = self.locator.validate();
        let ghost lws = texts(lw@);
        let n = lw.len();
        let mut i: usize = 0;
        while i < n
            invariant
                n == lw@.len(),
                lws == texts(lw@),
                i <= n,
                prefix@ == source_prefix(*self),
                texts(out@) == head + lws.take(i as int).map_values(
                    |w: Seq<char>| source_prefix(*self) + w,
                ),
            decreases n - i,
        {
            let mut w = String::from_str(prefix.as_str());
            w.append(lw[i].as_str());
            push_text(&mut out, w);
            assert(lws.take(i + 1).map_values(|w: Seq<char>| source_prefix(*self) + w)
                =~= lws.take(i as int).map_values(|w: Seq<char>| source_prefix(*self) + w).push(
                source_prefix(*self) + lw@[i as int]@,
            ));
            i = i + 1;
        }
        assert(lws.take(n as int) =~= lws);
        assert(texts(out@) =~= spec_source_warnings(*self));
        out
    }
}

/// Law: a git commit locator passes only with a full commit id, exactly 40
/// (SHA-1) or 64 (SHA-256) characters, each `0`-`9`, `a`-`f` or `A`-`F`;
/// any other id (an abbreviated one, a longer one, a non-hex character)
/// makes the locator's last warning the commit warning.
pub proof fn law_commit_refs_must_be_full_hex_ids(l: Locator)
    requires
        l is Git,
        l->Git_git_ref is Commit,
    ensures
        ({
            let sha = l->Git_git_ref->Commit_sha@;
            let w = spec_locator_warnings(l);
            let full = (sha.len() == 40 || sha.len() == 64) && forall|i: int|
                0 <= i < sha.len() ==> {
                    let c = #[trigger] (sha[i] as u32);
                    (48 <= c <= 57) || (97 <= c <= 102) || (65 <= c <= 70)
                };
            &&& full <==> git_ref_warnings(l->Git_git_ref).len() == 0
            &&& !full ==> w.len() >= 1 && w.last() == "commit `"@ + sha
                + "` is not 40 or 64 hex digits"@
        }),
{
    let sha = l->Git_git_ref->Commit_sha@;
    let full = (sha.len() == 40 || sha.len() == 64) && forall|i: int|
        0 <= i < sha.len() ==> {
            let c = #[trigger] (sha[i] as u32);
            (48 <= c <= 57) || (97 <= c <= 102) || (65 <= c <= 70)
        };
    if full {
        assert forall|i: int| 0 <= i < sha.len() implies #[trigger] is_hex_digit(sha[i]) by {
            let c = sha[i] as u32;
            assert((48 <= c <= 57) || (97 <= c <= 102) || (65 <= c <= 70));
        }
    } else if sha.len() == 40 || sha.len() == 64 {
        let i = choose|i: int|
            0 <= i < sha.len() && !{
                let c = #[trigger] (sha[i] as u32);
                (48 <= c <= 57) || (97 <= c <= 102) || (65 <= c <= 70)
            };
        assert(!is_hex_digit(sha[i]));
    }
}

} // verus!
