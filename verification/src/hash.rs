//! Content hashing for the `sources` table: the git blob id, SHA-1 over
//! `"blob <len>\0" + bytes`, written self-describing as
//! `git-blob-sha1:<40 lowercase hex>`. A recorded hash with an unknown
//! algorithm prefix is "no hash", never a mismatch.

use vstd::prelude::*;
use vstd::string::*;
use vstd::utf8::*;
use sha1::Digest;

use crate::text::{
    digit_char,
    bytes_eq_ignore_ascii_case, bytes_start_with, decimal, lemma_encode_utf8_concat, eq_ignore_ascii_case, has_prefix, hex_lower,
    push_decimal, push_hex_lower,
};

verus! {

/// Algorithm prefix for git blob ids.
pub const GIT_BLOB_SHA1_PREFIX: &'static str = "git-blob-sha1:";

/// The SHA-1 digest of `data` (FIPS 180-4), as computed by the `sha1` crate.
pub uninterp spec fn sha1_digest_of(data: Seq<u8>) -> Seq<u8>;

/// Calls `sha1::Sha1::digest` (the `Digest` one-shot hash). Claimed: the
/// result is the SHA-1 digest of `data`, a function of `data` alone, and it
/// is 20 bytes long (the output size of `Sha1` is `U20`).
#[verifier::external_body]
fn sha1_digest(data: &[u8]) -> (res: Vec<u8>)
    ensures
        res@ == sha1_digest_of(data@),
        res@.len() == 20,
{
    sha1::Sha1::digest(data).to_vec()
}

/// `"blob <len>\0"`, the header git hashes in front of a blob's bytes.
pub open spec fn git_blob_header(len: nat) -> Seq<char> {
    "blob "@ + decimal(len) + "\0"@
}

/// The exact bytes git hashes for a blob holding `bytes`.
pub open spec fn git_blob_preimage(bytes: Seq<u8>) -> Seq<u8> {
    encode_utf8(git_blob_header(bytes.len())) + bytes
}

/// `git-blob-sha1:` followed by the lowercase hex of `digest`.
pub open spec fn git_blob_id(digest: Seq<u8>) -> Seq<char> {
    GIT_BLOB_SHA1_PREFIX@ + hex_lower(digest)
}

/// The self-describing git blob id of `bytes`.
pub open spec fn spec_git_blob_sha1(bytes: Seq<u8>) -> Seq<char> {
    git_blob_id(sha1_digest_of(git_blob_preimage(bytes)))
}

/// Renders a SHA-1 digest as a self-describing git blob id.
pub fn git_blob_id_from_digest(digest: &[u8]) -> (res: String)
    ensures
        res@ == git_blob_id(digest@),
{
    let mut out = String::new();
    out.append(GIT_BLOB_SHA1_PREFIX);
    push_hex_lower(&mut out, digest);
    out
}

/// `git-blob-sha1:<hex>` of `bytes`, identical to `git hash-object` on the
/// same content.
pub fn git_blob_sha1(bytes: &[u8]) -> (res: String)
    ensures
        res@ == spec_git_blob_sha1(bytes@),
{
    let mut header = String::new();
    header.append("blob ");
    push_decimal(&mut header, bytes.len());
    header.append("\0");
    let mut pre: Vec<u8> = header.as_str().as_bytes_vec();
    let ghost head = pre@;
    let n = bytes.len();
    let mut i: usize = 0;
    while i < n
        invariant
            n == bytes@.len(),
            i <= n,
            pre@ == head + bytes@.take(i as int),
        decreases n - i,
    {
        pre.push(bytes[i]);
        assert(bytes@.take(i + 1) =~= bytes@.take(i as int).push(bytes@[i as int]));
        i = i + 1;
    }
    assert(bytes@.take(n as int) =~= bytes@);
    let digest = sha1_digest(pre.as_slice());
    git_blob_id_from_digest(digest.as_slice())
}


/// Outcome of checking bytes against a recorded `content_hash`.
#[derive(Debug, Clone, PartialEq, Eq)]
pub enum HashCheck {
    /// Recorded hash present, known algorithm, equal.
    Match,
    /// Recorded hash present, known algorithm, different.
    Mismatch { recorded: String, actual: String },
    /// No recorded hash, or an algorithm this reader does not know.
    Unverifiable,
}

/// A recorded hash this reader can check: it starts with the git blob
/// prefix (byte for byte, as `str::starts_with` compares).
pub open spec fn is_git_blob_hash(recorded: Seq<char>) -> bool {
    has_prefix(encode_utf8(recorded), encode_utf8(GIT_BLOB_SHA1_PREFIX@))
}

/// What [`compare_recorded_hash`] answers for a known-algorithm hash
/// `recorded` against the hash `actual` computed from the content.
pub open spec fn recorded_matches(recorded: Seq<char>, actual: Seq<char>) -> bool {
    eq_ignore_ascii_case(encode_utf8(actual), encode_utf8(recorded))
}

/// Compares a recorded git blob hash with the actual one, ignoring ASCII
/// case (hex digits may be written in either case).
pub fn compare_recorded_hash(recorded: &str, actual: String) -> (res: HashCheck)
    ensures
        recorded_matches(recorded@, actual@) ==> res is Match,
        !recorded_matches(recorded@, actual@) ==> (res matches HashCheck::Mismatch {
            recorded: r,
            actual: a,
        } && r@ == recorded@ && a@ == actual@),
{
    if bytes_eq_ignore_ascii_case(actual.as_str().as_bytes(), recorded.as_bytes()) {
        HashCheck::Match
    } else {
        HashCheck::Mismatch { recorded: String::from_str(recorded), actual }
    }
}

/// Check `bytes` against an optional recorded hash string.
pub fn check_content_hash(recorded: Option<&str>, bytes: &[u8]) -> (res: HashCheck)
    ensures
        match recorded {
            Some(r) => if is_git_blob_hash(r@) {
                let actual = spec_git_blob_sha1(bytes@);
                if recorded_matches(r@, actual) {
                    res is Match
                } else {
                    (res matches HashCheck::Mismatch { recorded: rr, actual: aa } && rr@ == r@
                        && aa@ == actual)
                }
            } else {
                res is Unverifiable
            },
            None => res is Unverifiable,
        },
{
    match recorded {
        Some(r) => {
            if bytes_start_with(r.as_bytes(), GIT_BLOB_SHA1_PREFIX.as_bytes()) {
                let actual = git_blob_sha1(bytes);
                compare_recorded_hash(r, actual)
            } else {
                HashCheck::Unverifiable
            }
        },
        None => HashCheck::Unverifiable,
    }
}


/// Law: every hash `git_blob_sha1` computes is one `check_content_hash`
/// can check (it carries the git blob prefix), and it matches itself: so
/// checking bytes against their own recorded hash is a `Match`.
pub proof fn law_own_hash_matches(bytes: Seq<u8>)
    ensures
        is_git_blob_hash(spec_git_blob_sha1(bytes)),
        recorded_matches(spec_git_blob_sha1(bytes), spec_git_blob_sha1(bytes)),
{
    let digest = sha1_digest_of(git_blob_preimage(bytes));
    lemma_encode_utf8_concat(GIT_BLOB_SHA1_PREFIX@, hex_lower(digest));
    let p = encode_utf8(GIT_BLOB_SHA1_PREFIX@);
    assert((p + encode_utf8(hex_lower(digest))).take(p.len() as int) =~= p);
}

/// The number a string of decimal digits denotes.
pub open spec fn decimal_value(s: Seq<char>) -> int
    decreases s.len(),
{
    if s.len() == 0 {
        0
    } else {
        decimal_value(s.drop_last()) * 10 + (s.last() as int - 48)
    }
}

/// Every character of `s` is an ASCII decimal digit.
pub open spec fn all_ascii_digits(s: Seq<char>) -> bool {
    forall|i: int| 0 <= i < s.len() ==> 48 <= #[trigger] (s[i] as u32) <= 57
}

/// The decimal rendering reads back as the number, with no leading zero.
proof fn lemma_decimal_reads_back(n: nat)
    ensures
        decimal(n).len() >= 1,
        all_ascii_digits(decimal(n)),
        decimal_value(decimal(n)) == n,
        n >= 1 ==> decimal(n)[0] != '0',
    decreases n,
{
    if n < 10 {
        assert(decimal(n).drop_last() =~= Seq::<char>::empty());
        assert(decimal(n).last() == digit_char(n));
        assert((digit_char(n) as int) == 48 + n);
        assert(decimal_value(decimal(n)) == decimal_value(Seq::<char>::empty()) * 10 + n);
    } else {
        lemma_decimal_reads_back(n / 10);
        let d = decimal(n);
        assert(d.drop_last() =~= decimal(n / 10));
        assert(d.last() == digit_char(n % 10));
        assert((digit_char(n % 10) as int) == 48 + n % 10);
        assert(decimal_value(d) == decimal_value(decimal(n / 10)) * 10 + (n % 10));
        assert((n / 10) * 10 + n % 10 == n) by (nonlinear_arith);
        assert(d[0] == decimal(n / 10)[0]);
        assert forall|i: int| 0 <= i < d.len() implies 48 <= #[trigger] (d[i] as u32) <= 57 by {
            if i < d.len() - 1 {
                assert(d[i] == decimal(n / 10)[i]);
            }
        }
    }
}

/// Law: the id `git_blob_sha1` gives is git's blob id: SHA-1 over `blob `,
/// the content's whole byte length in decimal digits (no leading zero), a
/// NUL, and the content, written as `git-blob-sha1:` and lowercase hex.
pub proof fn law_git_blob_header_states_the_full_length(bytes: Seq<u8>)
    ensures
        exists|d: Seq<char>|
            #![trigger decimal_value(d)]
            d.len() >= 1 && all_ascii_digits(d) && decimal_value(d) == bytes.len() && (d.len()
                == 1 || d[0] != '0') && spec_git_blob_sha1(bytes) == "git-blob-sha1:"@ + hex_lower(
                sha1_digest_of(encode_utf8("blob "@ + d + "\0"@) + bytes),
            ),
{
    let d = decimal(bytes.len());
    lemma_decimal_reads_back(bytes.len());
    assert(decimal_value(d) == bytes.len());
}

} // verus!
