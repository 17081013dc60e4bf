//! Identities: a UUID is held as its 128-bit value (`Uuid::as_u128`, big
//! endian); `uuid` mints fresh ones and writes them out.

use vstd::prelude::*;
use vstd::arithmetic::power::pow;

use crate::text::hex_lower;

verus! {

/// The 16 bytes of `v`, most significant first (`u128::to_be_bytes`).
pub open spec fn u128_be_bytes(v: u128) -> Seq<u8> {
    Seq::new(16, |i: int| ((v as int / pow(256, (15 - i) as nat)) % 256) as u8)
}

/// The hyphenated lowercase form `xxxxxxxx-xxxx-xxxx-xxxx-xxxxxxxxxxxx`.
pub open spec fn uuid_text(v: u128) -> Seq<char> {
    let h = hex_lower(u128_be_bytes(v));
    h.subrange(0, 8) + "-"@ + h.subrange(8, 12) + "-"@ + h.subrange(12, 16) + "-"@
        + h.subrange(16, 20) + "-"@ + h.subrange(20, 32)
}

/// Calls `uuid::Uuid::new_v4` and returns its value (`as_u128`). The value
/// is random; claimed (`v4.rs` masks and sets these bits on every value):
/// the version nibble is 4 and the variant bits are `10`.
#[verifier::external_body]
pub(crate) fn new_id() -> (res: u128)
    ensures
        res & 0xF000_C000_0000_0000_0000 == 0x4000_8000_0000_0000_0000,
{
    uuid::Uuid::new_v4().as_u128()
}

/// Calls `uuid::Uuid::from_u128` and its `Display` (`to_string`). Claimed
/// (the crate's documentation and `fmt.rs`): the hyphenated lowercase hex
/// of the value's big-endian bytes.
#[verifier::external_body]
pub(crate) fn id_text(id: u128) -> (res: String)
    ensures
        res@ == uuid_text(id),
{
    uuid::Uuid::from_u128(id).to_string()
}

/// Appends the hyphenated text of `id` to `s`.
pub(crate) fn push_uuid(s: &mut String, id: u128)
    ensures
        final(s)@ == old(s)@ + uuid_text(id),
{
    let t = id_text(id);
    s.append(t.as_str());
}

} // verus!
