//! What an assembly instance is of: a tab of this document, or a tab of a
//! linked `.waffle` source.

use vstd::prelude::*;
use vstd::string::*;

use crate::ids::{id_text, uuid_text};

verus! {

/// The part an instance places: tab `tab_id` of this document, or of the
/// linked source `source_id`.
#[derive(Debug, Clone, PartialEq, Eq)]
pub struct PartRef {
    pub tab_id: String,
    pub source_id: Option<u128>,
}

/// How a part is named in messages: `tab@source`, or the tab alone.
pub open spec fn spec_part_label(p: PartRef) -> Seq<char> {
    match p.source_id {
        Some(s) => p.tab_id@ + "@"@ + uuid_text(s),
        None => p.tab_id@,
    }
}

/// How a part is named in messages.
pub fn part_label(part: &PartRef) -> (res: String)
    ensures
        res@ == spec_part_label(*part),
{
    match part.source_id {
        Some(s) => {
            let mut out = String::from_str(part.tab_id.as_str());
            out.append("@");
            let t = id_text(s);
            out.append(t.as_str());
            out
        },
        None => String::from_str(part.tab_id.as_str()),
    }
}

} // verus!
