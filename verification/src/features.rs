//! The part of a feature tree the document shims read and write: each
//! feature's identity and, for an `ImportedBody`, where its STEP content
//! comes from (a `sources` entry, or a legacy inline blob).

use vstd::prelude::*;
use vstd::string::*;
use vstd::utf8::*;

use crate::blob::{encode_step_blob, spec_encode_step_blob, STEP_BLOB_ENCODING};

verus! {

/// Where an imported body's STEP content comes from.
#[derive(Debug, Clone, PartialEq, Eq)]
pub struct ImportedBodyParams {
    /// Display name of the imported file.
    pub file_name: String,
    /// The `sources` entry holding the content.
    pub source_id: Option<u128>,
    /// Legacy inline payload encoding (read path only).
    pub blob_encoding: Option<String>,
    /// Legacy inline payload.
    pub blob: Option<String>,
}

impl ImportedBodyParams {
    /// Legacy shape: the STEP text carried inline as an encoded blob.
    pub fn embedded(file_name: &str, step_text: &str) -> (res: ImportedBodyParams)
        ensures
            res.file_name@ == file_name@,
            res.source_id is None,
            res.blob_encoding matches Some(e) && e@ == STEP_BLOB_ENCODING@,
            res.blob matches Some(b) && b@ == spec_encode_step_blob(step_text@),
    {
        ImportedBodyParams {
            file_name: String::from_str(file_name),
            source_id: None,
            blob_encoding: Some(String::from_str(STEP_BLOB_ENCODING)),
            blob: Some(encode_step_blob(step_text)),
        }
    }

    /// Current shape: the content lives in the `sources` entry `id`.
    pub fn from_source(file_name: &str, id: u128) -> (res: ImportedBodyParams)
        ensures
            res.file_name@ == file_name@,
            res.source_id == Some(id),
            res.blob_encoding is None,
            res.blob is None,
    {
        ImportedBodyParams {
            file_name: String::from_str(file_name),
            source_id: Some(id),
            blob_encoding: None,
            blob: None,
        }
    }
}

/// A feature's operation, as far as the document shims are concerned.
#[derive(Debug, Clone, PartialEq, Eq)]
pub enum Operation {
    ImportedBody { params: ImportedBodyParams },
    /// An operation kind this reader does not know, kept by its tag.
    /// A kind this reader does not know: its `type` tag, which the logic
    /// reads, and the whole object as JSON text, kept verbatim so that it is
    /// written back byte for byte.
    Unknown { type_tag: String, raw: String },
    /// Any other known operation, by its tag.
    Other { type_tag: String },
}

/// One feature of a tree.
#[derive(Debug, Clone, PartialEq, Eq)]
pub struct Feature {
    pub id: u128,
    pub name: String,
    pub operation: Operation,
    pub suppressed: bool,
}

/// An ordered list of features.
#[derive(Debug, Clone, PartialEq, Eq)]
pub struct FeatureTree {
    pub features: Vec<Feature>,
}

impl FeatureTree {
    /// The empty tree.
    pub fn new() -> (res: FeatureTree)
        ensures
            res.features@.len() == 0,
    {
        FeatureTree { features: Vec::new() }
    }
}

} // verus!
