//! The indexed record of a document, as plain values.

use vstd::prelude::*;

verus! {

/// One document as the workspace index holds it.
///
/// `created_at` and `updated_at` are timestamps in milliseconds since the Unix
/// epoch; documents are ordered by them.
#[derive(Clone, Debug)]
pub struct Document {
    pub filepath: String,
    pub id: String,
    pub title: String,
    pub document_type: String,
    pub created_at: i64,
    pub updated_at: i64,
    pub archived: bool,
    pub exit_criteria_met: bool,
    pub file_hash: String,
    pub frontmatter_json: String,
    pub content: Option<String>,
    pub phase: String,
    pub strategy_id: Option<String>,
    pub initiative_id: Option<String>,
    pub short_code: String,
}

} // verus!
