//! PDF helpers at the boundary.
//!
//! Text extraction itself is an external collaborator's work and stands
//! behind a trusted wrapper; what is verified is the judgement made on its
//! outcome.  Page rendering is not provided at all.

use vstd::prelude::*;
use crate::textutil::{is_ws, has_nonblank};

verus! {

/// Relies on pdf_extract::extract_text: reads the file at `path` and
/// extracts its embedded text.  What comes back depends on the disk.
#[verifier::external_body]
pub fn extract_pdf_text(path: &String) -> (r: Result<String, String>) {
    match pdf_extract::extract_text(path.as_str()) {
        Ok(t) => Ok(t),
        Err(e) => Err(e.to_string()),
    }
}

/// Whether an extraction outcome counts as extractable text: the call
/// succeeded and the text is not blank.
pub fn extraction_has_text(outcome: &Result<String, String>) -> (r: bool)
    ensures
        r == (outcome matches Ok(t) && exists|i: int| 0 <= i < t@.len() && !is_ws(t@[i])),
{
    match outcome {
        Ok(t) => has_nonblank(t.as_str()),
        Err(_) => false,
    }
}

/// True when the document at `path` holds extractable, non-blank text.
/// The answer depends on what is on disk; the judgement on the extraction
/// outcome is [`extraction_has_text`]'s.
pub fn has_extractable_text(path: &String) -> bool {
    let outcome = extract_pdf_text(path);
    extraction_has_text(&outcome)
}

/// The page count reported for a document: a fixed placeholder of one
/// page, until a real page counter is wired to an external reader.
pub fn get_page_count(path: &String) -> (r: Result<usize, String>)
    ensures
        r matches Ok(n) && n == 1,
{
    let _ = path;
    Ok(1)
}

} // verus!
