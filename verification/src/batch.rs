//! Sequential batch orchestration.
//!
//! One execution client is applied to an ordered list of files, strictly in
//! order.  A failing item becomes that item's outcome and never aborts the
//! run; the outcome list is index-aligned with the input.

use vstd::prelude::*;
use crate::OcrResult;

verus! {

/// The outcome of one batch item.  Exactly one of `results` and `error` is
/// populated, and `success` says which.
pub struct BatchResult {
    pub file: String,
    pub success: bool,
    pub results: Option<Vec<OcrResult>>,
    pub error: Option<String>,
}

/// Exactly one of `results` and `error` is populated; `success` says which.
pub open spec fn batch_result_wf(b: BatchResult) -> bool {
    &&& (b.success <==> b.error is None)
    &&& (b.success <==> b.results is Some)
}

/// The outcome `out` is what the client could answer for `file`: it names
/// the file, it is well-formed, and whichever side is populated is a
/// possible answer of the client on that file.
pub open spec fn outcome_of<F: Fn(&String) -> Result<Vec<OcrResult>, String>>(
    file: String,
    out: BatchResult,
    client: F,
) -> bool {
    &&& out.file == file
    &&& batch_result_wf(out)
    &&& (out.results matches Some(v) ==> call_ensures(client, (&file,), Ok(v)))
    &&& (out.error matches Some(m) ==> call_ensures(client, (&file,), Err(m)))
}

/// Processes the files strictly in order through one execution client.
///
/// The observer hears `(current index, total, current file)` before each
/// item.  Every item gets an outcome: a client error is captured into that
/// item's outcome and the run continues.  The outcome list has exactly one
/// entry per input file, index-aligned.
#[verifier::loop_isolation(false)]
pub fn process_batch<
    F: Fn(&String) -> Result<Vec<OcrResult>, String>,
    G: Fn(usize, usize, &String),
>(files: &Vec<String>, client: F, observer: G) -> (r: Vec<BatchResult>)
    requires
        forall|i: int| 0 <= i < files@.len() ==> call_requires(client, (&files@[i],)),
        forall|i: usize, t: usize, s: &String| #[trigger] call_requires(observer, (i, t, s)),
    ensures
        r@.len() == files@.len(),
        forall|i: int| 0 <= i < files@.len() ==> outcome_of(files@[i], #[trigger] r@[i], client),
{
    let n = files.len();
    let mut out: Vec<BatchResult> = Vec::new();
    let mut i: usize = 0;
    while i < n
        invariant
            i <= n,
            out@.len() == i,
            forall|k: int| 0 <= k < i ==> outcome_of(files@[k], #[trigger] out@[k], client),
        decreases n - i,
    {
        let item = &files[i];
        observer(i, n, item);
        match client(item) {
            Ok(results) => {
                out.push(
                    BatchResult {
                        file: item.clone(),
                        success: true,
                        results: Some(results),
                        error: None,
                    },
                );
            },
            Err(e) => {
                out.push(
                    BatchResult {
                        file: item.clone(),
                        success: false,
                        results: None,
                        error: Some(e),
                    },
                );
            },
        }
        i += 1;
    }
    out
}

} // verus!
