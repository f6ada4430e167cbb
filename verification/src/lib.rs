//! Orchestration layer in front of an external OCR engine.
//!
//! The engine itself is out of scope: it is reached either by spawning a
//! bridge process per request or by calling a long-lived HTTP server.  This
//! crate holds the verified logic around those calls: layered configuration
//! merging, the engine wire protocol (request encoding and response
//! parsing), sequential and parallel batch orchestration, the directory
//! watch decision rules, the server lifecycle decisions, and the output
//! formatters.

pub mod batch;
pub mod client;
pub mod config;
pub mod parallel;
pub mod pdf;
pub mod protocol;
pub mod server;
pub mod templates;
pub mod textutil;
pub mod watch;
pub mod error;

use vstd::prelude::*;

verus! {

/// One recognized text region: a bounding polygon (a sequence of `[x, y]`
/// pairs; empty in text-only mode), the recognized text, and the confidence.
///
/// Confidence is held in thousandths: `confidence_milli` is 0 for the
/// engine's text-only mode and at most 1000 (that is, 1.0) otherwise, as the
/// wire protocol promises a confidence between 0.0 and 1.0.
pub struct OcrResult {
    pub bbox: Vec<Vec<i32>>,
    pub text: String,
    pub confidence_milli: u32,
}

/// The mathematical model of one recognized region.
pub struct RegionV {
    pub bbox: Seq<Seq<i32>>,
    pub text: Seq<char>,
    pub confidence_milli: u32,
}

/// The models of a polygon's points.
pub open spec fn point_views(v: Seq<Vec<i32>>) -> Seq<Seq<i32>> {
    v.map_values(|p: Vec<i32>| p@)
}

impl View for OcrResult {
    type V = RegionV;

    open spec fn view(&self) -> RegionV {
        RegionV {
            bbox: point_views(self.bbox@),
            text: self.text@,
            confidence_milli: self.confidence_milli,
        }
    }
}

/// The models of a sequence of regions.
pub open spec fn region_views(v: Seq<OcrResult>) -> Seq<RegionV> {
    v.map_values(|x: OcrResult| x@)
}

/// Wraps the engine's text-only answers: at detail level 0 the engine
/// yields bare text, so every region carries an empty bounding polygon and
/// a confidence of zero.
pub fn simple_results(texts: Vec<String>) -> (r: Vec<OcrResult>)
    ensures
        r@.len() == texts@.len(),
        forall|i: int| 0 <= i < r@.len() ==> (#[trigger] r@[i]).text == texts@[i],
        forall|i: int| 0 <= i < r@.len() ==> (#[trigger] r@[i]).bbox@.len() == 0,
        forall|i: int| 0 <= i < r@.len() ==> (#[trigger] r@[i]).confidence_milli == 0,
{
    let ghost all = texts@;
    let mut texts = texts;
    let mut out: Vec<OcrResult> = Vec::new();
    let ghost mut k: int = 0;
    proof {
        assert(all.skip(0) =~= all);
    }
    while texts.len() > 0
        invariant
            0 <= k <= all.len(),
            texts@ == all.skip(k),
            texts@.len() == all.len() - k,
            out@.len() == k,
            forall|i: int| 0 <= i < k ==> (#[trigger] out@[i]).text == all[i],
            forall|i: int| 0 <= i < k ==> (#[trigger] out@[i]).bbox@.len() == 0,
            forall|i: int| 0 <= i < k ==> (#[trigger] out@[i]).confidence_milli == 0,
        decreases texts@.len(),
    {
        let t = texts.remove(0);
        proof {
            assert(all.skip(k)[0] == all[k]);
            assert(texts@ =~= all.skip(k + 1));
        }
        out.push(OcrResult { bbox: Vec::new(), text: t, confidence_milli: 0 });
        proof {
            k = k + 1;
        }
    }
    out
}

/// The bare text of each region, in order.
pub fn texts_of(results: Vec<OcrResult>) -> (r: Vec<String>)
    ensures
        r@.len() == results@.len(),
        forall|i: int| 0 <= i < r@.len() ==> #[trigger] r@[i] == results@[i].text,
{
    let ghost all = results@;
    let mut results = results;
    let mut out: Vec<String> = Vec::new();
    let ghost mut k: int = 0;
    proof {
        assert(all.skip(0) =~= all);
    }
    while results.len() > 0
        invariant
            0 <= k <= all.len(),
            results@ == all.skip(k),
            results@.len() == all.len() - k,
            out@.len() == k,
            forall|i: int| 0 <= i < k ==> #[trigger] out@[i] == all[i].text,
        decreases results@.len(),
    {
        let x = results.remove(0);
        proof {
            assert(all.skip(k)[0] == all[k]);
            assert(results@ =~= all.skip(k + 1));
        }
        out.push(x.text);
        proof {
            k = k + 1;
        }
    }
    out
}

/// The crate's own version string, mirrored from the package manifest.
pub fn version() -> (r: String)
    ensures
        r@ == "0.1.0"@,
{
    String::from_str("0.1.0")
}

} // verus!
