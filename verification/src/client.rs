//! The execution client: one capability, two transports.
//!
//! A recognition request reaches the engine either over HTTP (the server
//! strategy) or through a bridge process (the subprocess strategy).  Both
//! produce the same result shape.  Everything that computes — request
//! encoding, response decoding, argument building — is verified here; the
//! network transport itself stands behind two small trusted wrappers, and
//! spawning the bridge process is left to the surrounding application,
//! which hands its captured output to [`decode_bridge_output`].

use vstd::prelude::*;
use crate::error::OcrError;
use crate::protocol::{
    json_escaped,
    sp_envelope_doc,
    sp_regions_doc,
    parse_envelope,
    parse_regions,
    append_json_escaped,
};
use crate::textutil::{dec_of, dec_int_of, append_str, append_i32_dec, append_u64_dec,
    string_from_chars};
use crate::{OcrResult, region_views};

verus! {

/// The characters that the standard base64 encoding of `b` consists of.
pub uninterp spec fn base64_of(b: Seq<u8>) -> Seq<char>;

/// Relies on base64's `STANDARD` engine: the encoding of a byte sequence
/// depends on those bytes alone.
#[verifier::external_body]
fn base64_encode(b: &Vec<u8>) -> (r: String)
    ensures
        r@ == base64_of(b@),
{
    base64::Engine::encode(&base64::engine::general_purpose::STANDARD, b.as_slice())
}

/// Relies on reqwest's blocking client: posts `body` to `url` with a JSON
/// content type and returns the status code with the response text, or the
/// transport error's text.  What comes back depends on the network.
#[verifier::external_body]
fn http_post(url: &String, body: &String) -> (r: Result<(u16, String), String>) {
    let client = reqwest::blocking::Client::new();
    match client.post(url.as_str()).header("content-type", "application/json").body(
        body.clone(),
    ).send() {
        Ok(resp) => {
            let status = resp.status().as_u16();
            match resp.text() {
                Ok(t) => Ok((status, t)),
                Err(e) => Err(e.to_string()),
            }
        },
        Err(e) => Err(e.to_string()),
    }
}

/// Relies on reqwest's blocking client: issues a GET and returns the status
/// code, or `None` when the request could not be completed at all.
#[verifier::external_body]
fn http_get(url: &String) -> (r: Option<u16>) {
    let client = reqwest::blocking::Client::new();
    match client.get(url.as_str()).send() {
        Ok(resp) => Some(resp.status().as_u16()),
        Err(_) => None,
    }
}

/// The views of a language list.
pub open spec fn lang_views(v: Seq<String>) -> Seq<Seq<char>> {
    v.map_values(|s: String| s@)
}

/// One language, quoted and escaped for a JSON array.
pub open spec fn quoted(s: Seq<char>) -> Seq<char> {
    seq!['"'] + json_escaped(s) + seq!['"']
}

/// The JSON array body of the language list: quoted entries, comma-joined.
pub open spec fn langs_json(ls: Seq<Seq<char>>) -> Seq<char>
    decreases ls.len(),
{
    if ls.len() == 0 {
        Seq::empty()
    } else if ls.len() == 1 {
        quoted(ls[0])
    } else {
        langs_json(ls.drop_last()) + seq![','] + quoted(ls.last())
    }
}

/// The request body of the server protocol:
/// `{"image": b64, "languages": [...], "detail": d, "gpu": g}`, compact.
pub open spec fn json_request(b64: Seq<char>, ls: Seq<Seq<char>>, detail: int, gpu: bool) -> Seq<
    char,
> {
    "{\"image\":\""@ + b64 + "\",\"languages\":["@ + langs_json(ls) + "],\"detail\":"@
        + dec_int_of(detail) + ",\"gpu\":"@ + (if gpu {
        "true"@
    } else {
        "false"@
    }) + "}"@
}

/// Builds the server request body from an already-encoded image.
#[verifier::loop_isolation(false)]
pub fn build_ocr_request(b64: &String, languages: &Vec<String>, detail: i32, gpu: bool) -> (r:
    String)
    ensures
        r@ == json_request(b64@, lang_views(languages@), detail as int, gpu),
{
    let ghost ls = lang_views(languages@);
    let mut out: Vec<char> = Vec::new();
    append_str(&mut out, "{\"image\":\"");
    append_str(&mut out, b64.as_str());
    append_str(&mut out, "\",\"languages\":[");
    let ghost mark = out@;
    let mut i: usize = 0;
    while i < languages.len()
        invariant
            i <= languages@.len(),
            ls.len() == languages@.len(),
            out@ == mark + langs_json(ls.take(i as int)),
        decreases languages@.len() - i,
    {
        if i > 0 {
            out.push(',');
        }
        out.push('"');
        append_json_escaped(&mut out, languages[i].as_str());
        out.push('"');
        proof {
            assert(ls.take(i + 1).drop_last() =~= ls.take(i as int));
            assert(ls.take(i + 1).last() == ls[i as int]);
            assert(ls[i as int] == languages@[i as int]@);
            if i == 0 {
                assert(out@ =~= mark + langs_json(ls.take(1)));
            } else {
                assert(out@ =~= mark + langs_json(ls.take(i as int)) + seq![','] + quoted(
                    ls[i as int],
                ));
            }
        }
        i += 1;
    }
    proof {
        assert(ls.take(ls.len() as int) =~= ls);
    }
    append_str(&mut out, "],\"detail\":");
    append_i32_dec(&mut out, detail);
    append_str(&mut out, ",\"gpu\":");
    if gpu {
        append_str(&mut out, "true");
    } else {
        append_str(&mut out, "false");
    }
    append_str(&mut out, "}");
    let r = string_from_chars(&out);
    proof {
        assert(r@ =~= json_request(b64@, ls, detail as int, gpu));
    }
    r
}

/// Encodes a recognition request: the image bytes in standard base64,
/// inside the protocol's JSON body.
pub fn encode_image_request(
    image_data: &Vec<u8>,
    languages: &Vec<String>,
    detail: i32,
    gpu: bool,
) -> (r: String)
    ensures
        r@ == json_request(base64_of(image_data@), lang_views(languages@), detail as int, gpu),
{
    let b64 = base64_encode(image_data);
    build_ocr_request(&b64, languages, detail, gpu)
}

/// The message reported when the server answers outside the 2xx range.
pub open spec fn server_error_msg(status: u16, body: Seq<char>) -> Seq<char> {
    "Server returned error "@ + dec_of(status as int) + ": "@ + body
}

/// Decodes a server answer: a 2xx envelope yields its regions; a non-2xx
/// status is an execution error carrying the status and body; a 2xx body
/// outside the protocol is a protocol error.
pub fn decode_ocr_response(status: u16, body: &String) -> (r: Result<Vec<OcrResult>, OcrError>)
    ensures
        (200 <= status < 300 && sp_envelope_doc(body@) is Some) ==> (r matches Ok(v)
            && sp_envelope_doc(body@) == Some(region_views(v@))),
        (200 <= status < 300 && sp_envelope_doc(body@) is None) ==> (r matches Err(e)
            && e matches OcrError::EngineProtocol(_)),
        !(200 <= status < 300) ==> (r matches Err(e) && e matches OcrError::EngineExecution(m)
            && m@ == server_error_msg(status, body@)),
{
    if !(200 <= status && status < 300) {
        let mut out: Vec<char> = Vec::new();
        append_str(&mut out, "Server returned error ");
        append_u64_dec(&mut out, status as u64);
        append_str(&mut out, ": ");
        append_str(&mut out, body.as_str());
        let msg = string_from_chars(&out);
        return Err(OcrError::EngineExecution(msg));
    }
    match parse_envelope(body.as_str()) {
        Some(v) => Ok(v),
        None => Err(
            OcrError::EngineProtocol(String::from_str("Failed to parse server response")),
        ),
    }
}

/// Performs one recognition over the server transport: encodes the image,
/// posts it, and decodes the answer.  A result is never invented: an `Ok`
/// holds exactly the regions of a well-formed envelope.
pub fn ocr_via_server(
    image_data: &Vec<u8>,
    languages: &Vec<String>,
    detail: i32,
    gpu: bool,
    server_url: &String,
) -> (r: Result<Vec<OcrResult>, OcrError>)
    ensures
        r matches Ok(v) ==> exists|b: Seq<char>| sp_envelope_doc(b) == Some(region_views(v@)),
        r matches Err(e) ==> (e is EngineUnavailable || e is EngineProtocol
            || e is EngineExecution),
{
    let body = encode_image_request(image_data, languages, detail, gpu);
    let url = server_url.clone().concat("/api/v1/ocr");
    match http_post(&url, &body) {
        Err(e) => {
            let mut out: Vec<char> = Vec::new();
            append_str(&mut out, "Failed to connect to server at ");
            append_str(&mut out, server_url.as_str());
            append_str(&mut out, ": ");
            append_str(&mut out, e.as_str());
            Err(OcrError::EngineUnavailable(string_from_chars(&out)))
        },
        Ok((status, text)) => {
            let r = decode_ocr_response(status, &text);
            proof {
                if r is Ok {
                    assert(sp_envelope_doc(text@) == Some(region_views(r->Ok_0@)));
                }
            }
            r
        },
    }
}

/// Whether a probe's outcome counts as healthy: an answer came and its
/// status is 2xx.
pub fn health_of(status: Option<u16>) -> (r: bool)
    ensures
        r == (status matches Some(s) && 200 <= s < 300),
{
    match status {
        Some(s) => 200 <= s && s < 300,
        None => false,
    }
}

/// Probes the server's health endpoint.  This never raises: a refused
/// connection, like any transport failure, is simply an unhealthy answer.
pub fn check_server_health(server_url: &String) -> (r: Result<bool, OcrError>)
    ensures
        r is Ok,
{
    let url = server_url.clone().concat("/api/v1/health");
    let st = http_get(&url);
    Ok(health_of(st))
}

/// The comma-joined language list handed to the bridge process.
pub open spec fn csv_of(ls: Seq<Seq<char>>) -> Seq<char>
    decreases ls.len(),
{
    if ls.len() == 0 {
        Seq::empty()
    } else if ls.len() == 1 {
        ls[0]
    } else {
        csv_of(ls.drop_last()) + seq![','] + ls.last()
    }
}

/// Builds the bridge process's argument list:
/// `--languages <csv> --image <path> --gpu <true|false> --detail <0|1>`.
#[verifier::loop_isolation(false)]
pub fn bridge_args(languages: &Vec<String>, image_path: &String, gpu: bool, detail: i32) -> (r:
    Vec<String>)
    ensures
        r@.len() == 8,
        r@[0]@ == "--languages"@,
        r@[1]@ == csv_of(lang_views(languages@)),
        r@[2]@ == "--image"@,
        r@[3] == image_path,
        r@[4]@ == "--gpu"@,
        r@[5]@ == (if gpu {
            "true"@
        } else {
            "false"@
        }),
        r@[6]@ == "--detail"@,
        r@[7]@ == dec_int_of(detail as int),
{
    let ghost ls = lang_views(languages@);
    let mut csv: Vec<char> = Vec::new();
    let mut i: usize = 0;
    while i < languages.len()
        invariant
            i <= languages@.len(),
            ls.len() == languages@.len(),
            csv@ == csv_of(ls.take(i as int)),
        decreases languages@.len() - i,
    {
        if i > 0 {
            csv.push(',');
        }
        append_str(&mut csv, languages[i].as_str());
        proof {
            assert(ls.take(i + 1).drop_last() =~= ls.take(i as int));
            assert(ls.take(i + 1).last() == ls[i as int]);
            assert(ls[i as int] == languages@[i as int]@);
            if i == 0 {
                assert(csv@ =~= csv_of(ls.take(1)));
            } else {
                assert(csv@ =~= csv_of(ls.take(i as int)) + seq![','] + ls[i as int]);
            }
        }
        i += 1;
    }
    proof {
        assert(ls.take(ls.len() as int) =~= ls);
    }
    let mut detail_text: Vec<char> = Vec::new();
    append_i32_dec(&mut detail_text, detail);
    let mut args: Vec<String> = Vec::new();
    args.push(String::from_str("--languages"));
    args.push(string_from_chars(&csv));
    args.push(String::from_str("--image"));
    args.push(image_path.clone());
    args.push(String::from_str("--gpu"));
    if gpu {
        args.push(String::from_str("true"));
    } else {
        args.push(String::from_str("false"));
    }
    args.push(String::from_str("--detail"));
    args.push(string_from_chars(&detail_text));
    args
}

/// The message reported when the bridge process exits non-zero.
pub open spec fn bridge_error_msg(stderr: Seq<char>) -> Seq<char> {
    "OCR processing failed: "@ + stderr
}

/// Decodes a bridge run from its exit success, captured standard output and
/// captured standard error: a failed exit is an execution error carrying
/// the standard-error text; otherwise the output must be a region array.
pub fn decode_bridge_output(status_success: bool, stdout: &String, stderr: &String) -> (r: Result<
    Vec<OcrResult>,
    OcrError,
>)
    ensures
        (status_success && sp_regions_doc(stdout@) is Some) ==> (r matches Ok(v)
            && sp_regions_doc(stdout@) == Some(region_views(v@))),
        (status_success && sp_regions_doc(stdout@) is None) ==> (r matches Err(e)
            && e matches OcrError::EngineProtocol(_)),
        !status_success ==> (r matches Err(e) && e matches OcrError::EngineExecution(m) && m@
            == bridge_error_msg(stderr@)),
{
    if !status_success {
        let mut out: Vec<char> = Vec::new();
        append_str(&mut out, "OCR processing failed: ");
        append_str(&mut out, stderr.as_str());
        return Err(OcrError::EngineExecution(string_from_chars(&out)));
    }
    match parse_regions(stdout.as_str()) {
        Some(v) => Ok(v),
        None => Err(
            OcrError::EngineProtocol(
                String::from_str("Failed to parse OCR results from Python bridge"),
            ),
        ),
    }
}

} // verus!
