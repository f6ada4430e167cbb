// The engine wire protocol: region parsing, envelope parsing, request
// encoding, and the two decoders' error behaviour.

use rustocr::client::{decode_bridge_output, decode_ocr_response, encode_image_request};
use rustocr::error::OcrError;
use rustocr::protocol::{parse_envelope, parse_regions};
use rustocr::simple_results;

#[test]
fn test_parse_regions_full() {
    let body = "[{\"bbox\": [[1, 2], [30, 2], [30, 40], [1, 40]], \"text\": \"Hello\", \"confidence\": 0.95}]";
    let regions = parse_regions(body).unwrap();
    assert_eq!(regions.len(), 1);
    assert_eq!(regions[0].text, "Hello");
    assert_eq!(regions[0].confidence_milli, 950);
    assert_eq!(regions[0].bbox, vec![vec![1, 2], vec![30, 2], vec![30, 40], vec![1, 40]]);
}

#[test]
fn test_parse_regions_escapes() {
    let body = "[{\"bbox\": [], \"text\": \"A\\u0042 \\n \\\"q\\\" \\u00e9 \\ud83d\\ude00\", \"confidence\": 1.0}]";
    let regions = parse_regions(body).unwrap();
    assert_eq!(regions.len(), 1);
    assert_eq!(regions[0].text, "AB \n \"q\" \u{e9} \u{1f600}");
    assert_eq!(regions[0].confidence_milli, 1000);
    assert!(regions[0].bbox.is_empty());
}

#[test]
fn test_parse_regions_empty_and_bad() {
    assert_eq!(parse_regions("[]").unwrap().len(), 0);
    assert_eq!(parse_regions(" [ ] ").unwrap().len(), 0);
    assert!(parse_regions("not json").is_none());
    assert!(parse_regions("[{\"bbox\": [], \"text\": \"x\"}]").is_none());
    // a confidence above 1.0 breaks the protocol's promised range
    assert!(parse_regions("[{\"bbox\": [], \"text\": \"x\", \"confidence\": 1.5}]").is_none());
    // trailing garbage after the array
    assert!(parse_regions("[] x").is_none());
    // a coordinate that does not fit an i32
    assert!(
        parse_regions(
            "[{\"bbox\": [[99999999999, 0]], \"text\": \"x\", \"confidence\": 0}]",
        ).is_none()
    );
}

#[test]
fn test_parse_envelope() {
    let body = "{\"status\": \"ok\", \"request_id\": \"r-1\", \"results\": [{\"bbox\": [], \"text\": \"hi\", \"confidence\": 0.5}], \"processing_time_ms\": 12.5, \"model_load_time_ms\": 1e-05}";
    let regions = parse_envelope(body).unwrap();
    assert_eq!(regions.len(), 1);
    assert_eq!(regions[0].text, "hi");
    assert_eq!(regions[0].confidence_milli, 500);

    assert!(parse_envelope("{}").is_none());
    assert!(parse_envelope("").is_none());
}

#[test]
fn test_encode_image_request() {
    let image = vec![b'a', b'b', b'c'];
    let languages = vec!["en".to_string(), "ch_sim".to_string()];
    let body = encode_image_request(&image, &languages, 1, true);
    assert_eq!(
        body,
        "{\"image\":\"YWJj\",\"languages\":[\"en\",\"ch_sim\"],\"detail\":1,\"gpu\":true}"
    );
}

#[test]
fn test_encode_image_request_escapes_language() {
    let image: Vec<u8> = vec![];
    let languages = vec!["e\"n".to_string()];
    let body = encode_image_request(&image, &languages, 0, false);
    assert_eq!(body, "{\"image\":\"\",\"languages\":[\"e\\\"n\"],\"detail\":0,\"gpu\":false}");
}

#[test]
fn test_decode_bridge_output() {
    let good = "[{\"bbox\": [], \"text\": \"ok\", \"confidence\": 0}]".to_string();
    let r = decode_bridge_output(true, &good, &String::new()).unwrap();
    assert_eq!(r[0].text, "ok");

    let failed = decode_bridge_output(false, &String::new(), &"boom".to_string());
    match failed {
        Err(OcrError::EngineExecution(m)) => assert_eq!(m, "OCR processing failed: boom"),
        _ => panic!("expected an execution error"),
    }

    let garbled = decode_bridge_output(true, &"nope".to_string(), &String::new());
    match garbled {
        Err(OcrError::EngineProtocol(_)) => {}
        _ => panic!("expected a protocol error"),
    }
}

#[test]
fn test_decode_ocr_response() {
    let env = "{\"status\": \"ok\", \"request_id\": \"x\", \"results\": [], \"processing_time_ms\": 1, \"model_load_time_ms\": 2}".to_string();
    assert_eq!(decode_ocr_response(200, &env).unwrap().len(), 0);

    match decode_ocr_response(500, &"oops".to_string()) {
        Err(OcrError::EngineExecution(m)) => {
            assert_eq!(m, "Server returned error 500: oops");
        }
        _ => panic!("expected an execution error"),
    }

    match decode_ocr_response(204, &"not the envelope".to_string()) {
        Err(OcrError::EngineProtocol(_)) => {}
        _ => panic!("expected a protocol error"),
    }
}

// At detail level 0 every region has an empty polygon and zero confidence.
#[test]
fn test_simple_results_shape() {
    let rs = simple_results(vec!["one".to_string(), "two".to_string()]);
    assert_eq!(rs.len(), 2);
    for r in &rs {
        assert!(r.bbox.is_empty());
        assert_eq!(r.confidence_milli, 0);
    }
    assert_eq!(rs[0].text, "one");
    assert_eq!(rs[1].text, "two");
}

#[test]
fn test_error_messages() {
    assert_eq!(OcrError::ConfigIo("a".to_string()).message(), "a");
    assert_eq!(OcrError::ConfigParse("b".to_string()).message(), "b");
    assert_eq!(OcrError::EngineUnavailable("c".to_string()).message(), "c");
    assert_eq!(OcrError::EngineProtocol("d".to_string()).message(), "d");
    assert_eq!(OcrError::EngineExecution("e".to_string()).message(), "e");
    assert_eq!(OcrError::Validation("f".to_string()).message(), "f");
    assert_eq!(OcrError::Filesystem("g".to_string()).message(), "g");
}
