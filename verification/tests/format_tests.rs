// The formatters' exact output.

use rustocr::templates::{format_csv, format_markdown, format_xml, OcrOutput};

fn sample() -> Vec<OcrOutput> {
    vec![
        OcrOutput {
            file: "a.jpg".to_string(),
            text: "He said \"hi\" & left".to_string(),
            confidence_milli: 950,
            bbox: Some(vec![vec![1, 2], vec![30, 2], vec![30, 40], vec![1, 40]]),
        },
        OcrOutput {
            file: "b.jpg".to_string(),
            text: "plain".to_string(),
            confidence_milli: 0,
            bbox: None,
        },
    ]
}

#[test]
fn test_format_csv_exact() {
    let csv = format_csv(&sample()).unwrap();
    let expected = "file,text,confidence,bbox_x1,bbox_y1,bbox_x2,bbox_y2\n\"a.jpg\",\"He said \"\"hi\"\" & left\",0.95,1,2,30,40\n\"b.jpg\",\"plain\",0,,,,,\n";
    assert_eq!(csv, expected);
}

#[test]
fn test_format_csv_confidence_rendering() {
    let one = |m: u32| {
        let rows = vec![OcrOutput {
            file: "f".to_string(),
            text: "t".to_string(),
            confidence_milli: m,
            bbox: None,
        }];
        format_csv(&rows).unwrap()
    };
    assert!(one(1000).contains(",1,"));
    assert!(one(900).contains(",0.9,"));
    assert!(one(905).contains(",0.905,"));
    assert!(one(0).contains(",0,"));
}

#[test]
fn test_format_xml_exact() {
    let xml = format_xml(&sample()).unwrap();
    let expected = "<?xml version=\"1.0\" encoding=\"UTF-8\"?>\n<ocr_results>\n  <result>\n    <file>a.jpg</file>\n    <text>He said \"hi\" &amp; left</text>\n    <confidence>0.95</confidence>\n    <bbox>\n      <point1 x=\"1\" y=\"2\"/>\n      <point2 x=\"30\" y=\"2\"/>\n      <point3 x=\"30\" y=\"40\"/>\n      <point4 x=\"1\" y=\"40\"/>\n    </bbox>\n  </result>\n  <result>\n    <file>b.jpg</file>\n    <text>plain</text>\n    <confidence>0</confidence>\n  </result>\n</ocr_results>\n";
    assert_eq!(xml, expected);
}

#[test]
fn test_format_xml_escapes_markup() {
    let rows = vec![OcrOutput {
        file: "x".to_string(),
        text: "a<b>c&d".to_string(),
        confidence_milli: 500,
        bbox: None,
    }];
    let xml = format_xml(&rows).unwrap();
    assert!(xml.contains("a&lt;b&gt;c&amp;d"));
}

#[test]
fn test_format_markdown_exact() {
    let rows = vec![OcrOutput {
        file: "a.jpg".to_string(),
        text: "hello".to_string(),
        confidence_milli: 955,
        bbox: Some(vec![vec![1, 2], vec![3, 4], vec![5, 6], vec![7, 8]]),
    }];
    let md = format_markdown(&rows).unwrap();
    let expected = "# OCR Results\n\n## Result 1\n\n**File:** `a.jpg`\n\n**Text:**\n```\nhello\n```\n\n**Confidence:** 95.50%\n\n**Bounding Box:**\n- Point 1: (1, 2)\n- Point 2: (3, 4)\n- Point 3: (5, 6)\n- Point 4: (7, 8)\n\n---\n\n";
    assert_eq!(md, expected);
}
