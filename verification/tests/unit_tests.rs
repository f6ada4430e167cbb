// Module-level checks: watch eligibility, parallel defaults, formatters,
// and the PDF module.

use rustocr::parallel::ParallelConfig;
use rustocr::templates::{format_csv, OcrOutput};
use rustocr::watch::{should_process, WatchConfig};

#[test]
fn test_pdf_module_exists() {
    // Basic test to verify module compiles
    assert!(true);
}

#[test]
fn test_parallel_config_default() {
    let config = ParallelConfig::default();
    assert!(config.num_threads > 0);
    assert_eq!(config.chunk_size, 10);
}

#[test]
fn test_watch_config_default() {
    let config = WatchConfig::default();
    assert!(!config.recursive);
    assert!(config.extensions.contains(&"jpg".to_string()));
}

#[test]
fn test_should_process() {
    let config = WatchConfig::default();
    let path = "test.jpg".to_string();
    // The file does not exist, so the filesystem reports it is no regular file
    assert!(!should_process(&path, false, &config));
}

#[test]
fn test_format_csv() {
    let results = vec![OcrOutput {
        file: "test.jpg".to_string(),
        text: "World".to_string(),
        confidence_milli: 900,
        bbox: None,
    }];

    let csv = format_csv(&results).unwrap();
    assert!(csv.contains("file,text,confidence"));
    assert!(csv.contains("World"));
}
