// Batch and parallel orchestration, and the health probe.

use rustocr::batch::process_batch;
use rustocr::client::check_server_health;
use rustocr::parallel::{process_images_parallel, process_images_parallel_with_progress,
    ParallelConfig};
use rustocr::OcrResult;
use std::sync::atomic::{AtomicUsize, Ordering};
use std::time::{Duration, Instant};

// A batch of three files where the second fails: all three outcomes come
// back, in order, without aborting early.
#[test]
fn test_batch_continues_after_failure() {
    let files = vec!["a.png".to_string(), "b.png".to_string(), "c.png".to_string()];
    let client = |p: &String| -> Result<Vec<OcrResult>, String> {
        if p == "b.png" {
            Err("engine failed".to_string())
        } else {
            Ok(vec![OcrResult {
                bbox: vec![],
                text: format!("text of {}", p),
                confidence_milli: 0,
            }])
        }
    };
    let observer = |_i: usize, _n: usize, _f: &String| {};
    let outcomes = process_batch(&files, client, observer);
    assert_eq!(outcomes.len(), 3);

    assert_eq!(outcomes[0].file, "a.png");
    assert!(outcomes[0].success);
    assert!(outcomes[0].results.is_some());
    assert!(outcomes[0].error.is_none());

    assert_eq!(outcomes[1].file, "b.png");
    assert!(!outcomes[1].success);
    assert!(outcomes[1].results.is_none());
    assert_eq!(outcomes[1].error.as_deref(), Some("engine failed"));

    assert_eq!(outcomes[2].file, "c.png");
    assert!(outcomes[2].success);
    assert_eq!(outcomes[2].results.as_ref().unwrap()[0].text, "text of c.png");
    assert!(outcomes[2].error.is_none());
}

#[test]
fn test_batch_observer_sees_every_item() {
    let files = vec!["x".to_string(), "y".to_string()];
    let seen = AtomicUsize::new(0);
    let client = |_p: &String| -> Result<Vec<OcrResult>, String> { Ok(vec![]) };
    let observer = |_i: usize, _n: usize, _f: &String| {
        seen.fetch_add(1, Ordering::SeqCst);
    };
    let outcomes = process_batch(&files, client, &observer);
    assert_eq!(outcomes.len(), 2);
    assert_eq!(seen.load(Ordering::SeqCst), 2);
}

// The parallel output is index-aligned with the input even when earlier
// items take much longer than later ones.
#[test]
fn test_parallel_order_is_input_order() {
    let images: Vec<String> = vec![
        "30".to_string(),
        "20".to_string(),
        "10".to_string(),
        "0".to_string(),
    ];
    let processor = |p: &String| -> Result<String, String> {
        let ms: u64 = p.parse().unwrap();
        let start = Instant::now();
        while start.elapsed() < Duration::from_millis(ms) {}
        Ok(format!("done-{}", p))
    };
    let out = process_images_parallel(images.clone(), ParallelConfig::default(), processor);
    assert_eq!(out.len(), 4);
    assert_eq!(out[0].as_ref().unwrap(), "done-30");
    assert_eq!(out[1].as_ref().unwrap(), "done-20");
    assert_eq!(out[2].as_ref().unwrap(), "done-10");
    assert_eq!(out[3].as_ref().unwrap(), "done-0");
}

#[test]
fn test_parallel_with_progress_counts_every_item() {
    let images: Vec<String> = vec!["a".to_string(), "b".to_string(), "c".to_string()];
    let done = AtomicUsize::new(0);
    let processor = |p: &String| -> Result<String, String> {
        if p == "b" {
            Err("bad".to_string())
        } else {
            Ok(p.clone())
        }
    };
    let progress = |_i: usize| {
        done.fetch_add(1, Ordering::SeqCst);
    };
    let out = process_images_parallel_with_progress(
        images,
        ParallelConfig::default(),
        processor,
        progress,
    );
    assert_eq!(out.len(), 3);
    assert_eq!(out[0].as_ref().unwrap(), "a");
    assert_eq!(out[1].as_ref().err().unwrap(), "bad");
    assert_eq!(out[2].as_ref().unwrap(), "c");
    assert_eq!(done.load(Ordering::SeqCst), 3);
}

// The health probe never raises: a host that refuses connections is simply
// reported unhealthy.
#[test]
fn test_health_check_refused_connection_is_false() {
    let r = check_server_health(&"http://127.0.0.1:9".to_string());
    assert_eq!(r.ok(), Some(false));
}
