use std::io::Cursor;

use webp_batch::clamp_quality;
use webp_batch::convert::{decode_image, failed_result, success_result, FailStage};
use webp_batch::effective_workers;
use webp_batch::filter::filter_already_converted;
use webp_batch::paths::get_output_path;
use webp_batch::scan::{filter_candidates, ScanEntry};
use webp_batch::stats::RunStats;

fn entry(path: &str, is_file: bool) -> ScanEntry {
    ScanEntry { path: String::from(path), is_file }
}

/// A tree with three jpg files and one txt file: the scan finds three
/// candidates, the first run converts all three, and a second run over
/// the unchanged trees converts nothing and skips all three.
#[test]
fn two_runs_over_a_small_tree() {
    let entries = vec![
        entry("in", false),
        entry("in/a.jpg", true),
        entry("in/b.jpg", true),
        entry("in/c.jpg", true),
        entry("in/notes.txt", true),
    ];
    let candidates = filter_candidates(&entries);
    assert_eq!(candidates.len(), 3);

    let outputs: Vec<String> = candidates
        .iter()
        .map(|p| get_output_path(p, "in", "out"))
        .collect();
    assert_eq!(outputs, vec!["out/a.webp", "out/b.webp", "out/c.webp"]);

    // First run: no output exists yet.
    let exists = vec![false, false, false];
    let (to_convert, skipped) = filter_already_converted(&candidates, &exists);
    assert_eq!(to_convert.len(), 3);
    assert_eq!(skipped, 0);

    let results: Vec<_> = to_convert
        .iter()
        .enumerate()
        .map(|(i, p)| {
            success_result(
                p.clone(),
                get_output_path(p, "in", "out"),
                1000 + i as u64,
                500,
            )
        })
        .collect();
    let stats = RunStats::aggregate(&results);
    assert_eq!(stats.success_count, 3);
    assert_eq!(stats.failure_count, 0);
    assert_eq!(stats.completed_count, 3);

    // Second run: every output now exists.
    let exists = vec![true, true, true];
    let (to_convert, skipped) = filter_already_converted(&candidates, &exists);
    assert_eq!(to_convert.len(), 0);
    assert_eq!(skipped, 3);
}

/// A corrupt file with a valid extension fails at the decode step with a
/// decode-stage message, while a sibling valid file succeeds in the same
/// run.
#[test]
fn corrupt_image_fails_siblings_succeed() {
    // A valid one-pixel PNG, encoded in memory.
    let img = image::RgbImage::from_pixel(1, 1, image::Rgb([10, 20, 30]));
    let mut good_bytes: Vec<u8> = Vec::new();
    image::DynamicImage::ImageRgb8(img)
        .write_to(&mut Cursor::new(&mut good_bytes), image::ImageFormat::Png)
        .unwrap();

    let corrupt_bytes = b"this is not an image at all";

    let mut results = Vec::new();

    match decode_image(corrupt_bytes) {
        Ok(_) => panic!("corrupt bytes must not decode"),
        Err(detail) => {
            results.push(failed_result(
                String::from("in/corrupt.jpg"),
                String::from("out/corrupt.webp"),
                corrupt_bytes.len() as u64,
                FailStage::Decode,
                detail,
            ));
        }
    }

    match decode_image(&good_bytes) {
        Ok(_img) => {
            results.push(success_result(
                String::from("in/good.png"),
                String::from("out/good.webp"),
                good_bytes.len() as u64,
                40,
            ));
        }
        Err(e) => panic!("valid image must decode: {e}"),
    }

    assert!(!results[0].success);
    assert!(results[0].message.starts_with("Failed to load image: "));
    assert_eq!(results[0].original_size, corrupt_bytes.len() as u64);
    assert!(results[1].success);

    let stats = RunStats::aggregate(&results);
    assert_eq!(stats.completed_count, 2);
    assert_eq!(stats.success_count, 1);
    assert_eq!(stats.failure_count, 1);
}

#[test]
fn quality_is_clamped() {
    assert_eq!(clamp_quality(0), 1);
    assert_eq!(clamp_quality(1), 1);
    assert_eq!(clamp_quality(80), 80);
    assert_eq!(clamp_quality(100), 100);
    assert_eq!(clamp_quality(255), 100);
}

#[test]
fn worker_count_resolution() {
    assert_eq!(effective_workers(8, Some(4)), 8);
    assert_eq!(effective_workers(0, Some(4)), 4);
    assert_eq!(effective_workers(0, Some(0)), 4);
    assert_eq!(effective_workers(0, None), 4);
}
