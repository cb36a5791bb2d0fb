use webp_batch::convert::{failed_result, success_result, FailStage};
use webp_batch::stats::{savings_centi, RunStats};

#[test]
fn savings_half_for_half_size() {
    // 1000 -> 500 bytes saves 50.00%.
    assert_eq!(savings_centi(1000, 500), 5000);
}

#[test]
fn savings_zero_for_empty_original() {
    // No division by zero: an empty original saves 0.00%.
    assert_eq!(savings_centi(0, 0), 0);
    assert_eq!(savings_centi(0, 500), 0);
}

#[test]
fn savings_rounds_to_two_places() {
    // 1/3 saved: 33.33%, rounded from 33.333...
    assert_eq!(savings_centi(3, 2), 3333);
    // 1/32 saved: 3.125%, the tie rounds away from zero.
    assert_eq!(savings_centi(32, 31), 313);
}

#[test]
fn savings_negative_when_output_grows() {
    assert_eq!(savings_centi(500, 1000), -10000);
    assert_eq!(savings_centi(1000, 1500), -5000);
}

#[test]
fn record_counts_successes_and_failures() {
    let mut stats = RunStats::new();
    let ok = success_result(
        String::from("in/a.jpg"),
        String::from("out/a.webp"),
        1000,
        500,
    );
    let bad = failed_result(
        String::from("in/b.jpg"),
        String::from("out/b.webp"),
        0,
        FailStage::Stat,
        String::from("missing"),
    );
    stats.record(&ok);
    stats.record(&bad);
    assert_eq!(stats.completed_count, 2);
    assert_eq!(stats.success_count, 1);
    assert_eq!(stats.failure_count, 1);
    assert_eq!(stats.total_original_bytes, 1000);
    assert_eq!(stats.total_new_bytes, 500);
}

#[test]
fn aggregate_is_pointwise_sum() {
    let results = vec![
        success_result(String::from("in/a.jpg"), String::from("out/a.webp"), 1000, 500),
        success_result(String::from("in/b.jpg"), String::from("out/b.webp"), 300, 200),
        failed_result(
            String::from("in/c.jpg"),
            String::from("out/c.webp"),
            77,
            FailStage::Decode,
            String::from("bad data"),
        ),
    ];
    let stats = RunStats::aggregate(&results);
    assert_eq!(stats.completed_count, 3);
    assert_eq!(stats.success_count, 2);
    assert_eq!(stats.failure_count, 1);
    assert_eq!(stats.success_count + stats.failure_count, stats.completed_count);
    assert_eq!(stats.total_original_bytes, 1300);
    assert_eq!(stats.total_new_bytes, 700);
}

#[test]
fn aggregate_of_nothing_is_zero() {
    let stats = RunStats::aggregate(&Vec::new());
    assert_eq!(stats.completed_count, 0);
    assert_eq!(stats.success_count, 0);
    assert_eq!(stats.failure_count, 0);
    assert_eq!(stats.total_original_bytes, 0);
    assert_eq!(stats.total_new_bytes, 0);
}

#[test]
fn failed_result_keeps_paths_and_stage_message() {
    let r = failed_result(
        String::from("in/c.jpg"),
        String::from("out/c.webp"),
        77,
        FailStage::Write,
        String::from("disk full"),
    );
    assert!(!r.success);
    assert_eq!(r.input, "in/c.jpg");
    assert_eq!(r.output, "out/c.webp");
    assert_eq!(r.message, "Failed to write output: disk full");
    assert_eq!(r.original_size, 77);
    assert_eq!(r.new_size, 0);
    assert_eq!(r.savings_centi, 0);
}

#[test]
fn success_result_carries_sizes_and_savings() {
    let r = success_result(String::from("in/a.jpg"), String::from("out/a.webp"), 1000, 500);
    assert!(r.success);
    assert_eq!(r.message, "Converted successfully");
    assert_eq!(r.original_size, 1000);
    assert_eq!(r.new_size, 500);
    assert_eq!(r.savings_centi, 5000);
}

#[test]
fn each_stage_has_its_own_message() {
    let cases = [
        (FailStage::CreateDir, "Failed to create output dir: e"),
        (FailStage::Stat, "Cannot stat input: e"),
        (FailStage::Decode, "Failed to load image: e"),
        (FailStage::Encoder, "Failed to create encoder: e"),
        (FailStage::Write, "Failed to write output: e"),
    ];
    for (stage, expected) in cases {
        let r = failed_result(
            String::from("i"),
            String::from("o"),
            0,
            stage,
            String::from("e"),
        );
        assert_eq!(r.message, expected);
    }
}
