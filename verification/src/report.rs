//! Progress and summary formatting.
//!
//! Byte sizes are shown with two decimal places and a unit, durations as
//! milliseconds, seconds, or minutes and seconds, and percentages with two
//! decimal places.  All values are formatted from integers; fractional
//! digits come from exact integer rounding with ties upward.

use vstd::prelude::*;
use vstd::string::*;
use crate::paths::file_name_spec;
use crate::paths::file_name_of;
use crate::stats::round_half_up;
use crate::stats::{savings_centi, savings_centi_spec, RunStats};
use crate::stats::ConversionResult;

verus! {

/// The decimal digit `d` as a character.
pub open spec fn digit_char(d: int) -> char {
    if d == 0 {
        '0'
    } else if d == 1 {
        '1'
    } else if d == 2 {
        '2'
    } else if d == 3 {
        '3'
    } else if d == 4 {
        '4'
    } else if d == 5 {
        '5'
    } else if d == 6 {
        '6'
    } else if d == 7 {
        '7'
    } else if d == 8 {
        '8'
    } else {
        '9'
    }
}

/// The decimal digits of `n`, most significant first, without leading
/// zeros (a single zero for `n == 0`).
pub open spec fn dec_spec(n: nat) -> Seq<char>
    decreases n,
{
    if n < 10 {
        seq![digit_char(n as int)]
    } else {
        dec_spec(n / 10).push(digit_char((n % 10) as int))
    }
}

/// The decimal digit `d` as a one-character string.
fn digit_str(d: u128) -> (r: &'static str)
    requires
        d < 10,
    ensures
        r@ == seq![digit_char(d as int)],
{
    if d == 0 {
        proof {
            reveal_strlit("0");
            assert("0"@ =~= seq![digit_char(0)]);
        }
        "0"
    } else if d == 1 {
        proof {
            reveal_strlit("1");
            assert("1"@ =~= seq![digit_char(1)]);
        }
        "1"
    } else if d == 2 {
        proof {
            reveal_strlit("2");
            assert("2"@ =~= seq![digit_char(2)]);
        }
        "2"
    } else if d == 3 {
        proof {
            reveal_strlit("3");
            assert("3"@ =~= seq![digit_char(3)]);
        }
        "3"
    } else if d == 4 {
        proof {
            reveal_strlit("4");
            assert("4"@ =~= seq![digit_char(4)]);
        }
        "4"
    } else if d == 5 {
        proof {
            reveal_strlit("5");
            assert("5"@ =~= seq![digit_char(5)]);
        }
        "5"
    } else if d == 6 {
        proof {
            reveal_strlit("6");
            assert("6"@ =~= seq![digit_char(6)]);
        }
        "6"
    } else if d == 7 {
        proof {
            reveal_strlit("7");
            assert("7"@ =~= seq![digit_char(7)]);
        }
        "7"
    } else if d == 8 {
        proof {
            reveal_strlit("8");
            assert("8"@ =~= seq![digit_char(8)]);
        }
        "8"
    } else {
        proof {
            reveal_strlit("9");
            assert("9"@ =~= seq![digit_char(9)]);
        }
        "9"
    }
}

/// `n` in decimal.
pub fn u128_to_string(n: u128) -> (r: String)
    ensures
        r@ == dec_spec(n as nat),
    decreases n,
{
    if n < 10 {
        String::from_str(digit_str(n))
    } else {
        let r = u128_to_string(n / 10).concat(digit_str(n % 10));
        proof {
            assert(r@ =~= dec_spec(n as nat));
        }
        r
    }
}

/// `n` in decimal.
pub fn u64_to_string(n: u64) -> (r: String)
    ensures
        r@ == dec_spec(n as nat),
{
    u128_to_string(n as u128)
}

/// The unit a byte count is shown in.
pub open spec fn byte_unit_spec(bytes: u64) -> Seq<char> {
    if bytes < 1024 {
        "B"@
    } else if bytes < 1048576 {
        "KB"@
    } else if bytes < 1073741824 {
        "MB"@
    } else {
        "GB"@
    }
}

/// The divisor that scales a byte count into its unit.
pub open spec fn byte_divisor_spec(bytes: u64) -> int {
    if bytes < 1024 {
        1
    } else if bytes < 1048576 {
        1024
    } else if bytes < 1073741824 {
        1048576
    } else {
        1073741824
    }
}

/// A hundredth-valued quantity with two decimal places: `centi / 100`
/// followed by the two fractional digits.
pub open spec fn two_places_spec(centi: nat) -> Seq<char> {
    dec_spec(centi / 100) + "."@ + seq![
        digit_char(((centi % 100) / 10) as int),
        digit_char((centi % 10) as int),
    ]
}

/// A byte count scaled into its unit, with two decimal places (ties
/// rounded upward) and the unit name.
pub open spec fn format_bytes_spec(bytes: u64) -> Seq<char> {
    let centi = round_half_up(bytes * 100, byte_divisor_spec(bytes));
    two_places_spec(centi as nat) + " "@ + byte_unit_spec(bytes)
}

/// A hundredth-valued quantity with two decimal places.
fn two_places(centi: u128) -> (r: String)
    ensures
        r@ == two_places_spec(centi as nat),
{
    let whole = u128_to_string(centi / 100);
    let d1 = digit_str((centi % 100) / 10);
    let d2 = digit_str(centi % 10);
    let r = whole.concat(".").concat(d1).concat(d2);
    proof {
        reveal_strlit(".");
        assert(r@ =~= two_places_spec(centi as nat));
    }
    r
}

/// A byte count scaled into its unit, per `format_bytes_spec`.
pub fn format_bytes(bytes: u64) -> (r: String)
    ensures
        r@ == format_bytes_spec(bytes),
{
    let n: u128 = bytes as u128 * 100;
    let (d, unit): (u128, &'static str) = if bytes < 1024 {
        (1, "B")
    } else if bytes < 1048576 {
        (1024, "KB")
    } else if bytes < 1073741824 {
        (1048576, "MB")
    } else {
        (1073741824, "GB")
    };
    let centi: u128 = (2 * n + d) / (2 * d);
    proof {
        assert(unit@ == byte_unit_spec(bytes));
        assert(d == byte_divisor_spec(bytes));
        assert((2 * n + d) as int / (2 * d) as int == round_half_up(n as int, d as int));
    }
    let r = two_places(centi).concat(" ").concat(unit);
    proof {
        reveal_strlit(" ");
        assert(r@ =~= format_bytes_spec(bytes));
    }
    r
}

/// An elapsed time in milliseconds, shown as milliseconds under one
/// second, as seconds with one decimal place (ties rounded upward) under
/// one minute, and as minutes and seconds from one minute on.
pub open spec fn format_duration_spec(millis: u64) -> Seq<char> {
    if millis < 1000 {
        dec_spec(millis as nat) + "ms"@
    } else {
        let minutes = millis / 60000;
        let deci = ((millis % 60000) + 50) / 100;
        let tail = dec_spec((deci / 10) as nat) + "."@ + seq![digit_char((deci % 10) as int)]
            + "s"@;
        if minutes > 0 {
            dec_spec(minutes as nat) + "m "@ + tail
        } else {
            tail
        }
    }
}

/// An elapsed time in milliseconds, per `format_duration_spec`.
pub fn format_duration(millis: u64) -> (r: String)
    ensures
        r@ == format_duration_spec(millis),
{
    if millis < 1000 {
        let r = u64_to_string(millis).concat("ms");
        proof {
            assert(r@ =~= format_duration_spec(millis));
        }
        r
    } else {
        let minutes = millis / 60000;
        let deci = ((millis % 60000) + 50) / 100;
        let tail = u64_to_string(deci / 10).concat(".").concat(digit_str((deci % 10) as u128)).concat("s");
        proof {
            reveal_strlit(".");
        }
        if minutes > 0 {
            let r = u64_to_string(minutes).concat("m ").concat(tail.as_str());
            proof {
                assert(r@ =~= format_duration_spec(millis));
            }
            r
        } else {
            proof {
                assert(tail@ =~= format_duration_spec(millis));
            }
            tail
        }
    }
}

/// A savings value in hundredths of a percent, with two decimal places
/// and a leading minus sign when negative.
pub open spec fn format_centi_signed_spec(centi: int) -> Seq<char> {
    if centi < 0 {
        "-"@ + two_places_spec((-centi) as nat)
    } else {
        two_places_spec(centi as nat)
    }
}

/// A savings value in hundredths of a percent, per
/// `format_centi_signed_spec`.
pub fn format_centi_signed(centi: i128) -> (r: String)
    requires
        centi > i128::MIN,
    ensures
        r@ == format_centi_signed_spec(centi as int),
{
    if centi < 0 {
        let m: u128 = (-centi) as u128;
        let r = String::from_str("-").concat(two_places(m).as_str());
        proof {
            assert(r@ =~= format_centi_signed_spec(centi as int));
        }
        r
    } else {
        two_places(centi as u128)
    }
}

/// The final summary, one line per entry: a banner, the counts, on any
/// success the byte totals with the overall savings (same zero-guard as
/// per file), and the wall-clock data.
pub open spec fn summary_lines_spec(
    stats: RunStats,
    total_files: u64,
    start_time: Seq<char>,
    end_time: Seq<char>,
    elapsed_millis: u64,
    output_dir: Seq<char>,
) -> Seq<Seq<char>> {
    let head = seq![
        "=================================================="@,
        "CONVERSION SUMMARY"@,
        "=================================================="@,
        "  • Total files:      "@ + dec_spec(total_files as nat),
        "  • Successful:       "@ + dec_spec(stats.success_count as nat),
        "  • Failed:           "@ + dec_spec(stats.failure_count as nat),
    ];
    let sizes = if stats.success_count > 0 {
        seq![
            "  • Original size:    "@ + format_bytes_spec(stats.total_original_bytes),
            "  • New size:         "@ + format_bytes_spec(stats.total_new_bytes),
            "  • Total savings:    "@ + format_centi_signed_spec(
                savings_centi_spec(stats.total_original_bytes, stats.total_new_bytes),
            ) + "%"@,
        ]
    } else {
        Seq::empty()
    };
    let tail = seq![
        "  • Start time:       "@ + start_time,
        "  • End time:         "@ + end_time,
        "  • Time elapsed:     "@ + format_duration_spec(elapsed_millis),
        ""@,
        "Output directory: "@ + output_dir,
    ];
    head + sizes + tail
}

/// The final summary, built purely from the run statistics, per
/// `summary_lines_spec`.
pub fn summary_lines(
    stats: &RunStats,
    total_files: u64,
    start_time: &str,
    end_time: &str,
    elapsed_millis: u64,
    output_dir: &str,
) -> (r: Vec<String>)
    ensures
        r.deep_view() == summary_lines_spec(
            *stats,
            total_files,
            start_time@,
            end_time@,
            elapsed_millis,
            output_dir@,
        ),
{
    let mut r: Vec<String> = Vec::new();
    r.push(String::from_str("=================================================="));
    r.push(String::from_str("CONVERSION SUMMARY"));
    r.push(String::from_str("=================================================="));
    r.push(String::from_str("  • Total files:      ").concat(u64_to_string(total_files).as_str()));
    r.push(
        String::from_str("  • Successful:       ").concat(
            u64_to_string(stats.success_count).as_str(),
        ),
    );
    r.push(
        String::from_str("  • Failed:           ").concat(
            u64_to_string(stats.failure_count).as_str(),
        ),
    );
    if stats.success_count > 0 {
        r.push(
            String::from_str("  • Original size:    ").concat(
                format_bytes(stats.total_original_bytes).as_str(),
            ),
        );
        r.push(
            String::from_str("  • New size:         ").concat(
                format_bytes(stats.total_new_bytes).as_str(),
            ),
        );
        let savings = savings_centi(stats.total_original_bytes, stats.total_new_bytes);
        r.push(
            String::from_str("  • Total savings:    ").concat(
                format_centi_signed(savings).as_str(),
            ).concat("%"),
        );
    }
    r.push(String::from_str("  • Start time:       ").concat(start_time));
    r.push(String::from_str("  • End time:         ").concat(end_time));
    r.push(
        String::from_str("  • Time elapsed:     ").concat(
            format_duration(elapsed_millis).as_str(),
        ),
    );
    r.push(String::new());
    r.push(String::from_str("Output directory: ").concat(output_dir));
    proof {
        reveal_strlit("");
        assert(""@ =~= Seq::<char>::empty());
        assert(r.deep_view() =~~= summary_lines_spec(
            *stats,
            total_files,
            start_time@,
            end_time@,
            elapsed_millis,
            output_dir@,
        ));
    }
    r
}

/// One progress line for a completed task: the completion sequence number
/// `k` of `n`, the file name, and on success the sizes before and after
/// with the savings, on failure the message.
pub open spec fn progress_line_spec(k: u64, n: u64, res: ConversionResult) -> Seq<char> {
    let head = "["@ + dec_spec(k as nat) + "/"@ + dec_spec(n as nat) + "] "@;
    let name = file_name_spec(res.input@);
    if res.success {
        head + "✓ "@ + name + ": "@ + format_bytes_spec(res.original_size) + " → "@
            + format_bytes_spec(res.new_size) + " ("@ + format_centi_signed_spec(
            res.savings_centi as int,
        ) + "% saved)"@
    } else {
        head + "✗ "@ + name + ": "@ + res.message@
    }
}

/// One progress line for a completed task, per `progress_line_spec`.
pub fn progress_line(k: u64, n: u64, res: &ConversionResult) -> (r: String)
    requires
        res.savings_centi > i128::MIN,
    ensures
        r@ == progress_line_spec(k, n, *res),
{
    let head = String::from_str("[").concat(u64_to_string(k).as_str()).concat("/").concat(
        u64_to_string(n).as_str(),
    ).concat("] ");
    let name = file_name_of(res.input.as_str());
    let r = if res.success {
        head.concat("✓ ").concat(name.as_str()).concat(": ").concat(
            format_bytes(res.original_size).as_str(),
        ).concat(" → ").concat(format_bytes(res.new_size).as_str()).concat(" (").concat(
            format_centi_signed(res.savings_centi).as_str(),
        ).concat("% saved)")
    } else {
        head.concat("✗ ").concat(name.as_str()).concat(": ").concat(res.message.as_str())
    };
    proof {
        assert(r@ =~= progress_line_spec(k, n, *res));
    }
    r
}

} // verus!
