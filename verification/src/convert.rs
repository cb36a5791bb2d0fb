//! Per-file conversion outcomes.
//!
//! The conversion of one file is a pipeline: map the output path, create
//! its parent directory, measure the input, decode it, encode it, write
//! the output.  Each step can short-circuit into a failed result carrying
//! a message that names the step; a success carries the sizes and the
//! savings.  Decoding works on in-memory bytes and stands here behind a
//! trusted interface to the image decoder; the filesystem steps and the
//! encoder are the callers' affair, and the constructors below pin down
//! the result either way.

use vstd::prelude::*;
use vstd::string::*;
use crate::stats::{ConversionResult, savings_centi, savings_centi_spec};

verus! {

#[verifier::external_type_specification]
#[verifier::external_body]
pub struct ExDynamicImage(image::DynamicImage);

#[verifier::external_type_specification]
#[verifier::external_body]
pub struct ExImageError(image::ImageError);

/// Whether the image decoder accepts `bytes` as an encoded image.  The
/// decoder's verdict depends on the bytes alone, so one byte sequence
/// decodes the same way in every run — which the idempotent re-run story
/// relies on.  Which byte sequences are accepted is the decoder's own
/// affair and is left unstated.
pub uninterp spec fn decode_verdict(bytes: Seq<u8>) -> bool;

/// Relies on `image::load_from_memory`: decodes an in-memory encoded
/// image, guessing the format from the content.  The decoder is a pure
/// function of the buffer, so its verdict is `decode_verdict`; beyond
/// that nothing is assumed of the outcome.
pub assume_specification [ image::load_from_memory ](buffer: &[u8]) -> (r: Result<
    image::DynamicImage,
    image::ImageError,
>)
    ensures
        r is Ok <==> decode_verdict(buffer@),
;

/// Relies on `ImageError`'s `Display` implementation, through
/// `ToString`: the human-readable description of a decode failure.
#[verifier::external_body]
fn image_error_message(e: &image::ImageError) -> (r: String) {
    e.to_string()
}

/// Decode an in-memory encoded image.  The call succeeds exactly when
/// the decoder's verdict on these bytes is yes — a corrupt input fails
/// here, a valid one passes on, and the rest of the pipeline is
/// specified for either case.
pub fn decode_image(bytes: &[u8]) -> (r: Result<image::DynamicImage, String>)
    ensures
        r is Ok <==> decode_verdict(bytes@),
{
    match image::load_from_memory(bytes) {
        Ok(img) => Ok(img),
        Err(e) => Err(image_error_message(&e)),
    }
}

/// The pipeline step at which a conversion failed.
pub enum FailStage {
    /// Creating the output path's parent directory.
    CreateDir,
    /// Measuring the input file.
    Stat,
    /// Reading and decoding the input.
    Decode,
    /// Constructing the encoder for the decoded image.
    Encoder,
    /// Writing the encoded bytes to the output path.
    Write,
}

/// The message prefix that names the failed step.
pub open spec fn stage_prefix_spec(stage: FailStage) -> Seq<char> {
    match stage {
        FailStage::CreateDir => "Failed to create output dir: "@,
        FailStage::Stat => "Cannot stat input: "@,
        FailStage::Decode => "Failed to load image: "@,
        FailStage::Encoder => "Failed to create encoder: "@,
        FailStage::Write => "Failed to write output: "@,
    }
}

fn stage_prefix(stage: &FailStage) -> (r: &'static str)
    ensures
        r@ == stage_prefix_spec(*stage),
{
    match stage {
        FailStage::CreateDir => "Failed to create output dir: ",
        FailStage::Stat => "Cannot stat input: ",
        FailStage::Decode => "Failed to load image: ",
        FailStage::Encoder => "Failed to create encoder: ",
        FailStage::Write => "Failed to write output: ",
    }
}

/// The failed result of one task: no success, a message naming the failed
/// step with its cause, the input size as far as it was measured, and no
/// output bytes or savings.  The input and output paths are populated
/// even on failure.
pub fn failed_result(
    input: String,
    output: String,
    original_size: u64,
    stage: FailStage,
    detail: String,
) -> (r: ConversionResult)
    ensures
        r.input@ == input@,
        r.output@ == output@,
        !r.success,
        r.message@ == stage_prefix_spec(stage) + detail@,
        r.original_size == original_size,
        r.new_size == 0,
        r.savings_centi == 0,
{
    let message = String::from_str(stage_prefix(&stage)).concat(detail.as_str());
    ConversionResult {
        input,
        output,
        success: false,
        message,
        original_size,
        new_size: 0,
        savings_centi: 0,
    }
}

/// The successful result of one task: both sizes and the savings they
/// yield.
pub fn success_result(input: String, output: String, original_size: u64, new_size: u64) -> (r:
    ConversionResult)
    ensures
        r.input@ == input@,
        r.output@ == output@,
        r.success,
        r.message@ == "Converted successfully"@,
        r.original_size == original_size,
        r.new_size == new_size,
        r.savings_centi as int == savings_centi_spec(original_size, new_size),
        i128::MIN < r.savings_centi <= 10000,
{
    let savings = savings_centi(original_size, new_size);
    ConversionResult {
        input,
        output,
        success: true,
        message: String::from_str("Converted successfully"),
        original_size,
        new_size,
        savings_centi: savings,
    }
}

} // verus!
