//! The external voice-activity classifier.
//!
//! Voice-activity detection is delegated to the webrtc_vad crate.  Its
//! classifier is stateful, so nothing is assumed about its verdicts: the
//! segmenter is verified for every verdict the classifier can return.

use vstd::prelude::*;

verus! {

/// The classifier type of the webrtc_vad crate, declared so its values can
/// be owned and passed by verified code.  Values of it are opaque here.
#[verifier::external_type_specification]
#[verifier::external_body]
pub struct ExVad(webrtc_vad::Vad);

/// Relies on webrtc_vad::Vad::new_with_rate_and_mode: builds a classifier
/// for 16 kHz mono samples in aggressive mode, the rate the speech engine
/// mandates and the mode the pipeline was tuned with.
#[verifier::external_body]
pub fn vad_new_16khz_aggressive() -> webrtc_vad::Vad {
    webrtc_vad::Vad::new_with_rate_and_mode(
        webrtc_vad::SampleRate::Rate16kHz,
        webrtc_vad::VadMode::Aggressive,
    )
}

/// Relies on webrtc_vad::Vad::is_voice_segment: classifies one sub-frame as
/// voice or silence.  The verdict depends on the classifier's internal
/// state, so nothing is promised about it; a sub-frame length the classifier
/// does not support counts as silence.  The classifier reads the first
/// sample unconditionally, so the sub-frame must not be empty.
#[verifier::external_body]
pub fn vad_is_voice(vad: &mut webrtc_vad::Vad, subframe: &[i16]) -> bool
    requires
        subframe@.len() > 0,
{
    vad.is_voice_segment(subframe) == Ok(true)
}

} // verus!
