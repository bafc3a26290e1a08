use vstd::prelude::*;

use webrtc_vad::{SampleRate, Vad, VadMode};

use crate::webrtc::VadLevel;

verus! {

#[verifier::external_type_specification]
#[verifier::external_body]
pub struct ExVad(Vad);

/// Sample rates the WebRTC detector accepts.
#[derive(Debug, Clone, Copy, PartialEq, Eq, Structural)]
pub enum VadRate {
    Rate8kHz,
    Rate16kHz,
    Rate32kHz,
    Rate48kHz,
}

/// One frame handed to the detector and the detector's answer.
pub ghost struct Judgement {
    pub frame: Seq<i16>,
    pub answer: Result<bool, ()>,
}

/// A WebRTC detector, the rate and mode it was created with, and every frame
/// it was asked about with its answer. Only the two functions below, which
/// make the calls, touch it.
pub struct VadDetector {
    vad: Vad,
    rate: VadRate,
    mode: VadLevel,
    calls: Ghost<Seq<Judgement>>,
}

impl VadDetector {
    pub closed spec fn rate(&self) -> VadRate {
        self.rate
    }

    pub closed spec fn mode(&self) -> VadLevel {
        self.mode
    }

    /// Every frame the detector judged, with its answer, oldest first.
    pub closed spec fn calls(&self) -> Seq<Judgement> {
        self.calls@
    }
}

/// `Vad::new_with_rate_and_mode`, with the rate and mode of the same names.
/// The claim: the detector is recorded with the rate and mode it was created
/// with, and has judged nothing yet. Nothing else is claimed of the detector,
/// which is opaque here.
#[verifier::external_body]
pub(crate) fn new_vad(rate: VadRate, level: VadLevel) -> (d: VadDetector)
    ensures
        d.rate() == rate,
        d.mode() == level,
        d.calls() == Seq::<Judgement>::empty(),
{
    let sample_rate = match rate {
        VadRate::Rate8kHz => SampleRate::Rate8kHz,
        VadRate::Rate16kHz => SampleRate::Rate16kHz,
        VadRate::Rate32kHz => SampleRate::Rate32kHz,
        VadRate::Rate48kHz => SampleRate::Rate48kHz,
    };
    let mode = match level {
        VadLevel::Quality => VadMode::Quality,
        VadLevel::LowBitrate => VadMode::LowBitrate,
        VadLevel::Aggressive => VadMode::Aggressive,
        VadLevel::VeryAggressive => VadMode::VeryAggressive,
    };
    let vad = Vad::new_with_rate_and_mode(sample_rate, mode);
    VadDetector { vad, rate, mode: level, calls: Ghost(Seq::empty()) }
}

/// `Vad::is_voice_segment`. The answer is left free: the detector keeps
/// state between frames, so equal frames may be judged differently. The
/// claim: this frame and its answer are added to the detector's record, and
/// the rate and mode stay. The frame must not be empty, since the method
/// reads its first sample.
#[verifier::external_body]
pub(crate) fn vad_is_voice_segment(det: &mut VadDetector, frame: &[i16]) -> (r: Result<bool, ()>)
    requires
        frame@.len() > 0,
    ensures
        final(det).calls() == old(det).calls().push(Judgement { frame: frame@, answer: r }),
        final(det).rate() == old(det).rate(),
        final(det).mode() == old(det).mode(),
{
    det.vad.is_voice_segment(frame)
}

} // verus!
