use vstd::prelude::*;

use crate::config;
use crate::detector::{Judgement, VadDetector, VadRate, new_vad, vad_is_voice_segment};
use crate::frames::{FrameBuffer, frame_of};

verus! {

/// Samples in one frame handed to the detector: 30 ms at 16 kHz.
pub const FRAME_SAMPLES: usize = 480;

/// Length of one frame in milliseconds.
pub const FRAME_MS: u32 = 30;

/// How strictly the detector reports speech, from least to most strict.
#[derive(Debug, Clone, Copy, PartialEq, Eq, Structural)]
pub enum VadLevel {
    Quality,
    LowBitrate,
    Aggressive,
    VeryAggressive,
}

/// The detector mode for an aggressiveness level: 0 to 2 by name, anything
/// higher is the strictest mode.
pub open spec fn level_for(level: u8) -> VadLevel {
    if level == 0 {
        VadLevel::Quality
    } else if level == 1 {
        VadLevel::LowBitrate
    } else if level == 2 {
        VadLevel::Aggressive
    } else {
        VadLevel::VeryAggressive
    }
}

impl VadLevel {
    pub fn from_aggressiveness(level: u8) -> (r: VadLevel)
        ensures
            r == level_for(level),
    {
        match level {
            0 => VadLevel::Quality,
            1 => VadLevel::LowBitrate,
            2 => VadLevel::Aggressive,
            _ => VadLevel::VeryAggressive,
        }
    }
}

/// The speech verdict of one frame: a detector error counts as silence.
pub fn speech_verdict(r: Result<bool, ()>) -> (b: bool)
    ensures
        b == (r == Ok::<bool, ()>(true)),
{
    match r {
        Ok(b) => b,
        Err(_) => false,
    }
}

/// The WebRTC voice-activity detector behind a buffer that cuts the
/// incoming samples into whole frames.
pub struct WebRtcVad {
    inner: VadDetector,
    buf: FrameBuffer,
}

impl WebRtcVad {
    /// The samples received but not yet judged (less than one frame).
    pub closed spec fn pending(&self) -> Seq<i16> {
        self.buf.pending()
    }

    /// The mode the detector was created in.
    pub closed spec fn level(&self) -> VadLevel {
        self.inner.mode()
    }

    /// The sample rate the detector was created with.
    pub closed spec fn rate(&self) -> VadRate {
        self.inner.rate()
    }

    /// Every frame the detector judged so far, with its answer, oldest
    /// first, as the detector's calls record them.
    pub closed spec fn judged(&self) -> Seq<Judgement> {
        self.inner.calls()
    }

    /// A detector with the configured aggressiveness.
    pub fn new() -> (v: Self)
        ensures
            v.pending() == Seq::<i16>::empty(),
            v.level() == level_for(config::VAD_AGGRESSIVENESS),
            v.rate() == VadRate::Rate16kHz,
            v.judged() == Seq::<Judgement>::empty(),
    {
        Self::with_aggressiveness(config::VAD_AGGRESSIVENESS)
    }

    /// A detector created at 16 kHz in mode `level_for(level)`, with an empty
    /// buffer.
    pub fn with_aggressiveness(level: u8) -> (v: Self)
        ensures
            v.pending() == Seq::<i16>::empty(),
            v.level() == level_for(level),
            v.rate() == VadRate::Rate16kHz,
            v.judged() == Seq::<Judgement>::empty(),
    {
        let mode = VadLevel::from_aggressiveness(level);
        WebRtcVad {
            inner: new_vad(VadRate::Rate16kHz, mode),
            buf: FrameBuffer::with_capacity(FRAME_SAMPLES * 2),
        }
    }

    /// Buffers the samples and hands every whole frame now available to the
    /// detector, in order; returns each frame's verdict (an error counts as
    /// silence). The rest stays buffered.
    pub fn push_samples(&mut self, samples: &[i16]) -> (out: Vec<bool>)
        ensures
            ({
                let all = old(self).pending() + samples@;
                let before = old(self).judged().len();
                &&& out@.len() == all.len() as int / (FRAME_SAMPLES as int)
                &&& final(self).pending() == all.skip(out@.len() * FRAME_SAMPLES)
                &&& final(self).pending().len() < FRAME_SAMPLES
                &&& out@.len() * FRAME_SAMPLES + final(self).pending().len() == all.len()
                &&& final(self).judged().len() == before + out@.len()
                &&& final(self).judged().take(before as int) == old(self).judged()
                &&& forall|i: int|
                    0 <= i < out@.len() ==> {
                        &&& (#[trigger] final(self).judged()[before + i]).frame == frame_of(
                            all,
                            FRAME_SAMPLES as nat,
                            i,
                        )
                        &&& out@[i] == (final(self).judged()[before + i].answer == Ok::<
                            bool,
                            (),
                        >(true))
                    }
            }),
            final(self).level() == old(self).level(),
            final(self).rate() == old(self).rate(),
    {
        let ghost all = self.buf.pending() + samples@;
        let ghost before = self.inner.calls().len();
        let frames = self.buf.push(samples, FRAME_SAMPLES);
        let ghost pend = self.buf.pending();
        let mut out: Vec<bool> = Vec::new();
        let mut i: usize = 0;
        assert(self.inner.calls().take(before as int) =~= old(self).inner.calls());
        while i < frames.len()
            invariant
                i <= frames@.len(),
                self.buf.pending() == pend,
                frames@.len() == all.len() as int / (FRAME_SAMPLES as int),
                pend == all.skip(frames@.len() * FRAME_SAMPLES),
                pend.len() < FRAME_SAMPLES,
                frames@.len() * FRAME_SAMPLES + pend.len() == all.len(),
                out@.len() == i,
                self.inner.calls().len() == before + i,
                self.inner.calls().take(before as int) == old(self).inner.calls(),
                self.inner.mode() == old(self).inner.mode(),
                self.inner.rate() == old(self).inner.rate(),
                forall|j: int|
                    0 <= j < frames@.len() ==> #[trigger] frames@[j]@ == frame_of(
                        all,
                        FRAME_SAMPLES as nat,
                        j,
                    ),
                forall|j: int|
                    0 <= j < i ==> {
                        &&& (#[trigger] self.inner.calls()[before + j]).frame == frames@[j]@
                        &&& out@[j] == (self.inner.calls()[before + j].answer == Ok::<bool, ()>(
                            true,
                        ))
                    },
            decreases frames@.len() - i,
        {
            let frame = frames[i].as_slice();
            assert(frame@.len() == FRAME_SAMPLES) by {
                assert(frames@[i as int]@ == frame_of(all, FRAME_SAMPLES as nat, i as int));
                assert(i * 480 + 480 <= frames@.len() * 480) by (nonlinear_arith)
                    requires
                        i < frames@.len(),
                ;
            }
            let ghost prev = self.inner.calls();
            let r = vad_is_voice_segment(&mut self.inner, frame);
            assert(self.inner.calls().take(before as int) =~= prev.take(before as int));
            out.push(speech_verdict(r));
            i = i + 1;
        }
        out
    }

    /// Drops the buffered samples.
    pub fn reset(&mut self)
        ensures
            final(self).pending() == Seq::<i16>::empty(),
            final(self).level() == old(self).level(),
            final(self).rate() == old(self).rate(),
            final(self).judged() == old(self).judged(),
    {
        self.buf.clear();
    }
}

impl Default for WebRtcVad {
    fn default() -> (v: Self)
        ensures
            v.pending() == Seq::<i16>::empty(),
            v.level() == level_for(config::VAD_AGGRESSIVENESS),
            v.rate() == VadRate::Rate16kHz,
            v.judged() == Seq::<Judgement>::empty(),
    {
        Self::new()
    }
}

} // verus!
