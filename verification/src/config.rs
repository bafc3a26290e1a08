use vstd::prelude::*;

use crate::audio::{NoiseSuppressionBackend, VadBackend};

verus! {

/// Silence, in milliseconds, after which a spoken command counts as finished.
pub const VAD_COMMAND_END_SILENCE_MS: u32 = 1200;

/// Speech, in milliseconds, that a command needs before silence may close it.
pub const VAD_COMMAND_MIN_SPEECH_MS: u32 = 500;

/// Time, in milliseconds, during which the window never closes on silence.
pub const VAD_COMMAND_MIN_LISTEN_MS: u32 = 1000;

/// Time, in milliseconds, after which the window is closed unconditionally.
pub const VAD_COMMAND_MAX_LISTEN_MS: u32 = 15000;

/// Aggressiveness of the WebRTC detector, from 0 (least) to 3 (most strict).
pub const VAD_AGGRESSIVENESS: u8 = 2;

/// Noise suppressor used when no settings are stored.
pub const DEFAULT_NOISE_SUPPRESSION: NoiseSuppressionBackend = NoiseSuppressionBackend::Disabled;

/// Voice-activity detector used when no settings are stored.
pub const DEFAULT_VAD: VadBackend = VadBackend::Energy;

/// Whether gain normalisation runs when no settings are stored.
pub const DEFAULT_GAIN_NORMALIZER: bool = false;

} // verus!
