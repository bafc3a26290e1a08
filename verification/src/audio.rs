use vstd::prelude::*;

use crate::config;

verus! {

/// Which noise suppressor runs on the microphone samples.
#[derive(Debug, Clone, Copy, PartialEq, Eq, Structural)]
pub enum NoiseSuppressionBackend {
    Disabled,
    Nnnoiseless,
}

/// Which voice-activity detector judges the microphone samples.
#[derive(Debug, Clone, Copy, PartialEq, Eq, Structural)]
pub enum VadBackend {
    Disabled,
    Energy,
    Nnnoiseless,
}

/// The noise-suppression stage: its backend is chosen once, by the first
/// initialisation.
pub struct NoiseSuppression {
    backend: Option<NoiseSuppressionBackend>,
}

/// The voice-activity stage: its backend is chosen once, by the first
/// initialisation.
pub struct VoiceActivity {
    backend: Option<VadBackend>,
}

/// The backends and options the audio processor was built with.
#[derive(Debug, Clone, Copy, PartialEq, Eq, Structural)]
pub struct ProcessorSettings {
    pub noise_suppression: NoiseSuppressionBackend,
    pub vad: VadBackend,
    pub gain_normalizer: bool,
}

/// The settings used when none are stored.
pub open spec fn default_settings() -> ProcessorSettings {
    ProcessorSettings {
        noise_suppression: config::DEFAULT_NOISE_SUPPRESSION,
        vad: config::DEFAULT_VAD,
        gain_normalizer: config::DEFAULT_GAIN_NORMALIZER,
    }
}

/// The settings the processor is built with: the stored ones, or the
/// configured defaults when the settings store is not available.
pub fn get_settings(stored: Option<ProcessorSettings>) -> (s: ProcessorSettings)
    ensures
        s == (match stored {
            Some(x) => x,
            None => default_settings(),
        }),
{
    match stored {
        Some(settings) => settings,
        None => ProcessorSettings {
            noise_suppression: config::DEFAULT_NOISE_SUPPRESSION,
            vad: config::DEFAULT_VAD,
            gain_normalizer: config::DEFAULT_GAIN_NORMALIZER,
        },
    }
}

/// The audio-processing pipeline: a processor built once from the settings,
/// and the stages it initialises.
pub struct AudioProcessing {
    processor: Option<ProcessorSettings>,
    noise_suppression: NoiseSuppression,
    vad: VoiceActivity,
}

/// The abstract state of the pipeline: what was chosen, if anything yet.
pub ghost struct AudioView {
    pub processor: Option<ProcessorSettings>,
    pub noise_suppression: Option<NoiseSuppressionBackend>,
    pub vad: Option<VadBackend>,
}

/// A slot that only its first assignment fills.
pub open spec fn set_once<T>(slot: Option<T>, v: T) -> Option<T> {
    match slot {
        Some(x) => Some(x),
        None => Some(v),
    }
}

/// The pipeline after an initialisation with the given settings: nothing
/// changes once the processor is built; otherwise it is built and each stage
/// gets its backend unless it already has one.
pub open spec fn init_spec(a: AudioView, settings: ProcessorSettings) -> AudioView {
    if a.processor is Some {
        a
    } else {
        AudioView {
            processor: Some(settings),
            noise_suppression: set_once(a.noise_suppression, settings.noise_suppression),
            vad: set_once(a.vad, settings.vad),
        }
    }
}

impl NoiseSuppression {
    pub closed spec fn backend_spec(&self) -> Option<NoiseSuppressionBackend> {
        self.backend
    }

    /// A stage not yet initialised.
    pub fn uninit() -> (s: Self)
        ensures
            s.backend_spec() is None,
    {
        NoiseSuppression { backend: None }
    }

    /// Chooses the backend unless one was chosen already. Without the neural
    /// suppressor built in, `Nnnoiseless` is still what gets recorded (the
    /// fallback to `Disabled` finds the slot taken).
    pub fn init(&mut self, backend: NoiseSuppressionBackend)
        ensures
            final(self).backend_spec() == set_once(old(self).backend_spec(), backend),
    {
        if self.backend.is_some() {
            return;
        }
        self.backend = Some(backend);
    }

    pub fn backend(&self) -> (r: Option<NoiseSuppressionBackend>)
        ensures
            r == self.backend_spec(),
    {
        self.backend
    }

    /// The suppressor that processes the samples: the neural one is not built
    /// in, so the pass-through suppressor runs whatever backend was chosen,
    /// and also before any was.
    pub fn suppressor_in_use(&self) -> (r: NoiseSuppressionBackend)
        ensures
            r == NoiseSuppressionBackend::Disabled,
    {
        match self.backend {
            Some(NoiseSuppressionBackend::Disabled) | None => NoiseSuppressionBackend::Disabled,
            Some(NoiseSuppressionBackend::Nnnoiseless) => NoiseSuppressionBackend::Disabled,
        }
    }

    /// Clears the suppressor's running state; without the neural suppressor
    /// built in there is none, so nothing changes.
    pub fn reset(&mut self)
        ensures
            final(self).backend_spec() == old(self).backend_spec(),
    {
    }
}

impl VoiceActivity {
    pub closed spec fn backend_spec(&self) -> Option<VadBackend> {
        self.backend
    }

    /// A stage not yet initialised.
    pub fn uninit() -> (s: Self)
        ensures
            s.backend_spec() is None,
    {
        VoiceActivity { backend: None }
    }

    /// Chooses the backend unless one was chosen already. Without the neural
    /// detector built in, `Nnnoiseless` is still what gets recorded (the
    /// fallback to `Energy` finds the slot taken).
    pub fn init(&mut self, backend: VadBackend)
        ensures
            final(self).backend_spec() == set_once(old(self).backend_spec(), backend),
    {
        if self.backend.is_some() {
            return;
        }
        self.backend = Some(backend);
    }

    pub fn backend(&self) -> (r: Option<VadBackend>)
        ensures
            r == self.backend_spec(),
    {
        self.backend
    }

    /// The detector that judges the samples: none before a backend is chosen
    /// or when it is disabled, the energy detector for `Energy`, and also for
    /// `Nnnoiseless`, since the neural detector is not built in.
    pub fn detector_in_use(&self) -> (r: VadBackend)
        ensures
            r == match self.backend_spec() {
                None => VadBackend::Disabled,
                Some(VadBackend::Disabled) => VadBackend::Disabled,
                Some(VadBackend::Energy) => VadBackend::Energy,
                Some(VadBackend::Nnnoiseless) => VadBackend::Energy,
            },
    {
        match self.backend {
            Some(VadBackend::Disabled) | None => VadBackend::Disabled,
            Some(VadBackend::Energy) => VadBackend::Energy,
            Some(VadBackend::Nnnoiseless) => VadBackend::Energy,
        }
    }

    /// Clears the detector's running state; without the neural detector built
    /// in there is none, so nothing changes.
    pub fn reset(&mut self)
        ensures
            final(self).backend_spec() == old(self).backend_spec(),
    {
    }
}

impl View for AudioProcessing {
    type V = AudioView;

    closed spec fn view(&self) -> AudioView {
        AudioView {
            processor: self.processor,
            noise_suppression: self.noise_suppression.backend,
            vad: self.vad.backend,
        }
    }
}

impl AudioProcessing {
    /// A pipeline not yet initialised.
    pub fn uninit() -> (a: Self)
        ensures
            a@ == (AudioView { processor: None, noise_suppression: None, vad: None }),
    {
        AudioProcessing {
            processor: None,
            noise_suppression: NoiseSuppression::uninit(),
            vad: VoiceActivity::uninit(),
        }
    }

    /// Builds the processor from the settings, unless it was built already:
    /// building initialises the noise-suppression and voice-activity stages
    /// with the chosen backends. Always succeeds.
    pub fn init(&mut self, settings: ProcessorSettings) -> (r: Result<(), String>)
        ensures
            r is Ok,
            final(self)@ == init_spec(old(self)@, settings),
    {
        if self.processor.is_some() {
            return Ok(());
        }
        self.noise_suppression.init(settings.noise_suppression);
        self.vad.init(settings.vad);
        self.processor = Some(settings);
        Ok(())
    }

    /// The settings the processor was built with, if it was.
    pub fn settings(&self) -> (r: Option<ProcessorSettings>)
        ensures
            r == self@.processor,
    {
        self.processor
    }

    /// Resets the running state of the stages; the chosen backends stay.
    pub fn reset(&mut self)
        ensures
            final(self)@ == old(self)@,
    {
        if self.processor.is_some() {
            self.noise_suppression.reset();
            self.vad.reset();
        }
    }
}

/// An initialisation of a pipeline not yet built builds it with exactly the
/// settings given; one of a built pipeline changes nothing.
pub proof fn lemma_init_builds_with_given_settings(a: AudioView, s: ProcessorSettings)
    ensures
        a.processor is None ==> init_spec(a, s).processor == Some(s),
        a.processor is None && a.noise_suppression is None ==> init_spec(a, s).noise_suppression
            == Some(s.noise_suppression),
        a.processor is None && a.vad is None ==> init_spec(a, s).vad == Some(s.vad),
        a.processor is Some ==> init_spec(a, s) == a,
{
}

/// The first initialisation decides: a fresh pipeline initialised with `s1`
/// and then with `s2` is the pipeline initialised with `s1` alone, which runs
/// the backends of `s1`.
pub proof fn lemma_first_init_wins(s1: ProcessorSettings, s2: ProcessorSettings)
    ensures
        ({
            let fresh = AudioView { processor: None, noise_suppression: None, vad: None };
            &&& init_spec(init_spec(fresh, s1), s2) == init_spec(fresh, s1)
            &&& init_spec(fresh, s1).processor == Some(s1)
            &&& init_spec(fresh, s1).noise_suppression == Some(s1.noise_suppression)
            &&& init_spec(fresh, s1).vad == Some(s1.vad)
        }),
{
}

} // verus!
