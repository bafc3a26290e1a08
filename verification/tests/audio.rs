use jarvis_core::config;
use jarvis_core::audio::{
    get_settings, AudioProcessing, NoiseSuppression, NoiseSuppressionBackend, ProcessorSettings, VadBackend,
    VoiceActivity,
};

#[test]
fn first_init_chooses_the_backends() {
    let mut a = AudioProcessing::uninit();
    assert!(a.settings().is_none());
    let s1 = ProcessorSettings {
        noise_suppression: NoiseSuppressionBackend::Nnnoiseless,
        vad: VadBackend::Energy,
        gain_normalizer: true,
    };
    let s2 = ProcessorSettings {
        noise_suppression: NoiseSuppressionBackend::Disabled,
        vad: VadBackend::Disabled,
        gain_normalizer: false,
    };
    assert!(a.init(s1).is_ok());
    assert!(a.init(s2).is_ok());
    assert_eq!(a.settings(), Some(s1));
    a.reset();
    assert_eq!(a.settings(), Some(s1));
}

#[test]
fn stages_keep_their_first_backend() {
    let mut ns = NoiseSuppression::uninit();
    assert_eq!(ns.backend(), None);
    ns.init(NoiseSuppressionBackend::Nnnoiseless);
    ns.init(NoiseSuppressionBackend::Disabled);
    ns.reset();
    assert_eq!(ns.backend(), Some(NoiseSuppressionBackend::Nnnoiseless));

    let mut vad = VoiceActivity::uninit();
    vad.init(VadBackend::Energy);
    vad.init(VadBackend::Nnnoiseless);
    vad.reset();
    assert_eq!(vad.backend(), Some(VadBackend::Energy));
}

#[test]
fn detector_in_use_follows_the_backend() {
    let mut v = VoiceActivity::uninit();
    assert_eq!(v.detector_in_use(), VadBackend::Disabled);
    v.init(VadBackend::Nnnoiseless);
    assert_eq!(v.detector_in_use(), VadBackend::Energy);
    let mut v = VoiceActivity::uninit();
    v.init(VadBackend::Energy);
    assert_eq!(v.detector_in_use(), VadBackend::Energy);
    let mut v = VoiceActivity::uninit();
    v.init(VadBackend::Disabled);
    assert_eq!(v.detector_in_use(), VadBackend::Disabled);

    let mut ns = NoiseSuppression::uninit();
    assert_eq!(ns.suppressor_in_use(), NoiseSuppressionBackend::Disabled);
    ns.init(NoiseSuppressionBackend::Nnnoiseless);
    assert_eq!(ns.suppressor_in_use(), NoiseSuppressionBackend::Disabled);
}

#[test]
fn stored_settings_win_over_defaults() {
    let stored = ProcessorSettings {
        noise_suppression: NoiseSuppressionBackend::Nnnoiseless,
        vad: VadBackend::Nnnoiseless,
        gain_normalizer: true,
    };
    assert_eq!(get_settings(Some(stored)), stored);
    assert_eq!(
        get_settings(None),
        ProcessorSettings {
            noise_suppression: config::DEFAULT_NOISE_SUPPRESSION,
            vad: config::DEFAULT_VAD,
            gain_normalizer: config::DEFAULT_GAIN_NORMALIZER,
        }
    );
}
