use jarvis_core::webrtc::{speech_verdict, VadLevel, WebRtcVad, FRAME_MS, FRAME_SAMPLES};

#[test]
fn levels_map_to_modes() {
    assert_eq!(VadLevel::from_aggressiveness(0), VadLevel::Quality);
    assert_eq!(VadLevel::from_aggressiveness(1), VadLevel::LowBitrate);
    assert_eq!(VadLevel::from_aggressiveness(2), VadLevel::Aggressive);
    assert_eq!(VadLevel::from_aggressiveness(3), VadLevel::VeryAggressive);
    assert_eq!(VadLevel::from_aggressiveness(200), VadLevel::VeryAggressive);
}

#[test]
fn frame_constants() {
    assert_eq!(FRAME_SAMPLES, 480);
    assert_eq!(FRAME_MS, 30);
}

#[test]
fn detector_errors_count_as_silence() {
    assert!(speech_verdict(Ok(true)));
    assert!(!speech_verdict(Ok(false)));
    assert!(!speech_verdict(Err(())));
}

#[test]
fn samples_are_cut_into_whole_frames() {
    let mut v = WebRtcVad::with_aggressiveness(3);
    assert_eq!(v.push_samples(&[0i16; 100]).len(), 0);
    let out = v.push_samples(&[0i16; 900]);
    assert_eq!(out.len(), 2);
    assert!(out.iter().all(|s| !s));
    assert_eq!(v.push_samples(&[0i16; 439]).len(), 0);
    assert_eq!(v.push_samples(&[0i16; 1]).len(), 1);
}

#[test]
fn reset_drops_buffered_samples() {
    let mut v = WebRtcVad::new();
    assert_eq!(v.push_samples(&[0i16; 400]).len(), 0);
    v.reset();
    assert_eq!(v.push_samples(&[0i16; 100]).len(), 0);
    assert_eq!(v.push_samples(&[0i16; 380]).len(), 1);
}

#[test]
fn one_verdict_per_frame_across_calls() {
    let mut v = WebRtcVad::with_aggressiveness(0);
    let mut total = 0;
    for _ in 0..10 {
        total += v.push_samples(&[0i16; 250]).len();
    }
    assert_eq!(total, 2500 / 480);
}
