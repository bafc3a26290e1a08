use jarvis_core::config;
use jarvis_core::listen_window::{ListenWindow, WindowDecision};

fn run(verdicts: &[bool]) -> (WindowDecision, usize) {
    let mut w = ListenWindow::with_params(30, 1200, 500, 1000, 15000);
    for (i, &v) in verdicts.iter().enumerate() {
        let d = w.push(v);
        if d != WindowDecision::KeepListening {
            return (d, i + 1);
        }
    }
    (WindowDecision::KeepListening, verdicts.len())
}

#[test]
fn closes_after_speech_then_silence() {
    let speech: Vec<bool> = std::iter::repeat(true).take(40).collect();
    let silence: Vec<bool> = std::iter::repeat(false).take(60).collect();
    let mut v = speech;
    v.extend(silence);

    let (decision, frame_idx) = run(&v);
    assert_eq!(decision, WindowDecision::Close);
    let elapsed_ms = (frame_idx as u32) * 30;
    let speech_ms = 40 * 30;
    assert!(elapsed_ms >= speech_ms + 1200, "closed at {} ms, expected >= {}", elapsed_ms, speech_ms + 1200);
    assert!(elapsed_ms <= speech_ms + 1200 + 30, "closed too late at {} ms", elapsed_ms);
}

#[test]
fn does_not_close_before_min_listen_even_with_long_silence() {
    let v: Vec<bool> = std::iter::repeat(false).take(100).collect();
    let mut w = ListenWindow::with_params(30, 1200, 500, 1000, 15000);
    for &x in v.iter().take(33) {
        assert_eq!(w.push(x), WindowDecision::KeepListening);
    }
    assert!(w.elapsed_ms() <= 1000);
}

#[test]
fn hard_cap_fires_at_max_listen() {
    let v: Vec<bool> = std::iter::repeat(true).take(1000).collect();
    let (decision, frame_idx) = run(&v);
    assert_eq!(decision, WindowDecision::HardCap);
    assert_eq!((frame_idx as u32) * 30, 15000);
}

#[test]
fn silence_only_does_not_close_keeps_waiting_until_hard_cap() {
    let v: Vec<bool> = std::iter::repeat(false).take(600).collect();
    let (decision, _) = run(&v);
    assert_eq!(decision, WindowDecision::HardCap);
}

#[test]
fn new_uses_the_configured_limits() {
    let mut a = ListenWindow::new(30);
    let mut b = ListenWindow::with_params(
        30,
        config::VAD_COMMAND_END_SILENCE_MS,
        config::VAD_COMMAND_MIN_SPEECH_MS,
        config::VAD_COMMAND_MIN_LISTEN_MS,
        config::VAD_COMMAND_MAX_LISTEN_MS,
    );
    for i in 0..600 {
        let s = i % 7 < 3;
        assert_eq!(a.push(s), b.push(s));
    }
    assert_eq!(a.elapsed_ms(), b.elapsed_ms());
}

#[test]
fn counters_follow_frames() {
    let mut w = ListenWindow::with_params(30, 1200, 500, 1000, 15000);
    assert!(!w.had_speech());
    w.push(true);
    w.push(true);
    w.push(false);
    assert_eq!(w.elapsed_ms(), 90);
    assert_eq!(w.speech_ms(), 60);
    assert_eq!(w.silence_ms(), 30);
    assert!(w.had_speech());
    w.push(true);
    assert_eq!(w.silence_ms(), 0);
    assert_eq!(w.speech_ms(), 90);
}

#[test]
fn counters_saturate_instead_of_wrapping() {
    let mut w = ListenWindow::with_params(u32::MAX - 1, 1, 0, 0, u32::MAX);
    assert_eq!(w.push(true), WindowDecision::KeepListening);
    assert_eq!(w.push(true), WindowDecision::HardCap);
    assert_eq!(w.elapsed_ms(), u32::MAX);
    assert_eq!(w.speech_ms(), u32::MAX);
}

#[test]
fn hard_cap_stays_once_reached() {
    let mut w = ListenWindow::with_params(30, 1200, 500, 1000, 90);
    assert_eq!(w.push(true), WindowDecision::KeepListening);
    assert_eq!(w.push(true), WindowDecision::KeepListening);
    for i in 0..20 {
        assert_eq!(w.push(i % 2 == 0), WindowDecision::HardCap);
    }
}

#[test]
fn close_needs_enough_speech() {
    // 300 ms of speech is less than the 500 ms needed, so silence never closes.
    let mut v: Vec<bool> = std::iter::repeat(true).take(10).collect();
    v.extend(std::iter::repeat(false).take(600));
    let (decision, frame_idx) = run(&v);
    assert_eq!(decision, WindowDecision::HardCap);
    assert_eq!(frame_idx, 500);
}
