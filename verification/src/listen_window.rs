use vstd::prelude::*;

use crate::config;

verus! {

/// What the listening window decides after one more frame.
#[derive(Debug, Clone, Copy, PartialEq, Eq, Structural)]
pub enum WindowDecision {
    KeepListening,
    Close,
    HardCap,
}

/// Counts speech and silence over fixed-length frames and decides when a
/// spoken command is over.
#[derive(Debug, Clone)]
pub struct ListenWindow {
    frame_ms: u32,
    elapsed_ms: u32,
    speech_ms: u32,
    silence_ms: u32,
    end_silence_ms: u32,
    min_speech_ms: u32,
    min_listen_ms: u32,
    max_listen_ms: u32,
}

/// The abstract state of a [`ListenWindow`]: its counters and its limits.
pub ghost struct WindowView {
    pub frame_ms: u32,
    pub elapsed_ms: u32,
    pub speech_ms: u32,
    pub silence_ms: u32,
    pub end_silence_ms: u32,
    pub min_speech_ms: u32,
    pub min_listen_ms: u32,
    pub max_listen_ms: u32,
}

impl View for ListenWindow {
    type V = WindowView;

    closed spec fn view(&self) -> WindowView {
        WindowView {
            frame_ms: self.frame_ms,
            elapsed_ms: self.elapsed_ms,
            speech_ms: self.speech_ms,
            silence_ms: self.silence_ms,
            end_silence_ms: self.end_silence_ms,
            min_speech_ms: self.min_speech_ms,
            min_listen_ms: self.min_listen_ms,
            max_listen_ms: self.max_listen_ms,
        }
    }
}

/// Addition that stops at `u32::MAX` instead of wrapping.
pub open spec fn sat_add(a: u32, b: u32) -> u32 {
    if a + b > u32::MAX {
        u32::MAX
    } else {
        (a + b) as u32
    }
}

/// A window with the given limits and all counters at zero.
pub open spec fn fresh_window(
    frame_ms: u32,
    end_silence_ms: u32,
    min_speech_ms: u32,
    min_listen_ms: u32,
    max_listen_ms: u32,
) -> WindowView {
    WindowView {
        frame_ms,
        elapsed_ms: 0,
        speech_ms: 0,
        silence_ms: 0,
        end_silence_ms,
        min_speech_ms,
        min_listen_ms,
        max_listen_ms,
    }
}

/// The counters after one more frame: time advances by a frame; a speech
/// frame adds to the speech time and ends the current silence, a silent frame
/// adds to the silence time.
pub open spec fn step(w: WindowView, is_speech: bool) -> WindowView {
    WindowView {
        elapsed_ms: sat_add(w.elapsed_ms, w.frame_ms),
        speech_ms: if is_speech { sat_add(w.speech_ms, w.frame_ms) } else { w.speech_ms },
        silence_ms: if is_speech { 0 } else { sat_add(w.silence_ms, w.frame_ms) },
        ..w
    }
}

/// The decision taken on the counters of a window: the hard cap wins, then
/// nothing closes before the minimum listening time, then the window closes
/// once enough speech was heard and the current silence is long enough.
pub open spec fn decide(w: WindowView) -> WindowDecision {
    if w.elapsed_ms >= w.max_listen_ms {
        WindowDecision::HardCap
    } else if w.elapsed_ms < w.min_listen_ms {
        WindowDecision::KeepListening
    } else if w.speech_ms >= w.min_speech_ms && w.silence_ms >= w.end_silence_ms {
        WindowDecision::Close
    } else {
        WindowDecision::KeepListening
    }
}

/// The window after a sequence of frame verdicts, oldest first.
pub open spec fn run(w: WindowView, verdicts: Seq<bool>) -> WindowView
    decreases verdicts.len(),
{
    if verdicts.len() == 0 {
        w
    } else {
        step(run(w, verdicts.drop_last()), verdicts.last())
    }
}

/// The limits of a window never change while frames are pushed.
pub proof fn lemma_run_keeps_limits(w: WindowView, verdicts: Seq<bool>)
    ensures
        run(w, verdicts).frame_ms == w.frame_ms,
        run(w, verdicts).end_silence_ms == w.end_silence_ms,
        run(w, verdicts).min_speech_ms == w.min_speech_ms,
        run(w, verdicts).min_listen_ms == w.min_listen_ms,
        run(w, verdicts).max_listen_ms == w.max_listen_ms,
    decreases verdicts.len(),
{
    if verdicts.len() > 0 {
        lemma_run_keeps_limits(w, verdicts.drop_last());
    }
}

/// Starting from zero, the elapsed time after `n` frames is `n` times the
/// frame length, stopping at `u32::MAX`.
pub proof fn lemma_elapsed_counts_frames(w: WindowView, verdicts: Seq<bool>)
    requires
        w.elapsed_ms == 0,
    ensures
        run(w, verdicts).elapsed_ms == (if verdicts.len() * w.frame_ms > u32::MAX {
            u32::MAX as int
        } else {
            verdicts.len() * w.frame_ms
        }),
    decreases verdicts.len(),
{
    if verdicts.len() > 0 {
        let n = verdicts.len() - 1;
        lemma_elapsed_counts_frames(w, verdicts.drop_last());
        lemma_run_keeps_limits(w, verdicts.drop_last());
        assert((n + 1) * w.frame_ms == n * w.frame_ms + w.frame_ms) by (nonlinear_arith);
        assert(n * w.frame_ms >= 0) by (nonlinear_arith)
            requires
                n >= 0,
        ;
    }
}

/// Once the elapsed time has reached the hard cap, every later frame is
/// answered with `HardCap`.
pub proof fn lemma_hard_cap_persists(w: WindowView, verdicts: Seq<bool>)
    requires
        w.elapsed_ms >= w.max_listen_ms,
    ensures
        run(w, verdicts).elapsed_ms >= w.max_listen_ms,
        decide(run(w, verdicts)) == WindowDecision::HardCap,
    decreases verdicts.len(),
{
    lemma_run_keeps_limits(w, verdicts);
    if verdicts.len() > 0 {
        lemma_hard_cap_persists(w, verdicts.drop_last());
    }
}

/// A window that has heard no speech and needs some speech to close never
/// closes on silence alone: it keeps listening until the hard cap.
pub proof fn lemma_silence_only_never_closes(w: WindowView, verdicts: Seq<bool>)
    requires
        w.speech_ms == 0,
        w.min_speech_ms > 0,
        forall|i: int| 0 <= i < verdicts.len() ==> !verdicts[i],
    ensures
        run(w, verdicts).speech_ms == 0,
        decide(run(w, verdicts)) != WindowDecision::Close,
    decreases verdicts.len(),
{
    lemma_run_keeps_limits(w, verdicts);
    if verdicts.len() > 0 {
        lemma_silence_only_never_closes(w, verdicts.drop_last());
    }
}

/// From zero speech and with frames of positive length, the window has heard
/// speech exactly when some frame was a speech frame.
pub proof fn lemma_had_speech_iff_speech_frame(w: WindowView, verdicts: Seq<bool>)
    requires
        w.speech_ms == 0,
        w.frame_ms > 0,
    ensures
        run(w, verdicts).speech_ms > 0 <==> exists|i: int| 0 <= i < verdicts.len() && verdicts[i],
    decreases verdicts.len(),
{
    if verdicts.len() > 0 {
        let prev = verdicts.drop_last();
        lemma_had_speech_iff_speech_frame(w, prev);
        lemma_run_keeps_limits(w, prev);
        if exists|i: int| 0 <= i < prev.len() && prev[i] {
            let i = choose|i: int| 0 <= i < prev.len() && prev[i];
            assert(verdicts[i]);
        }
        if verdicts.last() {
            assert(verdicts[verdicts.len() - 1]);
        }
        if exists|i: int| 0 <= i < verdicts.len() && verdicts[i] {
            let i = choose|i: int| 0 <= i < verdicts.len() && verdicts[i];
            if i < verdicts.len() - 1 {
                assert(prev[i]);
            }
        }
    }
}

/// What each decision means: the window gives up exactly when the elapsed
/// time has reached the hard cap; it closes exactly when, before the cap and
/// from the minimum listening time on, enough speech was heard and the
/// current silence is long enough; otherwise it keeps listening.
pub proof fn lemma_decision_meaning(w: WindowView)
    ensures
        decide(w) == WindowDecision::HardCap <==> w.elapsed_ms >= w.max_listen_ms,
        decide(w) == WindowDecision::Close <==> {
            &&& w.min_listen_ms <= w.elapsed_ms < w.max_listen_ms
            &&& w.speech_ms >= w.min_speech_ms
            &&& w.silence_ms >= w.end_silence_ms
        },
        decide(w) == WindowDecision::KeepListening <==> {
            &&& w.elapsed_ms < w.max_listen_ms
            &&& !(w.elapsed_ms >= w.min_listen_ms && w.speech_ms >= w.min_speech_ms
                && w.silence_ms >= w.end_silence_ms)
        },
{
}

/// A window that has heard no speech (and needs some to close) keeps
/// listening frame after frame until the elapsed time reaches the hard cap,
/// and gives up from then on.
pub proof fn lemma_silence_waits_for_hard_cap(w: WindowView, verdicts: Seq<bool>)
    requires
        w.speech_ms == 0,
        w.min_speech_ms > 0,
        forall|i: int| 0 <= i < verdicts.len() ==> !verdicts[i],
    ensures
        decide(run(w, verdicts)) == (if run(w, verdicts).elapsed_ms >= w.max_listen_ms {
            WindowDecision::HardCap
        } else {
            WindowDecision::KeepListening
        }),
{
    lemma_silence_only_never_closes(w, verdicts);
    lemma_run_keeps_limits(w, verdicts);
    lemma_decision_meaning(run(w, verdicts));
}

/// The number of speech frames among the verdicts.
pub open spec fn speech_frames(verdicts: Seq<bool>) -> nat
    decreases verdicts.len(),
{
    if verdicts.len() == 0 {
        0
    } else {
        speech_frames(verdicts.drop_last()) + if verdicts.last() {
            1nat
        } else {
            0nat
        }
    }
}

/// The number of silent frames at the end of the verdicts, since the last
/// speech frame.
pub open spec fn trailing_silent_frames(verdicts: Seq<bool>) -> nat
    decreases verdicts.len(),
{
    if verdicts.len() == 0 || verdicts.last() {
        0
    } else {
        trailing_silent_frames(verdicts.drop_last()) + 1
    }
}

/// A time in milliseconds as a counter holds it: stopping at `u32::MAX`.
pub open spec fn capped(x: int) -> int {
    if x > u32::MAX {
        u32::MAX as int
    } else {
        x
    }
}

/// Starting from zero speech and silence, the speech time is the number of
/// speech frames times the frame length and the silence time is the number
/// of silent frames since the last speech frame times the frame length, each
/// stopping at `u32::MAX`.
pub proof fn lemma_counters_count_frames(w: WindowView, verdicts: Seq<bool>)
    requires
        w.speech_ms == 0,
        w.silence_ms == 0,
    ensures
        run(w, verdicts).speech_ms == capped(speech_frames(verdicts) * w.frame_ms),
        run(w, verdicts).silence_ms == capped(trailing_silent_frames(verdicts) * w.frame_ms),
    decreases verdicts.len(),
{
    if verdicts.len() > 0 {
        let prev = verdicts.drop_last();
        let f = w.frame_ms as int;
        lemma_counters_count_frames(w, prev);
        lemma_run_keeps_limits(w, prev);
        let sp = speech_frames(prev) as int;
        let si = trailing_silent_frames(prev) as int;
        assert((sp + 1) * f == sp * f + f) by (nonlinear_arith);
        assert((si + 1) * f == si * f + f) by (nonlinear_arith);
        assert(sp * f >= 0) by (nonlinear_arith)
            requires
                sp >= 0,
                f >= 0,
        ;
        assert(si * f >= 0) by (nonlinear_arith)
            requires
                si >= 0,
                f >= 0,
        ;
        assert(0 * f == 0) by (nonlinear_arith);
        let last = run(w, prev);
        assert(run(w, verdicts) == step(last, verdicts.last()));
        if verdicts.last() {
            assert(speech_frames(verdicts) == sp + 1);
            assert(trailing_silent_frames(verdicts) == 0);
            assert(speech_frames(verdicts) * w.frame_ms == sp * f + f);
            assert(trailing_silent_frames(verdicts) * w.frame_ms == 0 * f);
        } else {
            assert(speech_frames(verdicts) == sp);
            assert(trailing_silent_frames(verdicts) == si + 1);
            assert(trailing_silent_frames(verdicts) * w.frame_ms == si * f + f);
        }
        assert(last.speech_ms == capped(sp * f));
        assert(last.silence_ms == capped(si * f));
        assert(last.frame_ms == w.frame_ms);
    } else {
        assert(0 * w.frame_ms == 0) by (nonlinear_arith);
    }
}

impl ListenWindow {
    /// A window with the configured command limits.
    pub fn new(frame_ms: u32) -> (w: Self)
        ensures
            w@ == fresh_window(
                frame_ms,
                config::VAD_COMMAND_END_SILENCE_MS,
                config::VAD_COMMAND_MIN_SPEECH_MS,
                config::VAD_COMMAND_MIN_LISTEN_MS,
                config::VAD_COMMAND_MAX_LISTEN_MS,
            ),
    {
        Self::with_params(
            frame_ms,
            config::VAD_COMMAND_END_SILENCE_MS,
            config::VAD_COMMAND_MIN_SPEECH_MS,
            config::VAD_COMMAND_MIN_LISTEN_MS,
            config::VAD_COMMAND_MAX_LISTEN_MS,
        )
    }

    /// A window with the given limits.
    pub fn with_params(
        frame_ms: u32,
        end_silence_ms: u32,
        min_speech_ms: u32,
        min_listen_ms: u32,
        max_listen_ms: u32,
    ) -> (w: Self)
        ensures
            w@ == fresh_window(frame_ms, end_silence_ms, min_speech_ms, min_listen_ms, max_listen_ms),
    {
        Self {
            frame_ms,
            elapsed_ms: 0,
            speech_ms: 0,
            silence_ms: 0,
            end_silence_ms,
            min_speech_ms,
            min_listen_ms,
            max_listen_ms,
        }
    }

    /// Accounts for one frame and decides whether to keep listening.
    pub fn push(&mut self, is_speech: bool) -> (d: WindowDecision)
        ensures
            final(self)@ == step(old(self)@, is_speech),
            d == decide(final(self)@),
    {
        self.elapsed_ms = self.elapsed_ms.saturating_add(self.frame_ms);

        if is_speech {
            self.speech_ms = self.speech_ms.saturating_add(self.frame_ms);
            self.silence_ms = 0;
        } else {
            self.silence_ms = self.silence_ms.saturating_add(self.frame_ms);
        }

        if self.elapsed_ms >= self.max_listen_ms {
            return WindowDecision::HardCap;
        }
        if self.elapsed_ms < self.min_listen_ms {
            return WindowDecision::KeepListening;
        }
        if self.speech_ms >= self.min_speech_ms && self.silence_ms >= self.end_silence_ms {
            return WindowDecision::Close;
        }
        WindowDecision::KeepListening
    }

    pub fn elapsed_ms(&self) -> (r: u32)
        ensures
            r == self@.elapsed_ms,
    {
        self.elapsed_ms
    }

    pub fn speech_ms(&self) -> (r: u32)
        ensures
            r == self@.speech_ms,
    {
        self.speech_ms
    }

    pub fn silence_ms(&self) -> (r: u32)
        ensures
            r == self@.silence_ms,
    {
        self.silence_ms
    }

    pub fn had_speech(&self) -> (r: bool)
        ensures
            r == (self@.speech_ms > 0),
    {
        self.speech_ms > 0
    }
}

} // verus!
