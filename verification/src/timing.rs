//! Timed presentation effects in whole milliseconds: transition opacity and typewriter reveal.
use vstd::prelude::*;
use crate::ast::TextEffect;

verus! {

/// Transition phase applied to one rendered visual.
#[derive(Clone, Copy, Debug, PartialEq, Eq, Structural)]
pub enum TransitionPhase {
    FadeOut,
    FadeIn,
    DissolveOut,
    DissolveIn,
}

/// Whether a phase makes a visual disappear.
pub open spec fn is_out(p: TransitionPhase) -> bool {
    p == TransitionPhase::FadeOut || p == TransitionPhase::DissolveOut
}

/// Transient visual transition state.
#[derive(Clone, Debug, PartialEq, Eq)]
pub struct TransitionAlpha {
    pub elapsed_ms: u32,
    pub duration_ms: u32,
    pub phase: TransitionPhase,
}

/// Thousandths of the transition done: elapsed time over duration, the product with 1000
/// saturating at `u32::MAX`, at most 1000.
pub open spec fn progress_permille(elapsed_ms: u32, duration_ms: u32) -> int
    recommends
        duration_ms > 0,
{
    let scaled = if elapsed_ms * 1000 > u32::MAX { u32::MAX as int } else { elapsed_ms * 1000 };
    let p = scaled / (duration_ms as int);
    if p > 1000 { 1000 } else { p }
}

/// Opacity in thousandths: a visual fading in goes from 0 to 1000 as the transition runs, one
/// fading out from 1000 to 0; a transition without duration is already done.
pub open spec fn alpha_of(t: TransitionAlpha) -> int {
    if t.duration_ms == 0 {
        if is_out(t.phase) { 0 } else { 1000 }
    } else if is_out(t.phase) {
        1000 - progress_permille(t.elapsed_ms, t.duration_ms)
    } else {
        progress_permille(t.elapsed_ms, t.duration_ms)
    }
}

impl TransitionAlpha {
    /// Opacity in thousandths.
    pub fn alpha_permille(&self) -> (r: u32)
        ensures
            r == alpha_of(*self),
            r <= 1000,
    {
        if self.duration_ms == 0 {
            return match self.phase {
                TransitionPhase::FadeOut | TransitionPhase::DissolveOut => 0,
                TransitionPhase::FadeIn | TransitionPhase::DissolveIn => 1000,
            };
        }
        let scaled: u32 = if self.elapsed_ms > u32::MAX / 1000 { u32::MAX } else { self.elapsed_ms * 1000 };
        let progress_raw = scaled / self.duration_ms;
        let progress = if progress_raw < 1000 { progress_raw } else { 1000 };
        match self.phase {
            TransitionPhase::FadeOut | TransitionPhase::DissolveOut => 1000 - progress,
            TransitionPhase::FadeIn | TransitionPhase::DissolveIn => progress,
        }
    }

    /// Lets `delta_ms` pass (saturating); whether the transition is then over.
    pub fn advance(&mut self, delta_ms: u32) -> (done: bool)
        ensures
            final(self).elapsed_ms == (if old(self).elapsed_ms + delta_ms > u32::MAX {
                u32::MAX as int
            } else {
                old(self).elapsed_ms + delta_ms
            }),
            final(self).duration_ms == old(self).duration_ms,
            final(self).phase == old(self).phase,
            done == (final(self).elapsed_ms >= final(self).duration_ms),
    {
        self.elapsed_ms = self.elapsed_ms.saturating_add(delta_ms);
        self.elapsed_ms >= self.duration_ms
    }
}

/// The transition state a visual starts with: none without a transition or with a zero duration.
pub fn transition_alpha(duration_ms: u32, phase: TransitionPhase) -> (r: Option<TransitionAlpha>)
    ensures
        match r {
            Some(t) => duration_ms > 0 && t == (TransitionAlpha { elapsed_ms: 0, duration_ms, phase }),
            None => duration_ms == 0,
        },
{
    if duration_ms > 0 {
        Some(TransitionAlpha { elapsed_ms: 0, duration_ms, phase })
    } else {
        None
    }
}

/// Transient typewriter reveal state.
#[derive(Clone, Debug, PartialEq, Eq)]
pub struct TextReveal {
    pub elapsed_ms: u32,
    pub chars_per_second: u16,
    pub total_chars: usize,
}

/// Characters shown so far: the speed times the elapsed time, rounded down, at most all.
pub open spec fn visible_of(t: TextReveal) -> int {
    let shown = (t.chars_per_second as int) * (t.elapsed_ms as int) / 1000;
    if shown < t.total_chars { shown } else { t.total_chars as int }
}

impl TextReveal {
    /// Characters shown so far.
    pub fn visible_chars(&self) -> (r: usize)
        ensures
            r == visible_of(*self),
            r <= self.total_chars,
    {
        let cps = self.chars_per_second as u64;
        let elapsed = self.elapsed_ms as u64;
        assert(cps * elapsed <= 65535 * 4294967295) by (nonlinear_arith)
            requires
                cps <= 65535,
                elapsed <= 4294967295,
        ;
        let shown = cps * elapsed / 1000;
        if shown < self.total_chars as u64 {
            shown as usize
        } else {
            self.total_chars
        }
    }

    /// Applies the player's text speed; the instant speed shows the whole line at once.
    pub fn apply_speed(&mut self, speed: u16)
        ensures
            final(self).chars_per_second == speed,
            final(self).total_chars == old(self).total_chars,
            final(self).elapsed_ms == if speed == u16::MAX { u32::MAX } else { old(self).elapsed_ms },
    {
        self.chars_per_second = speed;
        if speed == u16::MAX {
            self.elapsed_ms = u32::MAX;
        }
    }

    /// Lets `delta_ms` pass (saturating); whether every character is then shown.
    pub fn advance(&mut self, delta_ms: u32) -> (done: bool)
        ensures
            final(self).elapsed_ms == (if old(self).elapsed_ms + delta_ms > u32::MAX {
                u32::MAX as int
            } else {
                old(self).elapsed_ms + delta_ms
            }),
            final(self).chars_per_second == old(self).chars_per_second,
            final(self).total_chars == old(self).total_chars,
            done == (visible_of(*final(self)) >= final(self).total_chars),
    {
        self.elapsed_ms = self.elapsed_ms.saturating_add(delta_ms);
        self.visible_chars() >= self.total_chars
    }
}

/// The reveal a line of text starts with: none for instant text.
pub fn text_reveal(text: &str, effect: TextEffect) -> (r: Option<TextReveal>)
    ensures
        match effect {
            TextEffect::Instant => r is None,
            TextEffect::Typewriter { chars_per_second } => r == Some(
                TextReveal { elapsed_ms: 0, chars_per_second, total_chars: text@.len() as usize },
            ),
        },
{
    match effect {
        TextEffect::Instant => None,
        TextEffect::Typewriter { chars_per_second } => {
            let chars = crate::text::chars_of(text);
            Some(TextReveal { elapsed_ms: 0, chars_per_second, total_chars: chars.len() })
        },
    }
}

// ---------------------------------------------------------------------------
// Laws.
// ---------------------------------------------------------------------------

/// A visual fading in never loses opacity as time passes, and one fading out never gains it.
pub proof fn law_alpha_monotone(t: TransitionAlpha, later: u32)
    requires
        t.elapsed_ms <= later,
    ensures
        is_out(t.phase) ==> alpha_of(TransitionAlpha { elapsed_ms: later, ..t }) <= alpha_of(t),
        !is_out(t.phase) ==> alpha_of(TransitionAlpha { elapsed_ms: later, ..t }) >= alpha_of(t),
{
    if t.duration_ms > 0 {
        let d = t.duration_ms as int;
        let a = if t.elapsed_ms * 1000 > u32::MAX { u32::MAX as int } else { t.elapsed_ms * 1000 };
        let b = if later * 1000 > u32::MAX { u32::MAX as int } else { later * 1000 };
        assert(a <= b);
        assert(a / d <= b / d) by (nonlinear_arith)
            requires
                a <= b,
                d > 0,
        ;
    }
}

/// Once a transition's time has run out, it shows its end state: fully opaque when coming
/// in, fully transparent when going out (for durations up to `u32::MAX / 1000` milliseconds,
/// beyond which the saturated product stops short of the end).
pub proof fn law_alpha_at_end(t: TransitionAlpha)
    requires
        t.elapsed_ms >= t.duration_ms,
        t.duration_ms <= u32::MAX / 1000,
    ensures
        alpha_of(t) == if is_out(t.phase) { 0int } else { 1000int },
{
    if t.duration_ms > 0 {
        let d = t.duration_ms as int;
        let a = if t.elapsed_ms * 1000 > u32::MAX { u32::MAX as int } else { t.elapsed_ms * 1000 };
        assert(a >= d * 1000) by (nonlinear_arith)
            requires
                t.elapsed_ms >= d,
                d <= u32::MAX / 1000,
                a == (if t.elapsed_ms * 1000 > u32::MAX { u32::MAX as int } else { t.elapsed_ms * 1000 }),
        ;
        assert(a / d >= 1000) by (nonlinear_arith)
            requires
                a >= d * 1000,
                d > 0,
        ;
    }
}

/// A typewriter never shows fewer characters as time passes.
pub proof fn law_reveal_monotone(t: TextReveal, later: u32)
    requires
        t.elapsed_ms <= later,
    ensures
        visible_of(t) <= visible_of(TextReveal { elapsed_ms: later, ..t }),
{
    let c = t.chars_per_second as int;
    let e = t.elapsed_ms as int;
    let l = later as int;
    assert(c * e / 1000 <= c * l / 1000) by (nonlinear_arith)
        requires
            0 <= c,
            0 <= e <= l,
    ;
}

} // verus!
