use vinyl::ast::TextEffect;
use vinyl::timing::{text_reveal, transition_alpha, TextReveal, TransitionAlpha, TransitionPhase};

#[test]
fn transition_and_text_timers_tick_and_complete_deterministically() {
    let mut fade_out = transition_alpha(1000, TransitionPhase::FadeOut).unwrap();
    let mut fade_in = transition_alpha(1000, TransitionPhase::FadeIn).unwrap();
    let mut reveal = text_reveal("HelloWorld", TextEffect::Typewriter { chars_per_second: 10 }).unwrap();
    assert_eq!(fade_out.alpha_permille(), 1000);
    assert_eq!(fade_in.alpha_permille(), 0);
    assert_eq!(reveal.visible_chars(), 0);

    assert!(!fade_out.advance(500));
    assert!(!fade_in.advance(500));
    assert!(!reveal.advance(500));
    assert_eq!(fade_out.alpha_permille(), 500);
    assert_eq!(fade_in.alpha_permille(), 500);
    assert_eq!(reveal.visible_chars(), 5);

    assert!(fade_out.advance(500));
    assert!(fade_in.advance(500));
    assert!(reveal.advance(500));
    assert_eq!(fade_out.alpha_permille(), 0);
    assert_eq!(fade_in.alpha_permille(), 1000);
    assert_eq!(reveal.visible_chars(), 10);
}

#[test]
fn instant_commands_do_not_create_transition_state() {
    assert!(transition_alpha(0, TransitionPhase::DissolveIn).is_none());
    assert!(text_reveal("x", TextEffect::Instant).is_none());
}

#[test]
fn timers_saturate_instead_of_wrapping() {
    let mut t = TransitionAlpha { elapsed_ms: u32::MAX - 1, duration_ms: 10, phase: TransitionPhase::DissolveOut };
    assert!(t.advance(100));
    assert_eq!(t.elapsed_ms, u32::MAX);
    assert_eq!(t.alpha_permille(), 0);
    let mut r = TextReveal { elapsed_ms: u32::MAX, chars_per_second: u16::MAX, total_chars: 3 };
    assert!(r.advance(1));
    assert_eq!(r.visible_chars(), 3);
}
