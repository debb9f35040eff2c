use vinyl::ast::{TextEffect, Transition};
use vinyl::presentation::PresentationCommand;
use vinyl::scene_sync::{
    background_transition, dialogue_effect, fade_out_running, incoming, marker_sprite_plan, outgoing, plan_single,
    render_sprite_plan, sprite_transition, stage_place, tick_transition, transition_plan, SpriteKey, StagePlace,
    TickOutcome, TransitionFlags, TransitionPlan,
};
use vinyl::timing::{TransitionAlpha, TransitionPhase};

fn fade(ms: u32) -> Option<Transition> {
    Some(Transition { kind: "fade".to_string(), duration_ms: ms })
}

fn key(tag: &str, attr: &str, position: &str) -> SpriteKey {
    SpriteKey { tag: tag.to_string(), attrs: vec![attr.to_string()], position: position.to_string() }
}

#[test]
fn a_single_wanted_item_keeps_its_first_match_and_removes_the_rest() {
    let plan = plan_single(&[false, true, true], true);
    assert_eq!(plan.despawn, vec![0, 2]);
    assert!(!plan.spawn);
    let plan = plan_single(&[false, false], true);
    assert_eq!(plan.despawn, vec![0, 1]);
    assert!(plan.spawn);
    let plan = plan_single(&[true], false);
    assert_eq!(plan.despawn, vec![0]);
    assert!(!plan.spawn);
}

#[test]
fn new_items_take_the_transition_of_their_latest_change() {
    let pending = vec![
        PresentationCommand::SetBackground { image: "bg a".to_string(), transition: fade(300) },
        PresentationCommand::ShowSprite {
            tag: "eileen".to_string(),
            attrs: vec![],
            position: "left".to_string(),
            transition: Some(Transition { kind: "dissolve".to_string(), duration_ms: 200 }),
        },
        PresentationCommand::SetBackground { image: "bg b".to_string(), transition: None },
        PresentationCommand::ShowDialogue {
            speaker: None,
            text: "Hi".to_string(),
            effect: TextEffect::Typewriter { chars_per_second: 40 },
        },
        PresentationCommand::ClearMenu,
    ];
    assert_eq!(background_transition(&pending), fade(300));
    assert_eq!(sprite_transition(&pending, "eileen").unwrap().kind, "dissolve");
    assert_eq!(sprite_transition(&pending, "lucy"), None);
    assert_eq!(dialogue_effect(&pending), TextEffect::Typewriter { chars_per_second: 40 });
    assert_eq!(dialogue_effect(&pending[..2]), TextEffect::Instant);
    assert_eq!(background_transition(&[]), None);
}

#[test]
fn transitions_plan_how_items_leave_and_appear() {
    assert_eq!(transition_plan(&fade(500)), TransitionPlan::Fade(500));
    assert_eq!(transition_plan(&fade(0)), TransitionPlan::Cut);
    assert_eq!(
        transition_plan(&Some(Transition { kind: "dissolve".to_string(), duration_ms: 250 })),
        TransitionPlan::Dissolve(250)
    );
    assert_eq!(transition_plan(&Some(Transition { kind: "spin".to_string(), duration_ms: 250 })), TransitionPlan::Cut);
    assert_eq!(transition_plan(&None), TransitionPlan::Cut);
    let (out, out_flags) = outgoing(TransitionPlan::Fade(500)).unwrap();
    assert_eq!(out.phase, TransitionPhase::FadeOut);
    assert_eq!(out_flags, TransitionFlags { despawn_after: true, await_fade_in: false });
    let (inc, inc_flags, hidden) = incoming(TransitionPlan::Fade(500)).unwrap();
    assert_eq!(inc.phase, TransitionPhase::FadeIn);
    assert!(inc_flags.await_fade_in && hidden);
    let (inc, _, hidden) = incoming(TransitionPlan::Dissolve(10)).unwrap();
    assert_eq!(inc.phase, TransitionPhase::DissolveIn);
    assert!(!hidden);
    assert!(outgoing(TransitionPlan::Cut).is_none());
    assert!(incoming(TransitionPlan::Cut).is_none());
}

#[test]
fn fade_in_waits_for_the_fade_out_then_runs_to_its_end() {
    let mut old = TransitionAlpha { elapsed_ms: 0, duration_ms: 100, phase: TransitionPhase::FadeOut };
    let mut old_flags = TransitionFlags { despawn_after: true, await_fade_in: false };
    let mut new = TransitionAlpha { elapsed_ms: 0, duration_ms: 100, phase: TransitionPhase::FadeIn };
    let mut new_flags = TransitionFlags { despawn_after: false, await_fade_in: true };
    let running = fade_out_running(&[old.clone(), new.clone()], 60);
    assert!(running);
    assert_eq!(tick_transition(&mut old, &mut old_flags, 60, running), TickOutcome::Running(false));
    assert_eq!(tick_transition(&mut new, &mut new_flags, 60, running), TickOutcome::Waiting);
    assert_eq!(new.elapsed_ms, 0);
    let running = fade_out_running(&[old.clone(), new.clone()], 60);
    assert!(!running);
    assert_eq!(tick_transition(&mut old, &mut old_flags, 60, running), TickOutcome::Despawn);
    assert_eq!(tick_transition(&mut new, &mut new_flags, 60, running), TickOutcome::Running(true));
    assert_eq!(tick_transition(&mut new, &mut new_flags, 60, false), TickOutcome::Finished(false));
    assert_eq!(new.elapsed_ms, 120);
}

#[test]
fn sprite_plans_replace_changed_sprites_and_drop_untagged_ones() {
    let wanted = vec![key("eileen", "happy", "left"), key("lucy", "neutral", "right")];
    let shown = vec![key("eileen", "sad", "left"), key("bob", "neutral", "center"), key("lucy", "neutral", "right")];
    let (gone, changes) = render_sprite_plan(&wanted, &shown);
    assert_eq!(gone, vec![1]);
    assert_eq!(changes.len(), 1);
    assert_eq!(changes[0].wanted, 0);
    assert_eq!(changes[0].replaced, vec![0]);
    let (gone, new) = marker_sprite_plan(&wanted, &shown);
    assert_eq!(gone, vec![0, 1]);
    assert_eq!(new, vec![0]);
    assert_eq!(stage_place("left"), StagePlace::Left);
    assert_eq!(stage_place("right"), StagePlace::Right);
    assert_eq!(stage_place("center"), StagePlace::Center);
    assert_eq!(stage_place("elsewhere"), StagePlace::Center);
}
