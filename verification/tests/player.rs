use vinyl::ast::{Script, SourcePos, Stmt, StmtKind, TextEffect, Transition};
use vinyl::compile::compile;
use vinyl::player::{
    choice_label, menu_key, queue_event_and_following_visuals, rollback_wanted, save_load_slots, save_load_title,
    shown_text, slot_enabled, slot_label, status_overlay, advance_step, auto_advance_wait_ms, next_text_speed,
    apply_front, AssetState, QueueStep, AdvanceStep, AutoAdvance, MenuKey, PauseEffect, PlayerAction, PlayerMode, PlayerUi, PresentationCommandQueue,
    SaveLoadButton, SaveLoadEffect, SettingsActionKind, SettingsEffect, VisualAction, VisualFrame, VisualTestPhase,
    VisualTestState,
};
use vinyl::presentation::PresentationCommand;
use vinyl::save::{
    DialogueSnapshot, Preferences, PresentationSnapshot, ProjectId, SaveFile, SaveSlot, SaveSlotState,
    SaveValidationError, CURRENT_SAVE_VERSION,
};
use vinyl::story::VnStory;
use vinyl::vm::{VmEvent, VmState};

fn save(timestamp: i64) -> SaveFile {
    let mut presentation = PresentationSnapshot::new();
    presentation.dialogue = Some(DialogueSnapshot {
        speaker: Some("Eileen".to_string()),
        text: "Welcome home".to_string(),
    });
    SaveFile {
        save_version: CURRENT_SAVE_VERSION,
        engine_version: "test".to_string(),
        game_id: ProjectId("test".to_string()),
        project_version: "1".to_string(),
        script_hash: "hash".to_string(),
        vm: VmState::default(),
        presentation,
        rollback: Vec::new(),
        screenshot_png: Vec::new(),
        timestamp,
    }
}

fn ui(mode: PlayerMode) -> PlayerUi {
    let mut ui = PlayerUi::new(Preferences::default());
    ui.mode = mode;
    ui
}

#[test]
fn save_slot_label_includes_metadata_and_compatibility() {
    let label = slot_label(
        SaveSlot::Manual(3),
        &SaveSlotState::Compatible(save(0)),
        Some(3),
        "1970-01-01 00:00",
    );

    assert!(label.contains("Slot 03 · Compatible"));
    assert!(label.contains("1970-01-01"));
    assert!(label.contains("Eileen: Welcome home"));
    assert!(label.contains("Press again to overwrite"));
}

#[test]
fn slot_labels_cover_every_slot_state() {
    assert_eq!(slot_label(SaveSlot::Autosave, &SaveSlotState::Empty, None, "t"), "Autosave\nEmpty");
    assert_eq!(
        slot_label(SaveSlot::Manual(12), &SaveSlotState::Corrupt("bad json".to_string()), None, "t"),
        "Slot 12\nCorrupt · bad json"
    );
    let mismatch = SaveValidationError::WrongProjectVersion { actual: "1".to_string(), expected: "2".to_string() };
    assert_eq!(
        slot_label(SaveSlot::Manual(1), &SaveSlotState::Incompatible(save(0), mismatch), Some(2), "2024-05-01 10:00"),
        "Slot 01 · Incompatible\n2024-05-01 10:00\nEileen: Welcome home"
    );
    let mut long = save(0);
    long.presentation.dialogue = Some(DialogueSnapshot { speaker: None, text: "x".repeat(70) });
    let label = slot_label(SaveSlot::Manual(4), &SaveSlotState::Compatible(long), None, "t");
    assert_eq!(label, format!("Slot 04 · Compatible\nt\nNarrator: {}", "x".repeat(64)));
    let mut quiet = save(0);
    quiet.presentation.dialogue = None;
    let label = slot_label(SaveSlot::Autosave, &SaveSlotState::Compatible(quiet), Some(0), "t");
    assert_eq!(label, "Autosave · Compatible\nt\nNarrator: No dialogue");
}

#[test]
fn save_screens_list_the_autosave_and_twelve_slots() {
    let slots = save_load_slots();
    assert_eq!(slots.len(), 13);
    assert_eq!(slots[0], SaveSlot::Autosave);
    assert_eq!(slots[1], SaveSlot::Manual(1));
    assert_eq!(slots[12], SaveSlot::Manual(12));
    assert_eq!(save_load_title(PlayerMode::Save), "Save");
    assert_eq!(save_load_title(PlayerMode::Load), "Load");
    let compatible = SaveSlotState::Compatible(save(0));
    assert!(slot_enabled(PlayerMode::Save, SaveSlot::Manual(2), Some(&SaveSlotState::Empty)));
    assert!(!slot_enabled(PlayerMode::Save, SaveSlot::Autosave, Some(&SaveSlotState::Empty)));
    assert!(slot_enabled(PlayerMode::Load, SaveSlot::Autosave, Some(&compatible)));
    assert!(!slot_enabled(PlayerMode::Load, SaveSlot::Manual(2), None));
}

#[test]
fn escape_pauses_resumes_and_leaves_sub_screens() {
    let mut ui = ui(PlayerMode::Playing);
    assert_eq!(ui.pause_shortcuts(false, false, true, false), None);
    assert_eq!(ui.mode, PlayerMode::Paused);
    ui.pause_shortcuts(false, false, true, false);
    assert_eq!(ui.mode, PlayerMode::Playing);
    let mut ui = self::ui(PlayerMode::Save);
    ui.confirm_overwrite = Some(4);
    ui.pause_shortcuts(false, false, true, false);
    assert_eq!(ui.mode, PlayerMode::Paused);
    assert_eq!(ui.confirm_overwrite, None);
    let mut ui = self::ui(PlayerMode::Playing);
    ui.pause_shortcuts(false, false, true, true);
    assert_eq!(ui.mode, PlayerMode::Playing);
    assert_eq!(ui.pause_shortcuts(true, true, true, false), Some(true));
    assert!(ui.preferences.fullscreen);
    assert_eq!(ui.mode, PlayerMode::Playing);
}

#[test]
fn quitting_asks_once_unless_the_revision_is_autosaved() {
    let mut ui = ui(PlayerMode::Paused);
    assert_eq!(ui.pause_button(PlayerAction::Quit, 7), PauseEffect::Nothing);
    assert_eq!(ui.quit_confirmed_revision, Some(7));
    assert_eq!(ui.pause_labels()[5].1, "Quit — press again to confirm");
    assert_eq!(ui.pause_button(PlayerAction::Quit, 7), PauseEffect::Exit);
    let mut ui = self::ui(PlayerMode::Paused);
    ui.autosaved(9);
    assert_eq!(ui.pause_button(PlayerAction::Quit, 9), PauseEffect::Exit);
    assert_eq!(ui.pause_button(PlayerAction::Quit, 10), PauseEffect::Nothing);
    assert_eq!(ui.pause_button(PlayerAction::Resume, 10), PauseEffect::Nothing);
    assert_eq!(ui.quit_confirmed_revision, None);
    assert_eq!(ui.mode, PlayerMode::Playing);
    assert_eq!(ui.pause_labels()[5].1, "Quit");
    assert_eq!(ui.pause_button(PlayerAction::Rollback, 10), PauseEffect::Rollback);
}

#[test]
fn overwriting_an_occupied_slot_takes_a_second_press() {
    let mut ui = ui(PlayerMode::Save);
    let taken = SaveSlotState::Compatible(save(0));
    let press = SaveLoadButton::Slot(SaveSlot::Manual(2));
    assert_eq!(ui.save_load_press(press, Some(&taken)), SaveLoadEffect::Nothing);
    assert_eq!(ui.confirm_overwrite, Some(2));
    assert_eq!(ui.mode, PlayerMode::Save);
    assert_eq!(ui.save_load_press(press, Some(&taken)), SaveLoadEffect::Capture(SaveSlot::Manual(2)));
    assert_eq!(ui.mode, PlayerMode::Playing);
    assert_eq!(ui.confirm_overwrite, None);
    let mut ui = self::ui(PlayerMode::Save);
    assert_eq!(
        ui.save_load_press(press, Some(&SaveSlotState::Empty)),
        SaveLoadEffect::Capture(SaveSlot::Manual(2))
    );
    let mut ui = self::ui(PlayerMode::Save);
    assert_eq!(ui.save_load_press(SaveLoadButton::Slot(SaveSlot::Autosave), None), SaveLoadEffect::Nothing);
    let mut ui = self::ui(PlayerMode::Load);
    assert_eq!(ui.save_load_press(press, Some(&SaveSlotState::Empty)), SaveLoadEffect::Nothing);
    assert_eq!(ui.save_load_press(press, Some(&taken)), SaveLoadEffect::Restore(SaveSlot::Manual(2)));
    assert_eq!(ui.mode, PlayerMode::Playing);
    let mut ui = self::ui(PlayerMode::Load);
    assert_eq!(ui.save_load_press(SaveLoadButton::Rollback, None), SaveLoadEffect::Rollback);
    assert_eq!(ui.mode, PlayerMode::Playing);
}

#[test]
fn save_and_load_shortcuts_open_and_close_their_screens() {
    let mut ui = ui(PlayerMode::Playing);
    ui.save_load_shortcuts(true, false, false, true);
    assert_eq!(ui.mode, PlayerMode::Playing);
    ui.save_load_shortcuts(true, false, false, false);
    assert_eq!(ui.mode, PlayerMode::Save);
    ui.save_load_shortcuts(false, true, false, false);
    assert_eq!(ui.mode, PlayerMode::Load);
    ui.save_load_shortcuts(false, false, true, false);
    assert_eq!(ui.mode, PlayerMode::Playing);
}

#[test]
fn settings_buttons_change_one_preference_each() {
    let mut ui = ui(PlayerMode::Settings);
    assert_eq!(ui.settings_button(SettingsActionKind::TextSpeed), SettingsEffect::Persist);
    assert_eq!(ui.preferences.text_speed, 60);
    ui.settings_button(SettingsActionKind::TextSpeed);
    assert_eq!(ui.preferences.text_speed, u16::MAX);
    ui.settings_button(SettingsActionKind::TextSpeed);
    assert_eq!(ui.preferences.text_speed, 15);
    assert_eq!(next_text_speed(7), 15);
    ui.settings_button(SettingsActionKind::VolumeUp);
    assert_eq!(ui.preferences.music_volume, 100);
    ui.settings_button(SettingsActionKind::VolumeDown);
    ui.settings_button(SettingsActionKind::VolumeDown);
    assert_eq!(ui.preferences.music_volume, 80);
    ui.preferences.music_volume = 5;
    ui.settings_button(SettingsActionKind::VolumeDown);
    assert_eq!(ui.preferences.music_volume, 0);
    assert_eq!(ui.settings_button(SettingsActionKind::Fullscreen), SettingsEffect::PersistWindow(true));
    ui.settings_button(SettingsActionKind::Mute);
    ui.settings_button(SettingsActionKind::AutoAdvance);
    let labels: Vec<String> = ui.settings_labels().into_iter().map(|(_, text)| text).collect();
    assert_eq!(
        labels,
        vec![
            "Text Speed: Slow",
            "Auto Advance: On",
            "Music Volume −",
            "Music Volume +  (0%)",
            "Mute: On",
            "Fullscreen: On",
            "Back",
        ]
    );
    assert_eq!(ui.settings_button(SettingsActionKind::Back), SettingsEffect::Back);
    assert_eq!(ui.mode, PlayerMode::Paused);
}

#[test]
fn frame_checks_pick_the_screen() {
    let mut ui = ui(PlayerMode::Boot);
    ui.sync_mode(false, true, false);
    assert_eq!(ui.mode, PlayerMode::Loading);
    ui.sync_mode(false, false, false);
    assert_eq!(ui.mode, PlayerMode::Playing);
    ui.mode = PlayerMode::Settings;
    ui.sync_mode(false, false, true);
    assert_eq!(ui.mode, PlayerMode::Settings);
    ui.mode = PlayerMode::Playing;
    ui.sync_mode(false, false, true);
    assert_eq!(ui.mode, PlayerMode::Ended);
    ui.sync_mode(true, true, true);
    assert_eq!(ui.mode, PlayerMode::RuntimeError);
    assert_eq!(status_overlay(Some("bg: missing"), false), Some(("bg: missing".to_string(), true)));
    assert_eq!(status_overlay(None, true), Some(("Loading…".to_string(), false)));
    assert_eq!(status_overlay(None, false), None);
}

#[test]
fn menu_keys_move_the_focus_and_choose() {
    let none = [false; 9];
    assert_eq!(menu_key(0, 3, true, false, false, &none), MenuKey::Focus(1));
    assert_eq!(menu_key(2, 3, true, false, false, &none), MenuKey::Focus(0));
    assert_eq!(menu_key(0, 3, false, true, false, &none), MenuKey::Focus(2));
    assert_eq!(menu_key(2, 3, false, true, false, &none), MenuKey::Focus(1));
    assert_eq!(menu_key(1, 3, false, false, true, &none), MenuKey::Idle);
    let mut digits = [false; 9];
    digits[1] = true;
    assert_eq!(menu_key(0, 3, false, false, false, &digits), MenuKey::Choose(1));
    assert_eq!(menu_key(0, 1, false, false, false, &digits), MenuKey::Idle);
    assert_eq!(menu_key(0, 3, false, false, false, &none), MenuKey::Idle);
    assert_eq!(choice_label(0, "Stay"), "1. Stay");
    assert_eq!(choice_label(11, "Leave"), "12. Leave");
}

#[test]
fn advancing_finishes_effects_before_the_story_moves() {
    assert_eq!(advance_step(false, true), AdvanceStep::Idle);
    assert_eq!(advance_step(true, true), AdvanceStep::FinishEffects);
    assert_eq!(advance_step(true, false), AdvanceStep::Continue);
    assert!(rollback_wanted(false, false, false, true, false, true, false));
    assert!(!rollback_wanted(false, false, false, false, false, true, false));
    assert!(rollback_wanted(false, false, false, false, true, false, false));
    assert!(!rollback_wanted(false, false, true, true, true, true, true));
}

#[test]
fn auto_advance_waits_for_the_line_length() {
    assert_eq!(auto_advance_wait_ms("Hello"), 1725);
    let mut auto = AutoAdvance::new();
    assert!(!auto.tick(true, Some((4, 1725)), 1000));
    assert_eq!(auto.elapsed_ms, 1000);
    assert!(!auto.tick(true, Some((4, 1725)), 700));
    assert!(auto.tick(true, Some((4, 1725)), 25));
    assert_eq!(auto.dialogue_pc, None);
    assert!(!auto.tick(true, Some((5, 1725)), 1000));
    assert!(!auto.tick(true, Some((6, 1725)), 1000));
    assert_eq!(auto.elapsed_ms, 1000);
    assert!(!auto.tick(false, Some((6, 1725)), 1000));
    assert_eq!(auto.elapsed_ms, 0);
    assert_eq!(shown_text("Hello", Some(2)), "He");
    assert_eq!(shown_text("Hello", Some(9)), "Hello");
    assert_eq!(shown_text("Hello", None), "Hello");
}

fn pos() -> SourcePos {
    SourcePos { file: "player.vn".to_string(), line: 1, column: 1 }
}

fn stmt(kind: StmtKind) -> Stmt {
    Stmt { kind, pos: pos() }
}

fn story(statements: Vec<Stmt>) -> VnStory {
    let program = compile(&Script { statements });
    VnStory::new(program).unwrap()
}

#[test]
fn visual_events_drain_to_the_next_dialogue() {
    let mut story = story(vec![
        stmt(StmtKind::Label { name: "start".to_string() }),
        stmt(StmtKind::Scene {
            image: "bg hallway".to_string(),
            transition: Some(Transition { kind: "fade".to_string(), duration_ms: 500 }),
        }),
        stmt(StmtKind::Say {
            speaker: Some("Eileen".to_string()),
            text_id: None,
            text: "We should move before anyone sees us.".to_string(),
            effect: TextEffect::Instant,
        }),
        stmt(StmtKind::End),
    ]);
    let mut queue = PresentationCommandQueue::new();
    let first = story.continue_story().unwrap();
    assert!(matches!(first, VmEvent::Scene { .. }));
    let reached_menu = queue_event_and_following_visuals(&mut story, &mut queue, first, 100);
    assert!(!reached_menu);
    assert_eq!(queue.commands.len(), 3);
    assert!(matches!(&queue.commands[0], PresentationCommand::SetBackground { image, .. } if image == "bg hallway"));
    assert_eq!(queue.commands[1], PresentationCommand::ClearMenu);
    assert!(matches!(
        &queue.commands[2],
        PresentationCommand::ShowDialogue { text, .. } if text == "We should move before anyone sees us."
    ));
    assert_eq!(story.revision(), 2);
    assert_eq!(queue.pop_front(), Some(PresentationCommand::SetBackground {
        image: "bg hallway".to_string(),
        transition: Some(Transition { kind: "fade".to_string(), duration_ms: 500 }),
    }));
    queue.clear();
    assert!(queue.is_empty());
}

#[test]
fn draining_stops_at_a_menu_and_at_the_limit() {
    let mut story = story(vec![
        stmt(StmtKind::Label { name: "start".to_string() }),
        stmt(StmtKind::Scene { image: "bg room".to_string(), transition: None }),
        stmt(StmtKind::StopMusic),
        stmt(StmtKind::Menu {
            choices: vec![vinyl::ast::Choice {
                text_id: None,
                text: "Continue".to_string(),
                condition: None,
                body: vec![stmt(StmtKind::End)],
                pos: pos(),
            }],
        }),
    ]);
    let mut queue = PresentationCommandQueue::new();
    let first = story.continue_story().unwrap();
    assert!(!queue_event_and_following_visuals(&mut story, &mut queue, first, 0));
    assert_eq!(queue.commands.len(), 1);
    let next = story.continue_story().unwrap();
    assert!(queue_event_and_following_visuals(&mut story, &mut queue, next, 10));
    assert_eq!(queue.commands.last(), Some(&PresentationCommand::ShowMenu(vec!["Continue".to_string()])));
}

#[test]
fn autosave_waits_for_an_idle_new_revision() {
    let mut story = story(vec![
        stmt(StmtKind::Label { name: "start".to_string() }),
        stmt(StmtKind::Say { speaker: None, text_id: None, text: "Hi.".to_string(), effect: TextEffect::Instant }),
        stmt(StmtKind::End),
    ]);
    let mut ui = ui(PlayerMode::Playing);
    assert!(!ui.autosave_due(&story, false));
    story.continue_story().unwrap();
    assert!(ui.autosave_due(&story, false));
    assert!(!ui.autosave_due(&story, true));
    ui.quit_confirmed_revision = Some(1);
    ui.autosaved(story.revision());
    assert_eq!(ui.quit_confirmed_revision, None);
    assert!(!ui.autosave_due(&story, false));
    ui.mode = PlayerMode::Paused;
    story.continue_story().unwrap();
    assert!(!ui.autosave_due(&story, false));
}

fn frame(mode: PlayerMode) -> VisualFrame {
    VisualFrame {
        mode,
        idle: true,
        menu_shown: false,
        dialogue_shown: true,
        music_playing: true,
        next_dialogue_shown: false,
        menu_capture_written: false,
        next_capture_written: false,
        save_written: false,
    }
}

#[test]
fn capture_run_walks_through_menu_dialogue_and_save() {
    let mut run = VisualTestState::new();
    assert_eq!(run.step(frame(PlayerMode::Playing)), VisualAction::ContinueStory);
    run.story_continued();
    assert_eq!(run.phase, VisualTestPhase::WaitMenu);
    let menu = VisualFrame { menu_shown: true, ..frame(PlayerMode::Playing) };
    for _ in 0..4 {
        assert_eq!(run.step(menu), VisualAction::Nothing);
    }
    assert_eq!(run.step(menu), VisualAction::CaptureMenu);
    assert_eq!(run.step(menu), VisualAction::Nothing);
    let written = VisualFrame { menu_capture_written: true, ..menu };
    assert_eq!(run.step(written), VisualAction::ChooseFirst);
    let next = VisualFrame { next_dialogue_shown: true, ..frame(PlayerMode::Playing) };
    for _ in 0..4 {
        assert_eq!(run.step(next), VisualAction::Nothing);
    }
    assert_eq!(run.step(VisualFrame { idle: false, ..next }), VisualAction::Nothing);
    assert_eq!(run.stable_frames, 0);
    for _ in 0..4 {
        run.step(next);
    }
    assert_eq!(run.step(next), VisualAction::CaptureNextDialogue);
    assert_eq!(run.step(VisualFrame { next_capture_written: true, ..next }), VisualAction::SaveToFirstSlot);
    assert_eq!(run.step(next), VisualAction::Nothing);
    assert_eq!(run.step(VisualFrame { save_written: true, ..next }), VisualAction::ExitWithSuccess);
    assert_eq!(run.step(frame(PlayerMode::RuntimeError)), VisualAction::ExitWithError);
}

#[test]
fn queued_commands_wait_for_their_assets() {
    let mut queue = PresentationCommandQueue::new();
    let mut snapshot = PresentationSnapshot::new();
    let mut applied = Vec::new();
    assert_eq!(apply_front(&mut queue, &mut snapshot, &mut applied, &AssetState::Ready), QueueStep::Empty);
    queue.push(PresentationCommand::SetBackground { image: "bg room".to_string(), transition: None });
    queue.push(PresentationCommand::PlayMusic("theme.ogg".to_string()));
    assert_eq!(apply_front(&mut queue, &mut snapshot, &mut applied, &AssetState::Loading), QueueStep::Waiting);
    assert_eq!(snapshot.background, None);
    assert_eq!(apply_front(&mut queue, &mut snapshot, &mut applied, &AssetState::Ready), QueueStep::Applied);
    assert_eq!(snapshot.background.as_deref(), Some("bg room"));
    assert_eq!(applied.len(), 1);
    assert_eq!(queue.commands.len(), 1);
    let failed = AssetState::Failed("theme.ogg: missing".to_string());
    assert_eq!(apply_front(&mut queue, &mut snapshot, &mut applied, &failed), QueueStep::Failed);
    assert!(queue.is_empty());
    assert_eq!(snapshot.music, None);
}

#[test]
fn every_listed_slot_has_its_own_file() {
    let names: Vec<String> = save_load_slots().into_iter().map(|slot| slot.file_name().unwrap()).collect();
    assert_eq!(names[0], "autosave.json");
    assert_eq!(names[1], "slot-01.json");
    assert_eq!(names[12], "slot-12.json");
    for (i, a) in names.iter().enumerate() {
        for b in &names[i + 1..] {
            assert_ne!(a, b);
        }
    }
    assert_eq!(SaveSlot::Manual(13).file_name(), Err(13));
    assert_eq!(SaveSlot::Manual(0).file_name(), Err(0));
}

fn apply_queue(queue: &mut PresentationCommandQueue, snapshot: &mut PresentationSnapshot) {
    let mut applied = Vec::new();
    while apply_front(queue, snapshot, &mut applied, &AssetState::Ready) == QueueStep::Applied {}
}

fn say_as(speaker: &str, text: &str) -> Stmt {
    stmt(StmtKind::Say {
        speaker: Some(speaker.to_string()),
        text_id: None,
        text: text.to_string(),
        effect: TextEffect::Instant,
    })
}

fn start() -> Stmt {
    stmt(StmtKind::Label { name: "start".to_string() })
}

#[test]
fn keyboard_advance_queues_and_applies_next_dialogue() {
    let mut story = story(vec![start(), say_as("Narrator", "Space advances the story.")]);
    let mut queue = PresentationCommandQueue::new();
    let mut snapshot = PresentationSnapshot::new();
    assert_eq!(advance_step(true, false), AdvanceStep::Continue);
    let event = story.continue_story().unwrap();
    queue_event_and_following_visuals(&mut story, &mut queue, event, 1000);
    apply_queue(&mut queue, &mut snapshot);
    let dialogue = snapshot.dialogue.unwrap();
    assert_eq!(dialogue.speaker.as_deref(), Some("Narrator"));
    assert_eq!(dialogue.text, "Space advances the story.");
    assert!(queue.is_empty());
}

#[test]
fn keyboard_advance_drains_visual_events_to_next_dialogue() {
    let mut story = story(vec![
        start(),
        say_as("Narrator", "The room is quiet."),
        stmt(StmtKind::Scene { image: "bg hallway".to_string(), transition: None }),
        stmt(StmtKind::Show {
            tag: "eileen".to_string(),
            attrs: vec!["worried".to_string()],
            position: "left".to_string(),
            transition: None,
        }),
        stmt(StmtKind::Hide { tag: "eileen".to_string() }),
        stmt(StmtKind::PlayMusic { path: "audio/tension.ogg".to_string() }),
        stmt(StmtKind::StopMusic),
        say_as("Eileen", "We should move before anyone sees us."),
    ]);
    story.continue_story().unwrap();
    let mut queue = PresentationCommandQueue::new();
    let mut snapshot = PresentationSnapshot::new();
    assert_eq!(advance_step(true, false), AdvanceStep::Continue);
    let event = story.continue_story().unwrap();
    assert!(!queue_event_and_following_visuals(&mut story, &mut queue, event, 1000));
    apply_queue(&mut queue, &mut snapshot);
    assert_eq!(snapshot.background.as_deref(), Some("bg hallway"));
    assert!(snapshot.sprites.is_empty());
    assert_eq!(snapshot.music, None);
    let dialogue = snapshot.dialogue.unwrap();
    assert_eq!(dialogue.speaker.as_deref(), Some("Eileen"));
    assert_eq!(dialogue.text, "We should move before anyone sees us.");
    assert!(queue.is_empty());
}

#[test]
fn pending_choice_selects_menu_branch_and_applies_queued_presentation_state() {
    let mut story = story(vec![
        start(),
        stmt(StmtKind::Menu {
            choices: vec![
                vinyl::ast::Choice {
                    text_id: None,
                    text: "Stay".to_string(),
                    condition: None,
                    body: vec![say_as("Guide", "You stayed.")],
                    pos: pos(),
                },
                vinyl::ast::Choice {
                    text_id: None,
                    text: "Leave".to_string(),
                    condition: None,
                    body: vec![
                        stmt(StmtKind::Scene { image: "bg hallway".to_string(), transition: None }),
                        stmt(StmtKind::Show {
                            tag: "eileen".to_string(),
                            attrs: vec!["concerned".to_string()],
                            position: "right".to_string(),
                            transition: None,
                        }),
                        say_as("Eileen", "We should leave now."),
                    ],
                    pos: pos(),
                },
            ],
        }),
        stmt(StmtKind::End),
    ]);
    let mut queue = PresentationCommandQueue::new();
    let mut snapshot = PresentationSnapshot::new();
    let menu = story.continue_story().unwrap();
    assert!(queue_event_and_following_visuals(&mut story, &mut queue, menu, 1000));
    apply_queue(&mut queue, &mut snapshot);
    let event = story.select(1).unwrap();
    queue_event_and_following_visuals(&mut story, &mut queue, event, 1000);
    apply_queue(&mut queue, &mut snapshot);
    assert_eq!(snapshot.menu, None);
    assert_eq!(snapshot.background.as_deref(), Some("bg hallway"));
    assert_eq!(snapshot.sprites.len(), 1);
    let eileen = snapshot.sprites.get("eileen").unwrap();
    assert_eq!(eileen.attrs, vec!["concerned".to_string()]);
    assert_eq!(eileen.position, "right");
    let dialogue = snapshot.dialogue.unwrap();
    assert_eq!(dialogue.speaker.as_deref(), Some("Eileen"));
    assert_eq!(dialogue.text, "We should leave now.");
}

#[test]
fn keyboard_advance_does_not_choose_while_story_is_waiting_on_menu() {
    let mut story = story(vec![
        start(),
        stmt(StmtKind::Menu {
            choices: vec![vinyl::ast::Choice {
                text_id: None,
                text: "Continue".to_string(),
                condition: None,
                body: vec![stmt(StmtKind::Say {
                    speaker: None,
                    text_id: None,
                    text: "Chosen.".to_string(),
                    effect: TextEffect::Instant,
                })],
                pos: pos(),
            }],
        }),
    ]);
    story.continue_story().unwrap();
    let mut queue = PresentationCommandQueue::new();
    let mut snapshot = PresentationSnapshot::new();
    queue.push(PresentationCommand::ShowMenu(vec!["Continue".to_string()]));
    apply_queue(&mut queue, &mut snapshot);
    assert_eq!(menu_key(0, 1, false, false, true, &[false; 9]), MenuKey::Idle);
    assert_eq!(snapshot.menu, Some(vec!["Continue".to_string()]));
    assert_eq!(snapshot.dialogue, None);
}

#[test]
fn an_incompatible_save_carries_its_first_mismatch() {
    let id = ProjectId("test".to_string());
    match vinyl::save::classify_save(save(0), &id, "1", "new") {
        SaveSlotState::Incompatible(_, SaveValidationError::ScriptHashMismatch { actual, expected }) => {
            assert_eq!(actual, "hash");
            assert_eq!(expected, "new");
        }
        other => panic!("unexpected {other:?}"),
    }
    match vinyl::save::classify_save(save(0), &ProjectId("demo".to_string()), "2", "new") {
        SaveSlotState::Incompatible(_, SaveValidationError::WrongGameId { actual, expected }) => {
            assert_eq!(actual, "test");
            assert_eq!(expected, "demo");
        }
        other => panic!("unexpected {other:?}"),
    }
    assert!(matches!(vinyl::save::classify_save(save(0), &id, "1", "hash"), SaveSlotState::Compatible(_)));
}
