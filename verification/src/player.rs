//! The desktop player's decisions: which screen is up, what a key or a button press does,
//! and what the pause, settings and save screens show. A host runs the window, reads the
//! input and the save files, and performs the effects these functions return.
use vstd::prelude::*;
use crate::save::{known_text_speed, opt_dialogue_view, sanitized, Preferences, SaveSlot, SaveSlotState, SpecDialogue, MANUAL_SLOTS};
use crate::text::{chars_of, decimal, push_all, push_decimal, slice_chars, string_of};
use crate::save::text_speed_label;
use crate::save::text_speed_name;
use crate::story::{continued, recorded, SpecStory, VnStory};
use crate::vm::{SpecEvent, VmEvent};
use crate::presentation::{apply, apply_command, commands_from_event, event_commands, PresentationCommand, SpecCommand};
use crate::save::PresentationSnapshot;

verus! {

/// The player's top-level screen.
#[derive(Clone, Copy, Debug, PartialEq, Eq, Structural)]
pub enum PlayerMode {
    Boot,
    Loading,
    Playing,
    Paused,
    Save,
    Load,
    Settings,
    RuntimeError,
    Ended,
}

/// A button of the pause screen.
#[derive(Clone, Copy, Debug, PartialEq, Eq, Structural)]
pub enum PlayerAction {
    Resume,
    Save,
    Load,
    Settings,
    Rollback,
    Quit,
}

/// A button of the settings screen.
#[derive(Clone, Copy, Debug, PartialEq, Eq, Structural)]
pub enum SettingsActionKind {
    TextSpeed,
    AutoAdvance,
    VolumeDown,
    VolumeUp,
    Mute,
    Fullscreen,
    Back,
}

/// What the host does after a pause-screen button.
#[derive(Clone, Copy, Debug, PartialEq, Eq, Structural)]
pub enum PauseEffect {
    Nothing,
    Rollback,
    Exit,
}

/// What the host does after a settings button: nothing but leave, store the preferences, or
/// store them and switch the window to fullscreen (`true`) or windowed (`false`).
#[derive(Clone, Copy, Debug, PartialEq, Eq, Structural)]
pub enum SettingsEffect {
    Back,
    Persist,
    PersistWindow(bool),
}

/// The state of the player's screens.
pub struct PlayerUi {
    pub mode: PlayerMode,
    /// The manual slot whose overwrite waits for a second press.
    pub confirm_overwrite: Option<u8>,
    pub preferences: Preferences,
    /// The story revision last written to the autosave slot.
    pub autosaved_revision: Option<u64>,
    /// The story revision at which quitting waits for a second press.
    pub quit_confirmed_revision: Option<u64>,
}

/// The screen Escape leads to from a screen.
pub open spec fn escape_target(m: PlayerMode) -> PlayerMode {
    match m {
        PlayerMode::Playing => PlayerMode::Paused,
        PlayerMode::Paused => PlayerMode::Playing,
        PlayerMode::Save | PlayerMode::Load | PlayerMode::Settings => PlayerMode::Paused,
        _ => m,
    }
}

/// The text speed after the next press of its button: slow, normal, fast, instant, then slow
/// again; an unknown speed starts over at slow.
pub open spec fn next_speed(speed: u16) -> u16 {
    if speed == 15 {
        30
    } else if speed == 30 {
        60
    } else if speed == 60 {
        u16::MAX
    } else {
        15
    }
}

/// Steps the text speed to the next one the settings screen offers.
pub fn next_text_speed(speed: u16) -> (r: u16)
    ensures
        r == next_speed(speed),
        known_text_speed(r),
{
    if speed == 15 {
        30
    } else if speed == 30 {
        60
    } else if speed == 60 {
        u16::MAX
    } else {
        15
    }
}

/// The music volume after pressing the volume-up button: ten more, at most 100.
pub open spec fn volume_up(v: u8) -> u8 {
    if v + 10 > 100 { 100 } else { (v + 10) as u8 }
}

/// The music volume after pressing the volume-down button: ten less, at least 0.
pub open spec fn volume_down(v: u8) -> u8 {
    if v < 10 { 0 } else { (v - 10) as u8 }
}

/// The preferences after a settings button.
pub open spec fn preferences_after(p: Preferences, action: SettingsActionKind) -> Preferences {
    match action {
        SettingsActionKind::TextSpeed => Preferences { text_speed: next_speed(p.text_speed), ..p },
        SettingsActionKind::AutoAdvance => Preferences { auto_advance: !p.auto_advance, ..p },
        SettingsActionKind::VolumeDown => Preferences { music_volume: volume_down(p.music_volume), ..p },
        SettingsActionKind::VolumeUp => Preferences { music_volume: volume_up(p.music_volume), ..p },
        SettingsActionKind::Mute => Preferences { muted: !p.muted, ..p },
        SettingsActionKind::Fullscreen => Preferences { fullscreen: !p.fullscreen, ..p },
        SettingsActionKind::Back => p,
    }
}

/// A press of a pause-screen button at a story revision: the screens after it and what the
/// host does.
pub open spec fn pause_press(ui: PlayerUi, action: PlayerAction, revision: u64) -> (PlayerUi, PauseEffect) {
    match action {
        PlayerAction::Resume => (
            PlayerUi { mode: PlayerMode::Playing, quit_confirmed_revision: None, ..ui },
            PauseEffect::Nothing,
        ),
        PlayerAction::Save => (PlayerUi { mode: PlayerMode::Save, ..ui }, PauseEffect::Nothing),
        PlayerAction::Load => (PlayerUi { mode: PlayerMode::Load, ..ui }, PauseEffect::Nothing),
        PlayerAction::Settings => (PlayerUi { mode: PlayerMode::Settings, ..ui }, PauseEffect::Nothing),
        PlayerAction::Rollback => (PlayerUi { mode: PlayerMode::Playing, ..ui }, PauseEffect::Rollback),
        PlayerAction::Quit => if ui.autosaved_revision == Some(revision) || ui.quit_confirmed_revision == Some(revision) {
            (ui, PauseEffect::Exit)
        } else {
            (PlayerUi { quit_confirmed_revision: Some(revision), ..ui }, PauseEffect::Nothing)
        },
    }
}

impl PlayerUi {
    /// The screens at start-up: the boot screen, with the given preferences and nothing
    /// pending.
    pub fn new(preferences: Preferences) -> (r: Self)
        ensures
            r.mode == PlayerMode::Boot,
            r.confirm_overwrite is None,
            r.preferences == preferences,
            r.autosaved_revision is None,
            r.quit_confirmed_revision is None,
    {
        PlayerUi {
            mode: PlayerMode::Boot,
            confirm_overwrite: None,
            preferences,
            autosaved_revision: None,
            quit_confirmed_revision: None,
        }
    }

    /// The pause shortcuts: Alt+Enter toggles fullscreen, and returns the new setting for the
    /// host to apply to the window and store; otherwise Escape, unless an asset failed to
    /// load, moves between the story and the pause screen, and from the save, load and
    /// settings screens back to the pause screen, dropping a pending overwrite.
    pub fn pause_shortcuts(&mut self, alt_held: bool, enter_pressed: bool, escape_pressed: bool, load_error: bool) -> (r: Option<bool>)
        ensures
            alt_held && enter_pressed ==> {
                &&& r == Some(!old(self).preferences.fullscreen)
                &&& final(self).preferences == (Preferences { fullscreen: !old(self).preferences.fullscreen, ..old(self).preferences })
                &&& final(self).mode == old(self).mode
                &&& final(self).confirm_overwrite == old(self).confirm_overwrite
            },
            !(alt_held && enter_pressed) ==> {
                &&& r is None
                &&& final(self).preferences == old(self).preferences
                &&& final(self).mode == if escape_pressed && !load_error { escape_target(old(self).mode) } else { old(self).mode }
                &&& final(self).confirm_overwrite == if escape_pressed && !load_error && (old(self).mode == PlayerMode::Save
                    || old(self).mode == PlayerMode::Load) {
                    None
                } else {
                    old(self).confirm_overwrite
                }
            },
            final(self).autosaved_revision == old(self).autosaved_revision,
            final(self).quit_confirmed_revision == old(self).quit_confirmed_revision,
    {
        if alt_held && enter_pressed {
            self.preferences.fullscreen = !self.preferences.fullscreen;
            return Some(self.preferences.fullscreen);
        }
        if !escape_pressed || load_error {
            return None;
        }
        match self.mode {
            PlayerMode::Playing => self.mode = PlayerMode::Paused,
            PlayerMode::Paused => self.mode = PlayerMode::Playing,
            PlayerMode::Save | PlayerMode::Load => {
                self.confirm_overwrite = None;
                self.mode = PlayerMode::Paused;
            },
            PlayerMode::Settings => self.mode = PlayerMode::Paused,
            _ => {},
        }
        None
    }

    /// A press of a pause-screen button. Resume returns to the story and forgets a pending
    /// quit; Save, Load and Settings open their screens; Rollback returns to the story and
    /// asks the host to roll back; Quit exits when the current revision is autosaved or a quit
    /// was already asked at it, and otherwise asks for a second press.
    pub fn pause_button(&mut self, action: PlayerAction, revision: u64) -> (r: PauseEffect)
        ensures
            (*final(self), r) == pause_press(*old(self), action, revision),
    {
        match action {
            PlayerAction::Resume => {
                self.quit_confirmed_revision = None;
                self.mode = PlayerMode::Playing;
                PauseEffect::Nothing
            },
            PlayerAction::Save => {
                self.mode = PlayerMode::Save;
                PauseEffect::Nothing
            },
            PlayerAction::Load => {
                self.mode = PlayerMode::Load;
                PauseEffect::Nothing
            },
            PlayerAction::Settings => {
                self.mode = PlayerMode::Settings;
                PauseEffect::Nothing
            },
            PlayerAction::Rollback => {
                self.mode = PlayerMode::Playing;
                PauseEffect::Rollback
            },
            PlayerAction::Quit => {
                let autosaved = match self.autosaved_revision {
                    Some(r) => r == revision,
                    None => false,
                };
                let asked = match self.quit_confirmed_revision {
                    Some(r) => r == revision,
                    None => false,
                };
                if autosaved || asked {
                    PauseEffect::Exit
                } else {
                    self.quit_confirmed_revision = Some(revision);
                    PauseEffect::Nothing
                }
            },
        }
    }

    /// A press of a settings button: each one but Back changes one preference and asks the
    /// host to store them (Fullscreen also to switch the window); Back returns to the pause
    /// screen.
    pub fn settings_button(&mut self, action: SettingsActionKind) -> (r: SettingsEffect)
        ensures
            final(self).confirm_overwrite == old(self).confirm_overwrite,
            final(self).autosaved_revision == old(self).autosaved_revision,
            final(self).quit_confirmed_revision == old(self).quit_confirmed_revision,
            final(self).mode == if action == SettingsActionKind::Back { PlayerMode::Paused } else { old(self).mode },
            r == match action {
                SettingsActionKind::Back => SettingsEffect::Back,
                SettingsActionKind::Fullscreen => SettingsEffect::PersistWindow(!old(self).preferences.fullscreen),
                _ => SettingsEffect::Persist,
            },
            final(self).preferences == preferences_after(old(self).preferences, action),
    {
        match action {
            SettingsActionKind::TextSpeed => {
                self.preferences.text_speed = next_text_speed(self.preferences.text_speed);
                SettingsEffect::Persist
            },
            SettingsActionKind::AutoAdvance => {
                self.preferences.auto_advance = !self.preferences.auto_advance;
                SettingsEffect::Persist
            },
            SettingsActionKind::VolumeDown => {
                let v = self.preferences.music_volume;
                self.preferences.music_volume = if v < 10 { 0 } else { v - 10 };
                SettingsEffect::Persist
            },
            SettingsActionKind::VolumeUp => {
                let v = self.preferences.music_volume;
                self.preferences.music_volume = if v >= 90 { 100 } else { v + 10 };
                SettingsEffect::Persist
            },
            SettingsActionKind::Mute => {
                self.preferences.muted = !self.preferences.muted;
                SettingsEffect::Persist
            },
            SettingsActionKind::Fullscreen => {
                self.preferences.fullscreen = !self.preferences.fullscreen;
                SettingsEffect::PersistWindow(self.preferences.fullscreen)
            },
            SettingsActionKind::Back => {
                self.mode = PlayerMode::Paused;
                SettingsEffect::Back
            },
        }
    }

    /// The save and load shortcuts, ignored while assets load, after a load error or during a
    /// transition (`busy`): F5 opens the save screen, F9 the load screen, and Escape leaves
    /// either for the story; each drops a pending overwrite.
    pub fn save_load_shortcuts(&mut self, f5: bool, f9: bool, escape: bool, busy: bool)
        ensures
            final(self).preferences == old(self).preferences,
            final(self).autosaved_revision == old(self).autosaved_revision,
            final(self).quit_confirmed_revision == old(self).quit_confirmed_revision,
            ({
                let leave = escape && (old(self).mode == PlayerMode::Save || old(self).mode == PlayerMode::Load);
                if busy || !(f5 || f9 || leave) {
                    final(self).mode == old(self).mode && final(self).confirm_overwrite == old(self).confirm_overwrite
                } else {
                    &&& final(self).confirm_overwrite is None
                    &&& final(self).mode == if f5 {
                        PlayerMode::Save
                    } else if f9 {
                        PlayerMode::Load
                    } else {
                        PlayerMode::Playing
                    }
                }
            }),
    {
        if busy {
            return;
        }
        if f5 {
            self.confirm_overwrite = None;
            self.mode = PlayerMode::Save;
        } else if f9 {
            self.confirm_overwrite = None;
            self.mode = PlayerMode::Load;
        } else if escape && (self.mode == PlayerMode::Save || self.mode == PlayerMode::Load) {
            self.confirm_overwrite = None;
            self.mode = PlayerMode::Playing;
        }
    }

    /// The screen after the host's frame checks: a load error shows the error screen, loading
    /// assets the loading screen; the pause, save, load and settings screens stay up;
    /// otherwise the story plays, or has ended.
    pub fn sync_mode(&mut self, load_error: bool, loading: bool, ended: bool)
        ensures
            final(self).mode == if load_error {
                PlayerMode::RuntimeError
            } else if loading {
                PlayerMode::Loading
            } else if old(self).mode == PlayerMode::Paused || old(self).mode == PlayerMode::Save
                || old(self).mode == PlayerMode::Load || old(self).mode == PlayerMode::Settings {
                old(self).mode
            } else if ended {
                PlayerMode::Ended
            } else {
                PlayerMode::Playing
            },
            final(self).preferences == old(self).preferences,
            final(self).confirm_overwrite == old(self).confirm_overwrite,
            final(self).autosaved_revision == old(self).autosaved_revision,
            final(self).quit_confirmed_revision == old(self).quit_confirmed_revision,
    {
        let m = self.mode;
        self.mode = if load_error {
            PlayerMode::RuntimeError
        } else if loading {
            PlayerMode::Loading
        } else if m == PlayerMode::Paused || m == PlayerMode::Save || m == PlayerMode::Load || m == PlayerMode::Settings {
            m
        } else if ended {
            PlayerMode::Ended
        } else {
            PlayerMode::Playing
        };
    }
}

// ---------------------------------------------------------------------------
// The save and load screens.
// ---------------------------------------------------------------------------

/// A button of the save and load screens.
#[derive(Clone, Copy, Debug, PartialEq, Eq)]
pub enum SaveLoadButton {
    Back,
    Rollback,
    Slot(SaveSlot),
}

/// What the host does after a save or load screen button: nothing, roll back, restore the
/// compatible save it read from a slot, or capture the story into a slot.
#[derive(Clone, Copy, Debug, PartialEq, Eq)]
pub enum SaveLoadEffect {
    Nothing,
    Rollback,
    Restore(SaveSlot),
    Capture(SaveSlot),
}

/// Whether what a slot holds can be loaded: a save compatible with the running project. A
/// slot that could not be read is `None`.
pub open spec fn loadable(state: Option<&SaveSlotState>) -> bool {
    state matches Some(SaveSlotState::Compatible(_))
}

/// Whether writing to a slot replaces something: anything but a slot read as empty.
pub open spec fn occupied(state: Option<&SaveSlotState>) -> bool {
    !(state matches Some(SaveSlotState::Empty))
}

/// The slots the save and load screens list: the autosave, then the manual slots in order.
pub open spec fn listed_slots() -> Seq<SaveSlot> {
    seq![SaveSlot::Autosave].add(Seq::new(MANUAL_SLOTS as nat, |i: int| SaveSlot::Manual((i + 1) as u8)))
}

/// The slots the save and load screens list.
pub fn save_load_slots() -> (r: Vec<SaveSlot>)
    ensures
        r@ == listed_slots(),
{
    let mut r: Vec<SaveSlot> = Vec::new();
    r.push(SaveSlot::Autosave);
    let mut n: u8 = 1;
    while n <= MANUAL_SLOTS
        invariant
            1 <= n <= MANUAL_SLOTS + 1,
            r@ == seq![SaveSlot::Autosave].add(Seq::new((n - 1) as nat, |i: int| SaveSlot::Manual((i + 1) as u8))),
        decreases MANUAL_SLOTS + 1 - n,
    {
        r.push(SaveSlot::Manual(n));
        n = n + 1;
        assert(r@ =~= seq![SaveSlot::Autosave].add(Seq::new((n - 1) as nat, |i: int| SaveSlot::Manual((i + 1) as u8))));
    }
    assert(r@ =~= listed_slots());
    r
}

/// The heading of the save or load screen.
pub fn save_load_title(mode: PlayerMode) -> (r: &'static str)
    ensures
        r@ == if mode == PlayerMode::Save { "Save"@ } else { "Load"@ },
{
    if mode == PlayerMode::Save { "Save" } else { "Load" }
}

/// Whether a slot's button responds: it can be written on the save screen (every slot but the
/// autosave), or what it holds can be loaded.
pub fn slot_enabled(mode: PlayerMode, slot: SaveSlot, state: Option<&SaveSlotState>) -> (r: bool)
    ensures
        r == ((mode == PlayerMode::Save && slot !is Autosave) || loadable(state)),
{
    let writable = mode == PlayerMode::Save && match slot {
        SaveSlot::Autosave => false,
        SaveSlot::Manual(_) => true,
    };
    let compatible = match state {
        Some(SaveSlotState::Compatible(_)) => true,
        _ => false,
    };
    writable || compatible
}

/// A number in at least two digits, with a leading zero below ten.
pub open spec fn two_digits(n: nat) -> Seq<char> {
    if n < 10 { "0"@ + decimal(n) } else { decimal(n) }
}

/// A slot's name: `Autosave`, or `Slot` and its number in two digits.
pub open spec fn slot_name(slot: SaveSlot) -> Seq<char> {
    match slot {
        SaveSlot::Autosave => "Autosave"@,
        SaveSlot::Manual(n) => "Slot "@ + two_digits(n as nat),
    }
}

/// At most the first 64 characters of a text.
pub open spec fn excerpt(s: Seq<char>) -> Seq<char> {
    if s.len() <= 64 { s } else { s.take(64) }
}

/// The line a saved dialogue is shown by: its speaker, or `Narrator`, a colon, and the
/// start of its text, or `No dialogue`.
pub open spec fn saved_line(d: Option<SpecDialogue>) -> Seq<char> {
    match d {
        Some(d) => (match d.speaker {
            Some(s) => s,
            None => "Narrator"@,
        }) + ": "@ + excerpt(d.text),
        None => "Narrator: No dialogue"@,
    }
}

/// The note under a manual slot whose overwrite waits for a second press.
pub open spec fn confirm_note(slot: SaveSlot, confirm: Option<u8>) -> Seq<char> {
    match slot {
        SaveSlot::Manual(n) => if confirm == Some(n) { "\nPress again to overwrite"@ } else { Seq::empty() },
        SaveSlot::Autosave => Seq::empty(),
    }
}

/// The text on a slot's button, given the time of its save as the host formats it.
pub open spec fn slot_label_text(slot: SaveSlot, state: &SaveSlotState, confirm: Option<u8>, time: Seq<char>) -> Seq<char> {
    match state {
        SaveSlotState::Empty => slot_name(slot) + "\nEmpty"@,
        SaveSlotState::Compatible(save) => slot_name(slot) + " · Compatible\n"@ + time + "\n"@
            + saved_line(opt_dialogue_view(save.presentation.dialogue)) + confirm_note(slot, confirm),
        SaveSlotState::Incompatible(save, _) => slot_name(slot) + " · Incompatible\n"@ + time + "\n"@
            + saved_line(opt_dialogue_view(save.presentation.dialogue)) + confirm_note(slot, confirm),
        SaveSlotState::Corrupt(error) => slot_name(slot) + "\nCorrupt · "@ + error@,
    }
}

fn push_str(buf: &mut Vec<char>, s: &str)
    ensures
        final(buf)@ == old(buf)@ + s@,
{
    let cs = chars_of(s);
    push_all(buf, cs.as_slice());
}

fn push_slot_name(buf: &mut Vec<char>, slot: SaveSlot)
    ensures
        final(buf)@ == old(buf)@ + slot_name(slot),
{
    match slot {
        SaveSlot::Autosave => push_str(buf, "Autosave"),
        SaveSlot::Manual(n) => {
            push_str(buf, "Slot ");
            if n < 10 {
                push_str(buf, "0");
            }
            push_decimal(buf, n as u64);
            proof {
                reveal_strlit("0");
                assert(buf@ =~= old(buf)@ + slot_name(slot));
            }
        },
    }
}

fn push_saved_line(buf: &mut Vec<char>, save: &crate::save::SaveFile)
    ensures
        final(buf)@ == old(buf)@ + saved_line(opt_dialogue_view(save.presentation.dialogue)),
{
    match &save.presentation.dialogue {
        Some(d) => {
            match &d.speaker {
                Some(s) => push_str(buf, s.as_str()),
                None => push_str(buf, "Narrator"),
            }
            push_str(buf, ": ");
            let text = chars_of(d.text.as_str());
            let n = text.len();
            let end = if n <= 64 { n } else { 64 };
            let start = slice_chars(text.as_slice(), 0, end);
            push_all(buf, start.as_slice());
            proof {
                assert(text@.subrange(0, end as int) =~= excerpt(d.text@));
            }
        },
        None => push_str(buf, "Narrator: No dialogue"),
    }
}

/// The text on a slot's button: the slot's name and, for a save, whether it is compatible,
/// the time it was written (`time`, as the host formats it in its time zone), its dialogue
/// line and, where the overwrite waits for a second press, a note saying so.
pub fn slot_label(slot: SaveSlot, state: &SaveSlotState, confirm: Option<u8>, time: &str) -> (r: String)
    ensures
        r@ == slot_label_text(slot, state, confirm, time@),
{
    let mut buf: Vec<char> = Vec::new();
    push_slot_name(&mut buf, slot);
    match state {
        SaveSlotState::Empty => push_str(&mut buf, "\nEmpty"),
        SaveSlotState::Compatible(save) | SaveSlotState::Incompatible(save, _) => {
            let compatible = match state {
                SaveSlotState::Compatible(_) => true,
                _ => false,
            };
            if compatible {
                push_str(&mut buf, " · Compatible\n");
            } else {
                push_str(&mut buf, " · Incompatible\n");
            }
            push_str(&mut buf, time);
            push_str(&mut buf, "\n");
            push_saved_line(&mut buf, save);
            let ask = match (slot, confirm) {
                (SaveSlot::Manual(n), Some(c)) => n == c,
                _ => false,
            };
            if ask {
                push_str(&mut buf, "\nPress again to overwrite");
            }
            proof {
                assert(buf@ =~= slot_label_text(slot, state, confirm, time@));
            }
        },
        SaveSlotState::Corrupt(error) => {
            push_str(&mut buf, "\nCorrupt · ");
            push_str(&mut buf, error.as_str());
            proof {
                assert(buf@ =~= slot_label_text(slot, state, confirm, time@));
            }
        },
    }
    string_of(buf.as_slice())
}

/// A press of a save or load screen button, given what the pressed slot holds: the screens
/// after it and what the host does.
pub open spec fn save_load_press_of(ui: PlayerUi, button: SaveLoadButton, state: Option<&SaveSlotState>) -> (PlayerUi, SaveLoadEffect) {
    match button {
        SaveLoadButton::Back => (
            PlayerUi { mode: PlayerMode::Playing, confirm_overwrite: None, ..ui },
            SaveLoadEffect::Nothing,
        ),
        SaveLoadButton::Rollback => (
            PlayerUi { mode: PlayerMode::Playing, confirm_overwrite: None, ..ui },
            SaveLoadEffect::Rollback,
        ),
        SaveLoadButton::Slot(slot) => if ui.mode == PlayerMode::Load {
            if loadable(state) {
                (PlayerUi { mode: PlayerMode::Playing, ..ui }, SaveLoadEffect::Restore(slot))
            } else {
                (ui, SaveLoadEffect::Nothing)
            }
        } else if ui.mode == PlayerMode::Save {
            match slot {
                SaveSlot::Autosave => (ui, SaveLoadEffect::Nothing),
                SaveSlot::Manual(n) => if occupied(state) && ui.confirm_overwrite != Some(n) {
                    (PlayerUi { confirm_overwrite: Some(n), ..ui }, SaveLoadEffect::Nothing)
                } else {
                    (
                        PlayerUi { mode: PlayerMode::Playing, confirm_overwrite: None, ..ui },
                        SaveLoadEffect::Capture(slot),
                    )
                },
            }
        } else {
            (ui, SaveLoadEffect::Nothing)
        },
    }
}

impl PlayerUi {
    /// A press of a save or load screen button, given what the pressed slot holds (`None`
    /// where it could not be read). Back returns to the story and Rollback also asks the host
    /// to roll back, each dropping a pending overwrite. On the load screen a loadable slot is
    /// restored and the story resumes. On the save screen a manual slot is written, the story
    /// resuming; where that replaces something, only at the second press in a row.
    pub fn save_load_press(&mut self, button: SaveLoadButton, state: Option<&SaveSlotState>) -> (r: SaveLoadEffect)
        ensures
            (*final(self), r) == save_load_press_of(*old(self), button, state),
    {
        match button {
            SaveLoadButton::Back => {
                self.confirm_overwrite = None;
                self.mode = PlayerMode::Playing;
                SaveLoadEffect::Nothing
            },
            SaveLoadButton::Rollback => {
                self.confirm_overwrite = None;
                self.mode = PlayerMode::Playing;
                SaveLoadEffect::Rollback
            },
            SaveLoadButton::Slot(slot) => {
                if self.mode == PlayerMode::Load {
                    match state {
                        Some(SaveSlotState::Compatible(_)) => {
                            self.mode = PlayerMode::Playing;
                            SaveLoadEffect::Restore(slot)
                        },
                        _ => SaveLoadEffect::Nothing,
                    }
                } else if self.mode == PlayerMode::Save {
                    match slot {
                        SaveSlot::Autosave => SaveLoadEffect::Nothing,
                        SaveSlot::Manual(n) => {
                            let taken = match state {
                                Some(SaveSlotState::Empty) => false,
                                _ => true,
                            };
                            let asked = match self.confirm_overwrite {
                                Some(c) => c == n,
                                None => false,
                            };
                            if taken && !asked {
                                self.confirm_overwrite = Some(n);
                                SaveLoadEffect::Nothing
                            } else {
                                self.confirm_overwrite = None;
                                self.mode = PlayerMode::Playing;
                                SaveLoadEffect::Capture(slot)
                            }
                        },
                    }
                } else {
                    SaveLoadEffect::Nothing
                }
            },
        }
    }
}

// ---------------------------------------------------------------------------
// The pause and settings screens, and the status overlay.
// ---------------------------------------------------------------------------

/// Labels with their texts as character sequences.
pub open spec fn labels_view<A>(v: Seq<(A, String)>) -> Seq<(A, Seq<char>)> {
    v.map_values(|p: (A, String)| (p.0, p.1@))
}

/// The pause screen's buttons, in order; Quit asks for confirmation once a quit is pending.
pub open spec fn pause_labels_of(quit_pending: bool) -> Seq<(PlayerAction, Seq<char>)> {
    seq![
        (PlayerAction::Resume, "Resume"@),
        (PlayerAction::Save, "Save"@),
        (PlayerAction::Load, "Load"@),
        (PlayerAction::Settings, "Settings"@),
        (PlayerAction::Rollback, "Rollback"@),
        (PlayerAction::Quit, if quit_pending { "Quit — press again to confirm"@ } else { "Quit"@ }),
    ]
}

/// `On` or `Off`.
pub open spec fn on_off(b: bool) -> Seq<char> {
    if b { "On"@ } else { "Off"@ }
}

/// The settings screen's buttons, in order, each with the preference it shows.
pub open spec fn settings_labels_of(p: Preferences) -> Seq<(SettingsActionKind, Seq<char>)> {
    seq![
        (SettingsActionKind::TextSpeed, "Text Speed: "@ + text_speed_label(p.text_speed)),
        (SettingsActionKind::AutoAdvance, "Auto Advance: "@ + on_off(p.auto_advance)),
        (SettingsActionKind::VolumeDown, "Music Volume −"@),
        (SettingsActionKind::VolumeUp, "Music Volume +  ("@ + decimal(p.music_volume as nat) + "%)"@),
        (SettingsActionKind::Mute, "Mute: "@ + on_off(p.muted)),
        (SettingsActionKind::Fullscreen, "Fullscreen: "@ + on_off(p.fullscreen)),
        (SettingsActionKind::Back, "Back"@),
    ]
}

fn on_off_str(b: bool) -> (r: &'static str)
    ensures
        r@ == on_off(b),
{
    if b { "On" } else { "Off" }
}

fn joined(a: &str, b: &str) -> (r: String)
    ensures
        r@ == a@ + b@,
{
    let mut buf = chars_of(a);
    push_str(&mut buf, b);
    string_of(buf.as_slice())
}

impl PlayerUi {
    /// The pause screen's buttons.
    pub fn pause_labels(&self) -> (r: Vec<(PlayerAction, String)>)
        ensures
            labels_view(r@) == pause_labels_of(self.quit_confirmed_revision is Some),
    {
        let quit = match self.quit_confirmed_revision {
            Some(_) => String::from_str("Quit — press again to confirm"),
            None => String::from_str("Quit"),
        };
        let r = vec![
            (PlayerAction::Resume, String::from_str("Resume")),
            (PlayerAction::Save, String::from_str("Save")),
            (PlayerAction::Load, String::from_str("Load")),
            (PlayerAction::Settings, String::from_str("Settings")),
            (PlayerAction::Rollback, String::from_str("Rollback")),
            (PlayerAction::Quit, quit),
        ];
        assert(labels_view(r@) =~= pause_labels_of(self.quit_confirmed_revision is Some));
        r
    }

    /// The settings screen's buttons.
    pub fn settings_labels(&self) -> (r: Vec<(SettingsActionKind, String)>)
        ensures
            labels_view(r@) == settings_labels_of(self.preferences),
    {
        let p = &self.preferences;
        let mut volume = chars_of("Music Volume +  (");
        push_decimal(&mut volume, p.music_volume as u64);
        push_str(&mut volume, "%)");
        let r = vec![
            (SettingsActionKind::TextSpeed, joined("Text Speed: ", text_speed_name(p.text_speed))),
            (SettingsActionKind::AutoAdvance, joined("Auto Advance: ", on_off_str(p.auto_advance))),
            (SettingsActionKind::VolumeDown, String::from_str("Music Volume −")),
            (SettingsActionKind::VolumeUp, string_of(volume.as_slice())),
            (SettingsActionKind::Mute, joined("Mute: ", on_off_str(p.muted))),
            (SettingsActionKind::Fullscreen, joined("Fullscreen: ", on_off_str(p.fullscreen))),
            (SettingsActionKind::Back, String::from_str("Back")),
        ];
        assert(labels_view(r@) =~= settings_labels_of(self.preferences));
        r
    }
}

/// The overlay over the story: an asset error with a quit button, or the loading note once
/// loading has taken long enough to show (`loading_visible`); none otherwise.
pub fn status_overlay(error: Option<&str>, loading_visible: bool) -> (r: Option<(String, bool)>)
    ensures
        match error {
            Some(e) => r matches Some((t, q)) && t@ == e@ && q,
            None => if loading_visible {
                r matches Some((t, q)) && t@ == "Loading…"@ && !q
            } else {
                r is None
            },
        },
{
    match error {
        Some(e) => Some((String::from_str(e), true)),
        None => if loading_visible {
            Some((String::from_str("Loading…"), false))
        } else {
            None
        },
    }
}

// ---------------------------------------------------------------------------
// Autosave.
// ---------------------------------------------------------------------------

/// Whether an event waits for the player: a dialogue line or a menu.
pub open spec fn awaits_player(e: SpecEvent) -> bool {
    e is Dialogue || e is Menu
}

impl PlayerUi {
    /// Whether the story should be written to the autosave slot now: the story is playing and
    /// idle (not `busy` loading assets, in a transition or with commands pending), it waits on
    /// a dialogue line or a menu, and this revision is not autosaved yet.
    pub fn autosave_due(&self, story: &VnStory, busy: bool) -> (r: bool)
        ensures
            r == (self.mode == PlayerMode::Playing && !busy
                && (story@.last_event matches Some(e) && awaits_player(e))
                && self.autosaved_revision != Some(story@.revision)),
    {
        if self.mode != PlayerMode::Playing || busy {
            return false;
        }
        let waits = match story.last_event() {
            Some(crate::vm::VmEvent::Dialogue { .. }) | Some(crate::vm::VmEvent::Menu { .. }) => true,
            _ => false,
        };
        if !waits {
            return false;
        }
        let revision = story.revision();
        match self.autosaved_revision {
            Some(r) => r != revision,
            None => true,
        }
    }

    /// Records a written autosave: its revision is autosaved, and a pending quit is dropped.
    pub fn autosaved(&mut self, revision: u64)
        ensures
            final(self).autosaved_revision == Some(revision),
            final(self).quit_confirmed_revision is None,
            final(self).mode == old(self).mode,
            final(self).confirm_overwrite == old(self).confirm_overwrite,
            final(self).preferences == old(self).preferences,
    {
        self.autosaved_revision = Some(revision);
        self.quit_confirmed_revision = None;
    }
}

// ---------------------------------------------------------------------------
// Story input.
// ---------------------------------------------------------------------------

/// Presentation commands waiting for the renderer, oldest first.
pub struct PresentationCommandQueue {
    pub commands: Vec<PresentationCommand>,
}

/// Model of a list of commands.
pub open spec fn commands_view(v: Seq<PresentationCommand>) -> Seq<SpecCommand> {
    v.map_values(|c: PresentationCommand| c@)
}

impl View for PresentationCommandQueue {
    type V = Seq<SpecCommand>;

    open spec fn view(&self) -> Seq<SpecCommand> {
        commands_view(self.commands@)
    }
}

impl PresentationCommandQueue {
    /// An empty queue.
    pub fn new() -> (r: Self)
        ensures
            r@ == Seq::<SpecCommand>::empty(),
    {
        PresentationCommandQueue { commands: Vec::new() }
    }

    /// Enqueues one command.
    pub fn push(&mut self, command: PresentationCommand)
        ensures
            final(self)@ == old(self)@.push(command@),
    {
        self.commands.push(command);
        assert(commands_view(self.commands@) =~= commands_view(old(self).commands@).push(command@));
    }

    /// Whether no command waits.
    pub fn is_empty(&self) -> (r: bool)
        ensures
            r == (self@.len() == 0),
    {
        self.commands.len() == 0
    }

    /// Takes the oldest command.
    pub fn pop_front(&mut self) -> (r: Option<PresentationCommand>)
        ensures
            old(self)@.len() == 0 ==> r is None && final(self)@ == old(self)@,
            old(self)@.len() > 0 ==> (r matches Some(c) && c@ == old(self)@[0] && final(self)@ == old(self)@.drop_first()),
    {
        if self.commands.len() == 0 {
            None
        } else {
            let c = self.commands.remove(0);
            assert(commands_view(self.commands@) =~= commands_view(old(self).commands@).drop_first());
            Some(c)
        }
    }

    /// Drops every waiting command.
    pub fn clear(&mut self)
        ensures
            final(self)@ == Seq::<SpecCommand>::empty(),
    {
        self.commands.clear();
        assert(commands_view(self.commands@) =~= Seq::<SpecCommand>::empty());
    }

    fn push_each(&mut self, cs: Vec<PresentationCommand>)
        ensures
            final(self)@ == old(self)@ + commands_view(cs@),
    {
        let ghost all = cs@;
        let mut rest = cs;
        while rest.len() > 0
            invariant
                self@ + commands_view(rest@) == old(self)@ + commands_view(all),
            decreases rest@.len(),
        {
            let ghost before = rest@;
            let c = rest.remove(0);
            assert(commands_view(before) =~= seq![c@] + commands_view(rest@));
            self.push(c);
            assert(self@ + commands_view(rest@) =~= old(self)@ + commands_view(all));
        }
        assert(commands_view(rest@) =~= Seq::<SpecCommand>::empty());
        assert(self@ =~= old(self)@ + commands_view(all));
    }
}

/// Whether an event only changes what is shown or heard, so that the story goes on by itself
/// after it.
pub open spec fn is_visual(e: SpecEvent) -> bool {
    e is Scene || e is Show || e is Hide || e is PlayMusic || e is StopMusic
}

/// Presenting an event and the visual events after it, going on at most `fuel` times: the
/// story then, the commands queued, and whether the story stopped at a menu.
pub open spec fn drained(s: SpecStory, e: SpecEvent, fuel: nat) -> (SpecStory, Seq<SpecCommand>, bool)
    decreases fuel,
{
    let cs = event_commands(e);
    if !is_visual(e) {
        (s, cs, e is Menu)
    } else if fuel == 0 {
        (s, cs, false)
    } else {
        let (res, m) = continued(s.vm);
        let s2 = recorded(s, res, m);
        match res {
            Err(_) => (s2, cs, false),
            Ok(e2) => {
                let d = drained(s2, e2, (fuel - 1) as nat);
                (d.0, cs + d.1, d.2)
            },
        }
    }
}

/// Queues the commands of an event and, while the event only changes what is shown or heard,
/// advances the story and queues the next one, at most `limit` times (a script whose visual
/// events loop forever is cut there). Whether the story stopped at a menu.
pub fn queue_event_and_following_visuals(
    story: &mut VnStory,
    queue: &mut PresentationCommandQueue,
    event: VmEvent,
    limit: usize,
) -> (reached_menu: bool)
    ensures
        final(story)@ == drained(old(story)@, event@, limit as nat).0,
        final(queue)@ == old(queue)@ + drained(old(story)@, event@, limit as nat).1,
        reached_menu == drained(old(story)@, event@, limit as nat).2,
{
    let ghost s0 = story@;
    let ghost e0 = event@;
    let ghost q0 = queue@;
    let mut cur = event;
    let mut left = limit;
    loop
        invariant
            left <= limit,
            s0 == old(story)@,
            q0 == old(queue)@,
            e0 == event@,
            drained(s0, e0, limit as nat).0 == drained(story@, cur@, left as nat).0,
            drained(s0, e0, limit as nat).2 == drained(story@, cur@, left as nat).2,
            q0 + drained(s0, e0, limit as nat).1 == queue@ + drained(story@, cur@, left as nat).1,
        decreases left,
    {
        let cs = commands_from_event(&cur);
        queue.push_each(cs);
        let visual = match &cur {
            VmEvent::Scene { .. } | VmEvent::Show { .. } | VmEvent::Hide { .. } | VmEvent::PlayMusic { .. }
            | VmEvent::StopMusic => true,
            _ => false,
        };
        if !visual {
            let menu = match &cur {
                VmEvent::Menu { .. } => true,
                _ => false,
            };
            assert(!is_visual(cur@));
            assert(drained(story@, cur@, left as nat) == (story@, event_commands(cur@), menu));
            assert(q0 + drained(s0, e0, limit as nat).1 =~= queue@);
            return menu;
        }
        if left == 0 {
            assert(q0 + drained(s0, e0, limit as nat).1 =~= queue@);
            return false;
        }
        let ghost sv = story@;
        let ghost ev = cur@;
        match story.continue_story() {
            Err(_) => {
                assert(q0 + drained(s0, e0, limit as nat).1 =~= queue@);
                return false;
            },
            Ok(next) => {
                let ghost d = drained(story@, next@, (left - 1) as nat);
                assert(drained(sv, ev, left as nat) == (d.0, event_commands(ev) + d.1, d.2));
                assert(q0 + drained(s0, e0, limit as nat).1 =~= queue@ + d.1);
                cur = next;
                left = left - 1;
            },
        }
    }
}

/// What a key does while a menu waits.
#[derive(Clone, Copy, Debug, PartialEq, Eq, Structural)]
pub enum MenuKey {
    Idle,
    Focus(usize),
    Choose(usize),
}

/// The first pressed number key among the first `n`, counting from zero.
pub open spec fn first_pressed(digits: Seq<bool>, i: int, n: int) -> Option<int>
    decreases n - i,
{
    if i >= n || i >= digits.len() || i < 0 {
        None
    } else if digits[i] {
        Some(i)
    } else {
        first_pressed(digits, i + 1, n)
    }
}

/// How many number keys choose a menu entry: one for each of the first nine entries.
pub open spec fn number_keys(count: int) -> int {
    if count < 9 { count } else { 9 }
}

/// The keys while a menu with `count` entries waits and entry `focus` has the focus: Down and
/// Up move the focus, wrapping around; Enter, like Space, only advances dialogue, so it
/// neither chooses nor moves anything; a number key chooses that entry (`digits[i]` for the
/// key of entry `i + 1`, for the first nine entries).
pub fn menu_key(focus: usize, count: usize, down: bool, up: bool, enter: bool, digits: &[bool]) -> (r: MenuKey)
    requires
        (down || up) ==> count > 0,
        focus < usize::MAX,
    ensures
        r == if down {
            MenuKey::Focus(((focus + 1) % (count as int)) as usize)
        } else if up {
            MenuKey::Focus(if focus == 0 { (count - 1) as usize } else { (focus - 1) as usize })
        } else if enter {
            MenuKey::Idle
        } else {
            match first_pressed(digits@, 0, number_keys(count as int)) {
                Some(i) => MenuKey::Choose(i as usize),
                None => MenuKey::Idle,
            }
        },
{
    if down {
        return MenuKey::Focus((focus + 1) % count);
    }
    if up {
        return MenuKey::Focus(if focus == 0 { count - 1 } else { focus - 1 });
    }
    if enter {
        return MenuKey::Idle;
    }
    let n: usize = if count < 9 { count } else { 9 };
    let mut i: usize = 0;
    while i < n && i < digits.len()
        invariant
            !down && !up && !enter,
            n == number_keys(count as int),
            i <= n,
            first_pressed(digits@, 0, n as int) == first_pressed(digits@, i as int, n as int),
        decreases n - i,
    {
        if digits[i] {
            return MenuKey::Choose(i);
        }
        i = i + 1;
    }
    MenuKey::Idle
}

/// What a press of Space, Enter or the mouse does outside a menu.
#[derive(Clone, Copy, Debug, PartialEq, Eq, Structural)]
pub enum AdvanceStep {
    Idle,
    FinishEffects,
    Continue,
}

/// Advancing outside a menu: nothing without a press; a press first finishes running
/// transitions and text reveals, and only when none runs advances the story.
pub fn advance_step(pressed: bool, effects_running: bool) -> (r: AdvanceStep)
    ensures
        r == if !pressed {
            AdvanceStep::Idle
        } else if effects_running {
            AdvanceStep::FinishEffects
        } else {
            AdvanceStep::Continue
        },
{
    if !pressed {
        AdvanceStep::Idle
    } else if effects_running {
        AdvanceStep::FinishEffects
    } else {
        AdvanceStep::Continue
    }
}

/// Whether a rollback happens now: not while assets load or failed, nor during a transition;
/// asked by the pause or save screens (`requested`) at any screen, or by Page Up or the mouse
/// wheel while the story plays (`accepts_input`).
pub fn rollback_wanted(loading: bool, load_error: bool, transitions: bool, accepts_input: bool, requested: bool, page_up: bool, wheel_up: bool) -> (r: bool)
    ensures
        r == (!loading && !load_error && !transitions && (accepts_input || requested) && (page_up || wheel_up || requested)),
{
    !loading && !load_error && !transitions && (accepts_input || requested) && (page_up || wheel_up || requested)
}

/// The time a dialogue line stays before auto-advance goes on: a second and a half, and 45
/// milliseconds for each character, at most `u32::MAX`.
pub open spec fn wait_for(chars: nat) -> int {
    if 1500 + 45 * chars > u32::MAX { u32::MAX as int } else { (1500 + 45 * chars) as int }
}

/// How long auto-advance waits on a line of dialogue.
pub fn auto_advance_wait_ms(text: &str) -> (r: u32)
    requires
        45 * text@.len() <= u32::MAX,
    ensures
        r == wait_for(text@.len()),
{
    let n = chars_of(text).len();
    let per = (n as u32) * 45;
    per.saturating_add(1500)
}

/// Auto-advance's clock: the dialogue line it times, by the story position it was shown at,
/// and the milliseconds it has been shown.
pub struct AutoAdvance {
    pub dialogue_pc: Option<usize>,
    pub elapsed_ms: u32,
}

/// A sum of milliseconds, at most `u32::MAX`.
pub open spec fn sat_add(a: u32, b: u32) -> u32 {
    if a + b > u32::MAX { u32::MAX } else { (a + b) as u32 }
}

impl AutoAdvance {
    /// A clock timing nothing.
    pub fn new() -> (r: Self)
        ensures
            r.dialogue_pc is None,
            r.elapsed_ms == 0,
    {
        AutoAdvance { dialogue_pc: None, elapsed_ms: 0 }
    }

    /// One frame of `delta_ms`. Unless auto-advance is on and nothing else is going on
    /// (`idle`) while a dialogue line waits (`dialogue`: its story position and how long it
    /// waits), the clock stops. A new line starts the clock again. Whether the line has waited
    /// long enough, in which case the clock stops and the host advances the story.
    pub fn tick(&mut self, idle: bool, dialogue: Option<(usize, u32)>, delta_ms: u32) -> (advance: bool)
        ensures
            match (idle, dialogue) {
                (true, Some((pc, wait))) => {
                    let start = if old(self).dialogue_pc == Some(pc) { old(self).elapsed_ms } else { 0 };
                    let now = sat_add(start, delta_ms);
                    if now < wait {
                        !advance && final(self).dialogue_pc == Some(pc) && final(self).elapsed_ms == now
                    } else {
                        advance && final(self).dialogue_pc is None && final(self).elapsed_ms == 0
                    }
                },
                _ => !advance && final(self).dialogue_pc is None && final(self).elapsed_ms == 0,
            },
    {
        let (pc, wait) = match dialogue {
            Some(d) => if idle {
                d
            } else {
                self.dialogue_pc = None;
                self.elapsed_ms = 0;
                return false;
            },
            None => {
                self.dialogue_pc = None;
                self.elapsed_ms = 0;
                return false;
            },
        };
        let same = match self.dialogue_pc {
            Some(p) => p == pc,
            None => false,
        };
        if !same {
            self.dialogue_pc = Some(pc);
            self.elapsed_ms = 0;
        }
        self.elapsed_ms = self.elapsed_ms.saturating_add(delta_ms);
        if self.elapsed_ms < wait {
            return false;
        }
        self.dialogue_pc = None;
        self.elapsed_ms = 0;
        true
    }
}

/// The first `visible` characters of a line, or all of it without a reveal running.
pub open spec fn shown_of(text: Seq<char>, visible: Option<usize>) -> Seq<char> {
    match visible {
        Some(v) => if v < text.len() { text.take(v as int) } else { text },
        None => text,
    }
}

/// The part of a dialogue line shown so far.
pub fn shown_text(text: &str, visible: Option<usize>) -> (r: String)
    ensures
        r@ == shown_of(text@, visible),
{
    let cs = chars_of(text);
    let n = cs.len();
    let end = match visible {
        Some(v) => if v < n { v } else { n },
        None => n,
    };
    let part = slice_chars(cs.as_slice(), 0, end);
    assert(part@ =~= shown_of(text@, visible));
    string_of(part.as_slice())
}

// ---------------------------------------------------------------------------
// The scripted capture run used to check rendering.
// ---------------------------------------------------------------------------

/// Where a capture run stands: it shows the first dialogue, advances to the menu, captures
/// it, chooses the first entry, captures the next dialogue, saves to the first manual slot,
/// and waits for that save.
#[derive(Clone, Copy, Debug, PartialEq, Eq, Structural)]
pub enum VisualTestPhase {
    WaitDialogue,
    WaitMenu,
    CaptureMenu,
    WaitNextDialogue,
    CaptureNextDialogue,
    WaitSave,
}

/// A capture run: its phase and how many frames in a row the screen has been settled.
#[derive(Clone, Copy, Debug, PartialEq, Eq, Structural)]
pub struct VisualTestState {
    pub phase: VisualTestPhase,
    pub stable_frames: u8,
}

/// What the host observed this frame.
#[derive(Clone, Copy, Debug, PartialEq, Eq, Structural)]
pub struct VisualFrame {
    pub mode: PlayerMode,
    /// No asset loads or failed, and no transition or text reveal runs.
    pub idle: bool,
    pub menu_shown: bool,
    pub dialogue_shown: bool,
    pub music_playing: bool,
    /// The dialogue after the menu's first entry is shown.
    pub next_dialogue_shown: bool,
    pub menu_capture_written: bool,
    pub next_capture_written: bool,
    /// The first manual slot holds a compatible save with a screenshot.
    pub save_written: bool,
}

/// What the host does for a capture run this frame.
#[derive(Clone, Copy, Debug, PartialEq, Eq, Structural)]
pub enum VisualAction {
    Nothing,
    ExitWithError,
    ExitWithSuccess,
    /// Advance the story; on success, report it with `story_continued`.
    ContinueStory,
    CaptureMenu,
    ChooseFirst,
    CaptureNextDialogue,
    SaveToFirstSlot,
}

/// Frames the screen must stay settled before a capture.
pub const SETTLED_FRAMES: u8 = 5;

/// One more settled frame, at most 255.
pub open spec fn one_more(n: u8) -> u8 {
    if n == u8::MAX { n } else { (n + 1) as u8 }
}

/// A capture run's next state and action for a frame.
pub open spec fn visual_step(st: VisualTestState, f: VisualFrame) -> (VisualTestState, VisualAction) {
    let stable = f.mode == PlayerMode::Playing && f.idle;
    if f.mode == PlayerMode::RuntimeError {
        (st, VisualAction::ExitWithError)
    } else {
        match st.phase {
            VisualTestPhase::WaitDialogue => if stable && !f.menu_shown && f.dialogue_shown && f.music_playing {
                (st, VisualAction::ContinueStory)
            } else {
                (st, VisualAction::Nothing)
            },
            VisualTestPhase::WaitMenu => if stable && f.menu_shown && f.dialogue_shown && f.music_playing {
                let n = one_more(st.stable_frames);
                if n >= SETTLED_FRAMES {
                    (VisualTestState { phase: VisualTestPhase::CaptureMenu, stable_frames: n }, VisualAction::CaptureMenu)
                } else {
                    (VisualTestState { stable_frames: n, ..st }, VisualAction::Nothing)
                }
            } else {
                (VisualTestState { stable_frames: 0, ..st }, VisualAction::Nothing)
            },
            VisualTestPhase::CaptureMenu => if f.menu_capture_written {
                (VisualTestState { phase: VisualTestPhase::WaitNextDialogue, stable_frames: 0 }, VisualAction::ChooseFirst)
            } else {
                (st, VisualAction::Nothing)
            },
            VisualTestPhase::WaitNextDialogue => if stable && f.next_dialogue_shown && !f.menu_shown {
                let n = one_more(st.stable_frames);
                if n >= SETTLED_FRAMES {
                    (
                        VisualTestState { phase: VisualTestPhase::CaptureNextDialogue, stable_frames: n },
                        VisualAction::CaptureNextDialogue,
                    )
                } else {
                    (VisualTestState { stable_frames: n, ..st }, VisualAction::Nothing)
                }
            } else {
                (VisualTestState { stable_frames: 0, ..st }, VisualAction::Nothing)
            },
            VisualTestPhase::CaptureNextDialogue => if f.next_capture_written {
                (VisualTestState { phase: VisualTestPhase::WaitSave, ..st }, VisualAction::SaveToFirstSlot)
            } else {
                (st, VisualAction::Nothing)
            },
            VisualTestPhase::WaitSave => if f.save_written {
                (st, VisualAction::ExitWithSuccess)
            } else {
                (st, VisualAction::Nothing)
            },
        }
    }
}

impl VisualTestState {
    /// A run at its start.
    pub fn new() -> (r: Self)
        ensures
            r == (VisualTestState { phase: VisualTestPhase::WaitDialogue, stable_frames: 0 }),
    {
        VisualTestState { phase: VisualTestPhase::WaitDialogue, stable_frames: 0 }
    }

    /// One frame of the run.
    pub fn step(&mut self, frame: VisualFrame) -> (r: VisualAction)
        ensures
            (*final(self), r) == visual_step(*old(self), frame),
    {
        let stable = frame.mode == PlayerMode::Playing && frame.idle;
        if frame.mode == PlayerMode::RuntimeError {
            return VisualAction::ExitWithError;
        }
        match self.phase {
            VisualTestPhase::WaitDialogue => {
                if stable && !frame.menu_shown && frame.dialogue_shown && frame.music_playing {
                    VisualAction::ContinueStory
                } else {
                    VisualAction::Nothing
                }
            },
            VisualTestPhase::WaitMenu => {
                if stable && frame.menu_shown && frame.dialogue_shown && frame.music_playing {
                    self.stable_frames = self.stable_frames.saturating_add(1);
                    if self.stable_frames >= SETTLED_FRAMES {
                        self.phase = VisualTestPhase::CaptureMenu;
                        VisualAction::CaptureMenu
                    } else {
                        VisualAction::Nothing
                    }
                } else {
                    self.stable_frames = 0;
                    VisualAction::Nothing
                }
            },
            VisualTestPhase::CaptureMenu => {
                if frame.menu_capture_written {
                    self.phase = VisualTestPhase::WaitNextDialogue;
                    self.stable_frames = 0;
                    VisualAction::ChooseFirst
                } else {
                    VisualAction::Nothing
                }
            },
            VisualTestPhase::WaitNextDialogue => {
                if stable && frame.next_dialogue_shown && !frame.menu_shown {
                    self.stable_frames = self.stable_frames.saturating_add(1);
                    if self.stable_frames >= SETTLED_FRAMES {
                        self.phase = VisualTestPhase::CaptureNextDialogue;
                        VisualAction::CaptureNextDialogue
                    } else {
                        VisualAction::Nothing
                    }
                } else {
                    self.stable_frames = 0;
                    VisualAction::Nothing
                }
            },
            VisualTestPhase::CaptureNextDialogue => {
                if frame.next_capture_written {
                    self.phase = VisualTestPhase::WaitSave;
                    VisualAction::SaveToFirstSlot
                } else {
                    VisualAction::Nothing
                }
            },
            VisualTestPhase::WaitSave => {
                if frame.save_written {
                    VisualAction::ExitWithSuccess
                } else {
                    VisualAction::Nothing
                }
            },
        }
    }

    /// The story advanced past the first dialogue: the run waits for the menu.
    pub fn story_continued(&mut self)
        ensures
            old(self).phase == VisualTestPhase::WaitDialogue ==> *final(self) == (VisualTestState {
                phase: VisualTestPhase::WaitMenu,
                ..*old(self)
            }),
            old(self).phase != VisualTestPhase::WaitDialogue ==> *final(self) == *old(self),
    {
        if self.phase == VisualTestPhase::WaitDialogue {
            self.phase = VisualTestPhase::WaitMenu;
        }
    }
}

// ---------------------------------------------------------------------------
// Laws of the player's screens.
// ---------------------------------------------------------------------------

/// Quitting from the pause screen when the current revision is not autosaved takes two presses
/// at that revision: the first only asks, the second exits. Once it is autosaved, one press
/// exits.
pub proof fn law_quit_asks_once_unless_autosaved(ui: PlayerUi, revision: u64)
    ensures
        ui.autosaved_revision == Some(revision) ==> pause_press(ui, PlayerAction::Quit, revision).1 == PauseEffect::Exit,
        ui.autosaved_revision != Some(revision) && ui.quit_confirmed_revision != Some(revision) ==> {
            let (asked, first) = pause_press(ui, PlayerAction::Quit, revision);
            &&& first == PauseEffect::Nothing
            &&& asked.mode == ui.mode
            &&& pause_press(asked, PlayerAction::Quit, revision).1 == PauseEffect::Exit
        },
{
}

/// On the save screen, writing over a slot that holds something takes two presses on it in a
/// row: the first only asks and writes nothing, the second writes and returns to the story. An
/// empty slot is written at the first press.
pub proof fn law_overwrite_takes_a_second_press(ui: PlayerUi, n: u8, state: Option<&SaveSlotState>)
    requires
        ui.mode == PlayerMode::Save,
    ensures
        occupied(state) && ui.confirm_overwrite != Some(n) ==> {
            let (asked, first) = save_load_press_of(ui, SaveLoadButton::Slot(SaveSlot::Manual(n)), state);
            let (done, second) = save_load_press_of(asked, SaveLoadButton::Slot(SaveSlot::Manual(n)), state);
            &&& first == SaveLoadEffect::Nothing
            &&& asked.mode == PlayerMode::Save
            &&& second == SaveLoadEffect::Capture(SaveSlot::Manual(n))
            &&& done.mode == PlayerMode::Playing
            &&& done.confirm_overwrite is None
        },
        !occupied(state) ==> save_load_press_of(ui, SaveLoadButton::Slot(SaveSlot::Manual(n)), state).1
            == SaveLoadEffect::Capture(SaveSlot::Manual(n)),
        save_load_press_of(ui, SaveLoadButton::Slot(SaveSlot::Autosave), state).1 == SaveLoadEffect::Nothing,
{
}

/// Escape from the story opens the pause screen, and Escape there returns to the story.
pub proof fn law_escape_pauses_and_resumes(m: PlayerMode)
    ensures
        m == PlayerMode::Playing ==> escape_target(escape_target(m)) == m,
        m == PlayerMode::Paused ==> escape_target(escape_target(m)) == m,
{
}

/// The text speed button cycles through the four speeds the settings offer and comes back
/// after four presses; every press leaves a speed the settings offer.
pub proof fn law_text_speed_cycles(speed: u16)
    ensures
        known_text_speed(next_speed(speed)),
        known_text_speed(speed) ==> next_speed(next_speed(next_speed(next_speed(speed)))) == speed,
{
}

/// The text of a menu entry's button: its number from one, a dot, and its text.
pub open spec fn choice_label_of(index: nat, choice: Seq<char>) -> Seq<char> {
    decimal(index + 1) + ". "@ + choice
}

/// The text of a menu entry's button.
pub fn choice_label(index: usize, choice: &str) -> (r: String)
    requires
        index < u64::MAX,
    ensures
        r@ == choice_label_of(index as nat, choice@),
{
    let mut buf: Vec<char> = Vec::new();
    push_decimal(&mut buf, index as u64 + 1);
    push_str(&mut buf, ". ");
    push_str(&mut buf, choice);
    string_of(buf.as_slice())
}

/// Whether the asset of the oldest queued command is ready: it needs none or has loaded, it is
/// still loading, or it failed to load, with the reason.
#[derive(Clone, Debug, PartialEq, Eq)]
pub enum AssetState {
    Ready,
    Loading,
    Failed(String),
}

/// What applying the oldest queued command did.
#[derive(Clone, Copy, Debug, PartialEq, Eq, Structural)]
pub enum QueueStep {
    /// Nothing was queued.
    Empty,
    /// The command was applied; the host goes on with the next one.
    Applied,
    /// Its asset is still loading; the host waits for a later frame.
    Waiting,
    /// Its asset failed; every queued command was dropped.
    Failed,
}

/// Applies the oldest queued command once its asset is ready: it leaves the queue, changes
/// the presentation and joins the commands applied this frame (`applied`). While the asset
/// loads nothing changes; when it failed, the queue is emptied.
pub fn apply_front(
    queue: &mut PresentationCommandQueue,
    snapshot: &mut PresentationSnapshot,
    applied: &mut Vec<PresentationCommand>,
    state: &AssetState,
) -> (r: QueueStep)
    ensures
        old(queue)@.len() == 0 ==> r == QueueStep::Empty && final(queue)@ == old(queue)@
            && final(snapshot)@ == old(snapshot)@ && final(applied)@ == old(applied)@,
        old(queue)@.len() > 0 ==> match state {
            AssetState::Ready => r == QueueStep::Applied && final(queue)@ == old(queue)@.drop_first()
                && final(snapshot)@ == apply(old(snapshot)@, old(queue)@[0])
                && commands_view(final(applied)@) == commands_view(old(applied)@).push(old(queue)@[0]),
            AssetState::Loading => r == QueueStep::Waiting && final(queue)@ == old(queue)@
                && final(snapshot)@ == old(snapshot)@ && final(applied)@ == old(applied)@,
            AssetState::Failed(_) => r == QueueStep::Failed && final(queue)@.len() == 0
                && final(snapshot)@ == old(snapshot)@ && final(applied)@ == old(applied)@,
        },
{
    if queue.is_empty() {
        return QueueStep::Empty;
    }
    match state {
        AssetState::Ready => {
            match queue.pop_front() {
                Some(c) => {
                    apply_command(snapshot, &c);
                    let ghost before = applied@;
                    applied.push(c);
                    assert(commands_view(applied@) =~= commands_view(before).push(c@));
                    QueueStep::Applied
                },
                None => QueueStep::Empty,
            }
        },
        AssetState::Loading => QueueStep::Waiting,
        AssetState::Failed(_) => {
            queue.clear();
            QueueStep::Failed
        },
    }
}

/// Preferences the player can use: a text speed the settings offer and a music volume of at
/// most 100.
pub open spec fn usable(p: Preferences) -> bool {
    known_text_speed(p.text_speed) && p.music_volume <= 100
}

/// Loaded preferences are repaired into usable ones, usable ones are left as they are, and
/// every settings button keeps them usable.
pub proof fn law_preferences_stay_usable(p: Preferences, action: SettingsActionKind)
    ensures
        usable(sanitized(p)),
        usable(p) ==> sanitized(p) == p,
        usable(p) ==> usable(preferences_after(p, action)),
{
}

} // verus!
