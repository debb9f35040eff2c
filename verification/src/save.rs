//! Presentation snapshots, save files and player preferences.
use vstd::prelude::*;
use crate::ast::{duplicate_opt_str, duplicate_strings, opt_str_view};
use crate::ir::seq_view;
use crate::strmap::{Duplicate, StrMap};
use crate::vm::{SpecVmState, VmState};
use crate::text::{chars_of, decimal, digit_char, push_all, push_decimal, string_of};
use vstd::string::StringExecFns;

verus! {

/// Sprite presentation state.
#[derive(Clone, Debug, PartialEq, Eq)]
pub struct SpriteSnapshot {
    pub attrs: Vec<String>,
    pub position: String,
}

/// Model of a sprite's state.
pub struct SpecSprite {
    pub attrs: Seq<Seq<char>>,
    pub position: Seq<char>,
}

impl View for SpriteSnapshot {
    type V = SpecSprite;

    open spec fn view(&self) -> SpecSprite {
        SpecSprite { attrs: self.attrs.deep_view(), position: self.position@ }
    }
}

impl Duplicate for SpriteSnapshot {
    fn duplicate(&self) -> (r: SpriteSnapshot) {
        SpriteSnapshot { attrs: duplicate_strings(&self.attrs), position: self.position.clone() }
    }
}

/// Dialogue presentation state.
#[derive(Clone, Debug, PartialEq, Eq)]
pub struct DialogueSnapshot {
    pub speaker: Option<String>,
    pub text: String,
}

/// Model of the dialogue state.
pub struct SpecDialogue {
    pub speaker: Option<Seq<char>>,
    pub text: Seq<char>,
}

impl View for DialogueSnapshot {
    type V = SpecDialogue;

    open spec fn view(&self) -> SpecDialogue {
        SpecDialogue { speaker: opt_str_view(self.speaker), text: self.text@ }
    }
}

impl Duplicate for DialogueSnapshot {
    fn duplicate(&self) -> (r: DialogueSnapshot) {
        DialogueSnapshot { speaker: duplicate_opt_str(&self.speaker), text: self.text.clone() }
    }
}

/// Presentation state owned outside renderers.
#[derive(Debug)]
pub struct PresentationSnapshot {
    pub background: Option<String>,
    pub sprites: StrMap<SpriteSnapshot>,
    pub music: Option<String>,
    pub dialogue: Option<DialogueSnapshot>,
    pub menu: Option<Vec<String>>,
}

/// Model of the presentation state.
pub struct SpecPresentation {
    pub background: Option<Seq<char>>,
    pub sprites: Map<Seq<char>, SpecSprite>,
    pub music: Option<Seq<char>>,
    pub dialogue: Option<SpecDialogue>,
    pub menu: Option<Seq<Seq<char>>>,
}

/// Model of an optional dialogue.
pub open spec fn opt_dialogue_view(d: Option<DialogueSnapshot>) -> Option<SpecDialogue> {
    match d {
        Some(d) => Some(d@),
        None => None,
    }
}

/// Model of an optional list of strings.
pub open spec fn opt_strings_view(m: Option<Vec<String>>) -> Option<Seq<Seq<char>>> {
    match m {
        Some(m) => Some(m.deep_view()),
        None => None,
    }
}

/// Copies an optional list of strings.
pub fn duplicate_opt_strings(m: &Option<Vec<String>>) -> (r: Option<Vec<String>>)
    ensures
        opt_strings_view(r) == opt_strings_view(*m),
{
    match m {
        Some(m) => Some(duplicate_strings(m)),
        None => None,
    }
}

impl View for PresentationSnapshot {
    type V = SpecPresentation;

    open spec fn view(&self) -> SpecPresentation {
        SpecPresentation {
            background: opt_str_view(self.background),
            sprites: self.sprites@,
            music: opt_str_view(self.music),
            dialogue: opt_dialogue_view(self.dialogue),
            menu: opt_strings_view(self.menu),
        }
    }
}

/// The empty presentation: nothing shown, nothing playing.
pub open spec fn empty_presentation() -> SpecPresentation {
    SpecPresentation {
        background: None,
        sprites: Map::empty(),
        music: None,
        dialogue: None,
        menu: None,
    }
}

impl PresentationSnapshot {
    /// The empty presentation.
    pub fn new() -> (r: Self)
        ensures
            r@ == empty_presentation(),
    {
        PresentationSnapshot {
            background: None,
            sprites: StrMap::new(),
            music: None,
            dialogue: None,
            menu: None,
        }
    }
}

impl Default for PresentationSnapshot {
    fn default() -> (r: Self)
        ensures
            r@ == empty_presentation(),
    {
        PresentationSnapshot::new()
    }
}

impl Duplicate for PresentationSnapshot {
    fn duplicate(&self) -> (r: PresentationSnapshot) {
        PresentationSnapshot {
            background: duplicate_opt_str(&self.background),
            sprites: self.sprites.duplicate(),
            music: duplicate_opt_str(&self.music),
            dialogue: match &self.dialogue {
                Some(d) => Some(d.duplicate()),
                None => None,
            },
            menu: duplicate_opt_strings(&self.menu),
        }
    }
}

impl Clone for PresentationSnapshot {
    fn clone(&self) -> (r: Self)
        ensures
            r@ == self@,
    {
        self.duplicate()
    }
}

/// An interaction checkpoint used by rollback and saves.
#[derive(Debug)]
pub struct RollbackCheckpoint {
    pub vm: VmState,
    pub presentation: PresentationSnapshot,
}

/// Model of a checkpoint.
pub struct SpecCheckpoint {
    pub vm: SpecVmState,
    pub presentation: SpecPresentation,
}

impl View for RollbackCheckpoint {
    type V = SpecCheckpoint;

    open spec fn view(&self) -> SpecCheckpoint {
        SpecCheckpoint { vm: self.vm@, presentation: self.presentation@ }
    }
}

impl Duplicate for RollbackCheckpoint {
    fn duplicate(&self) -> (r: RollbackCheckpoint) {
        RollbackCheckpoint { vm: self.vm.duplicate(), presentation: self.presentation.duplicate() }
    }
}

impl Clone for RollbackCheckpoint {
    fn clone(&self) -> (r: Self)
        ensures
            r@ == self@,
    {
        self.duplicate()
    }
}


/// Stable project identifier stored in saves.
#[derive(Clone, Debug, PartialEq, Eq, Hash)]
pub struct ProjectId(pub String);

impl ProjectId {
    /// An identifier with the given text.
    pub fn new(id: &str) -> (r: Self)
        ensures
            r.0@ == id@,
    {
        ProjectId(String::from_str(id))
    }
}

/// Current supported save schema version.
pub const CURRENT_SAVE_VERSION: u32 = 2;

/// Save file holding deterministic state only.
#[derive(Debug)]
pub struct SaveFile {
    pub save_version: u32,
    pub engine_version: String,
    pub game_id: ProjectId,
    pub project_version: String,
    pub script_hash: String,
    pub vm: VmState,
    pub presentation: PresentationSnapshot,
    pub rollback: Vec<RollbackCheckpoint>,
    pub screenshot_png: Vec<u8>,
    pub timestamp: i64,
}

/// Save compatibility error.
#[derive(Clone, Debug, PartialEq, Eq)]
pub enum SaveValidationError {
    UnsupportedSaveVersion { actual: u32, expected: u32 },
    WrongGameId { actual: String, expected: String },
    WrongProjectVersion { actual: String, expected: String },
    ScriptHashMismatch { actual: String, expected: String },
}

/// Model of a save compatibility error.
pub enum SpecSaveError {
    UnsupportedSaveVersion { actual: u32, expected: u32 },
    WrongGameId { actual: Seq<char>, expected: Seq<char> },
    WrongProjectVersion { actual: Seq<char>, expected: Seq<char> },
    ScriptHashMismatch { actual: Seq<char>, expected: Seq<char> },
}

impl View for SaveValidationError {
    type V = SpecSaveError;

    open spec fn view(&self) -> SpecSaveError {
        match self {
            SaveValidationError::UnsupportedSaveVersion { actual, expected } => SpecSaveError::UnsupportedSaveVersion {
                actual: *actual,
                expected: *expected,
            },
            SaveValidationError::WrongGameId { actual, expected } => SpecSaveError::WrongGameId {
                actual: actual@,
                expected: expected@,
            },
            SaveValidationError::WrongProjectVersion { actual, expected } => SpecSaveError::WrongProjectVersion {
                actual: actual@,
                expected: expected@,
            },
            SaveValidationError::ScriptHashMismatch { actual, expected } => SpecSaveError::ScriptHashMismatch {
                actual: actual@,
                expected: expected@,
            },
        }
    }
}

/// The first way a save does not fit the running project, checked in order: schema version,
/// game id, project version, script hash, each with the save's value and the project's; `None`
/// when it fits.
pub open spec fn save_mismatch(save: &SaveFile, project_id: &ProjectId, project_version: Seq<char>, script_hash: Seq<char>) -> Option<SpecSaveError> {
    if save.save_version != CURRENT_SAVE_VERSION {
        Some(SpecSaveError::UnsupportedSaveVersion { actual: save.save_version, expected: CURRENT_SAVE_VERSION })
    } else if save.game_id.0@ != project_id.0@ {
        Some(SpecSaveError::WrongGameId { actual: save.game_id.0@, expected: project_id.0@ })
    } else if save.project_version@ != project_version {
        Some(SpecSaveError::WrongProjectVersion { actual: save.project_version@, expected: project_version })
    } else if save.script_hash@ != script_hash {
        Some(SpecSaveError::ScriptHashMismatch { actual: save.script_hash@, expected: script_hash })
    } else {
        None
    }
}

/// Whether a save belongs to the running project: same schema version, game id, project
/// version and script hash.
pub open spec fn compatible_save(save: &SaveFile, project_id: &ProjectId, project_version: Seq<char>, script_hash: Seq<char>) -> bool {
    save.save_version == CURRENT_SAVE_VERSION && save.game_id.0@ == project_id.0@
        && save.project_version@ == project_version && save.script_hash@ == script_hash
}

/// Checks a save against the running project: schema version, then game id, then project
/// version, then script hash; the first mismatch is reported with both values.
pub fn validate_save(
    save: &SaveFile,
    project_id: &ProjectId,
    project_version: &str,
    script_hash: &str,
) -> (r: Result<(), SaveValidationError>)
    ensures
        save.save_version != CURRENT_SAVE_VERSION ==> r == Err::<(), SaveValidationError>(
            SaveValidationError::UnsupportedSaveVersion { actual: save.save_version, expected: CURRENT_SAVE_VERSION },
        ),
        save.save_version == CURRENT_SAVE_VERSION && save.game_id.0@ != project_id.0@ ==> (r matches Err(
            SaveValidationError::WrongGameId { actual, expected },
        ) && actual@ == save.game_id.0@ && expected@ == project_id.0@),
        save.save_version == CURRENT_SAVE_VERSION && save.game_id.0@ == project_id.0@ && save.project_version@
            != project_version@ ==> (r matches Err(SaveValidationError::WrongProjectVersion { actual, expected })
            && actual@ == save.project_version@ && expected@ == project_version@),
        save.save_version == CURRENT_SAVE_VERSION && save.game_id.0@ == project_id.0@ && save.project_version@
            == project_version@ && save.script_hash@ != script_hash@ ==> (r matches Err(
            SaveValidationError::ScriptHashMismatch { actual, expected },
        ) && actual@ == save.script_hash@ && expected@ == script_hash@),
        r is Ok <==> (save.save_version == CURRENT_SAVE_VERSION && save.game_id.0@ == project_id.0@
            && save.project_version@ == project_version@ && save.script_hash@ == script_hash@),
        match r {
            Ok(()) => save_mismatch(save, project_id, project_version@, script_hash@) is None,
            Err(e) => save_mismatch(save, project_id, project_version@, script_hash@) == Some(e@),
        },
{
    if save.save_version != CURRENT_SAVE_VERSION {
        return Err(SaveValidationError::UnsupportedSaveVersion {
            actual: save.save_version,
            expected: CURRENT_SAVE_VERSION,
        });
    }
    if save.game_id.0 != project_id.0 {
        return Err(SaveValidationError::WrongGameId { actual: save.game_id.0.clone(), expected: project_id.0.clone() });
    }
    if !crate::text::str_eq(save.project_version.as_str(), project_version) {
        return Err(SaveValidationError::WrongProjectVersion {
            actual: save.project_version.clone(),
            expected: String::from_str(project_version),
        });
    }
    if !crate::text::str_eq(save.script_hash.as_str(), script_hash) {
        return Err(SaveValidationError::ScriptHashMismatch {
            actual: save.script_hash.clone(),
            expected: String::from_str(script_hash),
        });
    }
    Ok(())
}

/// User preferences kept beside saves.
#[derive(Clone, Debug, PartialEq, Eq)]
pub struct Preferences {
    pub text_speed: u16,
    pub auto_advance: bool,
    pub music_volume: u8,
    pub muted: bool,
    pub fullscreen: bool,
    pub locale: Option<String>,
}

/// Default text speed, in characters per second.
pub const DEFAULT_TEXT_SPEED: u16 = 30;

impl Default for Preferences {
    fn default() -> (r: Self)
        ensures
            r.text_speed == DEFAULT_TEXT_SPEED,
            !r.auto_advance,
            r.music_volume == 100,
            !r.muted,
            !r.fullscreen,
            r.locale is None,
    {
        Preferences {
            text_speed: DEFAULT_TEXT_SPEED,
            auto_advance: false,
            music_volume: 100,
            muted: false,
            fullscreen: false,
            locale: None,
        }
    }
}

/// Whether a text speed is one the player offers: slow, normal, fast or instant.
pub open spec fn known_text_speed(speed: u16) -> bool {
    speed == 15 || speed == 30 || speed == 60 || speed == u16::MAX
}

/// Loaded preferences repaired: an unknown text speed becomes the default, and the music
/// volume is capped at 100.
pub open spec fn sanitized(p: Preferences) -> Preferences {
    Preferences {
        text_speed: if known_text_speed(p.text_speed) { p.text_speed } else { DEFAULT_TEXT_SPEED },
        music_volume: if p.music_volume > 100 { 100 } else { p.music_volume },
        ..p
    }
}

/// Repairs loaded preferences: an unknown text speed falls back to the default, and the music
/// volume is capped at 100.
pub fn sanitize_preferences(preferences: Preferences) -> (r: Preferences)
    ensures
        r == sanitized(preferences),
{
    let mut p = preferences;
    if !(p.text_speed == 15 || p.text_speed == 30 || p.text_speed == 60 || p.text_speed == u16::MAX) {
        p.text_speed = DEFAULT_TEXT_SPEED;
    }
    if p.music_volume > 100 {
        p.music_volume = 100;
    }
    p
}

/// Name of a text speed in the settings screen.
pub open spec fn text_speed_label(speed: u16) -> Seq<char> {
    if speed == 15 {
        "Slow"@
    } else if speed == 30 {
        "Normal"@
    } else if speed == 60 {
        "Fast"@
    } else {
        "Instant"@
    }
}

/// Names a text speed: slow, normal, fast, or instant for anything else.
pub fn text_speed_name(speed: u16) -> (r: &'static str)
    ensures
        r@ == text_speed_label(speed),
{
    if speed == 15 {
        "Slow"
    } else if speed == 30 {
        "Normal"
    } else if speed == 60 {
        "Fast"
    } else {
        "Instant"
    }
}

/// A manual save slot or the single autosave slot.
#[derive(Clone, Copy, Debug, PartialEq, Eq)]
pub enum SaveSlot {
    Autosave,
    Manual(u8),
}

/// Highest manual slot number.
pub const MANUAL_SLOTS: u8 = 12;

/// Name of a slot's file: `autosave.json`, or `slot-NN.json` with two digits for manual
/// slots 1 to 12; `None` for other slot numbers.
pub open spec fn slot_file_name(slot: SaveSlot) -> Option<Seq<char>> {
    match slot {
        SaveSlot::Autosave => Some("autosave.json"@),
        SaveSlot::Manual(n) => if 1 <= n <= MANUAL_SLOTS {
            Some("slot-"@ + (if n < 10 { "0"@ } else { Seq::empty() }) + decimal(n as nat) + ".json"@)
        } else {
            None
        },
    }
}

impl SaveSlot {
    /// The slot's file name; `Err` with the slot number when it is outside 1..=12.
    pub fn file_name(self) -> (r: Result<String, u8>)
        ensures
            match r {
                Ok(name) => slot_file_name(self) == Some(name@),
                Err(n) => slot_file_name(self) is None && self == SaveSlot::Manual(n),
            },
    {
        match self {
            SaveSlot::Autosave => Ok(String::from_str("autosave.json")),
            SaveSlot::Manual(n) => {
                if 1 <= n && n <= MANUAL_SLOTS {
                    let mut buf = chars_of("slot-");
                    if n < 10 {
                        let zero = chars_of("0");
                        push_all(&mut buf, zero.as_slice());
                    } else {
                        assert(buf@ + Seq::<char>::empty() =~= buf@);
                    }
                    push_decimal(&mut buf, n as u64);
                    let ext = chars_of(".json");
                    push_all(&mut buf, ext.as_slice());
                    Ok(string_of(buf.as_slice()))
                } else {
                    Err(n)
                }
            },
        }
    }

    /// The manual slot number, 0 for the autosave.
    pub fn number(self) -> (r: u8)
        ensures
            r == match self {
                SaveSlot::Manual(n) => n,
                SaveSlot::Autosave => 0u8,
            },
    {
        match self {
            SaveSlot::Manual(n) => n,
            SaveSlot::Autosave => 0,
        }
    }
}

/// Different slots keep their saves in different files: the autosave and the twelve manual
/// slots never share a file name.
pub proof fn law_slot_files_distinct(a: SaveSlot, b: SaveSlot)
    requires
        slot_file_name(a) is Some,
        slot_file_name(b) is Some,
        a != b,
    ensures
        slot_file_name(a) != slot_file_name(b),
{
    reveal_strlit("autosave.json");
    reveal_strlit("slot-");
    reveal_strlit("0");
    reveal_strlit(".json");
    reveal_with_fuel(decimal, 2);
    match (a, b) {
        (SaveSlot::Manual(n), SaveSlot::Manual(m)) => {
            let na = slot_file_name(a)->0;
            let nb = slot_file_name(b)->0;
            if n < 10 {
                assert(na[5] == '0' && na[6] == digit_char(n as nat));
            } else {
                assert(decimal(n as nat) == seq![digit_char(1), digit_char((n % 10) as nat)]);
                assert(na[5] == '1' && na[6] == digit_char((n % 10) as nat));
            }
            if m < 10 {
                assert(nb[5] == '0' && nb[6] == digit_char(m as nat));
            } else {
                assert(decimal(m as nat) == seq![digit_char(1), digit_char((m % 10) as nat)]);
                assert(nb[5] == '1' && nb[6] == digit_char((m % 10) as nat));
            }
        },
        (SaveSlot::Autosave, SaveSlot::Manual(_)) => {
            assert(slot_file_name(a)->0[0] != slot_file_name(b)->0[0]);
        },
        (SaveSlot::Manual(_), SaveSlot::Autosave) => {
            assert(slot_file_name(a)->0[0] != slot_file_name(b)->0[0]);
        },
        (SaveSlot::Autosave, SaveSlot::Autosave) => {},
    }
}

/// What a save slot holds, as the load screen shows it.
#[derive(Debug)]
pub enum SaveSlotState {
    Empty,
    Compatible(SaveFile),
    Incompatible(SaveFile, SaveValidationError),
    Corrupt(String),
}

/// Sorts a save that was read into compatible or incompatible for the running project; an
/// incompatible save carries the first mismatch.
pub fn classify_save(save: SaveFile, project_id: &ProjectId, project_version: &str, script_hash: &str) -> (r: SaveSlotState)
    ensures
        match r {
            SaveSlotState::Compatible(s) => s == save && compatible_save(&save, project_id, project_version@, script_hash@),
            SaveSlotState::Incompatible(s, e) => s == save && !compatible_save(&save, project_id, project_version@, script_hash@)
                && save_mismatch(&save, project_id, project_version@, script_hash@) == Some(e@),
            _ => false,
        },
{
    match validate_save(&save, project_id, project_version, script_hash) {
        Ok(()) => SaveSlotState::Compatible(save),
        Err(e) => SaveSlotState::Incompatible(save, e),
    }
}

} // verus!
