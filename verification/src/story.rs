//! The story driver a player owns: the story machine plus the latest event, the latest error
//! and a revision count that changes with every successful step.
use vstd::prelude::*;
use crate::ast::{duplicate_opt_str, duplicate_opt_transition, duplicate_strings};
use crate::ir::Program;
use crate::save::{PresentationSnapshot, ProjectId, RollbackCheckpoint, SaveFile, CURRENT_SAVE_VERSION};
use crate::strmap::Duplicate;
use crate::strmap::StrMap;
use crate::text::seq_view;
use crate::vm::{
    after_choice_rollback, enter_choice, opt_event_view, outcome_view, rolled_back, run, SpecEvent, SpecRun,
    SpecVm, SpecVmError, Vm, VmError, VmEvent, VmState, STEP_BUDGET,
};

verus! {

impl VmEvent {
    /// A copy with the same model.
    pub fn duplicate(&self) -> (r: VmEvent)
        ensures
            r@ == self@,
    {
        match self {
            VmEvent::Dialogue { speaker, text, effect } => VmEvent::Dialogue {
                speaker: duplicate_opt_str(speaker),
                text: text.clone(),
                effect: *effect,
            },
            VmEvent::Scene { image, transition } => VmEvent::Scene {
                image: image.clone(),
                transition: duplicate_opt_transition(transition),
            },
            VmEvent::Show { tag, attrs, position, transition } => VmEvent::Show {
                tag: tag.clone(),
                attrs: duplicate_strings(attrs),
                position: position.clone(),
                transition: duplicate_opt_transition(transition),
            },
            VmEvent::Hide { tag } => VmEvent::Hide { tag: tag.clone() },
            VmEvent::PlayMusic { path } => VmEvent::PlayMusic { path: path.clone() },
            VmEvent::StopMusic => VmEvent::StopMusic,
            VmEvent::Menu { choices } => VmEvent::Menu { choices: duplicate_strings(choices) },
            VmEvent::End => VmEvent::End,
        }
    }
}

impl VmError {
    /// A copy with the same model.
    pub fn duplicate(&self) -> (r: VmError)
        ensures
            r@ == self@,
    {
        match self {
            VmError::InvalidProgramCounter { pc } => VmError::InvalidProgramCounter { pc: *pc },
            VmError::InvalidChoice { choice } => VmError::InvalidChoice { choice: *choice },
            VmError::TypeMismatch { expected, actual } => VmError::TypeMismatch {
                expected: expected.clone(),
                actual: actual.clone(),
            },
            VmError::UnknownVariable { name } => VmError::UnknownVariable { name: name.clone() },
            VmError::MissingStartLabel => VmError::MissingStartLabel,
            VmError::ArithmeticOverflow => VmError::ArithmeticOverflow,
            VmError::StepLimitExceeded => VmError::StepLimitExceeded,
        }
    }
}

/// What advancing to the next interaction gives and the machine it leaves.
pub open spec fn continued(m: SpecVm) -> (Result<SpecEvent, SpecVmError>, SpecVm) {
    match run(m, STEP_BUDGET as nat) {
        SpecRun::Halted(res, m2) => (res, m2),
        SpecRun::Exhausted(m2) => (Err(SpecVmError::StepLimitExceeded), m2),
    }
}

/// What choosing a menu entry gives and the machine it leaves.
pub open spec fn selected(m: SpecVm, choice: usize) -> (Result<SpecEvent, SpecVmError>, SpecVm) {
    match enter_choice(m, choice) {
        None => (Err(SpecVmError::InvalidChoice { choice }), m),
        Some(m1) => match run(m1, STEP_BUDGET as nat) {
            SpecRun::Halted(Ok(e), m2) => (
                Ok(e),
                SpecVm { rollback: after_choice_rollback(m, m2.rollback), ..m2 },
            ),
            SpecRun::Halted(Err(e), m2) => (Err(e), m2),
            SpecRun::Exhausted(m2) => (Err(SpecVmError::StepLimitExceeded), m2),
        },
    }
}

/// Model of the story driver.
pub struct SpecStory {
    pub vm: SpecVm,
    pub last_event: Option<SpecEvent>,
    pub last_error: Option<SpecVmError>,
    pub revision: u64,
}

/// The next revision, wrapping around after `u64::MAX`.
pub open spec fn next_revision(r: u64) -> u64 {
    if r == u64::MAX { 0 } else { (r + 1) as u64 }
}

/// The driver after a step: a successful one records its event, clears the error and moves
/// to the next revision; a failed one records the error and keeps the rest.
pub open spec fn recorded(s: SpecStory, res: Result<SpecEvent, SpecVmError>, m: SpecVm) -> SpecStory {
    match res {
        Ok(e) => SpecStory { vm: m, last_event: Some(e), last_error: None, revision: next_revision(s.revision) },
        Err(e) => SpecStory { vm: m, last_error: Some(e), ..s },
    }
}

/// Owns the story machine for a player.
#[derive(Debug)]
pub struct VnStory {
    vm: Vm,
    last_event: Option<VmEvent>,
    last_error: Option<VmError>,
    revision: u64,
}

/// Model of an optional error.
pub open spec fn opt_error_view(e: Option<VmError>) -> Option<SpecVmError> {
    match e {
        Some(e) => Some(e@),
        None => None,
    }
}

impl View for VnStory {
    type V = SpecStory;

    closed spec fn view(&self) -> SpecStory {
        SpecStory {
            vm: self.vm@,
            last_event: opt_event_view(self.last_event),
            last_error: opt_error_view(self.last_error),
            revision: self.revision,
        }
    }
}

impl VnStory {
    /// A driver for a compiled program, at revision 0.
    pub fn new(program: Program) -> (r: Result<Self, VmError>)
        ensures
            match r {
                Ok(s) => program@.labels.contains_key("start"@) && s@.last_event is None && s@.last_error is None
                    && s@.revision == 0 && s@.vm == crate::vm::SpecVm {
                    program: program@,
                    state: crate::vm::initial_state(program@.labels["start"@]),
                    rollback: Seq::empty(),
                    presentation: crate::save::empty_presentation(),
                    translations: Map::empty(),
                },
                Err(e) => !program@.labels.contains_key("start"@) && e == VmError::MissingStartLabel,
            },
    {
        match Vm::new(program) {
            Ok(vm) => Ok(VnStory { vm, last_event: None, last_error: None, revision: 0 }),
            Err(e) => Err(e),
        }
    }

    /// A driver restored from saved parts, with translations, at revision 0.
    pub fn from_parts(
        program: Program,
        state: VmState,
        presentation: PresentationSnapshot,
        rollback: Vec<RollbackCheckpoint>,
        translations: StrMap<String>,
    ) -> (r: Self)
        ensures
            r@ == (SpecStory {
                vm: SpecVm {
                    program: program@,
                    state: state@,
                    rollback: seq_view(rollback@),
                    presentation: presentation@,
                    translations: translations@,
                },
                last_event: None,
                last_error: None,
                revision: 0,
            }),
    {
        let mut vm = Vm::from_parts(program, state, presentation, rollback);
        vm.set_translations(translations);
        VnStory { vm, last_event: None, last_error: None, revision: 0 }
    }

    /// A driver that shows translated texts, at revision 0.
    pub fn with_translations(program: Program, translations: StrMap<String>) -> (r: Result<Self, VmError>)
        ensures
            match r {
                Ok(s) => program@.labels.contains_key("start"@) && s@.last_event is None && s@.last_error is None
                    && s@.revision == 0 && s@.vm == crate::vm::SpecVm {
                    program: program@,
                    state: crate::vm::initial_state(program@.labels["start"@]),
                    rollback: Seq::empty(),
                    presentation: crate::save::empty_presentation(),
                    translations: translations@,
                },
                Err(e) => !program@.labels.contains_key("start"@) && e == VmError::MissingStartLabel,
            },
    {
        match Vm::with_translations(program, translations) {
            Ok(vm) => Ok(VnStory { vm, last_event: None, last_error: None, revision: 0 }),
            Err(e) => Err(e),
        }
    }

    /// The story machine, for saving.
    pub fn vm(&self) -> (r: &Vm)
        ensures
            r@ == self@.vm,
    {
        &self.vm
    }

    /// The latest successful event.
    pub fn last_event(&self) -> (r: Option<&VmEvent>)
        ensures
            match r {
                Some(e) => self@.last_event == Some(e@),
                None => self@.last_event is None,
            },
    {
        match &self.last_event {
            Some(e) => Some(e),
            None => None,
        }
    }

    /// The latest error, if the latest step failed.
    pub fn last_error(&self) -> (r: Option<&VmError>)
        ensures
            match r {
                Some(e) => self@.last_error == Some(e@),
                None => self@.last_error is None,
            },
    {
        match &self.last_error {
            Some(e) => Some(e),
            None => None,
        }
    }

    /// How many successful steps changed the story, wrapping around.
    pub fn revision(&self) -> (r: u64)
        ensures
            r == self@.revision,
    {
        self.revision
    }

    /// Whether the latest successful event ended the story.
    pub fn ended(&self) -> (r: bool)
        ensures
            r == (self@.last_event == Some(SpecEvent::End)),
    {
        match &self.last_event {
            Some(VmEvent::End) => true,
            _ => false,
        }
    }

    fn record(&mut self, event: &VmEvent)
        ensures
            final(self)@ == (SpecStory {
                last_event: Some(event@),
                last_error: None,
                revision: next_revision(old(self)@.revision),
                ..old(self)@
            }),
    {
        self.last_event = Some(event.duplicate());
        self.last_error = None;
        self.revision = self.revision.wrapping_add(1);
    }

    /// Advances to the next interaction.
    pub fn continue_story(&mut self) -> (r: Result<VmEvent, VmError>)
        ensures
            outcome_view(r) == continued(old(self)@.vm).0,
            final(self)@ == recorded(old(self)@, continued(old(self)@.vm).0, continued(old(self)@.vm).1),
    {
        match self.vm.continue_until_interaction() {
            Ok(event) => {
                self.record(&event);
                Ok(event)
            },
            Err(error) => {
                self.last_error = Some(error.duplicate());
                Err(error)
            },
        }
    }

    /// Replaces this story with restored save state, moving to the next revision.
    pub fn restore(
        &mut self,
        program: Program,
        state: VmState,
        presentation: PresentationSnapshot,
        rollback: Vec<RollbackCheckpoint>,
        translations: StrMap<String>,
    )
        ensures
            final(self)@ == (SpecStory {
                vm: SpecVm {
                    program: program@,
                    state: state@,
                    rollback: seq_view(rollback@),
                    presentation: presentation@,
                    translations: translations@,
                },
                last_event: None,
                last_error: None,
                revision: next_revision(old(self)@.revision),
            }),
    {
        let revision = self.revision.wrapping_add(1);
        *self = Self::from_parts(program, state, presentation, rollback, translations);
        self.revision = revision;
    }

    /// Restores the previous interaction checkpoint; a restored event counts as a step.
    pub fn rollback(&mut self) -> (r: Option<VmEvent>)
        ensures
            opt_event_view(r) == rolled_back(old(self)@.vm).0,
            match rolled_back(old(self)@.vm).0 {
                Some(e) => final(self)@ == recorded(old(self)@, Ok(e), rolled_back(old(self)@.vm).1),
                None => final(self)@ == (SpecStory { vm: rolled_back(old(self)@.vm).1, ..old(self)@ }),
            },
    {
        match self.vm.rollback() {
            Some(event) => {
                self.record(&event);
                Some(event)
            },
            None => None,
        }
    }

    /// Chooses an entry of the active menu, then advances to the next interaction.
    pub fn select(&mut self, choice: usize) -> (r: Result<VmEvent, VmError>)
        ensures
            outcome_view(r) == selected(old(self)@.vm, choice).0,
            final(self)@ == recorded(old(self)@, selected(old(self)@.vm, choice).0, selected(old(self)@.vm, choice).1),
    {
        match self.vm.select(choice) {
            Ok(event) => {
                self.record(&event);
                Ok(event)
            },
            Err(error) => {
                self.last_error = Some(error.duplicate());
                Err(error)
            },
        }
    }
}

/// A save of a machine's state for a project, written at `timestamp`, without a screenshot.
pub fn save_of(
    vm: &Vm,
    engine_version: &str,
    game_id: &ProjectId,
    project_version: &str,
    script_hash: &str,
    timestamp: i64,
) -> (r: SaveFile)
    ensures
        r.save_version == CURRENT_SAVE_VERSION,
        r.engine_version@ == engine_version@,
        r.game_id.0@ == game_id.0@,
        r.project_version@ == project_version@,
        r.script_hash@ == script_hash@,
        r.vm@ == vm@.state,
        r.presentation@ == vm@.presentation,
        seq_view(r.rollback@) == vm@.rollback,
        r.screenshot_png@.len() == 0,
        r.timestamp == timestamp,
{
    SaveFile {
        save_version: CURRENT_SAVE_VERSION,
        engine_version: String::from_str(engine_version),
        game_id: ProjectId::new(game_id.0.as_str()),
        project_version: String::from_str(project_version),
        script_hash: String::from_str(script_hash),
        vm: vm.state().duplicate(),
        presentation: vm.presentation().duplicate(),
        rollback: crate::ir::duplicate_vec(vm.rollback_history()),
        screenshot_png: Vec::new(),
        timestamp,
    }
}

/// The machine a save restores: the program it runs, the state, presentation and rollback
/// history the save keeps, and the translations of the restoring run.
pub open spec fn restored_vm(m: SpecVm, translations: Map<Seq<char>, Seq<char>>) -> SpecVm {
    SpecVm {
        program: m.program,
        state: m.state,
        rollback: m.rollback,
        presentation: m.presentation,
        translations,
    }
}

/// Saving is deterministic: restoring a save of a machine with the same program and
/// translations gives that machine back, and it then goes on, chooses and rolls back exactly as
/// the machine the save was taken from.
pub proof fn law_save_restore_round_trip(m: SpecVm, choice: usize)
    ensures
        restored_vm(m, m.translations) == m,
        continued(restored_vm(m, m.translations)) == continued(m),
        selected(restored_vm(m, m.translations), choice) == selected(m, choice),
        rolled_back(restored_vm(m, m.translations)) == rolled_back(m),
{
}

} // verus!
