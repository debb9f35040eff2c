//! Renderer-independent presentation commands derived from story events.
use vstd::prelude::*;
use crate::ast::{duplicate_opt_str, duplicate_opt_transition, duplicate_strings, opt_str_view, opt_transition_view, SpecTransition, TextEffect, Transition};
use crate::save::{DialogueSnapshot, PresentationSnapshot, SpecDialogue, SpecPresentation, SpecSprite, SpriteSnapshot};
use crate::vm::{run, step, SpecEvent, SpecRun, SpecStep, SpecVm, VmEvent};

verus! {

/// Command emitted for renderers from a story event.
#[derive(Clone, Debug, PartialEq, Eq)]
pub enum PresentationCommand {
    SetBackground { image: String, transition: Option<Transition> },
    ShowSprite { tag: String, attrs: Vec<String>, position: String, transition: Option<Transition> },
    HideSprite(String),
    PlayMusic(String),
    StopMusic,
    ShowDialogue { speaker: Option<String>, text: String, effect: TextEffect },
    ShowMenu(Vec<String>),
    ClearMenu,
}

/// Model of a presentation command.
pub enum SpecCommand {
    SetBackground { image: Seq<char>, transition: Option<SpecTransition> },
    ShowSprite {
        tag: Seq<char>,
        attrs: Seq<Seq<char>>,
        position: Seq<char>,
        transition: Option<SpecTransition>,
    },
    HideSprite(Seq<char>),
    PlayMusic(Seq<char>),
    StopMusic,
    ShowDialogue { speaker: Option<Seq<char>>, text: Seq<char>, effect: TextEffect },
    ShowMenu(Seq<Seq<char>>),
    ClearMenu,
}

impl View for PresentationCommand {
    type V = SpecCommand;

    open spec fn view(&self) -> SpecCommand {
        match self {
            PresentationCommand::SetBackground { image, transition } => SpecCommand::SetBackground {
                image: image@,
                transition: opt_transition_view(*transition),
            },
            PresentationCommand::ShowSprite { tag, attrs, position, transition } => SpecCommand::ShowSprite {
                tag: tag@,
                attrs: attrs.deep_view(),
                position: position@,
                transition: opt_transition_view(*transition),
            },
            PresentationCommand::HideSprite(tag) => SpecCommand::HideSprite(tag@),
            PresentationCommand::PlayMusic(path) => SpecCommand::PlayMusic(path@),
            PresentationCommand::StopMusic => SpecCommand::StopMusic,
            PresentationCommand::ShowDialogue { speaker, text, effect } => SpecCommand::ShowDialogue {
                speaker: opt_str_view(*speaker),
                text: text@,
                effect: *effect,
            },
            PresentationCommand::ShowMenu(choices) => SpecCommand::ShowMenu(choices.deep_view()),
            PresentationCommand::ClearMenu => SpecCommand::ClearMenu,
        }
    }
}

/// The commands that present an event.
pub open spec fn event_commands(e: SpecEvent) -> Seq<SpecCommand> {
    match e {
        SpecEvent::Dialogue { speaker, text, effect } => seq![
            SpecCommand::ClearMenu,
            SpecCommand::ShowDialogue { speaker, text, effect },
        ],
        SpecEvent::Scene { image, transition } => seq![SpecCommand::SetBackground { image, transition }],
        SpecEvent::Show { tag, attrs, position, transition } => seq![
            SpecCommand::ShowSprite { tag, attrs, position, transition },
        ],
        SpecEvent::Hide { tag } => seq![SpecCommand::HideSprite(tag)],
        SpecEvent::PlayMusic { path } => seq![SpecCommand::PlayMusic(path)],
        SpecEvent::StopMusic => seq![SpecCommand::StopMusic],
        SpecEvent::Menu { choices } => seq![SpecCommand::ShowMenu(choices)],
        SpecEvent::End => seq![SpecCommand::ClearMenu],
    }
}

/// The presentation after a command.
pub open spec fn apply(p: SpecPresentation, c: SpecCommand) -> SpecPresentation {
    match c {
        SpecCommand::SetBackground { image, .. } => SpecPresentation {
            background: Some(image),
            sprites: Map::empty(),
            ..p
        },
        SpecCommand::ShowSprite { tag, attrs, position, .. } => SpecPresentation {
            sprites: p.sprites.insert(tag, SpecSprite { attrs, position }),
            ..p
        },
        SpecCommand::HideSprite(tag) => SpecPresentation { sprites: p.sprites.remove(tag), ..p },
        SpecCommand::PlayMusic(path) => SpecPresentation { music: Some(path), ..p },
        SpecCommand::StopMusic => SpecPresentation { music: None, ..p },
        SpecCommand::ShowDialogue { speaker, text, .. } => SpecPresentation {
            dialogue: Some(SpecDialogue { speaker, text }),
            ..p
        },
        SpecCommand::ShowMenu(choices) => SpecPresentation { menu: Some(choices), ..p },
        SpecCommand::ClearMenu => SpecPresentation { menu: None, ..p },
    }
}

/// The presentation after a sequence of commands, applied in order.
pub open spec fn apply_all(p: SpecPresentation, cs: Seq<SpecCommand>) -> SpecPresentation
    decreases cs.len(),
{
    if cs.len() == 0 {
        p
    } else {
        apply(apply_all(p, cs.drop_last()), cs.last())
    }
}

/// Converts a story event to presentation commands.
pub fn commands_from_event(event: &VmEvent) -> (r: Vec<PresentationCommand>)
    ensures
        r@.map_values(|c: PresentationCommand| c@) == event_commands(event@),
{
    let r = match event {
        VmEvent::Dialogue { speaker, text, effect } => vec![
            PresentationCommand::ClearMenu,
            PresentationCommand::ShowDialogue {
                speaker: duplicate_opt_str(speaker),
                text: text.clone(),
                effect: *effect,
            },
        ],
        VmEvent::Scene { image, transition } => vec![
            PresentationCommand::SetBackground {
                image: image.clone(),
                transition: duplicate_opt_transition(transition),
            },
        ],
        VmEvent::Show { tag, attrs, position, transition } => vec![
            PresentationCommand::ShowSprite {
                tag: tag.clone(),
                attrs: duplicate_strings(attrs),
                position: position.clone(),
                transition: duplicate_opt_transition(transition),
            },
        ],
        VmEvent::Hide { tag } => vec![PresentationCommand::HideSprite(tag.clone())],
        VmEvent::PlayMusic { path } => vec![PresentationCommand::PlayMusic(path.clone())],
        VmEvent::StopMusic => vec![PresentationCommand::StopMusic],
        VmEvent::Menu { choices } => vec![PresentationCommand::ShowMenu(duplicate_strings(choices))],
        VmEvent::End => vec![PresentationCommand::ClearMenu],
    };
    assert(r@.map_values(|c: PresentationCommand| c@) =~= event_commands(event@));
    r
}

/// Applies a presentation command to a snapshot.
pub fn apply_command(snapshot: &mut PresentationSnapshot, command: &PresentationCommand)
    ensures
        final(snapshot)@ == apply(old(snapshot)@, command@),
{
    match command {
        PresentationCommand::SetBackground { image, .. } => {
            snapshot.background = Some(image.clone());
            snapshot.sprites.clear();
        },
        PresentationCommand::ShowSprite { tag, attrs, position, .. } => {
            snapshot.sprites.insert(
                tag.clone(),
                SpriteSnapshot { attrs: duplicate_strings(attrs), position: position.clone() },
            );
        },
        PresentationCommand::HideSprite(tag) => {
            let _ = snapshot.sprites.remove(tag.as_str());
        },
        PresentationCommand::PlayMusic(path) => {
            snapshot.music = Some(path.clone());
        },
        PresentationCommand::StopMusic => {
            snapshot.music = None;
        },
        PresentationCommand::ShowDialogue { speaker, text, .. } => {
            snapshot.dialogue = Some(DialogueSnapshot { speaker: duplicate_opt_str(speaker), text: text.clone() });
        },
        PresentationCommand::ShowMenu(choices) => {
            snapshot.menu = Some(duplicate_strings(choices));
        },
        PresentationCommand::ClearMenu => {
            snapshot.menu = None;
        },
    }
}

/// Presenting the event of a step, through its commands, gives the presentation the story
/// machine keeps for itself after that step.
pub proof fn law_commands_match_step(m: SpecVm)
    ensures
        step(m) matches SpecStep::Stop(Ok(e), m2) ==> apply_all(m.presentation, event_commands(e)) == m2.presentation,
{
    match step(m) {
        SpecStep::Stop(Ok(e), m2) => {
            let cs = event_commands(e);
            reveal_with_fuel(apply_all, 3);
            if cs.len() == 2 {
                assert(cs.drop_last().drop_last() =~= Seq::<SpecCommand>::empty());
            } else {
                assert(cs.drop_last() =~= Seq::<SpecCommand>::empty());
            }
        },
        _ => {},
    }
}

/// Presenting the event a run stops at, through its commands, gives the presentation the story
/// machine holds when it stops: renderers that follow the events stay in step with the machine.
pub proof fn law_commands_match_run(m: SpecVm, fuel: nat)
    ensures
        run(m, fuel) matches SpecRun::Halted(Ok(e), m2) ==> apply_all(m.presentation, event_commands(e)) == m2.presentation,
    decreases fuel,
{
    if fuel > 0 {
        law_commands_match_step(m);
        match step(m) {
            SpecStep::Continue(m2) => {
                law_commands_match_run(m2, (fuel - 1) as nat);
            },
            SpecStep::Stop(_, _) => {},
        }
    }
}

} // verus!
