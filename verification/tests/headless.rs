use vinyl::ast::{Choice, Script, SourcePos, Stmt, StmtKind, TextEffect};
use vinyl::cli::{finish_smoke, run_headless, HeadlessStop};
use vinyl::compile::compile;
use vinyl::save::{validate_save, PresentationSnapshot, ProjectId};
use vinyl::story::save_of;
use vinyl::vm::Vm;

fn pos() -> SourcePos {
    SourcePos { file: "start.vn".to_string(), line: 1, column: 1 }
}

fn stmt(kind: StmtKind) -> Stmt {
    Stmt { kind, pos: pos() }
}

fn say(text: &str) -> Stmt {
    stmt(StmtKind::Say {
        speaker: Some("eileen".to_string()),
        text_id: None,
        text: text.to_string(),
        effect: TextEffect::Instant,
    })
}

fn choice(text: &str, body: Vec<Stmt>) -> Choice {
    Choice { text_id: None, text: text.to_string(), condition: None, body, pos: pos() }
}

fn fixture() -> Script {
    Script {
        statements: vec![
            stmt(StmtKind::Label { name: "start".to_string() }),
            stmt(StmtKind::Scene { image: "bg room".to_string(), transition: None }),
            stmt(StmtKind::Show {
                tag: "eileen".to_string(),
                attrs: vec!["happy".to_string()],
                position: "center".to_string(),
                transition: None,
            }),
            say("Hello."),
            stmt(StmtKind::Menu {
                choices: vec![
                    choice("Continue", vec![say("Good."), stmt(StmtKind::End)]),
                    choice("Leave", vec![stmt(StmtKind::End)]),
                ],
            }),
        ],
    }
}

#[test]
fn smoke_run_goes_through_menu_save_and_rollback() {
    let program = compile(&fixture());
    let mut vm = Vm::new(program.clone()).unwrap();
    let mut presentation = PresentationSnapshot::new();
    let (stop, mut lines) = run_headless(&mut vm, &mut presentation, 100).unwrap();
    assert_eq!(stop, HeadlessStop::Menu);
    let id = ProjectId::new("demo");
    let save = save_of(&vm, "0.1.0", &id, "0.1.0", "abc123", 0);
    assert_eq!(save.game_id.0, "demo");
    assert_eq!(save.script_hash, "abc123");
    assert!(validate_save(&save, &id, "0.1.0", "abc123").is_ok());
    let mut restored = Vm::from_parts(program, save.vm, save.presentation, save.rollback);
    lines.extend(finish_smoke(&mut restored, &mut presentation).unwrap());
    assert_eq!(
        lines,
        vec![
            "scene:bg room",
            "show:eileen:happy:center",
            "say:eileen:Hello.",
            "menu:Continue|Leave",
            "say:eileen:Good.",
            "rollback:menu:Continue|Leave",
        ]
    );
    assert_eq!(presentation.background.as_deref(), Some("bg room"));
    assert_eq!(presentation.dialogue.unwrap().text, "Good.");
}

#[test]
fn headless_run_stops_at_the_end_and_at_its_limit() {
    let script = Script {
        statements: vec![
            stmt(StmtKind::Label { name: "start".to_string() }),
            say("One."),
            say("Two."),
            stmt(StmtKind::End),
        ],
    };
    let program = compile(&script);
    let mut vm = Vm::new(program.clone()).unwrap();
    let mut presentation = PresentationSnapshot::new();
    let (stop, lines) = run_headless(&mut vm, &mut presentation, 1).unwrap();
    assert_eq!(stop, HeadlessStop::Limit);
    assert_eq!(lines, vec!["say:eileen:One."]);
    let (stop, lines) = run_headless(&mut vm, &mut presentation, 10).unwrap();
    assert_eq!(stop, HeadlessStop::End);
    assert_eq!(lines, vec!["say:eileen:Two.", "end"]);
}
