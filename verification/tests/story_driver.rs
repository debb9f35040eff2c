use vinyl::ast::{Script, SourcePos, Stmt, StmtKind};
use vinyl::compile::compile;
use vinyl::story::VnStory;

fn stmt(kind: StmtKind) -> Stmt {
    Stmt {
        kind,
        pos: SourcePos {
            file: "driver.vn".to_string(),
            line: 1,
            column: 1,
        },
    }
}

fn story(body: Vec<Stmt>) -> VnStory {
    let mut statements = vec![stmt(StmtKind::Label {
        name: "start".to_string(),
    })];
    statements.extend(body);
    VnStory::new(compile(&Script { statements })).unwrap()
}

#[test]
fn end_and_revision_follow_every_story_mutation() {
    let mut story = story(vec![
        stmt(StmtKind::Say {
            speaker: None,
            text_id: None,
            text: "Done.".to_string(),
            effect: Default::default(),
        }),
        stmt(StmtKind::End),
    ]);

    assert_eq!(story.revision(), 0);
    assert!(!story.ended());

    story.continue_story().unwrap();
    assert_eq!(story.revision(), 1);
    assert!(!story.ended());

    story.continue_story().unwrap();
    assert_eq!(story.revision(), 2);
    assert!(story.ended());

    assert!(story.rollback().is_none());
    assert_eq!(story.revision(), 2);
    assert!(story.ended());
}

#[test]
fn failed_steps_record_the_error_and_keep_the_revision() {
    let mut story = story(vec![stmt(StmtKind::Say {
        speaker: None,
        text_id: None,
        text: "Hi".to_string(),
        effect: Default::default(),
    })]);
    story.continue_story().unwrap();
    assert!(story.select(3).is_err());
    assert_eq!(story.revision(), 1);
    assert!(story.last_error().is_some());
    assert!(matches!(story.last_event(), Some(vinyl::vm::VmEvent::Dialogue { .. })));
}
