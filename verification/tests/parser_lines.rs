use vinyl::ast::{StmtKind, TextEffect};
use vinyl::parser::parse_source;

#[test]
fn comments_blank_lines_and_crlf_are_ignored() {
    let script = parse_source(
        "c.vn",
        "# heading\r\nlabel start:   # trailing\r\n\r\n    \"a # not a comment\"\r\n    end\r\n",
    )
    .unwrap();
    assert_eq!(script.statements.len(), 3);
    let StmtKind::Say { text, .. } = &script.statements[1].kind else {
        panic!("expected narration");
    };
    assert_eq!(text, "a # not a comment");
    assert_eq!(script.statements[1].pos.line, 4);
    assert_eq!(script.statements[1].pos.column, 5);
}

#[test]
fn escapes_in_quoted_text() {
    let script = parse_source("e.vn", r#""a\"b\\c\nd\x""#).unwrap();
    let StmtKind::Say { text, .. } = &script.statements[0].kind else {
        panic!("expected narration");
    };
    assert_eq!(text.as_str(), "a\"b\\c\ndx");
}

#[test]
fn label_bodies_follow_the_label_in_one_list() {
    let script = parse_source("l.vn", "label a:\n    end\nlabel b:\n    jump a\n").unwrap();
    assert_eq!(script.statements.len(), 4);
    assert!(matches!(&script.statements[2].kind, StmtKind::Label { name } if name == "b"));
    assert!(matches!(&script.statements[3].kind, StmtKind::Jump { label } if label == "a"));
}

#[test]
fn show_reads_tag_attributes_and_position() {
    let script = parse_source("s.vn", "show eileen happy smiling\nshow eileen at left\n").unwrap();
    let StmtKind::Show { tag, attrs, position, transition } = &script.statements[0].kind else {
        panic!("expected show");
    };
    assert_eq!(tag, "eileen");
    assert_eq!(attrs, &vec!["happy".to_string(), "smiling".to_string()]);
    assert_eq!(position, "center");
    assert!(transition.is_none());
    let StmtKind::Show { attrs, position, .. } = &script.statements[1].kind else {
        panic!("expected show");
    };
    assert!(attrs.is_empty());
    assert_eq!(position, "left");
}

#[test]
fn errors_carry_the_line_and_column() {
    let cases: [(&str, &str, usize, usize); 12] = [
        ("label start:\n    end\n        end\n", "unexpected indented block", 3, 9),
        ("frobnicate\n", "unknown statement", 1, 1),
        ("show\n", "unknown statement", 1, 1),
        ("show eileen at\n", "show at requires a position", 1, 1),
        ("show at left\n", "show requires image name", 1, 1),
        ("menu:\n", "menu requires at least one choice", 1, 1),
        ("menu:\n    \"A\"\n", "menu choice must end with ':'", 2, 5),
        ("menu:\n    \"A\":\nend\n", "menu choice body cannot be empty", 2, 5),
        ("\"unterminated\n", "unterminated string", 1, 1),
        ("\"a\" b\n", "unexpected text after string", 1, 1),
        ("jump 9lives\n", "name must start with a letter or '_'", 1, 1),
        ("play music theme\n", "expected quoted string", 1, 1),
    ];
    for (source, message, line, column) in cases {
        let error = parse_source("x.vn", source).unwrap_err();
        assert_eq!(error.message, message, "for {source:?}");
        assert_eq!((error.pos.line, error.pos.column), (line, column), "for {source:?}");
        assert_eq!(error.pos.file, "x.vn");
    }
}

#[test]
fn menu_without_choices_at_end_of_file_points_at_the_start() {
    let error = parse_source("m.vn", "label start:\n    menu:\n").unwrap_err();
    assert_eq!(error.message, "menu requires at least one choice");
    assert_eq!((error.pos.line, error.pos.column), (1, 1));
}

#[test]
fn dedent_past_the_top_level_is_reported() {
    let error = parse_source("d.vn", "  label start:\nend\n").unwrap_err();
    assert_eq!(error.message, "unexpected indented block");
    assert_eq!((error.pos.line, error.pos.column), (1, 3));
    let error = parse_source("d.vn", "if x:\n    end\n  end\n").unwrap_err();
    assert_eq!(error.message, "unexpected indented block");
    assert_eq!((error.pos.line, error.pos.column), (3, 3));
}

#[test]
fn speaker_lines_with_ids_and_effects() {
    let script = parse_source("s.vn", "eileen [intro-hello] \"Hello.\" with typewriter(speed=45)\n").unwrap();
    let StmtKind::Say { speaker, text_id, text, effect } = &script.statements[0].kind else {
        panic!("expected say");
    };
    assert_eq!(speaker.as_deref(), Some("eileen"));
    assert_eq!(text_id.as_deref(), Some("intro-hello"));
    assert_eq!(text, "Hello.");
    assert_eq!(*effect, TextEffect::Typewriter { chars_per_second: 45 });
    assert_eq!(parse_source("s.vn", "[\"x\"\n").unwrap_err().message, "unterminated text id");
    assert_eq!(parse_source("s.vn", "[ ] \"x\"\n").unwrap_err().message, "empty text id");
}

#[test]
fn parse_errors_render_with_their_position() {
    let error = parse_source("r.vn", "label start:\n    oops\n").unwrap_err();
    assert_eq!(error.render(), "r.vn:2:5: unknown statement");
}
