use vinyl::ast::{AssignOp, BinaryOp, Expr, StmtKind, TextEffect, Value};
use vinyl::cli::format_event;
use vinyl::parser::parse_source;
use vinyl::vm::VmEvent;

#[test]
fn parses_assignment_ops_conditionals_and_menu_conditions() {
    let script = parse_source(
        "expr.vn",
        r#"label start:
    $affection = 1
    $affection += 2
    if affection >= 3 and not locked:
        menu:
            "Ask" if affection >= 3:
                end
    else:
        end
"#,
    )
    .unwrap();

    let StmtKind::Assign { op, value, .. } = &script.statements[1].kind else {
        panic!("expected set");
    };
    assert_eq!(*op, AssignOp::Assign);
    assert_eq!(*value, Expr::Value(Value::Int(1)));

    let StmtKind::Assign { op, value, .. } = &script.statements[2].kind else {
        panic!("expected add");
    };
    assert_eq!(*op, AssignOp::Add);
    assert_eq!(*value, Expr::Value(Value::Int(2)));

    let StmtKind::If {
        cond, then_body, ..
    } = &script.statements[3].kind
    else {
        panic!("expected if");
    };
    assert!(matches!(
        cond,
        Expr::Binary {
            op: BinaryOp::And,
            ..
        }
    ));

    let StmtKind::Menu { choices } = &then_body[0].kind else {
        panic!("expected menu");
    };
    assert_eq!(choices.len(), 1);
    assert!(choices[0].condition.is_some());
}

#[test]
fn parses_visual_transitions_and_text_effects() {
    let script = parse_source(
        "effects.vn",
        r#"label start:
    scene bg room with fade(duration=0.5)
    show eileen happy at left with dissolve(duration=1.25)
    eileen "Hello." with typewriter(speed=45)
"#,
    )
    .unwrap();

    let StmtKind::Scene { transition, .. } = &script.statements[1].kind else {
        panic!("expected scene");
    };
    let transition = transition.as_ref().expect("scene transition");
    assert_eq!(transition.kind, "fade");
    assert_eq!(transition.duration_ms, 500);

    let StmtKind::Show { transition, .. } = &script.statements[2].kind else {
        panic!("expected show");
    };
    let transition = transition.as_ref().expect("show transition");
    assert_eq!(transition.kind, "dissolve");
    assert_eq!(transition.duration_ms, 1250);

    let StmtKind::Say { effect, .. } = &script.statements[3].kind else {
        panic!("expected say");
    };
    assert_eq!(
        *effect,
        TextEffect::Typewriter {
            chars_per_second: 45
        }
    );
}

#[test]
fn rejects_unknown_transition_and_text_effect() {
    assert!(parse_source("bad.vn", "scene bg room with spin(duration=1)").is_err());
    assert!(parse_source("bad.vn", "eileen \"Hi\" with sparkle(speed=1)").is_err());
}

#[test]
fn operators_bind_with_the_usual_precedence() {
    let script = parse_source("p.vn", "if a or b and not c == 1 + 2:\n    end\n").unwrap();
    let StmtKind::If { cond, .. } = &script.statements[0].kind else {
        panic!("expected if");
    };
    let Expr::Binary { op: BinaryOp::Or, left, right } = cond else {
        panic!("expected or at the top");
    };
    assert_eq!(**left, Expr::Var("a".to_string()));
    let Expr::Binary { op: BinaryOp::And, right: and_right, .. } = &**right else {
        panic!("expected and under or");
    };
    let Expr::Binary { op: BinaryOp::Eq, left: eq_left, right: eq_right } = &**and_right else {
        panic!("expected comparison under and");
    };
    assert!(matches!(**eq_left, Expr::Unary { .. }));
    assert!(matches!(**eq_right, Expr::Binary { op: BinaryOp::Add, .. }));
}

#[test]
fn subtraction_is_left_associative() {
    let script = parse_source("p.vn", "$x = 10 - 3 - 2\n").unwrap();
    let StmtKind::Assign { value, .. } = &script.statements[0].kind else {
        panic!("expected assignment");
    };
    let Expr::Binary { op: BinaryOp::Sub, left, right } = value else {
        panic!("expected subtraction");
    };
    assert_eq!(**right, Expr::Value(Value::Int(2)));
    assert!(matches!(**left, Expr::Binary { op: BinaryOp::Sub, .. }));
}

#[test]
fn literals_cover_booleans_strings_and_signed_integers() {
    let script = parse_source(
        "lit.vn",
        "$a = True\n$b = false\n$c = \"hi\"\n$d = -9223372036854775808\n$e = +7\n",
    )
    .unwrap();
    let values: Vec<&Expr> = script
        .statements
        .iter()
        .map(|s| match &s.kind {
            StmtKind::Assign { value, .. } => value,
            _ => panic!("expected assignment"),
        })
        .collect();
    assert_eq!(*values[0], Expr::Value(Value::Bool(true)));
    assert_eq!(*values[1], Expr::Value(Value::Bool(false)));
    assert_eq!(*values[2], Expr::Value(Value::Str("hi".to_string())));
    assert_eq!(*values[3], Expr::Value(Value::Int(i64::MIN)));
    assert_eq!(*values[4], Expr::Value(Value::Int(7)));
}

#[test]
fn expression_errors_name_the_problem() {
    let overflow = parse_source("e.vn", "$a = 9223372036854775808\n").unwrap_err();
    assert_eq!(overflow.message, "name must start with a letter or '_'");
    let trailing = parse_source("e.vn", "$a = 1 2\n").unwrap_err();
    assert_eq!(trailing.message, "unexpected token in expression");
    let missing = parse_source("e.vn", "$a = 1 +\n").unwrap_err();
    assert_eq!(missing.message, "expected expression");
    let bad_name = parse_source("e.vn", "$a = x-y\n").unwrap_err();
    assert_eq!(bad_name.message, "name contains invalid characters");
    let no_eq = parse_source("e.vn", "$a\n").unwrap_err();
    assert_eq!(no_eq.message, "assignment requires '='");
}

#[test]
fn durations_round_to_milliseconds_and_saturate() {
    let ms = |arg: &str| -> u32 {
        let script = parse_source("d.vn", &format!("scene bg room with fade(duration={arg})\n")).unwrap();
        match &script.statements[0].kind {
            StmtKind::Scene { transition: Some(t), .. } => t.duration_ms,
            _ => panic!("expected scene with transition"),
        }
    };
    assert_eq!(ms("0.5"), 500);
    assert_eq!(ms("2"), 2000);
    assert_eq!(ms(".25"), 250);
    assert_eq!(ms("1."), 1000);
    assert_eq!(ms("0.0015"), 2);
    assert_eq!(ms("0.0014"), 1);
    assert_eq!(ms("-3"), 0);
    assert_eq!(ms("99999999"), u32::MAX);
    assert!(parse_source("d.vn", "scene bg room with fade(duration=soon)\n").is_err());
    let default = parse_source("d.vn", "scene bg room with fade\n").unwrap();
    assert!(matches!(
        &default.statements[0].kind,
        StmtKind::Scene { transition: Some(t), .. } if t.duration_ms == 0
    ));
}

#[test]
fn typewriter_speed_defaults_and_is_checked() {
    let script = parse_source("t.vn", "\"Hi\" with typewriter\n\"Yo\" with instant\n").unwrap();
    assert!(matches!(
        script.statements[0].kind,
        StmtKind::Say { effect: TextEffect::Typewriter { chars_per_second: 30 }, .. }
    ));
    assert!(matches!(script.statements[1].kind, StmtKind::Say { effect: TextEffect::Instant, .. }));
    let error = parse_source("t.vn", "\"Hi\" with typewriter(speed=70000)\n").unwrap_err();
    assert_eq!(error.message, "speed must be an integer");
}

#[test]
fn headless_event_lines_match_the_cli_format() {
    assert_eq!(
        format_event(&VmEvent::Dialogue { speaker: Some("eileen".to_string()), text: "Hi".to_string(), effect: TextEffect::Instant }),
        "say:eileen:Hi"
    );
    assert_eq!(
        format_event(&VmEvent::Show {
            tag: "eileen".to_string(),
            attrs: vec!["happy".to_string(), "casual".to_string()],
            position: "center".to_string(),
            transition: None
        }),
        "show:eileen:happy casual:center"
    );
    assert_eq!(format_event(&VmEvent::Menu { choices: vec!["A".to_string(), "B".to_string()] }), "menu:A|B");
    assert_eq!(format_event(&VmEvent::StopMusic), "stop-music");
    assert_eq!(format_event(&VmEvent::End), "end");
}

#[test]
fn durations_read_like_f32_numbers() {
    let ms = |s: &str| vinyl::lexer::parse_duration_ms(&s.chars().collect::<Vec<char>>());
    assert_eq!(ms("0.5"), Some(500));
    assert_eq!(ms("1.25"), Some(1250));
    assert_eq!(ms("1e3"), Some(1_000_000));
    assert_eq!(ms("1.5E-1"), Some(150));
    assert_eq!(ms("1.5e-3"), Some(2));
    assert_eq!(ms(".5e+1"), Some(5000));
    assert_eq!(ms("1e99"), Some(u32::MAX));
    assert_eq!(ms("1e-99"), Some(0));
    assert_eq!(ms("0e99999999999999999999999"), Some(0));
    assert_eq!(ms("3e99999999999999999999999"), Some(u32::MAX));
    assert_eq!(ms("inf"), Some(u32::MAX));
    assert_eq!(ms("+Infinity"), Some(u32::MAX));
    assert_eq!(ms("-inf"), Some(0));
    assert_eq!(ms("NaN"), Some(0));
    assert_eq!(ms("-0.4"), Some(0));
    assert_eq!(ms("1e"), None);
    assert_eq!(ms("e5"), None);
    assert_eq!(ms("."), None);
    assert_eq!(ms("1.2.3"), None);
    assert_eq!(ms("infinit"), None);
}
