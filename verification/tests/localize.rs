use vinyl::localize::{
    catalog_from_entries, extract_messages, parse_locale, render_messages, FluentEntry, LocaleError,
};
use vinyl::parser::parse_source;

#[test]
fn parses_flat_fluent_messages() {
    let catalog = parse_locale(
        "test.ftl",
        "id-ID",
        r#"intro-hello = Halo.
intro-ask = Tanya kota
"#,
    )
    .unwrap();

    assert_eq!(catalog.locale, "id-ID");
    assert_eq!(catalog.get("intro-hello"), Some("Halo."));
    assert_eq!(catalog.get("intro-ask"), Some("Tanya kota"));
}

#[test]
fn invalid_fluent_is_a_parse_error_naming_the_file() {
    let error = parse_locale("bad.ftl", "en", "= no id\n").unwrap_err();
    assert_eq!(error, LocaleError::Parse { path: "bad.ftl".to_string() });
}

#[test]
fn placeables_are_dropped_and_text_is_trimmed() {
    let catalog = parse_locale("p.ftl", "en", "greet = Hi { $name }!\n").unwrap();
    assert_eq!(catalog.get("greet"), Some("Hi !"));
    assert_eq!(catalog.get("missing"), None);
}

#[test]
fn catalogs_from_entries_keep_the_last_message_per_id() {
    let entries = vec![
        FluentEntry::Message("a".to_string(), Some(vec![Some("  one ".to_string())])),
        FluentEntry::Other,
        FluentEntry::Message("b".to_string(), None),
        FluentEntry::Message("a".to_string(), Some(vec![Some("tw".to_string()), None, Some("o".to_string())])),
    ];
    let catalog = catalog_from_entries("xx", &entries);
    assert_eq!(catalog.get("a"), Some("two"));
    assert_eq!(catalog.get("b"), None);
    assert_eq!(catalog.messages.len(), 1);
}

#[test]
fn extracted_messages_are_sorted_and_keep_the_first_text() {
    let script = parse_source(
        "x.vn",
        "label start:\n    eileen [intro-hello] \"Hello.\"\n    [intro-hello] \"Again\"\n    menu:\n        [intro-ask] \"Ask\":\n            [a-first] \"Line\\nbreak\"\n",
    )
    .unwrap();
    let messages = extract_messages(&script);
    assert_eq!(
        messages,
        vec![
            ("a-first".to_string(), "Line\nbreak".to_string()),
            ("intro-ask".to_string(), "Ask".to_string()),
            ("intro-hello".to_string(), "Hello.".to_string()),
        ]
    );
    assert!(vinyl::localize::in_tag_order(&messages));
    let unsorted = vec![("b".to_string(), "B".to_string()), ("a".to_string(), "A".to_string())];
    assert!(!vinyl::localize::in_tag_order(&unsorted));
    let twice = vec![("a".to_string(), "A".to_string()), ("a".to_string(), "B".to_string())];
    assert!(!vinyl::localize::in_tag_order(&twice));
    assert_eq!(
        render_messages(&messages),
        "a-first = Line\\nbreak\nintro-ask = Ask\nintro-hello = Hello.\n"
    );
}
