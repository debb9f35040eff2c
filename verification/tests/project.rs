use vinyl::project::{
    assemble_scripts, is_script_file, locale_of_file, path_extension, path_stem, script_hash, sort_catalogs,
    sort_paths, ScriptSource,
};
use vinyl::localize::LocaleCatalog;
use vinyl::strmap::StrMap;

fn source(path: &str, text: &str) -> ScriptSource {
    ScriptSource { path: path.to_string(), source: text.to_string() }
}

#[test]
fn paths_sort_component_by_component() {
    let sorted = sort_paths(vec![
        "game/script/z.vn".to_string(),
        "game/script/a-b/x.vn".to_string(),
        "game/script/a/x.vn".to_string(),
        "game/script/a.vn".to_string(),
    ]);
    assert_eq!(
        sorted,
        vec![
            "game/script/a/x.vn".to_string(),
            "game/script/a-b/x.vn".to_string(),
            "game/script/a.vn".to_string(),
            "game/script/z.vn".to_string(),
        ]
    );
}

#[test]
fn file_kinds_follow_their_extension() {
    assert!(is_script_file("game/script/start.vn"));
    assert!(!is_script_file("game/script/start.vn.bak"));
    assert!(!is_script_file("game/script/.vn"));
    assert_eq!(locale_of_file("game/locale/en-US.ftl").as_deref(), Some("en-US"));
    assert_eq!(locale_of_file("game/locale/notes.txt"), None);
    assert_eq!(path_extension("a/b.tar.gz").as_deref(), Some("gz"));
    assert_eq!(path_stem("a/b.tar.gz").as_deref(), Some("b.tar"));
    assert_eq!(path_stem("a/.hidden").as_deref(), Some(".hidden"));
    assert_eq!(path_extension("a/.hidden"), None);
}

#[test]
fn multi_file_scripts_join_in_order_and_report_every_file() {
    let ok = assemble_scripts(&[
        source("a.vn", "\"wrong\"\n"),
        source("z.vn", "label start:\n    \"right\"\n"),
    ])
    .unwrap();
    assert_eq!(ok.statements.len(), 3);

    let errors = assemble_scripts(&[source("a.vn", "wat\nnope\n"), source("b.vn", "bad\n")]).unwrap_err();
    let rendered: Vec<String> = errors.iter().map(|d| d.render()).collect();
    assert_eq!(
        rendered,
        vec![
            "a.vn:1:1: unknown statement".to_string(),
            "a.vn:2:1: unknown statement".to_string(),
            "b.vn:1:1: unknown statement".to_string(),
        ]
    );
}

#[test]
fn top_level_else_stays_with_its_conditional_when_reading_past_errors() {
    let (script, errors) = vinyl::parser::parse_recovering("e.vn", "if x:\n    end\nelse:\n    end\nbogus\n");
    assert_eq!(script.statements.len(), 1);
    assert_eq!(errors.len(), 1);
    assert_eq!(errors[0].render(), "e.vn:5:1: unknown statement");
}

#[test]
fn recovering_parse_of_a_clean_script_matches_the_strict_parse() {
    let source = "label start:\n    menu:\n        \"Go\":\n            jump done\n    if x:\n        end\n    else:\n        end\nlabel done:\n    end\n";
    let strict = vinyl::parser::parse_source("c.vn", source).unwrap();
    let (script, errors) = vinyl::parser::parse_recovering("c.vn", source);
    assert!(errors.is_empty());
    assert_eq!(script, strict);
}

#[test]
fn script_hash_changes_with_content_and_path() {
    let first = script_hash("game", &[source("game/script/start.vn", "label start:\n    end\n")]);
    let changed = script_hash("game", &[source("game/script/start.vn", "label start:\n    \"changed\"\n    end\n")]);
    let moved = script_hash("game", &[source("game/script/other.vn", "label start:\n    end\n")]);
    let same = script_hash("other-root", &[source("other-root/script/start.vn", "label start:\n    end\n")]);
    assert_eq!(first.len(), 64);
    assert_ne!(first, changed);
    assert_ne!(first, moved);
    assert_eq!(first, same);
    let expected = blake3::hash(b"script/start.vn\0label start:\n    end\n\0").to_hex().to_string();
    assert_eq!(first, expected);
}

#[test]
fn catalogs_sort_by_locale() {
    let cat = |l: &str| LocaleCatalog { locale: l.to_string(), messages: StrMap::new() };
    let sorted = sort_catalogs(vec![cat("id-ID"), cat("en-US"), cat("de")]);
    let names: Vec<&str> = sorted.iter().map(|c| c.locale.as_str()).collect();
    assert_eq!(names, vec!["de", "en-US", "id-ID"]);
}

#[test]
fn a_new_project_starts_with_a_valid_script_and_its_locale() {
    let files = vinyl::project::starter_files("my-game");
    assert_eq!(files.len(), 3);
    assert_eq!(files[0].0, "vinyl.toml");
    assert!(files[0].1.starts_with("[project]\nid = \"my-game\"\ntitle = \"my-game\"\n"));
    let script = vinyl::parser::parse_source("start.vn", &files[1].1).unwrap();
    let messages = vinyl::localize::extract_messages(&script);
    assert_eq!(
        messages,
        vec![
            ("intro-continue".to_string(), "Continue".to_string()),
            ("intro-hello".to_string(), "Hello.".to_string()),
        ]
    );
    let catalog = vinyl::localize::parse_locale("locale/en-US.ftl", "en-US", &files[2].1).unwrap();
    assert_eq!(catalog.get("intro-hello"), Some("Hello."));
    assert_eq!(catalog.get("intro-continue"), Some("Continue"));
    assert_eq!(vinyl::project::starter_dirs().len(), 5);
}
