use vinyl::localize::LocaleCatalog;
use vinyl::manifest::{AssetPaths, ProjectManifest, ProjectMetadata, ProjectPaths};
use vinyl::parser::parse_source;
use vinyl::strmap::StrMap;
use vinyl::validate::{referenced_assets, validate_against};
use vinyl::asset::AssetId;

fn manifest() -> ProjectManifest {
    ProjectManifest {
        project: ProjectMetadata::default(),
        paths: ProjectPaths {
            script: "story".to_string(),
            assets: "media".to_string(),
            locales: "locale".to_string(),
        },
        assets: AssetPaths {
            backgrounds: "backs".to_string(),
            sprites: "chars".to_string(),
            audio: "sound".to_string(),
        },
    }
}

#[test]
fn validator_uses_manifest_asset_roots_and_collects_missing_assets() {
    let script = parse_source(
        "test.vn",
        r#"label start:
    scene bg room
    show eileen happy at center
    play music "theme.ogg"
    end
"#,
    )
    .unwrap();
    let present = vec!["game/media/backs/room.png".to_string()];
    let error = validate_against(&script, "game", &manifest(), &[], &present).unwrap_err();
    let rendered = error
        .diagnostics()
        .iter()
        .map(|diagnostic| diagnostic.render())
        .collect::<Vec<_>>()
        .join("\n");
    assert_eq!(error.diagnostics().len(), 2);
    assert!(rendered.contains("media/chars/eileen/happy.png"));
    assert!(rendered.contains("media/sound/theme.ogg"));
    assert_eq!(
        error.diagnostics()[0].render(),
        "test.vn:3:5: missing asset 'game/media/chars/eileen/happy.png'"
    );
}

#[test]
fn a_clean_project_validates() {
    let script = parse_source("ok.vn", "label start:\n    scene bg room\n    jump start\n").unwrap();
    let present = vec!["game/media/backs/room.png".to_string()];
    assert!(validate_against(&script, "game", &manifest(), &[], &present).is_ok());
}

#[test]
fn text_ids_must_be_unique_and_translated_in_every_catalog() {
    let script = parse_source(
        "ids.vn",
        "label start:\n    [a] \"One\"\n    menu:\n        [a] \"Two\":\n            end\n",
    )
    .unwrap();
    let mut messages = StrMap::new();
    messages.insert("a".to_string(), "Uno".to_string());
    let full = LocaleCatalog { locale: "es".to_string(), messages };
    let empty = LocaleCatalog { locale: "fr".to_string(), messages: StrMap::new() };
    let error = validate_against(&script, "game", &manifest(), &[full, empty], &[]).unwrap_err();
    let messages: Vec<String> = error.diagnostics().iter().map(|d| d.render()).collect();
    assert_eq!(
        messages,
        vec![
            "ids.vn:2:5: missing locale 'fr' entry 'a'".to_string(),
            "ids.vn:4:9: duplicate text id 'a'".to_string(),
            "ids.vn:4:9: missing locale 'fr' entry 'a'".to_string(),
        ]
    );
}

#[test]
fn labels_are_checked_before_everything_else() {
    let script = parse_source("o.vn", "jump nowhere\nlabel a:\n    end\nlabel a:\n    end\n").unwrap();
    let error = validate_against(&script, "game", &manifest(), &[], &[]).unwrap_err();
    let messages: Vec<String> = error.diagnostics().iter().map(|d| d.message.clone()).collect();
    assert_eq!(
        messages,
        vec![
            "duplicate label 'a'".to_string(),
            "missing required label 'start'".to_string(),
            "missing label 'nowhere'".to_string(),
        ]
    );
    let empty = parse_source("e.vn", "").unwrap();
    let error = validate_against(&empty, "game", &manifest(), &[], &[]).unwrap_err();
    assert_eq!(error.diagnostics()[0].render(), "<project>:1:1: missing required label 'start'");
}

#[test]
fn referenced_assets_follow_script_order_through_nested_blocks() {
    let script = parse_source(
        "r.vn",
        "label start:\n    scene bg a\n    if x:\n        show b\n    else:\n        play music \"c.ogg\"\n    menu:\n        \"go\":\n            scene bg d\n",
    )
    .unwrap();
    let refs = referenced_assets(&script.statements);
    assert_eq!(
        refs,
        vec![
            AssetId::Background("bg a".to_string()),
            AssetId::Sprite { tag: "b".to_string(), attrs: vec![] },
            AssetId::Audio("c.ogg".to_string()),
            AssetId::Background("bg d".to_string()),
        ]
    );
}
