use std::path::PathBuf;

use vinyl::manifest::{AssetPaths, ProjectManifest, ProjectMetadata, ProjectPaths};
use vinyl::runtime::AssetResolver;
use vinyl::save::{PresentationSnapshot, SpriteSnapshot};

fn path(parts: &[&str]) -> PathBuf {
    parts.iter().collect()
}

#[test]
fn resolver_maps_script_asset_ids_to_project_relative_paths() {
    let resolver = AssetResolver::new("game");

    assert_eq!(
        PathBuf::from(resolver.background("bg school hallway"),),
        path(&["game", "assets", "bg", "school", "hallway.png"])
    );
    assert_eq!(
        PathBuf::from(resolver.background("title screen"),),
        path(&["game", "assets", "bg", "title", "screen.png"])
    );
    assert_eq!(
        PathBuf::from(resolver.sprite("eileen", &["happy".to_string(), "casual".to_string()]),),
        path(&["game", "assets", "sprites", "eileen", "happy_casual.png"])
    );
    assert_eq!(
        PathBuf::from(resolver.sprite("eileen", &[]),),
        path(&["game", "assets", "sprites", "eileen", "default.png"])
    );
    assert_eq!(
        PathBuf::from(resolver.audio("assets/audio/bgm/theme.ogg"),),
        path(&["game", "assets", "audio", "bgm", "theme.ogg"])
    );
}

#[test]
fn snapshot_resolution_returns_only_visible_assets_in_stable_sprite_order() {
    let resolver = AssetResolver::new("game");
    let mut snapshot = PresentationSnapshot {
        background: Some("bg club room".to_string()),
        music: Some("assets/audio/bgm/club.ogg".to_string()),
        ..Default::default()
    };
    snapshot.sprites.insert(
        "zara".to_string(),
        SpriteSnapshot {
            attrs: vec!["neutral".to_string()],
            position: "right".to_string(),
        },
    );
    snapshot.sprites.insert(
        "amy".to_string(),
        SpriteSnapshot {
            attrs: vec!["surprised".to_string(), "school".to_string()],
            position: "left".to_string(),
        },
    );

    let resolved = resolver.resolve_snapshot(&snapshot);

    assert_eq!(
        resolved.background.map(PathBuf::from),
        Some(path(&["game", "assets", "bg", "club", "room.png"]))
    );
    assert_eq!(
        resolved
            .sprites
            .into_iter()
            .map(|(tag, p)| (tag, PathBuf::from(p)))
            .collect::<Vec<_>>(),
        vec![
            (
                "amy".to_string(),
                path(&["game", "assets", "sprites", "amy", "surprised_school.png",]),
            ),
            (
                "zara".to_string(),
                path(&["game", "assets", "sprites", "zara", "neutral.png"]),
            ),
        ]
    );
    assert_eq!(
        resolved.music.map(PathBuf::from),
        Some(path(&["game", "assets", "audio", "bgm", "club.ogg"]))
    );
}

#[test]
fn manifest_custom_path_resolution() {
    let manifest = ProjectManifest {
        project: ProjectMetadata::default(),
        paths: ProjectPaths {
            script: "story".to_string(),
            assets: "media".to_string(),
            locales: "l10n".to_string(),
        },
        assets: AssetPaths {
            backgrounds: "backs".to_string(),
            sprites: "chars".to_string(),
            audio: "sound".to_string(),
        },
    };
    let resolver = AssetResolver::with_manifest("game", manifest);

    assert_eq!(
        PathBuf::from(resolver.background("bg room")),
        path(&["game", "media", "backs", "room.png"])
    );
    assert_eq!(
        PathBuf::from(resolver.sprite("eileen", &["happy".to_string()])),
        path(&["game", "media", "chars", "eileen", "happy.png"])
    );
    assert_eq!(
        PathBuf::from(resolver.audio("bgm/theme.ogg")),
        path(&["game", "media", "sound", "bgm", "theme.ogg"])
    );
}

#[test]
fn produces_project_relative_bevy_asset_paths() {
    let resolver = AssetResolver::new("game");
    assert_eq!(
        resolver.project_relative(&resolver.background("bg school hallway")),
        "assets/bg/school/hallway.png"
    );
    assert_eq!(
        resolver.project_relative(&resolver.sprite("eileen", &["happy".to_string()])),
        "assets/sprites/eileen/happy.png"
    );
    assert_eq!(resolver.project_relative("elsewhere/x.png"), "elsewhere/x.png");
}
