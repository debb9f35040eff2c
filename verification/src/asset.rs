//! Resolves script asset references to project paths.
use vstd::prelude::*;
use crate::manifest::ProjectManifest;
use crate::text::{chars_of, has_prefix, join_path, join_path_chars, push_all, seq_view, slice_chars, starts_with, string_of};

verus! {

/// Script-level asset reference.
#[derive(Clone, Debug, PartialEq, Eq)]
pub enum AssetId {
    Background(String),
    Sprite { tag: String, attrs: Vec<String> },
    Audio(String),
}

/// The roots an asset resolver works from.
pub struct SpecAssetRoots {
    pub root: Seq<char>,
    pub assets: Seq<char>,
    pub backgrounds: Seq<char>,
    pub sprites: Seq<char>,
    pub audio: Seq<char>,
}

/// Resolves script asset references using a project manifest.
#[derive(Clone, Debug, PartialEq, Eq)]
pub struct AssetResolver {
    root: String,
    manifest: ProjectManifest,
}

impl View for AssetResolver {
    type V = SpecAssetRoots;

    closed spec fn view(&self) -> SpecAssetRoots {
        SpecAssetRoots {
            root: self.root@,
            assets: self.manifest.paths.assets@,
            backgrounds: self.manifest.assets.backgrounds@,
            sprites: self.manifest.assets.sprites@,
            audio: self.manifest.assets.audio@,
        }
    }
}

/// `s` with every `from` replaced by `to`.
pub open spec fn replace_char(s: Seq<char>, from: char, to: char) -> Seq<char> {
    s.map_values(|c: char| if c == from { to } else { c })
}

/// The parts joined with a separator between neighbours.
pub open spec fn join_with(parts: Seq<Seq<char>>, sep: char) -> Seq<char>
    decreases parts.len(),
{
    if parts.len() == 0 {
        Seq::empty()
    } else if parts.len() == 1 {
        parts[0]
    } else {
        join_with(parts.drop_last(), sep).push(sep) + parts.last()
    }
}

/// The asset directory of a project.
pub open spec fn asset_root(r: SpecAssetRoots) -> Seq<char> {
    join_path(r.root, r.assets)
}

/// `scene bg room` resolves to `<assets>/<backgrounds>/room.png`; without the `bg ` prefix
/// the whole name is used; spaces become path separators.
pub open spec fn background_path(r: SpecAssetRoots, image: Seq<char>) -> Seq<char> {
    let name = if has_prefix(image, "bg "@) { image.skip(3) } else { image };
    join_path(join_path(asset_root(r), r.backgrounds), replace_char(name, ' ', '/') + ".png"@)
}

/// `show eileen happy casual` resolves to `<assets>/<sprites>/eileen/happy_casual.png`, and to
/// `default.png` without attributes.
pub open spec fn sprite_path(r: SpecAssetRoots, tag: Seq<char>, attrs: Seq<Seq<char>>) -> Seq<char> {
    let file = if attrs.len() == 0 { "default"@ } else { join_with(attrs, '_') };
    join_path(join_path(join_path(asset_root(r), r.sprites), tag), file + ".png"@)
}

/// Audio paths resolve under `<assets>/<audio>`, dropping a leading `assets/audio/` or `audio/`.
pub open spec fn audio_path(r: SpecAssetRoots, path: Seq<char>) -> Seq<char> {
    let relative = if has_prefix(path, "assets/audio/"@) {
        path.skip(13)
    } else if has_prefix(path, "audio/"@) {
        path.skip(6)
    } else {
        path
    };
    join_path(join_path(asset_root(r), r.audio), relative)
}

/// Model of an asset reference.
pub enum SpecAssetId {
    Background(Seq<char>),
    Sprite { tag: Seq<char>, attrs: Seq<Seq<char>> },
    Audio(Seq<char>),
}

impl View for AssetId {
    type V = SpecAssetId;

    open spec fn view(&self) -> SpecAssetId {
        match self {
            AssetId::Background(i) => SpecAssetId::Background(i@),
            AssetId::Sprite { tag, attrs } => SpecAssetId::Sprite { tag: tag@, attrs: attrs.deep_view() },
            AssetId::Audio(p) => SpecAssetId::Audio(p@),
        }
    }
}

/// The path an asset reference resolves to.
pub open spec fn asset_path(r: SpecAssetRoots, a: SpecAssetId) -> Seq<char> {
    match a {
        SpecAssetId::Background(i) => background_path(r, i),
        SpecAssetId::Sprite { tag, attrs } => sprite_path(r, tag, attrs),
        SpecAssetId::Audio(p) => audio_path(r, p),
    }
}

fn literal_chars(s: &str) -> (r: Vec<char>)
    ensures
        r@ == s@,
{
    chars_of(s)
}

impl AssetResolver {
    /// A resolver rooted at a project directory.
    pub fn new(root: &str, manifest: ProjectManifest) -> (r: Self)
        ensures
            r@ == (SpecAssetRoots {
                root: root@,
                assets: manifest.paths.assets@,
                backgrounds: manifest.assets.backgrounds@,
                sprites: manifest.assets.sprites@,
                audio: manifest.assets.audio@,
            }),
    {
        AssetResolver { root: string_of(chars_of(root).as_slice()), manifest }
    }

    fn asset_root_chars(&self) -> (r: Vec<char>)
        ensures
            r@ == asset_root(self@),
    {
        let root = chars_of(self.root.as_str());
        let assets = chars_of(self.manifest.paths.assets.as_str());
        join_path_chars(root.as_slice(), assets.as_slice())
    }

    /// Resolves an asset reference.
    pub fn resolve(&self, asset: &AssetId) -> (r: String)
        ensures
            r@ == asset_path(self@, asset@),
    {
        match asset {
            AssetId::Background(image) => self.background(image.as_str()),
            AssetId::Sprite { tag, attrs } => {
                proof {
                    crate::text::lemma_strings_deep_view(*attrs);
                }
                self.sprite(tag.as_str(), attrs.as_slice())
            },
            AssetId::Audio(path) => self.audio(path.as_str()),
        }
    }

    /// Resolves a background name.
    pub fn background(&self, image: &str) -> (r: String)
        ensures
            r@ == background_path(self@, image@),
    {
        let img = chars_of(image);
        let prefix = literal_chars("bg ");
        let name = if starts_with(img.as_slice(), prefix.as_slice()) {
            proof {
                reveal_strlit("bg ");
            }
            slice_chars(img.as_slice(), 3, img.len())
        } else {
            slice_chars(img.as_slice(), 0, img.len())
        };
        let ghost name_spec = if has_prefix(image@, "bg "@) { image@.skip(3) } else { image@ };
        assert(name@ =~= name_spec);
        let mut file: Vec<char> = Vec::new();
        let mut i: usize = 0;
        while i < name.len()
            invariant
                i <= name@.len(),
                file@ == replace_char(name@.take(i as int), ' ', '/'),
            decreases name@.len() - i,
        {
            let c = name[i];
            file.push(if c == ' ' { '/' } else { c });
            i = i + 1;
            assert(file@ =~= replace_char(name@.take(i as int), ' ', '/'));
        }
        assert(name@.take(name@.len() as int) =~= name@);
        let png = literal_chars(".png");
        push_all(&mut file, png.as_slice());
        let base = self.asset_root_chars();
        let bg = chars_of(self.manifest.assets.backgrounds.as_str());
        let dir = join_path_chars(base.as_slice(), bg.as_slice());
        let full = join_path_chars(dir.as_slice(), file.as_slice());
        string_of(full.as_slice())
    }

    /// Resolves a sprite tag with its attributes.
    pub fn sprite(&self, tag: &str, attrs: &[String]) -> (r: String)
        ensures
            r@ == sprite_path(self@, tag@, seq_view(attrs@)),
    {
        let mut file: Vec<char> = Vec::new();
        if attrs.len() == 0 {
            file = literal_chars("default");
        } else {
            let mut i: usize = 0;
            while i < attrs.len()
                invariant
                    i <= attrs@.len(),
                    attrs@.len() > 0,
                    file@ == join_with(seq_view(attrs@).take(i as int), '_'),
                decreases attrs@.len() - i,
            {
                let ghost before = file@;
                let ghost parts = seq_view(attrs@).take(i + 1);
                assert(parts.drop_last() =~= seq_view(attrs@).take(i as int));
                if i > 0 {
                    file.push('_');
                }
                let a = chars_of(attrs[i].as_str());
                push_all(&mut file, a.as_slice());
                assert(parts.last() == attrs@[i as int]@);
                if i == 0 {
                    assert(file@ =~= join_with(parts, '_'));
                } else {
                    assert(file@ =~= join_with(parts, '_'));
                }
                i = i + 1;
            }
            assert(seq_view(attrs@).take(attrs@.len() as int) =~= seq_view(attrs@));
        }
        let png = literal_chars(".png");
        push_all(&mut file, png.as_slice());
        let base = self.asset_root_chars();
        let sp = chars_of(self.manifest.assets.sprites.as_str());
        let dir = join_path_chars(base.as_slice(), sp.as_slice());
        let t = chars_of(tag);
        let dir2 = join_path_chars(dir.as_slice(), t.as_slice());
        let full = join_path_chars(dir2.as_slice(), file.as_slice());
        string_of(full.as_slice())
    }

    /// Resolves an audio path.
    pub fn audio(&self, path: &str) -> (r: String)
        ensures
            r@ == audio_path(self@, path@),
    {
        let p = chars_of(path);
        let long = literal_chars("assets/audio/");
        let short = literal_chars("audio/");
        proof {
            reveal_strlit("assets/audio/");
            reveal_strlit("audio/");
        }
        let relative = if starts_with(p.as_slice(), long.as_slice()) {
            slice_chars(p.as_slice(), 13, p.len())
        } else if starts_with(p.as_slice(), short.as_slice()) {
            slice_chars(p.as_slice(), 6, p.len())
        } else {
            slice_chars(p.as_slice(), 0, p.len())
        };
        assert(p@.subrange(0, p@.len() as int) =~= p@);
        assert(p@.subrange(13, p@.len() as int) =~= p@.skip(13));
        assert(p@.subrange(6, p@.len() as int) =~= p@.skip(6));
        let base = self.asset_root_chars();
        let au = chars_of(self.manifest.assets.audio.as_str());
        let dir = join_path_chars(base.as_slice(), au.as_slice());
        let full = join_path_chars(dir.as_slice(), relative.as_slice());
        string_of(full.as_slice())
    }

    /// The project root.
    pub fn root(&self) -> (r: &str)
        ensures
            r@ == self@.root,
    {
        self.root.as_str()
    }
}

} // verus!
