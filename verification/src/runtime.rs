//! Runtime helpers around the story machine: asset resolution of presentation state and save slots.
use vstd::prelude::*;
use vstd::string::StringExecFns;
use crate::asset::{self as script_asset, audio_path, background_path, sprite_path, SpecAssetRoots};
use crate::manifest::{file_name, ProjectManifest};
use crate::save::{PresentationSnapshot, SpecSprite};
use crate::text::{chars_lt, chars_of, decimal, lemma_lex_lt_total, lemma_lex_lt_trans, lex_lt, push_decimal, seq_view, string_of};

verus! {

/// Entries strictly increasing by tag.
pub open spec fn sorted_by_tag(s: Seq<(String, String)>) -> bool {
    forall|a: int, b: int| 0 <= a < b < s.len() ==> lex_lt(s[a].0@, s[b].0@)
}

pub(crate) fn tag_before(entry: &String, tag: &[char]) -> (r: bool)
    ensures
        r == lex_lt(entry@, tag@),
{
    let e = chars_of(entry.as_str());
    chars_lt(e.as_slice(), tag)
}

/// Inserts an entry with a new tag at its place in the tag order.
pub(crate) fn insert_sorted(v: &mut Vec<(String, String)>, tag: String, path: String) -> (pos: usize)
    requires
        sorted_by_tag(old(v)@),
        forall|a: int| 0 <= a < old(v)@.len() ==> old(v)@[a].0@ != tag@,
    ensures
        pos <= old(v)@.len(),
        final(v)@ == old(v)@.insert(pos as int, (tag, path)),
        sorted_by_tag(final(v)@),
{
    let tag_chars = chars_of(tag.as_str());
    let mut pos: usize = 0;
    while pos < v.len() && tag_before(&v[pos].0, tag_chars.as_slice())
        invariant
            pos <= v@.len(),
            v@ == old(v)@,
            tag_chars@ == tag@,
            forall|a: int| 0 <= a < pos ==> lex_lt(v@[a].0@, tag@),
        decreases v@.len() - pos,
    {
        pos = pos + 1;
    }
    let ghost old_s = v@;
    proof {
        if pos < old_s.len() {
            lemma_lex_lt_total(old_s[pos as int].0@, tag@);
            assert forall|b: int| pos <= b < old_s.len() implies lex_lt(tag@, old_s[b].0@) by {
                if b > pos {
                    lemma_lex_lt_trans(tag@, old_s[pos as int].0@, old_s[b].0@);
                }
            }
        }
    }
    v.insert(pos, (tag, path));
    proof {
        let s = v@;
        let t = s[pos as int].0@;
        assert forall|a: int, b: int| 0 <= a < b < s.len() implies lex_lt(s[a].0@, s[b].0@) by {
            if a < pos && b < pos {
                assert(s[a] == old_s[a] && s[b] == old_s[b]);
            } else if a < pos && b == pos {
                assert(s[a] == old_s[a]);
            } else if a < pos {
                assert(s[a] == old_s[a] && s[b] == old_s[b - 1]);
                lemma_lex_lt_trans(old_s[a].0@, t, old_s[b - 1].0@);
            } else if a == pos {
                assert(s[b] == old_s[b - 1]);
            } else {
                assert(s[a] == old_s[a - 1] && s[b] == old_s[b - 1]);
            }
        }
    }
    pos
}

/// Resolves script asset identifiers to project-relative asset paths.
#[derive(Clone, Debug, PartialEq, Eq)]
pub struct AssetResolver {
    inner: script_asset::AssetResolver,
}

impl View for AssetResolver {
    type V = SpecAssetRoots;

    closed spec fn view(&self) -> SpecAssetRoots {
        self.inner@
    }
}

/// Asset paths derived from a presentation snapshot.
#[derive(Clone, Debug, PartialEq, Eq)]
pub struct ResolvedAssets {
    pub background: Option<String>,
    pub sprites: Vec<(String, String)>,
    pub music: Option<String>,
}

impl AssetResolver {
    /// A resolver rooted at a project directory with the default manifest for it.
    pub fn new(root: &str) -> (r: Self)
        ensures
            r@.root == root@,
            r@.assets == "assets"@,
            r@.backgrounds == "bg"@,
            r@.sprites == "sprites"@,
            r@.audio == "audio"@,
    {
        let manifest = ProjectManifest::default_for_root(root);
        AssetResolver::with_manifest(root, manifest)
    }

    /// A resolver using manifest-configured asset roots.
    pub fn with_manifest(root: &str, manifest: ProjectManifest) -> (r: Self)
        ensures
            r@ == (SpecAssetRoots {
                root: root@,
                assets: manifest.paths.assets@,
                backgrounds: manifest.assets.backgrounds@,
                sprites: manifest.assets.sprites@,
                audio: manifest.assets.audio@,
            }),
    {
        AssetResolver { inner: script_asset::AssetResolver::new(root, manifest) }
    }

    /// Resolves a background name.
    pub fn background(&self, image: &str) -> (r: String)
        ensures
            r@ == background_path(self@, image@),
    {
        self.inner.background(image)
    }

    /// Resolves a sprite tag with its attributes.
    pub fn sprite(&self, tag: &str, attrs: &[String]) -> (r: String)
        ensures
            r@ == sprite_path(self@, tag@, seq_view(attrs@)),
    {
        self.inner.sprite(tag, attrs)
    }

    /// Resolves an audio path.
    pub fn audio(&self, path: &str) -> (r: String)
        ensures
            r@ == audio_path(self@, path@),
    {
        self.inner.audio(path)
    }

    /// A path as the renderer's asset loader takes it: relative to the project root, or the
    /// whole path when it is not below the root.
    pub fn project_relative(&self, path: &str) -> (r: String)
        ensures
            r@ == crate::project::relative_path(self@.root, path@),
    {
        crate::project::relative_to(self.root(), path)
    }

    /// The project root.
    pub fn root(&self) -> (r: &str)
        ensures
            r@ == self@.root,
    {
        self.inner.root()
    }

    /// Resolves every visible asset of a presentation; sprites come in increasing tag order.
    pub fn resolve_snapshot(&self, snapshot: &PresentationSnapshot) -> (r: ResolvedAssets)
        ensures
            match snapshot@.background {
                Some(b) => r.background matches Some(p) && p@ == background_path(self@, b),
                None => r.background is None,
            },
            match snapshot@.music {
                Some(m) => r.music matches Some(p) && p@ == audio_path(self@, m),
                None => r.music is None,
            },
            r.sprites@.len() == snapshot@.sprites.dom().len(),
            forall|i: int, j: int| 0 <= i < j < r.sprites@.len() ==> lex_lt(r.sprites@[i].0@, r.sprites@[j].0@),
            forall|i: int| 0 <= i < r.sprites@.len() ==> {
                let tag = #[trigger] r.sprites@[i].0@;
                &&& snapshot@.sprites.contains_key(tag)
                &&& r.sprites@[i].1@ == sprite_path(self@, tag, snapshot@.sprites[tag].attrs)
            },
            forall|tag: Seq<char>| #[trigger] snapshot@.sprites.contains_key(tag) ==> exists|i: int| 0 <= i < r.sprites@.len() && r.sprites@[i].0@ == tag,
    {
        let background = match &snapshot.background {
            Some(image) => Some(self.background(image.as_str())),
            None => None,
        };
        let music = match &snapshot.music {
            Some(path) => Some(self.audio(path.as_str())),
            None => None,
        };
        let map = &snapshot.sprites;
        map.key_order_facts();
        let ghost keys = map.key_order();
        let mut sprites: Vec<(String, String)> = Vec::new();
        let mut i: usize = 0;
        while i < map.len()
            invariant
                keys == map.key_order(),
                keys.no_duplicates(),
                keys.len() == map@.dom().len(),
                forall|k: Seq<char>| #[trigger] map@.contains_key(k) <==> keys.contains(k),
                i <= keys.len(),
                sprites@.len() == i,
                sorted_by_tag(sprites@),
                forall|a: int| 0 <= a < sprites@.len() ==> {
                    let tag = #[trigger] sprites@[a].0@;
                    &&& map@.contains_key(tag)
                    &&& sprites@[a].1@ == sprite_path(self@, tag, map@[tag].attrs)
                    &&& exists|j: int| 0 <= j < i && keys[j] == tag
                },
                forall|j: int| #![trigger keys[j]] 0 <= j < i ==> exists|a: int| 0 <= a < sprites@.len() && #[trigger] sprites@[a].0@ == keys[j],
            decreases keys.len() - i,
        {
            let tag = map.key_at(i);
            let value = map.value_at(i);
            let path = self.sprite(tag.as_str(), value.attrs.as_slice());
            proof {
                crate::text::lemma_strings_deep_view(value.attrs);
            }
            let ghost old_s = sprites@;
            proof {
                // Tags already placed are distinct from this one: they come from earlier keys.
                assert forall|a: int| 0 <= a < old_s.len() implies old_s[a].0@ != keys[i as int] by {
                    let j = choose|j: int| 0 <= j < i && keys[j] == old_s[a].0@;
                    assert(keys[j] != keys[i as int]);
                }
            }
            let pos = insert_sorted(&mut sprites, tag.clone(), path);
            proof {
                let s = sprites@;
                assert forall|a: int| 0 <= a < s.len() implies {
                    let tag = #[trigger] s[a].0@;
                    &&& map@.contains_key(tag)
                    &&& s[a].1@ == sprite_path(self@, tag, map@[tag].attrs)
                    &&& exists|j: int| 0 <= j < i + 1 && keys[j] == tag
                } by {
                    if a < pos {
                        assert(s[a] == old_s[a]);
                    } else if a > pos {
                        assert(s[a] == old_s[a - 1]);
                    } else {
                        assert(keys.contains(keys[i as int]));
                    }
                }
                assert forall|j: int| #![trigger keys[j]] 0 <= j < i + 1 implies exists|a: int| 0 <= a < s.len() && #[trigger] s[a].0@ == keys[j] by {
                    if j == i {
                        assert(s[pos as int].0@ == keys[j]);
                    } else {
                        let a = choose|a: int| 0 <= a < old_s.len() && old_s[a].0@ == keys[j];
                        if a < pos {
                            assert(s[a] == old_s[a]);
                        } else {
                            assert(s[a + 1] == old_s[a]);
                        }
                    }
                }
            }
            i = i + 1;
        }
        proof {
            assert(snapshot@.sprites == map@);
            assert forall|tag: Seq<char>| #[trigger] snapshot@.sprites.contains_key(tag) implies exists|a: int| 0 <= a < sprites@.len() && sprites@[a].0@ == tag by {
                assert(keys.contains(tag));
                let j = choose|j: int| 0 <= j < keys.len() && keys[j] == tag;
                assert(exists|a: int| 0 <= a < sprites@.len() && #[trigger] sprites@[a].0@ == keys[j]);
                let a = choose|a: int| 0 <= a < sprites@.len() && #[trigger] sprites@[a].0@ == keys[j];
                assert(sprites@[a].0@ == tag);
            }
        }
        let ghost sv = sprites@;
        let r = ResolvedAssets { background, sprites, music };
        proof {
            assert forall|tag: Seq<char>| #[trigger] snapshot@.sprites.contains_key(tag) implies exists|a: int| 0 <= a < r.sprites@.len() && r.sprites@[a].0@ == tag by {
                let a = choose|a: int| 0 <= a < sv.len() && sv[a].0@ == tag;
                assert(r.sprites@[a].0@ == tag);
            }
        }
        r
    }
}

} // verus!
