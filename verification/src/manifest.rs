//! Project metadata and content roots.
use vstd::prelude::*;
use vstd::string::StringExecFns;
use crate::text::{chars_of, seq_view, slice_chars, split_chars, split_on, string_of, lemma_split_on_nonempty};

verus! {

/// Human and compatibility metadata for a project.
#[derive(Clone, Debug, PartialEq, Eq)]
pub struct ProjectMetadata {
    pub id: String,
    pub title: String,
    pub version: String,
    pub default_locale: String,
}

impl Default for ProjectMetadata {
    fn default() -> (r: Self)
        ensures
            r.id@ == "vinyl"@,
            r.title@ == "Vinyl Project"@,
            r.version@ == "0.1.0"@,
            r.default_locale@ == "en-US"@,
    {
        ProjectMetadata {
            id: String::from_str("vinyl"),
            title: String::from_str("Vinyl Project"),
            version: String::from_str("0.1.0"),
            default_locale: String::from_str("en-US"),
        }
    }
}

/// Project content roots, relative to the project directory.
#[derive(Clone, Debug, PartialEq, Eq)]
pub struct ProjectPaths {
    pub script: String,
    pub assets: String,
    pub locales: String,
}

impl Default for ProjectPaths {
    fn default() -> (r: Self)
        ensures
            r.script@ == "script"@,
            r.assets@ == "assets"@,
            r.locales@ == "locale"@,
    {
        ProjectPaths {
            script: String::from_str("script"),
            assets: String::from_str("assets"),
            locales: String::from_str("locale"),
        }
    }
}

/// Asset category roots, relative to `paths.assets`.
#[derive(Clone, Debug, PartialEq, Eq)]
pub struct AssetPaths {
    pub backgrounds: String,
    pub sprites: String,
    pub audio: String,
}

impl Default for AssetPaths {
    fn default() -> (r: Self)
        ensures
            r.backgrounds@ == "bg"@,
            r.sprites@ == "sprites"@,
            r.audio@ == "audio"@,
    {
        AssetPaths {
            backgrounds: String::from_str("bg"),
            sprites: String::from_str("sprites"),
            audio: String::from_str("audio"),
        }
    }
}

/// Project metadata and content roots loaded from `vinyl.toml`.
#[derive(Clone, Debug, PartialEq, Eq)]
pub struct ProjectManifest {
    pub project: ProjectMetadata,
    pub paths: ProjectPaths,
    pub assets: AssetPaths,
}

/// The last path segment that is neither empty nor `.`, scanning from the end.
pub open spec fn last_normal(parts: Seq<Seq<char>>) -> Option<Seq<char>>
    decreases parts.len(),
{
    if parts.len() == 0 {
        None
    } else if parts.last().len() == 0 || parts.last() == "."@ {
        last_normal(parts.drop_last())
    } else {
        Some(parts.last())
    }
}

/// The final component of a path as `Path::file_name` gives it on Unix: the last segment that
/// is not empty or `.`, unless that segment is `..`.
pub open spec fn file_name(path: Seq<char>) -> Option<Seq<char>> {
    match last_normal(split_on(path, '/')) {
        Some(seg) => if seg == ".."@ { None } else { Some(seg) },
        None => None,
    }
}

fn is_dot(v: &Vec<char>) -> (r: bool)
    ensures
        r == (v@ == "."@),
{
    proof {
        reveal_strlit(".");
    }
    let r = v.len() == 1 && v[0] == '.';
    if r {
        assert(v@ =~= "."@);
    } else if v.len() == 1 {
        assert(v@[0] != "."@[0]);
    }
    r
}

fn is_dot_dot(v: &Vec<char>) -> (r: bool)
    ensures
        r == (v@ == ".."@),
{
    proof {
        reveal_strlit("..");
    }
    let r = v.len() == 2 && v[0] == '.' && v[1] == '.';
    if r {
        assert(v@ =~= ".."@);
    } else if v.len() == 2 {
        assert(v@[0] != ".."@[0] || v@[1] != ".."@[1]);
    }
    r
}

/// The final component of a path.
pub fn path_file_name(path: &str) -> (r: Option<String>)
    ensures
        match r {
            Some(s) => file_name(path@) == Some(s@),
            None => file_name(path@) is None,
        },
{
    let chars = chars_of(path);
    let parts = split_chars(chars.as_slice(), '/');
    let ghost ps = seq_view(parts@);
    proof {
        lemma_split_on_nonempty(path@, '/');
    }
    assert(ps == split_on(path@, '/'));
    let mut i: usize = parts.len();
    assert(ps.take(i as int) =~= ps);
    while i > 0
        invariant
            i <= parts@.len(),
            ps == seq_view(parts@),
            ps == split_on(path@, '/'),
            last_normal(ps) == last_normal(ps.take(i as int)),
        decreases i,
    {
        let ghost pre = ps.take(i as int);
        assert(pre.drop_last() =~= ps.take(i - 1));
        assert(pre.last() == parts@[i - 1]@);
        if parts[i - 1].len() == 0 || is_dot(&parts[i - 1]) {
            i = i - 1;
        } else {
            assert(last_normal(pre) == Some(parts@[i - 1]@));
            if is_dot_dot(&parts[i - 1]) {
                return None;
            }
            return Some(string_of(parts[i - 1].as_slice()));
        }
    }
    assert(ps.take(0) =~= Seq::<Seq<char>>::empty());
    None
}

impl ProjectManifest {
    /// Defaults whose project id and title are the project directory's name (`vinyl` when the
    /// path has no final name).
    pub fn default_for_root(root: &str) -> (r: Self)
        ensures
            r.project.id@ == (match file_name(root@) { Some(n) => n, None => "vinyl"@ }),
            r.project.title@ == r.project.id@,
            r.project.version@ == "0.1.0"@,
            r.project.default_locale@ == "en-US"@,
            r.paths.script@ == "script"@,
            r.paths.assets@ == "assets"@,
            r.paths.locales@ == "locale"@,
            r.assets.backgrounds@ == "bg"@,
            r.assets.sprites@ == "sprites"@,
            r.assets.audio@ == "audio"@,
    {
        let name = match path_file_name(root) {
            Some(n) => n,
            None => String::from_str("vinyl"),
        };
        ProjectManifest {
            project: ProjectMetadata {
                id: name.clone(),
                title: name,
                version: String::from_str("0.1.0"),
                default_locale: String::from_str("en-US"),
            },
            paths: ProjectPaths::default(),
            assets: AssetPaths::default(),
        }
    }
}

impl ProjectManifest {
    /// A copy equal to this manifest.
    pub fn duplicate(&self) -> (r: Self)
        ensures
            r == *self,
    {
        ProjectManifest {
            project: ProjectMetadata {
                id: self.project.id.clone(),
                title: self.project.title.clone(),
                version: self.project.version.clone(),
                default_locale: self.project.default_locale.clone(),
            },
            paths: ProjectPaths {
                script: self.paths.script.clone(),
                assets: self.paths.assets.clone(),
                locales: self.paths.locales.clone(),
            },
            assets: AssetPaths {
                backgrounds: self.assets.backgrounds.clone(),
                sprites: self.assets.sprites.clone(),
                audio: self.assets.audio.clone(),
            },
        }
    }
}

/// Manifest loading error.
#[derive(Clone, Debug, PartialEq, Eq)]
pub enum ManifestError {
    /// The manifest exists but could not be read.
    Read { path: String, message: String },
    /// The manifest is not valid for this format.
    Parse { path: String, message: String },
}

} // verus!
