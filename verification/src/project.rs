//! Script projects: which files belong to one, in which order, how their scripts combine,
//! and the hash that ties saves to a script version.
use vstd::prelude::*;
use crate::ast::{Script, SpecStmt, Stmt, stmts_view};
use crate::diagnostics::{Diagnostic, SpecDiagnostic};
use crate::localize::{LocaleCatalog, SpecLocale};
use crate::manifest::{file_name, path_file_name, ProjectManifest};
use crate::parser::{as_diagnostics, parse_recovering, parsed_recovering, Recovered, SpecParseError};
use crate::text::{chars_lt, chars_of, lemma_lex_lt_trans, lex_lt, seq_view, slice_chars, string_of};

verus! {

// ---------------------------------------------------------------------------
// File names.
// ---------------------------------------------------------------------------

/// Index of the last `.` in a file name, or -1.
pub open spec fn last_dot(n: Seq<char>) -> int
    decreases n.len(),
{
    if n.len() == 0 {
        -1
    } else if n.last() == '.' {
        n.len() - 1
    } else {
        last_dot(n.drop_last())
    }
}

/// The extension of a file name, as `Path::extension` gives it: the text after the last
/// `.`, unless there is none or the only one starts the name; `..` has none.
pub open spec fn extension_of(n: Seq<char>) -> Option<Seq<char>> {
    if n == ".."@ || last_dot(n) <= 0 { None } else { Some(n.skip(last_dot(n) + 1)) }
}

/// The stem of a file name, as `Path::file_stem` gives it: the text before the last `.`,
/// or the whole name when it has no extension.
pub open spec fn stem_of(n: Seq<char>) -> Seq<char> {
    if n == ".."@ || last_dot(n) <= 0 { n } else { n.take(last_dot(n)) }
}

proof fn lemma_last_dot(n: Seq<char>)
    ensures
        -1 <= last_dot(n) < n.len(),
        last_dot(n) >= 0 ==> n[last_dot(n)] == '.',
        forall|k: int| last_dot(n) < k < n.len() ==> #[trigger] n[k] != '.',
    decreases n.len(),
{
    if n.len() > 0 && n.last() != '.' {
        lemma_last_dot(n.drop_last());
        assert forall|k: int| last_dot(n) < k < n.len() implies #[trigger] n[k] != '.' by {
            if k < n.len() - 1 {
                assert(n[k] == n.drop_last()[k]);
            }
        }
    }
}

fn last_dot_exec(n: &[char]) -> (r: Option<usize>)
    ensures
        match r {
            Some(i) => i == last_dot(n@),
            None => last_dot(n@) == -1,
        },
{
    let mut i = n.len();
    assert(n@.take(i as int) =~= n@);
    while i > 0
        invariant
            i <= n@.len(),
            last_dot(n@) == last_dot(n@.take(i as int)),
        decreases i,
    {
        assert(n@.take(i as int).drop_last() =~= n@.take(i - 1));
        if n[i - 1] == '.' {
            return Some(i - 1);
        }
        i = i - 1;
    }
    None
}

fn is_dot_dot(n: &[char]) -> (r: bool)
    ensures
        r == (n@ == ".."@),
{
    crate::lexer::is_word(n, "..")
}

/// The extension of the last component of a path.
pub fn path_extension(path: &str) -> (r: Option<String>)
    ensures
        match file_name(path@) {
            Some(n) => match extension_of(n) {
                Some(e) => r matches Some(x) && x@ == e,
                None => r is None,
            },
            None => r is None,
        },
{
    let name = match path_file_name(path) {
        Some(n) => n,
        None => return None,
    };
    let n = chars_of(name.as_str());
    proof {
        lemma_last_dot(n@);
    }
    if is_dot_dot(n.as_slice()) {
        return None;
    }
    match last_dot_exec(n.as_slice()) {
        Some(i) => if i == 0 {
            None
        } else {
            let len = n.len();
            assert(i < len);
            let e = slice_chars(n.as_slice(), i + 1, len);
            assert(e@ =~= n@.skip(i + 1));
            Some(string_of(e.as_slice()))
        },
        None => None,
    }
}

/// The stem of the last component of a path.
pub fn path_stem(path: &str) -> (r: Option<String>)
    ensures
        match file_name(path@) {
            Some(n) => r matches Some(x) && x@ == stem_of(n),
            None => r is None,
        },
{
    let name = match path_file_name(path) {
        Some(n) => n,
        None => return None,
    };
    let n = chars_of(name.as_str());
    proof {
        lemma_last_dot(n@);
    }
    if is_dot_dot(n.as_slice()) {
        return Some(name);
    }
    match last_dot_exec(n.as_slice()) {
        Some(i) => if i == 0 {
            Some(name)
        } else {
            let s = slice_chars(n.as_slice(), 0, i);
            assert(s@ =~= n@.take(i as int));
            Some(string_of(s.as_slice()))
        },
        None => Some(name),
    }
}

/// Whether a path names a script file: its extension is `vn`.
pub fn is_script_file(path: &str) -> (r: bool)
    ensures
        r == (file_name(path@) matches Some(n) && extension_of(n) == Some("vn"@)),
{
    match path_extension(path) {
        Some(e) => crate::text::str_eq(e.as_str(), "vn"),
        None => false,
    }
}

/// The locale a translation file is for: the stem of a path whose extension is `ftl`.
pub fn locale_of_file(path: &str) -> (r: Option<String>)
    ensures
        match file_name(path@) {
            Some(n) => if extension_of(n) == Some("ftl"@) {
                r matches Some(x) && x@ == stem_of(n)
            } else {
                r is None
            },
            None => r is None,
        },
{
    match path_extension(path) {
        Some(e) => if crate::text::str_eq(e.as_str(), "ftl") {
            path_stem(path)
        } else {
            None
        },
        None => None,
    }
}

// ---------------------------------------------------------------------------
// Ordering.
// ---------------------------------------------------------------------------

/// A path with `/` ranked below every other character, so that comparing keys compares
/// paths component by component.
pub open spec fn path_key(p: Seq<char>) -> Seq<char> {
    p.map_values(|c: char| if c == '/' { '\0' } else { c })
}

/// Whether path `a` comes before path `b` when paths are ordered component by component.
pub open spec fn path_lt(a: Seq<char>, b: Seq<char>) -> bool {
    lex_lt(path_key(a), path_key(b))
}

/// No path comes before one that precedes it.
pub open spec fn paths_sorted(s: Seq<Seq<char>>) -> bool {
    forall|i: int, j: int| 0 <= i < j < s.len() ==> !path_lt(s[j], s[i])
}

fn key_of(p: &str) -> (r: Vec<char>)
    ensures
        r@ == path_key(p@),
{
    let c = chars_of(p);
    let mut out: Vec<char> = Vec::new();
    let mut i: usize = 0;
    while i < c.len()
        invariant
            i <= c@.len(),
            c@ == p@,
            out@ == path_key(c@.take(i as int)),
        decreases c@.len() - i,
    {
        out.push(if c[i] == '/' { '\0' } else { c[i] });
        assert(out@ =~= path_key(c@.take(i + 1)));
        i = i + 1;
    }
    assert(c@.take(c@.len() as int) =~= c@);
    out
}

/// Orders paths component by component, keeping equal paths in their given order.
pub fn sort_paths(paths: Vec<String>) -> (r: Vec<String>)
    ensures
        paths_sorted(seq_view(r@)),
        seq_view(r@).to_multiset() == seq_view(paths@).to_multiset(),
{
    let mut out: Vec<String> = Vec::new();
    let mut i: usize = 0;
    assert(seq_view(paths@).take(0) =~= Seq::<Seq<char>>::empty());
    assert(seq_view(out@) =~= Seq::<Seq<char>>::empty());
    while i < paths.len()
        invariant
            i <= paths@.len(),
            paths_sorted(seq_view(out@)),
            seq_view(out@).to_multiset() == seq_view(paths@).take(i as int).to_multiset(),
        decreases paths@.len() - i,
    {
        let x = paths[i].clone();
        let kx = key_of(x.as_str());
        let mut p: usize = 0;
        while p < out.len() && !chars_lt(kx.as_slice(), key_of(out[p].as_str()).as_slice())
            invariant
                p <= out@.len(),
                kx@ == path_key(x@),
                forall|a: int| 0 <= a < p ==> !path_lt(x@, #[trigger] out@[a]@),
            decreases out@.len() - p,
        {
            p = p + 1;
        }
        let ghost before = seq_view(out@);
        proof {
            if p < before.len() {
                assert(path_lt(x@, before[p as int]));
            }
            assert forall|a: int| 0 <= a < p implies !path_lt(x@, #[trigger] before[a]) by {
                assert(before[a] == out@[a]@);
            }
        }
        out.insert(p, x);
        proof {
            let s = seq_view(out@);
            assert(s =~= before.insert(p as int, paths@[i as int]@));
            assert forall|a: int, b: int| 0 <= a < b < s.len() implies !path_lt(s[b], s[a]) by {
                if a < p && b < p {
                    assert(s[a] == before[a] && s[b] == before[b]);
                    assert(!path_lt(s[b], s[a]));
                } else if a < p && b == p {
                    assert(s[a] == before[a]);
                    assert(s[b] == x@);
                    assert(!path_lt(s[b], s[a]));
                } else if a < p {
                    assert(s[a] == before[a] && s[b] == before[b - 1]);
                    assert(!path_lt(s[b], s[a]));
                } else if a == p {
                    assert(s[b] == before[b - 1]);
                    assert(s[a] == x@);
                    assert(p < before.len());
                    assert(path_lt(x@, before[p as int]));
                    if path_lt(before[b - 1], s[a]) {
                        lemma_lex_lt_trans(path_key(before[b - 1]), path_key(s[a]), path_key(before[p as int]));
                        crate::text::lemma_lex_lt_total(path_key(before[p as int]), path_key(before[p as int]));
                        if b - 1 > p {
                            assert(!path_lt(before[b - 1], before[p as int]));
                        }
                        assert(false);
                    }
                    assert(!path_lt(s[b], s[a]));
                } else {
                    assert(s[a] == before[a - 1] && s[b] == before[b - 1]);
                    assert(!path_lt(s[b], s[a]));
                }
            }
            assert(seq_view(paths@).take(i + 1) =~= seq_view(paths@).take(i as int).push(paths@[i as int]@));
            vstd::seq_lib::to_multiset_insert(before, p as int, paths@[i as int]@);
            vstd::seq_lib::to_multiset_build(seq_view(paths@).take(i as int), paths@[i as int]@);
        }
        i = i + 1;
    }
    assert(seq_view(paths@).take(paths@.len() as int) =~= seq_view(paths@));
    out
}

/// No catalog comes after one whose locale is greater.
pub open spec fn catalogs_sorted(s: Seq<SpecLocale>) -> bool {
    forall|i: int, j: int| 0 <= i < j < s.len() ==> !lex_lt(s[j].locale, s[i].locale)
}

/// Orders catalogs by locale, keeping catalogs with the same locale in their given order.
pub fn sort_catalogs(catalogs: Vec<LocaleCatalog>) -> (r: Vec<LocaleCatalog>)
    ensures
        catalogs_sorted(seq_view(r@)),
        seq_view(r@).to_multiset() == seq_view(catalogs@).to_multiset(),
{
    let mut out: Vec<LocaleCatalog> = Vec::new();
    let mut i: usize = 0;
    assert(seq_view(catalogs@).take(0) =~= Seq::<SpecLocale>::empty());
    assert(seq_view(out@) =~= Seq::<SpecLocale>::empty());
    while i < catalogs.len()
        invariant
            i <= catalogs@.len(),
            catalogs_sorted(seq_view(out@)),
            seq_view(out@).to_multiset() == seq_view(catalogs@).take(i as int).to_multiset(),
        decreases catalogs@.len() - i,
    {
        let x = catalogs[i].duplicate();
        let kx = chars_of(x.locale.as_str());
        let mut p: usize = 0;
        while p < out.len() && !chars_lt(kx.as_slice(), chars_of(out[p].locale.as_str()).as_slice())
            invariant
                p <= out@.len(),
                kx@ == x@.locale,
                forall|a: int| 0 <= a < p ==> !lex_lt(x@.locale, #[trigger] out@[a]@.locale),
            decreases out@.len() - p,
        {
            p = p + 1;
        }
        let ghost before = seq_view(out@);
        proof {
            if p < before.len() {
                assert(lex_lt(x@.locale, before[p as int].locale));
            }
        }
        let ghost xv = x@;
        out.insert(p, x);
        proof {
            let s = seq_view(out@);
            assert(s =~= before.insert(p as int, xv));
            assert forall|a: int, b: int| 0 <= a < b < s.len() implies !lex_lt(s[b].locale, s[a].locale) by {
                if a < p && b < p {
                    assert(s[a] == before[a] && s[b] == before[b]);
                } else if a < p && b == p {
                    assert(s[a] == before[a]);
                } else if a < p {
                    assert(s[a] == before[a] && s[b] == before[b - 1]);
                } else if a == p {
                    assert(s[b] == before[b - 1]);
                    if lex_lt(before[b - 1].locale, s[a].locale) {
                        lemma_lex_lt_trans(before[b - 1].locale, s[a].locale, before[p as int].locale);
                        crate::text::lemma_lex_lt_total(before[p as int].locale, before[p as int].locale);
                    }
                } else {
                    assert(s[a] == before[a - 1] && s[b] == before[b - 1]);
                }
            }
            assert(seq_view(catalogs@).take(i + 1) =~= seq_view(catalogs@).take(i as int).push(catalogs@[i as int]@));
            vstd::seq_lib::to_multiset_insert(before, p as int, xv);
            vstd::seq_lib::to_multiset_build(seq_view(catalogs@).take(i as int), xv);
        }
        i = i + 1;
    }
    assert(seq_view(catalogs@).take(catalogs@.len() as int) =~= seq_view(catalogs@));
    out
}

// ---------------------------------------------------------------------------
// Combining script files.
// ---------------------------------------------------------------------------

/// A script file as read from disk: the path it is reported under and its text.
#[derive(Clone, Debug, PartialEq, Eq)]
pub struct ScriptSource {
    pub path: String,
    pub source: String,
}

/// Model of the script files: (path, text) pairs.
pub open spec fn sources_view(fs: Seq<ScriptSource>) -> Seq<(Seq<char>, Seq<char>)> {
    fs.map_values(|f: ScriptSource| (f.path@, f.source@))
}

/// Every file read on past errors, in order: their statements one after another, and their
/// errors one after another.
pub open spec fn combined(fs: Seq<(Seq<char>, Seq<char>)>) -> Recovered
    decreases fs.len(),
{
    if fs.len() == 0 {
        Recovered { statements: Seq::empty(), errors: Seq::empty() }
    } else {
        let a = combined(fs.drop_last());
        let b = parsed_recovering(fs.last().0, fs.last().1);
        Recovered { statements: a.statements + b.statements, errors: a.errors + b.errors }
    }
}

/// Parses every file of a project in order: one script from all their statements, or the
/// diagnostics of every file that has errors.
pub fn assemble_scripts(files: &[ScriptSource]) -> (r: Result<Script, Vec<Diagnostic>>)
    requires
        forall|i: int| 0 <= i < files@.len() ==> #[trigger] files@[i].source@.len() + 16 <= usize::MAX,
    ensures
        ({
            let all = combined(sources_view(files@));
            if all.errors.len() == 0 {
                r matches Ok(s) && s@ == all.statements
            } else {
                r matches Err(d) && seq_view(d@) == as_diagnostics(all.errors)
            }
        }),
{
    let ghost fv = sources_view(files@);
    let mut statements: Vec<Stmt> = Vec::new();
    let mut diagnostics: Vec<Diagnostic> = Vec::new();
    let mut i: usize = 0;
    assert(fv.take(0) =~= Seq::<(Seq<char>, Seq<char>)>::empty());
    assert(stmts_view(statements@) =~= Seq::<SpecStmt>::empty());
    assert(seq_view(diagnostics@) =~= as_diagnostics(Seq::<SpecParseError>::empty()));
    while i < files.len()
        invariant
            fv == sources_view(files@),
            i <= files@.len(),
            forall|k: int| 0 <= k < files@.len() ==> #[trigger] files@[k].source@.len() + 16 <= usize::MAX,
            stmts_view(statements@) == combined(fv.take(i as int)).statements,
            seq_view(diagnostics@) == as_diagnostics(combined(fv.take(i as int)).errors),
        decreases files@.len() - i,
    {
        assert(fv.take(i + 1).drop_last() =~= fv.take(i as int));
        assert(fv.take(i + 1).last() == (files@[i as int].path@, files@[i as int].source@));
        let (script, mut errs) = parse_recovering(files[i].path.as_str(), files[i].source.as_str());
        let mut sts = script.statements;
        let ghost s0 = statements@;
        let ghost s1 = sts@;
        let ghost d0 = seq_view(diagnostics@);
        let ghost d1 = seq_view(errs@);
        let ghost prev = combined(fv.take(i as int));
        let ghost now = parsed_recovering(files@[i as int].path@, files@[i as int].source@);
        statements.append(&mut sts);
        diagnostics.append(&mut errs);
        proof {
            crate::parser::lemma_stmts_concat_view(s0, s1);
            assert(seq_view(diagnostics@) =~= d0 + d1);
            assert(as_diagnostics(prev.errors + now.errors) =~= as_diagnostics(prev.errors) + as_diagnostics(now.errors));
        }
        i = i + 1;
    }
    assert(fv.take(files@.len() as int) =~= fv);
    if diagnostics.len() == 0 {
        Ok(Script { statements })
    } else {
        Err(diagnostics)
    }
}

// ---------------------------------------------------------------------------
// The script hash.
// ---------------------------------------------------------------------------

/// The path of `file` relative to `root` that `Path::strip_prefix` gives (the whole path when
/// `root` is not a prefix of it), as text.
pub uninterp spec fn relative_path(root: Seq<char>, file: Seq<char>) -> Seq<char>;

/// The path of a file relative to the project root.
///
/// Trusted: calls `std::path::Path::strip_prefix`, keeping the whole path when it fails, and
/// `to_string_lossy`; the contract names the result and says nothing more of it.
#[verifier::external_body]
pub(crate) fn relative_to(root: &str, file: &str) -> (r: String)
    ensures
        r@ == relative_path(root@, file@),
{
    let path = std::path::Path::new(file);
    path.strip_prefix(root).unwrap_or(path).to_string_lossy().to_string()
}

/// The BLAKE3 hash of some bytes in lowercase hexadecimal, as `blake3::hash(..).to_hex()` gives it.
pub uninterp spec fn blake3_hex(data: Seq<u8>) -> Seq<char>;

/// Whether a character is a lowercase hexadecimal digit.
pub open spec fn is_hex_digit(c: char) -> bool {
    ('0' <= c && c <= '9') || ('a' <= c && c <= 'f')
}

/// Hashes bytes with BLAKE3.
///
/// Trusted: calls `blake3::hash` and `Hash::to_hex`; the result is named, and the source of
/// `to_hex` shows 64 lowercase hexadecimal digits, two per byte of the 32-byte hash.
#[verifier::external_body]
fn blake3_hex_of(data: &[u8]) -> (r: String)
    ensures
        r@ == blake3_hex(data@),
        r@.len() == 64,
        forall|i: int| 0 <= i < r@.len() ==> is_hex_digit(#[trigger] r@[i]),
{
    blake3::hash(data).to_hex().to_string()
}

/// The bytes a project's hash covers: for each file in order, its relative path, a zero
/// byte, its text and a zero byte, all in UTF-8.
pub open spec fn hash_input(files: Seq<(Seq<char>, Seq<char>)>) -> Seq<u8>
    decreases files.len(),
{
    if files.len() == 0 {
        Seq::empty()
    } else {
        hash_input(files.drop_last()) + vstd::utf8::encode_utf8(files.last().0) + seq![0u8]
            + vstd::utf8::encode_utf8(files.last().1) + seq![0u8]
    }
}

fn push_bytes(out: &mut Vec<u8>, s: &str)
    ensures
        final(out)@ == old(out)@ + vstd::utf8::encode_utf8(s@),
{
    let b = s.as_bytes();
    let mut i: usize = 0;
    while i < b.len()
        invariant
            i <= b@.len(),
            b@ == vstd::utf8::encode_utf8(s@),
            out@ == old(out)@ + b@.take(i as int),
        decreases b@.len() - i,
    {
        out.push(b[i]);
        assert(out@ =~= old(out)@ + b@.take(i + 1));
        i = i + 1;
    }
    assert(b@.take(b@.len() as int) =~= b@);
}

/// The hash of a project's scripts, which saves record to detect a changed script.
pub fn script_hash(root: &str, files: &[ScriptSource]) -> (r: String)
    ensures
        r@ == blake3_hex(hash_input(files@.map_values(|f: ScriptSource| (relative_path(root@, f.path@), f.source@)))),
        r@.len() == 64,
{
    let ghost fv = files@.map_values(|f: ScriptSource| (relative_path(root@, f.path@), f.source@));
    let mut bytes: Vec<u8> = Vec::new();
    let mut i: usize = 0;
    assert(fv.take(0) =~= Seq::<(Seq<char>, Seq<char>)>::empty());
    while i < files.len()
        invariant
            fv == files@.map_values(|f: ScriptSource| (relative_path(root@, f.path@), f.source@)),
            i <= files@.len(),
            bytes@ == hash_input(fv.take(i as int)),
        decreases files@.len() - i,
    {
        assert(fv.take(i + 1).drop_last() =~= fv.take(i as int));
        let rel = relative_to(root, files[i].path.as_str());
        push_bytes(&mut bytes, rel.as_str());
        bytes.push(0);
        push_bytes(&mut bytes, files[i].source.as_str());
        bytes.push(0);
        assert(bytes@ =~= hash_input(fv.take(i + 1)));
        i = i + 1;
    }
    assert(fv.take(files@.len() as int) =~= fv);
    blake3_hex_of(bytes.as_slice())
}

/// A loaded script project.
#[derive(Clone, Debug)]
pub struct LoadedProject {
    pub root: String,
    pub manifest: ProjectManifest,
    pub script_hash: String,
    pub locales: Vec<LocaleCatalog>,
    pub script: Script,
}

/// Project loading error.
#[derive(Debug)]
pub enum ProjectError {
    /// A directory could not be listed.
    ReadDir { path: String, message: String },
    /// A script file could not be read.
    ReadFile { path: String, message: String },
    /// The manifest could not be loaded.
    Manifest(crate::manifest::ManifestError),
    /// A script did not parse.
    Parse(crate::parser::ParseError),
    /// Scripts did not parse; one diagnostic per error.
    Diagnostics(Vec<Diagnostic>),
    /// A translation catalog could not be loaded.
    Locale(crate::localize::LocaleError),
}

// ---------------------------------------------------------------------------
// A new project.
// ---------------------------------------------------------------------------

/// The directories a new project starts with, below its root.
pub open spec fn starter_dirs_of() -> Seq<Seq<char>> {
    seq!["script"@, "assets/bg"@, "assets/sprites/eileen"@, "assets/audio"@, "locale"@]
}

/// The manifest of a new project named `id`.
pub open spec fn starter_manifest_of(id: Seq<char>) -> Seq<char> {
    "[project]\nid = \""@ + id + "\"\ntitle = \""@ + id
        + "\"\nversion = \"0.1.0\"\ndefault_locale = \"en-US\"\n\n[paths]\nscript = \"script\"\nassets = \"assets\"\nlocales = \"locale\"\n\n[assets]\nbackgrounds = \"bg\"\nsprites = \"sprites\"\naudio = \"audio\"\n"@
}

/// The script a new project starts with.
pub open spec fn starter_script_of() -> Seq<char> {
    "label start:\n    eileen [intro-hello] \"Hello.\"\n    menu:\n        [intro-continue] \"Continue\":\n            end\n"@
}

/// The locale file a new project starts with.
pub open spec fn starter_locale_of() -> Seq<char> {
    "intro-hello = Hello.\nintro-continue = Continue\n"@
}

/// The directories a new project starts with, below its root.
pub fn starter_dirs() -> (r: Vec<&'static str>)
    ensures
        r@.map_values(|d: &str| d@) == starter_dirs_of(),
{
    let r = vec!["script", "assets/bg", "assets/sprites/eileen", "assets/audio", "locale"];
    assert(r@.map_values(|d: &str| d@) =~= starter_dirs_of());
    r
}

/// The files a new project named `id` starts with, by path below its root: the manifest, the
/// start script and the en-US locale with the script's two texts.
pub fn starter_files(id: &str) -> (r: Vec<(String, String)>)
    ensures
        r@.map_values(|f: (String, String)| (f.0@, f.1@)) == seq![
            ("vinyl.toml"@, starter_manifest_of(id@)),
            ("script/start.vn"@, starter_script_of()),
            ("locale/en-US.ftl"@, starter_locale_of()),
        ],
{
    let mut m = chars_of("[project]\nid = \"");
    let idc = chars_of(id);
    crate::text::push_all(&mut m, idc.as_slice());
    let mid = chars_of("\"\ntitle = \"");
    crate::text::push_all(&mut m, mid.as_slice());
    crate::text::push_all(&mut m, idc.as_slice());
    let tail = chars_of(
        "\"\nversion = \"0.1.0\"\ndefault_locale = \"en-US\"\n\n[paths]\nscript = \"script\"\nassets = \"assets\"\nlocales = \"locale\"\n\n[assets]\nbackgrounds = \"bg\"\nsprites = \"sprites\"\naudio = \"audio\"\n",
    );
    crate::text::push_all(&mut m, tail.as_slice());
    let r = vec![
        (String::from_str("vinyl.toml"), string_of(m.as_slice())),
        (
            String::from_str("script/start.vn"),
            String::from_str("label start:\n    eileen [intro-hello] \"Hello.\"\n    menu:\n        [intro-continue] \"Continue\":\n            end\n"),
        ),
        (String::from_str("locale/en-US.ftl"), String::from_str("intro-hello = Hello.\nintro-continue = Continue\n")),
    ];
    assert(r@.map_values(|f: (String, String)| (f.0@, f.1@)) =~= seq![
        ("vinyl.toml"@, starter_manifest_of(id@)),
        ("script/start.vn"@, starter_script_of()),
        ("locale/en-US.ftl"@, starter_locale_of()),
    ]);
    r
}

} // verus!
