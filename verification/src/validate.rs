//! Project validation: labels, assets and translation entries, reported as diagnostics in
//! the order the script mentions them.
use vstd::prelude::*;
use crate::asset::{asset_path, audio_path, background_path, sprite_path, AssetId, AssetResolver, SpecAssetId, SpecAssetRoots};
use crate::ast::{
    nested_choices, nested_stmt, nested_stmts,
    lemma_choices_view_take, lemma_stmts_view_take, Choice, Script, SourcePos, SpecChoice,
    SpecSourcePos, SpecStmt, SpecStmtKind, Stmt, StmtKind, choices_view, stmts_view,
};
use crate::diagnostics::{Diagnostic, SpecDiagnostic};
use crate::localize::{LocaleCatalog, SpecLocale};
use crate::manifest::ProjectManifest;
use crate::strmap::StrMap;
use crate::text::{chars_of, push_all, seq_view, string_of};

verus! {

/// Names seen so far and the diagnostics reported so far.
pub struct Checked {
    pub seen: Set<Seq<char>>,
    pub diags: Seq<SpecDiagnostic>,
}

/// A diagnostic at a position.
pub open spec fn diag(pos: SpecSourcePos, message: Seq<char>) -> SpecDiagnostic {
    SpecDiagnostic { pos, message }
}

/// `prefix'name'`.
pub open spec fn quoted_name(prefix: Seq<char>, name: Seq<char>) -> Seq<char> {
    prefix + "'"@ + name + "'"@
}

// ---------------------------------------------------------------------------
// First pass: labels.
// ---------------------------------------------------------------------------

/// A label seen a second time is reported at its second definition.
pub open spec fn collect_stmt(s: SpecStmt, c: Checked) -> Checked
    decreases s, 0nat,
{
    match s.kind {
        SpecStmtKind::Label { name } => if c.seen.contains(name) {
            Checked { seen: c.seen, diags: c.diags.push(diag(s.pos, quoted_name("duplicate label "@, name))) }
        } else {
            Checked { seen: c.seen.insert(name), diags: c.diags }
        },
        SpecStmtKind::Menu { choices } => collect_choices(choices, c),
        SpecStmtKind::If { then_body, else_body, .. } => collect_stmts(else_body, collect_stmts(then_body, c)),
        _ => c,
    }
}

/// The labels of statements in order, nested blocks included.
pub open spec fn collect_stmts(ss: Seq<SpecStmt>, c: Checked) -> Checked
    decreases ss, 1nat,
{
    if ss.len() == 0 {
        c
    } else {
        collect_stmt(ss.last(), collect_stmts(ss.drop_last(), c))
    }
}

/// The labels in the bodies of menu choices, in order.
pub open spec fn collect_choices(cs: Seq<SpecChoice>, c: Checked) -> Checked
    decreases cs, 1nat,
{
    if cs.len() == 0 {
        c
    } else {
        collect_stmts(cs.last().body, collect_choices(cs.drop_last(), c))
    }
}

// ---------------------------------------------------------------------------
// Second pass: assets, jumps and text ids.
// ---------------------------------------------------------------------------

/// What the second pass checks against.
pub struct CheckEnv {
    /// Every label the script defines.
    pub labels: Set<Seq<char>>,
    /// The roots asset paths resolve against.
    pub roots: SpecAssetRoots,
    /// The asset paths that exist.
    pub present: Seq<Seq<char>>,
    /// The translation catalogs every text id must be found in.
    pub locales: Seq<SpecLocale>,
}

/// For each catalog in order that lacks `id`, a diagnostic naming the catalog's locale.
pub open spec fn locale_misses(ls: Seq<SpecLocale>, pos: SpecSourcePos, id: Seq<char>) -> Seq<SpecDiagnostic>
    decreases ls.len(),
{
    if ls.len() == 0 {
        Seq::empty()
    } else {
        let earlier = locale_misses(ls.drop_last(), pos, id);
        if ls.last().messages.contains_key(id) {
            earlier
        } else {
            earlier.push(diag(pos, quoted_name(quoted_name("missing locale "@, ls.last().locale) + " entry "@, id)))
        }
    }
}

/// A text id used a second time is reported there; every use is looked up in every catalog.
pub open spec fn check_text_id(e: CheckEnv, pos: SpecSourcePos, id: Seq<char>, c: Checked) -> Checked {
    let c1 = if c.seen.contains(id) {
        Checked { seen: c.seen, diags: c.diags.push(diag(pos, quoted_name("duplicate text id "@, id))) }
    } else {
        Checked { seen: c.seen.insert(id), diags: c.diags }
    };
    Checked { seen: c1.seen, diags: c1.diags + locale_misses(e.locales, pos, id) }
}

/// An asset path that does not exist is reported.
pub open spec fn check_asset(e: CheckEnv, pos: SpecSourcePos, path: Seq<char>, c: Checked) -> Checked {
    if e.present.contains(path) {
        c
    } else {
        Checked { seen: c.seen, diags: c.diags.push(diag(pos, quoted_name("missing asset "@, path))) }
    }
}

/// The checks one statement asks for.
pub open spec fn check_stmt(s: SpecStmt, e: CheckEnv, c: Checked) -> Checked
    decreases s, 0nat,
{
    match s.kind {
        SpecStmtKind::Scene { image, .. } => check_asset(e, s.pos, background_path(e.roots, image), c),
        SpecStmtKind::Show { tag, attrs, .. } => check_asset(e, s.pos, sprite_path(e.roots, tag, attrs), c),
        SpecStmtKind::PlayMusic { path } => check_asset(e, s.pos, audio_path(e.roots, path), c),
        SpecStmtKind::Jump { label } => if e.labels.contains(label) {
            c
        } else {
            Checked { seen: c.seen, diags: c.diags.push(diag(s.pos, quoted_name("missing label "@, label))) }
        },
        SpecStmtKind::Say { text_id, .. } => match text_id {
            Some(id) => check_text_id(e, s.pos, id, c),
            None => c,
        },
        SpecStmtKind::Menu { choices } => check_choices(choices, e, c),
        SpecStmtKind::If { then_body, else_body, .. } => check_stmts(else_body, e, check_stmts(then_body, e, c)),
        _ => c,
    }
}

/// The checks statements ask for, in order.
pub open spec fn check_stmts(ss: Seq<SpecStmt>, e: CheckEnv, c: Checked) -> Checked
    decreases ss, 1nat,
{
    if ss.len() == 0 {
        c
    } else {
        check_stmt(ss.last(), e, check_stmts(ss.drop_last(), e, c))
    }
}

/// The checks of menu choices in order: a choice's text id, then its body.
pub open spec fn check_choices(cs: Seq<SpecChoice>, e: CheckEnv, c: Checked) -> Checked
    decreases cs, 1nat,
{
    if cs.len() == 0 {
        c
    } else {
        let before = check_choices(cs.drop_last(), e, c);
        let ch = cs.last();
        let after_id = match ch.text_id {
            Some(id) => check_text_id(e, ch.pos, id, before),
            None => before,
        };
        check_stmts(ch.body, e, after_id)
    }
}

/// Where a missing `start` label is reported: the first statement, or `<project>:1:1`.
pub open spec fn start_pos(script: Seq<SpecStmt>) -> SpecSourcePos {
    if script.len() > 0 { script[0].pos } else { SpecSourcePos { file: "<project>"@, line: 1, column: 1 } }
}

/// Every diagnostic of a script, in order: duplicate labels, a missing `start` label, then
/// missing assets, missing jump targets, duplicate text ids and missing translations in the
/// order the script mentions them.
pub open spec fn validation_diagnostics(
    script: Seq<SpecStmt>,
    roots: SpecAssetRoots,
    present: Seq<Seq<char>>,
    locales: Seq<SpecLocale>,
) -> Seq<SpecDiagnostic> {
    let first = collect_stmts(script, Checked { seen: Set::empty(), diags: Seq::empty() });
    let with_start = if first.seen.contains("start"@) {
        first.diags
    } else {
        first.diags.push(diag(start_pos(script), "missing required label 'start'"@))
    };
    let env = CheckEnv { labels: first.seen, roots, present, locales };
    check_stmts(script, env, Checked { seen: Set::empty(), diags: with_start }).diags
}

// ---------------------------------------------------------------------------
// Every missing asset is reported.
// ---------------------------------------------------------------------------

/// The asset a statement itself shows or plays: a scene's background, a sprite, or music.
pub open spec fn own_asset(s: SpecStmt) -> Option<SpecAssetId> {
    match s.kind {
        SpecStmtKind::Scene { image, .. } => Some(SpecAssetId::Background(image)),
        SpecStmtKind::Show { tag, attrs, .. } => Some(SpecAssetId::Sprite { tag, attrs }),
        SpecStmtKind::PlayMusic { path } => Some(SpecAssetId::Audio(path)),
        _ => None,
    }
}

/// Whether a statement shows or plays an asset whose path is not among those present.
pub open spec fn asset_missing(roots: SpecAssetRoots, present: Seq<Seq<char>>, s: SpecStmt) -> bool {
    match own_asset(s) {
        Some(a) => !present.contains(asset_path(roots, a)),
        None => false,
    }
}

/// The diagnostic that reports a statement's missing asset, at the statement.
pub open spec fn missing_asset_report(roots: SpecAssetRoots, s: SpecStmt) -> SpecDiagnostic {
    match own_asset(s) {
        Some(a) => diag(s.pos, quoted_name("missing asset "@, asset_path(roots, a))),
        None => diag(s.pos, Seq::empty()),
    }
}

proof fn lemma_contains_extend(a: Seq<SpecDiagnostic>, b: Seq<SpecDiagnostic>, d: SpecDiagnostic)
    requires
        a.contains(d),
    ensures
        (a + b).contains(d),
        a.push(d).contains(d),
{
    let i = choose|i: int| 0 <= i < a.len() && a[i] == d;
    assert((a + b)[i] == d);
    assert(a.push(d)[a.len() as int] == d);
}

proof fn lemma_pushed(a: Seq<SpecDiagnostic>, d: SpecDiagnostic, x: SpecDiagnostic)
    requires
        a.contains(d),
    ensures
        a.push(x).contains(d),
{
    let i = choose|i: int| 0 <= i < a.len() && a[i] == d;
    assert(a.push(x)[i] == d);
}

proof fn lemma_keeps_text_id(e: CheckEnv, pos: SpecSourcePos, id: Seq<char>, c: Checked, d: SpecDiagnostic)
    requires
        c.diags.contains(d),
    ensures
        check_text_id(e, pos, id, c).diags.contains(d),
{
    let c1 = if c.seen.contains(id) {
        Checked { seen: c.seen, diags: c.diags.push(diag(pos, quoted_name("duplicate text id "@, id))) }
    } else {
        Checked { seen: c.seen.insert(id), diags: c.diags }
    };
    if c.seen.contains(id) {
        lemma_pushed(c.diags, d, diag(pos, quoted_name("duplicate text id "@, id)));
    }
    lemma_contains_extend(c1.diags, locale_misses(e.locales, pos, id), d);
}

proof fn lemma_keeps_stmt(s: SpecStmt, e: CheckEnv, c: Checked, d: SpecDiagnostic)
    requires
        c.diags.contains(d),
    ensures
        check_stmt(s, e, c).diags.contains(d),
    decreases s, 0nat,
{
    match s.kind {
        SpecStmtKind::Scene { .. } | SpecStmtKind::Show { .. } | SpecStmtKind::PlayMusic { .. } => {
            let x = diag(s.pos, quoted_name("missing asset "@, asset_path(e.roots, own_asset(s)->0)));
            lemma_pushed(c.diags, d, x);
        },
        SpecStmtKind::Jump { label } => {
            lemma_pushed(c.diags, d, diag(s.pos, quoted_name("missing label "@, label)));
        },
        SpecStmtKind::Say { text_id, .. } => {
            if let Some(id) = text_id {
                lemma_keeps_text_id(e, s.pos, id, c, d);
            }
        },
        SpecStmtKind::Menu { choices } => lemma_keeps_choices(choices, e, c, d),
        SpecStmtKind::If { then_body, else_body, .. } => {
            lemma_keeps_stmts(then_body, e, c, d);
            lemma_keeps_stmts(else_body, e, check_stmts(then_body, e, c), d);
        },
        _ => {},
    }
}

proof fn lemma_keeps_stmts(ss: Seq<SpecStmt>, e: CheckEnv, c: Checked, d: SpecDiagnostic)
    requires
        c.diags.contains(d),
    ensures
        check_stmts(ss, e, c).diags.contains(d),
    decreases ss, 1nat,
{
    if ss.len() > 0 {
        lemma_keeps_stmts(ss.drop_last(), e, c, d);
        lemma_keeps_stmt(ss.last(), e, check_stmts(ss.drop_last(), e, c), d);
    }
}

proof fn lemma_keeps_choices(cs: Seq<SpecChoice>, e: CheckEnv, c: Checked, d: SpecDiagnostic)
    requires
        c.diags.contains(d),
    ensures
        check_choices(cs, e, c).diags.contains(d),
    decreases cs, 1nat,
{
    if cs.len() > 0 {
        lemma_keeps_choices(cs.drop_last(), e, c, d);
        let before = check_choices(cs.drop_last(), e, c);
        let ch = cs.last();
        let after_id = match ch.text_id {
            Some(id) => check_text_id(e, ch.pos, id, before),
            None => before,
        };
        if let Some(id) = ch.text_id {
            lemma_keeps_text_id(e, ch.pos, id, before, d);
        }
        lemma_keeps_stmts(ch.body, e, after_id, d);
    }
}

proof fn lemma_reports_stmt(s: SpecStmt, e: CheckEnv, c: Checked, i: int)
    requires
        0 <= i < nested_stmt(s).len(),
        asset_missing(e.roots, e.present, nested_stmt(s)[i]),
    ensures
        check_stmt(s, e, c).diags.contains(missing_asset_report(e.roots, nested_stmt(s)[i])),
    decreases s, 0nat,
{
    let inner = match s.kind {
        SpecStmtKind::Menu { choices } => nested_choices(choices),
        SpecStmtKind::If { then_body, else_body, .. } => nested_stmts(then_body) + nested_stmts(else_body),
        _ => Seq::empty(),
    };
    assert(nested_stmt(s) == seq![s] + inner);
    if i == 0 {
        assert(nested_stmt(s)[0] == s);
        let x = missing_asset_report(e.roots, s);
        assert(c.diags.push(x)[c.diags.len() as int] == x);
    } else {
        assert(nested_stmt(s)[i] == inner[i - 1]);
        match s.kind {
            SpecStmtKind::Menu { choices } => {
                lemma_reports_choices(choices, e, c, i - 1);
            },
            SpecStmtKind::If { then_body, else_body, .. } => {
                let t = nested_stmts(then_body);
                if i - 1 < t.len() {
                    assert(inner[i - 1] == t[i - 1]);
                    lemma_reports_stmts(then_body, e, c, i - 1);
                    lemma_keeps_stmts(else_body, e, check_stmts(then_body, e, c), missing_asset_report(e.roots, t[i - 1]));
                } else {
                    assert(inner[i - 1] == nested_stmts(else_body)[i - 1 - t.len()]);
                    lemma_reports_stmts(else_body, e, check_stmts(then_body, e, c), i - 1 - t.len());
                }
            },
            _ => {},
        }
    }
}

proof fn lemma_reports_stmts(ss: Seq<SpecStmt>, e: CheckEnv, c: Checked, i: int)
    requires
        0 <= i < nested_stmts(ss).len(),
        asset_missing(e.roots, e.present, nested_stmts(ss)[i]),
    ensures
        check_stmts(ss, e, c).diags.contains(missing_asset_report(e.roots, nested_stmts(ss)[i])),
    decreases ss, 1nat,
{
    if ss.len() > 0 {
        let front = nested_stmts(ss.drop_last());
        let before = check_stmts(ss.drop_last(), e, c);
        if i < front.len() {
            assert(nested_stmts(ss)[i] == front[i]);
            lemma_reports_stmts(ss.drop_last(), e, c, i);
            lemma_keeps_stmt(ss.last(), e, before, missing_asset_report(e.roots, front[i]));
        } else {
            assert(nested_stmts(ss)[i] == nested_stmt(ss.last())[i - front.len()]);
            lemma_reports_stmt(ss.last(), e, before, i - front.len());
        }
    }
}

proof fn lemma_reports_choices(cs: Seq<SpecChoice>, e: CheckEnv, c: Checked, i: int)
    requires
        0 <= i < nested_choices(cs).len(),
        asset_missing(e.roots, e.present, nested_choices(cs)[i]),
    ensures
        check_choices(cs, e, c).diags.contains(missing_asset_report(e.roots, nested_choices(cs)[i])),
    decreases cs, 1nat,
{
    if cs.len() > 0 {
        let front = nested_choices(cs.drop_last());
        let before = check_choices(cs.drop_last(), e, c);
        let ch = cs.last();
        let after_id = match ch.text_id {
            Some(id) => check_text_id(e, ch.pos, id, before),
            None => before,
        };
        if i < front.len() {
            assert(nested_choices(cs)[i] == front[i]);
            let d = missing_asset_report(e.roots, front[i]);
            lemma_reports_choices(cs.drop_last(), e, c, i);
            if let Some(id) = ch.text_id {
                lemma_keeps_text_id(e, ch.pos, id, before, d);
            }
            lemma_keeps_stmts(ch.body, e, after_id, d);
        } else {
            assert(nested_choices(cs)[i] == nested_stmts(ch.body)[i - front.len()]);
            lemma_reports_stmts(ch.body, e, after_id, i - front.len());
        }
    }
}

/// Validation reports every missing asset: for each statement anywhere in the script (in
/// every branch of every conditional and every menu choice's body) that shows or plays an
/// asset whose path is not present, the diagnostics hold a `missing asset` report of that
/// path at that statement.
pub proof fn law_every_missing_asset_is_reported(
    script: Seq<SpecStmt>,
    roots: SpecAssetRoots,
    present: Seq<Seq<char>>,
    locales: Seq<SpecLocale>,
)
    ensures
        forall|i: int| 0 <= i < nested_stmts(script).len() && asset_missing(roots, present, #[trigger] nested_stmts(script)[i])
            ==> validation_diagnostics(script, roots, present, locales).contains(
                missing_asset_report(roots, nested_stmts(script)[i]),
            ),
{
    let first = collect_stmts(script, Checked { seen: Set::empty(), diags: Seq::empty() });
    let with_start = if first.seen.contains("start"@) {
        first.diags
    } else {
        first.diags.push(diag(start_pos(script), "missing required label 'start'"@))
    };
    let env = CheckEnv { labels: first.seen, roots, present, locales };
    assert forall|i: int| 0 <= i < nested_stmts(script).len() && asset_missing(roots, present, #[trigger] nested_stmts(script)[i])
        implies validation_diagnostics(script, roots, present, locales).contains(
            missing_asset_report(roots, nested_stmts(script)[i]),
        ) by {
        lemma_reports_stmts(script, env, Checked { seen: Set::empty(), diags: with_start }, i);
    }
}

/// The roots a manifest gives a project directory.
pub open spec fn manifest_roots(root: Seq<char>, m: ProjectManifest) -> SpecAssetRoots {
    SpecAssetRoots {
        root,
        assets: m.paths.assets@,
        backgrounds: m.assets.backgrounds@,
        sprites: m.assets.sprites@,
        audio: m.assets.audio@,
    }
}

/// The roots of a project directory under the default manifest.
pub open spec fn default_roots(root: Seq<char>) -> SpecAssetRoots {
    SpecAssetRoots { root, assets: "assets"@, backgrounds: "bg"@, sprites: "sprites"@, audio: "audio"@ }
}

// ---------------------------------------------------------------------------
// Executable passes.
// ---------------------------------------------------------------------------

fn message(prefix: &str, name: &str) -> (r: String)
    ensures
        r@ == quoted_name(prefix@, name@),
{
    let mut buf = chars_of(prefix);
    let q = chars_of("'");
    push_all(&mut buf, q.as_slice());
    let n = chars_of(name);
    push_all(&mut buf, n.as_slice());
    push_all(&mut buf, q.as_slice());
    string_of(buf.as_slice())
}

fn entry_message(locale: &str, id: &str) -> (r: String)
    ensures
        r@ == quoted_name(quoted_name("missing locale "@, locale@) + " entry "@, id@),
{
    let mut buf = chars_of("missing locale ");
    let q = chars_of("'");
    push_all(&mut buf, q.as_slice());
    let l = chars_of(locale);
    push_all(&mut buf, l.as_slice());
    push_all(&mut buf, q.as_slice());
    let mid = chars_of(" entry ");
    push_all(&mut buf, mid.as_slice());
    push_all(&mut buf, q.as_slice());
    let n = chars_of(id);
    push_all(&mut buf, n.as_slice());
    push_all(&mut buf, q.as_slice());
    string_of(buf.as_slice())
}

fn collect_stmt_exec(s: &Stmt, seen: &mut StrMap<usize>, diags: &mut Vec<Diagnostic>)
    ensures
        (Checked { seen: final(seen)@.dom(), diags: seq_view(final(diags)@) })
            == collect_stmt(s@, Checked { seen: old(seen)@.dom(), diags: seq_view(old(diags)@) }),
    decreases s, 0nat,
{
    match &s.kind {
        StmtKind::Label { name } => {
            if seen.contains_key(name.as_str()) {
                let ghost before = seq_view(diags@);
                let d = Diagnostic::new(s.pos.duplicate(), message("duplicate label ", name.as_str()));
                diags.push(d);
                assert(seq_view(diags@) =~= before.push(d@));
            } else {
                seen.insert(name.clone(), 0);
            }
        },
        StmtKind::Menu { choices } => {
            collect_choices_exec(choices, seen, diags);
        },
        StmtKind::If { then_body, else_body, .. } => {
            collect_stmts_exec(then_body, seen, diags);
            collect_stmts_exec(else_body, seen, diags);
        },
        _ => {},
    }
}

fn collect_stmts_exec(v: &Vec<Stmt>, seen: &mut StrMap<usize>, diags: &mut Vec<Diagnostic>)
    ensures
        (Checked { seen: final(seen)@.dom(), diags: seq_view(final(diags)@) })
            == collect_stmts(stmts_view(v@), Checked { seen: old(seen)@.dom(), diags: seq_view(old(diags)@) }),
    decreases v, 1nat,
{
    let ghost ss = stmts_view(v@);
    let ghost c0 = Checked { seen: seen@.dom(), diags: seq_view(diags@) };
    let mut i: usize = 0;
    proof {
        lemma_stmts_view_take(v@, 0);
        assert(ss.take(0) =~= Seq::<SpecStmt>::empty());
    }
    while i < v.len()
        invariant
            i <= v@.len(),
            ss == stmts_view(v@),
            (Checked { seen: seen@.dom(), diags: seq_view(diags@) }) == collect_stmts(ss.take(i as int), c0),
        decreases v@.len() - i,
    {
        proof {
            assert(decreases_to!(v => v@));
            assert(decreases_to!(v@ => v@[i as int]));
            lemma_stmts_view_take(v@, i as int);
            assert(ss.take(i + 1).drop_last() =~= ss.take(i as int));
        }
        collect_stmt_exec(&v[i], seen, diags);
        i = i + 1;
    }
    proof {
        assert(ss.take(v@.len() as int) =~= ss);
    }
}

fn collect_choices_exec(v: &Vec<Choice>, seen: &mut StrMap<usize>, diags: &mut Vec<Diagnostic>)
    ensures
        (Checked { seen: final(seen)@.dom(), diags: seq_view(final(diags)@) })
            == collect_choices(choices_view(v@), Checked { seen: old(seen)@.dom(), diags: seq_view(old(diags)@) }),
    decreases v, 1nat,
{
    let ghost cs = choices_view(v@);
    let ghost c0 = Checked { seen: seen@.dom(), diags: seq_view(diags@) };
    let mut i: usize = 0;
    proof {
        lemma_choices_view_take(v@, 0);
        assert(cs.take(0) =~= Seq::<SpecChoice>::empty());
    }
    while i < v.len()
        invariant
            i <= v@.len(),
            cs == choices_view(v@),
            (Checked { seen: seen@.dom(), diags: seq_view(diags@) }) == collect_choices(cs.take(i as int), c0),
        decreases v@.len() - i,
    {
        proof {
            assert(decreases_to!(v => v@));
            assert(decreases_to!(v@ => v@[i as int]));
            assert(decreases_to!(v@[i as int] => v@[i as int].body));
            lemma_choices_view_take(v@, i as int);
            assert(cs.take(i + 1).drop_last() =~= cs.take(i as int));
        }
        collect_stmts_exec(&v[i].body, seen, diags);
        i = i + 1;
    }
    proof {
        assert(cs.take(v@.len() as int) =~= cs);
    }
}

struct Env<'a> {
    labels: &'a StrMap<usize>,
    resolver: &'a AssetResolver,
    present: &'a [String],
    locales: &'a [LocaleCatalog],
}

impl<'a> Env<'a> {
    spec fn model(&self) -> CheckEnv {
        CheckEnv {
            labels: self.labels@.dom(),
            roots: self.resolver@,
            present: seq_view(self.present@),
            locales: seq_view(self.locales@),
        }
    }

    fn is_present(&self, path: &str) -> (r: bool)
        ensures
            r == self.model().present.contains(path@),
    {
        let ghost pv = seq_view(self.present@);
        let mut i: usize = 0;
        while i < self.present.len()
            invariant
                pv == seq_view(self.present@),
                i <= self.present@.len(),
                forall|j: int| 0 <= j < i ==> pv[j] != path@,
            decreases self.present@.len() - i,
        {
            assert(pv[i as int] == self.present@[i as int]@);
            if crate::text::str_eq(self.present[i].as_str(), path) {
                assert(pv[i as int] == path@);
                return true;
            }
            i = i + 1;
        }
        false
    }

    fn report(&self, pos: &SourcePos, message: String, diags: &mut Vec<Diagnostic>)
        ensures
            seq_view(final(diags)@) == seq_view(old(diags)@).push(diag(pos@, message@)),
    {
        let ghost before = seq_view(diags@);
        let d = Diagnostic::new(pos.duplicate(), message);
        diags.push(d);
        assert(seq_view(diags@) =~= before.push(d@));
    }

    fn check_asset(&self, pos: &SourcePos, path: String, diags: &mut Vec<Diagnostic>)
        ensures
            seq_view(final(diags)@) == (if self.model().present.contains(path@) {
                seq_view(old(diags)@)
            } else {
                seq_view(old(diags)@).push(diag(pos@, quoted_name("missing asset "@, path@)))
            }),
    {
        if !self.is_present(path.as_str()) {
            self.report(pos, message("missing asset ", path.as_str()), diags);
        }
    }

    fn check_text_id(&self, pos: &SourcePos, id: &String, seen: &mut StrMap<usize>, diags: &mut Vec<Diagnostic>)
        ensures
            (Checked { seen: final(seen)@.dom(), diags: seq_view(final(diags)@) })
                == check_text_id(self.model(), pos@, id@, Checked { seen: old(seen)@.dom(), diags: seq_view(old(diags)@) }),
    {
        if seen.contains_key(id.as_str()) {
            self.report(pos, message("duplicate text id ", id.as_str()), diags);
        } else {
            seen.insert(id.clone(), 0);
        }
        let ghost mid = seq_view(diags@);
        let ghost lv = seq_view(self.locales@);
        let mut i: usize = 0;
        assert(lv.take(0) =~= Seq::<SpecLocale>::empty());
        assert(mid + locale_misses(lv.take(0), pos@, id@) =~= mid);
        while i < self.locales.len()
            invariant
                lv == seq_view(self.locales@),
                i <= self.locales@.len(),
                seq_view(diags@) == mid + locale_misses(lv.take(i as int), pos@, id@),
            decreases self.locales@.len() - i,
        {
            assert(lv.take(i + 1).drop_last() =~= lv.take(i as int));
            assert(lv.take(i + 1).last() == self.locales@[i as int]@);
            let ghost prev = seq_view(diags@);
            if self.locales[i].get(id.as_str()).is_none() {
                self.report(pos, entry_message(self.locales[i].locale.as_str(), id.as_str()), diags);
                assert(seq_view(diags@) =~= mid + locale_misses(lv.take(i + 1), pos@, id@));
            }
            i = i + 1;
        }
        assert(lv.take(self.locales@.len() as int) =~= lv);
    }

    fn check_stmt(&self, s: &Stmt, seen: &mut StrMap<usize>, diags: &mut Vec<Diagnostic>)
        ensures
            (Checked { seen: final(seen)@.dom(), diags: seq_view(final(diags)@) })
                == check_stmt(s@, self.model(), Checked { seen: old(seen)@.dom(), diags: seq_view(old(diags)@) }),
        decreases s, 0nat,
    {
        match &s.kind {
            StmtKind::Scene { image, .. } => {
                self.check_asset(&s.pos, self.resolver.background(image.as_str()), diags);
            },
            StmtKind::Show { tag, attrs, .. } => {
                proof {
                    crate::text::lemma_strings_deep_view(*attrs);
                }
                self.check_asset(&s.pos, self.resolver.sprite(tag.as_str(), attrs.as_slice()), diags);
            },
            StmtKind::PlayMusic { path } => {
                self.check_asset(&s.pos, self.resolver.audio(path.as_str()), diags);
            },
            StmtKind::Jump { label } => {
                if !self.labels.contains_key(label.as_str()) {
                    self.report(&s.pos, message("missing label ", label.as_str()), diags);
                }
            },
            StmtKind::Say { text_id, .. } => {
                if let Some(id) = text_id {
                    self.check_text_id(&s.pos, id, seen, diags);
                }
            },
            StmtKind::Menu { choices } => {
                self.check_choices(choices, seen, diags);
            },
            StmtKind::If { then_body, else_body, .. } => {
                self.check_stmts(then_body, seen, diags);
                self.check_stmts(else_body, seen, diags);
            },
            _ => {},
        }
    }

    fn check_stmts(&self, v: &Vec<Stmt>, seen: &mut StrMap<usize>, diags: &mut Vec<Diagnostic>)
        ensures
            (Checked { seen: final(seen)@.dom(), diags: seq_view(final(diags)@) })
                == check_stmts(stmts_view(v@), self.model(), Checked { seen: old(seen)@.dom(), diags: seq_view(old(diags)@) }),
        decreases v, 1nat,
    {
        let ghost ss = stmts_view(v@);
        let ghost c0 = Checked { seen: seen@.dom(), diags: seq_view(diags@) };
        let mut i: usize = 0;
        proof {
            lemma_stmts_view_take(v@, 0);
            assert(ss.take(0) =~= Seq::<SpecStmt>::empty());
        }
        while i < v.len()
            invariant
                i <= v@.len(),
                ss == stmts_view(v@),
                (Checked { seen: seen@.dom(), diags: seq_view(diags@) }) == check_stmts(ss.take(i as int), self.model(), c0),
            decreases v@.len() - i,
        {
            proof {
                assert(decreases_to!(v => v@));
                assert(decreases_to!(v@ => v@[i as int]));
                lemma_stmts_view_take(v@, i as int);
                assert(ss.take(i + 1).drop_last() =~= ss.take(i as int));
            }
            self.check_stmt(&v[i], seen, diags);
            i = i + 1;
        }
        proof {
            assert(ss.take(v@.len() as int) =~= ss);
        }
    }

    fn check_choices(&self, v: &Vec<Choice>, seen: &mut StrMap<usize>, diags: &mut Vec<Diagnostic>)
        ensures
            (Checked { seen: final(seen)@.dom(), diags: seq_view(final(diags)@) })
                == check_choices(choices_view(v@), self.model(), Checked { seen: old(seen)@.dom(), diags: seq_view(old(diags)@) }),
        decreases v, 1nat,
    {
        let ghost cs = choices_view(v@);
        let ghost c0 = Checked { seen: seen@.dom(), diags: seq_view(diags@) };
        let mut i: usize = 0;
        proof {
            lemma_choices_view_take(v@, 0);
            assert(cs.take(0) =~= Seq::<SpecChoice>::empty());
        }
        while i < v.len()
            invariant
                i <= v@.len(),
                cs == choices_view(v@),
                (Checked { seen: seen@.dom(), diags: seq_view(diags@) }) == check_choices(cs.take(i as int), self.model(), c0),
            decreases v@.len() - i,
        {
            proof {
                assert(decreases_to!(v => v@));
                assert(decreases_to!(v@ => v@[i as int]));
                assert(decreases_to!(v@[i as int] => v@[i as int].body));
                lemma_choices_view_take(v@, i as int);
                assert(cs.take(i + 1).drop_last() =~= cs.take(i as int));
            }
            if let Some(id) = &v[i].text_id {
                self.check_text_id(&v[i].pos, id, seen, diags);
            }
            self.check_stmts(&v[i].body, seen, diags);
            i = i + 1;
        }
        proof {
            assert(cs.take(v@.len() as int) =~= cs);
        }
    }
}

// ---------------------------------------------------------------------------
// Referenced assets.
// ---------------------------------------------------------------------------

/// The assets one statement refers to, nested blocks included.
pub open spec fn stmt_assets(s: SpecStmt) -> Seq<SpecAssetId>
    decreases s, 0nat,
{
    match s.kind {
        SpecStmtKind::Scene { image, .. } => seq![SpecAssetId::Background(image)],
        SpecStmtKind::Show { tag, attrs, .. } => seq![SpecAssetId::Sprite { tag, attrs }],
        SpecStmtKind::PlayMusic { path } => seq![SpecAssetId::Audio(path)],
        SpecStmtKind::Menu { choices } => choices_assets(choices),
        SpecStmtKind::If { then_body, else_body, .. } => stmts_assets(then_body) + stmts_assets(else_body),
        _ => Seq::empty(),
    }
}

/// The assets statements refer to, in order.
pub open spec fn stmts_assets(ss: Seq<SpecStmt>) -> Seq<SpecAssetId>
    decreases ss, 1nat,
{
    if ss.len() == 0 {
        Seq::empty()
    } else {
        stmts_assets(ss.drop_last()) + stmt_assets(ss.last())
    }
}

/// The assets the bodies of menu choices refer to, in order.
pub open spec fn choices_assets(cs: Seq<SpecChoice>) -> Seq<SpecAssetId>
    decreases cs, 1nat,
{
    if cs.len() == 0 {
        Seq::empty()
    } else {
        choices_assets(cs.drop_last()) + stmts_assets(cs.last().body)
    }
}

fn push_refs(out: &mut Vec<AssetId>, more: Vec<AssetId>)
    ensures
        seq_view(final(out)@) == seq_view(old(out)@) + seq_view(more@),
{
    let mut more = more;
    let ghost a = out@;
    let ghost b = more@;
    out.append(&mut more);
    assert(seq_view(out@) =~= seq_view(a) + seq_view(b));
}

fn stmt_refs(s: &Stmt) -> (r: Vec<AssetId>)
    ensures
        seq_view(r@) == stmt_assets(s@),
    decreases s, 0nat,
{
    let mut out: Vec<AssetId> = Vec::new();
    match &s.kind {
        StmtKind::Scene { image, .. } => {
            out.push(AssetId::Background(image.clone()));
        },
        StmtKind::Show { tag, attrs, .. } => {
            let copied = crate::ast::duplicate_strings(attrs);
            out.push(AssetId::Sprite { tag: tag.clone(), attrs: copied });
        },
        StmtKind::PlayMusic { path } => {
            out.push(AssetId::Audio(path.clone()));
        },
        StmtKind::Menu { choices } => {
            out = choices_refs(choices);
        },
        StmtKind::If { then_body, else_body, .. } => {
            out = stmts_refs(then_body);
            push_refs(&mut out, stmts_refs(else_body));
        },
        _ => {},
    }
    assert(seq_view(out@) =~= stmt_assets(s@));
    out
}

fn stmts_refs(v: &Vec<Stmt>) -> (r: Vec<AssetId>)
    ensures
        seq_view(r@) == stmts_assets(stmts_view(v@)),
    decreases v, 1nat,
{
    let ghost ss = stmts_view(v@);
    let mut out: Vec<AssetId> = Vec::new();
    let mut i: usize = 0;
    proof {
        lemma_stmts_view_take(v@, 0);
        assert(ss.take(0) =~= Seq::<SpecStmt>::empty());
    }
    while i < v.len()
        invariant
            i <= v@.len(),
            ss == stmts_view(v@),
            seq_view(out@) == stmts_assets(ss.take(i as int)),
        decreases v@.len() - i,
    {
        proof {
            assert(decreases_to!(v => v@));
            assert(decreases_to!(v@ => v@[i as int]));
            lemma_stmts_view_take(v@, i as int);
            assert(ss.take(i + 1).drop_last() =~= ss.take(i as int));
        }
        push_refs(&mut out, stmt_refs(&v[i]));
        i = i + 1;
    }
    proof {
        assert(ss.take(v@.len() as int) =~= ss);
    }
    out
}

fn choices_refs(v: &Vec<Choice>) -> (r: Vec<AssetId>)
    ensures
        seq_view(r@) == choices_assets(choices_view(v@)),
    decreases v, 1nat,
{
    let ghost cs = choices_view(v@);
    let mut out: Vec<AssetId> = Vec::new();
    let mut i: usize = 0;
    proof {
        lemma_choices_view_take(v@, 0);
        assert(cs.take(0) =~= Seq::<SpecChoice>::empty());
    }
    while i < v.len()
        invariant
            i <= v@.len(),
            cs == choices_view(v@),
            seq_view(out@) == choices_assets(cs.take(i as int)),
        decreases v@.len() - i,
    {
        proof {
            assert(decreases_to!(v => v@));
            assert(decreases_to!(v@ => v@[i as int]));
            assert(decreases_to!(v@[i as int] => v@[i as int].body));
            lemma_choices_view_take(v@, i as int);
            assert(cs.take(i + 1).drop_last() =~= cs.take(i as int));
        }
        push_refs(&mut out, stmts_refs(&v[i].body));
        i = i + 1;
    }
    proof {
        assert(cs.take(v@.len() as int) =~= cs);
    }
    out
}

/// Every asset the statements refer to, in script order, nested blocks included.
pub fn referenced_assets(statements: &Vec<Stmt>) -> (r: Vec<AssetId>)
    ensures
        seq_view(r@) == stmts_assets(stmts_view(statements@)),
{
    stmts_refs(statements)
}

// ---------------------------------------------------------------------------
// Validation.
// ---------------------------------------------------------------------------

/// Validation failure with one or more diagnostics.
#[derive(Debug)]
pub struct ValidationError {
    diagnostics: Vec<Diagnostic>,
}

impl View for ValidationError {
    type V = Seq<SpecDiagnostic>;

    closed spec fn view(&self) -> Seq<SpecDiagnostic> {
        seq_view(self.diagnostics@)
    }
}

impl ValidationError {
    /// The diagnostics, in the order they were found.
    pub fn diagnostics(&self) -> (r: &[Diagnostic])
        ensures
            seq_view(r@) == self@,
    {
        self.diagnostics.as_slice()
    }
}

/// What a validation outcome says: success exactly when there is no diagnostic.
pub open spec fn outcome_is(r: Result<(), ValidationError>, diags: Seq<SpecDiagnostic>) -> bool {
    match r {
        Ok(()) => diags.len() == 0,
        Err(e) => diags.len() > 0 && e@ == diags,
    }
}

/// Validates labels, assets and locale entries, given the asset paths that exist.
pub fn validate_against(
    script: &Script,
    project_root: &str,
    manifest: &ProjectManifest,
    locales: &[LocaleCatalog],
    present: &[String],
) -> (r: Result<(), ValidationError>)
    ensures
        outcome_is(
            r,
            validation_diagnostics(script@, manifest_roots(project_root@, *manifest), seq_view(present@), seq_view(locales@)),
        ),
{
    let resolver = AssetResolver::new(project_root, manifest.duplicate());
    let mut labels: StrMap<usize> = StrMap::new();
    let mut diags: Vec<Diagnostic> = Vec::new();
    assert(seq_view(diags@) =~= Seq::<SpecDiagnostic>::empty());
    collect_stmts_exec(&script.statements, &mut labels, &mut diags);
    if !labels.contains_key("start") {
        let pos = if script.statements.len() > 0 {
            proof {
                lemma_stmts_view_take(script.statements@, 0);
            }
            script.statements[0].pos.duplicate()
        } else {
            SourcePos { file: String::from_str("<project>"), line: 1, column: 1 }
        };
        let ghost before = seq_view(diags@);
        let d = Diagnostic::new(pos, String::from_str("missing required label 'start'"));
        diags.push(d);
        assert(seq_view(diags@) =~= before.push(d@));
    }
    let env = Env { labels: &labels, resolver: &resolver, present, locales };
    let mut ids: StrMap<usize> = StrMap::new();
    env.check_stmts(&script.statements, &mut ids, &mut diags);
    if diags.len() == 0 {
        Ok(())
    } else {
        Err(ValidationError { diagnostics: diags })
    }
}

/// Whether a file or directory exists at a path.
///
/// Trusted: calls `std::path::Path::exists`. Its answer depends on the file system at the
/// moment of the call, so nothing is stated about it.
#[verifier::external_body]
fn path_exists(path: &str) -> bool {
    std::path::Path::new(path).exists()
}

/// Validates labels, assets and locale entries using explicit locale catalogs, looking each
/// referenced asset up on disk.
pub fn validate_with_locales(
    script: &Script,
    project_root: &str,
    manifest: &ProjectManifest,
    locales: &[LocaleCatalog],
) -> (r: Result<(), ValidationError>)
    ensures
        exists|present: Seq<Seq<char>>|
            outcome_is(
                r,
                validation_diagnostics(script@, manifest_roots(project_root@, *manifest), present, seq_view(locales@)),
            ),
{
    let resolver = AssetResolver::new(project_root, manifest.duplicate());
    let refs = referenced_assets(&script.statements);
    let mut present: Vec<String> = Vec::new();
    let mut i: usize = 0;
    while i < refs.len()
        invariant
            i <= refs@.len(),
        decreases refs@.len() - i,
    {
        let path = resolver.resolve(&refs[i]);
        if path_exists(path.as_str()) {
            present.push(path);
        }
        i = i + 1;
    }
    validate_against(script, project_root, manifest, locales, present.as_slice())
}

/// Validates labels and assets using an explicit manifest.
pub fn validate_with_manifest(script: &Script, project_root: &str, manifest: &ProjectManifest) -> (r: Result<
    (),
    ValidationError,
>)
    ensures
        exists|present: Seq<Seq<char>>|
            outcome_is(
                r,
                validation_diagnostics(script@, manifest_roots(project_root@, *manifest), present, Seq::empty()),
            ),
{
    let none: Vec<LocaleCatalog> = Vec::new();
    assert(seq_view(none@) =~= Seq::<SpecLocale>::empty());
    validate_with_locales(script, project_root, manifest, none.as_slice())
}

/// Validates labels and assets of a project with the default manifest for its directory.
pub fn validate(script: &Script, project_root: &str) -> (r: Result<(), ValidationError>)
    ensures
        exists|present: Seq<Seq<char>>|
            outcome_is(r, validation_diagnostics(script@, default_roots(project_root@), present, Seq::empty())),
{
    let m = ProjectManifest::default_for_root(project_root);
    assert(manifest_roots(project_root@, m) == default_roots(project_root@));
    validate_with_manifest(script, project_root, &m)
}

} // verus!
