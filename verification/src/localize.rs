//! Translation catalogs: Fluent files read into flat message tables, and the messages a
//! script asks for.
use vstd::prelude::*;
use crate::ast::{
    lemma_some_has_concat, nested_choices, nested_stmt, nested_stmts, some_has,
    lemma_choices_view_take, lemma_stmts_view_take, Choice, Script, SpecChoice, SpecStmt,
    SpecStmtKind, Stmt, StmtKind, choices_view, stmts_view,
};
use crate::lexer::{trim, trim_chars};
use crate::runtime::{insert_sorted, sorted_by_tag};
use crate::strmap::StrMap;
use crate::text::{chars_of, lex_lt, push_all, seq_view, string_of};

verus! {

/// Loaded messages for one locale.
#[derive(Clone, Debug)]
pub struct LocaleCatalog {
    pub locale: String,
    pub messages: StrMap<String>,
}

/// Model of a catalog: its locale and its messages by id.
pub struct SpecLocale {
    pub locale: Seq<char>,
    pub messages: Map<Seq<char>, Seq<char>>,
}

impl View for LocaleCatalog {
    type V = SpecLocale;

    open spec fn view(&self) -> SpecLocale {
        SpecLocale { locale: self.locale@, messages: self.messages@ }
    }
}

impl Default for LocaleCatalog {
    fn default() -> (r: Self)
        ensures
            r@.locale == Seq::<char>::empty(),
            r@.messages == Map::<Seq<char>, Seq<char>>::empty(),
    {
        LocaleCatalog { locale: String::new(), messages: StrMap::new() }
    }
}

impl LocaleCatalog {
    /// The translated message for `id`.
    pub fn get(&self, id: &str) -> (r: Option<&str>)
        ensures
            match r {
                Some(v) => self@.messages.contains_key(id@) && v@ == self@.messages[id@],
                None => !self@.messages.contains_key(id@),
            },
    {
        match self.messages.get(id) {
            Some(v) => Some(v.as_str()),
            None => None,
        }
    }
}

// ---------------------------------------------------------------------------
// Reading Fluent files.
// ---------------------------------------------------------------------------

/// One entry of a Fluent file: a message with its id and, when it has one, its value as
/// pieces (text, or `None` for a placeable); or any other entry.
#[derive(Clone, Debug, PartialEq, Eq)]
pub enum FluentEntry {
    Message(String, Option<Vec<Option<String>>>),
    Other,
}

/// Model of a Fluent entry.
pub enum SpecFluentEntry {
    Message(Seq<char>, Option<Seq<Option<Seq<char>>>>),
    Other,
}

/// Model of an optional text piece.
pub open spec fn piece_view(p: Option<String>) -> Option<Seq<char>> {
    match p {
        Some(t) => Some(t@),
        None => None,
    }
}

impl View for FluentEntry {
    type V = SpecFluentEntry;

    open spec fn view(&self) -> SpecFluentEntry {
        match self {
            FluentEntry::Message(id, value) => SpecFluentEntry::Message(
                id@,
                match value {
                    Some(pieces) => Some(pieces@.map_values(|p: Option<String>| piece_view(p))),
                    None => None,
                },
            ),
            FluentEntry::Other => SpecFluentEntry::Other,
        }
    }
}

/// The entries `fluent_syntax::parser::parse` reads from a source, or `None` when it
/// reports errors.
pub uninterp spec fn fluent_entries(source: Seq<char>) -> Option<Seq<SpecFluentEntry>>;

/// Parses Fluent source text.
///
/// Trusted: calls `fluent_syntax::parser::parse` and copies its entries one for one: a
/// message as its id and the pieces of its value (text elements as text, placeables as
/// `None`), every other kind of entry as `Other`; an error result as `None`. The contract
/// names what comes back and says nothing more of it.
#[verifier::external_body]
fn fluent_parse(source: &str) -> (r: Option<Vec<FluentEntry>>)
    ensures
        match r {
            Some(v) => fluent_entries(source@) == Some(seq_view(v@)),
            None => fluent_entries(source@) is None,
        },
{
    match fluent_syntax::parser::parse(source) {
        Ok(resource) => Some(resource.body.into_iter().map(|entry| match entry {
            fluent_syntax::ast::Entry::Message(m) => FluentEntry::Message(
                m.id.name.to_string(),
                m.value.map(|p| p.elements.into_iter().map(|e| match e {
                    fluent_syntax::ast::PatternElement::TextElement { value } => Some(value.to_string()),
                    fluent_syntax::ast::PatternElement::Placeable { .. } => None,
                }).collect()),
            ),
            _ => FluentEntry::Other,
        }).collect()),
        Err(_) => None,
    }
}

/// The text pieces of a value joined, placeables left out.
pub open spec fn joined_text(pieces: Seq<Option<Seq<char>>>) -> Seq<char>
    decreases pieces.len(),
{
    if pieces.len() == 0 {
        Seq::empty()
    } else {
        joined_text(pieces.drop_last()) + match pieces.last() {
            Some(t) => t,
            None => Seq::empty(),
        }
    }
}

/// The messages of Fluent entries: each message with a value maps its id to its joined,
/// trimmed text; a later message with the same id replaces an earlier one.
pub open spec fn catalog_messages(entries: Seq<SpecFluentEntry>) -> Map<Seq<char>, Seq<char>>
    decreases entries.len(),
{
    if entries.len() == 0 {
        Map::empty()
    } else {
        let earlier = catalog_messages(entries.drop_last());
        match entries.last() {
            SpecFluentEntry::Message(id, Some(pieces)) => earlier.insert(id, trim(joined_text(pieces))),
            _ => earlier,
        }
    }
}

fn joined_text_exec(pieces: &Vec<Option<String>>) -> (r: Vec<char>)
    ensures
        r@ == joined_text(pieces@.map_values(|p: Option<String>| piece_view(p))),
{
    let ghost pv = pieces@.map_values(|p: Option<String>| piece_view(p));
    let mut out: Vec<char> = Vec::new();
    let mut i: usize = 0;
    assert(pv.take(0) =~= Seq::<Option<Seq<char>>>::empty());
    while i < pieces.len()
        invariant
            pv == pieces@.map_values(|p: Option<String>| piece_view(p)),
            i <= pieces@.len(),
            out@ == joined_text(pv.take(i as int)),
        decreases pieces@.len() - i,
    {
        assert(pv.take(i + 1).drop_last() =~= pv.take(i as int));
        assert(pv.take(i + 1).last() == piece_view(pieces@[i as int]));
        match &pieces[i] {
            Some(t) => {
                let c = chars_of(t.as_str());
                push_all(&mut out, c.as_slice());
            },
            None => {
                assert(out@ + Seq::<char>::empty() =~= out@);
            },
        }
        i = i + 1;
    }
    assert(pv.take(pieces@.len() as int) =~= pv);
    out
}

/// A catalog from the entries of a Fluent file.
pub fn catalog_from_entries(locale: &str, entries: &Vec<FluentEntry>) -> (r: LocaleCatalog)
    ensures
        r@.locale == locale@,
        r@.messages == catalog_messages(seq_view(entries@)),
{
    let ghost ev = seq_view(entries@);
    let mut messages: StrMap<String> = StrMap::new();
    let mut i: usize = 0;
    assert(ev.take(0) =~= Seq::<SpecFluentEntry>::empty());
    while i < entries.len()
        invariant
            ev == seq_view(entries@),
            i <= entries@.len(),
            messages@ == catalog_messages(ev.take(i as int)),
        decreases entries@.len() - i,
    {
        assert(ev.take(i + 1).drop_last() =~= ev.take(i as int));
        assert(ev.take(i + 1).last() == entries@[i as int]@);
        match &entries[i] {
            FluentEntry::Message(id, Some(pieces)) => {
                let text = joined_text_exec(pieces);
                let t = trim_chars(text.as_slice());
                messages.insert(id.clone(), string_of(t.as_slice()));
            },
            _ => {},
        }
        i = i + 1;
    }
    assert(ev.take(entries@.len() as int) =~= ev);
    LocaleCatalog { locale: String::from_str(locale), messages }
}

/// Locale loading error.
#[derive(Clone, Debug, PartialEq, Eq)]
pub enum LocaleError {
    /// The file could not be read.
    Read { path: String, message: String },
    /// The file is not valid Fluent.
    Parse { path: String },
}

/// Parses one Fluent source into a flat text catalog.
pub fn parse_locale(path: &str, locale: &str, source: &str) -> (r: Result<LocaleCatalog, LocaleError>)
    ensures
        match fluent_entries(source@) {
            Some(es) => r matches Ok(c) && c@.locale == locale@ && c@.messages == catalog_messages(es),
            None => r matches Err(LocaleError::Parse { path: p }) && p@ == path@,
        },
{
    match fluent_parse(source) {
        Some(entries) => Ok(catalog_from_entries(locale, &entries)),
        None => Err(LocaleError::Parse { path: String::from_str(path) }),
    }
}

// ---------------------------------------------------------------------------
// Messages a script asks for.
// ---------------------------------------------------------------------------

/// The (text id, source text) pairs of a statement, nested blocks included, in order.
pub open spec fn stmt_messages(s: SpecStmt) -> Seq<(Seq<char>, Seq<char>)>
    decreases s, 0nat,
{
    match s.kind {
        SpecStmtKind::Say { text_id, text, .. } => match text_id {
            Some(id) => seq![(id, text)],
            None => Seq::empty(),
        },
        SpecStmtKind::Menu { choices } => choices_messages(choices),
        SpecStmtKind::If { then_body, else_body, .. } => stmts_messages(then_body) + stmts_messages(else_body),
        _ => Seq::empty(),
    }
}

/// The (text id, source text) pairs of statements, in order.
pub open spec fn stmts_messages(ss: Seq<SpecStmt>) -> Seq<(Seq<char>, Seq<char>)>
    decreases ss, 1nat,
{
    if ss.len() == 0 {
        Seq::empty()
    } else {
        stmts_messages(ss.drop_last()) + stmt_messages(ss.last())
    }
}

/// The (text id, source text) pairs of menu choices: a choice's own, then its body's.
pub open spec fn choices_messages(cs: Seq<SpecChoice>) -> Seq<(Seq<char>, Seq<char>)>
    decreases cs, 1nat,
{
    if cs.len() == 0 {
        Seq::empty()
    } else {
        let c = cs.last();
        choices_messages(cs.drop_last()) + match c.text_id {
            Some(id) => seq![(id, c.text)],
            None => Seq::empty(),
        } + stmts_messages(c.body)
    }
}

/// Whether a statement names the text id `id`: a dialogue line with that id, or a menu with a
/// choice that has it.
pub open spec fn names_text_id(s: SpecStmt, id: Seq<char>) -> bool {
    match s.kind {
        SpecStmtKind::Say { text_id, .. } => text_id == Some(id),
        SpecStmtKind::Menu { choices } => exists|j: int| 0 <= j < choices.len() && (#[trigger] choices[j]).text_id == Some(id),
        _ => false,
    }
}

/// Whether a message pair has the id `id`.
pub open spec fn pair_has_id(id: Seq<char>) -> spec_fn((Seq<char>, Seq<char>)) -> bool {
    |p: (Seq<char>, Seq<char>)| p.0 == id
}

/// Whether a statement names `id`.
pub open spec fn stmt_names(id: Seq<char>) -> spec_fn(SpecStmt) -> bool {
    |s: SpecStmt| names_text_id(s, id)
}

/// Whether a menu choice has the text id `id`.
pub open spec fn choice_has_id(id: Seq<char>) -> spec_fn(SpecChoice) -> bool {
    |c: SpecChoice| c.text_id == Some(id)
}

proof fn lemma_first_wins_keys(p: Seq<(Seq<char>, Seq<char>)>, id: Seq<char>)
    ensures
        first_wins(p).contains_key(id) <==> some_has(p, pair_has_id(id)),
    decreases p.len(),
{
    if p.len() > 0 {
        lemma_first_wins_keys(p.drop_last(), id);
        assert(p == p.drop_last() + seq![p.last()]);
        lemma_some_has_concat(p.drop_last(), seq![p.last()], pair_has_id(id));
        if p.last().0 == id {
            assert(pair_has_id(id)(seq![p.last()][0]));
        }
    }
}

proof fn lemma_ids_stmt(s: SpecStmt, id: Seq<char>)
    ensures
        some_has(stmt_messages(s), pair_has_id(id)) <==> some_has(nested_stmt(s), stmt_names(id)),
    decreases s, 0nat,
{
    let inner = match s.kind {
        SpecStmtKind::Menu { choices } => nested_choices(choices),
        SpecStmtKind::If { then_body, else_body, .. } => nested_stmts(then_body) + nested_stmts(else_body),
        _ => Seq::empty(),
    };
    assert(nested_stmt(s) == seq![s] + inner);
    lemma_some_has_concat(seq![s], inner, stmt_names(id));
    assert(some_has(seq![s], stmt_names(id)) <==> names_text_id(s, id)) by {
        if names_text_id(s, id) {
            assert(stmt_names(id)(seq![s][0]));
        }
    }
    match s.kind {
        SpecStmtKind::Say { text_id, text, .. } => {
            if text_id == Some(id) {
                assert(pair_has_id(id)(stmt_messages(s)[0]));
            }
        },
        SpecStmtKind::Menu { choices } => {
            lemma_ids_choices(choices, id);
            assert(some_has(choices, choice_has_id(id)) <==> names_text_id(s, id)) by {
                if some_has(choices, choice_has_id(id)) {
                    let j = choose|j: int| 0 <= j < choices.len() && #[trigger] choice_has_id(id)(choices[j]);
                    assert(choices[j].text_id == Some(id));
                }
                if names_text_id(s, id) {
                    let j = choose|j: int| 0 <= j < choices.len() && (#[trigger] choices[j]).text_id == Some(id);
                    assert(choice_has_id(id)(choices[j]));
                }
            }
        },
        SpecStmtKind::If { then_body, else_body, .. } => {
            lemma_ids_stmts(then_body, id);
            lemma_ids_stmts(else_body, id);
            lemma_some_has_concat(stmts_messages(then_body), stmts_messages(else_body), pair_has_id(id));
            lemma_some_has_concat(nested_stmts(then_body), nested_stmts(else_body), stmt_names(id));
        },
        _ => {},
    }
}

proof fn lemma_ids_stmts(ss: Seq<SpecStmt>, id: Seq<char>)
    ensures
        some_has(stmts_messages(ss), pair_has_id(id)) <==> some_has(nested_stmts(ss), stmt_names(id)),
    decreases ss, 1nat,
{
    if ss.len() > 0 {
        lemma_ids_stmts(ss.drop_last(), id);
        lemma_ids_stmt(ss.last(), id);
        lemma_some_has_concat(stmts_messages(ss.drop_last()), stmt_messages(ss.last()), pair_has_id(id));
        lemma_some_has_concat(nested_stmts(ss.drop_last()), nested_stmt(ss.last()), stmt_names(id));
    }
}

proof fn lemma_ids_choices(cs: Seq<SpecChoice>, id: Seq<char>)
    ensures
        some_has(choices_messages(cs), pair_has_id(id))
            <==> (some_has(cs, choice_has_id(id)) || some_has(nested_choices(cs), stmt_names(id))),
    decreases cs, 1nat,
{
    if cs.len() > 0 {
        let c = cs.last();
        let own: Seq<(Seq<char>, Seq<char>)> = match c.text_id {
            Some(t) => seq![(t, c.text)],
            None => Seq::empty(),
        };
        lemma_ids_choices(cs.drop_last(), id);
        lemma_ids_stmts(c.body, id);
        lemma_some_has_concat(choices_messages(cs.drop_last()) + own, stmts_messages(c.body), pair_has_id(id));
        lemma_some_has_concat(choices_messages(cs.drop_last()), own, pair_has_id(id));
        lemma_some_has_concat(nested_choices(cs.drop_last()), nested_stmts(c.body), stmt_names(id));
        assert(cs == cs.drop_last() + seq![c]);
        lemma_some_has_concat(cs.drop_last(), seq![c], choice_has_id(id));
        assert(some_has(own, pair_has_id(id)) <==> some_has(seq![c], choice_has_id(id))) by {
            if c.text_id == Some(id) {
                assert(pair_has_id(id)(own[0]));
                assert(choice_has_id(id)(seq![c][0]));
            }
        }
    }
}

/// The ids extracted from a script are exactly the text ids it uses anywhere: of its dialogue
/// lines and of its menu choices, in every branch of every conditional and every choice's body,
/// at any depth.
pub proof fn law_extracted_ids_are_the_scripts_text_ids(script: Seq<SpecStmt>, id: Seq<char>)
    ensures
        first_wins(stmts_messages(script)).contains_key(id) <==> exists|i: int|
            0 <= i < nested_stmts(script).len() && names_text_id(#[trigger] nested_stmts(script)[i], id),
{
    lemma_first_wins_keys(stmts_messages(script), id);
    lemma_ids_stmts(script, id);
    let n = nested_stmts(script);
    if some_has(n, stmt_names(id)) {
        let i = choose|i: int| 0 <= i < n.len() && #[trigger] stmt_names(id)(n[i]);
        assert(names_text_id(n[i], id));
    }
    if exists|i: int| 0 <= i < n.len() && names_text_id(#[trigger] n[i], id) {
        let i = choose|i: int| 0 <= i < n.len() && names_text_id(#[trigger] n[i], id);
        assert(stmt_names(id)(n[i]));
    }
}

/// The pairs as a map where the first pair with an id wins.
pub open spec fn first_wins(pairs: Seq<(Seq<char>, Seq<char>)>) -> Map<Seq<char>, Seq<char>>
    decreases pairs.len(),
{
    if pairs.len() == 0 {
        Map::empty()
    } else {
        let m = first_wins(pairs.drop_last());
        if m.contains_key(pairs.last().0) { m } else { m.insert(pairs.last().0, pairs.last().1) }
    }
}

fn push_pairs(out: &mut Vec<(String, String)>, more: Vec<(String, String)>)
    ensures
        pair_view(final(out)@) == pair_view(old(out)@) + pair_view(more@),
{
    let mut more = more;
    let ghost a = out@;
    let ghost b = more@;
    out.append(&mut more);
    assert(pair_view(out@) =~= pair_view(a) + pair_view(b));
}

/// Model of a list of string pairs.
pub open spec fn pair_view(s: Seq<(String, String)>) -> Seq<(Seq<char>, Seq<char>)> {
    s.map_values(|p: (String, String)| (p.0@, p.1@))
}

fn stmt_pairs(s: &Stmt) -> (r: Vec<(String, String)>)
    ensures
        pair_view(r@) == stmt_messages(s@),
    decreases s, 0nat,
{
    let mut out: Vec<(String, String)> = Vec::new();
    match &s.kind {
        StmtKind::Say { text_id, text, .. } => {
            if let Some(id) = text_id {
                out.push((id.clone(), text.clone()));
            }
        },
        StmtKind::Menu { choices } => {
            out = choice_pairs(choices);
        },
        StmtKind::If { then_body, else_body, .. } => {
            out = stmts_pairs(then_body);
            push_pairs(&mut out, stmts_pairs(else_body));
        },
        _ => {},
    }
    assert(pair_view(out@) =~= stmt_messages(s@));
    out
}

fn stmts_pairs(v: &Vec<Stmt>) -> (r: Vec<(String, String)>)
    ensures
        pair_view(r@) == stmts_messages(stmts_view(v@)),
    decreases v, 1nat,
{
    let ghost ss = stmts_view(v@);
    let mut out: Vec<(String, String)> = Vec::new();
    let mut i: usize = 0;
    proof {
        lemma_stmts_view_take(v@, 0);
        assert(ss.take(0) =~= Seq::<SpecStmt>::empty());
    }
    assert(pair_view(out@) =~= Seq::<(Seq<char>, Seq<char>)>::empty());
    while i < v.len()
        invariant
            i <= v@.len(),
            ss == stmts_view(v@),
            pair_view(out@) == stmts_messages(ss.take(i as int)),
        decreases v@.len() - i,
    {
        proof {
            assert(decreases_to!(v => v@));
            assert(decreases_to!(v@ => v@[i as int]));
            lemma_stmts_view_take(v@, i as int);
            assert(ss.take(i + 1).drop_last() =~= ss.take(i as int));
        }
        push_pairs(&mut out, stmt_pairs(&v[i]));
        i = i + 1;
    }
    proof {
        assert(ss.take(v@.len() as int) =~= ss);
    }
    out
}

fn choice_pairs(v: &Vec<Choice>) -> (r: Vec<(String, String)>)
    ensures
        pair_view(r@) == choices_messages(choices_view(v@)),
    decreases v, 1nat,
{
    let ghost cs = choices_view(v@);
    let mut out: Vec<(String, String)> = Vec::new();
    let mut i: usize = 0;
    proof {
        lemma_choices_view_take(v@, 0);
        assert(cs.take(0) =~= Seq::<SpecChoice>::empty());
    }
    assert(pair_view(out@) =~= Seq::<(Seq<char>, Seq<char>)>::empty());
    while i < v.len()
        invariant
            i <= v@.len(),
            cs == choices_view(v@),
            pair_view(out@) == choices_messages(cs.take(i as int)),
        decreases v@.len() - i,
    {
        proof {
            assert(decreases_to!(v => v@));
            assert(decreases_to!(v@ => v@[i as int]));
            assert(decreases_to!(v@[i as int] => v@[i as int].body));
            lemma_choices_view_take(v@, i as int);
            assert(cs.take(i + 1).drop_last() =~= cs.take(i as int));
        }
        let ghost before = pair_view(out@);
        if let Some(id) = &v[i].text_id {
            let mut own: Vec<(String, String)> = Vec::new();
            own.push((id.clone(), v[i].text.clone()));
            assert(pair_view(own@) =~= seq![(id@, v@[i as int].text@)]);
            push_pairs(&mut out, own);
        } else {
            assert(before + Seq::<(Seq<char>, Seq<char>)>::empty() =~= before);
        }
        push_pairs(&mut out, stmts_pairs(&v[i].body));
        i = i + 1;
    }
    proof {
        assert(cs.take(v@.len() as int) =~= cs);
    }
    out
}

/// Text ids and their source text, each id once with the text of its first use, in
/// increasing id order.
pub fn extract_messages(script: &Script) -> (r: Vec<(String, String)>)
    ensures
        sorted_by_tag(r@),
        r@.len() == first_wins(stmts_messages(script@)).dom().len(),
        forall|i: int| #![trigger r@[i]] 0 <= i < r@.len() ==> first_wins(stmts_messages(script@)).contains_key(r@[i].0@)
            && first_wins(stmts_messages(script@))[r@[i].0@] == r@[i].1@,
        forall|id: Seq<char>| #[trigger] first_wins(stmts_messages(script@)).contains_key(id)
            ==> exists|i: int| 0 <= i < r@.len() && r@[i].0@ == id,
{
    let pairs = stmts_pairs(&script.statements);
    let ghost pv = pair_view(pairs@);
    let mut map: StrMap<String> = StrMap::new();
    let mut i: usize = 0;
    assert(pv.take(0) =~= Seq::<(Seq<char>, Seq<char>)>::empty());
    while i < pairs.len()
        invariant
            pv == pair_view(pairs@),
            i <= pairs@.len(),
            map@ == first_wins(pv.take(i as int)),
        decreases pairs@.len() - i,
    {
        assert(pv.take(i + 1).drop_last() =~= pv.take(i as int));
        assert(pv.take(i + 1).last() == (pairs@[i as int].0@, pairs@[i as int].1@));
        if !map.contains_key(pairs[i].0.as_str()) {
            map.insert(pairs[i].0.clone(), pairs[i].1.clone());
        }
        i = i + 1;
    }
    assert(pv.take(pairs@.len() as int) =~= pv);
    sorted_entries(&map)
}

/// The entries of a map, in increasing key order.
pub fn sorted_entries(map: &StrMap<String>) -> (r: Vec<(String, String)>)
    ensures
        sorted_by_tag(r@),
        r@.len() == map@.dom().len(),
        forall|i: int| #![trigger r@[i]] 0 <= i < r@.len() ==> map@.contains_key(r@[i].0@) && map@[r@[i].0@] == r@[i].1@,
        forall|k: Seq<char>| #[trigger] map@.contains_key(k) ==> exists|i: int| 0 <= i < r@.len() && r@[i].0@ == k,
{
    map.key_order_facts();
    let ghost keys = map.key_order();
    let mut out: Vec<(String, String)> = Vec::new();
    let mut i: usize = 0;
    while i < map.len()
        invariant
            keys == map.key_order(),
            keys.no_duplicates(),
            keys.len() == map@.dom().len(),
            forall|k: Seq<char>| #[trigger] map@.contains_key(k) <==> keys.contains(k),
            i <= keys.len(),
            out@.len() == i,
            sorted_by_tag(out@),
            forall|a: int| #![trigger out@[a]] 0 <= a < out@.len() ==> map@.contains_key(out@[a].0@)
                && map@[out@[a].0@] == out@[a].1@ && exists|j: int| 0 <= j < i && keys[j] == out@[a].0@,
            forall|j: int| 0 <= j < i ==> exists|a: int| 0 <= a < out@.len() && out@[a].0@ == #[trigger] keys[j],
        decreases keys.len() - i,
    {
        let key = map.key_at(i);
        let value = map.value_at(i);
        let ghost old_s = out@;
        proof {
            assert forall|a: int| 0 <= a < old_s.len() implies old_s[a].0@ != keys[i as int] by {
                let j = choose|j: int| 0 <= j < i && keys[j] == old_s[a].0@;
                assert(keys[j] != keys[i as int]);
            }
        }
        let pos = insert_sorted(&mut out, key.clone(), value.clone());
        proof {
            let s = out@;
            assert forall|a: int| #![trigger s[a]] 0 <= a < s.len() implies map@.contains_key(s[a].0@)
                && map@[s[a].0@] == s[a].1@ && exists|j: int| 0 <= j < i + 1 && keys[j] == s[a].0@ by {
                if a < pos {
                    assert(s[a] == old_s[a]);
                } else if a > pos {
                    assert(s[a] == old_s[a - 1]);
                } else {
                    assert(keys.contains(keys[i as int]));
                }
            }
            assert forall|j: int| 0 <= j < i + 1 implies exists|a: int| 0 <= a < s.len() && s[a].0@ == #[trigger] keys[j] by {
                if j < i {
                    let a = choose|a: int| 0 <= a < old_s.len() && old_s[a].0@ == keys[j];
                    if a < pos {
                        assert(s[a] == old_s[a]);
                    } else {
                        assert(s[a + 1] == old_s[a]);
                    }
                } else {
                    assert(s[pos as int].0@ == keys[j]);
                }
            }
        }
        i = i + 1;
    }
    proof {
        assert forall|k: Seq<char>| #[trigger] map@.contains_key(k) implies exists|a: int| 0 <= a < out@.len() && out@[a].0@ == k by {
            let j = choose|j: int| 0 <= j < keys.len() && keys[j] == k;
            assert(keys[j] == k);
        }
    }
    out
}

/// `\n` written as backslash and `n`.
pub open spec fn escape_newlines(t: Seq<char>) -> Seq<char>
    decreases t.len(),
{
    if t.len() == 0 {
        Seq::empty()
    } else {
        escape_newlines(t.drop_last()) + if t.last() == '\n' { seq!['\\', 'n'] } else { seq![t.last()] }
    }
}

/// Messages as Fluent entries, one `id = text` line each, in order.
pub open spec fn fluent_text(ms: Seq<(Seq<char>, Seq<char>)>) -> Seq<char>
    decreases ms.len(),
{
    if ms.len() == 0 {
        Seq::empty()
    } else {
        fluent_text(ms.drop_last()) + ms.last().0 + " = "@ + escape_newlines(ms.last().1) + "\n"@
    }
}

/// Whether messages come in strictly increasing id order, each id once, as a message table
/// keeps them.
pub fn in_tag_order(messages: &Vec<(String, String)>) -> (r: bool)
    ensures
        r == sorted_by_tag(messages@),
{
    let n = messages.len();
    if n == 0 {
        return true;
    }
    let mut i: usize = 1;
    while i < n
        invariant
            n == messages@.len(),
            1 <= i <= n,
            sorted_by_tag(messages@.take(i as int)),
        decreases n - i,
    {
        let a = chars_of(messages[i - 1].0.as_str());
        let b = chars_of(messages[i].0.as_str());
        if !crate::text::chars_lt(a.as_slice(), b.as_slice()) {
            assert(!sorted_by_tag(messages@)) by {
                assert(!lex_lt(messages@[i - 1].0@, messages@[i as int].0@));
            }
            return false;
        }
        proof {
            let t = messages@.take(i + 1);
            assert forall|x: int, y: int| 0 <= x < y < t.len() implies lex_lt(t[x].0@, t[y].0@) by {
                if y < i {
                    assert(messages@.take(i as int)[x] == t[x]);
                    assert(messages@.take(i as int)[y] == t[y]);
                } else if x < i - 1 {
                    assert(messages@.take(i as int)[x] == t[x]);
                    assert(messages@.take(i as int)[i - 1] == t[i - 1]);
                    crate::text::lemma_lex_lt_trans(t[x].0@, t[i - 1].0@, t[y].0@);
                }
            }
        }
        i = i + 1;
    }
    assert(messages@.take(n as int) =~= messages@);
    true
}

/// Renders a message table, in increasing id order with each id once, as simple Fluent
/// entries.
pub fn render_messages(messages: &Vec<(String, String)>) -> (r: String)
    requires
        sorted_by_tag(messages@),
    ensures
        r@ == fluent_text(pair_view(messages@)),
{
    let ghost mv = pair_view(messages@);
    let eq = chars_of(" = ");
    let nl = chars_of("\n");
    let mut out: Vec<char> = Vec::new();
    let mut i: usize = 0;
    assert(mv.take(0) =~= Seq::<(Seq<char>, Seq<char>)>::empty());
    while i < messages.len()
        invariant
            mv == pair_view(messages@),
            eq@ == " = "@,
            nl@ == "\n"@,
            i <= messages@.len(),
            out@ == fluent_text(mv.take(i as int)),
        decreases messages@.len() - i,
    {
        assert(mv.take(i + 1).drop_last() =~= mv.take(i as int));
        let id = chars_of(messages[i].0.as_str());
        push_all(&mut out, id.as_slice());
        push_all(&mut out, eq.as_slice());
        let text = chars_of(messages[i].1.as_str());
        let ghost start = out@;
        let mut k: usize = 0;
        assert(text@.take(0) =~= Seq::<char>::empty());
        assert(start + escape_newlines(text@.take(0)) =~= start);
        while k < text.len()
            invariant
                k <= text@.len(),
                out@ == start + escape_newlines(text@.take(k as int)),
            decreases text@.len() - k,
        {
            assert(text@.take(k + 1).drop_last() =~= text@.take(k as int));
            if text[k] == '\n' {
                out.push('\\');
                out.push('n');
            } else {
                out.push(text[k]);
            }
            assert(out@ =~= start + escape_newlines(text@.take(k + 1)));
            k = k + 1;
        }
        assert(text@.take(text@.len() as int) =~= text@);
        push_all(&mut out, nl.as_slice());
        assert(out@ =~= fluent_text(mv.take(i + 1)));
        i = i + 1;
    }
    assert(mv.take(messages@.len() as int) =~= mv);
    string_of(out.as_slice())
}

} // verus!
