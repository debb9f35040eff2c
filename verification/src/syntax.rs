//! The statements of one script line: everything about a statement that its own line decides.
use vstd::prelude::*;
use crate::ast::{SpecTransition, StmtKind, TextEffect, Transition, SpecStmtKind, AssignOp};
use crate::expression::{expression, parse_expression};
use crate::lexer::{
    blank, check_name, duration_literal, find_char, find_first, find_first_exec, find_first_from, find_last,
    find_last_exec, index_of_or_len, is_word, name_check, occurs_at, parse_duration_ms,
    parse_quoted, parse_u16, quoted, split_words, trim, trim_chars, trim_start, trim_start_chars,
    trim_end, trim_end_chars, u16_literal, words,
};
use crate::text::{
    chars_of, ends_with, has_prefix, has_suffix, seq_view, slice_chars, split_chars, split_on,
    starts_with, string_of, strip_prefix, strip_suffix,
};

verus! {

// ---------------------------------------------------------------------------
// Splitting.
// ---------------------------------------------------------------------------

/// The parts before and after the first occurrence of `pat`, as `str::split_once` gives them.
pub open spec fn split_once(s: Seq<char>, pat: Seq<char>) -> Option<(Seq<char>, Seq<char>)> {
    match find_first(s, pat) {
        Some(i) => Some((s.take(i), s.skip(i + pat.len()))),
        None => None,
    }
}

/// The parts before and after the last occurrence of `pat`, as `str::rsplit_once` gives them.
pub open spec fn rsplit_once(s: Seq<char>, pat: Seq<char>) -> Option<(Seq<char>, Seq<char>)> {
    match find_last(s, pat) {
        Some(i) => Some((s.take(i), s.skip(i + pat.len()))),
        None => None,
    }
}

/// Splits at the first occurrence of a literal.
pub fn split_once_at(s: &[char], pat: &str) -> (r: Option<(Vec<char>, Vec<char>)>)
    ensures
        match r {
            Some((a, b)) => split_once(s@, pat@) == Some((a@, b@)),
            None => split_once(s@, pat@) is None,
        },
{
    let p = chars_of(pat);
    match find_first_exec(s, p.as_slice()) {
        Some(i) => {
            let n = s.len();
            assert(i + p@.len() <= n);
            let a = slice_chars(s, 0, i);
            let b = slice_chars(s, i + p.len(), n);
            assert(a@ =~= s@.take(i as int));
            assert(b@ =~= s@.skip(i + p@.len()));
            Some((a, b))
        },
        None => None,
    }
}

/// Splits at the last occurrence of a literal.
pub fn rsplit_once_at(s: &[char], pat: &str) -> (r: Option<(Vec<char>, Vec<char>)>)
    ensures
        match r {
            Some((a, b)) => rsplit_once(s@, pat@) == Some((a@, b@)),
            None => rsplit_once(s@, pat@) is None,
        },
{
    let p = chars_of(pat);
    match find_last_exec(s, p.as_slice()) {
        Some(i) => {
            let n = s.len();
            assert(i + p@.len() <= n);
            let a = slice_chars(s, 0, i);
            let b = slice_chars(s, i + p.len(), n);
            assert(a@ =~= s@.take(i as int));
            assert(b@ =~= s@.skip(i + p@.len()));
            Some((a, b))
        },
        None => None,
    }
}

/// Removes a literal prefix.
pub fn strip_prefix_lit(s: &[char], lit: &str) -> (r: Option<Vec<char>>)
    ensures
        match r {
            Some(v) => strip_prefix(s@, lit@) == Some(v@),
            None => strip_prefix(s@, lit@) is None,
        },
{
    let p = chars_of(lit);
    if starts_with(s, p.as_slice()) {
        let v = slice_chars(s, p.len(), s.len());
        assert(v@ =~= s@.skip(p@.len() as int));
        Some(v)
    } else {
        None
    }
}

/// Removes a literal suffix.
pub fn strip_suffix_lit(s: &[char], lit: &str) -> (r: Option<Vec<char>>)
    ensures
        match r {
            Some(v) => strip_suffix(s@, lit@) == Some(v@),
            None => strip_suffix(s@, lit@) is None,
        },
{
    let p = chars_of(lit);
    if ends_with(s, p.as_slice()) {
        let v = slice_chars(s, 0, s.len() - p.len());
        assert(v@ =~= s@.take(s@.len() - p@.len()));
        Some(v)
    } else {
        None
    }
}

// ---------------------------------------------------------------------------
// Transitions and text effects.
// ---------------------------------------------------------------------------

/// `kind(args)` as the trimmed kind and the trimmed arguments; text without a closing
/// parenthesis or without an opening one is all kind.
pub open spec fn call_parts(s: Seq<char>) -> (Seq<char>, Seq<char>) {
    match strip_suffix(s, ")"@) {
        Some(inner) => match split_once(inner, "("@) {
            Some((k, a)) => (trim(k), trim(a)),
            None => (trim(s), Seq::empty()),
        },
        None => (trim(s), Seq::empty()),
    }
}

/// The value of `name = value` in one argument, trimmed.
pub open spec fn arg_value(piece: Seq<char>, name: Seq<char>) -> Option<Seq<char>> {
    match split_once(trim(piece), "="@) {
        Some((k, v)) => if trim(k) == name { Some(trim(v)) } else { None },
        None => None,
    }
}

/// The first argument named `name` among `pieces[i..]`.
pub open spec fn named_arg_from(pieces: Seq<Seq<char>>, name: Seq<char>, i: int) -> Option<Seq<char>>
    decreases pieces.len() - i,
{
    if i < 0 || i >= pieces.len() {
        None
    } else {
        match arg_value(pieces[i], name) {
            Some(v) => Some(v),
            None => named_arg_from(pieces, name, i + 1),
        }
    }
}

/// The first argument named `name` in a comma-separated argument list.
pub open spec fn named_arg(args: Seq<char>, name: Seq<char>) -> Option<Seq<char>> {
    named_arg_from(split_on(args, ','), name, 0)
}

/// A transition: `fade` or `dissolve`, with an optional `duration` in seconds (0 by default).
pub open spec fn transition_of(text: Seq<char>) -> Result<SpecTransition, Seq<char>> {
    let (kind, args) = call_parts(text);
    if kind != "fade"@ && kind != "dissolve"@ {
        Err("unknown transition"@)
    } else {
        match named_arg(args, "duration"@) {
            None => Ok(SpecTransition { kind, duration_ms: 0 }),
            Some(v) => match duration_literal(v) {
                Some(ms) => Ok(SpecTransition { kind, duration_ms: ms }),
                None => Err("duration must be a number"@),
            },
        }
    }
}

/// A text effect: `instant`, or `typewriter` with an optional `speed` (30 by default).
pub open spec fn effect_of(text: Seq<char>) -> Result<TextEffect, Seq<char>> {
    let (kind, args) = call_parts(text);
    if kind == "typewriter"@ {
        match named_arg(args, "speed"@) {
            None => Ok(TextEffect::Typewriter { chars_per_second: 30 }),
            Some(v) => match u16_literal(v) {
                Some(n) => Ok(TextEffect::Typewriter { chars_per_second: n }),
                None => Err("speed must be an integer"@),
            },
        }
    } else if kind == "instant"@ {
        Ok(TextEffect::Instant)
    } else {
        Err("unknown text effect"@)
    }
}

/// A visual with an optional `with <transition>` after its last ` with `.
pub open spec fn visual_tail(text: Seq<char>) -> Result<(Seq<char>, Option<SpecTransition>), Seq<char>> {
    match rsplit_once(text, " with "@) {
        None => Ok((text, None)),
        Some((head, tail)) => match transition_of(trim(tail)) {
            Ok(t) => Ok((trim(head), Some(t))),
            Err(m) => Err(m),
        },
    }
}

/// A quoted text with an optional `with <effect>` after its last ` with `.
pub open spec fn text_with_effect(text: Seq<char>) -> Result<(Seq<char>, TextEffect), Seq<char>> {
    match rsplit_once(text, " with "@) {
        None => match quoted(text) {
            Ok(q) => Ok((q, TextEffect::Instant)),
            Err(m) => Err(m),
        },
        Some((head, tail)) => match quoted(trim(head)) {
            Err(m) => Err(m),
            Ok(q) => match effect_of(trim(tail)) {
                Ok(e) => Ok((q, e)),
                Err(m) => Err(m),
            },
        },
    }
}

fn call_parts_exec(s: &[char]) -> (r: (Vec<char>, Vec<char>))
    ensures
        (r.0@, r.1@) == call_parts(s@),
{
    match strip_suffix_lit(s, ")") {
        Some(inner) => match split_once_at(inner.as_slice(), "(") {
            Some((k, a)) => (trim_chars(k.as_slice()), trim_chars(a.as_slice())),
            None => (trim_chars(s), Vec::new()),
        },
        None => (trim_chars(s), Vec::new()),
    }
}

fn arg_value_exec(piece: &[char], name: &str) -> (r: Option<Vec<char>>)
    ensures
        match r {
            Some(v) => arg_value(piece@, name@) == Some(v@),
            None => arg_value(piece@, name@) is None,
        },
{
    let t = trim_chars(piece);
    match split_once_at(t.as_slice(), "=") {
        Some((k, v)) => {
            let kt = trim_chars(k.as_slice());
            if is_word(kt.as_slice(), name) {
                Some(trim_chars(v.as_slice()))
            } else {
                None
            }
        },
        None => None,
    }
}

fn named_arg_exec(args: &[char], name: &str) -> (r: Option<Vec<char>>)
    ensures
        match r {
            Some(v) => named_arg(args@, name@) == Some(v@),
            None => named_arg(args@, name@) is None,
        },
{
    let pieces = split_chars(args, ',');
    let ghost pv = seq_view(pieces@);
    let mut i: usize = 0;
    while i < pieces.len()
        invariant
            pv == seq_view(pieces@),
            pv == split_on(args@, ','),
            i <= pieces@.len(),
            named_arg(args@, name@) == named_arg_from(pv, name@, i as int),
        decreases pieces@.len() - i,
    {
        assert(pv[i as int] == pieces@[i as int]@);
        match arg_value_exec(pieces[i].as_slice(), name) {
            Some(v) => return Some(v),
            None => {},
        }
        i = i + 1;
    }
    None
}

/// Reads a transition; the error is a message.
pub fn parse_transition(text: &[char]) -> (r: Result<Transition, &'static str>)
    ensures
        match r {
            Ok(t) => transition_of(text@) == Ok::<SpecTransition, Seq<char>>(t@),
            Err(m) => transition_of(text@) == Err::<SpecTransition, Seq<char>>(m@),
        },
{
    let (kind, args) = call_parts_exec(text);
    if !is_word(kind.as_slice(), "fade") && !is_word(kind.as_slice(), "dissolve") {
        return Err("unknown transition");
    }
    match named_arg_exec(args.as_slice(), "duration") {
        None => Ok(Transition { kind: string_of(kind.as_slice()), duration_ms: 0 }),
        Some(v) => match parse_duration_ms(v.as_slice()) {
            Some(ms) => Ok(Transition { kind: string_of(kind.as_slice()), duration_ms: ms }),
            None => Err("duration must be a number"),
        },
    }
}

/// Reads a text effect; the error is a message.
pub fn parse_effect(text: &[char]) -> (r: Result<TextEffect, &'static str>)
    ensures
        match r {
            Ok(e) => effect_of(text@) == Ok::<TextEffect, Seq<char>>(e),
            Err(m) => effect_of(text@) == Err::<TextEffect, Seq<char>>(m@),
        },
{
    let (kind, args) = call_parts_exec(text);
    if is_word(kind.as_slice(), "typewriter") {
        match named_arg_exec(args.as_slice(), "speed") {
            None => Ok(TextEffect::Typewriter { chars_per_second: 30 }),
            Some(v) => match parse_u16(v.as_slice()) {
                Some(n) => Ok(TextEffect::Typewriter { chars_per_second: n }),
                None => Err("speed must be an integer"),
            },
        }
    } else if is_word(kind.as_slice(), "instant") {
        Ok(TextEffect::Instant)
    } else {
        Err("unknown text effect")
    }
}

fn parse_visual_tail(text: &[char]) -> (r: Result<(Vec<char>, Option<Transition>), &'static str>)
    ensures
        match r {
            Ok((v, t)) => visual_tail(text@) == Ok::<(Seq<char>, Option<SpecTransition>), Seq<char>>(
                (v@, crate::ast::opt_transition_view(t)),
            ),
            Err(m) => visual_tail(text@) == Err::<(Seq<char>, Option<SpecTransition>), Seq<char>>(m@),
        },
{
    match rsplit_once_at(text, " with ") {
        None => {
            let v = slice_chars(text, 0, text.len());
            assert(v@ =~= text@);
            Ok((v, None))
        },
        Some((head, tail)) => {
            let tt = trim_chars(tail.as_slice());
            match parse_transition(tt.as_slice()) {
                Ok(t) => Ok((trim_chars(head.as_slice()), Some(t))),
                Err(m) => Err(m),
            }
        },
    }
}

fn parse_text_with_effect(text: &[char]) -> (r: Result<(Vec<char>, TextEffect), &'static str>)
    ensures
        match r {
            Ok((q, e)) => text_with_effect(text@) == Ok::<(Seq<char>, TextEffect), Seq<char>>((q@, e)),
            Err(m) => text_with_effect(text@) == Err::<(Seq<char>, TextEffect), Seq<char>>(m@),
        },
{
    match rsplit_once_at(text, " with ") {
        None => match parse_quoted(text) {
            Ok(q) => Ok((q, TextEffect::Instant)),
            Err(m) => Err(m),
        },
        Some((head, tail)) => {
            let ht = trim_chars(head.as_slice());
            match parse_quoted(ht.as_slice()) {
                Err(m) => Err(m),
                Ok(q) => {
                    let tt = trim_chars(tail.as_slice());
                    match parse_effect(tt.as_slice()) {
                        Ok(e) => Ok((q, e)),
                        Err(m) => Err(m),
                    }
                },
            }
        },
    }
}

// ---------------------------------------------------------------------------
// Dialogue, visuals, assignments, menu choices.
// ---------------------------------------------------------------------------

/// An optional text id in square brackets before a line's text: the trimmed id and the text
/// after the closing bracket with leading white space removed.
pub open spec fn text_id_split(s: Seq<char>) -> Result<(Option<Seq<char>>, Seq<char>), Seq<char>> {
    if s.len() > 0 && s[0] == '[' {
        let k = index_of_or_len(s, ']');
        if k >= s.len() {
            Err("unterminated text id"@)
        } else if trim(s.subrange(1, k)).len() == 0 {
            Err("empty text id"@)
        } else {
            Ok((Some(trim(s.subrange(1, k))), trim_start(s.skip(k + 1))))
        }
    } else {
        Ok((None, s))
    }
}

/// What a dialogue line holds: the text id, the text and its effect.
pub open spec fn dialogue_of(s: Seq<char>) -> Result<(Option<Seq<char>>, Seq<char>, TextEffect), Seq<char>> {
    match text_id_split(s) {
        Err(m) => Err(m),
        Ok((id, rest)) => match text_with_effect(rest) {
            Err(m) => Err(m),
            Ok((text, effect)) => Ok((id, text, effect)),
        },
    }
}

/// A line of dialogue, when the line is one: narration starts with `"` or `[`; otherwise
/// the speaker is the trimmed text before the first `[` or `"`, which must not be empty.
pub open spec fn say_of(text: Seq<char>) -> Option<Result<SpecStmtKind, Seq<char>>> {
    if text.len() > 0 && (text[0] == '"' || text[0] == '[') {
        Some(
            match dialogue_of(text) {
                Err(m) => Err(m),
                Ok((id, t, e)) => Ok(SpecStmtKind::Say { speaker: None, text_id: id, text: t, effect: e }),
            },
        )
    } else {
        let q = index_of_or_len(text, '"');
        let head = text.take(q);
        let b = index_of_or_len(head, '[');
        let speaker = trim(head.take(b));
        if q >= text.len() || speaker.len() == 0 {
            None
        } else {
            Some(
                match dialogue_of(trim(text.skip(b))) {
                    Err(m) => Err(m),
                    Ok((id, t, e)) => match name_check(speaker) {
                        Err(m) => Err(m),
                        Ok(n) => Ok(SpecStmtKind::Say { speaker: Some(n), text_id: id, text: t, effect: e }),
                    },
                },
            )
        }
    }
}

/// Index of the first word equal to `w`, or the number of words.
pub open spec fn word_index(parts: Seq<Seq<char>>, w: Seq<char>) -> int {
    if exists|i: int| 0 <= i < parts.len() && parts[i] == w {
        choose|i: int| 0 <= i < parts.len() && parts[i] == w && forall|j: int| 0 <= j < i ==> parts[j] != w
    } else {
        parts.len() as int
    }
}

/// `show <tag> <attrs..> [at <position>] [with <transition>]`, after `show `.
pub open spec fn show_of(rest: Seq<char>) -> Result<SpecStmtKind, Seq<char>> {
    match visual_tail(rest) {
        Err(m) => Err(m),
        Ok((image, transition)) => {
            let parts = words(image);
            let a = word_index(parts, "at"@);
            if parts.len() == 0 {
                Err("show requires image name"@)
            } else if a < parts.len() {
                if a + 1 >= parts.len() {
                    Err("show at requires a position"@)
                } else if a == 0 {
                    Err("show requires image name"@)
                } else {
                    Ok(SpecStmtKind::Show {
                        tag: parts[0],
                        attrs: parts.subrange(1, a),
                        position: parts[a + 1],
                        transition,
                    })
                }
            } else {
                Ok(SpecStmtKind::Show { tag: parts[0], attrs: parts.skip(1), position: "center"@, transition })
            }
        },
    }
}

/// The variable, operator and value text of an assignment: the first `+=`, else the first
/// `-=`, else the first `=`.
pub open spec fn assignment_parts(rest: Seq<char>) -> Option<(Seq<char>, AssignOp, Seq<char>)> {
    match split_once(rest, "+="@) {
        Some((v, x)) => Some((v, AssignOp::Add, x)),
        None => match split_once(rest, "-="@) {
            Some((v, x)) => Some((v, AssignOp::Sub, x)),
            None => match split_once(rest, "="@) {
                Some((v, x)) => Some((v, AssignOp::Assign, x)),
                None => None,
            },
        },
    }
}

/// Where `pat` is two different characters and does not occur in `v`, its first occurrence in
/// `v + pat + x` is right after `v`.
proof fn lemma_first_after(v: Seq<char>, pat: Seq<char>, x: Seq<char>)
    requires
        pat.len() == 2 || pat.len() == 1,
        pat.len() == 2 ==> pat[0] != pat[1],
        find_first(v, pat) is None,
    ensures
        find_first(v + pat + x, pat) == Some(v.len() as int),
{
    let s = v + pat + x;
    assert(s.subrange(v.len() as int, v.len() + pat.len() as int) =~= pat);
    assert forall|i: int| 0 <= i < v.len() implies !occurs_at(s, pat, i) by {
        if occurs_at(s, pat, i) {
            if i + pat.len() <= v.len() {
                assert(v.subrange(i, i + pat.len()) =~= s.subrange(i, i + pat.len()));
                lemma_no_occurrence(v, pat, 0, i);
            } else {
                assert(pat.len() == 2 && i == v.len() - 1);
                assert(s.subrange(i, i + 2)[1] == s[v.len() as int]);
                assert(s[v.len() as int] == pat[0]);
                assert(pat[1] == pat[0]);
            }
        }
    }
    lemma_first_from_skips(s, pat, 0, v.len() as int);
}

/// No occurrence is found from `from` on means none at any `i` at or after it.
proof fn lemma_no_occurrence(s: Seq<char>, pat: Seq<char>, from: int, i: int)
    requires
        0 <= from <= i,
        find_first_from(s, pat, from) is None,
    ensures
        !occurs_at(s, pat, i),
    decreases i - from,
{
    if from < i && from <= s.len() {
        lemma_no_occurrence(s, pat, from + 1, i);
    } else if from < i {
        assert(!occurs_at(s, pat, i));
    }
}

/// Searching from `from` finds `k` when nothing occurs before it and `pat` occurs at it.
proof fn lemma_first_from_skips(s: Seq<char>, pat: Seq<char>, from: int, k: int)
    requires
        0 <= from <= k <= s.len(),
        occurs_at(s, pat, k),
        forall|i: int| from <= i < k ==> !occurs_at(s, pat, i),
    ensures
        find_first_from(s, pat, from) == Some(k),
    decreases k - from,
{
    if from < k {
        lemma_first_from_skips(s, pat, from + 1, k);
    }
}

/// An assignment line reads its operator from the line itself: `v += x` adds, `v -= x` (with no
/// `+=` anywhere) subtracts, and `v = x` (with neither) assigns, each splitting at that
/// operator's first occurrence.
pub proof fn law_assignment_operator(v: Seq<char>, x: Seq<char>)
    ensures
        find_first(v, "+="@) is None ==> assignment_parts(v + "+="@ + x) == Some((v, AssignOp::Add, x)),
        find_first(v + "-="@ + x, "+="@) is None && find_first(v, "-="@) is None
            ==> assignment_parts(v + "-="@ + x) == Some((v, AssignOp::Sub, x)),
        find_first(v + "="@ + x, "+="@) is None && find_first(v + "="@ + x, "-="@) is None
            && find_first(v, "="@) is None ==> assignment_parts(v + "="@ + x) == Some((v, AssignOp::Assign, x)),
{
    reveal_strlit("+=");
    reveal_strlit("-=");
    reveal_strlit("=");
    if find_first(v, "+="@) is None {
        lemma_first_after(v, "+="@, x);
        let s = v + "+="@ + x;
        assert(s.take(v.len() as int) =~= v);
        assert(s.skip(v.len() as int + 2) =~= x);
    }
    if find_first(v + "-="@ + x, "+="@) is None && find_first(v, "-="@) is None {
        lemma_first_after(v, "-="@, x);
        let s = v + "-="@ + x;
        assert(s.take(v.len() as int) =~= v);
        assert(s.skip(v.len() as int + 2) =~= x);
    }
    if find_first(v + "="@ + x, "+="@) is None && find_first(v + "="@ + x, "-="@) is None
        && find_first(v, "="@) is None {
        lemma_first_after(v, "="@, x);
        let s = v + "="@ + x;
        assert(s.take(v.len() as int) =~= v);
        assert(s.skip(v.len() as int + 1) =~= x);
    }
}

/// `$<name> <op> <expression>`, after `$`.
pub open spec fn assignment_of(rest: Seq<char>) -> Result<SpecStmtKind, Seq<char>> {
    match assignment_parts(rest) {
        None => Err("assignment requires '='"@),
        Some((v, op, x)) => match name_check(trim(v)) {
            Err(m) => Err(m),
            Ok(var) => match expression(trim(x)) {
                Err(m) => Err(m),
                Ok(value) => Ok(SpecStmtKind::Assign { var, op, value }),
            },
        },
    }
}

/// A menu choice header without its `:`: the choice text and the condition after its last
/// ` if `.
pub open spec fn choice_header(text: Seq<char>) -> Result<(Seq<char>, Option<crate::ast::SpecExpr>), Seq<char>> {
    match rsplit_once(text, " if "@) {
        None => Ok((text, None)),
        Some((choice, cond)) => match expression(trim(cond)) {
            Err(m) => Err(m),
            Ok(e) => Ok((trim_end(choice), Some(e))),
        },
    }
}

/// What a menu choice line says: its text id, its text and its condition.
pub open spec fn choice_line(text: Seq<char>) -> Result<(Option<Seq<char>>, Seq<char>, Option<crate::ast::SpecExpr>), Seq<char>> {
    match strip_suffix(text, ":"@) {
        None => Err("menu choice must end with ':'"@),
        Some(head) => match choice_header(head) {
            Err(m) => Err(m),
            Ok((choice, cond)) => match text_id_split(choice) {
                Err(m) => Err(m),
                Ok((id, rest)) => match quoted(rest) {
                    Err(m) => Err(m),
                    Ok(t) => Ok((id, t, cond)),
                },
            },
        },
    }
}

/// A statement that its own line makes up whole: everything but `menu:` and `if ...:`.
pub open spec fn line_statement(text: Seq<char>) -> Result<SpecStmtKind, Seq<char>> {
    if strip_prefix(text, "label "@) is Some && strip_suffix(strip_prefix(text, "label "@)->0, ":"@) is Some {
        match name_check(trim(strip_suffix(strip_prefix(text, "label "@)->0, ":"@)->0)) {
            Ok(n) => Ok(SpecStmtKind::Label { name: n }),
            Err(m) => Err(m),
        }
    } else if strip_prefix(text, "scene "@) is Some {
        match visual_tail(trim(strip_prefix(text, "scene "@)->0)) {
            Ok((image, transition)) => Ok(SpecStmtKind::Scene { image, transition }),
            Err(m) => Err(m),
        }
    } else if strip_prefix(text, "show "@) is Some {
        show_of(strip_prefix(text, "show "@)->0)
    } else if strip_prefix(text, "hide "@) is Some {
        match name_check(trim(strip_prefix(text, "hide "@)->0)) {
            Ok(n) => Ok(SpecStmtKind::Hide { tag: n }),
            Err(m) => Err(m),
        }
    } else if strip_prefix(text, "play music "@) is Some {
        match quoted(trim(strip_prefix(text, "play music "@)->0)) {
            Ok(p) => Ok(SpecStmtKind::PlayMusic { path: p }),
            Err(m) => Err(m),
        }
    } else if text == "stop music"@ {
        Ok(SpecStmtKind::StopMusic)
    } else if strip_prefix(text, "jump "@) is Some {
        match name_check(trim(strip_prefix(text, "jump "@)->0)) {
            Ok(n) => Ok(SpecStmtKind::Jump { label: n }),
            Err(m) => Err(m),
        }
    } else if text == "end"@ {
        Ok(SpecStmtKind::End)
    } else if strip_prefix(text, "$"@) is Some {
        assignment_of(trim(strip_prefix(text, "$"@)->0))
    } else {
        match say_of(text) {
            Some(r) => r,
            None => Err("unknown statement"@),
        }
    }
}

/// How an executable line statement relates to its model.
pub open spec fn kind_matches(r: Result<StmtKind, &'static str>, m: Result<SpecStmtKind, Seq<char>>) -> bool {
    match r {
        Ok(k) => m == Ok::<SpecStmtKind, Seq<char>>(crate::ast::stmt_kind_view(k)),
        Err(msg) => m == Err::<SpecStmtKind, Seq<char>>(msg@),
    }
}

fn opt_string(v: Option<Vec<char>>) -> (r: Option<String>)
    ensures
        crate::ast::opt_str_view(r) == (match v {
            Some(x) => Some(x@),
            None => None::<Seq<char>>,
        }),
{
    match v {
        Some(x) => Some(string_of(x.as_slice())),
        None => None,
    }
}

fn parse_text_id(s: &[char]) -> (r: Result<(Option<Vec<char>>, Vec<char>), &'static str>)
    ensures
        match r {
            Ok((id, rest)) => text_id_split(s@) == Ok::<(Option<Seq<char>>, Seq<char>), Seq<char>>((
                match id {
                    Some(x) => Some(x@),
                    None => None,
                },
                rest@,
            )),
            Err(m) => text_id_split(s@) == Err::<(Option<Seq<char>>, Seq<char>), Seq<char>>(m@),
        },
{
    if s.len() > 0 && s[0] == '[' {
        let k = find_char(s, ']');
        if k >= s.len() {
            return Err("unterminated text id");
        }
        let inner = slice_chars(s, 1, k);
        let id = trim_chars(inner.as_slice());
        if id.len() == 0 {
            return Err("empty text id");
        }
        let after = slice_chars(s, k + 1, s.len());
        assert(after@ =~= s@.skip(k + 1));
        Ok((Some(id), trim_start_chars(after.as_slice())))
    } else {
        let v = slice_chars(s, 0, s.len());
        assert(v@ =~= s@);
        Ok((None, v))
    }
}

fn parse_dialogue(s: &[char]) -> (r: Result<(Option<Vec<char>>, Vec<char>, TextEffect), &'static str>)
    ensures
        match r {
            Ok((id, t, e)) => dialogue_of(s@) == Ok::<(Option<Seq<char>>, Seq<char>, TextEffect), Seq<char>>((
                match id {
                    Some(x) => Some(x@),
                    None => None,
                },
                t@,
                e,
            )),
            Err(m) => dialogue_of(s@) == Err::<(Option<Seq<char>>, Seq<char>, TextEffect), Seq<char>>(m@),
        },
{
    match parse_text_id(s) {
        Err(m) => Err(m),
        Ok((id, rest)) => match parse_text_with_effect(rest.as_slice()) {
            Err(m) => Err(m),
            Ok((t, e)) => Ok((id, t, e)),
        },
    }
}

fn parse_say(text: &[char]) -> (r: Option<Result<StmtKind, &'static str>>)
    ensures
        match r {
            Some(k) => say_of(text@) matches Some(m) && kind_matches(k, m),
            None => say_of(text@) is None,
        },
{
    if text.len() > 0 && (text[0] == '"' || text[0] == '[') {
        return Some(
            match parse_dialogue(text) {
                Err(m) => Err(m),
                Ok((id, t, e)) => Ok(StmtKind::Say {
                    speaker: None,
                    text_id: opt_string(id),
                    text: string_of(t.as_slice()),
                    effect: e,
                }),
            },
        );
    }
    let q = find_char(text, '"');
    let head = slice_chars(text, 0, q);
    assert(head@ =~= text@.take(q as int));
    let b = find_char(head.as_slice(), '[');
    let sp = slice_chars(head.as_slice(), 0, b);
    assert(sp@ =~= head@.take(b as int));
    let speaker = trim_chars(sp.as_slice());
    if q >= text.len() || speaker.len() == 0 {
        return None;
    }
    let tail = slice_chars(text, b, text.len());
    assert(tail@ =~= text@.skip(b as int));
    let tt = trim_chars(tail.as_slice());
    Some(
        match parse_dialogue(tt.as_slice()) {
            Err(m) => Err(m),
            Ok((id, t, e)) => match check_name(speaker.as_slice()) {
                Err(m) => Err(m),
                Ok(n) => Ok(StmtKind::Say {
                    speaker: Some(string_of(n.as_slice())),
                    text_id: opt_string(id),
                    text: string_of(t.as_slice()),
                    effect: e,
                }),
            },
        },
    )
}

fn find_word(parts: &Vec<Vec<char>>, w: &str) -> (r: usize)
    ensures
        r == word_index(seq_view(parts@), w@),
        r <= parts@.len(),
{
    let ghost pv = seq_view(parts@);
    let mut i: usize = 0;
    while i < parts.len()
        invariant
            pv == seq_view(parts@),
            i <= parts@.len(),
            forall|j: int| 0 <= j < i ==> pv[j] != w@,
        decreases parts@.len() - i,
    {
        assert(pv[i as int] == parts@[i as int]@);
        if is_word(parts[i].as_slice(), w) {
            let ghost c = choose|c: int| 0 <= c < pv.len() && pv[c] == w@ && forall|j: int| 0 <= j < c ==> pv[j] != w@;
            assert(c == i as int) by {
                if c < i {
                } else if c > i {
                }
            }
            return i;
        }
        i = i + 1;
    }
    i
}

fn strings_between(parts: &Vec<Vec<char>>, from: usize, to: usize) -> (r: Vec<String>)
    requires
        from <= to <= parts@.len(),
    ensures
        r.deep_view() == seq_view(parts@).subrange(from as int, to as int),
{
    let mut r: Vec<String> = Vec::new();
    let mut i: usize = from;
    while i < to
        invariant
            from <= i <= to <= parts@.len(),
            seq_view(r@) == seq_view(parts@).subrange(from as int, i as int),
        decreases to - i,
    {
        let ghost before = seq_view(r@);
        r.push(string_of(parts[i].as_slice()));
        assert(seq_view(r@) =~= before.push(parts@[i as int]@));
        assert(seq_view(parts@).subrange(from as int, i + 1) =~= seq_view(parts@).subrange(from as int, i as int).push(parts@[i as int]@));
        i = i + 1;
    }
    proof {
        crate::text::lemma_strings_deep_view(r);
    }
    r
}

fn parse_show(rest: &[char]) -> (r: Result<StmtKind, &'static str>)
    ensures
        kind_matches(r, show_of(rest@)),
{
    match parse_visual_tail(rest) {
        Err(m) => Err(m),
        Ok((image, transition)) => {
            let parts = split_words(image.as_slice());
            let ghost pv = seq_view(parts@);
            let a = find_word(&parts, "at");
            if parts.len() == 0 {
                Err("show requires image name")
            } else if a < parts.len() {
                if a + 1 >= parts.len() {
                    Err("show at requires a position")
                } else if a == 0 {
                    Err("show requires image name")
                } else {
                    assert(pv[0] == parts@[0]@);
                    assert(pv[a + 1] == parts@[a + 1]@);
                    Ok(StmtKind::Show {
                        tag: string_of(parts[0].as_slice()),
                        attrs: strings_between(&parts, 1, a),
                        position: string_of(parts[a + 1].as_slice()),
                        transition,
                    })
                }
            } else {
                assert(pv[0] == parts@[0]@);
                assert(pv.subrange(1, pv.len() as int) =~= pv.skip(1));
                Ok(StmtKind::Show {
                    tag: string_of(parts[0].as_slice()),
                    attrs: strings_between(&parts, 1, parts.len()),
                    position: String::from_str("center"),
                    transition,
                })
            }
        },
    }
}

fn parse_assignment(rest: &[char]) -> (r: Result<StmtKind, &'static str>)
    ensures
        kind_matches(r, assignment_of(rest@)),
{
    let parts = match split_once_at(rest, "+=") {
        Some((v, x)) => Some((v, AssignOp::Add, x)),
        None => match split_once_at(rest, "-=") {
            Some((v, x)) => Some((v, AssignOp::Sub, x)),
            None => match split_once_at(rest, "=") {
                Some((v, x)) => Some((v, AssignOp::Assign, x)),
                None => None,
            },
        },
    };
    match parts {
        None => Err("assignment requires '='"),
        Some((v, op, x)) => {
            assert(assignment_parts(rest@) == Some((v@, op, x@)));
            let vt = trim_chars(v.as_slice());
            match check_name(vt.as_slice()) {
                Err(m) => Err(m),
                Ok(var) => {
                    let xt = trim_chars(x.as_slice());
                    match parse_expression(xt.as_slice()) {
                        Err(m) => Err(m),
                        Ok(value) => Ok(StmtKind::Assign { var: string_of(var.as_slice()), op, value }),
                    }
                },
            }
        },
    }
}

/// Reads a menu choice line; the error is a message.
pub fn parse_choice_line(text: &[char]) -> (r: Result<(Option<String>, String, Option<crate::ast::Expr>), &'static str>)
    ensures
        match r {
            Ok((id, t, c)) => choice_line(text@) == Ok::<
                (Option<Seq<char>>, Seq<char>, Option<crate::ast::SpecExpr>),
                Seq<char>,
            >((crate::ast::opt_str_view(id), t@, crate::ast::opt_expr_view(c))),
            Err(m) => choice_line(text@) == Err::<
                (Option<Seq<char>>, Seq<char>, Option<crate::ast::SpecExpr>),
                Seq<char>,
            >(m@),
        },
{
    let head = match strip_suffix_lit(text, ":") {
        None => return Err("menu choice must end with ':'"),
        Some(h) => h,
    };
    let (choice, cond) = match rsplit_once_at(head.as_slice(), " if ") {
        None => (head, None),
        Some((c, e)) => {
            let et = trim_chars(e.as_slice());
            match parse_expression(et.as_slice()) {
                Err(m) => return Err(m),
                Ok(x) => (trim_end_chars(c.as_slice()), Some(x)),
            }
        },
    };
    assert(choice_header(head@) == Ok::<(Seq<char>, Option<crate::ast::SpecExpr>), Seq<char>>(
        (choice@, crate::ast::opt_expr_view(cond)),
    ));
    match parse_text_id(choice.as_slice()) {
        Err(m) => Err(m),
        Ok((id, rest)) => match parse_quoted(rest.as_slice()) {
            Err(m) => Err(m),
            Ok(t) => Ok((opt_string(id), string_of(t.as_slice()), cond)),
        },
    }
}

fn parse_name_after(text: &[char], lit: &str) -> (r: Option<Result<String, &'static str>>)
    ensures
        match r {
            Some(Ok(n)) => strip_prefix(text@, lit@) is Some
                && name_check(trim(strip_prefix(text@, lit@)->0)) == Ok::<Seq<char>, Seq<char>>(n@),
            Some(Err(m)) => strip_prefix(text@, lit@) is Some
                && name_check(trim(strip_prefix(text@, lit@)->0)) == Err::<Seq<char>, Seq<char>>(m@),
            None => strip_prefix(text@, lit@) is None,
        },
{
    match strip_prefix_lit(text, lit) {
        None => None,
        Some(rest) => {
            let t = trim_chars(rest.as_slice());
            Some(
                match check_name(t.as_slice()) {
                    Ok(n) => Ok(string_of(n.as_slice())),
                    Err(m) => Err(m),
                },
            )
        },
    }
}

/// Reads a statement that its own line makes up whole.
pub fn parse_line_statement(text: &[char]) -> (r: Result<StmtKind, &'static str>)
    ensures
        kind_matches(r, line_statement(text@)),
{
    if let Some(rest) = strip_prefix_lit(text, "label ") {
        if let Some(inner) = strip_suffix_lit(rest.as_slice(), ":") {
            let t = trim_chars(inner.as_slice());
            return match check_name(t.as_slice()) {
                Ok(n) => Ok(StmtKind::Label { name: string_of(n.as_slice()) }),
                Err(m) => Err(m),
            };
        }
    }
    if let Some(rest) = strip_prefix_lit(text, "scene ") {
        let t = trim_chars(rest.as_slice());
        return match parse_visual_tail(t.as_slice()) {
            Ok((image, transition)) => Ok(StmtKind::Scene { image: string_of(image.as_slice()), transition }),
            Err(m) => Err(m),
        };
    }
    if let Some(rest) = strip_prefix_lit(text, "show ") {
        return parse_show(rest.as_slice());
    }
    match parse_name_after(text, "hide ") {
        Some(Ok(n)) => return Ok(StmtKind::Hide { tag: n }),
        Some(Err(m)) => return Err(m),
        None => {},
    }
    if let Some(rest) = strip_prefix_lit(text, "play music ") {
        let t = trim_chars(rest.as_slice());
        return match parse_quoted(t.as_slice()) {
            Ok(p) => Ok(StmtKind::PlayMusic { path: string_of(p.as_slice()) }),
            Err(m) => Err(m),
        };
    }
    if is_word(text, "stop music") {
        return Ok(StmtKind::StopMusic);
    }
    match parse_name_after(text, "jump ") {
        Some(Ok(n)) => return Ok(StmtKind::Jump { label: n }),
        Some(Err(m)) => return Err(m),
        None => {},
    }
    if is_word(text, "end") {
        return Ok(StmtKind::End);
    }
    if let Some(rest) = strip_prefix_lit(text, "$") {
        let t = trim_chars(rest.as_slice());
        return parse_assignment(t.as_slice());
    }
    match parse_say(text) {
        Some(k) => k,
        None => Err("unknown statement"),
    }
}

} // verus!
