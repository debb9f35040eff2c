//! Laws of the parser: reading on past errors changes nothing for a script without errors.
use vstd::prelude::*;
use crate::ast::{SpecStmt, SpecStmtKind};
use crate::parser::{
    block_at, choices_at, line_kind, menu_at, next_top, parsed, parsed_recovering, pos_at, recover_from, script_of_lines,
    source_lines, starts_chunk, statement_at, Recovered, SpecLine, SpecParseError,
};
use crate::syntax::{line_statement, say_of};
use crate::text::{has_prefix, strip_prefix, strip_suffix};

verus! {

/// Lines a statement at indentation `ind` may take after its first: deeper lines, and the
/// `else:` of a conditional at its own indentation.
pub open spec fn inner_line(l: SpecLine, ind: int) -> bool {
    l.indent > ind || (l.indent == ind && l.text == "else:"@)
}

// ---------------------------------------------------------------------------
// How far a successful read reaches.
// ---------------------------------------------------------------------------

proof fn lemma_block_extent(f: Seq<char>, lv: Seq<SpecLine>, i: int, ind: int)
    requires
        0 <= i <= lv.len(),
        block_at(f, lv, i, ind) is Ok,
    ensures
        i <= block_at(f, lv, i, ind)->Ok_0.1 <= lv.len(),
        forall|k: int| i <= k < block_at(f, lv, i, ind)->Ok_0.1 ==> #[trigger] lv[k].indent >= ind,
        block_at(f, lv, i, ind)->Ok_0.1 < lv.len() ==> lv[block_at(f, lv, i, ind)->Ok_0.1].indent < ind,
    decreases lv.len() - i, 3int,
{
    if i >= lv.len() || lv[i].indent < ind {
    } else if lv[i].indent > ind {
    } else {
        lemma_statement_extent(f, lv, i, ind);
        let (st, j) = statement_at(f, lv, i, ind)->Ok_0;
        if st.kind is Label && j < lv.len() && lv[j].indent > ind {
            lemma_block_extent(f, lv, j, lv[j].indent);
            let k = block_at(f, lv, j, lv[j].indent)->Ok_0.1;
            lemma_block_extent(f, lv, k, ind);
        } else {
            lemma_block_extent(f, lv, j, ind);
        }
    }
}

proof fn lemma_statement_extent(f: Seq<char>, lv: Seq<SpecLine>, i: int, ind: int)
    requires
        0 <= i < lv.len(),
        lv[i].indent == ind,
        statement_at(f, lv, i, ind) is Ok,
    ensures
        i < statement_at(f, lv, i, ind)->Ok_0.1 <= lv.len(),
        forall|k: int| i < k < statement_at(f, lv, i, ind)->Ok_0.1 ==> inner_line(#[trigger] lv[k], ind),
    decreases lv.len() - i, 2int,
{
    let text = lv[i].text;
    if text == "menu:"@ {
        lemma_menu_extent(f, lv, i + 1, ind + 4);
    } else if strip_prefix(text, "if "@) is Some && strip_suffix(strip_prefix(text, "if "@)->0, ":"@) is Some {
        lemma_block_extent(f, lv, i + 1, ind + 4);
        let j = block_at(f, lv, i + 1, ind + 4)->Ok_0.1;
        let has_else = j < lv.len() && lv[j].indent == ind && lv[j].text == "else:"@;
        if has_else {
            lemma_block_extent(f, lv, j + 1, ind + 4);
        }
    }
}

proof fn lemma_menu_extent(f: Seq<char>, lv: Seq<SpecLine>, i: int, ind: int)
    requires
        0 <= i <= lv.len(),
        menu_at(f, lv, i, ind) is Ok,
    ensures
        i <= menu_at(f, lv, i, ind)->Ok_0.1 <= lv.len(),
        forall|k: int| i <= k < menu_at(f, lv, i, ind)->Ok_0.1 ==> #[trigger] lv[k].indent >= ind,
    decreases lv.len() - i, 1int,
{
    lemma_choices_extent(f, lv, i, ind);
}

proof fn lemma_choices_extent(f: Seq<char>, lv: Seq<SpecLine>, i: int, ind: int)
    requires
        0 <= i <= lv.len(),
        choices_at(f, lv, i, ind) is Ok,
    ensures
        i <= choices_at(f, lv, i, ind)->Ok_0.1 <= lv.len(),
        forall|k: int| i <= k < choices_at(f, lv, i, ind)->Ok_0.1 ==> #[trigger] lv[k].indent >= ind,
    decreases lv.len() - i, 0int,
{
    if i >= lv.len() || lv[i].indent < ind {
    } else if lv[i].indent != ind {
    } else if crate::syntax::choice_line(lv[i].text) is Ok {
        lemma_block_extent(f, lv, i + 1, ind + 4);
        let (body, j) = block_at(f, lv, i + 1, ind + 4)->Ok_0;
        if body.len() > 0 {
            lemma_choices_extent(f, lv, j, ind);
        }
    }
}

// ---------------------------------------------------------------------------
// `else:` alone is no statement.
// ---------------------------------------------------------------------------

proof fn lemma_else_is_no_statement(f: Seq<char>, lv: Seq<SpecLine>, i: int, ind: int)
    requires
        0 <= i < lv.len(),
        lv[i].text == "else:"@,
    ensures
        statement_at(f, lv, i, ind) is Err,
{
    reveal_strlit("else:");
    reveal_strlit("menu:");
    reveal_strlit("if ");
    reveal_strlit("label ");
    reveal_strlit("scene ");
    reveal_strlit("show ");
    reveal_strlit("hide ");
    reveal_strlit("play music ");
    reveal_strlit("stop music");
    reveal_strlit("jump ");
    reveal_strlit("end");
    reveal_strlit("$");
    let t = lv[i].text;
    assert(t.len() == 5);
    assert(t[0] == 'e' && t[1] == 'l' && t[2] == 's' && t[3] == 'e' && t[4] == ':');
    assert(t != "menu:"@) by {
        assert("menu:"@[0] == 'm');
    }
    assert(!has_prefix(t, "if "@)) by {
        assert(t.take(3)[0] != "if "@[0]);
    }
    assert(!has_prefix(t, "label "@));
    assert(!has_prefix(t, "scene "@));
    assert(!has_prefix(t, "show "@)) by {
        assert(t.take(5)[0] != "show "@[0]);
    }
    assert(!has_prefix(t, "hide "@)) by {
        assert(t.take(5)[0] != "hide "@[0]);
    }
    assert(!has_prefix(t, "play music "@));
    assert(t != "stop music"@);
    assert(!has_prefix(t, "jump "@)) by {
        assert(t.take(5)[0] != "jump "@[0]);
    }
    assert(t != "end"@);
    assert(!has_prefix(t, "$"@)) by {
        assert(t.take(1)[0] != "$"@[0]);
    }
    assert(!(exists|k: int| 0 <= k < t.len() && t[k] == '"'));
    assert(say_of(t) is None);
    assert(line_statement(t) is Err);
    reveal(line_kind);
}


// ---------------------------------------------------------------------------
// Reading inside a window of lines.
// ---------------------------------------------------------------------------

/// Where a window of lines may end: at the last line, or before a line that starts a chunk.
pub open spec fn window_end(lv: Seq<SpecLine>, b: int) -> bool {
    b == lv.len() || (0 <= b < lv.len() && starts_chunk(lv[b]))
}

#[verifier::spinoff_prover]
#[verifier::rlimit(50)]
proof fn lemma_block_window(f: Seq<char>, lv: Seq<SpecLine>, a: int, b: int, i: int, ind: int)
    requires
        0 <= a <= i <= b <= lv.len(),
        window_end(lv, b),
        ind >= 1,
        block_at(f, lv, i, ind) is Ok,
    ensures
        block_at(f, lv, i, ind)->Ok_0.1 <= b,
        block_at(f, lv.subrange(a, b), i - a, ind) == (Ok::<(Seq<SpecStmt>, int), SpecParseError>((
            block_at(f, lv, i, ind)->Ok_0.0,
            block_at(f, lv, i, ind)->Ok_0.1 - a,
        ))),
    decreases lv.len() - i, 3int,
{
    let sub = lv.subrange(a, b);
    if i == b {
    } else {
        assert(sub[i - a] == lv[i]);
        if lv[i].indent < ind {
        } else if lv[i].indent > ind {
        } else {
            lemma_statement_extent(f, lv, i, ind);
            lemma_statement_window(f, lv, a, b, i, ind);
            let (st, j) = statement_at(f, lv, i, ind)->Ok_0;
            if j < b {
                assert(sub[j - a] == lv[j]);
            }
            if st.kind is Label && j < lv.len() && lv[j].indent > ind {
                lemma_block_window(f, lv, a, b, j, lv[j].indent);
                lemma_block_extent(f, lv, j, lv[j].indent);
                let k = block_at(f, lv, j, lv[j].indent)->Ok_0.1;
                lemma_block_window(f, lv, a, b, k, ind);
            } else {
                lemma_block_window(f, lv, a, b, j, ind);
            }
        }
    }
}

proof fn lemma_statement_window(f: Seq<char>, lv: Seq<SpecLine>, a: int, b: int, i: int, ind: int)
    requires
        0 <= a <= i < b <= lv.len(),
        window_end(lv, b),
        ind >= 0,
        statement_at(f, lv, i, ind) is Ok,
    ensures
        statement_at(f, lv, i, ind)->Ok_0.1 <= b,
        statement_at(f, lv.subrange(a, b), i - a, ind) == (Ok::<(SpecStmt, int), SpecParseError>((
            statement_at(f, lv, i, ind)->Ok_0.0,
            statement_at(f, lv, i, ind)->Ok_0.1 - a,
        ))),
    decreases lv.len() - i, 2int,
{
    let text = lv[i].text;
    if text == "menu:"@ {
        lemma_menu_window(f, lv, a, b, i + 1, ind + 4);
        lemma_window_line(lv, a, b, i);
        lemma_menu_statement_alike(f, lv, i, lv.subrange(a, b), i - a, ind);
    } else if strip_prefix(text, "if "@) is Some && strip_suffix(strip_prefix(text, "if "@)->0, ":"@) is Some {
        lemma_block_window(f, lv, a, b, i + 1, ind + 4);
        lemma_block_extent(f, lv, i + 1, ind + 4);
        let j = block_at(f, lv, i + 1, ind + 4)->Ok_0.1;
        let has_else = j < lv.len() && lv[j].indent == ind && lv[j].text == "else:"@;
        if has_else {
            lemma_block_window(f, lv, a, b, j + 1, ind + 4);
        }
        lemma_statement_window_if(f, lv, a, b, i, ind);
    } else {
        lemma_statement_window_line(f, lv, a, b, i, ind);
    }
}

proof fn lemma_window_line(lv: Seq<SpecLine>, a: int, b: int, k: int)
    requires
        0 <= a <= k < b <= lv.len(),
    ensures
        lv.subrange(a, b)[k - a] == lv[k],
        (k - a) + 1 == k + 1 - a,
{
}

/// Two menus whose first lines agree and whose choices read alike read alike.
proof fn lemma_menu_statement_alike(
    f: Seq<char>,
    l1: Seq<SpecLine>,
    i1: int,
    l2: Seq<SpecLine>,
    i2: int,
    ind: int,
)
    requires
        0 <= i1 < l1.len(),
        0 <= i2 < l2.len(),
        l1[i1] == l2[i2],
        l1[i1].text == "menu:"@,
        menu_at(f, l1, i1 + 1, ind + 4) is Ok,
        menu_at(f, l2, i2 + 1, ind + 4) == (Ok::<(Seq<crate::ast::SpecChoice>, int), SpecParseError>((
            menu_at(f, l1, i1 + 1, ind + 4)->Ok_0.0,
            menu_at(f, l1, i1 + 1, ind + 4)->Ok_0.1 - (i1 - i2),
        ))),
    ensures
        statement_at(f, l1, i1, ind) is Ok,
        statement_at(f, l2, i2, ind) == (Ok::<(SpecStmt, int), SpecParseError>((
            statement_at(f, l1, i1, ind)->Ok_0.0,
            statement_at(f, l1, i1, ind)->Ok_0.1 - (i1 - i2),
        ))),
{
    assert(pos_at(f, l1, i1) == pos_at(f, l2, i2));
}

#[verifier::spinoff_prover]
#[verifier::rlimit(100)]
proof fn lemma_statement_window_if(f: Seq<char>, lv: Seq<SpecLine>, a: int, b: int, i: int, ind: int)
    requires
        0 <= a <= i < b <= lv.len(),
        window_end(lv, b),
        ind >= 0,
        lv[i].text != "menu:"@,
        strip_prefix(lv[i].text, "if "@) is Some,
        strip_suffix(strip_prefix(lv[i].text, "if "@)->0, ":"@) is Some,
        statement_at(f, lv, i, ind) is Ok,
        block_at(f, lv, i + 1, ind + 4) is Ok,
        i + 1 <= block_at(f, lv, i + 1, ind + 4)->Ok_0.1 <= b,
        block_at(f, lv.subrange(a, b), i + 1 - a, ind + 4) == (Ok::<(Seq<SpecStmt>, int), SpecParseError>((
            block_at(f, lv, i + 1, ind + 4)->Ok_0.0,
            block_at(f, lv, i + 1, ind + 4)->Ok_0.1 - a,
        ))),
        ({
            let j = block_at(f, lv, i + 1, ind + 4)->Ok_0.1;
            (j < lv.len() && lv[j].indent == ind && lv[j].text == "else:"@) ==> {
                &&& block_at(f, lv, j + 1, ind + 4) is Ok
                &&& block_at(f, lv, j + 1, ind + 4)->Ok_0.1 <= b
                &&& block_at(f, lv.subrange(a, b), j + 1 - a, ind + 4) == (Ok::<(Seq<SpecStmt>, int), SpecParseError>((
                    block_at(f, lv, j + 1, ind + 4)->Ok_0.0,
                    block_at(f, lv, j + 1, ind + 4)->Ok_0.1 - a,
                )))
            }
        }),
    ensures
        statement_at(f, lv, i, ind)->Ok_0.1 <= b,
        statement_at(f, lv.subrange(a, b), i - a, ind) == (Ok::<(SpecStmt, int), SpecParseError>((
            statement_at(f, lv, i, ind)->Ok_0.0,
            statement_at(f, lv, i, ind)->Ok_0.1 - a,
        ))),
{
    let sub = lv.subrange(a, b);
    assert(sub[i - a] == lv[i]);
    assert(pos_at(f, sub, i - a) == pos_at(f, lv, i));
    let j = block_at(f, lv, i + 1, ind + 4)->Ok_0.1;
    if j < b {
        assert(sub[j - a] == lv[j]);
    } else if j < lv.len() {
        assert(starts_chunk(lv[j]));
    }
}

#[verifier::spinoff_prover]
#[verifier::rlimit(60)]
proof fn lemma_statement_window_line(f: Seq<char>, lv: Seq<SpecLine>, a: int, b: int, i: int, ind: int)
    requires
        0 <= a <= i < b <= lv.len(),
        lv[i].text != "menu:"@,
        !(strip_prefix(lv[i].text, "if "@) is Some && strip_suffix(strip_prefix(lv[i].text, "if "@)->0, ":"@) is Some),
        statement_at(f, lv, i, ind) is Ok,
    ensures
        statement_at(f, lv, i, ind)->Ok_0.1 <= b,
        statement_at(f, lv.subrange(a, b), i - a, ind) == (Ok::<(SpecStmt, int), SpecParseError>((
            statement_at(f, lv, i, ind)->Ok_0.0,
            statement_at(f, lv, i, ind)->Ok_0.1 - a,
        ))),
{
    let sub = lv.subrange(a, b);
    assert(sub[i - a] == lv[i]);
    assert(pos_at(f, sub, i - a) == pos_at(f, lv, i));
}

proof fn lemma_menu_window(f: Seq<char>, lv: Seq<SpecLine>, a: int, b: int, i: int, ind: int)
    requires
        0 <= a <= i <= b <= lv.len(),
        window_end(lv, b),
        ind >= 1,
        menu_at(f, lv, i, ind) is Ok,
    ensures
        menu_at(f, lv, i, ind)->Ok_0.1 <= b,
        menu_at(f, lv.subrange(a, b), i - a, ind) == (Ok::<(Seq<crate::ast::SpecChoice>, int), SpecParseError>((
            menu_at(f, lv, i, ind)->Ok_0.0,
            menu_at(f, lv, i, ind)->Ok_0.1 - a,
        ))),
    decreases lv.len() - i, 1int,
{
    lemma_choices_window(f, lv, a, b, i, ind);
}

proof fn lemma_choices_window(f: Seq<char>, lv: Seq<SpecLine>, a: int, b: int, i: int, ind: int)
    requires
        0 <= a <= i <= b <= lv.len(),
        window_end(lv, b),
        ind >= 1,
        choices_at(f, lv, i, ind) is Ok,
    ensures
        choices_at(f, lv, i, ind)->Ok_0.1 <= b,
        choices_at(f, lv.subrange(a, b), i - a, ind) == (Ok::<(Seq<crate::ast::SpecChoice>, int), SpecParseError>((
            choices_at(f, lv, i, ind)->Ok_0.0,
            choices_at(f, lv, i, ind)->Ok_0.1 - a,
        ))),
    decreases lv.len() - i, 0int,
{
    let sub = lv.subrange(a, b);
    if i == b {
    } else {
        assert(sub[i - a] == lv[i]);
        assert(pos_at(f, sub, i - a) == pos_at(f, lv, i));
        if lv[i].indent < ind {
        } else if lv[i].indent != ind {
        } else if crate::syntax::choice_line(lv[i].text) is Ok {
            lemma_block_window(f, lv, a, b, i + 1, ind + 4);
            lemma_block_extent(f, lv, i + 1, ind + 4);
            let (body, j) = block_at(f, lv, i + 1, ind + 4)->Ok_0;
            if body.len() > 0 {
                lemma_choices_window(f, lv, a, b, j, ind);
            }
        }
    }
}

// ---------------------------------------------------------------------------
// A script without errors, read one chunk at a time.
// ---------------------------------------------------------------------------

proof fn lemma_next_top_at(lv: Seq<SpecLine>, i: int, e: int)
    requires
        0 <= i <= e <= lv.len(),
        window_end(lv, e),
        forall|k: int| i <= k < e ==> !starts_chunk(#[trigger] lv[k]),
    ensures
        next_top(lv, i) == e,
    decreases e - i,
{
    if i < e {
        lemma_next_top_at(lv, i + 1, e);
    }
}

/// A read of the top-level block that reaches the last line goes on at `e` only where a
/// chunk starts.
proof fn lemma_top_continues(f: Seq<char>, lv: Seq<SpecLine>, e: int)
    requires
        0 <= e <= lv.len(),
        block_at(f, lv, e, 0) is Ok,
        block_at(f, lv, e, 0)->Ok_0.1 == lv.len(),
    ensures
        window_end(lv, e),
{
    if e < lv.len() {
        if lv[e].text == "else:"@ {
            lemma_else_is_no_statement(f, lv, e, 0);
        }
    }
}

/// The first chunk of a top-level read that reaches the last line: it parses alone to the
/// statements that the read takes from it.
#[verifier::spinoff_prover]
#[verifier::rlimit(50)]
proof fn lemma_first_chunk(f: Seq<char>, lv: Seq<SpecLine>, i: int) -> (e: int)
    requires
        0 <= i < lv.len(),
        starts_chunk(lv[i]),
        block_at(f, lv, i, 0) is Ok,
        block_at(f, lv, i, 0)->Ok_0.1 == lv.len(),
    ensures
        i < e <= lv.len(),
        window_end(lv, e),
        forall|k: int| i < k < e ==> !starts_chunk(#[trigger] lv[k]),
        block_at(f, lv, e, 0) is Ok,
        block_at(f, lv, e, 0)->Ok_0.1 == lv.len(),
        script_of_lines(f, lv.subrange(i, e)) is Ok,
        block_at(f, lv, i, 0)->Ok_0.0 == script_of_lines(f, lv.subrange(i, e))->Ok_0 + block_at(f, lv, e, 0)->Ok_0.0,
{
    lemma_statement_extent(f, lv, i, 0);
    let (st, j) = statement_at(f, lv, i, 0)->Ok_0;
    if st.kind is Label && j < lv.len() && lv[j].indent > 0 {
        let ind = lv[j].indent;
        lemma_block_extent(f, lv, j, ind);
        let (subs, k) = block_at(f, lv, j, ind)->Ok_0;
        lemma_top_continues(f, lv, k);
        assert forall|m: int| i < m < k implies !starts_chunk(#[trigger] lv[m]) by {
            if m < j {
                assert(inner_line(lv[m], 0));
            } else {
                assert(lv[m].indent >= ind);
            }
        }
        lemma_statement_window(f, lv, i, k, i, 0);
        lemma_block_window(f, lv, i, k, j, ind);
        let c = lv.subrange(i, k);
        assert(c[0] == lv[i]);
        assert(c[j - i] == lv[j]);
        assert(block_at(f, c, k - i, 0) == (Ok::<(Seq<SpecStmt>, int), SpecParseError>((Seq::empty(), k - i))));
        assert(block_at(f, c, 0, 0) == (Ok::<(Seq<SpecStmt>, int), SpecParseError>((seq![st] + subs + Seq::empty(), k - i))));
        assert(seq![st] + subs + Seq::<SpecStmt>::empty() == seq![st] + subs);
        assert(seq![st] + subs + block_at(f, lv, k, 0)->Ok_0.0 == (seq![st] + subs) + block_at(f, lv, k, 0)->Ok_0.0);
        k
    } else {
        lemma_top_continues(f, lv, j);
        assert forall|m: int| i < m < j implies !starts_chunk(#[trigger] lv[m]) by {
            assert(inner_line(lv[m], 0));
        }
        lemma_statement_window(f, lv, i, j, i, 0);
        let c = lv.subrange(i, j);
        assert(c[0] == lv[i]);
        assert(block_at(f, c, j - i, 0) == (Ok::<(Seq<SpecStmt>, int), SpecParseError>((Seq::empty(), j - i))));
        assert(block_at(f, c, 0, 0) == (Ok::<(Seq<SpecStmt>, int), SpecParseError>((seq![st] + Seq::empty(), j - i))));
        assert(seq![st] + Seq::<SpecStmt>::empty() == seq![st]);
        j
    }
}

/// Reading one chunk at a time from a chunk start, where the top-level read reaches the
/// last line, gives what that read gives, and no error.
proof fn lemma_recover_whole(f: Seq<char>, lv: Seq<SpecLine>, i: int)
    requires
        0 <= i <= lv.len(),
        window_end(lv, i),
        block_at(f, lv, i, 0) is Ok,
        block_at(f, lv, i, 0)->Ok_0.1 == lv.len(),
    ensures
        recover_from(f, lv, i) == (Recovered { statements: block_at(f, lv, i, 0)->Ok_0.0, errors: Seq::empty() }),
    decreases lv.len() - i,
{
    if i < lv.len() {
        let e = lemma_first_chunk(f, lv, i);
        lemma_next_top_at(lv, i + 1, e);
        lemma_recover_whole(f, lv, e);
    }
}

/// A script that parses without error reads the same with reading on past errors: the
/// same statements, and no error.
pub proof fn law_recovering_agrees_with_strict(file: Seq<char>, source: Seq<char>)
    requires
        parsed(file, source) is Ok,
    ensures
        parsed_recovering(file, source) == (Recovered { statements: parsed(file, source)->Ok_0, errors: Seq::empty() }),
{
    let lv = source_lines(source);
    lemma_block_extent(file, lv, 0, 0);
    if lv.len() > 0 {
        let j = block_at(file, lv, 0, 0)->Ok_0.1;
        assert(j == lv.len());
        lemma_top_continues(file, lv, 0);
    }
    lemma_recover_whole(file, lv, 0);
}

} // verus!
