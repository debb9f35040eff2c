//! The script parser: lines, indentation blocks, menus and conditionals.
use vstd::prelude::*;
use crate::ast::{
    Choice, Script, SourcePos, SpecChoice, SpecSourcePos, SpecStmt, SpecStmtKind, Stmt, StmtKind,
    choices_view, stmts_view, lemma_choices_view, lemma_stmts_view,
};
use crate::expression::{expression, parse_expression};
use crate::lexer::{
    blank, count_spaces, is_blank, is_word, space_prefix_len, strip_comment, trim, trim_chars,
    trim_end, trim_end_chars, without_comment,
};
use crate::syntax::{choice_line, line_statement, parse_choice_line, parse_line_statement, strip_prefix_lit, strip_suffix_lit};
use crate::text::{chars_of, seq_view, slice_chars, split_chars, split_on, string_of, strip_prefix, strip_suffix};

verus! {

/// Script parse error: where and what.
#[derive(Clone, Debug, PartialEq, Eq)]
pub struct ParseError {
    pub pos: SourcePos,
    pub message: String,
}

/// Model of a parse error.
pub struct SpecParseError {
    pub pos: SpecSourcePos,
    pub message: Seq<char>,
}

impl View for ParseError {
    type V = SpecParseError;

    open spec fn view(&self) -> SpecParseError {
        SpecParseError { pos: self.pos@, message: self.message@ }
    }
}

impl ParseError {
    /// Renders as `file:line:column: message`.
    pub fn render(&self) -> (r: String)
        ensures
            r@ == crate::diagnostics::rendered(crate::diagnostics::SpecDiagnostic {
                pos: self.pos@,
                message: self.message@,
            }),
    {
        crate::diagnostics::Diagnostic::new(self.pos.duplicate(), self.message.clone()).render()
    }
}

// ---------------------------------------------------------------------------
// Lines.
// ---------------------------------------------------------------------------

/// A line that holds a statement: its number from 1, its indentation in spaces, and its
/// text without the indentation, the comment and trailing white space.
pub struct SpecLine {
    pub number: int,
    pub indent: int,
    pub text: Seq<char>,
}

/// A piece without one trailing carriage return.
pub open spec fn strip_cr(p: Seq<char>) -> Seq<char> {
    if p.len() > 0 && p.last() == '\r' { p.drop_last() } else { p }
}

/// The lines of a text, as `str::lines` gives them: split at `\n`, a `\r` before a `\n`
/// dropped, no line after a final `\n`.
pub open spec fn raw_lines(s: Seq<char>) -> Seq<Seq<char>> {
    let parts = split_on(s, '\n');
    let n = parts.len() as int;
    let m = if parts[n - 1].len() == 0 { n - 1 } else { n };
    Seq::new(m as nat, |i: int| if i < n - 1 { strip_cr(parts[i]) } else { parts[i] })
}

/// The statement line that raw line number `number` makes, if it is not blank once its
/// comment is removed.
pub open spec fn line_of(raw: Seq<char>, number: int) -> Option<SpecLine> {
    let wc = without_comment(raw);
    if blank(wc) {
        None
    } else {
        let ind = space_prefix_len(wc) as int;
        Some(SpecLine { number, indent: ind, text: trim_end(wc.skip(ind)) })
    }
}

/// The statement lines among the first `k` raw lines.
pub open spec fn lines_upto(raw: Seq<Seq<char>>, k: int) -> Seq<SpecLine>
    decreases k,
{
    if k <= 0 || k > raw.len() {
        Seq::empty()
    } else {
        let prev = lines_upto(raw, k - 1);
        match line_of(raw[k - 1], k) {
            Some(l) => prev.push(l),
            None => prev,
        }
    }
}

/// The statement lines of a source text.
pub open spec fn source_lines(s: Seq<char>) -> Seq<SpecLine> {
    lines_upto(raw_lines(s), raw_lines(s).len() as int)
}

struct Line {
    number: usize,
    indent: usize,
    text: Vec<char>,
}

impl View for Line {
    type V = SpecLine;

    closed spec fn view(&self) -> SpecLine {
        SpecLine { number: self.number as int, indent: self.indent as int, text: self.text@ }
    }
}

/// Room left above every indentation for the arithmetic on it.
pub open spec fn indent_room(ls: Seq<SpecLine>) -> bool {
    forall|k: int| 0 <= k < ls.len() ==> 0 <= #[trigger] ls[k].indent && ls[k].indent + 16 <= usize::MAX
        && 1 <= ls[k].number <= usize::MAX
}

proof fn lemma_split_on_pieces(s: Seq<char>, sep: char)
    ensures
        forall|i: int| 0 <= i < split_on(s, sep).len() ==> #[trigger] split_on(s, sep)[i].len() <= s.len(),
    decreases s.len(),
{
    if s.len() > 0 {
        lemma_split_on_pieces(s.drop_last(), sep);
        crate::text::lemma_split_on_nonempty(s.drop_last(), sep);
    }
}

fn strip_cr_exec(p: &[char]) -> (r: Vec<char>)
    ensures
        r@ == strip_cr(p@),
{
    if p.len() > 0 && p[p.len() - 1] == '\r' {
        let v = slice_chars(p, 0, p.len() - 1);
        assert(v@ =~= p@.drop_last());
        v
    } else {
        let v = slice_chars(p, 0, p.len());
        assert(v@ =~= p@);
        v
    }
}

fn source_lines_exec(src: &[char]) -> (r: Vec<Line>)
    requires
        src@.len() + 16 <= usize::MAX,
    ensures
        seq_view(r@) == source_lines(src@),
        indent_room(seq_view(r@)),
{
    let parts = split_chars(src, '\n');
    let ghost pv = seq_view(parts@);
    proof {
        crate::text::lemma_split_on_nonempty(src@, '\n');
        lemma_split_on_pieces(src@, '\n');
    }
    let n = parts.len();
    assert(pv[n - 1] == parts@[n - 1]@);
    let m = if parts[n - 1].len() == 0 { n - 1 } else { n };
    let ghost raw = raw_lines(src@);
    assert(raw.len() == m);
    let mut out: Vec<Line> = Vec::new();
    let mut k: usize = 0;
    while k < m
        invariant
            pv == seq_view(parts@),
            pv == split_on(src@, '\n'),
            n == parts@.len(),
            n >= 1,
            m <= n,
            raw == raw_lines(src@),
            raw.len() == m,
            src@.len() + 16 <= usize::MAX,
            forall|i: int| 0 <= i < pv.len() ==> #[trigger] pv[i].len() <= src@.len(),
            k <= m,
            seq_view(out@) == lines_upto(raw, k as int),
            indent_room(seq_view(out@)),
        decreases m - k,
    {
        assert(pv[k as int] == parts@[k as int]@);
        let r = if k < n - 1 { strip_cr_exec(parts[k].as_slice()) } else { slice_chars(parts[k].as_slice(), 0, parts[k].len()) };
        assert(r@ =~= raw[k as int]);
        let wc = strip_comment(r.as_slice());
        let ghost before = seq_view(out@);
        if !is_blank(wc.as_slice()) {
            let ind = count_spaces(wc.as_slice());
            let body = slice_chars(wc.as_slice(), ind, wc.len());
            assert(body@ =~= wc@.skip(ind as int));
            let text = trim_end_chars(body.as_slice());
            out.push(Line { number: k + 1, indent: ind, text });
            assert(seq_view(out@) =~= before.push(line_of(raw[k as int], k + 1)->0));
        }
        k = k + 1;
    }
    out
}

// ---------------------------------------------------------------------------
// The grammar of blocks.
// ---------------------------------------------------------------------------

/// The position of a line's first character.
pub open spec fn pos_at(f: Seq<char>, ls: Seq<SpecLine>, i: int) -> SpecSourcePos {
    SpecSourcePos { file: f, line: ls[i].number as usize, column: (ls[i].indent + 1) as usize }
}

/// An error at a line.
pub open spec fn err_at(f: Seq<char>, ls: Seq<SpecLine>, i: int, m: Seq<char>) -> SpecParseError {
    SpecParseError { pos: pos_at(f, ls, i), message: m }
}

/// What reading statements gives: the statements and the index of the next line.
pub type BlockRead = Result<(Seq<SpecStmt>, int), SpecParseError>;

/// What reading one statement gives: the statement and the index of the next line.
pub type StmtRead = Result<(SpecStmt, int), SpecParseError>;

/// What reading menu choices gives: the choices and the index of the next line.
pub type MenuRead = Result<(Seq<SpecChoice>, int), SpecParseError>;

/// The statements of a block at indentation `ind`, from line `i` on: it ends before the
/// first line indented less; a line indented more is an error, except the lines after a
/// label that are indented more, which form a block of their own whose statements follow
/// the label.
pub open spec fn block_at(f: Seq<char>, ls: Seq<SpecLine>, i: int, ind: int) -> BlockRead
    decreases ls.len() - i, 3int,
{
    if i < 0 || i >= ls.len() || ls[i].indent < ind {
        Ok((Seq::empty(), i))
    } else if ls[i].indent > ind {
        Err(err_at(f, ls, i, "unexpected indented block"@))
    } else {
        match statement_at(f, ls, i, ind) {
            Err(e) => Err(e),
            Ok((st, j)) => if !(i < j <= ls.len()) {
                Ok((Seq::empty(), i))
            } else if st.kind is Label && j < ls.len() && ls[j].indent > ind {
                match block_at(f, ls, j, ls[j].indent) {
                    Err(e) => Err(e),
                    Ok((sub, k)) => if !(j <= k <= ls.len()) {
                        Ok((Seq::empty(), i))
                    } else {
                        match block_at(f, ls, k, ind) {
                            Err(e) => Err(e),
                            Ok((rest, m)) => Ok((seq![st] + sub + rest, m)),
                        }
                    },
                }
            } else {
                match block_at(f, ls, j, ind) {
                    Err(e) => Err(e),
                    Ok((rest, m)) => Ok((seq![st] + rest, m)),
                }
            },
        }
    }
}

/// What a line that is neither a menu nor a conditional states.
#[verifier::opaque]
pub open spec fn line_kind(text: Seq<char>) -> Result<SpecStmtKind, Seq<char>> {
    line_statement(text)
}

/// The condition of an `if` line.
#[verifier::opaque]
pub open spec fn condition_of(text: Seq<char>) -> Result<crate::ast::SpecExpr, Seq<char>> {
    expression(text)
}

/// The statement at line `i`, in a block at indentation `ind`: `menu:` with its choices,
/// `if <condition>:` with its block and an optional `else:` block, or a line statement.
pub open spec fn statement_at(f: Seq<char>, ls: Seq<SpecLine>, i: int, ind: int) -> StmtRead
    decreases ls.len() - i, 2int,
{
    if i < 0 || i >= ls.len() {
        Err(SpecParseError { pos: SpecSourcePos { file: f, line: 1, column: 1 }, message: Seq::empty() })
    } else {
        let text = ls[i].text;
        let pos = pos_at(f, ls, i);
        if text == "menu:"@ {
            match menu_at(f, ls, i + 1, ind + 4) {
                Err(e) => Err(e),
                Ok((cs, k)) => Ok((SpecStmt { kind: SpecStmtKind::Menu { choices: cs }, pos }, k)),
            }
        } else if strip_prefix(text, "if "@) is Some && strip_suffix(strip_prefix(text, "if "@)->0, ":"@) is Some {
            let cond_text = trim(strip_suffix(strip_prefix(text, "if "@)->0, ":"@)->0);
            match block_at(f, ls, i + 1, ind + 4) {
                Err(e) => Err(e),
                Ok((then_body, j)) => if !(i < j <= ls.len()) {
                    Err(err_at(f, ls, i, Seq::empty()))
                } else {
                    let has_else = j < ls.len() && ls[j].indent == ind && ls[j].text == "else:"@;
                    match (if has_else { block_at(f, ls, j + 1, ind + 4) } else { Ok((Seq::empty(), j)) }) {
                        Err(e) => Err(e),
                        Ok((else_body, k)) => match condition_of(cond_text) {
                            Err(m) => Err(SpecParseError { pos, message: m }),
                            Ok(cond) => Ok((SpecStmt { kind: SpecStmtKind::If { cond, then_body, else_body }, pos }, k)),
                        },
                    }
                },
            }
        } else {
            match line_kind(text) {
                Err(m) => Err(SpecParseError { pos, message: m }),
                Ok(kind) => Ok((SpecStmt { kind, pos }, i + 1)),
            }
        }
    }
}

/// The choices of a menu whose choices are at indentation `ind`, from line `i` on; there
/// must be at least one.
pub open spec fn menu_at(f: Seq<char>, ls: Seq<SpecLine>, i: int, ind: int) -> MenuRead
    decreases ls.len() - i, 1int,
{
    match choices_at(f, ls, i, ind) {
        Err(e) => Err(e),
        Ok((cs, k)) => if cs.len() == 0 {
            Err(SpecParseError {
                pos: if 0 <= k < ls.len() { pos_at(f, ls, k) } else { SpecSourcePos { file: f, line: 1, column: 1 } },
                message: "menu requires at least one choice"@,
            })
        } else {
            Ok((cs, k))
        },
    }
}

/// The menu choices at indentation `ind` from line `i` on, each a choice line followed by a
/// block that is not empty.
pub open spec fn choices_at(f: Seq<char>, ls: Seq<SpecLine>, i: int, ind: int) -> MenuRead
    decreases ls.len() - i, 0int,
{
    if i < 0 || i >= ls.len() || ls[i].indent < ind {
        Ok((Seq::empty(), i))
    } else if ls[i].indent != ind {
        Err(err_at(f, ls, i, "menu choice indentation must match menu block"@))
    } else {
        match choice_line(ls[i].text) {
            Err(m) => Err(err_at(f, ls, i, m)),
            Ok((text_id, text, condition)) => match block_at(f, ls, i + 1, ind + 4) {
                Err(e) => Err(e),
                Ok((body, j)) => if body.len() == 0 {
                    Err(err_at(f, ls, i, "menu choice body cannot be empty"@))
                } else if !(i < j <= ls.len()) {
                    Ok((Seq::empty(), i))
                } else {
                    match choices_at(f, ls, j, ind) {
                        Err(e) => Err(e),
                        Ok((rest, k)) => Ok((
                            seq![SpecChoice { text_id, text, condition, body, pos: pos_at(f, ls, i) }] + rest,
                            k,
                        )),
                    }
                },
            },
        }
    }
}

/// A whole script from its statement lines: one block at indentation 0 that uses every line.
pub open spec fn script_of_lines(f: Seq<char>, ls: Seq<SpecLine>) -> Result<Seq<SpecStmt>, SpecParseError> {
    match block_at(f, ls, 0, 0) {
        Err(e) => Err(e),
        Ok((sts, j)) => if 0 <= j < ls.len() {
            Err(err_at(f, ls, j, "unexpected indentation"@))
        } else {
            Ok(sts)
        },
    }
}

/// A whole script from its source text.
pub open spec fn parsed(file: Seq<char>, source: Seq<char>) -> Result<Seq<SpecStmt>, SpecParseError> {
    script_of_lines(file, source_lines(source))
}

// ---------------------------------------------------------------------------
// Reading blocks.
// ---------------------------------------------------------------------------

/// Statements read so far put before what the rest gives.
pub open spec fn prepend_stmts(acc: Seq<SpecStmt>, r: BlockRead) -> BlockRead {
    match r {
        Ok((s, m)) => Ok((acc + s, m)),
        Err(e) => Err(e),
    }
}

/// Choices read so far put before what the rest gives.
pub open spec fn prepend_choices(acc: Seq<SpecChoice>, r: MenuRead) -> MenuRead {
    match r {
        Ok((s, m)) => Ok((acc + s, m)),
        Err(e) => Err(e),
    }
}

/// The model of two statement lists one after the other.
pub proof fn lemma_stmts_concat_view(a: Seq<Stmt>, b: Seq<Stmt>)
    ensures
        stmts_view(a + b) == stmts_view(a) + stmts_view(b),
{
    lemma_stmts_view_concat(a, b);
}

proof fn lemma_stmts_view_concat(a: Seq<Stmt>, b: Seq<Stmt>)
    ensures
        stmts_view(a + b) == stmts_view(a) + stmts_view(b),
{
    lemma_stmts_view(a);
    lemma_stmts_view(b);
    lemma_stmts_view(a + b);
    assert(stmts_view(a + b) =~= stmts_view(a) + stmts_view(b));
}

proof fn lemma_stmts_view_push(a: Seq<Stmt>, x: Stmt)
    ensures
        stmts_view(a.push(x)) == stmts_view(a) + seq![x@],
{
    assert(a.push(x).drop_last() =~= a);
    assert(stmts_view(a).push(x@) =~= stmts_view(a) + seq![x@]);
}

proof fn lemma_choices_view_push(a: Seq<Choice>, x: Choice)
    ensures
        choices_view(a.push(x)) == choices_view(a) + seq![x@],
{
    assert(a.push(x).drop_last() =~= a);
    assert(choices_view(a).push(x@) =~= choices_view(a) + seq![x@]);
}

proof fn lemma_prepend_stmts(a: Seq<SpecStmt>, b: Seq<SpecStmt>, r: BlockRead)
    ensures
        prepend_stmts(a, prepend_stmts(b, r)) == prepend_stmts(a + b, r),
{
    match r {
        Ok((x, m)) => {
            assert(a + (b + x) =~= (a + b) + x);
        },
        Err(_) => {},
    }
}

proof fn lemma_block_step(f: Seq<char>, lv: Seq<SpecLine>, i: int, ind: int, st: SpecStmt, j: int)
    requires
        0 <= i < lv.len(),
        lv[i].indent == ind,
        statement_at(f, lv, i, ind) == Ok::<(SpecStmt, int), SpecParseError>((st, j)),
        i < j <= lv.len(),
        !(st.kind is Label && j < lv.len() && lv[j].indent > ind),
    ensures
        block_at(f, lv, i, ind) == prepend_stmts(seq![st], block_at(f, lv, j, ind)),
{
}

proof fn lemma_block_label_step(
    f: Seq<char>,
    lv: Seq<SpecLine>,
    i: int,
    ind: int,
    st: SpecStmt,
    j: int,
    sub: Seq<SpecStmt>,
    k: int,
)
    requires
        0 <= i < lv.len(),
        lv[i].indent == ind,
        statement_at(f, lv, i, ind) == Ok::<(SpecStmt, int), SpecParseError>((st, j)),
        i < j < lv.len(),
        st.kind is Label,
        lv[j].indent > ind,
        block_at(f, lv, j, lv[j].indent) == Ok::<(Seq<SpecStmt>, int), SpecParseError>((sub, k)),
        j <= k <= lv.len(),
    ensures
        block_at(f, lv, i, ind) == prepend_stmts(seq![st] + sub, block_at(f, lv, k, ind)),
{
    match block_at(f, lv, k, ind) {
        Ok((rest, m)) => {
            assert(seq![st] + sub + rest =~= (seq![st] + sub) + rest);
        },
        Err(_) => {},
    }
}

proof fn lemma_block_label_error(f: Seq<char>, lv: Seq<SpecLine>, i: int, ind: int, st: SpecStmt, j: int, e: SpecParseError)
    requires
        0 <= i < lv.len(),
        lv[i].indent == ind,
        statement_at(f, lv, i, ind) == Ok::<(SpecStmt, int), SpecParseError>((st, j)),
        i < j < lv.len(),
        st.kind is Label,
        lv[j].indent > ind,
        block_at(f, lv, j, lv[j].indent) == Err::<(Seq<SpecStmt>, int), SpecParseError>(e),
    ensures
        block_at(f, lv, i, ind) == Err::<(Seq<SpecStmt>, int), SpecParseError>(e),
{
}

proof fn lemma_choices_step(
    f: Seq<char>,
    lv: Seq<SpecLine>,
    i: int,
    ind: int,
    text_id: Option<Seq<char>>,
    text: Seq<char>,
    condition: Option<crate::ast::SpecExpr>,
    body: Seq<SpecStmt>,
    j: int,
)
    requires
        0 <= i < lv.len(),
        lv[i].indent == ind,
        choice_line(lv[i].text) == Ok::<(Option<Seq<char>>, Seq<char>, Option<crate::ast::SpecExpr>), Seq<char>>(
            (text_id, text, condition),
        ),
        block_at(f, lv, i + 1, ind + 4) == Ok::<(Seq<SpecStmt>, int), SpecParseError>((body, j)),
        body.len() > 0,
        i < j <= lv.len(),
    ensures
        choices_at(f, lv, i, ind) == prepend_choices(
            seq![SpecChoice { text_id, text, condition, body, pos: pos_at(f, lv, i) }],
            choices_at(f, lv, j, ind),
        ),
{
}

proof fn lemma_prepend_choices(a: Seq<SpecChoice>, b: Seq<SpecChoice>, r: MenuRead)
    ensures
        prepend_choices(a, prepend_choices(b, r)) == prepend_choices(a + b, r),
{
    match r {
        Ok((x, m)) => {
            assert(a + (b + x) =~= (a + b) + x);
        },
        Err(_) => {},
    }
}

struct Ctx {
    file: String,
    lines: Vec<Line>,
}

impl Ctx {
    spec fn lv(&self) -> Seq<SpecLine> {
        seq_view(self.lines@)
    }

    spec fn ok(&self) -> bool {
        indent_room(self.lv())
    }

    fn pos(&self, i: usize) -> (r: SourcePos)
        requires
            self.ok(),
            i < self.lv().len(),
        ensures
            r@ == pos_at(self.file@, self.lv(), i as int),
    {
        assert(self.lv()[i as int] == self.lines@[i as int]@);
        assert(self.lv()[i as int].indent + 16 <= usize::MAX);
        SourcePos { file: self.file.clone(), line: self.lines[i].number, column: self.lines[i].indent + 1 }
    }

    fn error(&self, i: usize, m: &str) -> (r: ParseError)
        requires
            self.ok(),
            i < self.lv().len(),
        ensures
            r@ == err_at(self.file@, self.lv(), i as int, m@),
    {
        ParseError { pos: self.pos(i), message: String::from_str(m) }
    }

    #[verifier::spinoff_prover]
    #[verifier::rlimit(80)]
    fn block(&self, i0: usize, ind: usize) -> (r: Result<(Vec<Stmt>, usize), ParseError>)
        requires
            self.ok(),
            i0 <= self.lv().len(),
        ensures
            match r {
                Ok((v, j)) => block_at(self.file@, self.lv(), i0 as int, ind as int)
                    == Ok::<(Seq<SpecStmt>, int), SpecParseError>((stmts_view(v@), j as int))
                    && i0 <= j <= self.lv().len(),
                Err(e) => block_at(self.file@, self.lv(), i0 as int, ind as int)
                    == Err::<(Seq<SpecStmt>, int), SpecParseError>(e@),
            },
        decreases self.lv().len() - i0, 3int,
    {
        let ghost f = self.file@;
        let ghost lv = self.lv();
        let n = self.lines.len();
        let mut acc: Vec<Stmt> = Vec::new();
        let mut i = i0;
        assert(prepend_stmts(stmts_view(acc@), block_at(f, lv, i as int, ind as int)) == block_at(f, lv, i0 as int, ind as int)) by {
            match block_at(f, lv, i as int, ind as int) {
                Ok((x, m)) => {
                    assert(stmts_view(acc@) + x =~= x);
                },
                Err(_) => {},
            }
        }
        while i < n
            invariant
                f == self.file@,
                lv == self.lv(),
                self.ok(),
                n == lv.len(),
                i0 <= i <= n,
                block_at(f, lv, i0 as int, ind as int) == prepend_stmts(stmts_view(acc@), block_at(f, lv, i as int, ind as int)),
            decreases n - i,
        {
            assert(lv[i as int] == self.lines@[i as int]@);
            let li = self.lines[i].indent;
            if li < ind {
                assert(stmts_view(acc@) + Seq::<SpecStmt>::empty() =~= stmts_view(acc@));
                return Ok((acc, i));
            }
            if li > ind {
                return Err(self.error(i, "unexpected indented block"));
            }
            let (st, j) = match self.statement(i, ind) {
                Ok(p) => p,
                Err(e) => return Err(e),
            };
            let is_label = match &st.kind {
                StmtKind::Label { .. } => true,
                _ => false,
            };
            let ghost acc0 = acc@;
            let ghost stv = st@;
            proof {
                lemma_stmts_view_push(acc0, st);
            }
            acc.push(st);
            if is_label && j < n && self.lines[j].indent > ind {
                assert(lv[j as int] == self.lines@[j as int]@);
                let (mut sub, k) = match self.block(j, self.lines[j].indent) {
                    Ok(p) => p,
                    Err(e) => {
                        proof {
                            lemma_block_label_error(f, lv, i as int, ind as int, stv, j as int, e@);
                        }
                        return Err(e);
                    },
                };
                let ghost acc1 = acc@;
                let ghost sub0 = sub@;
                acc.append(&mut sub);
                proof {
                    lemma_stmts_view_concat(acc1, sub0);
                    lemma_block_label_step(f, lv, i as int, ind as int, stv, j as int, stmts_view(sub0), k as int);
                    lemma_prepend_stmts(stmts_view(acc0), seq![stv] + stmts_view(sub0), block_at(f, lv, k as int, ind as int));
                    assert(stmts_view(acc0) + (seq![stv] + stmts_view(sub0)) =~= stmts_view(acc@));
                }
                i = k;
            } else {
                proof {
                    lemma_block_step(f, lv, i as int, ind as int, stv, j as int);
                    lemma_prepend_stmts(stmts_view(acc0), seq![stv], block_at(f, lv, j as int, ind as int));
                }
                i = j;
            }
        }
        assert(stmts_view(acc@) + Seq::<SpecStmt>::empty() =~= stmts_view(acc@));
        Ok((acc, i))
    }

    fn statement(&self, i: usize, ind: usize) -> (r: Result<(Stmt, usize), ParseError>)
        requires
            self.ok(),
            i < self.lv().len(),
            self.lv()[i as int].indent == ind,
        ensures
            match r {
                Ok((st, j)) => statement_at(self.file@, self.lv(), i as int, ind as int)
                    == Ok::<(SpecStmt, int), SpecParseError>((st@, j as int))
                    && i < j <= self.lv().len(),
                Err(e) => statement_at(self.file@, self.lv(), i as int, ind as int)
                    == Err::<(SpecStmt, int), SpecParseError>(e@),
            },
        decreases self.lv().len() - i, 2int,
    {
        let ghost lv = self.lv();
        assert(lv[i as int] == self.lines@[i as int]@);
        let n = self.lines.len();
        let text = self.lines[i].text.as_slice();
        let pos = self.pos(i);
        if is_word(text, "menu:") {
            return match self.menu(i + 1, ind + 4) {
                Err(e) => Err(e),
                Ok((cs, k)) => Ok((Stmt { kind: StmtKind::Menu { choices: cs }, pos }, k)),
            };
        }
        if let Some(a) = strip_prefix_lit(text, "if ") {
            if let Some(b) = strip_suffix_lit(a.as_slice(), ":") {
                let cond_text = trim_chars(b.as_slice());
                let (then_body, j) = match self.block(i + 1, ind + 4) {
                    Ok(p) => p,
                    Err(e) => return Err(e),
                };
                let has_else = j < n && self.lines[j].indent == ind && is_word(self.lines[j].text.as_slice(), "else:");
                proof {
                    if j < n {
                        assert(lv[j as int] == self.lines@[j as int]@);
                    }
                }
                let (else_body, k) = if has_else {
                    match self.block(j + 1, ind + 4) {
                        Ok(p) => p,
                        Err(e) => return Err(e),
                    }
                } else {
                    (Vec::new(), j)
                };
                proof {
                    reveal(condition_of);
                }
                return match parse_expression(cond_text.as_slice()) {
                    Err(m) => Err(ParseError { pos, message: String::from_str(m) }),
                    Ok(cond) => Ok((Stmt { kind: StmtKind::If { cond, then_body, else_body }, pos }, k)),
                };
            }
        }
        proof {
            reveal(line_kind);
        }
        match parse_line_statement(text) {
            Err(m) => Err(ParseError { pos, message: String::from_str(m) }),
            Ok(kind) => Ok((Stmt { kind, pos }, i + 1)),
        }
    }

    fn menu(&self, i: usize, ind: usize) -> (r: Result<(Vec<Choice>, usize), ParseError>)
        requires
            self.ok(),
            i <= self.lv().len(),
        ensures
            match r {
                Ok((v, j)) => menu_at(self.file@, self.lv(), i as int, ind as int)
                    == Ok::<(Seq<SpecChoice>, int), SpecParseError>((choices_view(v@), j as int))
                    && i <= j <= self.lv().len(),
                Err(e) => menu_at(self.file@, self.lv(), i as int, ind as int)
                    == Err::<(Seq<SpecChoice>, int), SpecParseError>(e@),
            },
        decreases self.lv().len() - i, 1int,
    {
        let (cs, k) = match self.choices(i, ind) {
            Ok(p) => p,
            Err(e) => return Err(e),
        };
        if cs.len() == 0 {
            let pos = if k < self.lines.len() {
                self.pos(k)
            } else {
                SourcePos { file: self.file.clone(), line: 1, column: 1 }
            };
            return Err(ParseError { pos, message: String::from_str("menu requires at least one choice") });
        }
        Ok((cs, k))
    }

    fn choices(&self, i0: usize, ind: usize) -> (r: Result<(Vec<Choice>, usize), ParseError>)
        requires
            self.ok(),
            i0 <= self.lv().len(),
        ensures
            match r {
                Ok((v, j)) => choices_at(self.file@, self.lv(), i0 as int, ind as int)
                    == Ok::<(Seq<SpecChoice>, int), SpecParseError>((choices_view(v@), j as int))
                    && i0 <= j <= self.lv().len(),
                Err(e) => choices_at(self.file@, self.lv(), i0 as int, ind as int)
                    == Err::<(Seq<SpecChoice>, int), SpecParseError>(e@),
            },
        decreases self.lv().len() - i0, 0int,
    {
        let ghost f = self.file@;
        let ghost lv = self.lv();
        let n = self.lines.len();
        let mut acc: Vec<Choice> = Vec::new();
        let mut i = i0;
        assert(prepend_choices(choices_view(acc@), choices_at(f, lv, i as int, ind as int)) == choices_at(f, lv, i0 as int, ind as int)) by {
            match choices_at(f, lv, i as int, ind as int) {
                Ok((x, m)) => {
                    assert(choices_view(acc@) + x =~= x);
                },
                Err(_) => {},
            }
        }
        while i < n
            invariant
                f == self.file@,
                lv == self.lv(),
                self.ok(),
                n == lv.len(),
                i0 <= i <= n,
                choices_at(f, lv, i0 as int, ind as int) == prepend_choices(choices_view(acc@), choices_at(f, lv, i as int, ind as int)),
            decreases n - i,
        {
            assert(lv[i as int] == self.lines@[i as int]@);
            let li = self.lines[i].indent;
            if li < ind {
                assert(choices_view(acc@) + Seq::<SpecChoice>::empty() =~= choices_view(acc@));
                return Ok((acc, i));
            }
            if li != ind {
                return Err(self.error(i, "menu choice indentation must match menu block"));
            }
            let (text_id, text, condition) = match parse_choice_line(self.lines[i].text.as_slice()) {
                Ok(p) => p,
                Err(m) => return Err(self.error(i, m)),
            };
            let (body, j) = match self.block(i + 1, ind + 4) {
                Ok(p) => p,
                Err(e) => return Err(e),
            };
            if body.len() == 0 {
                proof {
                    crate::ast::lemma_stmts_view(body@);
                }
                return Err(self.error(i, "menu choice body cannot be empty"));
            }
            proof {
                crate::ast::lemma_stmts_view(body@);
            }
            let choice = Choice { text_id, text, condition, body, pos: self.pos(i) };
            let ghost acc0 = acc@;
            let ghost cv = choice@;
            proof {
                lemma_choices_view_push(acc0, choice);
                lemma_choices_step(
                    f,
                    lv,
                    i as int,
                    ind as int,
                    cv.text_id,
                    cv.text,
                    cv.condition,
                    cv.body,
                    j as int,
                );
                lemma_prepend_choices(choices_view(acc0), seq![cv], choices_at(f, lv, j as int, ind as int));
            }
            acc.push(choice);
            i = j;
        }
        assert(choices_view(acc@) + Seq::<SpecChoice>::empty() =~= choices_view(acc@));
        Ok((acc, i))
    }
}

/// Parses a script read from `path`; positions name the path as given.
pub fn parse_file(path: &str, source: &str) -> (r: Result<Script, ParseError>)
    requires
        source@.len() + 16 <= usize::MAX,
    ensures
        match r {
            Ok(s) => parsed(path@, source@) == Ok::<Seq<SpecStmt>, SpecParseError>(s@),
            Err(e) => parsed(path@, source@) == Err::<Seq<SpecStmt>, SpecParseError>(e@),
        },
{
    parse_source(path, source)
}

/// Parses a script source; `file` names it in positions.
pub fn parse_source(file: &str, source: &str) -> (r: Result<Script, ParseError>)
    requires
        source@.len() + 16 <= usize::MAX,
    ensures
        match r {
            Ok(s) => parsed(file@, source@) == Ok::<Seq<SpecStmt>, SpecParseError>(s@),
            Err(e) => parsed(file@, source@) == Err::<Seq<SpecStmt>, SpecParseError>(e@),
        },
{
    let src = chars_of(source);
    let lines = source_lines_exec(src.as_slice());
    let c = Ctx { file: String::from_str(file), lines };
    let (statements, j) = match c.block(0, 0) {
        Ok(p) => p,
        Err(e) => return Err(e),
    };
    if j < c.lines.len() {
        return Err(c.error(j, "unexpected indentation"));
    }
    Ok(Script { statements })
}

// ---------------------------------------------------------------------------
// Reading on past errors.
// ---------------------------------------------------------------------------

/// Whether a line starts a top-level chunk: it is not indented and is not the `else:` of a
/// conditional above it.
pub open spec fn starts_chunk(l: SpecLine) -> bool {
    l.indent == 0 && l.text != "else:"@
}

/// The first line at or after `i` that starts a chunk, or the number of lines.
pub open spec fn next_top(lv: Seq<SpecLine>, i: int) -> int
    decreases lv.len() - i,
{
    if i < 0 || i >= lv.len() {
        lv.len() as int
    } else if starts_chunk(lv[i]) {
        i
    } else {
        next_top(lv, i + 1)
    }
}

/// What reading on past errors gives: the statements of the top-level chunks that parse,
/// and one error for each chunk that does not.
pub struct Recovered {
    pub statements: Seq<SpecStmt>,
    pub errors: Seq<SpecParseError>,
}

/// Reads the lines from `i` on one top-level chunk at a time: a line and the lines after it
/// up to the next one that starts a chunk. A chunk that fails to parse contributes its error and no statement.
pub open spec fn recover_from(f: Seq<char>, lv: Seq<SpecLine>, i: int) -> Recovered
    decreases lv.len() - i,
{
    let e = next_top(lv, i + 1);
    if i < 0 || i >= lv.len() || e <= i || e > lv.len() {
        Recovered { statements: Seq::empty(), errors: Seq::empty() }
    } else {
        let rest = recover_from(f, lv, e);
        match script_of_lines(f, lv.subrange(i, e)) {
            Ok(sts) => Recovered { statements: sts + rest.statements, errors: rest.errors },
            Err(err) => Recovered { statements: rest.statements, errors: seq![err] + rest.errors },
        }
    }
}

/// The diagnostic a parse error is reported as.
pub open spec fn as_diagnostic(e: SpecParseError) -> crate::diagnostics::SpecDiagnostic {
    crate::diagnostics::SpecDiagnostic { pos: e.pos, message: e.message }
}

/// The diagnostics parse errors are reported as.
pub open spec fn as_diagnostics(errs: Seq<SpecParseError>) -> Seq<crate::diagnostics::SpecDiagnostic> {
    errs.map_values(|e: SpecParseError| as_diagnostic(e))
}

/// A source read on past errors.
pub open spec fn parsed_recovering(file: Seq<char>, source: Seq<char>) -> Recovered {
    recover_from(file, source_lines(source), 0)
}

proof fn lemma_next_top(lv: Seq<SpecLine>, i: int)
    requires
        0 <= i <= lv.len(),
    ensures
        i <= next_top(lv, i) <= lv.len(),
        forall|k: int| i <= k < next_top(lv, i) ==> !starts_chunk(#[trigger] lv[k]),
    decreases lv.len() - i,
{
    if i < lv.len() && !starts_chunk(lv[i]) {
        lemma_next_top(lv, i + 1);
    }
}

impl Line {
    fn copy(&self) -> (r: Line)
        ensures
            r@ == self@,
    {
        let text = slice_chars(self.text.as_slice(), 0, self.text.len());
        assert(text@ =~= self.text@);
        Line { number: self.number, indent: self.indent, text }
    }
}

fn chunk_lines(lines: &Vec<Line>, lo: usize, hi: usize) -> (r: Vec<Line>)
    requires
        lo <= hi <= lines@.len(),
    ensures
        seq_view(r@) == seq_view(lines@).subrange(lo as int, hi as int),
{
    let mut r: Vec<Line> = Vec::new();
    let mut k = lo;
    while k < hi
        invariant
            lo <= k <= hi <= lines@.len(),
            seq_view(r@) == seq_view(lines@).subrange(lo as int, k as int),
        decreases hi - k,
    {
        let ghost before = seq_view(r@);
        let line = lines[k].copy();
        let ghost lw = line@;
        r.push(line);
        assert(seq_view(r@) =~= before.push(lw));
        assert(seq_view(lines@).subrange(lo as int, k + 1) =~= seq_view(lines@).subrange(lo as int, k as int).push(lines@[k as int]@));
        k = k + 1;
    }
    r
}

fn diagnostic_of(e: ParseError) -> (r: crate::diagnostics::Diagnostic)
    ensures
        r@ == as_diagnostic(e@),
{
    crate::diagnostics::Diagnostic::new(e.pos, e.message)
}

/// Parses a script source, going on past errors one top-level chunk at a time; returns the
/// statements of the chunks that parse and a diagnostic for each chunk that does not.
pub fn parse_recovering(file: &str, source: &str) -> (r: (Script, Vec<crate::diagnostics::Diagnostic>))
    requires
        source@.len() + 16 <= usize::MAX,
    ensures
        r.0@ == parsed_recovering(file@, source@).statements,
        seq_view(r.1@) == as_diagnostics(parsed_recovering(file@, source@).errors),
{
    let src = chars_of(source);
    let lines = source_lines_exec(src.as_slice());
    let ghost f = file@;
    let ghost lv = seq_view(lines@);
    let fname = String::from_str(file);
    let n = lines.len();
    let mut statements: Vec<Stmt> = Vec::new();
    let mut errors: Vec<crate::diagnostics::Diagnostic> = Vec::new();
    let mut i: usize = 0;
    assert(stmts_view(statements@) =~= Seq::<SpecStmt>::empty());
    assert(seq_view(errors@) =~= Seq::<crate::diagnostics::SpecDiagnostic>::empty());
    while i < n
        invariant
            lv == seq_view(lines@),
            f == file@,
            fname@ == file@,
            n == lv.len(),
            indent_room(lv),
            i <= n,
            lv == source_lines(source@),
            stmts_view(statements@) + recover_from(f, lv, i as int).statements
                == recover_from(f, lv, 0).statements,
            seq_view(errors@) + as_diagnostics(recover_from(f, lv, i as int).errors)
                == as_diagnostics(recover_from(f, lv, 0).errors),
        decreases n - i,
    {
        proof {
            lemma_next_top(lv, i + 1);
        }
        let mut e = i + 1;
        while e < n && (lines[e].indent != 0 || is_word(lines[e].text.as_slice(), "else:"))
            invariant
                lv == seq_view(lines@),
                n == lv.len(),
                i < e <= n,
                next_top(lv, i + 1) == next_top(lv, e as int),
            decreases n - e,
        {
            assert(lv[e as int] == lines@[e as int]@);
            e = e + 1;
        }
        proof {
            if e < n {
                assert(lv[e as int] == lines@[e as int]@);
            }
        }
        assert(e == next_top(lv, i + 1));
        let chunk = chunk_lines(&lines, i, e);
        let ghost cv = seq_view(chunk@);
        assert(indent_room(cv)) by {
            assert forall|k: int| 0 <= k < cv.len() implies 0 <= #[trigger] cv[k].indent && cv[k].indent + 16 <= usize::MAX
                && 1 <= cv[k].number <= usize::MAX by {
                assert(cv[k] == lv[i + k]);
            }
        }
        let c = Ctx { file: fname.clone(), lines: chunk };
        let ghost rest = recover_from(f, lv, e as int);
        let outcome = match c.block(0, 0) {
            Ok((sts, j)) => if j < c.lines.len() {
                Err(c.error(j, "unexpected indentation"))
            } else {
                Ok(sts)
            },
            Err(err) => Err(err),
        };
        match outcome {
            Ok(mut sts) => {
                let ghost before = statements@;
                let ghost more = sts@;
                statements.append(&mut sts);
                proof {
                    lemma_stmts_view_concat(before, more);
                    assert(stmts_view(before) + (stmts_view(more) + rest.statements)
                        =~= stmts_view(statements@) + rest.statements);
                }
            },
            Err(err) => {
                let ghost before = seq_view(errors@);
                let ghost ev = err@;
                let d = diagnostic_of(err);
                assert(d@ == as_diagnostic(ev));
                let ghost dv = d@;
                errors.push(d);
                proof {
                    assert(seq_view(errors@) =~= before.push(dv));
                    assert(as_diagnostics(seq![ev] + rest.errors) =~= seq![as_diagnostic(ev)] + as_diagnostics(rest.errors));
                    assert(before + (seq![as_diagnostic(ev)] + as_diagnostics(rest.errors))
                        =~= seq_view(errors@) + as_diagnostics(rest.errors));
                }
            },
        }
        i = e;
    }
    assert(stmts_view(statements@) + Seq::<SpecStmt>::empty() =~= stmts_view(statements@));
    assert(seq_view(errors@) + Seq::<crate::diagnostics::SpecDiagnostic>::empty() =~= seq_view(errors@));
    (Script { statements }, errors)
}

} // verus!
