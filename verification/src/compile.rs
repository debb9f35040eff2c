//! Compiles the authoring syntax tree into the flat operation list the story machine runs.
use vstd::prelude::*;
use crate::ast::{
    lemma_stmts_view_take, lemma_choices_view_take,
    choice_view, duplicate_opt_expr, duplicate_opt_str, duplicate_opt_transition, duplicate_strings,
    lemma_choices_view, lemma_stmts_view, stmt_view, stmts_view, Choice, Script, SpecChoice,
    SpecSourcePos, SpecStmt, SpecStmtKind, Stmt, StmtKind,
};
use crate::ir::{seq_view, MenuChoice, Op, OpKind, Program, SpecMenuChoice, SpecOp, SpecOpKind, SpecProgram};
use crate::strmap::StrMap;

verus! {

// ---------------------------------------------------------------------------
// Sizes: how many operations a piece of script compiles to.
// ---------------------------------------------------------------------------

/// Operations emitted for one statement: labels emit none; a menu emits itself and, per
/// choice, its body and a jump to the end; a conditional emits a branch, the then-body, a
/// jump to the end and the else-body.
pub open spec fn stmt_size(s: SpecStmt) -> nat
    decreases s, 0nat,
{
    match s.kind {
        SpecStmtKind::Label { .. } => 0,
        SpecStmtKind::Menu { choices } => 1 + choices_size(choices),
        SpecStmtKind::If { then_body, else_body, .. } => 2 + stmts_size(then_body) + stmts_size(else_body),
        _ => 1,
    }
}

/// Operations emitted for a list of statements.
pub open spec fn stmts_size(ss: Seq<SpecStmt>) -> nat
    decreases ss, 1nat,
{
    if ss.len() == 0 {
        0
    } else {
        stmts_size(ss.drop_last()) + stmt_size(ss.last())
    }
}

/// Operations emitted for the branches of a menu.
pub open spec fn choices_size(cs: Seq<SpecChoice>) -> nat
    decreases cs, 1nat,
{
    if cs.len() == 0 {
        0
    } else {
        choices_size(cs.drop_last()) + stmts_size(cs.last().body) + 1
    }
}

// ---------------------------------------------------------------------------
// Labels: the operation index each label names; a later definition wins.
// ---------------------------------------------------------------------------

/// Labels defined by a statement placed at `pc`, added to `m`.
pub open spec fn labels_stmt(s: SpecStmt, pc: nat, m: Map<Seq<char>, usize>) -> Map<Seq<char>, usize>
    decreases s, 0nat,
{
    match s.kind {
        SpecStmtKind::Label { name } => m.insert(name, pc as usize),
        SpecStmtKind::Menu { choices } => labels_choices(choices, pc + 1, m),
        SpecStmtKind::If { then_body, else_body, .. } => labels_stmts(
            else_body,
            pc + 2 + stmts_size(then_body),
            labels_stmts(then_body, pc + 1, m),
        ),
        _ => m,
    }
}

/// Labels defined by statements placed from `pc` on, added to `m` in order.
pub open spec fn labels_stmts(ss: Seq<SpecStmt>, pc: nat, m: Map<Seq<char>, usize>) -> Map<Seq<char>, usize>
    decreases ss, 1nat,
{
    if ss.len() == 0 {
        m
    } else {
        labels_stmt(ss.last(), pc + stmts_size(ss.drop_last()), labels_stmts(ss.drop_last(), pc, m))
    }
}

/// Labels defined in menu branches whose bodies start at `pc`.
pub open spec fn labels_choices(cs: Seq<SpecChoice>, pc: nat, m: Map<Seq<char>, usize>) -> Map<Seq<char>, usize>
    decreases cs, 1nat,
{
    if cs.len() == 0 {
        m
    } else {
        labels_stmts(cs.last().body, pc + choices_size(cs.drop_last()), labels_choices(cs.drop_last(), pc, m))
    }
}

// ---------------------------------------------------------------------------
// Emission.
// ---------------------------------------------------------------------------

/// Target of a jump to a label: the label's index, or 0 when no label has that name.
pub open spec fn jump_target(labels: Map<Seq<char>, usize>, label: Seq<char>) -> usize {
    if labels.contains_key(label) { labels[label] } else { 0 }
}

/// An operation at a statement's position.
pub open spec fn op_at(kind: SpecOpKind, pos: SpecSourcePos) -> SpecOp {
    SpecOp { kind, pos }
}

/// Operations for one statement placed at `pc`.
pub open spec fn emit_stmt(s: SpecStmt, pc: nat, labels: Map<Seq<char>, usize>) -> Seq<SpecOp>
    decreases s, 0nat,
{
    let pos = s.pos;
    match s.kind {
        SpecStmtKind::Label { .. } => Seq::empty(),
        SpecStmtKind::Say { speaker, text_id, text, effect } => seq![
            op_at(SpecOpKind::Say { speaker, text_id, text, effect }, pos),
        ],
        SpecStmtKind::Scene { image, transition } => seq![op_at(SpecOpKind::Scene { image, transition }, pos)],
        SpecStmtKind::Show { tag, attrs, position, transition } => seq![
            op_at(SpecOpKind::Show { tag, attrs, position, transition }, pos),
        ],
        SpecStmtKind::Hide { tag } => seq![op_at(SpecOpKind::Hide { tag }, pos)],
        SpecStmtKind::PlayMusic { path } => seq![op_at(SpecOpKind::PlayMusic { path }, pos)],
        SpecStmtKind::StopMusic => seq![op_at(SpecOpKind::StopMusic, pos)],
        SpecStmtKind::Menu { choices } => seq![
            op_at(SpecOpKind::Menu { choices: menu_entries(choices, pc + 1) }, pos),
        ] + emit_choices(choices, pc + 1, labels, (pc + 1 + choices_size(choices)) as usize, pos),
        SpecStmtKind::Jump { label } => seq![
            op_at(SpecOpKind::Jump { target: jump_target(labels, label) }, pos),
        ],
        SpecStmtKind::Assign { var, op, value } => seq![op_at(SpecOpKind::Assign { var, op, value }, pos)],
        SpecStmtKind::If { cond, then_body, else_body } => {
            let else_pc = pc + 2 + stmts_size(then_body);
            let end = else_pc + stmts_size(else_body);
            seq![
                op_at(
                    SpecOpKind::Branch { cond, then_pc: (pc + 1) as usize, else_pc: else_pc as usize },
                    pos,
                ),
            ] + emit_stmts(then_body, pc + 1, labels) + seq![
                op_at(SpecOpKind::Jump { target: end as usize }, pos),
            ] + emit_stmts(else_body, else_pc, labels)
        },
        SpecStmtKind::End => seq![op_at(SpecOpKind::End, pos)],
    }
}

/// Operations for statements placed from `pc` on.
pub open spec fn emit_stmts(ss: Seq<SpecStmt>, pc: nat, labels: Map<Seq<char>, usize>) -> Seq<SpecOp>
    decreases ss, 1nat,
{
    if ss.len() == 0 {
        Seq::empty()
    } else {
        emit_stmts(ss.drop_last(), pc, labels) + emit_stmt(ss.last(), pc + stmts_size(ss.drop_last()), labels)
    }
}

/// Menu entries for branches whose bodies start at `pc`: each targets its body.
pub open spec fn menu_entries(cs: Seq<SpecChoice>, pc: nat) -> Seq<SpecMenuChoice>
    decreases cs.len(),
{
    if cs.len() == 0 {
        Seq::empty()
    } else {
        let c = cs.last();
        menu_entries(cs.drop_last(), pc).push(
            SpecMenuChoice {
                text_id: c.text_id,
                text: c.text,
                condition: c.condition,
                target: (pc + choices_size(cs.drop_last())) as usize,
            },
        )
    }
}

/// Bodies of menu branches from `pc` on, each followed by a jump to `end` at the menu's position.
pub open spec fn emit_choices(
    cs: Seq<SpecChoice>,
    pc: nat,
    labels: Map<Seq<char>, usize>,
    end: usize,
    pos: SpecSourcePos,
) -> Seq<SpecOp>
    decreases cs, 1nat,
{
    if cs.len() == 0 {
        Seq::empty()
    } else {
        emit_choices(cs.drop_last(), pc, labels, end, pos) + emit_stmts(
            cs.last().body,
            pc + choices_size(cs.drop_last()),
            labels,
        ) + seq![op_at(SpecOpKind::Jump { target: end }, pos)]
    }
}

/// The program a script compiles to.
pub open spec fn compiled(ss: Seq<SpecStmt>) -> SpecProgram {
    let labels = labels_stmts(ss, 0, Map::empty());
    SpecProgram { ops: emit_stmts(ss, 0, labels), labels }
}


// ---------------------------------------------------------------------------
// Lemmas on prefixes.
// ---------------------------------------------------------------------------



proof fn lemma_stmts_size_prefix(ss: Seq<SpecStmt>, k: int)
    requires
        0 <= k <= ss.len(),
    ensures
        stmts_size(ss.take(k)) <= stmts_size(ss),
        k < ss.len() ==> stmts_size(ss.take(k + 1)) == stmts_size(ss.take(k)) + stmt_size(ss[k]),
    decreases ss.len(),
{
    if k < ss.len() {
        assert(ss.take(k + 1).drop_last() =~= ss.take(k));
        lemma_stmts_size_prefix(ss.drop_last(), k);
        assert(ss.drop_last().take(k) =~= ss.take(k));
    } else {
        assert(ss.take(k) =~= ss);
    }
}

proof fn lemma_choices_size_prefix(cs: Seq<SpecChoice>, k: int)
    requires
        0 <= k <= cs.len(),
    ensures
        choices_size(cs.take(k)) <= choices_size(cs),
        k < cs.len() ==> choices_size(cs.take(k + 1)) == choices_size(cs.take(k)) + stmts_size(cs[k].body) + 1,
    decreases cs.len(),
{
    if k < cs.len() {
        assert(cs.take(k + 1).drop_last() =~= cs.take(k));
        lemma_choices_size_prefix(cs.drop_last(), k);
        assert(cs.drop_last().take(k) =~= cs.take(k));
    } else {
        assert(cs.take(k) =~= cs);
    }
}

// ---------------------------------------------------------------------------
// Sizes, computed.
// ---------------------------------------------------------------------------

fn stmt_size_checked(s: &Stmt) -> (r: Option<usize>)
    ensures
        match r {
            Some(n) => n == stmt_size(s@),
            None => stmt_size(s@) > usize::MAX,
        },
    decreases s, 0nat,
{
    match &s.kind {
        StmtKind::Label { .. } => Some(0),
        StmtKind::Menu { choices } => {
            let c = choices_size_checked(choices)?;
            c.checked_add(1)
        },
        StmtKind::If { then_body, else_body, .. } => {
            let a = stmts_size_checked(then_body)?;
            let b = stmts_size_checked(else_body)?;
            let ab = a.checked_add(b)?;
            ab.checked_add(2)
        },
        _ => Some(1),
    }
}

fn stmts_size_checked(v: &Vec<Stmt>) -> (r: Option<usize>)
    ensures
        match r {
            Some(n) => n == stmts_size(stmts_view(v@)),
            None => stmts_size(stmts_view(v@)) > usize::MAX,
        },
    decreases v, 1nat,
{
    let ghost ss = stmts_view(v@);
    let mut total: usize = 0;
    let mut i: usize = 0;
    proof {
        lemma_stmts_view_take(v@, 0);
        assert(ss.take(0) =~= Seq::<SpecStmt>::empty());
    }
    while i < v.len()
        invariant
            i <= v@.len(),
            ss == stmts_view(v@),
            total == stmts_size(ss.take(i as int)),
        decreases v@.len() - i,
    {
        proof {
            assert(decreases_to!(v => v@));
            assert(decreases_to!(v@ => v@[i as int]));
            lemma_stmts_view_take(v@, i as int);
            lemma_stmts_size_prefix(ss, i as int);
        }
        let n = match stmt_size_checked(&v[i]) {
            Some(n) => n,
            None => {
                proof {
                    lemma_stmts_size_prefix(ss, i as int + 1);
                }
                return None;
            },
        };
        match total.checked_add(n) {
            Some(t) => {
                total = t;
            },
            None => {
                proof {
                    lemma_stmts_size_prefix(ss, i as int + 1);
                }
                return None;
            },
        }
        i = i + 1;
    }
    proof {
        lemma_stmts_view_take(v@, v@.len() as int);
        assert(ss.take(v@.len() as int) =~= ss);
    }
    Some(total)
}

fn choices_size_checked(v: &Vec<Choice>) -> (r: Option<usize>)
    ensures
        match r {
            Some(n) => n == choices_size(crate::ast::choices_view(v@)),
            None => choices_size(crate::ast::choices_view(v@)) > usize::MAX,
        },
    decreases v, 1nat,
{
    let ghost cs = crate::ast::choices_view(v@);
    let mut total: usize = 0;
    let mut i: usize = 0;
    proof {
        lemma_choices_view_take(v@, 0);
        assert(cs.take(0) =~= Seq::<SpecChoice>::empty());
    }
    while i < v.len()
        invariant
            i <= v@.len(),
            cs == crate::ast::choices_view(v@),
            total == choices_size(cs.take(i as int)),
        decreases v@.len() - i,
    {
        proof {
            assert(decreases_to!(v => v@));
            assert(decreases_to!(v@ => v@[i as int]));
            assert(decreases_to!(v@[i as int] => v@[i as int].body));
            lemma_choices_view_take(v@, i as int);
            lemma_choices_size_prefix(cs, i as int);
        }
        let n = match stmts_size_checked(&v[i].body) {
            Some(n) => n,
            None => {
                proof {
                    lemma_choices_size_prefix(cs, i as int + 1);
                }
                return None;
            },
        };
        let step = match n.checked_add(1) {
            Some(s) => s,
            None => {
                proof {
                    lemma_choices_size_prefix(cs, i as int + 1);
                }
                return None;
            },
        };
        match total.checked_add(step) {
            Some(t) => {
                total = t;
            },
            None => {
                proof {
                    lemma_choices_size_prefix(cs, i as int + 1);
                }
                return None;
            },
        }
        i = i + 1;
    }
    proof {
        lemma_choices_view_take(v@, v@.len() as int);
        assert(cs.take(v@.len() as int) =~= cs);
    }
    Some(total)
}

/// Number of operations a script compiles to, or `None` when it does not fit in `usize`.
pub fn script_size(script: &Script) -> (r: Option<usize>)
    ensures
        match r {
            Some(n) => n == stmts_size(script@),
            None => stmts_size(script@) > usize::MAX,
        },
{
    stmts_size_checked(&script.statements)
}


// ---------------------------------------------------------------------------
// Labels, collected.
// ---------------------------------------------------------------------------

fn collect_labels_stmt(s: &Stmt, pc: usize, labels: &mut StrMap<usize>)
    requires
        pc + stmt_size(s@) <= usize::MAX,
    ensures
        final(labels)@ == labels_stmt(s@, pc as nat, old(labels)@),
    decreases s, 0nat,
{
    match &s.kind {
        StmtKind::Label { name } => {
            labels.insert(name.clone(), pc);
        },
        StmtKind::Menu { choices } => {
            collect_labels_choices(choices, pc + 1, labels);
        },
        StmtKind::If { then_body, else_body, .. } => {
            let then_size = match stmts_size_checked(then_body) {
                Some(n) => n,
                None => {
                    return;
                },
            };
            collect_labels_stmts(then_body, pc + 1, labels);
            collect_labels_stmts(else_body, pc + 2 + then_size, labels);
        },
        _ => {},
    }
}

fn collect_labels_stmts(v: &Vec<Stmt>, pc: usize, labels: &mut StrMap<usize>)
    requires
        pc + stmts_size(stmts_view(v@)) <= usize::MAX,
    ensures
        final(labels)@ == labels_stmts(stmts_view(v@), pc as nat, old(labels)@),
    decreases v, 1nat,
{
    let ghost ss = stmts_view(v@);
    let ghost m0 = labels@;
    let mut offset: usize = pc;
    let mut i: usize = 0;
    proof {
        lemma_stmts_view_take(v@, 0);
        assert(ss.take(0) =~= Seq::<SpecStmt>::empty());
    }
    while i < v.len()
        invariant
            i <= v@.len(),
            ss == stmts_view(v@),
            pc + stmts_size(ss) <= usize::MAX,
            offset == pc + stmts_size(ss.take(i as int)),
            labels@ == labels_stmts(ss.take(i as int), pc as nat, m0),
        decreases v@.len() - i,
    {
        proof {
            assert(decreases_to!(v => v@));
            assert(decreases_to!(v@ => v@[i as int]));
            lemma_stmts_view_take(v@, i as int);
            lemma_stmts_size_prefix(ss, i as int);
            lemma_stmts_size_prefix(ss, i as int + 1);
            assert(ss.take(i + 1).drop_last() =~= ss.take(i as int));
        }
        let n = match stmt_size_checked(&v[i]) {
            Some(n) => n,
            None => {
                return;
            },
        };
        collect_labels_stmt(&v[i], offset, labels);
        offset = offset + n;
        i = i + 1;
    }
    proof {
        assert(ss.take(v@.len() as int) =~= ss);
    }
}

fn collect_labels_choices(v: &Vec<Choice>, pc: usize, labels: &mut StrMap<usize>)
    requires
        pc + choices_size(crate::ast::choices_view(v@)) <= usize::MAX,
    ensures
        final(labels)@ == labels_choices(crate::ast::choices_view(v@), pc as nat, old(labels)@),
    decreases v, 1nat,
{
    let ghost cs = crate::ast::choices_view(v@);
    let ghost m0 = labels@;
    let mut offset: usize = pc;
    let mut i: usize = 0;
    proof {
        lemma_choices_view_take(v@, 0);
        assert(cs.take(0) =~= Seq::<SpecChoice>::empty());
    }
    while i < v.len()
        invariant
            i <= v@.len(),
            cs == crate::ast::choices_view(v@),
            pc + choices_size(cs) <= usize::MAX,
            offset == pc + choices_size(cs.take(i as int)),
            labels@ == labels_choices(cs.take(i as int), pc as nat, m0),
        decreases v@.len() - i,
    {
        proof {
            assert(decreases_to!(v => v@));
            assert(decreases_to!(v@ => v@[i as int]));
            assert(decreases_to!(v@[i as int] => v@[i as int].body));
            lemma_choices_view_take(v@, i as int);
            lemma_choices_size_prefix(cs, i as int);
            lemma_choices_size_prefix(cs, i as int + 1);
            assert(cs.take(i + 1).drop_last() =~= cs.take(i as int));
        }
        let n = match stmts_size_checked(&v[i].body) {
            Some(n) => n,
            None => {
                return;
            },
        };
        collect_labels_stmts(&v[i].body, offset, labels);
        offset = offset + n + 1;
        i = i + 1;
    }
    proof {
        assert(cs.take(v@.len() as int) =~= cs);
    }
}


// ---------------------------------------------------------------------------
// Emission, performed.
// ---------------------------------------------------------------------------

fn push_op(ops: &mut Vec<Op>, kind: OpKind, s: &Stmt)
    ensures
        seq_view(final(ops)@) == seq_view(old(ops)@).push(op_at(kind@, s@.pos)),
{
    let ghost before = seq_view(ops@);
    ops.push(Op { kind, pos: s.pos.duplicate() });
    assert(seq_view(ops@) =~= before.push(op_at(kind@, s@.pos)));
}

fn jump_target_exec(labels: &StrMap<usize>, label: &String) -> (r: usize)
    ensures
        r == jump_target(labels@, label@),
{
    match labels.get(label.as_str()) {
        Some(t) => *t,
        None => 0,
    }
}

fn menu_entries_exec(v: &Vec<Choice>, pc: usize) -> (r: Vec<MenuChoice>)
    requires
        pc + choices_size(crate::ast::choices_view(v@)) <= usize::MAX,
    ensures
        seq_view(r@) == menu_entries(crate::ast::choices_view(v@), pc as nat),
{
    let ghost cs = crate::ast::choices_view(v@);
    let mut r: Vec<MenuChoice> = Vec::new();
    let mut offset: usize = pc;
    let mut i: usize = 0;
    proof {
        lemma_choices_view_take(v@, 0);
        assert(cs.take(0) =~= Seq::<SpecChoice>::empty());
        assert(seq_view(r@) =~= Seq::<SpecMenuChoice>::empty());
    }
    while i < v.len()
        invariant
            i <= v@.len(),
            cs == crate::ast::choices_view(v@),
            pc + choices_size(cs) <= usize::MAX,
            offset == pc + choices_size(cs.take(i as int)),
            seq_view(r@) == menu_entries(cs.take(i as int), pc as nat),
        decreases v@.len() - i,
    {
        proof {
            lemma_choices_view_take(v@, i as int);
            lemma_choices_size_prefix(cs, i as int);
            lemma_choices_size_prefix(cs, i as int + 1);
            assert(cs.take(i + 1).drop_last() =~= cs.take(i as int));
        }
        let n = match stmts_size_checked(&v[i].body) {
            Some(n) => n,
            None => {
                return r;
            },
        };
        let c = &v[i];
        let ghost before = seq_view(r@);
        r.push(MenuChoice {
            text_id: duplicate_opt_str(&c.text_id),
            text: c.text.clone(),
            condition: duplicate_opt_expr(&c.condition),
            target: offset,
        });
        assert(seq_view(r@) =~= before.push(r@.last()@));
        offset = offset + n + 1;
        i = i + 1;
    }
    proof {
        assert(cs.take(v@.len() as int) =~= cs);
    }
    r
}

fn emit_stmt_exec(s: &Stmt, pc: usize, labels: &StrMap<usize>, ops: &mut Vec<Op>)
    requires
        pc + stmt_size(s@) <= usize::MAX,
    ensures
        seq_view(final(ops)@) == seq_view(old(ops)@) + emit_stmt(s@, pc as nat, labels@),
    decreases s, 0nat,
{
    let ghost before = seq_view(ops@);
    match &s.kind {
        StmtKind::Label { .. } => {
            assert(before + Seq::<SpecOp>::empty() =~= before);
        },
        StmtKind::Say { speaker, text_id, text, effect } => {
            push_op(
                ops,
                OpKind::Say {
                    speaker: duplicate_opt_str(speaker),
                    text_id: duplicate_opt_str(text_id),
                    text: text.clone(),
                    effect: *effect,
                },
                s,
            );
            assert(seq_view(ops@) =~= before + emit_stmt(s@, pc as nat, labels@));
        },
        StmtKind::Scene { image, transition } => {
            push_op(ops, OpKind::Scene { image: image.clone(), transition: duplicate_opt_transition(transition) }, s);
            assert(seq_view(ops@) =~= before + emit_stmt(s@, pc as nat, labels@));
        },
        StmtKind::Show { tag, attrs, position, transition } => {
            push_op(
                ops,
                OpKind::Show {
                    tag: tag.clone(),
                    attrs: duplicate_strings(attrs),
                    position: position.clone(),
                    transition: duplicate_opt_transition(transition),
                },
                s,
            );
            assert(seq_view(ops@) =~= before + emit_stmt(s@, pc as nat, labels@));
        },
        StmtKind::Hide { tag } => {
            push_op(ops, OpKind::Hide { tag: tag.clone() }, s);
            assert(seq_view(ops@) =~= before + emit_stmt(s@, pc as nat, labels@));
        },
        StmtKind::PlayMusic { path } => {
            push_op(ops, OpKind::PlayMusic { path: path.clone() }, s);
            assert(seq_view(ops@) =~= before + emit_stmt(s@, pc as nat, labels@));
        },
        StmtKind::StopMusic => {
            push_op(ops, OpKind::StopMusic, s);
            assert(seq_view(ops@) =~= before + emit_stmt(s@, pc as nat, labels@));
        },
        StmtKind::Jump { label } => {
            let target = jump_target_exec(labels, label);
            push_op(ops, OpKind::Jump { target }, s);
            assert(seq_view(ops@) =~= before + emit_stmt(s@, pc as nat, labels@));
        },
        StmtKind::Assign { var, op, value } => {
            push_op(ops, OpKind::Assign { var: var.clone(), op: *op, value: value.duplicate() }, s);
            assert(seq_view(ops@) =~= before + emit_stmt(s@, pc as nat, labels@));
        },
        StmtKind::End => {
            push_op(ops, OpKind::End, s);
            assert(seq_view(ops@) =~= before + emit_stmt(s@, pc as nat, labels@));
        },
        StmtKind::Menu { choices } => {
            let csize = match choices_size_checked(choices) {
                Some(n) => n,
                None => {
                    return;
                },
            };
            let end = pc + 1 + csize;
            let entries = menu_entries_exec(choices, pc + 1);
            push_op(ops, OpKind::Menu { choices: entries }, s);
            let ghost mid = seq_view(ops@);
            emit_choices_exec(choices, pc + 1, labels, end, s, ops);
            assert(seq_view(ops@) =~= before + emit_stmt(s@, pc as nat, labels@));
        },
        StmtKind::If { cond, then_body, else_body } => {
            let then_size = match stmts_size_checked(then_body) {
                Some(n) => n,
                None => {
                    return;
                },
            };
            let else_size = match stmts_size_checked(else_body) {
                Some(n) => n,
                None => {
                    return;
                },
            };
            let else_pc = pc + 2 + then_size;
            let end = else_pc + else_size;
            push_op(ops, OpKind::Branch { cond: cond.duplicate(), then_pc: pc + 1, else_pc }, s);
            emit_stmts_exec(then_body, pc + 1, labels, ops);
            push_op(ops, OpKind::Jump { target: end }, s);
            emit_stmts_exec(else_body, else_pc, labels, ops);
            assert(seq_view(ops@) =~= before + emit_stmt(s@, pc as nat, labels@));
        },
    }
}

fn emit_stmts_exec(v: &Vec<Stmt>, pc: usize, labels: &StrMap<usize>, ops: &mut Vec<Op>)
    requires
        pc + stmts_size(stmts_view(v@)) <= usize::MAX,
    ensures
        seq_view(final(ops)@) == seq_view(old(ops)@) + emit_stmts(stmts_view(v@), pc as nat, labels@),
    decreases v, 1nat,
{
    let ghost ss = stmts_view(v@);
    let ghost before = seq_view(ops@);
    let mut offset: usize = pc;
    let mut i: usize = 0;
    proof {
        lemma_stmts_view_take(v@, 0);
        assert(ss.take(0) =~= Seq::<SpecStmt>::empty());
        assert(before + Seq::<SpecOp>::empty() =~= before);
    }
    while i < v.len()
        invariant
            i <= v@.len(),
            ss == stmts_view(v@),
            pc + stmts_size(ss) <= usize::MAX,
            offset == pc + stmts_size(ss.take(i as int)),
            seq_view(ops@) == before + emit_stmts(ss.take(i as int), pc as nat, labels@),
        decreases v@.len() - i,
    {
        proof {
            assert(decreases_to!(v => v@));
            assert(decreases_to!(v@ => v@[i as int]));
            lemma_stmts_view_take(v@, i as int);
            lemma_stmts_size_prefix(ss, i as int);
            lemma_stmts_size_prefix(ss, i as int + 1);
            assert(ss.take(i + 1).drop_last() =~= ss.take(i as int));
        }
        let n = match stmt_size_checked(&v[i]) {
            Some(n) => n,
            None => {
                return;
            },
        };
        let ghost mid = seq_view(ops@);
        emit_stmt_exec(&v[i], offset, labels, ops);
        proof {
            let a = emit_stmts(ss.take(i as int), pc as nat, labels@);
            let b = emit_stmt(ss[i as int], offset as nat, labels@);
            assert(emit_stmts(ss.take(i + 1), pc as nat, labels@) == a + b);
            assert(seq_view(ops@) =~= before + (a + b));
        }
        offset = offset + n;
        i = i + 1;
    }
    proof {
        assert(ss.take(v@.len() as int) =~= ss);
    }
}

fn emit_choices_exec(v: &Vec<Choice>, pc: usize, labels: &StrMap<usize>, end: usize, s: &Stmt, ops: &mut Vec<Op>)
    requires
        pc + choices_size(crate::ast::choices_view(v@)) <= usize::MAX,
    ensures
        seq_view(final(ops)@) == seq_view(old(ops)@) + emit_choices(
            crate::ast::choices_view(v@),
            pc as nat,
            labels@,
            end,
            s@.pos,
        ),
    decreases v, 1nat,
{
    let ghost cs = crate::ast::choices_view(v@);
    let ghost before = seq_view(ops@);
    let mut offset: usize = pc;
    let mut i: usize = 0;
    proof {
        lemma_choices_view_take(v@, 0);
        assert(cs.take(0) =~= Seq::<SpecChoice>::empty());
        assert(before + Seq::<SpecOp>::empty() =~= before);
    }
    while i < v.len()
        invariant
            i <= v@.len(),
            cs == crate::ast::choices_view(v@),
            pc + choices_size(cs) <= usize::MAX,
            offset == pc + choices_size(cs.take(i as int)),
            seq_view(ops@) == before + emit_choices(cs.take(i as int), pc as nat, labels@, end, s@.pos),
        decreases v@.len() - i,
    {
        proof {
            assert(decreases_to!(v => v@));
            assert(decreases_to!(v@ => v@[i as int]));
            assert(decreases_to!(v@[i as int] => v@[i as int].body));
            lemma_choices_view_take(v@, i as int);
            lemma_choices_size_prefix(cs, i as int);
            lemma_choices_size_prefix(cs, i as int + 1);
            assert(cs.take(i + 1).drop_last() =~= cs.take(i as int));
        }
        let n = match stmts_size_checked(&v[i].body) {
            Some(n) => n,
            None => {
                return;
            },
        };
        emit_stmts_exec(&v[i].body, offset, labels, ops);
        push_op(ops, OpKind::Jump { target: end }, s);
        proof {
            let a = emit_choices(cs.take(i as int), pc as nat, labels@, end, s@.pos);
            let b = emit_stmts(cs[i as int].body, offset as nat, labels@);
            let c = seq![op_at(SpecOpKind::Jump { target: end }, s@.pos)];
            assert(emit_choices(cs.take(i + 1), pc as nat, labels@, end, s@.pos) == a + b + c);
            assert(seq_view(ops@) =~= before + (a + b + c));
        }
        offset = offset + n + 1;
        i = i + 1;
    }
    proof {
        assert(cs.take(v@.len() as int) =~= cs);
    }
}

/// Compiles a script: labels name the index of the next operation, jumps resolve to the
/// label's index (0 for an unknown label), menus and conditionals become explicit jumps.
pub fn compile(script: &Script) -> (r: Program)
    requires
        stmts_size(script@) <= usize::MAX,
    ensures
        r@ == compiled(script@),
{
    let mut labels: StrMap<usize> = StrMap::new();
    collect_labels_stmts(&script.statements, 0, &mut labels);
    let mut ops: Vec<Op> = Vec::new();
    assert(seq_view(ops@) =~= Seq::<SpecOp>::empty());
    emit_stmts_exec(&script.statements, 0, &labels, &mut ops);
    assert(seq_view(ops@) =~= emit_stmts(script@, 0, labels@));
    Program { ops, labels }
}

// ---------------------------------------------------------------------------
// Laws.
// ---------------------------------------------------------------------------

/// Every place an operation can send the machine to is at most `bound`.
pub open spec fn targets_within(op: SpecOp, bound: nat) -> bool {
    match op.kind {
        SpecOpKind::Jump { target } => target <= bound,
        SpecOpKind::Branch { then_pc, else_pc, .. } => then_pc <= bound && else_pc <= bound,
        SpecOpKind::Menu { choices } => forall|i: int| 0 <= i < choices.len() ==> #[trigger] choices[i].target <= bound,
        _ => true,
    }
}

/// Every operation of a list sends the machine at most to `bound`.
pub open spec fn all_within(ops: Seq<SpecOp>, bound: nat) -> bool {
    forall|i: int| 0 <= i < ops.len() ==> targets_within(#[trigger] ops[i], bound)
}

/// Every label names an index at most `bound`.
pub open spec fn labels_within(m: Map<Seq<char>, usize>, bound: nat) -> bool {
    forall|k: Seq<char>| #[trigger] m.contains_key(k) ==> m[k] <= bound
}

proof fn lemma_all_within_concat(a: Seq<SpecOp>, b: Seq<SpecOp>, bound: nat)
    requires
        all_within(a, bound),
        all_within(b, bound),
    ensures
        all_within(a + b, bound),
{
    assert forall|i: int| 0 <= i < (a + b).len() implies targets_within(#[trigger] (a + b)[i], bound) by {
        if i < a.len() {
            assert((a + b)[i] == a[i]);
        } else {
            assert((a + b)[i] == b[i - a.len()]);
        }
    }
}

/// A conditional placed at `pc` compiles to its branch, the then-body from `pc + 1`, a jump,
/// and the else-body: the branch goes to the then-body and to the first operation of the
/// else-body, and the jump that closes the then-body goes to the first operation after the
/// whole conditional, so a taken then-branch never runs an operation of the else-body.
pub proof fn law_if_jumps_past_else(s: SpecStmt, pc: nat, labels: Map<Seq<char>, usize>)
    requires
        s.kind is If,
    ensures
        match s.kind {
            SpecStmtKind::If { cond, then_body, else_body } => {
                let ops = emit_stmt(s, pc, labels);
                let t = stmts_size(then_body);
                &&& ops.len() == stmt_size(s)
                &&& stmt_size(s) == 2 + t + stmts_size(else_body)
                &&& ops[0].kind == (SpecOpKind::Branch {
                    cond,
                    then_pc: (pc + 1) as usize,
                    else_pc: (pc + 2 + t) as usize,
                })
                &&& ops[1 + t as int].kind == (SpecOpKind::Jump { target: (pc + stmt_size(s)) as usize })
                &&& ops.subrange(1, 1 + t as int) == emit_stmts(then_body, pc + 1, labels)
                &&& ops.subrange(2 + t as int, ops.len() as int) == emit_stmts(else_body, pc + 2 + t, labels)
            },
            _ => true,
        },
{
    lemma_emit_len_stmt(s, pc, labels);
    match s.kind {
        SpecStmtKind::If { cond, then_body, else_body } => {
            let t = stmts_size(then_body);
            lemma_emit_len_stmts(then_body, pc + 1, labels);
            lemma_emit_len_stmts(else_body, pc + 2 + t, labels);
            let a = seq![op_at(SpecOpKind::Branch { cond, then_pc: (pc + 1) as usize, else_pc: (pc + 2 + t) as usize }, s.pos)];
            let b = emit_stmts(then_body, pc + 1, labels);
            let c = seq![op_at(SpecOpKind::Jump { target: (pc + 2 + t + stmts_size(else_body)) as usize }, s.pos)];
            let d = emit_stmts(else_body, pc + 2 + t, labels);
            let ops = emit_stmt(s, pc, labels);
            assert(ops == a + b + c + d);
            assert(ops[1 + t as int] == c[0]);
            assert(ops.subrange(1, 1 + t as int) =~= b);
            assert(ops.subrange(2 + t as int, ops.len() as int) =~= d);
        },
        _ => {},
    }
}

proof fn lemma_emit_len_stmt(s: SpecStmt, pc: nat, labels: Map<Seq<char>, usize>)
    ensures
        emit_stmt(s, pc, labels).len() == stmt_size(s),
    decreases s, 0nat,
{
    match s.kind {
        SpecStmtKind::Menu { choices } => {
            lemma_emit_len_choices(choices, pc + 1, labels, (pc + 1 + choices_size(choices)) as usize, s.pos);
        },
        SpecStmtKind::If { then_body, else_body, .. } => {
            lemma_emit_len_stmts(then_body, pc + 1, labels);
            lemma_emit_len_stmts(else_body, pc + 2 + stmts_size(then_body), labels);
        },
        _ => {},
    }
}

proof fn lemma_emit_len_stmts(ss: Seq<SpecStmt>, pc: nat, labels: Map<Seq<char>, usize>)
    ensures
        emit_stmts(ss, pc, labels).len() == stmts_size(ss),
    decreases ss, 1nat,
{
    if ss.len() > 0 {
        lemma_emit_len_stmts(ss.drop_last(), pc, labels);
        lemma_emit_len_stmt(ss.last(), pc + stmts_size(ss.drop_last()), labels);
    }
}

proof fn lemma_emit_len_choices(
    cs: Seq<SpecChoice>,
    pc: nat,
    labels: Map<Seq<char>, usize>,
    end: usize,
    pos: SpecSourcePos,
)
    ensures
        emit_choices(cs, pc, labels, end, pos).len() == choices_size(cs),
    decreases cs, 1nat,
{
    if cs.len() > 0 {
        lemma_emit_len_choices(cs.drop_last(), pc, labels, end, pos);
        lemma_emit_len_stmts(cs.last().body, pc + choices_size(cs.drop_last()), labels);
    }
}

proof fn lemma_labels_stmt(s: SpecStmt, pc: nat, m: Map<Seq<char>, usize>, bound: nat)
    requires
        labels_within(m, bound),
        pc + stmt_size(s) <= bound,
        bound <= usize::MAX,
    ensures
        labels_within(labels_stmt(s, pc, m), bound),
    decreases s, 0nat,
{
    match s.kind {
        SpecStmtKind::Menu { choices } => {
            lemma_labels_choices(choices, pc + 1, m, bound);
        },
        SpecStmtKind::If { then_body, else_body, .. } => {
            lemma_labels_stmts(then_body, pc + 1, m, bound);
            lemma_labels_stmts(else_body, pc + 2 + stmts_size(then_body), labels_stmts(then_body, pc + 1, m), bound);
        },
        _ => {},
    }
}

proof fn lemma_labels_stmts(ss: Seq<SpecStmt>, pc: nat, m: Map<Seq<char>, usize>, bound: nat)
    requires
        labels_within(m, bound),
        pc + stmts_size(ss) <= bound,
        bound <= usize::MAX,
    ensures
        labels_within(labels_stmts(ss, pc, m), bound),
    decreases ss, 1nat,
{
    if ss.len() > 0 {
        lemma_labels_stmts(ss.drop_last(), pc, m, bound);
        lemma_labels_stmt(ss.last(), pc + stmts_size(ss.drop_last()), labels_stmts(ss.drop_last(), pc, m), bound);
    }
}

proof fn lemma_labels_choices(cs: Seq<SpecChoice>, pc: nat, m: Map<Seq<char>, usize>, bound: nat)
    requires
        labels_within(m, bound),
        pc + choices_size(cs) <= bound,
        bound <= usize::MAX,
    ensures
        labels_within(labels_choices(cs, pc, m), bound),
    decreases cs, 1nat,
{
    if cs.len() > 0 {
        lemma_labels_choices(cs.drop_last(), pc, m, bound);
        lemma_labels_stmts(
            cs.last().body,
            pc + choices_size(cs.drop_last()),
            labels_choices(cs.drop_last(), pc, m),
            bound,
        );
    }
}

proof fn lemma_menu_entries(cs: Seq<SpecChoice>, pc: nat, bound: nat)
    requires
        pc + choices_size(cs) <= bound,
        bound <= usize::MAX,
    ensures
        menu_entries(cs, pc).len() == cs.len(),
        forall|i: int| 0 <= i < cs.len() ==> #[trigger] menu_entries(cs, pc)[i].target <= bound,
    decreases cs.len(),
{
    if cs.len() > 0 {
        lemma_menu_entries(cs.drop_last(), pc, bound);
        let e = menu_entries(cs, pc);
        assert forall|i: int| 0 <= i < cs.len() implies #[trigger] e[i].target <= bound by {
            if i < cs.len() - 1 {
                assert(e[i] == menu_entries(cs.drop_last(), pc)[i]);
            }
        }
    }
}

proof fn lemma_targets_stmt(s: SpecStmt, pc: nat, labels: Map<Seq<char>, usize>, bound: nat)
    requires
        labels_within(labels, bound),
        pc + stmt_size(s) <= bound,
        bound <= usize::MAX,
    ensures
        all_within(emit_stmt(s, pc, labels), bound),
    decreases s, 0nat,
{
    let pos = s.pos;
    match s.kind {
        SpecStmtKind::Menu { choices } => {
            let end = (pc + 1 + choices_size(choices)) as usize;
            lemma_menu_entries(choices, pc + 1, bound);
            lemma_targets_choices(choices, pc + 1, labels, end, pos, bound);
            let head = seq![op_at(SpecOpKind::Menu { choices: menu_entries(choices, pc + 1) }, pos)];
            assert(all_within(head, bound)) by {
                assert(targets_within(head[0], bound));
            }
            lemma_all_within_concat(head, emit_choices(choices, pc + 1, labels, end, pos), bound);
        },
        SpecStmtKind::Jump { label } => {
            let one = seq![op_at(SpecOpKind::Jump { target: jump_target(labels, label) }, pos)];
            assert(targets_within(one[0], bound));
        },
        SpecStmtKind::If { cond, then_body, else_body } => {
            let else_pc = pc + 2 + stmts_size(then_body);
            let end = else_pc + stmts_size(else_body);
            lemma_targets_stmts(then_body, pc + 1, labels, bound);
            lemma_targets_stmts(else_body, else_pc, labels, bound);
            let head = seq![
                op_at(SpecOpKind::Branch { cond, then_pc: (pc + 1) as usize, else_pc: else_pc as usize }, pos),
            ];
            let mid = seq![op_at(SpecOpKind::Jump { target: end as usize }, pos)];
            assert(all_within(head, bound)) by {
                assert(targets_within(head[0], bound));
            }
            assert(all_within(mid, bound)) by {
                assert(targets_within(mid[0], bound));
            }
            lemma_all_within_concat(head, emit_stmts(then_body, pc + 1, labels), bound);
            lemma_all_within_concat(head + emit_stmts(then_body, pc + 1, labels), mid, bound);
            lemma_all_within_concat(
                head + emit_stmts(then_body, pc + 1, labels) + mid,
                emit_stmts(else_body, else_pc, labels),
                bound,
            );
        },
        _ => {
            let ops = emit_stmt(s, pc, labels);
            assert forall|i: int| 0 <= i < ops.len() implies targets_within(#[trigger] ops[i], bound) by {
            }
        },
    }
}

proof fn lemma_targets_stmts(ss: Seq<SpecStmt>, pc: nat, labels: Map<Seq<char>, usize>, bound: nat)
    requires
        labels_within(labels, bound),
        pc + stmts_size(ss) <= bound,
        bound <= usize::MAX,
    ensures
        all_within(emit_stmts(ss, pc, labels), bound),
    decreases ss, 1nat,
{
    if ss.len() > 0 {
        lemma_targets_stmts(ss.drop_last(), pc, labels, bound);
        lemma_targets_stmt(ss.last(), pc + stmts_size(ss.drop_last()), labels, bound);
        lemma_all_within_concat(
            emit_stmts(ss.drop_last(), pc, labels),
            emit_stmt(ss.last(), pc + stmts_size(ss.drop_last()), labels),
            bound,
        );
    }
}

proof fn lemma_targets_choices(
    cs: Seq<SpecChoice>,
    pc: nat,
    labels: Map<Seq<char>, usize>,
    end: usize,
    pos: SpecSourcePos,
    bound: nat,
)
    requires
        labels_within(labels, bound),
        pc + choices_size(cs) <= bound,
        end <= bound,
        bound <= usize::MAX,
    ensures
        all_within(emit_choices(cs, pc, labels, end, pos), bound),
    decreases cs, 1nat,
{
    if cs.len() > 0 {
        lemma_targets_choices(cs.drop_last(), pc, labels, end, pos, bound);
        lemma_targets_stmts(cs.last().body, pc + choices_size(cs.drop_last()), labels, bound);
        let jump = seq![op_at(SpecOpKind::Jump { target: end }, pos)];
        assert(all_within(jump, bound)) by {
            assert(targets_within(jump[0], bound));
        }
        let a = emit_choices(cs.drop_last(), pc, labels, end, pos);
        let b = emit_stmts(cs.last().body, pc + choices_size(cs.drop_last()), labels);
        lemma_all_within_concat(a, b, bound);
        lemma_all_within_concat(a + b, jump, bound);
    }
}

/// A compiled script has one operation per emitted statement, and every jump, branch, menu
/// entry and label points at an operation or at the end of the program.
pub proof fn law_compiled_targets_in_range(ss: Seq<SpecStmt>)
    requires
        stmts_size(ss) <= usize::MAX,
    ensures
        compiled(ss).ops.len() == stmts_size(ss),
        all_within(compiled(ss).ops, compiled(ss).ops.len()),
        labels_within(compiled(ss).labels, compiled(ss).ops.len()),
{
    let bound = stmts_size(ss);
    lemma_emit_len_stmts(ss, 0, labels_stmts(ss, 0, Map::empty()));
    lemma_labels_stmts(ss, 0, Map::empty(), bound);
    lemma_targets_stmts(ss, 0, labels_stmts(ss, 0, Map::empty()), bound);
}

} // verus!
