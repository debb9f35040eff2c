//! Compiled story program: a flat list of operations with jump targets.
use vstd::prelude::*;
use crate::ast::{
    duplicate_opt_expr, duplicate_opt_str, duplicate_opt_transition, duplicate_strings, opt_expr_view,
    opt_str_view, opt_transition_view, AssignOp, Expr, SourcePos, SpecExpr, SpecSourcePos, SpecTransition,
    TextEffect, Transition,
};
use crate::strmap::{Duplicate, StrMap};
pub use crate::text::seq_view;

verus! {

/// Index of a compiled operation.
pub type OpId = usize;

/// Compiled menu choice.
#[derive(Clone, Debug, PartialEq, Eq)]
pub struct MenuChoice {
    pub text_id: Option<String>,
    pub text: String,
    pub condition: Option<Expr>,
    pub target: OpId,
}

/// Model of a compiled menu choice.
pub struct SpecMenuChoice {
    pub text_id: Option<Seq<char>>,
    pub text: Seq<char>,
    pub condition: Option<SpecExpr>,
    pub target: OpId,
}

impl View for MenuChoice {
    type V = SpecMenuChoice;

    open spec fn view(&self) -> SpecMenuChoice {
        SpecMenuChoice {
            text_id: opt_str_view(self.text_id),
            text: self.text@,
            condition: opt_expr_view(self.condition),
            target: self.target,
        }
    }
}

impl Duplicate for MenuChoice {
    fn duplicate(&self) -> (r: MenuChoice) {
        MenuChoice {
            text_id: duplicate_opt_str(&self.text_id),
            text: self.text.clone(),
            condition: duplicate_opt_expr(&self.condition),
            target: self.target,
        }
    }
}

/// Copies a list element by element.
pub fn duplicate_vec<T: Duplicate>(v: &Vec<T>) -> (r: Vec<T>)
    ensures
        seq_view(r@) == seq_view(v@),
{
    let mut r: Vec<T> = Vec::new();
    let mut i: usize = 0;
    while i < v.len()
        invariant
            i <= v@.len(),
            r@.len() == i,
            forall|j: int| 0 <= j < i ==> (#[trigger] r@[j])@ == v@[j]@,
        decreases v@.len() - i,
    {
        r.push(v[i].duplicate());
        i = i + 1;
    }
    assert(seq_view(r@) =~= seq_view(v@));
    r
}

/// Deterministic story bytecode.
#[derive(Clone, Debug, PartialEq, Eq)]
pub enum OpKind {
    Say { speaker: Option<String>, text_id: Option<String>, text: String, effect: TextEffect },
    Scene { image: String, transition: Option<Transition> },
    Show { tag: String, attrs: Vec<String>, position: String, transition: Option<Transition> },
    Hide { tag: String },
    PlayMusic { path: String },
    StopMusic,
    Menu { choices: Vec<MenuChoice> },
    Jump { target: OpId },
    Assign { var: String, op: AssignOp, value: Expr },
    Branch { cond: Expr, then_pc: OpId, else_pc: OpId },
    End,
}

/// Model of an operation kind.
pub enum SpecOpKind {
    Say {
        speaker: Option<Seq<char>>,
        text_id: Option<Seq<char>>,
        text: Seq<char>,
        effect: TextEffect,
    },
    Scene { image: Seq<char>, transition: Option<SpecTransition> },
    Show {
        tag: Seq<char>,
        attrs: Seq<Seq<char>>,
        position: Seq<char>,
        transition: Option<SpecTransition>,
    },
    Hide { tag: Seq<char> },
    PlayMusic { path: Seq<char> },
    StopMusic,
    Menu { choices: Seq<SpecMenuChoice> },
    Jump { target: OpId },
    Assign { var: Seq<char>, op: AssignOp, value: SpecExpr },
    Branch { cond: SpecExpr, then_pc: OpId, else_pc: OpId },
    End,
}

impl View for OpKind {
    type V = SpecOpKind;

    open spec fn view(&self) -> SpecOpKind {
        match self {
            OpKind::Say { speaker, text_id, text, effect } => SpecOpKind::Say {
                speaker: opt_str_view(*speaker),
                text_id: opt_str_view(*text_id),
                text: text@,
                effect: *effect,
            },
            OpKind::Scene { image, transition } => SpecOpKind::Scene {
                image: image@,
                transition: opt_transition_view(*transition),
            },
            OpKind::Show { tag, attrs, position, transition } => SpecOpKind::Show {
                tag: tag@,
                attrs: attrs.deep_view(),
                position: position@,
                transition: opt_transition_view(*transition),
            },
            OpKind::Hide { tag } => SpecOpKind::Hide { tag: tag@ },
            OpKind::PlayMusic { path } => SpecOpKind::PlayMusic { path: path@ },
            OpKind::StopMusic => SpecOpKind::StopMusic,
            OpKind::Menu { choices } => SpecOpKind::Menu { choices: seq_view(choices@) },
            OpKind::Jump { target } => SpecOpKind::Jump { target: *target },
            OpKind::Assign { var, op, value } => SpecOpKind::Assign { var: var@, op: *op, value: value@ },
            OpKind::Branch { cond, then_pc, else_pc } => SpecOpKind::Branch {
                cond: cond@,
                then_pc: *then_pc,
                else_pc: *else_pc,
            },
            OpKind::End => SpecOpKind::End,
        }
    }
}

impl Duplicate for OpKind {
    fn duplicate(&self) -> (r: OpKind) {
        match self {
            OpKind::Say { speaker, text_id, text, effect } => OpKind::Say {
                speaker: duplicate_opt_str(speaker),
                text_id: duplicate_opt_str(text_id),
                text: text.clone(),
                effect: *effect,
            },
            OpKind::Scene { image, transition } => OpKind::Scene {
                image: image.clone(),
                transition: duplicate_opt_transition(transition),
            },
            OpKind::Show { tag, attrs, position, transition } => OpKind::Show {
                tag: tag.clone(),
                attrs: duplicate_strings(attrs),
                position: position.clone(),
                transition: duplicate_opt_transition(transition),
            },
            OpKind::Hide { tag } => OpKind::Hide { tag: tag.clone() },
            OpKind::PlayMusic { path } => OpKind::PlayMusic { path: path.clone() },
            OpKind::StopMusic => OpKind::StopMusic,
            OpKind::Menu { choices } => OpKind::Menu { choices: duplicate_vec(choices) },
            OpKind::Jump { target } => OpKind::Jump { target: *target },
            OpKind::Assign { var, op, value } => OpKind::Assign {
                var: var.clone(),
                op: *op,
                value: value.duplicate(),
            },
            OpKind::Branch { cond, then_pc, else_pc } => OpKind::Branch {
                cond: cond.duplicate(),
                then_pc: *then_pc,
                else_pc: *else_pc,
            },
            OpKind::End => OpKind::End,
        }
    }
}

/// Runtime operation with its source position.
#[derive(Clone, Debug, PartialEq, Eq)]
pub struct Op {
    pub kind: OpKind,
    pub pos: SourcePos,
}

/// Model of an operation.
pub struct SpecOp {
    pub kind: SpecOpKind,
    pub pos: SpecSourcePos,
}

impl View for Op {
    type V = SpecOp;

    open spec fn view(&self) -> SpecOp {
        SpecOp { kind: self.kind@, pos: self.pos@ }
    }
}

impl Duplicate for Op {
    fn duplicate(&self) -> (r: Op) {
        Op { kind: self.kind.duplicate(), pos: self.pos.duplicate() }
    }
}

/// Compiled runtime program.
#[derive(Debug)]
pub struct Program {
    pub ops: Vec<Op>,
    pub labels: StrMap<OpId>,
}

/// Model of a program.
pub struct SpecProgram {
    pub ops: Seq<SpecOp>,
    pub labels: Map<Seq<char>, OpId>,
}

impl View for Program {
    type V = SpecProgram;

    open spec fn view(&self) -> SpecProgram {
        SpecProgram { ops: seq_view(self.ops@), labels: self.labels@ }
    }
}

impl Duplicate for Program {
    fn duplicate(&self) -> (r: Program) {
        Program { ops: duplicate_vec(&self.ops), labels: self.labels.duplicate() }
    }
}

impl Clone for Program {
    fn clone(&self) -> (r: Self)
        ensures
            r@ == self@,
    {
        self.duplicate()
    }
}

} // verus!
