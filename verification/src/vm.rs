//! Deterministic story machine: executes a compiled program until the next interaction.
use vstd::prelude::*;
use crate::ast::{
    duplicate_opt_str, opt_str_view, opt_transition_view, AssignOp, BinaryOp, Expr, SpecExpr, SpecTransition,
    SpecValue, TextEffect, Transition, Value,
};
use crate::ir::{
    duplicate_vec, seq_view, MenuChoice, OpId, OpKind, Program, SpecMenuChoice, SpecOpKind, SpecProgram,
};
use crate::save::{
    empty_presentation, DialogueSnapshot, PresentationSnapshot, SpriteSnapshot, RollbackCheckpoint, SpecCheckpoint, SpecDialogue, SpecPresentation, SpecSprite,
};
use crate::strmap::{Duplicate, StrMap};

verus! {

/// Most checkpoints kept for rollback; the oldest are dropped first.
pub const ROLLBACK_LIMIT: usize = 100;

/// Story history entry for rollback and debug views.
#[derive(Clone, Debug, PartialEq, Eq)]
pub struct HistoryEntry {
    pub speaker: Option<String>,
    pub text: String,
}

/// Model of a history entry.
pub struct SpecHistoryEntry {
    pub speaker: Option<Seq<char>>,
    pub text: Seq<char>,
}

impl View for HistoryEntry {
    type V = SpecHistoryEntry;

    open spec fn view(&self) -> SpecHistoryEntry {
        SpecHistoryEntry { speaker: opt_str_view(self.speaker), text: self.text@ }
    }
}

impl Duplicate for HistoryEntry {
    fn duplicate(&self) -> (r: HistoryEntry) {
        HistoryEntry { speaker: duplicate_opt_str(&self.speaker), text: self.text.clone() }
    }
}

impl Duplicate for Value {
    fn duplicate(&self) -> (r: Value) {
        Value::duplicate(self)
    }
}

/// Serializable machine state.
#[derive(Debug)]
pub struct VmState {
    pub pc: OpId,
    pub variables: StrMap<Value>,
    pub current_choices: Vec<MenuChoice>,
    pub history: Vec<HistoryEntry>,
}

/// Model of the machine state.
pub struct SpecVmState {
    pub pc: OpId,
    pub variables: Map<Seq<char>, SpecValue>,
    pub current_choices: Seq<SpecMenuChoice>,
    pub history: Seq<SpecHistoryEntry>,
}

impl View for VmState {
    type V = SpecVmState;

    open spec fn view(&self) -> SpecVmState {
        SpecVmState {
            pc: self.pc,
            variables: self.variables@,
            current_choices: seq_view(self.current_choices@),
            history: seq_view(self.history@),
        }
    }
}

impl Duplicate for VmState {
    fn duplicate(&self) -> (r: VmState) {
        VmState {
            pc: self.pc,
            variables: self.variables.duplicate(),
            current_choices: duplicate_vec(&self.current_choices),
            history: duplicate_vec(&self.history),
        }
    }
}

impl Clone for VmState {
    fn clone(&self) -> (r: Self)
        ensures
            r@ == self@,
    {
        self.duplicate()
    }
}

/// The state at program start: the given counter, no variables, no menu, no history.
pub open spec fn initial_state(pc: OpId) -> SpecVmState {
    SpecVmState {
        pc,
        variables: Map::empty(),
        current_choices: Seq::empty(),
        history: Seq::empty(),
    }
}

impl VmState {
    /// A state at the given program counter with nothing else set.
    pub fn at(pc: OpId) -> (r: VmState)
        ensures
            r@ == initial_state(pc),
    {
        let r = VmState {
            pc,
            variables: StrMap::new(),
            current_choices: Vec::new(),
            history: Vec::new(),
        };
        assert(seq_view(r.current_choices@) =~= Seq::<SpecMenuChoice>::empty());
        assert(seq_view(r.history@) =~= Seq::<SpecHistoryEntry>::empty());
        r
    }
}

impl Default for VmState {
    fn default() -> (r: Self)
        ensures
            r@ == initial_state(0),
    {
        VmState::at(0)
    }
}

/// Events consumed by presentation and user interface.
#[derive(Clone, Debug, PartialEq, Eq)]
pub enum VmEvent {
    Dialogue { speaker: Option<String>, text: String, effect: TextEffect },
    Scene { image: String, transition: Option<Transition> },
    Show { tag: String, attrs: Vec<String>, position: String, transition: Option<Transition> },
    Hide { tag: String },
    PlayMusic { path: String },
    StopMusic,
    Menu { choices: Vec<String> },
    End,
}

/// Model of an event.
pub enum SpecEvent {
    Dialogue { speaker: Option<Seq<char>>, text: Seq<char>, effect: TextEffect },
    Scene { image: Seq<char>, transition: Option<SpecTransition> },
    Show {
        tag: Seq<char>,
        attrs: Seq<Seq<char>>,
        position: Seq<char>,
        transition: Option<SpecTransition>,
    },
    Hide { tag: Seq<char> },
    PlayMusic { path: Seq<char> },
    StopMusic,
    Menu { choices: Seq<Seq<char>> },
    End,
}

impl View for VmEvent {
    type V = SpecEvent;

    open spec fn view(&self) -> SpecEvent {
        match self {
            VmEvent::Dialogue { speaker, text, effect } => SpecEvent::Dialogue {
                speaker: opt_str_view(*speaker),
                text: text@,
                effect: *effect,
            },
            VmEvent::Scene { image, transition } => SpecEvent::Scene {
                image: image@,
                transition: opt_transition_view(*transition),
            },
            VmEvent::Show { tag, attrs, position, transition } => SpecEvent::Show {
                tag: tag@,
                attrs: attrs.deep_view(),
                position: position@,
                transition: opt_transition_view(*transition),
            },
            VmEvent::Hide { tag } => SpecEvent::Hide { tag: tag@ },
            VmEvent::PlayMusic { path } => SpecEvent::PlayMusic { path: path@ },
            VmEvent::StopMusic => SpecEvent::StopMusic,
            VmEvent::Menu { choices } => SpecEvent::Menu { choices: choices.deep_view() },
            VmEvent::End => SpecEvent::End,
        }
    }
}

/// Execution errors.
#[derive(Clone, Debug, PartialEq, Eq)]
pub enum VmError {
    InvalidProgramCounter { pc: OpId },
    InvalidChoice { choice: usize },
    TypeMismatch { expected: String, actual: String },
    UnknownVariable { name: String },
    /// The program defines no `start` label.
    MissingStartLabel,
    /// Integer arithmetic left the 64-bit range.
    ArithmeticOverflow,
    /// The step budget ran out before the next interaction.
    StepLimitExceeded,
}

/// Model of an execution error.
pub enum SpecVmError {
    InvalidProgramCounter { pc: OpId },
    InvalidChoice { choice: usize },
    TypeMismatch { expected: Seq<char>, actual: Seq<char> },
    UnknownVariable { name: Seq<char> },
    MissingStartLabel,
    ArithmeticOverflow,
    StepLimitExceeded,
}

impl View for VmError {
    type V = SpecVmError;

    open spec fn view(&self) -> SpecVmError {
        match self {
            VmError::InvalidProgramCounter { pc } => SpecVmError::InvalidProgramCounter { pc: *pc },
            VmError::InvalidChoice { choice } => SpecVmError::InvalidChoice { choice: *choice },
            VmError::TypeMismatch { expected, actual } => SpecVmError::TypeMismatch {
                expected: expected@,
                actual: actual@,
            },
            VmError::UnknownVariable { name } => SpecVmError::UnknownVariable { name: name@ },
            VmError::MissingStartLabel => SpecVmError::MissingStartLabel,
            VmError::ArithmeticOverflow => SpecVmError::ArithmeticOverflow,
            VmError::StepLimitExceeded => SpecVmError::StepLimitExceeded,
        }
    }
}

/// Model of an outcome.
pub open spec fn outcome_view<T: View>(r: Result<T, VmError>) -> Result<T::V, SpecVmError> {
    match r {
        Ok(t) => Ok(t@),
        Err(e) => Err(e@),
    }
}

// ---------------------------------------------------------------------------
// Values and expressions.
// ---------------------------------------------------------------------------

/// Name of a value's type, as reported in type errors.
pub open spec fn value_type_name(v: SpecValue) -> Seq<char> {
    match v {
        SpecValue::Bool(_) => "bool"@,
        SpecValue::Int(_) => "int"@,
        SpecValue::Str(_) => "string"@,
    }
}

/// A value used as a boolean.
pub open spec fn as_bool(v: SpecValue) -> Result<bool, SpecVmError> {
    match v {
        SpecValue::Bool(b) => Ok(b),
        _ => Err(SpecVmError::TypeMismatch { expected: "bool"@, actual: value_type_name(v) }),
    }
}

/// A value used as an integer.
pub open spec fn as_int(v: SpecValue) -> Result<i64, SpecVmError> {
    match v {
        SpecValue::Int(i) => Ok(i),
        _ => Err(SpecVmError::TypeMismatch { expected: "int"@, actual: value_type_name(v) }),
    }
}

/// Integer result, or an overflow error outside the 64-bit range.
pub open spec fn int_result(x: int) -> Result<SpecValue, SpecVmError> {
    if i64::MIN <= x <= i64::MAX {
        Ok(SpecValue::Int(x as i64))
    } else {
        Err(SpecVmError::ArithmeticOverflow)
    }
}

/// Evaluates an expression against the variables; operands are evaluated left to right,
/// `and` and `or` skip their right operand when the left one decides.
pub open spec fn eval(vars: Map<Seq<char>, SpecValue>, e: SpecExpr) -> Result<SpecValue, SpecVmError>
    decreases e,
{
    match e {
        SpecExpr::Value(v) => Ok(v),
        SpecExpr::Var(name) => if vars.contains_key(name) {
            Ok(vars[name])
        } else {
            Err(SpecVmError::UnknownVariable { name })
        },
        SpecExpr::Unary { op, expr } => match eval(vars, *expr) {
            Err(err) => Err(err),
            Ok(v) => match as_bool(v) {
                Err(err) => Err(err),
                Ok(b) => Ok(SpecValue::Bool(!b)),
            },
        },
        SpecExpr::Binary { left, op, right } => match op {
            BinaryOp::Or | BinaryOp::And => {
                let l = match eval(vars, *left) {
                    Err(err) => Err(err),
                    Ok(v) => as_bool(v),
                };
                match l {
                    Err(err) => Err(err),
                    Ok(lb) => if (op == BinaryOp::Or && lb) || (op == BinaryOp::And && !lb) {
                        Ok(SpecValue::Bool(lb))
                    } else {
                        match eval(vars, *right) {
                            Err(err) => Err(err),
                            Ok(v) => match as_bool(v) {
                                Err(err) => Err(err),
                                Ok(rb) => Ok(SpecValue::Bool(rb)),
                            },
                        }
                    },
                }
            },
            BinaryOp::Eq | BinaryOp::Ne => match eval(vars, *left) {
                Err(err) => Err(err),
                Ok(lv) => match eval(vars, *right) {
                    Err(err) => Err(err),
                    Ok(rv) => Ok(SpecValue::Bool(if op == BinaryOp::Eq { lv == rv } else { lv != rv })),
                },
            },
            _ => {
                let l = match eval(vars, *left) {
                    Err(err) => Err(err),
                    Ok(v) => as_int(v),
                };
                match l {
                    Err(err) => Err(err),
                    Ok(li) => {
                        let r = match eval(vars, *right) {
                            Err(err) => Err(err),
                            Ok(v) => as_int(v),
                        };
                        match r {
                            Err(err) => Err(err),
                            Ok(ri) => int_binary(op, li, ri),
                        }
                    },
                }
            },
        },
    }
}

/// An arithmetic or ordering operator applied to two integers.
pub open spec fn int_binary(op: BinaryOp, l: i64, r: i64) -> Result<SpecValue, SpecVmError> {
    match op {
        BinaryOp::Lt => Ok(SpecValue::Bool(l < r)),
        BinaryOp::Le => Ok(SpecValue::Bool(l <= r)),
        BinaryOp::Gt => Ok(SpecValue::Bool(l > r)),
        BinaryOp::Ge => Ok(SpecValue::Bool(l >= r)),
        BinaryOp::Add => int_result(l + r),
        _ => int_result(l - r),
    }
}

/// Evaluates a condition.
pub open spec fn eval_bool(vars: Map<Seq<char>, SpecValue>, e: SpecExpr) -> Result<bool, SpecVmError> {
    match eval(vars, e) {
        Err(err) => Err(err),
        Ok(v) => as_bool(v),
    }
}

/// The value an assignment stores: the right side is evaluated first; `+=` and `-=` then
/// read the variable's current integer.
pub open spec fn eval_assign(
    vars: Map<Seq<char>, SpecValue>,
    var: Seq<char>,
    op: AssignOp,
    value: SpecExpr,
) -> Result<SpecValue, SpecVmError> {
    match eval(vars, value) {
        Err(err) => Err(err),
        Ok(v) => match op {
            AssignOp::Assign => Ok(v),
            _ => {
                let cur = if vars.contains_key(var) {
                    as_int(vars[var])
                } else {
                    Err(SpecVmError::UnknownVariable { name: var })
                };
                match cur {
                    Err(err) => Err(err),
                    Ok(c) => match as_int(v) {
                        Err(err) => Err(err),
                        Ok(x) => if op == AssignOp::Add {
                            int_result(c + x)
                        } else {
                            int_result(c - x)
                        },
                    },
                }
            },
        },
    }
}

/// The choices whose condition holds, in order; the first failing condition is the error.
pub open spec fn visible_choices(
    vars: Map<Seq<char>, SpecValue>,
    choices: Seq<SpecMenuChoice>,
) -> Result<Seq<SpecMenuChoice>, SpecVmError>
    decreases choices.len(),
{
    if choices.len() == 0 {
        Ok(Seq::empty())
    } else {
        match visible_choices(vars, choices.drop_last()) {
            Err(err) => Err(err),
            Ok(kept) => {
                let c = choices.last();
                match c.condition {
                    None => Ok(kept.push(c)),
                    Some(cond) => match eval_bool(vars, cond) {
                        Err(err) => Err(err),
                        Ok(true) => Ok(kept.push(c)),
                        Ok(false) => Ok(kept),
                    },
                }
            },
        }
    }
}

/// The text shown for a line: its translation when the text id has one, else the source text.
pub open spec fn resolve_text(
    translations: Map<Seq<char>, Seq<char>>,
    text_id: Option<Seq<char>>,
    text: Seq<char>,
) -> Seq<char> {
    match text_id {
        Some(id) => if translations.contains_key(id) { translations[id] } else { text },
        None => text,
    }
}

/// The texts of menu choices, translated.
pub open spec fn choice_texts(
    translations: Map<Seq<char>, Seq<char>>,
    choices: Seq<SpecMenuChoice>,
) -> Seq<Seq<char>> {
    choices.map_values(|c: SpecMenuChoice| resolve_text(translations, c.text_id, c.text))
}

// ---------------------------------------------------------------------------
// The machine.
// ---------------------------------------------------------------------------

/// Model of the whole machine.
pub struct SpecVm {
    pub program: SpecProgram,
    pub state: SpecVmState,
    pub rollback: Seq<SpecCheckpoint>,
    pub presentation: SpecPresentation,
    pub translations: Map<Seq<char>, Seq<char>>,
}

/// Adds a checkpoint, keeping only the newest `ROLLBACK_LIMIT`.
pub open spec fn push_checkpoint(rollback: Seq<SpecCheckpoint>, c: SpecCheckpoint) -> Seq<SpecCheckpoint> {
    let t = rollback.push(c);
    if t.len() > ROLLBACK_LIMIT {
        t.subrange(t.len() - ROLLBACK_LIMIT, t.len() as int)
    } else {
        t
    }
}

/// The machine with a checkpoint of its current state and presentation added.
pub open spec fn checkpointed(m: SpecVm) -> SpecVm {
    SpecVm {
        rollback: push_checkpoint(m.rollback, SpecCheckpoint { vm: m.state, presentation: m.presentation }),
        ..m
    }
}

/// One step of execution.
pub enum SpecStep {
    /// Execution continues silently in this machine.
    Continue(SpecVm),
    /// Execution stops with an event or an error, in this machine.
    Stop(Result<SpecEvent, SpecVmError>, SpecVm),
}

/// The machine with another program counter.
pub open spec fn with_pc(m: SpecVm, pc: OpId) -> SpecVm {
    SpecVm { state: SpecVmState { pc, ..m.state }, ..m }
}

/// The machine with another presentation.
pub open spec fn with_presentation(m: SpecVm, p: SpecPresentation) -> SpecVm {
    SpecVm { presentation: p, ..m }
}

/// Executes the operation at the program counter.
pub open spec fn step(m: SpecVm) -> SpecStep {
    let pc = m.state.pc;
    let p = m.presentation;
    if pc >= m.program.ops.len() {
        SpecStep::Stop(Err(SpecVmError::InvalidProgramCounter { pc }), m)
    } else {
        let next = (pc + 1) as OpId;
        match m.program.ops[pc as int].kind {
            SpecOpKind::Say { speaker, text_id, text, effect } => {
                let t = resolve_text(m.translations, text_id, text);
                let c = checkpointed(m);
                let state = SpecVmState {
                    pc: next,
                    history: m.state.history.push(SpecHistoryEntry { speaker, text: t }),
                    ..m.state
                };
                let pres = SpecPresentation {
                    dialogue: Some(SpecDialogue { speaker, text: t }),
                    menu: None,
                    ..p
                };
                SpecStep::Stop(
                    Ok(SpecEvent::Dialogue { speaker, text: t, effect }),
                    SpecVm { state, presentation: pres, ..c },
                )
            },
            SpecOpKind::Scene { image, transition } => SpecStep::Stop(
                Ok(SpecEvent::Scene { image, transition }),
                with_presentation(
                    with_pc(m, next),
                    SpecPresentation { background: Some(image), sprites: Map::empty(), ..p },
                ),
            ),
            SpecOpKind::Show { tag, attrs, position, transition } => SpecStep::Stop(
                Ok(SpecEvent::Show { tag, attrs, position, transition }),
                with_presentation(
                    with_pc(m, next),
                    SpecPresentation {
                        sprites: p.sprites.insert(tag, SpecSprite { attrs, position }),
                        ..p
                    },
                ),
            ),
            SpecOpKind::Hide { tag } => SpecStep::Stop(
                Ok(SpecEvent::Hide { tag }),
                with_presentation(
                    with_pc(m, next),
                    SpecPresentation { sprites: p.sprites.remove(tag), ..p },
                ),
            ),
            SpecOpKind::PlayMusic { path } => SpecStep::Stop(
                Ok(SpecEvent::PlayMusic { path }),
                with_presentation(with_pc(m, next), SpecPresentation { music: Some(path), ..p }),
            ),
            SpecOpKind::StopMusic => SpecStep::Stop(
                Ok(SpecEvent::StopMusic),
                with_presentation(with_pc(m, next), SpecPresentation { music: None, ..p }),
            ),
            SpecOpKind::Menu { choices } => {
                let c = checkpointed(m);
                match visible_choices(m.state.variables, choices) {
                    Err(err) => SpecStep::Stop(Err(err), c),
                    Ok(vis) => {
                        let texts = choice_texts(m.translations, vis);
                        SpecStep::Stop(
                            Ok(SpecEvent::Menu { choices: texts }),
                            SpecVm {
                                state: SpecVmState { current_choices: vis, ..m.state },
                                presentation: SpecPresentation { menu: Some(texts), ..p },
                                ..c
                            },
                        )
                    },
                }
            },
            SpecOpKind::Jump { target } => SpecStep::Continue(with_pc(m, target)),
            SpecOpKind::Assign { var, op, value } => match eval_assign(m.state.variables, var, op, value) {
                Err(err) => SpecStep::Stop(Err(err), m),
                Ok(v) => SpecStep::Continue(
                    SpecVm {
                        state: SpecVmState {
                            pc: next,
                            variables: m.state.variables.insert(var, v),
                            ..m.state
                        },
                        ..m
                    },
                ),
            },
            SpecOpKind::Branch { cond, then_pc, else_pc } => match eval_bool(m.state.variables, cond) {
                Err(err) => SpecStep::Stop(Err(err), m),
                Ok(b) => SpecStep::Continue(with_pc(m, if b { then_pc } else { else_pc })),
            },
            SpecOpKind::End => SpecStep::Stop(
                Ok(SpecEvent::End),
                SpecVm {
                    state: SpecVmState { current_choices: Seq::empty(), ..m.state },
                    presentation: SpecPresentation { menu: None, ..p },
                    ..m
                },
            ),
        }
    }
}

/// How a bounded run ended.
pub enum SpecRun {
    /// Stopped at an interaction or an error.
    Halted(Result<SpecEvent, SpecVmError>, SpecVm),
    /// The budget of silent steps ran out.
    Exhausted(SpecVm),
}

/// Runs at most `fuel` steps.
pub open spec fn run(m: SpecVm, fuel: nat) -> SpecRun
    decreases fuel,
{
    if fuel == 0 {
        SpecRun::Exhausted(m)
    } else {
        match step(m) {
            SpecStep::Stop(r, m2) => SpecRun::Halted(r, m2),
            SpecStep::Continue(m2) => run(m2, (fuel - 1) as nat),
        }
    }
}


/// Deterministic story machine.
#[derive(Debug)]
pub struct Vm {
    program: Program,
    state: VmState,
    rollback: Vec<RollbackCheckpoint>,
    presentation: PresentationSnapshot,
    translations: StrMap<String>,
}

impl View for Vm {
    type V = SpecVm;

    closed spec fn view(&self) -> SpecVm {
        SpecVm {
            program: self.program@,
            state: self.state@,
            rollback: seq_view(self.rollback@),
            presentation: self.presentation@,
            translations: self.translations@,
        }
    }
}

fn type_name_of(v: &Value) -> (r: String)
    ensures
        r@ == value_type_name(v@),
{
    match v {
        Value::Bool(_) => String::from_str("bool"),
        Value::Int(_) => String::from_str("int"),
        Value::Str(_) => String::from_str("string"),
    }
}

fn value_as_bool(v: &Value) -> (r: Result<bool, VmError>)
    ensures
        match r {
            Ok(b) => as_bool(v@) == Ok::<bool, SpecVmError>(b),
            Err(e) => as_bool(v@) == Err::<bool, SpecVmError>(e@),
        },
{
    match v {
        Value::Bool(b) => Ok(*b),
        _ => Err(VmError::TypeMismatch { expected: String::from_str("bool"), actual: type_name_of(v) }),
    }
}

fn value_as_int(v: &Value) -> (r: Result<i64, VmError>)
    ensures
        match r {
            Ok(i) => as_int(v@) == Ok::<i64, SpecVmError>(i),
            Err(e) => as_int(v@) == Err::<i64, SpecVmError>(e@),
        },
{
    match v {
        Value::Int(i) => Ok(*i),
        _ => Err(VmError::TypeMismatch { expected: String::from_str("int"), actual: type_name_of(v) }),
    }
}

fn checked_int(x: Option<i64>) -> (r: Result<Value, VmError>)
    ensures
        match x {
            Some(i) => r matches Ok(v) && v@ == SpecValue::Int(i),
            None => r matches Err(e) && e@ == SpecVmError::ArithmeticOverflow,
        },
{
    match x {
        Some(i) => Ok(Value::Int(i)),
        None => Err(VmError::ArithmeticOverflow),
    }
}

/// Evaluates an expression against a variable map.
fn eval_expr(vars: &StrMap<Value>, e: &Expr) -> (r: Result<Value, VmError>)
    ensures
        outcome_view(r) == eval(vars@, e@),
    decreases e,
{
    match e {
        Expr::Value(v) => Ok(v.duplicate()),
        Expr::Var(name) => match vars.get(name.as_str()) {
            Some(v) => Ok(v.duplicate()),
            None => Err(VmError::UnknownVariable { name: name.clone() }),
        },
        Expr::Unary { op, expr } => {
            let v = eval_expr(vars, expr)?;
            let b = value_as_bool(&v)?;
            Ok(Value::Bool(!b))
        },
        Expr::Binary { left, op, right } => match op {
            BinaryOp::Or | BinaryOp::And => {
                let lv = eval_expr(vars, left)?;
                let lb = value_as_bool(&lv)?;
                if (*op == BinaryOp::Or && lb) || (*op == BinaryOp::And && !lb) {
                    Ok(Value::Bool(lb))
                } else {
                    let rv = eval_expr(vars, right)?;
                    let rb = value_as_bool(&rv)?;
                    Ok(Value::Bool(rb))
                }
            },
            BinaryOp::Eq | BinaryOp::Ne => {
                let lv = eval_expr(vars, left)?;
                let rv = eval_expr(vars, right)?;
                let same = lv.same(&rv);
                Ok(Value::Bool(if *op == BinaryOp::Eq { same } else { !same }))
            },
            _ => {
                let lv = eval_expr(vars, left)?;
                let li = value_as_int(&lv)?;
                let rv = eval_expr(vars, right)?;
                let ri = value_as_int(&rv)?;
                match op {
                    BinaryOp::Lt => Ok(Value::Bool(li < ri)),
                    BinaryOp::Le => Ok(Value::Bool(li <= ri)),
                    BinaryOp::Gt => Ok(Value::Bool(li > ri)),
                    BinaryOp::Ge => Ok(Value::Bool(li >= ri)),
                    BinaryOp::Add => checked_int(li.checked_add(ri)),
                    _ => checked_int(li.checked_sub(ri)),
                }
            },
        },
    }
}

/// Evaluates a condition against a variable map.
fn eval_condition(vars: &StrMap<Value>, e: &Expr) -> (r: Result<bool, VmError>)
    ensures
        match r {
            Ok(b) => eval_bool(vars@, e@) == Ok::<bool, SpecVmError>(b),
            Err(err) => eval_bool(vars@, e@) == Err::<bool, SpecVmError>(err@),
        },
{
    let v = eval_expr(vars, e)?;
    value_as_bool(&v)
}


/// Computes the value an assignment stores.
fn eval_assignment(vars: &StrMap<Value>, var: &String, op: AssignOp, value: &Expr) -> (r: Result<Value, VmError>)
    ensures
        outcome_view(r) == eval_assign(vars@, var@, op, value@),
{
    let v = eval_expr(vars, value)?;
    match op {
        AssignOp::Assign => Ok(v),
        _ => {
            let cur = match vars.get(var.as_str()) {
                Some(c) => value_as_int(c)?,
                None => {
                    return Err(VmError::UnknownVariable { name: var.clone() });
                },
            };
            let x = value_as_int(&v)?;
            if op == AssignOp::Add {
                checked_int(cur.checked_add(x))
            } else {
                checked_int(cur.checked_sub(x))
            }
        },
    }
}

/// A failing condition in a prefix of the choices is the error for all of them.
proof fn lemma_visible_error(vars: Map<Seq<char>, SpecValue>, s: Seq<SpecMenuChoice>, k: int)
    requires
        0 <= k <= s.len(),
        visible_choices(vars, s.take(k)) is Err,
    ensures
        visible_choices(vars, s) == visible_choices(vars, s.take(k)),
    decreases s.len(),
{
    if k < s.len() {
        assert(s.drop_last().take(k) =~= s.take(k));
        lemma_visible_error(vars, s.drop_last(), k);
    } else {
        assert(s.take(k) =~= s);
    }
}

/// Keeps the choices whose condition holds.
fn filter_choices(vars: &StrMap<Value>, choices: &Vec<MenuChoice>) -> (r: Result<Vec<MenuChoice>, VmError>)
    ensures
        match r {
            Ok(v) => visible_choices(vars@, seq_view(choices@)) == Ok::<Seq<SpecMenuChoice>, SpecVmError>(seq_view(v@)),
            Err(e) => visible_choices(vars@, seq_view(choices@)) == Err::<Seq<SpecMenuChoice>, SpecVmError>(e@),
        },
{
    let mut kept: Vec<MenuChoice> = Vec::new();
    let mut i: usize = 0;
    assert(seq_view(choices@).take(0) =~= Seq::<SpecMenuChoice>::empty());
    assert(seq_view(kept@) =~= Seq::<SpecMenuChoice>::empty());
    while i < choices.len()
        invariant
            i <= choices@.len(),
            visible_choices(vars@, seq_view(choices@).take(i as int)) == Ok::<Seq<SpecMenuChoice>, SpecVmError>(seq_view(kept@)),
        decreases choices@.len() - i,
    {
        let ghost prefix = seq_view(choices@).take(i as int);
        let ghost next = seq_view(choices@).take(i + 1);
        assert(next.drop_last() =~= prefix);
        assert(next.last() == choices@[i as int]@);
        let keep = match &choices[i].condition {
            Some(cond) => match eval_condition(vars, cond) {
                Ok(b) => b,
                Err(e) => {
                    proof {
                        lemma_visible_error(vars@, seq_view(choices@), i + 1);
                    }
                    return Err(e);
                },
            },
            None => true,
        };
        if keep {
            let ghost before = seq_view(kept@);
            kept.push(choices[i].duplicate());
            assert(seq_view(kept@) =~= before.push(choices@[i as int]@));
        }
        i = i + 1;
    }
    assert(seq_view(choices@).take(choices@.len() as int) =~= seq_view(choices@));
    Ok(kept)
}

/// The text shown for a line.
fn translate(translations: &StrMap<String>, text_id: &Option<String>, text: &String) -> (r: String)
    ensures
        r@ == resolve_text(translations@, opt_str_view(*text_id), text@),
{
    match text_id {
        Some(id) => match translations.get(id.as_str()) {
            Some(t) => t.clone(),
            None => text.clone(),
        },
        None => text.clone(),
    }
}

/// The translated texts of menu choices.
fn translate_choices(translations: &StrMap<String>, choices: &Vec<MenuChoice>) -> (r: Vec<String>)
    ensures
        r.deep_view() == choice_texts(translations@, seq_view(choices@)),
{
    let mut texts: Vec<String> = Vec::new();
    let mut i: usize = 0;
    while i < choices.len()
        invariant
            i <= choices@.len(),
            texts@.len() == i,
            forall|j: int| 0 <= j < i ==> (#[trigger] texts@[j])@ == resolve_text(
                translations@,
                choices@[j]@.text_id,
                choices@[j]@.text,
            ),
        decreases choices@.len() - i,
    {
        texts.push(translate(translations, &choices[i].text_id, &choices[i].text));
        i = i + 1;
    }
    assert(texts.deep_view() =~= choice_texts(translations@, seq_view(choices@)));
    texts
}

/// Adds a checkpoint to a rollback list, dropping the oldest beyond the limit.
fn push_checkpoint_exec(rollback: &mut Vec<RollbackCheckpoint>, c: RollbackCheckpoint)
    ensures
        seq_view(final(rollback)@) == push_checkpoint(seq_view(old(rollback)@), c@),
{
    let ghost old_view = seq_view(rollback@);
    rollback.push(c);
    assert(seq_view(rollback@) =~= old_view.push(c@));
    while rollback.len() > ROLLBACK_LIMIT
        invariant
            1 <= rollback@.len() <= old_view.len() + 1,
            rollback@.len() > ROLLBACK_LIMIT || rollback@.len() == old_view.len() + 1
                || rollback@.len() == ROLLBACK_LIMIT,
            seq_view(rollback@) == old_view.push(c@).subrange(
                old_view.len() + 1 - rollback@.len(),
                (old_view.len() + 1) as int,
            ),
        decreases rollback@.len(),
    {
        let ghost before = seq_view(rollback@);
        rollback.remove(0);
        assert(seq_view(rollback@) =~= before.subrange(1, before.len() as int));
    }
    assert(seq_view(rollback@) =~= push_checkpoint(old_view, c@));
}


impl Vm {
    /// Records a checkpoint of the current state and presentation.
    fn checkpoint(&mut self)
        ensures
            final(self)@ == checkpointed(old(self)@),
    {
        let c = RollbackCheckpoint { vm: self.state.duplicate(), presentation: self.presentation.duplicate() };
        push_checkpoint_exec(&mut self.rollback, c);
    }

    /// Executes the operation at the program counter; `None` means execution goes on silently.
    fn step_once(&mut self) -> (r: Option<Result<VmEvent, VmError>>)
        ensures
            match step(old(self)@) {
                SpecStep::Continue(m) => r is None && final(self)@ == m,
                SpecStep::Stop(res, m) => r matches Some(x) && outcome_view(x) == res && final(self)@ == m,
            },
    {
        let pc = self.state.pc;
        if pc >= self.program.ops.len() {
            return Some(Err(VmError::InvalidProgramCounter { pc }));
        }
        let kind = self.program.ops[pc].kind.duplicate();
        assert(kind@ == old(self)@.program.ops[pc as int].kind);
        match kind {
            OpKind::Say { speaker, text_id, text, effect } => {
                let t = translate(&self.translations, &text_id, &text);
                self.checkpoint();
                self.state.pc = pc + 1;
                let ghost h = seq_view(self.state.history@);
                self.state.history.push(HistoryEntry { speaker: duplicate_opt_str(&speaker), text: t.clone() });
                assert(seq_view(self.state.history@) =~= h.push(SpecHistoryEntry { speaker: opt_str_view(speaker), text: t@ }));
                self.presentation.dialogue = Some(DialogueSnapshot { speaker: duplicate_opt_str(&speaker), text: t.clone() });
                self.presentation.menu = None;
                Some(Ok(VmEvent::Dialogue { speaker, text: t, effect }))
            },
            OpKind::Scene { image, transition } => {
                self.state.pc = pc + 1;
                self.presentation.background = Some(image.clone());
                self.presentation.sprites.clear();
                Some(Ok(VmEvent::Scene { image, transition }))
            },
            OpKind::Show { tag, attrs, position, transition } => {
                self.state.pc = pc + 1;
                self.presentation.sprites.insert(
                    tag.clone(),
                    SpriteSnapshot { attrs: crate::ast::duplicate_strings(&attrs), position: position.clone() },
                );
                Some(Ok(VmEvent::Show { tag, attrs, position, transition }))
            },
            OpKind::Hide { tag } => {
                self.state.pc = pc + 1;
                let _ = self.presentation.sprites.remove(tag.as_str());
                Some(Ok(VmEvent::Hide { tag }))
            },
            OpKind::PlayMusic { path } => {
                self.state.pc = pc + 1;
                self.presentation.music = Some(path.clone());
                Some(Ok(VmEvent::PlayMusic { path }))
            },
            OpKind::StopMusic => {
                self.state.pc = pc + 1;
                self.presentation.music = None;
                Some(Ok(VmEvent::StopMusic))
            },
            OpKind::Menu { choices } => {
                self.checkpoint();
                match filter_choices(&self.state.variables, &choices) {
                    Err(e) => Some(Err(e)),
                    Ok(visible) => {
                        let texts = translate_choices(&self.translations, &visible);
                        self.state.current_choices = visible;
                        self.presentation.menu = Some(crate::ast::duplicate_strings(&texts));
                        Some(Ok(VmEvent::Menu { choices: texts }))
                    },
                }
            },
            OpKind::Jump { target } => {
                self.state.pc = target;
                None
            },
            OpKind::Assign { var, op, value } => {
                match eval_assignment(&self.state.variables, &var, op, &value) {
                    Err(e) => Some(Err(e)),
                    Ok(v) => {
                        self.state.variables.insert(var, v);
                        self.state.pc = pc + 1;
                        None
                    },
                }
            },
            OpKind::Branch { cond, then_pc, else_pc } => {
                match eval_condition(&self.state.variables, &cond) {
                    Err(e) => Some(Err(e)),
                    Ok(b) => {
                        self.state.pc = if b { then_pc } else { else_pc };
                        None
                    },
                }
            },
            OpKind::End => {
                self.state.current_choices = Vec::new();
                assert(seq_view(self.state.current_choices@) =~= Seq::<SpecMenuChoice>::empty());
                self.presentation.menu = None;
                Some(Ok(VmEvent::End))
            },
        }
    }
}


/// What a choice does before execution resumes: the menu is cleared and the counter jumps to
/// the chosen branch; `None` when the index is outside the active menu.
pub open spec fn enter_choice(m: SpecVm, choice: usize) -> Option<SpecVm> {
    if choice < m.state.current_choices.len() {
        Some(SpecVm {
            state: SpecVmState {
                pc: m.state.current_choices[choice as int].target,
                current_choices: Seq::empty(),
                ..m.state
            },
            presentation: SpecPresentation { menu: None, ..m.presentation },
            ..m
        })
    } else {
        None
    }
}

/// The rollback list after a successful choice: the checkpoint the branch itself made (or,
/// without one, the newest) is replaced by the menu as it was before the choice.
pub open spec fn after_choice_rollback(before: SpecVm, after: Seq<SpecCheckpoint>) -> Seq<SpecCheckpoint> {
    let popped = if after.len() > 0 { after.drop_last() } else { after };
    push_checkpoint(popped, SpecCheckpoint { vm: before.state, presentation: before.presentation })
}

/// The event that describes a restored presentation: its menu, else its dialogue shown at once.
pub open spec fn restored_event(p: SpecPresentation) -> Option<SpecEvent> {
    match p.menu {
        Some(choices) => Some(SpecEvent::Menu { choices }),
        None => match p.dialogue {
            Some(d) => Some(SpecEvent::Dialogue { speaker: d.speaker, text: d.text, effect: TextEffect::Instant }),
            None => None,
        },
    }
}

/// Rolling back: the newest checkpoint becomes the state and presentation again, and the event
/// describing it is reported; with no checkpoint nothing changes.
pub open spec fn rolled_back(m: SpecVm) -> (Option<SpecEvent>, SpecVm) {
    if m.rollback.len() == 0 {
        (None, m)
    } else {
        let c = m.rollback.last();
        (
            restored_event(c.presentation),
            SpecVm { state: c.vm, presentation: c.presentation, rollback: m.rollback.drop_last(), ..m },
        )
    }
}

/// Model of an optional event.
pub open spec fn opt_event_view(e: Option<VmEvent>) -> Option<SpecEvent> {
    match e {
        Some(e) => Some(e@),
        None => None,
    }
}

/// Silent steps allowed by `continue_until_interaction`.
pub const STEP_BUDGET: u64 = 0xffff_ffff_ffff_ffff;

impl Vm {
    /// Creates a machine at the `start` label with an empty presentation and no translations.
    pub fn new(program: Program) -> (r: Result<Vm, VmError>)
        ensures
            match r {
                Ok(vm) => program@.labels.contains_key("start"@)
                    && vm@ == (SpecVm {
                        program: program@,
                        state: initial_state(program@.labels["start"@]),
                        rollback: Seq::empty(),
                        presentation: empty_presentation(),
                        translations: Map::empty(),
                    }),
                Err(e) => !program@.labels.contains_key("start"@) && e == VmError::MissingStartLabel,
            },
    {
        let start = match program.labels.get("start") {
            Some(pc) => *pc,
            None => {
                return Err(VmError::MissingStartLabel);
            },
        };
        let vm = Vm {
            program,
            state: VmState::at(start),
            rollback: Vec::new(),
            presentation: PresentationSnapshot::new(),
            translations: StrMap::new(),
        };
        assert(seq_view(vm.rollback@) =~= Seq::<SpecCheckpoint>::empty());
        Ok(vm)
    }

    /// Creates a machine at the `start` label that shows translated texts.
    pub fn with_translations(program: Program, translations: StrMap<String>) -> (r: Result<Vm, VmError>)
        ensures
            match r {
                Ok(vm) => program@.labels.contains_key("start"@)
                    && vm@ == (SpecVm {
                        program: program@,
                        state: initial_state(program@.labels["start"@]),
                        rollback: Seq::empty(),
                        presentation: empty_presentation(),
                        translations: translations@,
                    }),
                Err(e) => !program@.labels.contains_key("start"@) && e == VmError::MissingStartLabel,
            },
    {
        let mut vm = Vm::new(program)?;
        vm.set_translations(translations);
        Ok(vm)
    }

    /// Restores a machine from saved state, presentation and rollback history, without translations.
    pub fn from_parts(
        program: Program,
        state: VmState,
        presentation: PresentationSnapshot,
        rollback: Vec<RollbackCheckpoint>,
    ) -> (r: Vm)
        ensures
            r@ == (SpecVm {
                program: program@,
                state: state@,
                rollback: seq_view(rollback@),
                presentation: presentation@,
                translations: Map::empty(),
            }),
    {
        Vm { program, state, rollback, presentation, translations: StrMap::new() }
    }

    /// Replaces the translations used for texts with ids.
    pub fn set_translations(&mut self, translations: StrMap<String>)
        ensures
            final(self)@ == (SpecVm { translations: translations@, ..old(self)@ }),
    {
        self.translations = translations;
    }

    /// The current machine state.
    pub fn state(&self) -> (r: &VmState)
        ensures
            r@ == self@.state,
    {
        &self.state
    }

    /// The current presentation.
    pub fn presentation(&self) -> (r: &PresentationSnapshot)
        ensures
            r@ == self@.presentation,
    {
        &self.presentation
    }

    /// The rollback checkpoints, oldest first.
    pub fn rollback_history(&self) -> (r: &Vec<RollbackCheckpoint>)
        ensures
            seq_view(r@) == self@.rollback,
    {
        &self.rollback
    }

    /// The program being run.
    pub fn program(&self) -> (r: &Program)
        ensures
            r@ == self@.program,
    {
        &self.program
    }

    /// Advances until dialogue, a menu, a visual or audio event, or the end, taking at most
    /// `budget` silent steps (jumps, assignments, branches).
    pub fn continue_with_budget(&mut self, budget: u64) -> (r: Result<VmEvent, VmError>)
        ensures
            match run(old(self)@, budget as nat) {
                SpecRun::Halted(res, m) => outcome_view(r) == res && final(self)@ == m,
                SpecRun::Exhausted(m) => r == Err::<VmEvent, VmError>(VmError::StepLimitExceeded)
                    && final(self)@ == m,
            },
    {
        let mut remaining = budget;
        loop
            invariant
                remaining <= budget,
                run(self@, remaining as nat) == run(old(self)@, budget as nat),
            decreases remaining,
        {
            if remaining == 0 {
                return Err(VmError::StepLimitExceeded);
            }
            match self.step_once() {
                Some(res) => {
                    return res;
                },
                None => {
                    remaining = remaining - 1;
                },
            }
        }
    }

    /// Advances until dialogue, a menu, a visual or audio event, or the end.
    pub fn continue_until_interaction(&mut self) -> (r: Result<VmEvent, VmError>)
        ensures
            match run(old(self)@, STEP_BUDGET as nat) {
                SpecRun::Halted(res, m) => outcome_view(r) == res && final(self)@ == m,
                SpecRun::Exhausted(m) => r == Err::<VmEvent, VmError>(VmError::StepLimitExceeded)
                    && final(self)@ == m,
            },
    {
        self.continue_with_budget(STEP_BUDGET)
    }

    /// Chooses an entry of the active menu, then advances to the next interaction; the menu
    /// as it was becomes the newest rollback checkpoint.
    pub fn select(&mut self, choice: usize) -> (r: Result<VmEvent, VmError>)
        ensures
            match enter_choice(old(self)@, choice) {
                None => r == Err::<VmEvent, VmError>(VmError::InvalidChoice { choice }) && final(self)@ == old(self)@,
                Some(m1) => match run(m1, STEP_BUDGET as nat) {
                    SpecRun::Halted(Ok(e), m2) => r matches Ok(ev) && ev@ == e
                        && final(self)@ == (SpecVm { rollback: after_choice_rollback(old(self)@, m2.rollback), ..m2 }),
                    SpecRun::Halted(Err(e), m2) => r matches Err(err) && err@ == e && final(self)@ == m2,
                    SpecRun::Exhausted(m2) => r == Err::<VmEvent, VmError>(VmError::StepLimitExceeded)
                        && final(self)@ == m2,
                },
            },
    {
        let rollback_state = self.state.duplicate();
        let rollback_presentation = self.presentation.duplicate();
        if choice >= self.state.current_choices.len() {
            return Err(VmError::InvalidChoice { choice });
        }
        let target = self.state.current_choices[choice].target;
        self.state.current_choices = Vec::new();
        assert(seq_view(self.state.current_choices@) =~= Seq::<SpecMenuChoice>::empty());
        self.presentation.menu = None;
        self.state.pc = target;
        let event = self.continue_until_interaction()?;
        let ghost after = seq_view(self.rollback@);
        let _discarded = self.rollback.pop();
        assert(seq_view(self.rollback@) =~= (if after.len() > 0 { after.drop_last() } else { after }));
        push_checkpoint_exec(
            &mut self.rollback,
            RollbackCheckpoint { vm: rollback_state, presentation: rollback_presentation },
        );
        Ok(event)
    }

    /// Restores the newest checkpoint and returns the event that describes it: its menu, else
    /// its dialogue; `None` when there is no checkpoint or it shows neither.
    pub fn rollback(&mut self) -> (r: Option<VmEvent>)
        ensures
            opt_event_view(r) == rolled_back(old(self)@).0,
            final(self)@ == rolled_back(old(self)@).1,
    {
        let ghost before = seq_view(self.rollback@);
        match self.rollback.pop() {
            None => None,
            Some(c) => {
                assert(seq_view(self.rollback@) =~= before.drop_last());
                self.state = c.vm;
                self.presentation = c.presentation;
                match &self.presentation.menu {
                    Some(choices) => Some(VmEvent::Menu { choices: crate::ast::duplicate_strings(choices) }),
                    None => match &self.presentation.dialogue {
                        Some(d) => Some(VmEvent::Dialogue {
                            speaker: duplicate_opt_str(&d.speaker),
                            text: d.text.clone(),
                            effect: TextEffect::Instant,
                        }),
                        None => None,
                    },
                }
            },
        }
    }
}


// ---------------------------------------------------------------------------
// Laws.
// ---------------------------------------------------------------------------

/// Comparing two operands for equality gives whether their values are equal, and comparing them
/// for inequality gives the opposite; an operand that fails makes both comparisons fail alike.
pub proof fn law_not_equal_negates_equal(vars: Map<Seq<char>, SpecValue>, l: SpecExpr, r: SpecExpr)
    ensures
        ({
            let eq = eval(vars, SpecExpr::Binary { left: Box::new(l), op: BinaryOp::Eq, right: Box::new(r) });
            let ne = eval(vars, SpecExpr::Binary { left: Box::new(l), op: BinaryOp::Ne, right: Box::new(r) });
            &&& match (eval(vars, l), eval(vars, r)) {
                (Ok(lv), Ok(rv)) => {
                    &&& eq == Ok::<SpecValue, SpecVmError>(SpecValue::Bool(lv == rv))
                    &&& ne == Ok::<SpecValue, SpecVmError>(SpecValue::Bool(lv != rv))
                },
                _ => true,
            }
            &&& eq is Err <==> ne is Err
            &&& (ne matches Ok(SpecValue::Bool(b)) ==> eq == Ok::<SpecValue, SpecVmError>(SpecValue::Bool(!b)))
            &&& (ne is Ok ==> ne matches Ok(SpecValue::Bool(_)))
        }),
{
}

/// The newest checkpoint after adding one is the one added, and at most `ROLLBACK_LIMIT` are kept.
pub proof fn law_push_checkpoint(rollback: Seq<SpecCheckpoint>, c: SpecCheckpoint)
    ensures
        push_checkpoint(rollback, c).len() > 0,
        push_checkpoint(rollback, c).last() == c,
        push_checkpoint(rollback, c).len() <= ROLLBACK_LIMIT || push_checkpoint(rollback, c).len() == rollback.len() + 1,
        rollback.len() < ROLLBACK_LIMIT ==> push_checkpoint(rollback, c) == rollback.push(c),
        rollback.len() >= ROLLBACK_LIMIT ==> push_checkpoint(rollback, c).len() == ROLLBACK_LIMIT,
{
}

/// One step never grows the rollback history beyond `ROLLBACK_LIMIT` once it is within it.
pub proof fn law_step_keeps_rollback_bounded(m: SpecVm)
    requires
        m.rollback.len() <= ROLLBACK_LIMIT,
    ensures
        match step(m) {
            SpecStep::Continue(m2) => m2.rollback == m.rollback,
            SpecStep::Stop(_, m2) => m2.rollback.len() <= ROLLBACK_LIMIT,
        },
{
}

/// A run never grows the rollback history beyond `ROLLBACK_LIMIT` once it is within it.
pub proof fn law_run_keeps_rollback_bounded(m: SpecVm, fuel: nat)
    requires
        m.rollback.len() <= ROLLBACK_LIMIT,
    ensures
        match run(m, fuel) {
            SpecRun::Halted(_, m2) => m2.rollback.len() <= ROLLBACK_LIMIT,
            SpecRun::Exhausted(m2) => m2.rollback.len() <= ROLLBACK_LIMIT,
        },
    decreases fuel,
{
    if fuel > 0 {
        match step(m) {
            SpecStep::Continue(m2) => {
                law_run_keeps_rollback_bounded(m2, (fuel - 1) as nat);
            },
            SpecStep::Stop(_, _) => {},
        }
    }
}

/// Rolling back right after a line of dialogue or a menu restores the state and presentation
/// from just before it, and reports the interaction shown then.
pub proof fn law_rollback_undoes_interaction(m: SpecVm)
    requires
        step(m) matches SpecStep::Stop(Ok(e), _) && (e is Dialogue || e is Menu),
    ensures
        match step(m) {
            SpecStep::Stop(_, m2) => {
                &&& rolled_back(m2).1.state == m.state
                &&& rolled_back(m2).1.presentation == m.presentation
                &&& rolled_back(m2).0 == restored_event(m.presentation)
            },
            SpecStep::Continue(_) => false,
        },
{
}

/// Choosing a menu entry and then rolling back returns to the menu exactly as it was: same
/// state, same presentation, and the same event describing it.
pub proof fn law_select_then_rollback(m: SpecVm, choice: usize)
    requires
        enter_choice(m, choice) is Some,
        run(enter_choice(m, choice).unwrap(), STEP_BUDGET as nat) matches SpecRun::Halted(Ok(_), _),
    ensures
        match run(enter_choice(m, choice).unwrap(), STEP_BUDGET as nat) {
            SpecRun::Halted(_, m2) => {
                let after = SpecVm { rollback: after_choice_rollback(m, m2.rollback), ..m2 };
                &&& rolled_back(after).1.state == m.state
                &&& rolled_back(after).1.presentation == m.presentation
                &&& rolled_back(after).0 == restored_event(m.presentation)
            },
            SpecRun::Exhausted(_) => false,
        },
{
}

/// Silent steps keep the presentation and the rollback history.
pub proof fn law_continue_keeps_presentation(m: SpecVm)
    ensures
        step(m) matches SpecStep::Continue(m2) ==> m2.presentation == m.presentation && m2.rollback == m.rollback
            && m2.translations == m.translations && m2.program == m.program,
{
}

} // verus!
