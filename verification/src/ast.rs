//! Authoring syntax tree of the script language, with its mathematical model.
use vstd::prelude::*;

verus! {

/// Source position carried through diagnostics.
#[derive(Clone, Debug, PartialEq, Eq)]
pub struct SourcePos {
    pub file: String,
    pub line: usize,
    pub column: usize,
}

/// Model of a source position.
pub struct SpecSourcePos {
    pub file: Seq<char>,
    pub line: usize,
    pub column: usize,
}

impl View for SourcePos {
    type V = SpecSourcePos;

    open spec fn view(&self) -> SpecSourcePos {
        SpecSourcePos { file: self.file@, line: self.line, column: self.column }
    }
}

impl SourcePos {
    /// A copy with the same model.
    pub fn duplicate(&self) -> (r: SourcePos)
        ensures
            r@ == self@,
    {
        SourcePos { file: self.file.clone(), line: self.line, column: self.column }
    }
}

/// Visual transition metadata.
#[derive(Clone, Debug, PartialEq, Eq)]
pub struct Transition {
    pub kind: String,
    pub duration_ms: u32,
}

/// Model of a transition.
pub struct SpecTransition {
    pub kind: Seq<char>,
    pub duration_ms: u32,
}

impl View for Transition {
    type V = SpecTransition;

    open spec fn view(&self) -> SpecTransition {
        SpecTransition { kind: self.kind@, duration_ms: self.duration_ms }
    }
}

impl Transition {
    /// A copy with the same model.
    pub fn duplicate(&self) -> (r: Transition)
        ensures
            r@ == self@,
    {
        Transition { kind: self.kind.clone(), duration_ms: self.duration_ms }
    }
}

/// Model of an optional transition.
pub open spec fn opt_transition_view(t: Option<Transition>) -> Option<SpecTransition> {
    match t {
        Some(t) => Some(t@),
        None => None,
    }
}

/// Copies an optional transition.
pub fn duplicate_opt_transition(t: &Option<Transition>) -> (r: Option<Transition>)
    ensures
        opt_transition_view(r) == opt_transition_view(*t),
{
    match t {
        Some(t) => Some(t.duplicate()),
        None => None,
    }
}

/// Text reveal effect metadata.
#[derive(Clone, Copy, Debug, PartialEq, Eq, Structural)]
pub enum TextEffect {
    Instant,
    Typewriter { chars_per_second: u16 },
}

impl Default for TextEffect {
    fn default() -> (r: Self)
        ensures
            r == TextEffect::Instant,
    {
        TextEffect::Instant
    }
}

/// Assignment operator.
#[derive(Clone, Copy, Debug, PartialEq, Eq, Structural)]
pub enum AssignOp {
    /// Plain assignment (`=`).
    Assign,
    Add,
    Sub,
}

/// Unary expression operator.
#[derive(Clone, Copy, Debug, PartialEq, Eq, Structural)]
pub enum UnaryOp {
    Not,
}

/// Binary expression operator.
#[derive(Clone, Copy, Debug, PartialEq, Eq, Structural)]
pub enum BinaryOp {
    Or,
    And,
    Eq,
    Ne,
    Lt,
    Le,
    Gt,
    Ge,
    Add,
    Sub,
}

/// Script value.
#[derive(Clone, Debug, PartialEq, Eq)]
pub enum Value {
    Bool(bool),
    Int(i64),
    Str(String),
}

/// Model of a script value.
pub enum SpecValue {
    Bool(bool),
    Int(i64),
    Str(Seq<char>),
}

impl View for Value {
    type V = SpecValue;

    open spec fn view(&self) -> SpecValue {
        match self {
            Value::Bool(b) => SpecValue::Bool(*b),
            Value::Int(i) => SpecValue::Int(*i),
            Value::Str(s) => SpecValue::Str(s@),
        }
    }
}

impl Value {
    /// A copy with the same model.
    pub fn duplicate(&self) -> (r: Value)
        ensures
            r@ == self@,
    {
        match self {
            Value::Bool(b) => Value::Bool(*b),
            Value::Int(i) => Value::Int(*i),
            Value::Str(s) => Value::Str(s.clone()),
        }
    }

    /// Structural equality of two values.
    pub fn same(&self, other: &Value) -> (r: bool)
        ensures
            r == (self@ == other@),
    {
        match (self, other) {
            (Value::Bool(a), Value::Bool(b)) => *a == *b,
            (Value::Int(a), Value::Int(b)) => *a == *b,
            (Value::Str(a), Value::Str(b)) => *a == *b,
            _ => false,
        }
    }
}

/// Deterministic expression subset.
#[derive(Debug, PartialEq, Eq)]
pub enum Expr {
    Value(Value),
    Var(String),
    Unary { op: UnaryOp, expr: Box<Expr> },
    Binary { left: Box<Expr>, op: BinaryOp, right: Box<Expr> },
}

/// Model of an expression.
pub enum SpecExpr {
    Value(SpecValue),
    Var(Seq<char>),
    Unary { op: UnaryOp, expr: Box<SpecExpr> },
    Binary { left: Box<SpecExpr>, op: BinaryOp, right: Box<SpecExpr> },
}

/// The model of an expression.
pub open spec fn expr_view(e: Expr) -> SpecExpr
    decreases e,
{
    match e {
        Expr::Value(v) => SpecExpr::Value(v@),
        Expr::Var(n) => SpecExpr::Var(n@),
        Expr::Unary { op, expr } => SpecExpr::Unary { op, expr: Box::new(expr_view(*expr)) },
        Expr::Binary { left, op, right } => SpecExpr::Binary {
            left: Box::new(expr_view(*left)),
            op,
            right: Box::new(expr_view(*right)),
        },
    }
}

impl View for Expr {
    type V = SpecExpr;

    open spec fn view(&self) -> SpecExpr {
        expr_view(*self)
    }
}

impl Expr {
    /// A copy with the same model.
    pub fn duplicate(&self) -> (r: Expr)
        ensures
            r@ == self@,
        decreases self,
    {
        match self {
            Expr::Value(v) => Expr::Value(v.duplicate()),
            Expr::Var(n) => Expr::Var(n.clone()),
            Expr::Unary { op, expr } => Expr::Unary { op: *op, expr: Box::new(expr.duplicate()) },
            Expr::Binary { left, op, right } => Expr::Binary {
                left: Box::new(left.duplicate()),
                op: *op,
                right: Box::new(right.duplicate()),
            },
        }
    }
}

impl Clone for Expr {
    fn clone(&self) -> (r: Self)
        ensures
            r@ == self@,
    {
        self.duplicate()
    }
}

/// A complete parsed visual novel script.
#[derive(Debug, PartialEq, Eq)]
pub struct Script {
    pub statements: Vec<Stmt>,
}

/// A statement with its source position.
#[derive(Debug, PartialEq, Eq)]
pub struct Stmt {
    pub kind: StmtKind,
    pub pos: SourcePos,
}

/// Script statements.
#[derive(Debug, PartialEq, Eq)]
pub enum StmtKind {
    Label { name: String },
    Say { speaker: Option<String>, text_id: Option<String>, text: String, effect: TextEffect },
    Scene { image: String, transition: Option<Transition> },
    Show { tag: String, attrs: Vec<String>, position: String, transition: Option<Transition> },
    Hide { tag: String },
    PlayMusic { path: String },
    StopMusic,
    Menu { choices: Vec<Choice> },
    Jump { label: String },
    Assign { var: String, op: AssignOp, value: Expr },
    If { cond: Expr, then_body: Vec<Stmt>, else_body: Vec<Stmt> },
    End,
}

/// A menu branch.
#[derive(Debug, PartialEq, Eq)]
pub struct Choice {
    pub text_id: Option<String>,
    pub text: String,
    pub condition: Option<Expr>,
    pub body: Vec<Stmt>,
    pub pos: SourcePos,
}

/// Model of a statement.
pub struct SpecStmt {
    pub kind: SpecStmtKind,
    pub pos: SpecSourcePos,
}

/// Model of a statement kind.
pub enum SpecStmtKind {
    Label { name: Seq<char> },
    Say {
        speaker: Option<Seq<char>>,
        text_id: Option<Seq<char>>,
        text: Seq<char>,
        effect: TextEffect,
    },
    Scene { image: Seq<char>, transition: Option<SpecTransition> },
    Show {
        tag: Seq<char>,
        attrs: Seq<Seq<char>>,
        position: Seq<char>,
        transition: Option<SpecTransition>,
    },
    Hide { tag: Seq<char> },
    PlayMusic { path: Seq<char> },
    StopMusic,
    Menu { choices: Seq<SpecChoice> },
    Jump { label: Seq<char> },
    Assign { var: Seq<char>, op: AssignOp, value: SpecExpr },
    If { cond: SpecExpr, then_body: Seq<SpecStmt>, else_body: Seq<SpecStmt> },
    End,
}

/// Model of a menu branch.
pub struct SpecChoice {
    pub text_id: Option<Seq<char>>,
    pub text: Seq<char>,
    pub condition: Option<SpecExpr>,
    pub body: Seq<SpecStmt>,
    pub pos: SpecSourcePos,
}

/// Model of an optional string.
pub open spec fn opt_str_view(s: Option<String>) -> Option<Seq<char>> {
    match s {
        Some(s) => Some(s@),
        None => None,
    }
}

/// Model of an optional expression.
pub open spec fn opt_expr_view(e: Option<Expr>) -> Option<SpecExpr> {
    match e {
        Some(e) => Some(e@),
        None => None,
    }
}

/// Copies an optional string.
pub fn duplicate_opt_str(s: &Option<String>) -> (r: Option<String>)
    ensures
        opt_str_view(r) == opt_str_view(*s),
{
    match s {
        Some(s) => Some(s.clone()),
        None => None,
    }
}

/// Copies an optional expression.
pub fn duplicate_opt_expr(e: &Option<Expr>) -> (r: Option<Expr>)
    ensures
        opt_expr_view(r) == opt_expr_view(*e),
{
    match e {
        Some(e) => Some(e.duplicate()),
        None => None,
    }
}

/// Copies a list of strings.
pub fn duplicate_strings(v: &Vec<String>) -> (r: Vec<String>)
    ensures
        r.deep_view() == v.deep_view(),
{
    let mut r: Vec<String> = Vec::new();
    let mut i: usize = 0;
    while i < v.len()
        invariant
            i <= v.len(),
            r.len() == i,
            forall|j: int| 0 <= j < i ==> #[trigger] r@[j]@ == v@[j]@,
        decreases v.len() - i,
    {
        r.push(v[i].clone());
        i = i + 1;
    }
    assert(r.deep_view() =~= v.deep_view());
    r
}

/// The model of a statement.
pub open spec fn stmt_view(s: Stmt) -> SpecStmt
    decreases s, 0nat,
{
    SpecStmt { kind: stmt_kind_view(s.kind), pos: s.pos@ }
}

/// The model of a statement kind.
pub open spec fn stmt_kind_view(k: StmtKind) -> SpecStmtKind
    decreases k, 0nat,
{
    match k {
        StmtKind::Label { name } => SpecStmtKind::Label { name: name@ },
        StmtKind::Say { speaker, text_id, text, effect } => SpecStmtKind::Say {
            speaker: opt_str_view(speaker),
            text_id: opt_str_view(text_id),
            text: text@,
            effect,
        },
        StmtKind::Scene { image, transition } => SpecStmtKind::Scene {
            image: image@,
            transition: opt_transition_view(transition),
        },
        StmtKind::Show { tag, attrs, position, transition } => SpecStmtKind::Show {
            tag: tag@,
            attrs: attrs.deep_view(),
            position: position@,
            transition: opt_transition_view(transition),
        },
        StmtKind::Hide { tag } => SpecStmtKind::Hide { tag: tag@ },
        StmtKind::PlayMusic { path } => SpecStmtKind::PlayMusic { path: path@ },
        StmtKind::StopMusic => SpecStmtKind::StopMusic,
        StmtKind::Menu { choices } => SpecStmtKind::Menu { choices: choices_view(choices@) },
        StmtKind::Jump { label } => SpecStmtKind::Jump { label: label@ },
        StmtKind::Assign { var, op, value } => SpecStmtKind::Assign { var: var@, op, value: value@ },
        StmtKind::If { cond, then_body, else_body } => SpecStmtKind::If {
            cond: cond@,
            then_body: stmts_view(then_body@),
            else_body: stmts_view(else_body@),
        },
        StmtKind::End => SpecStmtKind::End,
    }
}

/// The model of a list of statements.
pub open spec fn stmts_view(v: Seq<Stmt>) -> Seq<SpecStmt>
    decreases v, 1nat,
{
    if v.len() == 0 {
        Seq::empty()
    } else {
        stmts_view(v.drop_last()).push(stmt_view(v.last()))
    }
}

/// The model of a menu branch.
pub open spec fn choice_view(c: Choice) -> SpecChoice
    decreases c, 0nat,
{
    SpecChoice {
        text_id: opt_str_view(c.text_id),
        text: c.text@,
        condition: opt_expr_view(c.condition),
        body: stmts_view(c.body@),
        pos: c.pos@,
    }
}

/// The model of a list of menu branches.
pub open spec fn choices_view(v: Seq<Choice>) -> Seq<SpecChoice>
    decreases v, 1nat,
{
    if v.len() == 0 {
        Seq::empty()
    } else {
        choices_view(v.drop_last()).push(choice_view(v.last()))
    }
}

impl View for Stmt {
    type V = SpecStmt;

    open spec fn view(&self) -> SpecStmt {
        stmt_view(*self)
    }
}

impl View for Choice {
    type V = SpecChoice;

    open spec fn view(&self) -> SpecChoice {
        choice_view(*self)
    }
}

impl View for Script {
    type V = Seq<SpecStmt>;

    open spec fn view(&self) -> Seq<SpecStmt> {
        stmts_view(self.statements@)
    }
}

/// The model of a list of statements has one model per statement.
pub proof fn lemma_stmts_view(v: Seq<Stmt>)
    ensures
        stmts_view(v).len() == v.len(),
        forall|i: int| 0 <= i < v.len() ==> #[trigger] stmts_view(v)[i] == stmt_view(v[i]),
    decreases v.len(),
{
    if v.len() > 0 {
        lemma_stmts_view(v.drop_last());
    }
}

/// The model of a list of menu branches has one model per branch.
pub proof fn lemma_choices_view(v: Seq<Choice>)
    ensures
        choices_view(v).len() == v.len(),
        forall|i: int| 0 <= i < v.len() ==> #[trigger] choices_view(v)[i] == choice_view(v[i]),
    decreases v.len(),
{
    if v.len() > 0 {
        lemma_choices_view(v.drop_last());
    }
}

/// Copies a list of statements.
pub fn duplicate_stmts(v: &Vec<Stmt>) -> (r: Vec<Stmt>)
    ensures
        stmts_view(r@) == stmts_view(v@),
    decreases v, 1nat,
{
    let mut r: Vec<Stmt> = Vec::new();
    let mut i: usize = 0;
    while i < v.len()
        invariant
            i <= v.len(),
            stmts_view(r@) == stmts_view(v@.take(i as int)),
        decreases v.len() - i,
    {
        proof {
            assert(decreases_to!(v => v@));
            assert(decreases_to!(v@ => v@[i as int]));
        }
        let s = v[i].duplicate();
        let ghost old_r = r@;
        r.push(s);
        proof {
            assert(r@.drop_last() == old_r);
            assert(v@.take(i + 1).drop_last() == v@.take(i as int));
        }
        i = i + 1;
    }
    assert(v@.take(v.len() as int) == v@);
    r
}

/// Copies a list of menu branches.
pub fn duplicate_choices(v: &Vec<Choice>) -> (r: Vec<Choice>)
    ensures
        choices_view(r@) == choices_view(v@),
    decreases v, 1nat,
{
    let mut r: Vec<Choice> = Vec::new();
    let mut i: usize = 0;
    while i < v.len()
        invariant
            i <= v.len(),
            choices_view(r@) == choices_view(v@.take(i as int)),
        decreases v.len() - i,
    {
        proof {
            assert(decreases_to!(v => v@));
            assert(decreases_to!(v@ => v@[i as int]));
        }
        let c = v[i].duplicate();
        let ghost old_r = r@;
        r.push(c);
        proof {
            assert(r@.drop_last() == old_r);
            assert(v@.take(i + 1).drop_last() == v@.take(i as int));
        }
        i = i + 1;
    }
    assert(v@.take(v.len() as int) == v@);
    r
}

impl Stmt {
    /// A copy with the same model.
    pub fn duplicate(&self) -> (r: Stmt)
        ensures
            r@ == self@,
        decreases self, 0nat,
    {
        Stmt { kind: self.kind.duplicate(), pos: self.pos.duplicate() }
    }
}

impl StmtKind {
    /// A copy with the same model.
    pub fn duplicate(&self) -> (r: StmtKind)
        ensures
            stmt_kind_view(r) == stmt_kind_view(*self),
        decreases self, 0nat,
    {
        match self {
            StmtKind::Label { name } => StmtKind::Label { name: name.clone() },
            StmtKind::Say { speaker, text_id, text, effect } => StmtKind::Say {
                speaker: duplicate_opt_str(speaker),
                text_id: duplicate_opt_str(text_id),
                text: text.clone(),
                effect: *effect,
            },
            StmtKind::Scene { image, transition } => StmtKind::Scene {
                image: image.clone(),
                transition: duplicate_opt_transition(transition),
            },
            StmtKind::Show { tag, attrs, position, transition } => StmtKind::Show {
                tag: tag.clone(),
                attrs: duplicate_strings(attrs),
                position: position.clone(),
                transition: duplicate_opt_transition(transition),
            },
            StmtKind::Hide { tag } => StmtKind::Hide { tag: tag.clone() },
            StmtKind::PlayMusic { path } => StmtKind::PlayMusic { path: path.clone() },
            StmtKind::StopMusic => StmtKind::StopMusic,
            StmtKind::Menu { choices } => StmtKind::Menu { choices: duplicate_choices(choices) },
            StmtKind::Jump { label } => StmtKind::Jump { label: label.clone() },
            StmtKind::Assign { var, op, value } => StmtKind::Assign {
                var: var.clone(),
                op: *op,
                value: value.duplicate(),
            },
            StmtKind::If { cond, then_body, else_body } => StmtKind::If {
                cond: cond.duplicate(),
                then_body: duplicate_stmts(then_body),
                else_body: duplicate_stmts(else_body),
            },
            StmtKind::End => StmtKind::End,
        }
    }
}

impl Choice {
    /// A copy with the same model.
    pub fn duplicate(&self) -> (r: Choice)
        ensures
            r@ == self@,
        decreases self, 0nat,
    {
        Choice {
            text_id: duplicate_opt_str(&self.text_id),
            text: self.text.clone(),
            condition: duplicate_opt_expr(&self.condition),
            body: duplicate_stmts(&self.body),
            pos: self.pos.duplicate(),
        }
    }
}

impl Clone for Stmt {
    fn clone(&self) -> (r: Self)
        ensures
            r@ == self@,
    {
        self.duplicate()
    }
}

impl Clone for StmtKind {
    fn clone(&self) -> (r: Self)
        ensures
            stmt_kind_view(r) == stmt_kind_view(*self),
    {
        self.duplicate()
    }
}

impl Clone for Choice {
    fn clone(&self) -> (r: Self)
        ensures
            r@ == self@,
    {
        self.duplicate()
    }
}

impl Clone for Script {
    fn clone(&self) -> (r: Self)
        ensures
            r@ == self@,
    {
        Script { statements: duplicate_stmts(&self.statements) }
    }
}

/// The model of a prefix is the prefix of the model.
pub proof fn lemma_stmts_view_take(v: Seq<Stmt>, i: int)
    requires
        0 <= i <= v.len(),
    ensures
        stmts_view(v.take(i)) == stmts_view(v).take(i),
        i < v.len() ==> stmts_view(v)[i] == stmt_view(v[i]),
        stmts_view(v).len() == v.len(),
{
    lemma_stmts_view(v);
    lemma_stmts_view(v.take(i));
    assert(stmts_view(v.take(i)) =~= stmts_view(v).take(i));
}

/// The model of a prefix is the prefix of the model.
pub proof fn lemma_choices_view_take(v: Seq<Choice>, i: int)
    requires
        0 <= i <= v.len(),
    ensures
        crate::ast::choices_view(v.take(i)) == crate::ast::choices_view(v).take(i),
        i < v.len() ==> crate::ast::choices_view(v)[i] == choice_view(v[i]),
        crate::ast::choices_view(v).len() == v.len(),
{
    lemma_choices_view(v);
    lemma_choices_view(v.take(i));
    assert(crate::ast::choices_view(v.take(i)) =~= crate::ast::choices_view(v).take(i));
}

// ---------------------------------------------------------------------------
// Statements at any depth.
// ---------------------------------------------------------------------------

/// A statement and, after it, every statement nested in it: those of its conditional's
/// branches and of its menu choices' bodies, at any depth.
pub open spec fn nested_stmt(s: SpecStmt) -> Seq<SpecStmt>
    decreases s, 0nat,
{
    seq![s] + match s.kind {
        SpecStmtKind::Menu { choices } => nested_choices(choices),
        SpecStmtKind::If { then_body, else_body, .. } => nested_stmts(then_body) + nested_stmts(else_body),
        _ => Seq::empty(),
    }
}

/// Every statement of a list at any depth, in script order.
pub open spec fn nested_stmts(ss: Seq<SpecStmt>) -> Seq<SpecStmt>
    decreases ss, 1nat,
{
    if ss.len() == 0 {
        Seq::empty()
    } else {
        nested_stmts(ss.drop_last()) + nested_stmt(ss.last())
    }
}

/// Every statement of the bodies of menu choices at any depth, in script order.
pub open spec fn nested_choices(cs: Seq<SpecChoice>) -> Seq<SpecStmt>
    decreases cs, 1nat,
{
    if cs.len() == 0 {
        Seq::empty()
    } else {
        nested_choices(cs.drop_last()) + nested_stmts(cs.last().body)
    }
}

/// Whether some element of a sequence has a property.
pub open spec fn some_has<T>(s: Seq<T>, p: spec_fn(T) -> bool) -> bool {
    exists|i: int| 0 <= i < s.len() && #[trigger] p(s[i])
}

/// Some element of two sequences one after the other has a property exactly when some element
/// of one of them has it.
pub proof fn lemma_some_has_concat<T>(a: Seq<T>, b: Seq<T>, p: spec_fn(T) -> bool)
    ensures
        some_has(a + b, p) <==> (some_has(a, p) || some_has(b, p)),
{
    let ab = a + b;
    if some_has(ab, p) {
        let i = choose|i: int| 0 <= i < ab.len() && #[trigger] p(ab[i]);
        if i < a.len() {
            assert(ab[i] == a[i]);
            assert(p(a[i]));
        } else {
            assert(ab[i] == b[i - a.len()]);
            assert(p(b[i - a.len()]));
        }
    }
    if some_has(a, p) {
        let i = choose|i: int| 0 <= i < a.len() && #[trigger] p(a[i]);
        assert(ab[i] == a[i]);
        assert(p(ab[i]));
    }
    if some_has(b, p) {
        let i = choose|i: int| 0 <= i < b.len() && #[trigger] p(b[i]);
        assert(ab[i + a.len()] == b[i]);
        assert(p(ab[i + a.len()]));
    }
}

} // verus!
