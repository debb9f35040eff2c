//! Conditions and assigned values: words separated by white space, read with the usual
//! precedence `or` < `and` < comparison < `+`/`-` < `not`, all binary operators left-associative.
use vstd::prelude::*;
use crate::ast::{BinaryOp, Expr, SpecExpr, SpecValue, UnaryOp, Value};
use crate::lexer::{check_name, int_literal, is_word, name_check, parse_int, parse_quoted, quoted, split_words, words};
use crate::text::{seq_view, string_of};

verus! {

/// What reading part of an expression gives: the expression and the index of the next word,
/// or a message.
pub type ExprRead = Result<(SpecExpr, int), Seq<char>>;

/// A literal word: `true`/`True`, `false`/`False`, a quoted string or a signed integer.
pub open spec fn literal_value(t: Seq<char>) -> Option<SpecValue> {
    if t == "true"@ || t == "True"@ {
        Some(SpecValue::Bool(true))
    } else if t == "false"@ || t == "False"@ {
        Some(SpecValue::Bool(false))
    } else if t.len() > 0 && t[0] == '"' {
        match quoted(t) {
            Ok(v) => Some(SpecValue::Str(v)),
            Err(_) => None,
        }
    } else {
        match int_literal(t) {
            Some(i) => Some(SpecValue::Int(i)),
            None => None,
        }
    }
}

/// A single word: a literal, else a variable name.
pub open spec fn expr_atom(t: Seq<Seq<char>>, i: int) -> ExprRead {
    if i < 0 || i >= t.len() {
        Err("expected expression"@)
    } else {
        match literal_value(t[i]) {
            Some(v) => Ok((SpecExpr::Value(v), i + 1)),
            None => match name_check(t[i]) {
                Ok(n) => Ok((SpecExpr::Var(n), i + 1)),
                Err(m) => Err(m),
            },
        }
    }
}

/// Any number of `not` before a single word.
pub open spec fn expr_unary(t: Seq<Seq<char>>, i: int) -> ExprRead
    decreases t.len() - i, 1int,
{
    if 0 <= i < t.len() && t[i] == "not"@ {
        match expr_unary(t, i + 1) {
            Ok((e, j)) => Ok((SpecExpr::Unary { op: UnaryOp::Not, expr: Box::new(e) }, j)),
            Err(m) => Err(m),
        }
    } else {
        expr_atom(t, i)
    }
}

/// The additive operator a word names.
pub open spec fn add_op(w: Seq<char>) -> Option<BinaryOp> {
    if w == "+"@ {
        Some(BinaryOp::Add)
    } else if w == "-"@ {
        Some(BinaryOp::Sub)
    } else {
        None
    }
}

/// The comparison operator a word names.
pub open spec fn compare_op(w: Seq<char>) -> Option<BinaryOp> {
    if w == "=="@ {
        Some(BinaryOp::Eq)
    } else if w == "!="@ {
        Some(BinaryOp::Ne)
    } else if w == "<"@ {
        Some(BinaryOp::Lt)
    } else if w == "<="@ {
        Some(BinaryOp::Le)
    } else if w == ">"@ {
        Some(BinaryOp::Gt)
    } else if w == ">="@ {
        Some(BinaryOp::Ge)
    } else {
        None
    }
}

/// The operands joined to `left` by `+` and `-` from index `i` on.
pub open spec fn expr_add_rest(t: Seq<Seq<char>>, i: int, left: SpecExpr) -> ExprRead
    decreases t.len() - i, 2int,
{
    if 0 <= i < t.len() && add_op(t[i]) is Some {
        match expr_unary(t, i + 1) {
            Ok((right, j)) => if i < j <= t.len() {
                expr_add_rest(
                    t,
                    j,
                    SpecExpr::Binary { left: Box::new(left), op: add_op(t[i])->0, right: Box::new(right) },
                )
            } else {
                Ok((left, i))
            },
            Err(m) => Err(m),
        }
    } else {
        Ok((left, i))
    }
}

/// A sum or difference.
pub open spec fn expr_add(t: Seq<Seq<char>>, i: int) -> ExprRead
    decreases t.len() - i, 3int,
{
    match expr_unary(t, i) {
        Ok((e, j)) => if i < j <= t.len() { expr_add_rest(t, j, e) } else { Ok((e, j)) },
        Err(m) => Err(m),
    }
}

/// The operands joined to `left` by comparisons from index `i` on.
pub open spec fn expr_compare_rest(t: Seq<Seq<char>>, i: int, left: SpecExpr) -> ExprRead
    decreases t.len() - i, 4int,
{
    if 0 <= i < t.len() && compare_op(t[i]) is Some {
        match expr_add(t, i + 1) {
            Ok((right, j)) => if i < j <= t.len() {
                expr_compare_rest(
                    t,
                    j,
                    SpecExpr::Binary { left: Box::new(left), op: compare_op(t[i])->0, right: Box::new(right) },
                )
            } else {
                Ok((left, i))
            },
            Err(m) => Err(m),
        }
    } else {
        Ok((left, i))
    }
}

/// A comparison chain.
pub open spec fn expr_compare(t: Seq<Seq<char>>, i: int) -> ExprRead
    decreases t.len() - i, 5int,
{
    match expr_add(t, i) {
        Ok((e, j)) => if i < j <= t.len() { expr_compare_rest(t, j, e) } else { Ok((e, j)) },
        Err(m) => Err(m),
    }
}

/// The operands joined to `left` by `and` from index `i` on.
pub open spec fn expr_and_rest(t: Seq<Seq<char>>, i: int, left: SpecExpr) -> ExprRead
    decreases t.len() - i, 6int,
{
    if 0 <= i < t.len() && t[i] == "and"@ {
        match expr_compare(t, i + 1) {
            Ok((right, j)) => if i < j <= t.len() {
                expr_and_rest(
                    t,
                    j,
                    SpecExpr::Binary { left: Box::new(left), op: BinaryOp::And, right: Box::new(right) },
                )
            } else {
                Ok((left, i))
            },
            Err(m) => Err(m),
        }
    } else {
        Ok((left, i))
    }
}

/// A conjunction.
pub open spec fn expr_and(t: Seq<Seq<char>>, i: int) -> ExprRead
    decreases t.len() - i, 7int,
{
    match expr_compare(t, i) {
        Ok((e, j)) => if i < j <= t.len() { expr_and_rest(t, j, e) } else { Ok((e, j)) },
        Err(m) => Err(m),
    }
}

/// The operands joined to `left` by `or` from index `i` on.
pub open spec fn expr_or_rest(t: Seq<Seq<char>>, i: int, left: SpecExpr) -> ExprRead
    decreases t.len() - i, 8int,
{
    if 0 <= i < t.len() && t[i] == "or"@ {
        match expr_and(t, i + 1) {
            Ok((right, j)) => if i < j <= t.len() {
                expr_or_rest(
                    t,
                    j,
                    SpecExpr::Binary { left: Box::new(left), op: BinaryOp::Or, right: Box::new(right) },
                )
            } else {
                Ok((left, i))
            },
            Err(m) => Err(m),
        }
    } else {
        Ok((left, i))
    }
}

/// A disjunction: a whole expression.
pub open spec fn expr_or(t: Seq<Seq<char>>, i: int) -> ExprRead
    decreases t.len() - i, 9int,
{
    match expr_and(t, i) {
        Ok((e, j)) => if i < j <= t.len() { expr_or_rest(t, j, e) } else { Ok((e, j)) },
        Err(m) => Err(m),
    }
}

/// An expression written as `text`: all of its words must be used.
pub open spec fn expression(text: Seq<char>) -> Result<SpecExpr, Seq<char>> {
    let t = words(text);
    match expr_or(t, 0) {
        Ok((e, j)) => if j < t.len() { Err("unexpected token in expression"@) } else { Ok(e) },
        Err(m) => Err(m),
    }
}

/// How an executable read relates to its model.
pub open spec fn read_matches(r: Result<(Expr, usize), &'static str>, m: ExprRead, i: int, n: int) -> bool {
    match r {
        Ok((e, j)) => m == Ok::<(SpecExpr, int), Seq<char>>((e@, j as int)) && i < j <= n,
        Err(msg) => m == Err::<(SpecExpr, int), Seq<char>>(msg@),
    }
}

fn read_literal(t: &[char]) -> (r: Option<Value>)
    ensures
        match r {
            Some(v) => literal_value(t@) == Some(v@),
            None => literal_value(t@) is None,
        },
{
    if is_word(t, "true") || is_word(t, "True") {
        Some(Value::Bool(true))
    } else if is_word(t, "false") || is_word(t, "False") {
        Some(Value::Bool(false))
    } else if t.len() > 0 && t[0] == '"' {
        match parse_quoted(t) {
            Ok(v) => Some(Value::Str(string_of(v.as_slice()))),
            Err(_) => None,
        }
    } else {
        match parse_int(t) {
            Some(i) => Some(Value::Int(i)),
            None => None,
        }
    }
}

fn read_atom(t: &Vec<Vec<char>>, i: usize) -> (r: Result<(Expr, usize), &'static str>)
    ensures
        read_matches(r, expr_atom(seq_view(t@), i as int), i as int, t@.len() as int),
{
    if i >= t.len() {
        return Err("expected expression");
    }
    let w = t[i].as_slice();
    match read_literal(w) {
        Some(v) => Ok((Expr::Value(v), i + 1)),
        None => match check_name(w) {
            Ok(n) => Ok((Expr::Var(string_of(n.as_slice())), i + 1)),
            Err(m) => Err(m),
        },
    }
}

fn read_unary(t: &Vec<Vec<char>>, i: usize) -> (r: Result<(Expr, usize), &'static str>)
    ensures
        read_matches(r, expr_unary(seq_view(t@), i as int), i as int, t@.len() as int),
    decreases t@.len() - i,
{
    if i < t.len() && is_word(t[i].as_slice(), "not") {
        match read_unary(t, i + 1) {
            Ok((e, j)) => Ok((Expr::Unary { op: UnaryOp::Not, expr: Box::new(e) }, j)),
            Err(m) => Err(m),
        }
    } else {
        read_atom(t, i)
    }
}

fn read_add_op(w: &[char]) -> (r: Option<BinaryOp>)
    ensures
        r == add_op(w@),
{
    if is_word(w, "+") {
        Some(BinaryOp::Add)
    } else if is_word(w, "-") {
        Some(BinaryOp::Sub)
    } else {
        None
    }
}

fn read_compare_op(w: &[char]) -> (r: Option<BinaryOp>)
    ensures
        r == compare_op(w@),
{
    if is_word(w, "==") {
        Some(BinaryOp::Eq)
    } else if is_word(w, "!=") {
        Some(BinaryOp::Ne)
    } else if is_word(w, "<") {
        Some(BinaryOp::Lt)
    } else if is_word(w, "<=") {
        Some(BinaryOp::Le)
    } else if is_word(w, ">") {
        Some(BinaryOp::Gt)
    } else if is_word(w, ">=") {
        Some(BinaryOp::Ge)
    } else {
        None
    }
}

fn read_add(t: &Vec<Vec<char>>, i: usize) -> (r: Result<(Expr, usize), &'static str>)
    ensures
        read_matches(r, expr_add(seq_view(t@), i as int), i as int, t@.len() as int),
{
    let ghost tv = seq_view(t@);
    let (mut expr, mut j) = match read_unary(t, i) {
        Ok(p) => p,
        Err(m) => return Err(m),
    };
    while j < t.len()
        invariant
            tv == seq_view(t@),
            i < j <= t@.len(),
            expr_add(tv, i as int) == expr_add_rest(tv, j as int, expr@),
        ensures
            i < j <= t@.len(),
            expr_add(tv, i as int) == Ok::<(SpecExpr, int), Seq<char>>((expr@, j as int)),
        decreases t@.len() - j,
    {
        assert(tv[j as int] == t@[j as int]@);
        let op = match read_add_op(t[j].as_slice()) {
            Some(op) => op,
            None => break,
        };
        assert(tv[j as int] == t@[j as int]@);
        match read_unary(t, j + 1) {
            Ok((right, k)) => {
                expr = Expr::Binary { left: Box::new(expr), op, right: Box::new(right) };
                j = k;
            },
            Err(m) => return Err(m),
        }
    }
    Ok((expr, j))
}

fn read_compare(t: &Vec<Vec<char>>, i: usize) -> (r: Result<(Expr, usize), &'static str>)
    ensures
        read_matches(r, expr_compare(seq_view(t@), i as int), i as int, t@.len() as int),
{
    let ghost tv = seq_view(t@);
    let (mut expr, mut j) = match read_add(t, i) {
        Ok(p) => p,
        Err(m) => return Err(m),
    };
    while j < t.len()
        invariant
            tv == seq_view(t@),
            i < j <= t@.len(),
            expr_compare(tv, i as int) == expr_compare_rest(tv, j as int, expr@),
        ensures
            i < j <= t@.len(),
            expr_compare(tv, i as int) == Ok::<(SpecExpr, int), Seq<char>>((expr@, j as int)),
        decreases t@.len() - j,
    {
        assert(tv[j as int] == t@[j as int]@);
        let op = match read_compare_op(t[j].as_slice()) {
            Some(op) => op,
            None => break,
        };
        assert(tv[j as int] == t@[j as int]@);
        match read_add(t, j + 1) {
            Ok((right, k)) => {
                expr = Expr::Binary { left: Box::new(expr), op, right: Box::new(right) };
                j = k;
            },
            Err(m) => return Err(m),
        }
    }
    Ok((expr, j))
}

fn read_and(t: &Vec<Vec<char>>, i: usize) -> (r: Result<(Expr, usize), &'static str>)
    ensures
        read_matches(r, expr_and(seq_view(t@), i as int), i as int, t@.len() as int),
{
    let ghost tv = seq_view(t@);
    let (mut expr, mut j) = match read_compare(t, i) {
        Ok(p) => p,
        Err(m) => return Err(m),
    };
    while j < t.len()
        invariant
            tv == seq_view(t@),
            i < j <= t@.len(),
            expr_and(tv, i as int) == expr_and_rest(tv, j as int, expr@),
        ensures
            i < j <= t@.len(),
            expr_and(tv, i as int) == Ok::<(SpecExpr, int), Seq<char>>((expr@, j as int)),
        decreases t@.len() - j,
    {
        assert(tv[j as int] == t@[j as int]@);
        if !is_word(t[j].as_slice(), "and") {
            break;
        }
        assert(tv[j as int] == t@[j as int]@);
        match read_compare(t, j + 1) {
            Ok((right, k)) => {
                expr = Expr::Binary { left: Box::new(expr), op: BinaryOp::And, right: Box::new(right) };
                j = k;
            },
            Err(m) => return Err(m),
        }
    }
    Ok((expr, j))
}

fn read_or(t: &Vec<Vec<char>>, i: usize) -> (r: Result<(Expr, usize), &'static str>)
    ensures
        read_matches(r, expr_or(seq_view(t@), i as int), i as int, t@.len() as int),
{
    let ghost tv = seq_view(t@);
    let (mut expr, mut j) = match read_and(t, i) {
        Ok(p) => p,
        Err(m) => return Err(m),
    };
    while j < t.len()
        invariant
            tv == seq_view(t@),
            i < j <= t@.len(),
            expr_or(tv, i as int) == expr_or_rest(tv, j as int, expr@),
        ensures
            i < j <= t@.len(),
            expr_or(tv, i as int) == Ok::<(SpecExpr, int), Seq<char>>((expr@, j as int)),
        decreases t@.len() - j,
    {
        assert(tv[j as int] == t@[j as int]@);
        if !is_word(t[j].as_slice(), "or") {
            break;
        }
        assert(tv[j as int] == t@[j as int]@);
        match read_and(t, j + 1) {
            Ok((right, k)) => {
                expr = Expr::Binary { left: Box::new(expr), op: BinaryOp::Or, right: Box::new(right) };
                j = k;
            },
            Err(m) => return Err(m),
        }
    }
    Ok((expr, j))
}

/// Reads an expression; the error is a message.
pub fn parse_expression(text: &[char]) -> (r: Result<Expr, &'static str>)
    ensures
        match r {
            Ok(e) => expression(text@) == Ok::<SpecExpr, Seq<char>>(e@),
            Err(m) => expression(text@) == Err::<SpecExpr, Seq<char>>(m@),
        },
{
    let t = split_words(text);
    match read_or(&t, 0) {
        Ok((e, j)) => if j < t.len() {
            Err("unexpected token in expression")
        } else {
            Ok(e)
        },
        Err(m) => Err(m),
    }
}

} // verus!
