//! Filter expressions, their compilation against an entity type (resolving
//! fields and coercing literals to the field's kind), and their evaluation
//! on stored rows.

use vstd::prelude::*;
use crate::types::{cell_value, field_named, find_field, get_value, Cell, Field, FieldKind, Value};

verus! {

#[derive(Clone, Copy, Debug, PartialEq, Eq, Structural)]
pub enum CmpOp {
    Eq,
    Ne,
    Lt,
    Le,
    Gt,
    Ge,
}

/// A literal as a caller writes it.
#[derive(Clone, Copy, Debug, PartialEq, Eq, Structural)]
pub enum Literal {
    Null,
    Bool(bool),
    Int(i64),
    /// A number written with a fractional part, `whole.digits`; `frac` is
    /// the value of the digits after the point.
    Frac { whole: i64, frac: u64 },
}

/// A predicate tree over the fields of one entity type.
pub enum FilterExpr {
    All,
    Cmp { field: u64, op: CmpOp, lit: Literal },
    And(Box<FilterExpr>, Box<FilterExpr>),
    Or(Box<FilterExpr>, Box<FilterExpr>),
    Not(Box<FilterExpr>),
}

/// A filter whose fields are resolved and whose literals are stored values.
pub enum Predicate {
    All,
    Cmp { field: u64, op: CmpOp, value: Value },
    And(Box<Predicate>, Box<Predicate>),
    Or(Box<Predicate>, Box<Predicate>),
    Not(Box<Predicate>),
}

#[derive(Clone, Copy, Debug, PartialEq, Eq, Structural)]
pub enum QueryError {
    /// The filter names a field the type does not declare.
    UnknownField(u64),
    /// The literal cannot stand for a value of the field's kind.
    TypeMismatch(u64),
}

/// The stored value a literal stands for in a field of kind `kind`.
/// Integers and timestamps (epoch milliseconds) take an integer, or a
/// fractional number whose fraction is zero.
pub open spec fn coerce(kind: FieldKind, lit: Literal) -> Option<Value> {
    match lit {
        Literal::Null => Some(Value::Null),
        Literal::Bool(b) => if kind == FieldKind::Boolean {
            Some(Value::Bool(b))
        } else {
            None
        },
        Literal::Int(n) => if kind == FieldKind::Integer || kind == FieldKind::Timestamp {
            Some(Value::Int(n))
        } else {
            None
        },
        Literal::Frac { whole, frac } => if (kind == FieldKind::Integer || kind == FieldKind::Timestamp)
            && frac == 0 {
            Some(Value::Int(whole))
        } else {
            None
        },
    }
}

pub fn coerce_literal(kind: FieldKind, lit: Literal) -> (r: Option<Value>)
    ensures
        r == coerce(kind, lit),
{
    let numeric = kind == FieldKind::Integer || kind == FieldKind::Timestamp;
    match lit {
        Literal::Null => Some(Value::Null),
        Literal::Bool(b) => if kind == FieldKind::Boolean {
            Some(Value::Bool(b))
        } else {
            None
        },
        Literal::Int(n) => if numeric {
            Some(Value::Int(n))
        } else {
            None
        },
        Literal::Frac { whole, frac } => if numeric && frac == 0 {
            Some(Value::Int(whole))
        } else {
            None
        },
    }
}

pub open spec fn compile_spec(fs: Seq<Field>, e: FilterExpr) -> Result<Predicate, QueryError>
    decreases e,
{
    match e {
        FilterExpr::All => Ok(Predicate::All),
        FilterExpr::Cmp { field, op, lit } => match field_named(fs, field) {
            None => Err(QueryError::UnknownField(field)),
            Some(f) => match coerce(f.kind, lit) {
                None => Err(QueryError::TypeMismatch(field)),
                Some(v) => Ok(Predicate::Cmp { field, op, value: v }),
            },
        },
        FilterExpr::And(a, b) => match compile_spec(fs, *a) {
            Err(x) => Err(x),
            Ok(pa) => match compile_spec(fs, *b) {
                Err(x) => Err(x),
                Ok(pb) => Ok(Predicate::And(Box::new(pa), Box::new(pb))),
            },
        },
        FilterExpr::Or(a, b) => match compile_spec(fs, *a) {
            Err(x) => Err(x),
            Ok(pa) => match compile_spec(fs, *b) {
                Err(x) => Err(x),
                Ok(pb) => Ok(Predicate::Or(Box::new(pa), Box::new(pb))),
            },
        },
        FilterExpr::Not(a) => match compile_spec(fs, *a) {
            Err(x) => Err(x),
            Ok(pa) => Ok(Predicate::Not(Box::new(pa))),
        },
    }
}

/// Compiles `e` against the fields `fs` of an entity type.
pub fn compile_filter(fs: &Vec<Field>, e: &FilterExpr) -> (r: Result<Predicate, QueryError>)
    ensures
        r == compile_spec(fs@, *e),
    decreases e,
{
    match e {
        FilterExpr::All => Ok(Predicate::All),
        FilterExpr::Cmp { field, op, lit } => match find_field(fs, *field) {
            None => Err(QueryError::UnknownField(*field)),
            Some(i) => match coerce_literal(fs[i].kind, *lit) {
                None => Err(QueryError::TypeMismatch(*field)),
                Some(v) => Ok(Predicate::Cmp { field: *field, op: *op, value: v }),
            },
        },
        FilterExpr::And(a, b) => match compile_filter(fs, a) {
            Err(x) => Err(x),
            Ok(pa) => match compile_filter(fs, b) {
                Err(x) => Err(x),
                Ok(pb) => Ok(Predicate::And(Box::new(pa), Box::new(pb))),
            },
        },
        FilterExpr::Or(a, b) => match compile_filter(fs, a) {
            Err(x) => Err(x),
            Ok(pa) => match compile_filter(fs, b) {
                Err(x) => Err(x),
                Ok(pb) => Ok(Predicate::Or(Box::new(pa), Box::new(pb))),
            },
        },
        FilterExpr::Not(a) => match compile_filter(fs, a) {
            Err(x) => Err(x),
            Ok(pa) => Ok(Predicate::Not(Box::new(pa))),
        },
    }
}

/// Whether stored value `a` stands in relation `op` to `b`. Ordering
/// compares integers only; equality compares any two values.
pub open spec fn cmp_holds(op: CmpOp, a: Value, b: Value) -> bool {
    match op {
        CmpOp::Eq => a == b,
        CmpOp::Ne => a != b,
        _ => match (a, b) {
            (Value::Int(x), Value::Int(y)) => match op {
                CmpOp::Lt => x < y,
                CmpOp::Le => x <= y,
                CmpOp::Gt => x > y,
                _ => x >= y,
            },
            _ => false,
        },
    }
}

pub open spec fn eval_spec(p: Predicate, cells: Seq<Cell>) -> bool
    decreases p,
{
    match p {
        Predicate::All => true,
        Predicate::Cmp { field, op, value } => cmp_holds(op, cell_value(cells, field), value),
        Predicate::And(a, b) => eval_spec(*a, cells) && eval_spec(*b, cells),
        Predicate::Or(a, b) => eval_spec(*a, cells) || eval_spec(*b, cells),
        Predicate::Not(a) => !eval_spec(*a, cells),
    }
}

pub fn compare(op: CmpOp, a: Value, b: Value) -> (r: bool)
    ensures
        r == cmp_holds(op, a, b),
{
    match op {
        CmpOp::Eq => a == b,
        CmpOp::Ne => a != b,
        _ => match (a, b) {
            (Value::Int(x), Value::Int(y)) => match op {
                CmpOp::Lt => x < y,
                CmpOp::Le => x <= y,
                CmpOp::Gt => x > y,
                _ => x >= y,
            },
            _ => false,
        },
    }
}

/// Whether a row with values `cells` satisfies `p`.
pub fn eval_predicate(p: &Predicate, cells: &Vec<Cell>) -> (r: bool)
    ensures
        r == eval_spec(*p, cells@),
    decreases p,
{
    match p {
        Predicate::All => true,
        Predicate::Cmp { field, op, value } => compare(*op, get_value(cells, *field), *value),
        Predicate::And(a, b) => eval_predicate(a, cells) && eval_predicate(b, cells),
        Predicate::Or(a, b) => eval_predicate(a, cells) || eval_predicate(b, cells),
        Predicate::Not(a) => !eval_predicate(a, cells),
    }
}

/// `e` with every integer literal written instead with a zero fraction.
pub open spec fn fractional_form(e: FilterExpr) -> FilterExpr
    decreases e,
{
    match e {
        FilterExpr::All => FilterExpr::All,
        FilterExpr::Cmp { field, op, lit } => FilterExpr::Cmp {
            field,
            op,
            lit: match lit {
                Literal::Int(n) => Literal::Frac { whole: n, frac: 0 },
                _ => lit,
            },
        },
        FilterExpr::And(a, b) => FilterExpr::And(Box::new(fractional_form(*a)), Box::new(fractional_form(*b))),
        FilterExpr::Or(a, b) => FilterExpr::Or(Box::new(fractional_form(*a)), Box::new(fractional_form(*b))),
        FilterExpr::Not(a) => FilterExpr::Not(Box::new(fractional_form(*a))),
    }
}

/// Writing integer literals (epoch milliseconds for a timestamp) as equal
/// fractional numbers changes nothing: the filter compiles to the same
/// predicate, or fails the same way, and so selects the same rows.
pub proof fn lemma_fractional_literals_agree(fs: Seq<Field>, e: FilterExpr, cells: Seq<Cell>)
    ensures
        compile_spec(fs, fractional_form(e)) == compile_spec(fs, e),
        compile_spec(fs, e) matches Ok(p) ==> eval_spec(p, cells) == (compile_spec(fs, fractional_form(e)) matches Ok(q)
            && eval_spec(q, cells)),
    decreases e,
{
    match e {
        FilterExpr::And(a, b) => {
            lemma_fractional_literals_agree(fs, *a, cells);
            lemma_fractional_literals_agree(fs, *b, cells);
        },
        FilterExpr::Or(a, b) => {
            lemma_fractional_literals_agree(fs, *a, cells);
            lemma_fractional_literals_agree(fs, *b, cells);
        },
        FilterExpr::Not(a) => {
            lemma_fractional_literals_agree(fs, *a, cells);
        },
        _ => {},
    }
}

} // verus!
