//! Policies bound to an entity type: filters that hide rows, transforms that
//! rewrite returned values, and restrictions that deny an operation.

use vstd::prelude::*;
use crate::filter::{compile_filter, compile_spec, FilterExpr, Predicate, QueryError};
use crate::types::{field_named, find_field, Cell, Field, Value};

verus! {

/// A rewrite of a returned value.
#[derive(Clone, Copy, Debug, PartialEq, Eq, Structural)]
pub enum Transform {
    /// Returns null in place of the value.
    Redact,
    /// Returns a fixed value.
    Replace(Value),
    /// Caps an integer at `max`; other values pass unchanged.
    Clamp(i64),
}

/// A transform bound to one field.
#[derive(Clone, Copy, Debug, PartialEq, Eq, Structural)]
pub struct FieldPolicy {
    pub field: u64,
    pub transform: Transform,
}

/// The policies in force for one operation on one entity type.
pub struct ResolvedPolicy {
    /// Rows must satisfy every one of these to be seen.
    pub filters: Vec<Predicate>,
    /// Applied to returned values in declaration order.
    pub transforms: Vec<FieldPolicy>,
    pub deny_read: bool,
    pub deny_write: bool,
}

impl ResolvedPolicy {
    /// No policy bound: everything is allowed and returned as stored.
    pub fn allow_all() -> (r: ResolvedPolicy)
        ensures
            r.filters@.len() == 0,
            r.transforms@.len() == 0,
            !r.deny_read,
            !r.deny_write,
    {
        ResolvedPolicy { filters: Vec::new(), transforms: Vec::new(), deny_read: false, deny_write: false }
    }
}

pub open spec fn transform_value(v: Value, t: Transform) -> Value {
    match t {
        Transform::Redact => Value::Null,
        Transform::Replace(w) => w,
        Transform::Clamp(max) => match v {
            Value::Int(x) => if x > max {
                Value::Int(max)
            } else {
                v
            },
            _ => v,
        },
    }
}

pub fn apply_transform(v: Value, t: Transform) -> (r: Value)
    ensures
        r == transform_value(v, t),
{
    match t {
        Transform::Redact => Value::Null,
        Transform::Replace(w) => w,
        Transform::Clamp(max) => match v {
            Value::Int(x) => if x > max {
                Value::Int(max)
            } else {
                v
            },
            _ => v,
        },
    }
}

/// Value `v` of field `f` after the transforms of `ps` that target `f`,
/// each applied to the output of the one declared before it.
pub open spec fn presented_value(v: Value, f: u64, ps: Seq<FieldPolicy>) -> Value
    decreases ps.len(),
{
    if ps.len() == 0 {
        v
    } else {
        let prev = presented_value(v, f, ps.drop_last());
        if ps.last().field == f {
            transform_value(prev, ps.last().transform)
        } else {
            prev
        }
    }
}

/// The cells of a row as returned to the caller.
pub open spec fn presented_cells(cells: Seq<Cell>, ps: Seq<FieldPolicy>) -> Seq<Cell> {
    cells.map_values(|c: Cell| Cell { field: c.field, value: presented_value(c.value, c.field, ps) })
}

pub fn present_value(v: Value, f: u64, ps: &Vec<FieldPolicy>) -> (r: Value)
    ensures
        r == presented_value(v, f, ps@),
{
    let mut out = v;
    let mut i: usize = 0;
    while i < ps.len()
        invariant
            i <= ps@.len(),
            out == presented_value(v, f, ps@.subrange(0, i as int)),
        decreases ps.len() - i,
    {
        assert(ps@.subrange(0, i + 1).drop_last() == ps@.subrange(0, i as int));
        if ps[i].field == f {
            out = apply_transform(out, ps[i].transform);
        }
        i = i + 1;
    }
    assert(ps@.subrange(0, ps@.len() as int) == ps@);
    out
}

/// A copy of `cells` with the transforms of `ps` applied.
pub fn present_cells(cells: &Vec<Cell>, ps: &Vec<FieldPolicy>) -> (r: Vec<Cell>)
    ensures
        r@ == presented_cells(cells@, ps@),
{
    let mut out: Vec<Cell> = Vec::new();
    let mut i: usize = 0;
    while i < cells.len()
        invariant
            i <= cells@.len(),
            out@ == presented_cells(cells@.subrange(0, i as int), ps@),
        decreases cells.len() - i,
    {
        let c = cells[i];
        out.push(Cell { field: c.field, value: present_value(c.value, c.field, ps) });
        i = i + 1;
        assert(presented_cells(cells@.subrange(0, i as int), ps@) =~= out@);
    }
    assert(cells@.subrange(0, cells@.len() as int) == cells@);
    out
}

/// A field that no transform targets is returned exactly as stored.
pub proof fn lemma_untargeted_field_unchanged(v: Value, f: u64, ps: Seq<FieldPolicy>)
    requires
        forall|k: int| 0 <= k < ps.len() ==> ps[k].field != f,
    ensures
        presented_value(v, f, ps) == v,
    decreases ps.len(),
{
    if ps.len() > 0 {
        lemma_untargeted_field_unchanged(v, f, ps.drop_last());
    }
}

} // verus!

verus! {

/// The kinds of logical operation a restriction can deny.
#[derive(Clone, Copy, Debug, PartialEq, Eq, Structural)]
pub enum Operation {
    Read,
    Write,
}

/// A policy as declared on an entity type.
pub enum Policy {
    /// Hides the rows that do not satisfy the expression.
    Filter(FilterExpr),
    /// Rewrites a field's returned value.
    Transform(FieldPolicy),
    /// Denies an operation outright.
    Restrict(Operation),
}

/// The filters of the policies `ps`, compiled against `fs`, in order; or
/// the first error: a filter that does not compile, or a transform bound to
/// a field that `fs` does not declare.
pub open spec fn resolved_filters(fs: Seq<Field>, ps: Seq<Policy>) -> Result<Seq<Predicate>, QueryError>
    decreases ps.len(),
{
    if ps.len() == 0 {
        Ok(seq![])
    } else {
        match resolved_filters(fs, ps.drop_last()) {
            Err(e) => Err(e),
            Ok(prev) => match ps.last() {
                Policy::Filter(e) => match compile_spec(fs, e) {
                    Err(x) => Err(x),
                    Ok(p) => Ok(prev.push(p)),
                },
                Policy::Transform(t) => if field_named(fs, t.field) is None {
                    Err(QueryError::UnknownField(t.field))
                } else {
                    Ok(prev)
                },
                _ => Ok(prev),
            },
        }
    }
}

/// The transforms of the policies `ps`, in declaration order.
pub open spec fn resolved_transforms(ps: Seq<Policy>) -> Seq<FieldPolicy>
    decreases ps.len(),
{
    if ps.len() == 0 {
        seq![]
    } else {
        match ps.last() {
            Policy::Transform(t) => resolved_transforms(ps.drop_last()).push(t),
            _ => resolved_transforms(ps.drop_last()),
        }
    }
}

/// Whether some policy of `ps` restricts operation `op`.
pub open spec fn restricts(ps: Seq<Policy>, op: Operation) -> bool {
    exists|k: int| 0 <= k < ps.len() && ps[k] == Policy::Restrict(op)
}

/// Composes the policies declared on a type with fields `fs`: filters
/// compiled and all in force together, transforms in declaration order,
/// and the operations some restriction denies. Fails when a filter names
/// an unknown field or holds a literal of the wrong kind.
pub fn resolve(fs: &Vec<Field>, ps: &Vec<Policy>) -> (r: Result<ResolvedPolicy, QueryError>)
    ensures
        match resolved_filters(fs@, ps@) {
            Err(e) => r matches Err(x) && x == e,
            Ok(filters) => r matches Ok(rp) && rp.filters@ == filters && rp.transforms@ == resolved_transforms(ps@)
                && rp.deny_read == restricts(ps@, Operation::Read) && rp.deny_write == restricts(ps@, Operation::Write),
        },
{
    let mut out = ResolvedPolicy::allow_all();
    assert(out.filters@ =~= Seq::<Predicate>::empty());
    let mut i: usize = 0;
    while i < ps.len()
        invariant
            i <= ps@.len(),
            resolved_filters(fs@, ps@.subrange(0, i as int)) == Ok::<Seq<Predicate>, QueryError>(out.filters@),
            out.transforms@ == resolved_transforms(ps@.subrange(0, i as int)),
            out.deny_read == restricts(ps@.subrange(0, i as int), Operation::Read),
            out.deny_write == restricts(ps@.subrange(0, i as int), Operation::Write),
        decreases ps.len() - i,
    {
        let ghost pre = ps@.subrange(0, i as int);
        let ghost cur = ps@.subrange(0, i + 1);
        assert(cur.drop_last() == pre);
        assert(cur.last() == ps@[i as int]);
        proof {
            assert forall|op: Operation| restricts(cur, op) == (restricts(pre, op) || ps@[i as int] == Policy::Restrict(op)) by {
                if restricts(cur, op) {
                    let k = choose|k: int| 0 <= k < cur.len() && cur[k] == Policy::Restrict(op);
                    if k < i {
                        assert(pre[k] == cur[k]);
                    }
                }
                if restricts(pre, op) {
                    let k = choose|k: int| 0 <= k < pre.len() && pre[k] == Policy::Restrict(op);
                    assert(cur[k] == pre[k]);
                }
            }
        }
        match &ps[i] {
            Policy::Filter(e) => {
                match compile_filter(fs, e) {
                    Err(x) => {
                        proof {
                            lemma_filters_fail_on(fs@, ps@, i as int + 1);
                        }
                        return Err(x);
                    },
                    Ok(p) => {
                        out.filters.push(p);
                    },
                }
            },
            Policy::Transform(t) => {
                if find_field(fs, t.field).is_none() {
                    proof {
                        lemma_filters_fail_on(fs@, ps@, i as int + 1);
                    }
                    return Err(QueryError::UnknownField(t.field));
                }
                out.transforms.push(*t);
            },
            Policy::Restrict(op) => {
                match op {
                    Operation::Read => {
                        out.deny_read = true;
                    },
                    Operation::Write => {
                        out.deny_write = true;
                    },
                }
            },
        }
        i = i + 1;
    }
    assert(ps@.subrange(0, ps@.len() as int) == ps@);
    Ok(out)
}

/// Once a prefix of the policies fails to compile, so do all of them.
proof fn lemma_filters_fail_on(fs: Seq<Field>, ps: Seq<Policy>, n: int)
    requires
        0 <= n <= ps.len(),
        resolved_filters(fs, ps.subrange(0, n)) is Err,
    ensures
        resolved_filters(fs, ps) == resolved_filters(fs, ps.subrange(0, n)),
    decreases ps.len() - n,
{
    if n < ps.len() {
        assert(ps.subrange(0, n + 1).drop_last() == ps.subrange(0, n));
        lemma_filters_fail_on(fs, ps, n + 1);
    } else {
        assert(ps.subrange(0, n) == ps);
    }
}

} // verus!
