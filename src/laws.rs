//! Properties of the differ and of apply that relate several functions.

use vstd::prelude::*;
use crate::apply::{
    add_steps, drop_steps, field_diff, field_step, is_widening, rel_add_steps, rel_drop_steps, relation_diff,
    relation_step, schema_diff, step_safety, type_change_steps, type_create_steps,
    type_drop_steps, type_step, MigrationStep, Safety,
};
use crate::registry::{advances, commit_error, plan_accepted, ApplyError, Registry};
use crate::filter::Predicate;
use crate::policy::{presented_cells, FieldPolicy};
use crate::store::{lemma_added_field_keeps_others, query_result, visible, with_field};
use crate::types::{
    cell_value, field_named, lemma_field_named_index, lemma_field_named_unique, lemma_relation_named_unique,
    lemma_type_named_index, lemma_type_named_unique, relation_named, type_named, unique_field_names,
    unique_relation_fields, valid_types, Cell, EntityType, Field, Relation, Row,
};

verus! {

proof fn lemma_add_steps_self(ty: u64, fs: Seq<Field>, n: int)
    requires
        unique_field_names(fs),
        0 <= n <= fs.len(),
    ensures
        add_steps(ty, fs, fs.subrange(0, n)) == Seq::<MigrationStep>::empty(),
    decreases n,
{
    if n > 0 {
        assert(fs.subrange(0, n).drop_last() == fs.subrange(0, n - 1));
        lemma_add_steps_self(ty, fs, n - 1);
        lemma_field_named_unique(fs, n - 1);
        assert(field_step(ty, fs, fs[n - 1]) == Seq::<MigrationStep>::empty());
        assert(add_steps(ty, fs, fs.subrange(0, n)) =~= Seq::<MigrationStep>::empty());
    }
}

proof fn lemma_drop_steps_self(ty: u64, fs: Seq<Field>, n: int)
    requires
        unique_field_names(fs),
        0 <= n <= fs.len(),
    ensures
        drop_steps(ty, fs.subrange(0, n), fs) == Seq::<MigrationStep>::empty(),
    decreases n,
{
    if n > 0 {
        assert(fs.subrange(0, n).drop_last() == fs.subrange(0, n - 1));
        lemma_drop_steps_self(ty, fs, n - 1);
        lemma_field_named_unique(fs, n - 1);
        assert(drop_steps(ty, fs.subrange(0, n), fs) =~= Seq::<MigrationStep>::empty());
    }
}

proof fn lemma_field_diff_self(ty: u64, fs: Seq<Field>)
    requires
        unique_field_names(fs),
    ensures
        field_diff(ty, fs, fs) == Seq::<MigrationStep>::empty(),
{
    lemma_add_steps_self(ty, fs, fs.len() as int);
    lemma_drop_steps_self(ty, fs, fs.len() as int);
    assert(fs.subrange(0, fs.len() as int) == fs);
    assert(field_diff(ty, fs, fs) =~= Seq::<MigrationStep>::empty());
}

proof fn lemma_rel_add_steps_self(ty: u64, rs: Seq<Relation>, n: int)
    requires
        unique_relation_fields(rs),
        0 <= n <= rs.len(),
    ensures
        rel_add_steps(ty, rs, rs.subrange(0, n)) == Seq::<MigrationStep>::empty(),
    decreases n,
{
    if n > 0 {
        assert(rs.subrange(0, n).drop_last() == rs.subrange(0, n - 1));
        lemma_rel_add_steps_self(ty, rs, n - 1);
        lemma_relation_named_unique(rs, n - 1);
        assert(relation_step(ty, rs, rs[n - 1]) == Seq::<MigrationStep>::empty());
        assert(rel_add_steps(ty, rs, rs.subrange(0, n)) =~= Seq::<MigrationStep>::empty());
    }
}

proof fn lemma_rel_drop_steps_self(ty: u64, rs: Seq<Relation>, n: int)
    requires
        unique_relation_fields(rs),
        0 <= n <= rs.len(),
    ensures
        rel_drop_steps(ty, rs.subrange(0, n), rs) == Seq::<MigrationStep>::empty(),
    decreases n,
{
    if n > 0 {
        assert(rs.subrange(0, n).drop_last() == rs.subrange(0, n - 1));
        lemma_rel_drop_steps_self(ty, rs, n - 1);
        lemma_relation_named_unique(rs, n - 1);
        assert(rel_drop_steps(ty, rs.subrange(0, n), rs) =~= Seq::<MigrationStep>::empty());
    }
}

proof fn lemma_relation_diff_self(ty: u64, rs: Seq<Relation>)
    requires
        unique_relation_fields(rs),
    ensures
        relation_diff(ty, rs, rs) == Seq::<MigrationStep>::empty(),
{
    lemma_rel_add_steps_self(ty, rs, rs.len() as int);
    lemma_rel_drop_steps_self(ty, rs, rs.len() as int);
    assert(rs.subrange(0, rs.len() as int) == rs);
    assert(relation_diff(ty, rs, rs) =~= Seq::<MigrationStep>::empty());
}

proof fn lemma_type_create_steps_self(ts: Seq<EntityType>, n: int)
    requires
        valid_types(ts),
        0 <= n <= ts.len(),
    ensures
        type_create_steps(ts, ts.subrange(0, n)) == Seq::<MigrationStep>::empty(),
    decreases n,
{
    if n > 0 {
        assert(ts.subrange(0, n).drop_last() == ts.subrange(0, n - 1));
        lemma_type_create_steps_self(ts, n - 1);
        lemma_type_named_unique(ts, n - 1);
        assert(type_create_steps(ts, ts.subrange(0, n)) =~= Seq::<MigrationStep>::empty());
    }
}

proof fn lemma_type_change_steps_self(ts: Seq<EntityType>, n: int)
    requires
        valid_types(ts),
        0 <= n <= ts.len(),
    ensures
        type_change_steps(ts, ts.subrange(0, n)) == Seq::<MigrationStep>::empty(),
    decreases n,
{
    if n > 0 {
        assert(ts.subrange(0, n).drop_last() == ts.subrange(0, n - 1));
        lemma_type_change_steps_self(ts, n - 1);
        lemma_type_named_unique(ts, n - 1);
        lemma_field_diff_self(ts[n - 1].name, ts[n - 1].fields@);
        lemma_relation_diff_self(ts[n - 1].name, ts[n - 1].relations@);
        assert(type_step(ts, ts[n - 1]) =~= Seq::<MigrationStep>::empty());
        assert(type_change_steps(ts, ts.subrange(0, n)) =~= Seq::<MigrationStep>::empty());
    }
}

proof fn lemma_type_drop_steps_self(ts: Seq<EntityType>, n: int)
    requires
        valid_types(ts),
        0 <= n <= ts.len(),
    ensures
        type_drop_steps(ts.subrange(0, n), ts) == Seq::<MigrationStep>::empty(),
    decreases n,
{
    if n > 0 {
        assert(ts.subrange(0, n).drop_last() == ts.subrange(0, n - 1));
        lemma_type_drop_steps_self(ts, n - 1);
        lemma_type_named_unique(ts, n - 1);
        assert(type_drop_steps(ts.subrange(0, n), ts) =~= Seq::<MigrationStep>::empty());
    }
}

/// Declaring exactly the committed types again plans no step, and applying
/// that declaration leaves the version where it was.
pub proof fn lemma_identical_declaration(r: Registry, confirm_destructive: bool, dry_run: bool)
    requires
        valid_types(r.types@),
    ensures
        schema_diff(r.types@, r.types@) == Seq::<MigrationStep>::empty(),
        commit_error(r, r.types@, confirm_destructive, dry_run) is None,
        !advances(r, r.types@, confirm_destructive, dry_run),
{
    let ts = r.types@;
    lemma_type_create_steps_self(ts, ts.len() as int);
    lemma_type_change_steps_self(ts, ts.len() as int);
    lemma_type_drop_steps_self(ts, ts.len() as int);
    assert(ts.subrange(0, ts.len() as int) == ts);
    assert(schema_diff(ts, ts) =~= Seq::<MigrationStep>::empty());
}

proof fn lemma_add_steps_has(ty: u64, old: Seq<Field>, new: Seq<Field>, j: int, k: int)
    requires
        0 <= j < new.len(),
        0 <= k < field_step(ty, old, new[j]).len(),
    ensures
        add_steps(ty, old, new).contains(field_step(ty, old, new[j])[k]),
    decreases new.len(),
{
    let pre = add_steps(ty, old, new.drop_last());
    let x = field_step(ty, old, new[j])[k];
    if j == new.len() - 1 {
        assert(add_steps(ty, old, new)[pre.len() + k] == x);
    } else {
        assert(new.drop_last()[j] == new[j]);
        lemma_add_steps_has(ty, old, new.drop_last(), j, k);
        let m = choose|m: int| 0 <= m < pre.len() && pre[m] == x;
        assert(add_steps(ty, old, new)[m] == x);
    }
}

proof fn lemma_drop_steps_has(ty: u64, old: Seq<Field>, new: Seq<Field>, j: int)
    requires
        0 <= j < old.len(),
        field_named(new, old[j].name) is None,
    ensures
        drop_steps(ty, old, new).contains(MigrationStep::DropField { ty, field: old[j].name }),
    decreases old.len(),
{
    let pre = drop_steps(ty, old.drop_last(), new);
    let x = MigrationStep::DropField { ty, field: old[j].name };
    if j == old.len() - 1 {
        assert(drop_steps(ty, old, new)[pre.len() as int] == x);
    } else {
        assert(old.drop_last()[j] == old[j]);
        lemma_drop_steps_has(ty, old.drop_last(), new, j);
        let m = choose|m: int| 0 <= m < pre.len() && pre[m] == x;
        assert(drop_steps(ty, old, new)[m] == x);
    }
}

proof fn lemma_type_change_steps_has(old: Seq<EntityType>, new: Seq<EntityType>, j: int, k: int)
    requires
        0 <= j < new.len(),
        0 <= k < type_step(old, new[j]).len(),
    ensures
        type_change_steps(old, new).contains(type_step(old, new[j])[k]),
    decreases new.len(),
{
    let pre = type_change_steps(old, new.drop_last());
    let x = type_step(old, new[j])[k];
    if j == new.len() - 1 {
        assert(type_change_steps(old, new)[pre.len() + k] == x);
    } else {
        assert(new.drop_last()[j] == new[j]);
        lemma_type_change_steps_has(old, new.drop_last(), j, k);
        let m = choose|m: int| 0 <= m < pre.len() && pre[m] == x;
        assert(type_change_steps(old, new)[m] == x);
    }
}

/// A step of the migration of one kept type is a step of the whole plan.
proof fn lemma_schema_diff_has_field_step(
    old: Seq<EntityType>,
    new: Seq<EntityType>,
    ty: u64,
    x: MigrationStep,
)
    requires
        type_named(old, ty) is Some,
        type_named(new, ty) is Some,
        field_diff(ty, type_named(old, ty).unwrap().fields@, type_named(new, ty).unwrap().fields@).contains(x),
    ensures
        schema_diff(old, new).contains(x),
{
    lemma_type_named_index(new, ty);
    let j = choose|j: int|
        0 <= j < new.len() && new[j] == type_named(new, ty).unwrap() && new[j].name == ty
            && forall|k: int| 0 <= k < j ==> new[k].name != ty;
    let fd = field_diff(ty, type_named(old, ty).unwrap().fields@, type_named(new, ty).unwrap().fields@);
    let rd = relation_diff(ty, type_named(old, ty).unwrap().relations@, type_named(new, ty).unwrap().relations@);
    assert(type_step(old, new[j]) == fd + rd);
    let k = choose|k: int| 0 <= k < fd.len() && fd[k] == x;
    assert(type_step(old, new[j])[k] == x);
    lemma_type_change_steps_has(old, new, j, k);
    let m = choose|m: int| 0 <= m < type_change_steps(old, new).len() && type_change_steps(old, new)[m] == x;
    assert(schema_diff(old, new)[type_create_steps(old, new).len() + m] == x);
}

/// A destructive step in the plan stops an unconfirmed apply.
proof fn lemma_destructive_rejected(r: Registry, declared: Seq<EntityType>, x: MigrationStep, dry_run: bool)
    requires
        valid_types(declared),
        schema_diff(r.types@, declared).contains(x),
        step_safety(x) == Safety::Destructive,
    ensures
        !plan_accepted(schema_diff(r.types@, declared), false),
        commit_error(r, declared, false, dry_run) == Some(ApplyError::Rejected),
{
    let steps = schema_diff(r.types@, declared);
    let m = choose|m: int| 0 <= m < steps.len() && steps[m] == x;
    assert(step_safety(steps[m]) == Safety::Destructive);
}

/// Removing a field from a kept type is a destructive step, and an apply
/// that does not confirm destructive steps is rejected for it.
pub proof fn lemma_removed_field_rejected(r: Registry, declared: Seq<EntityType>, ty: u64, field: u64, dry_run: bool)
    requires
        valid_types(declared),
        type_named(r.types@, ty) is Some,
        type_named(declared, ty) is Some,
        field_named(type_named(r.types@, ty).unwrap().fields@, field) is Some,
        field_named(type_named(declared, ty).unwrap().fields@, field) is None,
    ensures
        schema_diff(r.types@, declared).contains(MigrationStep::DropField { ty, field }),
        step_safety(MigrationStep::DropField { ty, field }) == Safety::Destructive,
        commit_error(r, declared, false, dry_run) == Some(ApplyError::Rejected),
{
    let o = type_named(r.types@, ty).unwrap().fields@;
    let n = type_named(declared, ty).unwrap().fields@;
    lemma_field_named_index(o, field);
    let j = choose|j: int|
        0 <= j < o.len() && o[j] == field_named(o, field).unwrap() && o[j].name == field
            && forall|k: int| 0 <= k < j ==> o[k].name != field;
    let x = MigrationStep::DropField { ty, field };
    lemma_drop_steps_has(ty, o, n, j);
    let pre = add_steps(ty, o, n);
    let m = choose|m: int| 0 <= m < drop_steps(ty, o, n).len() && drop_steps(ty, o, n)[m] == x;
    assert(field_diff(ty, o, n)[pre.len() + m] == x);
    lemma_schema_diff_has_field_step(r.types@, declared, ty, x);
    lemma_destructive_rejected(r, declared, x, dry_run);
}

/// Changing a kept field's kind other than by widening is a destructive
/// step, and an apply that does not confirm destructive steps is rejected
/// for it.
pub proof fn lemma_narrowed_field_rejected(r: Registry, declared: Seq<EntityType>, ty: u64, field: u64, dry_run: bool)
    requires
        valid_types(declared),
        type_named(r.types@, ty) is Some,
        type_named(declared, ty) is Some,
        field_named(type_named(r.types@, ty).unwrap().fields@, field) is Some,
        field_named(type_named(declared, ty).unwrap().fields@, field) is Some,
        !is_widening(
            field_named(type_named(r.types@, ty).unwrap().fields@, field).unwrap().kind,
            field_named(type_named(declared, ty).unwrap().fields@, field).unwrap().kind,
        ),
        field_named(type_named(r.types@, ty).unwrap().fields@, field).unwrap().kind != field_named(
            type_named(declared, ty).unwrap().fields@,
            field,
        ).unwrap().kind,
    ensures
        schema_diff(r.types@, declared).contains(
            MigrationStep::ChangeKind {
                ty,
                field,
                from: field_named(type_named(r.types@, ty).unwrap().fields@, field).unwrap().kind,
                to: field_named(type_named(declared, ty).unwrap().fields@, field).unwrap().kind,
            },
        ),
        commit_error(r, declared, false, dry_run) == Some(ApplyError::Rejected),
{
    let o = type_named(r.types@, ty).unwrap().fields@;
    let n = type_named(declared, ty).unwrap().fields@;
    lemma_field_named_index(n, field);
    let j = choose|j: int|
        0 <= j < n.len() && n[j] == field_named(n, field).unwrap() && n[j].name == field
            && forall|k: int| 0 <= k < j ==> n[k].name != field;
    let x = MigrationStep::ChangeKind {
        ty,
        field,
        from: field_named(o, field).unwrap().kind,
        to: field_named(n, field).unwrap().kind,
    };
    assert(field_step(ty, o, n[j])[0] == x);
    lemma_add_steps_has(ty, o, n, j, 0);
    let m = choose|m: int| 0 <= m < add_steps(ty, o, n).len() && add_steps(ty, o, n)[m] == x;
    assert(field_diff(ty, o, n)[m] == x);
    lemma_schema_diff_has_field_step(r.types@, declared, ty, x);
    lemma_destructive_rejected(r, declared, x, dry_run);
}

/// Adding a field that is nullable or has a default is a safe step, and a
/// row migrated for it reads every other field as before.
pub proof fn lemma_nullable_addition_safe(ty: u64, f: Field, cells: Seq<Cell>, g: u64)
    requires
        f.nullable || f.default is Some,
        g != f.name,
    ensures
        step_safety(MigrationStep::AddField { ty, field: f }) == Safety::Safe,
        cell_value(with_field(cells, f), g) == cell_value(cells, g),
{
    lemma_added_field_keeps_others(cells, f, g);
}

/// Transforms shape only what a read returns: the same rows read with no
/// transform in force come back exactly as stored.
pub proof fn lemma_transforms_leave_stored_values(rows: Seq<Row>, q: Predicate, filters: Seq<Predicate>)
    ensures
        query_result(rows, q, filters, Seq::<FieldPolicy>::empty()) == stored_visible(rows, q, filters),
    decreases rows.len(),
{
    if rows.len() > 0 {
        lemma_transforms_leave_stored_values(rows.drop_last(), q, filters);
        assert(presented_cells(rows.last().cells@, Seq::<FieldPolicy>::empty()) =~= rows.last().cells@);
    }
}

/// The stored cells of the rows that pass `q` and `filters`, in order.
pub open spec fn stored_visible(rows: Seq<Row>, q: Predicate, filters: Seq<Predicate>) -> Seq<Seq<Cell>>
    decreases rows.len(),
{
    if rows.len() == 0 {
        seq![]
    } else if visible(rows.last().cells@, q, filters) {
        stored_visible(rows.drop_last(), q, filters).push(rows.last().cells@)
    } else {
        stored_visible(rows.drop_last(), q, filters)
    }
}

pub open spec fn is_type_level(s: MigrationStep) -> bool {
    s is CreateType || s is DropType
}

proof fn lemma_concat_not_type_level(a: Seq<MigrationStep>, b: Seq<MigrationStep>)
    requires
        forall|k: int| 0 <= k < a.len() ==> !is_type_level(#[trigger] a[k]),
        forall|k: int| 0 <= k < b.len() ==> !is_type_level(#[trigger] b[k]),
    ensures
        forall|k: int| 0 <= k < (a + b).len() ==> !is_type_level(#[trigger] (a + b)[k]),
{
    assert forall|k: int| 0 <= k < (a + b).len() implies !is_type_level(#[trigger] (a + b)[k]) by {
        if k >= a.len() {
            assert((a + b)[k] == b[k - a.len()]);
        } else {
            assert((a + b)[k] == a[k]);
        }
    }
}

proof fn lemma_field_steps_not_type_level(ty: u64, old: Seq<Field>, new: Seq<Field>)
    ensures
        forall|k: int| 0 <= k < field_diff(ty, old, new).len() ==> !is_type_level(#[trigger] field_diff(ty, old, new)[k]),
{
    lemma_add_steps_not_type_level(ty, old, new);
    lemma_drop_steps_not_type_level(ty, old, new);
    let a = add_steps(ty, old, new);
    let d = drop_steps(ty, old, new);
    assert forall|k: int| 0 <= k < (a + d).len() implies !is_type_level(#[trigger] (a + d)[k]) by {
        if k >= a.len() {
            assert((a + d)[k] == d[k - a.len()]);
        }
    }
}

proof fn lemma_add_steps_not_type_level(ty: u64, old: Seq<Field>, new: Seq<Field>)
    ensures
        forall|k: int| 0 <= k < add_steps(ty, old, new).len() ==> !is_type_level(#[trigger] add_steps(ty, old, new)[k]),
    decreases new.len(),
{
    if new.len() > 0 {
        lemma_add_steps_not_type_level(ty, old, new.drop_last());
        lemma_concat_not_type_level(add_steps(ty, old, new.drop_last()), field_step(ty, old, new.last()));
    }
}

proof fn lemma_drop_steps_not_type_level(ty: u64, old: Seq<Field>, new: Seq<Field>)
    ensures
        forall|k: int| 0 <= k < drop_steps(ty, old, new).len() ==> !is_type_level(#[trigger] drop_steps(ty, old, new)[k]),
    decreases old.len(),
{
    if old.len() > 0 {
        lemma_drop_steps_not_type_level(ty, old.drop_last(), new);
        let t = if field_named(new, old.last().name) is None {
            seq![MigrationStep::DropField { ty, field: old.last().name }]
        } else {
            Seq::<MigrationStep>::empty()
        };
        lemma_concat_not_type_level(drop_steps(ty, old.drop_last(), new), t);
    }
}

proof fn lemma_relation_steps_not_type_level(ty: u64, old: Seq<Relation>, new: Seq<Relation>)
    ensures
        forall|k: int|
            0 <= k < relation_diff(ty, old, new).len() ==> !is_type_level(#[trigger] relation_diff(ty, old, new)[k]),
{
    lemma_rel_add_steps_not_type_level(ty, old, new);
    lemma_rel_drop_steps_not_type_level(ty, old, new);
    let a = rel_add_steps(ty, old, new);
    let d = rel_drop_steps(ty, old, new);
    assert forall|k: int| 0 <= k < (a + d).len() implies !is_type_level(#[trigger] (a + d)[k]) by {
        if k >= a.len() {
            assert((a + d)[k] == d[k - a.len()]);
        }
    }
}

proof fn lemma_rel_add_steps_not_type_level(ty: u64, old: Seq<Relation>, new: Seq<Relation>)
    ensures
        forall|k: int|
            0 <= k < rel_add_steps(ty, old, new).len() ==> !is_type_level(#[trigger] rel_add_steps(ty, old, new)[k]),
    decreases new.len(),
{
    if new.len() > 0 {
        lemma_rel_add_steps_not_type_level(ty, old, new.drop_last());
        lemma_concat_not_type_level(rel_add_steps(ty, old, new.drop_last()), relation_step(ty, old, new.last()));
    }
}

proof fn lemma_rel_drop_steps_not_type_level(ty: u64, old: Seq<Relation>, new: Seq<Relation>)
    ensures
        forall|k: int|
            0 <= k < rel_drop_steps(ty, old, new).len() ==> !is_type_level(#[trigger] rel_drop_steps(ty, old, new)[k]),
    decreases old.len(),
{
    if old.len() > 0 {
        lemma_rel_drop_steps_not_type_level(ty, old.drop_last(), new);
        let t = if relation_named(new, old.last().field) is None {
            seq![MigrationStep::DropRelation { ty, field: old.last().field }]
        } else {
            Seq::<MigrationStep>::empty()
        };
        lemma_concat_not_type_level(rel_drop_steps(ty, old.drop_last(), new), t);
    }
}

proof fn lemma_changes_not_type_level(old: Seq<EntityType>, new: Seq<EntityType>)
    ensures
        forall|k: int|
            0 <= k < type_change_steps(old, new).len() ==> !is_type_level(#[trigger] type_change_steps(old, new)[k]),
    decreases new.len(),
{
    if new.len() > 0 {
        lemma_changes_not_type_level(old, new.drop_last());
        let pre = type_change_steps(old, new.drop_last());
        let t = new.last();
        let st = type_step(old, t);
        if let Some(o) = type_named(old, t.name) {
            lemma_field_steps_not_type_level(t.name, o.fields@, t.fields@);
            lemma_relation_steps_not_type_level(t.name, o.relations@, t.relations@);
            let fd = field_diff(t.name, o.fields@, t.fields@);
            assert forall|k: int| 0 <= k < st.len() implies !is_type_level(#[trigger] st[k]) by {
                if k >= fd.len() {
                    assert(st[k] == relation_diff(t.name, o.relations@, t.relations@)[k - fd.len()]);
                }
            }
        }
        assert forall|k: int| 0 <= k < (pre + st).len() implies !is_type_level(#[trigger] (pre + st)[k]) by {
            if k >= pre.len() {
                assert((pre + st)[k] == st[k - pre.len()]);
            }
        }
    }
}

proof fn lemma_creates_only(old: Seq<EntityType>, new: Seq<EntityType>)
    ensures
        forall|k: int| 0 <= k < type_create_steps(old, new).len() ==> (#[trigger] type_create_steps(old, new)[k]) is CreateType,
    decreases new.len(),
{
    if new.len() > 0 {
        lemma_creates_only(old, new.drop_last());
    }
}

proof fn lemma_drops_only(old: Seq<EntityType>, new: Seq<EntityType>)
    ensures
        forall|k: int| 0 <= k < type_drop_steps(old, new).len() ==> (#[trigger] type_drop_steps(old, new)[k]) is DropType,
    decreases old.len(),
{
    if old.len() > 0 {
        lemma_drops_only(old.drop_last(), new);
    }
}

/// In every plan, types are created before any other step, so that
/// relations may reference them, and dropped after every other step, once
/// the relations to them are gone.
pub proof fn lemma_plan_order(old: Seq<EntityType>, new: Seq<EntityType>, i: int, j: int)
    requires
        0 <= i < j < schema_diff(old, new).len(),
    ensures
        schema_diff(old, new)[j] is CreateType ==> schema_diff(old, new)[i] is CreateType,
        schema_diff(old, new)[i] is DropType ==> schema_diff(old, new)[j] is DropType,
{
    let c = type_create_steps(old, new);
    let m = type_change_steps(old, new);
    let d = type_drop_steps(old, new);
    lemma_creates_only(old, new);
    lemma_changes_not_type_level(old, new);
    lemma_drops_only(old, new);
    let p = schema_diff(old, new);
    assert forall|k: int| 0 <= k < p.len() implies (k < c.len() ==> (#[trigger] p[k]) is CreateType) && (c.len() <= k
        < c.len() + m.len() ==> !is_type_level(p[k])) && (c.len() + m.len() <= k ==> p[k] is DropType) by {
        if k < c.len() {
            assert(p[k] == c[k]);
        } else if k < c.len() + m.len() {
            assert(p[k] == m[k - c.len()]);
        } else {
            assert(p[k] == d[k - c.len() - m.len()]);
        }
    }
}

} // verus!
