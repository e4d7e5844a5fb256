//! Schema differ: compares a committed set of entity types with a newly
//! declared one and lists the migration steps, each with its safety class.

use vstd::prelude::*;
use crate::types::{
    field_named, find_field, find_relation, find_type, relation_named, type_named, EntityType, Field, FieldKind, Relation,
};

verus! {

#[derive(Clone, Copy, Debug, PartialEq, Eq, Structural)]
pub enum Safety {
    /// Non-destructive and reversible.
    Safe,
    /// Needs a default or a computed value for the existing rows.
    RequiresBackfill,
    /// Existing data may be lost.
    Destructive,
}

#[derive(Clone, Copy, Debug, PartialEq, Eq, Structural)]
pub enum MigrationStep {
    CreateType { ty: u64 },
    DropType { ty: u64 },
    AddField { ty: u64, field: Field },
    DropField { ty: u64, field: u64 },
    ChangeKind { ty: u64, field: u64, from: FieldKind, to: FieldKind },
    AddRelation { ty: u64, relation: Relation },
    DropRelation { ty: u64, field: u64 },
    /// The target or the kind of a relation changes.
    ChangeRelation { ty: u64, from: Relation, to: Relation },
}

/// Kind changes that keep every stored value representable.
pub open spec fn is_widening(from: FieldKind, to: FieldKind) -> bool {
    from == FieldKind::Integer && to == FieldKind::Float
}

pub open spec fn step_safety(s: MigrationStep) -> Safety {
    match s {
        MigrationStep::CreateType { .. } => Safety::Safe,
        MigrationStep::DropType { .. } => Safety::Destructive,
        MigrationStep::AddField { field, .. } => if field.nullable || field.default is Some {
            Safety::Safe
        } else {
            Safety::RequiresBackfill
        },
        MigrationStep::DropField { .. } => Safety::Destructive,
        MigrationStep::ChangeKind { from, to, .. } => if is_widening(from, to) {
            Safety::Safe
        } else {
            Safety::Destructive
        },
        MigrationStep::AddRelation { .. } => Safety::Safe,
        MigrationStep::DropRelation { .. } => Safety::Destructive,
        MigrationStep::ChangeRelation { .. } => Safety::Destructive,
    }
}

impl MigrationStep {
    pub fn safety(&self) -> (r: Safety)
        ensures
            r == step_safety(*self),
    {
        match self {
            MigrationStep::CreateType { .. } => Safety::Safe,
            MigrationStep::DropType { .. } => Safety::Destructive,
            MigrationStep::AddField { field, .. } => {
                if field.nullable || field.default.is_some() {
                    Safety::Safe
                } else {
                    Safety::RequiresBackfill
                }
            },
            MigrationStep::DropField { .. } => Safety::Destructive,
            MigrationStep::ChangeKind { from, to, .. } => {
                if *from == FieldKind::Integer && *to == FieldKind::Float {
                    Safety::Safe
                } else {
                    Safety::Destructive
                }
            },
            MigrationStep::AddRelation { .. } => Safety::Safe,
            MigrationStep::DropRelation { .. } => Safety::Destructive,
            MigrationStep::ChangeRelation { .. } => Safety::Destructive,
        }
    }
}

/// The step, if any, for one declared field of type `ty` against the
/// committed fields `old`.
pub open spec fn field_step(ty: u64, old: Seq<Field>, f: Field) -> Seq<MigrationStep> {
    match field_named(old, f.name) {
        None => seq![MigrationStep::AddField { ty, field: f }],
        Some(g) => if g.kind != f.kind {
            seq![MigrationStep::ChangeKind { ty, field: f.name, from: g.kind, to: f.kind }]
        } else {
            seq![]
        },
    }
}

/// Steps for the declared fields `new`, in declaration order.
pub open spec fn add_steps(ty: u64, old: Seq<Field>, new: Seq<Field>) -> Seq<MigrationStep>
    decreases new.len(),
{
    if new.len() == 0 {
        seq![]
    } else {
        add_steps(ty, old, new.drop_last()) + field_step(ty, old, new.last())
    }
}

/// One drop for each committed field of `old` that `new` no longer declares.
pub open spec fn drop_steps(ty: u64, old: Seq<Field>, new: Seq<Field>) -> Seq<MigrationStep>
    decreases old.len(),
{
    if old.len() == 0 {
        seq![]
    } else {
        drop_steps(ty, old.drop_last(), new) + if field_named(new, old.last().name) is None {
            seq![MigrationStep::DropField { ty, field: old.last().name }]
        } else {
            seq![]
        }
    }
}

pub open spec fn field_diff(ty: u64, old: Seq<Field>, new: Seq<Field>) -> Seq<MigrationStep> {
    add_steps(ty, old, new) + drop_steps(ty, old, new)
}

/// The step, if any, for one declared relation of type `ty` against the
/// committed relations `old`.
pub open spec fn relation_step(ty: u64, old: Seq<Relation>, r: Relation) -> Seq<MigrationStep> {
    match relation_named(old, r.field) {
        None => seq![MigrationStep::AddRelation { ty, relation: r }],
        Some(o) => if o != r {
            seq![MigrationStep::ChangeRelation { ty, from: o, to: r }]
        } else {
            seq![]
        },
    }
}

pub open spec fn rel_add_steps(ty: u64, old: Seq<Relation>, new: Seq<Relation>) -> Seq<MigrationStep>
    decreases new.len(),
{
    if new.len() == 0 {
        seq![]
    } else {
        rel_add_steps(ty, old, new.drop_last()) + relation_step(ty, old, new.last())
    }
}

pub open spec fn rel_drop_steps(ty: u64, old: Seq<Relation>, new: Seq<Relation>) -> Seq<MigrationStep>
    decreases old.len(),
{
    if old.len() == 0 {
        seq![]
    } else {
        rel_drop_steps(ty, old.drop_last(), new) + if relation_named(new, old.last().field) is None {
            seq![MigrationStep::DropRelation { ty, field: old.last().field }]
        } else {
            seq![]
        }
    }
}

pub open spec fn relation_diff(ty: u64, old: Seq<Relation>, new: Seq<Relation>) -> Seq<MigrationStep> {
    rel_add_steps(ty, old, new) + rel_drop_steps(ty, old, new)
}

/// A kept type migrates its fields, then its relations.
pub open spec fn type_step(old: Seq<EntityType>, t: EntityType) -> Seq<MigrationStep> {
    match type_named(old, t.name) {
        None => seq![],
        Some(o) => field_diff(t.name, o.fields@, t.fields@) + relation_diff(t.name, o.relations@, t.relations@),
    }
}

/// One creation for each declared type that is not committed yet.
pub open spec fn type_create_steps(old: Seq<EntityType>, new: Seq<EntityType>) -> Seq<MigrationStep>
    decreases new.len(),
{
    if new.len() == 0 {
        seq![]
    } else {
        type_create_steps(old, new.drop_last()) + if type_named(old, new.last().name) is None {
            seq![MigrationStep::CreateType { ty: new.last().name }]
        } else {
            seq![]
        }
    }
}

pub open spec fn type_change_steps(old: Seq<EntityType>, new: Seq<EntityType>) -> Seq<MigrationStep>
    decreases new.len(),
{
    if new.len() == 0 {
        seq![]
    } else {
        type_change_steps(old, new.drop_last()) + type_step(old, new.last())
    }
}

pub open spec fn type_drop_steps(old: Seq<EntityType>, new: Seq<EntityType>) -> Seq<MigrationStep>
    decreases old.len(),
{
    if old.len() == 0 {
        seq![]
    } else {
        type_drop_steps(old.drop_last(), new) + if type_named(new, old.last().name) is None {
            seq![MigrationStep::DropType { ty: old.last().name }]
        } else {
            seq![]
        }
    }
}

/// The full migration from the committed types `old` to the declared `new`:
/// first the new types, so that relations may reference them; then the
/// changes to kept types, in declaration order; last the dropped types,
/// after the relations to them are gone.
pub open spec fn schema_diff(old: Seq<EntityType>, new: Seq<EntityType>) -> Seq<MigrationStep> {
    type_create_steps(old, new) + type_change_steps(old, new) + type_drop_steps(old, new)
}

fn push_all(steps: &mut Vec<MigrationStep>, more: Vec<MigrationStep>)
    ensures
        final(steps)@ == old(steps)@ + more@,
{
    let mut i: usize = 0;
    while i < more.len()
        invariant
            i <= more@.len(),
            steps@ == old(steps)@ + more@.subrange(0, i as int),
        decreases more.len() - i,
    {
        steps.push(more[i]);
        i = i + 1;
        assert(more@.subrange(0, i as int) == more@.subrange(0, i - 1) + seq![more@[i - 1]]);
    }
    assert(more@.subrange(0, more@.len() as int) == more@);
}

/// Steps that turn the committed fields `old` of type `ty` into `new`.
pub fn diff_fields(ty: u64, old: &Vec<Field>, new: &Vec<Field>) -> (r: Vec<MigrationStep>)
    ensures
        r@ == field_diff(ty, old@, new@),
{
    let mut steps: Vec<MigrationStep> = Vec::new();
    let mut i: usize = 0;
    while i < new.len()
        invariant
            i <= new@.len(),
            steps@ == add_steps(ty, old@, new@.subrange(0, i as int)),
        decreases new.len() - i,
    {
        let f = new[i];
        let ghost pre = new@.subrange(0, i as int);
        assert(new@.subrange(0, i + 1).drop_last() == pre);
        match find_field(old, f.name) {
            None => {
                steps.push(MigrationStep::AddField { ty, field: f });
            },
            Some(j) => {
                let g = old[j];
                if g.kind != f.kind {
                    steps.push(MigrationStep::ChangeKind { ty, field: f.name, from: g.kind, to: f.kind });
                }
            },
        }
        i = i + 1;
    }
    assert(new@.subrange(0, new@.len() as int) == new@);
    let mut k: usize = 0;
    let ghost adds = steps@;
    while k < old.len()
        invariant
            k <= old@.len(),
            adds == add_steps(ty, old@, new@),
            steps@ == adds + drop_steps(ty, old@.subrange(0, k as int), new@),
        decreases old.len() - k,
    {
        let name = old[k].name;
        assert(old@.subrange(0, k + 1).drop_last() == old@.subrange(0, k as int));
        if find_field(new, name).is_none() {
            steps.push(MigrationStep::DropField { ty, field: name });
        }
        k = k + 1;
    }
    assert(old@.subrange(0, old@.len() as int) == old@);
    steps
}

/// Steps that turn the committed relations `old` of type `ty` into `new`.
pub fn diff_relations(ty: u64, old: &Vec<Relation>, new: &Vec<Relation>) -> (r: Vec<MigrationStep>)
    ensures
        r@ == relation_diff(ty, old@, new@),
{
    let mut steps: Vec<MigrationStep> = Vec::new();
    let mut i: usize = 0;
    while i < new.len()
        invariant
            i <= new@.len(),
            steps@ == rel_add_steps(ty, old@, new@.subrange(0, i as int)),
        decreases new.len() - i,
    {
        let r = new[i];
        assert(new@.subrange(0, i + 1).drop_last() == new@.subrange(0, i as int));
        match find_relation(old, r.field) {
            None => {
                steps.push(MigrationStep::AddRelation { ty, relation: r });
            },
            Some(j) => {
                let o = old[j];
                if o != r {
                    steps.push(MigrationStep::ChangeRelation { ty, from: o, to: r });
                }
            },
        }
        i = i + 1;
    }
    assert(new@.subrange(0, new@.len() as int) == new@);
    let mut k: usize = 0;
    let ghost adds = steps@;
    while k < old.len()
        invariant
            k <= old@.len(),
            adds == rel_add_steps(ty, old@, new@),
            steps@ == adds + rel_drop_steps(ty, old@.subrange(0, k as int), new@),
        decreases old.len() - k,
    {
        let f = old[k].field;
        assert(old@.subrange(0, k + 1).drop_last() == old@.subrange(0, k as int));
        if find_relation(new, f).is_none() {
            steps.push(MigrationStep::DropRelation { ty, field: f });
        }
        k = k + 1;
    }
    assert(old@.subrange(0, old@.len() as int) == old@);
    steps
}

/// Steps that turn the committed types `old` into the declared types `new`.
pub fn plan_migration(old: &Vec<EntityType>, new: &Vec<EntityType>) -> (r: Vec<MigrationStep>)
    ensures
        r@ == schema_diff(old@, new@),
{
    let mut steps: Vec<MigrationStep> = Vec::new();
    let mut c: usize = 0;
    while c < new.len()
        invariant
            c <= new@.len(),
            steps@ == type_create_steps(old@, new@.subrange(0, c as int)),
        decreases new.len() - c,
    {
        assert(new@.subrange(0, c + 1).drop_last() == new@.subrange(0, c as int));
        let name = new[c].name;
        if find_type(old, name).is_none() {
            steps.push(MigrationStep::CreateType { ty: name });
        }
        c = c + 1;
    }
    assert(new@.subrange(0, new@.len() as int) == new@);
    let ghost creates = steps@;
    let mut i: usize = 0;
    while i < new.len()
        invariant
            i <= new@.len(),
            creates == type_create_steps(old@, new@),
            steps@ == creates + type_change_steps(old@, new@.subrange(0, i as int)),
        decreases new.len() - i,
    {
        assert(new@.subrange(0, i + 1).drop_last() == new@.subrange(0, i as int));
        let t = &new[i];
        let ghost before = steps@;
        match find_type(old, t.name) {
            None => {},
            Some(j) => {
                let more = diff_fields(t.name, &old[j].fields, &t.fields);
                push_all(&mut steps, more);
                let rels = diff_relations(t.name, &old[j].relations, &t.relations);
                push_all(&mut steps, rels);
            },
        }
        assert(steps@ =~= before + type_step(old@, new@[i as int]));
        i = i + 1;
    }
    let ghost adds = steps@;
    let mut k: usize = 0;
    while k < old.len()
        invariant
            k <= old@.len(),
            adds == type_create_steps(old@, new@) + type_change_steps(old@, new@),
            steps@ == adds + type_drop_steps(old@.subrange(0, k as int), new@),
        decreases old.len() - k,
    {
        let name = old[k].name;
        assert(old@.subrange(0, k + 1).drop_last() == old@.subrange(0, k as int));
        if find_type(new, name).is_none() {
            steps.push(MigrationStep::DropType { ty: name });
        }
        k = k + 1;
    }
    assert(old@.subrange(0, old@.len() as int) == old@);
    steps
}

} // verus!
