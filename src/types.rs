//! Entity types: fields, their kinds and stored values, and the structural
//! validation a declaration must pass.

use vstd::prelude::*;

verus! {

/// Scalar kind of a declared field.
#[derive(Clone, Copy, Debug, PartialEq, Eq, Structural)]
pub enum FieldKind {
    Boolean,
    Integer,
    Float,
    Text,
    Timestamp,
    Binary,
}

/// A value held in a stored row. Timestamps are epoch milliseconds.
#[derive(Clone, Copy, Debug, PartialEq, Eq, Structural)]
pub enum Value {
    Null,
    Bool(bool),
    Int(i64),
}

#[derive(Clone, Copy, Debug, PartialEq, Eq, Structural)]
pub struct Field {
    pub name: u64,
    pub kind: FieldKind,
    pub nullable: bool,
    pub default: Option<Value>,
    pub unique: bool,
}

#[derive(Clone, Copy, Debug, PartialEq, Eq, Structural)]
pub enum RelationKind {
    OneToOne,
    OneToMany,
    ManyToMany,
}

/// A reference from a type to another by name, held in the foreign-key
/// field `field` of the owning type.
#[derive(Clone, Copy, Debug, PartialEq, Eq, Structural)]
pub struct Relation {
    pub field: u64,
    pub target: u64,
    pub kind: RelationKind,
}

#[derive(Clone, Debug)]
pub struct EntityType {
    pub name: u64,
    pub fields: Vec<Field>,
    pub relations: Vec<Relation>,
}

/// Field names within one type are pairwise distinct.
pub open spec fn unique_field_names(fs: Seq<Field>) -> bool {
    forall|i: int, j: int| 0 <= i < fs.len() && 0 <= j < fs.len() && i != j ==> fs[i].name != fs[j].name
}

/// Type names within one declaration are pairwise distinct.
pub open spec fn unique_type_names(ts: Seq<EntityType>) -> bool {
    forall|i: int, j: int| 0 <= i < ts.len() && 0 <= j < ts.len() && i != j ==> ts[i].name != ts[j].name
}

/// Relation fields within one type are pairwise distinct.
pub open spec fn unique_relation_fields(rs: Seq<Relation>) -> bool {
    forall|i: int, j: int| 0 <= i < rs.len() && 0 <= j < rs.len() && i != j ==> rs[i].field != rs[j].field
}

/// Every relation of `t` targets a type declared in `ts`.
pub open spec fn targets_declared(ts: Seq<EntityType>, t: EntityType) -> bool {
    forall|j: int| 0 <= j < t.relations@.len() ==> type_named(ts, #[trigger] t.relations@[j].target) is Some
}

/// A declaration is well formed when type names are unique and, in each
/// type, field names and relation fields are unique and every relation
/// target is declared.
pub open spec fn valid_types(ts: Seq<EntityType>) -> bool {
    &&& unique_type_names(ts)
    &&& forall|i: int| 0 <= i < ts.len() ==> unique_field_names(#[trigger] ts[i].fields@)
    &&& forall|i: int| 0 <= i < ts.len() ==> unique_relation_fields(#[trigger] ts[i].relations@)
    &&& forall|i: int| 0 <= i < ts.len() ==> targets_declared(ts, #[trigger] ts[i])
}

/// The first field of `fs` named `name`, if any.
pub open spec fn field_named(fs: Seq<Field>, name: u64) -> Option<Field>
    decreases fs.len(),
{
    if fs.len() == 0 {
        None
    } else if fs[0].name == name {
        Some(fs[0])
    } else {
        field_named(fs.drop_first(), name)
    }
}

/// The first relation of `rs` held in field `f`, if any.
pub open spec fn relation_named(rs: Seq<Relation>, f: u64) -> Option<Relation>
    decreases rs.len(),
{
    if rs.len() == 0 {
        None
    } else if rs[0].field == f {
        Some(rs[0])
    } else {
        relation_named(rs.drop_first(), f)
    }
}

/// The first type of `ts` named `name`, if any.
pub open spec fn type_named(ts: Seq<EntityType>, name: u64) -> Option<EntityType>
    decreases ts.len(),
{
    if ts.len() == 0 {
        None
    } else if ts[0].name == name {
        Some(ts[0])
    } else {
        type_named(ts.drop_first(), name)
    }
}

pub proof fn lemma_field_named_index(fs: Seq<Field>, name: u64)
    ensures
        field_named(fs, name) is None <==> forall|j: int| 0 <= j < fs.len() ==> fs[j].name != name,
        field_named(fs, name) is Some ==> exists|j: int|
            0 <= j < fs.len() && fs[j] == field_named(fs, name).unwrap() && fs[j].name == name
                && forall|k: int| 0 <= k < j ==> fs[k].name != name,
    decreases fs.len(),
{
    if fs.len() > 0 {
        lemma_field_named_index(fs.drop_first(), name);
        if fs[0].name != name {
            if field_named(fs, name) is Some {
                let j = choose|j: int|
                    0 <= j < fs.len() - 1 && fs.drop_first()[j] == field_named(fs, name).unwrap()
                        && fs.drop_first()[j].name == name && forall|k: int|
                        0 <= k < j ==> fs.drop_first()[k].name != name;
                assert(fs[j + 1] == fs.drop_first()[j]);
                assert forall|k: int| 0 <= k < j + 1 implies fs[k].name != name by {
                    if k > 0 {
                        assert(fs[k] == fs.drop_first()[k - 1]);
                    }
                }
            }
            assert forall|j: int| 0 <= j < fs.len() && fs[j].name == name implies field_named(fs, name) is Some by {
                assert(fs.drop_first()[j - 1] == fs[j]);
            }
        }
    }
}

/// In a list with unique names, the field named by an element is that element.
pub proof fn lemma_field_named_unique(fs: Seq<Field>, j: int)
    requires
        unique_field_names(fs),
        0 <= j < fs.len(),
    ensures
        field_named(fs, fs[j].name) == Some(fs[j]),
{
    lemma_field_named_index(fs, fs[j].name);
    let k = choose|k: int|
        0 <= k < fs.len() && fs[k] == field_named(fs, fs[j].name).unwrap() && fs[k].name == fs[j].name
            && forall|m: int| 0 <= m < k ==> fs[m].name != fs[j].name;
    assert(k == j);
}

pub proof fn lemma_type_named_index(ts: Seq<EntityType>, name: u64)
    ensures
        type_named(ts, name) is None <==> forall|j: int| 0 <= j < ts.len() ==> ts[j].name != name,
        type_named(ts, name) is Some ==> exists|j: int|
            0 <= j < ts.len() && ts[j] == type_named(ts, name).unwrap() && ts[j].name == name
                && forall|k: int| 0 <= k < j ==> ts[k].name != name,
    decreases ts.len(),
{
    if ts.len() > 0 {
        lemma_type_named_index(ts.drop_first(), name);
        if ts[0].name != name {
            if type_named(ts, name) is Some {
                let j = choose|j: int|
                    0 <= j < ts.len() - 1 && ts.drop_first()[j] == type_named(ts, name).unwrap()
                        && ts.drop_first()[j].name == name && forall|k: int|
                        0 <= k < j ==> ts.drop_first()[k].name != name;
                assert(ts[j + 1] == ts.drop_first()[j]);
                assert forall|k: int| 0 <= k < j + 1 implies ts[k].name != name by {
                    if k > 0 {
                        assert(ts[k] == ts.drop_first()[k - 1]);
                    }
                }
            }
            assert forall|j: int| 0 <= j < ts.len() && ts[j].name == name implies type_named(ts, name) is Some by {
                assert(ts.drop_first()[j - 1] == ts[j]);
            }
        }
    }
}

/// In a list with unique names, the type named by an element is that element.
pub proof fn lemma_type_named_unique(ts: Seq<EntityType>, j: int)
    requires
        unique_type_names(ts),
        0 <= j < ts.len(),
    ensures
        type_named(ts, ts[j].name) == Some(ts[j]),
{
    lemma_type_named_index(ts, ts[j].name);
    let k = choose|k: int|
        0 <= k < ts.len() && ts[k] == type_named(ts, ts[j].name).unwrap() && ts[k].name == ts[j].name
            && forall|m: int| 0 <= m < k ==> ts[m].name != ts[j].name;
    assert(k == j);
}

pub proof fn lemma_relation_named_index(rs: Seq<Relation>, f: u64)
    ensures
        relation_named(rs, f) is None <==> forall|j: int| 0 <= j < rs.len() ==> rs[j].field != f,
        relation_named(rs, f) is Some ==> exists|j: int|
            0 <= j < rs.len() && rs[j] == relation_named(rs, f).unwrap() && rs[j].field == f
                && forall|k: int| 0 <= k < j ==> rs[k].field != f,
    decreases rs.len(),
{
    if rs.len() > 0 {
        lemma_relation_named_index(rs.drop_first(), f);
        if rs[0].field != f {
            if relation_named(rs, f) is Some {
                let j = choose|j: int|
                    0 <= j < rs.len() - 1 && rs.drop_first()[j] == relation_named(rs, f).unwrap()
                        && rs.drop_first()[j].field == f && forall|k: int|
                        0 <= k < j ==> rs.drop_first()[k].field != f;
                assert(rs[j + 1] == rs.drop_first()[j]);
                assert forall|k: int| 0 <= k < j + 1 implies rs[k].field != f by {
                    if k > 0 {
                        assert(rs[k] == rs.drop_first()[k - 1]);
                    }
                }
            }
            assert forall|j: int| 0 <= j < rs.len() && rs[j].field == f implies relation_named(rs, f) is Some by {
                assert(rs.drop_first()[j - 1] == rs[j]);
            }
        }
    }
}

/// In a list with unique fields, the relation held in an element's field is
/// that element.
pub proof fn lemma_relation_named_unique(rs: Seq<Relation>, j: int)
    requires
        unique_relation_fields(rs),
        0 <= j < rs.len(),
    ensures
        relation_named(rs, rs[j].field) == Some(rs[j]),
{
    lemma_relation_named_index(rs, rs[j].field);
    let k = choose|k: int|
        0 <= k < rs.len() && rs[k] == relation_named(rs, rs[j].field).unwrap() && rs[k].field == rs[j].field
            && forall|m: int| 0 <= m < k ==> rs[m].field != rs[j].field;
    assert(k == j);
}

/// Index of the first relation held in field `f`.
pub fn find_relation(rs: &Vec<Relation>, f: u64) -> (r: Option<usize>)
    ensures
        match r {
            Some(i) => i < rs@.len() && relation_named(rs@, f) == Some(rs@[i as int]),
            None => relation_named(rs@, f) is None,
        },
{
    proof {
        lemma_relation_named_index(rs@, f);
    }
    let mut i: usize = 0;
    while i < rs.len()
        invariant
            i <= rs@.len(),
            forall|k: int| 0 <= k < i ==> rs@[k].field != f,
            relation_named(rs@, f) is None <==> forall|j: int| 0 <= j < rs@.len() ==> rs@[j].field != f,
            relation_named(rs@, f) is Some ==> exists|j: int|
                0 <= j < rs@.len() && rs@[j] == relation_named(rs@, f).unwrap() && rs@[j].field == f
                    && forall|k: int| 0 <= k < j ==> rs@[k].field != f,
        decreases rs.len() - i,
    {
        if rs[i].field == f {
            return Some(i);
        }
        i = i + 1;
    }
    None
}

/// Index of the first type named `name`.
pub fn find_type(ts: &Vec<EntityType>, name: u64) -> (r: Option<usize>)
    ensures
        match r {
            Some(i) => i < ts@.len() && type_named(ts@, name) == Some(ts@[i as int]),
            None => type_named(ts@, name) is None,
        },
{
    proof {
        lemma_type_named_index(ts@, name);
    }
    let mut i: usize = 0;
    while i < ts.len()
        invariant
            i <= ts@.len(),
            forall|k: int| 0 <= k < i ==> ts@[k].name != name,
            type_named(ts@, name) is None <==> forall|j: int| 0 <= j < ts@.len() ==> ts@[j].name != name,
            type_named(ts@, name) is Some ==> exists|j: int|
                0 <= j < ts@.len() && ts@[j] == type_named(ts@, name).unwrap() && ts@[j].name == name
                    && forall|k: int| 0 <= k < j ==> ts@[k].name != name,
        decreases ts.len() - i,
    {
        if ts[i].name == name {
            return Some(i);
        }
        i = i + 1;
    }
    None
}

/// Index of the first field named `name`.
pub fn find_field(fs: &Vec<Field>, name: u64) -> (r: Option<usize>)
    ensures
        match r {
            Some(i) => i < fs@.len() && field_named(fs@, name) == Some(fs@[i as int]),
            None => field_named(fs@, name) is None,
        },
{
    proof {
        lemma_field_named_index(fs@, name);
    }
    let mut i: usize = 0;
    while i < fs.len()
        invariant
            i <= fs@.len(),
            forall|k: int| 0 <= k < i ==> fs@[k].name != name,
            field_named(fs@, name) is None <==> forall|j: int| 0 <= j < fs@.len() ==> fs@[j].name != name,
            field_named(fs@, name) is Some ==> exists|j: int|
                0 <= j < fs@.len() && fs@[j] == field_named(fs@, name).unwrap() && fs@[j].name == name
                    && forall|k: int| 0 <= k < j ==> fs@[k].name != name,
        decreases fs.len() - i,
    {
        if fs[i].name == name {
            return Some(i);
        }
        i = i + 1;
    }
    None
}

} // verus!

verus! {

/// Whether the field names of `fs` are pairwise distinct.
pub fn fields_unique(fs: &Vec<Field>) -> (r: bool)
    ensures
        r == unique_field_names(fs@),
{
    let mut i: usize = 0;
    while i < fs.len()
        invariant
            i <= fs@.len(),
            forall|a: int, b: int| 0 <= a < i && 0 <= b < fs@.len() && a != b ==> fs@[a].name != fs@[b].name,
        decreases fs.len() - i,
    {
        let mut j: usize = 0;
        while j < fs.len()
            invariant
                i < fs@.len(),
                j <= fs@.len(),
                forall|a: int, b: int| 0 <= a < i && 0 <= b < fs@.len() && a != b ==> fs@[a].name != fs@[b].name,
                forall|b: int| 0 <= b < j && b != i ==> fs@[i as int].name != fs@[b].name,
            decreases fs.len() - j,
        {
            if j != i && fs[i].name == fs[j].name {
                return false;
            }
            j = j + 1;
        }
        i = i + 1;
    }
    true
}

/// Whether the relation fields of `rs` are pairwise distinct.
pub fn relations_unique(rs: &Vec<Relation>) -> (r: bool)
    ensures
        r == unique_relation_fields(rs@),
{
    let mut i: usize = 0;
    while i < rs.len()
        invariant
            i <= rs@.len(),
            forall|a: int, b: int| 0 <= a < i && 0 <= b < rs@.len() && a != b ==> rs@[a].field != rs@[b].field,
        decreases rs.len() - i,
    {
        let mut j: usize = 0;
        while j < rs.len()
            invariant
                i < rs@.len(),
                j <= rs@.len(),
                forall|a: int, b: int| 0 <= a < i && 0 <= b < rs@.len() && a != b ==> rs@[a].field != rs@[b].field,
                forall|b: int| 0 <= b < j && b != i ==> rs@[i as int].field != rs@[b].field,
            decreases rs.len() - j,
        {
            if j != i && rs[i].field == rs[j].field {
                return false;
            }
            j = j + 1;
        }
        i = i + 1;
    }
    true
}

/// Whether every relation of `t` targets a type of `ts`.
pub fn targets_resolve(ts: &Vec<EntityType>, t: &EntityType) -> (r: bool)
    ensures
        r == targets_declared(ts@, *t),
{
    let mut j: usize = 0;
    while j < t.relations.len()
        invariant
            j <= t.relations@.len(),
            forall|k: int| 0 <= k < j ==> type_named(ts@, #[trigger] t.relations@[k].target) is Some,
        decreases t.relations.len() - j,
    {
        if find_type(ts, t.relations[j].target).is_none() {
            return false;
        }
        j = j + 1;
    }
    true
}

/// Whether a declaration is well formed: unique type names; and in each
/// type unique field names, unique relation fields and declared targets.
pub fn validate_types(ts: &Vec<EntityType>) -> (r: bool)
    ensures
        r == valid_types(ts@),
{
    let mut i: usize = 0;
    while i < ts.len()
        invariant
            i <= ts@.len(),
            forall|a: int, b: int| 0 <= a < i && 0 <= b < ts@.len() && a != b ==> ts@[a].name != ts@[b].name,
            forall|a: int| 0 <= a < i ==> unique_field_names(#[trigger] ts@[a].fields@),
            forall|a: int| 0 <= a < i ==> unique_relation_fields(#[trigger] ts@[a].relations@),
            forall|a: int| 0 <= a < i ==> targets_declared(ts@, #[trigger] ts@[a]),
        decreases ts.len() - i,
    {
        if !fields_unique(&ts[i].fields) || !relations_unique(&ts[i].relations) || !targets_resolve(ts, &ts[i]) {
            return false;
        }
        let mut j: usize = 0;
        while j < ts.len()
            invariant
                i < ts@.len(),
                j <= ts@.len(),
                forall|a: int, b: int| 0 <= a < i && 0 <= b < ts@.len() && a != b ==> ts@[a].name != ts@[b].name,
                forall|b: int| 0 <= b < j && b != i ==> ts@[i as int].name != ts@[b].name,
            decreases ts.len() - j,
        {
            if j != i && ts[i].name == ts[j].name {
                return false;
            }
            j = j + 1;
        }
        i = i + 1;
    }
    true
}

} // verus!

verus! {

/// One stored value of a row.
#[derive(Clone, Copy, Debug, PartialEq, Eq, Structural)]
pub struct Cell {
    pub field: u64,
    pub value: Value,
}

/// A stored row: the values of its fields.
#[derive(Clone, Debug)]
pub struct Row {
    pub cells: Vec<Cell>,
}

/// The value of field `f` in `cells`: its first cell, or null when absent.
pub open spec fn cell_value(cells: Seq<Cell>, f: u64) -> Value
    decreases cells.len(),
{
    if cells.len() == 0 {
        Value::Null
    } else if cells[0].field == f {
        cells[0].value
    } else {
        cell_value(cells.drop_first(), f)
    }
}

/// Reads field `f` of a row.
pub fn get_value(cells: &Vec<Cell>, f: u64) -> (r: Value)
    ensures
        r == cell_value(cells@, f),
{
    let mut i: usize = 0;
    assert(cells@.subrange(0, cells@.len() as int) == cells@);
    while i < cells.len()
        invariant
            i <= cells@.len(),
            cell_value(cells@, f) == cell_value(cells@.subrange(i as int, cells@.len() as int), f),
        decreases cells.len() - i,
    {
        let ghost rest = cells@.subrange(i as int, cells@.len() as int);
        assert(rest.drop_first() == cells@.subrange(i + 1, cells@.len() as int));
        if cells[i].field == f {
            return cells[i].value;
        }
        i = i + 1;
    }
    Value::Null
}

} // verus!
