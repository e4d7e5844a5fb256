use chiseld::apply::{diff_fields, plan_migration, MigrationStep, Safety};
use chiseld::registry::{ApplyError, Registry};
use chiseld::types::{
    fields_unique, find_field, find_relation, relations_unique, validate_types, EntityType, Field, FieldKind, Relation,
    RelationKind, Value,
};
use chiseld::{feat_typescript_policies, Features};

const DATED: u64 = 1;
const DATE: u64 = 10;
const NOTE: u64 = 11;

fn field(name: u64, kind: FieldKind, nullable: bool) -> Field {
    Field { name, kind, nullable, default: None, unique: false }
}

fn dated(fields: Vec<Field>) -> Vec<EntityType> {
    vec![EntityType { name: DATED, fields, relations: Vec::new() }]
}

fn applied(types: Vec<EntityType>) -> Registry {
    let mut r = Registry::new();
    r.apply(types, false, false, 1000).unwrap();
    r
}

#[test]
fn features_default_off() {
    assert!(!feat_typescript_policies(None));
    let on = Features::new(true);
    assert!(feat_typescript_policies(Some(&on)));
    assert!(!feat_typescript_policies(Some(&Features::new(false))));
}

#[test]
fn first_apply_creates_type() {
    let mut r = Registry::new();
    let out = r.apply(dated(vec![field(DATE, FieldKind::Timestamp, false)]), false, false, 1000).unwrap();
    assert_eq!(out.version, 1);
    assert_eq!(out.steps, vec![MigrationStep::CreateType { ty: DATED }]);
    assert_eq!(r.version, 1);
    assert!(!r.applying);
    assert_eq!(r.history.len(), 1);
    assert_eq!(r.history[0].version, 1);
    assert_eq!(r.history[0].applied_at, 1000);
    assert_eq!(r.history[0].steps, vec![MigrationStep::CreateType { ty: DATED }]);
}

#[test]
fn identical_declaration_twice_is_a_no_op() {
    let decl = dated(vec![field(DATE, FieldKind::Timestamp, false)]);
    let mut r = applied(decl.clone());
    let out = r.apply(decl, false, false, 1000).unwrap();
    assert!(out.steps.is_empty());
    assert_eq!(out.version, 1);
    assert_eq!(r.version, 1);
    assert_eq!(r.history.len(), 1);
}

#[test]
fn nullable_field_is_safe() {
    let mut r = applied(dated(vec![field(DATE, FieldKind::Timestamp, false)]));
    let decl = dated(vec![field(DATE, FieldKind::Timestamp, false), field(NOTE, FieldKind::Text, true)]);
    let out = r.apply(decl, false, false, 1000).unwrap();
    assert_eq!(out.steps.len(), 1);
    assert_eq!(out.steps[0].safety(), Safety::Safe);
    assert_eq!(r.version, 2);
    assert_eq!(r.types[0].fields.len(), 2);
}

#[test]
fn field_with_default_is_safe() {
    let mut r = applied(dated(vec![field(DATE, FieldKind::Timestamp, false)]));
    let mut f = field(NOTE, FieldKind::Integer, false);
    f.default = Some(Value::Int(7));
    let out = r.apply(dated(vec![field(DATE, FieldKind::Timestamp, false), f]), false, false, 1000).unwrap();
    assert_eq!(out.steps, vec![MigrationStep::AddField { ty: DATED, field: f }]);
    assert_eq!(out.steps[0].safety(), Safety::Safe);
}

#[test]
fn required_field_without_default_is_rejected() {
    let mut r = applied(dated(vec![field(DATE, FieldKind::Timestamp, false)]));
    let decl = dated(vec![field(DATE, FieldKind::Timestamp, false), field(NOTE, FieldKind::Integer, false)]);
    assert_eq!(r.apply(decl.clone(), true, false, 1000).err(), Some(ApplyError::Rejected));
    assert_eq!(r.version, 1);
    let steps = plan_migration(&r.types, &decl);
    assert_eq!(steps[0].safety(), Safety::RequiresBackfill);
}

#[test]
fn removed_field_needs_confirmation() {
    let mut r = applied(dated(vec![field(DATE, FieldKind::Timestamp, false), field(NOTE, FieldKind::Text, true)]));
    let decl = dated(vec![field(DATE, FieldKind::Timestamp, false)]);
    assert_eq!(r.apply(decl.clone(), false, false, 1000).err(), Some(ApplyError::Rejected));
    assert_eq!(r.version, 1);
    assert_eq!(r.types[0].fields.len(), 2);
    assert!(!r.applying);
    let out = r.apply(decl, true, false, 1000).unwrap();
    assert_eq!(out.steps, vec![MigrationStep::DropField { ty: DATED, field: NOTE }]);
    assert_eq!(out.steps[0].safety(), Safety::Destructive);
    assert_eq!(r.version, 2);
}

#[test]
fn narrowing_is_destructive_and_widening_safe() {
    let mut r = applied(dated(vec![field(NOTE, FieldKind::Float, false)]));
    let narrow = dated(vec![field(NOTE, FieldKind::Integer, false)]);
    assert_eq!(r.apply(narrow.clone(), false, false, 1000).err(), Some(ApplyError::Rejected));
    let out = r.apply(narrow, true, false, 1000).unwrap();
    assert_eq!(
        out.steps,
        vec![MigrationStep::ChangeKind { ty: DATED, field: NOTE, from: FieldKind::Float, to: FieldKind::Integer }]
    );
    let out = r.apply(dated(vec![field(NOTE, FieldKind::Float, false)]), false, false, 1000).unwrap();
    assert_eq!(out.steps[0].safety(), Safety::Safe);
    assert_eq!(r.version, 3);
}

#[test]
fn dropped_type_needs_confirmation() {
    let mut r = applied(dated(vec![field(DATE, FieldKind::Timestamp, false)]));
    assert_eq!(r.apply(Vec::new(), false, false, 1000).err(), Some(ApplyError::Rejected));
    let out = r.apply(Vec::new(), true, false, 1000).unwrap();
    assert_eq!(out.steps, vec![MigrationStep::DropType { ty: DATED }]);
    assert!(r.types.is_empty());
}

#[test]
fn dry_run_leaves_schema() {
    let mut r = applied(dated(vec![field(DATE, FieldKind::Timestamp, false)]));
    let decl = dated(vec![field(DATE, FieldKind::Timestamp, false), field(NOTE, FieldKind::Text, true)]);
    let out = r.apply(decl, false, true, 1000).unwrap();
    assert_eq!(out.steps.len(), 1);
    assert_eq!(out.version, 1);
    assert_eq!(r.version, 1);
    assert_eq!(r.types[0].fields.len(), 1);
}

#[test]
fn concurrent_apply_conflicts() {
    let mut r = applied(dated(vec![field(DATE, FieldKind::Timestamp, false)]));
    r.begin_apply().unwrap();
    let second = dated(vec![field(DATE, FieldKind::Timestamp, false), field(NOTE, FieldKind::Text, true)]);
    assert_eq!(r.apply(second, false, false, 1000).err(), Some(ApplyError::Conflict));
    assert_eq!(r.begin_apply(), Err(ApplyError::Conflict));
    let first = dated(vec![field(DATE, FieldKind::Timestamp, false), field(NOTE + 1, FieldKind::Boolean, true)]);
    let out = r.commit_apply(first, false, false, 1000).unwrap();
    assert_eq!(out.version, 2);
    assert_eq!(r.types[0].fields[1].name, NOTE + 1);
    assert!(!r.applying);
}

#[test]
fn duplicate_names_are_invalid() {
    let mut r = Registry::new();
    let dup_field = dated(vec![field(DATE, FieldKind::Timestamp, false), field(DATE, FieldKind::Text, true)]);
    assert!(!validate_types(&dup_field));
    assert!(!fields_unique(&dup_field[0].fields));
    assert_eq!(r.apply(dup_field, true, false, 1000).err(), Some(ApplyError::Invalid));
    let dup_type = vec![
        EntityType { name: DATED, fields: Vec::new(), relations: Vec::new() },
        EntityType { name: DATED, fields: Vec::new(), relations: Vec::new() },
    ];
    assert_eq!(r.apply(dup_type, true, false, 1000).err(), Some(ApplyError::Invalid));
    assert_eq!(r.version, 0);
}

#[test]
fn version_cannot_pass_its_limit() {
    let mut r = Registry::new();
    r.version = u64::MAX;
    let decl = dated(vec![field(DATE, FieldKind::Timestamp, false)]);
    assert_eq!(r.apply(decl.clone(), false, false, 1000).err(), Some(ApplyError::VersionExhausted));
    assert_eq!(r.apply(decl, false, true, 1000).unwrap().version, u64::MAX);
}

#[test]
fn diff_lists_adds_then_drops() {
    let old = vec![field(DATE, FieldKind::Timestamp, false), field(NOTE, FieldKind::Text, true)];
    let new = vec![field(NOTE, FieldKind::Text, true), field(12, FieldKind::Binary, true)];
    let steps = diff_fields(DATED, &old, &new);
    assert_eq!(
        steps,
        vec![
            MigrationStep::AddField { ty: DATED, field: field(12, FieldKind::Binary, true) },
            MigrationStep::DropField { ty: DATED, field: DATE },
        ]
    );
    assert_eq!(find_field(&new, 12), Some(1));
    assert_eq!(find_field(&new, DATE), None);
}

const AUTHOR: u64 = 2;

fn with_relation(rel: Option<Relation>) -> Vec<EntityType> {
    vec![
        EntityType { name: AUTHOR, fields: vec![field(NOTE, FieldKind::Text, true)], relations: Vec::new() },
        EntityType { name: DATED, fields: vec![field(DATE, FieldKind::Timestamp, false)], relations: rel.into_iter().collect() },
    ]
}

#[test]
fn relation_targets_must_be_declared() {
    let dangling = vec![EntityType {
        name: DATED,
        fields: Vec::new(),
        relations: vec![Relation { field: 20, target: 99, kind: RelationKind::OneToMany }],
    }];
    assert!(!validate_types(&dangling));
    let mut r = Registry::new();
    assert_eq!(r.apply(dangling, true, false, 1000).err(), Some(ApplyError::Invalid));
    let twice = vec![Relation { field: 20, target: DATED, kind: RelationKind::OneToOne }; 2];
    assert!(!relations_unique(&twice));
    assert_eq!(find_relation(&twice, 20), Some(0));
}

#[test]
fn relation_changes_are_destructive() {
    let owned = Relation { field: 20, target: AUTHOR, kind: RelationKind::OneToMany };
    let mut r = applied(with_relation(None));
    let out = r.apply(with_relation(Some(owned)), false, false, 1000).unwrap();
    assert_eq!(out.steps, vec![MigrationStep::AddRelation { ty: DATED, relation: owned }]);
    assert_eq!(out.steps[0].safety(), Safety::Safe);
    let many = Relation { kind: RelationKind::ManyToMany, ..owned };
    assert_eq!(r.apply(with_relation(Some(many)), false, false, 1000).err(), Some(ApplyError::Rejected));
    let out = r.apply(with_relation(Some(many)), true, false, 1000).unwrap();
    assert_eq!(out.steps, vec![MigrationStep::ChangeRelation { ty: DATED, from: owned, to: many }]);
    assert_eq!(r.apply(with_relation(None), false, false, 1000).err(), Some(ApplyError::Rejected));
    let out = r.apply(with_relation(None), true, false, 1000).unwrap();
    assert_eq!(out.steps, vec![MigrationStep::DropRelation { ty: DATED, field: 20 }]);
    assert_eq!(out.steps[0].safety(), Safety::Destructive);
    assert_eq!(r.version, 4);
}

#[test]
fn new_types_come_first_and_drops_last() {
    let old = vec![
        EntityType { name: DATED, fields: vec![field(DATE, FieldKind::Timestamp, false)], relations: Vec::new() },
        EntityType { name: 3, fields: Vec::new(), relations: Vec::new() },
    ];
    let rel = Relation { field: 20, target: AUTHOR, kind: RelationKind::OneToOne };
    let new = vec![
        EntityType { name: DATED, fields: vec![field(DATE, FieldKind::Timestamp, false)], relations: vec![rel] },
        EntityType { name: AUTHOR, fields: Vec::new(), relations: Vec::new() },
    ];
    assert_eq!(
        plan_migration(&old, &new),
        vec![
            MigrationStep::CreateType { ty: AUTHOR },
            MigrationStep::AddRelation { ty: DATED, relation: rel },
            MigrationStep::DropType { ty: 3 },
        ]
    );
}
