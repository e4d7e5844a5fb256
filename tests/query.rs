use chiseld::filter::{coerce_literal, compile_filter, eval_predicate, CmpOp, FilterExpr, Literal, Predicate, QueryError};
use chiseld::params::parse_filter_value;
use chiseld::policy::{present_value, FieldPolicy, ResolvedPolicy, Transform};
use chiseld::store::{update_cells, StoreError, Table, Upserted};
use chiseld::registry::Registry;
use chiseld::types::{get_value, Cell, EntityType, Field, FieldKind, Value};

const DATE: u64 = 10;
const FLAG: u64 = 11;
const COUNT: u64 = 12;

fn fields() -> Vec<Field> {
    vec![
        Field { name: DATE, kind: FieldKind::Timestamp, nullable: false, default: None, unique: false },
        Field { name: FLAG, kind: FieldKind::Boolean, nullable: true, default: None, unique: false },
        Field { name: COUNT, kind: FieldKind::Integer, nullable: true, default: None, unique: false },
    ]
}

fn date_row(ms: i64) -> Vec<Cell> {
    vec![Cell { field: DATE, value: Value::Int(ms) }]
}

fn cmp(field: u64, op: CmpOp, lit: Literal) -> FilterExpr {
    FilterExpr::Cmp { field, op, lit }
}

fn rows_matching(t: &Table, e: &FilterExpr) -> Vec<i64> {
    let p = compile_filter(&fields(), e).unwrap();
    let rows = t.find_many(&p, &ResolvedPolicy::allow_all()).unwrap();
    rows.iter()
        .map(|r| match get_value(&r.cells, DATE) {
            Value::Int(v) => v,
            _ => panic!("row without a date"),
        })
        .collect()
}

#[test]
fn stored_date_reads_back_unchanged() {
    let mut t = Table::new();
    t.create(&ResolvedPolicy::allow_all(), date_row(1662034394000)).unwrap();
    let rows = t.find_many(&Predicate::All, &ResolvedPolicy::allow_all()).unwrap();
    assert_eq!(rows.len(), 1);
    assert_eq!(get_value(&rows[0].cells, DATE), Value::Int(1662034394000));
}

#[test]
fn integer_and_fractional_millis_select_same_row() {
    let mut t = Table::new();
    t.create(&ResolvedPolicy::allow_all(), date_row(1662624988000)).unwrap();
    t.create(&ResolvedPolicy::allow_all(), date_row(1662034394000)).unwrap();
    let int_lit = parse_filter_value(b"1662624988000").unwrap();
    let frac_lit = parse_filter_value(b"1662624988000.0").unwrap();
    assert_eq!(int_lit, Literal::Int(1662624988000));
    assert_eq!(frac_lit, Literal::Frac { whole: 1662624988000, frac: 0 });
    assert_eq!(rows_matching(&t, &cmp(DATE, CmpOp::Eq, int_lit)), vec![1662624988000]);
    assert_eq!(rows_matching(&t, &cmp(DATE, CmpOp::Eq, frac_lit)), vec![1662624988000]);
    assert_eq!(rows_matching(&t, &FilterExpr::All), vec![1662624988000, 1662034394000]);
}

#[test]
fn fractional_millis_must_be_whole() {
    let lit = parse_filter_value(b"1662624988000.5").unwrap();
    assert_eq!(lit, Literal::Frac { whole: 1662624988000, frac: 5 });
    assert!(matches!(compile_filter(&fields(), &cmp(DATE, CmpOp::Eq, lit)), Err(QueryError::TypeMismatch(DATE))));
    assert_eq!(coerce_literal(FieldKind::Timestamp, lit), None);
    assert_eq!(coerce_literal(FieldKind::Timestamp, Literal::Frac { whole: 3, frac: 0 }), Some(Value::Int(3)));
}

#[test]
fn filter_checks_fields_and_kinds() {
    assert!(matches!(compile_filter(&fields(), &cmp(99, CmpOp::Eq, Literal::Int(1))), Err(QueryError::UnknownField(99))));
    assert!(matches!(
        compile_filter(&fields(), &cmp(FLAG, CmpOp::Eq, Literal::Int(1))),
        Err(QueryError::TypeMismatch(FLAG))
    ));
    let nested = FilterExpr::And(
        Box::new(cmp(DATE, CmpOp::Ge, Literal::Int(0))),
        Box::new(FilterExpr::Not(Box::new(cmp(FLAG, CmpOp::Eq, Literal::Int(2))))),
    );
    assert!(matches!(compile_filter(&fields(), &nested), Err(QueryError::TypeMismatch(FLAG))));
}

#[test]
fn filter_evaluation() {
    let row = vec![Cell { field: DATE, value: Value::Int(5) }, Cell { field: FLAG, value: Value::Bool(true) }];
    let e = FilterExpr::Or(
        Box::new(cmp(DATE, CmpOp::Lt, Literal::Int(5))),
        Box::new(FilterExpr::And(
            Box::new(cmp(FLAG, CmpOp::Eq, Literal::Bool(true))),
            Box::new(cmp(COUNT, CmpOp::Eq, Literal::Null)),
        )),
    );
    let p = compile_filter(&fields(), &e).unwrap();
    assert!(eval_predicate(&p, &row));
    let p = compile_filter(&fields(), &cmp(DATE, CmpOp::Gt, Literal::Int(5))).unwrap();
    assert!(!eval_predicate(&p, &row));
    let p = compile_filter(&fields(), &cmp(COUNT, CmpOp::Lt, Literal::Int(5))).unwrap();
    assert!(!eval_predicate(&p, &row));
}

#[test]
fn query_values_parse() {
    assert_eq!(parse_filter_value(b"true"), Some(Literal::Bool(true)));
    assert_eq!(parse_filter_value(b"false"), Some(Literal::Bool(false)));
    assert_eq!(parse_filter_value(b"0"), Some(Literal::Int(0)));
    assert_eq!(parse_filter_value(b"9223372036854775807"), Some(Literal::Int(i64::MAX)));
    assert_eq!(parse_filter_value(b"9223372036854775808"), None);
    assert_eq!(parse_filter_value(b"99999999999999999999"), None);
    assert_eq!(parse_filter_value(b""), None);
    assert_eq!(parse_filter_value(b"12a"), None);
    assert_eq!(parse_filter_value(b"1."), None);
    assert_eq!(parse_filter_value(b".5"), None);
    assert_eq!(parse_filter_value(b"1.2.3"), None);
    assert_eq!(parse_filter_value(b"-1"), None);
}

#[test]
fn transform_changes_only_what_is_returned() {
    let mut t = Table::new();
    t.create(&ResolvedPolicy::allow_all(), vec![Cell { field: DATE, value: Value::Int(100) }, Cell { field: COUNT, value: Value::Int(9) }])
        .unwrap();
    let mut policy = ResolvedPolicy::allow_all();
    policy.transforms.push(FieldPolicy { field: COUNT, transform: Transform::Redact });
    let shown = t.find_many(&Predicate::All, &policy).unwrap();
    assert_eq!(get_value(&shown[0].cells, COUNT), Value::Null);
    assert_eq!(get_value(&shown[0].cells, DATE), Value::Int(100));
    assert_eq!(get_value(&t.rows[0].cells, COUNT), Value::Int(9));
    let plain = t.find_many(&Predicate::All, &ResolvedPolicy::allow_all()).unwrap();
    assert_eq!(get_value(&plain[0].cells, COUNT), Value::Int(9));
}

#[test]
fn transforms_apply_in_declaration_order() {
    let ps = vec![
        FieldPolicy { field: COUNT, transform: Transform::Replace(Value::Int(50)) },
        FieldPolicy { field: DATE, transform: Transform::Redact },
        FieldPolicy { field: COUNT, transform: Transform::Clamp(20) },
    ];
    assert_eq!(present_value(Value::Int(3), COUNT, &ps), Value::Int(20));
    assert_eq!(present_value(Value::Int(3), FLAG, &ps), Value::Int(3));
    assert_eq!(present_value(Value::Bool(true), COUNT, &vec![FieldPolicy { field: COUNT, transform: Transform::Clamp(1) }]), Value::Bool(true));
}

#[test]
fn policies_filter_and_restrict() {
    let mut t = Table::new();
    t.create(&ResolvedPolicy::allow_all(), date_row(1)).unwrap();
    t.create(&ResolvedPolicy::allow_all(), date_row(2)).unwrap();
    let mut policy = ResolvedPolicy::allow_all();
    policy.filters.push(compile_filter(&fields(), &cmp(DATE, CmpOp::Gt, Literal::Int(1))).unwrap());
    let rows = t.find_many(&Predicate::All, &policy).unwrap();
    assert_eq!(rows.len(), 1);
    assert_eq!(get_value(&rows[0].cells, DATE), Value::Int(2));
    policy.deny_read = true;
    assert!(matches!(t.find_many(&Predicate::All, &policy), Err(StoreError::PolicyViolation)));
    policy.deny_write = true;
    assert_eq!(t.create(&policy, date_row(3)), Err(StoreError::PolicyViolation));
    assert_eq!(t.upsert(&policy, &Predicate::All, date_row(3), date_row(4)), Err(StoreError::PolicyViolation));
    assert_eq!(t.rows.len(), 2);
}

#[test]
fn upsert_creates_when_nothing_matches() {
    let mut t = Table::new();
    let r = t.upsert(&ResolvedPolicy::allow_all(), &Predicate::All, date_row(1662034394000), date_row(946720800000));
    assert_eq!(r, Ok(Upserted::Created(0)));
    assert_eq!(t.rows.len(), 1);
    assert_eq!(get_value(&t.rows[0].cells, DATE), Value::Int(1662034394000));
}

#[test]
fn upsert_updates_the_one_match() {
    let mut t = Table::new();
    let all = ResolvedPolicy::allow_all();
    t.create(&all, vec![Cell { field: DATE, value: Value::Int(1) }, Cell { field: COUNT, value: Value::Int(7) }]).unwrap();
    t.create(&all, date_row(2)).unwrap();
    let restriction = compile_filter(&fields(), &cmp(DATE, CmpOp::Eq, Literal::Int(1))).unwrap();
    let r = t.upsert(&all, &restriction, date_row(100), date_row(10));
    assert_eq!(r, Ok(Upserted::Updated(0)));
    assert_eq!(t.rows.len(), 2);
    assert_eq!(get_value(&t.rows[0].cells, DATE), Value::Int(10));
    assert_eq!(get_value(&t.rows[0].cells, COUNT), Value::Int(7));
    assert_eq!(t.rows[1].cells, date_row(2));
    let r = t.upsert(&all, &Predicate::All, date_row(100), date_row(10));
    assert_eq!(r, Err(StoreError::Ambiguous));
    assert_eq!(get_value(&t.rows[1].cells, DATE), Value::Int(2));
}

#[test]
fn update_replaces_set_fields_only() {
    let cells = vec![Cell { field: DATE, value: Value::Int(1) }, Cell { field: COUNT, value: Value::Int(7) }];
    let upd = vec![Cell { field: COUNT, value: Value::Int(8) }, Cell { field: FLAG, value: Value::Bool(false) }];
    let out = update_cells(&cells, &upd);
    assert_eq!(
        out,
        vec![
            Cell { field: COUNT, value: Value::Int(8) },
            Cell { field: FLAG, value: Value::Bool(false) },
            Cell { field: DATE, value: Value::Int(1) },
        ]
    );
}

#[test]
fn added_field_fills_rows() {
    let mut t = Table::new();
    let all = ResolvedPolicy::allow_all();
    t.create(&all, date_row(1)).unwrap();
    t.create(&all, vec![Cell { field: DATE, value: Value::Int(2) }, Cell { field: COUNT, value: Value::Int(3) }]).unwrap();
    t.add_field(Field { name: COUNT, kind: FieldKind::Integer, nullable: false, default: Some(Value::Int(0)), unique: false });
    assert_eq!(get_value(&t.rows[0].cells, COUNT), Value::Int(0));
    assert_eq!(get_value(&t.rows[1].cells, COUNT), Value::Int(3));
    assert_eq!(get_value(&t.rows[0].cells, DATE), Value::Int(1));
    assert_eq!(get_value(&t.rows[1].cells, DATE), Value::Int(2));
    t.add_field(Field { name: FLAG, kind: FieldKind::Boolean, nullable: true, default: None, unique: false });
    assert_eq!(t.rows[0].cells.len(), 3);
    assert_eq!(get_value(&t.rows[0].cells, FLAG), Value::Null);
}

#[test]
fn find_one_returns_first_visible() {
    let mut t = Table::new();
    let all = ResolvedPolicy::allow_all();
    t.create(&all, date_row(5)).unwrap();
    t.create(&all, date_row(6)).unwrap();
    let p = compile_filter(&fields(), &cmp(DATE, CmpOp::Ge, Literal::Int(6))).unwrap();
    let row = t.find_one(&p, &all).unwrap().unwrap();
    assert_eq!(get_value(&row.cells, DATE), Value::Int(6));
    let none = compile_filter(&fields(), &cmp(DATE, CmpOp::Gt, Literal::Int(6))).unwrap();
    assert!(t.find_one(&none, &all).unwrap().is_none());
    let mut denied = ResolvedPolicy::allow_all();
    denied.deny_read = true;
    assert!(matches!(t.find_one(&p, &denied), Err(StoreError::PolicyViolation)));
}

#[test]
fn delete_removes_matching_rows() {
    let mut t = Table::new();
    let all = ResolvedPolicy::allow_all();
    for ms in [1, 5, 2, 7] {
        t.create(&all, date_row(ms)).unwrap();
    }
    let p = compile_filter(&fields(), &cmp(DATE, CmpOp::Lt, Literal::Int(3))).unwrap();
    let mut denied = ResolvedPolicy::allow_all();
    denied.deny_write = true;
    assert_eq!(t.delete(&denied, &p), Err(StoreError::PolicyViolation));
    assert_eq!(t.rows.len(), 4);
    assert_eq!(t.delete(&all, &p), Ok(2));
    assert_eq!(rows_matching(&t, &FilterExpr::All), vec![5, 7]);
    assert_eq!(t.delete(&all, &p), Ok(0));
}

#[test]
fn dated_entity_end_to_end() {
    let mut registry = Registry::new();
    let dated = EntityType {
        name: 1,
        fields: vec![Field { name: DATE, kind: FieldKind::Timestamp, nullable: false, default: None, unique: false }],
        relations: Vec::new(),
    };
    registry.apply(vec![dated], false, false, 0).unwrap();
    let declared = &registry.types[0].fields;
    let all = ResolvedPolicy::allow_all();

    let mut t = Table::new();
    t.create(&all, date_row(1662034394000)).unwrap();
    let row = t.find_one(&Predicate::All, &all).unwrap().unwrap();
    assert_eq!(get_value(&row.cells, DATE), Value::Int(1662034394000));

    let mut crud = Table::new();
    crud.create(&all, date_row(1662624988000)).unwrap();
    for text in [&b"1662624988000"[..], &b"1662624988000.0"[..]] {
        let lit = parse_filter_value(text).unwrap();
        let p = compile_filter(declared, &cmp(DATE, CmpOp::Eq, lit)).unwrap();
        let found = crud.find_many(&p, &all).unwrap();
        assert_eq!(found.len(), 1);
        assert_eq!(get_value(&found[0].cells, DATE), Value::Int(1662624988000));
    }
}
