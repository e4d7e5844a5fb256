use chiseld::cursor::{decode, encode, follows, Cursor};
use chiseld::executor::{after_attempt, Next, Outcome};
use chiseld::filter::{CmpOp, FilterExpr, Literal, QueryError};
use chiseld::policy::{resolve, FieldPolicy, Operation, Policy, Transform};
use chiseld::types::{Field, FieldKind};

fn fields() -> Vec<Field> {
    vec![Field { name: 1, kind: FieldKind::Integer, nullable: false, default: None, unique: false }]
}

#[test]
fn cursor_round_trips() {
    for c in [
        Cursor { key: 1662624988000, id: 42 },
        Cursor { key: -1, id: u64::MAX },
        Cursor { key: i64::MIN, id: 0 },
        Cursor { key: i64::MAX, id: 1 },
    ] {
        let b = encode(&c);
        assert_eq!(b.len(), 16);
        assert_eq!(decode(&b), Some(c));
    }
    assert_eq!(encode(&Cursor { key: 1, id: 258 }), vec![0, 0, 0, 0, 0, 0, 0, 1, 0, 0, 0, 0, 0, 0, 1, 2]);
    assert_eq!(decode(&[0u8; 15]), None);
    assert_eq!(decode(&[0u8; 17]), None);
}

#[test]
fn cursor_orders_by_key_then_id() {
    let c = Cursor { key: 10, id: 5 };
    assert!(follows(11, 0, &c));
    assert!(follows(10, 6, &c));
    assert!(!follows(10, 5, &c));
    assert!(!follows(9, 100, &c));
}

#[test]
fn only_transient_failures_retry() {
    assert_eq!(after_attempt(0, 3, Outcome::Success), Next::Done);
    assert_eq!(after_attempt(0, 3, Outcome::Fatal), Next::Fail);
    assert_eq!(after_attempt(2, 3, Outcome::Transient), Next::Retry);
    assert_eq!(after_attempt(3, 3, Outcome::Transient), Next::Fail);
    assert_eq!(after_attempt(0, 0, Outcome::Transient), Next::Fail);
}

#[test]
fn policies_resolve_in_order() {
    let ps = vec![
        Policy::Transform(FieldPolicy { field: 1, transform: Transform::Clamp(5) }),
        Policy::Filter(FilterExpr::Cmp { field: 1, op: CmpOp::Gt, lit: Literal::Int(0) }),
        Policy::Restrict(Operation::Write),
        Policy::Transform(FieldPolicy { field: 1, transform: Transform::Redact }),
    ];
    let rp = resolve(&fields(), &ps).ok().unwrap();
    assert_eq!(rp.filters.len(), 1);
    assert_eq!(
        rp.transforms,
        vec![
            FieldPolicy { field: 1, transform: Transform::Clamp(5) },
            FieldPolicy { field: 1, transform: Transform::Redact },
        ]
    );
    assert!(!rp.deny_read);
    assert!(rp.deny_write);
}

#[test]
fn policy_on_unknown_field_is_refused() {
    let ps = vec![
        Policy::Restrict(Operation::Read),
        Policy::Filter(FilterExpr::Cmp { field: 7, op: CmpOp::Eq, lit: Literal::Int(0) }),
    ];
    assert!(matches!(resolve(&fields(), &ps), Err(QueryError::UnknownField(7))));
}

#[test]
fn transform_on_unknown_field_is_refused() {
    let ps = vec![Policy::Transform(FieldPolicy { field: 9, transform: Transform::Redact })];
    assert!(matches!(resolve(&fields(), &ps), Err(QueryError::UnknownField(9))));
}
