use nodus_executor::facts::Facts;
use nodus_executor::plan_types::{AggregateOp, ScalarBinaryOp, ScalarExpr};
use nodus_executor::result_types::{
    aggregate_type, binary_type, check_integer_ranges, literal_type, scalar_type, value_type,
    ColumnTypes,
};
use nodus_executor::value::Value;

#[test]
fn aggregate_types_do_not_depend_on_rows() {
    assert_eq!(
        aggregate_type(&AggregateOp::Count, None).as_deref(),
        Some("BIGINT")
    );
    assert_eq!(
        aggregate_type(&AggregateOp::Sum, Some("INTEGER".into())).as_deref(),
        Some("BIGINT")
    );
    assert_eq!(
        aggregate_type(&AggregateOp::Sum, Some("BIGINT".into())).as_deref(),
        Some("NUMERIC")
    );
    assert_eq!(
        aggregate_type(&AggregateOp::Min, Some("DATE".into())).as_deref(),
        Some("DATE")
    );
}

fn columns() -> ColumnTypes {
    ColumnTypes {
        names: vec!["n".into(), "s".into(), "f".into()],
        types: vec!["INTEGER".into(), "SMALLINT".into(), "FLOAT8".into()],
        suffixes: false,
    }
}

fn column(name: &str) -> Box<ScalarExpr> {
    Box::new(ScalarExpr::Column(name.into()))
}

fn add(l: &str, r: &str) -> ScalarExpr {
    ScalarExpr::Binary { op: ScalarBinaryOp::Add, left: column(l), right: column(r) }
}

#[test]
fn arithmetic_takes_the_wider_type() {
    let facts = Facts::none();
    let ty = |e: &ScalarExpr| scalar_type(e, &columns(), &facts).unwrap();
    assert_eq!(ty(&add("s", "s")).as_deref(), Some("SMALLINT"));
    assert_eq!(ty(&add("s", "n")).as_deref(), Some("INTEGER"));
    assert_eq!(ty(&add("n", "f")).as_deref(), Some("DOUBLE PRECISION"));
    assert_eq!(ty(&add("n", "missing")), None);
    assert_eq!(
        binary_type(ScalarBinaryOp::Concat, Some("INTEGER[]".into()), Some("TEXT".into())),
        Some("INTEGER[]".to_string())
    );
}

#[test]
fn literals_have_the_type_of_their_value() {
    assert_eq!(literal_type(&Value::Int(5)).as_deref(), Some("INTEGER"));
    assert_eq!(literal_type(&Value::Int(1 << 40)).as_deref(), Some("BIGINT"));
    assert_eq!(
        literal_type(&Value::Array(vec![Value::Null, Value::Bool(true)])).as_deref(),
        Some("BOOLEAN[]")
    );
    assert_eq!(value_type(&Value::Null), "TEXT");
}

#[test]
fn integer_arithmetic_is_held_to_its_range() {
    let facts = Facts::none();
    let checked = check_integer_ranges(&add("n", "s"), &columns(), &facts).unwrap();
    match checked {
        ScalarExpr::Function { name, args } => {
            assert_eq!(name, "__INTEGER_RANGE__");
            assert_eq!(args.len(), 2);
            assert!(matches!(&args[1], ScalarExpr::Literal(Value::Text(t)) if t == "INTEGER"));
        }
        _ => panic!("unchecked"),
    }
    let plain = check_integer_ranges(&add("n", "f"), &columns(), &facts).unwrap();
    assert!(matches!(plain, ScalarExpr::Binary { .. }));
}
