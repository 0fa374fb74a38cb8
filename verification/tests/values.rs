use nodus_executor::cast::{cast_value, try_cast};
use nodus_executor::cells::is_identical;
use nodus_executor::eval::{eval_scalar_in, pattern_match, Bindings};
use nodus_executor::facts::{ColumnType, Facts, Halt, Request, Task, TypeInfo};
use nodus_executor::folding::fold_binary;
use nodus_executor::interval::{
    apply_interval_unit, format_interval, interval_total, parse_hms_token, parse_interval,
    parse_interval_text,
};
use nodus_executor::json_ops::{apply_json_array_op, find_member, json_step};
use nodus_executor::json_text::{compact_text, spaced_text};
use nodus_executor::names::{find_column, parse_object_name, unqualify};
use nodus_executor::pattern::{like_to_regex, similar_to_regex};
use nodus_executor::plan_types::{PatternKind, ScalarBinaryOp, ScalarExpr, ScalarUnaryOp};
use nodus_executor::render::{compare, interval_aware_compare, rank_texts, render, Rank};
use nodus_executor::scalar_ops::{
    apply_binary_op, apply_unary_op, parse_bool_text, quantified_compare, unify_for_comparison,
};
use nodus_executor::subqueries::eval_scalar_expr;
use nodus_executor::syntax::SqlBinaryOp;
use nodus_executor::temporal::{apply_date_offset, extract_datetime_field, text_of_day};
use nodus_executor::text::{
    int_text, parse_int, replace_char, split_once_text, split_text, strip_both, trim_text,
    words_of,
};
use nodus_executor::value::{Json, Value};

fn text(t: &str) -> Value {
    Value::Text(t.to_string())
}

fn raised<T>(r: Result<T, Halt>) -> String {
    match r {
        Err(Halt::Raised(m)) => m,
        Err(other) => panic!("{other:?}"),
        Ok(_) => panic!("no error"),
    }
}

fn known(answers: Vec<(Task, Vec<Value>, Value)>) -> Facts {
    let mut facts = Facts::none();
    for (task, args, v) in answers {
        facts.answers.push((Request { task, args }, Ok(v)));
    }
    let describe = |category: ColumnType, element: Option<&str>, shown: &str, temporal: bool| TypeInfo {
        category,
        element: element.map(str::to_string),
        shown: shown.to_string(),
        temporal,
    };
    for (name, info) in [
        ("INTEGER", describe(ColumnType::Int, None, "integer", false)),
        ("BOOLEAN", describe(ColumnType::Bool, None, "boolean", false)),
        ("TEXT", describe(ColumnType::Text, None, "text", false)),
        ("UUID", describe(ColumnType::Text, None, "uuid", false)),
        ("JSON", describe(ColumnType::Text, None, "json", false)),
        ("DATE", describe(ColumnType::Text, None, "date", true)),
        ("FLOAT8", describe(ColumnType::Float, None, "double precision", false)),
        ("INTEGER[]", describe(ColumnType::Int, Some("INTEGER"), "integer[]", false)),
    ] {
        facts.types.push((name.to_string(), info));
    }
    facts
}

// Text ----------------------------------------------------------------------

#[test]
fn numbers_read_back_from_their_text() {
    for n in [0, 7, -7, i64::MAX, i64::MIN] {
        assert_eq!(parse_int(&int_text(n)), Some(n));
    }
    assert_eq!(int_text(-120), "-120");
    assert_eq!(parse_int("+5"), Some(5));
    assert_eq!(parse_int(""), None);
    assert_eq!(parse_int("-"), None);
    assert_eq!(parse_int("1x"), None);
    assert_eq!(parse_int("9223372036854775808"), None);
}

#[test]
fn text_is_trimmed_split_and_replaced() {
    assert_eq!(trim_text(" \t a b \n"), "a b");
    assert_eq!(trim_text(&trim_text("  x ")), "x");
    assert_eq!(split_text("a||b", '|'), vec!["a", "", "b"]);
    assert_eq!(words_of("  one   two "), vec!["one", "two"]);
    assert_eq!(
        split_once_text("a.b.c", '.'),
        Some(("a".to_string(), "b.c".to_string()))
    );
    assert_eq!(split_once_text("abc", '.'), None);
    assert_eq!(replace_char("it's", '\'', "''"), "it''s");
    assert_eq!(strip_both("''x'", '\''), "x");
}

#[test]
fn names_resolve_with_and_without_qualifier() {
    assert_eq!(unqualify("a.b.c"), "c");
    let columns = vec!["t.id".to_string(), "u.id".to_string(), "u.n".to_string()];
    assert_eq!(find_column(&columns, "u.id"), Some(1));
    assert_eq!(find_column(&columns, "id"), Some(0));
    assert_eq!(find_column(&columns, "zz"), None);
    let path = |a: &str, b: &str, c: &str| Ok((a.to_string(), b.to_string(), c.to_string()));
    assert_eq!(parse_object_name("t"), path("default", "public", "t"));
    assert_eq!(parse_object_name("s.t"), path("default", "s", "t"));
    assert_eq!(parse_object_name("d.s.t"), path("d", "s", "t"));
    assert!(parse_object_name("a.b.c.d").is_err());
}

// Intervals -----------------------------------------------------------------

#[test]
fn intervals_are_written_and_read() {
    assert_eq!(format_interval(14, 3, 0), "1 year 2 mons 3 days");
    assert_eq!(format_interval(0, 0, 7200), "02:00:00");
    assert_eq!(format_interval(0, 0, 0), "00:00:00");
    assert_eq!(format_interval(-1, 1, -61), "-1 mon 1 day -00:01:01");
    for i in [(14, 3, 0), (0, 0, 7200), (-1, 1, -61), (25, -2, 3), (0, 0, 0)] {
        assert_eq!(parse_interval_text(&format_interval(i.0, i.1, i.2)), Some(i));
    }
    assert_eq!(parse_interval_text("2 weeks"), Some((0, 14, 0)));
    assert_eq!(parse_interval_text("soon"), None);
    assert_eq!(parse_hms_token("-01:30:05"), Some(-5405));
    assert_eq!(parse_hms_token("1:2"), None);
    assert_eq!(parse_interval("3", &Some("HOUR".to_string())), Some((0, 0, 10800)));
    assert_eq!(parse_interval("1 day 2 hours", &None), Some((0, 1, 7200)));
    assert_eq!(apply_interval_unit((0, 0, 0), 2, "years"), Some((24, 0, 0)));
    assert_eq!(apply_interval_unit((0, 0, 0), 2, "ages"), None);
    assert_eq!(interval_total((1, 1, 1)), 30 * 86400 + 86400 + 1);
}

#[test]
fn intervals_compare_by_magnitude() {
    let facts = Facts::none();
    assert_eq!(
        interval_aware_compare(&text("10 days"), &text("2 days"), &facts),
        Ok(Rank::Greater)
    );
    assert_eq!(
        interval_aware_compare(&text("1 mon"), &text("30 days"), &facts),
        Ok(Rank::Equal)
    );
    assert_eq!(
        interval_aware_compare(&text("b"), &text("a"), &facts),
        Ok(Rank::Greater)
    );
}

// Patterns ------------------------------------------------------------------

#[test]
fn patterns_become_regular_expressions() {
    assert_eq!(like_to_regex("a%_b", Some('\\')).as_deref(), Some("(?s)^a.*.b$"));
    assert_eq!(like_to_regex("50\\%", Some('\\')).as_deref(), Some("(?s)^50%$"));
    assert_eq!(like_to_regex("a.b", None).as_deref(), Some("(?s)^a\\.b$"));
    assert_eq!(like_to_regex("bad\\", Some('\\')), None);
    assert!(similar_to_regex("(a|b)%", Some('\\')).unwrap().contains("(a|b)"));
}

#[test]
fn patterns_match_text() {
    let facts = Facts::none();
    let like = |v: &str, p: &str, ci: bool| {
        pattern_match(&text(v), &text(p), PatternKind::Like, ci, Some('\\'), &facts)
    };
    assert_eq!(like("hello", "h_l%", false), Ok(Some(true)));
    assert_eq!(like("hello", "H%", false), Ok(Some(false)));
    assert_eq!(like("hello", "H%", true), Ok(Some(true)));
    assert_eq!(like("a\nb", "a%b", false), Ok(Some(true)));
    assert_eq!(like("a.b", "a.b", false), Ok(Some(true)));
    assert_eq!(like("axb", "a.b", false), Ok(Some(false)));
    let regex = |v: &str, p: &str| {
        pattern_match(&text(v), &text(p), PatternKind::Regex, false, None, &facts)
    };
    assert_eq!(regex("abc", "b+"), Ok(Some(true)));
    // What is no regular expression matches nothing.
    assert_eq!(regex("abc", "("), Ok(None));
    assert_eq!(
        pattern_match(&Value::Null, &text("x"), PatternKind::Like, false, None, &facts),
        Ok(None)
    );
    assert_eq!(
        pattern_match(&text("ab"), &text("(ab|cd)"), PatternKind::SimilarTo, false, Some('\\'), &facts),
        Ok(Some(true))
    );
}

// Casts ---------------------------------------------------------------------

#[test]
fn casts_follow_the_target_type() {
    let facts = known(vec![]);
    let cast = |v: Value, t: &str| try_cast(&v, t, &facts);
    assert_eq!(cast(Value::Null, "INTEGER"), Ok(Value::Null));
    assert_eq!(cast(text(" 42 "), "INTEGER"), Ok(Value::Int(42)));
    assert_eq!(cast(Value::Bool(true), "INTEGER"), Ok(Value::Int(1)));
    assert_eq!(
        raised(cast(text("x"), "INTEGER")),
        "invalid input syntax for type integer: \"x\""
    );
    assert_eq!(cast(text("yes"), "BOOLEAN"), Ok(Value::Bool(true)));
    assert_eq!(cast(Value::Int(0), "BOOLEAN"), Ok(Value::Bool(false)));
    assert!(cast(text("maybe"), "BOOLEAN").is_err());
    assert_eq!(cast(Value::Bool(false), "TEXT"), Ok(text("false")));
    assert_eq!(cast(Value::Int(5), "TEXT"), Ok(text("5")));
    assert_eq!(
        cast(Value::Array(vec![text("1"), Value::Null]), "INTEGER[]"),
        Ok(Value::Array(vec![Value::Int(1), Value::Null]))
    );
    assert_eq!(cast(Value::Int(1), "POINT"), Err(Halt::NeedsType("POINT".to_string())));
    let inf = f64::INFINITY.to_bits();
    assert_eq!(raised(cast(Value::Float(inf), "INTEGER")), "integer out of range");
}

#[test]
fn json_and_uuid_texts_are_checked() {
    let facts = known(vec![]);
    assert_eq!(
        try_cast(&text("{\"a\": [1, 2]}"), "JSON", &facts),
        Ok(text("{\"a\": [1, 2]}"))
    );
    assert_eq!(
        raised(try_cast(&text("{a}"), "JSON", &facts)),
        "invalid input syntax for type json: \"{a}\""
    );
    assert_eq!(
        try_cast(&text(" {A0EEBC99-9C0B-4EF8-BB6D-6BB9BD380A11} "), "UUID", &facts),
        Ok(text("a0eebc99-9c0b-4ef8-bb6d-6bb9bd380a11"))
    );
    assert_eq!(
        raised(try_cast(&text("not-a-uuid"), "UUID", &facts)),
        "invalid input syntax for type uuid: \"not-a-uuid\""
    );
}

#[test]
fn temporal_casts_say_what_is_wrong() {
    let d = |t: &str| vec![text(t)];
    let facts = known(vec![
        (Task::NormalizeTemporal("DATE".to_string()), d("2024-2-3"), text("2024-02-03")),
        (Task::NormalizeTemporal("DATE".to_string()), d("2024-13-01"), Value::Null),
        (Task::LooksTemporal, d("2024-13-01"), Value::Bool(true)),
        (Task::NormalizeTemporal("DATE".to_string()), d("soon"), Value::Null),
        (Task::LooksTemporal, d("soon"), Value::Bool(false)),
    ]);
    assert_eq!(try_cast(&text("2024-2-3"), "DATE", &facts), Ok(text("2024-02-03")));
    assert_eq!(
        raised(try_cast(&text("2024-13-01"), "DATE", &facts)),
        "date/time field value out of range: \"2024-13-01\""
    );
    assert_eq!(
        raised(try_cast(&text("soon"), "DATE", &facts)),
        "invalid input syntax for type date: \"soon\""
    );
    assert_eq!(
        cast_value(text("2024-2-3"), "DATE", &facts),
        Ok(text("2024-02-03"))
    );
}

// Operators -----------------------------------------------------------------

fn op(o: ScalarBinaryOp, l: Value, r: Value) -> Result<Value, Halt> {
    apply_binary_op(o, l, r, &Facts::none())
}

#[test]
fn integer_arithmetic_is_checked() {
    let i = Value::Int;
    assert_eq!(op(ScalarBinaryOp::Add, i(2), i(3)), Ok(i(5)));
    assert_eq!(op(ScalarBinaryOp::Div, i(-7), i(2)), Ok(i(-3)));
    assert_eq!(op(ScalarBinaryOp::Mod, i(-7), i(2)), Ok(i(-1)));
    assert_eq!(raised(op(ScalarBinaryOp::Div, i(1), i(0))), "division by zero");
    assert_eq!(raised(op(ScalarBinaryOp::Mod, i(1), i(0))), "division by zero");
    assert_eq!(
        raised(op(ScalarBinaryOp::Mul, i(i64::MAX), i(2))),
        "bigint out of range"
    );
    assert_eq!(op(ScalarBinaryOp::Add, i(1), Value::Null), Ok(Value::Null));
}

#[test]
fn comparisons_and_logic_have_three_values() {
    let b = Value::Bool;
    assert_eq!(op(ScalarBinaryOp::Lt, Value::Int(1), Value::Int(2)), Ok(b(true)));
    assert_eq!(op(ScalarBinaryOp::Eq, text("a"), text("a")), Ok(b(true)));
    assert_eq!(op(ScalarBinaryOp::GtEq, text("a"), text("b")), Ok(b(false)));
    assert_eq!(op(ScalarBinaryOp::Eq, Value::Null, Value::Int(1)), Ok(Value::Null));
    assert_eq!(op(ScalarBinaryOp::And, b(false), Value::Null), Ok(b(false)));
    assert_eq!(op(ScalarBinaryOp::And, b(true), Value::Null), Ok(Value::Null));
    assert_eq!(op(ScalarBinaryOp::Or, b(true), Value::Null), Ok(b(true)));
    assert_eq!(op(ScalarBinaryOp::Or, b(false), Value::Null), Ok(Value::Null));
    assert_eq!(apply_unary_op(ScalarUnaryOp::Not, Value::Null), Ok(Value::Null));
    assert_eq!(apply_unary_op(ScalarUnaryOp::Neg, Value::Int(4)), Ok(Value::Int(-4)));
    assert!(apply_unary_op(ScalarUnaryOp::Neg, Value::Int(i64::MIN)).is_err());
    assert_eq!(parse_bool_text(" ON "), b(true));
    assert_eq!(parse_bool_text("2"), Value::Null);
    assert_eq!(op(ScalarBinaryOp::Concat, text("a"), Value::Int(1)), Ok(text("a1")));
    let facts = known(vec![]);
    assert_eq!(
        unify_for_comparison(text("5"), Value::Int(5), &facts),
        Ok((Value::Int(5), Value::Int(5)))
    );
}

#[test]
fn any_and_all_compare_with_every_element() {
    let facts = Facts::none();
    let list = || Value::Array(vec![Value::Int(1), Value::Null, Value::Int(3)]);
    let q = |o, v: i64, all| quantified_compare(o, Value::Int(v), list(), all, &facts);
    assert_eq!(q(ScalarBinaryOp::Eq, 3, false), Ok(Value::Bool(true)));
    assert_eq!(q(ScalarBinaryOp::Eq, 2, false), Ok(Value::Null));
    assert_eq!(q(ScalarBinaryOp::Lt, 2, true), Ok(Value::Bool(false)));
    assert_eq!(q(ScalarBinaryOp::Gt, 9, true), Ok(Value::Null));
    let empty = Value::Array(vec![]);
    assert_eq!(
        quantified_compare(ScalarBinaryOp::Eq, Value::Int(1), empty, true, &facts),
        Ok(Value::Bool(true))
    );
}

#[test]
fn what_is_not_decided_here_is_asked_for() {
    let one = 1f64.to_bits();
    match op(ScalarBinaryOp::Add, Value::Float(one), Value::Int(1)) {
        Err(Halt::Needs(q)) => assert_eq!(q.task, Task::Arithmetic(ScalarBinaryOp::Add)),
        other => panic!("{other:?}"),
    }
    let facts = known(vec![(
        Task::Arithmetic(ScalarBinaryOp::Add),
        vec![Value::Float(one), Value::Int(1)],
        Value::Float(2f64.to_bits()),
    )]);
    assert_eq!(
        apply_binary_op(ScalarBinaryOp::Add, Value::Float(one), Value::Int(1), &facts),
        Ok(Value::Float(2f64.to_bits()))
    );
    assert_eq!(render(&Value::Bool(true), &facts), Ok("t".to_string()));
    assert_eq!(compare(&Value::Int(1), &Value::Int(2), &facts), Ok(Rank::Less));
    assert_eq!(rank_texts("a", "ab"), Rank::Less);
    assert_eq!(rank_texts("b", "ab"), Rank::Greater);
    assert!(is_identical(&Value::Int(1), &Value::Int(1)));
    assert!(!is_identical(&Value::Int(1), &Value::Int(2)));
}

#[test]
fn constants_are_folded_when_planned() {
    let facts = Facts::none();
    let fold = |o: SqlBinaryOp, a: i64, b: i64| {
        fold_binary(&o, Value::Int(a), Value::Int(b), &facts).unwrap()
    };
    assert_eq!(fold(SqlBinaryOp::Plus, 2, 3), Some(Value::Int(5)));
    assert_eq!(fold(SqlBinaryOp::Multiply, 4, -3), Some(Value::Int(-12)));
    assert_eq!(fold(SqlBinaryOp::Gt, 4, -3), Some(Value::Bool(true)));
}

// Expressions ---------------------------------------------------------------

fn column(n: &str) -> Box<ScalarExpr> {
    Box::new(ScalarExpr::Column(n.to_string()))
}

fn constant(v: Value) -> Box<ScalarExpr> {
    Box::new(ScalarExpr::Literal(v))
}

fn scope() -> Bindings {
    Bindings {
        references: vec!["a".to_string(), "b".to_string()],
        values: vec![Value::Int(4), Value::Null],
    }
}

#[test]
fn expressions_are_evaluated_on_a_row() {
    let facts = Facts::none();
    let eval = |e: ScalarExpr| eval_scalar_in(&e, &scope(), &facts);
    assert_eq!(eval(*column("a")), Ok(Value::Int(4)));
    assert_eq!(
        eval(ScalarExpr::IsNull { expr: column("b"), negated: false }),
        Ok(Value::Bool(true))
    );
    assert_eq!(
        eval(ScalarExpr::IsDistinctFrom { left: column("a"), right: column("b"), negated: false }),
        Ok(Value::Bool(true))
    );
    assert_eq!(
        eval(ScalarExpr::InList { expr: column("a"), list: vec![], negated: false }),
        Ok(Value::Bool(false))
    );
    assert_eq!(
        eval(ScalarExpr::InList {
            expr: column("a"),
            list: vec![ScalarExpr::Literal(Value::Int(1)), ScalarExpr::Literal(Value::Null)],
            negated: true,
        }),
        Ok(Value::Null)
    );
    assert_eq!(
        eval(ScalarExpr::Case {
            operand: Some(column("a")),
            branches: vec![(
                ScalarExpr::Literal(Value::Int(4)),
                ScalarExpr::Literal(text("four"))
            )],
            else_result: None,
        }),
        Ok(text("four"))
    );
    assert_eq!(
        eval(ScalarExpr::Binary {
            op: ScalarBinaryOp::Add,
            left: column("a"),
            right: constant(Value::Int(1)),
        }),
        Ok(Value::Int(5))
    );
    assert_eq!(
        eval(ScalarExpr::IsBool { expr: constant(Value::Null), value: Some(true), negated: true }),
        Ok(Value::Bool(true))
    );
}

#[test]
fn a_reference_that_is_no_column_reads_a_document_or_a_row() {
    let names = || vec!["t.id".to_string(), "t.doc".to_string()];
    let listed = || Value::Array(vec![text("t.id"), text("t.doc")]);
    let row = || vec![Value::Int(4), text("{\"k\": 5}")];
    let at = |name: &str, i: Value| (Task::ColumnPosition, vec![listed(), text(name)], i);
    let reads = |name: &str, parts: Value| (Task::JsonReference, vec![text(name)], parts);
    let access = |column: &str| Value::Array(vec![text(column), text("->>"), text("k")]);
    let facts = known(vec![
        at("id", Value::Int(0)),
        at("doc->>'k'", Value::Null),
        at("other->>'k'", Value::Null),
        at("t", Value::Null),
        at("far", Value::Int(9)),
        reads("doc->>'k'", access("doc")),
        reads("other->>'k'", access("other")),
        reads("t", Value::Null),
        reads("far", Value::Null),
        (Task::JsonExtract, vec![text("{\"k\": 5}"), text("->>"), text("k")], text("5")),
        (Task::RelationRow, vec![text("t"), listed(), Value::Array(row())], text("(4,...)")),
        (Task::RelationRow, vec![text("far"), listed(), Value::Array(row())], Value::Null),
    ]);
    let eval = |name: &str| eval_scalar_expr(&column(name), &row(), &names(), &facts);
    assert_eq!(eval("id"), Ok(Value::Int(4)));
    assert_eq!(eval("doc->>'k'"), Ok(text("5")));
    // The column of the access is not there.
    assert_eq!(eval("other->>'k'"), Ok(Value::Null));
    assert_eq!(eval("t"), Ok(text("(4,...)")));
    // A position beyond the row is no column either.
    assert_eq!(eval("far"), Ok(Value::Null));
}

#[test]
fn rebuilding_an_expression_changes_its_children() {
    let e = ScalarExpr::Binary {
        op: ScalarBinaryOp::Add,
        left: column("a"),
        right: constant(Value::Int(1)),
    };
    assert_eq!(e.children().len(), 2);
    let doubled = e.map_children(|_: &ScalarExpr| ScalarExpr::Literal(Value::Int(21)));
    assert_eq!(
        eval_scalar_in(&doubled, &scope(), &Facts::none()),
        Ok(Value::Int(42))
    );
    assert_eq!(
        eval_scalar_in(&e.duplicate(), &scope(), &Facts::none()),
        Ok(Value::Int(5))
    );
}

// JSON ----------------------------------------------------------------------

fn document() -> Json {
    Json::Object(vec![
        ("a".to_string(), Json::Array(vec![Json::Number("1".to_string()), Json::Null])),
        ("b".to_string(), Json::Str("x".to_string())),
    ])
}

#[test]
fn json_is_read_by_key_and_index() {
    let facts = known(vec![(
        Task::ToJson,
        vec![Value::Jsonb(document())],
        Value::Jsonb(document()),
    )]);
    let members = vec![("a".to_string(), Json::Bool(true))];
    assert_eq!(find_member(&members, "a"), Some(Json::Bool(true)));
    assert_eq!(find_member(&members, "z"), None);
    let list = json_step(&document(), &text("a"), &facts).unwrap().unwrap();
    assert_eq!(
        json_step(&list, &Value::Int(0), &facts),
        Ok(Some(Json::Number("1".to_string())))
    );
    assert_eq!(json_step(&list, &Value::Int(-1), &facts), Ok(Some(Json::Null)));
    assert_eq!(json_step(&list, &Value::Int(2), &facts), Ok(None));
    assert_eq!(json_step(&document(), &text("z"), &facts), Ok(None));
    assert_eq!(
        apply_json_array_op(
            ScalarBinaryOp::JsonHasKey,
            &Value::Jsonb(document()),
            &text("b"),
            &facts
        ),
        Ok(Value::Bool(true))
    );
    assert_eq!(
        apply_json_array_op(
            ScalarBinaryOp::JsonHasAllKeys,
            &Value::Jsonb(document()),
            &Value::Array(vec![text("b"), text("c")]),
            &facts
        ),
        Ok(Value::Bool(false))
    );
}

#[test]
fn arrows_read_a_json_value() {
    let written = || Value::Json("{\"b\": 1,  \"a\": [1, 2]}".to_string());
    let one = || Json::Number("1".to_string());
    let list = || Json::Array(vec![one(), Json::Number("2".to_string())]);
    let parsed = Json::Object(vec![("b".to_string(), one()), ("a".to_string(), list())]);
    let facts = known(vec![
        (Task::ToJson, vec![written()], Value::Jsonb(parsed)),
    ]);
    let read = |op: ScalarBinaryOp, key: Value| {
        apply_json_array_op(op, &written(), &key, &facts).unwrap()
    };
    assert_eq!(read(ScalarBinaryOp::JsonGet, text("a")), Value::Jsonb(list()));
    assert_eq!(read(ScalarBinaryOp::JsonGetText, text("b")), text("1"));
    assert_eq!(read(ScalarBinaryOp::JsonGetText, text("a")), text("[1,2]"));
    assert_eq!(read(ScalarBinaryOp::JsonGetText, text("z")), Value::Null);
    let path = || Value::Array(vec![text("a"), text("0")]);
    assert_eq!(read(ScalarBinaryOp::JsonPath, path()), Value::Jsonb(one()));
    assert_eq!(read(ScalarBinaryOp::JsonPathText, path()), text("1"));
}

#[test]
fn documents_are_written_compact_or_spaced() {
    let doc = Json::Object(vec![
        ("a\"".to_string(), Json::Array(vec![Json::Bool(true), Json::Null])),
        ("b".to_string(), Json::Str("x\ny\\".to_string())),
        ("c".to_string(), Json::Object(vec![])),
        ("d".to_string(), Json::Array(vec![])),
        ("e".to_string(), Json::Number("1.50".to_string())),
    ]);
    assert_eq!(
        compact_text(&doc),
        r#"{"a\"":[true,null],"b":"x\ny\\","c":{},"d":[],"e":1.50}"#
    );
    assert_eq!(
        spaced_text(&doc),
        r#"{"a\"": [true, null], "b": "x\ny\\", "c": {}, "d": [], "e": 1.50}"#
    );
    assert_eq!(compact_text(&Json::Bool(false)), "false");
}

#[test]
fn a_state_is_handed_from_child_to_child() {
    let e = ScalarExpr::Function {
        name: "F".to_string(),
        args: vec![*column("a"), *column("b"), *constant(Value::Int(7))],
    };
    let (seen, numbered) = e.map_children_with(Vec::new(), |mut seen: Vec<String>, c: &ScalarExpr| {
        let at = seen.len() as i64;
        seen.push(match c {
            ScalarExpr::Column(name) => name.clone(),
            _ => "constant".to_string(),
        });
        (seen, ScalarExpr::Literal(Value::Int(at)))
    });
    assert_eq!(seen, vec!["a", "b", "constant"]);
    let ScalarExpr::Function { name, args } = numbered else {
        panic!("another node");
    };
    assert_eq!(name, "F");
    for (i, arg) in args.iter().enumerate() {
        assert!(matches!(arg, ScalarExpr::Literal(Value::Int(n)) if *n == i as i64));
    }
    assert_eq!(args.len(), 3);
}

// Dates ---------------------------------------------------------------------

/// The days from the first of the common era to the first of March 2024.
const MARCH: i64 = 738946;

fn day(text_form: &str, number: i64) -> (Task, Vec<Value>, Value) {
    (
        Task::Temporal,
        vec![text(text_form)],
        Value::Array(vec![
            Value::Int(number),
            Value::Int(0),
            Value::Int(0),
            Value::Bool(false),
            Value::Bool(false),
        ]),
    )
}

#[test]
fn dates_move_by_days_and_months() {
    assert_eq!(text_of_day(MARCH as i128), Ok("2024-03-01".to_string()));
    assert_eq!(text_of_day(1), Ok("0001-01-01".to_string()));
    assert_eq!(raised(text_of_day(i128::MAX)), "date out of range");
    let facts = known(vec![
        day("2024-03-01", MARCH),
        day("2024-01-31", MARCH - 30),
        day("2024-02-29", MARCH - 1),
    ]);
    let moved = |t: &str, months: i64, days: i64| apply_date_offset(&text(t), months, days, 0, &facts);
    assert_eq!(moved("2024-03-01", 0, -1), Ok(text("2024-02-29")));
    assert_eq!(moved("2024-01-31", 1, 0), Ok(text("2024-02-29")));
    assert_eq!(moved("2024-02-29", -12, 0), Ok(text("2023-02-28")));
    assert_eq!(moved("2024-02-29", 12, 1), Ok(text("2025-03-01")));
    // Where the calendar ends, the day stays: no number of months wraps around.
    assert_eq!(moved("2024-02-29", 1 << 32, 0), Ok(text("2024-02-29")));
    assert_eq!(moved("2024-02-29", (1 << 32) + 1, 1), Ok(text("2024-03-01")));
    assert_eq!(moved("2024-02-29", -(1 << 32) - 1, 0), Ok(text("2024-02-29")));
    assert_eq!(moved("2024-02-29", i64::MIN, 0), Ok(text("2024-02-29")));
    assert_eq!(moved("2024-02-29", 4_000_000_000, 0), Ok(text("2024-02-29")));
    assert_eq!(apply_date_offset(&Value::Null, 1, 0, 0, &facts), Ok(Value::Null));
    assert_eq!(
        apply_binary_op(ScalarBinaryOp::Sub, text("2024-03-01"), text("2024-01-31"), &facts),
        Ok(Value::Int(30))
    );
    assert_eq!(
        apply_binary_op(ScalarBinaryOp::Add, text("2024-01-31"), Value::Int(1), &facts),
        Ok(text("2024-02-01"))
    );
}

#[test]
fn fields_are_extracted_from_dates() {
    let facts = Facts::none();
    let field = |f: &str| extract_datetime_field(&text("2024-03-05 10:20:30"), f, &facts);
    assert_eq!(field("YEAR"), Ok(Value::Int(2024)));
    assert_eq!(field("MONTH"), Ok(Value::Int(3)));
    assert_eq!(field("DAY"), Ok(Value::Int(5)));
    assert_eq!(field("HOUR"), Ok(Value::Int(10)));
    assert_eq!(field("MINUTE"), Ok(Value::Int(20)));
    assert_eq!(field("EPOCHS"), Ok(Value::Null));
}
