use nodus_executor::arrange::{keep_distinct, slice_rows};
use nodus_executor::facts::{ColumnType, Facts, Halt, Request, Task, TypeInfo};
use nodus_executor::filter_ranges::check_filter_integer_ranges;
use nodus_executor::frames::{frame_bounds, ntile_bucket};
use nodus_executor::grouping::{group_rows, rank_lists};
use nodus_executor::join::{join_rows, named_pairs, source_relation, Relation, RightSide};
use nodus_executor::ordering::{order_cells, sort_by_keys, KeyOrder};
use nodus_executor::plan_types::{
    aggregate_op, AggregateOp, CompareOp, FilterExpr, Operand, Predicate, ScalarExpr, SortKey,
    SortTarget, SubqueryKind, TableFnSpec, WindowBound, WindowFrame, WindowFrameUnits,
};
use nodus_executor::recursion::{recursive_columns, Recursion};
use nodus_executor::render::Rank;
use nodus_executor::result_types::ColumnTypes;
use nodus_executor::rows::{QueryOutput, Row};
use nodus_executor::set_ops::{scalar_subquery_value, select_literal, select_tag_text, LiteralItem};
use nodus_executor::subqueries::{column_references, contains_subquery, subquery_value};
use nodus_executor::table_functions::{
    exec_table_function, generate_series_rows, piece_rows, unnest_rows,
};
use nodus_executor::value::Value;
use nodus_executor::values_list::exec_values;
use nodus_executor::window::window_column;

fn ints(row: &[i64]) -> Vec<Value> {
    row.iter().map(|n| Value::Int(*n)).collect()
}

fn column_of(values: &[i64]) -> Vec<Vec<Value>> {
    values.iter().map(|n| vec![Value::Int(*n)]).collect()
}

fn names(list: &[&str]) -> Vec<String> {
    list.iter().map(|s| s.to_string()).collect()
}

fn text(t: &str) -> Value {
    Value::Text(t.to_string())
}

fn output(rows: Vec<Vec<Value>>, columns: &[&str]) -> QueryOutput {
    QueryOutput {
        columns: names(columns),
        types: columns.iter().map(|_| "INTEGER".to_string()).collect(),
        rows: rows.into_iter().map(|values| Row { values }).collect(),
        tag: "SELECT".to_string(),
    }
}

// Order ---------------------------------------------------------------------

#[test]
fn sorting_is_stable_and_places_nulls() {
    let facts = Facts::none();
    let keys = vec![
        vec![Value::Int(2)],
        vec![Value::Null],
        vec![Value::Int(1)],
        vec![Value::Int(2)],
    ];
    let by = |ascending: bool, nulls_first: Option<bool>| {
        sort_by_keys(&keys, &vec![KeyOrder::Directed { ascending, nulls_first }], &facts).unwrap()
    };
    assert_eq!(by(true, None), vec![2, 0, 3, 1]);
    assert_eq!(by(false, None), vec![1, 0, 3, 2]);
    assert_eq!(by(true, Some(true)), vec![1, 2, 0, 3]);
    assert_eq!(
        order_cells(&Value::Null, &Value::Int(1), true, None, &facts),
        Ok(Rank::Greater)
    );
    assert_eq!(
        order_cells(&Value::Int(1), &Value::Int(2), false, None, &facts),
        Ok(Rank::Greater)
    );
}

#[test]
fn a_legacy_key_becomes_a_sort_key() {
    let key = SortKey::from_legacy(("a".to_string(), false, Some(true)));
    assert!(!key.ascending);
    assert_eq!(key.nulls_first, Some(true));
    assert!(matches!(key.target, SortTarget::Name(n) if n == "a"));
}

#[test]
fn slices_and_distinct_rows() {
    let rows = column_of(&[1, 2, 3, 4]);
    assert_eq!(slice_rows(&rows, Some(1), Some(2)), column_of(&[2, 3]));
    assert_eq!(slice_rows(&rows, Some(9), None), column_of(&[]));
    // What a slice keeps comes from the first `offset + limit` rows.
    let prefix = column_of(&[1, 2, 3]);
    assert_eq!(slice_rows(&prefix, Some(1), Some(2)), slice_rows(&rows, Some(1), Some(2)));
    let mut facts = Facts::none();
    let twice = column_of(&[1, 2, 1]);
    let kept = loop {
        match keep_distinct(&twice, &facts) {
            Ok(kept) => break kept,
            Err(Halt::Needs(q)) => {
                let form = Ok(q.args[0].duplicate());
                facts.answers.push((q, form));
            }
            Err(other) => panic!("{other:?}"),
        }
    };
    assert_eq!(kept, column_of(&[1, 2]));
}

// Groups --------------------------------------------------------------------

#[test]
fn rows_are_grouped_by_their_keys_in_order() {
    let rows = column_of(&[1, 2, 3, 4]);
    let keys = vec![names(&["b"]), names(&["a"]), names(&["b"]), names(&["c"])];
    assert_eq!(
        group_rows(keys, &rows),
        vec![column_of(&[2]), column_of(&[1, 3]), column_of(&[4])]
    );
    assert_eq!(rank_lists(&names(&["a"]), &names(&["a", "b"])), Rank::Less);
    assert_eq!(rank_lists(&names(&["a"]), &names(&["a"])), Rank::Equal);
}

#[test]
fn aggregates_are_known_by_name() {
    assert_eq!(aggregate_op("SUM"), Some(AggregateOp::Sum));
    assert_eq!(aggregate_op("sum"), None);
    assert_eq!(AggregateOp::StringAgg.sql_name(), "string_agg");
    assert_eq!(AggregateOp::StringAgg.arity(), 2);
    assert_eq!(AggregateOp::Count.arity(), 1);
}

// Windows -------------------------------------------------------------------

#[test]
fn frames_are_bounded_by_the_partition() {
    let keys = column_of(&[1, 1, 2, 3]);
    let frame = |units, start, end| WindowFrame { units, start, end };
    let rows = frame(
        WindowFrameUnits::Rows,
        WindowBound::Preceding(1),
        WindowBound::Following(1),
    );
    assert_eq!(frame_bounds(&rows, 4, 0, &keys, 0), Some((0, 1)));
    assert_eq!(frame_bounds(&rows, 4, 3, &keys, 0), Some((2, 3)));
    let range = frame(
        WindowFrameUnits::Range,
        WindowBound::UnboundedPreceding,
        WindowBound::CurrentRow,
    );
    assert_eq!(frame_bounds(&range, 4, 0, &keys, 0), Some((0, 1)));
    let empty = frame(
        WindowFrameUnits::Rows,
        WindowBound::Following(3),
        WindowBound::UnboundedFollowing,
    );
    assert_eq!(frame_bounds(&empty, 4, 2, &keys, 0), None);
    let buckets: Vec<usize> = (0..7).map(|i| ntile_bucket(3, 7, i)).collect();
    assert_eq!(buckets, vec![1, 1, 1, 2, 2, 3, 3]);
}

#[test]
fn ranks_number_the_peers() {
    let rows = column_of(&[10, 10, 20]);
    let run = |f: &str| {
        let mut facts = Facts::none();
        loop {
            match window_column(
                f,
                &vec![],
                &vec![],
                &vec![("t.a".to_string(), true)],
                &None,
                &names(&["t.a"]),
                &rows,
                &facts,
            ) {
                Ok(v) => return v,
                Err(Halt::Needs(q)) => {
                    let a = match q.task {
                        Task::ColumnPosition => Value::Int(0),
                        _ => panic!("{q:?}"),
                    };
                    facts.answers.push((q, Ok(a)));
                }
                Err(other) => panic!("{other:?}"),
            }
        }
    };
    assert_eq!(run("RANK"), ints(&[1, 1, 3]));
    assert_eq!(run("DENSE_RANK"), ints(&[1, 1, 2]));
    assert_eq!(run("ROW_NUMBER"), ints(&[1, 2, 3]));
}

// Joins ---------------------------------------------------------------------

#[test]
fn joins_pair_rows_and_pad_the_rest() {
    let left = column_of(&[1, 2]);
    let right_rows = column_of(&[1, 3]);
    let right = RightSide::Shared(&right_rows);
    // The verdicts on the pairs (1, 1), (1, 3), (2, 1), (2, 3).
    let verdicts = vec![
        Value::Bool(true),
        Value::Bool(false),
        Value::Bool(false),
        Value::Null,
    ];
    assert_eq!(
        join_rows(&left, &right, &verdicts, false, 1),
        vec![ints(&[1, 1])]
    );
    assert_eq!(
        join_rows(&left, &right, &verdicts, true, 1),
        vec![ints(&[1, 1]), vec![Value::Int(2), Value::Null]]
    );
    assert_eq!(
        named_pairs(true, &vec![], &names(&["a.x", "a.y"]), &names(&["b.y", "b.z"])),
        vec![(1, 2)]
    );
    assert_eq!(
        named_pairs(false, &names(&["X"]), &names(&["a.x"]), &names(&["b.x"])),
        vec![(0, 1)]
    );
    let r = source_relation(
        "t",
        &Relation { columns: names(&["a"]), types: names(&["INT"]), rows: column_of(&[1]) },
    );
    assert_eq!(r.columns, names(&["t.a"]));
}

// Recursion and set operations ----------------------------------------------

#[test]
fn recursion_stops_when_nothing_is_new() {
    let mut r = Recursion::start(false, &column_of(&[1]));
    assert_eq!(r.next_step(), Ok(true));
    r.absorb(false, &column_of(&[1, 2, 2]));
    assert_eq!(r.working, column_of(&[2]));
    assert_eq!(r.result, column_of(&[1, 2]));
    assert_eq!(r.next_step(), Ok(true));
    r.absorb(false, &column_of(&[2]));
    assert_eq!(r.next_step(), Ok(false));
    let mut all = Recursion::start(true, &column_of(&[1]));
    all.absorb(true, &column_of(&[1, 1]));
    assert_eq!(all.result.len(), 3);
    assert_eq!(recursive_columns(&names(&["x"]), &names(&["a", "b"])), names(&["x"]));
    assert_eq!(recursive_columns(&vec![], &names(&["a", "b"])), names(&["a", "b"]));
}

#[test]
fn equal_seed_rows_are_one_under_union() {
    let mut r = Recursion::start(false, &column_of(&[1, 1, 2, 1]));
    assert_eq!(r.result, column_of(&[1, 2]));
    assert_eq!(r.working, column_of(&[1, 2]));
    r.absorb(false, &column_of(&[2, 3, 3, 1]));
    assert_eq!(r.result, column_of(&[1, 2, 3]));
    let all = Recursion::start(true, &column_of(&[1, 1]));
    assert_eq!(all.result, column_of(&[1, 1]));
    assert_eq!(all.working, column_of(&[1, 1]));
}

#[test]
fn recursion_has_an_end() {
    let mut r = Recursion::start(false, &column_of(&[1]));
    let mut steps = 0;
    let error = loop {
        match r.next_step() {
            Ok(true) => {
                steps += 1;
                let one = column_of(&[1]);
                r.working = one;
            }
            Ok(false) => panic!("it stopped by itself"),
            Err(m) => break m,
        }
    };
    assert_eq!(steps, 10_000);
    assert_eq!(error, "WITH RECURSIVE did not terminate within 10000 iterations");
}

#[test]
fn literal_rows_and_scalar_subqueries() {
    let item = |alias: &str, value: Value| LiteralItem {
        alias: alias.to_string(),
        value,
        type_hint: None,
    };
    let out = select_literal(vec![item("a", Value::Int(1)), item("b", text("x"))], true);
    assert_eq!(out.columns, names(&["a", "b"]));
    assert_eq!(out.rows.len(), 1);
    assert_eq!(out.tag, "SELECT 1");
    assert!(select_literal(vec![item("a", Value::Int(1))], false).rows.is_empty());
    assert_eq!(select_tag_text(12), "SELECT 12");
    assert_eq!(scalar_subquery_value(&output(vec![], &["a"])), Ok(Value::Null));
    assert_eq!(
        scalar_subquery_value(&output(column_of(&[5]), &["a"])),
        Ok(Value::Int(5))
    );
    assert_eq!(
        scalar_subquery_value(&output(column_of(&[5, 6]), &["a"])).unwrap_err(),
        "more than one row returned by a subquery used as an expression"
    );
    assert_eq!(
        subquery_value(SubqueryKind::Exists, &output(vec![], &["a"])),
        Ok(Value::Bool(false))
    );
    assert_eq!(
        subquery_value(SubqueryKind::Array, &output(column_of(&[1, 2]), &["a"])),
        Ok(Value::Array(ints(&[1, 2])))
    );
    let e = ScalarExpr::Column("a".to_string());
    assert_eq!(column_references(&e), names(&["a"]));
    assert!(!contains_subquery(&e));
}

// Table functions and VALUES -------------------------------------------------

#[test]
fn series_count_by_their_step() {
    let facts = Facts::none();
    let series = |a: &[i64]| generate_series_rows(&ints(a), &facts).map(|r| r.1);
    assert_eq!(series(&[1, 3]), Ok(column_of(&[1, 2, 3])));
    assert_eq!(series(&[3, 1, -2]), Ok(column_of(&[3, 1])));
    assert_eq!(series(&[3, 1]), Ok(vec![]));
    assert_eq!(series(&[1, 2, 0]), Ok(vec![]));
    assert_eq!(
        series(&[i64::MAX - 1, i64::MAX]),
        Ok(column_of(&[i64::MAX - 1, i64::MAX]))
    );
}

#[test]
fn arrays_unnest_side_by_side() {
    let facts = Facts::none();
    let a = Value::Array(ints(&[1, 2]));
    let b = Value::Array(vec![text("x")]);
    let (_, rows) = unnest_rows(&vec![a, b], &facts).unwrap();
    assert_eq!(
        rows,
        vec![vec![Value::Int(1), text("x")], vec![Value::Int(2), Value::Null]]
    );
    assert_eq!(
        piece_rows("a,b".to_string(), Some(names(&["a", "b"]))),
        vec![vec![text("a")], vec![text("b")]]
    );
    assert_eq!(piece_rows("a".to_string(), None), vec![vec![text("a")]]);
}

fn function(name: &str, args: Vec<Operand>) -> TableFnSpec {
    TableFnSpec {
        name: name.to_string(),
        args,
        with_ordinality: false,
        alias: None,
        column_aliases: vec![],
        arg_exprs: vec![],
        rows_from: vec![],
    }
}

#[test]
fn unknown_table_functions_are_refused() {
    let spec = function("frobnicate", vec![]);
    assert!(matches!(exec_table_function(&spec, &Facts::none()), Err(Halt::Raised(_))));
    assert!(function("generate_series", vec![]).returns_scalar());
    assert!(!spec.returns_scalar());
}

#[test]
fn values_lists_agree_on_a_type() {
    let cell = |v: Value| ScalarExpr::Literal(v);
    let mut facts = Facts::none();
    for (name, category) in [("INTEGER", ColumnType::Int), ("TEXT", ColumnType::Text)] {
        facts.types.push((
            name.to_string(),
            TypeInfo {
                category,
                element: None,
                shown: name.to_lowercase(),
                temporal: false,
            },
        ));
    }
    let out = exec_values(
        &vec![vec![cell(Value::Int(1)), cell(text("a"))], vec![cell(Value::Null), cell(text("b"))]],
        &facts,
    )
    .unwrap();
    assert_eq!(out.columns, names(&["column1", "column2"]));
    assert_eq!(out.rows.len(), 2);
    assert_eq!(out.rows[1].values, vec![Value::Null, text("b")]);
    assert_eq!(out.tag, "SELECT 2");
}

// Integer ranges ------------------------------------------------------------

#[test]
fn a_filter_beyond_a_column_range_is_refused() {
    let columns = ColumnTypes {
        names: names(&["a"]),
        types: names(&["SMALLINT"]),
        suffixes: false,
    };
    let filter = FilterExpr::Predicate(Predicate {
        left: "a".to_string(),
        op: CompareOp::Eq,
        right: Operand::Literal(Value::Int(5)),
    });
    let r = check_filter_integer_ranges(&filter, &columns, &Facts::none());
    assert!(matches!(r, Ok(FilterExpr::Predicate(p)) if p.left == "a"));
}

#[test]
fn answers_are_found_by_their_request() {
    let mut facts = Facts::none();
    let q = || Request { task: Task::Equal, args: ints(&[1, 2]) };
    assert_eq!(
        facts.ask(Task::Equal, ints(&[1, 2])),
        Err(Halt::Needs(q()))
    );
    facts.answers.push((q(), Ok(Value::Bool(true))));
    assert_eq!(facts.ask(Task::Equal, ints(&[1, 2])), Ok(Value::Bool(true)));
    assert!(facts.ask(Task::Equal, ints(&[2, 1])).is_err());
    facts.answers.push((
        Request { task: Task::Render, args: vec![] },
        Err("no text".to_string()),
    ));
    assert_eq!(
        facts.ask(Task::Render, vec![]),
        Err(Halt::Raised("no text".to_string()))
    );
}
