//! Statements from their SQL text to their rows: each is parsed, planned, and
//! run over small tables held in memory. What the library asks for (floating
//! point, functions, aggregates, conditions) is answered here.

use std::cell::RefCell;
use std::collections::HashMap;

use nodus_executor::alterations::rename_column;
use nodus_executor::cast::try_cast;
use nodus_executor::catalog::{ColumnInfo, IndexInfo, IndexKey};
use nodus_executor::codes::{code_of_comparison, code_of_expr, code_of_filter};
use nodus_executor::facts::{ColumnType, Facts, Halt, Request, Task, TypeInfo};
use nodus_executor::join::{source_relation, Relation};
use nodus_executor::json_ops::find_member;
use nodus_executor::json_text::{compact_text, spaced_text};
use nodus_executor::literal_select::exec_select_literal;
use nodus_executor::plan_merge::plan_merge;
use nodus_executor::plan_statement::{plan_copy_out, plan_statement, CopyOutputFormat};
use nodus_executor::plan_types::{
    AggregateOp, AlterTableOp, CompareOp, ConflictTarget, DeferredItem, FilterExpr, LogicalPlan,
    MergeAction, MergeKind, OnConflictClause, Operand, Predicate, ProjectionItem, ReturningExpr,
    ScalarBinaryOp, ScalarExpr, SelectPlan, SortTarget,
};
use nodus_executor::recursion::{recursive_columns, Recursion};
use nodus_executor::render::render;
use nodus_executor::result_types::{check_integer_ranges, ColumnTypes};
use nodus_executor::returning::{returned_columns, returned_row};
use nodus_executor::rows::{QueryOutput, Row};
use nodus_executor::scalar_ops::apply_binary_op;
use nodus_executor::select::{exec_select, relation_rows, scan_cap, JoinInput};
use nodus_executor::set_functions::with_set_functions;
use nodus_executor::set_ops::set_op_output;
use nodus_executor::streaming::{begin_stream, is_streamable, send_output, SinkCall};
use nodus_executor::subqueries::eval_scalar_expr;
use nodus_executor::syntax as ast;
use nodus_executor::table_functions::exec_table_function;
use nodus_executor::table_sources::{find_indexes, named_relation};
use nodus_executor::value::{Json, Value};
use sqlparser::ast as sql;
use sqlparser::dialect::PostgreSqlDialect;
use sqlparser::parser::Parser;

// Answers -------------------------------------------------------------------

fn float(v: &Value) -> Option<f64> {
    match v {
        Value::Int(i) => Some(*i as f64),
        Value::Float(b) => Some(f64::from_bits(*b)),
        Value::Text(t) => t.trim().parse().ok(),
        _ => None,
    }
}

fn number(x: f64) -> Value {
    Value::Float(x.to_bits())
}

fn shown(v: &Value) -> String {
    match v {
        Value::Float(b) => format!("{}", f64::from_bits(*b)),
        Value::Array(items) => match fields_of(items) {
            Some(fields) => record_text(&fields),
            None => {
                let parts: Vec<String> = items.iter().map(shown).collect();
                format!("{{{}}}", parts.join(","))
            }
        },
        Value::Null => String::new(),
        Value::Int(i) => i.to_string(),
        Value::Bool(b) => if *b { "t" } else { "f" }.to_string(),
        Value::Text(t) | Value::Json(t) | Value::Numeric(t) => t.clone(),
        Value::Jsonb(j) => spaced_text(j),
    }
}

fn items(v: &Value) -> &[Value] {
    match v {
        Value::Array(items) => items,
        _ => &[],
    }
}

fn text(v: &Value) -> &str {
    match v {
        Value::Text(t) => t,
        _ => "",
    }
}

fn type_info(name: &str) -> TypeInfo {
    let upper = name.trim().to_ascii_uppercase();
    let element = upper.strip_suffix("[]").map(str::to_string);
    let category = if ["INT", "INTEGER", "BIGINT", "SMALLINT", "INT4", "INT8"].contains(&upper.as_str()) {
        ColumnType::Int
    } else if ["FLOAT8", "DOUBLE PRECISION", "REAL", "NUMERIC", "FLOAT"].contains(&upper.as_str()) {
        ColumnType::Float
    } else if ["BOOL", "BOOLEAN"].contains(&upper.as_str()) {
        ColumnType::Bool
    } else {
        ColumnType::Text
    };
    TypeInfo {
        category,
        element,
        shown: match upper.as_str() {
            "INT" | "INT4" => "integer".to_string(),
            other => other.to_ascii_lowercase(),
        },
        temporal: ["DATE", "TIMESTAMP", "TIME", "TIMESTAMPTZ"].contains(&upper.as_str()),
    }
}

fn to_json(v: &serde_json::Value) -> Json {
    match v {
        serde_json::Value::Null => Json::Null,
        serde_json::Value::Bool(b) => Json::Bool(*b),
        serde_json::Value::Number(n) => Json::Number(n.to_string()),
        serde_json::Value::String(s) => Json::Str(s.clone()),
        serde_json::Value::Array(items) => Json::Array(items.iter().map(to_json).collect()),
        serde_json::Value::Object(members) => {
            Json::Object(members.iter().map(|(k, v)| (k.clone(), to_json(v))).collect())
        }
    }
}

/// The texts of the elements of a JSON array.
fn top_level(t: &str) -> Vec<Value> {
    let inner = t.trim().trim_start_matches('[').trim_end_matches(']');
    let (mut parts, mut depth, mut part) = (Vec::new(), 0, String::new());
    for c in inner.chars() {
        match c {
            '{' | '[' => depth += 1,
            '}' | ']' => depth -= 1,
            _ => {}
        }
        if c == ',' && depth == 0 {
            parts.push(Value::Text(part.trim().to_string()));
            part = String::new();
        } else {
            part.push(c);
        }
    }
    parts.push(Value::Text(part.trim().to_string()));
    parts
}

fn call_function(name: &str, args: &[Value]) -> Result<Value, String> {
    let t = |i: usize| shown(&args[i]);
    Ok(match name {
        "UPPER" => Value::Text(t(0).to_uppercase()),
        "LOWER" => Value::Text(t(0).to_lowercase()),
        "LENGTH" => Value::Int(t(0).chars().count() as i64),
        "SUBSTR" => {
            let from = float(&args[1]).unwrap_or(1.0) as usize;
            let rest = t(0).chars().skip(from - 1).collect::<String>();
            match args.get(2) {
                Some(n) => Value::Text(rest.chars().take(float(n).unwrap_or(0.0) as usize).collect()),
                None => Value::Text(rest),
            }
        }
        "COALESCE" => match args.iter().find(|a| !a.is_null()) {
            Some(v) => v.duplicate(),
            None => Value::Null,
        },
        "CONCAT" => Value::Text(args.iter().map(shown).collect()),
        "TO_JSON" | "ROW_TO_JSON" => Value::Json(json_text(&args[0])),
        "TO_JSONB" => match serde_json::from_str(&json_text(&args[0])) {
            Ok(parsed) => Value::Jsonb(to_json(&parsed)),
            Err(e) => return Err(e.to_string()),
        },
        "JSON_BUILD_OBJECT" => {
            let parts: Vec<String> = args
                .chunks(2)
                .map(|pair| format!("{} : {}", json_text(&pair[0]), json_text(&pair[1])))
                .collect();
            Value::Json(format!("{{{}}}", parts.join(", ")))
        }
        "REPLACE" => Value::Text(t(0).replace(&t(1), &t(2))),
        "ROUND" => {
            let scale = 10f64.powf(args.get(1).and_then(float).unwrap_or(0.0));
            number((float(&args[0]).unwrap_or(0.0) * scale).round() / scale)
        }
        "MERGE_ACTION" => {
            return Err("MERGE_ACTION() can only be used in the RETURNING list of a MERGE command"
                .to_string())
        }
        other => return Err(format!("function {} does not exist", other.to_lowercase())),
    })
}

const FUNCTIONS: [&str; 16] = [
    "UPPER", "LOWER", "LENGTH", "SUBSTR", "COALESCE", "CONCAT", "REPLACE", "ROUND", "UNNEST",
    "GENERATE_SERIES", "MERGE_ACTION", "TO_JSON",
    "ROW_TO_JSON", "TO_JSONB", "JSON_BUILD_OBJECT", "PG_TYPEOF",
];

fn aggregate(op: AggregateOp, inputs: &[Value]) -> Value {
    let firsts: Vec<&Value> = inputs
        .iter()
        .map(|i| items(i).first().unwrap_or(&Value::Null))
        .filter(|v| !v.is_null())
        .collect();
    match op {
        AggregateOp::Count => Value::Int(firsts.len() as i64),
        AggregateOp::Sum if firsts.is_empty() => Value::Null,
        AggregateOp::Sum => Value::Int(firsts.iter().filter_map(|v| float(v)).sum::<f64>() as i64),
        AggregateOp::Min => extreme(&firsts, false),
        AggregateOp::Max => extreme(&firsts, true),
        AggregateOp::Avg => {
            let total: f64 = firsts.iter().filter_map(|v| float(v)).sum();
            number(total / firsts.len() as f64)
        }
        _ => Value::Null,
    }
}

fn extreme(values: &[&Value], largest: bool) -> Value {
    let mut best: Option<&Value> = None;
    for v in values {
        let better = match best {
            None => true,
            Some(b) => match (float(v), float(b)) {
                (Some(x), Some(y)) => (x > y) == largest && x != y,
                _ => (shown(v) > shown(b)) == largest,
            },
        };
        if better {
            best = Some(v);
        }
    }
    best.map_or(Value::Null, Value::duplicate)
}

/// The position of a column by its name, or by the name without a qualifier.
fn position(names: &[String], name: &str) -> Option<usize> {
    names.iter().position(|n| n == name).or_else(|| {
        names.iter().position(|n| {
            n.ends_with(&format!(".{name}")) || name.ends_with(&format!(".{n}"))
        })
    })
}

/// The column, operator, and key of a reference such as `doc->>'key'`.
fn json_reference(name: &str) -> Value {
    for op in ["->>", "->"] {
        if let Some((column, key)) = name.split_once(op) {
            let parts = [column, op, key.trim_matches('\'')];
            return Value::Array(parts.iter().map(|p| Value::Text(p.to_string())).collect());
        }
    }
    Value::Null
}

/// What a JSON access reads from a document or its text.
fn json_extract(v: &Value, op: &str, key: &str) -> Value {
    let doc = match v {
        Value::Jsonb(j) => j.duplicate(),
        other => match serde_json::from_str(text(other)) {
            Ok(parsed) => to_json(&parsed),
            Err(_) => return Value::Null,
        },
    };
    let found = match &doc {
        Json::Object(members) => find_member(members, key),
        _ => None,
    };
    match found {
        None => Value::Null,
        Some(Json::Str(s)) if op == "->>" => Value::Text(s),
        Some(j) if op == "->>" => Value::Text(compact_text(&j)),
        Some(j) => Value::Jsonb(j),
    }
}

/// The row of a relation: that of a function is its value, any other a record,
/// kept as a document.
fn relation_row(relation: &str, names: &[String], row: &[Value]) -> Value {
    let fields: Vec<(String, &Value)> = names
        .iter()
        .zip(row)
        .filter_map(|(n, v)| {
            let name = n.strip_prefix(&format!("{relation}."))?;
            Some((name.to_string(), v))
        })
        .collect();
    match fields.as_slice() {
        [] => Value::Null,
        [(name, v)] if name == "value" => v.duplicate(),
        _ => {
            let pairs = fields
                .into_iter()
                .map(|(name, v)| Value::Array(vec![Value::Text(name), v.duplicate()]));
            let mark = Value::Text(RECORD.to_string());
            Value::Array(std::iter::once(mark).chain(pairs).collect())
        }
    }
}

/// What a record starts with, kept as an array of its names and fields.
const RECORD: &str = "\u{1}record";

fn fields_of(values: &[Value]) -> Option<Vec<(&str, &Value)>> {
    match values.split_first() {
        Some((Value::Text(mark), pairs)) if mark == RECORD => {
            Some(pairs.iter().map(|p| (text(&items(p)[0]), &items(p)[1])).collect())
        }
        _ => None,
    }
}

/// A record's text: its fields in parentheses, in quotes where they hold a
/// space, NULL as nothing.
fn record_text(fields: &[(&str, &Value)]) -> String {
    let fields: Vec<String> = fields
        .iter()
        .map(|(_, v)| {
            let t = shown(v);
            if t.contains(' ') { format!("\"{t}\"") } else { t }
        })
        .collect();
    format!("({})", fields.join(","))
}

/// A value as JSON text: JSON values as they are written.
fn json_text(v: &Value) -> String {
    let quoted = |t: &str| compact_text(&Json::Str(t.to_string()));
    match v {
        Value::Null => "null".to_string(),
        Value::Bool(b) => b.to_string(),
        Value::Int(_) | Value::Float(_) | Value::Numeric(_) | Value::Json(_) => shown(v),
        Value::Text(t) => quoted(t),
        Value::Jsonb(j) => compact_text(j),
        Value::Array(items) => match fields_of(items) {
            Some(fields) => {
                let parts: Vec<String> = fields
                    .iter()
                    .map(|(name, v)| format!("{}:{}", quoted(name), json_text(v)))
                    .collect();
                format!("{{{}}}", parts.join(","))
            }
            None => {
                let parts: Vec<String> = items.iter().map(json_text).collect();
                format!("[{}]", parts.join(","))
            }
        },
    }
}

fn plain_answer(q: &Request) -> Result<Value, String> {
    let args = &q.args;
    Ok(match &q.task {
        Task::Render => Value::Text(shown(&args[0])),
        Task::Order => match (float(&args[0]), float(&args[1])) {
            (Some(x), Some(y)) => Value::Int(if x < y { -1 } else if x > y { 1 } else { 0 }),
            _ => {
                let (x, y) = (shown(&args[0]), shown(&args[1]));
                Value::Int(if x < y { -1 } else if x > y { 1 } else { 0 })
            }
        },
        Task::Equal if args[0].is_null() || args[1].is_null() => Value::Bool(false),
        Task::Equal => Value::Bool(match (float(&args[0]), float(&args[1])) {
            (Some(x), Some(y)) => x == y,
            _ => shown(&args[0]) == shown(&args[1]),
        }),
        Task::KeyForm => args[0].duplicate(),
        Task::GroupKey => Value::Text(format!("{:?}", args[0])),
        Task::ToFloat => float(&args[0]).map_or(Value::Null, number),
        Task::RoundToInt => Value::Int(float(&args[0]).unwrap_or(0.0).round_ties_even() as i64),
        Task::Truncate => Value::Int(float(&args[0]).unwrap_or(0.0) as i64),
        Task::Arithmetic(op) => {
            let (x, y) = (float(&args[0]).unwrap_or(0.0), float(&args[1]).unwrap_or(0.0));
            number(match op {
                ScalarBinaryOp::Add => x + y,
                ScalarBinaryOp::Sub => x - y,
                ScalarBinaryOp::Mul => x * y,
                ScalarBinaryOp::Div => x / y,
                _ => x % y,
            })
        }
        Task::Call(name) => return call_function(name, args),
        Task::KnownFunction => Value::Bool(FUNCTIONS.contains(&text(&args[0]))),
        Task::LiteralArgument => Value::Text(format!("'{}'", shown(&args[0]))),
        Task::ColumnPosition => {
            let names: Vec<String> = items(&args[0]).iter().map(shown).collect();
            position(&names, text(&args[1])).map_or(Value::Null, |i| Value::Int(i as i64))
        }
        Task::JsonReference => json_reference(text(&args[0])),
        Task::JsonExtract => json_extract(&args[0], text(&args[1]), text(&args[2])),
        Task::RelationRow => {
            let names: Vec<String> = items(&args[1]).iter().map(shown).collect();
            relation_row(text(&args[0]), &names, items(&args[2]))
        }
        Task::Operand(_) if args[3] == Value::Bool(true) => {
            let names: Vec<String> = items(&args[0]).iter().map(shown).collect();
            column_value(&names, items(&args[2]), text(&args[4]))
        }
        Task::Operand(_) => args[4].duplicate(),
        Task::CheckColumns => Value::Bool(true),
        Task::Aggregate(op) => aggregate(*op, args),
        Task::ParseJson => serde_json::from_str(text(&args[0]))
            .map_or(Value::Null, |v: serde_json::Value| Value::Jsonb(to_json(&v))),
        // A flat array literal.
        Task::ArrayOf(_) => {
            let inner = text(&args[0]).trim_start_matches('{').trim_end_matches('}');
            let parts = inner.split(',').filter(|p| !p.is_empty());
            Value::Array(parts.map(|p| Value::Text(p.to_string())).collect())
        }
        Task::JsonElements => Value::Array(top_level(text(&args[0]))),
        Task::TypeDisplay => Value::Text(type_info(text(&args[0])).shown),
        Task::ToJson => match serde_json::from_str(&shown(&args[0])) {
            Ok(parsed) => Value::Jsonb(to_json(&parsed)),
            Err(_) => Value::Null,
        },
        Task::Temporal | Task::ReturnType(_) => Value::Null,
        other => panic!("no answer to {other:?}"),
    })
}

/// Runs `f`, answering what it asks for until it is done.
fn settle<T>(
    f: impl Fn(&Facts) -> Result<T, Halt>,
    answer: &dyn Fn(&Request) -> Result<Value, String>,
) -> Result<T, String> {
    let mut facts = Facts::none();
    loop {
        match f(&facts) {
            Ok(v) => return Ok(v),
            Err(Halt::Raised(m)) => return Err(m),
            Err(Halt::Needs(q)) => {
                let a = answer(&q);
                facts.answers.push((q, a));
            }
            Err(Halt::NeedsType(t)) => {
                let info = type_info(&t);
                facts.types.push((t, info));
            }
        }
    }
}

// Conditions and expressions ------------------------------------------------

fn eval(e: &ScalarExpr, names: &[String], row: &[Value]) -> Result<Value, String> {
    let row: Vec<Value> = row.iter().map(Value::duplicate).collect();
    settle(|facts| eval_scalar_expr(e, &row, &names.to_vec(), facts), &plain_answer)
}

/// The value of an expression over a group: its aggregates over all rows, its
/// columns from the first.
fn eval_group(e: &ScalarExpr, names: &[String], rows: &[Vec<Value>]) -> Result<Value, String> {
    let first: Vec<Value> = match rows.first() {
        Some(r) => r.iter().map(Value::duplicate).collect(),
        None => names.iter().map(|_| Value::Null).collect(),
    };
    eval(&fill(e, names, rows), names, &first)
}

fn fill(e: &ScalarExpr, names: &[String], rows: &[Vec<Value>]) -> ScalarExpr {
    match e {
        ScalarExpr::Aggregate { op, arg, arg_expr, .. } => {
            ScalarExpr::Literal(aggregate(*op, &aggregate_inputs(arg, arg_expr, names, rows)))
        }
        _ => e.map_children(|c: &ScalarExpr| fill(c, names, rows)),
    }
}

/// What an aggregate reads from each row.
fn aggregate_inputs(
    arg: &str,
    arg_expr: &Option<Box<ScalarExpr>>,
    names: &[String],
    rows: &[Vec<Value>],
) -> Vec<Value> {
    rows.iter()
        .map(|row| {
            let v = match arg_expr {
                Some(x) => eval(x, names, row).unwrap(),
                None if arg == "*" => Value::Int(1),
                None => column_value(names, row, arg),
            };
            Value::Array(vec![v])
        })
        .collect()
}

fn compare(op: CompareOp, l: Value, r: Value) -> bool {
    let op = match op {
        CompareOp::Eq => ScalarBinaryOp::Eq,
        CompareOp::Ne => ScalarBinaryOp::NotEq,
        CompareOp::Lt => ScalarBinaryOp::Lt,
        CompareOp::Le => ScalarBinaryOp::LtEq,
        CompareOp::Gt => ScalarBinaryOp::Gt,
        CompareOp::Ge => ScalarBinaryOp::GtEq,
        CompareOp::Contains => ScalarBinaryOp::Contains,
        CompareOp::ContainedBy => ScalarBinaryOp::ContainedBy,
    };
    let out = settle(
        |facts| apply_binary_op(op, l.duplicate(), r.duplicate(), facts),
        &plain_answer,
    );
    out == Ok(Value::Bool(true))
}

fn column_value(names: &[String], row: &[Value], name: &str) -> Value {
    position(names, name).map_or(Value::Null, |i| row[i].duplicate())
}

fn holds(f: &FilterExpr, names: &[String], row: &[Value]) -> bool {
    match f {
        FilterExpr::Predicate(p) => {
            let right = match &p.right {
                Operand::Literal(v) => v.duplicate(),
                Operand::Ident(n) => column_value(names, row, n),
            };
            compare(p.op, column_value(names, row, &p.left), right)
        }
        FilterExpr::And(a, b) => holds(a, names, row) && holds(b, names, row),
        FilterExpr::Or(a, b) => holds(a, names, row) || holds(b, names, row),
        FilterExpr::Not(a) => !holds(a, names, row),
        FilterExpr::IsNull(c) => column_value(names, row, c).is_null(),
        FilterExpr::IsNotNull(c) => !column_value(names, row, c).is_null(),
        FilterExpr::Scalar(e) => eval(e, names, row) == Ok(Value::Bool(true)),
        FilterExpr::ExprCmp { left, op, right } => compare(
            *op,
            eval(left, names, row).unwrap(),
            eval(right, names, row).unwrap(),
        ),
        FilterExpr::InList { left, list, negated } => {
            let v = column_value(names, row, left);
            let found = list.iter().any(|o| match o {
                Operand::Literal(x) => compare(CompareOp::Eq, v.duplicate(), x.duplicate()),
                Operand::Ident(n) => {
                    compare(CompareOp::Eq, v.duplicate(), column_value(names, row, n))
                }
            });
            found != *negated
        }
        _ => panic!("a condition that these tests do not use"),
    }
}

fn holds_for(f: &FilterExpr, names: &[String], rows: &[Vec<Value>]) -> bool {
    match f {
        FilterExpr::Scalar(e) => eval_group(e, names, rows) == Ok(Value::Bool(true)),
        _ => panic!("a condition on groups is a scalar expression"),
    }
}

/// The part of a plan that a question is about, by its code.
fn part(q: &Request) -> &Value {
    &items(&q.args[0])[0]
}

/// The verdicts on each row of the comparison of a CASE branch.
fn branch_marks(plan: &SelectPlan, q: &Request) -> Option<Value> {
    let branches = plan.projection.iter().filter_map(|item| match item {
        ProjectionItem::Case { branches, .. } => Some(branches),
        _ => None,
    });
    let (p, _) = branches.flatten().find(|(p, _)| &code_of_comparison(p) == part(q))?;
    let names = names_of(&q.args[1]);
    let right = |row: &[Value]| match &p.right {
        Operand::Literal(v) => v.duplicate(),
        Operand::Ident(n) => column_value(&names, row, n),
    };
    let rows = rows_of(&q.args[2]);
    let verdicts = rows
        .iter()
        .map(|r| Value::Bool(compare(p.op, column_value(&names, r, &p.left), right(r))));
    Some(Value::Array(verdicts.collect()))
}

/// The conditions of a plan, by their codes.
fn conditions_of(plan: &SelectPlan) -> Vec<(Value, &FilterExpr)> {
    plan.filter
        .iter()
        .chain(plan.joins.iter().filter_map(|j| j.condition.as_ref()))
        .map(|f| (code_of_filter(f), f))
        .collect()
}

/// The expressions of a plan that may be computed over groups.
fn expressions_of(plan: &SelectPlan) -> Vec<&ScalarExpr> {
    let in_items = plan.projection.iter().filter_map(|item| match item {
        ProjectionItem::Expr { expr, .. } => Some(expr),
        _ => None,
    });
    let in_keys = plan.sort.iter().filter_map(|key| match &key.target {
        SortTarget::Expr(e) => Some(e),
        _ => None,
    });
    in_items.chain(in_keys).collect()
}

/// The verdict on each row of the condition that a question is about.
fn marks(conditions: Vec<(Value, &FilterExpr)>, q: &Request) -> Value {
    let (_, filter) = conditions.iter().find(|(code, _)| code == part(q)).unwrap();
    let names = names_of(&q.args[1]);
    Value::Array(
        rows_of(&q.args[2])
            .iter()
            .map(|r| Value::Bool(holds(filter, &names, r)))
            .collect(),
    )
}

// A small database ----------------------------------------------------------

#[derive(Default)]
struct Db {
    /// What queries over tables have asked for: the kind of each question, and
    /// what it is about.
    asked: RefCell<Vec<(String, Value)>>,
    tables: HashMap<String, (Vec<String>, Vec<String>, Vec<Vec<Value>>)>,
}

fn copy_rows(rows: &[Vec<Value>]) -> Vec<Vec<Value>> {
    rows.iter()
        .map(|r| r.iter().map(Value::duplicate).collect())
        .collect()
}

fn rows_of(v: &Value) -> Vec<Vec<Value>> {
    items(v)
        .iter()
        .map(|r| items(r).iter().map(Value::duplicate).collect())
        .collect()
}

fn names_of(v: &Value) -> Vec<String> {
    items(v).iter().map(shown).collect()
}

impl Db {
    fn create(&mut self, name: &str, columns: &[(&str, &str)]) {
        let names = columns.iter().map(|c| c.0.to_string()).collect();
        let types = columns.iter().map(|c| c.1.to_string()).collect();
        self.tables.insert(name.to_string(), (names, types, Vec::new()));
    }

    fn insert(&mut self, name: &str, row: Vec<Value>) {
        let table = self.tables.get_mut(name).unwrap();
        let cast = row
            .iter()
            .zip(&table.1)
            .map(|(v, t)| {
                match (settle(|facts| try_cast(v, t, facts), &plain_answer).unwrap(), t.as_str()) {
                    (Value::Text(j), "JSON") => Value::Json(j),
                    (Value::Json(j), "TEXT") => Value::Text(j),
                    (v, _) => v,
                }
            })
            .collect();
        table.2.push(cast);
    }

    fn relation(&self, name: &str, ctes: &[(String, Relation)]) -> Relation {
        if let Some((_, r)) = ctes.iter().rev().find(|(n, _)| n == name) {
            return copy_relation(r);
        }
        let (columns, types, rows) = &self.tables[name];
        Relation {
            columns: columns.clone(),
            types: types.clone(),
            rows: copy_rows(rows),
        }
    }

    fn select(&self, plan: &SelectPlan, outer: &[(String, Relation)]) -> Result<QueryOutput, String> {
        let mut ctes: Vec<(String, Relation)> = outer
            .iter()
            .map(|(n, r)| (n.clone(), copy_relation(r)))
            .collect();
        for (name, cte) in &plan.ctes {
            let out = match &**cte {
                LogicalPlan::RecursiveCte { all, column_aliases, seed, recursive_term } => {
                    self.recurse(name, *all, column_aliases, seed, recursive_term, &ctes)?
                }
                other => as_relation(self.run_in(other, &ctes)?),
            };
            ctes.push((name.clone(), out));
        }
        let base = self.relation(&plan.table_name, &ctes);
        self.select_from(plan, &base, &ctes)
    }

    fn select_from(
        &self,
        plan: &SelectPlan,
        base: &Relation,
        ctes: &[(String, Relation)],
    ) -> Result<QueryOutput, String> {
        let inputs: Vec<JoinInput> = plan
            .joins
            .iter()
            .map(|j| match j.table_fn {
                Some(_) => JoinInput::Function,
                None => JoinInput::Table {
                    relation: self.relation(&j.table_name, ctes),
                    is_virtual: false,
                },
            })
            .collect();
        let answer = |q: &Request| -> Result<Value, String> {
            let about = q.args.first().map_or(Value::Null, Value::duplicate);
            self.asked.borrow_mut().push((format!("{:?}", q.task), about));
            match &q.task {
                Task::Conditions => match branch_marks(plan, q) {
                    Some(verdicts) => Ok(verdicts),
                    None => Ok(marks(conditions_of(plan), q)),
                },
                Task::GroupConditions => {
                    let having = plan.having.as_ref().unwrap();
                    assert!(part(q) == &code_of_filter(having));
                    let names = names_of(&q.args[1]);
                    Ok(Value::Array(
                        items(&q.args[2])
                            .iter()
                            .map(|g| Value::Bool(holds_for(having, &names, &rows_of(g))))
                            .collect(),
                    ))
                }
                Task::GroupValues => {
                    let wanted = expressions_of(plan)
                        .into_iter()
                        .find(|e| part(q) == &code_of_expr(e))
                        .unwrap();
                    let names = names_of(&q.args[1]);
                    let mut out = Vec::new();
                    for g in items(&q.args[2]) {
                        out.push(eval_group(wanted, &names, &rows_of(g))?);
                    }
                    Ok(Value::Array(out))
                }
                Task::GroupAggregate(op) => {
                    let names = names_of(&q.args[1]);
                    Ok(Value::Array(
                        items(&q.args[2])
                            .iter()
                            .map(|g| {
                                let arg = text(&q.args[0]);
                                aggregate(*op, &aggregate_inputs(arg, &None, &names, &rows_of(g)))
                            })
                            .collect(),
                    ))
                }
                _ => plain_answer(q),
            }
        };
        settle(|facts| exec_select(plan, base, false, &inputs, facts), &answer)
    }

    fn recurse(
        &self,
        name: &str,
        all: bool,
        aliases: &Vec<String>,
        seed: &LogicalPlan,
        term: &LogicalPlan,
        ctes: &[(String, Relation)],
    ) -> Result<Relation, String> {
        let first = as_relation(self.run_in(seed, ctes)?);
        let columns = recursive_columns(aliases, &first.columns);
        let mut state = Recursion::start(all, &first.rows);
        while state.next_step()? {
            let mut scope: Vec<(String, Relation)> = ctes
                .iter()
                .map(|(n, r)| (n.clone(), copy_relation(r)))
                .collect();
            scope.push((
                name.to_string(),
                Relation {
                    columns: columns.clone(),
                    types: first.types.clone(),
                    rows: copy_rows(&state.working),
                },
            ));
            let step = as_relation(self.run_in(term, &scope)?);
            state.absorb(all, &step.rows);
        }
        Ok(Relation { columns, types: first.types, rows: state.result })
    }

    fn run_in(&self, plan: &LogicalPlan, ctes: &[(String, Relation)]) -> Result<QueryOutput, String> {
        match plan {
            LogicalPlan::Select(s) => self.select(s, ctes),
            LogicalPlan::SetOp { op, all, left, right } => {
                let l = self.run_in(left, ctes)?;
                let r = self.run_in(right, ctes)?;
                settle(
                    |facts| set_op_output(*op, *all, copy_output(&l), copy_output(&r), facts),
                    &plain_answer,
                )
            }
            LogicalPlan::TableFunction(f) => {
                settle(|facts| exec_table_function(f, facts), &plain_answer)
            }
            LogicalPlan::SelectLiteral { values, filter, deferred } => {
                let mut outputs: Vec<Option<QueryOutput>> = Vec::new();
                for i in 0..values.len() {
                    outputs.push(match deferred.get(i) {
                        Some(Some(DeferredItem::Subquery(plan))) => Some(self.run_in(plan, ctes)?),
                        Some(Some(DeferredItem::Exists { plan, .. })) => {
                            Some(self.run_in(plan, ctes)?)
                        }
                        _ => None,
                    });
                }
                let answer = |q: &Request| match &q.task {
                    Task::Conditions => {
                        let all = filter.iter().map(|f| (code_of_filter(f), f)).collect();
                        Ok(marks(all, q))
                    }
                    _ => plain_answer(q),
                };
                settle(
                    |facts| exec_select_literal(values, filter, deferred, &outputs, facts),
                    &answer,
                )
            }
            _ => panic!("a plan that these tests do not run"),
        }
    }

    /// The rows of a relation that a statement reads, under qualified names.
    fn source_rows(&self, plan: &LogicalPlan) -> Result<Relation, String> {
        let LogicalPlan::Select(s) = plan else {
            panic!("a source is read by a query");
        };
        let mut ctes = Vec::new();
        for (name, cte) in &s.ctes {
            let out = as_relation(self.run_in(cte, &ctes)?);
            ctes.push((name.clone(), out));
        }
        let base = self.relation(&s.table_name, &ctes);
        let prefix = s.table_alias.as_ref().unwrap_or(&s.table_name);
        let out = settle(
            |facts| relation_rows(s, source_relation(prefix, &base), false, facts),
            &plain_answer,
        )?;
        Ok(Relation {
            columns: out.columns,
            types: out.types,
            rows: out.rows.into_iter().map(|r| r.values).collect(),
        })
    }

    fn plan(&self, sql: &str) -> Result<LogicalPlan, String> {
        let parsed = Parser::parse_sql(&PostgreSqlDialect {}, sql).map_err(|e| e.to_string())?;
        if let Some(sql::Statement::Merge(m)) = parsed.first() {
            let merge = merge(m);
            return settle(|facts| plan_merge(&merge, &Vec::new(), facts), &plain_answer);
        }
        let statements = parse(sql)?;
        plan_first(&statements)
    }

    /// The rows of a query, each as its values joined by commas.
    fn read(&self, sql: &str) -> Vec<String> {
        joined(&self.query(sql).unwrap(), ",")
    }

    fn query(&self, sql: &str) -> Result<QueryOutput, String> {
        let plan = prepared(self.plan(sql)?)?;
        self.run_in(&plan, &[])
    }

    /// Runs any statement.
    fn sql(&mut self, sql: &str) -> Result<QueryOutput, String> {
        match self.plan(sql)? {
            LogicalPlan::Select(s) if self.tables.contains_key(&s.table_name) => {
                let s = self.with_declared_types(s)?;
                self.run_in(&prepared(LogicalPlan::Select(s))?, &[])
            }
            plan @ (LogicalPlan::Select(_) | LogicalPlan::SelectLiteral { .. }) => {
                self.run_in(&prepared(plan)?, &[])
            }
            plan => self.change(plan),
        }
    }

    /// A query over a table, its items held to the types of the columns.
    fn with_declared_types(&self, mut plan: SelectPlan) -> Result<SelectPlan, String> {
        let (names, types, _) = &self.tables[&plan.table_name];
        let columns = ColumnTypes { names: names.clone(), types: types.clone(), suffixes: true };
        for item in plan.projection.iter_mut() {
            if let ProjectionItem::Expr { expr, .. } = item {
                *expr = settle(|facts| check_integer_ranges(expr, &columns, facts), &plain_answer)?;
            }
        }
        Ok(plan)
    }

    /// Runs a statement that changes rows, or creates a table.
    fn run(&mut self, sql: &str) -> Result<QueryOutput, String> {
        let plan = self.plan(sql)?;
        self.change(plan)
    }

    fn change(&mut self, plan: LogicalPlan) -> Result<QueryOutput, String> {
        match plan {
            LogicalPlan::CreateTable { name, columns, .. } => {
                let defs: Vec<(&str, &str)> = columns
                    .iter()
                    .map(|c| (c.name.as_str(), c.data_type.as_str()))
                    .collect();
                self.create(&name, &defs);
                Ok(done("CREATE TABLE"))
            }
            LogicalPlan::Insert {
                table_name,
                values_list,
                returning,
                returning_exprs,
                source,
                ..
            } => {
                let before = self.tables[&table_name].2.len();
                if let Some(query) = source {
                    for row in self.run_in(&query, &[])?.rows {
                        self.insert(&table_name, row.values);
                    }
                }
                for row in values_list {
                    self.insert(&table_name, row);
                }
                let (names, _, rows) = &self.tables[&table_name];
                let new = changes(&[], &rows[before..]);
                let tag = format!("INSERT 0 {}", new.len());
                changed(&tag, &returning, &returning_exprs, names, &new, &plain_answer)
            }
            LogicalPlan::Delete { table_name, filter, returning, returning_exprs, .. } => {
                let table = self.tables.get_mut(&table_name).unwrap();
                let names = table.0.clone();
                let (gone, kept): (Vec<_>, Vec<_>) = std::mem::take(&mut table.2)
                    .into_iter()
                    .partition(|r| filter.as_ref().map_or(true, |f| holds(f, &names, r)));
                table.2 = kept;
                let gone = changes(&gone, &[]);
                let tag = format!("DELETE {}", gone.len());
                changed(&tag, &returning, &returning_exprs, &names, &gone, &plain_answer)
            }
            LogicalPlan::Merge {
                table_name,
                table_alias,
                source,
                on,
                clauses,
                returning,
                returning_exprs,
            } => {
                let given = self.source_rows(&source)?;
                let names = self.tables[&table_name].0.clone();
                let prefix = table_alias.unwrap_or_else(|| table_name.clone());
                let mut all: Vec<String> = names.iter().map(|n| format!("{prefix}.{n}")).collect();
                all.extend(given.columns.iter().cloned());
                let mut new = Vec::new();
                for row in &given.rows {
                    let matched = self.tables[&table_name].2.iter().any(|target| {
                        let pair: Vec<Value> =
                            target.iter().chain(row.iter()).map(Value::duplicate).collect();
                        on.as_ref().map_or(true, |f| holds(f, &all, &pair))
                    });
                    let kind = if matched { MergeKind::Matched } else { MergeKind::NotMatchedByTarget };
                    let clause = clauses.iter().find(|c| {
                        let applies = c.condition.as_ref();
                        c.kind == kind && applies.map_or(true, |f| holds(f, &given.columns, row))
                    });
                    match clause.map(|c| &c.action) {
                        None | Some(MergeAction::Nothing) => {}
                        Some(MergeAction::Insert { values, .. }) => {
                            let mut cells = Vec::new();
                            for v in values {
                                cells.push(match v {
                                    Some(e) => eval(e, &given.columns, row)?,
                                    None => Value::Null,
                                });
                            }
                            self.insert(&table_name, cells);
                            let made = self.tables[&table_name].2.last().unwrap();
                            new.push(made.iter().map(Value::duplicate).collect());
                        }
                        Some(_) => panic!("these tests only insert by MERGE"),
                    }
                }
                let answer = |q: &Request| match &q.task {
                    Task::Call(name) if name == "MERGE_ACTION" => Ok(Value::Text("INSERT".into())),
                    _ => plain_answer(q),
                };
                let new = changes(&[], &new);
                let tag = format!("MERGE {}", new.len());
                changed(&tag, &returning, &returning_exprs, &names, &new, &answer)
            }
            LogicalPlan::Update {
                table_name,
                assignments,
                filter,
                returning,
                returning_exprs,
                ..
            } => {
                let table = self.tables.get_mut(&table_name).unwrap();
                let names = table.0.clone();
                let (mut before, mut touched) = (Vec::new(), Vec::new());
                for row in table.2.iter_mut() {
                    if !filter.as_ref().map_or(true, |f| holds(f, &names, row)) {
                        continue;
                    }
                    let mut cells: Vec<(usize, Value)> = Vec::new();
                    for (c, e) in &assignments {
                        cells.push((position(&names, c).unwrap(), eval(e, &names, row)?));
                    }
                    before.push(row.iter().map(Value::duplicate).collect());
                    for (i, v) in cells {
                        row[i] = v;
                    }
                    touched.push(row.iter().map(Value::duplicate).collect());
                }
                let pairs = changes(&before, &touched);
                let tag = format!("UPDATE {}", pairs.len());
                changed(&tag, &returning, &returning_exprs, &names, &pairs, &plain_answer)
            }
            LogicalPlan::AlterTable {
                table_name,
                operation: AlterTableOp::RenameColumn { old_name, new_name },
            } => {
                let table = self.tables.get_mut(&table_name).unwrap();
                table.0 = rename_column(&table.0, &old_name, &new_name)?;
                Ok(done("ALTER TABLE"))
            }
            _ => panic!("a statement that these tests do not run"),
        }
    }
}

/// A row before and after a change.
type Change = (Option<Vec<Value>>, Option<Vec<Value>>);

/// Rows before and after changes; where one side is not given there is none.
fn changes(old: &[Vec<Value>], new: &[Vec<Value>]) -> Vec<Change> {
    let at = |rows: &[Vec<Value>], i: usize| -> Option<Vec<Value>> {
        rows.get(i).map(|r| r.iter().map(Value::duplicate).collect())
    };
    (0..old.len().max(new.len())).map(|i| (at(old, i), at(new, i))).collect()
}

/// A statement without rows.
fn done(tag: &str) -> QueryOutput {
    QueryOutput { columns: vec![], types: vec![], rows: vec![], tag: tag.to_string() }
}

/// What a change returns of the rows it touched.
fn changed(
    tag: &str,
    returning: &Vec<String>,
    exprs: &Vec<Option<ReturningExpr>>,
    names: &Vec<String>,
    rows: &[Change],
    answer: &dyn Fn(&Request) -> Result<Value, String>,
) -> Result<QueryOutput, String> {
    let columns = returned_columns(returning, exprs, names);
    let mut out = Vec::new();
    for (old, new) in rows {
        let values = settle(
            |facts| returned_row(returning, exprs, names, old, new, facts),
            answer,
        )?;
        out.push(Row { values });
    }
    Ok(QueryOutput {
        types: columns.iter().map(|_| "TEXT".to_string()).collect(),
        columns,
        rows: out,
        tag: tag.to_string(),
    })
}

/// Joins the set-returning functions of the select list, and orders by the keys
/// that the planner encodes.
fn prepared(plan: LogicalPlan) -> Result<LogicalPlan, String> {
    match plan {
        LogicalPlan::Select(s) => {
            Ok(LogicalPlan::Select(with_set_functions(s)?.with_sort_keys()))
        }
        other => Ok(other),
    }
}

fn copy_relation(r: &Relation) -> Relation {
    Relation {
        columns: r.columns.clone(),
        types: r.types.clone(),
        rows: copy_rows(&r.rows),
    }
}

fn copy_output(o: &QueryOutput) -> QueryOutput {
    QueryOutput {
        columns: o.columns.clone(),
        types: o.types.clone(),
        rows: o.rows.iter().map(Row::duplicate).collect(),
        tag: o.tag.clone(),
    }
}

fn as_relation(o: QueryOutput) -> Relation {
    named_relation(&o)
}

fn rendered(out: &QueryOutput) -> Vec<Vec<String>> {
    out.rows
        .iter()
        .map(|r| {
            r.values
                .iter()
                .map(|v| settle(|facts| render(v, facts), &plain_answer).unwrap())
                .collect()
        })
        .collect()
}

fn joined(out: &QueryOutput, sep: &str) -> Vec<String> {
    rendered(out).iter().map(|r| r.join(sep)).collect()
}

fn sorted(mut rows: Vec<String>) -> Vec<String> {
    rows.sort();
    rows
}

fn parse(sql: &str) -> Result<Vec<ast::Statement>, String> {
    let parsed = Parser::parse_sql(&PostgreSqlDialect {}, sql).map_err(|e| e.to_string())?;
    Ok(parsed.iter().map(statement).collect())
}

fn plan_first(statements: &[ast::Statement]) -> Result<LogicalPlan, String> {
    settle(
        |facts| plan_statement(&statements[0], &Vec::new(), facts),
        &plain_answer,
    )
}

fn copy_out(sql: &str) -> Result<(LogicalPlan, CopyOutputFormat, bool), String> {
    let statements = parse(sql)?;
    settle(|facts| plan_copy_out(&statements, facts), &plain_answer)
}

// Tests ---------------------------------------------------------------------

#[test]
fn test_offset_distinct_returning() {
    let mut db = Db::default();
    db.create("t", &[("id", "int"), ("val", "text")]);
    let cell = |t: &str| Value::Text(t.to_string());
    let insert_out = db
        .change(LogicalPlan::Insert {
            table_name: "t".into(),
            columns: vec!["id".into(), "val".into()],
            values_list: vec![
                vec![cell("1"), cell("A")],
                vec![cell("2"), cell("B")],
                vec![cell("3"), cell("A")],
                vec![cell("4"), cell("C")],
            ],
            returning: vec!["id".into(), "val".into()],
            returning_exprs: vec![],
            on_conflict: None,
            default_cells: vec![],
            source: None,
        })
        .unwrap();
    assert_eq!(insert_out.tag, "INSERT 0 4");
    assert_eq!(insert_out.rows.len(), 4);
    assert_eq!(rendered(&insert_out)[0], vec!["1", "A"]);
    assert_eq!(rendered(&insert_out)[3], vec!["4", "C"]);

    let read = |offset: Option<usize>, limit: Option<usize>, distinct: bool, proj: Vec<&str>| {
        let mut plan = select_plan(limit, offset, None);
        plan.projection = proj
            .into_iter()
            .map(|s| ProjectionItem::Column(s.to_string()))
            .collect();
        plan.distinct = distinct;
        joined(&db.select(&plan, &[]).unwrap(), ",")
    };

    let p1 = read(None, Some(2), false, vec![]);
    assert_eq!(p1, vec!["1,A", "2,B"]);

    let p2 = read(Some(2), Some(2), false, vec![]);
    assert_eq!(p2, vec!["3,A", "4,C"]);

    let p3 = read(Some(3), None, false, vec![]);
    assert_eq!(p3, vec!["4,C"]);

    let dist = read(None, None, true, vec!["val"]);
    assert_eq!(dist.len(), 3);
    assert!(dist.contains(&"A".to_string()));
    assert!(dist.contains(&"B".to_string()));
    assert!(dist.contains(&"C".to_string()));

    let update_out = db
        .change(LogicalPlan::Update {
            table_name: "t".into(),
            assignments: vec![("val".into(), ScalarExpr::Literal(cell("Z")))],
            filter: Some(FilterExpr::Predicate(Predicate {
                left: "id".into(),
                op: CompareOp::Eq,
                right: Operand::Literal(cell("2")),
            })),
            returning: vec!["id".into(), "val".into()],
            returning_exprs: vec![],
            table_alias: None,
            from: None,
        })
        .unwrap();
    assert_eq!(update_out.tag, "UPDATE 1");
    assert_eq!(update_out.rows.len(), 1);
    assert_eq!(rendered(&update_out)[0], vec!["2", "Z"]);
}

fn sales() -> Db {
    let mut db = Db::default();
    db.create("sales", &[("id", "int"), ("category", "text"), ("amount", "int")]);
    let rows = [
        ("1", "A", "10"),
        ("2", "A", "20"),
        ("3", "B", "15"),
        ("4", "C", "5"),
        ("5", "C", "5"),
        ("6", "C", "5"),
    ];
    for (id, cat, amt) in rows {
        db.insert(
            "sales",
            vec![
                Value::Text(id.into()),
                Value::Text(cat.into()),
                Value::Text(amt.into()),
            ],
        );
    }
    db
}

#[test]
fn test_group_by_aggregates() {
    let mut db = sales();
    let p1 = sorted(db.read("SELECT category, COUNT(id), SUM(amount) FROM sales GROUP BY category"));
    assert_eq!(p1, vec!["A,2,30", "B,1,15", "C,3,15"]);
    let p2 = sorted(db.read("SELECT category, MIN(amount), MAX(amount) FROM sales GROUP BY category"));
    assert_eq!(p2, vec!["A,10,20", "B,15,15", "C,5,5"]);
    let p3 = db.read("SELECT COUNT(*), SUM(amount), MAX(amount) FROM sales");
    assert_eq!(p3, vec!["6,60,20"]);
    db.run("DELETE FROM sales").unwrap();
    let p4 = db.read("SELECT COUNT(*) FROM sales");
    assert_eq!(p4, vec!["0"]);
}

#[test]
fn test_scalar_functions() {
    let mut db = Db::default();
    db.run("CREATE TABLE t (id INT, name TEXT)").unwrap();
    db.run("INSERT INTO t (id, name) VALUES (1, 'Alice')").unwrap();
    let out = db
        .query(
            "SELECT UPPER(name), LOWER(name), LENGTH(name), SUBSTR(name, 1, 3), \
             COALESCE(name, 'x'), CONCAT(name, '!'), REPLACE(name, 'lic', 'LIC'), \
             ROUND(12.345, 1) FROM t",
        )
        .unwrap();
    assert_eq!(out.rows.len(), 1);
    let row = &rendered(&out)[0];
    assert_eq!(row[0], "ALICE");
    assert_eq!(row[1], "alice");
    assert_eq!(row[2], "5");
    assert_eq!(row[3], "Ali");
    assert_eq!(row[4], "Alice");
    assert_eq!(row[5], "Alice!");
    assert_eq!(row[6], "ALICe");
    assert_eq!(row[7], "12.3");
}

#[test]
fn test_set_operations() {
    let mut db = Db::default();
    for t in ["a", "b"] {
        db.create(t, &[("id", "int"), ("n", "int")]);
    }
    for (i, n) in ["1", "2", "2", "3"].iter().enumerate() {
        db.insert("a", vec![Value::Text(i.to_string()), Value::Text(n.to_string())]);
    }
    for (i, n) in ["2", "3", "3", "4"].iter().enumerate() {
        db.insert("b", vec![Value::Text(i.to_string()), Value::Text(n.to_string())]);
    }
    let read = |sql: &str| sorted(db.read(sql));
    assert_eq!(
        read("SELECT n FROM a UNION SELECT n FROM b"),
        vec!["1", "2", "3", "4"]
    );
    assert_eq!(
        read("SELECT n FROM a UNION ALL SELECT n FROM b").len(),
        8,
        "UNION ALL keeps all rows"
    );
    assert_eq!(
        read("SELECT n FROM a INTERSECT SELECT n FROM b"),
        vec!["2", "3"]
    );
    assert_eq!(
        read("SELECT n FROM a INTERSECT ALL SELECT n FROM b"),
        vec!["2", "3"],
        "a has one 2 and one matching, two 3s vs two 3s -> 2,3"
    );
    assert_eq!(read("SELECT n FROM a EXCEPT SELECT n FROM b"), vec!["1"]);
    assert_eq!(
        read("SELECT n FROM a EXCEPT ALL SELECT n FROM b"),
        vec!["1", "2"],
        "multiset diff: a has two 2s, b has one -> one 2 remains; 1 remains"
    );
}

#[test]
fn test_cross_join() {
    let mut db = Db::default();
    for (t, col) in [("a", "n"), ("b", "m")] {
        db.create(t, &[("id", "int"), (col, "text")]);
    }
    for (t, id, v) in [("a", "1", "x"), ("a", "2", "y"), ("b", "1", "p"), ("b", "2", "q")] {
        db.insert(t, vec![Value::Text(id.into()), Value::Text(v.into())]);
    }
    let out = db.query("SELECT a.n, b.m FROM a CROSS JOIN b").unwrap();
    assert_eq!(
        sorted(joined(&out, "-")),
        vec!["x-p", "x-q", "y-p", "y-q"]
    );
}

#[test]
fn test_having() {
    let db = sales();
    let read = |sql: &str| sorted(db.read(sql));
    assert_eq!(
        read("SELECT category, COUNT(id) FROM sales GROUP BY category HAVING COUNT(*) > 1"),
        vec!["A,2", "C,3"]
    );
    assert_eq!(
        read("SELECT category FROM sales GROUP BY category HAVING SUM(amount) > 20"),
        vec!["A"]
    );
    assert_eq!(
        read("SELECT category FROM sales GROUP BY category HAVING COUNT(*) >= 2 AND MIN(amount) = 5"),
        vec!["C"]
    );
}

#[test]
fn test_window_functions() {
    let mut db = Db::default();
    db.create("emp", &[("id", "int"), ("amount", "int")]);
    for (id, amount) in [("1", "10"), ("2", "10"), ("3", "20"), ("4", "30")] {
        db.insert("emp", vec![Value::Text(id.into()), Value::Text(amount.into())]);
    }
    let rank = db.read("SELECT id, RANK() OVER (ORDER BY amount) FROM emp ORDER BY id");
    assert_eq!(rank, vec!["1,1", "2,1", "3,3", "4,4"]);
    let dense = db.read("SELECT id, DENSE_RANK() OVER (ORDER BY amount) FROM emp ORDER BY id");
    assert_eq!(dense, vec!["1,1", "2,1", "3,2", "4,3"]);
    let lag = db.read("SELECT id, LAG(amount) OVER (ORDER BY id) FROM emp ORDER BY id");
    assert_eq!(lag, vec!["1,", "2,10", "3,10", "4,20"]);
    let sum = db.read("SELECT id, SUM(amount) OVER () FROM emp ORDER BY id");
    assert_eq!(sum, vec!["1,70", "2,70", "3,70", "4,70"]);
}

#[test]
fn copy_is_a_read_plan_and_rejects_unsupported_options() {
    let (plan, format, header) =
        copy_out("COPY \"odd table\" (id) TO STDOUT WITH (FORMAT CSV, HEADER)").unwrap();
    assert!(matches!(plan, LogicalPlan::Select(_)));
    assert_eq!(format, CopyOutputFormat::Csv);
    assert!(header);
    assert!(copy_out("COPY t TO PROGRAM 'cat'").is_err());
    assert!(copy_out("COPY t TO STDOUT (DELIMITER '|')").is_err());
    assert!(copy_out("COPY t TO STDOUT; DELETE FROM t").is_err());
}

#[test]
fn deeply_nested_query_is_rejected_without_overflow() {
    let mut sql = String::from("SELECT 1");
    for _ in 0..400 {
        sql = format!("SELECT * FROM ({sql}) t");
    }
    let result = match parse(&sql) {
        Ok(statements) => plan_first(&statements).map(|_| ()),
        Err(e) => Err(e),
    };
    assert!(
        result.is_err(),
        "deeply nested query should be rejected, not planned"
    );
}

#[test]
fn nesting_beyond_the_planner_limit_is_refused_by_the_planner() {
    let mut query = literal_query();
    for _ in 0..120 {
        query = around(query);
    }
    let stmt = ast::Statement::Query(Box::new(query));
    let result = settle(|facts| plan_statement(&stmt, &Vec::new(), facts), &plain_answer);
    assert!(result.is_err());

    let mut query = literal_query();
    for _ in 0..20 {
        query = around(query);
    }
    let stmt = ast::Statement::Query(Box::new(query));
    let result = settle(|facts| plan_statement(&stmt, &Vec::new(), facts), &plain_answer);
    assert!(result.is_ok());
}

fn literal_query() -> ast::Query {
    match parse("SELECT 1").unwrap().remove(0) {
        ast::Statement::Query(q) => *q,
        _ => unreachable!(),
    }
}

/// The query `SELECT * FROM (inner) t`.
fn around(inner: ast::Query) -> ast::Query {
    let mut outer = match parse("SELECT * FROM (SELECT 1) t").unwrap().remove(0) {
        ast::Statement::Query(q) => *q,
        _ => unreachable!(),
    };
    if let ast::Body::Select(s) = &mut *outer.body {
        if let ast::FactorKind::Derived { subquery, .. } = &mut s.from[0].relation.kind {
            **subquery = inner;
        }
    }
    outer
}

#[test]
fn returning_computes_over_old_and_new_rows() {
    let mut db = Db::default();
    db.sql("CREATE TABLE t (id INT PRIMARY KEY, n INT)").unwrap();
    let out = db
        .sql("INSERT INTO t VALUES (1, 10) RETURNING id * 2 AS twice, old.n, new.n")
        .unwrap();
    assert_eq!(out.columns, ["twice", "n", "n"]);
    assert_eq!(joined(&out, "|"), ["2||10"]);
    let out = db.sql("UPDATE t SET n = n + 5 RETURNING n - old.n AS delta").unwrap();
    assert_eq!(joined(&out, "|"), ["5"]);
    let out = db.sql("DELETE FROM t RETURNING n, new.n IS NULL AS gone").unwrap();
    assert_eq!(joined(&out, "|"), ["15|t"]);
    let out = db
        .sql(
            "MERGE INTO t USING (SELECT 7 AS id) s ON t.id = s.id \
             WHEN NOT MATCHED THEN INSERT VALUES (s.id, 1) RETURNING merge_action(), t.id",
        )
        .unwrap();
    assert_eq!(joined(&out, "|"), ["INSERT|7"]);
    let err = db.sql("INSERT INTO t VALUES (2, 1) RETURNING count(*)").unwrap_err();
    assert_eq!(
        err.to_string(),
        "aggregate functions are not allowed in RETURNING"
    );
    let err = db.sql("SELECT merge_action()").unwrap_err();
    assert_eq!(
        err.to_string(),
        "MERGE_ACTION() can only be used in the RETURNING list of a MERGE command"
    );
}

#[test]
fn questions_name_the_part_of_the_plan_they_are_about() {
    let db = sales();
    let sql = "SELECT category, SUM(amount), MAX(id) FROM sales WHERE amount > 5 \
               GROUP BY category HAVING COUNT(*) > 1";
    let LogicalPlan::Select(plan) = prepared(db.plan(sql).unwrap()).unwrap() else {
        panic!("a query");
    };
    assert_eq!(db.read(sql), vec!["A,30,2"]);
    let asked = db.asked.borrow();
    let about = |kind: &str| -> Vec<Value> {
        let of_kind = asked.iter().filter(|(task, _)| task.starts_with(kind));
        of_kind.map(|(_, v)| v.duplicate()).collect()
    };
    let conditions = about("Conditions");
    assert_eq!(conditions.len(), 1);
    assert_eq!(items(&conditions[0])[0], code_of_filter(plan.filter.as_ref().unwrap()));
    let having = about("GroupConditions");
    assert_eq!(items(&having[0])[0], code_of_filter(plan.having.as_ref().unwrap()));
    let (sums, largest) = (about("GroupAggregate(Sum)"), about("GroupAggregate(Max)"));
    assert_eq!((sums.len(), largest.len()), (1, 1));
    assert_eq!((text(&sums[0]), text(&largest[0])), ("amount", "id"));
    assert_eq!(about("GroupAggregate(Min)").len(), 0);
    // Another condition is another question.
    let other = FilterExpr::IsNull("amount".into());
    assert_ne!(code_of_filter(&other), code_of_filter(plan.filter.as_ref().unwrap()));
    assert_ne!(
        code_of_expr(&ScalarExpr::Column("a".into())),
        code_of_expr(&ScalarExpr::Column("b".into()))
    );
}

#[test]
fn a_case_takes_the_first_branch_that_holds() {
    let db = sales();
    let branch = |limit: i64, result: &str| {
        let p = Predicate {
            left: "amount".into(),
            op: CompareOp::Lt,
            right: Operand::Literal(Value::Int(limit)),
        };
        (p, Operand::Literal(Value::Text(result.into())))
    };
    let mut plan = select_plan(None, None, None);
    plan.table_name = "sales".into();
    plan.projection = vec![
        ProjectionItem::Column("id".into()),
        ProjectionItem::Case {
            branches: vec![branch(10, "small"), branch(20, "middle"), branch(20, "never")],
            else_result: Some(Operand::Literal(Value::Text("large".into()))),
            alias: Some("size".into()),
        },
    ];
    let out = db.select(&plan, &[]).unwrap();
    assert_eq!(out.columns, ["id", "size"]);
    assert_eq!(
        joined(&out, ","),
        ["1,middle", "2,large", "3,middle", "4,small", "5,small", "6,small"]
    );
}

#[test]
fn limit_offset_order_and_distinct_act_on_the_plain_output() {
    let db = sales();
    let all = db.read("SELECT id, category FROM sales ORDER BY category DESC");
    // Rows that the key does not tell apart keep their order.
    assert_eq!(all, ["4,C", "5,C", "6,C", "3,B", "1,A", "2,A"]);
    let page = db.query("SELECT id, category FROM sales ORDER BY category DESC LIMIT 2 OFFSET 3");
    let page = page.unwrap();
    assert_eq!(joined(&page, ","), all[3..5].to_vec());
    assert_eq!(page.tag, "SELECT 2");
    let none = db.query("SELECT id, category FROM sales LIMIT 0").unwrap();
    assert_eq!((none.rows.len(), none.tag.as_str()), (0, "SELECT 0"));
    assert_eq!(none.columns, ["id", "category"]);
    assert_eq!(db.read("SELECT id FROM sales OFFSET 9").len(), 0);
    assert_eq!(db.read("SELECT DISTINCT category FROM sales"), ["A", "B", "C"]);
    assert_eq!(db.read("SELECT DISTINCT amount FROM sales"), ["10", "20", "15", "5"]);
}

#[test]
fn returning_lists_expand_and_refuse() {
    let mut db = Db::default();
    db.sql("CREATE TABLE t (id INT PRIMARY KEY, n INT)").unwrap();
    match db.plan("INSERT INTO t VALUES (1, 2) RETURNING *, n").unwrap() {
        LogicalPlan::Insert { returning, returning_exprs, .. } => {
            assert_eq!(returning, ["*", "n"]);
            assert!(returning_exprs.is_empty(), "every item is a column");
        }
        _ => panic!("an insert"),
    }
    match db.plan("INSERT INTO t VALUES (1, 2) RETURNING n, n + 1").unwrap() {
        LogicalPlan::Insert { returning, returning_exprs, .. } => {
            assert_eq!(returning, ["n", "?column?"]);
            assert!(returning_exprs[0].is_none() && returning_exprs[1].is_some());
        }
        _ => panic!("an insert"),
    }
    let out = db.sql("INSERT INTO t VALUES (1, 2) RETURNING *, n + 1 AS next, new.n AS m").unwrap();
    assert_eq!(out.columns, ["id", "n", "next", "m"]);
    assert_eq!(joined(&out, "|"), ["1|2|3|2"]);
    let out = db.sql("UPDATE t SET n = 9 RETURNING old.n AS a, new.n AS b, n").unwrap();
    assert_eq!(joined(&out, "|"), ["2|9|9"]);
    let out = db.sql("DELETE FROM t RETURNING new.n, old.n, n").unwrap();
    assert_eq!(joined(&out, "|"), ["|9|9"]);
    let err = db.sql("DELETE FROM t RETURNING old.*").unwrap_err();
    assert!(err.starts_with("Unsupported RETURNING item: "), "{err}");
    db.sql("INSERT INTO t VALUES (1, 2)").unwrap();
    let err = db.sql("DELETE FROM t RETURNING nope").unwrap_err();
    assert_eq!(err, "column \"nope\" does not exist");
}

#[test]
fn a_merge_keeps_its_clauses_in_order() {
    let db = Db::default();
    let plan = db
        .plan(
            "MERGE INTO t AS u USING s ON u.id = s.id WHEN MATCHED AND s.n > 3 THEN DELETE \
             WHEN MATCHED THEN UPDATE SET n = s.n WHEN NOT MATCHED THEN INSERT (id, n) \
             VALUES (s.id, DEFAULT)",
        )
        .unwrap();
    let LogicalPlan::Merge { table_name, table_alias, clauses, on, .. } = plan else {
        panic!("a merge");
    };
    assert_eq!((table_name.as_str(), table_alias.as_deref()), ("t", Some("u")));
    assert!(on.is_some());
    assert!(matches!(clauses[0].action, MergeAction::Delete) && clauses[0].condition.is_some());
    assert_eq!(clauses[0].kind, MergeKind::Matched);
    match &clauses[1].action {
        MergeAction::Update(list) => assert_eq!(list[0].0, "n"),
        _ => panic!("an update"),
    }
    assert_eq!(clauses[2].kind, MergeKind::NotMatchedByTarget);
    match &clauses[2].action {
        MergeAction::Insert { columns, values } => {
            assert_eq!(columns, &["id", "n"]);
            assert!(values[0].is_some() && values[1].is_none());
        }
        _ => panic!("an insert"),
    }
}

#[test]
fn select_list_set_returning_functions_repeat_their_rows() {
    let mut db = Db::default();
    db.sql("CREATE TABLE t (id INT PRIMARY KEY, tags TEXT[])").unwrap();
    db.sql("INSERT INTO t VALUES (1, '{a,b}'), (2, '{}'), (3, NULL)").unwrap();
    let out = db.sql("SELECT id, unnest(tags) AS tag FROM t").unwrap();
    assert_eq!(out.columns, ["id", "tag"]);
    assert_eq!(joined(&out, "|"), ["1|a", "1|b"]);
    // Several run in lockstep; the shorter pads with NULL.
    let out = db
        .sql("SELECT id, unnest(tags), generate_series(1, 3) FROM t WHERE id = 1")
        .unwrap();
    assert_eq!(joined(&out, "|"), ["1|a|1", "1|b|2", "1||3"]);
    let err = db.sql("SELECT count(*), unnest(tags) FROM t").unwrap_err();
    assert!(err.to_string().contains("set-returning functions"), "{err}");
}

#[test]
fn renaming_a_missing_column_keeps_the_table() {
    let mut db = Db::default();
    db.sql("CREATE TABLE t (id INT PRIMARY KEY, n INT)").unwrap();
    db.sql("INSERT INTO t VALUES (1, 2)").unwrap();
    let err = db.sql("ALTER TABLE t RENAME COLUMN nope TO m").unwrap_err();
    assert_eq!(err.to_string(), "column \"nope\" does not exist");
    assert_eq!(joined(&db.sql("SELECT n FROM t").unwrap(), "|"), ["2"]);
    db.sql("ALTER TABLE t RENAME COLUMN n TO m").unwrap();
    assert_eq!(joined(&db.sql("SELECT m FROM t").unwrap(), "|"), ["2"]);
}

// Streaming and push-down ---------------------------------------------------

fn with_rows(n: usize) -> Db {
    let mut db = Db::default();
    db.create("t", &[("id", "INT"), ("name", "TEXT")]);
    for i in 0..n {
        db.insert(
            "t",
            vec![Value::Text(i.to_string()), Value::Text(format!("n{i}"))],
        );
    }
    db
}

fn select_plan(limit: Option<usize>, offset: Option<usize>, filter: Option<FilterExpr>) -> SelectPlan {
    SelectPlan {
        ctes: vec![],
        table_name: "t".into(),
        table_alias: None,
        joins: vec![],
        projection: vec![],
        group_by: vec![],
        filter,
        having: None,
        grouping_sets: None,
        order_by: vec![],
        limit,
        offset,
        distinct: false,
        sort: vec![],
        group_exprs: vec![],
        distinct_on: vec![],
    }
}

fn is_n7() -> FilterExpr {
    FilterExpr::Predicate(Predicate {
        left: "name".into(),
        op: CompareOp::Eq,
        right: Operand::Literal(Value::Text("n7".into())),
    })
}

/// Runs a query over the prefix of the table that its scan reads; returns the
/// output and the number of rows read.
fn scanned(db: &Db, plan: SelectPlan) -> (QueryOutput, usize) {
    let mut base = db.relation("t", &[]);
    if let Some(cap) = scan_cap(&plan) {
        base.rows.truncate(cap);
    }
    let read = base.rows.len();
    (db.select_from(&plan, &base, &[]).unwrap(), read)
}

/// What receives the rows of a streamed query.
trait Sink {
    fn schema(&mut self, columns: Vec<String>, types: Vec<String>);
    fn row(&mut self, row: Vec<Value>) -> Result<(), String>;
}

#[derive(Default)]
struct CollectSink {
    columns: Vec<String>,
    types: Vec<String>,
    rows: Vec<Vec<String>>,
}

impl Sink for CollectSink {
    fn schema(&mut self, columns: Vec<String>, types: Vec<String>) {
        self.columns = columns;
        self.types = types;
    }
    fn row(&mut self, row: Vec<Value>) -> Result<(), String> {
        self.rows.push(row.iter().map(shown).collect());
        Ok(())
    }
}

struct AbortAfter {
    limit: usize,
    count: usize,
}

impl Sink for AbortAfter {
    fn schema(&mut self, _columns: Vec<String>, _types: Vec<String>) {}
    fn row(&mut self, _row: Vec<Value>) -> Result<(), String> {
        self.count += 1;
        if self.count > self.limit {
            return Err("consumer gone".to_string());
        }
        Ok(())
    }
}

/// Streams a query into a sink: row by row where its shape allows it. Returns
/// the command tag, and counts the rows read.
fn stream(db: &Db, plan: SelectPlan, sink: &mut dyn Sink, read: &mut usize) -> Result<String, String> {
    let base = db.relation("t", &[]);
    let begun = begin_stream(&plan, &base.columns, &base.types, false, false, &vec![], "1");
    let (first, mut scan) = match begun {
        Some(begun) => begun,
        None => {
            let out = db.select_from(&plan.with_sort_keys(), &base, &[])?;
            *read += base.rows.len();
            let (calls, tag) = send_output(out);
            for call in calls {
                tell(sink, call)?;
            }
            return Ok(tag);
        }
    };
    tell(sink, first)?;
    for row in &base.rows {
        if !scan.state.reads_on() {
            break;
        }
        *read += 1;
        let keep = plan.filter.as_ref().map_or(true, |f| holds(f, &base.columns, row));
        if let Some(call) = scan.take_row(row, keep) {
            tell(sink, call)?;
        }
    }
    Ok(scan.tag())
}

fn tell(sink: &mut dyn Sink, call: SinkCall) -> Result<(), String> {
    match call {
        SinkCall::Schema { columns, types } => {
            sink.schema(columns, types);
            Ok(())
        }
        SinkCall::Row(row) => sink.row(row),
    }
}

#[test]
fn streaming_select_star_matches_the_full_path() {
    let db = with_rows(20);
    let (full, _) = scanned(&db, select_plan(None, None, None));
    let mut sink = CollectSink::default();
    let tag = stream(&db, select_plan(None, None, None), &mut sink, &mut 0).unwrap();
    assert_eq!(sink.columns, full.columns);
    assert_eq!(sink.types, full.types);
    assert_eq!(sink.rows, rendered(&full));
    assert_eq!(tag, "SELECT 20");
    assert_eq!(full.tag, "SELECT 20");
}

#[test]
fn streaming_projects_columns_with_where_and_limit() {
    let db = with_rows(30);
    let plan = || {
        let mut p = select_plan(Some(5), None, Some(is_n7()));
        p.projection = vec![ProjectionItem::Column("name".into())];
        p
    };
    let (full, _) = scanned(&db, plan());
    let mut sink = CollectSink::default();
    stream(&db, plan(), &mut sink, &mut 0).unwrap();
    assert_eq!(sink.columns, vec!["name".to_string()]);
    assert_eq!(sink.rows, rendered(&full));
    assert_eq!(sink.rows, vec![vec!["n7".to_string()]]);
}

#[test]
fn streaming_stops_scanning_when_the_sink_aborts() {
    let db = with_rows(50);
    let mut read = 0;
    let mut sink = AbortAfter { limit: 3, count: 0 };
    let result = stream(&db, select_plan(None, None, None), &mut sink, &mut read);
    assert!(result.is_err(), "the aborted sink should surface an error");
    assert!(
        read <= 4,
        "scan should stop within one row of the abort, read {}",
        read
    );
}

#[test]
fn streaming_falls_back_for_non_streamable_shapes() {
    let db = with_rows(10);
    let plan = || {
        let mut p = select_plan(Some(3), None, None);
        p.order_by = vec![("id".into(), false, None)];
        p
    };
    assert!(!is_streamable(&plan()));
    let (full, _) = scanned(&db, plan().with_sort_keys());
    let mut sink = CollectSink::default();
    stream(&db, plan(), &mut sink, &mut 0).unwrap();
    assert_eq!(sink.rows, rendered(&full));
    assert_eq!(sink.rows.len(), 3);
    assert_eq!(sink.rows[0][0], "9");
}

#[test]
fn limit_pushdown_scans_only_the_capped_prefix() {
    let db = with_rows(50);
    let (out, read) = scanned(&db, select_plan(Some(5), None, None));
    assert_eq!(out.rows.len(), 5);
    assert_eq!(read, 5, "LIMIT 5 should consume exactly 5 scanned rows");
    let (out, read) = scanned(&db, select_plan(Some(5), Some(10), None));
    assert_eq!(out.rows.len(), 5);
    assert_eq!(read, 15);
    let (out, read) = scanned(&db, select_plan(None, None, None));
    assert_eq!(out.rows.len(), 50);
    assert_eq!(read, 50);
}

#[test]
fn pushdown_returns_the_same_rows_as_the_full_pipeline() {
    let db = with_rows(40);
    let (full, _) = scanned(&db, select_plan(None, None, None));
    let full = rendered(&full);
    for (limit, offset) in [(5usize, 0usize), (5, 10), (1, 39), (10, 35)] {
        let (out, _) = scanned(&db, select_plan(Some(limit), Some(offset), None));
        let expected: Vec<Vec<String>> = full.iter().skip(offset).take(limit).cloned().collect();
        assert_eq!(
            rendered(&out),
            expected,
            "LIMIT {limit} OFFSET {offset} must match the full pipeline's slice"
        );
    }
}

#[test]
fn a_where_filter_disables_pushdown() {
    let db = with_rows(50);
    let (out, read) = scanned(&db, select_plan(Some(5), None, Some(is_n7())));
    assert_eq!(out.rows.len(), 1);
    assert_eq!(read, 50, "a filtered LIMIT must not cap the scan");
}

#[test]
fn streaming_sends_the_rows_that_the_query_returns() {
    let db = with_rows(12);
    let base = db.relation("t", &[]);
    let mut plan = select_plan(Some(3), Some(1), None);
    plan.projection = vec![ProjectionItem::Column("name".into())];
    let (first, mut scan) =
        begin_stream(&plan, &base.columns, &base.types, false, false, &vec![], "1").unwrap();
    assert_eq!(
        first,
        SinkCall::Schema { columns: vec!["name".to_string()], types: vec!["TEXT".to_string()] }
    );
    let mut calls = Vec::new();
    for (i, row) in base.rows.iter().enumerate() {
        if scan.state.reads_on() {
            calls.extend(scan.take_row(row, i % 2 == 0));
        }
    }
    let sent = ["n2", "n4", "n6"];
    let sent: Vec<SinkCall> =
        sent.iter().map(|n| SinkCall::Row(vec![Value::Text(n.to_string())])).collect();
    assert_eq!(calls, sent);
    assert_eq!(scan.tag(), "SELECT 3");
    let out = QueryOutput {
        columns: vec!["n".to_string()],
        types: vec!["INT".to_string()],
        rows: vec![Row { values: vec![Value::Int(1)] }, Row { values: vec![Value::Int(2)] }],
        tag: "SELECT 2".to_string(),
    };
    let (calls, tag) = send_output(out);
    assert_eq!(
        calls,
        vec![
            SinkCall::Schema { columns: vec!["n".to_string()], types: vec!["INT".to_string()] },
            SinkCall::Row(vec![Value::Int(1)]),
            SinkCall::Row(vec![Value::Int(2)]),
        ]
    );
    assert_eq!(tag, "SELECT 2");
    let plan = select_plan(None, None, None);
    let shape = |is_virtual: bool, is_view: bool, keys: &[&str]| {
        let keys: Vec<String> = keys.iter().map(|k| k.to_string()).collect();
        begin_stream(&plan, &base.columns, &base.types, is_virtual, is_view, &keys, "12").is_some()
    };
    assert!(shape(false, false, &["1:2", "123:4"]));
    assert!(!shape(false, false, &["12:7"]));
    assert!(!shape(true, false, &[]));
    assert!(!shape(false, true, &[]));
}

// More queries --------------------------------------------------------------

fn people() -> Db {
    let mut db = Db::default();
    db.run("CREATE TABLE p (id INT PRIMARY KEY, name TEXT, boss INT)").unwrap();
    db.run("INSERT INTO p VALUES (1, 'Ann', NULL), (2, 'Bob', 1), (3, 'Cid', 1), (4, 'Dan', 2)")
        .unwrap();
    db
}

#[test]
fn joins_keep_or_drop_unmatched_rows() {
    let db = people();
    assert_eq!(
        db.read("SELECT a.name, b.name FROM p a JOIN p b ON a.boss = b.id ORDER BY a.id"),
        vec!["Bob,Ann", "Cid,Ann", "Dan,Bob"]
    );
    assert_eq!(
        db.read("SELECT a.name, b.name FROM p a LEFT JOIN p b ON a.boss = b.id ORDER BY a.id"),
        vec!["Ann,", "Bob,Ann", "Cid,Ann", "Dan,Bob"]
    );
    assert_eq!(
        sorted(db.read("SELECT a.name, b.name FROM p a RIGHT JOIN p b ON a.boss = b.id")),
        vec![",Cid", ",Dan", "Bob,Ann", "Cid,Ann", "Dan,Bob"]
    );
    assert_eq!(
        sorted(db.read("SELECT a.name, b.name FROM p a FULL JOIN p b ON a.boss = b.id")).len(),
        6
    );
    assert_eq!(
        db.read("SELECT a.id FROM p a JOIN p b USING (id) ORDER BY a.id"),
        vec!["1", "2", "3", "4"]
    );
    assert_eq!(
        db.read("SELECT a.id FROM p a NATURAL JOIN p b ORDER BY a.id"),
        vec!["2", "3", "4"]
    );
}

#[test]
fn order_by_places_nulls_and_directions() {
    let db = people();
    assert_eq!(
        db.read("SELECT name FROM p ORDER BY boss, name DESC"),
        vec!["Cid", "Bob", "Dan", "Ann"]
    );
    assert_eq!(
        db.read("SELECT name FROM p ORDER BY boss NULLS FIRST, name"),
        vec!["Ann", "Bob", "Cid", "Dan"]
    );
    assert_eq!(
        db.read("SELECT name, boss FROM p ORDER BY 2 DESC NULLS LAST, 1 LIMIT 2"),
        vec!["Dan,2", "Bob,1"]
    );
}

#[test]
fn grouping_sets_make_subtotals() {
    let db = sales();
    assert_eq!(
        sorted(db.read("SELECT category, SUM(amount) FROM sales GROUP BY ROLLUP (category)")),
        vec![",60", "A,30", "B,15", "C,15"]
    );
    assert_eq!(
        sorted(db.read("SELECT category, COUNT(*) FROM sales GROUP BY GROUPING SETS ((category), ())")),
        vec![",6", "A,2", "B,1", "C,3"]
    );
    match db.plan("SELECT id, category, COUNT(*) FROM sales GROUP BY CUBE (id, category)").unwrap() {
        LogicalPlan::Select(s) => {
            assert_eq!(s.group_by, vec!["id", "category"]);
            let sets = s.grouping_sets.unwrap();
            assert_eq!(sets.len(), 4);
            assert!(sets.contains(&vec![]));
            assert!(sets.contains(&vec!["id".to_string(), "category".to_string()]));
        }
        _ => panic!("a select"),
    }
}

#[test]
fn distinct_and_limits() {
    let db = sales();
    assert_eq!(
        db.read("SELECT DISTINCT category FROM sales ORDER BY category"),
        vec!["A", "B", "C"]
    );
    assert_eq!(
        db.read("SELECT id FROM sales ORDER BY id DESC LIMIT 2 OFFSET 1"),
        vec!["5", "4"]
    );
}

#[test]
fn named_queries_and_recursion() {
    let db = people();
    assert_eq!(
        db.read("WITH a AS (SELECT id, name FROM p WHERE boss = 1) SELECT name FROM a ORDER BY id"),
        vec!["Bob", "Cid"]
    );
    assert_eq!(
        db.read(
            "WITH RECURSIVE n(i) AS (SELECT 1 UNION ALL SELECT i + 1 FROM n WHERE i < 5) \
             SELECT i FROM n ORDER BY i"
        ),
        vec!["1", "2", "3", "4", "5"]
    );
}

#[test]
fn window_frames_slide_over_the_partition() {
    let db = sales();
    assert_eq!(
        db.read(
            "SELECT id, SUM(amount) OVER (ORDER BY id ROWS BETWEEN 1 PRECEDING AND CURRENT ROW) \
             FROM sales ORDER BY id"
        ),
        vec!["1,10", "2,30", "3,35", "4,20", "5,10", "6,10"]
    );
    assert_eq!(
        db.read(
            "SELECT id, ROW_NUMBER() OVER (PARTITION BY category ORDER BY id) FROM sales ORDER BY id"
        ),
        vec!["1,1", "2,2", "3,1", "4,1", "5,2", "6,3"]
    );
    assert_eq!(
        db.read("SELECT id, NTILE(4) OVER (ORDER BY id) FROM sales ORDER BY id"),
        vec!["1,1", "2,1", "3,2", "4,2", "5,3", "6,4"]
    );
    assert_eq!(
        db.read("SELECT id, LEAD(id) OVER (PARTITION BY category ORDER BY id) FROM sales ORDER BY id"),
        vec!["1,2", "2,", "3,", "4,5", "5,6", "6,"]
    );
}

#[test]
fn table_functions_in_from() {
    let db = people();
    assert_eq!(
        db.read("SELECT * FROM generate_series(1, 10, 4)"),
        vec!["1", "5", "9"]
    );
    let out = db.query("SELECT * FROM generate_series(2, 3) WITH ORDINALITY AS g(v, o)").unwrap();
    assert_eq!(out.columns, vec!["v", "o"]);
    assert_eq!(joined(&out, ","), vec!["2,1", "3,2"]);
    assert_eq!(
        db.read("SELECT p.id, g.g FROM p CROSS JOIN generate_series(1, 2) AS g WHERE p.id < 3 ORDER BY p.id, g.g"),
        vec!["1,1", "1,2", "2,1", "2,2"]
    );
    assert_eq!(
        db.read("SELECT * FROM regexp_split_to_table('a,b,,c', ',')"),
        vec!["a", "b", "", "c"]
    );
}

#[test]
fn a_select_without_from_gives_one_row() {
    let db = people();
    let out = db.query("SELECT 1 AS one, 'x' || 'y' AS two, 2 * 3 + 1").unwrap();
    assert_eq!(out.columns, vec!["one", "two", "?column?"]);
    assert_eq!(joined(&out, "|"), vec!["1|xy|7"]);
    assert_eq!(out.tag, "SELECT 1");
    assert!(db.query("SELECT 1 WHERE 1 = 2").unwrap().rows.is_empty());
    assert_eq!(
        db.read("SELECT (SELECT name FROM p WHERE id = 2), EXISTS (SELECT 1 FROM p WHERE id = 9)"),
        vec!["Bob,f"]
    );
    assert_eq!(
        db.query("SELECT (SELECT name FROM p)").unwrap_err(),
        "more than one row returned by a subquery used as an expression"
    );
    assert_eq!(
        db.query("SELECT (SELECT id, name FROM p WHERE id = 1)").unwrap_err(),
        "subquery must return only one column"
    );
}

#[test]
fn conditions_filter_rows() {
    let db = people();
    let names = |c: &str| db.read(&format!("SELECT name FROM p WHERE {c} ORDER BY id"));
    assert_eq!(names("id = 2"), vec!["Bob"]);
    assert_eq!(names("id <> 2 AND id < 4"), vec!["Ann", "Cid"]);
    assert_eq!(names("boss IS NULL OR name = 'Dan'"), vec!["Ann", "Dan"]);
    assert_eq!(names("NOT (id > 1)"), vec!["Ann"]);
    assert_eq!(names("name LIKE '_o%'"), vec!["Bob"]);
    assert_eq!(names("name ILIKE 'd%'"), vec!["Dan"]);
    assert_eq!(names("name ~ '^[AB]'"), vec!["Ann", "Bob"]);
    assert_eq!(names("id BETWEEN 2 AND 3"), vec!["Bob", "Cid"]);
    assert_eq!(names("id IN (1, 4)"), vec!["Ann", "Dan"]);
    assert_eq!(names("id % 2 = 0"), vec!["Bob", "Dan"]);
    assert_eq!(
        names("CASE WHEN id = 3 THEN true ELSE false END"),
        vec!["Cid"]
    );
}

// Plans ---------------------------------------------------------------------

fn plan_error(sql: &str) -> String {
    match Db::default().plan(sql) {
        Ok(_) => panic!("planned: {sql}"),
        Err(m) => m,
    }
}

#[test]
fn statements_plan_to_their_commands() {
    let db = Db::default();
    let plan = |sql: &str| db.plan(sql).unwrap();
    assert!(matches!(plan("BEGIN"), LogicalPlan::Begin));
    assert!(matches!(plan("COMMIT"), LogicalPlan::Commit));
    assert!(matches!(plan("ROLLBACK"), LogicalPlan::Rollback));
    assert!(matches!(plan("SAVEPOINT s"), LogicalPlan::Savepoint { name } if name == "s"));
    assert!(matches!(
        plan("CREATE SCHEMA IF NOT EXISTS s"),
        LogicalPlan::CreateSchema { if_not_exists: true, .. }
    ));
    assert!(matches!(
        plan("DROP TABLE IF EXISTS t"),
        LogicalPlan::DropTable { if_exists: true, .. }
    ));
    assert!(matches!(
        plan("CREATE UNIQUE INDEX i ON t (a, b)"),
        LogicalPlan::CreateIndex { unique: true, columns, .. } if columns == ["a", "b"]
    ));
    assert!(matches!(plan("CREATE VIEW v AS SELECT 1"), LogicalPlan::CreateView { .. }));
    assert!(matches!(
        plan("CREATE TABLE c AS SELECT 1 AS a"),
        LogicalPlan::CreateTableAs { no_data: false, .. }
    ));
    assert!(matches!(
        plan("ALTER TABLE t RENAME COLUMN a TO b"),
        LogicalPlan::AlterTable {
            operation: AlterTableOp::RenameColumn { old_name, new_name }, ..
        } if old_name == "a" && new_name == "b"
    ));
    assert!(matches!(
        plan("ALTER TABLE t RENAME TO u"),
        LogicalPlan::AlterTable { operation: AlterTableOp::RenameTable { new_name }, .. }
            if new_name == "u"
    ));
}

#[test]
fn a_primary_key_column_is_unique_and_not_null() {
    match Db::default().plan("CREATE TABLE t (a INT, b TEXT NOT NULL, PRIMARY KEY (a))").unwrap() {
        LogicalPlan::CreateTable { name, columns, .. } => {
            assert_eq!(name, "t");
            assert!(columns[0].primary && columns[0].unique && !columns[0].nullable);
            assert!(!columns[1].primary && !columns[1].unique && !columns[1].nullable);
        }
        _ => panic!("a table"),
    }
}

#[test]
fn a_where_clause_stays_on_updates_and_deletes() {
    let db = Db::default();
    assert!(matches!(
        db.plan("DELETE FROM t WHERE a = 1").unwrap(),
        LogicalPlan::Delete { filter: Some(_), .. }
    ));
    assert!(matches!(
        db.plan("UPDATE t SET a = 2").unwrap(),
        LogicalPlan::Update { filter: None, .. }
    ));
}

#[test]
fn on_conflict_binds_the_excluded_row() {
    match Db::default()
        .plan("INSERT INTO t (a, b) VALUES (1, 2) ON CONFLICT (a) DO UPDATE SET b = excluded.b")
        .unwrap()
    {
        LogicalPlan::Insert { on_conflict: Some(c), .. } => {
            assert!(matches!(c.target(), Some(ConflictTarget::Columns(cs)) if cs == &["a"]));
            assert!(matches!(c, OnConflictClause::DoUpdate { assignments, .. }
                if assignments[0].0 == "b"));
        }
        _ => panic!("an insert with a conflict clause"),
    }
}

#[test]
fn recursive_queries_split_into_seed_and_step() {
    match Db::default()
        .plan("WITH RECURSIVE n(i) AS (SELECT 1 UNION SELECT i + 1 FROM n) SELECT i FROM n")
        .unwrap()
    {
        LogicalPlan::Select(s) => match &*s.ctes[0].1 {
            LogicalPlan::RecursiveCte { all, column_aliases, .. } => {
                assert!(!all);
                assert_eq!(column_aliases, &vec!["i".to_string()]);
            }
            _ => panic!("a recursive query"),
        },
        _ => panic!("a select"),
    }
}

#[test]
fn each_refusal_says_what_is_not_supported() {
    let starts = |sql: &str, with: &str| {
        let m = plan_error(sql);
        assert!(m.starts_with(with), "{sql}: {m}");
    };
    starts("DELETE FROM t USING u WHERE t.a = u.a", "DELETE ... USING is not supported");
    starts("UPDATE t SET a = 1 FROM u", "UPDATE ... FROM is not supported");
    starts("UPDATE t SET (a, b) = (1, 2, 3)", "number of columns does not match number of values");
    starts("INSERT INTO t VALUES (1) RETURNING old.*", "Unsupported RETURNING item: ");
    starts("SELECT a FROM t WHERE count(a) + 1 > 2", "aggregate functions are not allowed in WHERE");
    starts("VALUES (1)", "Unsupported query body");
    starts("GRANT SELECT ON SCHEMA s TO r", "Unsupported GRANT target");
    starts("REVOKE SELECT ON SCHEMA s FROM r", "Unsupported REVOKE target");
    starts(
        "CREATE TABLE t (a INT) AS SELECT 1",
        "CREATE TABLE AS with a column list is not supported",
    );
    starts("DROP ROLE r", "Unsupported DROP object type: ");
    starts("ALTER TABLE t DISABLE TRIGGER x", "Unsupported ALTER TABLE operation: ");
    starts("SELECT nope", "column \"nope\" does not exist");
    starts("SELECT a.* ", "Unsupported scalar select item");
    starts("EXPLAIN SELECT 1", "Unsupported SQL statement: ");
}

#[test]
fn copies_are_refused_for_their_options() {
    let refused = |sql: &str| match copy_out(sql) {
        Ok(_) => panic!("planned: {sql}"),
        Err(m) => m,
    };
    assert_eq!(refused("COPY t TO STDOUT; DELETE FROM t"), "COPY requires a single statement");
    assert_eq!(refused("COPY t TO PROGRAM 'cat'"), "only COPY TO STDOUT is supported");
    assert_eq!(refused("SELECT 1"), "only COPY TO STDOUT is supported");
    assert_eq!(refused("COPY t TO STDOUT (FORMAT xml)"), "unsupported COPY format: xml");
    assert_eq!(refused("COPY t TO STDOUT (HEADER)"), "COPY HEADER requires CSV format");
    assert!(refused("COPY t TO STDOUT (DELIMITER '|')").starts_with("unsupported COPY option: "));
    assert_eq!(
        refused("COPY t TO STDOUT CSV"),
        "legacy COPY options are not supported; use WITH (FORMAT ...)"
    );
    let (_, format, header) = copy_out("COPY (SELECT 1) TO STDOUT (FORMAT BINARY)").unwrap();
    assert_eq!(format, CopyOutputFormat::Binary);
    assert!(!header);
}

#[test]
fn queries_fail_with_the_name_at_fault() {
    let db = sales();
    let failure = |sql: &str| match db.query(sql) {
        Ok(_) => panic!("ran: {sql}"),
        Err(m) => m,
    };
    assert_eq!(
        failure("SELECT id FROM sales ORDER BY nope"),
        "column \"nope\" does not exist"
    );
    assert!(failure("SELECT FROBNICATE(id) OVER () FROM sales")
        .starts_with("Unsupported window function: "));
    assert!(failure("SELECT nosuch(id) FROM sales").contains("nosuch"));
}

#[test]
fn json_values_keep_their_text() {
    let mut db = Db::default();
    db.sql("CREATE TABLE t (id INT PRIMARY KEY, j JSON)").unwrap();
    db.sql(r#"INSERT INTO t VALUES (1, '{"b": 1,  "a": [1, 2]}')"#).unwrap();
    let out = db
        .sql("SELECT j, j -> 'a', j ->> 'b', json_build_object('j', j), to_jsonb(j) FROM t")
        .unwrap();
    assert_eq!(
        sorted(joined(&out, "|")),
        [r#"{"b": 1,  "a": [1, 2]}|[1, 2]|1|{"j" : {"b": 1,  "a": [1, 2]}}|{"a": [1, 2], "b": 1}"#]
    );
    let out = db.sql("SELECT row_to_json(t), pg_typeof(j) FROM t").unwrap();
    assert_eq!(sorted(joined(&out, "|")), [r#"{"id":1,"j":{"b": 1,  "a": [1, 2]}}|json"#]);
    // Text columns take a json value as its text.
    db.sql("CREATE TABLE s (v TEXT)").unwrap();
    db.sql("INSERT INTO s SELECT j FROM t").unwrap();
    assert_eq!(
        sorted(joined(&db.sql("SELECT v, pg_typeof(v) FROM s").unwrap(), "|")),
        [r#"{"b": 1,  "a": [1, 2]}|text"#]
    );
}

#[test]
fn a_relation_name_stands_for_its_row() {
    let db = Db::default();
    let out = db
        .query("SELECT t, to_json(t) FROM (SELECT 1 AS a, 'x y' AS b, NULL AS c) t")
        .unwrap();
    assert_eq!(
        sorted(joined(&out, "|")),
        [r#"(1,"x y",)|{"a":1,"b":"x y","c":null}"#]
    );
    // A function's row is its value.
    let out = db.query("SELECT x FROM jsonb_array_elements_text('[\"x\", 1]') x").unwrap();
    assert_eq!(sorted(joined(&out, "|")), ["1", "x"]);
    let out = db
        .query("SELECT * FROM json_array_elements('[1, {\"a\" :  2}]')")
        .unwrap();
    assert_eq!(out.columns, ["value"]);
    assert_eq!(sorted(joined(&out, "|")), ["1", "{\"a\" :  2}"]);
}

/// Runs a query over the rows that an index finds for its condition.
fn through_index(db: &Db, sql: &str, columns: &Vec<ColumnInfo>, indexes: &Vec<IndexInfo>) -> Vec<String> {
    let plan = match prepared(db.plan(sql).unwrap()).unwrap() {
        LogicalPlan::Select(plan) => plan,
        _ => panic!("a query"),
    };
    let (at, found) = find_indexes(&plan.filter, columns, indexes).unwrap();
    assert_eq!(found, vec![1]);
    let value = match &plan.filter {
        Some(FilterExpr::Predicate(Predicate { right: Operand::Literal(v), .. })) => v.duplicate(),
        _ => panic!("an equality"),
    };
    let mut base = db.relation(&plan.table_name, &[]);
    base.rows.retain(|row| row[at] == value);
    joined(&db.select_from(&plan, &base, &[]).unwrap(), "|")
}

#[test]
fn test_secondary_indexing() {
    let column = |id: u64, name: &str, data_type: &str| ColumnInfo {
        id,
        name: name.to_string(),
        data_type: data_type.to_string(),
        nullable: false,
        default: None,
        type_oid: 25,
        type_length: -1,
        type_modifier: -1,
        type_storage: "x".to_string(),
        shown_type: data_type.to_lowercase(),
    };
    let index = |name: &str, column_id: u64, key: bool| IndexInfo {
        name: name.to_string(),
        unique: key,
        primary: key,
        keys: vec![IndexKey { column_id, descending: false }],
        partial: false,
        computed: false,
        oid: 1,
    };
    let columns = vec![column(1, "id", "INT"), column(2, "category", "TEXT")];
    let indexes = vec![index("products_pkey", 1, true), index("idx_cat", 2, false)];
    let mut db = Db::default();
    db.run("CREATE TABLE products (id INT PRIMARY KEY, category TEXT NOT NULL)").unwrap();

    // 1. Insert rows before indexing
    db.run("INSERT INTO products VALUES (1, 'A'), (2, 'B'), (3, 'A')").unwrap();

    // 2. Create index on category
    assert!(matches!(
        db.plan("CREATE INDEX idx_cat ON products (category)").unwrap(),
        LogicalPlan::CreateIndex { name, table_name, columns, unique: false, .. }
            if name == "idx_cat" && table_name == "products" && columns == ["category"]
    ));

    // 3. Insert rows after indexing
    db.run("INSERT INTO products VALUES (4, 'C'), (5, 'A')").unwrap();

    // 4. Query using index
    let in_category = |db: &Db, category: &str| {
        let sql = format!("SELECT id FROM products WHERE category = '{category}' ORDER BY id");
        assert_eq!(through_index(db, &sql, &columns, &indexes), db.read(&sql));
        through_index(db, &sql, &columns, &indexes)
    };
    let out = in_category(&db, "A");
    assert_eq!(out.len(), 3);
    assert_eq!(out[0], "1");
    assert_eq!(out[1], "3");
    assert_eq!(out[2], "5");

    // 5. Update row (change category from A to B)
    db.run("UPDATE products SET category = 'B' WHERE id = 1").unwrap();
    assert_eq!(in_category(&db, "A").len(), 2); // 3 and 5
    assert_eq!(in_category(&db, "B").len(), 2); // 1 and 2

    // 6. Delete row
    db.run("DELETE FROM products WHERE id = 2").unwrap();
    let out_b2 = in_category(&db, "B");
    assert_eq!(out_b2.len(), 1); // Only 1 should be left
    assert_eq!(out_b2[0], "1");
}

#[test]
fn unique_columns_are_planned() {
    let db = Db::default();
    match db.plan("CREATE TABLE users (id INT PRIMARY KEY, email TEXT NOT NULL UNIQUE)").unwrap() {
        LogicalPlan::CreateTable { name, columns, .. } => {
            assert_eq!(name, "users");
            let flags: Vec<(&str, bool, bool, bool)> = columns
                .iter()
                .map(|c| (c.name.as_str(), c.nullable, c.unique, c.primary))
                .collect();
            assert_eq!(flags, vec![("id", false, true, true), ("email", false, true, false)]);
        }
        _ => panic!("a table"),
    }
}

#[test]
fn grants_and_settings_are_planned() {
    let db = Db::default();
    assert!(matches!(
        db.plan("GRANT SELECT ON t TO r").unwrap(),
        LogicalPlan::Grant { privilege, object_name, grantee }
            if privilege == "SELECT" && object_name == "t" && grantee == "r"
    ));
    assert!(matches!(
        db.plan("SET search_path TO public").unwrap(),
        LogicalPlan::SetVariable { variable, .. } if variable == "search_path"
    ));
    assert!(matches!(db.plan("SHOW search_path").unwrap(), LogicalPlan::ShowVariable { .. }));
    assert!(matches!(db.plan("CREATE ROLE r").unwrap(), LogicalPlan::CreateRole { name } if name == "r"));
}

#[test]
fn what_cannot_be_planned_is_an_error() {
    assert!(plan_error("SELECT a FROM t WHERE nosuch(a)").contains("nosuch"));
    assert!(plan_error("SELECT a FROM t ORDER BY a USING <").len() > 0);
    assert!(plan_error("COPY t FROM STDIN").len() > 0);
    let wide: Vec<String> = (0..32).map(|i| format!("c{i}")).collect();
    assert_eq!(
        plan_error(&format!("SELECT 1 FROM t GROUP BY CUBE ({})", wide.join(", "))),
        "CUBE has too many elements"
    );
}

// The parser's statements in the library's syntax ----------------------------

fn ident(i: &sql::Ident) -> ast::Ident {
    ast::Ident {
        value: i.value.clone(),
        quoted: i.quote_style.is_some(),
    }
}

fn last_ident(name: &sql::ObjectName) -> Option<&sql::Ident> {
    name.0.last().and_then(|p| p.as_ident())
}

fn object_name(name: &sql::ObjectName) -> ast::ObjectName {
    ast::ObjectName {
        text: name.to_string(),
        last_part: last_ident(name).map(|i| i.value.clone()),
    }
}

fn values(idents: &[sql::Ident]) -> Vec<String> {
    idents.iter().map(|i| i.value.clone()).collect()
}

fn texts<T: ToString>(items: &[T]) -> Vec<String> {
    items.iter().map(ToString::to_string).collect()
}

fn value(v: &sql::Value) -> ast::SqlValue {
    match v {
        sql::Value::SingleQuotedString(s) => ast::SqlValue::Quoted(s.clone()),
        sql::Value::EscapedStringLiteral(s) | sql::Value::UnicodeStringLiteral(s) | sql::Value::NationalStringLiteral(s) => {
            ast::SqlValue::Spelled(s.clone())
        }
        sql::Value::DollarQuotedString(s) => ast::SqlValue::Spelled(s.value.clone()),
        sql::Value::Number(n, _) => ast::SqlValue::Number(n.clone()),
        sql::Value::Boolean(b) => ast::SqlValue::Boolean(*b),
        sql::Value::Null => ast::SqlValue::Null,
        sql::Value::Placeholder(s) => ast::SqlValue::Placeholder(s.clone()),
        _ => ast::SqlValue::Other,
    }
}

fn unary(op: &sql::UnaryOperator) -> ast::SqlUnaryOp {
    match op {
        sql::UnaryOperator::Minus => ast::SqlUnaryOp::Minus,
        sql::UnaryOperator::Plus => ast::SqlUnaryOp::Plus,
        sql::UnaryOperator::Not => ast::SqlUnaryOp::Not,
        _ => ast::SqlUnaryOp::Other,
    }
}

fn binary(op: &sql::BinaryOperator) -> ast::SqlBinaryOp {
    match op {
        sql::BinaryOperator::Plus => ast::SqlBinaryOp::Plus,
        sql::BinaryOperator::Minus => ast::SqlBinaryOp::Minus,
        sql::BinaryOperator::Multiply => ast::SqlBinaryOp::Multiply,
        sql::BinaryOperator::Divide => ast::SqlBinaryOp::Divide,
        sql::BinaryOperator::Modulo => ast::SqlBinaryOp::Modulo,
        sql::BinaryOperator::Eq => ast::SqlBinaryOp::Eq,
        sql::BinaryOperator::NotEq => ast::SqlBinaryOp::NotEq,
        sql::BinaryOperator::Lt => ast::SqlBinaryOp::Lt,
        sql::BinaryOperator::LtEq => ast::SqlBinaryOp::LtEq,
        sql::BinaryOperator::Gt => ast::SqlBinaryOp::Gt,
        sql::BinaryOperator::GtEq => ast::SqlBinaryOp::GtEq,
        sql::BinaryOperator::And => ast::SqlBinaryOp::And,
        sql::BinaryOperator::Or => ast::SqlBinaryOp::Or,
        sql::BinaryOperator::StringConcat => ast::SqlBinaryOp::StringConcat,
        sql::BinaryOperator::Arrow => ast::SqlBinaryOp::Arrow,
        sql::BinaryOperator::LongArrow => ast::SqlBinaryOp::LongArrow,
        sql::BinaryOperator::HashArrow => ast::SqlBinaryOp::HashArrow,
        sql::BinaryOperator::HashLongArrow => ast::SqlBinaryOp::HashLongArrow,
        sql::BinaryOperator::Question => ast::SqlBinaryOp::Question,
        sql::BinaryOperator::QuestionPipe => ast::SqlBinaryOp::QuestionPipe,
        sql::BinaryOperator::QuestionAnd => ast::SqlBinaryOp::QuestionAnd,
        sql::BinaryOperator::AtArrow => ast::SqlBinaryOp::AtArrow,
        sql::BinaryOperator::ArrowAt => ast::SqlBinaryOp::ArrowAt,
        sql::BinaryOperator::PGOverlap => ast::SqlBinaryOp::Overlap,
        sql::BinaryOperator::PGRegexMatch => ast::SqlBinaryOp::RegexMatch,
        sql::BinaryOperator::PGRegexIMatch => ast::SqlBinaryOp::RegexIMatch,
        sql::BinaryOperator::PGRegexNotMatch => ast::SqlBinaryOp::RegexNotMatch,
        sql::BinaryOperator::PGRegexNotIMatch => ast::SqlBinaryOp::RegexNotIMatch,
        sql::BinaryOperator::PGLikeMatch => ast::SqlBinaryOp::LikeMatch,
        sql::BinaryOperator::PGILikeMatch => ast::SqlBinaryOp::ILikeMatch,
        sql::BinaryOperator::PGNotLikeMatch => ast::SqlBinaryOp::NotLikeMatch,
        sql::BinaryOperator::PGNotILikeMatch => ast::SqlBinaryOp::NotILikeMatch,
        sql::BinaryOperator::PGCustomBinaryOperator(parts) => ast::SqlBinaryOp::Qualified(parts.clone()),
        sql::BinaryOperator::Custom(s) => ast::SqlBinaryOp::Custom(s.clone()),
        _ => ast::SqlBinaryOp::Other,
    }
}

fn argument(arg: &sql::FunctionArg) -> ast::FunctionArg {
    let kind = match arg {
        sql::FunctionArg::Unnamed(sql::FunctionArgExpr::Expr(e)) => ast::ArgKind::Expr(expr(e)),
        sql::FunctionArg::Unnamed(sql::FunctionArgExpr::Wildcard) => ast::ArgKind::Wildcard,
        sql::FunctionArg::Named {
            arg: sql::FunctionArgExpr::Expr(e), ..
        } => ast::ArgKind::Named(expr(e)),
        _ => ast::ArgKind::Other,
    };
    ast::FunctionArg {
        text: arg.to_string(),
        kind,
    }
}

fn direction(sort: &Option<sql::OrderBySort>) -> Option<ast::SortDirection> {
    sort.as_ref().map(|s| match s {
        sql::OrderBySort::Asc => ast::SortDirection::Asc,
        sql::OrderBySort::Desc => ast::SortDirection::Desc,
        sql::OrderBySort::Using(op) => ast::SortDirection::Using(op.to_string()),
    })
}

fn order_item(o: &sql::OrderByExpr) -> ast::OrderItem {
    ast::OrderItem {
        expr: expr(&o.expr),
        direction: direction(&o.options.sort),
        nulls_first: o.options.nulls_first,
    }
}

fn bound(b: &sql::WindowFrameBound) -> ast::FrameBound {
    match b {
        sql::WindowFrameBound::CurrentRow => ast::FrameBound::CurrentRow,
        sql::WindowFrameBound::Preceding(e) => ast::FrameBound::Preceding(boxed_if(e)),
        sql::WindowFrameBound::Following(e) => ast::FrameBound::Following(boxed_if(e)),
    }
}

fn over(w: &sql::WindowType) -> ast::Over {
    match w {
        sql::WindowType::WindowSpec(spec) => ast::Over::Spec {
            partition_by: exprs(&spec.partition_by),
            order_by: spec.order_by.iter().map(order_item).collect(),
            frame: spec.window_frame.as_ref().map(|f| ast::Frame {
                units: match f.units {
                    sql::WindowFrameUnits::Rows => ast::FrameUnits::Rows,
                    sql::WindowFrameUnits::Range => ast::FrameUnits::Range,
                    sql::WindowFrameUnits::Groups => ast::FrameUnits::Groups,
                },
                start: bound(&f.start_bound),
                end: f.end_bound.as_ref().map(bound),
            }),
        },
        sql::WindowType::NamedWindow(_) => ast::Over::Named,
    }
}

fn call(f: &sql::Function) -> ast::FunctionCall {
    ast::FunctionCall {
        name: f.name.to_string(),
        last_part: last_ident(&f.name).map(ident),
        args: match &f.args {
            sql::FunctionArguments::None => ast::Arguments::Absent,
            sql::FunctionArguments::List(list) => ast::Arguments::List {
                args: list.args.iter().map(argument).collect(),
                distinct: matches!(
                    list.duplicate_treatment,
                    Some(sql::DuplicateTreatment::Distinct)
                ),
                clauses: !list.clauses.is_empty(),
            },
            sql::FunctionArguments::Subquery(_) => ast::Arguments::Other,
        },
        over: f.over.as_ref().map(over),
        filtered: f.filter.is_some(),
        within_group: !f.within_group.is_empty(),
    }
}

fn exprs(es: &[sql::Expr]) -> Vec<ast::SqlExpr> {
    es.iter().map(expr).collect()
}

fn boxed(e: &sql::Expr) -> Box<ast::SqlExpr> {
    Box::new(expr(e))
}

fn boxed_if(e: &Option<Box<sql::Expr>>) -> Option<Box<ast::SqlExpr>> {
    e.as_deref().map(boxed)
}

fn lists(ls: &[Vec<sql::Expr>]) -> Vec<Vec<ast::SqlExpr>> {
    ls.iter().map(|l| exprs(l)).collect()
}

fn is_bool(e: &sql::Expr, value: Option<bool>, negated: bool) -> ast::SqlNode {
    ast::SqlNode::IsBool {
        expr: boxed(e),
        value,
        negated,
    }
}

fn like(
    kind: ast::LikeKind,
    (negated, any): (bool, bool),
    e: &sql::Expr,
    pattern: &sql::Expr,
    escape: Option<Box<ast::SqlExpr>>,
) -> ast::SqlNode {
    ast::SqlNode::Like {
        kind,
        negated,
        any,
        expr: boxed(e),
        pattern: boxed(pattern),
        escape,
    }
}

fn rounded(e: &sql::Expr, up: bool, field: &sql::CeilFloorKind) -> ast::SqlNode {
    ast::SqlNode::Rounded {
        expr: boxed(e),
        up,
        plain: matches!(
            field,
            sql::CeilFloorKind::DateTimeField(sql::DateTimeField::NoDateTime)
        ),
    }
}

fn expr(e: &sql::Expr) -> ast::SqlExpr {
    ast::SqlExpr {
        text: e.to_string(),
        node: node(e),
    }
}

fn node(e: &sql::Expr) -> ast::SqlNode {
    match e {
        sql::Expr::Value(v) => ast::SqlNode::Value(value(&v.value)),
        sql::Expr::Identifier(i) => ast::SqlNode::Identifier(ident(i)),
        sql::Expr::CompoundIdentifier(ids) => ast::SqlNode::Compound(ids.iter().map(ident).collect()),
        sql::Expr::TypedString(t) => ast::SqlNode::TypedString {
            value: value(&t.value.value),
            data_type: t.data_type.to_string(),
        },
        sql::Expr::Interval(i) => ast::SqlNode::Interval {
            value: boxed(&i.value),
            leading: i.leading_field.as_ref().map(ToString::to_string),
        },
        sql::Expr::Array(a) => ast::SqlNode::Array(exprs(&a.elem)),
        sql::Expr::UnaryOp { op, expr: x } => ast::SqlNode::Unary {
            op: unary(op),
            expr: boxed(x),
        },
        sql::Expr::BinaryOp { left, op, right } => ast::SqlNode::Binary {
            left: boxed(left),
            op: binary(op),
            right: boxed(right),
        },
        sql::Expr::Nested(x) => ast::SqlNode::Nested(boxed(x)),
        sql::Expr::Cast {
            expr: x, data_type, ..
        } => ast::SqlNode::Cast {
            expr: boxed(x),
            data_type: data_type.to_string(),
        },
        sql::Expr::IsNull(x) => ast::SqlNode::IsNull(boxed(x)),
        sql::Expr::IsNotNull(x) => ast::SqlNode::IsNotNull(boxed(x)),
        sql::Expr::Case {
            operand,
            conditions,
            else_result,
            ..
        } => ast::SqlNode::Case {
            operand: boxed_if(operand),
            branches: conditions
                .iter()
                .map(|w| (expr(&w.condition), expr(&w.result)))
                .collect(),
            else_result: boxed_if(else_result),
        },
        sql::Expr::Collate { expr: x, .. } => ast::SqlNode::Collate(boxed(x)),
        sql::Expr::Like {
            negated,
            any,
            expr: x,
            pattern,
            escape_char,
        } => like(
            ast::LikeKind::Like,
            (*negated, *any),
            x,
            pattern,
            boxed_if(escape_char),
        ),
        sql::Expr::ILike {
            negated,
            any,
            expr: x,
            pattern,
            escape_char,
        } => like(
            ast::LikeKind::ILike,
            (*negated, *any),
            x,
            pattern,
            boxed_if(escape_char),
        ),
        sql::Expr::SimilarTo {
            negated,
            expr: x,
            pattern,
            escape_char,
        } => like(
            ast::LikeKind::SimilarTo,
            (*negated, false),
            x,
            pattern,
            boxed_if(escape_char),
        ),
        sql::Expr::RLike {
            negated,
            expr: x,
            pattern,
            ..
        } => like(ast::LikeKind::RLike, (*negated, false), x, pattern, None),
        sql::Expr::IsDistinctFrom(l, r) => ast::SqlNode::DistinctFrom {
            left: boxed(l),
            right: boxed(r),
            negated: false,
        },
        sql::Expr::IsNotDistinctFrom(l, r) => ast::SqlNode::DistinctFrom {
            left: boxed(l),
            right: boxed(r),
            negated: true,
        },
        sql::Expr::IsTrue(x) => is_bool(x, Some(true), false),
        sql::Expr::IsNotTrue(x) => is_bool(x, Some(true), true),
        sql::Expr::IsFalse(x) => is_bool(x, Some(false), false),
        sql::Expr::IsNotFalse(x) => is_bool(x, Some(false), true),
        sql::Expr::IsUnknown(x) => is_bool(x, None, false),
        sql::Expr::IsNotUnknown(x) => is_bool(x, None, true),
        sql::Expr::InList {
            expr: x,
            list,
            negated,
        } => ast::SqlNode::InList {
            expr: boxed(x),
            list: exprs(list),
            negated: *negated,
        },
        sql::Expr::InSubquery {
            expr: x,
            subquery,
            negated,
        } => ast::SqlNode::InSubquery {
            expr: boxed(x),
            query: Box::new(query(subquery)),
            negated: *negated,
        },
        sql::Expr::Between {
            expr: x,
            negated,
            low,
            high,
        } => ast::SqlNode::Between {
            expr: boxed(x),
            negated: *negated,
            low: boxed(low),
            high: boxed(high),
        },
        sql::Expr::AnyOp {
            left,
            compare_op,
            right,
            ..
        } => ast::SqlNode::Quantified {
            left: boxed(left),
            op: binary(compare_op),
            op_text: compare_op.to_string(),
            right: boxed(right),
            all: false,
        },
        sql::Expr::AllOp {
            left,
            compare_op,
            right,
        } => ast::SqlNode::Quantified {
            left: boxed(left),
            op: binary(compare_op),
            op_text: compare_op.to_string(),
            right: boxed(right),
            all: true,
        },
        sql::Expr::Tuple(items) => ast::SqlNode::Tuple(exprs(items)),
        sql::Expr::Function(f) => ast::SqlNode::Function(call(f)),
        sql::Expr::Substring {
            expr: x,
            substring_from,
            substring_for,
            shorthand,
            ..
        } => ast::SqlNode::Substring {
            expr: boxed(x),
            from: boxed_if(substring_from),
            length: boxed_if(substring_for),
            shorthand: *shorthand,
        },
        sql::Expr::Trim {
            expr: x,
            trim_where,
            trim_what,
            trim_characters,
        } => ast::SqlNode::Trim {
            expr: boxed(x),
            side: match trim_where {
                Some(sql::TrimWhereField::Leading) => ast::TrimSide::Leading,
                Some(sql::TrimWhereField::Trailing) => ast::TrimSide::Trailing,
                _ => ast::TrimSide::Both,
            },
            what: boxed_if(trim_what),
            characters: trim_characters.as_deref().map(exprs),
        },
        sql::Expr::Overlay {
            expr: x,
            overlay_what,
            overlay_from,
            overlay_for,
        } => ast::SqlNode::Overlay {
            expr: boxed(x),
            what: boxed(overlay_what),
            from: boxed(overlay_from),
            length: boxed_if(overlay_for),
        },
        sql::Expr::Ceil { expr: x, field } => rounded(x, true, field),
        sql::Expr::Floor { expr: x, field } => rounded(x, false, field),
        sql::Expr::Extract { field, expr: x, .. } => ast::SqlNode::Extract {
            field: field.to_string(),
            expr: boxed(x),
        },
        sql::Expr::Exists { subquery, negated } => ast::SqlNode::Exists {
            query: Box::new(query(subquery)),
            negated: *negated,
        },
        sql::Expr::Subquery(q) => ast::SqlNode::Subquery(Box::new(query(q))),
        sql::Expr::CompoundFieldAccess { root, access_chain } => ast::SqlNode::Access {
            root: boxed(root),
            chain: access_chain
                .iter()
                .map(|access| match access {
                    sql::AccessExpr::Dot(sql::Expr::Identifier(field)) => Some(field.value.clone()),
                    _ => None,
                })
                .collect(),
        },
        sql::Expr::Rollup(ls) => ast::SqlNode::Rollup(lists(ls)),
        sql::Expr::Cube(ls) => ast::SqlNode::Cube(lists(ls)),
        sql::Expr::GroupingSets(ls) => ast::SqlNode::GroupingSets(lists(ls)),
        _ => ast::SqlNode::Other,
    }
}

fn query(q: &sql::Query) -> ast::Query {
    let (limit, offset) = match &q.limit_clause {
        Some(sql::LimitClause::LimitOffset { limit, offset, .. }) => (
            limit.as_ref().map(expr),
            offset.as_ref().map(|o| expr(&o.value)),
        ),
        Some(sql::LimitClause::OffsetCommaLimit { offset, limit }) => {
            (Some(expr(limit)), Some(expr(offset)))
        }
        None => (None, None),
    };
    ast::Query {
        with: q.with.as_ref().map(|w| ast::With {
            recursive: w.recursive,
            ctes: w
                .cte_tables
                .iter()
                .map(|c| ast::Cte {
                    name: c.alias.name.value.clone(),
                    columns: c
                        .alias
                        .columns
                        .iter()
                        .map(|c| c.name.value.clone())
                        .collect(),
                    query: Box::new(query(&c.query)),
                })
                .collect(),
        }),
        body: Box::new(body(&q.body)),
        order_by: match &q.order_by {
            Some(sql::OrderBy {
                kind: sql::OrderByKind::Expressions(items),
                ..
            }) => items.iter().map(order_item).collect(),
            _ => Vec::new(),
        },
        limit,
        offset,
    }
}

fn body(b: &sql::SetExpr) -> ast::Body {
    match b {
        sql::SetExpr::Select(s) => ast::Body::Select(Box::new(select(s))),
        sql::SetExpr::SetOperation {
            op,
            set_quantifier,
            left,
            right,
        } => ast::Body::SetOperation {
            op: match op {
                sql::SetOperator::Union => ast::SetOperator::Union,
                sql::SetOperator::Intersect => ast::SetOperator::Intersect,
                sql::SetOperator::Except => ast::SetOperator::Except,
                sql::SetOperator::Minus => ast::SetOperator::Minus,
            },
            all: *set_quantifier == sql::SetQuantifier::All,
            left: Box::new(body(left)),
            right: Box::new(body(right)),
        },
        sql::SetExpr::Query(q) => ast::Body::Query(Box::new(query(q))),
        sql::SetExpr::Values(v) => ast::Body::Values(v.rows.iter().map(|r| exprs(&r.content)).collect()),
        sql::SetExpr::Insert(s) => ast::Body::Insert(Box::new(statement(s))),
        sql::SetExpr::Update(_) => ast::Body::Update,
        sql::SetExpr::Delete(_) => ast::Body::Delete,
        sql::SetExpr::Merge(_) => ast::Body::Merge,
        _ => ast::Body::Other,
    }
}

fn select_item(item: &sql::SelectItem) -> ast::SelectItem {
    let kind = match item {
        sql::SelectItem::UnnamedExpr(e) => ast::ItemKind::Unnamed(expr(e)),
        sql::SelectItem::ExprWithAlias { expr: e, alias } => {
            ast::ItemKind::Aliased(expr(e), alias.value.clone())
        }
        sql::SelectItem::Wildcard(_) => ast::ItemKind::Wildcard,
        sql::SelectItem::QualifiedWildcard(sql::SelectItemQualifiedWildcardKind::ObjectName(name), _) => {
            ast::ItemKind::QualifiedWildcard(Some(name.to_string()))
        }
        sql::SelectItem::QualifiedWildcard(_, _) => ast::ItemKind::QualifiedWildcard(None),
        sql::SelectItem::ExprWithAliases { .. } => ast::ItemKind::MultiAliased,
    };
    ast::SelectItem {
        text: item.to_string(),
        kind,
    }
}

fn select_items(items: &[sql::SelectItem]) -> Vec<ast::SelectItem> {
    items.iter().map(select_item).collect()
}

fn alias(a: &Option<sql::TableAlias>) -> Option<ast::TableAlias> {
    a.as_ref().map(|a| ast::TableAlias {
        name: a.name.value.clone(),
        columns: a.columns.iter().map(|c| c.name.value.clone()).collect(),
    })
}

fn factor(f: &sql::TableFactor) -> ast::TableFactor {
    let kind = match f {
        sql::TableFactor::Table {
            name,
            alias: a,
            args,
            with_ordinality,
            ..
        } => ast::FactorKind::Table {
            name: name.to_string(),
            alias: alias(a),
            args: args
                .as_ref()
                .map(|t| t.args.iter().map(argument).collect()),
            with_ordinality: *with_ordinality,
        },
        sql::TableFactor::Derived {
            subquery, alias: a, ..
        } => ast::FactorKind::Derived {
            subquery: Box::new(query(subquery)),
            alias: alias(a),
        },
        sql::TableFactor::UNNEST {
            array_exprs,
            with_ordinality,
            alias: a,
            ..
        } => ast::FactorKind::Unnest {
            array_exprs: exprs(array_exprs),
            with_ordinality: *with_ordinality,
            alias: alias(a),
        },
        _ => ast::FactorKind::Other,
    };
    ast::TableFactor {
        text: format!("{f:?}"),
        kind,
    }
}

fn constraint(c: &sql::JoinConstraint) -> ast::JoinConstraint {
    match c {
        sql::JoinConstraint::On(e) => ast::JoinConstraint::On(expr(e)),
        sql::JoinConstraint::Using(cols) => ast::JoinConstraint::Using(texts(cols)),
        sql::JoinConstraint::Natural => ast::JoinConstraint::Natural,
        sql::JoinConstraint::None => ast::JoinConstraint::Absent,
    }
}

fn operator(op: &sql::JoinOperator) -> ast::JoinOperator {
    match op {
        sql::JoinOperator::Join(c) | sql::JoinOperator::Inner(c) => ast::JoinOperator::Inner(constraint(c)),
        sql::JoinOperator::Left(c) | sql::JoinOperator::LeftOuter(c) => ast::JoinOperator::Left(constraint(c)),
        sql::JoinOperator::Right(c) | sql::JoinOperator::RightOuter(c) => ast::JoinOperator::Right(constraint(c)),
        sql::JoinOperator::FullOuter(c) => ast::JoinOperator::Full(constraint(c)),
        sql::JoinOperator::CrossJoin(_) => ast::JoinOperator::Cross,
        other => ast::JoinOperator::Other(format!("{other:?}")),
    }
}

fn from_item(t: &sql::TableWithJoins) -> ast::FromItem {
    ast::FromItem {
        relation: factor(&t.relation),
        joins: t
            .joins
            .iter()
            .map(|j| ast::JoinClause {
                relation: factor(&j.relation),
                operator: operator(&j.join_operator),
            })
            .collect(),
    }
}

fn select(s: &sql::Select) -> ast::Select {
    ast::Select {
        distinct: s.distinct.is_some(),
        projection: select_items(&s.projection),
        from: s.from.iter().map(from_item).collect(),
        selection: s.selection.as_ref().map(expr),
        group_by: match &s.group_by {
            sql::GroupByExpr::Expressions(es, _) => exprs(es),
            sql::GroupByExpr::All(_) => Vec::new(),
        },
        having: s.having.as_ref().map(expr),
        into: s.into.as_ref().map(|i| texts(&i.targets)),
    }
}

fn column(c: &sql::ColumnDef) -> ast::ColumnSpec {
    ast::ColumnSpec {
        name: c.name.value.clone(),
        data_type: c.data_type.to_string(),
        options: c
            .options
            .iter()
            .map(|o| {
                (
                    o.name.as_ref().map(|n| n.value.clone()),
                    column_option(&o.option),
                )
            })
            .collect(),
    }
}

fn reference(fk: &sql::ForeignKeyConstraint) -> ast::ForeignKeySpec {
    ast::ForeignKeySpec {
        foreign_table: fk.foreign_table.to_string(),
        referred_columns: values(&fk.referred_columns),
    }
}

fn column_option(o: &sql::ColumnOption) -> ast::ColumnOption {
    match o {
        sql::ColumnOption::NotNull => ast::ColumnOption::NotNull,
        sql::ColumnOption::Default(e) => ast::ColumnOption::Default(expr(e)),
        sql::ColumnOption::PrimaryKey(_) => ast::ColumnOption::PrimaryKey,
        sql::ColumnOption::Unique(_) => ast::ColumnOption::Unique,
        sql::ColumnOption::Check(c) => ast::ColumnOption::Check(expr(&c.expr)),
        sql::ColumnOption::ForeignKey(fk) => ast::ColumnOption::ForeignKey(reference(fk)),
        _ => ast::ColumnOption::Other,
    }
}

fn index_columns(cols: &[sql::IndexColumn]) -> Vec<ast::SqlExpr> {
    cols.iter().map(|c| expr(&c.column.expr)).collect()
}

fn table_constraint(c: &sql::TableConstraint) -> ast::ConstraintSpec {
    match c {
        sql::TableConstraint::Unique(u) => ast::ConstraintSpec::Unique {
            columns: index_columns(&u.columns),
        },
        sql::TableConstraint::PrimaryKey(p) => ast::ConstraintSpec::PrimaryKey {
            columns: index_columns(&p.columns),
        },
        sql::TableConstraint::Check(c) => ast::ConstraintSpec::Check {
            name: c.name.as_ref().map(|n| n.value.clone()),
            expr: expr(&c.expr),
        },
        sql::TableConstraint::ForeignKey(fk) => ast::ConstraintSpec::ForeignKey {
            name: fk.name.as_ref().map(|n| n.value.clone()),
            columns: values(&fk.columns),
            reference: reference(fk),
        },
        _ => ast::ConstraintSpec::Other,
    }
}

fn assignment(a: &sql::Assignment) -> ast::Assignment {
    ast::Assignment {
        target: match &a.target {
            sql::AssignmentTarget::ColumnName(name) => {
                ast::AssignmentTarget::Column(object_name(name))
            }
            sql::AssignmentTarget::Tuple(names) => {
                ast::AssignmentTarget::Tuple(names.iter().map(object_name).collect())
            }
        },
        value: expr(&a.value),
    }
}

fn assignments(list: &[sql::Assignment]) -> Vec<ast::Assignment> {
    list.iter().map(assignment).collect()
}

fn insert_clause(on: &sql::OnInsert) -> ast::InsertClause {
    match on {
        sql::OnInsert::OnConflict(oc) => ast::InsertClause::OnConflict {
            target: oc.conflict_target.as_ref().map(|t| match t {
                sql::ConflictTarget::Columns(cols) => ast::ConflictSpec::Columns(values(cols)),
                sql::ConflictTarget::OnConstraint(name) => {
                    ast::ConflictSpec::Constraint(object_name(name))
                }
            }),
            action: match &oc.action {
                sql::OnConflictAction::DoNothing => ast::ConflictAction::Nothing,
                sql::OnConflictAction::DoUpdate(du) => ast::ConflictAction::Update {
                    assignments: assignments(&du.assignments),
                    selection: du.selection.as_ref().map(expr),
                },
            },
        },
        other => ast::InsertClause::Other(other.to_string()),
    }
}

fn insert(i: &sql::Insert) -> ast::Insert {
    ast::Insert {
        table: match &i.table {
            sql::TableObject::TableName(name) => Ok(name.to_string()),
            other => Err(format!("{other:?}")),
        },
        columns: i.columns.iter().map(object_name).collect(),
        source: i.source.as_ref().map(|q| Box::new(query(q))),
        returning: i.returning.as_deref().map(select_items),
        on: i.on.as_ref().map(insert_clause),
    }
}

fn grant(
    privileges: &sql::Privileges,
    objects: &Option<sql::GrantObjects>,
    grantees: &[sql::Grantee],
) -> ast::GrantSpec {
    ast::GrantSpec {
        actions: match privileges {
            sql::Privileges::Actions(actions) => Some(texts(actions)),
            _ => None,
        },
        grantees: texts(grantees),
        tables: match objects {
            Some(sql::GrantObjects::Tables(tables)) => Some(texts(tables)),
            _ => None,
        },
    }
}

fn set(s: &sql::Set) -> ast::SetStatement {
    match s {
        sql::Set::SingleAssignment {
            variable, values, ..
        } => ast::SetStatement::Assignment {
            variable: variable.to_string(),
            values: texts(values),
        },
        sql::Set::SetTransaction { .. } => ast::SetStatement::Transaction,
        sql::Set::SetTimeZone { value, .. } => ast::SetStatement::TimeZone {
            value: value.to_string(),
        },
        other => ast::SetStatement::Other(format!("{other:?}")),
    }
}

fn alteration(op: &sql::AlterTableOperation) -> ast::AlterOperation {
    match op {
        sql::AlterTableOperation::AddColumn { column_def, .. } => ast::AlterOperation::AddColumn(column(column_def)),
        sql::AlterTableOperation::RenameColumn {
            old_column_name,
            new_column_name,
        } => ast::AlterOperation::RenameColumn {
            old_name: old_column_name.value.clone(),
            new_name: new_column_name.value.clone(),
        },
        sql::AlterTableOperation::DropColumn { column_names, .. } => ast::AlterOperation::DropColumn {
            names: values(column_names),
        },
        sql::AlterTableOperation::AlterColumn {
            column_name,
            op: sql::AlterColumnOperation::SetDataType { data_type, .. },
        } => ast::AlterOperation::SetDataType {
            column: column_name.value.clone(),
            data_type: data_type.to_string(),
        },
        sql::AlterTableOperation::RenameTable { table_name } => ast::AlterOperation::RenameTable {
            name: match table_name {
                sql::RenameTableNameKind::As(name) | sql::RenameTableNameKind::To(name) => {
                    name.to_string()
                }
            },
        },
        other => ast::AlterOperation::Other(format!("{other:?}")),
    }
}

fn copy_option(o: &sql::CopyOption) -> ast::CopyOption {
    match o {
        sql::CopyOption::Format(name) => {
            ast::CopyOption::Format(name.value.clone(), name.to_string())
        }
        sql::CopyOption::Header(h) => ast::CopyOption::Header(*h),
        other => ast::CopyOption::Other(other.to_string()),
    }
}

/// Converts a parsed MERGE; its source is read by a query of its own.
fn merge(m: &sql::Merge) -> ast::Merge {
    let read = Parser::parse_sql(&PostgreSqlDialect {}, &format!("SELECT * FROM {}", m.source));
    let source = match &read.unwrap()[0] {
        sql::Statement::Query(q) => query(q),
        _ => unreachable!(),
    };
    ast::Merge {
        table: factor(&m.table),
        alias: match &m.table {
            sql::TableFactor::Table { alias: Some(a), .. } => Some(a.name.value.clone()),
            _ => None,
        },
        source,
        on: Some(expr(&m.on)),
        clauses: m.clauses.iter().map(merge_clause).collect(),
        returning: match &m.output {
            Some(sql::OutputClause::Returning { select_items: list, .. }) => {
                Some(select_items(list))
            }
            _ => None,
        },
    }
}

fn merge_clause(c: &sql::MergeClause) -> ast::MergeWhen {
    ast::MergeWhen {
        kind: match c.clause_kind {
            sql::MergeClauseKind::Matched => MergeKind::Matched,
            sql::MergeClauseKind::NotMatchedBySource => MergeKind::NotMatchedBySource,
            _ => MergeKind::NotMatchedByTarget,
        },
        condition: c.predicate.as_ref().map(expr),
        step: match &c.action {
            sql::MergeAction::Insert(i) => ast::MergeStep::Insert {
                columns: i.columns.iter().map(object_name).collect(),
                values: match &i.kind {
                    sql::MergeInsertKind::Values(v) => {
                        v.rows.iter().flat_map(|row| row.content.iter().map(expr)).collect()
                    }
                    _ => vec![],
                },
            },
            sql::MergeAction::Update(u) => match &u.kind {
                sql::MergeUpdateKind::Set(list) => ast::MergeStep::Update(assignments(list)),
                _ => panic!("an update that these tests do not use"),
            },
            sql::MergeAction::Delete { .. } => ast::MergeStep::Delete,
            sql::MergeAction::DoNothing { .. } => ast::MergeStep::Nothing,
        },
    }
}

/// Converts a parsed statement.
fn statement(s: &sql::Statement) -> ast::Statement {
    match s {
        sql::Statement::CreateSchema {
            schema_name,
            if_not_exists,
            ..
        } => ast::Statement::CreateSchema {
            name: match schema_name {
                sql::SchemaName::Simple(name) => Some(name.to_string()),
                _ => None,
            },
            if_not_exists: *if_not_exists,
        },
        sql::Statement::CreateTable(t) => ast::Statement::CreateTable(ast::CreateTable {
            name: t.name.to_string(),
            columns: t.columns.iter().map(column).collect(),
            constraints: t.constraints.iter().map(table_constraint).collect(),
            if_not_exists: t.if_not_exists,
            query: t.query.as_ref().map(|q| Box::new(query(q))),
        }),
        sql::Statement::CreateView(v) => ast::Statement::CreateView {
            name: v.name.to_string(),
            query: Box::new(query(&v.query)),
        },
        sql::Statement::Drop {
            object_type,
            if_exists,
            names,
            cascade,
            ..
        } => ast::Statement::Drop {
            object_type: match object_type {
                sql::ObjectType::Table => ast::ObjectType::Table,
                sql::ObjectType::View => ast::ObjectType::View,
                sql::ObjectType::Schema => ast::ObjectType::Schema,
                sql::ObjectType::Index => ast::ObjectType::Index,
                _ => ast::ObjectType::Other,
            },
            object_text: format!("{object_type:?}"),
            if_exists: *if_exists,
            names: texts(names),
            cascade: *cascade,
        },
        sql::Statement::CreateIndex(i) => ast::Statement::CreateIndex {
            name: i.name.as_ref().map(ToString::to_string),
            table_name: i.table_name.to_string(),
            columns: index_columns(&i.columns),
            unique: i.unique,
            if_not_exists: i.if_not_exists,
        },
        sql::Statement::CreateRole(r) => ast::Statement::CreateRole {
            names: texts(&r.names),
        },
        sql::Statement::Grant(g) => ast::Statement::Grant(grant(&g.privileges, &g.objects, &g.grantees)),
        sql::Statement::Revoke(r) => ast::Statement::Revoke(grant(&r.privileges, &r.objects, &r.grantees)),
        sql::Statement::Insert(i) => ast::Statement::Insert(insert(i)),
        sql::Statement::Query(q) => ast::Statement::Query(Box::new(query(q))),
        sql::Statement::Update(u) => ast::Statement::Update {
            from: u.from.is_some(),
            table: from_item(&u.table),
            assignments: assignments(&u.assignments),
            selection: u.selection.as_ref().map(expr),
            returning: u.returning.as_deref().map(select_items),
        },
        sql::Statement::Delete(d) => ast::Statement::Delete {
            using: d.using.is_some(),
            from: match &d.from {
                sql::FromTable::WithFromKeyword(t) | sql::FromTable::WithoutKeyword(t) => {
                    t.iter().map(from_item).collect()
                }
            },
            selection: d.selection.as_ref().map(expr),
            returning: d.returning.as_deref().map(select_items),
        },
        sql::Statement::StartTransaction { .. } => ast::Statement::StartTransaction,
        sql::Statement::Commit { .. } => ast::Statement::Commit,
        sql::Statement::Rollback { savepoint, .. } => ast::Statement::Rollback {
            savepoint: savepoint.as_ref().map(|n| n.value.clone()),
        },
        sql::Statement::Savepoint { name } => ast::Statement::Savepoint {
            name: name.value.clone(),
        },
        sql::Statement::ReleaseSavepoint { name } => ast::Statement::ReleaseSavepoint {
            name: name.value.clone(),
        },
        sql::Statement::ShowVariable { variable } => ast::Statement::ShowVariable {
            parts: values(variable),
        },
        sql::Statement::Set(s) => ast::Statement::Assign(set(s)),
        sql::Statement::Discard { .. } => ast::Statement::Discard,
        sql::Statement::Deallocate { .. } => ast::Statement::Deallocate,
        sql::Statement::AlterTable(a) => ast::Statement::AlterTable {
            name: a.name.to_string(),
            operations: a.operations.iter().map(alteration).collect(),
        },
        sql::Statement::Copy {
            source,
            to,
            target,
            options,
            legacy_options,
            ..
        } => ast::Statement::Copy(ast::CopySpec {
            text: format!("{s:?}"),
            source: match source {
                sql::CopySource::Query(q) => Ok(Box::new(query(q))),
                sql::CopySource::Table {
                    table_name,
                    columns,
                } => Err((table_name.to_string(), values(columns))),
            },
            to: *to,
            stdout: matches!(target, sql::CopyTarget::Stdout),
            options: options.iter().map(copy_option).collect(),
            legacy: !legacy_options.is_empty(),
        }),
        other => ast::Statement::Other(format!("{other:?}")),
    }
}
