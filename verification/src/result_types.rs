//! Result types determined from expressions and declared columns, independent
//! of result rows. Describe (LIMIT 0) and Execute must publish the same types.
use vstd::prelude::*;
use crate::expr::{exprs, group_expr_views, kids, lemma_kids_smaller, rebuilt, refs, ExprView};
use crate::facts::{asked, on_one, Facts, Halt, Known, RequestView, Stop, Task, TaskView};
use crate::names::{column_of, find_column};
use crate::plan_types::{AggregateOp, ProjectionItem, ScalarBinaryOp, ScalarExpr, ScalarUnaryOp};
use crate::text::{
    begins, begins_with, concat2, ends, ends_with, index_of, opt_text, position_of, same_text,
    texts, upper, upper_text,
};
use crate::value::{group_value_views, vals, Val, Value};

verus! {

/// The declared types of the columns that expressions name.
pub struct ColumnTypes {
    pub names: Vec<String>,
    pub types: Vec<String>,
    /// Whether a name may also match the last parts of a qualified name.
    pub suffixes: bool,
}

/// What [`ColumnTypes`] stand for.
#[verifier::ext_equal]
pub struct DeclaredTypes {
    pub names: Seq<Seq<char>>,
    pub types: Seq<Seq<char>>,
    pub suffixes: bool,
}

impl DeclaredTypes {
    /// The declared type of a column.
    pub open spec fn declared(self, name: Seq<char>) -> Option<Seq<char>> {
        match if self.suffixes {
            column_of(self.names, name)
        } else {
            index_of(self.names, name)
        } {
            Some(i) => if i < self.types.len() {
                Some(self.types[i])
            } else {
                None
            },
            None => None,
        }
    }
}

/// No columns.
pub open spec fn no_columns() -> DeclaredTypes {
    DeclaredTypes { names: Seq::empty(), types: Seq::empty(), suffixes: false }
}

impl View for ColumnTypes {
    type V = DeclaredTypes;

    open spec fn view(&self) -> DeclaredTypes {
        DeclaredTypes {
            names: texts(self.names@),
            types: texts(self.types@),
            suffixes: self.suffixes,
        }
    }
}

impl ColumnTypes {
    /// The declared type of a column.
    pub fn column(&self, name: &str) -> (r: Option<String>)
        ensures
            opt_text(r) == self@.declared(name@),
    {
        let at = if self.suffixes {
            find_column(&self.names, name)
        } else {
            position_of(&self.names, name)
        };
        match at {
            Some(i) => {
                if i < self.types.len() {
                    Some(self.types[i].clone())
                } else {
                    None
                }
            },
            None => None,
        }
    }
}

/// The type of an aggregate of a column of type `input`.
pub open spec fn aggregate_type_of(op: AggregateOp, input: Option<Seq<char>>) -> Option<Seq<char>> {
    match op {
        AggregateOp::Count => Some("BIGINT"@),
        AggregateOp::Min | AggregateOp::Max | AggregateOp::BitAnd | AggregateOp::BitOr => input,
        AggregateOp::Sum => match input {
            None => None,
            Some(t) => {
                let u = upper(t);
                if u == "INT"@ || u == "INTEGER"@ || u == "INT4"@ || u == "SMALLINT"@ || u
                    == "INT2"@ {
                    Some("BIGINT"@)
                } else if u == "BIGINT"@ || u == "INT8"@ {
                    Some("NUMERIC"@)
                } else {
                    Some(t)
                }
            },
        },
        AggregateOp::Avg | AggregateOp::StddevSamp | AggregateOp::StddevPop | AggregateOp::VarSamp
        | AggregateOp::VarPop => match input {
            None => None,
            Some(t) => {
                let u = upper(t);
                if u == "REAL"@ || u == "FLOAT4"@ || u == "DOUBLE"@ || u == "DOUBLE PRECISION"@
                    || u == "FLOAT8"@ {
                    Some("DOUBLE PRECISION"@)
                } else {
                    Some("NUMERIC"@)
                }
            },
        },
        AggregateOp::StringAgg => Some("TEXT"@),
        AggregateOp::ArrayAgg => match input {
            None => None,
            Some(t) => Some(t + "[]"@),
        },
        AggregateOp::BoolAnd | AggregateOp::BoolOr => Some("BOOLEAN"@),
        AggregateOp::JsonAgg | AggregateOp::JsonObjectAgg => Some("JSON"@),
        AggregateOp::JsonbAgg | AggregateOp::JsonbObjectAgg => Some("JSONB"@),
    }
}

/// The type of an aggregate of a column of type `input`.
pub fn aggregate_type(op: &AggregateOp, input: Option<String>) -> (r: Option<String>)
    ensures
        opt_text(r) == aggregate_type_of(*op, opt_text(input)),
{
    match op {
        AggregateOp::Count => Some("BIGINT".to_owned()),
        AggregateOp::Min | AggregateOp::Max | AggregateOp::BitAnd | AggregateOp::BitOr => input,
        AggregateOp::Sum => match input {
            None => None,
            Some(t) => {
                let up = upper_text(t.as_str());
                let u = up.as_str();
                if same_text(u, "INT") || same_text(u, "INTEGER") || same_text(u, "INT4")
                    || same_text(u, "SMALLINT") || same_text(u, "INT2") {
                    Some("BIGINT".to_owned())
                } else if same_text(u, "BIGINT") || same_text(u, "INT8") {
                    Some("NUMERIC".to_owned())
                } else {
                    Some(t)
                }
            },
        },
        AggregateOp::Avg | AggregateOp::StddevSamp | AggregateOp::StddevPop | AggregateOp::VarSamp
        | AggregateOp::VarPop => match input {
            None => None,
            Some(t) => {
                let up = upper_text(t.as_str());
                let u = up.as_str();
                if same_text(u, "REAL") || same_text(u, "FLOAT4") || same_text(u, "DOUBLE")
                    || same_text(u, "DOUBLE PRECISION") || same_text(u, "FLOAT8") {
                    Some("DOUBLE PRECISION".to_owned())
                } else {
                    Some("NUMERIC".to_owned())
                }
            },
        },
        AggregateOp::StringAgg => Some("TEXT".to_owned()),
        AggregateOp::ArrayAgg => match input {
            None => None,
            Some(t) => Some(concat2(t.as_str(), "[]")),
        },
        AggregateOp::BoolAnd | AggregateOp::BoolOr => Some("BOOLEAN".to_owned()),
        AggregateOp::JsonAgg | AggregateOp::JsonObjectAgg => Some("JSON".to_owned()),
        AggregateOp::JsonbAgg | AggregateOp::JsonbObjectAgg => Some("JSONB".to_owned()),
    }
}

/// The type of a literal; an array's is that of its first typed element.
pub open spec fn literal_type_of(v: Val) -> Option<Seq<char>>
    decreases v,
{
    match v {
        Val::Int(i) => if i32::MIN <= i <= i32::MAX {
            Some("INTEGER"@)
        } else {
            Some("BIGINT"@)
        },
        Val::Float(_) => Some("DOUBLE PRECISION"@),
        Val::Numeric(_) => Some("NUMERIC"@),
        Val::Bool(_) => Some("BOOLEAN"@),
        Val::Text(_) => Some("TEXT"@),
        Val::Jsonb(_) => Some("JSONB"@),
        Val::Array(items) => match first_type(items) {
            Some(t) => Some(t + "[]"@),
            None => None,
        },
        _ => None,
    }
}

/// The type of the first typed value.
pub open spec fn first_type(items: Seq<Val>) -> Option<Seq<char>>
    decreases items,
{
    if items.len() == 0 {
        None
    } else {
        match first_type(items.drop_last()) {
            Some(t) => Some(t),
            None => literal_type_of(items.last()),
        }
    }
}

/// The type of a literal; an array's is that of its first typed element.
pub fn literal_type(value: &Value) -> (r: Option<String>)
    ensures
        opt_text(r) == literal_type_of(value@),
    decreases value,
{
    broadcast use group_value_views;

    match value {
        Value::Int(i) => {
            if *i >= -2147483648 && *i <= 2147483647 {
                Some("INTEGER".to_owned())
            } else {
                Some("BIGINT".to_owned())
            }
        },
        Value::Float(_) => Some("DOUBLE PRECISION".to_owned()),
        Value::Numeric(_) => Some("NUMERIC".to_owned()),
        Value::Bool(_) => Some("BOOLEAN".to_owned()),
        Value::Text(_) => Some("TEXT".to_owned()),
        Value::Jsonb(_) => Some("JSONB".to_owned()),
        Value::Array(items) => match first_literal_type(items) {
            Some(t) => Some(concat2(t.as_str(), "[]")),
            None => None,
        },
        _ => None,
    }
}

proof fn lemma_first_type_found(items: Seq<Val>, n: int)
    requires
        0 <= n <= items.len(),
        first_type(items.take(n)) is Some,
    ensures
        first_type(items) == first_type(items.take(n)),
    decreases items.len() - n,
{
    if n == items.len() {
        assert(items.take(n) =~= items);
    } else {
        assert(items.take(n + 1).drop_last() =~= items.take(n));
        lemma_first_type_found(items, n + 1);
    }
}

fn first_literal_type(items: &Vec<Value>) -> (r: Option<String>)
    ensures
        opt_text(r) == first_type(vals(items@)),
    decreases items,
{
    let ghost all = vals(items@);
    let mut i: usize = 0;
    assert(all.take(0) =~= Seq::<Val>::empty());
    while i < items.len()
        invariant
            i <= items@.len(),
            all == vals(items@),
            first_type(all.take(i as int)) is None,
        decreases items@.len() - i,
    {
        assert(all.take(i + 1).drop_last() =~= all.take(i as int));
        assert(all.take(i + 1).last() == items@[i as int]@);
        assert(decreases_to!(items@ => items@[i as int]));
        let found = literal_type(&items[i]);
        if found.is_some() {
            proof {
                lemma_first_type_found(all, i + 1);
            }
            return found;
        }
        i = i + 1;
    }
    assert(all.take(i as int) =~= all);
    None
}

/// Integer types by width.
pub open spec fn integer_rank_of(t: Seq<char>) -> Option<u8> {
    let u = upper(t);
    if u == "SMALLINT"@ || u == "INT2"@ {
        Some(1)
    } else if u == "INT"@ || u == "INTEGER"@ || u == "INT4"@ || u == "SERIAL"@ {
        Some(2)
    } else if u == "BIGINT"@ || u == "INT8"@ || u == "BIGSERIAL"@ {
        Some(3)
    } else {
        None
    }
}

/// Integer types by width, for arithmetic result types.
pub fn integer_rank(t: &str) -> (r: Option<u8>)
    ensures
        r == integer_rank_of(t@),
{
    let up = upper_text(t);
    let u = up.as_str();
    if same_text(u, "SMALLINT") || same_text(u, "INT2") {
        Some(1)
    } else if same_text(u, "INT") || same_text(u, "INTEGER") || same_text(u, "INT4") || same_text(
        u,
        "SERIAL",
    ) {
        Some(2)
    } else if same_text(u, "BIGINT") || same_text(u, "INT8") || same_text(u, "BIGSERIAL") {
        Some(3)
    } else {
        None
    }
}

/// Whether a type is floating-point.
pub open spec fn float_type(t: Seq<char>) -> bool {
    let u = upper(t);
    u == "REAL"@ || u == "FLOAT4"@ || u == "DOUBLE"@ || u == "DOUBLE PRECISION"@ || u == "FLOAT8"@
        || u == "FLOAT"@
}

/// Whether a type is floating-point.
pub fn is_float(t: &str) -> (r: bool)
    ensures
        r == float_type(t@),
{
    let up = upper_text(t);
    let u = up.as_str();
    same_text(u, "REAL") || same_text(u, "FLOAT4") || same_text(u, "DOUBLE") || same_text(
        u,
        "DOUBLE PRECISION",
    ) || same_text(u, "FLOAT8") || same_text(u, "FLOAT")
}

/// Whether a type is an exact decimal one.
pub open spec fn numeric_type(t: Seq<char>) -> bool {
    begins(upper(t), "NUMERIC"@) || begins(upper(t), "DECIMAL"@)
}

/// Whether a type is an exact decimal one.
pub fn is_numeric(t: &str) -> (r: bool)
    ensures
        r == numeric_type(t@),
{
    let up = upper_text(t);
    begins_with(up.as_str(), "NUMERIC") || begins_with(up.as_str(), "DECIMAL")
}

/// The result type of arithmetic: integer arithmetic is in the wider operand's
/// type, floating-point wins over exact numbers.
pub open spec fn arithmetic_type(l: Seq<char>, r: Seq<char>) -> Option<Seq<char>> {
    match (integer_rank_of(l), integer_rank_of(r)) {
        (Some(a), Some(b)) => {
            let most = if a >= b {
                a
            } else {
                b
            };
            Some(
                if most == 1 {
                    "SMALLINT"@
                } else if most == 2 {
                    "INTEGER"@
                } else {
                    "BIGINT"@
                },
            )
        },
        (a, b) => if float_type(l) || float_type(r) {
            Some("DOUBLE PRECISION"@)
        } else if (numeric_type(l) || a is Some) && (numeric_type(r) || b is Some) {
            Some("NUMERIC"@)
        } else {
            None
        },
    }
}

/// The result type of a binary operator, where the operand types decide it.
pub open spec fn binary_type_of(
    op: ScalarBinaryOp,
    left: Option<Seq<char>>,
    right: Option<Seq<char>>,
) -> Option<Seq<char>> {
    match op {
        ScalarBinaryOp::Eq
        | ScalarBinaryOp::NotEq
        | ScalarBinaryOp::Lt
        | ScalarBinaryOp::LtEq
        | ScalarBinaryOp::Gt
        | ScalarBinaryOp::GtEq
        | ScalarBinaryOp::And
        | ScalarBinaryOp::Or
        | ScalarBinaryOp::JsonHasKey
        | ScalarBinaryOp::JsonHasAnyKey
        | ScalarBinaryOp::JsonHasAllKeys
        | ScalarBinaryOp::Contains
        | ScalarBinaryOp::ContainedBy
        | ScalarBinaryOp::Overlap => Some("BOOLEAN"@),
        ScalarBinaryOp::JsonGetText | ScalarBinaryOp::JsonPathText => Some("TEXT"@),
        ScalarBinaryOp::JsonGet | ScalarBinaryOp::JsonPath => left,
        ScalarBinaryOp::Concat => if left is Some && ends(left->0, "[]"@) {
            left
        } else if right is Some && ends(right->0, "[]"@) {
            right
        } else {
            Some("TEXT"@)
        },
        ScalarBinaryOp::Add
        | ScalarBinaryOp::Sub
        | ScalarBinaryOp::Mul
        | ScalarBinaryOp::Div
        | ScalarBinaryOp::Mod => match (left, right) {
            (Some(l), Some(r)) => arithmetic_type(l, r),
            _ => None,
        },
    }
}

/// The result type of a binary operator, where the operand types decide it.
pub fn binary_type(op: ScalarBinaryOp, left: Option<String>, right: Option<String>) -> (r: Option<
    String,
>)
    ensures
        opt_text(r) == binary_type_of(op, opt_text(left), opt_text(right)),
{
    match op {
        ScalarBinaryOp::Eq
        | ScalarBinaryOp::NotEq
        | ScalarBinaryOp::Lt
        | ScalarBinaryOp::LtEq
        | ScalarBinaryOp::Gt
        | ScalarBinaryOp::GtEq
        | ScalarBinaryOp::And
        | ScalarBinaryOp::Or
        | ScalarBinaryOp::JsonHasKey
        | ScalarBinaryOp::JsonHasAnyKey
        | ScalarBinaryOp::JsonHasAllKeys
        | ScalarBinaryOp::Contains
        | ScalarBinaryOp::ContainedBy
        | ScalarBinaryOp::Overlap => Some("BOOLEAN".to_owned()),
        ScalarBinaryOp::JsonGetText | ScalarBinaryOp::JsonPathText => Some("TEXT".to_owned()),
        ScalarBinaryOp::JsonGet | ScalarBinaryOp::JsonPath => left,
        ScalarBinaryOp::Concat => {
            let l: bool = match &left {
                Some(t) => ends_with(t.as_str(), "[]"),
                None => false,
            };
            if l {
                return left;
            }
            let r: bool = match &right {
                Some(t) => ends_with(t.as_str(), "[]"),
                None => false,
            };
            if r {
                return right;
            }
            Some("TEXT".to_owned())
        },
        ScalarBinaryOp::Add
        | ScalarBinaryOp::Sub
        | ScalarBinaryOp::Mul
        | ScalarBinaryOp::Div
        | ScalarBinaryOp::Mod => match (left, right) {
            (Some(l), Some(r)) => {
                let a = integer_rank(l.as_str());
                let b = integer_rank(r.as_str());
                if let (Some(x), Some(y)) = (a, b) {
                    let most: u8 = if x >= y {
                        x
                    } else {
                        y
                    };
                    return if most == 1 {
                        Some("SMALLINT".to_owned())
                    } else if most == 2 {
                        Some("INTEGER".to_owned())
                    } else {
                        Some("BIGINT".to_owned())
                    };
                }
                if is_float(l.as_str()) || is_float(r.as_str()) {
                    Some("DOUBLE PRECISION".to_owned())
                } else if (is_numeric(l.as_str()) || a.is_some()) && (is_numeric(r.as_str())
                    || b.is_some()) {
                    Some("NUMERIC".to_owned())
                } else {
                    None
                }
            },
            _ => None,
        },
    }
}

/// Integer arithmetic does not depend on the order of its operands' types.
pub proof fn law_arithmetic_type_is_symmetric(l: Seq<char>, r: Seq<char>)
    ensures
        arithmetic_type(l, r) == arithmetic_type(r, l),
{
}

/// The type of a window function's result.
pub open spec fn window_type_of(
    func_name: Seq<char>,
    input: Option<Seq<char>>,
) -> Option<Seq<char>> {
    let f = upper(func_name);
    if f == "ROW_NUMBER"@ || f == "RANK"@ || f == "DENSE_RANK"@ || f == "NTILE"@ || f == "COUNT"@ {
        Some("BIGINT"@)
    } else if f == "PERCENT_RANK"@ || f == "CUME_DIST"@ {
        Some("DOUBLE PRECISION"@)
    } else if f == "SUM"@ {
        aggregate_type_of(AggregateOp::Sum, input)
    } else if f == "AVG"@ {
        aggregate_type_of(AggregateOp::Avg, input)
    } else if f == "MIN"@ || f == "MAX"@ || f == "LAG"@ || f == "LEAD"@ || f == "FIRST_VALUE"@ || f
        == "LAST_VALUE"@ || f == "NTH_VALUE"@ {
        input
    } else {
        None
    }
}

/// The type of a window function's first argument.
pub open spec fn window_input(args: Seq<String>, columns: DeclaredTypes) -> Option<Seq<char>> {
    if args.len() > 0 {
        columns.declared(args[0]@)
    } else {
        None
    }
}

/// The type of a window function's result.
pub fn window_type(func_name: &str, args: &Vec<String>, columns: &ColumnTypes) -> (r: Option<
    String,
>)
    ensures
        opt_text(r) == window_type_of(func_name@, window_input(args@, columns@)),
{
    let input = if args.len() > 0 {
        columns.column(args[0].as_str())
    } else {
        None
    };
    let up = upper_text(func_name);
    let f = up.as_str();
    if same_text(f, "ROW_NUMBER") || same_text(f, "RANK") || same_text(f, "DENSE_RANK")
        || same_text(f, "NTILE") || same_text(f, "COUNT") {
        Some("BIGINT".to_owned())
    } else if same_text(f, "PERCENT_RANK") || same_text(f, "CUME_DIST") {
        Some("DOUBLE PRECISION".to_owned())
    } else if same_text(f, "SUM") {
        aggregate_type(&AggregateOp::Sum, input)
    } else if same_text(f, "AVG") {
        aggregate_type(&AggregateOp::Avg, input)
    } else if same_text(f, "MIN") || same_text(f, "MAX") || same_text(f, "LAG") || same_text(
        f,
        "LEAD",
    ) || same_text(f, "FIRST_VALUE") || same_text(f, "LAST_VALUE") || same_text(f, "NTH_VALUE") {
        input
    } else {
        None
    }
}

/// The type a value has, as a literal of it would.
pub fn value_type(value: &Value) -> (r: String)
    ensures
        r@ == (match literal_type_of(value@) {
            Some(t) => t,
            None => "TEXT"@,
        }),
{
    match literal_type(value) {
        Some(t) => t,
        None => "TEXT".to_owned(),
    }
}

// ---------------------------------------------------------------------------
// Expressions
// ---------------------------------------------------------------------------

/// A type as an argument of a request.
pub open spec fn type_val(t: Option<Seq<char>>) -> Val {
    match t {
        Some(x) => Val::Text(x),
        None => Val::Null,
    }
}

/// The type in an answer.
pub open spec fn answered_type(v: Val) -> Option<Seq<char>> {
    match v {
        Val::Text(t) => Some(t),
        _ => None,
    }
}

/// The type of an expression, given its columns' declared types.
pub open spec fn type_of(e: ExprView, columns: DeclaredTypes, k: Known) -> Result<
    Option<Seq<char>>,
    Stop,
>
    decreases e,
{
    match e {
        ExprView::Column(name) => Ok(columns.declared(name)),
        ExprView::Literal(v) => Ok(literal_type_of(v)),
        ExprView::Cast(_, target) => Ok(Some(target)),
        ExprView::Binary(op, left, right) => match type_of(*left, columns, k) {
            Err(s) => Err(s),
            Ok(l) => match type_of(*right, columns, k) {
                Err(s) => Err(s),
                Ok(r) => Ok(binary_type_of(op, l, r)),
            },
        },
        ExprView::Unary(op, inner) => match op {
            ScalarUnaryOp::Neg => type_of(*inner, columns, k),
            ScalarUnaryOp::Not => Ok(Some("BOOLEAN"@)),
        },
        ExprView::IsNull(..)
        | ExprView::IsBool(..)
        | ExprView::IsDistinctFrom(..)
        | ExprView::PatternMatch { .. }
        | ExprView::InList(..)
        | ExprView::Quantified { .. } => Ok(Some("BOOLEAN"@)),
        ExprView::Case { branches, else_result, .. } => match branch_type(branches, columns, k) {
            Err(s) => Err(s),
            Ok(Some(t)) => Ok(Some(t)),
            Ok(None) => match else_result {
                Some(x) => type_of(*x, columns, k),
                None => Ok(None),
            },
        },
        ExprView::Extract(..) => Ok(Some("NUMERIC"@)),
        ExprView::Function(name, args) => match arg_types(args, columns, k) {
            Err(s) => Err(s),
            Ok(ts) => match asked(
                k,
                RequestView { task: TaskView::ReturnType(name), args: ts },
            ) {
                Ok(v) => Ok(answered_type(v)),
                Err(s) => Err(s),
            },
        },
        ExprView::Aggregate { op, arg, arg_expr, .. } => {
            let inner = match arg_expr {
                Some(x) => type_of(*x, columns, k),
                None => Ok(None),
            };
            match inner {
                Err(s) => Err(s),
                Ok(Some(t)) => Ok(aggregate_type_of(op, Some(t))),
                Ok(None) => Ok(aggregate_type_of(op, columns.declared(arg))),
            }
        },
        _ => Ok(None),
    }
}

/// The types of arguments, as the arguments of a request.
pub open spec fn arg_types(args: Seq<ExprView>, columns: DeclaredTypes, k: Known) -> Result<
    Seq<Val>,
    Stop,
>
    decreases args,
{
    if args.len() == 0 {
        Ok(Seq::empty())
    } else {
        match arg_types(args.drop_last(), columns, k) {
            Err(s) => Err(s),
            Ok(before) => match type_of(args.last(), columns, k) {
                Ok(t) => Ok(before.push(type_val(t))),
                Err(s) => Err(s),
            },
        }
    }
}

/// The type of the first branch result that has one.
pub open spec fn branch_type(
    branches: Seq<(ExprView, ExprView)>,
    columns: DeclaredTypes,
    k: Known,
) -> Result<Option<Seq<char>>, Stop>
    decreases branches,
{
    if branches.len() == 0 {
        Ok(None)
    } else {
        match branch_type(branches.drop_last(), columns, k) {
            Err(s) => Err(s),
            Ok(Some(t)) => Ok(Some(t)),
            Ok(None) => type_of(branches.last().1, columns, k),
        }
    }
}

/// What a type result stands for.
pub open spec fn type_outcome(r: Result<Option<String>, Halt>) -> Result<Option<Seq<char>>, Stop> {
    match r {
        Ok(t) => Ok(opt_text(t)),
        Err(h) => Err(h@),
    }
}

/// The type of a scalar expression, given its columns' declared types.
pub fn scalar_type(expr: &ScalarExpr, columns: &ColumnTypes, facts: &Facts) -> (r: Result<
    Option<String>,
    Halt,
>)
    ensures
        type_outcome(r) == type_of(expr@, columns@, facts@),
    decreases expr,
{
    broadcast use group_expr_views;

    match expr {
        ScalarExpr::Column(name) => Ok(columns.column(name.as_str())),
        ScalarExpr::Literal(v) => Ok(literal_type(v)),
        ScalarExpr::Cast { target, .. } => Ok(Some(target.clone())),
        ScalarExpr::Binary { op, left, right } => {
            let l = match scalar_type(&**left, columns, facts) {
                Ok(t) => t,
                Err(h) => return Err(h),
            };
            let r = match scalar_type(&**right, columns, facts) {
                Ok(t) => t,
                Err(h) => return Err(h),
            };
            Ok(binary_type(*op, l, r))
        },
        ScalarExpr::Unary { op, expr } => match op {
            ScalarUnaryOp::Neg => scalar_type(&**expr, columns, facts),
            ScalarUnaryOp::Not => Ok(Some("BOOLEAN".to_owned())),
        },
        ScalarExpr::IsNull { .. }
        | ScalarExpr::IsBool { .. }
        | ScalarExpr::IsDistinctFrom { .. }
        | ScalarExpr::PatternMatch { .. }
        | ScalarExpr::InList { .. }
        | ScalarExpr::Quantified { .. } => Ok(Some("BOOLEAN".to_owned())),
        ScalarExpr::Case { branches, else_result, .. } => match first_branch_type(
            branches,
            columns,
            facts,
        ) {
            Err(h) => Err(h),
            Ok(Some(t)) => Ok(Some(t)),
            Ok(None) => match else_result {
                Some(x) => scalar_type(&**x, columns, facts),
                None => Ok(None),
            },
        },
        ScalarExpr::Extract { .. } => Ok(Some("NUMERIC".to_owned())),
        ScalarExpr::Function { name, args } => {
            let types = match all_arg_types(args, columns, facts) {
                Ok(ts) => ts,
                Err(h) => return Err(h),
            };
            match facts.ask(Task::ReturnType(name.clone()), types) {
                Ok(Value::Text(t)) => Ok(Some(t)),
                Ok(_) => Ok(None),
                Err(h) => Err(h),
            }
        },
        ScalarExpr::Aggregate { op, arg, arg_expr, .. } => {
            let inner = match arg_expr {
                Some(x) => match scalar_type(&**x, columns, facts) {
                    Ok(t) => t,
                    Err(h) => return Err(h),
                },
                None => None,
            };
            match inner {
                Some(t) => Ok(aggregate_type(op, Some(t))),
                None => Ok(aggregate_type(op, columns.column(arg.as_str()))),
            }
        },
        ScalarExpr::DateOffset { .. } | ScalarExpr::Row(_) | ScalarExpr::Subquery { .. } => Ok(
            None,
        ),
    }
}

proof fn lemma_arg_types_fail(args: Seq<ExprView>, n: int, columns: DeclaredTypes, k: Known)
    requires
        0 <= n <= args.len(),
        arg_types(args.take(n), columns, k) is Err,
    ensures
        arg_types(args, columns, k) == arg_types(args.take(n), columns, k),
    decreases args.len() - n,
{
    if n == args.len() {
        assert(args.take(n) =~= args);
    } else {
        assert(args.take(n + 1).drop_last() =~= args.take(n));
        lemma_arg_types_fail(args, n + 1, columns, k);
    }
}

fn all_arg_types(args: &Vec<ScalarExpr>, columns: &ColumnTypes, facts: &Facts) -> (r: Result<
    Vec<Value>,
    Halt,
>)
    ensures
        crate::facts::list_outcome(r) == arg_types(exprs(args@), columns@, facts@),
    decreases args,
{
    let ghost all = exprs(args@);
    let mut out: Vec<Value> = Vec::new();
    let mut i: usize = 0;
    assert(all.take(0) =~= Seq::<ExprView>::empty());
    assert(vals(out@) =~= Seq::<Val>::empty());
    while i < args.len()
        invariant
            i <= args@.len(),
            all == exprs(args@),
            arg_types(all.take(i as int), columns@, facts@) == Ok::<Seq<Val>, Stop>(vals(out@)),
        decreases args@.len() - i,
    {
        assert(all.take(i + 1).drop_last() =~= all.take(i as int));
        assert(all.take(i + 1).last() == args@[i as int]@);
        assert(decreases_to!(args@ => args@[i as int]));
        match scalar_type(&args[i], columns, facts) {
            Ok(t) => {
                let ghost before = out@;
                let v = match t {
                    Some(x) => Value::Text(x),
                    None => Value::Null,
                };
                out.push(v);
                assert(vals(out@) =~= vals(before).push(v@));
            },
            Err(h) => {
                proof {
                    lemma_arg_types_fail(all, i + 1, columns@, facts@);
                }
                return Err(h);
            },
        }
        i = i + 1;
    }
    assert(all.take(i as int) =~= all);
    Ok(out)
}

proof fn lemma_branch_type_decided(
    branches: Seq<(ExprView, ExprView)>,
    n: int,
    columns: DeclaredTypes,
    k: Known,
)
    requires
        0 <= n <= branches.len(),
        branch_type(branches.take(n), columns, k) != Ok::<Option<Seq<char>>, Stop>(None),
    ensures
        branch_type(branches, columns, k) == branch_type(branches.take(n), columns, k),
    decreases branches.len() - n,
{
    if n == branches.len() {
        assert(branches.take(n) =~= branches);
    } else {
        assert(branches.take(n + 1).drop_last() =~= branches.take(n));
        lemma_branch_type_decided(branches, n + 1, columns, k);
    }
}

fn first_branch_type(
    branches: &Vec<(ScalarExpr, ScalarExpr)>,
    columns: &ColumnTypes,
    facts: &Facts,
) -> (r: Result<Option<String>, Halt>)
    ensures
        type_outcome(r) == branch_type(crate::expr::branch_views(branches@), columns@, facts@),
    decreases branches,
{
    let ghost all = crate::expr::branch_views(branches@);
    let mut i: usize = 0;
    assert(all.take(0) =~= Seq::<(ExprView, ExprView)>::empty());
    while i < branches.len()
        invariant
            i <= branches@.len(),
            all == crate::expr::branch_views(branches@),
            branch_type(all.take(i as int), columns@, facts@) == Ok::<Option<Seq<char>>, Stop>(
                None,
            ),
        decreases branches@.len() - i,
    {
        assert(all.take(i + 1).drop_last() =~= all.take(i as int));
        assert(all.take(i + 1).last() == (branches@[i as int].0@, branches@[i as int].1@));
        assert(decreases_to!(branches@ => branches@[i as int]));
        let found = scalar_type(&branches[i].1, columns, facts);
        match found {
            Ok(None) => {},
            other => {
                proof {
                    lemma_branch_type_decided(all, i + 1, columns@, facts@);
                }
                return other;
            },
        }
        i = i + 1;
    }
    assert(all.take(i as int) =~= all);
    Ok(None)
}

/// The type of a scalar expression, given its columns' declared types.
pub fn expr_type(expr: &ScalarExpr, columns: &ColumnTypes, facts: &Facts) -> (r: Result<
    Option<String>,
    Halt,
>)
    ensures
        type_outcome(r) == type_of(expr@, columns@, facts@),
{
    scalar_type(expr, columns, facts)
}

/// The type of a scalar expression that references no columns.
pub fn constant_expr_type(expr: &ScalarExpr, facts: &Facts) -> (r: Result<Option<String>, Halt>)
    ensures
        type_outcome(r) == type_of(expr@, no_columns(), facts@),
{
    let none = ColumnTypes { names: Vec::new(), types: Vec::new(), suffixes: false };
    assert(none@ =~= no_columns());
    scalar_type(expr, &none, facts)
}

/// The type of a SELECT-list item.
pub open spec fn projection_type_of(item: ProjectionItem, columns: DeclaredTypes, k: Known) -> Result<
    Option<Seq<char>>,
    Stop,
> {
    match item {
        ProjectionItem::Aggregate(op, arg) => Ok(aggregate_type_of(op, columns.declared(arg@))),
        ProjectionItem::Expr { expr, .. } => type_of(expr@, columns, k),
        ProjectionItem::Literal(v) => Ok(literal_type_of(v@)),
        ProjectionItem::AliasedLiteral(v, _) => Ok(literal_type_of(v@)),
        ProjectionItem::Column(name) => Ok(columns.declared(name@)),
        ProjectionItem::AliasedColumn(name, _) => Ok(columns.declared(name@)),
        ProjectionItem::WindowFunction { func_name, args, .. } => Ok(
            window_type_of(func_name@, window_input(args@, columns)),
        ),
        _ => Ok(None),
    }
}

/// The type of a SELECT-list item.
pub fn projection_type(item: &ProjectionItem, columns: &ColumnTypes, facts: &Facts) -> (r: Result<
    Option<String>,
    Halt,
>)
    ensures
        type_outcome(r) == projection_type_of(*item, columns@, facts@),
{
    match item {
        ProjectionItem::Aggregate(op, arg) => Ok(aggregate_type(op, columns.column(arg.as_str()))),
        ProjectionItem::Expr { expr, .. } => scalar_type(expr, columns, facts),
        ProjectionItem::Literal(v) => Ok(literal_type(v)),
        ProjectionItem::AliasedLiteral(v, _) => Ok(literal_type(v)),
        ProjectionItem::Column(name) => Ok(columns.column(name.as_str())),
        ProjectionItem::AliasedColumn(name, _) => Ok(columns.column(name.as_str())),
        ProjectionItem::WindowFunction { func_name, args, .. } => Ok(
            window_type(func_name.as_str(), args, columns),
        ),
        _ => Ok(None),
    }
}

// ---------------------------------------------------------------------------
// Integer ranges
// ---------------------------------------------------------------------------

/// The function [`check_integer_ranges`] wraps a result in: its first
/// argument, or an error when that is outside the type named by the second.
pub const INTEGER_RANGE: &'static str = "__INTEGER_RANGE__";

/// Whether an expression computes a new integer from others.
pub open spec fn computes(e: ScalarExpr) -> bool {
    match e {
        ScalarExpr::Binary { op, .. } => op is Add || op is Sub || op is Mul || op is Div || op
            is Mod,
        ScalarExpr::Unary { op, .. } => op is Neg,
        _ => false,
    }
}

/// The single argument of a `pg_typeof` call.
pub open spec fn typeof_arg(e: ExprView) -> Option<ExprView> {
    match e {
        ExprView::Function(name, args) => if name == "PG_TYPEOF"@ && args.len() == 1 {
            Some(args[0])
        } else {
            None
        },
        _ => None,
    }
}

/// What `pg_typeof` reports for its argument's declared type, where it is
/// known: an untyped string literal is `unknown`.
pub open spec fn reported_type(arg: ExprView, columns: DeclaredTypes, k: Known) -> Result<
    Option<Seq<char>>,
    Stop,
> {
    if arg is Literal && arg->Literal_0 is Text {
        Ok(Some("unknown"@))
    } else {
        match type_of(arg, columns, k) {
            Err(s) => Err(s),
            Ok(None) => Ok(None),
            Ok(Some(t)) => match asked(k, on_one(TaskView::TypeDisplay, Val::Text(t))) {
                Err(s) => Err(s),
                Ok(v) => {
                    let name = crate::render::answered_text(v);
                    if name == "???"@ {
                        Ok(None)
                    } else {
                        Ok(Some(name))
                    }
                },
            },
        }
    }
}

/// A rebuilt node with its own check: `made` itself, the type a `pg_typeof`
/// reports, or `made` held to the range of its integer type.
pub open spec fn node_checked(
    computes: bool,
    made: ExprView,
    columns: DeclaredTypes,
    k: Known,
) -> Result<ExprView, Stop> {
    let reported = match typeof_arg(made) {
        Some(arg) => reported_type(arg, columns, k),
        None => Ok(None),
    };
    match reported {
        Err(s) => Err(s),
        Ok(Some(name)) => Ok(ExprView::Literal(Val::Text(name))),
        Ok(None) => match type_of(made, columns, k) {
            Err(s) => Err(s),
            Ok(t) => if computes && (t == Some("INTEGER"@) || t == Some("SMALLINT"@)) {
                Ok(
                    ExprView::Function(
                        INTEGER_RANGE@,
                        seq![made, ExprView::Literal(Val::Text(t->0))],
                    ),
                )
            } else {
                Ok(made)
            },
        },
    }
}

/// `e` with each integer arithmetic whose result is `integer` or `smallint`
/// checked against that type's range.
pub open spec fn range_checked(e: ScalarExpr, columns: DeclaredTypes, k: Known) -> Result<
    ExprView,
    Stop,
>
    decreases e, kids(e).len() + 1,
{
    match kids_checked(e, kids(e).len(), columns, k) {
        Err(s) => Err(s),
        Ok(ks) => node_checked(computes(e), rebuilt(e@, ks), columns, k),
    }
}

/// The first `n` sub-expressions, each checked.
pub open spec fn kids_checked(e: ScalarExpr, n: nat, columns: DeclaredTypes, k: Known) -> Result<
    Seq<ExprView>,
    Stop,
>
    decreases e, n,
{
    if n == 0 || n > kids(e).len() {
        Ok(Seq::empty())
    } else {
        proof {
            lemma_kids_smaller(e, n - 1);
        }
        match kids_checked(e, (n - 1) as nat, columns, k) {
            Err(s) => Err(s),
            Ok(before) => match range_checked(kids(e)[n - 1], columns, k) {
                Ok(x) => Ok(before.push(x)),
                Err(s) => Err(s),
            },
        }
    }
}

proof fn lemma_kids_checked_fail(e: ScalarExpr, n: nat, m: nat, columns: DeclaredTypes, k: Known)
    requires
        n <= m <= kids(e).len(),
        kids_checked(e, n, columns, k) is Err,
    ensures
        kids_checked(e, m, columns, k) == kids_checked(e, n, columns, k),
    decreases m,
{
    if n < m {
        lemma_kids_checked_fail(e, n, (m - 1) as nat, columns, k);
    }
}

/// What an expression result stands for.
pub open spec fn expr_outcome(r: Result<ScalarExpr, Halt>) -> Result<ExprView, Stop> {
    match r {
        Ok(e) => Ok(e@),
        Err(h) => Err(h@),
    }
}

fn report_type(arg: &ScalarExpr, columns: &ColumnTypes, facts: &Facts) -> (r: Result<
    Option<String>,
    Halt,
>)
    ensures
        type_outcome(r) == reported_type(arg@, columns@, facts@),
{
    if let ScalarExpr::Literal(Value::Text(_)) = arg {
        return Ok(Some("unknown".to_owned()));
    }
    let t = match scalar_type(arg, columns, facts) {
        Ok(Some(t)) => t,
        Ok(None) => return Ok(None),
        Err(h) => return Err(h),
    };
    let whole = Value::Text(t);
    match facts.ask_one(Task::TypeDisplay, &whole) {
        Err(h) => Err(h),
        Ok(v) => {
            let name = match v {
                Value::Text(n) => n,
                _ => String::new(),
            };
            if same_text(name.as_str(), "???") {
                Ok(None)
            } else {
                Ok(Some(name))
            }
        },
    }
}

fn check_node(computes: bool, made: ScalarExpr, columns: &ColumnTypes, facts: &Facts) -> (r: Result<
    ScalarExpr,
    Halt,
>)
    ensures
        expr_outcome(r) == node_checked(computes, made@, columns@, facts@),
{
    broadcast use group_expr_views;

    if let ScalarExpr::Function { name, args } = &made {
        assert(exprs(args@).len() == args@.len());
        if same_text(name.as_str(), "PG_TYPEOF") && args.len() == 1 {
            assert(exprs(args@)[0] == args@[0]@);
            match report_type(&args[0], columns, facts) {
                Err(h) => {
                    return Err(h);
                },
                Ok(Some(t)) => {
                    return Ok(ScalarExpr::Literal(Value::Text(t)));
                },
                Ok(None) => {},
            }
        }
    }
    let t = match scalar_type(&made, columns, facts) {
        Ok(t) => t,
        Err(h) => return Err(h),
    };
    match t {
        Some(name) => {
            if computes && (same_text(name.as_str(), "INTEGER") || same_text(
                name.as_str(),
                "SMALLINT",
            )) {
                let ghost inner = made@;
                let ghost shown = name@;
                let mut args: Vec<ScalarExpr> = Vec::new();
                args.push(made);
                args.push(ScalarExpr::Literal(Value::Text(name)));
                assert(exprs(args@) =~= seq![inner, ExprView::Literal(Val::Text(shown))]);
                Ok(ScalarExpr::Function { name: INTEGER_RANGE.to_owned(), args })
            } else {
                Ok(made)
            }
        },
        None => Ok(made),
    }
}

/// `expr` with each integer arithmetic whose result is `integer` or
/// `smallint` checked against that type's range, as PostgreSQL computes it
/// in that type (`2147483647 + 1` fails rather than widening). `columns`
/// gives the declared types of the columns it names. `pg_typeof` reports the
/// argument's declared type, which a value alone cannot tell (a `smallint`
/// column holds integers too); an untyped string literal is `unknown`.
pub fn check_integer_ranges(expr: &ScalarExpr, columns: &ColumnTypes, facts: &Facts) -> (r: Result<
    ScalarExpr,
    Halt,
>)
    ensures
        expr_outcome(r) == range_checked(*expr, columns@, facts@),
    decreases expr,
{
    let children = expr.children();
    let mut ks: Vec<ScalarExpr> = Vec::new();
    let mut i: usize = 0;
    assert(exprs(ks@) =~= Seq::<ExprView>::empty());
    while i < children.len()
        invariant
            children@ == refs(kids(*expr)),
            i == ks@.len(),
            i <= children@.len(),
            kids_checked(*expr, i as nat, columns@, facts@) == Ok::<Seq<ExprView>, Stop>(
                exprs(ks@),
            ),
        decreases children@.len() - i,
    {
        proof {
            lemma_kids_smaller(*expr, i as int);
        }
        match check_integer_ranges(children[i], columns, facts) {
            Ok(x) => {
                let ghost before = ks@;
                ks.push(x);
                assert(exprs(ks@) =~= exprs(before).push(x@));
            },
            Err(h) => {
                proof {
                    lemma_kids_checked_fail(
                        *expr,
                        (i + 1) as nat,
                        kids(*expr).len(),
                        columns@,
                        facts@,
                    );
                }
                return Err(h);
            },
        }
        i = i + 1;
    }
    let computes: bool = match expr {
        ScalarExpr::Binary { op, .. } => match op {
            ScalarBinaryOp::Add
            | ScalarBinaryOp::Sub
            | ScalarBinaryOp::Mul
            | ScalarBinaryOp::Div
            | ScalarBinaryOp::Mod => true,
            _ => false,
        },
        ScalarExpr::Unary { op, .. } => match op {
            ScalarUnaryOp::Neg => true,
            ScalarUnaryOp::Not => false,
        },
        _ => false,
    };
    let made = expr.with_children(ks);
    check_node(computes, made, columns, facts)
}

/// A column reference is left as it is.
pub proof fn law_leaves_are_unchecked(name: String, columns: DeclaredTypes, k: Known)
    ensures
        range_checked(ScalarExpr::Column(name), columns, k) == Ok::<ExprView, Stop>(
            ExprView::Column(name@),
        ),
{
    let e = ScalarExpr::Column(name);
    assert(kids_checked(e, 0, columns, k) == Ok::<Seq<ExprView>, Stop>(Seq::empty()));
}

} // verus!
