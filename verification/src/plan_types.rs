//! Logical plan and query tree types: predicates, filter expressions, joins,
//! aggregates, projection items, DDL alterations, and the `LogicalPlan` tree
//! the planner produces and the executor consumes.
use vstd::prelude::*;
use std::sync::Arc;
use crate::catalog::TableConstraint;
use crate::sequences::SequenceSpec;
use crate::text::same_text;
use crate::value::{Val, Value};

verus! {

/// Operand for a WHERE predicate or JOIN condition.
#[derive(Debug, PartialEq)]
pub enum Operand {
    Literal(Value),
    Ident(String),
}

/// What an [`Operand`] stands for.
#[verifier::ext_equal]
pub enum OperandView {
    Literal(Val),
    Ident(Seq<char>),
}

impl View for Operand {
    type V = OperandView;

    open spec fn view(&self) -> OperandView {
        match *self {
            Operand::Literal(v) => OperandView::Literal(v@),
            Operand::Ident(n) => OperandView::Ident(n@),
        }
    }
}

/// What each operand stands for.
pub open spec fn operands(s: Seq<Operand>) -> Seq<OperandView> {
    Seq::new(s.len(), |i: int| s[i]@)
}

/// Comparison operator in a `WHERE` predicate.
#[derive(Debug, Clone, Copy, PartialEq, Eq, Structural)]
pub enum CompareOp {
    Eq,
    Ne,
    Lt,
    Le,
    Gt,
    Ge,
    /// `@>`
    Contains,
    /// `<@`
    ContainedBy,
}

/// A single `left <op> right` predicate; a `WHERE` clause or `ON` clause is a conjunction.
#[derive(Debug, PartialEq)]
pub struct Predicate {
    pub left: String,
    pub op: CompareOp,
    pub right: Operand,
}

/// What a [`Predicate`] stands for.
#[verifier::ext_equal]
pub struct PredicateView {
    pub left: Seq<char>,
    pub op: CompareOp,
    pub right: OperandView,
}

impl View for Predicate {
    type V = PredicateView;

    open spec fn view(&self) -> PredicateView {
        PredicateView { left: self.left@, op: self.op, right: self.right@ }
    }
}

/// A condition on a row.
#[allow(inconsistent_fields)]
pub enum FilterExpr {
    Predicate(Predicate),
    And(Box<FilterExpr>, Box<FilterExpr>),
    Or(Box<FilterExpr>, Box<FilterExpr>),
    Not(Box<FilterExpr>),
    IsNull(String),
    IsNotNull(String),
    InList { left: String, list: Vec<Operand>, negated: bool },
    InSubquery {
        left: String,
        subquery: Arc<LogicalPlan>,
        negated: bool,
        /// When the left side is a literal rather than a column (e.g.
        /// `1 IN (SELECT ...)`), its value; `left` is then unused.
        left_value: Option<Value>,
    },
    /// `col <op> (<scalar subquery>)`: the subquery yields a single value.
    CompareSubquery { left: String, op: CompareOp, subquery: Arc<LogicalPlan> },
    /// `<expr> <op> <expr>` where at least one side is a computed scalar
    /// expression rather than a bare column/literal (e.g. `n % 2 = 0`,
    /// `a = b + 1`).
    ExprCmp { left: ScalarExpr, op: CompareOp, right: ScalarExpr },
    /// `[NOT] EXISTS (<subquery>)`. The subquery may reference outer columns
    /// (correlated); the predicate is true iff the subquery yields at least
    /// one row (negated flips the result).
    Exists { subquery: Arc<LogicalPlan>, negated: bool },
    /// Any other boolean condition, evaluated per row as a scalar expression;
    /// the row passes only when it yields `true` (NULL and false filter it out).
    Scalar(ScalarExpr),
    /// `left <op> ANY|ALL (<subquery>)`, comparing against every value of the
    /// subquery's single column; the subquery may be correlated.
    QuantifiedSubquery {
        left: ScalarExpr,
        op: ScalarBinaryOp,
        subquery: Arc<LogicalPlan>,
        all: bool,
    },
}

/// How a join treats rows without a match.
#[derive(Debug, Clone, Copy, PartialEq, Eq, Structural)]
pub enum JoinType {
    Inner,
    LeftOuter,
    RightOuter,
    FullOuter,
    /// Cartesian product (`CROSS JOIN`); carries no `ON` condition.
    Cross,
}

/// A set-returning function used in `FROM` (e.g. `unnest(arr)`,
/// `generate_series(a, b)`), optionally with `WITH ORDINALITY`.
pub struct TableFnSpec {
    /// Lowercased function name (`"unnest"`, `"generate_series"`).
    pub name: String,
    /// Arguments: an [`Operand::Literal`] for a constant/parameter, or an
    /// [`Operand::Ident`] for a column reference, the latter makes the call
    /// *lateral* (resolved against each driving row).
    pub args: Vec<Operand>,
    /// `WITH ORDINALITY` / `WITH OFFSET`: append a 1-based index column.
    pub with_ordinality: bool,
    /// Output relation alias (and default value-column name).
    pub alias: Option<String>,
    /// Explicit column names from `AS alias(col[, ord])`.
    pub column_aliases: Vec<String>,
    /// The arguments as expressions (`generate_series(1, n + 1)`), evaluated
    /// against the driving row; when present they replace `args`.
    pub arg_exprs: Vec<ScalarExpr>,
    /// `ROWS FROM (f(), g())`: these functions run together, their rows
    /// paired up in order and the shorter padded with NULL; when present,
    /// `name` and the arguments are unused.
    pub rows_from: Vec<TableFnSpec>,
}

/// The functions that return one value a row, whatever their arguments.
pub open spec fn scalar_table_function(name: Seq<char>) -> bool {
    ||| name == "generate_series"@
    ||| name == "jsonb_array_elements"@
    ||| name == "jsonb_array_elements_text"@
    ||| name == "json_array_elements"@
    ||| name == "json_array_elements_text"@
    ||| name == "regexp_split_to_table"@
    ||| name == "pg_partition_ancestors"@
}

impl TableFnSpec {
    /// Whether the function returns a single value a row, rather than a row
    /// of several.
    pub fn returns_scalar(&self) -> (r: bool)
        ensures
            r == (self.rows_from@.len() == 0 && !self.with_ordinality && (if self.name@
                == "unnest"@ {
                self.args@.len() <= 1 && self.arg_exprs@.len() <= 1 && (self.args@.len() == 1
                    || self.arg_exprs@.len() == 1)
            } else {
                scalar_table_function(self.name@)
            })),
    {
        if self.rows_from.len() != 0 || self.with_ordinality {
            return false;
        }
        let name = self.name.as_str();
        if same_text(name, "unnest") {
            let a: usize = self.args.len();
            let b: usize = self.arg_exprs.len();
            let most: usize = if a >= b {
                a
            } else {
                b
            };
            return most == 1;
        }
        same_text(name, "generate_series") || same_text(name, "jsonb_array_elements") || same_text(
            name,
            "jsonb_array_elements_text",
        ) || same_text(name, "json_array_elements") || same_text(name, "json_array_elements_text")
            || same_text(name, "regexp_split_to_table") || same_text(name, "pg_partition_ancestors")
    }
}

/// One joined relation.
pub struct Join {
    pub table_name: String,
    pub table_alias: Option<String>,
    pub condition: Option<FilterExpr>,
    pub join_type: JoinType,
    /// When set, this join's right side is a (possibly lateral) table function
    /// evaluated per driving row rather than a base/CTE relation.
    pub table_fn: Option<TableFnSpec>,
    /// Columns named in a `USING (...)` clause. The join matches rows whose values
    /// are equal in each named column on both sides; resolved against the actual
    /// row schemas at execution time (so it composes with chained joins).
    pub using_columns: Vec<String>,
    /// `true` for a `NATURAL JOIN`: an equi-join over every column name common to
    /// both inputs, also resolved at execution time.
    pub natural: bool,
    /// A `LATERAL` subquery: run once for each row of the left side, with that
    /// row's values for its outer references. Its rows are this join's right
    /// side for that left row.
    pub lateral: Option<Arc<LogicalPlan>>,
}

/// The unique key an `ON CONFLICT` clause arbitrates on.
pub enum ConflictTarget {
    /// `ON CONFLICT (a, b)`: the unique key over exactly these columns.
    Columns(Vec<String>),
    /// `ON CONFLICT ON CONSTRAINT name`.
    Constraint(String),
}

/// `ON CONFLICT` action for an INSERT that hits an existing key. Without a
/// target, a collision on the primary key or any unique index counts.
#[allow(inconsistent_fields)]
pub enum OnConflictClause {
    /// `DO NOTHING`: skip the conflicting row.
    DoNothing { target: Option<ConflictTarget> },
    /// `DO UPDATE SET ... [WHERE ...]`: update the existing row. Expressions see
    /// the existing row's columns and the proposed row as `excluded.<col>`;
    /// the update applies only where `condition` holds.
    DoUpdate {
        target: Option<ConflictTarget>,
        assignments: Vec<(String, ScalarExpr)>,
        condition: Option<ScalarExpr>,
    },
}

/// The key a clause arbitrates on, if it names one.
pub open spec fn conflict_target(c: OnConflictClause) -> Option<ConflictTarget> {
    match c {
        OnConflictClause::DoNothing { target } => target,
        OnConflictClause::DoUpdate { target, .. } => target,
    }
}

impl OnConflictClause {
    /// The key the clause arbitrates on, if it names one.
    pub fn target(&self) -> (r: Option<&ConflictTarget>)
        ensures
            match (r, conflict_target(*self)) {
                (Some(a), Some(b)) => *a == b,
                (None, None) => true,
                _ => false,
            },
    {
        match self {
            OnConflictClause::DoNothing { target } => target.as_ref(),
            OnConflictClause::DoUpdate { target, .. } => target.as_ref(),
        }
    }
}

/// An aggregate function.
#[derive(Debug, Clone, Copy, PartialEq, Eq, Structural)]
pub enum AggregateOp {
    Count,
    Sum,
    Min,
    Max,
    Avg,
    StringAgg,
    ArrayAgg,
    BoolAnd,
    BoolOr,
    JsonAgg,
    JsonbAgg,
    JsonObjectAgg,
    JsonbObjectAgg,
    StddevSamp,
    StddevPop,
    VarSamp,
    VarPop,
    BitAnd,
    BitOr,
}

/// The SQL name of each aggregate.
pub open spec fn aggregate_name(op: AggregateOp) -> Seq<char> {
    match op {
        AggregateOp::Count => "count"@,
        AggregateOp::Sum => "sum"@,
        AggregateOp::Min => "min"@,
        AggregateOp::Max => "max"@,
        AggregateOp::Avg => "avg"@,
        AggregateOp::StringAgg => "string_agg"@,
        AggregateOp::ArrayAgg => "array_agg"@,
        AggregateOp::BoolAnd => "bool_and"@,
        AggregateOp::BoolOr => "bool_or"@,
        AggregateOp::JsonAgg => "json_agg"@,
        AggregateOp::JsonbAgg => "jsonb_agg"@,
        AggregateOp::JsonObjectAgg => "json_object_agg"@,
        AggregateOp::JsonbObjectAgg => "jsonb_object_agg"@,
        AggregateOp::StddevSamp => "stddev_samp"@,
        AggregateOp::StddevPop => "stddev_pop"@,
        AggregateOp::VarSamp => "var_samp"@,
        AggregateOp::VarPop => "var_pop"@,
        AggregateOp::BitAnd => "bit_and"@,
        AggregateOp::BitOr => "bit_or"@,
    }
}

impl AggregateOp {
    /// The function's SQL name, which is also its default output column name.
    pub fn sql_name(&self) -> (r: &'static str)
        ensures
            r@ == aggregate_name(*self),
    {
        match self {
            AggregateOp::Count => "count",
            AggregateOp::Sum => "sum",
            AggregateOp::Min => "min",
            AggregateOp::Max => "max",
            AggregateOp::Avg => "avg",
            AggregateOp::StringAgg => "string_agg",
            AggregateOp::ArrayAgg => "array_agg",
            AggregateOp::BoolAnd => "bool_and",
            AggregateOp::BoolOr => "bool_or",
            AggregateOp::JsonAgg => "json_agg",
            AggregateOp::JsonbAgg => "jsonb_agg",
            AggregateOp::JsonObjectAgg => "json_object_agg",
            AggregateOp::JsonbObjectAgg => "jsonb_object_agg",
            AggregateOp::StddevSamp => "stddev_samp",
            AggregateOp::StddevPop => "stddev_pop",
            AggregateOp::VarSamp => "var_samp",
            AggregateOp::VarPop => "var_pop",
            AggregateOp::BitAnd => "bit_and",
            AggregateOp::BitOr => "bit_or",
        }
    }

    /// How many arguments the aggregate takes (`count(*)` counts as one).
    pub fn arity(&self) -> (r: usize)
        ensures
            r == (if *self is StringAgg || *self is JsonObjectAgg || *self is JsonbObjectAgg {
                2usize
            } else {
                1usize
            }),
    {
        match self {
            AggregateOp::StringAgg | AggregateOp::JsonObjectAgg | AggregateOp::JsonbObjectAgg => 2,
            _ => 1,
        }
    }
}

/// The aggregates a call can name by their upper-cased names.
pub open spec fn named_aggregate(name: Seq<char>) -> Option<AggregateOp> {
    if name == "COUNT"@ {
        Some(AggregateOp::Count)
    } else if name == "SUM"@ {
        Some(AggregateOp::Sum)
    } else if name == "MIN"@ {
        Some(AggregateOp::Min)
    } else if name == "MAX"@ {
        Some(AggregateOp::Max)
    } else if name == "AVG"@ {
        Some(AggregateOp::Avg)
    } else {
        None
    }
}

/// The aggregate a call names.
pub fn aggregate_op(name: &str) -> (r: Option<AggregateOp>)
    ensures
        r == named_aggregate(name@),
{
    if same_text(name, "COUNT") {
        Some(AggregateOp::Count)
    } else if same_text(name, "SUM") {
        Some(AggregateOp::Sum)
    } else if same_text(name, "MIN") {
        Some(AggregateOp::Min)
    } else if same_text(name, "MAX") {
        Some(AggregateOp::Max)
    } else if same_text(name, "AVG") {
        Some(AggregateOp::Avg)
    } else {
        None
    }
}

/// A general scalar expression tree for computed SELECT-list items.
#[allow(inconsistent_fields)]
pub enum ScalarExpr {
    Literal(Value),
    /// A column reference, resolved by name against the row at evaluation time.
    Column(String),
    Unary { op: ScalarUnaryOp, expr: Box<ScalarExpr> },
    Binary { op: ScalarBinaryOp, left: Box<ScalarExpr>, right: Box<ScalarExpr> },
    /// `expr::target`; `target` is the SQL type name (e.g. `FLOAT8`).
    Cast { expr: Box<ScalarExpr>, target: String },
    /// A scalar function call; `name` is upper-cased.
    Function { name: String, args: Vec<ScalarExpr> },
    IsNull { expr: Box<ScalarExpr>, negated: bool },
    /// `EXTRACT(<field> FROM <expr>)` over an ISO date/time text value.
    Extract { field: String, expr: Box<ScalarExpr> },
    /// An aggregate call (e.g. `sum(a)`) nested inside a scalar expression such
    /// as `sum(a) + 1`; evaluated over a group, not a single row. When the
    /// aggregate's argument is itself an expression (e.g. `sum(a + 1)`),
    /// `arg_expr` carries it and `arg` is empty.
    Aggregate {
        op: AggregateOp,
        arg: String,
        arg_expr: Option<Box<ScalarExpr>>,
        /// `agg(DISTINCT ...)`: aggregate over the distinct argument values.
        distinct: bool,
        /// Arguments after the first: `string_agg`'s delimiter,
        /// `json_object_agg`'s value.
        extra_args: Vec<ScalarExpr>,
        /// `FILTER (WHERE ...)`: only rows where it is true are aggregated.
        filter: Option<Box<ScalarExpr>>,
        /// `agg(x ORDER BY key [DESC] [NULLS FIRST|LAST], ...)`: the order in
        /// which values are fed to an order-sensitive aggregate.
        order_by: Vec<(ScalarExpr, bool, Option<bool>)>,
    },
    /// `date/timestamp +/- INTERVAL`, resolved to a (months, days, seconds) offset
    /// applied to the base's ISO text value.
    DateOffset { base: Box<ScalarExpr>, months: i64, days: i64, seconds: i64 },
    /// `CASE [operand] WHEN cond THEN result ... [ELSE else] END`. With an
    /// operand this is simple CASE (each condition compares equal to the
    /// operand); without, each condition must evaluate to boolean true.
    Case {
        operand: Option<Box<ScalarExpr>>,
        branches: Vec<(ScalarExpr, ScalarExpr)>,
        else_result: Option<Box<ScalarExpr>>,
    },
    /// A text pattern match: `[NOT] LIKE`/`ILIKE` or `[NOT] SIMILAR TO` (with
    /// an optional `ESCAPE`), or a POSIX regex operator (`~`, `~*`, `!~`, `!~*`).
    PatternMatch {
        expr: Box<ScalarExpr>,
        pattern: Box<ScalarExpr>,
        kind: PatternKind,
        case_insensitive: bool,
        negated: bool,
        escape: Option<char>,
    },
    /// `left IS [NOT] DISTINCT FROM right`: NULL-safe (in)equality.
    IsDistinctFrom { left: Box<ScalarExpr>, right: Box<ScalarExpr>, negated: bool },
    /// `expr IS [NOT] TRUE | FALSE | UNKNOWN`; `value` is `None` for UNKNOWN.
    IsBool { expr: Box<ScalarExpr>, value: Option<bool>, negated: bool },
    /// `expr [NOT] IN (e1, e2, ...)`.
    InList { expr: Box<ScalarExpr>, list: Vec<ScalarExpr>, negated: bool },
    /// `left <op> ANY (array)` or `left <op> ALL (array)`.
    Quantified { left: Box<ScalarExpr>, op: ScalarBinaryOp, right: Box<ScalarExpr>, all: bool },
    /// A row constructor `(a, b, ...)` / `ROW(a, b, ...)`, compared
    /// element-wise by the comparison operators.
    Row(Vec<ScalarExpr>),
    /// A subquery used as a value. The executor runs it for each row (with the
    /// row's values for its outer references) before the expression is
    /// evaluated; see [`SubqueryKind`].
    Subquery { plan: SubPlan, kind: SubqueryKind },
}

/// What a subquery in an expression yields.
#[derive(Debug, Clone, Copy, PartialEq, Eq, Structural)]
pub enum SubqueryKind {
    /// `(SELECT ...)`: its one value; NULL for no row, an error for several.
    Scalar,
    /// `EXISTS (SELECT ...)`: whether it returns a row.
    Exists,
    /// Its first column's values, as an array: `x IN (SELECT ...)`,
    /// `x = ANY (SELECT ...)`, and `ARRAY(SELECT ...)`.
    Array,
}

/// A subquery's plan inside an expression.
pub struct SubPlan(pub Arc<LogicalPlan>);

/// `Arc::clone`: the same plan, shared.
#[verifier::external_body]
pub(crate) fn share(plan: &Arc<LogicalPlan>) -> (r: Arc<LogicalPlan>)
    ensures
        *r == *plan,
{
    Arc::clone(plan)
}

/// One `ORDER BY` key.
pub struct SortKey {
    pub target: SortTarget,
    pub ascending: bool,
    /// An explicit `NULLS FIRST` (`Some(true)`) or `NULLS LAST`; `None` uses
    /// PostgreSQL's default: NULLs sort as larger than any value, so last when
    /// ascending and first when descending.
    pub nulls_first: Option<bool>,
}

/// What an `ORDER BY` (or `DISTINCT ON`) key sorts by.
pub enum SortTarget {
    /// The output column at this 0-based position (`ORDER BY 2`).
    Output(usize),
    /// A bare name: an output column of that name, else an input column.
    /// A qualified name (`t.a`) always means the input column.
    Name(String),
    /// An expression over the input row, or over the group when grouping
    /// (so it may contain aggregates).
    Expr(ScalarExpr),
}

impl SortKey {
    /// Reads a key as older plans encode it in `order_by`.
    pub fn from_legacy(key: (String, bool, Option<bool>)) -> (r: SortKey)
        ensures
            r.target is Name,
            r.target->Name_0@ == key.0@,
            r.ascending == key.1,
            r.nulls_first == key.2,
    {
        let (name, ascending, nulls_first) = key;
        SortKey { target: SortTarget::Name(name), ascending, nulls_first }
    }
}

/// A FROM-less select item evaluated at execution time.
#[allow(inconsistent_fields)]
pub enum DeferredItem {
    Scalar(ScalarExpr),
    /// A scalar subquery: one column, at most one row (none is NULL).
    Subquery(Arc<LogicalPlan>),
    /// `[NOT] EXISTS (subquery)`.
    Exists { plan: Arc<LogicalPlan>, negated: bool },
}

/// The language a pattern is written in.
#[derive(Debug, Clone, Copy, PartialEq, Eq, Structural)]
pub enum PatternKind {
    Like,
    SimilarTo,
    Regex,
}

/// A unary operator.
#[derive(Debug, Clone, Copy, PartialEq, Eq, Structural)]
pub enum ScalarUnaryOp {
    Neg,
    Not,
}

/// A binary operator.
#[derive(Debug, Clone, Copy, PartialEq, Eq, Structural)]
pub enum ScalarBinaryOp {
    Add,
    Sub,
    Mul,
    Div,
    Mod,
    Eq,
    NotEq,
    Lt,
    LtEq,
    Gt,
    GtEq,
    And,
    Or,
    Concat,
    /// `->` / `->>`: JSON object field or array element, as JSON / as text.
    JsonGet,
    JsonGetText,
    /// `#>` / `#>>`: JSON value at a key path, as JSON / as text.
    JsonPath,
    JsonPathText,
    /// `?` / `?|` / `?&`: the JSON value has the key (one, any, all).
    JsonHasKey,
    JsonHasAnyKey,
    JsonHasAllKeys,
    /// `@>` / `<@`: JSONB or array containment.
    Contains,
    ContainedBy,
    /// `&&`: the arrays share an element.
    Overlap,
}

/// One item of a SELECT list.
#[allow(inconsistent_fields)]
pub enum ProjectionItem {
    Column(String),
    AliasedColumn(String, String),
    Aggregate(AggregateOp, String),
    ScalarFunction { func_name: String, args: Vec<String>, alias: Option<String> },
    JsonAccess { left: String, operator: String, right: String, alias: Option<String> },
    CaseWhenEq {
        left: String,
        equals: Value,
        then_value: Value,
        then_column: Option<String>,
        else_column: String,
        alias: Option<String>,
    },
    /// Searched or simple `CASE`: the first branch whose predicate matches yields
    /// its result; otherwise `else_result` (or NULL). Results are literals or
    /// column references.
    Case {
        /// Each `(predicate, result)`: the first matching predicate's result is
        /// used. Predicates are single comparisons (the common CASE shape).
        branches: Vec<(Predicate, Operand)>,
        else_result: Option<Operand>,
        alias: Option<String>,
    },
    WindowFunction {
        func_name: String,
        /// Function arguments: the target column for LAG/LEAD and aggregate
        /// windows, plus an optional offset literal for LAG/LEAD.
        args: Vec<String>,
        partition_by: Vec<String>,
        /// Each `(column, ascending)`.
        order_by: Vec<(String, bool)>,
        alias: Option<String>,
        /// Explicit `ROWS`/`RANGE BETWEEN ...` frame, if any. When absent,
        /// aggregate windows span the whole partition.
        frame: Option<WindowFrame>,
    },
    Literal(Value),
    AliasedLiteral(Value, String),
    /// A computed scalar expression over the row (arithmetic, comparisons,
    /// casts, string ops, nested function calls).
    Expr { expr: ScalarExpr, alias: Option<String> },
    /// A scalar subquery, run for each output row with the row's values
    /// substituted for its outer references.
    Subquery { plan: Arc<LogicalPlan>, alias: Option<String> },
}

/// A window frame clause (`ROWS`/`RANGE BETWEEN <start> AND <end>`).
#[derive(Debug, Clone, Copy, PartialEq, Eq, Structural)]
pub struct WindowFrame {
    pub units: WindowFrameUnits,
    pub start: WindowBound,
    pub end: WindowBound,
}

/// What a frame's bounds count.
#[derive(Debug, Clone, Copy, PartialEq, Eq, Structural)]
pub enum WindowFrameUnits {
    Rows,
    Range,
}

/// A single frame boundary. Numeric offsets are only honoured for `ROWS`.
#[derive(Debug, Clone, Copy, PartialEq, Eq, Structural)]
pub enum WindowBound {
    UnboundedPreceding,
    Preceding(i64),
    CurrentRow,
    Following(i64),
    UnboundedFollowing,
}

/// One `ALTER TABLE` change.
#[allow(inconsistent_fields)]
pub enum AlterTableOp {
    AddColumn {
        name: String,
        data_type: String,
        nullable: bool,
        /// Lowered `DEFAULT` expression: stored on the column and backfilled
        /// into existing rows.
        default: Option<ScalarExpr>,
    },
    RenameColumn { old_name: String, new_name: String },
    AlterColumnType { name: String, data_type: String },
    DropColumn { name: String },
    RenameTable { new_name: String },
}

/// A column as `CREATE TABLE` defines it.
pub struct ColumnDef {
    pub name: String,
    pub data_type: String,
    pub nullable: bool,
    pub unique: bool,
    pub primary: bool,
    pub default: Option<ScalarExpr>,
}

/// A statement ready to run.
#[allow(inconsistent_fields)]
pub enum LogicalPlan {
    CreateSchema { schema_name: String, if_not_exists: bool },
    DropSchema { schema_name: String, if_exists: bool, cascade: bool },
    CreateTable {
        name: String,
        columns: Vec<ColumnDef>,
        constraints: Vec<TableConstraint>,
        /// `CREATE TABLE IF NOT EXISTS`: a no-op when the table already exists.
        if_not_exists: bool,
        /// Table-level `UNIQUE (a, b, ...)` constraints over two or more
        /// columns; each becomes one unique index over the whole column tuple.
        unique_constraints: Vec<Vec<String>>,
    },
    DropTable {
        name: String,
        if_exists: bool,
        /// `DROP MATERIALIZED VIEW`.
        materialized: bool,
    },
    CreateView {
        name: String,
        query: Arc<LogicalPlan>,
        /// `CREATE OR REPLACE VIEW`.
        or_replace: bool,
    },
    DropView { name: String, if_exists: bool },
    AlterTable { table_name: String, operation: AlterTableOp },
    CreateIndex {
        name: String,
        table_name: String,
        columns: Vec<String>,
        unique: bool,
        if_not_exists: bool,
    },
    DropIndex { name: String, if_exists: bool },
    CreateRole { name: String },
    Grant { privilege: String, object_name: String, grantee: String },
    Revoke { privilege: String, object_name: String, revokee: String },
    Insert {
        table_name: String,
        /// Target column names; empty means positional (table order).
        columns: Vec<String>,
        values_list: Vec<Vec<Value>>,
        returning: Vec<String>,
        /// For each `returning` item that is an expression (its output name
        /// then in `returning`), the expression; empty when every item is a
        /// column.
        returning_exprs: Vec<Option<ReturningExpr>>,
        /// `ON CONFLICT` behaviour when a row collides with an existing key.
        on_conflict: Option<OnConflictClause>,
        /// Per-row mask marking cells written as the `DEFAULT` keyword (parallel
        /// to `values_list`; empty = no DEFAULT cells anywhere). Such cells take
        /// the column default as if the column had been omitted.
        default_cells: Vec<Vec<bool>>,
        /// `INSERT ... SELECT`: a query whose rows are inserted instead of
        /// `values_list`.
        source: Option<Arc<LogicalPlan>>,
    },
    /// `CREATE TABLE ... AS <query>` / `SELECT ... INTO`: a table shaped like
    /// the query's output, filled with its rows.
    CreateTableAs {
        name: String,
        query: Arc<LogicalPlan>,
        if_not_exists: bool,
        /// `WITH NO DATA`: the table is created empty.
        no_data: bool,
        /// `CREATE MATERIALIZED VIEW`: the table keeps the query for
        /// `REFRESH`.
        materialized: bool,
    },
    Select(SelectPlan),
    Update {
        table_name: String,
        /// Each `SET col = <expr>`; the expression is evaluated per matched row
        /// against that row's *old* values.
        assignments: Vec<(String, ScalarExpr)>,
        filter: Option<FilterExpr>,
        returning: Vec<String>,
        returning_exprs: Vec<Option<ReturningExpr>>,
        /// The name the target table goes by (`UPDATE t AS x`).
        table_alias: Option<String>,
        /// `FROM`: the relations joined to each target row, whose columns the
        /// filter and assignments may read.
        from: Option<Arc<LogicalPlan>>,
    },
    Delete {
        table_name: String,
        filter: Option<FilterExpr>,
        returning: Vec<String>,
        returning_exprs: Vec<Option<ReturningExpr>>,
        /// The name the target table goes by (`DELETE FROM t AS x`).
        table_alias: Option<String>,
        /// `USING`: the relations joined to each target row, whose columns
        /// the filter may read.
        using: Option<Arc<LogicalPlan>>,
    },
    Begin,
    Commit,
    Rollback,
    Savepoint { name: String },
    RollbackToSavepoint { name: String },
    ReleaseSavepoint { name: String },
    ShowVariable { variable: String },
    SetVariable { variable: String, value: String },
    Noop { tag: String },
    SelectLiteral {
        /// `(column alias, value, optional SQL type hint)`. The hint (from a
        /// CAST) types the column even when the value is NULL.
        values: Vec<(String, Value, Option<String>)>,
        /// `WHERE` on a FROM-less SELECT: with no rows to bind, the predicate
        /// is constant, and the row is returned iff it evaluates true.
        filter: Option<FilterExpr>,
        /// Items computed when the statement runs (parallel to `values`, whose
        /// entry is a placeholder): session functions, volatile functions, and
        /// scalar subqueries.
        deferred: Vec<Option<DeferredItem>>,
    },
    SetOp {
        op: SetOpKind,
        /// `ALL` keeps duplicates; otherwise the result is a distinct multiset.
        all: bool,
        left: Arc<LogicalPlan>,
        right: Arc<LogicalPlan>,
    },
    /// A `WITH RECURSIVE` CTE: the `seed` runs once, then `recursive_term`
    /// re-runs against the rows produced by the previous step (the working
    /// table) until it yields nothing new. `all` selects UNION ALL vs UNION
    /// (distinct) accumulation; `column_aliases` names the output columns.
    RecursiveCte {
        all: bool,
        column_aliases: Vec<String>,
        seed: Arc<LogicalPlan>,
        recursive_term: Arc<LogicalPlan>,
    },
    /// A pre-computed relation injected as a CTE (used to feed the working
    /// table into a recursive term). Executing it just yields these rows.
    InlineRows { columns: Vec<String>, types: Vec<String>, rows: Vec<Vec<Value>> },
    /// A standalone (non-lateral) set-returning function in `FROM`, e.g.
    /// `SELECT * FROM generate_series(1, 5)`. Lateral table functions are carried
    /// on [`Join::table_fn`] instead.
    TableFunction(TableFnSpec),
    /// `CREATE SEQUENCE`.
    CreateSequence { name: String, if_not_exists: bool, spec: SequenceSpec },
    /// `DROP SEQUENCE`.
    DropSequence { names: Vec<String>, if_exists: bool },
    /// A `VALUES` list used as a query: its rows' expressions are evaluated
    /// when it runs, into columns `column1`, `column2`, ...
    Values { rows: Vec<Vec<ScalarExpr>> },
    /// `input` with its leading columns renamed, for a column alias list
    /// (`FROM (...) AS t(a, b)`, `WITH x(a, b) AS (...)`).
    Renamed { input: Arc<LogicalPlan>, columns: Vec<String> },
    /// `MERGE INTO table USING source ON on WHEN ...`: each target row is
    /// joined to the source rows `on` matches, and the first clause that
    /// applies to each joined, unmatched source, or unmatched target row acts.
    Merge {
        table_name: String,
        table_alias: Option<String>,
        /// The source relation, read with its columns qualified.
        source: Arc<LogicalPlan>,
        on: Option<FilterExpr>,
        clauses: Vec<MergeClause>,
        /// `RETURNING` columns of the inserted, updated, or deleted rows.
        returning: Vec<String>,
        returning_exprs: Vec<Option<ReturningExpr>>,
    },
    /// A data-modifying statement (`body`) with a `WITH` list whose queries
    /// it can read.
    With { ctes: Vec<(String, Arc<LogicalPlan>)>, body: Arc<LogicalPlan> },
    /// `TRUNCATE`: empties each table, and with `RESTART IDENTITY` restarts
    /// the sequences its columns draw from.
    Truncate { tables: Vec<String>, restart_identity: bool },
    /// `REFRESH MATERIALIZED VIEW name [WITH [NO] DATA]`.
    RefreshMaterializedView { name: String, with_data: bool },
    /// `EXPLAIN [ANALYZE] statement`.
    Explain { plan: Arc<LogicalPlan>, analyze: bool },
}

/// A `SELECT` over relations.
pub struct SelectPlan {
    pub ctes: Vec<(String, Arc<LogicalPlan>)>,
    pub table_name: String,
    pub table_alias: Option<String>,
    pub joins: Vec<Join>,
    /// Projected column names; empty means all columns (`SELECT *`).
    pub projection: Vec<ProjectionItem>,
    pub group_by: Vec<String>,
    /// Conjunction of `WHERE` predicates; empty means no filter.
    pub filter: Option<FilterExpr>,
    /// `HAVING` predicate applied to groups after aggregation.
    pub having: Option<FilterExpr>,
    /// Expanded `ROLLUP`/`CUBE`/`GROUPING SETS`: the list of grouping
    /// column-sets to aggregate by. `group_by` holds the union of all
    /// columns mentioned (for output resolution); a column absent from a
    /// given set is emitted as NULL for that set's rows. `None` means plain
    /// aggregation over `group_by`.
    pub grouping_sets: Option<Vec<Vec<String>>>,
    /// `ORDER BY (column, ascending, nulls_first_override)` as older plans
    /// encode it; the planner now writes [`SortKey`]s to `sort` instead,
    /// and this is read only when `sort` is empty.
    pub order_by: Vec<(String, bool, Option<bool>)>,
    /// Optional `LIMIT`.
    pub limit: Option<usize>,
    /// Optional `OFFSET`.
    pub offset: Option<usize>,
    /// `DISTINCT`.
    pub distinct: bool,
    /// `ORDER BY` keys, applied to the output rows.
    pub sort: Vec<SortKey>,
    /// Grouping keys that are expressions: each `(name, expr)` is computed
    /// per input row before grouping, as a column `name` that `group_by`
    /// refers to. A name that is also an input column stays that column,
    /// since a `GROUP BY` name means the input column before an output
    /// alias.
    pub group_exprs: Vec<(String, ScalarExpr)>,
    /// `DISTINCT ON` keys: after sorting, only the first row of each
    /// distinct key is kept.
    pub distinct_on: Vec<SortTarget>,
}

/// Whether `sort` holds the keys that older plans encode as `order_by`.
pub open spec fn reads_order(sort: Seq<SortKey>, order_by: Seq<(String, bool, Option<bool>)>) -> bool {
    &&& sort.len() == order_by.len()
    &&& forall|i: int|
        0 <= i < sort.len() ==> {
            let key = #[trigger] sort[i];
            &&& key.target is Name
            &&& key.target->Name_0@ == order_by[i].0@
            &&& key.ascending == order_by[i].1
            &&& key.nulls_first == order_by[i].2
        }
}

impl SelectPlan {
    /// The plan with its ordering as [`SortKey`]s: where it has none, those that
    /// `order_by` encodes.
    pub fn with_sort_keys(self) -> (r: SelectPlan)
        ensures
            self.sort@.len() > 0 ==> r == self,
            self.sort@.len() == 0 ==> reads_order(r.sort@, self.order_by@) && r == (SelectPlan {
                sort: r.sort,
                ..self
            }),
    {
        if self.sort.len() > 0 {
            return self;
        }
        let mut sort: Vec<SortKey> = Vec::new();
        let mut i: usize = 0;
        while i < self.order_by.len()
            invariant
                i <= self.order_by@.len(),
                reads_order(sort@, self.order_by@.take(i as int)),
            decreases self.order_by@.len() - i,
        {
            let key = &self.order_by[i];
            let ghost before = sort@;
            sort.push(SortKey::from_legacy((key.0.clone(), key.1, key.2)));
            assert(self.order_by@.take(i + 1) =~= self.order_by@.take(i as int).push(
                self.order_by@[i as int],
            ));
            assert forall|j: int| 0 <= j < sort@.len() implies ({
                let k = #[trigger] sort@[j];
                &&& k.target is Name
                &&& k.target->Name_0@ == self.order_by@.take(i + 1)[j].0@
                &&& k.ascending == self.order_by@.take(i + 1)[j].1
                &&& k.nulls_first == self.order_by@.take(i + 1)[j].2
            }) by {
                if j < before.len() {
                    assert(sort@[j] == before[j]);
                    assert(self.order_by@.take(i as int)[j] == self.order_by@[j]);
                }
            }
            i = i + 1;
        }
        assert(self.order_by@.take(i as int) =~= self.order_by@);
        SelectPlan { sort, ..self }
    }
}

/// An expression in a `RETURNING` list, evaluated over each returned row.
pub struct ReturningExpr {
    pub expr: ScalarExpr,
}

/// One `WHEN` clause of a `MERGE`.
pub struct MergeClause {
    pub kind: MergeKind,
    /// `AND <condition>`, over the joined target and source columns.
    pub condition: Option<FilterExpr>,
    pub action: MergeAction,
}

/// Which rows of a `MERGE` join a `WHEN` clause applies to.
#[derive(Debug, Clone, Copy, PartialEq, Eq, Structural)]
pub enum MergeKind {
    /// A target row joined to a source row.
    Matched,
    /// A target row no source row joins.
    NotMatchedBySource,
    /// A source row no target row joins.
    NotMatchedByTarget,
}

/// What a `MERGE` clause does to its row.
#[allow(inconsistent_fields)]
pub enum MergeAction {
    /// `UPDATE SET ...`, evaluated against the joined row.
    Update(Vec<(String, ScalarExpr)>),
    Delete,
    /// `INSERT [(columns)] VALUES (...)` of values computed from the source
    /// row; a `None` value is `DEFAULT`. No columns and no values is
    /// `INSERT DEFAULT VALUES`.
    Insert { columns: Vec<String>, values: Vec<Option<ScalarExpr>> },
    Nothing,
}

/// The kind of set operation combining two query results.
#[derive(Debug, Clone, Copy, PartialEq, Eq, Structural)]
pub enum SetOpKind {
    Union,
    Intersect,
    Except,
}

} // verus!
