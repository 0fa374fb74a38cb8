//! Parsed SQL, as far as planning reads it. Every expression, and every other
//! piece that a message may quote, keeps its SQL spelling in `text`.
use vstd::prelude::*;
use crate::plan_types::MergeKind;

verus! {

/// A name as written.
pub struct Ident {
    pub value: String,
    pub quoted: bool,
}

/// A constant.
pub enum SqlValue {
    /// `'...'`
    Quoted(String),
    /// A text constant in any other quotation (`E'...'`, `N'...'`, `$$...$$`).
    Spelled(String),
    Number(String),
    Boolean(bool),
    Null,
    /// `$1`
    Placeholder(String),
    Other,
}

pub enum SqlUnaryOp {
    Minus,
    Plus,
    Not,
    Other,
}

pub enum SqlBinaryOp {
    Plus,
    Minus,
    Multiply,
    Divide,
    Modulo,
    Eq,
    NotEq,
    Lt,
    LtEq,
    Gt,
    GtEq,
    And,
    Or,
    /// `||`
    StringConcat,
    /// `->`
    Arrow,
    /// `->>`
    LongArrow,
    /// `#>`
    HashArrow,
    /// `#>>`
    HashLongArrow,
    /// `?`
    Question,
    /// `?|`
    QuestionPipe,
    /// `?&`
    QuestionAnd,
    /// `@>`
    AtArrow,
    /// `<@`
    ArrowAt,
    /// `&&`
    Overlap,
    /// `~`
    RegexMatch,
    /// `~*`
    RegexIMatch,
    /// `!~`
    RegexNotMatch,
    /// `!~*`
    RegexNotIMatch,
    /// `~~`
    LikeMatch,
    /// `~~*`
    ILikeMatch,
    /// `!~~`
    NotLikeMatch,
    /// `!~~*`
    NotILikeMatch,
    /// `OPERATOR(schema.op)`, by its parts.
    Qualified(Vec<String>),
    /// Any other operator symbol.
    Custom(String),
    Other,
}

/// Which pattern matching an expression asks for.
#[derive(Clone, Copy, PartialEq, Eq, Structural)]
pub enum LikeKind {
    Like,
    ILike,
    SimilarTo,
    RLike,
}

/// From which end `TRIM` removes.
#[derive(Clone, Copy, PartialEq, Eq, Structural)]
pub enum TrimSide {
    Leading,
    Trailing,
    Both,
}

/// An argument of a call.
pub enum ArgKind {
    Expr(SqlExpr),
    /// `*`
    Wildcard,
    /// `name => expr`
    Named(SqlExpr),
    Other,
}

pub struct FunctionArg {
    pub text: String,
    pub kind: ArgKind,
}

pub enum Arguments {
    /// No parentheses at all.
    Absent,
    List {
        args: Vec<FunctionArg>,
        distinct: bool,
        /// Whether clauses such as `ORDER BY` follow the arguments.
        clauses: bool,
    },
    Other,
}

/// The direction an ordering asks for.
pub enum SortDirection {
    Asc,
    Desc,
    /// `USING operator`
    Using(String),
}

pub struct OrderItem {
    pub expr: SqlExpr,
    pub direction: Option<SortDirection>,
    pub nulls_first: Option<bool>,
}

#[derive(Clone, Copy, PartialEq, Eq, Structural)]
pub enum FrameUnits {
    Rows,
    Range,
    Groups,
}

/// A bound of a window frame; without an offset it is unbounded.
pub enum FrameBound {
    CurrentRow,
    Preceding(Option<Box<SqlExpr>>),
    Following(Option<Box<SqlExpr>>),
}

pub struct Frame {
    pub units: FrameUnits,
    pub start: FrameBound,
    pub end: Option<FrameBound>,
}

/// What follows `OVER`.
pub enum Over {
    Spec {
        partition_by: Vec<SqlExpr>,
        order_by: Vec<OrderItem>,
        frame: Option<Frame>,
    },
    Named,
}

pub struct FunctionCall {
    /// The name as written, with its qualifiers and quotes.
    pub name: String,
    /// The last part of the name, where it is an identifier.
    pub last_part: Option<Ident>,
    pub args: Arguments,
    pub over: Option<Over>,
    /// Whether a `FILTER` clause follows.
    pub filtered: bool,
    /// Whether a `WITHIN GROUP` clause follows.
    pub within_group: bool,
}

/// An expression and its SQL spelling.
pub struct SqlExpr {
    pub text: String,
    pub node: SqlNode,
}

#[allow(inconsistent_fields)]
pub enum SqlNode {
    Value(SqlValue),
    Identifier(Ident),
    /// `a.b.c`
    Compound(Vec<Ident>),
    /// `DATE '2024-06-15'`
    TypedString { value: SqlValue, data_type: String },
    /// `INTERVAL '1' DAY`
    Interval { value: Box<SqlExpr>, leading: Option<String> },
    Array(Vec<SqlExpr>),
    Unary { op: SqlUnaryOp, expr: Box<SqlExpr> },
    Binary { left: Box<SqlExpr>, op: SqlBinaryOp, right: Box<SqlExpr> },
    /// `(expr)`
    Nested(Box<SqlExpr>),
    Cast { expr: Box<SqlExpr>, data_type: String },
    IsNull(Box<SqlExpr>),
    IsNotNull(Box<SqlExpr>),
    Case {
        operand: Option<Box<SqlExpr>>,
        branches: Vec<(SqlExpr, SqlExpr)>,
        else_result: Option<Box<SqlExpr>>,
    },
    Collate(Box<SqlExpr>),
    Like {
        kind: LikeKind,
        negated: bool,
        /// `LIKE ANY`
        any: bool,
        expr: Box<SqlExpr>,
        pattern: Box<SqlExpr>,
        escape: Option<Box<SqlExpr>>,
    },
    /// `IS [NOT] DISTINCT FROM`; `negated` for `IS NOT`.
    DistinctFrom { left: Box<SqlExpr>, right: Box<SqlExpr>, negated: bool },
    /// `IS [NOT] TRUE | FALSE | UNKNOWN`; `value` is `None` for UNKNOWN.
    IsBool { expr: Box<SqlExpr>, value: Option<bool>, negated: bool },
    InList { expr: Box<SqlExpr>, list: Vec<SqlExpr>, negated: bool },
    InSubquery { expr: Box<SqlExpr>, query: Box<Query>, negated: bool },
    Between { expr: Box<SqlExpr>, negated: bool, low: Box<SqlExpr>, high: Box<SqlExpr> },
    /// `left op ANY|ALL (right)`
    Quantified {
        left: Box<SqlExpr>,
        op: SqlBinaryOp,
        op_text: String,
        right: Box<SqlExpr>,
        all: bool,
    },
    Tuple(Vec<SqlExpr>),
    Function(FunctionCall),
    Substring {
        expr: Box<SqlExpr>,
        from: Option<Box<SqlExpr>>,
        length: Option<Box<SqlExpr>>,
        /// `SUBSTR`
        shorthand: bool,
    },
    Trim {
        expr: Box<SqlExpr>,
        side: TrimSide,
        /// `TRIM(what FROM expr)`
        what: Option<Box<SqlExpr>>,
        /// `TRIM(expr, characters)`
        characters: Option<Vec<SqlExpr>>,
    },
    Position { expr: Box<SqlExpr>, within: Box<SqlExpr> },
    Overlay {
        expr: Box<SqlExpr>,
        what: Box<SqlExpr>,
        from: Box<SqlExpr>,
        length: Option<Box<SqlExpr>>,
    },
    /// `CEIL(expr)` or `FLOOR(expr)`; `plain` without a field or a scale.
    Rounded { expr: Box<SqlExpr>, up: bool, plain: bool },
    Extract { field: String, expr: Box<SqlExpr> },
    Exists { query: Box<Query>, negated: bool },
    Subquery(Box<Query>),
    /// `root.field[1].field`: `Some` for each access by a field's name.
    Access { root: Box<SqlExpr>, chain: Vec<Option<String>> },
    Rollup(Vec<Vec<SqlExpr>>),
    Cube(Vec<Vec<SqlExpr>>),
    GroupingSets(Vec<Vec<SqlExpr>>),
    Other,
}

pub struct Cte {
    pub name: String,
    pub columns: Vec<String>,
    pub query: Box<Query>,
}

pub struct With {
    pub recursive: bool,
    pub ctes: Vec<Cte>,
}

pub struct Query {
    pub with: Option<With>,
    pub body: Box<Body>,
    pub order_by: Vec<OrderItem>,
    pub limit: Option<SqlExpr>,
    pub offset: Option<SqlExpr>,
}

#[derive(Clone, Copy, PartialEq, Eq, Structural)]
pub enum SetOperator {
    Union,
    Intersect,
    Except,
    /// Another spelling of `EXCEPT`.
    Minus,
}

#[allow(inconsistent_fields)]
pub enum Body {
    Select(Box<Select>),
    SetOperation { op: SetOperator, all: bool, left: Box<Body>, right: Box<Body> },
    Query(Box<Query>),
    Values(Vec<Vec<SqlExpr>>),
    Insert(Box<Statement>),
    Update,
    Delete,
    Merge,
    Other,
}

pub enum ItemKind {
    Unnamed(SqlExpr),
    Aliased(SqlExpr, String),
    Wildcard,
    /// `t.*`, by the name before the dot where it is an object's name.
    QualifiedWildcard(Option<String>),
    /// An expression with several aliases.
    MultiAliased,
}

/// An item of a SELECT or RETURNING list.
pub struct SelectItem {
    pub text: String,
    pub kind: ItemKind,
}

pub struct TableAlias {
    pub name: String,
    pub columns: Vec<String>,
}

#[allow(inconsistent_fields)]
pub enum FactorKind {
    Table {
        name: String,
        alias: Option<TableAlias>,
        /// The arguments of a table function.
        args: Option<Vec<FunctionArg>>,
        with_ordinality: bool,
    },
    Derived { subquery: Box<Query>, alias: Option<TableAlias> },
    Unnest { array_exprs: Vec<SqlExpr>, with_ordinality: bool, alias: Option<TableAlias> },
    Other,
}

/// A relation in `FROM`.
pub struct TableFactor {
    pub text: String,
    pub kind: FactorKind,
}

pub enum JoinConstraint {
    On(SqlExpr),
    Using(Vec<String>),
    Natural,
    Absent,
}

pub enum JoinOperator {
    Inner(JoinConstraint),
    Left(JoinConstraint),
    Right(JoinConstraint),
    Full(JoinConstraint),
    Cross,
    Other(String),
}

pub struct JoinClause {
    pub relation: TableFactor,
    pub operator: JoinOperator,
}

pub struct FromItem {
    pub relation: TableFactor,
    pub joins: Vec<JoinClause>,
}

pub struct Select {
    pub distinct: bool,
    pub projection: Vec<SelectItem>,
    pub from: Vec<FromItem>,
    pub selection: Option<SqlExpr>,
    pub group_by: Vec<SqlExpr>,
    pub having: Option<SqlExpr>,
    /// `SELECT ... INTO`
    pub into: Option<Vec<String>>,
}

/// A name with its qualifiers: as written, and its last part where that is an
/// identifier.
pub struct ObjectName {
    pub text: String,
    pub last_part: Option<String>,
}

pub enum AssignmentTarget {
    Column(ObjectName),
    Tuple(Vec<ObjectName>),
}

pub struct Assignment {
    pub target: AssignmentTarget,
    pub value: SqlExpr,
}

/// What `REFERENCES` names.
pub struct ForeignKeySpec {
    pub foreign_table: String,
    pub referred_columns: Vec<String>,
}

pub enum ColumnOption {
    NotNull,
    Default(SqlExpr),
    PrimaryKey,
    Unique,
    Check(SqlExpr),
    ForeignKey(ForeignKeySpec),
    Other,
}

pub struct ColumnSpec {
    pub name: String,
    pub data_type: String,
    /// Each option with its constraint's name.
    pub options: Vec<(Option<String>, ColumnOption)>,
}

#[allow(inconsistent_fields)]
pub enum ConstraintSpec {
    Unique { columns: Vec<SqlExpr> },
    PrimaryKey { columns: Vec<SqlExpr> },
    Check { name: Option<String>, expr: SqlExpr },
    ForeignKey { name: Option<String>, columns: Vec<String>, reference: ForeignKeySpec },
    Other,
}

#[derive(Clone, Copy, PartialEq, Eq, Structural)]
pub enum ObjectType {
    Table,
    View,
    Schema,
    Index,
    Other,
}

pub enum ConflictSpec {
    Columns(Vec<String>),
    Constraint(ObjectName),
}

#[allow(inconsistent_fields)]
pub enum ConflictAction {
    Nothing,
    Update { assignments: Vec<Assignment>, selection: Option<SqlExpr> },
}

/// A clause after the rows of an `INSERT`.
#[allow(inconsistent_fields)]
pub enum InsertClause {
    OnConflict { target: Option<ConflictSpec>, action: ConflictAction },
    Other(String),
}

pub struct Insert {
    /// The table, or the description of another kind of target.
    pub table: Result<String, String>,
    pub columns: Vec<ObjectName>,
    pub source: Option<Box<Query>>,
    pub returning: Option<Vec<SelectItem>>,
    pub on: Option<InsertClause>,
}

/// What a `WHEN` clause of a `MERGE` does.
pub enum MergeStep {
    Update(Vec<Assignment>),
    Delete,
    /// `INSERT [(columns)] VALUES (...)`, or `INSERT DEFAULT VALUES` without
    /// columns and values.
    Insert { columns: Vec<ObjectName>, values: Vec<SqlExpr> },
    Nothing,
}

/// A `WHEN` clause of a `MERGE`.
pub struct MergeWhen {
    pub kind: MergeKind,
    pub condition: Option<SqlExpr>,
    pub step: MergeStep,
}

/// A `MERGE`.
pub struct Merge {
    pub table: TableFactor,
    pub alias: Option<String>,
    /// The query that reads the source relation.
    pub source: Query,
    pub on: Option<SqlExpr>,
    pub clauses: Vec<MergeWhen>,
    pub returning: Option<Vec<SelectItem>>,
}

/// `GRANT` or `REVOKE`.
pub struct GrantSpec {
    /// The actions, where they are listed.
    pub actions: Option<Vec<String>>,
    pub grantees: Vec<String>,
    /// The tables, where the objects are tables.
    pub tables: Option<Vec<String>>,
}

#[allow(inconsistent_fields)]
pub enum AlterOperation {
    AddColumn(ColumnSpec),
    RenameColumn { old_name: String, new_name: String },
    DropColumn { names: Vec<String> },
    SetDataType { column: String, data_type: String },
    RenameTable { name: String },
    Other(String),
}

#[allow(inconsistent_fields)]
pub enum SetStatement {
    Assignment { variable: String, values: Vec<String> },
    Transaction,
    TimeZone { value: String },
    Other(String),
}

pub struct CreateTable {
    pub name: String,
    pub columns: Vec<ColumnSpec>,
    pub constraints: Vec<ConstraintSpec>,
    pub if_not_exists: bool,
    pub query: Option<Box<Query>>,
}

pub struct CopySpec {
    pub text: String,
    /// The query, or the table with the columns to copy.
    pub source: Result<Box<Query>, (String, Vec<String>)>,
    /// Whether the copy is out of the database.
    pub to: bool,
    /// Whether it goes to the standard output.
    pub stdout: bool,
    pub options: Vec<CopyOption>,
    /// Whether options in the older spelling are given.
    pub legacy: bool,
}

pub enum CopyOption {
    /// The format's name, and its spelling.
    Format(String, String),
    Header(bool),
    Other(String),
}

#[allow(inconsistent_fields)]
pub enum Statement {
    CreateSchema { name: Option<String>, if_not_exists: bool },
    CreateTable(CreateTable),
    CreateView { name: String, query: Box<Query> },
    Drop {
        object_type: ObjectType,
        object_text: String,
        if_exists: bool,
        names: Vec<String>,
        cascade: bool,
    },
    CreateIndex {
        name: Option<String>,
        table_name: String,
        columns: Vec<SqlExpr>,
        unique: bool,
        if_not_exists: bool,
    },
    CreateRole { names: Vec<String> },
    Grant(GrantSpec),
    Revoke(GrantSpec),
    Insert(Insert),
    Query(Box<Query>),
    Update {
        /// Whether a `FROM` clause is given.
        from: bool,
        table: FromItem,
        assignments: Vec<Assignment>,
        selection: Option<SqlExpr>,
        returning: Option<Vec<SelectItem>>,
    },
    Delete {
        /// Whether a `USING` clause is given.
        using: bool,
        from: Vec<FromItem>,
        selection: Option<SqlExpr>,
        returning: Option<Vec<SelectItem>>,
    },
    StartTransaction,
    Commit,
    Rollback { savepoint: Option<String> },
    Savepoint { name: String },
    ReleaseSavepoint { name: String },
    ShowVariable { parts: Vec<String> },
    Assign(SetStatement),
    Discard,
    Deallocate,
    AlterTable { name: String, operations: Vec<AlterOperation> },
    Copy(CopySpec),
    Other(String),
}

} // verus!
