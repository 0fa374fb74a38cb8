//! What plans stand for: their texts, values, and sub-plans, whatever memory
//! holds them.
use vstd::prelude::*;
use std::sync::Arc;
use crate::catalog::{ReferentialAction, TableConstraint};
use crate::expr::ExprView;
use crate::plan_types::{
    operands, AggregateOp, AlterTableOp, ColumnDef, CompareOp, ConflictTarget, DeferredItem,
    FilterExpr, Join, JoinType, LogicalPlan, OnConflictClause, Operand, OperandView, Predicate,
    PredicateView, ProjectionItem, ReturningExpr, ScalarBinaryOp, ScalarExpr, SelectPlan,
    SetOpKind, SortKey, SortTarget, TableFnSpec, WindowFrame,
};
use crate::text::{opt_text, texts};
use crate::value::{opt_val, rows_view, Val, Value};

verus! {

/// What a [`FilterExpr`] stands for.
#[verifier::ext_equal]
#[allow(inconsistent_fields)]
pub enum FilterView {
    Predicate(PredicateView),
    And(Box<FilterView>, Box<FilterView>),
    Or(Box<FilterView>, Box<FilterView>),
    Not(Box<FilterView>),
    IsNull(Seq<char>),
    IsNotNull(Seq<char>),
    InList { left: Seq<char>, list: Seq<OperandView>, negated: bool },
    InSubquery {
        left: Seq<char>,
        subquery: Box<PlanView>,
        negated: bool,
        left_value: Option<Val>,
    },
    CompareSubquery { left: Seq<char>, op: CompareOp, subquery: Box<PlanView> },
    ExprCmp { left: ExprView, op: CompareOp, right: ExprView },
    Exists { subquery: Box<PlanView>, negated: bool },
    Scalar(ExprView),
    QuantifiedSubquery {
        left: ExprView,
        op: ScalarBinaryOp,
        subquery: Box<PlanView>,
        all: bool,
    },
}

/// What a [`TableFnSpec`] stands for.
#[verifier::ext_equal]
pub struct FnView {
    pub name: Seq<char>,
    pub args: Seq<OperandView>,
    pub with_ordinality: bool,
    pub alias: Option<Seq<char>>,
    pub column_aliases: Seq<Seq<char>>,
    pub arg_exprs: Seq<ScalarExpr>,
    pub rows_from: Seq<TableFnSpec>,
}

pub open spec fn fn_view(f: TableFnSpec) -> FnView {
    FnView {
        name: f.name@,
        args: operands(f.args@),
        with_ordinality: f.with_ordinality,
        alias: opt_text(f.alias),
        column_aliases: texts(f.column_aliases@),
        arg_exprs: f.arg_exprs@,
        rows_from: f.rows_from@,
    }
}

/// What a [`Join`] stands for.
#[verifier::ext_equal]
pub struct JoinView {
    pub table_name: Seq<char>,
    pub table_alias: Option<Seq<char>>,
    pub condition: Option<FilterView>,
    pub join_type: JoinType,
    pub table_fn: Option<FnView>,
    pub using_columns: Seq<Seq<char>>,
    pub natural: bool,
    pub lateral: Option<Arc<LogicalPlan>>,
}

/// What a [`ProjectionItem`] stands for.
#[verifier::ext_equal]
#[allow(inconsistent_fields)]
pub enum ItemView {
    Column(Seq<char>),
    AliasedColumn(Seq<char>, Seq<char>),
    Aggregate(AggregateOp, Seq<char>),
    ScalarFunction { func_name: Seq<char>, args: Seq<Seq<char>>, alias: Option<Seq<char>> },
    JsonAccess {
        left: Seq<char>,
        operator: Seq<char>,
        right: Seq<char>,
        alias: Option<Seq<char>>,
    },
    CaseWhenEq {
        left: Seq<char>,
        equals: Val,
        then_value: Val,
        then_column: Option<Seq<char>>,
        else_column: Seq<char>,
        alias: Option<Seq<char>>,
    },
    Case {
        branches: Seq<(PredicateView, OperandView)>,
        else_result: Option<OperandView>,
        alias: Option<Seq<char>>,
    },
    WindowFunction {
        func_name: Seq<char>,
        args: Seq<Seq<char>>,
        partition_by: Seq<Seq<char>>,
        order_by: Seq<(Seq<char>, bool)>,
        alias: Option<Seq<char>>,
        frame: Option<WindowFrame>,
    },
    Literal(Val),
    AliasedLiteral(Val, Seq<char>),
    Expr(ExprView, Option<Seq<char>>),
    Subquery(Box<PlanView>, Option<Seq<char>>),
}

/// What a [`DeferredItem`] stands for.
#[verifier::ext_equal]
#[allow(inconsistent_fields)]
pub enum DeferredView {
    Scalar(ExprView),
    Subquery(Box<PlanView>),
    Exists { plan: Box<PlanView>, negated: bool },
}

/// What a [`SelectPlan`] stands for.
#[verifier::ext_equal]
pub struct SelectView {
    pub ctes: Seq<(Seq<char>, PlanView)>,
    pub table_name: Seq<char>,
    pub table_alias: Option<Seq<char>>,
    pub joins: Seq<JoinView>,
    pub projection: Seq<ItemView>,
    pub group_by: Seq<Seq<char>>,
    pub filter: Option<FilterView>,
    pub having: Option<FilterView>,
    pub grouping_sets: Option<Seq<Seq<Seq<char>>>>,
    pub order_by: Seq<(Seq<char>, bool, Option<bool>)>,
    pub limit: Option<usize>,
    pub offset: Option<usize>,
    pub distinct: bool,
    pub sort: Seq<SortKey>,
    pub group_exprs: Seq<(String, ScalarExpr)>,
    pub distinct_on: Seq<SortTarget>,
}

/// What a [`ColumnDef`] stands for.
#[verifier::ext_equal]
pub struct ColumnView {
    pub name: Seq<char>,
    pub data_type: Seq<char>,
    pub nullable: bool,
    pub unique: bool,
    pub primary: bool,
    pub default: Option<ExprView>,
}

/// What a [`TableConstraint`] stands for.
#[verifier::ext_equal]
#[allow(inconsistent_fields)]
pub enum ConstraintView {
    Check { name: Option<Seq<char>>, expr: Seq<char> },
    ForeignKey {
        name: Option<Seq<char>>,
        columns: Seq<Seq<char>>,
        foreign_table: Seq<char>,
        referred_columns: Seq<Seq<char>>,
        on_delete: ReferentialAction,
        on_update: ReferentialAction,
    },
}

/// What an [`AlterTableOp`] stands for.
#[verifier::ext_equal]
#[allow(inconsistent_fields)]
pub enum AlterView {
    AddColumn {
        name: Seq<char>,
        data_type: Seq<char>,
        nullable: bool,
        default: Option<ExprView>,
    },
    RenameColumn { old_name: Seq<char>, new_name: Seq<char> },
    AlterColumnType { name: Seq<char>, data_type: Seq<char> },
    DropColumn { name: Seq<char> },
    RenameTable { new_name: Seq<char> },
}

/// What a [`ConflictTarget`] stands for.
#[verifier::ext_equal]
pub enum TargetView {
    Columns(Seq<Seq<char>>),
    Constraint(Seq<char>),
}

/// What an [`OnConflictClause`] stands for.
#[verifier::ext_equal]
#[allow(inconsistent_fields)]
pub enum ConflictView {
    DoNothing { target: Option<TargetView> },
    DoUpdate {
        target: Option<TargetView>,
        assignments: Seq<(Seq<char>, ExprView)>,
        condition: Option<ExprView>,
    },
}

/// What a [`LogicalPlan`] stands for.
#[verifier::ext_equal]
#[allow(inconsistent_fields)]
pub enum PlanView {
    CreateSchema { schema_name: Seq<char>, if_not_exists: bool },
    DropSchema { schema_name: Seq<char>, if_exists: bool, cascade: bool },
    CreateTable {
        name: Seq<char>,
        columns: Seq<ColumnView>,
        constraints: Seq<ConstraintView>,
        if_not_exists: bool,
        unique_constraints: Seq<Seq<Seq<char>>>,
    },
    DropTable { name: Seq<char>, if_exists: bool, materialized: bool },
    CreateView { name: Seq<char>, query: Box<PlanView>, or_replace: bool },
    DropView { name: Seq<char>, if_exists: bool },
    AlterTable { table_name: Seq<char>, operation: AlterView },
    CreateIndex {
        name: Seq<char>,
        table_name: Seq<char>,
        columns: Seq<Seq<char>>,
        unique: bool,
        if_not_exists: bool,
    },
    DropIndex { name: Seq<char>, if_exists: bool },
    CreateRole { name: Seq<char> },
    Grant { privilege: Seq<char>, object_name: Seq<char>, grantee: Seq<char> },
    Revoke { privilege: Seq<char>, object_name: Seq<char>, revokee: Seq<char> },
    Insert {
        table_name: Seq<char>,
        columns: Seq<Seq<char>>,
        values_list: Seq<Seq<Val>>,
        returning: Seq<Seq<char>>,
        returning_exprs: Seq<Option<ExprView>>,
        on_conflict: Option<ConflictView>,
        default_cells: Seq<Seq<bool>>,
        source: Option<Box<PlanView>>,
    },
    CreateTableAs {
        name: Seq<char>,
        query: Box<PlanView>,
        if_not_exists: bool,
        no_data: bool,
        materialized: bool,
    },
    Select(SelectView),
    Update {
        table_name: Seq<char>,
        assignments: Seq<(Seq<char>, ExprView)>,
        filter: Option<FilterView>,
        returning: Seq<Seq<char>>,
        returning_exprs: Seq<Option<ExprView>>,
        table_alias: Option<Seq<char>>,
        from: Option<Arc<LogicalPlan>>,
    },
    Delete {
        table_name: Seq<char>,
        filter: Option<FilterView>,
        returning: Seq<Seq<char>>,
        returning_exprs: Seq<Option<ExprView>>,
        table_alias: Option<Seq<char>>,
        using: Option<Arc<LogicalPlan>>,
    },
    Begin,
    Commit,
    Rollback,
    Savepoint { name: Seq<char> },
    RollbackToSavepoint { name: Seq<char> },
    ReleaseSavepoint { name: Seq<char> },
    ShowVariable { variable: Seq<char> },
    SetVariable { variable: Seq<char>, value: Seq<char> },
    Noop { tag: Seq<char> },
    SelectLiteral {
        values: Seq<(Seq<char>, Val, Option<Seq<char>>)>,
        filter: Option<FilterView>,
        deferred: Seq<Option<DeferredView>>,
    },
    SetOp { op: SetOpKind, all: bool, left: Box<PlanView>, right: Box<PlanView> },
    RecursiveCte {
        all: bool,
        column_aliases: Seq<Seq<char>>,
        seed: Box<PlanView>,
        recursive_term: Box<PlanView>,
    },
    TableFunction(FnView),
    /// Any other plan.
    Other(LogicalPlan),
}

// ---------------------------------------------------------------------------
// Parts without sub-plans
// ---------------------------------------------------------------------------

pub open spec fn column_view(c: ColumnDef) -> ColumnView {
    ColumnView {
        name: c.name@,
        data_type: c.data_type@,
        nullable: c.nullable,
        unique: c.unique,
        primary: c.primary,
        default: scalar_if(c.default),
    }
}

/// What an optional expression stands for.
pub open spec fn scalar_if(e: Option<ScalarExpr>) -> Option<ExprView> {
    match e {
        Some(e) => Some(e@),
        None => None,
    }
}

pub open spec fn columns_view(s: Seq<ColumnDef>) -> Seq<ColumnView> {
    Seq::new(s.len(), |i: int| column_view(s[i]))
}

pub open spec fn constraint_view(c: TableConstraint) -> ConstraintView {
    match c {
        TableConstraint::Check { name, expr } => ConstraintView::Check {
            name: opt_text(name),
            expr: expr@,
        },
        TableConstraint::ForeignKey {
            name,
            columns,
            foreign_table,
            referred_columns,
            on_delete,
            on_update,
        } => ConstraintView::ForeignKey {
            name: opt_text(name),
            columns: texts(columns@),
            foreign_table: foreign_table@,
            referred_columns: texts(referred_columns@),
            on_delete,
            on_update,
        },
    }
}

pub open spec fn constraints_view(s: Seq<TableConstraint>) -> Seq<ConstraintView> {
    Seq::new(s.len(), |i: int| constraint_view(s[i]))
}

pub open spec fn alter_view(a: AlterTableOp) -> AlterView {
    match a {
        AlterTableOp::AddColumn { name, data_type, nullable, default } => AlterView::AddColumn {
            name: name@,
            data_type: data_type@,
            nullable,
            default: scalar_if(default),
        },
        AlterTableOp::RenameColumn { old_name, new_name } => AlterView::RenameColumn {
            old_name: old_name@,
            new_name: new_name@,
        },
        AlterTableOp::AlterColumnType { name, data_type } => AlterView::AlterColumnType {
            name: name@,
            data_type: data_type@,
        },
        AlterTableOp::DropColumn { name } => AlterView::DropColumn { name: name@ },
        AlterTableOp::RenameTable { new_name } => AlterView::RenameTable { new_name: new_name@ },
    }
}

pub open spec fn target_view(t: Option<ConflictTarget>) -> Option<TargetView> {
    match t {
        Some(ConflictTarget::Columns(c)) => Some(TargetView::Columns(texts(c@))),
        Some(ConflictTarget::Constraint(n)) => Some(TargetView::Constraint(n@)),
        None => None,
    }
}

/// What assignments stand for.
pub open spec fn assignments_view(s: Seq<(String, ScalarExpr)>) -> Seq<(Seq<char>, ExprView)> {
    Seq::new(s.len(), |i: int| (s[i].0@, s[i].1@))
}

/// What the expressions of a `RETURNING` list stand for.
pub open spec fn returning_view(s: Seq<Option<ReturningExpr>>) -> Seq<Option<ExprView>> {
    Seq::new(
        s.len(),
        |i: int|
            match s[i] {
                Some(x) => Some(x.expr@),
                None => None,
            },
    )
}

pub open spec fn conflict_view(c: OnConflictClause) -> ConflictView {
    match c {
        OnConflictClause::DoNothing { target } => ConflictView::DoNothing {
            target: target_view(target),
        },
        OnConflictClause::DoUpdate { target, assignments, condition } => ConflictView::DoUpdate {
            target: target_view(target),
            assignments: assignments_view(assignments@),
            condition: scalar_if(condition),
        },
    }
}

/// What lists of texts stand for.
pub open spec fn text_lists(s: Seq<Vec<String>>) -> Seq<Seq<Seq<char>>> {
    Seq::new(s.len(), |i: int| texts(s[i]@))
}

/// What lists of flags stand for.
pub open spec fn flag_lists(s: Seq<Vec<bool>>) -> Seq<Seq<bool>> {
    Seq::new(s.len(), |i: int| s[i]@)
}

/// What the keys of a window's ordering stand for.
pub open spec fn window_keys(s: Seq<(String, bool)>) -> Seq<(Seq<char>, bool)> {
    Seq::new(s.len(), |i: int| (s[i].0@, s[i].1))
}

/// What the keys of an ordering stand for.
pub open spec fn order_view(s: Seq<(String, bool, Option<bool>)>) -> Seq<
    (Seq<char>, bool, Option<bool>),
> {
    Seq::new(s.len(), |i: int| (s[i].0@, s[i].1, s[i].2))
}

/// What constant select items stand for.
pub open spec fn constants_view(s: Seq<(String, Value, Option<String>)>) -> Seq<
    (Seq<char>, Val, Option<Seq<char>>),
> {
    Seq::new(s.len(), |i: int| (s[i].0@, s[i].1@, opt_text(s[i].2)))
}

/// What the branches of a `CASE` on comparisons stand for.
pub open spec fn case_branches(s: Seq<(Predicate, Operand)>) -> Seq<(PredicateView, OperandView)> {
    Seq::new(s.len(), |i: int| (s[i].0@, s[i].1@))
}

pub open spec fn operand_if(o: Option<Operand>) -> Option<OperandView> {
    match o {
        Some(o) => Some(o@),
        None => None,
    }
}

// ---------------------------------------------------------------------------
// Parts with sub-plans
// ---------------------------------------------------------------------------

pub open spec fn filter_view(f: FilterExpr) -> FilterView
    decreases f,
{
    match f {
        FilterExpr::Predicate(p) => FilterView::Predicate(p@),
        FilterExpr::And(a, b) => FilterView::And(
            Box::new(filter_view(*a)),
            Box::new(filter_view(*b)),
        ),
        FilterExpr::Or(a, b) => FilterView::Or(
            Box::new(filter_view(*a)),
            Box::new(filter_view(*b)),
        ),
        FilterExpr::Not(a) => FilterView::Not(Box::new(filter_view(*a))),
        FilterExpr::IsNull(c) => FilterView::IsNull(c@),
        FilterExpr::IsNotNull(c) => FilterView::IsNotNull(c@),
        FilterExpr::InList { left, list, negated } => FilterView::InList {
            left: left@,
            list: operands(list@),
            negated,
        },
        FilterExpr::InSubquery { left, subquery, negated, left_value } => FilterView::InSubquery {
            left: left@,
            subquery: Box::new(plan_view(*subquery)),
            negated,
            left_value: opt_val(left_value),
        },
        FilterExpr::CompareSubquery { left, op, subquery } => FilterView::CompareSubquery {
            left: left@,
            op,
            subquery: Box::new(plan_view(*subquery)),
        },
        FilterExpr::ExprCmp { left, op, right } => FilterView::ExprCmp {
            left: left@,
            op,
            right: right@,
        },
        FilterExpr::Exists { subquery, negated } => FilterView::Exists {
            subquery: Box::new(plan_view(*subquery)),
            negated,
        },
        FilterExpr::Scalar(e) => FilterView::Scalar(e@),
        FilterExpr::QuantifiedSubquery { left, op, subquery, all } =>
            FilterView::QuantifiedSubquery {
                left: left@,
                op,
                subquery: Box::new(plan_view(*subquery)),
                all,
            },
    }
}

/// What an optional condition stands for.
pub open spec fn filter_if(f: Option<FilterExpr>) -> Option<FilterView>
    decreases f,
{
    match f {
        Some(f) => Some(filter_view(f)),
        None => None,
    }
}

pub open spec fn join_view(j: Join) -> JoinView
    decreases j,
{
    JoinView {
        table_name: j.table_name@,
        table_alias: opt_text(j.table_alias),
        condition: match j.condition {
            Some(f) => Some(filter_view(f)),
            None => None,
        },
        join_type: j.join_type,
        table_fn: match j.table_fn {
            Some(f) => Some(fn_view(f)),
            None => None,
        },
        using_columns: texts(j.using_columns@),
        natural: j.natural,
        lateral: j.lateral,
    }
}

pub open spec fn item_view(p: ProjectionItem) -> ItemView
    decreases p,
{
    match p {
        ProjectionItem::Column(c) => ItemView::Column(c@),
        ProjectionItem::AliasedColumn(c, a) => ItemView::AliasedColumn(c@, a@),
        ProjectionItem::Aggregate(op, c) => ItemView::Aggregate(op, c@),
        ProjectionItem::ScalarFunction { func_name, args, alias } => ItemView::ScalarFunction {
            func_name: func_name@,
            args: texts(args@),
            alias: opt_text(alias),
        },
        ProjectionItem::JsonAccess { left, operator, right, alias } => ItemView::JsonAccess {
            left: left@,
            operator: operator@,
            right: right@,
            alias: opt_text(alias),
        },
        ProjectionItem::CaseWhenEq {
            left,
            equals,
            then_value,
            then_column,
            else_column,
            alias,
        } => ItemView::CaseWhenEq {
            left: left@,
            equals: equals@,
            then_value: then_value@,
            then_column: opt_text(then_column),
            else_column: else_column@,
            alias: opt_text(alias),
        },
        ProjectionItem::Case { branches, else_result, alias } => ItemView::Case {
            branches: case_branches(branches@),
            else_result: operand_if(else_result),
            alias: opt_text(alias),
        },
        ProjectionItem::WindowFunction { func_name, args, partition_by, order_by, alias, frame } =>
            ItemView::WindowFunction {
                func_name: func_name@,
                args: texts(args@),
                partition_by: texts(partition_by@),
                order_by: window_keys(order_by@),
                alias: opt_text(alias),
                frame,
            },
        ProjectionItem::Literal(v) => ItemView::Literal(v@),
        ProjectionItem::AliasedLiteral(v, a) => ItemView::AliasedLiteral(v@, a@),
        ProjectionItem::Expr { expr, alias } => ItemView::Expr(expr@, opt_text(alias)),
        ProjectionItem::Subquery { plan, alias } => ItemView::Subquery(
            Box::new(plan_view(*plan)),
            opt_text(alias),
        ),
    }
}

pub open spec fn deferred_view(d: DeferredItem) -> DeferredView
    decreases d,
{
    match d {
        DeferredItem::Scalar(e) => DeferredView::Scalar(e@),
        DeferredItem::Subquery(p) => DeferredView::Subquery(Box::new(plan_view(*p))),
        DeferredItem::Exists { plan, negated } => DeferredView::Exists {
            plan: Box::new(plan_view(*plan)),
            negated,
        },
    }
}

pub open spec fn select_view(s: SelectPlan) -> SelectView
    decreases s,
{
    SelectView {
        ctes: Seq::new(
            s.ctes@.len(),
            |i: int|
                if 0 <= i < s.ctes@.len() {
                    (s.ctes@[i].0@, plan_view(*s.ctes@[i].1))
                } else {
                    (Seq::empty(), PlanView::Begin)
                },
        ),
        table_name: s.table_name@,
        table_alias: opt_text(s.table_alias),
        joins: Seq::new(
            s.joins@.len(),
            |i: int|
                if 0 <= i < s.joins@.len() {
                    join_view(s.joins@[i])
                } else {
                    arbitrary()
                },
        ),
        projection: Seq::new(
            s.projection@.len(),
            |i: int|
                if 0 <= i < s.projection@.len() {
                    item_view(s.projection@[i])
                } else {
                    arbitrary()
                },
        ),
        group_by: texts(s.group_by@),
        filter: match s.filter {
            Some(f) => Some(filter_view(f)),
            None => None,
        },
        having: match s.having {
            Some(f) => Some(filter_view(f)),
            None => None,
        },
        grouping_sets: match s.grouping_sets {
            Some(g) => Some(text_lists(g@)),
            None => None,
        },
        order_by: order_view(s.order_by@),
        limit: s.limit,
        offset: s.offset,
        distinct: s.distinct,
        sort: s.sort@,
        group_exprs: s.group_exprs@,
        distinct_on: s.distinct_on@,
    }
}

pub open spec fn plan_view(p: LogicalPlan) -> PlanView
    decreases p,
{
    match p {
        LogicalPlan::CreateSchema { schema_name, if_not_exists } => PlanView::CreateSchema {
            schema_name: schema_name@,
            if_not_exists,
        },
        LogicalPlan::DropSchema { schema_name, if_exists, cascade } => PlanView::DropSchema {
            schema_name: schema_name@,
            if_exists,
            cascade,
        },
        LogicalPlan::CreateTable {
            name,
            columns,
            constraints,
            if_not_exists,
            unique_constraints,
        } => PlanView::CreateTable {
            name: name@,
            columns: columns_view(columns@),
            constraints: constraints_view(constraints@),
            if_not_exists,
            unique_constraints: text_lists(unique_constraints@),
        },
        LogicalPlan::DropTable { name, if_exists, materialized } => PlanView::DropTable {
            name: name@,
            if_exists,
            materialized,
        },
        LogicalPlan::CreateView { name, query, or_replace } => PlanView::CreateView {
            name: name@,
            query: Box::new(plan_view(*query)),
            or_replace,
        },
        LogicalPlan::DropView { name, if_exists } => PlanView::DropView { name: name@, if_exists },
        LogicalPlan::AlterTable { table_name, operation } => PlanView::AlterTable {
            table_name: table_name@,
            operation: alter_view(operation),
        },
        LogicalPlan::CreateIndex { name, table_name, columns, unique, if_not_exists } =>
            PlanView::CreateIndex {
                name: name@,
                table_name: table_name@,
                columns: texts(columns@),
                unique,
                if_not_exists,
            },
        LogicalPlan::DropIndex { name, if_exists } => PlanView::DropIndex {
            name: name@,
            if_exists,
        },
        LogicalPlan::CreateRole { name } => PlanView::CreateRole { name: name@ },
        LogicalPlan::Grant { privilege, object_name, grantee } => PlanView::Grant {
            privilege: privilege@,
            object_name: object_name@,
            grantee: grantee@,
        },
        LogicalPlan::Revoke { privilege, object_name, revokee } => PlanView::Revoke {
            privilege: privilege@,
            object_name: object_name@,
            revokee: revokee@,
        },
        LogicalPlan::Insert {
            table_name,
            columns,
            values_list,
            returning,
            returning_exprs,
            on_conflict,
            default_cells,
            source,
        } => PlanView::Insert {
            table_name: table_name@,
            columns: texts(columns@),
            values_list: rows_view(values_list@),
            returning: texts(returning@),
            returning_exprs: returning_view(returning_exprs@),
            on_conflict: match on_conflict {
                Some(c) => Some(conflict_view(c)),
                None => None,
            },
            default_cells: flag_lists(default_cells@),
            source: match source {
                Some(p) => Some(Box::new(plan_view(*p))),
                None => None,
            },
        },
        LogicalPlan::CreateTableAs { name, query, if_not_exists, no_data, materialized } =>
            PlanView::CreateTableAs {
                name: name@,
                query: Box::new(plan_view(*query)),
                if_not_exists,
                no_data,
                materialized,
            },
        LogicalPlan::Select(s) => PlanView::Select(select_view(s)),
        LogicalPlan::Update {
            table_name,
            assignments,
            filter,
            returning,
            returning_exprs,
            table_alias,
            from,
        } => PlanView::Update {
            table_name: table_name@,
            assignments: assignments_view(assignments@),
            filter: filter_if(filter),
            returning: texts(returning@),
            returning_exprs: returning_view(returning_exprs@),
            table_alias: opt_text(table_alias),
            from,
        },
        LogicalPlan::Delete {
            table_name,
            filter,
            returning,
            returning_exprs,
            table_alias,
            using,
        } => PlanView::Delete {
            table_name: table_name@,
            filter: filter_if(filter),
            returning: texts(returning@),
            returning_exprs: returning_view(returning_exprs@),
            table_alias: opt_text(table_alias),
            using,
        },
        LogicalPlan::Begin => PlanView::Begin,
        LogicalPlan::Commit => PlanView::Commit,
        LogicalPlan::Rollback => PlanView::Rollback,
        LogicalPlan::Savepoint { name } => PlanView::Savepoint { name: name@ },
        LogicalPlan::RollbackToSavepoint { name } => PlanView::RollbackToSavepoint { name: name@ },
        LogicalPlan::ReleaseSavepoint { name } => PlanView::ReleaseSavepoint { name: name@ },
        LogicalPlan::ShowVariable { variable } => PlanView::ShowVariable { variable: variable@ },
        LogicalPlan::SetVariable { variable, value } => PlanView::SetVariable {
            variable: variable@,
            value: value@,
        },
        LogicalPlan::Noop { tag } => PlanView::Noop { tag: tag@ },
        LogicalPlan::SelectLiteral { values, filter, deferred } => PlanView::SelectLiteral {
            values: constants_view(values@),
            filter: filter_if(filter),
            deferred: Seq::new(
                deferred@.len(),
                |i: int|
                    if 0 <= i < deferred@.len() {
                        match deferred@[i] {
                            Some(d) => Some(deferred_view(d)),
                            None => None,
                        }
                    } else {
                        None
                    },
            ),
        },
        LogicalPlan::SetOp { op, all, left, right } => PlanView::SetOp {
            op,
            all,
            left: Box::new(plan_view(*left)),
            right: Box::new(plan_view(*right)),
        },
        LogicalPlan::RecursiveCte { all, column_aliases, seed, recursive_term } =>
            PlanView::RecursiveCte {
                all,
                column_aliases: texts(column_aliases@),
                seed: Box::new(plan_view(*seed)),
                recursive_term: Box::new(plan_view(*recursive_term)),
            },
        LogicalPlan::TableFunction(f) => PlanView::TableFunction(fn_view(f)),
        _ => PlanView::Other(p),
    }
}

// ---------------------------------------------------------------------------
// Lists of parts
// ---------------------------------------------------------------------------

/// What named plans stand for.
pub open spec fn ctes_view(s: Seq<(String, Arc<LogicalPlan>)>) -> Seq<(Seq<char>, PlanView)> {
    Seq::new(s.len(), |i: int| (s[i].0@, plan_view(*s[i].1)))
}

/// What joins stand for.
pub open spec fn joins_view(s: Seq<Join>) -> Seq<JoinView> {
    Seq::new(s.len(), |i: int| join_view(s[i]))
}

/// What select items stand for.
pub open spec fn items_view(s: Seq<ProjectionItem>) -> Seq<ItemView> {
    Seq::new(s.len(), |i: int| item_view(s[i]))
}

/// What a deferred item stands for, if there is one.
pub open spec fn deferred_if(d: Option<DeferredItem>) -> Option<DeferredView> {
    match d {
        Some(d) => Some(deferred_view(d)),
        None => None,
    }
}

/// What deferred items stand for.
pub open spec fn deferreds_view(s: Seq<Option<DeferredItem>>) -> Seq<Option<DeferredView>> {
    Seq::new(s.len(), |i: int| deferred_if(s[i]))
}

/// The lists of a select's view.
pub proof fn lemma_select_view(s: SelectPlan)
    ensures
        select_view(s).ctes == ctes_view(s.ctes@),
        select_view(s).joins == joins_view(s.joins@),
        select_view(s).projection == items_view(s.projection@),
{
    assert(select_view(s).ctes =~= ctes_view(s.ctes@));
    assert(select_view(s).joins =~= joins_view(s.joins@));
    assert(select_view(s).projection =~= items_view(s.projection@));
}

/// The list of deferred items in the view of constant select items.
pub proof fn lemma_literal_view(
    values: Vec<(String, Value, Option<String>)>,
    filter: Option<FilterExpr>,
    deferred: Vec<Option<DeferredItem>>,
)
    ensures
        plan_view(LogicalPlan::SelectLiteral { values, filter, deferred })
            == (PlanView::SelectLiteral {
            values: constants_view(values@),
            filter: filter_if(filter),
            deferred: deferreds_view(deferred@),
        }),
{
    let v = plan_view(LogicalPlan::SelectLiteral { values, filter, deferred });
    assert(v->deferred =~= deferreds_view(deferred@));
}

} // verus!
