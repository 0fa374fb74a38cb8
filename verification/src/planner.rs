//! Planning queries and their conditions.
//!
//! Planning a query plans its subqueries in turn, so the functions here call
//! one another; each takes the number of queries around the one it plans.
use vstd::prelude::*;
use std::sync::Arc;
use crate::call_errors::unknown_function;
use crate::expr::{aggregates, first_column, ExprView};
use crate::facts::{Known, Stop};
use crate::grouping_sets::grouping;
use crate::literals::{col_name, literal, operand, plain_name};
use crate::lower::lowered;
use crate::output_names::default_name;
use crate::plan_parts::{count_of, named_args, order_keys, table_fn, window_item};
use crate::plan_types::{
    CompareOp, Join, JoinType, LogicalPlan, OperandView, Predicate, PredicateView, ScalarBinaryOp,
    SetOpKind,
};
use crate::plan_views::{
    ctes_view, join_view, joins_view, lemma_select_view, plan_view, DeferredView, FilterView,
    FnView, ItemView, JoinView, PlanView, SelectView,
};
use crate::syntax::{
    Arguments, Body, Cte, FactorKind, FromItem, FunctionCall, ItemKind, JoinClause, JoinConstraint,
    JoinOperator, OrderItem, Query, Select, SelectItem, SetOperator, SqlBinaryOp, SqlExpr, SqlNode,
    SqlUnaryOp, TableAlias, TableFactor,
};
use crate::text::{clone_texts, same_text, texts, uppercased};
use crate::value::{Val, Value};

verus! {

/// How deep queries may nest: each common table expression, set operation, and
/// subquery is planned inside the query around it.
pub const MAX_QUERY_PLAN_DEPTH: usize = 100;

/// The named plans that a query reads.
pub type Ctes = Seq<(Seq<char>, PlanView)>;

// ---------------------------------------------------------------------------
// Operators
// ---------------------------------------------------------------------------

/// The comparison that a SQL operator is in a predicate.
pub open spec fn predicate_op(op: SqlBinaryOp) -> Option<CompareOp> {
    match op {
        SqlBinaryOp::Eq => Some(CompareOp::Eq),
        SqlBinaryOp::NotEq => Some(CompareOp::Ne),
        SqlBinaryOp::Lt => Some(CompareOp::Lt),
        SqlBinaryOp::LtEq => Some(CompareOp::Le),
        SqlBinaryOp::Gt => Some(CompareOp::Gt),
        SqlBinaryOp::GtEq => Some(CompareOp::Ge),
        SqlBinaryOp::AtArrow => Some(CompareOp::Contains),
        SqlBinaryOp::ArrowAt => Some(CompareOp::ContainedBy),
        SqlBinaryOp::Custom(s) => if s@ == "@>"@ {
            Some(CompareOp::Contains)
        } else if s@ == "<@"@ {
            Some(CompareOp::ContainedBy)
        } else {
            None
        },
        _ => None,
    }
}

/// The comparison that a SQL operator is in a predicate.
pub fn compare_op(op: &SqlBinaryOp) -> (r: Option<CompareOp>)
    ensures
        r == predicate_op(*op),
{
    match op {
        SqlBinaryOp::Eq => Some(CompareOp::Eq),
        SqlBinaryOp::NotEq => Some(CompareOp::Ne),
        SqlBinaryOp::Lt => Some(CompareOp::Lt),
        SqlBinaryOp::LtEq => Some(CompareOp::Le),
        SqlBinaryOp::Gt => Some(CompareOp::Gt),
        SqlBinaryOp::GtEq => Some(CompareOp::Ge),
        SqlBinaryOp::AtArrow => Some(CompareOp::Contains),
        SqlBinaryOp::ArrowAt => Some(CompareOp::ContainedBy),
        SqlBinaryOp::Custom(s) => {
            if same_text(s.as_str(), "@>") {
                Some(CompareOp::Contains)
            } else if same_text(s.as_str(), "<@") {
                Some(CompareOp::ContainedBy)
            } else {
                None
            }
        },
        _ => None,
    }
}

/// The comparisons that `ANY` and `ALL` take.
pub open spec fn quantified_op(op: SqlBinaryOp) -> Option<ScalarBinaryOp> {
    match op {
        SqlBinaryOp::Eq => Some(ScalarBinaryOp::Eq),
        SqlBinaryOp::NotEq => Some(ScalarBinaryOp::NotEq),
        SqlBinaryOp::Lt => Some(ScalarBinaryOp::Lt),
        SqlBinaryOp::LtEq => Some(ScalarBinaryOp::LtEq),
        SqlBinaryOp::Gt => Some(ScalarBinaryOp::Gt),
        SqlBinaryOp::GtEq => Some(ScalarBinaryOp::GtEq),
        _ => None,
    }
}

/// The comparison operators usable with `ANY` and `ALL`.
pub fn compare_op_scalar(op: &SqlBinaryOp) -> (r: Option<ScalarBinaryOp>)
    ensures
        r == quantified_op(*op),
{
    match op {
        SqlBinaryOp::Eq => Some(ScalarBinaryOp::Eq),
        SqlBinaryOp::NotEq => Some(ScalarBinaryOp::NotEq),
        SqlBinaryOp::Lt => Some(ScalarBinaryOp::Lt),
        SqlBinaryOp::LtEq => Some(ScalarBinaryOp::LtEq),
        SqlBinaryOp::Gt => Some(ScalarBinaryOp::Gt),
        SqlBinaryOp::GtEq => Some(ScalarBinaryOp::GtEq),
        _ => None,
    }
}

// ---------------------------------------------------------------------------
// References to a table
// ---------------------------------------------------------------------------

/// Whether a plan reads the relation `name`: as its table, a joined table, or
/// in one of the plans it names, unless that plan's name hides it.
pub open spec fn references(p: PlanView, name: Seq<char>) -> bool
    decreases p, 0int,
{
    match p {
        PlanView::Select(s) => s.table_name == name || (exists|i: int|
            0 <= i < s.joins.len() && (#[trigger] s.joins[i]).table_name == name)
            || ctes_reference(s.ctes, 0, name),
        PlanView::SetOp { left, right, .. } => references(*left, name) || references(*right, name),
        PlanView::RecursiveCte { seed, recursive_term, .. } => references(*seed, name)
            || references(*recursive_term, name),
        _ => false,
    }
}

/// Whether one of the named plans from position `i` on reads the relation
/// `name`, unless its own name hides it.
pub open spec fn ctes_reference(ctes: Ctes, i: nat, name: Seq<char>) -> bool
    decreases ctes, ctes.len() - i,
{
    if i >= ctes.len() {
        false
    } else {
        (ctes[i as int].0 != name && references(ctes[i as int].1, name)) || ctes_reference(
            ctes,
            i + 1,
            name,
        )
    }
}

fn joins_read(joins: &Vec<Join>, name: &str) -> (r: bool)
    ensures
        r == exists|i: int|
            0 <= i < joins_view(joins@).len() && (#[trigger] joins_view(joins@)[i]).table_name
                == name@,
{
    let ghost views = joins_view(joins@);
    let mut i: usize = 0;
    while i < joins.len()
        invariant
            i <= joins@.len(),
            views == joins_view(joins@),
            forall|j: int| 0 <= j < i ==> (#[trigger] views[j]).table_name != name@,
        decreases joins@.len() - i,
    {
        assert(views[i as int] == join_view(joins@[i as int]));
        if same_text(joins[i].table_name.as_str(), name) {
            return true;
        }
        i = i + 1;
    }
    false
}

fn ctes_read(ctes: &Vec<(String, Arc<LogicalPlan>)>, name: &str) -> (r: bool)
    ensures
        r == ctes_reference(ctes_view(ctes@), 0, name@),
    decreases ctes, ctes@.len(),
{
    let ghost views = ctes_view(ctes@);
    let mut n: usize = 0;
    while n < ctes.len()
        invariant
            n <= ctes@.len(),
            views == ctes_view(ctes@),
            ctes_reference(views, 0, name@) == ctes_reference(views, n as nat, name@),
        decreases ctes@.len() - n,
    {
        assert(decreases_to!(ctes@ => ctes@[n as int]));
        if !same_text(ctes[n].0.as_str(), name) && plan_references_table(&ctes[n].1, name) {
            return true;
        }
        n = n + 1;
    }
    false
}

/// True if any `FROM` or join relation in `plan` refers to the table `name`
/// (used to detect a recursive common table expression's self-reference). A
/// named plan that shadows `name` stops the descent into that sub-plan.
pub fn plan_references_table(plan: &LogicalPlan, name: &str) -> (r: bool)
    ensures
        r == references(plan_view(*plan), name@),
    decreases plan, 0int,
{
    match plan {
        LogicalPlan::Select(s) => {
            proof {
                lemma_select_view(*s);
            }
            same_text(s.table_name.as_str(), name) || joins_read(&s.joins, name) || ctes_read(
                &s.ctes,
                name,
            )
        },
        LogicalPlan::SetOp { left, right, .. } => plan_references_table(left, name)
            || plan_references_table(right, name),
        LogicalPlan::RecursiveCte { seed, recursive_term, .. } => plan_references_table(seed, name)
            || plan_references_table(recursive_term, name),
        _ => false,
    }
}

/// A `WITH RECURSIVE` entry whose body is `seed UNION [ALL] term` with a term
/// that reads the entry itself runs the seed, then the term until nothing new
/// comes; any other body stays an ordinary plan.
pub open spec fn recursive_form(
    p: PlanView,
    recursive: bool,
    name: Seq<char>,
    column_aliases: Seq<Seq<char>>,
) -> PlanView {
    match p {
        PlanView::SetOp { op: SetOpKind::Union, all, left, right } => if recursive && references(
            *right,
            name,
        ) {
            PlanView::RecursiveCte { all, column_aliases, seed: left, recursive_term: right }
        } else {
            p
        },
        _ => p,
    }
}

pub fn make_recursive(plan: LogicalPlan, recursive: bool, name: &str, columns: &Vec<String>) -> (r:
    LogicalPlan)
    ensures
        plan_view(r) == recursive_form(plan_view(plan), recursive, name@, texts(columns@)),
{
    match plan {
        LogicalPlan::SetOp { op: SetOpKind::Union, all, left, right } => {
            if recursive && plan_references_table(&right, name) {
                LogicalPlan::RecursiveCte {
                    all,
                    column_aliases: clone_texts(columns),
                    seed: left,
                    recursive_term: right,
                }
            } else {
                LogicalPlan::SetOp { op: SetOpKind::Union, all, left, right }
            }
        },
        other => other,
    }
}

// ---------------------------------------------------------------------------
// Conditions
// ---------------------------------------------------------------------------

/// The operands that the expressions from position `i` on are, after those of
/// `before`; none unless all of them are operands.
pub open spec fn operand_list(
    es: Seq<SqlExpr>,
    i: nat,
    before: Seq<OperandView>,
    params: Seq<Val>,
    k: Known,
) -> Result<Option<Seq<OperandView>>, Stop>
    decreases es.len() - i,
{
    if i >= es.len() {
        Ok(Some(before))
    } else {
        match operand(es[i as int], params, k) {
            Ok(Some(o)) => operand_list(es, i + 1, before.push(o), params, k),
            Ok(None) => Ok(None),
            Err(s) => Err(s),
        }
    }
}

/// A comparison of a column with an operand.
pub open spec fn comparing(left: Seq<char>, op: CompareOp, right: OperandView) -> FilterView {
    FilterView::Predicate(PredicateView { left, op, right })
}

/// `column BETWEEN low AND high` as two comparisons.
pub open spec fn column_between(
    column: Seq<char>,
    low: OperandView,
    high: OperandView,
    negated: bool,
) -> FilterView {
    if negated {
        FilterView::Or(
            Box::new(comparing(column, CompareOp::Lt, low)),
            Box::new(comparing(column, CompareOp::Gt, high)),
        )
    } else {
        FilterView::And(
            Box::new(comparing(column, CompareOp::Ge, low)),
            Box::new(comparing(column, CompareOp::Le, high)),
        )
    }
}

/// The error for an expression that is not supported where it stands: the
/// first call of a function that is not provided, or else `prefix` and the
/// expression itself.
pub open spec fn unsupported(e: SqlExpr, prefix: Seq<char>, k: Known) -> Stop {
    match unknown_function(e, k) {
        Ok(Some(m)) => Stop::Raised(m),
        Ok(None) => Stop::Raised(prefix + e.text@),
        Err(s) => s,
    }
}

/// A condition evaluated as a scalar expression.
pub open spec fn scalar_filter(e: SqlExpr, params: Seq<Val>, k: Known) -> Result<FilterView, Stop> {
    match lowered(e, params, k) {
        Ok(Some(x)) => if aggregates(x) {
            Err(Stop::Raised("aggregate functions are not allowed in WHERE"@))
        } else {
            Ok(FilterView::Scalar(x))
        },
        Ok(None) => Err(unsupported(e, "Unsupported WHERE condition: "@, k)),
        Err(s) => Err(s),
    }
}

/// What a condition is planned to. Comparisons of a column with a constant and
/// conditions on subqueries keep forms of their own; anything else is evaluated
/// as a scalar expression. A condition that none of these can express is an
/// error, never dropped.
pub open spec fn planned_filter(e: SqlExpr, depth: nat, params: Seq<Val>, k: Known) -> Result<
    FilterView,
    Stop,
>
    decreases e, 1int,
{
    match e.node {
        SqlNode::Nested(x) => planned_filter(*x, depth, params, k),
        SqlNode::Binary { left, op: SqlBinaryOp::And, right } => match planned_filter(
            *left,
            depth,
            params,
            k,
        ) {
            Ok(a) => match planned_filter(*right, depth, params, k) {
                Ok(b) => Ok(FilterView::And(Box::new(a), Box::new(b))),
                Err(s) => Err(s),
            },
            Err(s) => Err(s),
        },
        SqlNode::Binary { left, op: SqlBinaryOp::Or, right } => match planned_filter(
            *left,
            depth,
            params,
            k,
        ) {
            Ok(a) => match planned_filter(*right, depth, params, k) {
                Ok(b) => Ok(FilterView::Or(Box::new(a), Box::new(b))),
                Err(s) => Err(s),
            },
            Err(s) => Err(s),
        },
        SqlNode::Unary { op: SqlUnaryOp::Not, expr } => match planned_filter(
            *expr,
            depth,
            params,
            k,
        ) {
            Ok(a) => Ok(FilterView::Not(Box::new(a))),
            Err(s) => Err(s),
        },
        _ => match planned_test(e, depth, params, k) {
            Ok(Some(f)) => Ok(f),
            Ok(None) => scalar_filter(e, params, k),
            Err(s) => Err(s),
        },
    }
}

/// What a single condition is planned to, if it has a form of its own.
pub open spec fn planned_test(e: SqlExpr, depth: nat, params: Seq<Val>, k: Known) -> Result<
    Option<FilterView>,
    Stop,
>
    decreases e, 0int,
{
    match e.node {
        SqlNode::IsNull(x) => Ok(
            match plain_name(*x) {
                Some(c) => Some(FilterView::IsNull(c)),
                None => None,
            },
        ),
        SqlNode::IsNotNull(x) => Ok(
            match plain_name(*x) {
                Some(c) => Some(FilterView::IsNotNull(c)),
                None => None,
            },
        ),
        SqlNode::InList { expr, list, negated } => match plain_name(*expr) {
            Some(left) => match operand_list(list@, 0, Seq::empty(), params, k) {
                Ok(Some(list)) => Ok(Some(FilterView::InList { left, list, negated })),
                Ok(None) => Ok(None),
                Err(s) => Err(s),
            },
            None => Ok(None),
        },
        SqlNode::InSubquery { expr, query, negated } => match planned_query(
            *query,
            depth,
            params,
            k,
        ) {
            Ok(plan) => in_subquery(*expr, plan, negated, params, k),
            Err(s) => Err(s),
        },
        SqlNode::Exists { query, negated } => match planned_query(*query, depth, params, k) {
            Ok(plan) => Ok(Some(FilterView::Exists { subquery: Box::new(plan), negated })),
            Err(s) => Err(s),
        },
        SqlNode::Quantified { left, op, op_text, right, all } => match right.node {
            SqlNode::Subquery(query) => match quantified_op(op) {
                Some(op) => match lowered(*left, params, k) {
                    Ok(Some(x)) => match planned_query(*query, depth, params, k) {
                        Ok(plan) => Ok(
                            Some(
                                FilterView::QuantifiedSubquery {
                                    left: x,
                                    op,
                                    subquery: Box::new(plan),
                                    all,
                                },
                            ),
                        ),
                        Err(s) => Err(s),
                    },
                    Ok(None) => Err(
                        Stop::Raised("Unsupported quantified operand: "@ + left.text@),
                    ),
                    Err(s) => Err(s),
                },
                None => Err(Stop::Raised("Unsupported quantified operator: "@ + op_text@)),
            },
            _ => Ok(None),
        },
        SqlNode::Binary { left, op, right } => match (predicate_op(op), col_name(*left)) {
            (Some(op), Some(left)) => match right.node {
                SqlNode::Subquery(query) => match planned_query(*query, depth, params, k) {
                    Ok(plan) => Ok(
                        Some(FilterView::CompareSubquery { left, op, subquery: Box::new(plan) }),
                    ),
                    Err(s) => Err(s),
                },
                _ => match operand(*right, params, k) {
                    Ok(Some(o)) => Ok(Some(comparing(left, op, o))),
                    Ok(None) => Ok(None),
                    Err(s) => Err(s),
                },
            },
            _ => Ok(None),
        },
        SqlNode::Between { expr, negated, low, high } => match plain_name(*expr) {
            Some(column) => match operand(*low, params, k) {
                Ok(Some(low)) => match operand(*high, params, k) {
                    Ok(Some(high)) => Ok(Some(column_between(column, low, high, negated))),
                    Ok(None) => Ok(None),
                    Err(s) => Err(s),
                },
                Ok(None) => Ok(None),
                Err(s) => Err(s),
            },
            None => Ok(None),
        },
        _ => Ok(None),
    }
}

/// `expr [NOT] IN (subquery)`, by whether the left side is a column, a
/// constant, or another expression.
pub open spec fn in_subquery(
    e: SqlExpr,
    plan: PlanView,
    negated: bool,
    params: Seq<Val>,
    k: Known,
) -> Result<Option<FilterView>, Stop> {
    match col_name(e) {
        Some(left) => Ok(
            Some(
                FilterView::InSubquery {
                    left,
                    subquery: Box::new(plan),
                    negated,
                    left_value: None,
                },
            ),
        ),
        None => match literal(e, params, k) {
            Ok(Some(v)) => Ok(
                Some(
                    FilterView::InSubquery {
                        left: Seq::empty(),
                        subquery: Box::new(plan),
                        negated,
                        left_value: Some(v),
                    },
                ),
            ),
            Ok(None) => match lowered(e, params, k) {
                Ok(Some(x)) => {
                    let quantified = FilterView::QuantifiedSubquery {
                        left: x,
                        op: ScalarBinaryOp::Eq,
                        subquery: Box::new(plan),
                        all: false,
                    };
                    Ok(
                        Some(
                            if negated {
                                FilterView::Not(Box::new(quantified))
                            } else {
                                quantified
                            },
                        ),
                    )
                },
                Ok(None) => Err(Stop::Raised("Unsupported IN (subquery) operand: "@ + e.text@)),
                Err(s) => Err(s),
            },
            Err(s) => Err(s),
        },
    }
}

/// What an optional `WHERE` is planned to.
pub open spec fn planned_where(
    selection: Option<SqlExpr>,
    depth: nat,
    params: Seq<Val>,
    k: Known,
) -> Result<Option<FilterView>, Stop>
    decreases selection, 2int,
{
    match selection {
        Some(e) => match planned_filter(e, depth, params, k) {
            Ok(f) => Ok(Some(f)),
            Err(s) => Err(s),
        },
        None => Ok(None),
    }
}

/// What an optional `HAVING` is planned to: a condition on each group.
pub open spec fn planned_having(having: Option<SqlExpr>, params: Seq<Val>, k: Known) -> Result<
    Option<FilterView>,
    Stop,
> {
    match having {
        Some(e) => match lowered(e, params, k) {
            Ok(Some(x)) => Ok(Some(FilterView::Scalar(x))),
            Ok(None) => Err(Stop::Raised("Unsupported HAVING condition: "@ + e.text@)),
            Err(s) => Err(s),
        },
        None => Ok(None),
    }
}

// ---------------------------------------------------------------------------
// Select items
// ---------------------------------------------------------------------------

/// A call by name of a function that is not provided; the executor resolves or
/// rejects it.
pub open spec fn named_call(
    call: FunctionCall,
    name: Seq<char>,
    params: Seq<Val>,
    k: Known,
) -> Result<ItemView, Stop> {
    let args = match call.args {
        Arguments::List { args, .. } => named_args(args@, 0, Seq::empty(), params, k),
        _ => Ok(Seq::empty()),
    };
    match args {
        Ok(args) => Ok(
            ItemView::ScalarFunction { func_name: uppercased(call.name@), args, alias: Some(name) },
        ),
        Err(s) => Err(s),
    }
}

/// What an expression of a select list that holds no subquery of its own and
/// is no window call is planned to. Plain columns, constants, and plain
/// aggregates keep items of their own.
pub open spec fn scalar_item(
    e: SqlExpr,
    alias: Option<Seq<char>>,
    params: Seq<Val>,
    k: Known,
) -> Result<ItemView, Stop> {
    let name = match alias {
        Some(a) => a,
        None => default_name(e),
    };
    match lowered(e, params, k) {
        Ok(Some(x)) => Ok(
            match x {
                ExprView::Column(c) => match alias {
                    Some(a) => ItemView::AliasedColumn(c, a),
                    None => ItemView::Column(c),
                },
                ExprView::Literal(v) if e.node is Value => match alias {
                    Some(a) => ItemView::AliasedLiteral(v, a),
                    None => ItemView::Literal(v),
                },
                ExprView::Aggregate { op, arg, arg_expr: None, distinct: false, .. } if alias is None
                => ItemView::Aggregate(op, arg),
                _ => ItemView::Expr(x, Some(name)),
            },
        ),
        Ok(None) => match e.node {
            SqlNode::Function(call) => match unknown_function(e, k) {
                Ok(Some(_)) => named_call(call, name, params, k),
                Ok(None) => Err(
                    Stop::Raised("Unsupported expression in SELECT: "@ + e.text@),
                ),
                Err(s) => Err(s),
            },
            _ => Err(unsupported(e, "Unsupported expression in SELECT: "@, k)),
        },
        Err(s) => Err(s),
    }
}

/// What an expression of a select list with this alias is planned to.
pub open spec fn planned_item(
    e: SqlExpr,
    alias: Option<Seq<char>>,
    depth: nat,
    params: Seq<Val>,
    k: Known,
) -> Result<ItemView, Stop>
    decreases e, 0int,
{
    let name = match alias {
        Some(a) => a,
        None => default_name(e),
    };
    match e.node {
        SqlNode::Function(FunctionCall { name: called, args, over: Some(over), .. }) => window_item(
            uppercased(called@),
            args,
            over,
            name,
        ),
        SqlNode::Subquery(query) => match planned_query(*query, depth, params, k) {
            Ok(plan) => Ok(ItemView::Subquery(Box::new(plan), Some(name))),
            Err(s) => Err(s),
        },
        _ => scalar_item(e, alias, params, k),
    }
}

/// What the select list from position `i` on is planned to, after the items of
/// `before`. A `*` stands for all columns, whatever else is listed: no items
/// at all.
pub open spec fn planned_items(
    items: Vec<SelectItem>,
    i: nat,
    before: Seq<ItemView>,
    depth: nat,
    params: Seq<Val>,
    k: Known,
) -> Result<Seq<ItemView>, Stop>
    decreases items, items@.len() - i,
{
    if i >= items@.len() {
        Ok(before)
    } else {
        match items@[i as int].kind {
            ItemKind::Wildcard | ItemKind::QualifiedWildcard(_) => Ok(Seq::empty()),
            ItemKind::Unnamed(e) => match planned_item(e, None, depth, params, k) {
                Ok(x) => planned_items(items, i + 1, before.push(x), depth, params, k),
                Err(s) => Err(s),
            },
            ItemKind::Aliased(e, a) => match planned_item(e, Some(a@), depth, params, k) {
                Ok(x) => planned_items(items, i + 1, before.push(x), depth, params, k),
                Err(s) => Err(s),
            },
            ItemKind::MultiAliased => Err(Stop::Raised("Unsupported multi-alias select item"@)),
        }
    }
}

/// What an item of a select list without `FROM` is planned to: a value, or an
/// item that is computed when the statement runs.
pub open spec fn planned_constant(e: SqlExpr, depth: nat, params: Seq<Val>, k: Known) -> Result<
    (Val, Option<DeferredView>),
    Stop,
>
    decreases e, 0int,
{
    match e.node {
        SqlNode::Subquery(query) => match planned_query(*query, depth, params, k) {
            Ok(plan) => Ok((Val::Null, Some(DeferredView::Subquery(Box::new(plan))))),
            Err(s) => Err(s),
        },
        SqlNode::Exists { query, negated } => match planned_query(*query, depth, params, k) {
            Ok(plan) => Ok((Val::Null, Some(DeferredView::Exists { plan: Box::new(plan), negated }))),
            Err(s) => Err(s),
        },
        SqlNode::Identifier(_) | SqlNode::Compound(_) => deferred_scalar(e, params, k),
        _ => match literal(e, params, k) {
            Ok(Some(v)) => Ok((v, None)),
            Ok(None) => deferred_scalar(e, params, k),
            Err(s) => Err(s),
        },
    }
}

/// An expression without `FROM` that is computed when the statement runs; it
/// may not name a column.
pub open spec fn deferred_scalar(e: SqlExpr, params: Seq<Val>, k: Known) -> Result<
    (Val, Option<DeferredView>),
    Stop,
> {
    match lowered(e, params, k) {
        Ok(Some(x)) => match first_column(x) {
            Some(c) => Err(Stop::Raised("column \""@ + c + "\" does not exist"@)),
            None => Ok((Val::Null, Some(DeferredView::Scalar(x)))),
        },
        Ok(None) => Err(unsupported(e, "Unsupported expression in SELECT: "@, k)),
        Err(s) => Err(s),
    }
}

/// The type that a cast gives its column, even where the value is NULL.
pub open spec fn type_hint(e: SqlExpr) -> Option<Seq<char>> {
    match e.node {
        SqlNode::Cast { data_type, .. } => Some(data_type@),
        _ => None,
    }
}

/// What a select list without `FROM` is planned to, from position `i` on.
pub open spec fn planned_constants(
    items: Vec<SelectItem>,
    i: nat,
    values: Seq<(Seq<char>, Val, Option<Seq<char>>)>,
    deferred: Seq<Option<DeferredView>>,
    depth: nat,
    params: Seq<Val>,
    k: Known,
) -> Result<(Seq<(Seq<char>, Val, Option<Seq<char>>)>, Seq<Option<DeferredView>>), Stop>
    decreases items, items@.len() - i,
{
    if i >= items@.len() {
        Ok((values, deferred))
    } else {
        match items@[i as int].kind {
            ItemKind::Unnamed(e) => match planned_constant(e, depth, params, k) {
                Ok((v, d)) => planned_constants(
                    items,
                    i + 1,
                    values.push((default_name(e), v, type_hint(e))),
                    deferred.push(d),
                    depth,
                    params,
                    k,
                ),
                Err(s) => Err(s),
            },
            ItemKind::Aliased(e, a) => match planned_constant(e, depth, params, k) {
                Ok((v, d)) => planned_constants(
                    items,
                    i + 1,
                    values.push((a@, v, type_hint(e))),
                    deferred.push(d),
                    depth,
                    params,
                    k,
                ),
                Err(s) => Err(s),
            },
            _ => Err(Stop::Raised("Unsupported scalar select item"@)),
        }
    }
}

// ---------------------------------------------------------------------------
// FROM
// ---------------------------------------------------------------------------

/// The name that an alias gives.
pub open spec fn alias_name(alias: Option<TableAlias>) -> Option<Seq<char>> {
    match alias {
        Some(a) => Some(a.name@),
        None => None,
    }
}

/// The name that a function in `FROM` goes by.
pub open spec fn fn_alias(f: FnView) -> Seq<char> {
    match f.alias {
        Some(a) => a,
        None => f.name,
    }
}

/// Where messages about a relation differ.
pub enum Place {
    From,
    Join,
}

/// The message for a subquery without an alias.
pub open spec fn alias_needed(place: Place) -> Seq<char> {
    match place {
        Place::From => "Derived table requires an alias"@,
        Place::Join => "Derived join requires an alias"@,
    }
}

/// The start of the message for an unsupported relation.
pub open spec fn relation_unsupported(place: Place) -> Seq<char> {
    match place {
        Place::From => "Unsupported FROM relation: "@,
        Place::Join => "Unsupported join relation: "@,
    }
}

/// The name and alias of a relation that is no function call. A subquery
/// becomes one of the named plans, under its alias.
pub open spec fn planned_relation(
    f: TableFactor,
    place: Place,
    ctes: Ctes,
    depth: nat,
    params: Seq<Val>,
    k: Known,
) -> Result<(Ctes, Seq<char>, Option<Seq<char>>), Stop>
    decreases f, 0int,
{
    match f.kind {
        FactorKind::Table { name, alias, .. } => Ok((ctes, name@, alias_name(alias))),
        FactorKind::Derived { subquery, alias } => match alias {
            Some(a) => match planned_query(*subquery, depth, params, k) {
                Ok(plan) => Ok((ctes.push((a.name@, plan)), a.name@, None)),
                Err(s) => Err(s),
            },
            None => Err(Stop::Raised(alias_needed(place))),
        },
        _ => Err(Stop::Raised(relation_unsupported(place) + f.text@)),
    }
}

/// The name and alias of the first relation. A function call becomes one of
/// the named plans.
pub open spec fn planned_driver(
    f: TableFactor,
    ctes: Ctes,
    depth: nat,
    params: Seq<Val>,
    k: Known,
) -> Result<(Ctes, Seq<char>, Option<Seq<char>>), Stop>
    decreases f, 1int,
{
    match table_fn(f, params, k) {
        Ok(Some(call)) => Ok(
            (
                ctes.push((fn_alias(call), PlanView::TableFunction(call))),
                fn_alias(call),
                None,
            ),
        ),
        Ok(None) => planned_relation(f, Place::From, ctes, depth, params, k),
        Err(s) => Err(s),
    }
}

/// A join with a function, called for each row.
pub open spec fn fn_join(call: FnView, join_type: JoinType) -> JoinView {
    JoinView {
        table_name: fn_alias(call),
        table_alias: Some(fn_alias(call)),
        condition: None,
        join_type,
        table_fn: Some(call),
        using_columns: Seq::empty(),
        natural: false,
        lateral: None,
    }
}

/// A join with a relation.
pub open spec fn relation_join(
    name: Seq<char>,
    alias: Option<Seq<char>>,
    join_type: JoinType,
    condition: Option<FilterView>,
    using_columns: Seq<Seq<char>>,
    natural: bool,
) -> JoinView {
    JoinView {
        table_name: name,
        table_alias: alias,
        condition,
        join_type,
        table_fn: None,
        using_columns,
        natural,
        lateral: None,
    }
}

/// What a join constraint is planned to: the condition, the columns of
/// `USING`, and whether the join is natural.
pub open spec fn planned_constraint(
    c: JoinConstraint,
    depth: nat,
    params: Seq<Val>,
    k: Known,
) -> Result<(Option<FilterView>, Seq<Seq<char>>, bool), Stop>
    decreases c, 2int,
{
    match c {
        JoinConstraint::On(e) => match planned_filter(e, depth, params, k) {
            Ok(f) => Ok((Some(f), Seq::empty(), false)),
            Err(s) => Err(s),
        },
        JoinConstraint::Using(columns) => Ok((None, texts(columns@), false)),
        JoinConstraint::Natural => Ok((None, Seq::empty(), true)),
        JoinConstraint::Absent => Ok((None, Seq::empty(), false)),
    }
}

/// What a join with the relation `name` is planned to.
pub open spec fn planned_operator(
    name: Seq<char>,
    alias: Option<Seq<char>>,
    op: JoinOperator,
    depth: nat,
    params: Seq<Val>,
    k: Known,
) -> Result<JoinView, Stop>
    decreases op, 3int,
{
    match op {
        JoinOperator::Inner(c) => match planned_constraint(c, depth, params, k) {
            Ok((f, u, n)) => Ok(relation_join(name, alias, JoinType::Inner, f, u, n)),
            Err(s) => Err(s),
        },
        JoinOperator::Left(c) => match planned_constraint(c, depth, params, k) {
            Ok((f, u, n)) => Ok(relation_join(name, alias, JoinType::LeftOuter, f, u, n)),
            Err(s) => Err(s),
        },
        JoinOperator::Right(c) => match planned_constraint(c, depth, params, k) {
            Ok((f, u, n)) => Ok(relation_join(name, alias, JoinType::RightOuter, f, u, n)),
            Err(s) => Err(s),
        },
        JoinOperator::Full(c) => match planned_constraint(c, depth, params, k) {
            Ok((f, u, n)) => Ok(relation_join(name, alias, JoinType::FullOuter, f, u, n)),
            Err(s) => Err(s),
        },
        JoinOperator::Cross => Ok(
            relation_join(name, alias, JoinType::Cross, None, Seq::empty(), false),
        ),
        JoinOperator::Other(text) => Err(
            Stop::Raised("Unsupported join operator: "@ + text@),
        ),
    }
}

/// What a join is planned to, with the named plans it adds to.
#[verifier::opaque]
pub open spec fn planned_join(
    clause: JoinClause,
    ctes: Ctes,
    depth: nat,
    params: Seq<Val>,
    k: Known,
) -> Result<(Ctes, JoinView), Stop>
    decreases clause, 4int,
{
    match table_fn(clause.relation, params, k) {
        Ok(Some(call)) => Ok(
            (
                ctes,
                fn_join(
                    call,
                    if clause.operator is Left {
                        JoinType::LeftOuter
                    } else {
                        JoinType::Inner
                    },
                ),
            ),
        ),
        Ok(None) => match planned_relation(clause.relation, Place::Join, ctes, depth, params, k) {
            Ok((ctes, name, alias)) => match planned_operator(
                name,
                alias,
                clause.operator,
                depth,
                params,
                k,
            ) {
                Ok(join) => Ok((ctes, join)),
                Err(s) => Err(s),
            },
            Err(s) => Err(s),
        },
        Err(s) => Err(s),
    }
}

/// What the joins from position `i` on are planned to, after those of `joins`.
pub open spec fn planned_joins(
    clauses: Vec<JoinClause>,
    i: nat,
    ctes: Ctes,
    joins: Seq<JoinView>,
    depth: nat,
    params: Seq<Val>,
    k: Known,
) -> Result<(Ctes, Seq<JoinView>), Stop>
    decreases clauses, clauses@.len() - i,
{
    if i >= clauses@.len() {
        Ok((ctes, joins))
    } else {
        match planned_join(clauses@[i as int], ctes, depth, params, k) {
            Ok((ctes, join)) => planned_joins(
                clauses,
                i + 1,
                ctes,
                joins.push(join),
                depth,
                params,
                k,
            ),
            Err(s) => Err(s),
        }
    }
}

/// What a relation after a comma is planned to: a cross join. A subquery goes
/// by its alias there.
#[verifier::opaque]
pub open spec fn planned_comma(
    item: FromItem,
    ctes: Ctes,
    depth: nat,
    params: Seq<Val>,
    k: Known,
) -> Result<(Ctes, JoinView), Stop>
    decreases item, 4int,
{
    match table_fn(item.relation, params, k) {
        Ok(Some(call)) => Ok((ctes, fn_join(call, JoinType::Cross))),
        Ok(None) => match planned_relation(item.relation, Place::From, ctes, depth, params, k) {
            Ok((ctes, name, alias)) => Ok(
                (
                    ctes,
                    relation_join(
                        name,
                        if item.relation.kind is Derived {
                            Some(name)
                        } else {
                            alias
                        },
                        JoinType::Cross,
                        None,
                        Seq::empty(),
                        false,
                    ),
                ),
            ),
            Err(s) => Err(s),
        },
        Err(s) => Err(s),
    }
}

/// What the relations after commas, from position `i` on, are planned to,
/// after the joins of `joins`.
pub open spec fn planned_commas(
    from: Vec<FromItem>,
    i: nat,
    ctes: Ctes,
    joins: Seq<JoinView>,
    depth: nat,
    params: Seq<Val>,
    k: Known,
) -> Result<(Ctes, Seq<JoinView>), Stop>
    decreases from, from@.len() - i,
{
    if i >= from@.len() {
        Ok((ctes, joins))
    } else {
        match planned_comma(from@[i as int], ctes, depth, params, k) {
            Ok((ctes, join)) => planned_commas(
                from,
                i + 1,
                ctes,
                joins.push(join),
                depth,
                params,
                k,
            ),
            Err(s) => Err(s),
        }
    }
}

// ---------------------------------------------------------------------------
// Queries
// ---------------------------------------------------------------------------

/// The message for a query nested too deep.
pub open spec fn too_deep() -> Stop {
    Stop::Raised("query nesting too deep (limit 100)"@)
}

/// What the entries of `WITH` from position `i` on are planned to, after those
/// of `before`.
pub open spec fn planned_ctes(
    entries: Vec<Cte>,
    i: nat,
    before: Ctes,
    recursive: bool,
    depth: nat,
    params: Seq<Val>,
    k: Known,
) -> Result<Ctes, Stop>
    decreases entries, entries@.len() - i,
{
    if i >= entries@.len() {
        Ok(before)
    } else {
        let entry = entries@[i as int];
        match planned_query(*entry.query, depth, params, k) {
            Ok(plan) => planned_ctes(
                entries,
                i + 1,
                before.push(
                    (
                        entry.name@,
                        recursive_form(plan, recursive, entry.name@, texts(entry.columns@)),
                    ),
                ),
                recursive,
                depth,
                params,
                k,
            ),
            Err(s) => Err(s),
        }
    }
}

/// What a query inside `depth` other queries is planned to.
pub open spec fn planned_query(q: Query, depth: nat, params: Seq<Val>, k: Known) -> Result<
    PlanView,
    Stop,
>
    decreases q, 0int,
{
    if depth >= MAX_QUERY_PLAN_DEPTH {
        Err(too_deep())
    } else {
        let ctes = match q.with {
            Some(with) => planned_ctes(
                with.ctes,
                0,
                Seq::empty(),
                with.recursive,
                depth + 1,
                params,
                k,
            ),
            None => Ok(Seq::empty()),
        };
        match ctes {
            Ok(ctes) => planned_body(
                *q.body,
                ctes,
                q.order_by@,
                q.limit,
                q.offset,
                depth + 1,
                params,
                k,
            ),
            Err(s) => Err(s),
        }
    }
}

/// The set operation that a SQL set operator is.
pub open spec fn set_kind(op: SetOperator) -> SetOpKind {
    match op {
        SetOperator::Union => SetOpKind::Union,
        SetOperator::Intersect => SetOpKind::Intersect,
        SetOperator::Except | SetOperator::Minus => SetOpKind::Except,
    }
}

/// What the body of a query with these named plans, ordering, and limits is
/// planned to.
pub open spec fn planned_body(
    body: Body,
    ctes: Ctes,
    order_by: Seq<OrderItem>,
    limit: Option<SqlExpr>,
    offset: Option<SqlExpr>,
    depth: nat,
    params: Seq<Val>,
    k: Known,
) -> Result<PlanView, Stop>
    decreases body, 0int,
{
    match body {
        Body::SetOperation { op, all, left, right } => match planned_side(*left, depth, params, k) {
            Ok(l) => match planned_side(*right, depth, params, k) {
                Ok(r) => Ok(
                    PlanView::SetOp {
                        op: set_kind(op),
                        all,
                        left: Box::new(l),
                        right: Box::new(r),
                    },
                ),
                Err(s) => Err(s),
            },
            Err(s) => Err(s),
        },
        Body::Select(select) => planned_select(
            *select,
            ctes,
            order_by,
            limit,
            offset,
            depth,
            params,
            k,
        ),
        _ => Err(Stop::Raised("Unsupported query body"@)),
    }
}

/// What a side of a set operation is planned to: a query with that body alone.
pub open spec fn planned_side(body: Body, depth: nat, params: Seq<Val>, k: Known) -> Result<
    PlanView,
    Stop,
>
    decreases body, 1int,
{
    if depth >= MAX_QUERY_PLAN_DEPTH {
        Err(too_deep())
    } else {
        planned_body(body, Seq::empty(), Seq::empty(), None, None, depth + 1, params, k)
    }
}

/// What `SELECT` is planned to.
pub open spec fn planned_select(
    select: Select,
    ctes: Ctes,
    order_by: Seq<OrderItem>,
    limit: Option<SqlExpr>,
    offset: Option<SqlExpr>,
    depth: nat,
    params: Seq<Val>,
    k: Known,
) -> Result<PlanView, Stop>
    decreases select, 0int,
{
    if select.from@.len() == 0 {
        match planned_constants(
            select.projection,
            0,
            Seq::empty(),
            Seq::empty(),
            depth,
            params,
            k,
        ) {
            Ok((values, deferred)) => match planned_where(select.selection, depth, params, k) {
                Ok(filter) => Ok(PlanView::SelectLiteral { values, filter, deferred }),
                Err(s) => Err(s),
            },
            Err(s) => Err(s),
        }
    } else {
        match planned_from(select.from, ctes, depth, params, k) {
            Ok(source) => match planned_items(
                select.projection,
                0,
                Seq::empty(),
                depth,
                params,
                k,
            ) {
                Ok(items) => match planned_tail(select, items, order_by, limit, offset, params, k) {
                    Ok(tail) => match planned_where(select.selection, depth, params, k) {
                        Ok(filter) => Ok(
                            PlanView::Select(
                                SelectView {
                                    ctes: source.ctes,
                                    table_name: source.table_name,
                                    table_alias: source.table_alias,
                                    joins: source.joins,
                                    projection: items,
                                    filter,
                                    ..tail
                                },
                            ),
                        ),
                        Err(s) => Err(s),
                    },
                    Err(s) => Err(s),
                },
                Err(s) => Err(s),
            },
            Err(s) => Err(s),
        }
    }
}

/// The relations that a `SELECT` reads.
#[verifier::ext_equal]
pub struct SourceView {
    pub ctes: Ctes,
    pub table_name: Seq<char>,
    pub table_alias: Option<Seq<char>>,
    pub joins: Seq<JoinView>,
}

/// What `FROM` is planned to: the first relation, its joins, and the relations
/// after commas.
pub open spec fn planned_from(
    from: Vec<FromItem>,
    ctes: Ctes,
    depth: nat,
    params: Seq<Val>,
    k: Known,
) -> Result<SourceView, Stop>
    decreases from, from@.len() + 1,
{
    if from@.len() == 0 {
        Ok(
            SourceView {
                ctes,
                table_name: Seq::empty(),
                table_alias: None,
                joins: Seq::empty(),
            },
        )
    } else {
        match planned_driver(from@[0].relation, ctes, depth, params, k) {
            Ok((ctes, table_name, table_alias)) => match planned_joins(
                from@[0].joins,
                0,
                ctes,
                Seq::empty(),
                depth,
                params,
                k,
            ) {
                Ok((ctes, joins)) => match planned_commas(from, 1, ctes, joins, depth, params, k) {
                    Ok((ctes, joins)) => Ok(SourceView { ctes, table_name, table_alias, joins }),
                    Err(s) => Err(s),
                },
                Err(s) => Err(s),
            },
            Err(s) => Err(s),
        }
    }
}

/// A select plan with the grouping, ordering, limits, and `HAVING` of a
/// `SELECT`, and nothing else.
pub open spec fn planned_tail(
    select: Select,
    items: Seq<ItemView>,
    order_by: Seq<OrderItem>,
    limit: Option<SqlExpr>,
    offset: Option<SqlExpr>,
    params: Seq<Val>,
    k: Known,
) -> Result<SelectView, Stop> {
    match grouping(select.group_by@, items) {
        Ok(g) => match order_keys(order_by, items) {
            Ok(keys) => match count_of(limit, params, k) {
                Ok(limit) => match count_of(offset, params, k) {
                    Ok(offset) => match planned_having(select.having, params, k) {
                        Ok(having) => Ok(
                            SelectView {
                                ctes: Seq::empty(),
                                table_name: Seq::empty(),
                                table_alias: None,
                                joins: Seq::empty(),
                                projection: Seq::empty(),
                                group_by: g.columns,
                                filter: None,
                                having,
                                grouping_sets: g.sets,
                                order_by: keys,
                                limit,
                                offset,
                                distinct: select.distinct,
                                sort: Seq::empty(),
                                group_exprs: Seq::empty(),
                                distinct_on: Seq::empty(),
                            },
                        ),
                        Err(s) => Err(s),
                    },
                    Err(s) => Err(s),
                },
                Err(s) => Err(s),
            },
            Err(s) => Err(s),
        },
        Err(s) => Err(s),
    }
}

// ---------------------------------------------------------------------------
// Laws
// ---------------------------------------------------------------------------

/// How many queries are nested in a query, each as the first relation of the
/// one around it.
pub open spec fn nested_depth(q: Query) -> nat
    decreases q,
{
    match *q.body {
        Body::Select(select) => if select.from@.len() > 0 {
            match select.from@[0].relation.kind {
                FactorKind::Derived { subquery, .. } => 1 + nested_depth(*subquery),
                _ => 0,
            }
        } else {
            0
        },
        _ => 0,
    }
}

proof fn lemma_driver_fails(f: TableFactor, ctes: Ctes, depth: nat, params: Seq<Val>, k: Known)
    requires
        f.kind is Derived,
        planned_query(*f.kind->Derived_subquery, depth, params, k) is Err,
    ensures
        planned_driver(f, ctes, depth, params, k) is Err,
{
    assert(table_fn(f, params, k) == Ok::<Option<FnView>, Stop>(None));
    assert(planned_relation(f, Place::From, ctes, depth, params, k) is Err);
}

proof fn lemma_from_fails(
    from: Vec<FromItem>,
    ctes: Ctes,
    depth: nat,
    params: Seq<Val>,
    k: Known,
)
    requires
        from@.len() > 0,
        planned_driver(from@[0].relation, ctes, depth, params, k) is Err,
    ensures
        planned_from(from, ctes, depth, params, k) is Err,
{
}

proof fn lemma_select_fails(
    select: Select,
    ctes: Ctes,
    order_by: Seq<OrderItem>,
    limit: Option<SqlExpr>,
    offset: Option<SqlExpr>,
    depth: nat,
    params: Seq<Val>,
    k: Known,
)
    requires
        select.from@.len() > 0,
        planned_from(select.from, ctes, depth, params, k) is Err,
    ensures
        planned_select(select, ctes, order_by, limit, offset, depth, params, k) is Err,
{
}

proof fn lemma_query_fails(q: Query, depth: nat, params: Seq<Val>, k: Known)
    requires
        forall|ctes: Ctes|
            (#[trigger] planned_body(
                *q.body,
                ctes,
                q.order_by@,
                q.limit,
                q.offset,
                depth + 1,
                params,
                k,
            )) is Err,
    ensures
        planned_query(q, depth, params, k) is Err,
{
    let named = match q.with {
        Some(with) => planned_ctes(
            with.ctes,
            0,
            Seq::empty(),
            with.recursive,
            depth + 1,
            params,
            k,
        ),
        None => Ok(Seq::empty()),
    };
    if let Ok(ctes) = named {
        assert(planned_body(
            *q.body,
            ctes,
            q.order_by@,
            q.limit,
            q.offset,
            depth + 1,
            params,
            k,
        ) is Err);
    }
}

/// A query nested too deep is refused, whatever it holds.
pub proof fn law_deep_nesting_is_refused(q: Query, depth: nat, params: Seq<Val>, k: Known)
    requires
        depth + nested_depth(q) >= MAX_QUERY_PLAN_DEPTH,
    ensures
        planned_query(q, depth, params, k) is Err,
    decreases q,
{
    if depth < MAX_QUERY_PLAN_DEPTH {
        let d = depth + 1;
        let select = q.body->Select_0;
        let first = select.from@[0].relation;
        let inner = first.kind->Derived_subquery;
        assert(nested_depth(q) == 1 + nested_depth(*inner));
        assert(decreases_to!(select.from@ => select.from@[0]));
        law_deep_nesting_is_refused(*inner, d, params, k);
        assert forall|ctes: Ctes|
            (#[trigger] planned_body(
                *q.body,
                ctes,
                q.order_by@,
                q.limit,
                q.offset,
                d,
                params,
                k,
            )) is Err by {
            lemma_driver_fails(first, ctes, d, params, k);
            lemma_from_fails(select.from, ctes, d, params, k);
            lemma_select_fails(*select, ctes, q.order_by@, q.limit, q.offset, d, params, k);
        }
        lemma_query_fails(q, depth, params, k);
    }
}

/// A planned `WHERE` keeps its condition.
pub proof fn law_a_planned_condition_is_kept(e: SqlExpr, depth: nat, params: Seq<Val>, k: Known)
    ensures
        match planned_where(Some(e), depth, params, k) {
            Ok(f) => f is Some,
            Err(_) => true,
        },
{
}

/// A side of a set operation that cannot be planned fails the whole query.
pub proof fn law_set_operations_plan_both_sides(
    q: Query,
    op: SetOperator,
    all: bool,
    left: Box<Body>,
    right: Box<Body>,
    depth: nat,
    params: Seq<Val>,
    k: Known,
)
    requires
        *q.body == (Body::SetOperation { op, all, left, right }),
        planned_query(q, depth, params, k) is Ok,
    ensures
        planned_side(*left, depth + 1, params, k) is Ok,
        planned_side(*right, depth + 1, params, k) is Ok,
        planned_query(q, depth, params, k)->Ok_0 == (PlanView::SetOp {
            op: set_kind(op),
            all,
            left: Box::new(planned_side(*left, depth + 1, params, k)->Ok_0),
            right: Box::new(planned_side(*right, depth + 1, params, k)->Ok_0),
        }),
{
}

} // verus!
