//! Planning statements, and the output of `COPY`.
use vstd::prelude::*;
use std::sync::Arc;
use crate::facts::{Facts, Halt, Known, Stop};
use crate::grouping_sets::{columns_of, element_columns};
use crate::plan_changes::{
    plan_delete, plan_insert, plan_update, planned_delete, planned_insert, planned_update,
};
use crate::plan_conditions::plan_outcome;
use crate::plan_query::plan_query;
use crate::plan_tables::{plan_alter, plan_table, planned_alter, planned_table};
use crate::plan_types::{LogicalPlan, ProjectionItem, SelectPlan};
use crate::plan_views::{
    item_view, lemma_select_view, plan_view, select_view, ItemView, PlanView, SelectView,
};
use crate::planner::planned_query;
use crate::syntax::{
    Body, CopyOption, CopySpec, CreateTable, GrantSpec, ObjectType, Query, SetStatement, Statement,
};
use crate::text::{
    concat2, join, join_texts, lower, lower_text, opt_text, same_text, texts,
};
use crate::value::{vals, Val, Value};

verus! {

/// A failure with this message.
pub open spec fn failed<T>(message: Seq<char>) -> Result<T, Stop> {
    Err(Stop::Raised(message))
}

fn fail<T>(message: &str) -> (r: Result<T, Halt>)
    ensures
        r is Err,
        r->Err_0@ == Stop::Raised(message@),
{
    Err(Halt::Raised(message.to_owned()))
}

// ---------------------------------------------------------------------------
// Parts
// ---------------------------------------------------------------------------

/// What `DROP` is planned to: its first name.
pub open spec fn planned_drop(
    object_type: ObjectType,
    object_text: Seq<char>,
    if_exists: bool,
    names: Seq<String>,
    cascade: bool,
) -> Result<PlanView, Stop> {
    if names.len() == 0 {
        failed("DROP without a name"@)
    } else {
        let name = names[0]@;
        match object_type {
            ObjectType::Table => Ok(PlanView::DropTable { name, if_exists, materialized: false }),
            ObjectType::View => Ok(PlanView::DropView { name, if_exists }),
            ObjectType::Schema => Ok(
                PlanView::DropSchema { schema_name: name, if_exists, cascade },
            ),
            ObjectType::Index => Ok(PlanView::DropIndex { name, if_exists }),
            ObjectType::Other => failed("Unsupported DROP object type: "@ + object_text),
        }
    }
}

fn plan_drop(
    object_type: ObjectType,
    object_text: &String,
    if_exists: bool,
    names: &Vec<String>,
    cascade: bool,
) -> (r: Result<LogicalPlan, Halt>)
    ensures
        plan_outcome(r) == planned_drop(object_type, object_text@, if_exists, names@, cascade),
{
    if names.len() == 0 {
        return fail("DROP without a name");
    }
    let name = names[0].clone();
    match object_type {
        ObjectType::Table => Ok(LogicalPlan::DropTable { name, if_exists, materialized: false }),
        ObjectType::View => Ok(LogicalPlan::DropView { name, if_exists }),
        ObjectType::Schema => Ok(
            LogicalPlan::DropSchema { schema_name: name, if_exists, cascade },
        ),
        ObjectType::Index => Ok(LogicalPlan::DropIndex { name, if_exists }),
        ObjectType::Other => Err(
            Halt::Raised(concat2("Unsupported DROP object type: ", object_text.as_str())),
        ),
    }
}

/// The privilege that is granted or revoked: the first of the listed actions,
/// or all.
pub open spec fn privilege(actions: Option<Vec<String>>) -> Seq<char> {
    match actions {
        Some(actions) => if actions@.len() == 0 {
            "ALL"@
        } else {
            actions@[0]@
        },
        None => "ALL"@,
    }
}

fn privilege_of(actions: &Option<Vec<String>>) -> (r: String)
    ensures
        r@ == privilege(*actions),
{
    match actions {
        Some(actions) => {
            if actions.len() == 0 {
                "ALL".to_owned()
            } else {
                actions[0].clone()
            }
        },
        None => "ALL".to_owned(),
    }
}

/// The privilege, the object, and the role of a `GRANT` or `REVOKE`: the first
/// of each that it lists.
pub open spec fn granted(g: GrantSpec, revoke: bool) -> Result<
    (Seq<char>, Seq<char>, Seq<char>),
    Stop,
> {
    if g.grantees@.len() == 0 {
        failed(
            if revoke {
                "REVOKE without revokee"@
            } else {
                "GRANT without grantee"@
            },
        )
    } else {
        match g.tables {
            Some(tables) => if tables@.len() == 0 {
                failed(
                    if revoke {
                        "REVOKE without table name"@
                    } else {
                        "GRANT without table name"@
                    },
                )
            } else {
                Ok((privilege(g.actions), tables@[0]@, g.grantees@[0]@))
            },
            None => failed(
                if revoke {
                    "Unsupported REVOKE target"@
                } else {
                    "Unsupported GRANT target"@
                },
            ),
        }
    }
}

fn plan_grant(g: &GrantSpec, revoke: bool) -> (r: Result<(String, String, String), Halt>)
    ensures
        match r {
            Ok((p, o, n)) => Ok((p@, o@, n@)),
            Err(h) => Err(h@),
        } == granted(*g, revoke),
{
    if g.grantees.len() == 0 {
        return if revoke {
            fail("REVOKE without revokee")
        } else {
            fail("GRANT without grantee")
        };
    }
    match &g.tables {
        Some(tables) => {
            if tables.len() == 0 {
                if revoke {
                    fail("REVOKE without table name")
                } else {
                    fail("GRANT without table name")
                }
            } else {
                Ok((privilege_of(&g.actions), tables[0].clone(), g.grantees[0].clone()))
            }
        },
        None => {
            if revoke {
                fail("Unsupported REVOKE target")
            } else {
                fail("Unsupported GRANT target")
            }
        },
    }
}

/// What `SET` is planned to. A list value keeps its commas, and `SET TIME ZONE`
/// sets the session variable `timezone`.
pub open spec fn planned_set(s: SetStatement) -> Result<PlanView, Stop> {
    match s {
        SetStatement::Assignment { variable, values } => Ok(
            PlanView::SetVariable { variable: variable@, value: join(texts(values@), ", "@) },
        ),
        SetStatement::Transaction => Ok(
            PlanView::SetVariable {
                variable: "transaction_isolation"@,
                value: "read committed"@,
            },
        ),
        SetStatement::TimeZone { value } => Ok(
            PlanView::SetVariable { variable: "timezone"@, value: value@ },
        ),
        SetStatement::Other(text) => failed("Unsupported SET statement: "@ + text@),
    }
}

fn plan_set(s: &SetStatement) -> (r: Result<LogicalPlan, Halt>)
    ensures
        plan_outcome(r) == planned_set(*s),
{
    match s {
        SetStatement::Assignment { variable, values } => Ok(
            LogicalPlan::SetVariable {
                variable: variable.clone(),
                value: join_texts(values, ", "),
            },
        ),
        SetStatement::Transaction => Ok(
            LogicalPlan::SetVariable {
                variable: "transaction_isolation".to_owned(),
                value: "read committed".to_owned(),
            },
        ),
        SetStatement::TimeZone { value } => Ok(
            LogicalPlan::SetVariable { variable: "timezone".to_owned(), value: value.clone() },
        ),
        SetStatement::Other(text) => Err(
            Halt::Raised(concat2("Unsupported SET statement: ", text.as_str())),
        ),
    }
}

/// The table that `SELECT ... INTO` creates, where it names just one.
pub open spec fn into_table(q: Query) -> Option<Seq<char>> {
    match *q.body {
        Body::Select(select) => match select.into {
            Some(targets) => if targets@.len() == 1 {
                Some(targets@[0]@)
            } else {
                None
            },
            None => None,
        },
        _ => None,
    }
}

/// The table that `SELECT ... INTO` creates.
pub fn select_into(q: &Query) -> (r: Option<String>)
    ensures
        opt_text(r) == into_table(*q),
{
    match &*q.body {
        Body::Select(select) => match &select.into {
            Some(targets) => {
                if targets.len() == 1 {
                    Some(targets[0].clone())
                } else {
                    None
                }
            },
            None => None,
        },
        _ => None,
    }
}

/// A table created from a query's rows.
pub open spec fn table_from(
    name: Seq<char>,
    plan: Result<PlanView, Stop>,
    if_not_exists: bool,
) -> Result<PlanView, Stop> {
    match plan {
        Ok(p) => Ok(
            PlanView::CreateTableAs {
                name,
                query: Box::new(p),
                if_not_exists,
                no_data: false,
                materialized: false,
            },
        ),
        Err(s) => Err(s),
    }
}

fn make_table(name: String, plan: Result<LogicalPlan, Halt>, if_not_exists: bool) -> (r: Result<
    LogicalPlan,
    Halt,
>)
    ensures
        plan_outcome(r) == table_from(name@, plan_outcome(plan), if_not_exists),
{
    match plan {
        Ok(p) => Ok(
            LogicalPlan::CreateTableAs {
                name,
                query: Arc::new(p),
                if_not_exists,
                no_data: false,
                materialized: false,
            },
        ),
        Err(h) => Err(h),
    }
}

// ---------------------------------------------------------------------------
// Statements
// ---------------------------------------------------------------------------

/// What a query as a statement is planned to. An `INSERT` inside reads the
/// query's `WITH`; a `SELECT ... INTO` creates a table.
pub open spec fn planned_query_statement(q: Query, params: Seq<Val>, k: Known) -> Result<
    PlanView,
    Stop,
>
    decreases q, 0int,
{
    match *q.body {
        Body::Insert(stmt) => match (q.with, *stmt) {
            (Some(with), Statement::Insert(ins)) => match ins.source {
                Some(source) if source.with is None => planned_insert(ins, Some(with), params, k),
                _ => failed("WITH before this INSERT is not supported"@),
            },
            _ => planned(*stmt, params, k),
        },
        Body::Update | Body::Delete | Body::Merge => failed(
            "WITH before UPDATE, DELETE, or MERGE is not supported"@,
        ),
        _ => match into_table(q) {
            Some(name) => table_from(name, planned_query(q, 0, params, k), false),
            None => planned_query(q, 0, params, k),
        },
    }
}

/// What a statement is planned to.
pub open spec fn planned(stmt: Statement, params: Seq<Val>, k: Known) -> Result<PlanView, Stop>
    decreases stmt, 1int,
{
    match stmt {
        Statement::CreateSchema { name, if_not_exists } => match name {
            Some(name) => Ok(PlanView::CreateSchema { schema_name: name@, if_not_exists }),
            None => failed("Unsupported schema name format"@),
        },
        Statement::CreateTable(t) => match t.query {
            Some(query) => if t.columns@.len() != 0 {
                failed("CREATE TABLE AS with a column list is not supported"@)
            } else {
                table_from(t.name@, planned_query(*query, 0, params, k), t.if_not_exists)
            },
            None => planned_table(t, params, k),
        },
        Statement::CreateView { name, query } => match planned_query(*query, 0, params, k) {
            Ok(p) => Ok(
                PlanView::CreateView { name: name@, query: Box::new(p), or_replace: false },
            ),
            Err(s) => Err(s),
        },
        Statement::Drop { object_type, object_text, if_exists, names, cascade } => planned_drop(
            object_type,
            object_text@,
            if_exists,
            names@,
            cascade,
        ),
        Statement::CreateIndex { name, table_name, columns, unique, if_not_exists } => Ok(
            PlanView::CreateIndex {
                name: match name {
                    Some(n) => n@,
                    None => "unnamed_idx"@,
                },
                table_name: table_name@,
                columns: element_columns(columns@),
                unique,
                if_not_exists,
            },
        ),
        Statement::CreateRole { names } => if names@.len() == 0 {
            failed("CREATE ROLE without a name"@)
        } else {
            Ok(PlanView::CreateRole { name: names@[0]@ })
        },
        Statement::Grant(g) => match granted(g, false) {
            Ok((privilege, object_name, grantee)) => Ok(
                PlanView::Grant { privilege, object_name, grantee },
            ),
            Err(s) => Err(s),
        },
        Statement::Revoke(g) => match granted(g, true) {
            Ok((privilege, object_name, revokee)) => Ok(
                PlanView::Revoke { privilege, object_name, revokee },
            ),
            Err(s) => Err(s),
        },
        Statement::Insert(ins) => planned_insert(ins, None, params, k),
        Statement::Query(q) => planned_query_statement(*q, params, k),
        Statement::Update { from, table, assignments, selection, returning } => planned_update(
            from,
            table,
            assignments@,
            selection,
            returning,
            params,
            k,
        ),
        Statement::Delete { using, from, selection, returning } => planned_delete(
            using,
            from@,
            selection,
            returning,
            params,
            k,
        ),
        Statement::StartTransaction => Ok(PlanView::Begin),
        Statement::Commit => Ok(PlanView::Commit),
        Statement::Rollback { savepoint } => Ok(
            match savepoint {
                Some(name) => PlanView::RollbackToSavepoint { name: name@ },
                None => PlanView::Rollback,
            },
        ),
        Statement::Savepoint { name } => Ok(PlanView::Savepoint { name: name@ }),
        Statement::ReleaseSavepoint { name } => Ok(PlanView::ReleaseSavepoint { name: name@ }),
        Statement::ShowVariable { parts } => Ok(
            PlanView::ShowVariable { variable: join(texts(parts@), "."@) },
        ),
        Statement::Assign(s) => planned_set(s),
        Statement::Discard => Ok(PlanView::Noop { tag: "DISCARD ALL"@ }),
        Statement::Deallocate => Ok(PlanView::Noop { tag: "DEALLOCATE"@ }),
        Statement::AlterTable { name, operations } => planned_alter(
            name@,
            operations@,
            params,
            k,
        ),
        Statement::Copy(c) => failed("Unsupported SQL statement: "@ + c.text@),
        Statement::Other(text) => failed("Unsupported SQL statement: "@ + text@),
    }
}

fn plan_query_statement(q: &Query, params: &Vec<Value>, facts: &Facts) -> (r: Result<
    LogicalPlan,
    Halt,
>)
    ensures
        plan_outcome(r) == planned_query_statement(*q, vals(params@), facts@),
    decreases q, 0int,
{
    match &*q.body {
        Body::Insert(stmt) => {
            if q.with.is_some() {
                if let Statement::Insert(ins) = &**stmt {
                    return match &ins.source {
                        Some(source) => {
                            if source.with.is_none() {
                                plan_insert(ins, &q.with, params, facts)
                            } else {
                                fail("WITH before this INSERT is not supported")
                            }
                        },
                        None => fail("WITH before this INSERT is not supported"),
                    };
                }
            }
            plan_statement(stmt, params, facts)
        },
        Body::Update | Body::Delete | Body::Merge => fail(
            "WITH before UPDATE, DELETE, or MERGE is not supported",
        ),
        _ => match select_into(q) {
            Some(name) => make_table(name, plan_query(q, 0, params, facts), false),
            None => plan_query(q, 0, params, facts),
        },
    }
}

fn plan_create_table(t: &CreateTable, params: &Vec<Value>, facts: &Facts) -> (r: Result<
    LogicalPlan,
    Halt,
>)
    ensures
        plan_outcome(r) == (match t.query {
            Some(query) => if t.columns@.len() != 0 {
                failed("CREATE TABLE AS with a column list is not supported"@)
            } else {
                table_from(
                    t.name@,
                    planned_query(*query, 0, vals(params@), facts@),
                    t.if_not_exists,
                )
            },
            None => planned_table(*t, vals(params@), facts@),
        }),
{
    match &t.query {
        Some(query) => {
            if t.columns.len() != 0 {
                fail("CREATE TABLE AS with a column list is not supported")
            } else {
                make_table(t.name.clone(), plan_query(query, 0, params, facts), t.if_not_exists)
            }
        },
        None => plan_table(t, params, facts),
    }
}

/// Plans a statement; `params` are the values of its placeholders.
#[verifier::rlimit(60)]
pub fn plan_statement(stmt: &Statement, params: &Vec<Value>, facts: &Facts) -> (r: Result<
    LogicalPlan,
    Halt,
>)
    ensures
        plan_outcome(r) == planned(*stmt, vals(params@), facts@),
    decreases stmt, 1int,
{
    match stmt {
        Statement::CreateSchema { name, if_not_exists } => match name {
            Some(name) => Ok(
                LogicalPlan::CreateSchema {
                    schema_name: name.clone(),
                    if_not_exists: *if_not_exists,
                },
            ),
            None => fail("Unsupported schema name format"),
        },
        Statement::CreateTable(t) => plan_create_table(t, params, facts),
        Statement::CreateView { name, query } => match plan_query(query, 0, params, facts) {
            Ok(p) => Ok(
                LogicalPlan::CreateView {
                    name: name.clone(),
                    query: Arc::new(p),
                    or_replace: false,
                },
            ),
            Err(h) => Err(h),
        },
        Statement::Drop { object_type, object_text, if_exists, names, cascade } => plan_drop(
            *object_type,
            object_text,
            *if_exists,
            names,
            *cascade,
        ),
        Statement::CreateIndex { name, table_name, columns, unique, if_not_exists } => {
            let index_name = match name {
                Some(n) => n.clone(),
                None => "unnamed_idx".to_owned(),
            };
            Ok(
                LogicalPlan::CreateIndex {
                    name: index_name,
                    table_name: table_name.clone(),
                    columns: columns_of(columns),
                    unique: *unique,
                    if_not_exists: *if_not_exists,
                },
            )
        },
        Statement::CreateRole { names } => {
            if names.len() == 0 {
                fail("CREATE ROLE without a name")
            } else {
                Ok(LogicalPlan::CreateRole { name: names[0].clone() })
            }
        },
        Statement::Grant(g) => match plan_grant(g, false) {
            Ok((privilege, object_name, grantee)) => Ok(
                LogicalPlan::Grant { privilege, object_name, grantee },
            ),
            Err(h) => Err(h),
        },
        Statement::Revoke(g) => match plan_grant(g, true) {
            Ok((privilege, object_name, revokee)) => Ok(
                LogicalPlan::Revoke { privilege, object_name, revokee },
            ),
            Err(h) => Err(h),
        },
        Statement::Insert(ins) => plan_insert(ins, &None, params, facts),
        Statement::Query(q) => plan_query_statement(q, params, facts),
        Statement::Update { from, table, assignments, selection, returning } => plan_update(
            *from,
            table,
            assignments,
            selection,
            returning,
            params,
            facts,
        ),
        Statement::Delete { using, from, selection, returning } => plan_delete(
            *using,
            from,
            selection,
            returning,
            params,
            facts,
        ),
        Statement::StartTransaction => Ok(LogicalPlan::Begin),
        Statement::Commit => Ok(LogicalPlan::Commit),
        Statement::Rollback { savepoint } => match savepoint {
            Some(name) => Ok(LogicalPlan::RollbackToSavepoint { name: name.clone() }),
            None => Ok(LogicalPlan::Rollback),
        },
        Statement::Savepoint { name } => Ok(LogicalPlan::Savepoint { name: name.clone() }),
        Statement::ReleaseSavepoint { name } => Ok(
            LogicalPlan::ReleaseSavepoint { name: name.clone() },
        ),
        Statement::ShowVariable { parts } => Ok(
            LogicalPlan::ShowVariable { variable: join_texts(parts, ".") },
        ),
        Statement::Assign(s) => plan_set(s),
        Statement::Discard => Ok(LogicalPlan::Noop { tag: "DISCARD ALL".to_owned() }),
        Statement::Deallocate => Ok(LogicalPlan::Noop { tag: "DEALLOCATE".to_owned() }),
        Statement::AlterTable { name, operations } => plan_alter(name, operations, params, facts),
        Statement::Copy(c) => Err(
            Halt::Raised(concat2("Unsupported SQL statement: ", c.text.as_str())),
        ),
        Statement::Other(text) => Err(
            Halt::Raised(concat2("Unsupported SQL statement: ", text.as_str())),
        ),
    }
}

// ---------------------------------------------------------------------------
// COPY
// ---------------------------------------------------------------------------

/// How `COPY` writes rows.
#[derive(Clone, Copy, Debug, PartialEq, Eq, Structural)]
pub enum CopyOutputFormat {
    Text,
    Csv,
    Binary,
}

/// The format of this name, in any case.
pub open spec fn copy_format(name: Seq<char>) -> Option<CopyOutputFormat> {
    if lower(name) == "text"@ {
        Some(CopyOutputFormat::Text)
    } else if lower(name) == "csv"@ {
        Some(CopyOutputFormat::Csv)
    } else if lower(name) == "binary"@ {
        Some(CopyOutputFormat::Binary)
    } else {
        None
    }
}

fn format_of(name: &str) -> (r: Option<CopyOutputFormat>)
    ensures
        r == copy_format(name@),
{
    let low = lower_text(name);
    if same_text(low.as_str(), "text") {
        Some(CopyOutputFormat::Text)
    } else if same_text(low.as_str(), "csv") {
        Some(CopyOutputFormat::Csv)
    } else if same_text(low.as_str(), "binary") {
        Some(CopyOutputFormat::Binary)
    } else {
        None
    }
}

/// The format and the header flag that the options from position `i` on leave;
/// a later option replaces an earlier one.
pub open spec fn copy_options(
    options: Seq<CopyOption>,
    i: nat,
    format: CopyOutputFormat,
    header: bool,
) -> Result<(CopyOutputFormat, bool), Stop>
    decreases options.len() - i,
{
    if i >= options.len() {
        Ok((format, header))
    } else {
        match options[i as int] {
            CopyOption::Format(name, text) => match copy_format(name@) {
                Some(f) => copy_options(options, i + 1, f, header),
                None => failed("unsupported COPY format: "@ + text@),
            },
            CopyOption::Header(h) => copy_options(options, i + 1, format, h),
            CopyOption::Other(text) => failed("unsupported COPY option: "@ + text@),
        }
    }
}

fn read_copy_options(options: &Vec<CopyOption>) -> (r: Result<(CopyOutputFormat, bool), Halt>)
    ensures
        match r {
            Ok(x) => Ok(x),
            Err(h) => Err(h@),
        } == copy_options(options@, 0, CopyOutputFormat::Text, false),
{
    let mut format = CopyOutputFormat::Text;
    let mut header: bool = false;
    let mut i: usize = 0;
    while i < options.len()
        invariant
            i <= options@.len(),
            copy_options(options@, 0, CopyOutputFormat::Text, false) == copy_options(
                options@,
                i as nat,
                format,
                header,
            ),
        decreases options@.len() - i,
    {
        match &options[i] {
            CopyOption::Format(name, text) => match format_of(name.as_str()) {
                Some(f) => {
                    format = f;
                },
                None => {
                    return Err(
                        Halt::Raised(concat2("unsupported COPY format: ", text.as_str())),
                    );
                },
            },
            CopyOption::Header(h) => {
                header = *h;
            },
            CopyOption::Other(text) => {
                return Err(Halt::Raised(concat2("unsupported COPY option: ", text.as_str())));
            },
        }
        i = i + 1;
    }
    Ok((format, header))
}

/// A plain read of a table's columns.
pub open spec fn table_read(name: Seq<char>, columns: Seq<String>) -> PlanView {
    PlanView::Select(
        SelectView {
            ctes: Seq::empty(),
            table_name: name,
            table_alias: None,
            joins: Seq::empty(),
            projection: Seq::new(columns.len(), |i: int| ItemView::Column(columns[i]@)),
            group_by: Seq::empty(),
            filter: None,
            having: None,
            grouping_sets: None,
            order_by: Seq::empty(),
            limit: None,
            offset: None,
            distinct: false,
            sort: Seq::empty(),
            group_exprs: Seq::empty(),
            distinct_on: Seq::empty(),
        },
    )
}

fn read_table(name: &String, columns: &Vec<String>) -> (r: LogicalPlan)
    ensures
        plan_view(r) == table_read(name@, columns@),
{
    let mut projection: Vec<ProjectionItem> = Vec::new();
    let mut i: usize = 0;
    while i < columns.len()
        invariant
            i <= columns@.len(),
            projection@.len() == i,
            forall|j: int|
                0 <= j < i ==> item_view(#[trigger] projection@[j]) == ItemView::Column(
                    columns@[j]@,
                ),
        decreases columns@.len() - i,
    {
        projection.push(ProjectionItem::Column(columns[i].clone()));
        i = i + 1;
    }
    let plan = SelectPlan {
        ctes: Vec::new(),
        table_name: name.clone(),
        table_alias: None,
        joins: Vec::new(),
        projection,
        group_by: Vec::new(),
        filter: None,
        having: None,
        grouping_sets: None,
        order_by: Vec::new(),
        limit: None,
        offset: None,
        distinct: false,
        sort: Vec::new(),
        group_exprs: Vec::new(),
        distinct_on: Vec::new(),
    };
    proof {
        lemma_select_view(plan);
        let v = select_view(plan);
        let w = table_read(name@, columns@)->Select_0;
        assert(v.ctes =~= w.ctes);
        assert(v.joins =~= w.joins);
        assert(v.projection =~= w.projection);
        assert(v.group_by =~= w.group_by);
        assert(v.order_by =~= w.order_by);
        assert(v.sort =~= w.sort);
        assert(v.group_exprs =~= w.group_exprs);
        assert(v.distinct_on =~= w.distinct_on);
    }
    LogicalPlan::Select(plan)
}

/// The plan, the format, and the header flag of `COPY`.
pub open spec fn copied(c: CopySpec, k: Known) -> Result<(PlanView, CopyOutputFormat, bool), Stop> {
    if !c.to || !c.stdout {
        failed("only COPY TO STDOUT is supported"@)
    } else if c.legacy {
        failed("legacy COPY options are not supported; use WITH (FORMAT ...)"@)
    } else {
        match copy_options(c.options@, 0, CopyOutputFormat::Text, false) {
            Err(s) => Err(s),
            Ok((format, header)) => if header && !(format is Csv) {
                failed("COPY HEADER requires CSV format"@)
            } else {
                match c.source {
                    Ok(query) => match planned_query_statement(*query, Seq::empty(), k) {
                        Ok(p) => Ok((p, format, header)),
                        Err(s) => Err(s),
                    },
                    Err((name, columns)) => Ok((table_read(name@, columns@), format, header)),
                }
            },
        }
    }
}

/// What the statements of a `COPY` are planned to: there must be just one, and
/// it must write to the standard output.
pub open spec fn copied_out(statements: Seq<Statement>, k: Known) -> Result<
    (PlanView, CopyOutputFormat, bool),
    Stop,
> {
    if statements.len() != 1 {
        failed("COPY requires a single statement"@)
    } else {
        match statements[0] {
            Statement::Copy(c) => copied(c, k),
            _ => failed("only COPY TO STDOUT is supported"@),
        }
    }
}

/// What a planned `COPY` stands for.
pub open spec fn copy_outcome(r: Result<(LogicalPlan, CopyOutputFormat, bool), Halt>) -> Result<
    (PlanView, CopyOutputFormat, bool),
    Stop,
> {
    match r {
        Ok((p, f, h)) => Ok((plan_view(p), f, h)),
        Err(h) => Err(h@),
    }
}

/// Plans a single `COPY TO STDOUT` statement: its read plan, format, and CSV
/// header flag. Files and programs are never opened by this path.
pub fn plan_copy_out(statements: &Vec<Statement>, facts: &Facts) -> (r: Result<
    (LogicalPlan, CopyOutputFormat, bool),
    Halt,
>)
    ensures
        copy_outcome(r) == copied_out(statements@, facts@),
{
    if statements.len() != 1 {
        return fail("COPY requires a single statement");
    }
    let c = match &statements[0] {
        Statement::Copy(c) => c,
        _ => return fail("only COPY TO STDOUT is supported"),
    };
    if !c.to || !c.stdout {
        return fail("only COPY TO STDOUT is supported");
    }
    if c.legacy {
        return fail("legacy COPY options are not supported; use WITH (FORMAT ...)");
    }
    let (format, header) = match read_copy_options(&c.options) {
        Ok(x) => x,
        Err(h) => return Err(h),
    };
    if header && format != CopyOutputFormat::Csv {
        return fail("COPY HEADER requires CSV format");
    }
    match &c.source {
        Ok(query) => {
            let params: Vec<Value> = Vec::new();
            assert(vals(params@) =~= Seq::<Val>::empty());
            match plan_query_statement(query, &params, facts) {
                Ok(p) => Ok((p, format, header)),
                Err(h) => Err(h),
            }
        },
        Err((name, columns)) => Ok((read_table(name, columns), format, header)),
    }
}

// ---------------------------------------------------------------------------
// Laws
// ---------------------------------------------------------------------------

/// A copy is planned only to the standard output: no file or program is ever
/// opened for it, and no older option is passed over.
pub proof fn law_only_the_standard_output_is_copied_to(c: CopySpec, k: Known)
    requires
        copied(c, k) is Ok,
    ensures
        c.to && c.stdout && !c.legacy,
{
}

/// The header flag is only ever set for the CSV format.
pub proof fn law_only_csv_has_a_header(statements: Seq<Statement>, k: Known)
    ensures
        match copied_out(statements, k) {
            Ok((_, format, header)) => header ==> format is Csv,
            Err(_) => true,
        },
{
}

/// Copying a table out reads that table and changes nothing.
pub proof fn law_copying_a_table_is_a_read(c: CopySpec, k: Known)
    requires
        c.source is Err,
    ensures
        match copied(c, k) {
            Ok((plan, _, _)) => plan is Select && plan->Select_0.table_name == c.source->Err_0.0@,
            Err(_) => true,
        },
{
}

} // verus!
