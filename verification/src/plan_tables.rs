//! Planning `CREATE TABLE` and `ALTER TABLE`.
use vstd::prelude::*;
use crate::catalog::{ReferentialAction, TableConstraint};
use crate::expr::ExprView;
use crate::facts::{Facts, Halt, Known, Stop};
use crate::grouping_sets::{columns_of, element_columns};
use crate::lower::{lower_scalar, lowered};
use crate::plan_conditions::{parse_filter_expr, plan_outcome};
use crate::plan_types::{AlterTableOp, ColumnDef, LogicalPlan, ScalarExpr};
use crate::plan_views::{
    alter_view, column_view, columns_view, constraint_view, constraints_view, scalar_if,
    text_lists, AlterView, ColumnView, ConstraintView, PlanView,
};
use crate::planner::planned_filter;
use crate::syntax::{
    AlterOperation, ColumnOption, ColumnSpec, ConstraintSpec, CreateTable, ForeignKeySpec, SqlExpr,
};
use crate::text::{clone_texts, concat2, concat3, opt_text, push_text, same_text, texts};
use crate::value::{vals, Val, Value};

verus! {

// ---------------------------------------------------------------------------
// Parts of a definition
// ---------------------------------------------------------------------------

/// The default that a column's definition gives.
pub open spec fn column_default(e: SqlExpr, column: Seq<char>, params: Seq<Val>, k: Known) -> Result<
    ExprView,
    Stop,
> {
    match lowered(e, params, k) {
        Ok(Some(x)) => Ok(x),
        Ok(None) => Err(
            Stop::Raised("Unsupported DEFAULT expression for column "@ + column),
        ),
        Err(s) => Err(s),
    }
}

fn plan_default(e: &SqlExpr, column: &String, params: &Vec<Value>, facts: &Facts) -> (r: Result<
    ScalarExpr,
    Halt,
>)
    ensures
        match r {
            Ok(x) => Ok(x@),
            Err(h) => Err(h@),
        } == column_default(*e, column@, vals(params@), facts@),
{
    match lower_scalar(e, params, facts) {
        Ok(Some(x)) => Ok(x),
        Ok(None) => Err(
            Halt::Raised(
                concat2("Unsupported DEFAULT expression for column ", column.as_str()),
            ),
        ),
        Err(h) => Err(h),
    }
}

/// A `CHECK` constraint is supported where its condition can be planned, so
/// that none is stored and then left unenforced.
pub open spec fn check_supported(e: SqlExpr, params: Seq<Val>, k: Known) -> Result<(), Stop> {
    match planned_filter(e, 0, params, k) {
        Ok(_) => Ok(()),
        Err(Stop::Raised(m)) => Err(
            Stop::Raised("Unsupported CHECK constraint `"@ + e.text@ + "`: "@ + m),
        ),
        Err(s) => Err(s),
    }
}

/// Rejects a CHECK constraint the executor cannot evaluate, so it is never
/// stored and then silently left unenforced.
pub fn check_constraint_is_supported(e: &SqlExpr, params: &Vec<Value>, facts: &Facts) -> (r: Result<
    (),
    Halt,
>)
    ensures
        match r {
            Ok(_) => Ok(()),
            Err(h) => Err(h@),
        } == check_supported(*e, vals(params@), facts@),
{
    match parse_filter_expr(e, 0, params, facts) {
        Ok(_) => Ok(()),
        Err(Halt::Raised(m)) => {
            let mut out = concat3("Unsupported CHECK constraint `", e.text.as_str(), "`: ");
            push_text(&mut out, m.as_str());
            Err(Halt::Raised(out))
        },
        Err(h) => Err(h),
    }
}

/// A foreign key as defined; without an action, changing a referenced key is
/// refused.
pub open spec fn foreign_key(
    name: Option<Seq<char>>,
    columns: Seq<Seq<char>>,
    fk: ForeignKeySpec,
) -> ConstraintView {
    ConstraintView::ForeignKey {
        name,
        columns,
        foreign_table: fk.foreign_table@,
        referred_columns: texts(fk.referred_columns@),
        on_delete: ReferentialAction::NoAction,
        on_update: ReferentialAction::NoAction,
    }
}

fn build_foreign_key(name: &Option<String>, columns: Vec<String>, fk: &ForeignKeySpec) -> (r:
    TableConstraint)
    ensures
        constraint_view(r) == foreign_key(opt_text(*name), texts(columns@), *fk),
{
    TableConstraint::ForeignKey {
        name: name.clone(),
        columns,
        foreign_table: fk.foreign_table.clone(),
        referred_columns: clone_texts(&fk.referred_columns),
        on_delete: ReferentialAction::NoAction,
        on_update: ReferentialAction::NoAction,
    }
}

fn add_constraint(list: Vec<TableConstraint>, c: TableConstraint) -> (r: Vec<TableConstraint>)
    ensures
        constraints_view(r@) == constraints_view(list@).push(constraint_view(c)),
{
    let ghost before = list@;
    let mut out = list;
    out.push(c);
    assert(constraints_view(out@) =~= constraints_view(before).push(constraint_view(c)));
    out
}

// ---------------------------------------------------------------------------
// Columns
// ---------------------------------------------------------------------------

/// A column and the constraints so far.
#[verifier::ext_equal]
pub struct DefinitionView {
    pub column: ColumnView,
    pub constraints: Seq<ConstraintView>,
}

/// What one option of a column adds to its definition.
pub open spec fn with_option(
    d: DefinitionView,
    name: Option<Seq<char>>,
    option: ColumnOption,
    params: Seq<Val>,
    k: Known,
) -> Result<DefinitionView, Stop> {
    match option {
        ColumnOption::NotNull => Ok(
            DefinitionView { column: ColumnView { nullable: false, ..d.column }, ..d },
        ),
        ColumnOption::Default(e) => match column_default(e, d.column.name, params, k) {
            Ok(x) => Ok(
                DefinitionView { column: ColumnView { default: Some(x), ..d.column }, ..d },
            ),
            Err(s) => Err(s),
        },
        ColumnOption::PrimaryKey => Ok(
            DefinitionView {
                column: ColumnView { unique: true, nullable: false, primary: true, ..d.column },
                ..d
            },
        ),
        ColumnOption::Unique => Ok(
            DefinitionView { column: ColumnView { unique: true, ..d.column }, ..d },
        ),
        ColumnOption::Check(e) => match check_supported(e, params, k) {
            Ok(_) => Ok(
                DefinitionView {
                    constraints: d.constraints.push(ConstraintView::Check { name, expr: e.text@ }),
                    ..d
                },
            ),
            Err(s) => Err(s),
        },
        ColumnOption::ForeignKey(fk) => Ok(
            DefinitionView {
                constraints: d.constraints.push(foreign_key(name, seq![d.column.name], fk)),
                ..d
            },
        ),
        ColumnOption::Other => Ok(d),
    }
}

/// What the options from position `i` on add to a column's definition.
pub open spec fn with_options(
    options: Seq<(Option<String>, ColumnOption)>,
    i: nat,
    d: DefinitionView,
    params: Seq<Val>,
    k: Known,
) -> Result<DefinitionView, Stop>
    decreases options.len() - i,
{
    if i >= options.len() {
        Ok(d)
    } else {
        match with_option(d, opt_text(options[i as int].0), options[i as int].1, params, k) {
            Ok(next) => with_options(options, i + 1, next, params, k),
            Err(s) => Err(s),
        }
    }
}

/// A column with no options.
pub open spec fn plain_definition(c: ColumnSpec) -> ColumnView {
    ColumnView {
        name: c.name@,
        data_type: c.data_type@,
        nullable: true,
        unique: false,
        primary: false,
        default: None,
    }
}

/// What a definition in memory stands for.
pub open spec fn definition(column: ColumnDef, constraints: Seq<TableConstraint>) -> DefinitionView {
    DefinitionView { column: column_view(column), constraints: constraints_view(constraints) }
}

/// What a definition result stands for.
pub open spec fn definition_outcome(r: Result<(ColumnDef, Vec<TableConstraint>), Halt>) -> Result<
    DefinitionView,
    Stop,
> {
    match r {
        Ok((c, t)) => Ok(definition(c, t@)),
        Err(h) => Err(h@),
    }
}

fn add_option(
    column: ColumnDef,
    constraints: Vec<TableConstraint>,
    name: &Option<String>,
    option: &ColumnOption,
    params: &Vec<Value>,
    facts: &Facts,
) -> (r: Result<(ColumnDef, Vec<TableConstraint>), Halt>)
    ensures
        definition_outcome(r) == with_option(
            definition(column, constraints@),
            opt_text(*name),
            *option,
            vals(params@),
            facts@,
        ),
{
    match option {
        ColumnOption::NotNull => Ok((ColumnDef { nullable: false, ..column }, constraints)),
        ColumnOption::Default(e) => match plan_default(e, &column.name, params, facts) {
            Ok(x) => Ok((ColumnDef { default: Some(x), ..column }, constraints)),
            Err(h) => Err(h),
        },
        ColumnOption::PrimaryKey => Ok(
            (
                ColumnDef { unique: true, nullable: false, primary: true, ..column },
                constraints,
            ),
        ),
        ColumnOption::Unique => Ok((ColumnDef { unique: true, ..column }, constraints)),
        ColumnOption::Check(e) => match check_constraint_is_supported(e, params, facts) {
            Ok(_) => {
                let check = TableConstraint::Check { name: name.clone(), expr: e.text.clone() };
                let more = add_constraint(constraints, check);
                Ok((column, more))
            },
            Err(h) => Err(h),
        },
        ColumnOption::ForeignKey(fk) => {
            let mut columns: Vec<String> = Vec::new();
            columns.push(column.name.clone());
            assert(texts(columns@) =~= seq![column.name@]);
            let key = build_foreign_key(name, columns, fk);
            let more = add_constraint(constraints, key);
            Ok((column, more))
        },
        ColumnOption::Other => Ok((column, constraints)),
    }
}

fn plan_column(
    c: &ColumnSpec,
    constraints: Vec<TableConstraint>,
    params: &Vec<Value>,
    facts: &Facts,
) -> (r: Result<(ColumnDef, Vec<TableConstraint>), Halt>)
    ensures
        definition_outcome(r) == with_options(
            c.options@,
            0,
            DefinitionView {
                column: plain_definition(*c),
                constraints: constraints_view(constraints@),
            },
            vals(params@),
            facts@,
        ),
{
    let ghost start = DefinitionView {
        column: plain_definition(*c),
        constraints: constraints_view(constraints@),
    };
    let mut column = ColumnDef {
        name: c.name.clone(),
        data_type: c.data_type.clone(),
        nullable: true,
        unique: false,
        primary: false,
        default: None,
    };
    let mut list = constraints;
    let mut i: usize = 0;
    assert(definition(column, list@) == start);
    while i < c.options.len()
        invariant
            i <= c.options@.len(),
            start == (DefinitionView {
                column: plain_definition(*c),
                constraints: constraints_view(constraints@),
            }),
            with_options(c.options@, 0, start, vals(params@), facts@) == with_options(
                c.options@,
                i as nat,
                definition(column, list@),
                vals(params@),
                facts@,
            ),
        decreases c.options@.len() - i,
    {
        match add_option(column, list, &c.options[i].0, &c.options[i].1, params, facts) {
            Ok((next, more)) => {
                column = next;
                list = more;
            },
            Err(h) => {
                return Err(h);
            },
        }
        i = i + 1;
    }
    Ok((column, list))
}

/// The columns from position `i` on as defined, after those of `columns`, with
/// the constraints that their options add.
pub open spec fn defined_columns(
    specs: Seq<ColumnSpec>,
    i: nat,
    columns: Seq<ColumnView>,
    constraints: Seq<ConstraintView>,
    params: Seq<Val>,
    k: Known,
) -> Result<(Seq<ColumnView>, Seq<ConstraintView>), Stop>
    decreases specs.len() - i,
{
    if i >= specs.len() {
        Ok((columns, constraints))
    } else {
        match with_options(
            specs[i as int].options@,
            0,
            DefinitionView { column: plain_definition(specs[i as int]), constraints },
            params,
            k,
        ) {
            Ok(d) => defined_columns(
                specs,
                i + 1,
                columns.push(d.column),
                d.constraints,
                params,
                k,
            ),
            Err(s) => Err(s),
        }
    }
}

fn plan_columns(specs: &Vec<ColumnSpec>, params: &Vec<Value>, facts: &Facts) -> (r: Result<
    (Vec<ColumnDef>, Vec<TableConstraint>),
    Halt,
>)
    ensures
        match r {
            Ok((c, t)) => Ok((columns_view(c@), constraints_view(t@))),
            Err(h) => Err(h@),
        } == defined_columns(specs@, 0, Seq::empty(), Seq::empty(), vals(params@), facts@),
{
    let mut columns: Vec<ColumnDef> = Vec::new();
    let mut constraints: Vec<TableConstraint> = Vec::new();
    let mut i: usize = 0;
    assert(columns_view(columns@) =~= Seq::<ColumnView>::empty());
    assert(constraints_view(constraints@) =~= Seq::<ConstraintView>::empty());
    while i < specs.len()
        invariant
            i <= specs@.len(),
            defined_columns(specs@, 0, Seq::empty(), Seq::empty(), vals(params@), facts@)
                == defined_columns(
                specs@,
                i as nat,
                columns_view(columns@),
                constraints_view(constraints@),
                vals(params@),
                facts@,
            ),
        decreases specs@.len() - i,
    {
        match plan_column(&specs[i], constraints, params, facts) {
            Ok((column, more)) => {
                let ghost before = columns@;
                columns.push(column);
                assert(columns_view(columns@) =~= columns_view(before).push(column_view(column)));
                constraints = more;
            },
            Err(h) => {
                return Err(h);
            },
        }
        i = i + 1;
    }
    Ok((columns, constraints))
}

// ---------------------------------------------------------------------------
// Table constraints
// ---------------------------------------------------------------------------

/// The position, from `i` on, of the first column with this name.
pub open spec fn column_at(columns: Seq<ColumnView>, name: Seq<char>, i: nat) -> Option<int>
    decreases columns.len() - i,
{
    if i >= columns.len() {
        None
    } else if columns[i as int].name == name {
        Some(i as int)
    } else {
        column_at(columns, name, i + 1)
    }
}

/// The columns with the named one marked unique, and as a part of the primary
/// key where `primary` says so.
pub open spec fn marked(columns: Seq<ColumnView>, name: Seq<char>, primary: bool) -> Seq<ColumnView> {
    match column_at(columns, name, 0) {
        Some(i) => columns.update(
            i,
            if primary {
                ColumnView { unique: true, nullable: false, primary: true, ..columns[i] }
            } else {
                ColumnView { unique: true, ..columns[i] }
            },
        ),
        None => columns,
    }
}

/// The columns with those that the primary key's first `n` names name marked.
pub open spec fn marked_key(columns: Seq<ColumnView>, names: Seq<Seq<char>>, n: nat) -> Seq<
    ColumnView,
>
    decreases n,
{
    if n == 0 || n > names.len() {
        columns
    } else {
        marked(marked_key(columns, names, (n - 1) as nat), names[n - 1], true)
    }
}

fn copy_column(c: &ColumnDef) -> (r: ColumnDef)
    ensures
        column_view(r) == column_view(*c),
{
    let default = match &c.default {
        Some(e) => Some(e.duplicate()),
        None => None,
    };
    ColumnDef {
        name: c.name.clone(),
        data_type: c.data_type.clone(),
        nullable: c.nullable,
        unique: c.unique,
        primary: c.primary,
        default,
    }
}

fn find_definition(columns: &Vec<ColumnDef>, name: &str) -> (r: Option<usize>)
    ensures
        match (r, column_at(columns_view(columns@), name@, 0)) {
            (Some(a), Some(b)) => a == b && a < columns@.len(),
            (None, None) => true,
            _ => false,
        },
{
    let ghost views = columns_view(columns@);
    let mut i: usize = 0;
    while i < columns.len()
        invariant
            i <= columns@.len(),
            views == columns_view(columns@),
            column_at(views, name@, 0) == column_at(views, name@, i as nat),
        decreases columns@.len() - i,
    {
        assert(views[i as int] == column_view(columns@[i as int]));
        if same_text(columns[i].name.as_str(), name) {
            return Some(i);
        }
        i = i + 1;
    }
    None
}

fn mark(columns: Vec<ColumnDef>, name: &str, primary: bool) -> (r: Vec<ColumnDef>)
    ensures
        columns_view(r@) == marked(columns_view(columns@), name@, primary),
{
    match find_definition(&columns, name) {
        Some(i) => {
            let ghost before = columns@;
            let old = copy_column(&columns[i]);
            let new = if primary {
                ColumnDef { unique: true, nullable: false, primary: true, ..old }
            } else {
                ColumnDef { unique: true, ..old }
            };
            let mut out = columns;
            out.set(i, new);
            assert(columns_view(before)[i as int] == column_view(before[i as int]));
            assert(columns_view(out@) =~= columns_view(before).update(
                i as int,
                column_view(new),
            ));
            out
        },
        None => columns,
    }
}

fn mark_key(columns: Vec<ColumnDef>, names: &Vec<String>) -> (r: Vec<ColumnDef>)
    ensures
        columns_view(r@) == marked_key(columns_view(columns@), texts(names@), names@.len()),
{
    let ghost start = columns_view(columns@);
    let mut out = columns;
    let mut i: usize = 0;
    while i < names.len()
        invariant
            i <= names@.len(),
            columns_view(out@) == marked_key(start, texts(names@), i as nat),
        decreases names@.len() - i,
    {
        assert(texts(names@)[i as int] == names@[i as int]@);
        out = mark(out, names[i].as_str(), true);
        i = i + 1;
    }
    out
}

/// A table's columns, constraints, and unique constraints over several columns.
#[verifier::ext_equal]
pub struct TableView {
    pub columns: Seq<ColumnView>,
    pub constraints: Seq<ConstraintView>,
    pub unique: Seq<Seq<Seq<char>>>,
}

/// What one table constraint adds. A unique constraint on one column marks the
/// column; one on several is on the tuple, not on each column alone.
pub open spec fn with_constraint(t: TableView, c: ConstraintSpec, params: Seq<Val>, k: Known) -> Result<
    TableView,
    Stop,
> {
    match c {
        ConstraintSpec::Unique { columns } => {
            let names = element_columns(columns@);
            Ok(
                if names.len() == 1 {
                    TableView { columns: marked(t.columns, names[0], false), ..t }
                } else {
                    TableView { unique: t.unique.push(names), ..t }
                },
            )
        },
        ConstraintSpec::PrimaryKey { columns } => {
            let names = element_columns(columns@);
            Ok(TableView { columns: marked_key(t.columns, names, names.len()), ..t })
        },
        ConstraintSpec::Check { name, expr } => match check_supported(expr, params, k) {
            Ok(_) => Ok(
                TableView {
                    constraints: t.constraints.push(
                        ConstraintView::Check { name: opt_text(name), expr: expr.text@ },
                    ),
                    ..t
                },
            ),
            Err(s) => Err(s),
        },
        ConstraintSpec::ForeignKey { name, columns, reference } => Ok(
            TableView {
                constraints: t.constraints.push(
                    foreign_key(opt_text(name), texts(columns@), reference),
                ),
                ..t
            },
        ),
        ConstraintSpec::Other => Ok(t),
    }
}

/// What the table constraints from position `i` on add.
pub open spec fn with_constraints(
    list: Seq<ConstraintSpec>,
    i: nat,
    t: TableView,
    params: Seq<Val>,
    k: Known,
) -> Result<TableView, Stop>
    decreases list.len() - i,
{
    if i >= list.len() {
        Ok(t)
    } else {
        match with_constraint(t, list[i as int], params, k) {
            Ok(next) => with_constraints(list, i + 1, next, params, k),
            Err(s) => Err(s),
        }
    }
}

/// A table's definition in memory.
pub struct TableParts {
    pub columns: Vec<ColumnDef>,
    pub constraints: Vec<TableConstraint>,
    pub unique: Vec<Vec<String>>,
}

/// What a table's definition stands for.
pub open spec fn parts_view(t: TableParts) -> TableView {
    TableView {
        columns: columns_view(t.columns@),
        constraints: constraints_view(t.constraints@),
        unique: text_lists(t.unique@),
    }
}

/// What a table definition result stands for.
pub open spec fn parts_outcome(r: Result<TableParts, Halt>) -> Result<TableView, Stop> {
    match r {
        Ok(t) => Ok(parts_view(t)),
        Err(h) => Err(h@),
    }
}

fn apply_constraint(t: TableParts, c: &ConstraintSpec, params: &Vec<Value>, facts: &Facts) -> (r:
    Result<TableParts, Halt>)
    ensures
        parts_outcome(r) == with_constraint(parts_view(t), *c, vals(params@), facts@),
{
    match c {
        ConstraintSpec::Unique { columns } => {
            let names = columns_of(columns);
            assert(texts(names@).len() == names@.len());
            if names.len() == 1 {
                assert(texts(names@)[0] == names@[0]@);
                let columns = mark(t.columns, names[0].as_str(), false);
                Ok(TableParts { columns, constraints: t.constraints, unique: t.unique })
            } else {
                let ghost before = t.unique@;
                let mut unique = t.unique;
                unique.push(names);
                assert(text_lists(unique@) =~= text_lists(before).push(texts(names@)));
                Ok(TableParts { columns: t.columns, constraints: t.constraints, unique })
            }
        },
        ConstraintSpec::PrimaryKey { columns } => {
            let names = columns_of(columns);
            assert(texts(names@).len() == names@.len());
            let columns = mark_key(t.columns, &names);
            Ok(TableParts { columns, constraints: t.constraints, unique: t.unique })
        },
        ConstraintSpec::Check { name, expr } => match check_constraint_is_supported(
            expr,
            params,
            facts,
        ) {
            Ok(_) => {
                let check = TableConstraint::Check { name: name.clone(), expr: expr.text.clone() };
                let constraints = add_constraint(t.constraints, check);
                Ok(TableParts { columns: t.columns, constraints, unique: t.unique })
            },
            Err(h) => Err(h),
        },
        ConstraintSpec::ForeignKey { name, columns, reference } => {
            let key = build_foreign_key(name, clone_texts(columns), reference);
            let constraints = add_constraint(t.constraints, key);
            Ok(TableParts { columns: t.columns, constraints, unique: t.unique })
        },
        ConstraintSpec::Other => Ok(t),
    }
}

fn apply_constraints(
    t: TableParts,
    list: &Vec<ConstraintSpec>,
    params: &Vec<Value>,
    facts: &Facts,
) -> (r: Result<TableParts, Halt>)
    ensures
        parts_outcome(r) == with_constraints(list@, 0, parts_view(t), vals(params@), facts@),
{
    let ghost start = parts_view(t);
    let mut out = t;
    let mut i: usize = 0;
    while i < list.len()
        invariant
            i <= list@.len(),
            start == parts_view(t),
            with_constraints(list@, 0, start, vals(params@), facts@) == with_constraints(
                list@,
                i as nat,
                parts_view(out),
                vals(params@),
                facts@,
            ),
        decreases list@.len() - i,
    {
        match apply_constraint(out, &list[i], params, facts) {
            Ok(next) => {
                out = next;
            },
            Err(h) => {
                return Err(h);
            },
        }
        i = i + 1;
    }
    Ok(out)
}

// ---------------------------------------------------------------------------
// CREATE TABLE
// ---------------------------------------------------------------------------

/// What `CREATE TABLE` with columns is planned to.
pub open spec fn planned_table(t: CreateTable, params: Seq<Val>, k: Known) -> Result<
    PlanView,
    Stop,
> {
    match defined_columns(t.columns@, 0, Seq::empty(), Seq::empty(), params, k) {
        Err(s) => Err(s),
        Ok((columns, constraints)) => match with_constraints(
            t.constraints@,
            0,
            TableView { columns, constraints, unique: Seq::empty() },
            params,
            k,
        ) {
            Err(s) => Err(s),
            Ok(table) => Ok(
                PlanView::CreateTable {
                    name: t.name@,
                    columns: table.columns,
                    constraints: table.constraints,
                    if_not_exists: t.if_not_exists,
                    unique_constraints: table.unique,
                },
            ),
        },
    }
}

/// Plans `CREATE TABLE` with columns.
pub fn plan_table(t: &CreateTable, params: &Vec<Value>, facts: &Facts) -> (r: Result<
    LogicalPlan,
    Halt,
>)
    ensures
        plan_outcome(r) == planned_table(*t, vals(params@), facts@),
{
    let (columns, constraints) = match plan_columns(&t.columns, params, facts) {
        Ok(x) => x,
        Err(h) => return Err(h),
    };
    let unique: Vec<Vec<String>> = Vec::new();
    assert(text_lists(unique@) =~= Seq::<Seq<Seq<char>>>::empty());
    let parts = TableParts { columns, constraints, unique };
    match apply_constraints(parts, &t.constraints, params, facts) {
        Ok(table) => Ok(
            LogicalPlan::CreateTable {
                name: t.name.clone(),
                columns: table.columns,
                constraints: table.constraints,
                if_not_exists: t.if_not_exists,
                unique_constraints: table.unique,
            },
        ),
        Err(h) => Err(h),
    }
}

// ---------------------------------------------------------------------------
// ALTER TABLE
// ---------------------------------------------------------------------------

/// Whether a new column takes NULL, and its default, by its options from
/// position `i` on; other options are ignored.
pub open spec fn added_options(
    column: Seq<char>,
    options: Seq<(Option<String>, ColumnOption)>,
    i: nat,
    nullable: bool,
    default: Option<ExprView>,
    params: Seq<Val>,
    k: Known,
) -> Result<(bool, Option<ExprView>), Stop>
    decreases options.len() - i,
{
    if i >= options.len() {
        Ok((nullable, default))
    } else {
        match options[i as int].1 {
            ColumnOption::NotNull => added_options(
                column,
                options,
                i + 1,
                false,
                default,
                params,
                k,
            ),
            ColumnOption::Default(e) => match column_default(e, column, params, k) {
                Ok(x) => added_options(column, options, i + 1, nullable, Some(x), params, k),
                Err(s) => Err(s),
            },
            _ => added_options(column, options, i + 1, nullable, default, params, k),
        }
    }
}

fn plan_added(c: &ColumnSpec, params: &Vec<Value>, facts: &Facts) -> (r: Result<
    (bool, Option<ScalarExpr>),
    Halt,
>)
    ensures
        match r {
            Ok((n, d)) => Ok((n, scalar_if(d))),
            Err(h) => Err(h@),
        } == added_options(c.name@, c.options@, 0, true, None, vals(params@), facts@),
{
    let mut nullable: bool = true;
    let mut default: Option<ScalarExpr> = None;
    let mut i: usize = 0;
    while i < c.options.len()
        invariant
            i <= c.options@.len(),
            added_options(c.name@, c.options@, 0, true, None, vals(params@), facts@)
                == added_options(
                c.name@,
                c.options@,
                i as nat,
                nullable,
                scalar_if(default),
                vals(params@),
                facts@,
            ),
        decreases c.options@.len() - i,
    {
        match &c.options[i].1 {
            ColumnOption::NotNull => {
                nullable = false;
            },
            ColumnOption::Default(e) => match plan_default(e, &c.name, params, facts) {
                Ok(x) => {
                    default = Some(x);
                },
                Err(h) => {
                    return Err(h);
                },
            },
            _ => {},
        }
        i = i + 1;
    }
    Ok((nullable, default))
}

/// What a change of a table is planned to.
pub open spec fn altered(op: AlterOperation, params: Seq<Val>, k: Known) -> Result<AlterView, Stop> {
    match op {
        AlterOperation::AddColumn(c) => match added_options(
            c.name@,
            c.options@,
            0,
            true,
            None,
            params,
            k,
        ) {
            Ok((nullable, default)) => Ok(
                AlterView::AddColumn {
                    name: c.name@,
                    data_type: c.data_type@,
                    nullable,
                    default,
                },
            ),
            Err(s) => Err(s),
        },
        AlterOperation::RenameColumn { old_name, new_name } => Ok(
            AlterView::RenameColumn { old_name: old_name@, new_name: new_name@ },
        ),
        AlterOperation::DropColumn { names } => if names@.len() == 0 {
            Err(Stop::Raised("DROP COLUMN without a column name"@))
        } else {
            Ok(AlterView::DropColumn { name: names@[0]@ })
        },
        AlterOperation::SetDataType { column, data_type } => Ok(
            AlterView::AlterColumnType { name: column@, data_type: data_type@ },
        ),
        AlterOperation::RenameTable { name } => Ok(AlterView::RenameTable { new_name: name@ }),
        AlterOperation::Other(text) => Err(
            Stop::Raised("Unsupported ALTER TABLE operation: "@ + text@),
        ),
    }
}

fn plan_alteration(op: &AlterOperation, params: &Vec<Value>, facts: &Facts) -> (r: Result<
    AlterTableOp,
    Halt,
>)
    ensures
        match r {
            Ok(a) => Ok(alter_view(a)),
            Err(h) => Err(h@),
        } == altered(*op, vals(params@), facts@),
{
    match op {
        AlterOperation::AddColumn(c) => match plan_added(c, params, facts) {
            Ok((nullable, default)) => Ok(
                AlterTableOp::AddColumn {
                    name: c.name.clone(),
                    data_type: c.data_type.clone(),
                    nullable,
                    default,
                },
            ),
            Err(h) => Err(h),
        },
        AlterOperation::RenameColumn { old_name, new_name } => Ok(
            AlterTableOp::RenameColumn { old_name: old_name.clone(), new_name: new_name.clone() },
        ),
        AlterOperation::DropColumn { names } => {
            if names.len() == 0 {
                Err(Halt::Raised("DROP COLUMN without a column name".to_owned()))
            } else {
                Ok(AlterTableOp::DropColumn { name: names[0].clone() })
            }
        },
        AlterOperation::SetDataType { column, data_type } => Ok(
            AlterTableOp::AlterColumnType { name: column.clone(), data_type: data_type.clone() },
        ),
        AlterOperation::RenameTable { name } => Ok(
            AlterTableOp::RenameTable { new_name: name.clone() },
        ),
        AlterOperation::Other(text) => Err(
            Halt::Raised(concat2("Unsupported ALTER TABLE operation: ", text.as_str())),
        ),
    }
}

/// What `ALTER TABLE` is planned to: its first change.
pub open spec fn planned_alter(
    name: Seq<char>,
    operations: Seq<AlterOperation>,
    params: Seq<Val>,
    k: Known,
) -> Result<PlanView, Stop> {
    if operations.len() == 0 {
        Err(Stop::Raised("ALTER TABLE without operations"@))
    } else {
        match altered(operations[0], params, k) {
            Ok(operation) => Ok(PlanView::AlterTable { table_name: name, operation }),
            Err(s) => Err(s),
        }
    }
}

/// Plans `ALTER TABLE`: its first change.
pub fn plan_alter(
    name: &String,
    operations: &Vec<AlterOperation>,
    params: &Vec<Value>,
    facts: &Facts,
) -> (r: Result<LogicalPlan, Halt>)
    ensures
        plan_outcome(r) == planned_alter(name@, operations@, vals(params@), facts@),
{
    if operations.len() == 0 {
        return Err(Halt::Raised("ALTER TABLE without operations".to_owned()));
    }
    match plan_alteration(&operations[0], params, facts) {
        Ok(operation) => Ok(LogicalPlan::AlterTable { table_name: name.clone(), operation }),
        Err(h) => Err(h),
    }
}

// ---------------------------------------------------------------------------
// Laws
// ---------------------------------------------------------------------------

/// Marking a column changes no other column, and adds and removes none.
pub proof fn law_marking_keeps_the_other_columns(
    columns: Seq<ColumnView>,
    name: Seq<char>,
    primary: bool,
    i: int,
)
    requires
        0 <= i < columns.len(),
    ensures
        marked(columns, name, primary).len() == columns.len(),
        columns[i].name != name ==> marked(columns, name, primary)[i] == columns[i],
        marked(columns, name, primary)[i].name == columns[i].name,
{
    lemma_marked(columns, name, 0);
}

proof fn lemma_marked(columns: Seq<ColumnView>, name: Seq<char>, i: nat)
    ensures
        match column_at(columns, name, i) {
            Some(j) => i <= j < columns.len() && columns[j].name == name,
            None => true,
        },
    decreases columns.len() - i,
{
    if i < columns.len() && columns[i as int].name != name {
        lemma_marked(columns, name, i + 1);
    }
}

/// A column of the primary key is unique and takes no NULL.
pub proof fn law_primary_key_columns_are_unique_and_not_null(
    columns: Seq<ColumnView>,
    name: Seq<char>,
)
    ensures
        match column_at(columns, name, 0) {
            Some(i) => {
                let c = marked(columns, name, true)[i];
                0 <= i < columns.len() && c.unique && c.primary && !c.nullable
            },
            None => true,
        },
{
    lemma_marked(columns, name, 0);
}

} // verus!
