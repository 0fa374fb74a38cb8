//! The parts of a query's plan that hold no other plan: orderings, limits,
//! window specifications, and functions in `FROM`.
use vstd::prelude::*;
use crate::facts::{asked, on_one, text_outcome, Facts, Halt, Known, Stop, Task, TaskView};
use crate::grouping_sets::{columns_of, element_columns, find_ordinal, ordinal_of};
use crate::literals::{
    col_name, expr_to_operand, expr_to_value, extract_col_name, lateral_operand, literal,
    plain_column, plain_name,
};
use crate::plan_types::{
    operands, Operand, OperandView, ProjectionItem, TableFnSpec, WindowBound, WindowFrame,
    WindowFrameUnits,
};
use crate::plan_views::{fn_view, items_view, order_view, window_keys, FnView, ItemView};
use crate::render::{answered_text, render, shown};
use crate::syntax::{
    ArgKind, Arguments, FactorKind, Frame, FrameBound, FrameUnits, FunctionArg, OrderItem, Over,
    SortDirection, SqlExpr, SqlNode, SqlValue, TableAlias, TableFactor,
};
use crate::text::{
    clone_texts, concat2, lowercase, lowercased, opt_text, parse_int, parse_size, parsed_int,
    parsed_size, texts,
};
use crate::value::{vals, Val, Value};

verus! {

// ---------------------------------------------------------------------------
// Orderings
// ---------------------------------------------------------------------------

/// Whether a direction is ascending, the default; ordering by an operator is
/// not supported.
pub open spec fn ascending(d: Option<SortDirection>) -> Result<bool, Stop> {
    match d {
        None | Some(SortDirection::Asc) => Ok(true),
        Some(SortDirection::Desc) => Ok(false),
        Some(SortDirection::Using(op)) => Err(
            Stop::Raised("Unsupported ORDER BY USING operator: "@ + op@),
        ),
    }
}

/// Whether a direction is ascending.
pub fn sort_ascending(d: &Option<SortDirection>) -> (r: Result<bool, Halt>)
    ensures
        crate::facts::bool_outcome(r) == ascending(*d),
{
    match d {
        None | Some(SortDirection::Asc) => Ok(true),
        Some(SortDirection::Desc) => Ok(false),
        Some(SortDirection::Using(op)) => Err(
            Halt::Raised(concat2("Unsupported ORDER BY USING operator: ", op.as_str())),
        ),
    }
}

/// The column or output column that an ordering key names; other keys order by
/// nothing.
pub open spec fn order_target(e: SqlExpr, items: Seq<ItemView>) -> Option<Seq<char>> {
    match e.node {
        SqlNode::Identifier(_) | SqlNode::Compound(_) => plain_name(e),
        _ => ordinal_of(e, items),
    }
}

/// The directions of the keys from position `i` on are all supported.
pub open spec fn directions(keys: Seq<OrderItem>, i: nat) -> Result<(), Stop>
    decreases keys.len() - i,
{
    if i >= keys.len() {
        Ok(())
    } else {
        match ascending(keys[i as int].direction) {
            Ok(_) => directions(keys, i + 1),
            Err(s) => Err(s),
        }
    }
}

/// The keys among the first `n` that name a column.
pub open spec fn keys_among(keys: Seq<OrderItem>, n: int, items: Seq<ItemView>) -> Seq<
    (Seq<char>, bool, Option<bool>),
>
    decreases n,
{
    if n <= 0 || n > keys.len() {
        Seq::empty()
    } else {
        let earlier = keys_among(keys, n - 1, items);
        let key = keys[n - 1];
        match (order_target(key.expr, items), ascending(key.direction)) {
            (Some(c), Ok(asc)) => earlier.push((c, asc, key.nulls_first)),
            _ => earlier,
        }
    }
}

/// What `ORDER BY` orders by: each key's column, direction, and where it puts
/// NULLs.
pub open spec fn order_keys(keys: Seq<OrderItem>, items: Seq<ItemView>) -> Result<
    Seq<(Seq<char>, bool, Option<bool>)>,
    Stop,
> {
    match directions(keys, 0) {
        Ok(_) => Ok(keys_among(keys, keys.len() as int, items)),
        Err(s) => Err(s),
    }
}

fn find_target(e: &SqlExpr, projection: &Vec<ProjectionItem>) -> (r: Option<String>)
    ensures
        opt_text(r) == order_target(*e, items_view(projection@)),
{
    match &e.node {
        SqlNode::Identifier(_) | SqlNode::Compound(_) => plain_column(e),
        _ => find_ordinal(e, projection),
    }
}

/// Plans `ORDER BY`. Every direction is checked before any key is planned.
pub fn plan_order(keys: &Vec<OrderItem>, projection: &Vec<ProjectionItem>) -> (r: Result<
    Vec<(String, bool, Option<bool>)>,
    Halt,
>)
    ensures
        match r {
            Ok(v) => Ok(order_view(v@)),
            Err(h) => Err(h@),
        } == order_keys(keys@, items_view(projection@)),
{
    let ghost items = items_view(projection@);
    let mut i: usize = 0;
    while i < keys.len()
        invariant
            i <= keys@.len(),
            directions(keys@, 0) == directions(keys@, i as nat),
            forall|j: int| 0 <= j < i ==> ascending((#[trigger] keys@[j]).direction) is Ok,
        decreases keys@.len() - i,
    {
        match sort_ascending(&keys[i].direction) {
            Ok(_) => {},
            Err(h) => {
                return Err(h);
            },
        }
        i = i + 1;
    }
    let mut out: Vec<(String, bool, Option<bool>)> = Vec::new();
    let mut n: usize = 0;
    assert(order_view(out@) =~= Seq::<(Seq<char>, bool, Option<bool>)>::empty());
    while n < keys.len()
        invariant
            n <= keys@.len(),
            items == items_view(projection@),
            order_view(out@) == keys_among(keys@, n as int, items),
            forall|j: int| 0 <= j < keys@.len() ==> ascending((#[trigger] keys@[j]).direction) is Ok,
        decreases keys@.len() - n,
    {
        let key = &keys[n];
        match (find_target(&key.expr, projection), sort_ascending(&key.direction)) {
            (Some(c), Ok(asc)) => {
                let ghost before = out@;
                out.push((c, asc, key.nulls_first));
                assert(order_view(out@) =~= order_view(before).push((c@, asc, key.nulls_first)));
            },
            _ => {},
        }
        n = n + 1;
    }
    Ok(out)
}

// ---------------------------------------------------------------------------
// Limits
// ---------------------------------------------------------------------------

/// The count that `LIMIT` or `OFFSET` gives; anything but a count is ignored.
pub open spec fn count_of(e: Option<SqlExpr>, params: Seq<Val>, k: Known) -> Result<
    Option<usize>,
    Stop,
> {
    match e {
        None => Ok(None),
        Some(e) => match literal(e, params, k) {
            Ok(Some(v)) => match shown(v, k) {
                Ok(t) => Ok(parsed_size(t)),
                Err(s) => Err(s),
            },
            Ok(None) => Ok(None),
            Err(s) => Err(s),
        },
    }
}

/// What a count result stands for.
pub open spec fn count_outcome(r: Result<Option<usize>, Halt>) -> Result<Option<usize>, Stop> {
    match r {
        Ok(n) => Ok(n),
        Err(h) => Err(h@),
    }
}

/// The count that `LIMIT` or `OFFSET` gives.
pub fn plan_count(e: &Option<SqlExpr>, params: &Vec<Value>, facts: &Facts) -> (r: Result<
    Option<usize>,
    Halt,
>)
    ensures
        count_outcome(r) == count_of(*e, vals(params@), facts@),
{
    match e {
        None => Ok(None),
        Some(e) => match expr_to_value(e, params, facts) {
            Ok(Some(v)) => match render(&v, facts) {
                Ok(t) => Ok(parse_size(t.as_str())),
                Err(h) => Err(h),
            },
            Ok(None) => Ok(None),
            Err(h) => Err(h),
        },
    }
}

// ---------------------------------------------------------------------------
// Windows
// ---------------------------------------------------------------------------

/// The whole number that an offset writes.
pub open spec fn frame_offset(e: Option<Box<SqlExpr>>) -> Option<i64> {
    match e {
        Some(e) => match e.node {
            SqlNode::Value(SqlValue::Number(n)) => parsed_int(n@),
            _ => None,
        },
        None => None,
    }
}

/// A frame's bound; one without a whole number is unbounded.
pub open spec fn bound(b: FrameBound) -> WindowBound {
    match b {
        FrameBound::CurrentRow => WindowBound::CurrentRow,
        FrameBound::Preceding(e) => match frame_offset(e) {
            Some(n) => WindowBound::Preceding(n),
            None => WindowBound::UnboundedPreceding,
        },
        FrameBound::Following(e) => match frame_offset(e) {
            Some(n) => WindowBound::Following(n),
            None => WindowBound::UnboundedFollowing,
        },
    }
}

/// A frame. `GROUPS` counts as `RANGE`, and without `BETWEEN` the frame ends at
/// the current row.
pub open spec fn frame(f: Option<Frame>) -> Option<WindowFrame> {
    match f {
        Some(f) => Some(
            WindowFrame {
                units: if f.units is Rows {
                    WindowFrameUnits::Rows
                } else {
                    WindowFrameUnits::Range
                },
                start: bound(f.start),
                end: match f.end {
                    Some(b) => bound(b),
                    None => WindowBound::CurrentRow,
                },
            },
        ),
        None => None,
    }
}

fn read_frame_offset(e: &Option<Box<SqlExpr>>) -> (r: Option<i64>)
    ensures
        r == frame_offset(*e),
{
    match e {
        Some(e) => match &e.node {
            SqlNode::Value(SqlValue::Number(n)) => parse_int(n.as_str()),
            _ => None,
        },
        None => None,
    }
}

/// A frame's bound.
pub fn lower_bound(b: &FrameBound) -> (r: WindowBound)
    ensures
        r == bound(*b),
{
    match b {
        FrameBound::CurrentRow => WindowBound::CurrentRow,
        FrameBound::Preceding(e) => match read_frame_offset(e) {
            Some(n) => WindowBound::Preceding(n),
            None => WindowBound::UnboundedPreceding,
        },
        FrameBound::Following(e) => match read_frame_offset(e) {
            Some(n) => WindowBound::Following(n),
            None => WindowBound::UnboundedFollowing,
        },
    }
}

/// Lowers a window frame (`ROWS`/`RANGE BETWEEN ...`).
pub fn window_frame(f: &Option<Frame>) -> (r: Option<WindowFrame>)
    ensures
        r == frame(*f),
{
    match f {
        Some(f) => {
            let units = match f.units {
                FrameUnits::Rows => WindowFrameUnits::Rows,
                FrameUnits::Range | FrameUnits::Groups => WindowFrameUnits::Range,
            };
            let end = match &f.end {
                Some(b) => lower_bound(b),
                None => WindowBound::CurrentRow,
            };
            Some(WindowFrame { units, start: lower_bound(&f.start), end })
        },
        None => None,
    }
}

/// An argument of a window function: a column, or a constant as it is written.
pub open spec fn window_arg(a: FunctionArg) -> Option<Seq<char>> {
    match a.kind {
        ArgKind::Expr(e) => match col_name(e) {
            Some(c) => Some(c),
            None => match e.node {
                SqlNode::Value(SqlValue::Number(n)) => Some(n@),
                SqlNode::Value(SqlValue::Quoted(s)) => Some(s@),
                _ => None,
            },
        },
        _ => None,
    }
}

/// The arguments among the first `n` that a window function takes.
pub open spec fn window_args_among(args: Seq<FunctionArg>, n: int) -> Seq<Seq<char>>
    decreases n,
{
    if n <= 0 || n > args.len() {
        Seq::empty()
    } else {
        match window_arg(args[n - 1]) {
            Some(a) => window_args_among(args, n - 1).push(a),
            None => window_args_among(args, n - 1),
        }
    }
}

/// The arguments that a window function takes.
pub open spec fn window_arguments(args: Arguments) -> Seq<Seq<char>> {
    match args {
        Arguments::List { args, .. } => window_args_among(args@, args@.len() as int),
        _ => Seq::empty(),
    }
}

fn read_window_arg(a: &FunctionArg) -> (r: Option<String>)
    ensures
        opt_text(r) == window_arg(*a),
{
    match &a.kind {
        ArgKind::Expr(e) => match extract_col_name(e) {
            Some(c) => Some(c),
            None => match &e.node {
                SqlNode::Value(SqlValue::Number(n)) => Some(n.clone()),
                SqlNode::Value(SqlValue::Quoted(s)) => Some(s.clone()),
                _ => None,
            },
        },
        _ => None,
    }
}

/// A window function's arguments as texts: column names, or numeric and text
/// constants (e.g. the LAG/LEAD offset).
pub fn window_args(args: &Arguments) -> (r: Vec<String>)
    ensures
        texts(r@) == window_arguments(*args),
{
    let mut out: Vec<String> = Vec::new();
    assert(texts(out@) =~= Seq::<Seq<char>>::empty());
    if let Arguments::List { args, .. } = args {
        let mut i: usize = 0;
        while i < args.len()
            invariant
                i <= args@.len(),
                texts(out@) == window_args_among(args@, i as int),
            decreases args@.len() - i,
        {
            if let Some(a) = read_window_arg(&args[i]) {
                let ghost before = out@;
                out.push(a);
                assert(texts(out@) =~= texts(before).push(a@));
            }
            i = i + 1;
        }
    }
    out
}

/// The columns that a window's ordering from position `i` on names, each with
/// its direction, after those of `before`.
pub open spec fn window_order(
    keys: Seq<OrderItem>,
    i: nat,
    before: Seq<(Seq<char>, bool)>,
) -> Result<Seq<(Seq<char>, bool)>, Stop>
    decreases keys.len() - i,
{
    if i >= keys.len() {
        Ok(before)
    } else {
        match ascending(keys[i as int].direction) {
            Ok(asc) => match col_name(keys[i as int].expr) {
                Some(c) => window_order(keys, i + 1, before.push((c, asc))),
                None => window_order(keys, i + 1, before),
            },
            Err(s) => Err(s),
        }
    }
}

fn plan_window_order(keys: &Vec<OrderItem>) -> (r: Result<Vec<(String, bool)>, Halt>)
    ensures
        match r {
            Ok(v) => Ok(window_keys(v@)),
            Err(h) => Err(h@),
        } == window_order(keys@, 0, Seq::empty()),
{
    let mut out: Vec<(String, bool)> = Vec::new();
    let mut i: usize = 0;
    assert(window_keys(out@) =~= Seq::<(Seq<char>, bool)>::empty());
    while i < keys.len()
        invariant
            i <= keys@.len(),
            window_order(keys@, 0, Seq::empty()) == window_order(
                keys@,
                i as nat,
                window_keys(out@),
            ),
        decreases keys@.len() - i,
    {
        let asc = match sort_ascending(&keys[i].direction) {
            Ok(asc) => asc,
            Err(h) => {
                return Err(h);
            },
        };
        if let Some(c) = extract_col_name(&keys[i].expr) {
            let ghost before = out@;
            out.push((c, asc));
            assert(window_keys(out@) =~= window_keys(before).push((c@, asc)));
        }
        i = i + 1;
    }
    Ok(out)
}

/// What a window call is planned to.
pub open spec fn window_item(
    name: Seq<char>,
    args: Arguments,
    over: Over,
    alias: Seq<char>,
) -> Result<ItemView, Stop> {
    match over {
        Over::Spec { partition_by, order_by, frame: f } => match window_order(
            order_by@,
            0,
            Seq::empty(),
        ) {
            Ok(keys) => Ok(
                ItemView::WindowFunction {
                    func_name: name,
                    args: window_arguments(args),
                    partition_by: element_columns(partition_by@),
                    order_by: keys,
                    alias: Some(alias),
                    frame: frame(f),
                },
            ),
            Err(s) => Err(s),
        },
        Over::Named => Ok(
            ItemView::WindowFunction {
                func_name: name,
                args: window_arguments(args),
                partition_by: Seq::empty(),
                order_by: Seq::empty(),
                alias: Some(alias),
                frame: None,
            },
        ),
    }
}

/// What a select item result stands for.
pub open spec fn item_outcome(r: Result<ProjectionItem, Halt>) -> Result<ItemView, Stop> {
    match r {
        Ok(item) => Ok(crate::plan_views::item_view(item)),
        Err(h) => Err(h@),
    }
}

/// Plans a window call.
pub fn plan_window(func_name: String, args: &Arguments, over: &Over, alias: String) -> (r: Result<
    ProjectionItem,
    Halt,
>)
    ensures
        item_outcome(r) == window_item(func_name@, *args, *over, alias@),
{
    match over {
        Over::Spec { partition_by, order_by, frame } => match plan_window_order(order_by) {
            Ok(order_by) => Ok(
                ProjectionItem::WindowFunction {
                    func_name,
                    args: window_args(args),
                    partition_by: columns_of(partition_by),
                    order_by,
                    alias: Some(alias),
                    frame: window_frame(frame),
                },
            ),
            Err(h) => Err(h),
        },
        Over::Named => {
            let partition_by: Vec<String> = Vec::new();
            let order_by: Vec<(String, bool)> = Vec::new();
            assert(texts(partition_by@) =~= Seq::<Seq<char>>::empty());
            assert(window_keys(order_by@) =~= Seq::<(Seq<char>, bool)>::empty());
            Ok(
                ProjectionItem::WindowFunction {
                    func_name,
                    args: window_args(args),
                    partition_by,
                    order_by,
                    alias: Some(alias),
                    frame: None,
                },
            )
        },
    }
}

// ---------------------------------------------------------------------------
// Calls by name
// ---------------------------------------------------------------------------

/// The text under which a constant is passed to a function by name.
pub open spec fn literal_argument(v: Val, k: Known) -> Result<Seq<char>, Stop> {
    match asked(k, on_one(TaskView::LiteralArgument, v)) {
        Ok(a) => Ok(answered_text(a)),
        Err(s) => Err(s),
    }
}

fn literal_arg(v: &Value, facts: &Facts) -> (r: Result<String, Halt>)
    ensures
        text_outcome(r) == literal_argument(v@, facts@),
{
    match facts.ask_one(Task::LiteralArgument, v) {
        Ok(Value::Text(t)) => Ok(t),
        Ok(_) => {
            let none = String::new();
            assert(none@ =~= Seq::<char>::empty());
            Ok(none)
        },
        Err(h) => Err(h),
    }
}

/// The arguments from position `i` on of a function called by name, after
/// those of `before`: a column's name, or a constant's text; other arguments
/// are left out.
pub open spec fn named_args(
    args: Seq<FunctionArg>,
    i: nat,
    before: Seq<Seq<char>>,
    params: Seq<Val>,
    k: Known,
) -> Result<Seq<Seq<char>>, Stop>
    decreases args.len() - i,
{
    if i >= args.len() {
        Ok(before)
    } else {
        match args[i as int].kind {
            ArgKind::Expr(e) => match col_name(e) {
                Some(c) => named_args(args, i + 1, before.push(c), params, k),
                None => match literal(e, params, k) {
                    Ok(Some(v)) => match literal_argument(v, k) {
                        Ok(t) => named_args(args, i + 1, before.push(t), params, k),
                        Err(s) => Err(s),
                    },
                    Ok(None) => named_args(args, i + 1, before, params, k),
                    Err(s) => Err(s),
                },
            },
            _ => named_args(args, i + 1, before, params, k),
        }
    }
}

/// The arguments of a function called by name.
pub fn plan_named_args(args: &Vec<FunctionArg>, params: &Vec<Value>, facts: &Facts) -> (r: Result<
    Vec<String>,
    Halt,
>)
    ensures
        match r {
            Ok(v) => Ok(texts(v@)),
            Err(h) => Err(h@),
        } == named_args(args@, 0, Seq::empty(), vals(params@), facts@),
{
    let mut out: Vec<String> = Vec::new();
    let mut i: usize = 0;
    assert(texts(out@) =~= Seq::<Seq<char>>::empty());
    while i < args.len()
        invariant
            i <= args@.len(),
            named_args(args@, 0, Seq::empty(), vals(params@), facts@) == named_args(
                args@,
                i as nat,
                texts(out@),
                vals(params@),
                facts@,
            ),
        decreases args@.len() - i,
    {
        if let ArgKind::Expr(e) = &args[i].kind {
            match extract_col_name(e) {
                Some(c) => {
                    let ghost before = out@;
                    out.push(c);
                    assert(texts(out@) =~= texts(before).push(c@));
                },
                None => match expr_to_value(e, params, facts) {
                    Ok(Some(v)) => match literal_arg(&v, facts) {
                        Ok(t) => {
                            let ghost before = out@;
                            out.push(t);
                            assert(texts(out@) =~= texts(before).push(t@));
                        },
                        Err(h) => {
                            return Err(h);
                        },
                    },
                    Ok(None) => {},
                    Err(h) => {
                        return Err(h);
                    },
                },
            }
        }
        i = i + 1;
    }
    Ok(out)
}

// ---------------------------------------------------------------------------
// Functions in FROM
// ---------------------------------------------------------------------------

/// The operands that the arguments from position `i` on are, after those of
/// `before`; other arguments are left out.
pub open spec fn call_operands(
    args: Seq<FunctionArg>,
    i: nat,
    before: Seq<OperandView>,
    params: Seq<Val>,
    k: Known,
) -> Result<Seq<OperandView>, Stop>
    decreases args.len() - i,
{
    if i >= args.len() {
        Ok(before)
    } else {
        match args[i as int].kind {
            ArgKind::Expr(e) => match lateral_operand(e, params, k) {
                Ok(Some(o)) => call_operands(args, i + 1, before.push(o), params, k),
                Ok(None) => call_operands(args, i + 1, before, params, k),
                Err(s) => Err(s),
            },
            _ => call_operands(args, i + 1, before, params, k),
        }
    }
}

/// The operands that the expressions from position `i` on are, after those of
/// `before`; other expressions are left out.
pub open spec fn expr_operands(
    es: Seq<SqlExpr>,
    i: nat,
    before: Seq<OperandView>,
    params: Seq<Val>,
    k: Known,
) -> Result<Seq<OperandView>, Stop>
    decreases es.len() - i,
{
    if i >= es.len() {
        Ok(before)
    } else {
        match lateral_operand(es[i as int], params, k) {
            Ok(Some(o)) => expr_operands(es, i + 1, before.push(o), params, k),
            Ok(None) => expr_operands(es, i + 1, before, params, k),
            Err(s) => Err(s),
        }
    }
}

fn plan_call_operands(args: &Vec<FunctionArg>, params: &Vec<Value>, facts: &Facts) -> (r: Result<
    Vec<Operand>,
    Halt,
>)
    ensures
        match r {
            Ok(v) => Ok(operands(v@)),
            Err(h) => Err(h@),
        } == call_operands(args@, 0, Seq::empty(), vals(params@), facts@),
{
    let mut out: Vec<Operand> = Vec::new();
    let mut i: usize = 0;
    assert(operands(out@) =~= Seq::<OperandView>::empty());
    while i < args.len()
        invariant
            i <= args@.len(),
            call_operands(args@, 0, Seq::empty(), vals(params@), facts@) == call_operands(
                args@,
                i as nat,
                operands(out@),
                vals(params@),
                facts@,
            ),
        decreases args@.len() - i,
    {
        if let ArgKind::Expr(e) = &args[i].kind {
            match expr_to_operand(e, params, facts) {
                Ok(Some(o)) => {
                    let ghost before = out@;
                    out.push(o);
                    assert(operands(out@) =~= operands(before).push(o@));
                },
                Ok(None) => {},
                Err(h) => {
                    return Err(h);
                },
            }
        }
        i = i + 1;
    }
    Ok(out)
}

fn plan_expr_operands(es: &Vec<SqlExpr>, params: &Vec<Value>, facts: &Facts) -> (r: Result<
    Vec<Operand>,
    Halt,
>)
    ensures
        match r {
            Ok(v) => Ok(operands(v@)),
            Err(h) => Err(h@),
        } == expr_operands(es@, 0, Seq::empty(), vals(params@), facts@),
{
    let mut out: Vec<Operand> = Vec::new();
    let mut i: usize = 0;
    assert(operands(out@) =~= Seq::<OperandView>::empty());
    while i < es.len()
        invariant
            i <= es@.len(),
            expr_operands(es@, 0, Seq::empty(), vals(params@), facts@) == expr_operands(
                es@,
                i as nat,
                operands(out@),
                vals(params@),
                facts@,
            ),
        decreases es@.len() - i,
    {
        match expr_to_operand(&es[i], params, facts) {
            Ok(Some(o)) => {
                let ghost before = out@;
                out.push(o);
                assert(operands(out@) =~= operands(before).push(o@));
            },
            Ok(None) => {},
            Err(h) => {
                return Err(h);
            },
        }
        i = i + 1;
    }
    Ok(out)
}

/// A function in `FROM` with the names its alias gives.
pub open spec fn fn_spec(
    name: Seq<char>,
    args: Seq<OperandView>,
    with_ordinality: bool,
    alias: Option<TableAlias>,
) -> FnView {
    FnView {
        name,
        args,
        with_ordinality,
        alias: match alias {
            Some(a) => Some(a.name@),
            None => None,
        },
        column_aliases: match alias {
            Some(a) => texts(a.columns@),
            None => Seq::empty(),
        },
        arg_exprs: Seq::empty(),
        rows_from: Seq::empty(),
    }
}

fn build_table_fn_spec(
    name: String,
    args: Vec<Operand>,
    with_ordinality: bool,
    alias: &Option<TableAlias>,
) -> (r: TableFnSpec)
    ensures
        fn_view(r) == fn_spec(name@, operands(args@), with_ordinality, *alias),
{
    let (alias_name, column_aliases) = match alias {
        Some(a) => (Some(a.name.clone()), clone_texts(&a.columns)),
        None => {
            let none: Vec<String> = Vec::new();
            assert(texts(none@) =~= Seq::<Seq<char>>::empty());
            (None, none)
        },
    };
    TableFnSpec {
        name,
        args,
        with_ordinality,
        alias: alias_name,
        column_aliases,
        arg_exprs: Vec::new(),
        rows_from: Vec::new(),
    }
}

/// The function that a relation in `FROM` calls, if it calls one.
pub open spec fn table_fn(f: TableFactor, params: Seq<Val>, k: Known) -> Result<
    Option<FnView>,
    Stop,
> {
    match f.kind {
        FactorKind::Table { name, alias, args: Some(args), with_ordinality } => match call_operands(
            args@,
            0,
            Seq::empty(),
            params,
            k,
        ) {
            Ok(args) => Ok(Some(fn_spec(lowercased(name@), args, with_ordinality, alias))),
            Err(s) => Err(s),
        },
        FactorKind::Unnest { array_exprs, with_ordinality, alias } => match expr_operands(
            array_exprs@,
            0,
            Seq::empty(),
            params,
            k,
        ) {
            Ok(args) => Ok(Some(fn_spec("unnest"@, args, with_ordinality, alias))),
            Err(s) => Err(s),
        },
        _ => Ok(None),
    }
}

/// What a function in `FROM` stands for.
pub open spec fn fn_outcome(r: Result<Option<TableFnSpec>, Halt>) -> Result<Option<FnView>, Stop> {
    match r {
        Ok(Some(f)) => Ok(Some(fn_view(f))),
        Ok(None) => Ok(None),
        Err(h) => Err(h@),
    }
}

/// Recognizes a set-returning function used as a relation (any `name(args)`
/// call, and the `UNNEST` form), with its arguments, `WITH ORDINALITY`, and the
/// names its alias gives. Returns `None` for an ordinary table.
pub fn table_fn_from_factor(f: &TableFactor, params: &Vec<Value>, facts: &Facts) -> (r: Result<
    Option<TableFnSpec>,
    Halt,
>)
    ensures
        fn_outcome(r) == table_fn(*f, vals(params@), facts@),
{
    match &f.kind {
        FactorKind::Table { name, alias, args: Some(args), with_ordinality } => {
            match plan_call_operands(args, params, facts) {
                Ok(args) => Ok(
                    Some(
                        build_table_fn_spec(
                            lowercase(name.as_str()),
                            args,
                            *with_ordinality,
                            alias,
                        ),
                    ),
                ),
                Err(h) => Err(h),
            }
        },
        FactorKind::Unnest { array_exprs, with_ordinality, alias } => {
            match plan_expr_operands(array_exprs, params, facts) {
                Ok(args) => Ok(
                    Some(
                        build_table_fn_spec("unnest".to_owned(), args, *with_ordinality, alias),
                    ),
                ),
                Err(h) => Err(h),
            }
        },
        _ => Ok(None),
    }
}

} // verus!
