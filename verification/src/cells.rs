//! Cells of rows, and steps handed out for a whole batch of rows.
use vstd::prelude::*;
use crate::facts::{
    asked, list_outcome, on_three, outcome, Facts, Halt, Known, Stop, Task, TaskView,
};
use crate::text::texts;
use crate::value::{clone_values, group_value_views, rows_view, vals, Val, Value};

verus! {

broadcast use group_value_views;

/// The cell at a position, NULL beyond the row.
pub open spec fn cell(row: Seq<Val>, i: int) -> Val {
    if 0 <= i < row.len() {
        row[i]
    } else {
        Val::Null
    }
}

/// The cell at a position, NULL beyond the row.
pub fn cell_at(row: &Vec<Value>, i: usize) -> (r: Value)
    ensures
        r@ == cell(vals(row@), i as int),
{
    if i < row.len() {
        assert(vals(row@)[i as int] == row@[i as int]@);
        row[i].duplicate()
    } else {
        Value::Null
    }
}

/// The cell at a position that may be missing.
pub open spec fn cell_if(row: Seq<Val>, i: Option<int>) -> Val {
    match i {
        Some(i) => cell(row, i),
        None => Val::Null,
    }
}

/// An optional position as an integer.
pub open spec fn opt_int(i: Option<usize>) -> Option<int> {
    match i {
        Some(i) => Some(i as int),
        None => None,
    }
}

/// The cell at a position that may be missing.
pub fn cell_at_if(row: &Vec<Value>, i: Option<usize>) -> (r: Value)
    ensures
        r@ == cell_if(vals(row@), opt_int(i)),
{
    match i {
        Some(i) => cell_at(row, i),
        None => Value::Null,
    }
}

/// The cells at the given positions.
pub open spec fn cells(row: Seq<Val>, at: Seq<usize>) -> Seq<Val> {
    Seq::new(at.len(), |i: int| cell(row, at[i] as int))
}

/// The cells at the given positions.
pub fn pick_cells(row: &Vec<Value>, at: &Vec<usize>) -> (r: Vec<Value>)
    ensures
        vals(r@) == cells(vals(row@), at@),
{
    let mut out: Vec<Value> = Vec::new();
    let mut i: usize = 0;
    while i < at.len()
        invariant
            i <= at@.len(),
            out@.len() == i,
            forall|j: int| 0 <= j < i ==> (#[trigger] out@[j])@ == cell(vals(row@), at@[j] as int),
        decreases at@.len() - i,
    {
        out.push(cell_at(row, at[i]));
        i = i + 1;
    }
    assert(vals(out@) =~= cells(vals(row@), at@));
    out
}

/// A copy of every row.
pub fn clone_rows(rows: &Vec<Vec<Value>>) -> (r: Vec<Vec<Value>>)
    ensures
        rows_view(r@) == rows_view(rows@),
        r@.len() == rows@.len(),
{
    let mut out: Vec<Vec<Value>> = Vec::new();
    let mut i: usize = 0;
    while i < rows.len()
        invariant
            i <= rows@.len(),
            out@.len() == i,
            forall|j: int| 0 <= j < i ==> vals((#[trigger] out@[j])@) == vals(rows@[j]@),
        decreases rows@.len() - i,
    {
        out.push(clone_values(&rows[i]));
        i = i + 1;
    }
    assert(rows_view(out@) =~= rows_view(rows@));
    out
}

/// A row of NULLs.
pub open spec fn nulls(n: nat) -> Seq<Val> {
    Seq::new(n, |i: int| Val::Null)
}

/// A row of NULLs.
pub fn null_row(n: usize) -> (r: Vec<Value>)
    ensures
        vals(r@) == nulls(n as nat),
{
    let mut out: Vec<Value> = Vec::new();
    let mut i: usize = 0;
    while i < n
        invariant
            i <= n,
            out@.len() == i,
            forall|j: int| 0 <= j < i ==> (#[trigger] out@[j])@ == Val::Null,
        decreases n - i,
    {
        out.push(Value::Null);
        i = i + 1;
    }
    assert(vals(out@) =~= nulls(n as nat));
    out
}

/// Two rows, one after the other.
pub fn concat_rows(a: &Vec<Value>, b: &Vec<Value>) -> (r: Vec<Value>)
    ensures
        vals(r@) == vals(a@) + vals(b@),
{
    let mut out = clone_values(a);
    let ghost start = vals(out@);
    let mut i: usize = 0;
    assert(vals(b@).take(0) =~= Seq::<Val>::empty());
    assert(start + vals(b@).take(0) =~= start);
    while i < b.len()
        invariant
            i <= b@.len(),
            vals(out@) == start + vals(b@).take(i as int),
        decreases b@.len() - i,
    {
        let ghost before = out@;
        out.push(b[i].duplicate());
        assert(vals(out@) =~= vals(before).push(b@[i as int]@));
        i = i + 1;
        assert(start + vals(b@).take(i as int) =~= (start + vals(b@).take(i - 1)).push(
            b@[i - 1]@,
        ));
    }
    assert(vals(b@).take(i as int) =~= vals(b@));
    out
}

/// A row with one more cell.
pub fn row_with(row: &Vec<Value>, v: Value) -> (r: Vec<Value>)
    ensures
        vals(r@) == vals(row@).push(v@),
{
    let mut out = clone_values(row);
    let ghost before = out@;
    out.push(v);
    assert(vals(out@) =~= vals(before).push(v@));
    out
}

// ---------------------------------------------------------------------------
// Identical values
// ---------------------------------------------------------------------------

/// The bits of floating-point infinity.
pub const INFINITY_BITS: u64 = 0x7ff0_0000_0000_0000;

/// The sign bit of a floating-point number.
pub const SIGN_BIT: u64 = 0x8000_0000_0000_0000;

/// Whether two floating-point numbers, given by their bits, are equal: neither
/// is NaN, and they are the same or both zero.
pub open spec fn same_float(a: u64, b: u64) -> bool {
    let x = a % SIGN_BIT;
    let y = b % SIGN_BIT;
    x <= INFINITY_BITS && y <= INFINITY_BITS && (a == b || (x == 0 && y == 0))
}

/// Whether two values are the same value, of the same type.
pub open spec fn identical(a: Val, b: Val) -> bool
    decreases a,
{
    match (a, b) {
        (Val::Float(x), Val::Float(y)) => same_float(x, y),
        (Val::Array(x), Val::Array(y)) => x.len() == y.len() && forall|i: int|
            0 <= i < x.len() ==> identical(#[trigger] x[i], y[i]),
        _ => a == b,
    }
}

/// Whether two rows hold the same values.
pub open spec fn identical_rows(a: Seq<Val>, b: Seq<Val>) -> bool {
    a.len() == b.len() && forall|i: int| 0 <= i < a.len() ==> identical(#[trigger] a[i], b[i])
}

/// Whether two values are the same value, of the same type.
pub fn is_identical(a: &Value, b: &Value) -> (r: bool)
    ensures
        r == identical(a@, b@),
    decreases a,
{
    match (a, b) {
        (Value::Float(x), Value::Float(y)) => {
            let m: u64 = *x % SIGN_BIT;
            let n: u64 = *y % SIGN_BIT;
            m <= INFINITY_BITS && n <= INFINITY_BITS && (*x == *y || (m == 0 && n == 0))
        },
        (Value::Array(x), Value::Array(y)) => {
            let r = are_identical(x, y);
            assert(a@ == Val::Array(vals(x@)));
            assert(b@ == Val::Array(vals(y@)));
            r
        },
        _ => a.same(b),
    }
}

/// Whether two rows hold the same values.
pub fn are_identical(a: &Vec<Value>, b: &Vec<Value>) -> (r: bool)
    ensures
        r == identical_rows(vals(a@), vals(b@)),
    decreases a,
{
    if a.len() != b.len() {
        return false;
    }
    let mut i: usize = 0;
    while i < a.len()
        invariant
            i <= a@.len() == b@.len(),
            forall|j: int| 0 <= j < i ==> identical(#[trigger] vals(a@)[j], vals(b@)[j]),
        decreases a@.len() - i,
    {
        assert(decreases_to!(a@ => a@[i as int]));
        assert(vals(a@)[i as int] == a@[i as int]@);
        assert(vals(b@)[i as int] == b@[i as int]@);
        if !is_identical(&a[i], &b[i]) {
            return false;
        }
        i = i + 1;
    }
    true
}

/// Being identical does not depend on the order of the two values.
pub proof fn law_identical_is_symmetric(a: Val, b: Val)
    ensures
        identical(a, b) == identical(b, a),
    decreases a,
{
    if let (Val::Array(x), Val::Array(y)) = (a, b) {
        if x.len() == y.len() {
            assert forall|i: int| 0 <= i < x.len() implies identical(#[trigger] x[i], y[i])
                == identical(y[i], x[i]) by {
                law_identical_is_symmetric(x[i], y[i]);
            }
            if identical(a, b) {
                assert forall|i: int| 0 <= i < y.len() implies identical(
                    #[trigger] y[i],
                    x[i],
                ) by {
                    assert(identical(x[i], y[i]));
                }
            }
            if identical(b, a) {
                assert forall|i: int| 0 <= i < x.len() implies identical(
                    #[trigger] x[i],
                    y[i],
                ) by {
                    assert(identical(y[i], x[i]));
                }
            }
        }
    }
}

// ---------------------------------------------------------------------------
// Batches
// ---------------------------------------------------------------------------

/// Names as one value.
pub open spec fn names_val(names: Seq<Seq<char>>) -> Val {
    Val::Array(Seq::new(names.len(), |i: int| Val::Text(names[i])))
}

/// Rows as one value.
pub open spec fn rows_val(rows: Seq<Seq<Val>>) -> Val {
    Val::Array(Seq::new(rows.len(), |i: int| Val::Array(rows[i])))
}

/// Groups of rows as one value.
pub open spec fn groups_val(groups: Seq<Seq<Seq<Val>>>) -> Val {
    Val::Array(Seq::new(groups.len(), |i: int| rows_val(groups[i])))
}

/// What each group holds.
pub open spec fn groups_view(s: Seq<Vec<Vec<Value>>>) -> Seq<Seq<Seq<Val>>> {
    Seq::new(s.len(), |i: int| rows_view(s[i]@))
}

/// Names as one value.
pub fn names_value(names: &Vec<String>) -> (r: Value)
    ensures
        r@ == names_val(texts(names@)),
{
    let mut out: Vec<Value> = Vec::new();
    let mut i: usize = 0;
    while i < names.len()
        invariant
            i <= names@.len(),
            out@.len() == i,
            forall|j: int| 0 <= j < i ==> (#[trigger] out@[j])@ == Val::Text(names@[j]@),
        decreases names@.len() - i,
    {
        out.push(Value::Text(names[i].clone()));
        i = i + 1;
    }
    assert(vals(out@) =~= names_val(texts(names@))->Array_0);
    Value::Array(out)
}

/// Rows as one value.
pub fn rows_value(rows: &Vec<Vec<Value>>) -> (r: Value)
    ensures
        r@ == rows_val(rows_view(rows@)),
{
    let mut out: Vec<Value> = Vec::new();
    let mut i: usize = 0;
    while i < rows.len()
        invariant
            i <= rows@.len(),
            out@.len() == i,
            forall|j: int| 0 <= j < i ==> (#[trigger] out@[j])@ == Val::Array(vals(rows@[j]@)),
        decreases rows@.len() - i,
    {
        out.push(Value::Array(clone_values(&rows[i])));
        i = i + 1;
    }
    assert(vals(out@) =~= rows_val(rows_view(rows@))->Array_0);
    Value::Array(out)
}

/// Groups of rows as one value.
pub fn groups_value(groups: &Vec<Vec<Vec<Value>>>) -> (r: Value)
    ensures
        r@ == groups_val(groups_view(groups@)),
{
    let mut out: Vec<Value> = Vec::new();
    let mut i: usize = 0;
    while i < groups.len()
        invariant
            i <= groups@.len(),
            out@.len() == i,
            forall|j: int| 0 <= j < i ==> (#[trigger] out@[j])@ == rows_val(rows_view(groups@[j]@)),
        decreases groups@.len() - i,
    {
        out.push(rows_value(&groups[i]));
        i = i + 1;
    }
    assert(vals(out@) =~= groups_val(groups_view(groups@))->Array_0);
    Value::Array(out)
}

/// The first `n` values that an answer lists, NULL where it lists fewer.
pub open spec fn listed(v: Val, n: nat) -> Seq<Val> {
    Seq::new(
        n,
        |i: int|
            match v {
                Val::Array(items) => cell(items, i),
                _ => Val::Null,
            },
    )
}

/// The first `n` values that an answer lists, NULL where it lists fewer.
pub fn list_of(v: &Value, n: usize) -> (r: Vec<Value>)
    ensures
        vals(r@) == listed(v@, n as nat),
{
    let mut out: Vec<Value> = Vec::new();
    let mut i: usize = 0;
    while i < n
        invariant
            i <= n,
            out@.len() == i,
            forall|j: int| 0 <= j < i ==> (#[trigger] out@[j])@ == listed(v@, n as nat)[j],
        decreases n - i,
    {
        let item = match v {
            Value::Array(items) => {
                assert(v@ == Val::Array(vals(items@)));
                cell_at(items, i)
            },
            _ => Value::Null,
        };
        out.push(item);
        i = i + 1;
    }
    assert(vals(out@) =~= listed(v@, n as nat));
    out
}

/// What a step about an expression or the like gives for each of the rows;
/// nothing is handed out for no rows.
pub open spec fn row_answers(
    task: TaskView,
    about: Val,
    names: Seq<Seq<char>>,
    rows: Seq<Seq<Val>>,
    k: Known,
) -> Result<Seq<Val>, Stop> {
    if rows.len() == 0 {
        Ok(Seq::empty())
    } else {
        match asked(k, on_three(task, about, names_val(names), rows_val(rows))) {
            Ok(v) => Ok(listed(v, rows.len())),
            Err(s) => Err(s),
        }
    }
}

/// What a step gives for each of the rows.
pub fn ask_rows(
    task: Task,
    about: Value,
    names: &Vec<String>,
    rows: &Vec<Vec<Value>>,
    facts: &Facts,
) -> (r: Result<Vec<Value>, Halt>)
    ensures
        list_outcome(r) == row_answers(task@, about@, texts(names@), rows_view(rows@), facts@),
        r is Ok ==> r->Ok_0@.len() == rows@.len(),
{
    if rows.len() == 0 {
        let out: Vec<Value> = Vec::new();
        assert(vals(out@) =~= Seq::<Val>::empty());
        return Ok(out);
    }
    match facts.ask_three(task, about, names_value(names), rows_value(rows)) {
        Ok(v) => {
            let out = list_of(&v, rows.len());
            assert(vals(out@).len() == rows@.len());
            Ok(out)
        },
        Err(h) => Err(h),
    }
}

/// What a step about an expression or the like gives for each of the groups;
/// nothing is handed out for none.
pub open spec fn group_answers(
    task: TaskView,
    about: Val,
    names: Seq<Seq<char>>,
    groups: Seq<Seq<Seq<Val>>>,
    k: Known,
) -> Result<Seq<Val>, Stop> {
    if groups.len() == 0 {
        Ok(Seq::empty())
    } else {
        match asked(k, on_three(task, about, names_val(names), groups_val(groups))) {
            Ok(v) => Ok(listed(v, groups.len())),
            Err(s) => Err(s),
        }
    }
}

/// What a step gives for each of the groups.
pub fn ask_groups(
    task: Task,
    about: Value,
    names: &Vec<String>,
    groups: &Vec<Vec<Vec<Value>>>,
    facts: &Facts,
) -> (r: Result<Vec<Value>, Halt>)
    ensures
        list_outcome(r) == group_answers(
            task@,
            about@,
            texts(names@),
            groups_view(groups@),
            facts@,
        ),
        r is Ok ==> r->Ok_0@.len() == groups@.len(),
{
    if groups.len() == 0 {
        let out: Vec<Value> = Vec::new();
        assert(vals(out@) =~= Seq::<Val>::empty());
        return Ok(out);
    }
    match facts.ask_three(task, about, names_value(names), groups_value(groups)) {
        Ok(v) => {
            let out = list_of(&v, groups.len());
            assert(vals(out@).len() == groups@.len());
            Ok(out)
        },
        Err(h) => Err(h),
    }
}

/// The row of the relation that a reference names, as one value.
pub open spec fn relation_row(
    names: Seq<Seq<char>>,
    reference: Seq<char>,
    row: Seq<Val>,
    k: Known,
) -> Result<Val, Stop> {
    asked(
        k,
        on_three(TaskView::RelationRow, Val::Text(reference), names_val(names), Val::Array(row)),
    )
}

/// The row of the relation that a reference names, as one value.
pub fn ask_relation_row(
    names: &Vec<String>,
    reference: &str,
    row: &Vec<Value>,
    facts: &Facts,
) -> (r: Result<Value, Halt>)
    ensures
        outcome(r) == relation_row(texts(names@), reference@, vals(row@), facts@),
{
    facts.ask_three(
        Task::RelationRow,
        Value::Text(reference.to_owned()),
        names_value(names),
        Value::Array(clone_values(row)),
    )
}

/// Whether a value is true.
pub open spec fn is_true(v: Val) -> bool {
    v == Val::Bool(true)
}

/// Whether a value is true.
pub fn value_is_true(v: &Value) -> (r: bool)
    ensures
        r == is_true(v@),
{
    match v {
        Value::Bool(b) => *b,
        _ => false,
    }
}

/// The items whose verdict is true.
pub open spec fn passing<T>(items: Seq<T>, verdicts: Seq<Val>) -> Seq<T>
    decreases items.len(),
{
    if items.len() == 0 {
        Seq::empty()
    } else {
        let rest = passing(items.drop_last(), verdicts);
        if is_true(cell(verdicts, items.len() - 1)) {
            rest.push(items.last())
        } else {
            rest
        }
    }
}

/// The rows whose verdict is true.
pub fn keep_rows(rows: Vec<Vec<Value>>, verdicts: &Vec<Value>) -> (r: Vec<Vec<Value>>)
    ensures
        rows_view(r@) == passing(rows_view(rows@), vals(verdicts@)),
{
    let ghost all = rows_view(rows@);
    let mut out: Vec<Vec<Value>> = Vec::new();
    let mut i: usize = 0;
    assert(all.take(0) =~= Seq::<Seq<Val>>::empty());
    assert(rows_view(out@) =~= Seq::<Seq<Val>>::empty());
    while i < rows.len()
        invariant
            i <= rows@.len(),
            all == rows_view(rows@),
            rows_view(out@) == passing(all.take(i as int), vals(verdicts@)),
        decreases rows@.len() - i,
    {
        let ghost before = out@;
        assert(all.take(i + 1).drop_last() =~= all.take(i as int));
        assert(all.take(i + 1).last() == vals(rows@[i as int]@));
        let verdict = cell_at(verdicts, i);
        if value_is_true(&verdict) {
            out.push(clone_values(&rows[i]));
            assert(rows_view(out@) =~= rows_view(before).push(vals(rows@[i as int]@)));
        }
        i = i + 1;
    }
    assert(all.take(i as int) =~= all);
    out
}

} // verus!
