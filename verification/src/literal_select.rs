//! SELECT without FROM: its items as one row.
use vstd::prelude::*;
use crate::cells::{cell, cell_at, is_true, value_is_true};
use crate::eval::{bound, eval, eval_scalar_in, Bindings};
use crate::facts::{Facts, Halt, Known, Stop};
use crate::join::{condition_marks, condition_verdicts};
use crate::plan_types::{DeferredItem, FilterExpr};
use crate::result_types::{constant_expr_type, no_columns, type_of};
use crate::rows::{row_views, QueryOutput};
use crate::select::{output_outcome, OutputView};
use crate::set_ops::{
    inferred_type, item_type, scalar_subquery_value, select_literal, select_tag, subquery_single,
    LiteralItem,
};
use crate::text::{opt_text, texts};
use crate::value::{rows_view, vals, Val, Value};

verus! {

/// An item of a literal SELECT: its name, type, and value.
#[verifier::ext_equal]
pub struct ItemView {
    pub name: Seq<char>,
    pub shown_type: Seq<char>,
    pub value: Val,
}

/// The item at a position that is left for the execution, if it is.
pub open spec fn deferred_at(deferred: Seq<Option<DeferredItem>>, i: int) -> Option<DeferredItem> {
    if 0 <= i < deferred.len() {
        deferred[i]
    } else {
        None
    }
}

/// Whether the output of the subquery of each deferred item is there.
pub open spec fn has_outputs(
    n: nat,
    deferred: Seq<Option<DeferredItem>>,
    outputs: Seq<Option<QueryOutput>>,
) -> bool {
    &&& outputs.len() == n
    &&& forall|i: int|
        0 <= i < n && (deferred_at(deferred, i) matches Some(d) && !(d is Scalar))
            ==> #[trigger] outputs[i] is Some
}

/// The value and the declared type of an item, given what its subquery put
/// out.
pub open spec fn item_parts(
    value: Val,
    hint: Option<Seq<char>>,
    item: Option<DeferredItem>,
    output: Option<QueryOutput>,
    k: Known,
) -> Result<(Val, Option<Seq<char>>), Stop> {
    match item {
        None => Ok((value, hint)),
        Some(DeferredItem::Scalar(e)) => match if hint is Some {
            Ok(hint)
        } else {
            type_of(e@, no_columns(), k)
        } {
            Err(s) => Err(s),
            Ok(t) => match eval(e@, bound(Seq::empty(), Seq::empty()), k) {
                Err(s) => Err(s),
                Ok(v) => Ok((v, t)),
            },
        },
        Some(DeferredItem::Subquery(_)) => match subquery_single(output->Some_0) {
            Err(m) => Err(Stop::Raised(m)),
            Ok(v) => Ok((v, hint)),
        },
        Some(DeferredItem::Exists { negated, .. }) => Ok(
            (Val::Bool((output->Some_0.rows@.len() > 0) != negated), hint),
        ),
    }
}

/// The items of a literal SELECT, from `i` on after those before; the first
/// failure is the query's.
pub open spec fn literal_items(
    values: Seq<(String, Value, Option<String>)>,
    deferred: Seq<Option<DeferredItem>>,
    outputs: Seq<Option<QueryOutput>>,
    i: int,
    before: Seq<ItemView>,
    k: Known,
) -> Result<Seq<ItemView>, Stop>
    decreases values.len() - i,
{
    if i >= values.len() {
        Ok(before)
    } else {
        let (name, value, hint) = values[i];
        match item_parts(value@, opt_text(hint), deferred_at(deferred, i), outputs[i], k) {
            Err(s) => Err(s),
            Ok((v, t)) => {
                let item = ItemView {
                    name: name@,
                    shown_type: match t {
                        Some(t) => t,
                        None => inferred_type(v),
                    },
                    value: v,
                };
                literal_items(values, deferred, outputs, i + 1, before.push(item), k)
            },
        }
    }
}

/// The output of a literal SELECT: one row of its items, or none where its
/// WHERE does not hold.
pub open spec fn literal_output(
    values: Seq<(String, Value, Option<String>)>,
    filter: Option<FilterExpr>,
    deferred: Seq<Option<DeferredItem>>,
    outputs: Seq<Option<QueryOutput>>,
    k: Known,
) -> Result<OutputView, Stop> {
    match literal_items(values, deferred, outputs, 0, Seq::empty(), k) {
        Err(s) => Err(s),
        Ok(items) => match condition_verdicts(
            filter,
            Seq::empty(),
            Seq::empty(),
            seq![Seq::empty()],
            k,
        ) {
            Err(s) => Err(s),
            Ok(marks) => {
                let rows = if is_true(cell(marks, 0)) {
                    seq![Seq::new(items.len(), |i: int| items[i].value)]
                } else {
                    Seq::empty()
                };
                Ok(
                    OutputView {
                        columns: Seq::new(items.len(), |i: int| items[i].name),
                        types: Seq::new(items.len(), |i: int| items[i].shown_type),
                        rows,
                        tag: select_tag(rows.len()),
                    },
                )
            },
        },
    }
}

/// What literal items stand for.
pub open spec fn item_views(items: Seq<LiteralItem>) -> Seq<ItemView> {
    Seq::new(
        items.len(),
        |i: int|
            ItemView {
                name: items[i].alias@,
                shown_type: item_type(items[i]),
                value: items[i].value@,
            },
    )
}

/// What an item's parts stand for.
pub open spec fn parts_outcome(r: Result<(Value, Option<String>), Halt>) -> Result<
    (Val, Option<Seq<char>>),
    Stop,
> {
    match r {
        Ok((v, t)) => Ok((v@, opt_text(t))),
        Err(h) => Err(h@),
    }
}

/// The value and the declared type of an item.
fn parts_of_item(
    value: &Value,
    hint: &Option<String>,
    item: Option<&DeferredItem>,
    output: &Option<QueryOutput>,
    facts: &Facts,
) -> (r: Result<(Value, Option<String>), Halt>)
    requires
        item matches Some(d) && !(*d is Scalar) ==> output is Some,
    ensures
        parts_outcome(r) == item_parts(
            value@,
            opt_text(*hint),
            match item {
                Some(d) => Some(*d),
                None => None,
            },
            *output,
            facts@,
        ),
{
    match item {
        None => Ok((value.duplicate(), hint.clone())),
        Some(DeferredItem::Scalar(e)) => {
            let t: Option<String> = match hint {
                Some(t) => Some(t.clone()),
                None => match constant_expr_type(e, facts) {
                    Ok(t) => t,
                    Err(h) => {
                        return Err(h);
                    },
                },
            };
            let scope = Bindings { references: Vec::new(), values: Vec::new() };
            assert(texts(scope.references@) =~= Seq::<Seq<char>>::empty());
            assert(vals(scope.values@) =~= Seq::<Val>::empty());
            match eval_scalar_in(e, &scope, facts) {
                Ok(v) => Ok((v, t)),
                Err(h) => Err(h),
            }
        },
        Some(DeferredItem::Subquery(_)) => match output {
            Some(out) => match scalar_subquery_value(out) {
                Ok(v) => Ok((v, hint.clone())),
                Err(m) => Err(Halt::Raised(m)),
            },
            None => Err(Halt::Raised(String::new())),
        },
        Some(DeferredItem::Exists { negated, .. }) => match output {
            Some(out) => Ok((Value::Bool((out.rows.len() > 0) != *negated), hint.clone())),
            None => Err(Halt::Raised(String::new())),
        },
    }
}

/// Runs a SELECT without FROM. `outputs` holds, for each item that is a
/// subquery, what it put out. A cast's or function's declared type wins over
/// the value's, and WHERE is a constant condition.
pub fn exec_select_literal(
    values: &Vec<(String, Value, Option<String>)>,
    filter: &Option<FilterExpr>,
    deferred: &Vec<Option<DeferredItem>>,
    outputs: &Vec<Option<QueryOutput>>,
    facts: &Facts,
) -> (r: Result<QueryOutput, Halt>)
    requires
        has_outputs(values@.len(), deferred@, outputs@),
    ensures
        output_outcome(r) == literal_output(
            values@,
            *filter,
            deferred@,
            outputs@,
            facts@,
        ),
{
    let mut items: Vec<LiteralItem> = Vec::new();
    let mut i: usize = 0;
    assert(item_views(items@) =~= Seq::<ItemView>::empty());
    while i < values.len()
        invariant
            i <= values@.len(),
            items@.len() == i,
            has_outputs(values@.len(), deferred@, outputs@),
            literal_items(values@, deferred@, outputs@, 0, Seq::empty(), facts@)
                == literal_items(values@, deferred@, outputs@, i as int, item_views(items@), facts@),
        decreases values@.len() - i,
    {
        let item: Option<&DeferredItem> = if i < deferred.len() {
            deferred[i].as_ref()
        } else {
            None
        };
        assert(deferred_at(deferred@, i as int) == match item {
            Some(d) => Some(*d),
            None => None,
        });
        assert(outputs@[i as int] is Some || item is None || *item->Some_0 is Scalar);
        match parts_of_item(&values[i].1, &values[i].2, item, &outputs[i], facts) {
            Err(h) => {
                return Err(h);
            },
            Ok((value, type_hint)) => {
                let ghost before = items@;
                items.push(LiteralItem { alias: values[i].0.clone(), value, type_hint });
                assert(item_views(items@) =~= item_views(before).push(
                    item_views(items@)[i as int],
                ));
            },
        }
        i = i + 1;
    }
    let none: Vec<String> = Vec::new();
    let mut rows: Vec<Vec<Value>> = Vec::new();
    rows.push(Vec::new());
    assert(texts(none@) =~= Seq::<Seq<char>>::empty());
    assert(rows_view(rows@) =~= seq![Seq::<Val>::empty()]) by {
        assert(vals(rows@[0]@) =~= Seq::<Val>::empty());
    }
    let marks = match condition_marks(filter, &none, &none, &rows, facts) {
        Ok(marks) => marks,
        Err(h) => {
            return Err(h);
        },
    };
    let keep: bool = value_is_true(&cell_at(&marks, 0));
    let ghost made = items@;
    let ghost views = item_views(items@);
    let out = select_literal(items, keep);
    assert(texts(out.columns@) =~= Seq::new(views.len(), |i: int| views[i].name));
    assert(texts(out.types@) =~= Seq::new(views.len(), |i: int| views[i].shown_type));
    proof {
        let kept = Seq::new(views.len(), |i: int| views[i].value);
        assert(kept =~= Seq::new(made.len(), |i: int| made[i].value@));
        assert(row_views(out.rows@).len() == out.rows@.len());
    }
    Ok(out)
}

/// A literal SELECT returns at most one row, as wide as its columns.
pub proof fn law_a_literal_select_has_one_row(
    values: Seq<(String, Value, Option<String>)>,
    filter: Option<FilterExpr>,
    deferred: Seq<Option<DeferredItem>>,
    outputs: Seq<Option<QueryOutput>>,
    k: Known,
)
    ensures
        literal_output(values, filter, deferred, outputs, k) matches Ok(out) ==> {
            &&& out.columns.len() == values.len()
            &&& out.types.len() == values.len()
            &&& out.rows.len() <= 1
            &&& forall|i: int| 0 <= i < out.rows.len() ==> #[trigger] out.rows[i].len() == values.len()
            &&& filter is None ==> out.rows.len() == 1
        },
{
    lemma_literal_items(values, deferred, outputs, 0, Seq::empty(), k);
}

proof fn lemma_literal_items(
    values: Seq<(String, Value, Option<String>)>,
    deferred: Seq<Option<DeferredItem>>,
    outputs: Seq<Option<QueryOutput>>,
    i: int,
    before: Seq<ItemView>,
    k: Known,
)
    requires
        0 <= i <= values.len(),
        before.len() == i,
    ensures
        literal_items(values, deferred, outputs, i, before, k) matches Ok(items) ==> items.len()
            == values.len(),
    decreases values.len() - i,
{
    if i < values.len() {
        let (name, value, hint) = values[i];
        match item_parts(value@, opt_text(hint), deferred_at(deferred, i), outputs[i], k) {
            Err(_) => {},
            Ok((v, t)) => {
                let item = ItemView {
                    name: name@,
                    shown_type: match t {
                        Some(t) => t,
                        None => inferred_type(v),
                    },
                    value: v,
                };
                lemma_literal_items(values, deferred, outputs, i + 1, before.push(item), k);
            },
        }
    }
}

} // verus!
