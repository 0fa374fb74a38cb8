//! Planning `GROUP BY`: plain columns, ordinals, and the expansion of
//! `ROLLUP`, `CUBE`, and `GROUPING SETS`.
use vstd::prelude::*;
use vstd::arithmetic::power2::{lemma2_to64, lemma_pow2_strictly_increases, lemma_pow2_unfold, pow2};
use crate::facts::{Halt, Stop};
use crate::literals::{col_name, extract_col_name, plain_column, plain_name};
use crate::plan_types::{AggregateOp, ProjectionItem};
use crate::plan_views::{item_view, items_view, text_lists, ItemView};
use crate::syntax::{SqlExpr, SqlNode, SqlValue};
use crate::text::{
    concat3, opt_text, parse_size, parsed_size, push_text, text_in, texts,
};

verus! {

// ---------------------------------------------------------------------------
// Ordinals
// ---------------------------------------------------------------------------

/// The label under which an aggregate item is found.
pub open spec fn aggregate_label(op: AggregateOp) -> Seq<char> {
    match op {
        AggregateOp::Count => "Count"@,
        AggregateOp::Sum => "Sum"@,
        AggregateOp::Min => "Min"@,
        AggregateOp::Max => "Max"@,
        AggregateOp::Avg => "Avg"@,
        AggregateOp::StringAgg => "StringAgg"@,
        AggregateOp::ArrayAgg => "ArrayAgg"@,
        AggregateOp::BoolAnd => "BoolAnd"@,
        AggregateOp::BoolOr => "BoolOr"@,
        AggregateOp::JsonAgg => "JsonAgg"@,
        AggregateOp::JsonbAgg => "JsonbAgg"@,
        AggregateOp::JsonObjectAgg => "JsonObjectAgg"@,
        AggregateOp::JsonbObjectAgg => "JsonbObjectAgg"@,
        AggregateOp::StddevSamp => "StddevSamp"@,
        AggregateOp::StddevPop => "StddevPop"@,
        AggregateOp::VarSamp => "VarSamp"@,
        AggregateOp::VarPop => "VarPop"@,
        AggregateOp::BitAnd => "BitAnd"@,
        AggregateOp::BitOr => "BitOr"@,
    }
}

fn label_of(op: AggregateOp) -> (r: &'static str)
    ensures
        r@ == aggregate_label(op),
{
    match op {
        AggregateOp::Count => "Count",
        AggregateOp::Sum => "Sum",
        AggregateOp::Min => "Min",
        AggregateOp::Max => "Max",
        AggregateOp::Avg => "Avg",
        AggregateOp::StringAgg => "StringAgg",
        AggregateOp::ArrayAgg => "ArrayAgg",
        AggregateOp::BoolAnd => "BoolAnd",
        AggregateOp::BoolOr => "BoolOr",
        AggregateOp::JsonAgg => "JsonAgg",
        AggregateOp::JsonbAgg => "JsonbAgg",
        AggregateOp::JsonObjectAgg => "JsonObjectAgg",
        AggregateOp::JsonbObjectAgg => "JsonbObjectAgg",
        AggregateOp::StddevSamp => "StddevSamp",
        AggregateOp::StddevPop => "StddevPop",
        AggregateOp::VarSamp => "VarSamp",
        AggregateOp::VarPop => "VarPop",
        AggregateOp::BitAnd => "BitAnd",
        AggregateOp::BitOr => "BitOr",
    }
}

/// The output column that a select item gives.
pub open spec fn item_target(item: ItemView) -> Option<Seq<char>> {
    match item {
        ItemView::Column(c) => Some(c),
        ItemView::AliasedColumn(_, a) => Some(a),
        ItemView::AliasedLiteral(_, a) => Some(a),
        ItemView::Aggregate(op, inner) => Some(aggregate_label(op) + "("@ + inner + ")"@),
        ItemView::Expr(_, alias) => alias,
        ItemView::ScalarFunction { func_name, alias, .. } => Some(
            match alias {
                Some(a) => a,
                None => func_name,
            },
        ),
        ItemView::WindowFunction { func_name, alias, .. } => Some(
            match alias {
                Some(a) => a,
                None => func_name,
            },
        ),
        _ => None,
    }
}

/// The output column that an ordinal (`ORDER BY 1`, `GROUP BY 1`) refers to,
/// counting from one.
pub open spec fn ordinal(items: Seq<ItemView>, n: int) -> Option<Seq<char>> {
    if 1 <= n <= items.len() {
        item_target(items[n - 1])
    } else {
        None
    }
}

fn target_of(item: &ProjectionItem) -> (r: Option<String>)
    ensures
        opt_text(r) == item_target(item_view(*item)),
{
    match item {
        ProjectionItem::Column(c) => Some(c.clone()),
        ProjectionItem::AliasedColumn(_, a) => Some(a.clone()),
        ProjectionItem::AliasedLiteral(_, a) => Some(a.clone()),
        ProjectionItem::Aggregate(op, inner) => {
            let mut out = concat3(label_of(*op), "(", inner.as_str());
            push_text(&mut out, ")");
            Some(out)
        },
        ProjectionItem::Expr { alias, .. } => alias.clone(),
        ProjectionItem::ScalarFunction { func_name, alias, .. } => match alias {
            Some(a) => Some(a.clone()),
            None => Some(func_name.clone()),
        },
        ProjectionItem::WindowFunction { func_name, alias, .. } => match alias {
            Some(a) => Some(a.clone()),
            None => Some(func_name.clone()),
        },
        _ => None,
    }
}

/// The output column that an ordinal refers to.
pub fn ordinal_target(projection: &Vec<ProjectionItem>, n: usize) -> (r: Option<String>)
    ensures
        opt_text(r) == ordinal(items_view(projection@), n as int),
{
    if n == 0 || n > projection.len() {
        return None;
    }
    assert(items_view(projection@)[n - 1] == item_view(projection@[n - 1]));
    target_of(&projection[n - 1])
}

/// The output column that an ordinal in an expression refers to.
pub open spec fn ordinal_of(e: SqlExpr, items: Seq<ItemView>) -> Option<Seq<char>> {
    match e.node {
        SqlNode::Value(SqlValue::Number(n)) => match parsed_size(n@) {
            Some(n) => ordinal(items, n as int),
            None => None,
        },
        _ => None,
    }
}

/// The output column that an ordinal in an expression refers to.
pub fn find_ordinal(e: &SqlExpr, projection: &Vec<ProjectionItem>) -> (r: Option<String>)
    ensures
        opt_text(r) == ordinal_of(*e, items_view(projection@)),
{
    match &e.node {
        SqlNode::Value(SqlValue::Number(n)) => match parse_size(n.as_str()) {
            Some(n) => ordinal_target(projection, n),
            None => None,
        },
        _ => None,
    }
}

// ---------------------------------------------------------------------------
// Sets
// ---------------------------------------------------------------------------

/// The columns among the first `n` expressions.
pub open spec fn columns_among(es: Seq<SqlExpr>, n: int) -> Seq<Seq<char>>
    decreases n,
{
    if n <= 0 || n > es.len() {
        Seq::empty()
    } else {
        match col_name(es[n - 1]) {
            Some(c) => columns_among(es, n - 1).push(c),
            None => columns_among(es, n - 1),
        }
    }
}

/// The columns of an element of a grouping.
pub open spec fn element_columns(es: Seq<SqlExpr>) -> Seq<Seq<char>> {
    columns_among(es, es.len() as int)
}

/// The columns of each element of a grouping.
pub open spec fn elements(list: Seq<Vec<SqlExpr>>) -> Seq<Seq<Seq<char>>> {
    Seq::new(list.len(), |i: int| element_columns(list[i]@))
}

/// The columns that the expressions name.
pub fn columns_of(es: &Vec<SqlExpr>) -> (r: Vec<String>)
    ensures
        texts(r@) == element_columns(es@),
{
    let mut out: Vec<String> = Vec::new();
    let mut i: usize = 0;
    assert(texts(out@) =~= Seq::<Seq<char>>::empty());
    while i < es.len()
        invariant
            i <= es@.len(),
            texts(out@) == columns_among(es@, i as int),
        decreases es@.len() - i,
    {
        match extract_col_name(&es[i]) {
            Some(c) => {
                let ghost before = out@;
                out.push(c);
                assert(texts(out@) =~= texts(before).push(c@));
            },
            None => {},
        }
        i = i + 1;
    }
    out
}

fn elements_of(list: &Vec<Vec<SqlExpr>>) -> (r: Vec<Vec<String>>)
    ensures
        text_lists(r@) == elements(list@),
{
    let mut out: Vec<Vec<String>> = Vec::new();
    let mut i: usize = 0;
    while i < list.len()
        invariant
            i <= list@.len(),
            out@.len() == i,
            forall|j: int| 0 <= j < i ==> texts((#[trigger] out@[j])@) == element_columns(list@[j]@),
        decreases list@.len() - i,
    {
        out.push(columns_of(&list[i]));
        i = i + 1;
    }
    assert(text_lists(out@) =~= elements(list@));
    out
}

/// The lists one after the other.
pub open spec fn flattened(s: Seq<Seq<Seq<char>>>) -> Seq<Seq<char>>
    decreases s.len(),
{
    if s.len() == 0 {
        Seq::empty()
    } else {
        flattened(s.drop_last()) + s.last()
    }
}

/// `ROLLUP (e1, ..., en)`: the sets `{e1..en}`, ..., `{e1}`, `{}`.
pub open spec fn rollup(es: Seq<Seq<Seq<char>>>) -> Seq<Seq<Seq<char>>> {
    Seq::new(es.len() + 1, |j: int| flattened(es.take(es.len() - j)))
}

fn append_texts(out: &mut Vec<String>, more: &Vec<String>)
    ensures
        texts(final(out)@) == texts(old(out)@) + texts(more@),
{
    let ghost start = out@;
    let mut i: usize = 0;
    assert(texts(start) + texts(more@).take(0) =~= texts(start));
    while i < more.len()
        invariant
            i <= more@.len(),
            texts(out@) == texts(start) + texts(more@).take(i as int),
        decreases more@.len() - i,
    {
        let ghost before = out@;
        out.push(more[i].clone());
        assert(texts(out@) =~= texts(before).push(more@[i as int]@));
        assert(texts(more@).take(i + 1) =~= texts(more@).take(i as int).push(more@[i as int]@));
        assert(texts(out@) =~= texts(start) + texts(more@).take(i + 1));
        i = i + 1;
    }
    assert(texts(more@).take(i as int) =~= texts(more@));
}

fn flatten_first(es: &Vec<Vec<String>>, n: usize) -> (r: Vec<String>)
    requires
        n <= es@.len(),
    ensures
        texts(r@) == flattened(text_lists(es@).take(n as int)),
{
    let ghost all = text_lists(es@);
    let mut out: Vec<String> = Vec::new();
    let mut i: usize = 0;
    assert(texts(out@) =~= Seq::<Seq<char>>::empty());
    while i < n
        invariant
            i <= n <= es@.len(),
            all == text_lists(es@),
            texts(out@) == flattened(all.take(i as int)),
        decreases n - i,
    {
        append_texts(&mut out, &es[i]);
        assert(all.take(i + 1).drop_last() =~= all.take(i as int));
        assert(all.take(i + 1).last() == texts(es@[i as int]@));
        i = i + 1;
    }
    out
}

fn expand_rollup(es: &Vec<Vec<String>>) -> (r: Vec<Vec<String>>)
    ensures
        text_lists(r@) == rollup(text_lists(es@)),
{
    let ghost all = text_lists(es@);
    let total: usize = es.len();
    let mut out: Vec<Vec<String>> = Vec::new();
    let mut left: usize = total;
    while left > 0
        invariant
            left <= total,
            total == es@.len(),
            all == text_lists(es@),
            out@.len() == total - left,
            forall|j: int|
                0 <= j < out@.len() ==> texts((#[trigger] out@[j])@) == flattened(
                    all.take(total - j),
                ),
        decreases left,
    {
        let next = flatten_first(es, left);
        out.push(next);
        left = left - 1;
    }
    out.push(flatten_first(es, 0));
    assert(text_lists(out@) =~= rollup(all));
    out
}

/// The columns of the elements whose bits are set in `mask`, the first element
/// standing for the lowest bit.
pub open spec fn masked(es: Seq<Seq<Seq<char>>>, mask: int) -> Seq<Seq<char>>
    decreases es.len(),
{
    if es.len() == 0 {
        Seq::empty()
    } else {
        let first = if mask % 2 == 1 {
            es[0]
        } else {
            Seq::empty()
        };
        first + masked(es.skip(1), mask / 2)
    }
}

/// `CUBE (e1, ..., en)`: every subset of the elements, from all of them down to
/// none.
pub open spec fn cube(es: Seq<Seq<Seq<char>>>) -> Seq<Seq<Seq<char>>> {
    Seq::new(pow2(es.len()), |j: int| masked(es, pow2(es.len()) - 1 - j))
}

fn masked_of(es: &Vec<Vec<String>>, mask: u32) -> (r: Vec<String>)
    ensures
        texts(r@) == masked(text_lists(es@), mask as int),
{
    let ghost all = text_lists(es@);
    let mut out: Vec<String> = Vec::new();
    let mut rest: u32 = mask;
    let mut i: usize = 0;
    assert(texts(out@) =~= Seq::<Seq<char>>::empty());
    assert(all.skip(0) =~= all);
    assert(texts(out@) + masked(all, mask as int) =~= masked(all, mask as int));
    while i < es.len()
        invariant
            i <= es@.len(),
            all == text_lists(es@),
            masked(all, mask as int) == texts(out@) + masked(all.skip(i as int), rest as int),
        decreases es@.len() - i,
    {
        assert(all.skip(i as int)[0] == texts(es@[i as int]@));
        assert(all.skip(i as int).skip(1) =~= all.skip(i + 1));
        let ghost before = texts(out@);
        if rest % 2 == 1 {
            append_texts(&mut out, &es[i]);
        }
        rest = rest / 2;
        i = i + 1;
        assert(masked(all, mask as int) =~= texts(out@) + masked(all.skip(i as int), rest as int));
    }
    assert(texts(out@) + Seq::<Seq<char>>::empty() =~= texts(out@));
    out
}

fn expand_cube(es: &Vec<Vec<String>>) -> (r: Vec<Vec<String>>)
    requires
        es@.len() < 32,
    ensures
        text_lists(r@) == cube(text_lists(es@)),
{
    let ghost all = text_lists(es@);
    let ghost n = es@.len();
    let mut total: u32 = 1;
    let mut i: usize = 0;
    proof {
        lemma2_to64();
    }
    while i < es.len()
        invariant
            i <= es@.len() < 32,
            total == pow2(i as nat),
        decreases es@.len() - i,
    {
        proof {
            lemma_pow2_unfold((i + 1) as nat);
            lemma2_to64();
            if i + 1 < 31 {
                lemma_pow2_strictly_increases((i + 1) as nat, 31);
            }
        }
        total = total * 2;
        i = i + 1;
    }
    let mut out: Vec<Vec<String>> = Vec::new();
    let mut mask: u32 = total;
    while mask > 0
        invariant
            mask <= total,
            total == pow2(n),
            n == es@.len(),
            all == text_lists(es@),
            out@.len() == total - mask,
            forall|j: int|
                0 <= j < out@.len() ==> texts((#[trigger] out@[j])@) == masked(all, total - 1 - j),
        decreases mask,
    {
        mask = mask - 1;
        out.push(masked_of(es, mask));
    }
    assert(text_lists(out@) =~= cube(all));
    out
}

// ---------------------------------------------------------------------------
// GROUP BY
// ---------------------------------------------------------------------------

/// What `GROUP BY` groups by: the columns, and the sets where it lists sets.
#[verifier::ext_equal]
pub struct Grouping {
    pub columns: Seq<Seq<char>>,
    pub sets: Option<Seq<Seq<Seq<char>>>>,
}

/// The most elements a `CUBE` may have.
pub const MAX_CUBE: usize = 31;

/// What one more expression adds to a grouping. A later list of sets replaces
/// an earlier one.
pub open spec fn grouped_by(g: Grouping, e: SqlExpr, items: Seq<ItemView>) -> Result<
    Grouping,
    Stop,
> {
    match e.node {
        SqlNode::Identifier(_) | SqlNode::Compound(_) => Ok(
            match plain_name(e) {
                Some(c) => Grouping { columns: g.columns.push(c), ..g },
                None => g,
            },
        ),
        SqlNode::Value(_) => Ok(
            match ordinal_of(e, items) {
                Some(c) => Grouping { columns: g.columns.push(c), ..g },
                None => g,
            },
        ),
        SqlNode::Rollup(list) => Ok(Grouping { sets: Some(rollup(elements(list@))), ..g }),
        SqlNode::Cube(list) => if list@.len() > MAX_CUBE {
            Err(Stop::Raised("CUBE has too many elements"@))
        } else {
            Ok(Grouping { sets: Some(cube(elements(list@))), ..g })
        },
        SqlNode::GroupingSets(list) => Ok(Grouping { sets: Some(elements(list@)), ..g }),
        _ => Ok(g),
    }
}

/// What the expressions from position `i` on add to a grouping.
pub open spec fn grouped_from(
    es: Seq<SqlExpr>,
    i: nat,
    g: Grouping,
    items: Seq<ItemView>,
) -> Result<Grouping, Stop>
    decreases es.len() - i,
{
    if i >= es.len() {
        Ok(g)
    } else {
        match grouped_by(g, es[i as int], items) {
            Ok(next) => grouped_from(es, i + 1, next, items),
            Err(s) => Err(s),
        }
    }
}

/// The columns, with those of `more` that are not among them added in order.
pub open spec fn united(columns: Seq<Seq<char>>, more: Seq<Seq<char>>) -> Seq<Seq<char>>
    decreases more.len(),
{
    if more.len() == 0 {
        columns
    } else {
        let earlier = united(columns, more.drop_last());
        if earlier.contains(more.last()) {
            earlier
        } else {
            earlier.push(more.last())
        }
    }
}

/// The columns, with those of every set that are not among them added.
pub open spec fn united_all(columns: Seq<Seq<char>>, sets: Seq<Seq<Seq<char>>>) -> Seq<Seq<char>>
    decreases sets.len(),
{
    if sets.len() == 0 {
        columns
    } else {
        united(united_all(columns, sets.drop_last()), sets.last())
    }
}

/// What `GROUP BY` groups by. Where it lists sets, the columns are those of all
/// the sets too, in the order of their first appearance.
pub open spec fn grouping(es: Seq<SqlExpr>, items: Seq<ItemView>) -> Result<Grouping, Stop> {
    match grouped_from(es, 0, Grouping { columns: Seq::empty(), sets: None }, items) {
        Ok(g) => Ok(
            match g.sets {
                Some(sets) => Grouping { columns: united_all(g.columns, sets), ..g },
                None => g,
            },
        ),
        Err(s) => Err(s),
    }
}

fn unite(columns: &mut Vec<String>, more: &Vec<String>)
    ensures
        texts(final(columns)@) == united(texts(old(columns)@), texts(more@)),
{
    let ghost start = texts(columns@);
    let ghost all = texts(more@);
    let mut i: usize = 0;
    assert(all.take(0) =~= Seq::<Seq<char>>::empty());
    while i < more.len()
        invariant
            i <= more@.len(),
            all == texts(more@),
            texts(columns@) == united(start, all.take(i as int)),
        decreases more@.len() - i,
    {
        assert(all.take(i + 1).drop_last() =~= all.take(i as int));
        assert(all.take(i + 1).last() == more@[i as int]@);
        if !text_in(columns, more[i].as_str()) {
            let ghost before = columns@;
            columns.push(more[i].clone());
            assert(texts(columns@) =~= texts(before).push(more@[i as int]@));
        }
        i = i + 1;
    }
    assert(all.take(i as int) =~= all);
}

/// What a grouping result stands for.
pub open spec fn grouping_outcome(
    r: Result<(Vec<String>, Option<Vec<Vec<String>>>), Halt>,
) -> Result<Grouping, Stop> {
    match r {
        Ok((columns, sets)) => Ok(
            Grouping {
                columns: texts(columns@),
                sets: match sets {
                    Some(s) => Some(text_lists(s@)),
                    None => None,
                },
            },
        ),
        Err(h) => Err(h@),
    }
}

/// Plans `GROUP BY`: the columns to group by, and the sets where it lists sets.
pub fn plan_grouping(es: &Vec<SqlExpr>, projection: &Vec<ProjectionItem>) -> (r: Result<
    (Vec<String>, Option<Vec<Vec<String>>>),
    Halt,
>)
    ensures
        grouping_outcome(r) == grouping(es@, items_view(projection@)),
{
    let ghost items = items_view(projection@);
    let ghost start = Grouping { columns: Seq::empty(), sets: None };
    let mut columns: Vec<String> = Vec::new();
    let mut sets: Option<Vec<Vec<String>>> = None;
    let mut i: usize = 0;
    assert(texts(columns@) =~= Seq::<Seq<char>>::empty());
    while i < es.len()
        invariant
            i <= es@.len(),
            items == items_view(projection@),
            start == (Grouping { columns: Seq::empty(), sets: None }),
            grouped_from(es@, 0, start, items) == grouped_from(
                es@,
                i as nat,
                grouping_outcome(Ok((columns, sets)))->Ok_0,
                items,
            ),
        decreases es@.len() - i,
    {
        let ghost g = grouping_outcome(Ok((columns, sets)))->Ok_0;
        let e = &es[i];
        match &e.node {
            SqlNode::Identifier(_) | SqlNode::Compound(_) => {
                if let Some(c) = plain_column(e) {
                    let ghost before = columns@;
                    columns.push(c);
                    assert(texts(columns@) =~= texts(before).push(c@));
                }
            },
            SqlNode::Value(_) => {
                if let Some(c) = find_ordinal(e, projection) {
                    let ghost before = columns@;
                    columns.push(c);
                    assert(texts(columns@) =~= texts(before).push(c@));
                }
            },
            SqlNode::Rollup(list) => {
                let es = elements_of(list);
                sets = Some(expand_rollup(&es));
            },
            SqlNode::Cube(list) => {
                if list.len() > MAX_CUBE {
                    return Err(Halt::Raised("CUBE has too many elements".to_owned()));
                }
                let es = elements_of(list);
                assert(text_lists(es@).len() == elements(list@).len());
                sets = Some(expand_cube(&es));
            },
            SqlNode::GroupingSets(list) => {
                sets = Some(elements_of(list));
            },
            _ => {},
        }
        assert(grouped_by(g, *e, items) == Ok::<Grouping, Stop>(
            grouping_outcome(Ok((columns, sets)))->Ok_0,
        ));
        i = i + 1;
    }
    if let Some(lists) = &sets {
        let ghost all = text_lists(lists@);
        let ghost first = texts(columns@);
        let mut j: usize = 0;
        assert(all.take(0) =~= Seq::<Seq<Seq<char>>>::empty());
        while j < lists.len()
            invariant
                j <= lists@.len(),
                all == text_lists(lists@),
                texts(columns@) == united_all(first, all.take(j as int)),
            decreases lists@.len() - j,
        {
            unite(&mut columns, &lists[j]);
            assert(all.take(j + 1).drop_last() =~= all.take(j as int));
            assert(all.take(j + 1).last() == texts(lists@[j as int]@));
            j = j + 1;
        }
        assert(all.take(j as int) =~= all);
    }
    Ok((columns, sets))
}

// ---------------------------------------------------------------------------
// What the sets hold
// ---------------------------------------------------------------------------

/// The elements that are chosen, one after the other.
pub open spec fn chosen(es: Seq<Seq<Seq<char>>>, which: Seq<bool>) -> Seq<Seq<char>>
    decreases es.len(),
{
    if es.len() == 0 {
        Seq::empty()
    } else {
        let first = if which[0] {
            es[0]
        } else {
            Seq::empty()
        };
        first + chosen(es.skip(1), which.skip(1))
    }
}

/// The number whose bits are the given choices, the first the lowest.
pub open spec fn mask_of(which: Seq<bool>) -> int
    decreases which.len(),
{
    if which.len() == 0 {
        0
    } else {
        let low: int = if which[0] {
            1
        } else {
            0
        };
        low + 2 * mask_of(which.skip(1))
    }
}

proof fn lemma_mask(es: Seq<Seq<Seq<char>>>, which: Seq<bool>)
    requires
        which.len() == es.len(),
    ensures
        0 <= mask_of(which) < pow2(es.len()),
        masked(es, mask_of(which)) == chosen(es, which),
    decreases es.len(),
{
    if es.len() == 0 {
        lemma2_to64();
    } else {
        lemma_mask(es.skip(1), which.skip(1));
        lemma_pow2_unfold(es.len());
        let m = mask_of(which);
        let low: int = if which[0] {
            1
        } else {
            0
        };
        let high = mask_of(which.skip(1));
        assert(m == low + 2 * high);
        assert(m / 2 == high && m % 2 == low);
    }
}

/// `CUBE` gives two to the number of its elements sets, and every choice of
/// elements is one of them.
pub proof fn law_cube_gives_every_subset(es: Seq<Seq<Seq<char>>>, which: Seq<bool>)
    requires
        which.len() == es.len(),
    ensures
        cube(es).len() == pow2(es.len()),
        cube(es).contains(chosen(es, which)),
{
    lemma_mask(es, which);
    let j = pow2(es.len()) - 1 - mask_of(which);
    assert(cube(es)[j] == chosen(es, which));
}

/// `ROLLUP` gives the elements, then each shorter prefix of them, down to none.
pub proof fn law_rollup_gives_the_prefixes(es: Seq<Seq<Seq<char>>>, n: int)
    requires
        0 <= n <= es.len(),
    ensures
        rollup(es).len() == es.len() + 1,
        rollup(es)[es.len() - n] == flattened(es.take(n)),
{
}

proof fn lemma_united(columns: Seq<Seq<char>>, more: Seq<Seq<char>>, c: Seq<char>)
    ensures
        united(columns, more).contains(c) <==> columns.contains(c) || more.contains(c),
    decreases more.len(),
{
    if more.len() > 0 {
        lemma_united(columns, more.drop_last(), c);
        let earlier = united(columns, more.drop_last());
        let all = united(columns, more);
        if more.contains(c) {
            let i = choose|i: int| 0 <= i < more.len() && more[i] == c;
            if i < more.len() - 1 {
                assert(more.drop_last()[i] == c);
            } else if !earlier.contains(c) {
                assert(all.last() == c);
                assert(all[all.len() - 1] == c);
            }
        }
        if more.drop_last().contains(c) {
            let i = choose|i: int| 0 <= i < more.len() - 1 && more.drop_last()[i] == c;
            assert(more[i] == c);
        }
        if earlier.contains(c) {
            let i = choose|i: int| 0 <= i < earlier.len() && earlier[i] == c;
            assert(all[i] == c);
        }
        if all.contains(c) {
            let i = choose|i: int| 0 <= i < all.len() && all[i] == c;
            if i < earlier.len() {
                assert(earlier[i] == c);
            } else {
                assert(more[more.len() - 1] == c);
            }
        }
    }
}

/// Where `GROUP BY` lists sets, a column of any set is among the columns, and
/// every column that is there without the sets stays.
pub proof fn law_grouping_columns_cover_the_sets(
    columns: Seq<Seq<char>>,
    sets: Seq<Seq<Seq<char>>>,
    c: Seq<char>,
)
    ensures
        united_all(columns, sets).contains(c) <==> columns.contains(c) || exists|i: int|
            0 <= i < sets.len() && (#[trigger] sets[i]).contains(c),
    decreases sets.len(),
{
    if sets.len() > 0 {
        law_grouping_columns_cover_the_sets(columns, sets.drop_last(), c);
        lemma_united(united_all(columns, sets.drop_last()), sets.last(), c);
        let earlier = sets.drop_last();
        if exists|i: int| 0 <= i < earlier.len() && (#[trigger] earlier[i]).contains(c) {
            let i = choose|i: int| 0 <= i < earlier.len() && (#[trigger] earlier[i]).contains(c);
            assert(sets[i].contains(c));
        }
        if exists|i: int| 0 <= i < sets.len() && (#[trigger] sets[i]).contains(c) {
            let i = choose|i: int| 0 <= i < sets.len() && (#[trigger] sets[i]).contains(c);
            if i < sets.len() - 1 {
                assert(earlier[i].contains(c));
            } else {
                assert(sets.last().contains(c));
            }
        }
        if sets.last().contains(c) {
            assert(sets[sets.len() - 1].contains(c));
        }
    }
}

} // verus!
