//! Joining relations row by row.
use vstd::prelude::*;
use crate::cells::{
    ask_rows, cell, cell_at, clone_rows, concat_rows, groups_view, is_true, names_val, names_value, null_row,
    nulls, passing, row_answers, value_is_true,
};
use crate::codes::{code_of_filter, filter_code};
use crate::facts::{
    asked, list_outcome, on_two, Facts, Halt, Known, Stop, Task, TaskView,
};
use crate::names::{unqualified, unqualify};
use crate::plan_types::{FilterExpr, Join, JoinType};
use crate::render::{equal_values, values_equal};
use crate::text::{clone_texts, concat3, index_of, lower, lower_text, position_of, text_in, texts};
use crate::value::{clone_values, rows_view, vals, Val, Value};

verus! {

/// Rows under qualified column names.
#[derive(Debug, PartialEq)]
pub struct Relation {
    pub columns: Vec<String>,
    pub types: Vec<String>,
    pub rows: Vec<Vec<Value>>,
}

/// What a [`Relation`] stands for.
#[verifier::ext_equal]
pub struct Rel {
    pub columns: Seq<Seq<char>>,
    pub types: Seq<Seq<char>>,
    pub rows: Seq<Seq<Val>>,
}

impl View for Relation {
    type V = Rel;

    open spec fn view(&self) -> Rel {
        Rel {
            columns: texts(self.columns@),
            types: texts(self.types@),
            rows: rows_view(self.rows@),
        }
    }
}

/// What a relation result stands for.
pub open spec fn relation_outcome(r: Result<Relation, Halt>) -> Result<Rel, Stop> {
    match r {
        Ok(v) => Ok(v@),
        Err(h) => Err(h@),
    }
}

/// Column names under a relation's name.
pub open spec fn prefixed(prefix: Seq<char>, names: Seq<Seq<char>>) -> Seq<Seq<char>> {
    Seq::new(names.len(), |i: int| prefix + "."@ + names[i])
}

/// Column names under a relation's name.
pub fn prefix_names(prefix: &str, names: &Vec<String>) -> (r: Vec<String>)
    ensures
        texts(r@) == prefixed(prefix@, texts(names@)),
{
    let mut out: Vec<String> = Vec::new();
    let mut i: usize = 0;
    while i < names.len()
        invariant
            i <= names@.len(),
            out@.len() == i,
            forall|j: int| 0 <= j < i ==> (#[trigger] out@[j])@ == prefix@ + "."@ + names@[j]@,
        decreases names@.len() - i,
    {
        out.push(concat3(prefix, ".", names[i].as_str()));
        i = i + 1;
    }
    assert(texts(out@) =~= prefixed(prefix@, texts(names@)));
    out
}

/// The types of `n` columns, `VARCHAR` where none is given.
pub open spec fn padded_types(types: Seq<Seq<char>>, n: nat) -> Seq<Seq<char>> {
    Seq::new(
        n,
        |i: int|
            if i < types.len() {
                types[i]
            } else {
                "VARCHAR"@
            },
    )
}

/// The types of `n` columns, `VARCHAR` where none is given.
pub fn pad_types(types: &Vec<String>, n: usize) -> (r: Vec<String>)
    ensures
        texts(r@) == padded_types(texts(types@), n as nat),
{
    let mut out: Vec<String> = Vec::new();
    let mut i: usize = 0;
    while i < n
        invariant
            i <= n,
            out@.len() == i,
            forall|j: int|
                0 <= j < i ==> (#[trigger] out@[j])@ == padded_types(texts(types@), n as nat)[j],
        decreases n - i,
    {
        if i < types.len() {
            out.push(types[i].clone());
        } else {
            out.push("VARCHAR".to_owned());
        }
        i = i + 1;
    }
    assert(texts(out@) =~= padded_types(texts(types@), n as nat));
    out
}

/// The name a relation goes by: its alias, else its own name.
pub open spec fn relation_name(alias: Option<String>, name: String) -> Seq<char> {
    match alias {
        Some(a) => a@,
        None => name@,
    }
}

/// The name a relation goes by: its alias, else its own name.
pub fn name_of<'a>(alias: &'a Option<String>, name: &'a String) -> (r: &'a str)
    ensures
        r@ == relation_name(*alias, *name),
{
    match alias {
        Some(a) => a.as_str(),
        None => name.as_str(),
    }
}

/// A table's rows under its name in the query.
pub open spec fn sourced(
    prefix: Seq<char>,
    columns: Seq<Seq<char>>,
    types: Seq<Seq<char>>,
    rows: Seq<Seq<Val>>,
) -> Rel {
    Rel { columns: prefixed(prefix, columns), types: padded_types(types, columns.len()), rows }
}

/// A table's rows under its name in the query.
pub fn source_relation(prefix: &str, table: &Relation) -> (r: Relation)
    ensures
        r@ == sourced(prefix@, table@.columns, table@.types, table@.rows),
{
    Relation {
        columns: prefix_names(prefix, &table.columns),
        types: pad_types(&table.types, table.columns.len()),
        rows: clone_rows(&table.rows),
    }
}

/// Two lists of texts, one after the other.
pub fn concat_texts(a: &Vec<String>, b: &Vec<String>) -> (r: Vec<String>)
    ensures
        texts(r@) == texts(a@) + texts(b@),
{
    let mut out = clone_texts(a);
    let mut i: usize = 0;
    assert(texts(out@) =~= texts(a@) + texts(b@).take(0));
    while i < b.len()
        invariant
            i <= b@.len(),
            texts(out@) == texts(a@) + texts(b@).take(i as int),
        decreases b@.len() - i,
    {
        let ghost before = out@;
        out.push(b[i].clone());
        assert(texts(out@) =~= texts(before).push(b@[i as int]@));
        i = i + 1;
        assert(texts(out@) =~= texts(a@) + texts(b@).take(i as int));
    }
    assert(texts(b@).take(i as int) =~= texts(b@));
    out
}

// ---------------------------------------------------------------------------
// Columns matched by name
// ---------------------------------------------------------------------------

/// The lower-cased names of columns, without their relations.
pub open spec fn bare_names(columns: Seq<Seq<char>>) -> Seq<Seq<char>> {
    Seq::new(columns.len(), |i: int| lower(unqualified(columns[i])))
}

/// The names, in order, that also occur in `others`.
pub open spec fn shared_names(names: Seq<Seq<char>>, others: Seq<Seq<char>>) -> Seq<Seq<char>>
    decreases names.len(),
{
    if names.len() == 0 {
        Seq::empty()
    } else {
        let rest = shared_names(names.drop_last(), others);
        if others.contains(names.last()) {
            rest.push(names.last())
        } else {
            rest
        }
    }
}

/// The names that a `USING` or `NATURAL` join matches.
pub open spec fn matched_names(
    natural: bool,
    using: Seq<Seq<char>>,
    left: Seq<Seq<char>>,
    right: Seq<Seq<char>>,
) -> Seq<Seq<char>> {
    if natural {
        shared_names(bare_names(left), bare_names(right))
    } else {
        Seq::new(using.len(), |i: int| lower(using[i]))
    }
}

/// The positions, in a row that joins both sides, of the columns of each name
/// that both sides have.
pub open spec fn name_pairs(
    names: Seq<Seq<char>>,
    left: Seq<Seq<char>>,
    right: Seq<Seq<char>>,
) -> Seq<(int, int)>
    decreases names.len(),
{
    if names.len() == 0 {
        Seq::empty()
    } else {
        let rest = name_pairs(names.drop_last(), left, right);
        match (
            index_of(bare_names(left), names.last()),
            index_of(bare_names(right), names.last()),
        ) {
            (Some(l), Some(r)) => rest.push((l, left.len() + r)),
            _ => rest,
        }
    }
}

fn bare_name_list(columns: &Vec<String>) -> (r: Vec<String>)
    ensures
        texts(r@) == bare_names(texts(columns@)),
{
    let mut out: Vec<String> = Vec::new();
    let mut i: usize = 0;
    while i < columns.len()
        invariant
            i <= columns@.len(),
            out@.len() == i,
            forall|j: int| 0 <= j < i ==> (#[trigger] out@[j])@ == lower(unqualified(columns@[j]@)),
        decreases columns@.len() - i,
    {
        let bare = unqualify(columns[i].as_str());
        out.push(lower_text(bare.as_str()));
        i = i + 1;
    }
    assert(texts(out@) =~= bare_names(texts(columns@)));
    out
}

fn shared_name_list(names: &Vec<String>, others: &Vec<String>) -> (r: Vec<String>)
    ensures
        texts(r@) == shared_names(texts(names@), texts(others@)),
{
    let ghost all = texts(names@);
    let mut out: Vec<String> = Vec::new();
    let mut i: usize = 0;
    assert(all.take(0) =~= Seq::<Seq<char>>::empty());
    assert(texts(out@) =~= Seq::<Seq<char>>::empty());
    while i < names.len()
        invariant
            i <= names@.len(),
            all == texts(names@),
            texts(out@) == shared_names(all.take(i as int), texts(others@)),
        decreases names@.len() - i,
    {
        assert(all.take(i + 1).drop_last() =~= all.take(i as int));
        assert(all.take(i + 1).last() == names@[i as int]@);
        let ghost before = out@;
        if text_in(others, names[i].as_str()) {
            out.push(names[i].clone());
            assert(texts(out@) =~= texts(before).push(names@[i as int]@));
        }
        i = i + 1;
    }
    assert(all.take(i as int) =~= all);
    out
}

/// Pairs of positions as integers.
pub open spec fn pair_ints(s: Seq<(usize, usize)>) -> Seq<(int, int)> {
    Seq::new(s.len(), |i: int| (s[i].0 as int, s[i].1 as int))
}

/// The positions of the columns that a `USING` or `NATURAL` join matches, in a
/// row that joins both sides.
pub fn named_pairs(
    natural: bool,
    using: &Vec<String>,
    left: &Vec<String>,
    right: &Vec<String>,
) -> (r: Vec<(usize, usize)>)
    requires
        left@.len() + right@.len() <= usize::MAX,
    ensures
        pair_ints(r@) == name_pairs(
            matched_names(natural, texts(using@), texts(left@), texts(right@)),
            texts(left@),
            texts(right@),
        ),
{
    let l = bare_name_list(left);
    let r = bare_name_list(right);
    assert(texts(l@).len() == left@.len());
    assert(texts(r@).len() == right@.len());
    let names = if natural {
        shared_name_list(&l, &r)
    } else {
        let mut out: Vec<String> = Vec::new();
        let mut i: usize = 0;
        while i < using.len()
            invariant
                i <= using@.len(),
                out@.len() == i,
                forall|j: int| 0 <= j < i ==> (#[trigger] out@[j])@ == lower(using@[j]@),
            decreases using@.len() - i,
        {
            out.push(lower_text(using[i].as_str()));
            i = i + 1;
        }
        assert(texts(out@) =~= Seq::new(texts(using@).len(), |i: int| lower(texts(using@)[i])));
        out
    };
    let ghost all = texts(names@);
    assert(all == matched_names(natural, texts(using@), texts(left@), texts(right@)));
    let mut out: Vec<(usize, usize)> = Vec::new();
    let mut i: usize = 0;
    assert(all.take(0) =~= Seq::<Seq<char>>::empty());
    assert(pair_ints(out@) =~= Seq::<(int, int)>::empty());
    while i < names.len()
        invariant
            i <= names@.len(),
            all == texts(names@),
            texts(l@) == bare_names(texts(left@)),
            texts(r@) == bare_names(texts(right@)),
            l@.len() == left@.len(),
            r@.len() == right@.len(),
            left@.len() + right@.len() <= usize::MAX,
            pair_ints(out@) == name_pairs(all.take(i as int), texts(left@), texts(right@)),
        decreases names@.len() - i,
    {
        assert(all.take(i + 1).drop_last() =~= all.take(i as int));
        assert(all.take(i + 1).last() == names@[i as int]@);
        let ghost before = out@;
        let a = position_of(&l, names[i].as_str());
        let b = position_of(&r, names[i].as_str());
        if let (Some(x), Some(y)) = (a, b) {
            out.push((x, left.len() + y));
            assert(pair_ints(out@) =~= pair_ints(before).push((x as int, left@.len() + y)));
        }
        i = i + 1;
    }
    assert(all.take(i as int) =~= all);
    out
}

// ---------------------------------------------------------------------------
// Pairing rows
// ---------------------------------------------------------------------------

/// The rows that each left row is paired with.
pub enum RightSide<'a> {
    /// The same rows for every left row.
    Shared(&'a Vec<Vec<Value>>),
    /// For each left row its own.
    PerRow(&'a Vec<Vec<Vec<Value>>>),
}

/// What a [`RightSide`] stands for.
#[verifier::ext_equal]
pub enum Side {
    Shared(Seq<Seq<Val>>),
    PerRow(Seq<Seq<Seq<Val>>>),
}

impl<'a> View for RightSide<'a> {
    type V = Side;

    open spec fn view(&self) -> Side {
        match *self {
            RightSide::Shared(rows) => Side::Shared(rows_view(rows@)),
            RightSide::PerRow(lists) => Side::PerRow(groups_view(lists@)),
        }
    }
}

/// The rows that the left row at `i` is paired with.
pub open spec fn right_rows(right: Side, i: int) -> Seq<Seq<Val>> {
    match right {
        Side::Shared(rows) => rows,
        Side::PerRow(lists) => if 0 <= i < lists.len() {
            lists[i]
        } else {
            Seq::empty()
        },
    }
}

/// A left row joined with each of its right rows.
pub open spec fn pairings(left: Seq<Val>, right: Seq<Seq<Val>>) -> Seq<Seq<Val>> {
    Seq::new(right.len(), |j: int| left + right[j])
}

/// The first `n` left rows, each joined with each of its right rows.
pub open spec fn pairs_upto(left: Seq<Seq<Val>>, right: Side, n: nat) -> Seq<Seq<Val>>
    decreases n,
{
    if n == 0 {
        Seq::empty()
    } else {
        pairs_upto(left, right, (n - 1) as nat) + pairings(left[n - 1], right_rows(right, n - 1))
    }
}

/// What a left row contributes: the pairs that match, or, when it is to be
/// kept without a match, itself beside NULLs.
pub open spec fn contribution(
    left: Seq<Val>,
    right: Seq<Seq<Val>>,
    verdicts: Seq<Val>,
    keep: bool,
    width: nat,
) -> Seq<Seq<Val>> {
    let hits = passing(pairings(left, right), verdicts);
    if hits.len() == 0 && keep {
        seq![left + nulls(width)]
    } else {
        hits
    }
}

/// What the first `n` left rows contribute, given a verdict for each pair.
pub open spec fn joined_upto(
    left: Seq<Seq<Val>>,
    right: Side,
    verdicts: Seq<Val>,
    keep: bool,
    width: nat,
    n: nat,
) -> Seq<Seq<Val>>
    decreases n,
{
    if n == 0 {
        Seq::empty()
    } else {
        let m = (n - 1) as nat;
        joined_upto(left, right, verdicts, keep, width, m) + contribution(
            left[m as int],
            right_rows(right, m as int),
            verdicts.skip(pairs_upto(left, right, m).len() as int),
            keep,
            width,
        )
    }
}

fn rows_right_of<'a>(right: &RightSide<'a>, i: usize) -> (r: Option<&'a Vec<Vec<Value>>>)
    ensures
        match r {
            Some(rows) => rows_view(rows@) == right_rows(right@, i as int),
            None => right_rows(right@, i as int).len() == 0,
        },
{
    match right {
        RightSide::Shared(rows) => Some(*rows),
        RightSide::PerRow(lists) => if i < lists.len() {
            Some(&lists[i])
        } else {
            None
        },
    }
}

fn push_pairs(out: &mut Vec<Vec<Value>>, left: &Vec<Value>, right: &Vec<Vec<Value>>)
    ensures
        rows_view(final(out)@) == rows_view(old(out)@) + pairings(
            vals(left@),
            rows_view(right@),
        ),
{
    let ghost start = rows_view(out@);
    let ghost all = pairings(vals(left@), rows_view(right@));
    let mut j: usize = 0;
    assert(start + all.take(0) =~= start);
    while j < right.len()
        invariant
            j <= right@.len(),
            all == pairings(vals(left@), rows_view(right@)),
            rows_view(out@) == start + all.take(j as int),
        decreases right@.len() - j,
    {
        let ghost before = out@;
        let row = concat_rows(left, &right[j]);
        assert(all[j as int] == vals(row@));
        out.push(row);
        assert(rows_view(out@) =~= rows_view(before).push(vals(row@)));
        j = j + 1;
        assert(start + all.take(j as int) =~= (start + all.take(j - 1)).push(all[j - 1]));
    }
    assert(all.take(j as int) =~= all);
}

/// Every left row joined with each of its right rows.
pub fn all_pairs(left: &Vec<Vec<Value>>, right: &RightSide) -> (r: Vec<Vec<Value>>)
    ensures
        rows_view(r@) == pairs_upto(rows_view(left@), right@, left@.len()),
{
    let ghost view = rows_view(left@);
    let mut out: Vec<Vec<Value>> = Vec::new();
    let mut i: usize = 0;
    assert(rows_view(out@) =~= Seq::<Seq<Val>>::empty());
    while i < left.len()
        invariant
            i <= left@.len(),
            view == rows_view(left@),
            rows_view(out@) == pairs_upto(view, right@, i as nat),
        decreases left@.len() - i,
    {
        assert(view[i as int] == vals(left@[i as int]@));
        match rows_right_of(right, i) {
            Some(rows) => {
                push_pairs(&mut out, &left[i], rows);
            },
            None => {
                assert(pairings(view[i as int], right_rows(right@, i as int)) =~= Seq::<
                    Seq<Val>,
                >::empty());
                assert(rows_view(out@) + Seq::<Seq<Val>>::empty() =~= rows_view(out@));
            },
        }
        i = i + 1;
    }
    out
}

proof fn lemma_pairs_grow(left: Seq<Seq<Val>>, right: Side, m: nat, n: nat)
    requires
        m <= n,
    ensures
        pairs_upto(left, right, m).len() <= pairs_upto(left, right, n).len(),
    decreases n,
{
    if m < n {
        lemma_pairs_grow(left, right, m, (n - 1) as nat);
    }
}

fn push_contribution(
    out: &mut Vec<Vec<Value>>,
    left: &Vec<Value>,
    right: &Vec<Vec<Value>>,
    verdicts: &Vec<Value>,
    base: usize,
    keep: bool,
    width: usize,
)
    requires
        base + right@.len() <= verdicts@.len(),
    ensures
        rows_view(final(out)@) == rows_view(old(out)@) + contribution(
            vals(left@),
            rows_view(right@),
            vals(verdicts@).skip(base as int),
            keep,
            width as nat,
        ),
{
    let ghost start = rows_view(out@);
    let ghost all = pairings(vals(left@), rows_view(right@));
    let ghost marks = vals(verdicts@).skip(base as int);
    let ghost hits = Seq::<Seq<Val>>::empty();
    let total: usize = verdicts.len();
    let mut matched: bool = false;
    let mut j: usize = 0;
    assert(all.take(0) =~= Seq::<Seq<Val>>::empty());
    assert(rows_view(out@) =~= start + hits);
    while j < right.len()
        invariant
            j <= right@.len(),
            base + right@.len() <= verdicts@.len() == total,
            all == pairings(vals(left@), rows_view(right@)),
            marks == vals(verdicts@).skip(base as int),
            hits == passing(all.take(j as int), marks),
            rows_view(out@) == start + hits,
            matched == (hits.len() > 0),
        decreases right@.len() - j,
    {
        let ghost before = out@;
        assert(all.take(j + 1).drop_last() =~= all.take(j as int));
        assert(all.take(j + 1).last() == all[j as int]);
        assert(cell(marks, j as int) == verdicts@[base + j]@);
        if value_is_true(&verdicts[base + j]) {
            let row = concat_rows(left, &right[j]);
            assert(all[j as int] == vals(row@));
            out.push(row);
            matched = true;
            proof {
                assert(rows_view(out@) =~= rows_view(before).push(all[j as int]));
                hits = hits.push(all[j as int]);
                assert(rows_view(out@) =~= start + hits);
            }
        }
        j = j + 1;
    }
    assert(all.take(j as int) =~= all);
    if !matched && keep {
        let ghost before = out@;
        let row = concat_rows(left, &null_row(width));
        out.push(row);
        assert(rows_view(out@) =~= rows_view(before).push(vals(row@)));
        assert(rows_view(out@) =~= start + seq![vals(left@) + nulls(width as nat)]);
    }
}

/// What the left rows contribute, given a verdict for each pair.
pub fn join_rows(
    left: &Vec<Vec<Value>>,
    right: &RightSide,
    verdicts: &Vec<Value>,
    keep: bool,
    width: usize,
) -> (r: Vec<Vec<Value>>)
    requires
        verdicts@.len() == pairs_upto(rows_view(left@), right@, left@.len()).len(),
    ensures
        rows_view(r@) == joined_upto(
            rows_view(left@),
            right@,
            vals(verdicts@),
            keep,
            width as nat,
            left@.len(),
        ),
{
    let ghost view = rows_view(left@);
    let ghost marks = vals(verdicts@);
    let total: usize = verdicts.len();
    let mut out: Vec<Vec<Value>> = Vec::new();
    let mut base: usize = 0;
    let mut i: usize = 0;
    let empty: Vec<Vec<Value>> = Vec::new();
    assert(rows_view(empty@) =~= Seq::<Seq<Val>>::empty());
    assert(rows_view(out@) =~= Seq::<Seq<Val>>::empty());
    while i < left.len()
        invariant
            i <= left@.len(),
            view == rows_view(left@),
            marks == vals(verdicts@),
            total == verdicts@.len(),
            empty@.len() == 0,
            rows_view(empty@) == Seq::<Seq<Val>>::empty(),
            verdicts@.len() == pairs_upto(view, right@, left@.len()).len(),
            base == pairs_upto(view, right@, i as nat).len(),
            rows_view(out@) == joined_upto(view, right@, marks, keep, width as nat, i as nat),
        decreases left@.len() - i,
    {
        assert(view[i as int] == vals(left@[i as int]@));
        let rows: &Vec<Vec<Value>> = match rows_right_of(right, i) {
            Some(rows) => rows,
            None => &empty,
        };
        assert(rows_view(rows@) =~= right_rows(right@, i as int));
        assert(rows_view(rows@).len() == rows@.len());
        proof {
            lemma_pairs_grow(view, right@, (i + 1) as nat, left@.len());
            assert(pairs_upto(view, right@, (i + 1) as nat).len() == base + rows@.len());
        }
        push_contribution(&mut out, &left[i], rows, verdicts, base, keep, width);
        base = base + rows.len();
        i = i + 1;
    }
    out
}

/// Whether one of the first `n` left rows matches the right row at `j`.
pub open spec fn right_matched(
    left: Seq<Seq<Val>>,
    right: Side,
    verdicts: Seq<Val>,
    j: int,
    n: nat,
) -> bool
    decreases n,
{
    n > 0 && (right_matched(left, right, verdicts, j, (n - 1) as nat) || is_true(
        cell(verdicts, pairs_upto(left, right, (n - 1) as nat).len() + j),
    ))
}

/// The first `m` right rows that no left row matches, each beside NULLs.
pub open spec fn unmatched_right(
    left: Seq<Seq<Val>>,
    right: Side,
    verdicts: Seq<Val>,
    width: nat,
    m: nat,
) -> Seq<Seq<Val>>
    decreases m,
{
    if m == 0 {
        Seq::empty()
    } else {
        let rest = unmatched_right(left, right, verdicts, width, (m - 1) as nat);
        if right_matched(left, right, verdicts, m - 1, left.len()) {
            rest
        } else {
            rest.push(nulls(width) + right_rows(right, 0)[m - 1])
        }
    }
}

fn is_right_matched(
    left: &Vec<Vec<Value>>,
    rows: &Vec<Vec<Value>>,
    verdicts: &Vec<Value>,
    j: usize,
) -> (r: bool)
    requires
        j < rows@.len(),
        verdicts@.len() == pairs_upto(
            rows_view(left@),
            Side::Shared(rows_view(rows@)),
            left@.len(),
        ).len(),
    ensures
        r == right_matched(
            rows_view(left@),
            Side::Shared(rows_view(rows@)),
            vals(verdicts@),
            j as int,
            left@.len(),
        ),
{
    let ghost view = rows_view(left@);
    let ghost right = Side::Shared(rows_view(rows@));
    let ghost marks = vals(verdicts@);
    let total: usize = verdicts.len();
    let mut base: usize = 0;
    let mut i: usize = 0;
    let mut found: bool = false;
    while i < left.len()
        invariant
            i <= left@.len(),
            j < rows@.len(),
            total == verdicts@.len(),
            view == rows_view(left@),
            right == Side::Shared(rows_view(rows@)),
            marks == vals(verdicts@),
            verdicts@.len() == pairs_upto(view, right, left@.len()).len(),
            base == pairs_upto(view, right, i as nat).len(),
            found == right_matched(view, right, marks, j as int, i as nat),
        decreases left@.len() - i,
    {
        proof {
            lemma_pairs_grow(view, right, (i + 1) as nat, left@.len());
            assert(right_rows(right, i as int).len() == rows@.len());
            assert(pairs_upto(view, right, (i + 1) as nat).len() == base + rows@.len());
        }
        assert(cell(marks, base + j) == verdicts@[base + j]@);
        if value_is_true(&verdicts[base + j]) {
            found = true;
        }
        base = base + rows.len();
        i = i + 1;
    }
    found
}

/// The right rows that no left row matches, each beside NULLs.
pub fn unmatched_rows(
    left: &Vec<Vec<Value>>,
    rows: &Vec<Vec<Value>>,
    verdicts: &Vec<Value>,
    width: usize,
) -> (r: Vec<Vec<Value>>)
    requires
        verdicts@.len() == pairs_upto(
            rows_view(left@),
            Side::Shared(rows_view(rows@)),
            left@.len(),
        ).len(),
    ensures
        rows_view(r@) == unmatched_right(
            rows_view(left@),
            Side::Shared(rows_view(rows@)),
            vals(verdicts@),
            width as nat,
            rows@.len(),
        ),
{
    let ghost view = rows_view(left@);
    let ghost right = Side::Shared(rows_view(rows@));
    let ghost marks = vals(verdicts@);
    let mut out: Vec<Vec<Value>> = Vec::new();
    let mut j: usize = 0;
    assert(rows_view(out@) =~= Seq::<Seq<Val>>::empty());
    while j < rows.len()
        invariant
            j <= rows@.len(),
            view == rows_view(left@),
            right == Side::Shared(rows_view(rows@)),
            marks == vals(verdicts@),
            verdicts@.len() == pairs_upto(view, right, left@.len()).len(),
            rows_view(out@) == unmatched_right(view, right, marks, width as nat, j as nat),
        decreases rows@.len() - j,
    {
        assert(right_rows(right, 0)[j as int] == vals(rows@[j as int]@));
        if !is_right_matched(left, rows, verdicts, j) {
            let ghost before = out@;
            let row = concat_rows(&null_row(width), &rows[j]);
            out.push(row);
            assert(rows_view(out@) =~= rows_view(before).push(vals(row@)));
        }
        j = j + 1;
    }
    out
}

// ---------------------------------------------------------------------------
// Verdicts
// ---------------------------------------------------------------------------

/// Whether a joined row's columns are equal in every pair from the `i`-th on.
pub open spec fn pairs_equal(row: Seq<Val>, pairs: Seq<(int, int)>, i: int, k: Known) -> Result<
    bool,
    Stop,
>
    decreases pairs.len() - i,
{
    if i < 0 || i >= pairs.len() {
        Ok(true)
    } else {
        match equal_values(cell(row, pairs[i].0), cell(row, pairs[i].1), k) {
            Err(s) => Err(s),
            Ok(b) => if b {
                pairs_equal(row, pairs, i + 1, k)
            } else {
                Ok(false)
            },
        }
    }
}

/// Whether each of the rows has equal columns in every pair.
pub open spec fn equality_verdicts(rows: Seq<Seq<Val>>, pairs: Seq<(int, int)>, k: Known) -> Result<
    Seq<Val>,
    Stop,
>
    decreases rows.len(),
{
    if rows.len() == 0 {
        Ok(Seq::empty())
    } else {
        match equality_verdicts(rows.drop_last(), pairs, k) {
            Err(s) => Err(s),
            Ok(done) => match pairs_equal(rows.last(), pairs, 0, k) {
                Err(s) => Err(s),
                Ok(b) => Ok(done.push(Val::Bool(b))),
            },
        }
    }
}

fn row_pairs_equal(row: &Vec<Value>, pairs: &Vec<(usize, usize)>, facts: &Facts) -> (r: Result<
    bool,
    Halt,
>)
    ensures
        crate::facts::bool_outcome(r) == pairs_equal(vals(row@), pair_ints(pairs@), 0, facts@),
{
    let ghost all = pair_ints(pairs@);
    let mut i: usize = 0;
    while i < pairs.len()
        invariant
            i <= pairs@.len(),
            all == pair_ints(pairs@),
            pairs_equal(vals(row@), all, 0, facts@) == pairs_equal(
                vals(row@),
                all,
                i as int,
                facts@,
            ),
        decreases pairs@.len() - i,
    {
        let a = cell_at(row, pairs[i].0);
        let b = cell_at(row, pairs[i].1);
        match values_equal(&a, &b, facts) {
            Err(h) => {
                return Err(h);
            },
            Ok(same) => {
                if !same {
                    return Ok(false);
                }
            },
        }
        i = i + 1;
    }
    Ok(true)
}

proof fn lemma_verdicts_fail(rows: Seq<Seq<Val>>, pairs: Seq<(int, int)>, n: int, k: Known)
    requires
        0 <= n <= rows.len(),
        equality_verdicts(rows.take(n), pairs, k) is Err,
    ensures
        equality_verdicts(rows, pairs, k) == equality_verdicts(rows.take(n), pairs, k),
    decreases rows.len(),
{
    if n < rows.len() {
        assert(rows.drop_last().take(n) =~= rows.take(n));
        lemma_verdicts_fail(rows.drop_last(), pairs, n, k);
    } else {
        assert(rows.take(n) =~= rows);
    }
}

fn equality_marks(rows: &Vec<Vec<Value>>, pairs: &Vec<(usize, usize)>, facts: &Facts) -> (r: Result<
    Vec<Value>,
    Halt,
>)
    ensures
        list_outcome(r) == equality_verdicts(rows_view(rows@), pair_ints(pairs@), facts@),
        r is Ok ==> r->Ok_0@.len() == rows@.len(),
{
    let ghost all = rows_view(rows@);
    let ghost want = pair_ints(pairs@);
    let mut out: Vec<Value> = Vec::new();
    let mut i: usize = 0;
    assert(all.take(0) =~= Seq::<Seq<Val>>::empty());
    assert(vals(out@) =~= Seq::<Val>::empty());
    while i < rows.len()
        invariant
            i <= rows@.len(),
            out@.len() == i,
            all == rows_view(rows@),
            want == pair_ints(pairs@),
            equality_verdicts(all.take(i as int), want, facts@) == Ok::<Seq<Val>, Stop>(
                vals(out@),
            ),
        decreases rows@.len() - i,
    {
        assert(all.take(i + 1).drop_last() =~= all.take(i as int));
        assert(all.take(i + 1).last() == vals(rows@[i as int]@));
        match row_pairs_equal(&rows[i], pairs, facts) {
            Err(h) => {
                proof {
                    lemma_verdicts_fail(all, want, i + 1, facts@);
                }
                return Err(h);
            },
            Ok(b) => {
                let ghost before = out@;
                out.push(Value::Bool(b));
                assert(vals(out@) =~= vals(before).push(Val::Bool(b)));
            },
        }
        i = i + 1;
    }
    assert(all.take(i as int) =~= all);
    Ok(out)
}

/// A verdict of true for each of `n` pairs.
pub open spec fn all_true(n: nat) -> Seq<Val> {
    Seq::new(n, |i: int| Val::Bool(true))
}

fn true_marks(n: usize) -> (r: Vec<Value>)
    ensures
        vals(r@) == all_true(n as nat),
        r@.len() == n,
{
    let mut out: Vec<Value> = Vec::new();
    let mut i: usize = 0;
    while i < n
        invariant
            i <= n,
            out@.len() == i,
            forall|j: int| 0 <= j < i ==> (#[trigger] out@[j])@ == Val::Bool(true),
        decreases n - i,
    {
        out.push(Value::Bool(true));
        i = i + 1;
    }
    assert(vals(out@) =~= all_true(n as nat));
    out
}

/// What a condition is judged by, besides the rows: the condition itself, and
/// the types of the columns.
pub open spec fn condition_subject(condition: Val, types: Seq<Seq<char>>) -> Val {
    Val::Array(seq![condition, names_val(types)])
}

/// What a condition is judged by, besides the rows.
pub fn subject_of(condition: Value, types: &Vec<String>) -> (r: Value)
    ensures
        r@ == condition_subject(condition@, texts(types@)),
{
    broadcast use crate::value::group_value_views;

    let ghost c = condition@;
    let parts: Vec<Value> = vec![condition, names_value(types)];
    assert(vals(parts@) =~= seq![c, names_val(texts(types@))]);
    Value::Array(parts)
}

/// A condition's verdict on each row; a missing condition holds on every row.
pub open spec fn condition_verdicts(
    condition: Option<FilterExpr>,
    columns: Seq<Seq<char>>,
    types: Seq<Seq<char>>,
    rows: Seq<Seq<Val>>,
    k: Known,
) -> Result<Seq<Val>, Stop> {
    match condition {
        Some(f) => row_answers(
            TaskView::Conditions,
            condition_subject(filter_code(f), types),
            columns,
            rows,
            k,
        ),
        None => Ok(all_true(rows.len())),
    }
}

/// The verdict of a condition on each row.
pub fn condition_marks(
    condition: &Option<FilterExpr>,
    columns: &Vec<String>,
    types: &Vec<String>,
    rows: &Vec<Vec<Value>>,
    facts: &Facts,
) -> (r: Result<Vec<Value>, Halt>)
    ensures
        list_outcome(r) == condition_verdicts(
            *condition,
            texts(columns@),
            texts(types@),
            rows_view(rows@),
            facts@,
        ),
        r is Ok ==> r->Ok_0@.len() == rows@.len(),
{
    match condition {
        Some(f) => ask_rows(
            Task::Conditions,
            subject_of(code_of_filter(f), types),
            columns,
            rows,
            facts,
        ),
        None => {
            assert(rows_view(rows@).len() == rows@.len());
            Ok(true_marks(rows.len()))
        },
    }
}

/// Whether the columns exist that the parts of a query refer to: columns'
/// names, expressions, and conditions.
pub open spec fn columns_checked(parts: Seq<Val>, columns: Seq<Seq<char>>, k: Known) -> Result<
    (),
    Stop,
> {
    match asked(k, on_two(TaskView::CheckColumns, Val::Array(parts), names_val(columns))) {
        Ok(_) => Ok(()),
        Err(s) => Err(s),
    }
}

/// What a result without a value stands for.
pub open spec fn done_outcome(r: Result<(), Halt>) -> Result<(), Stop> {
    match r {
        Ok(_) => Ok(()),
        Err(h) => Err(h@),
    }
}

/// Whether the columns exist that the parts of a query refer to.
pub fn check_columns(parts: Vec<Value>, columns: &Vec<String>, facts: &Facts) -> (r: Result<
    (),
    Halt,
>)
    ensures
        done_outcome(r) == columns_checked(vals(parts@), texts(columns@), facts@),
{
    broadcast use crate::value::group_value_views;

    match facts.ask_two(Task::CheckColumns, &Value::Array(parts), &names_value(columns)) {
        Ok(_) => Ok(()),
        Err(h) => Err(h),
    }
}

/// Whether the columns exist that a condition refers to.
pub open spec fn condition_checked(
    condition: Option<FilterExpr>,
    columns: Seq<Seq<char>>,
    k: Known,
) -> Result<(), Stop> {
    match condition {
        Some(f) => columns_checked(seq![filter_code(f)], columns, k),
        None => Ok(()),
    }
}

/// Whether the columns exist that a condition refers to.
pub fn check_condition(condition: &Option<FilterExpr>, columns: &Vec<String>, facts: &Facts) -> (r:
    Result<(), Halt>)
    ensures
        done_outcome(r) == condition_checked(*condition, texts(columns@), facts@),
{
    match condition {
        Some(f) => {
            let parts: Vec<Value> = vec![code_of_filter(f)];
            assert(vals(parts@) =~= seq![filter_code(*f)]);
            check_columns(parts, columns, facts)
        },
        None => Ok(()),
    }
}

// ---------------------------------------------------------------------------
// Joins
// ---------------------------------------------------------------------------

/// Whether a join matches columns by name.
pub open spec fn matches_by_name(join: Join) -> bool {
    join.natural || join.using_columns@.len() > 0
}

/// Whether a join keeps left rows without a match.
pub open spec fn keeps_left(t: JoinType) -> bool {
    t == JoinType::LeftOuter || t == JoinType::FullOuter
}

/// Whether a join keeps right rows without a match.
pub open spec fn keeps_right(t: JoinType) -> bool {
    t == JoinType::RightOuter || t == JoinType::FullOuter
}

/// The rows of `left` joined with those of `right`, under both their columns.
/// `lenient` leaves references to missing columns be.
pub open spec fn joined(
    left: Rel,
    join: Join,
    right: Rel,
    lenient: bool,
    k: Known,
) -> Result<Rel, Stop> {
    let prefix = relation_name(join.table_alias, join.table_name);
    let source = sourced(prefix, right.columns, right.types, right.rows);
    let columns = left.columns + source.columns;
    let side = Side::Shared(right.rows);
    let pairs = pairs_upto(left.rows, side, left.rows.len());
    let types = left.types + source.types;
    let checked = if lenient {
        Ok(())
    } else {
        condition_checked(join.condition, columns, k)
    };
    match checked {
        Err(s) => Err(s),
        Ok(_) => {
            let verdicts = if matches_by_name(join) {
                equality_verdicts(
                    pairs,
                    name_pairs(
                        matched_names(
                            join.natural,
                            texts(join.using_columns@),
                            left.columns,
                            source.columns,
                        ),
                        left.columns,
                        source.columns,
                    ),
                    k,
                )
            } else {
                condition_verdicts(join.condition, columns, types, pairs, k)
            };
            match verdicts {
                Err(s) => Err(s),
                Ok(marks) => {
                    let rows = joined_upto(
                        left.rows,
                        side,
                        marks,
                        keeps_left(join.join_type),
                        right.columns.len(),
                        left.rows.len(),
                    );
                    let rest = if keeps_right(join.join_type) {
                        unmatched_right(
                            left.rows,
                            side,
                            marks,
                            left.columns.len(),
                            right.rows.len(),
                        )
                    } else {
                        Seq::empty()
                    };
                    Ok(Rel { columns, types, rows: rows + rest })
                },
            }
        },
    }
}

fn append_rows(out: &mut Vec<Vec<Value>>, more: Vec<Vec<Value>>)
    ensures
        rows_view(final(out)@) == rows_view(old(out)@) + rows_view(more@),
{
    let ghost start = rows_view(out@);
    let ghost all = rows_view(more@);
    let mut i: usize = 0;
    assert(start + all.take(0) =~= start);
    while i < more.len()
        invariant
            i <= more@.len(),
            all == rows_view(more@),
            rows_view(out@) == start + all.take(i as int),
        decreases more@.len() - i,
    {
        let ghost before = out@;
        out.push(clone_values(&more[i]));
        assert(rows_view(out@) =~= rows_view(before).push(all[i as int]));
        i = i + 1;
        assert(start + all.take(i as int) =~= (start + all.take(i - 1)).push(all[i - 1]));
    }
    assert(all.take(i as int) =~= all);
}

/// The rows of `left` joined with those of `right`.
pub fn join_relation(
    left: Relation,
    join: &Join,
    right: &Relation,
    lenient: bool,
    facts: &Facts,
) -> (r: Result<Relation, Halt>)
    ensures
        relation_outcome(r) == joined(left@, *join, right@, lenient, facts@),
{
    let prefix = name_of(&join.table_alias, &join.table_name);
    let right_columns = prefix_names(prefix, &right.columns);
    let right_types = pad_types(&right.types, right.columns.len());
    let columns = concat_texts(&left.columns, &right_columns);
    let types = concat_texts(&left.types, &right_types);
    let width: usize = columns.len();
    assert(texts(columns@).len() == width);
    if !lenient {
        match check_condition(&join.condition, &columns, facts) {
            Ok(_) => {},
            Err(h) => {
                return Err(h);
            },
        }
    }
    let side = RightSide::Shared(&right.rows);
    let pairs = all_pairs(&left.rows, &side);
    assert(rows_view(pairs@).len() == pairs@.len());
    assert(texts(right_columns@).len() == right.columns@.len());
    let marks = if join.natural || join.using_columns.len() > 0 {
        let at = named_pairs(join.natural, &join.using_columns, &left.columns, &right_columns);
        equality_marks(&pairs, &at, facts)
    } else {
        condition_marks(&join.condition, &columns, &types, &pairs, facts)
    };
    let marks = match marks {
        Ok(m) => m,
        Err(h) => {
            return Err(h);
        },
    };
    let keep_left: bool = match join.join_type {
        JoinType::LeftOuter | JoinType::FullOuter => true,
        _ => false,
    };
    let keep_right: bool = match join.join_type {
        JoinType::RightOuter | JoinType::FullOuter => true,
        _ => false,
    };
    let mut rows = join_rows(&left.rows, &side, &marks, keep_left, right.columns.len());
    let ghost first = rows_view(rows@);
    if keep_right {
        let rest = unmatched_rows(&left.rows, &right.rows, &marks, left.columns.len());
        append_rows(&mut rows, rest);
    } else {
        assert(first + Seq::<Seq<Val>>::empty() =~= first);
    }
    Ok(Relation { columns, types, rows })
}

/// The rows of `left`, each joined with the rows made for it. With `condition`
/// only the pairs on which the join's condition holds are kept; a left row
/// without one is kept beside NULLs by a left join.
pub open spec fn joined_each(
    left: Rel,
    prefix: Seq<char>,
    join_type: JoinType,
    checked: bool,
    condition: Option<FilterExpr>,
    columns: Seq<Seq<char>>,
    types: Seq<Seq<char>>,
    made: Seq<Seq<Seq<Val>>>,
    k: Known,
) -> Result<Rel, Stop> {
    let source = sourced(prefix, columns, types, Seq::empty());
    let all = left.columns + source.columns;
    let side = Side::PerRow(made);
    let pairs = pairs_upto(left.rows, side, left.rows.len());
    let all_types = left.types + source.types;
    let ready = if checked {
        condition_checked(condition, all, k)
    } else {
        Ok(())
    };
    match ready {
        Err(s) => Err(s),
        Ok(_) => match condition_verdicts(condition, all, all_types, pairs, k) {
            Err(s) => Err(s),
            Ok(marks) => Ok(
                Rel {
                    columns: all,
                    types: all_types,
                    rows: joined_upto(
                        left.rows,
                        side,
                        marks,
                        join_type == JoinType::LeftOuter,
                        columns.len(),
                        left.rows.len(),
                    ),
                },
            ),
        },
    }
}

/// The rows of `left`, each joined with the rows made for it: by a `LATERAL`
/// subquery, or by a table function.
pub fn join_each(
    left: Relation,
    prefix: &str,
    join_type: JoinType,
    checked: bool,
    condition: &Option<FilterExpr>,
    columns: &Vec<String>,
    types: &Vec<String>,
    made: &Vec<Vec<Vec<Value>>>,
    facts: &Facts,
) -> (r: Result<Relation, Halt>)
    ensures
        relation_outcome(r) == joined_each(
            left@,
            prefix@,
            join_type,
            checked,
            *condition,
            texts(columns@),
            texts(types@),
            groups_view(made@),
            facts@,
        ),
{
    let right_columns = prefix_names(prefix, columns);
    let right_types = pad_types(types, columns.len());
    let all = concat_texts(&left.columns, &right_columns);
    let all_types = concat_texts(&left.types, &right_types);
    if checked {
        match check_condition(condition, &all, facts) {
            Ok(_) => {},
            Err(h) => {
                return Err(h);
            },
        }
    }
    let side = RightSide::PerRow(made);
    let pairs = all_pairs(&left.rows, &side);
    assert(rows_view(pairs@).len() == pairs@.len());
    let marks = match condition_marks(condition, &all, &all_types, &pairs, facts) {
        Ok(m) => m,
        Err(h) => {
            return Err(h);
        },
    };
    let keep: bool = match join_type {
        JoinType::LeftOuter => true,
        _ => false,
    };
    let rows = join_rows(&left.rows, &side, &marks, keep, columns.len());
    Ok(Relation { columns: all, types: all_types, rows })
}

// ---------------------------------------------------------------------------
// Laws
// ---------------------------------------------------------------------------

/// A join that keeps unmatched left rows loses none of them: each left row
/// contributes at least one row.
pub proof fn law_left_join_keeps_every_row(
    left: Seq<Seq<Val>>,
    right: Side,
    verdicts: Seq<Val>,
    width: nat,
    n: nat,
)
    ensures
        joined_upto(left, right, verdicts, true, width, n).len() >= n,
    decreases n,
{
    if n > 0 {
        law_left_join_keeps_every_row(left, right, verdicts, width, (n - 1) as nat);
    }
}

/// A join on a condition that holds nowhere, and that keeps no unmatched row,
/// is empty.
pub proof fn law_inner_join_without_match_is_empty(
    left: Seq<Seq<Val>>,
    right: Side,
    verdicts: Seq<Val>,
    width: nat,
    n: nat,
)
    requires
        pairs_upto(left, right, n).len() <= verdicts.len(),
        forall|i: int| 0 <= i < verdicts.len() ==> !is_true(#[trigger] verdicts[i]),
    ensures
        joined_upto(left, right, verdicts, false, width, n).len() == 0,
    decreases n,
{
    if n > 0 {
        let m = (n - 1) as nat;
        law_inner_join_without_match_is_empty(left, right, verdicts, width, m);
        let base = pairs_upto(left, right, m).len() as int;
        lemma_nothing_passes(
            pairings(left[m as int], right_rows(right, m as int)),
            verdicts.skip(base),
            verdicts,
            base,
        );
    }
}

proof fn lemma_nothing_passes(
    rows: Seq<Seq<Val>>,
    marks: Seq<Val>,
    verdicts: Seq<Val>,
    base: int,
)
    requires
        0 <= base <= verdicts.len(),
        marks == verdicts.skip(base),
        forall|i: int| 0 <= i < verdicts.len() ==> !is_true(#[trigger] verdicts[i]),
    ensures
        passing(rows, marks).len() == 0,
    decreases rows.len(),
{
    if rows.len() > 0 {
        lemma_nothing_passes(rows.drop_last(), marks, verdicts, base);
        let i = rows.len() - 1;
        if i < marks.len() {
            assert(marks[i] == verdicts[base + i]);
        }
    }
}

} // verus!
