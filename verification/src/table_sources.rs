//! Where a query reads a stored table from: the schema it is looked up in, the
//! indexes that may stand in for a full scan, and the columns of named queries.
use vstd::prelude::*;
use crate::catalog::{column_with_id, find_column_id, ColumnInfo, IndexInfo, IndexKey};
use crate::join::{pad_types, padded_types, Relation, Rel};
use crate::names::{unqualified, unqualify};
use crate::plan_types::{CompareOp, FilterExpr};
use crate::rows::{row_views, QueryOutput};
use crate::text::{clone_texts, lower, lower_text, same_text, texts};
use crate::value::{clone_values, rows_view, vals, Value};

verus! {

/// The schema that a table is looked up in: a system table's name means the
/// system table, unless another schema is named.
pub open spec fn effective_schema(schema: Seq<char>, system_name: bool) -> Seq<char> {
    if lower(schema) == "public"@ && system_name {
        "pg_catalog"@
    } else {
        schema
    }
}

/// The schema that a table is looked up in. `system_name` tells whether the
/// table's name is that of a system table.
pub fn schema_of_table(schema: &str, system_name: bool) -> (r: String)
    ensures
        r@ == effective_schema(schema@, system_name),
{
    let low = lower_text(schema);
    if same_text(low.as_str(), "public") && system_name {
        "pg_catalog".to_owned()
    } else {
        schema.to_owned()
    }
}

/// The output of a named query as a relation; a column without a type is
/// `VARCHAR`.
pub fn named_relation(out: &QueryOutput) -> (r: Relation)
    ensures
        r@ == (Rel {
            columns: texts(out.columns@),
            types: padded_types(texts(out.types@), out.columns@.len()),
            rows: row_views(out.rows@),
        }),
{
    let mut rows: Vec<Vec<Value>> = Vec::new();
    let mut i: usize = 0;
    while i < out.rows.len()
        invariant
            i <= out.rows@.len(),
            rows@.len() == i,
            forall|j: int| 0 <= j < i ==> vals((#[trigger] rows@[j])@) == out.rows@[j]@,
        decreases out.rows@.len() - i,
    {
        rows.push(clone_values(&out.rows[i].values));
        i = i + 1;
    }
    assert(rows_view(rows@) =~= row_views(out.rows@));
    Relation {
        columns: clone_texts(&out.columns),
        types: pad_types(&out.types, out.columns.len()),
        rows,
    }
}

/// The position of the column of a name, from `i` on.
pub open spec fn column_named(columns: Seq<ColumnInfo>, name: Seq<char>, i: int) -> Option<int>
    decreases columns.len() - i,
{
    if i < 0 || i >= columns.len() {
        None
    } else if columns[i].name@ == name {
        Some(i)
    } else {
        column_named(columns, name, i + 1)
    }
}

fn find_column_named(columns: &Vec<ColumnInfo>, name: &str) -> (r: Option<usize>)
    ensures
        match (r, column_named(columns@, name@, 0)) {
            (Some(a), Some(b)) => a == b && a < columns@.len(),
            (None, None) => true,
            _ => false,
        },
{
    let mut i: usize = 0;
    while i < columns.len()
        invariant
            i <= columns@.len(),
            column_named(columns@, name@, 0) == column_named(columns@, name@, i as int),
        decreases columns@.len() - i,
    {
        if same_text(columns[i].name.as_str(), name) {
            return Some(i);
        }
        i = i + 1;
    }
    None
}

/// Whether an index has a column among its keys.
pub open spec fn has_key_column(keys: Seq<IndexKey>, id: u64) -> bool {
    exists|j: int| 0 <= j < keys.len() && (#[trigger] keys[j]).column_id == id
}

fn is_key_column(keys: &Vec<IndexKey>, id: u64) -> (r: bool)
    ensures
        r == has_key_column(keys@, id),
{
    let mut j: usize = 0;
    while j < keys.len()
        invariant
            j <= keys@.len(),
            forall|i: int| 0 <= i < j ==> (#[trigger] keys@[i]).column_id != id,
        decreases keys@.len() - j,
    {
        if keys[j].column_id == id {
            assert(keys@[j as int].column_id == id);
            return true;
        }
        j = j + 1;
    }
    false
}

/// Which of the first `n` indexes have a column among their keys.
pub open spec fn indexes_on(indexes: Seq<IndexInfo>, id: u64, n: nat) -> Seq<int>
    decreases n,
{
    if n == 0 {
        Seq::empty()
    } else {
        let before = indexes_on(indexes, id, (n - 1) as nat);
        if has_key_column(indexes[n - 1].keys@, id) {
            before.push(n - 1)
        } else {
            before
        }
    }
}

/// The column that a condition compares for equality, if it is just that, and
/// the indexes that may find its rows, in the order they are tried.
pub open spec fn indexed_lookup(
    filter: Option<FilterExpr>,
    columns: Seq<ColumnInfo>,
    indexes: Seq<IndexInfo>,
) -> Option<(int, Seq<int>)> {
    match filter {
        Some(FilterExpr::Predicate(p)) => if p.op == CompareOp::Eq {
            match column_named(columns, unqualified(p.left@), 0) {
                Some(i) => {
                    let id = columns[i].id;
                    Some(
                        (column_with_id(columns, id, 0)->Some_0, indexes_on(indexes, id, indexes.len())),
                    )
                },
                None => None,
            }
        } else {
            None
        },
        _ => None,
    }
}

/// The position of the column that a condition compares for equality, and the
/// positions of the indexes that may find its rows.
pub fn find_indexes(
    filter: &Option<FilterExpr>,
    columns: &Vec<ColumnInfo>,
    indexes: &Vec<IndexInfo>,
) -> (r: Option<(usize, Vec<usize>)>)
    ensures
        match (r, indexed_lookup(*filter, columns@, indexes@)) {
            (Some((a, at)), Some((b, bt))) => a == b && crate::catalog::as_ints(at@) == bt,
            (None, None) => true,
            _ => false,
        },
{
    let name = match filter {
        Some(FilterExpr::Predicate(p)) => {
            if p.op != CompareOp::Eq {
                return None;
            }
            unqualify(p.left.as_str())
        },
        _ => {
            return None;
        },
    };
    let found: usize = match find_column_named(columns, name.as_str()) {
        Some(i) => i,
        None => {
            return None;
        },
    };
    let id: u64 = columns[found].id;
    proof {
        lemma_column_with_id(columns@, id, 0, found as int);
    }
    let position: usize = match find_column_id(columns, id) {
        Some(p) => p,
        None => {
            return None;
        },
    };
    let mut at: Vec<usize> = Vec::new();
    let mut i: usize = 0;
    assert(crate::catalog::as_ints(at@) =~= Seq::<int>::empty());
    while i < indexes.len()
        invariant
            i <= indexes@.len(),
            crate::catalog::as_ints(at@) == indexes_on(indexes@, id, i as nat),
        decreases indexes@.len() - i,
    {
        if is_key_column(&indexes[i].keys, id) {
            let ghost before = at@;
            at.push(i);
            assert(crate::catalog::as_ints(at@) =~= crate::catalog::as_ints(before).push(i as int));
        }
        i = i + 1;
    }
    Some((position, at))
}

proof fn lemma_column_with_id(columns: Seq<ColumnInfo>, id: u64, i: int, at: int)
    requires
        0 <= i <= at < columns.len(),
        columns[at].id == id,
    ensures
        column_with_id(columns, id, i) matches Some(p) && i <= p <= at && columns[p].id == id,
    decreases at - i,
{
    if columns[i].id != id {
        lemma_column_with_id(columns, id, i + 1, at);
    }
}

/// Every index that is tried has the compared column among its keys, and no
/// index that has it is passed over.
pub proof fn law_lookups_use_the_indexes_of_their_column(
    indexes: Seq<IndexInfo>,
    id: u64,
    n: nat,
    i: int,
)
    requires
        n <= indexes.len(),
        0 <= i < n,
    ensures
        indexes_on(indexes, id, n).contains(i) == has_key_column(indexes[i].keys@, id),
    decreases n,
{
    let before = indexes_on(indexes, id, (n - 1) as nat);
    lemma_indexes_below(indexes, id, (n - 1) as nat);
    if i < n - 1 {
        law_lookups_use_the_indexes_of_their_column(indexes, id, (n - 1) as nat, i);
        if before.contains(i) {
            let j = before.index_of(i);
            assert(indexes_on(indexes, id, n)[j] == i);
        }
    } else if has_key_column(indexes[i].keys@, id) {
        assert(indexes_on(indexes, id, n).last() == i);
    }
}

proof fn lemma_indexes_below(indexes: Seq<IndexInfo>, id: u64, n: nat)
    ensures
        forall|j: int|
            0 <= j < indexes_on(indexes, id, n).len() ==> 0 <= #[trigger] indexes_on(
                indexes,
                id,
                n,
            )[j] < n,
    decreases n,
{
    if n > 0 {
        lemma_indexes_below(indexes, id, (n - 1) as nat);
        let all = indexes_on(indexes, id, n);
        let before = indexes_on(indexes, id, (n - 1) as nat);
        assert forall|j: int| 0 <= j < all.len() implies 0 <= #[trigger] all[j] < n by {
            if j < before.len() {
                assert(all[j] == before[j]);
            }
        }
    }
}

} // verus!
