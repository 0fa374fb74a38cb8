//! Set operations (UNION/INTERSECT/EXCEPT) and literal SELECTs: combining child
//! query results by multiset semantics, and projecting constant rows.
use vstd::prelude::*;
use crate::facts::{Facts, Halt, Known, Stop};
use crate::plan_types::SetOpKind;
use crate::rows::{
    keys_of, lemma_keys_len, row_keys, row_views, QueryOutput, Row,
};
use crate::text::{concat2, decimal, same_text, size_text, texts};
use crate::value::{vals, Val, Value};

verus! {

/// How often a text occurs in a list.
pub open spec fn count(s: Seq<Seq<char>>, x: Seq<char>) -> nat
    decreases s.len(),
{
    if s.len() == 0 {
        0
    } else {
        count(s.drop_last(), x) + (if s.last() == x {
            1nat
        } else {
            0nat
        })
    }
}

/// Which of the left rows an operation keeps.
pub enum Rule {
    /// The first of each key.
    Distinct,
    /// As many of each key as there are on the right.
    IntersectAll,
    /// The first of each key that the right has.
    Intersect,
    /// Those of each key beyond as many as there are on the right.
    ExceptAll,
    /// The first of each key that the right has not.
    Except,
}

/// Whether the row at position `i` is kept, given the keys of both sides.
pub open spec fn keeps(
    rule: Rule,
    keys: Seq<Seq<char>>,
    other: Seq<Seq<char>>,
    i: int,
) -> bool {
    let used = count(keys.take(i), keys[i]);
    let there = count(other, keys[i]);
    match rule {
        Rule::Distinct => used == 0,
        Rule::IntersectAll => used < there,
        Rule::Intersect => used == 0 && there > 0,
        Rule::ExceptAll => used >= there,
        Rule::Except => used == 0 && there == 0,
    }
}

/// The kept ones of the first `n` items, in order.
pub open spec fn chosen<T>(
    s: Seq<T>,
    rule: Rule,
    keys: Seq<Seq<char>>,
    other: Seq<Seq<char>>,
    n: nat,
) -> Seq<T>
    decreases n,
{
    if n == 0 {
        Seq::empty()
    } else {
        let before = chosen(s, rule, keys, other, (n - 1) as nat);
        if keeps(rule, keys, other, n - 1) {
            before.push(s[n - 1])
        } else {
            before
        }
    }
}

fn count_text(v: &Vec<String>, n: usize, x: &str) -> (r: usize)
    requires
        n <= v@.len(),
    ensures
        r == count(texts(v@).take(n as int), x@),
        r <= n,
{
    let ghost all = texts(v@);
    let mut c: usize = 0;
    let mut i: usize = 0;
    assert(all.take(0) =~= Seq::<Seq<char>>::empty());
    while i < n
        invariant
            i <= n <= v@.len(),
            all == texts(v@),
            c == count(all.take(i as int), x@),
            c <= i,
        decreases n - i,
    {
        assert(all.take(i + 1).drop_last() =~= all.take(i as int));
        assert(all.take(i + 1).last() == v@[i as int]@);
        if same_text(v[i].as_str(), x) {
            c = c + 1;
        }
        i = i + 1;
    }
    c
}

fn choose_rows(rows: Vec<Row>, rule: Rule, keys: &Vec<String>, other: &Vec<String>) -> (r: Vec<Row>)
    requires
        rows@.len() == keys@.len(),
    ensures
        row_views(r@) == chosen(
            row_views(rows@),
            rule,
            texts(keys@),
            texts(other@),
            rows@.len(),
        ),
{
    let ghost all = row_views(rows@);
    let mut out: Vec<Row> = Vec::new();
    let mut i: usize = 0;
    assert(row_views(out@) =~= Seq::<Seq<Val>>::empty());
    while i < rows.len()
        invariant
            i <= rows@.len() == keys@.len(),
            all == row_views(rows@),
            row_views(out@) == chosen(all, rule, texts(keys@), texts(other@), i as nat),
        decreases rows@.len() - i,
    {
        assert(texts(keys@)[i as int] == keys@[i as int]@);
        assert(texts(other@).take(other@.len() as int) =~= texts(other@));
        let used: usize = count_text(keys, i, keys[i].as_str());
        let there: usize = count_text(other, other.len(), keys[i].as_str());
        let keep: bool = match rule {
            Rule::Distinct => used == 0,
            Rule::IntersectAll => used < there,
            Rule::Intersect => used == 0 && there > 0,
            Rule::ExceptAll => used >= there,
            Rule::Except => used == 0 && there == 0,
        };
        assert(keep == keeps(rule, texts(keys@), texts(other@), i as int));
        if keep {
            let ghost before = out@;
            out.push(rows[i].duplicate());
            assert(row_views(out@) =~= row_views(before).push(rows@[i as int]@));
        }
        i = i + 1;
    }
    out
}

/// What a rows result stands for.
pub open spec fn rows_outcome(r: Result<Vec<Row>, Halt>) -> Result<Seq<Seq<Val>>, Stop> {
    match r {
        Ok(rows) => Ok(row_views(rows@)),
        Err(h) => Err(h@),
    }
}

/// The first row of each key.
pub open spec fn deduplicated(rows: Seq<Seq<Val>>, k: Known) -> Result<Seq<Seq<Val>>, Stop> {
    match keys_of(rows, k) {
        Ok(keys) => Ok(chosen(rows, Rule::Distinct, keys, Seq::empty(), rows.len())),
        Err(s) => Err(s),
    }
}

/// The first row of each key.
pub fn dedup_rows(rows: Vec<Row>, facts: &Facts) -> (r: Result<Vec<Row>, Halt>)
    ensures
        rows_outcome(r) == deduplicated(row_views(rows@), facts@),
{
    let keys = match row_keys(&rows, facts) {
        Ok(keys) => keys,
        Err(h) => return Err(h),
    };
    let none: Vec<String> = Vec::new();
    assert(texts(none@) =~= Seq::<Seq<char>>::empty());
    Ok(choose_rows(rows, Rule::Distinct, &keys, &none))
}

/// Two row sets combined by SQL set-operation multiset semantics.
pub open spec fn combined(
    op: SetOpKind,
    all: bool,
    left: Seq<Seq<Val>>,
    right: Seq<Seq<Val>>,
    k: Known,
) -> Result<Seq<Seq<Val>>, Stop> {
    match op {
        SetOpKind::Union => if all {
            Ok(left + right)
        } else {
            deduplicated(left + right, k)
        },
        _ => match (keys_of(right, k), keys_of(left, k)) {
            (Err(s), _) => Err(s),
            (Ok(_), Err(s)) => Err(s),
            (Ok(there), Ok(keys)) => Ok(
                chosen(
                    left,
                    match (op, all) {
                        (SetOpKind::Except, true) => Rule::ExceptAll,
                        (SetOpKind::Except, false) => Rule::Except,
                        (_, true) => Rule::IntersectAll,
                        (_, false) => Rule::Intersect,
                    },
                    keys,
                    there,
                    left.len(),
                ),
            ),
        },
    }
}

/// Combines two row sets by SQL set-operation multiset semantics. `ALL` keeps
/// duplicates; otherwise the result is distinct. Column names/types are the
/// caller's responsibility (they come from the left input).
pub fn set_op_rows(op: SetOpKind, all: bool, left: Vec<Row>, right: Vec<Row>, facts: &Facts) -> (r:
    Result<Vec<Row>, Halt>)
    ensures
        rows_outcome(r) == combined(op, all, row_views(left@), row_views(right@), facts@),
{
    let rule = match (op, all) {
        (SetOpKind::Union, _) => {
            let ghost l = row_views(left@);
            let ghost r = row_views(right@);
            let mut out = left;
            let mut more = right;
            let ghost joined = out@ + more@;
            out.append(&mut more);
            assert(out@ =~= joined);
            assert(row_views(out@) =~= l + r);
            return if all {
                Ok(out)
            } else {
                dedup_rows(out, facts)
            };
        },
        (SetOpKind::Except, true) => Rule::ExceptAll,
        (SetOpKind::Except, false) => Rule::Except,
        (SetOpKind::Intersect, true) => Rule::IntersectAll,
        (SetOpKind::Intersect, false) => Rule::Intersect,
    };
    let there = match row_keys(&right, facts) {
        Ok(keys) => keys,
        Err(h) => return Err(h),
    };
    let keys = match row_keys(&left, facts) {
        Ok(keys) => keys,
        Err(h) => return Err(h),
    };
    Ok(choose_rows(left, rule, &keys, &there))
}

/// Combines two results: the rows by set operation, the column names and types
/// of the left one.
pub fn set_op_output(
    op: SetOpKind,
    all: bool,
    left: QueryOutput,
    right: QueryOutput,
    facts: &Facts,
) -> (r: Result<QueryOutput, Halt>)
    ensures
        match (
            r,
            combined(op, all, row_views(left.rows@), row_views(right.rows@), facts@),
        ) {
            (Ok(out), Ok(rows)) => row_views(out.rows@) == rows && out.columns == left.columns
                && out.types == left.types && out.tag == left.tag,
            (Err(h), Err(s)) => h@ == s,
            _ => false,
        },
{
    let QueryOutput { columns, types, rows, tag } = left;
    match set_op_rows(op, all, rows, right.rows, facts) {
        Ok(rows) => Ok(QueryOutput { columns, types, rows, tag }),
        Err(h) => Err(h),
    }
}

// ---------------------------------------------------------------------------
// How often a key is kept
// ---------------------------------------------------------------------------

proof fn lemma_count_push(s: Seq<Seq<char>>, y: Seq<char>, x: Seq<char>)
    ensures
        count(s.push(y), x) == count(s, x) + (if y == x {
            1nat
        } else {
            0nat
        }),
{
    assert(s.push(y).drop_last() =~= s);
}

/// How often a rule keeps a key, given how often both sides have it.
pub open spec fn kept_count(rule: Rule, there: nat, seen: nat) -> nat {
    match rule {
        Rule::Distinct => if seen > 0 {
            1
        } else {
            0
        },
        Rule::IntersectAll => if seen < there {
            seen
        } else {
            there
        },
        Rule::Intersect => if seen > 0 && there > 0 {
            1
        } else {
            0
        },
        Rule::ExceptAll => if seen > there {
            (seen - there) as nat
        } else {
            0
        },
        Rule::Except => if seen > 0 && there == 0 {
            1
        } else {
            0
        },
    }
}

proof fn lemma_chosen_count(
    rule: Rule,
    keys: Seq<Seq<char>>,
    other: Seq<Seq<char>>,
    n: nat,
    x: Seq<char>,
)
    requires
        n <= keys.len(),
    ensures
        count(chosen(keys, rule, keys, other, n), x) == kept_count(
            rule,
            count(other, x),
            count(keys.take(n as int), x),
        ),
    decreases n,
{
    if n == 0 {
        assert(keys.take(0) =~= Seq::<Seq<char>>::empty());
    } else {
        let m = (n - 1) as nat;
        lemma_chosen_count(rule, keys, other, m, x);
        assert(keys.take(n as int) =~= keys.take(m as int).push(keys[m as int]));
        lemma_count_push(keys.take(m as int), keys[m as int], x);
        lemma_count_push(chosen(keys, rule, keys, other, m), keys[m as int], x);
    }
}

/// The keys of the kept rows are the kept keys.
proof fn lemma_chosen_keys(
    rows: Seq<Seq<Val>>,
    rule: Rule,
    keys: Seq<Seq<char>>,
    other: Seq<Seq<char>>,
    n: nat,
    k: Known,
)
    requires
        n <= rows.len(),
        keys_of(rows, k) == Ok::<Seq<Seq<char>>, Stop>(keys),
    ensures
        keys_of(chosen(rows, rule, keys, other, n), k) == Ok::<Seq<Seq<char>>, Stop>(
            chosen(keys, rule, keys, other, n),
        ),
    decreases n,
{
    if n > 0 {
        let m = (n - 1) as nat;
        lemma_chosen_keys(rows, rule, keys, other, m, k);
        lemma_key_at(rows, keys, m as int, k);
        let before = chosen(rows, rule, keys, other, m);
        assert(before.push(rows[m as int]).drop_last() =~= before);
    }
}

proof fn lemma_key_at(rows: Seq<Seq<Val>>, keys: Seq<Seq<char>>, i: int, k: Known)
    requires
        0 <= i < rows.len(),
        keys_of(rows, k) == Ok::<Seq<Seq<char>>, Stop>(keys),
    ensures
        i < keys.len(),
        crate::rows::key_of(rows[i], k) == Ok::<Seq<char>, Stop>(keys[i]),
    decreases rows.len(),
{
    lemma_keys_len(rows, k);
    let before = keys_of(rows.drop_last(), k)->Ok_0;
    lemma_keys_len(rows.drop_last(), k);
    if i < rows.len() - 1 {
        lemma_key_at(rows.drop_last(), before, i, k);
    }
}

/// How often a key occurs in the result of a set operation: as often as in
/// both inputs together (`UNION ALL`), the lesser of the two (`INTERSECT
/// ALL`), or the excess of the left over the right (`EXCEPT ALL`); without
/// `ALL`, once where either, both, or only the left have it.
pub proof fn law_set_operation_counts(
    op: SetOpKind,
    all: bool,
    left: Seq<Seq<Val>>,
    right: Seq<Seq<Val>>,
    k: Known,
    x: Seq<char>,
)
    requires
        keys_of(left, k) is Ok,
        keys_of(right, k) is Ok,
    ensures
        combined(op, all, left, right, k) is Ok,
        keys_of(combined(op, all, left, right, k)->Ok_0, k) is Ok,
        ({
            let l = count(keys_of(left, k)->Ok_0, x);
            let r = count(keys_of(right, k)->Ok_0, x);
            let n = count(keys_of(combined(op, all, left, right, k)->Ok_0, k)->Ok_0, x);
            match op {
                SetOpKind::Union => if all {
                    n == l + r
                } else {
                    n == (if l + r > 0 {
                        1nat
                    } else {
                        0nat
                    })
                },
                SetOpKind::Intersect => if all {
                    n == (if l < r {
                        l
                    } else {
                        r
                    })
                } else {
                    n == (if l > 0 && r > 0 {
                        1nat
                    } else {
                        0nat
                    })
                },
                SetOpKind::Except => if all {
                    n == (if l > r {
                        l - r
                    } else {
                        0
                    })
                } else {
                    n == (if l > 0 && r == 0 {
                        1nat
                    } else {
                        0nat
                    })
                },
            }
        }),
{
    let lk = keys_of(left, k)->Ok_0;
    let rk = keys_of(right, k)->Ok_0;
    lemma_keys_len(left, k);
    lemma_keys_len(right, k);
    match op {
        SetOpKind::Union => {
            lemma_keys_join(left, right, k);
            lemma_count_join(lk, rk, x);
            let keys = lk + rk;
            let rows = left + right;
            lemma_chosen_keys(rows, Rule::Distinct, keys, Seq::empty(), rows.len(), k);
            lemma_chosen_count(Rule::Distinct, keys, Seq::empty(), rows.len(), x);
            assert(keys.take(rows.len() as int) =~= keys);
        },
        _ => {
            let rule = match (op, all) {
                (SetOpKind::Except, true) => Rule::ExceptAll,
                (SetOpKind::Except, false) => Rule::Except,
                (_, true) => Rule::IntersectAll,
                (_, false) => Rule::Intersect,
            };
            lemma_chosen_keys(left, rule, lk, rk, left.len(), k);
            lemma_chosen_count(rule, lk, rk, left.len(), x);
            assert(lk.take(left.len() as int) =~= lk);
        },
    }
}

proof fn lemma_count_join(a: Seq<Seq<char>>, b: Seq<Seq<char>>, x: Seq<char>)
    ensures
        count(a + b, x) == count(a, x) + count(b, x),
    decreases b.len(),
{
    if b.len() == 0 {
        assert(a + b =~= a);
    } else {
        lemma_count_join(a, b.drop_last(), x);
        assert((a + b).drop_last() =~= a + b.drop_last());
        assert((a + b).last() == b.last());
    }
}

proof fn lemma_keys_join(a: Seq<Seq<Val>>, b: Seq<Seq<Val>>, k: Known)
    requires
        keys_of(a, k) is Ok,
        keys_of(b, k) is Ok,
    ensures
        keys_of(a + b, k) == Ok::<Seq<Seq<char>>, Stop>(keys_of(a, k)->Ok_0 + keys_of(b, k)->Ok_0),
    decreases b.len(),
{
    if b.len() == 0 {
        assert(a + b =~= a);
        assert(keys_of(a, k)->Ok_0 + Seq::<Seq<char>>::empty() =~= keys_of(a, k)->Ok_0);
    } else {
        lemma_keys_join(a, b.drop_last(), k);
        assert((a + b).drop_last() =~= a + b.drop_last());
        assert((a + b).last() == b.last());
        let kb = keys_of(b.drop_last(), k)->Ok_0;
        assert(keys_of(a, k)->Ok_0 + kb.push(crate::rows::key_of(b.last(), k)->Ok_0) =~= (keys_of(
            a,
            k,
        )->Ok_0 + kb).push(crate::rows::key_of(b.last(), k)->Ok_0));
    }
}

/// Deduplicating twice is deduplicating once.
pub proof fn law_dedup_is_idempotent(rows: Seq<Seq<Val>>, k: Known)
    requires
        keys_of(rows, k) is Ok,
    ensures
        deduplicated(deduplicated(rows, k)->Ok_0, k) == deduplicated(rows, k),
{
    let keys = keys_of(rows, k)->Ok_0;
    let none = Seq::<Seq<char>>::empty();
    lemma_keys_len(rows, k);
    lemma_chosen_keys(rows, Rule::Distinct, keys, none, rows.len(), k);
    let once = chosen(rows, Rule::Distinct, keys, none, rows.len());
    let once_keys = chosen(keys, Rule::Distinct, keys, none, rows.len());
    lemma_keys_len(once, k);
    assert forall|x: Seq<char>| count(once_keys, x) <= 1 by {
        lemma_chosen_count(Rule::Distinct, keys, none, rows.len(), x);
    }
    lemma_all_kept(once, once_keys, once.len());
    assert(once.take(once.len() as int) =~= once);
}

proof fn lemma_all_kept(rows: Seq<Seq<Val>>, keys: Seq<Seq<char>>, n: nat)
    requires
        rows.len() == keys.len(),
        n <= rows.len(),
        forall|x: Seq<char>| count(keys, x) <= 1,
    ensures
        chosen(rows, Rule::Distinct, keys, Seq::empty(), n) == rows.take(n as int),
    decreases n,
{
    if n == 0 {
        assert(rows.take(0) =~= Seq::<Seq<Val>>::empty());
    } else {
        let m = (n - 1) as nat;
        lemma_all_kept(rows, keys, m);
        let x = keys[m as int];
        assert(keys.take(n as int) =~= keys.take(m as int).push(x));
        lemma_count_push(keys.take(m as int), x, x);
        lemma_count_prefix(keys, n as int, x);
        assert(count(keys, x) <= 1);
        assert(rows.take(n as int) =~= rows.take(m as int).push(rows[m as int]));
    }
}

proof fn lemma_count_prefix(s: Seq<Seq<char>>, n: int, x: Seq<char>)
    requires
        0 <= n <= s.len(),
    ensures
        count(s.take(n), x) <= count(s, x),
    decreases s.len(),
{
    if n == s.len() {
        assert(s.take(n) =~= s);
    } else {
        lemma_count_prefix(s.drop_last(), n, x);
        assert(s.drop_last().take(n) =~= s.take(n));
    }
}

// ---------------------------------------------------------------------------
// Literal SELECTs and scalar subqueries
// ---------------------------------------------------------------------------

/// The type a value of a literal SELECT has without a declared one.
pub open spec fn inferred_type(v: Val) -> Seq<char> {
    match v {
        Val::Int(i) => if i32::MIN <= i <= i32::MAX {
            "INTEGER"@
        } else {
            "BIGINT"@
        },
        Val::Float(_) => "DOUBLE"@,
        Val::Numeric(_) => "NUMERIC"@,
        Val::Bool(_) => "BOOLEAN"@,
        Val::Jsonb(_) => "JSONB"@,
        Val::Text(_) => "TEXT"@,
        _ => "VARCHAR"@,
    }
}

fn infer_type(v: &Value) -> (r: String)
    ensures
        r@ == inferred_type(v@),
{
    match v {
        Value::Int(i) => {
            if *i >= -2147483648 && *i <= 2147483647 {
                "INTEGER".to_owned()
            } else {
                "BIGINT".to_owned()
            }
        },
        Value::Float(_) => "DOUBLE".to_owned(),
        Value::Numeric(_) => "NUMERIC".to_owned(),
        Value::Bool(_) => "BOOLEAN".to_owned(),
        Value::Jsonb(_) => "JSONB".to_owned(),
        Value::Text(_) => "TEXT".to_owned(),
        _ => "VARCHAR".to_owned(),
    }
}

/// A literal SELECT's item: its alias, value, and declared type.
pub struct LiteralItem {
    pub alias: String,
    pub value: Value,
    /// A cast's or function's declared type, which wins over the value's (so
    /// `NULL::int` is int4 and `now()` is timestamptz).
    pub type_hint: Option<String>,
}

/// The type of a literal SELECT's item.
pub open spec fn item_type(item: LiteralItem) -> Seq<char> {
    match item.type_hint {
        Some(t) => t@,
        None => inferred_type(item.value@),
    }
}

/// The tag of a SELECT that returned `n` rows.
pub open spec fn select_tag(n: nat) -> Seq<char> {
    "SELECT "@ + decimal(n as int)
}

/// The tag of a SELECT that returned `n` rows.
pub fn select_tag_text(n: usize) -> (r: String)
    ensures
        r@ == select_tag(n as nat),
{
    let shown = size_text(n);
    concat2("SELECT ", shown.as_str())
}

/// The result of a FROM-less SELECT: one row of its items, or none when its
/// WHERE does not hold.
pub fn select_literal(items: Vec<LiteralItem>, keep: bool) -> (r: QueryOutput)
    ensures
        texts(r.columns@) == Seq::new(items@.len(), |i: int| items@[i].alias@),
        texts(r.types@) == Seq::new(items@.len(), |i: int| item_type(items@[i])),
        row_views(r.rows@) == (if keep {
            seq![Seq::new(items@.len(), |i: int| items@[i].value@)]
        } else {
            Seq::empty()
        }),
        r.tag@ == select_tag(r.rows@.len()),
{
    let mut columns: Vec<String> = Vec::new();
    let mut types: Vec<String> = Vec::new();
    let mut values: Vec<Value> = Vec::new();
    let mut i: usize = 0;
    while i < items.len()
        invariant
            i <= items@.len(),
            columns@.len() == i,
            types@.len() == i,
            values@.len() == i,
            forall|k: int| 0 <= k < i ==> (#[trigger] columns@[k])@ == items@[k].alias@,
            forall|k: int| 0 <= k < i ==> (#[trigger] types@[k])@ == item_type(items@[k]),
            forall|k: int| 0 <= k < i ==> (#[trigger] values@[k])@ == items@[k].value@,
        decreases items@.len() - i,
    {
        let item = &items[i];
        columns.push(item.alias.clone());
        types.push(
            match &item.type_hint {
                Some(t) => t.clone(),
                None => infer_type(&item.value),
            },
        );
        values.push(item.value.duplicate());
        i = i + 1;
    }
    assert(texts(columns@) =~= Seq::new(items@.len(), |i: int| items@[i].alias@));
    assert(texts(types@) =~= Seq::new(items@.len(), |i: int| item_type(items@[i])));
    assert(vals(values@) =~= Seq::new(items@.len(), |i: int| items@[i].value@));
    let mut rows: Vec<Row> = Vec::new();
    if keep {
        let ghost cells = vals(values@);
        rows.push(Row { values });
        assert(row_views(rows@) =~= seq![cells]);
    } else {
        assert(row_views(rows@) =~= Seq::<Seq<Val>>::empty());
    }
    let tag = select_tag_text(rows.len());
    QueryOutput { columns, types, rows, tag }
}

/// The value of a scalar subquery's result: its single column from at most one
/// row, NULL when it returns none.
pub open spec fn subquery_single(out: QueryOutput) -> Result<Val, Seq<char>> {
    if out.columns@.len() != 1 {
        Err("subquery must return only one column"@)
    } else if out.rows@.len() == 0 {
        Ok(Val::Null)
    } else if out.rows@.len() > 1 {
        Err("more than one row returned by a subquery used as an expression"@)
    } else if out.rows@[0]@.len() > 0 {
        Ok(out.rows@[0]@[0])
    } else {
        Ok(Val::Null)
    }
}

/// The value of a scalar subquery's result.
pub fn scalar_subquery_value(out: &QueryOutput) -> (r: Result<Value, String>)
    ensures
        match (r, subquery_single(*out)) {
            (Ok(v), Ok(w)) => v@ == w,
            (Err(m), Err(e)) => m@ == e,
            _ => false,
        },
{
    if out.columns.len() != 1 {
        return Err("subquery must return only one column".to_owned());
    }
    if out.rows.len() == 0 {
        return Ok(Value::Null);
    }
    if out.rows.len() > 1 {
        return Err("more than one row returned by a subquery used as an expression".to_owned());
    }
    let row = &out.rows[0];
    assert(row@.len() == row.values@.len());
    if row.values.len() > 0 {
        assert(row@[0] == row.values@[0]@);
        Ok(row.values[0].duplicate())
    } else {
        Ok(Value::Null)
    }
}

} // verus!
