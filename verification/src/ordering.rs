//! Ordering rows by keys.
use vstd::prelude::*;
use crate::facts::{Facts, Halt, Known, Stop};
use crate::render::{
    compare, law_text_rank_is_antisymmetric, law_text_rank_is_transitive, ordered, rank_outcome,
    text_rank, Rank,
};
use crate::value::{rows_view, vals, Val, Value};

verus! {

/// How one key orders rows.
#[derive(Debug, Clone, Copy, PartialEq, Eq, Structural)]
pub enum KeyOrder {
    /// By the order of the values alone.
    Plain,
    /// As an `ORDER BY` key, in the given direction and with NULLs first or
    /// last; without a choice, NULLs sort as larger than any value.
    Directed { ascending: bool, nulls_first: Option<bool> },
}

/// How two cells stand to each other under an `ORDER BY` key.
pub open spec fn cell_rank(
    a: Val,
    b: Val,
    ascending: bool,
    nulls_first: Option<bool>,
    k: Known,
) -> Result<Rank, Stop> {
    let first = match nulls_first {
        Some(f) => f,
        None => !ascending,
    };
    if a == Val::Null && b == Val::Null {
        Ok(Rank::Equal)
    } else if a == Val::Null {
        Ok(
            if first {
                Rank::Less
            } else {
                Rank::Greater
            },
        )
    } else if b == Val::Null {
        Ok(
            if first {
                Rank::Greater
            } else {
                Rank::Less
            },
        )
    } else {
        match ordered(a, b, k) {
            Ok(rank) => Ok(
                if ascending {
                    rank
                } else {
                    rank.flipped()
                },
            ),
            Err(s) => Err(s),
        }
    }
}

/// Compares two cells for an ORDER BY key, honouring the ascending flag and an
/// optional explicit `NULLS FIRST`/`NULLS LAST` override. With no override the
/// default matches PostgreSQL: NULLs sort last on ASC and first on DESC.
pub fn order_cells(
    a: &Value,
    b: &Value,
    ascending: bool,
    nulls_first: Option<bool>,
    facts: &Facts,
) -> (r: Result<Rank, Halt>)
    ensures
        rank_outcome(r) == cell_rank(a@, b@, ascending, nulls_first, facts@),
{
    let a_null: bool = a.is_null();
    let b_null: bool = b.is_null();
    if a_null && b_null {
        return Ok(Rank::Equal);
    }
    if a_null || b_null {
        // PostgreSQL's default treats NULL as larger than every value:
        // last when ascending, first when descending.
        let first: bool = match nulls_first {
            Some(f) => f,
            None => !ascending,
        };
        return Ok(
            if a_null == first {
                Rank::Less
            } else {
                Rank::Greater
            },
        );
    }
    match compare(a, b, facts) {
        Ok(rank) => Ok(
            if ascending {
                rank
            } else {
                rank.reverse()
            },
        ),
        Err(h) => Err(h),
    }
}

/// Swapping the cells flips their rank, where the values' own order does.
pub proof fn law_cell_rank_is_antisymmetric(
    a: Val,
    b: Val,
    ascending: bool,
    nulls_first: Option<bool>,
    k: Known,
)
    requires
        match (ordered(a, b, k), ordered(b, a, k)) {
            (Ok(x), Ok(y)) => y == x.flipped(),
            _ => a == Val::Null || b == Val::Null,
        },
    ensures
        match (
            cell_rank(a, b, ascending, nulls_first, k),
            cell_rank(b, a, ascending, nulls_first, k),
        ) {
            (Ok(x), Ok(y)) => y == x.flipped(),
            _ => false,
        },
{
}

/// Without an explicit choice, NULLs come last in ascending and first in
/// descending order.
pub proof fn law_nulls_sort_as_largest(v: Val, k: Known)
    requires
        v != Val::Null,
    ensures
        cell_rank(Val::Null, v, true, None, k) == Ok::<Rank, Stop>(Rank::Greater),
        cell_rank(Val::Null, v, false, None, k) == Ok::<Rank, Stop>(Rank::Less),
{
}

/// How two cells stand to each other under one key.
pub open spec fn key_rank(a: Val, b: Val, order: KeyOrder, k: Known) -> Result<Rank, Stop> {
    match order {
        KeyOrder::Plain => ordered(a, b, k),
        KeyOrder::Directed { ascending, nulls_first } => cell_rank(
            a,
            b,
            ascending,
            nulls_first,
            k,
        ),
    }
}

/// How two rows of keys stand to each other from key `i` on: the first key
/// that tells them apart decides.
pub open spec fn keys_rank(
    a: Seq<Val>,
    b: Seq<Val>,
    orders: Seq<KeyOrder>,
    i: int,
    k: Known,
) -> Result<Rank, Stop>
    decreases orders.len() - i,
{
    if i < 0 || i >= orders.len() || i >= a.len() || i >= b.len() {
        Ok(Rank::Equal)
    } else {
        match key_rank(a[i], b[i], orders[i], k) {
            Err(s) => Err(s),
            Ok(rank) => if rank != Rank::Equal {
                Ok(rank)
            } else {
                keys_rank(a, b, orders, i + 1, k)
            },
        }
    }
}

/// How two rows of keys stand to each other.
pub fn rank_keys(a: &Vec<Value>, b: &Vec<Value>, orders: &Vec<KeyOrder>, facts: &Facts) -> (r:
    Result<Rank, Halt>)
    ensures
        rank_outcome(r) == keys_rank(vals(a@), vals(b@), orders@, 0, facts@),
{
    let ghost x = vals(a@);
    let ghost y = vals(b@);
    let mut i: usize = 0;
    while i < orders.len() && i < a.len() && i < b.len()
        invariant
            i <= orders@.len(),
            i <= a@.len(),
            i <= b@.len(),
            x == vals(a@),
            y == vals(b@),
            keys_rank(x, y, orders@, 0, facts@) == keys_rank(x, y, orders@, i as int, facts@),
        decreases orders@.len() - i,
    {
        assert(x[i as int] == a@[i as int]@);
        assert(y[i as int] == b@[i as int]@);
        let rank = match orders[i] {
            KeyOrder::Plain => compare(&a[i], &b[i], facts),
            KeyOrder::Directed { ascending, nulls_first } => order_cells(
                &a[i],
                &b[i],
                ascending,
                nulls_first,
                facts,
            ),
        };
        match rank {
            Err(h) => {
                return Err(h);
            },
            Ok(found) => {
                if found != Rank::Equal {
                    return Ok(found);
                }
            },
        }
        i = i + 1;
    }
    Ok(Rank::Equal)
}

// ---------------------------------------------------------------------------
// Stable sorting
// ---------------------------------------------------------------------------

/// Where row `x` goes among the first `j` of the sorted rows `p`: after the
/// last of them that does not come after it.
pub open spec fn slot(
    keys: Seq<Seq<Val>>,
    orders: Seq<KeyOrder>,
    p: Seq<int>,
    x: int,
    j: nat,
    k: Known,
) -> Result<nat, Stop>
    decreases j,
{
    if j == 0 {
        Ok(0)
    } else {
        match keys_rank(keys[p[j - 1]], keys[x], orders, 0, k) {
            Err(s) => Err(s),
            Ok(rank) => if rank == Rank::Greater {
                slot(keys, orders, p, x, (j - 1) as nat, k)
            } else {
                Ok(j)
            },
        }
    }
}

/// The first `n` rows in sorted order, as their positions; rows that the keys
/// do not tell apart keep their order.
pub open spec fn sorted_rows(
    keys: Seq<Seq<Val>>,
    orders: Seq<KeyOrder>,
    n: nat,
    k: Known,
) -> Result<Seq<int>, Stop>
    decreases n,
{
    if n == 0 {
        Ok(Seq::empty())
    } else {
        let x = n - 1;
        match sorted_rows(keys, orders, (n - 1) as nat, k) {
            Err(s) => Err(s),
            Ok(p) => match slot(keys, orders, p, x, p.len(), k) {
                Err(s) => Err(s),
                Ok(at) => Ok(p.insert(at as int, x)),
            },
        }
    }
}

/// Positions as integers.
pub open spec fn positions(s: Seq<usize>) -> Seq<int> {
    Seq::new(s.len(), |i: int| s[i] as int)
}

/// What a positions result stands for.
pub open spec fn positions_outcome(r: Result<Vec<usize>, Halt>) -> Result<Seq<int>, Stop> {
    match r {
        Ok(p) => Ok(positions(p@)),
        Err(h) => Err(h@),
    }
}

proof fn lemma_sort_fails(
    keys: Seq<Seq<Val>>,
    orders: Seq<KeyOrder>,
    n: nat,
    m: nat,
    k: Known,
)
    requires
        n <= m,
        sorted_rows(keys, orders, n, k) is Err,
    ensures
        sorted_rows(keys, orders, m, k) == sorted_rows(keys, orders, n, k),
    decreases m,
{
    if n < m {
        lemma_sort_fails(keys, orders, n, (m - 1) as nat, k);
    }
}

/// Sorting rearranges the rows: every position occurs, and none twice.
pub proof fn law_sort_is_a_permutation(
    keys: Seq<Seq<Val>>,
    orders: Seq<KeyOrder>,
    n: nat,
    k: Known,
)
    requires
        sorted_rows(keys, orders, n, k) is Ok,
    ensures
        ({
            let p = sorted_rows(keys, orders, n, k)->Ok_0;
            &&& p.len() == n
            &&& forall|i: int| 0 <= i < n ==> 0 <= #[trigger] p[i] < n
            &&& forall|i: int, j: int| 0 <= i < j < n ==> p[i] != p[j]
        }),
    decreases n,
{
    if n > 0 {
        law_sort_is_a_permutation(keys, orders, (n - 1) as nat, k);
        let p = sorted_rows(keys, orders, (n - 1) as nat, k)->Ok_0;
        lemma_slot_bound(keys, orders, p, n - 1, p.len(), k);
    }
}

proof fn lemma_slot_bound(
    keys: Seq<Seq<Val>>,
    orders: Seq<KeyOrder>,
    p: Seq<int>,
    x: int,
    j: nat,
    k: Known,
)
    requires
        slot(keys, orders, p, x, j, k) is Ok,
    ensures
        slot(keys, orders, p, x, j, k)->Ok_0 <= j,
    decreases j,
{
    if j > 0 {
        if keys_rank(keys[p[j - 1]], keys[x], orders, 0, k) == Ok::<Rank, Stop>(Rank::Greater) {
            lemma_slot_bound(keys, orders, p, x, (j - 1) as nat, k);
        }
    }
}

/// Whether the keys order the first `n` rows consistently: every two rows are
/// comparable, swapping them flips their rank, and the order is transitive.
pub open spec fn consistent(
    keys: Seq<Seq<Val>>,
    orders: Seq<KeyOrder>,
    n: nat,
    k: Known,
) -> bool {
    &&& forall|x: int, y: int|
        0 <= x < n && 0 <= y < n ==> (#[trigger] keys_rank(keys[x], keys[y], orders, 0, k)) is Ok
    &&& forall|x: int, y: int|
        0 <= x < n && 0 <= y < n ==> (#[trigger] keys_rank(
            keys[y],
            keys[x],
            orders,
            0,
            k,
        ))->Ok_0 == keys_rank(keys[x], keys[y], orders, 0, k)->Ok_0.flipped()
    &&& forall|x: int, y: int, z: int|
        0 <= x < n && 0 <= y < n && 0 <= z < n && (#[trigger] keys_rank(
            keys[x],
            keys[y],
            orders,
            0,
            k,
        ))->Ok_0 != Rank::Greater && (#[trigger] keys_rank(keys[y], keys[z], orders, 0, k))->Ok_0
            != Rank::Greater ==> keys_rank(keys[x], keys[z], orders, 0, k)->Ok_0 != Rank::Greater
}

/// Whether one key orders the first `n` rows consistently.
pub open spec fn column_consistent(
    keys: Seq<Seq<Val>>,
    c: int,
    order: KeyOrder,
    n: nat,
    k: Known,
) -> bool {
    &&& forall|x: int, y: int|
        0 <= x < n && 0 <= y < n ==> (#[trigger] key_rank(
            keys[x][c],
            keys[y][c],
            order,
            k,
        )) is Ok
    &&& forall|x: int, y: int|
        0 <= x < n && 0 <= y < n ==> (#[trigger] key_rank(
            keys[y][c],
            keys[x][c],
            order,
            k,
        ))->Ok_0 == key_rank(keys[x][c], keys[y][c], order, k)->Ok_0.flipped()
    &&& forall|x: int, y: int, z: int|
        0 <= x < n && 0 <= y < n && 0 <= z < n && (#[trigger] key_rank(
            keys[x][c],
            keys[y][c],
            order,
            k,
        ))->Ok_0 != Rank::Greater && (#[trigger] key_rank(keys[y][c], keys[z][c], order, k))->Ok_0
            != Rank::Greater ==> key_rank(keys[x][c], keys[z][c], order, k)->Ok_0 != Rank::Greater
}

proof fn lemma_pair_from(
    keys: Seq<Seq<Val>>,
    orders: Seq<KeyOrder>,
    n: nat,
    x: int,
    y: int,
    i: int,
    k: Known,
)
    requires
        0 <= x < n,
        0 <= y < n,
        0 <= i <= orders.len(),
        forall|c: int|
            0 <= c < orders.len() ==> #[trigger] column_consistent(keys, c, orders[c], n, k),
    ensures
        keys_rank(keys[x], keys[y], orders, i, k) is Ok,
        keys_rank(keys[y], keys[x], orders, i, k)->Ok_0 == keys_rank(
            keys[x],
            keys[y],
            orders,
            i,
            k,
        )->Ok_0.flipped(),
        keys_rank(keys[y], keys[x], orders, i, k) is Ok,
    decreases orders.len() - i,
{
    if i < orders.len() {
        assert(column_consistent(keys, i, orders[i], n, k));
        lemma_pair_from(keys, orders, n, x, y, i + 1, k);
        assert(key_rank(keys[x][i], keys[y][i], orders[i], k) is Ok);
        assert(key_rank(keys[y][i], keys[x][i], orders[i], k) is Ok);
    }
}

proof fn lemma_triple_from(
    keys: Seq<Seq<Val>>,
    orders: Seq<KeyOrder>,
    n: nat,
    x: int,
    y: int,
    z: int,
    i: int,
    k: Known,
)
    requires
        0 <= x < n,
        0 <= y < n,
        0 <= z < n,
        0 <= i <= orders.len(),
        keys[x].len() >= orders.len(),
        keys[y].len() >= orders.len(),
        keys[z].len() >= orders.len(),
        forall|c: int|
            0 <= c < orders.len() ==> #[trigger] column_consistent(keys, c, orders[c], n, k),
        keys_rank(keys[x], keys[y], orders, i, k)->Ok_0 != Rank::Greater,
        keys_rank(keys[y], keys[z], orders, i, k)->Ok_0 != Rank::Greater,
    ensures
        keys_rank(keys[x], keys[z], orders, i, k)->Ok_0 != Rank::Greater,
    decreases orders.len() - i,
{
    if i < orders.len() {
        let order = orders[i];
        assert(column_consistent(keys, i, order, n, k));
        let xy = key_rank(keys[x][i], keys[y][i], order, k);
        let yz = key_rank(keys[y][i], keys[z][i], order, k);
        let xz = key_rank(keys[x][i], keys[z][i], order, k);
        let zx = key_rank(keys[z][i], keys[x][i], order, k);
        let yx = key_rank(keys[y][i], keys[x][i], order, k);
        let zy = key_rank(keys[z][i], keys[y][i], order, k);
        assert(xy is Ok && yz is Ok && xz is Ok);
        assert(yx->Ok_0 == xy->Ok_0.flipped());
        assert(zy->Ok_0 == yz->Ok_0.flipped());
        assert(zx->Ok_0 == xz->Ok_0.flipped());
        assert(xy->Ok_0 != Rank::Greater);
        assert(yz->Ok_0 != Rank::Greater);
        assert(xz->Ok_0 != Rank::Greater);
        if xz->Ok_0 == Rank::Equal {
            assert(yx->Ok_0 != Rank::Greater);
            assert(zy->Ok_0 != Rank::Greater);
            lemma_triple_from(keys, orders, n, x, y, z, i + 1, k);
        }
    }
}

/// Keys that each order the rows consistently do so together.
pub proof fn law_consistent_columns_order_consistently(
    keys: Seq<Seq<Val>>,
    orders: Seq<KeyOrder>,
    n: nat,
    k: Known,
)
    requires
        forall|x: int| 0 <= x < n ==> (#[trigger] keys[x]).len() >= orders.len(),
        forall|c: int|
            0 <= c < orders.len() ==> #[trigger] column_consistent(keys, c, orders[c], n, k),
    ensures
        consistent(keys, orders, n, k),
{
    assert forall|x: int, y: int| 0 <= x < n && 0 <= y < n implies (#[trigger] keys_rank(
        keys[x],
        keys[y],
        orders,
        0,
        k,
    )) is Ok by {
        lemma_pair_from(keys, orders, n, x, y, 0, k);
    }
    assert forall|x: int, y: int| 0 <= x < n && 0 <= y < n implies (#[trigger] keys_rank(
        keys[y],
        keys[x],
        orders,
        0,
        k,
    ))->Ok_0 == keys_rank(keys[x], keys[y], orders, 0, k)->Ok_0.flipped() by {
        lemma_pair_from(keys, orders, n, x, y, 0, k);
    }
    assert forall|x: int, y: int, z: int|
        0 <= x < n && 0 <= y < n && 0 <= z < n && (#[trigger] keys_rank(
            keys[x],
            keys[y],
            orders,
            0,
            k,
        ))->Ok_0 != Rank::Greater && (#[trigger] keys_rank(keys[y], keys[z], orders, 0, k))->Ok_0
            != Rank::Greater implies keys_rank(keys[x], keys[z], orders, 0, k)->Ok_0
        != Rank::Greater by {
        lemma_triple_from(keys, orders, n, x, y, z, 0, k);
    }
}

/// Whether two cells are ordered here: two integers, two booleans, or two
/// texts, and under an `ORDER BY` key also a NULL and any cell.
pub open spec fn is_plain_pair(a: Val, b: Val, order: KeyOrder) -> bool {
    match (a, b) {
        (Val::Int(_), Val::Int(_)) => true,
        (Val::Bool(_), Val::Bool(_)) => true,
        (Val::Text(_), Val::Text(_)) => true,
        _ => order is Directed && (a == Val::Null || b == Val::Null),
    }
}

/// Whether each key of the first `n` rows holds integers, booleans, or texts,
/// or NULLs among them.
pub open spec fn plain_keys(keys: Seq<Seq<Val>>, orders: Seq<KeyOrder>, n: nat) -> bool {
    &&& forall|x: int| 0 <= x < n ==> (#[trigger] keys[x]).len() >= orders.len()
    &&& forall|x: int, y: int, c: int|
        0 <= x < n && 0 <= y < n && 0 <= c < orders.len() ==> is_plain_pair(
            #[trigger] keys[x][c],
            #[trigger] keys[y][c],
            orders[c],
        )
}

proof fn lemma_plain_pair(a: Val, b: Val, order: KeyOrder, k: Known)
    requires
        is_plain_pair(a, b, order),
    ensures
        key_rank(a, b, order, k) is Ok,
        key_rank(b, a, order, k) is Ok,
        key_rank(b, a, order, k)->Ok_0 == key_rank(a, b, order, k)->Ok_0.flipped(),
{
    if let (Val::Text(x), Val::Text(y)) = (a, b) {
        law_text_rank_is_antisymmetric(x, y);
    }
}

proof fn lemma_plain_triple(a: Val, b: Val, c: Val, order: KeyOrder, k: Known)
    requires
        is_plain_pair(a, b, order),
        is_plain_pair(b, c, order),
        is_plain_pair(a, c, order),
        key_rank(a, b, order, k)->Ok_0 != Rank::Greater,
        key_rank(b, c, order, k)->Ok_0 != Rank::Greater,
    ensures
        key_rank(a, c, order, k)->Ok_0 != Rank::Greater,
{
    if let (Val::Text(x), Val::Text(y), Val::Text(z)) = (a, b, c) {
        law_text_rank_is_antisymmetric(x, y);
        law_text_rank_is_antisymmetric(y, z);
        law_text_rank_is_antisymmetric(x, z);
        if text_rank(x, y) == Rank::Less && text_rank(y, z) == Rank::Less {
            law_text_rank_is_transitive(x, y, z);
        }
        if text_rank(z, y) == Rank::Less && text_rank(y, x) == Rank::Less {
            law_text_rank_is_transitive(z, y, x);
        }
    }
}

/// Integers, booleans, and texts, and NULLs among them, order consistently.
pub proof fn law_plain_keys_order_consistently(
    keys: Seq<Seq<Val>>,
    orders: Seq<KeyOrder>,
    n: nat,
    k: Known,
)
    requires
        plain_keys(keys, orders, n),
    ensures
        consistent(keys, orders, n, k),
{
    assert forall|c: int| 0 <= c < orders.len() implies #[trigger] column_consistent(
        keys,
        c,
        orders[c],
        n,
        k,
    ) by {
        let order = orders[c];
        assert forall|x: int, y: int| 0 <= x < n && 0 <= y < n implies (#[trigger] key_rank(
            keys[x][c],
            keys[y][c],
            order,
            k,
        )) is Ok by {
            lemma_plain_pair(keys[x][c], keys[y][c], order, k);
        }
        assert forall|x: int, y: int| 0 <= x < n && 0 <= y < n implies (#[trigger] key_rank(
            keys[y][c],
            keys[x][c],
            order,
            k,
        ))->Ok_0 == key_rank(keys[x][c], keys[y][c], order, k)->Ok_0.flipped() by {
            lemma_plain_pair(keys[x][c], keys[y][c], order, k);
        }
        assert forall|x: int, y: int, z: int|
            0 <= x < n && 0 <= y < n && 0 <= z < n && (#[trigger] key_rank(
                keys[x][c],
                keys[y][c],
                order,
                k,
            ))->Ok_0 != Rank::Greater && (#[trigger] key_rank(
                keys[y][c],
                keys[z][c],
                order,
                k,
            ))->Ok_0 != Rank::Greater implies key_rank(keys[x][c], keys[z][c], order, k)->Ok_0
            != Rank::Greater by {
            lemma_plain_triple(keys[x][c], keys[y][c], keys[z][c], order, k);
        }
    }
    law_consistent_columns_order_consistently(keys, orders, n, k);
}

/// Whether row `x` may stand before row `y` in sorted order: it does not come
/// after it, and if the keys do not tell the two apart it was before it.
pub open spec fn in_order(
    keys: Seq<Seq<Val>>,
    orders: Seq<KeyOrder>,
    x: int,
    y: int,
    k: Known,
) -> bool {
    let rank = keys_rank(keys[x], keys[y], orders, 0, k)->Ok_0;
    rank == Rank::Less || (rank == Rank::Equal && x < y)
}

/// Where the keys order the rows consistently, sorting puts every two rows in
/// order, and keeps the order of those the keys do not tell apart.
pub proof fn law_sort_orders_stably(
    keys: Seq<Seq<Val>>,
    orders: Seq<KeyOrder>,
    n: nat,
    k: Known,
)
    requires
        consistent(keys, orders, n, k),
        sorted_rows(keys, orders, n, k) is Ok,
    ensures
        ({
            let p = sorted_rows(keys, orders, n, k)->Ok_0;
            forall|i: int, j: int|
                0 <= i < j < n ==> in_order(keys, orders, #[trigger] p[i], #[trigger] p[j], k)
        }),
    decreases n,
{
    if n > 0 {
        let m = (n - 1) as nat;
        assert(consistent(keys, orders, m, k));
        law_sort_orders_stably(keys, orders, m, k);
        law_sort_is_a_permutation(keys, orders, m, k);
        let p = sorted_rows(keys, orders, m, k)->Ok_0;
        let x = n - 1;
        let at = slot(keys, orders, p, x, p.len(), k)->Ok_0;
        lemma_slot_bound(keys, orders, p, x, p.len(), k);
        lemma_slot_splits(keys, orders, p, x, p.len(), n, k);
        let q = p.insert(at as int, x);
        assert(q == sorted_rows(keys, orders, n, k)->Ok_0);
        assert forall|i: int, j: int| 0 <= i < j < n implies in_order(
            keys,
            orders,
            #[trigger] q[i],
            #[trigger] q[j],
            k,
        ) by {
            if i < at && j < at {
                assert(q[i] == p[i] && q[j] == p[j]);
            } else if i < at && j == at {
                assert(q[i] == p[i] && q[j] == x);
            } else if i < at {
                assert(q[i] == p[i] && q[j] == p[j - 1]);
            } else if i == at {
                assert(q[i] == x && q[j] == p[j - 1]);
            } else {
                assert(q[i] == p[i - 1] && q[j] == p[j - 1]);
            }
        }
    }
}

/// The slot of a row divides the sorted rows into those that may stand before
/// it and those that come after it.
proof fn lemma_slot_splits(
    keys: Seq<Seq<Val>>,
    orders: Seq<KeyOrder>,
    p: Seq<int>,
    x: int,
    j: nat,
    n: nat,
    k: Known,
)
    requires
        consistent(keys, orders, n, k),
        x == n - 1,
        j <= p.len() == n - 1,
        forall|i: int| 0 <= i < p.len() ==> 0 <= #[trigger] p[i] < x,
        forall|i: int, h: int|
            0 <= i < h < p.len() ==> in_order(keys, orders, #[trigger] p[i], #[trigger] p[h], k),
        forall|i: int|
            j <= i < p.len() ==> keys_rank(keys[#[trigger] p[i]], keys[x], orders, 0, k)->Ok_0
                == Rank::Greater,
        slot(keys, orders, p, x, j, k) is Ok,
    ensures
        ({
            let at = slot(keys, orders, p, x, j, k)->Ok_0;
            &&& forall|i: int|
                0 <= i < at ==> keys_rank(keys[#[trigger] p[i]], keys[x], orders, 0, k)->Ok_0
                    != Rank::Greater
            &&& forall|i: int|
                at <= i < p.len() ==> keys_rank(keys[#[trigger] p[i]], keys[x], orders, 0, k)->Ok_0
                    == Rank::Greater
        }),
    decreases j,
{
    if j > 0 {
        let last = p[j - 1];
        if keys_rank(keys[last], keys[x], orders, 0, k)->Ok_0 == Rank::Greater {
            lemma_slot_splits(keys, orders, p, x, (j - 1) as nat, n, k);
        } else {
            assert forall|i: int| 0 <= i < j implies keys_rank(
                keys[#[trigger] p[i]],
                keys[x],
                orders,
                0,
                k,
            )->Ok_0 != Rank::Greater by {
                if i < j - 1 {
                    assert(in_order(keys, orders, p[i], p[j - 1], k));
                    assert(keys_rank(keys[p[i]], keys[last], orders, 0, k)->Ok_0 != Rank::Greater);
                }
            }
        }
    }
}

/// Sorts rows by their keys, returning their positions in sorted order. The
/// sort is stable.
pub fn sort_by_keys(keys: &Vec<Vec<Value>>, orders: &Vec<KeyOrder>, facts: &Facts) -> (r: Result<
    Vec<usize>,
    Halt,
>)
    ensures
        positions_outcome(r) == sorted_rows(rows_view(keys@), orders@, keys@.len(), facts@),
        r is Ok ==> r->Ok_0@.len() == keys@.len() && forall|i: int|
            0 <= i < keys@.len() ==> (#[trigger] r->Ok_0@[i]) < keys@.len(),
{
    let ghost all = rows_view(keys@);
    let mut p: Vec<usize> = Vec::new();
    let mut n: usize = 0;
    assert(positions(p@) =~= Seq::<int>::empty());
    while n < keys.len()
        invariant
            n <= keys@.len(),
            p@.len() == n,
            all == rows_view(keys@),
            sorted_rows(all, orders@, n as nat, facts@) == Ok::<Seq<int>, Stop>(positions(p@)),
            forall|i: int| 0 <= i < n ==> (#[trigger] p@[i]) < n,
        decreases keys@.len() - n,
    {
        let ghost sorted = positions(p@);
        let mut j: usize = n;
        let mut found: bool = false;
        while j > 0 && !found
            invariant
                j <= n,
                n < keys@.len(),
                p@.len() == n,
                sorted == positions(p@),
                all == rows_view(keys@),
                forall|i: int| 0 <= i < n ==> (#[trigger] p@[i]) < n,
                sorted_rows(all, orders@, n as nat, facts@) == Ok::<Seq<int>, Stop>(sorted),
                !found ==> slot(all, orders@, sorted, n as int, n as nat, facts@) == slot(
                    all,
                    orders@,
                    sorted,
                    n as int,
                    j as nat,
                    facts@,
                ),
                found ==> slot(all, orders@, sorted, n as int, n as nat, facts@) == Ok::<
                    nat,
                    Stop,
                >(j as nat),
            decreases
                j + if found {
                    0int
                } else {
                    1int
                },
        {
            let other: usize = p[j - 1];
            assert(sorted[j - 1] == other as int);
            assert(all[other as int] == vals(keys@[other as int]@));
            assert(all[n as int] == vals(keys@[n as int]@));
            match rank_keys(&keys[other], &keys[n], orders, facts) {
                Err(h) => {
                    proof {
                        lemma_sort_fails(all, orders@, (n + 1) as nat, keys@.len(), facts@);
                    }
                    return Err(h);
                },
                Ok(rank) => {
                    if rank == Rank::Greater {
                        j = j - 1;
                    } else {
                        found = true;
                    }
                },
            }
        }
        p.insert(j, n);
        assert(positions(p@) =~= sorted.insert(j as int, n as int));
        n = n + 1;
    }
    Ok(p)
}

} // verus!
