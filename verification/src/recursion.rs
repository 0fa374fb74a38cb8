//! `WITH RECURSIVE`: running a term to a fixpoint.
//!
//! The seed runs once; the recursive term then runs again and again on the
//! rows of the step before (the working table) until it yields nothing new.
//! UNION drops the rows already there; UNION ALL keeps all rows and relies on
//! the term's own predicate to terminate.
use vstd::prelude::*;
use crate::cells::{are_identical, clone_rows, identical_rows};
use crate::text::{clone_texts, texts};
use crate::value::{clone_values, rows_view, vals, Val, Value};

verus! {

/// The number of steps after which a recursion is given up.
pub const MAX_STEPS: u32 = 10_000;

/// A recursion between two steps.
pub struct Recursion {
    /// The rows accumulated so far.
    pub result: Vec<Vec<Value>>,
    /// The rows of the last step, which the next one reads.
    pub working: Vec<Vec<Value>>,
    /// The number of steps begun.
    pub steps: u32,
}

/// What a [`Recursion`] stands for.
#[verifier::ext_equal]
pub struct RecursionView {
    pub result: Seq<Seq<Val>>,
    pub working: Seq<Seq<Val>>,
    pub steps: u32,
}

impl View for Recursion {
    type V = RecursionView;

    open spec fn view(&self) -> RecursionView {
        RecursionView {
            result: rows_view(self.result@),
            working: rows_view(self.working@),
            steps: self.steps,
        }
    }
}

/// Whether a row is among rows.
pub open spec fn has_row(rows: Seq<Seq<Val>>, row: Seq<Val>) -> bool {
    exists|i: int| 0 <= i < rows.len() && identical_rows(#[trigger] rows[i], row)
}

fn row_in(rows: &Vec<Vec<Value>>, row: &Vec<Value>) -> (r: bool)
    ensures
        r == has_row(rows_view(rows@), vals(row@)),
{
    let ghost view = rows_view(rows@);
    let mut i: usize = 0;
    while i < rows.len()
        invariant
            i <= rows@.len(),
            view == rows_view(rows@),
            forall|j: int| 0 <= j < i ==> !identical_rows(#[trigger] view[j], vals(row@)),
        decreases rows@.len() - i,
    {
        assert(view[i as int] == vals(rows@[i as int]@));
        if are_identical(&rows[i], row) {
            return true;
        }
        i = i + 1;
    }
    false
}

/// The rows of a step that are new: all of them for UNION ALL, else those that
/// are neither accumulated nor earlier in the step.
pub open spec fn new_rows(all: bool, result: Seq<Seq<Val>>, rows: Seq<Seq<Val>>) -> Seq<Seq<Val>>
    decreases rows.len(),
{
    if rows.len() == 0 {
        Seq::empty()
    } else {
        let before = new_rows(all, result, rows.drop_last());
        if all || (!has_row(result, rows.last()) && !has_row(before, rows.last())) {
            before.push(rows.last())
        } else {
            before
        }
    }
}

fn fresh_rows(all: bool, result: &Vec<Vec<Value>>, rows: &Vec<Vec<Value>>) -> (r: Vec<Vec<Value>>)
    ensures
        rows_view(r@) == new_rows(all, rows_view(result@), rows_view(rows@)),
{
    let ghost view = rows_view(rows@);
    let mut out: Vec<Vec<Value>> = Vec::new();
    let mut i: usize = 0;
    assert(view.take(0) =~= Seq::<Seq<Val>>::empty());
    assert(rows_view(out@) =~= Seq::<Seq<Val>>::empty());
    while i < rows.len()
        invariant
            i <= rows@.len(),
            view == rows_view(rows@),
            rows_view(out@) == new_rows(all, rows_view(result@), view.take(i as int)),
        decreases rows@.len() - i,
    {
        assert(view.take(i + 1).drop_last() =~= view.take(i as int));
        assert(view.take(i + 1).last() == vals(rows@[i as int]@));
        if all || (!row_in(result, &rows[i]) && !row_in(&out, &rows[i])) {
            let ghost before = out@;
            out.push(clone_values(&rows[i]));
            assert(rows_view(out@) =~= rows_view(before).push(view[i as int]));
        }
        i = i + 1;
    }
    assert(view.take(i as int) =~= view);
    out
}

/// The names of a recursive query's columns: its aliases if it has any, else
/// the seed's.
pub fn recursive_columns(aliases: &Vec<String>, seed: &Vec<String>) -> (r: Vec<String>)
    ensures
        texts(r@) == if aliases@.len() == 0 {
            texts(seed@)
        } else {
            texts(aliases@)
        },
{
    if aliases.len() == 0 {
        clone_texts(seed)
    } else {
        clone_texts(aliases)
    }
}

impl Recursion {
    /// The recursion after its seed; UNION keeps the first of equal seed rows.
    pub fn start(all: bool, seed: &Vec<Vec<Value>>) -> (r: Recursion)
        ensures
            r@ == (RecursionView {
                result: new_rows(all, Seq::empty(), rows_view(seed@)),
                working: new_rows(all, Seq::empty(), rows_view(seed@)),
                steps: 0,
            }),
    {
        let none: Vec<Vec<Value>> = Vec::new();
        assert(rows_view(none@) =~= Seq::<Seq<Val>>::empty());
        let working = fresh_rows(all, &none, seed);
        Recursion { result: clone_rows(&working), working, steps: 0 }
    }

    /// Begins the next step: whether there is one, as long as the last one
    /// made rows and the limit is not reached.
    pub fn next_step(&mut self) -> (r: Result<bool, String>)
        requires
            old(self).steps <= MAX_STEPS,
        ensures
            final(self)@.result == old(self)@.result,
            final(self)@.working == old(self)@.working,
            match r {
                Ok(more) => {
                    &&& more == (old(self)@.working.len() > 0)
                    &&& final(self).steps == old(self).steps + (if more {
                        1int
                    } else {
                        0
                    })
                    &&& final(self).steps <= MAX_STEPS
                },
                Err(m) => {
                    &&& old(self)@.working.len() > 0
                    &&& old(self).steps == MAX_STEPS
                    &&& m@ == "WITH RECURSIVE did not terminate within 10000 iterations"@
                },
            },
    {
        assert(self@.working.len() == self.working@.len());
        if self.working.len() == 0 {
            return Ok(false);
        }
        if self.steps >= MAX_STEPS {
            return Err("WITH RECURSIVE did not terminate within 10000 iterations".to_owned());
        }
        self.steps = self.steps + 1;
        Ok(true)
    }

    /// Takes the rows that the recursive term made of the working table.
    pub fn absorb(&mut self, all: bool, rows: &Vec<Vec<Value>>)
        ensures
            final(self)@ == (RecursionView {
                result: old(self)@.result + new_rows(
                    all,
                    old(self)@.result,
                    rows_view(rows@),
                ),
                working: new_rows(all, old(self)@.result, rows_view(rows@)),
                steps: old(self).steps,
            }),
    {
        let fresh = fresh_rows(all, &self.result, rows);
        let ghost start = rows_view(self.result@);
        let ghost more = rows_view(fresh@);
        let mut i: usize = 0;
        let mut result = clone_rows(&self.result);
        assert(start + more.take(0) =~= start);
        while i < fresh.len()
            invariant
                i <= fresh@.len(),
                more == rows_view(fresh@),
                rows_view(result@) == start + more.take(i as int),
            decreases fresh@.len() - i,
        {
            let ghost before = result@;
            result.push(clone_values(&fresh[i]));
            assert(rows_view(result@) =~= rows_view(before).push(more[i as int]));
            i = i + 1;
            assert(start + more.take(i as int) =~= (start + more.take(i - 1)).push(more[i - 1]));
        }
        assert(more.take(i as int) =~= more);
        self.result = result;
        self.working = fresh;
    }
}

/// UNION adds no row that is already there: not among the accumulated rows,
/// and none twice.
pub proof fn law_union_adds_no_duplicates(result: Seq<Seq<Val>>, rows: Seq<Seq<Val>>)
    ensures
        forall|i: int|
            0 <= i < new_rows(false, result, rows).len() ==> !has_row(
                result,
                #[trigger] new_rows(false, result, rows)[i],
            ),
        forall|i: int, j: int|
            0 <= i < j < new_rows(false, result, rows).len() ==> !identical_rows(
                #[trigger] new_rows(false, result, rows)[i],
                #[trigger] new_rows(false, result, rows)[j],
            ),
    decreases rows.len(),
{
    if rows.len() > 0 {
        law_union_adds_no_duplicates(result, rows.drop_last());
        let before = new_rows(false, result, rows.drop_last());
        let now = new_rows(false, result, rows);
        assert forall|i: int, j: int| 0 <= i < j < now.len() implies !identical_rows(
            #[trigger] now[i],
            #[trigger] now[j],
        ) by {
            if j < before.len() {
                assert(now[i] == before[i] && now[j] == before[j]);
            } else {
                assert(now[i] == before[i]);
            }
        }
        assert forall|i: int| 0 <= i < now.len() implies !has_row(result, #[trigger] now[i]) by {
            if i < before.len() {
                assert(now[i] == before[i]);
            }
        }
    }
}

/// The rows that a recursion has accumulated after its seed and the rows of
/// each of its steps.
pub open spec fn accumulated(
    all: bool,
    seed: Seq<Seq<Val>>,
    steps: Seq<Seq<Seq<Val>>>,
) -> Seq<Seq<Val>>
    decreases steps.len(),
{
    if steps.len() == 0 {
        new_rows(all, Seq::empty(), seed)
    } else {
        let before = accumulated(all, seed, steps.drop_last());
        before + new_rows(all, before, steps.last())
    }
}

/// Whether a row, or one identical to it, is among rows.
pub open spec fn keeps_row(rows: Seq<Seq<Val>>, row: Seq<Val>) -> bool {
    has_row(rows, row) || rows.contains(row)
}

proof fn lemma_every_row_is_kept(all: bool, result: Seq<Seq<Val>>, rows: Seq<Seq<Val>>, i: int)
    requires
        0 <= i < rows.len(),
    ensures
        keeps_row(result + new_rows(all, result, rows), rows[i]),
    decreases rows.len(),
{
    let before = new_rows(all, result, rows.drop_last());
    let now = new_rows(all, result, rows);
    let whole = result + now;
    if i < rows.len() - 1 {
        lemma_every_row_is_kept(all, result, rows.drop_last(), i);
        let earlier = result + before;
        assert forall|j: int| 0 <= j < earlier.len() implies whole[j] == #[trigger] earlier[j] by {}
        if has_row(earlier, rows[i]) {
            let j = choose|j: int|
                0 <= j < earlier.len() && identical_rows(#[trigger] earlier[j], rows[i]);
            assert(identical_rows(whole[j], rows[i]));
        } else {
            let j = choose|j: int| 0 <= j < earlier.len() && earlier[j] == rows[i];
            assert(whole[j] == rows[i]);
        }
    } else if has_row(result, rows[i]) && !all {
        let j = choose|j: int|
            0 <= j < result.len() && identical_rows(#[trigger] result[j], rows[i]);
        assert(whole[j] == result[j]);
        assert(identical_rows(whole[j], rows[i]));
    } else if has_row(before, rows[i]) && !all {
        let j = choose|j: int|
            0 <= j < before.len() && identical_rows(#[trigger] before[j], rows[i]);
        assert(whole[result.len() + j] == before[j]);
        assert(identical_rows(whole[result.len() + j], rows[i]));
    } else {
        assert(whole[whole.len() - 1] == rows[i]);
    }
}

/// Under UNION no two accumulated rows are identical, however many steps there
/// were, and whatever rows the seed and the steps yielded.
pub proof fn law_union_accumulates_no_duplicates(
    seed: Seq<Seq<Val>>,
    steps: Seq<Seq<Seq<Val>>>,
    i: int,
    j: int,
)
    requires
        0 <= i < j < accumulated(false, seed, steps).len(),
    ensures
        !identical_rows(
            accumulated(false, seed, steps)[i],
            accumulated(false, seed, steps)[j],
        ),
    decreases steps.len(),
{
    let whole = accumulated(false, seed, steps);
    if steps.len() == 0 {
        law_union_adds_no_duplicates(Seq::empty(), seed);
        assert(!identical_rows(
            new_rows(false, Seq::empty(), seed)[i],
            new_rows(false, Seq::empty(), seed)[j],
        ));
    } else {
        let before = accumulated(false, seed, steps.drop_last());
        let fresh = new_rows(false, before, steps.last());
        law_union_adds_no_duplicates(before, steps.last());
        if j < before.len() {
            law_union_accumulates_no_duplicates(seed, steps.drop_last(), i, j);
        } else if i < before.len() {
            assert(whole[j] == fresh[j - before.len()]);
            assert(!has_row(before, fresh[j - before.len()]));
            assert(whole[i] == before[i]);
        } else {
            assert(whole[i] == fresh[i - before.len()]);
            assert(whole[j] == fresh[j - before.len()]);
        }
    }
}

/// Every seed row is among the accumulated rows, itself or by one identical to
/// it.
pub proof fn law_seed_rows_are_kept(
    all: bool,
    seed: Seq<Seq<Val>>,
    steps: Seq<Seq<Seq<Val>>>,
    i: int,
)
    requires
        0 <= i < seed.len(),
    ensures
        keeps_row(accumulated(all, seed, steps), seed[i]),
    decreases steps.len(),
{
    if steps.len() == 0 {
        lemma_every_row_is_kept(all, Seq::empty(), seed, i);
        assert(Seq::<Seq<Val>>::empty() + new_rows(all, Seq::empty(), seed) =~= new_rows(
            all,
            Seq::empty(),
            seed,
        ));
    } else {
        law_seed_rows_are_kept(all, seed, steps.drop_last(), i);
        let before = accumulated(all, seed, steps.drop_last());
        let whole = accumulated(all, seed, steps);
        if has_row(before, seed[i]) {
            let j = choose|j: int|
                0 <= j < before.len() && identical_rows(#[trigger] before[j], seed[i]);
            assert(whole[j] == before[j]);
            assert(identical_rows(whole[j], seed[i]));
        } else {
            let j = choose|j: int| 0 <= j < before.len() && before[j] == seed[i];
            assert(whole[j] == seed[i]);
        }
    }
}

/// A recursion that has stopped is a fixpoint: a step whose rows are all there
/// already adds none, and leaves the next step nothing to read.
pub proof fn law_a_step_without_news_is_the_last(
    seed: Seq<Seq<Val>>,
    steps: Seq<Seq<Seq<Val>>>,
    rows: Seq<Seq<Val>>,
)
    requires
        forall|i: int|
            0 <= i < rows.len() ==> has_row(accumulated(false, seed, steps), #[trigger] rows[i]),
    ensures
        new_rows(false, accumulated(false, seed, steps), rows).len() == 0,
        accumulated(false, seed, steps.push(rows)) == accumulated(false, seed, steps),
{
    let before = accumulated(false, seed, steps);
    lemma_nothing_new(before, rows);
    assert(steps.push(rows).drop_last() =~= steps);
    assert(accumulated(false, seed, steps.push(rows)) =~= before);
}

proof fn lemma_nothing_new(result: Seq<Seq<Val>>, rows: Seq<Seq<Val>>)
    requires
        forall|i: int| 0 <= i < rows.len() ==> has_row(result, #[trigger] rows[i]),
    ensures
        new_rows(false, result, rows).len() == 0,
    decreases rows.len(),
{
    if rows.len() > 0 {
        assert forall|i: int| 0 <= i < rows.drop_last().len() implies has_row(
            result,
            #[trigger] rows.drop_last()[i],
        ) by {
            assert(rows.drop_last()[i] == rows[i]);
        }
        lemma_nothing_new(result, rows.drop_last());
        assert(has_row(result, rows[rows.len() - 1]));
    }
}

/// UNION ALL keeps every row of a step.
pub proof fn law_union_all_keeps_every_row(result: Seq<Seq<Val>>, rows: Seq<Seq<Val>>)
    ensures
        new_rows(true, result, rows) == rows,
    decreases rows.len(),
{
    if rows.len() > 0 {
        law_union_all_keeps_every_row(result, rows.drop_last());
        assert(new_rows(true, result, rows) =~= rows);
    } else {
        assert(new_rows(true, result, rows) =~= rows);
    }
}

} // verus!
