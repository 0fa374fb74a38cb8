//! The keys under which a table's rows are stored: the table's identifier, a
//! colon, and the row's own part.
use vstd::prelude::*;
use crate::render::{rank_texts, text_rank, Rank};
use crate::text::{begins, concat2, texts};

verus! {

/// Whether a key lies in the range of a table's rows: from `id:` on, and
/// before `id;`.
pub open spec fn in_table(key: Seq<char>, id: Seq<char>) -> bool {
    !(text_rank(key, id + ":"@) is Less) && text_rank(key, id + ";"@) is Less
}

/// The range of the keys of a table's rows.
pub fn table_range(id: &str) -> (r: (String, String))
    ensures
        r.0@ == id@ + ":"@,
        r.1@ == id@ + ";"@,
{
    (concat2(id, ":"), concat2(id, ";"))
}

/// Whether one of a session's uncommitted keys belongs to a table.
pub fn has_pending_writes(keys: &Vec<String>, id: &str) -> (r: bool)
    ensures
        r == exists|i: int| 0 <= i < keys@.len() && in_table(#[trigger] texts(keys@)[i], id@),
{
    let (start, end) = table_range(id);
    let mut i: usize = 0;
    while i < keys.len()
        invariant
            i <= keys@.len(),
            start@ == id@ + ":"@,
            end@ == id@ + ";"@,
            forall|j: int| 0 <= j < i ==> !in_table(#[trigger] texts(keys@)[j], id@),
        decreases keys@.len() - i,
    {
        let low = rank_texts(keys[i].as_str(), start.as_str());
        let high = rank_texts(keys[i].as_str(), end.as_str());
        assert(texts(keys@)[i as int] == keys@[i as int]@);
        if low != Rank::Less && high == Rank::Less {
            assert(in_table(texts(keys@)[i as int], id@));
            return true;
        }
        i = i + 1;
    }
    false
}

/// A key lies in a table's range just when it begins with the table's
/// identifier and a colon, so that the rows of no other table are read.
pub proof fn law_a_range_holds_the_keys_of_its_table(key: Seq<char>, id: Seq<char>)
    ensures
        in_table(key, id) == begins(key, id + ":"@),
    decreases id.len(),
{
    reveal_strlit(":");
    reveal_strlit(";");
    let start = id + ":"@;
    let end = id + ";"@;
    if id.len() == 0 {
        assert(start =~= ":"@);
        assert(end =~= ";"@);
        if key.len() > 0 {
            reveal_with_fuel(text_rank, 2);
            assert(key.take(1) =~= seq![key[0]]);
            assert(start =~= seq![':']);
            assert(start.skip(1) =~= Seq::<char>::empty());
            assert(end.skip(1) =~= Seq::<char>::empty());
            assert(start[0] == ':' && end[0] == ';');
            assert(seq![key[0]][0] == key[0] && seq![':'][0] == ':');
        }
    } else if key.len() > 0 {
        let rest = id.skip(1);
        assert(start[0] == id[0] && end[0] == id[0]);
        assert(start.skip(1) =~= rest + ":"@);
        assert(end.skip(1) =~= rest + ";"@);
        if key[0] == id[0] {
            law_a_range_holds_the_keys_of_its_table(key.skip(1), rest);
            if begins(key, start) {
                assert(key.skip(1).take((rest + ":"@).len() as int) =~= key.take(
                    start.len() as int,
                ).skip(1));
                assert(begins(key.skip(1), rest + ":"@));
            }
            if begins(key.skip(1), rest + ":"@) {
                assert(key.take(start.len() as int) =~= seq![key[0]] + key.skip(1).take(
                    (rest + ":"@).len() as int,
                ));
                assert(start =~= seq![id[0]] + (rest + ":"@));
            }
        } else {
            if begins(key, start) {
                assert(key.take(start.len() as int)[0] == key[0]);
            }
        }
    }
}

} // verus!
