//! Changes to the columns of a table.
use vstd::prelude::*;
use crate::text::{clone_texts, concat3, index_of, lemma_index_of, position_of, texts};

verus! {

/// The column names of a table after one of them is renamed; a name that is
/// not among them is an error, and the table stays as it was.
pub open spec fn renamed(names: Seq<Seq<char>>, old_name: Seq<char>, new_name: Seq<char>) -> Result<
    Seq<Seq<char>>,
    Seq<char>,
> {
    match index_of(names, old_name) {
        Some(i) => Ok(names.update(i, new_name)),
        None => Err("column \""@ + old_name + "\" does not exist"@),
    }
}

/// Renames a column.
pub fn rename_column(names: &Vec<String>, old_name: &str, new_name: &str) -> (r: Result<
    Vec<String>,
    String,
>)
    ensures
        match (r, renamed(texts(names@), old_name@, new_name@)) {
            (Ok(a), Ok(b)) => texts(a@) == b,
            (Err(a), Err(b)) => a@ == b,
            _ => false,
        },
{
    match position_of(names, old_name) {
        Some(i) => {
            let mut out = clone_texts(names);
            let ghost before = out@;
            assert(texts(before).len() == names@.len());
            out.set(i, new_name.to_owned());
            assert(texts(out@) =~= texts(before).update(i as int, new_name@));
            Ok(out)
        },
        None => Err(concat3("column \"", old_name, "\" does not exist")),
    }
}

/// Renaming a column back undoes the renaming, unless the new name was already
/// another column's.
pub proof fn law_renaming_back(names: Seq<Seq<char>>, old_name: Seq<char>, new_name: Seq<char>)
    requires
        names.contains(old_name),
        !names.contains(new_name),
    ensures
        renamed(names, old_name, new_name) matches Ok(changed) && renamed(
            changed,
            new_name,
            old_name,
        ) == Ok::<Seq<Seq<char>>, Seq<char>>(names),
{
    lemma_index_of(names, old_name);
    let i = index_of(names, old_name)->Some_0;
    let changed = names.update(i, new_name);
    lemma_index_of(changed, new_name);
    assert(changed[i] == new_name);
    assert forall|j: int| 0 <= j < changed.len() && j != i implies changed[j] != new_name by {
        assert(names.contains(names[j]));
    }
    assert(index_of(changed, new_name) == Some(i));
    assert(changed.update(i, old_name) =~= names);
}

} // verus!
