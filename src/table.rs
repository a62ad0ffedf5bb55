//! The function table's model: names with their bodies.
use vstd::prelude::*;

use crate::instructions::{size, Instr};

verus! {

/// A function table: names with their bodies, in the order they were defined.
pub type Table = Seq<(Seq<char>, Instr)>;

/// Every name of `t` differs from every other.
pub open spec fn unique_names(t: Table) -> bool {
    forall|i: int, j: int| 0 <= i < j < t.len() ==> t[i].0 != t[j].0
}

/// `t` holds a body for `name`.
pub open spec fn defines(t: Table, name: Seq<char>) -> bool {
    exists|k: int| 0 <= k < t.len() && t[k].0 == name
}

/// The position of the last entry of `t` named `name`.
pub open spec fn index_of(t: Table, name: Seq<char>) -> Option<int>
    decreases t.len(),
{
    if t.len() == 0 {
        None
    } else if t.last().0 == name {
        Some(t.len() - 1)
    } else {
        index_of(t.drop_last(), name)
    }
}

/// Total size of the bodies of `t`.
pub open spec fn table_size(t: Table) -> nat
    decreases t.len(),
{
    if t.len() == 0 {
        0
    } else {
        table_size(t.drop_last()) + size(t.last().1)
    }
}

/// A name found by `index_of` is at a position of `t` that holds it.
pub broadcast proof fn lemma_index_of(t: Table, name: Seq<char>)
    ensures
        #[trigger] index_of(t, name) matches Some(k) ==> 0 <= k < t.len() && t[k].0 == name,
        index_of(t, name) is None <==> !defines(t, name),
    decreases t.len(),
{
    if t.len() > 0 {
        lemma_index_of(t.drop_last(), name);
        if t.last().0 != name && defines(t, name) {
            let k = choose|k: int| 0 <= k < t.len() && t[k].0 == name;
            assert(t.drop_last()[k].0 == name);
        }
    }
}

/// No body of `t` is larger than all of them together.
pub broadcast proof fn lemma_table_size_entry(t: Table, k: int)
    requires
        0 <= k < t.len(),
    ensures
        #[trigger] size(t[k].1) <= #[trigger] table_size(t),
    decreases t.len(),
{
    if k < t.len() - 1 {
        lemma_table_size_entry(t.drop_last(), k);
    }
}

/// Defining a body adds its size to the table's.
pub broadcast proof fn lemma_table_size_push(t: Table, e: (Seq<char>, Instr))
    ensures
        #[trigger] table_size(t.push(e)) == table_size(t) + size(e.1),
{
    assert(t.push(e).drop_last() =~= t);
}

} // verus!
