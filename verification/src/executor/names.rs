//! Named entries: lists of pairs of a name and what it is bound to, read as
//! maps in which the first entry of a name is the one that counts.

use vstd::prelude::*;

verus! {

/// Whether `i` is the first position in `entries` that bears `name`.
pub open spec fn first_named<X>(entries: Seq<(Seq<char>, X)>, name: Seq<char>, i: int) -> bool {
    &&& 0 <= i < entries.len()
    &&& entries[i].0 == name
    &&& forall|j: int| 0 <= j < i ==> (#[trigger] entries[j]).0 != name
}

/// The first position in `entries` that bears `name`, if any does.
pub open spec fn find<X>(entries: Seq<(Seq<char>, X)>, name: Seq<char>) -> Option<int> {
    if exists|i: int| first_named(entries, name, i) {
        Some(choose|i: int| first_named(entries, name, i))
    } else {
        None
    }
}

/// A position that bears the name, with none before it that does, is the one
/// that `find` gives; where no position bears the name, `find` gives none.
pub proof fn lemma_find<X>(entries: Seq<(Seq<char>, X)>, name: Seq<char>, found: Option<int>)
    requires
        match found {
            Some(i) => first_named(entries, name, i),
            None => forall|j: int| 0 <= j < entries.len() ==> (#[trigger] entries[j]).0 != name,
        },
    ensures
        find(entries, name) == found,
{
    match found {
        Some(i) => {
            let k = choose|k: int| first_named(entries, name, k);
            assert(first_named(entries, name, k));
            if k < i {
                assert(entries[k].0 != name);
            }
            if i < k {
                assert(entries[i].0 != name);
            }
        },
        None => {
            if exists|i: int| first_named(entries, name, i) {
                let k = choose|k: int| first_named(entries, name, k);
                assert(entries[k].0 != name);
            }
        },
    }
}

/// What `find` gives is the first position that bears the name; it gives
/// none only where no position bears it.
pub proof fn lemma_find_is_first<X>(entries: Seq<(Seq<char>, X)>, name: Seq<char>)
    ensures
        match find(entries, name) {
            Some(i) => first_named(entries, name, i),
            None => forall|j: int| 0 <= j < entries.len() ==> (#[trigger] entries[j]).0 != name,
        },
{
    if find(entries, name) is None {
        assert forall|j: int| 0 <= j < entries.len() implies (#[trigger] entries[j]).0 != name by {
            if entries[j].0 == name {
                lemma_some_is_first(entries, name, j);
            }
        }
    }
}

/// Where some position up to `bound` bears the name, one of them is the first.
proof fn lemma_some_is_first<X>(entries: Seq<(Seq<char>, X)>, name: Seq<char>, bound: int)
    requires
        0 <= bound < entries.len(),
        entries[bound].0 == name,
    ensures
        exists|i: int| first_named(entries, name, i),
    decreases bound,
{
    if exists|j: int| 0 <= j < bound && (#[trigger] entries[j]).0 == name {
        let j = choose|j: int| 0 <= j < bound && (#[trigger] entries[j]).0 == name;
        lemma_some_is_first(entries, name, j);
    } else {
        assert(first_named(entries, name, bound));
    }
}

} // verus!
