//! Identifiers: looking one up in a list of items, and minting one that the
//! list does not hold yet.

use rand::Rng;
use vstd::prelude::*;
use vstd::seq_lib::seq_to_set_is_finite;
use vstd::set_lib::{lemma_int_range, lemma_len_subset, set_int_range};

use crate::item::{views, ItemS, ItemView};

verus! {

/// Some item of `items` carries the identifier `id`.
pub open spec fn has_id(items: Seq<ItemView>, id: usize) -> bool {
    exists|i: int| 0 <= i < items.len() && (#[trigger] items[i]).id == id
}

/// No two items of `items` carry the same identifier.
pub open spec fn distinct_ids(items: Seq<ItemView>) -> bool {
    forall|i: int, j: int|
        0 <= i < j < items.len() ==> (#[trigger] items[i]).id != (#[trigger] items[j]).id
}

/// `pos` is the index of the first item of `items` that carries `id`.
pub open spec fn is_first_with_id(items: Seq<ItemView>, id: usize, pos: int) -> bool {
    &&& 0 <= pos < items.len()
    &&& items[pos].id == id
    &&& forall|j: int| 0 <= j < pos ==> (#[trigger] items[j]).id != id
}

/// `id` is unused in `items`, and every smaller identifier is in use.
pub open spec fn is_least_unused(items: Seq<ItemView>, id: usize) -> bool {
    &&& !has_id(items, id)
    &&& forall|j: usize| j < id ==> has_id(items, j)
}

/// The smallest identifier that no item of `items` carries.
pub open spec fn least_unused(items: Seq<ItemView>) -> usize {
    choose|id: usize| is_least_unused(items, id)
}

/// The identifier that a new item receives when `drawn` was drawn for it:
/// `drawn` itself unless an item already carries it, and then the smallest
/// identifier that is free.
pub open spec fn fresh_id(items: Seq<ItemView>, drawn: usize) -> usize {
    if has_id(items, drawn) {
        least_unused(items)
    } else {
        drawn
    }
}

/// If the identifiers `0, 1, .., n - 1` are all in use, the list has at least
/// `n` items.
pub proof fn lemma_used_prefix_bound(items: Seq<ItemView>, n: nat)
    requires
        n <= usize::MAX + 1,
        forall|j: usize| j < n ==> has_id(items, j),
    ensures
        n <= items.len(),
{
    let ids = items.map_values(|it: ItemView| it.id as int);
    let used = ids.to_set();
    let low = set_int_range(0, n as int);
    assert forall|v: int| low.contains(v) implies used.contains(v) by {
        let j = v as usize;
        assert(has_id(items, j));
        let i = choose|i: int| 0 <= i < items.len() && (#[trigger] items[i]).id == j;
        assert(ids[i] == v);
    }
    seq_to_set_is_finite(ids);
    lemma_int_range(0, n as int);
    lemma_len_subset(low, used);
    ids.lemma_cardinality_of_set();
}

/// At most one identifier is the least unused one.
pub proof fn lemma_least_unused_unique(items: Seq<ItemView>, a: usize, b: usize)
    requires
        is_least_unused(items, a),
        is_least_unused(items, b),
    ensures
        a == b,
{
}

proof fn lemma_least_unused_from(items: Seq<ItemView>, k: nat) -> (id: usize)
    requires
        items.len() <= usize::MAX,
        k <= items.len(),
        forall|j: usize| j < k ==> has_id(items, j),
    ensures
        is_least_unused(items, id),
    decreases items.len() - k,
{
    if has_id(items, k as usize) {
        lemma_used_prefix_bound(items, k + 1);
        lemma_least_unused_from(items, k + 1)
    } else {
        k as usize
    }
}

/// A list that fits in memory leaves some identifier free, so the least
/// unused one exists.
pub proof fn lemma_least_unused_exists(items: Seq<ItemView>)
    requires
        items.len() <= usize::MAX,
    ensures
        is_least_unused(items, least_unused(items)),
{
    let id = lemma_least_unused_from(items, 0);
}

/// The identifier settled on for a new item is not in use.
pub proof fn lemma_fresh_id_is_unused(items: Seq<ItemView>, drawn: usize)
    requires
        items.len() <= usize::MAX,
    ensures
        !has_id(items, fresh_id(items, drawn)),
{
    lemma_least_unused_exists(items);
}

/// Index of the first item that carries `id`, if there is one.
pub fn find_id(items: &Vec<ItemS>, id: usize) -> (pos: Option<usize>)
    ensures
        match pos {
            Some(i) => is_first_with_id(views(items@), id, i as int),
            None => !has_id(views(items@), id),
        },
{
    let mut i: usize = 0;
    while i < items.len()
        invariant
            i <= items.len(),
            forall|j: int| 0 <= j < i ==> (#[trigger] views(items@)[j]).id != id,
        decreases items.len() - i,
    {
        if items[i].id == id {
            return Some(i);
        }
        i = i + 1;
    }
    None
}

/// Whether some item carries `id`.
pub fn contains_id(items: &Vec<ItemS>, id: usize) -> (found: bool)
    ensures
        found == has_id(views(items@), id),
{
    find_id(items, id).is_some()
}

/// Draws an identifier from `rand`'s thread-local generator
/// (`rand::thread_rng().gen()`). The value depends on the generator's state,
/// so nothing is claimed of it: callers are verified for every `usize`.
#[verifier::external_body]
pub(crate) fn random_id() -> usize {
    rand::thread_rng().gen()
}

/// Settles the identifier of a new item: `drawn` if no item carries it,
/// otherwise the smallest identifier that is free.
pub fn mint_id(items: &Vec<ItemS>, drawn: usize) -> (id: usize)
    ensures
        id == fresh_id(views(items@), drawn),
        !has_id(views(items@), id),
{
    if !contains_id(items, drawn) {
        return drawn;
    }
    let mut k: usize = 0;
    while contains_id(items, k)
        invariant
            k <= items.len(),
            forall|j: usize| j < k ==> has_id(views(items@), j),
        decreases items.len() - k,
    {
        proof {
            lemma_used_prefix_bound(views(items@), (k + 1) as nat);
        }
        k = k + 1;
    }
    proof {
        lemma_least_unused_exists(views(items@));
        lemma_least_unused_unique(views(items@), k, least_unused(views(items@)));
    }
    k
}

} // verus!
