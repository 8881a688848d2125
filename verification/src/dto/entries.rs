//! Lists of entries under token addresses, read as mappings.

use crate::eth::H160;
use crate::liquidity::distinct;
use vstd::prelude::*;

verus! {

/// The keys of `entries`, in order.
pub open spec fn keys<V>(entries: Seq<(H160, V)>) -> Seq<H160> {
    Seq::new(entries.len(), |i: int| entries[i].0)
}

/// Whether the keys of `entries` ascend, so that the entries stand as a
/// sorted map lists them.
pub open spec fn ascending<V>(entries: Seq<(H160, V)>) -> bool {
    forall|i: int, j: int|
        0 <= i < j < entries.len() ==> (#[trigger] entries[i]).0.value() < (
        #[trigger] entries[j]).0.value()
}

/// Whether `entries` holds an entry under `key`.
pub open spec fn has_key<V>(entries: Seq<(H160, V)>, key: H160) -> bool {
    exists|i: int| 0 <= i < entries.len() && (#[trigger] entries[i]).0 == key
}

/// The place of an entry under `key`.
pub open spec fn index_of<V>(entries: Seq<(H160, V)>, key: H160) -> int {
    choose|i: int| 0 <= i < entries.len() && (#[trigger] entries[i]).0 == key
}

/// `entries` after `value` was put under `key`: in the place of the entry
/// that was under `key`, or last where there was none.
pub open spec fn upsert<V>(entries: Seq<(H160, V)>, key: H160, value: V) -> Seq<(H160, V)> {
    if has_key(entries, key) {
        entries.update(index_of(entries, key), (key, value))
    } else {
        entries.push((key, value))
    }
}

/// The mapping that results from putting each of `items` in turn into an
/// empty one.
pub open spec fn upserted<V>(items: Seq<(H160, V)>) -> Seq<(H160, V)>
    decreases items.len(),
{
    if items.len() == 0 {
        Seq::empty()
    } else {
        upsert(upserted(items.drop_last()), items.last().0, items.last().1)
    }
}

/// Items under distinct keys make the mapping that lists them as they are.
pub proof fn lemma_upserted_distinct<V>(items: Seq<(H160, V)>)
    requires
        distinct(keys(items)),
    ensures
        upserted(items) == items,
    decreases items.len(),
{
    if items.len() > 0 {
        let front = items.drop_last();
        assert forall|i: int, j: int| 0 <= i < j < keys(front).len() implies keys(front)[i] != keys(
            front,
        )[j] by {
            assert(keys(items)[i] != keys(items)[j]);
        }
        lemma_upserted_distinct(front);
        let key = items.last().0;
        if has_key(front, key) {
            let i = index_of(front, key);
            assert(keys(items)[i] != keys(items)[items.len() - 1]);
        }
        assert(front.push((key, items.last().1)) =~= items);
    }
}

} // verus!
