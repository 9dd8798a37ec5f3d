//! The laws of the store model: what a round trip returns, how writes to
//! one table leave the others, and what a batch leaves behind.

use vstd::prelude::*;

use crate::storage::{
    pairs_map, store_get, store_put, store_put_seq, table_in, StoreView, TableView,
};

verus! {

/// Writing `k -> v` into table `t` and reading `k` from `t` returns
/// exactly `v`, for every store, table and pair.
pub proof fn lemma_write_read_round_trip(s: StoreView, t: Seq<u8>, k: Seq<u8>, v: Seq<u8>)
    ensures
        store_get(store_put(s, t, k, v), t, k) == Some(v),
{
}

/// Reading any key from a table the store does not hold yields no value;
/// the lookup itself is defined for every store and key.
pub proof fn lemma_missing_table_reads_none(s: StoreView, t: Seq<u8>, k: Seq<u8>)
    requires
        !s.dom().contains(t),
    ensures
        store_get(s, t, k) is None,
{
}

/// Writing `v1` then `v2` to the same key of the same table leaves the
/// key holding `v2` only: the last writer wins.
pub proof fn lemma_overwrite_last_wins(
    s: StoreView,
    t: Seq<u8>,
    k: Seq<u8>,
    v1: Seq<u8>,
    v2: Seq<u8>,
)
    ensures
        store_get(store_put(store_put(s, t, k, v1), t, k, v2), t, k) == Some(v2),
        store_put(store_put(s, t, k, v1), t, k, v2) == store_put(s, t, k, v2),
{
    assert(store_put(store_put(s, t, k, v1), t, k, v2) =~~= store_put(s, t, k, v2));
}

/// Tables do not share key space: a write into table `ta` leaves every
/// read from a different table `tb` exactly as it was.
pub proof fn lemma_table_isolation(
    s: StoreView,
    ta: Seq<u8>,
    tb: Seq<u8>,
    k: Seq<u8>,
    v: Seq<u8>,
    k2: Seq<u8>,
)
    requires
        ta != tb,
    ensures
        table_in(store_put(s, ta, k, v), tb) == table_in(s, tb),
        store_get(store_put(s, ta, k, v), tb, k2) == store_get(s, tb, k2),
{
}

/// A batch leaves table `t` holding its old entries overridden by the
/// batch pairs, a later pair winning over an earlier one, and leaves
/// every other table untouched. With the exact scan contract this says
/// that after a successful batch a full scan reflects every batch entry,
/// overwritten and new ones alike.
pub proof fn lemma_batch_effect(s: StoreView, t: Seq<u8>, items: Seq<(Seq<u8>, Seq<u8>)>)
    ensures
        table_in(store_put_seq(s, t, items), t) == table_in(s, t).union_prefer_right(
            pairs_map(items),
        ),
        forall|t2: Seq<u8>|
            t2 != t ==> #[trigger] table_in(store_put_seq(s, t, items), t2) == table_in(s, t2),
        items.len() > 0 ==> store_put_seq(s, t, items).dom() == s.dom().insert(t),
    decreases items.len(),
{
    if items.len() == 0 {
        assert(table_in(s, t).union_prefer_right(pairs_map(items)) =~= table_in(s, t));
    } else {
        lemma_batch_effect(s, t, items.drop_last());
        assert(table_in(store_put_seq(s, t, items), t) =~= table_in(s, t).union_prefer_right(
            pairs_map(items),
        ));
        assert forall|t2: Seq<u8>| t2 != t implies #[trigger] table_in(store_put_seq(s, t, items), t2)
            == table_in(s, t2) by {
            assert(table_in(store_put_seq(s, t, items), t2) == table_in(
                store_put_seq(s, t, items.drop_last()),
                t2,
            ));
        }
    }
}

/// A non-empty batch is one single map update: it replaces table `t` by
/// its old contents overridden by the batch pairs and touches nothing
/// else.
pub proof fn lemma_batch_as_insert(s: StoreView, t: Seq<u8>, items: Seq<(Seq<u8>, Seq<u8>)>)
    requires
        items.len() > 0,
    ensures
        store_put_seq(s, t, items) == s.insert(
            t,
            table_in(s, t).union_prefer_right(pairs_map(items)),
        ),
{
    lemma_batch_effect(s, t, items);
    assert forall|t2: Seq<u8>| s.dom().contains(t2) && t2 != t implies store_put_seq(
        s,
        t,
        items,
    )[t2] == s[t2] by {
        assert(table_in(store_put_seq(s, t, items), t2) == table_in(s, t2));
    }
    assert(store_put_seq(s, t, items) =~~= s.insert(
        t,
        table_in(s, t).union_prefer_right(pairs_map(items)),
    ));
}

/// A batch into a table the store did not hold leaves that table holding
/// exactly the batch pairs: each pair present, nothing else, n distinct
/// keys giving n entries.
pub proof fn lemma_batch_into_fresh_table(s: StoreView, t: Seq<u8>, items: Seq<(Seq<u8>, Seq<u8>)>)
    requires
        !s.dom().contains(t),
    ensures
        table_in(store_put_seq(s, t, items), t) == pairs_map(items),
{
    lemma_batch_effect(s, t, items);
    assert(table_in(s, t).union_prefer_right(pairs_map(items)) =~= pairs_map(items));
}

/// A pair list with distinct keys maps each of its keys to its value:
/// entry `i` is found in the mapping of the list, unchanged.
pub proof fn lemma_pairs_index(ps: Seq<(Seq<u8>, Seq<u8>)>, i: int)
    requires
        forall|a: int, b: int| 0 <= a < b < ps.len() ==> ps[a].0 != ps[b].0,
        0 <= i < ps.len(),
    ensures
        pairs_map(ps).dom().contains(ps[i].0),
        pairs_map(ps)[ps[i].0] == ps[i].1,
    decreases ps.len(),
{
    if i < ps.len() - 1 {
        lemma_pairs_index(ps.drop_last(), i);
        assert(ps.drop_last()[i] == ps[i]);
    }
}

/// A key no pair of the list carries is absent from its mapping: the
/// mapping holds nothing beyond the listed pairs.
pub proof fn lemma_pairs_absent(ps: Seq<(Seq<u8>, Seq<u8>)>, k: Seq<u8>)
    requires
        forall|i: int| 0 <= i < ps.len() ==> ps[i].0 != k,
    ensures
        !pairs_map(ps).dom().contains(k),
    decreases ps.len(),
{
    if ps.len() > 0 {
        lemma_pairs_absent(ps.drop_last(), k);
    }
}

/// A pair list with n distinct keys maps to exactly n entries: nothing
/// is dropped and nothing is added. With the scan contract this says
/// that a full scan after writing n distinct keys returns exactly n
/// pairs.
pub proof fn lemma_pairs_map_len(ps: Seq<(Seq<u8>, Seq<u8>)>)
    requires
        forall|a: int, b: int| 0 <= a < b < ps.len() ==> ps[a].0 != ps[b].0,
    ensures
        pairs_map(ps).dom().finite(),
        pairs_map(ps).dom().len() == ps.len(),
    decreases ps.len(),
{
    if ps.len() > 0 {
        lemma_pairs_map_len(ps.drop_last());
        assert forall|i: int| 0 <= i < ps.drop_last().len() implies ps.drop_last()[i].0
            != ps.last().0 by {
            assert(ps.drop_last()[i] == ps[i]);
        }
        lemma_pairs_absent(ps.drop_last(), ps.last().0);
    }
}

/// Two interleaved "read the parent's counter, write the child under
/// counter + 1" sequences that both read the same counter derive the
/// same child key, so the second child write silently replaces the
/// first: one child record is lost. The two-phase interface makes this
/// race possible; it is the documented hazard of counter-based child
/// keys.
pub proof fn lemma_child_append_race(
    s: StoreView,
    t: Seq<u8>,
    child_key: Seq<u8>,
    c1: Seq<u8>,
    c2: Seq<u8>,
)
    ensures
        store_get(store_put(store_put(s, t, child_key, c1), t, child_key, c2), t, child_key)
            == Some(c2),
{
    lemma_overwrite_last_wins(s, t, child_key, c1, c2);
}

} // verus!
