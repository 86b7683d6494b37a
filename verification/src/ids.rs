//! Identifier generation shared by the three collection stores.

use vstd::prelude::*;
use vstd::seq_lib::*;
use vstd::set_lib::*;

verus! {

/// Relies on `uuid::Uuid::new_v4` (and `as_u128` to read its value): a
/// freshly generated random version-4 identifier as a 128-bit integer.
/// The value is random, so nothing is promised of it; callers must check
/// it against the collection themselves.
#[verifier::external_body]
pub(crate) fn random_uuid() -> u128 {
    uuid::Uuid::new_v4().as_u128()
}

/// A collection of `n` records cannot carry every identifier in `0 ..= n`:
/// those are `n + 1` distinct values and there are only `n` records. So at
/// least one identifier in that range is free, and the stores' linear scan
/// for a free small identifier always finds one.
pub(crate) proof fn lemma_small_id_free(ids: Seq<u128>)
    requires
        ids.len() < u128::MAX as int,
    ensures
        exists|c: int| 0 <= c <= ids.len() && !(#[trigger] ids.contains(c as u128)),
{
    broadcast use seq_to_set_is_finite;

    if forall|c: int| 0 <= c <= ids.len() ==> #[trigger] ids.contains(c as u128) {
        let ints: Seq<int> = ids.map_values(|id: u128| id as int);
        ints.lemma_cardinality_of_set();
        let lo: int = 0;
        let hi: int = ids.len() as int + 1;
        lemma_int_range(lo, hi);
        assert forall|c: int| set_int_range(lo, hi).contains(c) implies ints.to_set()
            .contains(c) by {
            assert(ids.contains(c as u128));
            let i: int = choose|i: int| 0 <= i < ids.len() && ids[i] == c as u128;
            assert(ints[i] == c);
            assert(ints.contains(c));
        };
        lemma_len_subset(set_int_range(lo, hi), ints.to_set());
    }
}

} // verus!
