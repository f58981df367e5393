//! The retention sweeper: one cycle of time-based eviction.
//!
//! A recurring background task calls this on a fixed interval, re-reading
//! the retention lifetime each cycle so the policy can change without a
//! restart. The sweep works entirely through the store's own operations,
//! each of which is atomic, so a request racing a sweep sees either the
//! full prior entry or none of it.

use vstd::prelude::*;

use crate::store::{age_of, PasteStore};

verus! {

/// One sweep cycle: enumerate all current entries and evict exactly those
/// whose age at time `now` has reached `max_age`. Entries that survive are
/// untouched, record and eviction clock included.
#[verifier::loop_isolation(false)]
pub fn clean_old_pastes(store: &mut PasteStore, now: u64, max_age: u64)
    requires
        old(store).wf(),
    ensures
        final(store).wf(),
        forall|id: Seq<char>| #[trigger] final(store)@.contains_key(id) <==> old(
            store,
        )@.contains_key(id) && age_of(old(store)@[id].1, now) < max_age,
        forall|id: Seq<char>| #[trigger] final(store)@.contains_key(id) ==> final(store)@[id]
            == old(store)@[id],
{
    let aged = store.list_with_age(now);
    let mut k: usize = 0;
    while k < aged.len()
        invariant
            store.wf(),
            k <= aged@.len(),
            forall|id: Seq<char>| #[trigger] store@.contains_key(id) ==> old(
                store,
            )@.contains_key(id) && store@[id] == old(store)@[id],
            forall|id: Seq<char>|
                old(store)@.contains_key(id) && age_of(old(store)@[id].1, now) < max_age
                    ==> #[trigger] store@.contains_key(id),
            forall|j: int| 0 <= j < k && (#[trigger] aged@[j]).1 >= max_age
                ==> !store@.contains_key(aged@[j].0@),
        decreases aged@.len() - k,
    {
        if aged[k].1 >= max_age {
            let _ = store.delete(&aged[k].0);
        }
        k += 1;
    }
    proof {
        assert forall|id: Seq<char>|
            old(store)@.contains_key(id) && age_of(old(store)@[id].1, now)
                >= max_age implies !store@.contains_key(id) by {
            let j = choose|j: int| 0 <= j < aged@.len() && aged@[j].0@ == id;
            assert(aged@[j].1 == age_of(old(store)@[id].1, now));
        }
    }
}

} // verus!
