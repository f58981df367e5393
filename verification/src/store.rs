//! The paste store: key-addressed blob storage with an upload size ceiling.
//!
//! The store owns the mapping from identifier to content blob. Its
//! mathematical model is a map from the identifier's token to the stored
//! bytes and the time they were last written. Each individual operation is
//! atomic, so a concurrent enumeration or deletion sees either the full
//! prior entry or none of it, never a torn one.

use vstd::prelude::*;

use crate::models::{str_eq, PasteError};
use crate::paste_id::PasteId;

verus! {

/// One stored paste: the identifier, the opaque content bytes, and the time
/// the content was created or last replaced. Replacing the content resets
/// the eviction clock by refreshing `modified_at`.
pub struct Paste {
    pub id: PasteId,
    pub content: Vec<u8>,
    pub modified_at: u64,
}

/// How old an entry written at `modified_at` is at time `now`. A clock that
/// has apparently moved backwards makes the entry brand new, not ancient.
pub open spec fn age_of(modified_at: u64, now: u64) -> u64 {
    if now >= modified_at {
        (now - modified_at) as u64
    } else {
        0
    }
}

/// No two entries hold the same identifier.
pub open spec fn entry_ids_distinct(s: Seq<Paste>) -> bool {
    forall|i: int, j: int| 0 <= i < j < s.len() ==> s[i].id@ != s[j].id@
}

/// Every entry's identifier is in the generation format.
pub open spec fn entry_ids_wf(s: Seq<Paste>) -> bool {
    forall|i: int| 0 <= i < s.len() ==> (#[trigger] s[i]).id.wf()
}

/// The map an entry sequence denotes: each identifier's token maps to the
/// content bytes and the last-written time.
spec fn store_map(s: Seq<Paste>) -> Map<Seq<char>, (Seq<u8>, u64)>
    decreases s.len(),
{
    if s.len() == 0 {
        Map::empty()
    } else {
        store_map(s.drop_last()).insert(
            s.last().id@,
            (s.last().content@, s.last().modified_at),
        )
    }
}

/// The model of a sequence with distinct identifiers: its keys are exactly
/// the entries' identifiers, each mapped to that entry's record.
proof fn lemma_store_map_props(s: Seq<Paste>)
    requires
        entry_ids_distinct(s),
    ensures
        store_map(s).dom().finite(),
        store_map(s).dom().len() == s.len(),
        forall|id: Seq<char>| #[trigger] store_map(s).contains_key(id) ==> exists|i: int|
            0 <= i < s.len() && s[i].id@ == id,
        forall|i: int| 0 <= i < s.len() ==> store_map(s).contains_key(#[trigger] s[i].id@),
        forall|i: int| 0 <= i < s.len() ==> store_map(s)[#[trigger] s[i].id@] == (
            s[i].content@,
            s[i].modified_at,
        ),
    decreases s.len(),
{
    if s.len() > 0 {
        let rest = s.drop_last();
        let last = s.last();
        assert(entry_ids_distinct(rest)) by {
            assert(forall|i: int, j: int|
                0 <= i < j < rest.len() ==> rest[i] == s[i] && rest[j] == s[j]);
        }
        lemma_store_map_props(rest);
        assert(!store_map(rest).contains_key(last.id@)) by {
            if store_map(rest).contains_key(last.id@) {
                let i = choose|i: int| 0 <= i < rest.len() && rest[i].id@ == last.id@;
                assert(s[i].id@ == s[s.len() - 1].id@);
            }
        }
        assert(forall|i: int| 0 <= i < s.len() - 1 ==> s[i] == rest[i]);
        assert(store_map(s).dom() =~= store_map(rest).dom().insert(last.id@));
    }
}

/// Removing the entry at index `i` removes exactly its identifier from the
/// model and keeps every other record.
proof fn lemma_store_map_remove(s: Seq<Paste>, i: int)
    requires
        entry_ids_distinct(s),
        0 <= i < s.len(),
    ensures
        entry_ids_distinct(s.remove(i)),
        entry_ids_wf(s) ==> entry_ids_wf(s.remove(i)),
        forall|j: int| 0 <= j < s.remove(i).len()
            ==> (#[trigger] s.remove(i)[j]).id@ != s[i].id@,
        store_map(s.remove(i)) == store_map(s).remove(s[i].id@),
{
    let t = s.remove(i);
    s.remove_ensures(i);
    assert(forall|j: int| 0 <= j < i ==> #[trigger] t[j] == s[j]);
    assert(forall|j: int| i <= j < s.len() - 1 ==> #[trigger] t[j] == s[j + 1]);
    assert forall|a: int, b: int| 0 <= a < b < t.len() implies t[a].id@ != t[b].id@ by {
        let a2: int = if a < i { a } else { a + 1 };
        let b2: int = if b < i { b } else { b + 1 };
        assert(t[a] == s[a2] && t[b] == s[b2] && a2 < b2);
    }
    assert forall|j: int| 0 <= j < t.len() implies (#[trigger] t[j]).id@ != s[i].id@ by {
        let j2: int = if j < i { j } else { j + 1 };
        assert(t[j] == s[j2] && j2 != i);
    }
    if entry_ids_wf(s) {
        assert forall|j: int| 0 <= j < t.len() implies (#[trigger] t[j]).id.wf() by {
            let j2: int = if j < i { j } else { j + 1 };
            assert(t[j] == s[j2]);
        }
    }
    lemma_store_map_props(s);
    lemma_store_map_props(t);
    assert forall|k: Seq<char>| store_map(t).contains_key(k) implies store_map(s).remove(
        s[i].id@,
    ).contains_key(k) by {
        let j = choose|j: int| 0 <= j < t.len() && t[j].id@ == k;
        let j2: int = if j < i { j } else { j + 1 };
        assert(t[j] == s[j2]);
    }
    assert forall|k: Seq<char>| store_map(s).remove(s[i].id@).contains_key(k) implies store_map(
        t,
    ).contains_key(k) by {
        let j = choose|j: int| 0 <= j < s.len() && s[j].id@ == k;
        if j < i {
            assert(t[j] == s[j]);
        } else {
            assert(t[j - 1] == s[j]);
        }
    }
    assert forall|k: Seq<char>| store_map(t).contains_key(k) implies store_map(t)[k] == store_map(
        s,
    ).remove(s[i].id@)[k] by {
        let j = choose|j: int| 0 <= j < t.len() && t[j].id@ == k;
        let j2: int = if j < i { j } else { j + 1 };
        assert(t[j] == s[j2]);
        assert(store_map(t)[k] == (s[j2].content@, s[j2].modified_at));
        assert(store_map(s)[k] == (s[j2].content@, s[j2].modified_at));
    }
    assert(store_map(t) =~= store_map(s).remove(s[i].id@));
}

/// Appending an entry inserts exactly its record into the model.
proof fn lemma_store_map_push(s: Seq<Paste>, e: Paste)
    ensures
        store_map(s.push(e)) == store_map(s).insert(e.id@, (e.content@, e.modified_at)),
{
    assert(s.push(e).drop_last() =~= s);
    assert(s.push(e).last() == e);
}

/// The store itself: a bag of entries with pairwise distinct, well-formed
/// identifiers. Its view is the map the entries denote.
pub struct PasteStore {
    entries: Vec<Paste>,
}

impl View for PasteStore {
    type V = Map<Seq<char>, (Seq<u8>, u64)>;

    closed spec fn view(&self) -> Map<Seq<char>, (Seq<u8>, u64)> {
        store_map(self.entries@)
    }
}

impl PasteStore {
    /// The store's invariant: identifiers are unique across all entries
    /// concurrently present, and each is in the generation format.
    pub closed spec fn wf(self) -> bool {
        entry_ids_distinct(self.entries@) && entry_ids_wf(self.entries@)
    }

    /// An empty store.
    pub fn new() -> (r: PasteStore)
        ensures
            r.wf(),
            r@ == Map::<Seq<char>, (Seq<u8>, u64)>::empty(),
    {
        PasteStore { entries: Vec::new() }
    }

    /// Where the entry for `id` sits, if anywhere.
    fn find_index(&self, id: &PasteId) -> (r: Option<usize>)
        ensures
            match r {
                Some(i) => i < self.entries@.len() && self.entries@[i as int].id@ == id@,
                None => forall|i: int| 0 <= i < self.entries@.len()
                    ==> (#[trigger] self.entries@[i]).id@ != id@,
            },
    {
        let mut i: usize = 0;
        while i < self.entries.len()
            invariant
                i <= self.entries@.len(),
                forall|j: int| 0 <= j < i ==> (#[trigger] self.entries@[j]).id@ != id@,
            decreases self.entries@.len() - i,
        {
            if str_eq(self.entries[i].id.as_str(), id.as_str()) {
                return Some(i);
            }
            i += 1;
        }
        None
    }

    /// Whether an entry for `id` is currently present.
    pub fn contains(&self, id: &PasteId) -> (r: bool)
        requires
            self.wf(),
        ensures
            r == self@.contains_key(id@),
    {
        proof {
            lemma_store_map_props(self.entries@);
        }
        self.find_index(id).is_some()
    }

    /// Read the full stored bytes of `id`; `NotFound` exactly when no entry
    /// exists, whether it was never created or already deleted or evicted.
    pub fn read(&self, id: &PasteId) -> (r: Result<Vec<u8>, PasteError>)
        requires
            self.wf(),
        ensures
            self@.contains_key(id@) ==> (r matches Ok(c) && c@ == self@[id@].0),
            !self@.contains_key(id@) ==> r == Err::<Vec<u8>, PasteError>(PasteError::NotFound),
    {
        proof {
            lemma_store_map_props(self.entries@);
        }
        match self.find_index(id) {
            Some(i) => Ok(copy_bytes(&self.entries[i].content)),
            None => Err(PasteError::NotFound),
        }
    }

    /// Store `content` under `id` at time `now`, unless it exceeds
    /// `max_size`, in which case nothing of it is kept. Callers mint a
    /// fresh identifier for every creation, so no entry is displaced in
    /// practice; an entry already holding `id` would be replaced whole.
    pub fn create(&mut self, id: PasteId, content: Vec<u8>, max_size: usize, now: u64) -> (r:
        Result<(), PasteError>)
        requires
            old(self).wf(),
            id.wf(),
        ensures
            final(self).wf(),
            content@.len() <= max_size ==> r == Ok::<(), PasteError>(()) && final(self)@ == old(
                self,
            )@.insert(id@, (content@, now)),
            content@.len() > max_size ==> r == Err::<(), PasteError>(PasteError::PayloadTooLarge)
                && final(self)@ == old(self)@,
    {
        if content.len() > max_size {
            return Err(PasteError::PayloadTooLarge);
        }
        let ghost idv = id@;
        let ghost cv = content@;
        let ghost s0 = self.entries@;
        let ghost m0 = store_map(s0);
        proof {
            lemma_store_map_props(s0);
        }
        match self.find_index(&id) {
            Some(i) => {
                proof {
                    lemma_store_map_remove(s0, i as int);
                }
                let _ = self.entries.remove(i);
                let entry = Paste { id, content, modified_at: now };
                proof {
                    self.push_compatible(entry);
                    lemma_store_map_push(self.entries@, entry);
                }
                self.entries.push(entry);
                proof {
                    assert(store_map(self.entries@) =~= m0.insert(idv, (cv, now)));
                }
            },
            None => {
                let entry = Paste { id, content, modified_at: now };
                proof {
                    self.push_compatible(entry);
                    lemma_store_map_push(self.entries@, entry);
                }
                self.entries.push(entry);
            },
        }
        Ok(())
    }

    /// The pushed entry's identifier collides with nothing present, so the
    /// invariant survives the push.
    proof fn push_compatible(&self, entry: Paste)
        requires
            entry_ids_distinct(self.entries@),
            entry_ids_wf(self.entries@),
            entry.id.wf(),
            forall|j: int| 0 <= j < self.entries@.len()
                ==> (#[trigger] self.entries@[j]).id@ != entry.id@,
        ensures
            entry_ids_distinct(self.entries@.push(entry)),
            entry_ids_wf(self.entries@.push(entry)),
    {
        let s = self.entries@;
        let t = s.push(entry);
        assert forall|a: int, b: int| 0 <= a < b < t.len() implies t[a].id@ != t[b].id@ by {
            if b < s.len() {
                assert(t[a] == s[a] && t[b] == s[b]);
            } else {
                assert(t[a] == s[a] && t[b] == entry);
            }
        }
        assert forall|j: int| 0 <= j < t.len() implies (#[trigger] t[j]).id.wf() by {
            if j < s.len() {
                assert(t[j] == s[j]);
            } else {
                assert(t[j] == entry);
            }
        }
    }

    /// Overwrite the content of an existing entry atomically and refresh its
    /// eviction clock; an absent entry is `NotFound`, an oversized content is
    /// rejected whole.
    pub fn replace(&mut self, id: &PasteId, content: Vec<u8>, max_size: usize, now: u64) -> (r:
        Result<(), PasteError>)
        requires
            old(self).wf(),
        ensures
            final(self).wf(),
            !old(self)@.contains_key(id@) ==> r == Err::<(), PasteError>(PasteError::NotFound)
                && final(self)@ == old(self)@,
            old(self)@.contains_key(id@) && content@.len() > max_size ==> r == Err::<
                (),
                PasteError,
            >(PasteError::PayloadTooLarge) && final(self)@ == old(self)@,
            old(self)@.contains_key(id@) && content@.len() <= max_size ==> r == Ok::<
                (),
                PasteError,
            >(()) && final(self)@ == old(self)@.insert(id@, (content@, now)),
    {
        let ghost cv = content@;
        let ghost s0 = self.entries@;
        let ghost m0 = store_map(s0);
        proof {
            lemma_store_map_props(s0);
        }
        match self.find_index(id) {
            None => {
                proof {
                    if m0.contains_key(id@) {
                        let j = choose|j: int| 0 <= j < s0.len() && s0[j].id@ == id@;
                        assert(s0[j].id@ == id@);
                    }
                }
                Err(PasteError::NotFound)
            },
            Some(i) => {
                if content.len() > max_size {
                    return Err(PasteError::PayloadTooLarge);
                }
                proof {
                    lemma_store_map_remove(s0, i as int);
                }
                let old_entry = self.entries.remove(i);
                let entry = Paste { id: old_entry.id, content, modified_at: now };
                proof {
                    self.push_compatible(entry);
                    lemma_store_map_push(self.entries@, entry);
                }
                self.entries.push(entry);
                proof {
                    assert(store_map(self.entries@) =~= m0.insert(id@, (cv, now)));
                }
                Ok(())
            },
        }
    }

    /// Remove the entry for `id`. Deleting an already-gone entry reports
    /// `NotFound`, not success.
    pub fn delete(&mut self, id: &PasteId) -> (r: Result<(), PasteError>)
        requires
            old(self).wf(),
        ensures
            final(self).wf(),
            old(self)@.contains_key(id@) ==> r == Ok::<(), PasteError>(()) && final(self)@ == old(
                self,
            )@.remove(id@),
            !old(self)@.contains_key(id@) ==> r == Err::<(), PasteError>(PasteError::NotFound)
                && final(self)@ == old(self)@,
    {
        let ghost s0 = self.entries@;
        proof {
            lemma_store_map_props(s0);
        }
        match self.find_index(id) {
            Some(i) => {
                proof {
                    lemma_store_map_remove(s0, i as int);
                }
                let _ = self.entries.remove(i);
                Ok(())
            },
            None => {
                proof {
                    if store_map(s0).contains_key(id@) {
                        let j = choose|j: int| 0 <= j < s0.len() && s0[j].id@ == id@;
                        assert(s0[j].id@ == id@);
                    }
                }
                Err(PasteError::NotFound)
            },
        }
    }

    /// A snapshot of every current entry with its age at time `now`; the
    /// retention sweeper reads this to decide what to evict.
    #[verifier::loop_isolation(false)]
    pub fn list_with_age(&self, now: u64) -> (r: Vec<(PasteId, u64)>)
        requires
            self.wf(),
        ensures
            r@.len() == self@.dom().len(),
            forall|k: int| 0 <= k < r@.len() ==> self@.contains_key((#[trigger] r@[k]).0@)
                && r@[k].1 == age_of(self@[r@[k].0@].1, now),
            forall|id: Seq<char>| #[trigger] self@.contains_key(id) ==> exists|k: int|
                0 <= k < r@.len() && r@[k].0@ == id,
    {
        proof {
            lemma_store_map_props(self.entries@);
        }
        let mut r: Vec<(PasteId, u64)> = Vec::new();
        let mut i: usize = 0;
        while i < self.entries.len()
            invariant
                i <= self.entries@.len(),
                r@.len() == i,
                forall|k: int| 0 <= k < i ==> (#[trigger] r@[k]).0@ == self.entries@[k].id@
                    && r@[k].1 == age_of(self.entries@[k].modified_at, now),
            decreases self.entries@.len() - i,
        {
            let pid = self.entries[i].id.clone();
            let stamp = self.entries[i].modified_at;
            let age = if now >= stamp {
                now - stamp
            } else {
                0
            };
            r.push((pid, age));
            i += 1;
        }
        proof {
            assert forall|id: Seq<char>| self@.contains_key(id) implies exists|k: int|
                0 <= k < r@.len() && r@[k].0@ == id by {
                let j = choose|j: int| 0 <= j < self.entries@.len() && self.entries@[j].id@ == id;
                assert(r@[j].0@ == id);
            }
        }
        r
    }
}

/// Creation is visible: once `content` is stored under `id` at time `now`,
/// the store holds `id` and a read of it yields exactly `content`,
/// byte for byte.
pub proof fn lemma_create_then_read(
    m: Map<Seq<char>, (Seq<u8>, u64)>,
    id: Seq<char>,
    content: Seq<u8>,
    now: u64,
)
    ensures
        m.insert(id, (content, now)).contains_key(id),
        m.insert(id, (content, now))[id].0 == content,
{
}

/// Deletion is final: once `id` is removed, the store no longer holds it,
/// so a subsequent read reports `NotFound`.
pub proof fn lemma_delete_then_read(m: Map<Seq<char>, (Seq<u8>, u64)>, id: Seq<char>)
    ensures
        !m.remove(id).contains_key(id),
{
}

/// Replacement refreshes the eviction clock: after `id` is overwritten at
/// time `t`, its age at any later time `now` is measured from `t`, whatever
/// the entry's original creation time was.
pub proof fn lemma_replace_resets_age(
    m: Map<Seq<char>, (Seq<u8>, u64)>,
    id: Seq<char>,
    content: Seq<u8>,
    t: u64,
    now: u64,
)
    requires
        t <= now,
    ensures
        m.insert(id, (content, t)).contains_key(id),
        age_of(m.insert(id, (content, t))[id].1, now) == now - t,
{
}

/// A fresh byte-for-byte copy of `src`.
fn copy_bytes(src: &Vec<u8>) -> (r: Vec<u8>)
    ensures
        r@ == src@,
{
    let mut r: Vec<u8> = Vec::new();
    let mut i: usize = 0;
    while i < src.len()
        invariant
            i <= src@.len(),
            r@ == src@.subrange(0, i as int),
        decreases src@.len() - i,
    {
        r.push(src[i]);
        proof {
            assert(r@ =~= src@.subrange(0, i + 1));
        }
        i += 1;
    }
    proof {
        assert(r@ =~= src@);
    }
    r
}

} // verus!
