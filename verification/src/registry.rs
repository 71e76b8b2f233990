//! Subscription registry.
//!
//! An in-memory multimap from channel key to the ordered list of
//! currently-waiting requests, owned exclusively by the dispatch thread.  Its
//! view is a map from key to waiter sequence; `push_waiter` appends under a
//! key and reports whether the key is new (so the caller subscribes exactly
//! on the first waiter), and `remove_key` drains a key's whole list (so an
//! event replies to every waiter exactly once and to nobody else).

use vstd::prelude::*;

use crate::codec::str_eq;
use crate::notifier::NotifyRequest;
use vstd::map::*;

verus! {

struct Entry {
    key: String,
    waiters: Vec<NotifyRequest>,
}

/// `s[i]` holds key `k`.
spec fn has_key_at(s: Seq<Entry>, k: Seq<char>, i: int) -> bool {
    0 <= i < s.len() && s[i].key@ == k
}

/// Some entry holds key `k`.
spec fn has_key(s: Seq<Entry>, k: Seq<char>) -> bool {
    exists|i: int| has_key_at(s, k, i)
}

/// The index of the entry holding key `k`.
spec fn index_of(s: Seq<Entry>, k: Seq<char>) -> int {
    choose|i: int| has_key_at(s, k, i)
}

/// The entry sequence read as a map from key to waiter list.
spec fn entries_map(s: Seq<Entry>) -> Map<Seq<char>, Seq<NotifyRequest>> {
    Map::new(|k: Seq<char>| has_key(s, k), |k: Seq<char>| s[index_of(s, k)].waiters@)
}

/// Keys are pairwise distinct.
spec fn wf_seq(s: Seq<Entry>) -> bool {
    forall|i: int, j: int|
        0 <= i < s.len() && 0 <= j < s.len() && i != j ==> s[i].key@ != s[j].key@
}

/// The registry map after appending `req` under key `k`.
pub open spec fn appended(
    m: Map<Seq<char>, Seq<NotifyRequest>>,
    k: Seq<char>,
    req: NotifyRequest,
) -> Map<Seq<char>, Seq<NotifyRequest>> {
    if m.contains_key(k) {
        m.insert(k, m[k].push(req))
    } else {
        m.insert(k, seq![req])
    }
}

/// The waiters registered under `k`: empty when the key is absent.
pub open spec fn waiters_for(m: Map<Seq<char>, Seq<NotifyRequest>>, k: Seq<char>) -> Seq<
    NotifyRequest,
> {
    if m.contains_key(k) {
        m[k]
    } else {
        Seq::empty()
    }
}

/// Every key the map holds has at least one waiter.
pub open spec fn all_keys_occupied(m: Map<Seq<char>, Seq<NotifyRequest>>) -> bool {
    forall|k: Seq<char>| m.contains_key(k) ==> (#[trigger] m[k]).len() > 0
}

/// A key sits in the registry exactly while waiters sit under it: appending
/// keeps every list non-empty, and draining takes the key out with its list.
/// The dispatcher subscribes on the first append and unsubscribes on the
/// drain, so a key is subscribed if and only if someone waits on it.
pub proof fn lemma_occupancy_preserved(
    m: Map<Seq<char>, Seq<NotifyRequest>>,
    k: Seq<char>,
    req: NotifyRequest,
)
    requires
        all_keys_occupied(m),
    ensures
        all_keys_occupied(appended(m, k, req)),
        appended(m, k, req).contains_key(k),
        all_keys_occupied(m.remove(k)),
        !m.remove(k).contains_key(k),
{
    let m2 = appended(m, k, req);
    assert forall|kk: Seq<char>| m2.contains_key(kk) implies (#[trigger] m2[kk]).len() > 0 by {
        if kk != k {
            assert(m2[kk] == m[kk]);
        }
    }
}

/// In-memory multimap from channel key to the ordered list of waiters.
pub struct Registry {
    entries: Vec<Entry>,
}

impl View for Registry {
    type V = Map<Seq<char>, Seq<NotifyRequest>>;

    closed spec fn view(&self) -> Map<Seq<char>, Seq<NotifyRequest>> {
        entries_map(self.entries@)
    }
}

/// An entry holding `k` pins the key's membership and its waiter list.
proof fn lemma_entries_map_value(s: Seq<Entry>, k: Seq<char>, j: int)
    requires
        wf_seq(s),
        has_key_at(s, k, j),
    ensures
        entries_map(s).contains_key(k),
        entries_map(s)[k] == s[j].waiters@,
{
    assert(has_key(s, k));
    let i = index_of(s, k);
    assert(has_key_at(s, k, i));
    assert(i == j);
}

/// Updating an entry in place appends to exactly that key's list.
proof fn lemma_update_entry(s: Seq<Entry>, i: int, e: Entry, req: NotifyRequest)
    requires
        wf_seq(s),
        0 <= i < s.len(),
        e.key@ == s[i].key@,
        e.waiters@ == s[i].waiters@.push(req),
    ensures
        wf_seq(s.update(i, e)),
        entries_map(s.update(i, e)) == appended(entries_map(s), s[i].key@, req),
{
    let s2 = s.update(i, e);
    let k = s[i].key@;
    assert(forall|x: int| 0 <= x < s.len() ==> s2[x].key@ == s[x].key@);
    lemma_entries_map_value(s, k, i);
    lemma_entries_map_value(s2, k, i);
    assert_maps_equal!(entries_map(s2), appended(entries_map(s), k, req), kk => {
        if kk == k {
        } else {
            if has_key(s, kk) {
                let j = index_of(s, kk);
                assert(has_key_at(s, kk, j));
                assert(j != i);
                lemma_entries_map_value(s2, kk, j);
                lemma_entries_map_value(s, kk, j);
            }
            if has_key(s2, kk) {
                let j = index_of(s2, kk);
                assert(has_key_at(s2, kk, j));
                assert(j != i);
                lemma_entries_map_value(s2, kk, j);
                lemma_entries_map_value(s, kk, j);
            }
        }
    });
}

/// Pushing an entry with a fresh key starts exactly that key's list.
proof fn lemma_push_entry(s: Seq<Entry>, e: Entry, req: NotifyRequest)
    requires
        wf_seq(s),
        !has_key(s, e.key@),
        e.waiters@ == seq![req],
    ensures
        wf_seq(s.push(e)),
        entries_map(s.push(e)) == appended(entries_map(s), e.key@, req),
{
    let s2 = s.push(e);
    let k = e.key@;
    assert(forall|x: int| 0 <= x < s.len() ==> s2[x] == s[x]);
    assert(has_key_at(s2, k, s.len() as int));
    assert forall|a: int, b: int|
        0 <= a < s2.len() && 0 <= b < s2.len() && a != b implies s2[a].key@ != s2[b].key@ by {
        if a < s.len() && b < s.len() {
        } else if a < s.len() {
            assert(has_key_at(s, s[a].key@, a));
        } else {
            assert(has_key_at(s, s[b].key@, b));
        }
    }
    lemma_entries_map_value(s2, k, s.len() as int);
    assert_maps_equal!(entries_map(s2), appended(entries_map(s), k, req), kk => {
        if kk == k {
        } else {
            if has_key(s, kk) {
                let j = index_of(s, kk);
                assert(has_key_at(s, kk, j));
                lemma_entries_map_value(s2, kk, j);
                lemma_entries_map_value(s, kk, j);
            }
            if has_key(s2, kk) {
                let j = index_of(s2, kk);
                assert(has_key_at(s2, kk, j));
                assert(j < s.len());
                lemma_entries_map_value(s2, kk, j);
                lemma_entries_map_value(s, kk, j);
            }
        }
    });
}

/// Removing an entry removes exactly that key.
proof fn lemma_remove_entry(s: Seq<Entry>, i: int)
    requires
        wf_seq(s),
        0 <= i < s.len(),
    ensures
        wf_seq(s.remove(i)),
        entries_map(s.remove(i)) == entries_map(s).remove(s[i].key@),
{
    let s2 = s.remove(i);
    let k = s[i].key@;
    assert(forall|x: int| 0 <= x < i ==> s2[x] == s[x]);
    assert(forall|x: int| i <= x < s2.len() ==> s2[x] == s[x + 1]);
    assert forall|a: int, b: int|
        0 <= a < s2.len() && 0 <= b < s2.len() && a != b implies s2[a].key@ != s2[b].key@ by {
        let a0: int = if a < i {
            a
        } else {
            a + 1
        };
        let b0: int = if b < i {
            b
        } else {
            b + 1
        };
        assert(s2[a] == s[a0]);
        assert(s2[b] == s[b0]);
    }
    assert_maps_equal!(entries_map(s2), entries_map(s).remove(k), kk => {
        if kk == k {
            if has_key(s2, kk) {
                let j = index_of(s2, kk);
                assert(has_key_at(s2, kk, j));
                let j0: int = if j < i { j } else { j + 1 };
                assert(s2[j] == s[j0]);
                assert(j0 != i);
                assert(false);
            }
        } else {
            if has_key(s, kk) {
                let j = index_of(s, kk);
                assert(has_key_at(s, kk, j));
                assert(j != i);
                let j2: int = if j < i { j } else { j - 1 };
                assert(s2[j2] == s[j]);
                lemma_entries_map_value(s2, kk, j2);
                lemma_entries_map_value(s, kk, j);
            }
            if has_key(s2, kk) {
                let j = index_of(s2, kk);
                assert(has_key_at(s2, kk, j));
                let j0: int = if j < i { j } else { j + 1 };
                assert(s2[j] == s[j0]);
                lemma_entries_map_value(s2, kk, j);
                lemma_entries_map_value(s, kk, j0);
            }
        }
    });
}

impl Registry {
    /// Keys are pairwise distinct.
    pub closed spec fn wf(&self) -> bool {
        wf_seq(self.entries@)
    }

    /// An empty registry.
    pub fn new() -> (r: Registry)
        ensures
            r.wf(),
            r@ == Map::<Seq<char>, Seq<NotifyRequest>>::empty(),
    {
        let r = Registry { entries: Vec::new() };
        proof {
            assert(r@ =~= Map::<Seq<char>, Seq<NotifyRequest>>::empty());
        }
        r
    }

    /// The index of the entry holding `key`, if any.
    fn find_index(&self, key: &str) -> (r: Option<usize>)
        ensures
            match r {
                Some(i) => has_key_at(self.entries@, key@, i as int),
                None => !has_key(self.entries@, key@),
            },
    {
        let mut i: usize = 0;
        while i < self.entries.len()
            invariant
                i <= self.entries@.len(),
                forall|j: int| 0 <= j < i ==> self.entries@[j].key@ != key@,
            decreases self.entries@.len() - i,
        {
            if str_eq(self.entries[i].key.as_str(), key) {
                return Some(i);
            }
            i += 1;
        }
        None
    }

    /// Does any waiter sit under `key`?
    pub fn contains_key(&self, key: &str) -> (r: bool)
        ensures
            r == self@.contains_key(key@),
    {
        match self.find_index(key) {
            Some(i) => {
                proof {
                    assert(has_key(self.entries@, key@));
                }
                true
            },
            None => false,
        }
    }

    /// Append a waiter under `key`; true when the key had no list yet (the
    /// caller then subscribes to the channel).
    pub fn push_waiter(&mut self, key: String, req: NotifyRequest) -> (is_new: bool)
        requires
            old(self).wf(),
        ensures
            final(self).wf(),
            is_new == !old(self)@.contains_key(key@),
            final(self)@ == appended(old(self)@, key@, req),
    {
        match self.find_index(key.as_str()) {
            Some(i) => {
                proof {
                    lemma_entries_map_value(self.entries@, key@, i as int);
                }
                let ghost s0 = self.entries@;
                let mut entry = self.entries.remove(i);
                entry.waiters.push(req);
                self.entries.insert(i, entry);
                proof {
                    assert(self.entries@ =~= s0.update(i as int, self.entries@[i as int]));
                    lemma_update_entry(s0, i as int, self.entries@[i as int], req);
                }
                false
            },
            None => {
                let ghost s0 = self.entries@;
                let mut waiters = Vec::new();
                waiters.push(req);
                let entry = Entry { key, waiters };
                proof {
                    assert(entry.waiters@ =~= seq![req]);
                }
                self.entries.push(entry);
                proof {
                    lemma_push_entry(s0, self.entries@.last(), req);
                }
                true
            },
        }
    }

    /// Drain `key`: hand back its whole waiter list, in registration order,
    /// and forget the key.
    pub fn remove_key(&mut self, key: &str) -> (r: Vec<NotifyRequest>)
        requires
            old(self).wf(),
        ensures
            final(self).wf(),
            final(self)@ == old(self)@.remove(key@),
            r@ == waiters_for(old(self)@, key@),
    {
        match self.find_index(key) {
            Some(i) => {
                proof {
                    lemma_entries_map_value(self.entries@, key@, i as int);
                    lemma_remove_entry(self.entries@, i as int);
                }
                let e = self.entries.remove(i);
                e.waiters
            },
            None => {
                proof {
                    assert(self@.remove(key@) =~= self@);
                }
                Vec::new()
            },
        }
    }
}

} // verus!
