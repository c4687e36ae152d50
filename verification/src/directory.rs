//! The peer directory: presence bookkeeping, a mapping from identity to
//! that peer's outbound handle. Registration inserts or overwrites, removal
//! is a no-op when the identity is absent. The directory is never consulted
//! for delivery — fan-out is the broadcast bus's business — so its only
//! guarantee is that it is exactly the map its operations describe.

use vstd::prelude::*;
use vstd::map::*;

verus! {

/// No identity stands in the entry list twice.
pub(crate) open spec fn distinct_keys<V>(s: Seq<(String, V)>) -> bool {
    forall|i: int, j: int| 0 <= i < j < s.len() ==> s[i].0@ != s[j].0@
}

/// Whether some entry carries the identity `k`.
pub(crate) open spec fn has_key<V>(s: Seq<(String, V)>, k: Seq<char>) -> bool {
    exists|i: int| 0 <= i < s.len() && s[i].0@ == k
}

/// The position of the entry carrying `k` (meaningful only when `has_key`).
pub(crate) open spec fn key_index<V>(s: Seq<(String, V)>, k: Seq<char>) -> int {
    choose|i: int| 0 <= i < s.len() && s[i].0@ == k
}

/// The handle stored under `k` (meaningful only when `has_key`).
pub(crate) open spec fn value_at<V>(s: Seq<(String, V)>, k: Seq<char>) -> V {
    s[key_index(s, k)].1
}

/// The map an entry list stands for.
pub(crate) open spec fn map_of<V>(s: Seq<(String, V)>) -> Map<Seq<char>, V> {
    Map::new(|k: Seq<char>| has_key(s, k), |k: Seq<char>| value_at(s, k))
}

/// With distinct keys, an entry carrying `k` at position `i` is the one and
/// only witness: `key_index` and `value_at` point at it.
proof fn lemma_witness<V>(s: Seq<(String, V)>, k: Seq<char>, i: int)
    requires
        distinct_keys(s),
        0 <= i < s.len(),
        s[i].0@ == k,
    ensures
        has_key(s, k),
        key_index(s, k) == i,
        value_at(s, k) == s[i].1,
{
    assert(has_key(s, k));
    let j = key_index(s, k);
    assert(0 <= j < s.len() && s[j].0@ == k);
    if j < i {
        assert(s[j].0@ != s[i].0@);
    } else if i < j {
        assert(s[i].0@ != s[j].0@);
    }
}

/// Shared mapping from identity to outbound handle. Its abstract value is a
/// `Map` from the identity's text to the stored handle; every operation
/// says exactly what it does to that map.
pub struct PeerDirectory<V> {
    entries: Vec<(String, V)>,
}

impl<V> View for PeerDirectory<V> {
    type V = Map<Seq<char>, V>;

    closed spec fn view(&self) -> Map<Seq<char>, V> {
        map_of(self.entries@)
    }
}

impl<V> PeerDirectory<V> {
    /// One entry per identity, always. Established by `new` and preserved
    /// by every operation.
    pub closed spec fn wf(&self) -> bool {
        distinct_keys(self.entries@)
    }

    /// An empty directory.
    pub fn new() -> (r: Self)
        ensures
            r.wf(),
            r@ == Map::<Seq<char>, V>::empty(),
    {
        let r = PeerDirectory { entries: Vec::new() };
        proof {
            assert(r@ =~= Map::<Seq<char>, V>::empty());
        }
        r
    }

    /// Inserts, or overwrites, the entry for `id`. Never fails.
    pub fn register(&mut self, id: String, v: V)
        requires
            old(self).wf(),
        ensures
            final(self).wf(),
            final(self)@ == old(self)@.insert(id@, v),
    {
        let ghost prior = self.entries@;
        let n = self.entries.len();
        let mut i: usize = 0;
        while i < n
            invariant
                i <= n,
                n == self.entries@.len(),
                self.entries@ == prior,
                prior == old(self).entries@,
                distinct_keys(prior),
                forall|j: int| 0 <= j < i ==> prior[j].0@ != id@,
            decreases n - i,
        {
            if self.entries[i].0 == id {
                let ghost k = id@;
                self.entries[i] = (id, v);
                proof {
                    lemma_register_overwrite(prior, self.entries@, k, v, i as int);
                }
                return;
            }
            i = i + 1;
        }
        self.entries.push((id, v));
        proof {
            lemma_register_fresh(prior, self.entries@, id@, v);
        }
    }

    /// Removes the entry for `id` if present; a no-op when it is absent
    /// (for instance, already overwritten by a later connection).
    pub fn unregister(&mut self, id: &str)
        requires
            old(self).wf(),
        ensures
            final(self).wf(),
            final(self)@ == old(self)@.remove(id@),
    {
        let ghost prior = self.entries@;
        let key: String = id.to_owned();
        let n = self.entries.len();
        let mut i: usize = 0;
        while i < n
            invariant
                i <= n,
                n == self.entries@.len(),
                self.entries@ == prior,
                prior == old(self).entries@,
                distinct_keys(prior),
                key@ == id@,
                forall|j: int| 0 <= j < i ==> prior[j].0@ != id@,
            decreases n - i,
        {
            if self.entries[i].0 == key {
                self.entries.remove(i);
                proof {
                    lemma_unregister_hit(prior, self.entries@, id@, i as int);
                }
                return;
            }
            i = i + 1;
        }
        proof {
            assert(!has_key(prior, id@));
            assert(self@ =~= old(self)@.remove(id@));
        }
    }

    /// Whether `id` is currently registered.
    pub fn contains(&self, id: &str) -> (r: bool)
        ensures
            r == self@.contains_key(id@),
    {
        let key: String = id.to_owned();
        let n = self.entries.len();
        let mut i: usize = 0;
        while i < n
            invariant
                i <= n,
                n == self.entries@.len(),
                key@ == id@,
                forall|j: int| 0 <= j < i ==> self.entries@[j].0@ != id@,
            decreases n - i,
        {
            if self.entries[i].0 == key {
                return true;
            }
            i = i + 1;
        }
        false
    }

    /// The handle registered under `id`, if any.
    pub fn get(&self, id: &str) -> (r: Option<&V>)
        requires
            self.wf(),
        ensures
            (r matches Some(v) ==> self@.contains_key(id@) && *v == self@[id@]),
            r is None ==> !self@.contains_key(id@),
    {
        let key: String = id.to_owned();
        let n = self.entries.len();
        let mut i: usize = 0;
        while i < n
            invariant
                i <= n,
                n == self.entries@.len(),
                key@ == id@,
                distinct_keys(self.entries@),
                forall|j: int| 0 <= j < i ==> self.entries@[j].0@ != id@,
            decreases n - i,
        {
            if self.entries[i].0 == key {
                proof {
                    lemma_witness(self.entries@, id@, i as int);
                }
                return Some(&self.entries[i].1);
            }
            i = i + 1;
        }
        None
    }
}

/// Overwriting the entry at `i` (whose key is `k`) turns the directory's
/// map into the old map with `k` bound to the new handle.
proof fn lemma_register_overwrite<V>(
    prior: Seq<(String, V)>,
    now: Seq<(String, V)>,
    k: Seq<char>,
    v: V,
    i: int,
)
    requires
        distinct_keys(prior),
        0 <= i < prior.len(),
        prior[i].0@ == k,
        now.len() == prior.len(),
        now[i].0@ == k,
        now[i].1 == v,
        forall|j: int| 0 <= j < now.len() && j != i ==> now[j] == prior[j],
    ensures
        distinct_keys(now),
        map_of(now) == map_of(prior).insert(k, v),
{
    assert forall|a: int, b: int| 0 <= a < b < now.len() implies now[a].0@ != now[b].0@ by {
        assert(prior[a].0@ != prior[b].0@);
    }
    let m_now = map_of(now);
    let m_prior = map_of(prior);
    assert_maps_equal!(m_now, m_prior.insert(k, v), q => {
        if q == k {
            lemma_witness(now, k, i);
        } else {
            if has_key(now, q) {
                let j = key_index(now, q);
                assert(now[j].0@ == q);
                assert(j != i);
                lemma_witness(prior, q, j);
                lemma_witness(now, q, j);
            }
            if has_key(prior, q) {
                let j = key_index(prior, q);
                assert(prior[j].0@ == q);
                assert(j != i);
                lemma_witness(prior, q, j);
                lemma_witness(now, q, j);
            }
        }
    });
}

/// Appending an entry with a fresh key turns the directory's map into the
/// old map with that key bound to the new handle.
proof fn lemma_register_fresh<V>(prior: Seq<(String, V)>, now: Seq<(String, V)>, k: Seq<char>, v: V)
    requires
        distinct_keys(prior),
        forall|j: int| 0 <= j < prior.len() ==> prior[j].0@ != k,
        now.len() == prior.len() + 1,
        now[prior.len() as int].0@ == k,
        now[prior.len() as int].1 == v,
        forall|j: int| 0 <= j < prior.len() ==> now[j] == prior[j],
    ensures
        distinct_keys(now),
        map_of(now) == map_of(prior).insert(k, v),
{
    let last = prior.len() as int;
    assert forall|a: int, b: int| 0 <= a < b < now.len() implies now[a].0@ != now[b].0@ by {
        if b < last {
            assert(prior[a].0@ != prior[b].0@);
        }
    }
    let m_now = map_of(now);
    let m_prior = map_of(prior);
    assert_maps_equal!(m_now, m_prior.insert(k, v), q => {
        if q == k {
            lemma_witness(now, k, last);
        } else {
            if has_key(now, q) {
                let j = key_index(now, q);
                assert(now[j].0@ == q);
                assert(j != last);
                lemma_witness(prior, q, j);
                lemma_witness(now, q, j);
            }
            if has_key(prior, q) {
                let j = key_index(prior, q);
                assert(prior[j].0@ == q);
                lemma_witness(prior, q, j);
                lemma_witness(now, q, j);
            }
        }
    });
}

/// Removing the entry at `i` (whose key is `k`) turns the directory's map
/// into the old map without `k`.
proof fn lemma_unregister_hit<V>(prior: Seq<(String, V)>, now: Seq<(String, V)>, k: Seq<char>, i: int)
    requires
        distinct_keys(prior),
        0 <= i < prior.len(),
        prior[i].0@ == k,
        now == prior.remove(i),
    ensures
        distinct_keys(now),
        map_of(now) == map_of(prior).remove(k),
{
    assert forall|a: int, b: int| 0 <= a < b < now.len() implies now[a].0@ != now[b].0@ by {
        let pa: int = if a < i { a } else { a + 1 };
        let pb: int = if b < i { b } else { b + 1 };
        assert(now[a] == prior[pa]);
        assert(now[b] == prior[pb]);
        assert(prior[pa].0@ != prior[pb].0@);
    }
    let m_now = map_of(now);
    let m_prior = map_of(prior);
    assert_maps_equal!(m_now, m_prior.remove(k), q => {
        if q == k {
            assert forall|j: int| 0 <= j < now.len() implies now[j].0@ != k by {
                let pj: int = if j < i { j } else { j + 1 };
                assert(now[j] == prior[pj]);
                lemma_witness(prior, k, i);
                if prior[pj].0@ == k {
                    lemma_witness(prior, k, pj);
                }
            }
        } else {
            if has_key(now, q) {
                let j = key_index(now, q);
                assert(now[j].0@ == q);
                let pj: int = if j < i { j } else { j + 1 };
                assert(now[j] == prior[pj]);
                lemma_witness(prior, q, pj);
                lemma_witness(now, q, j);
            }
            if has_key(prior, q) {
                let pj = key_index(prior, q);
                assert(prior[pj].0@ == q);
                assert(pj != i);
                let j: int = if pj < i { pj } else { pj - 1 };
                assert(now[j] == prior[pj]);
                lemma_witness(prior, q, pj);
                lemma_witness(now, q, j);
            }
        }
    });
}

/// Law: removing one identity's entry leaves every other identity's entry
/// exactly as it was — disconnecting one client never touches another
/// client's registration.
pub proof fn lemma_unregister_frames_others<V>(m: Map<Seq<char>, V>, a: Seq<char>, b: Seq<char>)
    requires
        a != b,
    ensures
        m.remove(a).contains_key(b) == m.contains_key(b),
        m.contains_key(b) ==> m.remove(a)[b] == m[b],
{
}

/// Law: when two connections register the same identity, the second
/// registration replaces the first's entry; removing that identity once
/// leaves no entry, and a second removal (the first connection's own,
/// later cleanup) is a no-op.
pub proof fn lemma_same_identity_overwrite<V>(m: Map<Seq<char>, V>, id: Seq<char>, v1: V, v2: V)
    ensures
        m.insert(id, v1).insert(id, v2) == m.insert(id, v2),
        m.insert(id, v2).remove(id) == m.insert(id, v1).remove(id),
        m.remove(id).remove(id) == m.remove(id),
{
    assert(m.insert(id, v1).insert(id, v2) =~= m.insert(id, v2));
    assert(m.insert(id, v2).remove(id) =~= m.insert(id, v1).remove(id));
    assert(m.remove(id).remove(id) =~= m.remove(id));
}

} // verus!
