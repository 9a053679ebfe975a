//! The client pool: a cache of configured HTTP client handles.
//!
//! Clients are expensive to build (TLS configuration, connection pools)
//! and security-relevant to share: two requests may share a client only
//! when both their emulation profile and their certificate-verification
//! policy agree. The pool therefore maps a `ClientKey` to one client
//! handle, holds at most one entry per key, and never evicts. The handle
//! type is a parameter: the pool's bookkeeping does not depend on it.

use vstd::prelude::*;

verus! {

/// The cache identity of a client: emulation profile (or none) and
/// whether certificate verification is disabled.
pub struct ClientKey {
    pub emulation: Option<String>,
    pub insecure_skip_verify: bool,
}

impl View for ClientKey {
    type V = (Option<Seq<char>>, bool);

    open spec fn view(&self) -> (Option<Seq<char>>, bool) {
        (
            match self.emulation {
                Some(s) => Some(s@),
                None => None,
            },
            self.insecure_skip_verify,
        )
    }
}

/// Whether two keys name the same client configuration.
pub fn keys_equal(a: &ClientKey, b: &ClientKey) -> (r: bool)
    ensures
        r == (a@ == b@),
{
    let profiles_match = match (&a.emulation, &b.emulation) {
        (Some(x), Some(y)) => *x == *y,
        (None, None) => true,
        _ => false,
    };
    profiles_match && a.insecure_skip_verify == b.insecure_skip_verify
}

/// A cache from client keys to client handles, one entry per key.
pub struct ClientPool<C> {
    entries: Vec<(ClientKey, C)>,
}

impl<C> ClientPool<C> {
    /// The cached entries, as (key view, client) pairs in insertion order.
    pub closed spec fn entries_view(&self) -> Seq<((Option<Seq<char>>, bool), C)> {
        self.entries@.map_values(|e: (ClientKey, C)| (e.0@, e.1))
    }

    /// A key is cached at most once.
    pub open spec fn wf(&self) -> bool {
        forall|i: int, j: int|
            0 <= i < j < self.entries_view().len() ==> #[trigger] self.entries_view()[i].0 != (
            #[trigger] self.entries_view()[j].0)
    }

    /// Whether some entry carries this key.
    pub open spec fn contains_key(&self, k: (Option<Seq<char>>, bool)) -> bool {
        exists|i: int|
            0 <= i < self.entries_view().len() && #[trigger] self.entries_view()[i].0 == k
    }

    /// A new, empty pool.
    pub fn new() -> (r: ClientPool<C>)
        ensures
            r.entries_view() == Seq::<((Option<Seq<char>>, bool), C)>::empty(),
            r.wf(),
    {
        let r = ClientPool { entries: Vec::new() };
        proof {
            assert(r.entries_view() =~= Seq::<((Option<Seq<char>>, bool), C)>::empty());
        }
        r
    }

    /// Looks a key up: the index of its entry, or `None` when the key has
    /// no client yet.
    pub fn find(&self, key: &ClientKey) -> (r: Option<usize>)
        ensures
            r matches Some(i) ==> i < self.entries_view().len() && self.entries_view()[
                i as int
            ].0 == key@,
            r is None ==> !self.contains_key(key@),
    {
        let n = self.entries.len();
        let mut i: usize = 0;
        while i < n
            invariant
                0 <= i <= n,
                n == self.entries@.len(),
                self.entries_view().len() == n,
                forall|j: int| 0 <= j < i ==> #[trigger] self.entries_view()[j].0 != key@,
            decreases n - i,
        {
            if keys_equal(&self.entries[i].0, key) {
                proof {
                    assert(self.entries_view()[i as int].0 == key@);
                }
                return Some(i);
            }
            proof {
                assert(self.entries_view()[i as int].0 == self.entries@[i as int].0@);
            }
            i = i + 1;
        }
        None
    }

    /// Caches a client for a key that has none yet; the entry is permanent.
    /// Returns the new entry's index.
    pub fn insert(&mut self, key: ClientKey, client: C) -> (i: usize)
        requires
            old(self).wf(),
            !old(self).contains_key(key@),
        ensures
            final(self).wf(),
            i == old(self).entries_view().len(),
            final(self).entries_view() == old(self).entries_view().push((key@, client)),
            final(self).contains_key(key@),
    {
        let i = self.entries.len();
        let ghost kv = key@;
        self.entries.push((key, client));
        proof {
            assert(self.entries_view() =~= old(self).entries_view().push((kv, client)));
            assert(self.entries_view()[i as int].0 == kv);
            assert forall|a: int, b: int|
                0 <= a < b < self.entries_view().len() implies #[trigger] self.entries_view()[
                a
            ].0 != (#[trigger] self.entries_view()[b].0) by {
                if b < i {
                    assert(old(self).entries_view()[a].0 != old(self).entries_view()[b].0);
                } else {
                    assert(b == i);
                    assert(self.entries_view()[a].0 == old(self).entries_view()[a].0);
                    assert(!old(self).contains_key(kv));
                }
            }
        }
        i
    }

    /// Borrows the client handle cached at `i`.
    pub fn client_at(&self, i: usize) -> (r: &C)
        requires
            i < self.entries_view().len(),
        ensures
            *r == self.entries_view()[i as int].1,
    {
        proof {
            assert(self.entries_view()[i as int].1 == self.entries@[i as int].1);
        }
        &self.entries[i].1
    }

    /// The number of cached clients.
    pub fn len(&self) -> (n: usize)
        ensures
            n == self.entries_view().len(),
    {
        self.entries.len()
    }
}

/// One client per key: in a well-formed pool, two entries that carry the
/// same key are the same entry, so every lookup of a key observes the
/// same cached client handle.
pub proof fn lemma_same_key_same_client<C>(p: &ClientPool<C>, i: int, j: int)
    requires
        p.wf(),
        0 <= i < p.entries_view().len(),
        0 <= j < p.entries_view().len(),
        p.entries_view()[i].0 == p.entries_view()[j].0,
    ensures
        i == j,
        p.entries_view()[i].1 == p.entries_view()[j].1,
{
    if i < j {
        assert(p.entries_view()[i].0 != p.entries_view()[j].0);
    }
    if j < i {
        assert(p.entries_view()[j].0 != p.entries_view()[i].0);
    }
}

} // verus!
