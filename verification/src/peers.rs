//! The keyboard/mouse server's registry of peers: for each peer id, the
//! address to send to. A peer is registered (or its address refreshed) each
//! time a datagram arrives from it; messages go to one peer or to all.
use vstd::prelude::*;
use crate::text::string_views;

verus! {

/// Whether no two entries share a peer id.
pub open spec fn distinct_keys(s: Seq<(Seq<char>, Seq<char>)>) -> bool {
    forall|i: int, j: int| 0 <= i < j < s.len() ==> #[trigger] s[i].0 != #[trigger] s[j].0
}

/// Whether some entry has the peer id `k`.
pub open spec fn has_peer(s: Seq<(Seq<char>, Seq<char>)>, k: Seq<char>) -> bool {
    exists|i: int| 0 <= i < s.len() && #[trigger] s[i].0 == k
}

/// The position of the entry with peer id `k` (meaningful where there is one).
pub open spec fn index_of_peer(s: Seq<(Seq<char>, Seq<char>)>, k: Seq<char>) -> int {
    choose|i: int| 0 <= i < s.len() && #[trigger] s[i].0 == k
}

/// The address registered for peer `k`, if any.
pub open spec fn spec_lookup(s: Seq<(Seq<char>, Seq<char>)>, k: Seq<char>) -> Option<Seq<char>> {
    if has_peer(s, k) {
        Some(s[index_of_peer(s, k)].1)
    } else {
        None
    }
}

/// The addresses of the entries, in order.
pub open spec fn addresses_of(s: Seq<(Seq<char>, Seq<char>)>) -> Seq<Seq<char>> {
    s.map_values(|e: (Seq<char>, Seq<char>)| e.1)
}

/// The registry after registering `k` at address `v`: the address of an
/// existing entry is replaced in place, a new peer is appended.
pub open spec fn spec_insert(s: Seq<(Seq<char>, Seq<char>)>, k: Seq<char>, v: Seq<char>) -> Seq<
    (Seq<char>, Seq<char>),
> {
    if has_peer(s, k) {
        s.update(index_of_peer(s, k), (k, v))
    } else {
        s.push((k, v))
    }
}

/// Registered peers and their addresses, in order of first registration.
pub struct PeerRegistry {
    entries: Vec<(String, String)>,
}

impl View for PeerRegistry {
    type V = Seq<(Seq<char>, Seq<char>)>;

    closed spec fn view(&self) -> Seq<(Seq<char>, Seq<char>)> {
        self.entries@.map_values(|e: (String, String)| (e.0@, e.1@))
    }
}

impl PeerRegistry {
    #[verifier::type_invariant]
    closed spec fn keys_distinct(self) -> bool {
        distinct_keys(self@)
    }

    /// An empty registry.
    pub fn new() -> (r: Self)
        ensures
            r@ == Seq::<(Seq<char>, Seq<char>)>::empty(),
            distinct_keys(r@),
    {
        let r = PeerRegistry { entries: Vec::new() };
        assert(r@ =~= Seq::<(Seq<char>, Seq<char>)>::empty());
        r
    }

    /// The number of registered peers.
    pub fn len(&self) -> (r: usize)
        ensures
            r == self@.len(),
    {
        self.entries.len()
    }

    /// Position of the entry for `peer`, if any.
    fn find(&self, peer: &String) -> (r: Option<usize>)
        ensures
            r matches Some(i) ==> i < self@.len() && self@[i as int].0 == peer@,
            r is None ==> !has_peer(self@, peer@),
    {
        let n = self.entries.len();
        for i in 0..n
            invariant
                n == self.entries@.len(),
                forall|j: int| 0 <= j < i ==> self@[j].0 != peer@,
        {
            if self.entries[i].0 == *peer {
                return Some(i);
            }
        }
        None
    }

    /// Registers `peer` at address `addr`.
    pub fn insert(&mut self, peer: String, addr: String)
        ensures
            final(self)@ == spec_insert(old(self)@, peer@, addr@),
            distinct_keys(old(self)@),
            distinct_keys(final(self)@),
    {
        proof {
            use_type_invariant(&*self);
        }
        let ghost s = self@;
        proof {
            lemma_insert_keeps_distinct(s, peer@, addr@);
        }
        match self.find(&peer) {
            Some(i) => {
                proof {
                    assert(s[index_of_peer(s, peer@)].0 == peer@);
                    if index_of_peer(s, peer@) != i as int {
                        let a = if i < index_of_peer(s, peer@) { i as int } else { index_of_peer(s, peer@) };
                        let b = if i < index_of_peer(s, peer@) { index_of_peer(s, peer@) } else { i as int };
                        assert(s[a].0 == s[b].0);
                    }
                }
                let mut entries: Vec<(String, String)> = Vec::new();
                std::mem::swap(&mut entries, &mut self.entries);
                entries.set(i, (peer, addr));
                assert(entries@.map_values(|e: (String, String)| (e.0@, e.1@)) =~= spec_insert(s, peer@, addr@));
                self.entries = entries;
            },
            None => {
                let mut entries: Vec<(String, String)> = Vec::new();
                std::mem::swap(&mut entries, &mut self.entries);
                entries.push((peer, addr));
                assert(entries@.map_values(|e: (String, String)| (e.0@, e.1@)) =~= spec_insert(s, peer@, addr@));
                self.entries = entries;
            },
        }
    }

    /// The address registered for `peer`, if any.
    pub fn get(&self, peer: &str) -> (r: Option<&String>)
        ensures
            r matches Some(a) ==> spec_lookup(self@, peer@) == Some(a@),
            r is None ==> spec_lookup(self@, peer@) is None,
    {
        proof {
            use_type_invariant(self);
        }
        let key = peer.to_owned();
        match self.find(&key) {
            Some(i) => {
                proof {
                    let s = self@;
                    let j = index_of_peer(s, peer@);
                    assert(s[j].0 == peer@);
                    if j != i as int {
                        let a = if (i as int) < j { i as int } else { j };
                        let b = if (i as int) < j { j } else { i as int };
                        assert(s[a].0 == s[b].0);
                    }
                }
                Some(&self.entries[i].1)
            },
            None => None,
        }
    }

    /// The addresses of all registered peers, in registry order.
    pub fn addresses(&self) -> (r: Vec<String>)
        ensures
            string_views(r@) == addresses_of(self@),
    {
        let mut r: Vec<String> = Vec::new();
        let n = self.entries.len();
        for i in 0..n
            invariant
                n == self.entries@.len(),
                n == self@.len(),
                r@.len() == i,
                string_views(r@) == addresses_of(self@.take(i as int)),
        {
            let a = self.entries[i].1.clone();
            assert(self@[i as int].1 == a@);
            let ghost old_r = r@;
            r.push(a);
            assert forall|j: int| 0 <= j < i + 1 implies #[trigger] string_views(r@)[j]
                == addresses_of(self@.take(i + 1))[j] by {
                if j == i {
                    assert(r@[j] == a);
                    assert(self@.take(i + 1)[j] == self@[j]);
                } else {
                    assert(r@[j] == old_r[j]);
                    assert(self@.take(i + 1)[j] == self@.take(i as int)[j]);
                    assert(string_views(old_r)[j] == addresses_of(self@.take(i as int))[j]);
                }
            }
            assert(string_views(r@) =~= addresses_of(self@.take(i + 1)));
        }
        assert(self@.take(n as int) =~= self@);
        r
    }
}

/// Registering keeps peer ids distinct.
pub proof fn lemma_insert_keeps_distinct(s: Seq<(Seq<char>, Seq<char>)>, k: Seq<char>, v: Seq<char>)
    requires
        distinct_keys(s),
    ensures
        distinct_keys(spec_insert(s, k, v)),
{
    let t = spec_insert(s, k, v);
    if has_peer(s, k) {
        let x = index_of_peer(s, k);
        assert forall|i: int, j: int| 0 <= i < j < t.len() implies #[trigger] t[i].0 != #[trigger] t[j].0 by {
            assert(s[x].0 == k);
            if i == x {
                assert(s[j].0 != s[x].0);
            } else if j == x {
                assert(s[i].0 != s[x].0);
            } else {
                assert(s[i].0 != s[j].0);
            }
        }
    } else {
        assert forall|i: int, j: int| 0 <= i < j < t.len() implies #[trigger] t[i].0 != #[trigger] t[j].0 by {
            if j == s.len() {
                assert(t[i] == s[i]);
            } else {
                assert(s[i].0 != s[j].0);
            }
        }
    }
}

/// After registering `k` at `v`, looking `k` up gives `v`, and every other
/// peer's address is unchanged.
pub proof fn law_lookup_after_insert(
    s: Seq<(Seq<char>, Seq<char>)>,
    k: Seq<char>,
    v: Seq<char>,
    other: Seq<char>,
)
    requires
        distinct_keys(s),
        other != k,
    ensures
        spec_lookup(spec_insert(s, k, v), k) == Some(v),
        spec_lookup(spec_insert(s, k, v), other) == spec_lookup(s, other),
        distinct_keys(spec_insert(s, k, v)),
{
    lemma_insert_keeps_distinct(s, k, v);
    let t = spec_insert(s, k, v);
    let x = if has_peer(s, k) { index_of_peer(s, k) } else { s.len() as int };
    assert(t[x].0 == k);
    assert(has_peer(t, k));
    let y = index_of_peer(t, k);
    if y != x {
        let a = if y < x { y } else { x };
        let b = if y < x { x } else { y };
        assert(t[a].0 == t[b].0);
    }
    if has_peer(s, other) {
        let i = index_of_peer(s, other);
        assert(t[i] == s[i]);
        assert(has_peer(t, other));
        let j = index_of_peer(t, other);
        if j != i {
            let a = if j < i { j } else { i };
            let b = if j < i { i } else { j };
            assert(t[a].0 == t[b].0);
        }
    } else {
        if has_peer(t, other) {
            let j = index_of_peer(t, other);
            assert(j != x);
            assert(s[j] == t[j]);
        }
    }
}

/// Registering a peer that is already there changes no length; a new peer
/// adds one entry.
pub proof fn law_insert_len(s: Seq<(Seq<char>, Seq<char>)>, k: Seq<char>, v: Seq<char>)
    ensures
        has_peer(s, k) ==> spec_insert(s, k, v).len() == s.len(),
        !has_peer(s, k) ==> spec_insert(s, k, v).len() == s.len() + 1,
{
}

} // verus!
