//! The client registry: the engine's authoritative set of currently
//! connected clients, keyed by client identifier.

use vstd::prelude::*;

use crate::remote_client::{ClientView, RemoteClient};

verus! {

/// All client identifiers in `s` are pairwise distinct: the registry's
/// core invariant, which a map keyed by identifier would enforce by
/// construction.
pub open spec fn distinct_ids(s: Seq<ClientView>) -> bool {
    forall|i: int, j: int|
        0 <= i < s.len() && 0 <= j < s.len() && i != j ==> s[i].user_id != s[j].user_id
}

/// Some client in `s` carries the identifier `id`.
pub open spec fn contains_id(s: Seq<ClientView>, id: u128) -> bool {
    exists|i: int| 0 <= i < s.len() && s[i].user_id == id
}

/// The position of the client carrying `id`; meaningful only when
/// `contains_id(s, id)` holds, and unique when the identifiers are distinct.
pub open spec fn index_of_id(s: Seq<ClientView>, id: u128) -> int {
    choose|i: int| 0 <= i < s.len() && s[i].user_id == id
}

/// `s` with `c` entered under its identifier: the existing entry is replaced
/// in place when one carries the same identifier, else `c` is appended.
pub open spec fn upsert(s: Seq<ClientView>, c: ClientView) -> Seq<ClientView> {
    if contains_id(s, c.user_id) {
        s.update(index_of_id(s, c.user_id), c)
    } else {
        s.push(c)
    }
}

/// `s` without the client carrying `id`; `s` itself when none does.
pub open spec fn remove_id(s: Seq<ClientView>, id: u128) -> Seq<ClientView> {
    if contains_id(s, id) {
        s.remove(index_of_id(s, id))
    } else {
        s
    }
}

/// Under distinct identifiers, any position whose client carries `id` is
/// the position `index_of_id` names.
pub proof fn lemma_index_of_id_unique(s: Seq<ClientView>, i: int, id: u128)
    requires
        distinct_ids(s),
        0 <= i < s.len(),
        s[i].user_id == id,
    ensures
        index_of_id(s, id) == i,
{
    let j = index_of_id(s, id);
    assert(0 <= j < s.len() && s[j].user_id == id);
}

/// Replacing a client in place, or appending one whose identifier is fresh,
/// keeps the identifiers distinct; an upsert never changes any other entry.
pub proof fn lemma_upsert_distinct(s: Seq<ClientView>, c: ClientView)
    requires
        distinct_ids(s),
    ensures
        distinct_ids(upsert(s, c)),
        contains_id(upsert(s, c), c.user_id),
        upsert(s, c).len() == if contains_id(s, c.user_id) {
            s.len() as int
        } else {
            s.len() + 1 as int
        },
{
    if contains_id(s, c.user_id) {
        let k = index_of_id(s, c.user_id);
        assert(0 <= k < s.len() && s[k].user_id == c.user_id);
        let t = s.update(k, c);
        assert forall|i: int, j: int|
            0 <= i < t.len() && 0 <= j < t.len() && i != j implies t[i].user_id
            != t[j].user_id by {
            assert(t[i].user_id == s[i].user_id);
            assert(t[j].user_id == s[j].user_id);
        }
        assert(t[k].user_id == c.user_id);
    } else {
        let t = s.push(c);
        assert(t[s.len() as int].user_id == c.user_id);
    }
}

/// Removing the client that carries `id` shortens the registry by one, keeps
/// the identifiers distinct, and leaves no client carrying `id`.
pub proof fn lemma_remove_id_distinct(s: Seq<ClientView>, id: u128)
    requires
        distinct_ids(s),
        contains_id(s, id),
    ensures
        distinct_ids(remove_id(s, id)),
        remove_id(s, id).len() == s.len() - 1,
        !contains_id(remove_id(s, id), id),
{
    let k = index_of_id(s, id);
    assert(0 <= k < s.len() && s[k].user_id == id);
    s.remove_ensures(k);
    let t = s.remove(k);
    assert forall|i: int| 0 <= i < t.len() implies t[i].user_id != id by {
        if i < k {
            assert(t[i] == s[i]);
        } else {
            assert(t[i] == s[i + 1]);
        }
    }
    assert forall|i: int, j: int|
        0 <= i < t.len() && 0 <= j < t.len() && i != j implies t[i].user_id != t[j].user_id by {
        let si = if i < k { i } else { i + 1 };
        let sj = if j < k { j } else { j + 1 };
        assert(t[i] == s[si]);
        assert(t[j] == s[sj]);
    }
}

/// The engine's owned mapping from client identifier to client record,
/// stored as a vector whose entries carry pairwise-distinct identifiers.
pub struct ClientRegistry {
    clients: Vec<RemoteClient>,
}

impl View for ClientRegistry {
    type V = Seq<ClientView>;

    closed spec fn view(&self) -> Seq<ClientView> {
        self.clients@.map_values(|c: RemoteClient| c@)
    }
}

impl ClientRegistry {
    /// Well-formed: no two entries share an identifier.
    pub open spec fn wf(&self) -> bool {
        distinct_ids(self@)
    }

    /// An empty registry.
    pub fn new() -> (r: ClientRegistry)
        ensures
            r@ == Seq::<ClientView>::empty(),
            r.wf(),
    {
        let r = ClientRegistry { clients: Vec::new() };
        proof {
            assert(r@ =~= Seq::<ClientView>::empty());
        }
        r
    }

    /// The number of currently connected clients.
    pub fn size(&self) -> (n: usize)
        ensures
            n == self@.len(),
    {
        self.clients.len()
    }

    /// The position of the entry carrying `id`, when one does.
    fn position_of(&self, id: u128) -> (r: Option<usize>)
        ensures
            r matches Some(i) ==> 0 <= i < self@.len() && self@[i as int].user_id == id,
            r is None ==> !contains_id(self@, id),
    {
        let n = self.clients.len();
        let mut i: usize = 0;
        while i < n
            invariant
                i <= n,
                n == self@.len(),
                forall|j: int| 0 <= j < i ==> self@[j].user_id != id,
            decreases n - i,
        {
            if self.clients[i].user_id == id {
                return Some(i);
            }
            i += 1;
        }
        None
    }

    /// Whether a client carrying `id` is currently registered.
    pub fn contains(&self, id: u128) -> (b: bool)
        ensures
            b == contains_id(self@, id),
    {
        self.position_of(id).is_some()
    }

    /// Enter `c` under its identifier, replacing any entry that already
    /// carries it. Capacity is not checked here: per the engine's policy,
    /// the caller rejects a Connect before the registry would grow past
    /// the population bound.
    pub fn insert(&mut self, c: RemoteClient)
        requires
            old(self).wf(),
        ensures
            final(self).wf(),
            final(self)@ == upsert(old(self)@, c@),
    {
        let ghost pre = self@;
        let ghost cv = c@;
        match self.position_of(c.user_id) {
            Some(i) => {
                proof {
                    lemma_index_of_id_unique(pre, i as int, cv.user_id);
                }
                self.clients[i] = c;
                proof {
                    assert(self@ =~= pre.update(i as int, cv));
                    lemma_upsert_distinct(pre, cv);
                }
            },
            None => {
                self.clients.push(c);
                proof {
                    assert(self@ =~= pre.push(cv));
                    lemma_upsert_distinct(pre, cv);
                }
            },
        }
    }

    /// Remove the client carrying `id`; a no-op when none does.
    pub fn remove(&mut self, id: u128)
        requires
            old(self).wf(),
        ensures
            final(self).wf(),
            final(self)@ == remove_id(old(self)@, id),
    {
        let ghost pre = self@;
        match self.position_of(id) {
            Some(i) => {
                proof {
                    lemma_index_of_id_unique(pre, i as int, id);
                }
                self.clients.remove(i);
                proof {
                    assert(self@ =~= pre.remove(i as int));
                    lemma_remove_id_distinct(pre, id);
                }
            },
            None => {},
        }
    }
}

} // verus!
