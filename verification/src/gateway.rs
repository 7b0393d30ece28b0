//! One shard of the registry: a private map from client id to its state.
//!
//! A shard stores, for every client id it owns, a single boolean "active"
//! flag, `false` on creation. Its view is the mathematical map from the
//! id's characters to that flag; `spec_add`, `spec_set` and `spec_get`
//! say what the three shard operations do to it.

use vstd::prelude::*;
use vstd::string::StringExecFns;

verus! {

/// What adding a client does to a shard's map: an absent id is inserted
/// with the flag `false`; a present id is left untouched.
pub open spec fn spec_add(m: Map<Seq<char>, bool>, id: Seq<char>) -> Map<Seq<char>, bool> {
    if m.contains_key(id) {
        m
    } else {
        m.insert(id, false)
    }
}

/// What setting the flag does to a shard's map: a present id gets the new
/// flag; an absent id is ignored (the registry's documented policy: setting
/// an unknown id is a silent no-op, it does not create the client).
pub open spec fn spec_set(m: Map<Seq<char>, bool>, id: Seq<char>, is_active: bool) -> Map<
    Seq<char>,
    bool,
> {
    if m.contains_key(id) {
        m.insert(id, is_active)
    } else {
        m
    }
}

/// What reading the flag returns: the stored flag, or `false` for an id
/// the shard does not know.
pub open spec fn spec_get(m: Map<Seq<char>, bool>, id: Seq<char>) -> bool {
    m.contains_key(id) && m[id]
}

/// One shard: an owned association from client id to active flag, with
/// pairwise distinct keys.
pub struct Gateway {
    clients: Vec<(String, bool)>,
}

/// Looks a key up in an association list, later entries first.
spec fn find(s: Seq<(String, bool)>, id: Seq<char>) -> Option<bool>
    decreases s.len(),
{
    if s.len() == 0 {
        None
    } else if s.last().0@ == id {
        Some(s.last().1)
    } else {
        find(s.drop_last(), id)
    }
}

/// The keys of an association list are pairwise distinct.
spec fn keys_distinct(s: Seq<(String, bool)>) -> bool {
    forall|t: int, u: int| 0 <= t < u < s.len() ==> s[t].0@ != s[u].0@
}

impl View for Gateway {
    type V = Map<Seq<char>, bool>;

    closed spec fn view(&self) -> Map<Seq<char>, bool> {
        Map::new(
            |id: Seq<char>| find(self.clients@, id) is Some,
            |id: Seq<char>| find(self.clients@, id).unwrap(),
        )
    }
}

/// With distinct keys, an entry's index determines the lookup result.
proof fn lemma_find_present(s: Seq<(String, bool)>, id: Seq<char>, i: int)
    requires
        keys_distinct(s),
        0 <= i < s.len(),
        s[i].0@ == id,
    ensures
        find(s, id) == Some(s[i].1),
    decreases s.len(),
{
    if i == s.len() - 1 {
        assert(s.last() == s[i]);
    } else {
        assert(s.last().0@ != id);
        lemma_find_present(s.drop_last(), id, i);
    }
}

/// A key under no index is not found.
proof fn lemma_find_absent(s: Seq<(String, bool)>, id: Seq<char>)
    requires
        forall|t: int| 0 <= t < s.len() ==> s[t].0@ != id,
    ensures
        find(s, id) is None,
    decreases s.len(),
{
    if s.len() == 0 {
    } else {
        lemma_find_absent(s.drop_last(), id);
    }
}

/// Replacing the flag stored under one key changes the lookup of that key
/// alone.
proof fn lemma_find_update(s: Seq<(String, bool)>, i: int, v: bool, id: Seq<char>)
    requires
        keys_distinct(s),
        0 <= i < s.len(),
    ensures
        find(s.update(i, (s[i].0, v)), id) == if id == s[i].0@ {
            Some(v)
        } else {
            find(s, id)
        },
    decreases s.len(),
{
    let s2 = s.update(i, (s[i].0, v));
    if i == s.len() - 1 {
        assert(s2.last() == (s[i].0, v));
        if id != s[i].0@ {
            assert(s2.drop_last() =~= s.drop_last());
        }
    } else {
        assert(s2.last() == s.last());
        assert(s.last().0@ != s[i].0@);
        assert(s2.drop_last() =~= s.drop_last().update(i, (s[i].0, v)));
        if s2.last().0@ != id {
            lemma_find_update(s.drop_last(), i, v, id);
        }
    }
}

impl Gateway {
    /// The shard's internal invariant: no two entries share a key.
    pub closed spec fn wf(&self) -> bool {
        keys_distinct(self.clients@)
    }

    /// Creates an empty shard.
    pub fn new() -> (g: Gateway)
        ensures
            g.wf(),
            g@ == Map::<Seq<char>, bool>::empty(),
    {
        let g = Gateway { clients: Vec::new() };
        proof {
            assert(g@ =~= Map::<Seq<char>, bool>::empty());
        }
        g
    }

    /// The index of the entry holding `id`, if any.
    fn position_of(&self, id: &String) -> (r: Option<usize>)
        requires
            self.wf(),
        ensures
            match r {
                Some(i) => i < self.clients@.len() && self.clients@[i as int].0@ == id@ && find(
                    self.clients@,
                    id@,
                ) == Some(self.clients@[i as int].1),
                None => find(self.clients@, id@) is None && forall|t: int|
                    0 <= t < self.clients@.len() ==> self.clients@[t].0@ != id@,
            },
    {
        let n = self.clients.len();
        let mut i: usize = 0;
        while i < n
            invariant
                self.wf(),
                n == self.clients@.len(),
                i <= n,
                forall|t: int| 0 <= t < i ==> self.clients@[t].0@ != id@,
            decreases n - i,
        {
            if self.clients[i].0 == *id {
                proof {
                    lemma_find_present(self.clients@, id@, i as int);
                }
                return Some(i);
            }
            i = i + 1;
        }
        proof {
            lemma_find_absent(self.clients@, id@);
        }
        None
    }

    /// Ensures the shard has an entry for `client_id`, created inactive.
    /// Re-adding a known id leaves its state untouched, so adding is
    /// idempotent (see `lemma_add_idempotent`).
    pub fn add_client(&mut self, client_id: &str)
        requires
            old(self).wf(),
        ensures
            final(self).wf(),
            final(self)@ == spec_add(old(self)@, client_id@),
    {
        let key: String = String::from_str(client_id);
        match self.position_of(&key) {
            Some(_) => {
                // already known: keep its current flag
            },
            None => {
                self.clients.push((key, false));
                proof {
                    let s_old = old(self).clients@;
                    let s_new = self.clients@;
                    assert(s_new.drop_last() =~= s_old);
                    assert(find(s_new, client_id@) == Some(false));
                    assert(forall|k: Seq<char>|
                        k != client_id@ ==> find(s_new, k) == find(s_old, k));
                    assert(self@ =~= old(self)@.insert(client_id@, false));
                }
            },
        }
    }

    /// Sets the active flag of a known client; an unknown id is ignored
    /// (documented policy, see `spec_set`).
    pub fn set_is_active(&mut self, client_id: &str, is_active: bool)
        requires
            old(self).wf(),
        ensures
            final(self).wf(),
            final(self)@ == spec_set(old(self)@, client_id@, is_active),
    {
        let key: String = String::from_str(client_id);
        match self.position_of(&key) {
            Some(i) => {
                self.clients[i].1 = is_active;
                proof {
                    let s_old = old(self).clients@;
                    assert(self.clients@ == s_old.update(i as int, (s_old[i as int].0, is_active)));
                    assert forall|k: Seq<char>| #![auto]
                        find(self.clients@, k) == if k == client_id@ {
                            Some(is_active)
                        } else {
                            find(s_old, k)
                        } by {
                        lemma_find_update(s_old, i as int, is_active, k);
                    }
                    assert(self@ =~= old(self)@.insert(client_id@, is_active));
                }
            },
            None => {
                // unknown id: deliberately a no-op
            },
        }
    }

    /// Reads the active flag of a client: the stored flag, or `false` for
    /// an id this shard was never asked to add.
    pub fn get_is_active(&self, client_id: &str) -> (is_active: bool)
        requires
            self.wf(),
        ensures
            is_active == spec_get(self@, client_id@),
    {
        let key: String = String::from_str(client_id);
        match self.position_of(&key) {
            Some(i) => self.clients[i].1,
            None => false,
        }
    }
}

/// Idempotent add: adding a client twice leaves the shard's map exactly as
/// adding it once does. Intervening reads are free to happen: reading does
/// not change the map at all.
pub proof fn lemma_add_idempotent(m: Map<Seq<char>, bool>, id: Seq<char>)
    ensures
        spec_add(spec_add(m, id), id) == spec_add(m, id),
{
}

/// Read after write: once a client is known, setting its flag and then
/// reading it gives back the flag that was set.
pub proof fn lemma_read_after_write(m: Map<Seq<char>, bool>, id: Seq<char>, is_active: bool)
    requires
        m.contains_key(id),
    ensures
        spec_get(spec_set(m, id, is_active), id) == is_active,
{
}

/// Unknown id default: a client that was never added reads as inactive.
pub proof fn lemma_unknown_inactive(m: Map<Seq<char>, bool>, id: Seq<char>)
    requires
        !m.contains_key(id),
    ensures
        spec_get(m, id) == false,
{
}

} // verus!
