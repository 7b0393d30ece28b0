//! The service facade over the shards: computes the target shard of every
//! client id with the router and applies commands there, one at a time.
//!
//! Exactly one shard is authoritative for any id (`wf` carries this as an
//! invariant: every stored key routes to the shard holding it), so an
//! operation on one client can never be seen by, nor corrupt, the state of
//! any other client — see the final `ensures` of `send_command`.

use crate::gateway::{spec_add, spec_get, spec_set, Gateway};
use crate::protocol::{apply_command, apply_spec, reply_spec, Command, ServiceError};
use crate::router::{hash_key, jump_hash, lemma_route_in_range, spec_route};
use vstd::prelude::*;
use vstd::string::StringExecFns;

verus! {

/// The largest usable bucket count: the router takes the count as an
/// `i64`, so it must be positive there.
pub const MAX_BUCKETS: u64 = 0x7fffffffffffffff;

/// The sharded registry: a fixed family of shards, one authoritative
/// shard per client id.
pub struct GatewayService {
    shards: Vec<Gateway>,
}

impl GatewayService {
    /// How many shards the service was built with.
    pub closed spec fn num_shards(&self) -> int {
        self.shards@.len() as int
    }

    /// The map one shard holds.
    pub closed spec fn shard_map(&self, i: int) -> Map<Seq<char>, bool> {
        self.shards@[i]@
    }

    /// The service invariant: at least one shard, few enough for the
    /// router, every shard well formed, and every stored key routed to
    /// the shard that stores it.
    pub closed spec fn wf(&self) -> bool {
        &&& 1 <= self.shards@.len()
        &&& self.shards@.len() <= MAX_BUCKETS
        &&& forall|i: int| 0 <= i < self.shards@.len() ==> (#[trigger] self.shards@[i]).wf()
        &&& forall|i: int, k: Seq<char>|
            0 <= i < self.shards@.len() && #[trigger] self.shards@[i]@.contains_key(k)
                ==> spec_route(k, self.shards@.len() as int) == i
    }

    /// The shard authoritative for a client id.
    pub open spec fn spec_bucket_of(&self, id: Seq<char>) -> int {
        spec_route(id, self.num_shards())
    }

    /// Whether the registry knows the id.
    pub open spec fn spec_known(&self, id: Seq<char>) -> bool {
        self.shard_map(self.spec_bucket_of(id)).contains_key(id)
    }

    /// The flag a read of the id returns: its stored flag, `false` if the
    /// id was never added.
    pub open spec fn spec_active(&self, id: Seq<char>) -> bool {
        spec_get(self.shard_map(self.spec_bucket_of(id)), id)
    }

    /// Exactly one shard is authoritative for any client id: since every
    /// stored key routes to the shard storing it, no two shards can ever
    /// hold state for the same id.
    pub proof fn lemma_single_authority(&self, i: int, j: int, id: Seq<char>)
        requires
            self.wf(),
            0 <= i < self.num_shards(),
            0 <= j < self.num_shards(),
            self.shard_map(i).contains_key(id),
            self.shard_map(j).contains_key(id),
        ensures
            i == j,
    {
    }

    /// Builds a service of `num_buckets` empty shards. An invalid bucket
    /// count is fatal at construction: the service refuses to start.
    pub fn new(num_buckets: usize) -> (r: Result<GatewayService, ServiceError>)
        ensures
            (1 <= num_buckets && num_buckets as u64 <= MAX_BUCKETS) <==> r is Ok,
            r matches Ok(s) ==> s.wf() && s.num_shards() == num_buckets && (forall|id: Seq<char>|
                !s.spec_known(id)),
            r is Err ==> r == Err::<GatewayService, ServiceError>(ServiceError::RoutingError),
    {
        if num_buckets == 0 || num_buckets as u64 > MAX_BUCKETS {
            return Err(ServiceError::RoutingError);
        }
        let mut shards: Vec<Gateway> = Vec::new();
        let mut i: usize = 0;
        while i < num_buckets
            invariant
                i <= num_buckets,
                shards@.len() == i,
                forall|t: int|
                    0 <= t < i ==> (#[trigger] shards@[t]).wf() && shards@[t]@ == Map::<
                        Seq<char>,
                        bool,
                    >::empty(),
            decreases num_buckets - i,
        {
            shards.push(Gateway::new());
            i = i + 1;
        }
        let s = GatewayService { shards };
        proof {
            assert(s.wf());
            assert forall|id: Seq<char>| !s.spec_known(id) by {
                lemma_route_in_range(id, s.num_shards());
            }
        }
        Ok(s)
    }

    /// Computes the shard a client id belongs to. Deterministic: a pure
    /// function of the id's characters and the shard count, so repeated
    /// lookups under a fixed count always name the same shard.
    pub fn get_bucket(&self, client_id: &str) -> (bucket: usize)
        requires
            self.wf(),
        ensures
            bucket as int == self.spec_bucket_of(client_id@),
            bucket < self.num_shards(),
    {
        let hash = hash_key(client_id);
        let bucket = jump_hash(hash, self.shards.len() as i64);
        bucket as usize
    }

    /// Routes a command to the shard its client id hashes to and applies
    /// it there. Partition isolation: only that shard changes, and only at
    /// that id — every other client's visible state is untouched.
    pub fn send_command(&mut self, command: &Command) -> (reply: Option<bool>)
        requires
            old(self).wf(),
        ensures
            final(self).wf(),
            final(self).num_shards() == old(self).num_shards(),
            final(self).shard_map(old(self).spec_bucket_of(command.spec_client_id()))
                == apply_spec(
                old(self).shard_map(old(self).spec_bucket_of(command.spec_client_id())),
                command,
            ),
            forall|i: int|
                0 <= i < old(self).num_shards() && i != old(self).spec_bucket_of(
                    command.spec_client_id(),
                ) ==> final(self).shard_map(i) == old(self).shard_map(i),
            reply == reply_spec(
                old(self).shard_map(old(self).spec_bucket_of(command.spec_client_id())),
                command,
            ),
            forall|other: Seq<char>|
                other != command.spec_client_id() ==> final(self).spec_known(other) == old(
                    self,
                ).spec_known(other) && final(self).spec_active(other) == old(self).spec_active(
                    other,
                ),
    {
        let bucket = self.get_bucket(command.client_id());
        let reply = apply_command(&mut self.shards[bucket], command);
        proof {
            let n = old(self).num_shards();
            let cid = command.spec_client_id();
            let b = old(self).spec_bucket_of(cid);
            let m_old = old(self).shard_map(b);
            let m_new = self.shard_map(b);
            assert(m_new == apply_spec(m_old, command));
            assert forall|k: Seq<char>| m_new.contains_key(k) implies spec_route(k, n) == b by {
                if k != cid {
                    assert(m_old.contains_key(k));
                }
            }
            assert(self.wf());
            assert forall|other: Seq<char>| other != cid implies self.spec_known(other) == old(
                self,
            ).spec_known(other) && self.spec_active(other) == old(self).spec_active(other) by {
                lemma_route_in_range(other, n);
            }
        }
        reply
    }

    /// Ensures the registry knows the id: the authoritative shard gets an
    /// entry for it, inactive by default, and a known id keeps its flag.
    pub fn add_client(&mut self, client_id: &str)
        requires
            old(self).wf(),
        ensures
            final(self).wf(),
            final(self).num_shards() == old(self).num_shards(),
            final(self).spec_known(client_id@),
            final(self).spec_active(client_id@) == old(self).spec_active(client_id@),
            final(self).shard_map(old(self).spec_bucket_of(client_id@)) == spec_add(
                old(self).shard_map(old(self).spec_bucket_of(client_id@)),
                client_id@,
            ),
            forall|other: Seq<char>|
                other != client_id@ ==> final(self).spec_known(other) == old(self).spec_known(
                    other,
                ) && final(self).spec_active(other) == old(self).spec_active(other),
    {
        let command = Command::AddClient { client_id: String::from_str(client_id) };
        let _ = self.send_command(&command);
    }

    /// Sets the flag of a known client; an unknown id is ignored, never
    /// implicitly created. No operation on one id ever changes another.
    pub fn set_is_active(&mut self, client_id: &str, is_active: bool)
        requires
            old(self).wf(),
        ensures
            final(self).wf(),
            final(self).num_shards() == old(self).num_shards(),
            forall|id: Seq<char>|
                final(self).spec_known(id) == old(self).spec_known(id),
            final(self).spec_active(client_id@) == (old(self).spec_known(client_id@)
                && is_active),
            forall|other: Seq<char>|
                other != client_id@ ==> final(self).spec_active(other) == old(self).spec_active(
                    other,
                ),
    {
        let command = Command::SetIsActive {
            client_id: String::from_str(client_id),
            is_active,
        };
        let _ = self.send_command(&command);
    }

    /// Reads the flag of a client from its authoritative shard: the stored
    /// flag, or `false` for an id never added.
    pub fn get_is_active(&self, client_id: &str) -> (is_active: bool)
        requires
            self.wf(),
        ensures
            is_active == self.spec_active(client_id@),
    {
        let bucket = self.get_bucket(client_id);
        self.shards[bucket].get_is_active(client_id)
    }
}

} // verus!
