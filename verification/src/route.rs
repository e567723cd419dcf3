//! The route descriptor: which shard(s) a statement goes to, whether a
//! replica may serve it, and the post-processing its results need.

use crate::decimal::{spec_nat_string, u64_to_string};
use crate::directives::{Aggregate, DistinctBy, FunctionBehavior, Limit, LockingBehavior, OrderBy};
use vstd::prelude::*;
use vstd::string::StringExecFns;

verus! {

/// The set of shards a statement is dispatched to.
#[derive(Debug, Clone, PartialEq, Eq, Hash)]
pub enum Shard {
    /// Exactly one shard.
    Direct(usize),
    /// A specific subset of shards; never holds the same index twice.
    Multi(Vec<usize>),
    /// Every shard: the default and the safe fallback.
    All,
}

impl Shard {
    /// True exactly on `Shard::All`: no other variant fans out to every shard.
    pub fn all(&self) -> (r: bool)
        ensures
            r == (self is All),
    {
        matches!(self, Shard::All)
    }

    pub fn direct(shard: usize) -> (r: Self)
        ensures
            r == Shard::Direct(shard),
    {
        Shard::Direct(shard)
    }
}

/// Shard numbers joined by `", "`.
pub open spec fn spec_join_indices(s: Seq<usize>) -> Seq<char>
    decreases s.len(),
{
    if s.len() == 0 {
        Seq::empty()
    } else if s.len() == 1 {
        spec_nat_string(s[0] as nat)
    } else {
        spec_join_indices(s.drop_last()) + ", "@ + spec_nat_string(s.last() as nat)
    }
}

/// Human-readable form of a shard target: the shard number, the bracketed
/// list of shard numbers, or `all`.
pub open spec fn spec_shard_display(s: Shard) -> Seq<char> {
    match s {
        Shard::Direct(shard) => spec_nat_string(shard as nat),
        Shard::Multi(shards) => seq!['['] + spec_join_indices(shards@) + seq![']'],
        Shard::All => "all"@,
    }
}

impl Shard {
    /// Render the target for diagnostics.
    #[verifier::loop_isolation(false)]
    pub fn display(&self) -> (r: String)
        ensures
            r@ == spec_shard_display(*self),
    {
        match self {
            Shard::Direct(shard) => u64_to_string(*shard as u64),
            Shard::Multi(shards) => {
                let mut out = String::from_str("[");
                proof {
                    reveal_strlit("[");
                    assert("["@ =~= seq!['[']);
                    assert(shards@.take(0) =~= Seq::<usize>::empty());
                }
                let mut i: usize = 0;
                while i < shards.len()
                    invariant
                        i <= shards@.len(),
                        out@ == seq!['['] + spec_join_indices(shards@.take(i as int)),
                    decreases shards@.len() - i,
                {
                    proof {
                        assert(shards@.take(i as int + 1).drop_last() =~= shards@.take(i as int));
                        assert(shards@.take(i as int + 1).last() == shards@[i as int]);
                    }
                    if i > 0 {
                        out.append(", ");
                        proof {
                            reveal_strlit(", ");
                        }
                    }
                    let piece = u64_to_string(shards[i] as u64);
                    out.append(piece.as_str());
                    proof {
                        let done = shards@.take(i as int + 1);
                        if i == 0 {
                            assert(spec_join_indices(shards@.take(0)) =~= Seq::<char>::empty());
                            assert(seq!['['] + Seq::<char>::empty() =~= seq!['[']);
                            assert(out@ =~= seq!['['] + spec_join_indices(done));
                        } else {
                            assert(out@ =~= seq!['['] + spec_join_indices(done));
                        }
                    }
                    i += 1;
                }
                out.append("]");
                proof {
                    reveal_strlit("]");
                    assert("]"@ =~= seq![']']);
                    assert(shards@.take(shards@.len() as int) =~= shards@);
                    assert((seq!['['] + spec_join_indices(shards@)) + seq![']'] =~= seq!['[']
                        + spec_join_indices(shards@) + seq![']']);
                }
                out
            },
            Shard::All => String::from_str("all"),
        }
    }
}

impl Default for Shard {
    fn default() -> (r: Self)
        ensures
            r is All,
    {
        Shard::All
    }
}

impl From<Option<usize>> for Shard {
    fn from(value: Option<usize>) -> Self {
        if let Some(value) = value {
            Shard::Direct(value)
        } else {
            Shard::All
        }
    }
}

impl vstd::std_specs::convert::FromSpecImpl<Option<usize>> for Shard {
    open spec fn obeys_from_spec() -> bool {
        true
    }

    open spec fn from_spec(t: Option<usize>) -> Shard {
        match t {
            Some(shard) => Shard::Direct(shard),
            None => Shard::All,
        }
    }
}

/// Path a statement should take and any transformations
/// that should be applied to its results along the way.
#[derive(Debug, Clone)]
pub struct Route {
    pub shard: Shard,
    pub read: bool,
    pub order_by: Vec<OrderBy>,
    pub aggregate: Aggregate,
    pub limit: Limit,
    pub lock_session: bool,
    pub distinct: Option<DistinctBy>,
}

impl Default for Route {
    fn default() -> (r: Self)
        ensures
            r.shard is All,
            !r.read,
            r.order_by@.len() == 0,
            r.aggregate.spec_is_empty(),
            r.limit.spec_is_empty(),
            !r.lock_session,
            r.distinct is None,
    {
        Route {
            shard: Shard::All,
            read: false,
            order_by: Vec::new(),
            aggregate: Aggregate::default(),
            limit: Limit::default(),
            lock_session: false,
            distinct: None,
        }
    }
}

impl Route {
    /// A route is eligible for a replica exactly when its read intent is set.
    pub open spec fn spec_is_read(self) -> bool {
        self.read
    }

    /// A route must go to the primary exactly when its read intent is unset.
    pub open spec fn spec_is_write(self) -> bool {
        !self.read
    }

    /// Results need buffered assembly when some post-processing directive
    /// is present.
    pub open spec fn spec_should_buffer(self) -> bool {
        self.order_by@.len() > 0 || !self.aggregate.spec_is_empty() || self.distinct is Some
    }

    /// `SELECT` query: read intent, with the statement's directives attached.
    pub fn select(
        shard: Shard,
        order_by: Vec<OrderBy>,
        aggregate: Aggregate,
        limit: Limit,
        distinct: Option<DistinctBy>,
    ) -> (r: Self)
        ensures
            r.shard == shard,
            r.read,
            r.order_by == order_by,
            r.aggregate == aggregate,
            r.limit == limit,
            r.distinct == distinct,
            !r.lock_session,
    {
        Route { shard, read: true, order_by, aggregate, limit, lock_session: false, distinct }
    }

    /// A query that should go to a replica; no post-processing.
    pub fn read(shard: Shard) -> (r: Self)
        ensures
            r.shard == shard,
            r.read,
            r.order_by@.len() == 0,
            r.aggregate.spec_is_empty(),
            r.limit.spec_is_empty(),
            r.distinct is None,
            !r.lock_session,
    {
        Route { shard, read: true, ..Route::default() }
    }

    /// A write query: must go to the primary; no post-processing.
    pub fn write(shard: Shard) -> (r: Self)
        ensures
            r.shard == shard,
            !r.read,
            r.order_by@.len() == 0,
            r.aggregate.spec_is_empty(),
            r.limit.spec_is_empty(),
            r.distinct is None,
            !r.lock_session,
    {
        Route { shard, ..Route::default() }
    }

    pub fn is_read(&self) -> (r: bool)
        ensures
            r == self.spec_is_read(),
    {
        self.read
    }

    pub fn is_write(&self) -> (r: bool)
        ensures
            r == self.spec_is_write(),
    {
        !self.is_read()
    }

    /// Get the shard target.
    pub fn shard(&self) -> (r: &Shard)
        ensures
            r == self.shard,
    {
        &self.shard
    }

    /// Should this query go to all shards?
    pub fn is_all_shards(&self) -> (r: bool)
        ensures
            r == (self.shard is All),
    {
        matches!(self.shard, Shard::All)
    }

    pub fn is_multi_shard(&self) -> (r: bool)
        ensures
            r == (self.shard is Multi),
    {
        matches!(self.shard, Shard::Multi(_))
    }

    pub fn is_cross_shard(&self) -> (r: bool)
        ensures
            r == (self.shard is All || self.shard is Multi),
    {
        self.is_all_shards() || self.is_multi_shard()
    }

    pub fn order_by(&self) -> (r: &Vec<OrderBy>)
        ensures
            r == self.order_by,
    {
        &self.order_by
    }

    pub fn aggregate(&self) -> (r: &Aggregate)
        ensures
            r == self.aggregate,
    {
        &self.aggregate
    }

    pub fn set_shard_mut(&mut self, shard: usize)
        ensures
            final(self).shard == Shard::Direct(shard),
            final(self).read == old(self).read,
            final(self).order_by == old(self).order_by,
            final(self).aggregate == old(self).aggregate,
            final(self).limit == old(self).limit,
            final(self).lock_session == old(self).lock_session,
            final(self).distinct == old(self).distinct,
    {
        self.shard = Shard::Direct(shard);
    }

    pub fn set_shard(self, shard: usize) -> (r: Self)
        ensures
            r.shard == Shard::Direct(shard),
            r.read == self.read,
            r.order_by == self.order_by,
            r.aggregate == self.aggregate,
            r.limit == self.limit,
            r.lock_session == self.lock_session,
            r.distinct == self.distinct,
    {
        let mut route = self;
        route.set_shard_mut(shard);
        route
    }

    /// True exactly when at least one of the order-by, aggregate or distinct
    /// directives is non-empty: results cannot be streamed straight through.
    pub fn should_buffer(&self) -> (r: bool)
        ensures
            r == self.spec_should_buffer(),
            r <==> (self.order_by@.len() > 0 || !self.aggregate.spec_is_empty()
                || self.distinct is Some),
    {
        self.order_by.len() > 0 || !self.aggregate.is_empty() || self.distinct.is_some()
    }

    pub fn limit(&self) -> (r: &Limit)
        ensures
            r == self.limit,
    {
        &self.limit
    }

    pub fn set_read(self, read: bool) -> (r: Self)
        ensures
            r.read == read,
            r.shard == self.shard,
            r.order_by == self.order_by,
            r.aggregate == self.aggregate,
            r.limit == self.limit,
            r.lock_session == self.lock_session,
            r.distinct == self.distinct,
    {
        let mut route = self;
        route.set_read_mut(read);
        route
    }

    pub fn set_read_mut(&mut self, read: bool)
        ensures
            final(self).read == read,
            final(self).shard == old(self).shard,
            final(self).order_by == old(self).order_by,
            final(self).aggregate == old(self).aggregate,
            final(self).limit == old(self).limit,
            final(self).lock_session == old(self).lock_session,
            final(self).distinct == old(self).distinct,
    {
        self.read = read;
    }

    pub fn set_write(self, write: FunctionBehavior) -> (r: Self)
        ensures
            r.read == !write.writes,
            r.lock_session == (write.locking_behavior is Lock),
            r.shard == self.shard,
            r.order_by == self.order_by,
            r.aggregate == self.aggregate,
            r.limit == self.limit,
            r.distinct == self.distinct,
    {
        let mut route = self;
        route.set_write_mut(write);
        route
    }

    /// Adopt a called function's behaviour: a writing function forces the
    /// primary, and a locking function additionally pins the session.
    pub fn set_write_mut(&mut self, write: FunctionBehavior)
        ensures
            final(self).read == !write.writes,
            final(self).lock_session == (write.locking_behavior is Lock),
            final(self).shard == old(self).shard,
            final(self).order_by == old(self).order_by,
            final(self).aggregate == old(self).aggregate,
            final(self).limit == old(self).limit,
            final(self).distinct == old(self).distinct,
    {
        let FunctionBehavior { writes, locking_behavior } = write;
        self.read = !writes;
        self.lock_session = matches!(locking_behavior, LockingBehavior::Lock);
    }

    /// Idempotently pin the session to one backend.
    pub fn set_lock_session(self) -> (r: Self)
        ensures
            r.lock_session,
            r.shard == self.shard,
            r.read == self.read,
            r.order_by == self.order_by,
            r.aggregate == self.aggregate,
            r.limit == self.limit,
            r.distinct == self.distinct,
    {
        let mut route = self;
        route.lock_session = true;
        route
    }

    pub fn lock_session(&self) -> (r: bool)
        ensures
            r == self.lock_session,
    {
        self.lock_session
    }

    pub fn distinct(&self) -> (r: &Option<DistinctBy>)
        ensures
            r == self.distinct,
    {
        &self.distinct
    }
}

/// Human-readable form of a route: its shard target and which role —
/// replica or primary — serves it.
pub open spec fn spec_route_display(r: Route) -> Seq<char> {
    "shard="@ + spec_shard_display(r.shard) + ", role="@ + (if r.read {
        "replica"@
    } else {
        "primary"@
    })
}

impl Route {
    /// Render the route for diagnostics.
    pub fn display(&self) -> (r: String)
        ensures
            r@ == spec_route_display(*self),
    {
        let mut out = String::from_str("shard=");
        let shard_part = self.shard.display();
        out.append(shard_part.as_str());
        out.append(", role=");
        if self.read {
            out.append("replica");
        } else {
            out.append("primary");
        }
        out
    }
}

/// A route is a read route exactly when it is not a write route.
pub proof fn lemma_read_write_opposite(route: Route)
    ensures
        route.spec_is_read() <==> !route.spec_is_write(),
{
}

} // verus!
