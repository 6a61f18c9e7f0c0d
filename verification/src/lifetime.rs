//! Entities that expire after a number of ticks.

use vstd::prelude::*;

use crate::state::stage::EntityId;

verus! {

/// Ticks left before the entity is removed.
#[derive(Debug, Clone, Copy, PartialEq, Eq, Structural)]
pub struct TimeToLive {
    pub remaining_ticks: u32,
}

impl TimeToLive {
    /// A lifetime of `ticks`.
    pub fn new(ticks: u32) -> (r: Self)
        ensures
            r.remaining_ticks == ticks,
    {
        TimeToLive { remaining_ticks: ticks }
    }
}

/// The entities that expire when `ticks` pass: those with no more than that left.
pub open spec fn spec_expired(es: Seq<(EntityId, TimeToLive)>, ticks: u32) -> Seq<EntityId>
    decreases es.len(),
{
    if es.len() == 0 {
        seq![]
    } else {
        let rest = spec_expired(es.drop_last(), ticks);
        if es.last().1.remaining_ticks <= ticks {
            rest.push(es.last().0)
        } else {
            rest
        }
    }
}

/// The entities that live on, with `ticks` taken off their lifetimes.
pub open spec fn spec_survivors(es: Seq<(EntityId, TimeToLive)>, ticks: u32) -> Seq<(EntityId, TimeToLive)>
    decreases es.len(),
{
    if es.len() == 0 {
        seq![]
    } else {
        let rest = spec_survivors(es.drop_last(), ticks);
        let (id, ttl) = es.last();
        if ttl.remaining_ticks <= ticks {
            rest
        } else {
            rest.push((id, TimeToLive { remaining_ticks: (ttl.remaining_ticks - ticks) as u32 }))
        }
    }
}

/// Passes `ticks` over every entity with a lifetime: those whose time is up are
/// removed from `entities` and returned, in order, to be despawned; the others
/// count down.
pub fn time_to_live_system(entities: &mut Vec<(EntityId, TimeToLive)>, ticks: u32) -> (expired: Vec<EntityId>)
    ensures
        expired@ == spec_expired(old(entities)@, ticks),
        final(entities)@ == spec_survivors(old(entities)@, ticks),
{
    let mut expired: Vec<EntityId> = Vec::new();
    let mut kept: Vec<(EntityId, TimeToLive)> = Vec::new();
    let mut i: usize = 0;
    while i < entities.len()
        invariant
            0 <= i <= entities.len(),
            expired@ == spec_expired(entities@.subrange(0, i as int), ticks),
            kept@ == spec_survivors(entities@.subrange(0, i as int), ticks),
        decreases entities.len() - i,
    {
        let (id, ttl) = entities[i];
        proof {
            assert(entities@.subrange(0, i + 1).drop_last() =~= entities@.subrange(0, i as int));
        }
        if ttl.remaining_ticks <= ticks {
            expired.push(id);
        } else {
            kept.push((id, TimeToLive { remaining_ticks: ttl.remaining_ticks - ticks }));
        }
        i = i + 1;
    }
    proof {
        assert(entities@.subrange(0, entities.len() as int) =~= entities@);
    }
    *entities = kept;
    expired
}

} // verus!
