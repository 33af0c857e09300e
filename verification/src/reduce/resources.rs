//! The third part of a step: the new resources, their statistics and their
//! targets, and the removal of the resources that were dropped long enough
//! ago.

use crate::convert::{resource_of, resource_stats_of, ConvertError};
use crate::keys::{keys_in_order, lists_in_order};
use crate::reduce::metadata::metadata_views;
use crate::reduce::{grace_nanos, GRACE_SECS};
use crate::state::{Metadata, MetadataView, Resource, ResourceStats, ResourceView};
use crate::time::Timestamp;
use crate::wire;
use std::collections::{BTreeMap, HashMap};
use vstd::prelude::*;

verus! {

/// The views of the resources in a map.
pub open spec fn resource_views(m: Map<u64, Resource>) -> Map<u64, ResourceView> {
    m.map_values(|t: Resource| t@)
}

/// The resources after the new ones were put in, in the order given: a new
/// resource replaces the resource of the same id, and the first resource that
/// cannot be converted ends it.
pub open spec fn with_new_resources(
    resources: Map<u64, ResourceView>,
    new: Seq<wire::Resource>,
) -> Result<Map<u64, ResourceView>, ConvertError>
    decreases new.len(),
{
    if new.len() == 0 {
        Ok(resources)
    } else {
        match with_new_resources(resources, new.drop_last()) {
            Err(e) => Err(e),
            Ok(m) => match resource_of(new.last()) {
                Err(e) => Err(e),
                Ok(resource) => Ok(m.insert(resource.id, resource)),
            },
        }
    }
}

/// Once a prefix of the new resources fails, the whole fails in the same way.
pub proof fn lemma_with_new_resources_fails(
    resources: Map<u64, ResourceView>,
    new: Seq<wire::Resource>,
    n: int,
)
    requires
        0 <= n <= new.len(),
        with_new_resources(resources, new.take(n)) is Err,
    ensures
        with_new_resources(resources, new) == with_new_resources(resources, new.take(n)),
    decreases new.len() - n,
{
    if n == new.len() {
        assert(new.take(n) =~= new);
    } else {
        assert(new.take(n + 1).drop_last() =~= new.take(n));
        lemma_with_new_resources_fails(resources, new, n + 1);
    }
}

/// The resources after one statistics update: the statistics must convert; they
/// then replace those of the resource with this id, and change nothing where
/// there is no such resource.
pub open spec fn with_resource_stat(
    resources: Map<u64, ResourceView>,
    id: u64,
    stats: wire::ResourceStats,
) -> Result<Map<u64, ResourceView>, ConvertError> {
    match resource_stats_of(stats) {
        Err(e) => Err(e),
        Ok(s) => if resources.contains_key(id) {
            Ok(resources.insert(id, ResourceView { stats: Some(s), ..resources[id] }))
        } else {
            Ok(resources)
        },
    }
}

/// The resources after the statistics updates, in the order given; the first
/// statistics that cannot be converted end it.
pub open spec fn with_resource_stats(
    resources: Map<u64, ResourceView>,
    updates: Seq<(u64, wire::ResourceStats)>,
) -> Result<Map<u64, ResourceView>, ConvertError>
    decreases updates.len(),
{
    if updates.len() == 0 {
        Ok(resources)
    } else {
        match with_resource_stats(resources, updates.drop_last()) {
            Err(e) => Err(e),
            Ok(m) => with_resource_stat(m, updates.last().0, updates.last().1),
        }
    }
}

/// Once a prefix of the statistics updates fails, the whole fails in the
/// same way.
pub proof fn lemma_with_resource_stats_fails(
    resources: Map<u64, ResourceView>,
    updates: Seq<(u64, wire::ResourceStats)>,
    n: int,
)
    requires
        0 <= n <= updates.len(),
        with_resource_stats(resources, updates.take(n)) is Err,
    ensures
        with_resource_stats(resources, updates) == with_resource_stats(resources, updates.take(n)),
    decreases updates.len() - n,
{
    if n == updates.len() {
        assert(updates.take(n) =~= updates);
    } else {
        assert(updates.take(n + 1).drop_last() =~= updates.take(n));
        lemma_with_resource_stats_fails(resources, updates, n + 1);
    }
}

/// A resource with its target taken from its metadata, where the metadata is
/// known; unchanged where it is not.
pub open spec fn resource_resolved(
    resource: ResourceView,
    metadata: Map<u64, MetadataView>,
) -> ResourceView {
    if metadata.contains_key(resource.metadata_id) {
        ResourceView { target: Some(metadata[resource.metadata_id].target), ..resource }
    } else {
        resource
    }
}

/// All resources with their targets taken from their metadata.
pub open spec fn resources_resolved(
    resources: Map<u64, ResourceView>,
    metadata: Map<u64, MetadataView>,
) -> Map<u64, ResourceView> {
    resources.map_values(|t: ResourceView| resource_resolved(t, metadata))
}

/// Whether a resource stays in the snapshot at the instant `now`: it does unless
/// it was dropped and `now` is the grace time or more past that.
pub open spec fn resource_retained(resource: ResourceView, now: int) -> bool {
    match resource.stats {
        Some(s) => match s.dropped_at {
            Some(dropped_at) => now - dropped_at < grace_nanos(),
            None => true,
        },
        None => true,
    }
}

/// The resources that stay in the snapshot at the instant `now`.
pub open spec fn resources_reaped(
    resources: Map<u64, ResourceView>,
    now: int,
) -> Map<u64, ResourceView> {
    Map::new(
        |id: u64| resources.contains_key(id) && resource_retained(resources[id], now),
        |id: u64| resources[id],
    )
}

/// Puts the new resources into `resources`.
pub fn apply_new_resources(
    resources: &mut BTreeMap<u64, Resource>,
    new: Vec<wire::Resource>,
) -> (r: Result<(), ConvertError>)
    ensures
        match with_new_resources(resource_views(old(resources)@), new@) {
            Ok(m) => r is Ok && resource_views(final(resources)@) == m,
            Err(e) => r == Err::<(), ConvertError>(e),
        },
{
    let ghost before = resource_views(resources@);
    let ghost all = new@;
    assert(all.take(0) =~= Seq::<wire::Resource>::empty());
    for resource in it: new
        invariant
            it.seq() == all,
            all == new@,
            before == resource_views(old(resources)@),
            with_new_resources(before, all.take(it.index() as int)) == Ok::<
                Map<u64, ResourceView>,
                ConvertError,
            >(resource_views(resources@)),
    {
        let ghost i = it.index() as int;
        assert(all.take(i + 1).drop_last() =~= all.take(i));
        assert(all.take(i + 1).last() == resource);
        match Resource::try_from(resource) {
            Err(e) => {
                proof {
                    assert(with_new_resources(before, all.take(i + 1)) == Err::<
                        Map<u64, ResourceView>,
                        ConvertError,
                    >(e));
                    lemma_with_new_resources_fails(before, all, i + 1);
                }
                return Err(e);
            },
            Ok(t) => {
                let ghost prior = resources@;
                resources.insert(t.id.0, t);
                assert(resource_views(resources@) =~= resource_views(prior).insert(t.id.0, t@));
            },
        }
    }
    assert(all.take(all.len() as int) =~= all);
    Ok(())
}

/// Applies the statistics updates to `resources`.
pub fn apply_resource_stats(
    resources: &mut BTreeMap<u64, Resource>,
    updates: Vec<(u64, wire::ResourceStats)>,
) -> (r: Result<(), ConvertError>)
    ensures
        match with_resource_stats(resource_views(old(resources)@), updates@) {
            Ok(m) => r is Ok && resource_views(final(resources)@) == m,
            Err(e) => r == Err::<(), ConvertError>(e),
        },
{
    let ghost before = resource_views(resources@);
    let ghost all = updates@;
    assert(all.take(0) =~= Seq::<(u64, wire::ResourceStats)>::empty());
    for update in it: updates
        invariant
            it.seq() == all,
            all == updates@,
            before == resource_views(old(resources)@),
            with_resource_stats(before, all.take(it.index() as int)) == Ok::<
                Map<u64, ResourceView>,
                ConvertError,
            >(resource_views(resources@)),
    {
        let ghost i = it.index() as int;
        assert(all.take(i + 1).drop_last() =~= all.take(i));
        assert(all.take(i + 1).last() == update);
        let id: u64 = update.0;
        match ResourceStats::try_from(update.1) {
            Err(e) => {
                proof {
                    assert(with_resource_stats(before, all.take(i + 1)) == Err::<
                        Map<u64, ResourceView>,
                        ConvertError,
                    >(e));
                    lemma_with_resource_stats_fails(before, all, i + 1);
                }
                return Err(e);
            },
            Ok(stats) => {
                let ghost prior = resources@;
                match resources.remove(&id) {
                    Some(resource) => {
                        let mut resource = resource;
                        resource.stats = Some(stats);
                        let ghost changed = resource@;
                        resources.insert(id, resource);
                        assert(resource_views(resources@) =~= resource_views(prior).insert(id,
                            changed));
                    },
                    None => {
                        assert(resources@ =~= prior);
                    },
                }
            },
        }
    }
    assert(all.take(all.len() as int) =~= all);
    Ok(())
}

/// Whether `resource` stays in the snapshot at the instant `now`.
pub fn resource_is_retained(resource: &Resource, now: Timestamp) -> (r: bool)
    ensures
        r == resource_retained(resource@, now@),
{
    match &resource.stats {
        Some(stats) => match stats.dropped_at {
            Some(dropped_at) => match dropped_at.elapsed_at(now) {
                Some(age) => age.as_nanos() < GRACE_SECS as u128 * 1_000_000_000,
                None => true,
            },
            None => true,
        },
        None => true,
    }
}

/// Gives every resource the target of its metadata, where that is known.
pub fn resolve_resource_targets(
    resources: &mut BTreeMap<u64, Resource>,
    metadata: &HashMap<u64, Metadata>,
)
    ensures
        resource_views(final(resources)@) == resources_resolved(
            resource_views(old(resources)@),
            metadata_views(metadata@),
        ),
{
    let ghost before = resource_views(resources@);
    let ghost known = metadata_views(metadata@);
    let keys = keys_in_order(resources);
    assert(before.dom() =~= resources@.dom());
    let mut i: usize = 0;
    while i < keys.len()
        invariant
            i <= keys.len(),
            lists_in_order(keys@, before.dom()),
            known == metadata_views(metadata@),
            resource_views(resources@).dom() == before.dom(),
            forall|j: int|
                0 <= j < i ==> resource_views(resources@)[#[trigger] keys@[j]] == resource_resolved(
                    before[keys@[j]],
                    known,
                ),
            forall|j: int|
                i <= j < keys.len() ==> resource_views(resources@)[#[trigger] keys@[j]]
                    == before[keys@[j]],
        decreases keys.len() - i,
    {
        let id: u64 = keys[i];
        let ghost prior = resources@;
        assert(keys@.to_set().contains(keys@[i as int]));
        assert(prior.contains_key(id));
        match resources.remove(&id) {
            Some(resource) => {
                let mut resource = resource;
                match metadata.get(&resource.metadata_id.0) {
                    Some(piece) => {
                        resource.target = Some(piece.target.clone());
                    },
                    None => {},
                }
                let ghost changed = resource@;
                resources.insert(id, resource);
                assert(resource_views(resources@) =~= resource_views(prior).insert(id, changed));
                assert(changed == resource_resolved(before[id], known));
            },
            None => {},
        }
        i += 1;
    }
    assert(resource_views(resources@) =~= resources_resolved(before, known)) by {
        assert forall|id: u64| before.contains_key(id) implies resource_views(resources@)[id]
            == resource_resolved(before[id], known) by {
            assert(keys@.to_set().contains(id));
            let j = choose|j: int| 0 <= j < keys@.len() && keys@[j] == id;
            assert(keys@[j] == id);
        }
    }
}

/// Removes the resources that were dropped the grace time or more before `now`.
pub fn reap_resources(resources: &mut BTreeMap<u64, Resource>, now: Timestamp)
    ensures
        resource_views(final(resources)@)
            == resources_reaped(resource_views(old(resources)@), now@),
{
    let ghost before = resource_views(resources@);
    let keys = keys_in_order(resources);
    assert(before.dom() =~= resources@.dom());
    let mut i: usize = 0;
    while i < keys.len()
        invariant
            i <= keys.len(),
            lists_in_order(keys@, before.dom()),
            resource_views(resources@).dom().subset_of(before.dom()),
            forall|id: u64|
                #[trigger] resource_views(resources@).contains_key(id)
                    ==> resource_views(resources@)[id]
                    == before[id],
            forall|j: int|
                0 <= j < i ==> (resource_views(resources@).contains_key(#[trigger] keys@[j])
                    <==> resource_retained(before[keys@[j]], now@)),
            forall|j: int| i <= j < keys.len()
                ==> resource_views(resources@).contains_key(#[trigger] keys@[j]),
        decreases keys.len() - i,
    {
        let id: u64 = keys[i];
        let ghost prior = resources@;
        assert(resource_views(prior).contains_key(keys@[i as int]));
        assert(prior.contains_key(id));
        let keep: bool = match resources.get(&id) {
            Some(resource) => resource_is_retained(resource, now),
            None => true,
        };
        if !keep {
            resources.remove(&id);
            assert(resource_views(resources@) =~= resource_views(prior).remove(id));
            assert forall|j: int| i < j < keys.len() implies resource_views(
                resources@,
            ).contains_key(#[trigger] keys@[j]) by {
                assert(keys@[i as int] < keys@[j]);
            }
            assert forall|j: int| 0 <= j < i implies (resource_views(resources@).contains_key(
                #[trigger] keys@[j],
            ) <==> resource_retained(before[keys@[j]], now@)) by {
                assert(keys@[j] < keys@[i as int]);
            }
        }
        i += 1;
    }
    assert(resource_views(resources@) =~= resources_reaped(before, now@)) by {
        assert forall|id: u64| before.contains_key(id)
            implies (resource_views(resources@).contains_key(id)
            <==> resource_retained(before[id], now@)) by {
            assert(keys@.to_set().contains(id));
            let j = choose|j: int| 0 <= j < keys@.len() && keys@[j] == id;
            assert(keys@[j] == id);
        }
    }
}

} // verus!
