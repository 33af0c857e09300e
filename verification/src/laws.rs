//! What holds of the step that folds a delta into the snapshot, whatever
//! the snapshot and the delta.

use crate::convert::{
    metadata_of, resource_of, resource_stats_of, task_of, task_stats_of, ConvertError,
};
use crate::reduce::metadata::with_metadata;
use crate::reduce::resources::{
    resource_resolved, resource_retained, resources_reaped, resources_resolved,
    with_new_resources, with_resource_stats,
};
use crate::reduce::tasks::{
    task_resolved, task_retained, tasks_reaped, tasks_resolved, with_new_tasks, with_task_stat,
    with_task_stats,
};
use crate::reduce::{dropped_within_grace, new_metadata_of, reduced, targets_follow_metadata};
use crate::path::registry_truncated;
use crate::state::{ConsoleStateView, MetadataView, ResourceView, TaskView};
use crate::wire;
use vstd::prelude::*;

verus! {

/// After a step, no task and no resource of the snapshot was dropped five
/// seconds or more before the instant of the step.
pub proof fn lemma_no_expired_entity_stays(state: ConsoleStateView, update: wire::Update, now: int)
    requires
        reduced(state, update, now) is Ok,
    ensures
        dropped_within_grace(reduced(state, update, now)->Ok_0, now),
{
    let after = reduced(state, update, now)->Ok_0;
    assert forall|id: u64| #[trigger] after.tasks.contains_key(id) implies task_retained(
        after.tasks[id],
        now,
    ) by {}
    assert forall|id: u64| #[trigger] after.resources.contains_key(id) implies resource_retained(
        after.resources[id],
        now,
    ) by {}
}

/// After a step, every task and every resource whose metadata the snapshot
/// holds has the target of that metadata.
pub proof fn lemma_targets_follow_metadata(state: ConsoleStateView, update: wire::Update, now: int)
    requires
        reduced(state, update, now) is Ok,
    ensures
        targets_follow_metadata(reduced(state, update, now)->Ok_0),
{
}

/// The snapshot after the deltas of `deltas`, each with the instant of its
/// arrival, taken one after the other: each delta is folded into what the
/// deltas before it left, and the first failure ends the stream.
pub open spec fn reduced_all(
    state: ConsoleStateView,
    deltas: Seq<(wire::Update, int)>,
) -> Result<ConsoleStateView, ConvertError>
    decreases deltas.len(),
{
    if deltas.len() == 0 {
        Ok(state)
    } else {
        match reduced_all(state, deltas.drop_last()) {
            Err(e) => Err(e),
            Ok(before) => reduced(before, deltas.last().0, deltas.last().1),
        }
    }
}

/// Two deltas give what the first gives, and then the second on top of
/// that: the parts of the second are never mixed with those of the first.
pub proof fn lemma_two_deltas_in_turn(
    state: ConsoleStateView,
    first: wire::Update,
    first_at: int,
    second: wire::Update,
    second_at: int,
)
    ensures
        reduced_all(state, seq![(first, first_at), (second, second_at)]) == match reduced(
            state,
            first,
            first_at,
        ) {
            Err(e) => Err(e),
            Ok(between) => reduced(between, second, second_at),
        },
{
    let both = seq![(first, first_at), (second, second_at)];
    assert(both.drop_last() =~= seq![(first, first_at)]);
    assert(seq![(first, first_at)].drop_last() =~= Seq::<(wire::Update, int)>::empty());
    reveal_with_fuel(reduced_all, 3);
}

/// Where no delta arrives, the snapshot stays as it is; in particular the
/// empty snapshot stays empty.
pub proof fn lemma_no_delta_no_change(state: ConsoleStateView)
    ensures
        reduced_all(state, Seq::empty()) == Ok::<ConsoleStateView, ConvertError>(state),
        reduced_all(ConsoleStateView::empty(), Seq::empty()) == Ok::<
            ConsoleStateView,
            ConvertError,
        >(ConsoleStateView::empty()),
{
}

/// Statistics for an id under which there is no task change no task.
pub proof fn lemma_stats_of_unknown_task(tasks: Map<u64, TaskView>, id: u64, stats: wire::TaskStats)
    requires
        !tasks.contains_key(id),
        task_stats_of(stats) is Ok,
    ensures
        with_task_stat(tasks, id, stats) == Ok::<Map<u64, TaskView>, ConvertError>(tasks),
        with_task_stats(tasks, seq![(id, stats)]) == Ok::<Map<u64, TaskView>, ConvertError>(tasks),
{
    assert(seq![(id, stats)].drop_last() =~= Seq::<(u64, wire::TaskStats)>::empty());
    reveal_with_fuel(with_task_stats, 2);
}

/// A statistics update for an id under which the snapshot holds no task,
/// also after the new tasks of the delta, changes nothing: the delta with
/// it gives what the delta without it gives.
pub proof fn lemma_unknown_task_stats_change_nothing(
    state: ConsoleStateView,
    without: wire::Update,
    with: wire::Update,
    id: u64,
    stats: wire::TaskStats,
    now: int,
)
    requires
        task_stats_of(stats) is Ok,
        new_metadata_of(with) == new_metadata_of(without),
        with.resource_update == without.resource_update,
        without.task_update is Some,
        with.task_update is Some,
        with.task_update->0.new_tasks@ == without.task_update->0.new_tasks@,
        with.task_update->0.stats_update@ == without.task_update->0.stats_update@.push(
            (id, stats),
        ),
        with_new_tasks(state.tasks, without.task_update->0.new_tasks@) matches Ok(tasks)
            && with_task_stats(tasks, without.task_update->0.stats_update@) matches Ok(tasks)
            && !tasks.contains_key(id),
    ensures
        reduced(state, with, now) == reduced(state, without, now),
{
    let updates = with.task_update->0.stats_update@;
    assert(updates.drop_last() =~= without.task_update->0.stats_update@);
    assert(updates.last() == (id, stats));
}

/// The last of the new tasks that has the id `id`, if there is one.
pub open spec fn last_task_with(new: Seq<wire::Task>, id: u64) -> Option<TaskView>
    decreases new.len(),
{
    if new.len() == 0 {
        None
    } else {
        match task_of(new.last()) {
            Ok(task) => if task.id == id {
                Some(task)
            } else {
                last_task_with(new.drop_last(), id)
            },
            Err(_) => last_task_with(new.drop_last(), id),
        }
    }
}

/// Among new tasks the last one wins: after they were put in, an id has
/// the last new task with that id, or else what it had before.
pub proof fn lemma_last_new_task_wins(tasks: Map<u64, TaskView>, new: Seq<wire::Task>, id: u64)
    requires
        with_new_tasks(tasks, new) is Ok,
    ensures
        with_new_tasks(tasks, new)->Ok_0.contains_key(id) <==> tasks.contains_key(id)
            || last_task_with(new, id) is Some,
        with_new_tasks(tasks, new)->Ok_0.contains_key(id) ==> with_new_tasks(tasks, new)->Ok_0[id]
            == match last_task_with(new, id) {
            Some(task) => task,
            None => tasks[id],
        },
    decreases new.len(),
{
    if new.len() > 0 {
        lemma_last_new_task_wins(tasks, new.drop_last(), id);
    }
}

/// Whether new tasks can be put in does not depend on the tasks that are
/// there.
pub proof fn lemma_new_tasks_convert_alike(
    one: Map<u64, TaskView>,
    other: Map<u64, TaskView>,
    new: Seq<wire::Task>,
)
    ensures
        with_new_tasks(one, new) is Ok <==> with_new_tasks(other, new) is Ok,
    decreases new.len(),
{
    if new.len() > 0 {
        lemma_new_tasks_convert_alike(one, other, new.drop_last());
    }
}

/// Putting the same new tasks in a second time changes nothing.
pub proof fn lemma_new_tasks_twice(tasks: Map<u64, TaskView>, new: Seq<wire::Task>)
    requires
        with_new_tasks(tasks, new) is Ok,
    ensures
        with_new_tasks(with_new_tasks(tasks, new)->Ok_0, new) == with_new_tasks(tasks, new),
{
    let once = with_new_tasks(tasks, new)->Ok_0;
    lemma_new_tasks_convert_alike(tasks, once, new);
    let twice = with_new_tasks(once, new)->Ok_0;
    assert forall|id: u64| #[trigger] twice.contains_key(id) implies once.contains_key(id)
        && twice[id] == once[id] by {
        lemma_last_new_task_wins(tasks, new, id);
        lemma_last_new_task_wins(once, new, id);
    }
    assert forall|id: u64| #[trigger] once.contains_key(id) implies twice.contains_key(id) by {
        lemma_last_new_task_wins(tasks, new, id);
        lemma_last_new_task_wins(once, new, id);
    }
    assert(twice =~= once);
}

/// A statistics update for an id under which the snapshot holds no resource,
/// also after the new resources of the delta, changes nothing: the delta with
/// it gives what the delta without it gives.
pub proof fn lemma_unknown_resource_stats_change_nothing(
    state: ConsoleStateView,
    without: wire::Update,
    with: wire::Update,
    id: u64,
    stats: wire::ResourceStats,
    now: int,
)
    requires
        resource_stats_of(stats) is Ok,
        new_metadata_of(with) == new_metadata_of(without),
        with.task_update == without.task_update,
        without.resource_update is Some,
        with.resource_update is Some,
        with.resource_update->0.new_resources@ == without.resource_update->0.new_resources@,
        with.resource_update->0.stats_update@ == without.resource_update->0.stats_update@.push(
            (id, stats),
        ),
        with_new_resources(state.resources,
            without.resource_update->0.new_resources@) matches Ok(resources)
            && with_resource_stats(resources,
                without.resource_update->0.stats_update@) matches Ok(resources)
            && !resources.contains_key(id),
    ensures
        reduced(state, with, now) == reduced(state, without, now),
{
    let updates = with.resource_update->0.stats_update@;
    assert(updates.drop_last() =~= without.resource_update->0.stats_update@);
    assert(updates.last() == (id, stats));
}

/// The last of the new resources that has the id `id`, if there is one.
pub open spec fn last_resource_with(new: Seq<wire::Resource>, id: u64) -> Option<ResourceView>
    decreases new.len(),
{
    if new.len() == 0 {
        None
    } else {
        match resource_of(new.last()) {
            Ok(resource) => if resource.id == id {
                Some(resource)
            } else {
                last_resource_with(new.drop_last(), id)
            },
            Err(_) => last_resource_with(new.drop_last(), id),
        }
    }
}

/// Among new resources the last one wins: after they were put in, an id has
/// the last new resource with that id, or else what it had before.
pub proof fn lemma_last_new_resource_wins(
    resources: Map<u64, ResourceView>,
    new: Seq<wire::Resource>,
    id: u64,
)
    requires
        with_new_resources(resources, new) is Ok,
    ensures
        with_new_resources(resources, new)->Ok_0.contains_key(id) <==> resources.contains_key(id)
            || last_resource_with(new, id) is Some,
        with_new_resources(resources, new)->Ok_0.contains_key(id)
            ==> with_new_resources(resources, new)->Ok_0[id]
            == match last_resource_with(new, id) {
            Some(resource) => resource,
            None => resources[id],
        },
    decreases new.len(),
{
    if new.len() > 0 {
        lemma_last_new_resource_wins(resources, new.drop_last(), id);
    }
}

/// Whether new resources can be put in does not depend on the resources that are
/// there.
pub proof fn lemma_new_resources_convert_alike(
    one: Map<u64, ResourceView>,
    other: Map<u64, ResourceView>,
    new: Seq<wire::Resource>,
)
    ensures
        with_new_resources(one, new) is Ok <==> with_new_resources(other, new) is Ok,
    decreases new.len(),
{
    if new.len() > 0 {
        lemma_new_resources_convert_alike(one, other, new.drop_last());
    }
}

/// Putting the same new resources in a second time changes nothing.
pub proof fn lemma_new_resources_twice(resources: Map<u64, ResourceView>, new: Seq<wire::Resource>)
    requires
        with_new_resources(resources, new) is Ok,
    ensures
        with_new_resources(with_new_resources(resources, new)->Ok_0, new)
            == with_new_resources(resources, new),
{
    let once = with_new_resources(resources, new)->Ok_0;
    lemma_new_resources_convert_alike(resources, once, new);
    let twice = with_new_resources(once, new)->Ok_0;
    assert forall|id: u64| #[trigger] twice.contains_key(id) implies once.contains_key(id)
        && twice[id] == once[id] by {
        lemma_last_new_resource_wins(resources, new, id);
        lemma_last_new_resource_wins(once, new, id);
    }
    assert forall|id: u64| #[trigger] once.contains_key(id) implies twice.contains_key(id) by {
        lemma_last_new_resource_wins(resources, new, id);
        lemma_last_new_resource_wins(once, new, id);
    }
    assert(twice =~= once);
}

/// The last of the new pieces of metadata that has the id `id`, if there
/// is one.
pub open spec fn last_metadata_with(new: Seq<wire::NewMetadata>, id: u64) -> Option<MetadataView>
    decreases new.len(),
{
    if new.len() == 0 {
        None
    } else {
        match metadata_of(new.last()) {
            Ok(piece) => if piece.id == id {
                Some(piece)
            } else {
                last_metadata_with(new.drop_last(), id)
            },
            Err(_) => last_metadata_with(new.drop_last(), id),
        }
    }
}

/// Among new pieces of metadata the last one wins.
pub proof fn lemma_last_new_metadata_wins(
    metadata: Map<u64, MetadataView>,
    new: Seq<wire::NewMetadata>,
    id: u64,
)
    requires
        with_metadata(metadata, new) is Ok,
    ensures
        with_metadata(metadata, new)->Ok_0.contains_key(id) <==> metadata.contains_key(id)
            || last_metadata_with(new, id) is Some,
        with_metadata(metadata, new)->Ok_0.contains_key(id) ==> with_metadata(
            metadata,
            new,
        )->Ok_0[id] == match last_metadata_with(new, id) {
            Some(piece) => piece,
            None => metadata[id],
        },
    decreases new.len(),
{
    if new.len() > 0 {
        lemma_last_new_metadata_wins(metadata, new.drop_last(), id);
    }
}

/// Whether new metadata can be put in does not depend on the metadata that
/// is there.
pub proof fn lemma_metadata_converts_alike(
    one: Map<u64, MetadataView>,
    other: Map<u64, MetadataView>,
    new: Seq<wire::NewMetadata>,
)
    ensures
        with_metadata(one, new) is Ok <==> with_metadata(other, new) is Ok,
    decreases new.len(),
{
    if new.len() > 0 {
        lemma_metadata_converts_alike(one, other, new.drop_last());
    }
}

/// Putting the same new metadata in a second time changes nothing.
pub proof fn lemma_metadata_twice(metadata: Map<u64, MetadataView>, new: Seq<wire::NewMetadata>)
    requires
        with_metadata(metadata, new) is Ok,
    ensures
        with_metadata(with_metadata(metadata, new)->Ok_0, new) == with_metadata(metadata, new),
{
    let once = with_metadata(metadata, new)->Ok_0;
    lemma_metadata_converts_alike(metadata, once, new);
    let twice = with_metadata(once, new)->Ok_0;
    assert forall|id: u64| #[trigger] twice.contains_key(id) implies once.contains_key(id)
        && twice[id] == once[id] by {
        lemma_last_new_metadata_wins(metadata, new, id);
        lemma_last_new_metadata_wins(once, new, id);
    }
    assert forall|id: u64| #[trigger] once.contains_key(id) implies twice.contains_key(id) by {
        lemma_last_new_metadata_wins(metadata, new, id);
        lemma_last_new_metadata_wins(once, new, id);
    }
    assert(twice =~= once);
}

/// A new task has no statistics and no target.
pub proof fn lemma_new_task_is_bare(new: Seq<wire::Task>, id: u64)
    ensures
        last_task_with(new, id) matches Some(task) ==> task.stats is None && task.target is None,
    decreases new.len(),
{
    if new.len() > 0 {
        lemma_new_task_is_bare(new.drop_last(), id);
    }
}

/// A new resource has no statistics and no target.
pub proof fn lemma_new_resource_is_bare(new: Seq<wire::Resource>, id: u64)
    ensures
        last_resource_with(new, id) matches Some(resource) ==> resource.stats is None
            && resource.target is None,
    decreases new.len(),
{
    if new.len() > 0 {
        lemma_new_resource_is_bare(new.drop_last(), id);
    }
}

/// A delta without statistics that is folded in a second time, at the same
/// instant, changes nothing: its new tasks and resources replace
/// themselves.
pub proof fn lemma_same_delta_twice(state: ConsoleStateView, update: wire::Update, now: int)
    requires
        reduced(state, update, now) is Ok,
        update.task_update->0.stats_update@.len() == 0,
        update.resource_update->0.stats_update@.len() == 0,
    ensures
        reduced(reduced(state, update, now)->Ok_0, update, now) == reduced(state, update, now),
{
    let once = reduced(state, update, now)->Ok_0;
    let pieces = new_metadata_of(update);
    let metadata = with_metadata(state.metadata, pieces)->Ok_0;
    lemma_metadata_twice(state.metadata, pieces);
    assert(once.metadata == metadata);

    let new_tasks = update.task_update->0.new_tasks@;
    let tasks_in = with_new_tasks(state.tasks, new_tasks)->Ok_0;
    lemma_new_tasks_convert_alike(state.tasks, once.tasks, new_tasks);
    let tasks_again = with_new_tasks(once.tasks, new_tasks)->Ok_0;
    let tasks_twice = tasks_reaped(tasks_resolved(tasks_again, metadata), now);
    assert(once.tasks == tasks_reaped(tasks_resolved(tasks_in, metadata), now));
    assert forall|id: u64| #[trigger] tasks_twice.contains_key(id)
        implies once.tasks.contains_key(id)
        && tasks_twice[id] == once.tasks[id] by {
        lemma_last_new_task_wins(state.tasks, new_tasks, id);
        lemma_last_new_task_wins(once.tasks, new_tasks, id);
        lemma_new_task_is_bare(new_tasks, id);
        assert(tasks_again.contains_key(id));
        assert(tasks_resolved(tasks_again, metadata)[id]
            == task_resolved(tasks_again[id], metadata));
        if tasks_in.contains_key(id) {
            assert(tasks_resolved(tasks_in, metadata)[id] == task_resolved(tasks_in[id], metadata));
        }
    }
    assert forall|id: u64| #[trigger] once.tasks.contains_key(id) implies tasks_twice.contains_key(
        id,
    ) by {
        lemma_last_new_task_wins(state.tasks, new_tasks, id);
        lemma_last_new_task_wins(once.tasks, new_tasks, id);
        lemma_new_task_is_bare(new_tasks, id);
        assert(tasks_in.contains_key(id));
        assert(tasks_resolved(tasks_in, metadata)[id] == task_resolved(tasks_in[id], metadata));
        assert(tasks_again.contains_key(id));
        assert(tasks_resolved(tasks_again, metadata)[id]
            == task_resolved(tasks_again[id], metadata));
    }
    assert(tasks_twice =~= once.tasks);

    let new_resources = update.resource_update->0.new_resources@;
    let resources_in = with_new_resources(state.resources, new_resources)->Ok_0;
    lemma_new_resources_convert_alike(state.resources, once.resources, new_resources);
    let resources_again = with_new_resources(once.resources, new_resources)->Ok_0;
    let resources_twice = resources_reaped(resources_resolved(resources_again, metadata), now);
    assert(once.resources == resources_reaped(resources_resolved(resources_in, metadata), now));
    assert forall|id: u64| #[trigger] resources_twice.contains_key(id)
        implies once.resources.contains_key(id)
        && resources_twice[id] == once.resources[id] by {
        lemma_last_new_resource_wins(state.resources, new_resources, id);
        lemma_last_new_resource_wins(once.resources, new_resources, id);
        lemma_new_resource_is_bare(new_resources, id);
        assert(resources_again.contains_key(id));
        assert(resources_resolved(resources_again, metadata)[id]
            == resource_resolved(resources_again[id], metadata));
        if resources_in.contains_key(id) {
            assert(resources_resolved(resources_in, metadata)[id]
                == resource_resolved(resources_in[id], metadata));
        }
    }
    assert forall|id: u64| #[trigger]
        once.resources.contains_key(id) implies resources_twice.contains_key(id) by {
        lemma_last_new_resource_wins(state.resources, new_resources, id);
        lemma_last_new_resource_wins(once.resources, new_resources, id);
        lemma_new_resource_is_bare(new_resources, id);
        assert(resources_in.contains_key(id));
        assert(resources_resolved(resources_in, metadata)[id]
            == resource_resolved(resources_in[id], metadata));
        assert(resources_again.contains_key(id));
        assert(resources_resolved(resources_again, metadata)[id]
            == resource_resolved(resources_again[id], metadata));
    }
    assert(resources_twice =~= once.resources);
}

/// Statistics updates add no task, remove none, and change nothing of a
/// task but its statistics.
pub proof fn lemma_task_stats_change_stats_only(
    tasks: Map<u64, TaskView>,
    updates: Seq<(u64, wire::TaskStats)>,
    id: u64,
)
    requires
        with_task_stats(tasks, updates) is Ok,
    ensures
        with_task_stats(tasks, updates)->Ok_0.contains_key(id) <==> tasks.contains_key(id),
        tasks.contains_key(id) ==> (TaskView {
            stats: tasks[id].stats,
            ..with_task_stats(tasks, updates)->Ok_0[id]
        }) == tasks[id],
    decreases updates.len(),
{
    if updates.len() > 0 {
        lemma_task_stats_change_stats_only(tasks, updates.drop_last(), id);
    }
}

/// The file of a new task is the file that the delta names, shortened
/// where it lies under cargo's directories; and a task that a step keeps
/// has the location of the last new task with its id, or else the location
/// it had before: what was shortened once stays shortened.
pub proof fn lemma_location_stays(state: ConsoleStateView, update: wire::Update, now: int, id: u64)
    requires
        reduced(state, update, now) is Ok,
        reduced(state, update, now)->Ok_0.tasks.contains_key(id),
    ensures
        reduced(state, update, now)->Ok_0.tasks[id].location == match last_task_with(
            update.task_update->0.new_tasks@,
            id,
        ) {
            Some(task) => task.location,
            None => state.tasks[id].location,
        },
        forall|task: wire::Task|
            #![trigger task_of(task)]
            task_of(task) is Ok ==> task_of(task)->Ok_0.location.file == registry_truncated(
                task.location->0.file->0@,
            ),
{
    let task_update = update.task_update->0;
    let metadata = with_metadata(state.metadata, new_metadata_of(update))->Ok_0;
    let put_in = with_new_tasks(state.tasks, task_update.new_tasks@)->Ok_0;
    let counted = with_task_stats(put_in, task_update.stats_update@)->Ok_0;
    lemma_last_new_task_wins(state.tasks, task_update.new_tasks@, id);
    lemma_task_stats_change_stats_only(put_in, task_update.stats_update@, id);
    assert(tasks_resolved(counted, metadata)[id] == task_resolved(counted[id], metadata));
}

} // verus!
