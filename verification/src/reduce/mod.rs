//! The step that folds one delta into the snapshot: metadata, then tasks,
//! their statistics and targets, then resources, their statistics and
//! targets, then the removal of what was dropped long enough ago.

pub mod metadata;
pub mod resources;
pub mod tasks;

use crate::convert::{viewed, ConvertError};
use crate::reduce::metadata::{apply_metadata, with_metadata};
use crate::reduce::resources::{
    apply_new_resources, apply_resource_stats, reap_resources, resolve_resource_targets,
    resources_reaped, resources_resolved, with_new_resources, with_resource_stats,
};
use crate::reduce::tasks::{
    apply_new_tasks, apply_task_stats, reap_tasks, resolve_task_targets, tasks_reaped,
    tasks_resolved, with_new_tasks, with_task_stats,
};
use crate::state::{ConsoleState, ConsoleStateView, MetadataView, ResourceView, TaskView};
use crate::time::Timestamp;
use crate::wire;
use vstd::prelude::*;

verus! {

/// How long a dropped task or resource stays in the snapshot, in seconds.
pub const GRACE_SECS: u64 = 5;

/// How long a dropped task or resource stays in the snapshot, in nanoseconds.
pub open spec fn grace_nanos() -> int {
    GRACE_SECS * 1_000_000_000
}

/// The new pieces of metadata of a delta: none where the delta leaves
/// them out.
pub open spec fn new_metadata_of(update: wire::Update) -> Seq<wire::NewMetadata> {
    match update.new_metadata {
        Some(new) => new@,
        None => Seq::empty(),
    }
}

/// The tasks after a task update: the new tasks, then the statistics, then
/// the targets from `metadata`.
pub open spec fn tasks_updated(
    tasks: Map<u64, TaskView>,
    metadata: Map<u64, MetadataView>,
    update: wire::TaskUpdate,
) -> Result<Map<u64, TaskView>, ConvertError> {
    match with_new_tasks(tasks, update.new_tasks@) {
        Err(e) => Err(e),
        Ok(tasks) => match with_task_stats(tasks, update.stats_update@) {
            Err(e) => Err(e),
            Ok(tasks) => Ok(tasks_resolved(tasks, metadata)),
        },
    }
}

/// The resources after a resource update: the new resources, then the
/// statistics, then the targets from `metadata`.
pub open spec fn resources_updated(
    resources: Map<u64, ResourceView>,
    metadata: Map<u64, MetadataView>,
    update: wire::ResourceUpdate,
) -> Result<Map<u64, ResourceView>, ConvertError> {
    match with_new_resources(resources, update.new_resources@) {
        Err(e) => Err(e),
        Ok(resources) => match with_resource_stats(resources, update.stats_update@) {
            Err(e) => Err(e),
            Ok(resources) => Ok(resources_resolved(resources, metadata)),
        },
    }
}

/// The snapshot after one delta that arrives at the instant `now`:
/// metadata, then the task update, then the resource update, each of which
/// the delta must hold, then the removal of the tasks and resources that
/// were dropped the grace time or more before `now`. The first failure
/// decides the error.
pub open spec fn reduced(
    state: ConsoleStateView,
    update: wire::Update,
    now: int,
) -> Result<ConsoleStateView, ConvertError> {
    match with_metadata(state.metadata, new_metadata_of(update)) {
        Err(e) => Err(e),
        Ok(metadata) => match update.task_update {
            None => Err(ConvertError::MissingTaskUpdate),
            Some(task_update) => match tasks_updated(state.tasks, metadata, task_update) {
                Err(e) => Err(e),
                Ok(tasks) => match update.resource_update {
                    None => Err(ConvertError::MissingResourceUpdate),
                    Some(resource_update) => match resources_updated(
                        state.resources,
                        metadata,
                        resource_update,
                    ) {
                        Err(e) => Err(e),
                        Ok(resources) => Ok(
                            ConsoleStateView {
                                tasks: tasks_reaped(tasks, now),
                                resources: resources_reaped(resources, now),
                                metadata,
                            },
                        ),
                    },
                },
            },
        },
    }
}

/// Whether no task and no resource of `state` was dropped five seconds or
/// more before the instant `now`.
pub open spec fn dropped_within_grace(state: ConsoleStateView, now: int) -> bool {
    &&& forall|id: u64| #[trigger]
        state.tasks.contains_key(id) ==> match state.tasks[id].stats {
            Some(stats) => match stats.dropped_at {
                Some(dropped_at) => now - dropped_at < 5_000_000_000,
                None => true,
            },
            None => true,
        }
    &&& forall|id: u64| #[trigger]
        state.resources.contains_key(id) ==> match state.resources[id].stats {
            Some(stats) => match stats.dropped_at {
                Some(dropped_at) => now - dropped_at < 5_000_000_000,
                None => true,
            },
            None => true,
        }
}

/// Whether every task and every resource of `state` whose metadata `state`
/// holds has the target of that metadata.
pub open spec fn targets_follow_metadata(state: ConsoleStateView) -> bool {
    &&& forall|id: u64| #[trigger]
        state.tasks.contains_key(id) && state.metadata.contains_key(state.tasks[id].metadata_id)
            ==> state.tasks[id].target == Some(state.metadata[state.tasks[id].metadata_id].target)
    &&& forall|id: u64| #[trigger]
        state.resources.contains_key(id) && state.metadata.contains_key(
            state.resources[id].metadata_id,
        ) ==> state.resources[id].target == Some(
            state.metadata[state.resources[id].metadata_id].target,
        )
}

/// Folds the delta `update`, which arrives at the instant `now`, into the
/// snapshot `state`. An error ends the stream: the snapshot is then gone.
pub fn reduce(
    state: ConsoleState,
    update: wire::Update,
    now: Timestamp,
) -> (r: Result<ConsoleState, ConvertError>)
    ensures
        viewed(r) == reduced(state@, update, now@),
        r matches Ok(after) ==> dropped_within_grace(after@, now@) && targets_follow_metadata(
            after@,
        ),
{
    proof {
        if reduced(state@, update, now@) is Ok {
            crate::laws::lemma_no_expired_entity_stays(state@, update, now@);
            crate::laws::lemma_targets_follow_metadata(state@, update, now@);
        }
    }
    let mut state = state;
    let new_metadata = match update.new_metadata {
        Some(new) => new,
        None => Vec::new(),
    };
    apply_metadata(&mut state.metadata, new_metadata)?;
    let task_update = match update.task_update {
        Some(u) => u,
        None => {
            return Err(ConvertError::MissingTaskUpdate);
        },
    };
    apply_new_tasks(&mut state.tasks, task_update.new_tasks)?;
    apply_task_stats(&mut state.tasks, task_update.stats_update)?;
    resolve_task_targets(&mut state.tasks, &state.metadata);
    let resource_update = match update.resource_update {
        Some(u) => u,
        None => {
            return Err(ConvertError::MissingResourceUpdate);
        },
    };
    apply_new_resources(&mut state.resources, resource_update.new_resources)?;
    apply_resource_stats(&mut state.resources, resource_update.stats_update)?;
    resolve_resource_targets(&mut state.resources, &state.metadata);
    reap_tasks(&mut state.tasks, now);
    reap_resources(&mut state.resources, now);
    Ok(state)
}

} // verus!
