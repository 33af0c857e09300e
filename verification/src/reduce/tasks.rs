//! The second part of a step: the new tasks, their statistics and their
//! targets, and the removal of the tasks that were dropped long enough ago.

use crate::convert::{task_of, task_stats_of, ConvertError};
use crate::keys::{keys_in_order, lists_in_order};
use crate::reduce::metadata::metadata_views;
use crate::reduce::{grace_nanos, GRACE_SECS};
use crate::state::{Metadata, MetadataView, Task, TaskStats, TaskView};
use crate::time::Timestamp;
use crate::wire;
use std::collections::{BTreeMap, HashMap};
use vstd::prelude::*;

verus! {

/// The views of the tasks in a map.
pub open spec fn task_views(m: Map<u64, Task>) -> Map<u64, TaskView> {
    m.map_values(|t: Task| t@)
}

/// The tasks after the new ones were put in, in the order given: a new task
/// replaces the task of the same id, and the first task that cannot be
/// converted ends it.
pub open spec fn with_new_tasks(
    tasks: Map<u64, TaskView>,
    new: Seq<wire::Task>,
) -> Result<Map<u64, TaskView>, ConvertError>
    decreases new.len(),
{
    if new.len() == 0 {
        Ok(tasks)
    } else {
        match with_new_tasks(tasks, new.drop_last()) {
            Err(e) => Err(e),
            Ok(m) => match task_of(new.last()) {
                Err(e) => Err(e),
                Ok(task) => Ok(m.insert(task.id, task)),
            },
        }
    }
}

/// Once a prefix of the new tasks fails, the whole fails in the same way.
pub proof fn lemma_with_new_tasks_fails(tasks: Map<u64, TaskView>, new: Seq<wire::Task>, n: int)
    requires
        0 <= n <= new.len(),
        with_new_tasks(tasks, new.take(n)) is Err,
    ensures
        with_new_tasks(tasks, new) == with_new_tasks(tasks, new.take(n)),
    decreases new.len() - n,
{
    if n == new.len() {
        assert(new.take(n) =~= new);
    } else {
        assert(new.take(n + 1).drop_last() =~= new.take(n));
        lemma_with_new_tasks_fails(tasks, new, n + 1);
    }
}

/// The tasks after one statistics update: the statistics must convert; they
/// then replace those of the task with this id, and change nothing where
/// there is no such task.
pub open spec fn with_task_stat(
    tasks: Map<u64, TaskView>,
    id: u64,
    stats: wire::TaskStats,
) -> Result<Map<u64, TaskView>, ConvertError> {
    match task_stats_of(stats) {
        Err(e) => Err(e),
        Ok(s) => if tasks.contains_key(id) {
            Ok(tasks.insert(id, TaskView { stats: Some(s), ..tasks[id] }))
        } else {
            Ok(tasks)
        },
    }
}

/// The tasks after the statistics updates, in the order given; the first
/// statistics that cannot be converted end it.
pub open spec fn with_task_stats(
    tasks: Map<u64, TaskView>,
    updates: Seq<(u64, wire::TaskStats)>,
) -> Result<Map<u64, TaskView>, ConvertError>
    decreases updates.len(),
{
    if updates.len() == 0 {
        Ok(tasks)
    } else {
        match with_task_stats(tasks, updates.drop_last()) {
            Err(e) => Err(e),
            Ok(m) => with_task_stat(m, updates.last().0, updates.last().1),
        }
    }
}

/// Once a prefix of the statistics updates fails, the whole fails in the
/// same way.
pub proof fn lemma_with_task_stats_fails(
    tasks: Map<u64, TaskView>,
    updates: Seq<(u64, wire::TaskStats)>,
    n: int,
)
    requires
        0 <= n <= updates.len(),
        with_task_stats(tasks, updates.take(n)) is Err,
    ensures
        with_task_stats(tasks, updates) == with_task_stats(tasks, updates.take(n)),
    decreases updates.len() - n,
{
    if n == updates.len() {
        assert(updates.take(n) =~= updates);
    } else {
        assert(updates.take(n + 1).drop_last() =~= updates.take(n));
        lemma_with_task_stats_fails(tasks, updates, n + 1);
    }
}

/// A task with its target taken from its metadata, where the metadata is
/// known; unchanged where it is not.
pub open spec fn task_resolved(task: TaskView, metadata: Map<u64, MetadataView>) -> TaskView {
    if metadata.contains_key(task.metadata_id) {
        TaskView { target: Some(metadata[task.metadata_id].target), ..task }
    } else {
        task
    }
}

/// All tasks with their targets taken from their metadata.
pub open spec fn tasks_resolved(
    tasks: Map<u64, TaskView>,
    metadata: Map<u64, MetadataView>,
) -> Map<u64, TaskView> {
    tasks.map_values(|t: TaskView| task_resolved(t, metadata))
}

/// Whether a task stays in the snapshot at the instant `now`: it does unless
/// it was dropped and `now` is the grace time or more past that.
pub open spec fn task_retained(task: TaskView, now: int) -> bool {
    match task.stats {
        Some(s) => match s.dropped_at {
            Some(dropped_at) => now - dropped_at < grace_nanos(),
            None => true,
        },
        None => true,
    }
}

/// The tasks that stay in the snapshot at the instant `now`.
pub open spec fn tasks_reaped(tasks: Map<u64, TaskView>, now: int) -> Map<u64, TaskView> {
    Map::new(|id: u64| tasks.contains_key(id) && task_retained(tasks[id], now), |id: u64| tasks[id])
}

/// Puts the new tasks into `tasks`.
pub fn apply_new_tasks(
    tasks: &mut BTreeMap<u64, Task>,
    new: Vec<wire::Task>,
) -> (r: Result<(), ConvertError>)
    ensures
        match with_new_tasks(task_views(old(tasks)@), new@) {
            Ok(m) => r is Ok && task_views(final(tasks)@) == m,
            Err(e) => r == Err::<(), ConvertError>(e),
        },
{
    let ghost before = task_views(tasks@);
    let ghost all = new@;
    assert(all.take(0) =~= Seq::<wire::Task>::empty());
    for task in it: new
        invariant
            it.seq() == all,
            all == new@,
            before == task_views(old(tasks)@),
            with_new_tasks(before, all.take(it.index() as int)) == Ok::<
                Map<u64, TaskView>,
                ConvertError,
            >(task_views(tasks@)),
    {
        let ghost i = it.index() as int;
        assert(all.take(i + 1).drop_last() =~= all.take(i));
        assert(all.take(i + 1).last() == task);
        match Task::try_from(task) {
            Err(e) => {
                proof {
                    assert(with_new_tasks(before, all.take(i + 1)) == Err::<
                        Map<u64, TaskView>,
                        ConvertError,
                    >(e));
                    lemma_with_new_tasks_fails(before, all, i + 1);
                }
                return Err(e);
            },
            Ok(t) => {
                let ghost prior = tasks@;
                tasks.insert(t.id.0, t);
                assert(task_views(tasks@) =~= task_views(prior).insert(t.id.0, t@));
            },
        }
    }
    assert(all.take(all.len() as int) =~= all);
    Ok(())
}

/// Applies the statistics updates to `tasks`.
pub fn apply_task_stats(
    tasks: &mut BTreeMap<u64, Task>,
    updates: Vec<(u64, wire::TaskStats)>,
) -> (r: Result<(), ConvertError>)
    ensures
        match with_task_stats(task_views(old(tasks)@), updates@) {
            Ok(m) => r is Ok && task_views(final(tasks)@) == m,
            Err(e) => r == Err::<(), ConvertError>(e),
        },
{
    let ghost before = task_views(tasks@);
    let ghost all = updates@;
    assert(all.take(0) =~= Seq::<(u64, wire::TaskStats)>::empty());
    for update in it: updates
        invariant
            it.seq() == all,
            all == updates@,
            before == task_views(old(tasks)@),
            with_task_stats(before, all.take(it.index() as int)) == Ok::<
                Map<u64, TaskView>,
                ConvertError,
            >(task_views(tasks@)),
    {
        let ghost i = it.index() as int;
        assert(all.take(i + 1).drop_last() =~= all.take(i));
        assert(all.take(i + 1).last() == update);
        let id: u64 = update.0;
        match TaskStats::try_from(update.1) {
            Err(e) => {
                proof {
                    assert(with_task_stats(before, all.take(i + 1)) == Err::<
                        Map<u64, TaskView>,
                        ConvertError,
                    >(e));
                    lemma_with_task_stats_fails(before, all, i + 1);
                }
                return Err(e);
            },
            Ok(stats) => {
                let ghost prior = tasks@;
                match tasks.remove(&id) {
                    Some(task) => {
                        let mut task = task;
                        task.stats = Some(stats);
                        let ghost changed = task@;
                        tasks.insert(id, task);
                        assert(task_views(tasks@) =~= task_views(prior).insert(id, changed));
                    },
                    None => {
                        assert(tasks@ =~= prior);
                    },
                }
            },
        }
    }
    assert(all.take(all.len() as int) =~= all);
    Ok(())
}

/// Whether `task` stays in the snapshot at the instant `now`.
pub fn task_is_retained(task: &Task, now: Timestamp) -> (r: bool)
    ensures
        r == task_retained(task@, now@),
{
    match &task.stats {
        Some(stats) => match stats.dropped_at {
            Some(dropped_at) => match dropped_at.elapsed_at(now) {
                Some(age) => age.as_nanos() < GRACE_SECS as u128 * 1_000_000_000,
                None => true,
            },
            None => true,
        },
        None => true,
    }
}

/// Gives every task the target of its metadata, where that is known.
pub fn resolve_task_targets(tasks: &mut BTreeMap<u64, Task>, metadata: &HashMap<u64, Metadata>)
    ensures
        task_views(final(tasks)@) == tasks_resolved(
            task_views(old(tasks)@),
            metadata_views(metadata@),
        ),
{
    let ghost before = task_views(tasks@);
    let ghost known = metadata_views(metadata@);
    let keys = keys_in_order(tasks);
    assert(before.dom() =~= tasks@.dom());
    let mut i: usize = 0;
    while i < keys.len()
        invariant
            i <= keys.len(),
            lists_in_order(keys@, before.dom()),
            known == metadata_views(metadata@),
            task_views(tasks@).dom() == before.dom(),
            forall|j: int|
                0 <= j < i ==> task_views(tasks@)[#[trigger] keys@[j]] == task_resolved(
                    before[keys@[j]],
                    known,
                ),
            forall|j: int|
                i <= j < keys.len() ==> task_views(tasks@)[#[trigger] keys@[j]] == before[keys@[j]],
        decreases keys.len() - i,
    {
        let id: u64 = keys[i];
        let ghost prior = tasks@;
        assert(keys@.to_set().contains(keys@[i as int]));
        assert(prior.contains_key(id));
        match tasks.remove(&id) {
            Some(task) => {
                let mut task = task;
                match metadata.get(&task.metadata_id.0) {
                    Some(piece) => {
                        task.target = Some(piece.target.clone());
                    },
                    None => {},
                }
                let ghost changed = task@;
                tasks.insert(id, task);
                assert(task_views(tasks@) =~= task_views(prior).insert(id, changed));
                assert(changed == task_resolved(before[id], known));
            },
            None => {},
        }
        i += 1;
    }
    assert(task_views(tasks@) =~= tasks_resolved(before, known)) by {
        assert forall|id: u64| before.contains_key(id) implies task_views(tasks@)[id]
            == task_resolved(before[id], known) by {
            assert(keys@.to_set().contains(id));
            let j = choose|j: int| 0 <= j < keys@.len() && keys@[j] == id;
            assert(keys@[j] == id);
        }
    }
}

/// Removes the tasks that were dropped the grace time or more before `now`.
pub fn reap_tasks(tasks: &mut BTreeMap<u64, Task>, now: Timestamp)
    ensures
        task_views(final(tasks)@) == tasks_reaped(task_views(old(tasks)@), now@),
{
    let ghost before = task_views(tasks@);
    let keys = keys_in_order(tasks);
    assert(before.dom() =~= tasks@.dom());
    let mut i: usize = 0;
    while i < keys.len()
        invariant
            i <= keys.len(),
            lists_in_order(keys@, before.dom()),
            task_views(tasks@).dom().subset_of(before.dom()),
            forall|id: u64|
                #[trigger] task_views(tasks@).contains_key(id) ==> task_views(tasks@)[id]
                    == before[id],
            forall|j: int|
                0 <= j < i ==> (task_views(tasks@).contains_key(#[trigger] keys@[j])
                    <==> task_retained(before[keys@[j]], now@)),
            forall|j: int| i <= j < keys.len()
                ==> task_views(tasks@).contains_key(#[trigger] keys@[j]),
        decreases keys.len() - i,
    {
        let id: u64 = keys[i];
        let ghost prior = tasks@;
        assert(task_views(prior).contains_key(keys@[i as int]));
        assert(prior.contains_key(id));
        let keep: bool = match tasks.get(&id) {
            Some(task) => task_is_retained(task, now),
            None => true,
        };
        if !keep {
            tasks.remove(&id);
            assert(task_views(tasks@) =~= task_views(prior).remove(id));
            assert forall|j: int| i < j < keys.len() implies task_views(tasks@).contains_key(
                #[trigger] keys@[j],
            ) by {
                assert(keys@[i as int] < keys@[j]);
            }
            assert forall|j: int| 0 <= j < i implies (task_views(tasks@).contains_key(
                #[trigger] keys@[j],
            ) <==> task_retained(before[keys@[j]], now@)) by {
                assert(keys@[j] < keys@[i as int]);
            }
        }
        i += 1;
    }
    assert(task_views(tasks@) =~= tasks_reaped(before, now@)) by {
        assert forall|id: u64| before.contains_key(id) implies (task_views(tasks@).contains_key(id)
            <==> task_retained(before[id], now@)) by {
            assert(keys@.to_set().contains(id));
            let j = choose|j: int| 0 <= j < keys@.len() && keys@[j] == id;
            assert(keys@[j] == id);
        }
    }
}

} // verus!
