//! The operations on tasks.

use vstd::prelude::*;
use vstd::string::*;
use vstd::utf8::*;
use crate::codec::{lemma_text_len, MAX_RECORD_SIZE};
use crate::crop::{Crop, CropView};
use crate::error::{is_fault, is_not_found, Error, Fault};
use crate::farm::{Farm, FarmView};
use crate::ids::following;
use crate::record::Record;
use crate::store::{
    any, holds_kept, intact, lemma_held_is_encoded, listed_all, lists, looked_up, removed, replaced,
    slot, Slot,
};
use crate::task::{Task, TaskPayload, TaskView};
use crate::text::missing_text;

verus! {

/// The task that is created under `id` at the time `now` from `payload`.
pub open spec fn new_task(id: u64, payload: TaskPayload, now: u64) -> TaskView {
    TaskView {
        id,
        name: payload.name@,
        description: payload.description@,
        completed: false,
        crop_id: payload.crop_id,
        created_at: now,
    }
}

/// The task `v` after an update with `payload`.
pub open spec fn updated_task(v: TaskView, payload: TaskPayload) -> TaskView {
    TaskView {
        name: payload.name@,
        description: payload.description@,
        crop_id: payload.crop_id,
        ..v
    }
}

/// The task to water the crop `crop_id`, created under `id` at the time `now`.
pub open spec fn watering_task(id: u64, crop_id: u64, now: u64) -> TaskView {
    TaskView {
        id,
        name: "Watering"@,
        description: "Water the wheat crop"@,
        completed: false,
        crop_id,
        created_at: now,
    }
}

/// The condition that a crop is named `wheat`, in exactly these letters.
pub open spec fn is_wheat() -> spec_fn(CropView) -> bool {
    |v: CropView| v.name == "wheat"@
}

/// The stored tasks `raw` after each task of `tasks` was stored, in their
/// order, under the identifier it carries.
pub open spec fn with_tasks(raw: Map<u64, Seq<u8>>, tasks: Seq<Task>) -> Map<u64, Seq<u8>>
    decreases tasks.len(),
{
    if tasks.len() == 0 {
        raw
    } else {
        with_tasks(raw, tasks.drop_last()).insert(tasks.last().id, Task::encoding(tasks.last()@))
    }
}

/// Whether `after` and `r` are what creating a task from `payload` at the
/// time `now` in the state `before` gives.
///
/// Where every identifier has been issued, or the task is too large, the
/// state stays and the error says which. Otherwise either the task is
/// stored under the identifier after the one issued last, which is thereby
/// issued, and returned; or the counter could not be saved, and the state
/// stays.
pub open spec fn task_creation(
    before: FarmView,
    after: FarmView,
    payload: TaskPayload,
    now: u64,
    r: Result<Task, Error>,
) -> bool {
    let created = new_task((before.last_id + 1) as u64, payload, now);
    if before.last_id == u64::MAX {
        after == before && is_fault(r, Fault::IdsExhausted)
    } else if Task::encoding(created).len() > MAX_RECORD_SIZE {
        after == before && is_fault(r, Fault::RecordTooLarge)
    } else {
        match r {
            Ok(task) => {
                &&& task@ == created
                &&& before.issues(after, task.id)
                &&& after == (FarmView {
                    last_id: created.id,
                    tasks: before.tasks.insert(created.id, Task::encoding(created)),
                    ..before
                })
            },
            Err(_) => after == before && is_fault(r, Fault::CounterNotSaved),
        }
    }
}

/// Looks up the task stored under `id`.
pub fn _get_task(farm: &Farm, id: &u64) -> (r: Result<Option<Task>, Error>)
    ensures
        match slot::<Task>(farm@.tasks, *id) {
            Slot::Empty => r matches Ok(None),
            Slot::Holds(v) => r matches Ok(Some(task)) && task@ == v,
            Slot::Damaged => is_fault(r, Fault::CorruptRecord),
        },
{
    farm.tasks.get(*id)
}

/// Returns the task stored under `id`.
pub fn get_task(farm: &Farm, id: u64) -> (r: Result<Task, Error>)
    ensures
        looked_up::<Task>(farm@.tasks, id, "Task"@, r),
{
    farm.tasks.fetch(id, "Task")
}

/// Lists every task, in ascending order of the identifiers. That there is no
/// task is reported as an error.
pub fn get_all_tasks(farm: &Farm) -> (r: Result<Vec<Task>, Error>)
    ensures
        listed_all::<Task>(farm@.tasks, "No tasks found."@, r),
{
    farm.tasks.list_all("No tasks found.")
}

/// Stores `task` under the identifier it carries, in place of what was
/// stored there. No identifier is issued, and nothing asks that the
/// identifier of the task has been issued.
pub fn do_insert_task(farm: &mut Farm, task: &Task) -> (r: Result<(), Error>)
    ensures
        if Task::encoding(task@).len() <= MAX_RECORD_SIZE {
            &&& r is Ok
            &&& final(farm)@ == (FarmView {
                tasks: old(farm)@.tasks.insert(task.id, Task::encoding(task@)),
                ..old(farm)@
            })
        } else {
            &&& final(farm)@ == old(farm)@
            &&& is_fault(r, Fault::RecordTooLarge)
        },
{
    farm.tasks.put(task)
}

/// Creates a task from `payload` at the time `now`, under the identifier
/// after the one issued last. The task is not completed.
pub fn create_task(farm: &mut Farm, payload: TaskPayload, now: u64) -> (r: Result<Task, Error>)
    ensures
        task_creation(old(farm)@, final(farm)@, payload, now, r),
{
    let next = following(farm.ids.current())?;
    let task = Task {
        id: next,
        name: payload.name,
        description: payload.description,
        completed: false,
        crop_id: payload.crop_id,
        created_at: now,
    };
    let bytes = match task.encode() {
        Some(bytes) => bytes,
        None => { return Err(Error::internal(Fault::RecordTooLarge)); },
    };
    let id = farm.ids.next_id()?;
    farm.tasks.insert_encoded(id, &bytes);
    Ok(task)
}

/// Replaces the name, the description and the crop of the task stored under
/// `id` by those of `payload`. The identifier, the completion and the time
/// of creation stay. No identifier is issued.
pub fn update_task(farm: &mut Farm, id: u64, payload: TaskPayload) -> (r: Result<Task, Error>)
    ensures
        final(farm)@ == (FarmView { tasks: final(farm)@.tasks, ..old(farm)@ }),
        replaced::<Task>(
            old(farm)@.tasks,
            final(farm)@.tasks,
            id,
            "Task"@,
            |v: TaskView| updated_task(v, payload),
            r,
        ),
{
    let mut task = farm.tasks.fetch(id, "Task")?;
    task.name = payload.name;
    task.description = payload.description;
    task.crop_id = payload.crop_id;
    farm.tasks.put(&task)?;
    Ok(task)
}

/// The length of the encoding of a task does not depend on whether the task
/// is completed.
pub proof fn lemma_completion_keeps_length(v: TaskView)
    ensures
        Task::encoding(TaskView { completed: true, ..v }).len() == Task::encoding(v).len(),
{
}

/// Whether `after` and `r` are what completing the task under `id` in
/// `before` gives: the task is stored as completed and returned; or nothing
/// is stored and the error says that no task is there or that what is there
/// is damaged.
pub open spec fn task_completion(
    before: Map<u64, Seq<u8>>,
    after: Map<u64, Seq<u8>>,
    id: u64,
    r: Result<Task, Error>,
) -> bool {
    match slot::<Task>(before, id) {
        Slot::Empty => after == before && is_not_found(r, missing_text("Task"@, id)),
        Slot::Damaged => after == before && is_fault(r, Fault::CorruptRecord),
        Slot::Holds(v) => {
            let completed = TaskView { completed: true, ..v };
            &&& after == before.insert(id, Task::encoding(completed))
            &&& r matches Ok(task) && task@ == completed
        },
    }
}

/// Marks the task stored under `id` as completed. No identifier is issued.
pub fn complete_task(farm: &mut Farm, id: u64) -> (r: Result<Task, Error>)
    ensures
        final(farm)@ == (FarmView { tasks: final(farm)@.tasks, ..old(farm)@ }),
        task_completion(old(farm)@.tasks, final(farm)@.tasks, id, r),
{
    let mut task = farm.tasks.fetch(id, "Task")?;
    proof {
        lemma_held_is_encoded::<Task>(farm@.tasks, id);
        lemma_completion_keeps_length(task@);
    }
    task.completed = true;
    farm.tasks.put(&task)?;
    Ok(task)
}

/// Removes the task stored under `id` and returns it. No identifier is
/// issued, and the identifier of the task is not issued again.
pub fn delete_task(farm: &mut Farm, id: u64) -> (r: Result<Task, Error>)
    ensures
        final(farm)@ == (FarmView { tasks: final(farm)@.tasks, ..old(farm)@ }),
        removed::<Task>(old(farm)@.tasks, final(farm)@.tasks, id, "Task"@, r),
{
    farm.tasks.discard(id, "Task")
}

/// The encoding of a watering task fits into a record.
pub proof fn lemma_watering_task_fits(id: u64, crop_id: u64, now: u64)
    ensures
        Task::encoding(watering_task(id, crop_id, now)).len() <= MAX_RECORD_SIZE,
{
    reveal_strlit("Watering");
    reveal_strlit("Water the wheat crop");
    let name = "Watering"@;
    let description = "Water the wheat crop"@;
    assert(is_ascii_chars(name));
    assert(is_ascii_chars(description));
    is_ascii_chars_encode_utf8(name);
    is_ascii_chars_encode_utf8(description);
    lemma_text_len(name);
    lemma_text_len(description);
    vstd::bytes::lemma_auto_spec_u64_to_from_le_bytes();
}

/// Whether `after` and `r` are what trying to water the crop `crop_id` at
/// the time `now` in the state `before` gives.
///
/// Where every identifier has been issued, the state stays and the error
/// says so. Otherwise either the watering task is stored under the
/// identifier after the one issued last and returned; or the counter could
/// not be saved, and the state stays.
pub open spec fn watering(
    before: FarmView,
    after: FarmView,
    crop_id: u64,
    now: u64,
    r: Result<Task, Error>,
) -> bool {
    let created = watering_task((before.last_id + 1) as u64, crop_id, now);
    if before.last_id == u64::MAX {
        after == before && is_fault(r, Fault::IdsExhausted)
    } else {
        match r {
            Ok(task) => task@ == created && after == (FarmView {
                last_id: created.id,
                tasks: before.tasks.insert(created.id, Task::encoding(created)),
                ..before
            }),
            Err(_) => after == before && is_fault(r, Fault::CounterNotSaved),
        }
    }
}

/// Creates the task to water the crop `crop_id` at the time `now`, under the
/// identifier after the one issued last.
pub fn assign_watering(farm: &mut Farm, crop_id: u64, now: u64) -> (r: Result<Task, Error>)
    ensures
        watering(old(farm)@, final(farm)@, crop_id, now, r),
{
    proof {
        lemma_watering_task_fits((farm@.last_id + 1) as u64, crop_id, now);
    }
    let payload = TaskPayload {
        name: String::from_str("Watering"),
        description: String::from_str("Water the wheat crop"),
        crop_id,
    };
    create_task(farm, payload, now)
}

/// Notes what came of one assignment: a task that was created joins
/// `assigned`; a crop for which none was created is passed over.
pub fn note_assignment(assigned: &mut Vec<Task>, outcome: Result<Task, Error>)
    ensures
        match outcome {
            Ok(task) => final(assigned)@ == old(assigned)@.push(task),
            Err(_) => final(assigned)@ == old(assigned)@,
        },
{
    match outcome {
        Ok(task) => {
            assigned.push(task);
        },
        Err(_) => {},
    }
}

/// The tasks among what came of trying crops, in their order.
pub open spec fn tasks_among(outcomes: Seq<(u64, Result<Task, Error>)>) -> Seq<Task>
    decreases outcomes.len(),
{
    if outcomes.len() == 0 {
        Seq::empty()
    } else {
        match outcomes.last().1 {
            Ok(task) => tasks_among(outcomes.drop_last()).push(task),
            Err(_) => tasks_among(outcomes.drop_last()),
        }
    }
}

/// The state `before` after `tasks` were created in it one after the other:
/// an identifier was issued for each, and each is stored.
pub open spec fn watered_state(before: FarmView, tasks: Seq<Task>) -> FarmView {
    FarmView {
        last_id: (before.last_id + tasks.len()) as u64,
        tasks: with_tasks(before.tasks, tasks),
        ..before
    }
}

/// What holds of the farm and of the tasks returned once watering tasks
/// were assigned at the time `now`: the tasks carry the identifiers after
/// the one issued last before, one after the other; each is the task to
/// water a crop named `wheat`; their crops ascend; and the farm holds them
/// and is otherwise as it was.
pub open spec fn watering_assigned(
    before: FarmView,
    after: FarmView,
    tasks: Seq<Task>,
    now: u64,
) -> bool {
    &&& after == watered_state(before, tasks)
    &&& before.last_id + tasks.len() <= u64::MAX
    &&& forall|j: int|
        0 <= j < tasks.len() ==> (#[trigger] tasks[j])@ == watering_task(
            (before.last_id + 1 + j) as u64,
            tasks[j].crop_id,
            now,
        ) && holds_kept::<Crop>(before.crops, tasks[j].crop_id, is_wheat())
    &&& forall|a: int, b: int|
        0 <= a < b < tasks.len() ==> (#[trigger] tasks[a]).crop_id < (#[trigger] tasks[b]).crop_id
}

/// What holds of the farm and of what came of each crop once every crop
/// named `wheat` was tried at the time `now`: the crops tried are exactly
/// the crops named `wheat`, in ascending order; each was tried in the state
/// that the tries before it had left, and what came of it is what trying
/// to water it gives; and the farm is in the state that the last try left.
pub open spec fn wheat_watered(
    before: FarmView,
    after: FarmView,
    outcomes: Seq<(u64, Result<Task, Error>)>,
    now: u64,
) -> bool {
    &&& forall|a: int, b: int|
        0 <= a < b < outcomes.len() ==> (#[trigger] outcomes[a]).0 < (#[trigger] outcomes[b]).0
    &&& forall|i: int|
        0 <= i < outcomes.len() ==> holds_kept::<Crop>(
            before.crops,
            (#[trigger] outcomes[i]).0,
            is_wheat(),
        )
    &&& forall|id: u64| #[trigger]
        holds_kept::<Crop>(before.crops, id, is_wheat()) ==> exists|i: int|
            0 <= i < outcomes.len() && (#[trigger] outcomes[i]).0 == id
    &&& forall|i: int|
        0 <= i < outcomes.len() ==> watering(
            watered_state(before, tasks_among(outcomes.take(i))),
            watered_state(before, tasks_among(outcomes.take(i + 1))),
            (#[trigger] outcomes[i]).0,
            now,
            outcomes[i].1,
        )
    &&& after == watered_state(before, tasks_among(outcomes))
}

/// One more try extends what holds of the tries before it.
proof fn lemma_one_more_try(
    before: FarmView,
    here: FarmView,
    after: FarmView,
    earlier: Seq<(u64, Result<Task, Error>)>,
    crop_id: u64,
    now: u64,
    got: Result<Task, Error>,
)
    requires
        here == watered_state(before, tasks_among(earlier)),
        watering_assigned(before, here, tasks_among(earlier), now),
        watering(here, after, crop_id, now, got),
        holds_kept::<Crop>(before.crops, crop_id, is_wheat()),
        forall|j: int|
            0 <= j < tasks_among(earlier).len() ==> (#[trigger] tasks_among(earlier)[j]).crop_id
                < crop_id,
    ensures
        after == watered_state(before, tasks_among(earlier.push((crop_id, got)))),
        watering_assigned(before, after, tasks_among(earlier.push((crop_id, got))), now),
        forall|j: int|
            0 <= j < tasks_among(earlier.push((crop_id, got))).len() ==> (#[trigger] tasks_among(
                earlier.push((crop_id, got)),
            )[j]).crop_id <= crop_id,
{
    let tried = earlier.push((crop_id, got));
    let tasks = tasks_among(earlier);
    assert(tried.drop_last() =~= earlier);
    assert(tried.last() == (crop_id, got));
    match got {
        Ok(task) => {
            let more = tasks.push(task);
            assert(tasks_among(tried) == more);
            assert(more.drop_last() =~= tasks);
            assert(with_tasks(before.tasks, more) == with_tasks(before.tasks, tasks).insert(
                task.id,
                Task::encoding(task@),
            ));
            assert(after =~= watered_state(before, more));
            assert forall|j: int| 0 <= j < more.len() implies (#[trigger] more[j])@
                == watering_task((before.last_id + 1 + j) as u64, more[j].crop_id, now)
                && holds_kept::<Crop>(before.crops, more[j].crop_id, is_wheat()) by {
                if j < tasks.len() {
                    assert(more[j] == tasks[j]);
                }
            }
            assert forall|a: int, b: int| 0 <= a < b < more.len() implies (#[trigger] more[a]).crop_id
                < (#[trigger] more[b]).crop_id by {
                assert(more[a] == tasks[a]);
                if b < tasks.len() {
                    assert(more[b] == tasks[b]);
                }
            }
            assert forall|j: int| 0 <= j < more.len() implies (#[trigger] more[j]).crop_id
                <= crop_id by {
                if j < tasks.len() {
                    assert(more[j] == tasks[j]);
                }
            }
        },
        Err(_) => {
            assert(tasks_among(tried) == tasks);
        },
    }
}

/// Tries to create a watering task for every crop that is named `wheat`, in
/// exactly these letters, in ascending order of the crops, and returns for
/// each of them what came of it: the task created, or why none was.
///
/// A crop for which no identifier could be issued gets no task; the crops
/// after it are still tried.
pub fn water_wheat(farm: &mut Farm, now: u64) -> (r: Result<
    Vec<(u64, Result<Task, Error>)>,
    Error,
>)
    ensures
        if intact::<Crop>(old(farm)@.crops) {
            &&& r matches Ok(outcomes) && wheat_watered(
                old(farm)@,
                final(farm)@,
                outcomes@,
                now,
            ) && watering_assigned(old(farm)@, final(farm)@, tasks_among(outcomes@), now)
        } else {
            final(farm)@ == old(farm)@ && is_fault(r, Fault::CorruptRecord)
        },
{
    let crops = farm.crops.iterate()?;
    let wheat = String::from_str("wheat");
    let ghost before = farm@;
    let mut outcomes: Vec<(u64, Result<Task, Error>)> = Vec::new();
    let mut i: usize = 0;
    assert(farm@ =~= watered_state(before, tasks_among(outcomes@)));
    while i < crops.len()
        invariant
            i <= crops.len(),
            wheat@ == "wheat"@,
            lists(crops@, before.crops, any()),
            farm@ == watered_state(before, tasks_among(outcomes@)),
            watering_assigned(before, farm@, tasks_among(outcomes@), now),
            forall|j: int|
                0 <= j < tasks_among(outcomes@).len() && i < crops.len() ==> (#[trigger] tasks_among(
                    outcomes@,
                )[j]).crop_id < crops[i as int].id,
            forall|k: int|
                0 <= k < outcomes.len() ==> holds_kept::<Crop>(
                    before.crops,
                    (#[trigger] outcomes[k]).0,
                    is_wheat(),
                ) && (i < crops.len() ==> outcomes[k].0 < crops[i as int].id),
            forall|a: int, b: int|
                0 <= a < b < outcomes.len() ==> (#[trigger] outcomes[a]).0 < (
                #[trigger] outcomes[b]).0,
            forall|j: int|
                0 <= j < i && (#[trigger] crops[j]).name@ == "wheat"@ ==> exists|k: int|
                    0 <= k < outcomes.len() && (#[trigger] outcomes[k]).0 == crops[j].id,
            forall|k: int|
                0 <= k < outcomes.len() ==> watering(
                    watered_state(before, tasks_among(outcomes@.take(k))),
                    watered_state(before, tasks_among(outcomes@.take(k + 1))),
                    (#[trigger] outcomes[k]).0,
                    now,
                    outcomes[k].1,
                ),
        decreases crops.len() - i,
    {
        let crop_id = crops[i].id;
        if crops[i].name == wheat {
            let ghost earlier = outcomes@;
            let ghost here = farm@;
            let outcome = assign_watering(farm, crop_id, now);
            let ghost got = outcome;
            outcomes.push((crop_id, outcome));
            proof {
                let n = earlier.len() as int;
                assert(outcomes@ =~= earlier.push((crop_id, got)));
                assert(outcomes@.take(n) =~= earlier);
                assert(outcomes@.take(n + 1) =~= outcomes@);
                assert(holds_kept::<Crop>(before.crops, crop_id, is_wheat()));
                lemma_one_more_try(before, here, farm@, earlier, crop_id, now, got);
                assert forall|k: int| 0 <= k < outcomes.len() implies watering(
                    watered_state(before, tasks_among(outcomes@.take(k))),
                    watered_state(before, tasks_among(outcomes@.take(k + 1))),
                    (#[trigger] outcomes[k]).0,
                    now,
                    outcomes[k].1,
                ) by {
                    if k < n {
                        assert(outcomes@.take(k) =~= earlier.take(k));
                        assert(outcomes@.take(k + 1) =~= earlier.take(k + 1));
                        assert(outcomes[k] == earlier[k]);
                    }
                }
                assert forall|j: int|
                    0 <= j < i + 1 && (#[trigger] crops[j]).name@ == "wheat"@ implies exists|
                    k: int,
                |
                    0 <= k < outcomes.len() && (#[trigger] outcomes[k]).0 == crops[j].id by {
                    if j < i {
                        let k = choose|k: int|
                            0 <= k < earlier.len() && (#[trigger] earlier[k]).0 == crops[j].id;
                        assert(outcomes[k].0 == crops[j].id);
                    } else {
                        assert(outcomes[n].0 == crops[j].id);
                    }
                }
            }
        }
        proof {
            if i + 1 < crops.len() {
                assert(crops[i as int].id < crops[i + 1].id);
            }
        }
        i += 1;
    }
    proof {
        assert forall|id: u64| #[trigger]
            holds_kept::<Crop>(before.crops, id, is_wheat()) implies exists|k: int|
            0 <= k < outcomes.len() && (#[trigger] outcomes[k]).0 == id by {
            assert(holds_kept::<Crop>(before.crops, id, any()));
            let j = choose|j: int| 0 <= j < crops.len() && Crop::key((#[trigger] crops[j])@) == id;
            assert(crops[j].name@ == "wheat"@);
        }
    }
    Ok(outcomes)
}

/// Creates a watering task for every crop that is named `wheat`, in exactly
/// these letters, and returns the tasks created, in ascending order of the
/// crops.
///
/// Every crop named `wheat` is tried, as `water_wheat` does it. A crop for
/// which no identifier could be issued gets no task; the crops after it are
/// still tried.
pub fn auto_assign_tasks(farm: &mut Farm, now: u64) -> (r: Result<Vec<Task>, Error>)
    ensures
        if intact::<Crop>(old(farm)@.crops) {
            &&& r matches Ok(tasks) && watering_assigned(old(farm)@, final(farm)@, tasks@, now)
                && exists|outcomes: Seq<(u64, Result<Task, Error>)>| #[trigger]
                wheat_watered(old(farm)@, final(farm)@, outcomes, now) && tasks@ == tasks_among(
                    outcomes,
                )
        } else {
            final(farm)@ == old(farm)@ && is_fault(r, Fault::CorruptRecord)
        },
{
    let outcomes = water_wheat(farm, now)?;
    let ghost whole = outcomes@;
    let tried = outcomes.len();
    let mut assigned: Vec<Task> = Vec::new();
    let mut i: usize = 0;
    for entry in it: outcomes
        invariant
            i == it.index(),
            it.seq() == whole,
            whole.len() == tried,
            assigned@ == tasks_among(whole.take(i as int)),
    {
        proof {
            assert(whole.take(i + 1).drop_last() =~= whole.take(i as int));
        }
        note_assignment(&mut assigned, entry.1);
        i += 1;
    }
    proof {
        assert(whole.take(whole.len() as int) =~= whole);
    }
    Ok(assigned)
}

} // verus!
