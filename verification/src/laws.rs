//! What holds of the operations taken together.

use vstd::prelude::*;
use crate::codec::MAX_RECORD_SIZE;
use crate::crop::{Crop, CropPayload, CropView};
use crate::crops::{crop_creation, updated_crop};
use crate::error::{is_not_found, Error};
use crate::expense::{Expense, ExpensePayload, ExpenseView};
use crate::expenses::{expense_creation, updated_expense};
use crate::farm::FarmView;
use crate::record::Record;
use crate::store::{
    holds_kept, intact, lists, looked_up, removed, replaced, slot, vacant, within, Slot,
};
use crate::task::{Task, TaskPayload, TaskView};
use crate::tasks::{task_completion, task_creation, updated_task, watering_assigned, with_tasks};
use crate::text::missing_text;

verus! {

/// A record that fits is found under its identifier once it is stored there,
/// whatever was stored before.
pub proof fn law_stored_is_found<R: Record>(raw: Map<u64, Seq<u8>>, v: R::V)
    requires
        R::encoding(v).len() <= MAX_RECORD_SIZE,
    ensures
        slot::<R>(raw.insert(R::key(v), R::encoding(v)), R::key(v)) == Slot::Holds(v),
{
    R::lemma_round_trip(v);
}

/// Storing or removing under one identifier leaves what is found under every
/// other identifier as it was.
pub proof fn law_other_records_stay<R: Record>(
    raw: Map<u64, Seq<u8>>,
    id: u64,
    bytes: Seq<u8>,
    other: u64,
)
    requires
        other != id,
    ensures
        slot::<R>(raw.insert(id, bytes), other) == slot::<R>(raw, other),
        slot::<R>(raw.remove(id), other) == slot::<R>(raw, other),
{
}

/// A store in which nothing is stored is intact, and an intact store stays
/// intact when a record that fits is stored under the identifier it
/// carries and when what is stored under an identifier is removed.
pub proof fn law_store_stays_intact<R: Record>(raw: Map<u64, Seq<u8>>, v: R::V, id: u64)
    ensures
        vacant(raw) ==> intact::<R>(raw),
        intact::<R>(raw) && R::encoding(v).len() <= MAX_RECORD_SIZE ==> intact::<R>(
            raw.insert(R::key(v), R::encoding(v)),
        ),
        intact::<R>(raw) ==> intact::<R>(raw.remove(id)),
{
    if intact::<R>(raw) && R::encoding(v).len() <= MAX_RECORD_SIZE {
        let after = raw.insert(R::key(v), R::encoding(v));
        law_stored_is_found::<R>(raw, v);
        assert forall|k: u64| #[trigger] after.contains_key(k) implies slot::<R>(after, k)
            is Holds by {
            if k != R::key(v) {
                assert(raw.contains_key(k));
            }
        }
    }
    if intact::<R>(raw) {
        let after = raw.remove(id);
        assert forall|k: u64| #[trigger] after.contains_key(k) implies slot::<R>(after, k)
            is Holds by {
            assert(raw.contains_key(k));
        }
    }
}

/// Two lists of the records of one store that satisfy one condition carry
/// the same identifiers at the same places.
proof fn lemma_listed_keys_agree<R: Record>(
    a: Seq<R>,
    b: Seq<R>,
    raw: Map<u64, Seq<u8>>,
    keep: spec_fn(R::V) -> bool,
    i: int,
)
    requires
        lists(a, raw, keep),
        lists(b, raw, keep),
        0 <= i < a.len(),
    ensures
        i < b.len(),
        R::key(a[i]@) == R::key(b[i]@),
    decreases i,
{
    assert forall|j: int| 0 <= j < i implies j < b.len() && R::key(a[j]@) == R::key(b[j]@) by {
        lemma_listed_keys_agree(a, b, raw, keep, j);
    }
    let ka = R::key(a[i]@);
    assert(holds_kept::<R>(raw, ka, keep));
    let jb = choose|jb: int| 0 <= jb < b.len() && R::key((#[trigger] b[jb])@) == ka;
    if jb < i {
        assert(R::key(a[jb]@) < R::key(a[i]@));
    }
    let kb = R::key(b[i]@);
    assert(holds_kept::<R>(raw, kb, keep));
    let ja = choose|ja: int| 0 <= ja < a.len() && R::key((#[trigger] a[ja])@) == kb;
    if ja < i {
        assert(R::key(b[ja]@) < R::key(b[i]@));
    }
    if i < jb {
        assert(R::key(b[i]@) < R::key(b[jb]@));
    }
    if i < ja {
        assert(R::key(a[i]@) < R::key(a[ja]@));
    }
}

/// What a store holds and a condition determine the list of the records
/// that satisfy the condition: two such lists have the same length and the
/// same values at the same places.
pub proof fn law_listing_is_unique<R: Record>(
    a: Seq<R>,
    b: Seq<R>,
    raw: Map<u64, Seq<u8>>,
    keep: spec_fn(R::V) -> bool,
)
    requires
        lists(a, raw, keep),
        lists(b, raw, keep),
    ensures
        a.len() == b.len(),
        forall|i: int| 0 <= i < a.len() ==> (#[trigger] a[i])@ == b[i]@,
{
    if a.len() > 0 {
        lemma_listed_keys_agree(a, b, raw, keep, a.len() - 1);
    }
    if b.len() > 0 {
        lemma_listed_keys_agree(b, a, raw, keep, b.len() - 1);
    }
    assert forall|i: int| 0 <= i < a.len() implies (#[trigger] a[i])@ == b[i]@ by {
        lemma_listed_keys_agree(a, b, raw, keep, i);
        assert(slot::<R>(raw, R::key(a[i]@)) == Slot::Holds(a[i]@));
        assert(slot::<R>(raw, R::key(b[i]@)) == Slot::Holds(b[i]@));
    }
}

/// Looking up a crop right after its creation returns the crop that the
/// creation returned.
pub proof fn law_created_crop_is_found(
    before: FarmView,
    after: FarmView,
    payload: CropPayload,
    now: u64,
    created: Result<Crop, Error>,
    found: Result<Crop, Error>,
)
    requires
        crop_creation(before, after, payload, now, created),
        created is Ok,
        looked_up::<Crop>(after.crops, created->Ok_0.id, "Crop"@, found),
    ensures
        found matches Ok(crop) && crop@ == created->Ok_0@,
{
    law_stored_is_found::<Crop>(before.crops, created->Ok_0@);
}

/// Looking up a task right after its creation returns the task that the
/// creation returned.
pub proof fn law_created_task_is_found(
    before: FarmView,
    after: FarmView,
    payload: TaskPayload,
    now: u64,
    created: Result<Task, Error>,
    found: Result<Task, Error>,
)
    requires
        task_creation(before, after, payload, now, created),
        created is Ok,
        looked_up::<Task>(after.tasks, created->Ok_0.id, "Task"@, found),
    ensures
        found matches Ok(task) && task@ == created->Ok_0@,
{
    law_stored_is_found::<Task>(before.tasks, created->Ok_0@);
}

/// Looking up an expense right after its creation returns the expense that
/// the creation returned.
pub proof fn law_created_expense_is_found(
    before: FarmView,
    after: FarmView,
    payload: ExpensePayload,
    now: u64,
    created: Result<Expense, Error>,
    found: Result<Expense, Error>,
)
    requires
        expense_creation(before, after, payload, now, created),
        created is Ok,
        looked_up::<Expense>(after.expenses, created->Ok_0.id, "Expense"@, found),
    ensures
        found matches Ok(expense) && expense@ == created->Ok_0@,
{
    law_stored_is_found::<Expense>(before.expenses, created->Ok_0@);
}

/// A creation that succeeds issues the identifier of what it returns,
/// whatever the kind of record.
pub proof fn law_creation_issues(
    before: FarmView,
    after: FarmView,
    now: u64,
    crop: (CropPayload, Result<Crop, Error>),
    task: (TaskPayload, Result<Task, Error>),
    expense: (ExpensePayload, Result<Expense, Error>),
)
    ensures
        crop_creation(before, after, crop.0, now, crop.1) && crop.1 is Ok ==> before.issues(
            after,
            crop.1->Ok_0.id,
        ),
        task_creation(before, after, task.0, now, task.1) && task.1 is Ok ==> before.issues(
            after,
            task.1->Ok_0.id,
        ),
        expense_creation(before, after, expense.0, now, expense.1) && expense.1 is Ok
            ==> before.issues(after, expense.1->Ok_0.id),
{
}

/// No creation and no assignment of watering tasks lowers the identifier
/// issued last, whether it succeeds or not. Every other operation leaves the
/// identifier issued last as it was, as its own contract says.
pub proof fn law_last_id_never_falls(
    before: FarmView,
    after: FarmView,
    now: u64,
    crop: (CropPayload, Result<Crop, Error>),
    task: (TaskPayload, Result<Task, Error>),
    expense: (ExpensePayload, Result<Expense, Error>),
    watered: Seq<Task>,
)
    ensures
        crop_creation(before, after, crop.0, now, crop.1) ==> before.last_id <= after.last_id,
        task_creation(before, after, task.0, now, task.1) ==> before.last_id <= after.last_id,
        expense_creation(before, after, expense.0, now, expense.1) ==> before.last_id
            <= after.last_id,
        watering_assigned(before, after, watered, now) ==> before.last_id <= after.last_id,
{
}

/// The tasks that an assignment of watering tasks returns carry identifiers
/// that ascend strictly and that are all larger than the one issued last
/// before.
pub proof fn law_watering_identifiers_ascend(
    before: FarmView,
    after: FarmView,
    tasks: Seq<Task>,
    now: u64,
    a: int,
    b: int,
)
    requires
        watering_assigned(before, after, tasks, now),
        0 <= a < b < tasks.len(),
    ensures
        before.last_id < tasks[a].id < tasks[b].id <= after.last_id,
{
    assert(tasks[a]@.id == before.last_id + 1 + a);
    assert(tasks[b]@.id == before.last_id + 1 + b);
}

/// Identifiers are issued in strictly ascending order and are never 0: of
/// two steps that each issue an identifier, the later issues the larger,
/// whatever happened in between, as long as nothing in between lowered the
/// identifier issued last. No operation of this library lowers it.
pub proof fn law_identifiers_ascend(
    s0: FarmView,
    s1: FarmView,
    s2: FarmView,
    s3: FarmView,
    first: u64,
    second: u64,
)
    requires
        s0.issues(s1, first),
        s1.last_id <= s2.last_id,
        s2.issues(s3, second),
    ensures
        0 < first < second,
{
}

/// An identifier that is issued was not in use: where every identifier in
/// use has been issued, nothing is stored under the identifier that a step
/// issues, in any of the three stores. So a record that was deleted does
/// not come back, and a creation overwrites nothing.
pub proof fn law_issued_identifier_is_new(before: FarmView, after: FarmView, id: u64)
    requires
        before.only_issued(),
        before.issues(after, id),
    ensures
        !before.crops.contains_key(id),
        !before.tasks.contains_key(id),
        !before.expenses.contains_key(id),
{
}

/// The identifier of a task that was created and later removed is not
/// issued again: a task created after the removal carries a larger
/// identifier, under which no task was stored before its creation.
pub proof fn law_deleted_identifier_is_not_issued_again(
    s0: FarmView,
    s1: FarmView,
    s2: FarmView,
    s3: FarmView,
    s4: FarmView,
    k: u64,
    gone: Result<Task, Error>,
    payload: TaskPayload,
    now: u64,
    created: Result<Task, Error>,
)
    requires
        s0.issues(s1, k),
        s1.last_id <= s2.last_id,
        s2.only_issued(),
        s3 == (FarmView { tasks: s3.tasks, ..s2 }),
        removed::<Task>(s2.tasks, s3.tasks, k, "Task"@, gone),
        task_creation(s3, s4, payload, now, created),
        created is Ok,
    ensures
        k < created->Ok_0.id,
        !s3.tasks.contains_key(created->Ok_0.id),
        s4.only_issued(),
{
    assert forall|id: u64| #[trigger] s3.tasks.contains_key(id) implies 0 < id <= s3.last_id by {
        assert(s2.tasks.contains_key(id));
    }
}

/// A creation, whether it succeeds or not, keeps every identifier in use
/// among those issued, and leaves what was stored before as it was.
pub proof fn law_creation_keeps_issued(
    before: FarmView,
    after: FarmView,
    now: u64,
    crop: (CropPayload, Result<Crop, Error>),
    task: (TaskPayload, Result<Task, Error>),
    expense: (ExpensePayload, Result<Expense, Error>),
)
    requires
        before.only_issued(),
        crop_creation(before, after, crop.0, now, crop.1) || task_creation(
            before,
            after,
            task.0,
            now,
            task.1,
        ) || expense_creation(before, after, expense.0, now, expense.1),
    ensures
        after.only_issued(),
        forall|id: u64| #[trigger]
            before.crops.contains_key(id) ==> after.crops.contains_key(id) && after.crops[id]
                == before.crops[id],
        forall|id: u64| #[trigger]
            before.tasks.contains_key(id) ==> after.tasks.contains_key(id) && after.tasks[id]
                == before.tasks[id],
        forall|id: u64| #[trigger]
            before.expenses.contains_key(id) ==> after.expenses.contains_key(id)
                && after.expenses[id] == before.expenses[id],
{
}

/// An update and a removal store nothing under an identifier under which
/// nothing was stored: they keep every identifier in use among those
/// issued.
pub proof fn law_change_keeps_issued<R: Record>(
    before: Map<u64, Seq<u8>>,
    after: Map<u64, Seq<u8>>,
    last: u64,
    id: u64,
    kind: Seq<char>,
    change: spec_fn(R::V) -> R::V,
    r: Result<R, Error>,
)
    requires
        within(before, last),
        replaced::<R>(before, after, id, kind, change, r) || removed::<R>(
            before,
            after,
            id,
            kind,
            r,
        ),
    ensures
        within(after, last),
{
    assert forall|k: u64| #[trigger] after.contains_key(k) implies 0 < k <= last by {
        assert(before.contains_key(k));
    }
}

/// The completion of a task stores nothing under an identifier under which
/// nothing was stored: it keeps every identifier in use among those issued.
pub proof fn law_completion_keeps_issued(
    before: Map<u64, Seq<u8>>,
    after: Map<u64, Seq<u8>>,
    last: u64,
    id: u64,
    done: Result<Task, Error>,
)
    requires
        within(before, last),
        task_completion(before, after, id, done),
    ensures
        within(after, last),
{
    assert forall|k: u64| #[trigger] after.contains_key(k) implies 0 < k <= last by {
        assert(before.contains_key(k));
    }
}

/// What the stored tasks hold once tasks were stored one after the other:
/// each of the tasks under its identifier, and under every other identifier
/// what was stored before.
proof fn lemma_with_tasks(raw: Map<u64, Seq<u8>>, tasks: Seq<Task>, id: u64)
    ensures
        with_tasks(raw, tasks).contains_key(id) <==> raw.contains_key(id) || exists|j: int|
            0 <= j < tasks.len() && (#[trigger] tasks[j]).id == id,
        (forall|j: int| 0 <= j < tasks.len() ==> (#[trigger] tasks[j]).id != id) ==> with_tasks(
            raw,
            tasks,
        )[id] == raw[id],
    decreases tasks.len(),
{
    if tasks.len() > 0 {
        let front = tasks.drop_last();
        lemma_with_tasks(raw, front, id);
        if with_tasks(raw, front).contains_key(id) && !raw.contains_key(id) {
            let j = choose|j: int| 0 <= j < front.len() && (#[trigger] front[j]).id == id;
            assert(tasks[j].id == id);
        }
        if tasks.last().id == id {
            assert(tasks[tasks.len() - 1].id == id);
        }
        if exists|j: int| 0 <= j < tasks.len() && (#[trigger] tasks[j]).id == id {
            let j = choose|j: int| 0 <= j < tasks.len() && (#[trigger] tasks[j]).id == id;
            if j < front.len() {
                assert(front[j].id == id);
            }
        }
        if forall|j: int| 0 <= j < tasks.len() ==> (#[trigger] tasks[j]).id != id {
            assert forall|j: int| 0 <= j < front.len() implies (#[trigger] front[j]).id != id by {
                assert(tasks[j].id != id);
            }
            assert(tasks[tasks.len() - 1].id != id);
        }
    }
}

/// An assignment of watering tasks keeps every identifier in use among
/// those issued, stores its tasks under identifiers that were not in use,
/// and leaves every task that was stored before as it was.
pub proof fn law_watering_keeps_issued(
    before: FarmView,
    after: FarmView,
    tasks: Seq<Task>,
    now: u64,
)
    requires
        before.only_issued(),
        watering_assigned(before, after, tasks, now),
    ensures
        after.only_issued(),
        forall|j: int| 0 <= j < tasks.len() ==> !before.tasks.contains_key((#[trigger] tasks[j]).id),
        forall|id: u64| #[trigger]
            before.tasks.contains_key(id) ==> after.tasks.contains_key(id) && after.tasks[id]
                == before.tasks[id],
{
    assert forall|j: int| 0 <= j < tasks.len() implies before.last_id < (#[trigger] tasks[j]).id
        <= after.last_id by {
        assert(tasks[j]@.id == before.last_id + 1 + j);
    }
    assert forall|id: u64| #[trigger] after.tasks.contains_key(id) implies 0 < id
        <= after.last_id by {
        lemma_with_tasks(before.tasks, tasks, id);
    }
    assert forall|id: u64| #[trigger] before.tasks.contains_key(id) implies after.tasks.contains_key(
        id,
    ) && after.tasks[id] == before.tasks[id] by {
        lemma_with_tasks(before.tasks, tasks, id);
    }
}

/// An update of a crop keeps its identifier and its time of creation, takes
/// the other fields from the payload, and notes the time of the update.
pub proof fn law_update_keeps_crop(v: CropView, payload: CropPayload, now: u64)
    ensures
        updated_crop(v, payload, now).id == v.id,
        updated_crop(v, payload, now).created_at == v.created_at,
        updated_crop(v, payload, now) == (CropView {
            id: v.id,
            name: payload.name@,
            description: payload.description@,
            quantity: payload.quantity,
            created_at: v.created_at,
            updated_at: Some(now),
        }),
{
}

/// An update of a task keeps its identifier, its completion and its time of
/// creation, and takes the other fields from the payload.
pub proof fn law_update_keeps_task(v: TaskView, payload: TaskPayload)
    ensures
        updated_task(v, payload).id == v.id,
        updated_task(v, payload).created_at == v.created_at,
        updated_task(v, payload) == (TaskView {
            id: v.id,
            name: payload.name@,
            description: payload.description@,
            completed: v.completed,
            crop_id: payload.crop_id,
            created_at: v.created_at,
        }),
{
}

/// An update of an expense keeps its identifier, its time of creation and
/// its crop, and takes the other fields from the payload.
pub proof fn law_update_keeps_expense(v: ExpenseView, payload: ExpensePayload)
    ensures
        updated_expense(v, payload).id == v.id,
        updated_expense(v, payload).timestamp == v.timestamp,
        updated_expense(v, payload) == (ExpenseView {
            id: v.id,
            description: payload.description@,
            amount: payload.amount,
            timestamp: v.timestamp,
            crop_id: v.crop_id,
        }),
{
}

/// Looking up a record right after it was removed reports that it is not
/// there.
pub proof fn law_removed_is_not_found<R: Record>(
    before: Map<u64, Seq<u8>>,
    after: Map<u64, Seq<u8>>,
    id: u64,
    kind: Seq<char>,
    gone: Result<R, Error>,
    found: Result<R, Error>,
)
    requires
        removed::<R>(before, after, id, kind, gone),
        gone is Ok,
        looked_up::<R>(after, id, kind, found),
    ensures
        is_not_found(found, missing_text(kind, id)),
{
}

/// Looking up a record under an identifier under which none is stored
/// reports that it is not there, also after a removal that found nothing.
pub proof fn law_absent_stays_absent<R: Record>(
    before: Map<u64, Seq<u8>>,
    after: Map<u64, Seq<u8>>,
    id: u64,
    kind: Seq<char>,
    gone: Result<R, Error>,
    found: Result<R, Error>,
)
    requires
        !before.contains_key(id),
        removed::<R>(before, after, id, kind, gone),
        looked_up::<R>(after, id, kind, found),
    ensures
        is_not_found(gone, missing_text(kind, id)),
        is_not_found(found, missing_text(kind, id)),
{
}

/// Decoding what encoding a record gave returns a record of the same value.
pub proof fn law_decode_after_encode<R: Record>(record: R, bytes: Vec<u8>, back: Option<R>)
    requires
        R::encoding(record@).len() <= MAX_RECORD_SIZE,
        bytes@ == R::encoding(record@),
        match back {
            Some(decoded) => R::decoding(bytes@) == Some(decoded@),
            None => R::decoding(bytes@) is None,
        },
    ensures
        back matches Some(decoded) && decoded@ == record@,
{
    R::lemma_round_trip(record@);
}

} // verus!
