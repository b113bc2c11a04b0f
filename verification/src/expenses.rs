//! The operations on expenses.

use vstd::prelude::*;
use crate::codec::MAX_RECORD_SIZE;
use crate::error::{is_fault, Error, Fault};
use crate::expense::{Expense, ExpensePayload, ExpenseView};
use crate::farm::{Farm, FarmView};
use crate::ids::following;
use crate::record::Record;
use crate::store::{listed_all, looked_up, removed, replaced, slot, Slot};

verus! {

/// The expense that is created under `id` at the time `now` from `payload`.
pub open spec fn new_expense(id: u64, payload: ExpensePayload, now: u64) -> ExpenseView {
    ExpenseView {
        id,
        description: payload.description@,
        amount: payload.amount,
        timestamp: now,
        crop_id: payload.crop_id,
    }
}

/// The expense `v` after an update with `payload`. The crop that the money
/// was spent on stays.
pub open spec fn updated_expense(v: ExpenseView, payload: ExpensePayload) -> ExpenseView {
    ExpenseView { description: payload.description@, amount: payload.amount, ..v }
}

/// Whether `after` and `r` are what creating an expense from `payload` at
/// the time `now` in the state `before` gives.
///
/// Where every identifier has been issued, or the expense is too large, the
/// state stays and the error says which. Otherwise either the expense is
/// stored under the identifier after the one issued last, which is thereby
/// issued, and returned; or the counter could not be saved, and the state
/// stays.
pub open spec fn expense_creation(
    before: FarmView,
    after: FarmView,
    payload: ExpensePayload,
    now: u64,
    r: Result<Expense, Error>,
) -> bool {
    let created = new_expense((before.last_id + 1) as u64, payload, now);
    if before.last_id == u64::MAX {
        after == before && is_fault(r, Fault::IdsExhausted)
    } else if Expense::encoding(created).len() > MAX_RECORD_SIZE {
        after == before && is_fault(r, Fault::RecordTooLarge)
    } else {
        match r {
            Ok(expense) => {
                &&& expense@ == created
                &&& before.issues(after, expense.id)
                &&& after == (FarmView {
                    last_id: created.id,
                    expenses: before.expenses.insert(created.id, Expense::encoding(created)),
                    ..before
                })
            },
            Err(_) => after == before && is_fault(r, Fault::CounterNotSaved),
        }
    }
}

/// Looks up the expense stored under `id`.
pub fn _get_expense(farm: &Farm, id: &u64) -> (r: Result<Option<Expense>, Error>)
    ensures
        match slot::<Expense>(farm@.expenses, *id) {
            Slot::Empty => r matches Ok(None),
            Slot::Holds(v) => r matches Ok(Some(expense)) && expense@ == v,
            Slot::Damaged => is_fault(r, Fault::CorruptRecord),
        },
{
    farm.expenses.get(*id)
}

/// Returns the expense stored under `id`.
pub fn get_expense(farm: &Farm, id: u64) -> (r: Result<Expense, Error>)
    ensures
        looked_up::<Expense>(farm@.expenses, id, "Expense"@, r),
{
    farm.expenses.fetch(id, "Expense")
}

/// Lists every expense, in ascending order of the identifiers. That there is
/// no expense is reported as an error.
pub fn get_all_expenses(farm: &Farm) -> (r: Result<Vec<Expense>, Error>)
    ensures
        listed_all::<Expense>(farm@.expenses, "No expenses found."@, r),
{
    farm.expenses.list_all("No expenses found.")
}

/// Stores `expense` under the identifier it carries, in place of what was
/// stored there. No identifier is issued, and nothing asks that the
/// identifier of the expense has been issued.
pub fn do_insert_expense(farm: &mut Farm, expense: &Expense) -> (r: Result<(), Error>)
    ensures
        if Expense::encoding(expense@).len() <= MAX_RECORD_SIZE {
            &&& r is Ok
            &&& final(farm)@ == (FarmView {
                expenses: old(farm)@.expenses.insert(expense.id, Expense::encoding(expense@)),
                ..old(farm)@
            })
        } else {
            &&& final(farm)@ == old(farm)@
            &&& is_fault(r, Fault::RecordTooLarge)
        },
{
    farm.expenses.put(expense)
}

/// Creates an expense from `payload` at the time `now`, under the identifier
/// after the one issued last.
pub fn create_expense(farm: &mut Farm, payload: ExpensePayload, now: u64) -> (r: Result<
    Expense,
    Error,
>)
    ensures
        expense_creation(old(farm)@, final(farm)@, payload, now, r),
{
    let next = following(farm.ids.current())?;
    let expense = Expense {
        id: next,
        description: payload.description,
        amount: payload.amount,
        timestamp: now,
        crop_id: payload.crop_id,
    };
    let bytes = match expense.encode() {
        Some(bytes) => bytes,
        None => { return Err(Error::internal(Fault::RecordTooLarge)); },
    };
    let id = farm.ids.next_id()?;
    farm.expenses.insert_encoded(id, &bytes);
    Ok(expense)
}

/// Replaces the description and the amount of the expense stored under `id`
/// by those of `payload`. The identifier, the time of creation and the crop
/// stay. No identifier is issued.
pub fn update_expense(farm: &mut Farm, id: u64, payload: ExpensePayload) -> (r: Result<
    Expense,
    Error,
>)
    ensures
        final(farm)@ == (FarmView { expenses: final(farm)@.expenses, ..old(farm)@ }),
        replaced::<Expense>(
            old(farm)@.expenses,
            final(farm)@.expenses,
            id,
            "Expense"@,
            |v: ExpenseView| updated_expense(v, payload),
            r,
        ),
{
    let mut expense = farm.expenses.fetch(id, "Expense")?;
    expense.description = payload.description;
    expense.amount = payload.amount;
    farm.expenses.put(&expense)?;
    Ok(expense)
}

/// Removes the expense stored under `id` and returns it. No identifier is
/// issued, and the identifier of the expense is not issued again.
pub fn delete_expense(farm: &mut Farm, id: u64) -> (r: Result<Expense, Error>)
    ensures
        final(farm)@ == (FarmView { expenses: final(farm)@.expenses, ..old(farm)@ }),
        removed::<Expense>(old(farm)@.expenses, final(farm)@.expenses, id, "Expense"@, r),
{
    farm.expenses.discard(id, "Expense")
}

} // verus!
