//! What the reports on money are computed from.
//!
//! Amounts are binary floating-point numbers, which this library keeps as
//! bits and never adds up. Each function here selects the records that a
//! report is about; the caller takes the sums.

use vstd::prelude::*;
use crate::crop::Crop;
use crate::error::{is_fault, Error, Fault};
use crate::expense::{Expense, ExpenseView};
use crate::farm::Farm;
use crate::store::{any, intact, lists, retain_marked};

verus! {

/// The number that stands for a day: the year, then two digits for the
/// month, then two for the day. It is no count of days or seconds.
pub open spec fn day_number(month: u64, year: u64, day: u64) -> int {
    year * 10000 + month * 100 + day
}

/// The number of the first day of the month after `month` of `year`; the
/// month after the twelfth is the first of the next year.
pub open spec fn month_end(month: u64, year: u64) -> int {
    if month == 12 {
        (year + 1) * 10000 + 101
    } else {
        year * 10000 + (month + 1) * 100 + 1
    }
}

/// The condition that an expense was made in `month` of `year`: from the
/// number of the first day of the month up to, but not including, that of
/// the first day of the month after it.
pub open spec fn in_month(month: u64, year: u64) -> spec_fn(ExpenseView) -> bool {
    |v: ExpenseView| day_number(month, year, 1) <= v.timestamp < month_end(month, year)
}

/// The condition that an expense was made on the crop `crop_id`.
pub open spec fn spent_on(crop_id: u64) -> spec_fn(ExpenseView) -> bool {
    |v: ExpenseView| v.crop_id == Some(crop_id)
}

/// The number that stands for a day.
pub fn get_timestamp(month: u64, year: u64, day: u64) -> (stamp: u64)
    requires
        day_number(month, year, day) <= u64::MAX,
    ensures
        stamp == day_number(month, year, day),
{
    year * 10000 + month * 100 + day
}

/// Whether the numbers of the days that bound `month` of `year` fit into 64
/// bits.
pub fn month_is_representable(month: u64, year: u64) -> (fits: bool)
    ensures
        fits == (month_end(month, year) <= u64::MAX),
{
    let limit: u128 = 0xffff_ffff_ffff_ffff;
    let y: u128 = year as u128;
    let m: u128 = month as u128;
    if month == 12 {
        (y + 1) * 10000 + 101 <= limit
    } else {
        y * 10000 + (m + 1) * 100 + 1 <= limit
    }
}

/// The numbers that bound `month` of `year`: that of its first day, and
/// that of the first day of the month after it.
pub fn month_window(month: u64, year: u64) -> (window: (u64, u64))
    requires
        month_end(month, year) <= u64::MAX,
    ensures
        window.0 == day_number(month, year, 1),
        window.1 == month_end(month, year),
        window.0 < window.1,
{
    let start = get_timestamp(month, year, 1);
    let end = if month == 12 {
        get_timestamp(1, year + 1, 1)
    } else {
        get_timestamp(month + 1, year, 1)
    };
    (start, end)
}

/// Lists the expenses made in `month` of `year`, in ascending order of the
/// identifiers. The sum of their amounts is the report on the month.
pub fn monthly_expenses(farm: &Farm, month: u64, year: u64) -> (r: Result<Vec<Expense>, Error>)
    requires
        month_end(month, year) <= u64::MAX,
    ensures
        if intact::<Expense>(farm@.expenses) {
            r matches Ok(found) && lists(found@, farm@.expenses, in_month(month, year))
        } else {
            is_fault(r, Fault::CorruptRecord)
        },
{
    let ghost keep = in_month(month, year);
    let (start, end) = month_window(month, year);
    let all = farm.expenses.iterate()?;
    let mut marks: Vec<bool> = Vec::new();
    let mut i: usize = 0;
    while i < all.len()
        invariant
            i <= all.len(),
            marks.len() == i,
            start == day_number(month, year, 1),
            end == month_end(month, year),
            keep == in_month(month, year),
            forall|j: int| 0 <= j < i ==> #[trigger] marks[j] == keep(all[j]@),
        decreases all.len() - i,
    {
        let stamp = all[i].timestamp;
        marks.push(start <= stamp && stamp < end);
        i += 1;
    }
    Ok(retain_marked(all, &marks, Ghost(farm@.expenses), Ghost(keep)))
}

/// Lists the expenses made on the crop `crop_id`, in ascending order of the
/// identifiers. The sum of their amounts is what the crop has cost.
pub fn crop_expenses(farm: &Farm, crop_id: u64) -> (r: Result<Vec<Expense>, Error>)
    ensures
        if intact::<Expense>(farm@.expenses) {
            r matches Ok(found) && lists(found@, farm@.expenses, spent_on(crop_id))
        } else {
            is_fault(r, Fault::CorruptRecord)
        },
{
    let ghost keep = spent_on(crop_id);
    let all = farm.expenses.iterate()?;
    let mut marks: Vec<bool> = Vec::new();
    let mut i: usize = 0;
    while i < all.len()
        invariant
            i <= all.len(),
            marks.len() == i,
            keep == spent_on(crop_id),
            forall|j: int| 0 <= j < i ==> #[trigger] marks[j] == keep(all[j]@),
        decreases all.len() - i,
    {
        let mark = match all[i].crop_id {
            Some(id) => id == crop_id,
            None => false,
        };
        marks.push(mark);
        i += 1;
    }
    Ok(retain_marked(all, &marks, Ghost(farm@.expenses), Ghost(keep)))
}

/// Lists every expense and every crop, each in ascending order of the
/// identifiers. The budget is the distance between the sum of the amounts
/// and the sum of the quantities. That there is no expense or no crop is no
/// error here.
pub fn budget_entries(farm: &Farm) -> (r: Result<(Vec<Expense>, Vec<Crop>), Error>)
    ensures
        if intact::<Expense>(farm@.expenses) && intact::<Crop>(farm@.crops) {
            r matches Ok(entries) && lists(entries.0@, farm@.expenses, any()) && lists(
                entries.1@,
                farm@.crops,
                any(),
            )
        } else {
            is_fault(r, Fault::CorruptRecord)
        },
{
    let expenses = farm.expenses.iterate()?;
    let crops = farm.crops.iterate()?;
    Ok((expenses, crops))
}

} // verus!
