//! The allocator of identifiers.

use vstd::prelude::*;
use crate::error::{is_fault, Error, ErrorView, Fault};
use crate::stable::{
    cell_get, cell_region, cell_set, cell_value, open_cell, region_tag, reopen_cell, Region,
    StableCell,
};

verus! {

/// The identifier after `last`, or the error that every identifier has been
/// issued where `last` is the largest.
pub fn following(last: u64) -> (r: Result<u64, Error>)
    ensures
        if last == u64::MAX {
            is_fault(r, Fault::IdsExhausted)
        } else {
            r matches Ok(id) && id == last + 1
        },
{
    if last == u64::MAX {
        Err(Error::internal(Fault::IdsExhausted))
    } else {
        Ok(last + 1)
    }
}

/// What is returned once the counter that stood at `last` was asked to
/// advance: the identifier after `last` where the advanced counter was
/// saved, and an error where it was not.
pub fn issued(last: u64, saved: bool) -> (r: Result<u64, Error>)
    requires
        last < u64::MAX,
    ensures
        if saved {
            r matches Ok(id) && id == last + 1
        } else {
            is_fault(r, Fault::CounterNotSaved)
        },
{
    if saved {
        Ok(last + 1)
    } else {
        Err(Error::internal(Fault::CounterNotSaved))
    }
}

/// A counter in stable memory that issues identifiers.
///
/// The counter holds the identifier issued last, or 0 where none was issued.
/// Identifiers are issued in ascending order, so none is issued twice and 0
/// is never issued.
pub struct IdAllocator {
    cell: StableCell,
}

impl IdAllocator {
    /// The identifier issued last.
    pub closed spec fn last(&self) -> u64 {
        cell_value(self.cell)
    }

    /// The tag of the region that holds the counter.
    pub closed spec fn tag(&self) -> u8 {
        cell_region(self.cell)
    }

    /// Opens the counter that `region` holds. A region that holds none gets a
    /// counter that has issued nothing: it stands at 0.
    pub(crate) fn open(region: Region) -> (r: Result<IdAllocator, Error>)
        ensures
            match r {
                Ok(ids) => ids.tag() == region_tag(region),
                Err(_) => is_fault(r, Fault::CounterUnreadable),
            },
    {
        match open_cell(region, 0) {
            Ok(cell) => Ok(IdAllocator { cell }),
            Err(_) => Err(Error::internal(Fault::CounterUnreadable)),
        }
    }

    /// Reads the counter again from the memory it lives in. It is always
    /// read, and it stands where it stood.
    pub(crate) fn reopen(self) -> (r: Result<IdAllocator, Error>)
        ensures
            r matches Ok(ids) && ids.last() == self.last() && ids.tag() == self.tag(),
    {
        match reopen_cell(self.cell, 0) {
            Ok(cell) => Ok(IdAllocator { cell }),
            Err(_) => Err(Error::internal(Fault::CounterUnreadable)),
        }
    }

    /// The identifier issued last.
    pub fn current(&self) -> (id: u64)
        ensures
            id == self.last(),
    {
        cell_get(&self.cell)
    }

    /// Issues the identifier after the one issued last.
    ///
    /// The identifier is returned only once the advanced counter is in
    /// stable memory. Where every identifier has been issued, or the counter
    /// could not be written, the counter is left as it was.
    pub fn next_id(&mut self) -> (r: Result<u64, Error>)
        ensures
            final(self).tag() == old(self).tag(),
            match r {
                Ok(id) => id == old(self).last() + 1 && final(self).last() == id,
                Err(e) => final(self).last() == old(self).last() && e@ == (ErrorView::Internal {
                    fault: if old(self).last() == u64::MAX {
                        Fault::IdsExhausted
                    } else {
                        Fault::CounterNotSaved
                    },
                }),
            },
    {
        let current = cell_get(&self.cell);
        let next = following(current)?;
        let saved = cell_set(&mut self.cell, next).is_ok();
        issued(current, saved)
    }
}

} // verus!
