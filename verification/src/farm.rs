//! The farm: one identifier allocator and one store for each kind of record.

use vstd::prelude::*;
use ic_stable_structures::DefaultMemoryImpl;
use crate::crop::Crop;
use crate::error::{is_fault, Error, Fault};
use crate::expense::Expense;
use crate::ids::IdAllocator;
use crate::stable::{default_memory, open_regions, region};
use crate::store::{intact, within, Store};
use crate::task::Task;

verus! {

/// The tag of the region that holds the identifier counter.
pub const COUNTER_REGION: u8 = 0;

/// The tag of the region that holds the crops.
pub const CROP_REGION: u8 = 1;

/// The tag of the region that holds the tasks.
pub const TASK_REGION: u8 = 2;

/// The tag of the region that holds the expenses.
pub const EXPENSE_REGION: u8 = 3;

/// Everything the farm keeps in stable memory.
///
/// The farm is made once, when the program starts, and handed to every
/// operation. The operations take it by reference, so no two of them run on
/// it at the same time; nothing in it is locked.
pub struct Farm {
    pub(crate) memory: DefaultMemoryImpl,
    pub(crate) ids: IdAllocator,
    pub(crate) crops: Store<Crop>,
    pub(crate) tasks: Store<Task>,
    pub(crate) expenses: Store<Expense>,
}

/// The state of a [`Farm`]: the memory and the regions it lives in, the
/// identifier issued last, and the bytes stored under each identifier in
/// each of the three stores.
pub struct FarmView {
    /// The memory that the farm lives in.
    pub home: DefaultMemoryImpl,
    /// The tags of the regions that hold the counter, the crops, the tasks
    /// and the expenses, in this order.
    pub regions: (u8, u8, u8, u8),
    pub last_id: u64,
    pub crops: Map<u64, Seq<u8>>,
    pub tasks: Map<u64, Seq<u8>>,
    pub expenses: Map<u64, Seq<u8>>,
}

impl FarmView {
    /// Whether every identifier under which something is stored has been
    /// issued: it is one of the identifiers from 1 to the one issued last.
    pub open spec fn only_issued(self) -> bool {
        &&& within(self.crops, self.last_id)
        &&& within(self.tasks, self.last_id)
        &&& within(self.expenses, self.last_id)
    }

    /// Whether the step from this state to `after` issues the identifier
    /// `id`: the one after the identifier issued last.
    pub open spec fn issues(self, after: FarmView, id: u64) -> bool {
        self.last_id < id && id == self.last_id + 1 && after.last_id == id
    }
}

impl View for Farm {
    type V = FarmView;

    open(crate) spec fn view(&self) -> FarmView {
        FarmView {
            home: self.memory,
            regions: (self.ids.tag(), self.crops.tag(), self.tasks.tag(), self.expenses.tag()),
            last_id: self.ids.last(),
            crops: self.crops.raw(),
            tasks: self.tasks.raw(),
            expenses: self.expenses.raw(),
        }
    }
}

impl Farm {
    /// Opens the farm that `memory` holds. The memory is divided into four
    /// regions, one for the counter and one for each store, so that what is
    /// written to one of them leaves the others as they are.
    fn open(memory: DefaultMemoryImpl) -> (r: Result<Farm, Error>)
        ensures
            match r {
                Ok(farm) => farm@.home == memory && farm@.regions == (
                    COUNTER_REGION,
                    CROP_REGION,
                    TASK_REGION,
                    EXPENSE_REGION,
                ),
                Err(_) => is_fault(r, Fault::CounterUnreadable),
            },
    {
        let regions = open_regions(&memory);
        let ids = IdAllocator::open(region(&regions, COUNTER_REGION))?;
        let crops = Store::open(region(&regions, CROP_REGION));
        let tasks = Store::open(region(&regions, TASK_REGION));
        let expenses = Store::open(region(&regions, EXPENSE_REGION));
        Ok(Farm { memory, ids, crops, tasks, expenses })
    }

    /// Opens the farm that the program's default memory holds. A memory that
    /// holds none gets a farm without records that has issued no identifier.
    ///
    /// The counter and the three stores each get a region of their own: the
    /// regions with the tags 0, 1, 2 and 3. Where the default memory is the
    /// host's stable memory, of which there is one, the farm is to be opened
    /// once, and nothing else may use that memory.
    pub fn init() -> (r: Result<Farm, Error>)
        ensures
            match r {
                Ok(farm) => farm@.regions == (
                    COUNTER_REGION,
                    CROP_REGION,
                    TASK_REGION,
                    EXPENSE_REGION,
                ),
                Err(_) => is_fault(r, Fault::CounterUnreadable),
            },
    {
        Farm::open(default_memory())
    }

    /// Closes the farm and opens it again from its memory, as a restart of
    /// the program does: the memory is divided anew, and the counter and the
    /// stores are opened on their regions. Where the counter cannot be
    /// opened, the farm is gone from the program; its memory is as it was.
    ///
    /// What the farm holds afterwards is what its memory holds; `reload`
    /// states what that is where each structure is read again by itself.
    pub fn restart(self) -> (r: Result<Farm, Error>)
        ensures
            match r {
                Ok(farm) => farm@.home == self@.home && farm@.regions == (
                    COUNTER_REGION,
                    CROP_REGION,
                    TASK_REGION,
                    EXPENSE_REGION,
                ),
                Err(_) => is_fault(r, Fault::CounterUnreadable),
            },
    {
        Farm::open(self.memory)
    }

    /// Reads the counter and every store again from the memory they live in,
    /// as they are read when the program starts again. The farm always comes
    /// back, and in the state that this farm was in: nothing that was stored
    /// is lost or changed, and the counter stands where it stood.
    pub fn reload(self) -> (r: Result<Farm, Error>)
        ensures
            r matches Ok(farm) && farm@ == self@,
    {
        let ids = self.ids.reopen()?;
        let crops = self.crops.reopen();
        let tasks = self.tasks.reopen();
        let expenses = self.expenses.reopen();
        Ok(Farm { memory: self.memory, ids, crops, tasks, expenses })
    }

    /// Finds out whether every identifier under which something is stored
    /// has been issued. A farm that was opened on a blank memory and used
    /// through the operations on crops, tasks and expenses that issue the
    /// identifiers themselves is such a farm.
    pub fn holds_only_issued(&self) -> (r: Result<bool, Error>)
        ensures
            if intact::<Crop>(self@.crops) && intact::<Task>(self@.tasks) && intact::<Expense>(
                self@.expenses,
            ) {
                r matches Ok(b) && b == self@.only_issued()
            } else {
                is_fault(r, Fault::CorruptRecord)
            },
    {
        let last = self.ids.current();
        let crops = self.crops.all_within(last)?;
        let tasks = self.tasks.all_within(last)?;
        let expenses = self.expenses.all_within(last)?;
        Ok(crops && tasks && expenses)
    }

    /// The identifier issued last; 0 where none was issued.
    pub fn last_id(&self) -> (id: u64)
        ensures
            id == self@.last_id,
    {
        self.ids.current()
    }
}

} // verus!
