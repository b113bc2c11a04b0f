//! The stable-memory structures that hold the farm's data.
//!
//! Everything in this file stands for code of the `ic-stable-structures`
//! crate. The contracts here are taken from that crate's source and are not
//! proved; the rest of the library is proved against them.
//!
//! The memory that these structures live in is never handed in by a caller:
//! it is the program's default memory, taken by `default_memory`, and it is
//! opened by a farm only. It is either blank or as a farm left it, so the
//! opening functions find nothing of a layout they do not know.
//!
//! All of these structures write to memory that grows on demand. Where the
//! memory cannot grow any further, the crate aborts the call, as a failed
//! heap allocation does.

use vstd::prelude::*;
use ic_stable_structures::cell::{InitError, ValueError};
use ic_stable_structures::memory_manager::{MemoryId, MemoryManager, VirtualMemory};
use ic_stable_structures::storable::Blob;
use ic_stable_structures::{Cell, DefaultMemoryImpl, StableBTreeMap};

verus! {

/// `core::cell::RefCell`, which the default memory is made of where the
/// program does not run on the host's stable memory. Nothing is claimed of
/// it.
#[verifier::external_type_specification]
#[verifier::external_body]
#[verifier::reject_recursive_types(T)]
pub struct ExRefCell<T: ?Sized>(core::cell::RefCell<T>);

/// `cell::InitError`, the error of `Cell::init`. Nothing is claimed of it.
#[verifier::external_type_specification]
#[verifier::external_body]
pub struct ExInitError(InitError);

/// `cell::ValueError`, the error of `Cell::set`. Nothing is claimed of it.
#[verifier::external_type_specification]
#[verifier::external_body]
pub struct ExValueError(ValueError);

/// A `MemoryManager`: one memory divided into regions that do not overlap.
#[verifier::external_body]
pub struct Regions {
    inner: MemoryManager<DefaultMemoryImpl>,
}

/// A `VirtualMemory`: one region of a divided memory.
#[verifier::external_body]
pub struct Region {
    inner: VirtualMemory<DefaultMemoryImpl>,
}

/// A `StableBTreeMap` from 64-bit keys to byte strings of at most 1024 bytes.
#[verifier::external_body]
pub struct StableMap {
    inner: StableBTreeMap<u64, Blob<1024>, VirtualMemory<DefaultMemoryImpl>>,
}

/// A `Cell` that holds one 64-bit integer.
#[verifier::external_body]
pub struct StableCell {
    inner: Cell<u64, VirtualMemory<DefaultMemoryImpl>>,
}

/// What a stable map holds: the bytes stored under each key.
pub uninterp spec fn map_contents(m: StableMap) -> Map<u64, Seq<u8>>;

/// The integer that a stable cell holds.
pub uninterp spec fn cell_value(c: StableCell) -> u64;

/// The tag of a region: the number by which the divided memory tells its
/// regions apart.
pub uninterp spec fn region_tag(r: Region) -> u8;

/// The tag of the region that a stable map was opened on.
pub uninterp spec fn map_region(m: StableMap) -> u8;

/// The tag of the region that a stable cell was opened on.
pub uninterp spec fn cell_region(c: StableCell) -> u8;

/// Whether `entries` holds exactly the entries of `contents`, in strictly
/// ascending order of their keys.
pub open spec fn lists_bytes(entries: Seq<(u64, Vec<u8>)>, contents: Map<u64, Seq<u8>>) -> bool {
    &&& forall|i: int, j: int|
        0 <= i < j < entries.len() ==> (#[trigger] entries[i]).0 < (#[trigger] entries[j]).0
    &&& forall|i: int|
        0 <= i < entries.len() ==> contents.contains_key((#[trigger] entries[i]).0)
            && contents[entries[i].0] == entries[i].1@
    &&& forall|k: u64| #[trigger]
        contents.contains_key(k) ==> exists|i: int|
            0 <= i < entries.len() && (#[trigger] entries[i]).0 == k
}

/// `DefaultMemoryImpl::default`: the program's default memory. Nothing is
/// claimed of the result.
#[verifier::external_body]
pub(crate) fn default_memory() -> DefaultMemoryImpl {
    DefaultMemoryImpl::default()
}

/// `MemoryManager::init` on a handle to `memory`: divides the memory into
/// regions, or takes up the division that it holds. Nothing is claimed of
/// the result.
#[verifier::external_body]
pub(crate) fn open_regions(memory: &DefaultMemoryImpl) -> Regions {
    Regions { inner: MemoryManager::init(memory.clone()) }
}

/// `MemoryManager::get` with `MemoryId::new(tag)`: the region with the given
/// tag. The tag 255 is reserved by the crate, which refuses it.
#[verifier::external_body]
pub(crate) fn region(regions: &Regions, tag: u8) -> (r: Region)
    requires
        tag != 255,
    ensures
        region_tag(r) == tag,
{
    Region { inner: regions.inner.get(MemoryId::new(tag)) }
}

/// `StableBTreeMap::init`: the map that a region holds, or an empty map
/// written to a region that holds none. The map lives in the region it was
/// opened on; nothing is claimed of what it holds.
#[verifier::external_body]
pub(crate) fn open_map(region: Region) -> (m: StableMap)
    ensures
        map_region(m) == region_tag(region),
{
    StableMap { inner: StableBTreeMap::init(region.inner) }
}

/// `Cell::init`: the cell that a region holds, or a cell of the value
/// `initial` written to a region that holds none; an error where the cell
/// could not be opened. The cell lives in the region it was opened on;
/// nothing is claimed of what it holds.
#[verifier::external_body]
pub(crate) fn open_cell(region: Region, initial: u64) -> (r: Result<StableCell, InitError>)
    ensures
        r matches Ok(c) ==> cell_region(c) == region_tag(region),
{
    match Cell::init(region.inner, initial) {
        Ok(inner) => Ok(StableCell { inner }),
        Err(e) => Err(e),
    }
}

/// `StableBTreeMap::into_memory`, then `StableBTreeMap::init` on that
/// memory: the map, read again from the memory it lives in. Every change to
/// a map is in its memory when the change returns, so the map read again
/// holds what the map held, and it lives in the same region.
#[verifier::external_body]
pub(crate) fn reopen_map(m: StableMap) -> (r: StableMap)
    ensures
        map_contents(r) == map_contents(m),
        map_region(r) == map_region(m),
{
    StableMap { inner: StableBTreeMap::init(m.inner.into_memory()) }
}

/// `Cell::into_memory`, then `Cell::init` on that memory: the cell, read
/// again from the memory it lives in. The value of a cell is in its memory
/// whenever the cell holds it, so the cell read again holds what the cell
/// held, and it lives in the same region. The memory holds a cell of the
/// layout that is read, so no error is returned and `initial` goes unused.
#[verifier::external_body]
pub(crate) fn reopen_cell(c: StableCell, initial: u64) -> (r: Result<StableCell, InitError>)
    ensures
        r is Ok,
        r matches Ok(again) ==> cell_value(again) == cell_value(c) && cell_region(again)
            == cell_region(c),
{
    match Cell::init(c.inner.into_memory(), initial) {
        Ok(inner) => Ok(StableCell { inner }),
        Err(e) => Err(e),
    }
}

/// `Cell::get`: the value of the cell.
#[verifier::external_body]
pub(crate) fn cell_get(c: &StableCell) -> (r: u64)
    ensures
        r == cell_value(*c),
{
    *c.inner.get()
}

/// `Cell::set`: either the value is written to stable memory, the cell holds
/// it and the value it held before is returned, or an error is returned and
/// the cell holds what it held. The cell stays in its region.
#[verifier::external_body]
pub(crate) fn cell_set(c: &mut StableCell, value: u64) -> (r: Result<u64, ValueError>)
    ensures
        match r {
            Ok(before) => before == cell_value(*old(c)) && cell_value(*final(c)) == value,
            Err(_) => cell_value(*final(c)) == cell_value(*old(c)),
        },
        cell_region(*final(c)) == cell_region(*old(c)),
{
    c.inner.set(value)
}

/// `StableBTreeMap::get`: the bytes stored under `key`, if any.
#[verifier::external_body]
pub(crate) fn map_get(m: &StableMap, key: u64) -> (r: Option<Vec<u8>>)
    ensures
        match r {
            Some(bytes) => map_contents(*m).contains_key(key) && bytes@ == map_contents(*m)[key],
            None => !map_contents(*m).contains_key(key),
        },
{
    m.inner.get(&key).map(|b| b.as_slice().to_vec())
}

/// `StableBTreeMap::insert`: afterwards `bytes` are stored under `key`, in
/// place of what was stored there, and every other key holds what it held.
/// The map stays in its region.
#[verifier::external_body]
pub(crate) fn map_insert(m: &mut StableMap, key: u64, bytes: &[u8])
    requires
        bytes@.len() <= 1024,
    ensures
        map_contents(*final(m)) == map_contents(*old(m)).insert(key, bytes@),
        map_region(*final(m)) == map_region(*old(m)),
{
    m.inner.insert(key, Blob::try_from(bytes).unwrap());
}

/// `StableBTreeMap::remove`: afterwards nothing is stored under `key`, and
/// every other key holds what it held; what was stored under `key` is
/// returned. The map stays in its region.
#[verifier::external_body]
pub(crate) fn map_remove(m: &mut StableMap, key: u64) -> (r: Option<Vec<u8>>)
    ensures
        map_contents(*final(m)) == map_contents(*old(m)).remove(key),
        map_region(*final(m)) == map_region(*old(m)),
        match r {
            Some(bytes) => map_contents(*old(m)).contains_key(key) && bytes@ == map_contents(
                *old(m),
            )[key],
            None => !map_contents(*old(m)).contains_key(key),
        },
{
    m.inner.remove(&key).map(|b| b.as_slice().to_vec())
}

/// `StableBTreeMap::iter`, collected: every entry of the map, in ascending
/// order of the keys.
#[verifier::external_body]
pub(crate) fn map_entries(m: &StableMap) -> (r: Vec<(u64, Vec<u8>)>)
    ensures
        lists_bytes(r@, map_contents(*m)),
{
    m.inner.iter().map(|(k, b)| (k, b.as_slice().to_vec())).collect()
}

} // verus!
