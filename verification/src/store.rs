//! A store of records of one schema, in ascending order of their identifiers.

use vstd::prelude::*;
use vstd::string::*;
use core::marker::PhantomData;
use crate::codec::MAX_RECORD_SIZE;
use crate::error::{is_fault, is_not_found, Error, Fault};
use crate::record::Record;
use crate::text::{missing_message, missing_text};
use crate::stable::{
    lists_bytes, map_contents, map_entries, map_get, map_insert, map_region, map_remove, open_map,
    region_tag, reopen_map, Region, StableMap,
};

verus! {

/// What a store holds under one identifier.
pub enum Slot<V> {
    /// Nothing is stored.
    Empty,
    /// Bytes are stored that are too many for a record, that stand for no
    /// record, or that stand for a record that carries another identifier.
    Damaged,
    /// The record is stored.
    Holds(V),
}

/// The record of schema `R` that `bytes`, stored under `id`, stand for:
/// `None` where they are too many for a record, stand for no record, or
/// stand for a record that carries another identifier.
pub open spec fn reading<R: Record>(id: u64, bytes: Seq<u8>) -> Option<R::V> {
    if bytes.len() > MAX_RECORD_SIZE {
        None
    } else {
        match R::decoding(bytes) {
            Some(v) => if R::key(v) == id {
                Some(v)
            } else {
                None
            },
            None => None,
        }
    }
}

/// What the stored bytes `raw` hold under `id`, read as records of schema `R`.
pub open spec fn slot<R: Record>(raw: Map<u64, Seq<u8>>, id: u64) -> Slot<R::V> {
    if !raw.contains_key(id) {
        Slot::Empty
    } else {
        match reading::<R>(id, raw[id]) {
            Some(v) => Slot::Holds(v),
            None => Slot::Damaged,
        }
    }
}

/// Whether `raw` holds a record of schema `R` under `id` that satisfies `keep`.
pub open spec fn holds_kept<R: Record>(
    raw: Map<u64, Seq<u8>>,
    id: u64,
    keep: spec_fn(R::V) -> bool,
) -> bool {
    match slot::<R>(raw, id) {
        Slot::Holds(v) => keep(v),
        _ => false,
    }
}

/// Whether everything stored in `raw` is a record of schema `R`.
pub open spec fn intact<R: Record>(raw: Map<u64, Seq<u8>>) -> bool {
    forall|id: u64| #[trigger] raw.contains_key(id) ==> slot::<R>(raw, id) is Holds
}

/// Whether `entries` holds exactly the records stored in `raw` that satisfy
/// `keep`, in strictly ascending order of their identifiers.
pub open spec fn lists<R: Record>(
    entries: Seq<R>,
    raw: Map<u64, Seq<u8>>,
    keep: spec_fn(R::V) -> bool,
) -> bool {
    &&& forall|i: int, j: int|
        0 <= i < j < entries.len() ==> R::key((#[trigger] entries[i])@) < R::key(
            (#[trigger] entries[j])@,
        )
    &&& forall|i: int|
        0 <= i < entries.len() ==> slot::<R>(raw, R::key((#[trigger] entries[i])@)) == Slot::Holds(
            entries[i]@,
        ) && keep(entries[i]@)
    &&& forall|id: u64| #[trigger]
        holds_kept::<R>(raw, id, keep) ==> exists|i: int|
            0 <= i < entries.len() && R::key((#[trigger] entries[i])@) == id
}

/// A record that a store holds is stored as its encoding, which fits into a
/// record.
pub proof fn lemma_held_is_encoded<R: Record>(raw: Map<u64, Seq<u8>>, id: u64)
    requires
        slot::<R>(raw, id) is Holds,
    ensures
        raw[id] == R::encoding(slot::<R>(raw, id)->Holds_0),
        R::encoding(slot::<R>(raw, id)->Holds_0).len() <= MAX_RECORD_SIZE,
{
    R::lemma_decoding_is_exact(raw[id]);
}

/// Whether every identifier under which `raw` stores something is one of the
/// identifiers from 1 to `last`.
pub open spec fn within(raw: Map<u64, Seq<u8>>, last: u64) -> bool {
    forall|id: u64| #[trigger] raw.contains_key(id) ==> 0 < id <= last
}

/// Whether nothing is stored in `raw`.
pub open spec fn vacant(raw: Map<u64, Seq<u8>>) -> bool {
    forall|id: u64| !raw.contains_key(id)
}

/// Whether `raw` holds no record of schema `R` that satisfies `keep`.
pub open spec fn none_kept<R: Record>(raw: Map<u64, Seq<u8>>, keep: spec_fn(R::V) -> bool) -> bool {
    forall|id: u64| !holds_kept::<R>(raw, id, keep)
}

/// A list of nothing lists a store in which nothing satisfies the condition,
/// and no other.
pub proof fn lemma_lists_nothing<R: Record>(
    entries: Seq<R>,
    raw: Map<u64, Seq<u8>>,
    keep: spec_fn(R::V) -> bool,
)
    requires
        lists(entries, raw, keep),
    ensures
        entries.len() == 0 <==> none_kept::<R>(raw, keep),
{
    if entries.len() > 0 {
        assert(holds_kept::<R>(raw, R::key(entries[0]@), keep));
    }
}

/// In an intact store, nothing satisfies the condition that everything
/// satisfies only if nothing is stored.
pub proof fn lemma_intact_vacant<R: Record>(raw: Map<u64, Seq<u8>>)
    requires
        intact::<R>(raw),
    ensures
        none_kept::<R>(raw, any()) <==> vacant(raw),
{
    if none_kept::<R>(raw, any()) {
        assert forall|id: u64| !raw.contains_key(id) by {
            if raw.contains_key(id) {
                assert(holds_kept::<R>(raw, id, any()));
            }
        }
    }
}

/// Whether `r` is what looking up `id` in `raw` gives: the record stored
/// there, or the error that none of kind `kind` is stored there, or the error
/// that what is stored there is damaged.
pub open spec fn looked_up<R: Record>(
    raw: Map<u64, Seq<u8>>,
    id: u64,
    kind: Seq<char>,
    r: Result<R, Error>,
) -> bool {
    match slot::<R>(raw, id) {
        Slot::Empty => is_not_found(r, missing_text(kind, id)),
        Slot::Holds(v) => r matches Ok(record) && record@ == v,
        Slot::Damaged => is_fault(r, Fault::CorruptRecord),
    }
}

/// Whether `after` and `r` are what replacing the record under `id` in
/// `before` by `change` of it gives: the changed record is stored and
/// returned; or nothing is stored and the error says why.
pub open spec fn replaced<R: Record>(
    before: Map<u64, Seq<u8>>,
    after: Map<u64, Seq<u8>>,
    id: u64,
    kind: Seq<char>,
    change: spec_fn(R::V) -> R::V,
    r: Result<R, Error>,
) -> bool {
    match slot::<R>(before, id) {
        Slot::Empty => after == before && is_not_found(r, missing_text(kind, id)),
        Slot::Damaged => after == before && is_fault(r, Fault::CorruptRecord),
        Slot::Holds(v) => if R::encoding(change(v)).len() <= MAX_RECORD_SIZE {
            &&& after == before.insert(id, R::encoding(change(v)))
            &&& r matches Ok(record) && record@ == change(v)
        } else {
            after == before && is_fault(r, Fault::RecordTooLarge)
        },
    }
}

/// Whether `after` and `r` are what removing the record under `id` from
/// `before` gives: the record is gone and returned; or nothing is removed
/// and the error says why.
pub open spec fn removed<R: Record>(
    before: Map<u64, Seq<u8>>,
    after: Map<u64, Seq<u8>>,
    id: u64,
    kind: Seq<char>,
    r: Result<R, Error>,
) -> bool {
    match slot::<R>(before, id) {
        Slot::Empty => after == before && is_not_found(r, missing_text(kind, id)),
        Slot::Damaged => after == before && is_fault(r, Fault::CorruptRecord),
        Slot::Holds(v) => {
            &&& after == before.remove(id)
            &&& r matches Ok(record) && record@ == v
        },
    }
}

/// Whether `r` is what listing `raw` gives where an empty list is an error
/// with the message `none`.
pub open spec fn listed_all<R: Record>(
    raw: Map<u64, Seq<u8>>,
    none: Seq<char>,
    r: Result<Vec<R>, Error>,
) -> bool {
    if !intact::<R>(raw) {
        is_fault(r, Fault::CorruptRecord)
    } else if vacant(raw) {
        is_not_found(r, none)
    } else {
        r matches Ok(all) && lists(all@, raw, any())
    }
}

/// The condition that every record satisfies.
pub open spec fn any<V>() -> spec_fn(V) -> bool {
    |v: V| true
}

/// An ordered map from identifiers to records of schema `R`, kept in stable
/// memory as encoded bytes.
pub struct Store<R: Record> {
    map: StableMap,
    schema: PhantomData<R>,
}

impl<R: Record> Store<R> {
    /// The bytes stored under each identifier.
    pub closed spec fn raw(&self) -> Map<u64, Seq<u8>> {
        map_contents(self.map)
    }

    /// The tag of the region that holds the store.
    pub closed spec fn tag(&self) -> u8 {
        map_region(self.map)
    }

    /// Opens the store that `region` holds. A region that holds none gets an
    /// empty store.
    pub(crate) fn open(region: Region) -> (store: Store<R>)
        ensures
            store.tag() == region_tag(region),
    {
        Store { map: open_map(region), schema: PhantomData }
    }

    /// Reads the store again from the memory it lives in. It holds what it
    /// held.
    pub(crate) fn reopen(self) -> (store: Store<R>)
        ensures
            store.raw() == self.raw(),
            store.tag() == self.tag(),
    {
        Store { map: reopen_map(self.map), schema: PhantomData }
    }

    /// Reads the record that `bytes`, stored under `id`, stand for; `None`
    /// where they are damaged.
    pub fn read(id: u64, bytes: &Vec<u8>) -> (r: Option<R>)
        ensures
            match r {
                Some(record) => reading::<R>(id, bytes@) == Some(record@),
                None => reading::<R>(id, bytes@) is None,
            },
    {
        if bytes.len() > MAX_RECORD_SIZE {
            return None;
        }
        match R::decode(bytes.as_slice()) {
            Some(record) => if record.id() == id {
                Some(record)
            } else {
                None
            },
            None => None,
        }
    }

    /// Looks up the record stored under `id`.
    pub fn get(&self, id: u64) -> (r: Result<Option<R>, Error>)
        ensures
            match slot::<R>(self.raw(), id) {
                Slot::Empty => r matches Ok(None),
                Slot::Holds(v) => r matches Ok(Some(record)) && record@ == v,
                Slot::Damaged => is_fault(r, Fault::CorruptRecord),
            },
    {
        Self::found(id, map_get(&self.map, id))
    }

    /// What a lookup under `id` returns once the map has given `stored`: no
    /// record where nothing is stored, the record that the bytes stand for,
    /// or the error that they are damaged.
    pub fn found(id: u64, stored: Option<Vec<u8>>) -> (r: Result<Option<R>, Error>)
        ensures
            match stored {
                None => r matches Ok(None),
                Some(bytes) => match reading::<R>(id, bytes@) {
                    Some(v) => r matches Ok(Some(record)) && record@ == v,
                    None => is_fault(r, Fault::CorruptRecord),
                },
            },
    {
        match stored {
            None => Ok(None),
            Some(bytes) => match Self::read(id, &bytes) {
                Some(record) => Ok(Some(record)),
                None => Err(Error::internal(Fault::CorruptRecord)),
            },
        }
    }

    /// Stores `record` under the identifier it carries, in place of what was
    /// stored there. A record whose encoding is too long is refused, and the
    /// store is left as it was.
    pub fn put(&mut self, record: &R) -> (r: Result<(), Error>)
        ensures
            final(self).tag() == old(self).tag(),
            if R::encoding(record@).len() <= MAX_RECORD_SIZE {
                r is Ok && final(self).raw() == old(self).raw().insert(
                    R::key(record@),
                    R::encoding(record@),
                )
            } else {
                &&& final(self).raw() == old(self).raw()
                &&& is_fault(r, Fault::RecordTooLarge)
            },
    {
        match record.encode() {
            Some(bytes) => {
                map_insert(&mut self.map, record.id(), bytes.as_slice());
                Ok(())
            },
            None => Err(Error::internal(Fault::RecordTooLarge)),
        }
    }

    /// Stores `bytes` under `id`, in place of what was stored there.
    pub(crate) fn insert_encoded(&mut self, id: u64, bytes: &Vec<u8>)
        requires
            bytes@.len() <= MAX_RECORD_SIZE,
        ensures
            final(self).raw() == old(self).raw().insert(id, bytes@),
            final(self).tag() == old(self).tag(),
    {
        map_insert(&mut self.map, id, bytes.as_slice());
    }

    /// Removes the record stored under `id` and returns it. Where what is
    /// stored there is damaged, it is left in place.
    pub fn remove(&mut self, id: u64) -> (r: Result<Option<R>, Error>)
        ensures
            final(self).tag() == old(self).tag(),
            match slot::<R>(old(self).raw(), id) {
                Slot::Empty => {
                    &&& final(self).raw() == old(self).raw()
                    &&& r matches Ok(None)
                },
                Slot::Holds(v) => {
                    &&& final(self).raw() == old(self).raw().remove(id)
                    &&& r matches Ok(Some(record)) && record@ == v
                },
                Slot::Damaged => {
                    &&& final(self).raw() == old(self).raw()
                    &&& is_fault(r, Fault::CorruptRecord)
                },
            },
    {
        let found = self.get(id)?;
        match found {
            Some(record) => {
                let _ = map_remove(&mut self.map, id);
                Ok(Some(record))
            },
            None => Ok(None),
        }
    }

    /// Returns the record stored under `id`; that none is stored is an error
    /// that names the kind of record, `kind`.
    pub fn fetch(&self, id: u64, kind: &str) -> (r: Result<R, Error>)
        ensures
            looked_up::<R>(self.raw(), id, kind@, r),
    {
        match self.get(id)? {
            Some(record) => Ok(record),
            None => Err(Error::not_found(missing_message(kind, id))),
        }
    }

    /// Removes the record stored under `id` and returns it; that none is
    /// stored is an error that names the kind of record, `kind`.
    pub fn discard(&mut self, id: u64, kind: &str) -> (r: Result<R, Error>)
        ensures
            final(self).tag() == old(self).tag(),
            removed::<R>(old(self).raw(), final(self).raw(), id, kind@, r),
    {
        match self.remove(id)? {
            Some(record) => Ok(record),
            None => Err(Error::not_found(missing_message(kind, id))),
        }
    }

    /// Lists every record, in ascending order of the identifiers; that none
    /// is stored is an error with the message `none`.
    pub fn list_all(&self, none: &str) -> (r: Result<Vec<R>, Error>)
        ensures
            listed_all::<R>(self.raw(), none@, r),
    {
        let all = self.iterate()?;
        proof {
            lemma_lists_nothing::<R>(all@, self.raw(), any());
            lemma_intact_vacant::<R>(self.raw());
        }
        if all.len() == 0 {
            Err(Error::not_found(String::from_str(none)))
        } else {
            Ok(all)
        }
    }

    /// Finds out whether every identifier under which a record is stored is
    /// one of the identifiers from 1 to `last`.
    pub fn all_within(&self, last: u64) -> (r: Result<bool, Error>)
        ensures
            if intact::<R>(self.raw()) {
                r matches Ok(b) && b == within(self.raw(), last)
            } else {
                is_fault(r, Fault::CorruptRecord)
            },
    {
        let all = self.iterate()?;
        let mut i: usize = 0;
        while i < all.len()
            invariant
                i <= all.len(),
                intact::<R>(self.raw()),
                lists(all@, self.raw(), any()),
                forall|j: int| 0 <= j < i ==> 0 < R::key((#[trigger] all[j])@) <= last,
            decreases all.len() - i,
        {
            let id = all[i].id();
            if id == 0 || id > last {
                assert(slot::<R>(self.raw(), R::key(all[i as int]@)) == Slot::Holds(all[i as int]@));
                assert(self.raw().contains_key(id));
                return Ok(false);
            }
            i += 1;
        }
        proof {
            assert forall|id: u64| #[trigger] self.raw().contains_key(id) implies 0 < id
                <= last by {
                assert(holds_kept::<R>(self.raw(), id, any()));
                let j = choose|j: int| 0 <= j < all.len() && R::key((#[trigger] all[j])@) == id;
                assert(0 < R::key(all[j]@) <= last);
            }
        }
        Ok(true)
    }

    /// Lists every record, in ascending order of the identifiers.
    pub fn iterate(&self) -> (r: Result<Vec<R>, Error>)
        ensures
            if intact::<R>(self.raw()) {
                r matches Ok(all) && lists(all@, self.raw(), any())
            } else {
                is_fault(r, Fault::CorruptRecord)
            },
    {
        let entries = map_entries(&self.map);
        let ghost raw = self.raw();
        let mut all: Vec<R> = Vec::new();
        let mut i: usize = 0;
        while i < entries.len()
            invariant
                i <= entries.len(),
                raw == self.raw(),
                lists_bytes(entries@, raw),
                all.len() == i,
                forall|j: int|
                    0 <= j < i ==> R::key((#[trigger] all[j])@) == entries[j].0 && slot::<R>(
                        raw,
                        entries[j].0,
                    ) == Slot::Holds(all[j]@),
            decreases entries.len() - i,
        {
            let key = entries[i].0;
            assert(raw.contains_key(entries[i as int].0) && raw[key] == entries[i as int].1@);
            match Self::read(key, &entries[i].1) {
                Some(record) => {
                    assert(slot::<R>(raw, key) == Slot::Holds(record@));
                    all.push(record);
                },
                None => {
                    assert(slot::<R>(raw, key) is Damaged);
                    return Err(Error::internal(Fault::CorruptRecord));
                },
            }
            i += 1;
        }
        proof {
            assert forall|id: u64| #[trigger] raw.contains_key(id) implies slot::<R>(raw, id)
                is Holds by {
                let j = choose|j: int| 0 <= j < entries.len() && (#[trigger] entries[j]).0 == id;
                assert(R::key(all[j]@) == entries[j].0);
            }
            assert forall|id: u64| #[trigger] holds_kept::<R>(raw, id, any()) implies exists|
                j: int,
            |
                0 <= j < all.len() && R::key((#[trigger] all[j])@) == id by {
                let j = choose|j: int| 0 <= j < entries.len() && (#[trigger] entries[j]).0 == id;
                assert(R::key(all[j]@) == id);
            }
            assert forall|a: int, b: int| 0 <= a < b < all.len() implies R::key(
                (#[trigger] all[a])@,
            ) < R::key((#[trigger] all[b])@) by {
                assert(entries[a].0 < entries[b].0);
            }
        }
        Ok(all)
    }
}

/// Keeps the records of `all` that are marked, in their order.
pub(crate) fn retain_marked<R: Record>(
    all: Vec<R>,
    marks: &Vec<bool>,
    Ghost(raw): Ghost<Map<u64, Seq<u8>>>,
    Ghost(keep): Ghost<spec_fn(R::V) -> bool>,
) -> (kept: Vec<R>)
    requires
        lists(all@, raw, any()),
        marks.len() == all.len(),
        forall|i: int| 0 <= i < all.len() ==> #[trigger] marks[i] == keep(all[i]@),
    ensures
        lists(kept@, raw, keep),
{
    let ghost whole = all@;
    let mut kept: Vec<R> = Vec::new();
    let ghost mut from: Seq<int> = Seq::empty();
    let mut i: usize = 0;
    for record in it: all
        invariant
            i == it.index(),
            it.seq() == whole,
            marks.len() == whole.len(),
            from.len() == kept.len(),
            forall|j: int|
                0 <= j < kept.len() ==> 0 <= #[trigger] from[j] < i && marks[from[j]] && kept[j]
                    == whole[from[j]],
            forall|a: int, b: int|
                0 <= a < b < kept.len() ==> #[trigger] from[a] < #[trigger] from[b],
            forall|k: int|
                0 <= k < i && #[trigger] marks[k] ==> exists|j: int|
                    0 <= j < kept.len() && #[trigger] from[j] == k,
    {
        let ghost before = from;
        if marks[i] {
            proof {
                from = from.push(i as int);
            }
            kept.push(record);
        }
        proof {
            assert forall|k: int| 0 <= k < i + 1 && #[trigger] marks[k] implies exists|j: int|
                0 <= j < kept.len() && #[trigger] from[j] == k by {
                if k < i {
                    let j = choose|j: int| 0 <= j < before.len() && #[trigger] before[j] == k;
                    assert(from[j] == k);
                } else {
                    assert(from[kept.len() - 1] == k);
                }
            }
        }
        i += 1;
    }
    proof {
        assert forall|a: int, b: int| 0 <= a < b < kept.len() implies R::key(
            (#[trigger] kept[a])@,
        ) < R::key((#[trigger] kept[b])@) by {
            assert(from[a] < from[b]);
            assert(R::key(whole[from[a]]@) < R::key(whole[from[b]]@));
        }
        assert forall|j: int| 0 <= j < kept.len() implies slot::<R>(
            raw,
            R::key((#[trigger] kept[j])@),
        ) == Slot::Holds(kept[j]@) && keep(kept[j]@) by {
            let k = from[j];
            assert(marks[k] == keep(whole[k]@));
        }
        assert forall|id: u64| #[trigger] holds_kept::<R>(raw, id, keep) implies exists|j: int|
            0 <= j < kept.len() && R::key((#[trigger] kept[j])@) == id by {
            assert(holds_kept::<R>(raw, id, any()));
            let k = choose|k: int| 0 <= k < whole.len() && R::key((#[trigger] whole[k])@) == id;
            assert(marks[k] == keep(whole[k]@));
            let j = choose|j: int| 0 <= j < kept.len() && #[trigger] from[j] == k;
            assert(R::key(kept[j]@) == id);
        }
    }
    kept
}

} // verus!
