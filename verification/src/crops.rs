//! The operations on crops.

use vstd::prelude::*;
use vstd::string::*;
use crate::codec::MAX_RECORD_SIZE;
use crate::crop::{Crop, CropPayload, CropView};
use crate::error::{is_fault, is_not_found, Error, Fault};
use crate::farm::{Farm, FarmView};
use crate::ids::following;
use crate::record::Record;
use crate::store::{
    intact, lemma_lists_nothing, listed_all, lists, looked_up, none_kept, replaced, retain_marked,
    slot, Slot,
};
use crate::text::{
    contains, decimal, decimal_string, lowercase, lowercased, missing_message, missing_text,
    occurs_in,
};

verus! {

/// The crop that is created under `id` at the time `now` from `payload`.
pub open spec fn new_crop(id: u64, payload: CropPayload, now: u64) -> CropView {
    CropView {
        id,
        name: payload.name@,
        description: payload.description@,
        quantity: payload.quantity,
        created_at: now,
        updated_at: None,
    }
}

/// The crop `v` after an update with `payload` at the time `now`.
pub open spec fn updated_crop(v: CropView, payload: CropPayload, now: u64) -> CropView {
    CropView {
        name: payload.name@,
        description: payload.description@,
        quantity: payload.quantity,
        updated_at: Some(now),
        ..v
    }
}

/// Whether a crop is one that a search asks for, given its name and the
/// search text in lower case.
pub open spec fn matching(
    name_lower: Seq<char>,
    query_lower: Seq<char>,
    quantity: u32,
    created_at: u64,
    min_quantity: Option<u32>,
    date_range: Option<(u64, u64)>,
) -> bool {
    &&& occurs_in(query_lower, name_lower)
    &&& min_quantity matches Some(min) ==> quantity >= min
    &&& date_range matches Some(range) ==> range.0 <= created_at <= range.1
}

/// The condition that a search puts on crops.
pub open spec fn crop_query(
    query: Seq<char>,
    min_quantity: Option<u32>,
    date_range: Option<(u64, u64)>,
) -> spec_fn(CropView) -> bool {
    |v: CropView|
        matching(
            lowercased(v.name),
            lowercased(query),
            v.quantity,
            v.created_at,
            min_quantity,
            date_range,
        )
}

/// How an optional time is written in a report.
pub open spec fn optional_text(t: Option<u64>) -> Seq<char> {
    match t {
        Some(at) => "Some("@ + decimal(at as nat) + ")"@,
        None => "None"@,
    }
}

/// The report on a crop.
pub open spec fn report_text(v: CropView) -> Seq<char> {
    "Crop ID: "@ + decimal(v.id as nat) + "\nName: "@ + v.name + "\nDescription: "@ + v.description
        + "\nQuantity: "@ + decimal(v.quantity as nat) + "\nCreated At: "@ + decimal(
        v.created_at as nat,
    ) + "\nUpdated At: "@ + optional_text(v.updated_at)
}

/// Whether `after` and `r` are what creating a crop from `payload` at the
/// time `now` in the state `before` gives.
///
/// Where every identifier has been issued, or the crop is too large, the
/// state stays and the error says which. Otherwise either the crop is
/// stored under the identifier after the one issued last, which is thereby
/// issued, and returned; or the counter could not be saved, and the state
/// stays.
pub open spec fn crop_creation(
    before: FarmView,
    after: FarmView,
    payload: CropPayload,
    now: u64,
    r: Result<Crop, Error>,
) -> bool {
    let created = new_crop((before.last_id + 1) as u64, payload, now);
    if before.last_id == u64::MAX {
        after == before && is_fault(r, Fault::IdsExhausted)
    } else if Crop::encoding(created).len() > MAX_RECORD_SIZE {
        after == before && is_fault(r, Fault::RecordTooLarge)
    } else {
        match r {
            Ok(crop) => {
                &&& crop@ == created
                &&& before.issues(after, crop.id)
                &&& after == (FarmView {
                    last_id: created.id,
                    crops: before.crops.insert(created.id, Crop::encoding(created)),
                    ..before
                })
            },
            Err(_) => after == before && is_fault(r, Fault::CounterNotSaved),
        }
    }
}

/// Looks up the crop stored under `id`.
pub fn _get_crop(farm: &Farm, id: &u64) -> (r: Result<Option<Crop>, Error>)
    ensures
        match slot::<Crop>(farm@.crops, *id) {
            Slot::Empty => r matches Ok(None),
            Slot::Holds(v) => r matches Ok(Some(crop)) && crop@ == v,
            Slot::Damaged => is_fault(r, Fault::CorruptRecord),
        },
{
    farm.crops.get(*id)
}

/// Returns the crop stored under `id`.
pub fn get_crop(farm: &Farm, id: u64) -> (r: Result<Crop, Error>)
    ensures
        looked_up::<Crop>(farm@.crops, id, "Crop"@, r),
{
    farm.crops.fetch(id, "Crop")
}

/// Lists every crop, in ascending order of the identifiers. That there is no
/// crop is reported as an error.
pub fn get_all_crops(farm: &Farm) -> (r: Result<Vec<Crop>, Error>)
    ensures
        listed_all::<Crop>(farm@.crops, "No crops found."@, r),
{
    farm.crops.list_all("No crops found.")
}

/// Stores `crop` under the identifier it carries, in place of what was
/// stored there. No identifier is issued, and nothing asks that the
/// identifier of the crop has been issued.
pub fn do_insert(farm: &mut Farm, crop: &Crop) -> (r: Result<(), Error>)
    ensures
        if Crop::encoding(crop@).len() <= MAX_RECORD_SIZE {
            &&& r is Ok
            &&& final(farm)@ == (FarmView {
                crops: old(farm)@.crops.insert(crop.id, Crop::encoding(crop@)),
                ..old(farm)@
            })
        } else {
            &&& final(farm)@ == old(farm)@
            &&& is_fault(r, Fault::RecordTooLarge)
        },
{
    farm.crops.put(crop)
}

/// Creates a crop from `payload` at the time `now`, under the identifier
/// after the one issued last.
pub fn create_crop(farm: &mut Farm, payload: CropPayload, now: u64) -> (r: Result<Crop, Error>)
    ensures
        crop_creation(old(farm)@, final(farm)@, payload, now, r),
{
    let next = following(farm.ids.current())?;
    let crop = Crop {
        id: next,
        name: payload.name,
        description: payload.description,
        quantity: payload.quantity,
        created_at: now,
        updated_at: None,
    };
    let bytes = match crop.encode() {
        Some(bytes) => bytes,
        None => { return Err(Error::internal(Fault::RecordTooLarge)); },
    };
    let id = farm.ids.next_id()?;
    farm.crops.insert_encoded(id, &bytes);
    Ok(crop)
}

/// Replaces the name, the description and the quantity of the crop stored
/// under `id` by those of `payload`, and notes `now` as the time of its
/// last update. The identifier and the time of creation stay. No identifier
/// is issued.
pub fn update_crop(farm: &mut Farm, id: u64, payload: CropPayload, now: u64) -> (r: Result<
    Crop,
    Error,
>)
    ensures
        final(farm)@ == (FarmView { crops: final(farm)@.crops, ..old(farm)@ }),
        replaced::<Crop>(
            old(farm)@.crops,
            final(farm)@.crops,
            id,
            "Crop"@,
            |v: CropView| updated_crop(v, payload, now),
            r,
        ),
{
    let mut crop = farm.crops.fetch(id, "Crop")?;
    crop.name = payload.name;
    crop.description = payload.description;
    crop.quantity = payload.quantity;
    crop.updated_at = Some(now);
    farm.crops.put(&crop)?;
    Ok(crop)
}

/// Writes an optional time as a report shows it.
fn optional_string(t: Option<u64>) -> (s: String)
    ensures
        s@ == optional_text(t),
{
    match t {
        Some(at) => {
            let mut s = String::from_str("Some(");
            s.append(decimal_string(at).as_str());
            s.append(")");
            s
        },
        None => String::from_str("None"),
    }
}

/// Writes the report on the crop stored under `id`.
pub fn generate_crop_report(farm: &Farm, id: u64) -> (r: Result<String, Error>)
    ensures
        match slot::<Crop>(farm@.crops, id) {
            Slot::Empty => is_not_found(r, missing_text("Crop"@, id)),
            Slot::Holds(v) => r matches Ok(report) && report@ == report_text(v),
            Slot::Damaged => is_fault(r, Fault::CorruptRecord),
        },
{
    match _get_crop(farm, &id)? {
        Some(crop) => {
            let mut s = String::from_str("Crop ID: ");
            s.append(decimal_string(crop.id).as_str());
            s.append("\nName: ");
            s.append(crop.name.as_str());
            s.append("\nDescription: ");
            s.append(crop.description.as_str());
            s.append("\nQuantity: ");
            s.append(decimal_string(crop.quantity as u64).as_str());
            s.append("\nCreated At: ");
            s.append(decimal_string(crop.created_at).as_str());
            s.append("\nUpdated At: ");
            s.append(optional_string(crop.updated_at).as_str());
            Ok(s)
        },
        None => Err(Error::not_found(missing_message("Crop", id))),
    }
}

/// The yield predicted for the crop stored under `crop_id`: twice its
/// quantity.
pub fn predict_crop_yield(farm: &Farm, crop_id: u64) -> (r: Result<u64, Error>)
    ensures
        match slot::<Crop>(farm@.crops, crop_id) {
            Slot::Empty => is_not_found(r, missing_text("Crop"@, crop_id)),
            Slot::Holds(v) => r matches Ok(predicted) && predicted == 2 * v.quantity,
            Slot::Damaged => is_fault(r, Fault::CorruptRecord),
        },
{
    match _get_crop(farm, &crop_id)? {
        Some(crop) => {
            let quantity: u64 = crop.quantity as u64;
            Ok(quantity * 2)
        },
        None => Err(Error::not_found(missing_message("Crop", crop_id))),
    }
}

/// Decides whether a crop is one that a search asks for, given its name and
/// the search text in lower case.
pub fn crop_matches(
    name_lower: &str,
    query_lower: &str,
    quantity: u32,
    created_at: u64,
    min_quantity: Option<u32>,
    date_range: Option<(u64, u64)>,
) -> (b: bool)
    ensures
        b == matching(
            name_lower@,
            query_lower@,
            quantity,
            created_at,
            min_quantity,
            date_range,
        ),
{
    let enough = match min_quantity {
        Some(min) => quantity >= min,
        None => true,
    };
    let in_range = match date_range {
        Some(range) => range.0 <= created_at && created_at <= range.1,
        None => true,
    };
    contains(name_lower, query_lower) && enough && in_range
}

/// Lists the crops whose name contains `query`, both taken in lower case,
/// whose quantity is at least `min_quantity` and which were created within
/// `date_range`, its ends included, in ascending order of the identifiers.
/// A condition that is not given holds of every crop. That no crop matches
/// is reported as an error.
pub fn search_crops(
    farm: &Farm,
    query: String,
    min_quantity: Option<u32>,
    date_range: Option<(u64, u64)>,
) -> (r: Result<Vec<Crop>, Error>)
    ensures
        ({
            let keep = crop_query(query@, min_quantity, date_range);
            if !intact::<Crop>(farm@.crops) {
                is_fault(r, Fault::CorruptRecord)
            } else if none_kept::<Crop>(farm@.crops, keep) {
                is_not_found(r, "No matching crops found."@)
            } else {
                r matches Ok(found) && lists(found@, farm@.crops, keep)
            }
        }),
{
    let ghost keep = crop_query(query@, min_quantity, date_range);
    let all = farm.crops.iterate()?;
    let query_lower = lowercase(query.as_str());
    let mut marks: Vec<bool> = Vec::new();
    let mut i: usize = 0;
    while i < all.len()
        invariant
            i <= all.len(),
            marks.len() == i,
            query_lower@ == lowercased(query@),
            keep == crop_query(query@, min_quantity, date_range),
            forall|j: int| 0 <= j < i ==> #[trigger] marks[j] == keep(all[j]@),
        decreases all.len() - i,
    {
        let name_lower = lowercase(all[i].name.as_str());
        let mark = crop_matches(
            name_lower.as_str(),
            query_lower.as_str(),
            all[i].quantity,
            all[i].created_at,
            min_quantity,
            date_range,
        );
        marks.push(mark);
        i += 1;
    }
    let found = retain_marked(all, &marks, Ghost(farm@.crops), Ghost(keep));
    proof {
        lemma_lists_nothing::<Crop>(found@, farm@.crops, keep);
    }
    if found.len() == 0 {
        Err(Error::not_found(String::from_str("No matching crops found.")))
    } else {
        Ok(found)
    }
}

} // verus!
