use smart_farm_backend::crop::{Crop, CropPayload};
use smart_farm_backend::crops::{
    _get_crop, create_crop, crop_matches, do_insert, generate_crop_report, get_all_crops,
    get_crop, predict_crop_yield, search_crops, update_crop,
};
use smart_farm_backend::error::{Error, Fault};
use smart_farm_backend::farm::Farm;

fn fresh() -> Farm {
    Farm::init().unwrap()
}

fn payload(name: &str, description: &str, quantity: u32) -> CropPayload {
    CropPayload { name: name.to_string(), description: description.to_string(), quantity }
}

fn not_found(msg: &str) -> Error {
    Error::NotFound { msg: msg.to_string() }
}

#[test]
fn first_crops_get_ids_one_and_two() {
    let mut farm = fresh();
    let wheat = create_crop(&mut farm, payload("Wheat", "", 100), 7).unwrap();
    assert_eq!(wheat.id, 1);
    assert_eq!(wheat.name, "Wheat");
    assert_eq!(wheat.quantity, 100);
    assert_eq!(wheat.created_at, 7);
    assert_eq!(wheat.updated_at, None);
    let corn = create_crop(&mut farm, payload("Corn", "", 50), 8).unwrap();
    assert_eq!(corn.id, 2);
    assert_eq!(corn.quantity, 50);
    assert_eq!(farm.last_id(), 2);
}

#[test]
fn created_crop_is_found_as_returned() {
    let mut farm = fresh();
    let made = create_crop(&mut farm, payload("Barley", "spring barley, field 3", 12), 1000)
        .unwrap();
    assert_eq!(get_crop(&farm, made.id), Ok(made.clone()));
    assert_eq!(_get_crop(&farm, &made.id), Ok(Some(made)));
}

#[test]
fn crop_with_text_outside_ascii_is_found_as_returned() {
    let mut farm = fresh();
    let made = create_crop(&mut farm, payload("Blé dur 🌾", "champ n°4 — été", 3), 5).unwrap();
    assert_eq!(get_crop(&farm, made.id), Ok(made));
}

#[test]
fn missing_crop_is_not_found() {
    let farm = fresh();
    assert_eq!(get_crop(&farm, 42), Err(not_found("Crop with id=42 not found.")));
    assert_eq!(_get_crop(&farm, &42), Ok(None));
    assert_eq!(
        get_crop(&farm, u64::MAX),
        Err(not_found("Crop with id=18446744073709551615 not found."))
    );
    assert_eq!(get_crop(&farm, 0), Err(not_found("Crop with id=0 not found.")));
}

#[test]
fn no_crops_is_reported_as_not_found() {
    let farm = fresh();
    assert_eq!(get_all_crops(&farm), Err(not_found("No crops found.")));
}

#[test]
fn all_crops_come_in_ascending_order_of_ids() {
    let mut farm = fresh();
    let a = create_crop(&mut farm, payload("a", "", 1), 1).unwrap();
    let b = create_crop(&mut farm, payload("b", "", 2), 2).unwrap();
    let c = create_crop(&mut farm, payload("c", "", 3), 3).unwrap();
    assert_eq!(get_all_crops(&farm), Ok(vec![a, b, c]));
}

#[test]
fn many_crops_come_in_ascending_order_of_ids() {
    let mut farm = fresh();
    for i in 0..300u32 {
        create_crop(&mut farm, payload("crop", "", i), u64::from(i)).unwrap();
    }
    let all = get_all_crops(&farm).unwrap();
    assert_eq!(all.len(), 300);
    for (i, crop) in all.iter().enumerate() {
        assert_eq!(crop.id, i as u64 + 1);
        assert_eq!(crop.quantity, i as u32);
    }
}

#[test]
fn update_crop_keeps_id_and_creation_time() {
    let mut farm = fresh();
    let made = create_crop(&mut farm, payload("Wheat", "old", 100), 10).unwrap();
    let updated = update_crop(&mut farm, made.id, payload("Winter wheat", "new", 80), 20).unwrap();
    assert_eq!(
        updated,
        Crop {
            id: made.id,
            name: "Winter wheat".to_string(),
            description: "new".to_string(),
            quantity: 80,
            created_at: 10,
            updated_at: Some(20),
        }
    );
    assert_eq!(get_crop(&farm, made.id), Ok(updated));
    assert_eq!(farm.last_id(), 1);
}

#[test]
fn update_of_missing_crop_is_not_found() {
    let mut farm = fresh();
    assert_eq!(
        update_crop(&mut farm, 5, payload("x", "y", 1), 1),
        Err(not_found("Crop with id=5 not found."))
    );
    assert_eq!(get_all_crops(&farm), Err(not_found("No crops found.")));
}

#[test]
fn crop_that_is_too_large_is_refused_without_effect() {
    let mut farm = fresh();
    let long = "x".repeat(2000);
    assert_eq!(
        create_crop(&mut farm, payload(&long, "", 1), 1),
        Err(Error::Internal { fault: Fault::RecordTooLarge })
    );
    assert_eq!(farm.last_id(), 0);
    assert_eq!(get_all_crops(&farm), Err(not_found("No crops found.")));
    let made = create_crop(&mut farm, payload("ok", "", 1), 1).unwrap();
    assert_eq!(made.id, 1);
    assert_eq!(
        update_crop(&mut farm, 1, payload("ok", &long, 1), 2),
        Err(Error::Internal { fault: Fault::RecordTooLarge })
    );
    assert_eq!(get_crop(&farm, 1), Ok(made));
}

#[test]
fn crop_of_exactly_the_largest_size_is_stored() {
    let mut farm = fresh();
    // 8 + (4 + n) + (4 + 0) + 4 + 8 + 1 = 29 + n bytes
    let name = "n".repeat(1024 - 29);
    let made = create_crop(&mut farm, payload(&name, "", 1), 1).unwrap();
    assert_eq!(get_crop(&farm, made.id), Ok(made));
    let one_more = "n".repeat(1024 - 28);
    assert_eq!(
        create_crop(&mut farm, payload(&one_more, "", 1), 1),
        Err(Error::Internal { fault: Fault::RecordTooLarge })
    );
    // an update adds eight bytes for its time
    assert_eq!(
        update_crop(&mut farm, 1, payload(&name, "", 1), 2),
        Err(Error::Internal { fault: Fault::RecordTooLarge })
    );
}

#[test]
fn do_insert_stores_under_the_crops_own_id() {
    let mut farm = fresh();
    let crop = Crop {
        id: 77,
        name: "Rye".to_string(),
        description: "".to_string(),
        quantity: 9,
        created_at: 3,
        updated_at: Some(4),
    };
    assert_eq!(do_insert(&mut farm, &crop), Ok(()));
    assert_eq!(get_crop(&farm, 77), Ok(crop.clone()));
    let replaced = Crop { quantity: 10, ..crop };
    assert_eq!(do_insert(&mut farm, &replaced), Ok(()));
    assert_eq!(get_all_crops(&farm), Ok(vec![replaced]));
    assert_eq!(farm.last_id(), 0);
}

#[test]
fn report_shows_every_field() {
    let mut farm = fresh();
    let made = create_crop(&mut farm, payload("Wheat", "north field", 100), 1234).unwrap();
    assert_eq!(
        generate_crop_report(&farm, made.id),
        Ok("Crop ID: 1\nName: Wheat\nDescription: north field\nQuantity: 100\nCreated At: 1234\nUpdated At: None"
            .to_string())
    );
    update_crop(&mut farm, made.id, payload("Wheat", "north field", 90), 5678).unwrap();
    assert_eq!(
        generate_crop_report(&farm, made.id),
        Ok("Crop ID: 1\nName: Wheat\nDescription: north field\nQuantity: 90\nCreated At: 1234\nUpdated At: Some(5678)"
            .to_string())
    );
    assert_eq!(generate_crop_report(&farm, 9), Err(not_found("Crop with id=9 not found.")));
}

#[test]
fn predicted_yield_is_twice_the_quantity() {
    let mut farm = fresh();
    create_crop(&mut farm, payload("Wheat", "", 100), 1).unwrap();
    create_crop(&mut farm, payload("Corn", "", u32::MAX), 1).unwrap();
    create_crop(&mut farm, payload("Oats", "", 0), 1).unwrap();
    assert_eq!(predict_crop_yield(&farm, 1), Ok(200));
    assert_eq!(predict_crop_yield(&farm, 2), Ok(8589934590));
    assert_eq!(predict_crop_yield(&farm, 3), Ok(0));
    assert_eq!(predict_crop_yield(&farm, 4), Err(not_found("Crop with id=4 not found.")));
}

#[test]
fn search_ignores_case() {
    let mut farm = fresh();
    let field = create_crop(&mut farm, payload("Wheat Field", "", 10), 1).unwrap();
    create_crop(&mut farm, payload("Corn", "", 10), 2).unwrap();
    assert_eq!(search_crops(&farm, "WHEAT".to_string(), None, None), Ok(vec![field.clone()]));
    assert_eq!(search_crops(&farm, "t f".to_string(), None, None), Ok(vec![field]));
}

#[test]
fn search_with_empty_text_finds_every_crop() {
    let mut farm = fresh();
    let a = create_crop(&mut farm, payload("Wheat", "", 10), 1).unwrap();
    let b = create_crop(&mut farm, payload("", "", 10), 2).unwrap();
    assert_eq!(search_crops(&farm, "".to_string(), None, None), Ok(vec![a, b]));
}

#[test]
fn search_applies_quantity_and_dates() {
    let mut farm = fresh();
    let a = create_crop(&mut farm, payload("wheat a", "", 10), 100).unwrap();
    let b = create_crop(&mut farm, payload("wheat b", "", 20), 200).unwrap();
    let c = create_crop(&mut farm, payload("wheat c", "", 30), 300).unwrap();
    create_crop(&mut farm, payload("corn", "", 40), 200).unwrap();
    let q = || "wheat".to_string();
    assert_eq!(search_crops(&farm, q(), Some(20), None), Ok(vec![b.clone(), c.clone()]));
    assert_eq!(search_crops(&farm, q(), None, Some((100, 200))), Ok(vec![a.clone(), b.clone()]));
    assert_eq!(search_crops(&farm, q(), Some(11), Some((0, 299))), Ok(vec![b.clone()]));
    assert_eq!(search_crops(&farm, q(), Some(10), Some((300, 300))), Ok(vec![c.clone()]));
    assert_eq!(search_crops(&farm, q(), None, Some((201, 299))), Err(not_found("No matching crops found.")));
    assert_eq!(search_crops(&farm, q(), Some(31), None), Err(not_found("No matching crops found.")));
    assert_eq!(search_crops(&farm, q(), None, Some((200, 100))), Err(not_found("No matching crops found.")));
    assert_eq!(search_crops(&farm, q(), None, None), Ok(vec![a, b, c]));
}

#[test]
fn search_without_match_is_not_found() {
    let mut farm = fresh();
    assert_eq!(
        search_crops(&farm, "".to_string(), None, None),
        Err(not_found("No matching crops found."))
    );
    create_crop(&mut farm, payload("Corn", "wheat in the description only", 10), 2).unwrap();
    assert_eq!(
        search_crops(&farm, "wheat".to_string(), None, None),
        Err(not_found("No matching crops found."))
    );
}

#[test]
fn crop_matches_decides_on_lower_case_texts() {
    assert!(crop_matches("wheat field", "wheat", 1, 1, None, None));
    assert!(crop_matches("wheat field", "", 1, 1, None, None));
    assert!(crop_matches("wheat field", "field", 1, 1, None, None));
    assert!(crop_matches("wheat field", "wheat field", 1, 1, None, None));
    assert!(!crop_matches("wheat field", "wheat fields", 1, 1, None, None));
    assert!(!crop_matches("wheat field", "WHEAT", 1, 1, None, None));
    assert!(!crop_matches("", "w", 1, 1, None, None));
    assert!(crop_matches("wheat", "wheat", 5, 1, Some(5), None));
    assert!(!crop_matches("wheat", "wheat", 4, 1, Some(5), None));
    assert!(crop_matches("wheat", "wheat", 5, 10, None, Some((10, 10))));
    assert!(!crop_matches("wheat", "wheat", 5, 9, None, Some((10, 20))));
    assert!(!crop_matches("wheat", "wheat", 5, 21, None, Some((10, 20))));
    assert!(!crop_matches("wheat", "wheat", 5, 15, Some(6), Some((10, 20))));
}
