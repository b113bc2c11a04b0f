use smart_farm_backend::crop::{Crop, CropPayload};
use smart_farm_backend::crops::{create_crop, do_insert, get_all_crops, get_crop, update_crop};
use smart_farm_backend::error::{Error, Fault};
use smart_farm_backend::expense::{Expense, ExpensePayload};
use smart_farm_backend::expenses::{create_expense, delete_expense, get_all_expenses, get_expense};
use smart_farm_backend::farm::{Farm, COUNTER_REGION, CROP_REGION, EXPENSE_REGION, TASK_REGION};
use smart_farm_backend::ids::following;
use smart_farm_backend::record::Record;
use smart_farm_backend::reports::crop_expenses;
use smart_farm_backend::store::Store;
use smart_farm_backend::task::{Task, TaskPayload};
use smart_farm_backend::tasks::{
    auto_assign_tasks, complete_task, create_task, delete_task, get_all_tasks, get_task,
};

fn crop(name: &str) -> CropPayload {
    CropPayload { name: name.to_string(), description: "d".to_string(), quantity: 5 }
}

fn corrupt() -> Error {
    Error::Internal { fault: Fault::CorruptRecord }
}

fn stray() -> Crop {
    Crop {
        id: 9,
        name: "stray".to_string(),
        description: String::new(),
        quantity: 1,
        created_at: 1,
        updated_at: None,
    }
}

#[test]
fn regions_have_fixed_tags() {
    assert_eq!((COUNTER_REGION, CROP_REGION, TASK_REGION, EXPENSE_REGION), (0, 1, 2, 3));
}

#[test]
fn fresh_farm_is_empty() {
    let farm = Farm::init().unwrap();
    assert_eq!(farm.last_id(), 0);
    assert!(get_all_crops(&farm).is_err());
    assert!(get_all_tasks(&farm).is_err());
    assert!(get_all_expenses(&farm).is_err());
}

#[test]
fn farms_of_one_program_do_not_share_their_memory() {
    let mut first = Farm::init().unwrap();
    let mut second = Farm::init().unwrap();
    let a = create_crop(&mut first, crop("a"), 1).unwrap();
    assert_eq!(second.last_id(), 0);
    assert!(get_all_crops(&second).is_err());
    let b = create_crop(&mut second, crop("b"), 2).unwrap();
    assert_eq!((a.id, b.id), (1, 1));
    assert_eq!(get_crop(&first, 1), Ok(a));
    assert_eq!(get_crop(&second, 1), Ok(b));
}

#[test]
fn restart_of_an_empty_farm_gives_an_empty_farm() {
    let farm = Farm::init().unwrap().restart().unwrap();
    assert_eq!(farm.last_id(), 0);
    assert!(get_all_crops(&farm).is_err());
    assert!(get_all_tasks(&farm).is_err());
    assert!(get_all_expenses(&farm).is_err());
}

#[test]
fn records_and_counter_survive_a_restart() {
    let mut farm = Farm::init().unwrap();
    let wheat = create_crop(&mut farm, crop("wheat"), 10).unwrap();
    let corn = create_crop(&mut farm, crop("corn"), 11).unwrap();
    let task = create_task(
        &mut farm,
        TaskPayload { name: "t".into(), description: "".into(), crop_id: corn.id },
        12,
    )
    .unwrap();
    let expense = create_expense(
        &mut farm,
        ExpensePayload { description: "e".into(), amount: 2.5f64.to_bits(), crop_id: Some(1) },
        13,
    )
    .unwrap();
    let gone = create_expense(
        &mut farm,
        ExpensePayload { description: "gone".into(), amount: 0, crop_id: None },
        14,
    )
    .unwrap();
    delete_expense(&mut farm, gone.id).unwrap();
    let task = complete_task(&mut farm, task.id).unwrap();
    let corn = update_crop(&mut farm, corn.id, crop("maize"), 15).unwrap();

    let mut farm = farm.restart().unwrap();
    assert_eq!(farm.last_id(), 5);
    assert_eq!(get_all_crops(&farm), Ok(vec![wheat, corn]));
    assert_eq!(get_all_tasks(&farm), Ok(vec![task]));
    assert_eq!(get_all_expenses(&farm), Ok(vec![expense.clone()]));
    assert_eq!(crop_expenses(&farm, 1), Ok(vec![expense]));
    assert_eq!(
        get_expense(&farm, gone.id),
        Err(Error::NotFound { msg: "Expense with id=5 not found.".into() })
    );
    let next = create_crop(&mut farm, crop("rye"), 20).unwrap();
    assert_eq!(next.id, 6);

    let mut farm = farm.restart().unwrap().restart().unwrap();
    assert_eq!(farm.last_id(), 6);
    assert_eq!(get_crop(&farm, 6), Ok(next));
    let watered = auto_assign_tasks(&mut farm, 30).unwrap();
    assert_eq!(watered.len(), 1);
    assert_eq!((watered[0].id, watered[0].crop_id), (7, 1));
}

#[test]
fn many_records_survive_a_restart() {
    let mut farm = Farm::init().unwrap();
    for i in 0..200u32 {
        create_crop(&mut farm, crop("c"), u64::from(i)).unwrap();
        create_task(
            &mut farm,
            TaskPayload { name: "t".into(), description: "".into(), crop_id: u64::from(i) },
            u64::from(i),
        )
        .unwrap();
    }
    let before_crops = get_all_crops(&farm).unwrap();
    let before_tasks = get_all_tasks(&farm).unwrap();
    let farm = farm.restart().unwrap();
    assert_eq!(farm.last_id(), 400);
    assert_eq!(get_all_crops(&farm), Ok(before_crops));
    assert_eq!(get_all_tasks(&farm), Ok(before_tasks));
}

#[test]
fn stores_do_not_share_their_records() {
    let mut farm = Farm::init().unwrap();
    let made = create_crop(&mut farm, crop("wheat"), 1).unwrap();
    assert_eq!(
        get_task(&farm, made.id),
        Err(Error::NotFound { msg: "Task with id=1 not found.".into() })
    );
    assert_eq!(
        get_expense(&farm, made.id),
        Err(Error::NotFound { msg: "Expense with id=1 not found.".into() })
    );
    assert_eq!(
        delete_task(&mut farm, made.id),
        Err(Error::NotFound { msg: "Task with id=1 not found.".into() })
    );
    assert_eq!(get_crop(&farm, made.id), Ok(made));
    assert_eq!(farm.last_id(), 1);
}

#[test]
fn bytes_that_are_no_record_are_reported_as_corrupt() {
    assert_eq!(Store::<Crop>::found(5, Some(vec![1, 2, 3])), Err(corrupt()));
    assert_eq!(Store::<Crop>::found(5, Some(vec![])), Err(corrupt()));
    assert_eq!(Store::<Task>::found(3, Some(vec![0; 10])), Err(corrupt()));
    assert_eq!(Store::<Expense>::found(3, Some(stray().encode().unwrap())), Err(corrupt()));
    assert_eq!(Store::<Crop>::read(5, &vec![1, 2, 3]), None);
}

#[test]
fn record_under_another_identifier_is_reported_as_corrupt() {
    let bytes = stray().encode().unwrap();
    assert_eq!(Store::<Crop>::found(5, Some(bytes.clone())), Err(corrupt()));
    assert_eq!(Store::<Crop>::found(9, Some(bytes.clone())), Ok(Some(stray())));
    assert_eq!(Store::<Crop>::read(5, &bytes), None);
    assert_eq!(Store::<Crop>::read(9, &bytes), Some(stray()));
}

#[test]
fn bytes_that_are_too_many_for_a_record_are_reported_as_corrupt() {
    let mut bytes = stray().encode().unwrap();
    assert_eq!(Store::<Crop>::read(9, &bytes), Some(stray()));
    bytes.resize(1025, 0);
    assert_eq!(Store::<Crop>::read(9, &bytes), None);
    assert_eq!(Store::<Crop>::found(9, Some(bytes)), Err(corrupt()));
}

#[test]
fn nothing_stored_is_no_record() {
    assert_eq!(Store::<Crop>::found(5, None), Ok(None));
    assert_eq!(Store::<Task>::found(0, None), Ok(None));
}

#[test]
fn no_identifier_follows_the_largest() {
    assert_eq!(following(0), Ok(1));
    assert_eq!(following(41), Ok(42));
    assert_eq!(following(u64::MAX - 1), Ok(u64::MAX));
    assert_eq!(following(u64::MAX), Err(Error::Internal { fault: Fault::IdsExhausted }));
}

#[test]
fn store_keeps_records_in_order_of_identifiers() {
    let mut farm = Farm::init().unwrap();
    let a = create_task(
        &mut farm,
        TaskPayload { name: "a".into(), description: "".into(), crop_id: 1 },
        1,
    )
    .unwrap();
    let b = create_task(
        &mut farm,
        TaskPayload { name: "b".into(), description: "".into(), crop_id: 1 },
        2,
    )
    .unwrap();
    let c: Task = create_task(
        &mut farm,
        TaskPayload { name: "c".into(), description: "".into(), crop_id: 1 },
        3,
    )
    .unwrap();
    delete_task(&mut farm, b.id).unwrap();
    assert_eq!(get_all_tasks(&farm), Ok(vec![a.clone(), c.clone()]));
    let farm = farm.restart().unwrap();
    assert_eq!(get_all_tasks(&farm), Ok(vec![a, c]));
}

#[test]
fn farm_used_through_creations_holds_only_issued_identifiers() {
    let mut farm = Farm::init().unwrap();
    assert_eq!(farm.holds_only_issued(), Ok(true));
    let a = create_crop(&mut farm, crop("wheat"), 1).unwrap();
    create_task(
        &mut farm,
        TaskPayload { name: "t".into(), description: "".into(), crop_id: a.id },
        2,
    )
    .unwrap();
    auto_assign_tasks(&mut farm, 3).unwrap();
    delete_task(&mut farm, 2).unwrap();
    update_crop(&mut farm, a.id, crop("wheat"), 4).unwrap();
    assert_eq!(farm.holds_only_issued(), Ok(true));
    let farm = farm.restart().unwrap();
    assert_eq!(farm.holds_only_issued(), Ok(true));
}

#[test]
fn record_under_an_identifier_not_issued_is_found_out() {
    let mut farm = Farm::init().unwrap();
    create_crop(&mut farm, crop("wheat"), 1).unwrap();
    assert_eq!(do_insert(&mut farm, &stray()), Ok(()));
    assert_eq!(farm.holds_only_issued(), Ok(false));
    assert_eq!(farm.last_id(), 1);

    let mut farm = Farm::init().unwrap();
    let zero = Crop { id: 0, ..stray() };
    assert_eq!(do_insert(&mut farm, &zero), Ok(()));
    assert_eq!(farm.holds_only_issued(), Ok(false));
}

#[test]
fn reloaded_farm_holds_what_it_held() {
    let farm = Farm::init().unwrap().reload().unwrap();
    assert_eq!(farm.last_id(), 0);
    assert!(get_all_crops(&farm).is_err());

    let mut farm = farm;
    let wheat = create_crop(&mut farm, crop("wheat"), 10).unwrap();
    let task = create_task(
        &mut farm,
        TaskPayload { name: "t".into(), description: "".into(), crop_id: wheat.id },
        12,
    )
    .unwrap();
    let expense = create_expense(
        &mut farm,
        ExpensePayload { description: "e".into(), amount: 2.5f64.to_bits(), crop_id: None },
        13,
    )
    .unwrap();
    let gone = create_crop(&mut farm, crop("gone"), 14).unwrap();
    assert_eq!(do_insert(&mut farm, &Crop { quantity: 6, ..gone.clone() }), Ok(()));
    let task = complete_task(&mut farm, task.id).unwrap();

    let mut farm = farm.reload().unwrap();
    assert_eq!(farm.last_id(), 4);
    assert_eq!(get_all_crops(&farm), Ok(vec![wheat.clone(), Crop { quantity: 6, ..gone }]));
    assert_eq!(get_all_tasks(&farm), Ok(vec![task.clone()]));
    assert_eq!(get_all_expenses(&farm), Ok(vec![expense.clone()]));
    let next = create_crop(&mut farm, crop("rye"), 20).unwrap();
    assert_eq!(next.id, 5);

    let farm = farm.reload().unwrap().restart().unwrap().reload().unwrap();
    assert_eq!(farm.last_id(), 5);
    assert_eq!(get_crop(&farm, 5), Ok(next));
    assert_eq!(get_crop(&farm, 1), Ok(wheat));
    assert_eq!(get_all_tasks(&farm), Ok(vec![task]));
    assert_eq!(get_all_expenses(&farm), Ok(vec![expense]));
}

#[test]
fn many_records_survive_a_reload() {
    let mut farm = Farm::init().unwrap();
    for i in 0..300u32 {
        create_crop(&mut farm, crop("c"), u64::from(i)).unwrap();
    }
    for id in (1..=300u64).step_by(3) {
        update_crop(&mut farm, id, crop("changed"), 7).unwrap();
    }
    let before = get_all_crops(&farm).unwrap();
    let farm = farm.reload().unwrap();
    assert_eq!(farm.last_id(), 300);
    assert_eq!(get_all_crops(&farm), Ok(before));
}
