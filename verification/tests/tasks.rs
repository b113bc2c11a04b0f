use smart_farm_backend::crop::CropPayload;
use smart_farm_backend::crops::create_crop;
use smart_farm_backend::error::{Error, Fault};
use smart_farm_backend::farm::Farm;
use smart_farm_backend::task::{Task, TaskPayload};
use smart_farm_backend::tasks::{
    _get_task, assign_watering, auto_assign_tasks, complete_task, create_task, delete_task,
    do_insert_task, get_all_tasks, get_task, note_assignment, update_task, water_wheat,
};

fn fresh() -> Farm {
    Farm::init().unwrap()
}

fn payload(name: &str, description: &str, crop_id: u64) -> TaskPayload {
    TaskPayload { name: name.to_string(), description: description.to_string(), crop_id }
}

fn crop(name: &str) -> CropPayload {
    CropPayload { name: name.to_string(), description: String::new(), quantity: 1 }
}

fn not_found(msg: &str) -> Error {
    Error::NotFound { msg: msg.to_string() }
}

#[test]
fn created_task_is_found_as_returned() {
    let mut farm = fresh();
    let made = create_task(&mut farm, payload("Sow", "sow the north field", 4), 99).unwrap();
    assert_eq!(
        made,
        Task {
            id: 1,
            name: "Sow".to_string(),
            description: "sow the north field".to_string(),
            completed: false,
            crop_id: 4,
            created_at: 99,
        }
    );
    assert_eq!(get_task(&farm, 1), Ok(made.clone()));
    assert_eq!(_get_task(&farm, &1), Ok(Some(made)));
    assert_eq!(_get_task(&farm, &2), Ok(None));
}

#[test]
fn delete_task_on_empty_collection_is_not_found() {
    let mut farm = fresh();
    assert_eq!(delete_task(&mut farm, 999), Err(not_found("Task with id=999 not found.")));
}

#[test]
fn deleted_task_is_not_found_afterwards() {
    let mut farm = fresh();
    let a = create_task(&mut farm, payload("a", "", 1), 1).unwrap();
    let b = create_task(&mut farm, payload("b", "", 1), 2).unwrap();
    assert_eq!(delete_task(&mut farm, a.id), Ok(a.clone()));
    assert_eq!(get_task(&farm, a.id), Err(not_found("Task with id=1 not found.")));
    assert_eq!(delete_task(&mut farm, a.id), Err(not_found("Task with id=1 not found.")));
    assert_eq!(get_all_tasks(&farm), Ok(vec![b]));
}

#[test]
fn identifier_of_deleted_task_is_not_issued_again() {
    let mut farm = fresh();
    let a = create_task(&mut farm, payload("a", "", 1), 1).unwrap();
    delete_task(&mut farm, a.id).unwrap();
    let b = create_task(&mut farm, payload("b", "", 1), 2).unwrap();
    assert_eq!(b.id, 2);
}

#[test]
fn no_tasks_is_reported_as_not_found() {
    let farm = fresh();
    assert_eq!(get_all_tasks(&farm), Err(not_found("No tasks found.")));
    assert_eq!(get_task(&farm, 3), Err(not_found("Task with id=3 not found.")));
}

#[test]
fn update_task_keeps_id_completion_and_creation_time() {
    let mut farm = fresh();
    let made = create_task(&mut farm, payload("a", "b", 1), 10).unwrap();
    complete_task(&mut farm, made.id).unwrap();
    let updated = update_task(&mut farm, made.id, payload("c", "d", 2)).unwrap();
    assert_eq!(
        updated,
        Task {
            id: made.id,
            name: "c".to_string(),
            description: "d".to_string(),
            completed: true,
            crop_id: 2,
            created_at: 10,
        }
    );
    assert_eq!(get_task(&farm, made.id), Ok(updated));
    assert_eq!(
        update_task(&mut farm, 8, payload("c", "d", 2)),
        Err(not_found("Task with id=8 not found."))
    );
}

#[test]
fn complete_task_sets_only_the_completion() {
    let mut farm = fresh();
    let made = create_task(&mut farm, payload("a", "b", 1), 10).unwrap();
    let done = complete_task(&mut farm, made.id).unwrap();
    assert_eq!(done, Task { completed: true, ..made });
    assert_eq!(get_task(&farm, done.id), Ok(done.clone()));
    assert_eq!(complete_task(&mut farm, done.id), Ok(done));
    assert_eq!(complete_task(&mut farm, 2), Err(not_found("Task with id=2 not found.")));
}

#[test]
fn task_that_is_too_large_is_refused_without_effect() {
    let mut farm = fresh();
    let long = "é".repeat(600);
    assert_eq!(
        create_task(&mut farm, payload("t", &long, 1), 1),
        Err(Error::Internal { fault: Fault::RecordTooLarge })
    );
    assert_eq!(farm.last_id(), 0);
    assert_eq!(get_all_tasks(&farm), Err(not_found("No tasks found.")));
}

#[test]
fn do_insert_task_stores_under_the_tasks_own_id() {
    let mut farm = fresh();
    let task = Task {
        id: 5,
        name: "a".to_string(),
        description: "b".to_string(),
        completed: true,
        crop_id: 6,
        created_at: 7,
    };
    assert_eq!(do_insert_task(&mut farm, &task), Ok(()));
    assert_eq!(get_all_tasks(&farm), Ok(vec![task]));
}

#[test]
fn watering_is_assigned_to_wheat_in_lower_case_only() {
    let mut farm = fresh();
    let wheat = create_crop(&mut farm, crop("wheat"), 1).unwrap();
    let tasks = auto_assign_tasks(&mut farm, 50).unwrap();
    assert_eq!(
        tasks,
        vec![Task {
            id: 2,
            name: "Watering".to_string(),
            description: "Water the wheat crop".to_string(),
            completed: false,
            crop_id: wheat.id,
            created_at: 50,
        }]
    );
    assert_eq!(get_all_tasks(&farm), Ok(tasks));
}

#[test]
fn watering_is_not_assigned_to_capitalized_wheat() {
    let mut farm = fresh();
    create_crop(&mut farm, crop("Wheat"), 1).unwrap();
    create_crop(&mut farm, crop("wheat "), 1).unwrap();
    create_crop(&mut farm, crop("corn"), 1).unwrap();
    assert_eq!(auto_assign_tasks(&mut farm, 50), Ok(vec![]));
    assert_eq!(get_all_tasks(&farm), Err(not_found("No tasks found.")));
    assert_eq!(farm.last_id(), 3);
}

#[test]
fn watering_on_a_farm_without_crops_assigns_nothing() {
    let mut farm = fresh();
    assert_eq!(auto_assign_tasks(&mut farm, 50), Ok(vec![]));
    assert_eq!(farm.last_id(), 0);
}

#[test]
fn watering_is_assigned_to_every_wheat_in_order() {
    let mut farm = fresh();
    create_crop(&mut farm, crop("wheat"), 1).unwrap();
    create_crop(&mut farm, crop("corn"), 1).unwrap();
    create_crop(&mut farm, crop("wheat"), 1).unwrap();
    let tasks = auto_assign_tasks(&mut farm, 9).unwrap();
    assert_eq!(tasks.len(), 2);
    assert_eq!((tasks[0].id, tasks[0].crop_id), (4, 1));
    assert_eq!((tasks[1].id, tasks[1].crop_id), (5, 3));
    assert_eq!(farm.last_id(), 5);
    let again = auto_assign_tasks(&mut farm, 10).unwrap();
    assert_eq!(again.len(), 2);
    assert_eq!((again[0].id, again[0].crop_id, again[0].created_at), (6, 1, 10));
    assert_eq!((again[1].id, again[1].crop_id, again[1].created_at), (7, 3, 10));
    assert_eq!(get_all_tasks(&farm).unwrap().len(), 4);
}

#[test]
fn assign_watering_creates_the_watering_task() {
    let mut farm = fresh();
    let task = assign_watering(&mut farm, 31, 77).unwrap();
    assert_eq!(
        task,
        Task {
            id: 1,
            name: "Watering".to_string(),
            description: "Water the wheat crop".to_string(),
            completed: false,
            crop_id: 31,
            created_at: 77,
        }
    );
    assert_eq!(get_task(&farm, 1), Ok(task));
}

#[test]
fn only_created_tasks_are_noted() {
    let task = Task {
        id: 1,
        name: "Watering".to_string(),
        description: "Water the wheat crop".to_string(),
        completed: false,
        crop_id: 2,
        created_at: 3,
    };
    let mut assigned = Vec::new();
    note_assignment(&mut assigned, Err(Error::Internal { fault: Fault::CounterNotSaved }));
    assert_eq!(assigned, vec![]);
    note_assignment(&mut assigned, Ok(task.clone()));
    note_assignment(&mut assigned, Err(Error::Internal { fault: Fault::IdsExhausted }));
    let second = Task { id: 2, crop_id: 5, ..task.clone() };
    note_assignment(&mut assigned, Ok(second.clone()));
    assert_eq!(assigned, vec![task, second]);
}

#[test]
fn every_wheat_crop_is_tried_in_order() {
    let mut farm = fresh();
    create_crop(&mut farm, crop("wheat"), 1).unwrap();
    create_crop(&mut farm, crop("Wheat"), 1).unwrap();
    create_crop(&mut farm, crop("corn"), 1).unwrap();
    create_crop(&mut farm, crop("wheat"), 1).unwrap();
    let outcomes = water_wheat(&mut farm, 9).unwrap();
    assert_eq!(outcomes.len(), 2);
    assert_eq!(outcomes[0].0, 1);
    assert_eq!(outcomes[1].0, 4);
    let first = outcomes[0].1.clone().unwrap();
    let second = outcomes[1].1.clone().unwrap();
    assert_eq!((first.id, first.crop_id, first.created_at), (5, 1, 9));
    assert_eq!((second.id, second.crop_id, second.created_at), (6, 4, 9));
    assert_eq!(first.name, "Watering");
    assert_eq!(second.description, "Water the wheat crop");
    assert_eq!(get_all_tasks(&farm), Ok(vec![first, second]));
    assert_eq!(farm.last_id(), 6);
}

#[test]
fn no_wheat_crop_means_nothing_is_tried() {
    let mut farm = fresh();
    assert_eq!(water_wheat(&mut farm, 9), Ok(vec![]));
    create_crop(&mut farm, crop("corn"), 1).unwrap();
    create_crop(&mut farm, crop("WHEAT"), 1).unwrap();
    assert_eq!(water_wheat(&mut farm, 9), Ok(vec![]));
    assert_eq!(farm.last_id(), 2);
}
