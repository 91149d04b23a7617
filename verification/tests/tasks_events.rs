use time_bandit::api;
use time_bandit::errors::StoreError;
use time_bandit::models::{LoginDetails, NewEvent, NewTask, TaskId, UserEmail, UserId};
use time_bandit::store::Store;

fn store_with_accounts(n: usize) -> Store {
    let mut store = Store::new();
    for i in 0..n {
        let email = format!("user{}@example.com", i);
        let creds = LoginDetails { email: UserEmail(email), password: "pw".to_owned() };
        api::register_user(&mut store, creds).unwrap();
    }
    store
}

fn new_task(owner: UserId, name: &str, description: Option<&str>) -> NewTask {
    NewTask { user_id: owner, name: name.to_owned(), description: description.map(str::to_owned) }
}

fn new_event(owner: UserId, task_id: TaskId, began: i64, duration: i64) -> NewEvent {
    NewEvent { user_id: owner, task_id, date_began: began, duration, notes: None }
}

#[test]
fn created_task_carries_server_assigned_fields() {
    let mut store = store_with_accounts(1);
    let owner = store.users[0].id;
    let task = api::add_task(&mut store, owner, new_task(owner, "Write spec", None)).unwrap();
    assert_eq!(task.id.0, 1);
    assert_eq!(task.user_id, owner);
    assert_eq!(task.name, "Write spec");
    assert_eq!(task.description, "");
    assert_eq!(task.uuid.len(), 36);
}

#[test]
fn update_keeps_id_and_creation_time() {
    let mut store = store_with_accounts(1);
    let owner = store.users[0].id;
    let task = api::add_task(&mut store, owner, new_task(owner, "Write spec", None)).unwrap();
    let updated = api::update_task(
        &mut store,
        owner,
        task.id,
        new_task(owner, "Write spec v2", Some("now with details")),
    )
    .unwrap();
    assert_eq!(updated.name, "Write spec v2");
    assert_eq!(updated.description, "now with details");
    assert_eq!(updated.id, task.id);
    assert_eq!(updated.uuid, task.uuid);
    assert_eq!(updated.created_on, task.created_on);
    assert_eq!(store.tasks.len(), 1);
}

#[test]
fn update_of_missing_task_is_not_found() {
    let mut store = store_with_accounts(1);
    let owner = store.users[0].id;
    let r = api::update_task(&mut store, owner, TaskId(99), new_task(owner, "x", None));
    let e = r.unwrap_err();
    assert_eq!(e, StoreError::NotFound);
    assert_eq!(e.status_code(), 404);
}

#[test]
fn another_accounts_task_cannot_be_updated() {
    let mut store = store_with_accounts(2);
    let alice = store.users[0].id;
    let bob = store.users[1].id;
    let task = api::add_task(&mut store, alice, new_task(alice, "mine", None)).unwrap();
    let r = api::update_task(&mut store, bob, task.id, new_task(bob, "stolen", None));
    assert_eq!(r.unwrap_err(), StoreError::NotFound);
    assert_eq!(store.tasks[0].name, "mine");
}

#[test]
fn another_accounts_task_cannot_be_fetched() {
    let mut store = store_with_accounts(2);
    let alice = store.users[0].id;
    let bob = store.users[1].id;
    let task = api::add_task(&mut store, alice, new_task(alice, "mine", None)).unwrap();
    let r = api::get_one_task_with_events(&store, bob, task.id);
    assert_eq!(r.unwrap_err(), StoreError::NotFound);
}

#[test]
fn event_against_another_accounts_task_is_not_found() {
    let mut store = store_with_accounts(2);
    let alice = store.users[0].id;
    let bob = store.users[1].id;
    let task = api::add_task(&mut store, alice, new_task(alice, "mine", None)).unwrap();
    let r = api::add_event(&mut store, bob, new_event(bob, task.id, 0, 10));
    assert_eq!(r.unwrap_err(), StoreError::NotFound);
    assert!(store.events.is_empty());
}

#[test]
fn created_event_carries_its_fields() {
    let mut store = store_with_accounts(1);
    let owner = store.users[0].id;
    let task = api::add_task(&mut store, owner, new_task(owner, "t", None)).unwrap();
    let event = api::add_event(
        &mut store,
        owner,
        NewEvent {
            user_id: owner,
            task_id: task.id,
            date_began: 1700000000,
            duration: 45,
            notes: Some("stand-up".to_owned()),
        },
    )
    .unwrap();
    assert_eq!(event.id.0, 1);
    assert_eq!(event.user_id, owner);
    assert_eq!(event.task_id, task.id);
    assert_eq!(event.date_began, 1700000000);
    assert_eq!(event.duration, 45);
    assert_eq!(event.notes.as_deref(), Some("stand-up"));
    assert_eq!(event.uuid.len(), 36);
}

#[test]
fn aggregation_lists_each_task_once_with_exactly_its_events() {
    let mut store = store_with_accounts(1);
    let owner = store.users[0].id;
    let t1 = api::add_task(&mut store, owner, new_task(owner, "T1", None)).unwrap();
    let t2 = api::add_task(&mut store, owner, new_task(owner, "T2", None)).unwrap();
    api::add_event(&mut store, owner, new_event(owner, t2.id, 10, 30)).unwrap();
    api::add_event(&mut store, owner, new_event(owner, t2.id, 20, 45)).unwrap();
    let all = api::get_user_tasks_with_events(&store, owner);
    assert_eq!(all.len(), 2);
    assert_eq!(all[0].task.id, t1.id);
    assert!(all[0].events.is_empty());
    assert_eq!(all[1].task.id, t2.id);
    assert_eq!(all[1].events.len(), 2);
    assert!(all[1].events.iter().all(|e| e.task_id == t2.id));
}

#[test]
fn aggregation_is_scoped_to_the_owner() {
    let mut store = store_with_accounts(2);
    let alice = store.users[0].id;
    let bob = store.users[1].id;
    api::add_task(&mut store, alice, new_task(alice, "a", None)).unwrap();
    let bobs = api::add_task(&mut store, bob, new_task(bob, "b", None)).unwrap();
    api::add_event(&mut store, bob, new_event(bob, bobs.id, 0, 5)).unwrap();
    let alices_view = api::get_user_tasks_with_events(&store, alice);
    assert_eq!(alices_view.len(), 1);
    assert_eq!(alices_view[0].task.name, "a");
    assert!(alices_view[0].events.is_empty());
}

#[test]
fn fetched_task_sums_its_event_durations() {
    let mut store = store_with_accounts(1);
    let owner = store.users[0].id;
    let task = api::add_task(&mut store, owner, new_task(owner, "t", None)).unwrap();
    api::add_event(&mut store, owner, new_event(owner, task.id, 10, 30)).unwrap();
    api::add_event(&mut store, owner, new_event(owner, task.id, 20, 45)).unwrap();
    let twe = api::get_one_task_with_events(&store, owner, task.id).unwrap();
    assert_eq!(twe.events.len(), 2);
    let total: i64 = twe.events.iter().map(|e| e.duration).sum();
    assert_eq!(total, 75);
}

#[test]
fn direct_store_reads_filter_by_owner_and_task() {
    let mut store = store_with_accounts(2);
    let alice = store.users[0].id;
    let bob = store.users[1].id;
    let a1 = api::add_task(&mut store, alice, new_task(alice, "a1", None)).unwrap();
    api::add_task(&mut store, bob, new_task(bob, "b1", None)).unwrap();
    let a2 = api::add_task(&mut store, alice, new_task(alice, "a2", None)).unwrap();
    api::add_event(&mut store, alice, new_event(alice, a1.id, 0, 1)).unwrap();
    api::add_event(&mut store, alice, new_event(alice, a2.id, 0, 2)).unwrap();
    let alices = store.get_tasks_by_user(alice);
    assert_eq!(alices.len(), 2);
    assert_eq!(alices[0].id, a1.id);
    assert_eq!(alices[1].id, a2.id);
    let of_a1 = store.get_events_by_task(a1.id);
    assert_eq!(of_a1.len(), 1);
    assert_eq!(of_a1[0].duration, 1);
}

#[test]
fn negative_and_zero_durations_are_accepted() {
    let mut store = store_with_accounts(1);
    let owner = store.users[0].id;
    let task = api::add_task(&mut store, owner, new_task(owner, "t", None)).unwrap();
    let zero = api::add_event(&mut store, owner, new_event(owner, task.id, 0, 0)).unwrap();
    let negative = api::add_event(&mut store, owner, new_event(owner, task.id, 0, -5)).unwrap();
    assert_eq!(zero.duration, 0);
    assert_eq!(negative.duration, -5);
}

#[test]
fn aggregation_for_an_account_with_no_tasks_is_empty() {
    let store = store_with_accounts(1);
    let owner = store.users[0].id;
    let all = api::get_user_tasks_with_events(&store, owner);
    assert!(all.is_empty());
}

#[test]
fn a_fresh_store_holds_nothing() {
    let store = Store::new();
    assert!(store.users.is_empty());
    assert!(store.sessions.is_empty());
    assert!(store.tasks.is_empty());
    assert!(store.events.is_empty());
}
