//! The API surface: the request gate and the decisions behind each route.
//!
//! Each function takes the store and the values a request carries — the
//! session cookie's token, the authenticated caller, the body — and returns
//! the response value or the error whose `status_code` the transport answers
//! with. Every failure of a login looks the same from outside, so that
//! nothing leaks about which part failed.

use vstd::prelude::*;

use crate::credentials::bcrypt_matches;
use crate::errors::StoreError;
use crate::models::{
    Event, LoginDetails, NewEvent, NewTask, SessionId, Task, TaskId, TaskWithEvents, UserId,
};
use crate::store::{
    same_events, same_sessions, same_tasks, same_users, sessions_upsert, spec_description,
    spec_registered, Session, Store,
};

verus! {

/// Create an account for these credentials: `Conflict` when the email is
/// taken, `Persistence` when hashing or storage fails.
pub fn register_user(store: &mut Store, new_user: LoginDetails) -> (r: Result<String, StoreError>)
    requires
        old(store).wf(),
    ensures
        final(store).wf(),
        same_sessions(*old(store), *final(store)),
        same_tasks(*old(store), *final(store)),
        same_events(*old(store), *final(store)),
        r matches Err(_) ==> *final(store) == *old(store),
        old(store).spec_has_email(new_user.email.0@) ==> r == Err::<String, StoreError>(
            StoreError::Conflict,
        ),
        !old(store).spec_has_email(new_user.email.0@) ==> (r matches Err(e) ==> e
            == StoreError::Persistence),
        r matches Ok(msg) ==> spec_registered(*old(store), *final(store), new_user) && msg@
            == "Created account!"@,
{
    store.register_account(new_user)
}

/// Log in: find the account, verify the password, and issue a session token
/// that replaces any earlier session of the account. Every failure — unknown
/// email, wrong password, or a failed issuance — is the same `Unauthorized`.
pub fn login(store: &mut Store, details: LoginDetails) -> (r: Result<SessionId, StoreError>)
    requires
        old(store).wf(),
    ensures
        final(store).wf(),
        same_users(*old(store), *final(store)),
        same_tasks(*old(store), *final(store)),
        same_events(*old(store), *final(store)),
        r matches Err(e) ==> e == StoreError::Unauthorized && *final(store) == *old(store),
        !old(store).spec_has_email(details.email.0@) ==> r is Err,
        old(store).spec_has_email(details.email.0@) && !bcrypt_matches(
            details.password@,
            old(store).spec_user_for_email(details.email.0@).password@,
        ) ==> r is Err,
        r matches Ok(token) ==> {
            let u = old(store).spec_user_for_email(details.email.0@);
            &&& old(store).spec_has_email(details.email.0@)
            &&& bcrypt_matches(details.password@, u.password@)
            &&& final(store).sessions@ == sessions_upsert(
                old(store).sessions@,
                Session { session_id: token, user_id: u.id },
            )
            &&& final(store).spec_resolve(token.0@) == Some(u.id)
        },
{
    let user = match store.get_account(&details.email) {
        Ok(u) => u,
        Err(_) => {
            return Err(StoreError::Unauthorized);
        },
    };
    match store.create_session(&user, details.password.as_str()) {
        Ok(token) => Ok(token),
        Err(_) => Err(StoreError::Unauthorized),
    }
}

/// The request gate: resolve the session cookie to the calling account.
/// A missing cookie and an unknown token are the same `Unauthorized`, and no
/// protected work happens past a failure here.
pub fn get_session(store: &Store, cookie: Option<&SessionId>) -> (r: Result<UserId, StoreError>)
    requires
        store.wf(),
    ensures
        r matches Ok(uid) ==> cookie matches Some(c) && store.spec_resolve(c.0@) == Some(uid),
        r matches Err(e) ==> e == StoreError::Unauthorized && (cookie matches Some(c)
            ==> store.spec_resolve(c.0@) is None),
        cookie matches Some(c) && store.spec_has_token(c.0@) ==> r is Ok,
{
    let token = match cookie {
        Some(c) => c,
        None => {
            return Err(StoreError::Unauthorized);
        },
    };
    match store.resolve_session(token) {
        Ok(uid) => Ok(uid),
        Err(_) => Err(StoreError::Unauthorized),
    }
}

/// Create a task for the authenticated caller; the owner recorded on the row
/// is the session's account, never one the body claims. The creation time is
/// read from the server clock.
pub fn add_task(store: &mut Store, user_id: UserId, new_task: NewTask) -> (r: Result<
    Task,
    StoreError,
>)
    requires
        old(store).wf(),
    ensures
        final(store).wf(),
        same_users(*old(store), *final(store)),
        same_sessions(*old(store), *final(store)),
        same_events(*old(store), *final(store)),
        r matches Err(e) ==> *final(store) == *old(store) && e == StoreError::Persistence && old(
            store,
        ).next_task_id == i32::MAX,
        old(store).next_task_id < i32::MAX ==> r is Ok,
        r matches Ok(t) ==> {
            &&& final(store).tasks@ == old(store).tasks@.push(t)
            &&& t.id.0 == old(store).next_task_id
            &&& t.user_id == user_id
            &&& t.name@ == new_task.name@
            &&& t.description@ == spec_description(new_task.description)
            &&& final(store).next_task_id == old(store).next_task_id + 1
        },
{
    let owned_task = NewTask { user_id, name: new_task.name, description: new_task.description };
    let now = now_seconds();
    store.add_task(owned_task, now)
}

/// Update a task's name and description for the authenticated caller. The
/// owner check and the lookup are one step: a wrong id and another account's
/// task fail alike with `NotFound`.
pub fn update_task(store: &mut Store, user_id: UserId, task_id: TaskId, new_task: NewTask) -> (r:
    Result<Task, StoreError>)
    requires
        old(store).wf(),
    ensures
        final(store).wf(),
        same_users(*old(store), *final(store)),
        same_sessions(*old(store), *final(store)),
        same_events(*old(store), *final(store)),
        final(store).next_task_id == old(store).next_task_id,
        !old(store).spec_task_owned(task_id, user_id) ==> r == Err::<Task, StoreError>(
            StoreError::NotFound,
        ) && *final(store) == *old(store),
        old(store).spec_task_owned(task_id, user_id) ==> (r matches Ok(t) && {
            let i = old(store).spec_task_index(task_id, user_id);
            &&& final(store).tasks@ == old(store).tasks@.update(i, t)
            &&& t.id == old(store).tasks@[i].id
            &&& t.uuid == old(store).tasks@[i].uuid
            &&& t.user_id == old(store).tasks@[i].user_id
            &&& t.created_on == old(store).tasks@[i].created_on
            &&& t.name@ == new_task.name@
            &&& t.description@ == spec_description(new_task.description)
        }),
{
    let owned_task = NewTask { user_id, name: new_task.name, description: new_task.description };
    store.update_task(owned_task, task_id)
}

/// Record an event for the authenticated caller against one of their own
/// tasks; the owner recorded on the row is the session's account. A task that
/// is absent or not theirs is `NotFound`.
pub fn add_event(store: &mut Store, user_id: UserId, new_event: NewEvent) -> (r: Result<
    Event,
    StoreError,
>)
    requires
        old(store).wf(),
    ensures
        final(store).wf(),
        same_users(*old(store), *final(store)),
        same_sessions(*old(store), *final(store)),
        same_tasks(*old(store), *final(store)),
        !old(store).spec_task_owned(new_event.task_id, user_id) ==> r == Err::<Event, StoreError>(
            StoreError::NotFound,
        ) && *final(store) == *old(store),
        old(store).spec_task_owned(new_event.task_id, user_id) && old(store).next_event_id
            < i32::MAX ==> r is Ok,
        r matches Ok(e) ==> {
            &&& final(store).events@ == old(store).events@.push(e)
            &&& e.id.0 == old(store).next_event_id
            &&& e.user_id == user_id
            &&& e.task_id == new_event.task_id
            &&& e.date_began == new_event.date_began
            &&& e.duration == new_event.duration
            &&& e.notes == new_event.notes
            &&& final(store).next_event_id == old(store).next_event_id + 1
        },
{
    let owned_event = NewEvent {
        user_id,
        task_id: new_event.task_id,
        date_began: new_event.date_began,
        duration: new_event.duration,
        notes: new_event.notes,
    };
    store.add_event(owned_event)
}

/// Fetch one of the caller's tasks together with every event recorded
/// against it.
pub fn get_one_task_with_events(store: &Store, user_id: UserId, task_id: TaskId) -> (r: Result<
    TaskWithEvents,
    StoreError,
>)
    requires
        store.wf(),
    ensures
        r matches Ok(twe) ==> {
            &&& store.spec_task_owned(task_id, user_id)
            &&& twe.task == store.tasks@[store.spec_task_index(task_id, user_id)]
            &&& twe.events@ == store.events@.filter(crate::store::event_of_task(task_id))
        },
        r matches Err(e) ==> e == StoreError::NotFound && !store.spec_task_owned(task_id, user_id),
{
    store.get_task_with_events_by_task_id(task_id, user_id)
}

/// Fetch every task of the caller, each with its events.
pub fn get_user_tasks_with_events(store: &Store, user_id: UserId) -> (r: Vec<TaskWithEvents>)
    requires
        store.wf(),
    ensures
        r@.len() == store.tasks@.filter(crate::store::owned_task(user_id)).len(),
        forall|i: int|
            0 <= i < r@.len() ==> (#[trigger] r@[i]).task == store.tasks@.filter(
                crate::store::owned_task(user_id),
            )[i] && r@[i].events@ == store.events@.filter(
                crate::store::event_of_task(r@[i].task.id),
            ),
{
    store.get_user_tasks_with_events(user_id)
}

/// Relies on chrono::Utc::now: the current time on the server clock, read as
/// whole unix seconds. Nothing is promised of the value.
#[verifier::external_body]
fn now_seconds() -> (r: i64) {
    chrono::Utc::now().timestamp()
}

} // verus!
