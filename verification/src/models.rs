//! Data model: identifiers, accounts, sessions, tasks and events.
//!
//! Timestamps are unix seconds (`i64`); external identifiers are opaque
//! strings assigned at creation.

use vstd::prelude::*;

verus! {

/// Opaque integer identity of an account.
#[derive(Clone, Copy, PartialEq, Eq, Structural, Debug)]
pub struct UserId(pub i32);

/// Opaque integer identity of a task.
#[derive(Clone, Copy, PartialEq, Eq, Structural, Debug)]
pub struct TaskId(pub i32);

/// Opaque integer identity of an event.
#[derive(Clone, Copy, PartialEq, Eq, Structural, Debug)]
pub struct EventId(pub i32);

/// An opaque session token, proof of a successful prior login.
#[derive(Debug)]
pub struct SessionId(pub String);

impl Clone for SessionId {
    fn clone(&self) -> (res: Self)
        ensures
            res == *self,
    {
        SessionId(self.0.clone())
    }
}

/// An account's email address, unique across accounts.
#[derive(Debug)]
pub struct UserEmail(pub String);

impl Clone for UserEmail {
    fn clone(&self) -> (res: Self)
        ensures
            res == *self,
    {
        UserEmail(self.0.clone())
    }
}

/// Credentials presented at registration and login.
#[derive(Debug)]
pub struct LoginDetails {
    pub email: UserEmail,
    pub password: String,
}

impl Clone for LoginDetails {
    fn clone(&self) -> (res: Self)
        ensures
            res == *self,
    {
        LoginDetails { email: self.email.clone(), password: self.password.clone() }
    }
}

/// A registered account. `password` holds the bcrypt hash, never the
/// plaintext.
#[derive(Debug)]
pub struct User {
    pub id: UserId,
    pub uuid: String,
    pub email: UserEmail,
    pub password: String,
}

impl Clone for User {
    fn clone(&self) -> (res: Self)
        ensures
            res == *self,
    {
        User {
            id: self.id,
            uuid: self.uuid.clone(),
            email: self.email.clone(),
            password: self.password.clone(),
        }
    }
}

/// A task owned by one account.
#[derive(Debug)]
pub struct Task {
    pub id: TaskId,
    pub uuid: String,
    pub user_id: UserId,
    pub name: String,
    pub description: String,
    pub created_on: i64,
}

impl Clone for Task {
    fn clone(&self) -> (res: Self)
        ensures
            res == *self,
    {
        Task {
            id: self.id,
            uuid: self.uuid.clone(),
            user_id: self.user_id,
            name: self.name.clone(),
            description: self.description.clone(),
            created_on: self.created_on,
        }
    }
}

/// The client-supplied part of a new or updated task.
#[derive(Debug)]
pub struct NewTask {
    pub user_id: UserId,
    pub name: String,
    pub description: Option<String>,
}

impl Clone for NewTask {
    fn clone(&self) -> (res: Self)
        ensures
            res == *self,
    {
        NewTask {
            user_id: self.user_id,
            name: self.name.clone(),
            description: clone_opt_string(&self.description),
        }
    }
}

/// A time-tracking event recorded against a task. Immutable once created.
#[derive(Debug)]
pub struct Event {
    pub id: EventId,
    pub uuid: String,
    pub user_id: UserId,
    pub task_id: TaskId,
    pub date_began: i64,
    pub duration: i64,
    pub notes: Option<String>,
}

impl Clone for Event {
    fn clone(&self) -> (res: Self)
        ensures
            res == *self,
    {
        Event {
            id: self.id,
            uuid: self.uuid.clone(),
            user_id: self.user_id,
            task_id: self.task_id,
            date_began: self.date_began,
            duration: self.duration,
            notes: clone_opt_string(&self.notes),
        }
    }
}

/// The client-supplied part of a new event.
#[derive(Debug)]
pub struct NewEvent {
    pub user_id: UserId,
    pub task_id: TaskId,
    pub date_began: i64,
    pub duration: i64,
    pub notes: Option<String>,
}

impl Clone for NewEvent {
    fn clone(&self) -> (res: Self)
        ensures
            res == *self,
    {
        NewEvent {
            user_id: self.user_id,
            task_id: self.task_id,
            date_began: self.date_began,
            duration: self.duration,
            notes: clone_opt_string(&self.notes),
        }
    }
}

/// The email of an account yet to be created.
#[derive(Debug)]
pub struct NewUser {
    pub email: UserEmail,
}

/// One task together with every event recorded against it. Never persisted;
/// composed per query. `events` is empty, not absent, for a task with no
/// events.
#[derive(Debug)]
pub struct TaskWithEvents {
    pub task: Task,
    pub events: Vec<Event>,
}

fn clone_opt_string(o: &Option<String>) -> (res: Option<String>)
    ensures
        res == *o,
{
    match o {
        Some(s) => Some(s.clone()),
        None => None,
    }
}

} // verus!
