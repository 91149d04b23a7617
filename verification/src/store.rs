//! The relational store: accounts, sessions, tasks and events, with the
//! uniqueness and ownership rules that the service relies on.
//!
//! All rows live in memory; identifiers are assigned from per-table counters,
//! external identifiers from fresh UUIDs.

use vstd::prelude::*;

use crate::credentials;
use crate::credentials::bcrypt_matches;
use crate::errors::StoreError;
use crate::models::{
    Event, EventId, LoginDetails, NewEvent, NewTask, SessionId, Task, TaskId, TaskWithEvents, User,
    UserEmail, UserId,
};

verus! {

/// One live session: a token bound to its account. At most one per account;
/// replacing it on a new login is the only way a token is invalidated.
#[derive(Debug)]
pub struct Session {
    pub session_id: SessionId,
    pub user_id: UserId,
}

impl Clone for Session {
    fn clone(&self) -> (res: Self)
        ensures
            res == *self,
    {
        Session { session_id: self.session_id.clone(), user_id: self.user_id }
    }
}

/// The store. Fields are public so that contracts can speak of them directly;
/// every method requires and preserves `wf`.
#[derive(Debug)]
pub struct Store {
    pub users: Vec<User>,
    pub sessions: Vec<Session>,
    pub tasks: Vec<Task>,
    pub events: Vec<Event>,
    pub next_user_id: i32,
    pub next_task_id: i32,
    pub next_event_id: i32,
}

/// The account table, and its id counter, are the same in both stores.
pub open spec fn same_users(a: Store, b: Store) -> bool {
    a.users@ == b.users@ && a.next_user_id == b.next_user_id
}

/// The session table is the same in both stores.
pub open spec fn same_sessions(a: Store, b: Store) -> bool {
    a.sessions@ == b.sessions@
}

/// The task table, and its id counter, are the same in both stores.
pub open spec fn same_tasks(a: Store, b: Store) -> bool {
    a.tasks@ == b.tasks@ && a.next_task_id == b.next_task_id
}

/// The event table, and its id counter, are the same in both stores.
pub open spec fn same_events(a: Store, b: Store) -> bool {
    a.events@ == b.events@ && a.next_event_id == b.next_event_id
}

pub open spec fn user_ids_unique(users: Seq<User>) -> bool {
    forall|i: int, j: int|
        0 <= i < users.len() && 0 <= j < users.len() && i != j ==> (#[trigger] users[i]).id.0 != (
        #[trigger] users[j]).id.0
}

pub open spec fn user_emails_unique(users: Seq<User>) -> bool {
    forall|i: int, j: int|
        0 <= i < users.len() && 0 <= j < users.len() && i != j ==> (
        #[trigger] users[i]).email.0@ != (#[trigger] users[j]).email.0@
}

pub open spec fn session_users_unique(sessions: Seq<Session>) -> bool {
    forall|i: int, j: int|
        0 <= i < sessions.len() && 0 <= j < sessions.len() && i != j ==> (
        #[trigger] sessions[i]).user_id.0 != (#[trigger] sessions[j]).user_id.0
}

pub open spec fn session_tokens_unique(sessions: Seq<Session>) -> bool {
    forall|i: int, j: int|
        0 <= i < sessions.len() && 0 <= j < sessions.len() && i != j ==> (
        #[trigger] sessions[i]).session_id.0@ != (#[trigger] sessions[j]).session_id.0@
}

pub open spec fn task_ids_unique(tasks: Seq<Task>) -> bool {
    forall|i: int, j: int|
        0 <= i < tasks.len() && 0 <= j < tasks.len() && i != j ==> (#[trigger] tasks[i]).id.0 != (
        #[trigger] tasks[j]).id.0
}

pub open spec fn event_ids_unique(events: Seq<Event>) -> bool {
    forall|i: int, j: int|
        0 <= i < events.len() && 0 <= j < events.len() && i != j ==> (#[trigger] events[i]).id.0
            != (#[trigger] events[j]).id.0
}

/// The tasks owned by this account.
pub open spec fn owned_task(user_id: UserId) -> spec_fn(Task) -> bool {
    |t: Task| t.user_id.0 == user_id.0
}

/// The events that belong to the given task.
pub open spec fn event_of_task(task_id: TaskId) -> spec_fn(Event) -> bool {
    |e: Event| e.task_id.0 == task_id.0
}

/// An optional description, read as the empty text when absent.
pub open spec fn spec_description(d: Option<String>) -> Seq<char> {
    match d {
        Some(s) => s@,
        None => Seq::<char>::empty(),
    }
}

impl Store {
    /// Well-formedness: identities and emails are unique, session tokens and
    /// session owners are unique, and every assigned id lies below its
    /// counter.
    pub open spec fn wf(self) -> bool {
        &&& user_ids_unique(self.users@)
        &&& user_emails_unique(self.users@)
        &&& session_users_unique(self.sessions@)
        &&& session_tokens_unique(self.sessions@)
        &&& task_ids_unique(self.tasks@)
        &&& event_ids_unique(self.events@)
        &&& 0 < self.next_user_id
        &&& 0 < self.next_task_id
        &&& 0 < self.next_event_id
        &&& forall|i: int|
            0 <= i < self.users@.len() ==> 0 < (#[trigger] self.users@[i]).id.0
                < self.next_user_id
        &&& forall|i: int|
            0 <= i < self.tasks@.len() ==> 0 < (#[trigger] self.tasks@[i]).id.0
                < self.next_task_id
        &&& forall|i: int|
            0 <= i < self.events@.len() ==> 0 < (#[trigger] self.events@[i]).id.0
                < self.next_event_id
    }

    /// Whether some account holds this email.
    pub open spec fn spec_has_email(self, email: Seq<char>) -> bool {
        exists|i: int|
            0 <= i < self.users@.len() && (#[trigger] self.users@[i]).email.0@ == email
    }

    /// The account holding this email; meaningful only under
    /// `spec_has_email`, and unique under `wf`.
    pub open spec fn spec_user_for_email(self, email: Seq<char>) -> User {
        self.users@[choose|i: int|
            0 <= i < self.users@.len() && (#[trigger] self.users@[i]).email.0@ == email]
    }

    /// A fresh, empty store.
    pub fn new() -> (s: Store)
        ensures
            s.wf(),
            s.users@ == Seq::<User>::empty(),
            s.sessions@ == Seq::<Session>::empty(),
            s.tasks@ == Seq::<Task>::empty(),
            s.events@ == Seq::<Event>::empty(),
            s.next_user_id == 1,
            s.next_task_id == 1,
            s.next_event_id == 1,
    {
        Store {
            users: Vec::new(),
            sessions: Vec::new(),
            tasks: Vec::new(),
            events: Vec::new(),
            next_user_id: 1,
            next_task_id: 1,
            next_event_id: 1,
        }
    }

    fn email_exists(&self, email: &UserEmail) -> (r: bool)
        ensures
            r == self.spec_has_email(email.0@),
    {
        let n = self.users.len();
        let mut i: usize = 0;
        while i < n
            invariant
                n == self.users@.len(),
                i <= n,
                forall|k: int| 0 <= k < i ==> (#[trigger] self.users@[k]).email.0@ != email.0@,
            decreases n - i,
        {
            if self.users[i].email.0 == email.0 {
                return true;
            }
            i = i + 1;
        }
        false
    }

    /// Look an account up by email.
    pub fn get_account(&self, email: &UserEmail) -> (r: Result<User, StoreError>)
        requires
            self.wf(),
        ensures
            r matches Ok(u) ==> self.spec_has_email(email.0@) && u == self.spec_user_for_email(
                email.0@,
            ),
            r matches Err(e) ==> e == StoreError::NotFound && !self.spec_has_email(email.0@),
    {
        let n = self.users.len();
        let mut i: usize = 0;
        while i < n
            invariant
                self.wf(),
                n == self.users@.len(),
                i <= n,
                forall|k: int| 0 <= k < i ==> (#[trigger] self.users@[k]).email.0@ != email.0@,
            decreases n - i,
        {
            if self.users[i].email.0 == email.0 {
                proof {
                    let j = choose|j: int|
                        0 <= j < self.users@.len() && (#[trigger] self.users@[j]).email.0@
                            == email.0@;
                    assert(self.users@[i as int].email.0@ == email.0@);
                    assert(j == i as int);
                }
                return Ok(self.users[i].clone());
            }
            i = i + 1;
        }
        Err(StoreError::NotFound)
    }

    /// Hash the password and create the account. Fails with `Conflict` when
    /// the email is already held, with `Persistence` when hashing fails or
    /// the id space is exhausted; on success the store grows by exactly this
    /// one account.
    pub fn register_account(&mut self, new_user: LoginDetails) -> (r: Result<String, StoreError>)
        requires
            old(self).wf(),
        ensures
            final(self).wf(),
            same_sessions(*old(self), *final(self)),
            same_tasks(*old(self), *final(self)),
            same_events(*old(self), *final(self)),
            r matches Err(_) ==> *final(self) == *old(self),
            old(self).spec_has_email(new_user.email.0@) ==> r == Err::<
                String,
                StoreError,
            >(StoreError::Conflict),
            !old(self).spec_has_email(new_user.email.0@) ==> (r matches Err(e) ==> e
                == StoreError::Persistence),
            r matches Ok(msg) ==> spec_registered(*old(self), *final(self), new_user) && msg@
                == "Created account!"@,
    {
        if self.email_exists(&new_user.email) {
            return Err(StoreError::Conflict);
        }
        let hashed = match credentials::hash(new_user.password.as_str()) {
            Ok(h) => h,
            Err(e) => {
                return Err(e);
            },
        };
        match self.insert_account(new_user.email, hashed) {
            Ok(_) => {
                proof {
                    assert(self.users@.drop_last() =~= old(self).users@);
                }
                Ok("Created account!".to_owned())
            },
            Err(e) => Err(e),
        }
    }

    /// Insert an account row for an already-hashed password. Succeeds exactly
    /// when the email is free and the id space is not exhausted; the stored
    /// row then holds the hash as given.
    pub fn insert_account(&mut self, email: UserEmail, password_hash: String) -> (r: Result<
        User,
        StoreError,
    >)
        requires
            old(self).wf(),
        ensures
            final(self).wf(),
            same_sessions(*old(self), *final(self)),
            same_tasks(*old(self), *final(self)),
            same_events(*old(self), *final(self)),
            r matches Err(_) ==> *final(self) == *old(self),
            r is Ok <==> !old(self).spec_has_email(email.0@) && old(self).next_user_id < i32::MAX,
            old(self).spec_has_email(email.0@) ==> r == Err::<User, StoreError>(
                StoreError::Conflict,
            ),
            !old(self).spec_has_email(email.0@) && old(self).next_user_id == i32::MAX ==> r
                == Err::<User, StoreError>(StoreError::Persistence),
            r matches Ok(u) ==> {
                &&& final(self).users@ == old(self).users@.push(u)
                &&& u.id.0 == old(self).next_user_id
                &&& u.email == email
                &&& u.password == password_hash
                &&& final(self).next_user_id == old(self).next_user_id + 1
            },
    {
        if self.email_exists(&email) {
            return Err(StoreError::Conflict);
        }
        if self.next_user_id == i32::MAX {
            return Err(StoreError::Persistence);
        }
        let user = User {
            id: UserId(self.next_user_id),
            uuid: fresh_uuid(),
            email,
            password: password_hash,
        };
        let out = user.clone();
        self.users.push(user);
        self.next_user_id = self.next_user_id + 1;
        Ok(out)
    }

    /// Whether some live session carries this token.
    pub open spec fn spec_has_token(self, token: Seq<char>) -> bool {
        exists|i: int|
            0 <= i < self.sessions@.len() && (#[trigger] self.sessions@[i]).session_id.0@ == token
    }

    /// The account a token resolves to: `None` exactly when no live session
    /// carries it, which is the sole way a token is invalid.
    pub open spec fn spec_resolve(self, token: Seq<char>) -> Option<UserId> {
        if self.spec_has_token(token) {
            Some(
                self.sessions@[choose|i: int|
                    0 <= i < self.sessions@.len() && (#[trigger] self.sessions@[i]).session_id.0@
                        == token].user_id,
            )
        } else {
            None
        }
    }

    /// Look a session up by token.
    pub fn resolve_session(&self, session_id: &SessionId) -> (r: Result<UserId, StoreError>)
        requires
            self.wf(),
        ensures
            r matches Ok(uid) ==> self.spec_resolve(session_id.0@) == Some(uid),
            r matches Err(e) ==> e == StoreError::NotFound && self.spec_resolve(session_id.0@)
                is None,
    {
        let n = self.sessions.len();
        let mut i: usize = 0;
        while i < n
            invariant
                self.wf(),
                n == self.sessions@.len(),
                i <= n,
                forall|k: int|
                    0 <= k < i ==> (#[trigger] self.sessions@[k]).session_id.0@ != session_id.0@,
            decreases n - i,
        {
            if self.sessions[i].session_id.0 == session_id.0 {
                proof {
                    let j = choose|j: int|
                        0 <= j < self.sessions@.len() && (
                        #[trigger] self.sessions@[j]).session_id.0@ == session_id.0@;
                    assert(self.sessions@[i as int].session_id.0@ == session_id.0@);
                    assert(j == i as int);
                }
                return Ok(self.sessions[i].user_id);
            }
            i = i + 1;
        }
        Err(StoreError::NotFound)
    }

    /// Bind `session_id` to `user_id`, replacing any earlier session of the
    /// same account in one step. Fails only when a *different* account
    /// already holds this token, as a stored uniqueness constraint would.
    pub fn insert_session(&mut self, user_id: UserId, session_id: SessionId) -> (r: Result<
        SessionId,
        StoreError,
    >)
        requires
            old(self).wf(),
        ensures
            final(self).wf(),
            same_users(*old(self), *final(self)),
            same_tasks(*old(self), *final(self)),
            same_events(*old(self), *final(self)),
            r matches Err(e) ==> *final(self) == *old(self) && e == StoreError::Persistence,
            r is Err <==> exists|i: int|
                0 <= i < old(self).sessions@.len() && (
                #[trigger] old(self).sessions@[i]).session_id.0@ == session_id.0@ && old(
                    self,
                ).sessions@[i].user_id.0 != user_id.0,
            r matches Ok(s) ==> s == session_id && final(self).sessions@ == sessions_upsert(
                old(self).sessions@,
                Session { session_id, user_id },
            ),
    {
        let n = self.sessions.len();
        let mut i: usize = 0;
        while i < n
            invariant
                *self == *old(self),
                old(self).wf(),
                n == self.sessions@.len(),
                i <= n,
                forall|k: int|
                    0 <= k < i ==> !((#[trigger] self.sessions@[k]).session_id.0@ == session_id.0@
                        && self.sessions@[k].user_id.0 != user_id.0),
            decreases n - i,
        {
            if self.sessions[i].session_id.0 == session_id.0 && self.sessions[i].user_id.0
                != user_id.0 {
                return Err(StoreError::Persistence);
            }
            i = i + 1;
        }
        let mut kept: Vec<Session> = Vec::new();
        let mut j: usize = 0;
        while j < n
            invariant
                *self == *old(self),
                n == self.sessions@.len(),
                j <= n,
                kept@ == self.sessions@.subrange(0, j as int).filter(not_owned_by(user_id)),
            decreases n - j,
        {
            proof {
                assert(self.sessions@.subrange(0, j as int + 1) =~= self.sessions@.subrange(
                    0,
                    j as int,
                ).push(self.sessions@[j as int]));
                lemma_filter_push(
                    self.sessions@.subrange(0, j as int),
                    not_owned_by(user_id),
                    self.sessions@[j as int],
                );
            }
            if self.sessions[j].user_id.0 != user_id.0 {
                kept.push(self.sessions[j].clone());
            }
            j = j + 1;
        }
        proof {
            assert(self.sessions@.subrange(0, n as int) =~= self.sessions@);
        }
        let new_session = Session { session_id: session_id.clone(), user_id };
        kept.push(new_session);
        self.sessions = kept;
        proof {
            let pred = not_owned_by(user_id);
            let filtered = old(self).sessions@.filter(pred);
            lemma_filter_sessions_unique(old(self).sessions@, pred);
            lemma_filter_membership(old(self).sessions@, pred);
            assert forall|a: int, b: int|
                0 <= a < self.sessions@.len() && 0 <= b < self.sessions@.len() && a != b implies (
            #[trigger] self.sessions@[a]).session_id.0@ != (
            #[trigger] self.sessions@[b]).session_id.0@ && self.sessions@[a].user_id.0
                != self.sessions@[b].user_id.0 by {
                if a < filtered.len() && b < filtered.len() {
                    assert(self.sessions@[a] == filtered[a] && self.sessions@[b] == filtered[b]);
                } else {
                    // one of the two is the freshly pushed session: the other
                    // survived the filter, so it belongs to a different
                    // account and, by the collision check above, carries a
                    // different token
                    let c = if a < filtered.len() {
                        a
                    } else {
                        b
                    };
                    assert(self.sessions@[c] == filtered[c]);
                    assert(old(self).sessions@.contains(filtered[c]));
                    let w = choose|w: int|
                        0 <= w < old(self).sessions@.len() && old(self).sessions@[w] == filtered[c];
                    assert(!(old(self).sessions@[w].session_id.0@ == session_id.0@ && old(
                        self,
                    ).sessions@[w].user_id.0 != user_id.0));
                }
            }
        }
        Ok(session_id)
    }

    /// Verify the password against the account's hash; on a match, draw a
    /// fresh token and bind it to the account, replacing any earlier session.
    /// Rejected credentials are `Unauthorized`; a token drawn into a
    /// collision with another account's session is `Persistence`, and the
    /// store is then unchanged.
    pub fn create_session(&mut self, user: &User, password: &str) -> (r: Result<
        SessionId,
        StoreError,
    >)
        requires
            old(self).wf(),
        ensures
            final(self).wf(),
            same_users(*old(self), *final(self)),
            same_tasks(*old(self), *final(self)),
            same_events(*old(self), *final(self)),
            r matches Err(_) ==> *final(self) == *old(self),
            (r matches Err(e) && e == StoreError::Unauthorized) <==> !bcrypt_matches(
                password@,
                user.password@,
            ),
            r matches Ok(token) ==> final(self).sessions@ == sessions_upsert(
                old(self).sessions@,
                Session { session_id: token, user_id: user.id },
            ) && final(self).spec_resolve(token.0@) == Some(user.id),
    {
        if !credentials::verify(password, user.password.as_str()) {
            return Err(StoreError::Unauthorized);
        }
        let token = SessionId(random_token());
        match self.insert_session(user.id, token) {
            Ok(token) => {
                proof {
                    let post = *self;
                    assert(post.sessions@.last().session_id.0@ == token.0@);
                    assert(post.spec_has_token(token.0@));
                    let j = choose|j: int|
                        0 <= j < post.sessions@.len() && (#[trigger] post.sessions@[j]).session_id.0@
                            == token.0@;
                    assert(j == post.sessions@.len() - 1);
                }
                Ok(token)
            },
            Err(e) => Err(e),
        }
    }

    /// Whether a task with this id exists and is owned by this account.
    /// Absence and foreign ownership are deliberately the same outcome.
    pub open spec fn spec_task_owned(self, task_id: TaskId, user_id: UserId) -> bool {
        exists|i: int|
            0 <= i < self.tasks@.len() && (#[trigger] self.tasks@[i]).id.0 == task_id.0
                && self.tasks@[i].user_id.0 == user_id.0
    }

    /// The row index of the task this id and owner name; meaningful only
    /// under `spec_task_owned`, and unique under `wf`.
    pub open spec fn spec_task_index(self, task_id: TaskId, user_id: UserId) -> int {
        choose|i: int|
            0 <= i < self.tasks@.len() && (#[trigger] self.tasks@[i]).id.0 == task_id.0
                && self.tasks@[i].user_id.0 == user_id.0
    }

    fn find_task_index(&self, task_id: TaskId, user_id: UserId) -> (r: Option<usize>)
        requires
            self.wf(),
        ensures
            r matches Some(i) ==> i == self.spec_task_index(task_id, user_id)
                && self.spec_task_owned(task_id, user_id) && 0 <= i < self.tasks@.len(),
            r is None <==> !self.spec_task_owned(task_id, user_id),
    {
        let n = self.tasks.len();
        let mut i: usize = 0;
        while i < n
            invariant
                self.wf(),
                n == self.tasks@.len(),
                i <= n,
                forall|k: int|
                    0 <= k < i ==> !((#[trigger] self.tasks@[k]).id.0 == task_id.0
                        && self.tasks@[k].user_id.0 == user_id.0),
            decreases n - i,
        {
            if self.tasks[i].id.0 == task_id.0 && self.tasks[i].user_id.0 == user_id.0 {
                proof {
                    assert(self.tasks@[i as int].id.0 == task_id.0);
                    let j = self.spec_task_index(task_id, user_id);
                    assert(self.tasks@[j].id.0 == task_id.0);
                    assert(j == i as int);
                }
                return Some(i);
            }
            i = i + 1;
        }
        None
    }

    /// Insert a task under its owner and hand the stored row back, with its
    /// server-assigned id, external id and creation time (`now`, the caller's
    /// reading of the clock). Fails only when the id space is exhausted.
    pub fn add_task(&mut self, new_task: NewTask, now: i64) -> (r: Result<Task, StoreError>)
        requires
            old(self).wf(),
        ensures
            final(self).wf(),
            same_users(*old(self), *final(self)),
            same_sessions(*old(self), *final(self)),
            same_events(*old(self), *final(self)),
            r matches Err(e) ==> *final(self) == *old(self) && e == StoreError::Persistence && old(
                self,
            ).next_task_id == i32::MAX,
            old(self).next_task_id < i32::MAX ==> r is Ok,
            r matches Ok(t) ==> {
                &&& final(self).tasks@ == old(self).tasks@.push(t)
                &&& t.id.0 == old(self).next_task_id
                &&& t.user_id == new_task.user_id
                &&& t.name@ == new_task.name@
                &&& t.description@ == spec_description(new_task.description)
                &&& t.created_on == now
                &&& final(self).next_task_id == old(self).next_task_id + 1
            },
    {
        if self.next_task_id == i32::MAX {
            return Err(StoreError::Persistence);
        }
        let description = match new_task.description {
            Some(d) => d,
            None => String::new(),
        };
        let task = Task {
            id: TaskId(self.next_task_id),
            uuid: fresh_uuid(),
            user_id: new_task.user_id,
            name: new_task.name,
            description,
            created_on: now,
        };
        let out = task.clone();
        self.tasks.push(task);
        self.next_task_id = self.next_task_id + 1;
        Ok(out)
    }

    /// Update the name and description of the task matching **both** the id
    /// and the owner, in one step; the id, external id, owner and creation
    /// time are kept. A wrong id and a task owned by someone else fail alike
    /// with `NotFound`.
    pub fn update_task(&mut self, new_task: NewTask, task_id: TaskId) -> (r: Result<
        Task,
        StoreError,
    >)
        requires
            old(self).wf(),
        ensures
            final(self).wf(),
            same_users(*old(self), *final(self)),
            same_sessions(*old(self), *final(self)),
            same_events(*old(self), *final(self)),
            final(self).next_task_id == old(self).next_task_id,
            !old(self).spec_task_owned(task_id, new_task.user_id) ==> r == Err::<
                Task,
                StoreError,
            >(StoreError::NotFound) && *final(self) == *old(self),
            old(self).spec_task_owned(task_id, new_task.user_id) ==> (r matches Ok(t) && {
                let i = old(self).spec_task_index(task_id, new_task.user_id);
                &&& final(self).tasks@ == old(self).tasks@.update(i, t)
                &&& t.id == old(self).tasks@[i].id
                &&& t.uuid == old(self).tasks@[i].uuid
                &&& t.user_id == old(self).tasks@[i].user_id
                &&& t.created_on == old(self).tasks@[i].created_on
                &&& t.name@ == new_task.name@
                &&& t.description@ == spec_description(new_task.description)
            }),
    {
        let i = match self.find_task_index(task_id, new_task.user_id) {
            Some(i) => i,
            None => {
                return Err(StoreError::NotFound);
            },
        };
        let description = match new_task.description {
            Some(d) => d,
            None => String::new(),
        };
        let updated = Task {
            id: self.tasks[i].id,
            uuid: self.tasks[i].uuid.clone(),
            user_id: self.tasks[i].user_id,
            name: new_task.name,
            description,
            created_on: self.tasks[i].created_on,
        };
        let out = updated.clone();
        self.tasks[i] = updated;
        proof {
            assert(task_ids_unique(self.tasks@)) by {
                assert(forall|k: int|
                    0 <= k < self.tasks@.len() ==> (#[trigger] self.tasks@[k]).id.0 == old(
                        self,
                    ).tasks@[k].id.0);
            }
        }
        Ok(out)
    }

    /// Record an event against a task. The task must exist and belong to the
    /// event's owner; a wrong task id and a task owned by someone else fail
    /// alike with `NotFound`. Fails with `Persistence` only when the id space
    /// is exhausted.
    pub fn add_event(&mut self, new_event: NewEvent) -> (r: Result<Event, StoreError>)
        requires
            old(self).wf(),
        ensures
            final(self).wf(),
            same_users(*old(self), *final(self)),
            same_sessions(*old(self), *final(self)),
            same_tasks(*old(self), *final(self)),
            !old(self).spec_task_owned(new_event.task_id, new_event.user_id) ==> r == Err::<
                Event,
                StoreError,
            >(StoreError::NotFound) && *final(self) == *old(self),
            old(self).spec_task_owned(new_event.task_id, new_event.user_id) ==> (r matches Err(e)
                ==> e == StoreError::Persistence && *final(self) == *old(self) && old(
                self,
            ).next_event_id == i32::MAX),
            old(self).spec_task_owned(new_event.task_id, new_event.user_id) && old(
                self,
            ).next_event_id < i32::MAX ==> r is Ok,
            r matches Ok(e) ==> {
                &&& final(self).events@ == old(self).events@.push(e)
                &&& e.id.0 == old(self).next_event_id
                &&& e.user_id == new_event.user_id
                &&& e.task_id == new_event.task_id
                &&& e.date_began == new_event.date_began
                &&& e.duration == new_event.duration
                &&& e.notes == new_event.notes
                &&& final(self).next_event_id == old(self).next_event_id + 1
            },
    {
        if self.find_task_index(new_event.task_id, new_event.user_id).is_none() {
            return Err(StoreError::NotFound);
        }
        if self.next_event_id == i32::MAX {
            return Err(StoreError::Persistence);
        }
        let event = Event {
            id: EventId(self.next_event_id),
            uuid: fresh_uuid(),
            user_id: new_event.user_id,
            task_id: new_event.task_id,
            date_began: new_event.date_began,
            duration: new_event.duration,
            notes: new_event.notes,
        };
        let out = event.clone();
        self.events.push(event);
        self.next_event_id = self.next_event_id + 1;
        Ok(out)
    }

    /// All tasks owned by this account, in insertion order.
    pub fn get_tasks_by_user(&self, user_id: UserId) -> (r: Vec<Task>)
        ensures
            r@ == self.tasks@.filter(owned_task(user_id)),
    {
        let n = self.tasks.len();
        let mut found: Vec<Task> = Vec::new();
        let mut i: usize = 0;
        while i < n
            invariant
                n == self.tasks@.len(),
                i <= n,
                found@ == self.tasks@.subrange(0, i as int).filter(owned_task(user_id)),
            decreases n - i,
        {
            proof {
                assert(self.tasks@.subrange(0, i as int + 1) =~= self.tasks@.subrange(
                    0,
                    i as int,
                ).push(self.tasks@[i as int]));
                lemma_filter_push(
                    self.tasks@.subrange(0, i as int),
                    owned_task(user_id),
                    self.tasks@[i as int],
                );
            }
            if self.tasks[i].user_id.0 == user_id.0 {
                found.push(self.tasks[i].clone());
            }
            i = i + 1;
        }
        proof {
            assert(self.tasks@.subrange(0, n as int) =~= self.tasks@);
        }
        found
    }

    /// All events of one task, in insertion order.
    pub fn get_events_by_task(&self, task_id: TaskId) -> (r: Vec<Event>)
        ensures
            r@ == self.events@.filter(event_of_task(task_id)),
    {
        let n = self.events.len();
        let mut found: Vec<Event> = Vec::new();
        let mut i: usize = 0;
        while i < n
            invariant
                n == self.events@.len(),
                i <= n,
                found@ == self.events@.subrange(0, i as int).filter(event_of_task(task_id)),
            decreases n - i,
        {
            proof {
                assert(self.events@.subrange(0, i as int + 1) =~= self.events@.subrange(
                    0,
                    i as int,
                ).push(self.events@[i as int]));
                lemma_filter_push(
                    self.events@.subrange(0, i as int),
                    event_of_task(task_id),
                    self.events@[i as int],
                );
            }
            if self.events[i].task_id.0 == task_id.0 {
                found.push(self.events[i].clone());
            }
            i = i + 1;
        }
        proof {
            assert(self.events@.subrange(0, n as int) =~= self.events@);
        }
        found
    }

    /// The task this id and owner name. A wrong id and a task owned by
    /// someone else fail alike with `NotFound`.
    pub fn get_task_by_id(&self, task_id: TaskId, user_id: UserId) -> (r: Result<Task, StoreError>)
        requires
            self.wf(),
        ensures
            r matches Ok(t) ==> self.spec_task_owned(task_id, user_id) && t == self.tasks@[self.spec_task_index(task_id, user_id)],
            r matches Err(e) ==> e == StoreError::NotFound && !self.spec_task_owned(
                task_id,
                user_id,
            ),
    {
        match self.find_task_index(task_id, user_id) {
            Some(i) => Ok(self.tasks[i].clone()),
            None => Err(StoreError::NotFound),
        }
    }

    /// The task this id and owner name, together with every event recorded
    /// against it — the empty sequence, never an absence, when it has none.
    pub fn get_task_with_events_by_task_id(&self, task_id: TaskId, user_id: UserId) -> (r: Result<
        TaskWithEvents,
        StoreError,
    >)
        requires
            self.wf(),
        ensures
            r matches Ok(twe) ==> {
                &&& self.spec_task_owned(task_id, user_id)
                &&& twe.task == self.tasks@[self.spec_task_index(task_id, user_id)]
                &&& twe.events@ == self.events@.filter(event_of_task(task_id))
            },
            r matches Err(e) ==> e == StoreError::NotFound && !self.spec_task_owned(
                task_id,
                user_id,
            ),
    {
        let task = match self.get_task_by_id(task_id, user_id) {
            Ok(t) => t,
            Err(e) => {
                return Err(e);
            },
        };
        let events = self.get_events_by_task(task_id);
        Ok(TaskWithEvents { task, events })
    }

    /// The aggregation: one entry for every task owned by this account, in
    /// insertion order, each carrying exactly the events recorded against
    /// that task. A task with no events appears with an empty sequence; a
    /// task is never repeated per event.
    pub fn get_user_tasks_with_events(&self, user_id: UserId) -> (r: Vec<TaskWithEvents>)
        requires
            self.wf(),
        ensures
            r@.len() == self.tasks@.filter(owned_task(user_id)).len(),
            forall|i: int|
                0 <= i < r@.len() ==> (#[trigger] r@[i]).task == self.tasks@.filter(
                    owned_task(user_id),
                )[i] && r@[i].events@ == self.events@.filter(event_of_task(r@[i].task.id)),
    {
        let owned = self.get_tasks_by_user(user_id);
        let n = owned.len();
        let mut result: Vec<TaskWithEvents> = Vec::new();
        let mut i: usize = 0;
        while i < n
            invariant
                self.wf(),
                n == owned@.len(),
                i <= n,
                owned@ == self.tasks@.filter(owned_task(user_id)),
                result@.len() == i,
                forall|k: int|
                    0 <= k < i ==> (#[trigger] result@[k]).task == owned@[k]
                        && result@[k].events@ == self.events@.filter(
                        event_of_task(result@[k].task.id),
                    ),
            decreases n - i,
        {
            let task = owned[i].clone();
            let events = self.get_events_by_task(task.id);
            result.push(TaskWithEvents { task, events });
            i = i + 1;
        }
        result
    }
}

/// Relies on rand::random: draws 64 bits from the thread-local generator and
/// renders them in decimal. Nothing is promised of the value; uniqueness of
/// live tokens is enforced where the token is stored, never assumed here.
#[verifier::external_body]
fn random_token() -> (r: String) {
    rand::random::<u64>().to_string()
}

/// The transition a successful registration makes: one account is appended,
/// holding the requested email, a fresh id, and a hash that matches the
/// requested password; nothing else changes, and the email was free before.
pub open spec fn spec_registered(pre: Store, post: Store, new_user: LoginDetails) -> bool {
    &&& !pre.spec_has_email(new_user.email.0@)
    &&& post.users@.len() == pre.users@.len() + 1
    &&& post.users@.drop_last() == pre.users@
    &&& post.users@.last().id.0 == pre.next_user_id
    &&& post.users@.last().email == new_user.email
    &&& bcrypt_matches(new_user.password@, post.users@.last().password@)
    &&& post.next_user_id == pre.next_user_id + 1
    &&& same_sessions(pre, post)
    &&& same_tasks(pre, post)
    &&& same_events(pre, post)
}

/// The sessions that do not belong to this account.
pub open spec fn not_owned_by(user_id: UserId) -> spec_fn(Session) -> bool {
    |t: Session| t.user_id.0 != user_id.0
}

/// The transition a login's session upsert makes: any earlier session of the
/// same account goes away, and the new one is appended.
pub open spec fn sessions_upsert(sessions: Seq<Session>, s: Session) -> Seq<Session> {
    sessions.filter(not_owned_by(s.user_id)).push(s)
}

/// Filtering sessions keeps both uniqueness properties: a subsequence of
/// pairwise-distinct rows is pairwise distinct.
pub(crate) proof fn lemma_filter_sessions_unique(s: Seq<Session>, pred: spec_fn(Session) -> bool)
    requires
        session_tokens_unique(s),
        session_users_unique(s),
    ensures
        session_tokens_unique(s.filter(pred)),
        session_users_unique(s.filter(pred)),
    decreases s.len(),
{
    reveal(Seq::filter);
    if s.len() != 0 {
        let prefix = s.drop_last();
        assert(session_tokens_unique(prefix)) by {
            assert(forall|i: int| 0 <= i < prefix.len() ==> prefix[i] == s[i]);
        }
        assert(session_users_unique(prefix)) by {
            assert(forall|i: int| 0 <= i < prefix.len() ==> prefix[i] == s[i]);
        }
        lemma_filter_sessions_unique(prefix, pred);
        lemma_filter_membership(prefix, pred);
        if pred(s.last()) {
            let f = s.filter(pred);
            let pf = prefix.filter(pred);
            assert(f == pf.push(s.last()));
            assert forall|a: int, b: int|
                0 <= a < f.len() && 0 <= b < f.len() && a != b implies (
            #[trigger] f[a]).session_id.0@ != (#[trigger] f[b]).session_id.0@ && f[a].user_id.0
                != f[b].user_id.0 by {
                if a < pf.len() && b < pf.len() {
                    assert(f[a] == pf[a] && f[b] == pf[b]);
                } else {
                    let c = if a < pf.len() {
                        a
                    } else {
                        b
                    };
                    assert(f[c] == pf[c]);
                    assert(prefix.contains(pf[c]));
                    let w = choose|w: int| 0 <= w < prefix.len() && prefix[w] == pf[c];
                    assert(s[w] == pf[c]);
                    assert(s[s.len() - 1] == s.last());
                }
            }
        }
    }
}

/// Appending an element to a sequence extends its filtrate by that element
/// exactly when the element passes the filter.
pub(crate) proof fn lemma_filter_push<A>(s: Seq<A>, pred: spec_fn(A) -> bool, x: A)
    ensures
        s.push(x).filter(pred) == if pred(x) {
            s.filter(pred).push(x)
        } else {
            s.filter(pred)
        },
{
    reveal(Seq::filter);
    assert(s.push(x).drop_last() =~= s);
}

/// Every element of a filtrate occurs in the sequence it was filtered from.
pub(crate) proof fn lemma_filter_membership<A>(s: Seq<A>, pred: spec_fn(A) -> bool)
    ensures
        forall|i: int|
            0 <= i < s.filter(pred).len() ==> s.contains(#[trigger] s.filter(pred)[i]),
    decreases s.len(),
{
    reveal(Seq::filter);
    if s.len() != 0 {
        let prefix = s.drop_last();
        lemma_filter_membership(prefix, pred);
        assert forall|i: int| 0 <= i < s.filter(pred).len() implies s.contains(
            #[trigger] s.filter(pred)[i],
        ) by {
            if i < prefix.filter(pred).len() {
                assert(prefix.contains(prefix.filter(pred)[i]));
                let j = choose|j: int| 0 <= j < prefix.len() && prefix[j] == prefix.filter(pred)[i];
                assert(s[j] == s.filter(pred)[i]);
            } else {
                assert(s.filter(pred)[i] == s.last());
                assert(s[s.len() - 1] == s.last());
            }
        }
    }
}

/// Relies on uuid::Uuid::new_v4: a fresh random version-4 UUID, rendered in
/// the hyphenated form, which is always 36 characters.
#[verifier::external_body]
fn fresh_uuid() -> (r: String)
    ensures
        r@.len() == 36,
{
    uuid::Uuid::new_v4().to_string()
}

} // verus!
