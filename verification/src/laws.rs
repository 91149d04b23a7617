//! The properties the library stands on, each proved from the contracts the
//! store and the API state.

use vstd::prelude::*;

use crate::credentials::bcrypt_matches;
use crate::models::{Event, LoginDetails, Task, TaskId, UserId};
use crate::store::{
    event_of_task, lemma_filter_membership, lemma_filter_push, not_owned_by, owned_task,
    sessions_upsert, spec_registered, task_ids_unique, Session, Store,
};

verus! {

/// Registering an email is possible at most once: a successful registration
/// leaves the email held by an account, and `register_account` answers
/// `Conflict` for every email that is held.
pub proof fn lemma_registration_uniqueness(pre: Store, post: Store, new_user: LoginDetails)
    requires
        spec_registered(pre, post, new_user),
    ensures
        post.spec_has_email(new_user.email.0@),
{
    assert(post.users@[post.users@.len() - 1].email.0@ == new_user.email.0@);
}

/// The password round-trips through registration: after an account is
/// created, the very credentials it was created with pass the check that
/// `login` performs — the account is found under its email and the stored
/// hash matches the password.
pub proof fn lemma_password_round_trip(pre: Store, post: Store, new_user: LoginDetails)
    requires
        spec_registered(pre, post, new_user),
    ensures
        post.spec_has_email(new_user.email.0@),
        bcrypt_matches(
            new_user.password@,
            post.spec_user_for_email(new_user.email.0@).password@,
        ),
{
    let last = post.users@.len() - 1;
    assert(post.users@[last].email.0@ == new_user.email.0@);
    let j = choose|j: int|
        0 <= j < post.users@.len() && (#[trigger] post.users@[j]).email.0@ == new_user.email.0@;
    if j < last {
        assert(pre.users@[j] == post.users@.drop_last()[j]);
        assert(pre.spec_has_email(new_user.email.0@));
    }
    assert(j == last);
}

/// Every element of a sequence that already satisfies the filter survives it
/// unchanged.
proof fn lemma_filter_all<A>(s: Seq<A>, pred: spec_fn(A) -> bool)
    requires
        forall|i: int| 0 <= i < s.len() ==> pred(#[trigger] s[i]),
    ensures
        s.filter(pred) == s,
    decreases s.len(),
{
    reveal(Seq::filter);
    if s.len() != 0 {
        let prefix = s.drop_last();
        assert(forall|i: int| 0 <= i < prefix.len() ==> pred(#[trigger] prefix[i])) by {
            assert(forall|i: int| 0 <= i < prefix.len() ==> prefix[i] == s[i]);
        }
        lemma_filter_all(prefix, pred);
        assert(s.filter(pred) =~= s);
    }
}

/// A second login replaces the first session: after the two upserts, the
/// second token is live and bound to the account, and no live session carries
/// the first token any more. The first upsert must have gone through, i.e. no
/// other account held the first token in the base table.
pub proof fn lemma_session_replace(base: Seq<Session>, first: Session, second: Session)
    requires
        second.user_id.0 == first.user_id.0,
        second.session_id.0@ != first.session_id.0@,
        forall|i: int|
            0 <= i < base.len() && (#[trigger] base[i]).session_id.0@ == first.session_id.0@
                ==> base[i].user_id.0 == first.user_id.0,
    ensures
        ({
            let after = sessions_upsert(sessions_upsert(base, first), second);
            &&& after.len() > 0
            &&& after.last() == second
            &&& forall|i: int|
                0 <= i < after.len() ==> (#[trigger] after[i]).session_id.0@
                    != first.session_id.0@
        }),
{
    let pred = not_owned_by(first.user_id);
    assert(second.user_id == first.user_id);
    let others = base.filter(pred);
    let m1 = sessions_upsert(base, first);
    lemma_filter_membership(base, pred);
    assert forall|i: int| 0 <= i < others.len() implies pred(#[trigger] others[i]) by {
        Seq::lemma_filter_pred(base, pred, i);
    }
    lemma_filter_push(others, pred, first);
    assert(m1.filter(pred) == others.filter(pred));
    lemma_filter_all(others, pred);
    let after = sessions_upsert(m1, second);
    assert(after == others.push(second));
    assert forall|i: int| 0 <= i < after.len() implies (#[trigger] after[i]).session_id.0@
        != first.session_id.0@ by {
        if i < others.len() {
            assert(base.contains(others[i]));
            let w = choose|w: int| 0 <= w < base.len() && base[w] == others[i];
            assert(pred(others[i]));
        }
    }
}

/// Ownership isolates: a task owned by one account is, to every other
/// account, indistinguishable from a task that does not exist — the owner
/// match that `update_task` and the fetches require can hold for no caller
/// but the owner.
pub proof fn lemma_ownership_isolation(s: Store, task_id: TaskId, owner: UserId, caller: UserId)
    requires
        s.wf(),
        s.spec_task_owned(task_id, owner),
        caller.0 != owner.0,
    ensures
        !s.spec_task_owned(task_id, caller),
{
    if s.spec_task_owned(task_id, caller) {
        let i = choose|i: int|
            0 <= i < s.tasks@.len() && (#[trigger] s.tasks@[i]).id.0 == task_id.0
                && s.tasks@[i].user_id.0 == owner.0;
        let j = choose|j: int|
            0 <= j < s.tasks@.len() && (#[trigger] s.tasks@[j]).id.0 == task_id.0
                && s.tasks@[j].user_id.0 == caller.0;
        assert(i == j);
    }
}

/// The aggregation is complete and exact: the tasks it lists are precisely
/// the account's tasks, each exactly once; and for each listed task, the
/// events attached are precisely the events recorded against that task —
/// none dropped when there are zero, none borrowed from another task.
pub proof fn lemma_aggregation_completeness(tasks: Seq<Task>, events: Seq<Event>, user_id: UserId)
    requires
        task_ids_unique(tasks),
    ensures
        ({
            let owned = tasks.filter(owned_task(user_id));
            &&& forall|t: Task|
                #[trigger] owned.contains(t) <==> tasks.contains(t) && t.user_id.0 == user_id.0
            &&& task_ids_unique(owned)
            &&& forall|i: int, e: Event|
                0 <= i < owned.len() ==> (#[trigger] events.filter(
                    event_of_task(owned[i].id),
                ).contains(e) <==> events.contains(e) && e.task_id.0 == owned[i].id.0)
        }),
{
    let owned = tasks.filter(owned_task(user_id));
    lemma_filter_membership(tasks, owned_task(user_id));
    assert forall|t: Task| #[trigger] owned.contains(t) implies tasks.contains(t) && t.user_id.0
        == user_id.0 by {
        let i = choose|i: int| 0 <= i < owned.len() && owned[i] == t;
        Seq::lemma_filter_pred(tasks, owned_task(user_id), i);
    }
    assert forall|t: Task| tasks.contains(t) && t.user_id.0 == user_id.0 implies owned.contains(
        t,
    ) by {
        let w = choose|w: int| 0 <= w < tasks.len() && tasks[w] == t;
        Seq::lemma_filter_contains(tasks, owned_task(user_id), w);
    }
    lemma_filter_tasks_unique(tasks, owned_task(user_id));
    assert forall|i: int, e: Event|
        0 <= i < owned.len() implies (#[trigger] events.filter(
        event_of_task(owned[i].id),
    ).contains(e) <==> events.contains(e) && e.task_id.0 == owned[i].id.0) by {
        let of_task = events.filter(event_of_task(owned[i].id));
        lemma_filter_membership(events, event_of_task(owned[i].id));
        if of_task.contains(e) {
            let k = choose|k: int| 0 <= k < of_task.len() && of_task[k] == e;
            Seq::lemma_filter_pred(events, event_of_task(owned[i].id), k);
            assert(events.contains(of_task[k]));
        }
        if events.contains(e) && e.task_id.0 == owned[i].id.0 {
            let w = choose|w: int| 0 <= w < events.len() && events[w] == e;
            Seq::lemma_filter_contains(events, event_of_task(owned[i].id), w);
        }
    }
}

/// Filtering tasks keeps id uniqueness: a subsequence of rows with pairwise
/// distinct ids has pairwise distinct ids.
proof fn lemma_filter_tasks_unique(s: Seq<Task>, pred: spec_fn(Task) -> bool)
    requires
        task_ids_unique(s),
    ensures
        task_ids_unique(s.filter(pred)),
    decreases s.len(),
{
    reveal(Seq::filter);
    if s.len() != 0 {
        let prefix = s.drop_last();
        assert(task_ids_unique(prefix)) by {
            assert(forall|i: int| 0 <= i < prefix.len() ==> prefix[i] == s[i]);
        }
        lemma_filter_tasks_unique(prefix, pred);
        lemma_filter_membership(prefix, pred);
        if pred(s.last()) {
            let f = s.filter(pred);
            let pf = prefix.filter(pred);
            assert(f == pf.push(s.last()));
            assert forall|a: int, b: int|
                0 <= a < f.len() && 0 <= b < f.len() && a != b implies (#[trigger] f[a]).id.0 != (
            #[trigger] f[b]).id.0 by {
                if a < pf.len() && b < pf.len() {
                    assert(f[a] == pf[a] && f[b] == pf[b]);
                } else {
                    let c = if a < pf.len() {
                        a
                    } else {
                        b
                    };
                    assert(f[c] == pf[c]);
                    assert(prefix.contains(pf[c]));
                    let w = choose|w: int| 0 <= w < prefix.len() && prefix[w] == pf[c];
                    assert(s[w] == pf[c]);
                    assert(s[s.len() - 1] == s.last());
                }
            }
        }
    }
}

} // verus!
