//! Properties that hold across calls of the store's operations, stated over
//! the postconditions of those operations and proved from them.
use vstd::prelude::*;
use crate::todo::{Todo, TodoView, TodoError, MAX_USERS, MAX_TODO_PER_USER, MAX_TODO_CHARS};
use crate::store::{
    TodoStore,
    Entry,
    parts_wf,
    add_todo_post,
    update_todo_post,
    delete_todo_post,
    has_id,
    pos_of_id,
    lemma_pos_of_id,
};

verus! {

/// No operation moves the id counter back: a successful `add_todo` advances
/// it by one, and everything else leaves it where it was.
pub proof fn law_counter_never_decreases(
    s0: TodoStore,
    s1: TodoStore,
    user: Seq<char>,
    id: u128,
    task: Seq<char>,
    ra: Result<Todo, TodoError>,
    ru: Result<(), TodoError>,
    rd: Result<(), TodoError>,
)
    ensures
        add_todo_post(s0, s1, user, task, ra) ==> s1.last_id() == s0.last_id() + if ra is Ok {
            1int
        } else {
            0int
        },
        update_todo_post(s0, s1, user, id, task, ru) ==> s1.last_id() == s0.last_id(),
        delete_todo_post(s0, s1, user, id, rd) ==> s1.last_id() == s0.last_id(),
{
}

/// When a record of acceptable length is added for a caller below both
/// ceilings, the call succeeds, and the caller's list afterwards is the list
/// before with exactly one more record at the end: it holds that text, and
/// its id was never issued before, to this caller or to any other.
pub proof fn law_add_then_list(
    s0: TodoStore,
    s1: TodoStore,
    user: Seq<char>,
    task: Seq<char>,
    r: Result<Todo, TodoError>,
)
    requires
        s0.wf(),
        task.len() <= MAX_TODO_CHARS,
        s0.last_id() < u128::MAX,
        s0.has_user(user) || s0.num_users() < MAX_USERS,
        s0.todos_of(user).len() < MAX_TODO_PER_USER,
        add_todo_post(s0, s1, user, task, r),
    ensures
        r is Ok,
        s1.todos_of(user).len() == s0.todos_of(user).len() + 1,
        s1.todos_of(user).drop_last() == s0.todos_of(user),
        s1.todos_of(user).last() == r->Ok_0@,
        r->Ok_0.task@ == task,
        r->Ok_0.id > s0.last_id(),
        forall|u: Seq<char>| !has_id(#[trigger] s0.todos_of(u), r->Ok_0.id),
{
    assert(s1.todos_of(user).drop_last() =~= s0.todos_of(user));
    assert forall|u: Seq<char>| !has_id(#[trigger] s0.todos_of(u), r->Ok_0.id) by {
        s0.lemma_wf_bounds(u);
        if has_id(s0.todos_of(u), r->Ok_0.id) {
            let k = pos_of_id(s0.todos_of(u), r->Ok_0.id);
            assert(s0.todos_of(u)[k].id <= s0.last_id());
        }
    }
}

/// Ids grow strictly in the order of successful additions, whoever the
/// callers: an addition made after another (with any operations between
/// them, none of which moves the counter back) gets a larger id.
pub proof fn law_ids_increase(
    s0: TodoStore,
    s1: TodoStore,
    s2: TodoStore,
    s3: TodoStore,
    u1: Seq<char>,
    t1: Seq<char>,
    r1: Result<Todo, TodoError>,
    u2: Seq<char>,
    t2: Seq<char>,
    r2: Result<Todo, TodoError>,
)
    requires
        add_todo_post(s0, s1, u1, t1, r1),
        r1 is Ok,
        s2.last_id() >= s1.last_id(),
        add_todo_post(s2, s3, u2, t2, r2),
        r2 is Ok,
    ensures
        r1->Ok_0.id < r2->Ok_0.id,
{
}

/// A successful update touches one record at most: the caller's record with
/// that id gets the new text and keeps its id and place; its other records
/// and every other caller's records stay as they were. Where the caller has
/// no record with that id, its list is unchanged.
pub proof fn law_update_touches_one(
    s0: TodoStore,
    s1: TodoStore,
    user: Seq<char>,
    id: u128,
    task: Seq<char>,
    r: Result<(), TodoError>,
)
    requires
        s0.wf(),
        update_todo_post(s0, s1, user, id, task, r),
        r is Ok,
    ensures
        s1.todos_of(user).len() == s0.todos_of(user).len(),
        has_id(s0.todos_of(user), id) ==> {
            let k = pos_of_id(s0.todos_of(user), id);
            &&& s0.todos_of(user)[k].id == id
            &&& s1.todos_of(user)[k] == (TodoView { id, task })
            &&& forall|j: int|
                0 <= j < s0.todos_of(user).len() && j != k ==> #[trigger] s1.todos_of(user)[j]
                    == s0.todos_of(user)[j]
        },
        !has_id(s0.todos_of(user), id) ==> s1.todos_of(user) == s0.todos_of(user),
        forall|u: Seq<char>| u != user ==> #[trigger] s1.todos_of(u) == s0.todos_of(u),
{
}

/// A successful delete removes exactly one record where the caller has one
/// with that id, keeping the others in order, and changes nothing where it
/// has none; other callers' records stay as they were.
pub proof fn law_delete_removes_one(
    s0: TodoStore,
    s1: TodoStore,
    user: Seq<char>,
    id: u128,
    r: Result<(), TodoError>,
)
    requires
        s0.wf(),
        delete_todo_post(s0, s1, user, id, r),
        r is Ok,
    ensures
        has_id(s0.todos_of(user), id) ==> {
            &&& s1.todos_of(user).len() == s0.todos_of(user).len() - 1
            &&& s1.todos_of(user) == s0.todos_of(user).remove(pos_of_id(s0.todos_of(user), id))
            &&& !has_id(s1.todos_of(user), id)
        },
        !has_id(s0.todos_of(user), id) ==> s1.todos_of(user) == s0.todos_of(user),
        forall|u: Seq<char>| u != user ==> #[trigger] s1.todos_of(u) == s0.todos_of(u),
{
    if has_id(s0.todos_of(user), id) {
        let l = s0.todos_of(user);
        let k = pos_of_id(l, id);
        s0.lemma_wf_bounds(user);
        lemma_pos_of_id(l, id, k);
        if has_id(s1.todos_of(user), id) {
            let j = pos_of_id(s1.todos_of(user), id);
            let oj = if j < k { j } else { j + 1 };
            assert(s1.todos_of(user)[j] == l[oj]);
            assert(l[oj].id != l[k].id);
        }
    }
}

/// An id that a delete removed is never handed out again by a later
/// addition, whatever happened in between without moving the counter back.
pub proof fn law_deleted_id_not_reissued(
    s0: TodoStore,
    s1: TodoStore,
    s2: TodoStore,
    s3: TodoStore,
    user: Seq<char>,
    id: u128,
    rd: Result<(), TodoError>,
    u2: Seq<char>,
    t2: Seq<char>,
    ra: Result<Todo, TodoError>,
)
    requires
        s0.wf(),
        has_id(s0.todos_of(user), id),
        delete_todo_post(s0, s1, user, id, rd),
        s2.last_id() >= s1.last_id(),
        add_todo_post(s2, s3, u2, t2, ra),
        ra is Ok,
    ensures
        ra->Ok_0.id != id,
{
    let l = s0.todos_of(user);
    s0.lemma_wf_bounds(user);
    let k = pos_of_id(l, id);
    assert(l[k].id <= s0.last_id());
}

/// Adding a text of more than `MAX_TODO_CHARS` characters always fails and
/// changes nothing.
pub proof fn law_long_text_refused(
    s0: TodoStore,
    s1: TodoStore,
    user: Seq<char>,
    task: Seq<char>,
    r: Result<Todo, TodoError>,
)
    requires
        task.len() > MAX_TODO_CHARS,
        add_todo_post(s0, s1, user, task, r),
    ensures
        r == Err::<Todo, TodoError>(TodoError::TaskTooLong),
        s1 == s0,
        forall|u: Seq<char>| #[trigger] s1.todos_of(u) == s0.todos_of(u),
{
}

/// A caller that holds `MAX_TODO_PER_USER` records cannot add another: the
/// call fails and changes nothing. No caller ever holds more.
pub proof fn law_per_user_ceiling(
    s0: TodoStore,
    s1: TodoStore,
    user: Seq<char>,
    task: Seq<char>,
    r: Result<Todo, TodoError>,
)
    requires
        s0.wf(),
        s0.todos_of(user).len() == MAX_TODO_PER_USER,
        add_todo_post(s0, s1, user, task, r),
    ensures
        r is Err,
        s1 == s0,
        forall|u: Seq<char>| #[trigger] s1.todos_of(u).len() <= MAX_TODO_PER_USER,
{
    assert forall|u: Seq<char>| #[trigger] s1.todos_of(u).len() <= MAX_TODO_PER_USER by {
        s0.lemma_wf_bounds(u);
    }
}

/// Once `MAX_USERS` callers hold entries, a caller without one cannot add a
/// record: the call fails and changes nothing. The number of callers with
/// entries never exceeds `MAX_USERS`.
pub proof fn law_user_ceiling(
    s0: TodoStore,
    s1: TodoStore,
    user: Seq<char>,
    task: Seq<char>,
    r: Result<Todo, TodoError>,
)
    requires
        s0.wf(),
        s0.num_users() == MAX_USERS,
        !s0.has_user(user),
        add_todo_post(s0, s1, user, task, r),
    ensures
        r is Err,
        s1 == s0,
        s1.num_users() <= MAX_USERS,
{
    s0.lemma_wf_bounds(user);
}

/// Saving a store's parts and rebuilding from them gives back the same
/// store: the rebuild succeeds, and every caller has the same entry and
/// records, under the same last id.
pub proof fn law_parts_round_trip(s: TodoStore, counter: u128, entries: Seq<Entry>, r: Option<TodoStore>)
    requires
        s.wf(),
        counter == s.last_id(),
        entries == s.entries(),
        r is Some <==> parts_wf(counter, entries),
        r matches Some(t) ==> t.last_id() == counter && t.entries() == entries,
    ensures
        r is Some,
        r->Some_0.wf(),
        r->Some_0.last_id() == s.last_id(),
        r->Some_0.num_users() == s.num_users(),
        forall|u: Seq<char>| #[trigger] r->Some_0.has_user(u) == s.has_user(u),
        forall|u: Seq<char>| #[trigger] r->Some_0.todos_of(u) == s.todos_of(u),
{
    s.lemma_parts_wf();
    s.lemma_same_parts(r->Some_0);
}

} // verus!
