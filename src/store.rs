use vstd::prelude::*;
use vstd::string::StrSliceExecFns;
use crate::todo::{Todo, TodoView, TodoError, todo_views, MAX_USERS, MAX_TODO_PER_USER, MAX_TODO_CHARS};

verus! {

/// One caller's entry: its identity and its records in insertion order.
pub type Entry = (String, Vec<Todo>);

/// The whole state: the id counter and one entry per registered caller.
///
/// Entries are kept in the order in which callers registered; identities are
/// unique among them. An entry stays once made, also when all of its records
/// are deleted, so the caller keeps its place among the `MAX_USERS`.
pub struct TodoStore {
    counter: u128,
    users: Vec<Entry>,
}

/// Whether `id` passes the coarse range check that guards updates and
/// deletions: below `MAX_TODO_PER_USER` times the number of registered callers.
pub open spec fn id_sane(s: TodoStore, id: u128) -> bool {
    (id as int) < MAX_TODO_PER_USER * s.num_users()
}

/// Whether every id in `l` occurs once.
pub open spec fn ids_unique(l: Seq<TodoView>) -> bool {
    forall|a: int, b: int| 0 <= a < l.len() && 0 <= b < l.len() && a != b ==> l[a].id != l[b].id
}

/// Which error, if any, `add_todo(user, task)` meets on `s`. The checks come
/// in this order: the text's length, the id space, the caller ceiling (only
/// for a caller with no entry), the per-caller ceiling.
pub open spec fn add_error(s: TodoStore, user: Seq<char>, task: Seq<char>) -> Option<TodoError> {
    if task.len() > MAX_TODO_CHARS {
        Some(TodoError::TaskTooLong)
    } else if s.last_id() >= u128::MAX {
        Some(TodoError::IdsExhausted)
    } else if !s.has_user(user) && s.num_users() >= MAX_USERS {
        Some(TodoError::TooManyUsers)
    } else if s.todos_of(user).len() >= MAX_TODO_PER_USER {
        Some(TodoError::TooManyTodos)
    } else {
        None
    }
}

/// `s1` is `s0` with record `t` appended to `user`'s list under the next id,
/// and an entry made for `user` if it had none; nothing else changed.
pub open spec fn added(s0: TodoStore, s1: TodoStore, user: Seq<char>, task: Seq<char>, t: TodoView) -> bool {
    &&& t.id == s0.last_id() + 1
    &&& t.task == task
    &&& s1.last_id() == s0.last_id() + 1
    &&& s1.has_user(user)
    &&& s1.todos_of(user) == s0.todos_of(user).push(t)
    &&& s1.num_users() == if s0.has_user(user) { s0.num_users() } else { s0.num_users() + 1 }
    &&& forall|u: Seq<char>| u != user ==> #[trigger] s1.has_user(u) == s0.has_user(u)
    &&& forall|u: Seq<char>| u != user ==> #[trigger] s1.todos_of(u) == s0.todos_of(u)
}

/// What `add_todo(user, task)` does: the error of [`add_error`] with the store
/// unchanged, or else the new record, added as [`added`] says.
pub open spec fn add_todo_post(
    s0: TodoStore,
    s1: TodoStore,
    user: Seq<char>,
    task: Seq<char>,
    r: Result<Todo, TodoError>,
) -> bool {
    match r {
        Ok(t) => add_error(s0, user, task) is None && added(s0, s1, user, task, t@),
        Err(e) => add_error(s0, user, task) == Some(e) && s1 == s0,
    }
}

/// Whether some record of `l` has id `id`.
pub open spec fn has_id(l: Seq<TodoView>, id: u128) -> bool {
    exists|k: int| 0 <= k < l.len() && #[trigger] l[k].id == id
}

/// The position in `l` of a record with id `id`, where [`has_id`] holds.
pub open spec fn pos_of_id(l: Seq<TodoView>, id: u128) -> int {
    choose|k: int| 0 <= k < l.len() && #[trigger] l[k].id == id
}

/// `l` with the text of the record whose id is `id` set to `task`; `l`
/// itself when no record has that id.
pub open spec fn with_task(l: Seq<TodoView>, id: u128, task: Seq<char>) -> Seq<TodoView> {
    if has_id(l, id) {
        l.update(pos_of_id(l, id), TodoView { id, task })
    } else {
        l
    }
}

/// `l` without the record whose id is `id`; `l` itself when no record has
/// that id.
pub open spec fn without_id(l: Seq<TodoView>, id: u128) -> Seq<TodoView> {
    if has_id(l, id) {
        l.remove(pos_of_id(l, id))
    } else {
        l
    }
}

/// `s1` is `s0` with `user`'s records set to `l`; no entry made or removed,
/// no id issued, no other caller's records touched.
pub open spec fn only_list_changed(s0: TodoStore, s1: TodoStore, user: Seq<char>, l: Seq<TodoView>) -> bool {
    &&& s1.last_id() == s0.last_id()
    &&& s1.num_users() == s0.num_users()
    &&& forall|u: Seq<char>| #[trigger] s1.has_user(u) == s0.has_user(u)
    &&& s1.todos_of(user) == l
    &&& forall|u: Seq<char>| u != user ==> #[trigger] s1.todos_of(u) == s0.todos_of(u)
}

/// Which error, if any, `update_todo` meets: the text's length first, then
/// the id's range.
pub open spec fn update_error(s: TodoStore, id: u128, task: Seq<char>) -> Option<TodoError> {
    if task.len() > MAX_TODO_CHARS {
        Some(TodoError::TaskTooLong)
    } else if !id_sane(s, id) {
        Some(TodoError::IdNotSane)
    } else {
        None
    }
}

/// What `update_todo(user, {id, task})` does: the error of [`update_error`]
/// with the store unchanged, or else `user`'s record with that id, if any,
/// gets text `task`.
pub open spec fn update_todo_post(
    s0: TodoStore,
    s1: TodoStore,
    user: Seq<char>,
    id: u128,
    task: Seq<char>,
    r: Result<(), TodoError>,
) -> bool {
    match r {
        Ok(_) => update_error(s0, id, task) is None && only_list_changed(
            s0,
            s1,
            user,
            with_task(s0.todos_of(user), id, task),
        ),
        Err(e) => update_error(s0, id, task) == Some(e) && s1 == s0,
    }
}

/// Which error, if any, `delete_todo` meets.
pub open spec fn delete_error(s: TodoStore, id: u128) -> Option<TodoError> {
    if !id_sane(s, id) {
        Some(TodoError::IdNotSane)
    } else {
        None
    }
}

/// What `delete_todo(user, id)` does: the error of [`delete_error`] with the
/// store unchanged, or else `user`'s record with that id, if any, is removed.
pub open spec fn delete_todo_post(
    s0: TodoStore,
    s1: TodoStore,
    user: Seq<char>,
    id: u128,
    r: Result<(), TodoError>,
) -> bool {
    match r {
        Ok(_) => delete_error(s0, id) is None && only_list_changed(
            s0,
            s1,
            user,
            without_id(s0.todos_of(user), id),
        ),
        Err(e) => delete_error(s0, id) == Some(e) && s1 == s0,
    }
}

/// With ids unique, the position that [`pos_of_id`] picks is the one where
/// the id stands.
pub proof fn lemma_pos_of_id(l: Seq<TodoView>, id: u128, k: int)
    requires
        ids_unique(l),
        0 <= k < l.len(),
        l[k].id == id,
    ensures
        has_id(l, id),
        pos_of_id(l, id) == k,
{
    assert(l[k].id == id);
    let j = pos_of_id(l, id);
    if j != k {
        assert(l[j].id != l[k].id);
    }
}

/// Whether the entries name distinct callers.
pub open spec fn owners_distinct(users: Seq<Entry>) -> bool {
    forall|i: int, j: int|
        0 <= i < users.len() && 0 <= j < users.len() && i != j ==> #[trigger] users[i].0@
            != #[trigger] users[j].0@
}

/// Whether record `(a, l)` comes before record `(i, k)` in the order of
/// entries, then of positions.
spec fn before(a: int, l: int, i: int, k: int) -> bool {
    a < i || (a == i && l < k)
}

/// Whether every entry holds at most `MAX_TODO_PER_USER` records, each with
/// a text of at most `MAX_TODO_CHARS` characters and an id from 1 to
/// `counter`.
pub open spec fn records_valid(counter: u128, users: Seq<Entry>) -> bool {
    &&& forall|i: int| 0 <= i < users.len() ==> #[trigger] users[i].1@.len() <= MAX_TODO_PER_USER
    &&& forall|i: int, k: int|
        0 <= i < users.len() && 0 <= k < users[i].1@.len() ==> {
            let t = #[trigger] users[i].1@[k];
            &&& t.task@.len() <= MAX_TODO_CHARS
            &&& 1 <= t.id <= counter
        }
}

/// Whether no id occurs twice among all the entries' records.
pub open spec fn ids_distinct(users: Seq<Entry>) -> bool {
    forall|i: int, j: int, k: int, l: int|
        0 <= i < users.len() && 0 <= j < users.len() && 0 <= k < users[i].1@.len() && 0 <= l
            < users[j].1@.len() && (i != j || k != l) ==> #[trigger] users[i].1@[k].id
            != #[trigger] users[j].1@[l].id
}

/// What a counter and a list of entries must satisfy to form a store: at
/// most `MAX_USERS` entries, with distinct callers; at most
/// `MAX_TODO_PER_USER` records in each; texts of at most `MAX_TODO_CHARS`
/// characters; ids from 1 to `counter`, no id twice in the whole store.
pub open spec fn parts_wf(counter: u128, users: Seq<Entry>) -> bool {
    &&& users.len() <= MAX_USERS
    &&& owners_distinct(users)
    &&& records_valid(counter, users)
    &&& ids_distinct(users)
}

/// Whether the entries name distinct callers; quadratic in their number,
/// which the callers bound by `MAX_USERS`.
fn check_owners(entries: &Vec<Entry>) -> (r: bool)
    ensures
        r == owners_distinct(entries@),
{
    let mut i: usize = 0;
    while i < entries.len()
        invariant
            i <= entries@.len(),
            forall|a: int, b: int|
                0 <= a < i && 0 <= b < i && a != b ==> #[trigger] entries@[a].0@
                    != #[trigger] entries@[b].0@,
        decreases entries@.len() - i,
    {
        let mut j: usize = 0;
        while j < i
            invariant
                i < entries@.len(),
                j <= i,
                forall|a: int, b: int|
                    0 <= a < i && 0 <= b < i && a != b ==> #[trigger] entries@[a].0@
                        != #[trigger] entries@[b].0@,
                forall|b: int| 0 <= b < j ==> #[trigger] entries@[b].0@ != entries@[i as int].0@,
            decreases i - j,
        {
            if entries[j].0 == entries[i].0 {
                assert(entries@[j as int].0@ == entries@[i as int].0@);
                return false;
            }
            j += 1;
        }
        i += 1;
    }
    true
}

/// Whether the records satisfy [`records_valid`] and [`ids_distinct`].
fn check_records(counter: u128, entries: &Vec<Entry>) -> (r: bool)
    ensures
        r == (records_valid(counter, entries@) && ids_distinct(entries@)),
{
    broadcast use vstd::std_specs::hash::group_hash_axioms;

    let ghost u = entries@;
    let mut seen: std::collections::HashSet<u128> = std::collections::HashSet::new();
    let mut i: usize = 0;
    while i < entries.len()
        invariant
            u == entries@,
            i <= u.len(),
            forall|a: int| 0 <= a < i ==> #[trigger] u[a].1@.len() <= MAX_TODO_PER_USER,
            forall|a: int, l: int|
                0 <= a < i && 0 <= l < u[a].1@.len() ==> {
                    let t = #[trigger] u[a].1@[l];
                    &&& t.task@.len() <= MAX_TODO_CHARS
                    &&& 1 <= t.id <= counter
                    &&& seen@.contains(t.id)
                },
            forall|x: u128|
                #[trigger] seen@.contains(x) ==> exists|a: int, l: int|
                    0 <= a < i && 0 <= l < u[a].1@.len() && #[trigger] u[a].1@[l].id == x,
            forall|a: int, b: int, k: int, l: int|
                0 <= a < i && 0 <= b < i && 0 <= k < u[a].1@.len() && 0 <= l < u[b].1@.len() && (a
                    != b || k != l) ==> #[trigger] u[a].1@[k].id != #[trigger] u[b].1@[l].id,
        decreases u.len() - i,
    {
        let list = &entries[i].1;
        if list.len() > MAX_TODO_PER_USER {
            return false;
        }
        let mut k: usize = 0;
        while k < list.len()
            invariant
                u == entries@,
                i < u.len(),
                list@ == u[i as int].1@,
                k <= list@.len(),
                forall|a: int| 0 <= a < i ==> #[trigger] u[a].1@.len() <= MAX_TODO_PER_USER,
                list@.len() <= MAX_TODO_PER_USER,
                forall|a: int, l: int|
                    0 <= a < u.len() && 0 <= l < u[a].1@.len() && before(a, l, i as int, k as int) ==> {
                        let t = #[trigger] u[a].1@[l];
                        &&& t.task@.len() <= MAX_TODO_CHARS
                        &&& 1 <= t.id <= counter
                        &&& seen@.contains(t.id)
                    },
                forall|x: u128|
                    #[trigger] seen@.contains(x) ==> exists|a: int, l: int|
                        0 <= a < u.len() && 0 <= l < u[a].1@.len() && before(a, l, i as int, k as int)
                            && #[trigger] u[a].1@[l].id == x,
                forall|a: int, b: int, p: int, l: int|
                    0 <= a < u.len() && 0 <= b < u.len() && 0 <= p < u[a].1@.len() && 0 <= l
                        < u[b].1@.len() && before(a, p, i as int, k as int) && before(b, l, i as int, k as int)
                        && (a != b || p != l) ==> #[trigger] u[a].1@[p].id != #[trigger] u[b].1@[l].id,
            decreases list@.len() - k,
        {
            let t = &list[k];
            if t.task.as_str().unicode_len() > MAX_TODO_CHARS || t.id == 0 || t.id > counter {
                return false;
            }
            let ghost s0 = seen@;
            if !seen.insert(t.id) {
                proof {
                    let (a, l) = choose|a: int, l: int|
                        0 <= a < u.len() && 0 <= l < u[a].1@.len() && before(a, l, i as int, k as int)
                            && #[trigger] u[a].1@[l].id == t.id;
                    assert(u[a].1@[l].id == u[i as int].1@[k as int].id);
                }
                return false;
            }
            proof {
                assert(u[i as int].1@[k as int] == *t);
                assert forall|x: u128| #[trigger] seen@.contains(x) implies exists|a: int, l: int|
                    0 <= a < u.len() && 0 <= l < u[a].1@.len() && before(a, l, i as int, k + 1)
                        && #[trigger] u[a].1@[l].id == x by {
                    if x == t.id {
                        assert(u[i as int].1@[k as int].id == x);
                    } else {
                        assert(s0.contains(x));
                    }
                }
            }
            k += 1;
        }
        i += 1;
    }
    true
}

impl TodoStore {
    /// The last id issued so far; 0 before the first.
    pub closed spec fn last_id(&self) -> nat {
        self.counter as nat
    }

    /// The number of callers that hold an entry.
    pub closed spec fn num_users(&self) -> nat {
        self.users@.len()
    }

    closed spec fn owner_at(&self, i: int) -> Seq<char> {
        self.users@[i].0@
    }

    closed spec fn list_at(&self, i: int) -> Seq<Todo> {
        self.users@[i].1@
    }

    /// Whether caller `u` holds an entry (possibly one with no records).
    pub closed spec fn has_user(&self, u: Seq<char>) -> bool {
        exists|i: int| 0 <= i < self.users@.len() && #[trigger] self.owner_at(i) == u
    }

    closed spec fn index_of(&self, u: Seq<char>) -> int {
        choose|i: int| 0 <= i < self.users@.len() && #[trigger] self.owner_at(i) == u
    }

    /// Caller `u`'s records in insertion order; empty for a caller with no entry.
    pub closed spec fn todos_of(&self, u: Seq<char>) -> Seq<TodoView> {
        if self.has_user(u) {
            todo_views(self.list_at(self.index_of(u)))
        } else {
            Seq::empty()
        }
    }

    /// The store's invariant.
    pub closed spec fn wf(&self) -> bool {
        &&& self.users@.len() <= MAX_USERS
        &&& forall|i: int, j: int|
            0 <= i < self.users@.len() && 0 <= j < self.users@.len() && i != j
                ==> #[trigger] self.owner_at(i) != #[trigger] self.owner_at(j)
        &&& forall|i: int|
            0 <= i < self.users@.len() ==> #[trigger] self.list_at(i).len() <= MAX_TODO_PER_USER
        &&& forall|i: int, k: int|
            0 <= i < self.users@.len() && 0 <= k < self.list_at(i).len() ==> {
                let t = #[trigger] self.list_at(i)[k];
                &&& t.task@.len() <= MAX_TODO_CHARS
                &&& 1 <= t.id <= self.counter
            }
        &&& forall|i: int, j: int, k: int, l: int|
            0 <= i < self.users@.len() && 0 <= j < self.users@.len() && 0 <= k < self.list_at(
                i,
            ).len() && 0 <= l < self.list_at(j).len() && (i != j || k != l)
                ==> #[trigger] self.list_at(i)[k].id != #[trigger] self.list_at(j)[l].id
    }

    /// The entries, in the order in which their callers registered.
    pub closed spec fn entries(&self) -> Seq<Entry> {
        self.users@
    }

    proof fn lemma_wf_parts(&self)
        ensures
            self.wf() == parts_wf(self.counter, self.users@),
    {
        let u = self.users@;
        if self.wf() {
            assert forall|i: int, j: int|
                0 <= i < u.len() && 0 <= j < u.len() && i != j implies #[trigger] u[i].0@
                != #[trigger] u[j].0@ by {
                assert(self.owner_at(i) != self.owner_at(j));
            }
            assert forall|i: int| 0 <= i < u.len() implies #[trigger] u[i].1@.len() <= MAX_TODO_PER_USER by {
                assert(self.list_at(i).len() <= MAX_TODO_PER_USER);
            }
            assert forall|i: int, k: int| 0 <= i < u.len() && 0 <= k < u[i].1@.len() implies {
                let t = #[trigger] u[i].1@[k];
                &&& t.task@.len() <= MAX_TODO_CHARS
                &&& 1 <= t.id <= self.counter
            } by {
                assert(self.list_at(i)[k] == u[i].1@[k]);
            }
            assert forall|i: int, j: int, k: int, l: int|
                0 <= i < u.len() && 0 <= j < u.len() && 0 <= k < u[i].1@.len() && 0 <= l
                    < u[j].1@.len() && (i != j || k != l) implies #[trigger] u[i].1@[k].id
                != #[trigger] u[j].1@[l].id by {
                assert(self.list_at(i)[k].id != self.list_at(j)[l].id);
            }
        }
        if parts_wf(self.counter, u) {
            assert forall|i: int, j: int|
                0 <= i < u.len() && 0 <= j < u.len() && i != j implies #[trigger] self.owner_at(i)
                != #[trigger] self.owner_at(j) by {
                assert(u[i].0@ != u[j].0@);
            }
            assert forall|i: int| 0 <= i < u.len() implies #[trigger] self.list_at(i).len() <= MAX_TODO_PER_USER by {
                assert(u[i].1@.len() <= MAX_TODO_PER_USER);
            }
            assert forall|i: int, k: int| 0 <= i < u.len() && 0 <= k < self.list_at(i).len() implies {
                let t = #[trigger] self.list_at(i)[k];
                &&& t.task@.len() <= MAX_TODO_CHARS
                &&& 1 <= t.id <= self.counter
            } by {
                assert(self.list_at(i)[k] == u[i].1@[k]);
            }
            assert forall|i: int, j: int, k: int, l: int|
                0 <= i < u.len() && 0 <= j < u.len() && 0 <= k < self.list_at(i).len() && 0 <= l
                    < self.list_at(j).len() && (i != j || k != l) implies #[trigger] self.list_at(i)[k].id
                != #[trigger] self.list_at(j)[l].id by {
                assert(u[i].1@[k].id != u[j].1@[l].id);
            }
        }
    }

    /// A well-formed store's parts satisfy [`parts_wf`].
    pub proof fn lemma_parts_wf(&self)
        requires
            self.wf(),
        ensures
            parts_wf(self.last_id() as u128, self.entries()),
    {
        self.lemma_wf_parts();
    }

    /// Two stores with the same counter and entries hold the same records.
    pub proof fn lemma_same_parts(&self, other: TodoStore)
        requires
            self.wf(),
            self.last_id() == other.last_id(),
            self.entries() == other.entries(),
        ensures
            self.num_users() == other.num_users(),
            forall|u: Seq<char>| #[trigger] self.has_user(u) == other.has_user(u),
            forall|u: Seq<char>| #[trigger] self.todos_of(u) == other.todos_of(u),
            other.wf(),
    {
        self.lemma_wf_parts();
        other.lemma_wf_parts();
        assert forall|u: Seq<char>| #[trigger] self.has_user(u) == other.has_user(u) by {
            if self.has_user(u) {
                let i = self.index_of(u);
                assert(other.owner_at(i) == u);
            }
            if other.has_user(u) {
                let i = other.index_of(u);
                assert(self.owner_at(i) == u);
            }
        }
        assert forall|u: Seq<char>| #[trigger] self.todos_of(u) == other.todos_of(u) by {
            if self.has_user(u) {
                let j = other.index_of(u);
                assert(self.owner_at(j) == u);
                self.lemma_index_of(j);
                assert(self.list_at(j) == other.list_at(j));
            }
        }
    }

    proof fn lemma_index_of(&self, i: int)
        requires
            self.wf(),
            0 <= i < self.users@.len(),
        ensures
            self.has_user(self.owner_at(i)),
            self.index_of(self.owner_at(i)) == i,
            self.todos_of(self.owner_at(i)) == todo_views(self.list_at(i)),
    {
        let u = self.owner_at(i);
        assert(self.owner_at(i) == u);
        let j = self.index_of(u);
        if j != i {
            assert(self.owner_at(j) != self.owner_at(i));
        }
    }

    /// What the invariant says of each caller's records: the ceilings hold,
    /// each id was issued already, and ids are unique.
    pub proof fn lemma_wf_bounds(&self, u: Seq<char>)
        requires
            self.wf(),
        ensures
            self.num_users() <= MAX_USERS,
            self.todos_of(u).len() <= MAX_TODO_PER_USER,
            forall|k: int|
                0 <= k < self.todos_of(u).len() ==> {
                    &&& (#[trigger] self.todos_of(u)[k]).task.len() <= MAX_TODO_CHARS
                    &&& 1 <= self.todos_of(u)[k].id <= self.last_id()
                },
            ids_unique(self.todos_of(u)),
            !self.has_user(u) ==> self.todos_of(u).len() == 0,
    {
        if self.has_user(u) {
            let i = self.index_of(u);
            assert(self.list_at(i).len() <= MAX_TODO_PER_USER);
            assert forall|k: int| 0 <= k < self.todos_of(u).len() implies {
                &&& (#[trigger] self.todos_of(u)[k]).task.len() <= MAX_TODO_CHARS
                &&& 1 <= self.todos_of(u)[k].id <= self.last_id()
            } by {
                assert(self.todos_of(u)[k] == self.list_at(i)[k]@);
            }
            assert forall|a: int, b: int|
                0 <= a < self.todos_of(u).len() && 0 <= b < self.todos_of(u).len() && a
                    != b implies self.todos_of(u)[a].id != self.todos_of(u)[b].id by {
                assert(self.list_at(i)[a].id != self.list_at(i)[b].id);
            }
        }
    }

    /// After one entry's list changed and nothing else: every other caller
    /// keeps its entry and records, and the changed caller's records are its
    /// new list.
    proof fn lemma_after_change(&self, s0: TodoStore, i: int)
        requires
            s0.wf(),
            self.wf(),
            0 <= i < s0.users@.len(),
            self.users@.len() == s0.users@.len(),
            forall|j: int| 0 <= j < s0.users@.len() ==> #[trigger] self.owner_at(j) == s0.owner_at(j),
            forall|j: int| 0 <= j < s0.users@.len() && j != i ==> #[trigger] self.list_at(j) == s0.list_at(j),
        ensures
            self.num_users() == s0.num_users(),
            self.has_user(s0.owner_at(i)),
            self.todos_of(s0.owner_at(i)) == todo_views(self.list_at(i)),
            forall|u: Seq<char>| #[trigger] self.has_user(u) == s0.has_user(u),
            forall|u: Seq<char>| u != s0.owner_at(i) ==> #[trigger] self.todos_of(u) == s0.todos_of(u),
    {
        self.lemma_index_of(i);
        assert forall|u: Seq<char>| #[trigger] self.has_user(u) == s0.has_user(u) by {
            if self.has_user(u) {
                let j = self.index_of(u);
                assert(s0.owner_at(j) == u);
            }
            if s0.has_user(u) {
                let j = s0.index_of(u);
                assert(self.owner_at(j) == u);
            }
        }
        assert forall|u: Seq<char>| u != s0.owner_at(i) implies #[trigger] self.todos_of(u) == s0.todos_of(u) by {
            if self.has_user(u) {
                let j = self.index_of(u);
                s0.lemma_index_of(j);
                self.lemma_index_of(j);
            }
        }
    }

    /// After a new entry was pushed at the end, holding the single record `t`.
    proof fn lemma_after_register(&self, s0: TodoStore, t: Todo)
        requires
            s0.wf(),
            s0.users@.len() < MAX_USERS,
            t.task@.len() <= MAX_TODO_CHARS,
            t.id == s0.counter + 1,
            self.counter == t.id,
            self.users@.len() == s0.users@.len() + 1,
            forall|j: int| 0 <= j < s0.users@.len() ==> #[trigger] self.users@[j] == s0.users@[j],
            !s0.has_user(self.owner_at(s0.users@.len() as int)),
            self.list_at(s0.users@.len() as int) == seq![t],
        ensures
            self.wf(),
            added(s0, *self, self.owner_at(s0.users@.len() as int), t.task@, t@),
    {
        let n = s0.users@.len() as int;
        let user = self.owner_at(n);
        assert forall|i: int, j: int|
            0 <= i < self.users@.len() && 0 <= j < self.users@.len() && i != j
                implies #[trigger] self.owner_at(i) != #[trigger] self.owner_at(j) by {
            if i < n && j < n {
                assert(s0.owner_at(i) != s0.owner_at(j));
            } else if i < n {
                assert(s0.owner_at(i) == self.owner_at(i));
            } else if j < n {
                assert(s0.owner_at(j) == self.owner_at(j));
            }
        }
        assert forall|i: int| 0 <= i < self.users@.len() implies #[trigger] self.list_at(i).len()
            <= MAX_TODO_PER_USER by {
            if i < n {
                assert(self.list_at(i) == s0.list_at(i));
            }
        }
        assert forall|i: int, k: int|
            0 <= i < self.users@.len() && 0 <= k < self.list_at(i).len() implies {
                let x = #[trigger] self.list_at(i)[k];
                &&& x.task@.len() <= MAX_TODO_CHARS
                &&& 1 <= x.id <= self.counter
            } by {
            if i < n {
                assert(self.list_at(i) == s0.list_at(i));
            }
        }
        assert forall|i: int, j: int, k: int, l: int|
            0 <= i < self.users@.len() && 0 <= j < self.users@.len() && 0 <= k < self.list_at(
                i,
            ).len() && 0 <= l < self.list_at(j).len() && (i != j || k != l)
                implies #[trigger] self.list_at(i)[k].id != #[trigger] self.list_at(j)[l].id by {
            if i < n {
                assert(self.list_at(i) == s0.list_at(i));
                assert(s0.list_at(i)[k].id <= s0.counter);
            }
            if j < n {
                assert(self.list_at(j) == s0.list_at(j));
                assert(s0.list_at(j)[l].id <= s0.counter);
            }
        }
        assert(self.wf());
        self.lemma_index_of(n);
        assert(s0.todos_of(user) == Seq::<TodoView>::empty());
        assert(self.todos_of(user) =~= s0.todos_of(user).push(t@));
        assert forall|u: Seq<char>| u != user implies #[trigger] self.has_user(u) == s0.has_user(u) by {
            if self.has_user(u) {
                let j = self.index_of(u);
                assert(s0.owner_at(j) == u);
            }
            if s0.has_user(u) {
                let j = s0.index_of(u);
                assert(self.owner_at(j) == u);
            }
        }
        assert forall|u: Seq<char>| u != user implies #[trigger] self.todos_of(u) == s0.todos_of(u) by {
            if self.has_user(u) {
                let j = self.index_of(u);
                s0.lemma_index_of(j);
                self.lemma_index_of(j);
            }
        }
    }

    /// After `t` was appended to entry `i`'s list.
    proof fn lemma_after_append(&self, s0: TodoStore, i: int, t: Todo)
        requires
            s0.wf(),
            0 <= i < s0.users@.len(),
            s0.list_at(i).len() < MAX_TODO_PER_USER,
            t.task@.len() <= MAX_TODO_CHARS,
            t.id == s0.counter + 1,
            self.counter == t.id,
            self.users@.len() == s0.users@.len(),
            forall|j: int| 0 <= j < s0.users@.len() ==> #[trigger] self.owner_at(j) == s0.owner_at(j),
            forall|j: int| 0 <= j < s0.users@.len() && j != i ==> #[trigger] self.list_at(j) == s0.list_at(j),
            self.list_at(i) == s0.list_at(i).push(t),
        ensures
            self.wf(),
            added(s0, *self, s0.owner_at(i), t.task@, t@),
    {
        let m = s0.list_at(i).len() as int;
        assert forall|k: int| 0 <= k < m implies #[trigger] self.list_at(i)[k] == s0.list_at(i)[k] by {}
        assert forall|a: int, k: int|
            0 <= a < self.users@.len() && 0 <= k < self.list_at(a).len() implies {
                let x = #[trigger] self.list_at(a)[k];
                &&& x.task@.len() <= MAX_TODO_CHARS
                &&& 1 <= x.id <= self.counter
            } by {
            if a == i && k < m {
                assert(self.list_at(i)[k] == s0.list_at(i)[k]);
            }
        }
        assert forall|a: int, b: int, k: int, l: int|
            0 <= a < self.users@.len() && 0 <= b < self.users@.len() && 0 <= k < self.list_at(
                a,
            ).len() && 0 <= l < self.list_at(b).len() && (a != b || k != l)
                implies #[trigger] self.list_at(a)[k].id != #[trigger] self.list_at(b)[l].id by {
            if a == i && k < m {
                assert(self.list_at(i)[k] == s0.list_at(i)[k]);
            }
            if b == i && l < m {
                assert(self.list_at(i)[l] == s0.list_at(i)[l]);
            }
            if !(a == i && k == m) {
                assert(s0.list_at(a)[k].id <= s0.counter);
            }
            if !(b == i && l == m) {
                assert(s0.list_at(b)[l].id <= s0.counter);
            }
        }
        assert(self.wf());
        self.lemma_after_change(s0, i);
        s0.lemma_index_of(i);
        assert(todo_views(self.list_at(i)) =~= todo_views(s0.list_at(i)).push(t@));
    }

    /// Nothing changed: every caller keeps what it had.
    proof fn lemma_unchanged(&self, user: Seq<char>)
        ensures
            only_list_changed(*self, *self, user, self.todos_of(user)),
    {
    }

    /// After entry `i`'s record `k` got text `task`.
    proof fn lemma_after_set_task(&self, s0: TodoStore, i: int, k: int, task: Seq<char>)
        requires
            s0.wf(),
            0 <= i < s0.users@.len(),
            0 <= k < s0.list_at(i).len(),
            task.len() <= MAX_TODO_CHARS,
            self.counter == s0.counter,
            self.users@.len() == s0.users@.len(),
            forall|j: int| 0 <= j < s0.users@.len() ==> #[trigger] self.owner_at(j) == s0.owner_at(j),
            forall|j: int| 0 <= j < s0.users@.len() && j != i ==> #[trigger] self.list_at(j) == s0.list_at(j),
            self.list_at(i).len() == s0.list_at(i).len(),
            forall|l: int| 0 <= l < s0.list_at(i).len() && l != k ==> #[trigger] self.list_at(i)[l] == s0.list_at(i)[l],
            self.list_at(i)[k].id == s0.list_at(i)[k].id,
            self.list_at(i)[k].task@ == task,
        ensures
            self.wf(),
            only_list_changed(
                s0,
                *self,
                s0.owner_at(i),
                with_task(s0.todos_of(s0.owner_at(i)), s0.list_at(i)[k].id, task),
            ),
    {
        assert forall|a: int| 0 <= a < self.users@.len() implies #[trigger] self.list_at(a).len()
            <= MAX_TODO_PER_USER by {
            assert(s0.list_at(a).len() <= MAX_TODO_PER_USER);
        }
        assert forall|a: int, l: int|
            0 <= a < self.users@.len() && 0 <= l < self.list_at(a).len() implies {
                let x = #[trigger] self.list_at(a)[l];
                &&& x.task@.len() <= MAX_TODO_CHARS
                &&& 1 <= x.id <= self.counter
            } by {
            assert(s0.list_at(a)[l].id <= s0.counter);
        }
        assert forall|a: int, b: int, l: int, m: int|
            0 <= a < self.users@.len() && 0 <= b < self.users@.len() && 0 <= l < self.list_at(
                a,
            ).len() && 0 <= m < self.list_at(b).len() && (a != b || l != m)
                implies #[trigger] self.list_at(a)[l].id != #[trigger] self.list_at(b)[m].id by {
            assert(s0.list_at(a)[l].id != s0.list_at(b)[m].id);
        }
        assert(self.wf());
        self.lemma_after_change(s0, i);
        s0.lemma_index_of(i);
        let id = s0.list_at(i)[k].id;
        let l0 = s0.todos_of(s0.owner_at(i));
        s0.lemma_wf_bounds(s0.owner_at(i));
        assert(l0[k].id == id);
        lemma_pos_of_id(l0, id, k);
        assert(todo_views(self.list_at(i)) =~= l0.update(k, TodoView { id, task }));
    }

    /// After entry `i`'s record `k` was removed.
    proof fn lemma_after_remove(&self, s0: TodoStore, i: int, k: int)
        requires
            s0.wf(),
            0 <= i < s0.users@.len(),
            0 <= k < s0.list_at(i).len(),
            self.counter == s0.counter,
            self.users@.len() == s0.users@.len(),
            forall|j: int| 0 <= j < s0.users@.len() ==> #[trigger] self.owner_at(j) == s0.owner_at(j),
            forall|j: int| 0 <= j < s0.users@.len() && j != i ==> #[trigger] self.list_at(j) == s0.list_at(j),
            self.list_at(i) == s0.list_at(i).remove(k),
        ensures
            self.wf(),
            only_list_changed(
                s0,
                *self,
                s0.owner_at(i),
                without_id(s0.todos_of(s0.owner_at(i)), s0.list_at(i)[k].id),
            ),
    {
        assert forall|a: int| 0 <= a < self.users@.len() implies #[trigger] self.list_at(a).len()
            <= MAX_TODO_PER_USER by {
            assert(s0.list_at(a).len() <= MAX_TODO_PER_USER);
        }
        assert forall|a: int, l: int|
            0 <= a < self.users@.len() && 0 <= l < self.list_at(a).len() implies {
                let x = #[trigger] self.list_at(a)[l];
                &&& x.task@.len() <= MAX_TODO_CHARS
                &&& 1 <= x.id <= self.counter
            } by {
            let ol = if a == i && l >= k { l + 1 } else { l };
            assert(self.list_at(a)[l] == s0.list_at(a)[ol]);
        }
        assert forall|a: int, b: int, l: int, m: int|
            0 <= a < self.users@.len() && 0 <= b < self.users@.len() && 0 <= l < self.list_at(
                a,
            ).len() && 0 <= m < self.list_at(b).len() && (a != b || l != m)
                implies #[trigger] self.list_at(a)[l].id != #[trigger] self.list_at(b)[m].id by {
            let ol = if a == i && l >= k { l + 1 } else { l };
            let om = if b == i && m >= k { m + 1 } else { m };
            assert(self.list_at(a)[l] == s0.list_at(a)[ol]);
            assert(self.list_at(b)[m] == s0.list_at(b)[om]);
            assert(s0.list_at(a)[ol].id != s0.list_at(b)[om].id);
        }
        assert(self.wf());
        self.lemma_after_change(s0, i);
        s0.lemma_index_of(i);
        let id = s0.list_at(i)[k].id;
        let l0 = s0.todos_of(s0.owner_at(i));
        s0.lemma_wf_bounds(s0.owner_at(i));
        assert(l0[k].id == id);
        lemma_pos_of_id(l0, id, k);
        assert(todo_views(self.list_at(i)) =~= l0.remove(k));
    }

    /// The position in entry `i`'s list of the record with id `id`, if any.
    fn find_todo(&self, i: usize, id: u128) -> (r: Option<usize>)
        requires
            self.wf(),
            i < self.users@.len(),
        ensures
            match r {
                Some(k) => k < self.list_at(i as int).len() && self.list_at(i as int)[k as int].id == id,
                None => forall|k: int| 0 <= k < self.list_at(i as int).len() ==> #[trigger] self.list_at(i as int)[k].id != id,
            },
    {
        let todos = &self.users[i].1;
        let mut k: usize = 0;
        while k < todos.len()
            invariant
                k <= todos@.len(),
                todos@ == self.list_at(i as int),
                forall|j: int| 0 <= j < k ==> #[trigger] todos@[j].id != id,
            decreases todos@.len() - k,
        {
            if todos[k].id == id {
                return Some(k);
            }
            k += 1;
        }
        None
    }

    /// An empty store: no callers, no ids issued.
    pub fn new() -> (r: TodoStore)
        ensures
            r.wf(),
            r.last_id() == 0,
            r.num_users() == 0,
            forall|u: Seq<char>| !r.has_user(u),
            forall|u: Seq<char>| #[trigger] r.todos_of(u) == Seq::<TodoView>::empty(),
    {
        TodoStore { counter: 0, users: Vec::new() }
    }

    fn find_user(&self, user: &String) -> (r: Option<usize>)
        requires
            self.wf(),
        ensures
            match r {
                Some(i) => {
                    &&& i < self.users@.len()
                    &&& self.owner_at(i as int) == user@
                    &&& self.has_user(user@)
                    &&& self.index_of(user@) == i
                    &&& self.todos_of(user@) == todo_views(self.list_at(i as int))
                },
                None => !self.has_user(user@),
            },
    {
        let mut i: usize = 0;
        while i < self.users.len()
            invariant
                self.wf(),
                i <= self.users@.len(),
                forall|j: int| 0 <= j < i ==> self.owner_at(j) != user@,
            decreases self.users@.len() - i,
        {
            if self.users[i].0 == *user {
                proof {
                    self.lemma_index_of(i as int);
                }
                return Some(i);
            }
            i += 1;
        }
        None
    }

    /// The number of callers that hold an entry.
    pub fn user_count(&self) -> (r: usize)
        ensures
            r == self.num_users(),
    {
        self.users.len()
    }

    /// Whether `id` is below `MAX_TODO_PER_USER` times the number of callers.
    /// This is a cheap range check, not a test of ownership.
    pub fn is_id_sane(&self, id: u128) -> (r: bool)
        requires
            self.wf(),
        ensures
            r == id_sane(*self, id),
    {
        id < (MAX_TODO_PER_USER as u128) * (self.users.len() as u128)
    }

    /// Appends a new record with text `task` to caller `user`'s list, under
    /// the next id, making an entry for `user` if it has none. Fails, changing
    /// nothing, when the text is too long, every id is taken, `user` is new and
    /// `MAX_USERS` callers hold entries, or `user` holds `MAX_TODO_PER_USER`
    /// records.
    pub fn add_todo(&mut self, user: &str, task: String) -> (r: Result<Todo, TodoError>)
        requires
            old(self).wf(),
        ensures
            final(self).wf(),
            add_todo_post(*old(self), *final(self), user@, task@, r),
    {
        if task.as_str().unicode_len() > MAX_TODO_CHARS {
            return Err(TodoError::TaskTooLong);
        }
        if self.counter == u128::MAX {
            return Err(TodoError::IdsExhausted);
        }
        let u = user.to_owned();
        let found = self.find_user(&u);
        match found {
            None => {
                if self.users.len() >= MAX_USERS {
                    return Err(TodoError::TooManyUsers);
                }
                let ghost s0 = *self;
                let id = self.counter + 1;
                let t = Todo { id, task };
                let mut todos: Vec<Todo> = Vec::new();
                todos.push(t.clone());
                self.counter = id;
                self.users.push((u, todos));
                proof {
                    self.lemma_after_register(s0, t);
                }
                Ok(t)
            },
            Some(i) => {
                if self.users[i].1.len() >= MAX_TODO_PER_USER {
                    return Err(TodoError::TooManyTodos);
                }
                let ghost s0 = *self;
                let id = self.counter + 1;
                let t = Todo { id, task };
                self.counter = id;
                self.users[i].1.push(t.clone());
                proof {
                    self.lemma_after_append(s0, i as int, t);
                }
                Ok(t)
            },
        }
    }

    /// Sets the text of caller `user`'s record with id `todo.id` to
    /// `todo.task`. Without such a record nothing changes, and no error
    /// comes. Fails, changing nothing, when the text is too long or the id is
    /// out of range (see [`id_sane`]).
    pub fn update_todo(&mut self, user: &str, todo: Todo) -> (r: Result<(), TodoError>)
        requires
            old(self).wf(),
        ensures
            final(self).wf(),
            update_todo_post(*old(self), *final(self), user@, todo.id, todo.task@, r),
    {
        if todo.task.as_str().unicode_len() > MAX_TODO_CHARS {
            return Err(TodoError::TaskTooLong);
        }
        if !self.is_id_sane(todo.id) {
            return Err(TodoError::IdNotSane);
        }
        let u = user.to_owned();
        let found = self.find_user(&u);
        proof {
            self.lemma_unchanged(user@);
            self.lemma_wf_bounds(user@);
        }
        match found {
            None => Ok(()),
            Some(i) => match self.find_todo(i, todo.id) {
                None => Ok(()),
                Some(k) => {
                    let ghost s0 = *self;
                    self.users[i].1[k].task = todo.task;
                    proof {
                        self.lemma_after_set_task(s0, i as int, k as int, todo.task@);
                    }
                    Ok(())
                },
            },
        }
    }

    /// Removes caller `user`'s record with id `id`. Without such a record
    /// nothing changes, and no error comes. Fails, changing nothing, when the
    /// id is out of range (see [`id_sane`]). The caller's entry stays, also
    /// when its last record goes.
    pub fn delete_todo(&mut self, user: &str, id: u128) -> (r: Result<(), TodoError>)
        requires
            old(self).wf(),
        ensures
            final(self).wf(),
            delete_todo_post(*old(self), *final(self), user@, id, r),
    {
        if !self.is_id_sane(id) {
            return Err(TodoError::IdNotSane);
        }
        let u = user.to_owned();
        let found = self.find_user(&u);
        proof {
            self.lemma_unchanged(user@);
            self.lemma_wf_bounds(user@);
        }
        match found {
            None => Ok(()),
            Some(i) => match self.find_todo(i, id) {
                None => Ok(()),
                Some(k) => {
                    let ghost s0 = *self;
                    self.users[i].1.remove(k);
                    proof {
                        self.lemma_after_remove(s0, i as int, k as int);
                    }
                    Ok(())
                },
            },
        }
    }

    /// Hands out the counter and the entries, for saving across a restart.
    pub fn into_parts(self) -> (r: (u128, Vec<Entry>))
        requires
            self.wf(),
        ensures
            r.0 == self.last_id(),
            r.1@ == self.entries(),
            parts_wf(r.0, r.1@),
    {
        proof {
            self.lemma_wf_parts();
        }
        (self.counter, self.users)
    }

    /// Rebuilds a store from a saved counter and entries, as
    /// [`TodoStore::into_parts`] hands them out; `None` where they break the
    /// store's invariant (see [`parts_wf`]).
    pub fn from_parts(counter: u128, entries: Vec<Entry>) -> (r: Option<TodoStore>)
        ensures
            r is Some <==> parts_wf(counter, entries@),
            r matches Some(s) ==> {
                &&& s.wf()
                &&& s.last_id() == counter
                &&& s.entries() == entries@
                &&& s.num_users() == entries@.len()
                &&& forall|i: int|
                    0 <= i < entries@.len() ==> #[trigger] s.todos_of(entries@[i].0@) == todo_views(
                        entries@[i].1@,
                    )
                &&& forall|u: Seq<char>|
                    #[trigger] s.has_user(u) <==> exists|i: int|
                        0 <= i < entries@.len() && #[trigger] entries@[i].0@ == u
            },
    {
        if entries.len() > MAX_USERS || !check_owners(&entries) || !check_records(counter, &entries) {
            return None;
        }
        let s = TodoStore { counter, users: entries };
        proof {
            s.lemma_wf_parts();
            assert forall|i: int| 0 <= i < s.users@.len() implies #[trigger] s.todos_of(s.users@[i].0@)
                == todo_views(s.users@[i].1@) by {
                s.lemma_index_of(i);
            }
            assert forall|u: Seq<char>| #[trigger] s.has_user(u) <==> exists|i: int|
                0 <= i < s.users@.len() && #[trigger] s.users@[i].0@ == u by {
                if exists|i: int| 0 <= i < s.users@.len() && #[trigger] s.users@[i].0@ == u {
                    let i = choose|i: int| 0 <= i < s.users@.len() && #[trigger] s.users@[i].0@ == u;
                    s.lemma_index_of(i);
                }
                if s.has_user(u) {
                    let i = s.index_of(u);
                    assert(s.users@[i].0@ == u);
                }
            }
        }
        Some(s)
    }

    /// Caller `user`'s records in insertion order; empty for an unknown caller.
    pub fn get_todos(&self, user: &str) -> (r: Vec<Todo>)
        requires
            self.wf(),
        ensures
            todo_views(r@) == self.todos_of(user@),
    {
        let u = user.to_owned();
        match self.find_user(&u) {
            None => Vec::new(),
            Some(i) => {
                let src = &self.users[i].1;
                let mut out: Vec<Todo> = Vec::new();
                let mut k: usize = 0;
                while k < src.len()
                    invariant
                        k <= src@.len(),
                        out@ == src@.subrange(0, k as int),
                    decreases src@.len() - k,
                {
                    out.push(src[k].clone());
                    k += 1;
                    proof {
                        assert(out@ =~= src@.subrange(0, k as int));
                    }
                }
                proof {
                    assert(out@ =~= src@);
                }
                out
            },
        }
    }
}

} // verus!
