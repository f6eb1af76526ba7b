use vstd::prelude::*;

verus! {

/// Most callers that may hold an entry in the store.
pub const MAX_USERS: usize = 1000;

/// Most records that one caller may hold at a time.
pub const MAX_TODO_PER_USER: usize = 500;

/// Most characters (Unicode scalar values) that one record's text may hold.
pub const MAX_TODO_CHARS: usize = 1000;

/// One record: an identifier that never changes and a text that may.
#[derive(Debug)]
pub struct Todo {
    pub id: u128,
    pub task: String,
}

/// The mathematical value of a [`Todo`].
pub struct TodoView {
    pub id: u128,
    pub task: Seq<char>,
}

impl View for Todo {
    type V = TodoView;

    open spec fn view(&self) -> TodoView {
        TodoView { id: self.id, task: self.task@ }
    }
}

impl Todo {
    pub fn new(id: u128, task: String) -> (r: Todo)
        ensures
            r.id == id,
            r.task == task,
    {
        Todo { id, task }
    }
}

impl Clone for Todo {
    fn clone(&self) -> (r: Self)
        ensures
            r == *self,
    {
        Todo { id: self.id, task: self.task.clone() }
    }
}

/// Why an operation on the store was refused. A refused operation changes
/// nothing.
#[derive(Debug, Clone, Copy, PartialEq, Eq, Structural)]
pub enum TodoError {
    /// The text has more than `MAX_TODO_CHARS` characters.
    TaskTooLong,
    /// The caller has no entry yet and `MAX_USERS` callers already have one.
    TooManyUsers,
    /// The caller already holds `MAX_TODO_PER_USER` records.
    TooManyTodos,
    /// The id is not below `MAX_TODO_PER_USER` times the number of callers.
    IdNotSane,
    /// Every 128-bit id has been issued.
    IdsExhausted,
}

/// The views of a sequence of records, in order.
pub open spec fn todo_views(v: Seq<Todo>) -> Seq<TodoView> {
    v.map_values(|t: Todo| t@)
}

} // verus!
