//! A per-caller bounded store of short text records ("todos").
//!
//! Each caller, named by an opaque identity string, owns an ordered list of
//! records. Hard ceilings bound the number of callers, the number of records
//! per caller and the number of characters per record. Every operation either
//! succeeds entirely or fails before changing anything.

mod todo;
mod store;
mod laws;

pub use todo::{Todo, TodoView, TodoError, todo_views, MAX_USERS, MAX_TODO_PER_USER, MAX_TODO_CHARS};
pub use store::{
    TodoStore, Entry, parts_wf, owners_distinct, records_valid, ids_distinct, id_sane, ids_unique, add_error, added, add_todo_post, has_id, pos_of_id, with_task,
    without_id, only_list_changed, update_error, update_todo_post, delete_error, delete_todo_post,
    lemma_pos_of_id,
};
pub use laws::{
    law_counter_never_decreases, law_add_then_list, law_ids_increase, law_update_touches_one,
    law_delete_removes_one, law_deleted_id_not_reissued, law_long_text_refused,
    law_per_user_ceiling, law_user_ceiling, law_parts_round_trip,
};

