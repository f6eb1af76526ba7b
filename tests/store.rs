use icp_todo_api_backend::{Todo, TodoError, TodoStore, MAX_TODO_CHARS, MAX_TODO_PER_USER, MAX_USERS};

fn pairs(v: &[Todo]) -> Vec<(u128, String)> {
    v.iter().map(|t| (t.id, t.task.clone())).collect()
}

fn text(n: usize, c: char) -> String {
    std::iter::repeat(c).take(n).collect()
}

#[test]
fn scenario_create_update_delete_recreate() {
    let mut s = TodoStore::new();
    let t = s.add_todo("alice", "hi".to_string()).unwrap();
    assert_eq!((t.id, t.task.as_str()), (1, "hi"));
    let too_long = text(MAX_TODO_CHARS + 1, 'x');
    assert_eq!(s.add_todo("alice", too_long).unwrap_err(), TodoError::TaskTooLong);
    assert_eq!(pairs(&s.get_todos("alice")), vec![(1, "hi".to_string())]);
    s.update_todo("alice", Todo::new(1, "bye".to_string())).unwrap();
    assert_eq!(pairs(&s.get_todos("alice")), vec![(1, "bye".to_string())]);
    s.delete_todo("alice", 1).unwrap();
    assert!(s.get_todos("alice").is_empty());
    let t = s.add_todo("alice", "new".to_string()).unwrap();
    assert_eq!((t.id, t.task.as_str()), (2, "new"));
}

#[test]
fn add_then_list_has_one_new_record() {
    let mut s = TodoStore::new();
    s.add_todo("a", "one".to_string()).unwrap();
    s.add_todo("b", "other".to_string()).unwrap();
    let before = pairs(&s.get_todos("a"));
    let t = s.add_todo("a", "two".to_string()).unwrap();
    let after = pairs(&s.get_todos("a"));
    assert_eq!(after.len(), before.len() + 1);
    assert_eq!(&after[..before.len()], &before[..]);
    assert_eq!(after[before.len()], (3, "two".to_string()));
    assert_eq!(t.id, 3);
    assert_eq!(pairs(&s.get_todos("b")), vec![(2, "other".to_string())]);
}

#[test]
fn ids_increase_across_callers() {
    let mut s = TodoStore::new();
    let mut last = 0u128;
    for (i, who) in ["a", "b", "a", "c", "b", "a"].iter().enumerate() {
        let t = s.add_todo(who, format!("task {}", i)).unwrap();
        assert!(t.id > last);
        last = t.id;
    }
    assert_eq!(last, 6);
}

#[test]
fn unknown_caller_lists_nothing() {
    let s = TodoStore::new();
    assert!(s.get_todos("nobody").is_empty());
    assert_eq!(s.user_count(), 0);
}

#[test]
fn update_changes_only_that_record() {
    let mut s = TodoStore::new();
    s.add_todo("a", "x".to_string()).unwrap();
    s.add_todo("a", "y".to_string()).unwrap();
    s.add_todo("b", "z".to_string()).unwrap();
    s.update_todo("a", Todo::new(2, "Y".to_string())).unwrap();
    assert_eq!(pairs(&s.get_todos("a")), vec![(1, "x".to_string()), (2, "Y".to_string())]);
    assert_eq!(pairs(&s.get_todos("b")), vec![(3, "z".to_string())]);
}

#[test]
fn update_of_missing_id_is_a_no_op() {
    let mut s = TodoStore::new();
    s.add_todo("a", "x".to_string()).unwrap();
    s.add_todo("b", "z".to_string()).unwrap();
    // id 2 belongs to b: a has no record with it
    assert_eq!(s.update_todo("a", Todo::new(2, "hijack".to_string())), Ok(()));
    assert_eq!(pairs(&s.get_todos("a")), vec![(1, "x".to_string())]);
    assert_eq!(pairs(&s.get_todos("b")), vec![(2, "z".to_string())]);
    // an unknown caller gets no entry from an update
    assert_eq!(s.update_todo("c", Todo::new(1, "q".to_string())), Ok(()));
    assert_eq!(s.user_count(), 2);
}

#[test]
fn update_errors() {
    let mut s = TodoStore::new();
    s.add_todo("a", "x".to_string()).unwrap();
    let long = text(MAX_TODO_CHARS + 1, 'x');
    assert_eq!(s.update_todo("a", Todo::new(1, long)), Err(TodoError::TaskTooLong));
    let bound = MAX_TODO_PER_USER as u128;
    assert_eq!(s.update_todo("a", Todo::new(bound, "q".to_string())), Err(TodoError::IdNotSane));
    assert_eq!(pairs(&s.get_todos("a")), vec![(1, "x".to_string())]);
}

#[test]
fn delete_removes_exactly_one() {
    let mut s = TodoStore::new();
    s.add_todo("a", "x".to_string()).unwrap();
    s.add_todo("a", "y".to_string()).unwrap();
    s.add_todo("a", "z".to_string()).unwrap();
    s.delete_todo("a", 2).unwrap();
    assert_eq!(pairs(&s.get_todos("a")), vec![(1, "x".to_string()), (3, "z".to_string())]);
    s.delete_todo("a", 2).unwrap();
    assert_eq!(pairs(&s.get_todos("a")), vec![(1, "x".to_string()), (3, "z".to_string())]);
    let t = s.add_todo("a", "w".to_string()).unwrap();
    assert_eq!(t.id, 4);
}

#[test]
fn delete_id_out_of_range() {
    let mut s = TodoStore::new();
    assert_eq!(s.delete_todo("a", 0), Err(TodoError::IdNotSane));
    s.add_todo("a", "x".to_string()).unwrap();
    assert_eq!(s.delete_todo("a", MAX_TODO_PER_USER as u128), Err(TodoError::IdNotSane));
    assert_eq!(s.get_todos("a").len(), 1);
}

#[test]
fn id_sanity_bound_grows_with_users() {
    let mut s = TodoStore::new();
    assert!(!s.is_id_sane(0));
    s.add_todo("a", "x".to_string()).unwrap();
    assert!(s.is_id_sane(499));
    assert!(!s.is_id_sane(500));
    s.add_todo("b", "x".to_string()).unwrap();
    assert!(s.is_id_sane(999));
    assert!(!s.is_id_sane(1000));
}

#[test]
fn entry_stays_after_last_delete() {
    let mut s = TodoStore::new();
    s.add_todo("a", "x".to_string()).unwrap();
    s.delete_todo("a", 1).unwrap();
    assert!(s.get_todos("a").is_empty());
    assert_eq!(s.user_count(), 1);
}

#[test]
fn long_text_aborts_without_change() {
    let mut s = TodoStore::new();
    s.add_todo("a", "x".to_string()).unwrap();
    let before = pairs(&s.get_todos("a"));
    let r = s.add_todo("a", text(MAX_TODO_CHARS + 1, 'y'));
    assert_eq!(r.unwrap_err(), TodoError::TaskTooLong);
    assert_eq!(pairs(&s.get_todos("a")), before);
    // a new caller with a too long text gets no entry
    assert!(s.add_todo("b", text(MAX_TODO_CHARS + 1, 'y')).is_err());
    assert_eq!(s.user_count(), 1);
    // the next success still gets the next id
    assert_eq!(s.add_todo("a", "z".to_string()).unwrap().id, 2);
}

#[test]
fn text_length_counts_characters_not_bytes() {
    let mut s = TodoStore::new();
    let wide = text(MAX_TODO_CHARS, 'é');
    assert_eq!(wide.len(), 2 * MAX_TODO_CHARS);
    let t = s.add_todo("a", wide.clone()).unwrap();
    assert_eq!(t.task, wide);
    let wider = text(MAX_TODO_CHARS + 1, 'é');
    assert_eq!(s.add_todo("a", wider).unwrap_err(), TodoError::TaskTooLong);
    let exact = text(MAX_TODO_CHARS, 'x');
    assert!(s.add_todo("a", exact).is_ok());
}

#[test]
fn per_user_ceiling() {
    let mut s = TodoStore::new();
    for i in 0..MAX_TODO_PER_USER {
        s.add_todo("a", format!("{}", i)).unwrap();
    }
    assert_eq!(s.add_todo("a", "one more".to_string()).unwrap_err(), TodoError::TooManyTodos);
    assert_eq!(s.get_todos("a").len(), MAX_TODO_PER_USER);
    // others are not held back by a's ceiling
    assert!(s.add_todo("b", "fine".to_string()).is_ok());
    // after a delete there is room again
    s.delete_todo("a", 1).unwrap();
    assert!(s.add_todo("a", "again".to_string()).is_ok());
    assert_eq!(s.get_todos("a").len(), MAX_TODO_PER_USER);
}

#[test]
fn user_ceiling() {
    let mut s = TodoStore::new();
    for i in 0..MAX_USERS {
        s.add_todo(&format!("user{}", i), "x".to_string()).unwrap();
    }
    assert_eq!(s.user_count(), MAX_USERS);
    assert_eq!(s.add_todo("late", "x".to_string()).unwrap_err(), TodoError::TooManyUsers);
    assert_eq!(s.user_count(), MAX_USERS);
    assert!(s.get_todos("late").is_empty());
    // a registered caller may still add
    assert!(s.add_todo("user0", "y".to_string()).is_ok());
}

#[test]
fn clone_keeps_fields() {
    let t = Todo::new(7, "seven".to_string());
    let c = t.clone();
    assert_eq!((c.id, c.task), (7, "seven".to_string()));
}

#[test]
fn parts_round_trip() {
    let mut s = TodoStore::new();
    s.add_todo("a", "x".to_string()).unwrap();
    s.add_todo("b", "y".to_string()).unwrap();
    s.add_todo("a", "z".to_string()).unwrap();
    s.delete_todo("a", 1).unwrap();
    let (counter, entries) = s.into_parts();
    assert_eq!(counter, 3);
    assert_eq!(entries.len(), 2);
    let mut r = TodoStore::from_parts(counter, entries).unwrap();
    assert_eq!(pairs(&r.get_todos("a")), vec![(3, "z".to_string())]);
    assert_eq!(pairs(&r.get_todos("b")), vec![(2, "y".to_string())]);
    assert_eq!(r.user_count(), 2);
    assert_eq!(r.add_todo("b", "w".to_string()).unwrap().id, 4);
}

#[test]
fn from_parts_rejects_broken_state() {
    let entry = |who: &str, ids: &[u128]| -> (String, Vec<Todo>) {
        (who.to_string(), ids.iter().map(|&i| Todo::new(i, format!("t{}", i))).collect())
    };
    // fine
    assert!(TodoStore::from_parts(3, vec![entry("a", &[1, 3]), entry("b", &[2])]).is_some());
    // the same caller twice
    assert!(TodoStore::from_parts(3, vec![entry("a", &[1]), entry("a", &[2])]).is_none());
    // an id used twice, across callers
    assert!(TodoStore::from_parts(3, vec![entry("a", &[1]), entry("b", &[1])]).is_none());
    // an id used twice, within one caller
    assert!(TodoStore::from_parts(3, vec![entry("a", &[2, 2])]).is_none());
    // an id above the counter, and id 0
    assert!(TodoStore::from_parts(2, vec![entry("a", &[3])]).is_none());
    assert!(TodoStore::from_parts(2, vec![entry("a", &[0])]).is_none());
    // a text too long
    let long = vec![("a".to_string(), vec![Todo::new(1, "x".repeat(MAX_TODO_CHARS + 1))])];
    assert!(TodoStore::from_parts(1, long).is_none());
    // too many records for one caller
    let ids: Vec<u128> = (1..=(MAX_TODO_PER_USER as u128 + 1)).collect();
    assert!(TodoStore::from_parts(ids.len() as u128, vec![entry("a", &ids)]).is_none());
    // too many callers
    let many: Vec<(String, Vec<Todo>)> = (0..=MAX_USERS).map(|i| (format!("u{}", i), Vec::new())).collect();
    assert!(TodoStore::from_parts(0, many).is_none());
}
