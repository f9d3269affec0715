use todo_backend::store::{counter_of_row, plan_save_counter, CounterAction, StorageError, Store};

#[test]
fn add_buy_milk_then_list() {
    let mut s = Store::new();
    assert!(s.add_todo("Buy milk".to_string()).is_ok());
    let todos = s.get_todos();
    assert_eq!(todos.len(), 1);
    assert_eq!(todos[0].title, "Buy milk");
    assert!(!todos[0].completed);
    assert!(todos[0].id >= 1);
}

#[test]
fn add_then_list_contains_title() {
    let mut s = Store::new();
    assert!(s.add_todo("first".to_string()).is_ok());
    assert!(s.add_todo("second".to_string()).is_ok());
    assert!(s.add_todo(String::new()).is_ok()); // empty titles are accepted
    let todos = s.get_todos();
    assert_eq!(todos.len(), 3);
    assert!(todos.iter().any(|t| t.title == "second" && !t.completed));
    assert!(todos.iter().any(|t| t.title.is_empty() && !t.completed));
}

#[test]
fn update_existing_is_reflected_exactly() {
    let mut s = Store::new();
    s.add_todo("one".to_string()).unwrap();
    s.add_todo("two".to_string()).unwrap();
    let id = s.get_todos()[0].id;
    let other = s.get_todos()[1].id;
    assert!(s.update_todo(id, "renamed".to_string(), true).is_ok());
    let todos = s.get_todos();
    let hit = todos.iter().find(|t| t.id == id).unwrap();
    assert_eq!(hit.title, "renamed");
    assert!(hit.completed);
    let untouched = todos.iter().find(|t| t.id == other).unwrap();
    assert_eq!(untouched.title, "two");
    assert!(!untouched.completed);
}

#[test]
fn update_missing_reports_not_found() {
    let mut s = Store::new();
    s.add_todo("one".to_string()).unwrap();
    let r = s.update_todo(42, "ghost".to_string(), true);
    assert_eq!(r, Err(StorageError::NotFound));
    let todos = s.get_todos();
    assert_eq!(todos.len(), 1);
    assert_eq!(todos[0].title, "one");
}

#[test]
fn delete_removes_and_second_delete_succeeds() {
    let mut s = Store::new();
    s.add_todo("gone soon".to_string()).unwrap();
    let id = s.get_todos()[0].id;
    assert!(s.delete_todo(id).is_ok());
    assert!(s.get_todos().is_empty());
    assert!(s.delete_todo(id).is_ok()); // deleting a missing id is not an error
    assert!(s.get_todos().is_empty());
}

#[test]
fn delete_keeps_other_rows_in_order() {
    let mut s = Store::new();
    s.add_todo("a".to_string()).unwrap();
    s.add_todo("b".to_string()).unwrap();
    s.add_todo("c".to_string()).unwrap();
    let middle = s.get_todos()[1].id;
    s.delete_todo(middle).unwrap();
    let todos = s.get_todos();
    assert_eq!(todos.len(), 2);
    assert_eq!(todos[0].title, "a");
    assert_eq!(todos[1].title, "c");
}

#[test]
fn ids_are_unique_and_never_reused() {
    let mut s = Store::new();
    s.add_todo("a".to_string()).unwrap();
    s.add_todo("b".to_string()).unwrap();
    let first = s.get_todos()[0].id;
    s.delete_todo(first).unwrap();
    s.add_todo("c".to_string()).unwrap();
    let todos = s.get_todos();
    assert_eq!(todos.len(), 2);
    assert_ne!(todos[0].id, todos[1].id);
    assert!(todos.iter().all(|t| t.id != first));
}

#[test]
fn counter_reads_zero_then_latest_save() {
    let mut s = Store::new();
    assert_eq!(s.load_counter(), 0);
    assert!(s.save_counter(5));
    assert_eq!(s.load_counter(), 5);
    assert!(s.save_counter(7));
    assert_eq!(s.load_counter(), 7); // overwrite, not accumulate
}

#[test]
fn counter_save_does_not_touch_todos() {
    let mut s = Store::new();
    s.add_todo("stays".to_string()).unwrap();
    s.save_counter(-3);
    assert_eq!(s.load_counter(), -3);
    let todos = s.get_todos();
    assert_eq!(todos.len(), 1);
    assert_eq!(todos[0].title, "stays");
}

#[test]
fn save_plan_updates_existing_row_and_inserts_missing() {
    assert!(matches!(
        plan_save_counter(None, 9),
        CounterAction::Insert { value: 9 }
    ));
    assert!(matches!(
        plan_save_counter(Some(2), 9),
        CounterAction::Update { value: 9 }
    ));
}

#[test]
fn counter_of_row_defaults_to_zero() {
    assert_eq!(counter_of_row(None), 0);
    assert_eq!(counter_of_row(Some(11)), 11);
}
