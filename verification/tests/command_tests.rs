use todo_backend::commands::{
    dispatch, kind_for_name, AddTodoParams, Command, CommandKind, CommandReply, DeleteTodoParams,
    UpdateTodoParams,
};
use todo_backend::commands::error_message;
use todo_backend::store::{StorageError, Store};

#[test]
fn registry_resolves_every_command_name() {
    assert!(matches!(
        kind_for_name("get_todos"),
        Some(CommandKind::GetTodos)
    ));
    assert!(matches!(
        kind_for_name("add_todo"),
        Some(CommandKind::AddTodo)
    ));
    assert!(matches!(
        kind_for_name("update_todo"),
        Some(CommandKind::UpdateTodo)
    ));
    assert!(matches!(
        kind_for_name("delete_todo"),
        Some(CommandKind::DeleteTodo)
    ));
    assert!(matches!(
        kind_for_name("get_chart_data"),
        Some(CommandKind::GetChartData)
    ));
    assert!(matches!(
        kind_for_name("save_counter"),
        Some(CommandKind::SaveCounter)
    ));
    assert!(matches!(
        kind_for_name("load_counter"),
        Some(CommandKind::LoadCounter)
    ));
}

#[test]
fn registry_rejects_unknown_names() {
    assert!(kind_for_name("drop_tables").is_none());
    assert!(kind_for_name("").is_none());
    assert!(kind_for_name("get_todos ").is_none());
    assert!(kind_for_name("GET_TODOS").is_none());
}

#[test]
fn dispatch_add_acknowledges_and_lists() {
    let mut s = Store::new();
    let r = dispatch(
        &mut s,
        Command::AddTodo(AddTodoParams {
            title: "from the ui".to_string(),
        }),
    );
    match r {
        Ok(CommandReply::Ack(a)) => assert_eq!(a.status, "ok"),
        other => panic!("expected an acknowledgment, got {:?}", other.is_ok()),
    }
    match dispatch(&mut s, Command::GetTodos) {
        Ok(CommandReply::Todos(v)) => {
            assert_eq!(v.len(), 1);
            assert_eq!(v[0].title, "from the ui");
            assert!(!v[0].completed);
        }
        _ => panic!("expected the todo listing"),
    }
}

#[test]
fn dispatch_update_missing_flattens_to_text() {
    let mut s = Store::new();
    let r = dispatch(
        &mut s,
        Command::UpdateTodo(UpdateTodoParams {
            id: 7,
            title: "nobody".to_string(),
            completed: false,
        }),
    );
    assert_eq!(r.unwrap_err(), "record not found");
}

#[test]
fn dispatch_update_existing_acknowledges() {
    let mut s = Store::new();
    dispatch(
        &mut s,
        Command::AddTodo(AddTodoParams {
            title: "old".to_string(),
        }),
    )
    .unwrap();
    let id = match dispatch(&mut s, Command::GetTodos) {
        Ok(CommandReply::Todos(v)) => v[0].id,
        _ => panic!("expected the todo listing"),
    };
    let r = dispatch(
        &mut s,
        Command::UpdateTodo(UpdateTodoParams {
            id,
            title: "new".to_string(),
            completed: true,
        }),
    );
    match r {
        Ok(CommandReply::Ack(a)) => assert_eq!(a.status, "ok"),
        _ => panic!("expected an acknowledgment"),
    }
}

#[test]
fn dispatch_delete_always_acknowledges() {
    let mut s = Store::new();
    let r = dispatch(&mut s, Command::DeleteTodo(DeleteTodoParams { id: 123 }));
    match r {
        Ok(CommandReply::Ack(a)) => assert_eq!(a.status, "ok"),
        _ => panic!("expected an acknowledgment"),
    }
}

#[test]
fn dispatch_counter_saves_and_loads() {
    let mut s = Store::new();
    match dispatch(&mut s, Command::LoadCounter) {
        Ok(CommandReply::Counter(c)) => assert_eq!(c, 0),
        _ => panic!("expected the counter value"),
    }
    match dispatch(&mut s, Command::SaveCounter(41)) {
        Ok(CommandReply::Saved(b)) => assert!(b),
        _ => panic!("expected the save acknowledgment"),
    }
    match dispatch(&mut s, Command::LoadCounter) {
        Ok(CommandReply::Counter(c)) => assert_eq!(c, 41),
        _ => panic!("expected the counter value"),
    }
}

#[test]
fn every_failure_has_its_line_of_text() {
    assert_eq!(error_message(&StorageError::NotFound), "record not found");
    assert_eq!(
        error_message(&StorageError::IdsExhausted),
        "id space exhausted"
    );
}
