//! The command boundary: named, typed entry points over the store.
//!
//! A command arrives as a name plus parameters. `kind_for_name` is the
//! registry that resolves the name; `dispatch` runs a store command and
//! flattens any failure to one line of plain text, the only error shape
//! the UI layer sees. Successful mutations answer with a uniform
//! `{status: "ok"}` acknowledgment; reads answer with the data itself.

use crate::store::{todos_view, StorageError, Store, TodoModel};
use vstd::prelude::*;
use vstd::string::StrSliceExecFns;

verus! {

/// Parameters of the add command.
pub struct AddTodoParams {
    pub title: String,
}

/// Parameters of the update command.
pub struct UpdateTodoParams {
    pub id: i32,
    pub title: String,
    pub completed: bool,
}

/// Parameters of the delete command.
pub struct DeleteTodoParams {
    pub id: i32,
}

/// The uniform acknowledgment a successful mutation returns.
#[derive(Debug)]
pub struct CommandResponse {
    pub status: String,
}

/// A store command with its typed parameters. The price fetch is the one
/// command not listed here: it needs the network, so the shell fetches
/// and hands the entries to the chart logic directly.
pub enum Command {
    GetTodos,
    AddTodo(AddTodoParams),
    UpdateTodo(UpdateTodoParams),
    DeleteTodo(DeleteTodoParams),
    SaveCounter(i32),
    LoadCounter,
}

/// What a successful command hands back.
#[derive(Debug)]
pub enum CommandReply {
    /// All todo rows, for the listing command.
    Todos(Vec<TodoModel>),
    /// The acknowledgment of a successful mutation.
    Ack(CommandResponse),
    /// The boolean a successful counter save returns.
    Saved(bool),
    /// The loaded counter value.
    Counter(i32),
}

/// Every command the backend exposes, by name.
#[derive(PartialEq, Eq, Structural)]
pub enum CommandKind {
    GetTodos,
    AddTodo,
    UpdateTodo,
    DeleteTodo,
    GetChartData,
    SaveCounter,
    LoadCounter,
}

/// The registry: which command each exposed name denotes.
pub open spec fn spec_kind_for_name(name: Seq<char>) -> Option<CommandKind> {
    if name == "get_todos"@ {
        Some(CommandKind::GetTodos)
    } else if name == "add_todo"@ {
        Some(CommandKind::AddTodo)
    } else if name == "update_todo"@ {
        Some(CommandKind::UpdateTodo)
    } else if name == "delete_todo"@ {
        Some(CommandKind::DeleteTodo)
    } else if name == "get_chart_data"@ {
        Some(CommandKind::GetChartData)
    } else if name == "save_counter"@ {
        Some(CommandKind::SaveCounter)
    } else if name == "load_counter"@ {
        Some(CommandKind::LoadCounter)
    } else {
        None
    }
}

/// Character-for-character equality of two strings.
fn str_eq(a: &str, b: &str) -> (r: bool)
    ensures
        r == (a@ == b@),
{
    let na = a.unicode_len();
    let nb = b.unicode_len();
    if na != nb {
        return false;
    }
    let mut i: usize = 0;
    while i < na
        invariant
            i <= na,
            na == a@.len(),
            na == b@.len(),
            forall|j: int| 0 <= j < i ==> a@[j] == b@[j],
        decreases na - i,
    {
        if a.get_char(i) != b.get_char(i) {
            return false;
        }
        i += 1;
    }
    proof {
        assert(a@ =~= b@);
    }
    true
}

/// Resolves a command name, as the UI layer sends it, to the command it
/// names; an unknown name resolves to nothing.
pub fn kind_for_name(name: &str) -> (k: Option<CommandKind>)
    ensures
        k == spec_kind_for_name(name@),
{
    if str_eq(name, "get_todos") {
        Some(CommandKind::GetTodos)
    } else if str_eq(name, "add_todo") {
        Some(CommandKind::AddTodo)
    } else if str_eq(name, "update_todo") {
        Some(CommandKind::UpdateTodo)
    } else if str_eq(name, "delete_todo") {
        Some(CommandKind::DeleteTodo)
    } else if str_eq(name, "get_chart_data") {
        Some(CommandKind::GetChartData)
    } else if str_eq(name, "save_counter") {
        Some(CommandKind::SaveCounter)
    } else if str_eq(name, "load_counter") {
        Some(CommandKind::LoadCounter)
    } else {
        None
    }
}

/// The one line of text each storage failure is flattened to.
pub open spec fn spec_error_message(e: StorageError) -> Seq<char> {
    match e {
        StorageError::NotFound => "record not found"@,
        StorageError::IdsExhausted => "id space exhausted"@,
    }
}

/// Flattens a storage failure to the plain text the boundary exposes.
pub fn error_message(e: &StorageError) -> (r: String)
    ensures
        r@ == spec_error_message(*e),
{
    match e {
        StorageError::NotFound => "record not found".to_owned(),
        StorageError::IdsExhausted => "id space exhausted".to_owned(),
    }
}

/// The acknowledgment of a successful mutation.
fn ok_response() -> (r: CommandResponse)
    ensures
        r.status@ == "ok"@,
{
    CommandResponse { status: "ok".to_owned() }
}

/// Runs one command against the store. The dispatcher itself never
/// touches the state: it forwards the typed parameters to the matching
/// operation, acknowledges a successful mutation with `{status: "ok"}`,
/// and flattens a failure to one line of plain text.
pub fn dispatch(store: &mut Store, cmd: Command) -> (r: Result<CommandReply, String>)
    requires
        old(store).wf(),
    ensures
        final(store).wf(),
        match cmd {
            Command::GetTodos => final(store)@ == old(store)@ && (r matches Ok(
                CommandReply::Todos(v),
            ) && todos_view(v@) == old(store)@.todos),
            Command::AddTodo(p) => if old(store)@.can_add() {
                final(store)@ == old(store)@.add_result(p.title@) && (r matches Ok(
                    CommandReply::Ack(a),
                ) && a.status@ == "ok"@)
            } else {
                final(store)@ == old(store)@ && (r matches Err(m) && m@ == spec_error_message(
                    StorageError::IdsExhausted,
                ))
            },
            Command::UpdateTodo(p) => if old(store)@.has_todo(p.id as int) {
                final(store)@ == old(store)@.update_result(p.id as int, p.title@, p.completed) && (
                r matches Ok(CommandReply::Ack(a)) && a.status@ == "ok"@)
            } else {
                final(store)@ == old(store)@ && (r matches Err(m) && m@ == spec_error_message(
                    StorageError::NotFound,
                ))
            },
            Command::DeleteTodo(p) => final(store)@ == old(store)@.delete_result(p.id as int) && (
            r matches Ok(CommandReply::Ack(a)) && a.status@ == "ok"@),
            Command::SaveCounter(v) => final(store)@ == old(store)@.save_result(v as int) && (
            r matches Ok(CommandReply::Saved(b)) && b == true),
            Command::LoadCounter => final(store)@ == old(store)@ && (r matches Ok(
                CommandReply::Counter(c),
            ) && c as int == old(store)@.counter_value()),
        },
{
    match cmd {
        Command::GetTodos => Ok(CommandReply::Todos(store.get_todos())),
        Command::AddTodo(p) => match store.add_todo(p.title) {
            Ok(()) => Ok(CommandReply::Ack(ok_response())),
            Err(e) => Err(error_message(&e)),
        },
        Command::UpdateTodo(p) => match store.update_todo(p.id, p.title, p.completed) {
            Ok(()) => Ok(CommandReply::Ack(ok_response())),
            Err(e) => Err(error_message(&e)),
        },
        Command::DeleteTodo(p) => match store.delete_todo(p.id) {
            Ok(()) => Ok(CommandReply::Ack(ok_response())),
            Err(e) => Err(error_message(&e)),
        },
        Command::SaveCounter(v) => Ok(CommandReply::Saved(store.save_counter(v))),
        Command::LoadCounter => Ok(CommandReply::Counter(store.load_counter())),
    }
}

} // verus!
