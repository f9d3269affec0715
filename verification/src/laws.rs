//! The general properties of the store, stated over its mathematical
//! model and proved once for every state and input.

use crate::store::{keeps, StoreView, TodoView};
use vstd::prelude::*;

verus! {

/// Adding a todo and then listing: the listing holds a row with the
/// given title, not yet completed, under an assigned id of at least 1.
/// Every title is valid; the one state left out is a store whose id
/// space is already exhausted.
pub proof fn lemma_add_then_list(s: StoreView, title: Seq<char>)
    requires
        s.wf(),
        s.can_add(),
    ensures
        exists|i: int|
            0 <= i < s.add_result(title).todos.len() && (#[trigger] s.add_result(
                title,
            ).todos[i]).title == title && !s.add_result(title).todos[i].completed && s.add_result(
                title,
            ).todos[i].id >= 1,
{
    let t = s.add_result(title).todos;
    assert(t[s.todos.len() as int].title == title);
}

/// Updating an existing id and then listing: the row with that id now
/// reads exactly `{id, title, completed}`, and every other row is
/// untouched.
pub proof fn lemma_update_then_list(s: StoreView, id: int, title: Seq<char>, completed: bool)
    requires
        s.wf(),
        s.has_todo(id),
    ensures
        s.update_result(id, title, completed).todos.len() == s.todos.len(),
        exists|i: int|
            0 <= i < s.todos.len() && (#[trigger] s.update_result(id, title, completed).todos[i])
                == (TodoView { id, title, completed }),
        forall|i: int|
            0 <= i < s.todos.len() && (#[trigger] s.todos[i]).id == id ==> s.update_result(
                id,
                title,
                completed,
            ).todos[i] == (TodoView { id, title, completed }),
        forall|i: int|
            0 <= i < s.todos.len() && (#[trigger] s.todos[i]).id != id ==> s.update_result(
                id,
                title,
                completed,
            ).todos[i] == s.todos[i],
{
    let k = choose|i: int| 0 <= i < s.todos.len() && (#[trigger] s.todos[i]).id == id;
    assert(s.update_result(id, title, completed).todos[k] == (TodoView { id, title, completed }));
}

/// Deleting removes every row with the given id, and deleting the same
/// id again changes nothing; the operation itself never fails, as its
/// contract states.
pub proof fn lemma_delete_removes_and_again(s: StoreView, id: int)
    ensures
        forall|i: int|
            0 <= i < s.delete_result(id).todos.len() ==> (#[trigger] s.delete_result(
                id,
            ).todos[i]).id != id,
        s.delete_result(id).delete_result(id) == s.delete_result(id),
{
    let once = s.delete_result(id);
    assert forall|i: int| 0 <= i < once.todos.len() implies (#[trigger] once.todos[i]).id != id by {
        Seq::lemma_filter_pred(s.todos, keeps(id), i);
    }
    assert(once.todos.filter(keeps(id)) =~= once.todos) by {
        crate::store::lemma_filter_all_kept(once.todos, id);
    }
    assert(once.delete_result(id) =~= once);
}

/// The counter reads 0 before any save has created the row; a save
/// overwrites whatever was there, so a load returns the latest saved
/// value, not an accumulation.
pub proof fn lemma_counter_semantics(s: StoreView, v1: int, v2: int)
    ensures
        StoreView::init().counter_value() == 0,
        s.save_result(v1).counter_value() == v1,
        s.save_result(v1).save_result(v2).counter_value() == v2,
{
}

} // verus!
