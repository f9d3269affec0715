//! The data-access layer: an exact model of the persisted state.
//!
//! `Store` holds the two tables the backend persists: the todo rows and
//! the singleton counter row (always addressed by id 1). Every operation
//! states precisely how it changes the state and when it fails, so the
//! process that drives the real database can be held to the same contract.

use vstd::prelude::*;

verus! {

/// A row of the todo table.
#[derive(Debug)]
pub struct TodoModel {
    pub id: i32,
    pub title: String,
    pub completed: bool,
}

/// The mathematical value of a todo row.
#[verifier::ext_equal]
pub struct TodoView {
    pub id: int,
    pub title: Seq<char>,
    pub completed: bool,
}

impl View for TodoModel {
    type V = TodoView;

    open spec fn view(&self) -> TodoView {
        TodoView { id: self.id as int, title: self.title@, completed: self.completed }
    }
}

/// The singleton counter row.
pub struct CounterModel {
    pub id: i32,
    pub value: i32,
}

/// The mathematical value of the whole store.
#[verifier::ext_equal]
pub struct StoreView {
    /// The todo rows, in insertion order.
    pub todos: Seq<TodoView>,
    /// The next id the store will assign.
    pub next_id: int,
    /// The value of the counter row, if the row exists.
    pub counter: Option<int>,
}

impl StoreView {
    /// Well-formedness: ids are unique, at least 1, and below the next
    /// id to be assigned.
    pub open spec fn wf(self) -> bool {
        &&& 1 <= self.next_id <= i32::MAX as int
        &&& forall|i: int|
            0 <= i < self.todos.len() ==> 1 <= (#[trigger] self.todos[i]).id < self.next_id
        &&& forall|i: int, j: int|
            0 <= i < j < self.todos.len() ==> self.todos[i].id != self.todos[j].id
    }

    /// The state before anything was written: no todos, no counter row.
    pub open spec fn init() -> StoreView {
        StoreView { todos: Seq::empty(), next_id: 1, counter: None }
    }

    /// Whether one more todo can be given a fresh id.
    pub open spec fn can_add(self) -> bool {
        self.next_id < i32::MAX as int
    }

    /// The state after adding a todo: a new row with the next id, the
    /// given title, and `completed` false.
    pub open spec fn add_result(self, title: Seq<char>) -> StoreView {
        StoreView {
            todos: self.todos.push(TodoView { id: self.next_id, title, completed: false }),
            next_id: self.next_id + 1,
            counter: self.counter,
        }
    }

    /// Whether some row carries the given id.
    pub open spec fn has_todo(self, id: int) -> bool {
        exists|i: int| 0 <= i < self.todos.len() && (#[trigger] self.todos[i]).id == id
    }

    /// The state after a full overwrite of the row with the given id;
    /// rows with other ids are untouched.
    pub open spec fn update_result(self, id: int, title: Seq<char>, completed: bool) -> StoreView {
        StoreView {
            todos: Seq::new(
                self.todos.len(),
                |i: int|
                    if self.todos[i].id == id {
                        TodoView { id, title, completed }
                    } else {
                        self.todos[i]
                    },
            ),
            next_id: self.next_id,
            counter: self.counter,
        }
    }

    /// The state after deleting by id: every row with that id is gone,
    /// the rest keep their order.
    pub open spec fn delete_result(self, id: int) -> StoreView {
        StoreView {
            todos: self.todos.filter(keeps(id)),
            next_id: self.next_id,
            counter: self.counter,
        }
    }

    /// The state after saving the counter: the row now holds `value`,
    /// whether or not it existed before.
    pub open spec fn save_result(self, value: int) -> StoreView {
        StoreView { todos: self.todos, next_id: self.next_id, counter: Some(value) }
    }

    /// What loading the counter returns: the stored value, or 0 if the
    /// row has never been created.
    pub open spec fn counter_value(self) -> int {
        match self.counter {
            Some(v) => v,
            None => 0,
        }
    }
}

/// The predicate a row must satisfy to survive deletion by `id`.
pub open spec fn keeps(id: int) -> spec_fn(TodoView) -> bool {
    |t: TodoView| t.id != id
}

/// The failures a storage operation can report.
#[derive(Debug, PartialEq, Eq, Structural)]
pub enum StorageError {
    /// The addressed row does not exist.
    NotFound,
    /// No fresh id is left to assign.
    IdsExhausted,
}

/// The view of a sequence of todo rows.
pub open spec fn todos_view(s: Seq<TodoModel>) -> Seq<TodoView> {
    s.map_values(|t: TodoModel| t@)
}

/// Filtering keeps a sequence whole when no element is dropped.
pub(crate) proof fn lemma_filter_all_kept(s: Seq<TodoView>, id: int)
    requires
        forall|i: int| 0 <= i < s.len() ==> (#[trigger] s[i]).id != id,
    ensures
        s.filter(keeps(id)) =~= s,
    decreases s.len(),
{
    reveal(Seq::filter);
    if s.len() > 0 {
        assert forall|i: int| 0 <= i < s.drop_last().len() implies (#[trigger] s.drop_last()[i]).id
            != id by {
            assert(s.drop_last()[i] == s[i]);
        }
        lemma_filter_all_kept(s.drop_last(), id);
        assert(s[s.len() - 1].id != id);
    }
}

/// Filtering out one id from a sequence in which exactly the element at
/// `k` carries it removes exactly that element.
proof fn lemma_filter_remove_one(s: Seq<TodoView>, id: int, k: int)
    requires
        0 <= k < s.len(),
        s[k].id == id,
        forall|i: int| 0 <= i < s.len() && i != k ==> (#[trigger] s[i]).id != id,
    ensures
        s.filter(keeps(id)) =~= s.remove(k),
{
    let pred = keeps(id);
    let a = s.subrange(0, k);
    let b = s.subrange(k, s.len() as int);
    let c = s.subrange(k + 1, s.len() as int);
    let hit = s.subrange(k, k + 1);
    assert(s =~= a + b);
    assert(b =~= hit + c);
    Seq::filter_distributes_over_add(a, b, pred);
    Seq::filter_distributes_over_add(hit, c, pred);
    reveal(Seq::filter);
    assert(hit.len() == 1);
    assert(hit.last() == s[k]);
    assert(!pred(hit.last()));
    assert(hit.drop_last() =~= Seq::<TodoView>::empty());
    assert(hit.drop_last().filter(pred) =~= Seq::<TodoView>::empty());
    assert(hit.filter(pred) =~= Seq::<TodoView>::empty());
    assert forall|i: int| 0 <= i < a.len() implies (#[trigger] a[i]).id != id by {
        assert(a[i] == s[i]);
    }
    lemma_filter_all_kept(a, id);
    assert forall|i: int| 0 <= i < c.len() implies (#[trigger] c[i]).id != id by {
        assert(c[i] == s[k + 1 + i]);
    }
    lemma_filter_all_kept(c, id);
    assert(s.filter(pred) =~= a + c);
    assert(s.remove(k) =~= a + c);
}

/// The in-memory model of the persistent store.
///
/// Ids are assigned by a monotonically increasing counter and are never
/// reused, so every row's id is unique and at least 1.
pub struct Store {
    todos: Vec<TodoModel>,
    next_id: i32,
    counter: Option<CounterModel>,
}

impl View for Store {
    type V = StoreView;

    closed spec fn view(&self) -> StoreView {
        StoreView {
            todos: todos_view(self.todos@),
            next_id: self.next_id as int,
            counter: match self.counter {
                Some(c) => Some(c.value as int),
                None => None,
            },
        }
    }
}

impl Store {
    /// The representation invariant: the view is well formed and the
    /// counter row, if present, is the singleton row with id 1.
    pub closed spec fn wf(self) -> bool {
        &&& self@.wf()
        &&& match self.counter {
            Some(c) => c.id == 1,
            None => true,
        }
    }

    /// `wf` is not weaker than well-formedness of the view.
    pub proof fn lemma_wf_view(self)
        requires
            self.wf(),
        ensures
            self@.wf(),
    {
    }

    /// A fresh store, holding what an empty database holds.
    pub fn new() -> (s: Store)
        ensures
            s@ == StoreView::init(),
            s.wf(),
    {
        let s = Store { todos: Vec::new(), next_id: 1, counter: None };
        proof {
            assert(todos_view(s.todos@) =~= Seq::<TodoView>::empty());
            assert(s@ =~= StoreView::init());
        }
        s
    }

    /// Returns all todo rows, in the stored (insertion) order, which is
    /// the same on every call between mutations.
    pub fn get_todos(&self) -> (r: Vec<TodoModel>)
        ensures
            todos_view(r@) == self@.todos,
    {
        let mut r: Vec<TodoModel> = Vec::new();
        let n = self.todos.len();
        let mut i: usize = 0;
        while i < n
            invariant
                i <= n,
                n == self.todos.len(),
                r@.len() == i,
                todos_view(r@) =~= self@.todos.take(i as int),
            decreases n - i,
        {
            let ghost pre = r@;
            let t = &self.todos[i];
            let m = TodoModel { id: t.id, title: t.title.clone(), completed: t.completed };
            proof {
                assert(m == self.todos@[i as int]);
            }
            r.push(m);
            proof {
                assert forall|j: int| 0 <= j <= i as int implies todos_view(r@)[j]
                    == self@.todos.take(i as int + 1)[j] by {
                    if j < i as int {
                        assert(r@[j] == pre[j]);
                        assert(todos_view(pre)[j] == self@.todos.take(i as int)[j]);
                    } else {
                        assert(r@[j] == m);
                    }
                }
                assert(todos_view(r@) =~= self@.todos.take(i as int + 1));
            }
            i += 1;
        }
        proof {
            assert(self@.todos.take(n as int) =~= self@.todos);
        }
        r
    }

    /// Inserts a new row: the store assigns the id, the title is taken as
    /// given (an empty title is accepted), and `completed` starts false.
    /// Fails only when the id space is exhausted.
    pub fn add_todo(&mut self, title: String) -> (r: Result<(), StorageError>)
        requires
            old(self).wf(),
        ensures
            final(self).wf(),
            if old(self)@.can_add() {
                r == Ok::<(), StorageError>(()) && final(self)@ == old(self)@.add_result(title@)
            } else {
                r == Err::<(), StorageError>(StorageError::IdsExhausted) && final(self)@ == old(
                    self,
                )@
            },
    {
        if self.next_id < i32::MAX {
            let id = self.next_id;
            self.next_id = self.next_id + 1;
            self.todos.push(TodoModel { id, title, completed: false });
            proof {
                assert(self@.todos =~= old(self)@.add_result(title@).todos);
                assert(self@ =~= old(self)@.add_result(title@));
                assert forall|i: int, j: int|
                    0 <= i < j < self@.todos.len() implies self@.todos[i].id
                    != self@.todos[j].id by {
                    if j < self@.todos.len() - 1 {
                        assert(old(self)@.todos[i].id != old(self)@.todos[j].id);
                    }
                }
            }
            Ok(())
        } else {
            Err(StorageError::IdsExhausted)
        }
    }

    /// Overwrites all three fields of the row with the given id. A
    /// missing id is reported as `NotFound` and leaves the store as it
    /// was: this backend surfaces the miss rather than treating it as a
    /// silent success.
    pub fn update_todo(&mut self, id: i32, title: String, completed: bool) -> (r: Result<
        (),
        StorageError,
    >)
        requires
            old(self).wf(),
        ensures
            final(self).wf(),
            if old(self)@.has_todo(id as int) {
                r == Ok::<(), StorageError>(()) && final(self)@ == old(self)@.update_result(
                    id as int,
                    title@,
                    completed,
                )
            } else {
                r == Err::<(), StorageError>(StorageError::NotFound) && final(self)@ == old(self)@
            },
    {
        let n = self.todos.len();
        let mut i: usize = 0;
        while i < n
            invariant
                i <= n,
                *self == *old(self),
                n == self.todos.len(),
                old(self).wf(),
                forall|j: int| 0 <= j < i ==> (#[trigger] self@.todos[j]).id != id as int,
            decreases n - i,
        {
            if self.todos[i].id == id {
                proof {
                    assert(old(self)@.todos[i as int].id == id as int);
                }
                self.todos.remove(i);
                self.todos.insert(i, TodoModel { id, title, completed });
                proof {
                    let target = old(self)@.update_result(id as int, title@, completed);
                    assert forall|j: int| 0 <= j < self@.todos.len() implies self@.todos[j]
                        == target.todos[j] by {
                        if j != i as int {
                            assert(old(self)@.todos[i as int].id != old(self)@.todos[j].id);
                        }
                    }
                    assert(self@.todos =~= target.todos);
                    assert(self@ =~= target);
                }
                return Ok(());
            }
            i += 1;
        }
        proof {
            assert(!old(self)@.has_todo(id as int));
        }
        Err(StorageError::NotFound)
    }

    /// Deletes the row with the given id, if there is one. Deleting a
    /// missing id is not an error: the operation always succeeds.
    pub fn delete_todo(&mut self, id: i32) -> (r: Result<(), StorageError>)
        requires
            old(self).wf(),
        ensures
            final(self).wf(),
            r == Ok::<(), StorageError>(()),
            final(self)@ == old(self)@.delete_result(id as int),
    {
        let n = self.todos.len();
        let mut i: usize = 0;
        while i < n
            invariant
                i <= n,
                *self == *old(self),
                n == self.todos.len(),
                old(self).wf(),
                forall|j: int| 0 <= j < i ==> (#[trigger] self@.todos[j]).id != id as int,
            decreases n - i,
        {
            if self.todos[i].id == id {
                proof {
                    assert(old(self)@.todos[i as int].id == id as int);
                }
                self.todos.remove(i);
                proof {
                    assert forall|j: int|
                        0 <= j < old(self)@.todos.len() && j != i as int implies (#[trigger] old(
                        self,
                    )@.todos[j]).id != id as int by {
                        assert(old(self)@.todos[i as int].id != old(self)@.todos[j].id);
                    }
                    lemma_filter_remove_one(old(self)@.todos, id as int, i as int);
                    assert(self@.todos =~= old(self)@.todos.remove(i as int));
                    assert(self@ =~= old(self)@.delete_result(id as int));
                }
                return Ok(());
            }
            i += 1;
        }
        proof {
            lemma_filter_all_kept(old(self)@.todos, id as int);
            assert(self@ =~= old(self)@.delete_result(id as int));
        }
        Ok(())
    }

    /// Saves the counter: creates the singleton row if it is absent,
    /// overwrites its value if it exists. Returns true, as the command
    /// surface promises on success.
    pub fn save_counter(&mut self, value: i32) -> (r: bool)
        requires
            old(self).wf(),
        ensures
            final(self).wf(),
            final(self)@ == old(self)@.save_result(value as int),
            r == true,
    {
        match &mut self.counter {
            Some(c) => {
                c.value = value;
            },
            None => {
                self.counter = Some(CounterModel { id: 1, value });
            },
        }
        proof {
            assert(self@ =~= old(self)@.save_result(value as int));
        }
        true
    }

    /// Loads the counter: the stored value, or 0 if no save has ever
    /// created the row.
    pub fn load_counter(&self) -> (r: i32)
        ensures
            r as int == self@.counter_value(),
    {
        match &self.counter {
            Some(c) => c.value,
            None => 0,
        }
    }
}

/// How a save must hit the database once the singleton counter row has
/// been read: the row is created when absent, overwritten when present.
/// The read and the write are two statements, so two savers racing can
/// both see the row absent; the engine then rejects the second insert.
pub enum CounterAction {
    /// No row existed: insert the singleton row with this value.
    Insert { value: i32 },
    /// The row existed: overwrite its value.
    Update { value: i32 },
}

/// Decides the write a save performs, from what reading the singleton
/// counter row returned.
pub fn plan_save_counter(existing: Option<i32>, value: i32) -> (a: CounterAction)
    ensures
        a == match existing {
            Some(_) => CounterAction::Update { value },
            None => CounterAction::Insert { value },
        },
{
    match existing {
        Some(_) => CounterAction::Update { value },
        None => CounterAction::Insert { value },
    }
}

/// What a load returns for each possible read of the singleton counter
/// row: the stored value, or 0 when the row has never been created.
pub fn counter_of_row(row: Option<i32>) -> (v: i32)
    ensures
        v == match row {
            Some(x) => x,
            None => 0,
        },
{
    match row {
        Some(x) => x,
        None => 0,
    }
}

} // verus!
