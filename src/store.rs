//! The record store itself.
use vstd::prelude::*;

use crate::model::{StoreModel, TodoView};

verus! {

/// A todo record.
pub struct Todo {
    pub id: u32,
    pub text: String,
    pub completed: bool,
}

impl View for Todo {
    type V = TodoView;

    open spec fn view(&self) -> TodoView {
        TodoView { id: self.id, text: self.text@, completed: self.completed }
    }
}

impl Todo {
    /// A copy of this record, field by field.
    pub fn snapshot(&self) -> (r: Todo)
        ensures
            r@ == self@,
    {
        Todo { id: self.id, text: self.text.clone(), completed: self.completed }
    }
}

/// The model of a record that may be absent.
pub open spec fn opt_todo_view(r: Option<Todo>) -> Option<TodoView> {
    match r {
        Some(t) => Some(t@),
        None => None,
    }
}

/// The model of a text that may be absent.
pub open spec fn opt_text_view(s: Option<String>) -> Option<Seq<char>> {
    match s {
        Some(s) => Some(s@),
        None => None,
    }
}

/// The store: records kept in a `Vec` in ascending id order, and the largest
/// id ever assigned. Since a new id exceeds every id ever assigned, appending
/// a new record keeps the order.
pub struct Todos {
    todos: Vec<Todo>,
    last_id: u32,
}

impl View for Todos {
    type V = StoreModel;

    closed spec fn view(&self) -> StoreModel {
        StoreModel { records: self.todos@.map_values(|t: Todo| t@), last_id: self.last_id as nat }
    }
}

impl Default for Todos {
    fn default() -> (r: Todos)
        ensures
            r.wf(),
            r@ == StoreModel::empty(),
    {
        Todos::new()
    }
}

impl Todos {
    /// The store's invariant, stated on its model.
    pub open spec fn wf(&self) -> bool {
        self@.wf()
    }

    /// An empty store; the first id it assigns is 1.
    pub fn new() -> (r: Todos)
        ensures
            r.wf(),
            r@ == StoreModel::empty(),
    {
        let r = Todos { todos: Vec::new(), last_id: 0 };
        assert(r@.records =~= Seq::<TodoView>::empty());
        r
    }

    /// Whether one more record can be added: false only once `u32::MAX`
    /// has been assigned.
    pub fn can_add(&self) -> (r: bool)
        ensures
            r == self@.can_add(),
    {
        self.last_id < u32::MAX
    }

    /// Adds a record with the given text, not completed, under the next id,
    /// and returns that id.
    pub fn add_todo(&mut self, text: String) -> (id: u32)
        requires
            old(self).wf(),
            old(self)@.can_add(),
        ensures
            final(self).wf(),
            (final(self)@, id) == old(self)@.add(text@),
    {
        let id = self.last_id + 1;
        let ghost text_view = text@;
        self.todos.push(Todo { id, text, completed: false });
        self.last_id = id;
        assert(self@.records =~= old(self)@.records.push(
            TodoView { id, text: text_view, completed: false },
        ));
        id
    }

    /// The position of the record with this id.
    fn find(&self, id: u32) -> (r: Option<usize>)
        requires
            self.wf(),
        ensures
            match r {
                Some(i) => self@.contains(id) && i == self@.position_of(id),
                None => !self@.contains(id),
            },
    {
        let mut i: usize = 0;
        while i < self.todos.len()
            invariant
                self.wf(),
                i <= self.todos.len(),
                forall|k: int| 0 <= k < i ==> #[trigger] self@.records[k].id != id,
            decreases self.todos.len() - i,
        {
            if self.todos[i].id == id {
                proof {
                    self@.lemma_position_of(i as int);
                }
                return Some(i);
            }
            i += 1;
        }
        None
    }

    /// Removes the record with this id and returns it; an absent id leaves
    /// the store as it is and gives `None`.
    pub fn remove_todo_by_id(&mut self, id: u32) -> (r: Option<Todo>)
        requires
            old(self).wf(),
        ensures
            final(self).wf(),
            final(self)@ == old(self)@.remove(id).0,
            opt_todo_view(r) == old(self)@.remove(id).1,
    {
        match self.find(id) {
            Some(i) => {
                let t = self.todos.remove(i);
                assert(self@.records =~= old(self)@.records.remove(i as int));
                Some(t)
            },
            None => None,
        }
    }

    /// A copy of the record with this id, if any.
    pub fn get_todo_by_id(&self, id: u32) -> (r: Option<Todo>)
        requires
            self.wf(),
        ensures
            opt_todo_view(r) == self@.lookup(id),
    {
        match self.find(id) {
            Some(i) => Some(self.todos[i].snapshot()),
            None => None,
        }
    }

    /// The records in ascending id order, skipping the first `offset`,
    /// at most `limit` of them.
    pub fn get_todos_paginates(&self, offset: u32, limit: u32) -> (r: Vec<Todo>)
        requires
            self.wf(),
        ensures
            r@.map_values(|t: Todo| t@) == self@.page(offset as nat, limit as nat),
    {
        let n = self.todos.len();
        let start: usize = if (offset as usize) < n {
            offset as usize
        } else {
            n
        };
        let end: usize = if (limit as usize) < n - start {
            start + limit as usize
        } else {
            n
        };
        let mut out: Vec<Todo> = Vec::new();
        let mut i: usize = start;
        while i < end
            invariant
                start <= i <= end <= n,
                n == self.todos.len(),
                out@.map_values(|t: Todo| t@) =~= self@.records.subrange(start as int, i as int),
            decreases end - i,
        {
            let t = self.todos[i].snapshot();
            let ghost before = out@;
            out.push(t);
            assert(out@.map_values(|t: Todo| t@) =~= before.map_values(|t: Todo| t@).push(
                self@.records[i as int],
            ));
            assert(self@.records.subrange(start as int, i + 1) =~= self@.records.subrange(
                start as int,
                i as int,
            ).push(self@.records[i as int]));
            i += 1;
        }
        out
    }

    /// Replaces each field that is given on the record with this id and
    /// returns the record after the change; an absent id leaves the store
    /// as it is and gives `None`.
    pub fn update_todo_by_id(&mut self, id: u32, text: Option<String>, completed: Option<bool>) -> (r:
        Option<Todo>)
        requires
            old(self).wf(),
        ensures
            final(self).wf(),
            final(self)@ == old(self)@.update(id, opt_text_view(text), completed).0,
            opt_todo_view(r) == old(self)@.update(id, opt_text_view(text), completed).1,
    {
        match self.find(id) {
            Some(i) => {
                let cur = &self.todos[i];
                let new_text = match text {
                    Some(s) => s,
                    None => cur.text.clone(),
                };
                let new_completed = match completed {
                    Some(c) => c,
                    None => cur.completed,
                };
                let t = Todo { id: cur.id, text: new_text, completed: new_completed };
                let r = t.snapshot();
                self.todos.set(i, t);
                assert(self@.records =~= old(self)@.records.update(i as int, r@));
                Some(r)
            },
            None => None,
        }
    }
}

} // verus!
