//! The mathematical model of the store and of its five operations.
use vstd::prelude::*;

verus! {

/// A todo record as plain values.
pub struct TodoView {
    pub id: u32,
    pub text: Seq<char>,
    pub completed: bool,
}

/// The whole store: its records in ascending id order, and the largest id
/// ever assigned (0 before the first one).
pub struct StoreModel {
    pub records: Seq<TodoView>,
    pub last_id: nat,
}

impl StoreModel {
    /// Ids strictly increase along the records, and none exceeds the
    /// largest id ever assigned, which itself fits in a `u32`.
    pub open spec fn wf(self) -> bool {
        &&& self.last_id <= u32::MAX
        &&& forall|i: int, j: int|
            0 <= i < j < self.records.len() ==> #[trigger] self.records[i].id
                < #[trigger] self.records[j].id
        &&& forall|i: int| 0 <= i < self.records.len() ==> #[trigger] self.records[i].id <= self.last_id
    }

    /// The store as it is at process start.
    pub open spec fn empty() -> StoreModel {
        StoreModel { records: Seq::empty(), last_id: 0 }
    }

    /// Whether one more id can be assigned without leaving `u32`.
    pub open spec fn can_add(self) -> bool {
        self.last_id < u32::MAX
    }

    /// Whether a record with this id is stored.
    pub open spec fn contains(self, id: u32) -> bool {
        exists|i: int| 0 <= i < self.records.len() && #[trigger] self.records[i].id == id
    }

    /// The position of the record with this id, or -1 when there is none.
    pub open spec fn position_of(self, id: u32) -> int {
        if self.contains(id) {
            choose|i: int| 0 <= i < self.records.len() && #[trigger] self.records[i].id == id
        } else {
            -1
        }
    }

    /// In a well-formed store the record at position `i` is the one found
    /// under its id.
    pub proof fn lemma_position_of(self, i: int)
        requires
            self.wf(),
            0 <= i < self.records.len(),
        ensures
            self.contains(self.records[i].id),
            self.position_of(self.records[i].id) == i,
    {
        let id = self.records[i].id;
        assert(self.records[i].id == id);
        let j = self.position_of(id);
        if j < i {
            assert(self.records[j].id < self.records[i].id);
        } else if i < j {
            assert(self.records[i].id < self.records[j].id);
        }
    }

    /// Adding keeps the store well formed.
    pub proof fn lemma_add_wf(self, text: Seq<char>)
        requires
            self.wf(),
            self.can_add(),
        ensures
            self.add(text).0.wf(),
    {
        let after = self.add(text).0;
        assert forall|i: int, j: int| 0 <= i < j < after.records.len() implies #[trigger] after.records[i].id
            < #[trigger] after.records[j].id by {
            if j == self.records.len() {
                assert(self.records[i].id <= self.last_id);
            } else {
                assert(self.records[i].id < self.records[j].id);
            }
        }
    }

    /// Removing keeps the store well formed.
    pub proof fn lemma_remove_wf(self, id: u32)
        requires
            self.wf(),
        ensures
            self.remove(id).0.wf(),
    {
        if self.contains(id) {
            let p = self.position_of(id);
            let after = self.remove(id).0;
            assert forall|i: int, j: int| 0 <= i < j < after.records.len() implies #[trigger] after.records[i].id
                < #[trigger] after.records[j].id by {
                let i0 = if i < p { i } else { i + 1 };
                let j0 = if j < p { j } else { j + 1 };
                assert(self.records[i0].id < self.records[j0].id);
            }
            assert forall|i: int| 0 <= i < after.records.len() implies #[trigger] after.records[i].id
                <= after.last_id by {
                let i0 = if i < p { i } else { i + 1 };
                assert(self.records[i0].id <= self.last_id);
            }
        }
    }

    /// Updating keeps the store well formed.
    pub proof fn lemma_update_wf(self, id: u32, text: Option<Seq<char>>, completed: Option<bool>)
        requires
            self.wf(),
        ensures
            self.update(id, text, completed).0.wf(),
    {
        if self.contains(id) {
            let p = self.position_of(id);
            let after = self.update(id, text, completed).0;
            assert forall|i: int, j: int| 0 <= i < j < after.records.len() implies #[trigger] after.records[i].id
                < #[trigger] after.records[j].id by {
                assert(self.records[i].id < self.records[j].id);
            }
            assert forall|i: int| 0 <= i < after.records.len() implies #[trigger] after.records[i].id
                <= after.last_id by {
                assert(self.records[i].id <= self.last_id);
            }
        }
    }

    /// The record with this id, if any.
    pub open spec fn lookup(self, id: u32) -> Option<TodoView> {
        if self.contains(id) {
            Some(self.records[self.position_of(id)])
        } else {
            None
        }
    }

    /// `add(text)`: a new record with the next id, not completed, appended
    /// after every stored record; the id is returned.
    pub open spec fn add(self, text: Seq<char>) -> (StoreModel, u32) {
        let id = (self.last_id + 1) as u32;
        (
            StoreModel {
                records: self.records.push(TodoView { id, text, completed: false }),
                last_id: self.last_id + 1,
            },
            id,
        )
    }

    /// `remove(id)`: the record with this id leaves the store and is
    /// returned; an absent id changes nothing and returns `None`.
    pub open spec fn remove(self, id: u32) -> (StoreModel, Option<TodoView>) {
        if self.contains(id) {
            (
                StoreModel {
                    records: self.records.remove(self.position_of(id)),
                    last_id: self.last_id,
                },
                Some(self.records[self.position_of(id)]),
            )
        } else {
            (self, None)
        }
    }

    /// `update(id, text, completed)`: each field that is given replaces the
    /// stored one; the record after the change is returned. An absent id
    /// changes nothing and returns `None`.
    pub open spec fn update(self, id: u32, text: Option<Seq<char>>, completed: Option<bool>) -> (
        StoreModel,
        Option<TodoView>,
    ) {
        if self.contains(id) {
            let p = self.position_of(id);
            let t = patched(self.records[p], text, completed);
            (StoreModel { records: self.records.update(p, t), last_id: self.last_id }, Some(t))
        } else {
            (self, None)
        }
    }

    /// `listPaginated(offset, limit)`: the records in ascending id order,
    /// after skipping `offset` of them, at most `limit` of them.
    pub open spec fn page(self, offset: nat, limit: nat) -> Seq<TodoView> {
        let n = self.records.len();
        let start = if offset < n { offset } else { n };
        let end = if start + limit < n { start + limit } else { n };
        self.records.subrange(start as int, end as int)
    }
}

/// A record with the given fields replaced.
pub open spec fn patched(t: TodoView, text: Option<Seq<char>>, completed: Option<bool>) -> TodoView {
    TodoView {
        id: t.id,
        text: match text {
            Some(s) => s,
            None => t.text,
        },
        completed: match completed {
            Some(c) => c,
            None => t.completed,
        },
    }
}

} // verus!
