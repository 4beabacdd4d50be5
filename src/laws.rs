//! Properties that relate the store's operations, proved on its model.
use vstd::prelude::*;

use crate::model::{StoreModel, TodoView};

verus! {

/// The store after adding each text in turn, and the ids handed out.
pub open spec fn add_each(m: StoreModel, texts: Seq<Seq<char>>) -> (StoreModel, Seq<u32>)
    decreases texts.len(),
{
    if texts.len() == 0 {
        (m, Seq::empty())
    } else {
        let (m1, id) = m.add(texts[0]);
        let (m2, ids) = add_each(m1, texts.drop_first());
        (m2, seq![id] + ids)
    }
}

/// Over any run of adds, each id handed out is greater than every id
/// assigned before it: those assigned before the run, and those handed out
/// earlier in the run.
pub proof fn law_add_ids_increase(m: StoreModel, texts: Seq<Seq<char>>)
    requires
        m.wf(),
        m.last_id + texts.len() <= u32::MAX,
    ensures
        ({
            let (after, ids) = add_each(m, texts);
            &&& after.wf()
            &&& after.last_id == m.last_id + texts.len()
            &&& ids.len() == texts.len()
            &&& forall|i: int| 0 <= i < ids.len() ==> m.last_id < #[trigger] ids[i]
            &&& forall|i: int, j: int| 0 <= i < j < ids.len() ==> #[trigger] ids[i] < #[trigger] ids[j]
        }),
    decreases texts.len(),
{
    if texts.len() > 0 {
        let (m1, id) = m.add(texts[0]);
        m.lemma_add_wf(texts[0]);
        law_add_ids_increase(m1, texts.drop_first());
        let (after, rest) = add_each(m1, texts.drop_first());
        let ids = seq![id] + rest;
        assert forall|i: int, j: int| 0 <= i < j < ids.len() implies #[trigger] ids[i] < #[trigger] ids[j] by {
            if i > 0 {
                assert(ids[i] == rest[i - 1] && ids[j] == rest[j - 1]);
            } else {
                assert(ids[j] == rest[j - 1]);
            }
        }
        assert forall|i: int| 0 <= i < ids.len() implies m.last_id < #[trigger] ids[i] by {
            if i > 0 {
                assert(ids[i] == rest[i - 1]);
            }
        }
    }
}

/// A lookup of the id that `add` returned finds the added record, not
/// completed.
pub proof fn law_get_after_add(m: StoreModel, text: Seq<char>)
    requires
        m.wf(),
        m.can_add(),
    ensures
        ({
            let (after, id) = m.add(text);
            after.lookup(id) == Some(TodoView { id, text, completed: false })
        }),
{
    m.lemma_add_wf(text);
    let after = m.add(text).0;
    after.lemma_position_of(m.records.len() as int);
}

/// Removing an absent id returns nothing and leaves the store as it was.
pub proof fn law_remove_absent(m: StoreModel, id: u32)
    requires
        m.wf(),
        m.lookup(id) is None,
    ensures
        m.remove(id).1 is None,
        m.remove(id).0 == m,
{
}

/// Removing a present id returns its record, takes exactly that record out,
/// and leaves every other id's record where lookup finds it.
pub proof fn law_remove_present(m: StoreModel, id: u32)
    requires
        m.wf(),
        m.lookup(id) is Some,
    ensures
        ({
            let (after, r) = m.remove(id);
            &&& r == m.lookup(id)
            &&& after.records.len() == m.records.len() - 1
            &&& after.lookup(id) is None
            &&& forall|other: u32| other != id ==> #[trigger] after.lookup(other) == m.lookup(other)
        }),
{
    let p = m.position_of(id);
    let after = m.remove(id).0;
    m.lemma_remove_wf(id);
    assert(!after.contains(id)) by {
        if after.contains(id) {
            let q = after.position_of(id);
            let q0 = if q < p { q } else { q + 1 };
            m.lemma_position_of(q0);
        }
    }
    assert forall|other: u32| other != id implies #[trigger] after.lookup(other) == m.lookup(other) by {
        if m.contains(other) {
            let q = m.position_of(other);
            let q1 = if q < p { q } else { q - 1 };
            assert(q != p);
            assert(after.records[q1] == m.records[q]);
            after.lemma_position_of(q1);
        }
        if after.contains(other) {
            let q = after.position_of(other);
            let q0 = if q < p { q } else { q + 1 };
            assert(after.records[q] == m.records[q0]);
            m.lemma_position_of(q0);
        }
    }
}

/// Updating only the text of a present record replaces its text, keeps its
/// id and completion flag, and a lookup afterwards reads the new record.
pub proof fn law_update_text_only(m: StoreModel, id: u32, text: Seq<char>)
    requires
        m.wf(),
        m.lookup(id) is Some,
    ensures
        ({
            let before = m.lookup(id)->0;
            let (after, r) = m.update(id, Some(text), None);
            &&& r == Some(TodoView { id, text, completed: before.completed })
            &&& after.lookup(id) == r
            &&& after.records.len() == m.records.len()
            &&& forall|other: u32| other != id ==> #[trigger] after.lookup(other) == m.lookup(other)
        }),
{
    let p = m.position_of(id);
    let after = m.update(id, Some(text), None).0;
    m.lemma_update_wf(id, Some(text), None);
    after.lemma_position_of(p);
    assert forall|other: u32| other != id implies #[trigger] after.lookup(other) == m.lookup(other) by {
        if m.contains(other) {
            let q = m.position_of(other);
            assert(q != p);
            after.lemma_position_of(q);
        }
        if after.contains(other) {
            let q = after.position_of(other);
            assert(q != p);
            m.lemma_position_of(q);
        }
    }
}

/// Updating an absent id returns nothing and leaves the store as it was.
pub proof fn law_update_absent(
    m: StoreModel,
    id: u32,
    text: Option<Seq<char>>,
    completed: Option<bool>,
)
    requires
        m.wf(),
        m.lookup(id) is None,
    ensures
        m.update(id, text, completed).1 is None,
        m.update(id, text, completed).0 == m,
{
}

/// A page lists records in increasing id order and holds at most `limit`
/// of them; a page from offset 0 whose limit covers the store lists every
/// record.
pub proof fn law_page(m: StoreModel, offset: nat, limit: nat)
    requires
        m.wf(),
    ensures
        forall|i: int, j: int|
            0 <= i < j < m.page(offset, limit).len() ==> #[trigger] m.page(offset, limit)[i].id
                < #[trigger] m.page(offset, limit)[j].id,
        m.page(offset, limit).len() <= limit,
        limit >= m.records.len() ==> m.page(0, limit) == m.records,
{
    assert(m.records.subrange(0, m.records.len() as int) =~= m.records);
}

} // verus!
