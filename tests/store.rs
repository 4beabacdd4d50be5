use todo_app_backend::store::{Todo, Todos};

fn text(s: &str) -> String {
    s.to_string()
}

fn ids(todos: &[Todo]) -> Vec<u32> {
    todos.iter().map(|t| t.id).collect()
}

fn filled(texts: &[&str]) -> Todos {
    let mut store = Todos::new();
    for t in texts {
        store.add_todo(text(t));
    }
    store
}

#[test]
fn remove_then_add_does_not_reuse_ids() {
    let mut store = Todos::new();
    assert_eq!(store.add_todo(text("buy milk")), 1);
    assert_eq!(store.add_todo(text("walk dog")), 2);
    let removed = store.remove_todo_by_id(1).expect("present");
    assert_eq!(removed.id, 1);
    assert_eq!(removed.text, "buy milk");
    assert!(!removed.completed);
    let page = store.get_todos_paginates(0, 10);
    assert_eq!(page.len(), 1);
    assert_eq!(page[0].id, 2);
    assert_eq!(page[0].text, "walk dog");
    assert!(!page[0].completed);
    assert_eq!(store.add_todo(text("read book")), 3);
}

#[test]
fn update_completed_is_persisted() {
    let mut store = Todos::new();
    store.add_todo(text("buy milk"));
    store.add_todo(text("walk dog"));
    store.remove_todo_by_id(1);
    store.add_todo(text("read book"));
    let updated = store.update_todo_by_id(2, None, Some(true)).expect("present");
    assert_eq!(updated.id, 2);
    assert_eq!(updated.text, "walk dog");
    assert!(updated.completed);
    let got = store.get_todo_by_id(2).expect("present");
    assert_eq!(got.id, 2);
    assert_eq!(got.text, "walk dog");
    assert!(got.completed);
}

#[test]
fn ids_strictly_increase_over_adds_and_removes() {
    let mut store = Todos::new();
    let mut last = 0;
    for round in 0..20u32 {
        let id = store.add_todo(format!("item {}", round));
        assert!(id > last);
        last = id;
        if round % 3 == 0 {
            // removing the newest record must not let its id come back
            assert!(store.remove_todo_by_id(id).is_some());
        }
    }
    assert_eq!(last, 20);
}

#[test]
fn removing_the_largest_id_does_not_reuse_it() {
    let mut store = filled(&["a", "b"]);
    assert!(store.remove_todo_by_id(2).is_some());
    assert_eq!(store.add_todo(text("c")), 3);
}

#[test]
fn get_after_add_returns_the_added_record() {
    let mut store = filled(&["x", "y"]);
    let id = store.add_todo(text("hello"));
    let got = store.get_todo_by_id(id).expect("present");
    assert_eq!(got.id, id);
    assert_eq!(got.text, "hello");
    assert!(!got.completed);
}

#[test]
fn add_accepts_empty_text() {
    let mut store = Todos::new();
    let id = store.add_todo(String::new());
    assert_eq!(id, 1);
    assert_eq!(store.get_todo_by_id(1).expect("present").text, "");
}

#[test]
fn remove_absent_changes_nothing() {
    let mut store = filled(&["a", "b", "c"]);
    assert!(store.remove_todo_by_id(7).is_none());
    assert!(store.remove_todo_by_id(0).is_none());
    let all = store.get_todos_paginates(0, 100);
    assert_eq!(ids(&all), vec![1, 2, 3]);
    assert_eq!(all[1].text, "b");
}

#[test]
fn remove_present_removes_exactly_one() {
    let mut store = filled(&["a", "b", "c"]);
    let removed = store.remove_todo_by_id(2).expect("present");
    assert_eq!(removed.text, "b");
    assert!(store.get_todo_by_id(2).is_none());
    assert!(store.remove_todo_by_id(2).is_none());
    let all = store.get_todos_paginates(0, 100);
    assert_eq!(ids(&all), vec![1, 3]);
    assert_eq!(store.get_todo_by_id(3).expect("present").text, "c");
}

#[test]
fn update_text_only_keeps_completed() {
    let mut store = filled(&["a", "b"]);
    store.update_todo_by_id(1, None, Some(true));
    let before = store.get_todo_by_id(1).expect("present");
    let updated = store.update_todo_by_id(1, Some(text("x")), None).expect("present");
    assert_eq!(updated.text, "x");
    assert_eq!(updated.completed, before.completed);
    let after = store.get_todo_by_id(1).expect("present");
    assert_eq!(after.text, "x");
    assert!(after.completed);
    assert_eq!(store.get_todo_by_id(2).expect("present").text, "b");
}

#[test]
fn update_both_fields() {
    let mut store = filled(&["a"]);
    let updated = store.update_todo_by_id(1, Some(text("z")), Some(true)).expect("present");
    assert_eq!(updated.id, 1);
    assert_eq!(updated.text, "z");
    assert!(updated.completed);
    let cleared = store.update_todo_by_id(1, None, Some(false)).expect("present");
    assert_eq!(cleared.text, "z");
    assert!(!cleared.completed);
}

#[test]
fn update_with_nothing_returns_unchanged_record() {
    let mut store = filled(&["a"]);
    let same = store.update_todo_by_id(1, None, None).expect("present");
    assert_eq!(same.id, 1);
    assert_eq!(same.text, "a");
    assert!(!same.completed);
}

#[test]
fn update_absent_changes_nothing() {
    let mut store = filled(&["a", "b"]);
    assert!(store.update_todo_by_id(5, Some(text("x")), Some(true)).is_none());
    let all = store.get_todos_paginates(0, 10);
    assert_eq!(ids(&all), vec![1, 2]);
    assert_eq!(all[0].text, "a");
    assert!(!all[0].completed);
    assert_eq!(all[1].text, "b");
}

#[test]
fn get_absent_is_none() {
    let store = filled(&["a"]);
    assert!(store.get_todo_by_id(2).is_none());
    assert!(Todos::new().get_todo_by_id(1).is_none());
}

#[test]
fn page_windows() {
    let store = filled(&["a", "b", "c", "d", "e"]);
    assert_eq!(ids(&store.get_todos_paginates(1, 2)), vec![2, 3]);
    assert_eq!(ids(&store.get_todos_paginates(3, 10)), vec![4, 5]);
    assert_eq!(ids(&store.get_todos_paginates(0, 5)), vec![1, 2, 3, 4, 5]);
    assert_eq!(store.get_todos_paginates(1, 2)[0].text, "b");
}

#[test]
fn page_out_of_range_is_empty() {
    let store = filled(&["a", "b"]);
    assert!(store.get_todos_paginates(2, 10).is_empty());
    assert!(store.get_todos_paginates(u32::MAX, u32::MAX).is_empty());
    assert!(store.get_todos_paginates(0, 0).is_empty());
    assert!(Todos::new().get_todos_paginates(0, 10).is_empty());
}

#[test]
fn page_is_ordered_and_bounded() {
    let mut store = filled(&["a", "b", "c", "d", "e", "f"]);
    store.remove_todo_by_id(3);
    store.add_todo(text("g"));
    for offset in 0..8u32 {
        for limit in 0..8u32 {
            let page = store.get_todos_paginates(offset, limit);
            assert!(page.len() <= limit as usize);
            assert!(page.windows(2).all(|w| w[0].id < w[1].id));
        }
    }
    assert_eq!(ids(&store.get_todos_paginates(0, u32::MAX)), vec![1, 2, 4, 5, 6, 7]);
}

#[test]
fn snapshot_copies_every_field() {
    let t = Todo { id: 9, text: text("copy me"), completed: true };
    let c = t.snapshot();
    assert_eq!(c.id, 9);
    assert_eq!(c.text, "copy me");
    assert!(c.completed);
}

#[test]
fn fresh_store_can_add_and_default_is_empty() {
    let store = Todos::default();
    assert!(store.can_add());
    assert!(store.get_todos_paginates(0, 10).is_empty());
    let mut store = store;
    assert_eq!(store.add_todo(text("first")), 1);
}
